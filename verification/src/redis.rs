//! The Redis driver's query language checks.
use vstd::prelude::*;
use crate::dynamo::service::ValidationResult;

verus! {

/// Redis accepts any command text; it checks no syntax before sending.
#[derive(Debug, Clone, Copy)]
pub struct RedisLanguageService;

impl RedisLanguageService {
    /// Every query passes.
    pub fn validate(&self, query: &str) -> (r: ValidationResult)
        ensures
            r is Valid,
    {
        ValidationResult::Valid
    }
}

} // verus!
