//! How DynamoDB failures are described to the user and which driver error
//! each becomes.
use vstd::prelude::*;
use crate::dynamo::driver::DynamoProfileConfig;
use crate::error::{DbError, DbErrorView, FormattedError, FormattedErrorView, opt_view};
use crate::text::{cat, contains, spec_contains};

verus! {

/// Error codes that mean the caller's credentials were rejected.
pub open spec fn auth_codes() -> Seq<Seq<char>> {
    seq![
        "UnrecognizedClientException"@, "InvalidSignatureException"@, "ExpiredTokenException"@,
        "IncompleteSignatureException"@, "MissingAuthenticationToken"@,
    ]
}

/// Error codes that mean the request was throttled.
pub open spec fn throttle_codes() -> Seq<Seq<char>> {
    seq!["ProvisionedThroughputExceededException"@, "ThrottlingException"@, "RequestLimitExceeded"@]
}

/// The hint given for a service error code.
pub open spec fn code_hint(code: Option<Seq<char>>) -> Option<Seq<char>> {
    match code {
        Some(c) => if auth_codes().contains(c) {
            Some("Check AWS credentials (environment, profile, or SSO session) and retry."@)
        } else if c == "AccessDeniedException"@ {
            Some("Check IAM permissions for dynamodb:ListTables in the selected region."@)
        } else if c == "ResourceNotFoundException"@ {
            Some("Check resource names and ensure you are using the intended AWS region/account."@)
        } else if c == "ValidationException"@ {
            Some("Review request fields (region, endpoint, table/key names) and try again."@)
        } else if throttle_codes().contains(c) {
            Some("Request was throttled. Retry with backoff or reduce request rate."@)
        } else {
            None
        },
        None => None,
    }
}

/// The detail line naming where the request went.
pub open spec fn config_detail(region: Seq<char>, endpoint: Option<Seq<char>>) -> Seq<char> {
    match endpoint {
        Some(e) => "region="@ + region + ", endpoint_override="@ + e,
        None => "region="@ + region,
    }
}

/// How a service error is described: its message and code, the hint for the
/// code, retriable when throttled, and where the request went.
pub open spec fn spec_format_from_code(
    code: Option<Seq<char>>,
    message: Seq<char>,
    region: Seq<char>,
    endpoint: Option<Seq<char>>,
) -> FormattedErrorView {
    FormattedErrorView {
        message,
        code,
        hint: code_hint(code),
        detail: Some(config_detail(region, endpoint)),
        retriable: code matches Some(c) && throttle_codes().contains(c),
    }
}

/// How an error without a service code is described, given the message in
/// lower case: missing credentials, timeouts and unreachable endpoints get a
/// fixed message and hint; anything else keeps its message.
pub open spec fn spec_format_sdk_message(
    message: Seq<char>,
    lower: Seq<char>,
    region: Seq<char>,
    endpoint: Option<Seq<char>>,
) -> FormattedErrorView {
    let detail = Some(config_detail(region, endpoint));
    if spec_contains(lower, "credential"@) || spec_contains(lower, "token"@) {
        FormattedErrorView {
            message: "AWS credentials were not found or are invalid."@,
            code: None,
            hint: Some("Configure credentials via AWS profile, environment, or SSO login."@),
            detail,
            retriable: false,
        }
    } else if spec_contains(lower, "timed out"@) || spec_contains(lower, "timeout"@) {
        FormattedErrorView {
            message: "Connection to DynamoDB timed out."@,
            code: None,
            hint: Some("Check network connectivity, endpoint reachability, and region."@),
            detail,
            retriable: true,
        }
    } else if spec_contains(lower, "dns"@) || spec_contains(lower, "resolve"@) || spec_contains(lower, "endpoint"@)
        || spec_contains(lower, "connection refused"@) {
        FormattedErrorView {
            message: "Unable to reach DynamoDB endpoint."@,
            code: None,
            hint: Some("Check endpoint override and region configuration."@),
            detail,
            retriable: false,
        }
    } else {
        FormattedErrorView { message, code: None, hint: None, detail, retriable: false }
    }
}

/// `str::to_lowercase`: the Unicode lower case of a text.
pub uninterp spec fn spec_to_lowercase(s: Seq<char>) -> Seq<char>;

/// `str::to_lowercase`, whose result is named by `spec_to_lowercase`; the
/// Unicode case tables are std's and not restated here.
#[verifier::external_body]
pub(crate) fn lowercase(s: &str) -> (r: String)
    ensures
        r@ == spec_to_lowercase(s@),
{
    s.to_lowercase()
}

/// A failed DynamoDB call: a service error with its code and message, or a
/// failure before any service answer (credentials, network, timeouts), with
/// its description.
#[derive(Debug)]
pub enum SdkFailure {
    Service { code: Option<String>, message: Option<String> },
    Transport(String),
}

fn is_one_of(code: &str, names: &Vec<&str>) -> (r: bool)
    ensures
        r == crate::text::str_views(names@).contains(code@),
{
    crate::text::str_in(code, names)
}

fn detail_text(config: &DynamoProfileConfig) -> (r: String)
    ensures
        r@ == config_detail(config.region@, opt_view(config.endpoint)),
{
    match &config.endpoint {
        Some(endpoint) => {
            let mut s = cat("region=", config.region.as_str());
            s.append(", endpoint_override=");
            s.append(endpoint.as_str());
            s
        },
        None => cat("region=", config.region.as_str()),
    }
}

fn hint_for(code: &str) -> (r: Option<&'static str>)
    ensures
        match r {
            Some(h) => code_hint(Some(code@)) == Some(h@),
            None => code_hint(Some(code@)) is None,
        },
{
    let auth: Vec<&str> = vec![
        "UnrecognizedClientException", "InvalidSignatureException", "ExpiredTokenException",
        "IncompleteSignatureException", "MissingAuthenticationToken",
    ];
    assert(crate::text::str_views(auth@) =~= auth_codes());
    let throttle: Vec<&str> = vec!["ProvisionedThroughputExceededException", "ThrottlingException", "RequestLimitExceeded"];
    assert(crate::text::str_views(throttle@) =~= throttle_codes());
    if is_one_of(code, &auth) {
        Some("Check AWS credentials (environment, profile, or SSO session) and retry.")
    } else if crate::text::str_eq(code, "AccessDeniedException") {
        Some("Check IAM permissions for dynamodb:ListTables in the selected region.")
    } else if crate::text::str_eq(code, "ResourceNotFoundException") {
        Some("Check resource names and ensure you are using the intended AWS region/account.")
    } else if crate::text::str_eq(code, "ValidationException") {
        Some("Review request fields (region, endpoint, table/key names) and try again.")
    } else if is_one_of(code, &throttle) {
        Some("Request was throttled. Retry with backoff or reduce request rate.")
    } else {
        None
    }
}

fn is_throttle_code(code: &str) -> (r: bool)
    ensures
        r == throttle_codes().contains(code@),
{
    let throttle: Vec<&str> = vec!["ProvisionedThroughputExceededException", "ThrottlingException", "RequestLimitExceeded"];
    assert(crate::text::str_views(throttle@) =~= throttle_codes());
    is_one_of(code, &throttle)
}

fn is_auth_code(code: &str) -> (r: bool)
    ensures
        r == auth_codes().contains(code@),
{
    let auth: Vec<&str> = vec![
        "UnrecognizedClientException", "InvalidSignatureException", "ExpiredTokenException",
        "IncompleteSignatureException", "MissingAuthenticationToken",
    ];
    assert(crate::text::str_views(auth@) =~= auth_codes());
    is_one_of(code, &auth)
}

pub open spec fn opt_str_view(o: Option<&str>) -> Option<Seq<char>> {
    match o {
        Some(s) => Some(s@),
        None => None,
    }
}

/// Describes DynamoDB failures for the user.
#[derive(Debug)]
pub struct DynamoErrorFormatter;

impl DynamoErrorFormatter {
    /// Describes a service error by its code.
    pub fn format_from_code(&self, code: Option<&str>, message: &str, config: &DynamoProfileConfig) -> (r: FormattedError)
        ensures
            r@ == spec_format_from_code(opt_str_view(code), message@, config.region@, opt_view(config.endpoint)),
    {
        let mut formatted = FormattedError::new(String::from_str(message));
        if let Some(code_value) = code {
            formatted = formatted.with_code(String::from_str(code_value));
        }
        let hint = match code {
            Some(c) => hint_for(c),
            None => None,
        };
        if let Some(hint_value) = hint {
            formatted = formatted.with_hint(String::from_str(hint_value));
        }
        let throttled = match code {
            Some(c) => is_throttle_code(c),
            None => false,
        };
        if throttled {
            formatted = formatted.with_retriable(true);
        }
        formatted.with_detail(detail_text(config))
    }

    /// Describes an error without a service code, from its lower-cased message.
    pub fn format_sdk_message_lowered(
        &self,
        message: &str,
        lower: &str,
        config: &DynamoProfileConfig,
    ) -> (r: FormattedError)
        ensures
            r@ == spec_format_sdk_message(message@, lower@, config.region@, opt_view(config.endpoint)),
    {
        let formatted = if contains(lower, "credential") || contains(lower, "token") {
            FormattedError::new(String::from_str("AWS credentials were not found or are invalid.")).with_hint(
                String::from_str("Configure credentials via AWS profile, environment, or SSO login."),
            )
        } else if contains(lower, "timed out") || contains(lower, "timeout") {
            FormattedError::new(String::from_str("Connection to DynamoDB timed out.")).with_hint(
                String::from_str("Check network connectivity, endpoint reachability, and region."),
            ).with_retriable(true)
        } else if contains(lower, "dns") || contains(lower, "resolve") || contains(lower, "endpoint") || contains(
            lower,
            "connection refused",
        ) {
            FormattedError::new(String::from_str("Unable to reach DynamoDB endpoint.")).with_hint(
                String::from_str("Check endpoint override and region configuration."),
            )
        } else {
            FormattedError::new(String::from_str(message))
        };
        formatted.with_detail(detail_text(config))
    }

    /// Describes an error without a service code, by what its message mentions.
    pub fn format_sdk_message(&self, message: &str, config: &DynamoProfileConfig) -> (r: FormattedError)
        ensures
            r@ == spec_format_sdk_message(message@, spec_to_lowercase(message@), config.region@, opt_view(config.endpoint)),
    {
        let lower = lowercase(message);
        self.format_sdk_message_lowered(message, lower.as_str(), config)
    }

    /// Describes any failed call: a service error by its code (with a generic
    /// message when it has none), anything else by its description.
    pub fn format_sdk_error(&self, failure: &SdkFailure, config: &DynamoProfileConfig) -> (r: FormattedError)
        ensures
            match failure {
                SdkFailure::Service { code, message } => r@ == spec_format_from_code(
                    opt_view(*code),
                    match message {
                        Some(m) => m@,
                        None => "DynamoDB service error"@,
                    },
                    config.region@,
                    opt_view(config.endpoint),
                ),
                SdkFailure::Transport(text) => r@ == spec_format_sdk_message(
                    text@,
                    spec_to_lowercase(text@),
                    config.region@,
                    opt_view(config.endpoint),
                ),
            },
    {
        match failure {
            SdkFailure::Service { code, message } => {
                let code_str: Option<&str> = match code {
                    Some(c) => Some(c.as_str()),
                    None => None,
                };
                let message_str: &str = match message {
                    Some(m) => m.as_str(),
                    None => "DynamoDB service error",
                };
                self.format_from_code(code_str, message_str, config)
            },
            SdkFailure::Transport(text) => self.format_sdk_message(text.as_str(), config),
        }
    }
}

/// The driver error a failed connection-level call becomes.
pub open spec fn spec_classify_connection(f: FormattedErrorView) -> DbErrorView {
    match f.code {
        Some(c) => if auth_codes().contains(c) {
            DbErrorView::AuthFailed(f)
        } else if c == "AccessDeniedException"@ {
            DbErrorView::PermissionDenied(f)
        } else if c == "ResourceNotFoundException"@ {
            DbErrorView::ObjectNotFound(f)
        } else {
            DbErrorView::ConnectionFailed(f)
        },
        None => DbErrorView::ConnectionFailed(f),
    }
}

/// The driver error a failed query-level call becomes; throttling marks it retriable.
pub open spec fn spec_classify_query(f: FormattedErrorView) -> DbErrorView {
    match f.code {
        Some(c) => if auth_codes().contains(c) {
            DbErrorView::AuthFailed(f)
        } else if c == "AccessDeniedException"@ {
            DbErrorView::PermissionDenied(f)
        } else if c == "ResourceNotFoundException"@ {
            DbErrorView::ObjectNotFound(f)
        } else if throttle_codes().contains(c) {
            DbErrorView::QueryFailed(FormattedErrorView { retriable: true, ..f })
        } else {
            DbErrorView::QueryFailed(f)
        },
        None => DbErrorView::QueryFailed(f),
    }
}

/// The driver error for a failed connection-level call (connect, list, describe).
pub fn classify_connection_error(formatted: FormattedError) -> (r: DbError)
    ensures
        r@ == spec_classify_connection(formatted@),
{
    let (auth, denied, missing) = match &formatted.code {
        Some(c) => (is_auth_code(c.as_str()), crate::text::str_eq(c.as_str(), "AccessDeniedException"),
            crate::text::str_eq(c.as_str(), "ResourceNotFoundException")),
        None => (false, false, false),
    };
    if auth {
        DbError::AuthFailed(formatted)
    } else if denied {
        DbError::PermissionDenied(formatted)
    } else if missing {
        DbError::ObjectNotFound(formatted)
    } else {
        DbError::ConnectionFailed(formatted)
    }
}

/// The driver error for a failed query-level call (scan, query, put, update, delete).
pub fn classify_query_error(formatted: FormattedError) -> (r: DbError)
    ensures
        r@ == spec_classify_query(formatted@),
{
    let (auth, denied, missing, throttled) = match &formatted.code {
        Some(c) => (is_auth_code(c.as_str()), crate::text::str_eq(c.as_str(), "AccessDeniedException"),
            crate::text::str_eq(c.as_str(), "ResourceNotFoundException"), is_throttle_code(c.as_str())),
        None => (false, false, false, false),
    };
    if auth {
        DbError::AuthFailed(formatted)
    } else if denied {
        DbError::PermissionDenied(formatted)
    } else if missing {
        DbError::ObjectNotFound(formatted)
    } else if throttled {
        DbError::QueryFailed(formatted.with_retriable(true))
    } else {
        DbError::QueryFailed(formatted)
    }
}

} // verus!
