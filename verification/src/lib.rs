use vstd::prelude::*;

pub mod access;
pub mod assets;
pub mod audit;
pub mod config;
pub mod ddl;
pub mod dynamo;
pub mod error;
pub mod governance;
pub mod hooks;
pub mod json;
pub mod keyed;
pub mod modals;
pub mod profile;
pub mod query_json;
pub mod redis;
pub mod rpc;
pub mod storage;
pub mod strmap;
pub mod text;
pub mod ui;

verus! {

} // verus!
