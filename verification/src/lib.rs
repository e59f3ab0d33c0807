use vstd::prelude::*;

pub mod catalog;
pub mod catalogue;
mod clock;
pub mod reissuance;
pub mod server_config;
pub mod json;
pub mod json_schema_validation;
pub mod template;
pub mod text;
pub mod utils;

verus! {

} // verus!
