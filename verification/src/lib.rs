use vstd::prelude::*;

verus! {

/// The connector as a server frames it: a marker the front end hangs the
/// engine's behaviour on; everything it does lives in the query engine and
/// the configuration.
#[derive(Clone, Copy, Debug, Default)]
pub struct Calcite {}

/// The absent value, used where a configuration field has no default.
pub fn default_as_none() -> (r: Option<String>)
    ensures
        r is None,
{
    None
}

} // verus!

pub mod calcite_model;
pub mod cli;
pub mod config;
pub mod decode;
pub mod laws;
pub mod model;
pub mod query;
pub mod row;
pub mod sql;
pub mod text;
pub mod value;
pub mod version;
