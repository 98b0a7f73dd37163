//! Engine side: protocols, search profiles, output parsing and the chessdb cloud book.
use vstd::prelude::*;

pub mod chessdb;
pub mod event;
pub mod parser;
pub mod profile;
pub mod protocol;
pub mod query;
pub mod session;

verus! {

/// Minimal health check of the engine side.
pub fn engine_healthcheck() -> (s: &'static str)
    ensures
        s@ == "xq-engine/ok"@,
{
    "xq-engine/ok"
}

} // verus!
