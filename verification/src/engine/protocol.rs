//! Engine protocols.
use vstd::prelude::*;

verus! {

/// Supported engine protocols.
#[derive(Debug, Clone, Copy, PartialEq, Eq, Hash, Structural)]
pub enum EngineProtocol {
    Uci,
    Ucci,
}

impl EngineProtocol {
    pub open spec fn spec_name(self) -> Seq<char> {
        match self {
            EngineProtocol::Uci => "uci"@,
            EngineProtocol::Ucci => "ucci"@,
        }
    }

    /// Name of the protocol: `uci` or `ucci`.
    pub fn as_str(self) -> (s: &'static str)
        ensures
            s@ == self.spec_name(),
    {
        match self {
            EngineProtocol::Uci => "uci",
            EngineProtocol::Ucci => "ucci",
        }
    }
}

} // verus!
