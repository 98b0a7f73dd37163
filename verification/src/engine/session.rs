//! Decisions of the engine handshake: which line acknowledges which request.
use vstd::prelude::*;
use crate::engine::protocol::EngineProtocol;
use crate::text::{chars_eq_str, str_chars};

verus! {

/// Whether `line` acknowledges the protocol handshake: `uciok` for UCI;
/// `ucciok`, or `uciok` as some engines answer, for UCCI.
pub fn is_handshake_ack(protocol: EngineProtocol, line: &str) -> (b: bool)
    ensures
        b == match protocol {
            EngineProtocol::Uci => line@ == "uciok"@,
            EngineProtocol::Ucci => line@ == "ucciok"@ || line@ == "uciok"@,
        },
{
    let chars = str_chars(line);
    match protocol {
        EngineProtocol::Uci => chars_eq_str(chars.as_slice(), "uciok"),
        EngineProtocol::Ucci => chars_eq_str(chars.as_slice(), "ucciok") || chars_eq_str(chars.as_slice(), "uciok"),
    }
}

/// Whether `line` answers `isready`.
pub fn is_ready_ack(line: &str) -> (b: bool)
    ensures
        b == (line@ == "readyok"@),
{
    let chars = str_chars(line);
    chars_eq_str(chars.as_slice(), "readyok")
}

} // verus!
