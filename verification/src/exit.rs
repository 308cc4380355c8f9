//! Exit codes. Stable: scripts assert on these.
use vstd::prelude::*;

verus! {

pub const OK: u8 = 0;

pub const FAILED: u8 = 1;

/// Bad usage.
pub const USAGE: u8 = 2;

/// A daemon could not be reached, which is another problem than a rejected command.
pub const UNREACHABLE: u8 = 3;

/// Another update is in flight: retry rather than fail.
pub const BUSY: u8 = 4;

/// Refused: the request was understood and the answer is no.
pub const REFUSED: u8 = 5;

/// Not permitted: run as somebody else.
pub const DENIED: u8 = 6;

} // verus!
