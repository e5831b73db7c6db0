//! GPA attribute bits for `TDG.MEM.PAGE.ATTR.WR`.
use vstd::prelude::*;

verus! {

pub const R: u16 = 0x0001;

pub const W: u16 = 0x0002;

pub const XS: u16 = 0x0004;

pub const XU: u16 = 0x0008;

pub const VALID: u16 = 0x8000;

/// Readable, writable and supervisor-executable.
pub const RWX: u16 = 0x0007;

} // verus!
