use vstd::prelude::*;

verus! {

// The opcode space of the encoded stream: one reserved code per primitive
// kind and per operation kind. The codes are stable; consumers hard-code
// them. In the stream each code appears as the bit pattern of the
// single-precision number with the same value.

pub const NIL: u32 = 0;

pub const OVAL: u32 = 1;

pub const ARCH: u32 = 2;

pub const RECT: u32 = 3;

pub const TRIA: u32 = 4;

pub const TRANS: u32 = 5;

pub const ROTAT: u32 = 6;

pub const ORIGI: u32 = 7;

pub const SCALE: u32 = 8;

pub const COMPL: u32 = 9;

pub const FILL: u32 = 10;

pub const OUTL: u32 = 11;

pub const UNION: u32 = 12;

pub const INTER: u32 = 13;

} // verus!
