use vstd::prelude::*;

verus! {

/// The leading nibble, which selects the instruction family.
pub open spec fn kind_of(w: u16) -> int {
    w as int / 0x1000
}

/// The second nibble: the register selector X.
pub open spec fn x_of(w: u16) -> int {
    (w as int / 0x100) % 0x10
}

/// The third nibble: the register selector Y.
pub open spec fn y_of(w: u16) -> int {
    (w as int / 0x10) % 0x10
}

/// The lowest nibble: a 4-bit count or sub-operation.
pub open spec fn n_of(w: u16) -> int {
    w as int % 0x10
}

/// The low byte: an 8-bit immediate.
pub open spec fn nn_of(w: u16) -> int {
    w as int % 0x100
}

/// The low 12 bits: an address.
pub open spec fn nnn_of(w: u16) -> int {
    w as int % 0x1000
}

/// An instruction word split into the fields that the opcodes use.
#[derive(Clone, Copy, Debug, PartialEq, Eq, Structural)]
pub struct Fields {
    pub kind: u8,
    pub x: usize,
    pub y: usize,
    pub n: u8,
    pub nn: u8,
    pub nnn: u16,
}

impl Fields {
    pub open spec fn of(self, w: u16) -> bool {
        &&& self.kind == kind_of(w)
        &&& self.x == x_of(w)
        &&& self.y == y_of(w)
        &&& self.n == n_of(w)
        &&& self.nn == nn_of(w)
        &&& self.nnn == nnn_of(w)
    }
}

/// Splits an instruction word into its nibbles and immediates.
pub fn decode(w: u16) -> (f: Fields)
    ensures
        f.of(w),
        f.kind < 16,
        f.x < 16,
        f.y < 16,
        f.n < 16,
{
    Fields {
        kind: (w / 0x1000) as u8,
        x: ((w / 0x100) % 0x10) as usize,
        y: ((w / 0x10) % 0x10) as usize,
        n: (w % 0x10) as u8,
        nn: (w % 0x100) as u8,
        nnn: w % 0x1000,
    }
}

} // verus!
