//! Instruction words and their four nibble fields.
use vstd::prelude::*;

verus! {

/// A decoded instruction: the four nibbles of a two-byte word, high first.
#[derive(Debug, Clone, Copy, PartialEq, Eq, Structural)]
pub struct Inst(pub u8, pub u8, pub u8, pub u8);

impl Inst {
    /// All four fields are nibbles.
    pub open spec fn wf(self) -> bool {
        self.0 < 16 && self.1 < 16 && self.2 < 16 && self.3 < 16
    }

    /// The fields that the word `(b0, b1)` splits into.
    pub open spec fn spec_decode(b0: u8, b1: u8) -> Inst {
        Inst(b0 / 16, b0 % 16, b1 / 16, b1 % 16)
    }

    /// The first byte of the word these fields make up.
    pub open spec fn high_byte(self) -> int {
        self.0 * 16 + self.1
    }

    /// The second byte of the word these fields make up.
    pub open spec fn low_byte(self) -> int {
        self.2 * 16 + self.3
    }

    /// Splits an instruction word into its four nibbles.
    pub fn decode(bytes: &[u8; 2]) -> (r: Inst)
        ensures
            r == Inst::spec_decode(bytes@[0], bytes@[1]),
            r.wf(),
    {
        let b0 = bytes[0];
        let b1 = bytes[1];
        assert(b0 >> 4u8 == b0 / 16 && b0 & 0x0f == b0 % 16) by (bit_vector);
        assert(b1 >> 4u8 == b1 / 16 && b1 & 0x0f == b1 % 16) by (bit_vector);
        Inst(b0 >> 4, b0 & 0x0f, b1 >> 4, b1 & 0x0f)
    }

    /// Joins the four nibbles back into the two bytes of the word.
    pub fn encode(&self) -> (r: [u8; 2])
        requires
            self.wf(),
        ensures
            r@[0] == self.high_byte(),
            r@[1] == self.low_byte(),
    {
        [self.0 * 16 + self.1, self.2 * 16 + self.3]
    }
}

/// A 12-bit address made of three nibbles, high first.
pub open spec fn spec_addr(n1: u8, n2: u8, n3: u8) -> int {
    n1 * 256 + n2 * 16 + n3
}

/// A byte made of two nibbles, high first.
pub open spec fn spec_val(k1: u8, k2: u8) -> int {
    k1 * 16 + k2
}

/// The 12-bit address `n1 n2 n3`.
pub fn addr(n1: u8, n2: u8, n3: u8) -> (r: u16)
    requires
        n1 < 16,
        n2 < 16,
        n3 < 16,
    ensures
        r == spec_addr(n1, n2, n3),
        r < 0x1000,
{
    (n1 as u16) * 256 + (n2 as u16) * 16 + n3 as u16
}

/// The byte `k1 k2`.
pub fn val(k1: u8, k2: u8) -> (r: u8)
    requires
        k1 < 16,
        k2 < 16,
    ensures
        r == spec_val(k1, k2),
{
    k1 * 16 + k2
}

/// Decoding a word and joining its fields again gives back the word; joining
/// four nibbles and decoding the word gives back the nibbles.
pub proof fn lemma_decode_round_trip(b0: u8, b1: u8, inst: Inst)
    ensures
        Inst::spec_decode(b0, b1).wf(),
        Inst::spec_decode(b0, b1).high_byte() == b0,
        Inst::spec_decode(b0, b1).low_byte() == b1,
        inst.wf() ==> Inst::spec_decode(
            inst.high_byte() as u8,
            inst.low_byte() as u8,
        ) == inst,
{
}

} // verus!
