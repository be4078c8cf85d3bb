//! Integer representations and two's-complement narrowing.
//!
//! A [`Repr`] names one fixed-width integer format: a bit width together
//! with a signedness. Narrowing reinterprets a 64-bit signed tag's bit
//! pattern at that width: the low `width` bits of the tag's
//! two's-complement encoding are kept and read back as a signed or
//! unsigned number, exactly as a truncating integer cast would.

use vstd::arithmetic::div_mod::{lemma_mod_multiples_vanish, lemma_small_mod};
use vstd::prelude::*;

verus! {

/// Number of values of a 64-bit two's-complement encoding.
pub const TWO_POW_64: i128 = 0x1_0000_0000_0000_0000;

/// One requested output integer format: a bit width and a signedness.
#[derive(Clone, Copy, Debug, PartialEq, Eq)]
pub struct Repr {
    /// Bit width; only 8, 16, 32 and 64 are supported.
    pub width: u32,
    /// True for a signed (two's-complement) reading of the bits.
    pub signed: bool,
}

impl Repr {
    /// The representation is one of the eight supported width/signedness pairs.
    pub open spec fn is_supported(self) -> bool {
        self.width == 8 || self.width == 16 || self.width == 32 || self.width == 64
    }

    /// Number of distinct values of this representation, `2^width`.
    pub open spec fn modulus(self) -> int {
        if self.width == 8 {
            0x100
        } else if self.width == 16 {
            0x1_0000
        } else if self.width == 32 {
            0x1_0000_0000
        } else if self.width == 64 {
            0x1_0000_0000_0000_0000
        } else {
            0
        }
    }

    /// `v` is a value of this representation.
    pub open spec fn in_range(self, v: int) -> bool {
        if self.signed {
            -(self.modulus() / 2) <= v < self.modulus() / 2
        } else {
            0 <= v < self.modulus()
        }
    }

    /// Executable check matching [`Repr::is_supported`].
    pub fn supported(&self) -> (b: bool)
        ensures
            b == self.is_supported(),
    {
        self.width == 8 || self.width == 16 || self.width == 32 || self.width == 64
    }
}

/// The tag's 64-bit two's-complement bit pattern read as an unsigned number.
pub open spec fn unsigned_bits(tag: i64) -> int {
    if tag < 0 {
        tag + TWO_POW_64
    } else {
        tag as int
    }
}

/// The tag narrowed into representation `r`: the low `r.width` bits of the
/// tag's two's-complement encoding, read as signed or unsigned per `r`.
pub open spec fn spec_narrow(tag: i64, r: Repr) -> int {
    let low = unsigned_bits(tag) % r.modulus();
    if r.signed && low >= r.modulus() / 2 {
        low - r.modulus()
    } else {
        low
    }
}

/// Narrowing lands in the representation's value range.
pub proof fn lemma_narrow_in_range(tag: i64, r: Repr)
    requires
        r.is_supported(),
    ensures
        r.in_range(spec_narrow(tag, r)),
{
    let m = r.modulus();
    assert(0 <= unsigned_bits(tag) % m < m);
}

/// A tag already expressible in the representation narrows to itself.
pub proof fn lemma_narrow_identity(tag: i64, r: Repr)
    requires
        r.is_supported(),
        r.in_range(tag as int),
    ensures
        spec_narrow(tag, r) == tag as int,
{
    let m = r.modulus();
    if tag >= 0 {
        lemma_small_mod(tag as nat, m as nat);
    } else {
        if r.width == 8 {
            lemma_mod_multiples_vanish(0xFF_FFFF_FFFF_FFFF, tag + m, m);
        } else if r.width == 16 {
            lemma_mod_multiples_vanish(0xFFFF_FFFF_FFFF, tag + m, m);
        } else if r.width == 32 {
            lemma_mod_multiples_vanish(0xFFFF_FFFF, tag + m, m);
        } else {
            lemma_mod_multiples_vanish(0, tag + m, m);
        }
        lemma_small_mod((tag + m) as nat, m as nat);
        assert(unsigned_bits(tag) % m == tag + m);
    }
}

/// The tag narrowed into `r`, by two's-complement truncation.
pub fn narrow(tag: i64, r: Repr) -> (v: i128)
    requires
        r.is_supported(),
    ensures
        v as int == spec_narrow(tag, r),
        r.in_range(v as int),
{
    proof {
        lemma_narrow_in_range(tag, r);
    }
    let m: u128 = if r.width == 8 {
        0x100
    } else if r.width == 16 {
        0x1_0000
    } else if r.width == 32 {
        0x1_0000_0000
    } else {
        0x1_0000_0000_0000_0000
    };
    let bits: u128 = if tag < 0 {
        (tag as i128 + TWO_POW_64) as u128
    } else {
        tag as u128
    };
    let low: u128 = bits % m;
    if r.signed && low >= m / 2 {
        low as i128 - m as i128
    } else {
        low as i128
    }
}

} // verus!
