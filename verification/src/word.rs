//! Tagged 64-bit words.
//!
//! Every value of the language travels in one `Word`. A clear low bit marks a
//! fixnum, whose signed 63-bit payload sits in the upper bits; a set low bit
//! marks a pointer to a heap object, whose address is the word with that bit
//! cleared.

use vstd::prelude::*;

verus! {

/// Smallest integer that a fixnum can carry.
pub const FIXNUM_MIN: i64 = -0x4000_0000_0000_0000;

/// Largest integer that a fixnum can carry.
pub const FIXNUM_MAX: i64 = 0x3fff_ffff_ffff_ffff;

/// A tagged machine word.
#[derive(Clone, Copy, PartialEq, Eq, Structural, Debug)]
pub struct Word {
    pub raw: u64,
}

/// `true` for the integers that a fixnum can carry.
pub open spec fn in_fixnum_range(n: int) -> bool {
    FIXNUM_MIN <= n <= FIXNUM_MAX
}

/// The two's-complement reading of 64 bits.
pub open spec fn signed(bits: u64) -> int {
    if bits < 0x8000_0000_0000_0000u64 {
        bits as int
    } else {
        bits as int - 0x1_0000_0000_0000_0000
    }
}

/// The bits of the fixnum that carries `n`.
pub open spec fn fixnum_bits(n: int) -> u64 {
    if n >= 0 {
        (2 * n) as u64
    } else {
        (2 * n + 0x1_0000_0000_0000_0000) as u64
    }
}

/// The fixnum that carries `n`.
pub open spec fn fixnum(n: int) -> Word {
    Word { raw: fixnum_bits(n) }
}

impl Word {
    /// `true` if the low bit marks a fixnum.
    pub open spec fn spec_is_fixnum(self) -> bool {
        self.raw % 2 == 0
    }

    /// The integer that a fixnum carries.
    pub open spec fn fixnum_value(self) -> int {
        signed(self.raw) / 2
    }

    /// The integer in the word, if it is a fixnum.
    pub open spec fn spec_as_fixnum(self) -> Option<i64> {
        if self.spec_is_fixnum() {
            Some(self.fixnum_value() as i64)
        } else {
            None
        }
    }

    /// The address that a pointer word carries.
    pub open spec fn spec_address(self) -> u64 {
        (self.raw - 1) as u64
    }

    /// A word with these bits.
    pub fn from_raw(raw: u64) -> (w: Word)
        ensures
            w.raw == raw,
    {
        Word { raw }
    }

    /// The bits of the word.
    pub fn raw(self) -> (bits: u64)
        ensures
            bits == self.raw,
    {
        self.raw
    }

    /// Whether the word is a fixnum.
    pub fn is_fixnum(self) -> (b: bool)
        ensures
            b == self.spec_is_fixnum(),
    {
        self.raw % 2 == 0
    }

    /// Whether the word is a pointer.
    pub fn is_pointer(self) -> (b: bool)
        ensures
            b == !self.spec_is_fixnum(),
    {
        self.raw % 2 != 0
    }

    /// The fixnum for the low 63 bits of `n`; the top bit is lost.
    pub fn fixnum_unchecked(n: i64) -> (w: Word)
        ensures
            w.spec_is_fixnum(),
            w.raw == (#[verifier::truncate] (n as u64)) << 1u64,
            in_fixnum_range(n as int) ==> w == fixnum(n as int) && w.fixnum_value() == n,
    {
        let bits: u64 = #[verifier::truncate] (n as u64);
        let raw: u64 = bits << 1u64;
        proof {
            assert((bits << 1u64) % 2 == 0) by (bit_vector);
            assert(bits < 0x4000_0000_0000_0000u64 ==> (bits << 1u64) == 2 * bits) by (bit_vector);
            assert(bits >= 0xc000_0000_0000_0000u64 ==> (bits << 1u64) == 2 * bits
                - 0x1_0000_0000_0000_0000) by (bit_vector);
            assert(n >= 0 ==> #[verifier::truncate] (n as u64) == n) by (bit_vector);
            assert(n < 0 ==> #[verifier::truncate] (n as u64) == n + 0x1_0000_0000_0000_0000)
                by (bit_vector);
        }
        Word { raw }
    }

    /// The fixnum for the low 63 bits of an unsigned number; the top bit is lost.
    pub fn tagged(bits: u64) -> (w: Word)
        ensures
            w.raw == bits << 1u64,
            w.spec_is_fixnum(),
            bits <= FIXNUM_MAX ==> w == fixnum(bits as int) && w.fixnum_value() == bits,
    {
        proof {
            assert((bits << 1u64) % 2 == 0) by (bit_vector);
            assert(bits < 0x4000_0000_0000_0000u64 ==> (bits << 1u64) == 2 * bits) by (bit_vector);
        }
        Word { raw: bits << 1u64 }
    }

    /// The fixnum that carries `n`, if `n` is in the fixnum range.
    pub fn from_fixnum(n: i64) -> (w: Option<Word>)
        ensures
            w is Some <==> in_fixnum_range(n as int),
            w is Some ==> w->0 == fixnum(n as int) && w->0.spec_is_fixnum()
                && w->0.fixnum_value() == n,
    {
        if FIXNUM_MIN <= n && n <= FIXNUM_MAX {
            Some(Word::fixnum_unchecked(n))
        } else {
            None
        }
    }

    /// The integer in the word, if it is a fixnum.
    pub fn as_fixnum(self) -> (n: Option<i64>)
        ensures
            n == self.spec_as_fixnum(),
            n is Some <==> self.spec_is_fixnum(),
            n is Some ==> n->0 == self.fixnum_value() && in_fixnum_range(n->0 as int),
    {
        if self.raw % 2 == 0 {
            let half: u64 = self.raw / 2;
            if self.raw < 0x8000_0000_0000_0000 {
                Some(half as i64)
            } else {
                Some(half as i64 - 0x4000_0000_0000_0000 - 0x4000_0000_0000_0000)
            }
        } else {
            None
        }
    }

    /// The pointer word for an even address.
    pub fn from_address(address: u64) -> (w: Word)
        requires
            address % 2 == 0,
        ensures
            !w.spec_is_fixnum(),
            w.raw == address + 1,
            w.spec_address() == address,
    {
        Word { raw: address + 1 }
    }

    /// The address in the word, if it is a pointer.
    pub fn as_address(self) -> (a: Option<u64>)
        ensures
            a is Some <==> !self.spec_is_fixnum(),
            a is Some ==> a->0 == self.spec_address() && a->0 % 2 == 0,
    {
        if self.raw % 2 != 0 {
            Some(self.raw - 1)
        } else {
            None
        }
    }
}

/// Tagging an integer as a fixnum and reading it back gives the integer.
pub proof fn fixnum_round_trip(n: int)
    requires
        in_fixnum_range(n),
    ensures
        fixnum(n).spec_is_fixnum(),
        fixnum(n).fixnum_value() == n,
        fixnum(n).spec_as_fixnum() == Some(n as i64),
{
}

/// Distinct integers have distinct fixnums.
pub proof fn fixnum_injective(a: int, b: int)
    requires
        in_fixnum_range(a),
        in_fixnum_range(b),
        fixnum(a) == fixnum(b),
    ensures
        a == b,
{
}

/// Every fixnum is the fixnum of the integer that it carries.
pub proof fn fixnum_surjective(w: Word)
    requires
        w.spec_is_fixnum(),
    ensures
        in_fixnum_range(w.fixnum_value()),
        w == fixnum(w.fixnum_value()),
{
}

/// The bits of a fixnum are twice the integer in two's complement, so that fixnums
/// can be added as machine words.
pub proof fn fixnum_bits_are_twice_the_integer(n: int)
    requires
        in_fixnum_range(n),
    ensures
        fixnum(n).raw as int == if n >= 0 {
            2 * n
        } else {
            2 * n + 0x1_0000_0000_0000_0000
        },
        fixnum(n).raw % 2 == 0,
        -0x4000_0000_0000_0000 <= n <= 0x3fff_ffff_ffff_ffff,
{
}

} // verus!
