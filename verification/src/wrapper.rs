//! Object headers.
//!
//! The first cell of every heap object is its wrapper. The low 32 bits hold
//! the class id, the collector's bits start at bit 48. While the collector
//! moves objects, the wrapper of a moved object is overwritten by a forwarding
//! marker: the forwarded bit is set and the low 48 bits hold the new address.

use vstd::prelude::*;

use crate::classes::ClassId;

verus! {

/// Size of a wrapper in bytes.
pub const WRAPPER_SIZE: usize = 8;

/// Value of the forwarded bit.
pub const FORWARDED_BIT: u64 = 0x0008_0000_0000_0000;

/// First address that a forwarding marker cannot hold.
pub const FORWARD_LIMIT: u64 = 0x0001_0000_0000_0000;

/// The header cell of an object.
#[derive(Clone, Copy, PartialEq, Eq, Structural, Debug)]
pub struct Wrapper {
    pub raw: u64,
}

/// Whether header bits are a forwarding marker.
pub open spec fn forwarded_bits(raw: u64) -> bool {
    (raw / FORWARDED_BIT) % 2 == 1
}

/// The address in a forwarding marker.
pub open spec fn forward_target_bits(raw: u64) -> u64 {
    raw % FORWARD_LIMIT
}

impl Wrapper {
    /// The class id in the header.
    pub open spec fn spec_class(self) -> ClassId {
        ClassId((self.raw % 0x1_0000_0000) as u32)
    }

    /// The header of a fresh object of a class.
    pub fn new(class: ClassId) -> (w: Wrapper)
        ensures
            w.raw == class.0,
            w.spec_class() == class,
            !forwarded_bits(w.raw),
    {
        Wrapper { raw: class.0 as u64 }
    }

    /// The class id in the header.
    pub fn class(self) -> (c: ClassId)
        ensures
            c == self.spec_class(),
    {
        ClassId((self.raw % 0x1_0000_0000) as u32)
    }

    /// Whether the header is a forwarding marker.
    pub fn is_forwarded(self) -> (b: bool)
        ensures
            b == forwarded_bits(self.raw),
    {
        Wrapper::raw_is_forwarded(self.raw)
    }

    /// Whether header bits are a forwarding marker.
    pub fn raw_is_forwarded(raw: u64) -> (b: bool)
        ensures
            b == forwarded_bits(raw),
    {
        (raw / FORWARDED_BIT) % 2 == 1
    }

    /// The address in a forwarding marker.
    pub fn raw_forward_target(raw: u64) -> (a: u64)
        ensures
            a == forward_target_bits(raw),
    {
        raw % FORWARD_LIMIT
    }

    /// The forwarding marker for a new address.
    pub fn forward_to(new_address: u64) -> (w: Wrapper)
        requires
            new_address < FORWARD_LIMIT,
        ensures
            w.raw == new_address + FORWARDED_BIT,
            forwarded_bits(w.raw),
            forward_target_bits(w.raw) == new_address,
    {
        Wrapper { raw: new_address + FORWARDED_BIT }
    }
}

/// A header is a forwarding marker by its bit 51 alone; the low 32 bits name the class and
/// the low 48 the new address.
pub proof fn headers_are_read_by_bits(class: u32, address: u64, rest: int)
    requires
        address < 0x1_0000_0000_0000,
        0 <= rest < 0x10_0000,
    ensures
        !forwarded_bits(class as u64),
        (Wrapper { raw: (0x1_0000_0000 * rest + class) as u64 }).spec_class() == ClassId(class),
        !forwarded_bits(address),
        forwarded_bits((0x8_0000_0000_0000 + address) as u64),
        forward_target_bits((0x8_0000_0000_0000 + address) as u64) == address,
{
}

} // verus!
