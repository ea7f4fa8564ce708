//! A text buffer of fixed size.
//!
//! Writing needs no memory beyond the buffer itself, so the buffer can be used
//! where nothing may be allocated. What does not fit is dropped.

use vstd::arithmetic::div_mod::lemma_breakdown;
use vstd::arithmetic::power::{lemma_pow0, lemma_pow1, lemma_pow_adds, lemma_pow_positive, pow};
use vstd::prelude::*;
use vstd::slice::slice_subrange;
use vstd::utf8::{encode_scalar, encode_utf8};

use crate::text::{
    decimal_digits, digit_char, digit_str, digit_value, hex_char, hex_digits, hex_str,
    numeral_value,
};

verus! {

/// A buffer of `N` bytes.
pub struct StackBuf<const N: usize> {
    buf: [u8; N],
    len: usize,
}

/// The first `n` bytes.
pub open spec fn clipped(bytes: Seq<u8>, n: int) -> Seq<u8> {
    if bytes.len() <= n {
        bytes
    } else {
        bytes.take(n)
    }
}

/// The lowest `k` hexadecimal digits of `n`.
pub open spec fn fixed_hex(n: nat, k: nat) -> Seq<char>
    decreases k,
{
    if k == 0 {
        seq![]
    } else {
        fixed_hex(n / 16, (k - 1) as nat).push(hex_char((n % 16) as int))
    }
}

/// Encoding keeps concatenation.
pub proof fn encoding_concatenates(a: Seq<char>, b: Seq<char>)
    ensures
        encode_utf8(a + b) == encode_utf8(a) + encode_utf8(b),
    decreases a.len(),
{
    if a.len() == 0 {
        assert(a + b =~= b);
        assert(encode_utf8(a) + encode_utf8(b) =~= encode_utf8(b));
    } else {
        encoding_concatenates(a.drop_first(), b);
        assert((a + b).drop_first() =~= a.drop_first() + b);
        assert(encode_scalar(a[0] as u32) + (encode_utf8(a.drop_first()) + encode_utf8(b)) =~= (
        encode_scalar(a[0] as u32) + encode_utf8(a.drop_first())) + encode_utf8(b));
    }
}

impl<const N: usize> View for StackBuf<N> {
    type V = Seq<u8>;

    closed spec fn view(&self) -> Seq<u8> {
        self.buf@.take(self.len as int)
    }
}

impl<const N: usize> StackBuf<N> {
    /// The length is within the buffer.
    pub closed spec fn wf(self) -> bool {
        self.len <= N
    }

    /// The buffer holds as much of `text` as fits.
    pub open spec fn holds(self, text: Seq<u8>) -> bool {
        self@ == clipped(text, N as int)
    }

    /// An empty buffer.
    pub fn new() -> (b: StackBuf<N>)
        ensures
            b.wf(),
            b.holds(seq![]),
            b@ == Seq::<u8>::empty(),
    {
        let b = StackBuf { buf: [0u8; N], len: 0 };
        assert(b@ =~= seq![]);
        b
    }

    /// The bytes written so far.
    pub fn as_bytes(&self) -> (b: &[u8])
        requires
            self.wf(),
        ensures
            b@ == self@,
    {
        slice_subrange(self.buf.as_slice(), 0, self.len)
    }

    /// Adds bytes.
    pub fn write_bytes(&mut self, bytes: &[u8])
        requires
            old(self).wf(),
        ensures
            final(self).wf(),
            final(self)@ == clipped(old(self)@ + bytes@, N as int),
            forall|t: Seq<u8>| #[trigger] old(self).holds(t) ==> final(self).holds(t + bytes@),
    {
        let ghost before = self@;
        let mut i: usize = 0;
        while i < bytes.len() && self.len < N
            invariant
                i <= bytes@.len(),
                self.wf(),
                self@ == before + bytes@.take(i as int),
                before.len() <= N,
            decreases bytes@.len() - i,
        {
            let ghost now = self@;
            self.buf[self.len] = bytes[i];
            self.len += 1;
            assert(self@ =~= now.push(bytes@[i as int]));
            assert(self@ =~= before + bytes@.take(i + 1));
            i += 1;
        }
        proof {
            if i == bytes@.len() {
                assert(bytes@.take(i as int) =~= bytes@);
            } else {
                assert(before + bytes@.take(i as int) =~= (before + bytes@).take(N as int));
            }
            assert(self@ == clipped(before + bytes@, N as int));
            assert forall|t: Seq<u8>| #[trigger] old(self).holds(t) implies self.holds(
                t + bytes@,
            ) by {
                assert(clipped(before + bytes@, N as int) =~= clipped(t + bytes@, N as int));
            }
        }
    }

    /// Adds text.
    pub fn write_str(&mut self, s: &str)
        requires
            old(self).wf(),
        ensures
            final(self).wf(),
            final(self)@ == clipped(old(self)@ + encode_utf8(s@), N as int),
            forall|t: Seq<u8>| #[trigger]
                old(self).holds(t) ==> final(self).holds(t + encode_utf8(s@)),
    {
        self.write_bytes(s.as_bytes());
    }

    /// Adds a number in decimal.
    pub fn write_decimal(&mut self, n: u64)
        requires
            old(self).wf(),
        ensures
            final(self).wf(),
            forall|t: Seq<u8>| #[trigger]
                old(self).holds(t) ==> final(self).holds(
                    t + encode_utf8(decimal_digits(n as nat)),
                ),
        decreases n,
    {
        if n < 10 {
            self.write_str(digit_str(n));
        } else {
            self.write_decimal(n / 10);
            let ghost middle = *self;
            self.write_str(digit_str(n % 10));
            proof {
                let front = decimal_digits((n / 10) as nat);
                let last = seq![digit_char((n % 10) as int)];
                encoding_concatenates(front, last);
                assert(decimal_digits(n as nat) =~= front + last);
                assert forall|t: Seq<u8>| #[trigger] old(self).holds(t) implies self.holds(
                    t + encode_utf8(decimal_digits(n as nat)),
                ) by {
                    assert(middle.holds(t + encode_utf8(front)));
                    assert(t + encode_utf8(front) + encode_utf8(last) =~= t + encode_utf8(
                        decimal_digits(n as nat),
                    ));
                }
            }
        }
    }

    /// Adds a number in hexadecimal.
    pub fn write_hex(&mut self, n: u64)
        requires
            old(self).wf(),
        ensures
            final(self).wf(),
            forall|t: Seq<u8>| #[trigger]
                old(self).holds(t) ==> final(self).holds(t + encode_utf8(hex_digits(n as nat))),
        decreases n,
    {
        if n < 16 {
            self.write_str(hex_str(n));
        } else {
            self.write_hex(n / 16);
            let ghost middle = *self;
            self.write_str(hex_str(n % 16));
            proof {
                let front = hex_digits((n / 16) as nat);
                let last = seq![hex_char((n % 16) as int)];
                encoding_concatenates(front, last);
                assert(hex_digits(n as nat) =~= front + last);
                assert forall|t: Seq<u8>| #[trigger] old(self).holds(t) implies self.holds(
                    t + encode_utf8(hex_digits(n as nat)),
                ) by {
                    assert(middle.holds(t + encode_utf8(front)));
                    assert(t + encode_utf8(front) + encode_utf8(last) =~= t + encode_utf8(
                        hex_digits(n as nat),
                    ));
                }
            }
        }
    }

    /// Adds the lowest `k` hexadecimal digits of a number.
    pub fn write_fixed_hex(&mut self, n: u64, k: u32)
        requires
            old(self).wf(),
        ensures
            final(self).wf(),
            forall|t: Seq<u8>| #[trigger]
                old(self).holds(t) ==> final(self).holds(
                    t + encode_utf8(fixed_hex(n as nat, k as nat)),
                ),
        decreases k,
    {
        if k == 0 {
            proof {
                assert forall|t: Seq<u8>| #[trigger] old(self).holds(t) implies self.holds(
                    t + encode_utf8(fixed_hex(n as nat, k as nat)),
                ) by {
                    assert(encode_utf8(fixed_hex(n as nat, k as nat)) =~= seq![]);
                    assert(t + encode_utf8(fixed_hex(n as nat, k as nat)) =~= t);
                }
            }
        } else {
            self.write_fixed_hex(n / 16, k - 1);
            let ghost middle = *self;
            self.write_str(hex_str(n % 16));
            proof {
                let front = fixed_hex((n / 16) as nat, (k - 1) as nat);
                let last = seq![hex_char((n % 16) as int)];
                encoding_concatenates(front, last);
                assert(fixed_hex(n as nat, k as nat) =~= front + last);
                assert forall|t: Seq<u8>| #[trigger] old(self).holds(t) implies self.holds(
                    t + encode_utf8(fixed_hex(n as nat, k as nat)),
                ) by {
                    assert(middle.holds(t + encode_utf8(front)));
                    assert(t + encode_utf8(front) + encode_utf8(last) =~= t + encode_utf8(
                        fixed_hex(n as nat, k as nat),
                    ));
                }
            }
        }
    }
}

/// Clipping keeps the front and never more than there is room for.
pub proof fn clipping_keeps_the_front(bytes: Seq<u8>, n: int, i: int)
    requires
        0 <= n,
    ensures
        bytes.len() <= n ==> clipped(bytes, n) == bytes,
        bytes.len() > n ==> clipped(bytes, n).len() == n,
        0 <= i < n && i < bytes.len() ==> clipped(bytes, n)[i] == bytes[i],
{
}

/// Digits of a fixed number are a numeral for the remainder of the number, padded
/// with zeros.
pub proof fn fixed_digits_denote_the_remainder(n: nat, k: nat)
    ensures
        fixed_hex(n, k).len() == k,
        numeral_value(fixed_hex(n, k), 16) == n as int % pow(16, k),
    decreases k,
{
    lemma_pow0(16);
    if k > 0 {
        let m: nat = (k - 1) as nat;
        fixed_digits_denote_the_remainder(n / 16, m);
        let s = fixed_hex(n, k);
        assert(s.drop_last() =~= fixed_hex(n / 16, m));
        assert(s.last() == hex_char((n % 16) as int));
        assert(digit_value(hex_char((n % 16) as int)) == n % 16);
        lemma_pow_positive(16, m);
        lemma_pow_adds(16, 1, m);
        lemma_pow1(16);
        lemma_breakdown(n as int, 16, pow(16, m));
    }
}

} // verus!
