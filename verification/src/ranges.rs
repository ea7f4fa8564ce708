//! Arithmetic progressions.

use vstd::arithmetic::div_mod::{lemma_div_minus_one, lemma_fundamental_div_mod};
use vstd::arithmetic::mul::lemma_mul_inequality;
use vstd::prelude::*;

use crate::word::{fixnum, in_fixnum_range, Word};

verus! {

/// How many terms the progression from `from` by steps of `by` has up to and
/// including `to`. A zero step has none.
pub open spec fn range_count(from: int, to: int, by: int) -> int {
    if by > 0 && from <= to {
        (to - from) / by + 1
    } else if by < 0 && from >= to {
        (from - to) / (-by) + 1
    } else {
        0
    }
}

/// The terms of a progression, as fixnums.
pub open spec fn range_elements(from: int, to: int, by: int) -> Seq<Word> {
    Seq::new(range_count(from, to, by) as nat, |i: int| fixnum(from + i * by))
}

/// A progression has no negative number of terms, and every term lies between
/// its bounds.
pub proof fn range_terms_in_bounds(from: int, to: int, by: int)
    ensures
        range_count(from, to, by) >= 0,
        by != 0 ==> range_count(from, to, by) <= (if from <= to {
            to - from
        } else {
            from - to
        }) + 1,
        forall|k: int|
            0 <= k < range_count(from, to, by) ==> {
                let v = from + #[trigger] (k * by);
                &&& by > 0 ==> from <= v <= to
                &&& by < 0 ==> to <= v <= from
            },
{
    let n = range_count(from, to, by);
    if by > 0 && from <= to {
        let q = (to - from) / by;
        lemma_fundamental_div_mod(to - from, by);
        assert(0 <= q <= to - from && q * by <= to - from) by (nonlinear_arith)
            requires
                by > 0,
                to - from >= 0,
                to - from == by * q + (to - from) % by,
                0 <= (to - from) % by < by,
                q == (to - from) / by,
        ;
        assert forall|k: int| 0 <= k < n implies {
            let v = from + #[trigger] (k * by);
            from <= v <= to
        } by {
            lemma_mul_inequality(0, k, by);
            lemma_mul_inequality(k, q, by);
        }
    } else if by < 0 && from >= to {
        let b = -by;
        let q = (from - to) / b;
        lemma_fundamental_div_mod(from - to, b);
        assert(0 <= q <= from - to && q * b <= from - to) by (nonlinear_arith)
            requires
                b > 0,
                from - to >= 0,
                from - to == b * q + (from - to) % b,
                0 <= (from - to) % b < b,
                q == (from - to) / b,
        ;
        assert forall|k: int| 0 <= k < n implies {
            let v = from + #[trigger] (k * by);
            to <= v <= from
        } by {
            lemma_mul_inequality(0, k, b);
            lemma_mul_inequality(k, q, b);
            assert(k * by == -(k * b)) by (nonlinear_arith)
                requires
                    b == -by,
            ;
        }
    }
}

/// Dropping the first term of a progression gives the progression that starts
/// at the second term.
pub proof fn range_step(from: int, to: int, by: int)
    requires
        range_count(from, to, by) > 0,
    ensures
        range_count(from, to, by) == 1 <==> (by > 0 && from + by > to) || (by < 0 && from + by
            < to),
        range_count(from, to, by) > 1 ==> range_count(from + by, to, by) == range_count(
            from,
            to,
            by,
        ) - 1,
        range_elements(from, to, by)[0] == fixnum(from),
        range_count(from, to, by) > 1 ==> range_elements(from + by, to, by) == range_elements(
            from,
            to,
            by,
        ).drop_first(),
{
    let n = range_count(from, to, by);
    if by > 0 {
        let d = to - from;
        lemma_fundamental_div_mod(d, by);
        lemma_div_minus_one(d, by);
        let q = d / by;
        assert(q == 0 <==> by > d) by (nonlinear_arith)
            requires
                by > 0,
                d >= 0,
                d == by * q + d % by,
                0 <= d % by < by,
        ;
    } else {
        let b = -by;
        let d = from - to;
        lemma_fundamental_div_mod(d, b);
        lemma_div_minus_one(d, b);
        let q = d / b;
        assert(q == 0 <==> b > d) by (nonlinear_arith)
            requires
                b > 0,
                d >= 0,
                d == b * q + d % b,
                0 <= d % b < b,
        ;
        assert(from + by - to == -b + d);
    }
    assert(0 * by == 0);
    if n > 1 {
        assert forall|i: int| 0 <= i < n - 1 implies #[trigger] range_elements(
            from + by,
            to,
            by,
        )[i] == range_elements(from, to, by).drop_first()[i] by {
            assert((from + by) + i * by == from + (i + 1) * by) by (nonlinear_arith);
        }
        assert(range_elements(from + by, to, by) =~= range_elements(from, to, by).drop_first());
    }
}

/// Every term of a progression between fixnums is a fixnum.
pub proof fn range_terms_are_fixnums(from: int, to: int, by: int, k: int)
    requires
        in_fixnum_range(from),
        in_fixnum_range(to),
        0 <= k < range_count(from, to, by),
    ensures
        in_fixnum_range(from + k * by),
        range_elements(from, to, by)[k] == fixnum(from + k * by),
        range_elements(from, to, by)[k].spec_as_fixnum() == Some((from + k * by) as i64),
{
    range_terms_in_bounds(from, to, by);
    let v = from + k * by;
    crate::word::fixnum_round_trip(v);
}

/// Counts the terms of a progression.
pub fn count_terms(from: i64, to: i64, by: i64) -> (n: i64)
    requires
        range_count(from as int, to as int, by as int) <= i64::MAX,
        in_fixnum_range(from as int),
        in_fixnum_range(to as int),
        in_fixnum_range(by as int),
    ensures
        n == range_count(from as int, to as int, by as int),
{
    proof {
        range_terms_in_bounds(from as int, to as int, by as int);
    }
    if by > 0 && from <= to {
        (((to - from) as u64) / (by as u64)) as i64 + 1
    } else if by < 0 && from >= to {
        (((from - to) as u64) / ((-by) as u64)) as i64 + 1
    } else {
        0
    }
}

/// A progression has terms exactly if its step leads from the first bound towards
/// the second, or they are the same and the step is not zero; it starts with the
/// first bound.
pub proof fn progressions_lead_to_their_bound(from: int, to: int, by: int)
    ensures
        range_count(from, to, by) > 0 <==> (by > 0 && from <= to) || (by < 0 && to <= from),
        range_elements(from, to, by).len() == range_count(from, to, by),
        range_count(from, to, by) > 0 ==> range_elements(from, to, by)[0] == fixnum(from),
{
    range_terms_in_bounds(from, to, by);
    if range_count(from, to, by) > 0 {
        range_step(from, to, by);
    }
    if by > 0 && from <= to {
        lemma_fundamental_div_mod(to - from, by);
        assert((to - from) / by >= 0) by (nonlinear_arith)
            requires
                by > 0,
                to - from >= 0,
        ;
    }
    if by < 0 && to <= from {
        assert((from - to) / (-by) >= 0) by (nonlinear_arith)
            requires
                by < 0,
                from - to >= 0,
        ;
    }
}

} // verus!
