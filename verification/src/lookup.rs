//! Method selection.
//!
//! Filters the methods of a generic by applicability and orders them by
//! specificity, most specific first.

use vstd::prelude::*;
use vstd::string::*;

use crate::classes::{
    is_subclass, position_from, position_in_range, precedence_lists_are_short, ClassId, ClassTable,
    TableView,
};
use crate::dispatch::{GenericFunction, GenericView, Method, MethodView};
use crate::text::{decimal_digits, decimal_unsigned, join, joined, text_views};

verus! {

// ----- applicability and specificity -----

/// A method is applicable if it has one specialiser per argument and each
/// argument class is a subclass of its specialiser.
pub open spec fn applicable(t: TableView, m: MethodView, args: Seq<ClassId>) -> bool {
    &&& m.specialisers.len() == args.len()
    &&& forall|i: int| 0 <= i < args.len() ==> t.subclass(#[trigger] args[i], m.specialisers[i])
}

/// First position at or after `i` of an id in a precedence list.
pub open spec fn index_from(cpl: Seq<ClassId>, id: ClassId, i: int) -> Option<int>
    decreases cpl.len() - i,
{
    if i < 0 || i >= cpl.len() {
        None
    } else if cpl[i] == id {
        Some(i)
    } else {
        index_from(cpl, id, i + 1)
    }
}

/// How far a specialiser is from an argument class: its position in the
/// class's precedence list. Anything that is not listed is farthest away.
pub open spec fn cpl_rank(t: TableView, arg: ClassId, specialiser: ClassId) -> int {
    match t.lookup(arg) {
        None => usize::MAX as int,
        Some(c) => match index_from(c.cpl, specialiser, 0) {
            None => usize::MAX as int,
            Some(p) => p,
        },
    }
}

/// Compares two methods from argument `i` on: negative if `a` is more specific,
/// positive if `b` is, zero if they have the same specialisers.
pub open spec fn compare_from(
    t: TableView,
    a: MethodView,
    b: MethodView,
    args: Seq<ClassId>,
    i: int,
) -> int
    decreases args.len() - i,
{
    if i < 0 || i >= args.len() {
        0
    } else if a.specialisers[i] == b.specialisers[i] {
        compare_from(t, a, b, args, i + 1)
    } else {
        cpl_rank(t, args[i], a.specialisers[i]) - cpl_rank(t, args[i], b.specialisers[i])
    }
}

/// Whether `a` is strictly more specific than `b` for these arguments.
pub open spec fn more_specific(
    t: TableView,
    a: MethodView,
    b: MethodView,
    args: Seq<ClassId>,
) -> bool {
    compare_from(t, a, b, args, 0) < 0
}

/// The place of a method in an ordered chain: before the first method at or
/// after `i` that it is more specific than.
pub open spec fn place_from(
    t: TableView,
    chain: Seq<MethodView>,
    m: MethodView,
    args: Seq<ClassId>,
    i: int,
) -> int
    decreases chain.len() - i,
{
    if i < 0 || i >= chain.len() {
        chain.len() as int
    } else if more_specific(t, m, chain[i], args) {
        i
    } else {
        place_from(t, chain, m, args, i + 1)
    }
}

/// The applicable methods, most specific first; methods that compare equal stay
/// in table order.
pub open spec fn applicable_chain(
    t: TableView,
    methods: Seq<MethodView>,
    args: Seq<ClassId>,
) -> Seq<MethodView>
    decreases methods.len(),
{
    if methods.len() == 0 {
        seq![]
    } else {
        let chain = applicable_chain(t, methods.drop_last(), args);
        let m = methods.last();
        if applicable(t, m, args) {
            chain.insert(place_from(t, chain, m, args, 0), m)
        } else {
            chain
        }
    }
}

/// The two most specific methods of a chain tie.
pub open spec fn ambiguous(t: TableView, chain: Seq<MethodView>, args: Seq<ClassId>) -> bool {
    chain.len() >= 2 && compare_from(t, chain[0], chain[1], args, 0) == 0
}

/// The bodies of the methods of a chain.
pub open spec fn bodies(chain: Seq<MethodView>) -> Seq<u64> {
    Seq::new(chain.len(), |i: int| chain[i].body_fn_ptr)
}

// ----- laws of the order -----

proof fn index_in_range(cpl: Seq<ClassId>, id: ClassId, from: int)
    requires
        0 <= from,
    ensures
        index_from(cpl, id, from) matches Some(p) ==> from <= p < cpl.len() && cpl[p] == id,
        index_from(cpl, id, from) is None ==> forall|k: int|
            from <= k < cpl.len() ==> #[trigger] cpl[k] != id,
    decreases cpl.len() - from,
{
    if from < cpl.len() && cpl[from] != id {
        index_in_range(cpl, id, from + 1);
    }
}

/// The precedence lists are short enough to be indexed.
pub open spec fn short_lists(t: TableView) -> bool {
    forall|i: int|
        0 <= i < t.entries.len() ==> (#[trigger] t.entries[i]).cpl.len() <= usize::MAX
}

/// Every class table has short precedence lists.
pub proof fn tables_have_short_lists(table: &ClassTable)
    ensures
        short_lists(table@),
{
    precedence_lists_are_short(table);
}

/// Two specialisers of an argument class at the same distance are the same.
proof fn rank_injective(t: TableView, arg: ClassId, a: ClassId, b: ClassId)
    requires
        short_lists(t),
        t.subclass(arg, a),
        t.subclass(arg, b),
        cpl_rank(t, arg, a) == cpl_rank(t, arg, b),
    ensures
        a == b,
{
    position_in_range(t.entries, arg, 0);
    if t.lookup(arg) is Some {
        let cpl = t.lookup(arg)->0.cpl;
        index_in_range(cpl, a, 0);
        index_in_range(cpl, b, 0);
    }
}

/// Comparing methods the other way round flips the sign.
proof fn compare_flips(t: TableView, a: MethodView, b: MethodView, args: Seq<ClassId>, i: int)
    requires
        0 <= i,
    ensures
        compare_from(t, a, b, args, i) == -compare_from(t, b, a, args, i),
    decreases args.len() - i,
{
    if i < args.len() && a.specialisers[i] == b.specialisers[i] {
        compare_flips(t, a, b, args, i + 1);
    }
}

/// Applicable methods compare equal exactly if their specialisers agree.
pub proof fn ties_have_same_specialisers(
    t: TableView,
    a: MethodView,
    b: MethodView,
    args: Seq<ClassId>,
)
    requires
        short_lists(t),
        applicable(t, a, args),
        applicable(t, b, args),
    ensures
        compare_from(t, a, b, args, 0) == 0 <==> a.specialisers == b.specialisers,
{
    tie_from(t, a, b, args, 0);
    assert(a.specialisers == b.specialisers <==> a.specialisers =~= b.specialisers);
}

proof fn tie_from(t: TableView, a: MethodView, b: MethodView, args: Seq<ClassId>, i: int)
    requires
        short_lists(t),
        applicable(t, a, args),
        applicable(t, b, args),
        0 <= i,
    ensures
        compare_from(t, a, b, args, i) == 0 <==> forall|k: int|
            i <= k < args.len() ==> #[trigger] a.specialisers[k] == b.specialisers[k],
    decreases args.len() - i,
{
    if i < args.len() {
        assert(t.subclass(args[i], a.specialisers[i]));
        assert(t.subclass(args[i], b.specialisers[i]));
        if a.specialisers[i] == b.specialisers[i] {
            tie_from(t, a, b, args, i + 1);
        } else if cpl_rank(t, args[i], a.specialisers[i]) == cpl_rank(
            t,
            args[i],
            b.specialisers[i],
        ) {
            rank_injective(t, args[i], a.specialisers[i], b.specialisers[i]);
        }
    }
}

/// Specificity is transitive.
pub proof fn specificity_is_transitive(
    t: TableView,
    a: MethodView,
    b: MethodView,
    c: MethodView,
    args: Seq<ClassId>,
)
    requires
        short_lists(t),
        applicable(t, a, args),
        applicable(t, b, args),
        applicable(t, c, args),
        compare_from(t, a, b, args, 0) <= 0,
        compare_from(t, b, c, args, 0) <= 0,
    ensures
        compare_from(t, a, c, args, 0) <= 0,
{
    transitive_from(t, a, b, c, args, 0);
}

proof fn transitive_from(
    t: TableView,
    a: MethodView,
    b: MethodView,
    c: MethodView,
    args: Seq<ClassId>,
    i: int,
)
    requires
        short_lists(t),
        applicable(t, a, args),
        applicable(t, b, args),
        applicable(t, c, args),
        0 <= i,
        compare_from(t, a, b, args, i) <= 0,
        compare_from(t, b, c, args, i) <= 0,
    ensures
        compare_from(t, a, c, args, i) <= 0,
    decreases args.len() - i,
{
    if i < args.len() {
        assert(t.subclass(args[i], a.specialisers[i]));
        assert(t.subclass(args[i], b.specialisers[i]));
        assert(t.subclass(args[i], c.specialisers[i]));
        let x = a.specialisers[i];
        let y = b.specialisers[i];
        let z = c.specialisers[i];
        if x == y && y == z {
            transitive_from(t, a, b, c, args, i + 1);
        } else {
            if cpl_rank(t, args[i], x) == cpl_rank(t, args[i], y) {
                rank_injective(t, args[i], x, y);
            }
            if cpl_rank(t, args[i], y) == cpl_rank(t, args[i], z) {
                rank_injective(t, args[i], y, z);
            }
        }
    }
}

/// A chain in order: no method is less specific than a later one.
pub open spec fn in_order(t: TableView, chain: Seq<MethodView>, args: Seq<ClassId>) -> bool {
    forall|i: int, j: int|
        0 <= i < j < chain.len() ==> compare_from(
            t,
            #[trigger] chain[i],
            #[trigger] chain[j],
            args,
            0,
        ) <= 0
}

proof fn place_in_range(
    t: TableView,
    chain: Seq<MethodView>,
    m: MethodView,
    args: Seq<ClassId>,
    from: int,
)
    requires
        0 <= from <= chain.len(),
    ensures
        ({
            let p = place_from(t, chain, m, args, from);
            &&& from <= p <= chain.len()
            &&& p < chain.len() ==> more_specific(t, m, chain[p], args)
            &&& forall|k: int|
                from <= k < p ==> !more_specific(t, m, #[trigger] chain[k], args)
        }),
    decreases chain.len() - from,
{
    if from < chain.len() && !more_specific(t, m, chain[from], args) {
        place_in_range(t, chain, m, args, from + 1);
    }
}

/// The chain is in order, holds only applicable methods, and is a rearrangement
/// of all applicable methods.
pub proof fn chain_is_ordered(t: TableView, methods: Seq<MethodView>, args: Seq<ClassId>)
    requires
        short_lists(t),
    ensures
        in_order(t, applicable_chain(t, methods, args), args),
        forall|i: int|
            0 <= i < applicable_chain(t, methods, args).len() ==> applicable(
                t,
                #[trigger] applicable_chain(t, methods, args)[i],
                args,
            ),
        applicable_chain(t, methods, args).to_multiset() == methods.filter(
            |m: MethodView| applicable(t, m, args),
        ).to_multiset(),
    decreases methods.len(),
{
    let keep = |m: MethodView| applicable(t, m, args);
    broadcast use vstd::seq_lib::group_to_multiset_ensures;

    reveal(Seq::filter);
    if methods.len() > 0 {
        let front = methods.drop_last();
        let m = methods.last();
        chain_is_ordered(t, front, args);
        let chain = applicable_chain(t, front, args);
        if applicable(t, m, args) {
            let p = place_from(t, chain, m, args, 0);
            place_in_range(t, chain, m, args, 0);
            let next = chain.insert(p, m);
            assert forall|i: int| 0 <= i < next.len() implies applicable(
                t,
                #[trigger] next[i],
                args,
            ) by {
                if i < p {
                    assert(next[i] == chain[i]);
                } else if i > p {
                    assert(next[i] == chain[i - 1]);
                }
            }
            assert forall|i: int, j: int| 0 <= i < j < next.len() implies compare_from(
                t,
                #[trigger] next[i],
                #[trigger] next[j],
                args,
                0,
            ) <= 0 by {
                if j < p {
                    assert(next[i] == chain[i] && next[j] == chain[j]);
                } else if i > p {
                    assert(next[i] == chain[i - 1] && next[j] == chain[j - 1]);
                } else if i == p {
                    assert(next[j] == chain[j - 1]);
                    assert(compare_from(t, m, chain[p], args, 0) <= 0);
                    if j - 1 > p {
                        assert(compare_from(t, chain[p], chain[j - 1], args, 0) <= 0);
                        specificity_is_transitive(t, m, chain[p], chain[j - 1], args);
                    }
                } else if j == p {
                    assert(next[i] == chain[i]);
                    assert(!more_specific(t, m, chain[i], args));
                    compare_flips(t, m, chain[i], args, 0);
                } else {
                    assert(next[i] == chain[i] && next[j] == chain[j - 1]);
                }
            }
            insert_multiset(chain, p, m);
            assert(methods.filter(keep) == front.filter(keep).push(m));
        } else {
            assert(methods.filter(keep) == front.filter(keep));
        }
    } else {
        assert(applicable_chain(t, methods, args) =~= methods.filter(keep));
    }
}

proof fn insert_multiset(s: Seq<MethodView>, p: int, m: MethodView)
    requires
        0 <= p <= s.len(),
    ensures
        s.insert(p, m).to_multiset() == s.to_multiset().insert(m),
{
    vstd::seq_lib::to_multiset_insert(s, p, m);
}

/// With distinct specialisers in the table, the chain is strictly ordered and a
/// call is never ambiguous.
pub proof fn distinct_methods_never_tie(g: GenericView, t: TableView, args: Seq<ClassId>)
    requires
        g.wf(),
        short_lists(t),
    ensures
        !ambiguous(t, applicable_chain(t, g.methods, args), args),
        forall|i: int, j: int|
            0 <= i < j < applicable_chain(t, g.methods, args).len() ==> more_specific(
                t,
                #[trigger] applicable_chain(t, g.methods, args)[i],
                #[trigger] applicable_chain(t, g.methods, args)[j],
                args,
            ),
{
    let chain = applicable_chain(t, g.methods, args);
    chain_is_ordered(t, g.methods, args);
    chain_keeps_distinct(t, g.methods, args);
    assert forall|i: int, j: int| 0 <= i < j < chain.len() implies more_specific(
        t,
        #[trigger] chain[i],
        #[trigger] chain[j],
        args,
    ) by {
        ties_have_same_specialisers(t, chain[i], chain[j], args);
    }
    if chain.len() >= 2 {
        assert(more_specific(t, chain[0], chain[1], args));
    }
}

/// Every method of the chain is in the table, and distinct specialisers stay
/// distinct.
proof fn chain_keeps_distinct(t: TableView, methods: Seq<MethodView>, args: Seq<ClassId>)
    requires
        forall|i: int, j: int|
            0 <= i < j < methods.len() ==> (#[trigger] methods[i]).specialisers != (
            #[trigger] methods[j]).specialisers,
    ensures
        forall|i: int|
            0 <= i < applicable_chain(t, methods, args).len() ==> methods.contains(
                #[trigger] applicable_chain(t, methods, args)[i],
            ),
        forall|i: int, j: int|
            0 <= i < applicable_chain(t, methods, args).len() && 0 <= j < applicable_chain(
                t,
                methods,
                args,
            ).len() && i != j ==> (#[trigger] applicable_chain(t, methods, args)[i]).specialisers
                != (#[trigger] applicable_chain(t, methods, args)[j]).specialisers,
    decreases methods.len(),
{
    if methods.len() > 0 {
        let front = methods.drop_last();
        let m = methods.last();
        assert forall|i: int, j: int| 0 <= i < j < front.len() implies (
        #[trigger] front[i]).specialisers != (#[trigger] front[j]).specialisers by {
            assert(front[i] == methods[i] && front[j] == methods[j]);
        }
        chain_keeps_distinct(t, front, args);
        let chain = applicable_chain(t, front, args);
        assert forall|i: int| 0 <= i < chain.len() implies methods.contains(#[trigger] chain[i])
            && chain[i].specialisers != m.specialisers by {
            let k = choose|k: int| 0 <= k < front.len() && front[k] == chain[i];
            assert(methods[k] == chain[i]);
            assert(methods[methods.len() - 1] == m);
        }
        if applicable(t, m, args) {
            let p = place_from(t, chain, m, args, 0);
            place_in_range(t, chain, m, args, 0);
            let next = chain.insert(p, m);
            assert forall|i: int| 0 <= i < next.len() implies methods.contains(
                #[trigger] next[i],
            ) by {
                if i < p {
                    assert(next[i] == chain[i]);
                } else if i > p {
                    assert(next[i] == chain[i - 1]);
                } else {
                    assert(methods[methods.len() - 1] == m);
                }
            }
            assert forall|i: int, j: int|
                0 <= i < next.len() && 0 <= j < next.len() && i != j implies (
            #[trigger] next[i]).specialisers != (#[trigger] next[j]).specialisers by {
                let a = if i < p { i } else { i - 1 };
                let b = if j < p { j } else { j - 1 };
                if i != p {
                    assert(next[i] == chain[a]);
                }
                if j != p {
                    assert(next[j] == chain[b]);
                }
            }
        }
    }
}

// ----- what selection is for -----

/// The first position of an id in a precedence list is its rank.
proof fn rank_is_first_position(t: TableView, arg: ClassId, e: int, p: int)
    requires
        0 <= e < t.entries.len(),
        t.entries[e].id == arg,
        forall|k: int| 0 <= k < e ==> (#[trigger] t.entries[k]).id != arg,
        0 <= p < t.entries[e].cpl.len(),
        forall|k: int| 0 <= k < p ==> #[trigger] t.entries[e].cpl[k] != t.entries[e].cpl[p],
    ensures
        cpl_rank(t, arg, t.entries[e].cpl[p]) == p,
{
    position_in_range(t.entries, arg, 0);
    let cpl = t.entries[e].cpl;
    index_in_range(cpl, cpl[p], 0);
    first_index(cpl, cpl[p], 0);
}

/// The position found is the first one.
proof fn first_index(cpl: Seq<ClassId>, id: ClassId, from: int)
    requires
        0 <= from,
    ensures
        index_from(cpl, id, from) matches Some(p) ==> forall|k: int|
            from <= k < p ==> #[trigger] cpl[k] != id,
    decreases cpl.len() - from,
{
    if from < cpl.len() && cpl[from] != id {
        first_index(cpl, id, from + 1);
    }
}

/// Methods that agree before argument `i` compare by argument `i`.
proof fn compare_skips_agreement(
    t: TableView,
    a: MethodView,
    b: MethodView,
    args: Seq<ClassId>,
    from: int,
    i: int,
)
    requires
        0 <= from <= i < args.len(),
        forall|k: int| from <= k < i ==> #[trigger] a.specialisers[k] == b.specialisers[k],
    ensures
        compare_from(t, a, b, args, from) == compare_from(t, a, b, args, i),
    decreases i - from,
{
    if from < i {
        assert(a.specialisers[from] == b.specialisers[from]);
        compare_skips_agreement(t, a, b, args, from + 1, i);
    }
}

/// Of two applicable methods that agree before argument `i` and differ there, the
/// one that is tried first is the one whose specialiser for that argument stands
/// first in the precedence list of the argument's class, whichever argument it is.
///
/// `x` and `y` are the places of the two in the order of selection, `e` is the
/// place of the argument's class in the table, and `p` and `q` are the places of
/// the two specialisers in its precedence list.
pub proof fn earlier_in_precedence_list_runs_first(
    t: TableView,
    methods: Seq<MethodView>,
    args: Seq<ClassId>,
    x: int,
    y: int,
    i: int,
    e: int,
    p: int,
    q: int,
)
    requires
        short_lists(t),
        0 <= x < applicable_chain(t, methods, args).len(),
        0 <= y < applicable_chain(t, methods, args).len(),
        0 <= i < args.len(),
        ({
            let a = applicable_chain(t, methods, args)[x];
            let b = applicable_chain(t, methods, args)[y];
            let cpl = t.entries[e].cpl;
            &&& forall|k: int| 0 <= k < i ==> #[trigger] a.specialisers[k] == b.specialisers[k]
            &&& 0 <= e < t.entries.len()
            &&& t.entries[e].id == args[i]
            &&& forall|k: int| 0 <= k < e ==> (#[trigger] t.entries[k]).id != args[i]
            &&& 0 <= p < cpl.len()
            &&& cpl[p] == a.specialisers[i]
            &&& forall|k: int| 0 <= k < p ==> #[trigger] cpl[k] != a.specialisers[i]
            &&& 0 <= q < cpl.len()
            &&& cpl[q] == b.specialisers[i]
            &&& forall|k: int| 0 <= k < q ==> #[trigger] cpl[k] != b.specialisers[i]
            &&& p != q
        }),
    ensures
        x < y <==> p < q,
        bodies(applicable_chain(t, methods, args))[x]
            == applicable_chain(t, methods, args)[x].body_fn_ptr,
        bodies(applicable_chain(t, methods, args))[y]
            == applicable_chain(t, methods, args)[y].body_fn_ptr,
        bodies(applicable_chain(t, methods, args)).len() == applicable_chain(
            t,
            methods,
            args,
        ).len(),
{
    let chain = applicable_chain(t, methods, args);
    let a = chain[x];
    let b = chain[y];
    chain_is_ordered(t, methods, args);
    rank_is_first_position(t, args[i], e, p);
    rank_is_first_position(t, args[i], e, q);
    compare_skips_agreement(t, a, b, args, 0, i);
    compare_flips(t, a, b, args, 0);
    assert(compare_from(t, a, b, args, i) == p - q);
    if x < y {
        assert(compare_from(t, chain[x], chain[y], args, 0) <= 0);
    } else if y < x {
        assert(compare_from(t, chain[y], chain[x], args, 0) <= 0);
    }
}

/// A method whose specialisers are all subclasses of another's, and not all the
/// same, is tried before it, in a table whose precedence lists name subclasses
/// before their superclasses.
pub proof fn method_on_subclasses_runs_first(
    t: TableView,
    methods: Seq<MethodView>,
    args: Seq<ClassId>,
    x: int,
    y: int,
)
    requires
        short_lists(t),
        forall|e: int, p: int, q: int|
            0 <= e < t.entries.len() && 0 <= p < q < t.entries[e].cpl.len() ==> !t.subclass(
                #[trigger] t.entries[e].cpl[q],
                #[trigger] t.entries[e].cpl[p],
            ),
        forall|e: int|
            0 <= e < t.entries.len() ==> t.entries[e].cpl.contains(
                (#[trigger] t.entries[e]).id,
            ),
        0 <= x < applicable_chain(t, methods, args).len(),
        0 <= y < applicable_chain(t, methods, args).len(),
        ({
            let a = applicable_chain(t, methods, args)[x].specialisers;
            let b = applicable_chain(t, methods, args)[y].specialisers;
            &&& a != b
            &&& forall|i: int| 0 <= i < args.len() ==> t.subclass(#[trigger] a[i], b[i])
        }),
    ensures
        x < y,
{
    let chain = applicable_chain(t, methods, args);
    let a = chain[x];
    let b = chain[y];
    chain_is_ordered(t, methods, args);
    assert(applicable(t, a, args) && applicable(t, b, args));
    if forall|k: int| 0 <= k < args.len() ==> #[trigger] a.specialisers[k] == b.specialisers[k] {
        assert(a.specialisers =~= b.specialisers);
    }
    let i = first_difference(a.specialisers, b.specialisers, 0);
    assert(t.subclass(a.specialisers[i], b.specialisers[i]));
    assert(t.subclass(args[i], a.specialisers[i]));
    assert(t.subclass(args[i], b.specialisers[i]));
    position_in_range(t.entries, args[i], 0);
    if t.lookup(args[i]) is None {
        assert(a.specialisers[i] == b.specialisers[i]);
    }
    let e = position_from(t.entries, args[i], 0)->0;
    let cpl = t.entries[e].cpl;
    assert(cpl.contains(t.entries[e].id));
    assert(cpl.contains(a.specialisers[i]) && cpl.contains(b.specialisers[i]));
    index_in_range(cpl, a.specialisers[i], 0);
    index_in_range(cpl, b.specialisers[i], 0);
    first_index(cpl, a.specialisers[i], 0);
    first_index(cpl, b.specialisers[i], 0);
    let p = index_from(cpl, a.specialisers[i], 0)->0;
    let q = index_from(cpl, b.specialisers[i], 0)->0;
    if q < p {
        assert(!t.subclass(t.entries[e].cpl[p], t.entries[e].cpl[q]));
    }
    earlier_in_precedence_list_runs_first(t, methods, args, x, y, i, e, p, q);
}

/// The first place where two lists of one length differ.
proof fn first_difference(a: Seq<ClassId>, b: Seq<ClassId>, from: int) -> (i: int)
    requires
        a.len() == b.len(),
        0 <= from,
        exists|k: int| from <= k < a.len() && #[trigger] a[k] != b[k],
    ensures
        from <= i < a.len(),
        a[i] != b[i],
        forall|k: int| from <= k < i ==> #[trigger] a[k] == b[k],
    decreases a.len() - from,
{
    if from >= a.len() || a[from] != b[from] {
        from
    } else {
        first_difference(a, b, from + 1)
    }
}

/// A method takes part in a call exactly if it has one specialiser per argument
/// and each argument's class is the specialiser or names it in its precedence
/// list.
pub proof fn applicable_methods_take_every_argument(
    t: TableView,
    methods: Seq<MethodView>,
    args: Seq<ClassId>,
    k: int,
)
    requires
        short_lists(t),
        0 <= k < methods.len(),
    ensures
        applicable_chain(t, methods, args).contains(methods[k]) <==> {
            &&& methods[k].specialisers.len() == args.len()
            &&& forall|i: int|
                0 <= i < args.len() ==> #[trigger] args[i] == methods[k].specialisers[i] || exists|
                    e: int,
                    p: int,
                |
                    0 <= e < t.entries.len() && t.entries[e].id == args[i] && (forall|j: int|
                        0 <= j < e ==> (#[trigger] t.entries[j]).id != args[i]) && 0 <= p
                        < t.entries[e].cpl.len() && #[trigger] t.entries[e].cpl[p]
                        == methods[k].specialisers[i]
        },
        forall|x: int|
            0 <= x < applicable_chain(t, methods, args).len() ==> methods.contains(
                #[trigger] applicable_chain(t, methods, args)[x],
            ),
{
    broadcast use vstd::seq_lib::group_to_multiset_ensures;

    let m = methods[k];
    let keep = |m: MethodView| applicable(t, m, args);
    let chain = applicable_chain(t, methods, args);
    chain_is_ordered(t, methods, args);
    let kept = methods.filter(keep);
    assert(chain.contains(m) <==> kept.contains(m)) by {
        assert(chain.to_multiset().count(m) == kept.to_multiset().count(m));
    }
    if keep(m) {
        methods.lemma_filter_contains(keep, k);
    }
    if kept.contains(m) {
        let j = choose|j: int| 0 <= j < kept.len() && kept[j] == m;
        methods.lemma_filter_pred(keep, j);
    }
    assert forall|x: int| 0 <= x < chain.len() implies methods.contains(#[trigger] chain[x]) by {
        assert(chain.contains(chain[x]));
        assert(chain.to_multiset().count(chain[x]) > 0);
        assert(kept.contains(chain[x]));
        methods.lemma_filter_contains_rev(keep, chain[x]);
    }
    assert forall|i: int| 0 <= i < args.len() implies (t.subclass(#[trigger] args[i], m.specialisers[i])
        <==> args[i] == m.specialisers[i] || exists|e: int, p: int|
        0 <= e < t.entries.len() && t.entries[e].id == args[i] && (forall|j: int|
            0 <= j < e ==> (#[trigger] t.entries[j]).id != args[i]) && 0 <= p
            < t.entries[e].cpl.len() && #[trigger] t.entries[e].cpl[p] == m.specialisers[i]) by {
        position_in_range(t.entries, args[i], 0);
        if t.lookup(args[i]) is Some && t.lookup(args[i])->0.cpl.contains(m.specialisers[i]) {
            let e = position_from(t.entries, args[i], 0)->0;
            let p = choose|p: int|
                0 <= p < t.entries[e].cpl.len() && t.entries[e].cpl[p] == m.specialisers[i];
            assert(t.entries[e].cpl[p] == m.specialisers[i]);
        }
    }
}

// ----- selection -----

/// Whether a method is applicable to arguments of these classes.
pub fn is_applicable(table: &ClassTable, m: &Method, arg_classes: &Vec<ClassId>) -> (b: bool)
    ensures
        b == applicable(table@, m@, arg_classes@),
{
    if m.specialisers.len() != arg_classes.len() {
        return false;
    }
    let mut i: usize = 0;
    while i < arg_classes.len()
        invariant
            m.specialisers.len() == arg_classes.len(),
            i <= arg_classes.len(),
            forall|k: int|
                0 <= k < i ==> table@.subclass(
                    #[trigger] arg_classes@[k],
                    m.specialisers@[k],
                ),
        decreases arg_classes.len() - i,
    {
        if !is_subclass(table, arg_classes[i], m.specialisers[i]) {
            return false;
        }
        i += 1;
    }
    true
}

/// The position of a specialiser in the precedence list of an argument class;
/// the largest number if it is not there.
pub fn cpl_position(table: &ClassTable, arg: ClassId, spec: ClassId) -> (p: usize)
    ensures
        p == cpl_rank(table@, arg, spec),
{
    match table.class_metadata(arg) {
        None => usize::MAX,
        Some(md) => {
            let mut i: usize = 0;
            while i < md.cpl.len()
                invariant
                    i <= md.cpl.len(),
                    table@.lookup(arg) == Some(md@),
                    index_from(md.cpl@, spec, 0) == index_from(md.cpl@, spec, i as int),
                decreases md.cpl.len() - i,
            {
                if md.cpl[i] == spec {
                    return i;
                }
                i += 1;
            }
            usize::MAX
        },
    }
}

/// How two methods compare.
#[derive(Clone, Copy, PartialEq, Eq, Structural, Debug)]
pub enum Specificity {
    MoreSpecific,
    Tie,
    LessSpecific,
}

/// Compares two methods for arguments of these classes.
pub fn compare_specificity(
    table: &ClassTable,
    a: &Method,
    b: &Method,
    arg_classes: &Vec<ClassId>,
) -> (r: Specificity)
    requires
        a.specialisers@.len() == arg_classes@.len(),
        b.specialisers@.len() == arg_classes@.len(),
    ensures
        ({
            let c = compare_from(table@, a@, b@, arg_classes@, 0);
            r == if c < 0 {
                Specificity::MoreSpecific
            } else if c == 0 {
                Specificity::Tie
            } else {
                Specificity::LessSpecific
            }
        }),
{
    let mut i: usize = 0;
    while i < arg_classes.len()
        invariant
            a.specialisers@.len() == arg_classes@.len(),
            b.specialisers@.len() == arg_classes@.len(),
            i <= arg_classes.len(),
            compare_from(table@, a@, b@, arg_classes@, 0) == compare_from(
                table@,
                a@,
                b@,
                arg_classes@,
                i as int,
            ),
        decreases arg_classes.len() - i,
    {
        if a.specialisers[i] != b.specialisers[i] {
            let pa = cpl_position(table, arg_classes[i], a.specialisers[i]);
            let pb = cpl_position(table, arg_classes[i], b.specialisers[i]);
            return if pa < pb {
                Specificity::MoreSpecific
            } else if pa == pb {
                Specificity::Tie
            } else {
                Specificity::LessSpecific
            };
        }
        i += 1;
    }
    Specificity::Tie
}

/// The methods at these table positions.
pub open spec fn picked(methods: Seq<MethodView>, order: Seq<usize>) -> Seq<MethodView> {
    Seq::new(order.len(), |i: int| methods[order[i] as int])
}

/// The table positions of the applicable methods, most specific first.
fn order_methods(table: &ClassTable, generic: &GenericFunction, arg_classes: &Vec<ClassId>) -> (
order: Vec<usize>)
    ensures
        forall|i: int| 0 <= i < order@.len() ==> (#[trigger] order@[i]) < generic@.methods.len(),
        forall|i: int|
            0 <= i < order@.len() ==> generic@.methods[(#[trigger] order@[i]) as int].specialisers.len()
                == arg_classes@.len(),
        picked(generic@.methods, order@) == applicable_chain(
            table@,
            generic@.methods,
            arg_classes@,
        ),
{
    let ghost all = generic@.methods;
    let ghost t = table@;
    let ghost args = arg_classes@;
    let mut order: Vec<usize> = Vec::new();
    let mut i: usize = 0;
    assert(all.take(0) =~= seq![]);
    assert(picked(all, order@) =~= seq![]);
    while i < generic.methods.len()
        invariant
            i <= generic.methods.len(),
            all == generic@.methods,
            t == table@,
            args == arg_classes@,
            forall|k: int| 0 <= k < order@.len() ==> (#[trigger] order@[k]) < all.len(),
            forall|k: int|
                0 <= k < order@.len() ==> all[(#[trigger] order@[k]) as int].specialisers.len()
                    == args.len(),
            picked(all, order@) == applicable_chain(t, all.take(i as int), args),
        decreases generic.methods.len() - i,
    {
        let ghost m = all[i as int];
        let ghost chain = picked(all, order@);
        proof {
            assert(m == generic.methods@[i as int]@);
            assert(all.take(i + 1).drop_last() =~= all.take(i as int));
            assert(all.take(i + 1).last() == m);
        }
        if is_applicable(table, &generic.methods[i], arg_classes) {
            let mut p: usize = 0;
            let mut placed = false;
            while p < order.len() && !placed
                invariant
                    i < generic.methods.len(),
                    all == generic@.methods,
                    m == generic.methods@[i as int]@,
                    t == table@,
                    args == arg_classes@,
                    applicable(t, m, args),
                    chain == picked(all, order@),
                    p <= order.len(),
                    forall|k: int| 0 <= k < order@.len() ==> (#[trigger] order@[k]) < all.len(),
                    forall|k: int|
                        0 <= k < order@.len() ==> all[(
                        #[trigger] order@[k]) as int].specialisers.len() == args.len(),
                    place_from(t, chain, m, args, 0) == place_from(t, chain, m, args, p as int),
                    placed ==> p < order.len() && more_specific(t, m, chain[p as int], args),
                decreases order.len() - p + (if placed { 0int } else { 1 }),
            {
                let k = order[p];
                assert(chain[p as int] == generic.methods@[k as int]@);
                let c = compare_specificity(
                    table,
                    &generic.methods[i],
                    &generic.methods[k],
                    arg_classes,
                );
                if c == Specificity::MoreSpecific {
                    placed = true;
                } else {
                    p += 1;
                }
            }
            assert(p == place_from(t, chain, m, args, 0));
            order.insert(p, i);
            assert(picked(all, order@) =~= chain.insert(p as int, m));
        }
        i += 1;
    }
    assert(all.take(i as int) =~= all);
    order
}

/// The bodies of the applicable methods, most specific first; absent when none
/// is applicable.
pub fn lookup_applicable_methods(
    table: &ClassTable,
    generic: &GenericFunction,
    arg_classes: &Vec<ClassId>,
) -> (chain: Option<Vec<u64>>)
    requires
        !ambiguous(
            table@,
            applicable_chain(table@, generic@.methods, arg_classes@),
            arg_classes@,
        ),
    ensures
        ({
            let c = applicable_chain(table@, generic@.methods, arg_classes@);
            &&& chain is None <==> c.len() == 0
            &&& chain is Some ==> chain->0@ == bodies(c)
        }),
{
    let order = order_methods(table, generic, arg_classes);
    let ghost c = applicable_chain(table@, generic@.methods, arg_classes@);
    if order.len() == 0 {
        return None;
    }
    let mut found: Vec<u64> = Vec::new();
    let mut i: usize = 0;
    while i < order.len()
        invariant
            i <= order.len(),
            c == picked(generic@.methods, order@),
            forall|k: int|
                0 <= k < order@.len() ==> (#[trigger] order@[k]) < generic@.methods.len(),
            found@.len() == i,
            forall|k: int| 0 <= k < i ==> #[trigger] found@[k] == c[k].body_fn_ptr,
        decreases order.len() - i,
    {
        let k = order[i];
        assert(c[i as int] == generic.methods@[k as int]@);
        found.push(generic.methods[k].body_fn_ptr);
        i += 1;
    }
    assert(found@ =~= bodies(c));
    Some(found)
}

/// The body of the most specific applicable method.
pub fn lookup_method(
    table: &ClassTable,
    generic: &GenericFunction,
    arg_classes: &Vec<ClassId>,
) -> (body: Option<u64>)
    requires
        !ambiguous(
            table@,
            applicable_chain(table@, generic@.methods, arg_classes@),
            arg_classes@,
        ),
    ensures
        ({
            let c = applicable_chain(table@, generic@.methods, arg_classes@);
            body == if c.len() == 0 {
                None::<u64>
            } else {
                Some(c[0].body_fn_ptr)
            }
        }),
{
    match lookup_applicable_methods(table, generic, arg_classes) {
        Some(chain) => Some(chain[0]),
        None => None,
    }
}

// ----- names and diagnostics -----

/// The name that diagnostics show for a class.
pub open spec fn shown_name(t: TableView, id: ClassId) -> Seq<char> {
    match t.lookup(id) {
        Some(c) => c.name,
        None => "<unknown:"@ + decimal_digits(id.0 as nat) + ">"@,
    }
}

/// The names of several classes.
pub open spec fn shown_names(t: TableView, ids: Seq<ClassId>) -> Seq<Seq<char>> {
    Seq::new(ids.len(), |i: int| shown_name(t, ids[i]))
}

/// The name of a class for diagnostics.
pub fn class_name(table: &ClassTable, id: ClassId) -> (s: String)
    ensures
        s@ == shown_name(table@, id),
{
    match table.class_metadata(id) {
        Some(md) => md.name.clone(),
        None => {
            let mut s = String::from_str("<unknown:");
            s.append(decimal_unsigned(id.0 as u64).as_str());
            s.append(">");
            s
        },
    }
}

/// The names of several classes for diagnostics.
pub fn class_names(table: &ClassTable, ids: &Vec<ClassId>) -> (names: Vec<String>)
    ensures
        text_views(names@) == shown_names(table@, ids@),
{
    let mut names: Vec<String> = Vec::new();
    let mut i: usize = 0;
    while i < ids.len()
        invariant
            i <= ids.len(),
            names@.len() == i,
            forall|k: int| 0 <= k < i ==> (#[trigger] names@[k])@ == shown_name(table@, ids@[k]),
        decreases ids.len() - i,
    {
        names.push(class_name(table, ids[i]));
        i += 1;
    }
    assert(text_views(names@) =~= shown_names(table@, ids@));
    names
}

/// The names of several classes, separated by commas.
pub open spec fn name_list(t: TableView, ids: Seq<ClassId>) -> Seq<char> {
    joined(shown_names(t, ids), ", "@)
}

/// The text that reports an ambiguous call.
pub open spec fn ambiguity_text(
    t: TableView,
    name: Seq<char>,
    a: Seq<ClassId>,
    b: Seq<ClassId>,
    args: Seq<ClassId>,
) -> Seq<char> {
    "dispatch: <ambiguous-methods-error>: `"@ + name + "` on ("@ + name_list(t, args)
        + ") has multiple equally-specific methods (e.g. ("@ + name_list(t, a) + ") and ("@
        + name_list(t, b)
        + ")); Sprint 19 will surface this as a signalled condition"@
}

/// Tests whether a call is ambiguous, and if so says so.
pub fn ambiguity(table: &ClassTable, generic: &GenericFunction, arg_classes: &Vec<ClassId>) -> (
message: Option<String>)
    ensures
        ({
            let c = applicable_chain(table@, generic@.methods, arg_classes@);
            &&& message is Some <==> ambiguous(table@, c, arg_classes@)
            &&& message is Some ==> message->0@ == ambiguity_text(
                table@,
                generic@.name,
                c[0].specialisers,
                c[1].specialisers,
                arg_classes@,
            )
        }),
{
    let order = order_methods(table, generic, arg_classes);
    let ghost c = applicable_chain(table@, generic@.methods, arg_classes@);
    if order.len() < 2 {
        return None;
    }
    let a = &generic.methods[order[0]];
    let b = &generic.methods[order[1]];
    assert(c[0] == a@ && c[1] == b@);
    if compare_specificity(table, a, b, arg_classes) != Specificity::Tie {
        return None;
    }
    let mut s = String::from_str("dispatch: <ambiguous-methods-error>: `");
    s.append(generic.name.as_str());
    s.append("` on (");
    s.append(join(&class_names(table, arg_classes), ", ").as_str());
    s.append(") has multiple equally-specific methods (e.g. (");
    s.append(join(&class_names(table, &a.specialisers), ", ").as_str());
    s.append(") and (");
    s.append(join(&class_names(table, &b.specialisers), ", ").as_str());
    s.append(")); Sprint 19 will surface this as a signalled condition");
    Some(s)
}

// ----- single-receiver selection -----

/// A selected method: its code and parameter count.
#[derive(Clone, Copy, PartialEq, Eq, Structural, Debug)]
pub struct MethodPtr {
    pub body_fn_ptr: u64,
    pub param_count: usize,
}

/// Whether a method takes receivers of this class.
pub open spec fn takes_receiver(t: TableView, m: MethodView, receiver: ClassId) -> bool {
    m.specialisers.len() > 0 && t.subclass(receiver, m.specialisers[0])
}

/// `k` is the method for a receiver: no method that takes it has a closer first
/// specialiser, and none before `k` in the table is as close.
pub open spec fn closest(
    t: TableView,
    methods: Seq<MethodView>,
    receiver: ClassId,
    k: int,
) -> bool {
    &&& 0 <= k < methods.len()
    &&& takes_receiver(t, methods[k], receiver)
    &&& forall|j: int|
        0 <= j < methods.len() && takes_receiver(t, #[trigger] methods[j], receiver) ==> cpl_rank(
            t,
            receiver,
            methods[k].specialisers[0],
        ) <= cpl_rank(t, receiver, methods[j].specialisers[0])
    &&& forall|j: int|
        0 <= j < k && takes_receiver(t, #[trigger] methods[j], receiver) ==> cpl_rank(
            t,
            receiver,
            methods[k].specialisers[0],
        ) < cpl_rank(t, receiver, methods[j].specialisers[0])
}

/// Picks the method of a generic for a receiver class by its first specialiser
/// alone.
pub fn method_for_receiver(
    table: &ClassTable,
    generic: &GenericFunction,
    receiver_class: ClassId,
) -> (r: Option<MethodPtr>)
    ensures
        r is None <==> forall|j: int|
            0 <= j < generic@.methods.len() ==> !takes_receiver(
                table@,
                #[trigger] generic@.methods[j],
                receiver_class,
            ),
        r is Some ==> exists|k: int|
            #[trigger] closest(table@, generic@.methods, receiver_class, k) && (r->0).body_fn_ptr
                == generic@.methods[k].body_fn_ptr && (r->0).param_count
                == generic@.methods[k].param_count,
{
    let ghost ms = generic@.methods;
    let ghost t = table@;
    let mut best: Option<usize> = None;
    let mut best_rank: usize = 0;
    let mut i: usize = 0;
    while i < generic.methods.len()
        invariant
            i <= generic.methods.len(),
            ms == generic@.methods,
            t == table@,
            best is None ==> forall|j: int|
                0 <= j < i ==> !takes_receiver(t, #[trigger] ms[j], receiver_class),
            best is Some ==> {
                let k = best->0 as int;
                &&& k < i
                &&& takes_receiver(t, ms[k], receiver_class)
                &&& best_rank == cpl_rank(t, receiver_class, ms[k].specialisers[0])
                &&& forall|j: int|
                    0 <= j < i && takes_receiver(t, #[trigger] ms[j], receiver_class) ==> best_rank
                        <= cpl_rank(t, receiver_class, ms[j].specialisers[0])
                &&& forall|j: int|
                    0 <= j < k && takes_receiver(t, #[trigger] ms[j], receiver_class) ==> best_rank
                        < cpl_rank(t, receiver_class, ms[j].specialisers[0])
            },
        decreases generic.methods.len() - i,
    {
        let m = &generic.methods[i];
        assert(ms[i as int] == m@);
        if m.specialisers.len() > 0 && is_subclass(table, receiver_class, m.specialisers[0]) {
            let rank = cpl_position(table, receiver_class, m.specialisers[0]);
            let closer = match best {
                None => true,
                Some(_) => rank < best_rank,
            };
            if closer {
                best = Some(i);
                best_rank = rank;
            }
        }
        i += 1;
    }
    match best {
        None => None,
        Some(k) => {
            assert(closest(t, ms, receiver_class, k as int));
            assert(ms[k as int] == generic.methods@[k as int]@);
            Some(
                MethodPtr {
                    body_fn_ptr: generic.methods[k].body_fn_ptr,
                    param_count: generic.methods[k].param_count,
                },
            )
        },
    }
}

/// The method for a receiver takes it, and no method that takes it has a first
/// specialiser that stands earlier in the precedence list of the receiver's class.
///
/// `e` is the place of that class in the table, and `p` and `q` are the places of
/// the two specialisers in its precedence list.
pub proof fn receiver_gets_the_closest_method(
    t: TableView,
    methods: Seq<MethodView>,
    receiver: ClassId,
    k: int,
    j: int,
    e: int,
    p: int,
    q: int,
)
    requires
        closest(t, methods, receiver, k),
        0 <= j < methods.len(),
        methods[j].specialisers.len() > 0,
        0 <= e < t.entries.len(),
        t.entries[e].id == receiver,
        forall|i: int| 0 <= i < e ==> (#[trigger] t.entries[i]).id != receiver,
        0 <= p < t.entries[e].cpl.len(),
        t.entries[e].cpl[p] == methods[k].specialisers[0],
        forall|i: int| 0 <= i < p ==> #[trigger] t.entries[e].cpl[i] != t.entries[e].cpl[p],
        0 <= q < t.entries[e].cpl.len(),
        t.entries[e].cpl[q] == methods[j].specialisers[0],
        forall|i: int| 0 <= i < q ==> #[trigger] t.entries[e].cpl[i] != t.entries[e].cpl[q],
    ensures
        0 <= k < methods.len(),
        methods[k].specialisers.len() > 0,
        p <= q,
        p == q ==> k <= j,
{
    rank_is_first_position(t, receiver, e, p);
    rank_is_first_position(t, receiver, e, q);
    position_in_range(t.entries, receiver, 0);
    assert(t.lookup(receiver) == Some(t.entries[e]));
    assert(t.entries[e].cpl.contains(t.entries[e].cpl[q]));
    assert(takes_receiver(t, methods[j], receiver));
}

/// A class is shown by its name, and one that is not registered by its number.
pub proof fn classes_are_shown_by_name(t: TableView, ids: Seq<ClassId>, i: int, e: int)
    requires
        0 <= i < ids.len(),
        0 <= e < t.entries.len(),
        t.entries[e].id == ids[i],
        forall|k: int| 0 <= k < e ==> (#[trigger] t.entries[k]).id != ids[i],
    ensures
        shown_names(t, ids).len() == ids.len(),
        shown_names(t, ids)[i] == t.entries[e].name,
{
    position_in_range(t.entries, ids[i], 0);
}

/// What is said of an ambiguous call names the generic, the classes of the arguments and both
/// methods.
pub proof fn ambiguous_calls_are_named(
    t: TableView,
    name: Seq<char>,
    a: Seq<ClassId>,
    b: Seq<ClassId>,
    args: Seq<ClassId>,
)
    ensures
        ambiguity_text(t, name, a, b, args) == "dispatch: <ambiguous-methods-error>: `"@ + name
            + "` on ("@ + joined(shown_names(t, args), ", "@)
            + ") has multiple equally-specific methods (e.g. ("@ + joined(shown_names(t, a), ", "@)
            + ") and ("@ + joined(shown_names(t, b), ", "@)
            + ")); Sprint 19 will surface this as a signalled condition"@,
{
}

/// A method that is added goes before the first method that it is more specific than, so
/// behind those added before that are as specific; one that does not apply changes nothing.
pub proof fn later_methods_go_behind_equals(
    t: TableView,
    methods: Seq<MethodView>,
    m: MethodView,
    args: Seq<ClassId>,
)
    ensures
        ({
            let before = applicable_chain(t, methods, args);
            let after = applicable_chain(t, methods.push(m), args);
            &&& !applicable(t, m, args) ==> after == before
            &&& applicable(t, m, args) ==> exists|p: int|
                0 <= p <= before.len() && after == #[trigger] before.insert(p, m) && (p
                    < before.len() ==> compare_from(t, m, before[p], args, 0) < 0) && (forall|
                    k: int,
                |
                    0 <= k < p ==> compare_from(t, m, #[trigger] before[k], args, 0) >= 0)
        }),
{
    let before = applicable_chain(t, methods, args);
    assert(methods.push(m).drop_last() =~= methods);
    assert(methods.push(m).last() == m);
    place_in_range(t, before, m, args, 0);
    let p = place_from(t, before, m, args, 0);
    if applicable(t, m, args) {
        assert(applicable_chain(t, methods.push(m), args) == before.insert(p, m));
        assert forall|k: int| 0 <= k < p implies compare_from(t, m, #[trigger] before[k], args, 0)
            >= 0 by {
            assert(!more_specific(t, m, before[k], args));
        }
    }
}

} // verus!
