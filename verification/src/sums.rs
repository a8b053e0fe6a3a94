//! Sums of rows of numbers, and unions of what several rows hold.

use vstd::multiset::Multiset;
use vstd::prelude::*;

verus! {

/// The sum of a row of numbers.
pub open spec fn sum(s: Seq<nat>) -> nat
    decreases s.len(),
{
    if s.len() == 0 {
        0
    } else {
        sum(s.drop_last()) + s.last()
    }
}

/// One more number adds to the sum.
pub proof fn sum_of_push(s: Seq<nat>, v: nat)
    ensures
        sum(s.push(v)) == sum(s) + v,
{
    assert(s.push(v).drop_last() =~= s);
}

/// Changing one number changes the sum by as much.
pub proof fn sum_of_update(s: Seq<nat>, k: int, v: nat)
    requires
        0 <= k < s.len(),
    ensures
        sum(s.update(k, v)) + s[k] == sum(s) + v,
    decreases s.len(),
{
    if k == s.len() - 1 {
        assert(s.update(k, v).drop_last() =~= s.drop_last());
    } else {
        assert(s.update(k, v).drop_last() =~= s.drop_last().update(k, v));
        sum_of_update(s.drop_last(), k, v);
    }
}

/// Taking one number out of a row takes it off the sum.
proof fn sum_without(s: Seq<nat>, k: int)
    requires
        0 <= k < s.len(),
    ensures
        sum(s) == sum(s.remove(k)) + s[k],
    decreases s.len(),
{
    if k == s.len() - 1 {
        assert(s.remove(k) =~= s.drop_last());
    } else {
        sum_without(s.drop_last(), k);
        assert(s.remove(k).drop_last() =~= s.drop_last().remove(k));
    }
}

/// Of two rows that are the same but for the order, the second has the last
/// element of the first somewhere, and without it the rows are still the same
/// but for the order.
proof fn last_is_found<A>(a: Seq<A>, b: Seq<A>) -> (k: int)
    requires
        a.to_multiset() == b.to_multiset(),
        a.len() > 0,
    ensures
        0 <= k < b.len(),
        b[k] == a.last(),
        a.drop_last().to_multiset() == b.remove(k).to_multiset(),
{
    broadcast use vstd::seq_lib::group_to_multiset_ensures;

    let v = a.last();
    assert(a[a.len() - 1] == v);
    assert(a.contains(v));
    assert(b.to_multiset().count(v) > 0);
    assert(b.contains(v));
    let k = choose|k: int| 0 <= k < b.len() && b[k] == v;
    assert(a.drop_last() =~= a.remove(a.len() - 1));
    k
}

/// The sum does not depend on the order.
pub proof fn sum_ignores_order(a: Seq<nat>, b: Seq<nat>)
    requires
        a.to_multiset() == b.to_multiset(),
    ensures
        sum(a) == sum(b),
        a.len() == b.len(),
    decreases a.len(),
{
    a.to_multiset_ensures();
    b.to_multiset_ensures();
    if a.len() > 0 {
        let k = last_is_found(a, b);
        sum_without(b, k);
        sum_ignores_order(a.drop_last(), b.remove(k));
    }
}

/// Rows that are the same but for the order are so after each element is
/// mapped.
pub proof fn map_ignores_order<A, B>(a: Seq<A>, b: Seq<A>, f: spec_fn(A) -> B)
    requires
        a.to_multiset() == b.to_multiset(),
    ensures
        a.map_values(f).to_multiset() == b.map_values(f).to_multiset(),
    decreases a.len(),
{
    broadcast use vstd::seq_lib::group_to_multiset_ensures;

    a.to_multiset_ensures();
    b.to_multiset_ensures();
    if a.len() == 0 {
        assert(a.map_values(f) =~= b.map_values(f));
    } else {
        let k = last_is_found(a, b);
        let v = f(a.last());
        let fewer = a.drop_last();
        let rest = b.remove(k);
        map_ignores_order(fewer, rest, f);
        assert(a.map_values(f) =~= fewer.map_values(f).push(v));
        assert(b.map_values(f).remove(k) =~= rest.map_values(f));
        assert(b.map_values(f)[k] == v);
        assert(b.map_values(f).to_multiset() =~= rest.map_values(f).to_multiset().insert(v));
    }
}

/// What the rows hold beyond their marks, all together: from row `k`, what
/// stands at `marks[k]` and after it.
pub open spec fn gathered(rows: Seq<Seq<u64>>, marks: Seq<nat>) -> Multiset<u64>
    decreases rows.len(),
{
    if rows.len() == 0 {
        Multiset::empty()
    } else {
        gathered(rows.drop_last(), marks.drop_last()).add(
            rows.last().skip(marks.last() as int).to_multiset(),
        )
    }
}

/// A row with nothing in it adds nothing.
pub proof fn gathered_with_empty_row(rows: Seq<Seq<u64>>, marks: Seq<nat>)
    requires
        marks.len() == rows.len(),
    ensures
        gathered(rows.push(Seq::empty()), marks.push(0)) == gathered(rows, marks),
{
    broadcast use vstd::seq_lib::group_to_multiset_ensures;

    assert(rows.push(Seq::empty()).drop_last() =~= rows);
    assert(marks.push(0).drop_last() =~= marks);
    assert(Seq::<u64>::empty().skip(0) =~= Seq::<u64>::empty());
    assert(Seq::<u64>::empty().to_multiset() =~= Multiset::<u64>::empty());
    assert(gathered(rows.push(Seq::empty()), marks.push(0)) =~= gathered(rows, marks));
}

/// What is appended to a row is added to what is gathered.
pub proof fn gathered_with_more(rows: Seq<Seq<u64>>, marks: Seq<nat>, k: int, more: Seq<u64>)
    requires
        marks.len() == rows.len(),
        0 <= k < rows.len(),
        marks[k] <= rows[k].len(),
    ensures
        gathered(rows.update(k, rows[k] + more), marks) == gathered(rows, marks).add(
            more.to_multiset(),
        ),
    decreases rows.len(),
{
    let grown = rows.update(k, rows[k] + more);
    if k == rows.len() - 1 {
        let mark = marks.last() as int;
        assert(grown.drop_last() =~= rows.drop_last());
        assert((rows[k] + more).skip(mark) =~= rows[k].skip(mark) + more);
        vstd::seq_lib::lemma_multiset_commutative(rows[k].skip(mark), more);
    } else {
        assert(grown.drop_last() =~= rows.drop_last().update(k, rows.drop_last()[k] + more));
        assert(marks.drop_last()[k] == marks[k]);
        gathered_with_more(rows.drop_last(), marks.drop_last(), k, more);
    }
    assert(gathered(grown, marks) =~= gathered(rows, marks).add(more.to_multiset()));
}

/// With every mark at the end of its row nothing is gathered.
pub proof fn gathered_at_the_ends(rows: Seq<Seq<u64>>, marks: Seq<nat>)
    requires
        marks.len() == rows.len(),
        forall|k: int| 0 <= k < rows.len() ==> #[trigger] marks[k] == rows[k].len(),
    ensures
        gathered(rows, marks) == Multiset::<u64>::empty(),
    decreases rows.len(),
{
    broadcast use vstd::seq_lib::group_to_multiset_ensures;

    if rows.len() > 0 {
        let last = rows.len() - 1;
        assert(marks[last] == rows[last].len());
        assert forall|k: int| 0 <= k < last implies #[trigger] marks.drop_last()[k]
            == rows.drop_last()[k].len() by {
            assert(marks[k] == rows[k].len());
        }
        gathered_at_the_ends(rows.drop_last(), marks.drop_last());
        assert(rows.last().skip(marks.last() as int) =~= Seq::<u64>::empty());
        assert(Seq::<u64>::empty().to_multiset() =~= Multiset::<u64>::empty());
        assert(gathered(rows, marks) =~= Multiset::<u64>::empty());
    }
}

} // verus!
