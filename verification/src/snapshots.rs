//! Lists of snapshots, as far as choosing among them goes.

use vstd::prelude::*;
use crate::ids::{ID, IdSet};

verus! {

broadcast use vstd::seq_lib::group_to_multiset_ensures;

/// A snapshot in a list.
#[derive(Debug, Copy, Clone, PartialEq, Eq, Structural)]
pub struct SnapshotEntry {
    /// Its identifier.
    pub id: ID,
    /// When it was taken, in nanoseconds since the epoch.
    pub timestamp: i128,
}

/// Whether a list goes from the oldest to the newest.
pub open spec fn by_time(s: Seq<SnapshotEntry>) -> bool {
    forall|i: int, j: int| 0 <= i <= j < s.len() ==> (#[trigger] s[i]).timestamp <= (#[trigger] s[j]).timestamp
}

/// The snapshots of a list that fulfil a condition, in the order of the list.
pub open spec fn chosen(s: Seq<SnapshotEntry>, wanted: spec_fn(SnapshotEntry) -> bool) -> Seq<SnapshotEntry> {
    s.filter(wanted)
}

proof fn lemma_filter_one_more(s: Seq<SnapshotEntry>, i: int, wanted: spec_fn(SnapshotEntry) -> bool)
    requires
        0 <= i < s.len(),
    ensures
        s.take(i + 1).filter(wanted) == if wanted(s[i]) {
            s.take(i).filter(wanted).push(s[i])
        } else {
            s.take(i).filter(wanted)
        },
{
    reveal(Seq::filter);
    assert(s.take(i + 1).drop_last() =~= s.take(i));
}

/// The set of the identifiers in a list.
pub fn id_set(ids: &Vec<ID>) -> (r: IdSet)
    ensures
        r@ == ids@.to_set(),
{
    let mut out = IdSet::new();
    let mut i: usize = 0;
    while i < ids.len()
        invariant
            i <= ids@.len(),
            forall|x: ID| #[trigger] out@.contains(x) <==> ids@.take(i as int).contains(x),
        decreases ids@.len() - i,
    {
        out.insert(ids[i]);
        proof {
            let had = ids@.take(i as int);
            let has = ids@.take(i + 1);
            assert(has =~= had.push(ids@[i as int]));
            assert forall|x: ID| #[trigger] has.contains(x) <==> had.contains(x) || x == ids@[i as int] by {
                if had.contains(x) {
                    let k = choose|k: int| 0 <= k < had.len() && had[k] == x;
                    assert(has[k] == x);
                }
                if x == ids@[i as int] {
                    assert(has[i as int] == x);
                }
            }
        }
        i = i + 1;
    }
    assert(ids@.take(ids@.len() as int) =~= ids@);
    assert(out@ =~= ids@.to_set());
    out
}

/// Parts a list in two: the snapshots in a set, and those that are not.
pub fn part(entries: &Vec<SnapshotEntry>, ids: &IdSet) -> (r: (Vec<SnapshotEntry>, Vec<SnapshotEntry>))
    ensures
        r.0@ == chosen(entries@, |e: SnapshotEntry| ids@.contains(e.id)),
        r.1@ == chosen(entries@, |e: SnapshotEntry| !ids@.contains(e.id)),
{
    let ghost inside = |e: SnapshotEntry| ids@.contains(e.id);
    let ghost outside = |e: SnapshotEntry| !ids@.contains(e.id);
    let mut have: Vec<SnapshotEntry> = Vec::new();
    let mut have_not: Vec<SnapshotEntry> = Vec::new();
    let mut i: usize = 0;
    proof {
        reveal(Seq::filter);
    }
    while i < entries.len()
        invariant
            i <= entries@.len(),
            inside == (|e: SnapshotEntry| ids@.contains(e.id)),
            outside == (|e: SnapshotEntry| !ids@.contains(e.id)),
            have@ == entries@.take(i as int).filter(inside),
            have_not@ == entries@.take(i as int).filter(outside),
        decreases entries@.len() - i,
    {
        proof {
            lemma_filter_one_more(entries@, i as int, inside);
            lemma_filter_one_more(entries@, i as int, outside);
        }
        let e = entries[i];
        if ids.contains(&e.id) {
            have.push(e);
        } else {
            have_not.push(e);
        }
        i = i + 1;
    }
    assert(entries@.take(entries@.len() as int) =~= entries@);
    (have, have_not)
}

// ---------------------------------------------------------------------------
// Order
// ---------------------------------------------------------------------------

fn merge_by_time(a: &Vec<SnapshotEntry>, b: &Vec<SnapshotEntry>) -> (r: Vec<SnapshotEntry>)
    requires
        by_time(a@),
        by_time(b@),
        a@.len() + b@.len() <= usize::MAX,
    ensures
        by_time(r@),
        r@.to_multiset() == a@.to_multiset().add(b@.to_multiset()),
        r@.len() == a@.len() + b@.len(),
{
    let mut out: Vec<SnapshotEntry> = Vec::new();
    let mut i: usize = 0;
    let mut j: usize = 0;
    assert(out@.to_multiset() =~= a@.take(0).to_multiset().add(b@.take(0).to_multiset()));
    while i < a.len() || j < b.len()
        invariant
            i <= a@.len(),
            j <= b@.len(),
            by_time(a@),
            by_time(b@),
            by_time(out@),
            out@.len() == i + j,
            a@.len() + b@.len() <= usize::MAX,
            out@.len() > 0 && i < a@.len() ==> out@.last().timestamp <= a@[i as int].timestamp,
            out@.len() > 0 && j < b@.len() ==> out@.last().timestamp <= b@[j as int].timestamp,
            out@.to_multiset() == a@.take(i as int).to_multiset().add(b@.take(j as int).to_multiset()),
        decreases a@.len() + b@.len() - i - j,
    {
        let ghost had = out@;
        let from_a: bool = j >= b.len() || (i < a.len() && a[i].timestamp <= b[j].timestamp);
        let e = if from_a {
            a[i]
        } else {
            b[j]
        };
        out.push(e);
        proof {
            assert(had.len() > 0 ==> had.last().timestamp <= e.timestamp);
            assert forall|x: int, y: int| 0 <= x <= y < out@.len() implies (#[trigger] out@[x]).timestamp <= (
            #[trigger] out@[y]).timestamp by {
                if y < had.len() {
                    assert(out@[x] == had[x] && out@[y] == had[y]);
                } else if x < had.len() {
                    assert(had[x].timestamp <= had.last().timestamp);
                }
            }
        }
        if from_a {
            assert(a@.take(i + 1) =~= a@.take(i as int).push(e));
            i = i + 1;
        } else {
            assert(b@.take(j + 1) =~= b@.take(j as int).push(e));
            j = j + 1;
        }
        assert(out@.to_multiset() =~= a@.take(i as int).to_multiset().add(b@.take(j as int).to_multiset()));
    }
    assert(a@.take(a@.len() as int) =~= a@);
    assert(b@.take(b@.len() as int) =~= b@);
    out
}

fn range_by_time(entries: &Vec<SnapshotEntry>, from: usize, to: usize) -> (r: Vec<SnapshotEntry>)
    requires
        from <= to <= entries@.len(),
    ensures
        by_time(r@),
        r@.to_multiset() == entries@.subrange(from as int, to as int).to_multiset(),
        r@.len() == to - from,
    decreases to - from,
{
    if to - from <= 1 {
        let mut out: Vec<SnapshotEntry> = Vec::new();
        if from < to {
            out.push(entries[from]);
        }
        assert(out@ =~= entries@.subrange(from as int, to as int));
        return out;
    }
    let mid: usize = from + (to - from) / 2;
    let a = range_by_time(entries, from, mid);
    let b = range_by_time(entries, mid, to);
    let out = merge_by_time(&a, &b);
    proof {
        let left = entries@.subrange(from as int, mid as int);
        let right = entries@.subrange(mid as int, to as int);
        assert(entries@.subrange(from as int, to as int) =~= left + right);
        vstd::seq_lib::lemma_multiset_commutative(left, right);
    }
    out
}

/// Puts a list in order, from the oldest to the newest. It holds what it held
/// before.
pub fn sort_by_time(entries: Vec<SnapshotEntry>) -> (r: Vec<SnapshotEntry>)
    ensures
        by_time(r@),
        r@.to_multiset() == entries@.to_multiset(),
{
    assert(entries@.subrange(0, entries@.len() as int) =~= entries@);
    range_by_time(&entries, 0, entries.len())
}

/// Each snapshot is chosen by itself: of one, it is left or nothing is; and what is left
/// of two lists, one behind the other, is what is left of the first and then of the
/// second.
pub proof fn law_each_snapshot_is_chosen_by_itself(
    e: SnapshotEntry,
    a: Seq<SnapshotEntry>,
    b: Seq<SnapshotEntry>,
    wanted: spec_fn(SnapshotEntry) -> bool,
)
    ensures
        wanted(e) ==> chosen(seq![e], wanted) == seq![e],
        !wanted(e) ==> chosen(seq![e], wanted) == Seq::<SnapshotEntry>::empty(),
        chosen(a + b, wanted) == chosen(a, wanted) + chosen(b, wanted),
    decreases b.len(),
{
    let one = seq![e];
    let none = Seq::<SnapshotEntry>::empty();
    lemma_filter_one_more(one, 0, wanted);
    assert(one.take(1) =~= one);
    assert(one.take(0) =~= none);
    reveal(Seq::filter);
    assert(none.filter(wanted) =~= none);
    assert(none.push(e) =~= one);
    if b.len() == 0 {
        assert(a + b =~= a);
        assert(b =~= none);
        assert(a.filter(wanted) + none =~= a.filter(wanted));
    } else {
        let most = b.drop_last();
        law_each_snapshot_is_chosen_by_itself(e, a, most, wanted);
        assert((a + b).drop_last() =~= a + most);
        assert((a + b).last() == b.last());
        assert(chosen(a + b, wanted) =~= chosen(a, wanted) + chosen(b, wanted));
    }
}

} // verus!
