//! Putting records in order, newest first.

use crate::logs::query;
use crate::logs::record::{record_views, Record, RecordView};
use crate::text::order;
use vstd::prelude::*;

verus! {

/// Of two records at most one is newer.
pub proof fn newer_is_asymmetric(a: RecordView, b: RecordView)
    ensures
        !(query::newer(a, b) && query::newer(b, a)),
        !query::newer(a, a),
{
    order::before_is_total(a.id, b.id);
    order::before_is_total(a.id, a.id);
}

/// What is not newer than a record that is not newer than a third is not newer than the third.
pub proof fn not_newer_is_transitive(a: RecordView, b: RecordView, c: RecordView)
    requires
        !query::newer(a, b),
        !query::newer(b, c),
    ensures
        !query::newer(a, c),
{
    order::before_is_total(a.id, b.id);
    order::before_is_total(b.id, c.id);
    order::before_is_total(a.id, c.id);
    if a.timestamp == c.timestamp && order::before(c.id, a.id) {
        if order::before(a.id, b.id) {
            order::before_is_transitive(c.id, a.id, b.id);
        }
    }
}

/// No record of `older` is newer than one of `others`.
spec fn all_older(older: Seq<RecordView>, others: Seq<RecordView>) -> bool {
    forall|i: int, j: int|
        0 <= i < older.len() && 0 <= j < others.len() ==> !query::newer(
            #[trigger] older[i],
            #[trigger] others[j],
        )
}

/// Newest last: what `newest_first` is when read from the end.
spec fn newest_last(s: Seq<RecordView>) -> bool {
    forall|i: int, j: int| 0 <= i < j < s.len() ==> !query::newer(#[trigger] s[i], #[trigger] s[j])
}

/// One step of merging: the oldest record that is left moves behind those that were taken.
proof fn lemma_take(
    from: Seq<RecordView>,
    other: Seq<RecordView>,
    out: Seq<RecordView>,
    x: RecordView,
)
    requires
        query::newest_first(from.push(x)),
        query::newest_first(other),
        newest_last(out),
        all_older(out, from.push(x)),
        all_older(out, other),
        other.len() > 0 ==> !query::newer(x, other.last()),
    ensures
        query::newest_first(from),
        newest_last(out.push(x)),
        all_older(out.push(x), from),
        all_older(out.push(x), other),
        from.push(x).to_multiset() == from.to_multiset().insert(x),
        out.push(x).to_multiset() == out.to_multiset().insert(x),
{
    broadcast use vstd::seq_lib::group_to_multiset_ensures;

    let whole = from.push(x);
    assert forall|i: int, j: int| 0 <= i < j < from.len() implies !query::newer(
        #[trigger] from[j],
        #[trigger] from[i],
    ) by {
        assert(from[i] == whole[i] && from[j] == whole[j]);
    }
    assert forall|i: int| 0 <= i < out.len() implies !query::newer(#[trigger] out[i], x) by {
        assert(whole[from.len() as int] == x);
    }
    assert forall|j: int| 0 <= j < from.len() implies !query::newer(x, #[trigger] from[j]) by {
        assert(whole[from.len() as int] == x && whole[j] == from[j]);
    }
    assert forall|i: int, j: int| 0 <= i < out.len() && 0 <= j < from.len() implies !query::newer(
        #[trigger] out[i],
        #[trigger] from[j],
    ) by {
        assert(whole[j] == from[j]);
    }
    assert forall|j: int| 0 <= j < other.len() implies !query::newer(x, #[trigger] other[j]) by {
        if j < other.len() - 1 {
            not_newer_is_transitive(x, other.last(), other[j]);
        }
    }
}

/// The records of two sorted lists, in one sorted list.
fn merge(a: Vec<Record>, b: Vec<Record>) -> (r: Vec<Record>)
    requires
        query::newest_first(record_views(a@)),
        query::newest_first(record_views(b@)),
    ensures
        query::newest_first(record_views(r@)),
        record_views(r@).to_multiset() == record_views(a@).to_multiset().add(
            record_views(b@).to_multiset(),
        ),
{
    let ghost total = record_views(a@).to_multiset().add(record_views(b@).to_multiset());
    let mut a = a;
    let mut b = b;
    let mut out: Vec<Record> = Vec::new();
    proof {
        broadcast use vstd::seq_lib::group_to_multiset_ensures;

        assert(record_views(out@) =~= Seq::empty());
        assert(total =~= total.add(record_views(out@).to_multiset()));
    }
    while a.len() > 0 || b.len() > 0
        invariant
            query::newest_first(record_views(a@)),
            query::newest_first(record_views(b@)),
            newest_last(record_views(out@)),
            all_older(record_views(out@), record_views(a@)),
            all_older(record_views(out@), record_views(b@)),
            total == record_views(a@).to_multiset().add(record_views(b@).to_multiset()).add(
                record_views(out@).to_multiset(),
            ),
        decreases a.len() + b.len(),
    {
        let take_b = if a.len() == 0 {
            true
        } else if b.len() == 0 {
            false
        } else {
            match query::compare_records_newest_first(&b[b.len() - 1], &a[a.len() - 1]) {
                core::cmp::Ordering::Less => false,
                _ => true,
            }
        };
        let ghost av = record_views(a@);
        let ghost bv = record_views(b@);
        let ghost ov = record_views(out@);
        proof {
            if a.len() > 0 && b.len() > 0 {
                newer_is_asymmetric(av.last(), bv.last());
            }
        }
        if take_b {
            if let Some(x) = b.pop() {
                out.push(x);
                proof {
                    assert(record_views(b@).push(x@) =~= bv);
                    assert(record_views(out@) =~= ov.push(x@));
                    lemma_take(record_views(b@), av, ov, x@);
                    assert(total =~= record_views(a@).to_multiset().add(
                        record_views(b@).to_multiset(),
                    ).add(record_views(out@).to_multiset()));
                }
            }
        } else {
            if let Some(x) = a.pop() {
                out.push(x);
                proof {
                    assert(record_views(a@).push(x@) =~= av);
                    assert(record_views(out@) =~= ov.push(x@));
                    lemma_take(record_views(a@), bv, ov, x@);
                    assert(total =~= record_views(a@).to_multiset().add(
                        record_views(b@).to_multiset(),
                    ).add(record_views(out@).to_multiset()));
                }
            }
        }
    }
    proof {
        broadcast use vstd::seq_lib::group_to_multiset_ensures;

        assert(record_views(a@) =~= Seq::empty());
        assert(record_views(b@) =~= Seq::empty());
        assert(total =~= record_views(out@).to_multiset());
    }
    reversed(out)
}

/// The records from the last to the first.
fn reversed(v: Vec<Record>) -> (r: Vec<Record>)
    requires
        newest_last(record_views(v@)),
    ensures
        query::newest_first(record_views(r@)),
        record_views(r@).to_multiset() == record_views(v@).to_multiset(),
{
    let ghost all = record_views(v@);
    let mut v = v;
    let mut r: Vec<Record> = Vec::new();
    proof {
        broadcast use vstd::seq_lib::group_to_multiset_ensures;

        assert(record_views(r@) =~= Seq::empty());
        assert(all.to_multiset() =~= record_views(v@).to_multiset().add(
            record_views(r@).to_multiset(),
        ));
    }
    while v.len() > 0
        invariant
            newest_last(record_views(v@)),
            query::newest_first(record_views(r@)),
            all_older(record_views(v@), record_views(r@)),
            all.to_multiset() == record_views(v@).to_multiset().add(record_views(r@).to_multiset()),
        decreases v.len(),
    {
        let ghost vv = record_views(v@);
        let ghost rv = record_views(r@);
        if let Some(x) = v.pop() {
            r.push(x);
            proof {
                broadcast use vstd::seq_lib::group_to_multiset_ensures;

                let left = record_views(v@);
                assert(left.push(x@) =~= vv);
                assert(record_views(r@) =~= rv.push(x@));
                assert(vv[left.len() as int] == x@);
                assert forall|i: int, j: int| 0 <= i < j < left.len() implies !query::newer(
                    #[trigger] left[i],
                    #[trigger] left[j],
                ) by {
                    assert(left[i] == vv[i] && left[j] == vv[j]);
                }
                assert forall|i: int, j: int|
                    0 <= i < left.len() && 0 <= j < rv.push(x@).len() implies !query::newer(
                    #[trigger] left[i],
                    #[trigger] rv.push(x@)[j],
                ) by {
                    assert(left[i] == vv[i]);
                    if j < rv.len() {
                        assert(rv.push(x@)[j] == rv[j]);
                    }
                }
                assert(all.to_multiset() =~= left.to_multiset().add(rv.push(x@).to_multiset()));
            }
        }
    }
    proof {
        broadcast use vstd::seq_lib::group_to_multiset_ensures;

        assert(record_views(v@) =~= Seq::empty());
        assert(all.to_multiset() =~= record_views(r@).to_multiset());
    }
    r
}

/// Puts records in order, newest first.
pub fn sort_newest_first(records: Vec<Record>) -> (r: Vec<Record>)
    ensures
        query::sorted_from(record_views(r@), record_views(records@)),
    decreases records.len(),
{
    if records.len() < 2 {
        return records;
    }
    let ghost all = record_views(records@);
    let mut front = records;
    let middle: usize = front.len() / 2;
    let back = front.split_off(middle);
    proof {
        assert(all =~= record_views(front@) + record_views(back@));
        vstd::seq_lib::lemma_multiset_commutative(record_views(front@), record_views(back@));
    }
    let front = sort_newest_first(front);
    let back = sort_newest_first(back);
    merge(front, back)
}

} // verus!
