//! Going through the spool page by page.

use crate::logs::query;
use crate::logs::record::RecordView;
use crate::logs::sort;
use crate::text::{number, order, search};
use vstd::prelude::*;

verus! {

/// No two records have the same time and the same id.
pub open spec fn distinct(s: Seq<RecordView>) -> bool {
    forall|i: int, j: int|
        0 <= i < j < s.len() ==> (#[trigger] s[i]).timestamp != (#[trigger] s[j]).timestamp
            || s[i].id != s[j].id
}

/// Every record is newer than those behind it.
spec fn strict(s: Seq<RecordView>) -> bool {
    forall|i: int, j: int| 0 <= i < j < s.len() ==> query::newer(#[trigger] s[i], #[trigger] s[j])
}

/// A cursor holds the time and the id of the record that it was written for.
pub proof fn cursor_is_read_back(r: RecordView)
    ensures
        query::cursor_position(query::cursor_text(r)) == Some((r.timestamp as nat, r.id)),
{
    reveal_strlit("|");
    let digits = number::decimal(r.timestamp as nat);
    let cursor = query::cursor_text(r);
    let n = digits.len() as int;
    number::lemma_decimal(r.timestamp as nat);
    number::parse_of_decimal(r.timestamp as nat, u64::MAX as nat);
    search::lemma_find_char(cursor, '|', 0);
    assert(cursor[n] == '|');
    assert forall|j: int| 0 <= j < n implies cursor[j] != '|' by {
        assert(cursor[j] == digits[j]);
    }
    assert(search::find_char(cursor, '|', 0) == Some(n));
    assert(cursor.take(n) =~= digits);
    assert(cursor.skip(n + 1) =~= r.id);
}

/// Where a condition fails up to a position and holds from there on, filtering keeps what follows
/// the position.
proof fn lemma_filter_suffix(s: Seq<RecordView>, pred: spec_fn(RecordView) -> bool, k: int)
    requires
        0 <= k <= s.len(),
        forall|i: int| 0 <= i < k ==> !pred(#[trigger] s[i]),
        forall|i: int| k <= i < s.len() ==> pred(#[trigger] s[i]),
    ensures
        s.filter(pred) == s.skip(k),
    decreases s.len(),
{
    reveal(Seq::filter);
    if s.len() > 0 {
        let d = s.drop_last();
        if k < s.len() {
            lemma_filter_suffix(d, pred, k);
            assert(pred(s[s.len() - 1]));
            assert(d.skip(k).push(s.last()) =~= s.skip(k));
        } else {
            lemma_filter_suffix(d, pred, k - 1);
            assert(!pred(s[s.len() - 1]));
            assert(d.skip(k - 1) =~= s.skip(k));
        }
    } else {
        assert(s.filter(pred) =~= s.skip(k));
    }
}

/// Being behind a position is being older than a record there.
proof fn lemma_behind(r: RecordView, at: RecordView)
    ensures
        query::behind(r, at.timestamp as nat, at.id) == query::newer(at, r),
{
}

/// A sorted list without two records of the same time and id is strictly sorted.
proof fn lemma_strict(s: Seq<RecordView>)
    requires
        query::newest_first(s),
        distinct(s),
    ensures
        strict(s),
{
    assert forall|i: int, j: int| 0 <= i < j < s.len() implies query::newer(
        #[trigger] s[i],
        #[trigger] s[j],
    ) by {
        order::before_is_total(s[i].id, s[j].id);
        assert(!query::newer(s[j], s[i]));
    }
}

/// The cursor behind a record of a strictly sorted list leads to the records behind it.
proof fn lemma_after_record(s: Seq<RecordView>, k: int)
    requires
        strict(s),
        0 <= k < s.len(),
    ensures
        query::after_cursor(s, Some(query::cursor_text(s[k]))) == s.skip(k + 1),
{
    cursor_is_read_back(s[k]);
    let at = s[k];
    let pred = |r: RecordView| query::behind(r, at.timestamp as nat, at.id);
    assert forall|i: int| 0 <= i < k + 1 implies !pred(#[trigger] s[i]) by {
        lemma_behind(s[i], at);
        sort::newer_is_asymmetric(at, s[i]);
    }
    assert forall|i: int| k + 1 <= i < s.len() implies pred(#[trigger] s[i]) by {
        lemma_behind(s[i], at);
    }
    lemma_filter_suffix(s, pred, k + 1);
}

/// The position in a sorted list from which on the records are older than a position.
spec fn first_behind(s: Seq<RecordView>, timestamp: nat, id: Seq<char>) -> int
    decreases s.len(),
{
    if s.len() > 0 && query::behind(s.last(), timestamp, id) {
        first_behind(s.drop_last(), timestamp, id)
    } else {
        s.len() as int
    }
}

proof fn lemma_first_behind(s: Seq<RecordView>, timestamp: nat, id: Seq<char>)
    requires
        query::newest_first(s),
    ensures
        0 <= first_behind(s, timestamp, id) <= s.len(),
        forall|i: int|
            0 <= i < first_behind(s, timestamp, id) ==> !query::behind(
                #[trigger] s[i],
                timestamp,
                id,
            ),
        forall|i: int|
            first_behind(s, timestamp, id) <= i < s.len() ==> query::behind(
                #[trigger] s[i],
                timestamp,
                id,
            ),
    decreases s.len(),
{
    if s.len() > 0 {
        let d = s.drop_last();
        if query::behind(s.last(), timestamp, id) {
            assert(query::newest_first(d)) by {
                assert forall|i: int, j: int| 0 <= i < j < d.len() implies !query::newer(
                    #[trigger] d[j],
                    #[trigger] d[i],
                ) by {
                    assert(d[i] == s[i] && d[j] == s[j]);
                }
            }
            lemma_first_behind(d, timestamp, id);
            let k = first_behind(s, timestamp, id);
            assert forall|i: int| 0 <= i < k implies !query::behind(
                #[trigger] s[i],
                timestamp,
                id,
            ) by {
                assert(d[i] == s[i]);
            }
            assert forall|i: int| k <= i < s.len() implies query::behind(
                #[trigger] s[i],
                timestamp,
                id,
            ) by {
                if i < d.len() {
                    assert(d[i] == s[i]);
                }
            }
        } else {
            assert forall|i: int| 0 <= i < s.len() implies !query::behind(
                #[trigger] s[i],
                timestamp,
                id,
            ) by {
                if i < s.len() - 1 {
                    assert(!query::newer(s.last(), s[i]));
                    order::before_is_total(s.last().id, s[i].id);
                    if query::behind(s[i], timestamp, id) && order::before(s.last().id, s[i].id)
                        && s[i].timestamp == timestamp {
                        order::before_is_transitive(s.last().id, s[i].id, id);
                    }
                }
            }
        }
    }
}

/// What follows a cursor in a sorted list is an end of that list.
pub proof fn cursor_keeps_an_end(s: Seq<RecordView>, cursor: Option<Seq<char>>) -> (k: int)
    requires
        query::newest_first(s),
    ensures
        0 <= k <= s.len(),
        query::after_cursor(s, cursor) == s.skip(k),
{
    match cursor {
        None => {
            assert(s.skip(0) =~= s);
            0
        },
        Some(cursor) => match query::cursor_position(cursor) {
            Some((timestamp, id)) => {
                lemma_first_behind(s, timestamp, id);
                let k = first_behind(s, timestamp, id);
                lemma_filter_suffix(
                    s,
                    |r: RecordView| query::behind(r, timestamp, id),
                    k,
                );
                k
            },
            None => {
                lemma_behind_id(s, cursor, 0);
                query::behind_id(s, cursor, 0)
            },
        },
    }
}

proof fn lemma_behind_id(s: Seq<RecordView>, id: Seq<char>, from: int)
    requires
        0 <= from <= s.len(),
    ensures
        0 <= query::behind_id(s, id, from) <= s.len(),
    decreases s.len() - from,
{
    if from < s.len() && s[from].id != id {
        lemma_behind_id(s, id, from + 1);
    }
}

/// In a list with the same records as one without two of the same time and id, no two have the
/// same time and id either.
proof fn lemma_distinct_kept(a: Seq<RecordView>, s: Seq<RecordView>)
    requires
        a.to_multiset() == s.to_multiset(),
        distinct(s),
    ensures
        distinct(a),
{
    broadcast use vstd::seq_lib::group_to_multiset_ensures;

    assert forall|i: int, j: int| 0 <= i < j < a.len() implies (#[trigger] a[i]).timestamp != (
    #[trigger] a[j]).timestamp || a[i].id != a[j].id by {
        if a[i].timestamp == a[j].timestamp && a[i].id == a[j].id {
            assert(a.to_multiset().count(a[i]) > 0) by {
                assert(a.contains(a[i]));
            }
            assert(a.to_multiset().count(a[j]) > 0) by {
                assert(a.contains(a[j]));
            }
            assert(s.contains(a[i]) && s.contains(a[j]));
            let x = choose|x: int| 0 <= x < s.len() && s[x] == a[i];
            let y = choose|y: int| 0 <= y < s.len() && s[y] == a[j];
            if x == y {
                assert(s.no_duplicates());
                s.lemma_multiset_has_no_duplicates();
                assert(a.to_multiset().count(a[i]) == 1);
                lemma_twice(a, i, j);
            } else if x < y {
                assert(s[x].timestamp != s[y].timestamp || s[x].id != s[y].id);
            } else {
                assert(s[y].timestamp != s[x].timestamp || s[y].id != s[x].id);
            }
        }
    }
}

/// A record that stands at two places is counted at least twice.
proof fn lemma_twice(a: Seq<RecordView>, i: int, j: int)
    requires
        0 <= i < j < a.len(),
        a[i] == a[j],
    ensures
        a.to_multiset().count(a[i]) >= 2,
{
    broadcast use vstd::seq_lib::group_to_multiset_ensures;

    let b = a.remove(j);
    assert(b[i] == a[i]);
    assert(b.contains(a[i]));
    vstd::seq_lib::to_multiset_remove(a, j);
    assert(b.to_multiset().count(a[i]) > 0);
}

/// Records without two of the same time and id have one order, newest first.
pub proof fn order_is_unique(a: Seq<RecordView>, b: Seq<RecordView>, s: Seq<RecordView>)
    requires
        query::sorted_from(a, s),
        query::sorted_from(b, s),
        distinct(s),
    ensures
        a == b,
{
    lemma_distinct_kept(a, s);
    lemma_distinct_kept(b, s);
    lemma_strict(a);
    lemma_strict(b);
    lemma_unique(a, b);
}

proof fn lemma_unique(a: Seq<RecordView>, b: Seq<RecordView>)
    requires
        strict(a),
        strict(b),
        a.to_multiset() == b.to_multiset(),
    ensures
        a == b,
    decreases a.len(),
{
    broadcast use vstd::seq_lib::group_to_multiset_ensures;

    vstd::seq_lib::to_multiset_len(a);
    vstd::seq_lib::to_multiset_len(b);
    if a.len() > 0 {
        let n = a.len() - 1;
        let x = a[n];
        let y = b[n];
        assert(a.contains(x) && b.contains(y));
        assert(a.to_multiset().count(x) > 0 && b.to_multiset().count(y) > 0);
        assert(b.contains(x) && a.contains(y));
        let j = choose|j: int| 0 <= j < b.len() && b[j] == x;
        let k = choose|k: int| 0 <= k < a.len() && a[k] == y;
        if j < n {
            assert(query::newer(b[j], b[n]));
            assert(k < n ==> query::newer(a[k], a[n]));
            sort::newer_is_asymmetric(x, y);
        }
        assert(x == y);
        let c = a.drop_last();
        let d = b.drop_last();
        assert(c.push(x) =~= a && d.push(x) =~= b);
        assert(c.to_multiset() =~= a.to_multiset().remove(x));
        assert(d.to_multiset() =~= b.to_multiset().remove(x));
        assert(strict(c)) by {
            assert forall|i: int, j: int| 0 <= i < j < c.len() implies query::newer(
                #[trigger] c[i],
                #[trigger] c[j],
            ) by {
                assert(c[i] == a[i] && c[j] == a[j]);
            }
        }
        assert(strict(d)) by {
            assert forall|i: int, j: int| 0 <= i < j < d.len() implies query::newer(
                #[trigger] d[i],
                #[trigger] d[j],
            ) by {
                assert(d[i] == b[i] && d[j] == b[j]);
            }
        }
        lemma_unique(c, d);
    } else {
        assert(a =~= b);
    }
}

/// The page after a page continues where the first one ends: together they hold the newest of the
/// records that follow the first cursor, in order, none left out and none twice; and where the
/// second page names no further cursor, they hold all of them.
pub proof fn next_page_continues(
    s: Seq<RecordView>,
    scope: Option<Seq<char>>,
    resource_id: Option<Seq<char>>,
    cursor: Option<Seq<char>>,
    limit: nat,
    next_limit: nat,
    first: (Seq<RecordView>, Option<Seq<char>>),
    second: (Seq<RecordView>, Option<Seq<char>>),
) -> (sorted: Seq<RecordView>)
    requires
        distinct(query::selected(s, scope, resource_id)),
        query::answers(s, scope, resource_id, cursor, limit, first),
        first.1 is Some,
        query::answers(s, scope, resource_id, first.1, next_limit, second),
    ensures
        query::sorted_from(sorted, query::selected(s, scope, resource_id)),
        (first.0 + second.0).is_prefix_of(query::after_cursor(sorted, cursor)),
        second.1 is None ==> first.0 + second.0 == query::after_cursor(sorted, cursor),
{
    let wanted = query::selected(s, scope, resource_id);
    let sorted = choose|sorted: Seq<RecordView>| #[trigger]
        query::sorted_from(sorted, wanted) && first == query::page(sorted, cursor, limit);
    let again = choose|sorted: Seq<RecordView>| #[trigger]
        query::sorted_from(sorted, wanted) && second == query::page(sorted, first.1, next_limit);
    order_is_unique(sorted, again, wanted);
    lemma_distinct_kept(sorted, wanted);
    lemma_strict(sorted);
    let k = cursor_keeps_an_end(sorted, cursor);
    let n = query::page_size(limit) as int;
    let rest = sorted.skip(k);
    assert(rest[n - 1] == sorted[k + n - 1]);
    lemma_after_record(sorted, k + n - 1);
    let left = sorted.skip(k + n);
    let m = query::page_size(next_limit) as int;
    assert(rest.take(n) + left =~= rest);
    if left.len() > m {
        assert(first.0 + second.0 =~= rest.subrange(0, n + m));
    } else {
        assert(rest.subrange(0, rest.len() as int) =~= rest);
    }
    sorted
}

/// The pages of a sorted list, one after the other, from a cursor on.
pub open spec fn all_pages(s: Seq<RecordView>, cursor: Option<Seq<char>>, limit: nat) -> Seq<
    RecordView,
>
    decreases query::after_cursor(s, cursor).len(),
{
    let (records, next) = query::page(s, cursor, limit);
    if next is Some && query::after_cursor(s, next).len() < query::after_cursor(s, cursor).len() {
        records + all_pages(s, next, limit)
    } else {
        records
    }
}

/// Going from page to page visits every record once, newest first, with pages of any size.
pub proof fn pages_cover_all(s: Seq<RecordView>, sorted: Seq<RecordView>, limit: nat)
    requires
        distinct(s),
        query::sorted_from(sorted, s),
    ensures
        all_pages(sorted, None, limit) == sorted,
{
    lemma_distinct_kept(sorted, s);
    lemma_strict(sorted);
    lemma_pages_from(sorted, None, limit);
}

proof fn lemma_pages_from(s: Seq<RecordView>, cursor: Option<Seq<char>>, limit: nat)
    requires
        query::newest_first(s),
        strict(s),
    ensures
        all_pages(s, cursor, limit) == query::after_cursor(s, cursor),
    decreases query::after_cursor(s, cursor).len(),
{
    let k = cursor_keeps_an_end(s, cursor);
    let rest = s.skip(k);
    let n = query::page_size(limit) as int;
    if rest.len() > n {
        assert(rest[n - 1] == s[k + n - 1]);
        lemma_after_record(s, k + n - 1);
        let next = query::page(s, cursor, limit).1;
        lemma_pages_from(s, next, limit);
        assert(rest.take(n) + s.skip(k + n) =~= rest);
    }
}

} // verus!
