//! Answering a query with one page of the matching records, newest first.

use crate::logs::record::{record_views, Record, RecordView};
use crate::logs::sort;
use crate::text::{chars, number, order, split};
use core::cmp::Ordering;
use vstd::prelude::*;

verus! {

/// The most records that one page holds.
pub const MAX_PAGE: usize = 500;

/// A record is newer than another if its time is later, or at the same time its id is greater.
pub open spec fn newer(a: RecordView, b: RecordView) -> bool {
    a.timestamp > b.timestamp || (a.timestamp == b.timestamp && order::before(b.id, a.id))
}

/// The place of one record relative to another when the newest come first.
pub open spec fn order_newest_first(left: RecordView, right: RecordView) -> Ordering {
    if newer(left, right) {
        Ordering::Less
    } else if newer(right, left) {
        Ordering::Greater
    } else {
        Ordering::Equal
    }
}

/// No record stands behind one that it is newer than.
pub open spec fn newest_first(s: Seq<RecordView>) -> bool {
    forall|i: int, j: int| 0 <= i < j < s.len() ==> !newer(#[trigger] s[j], #[trigger] s[i])
}

/// `sorted` holds the records of `s`, newest first.
pub open spec fn sorted_from(sorted: Seq<RecordView>, s: Seq<RecordView>) -> bool {
    newest_first(sorted) && sorted.to_multiset() == s.to_multiset()
}

/// A record is asked for: it has the scope, and the resource is the one it names or its job.
pub open spec fn selects(
    scope: Option<Seq<char>>,
    resource_id: Option<Seq<char>>,
    r: RecordView,
) -> bool {
    &&& scope matches Some(v) ==> r.scope == v
    &&& resource_id is Some ==> r.resource_id == resource_id || r.job_id == resource_id
}

/// The records of `s` that are asked for.
pub open spec fn selected(
    s: Seq<RecordView>,
    scope: Option<Seq<char>>,
    resource_id: Option<Seq<char>>,
) -> Seq<RecordView> {
    s.filter(|r: RecordView| selects(scope, resource_id, r))
}

/// The cursor behind a record: its time and its id.
pub open spec fn cursor_text(r: RecordView) -> Seq<char> {
    number::decimal(r.timestamp as nat) + "|"@ + r.id
}

/// The time and the id that a cursor holds.
pub open spec fn cursor_position(cursor: Seq<char>) -> Option<(nat, Seq<char>)> {
    match split::split_once_char(cursor, '|') {
        Some((timestamp, id)) => match number::parse(timestamp, u64::MAX as nat) {
            Some(timestamp) => Some((timestamp, id)),
            None => None,
        },
        None => None,
    }
}

/// A record is older than the position of a cursor.
pub open spec fn behind(r: RecordView, timestamp: nat, id: Seq<char>) -> bool {
    r.timestamp < timestamp || (r.timestamp == timestamp && order::before(r.id, id))
}

/// The position behind the first record with the given id; the start if there is none.
pub open spec fn behind_id(s: Seq<RecordView>, id: Seq<char>, from: int) -> int
    decreases s.len() - from,
{
    if from >= s.len() {
        0
    } else if s[from].id == id {
        from + 1
    } else {
        behind_id(s, id, from + 1)
    }
}

/// The records of a sorted list that follow a cursor. A cursor that holds no position is the id
/// of a record; one that is neither is passed over.
pub open spec fn after_cursor(s: Seq<RecordView>, cursor: Option<Seq<char>>) -> Seq<RecordView> {
    match cursor {
        None => s,
        Some(cursor) => match cursor_position(cursor) {
            Some((timestamp, id)) => s.filter(|r: RecordView| behind(r, timestamp, id)),
            None => s.skip(behind_id(s, cursor, 0)),
        },
    }
}

/// The number of records that a page may hold, for the number that was asked for.
pub open spec fn page_size(limit: nat) -> nat {
    if limit < 1 {
        1
    } else if limit > MAX_PAGE {
        MAX_PAGE as nat
    } else {
        limit
    }
}

/// The page of a sorted list that follows a cursor, and the cursor behind it if more records
/// follow.
pub open spec fn page(s: Seq<RecordView>, cursor: Option<Seq<char>>, limit: nat) -> (
    Seq<RecordView>,
    Option<Seq<char>>,
) {
    let rest = after_cursor(s, cursor);
    let n = page_size(limit);
    if rest.len() > n {
        (rest.take(n as int), Some(cursor_text(rest[n - 1])))
    } else {
        (rest, None)
    }
}

/// A page that answers a query: the selected records are put in order, newest first, and the
/// page is the one behind the cursor. The order of two records with the same time and the same id
/// is left open.
pub open spec fn answers(
    s: Seq<RecordView>,
    scope: Option<Seq<char>>,
    resource_id: Option<Seq<char>>,
    cursor: Option<Seq<char>>,
    limit: nat,
    answer: (Seq<RecordView>, Option<Seq<char>>),
) -> bool {
    exists|sorted: Seq<RecordView>| #[trigger]
        sorted_from(sorted, selected(s, scope, resource_id)) && answer == page(
            sorted,
            cursor,
            limit,
        )
}

/// Compares two records so that the newest come first.
pub fn compare_records_newest_first(left: &Record, right: &Record) -> (r: Ordering)
    ensures
        r == order_newest_first(left@, right@),
{
    proof {
        order::before_is_total(left@.id, right@.id);
    }
    if left.timestamp > right.timestamp {
        Ordering::Less
    } else if left.timestamp < right.timestamp {
        Ordering::Greater
    } else if order::is_before(&right.id, &left.id) {
        Ordering::Less
    } else if order::is_before(&left.id, &right.id) {
        Ordering::Greater
    } else {
        Ordering::Equal
    }
}

/// Writes the cursor behind a record.
pub fn encode_cursor(record: &Record) -> (r: String)
    ensures
        r@ == cursor_text(record@),
{
    let timestamp = number::decimal_text(record.timestamp);
    chars::cat3(&timestamp, "|", &record.id)
}

/// Reads the position that a cursor holds.
pub fn decode_cursor(cursor: &str) -> (r: Option<(u64, String)>)
    ensures
        match r {
            Some((timestamp, id)) => cursor_position(cursor@) == Some((timestamp as nat, id@)),
            None => cursor_position(cursor@) is None,
        },
{
    match split::cut_char(cursor, '|') {
        Some((timestamp, id)) => match number::parsed(&timestamp, u64::MAX) {
            Some(timestamp) => Some((timestamp, id)),
            None => None,
        },
        None => None,
    }
}

/// Whether a record is asked for.
fn is_selected(record: &Record, scope: Option<&str>, resource_id: Option<&str>) -> (r: bool)
    ensures
        r == selects(chars::opt_str(scope), chars::opt_str(resource_id), record@),
{
    if let Some(v) = scope {
        if !chars::same(&record.scope, v) {
            return false;
        }
    }
    if resource_id.is_some() {
        if !chars::same_opt(chars::opt_ref(&record.resource_id), resource_id) && !chars::same_opt(
            chars::opt_ref(&record.job_id),
            resource_id,
        ) {
            return false;
        }
    }
    true
}

/// Keeps the records that are asked for.
fn select(records: Vec<Record>, scope: Option<&str>, resource_id: Option<&str>) -> (r: Vec<Record>)
    ensures
        record_views(r@) == selected(
            record_views(records@),
            chars::opt_str(scope),
            chars::opt_str(resource_id),
        ),
{
    let ghost all = record_views(records@);
    let ghost wanted = |r: RecordView|
        selects(chars::opt_str(scope), chars::opt_str(resource_id), r);
    let mut r: Vec<Record> = Vec::new();
    for record in it: records
        invariant
            all == record_views(it.seq()),
            wanted == (|r: RecordView|
                selects(chars::opt_str(scope), chars::opt_str(resource_id), r)),
            record_views(r@) == all.take(it.index()).filter(wanted),
    {
        let ghost before = r@;
        proof {
            lemma_filter_step(all, wanted, it.index());
        }
        if is_selected(&record, scope, resource_id) {
            r.push(record);
            proof {
                assert(record_views(r@) =~= record_views(before).push(record@));
            }
        }
    }
    proof {
        assert(all.take(all.len() as int) =~= all);
    }
    r
}

/// Filtering one more record.
proof fn lemma_filter_step(s: Seq<RecordView>, pred: spec_fn(RecordView) -> bool, i: int)
    requires
        0 <= i < s.len(),
    ensures
        s.take(i + 1).filter(pred) == if pred(s[i]) {
            s.take(i).filter(pred).push(s[i])
        } else {
            s.take(i).filter(pred)
        },
{
    reveal(Seq::filter);
    assert(s.take(i + 1).drop_last() =~= s.take(i));
}

/// Keeps the records that are older than the position of a cursor.
fn keep_behind(records: Vec<Record>, timestamp: u64, id: &str) -> (r: Vec<Record>)
    ensures
        record_views(r@) == record_views(records@).filter(
            |r: RecordView| behind(r, timestamp as nat, id@),
        ),
{
    let ghost all = record_views(records@);
    let ghost older = |r: RecordView| behind(r, timestamp as nat, id@);
    let mut r: Vec<Record> = Vec::new();
    for record in it: records
        invariant
            all == record_views(it.seq()),
            older == (|r: RecordView| behind(r, timestamp as nat, id@)),
            record_views(r@) == all.take(it.index()).filter(older),
    {
        let ghost before = r@;
        proof {
            lemma_filter_step(all, older, it.index());
        }
        if record.timestamp < timestamp || (record.timestamp == timestamp && order::is_before(
            &record.id,
            id,
        )) {
            r.push(record);
            proof {
                assert(record_views(r@) =~= record_views(before).push(record@));
            }
        }
    }
    proof {
        assert(all.take(all.len() as int) =~= all);
    }
    r
}

/// Finds the position behind the first record with the given id.
fn position_behind(records: &Vec<Record>, id: &str) -> (r: usize)
    ensures
        r == behind_id(record_views(records@), id@, 0),
        r <= records.len(),
{
    let mut i: usize = 0;
    while i < records.len()
        invariant
            i <= records.len(),
            behind_id(record_views(records@), id@, 0) == behind_id(
                record_views(records@),
                id@,
                i as int,
            ),
        decreases records.len() - i,
    {
        if chars::same(&records[i].id, id) {
            return i + 1;
        }
        i += 1;
    }
    0
}

/// The records of a sorted list that follow a cursor.
fn records_after(records: Vec<Record>, cursor: Option<&str>) -> (r: Vec<Record>)
    ensures
        record_views(r@) == after_cursor(record_views(records@), chars::opt_str(cursor)),
{
    match cursor {
        None => records,
        Some(cursor) => match decode_cursor(cursor) {
            Some((timestamp, id)) => keep_behind(records, timestamp, &id),
            None => {
                let k = position_behind(&records, cursor);
                let ghost all = records@;
                let mut records = records;
                let r = records.split_off(k);
                proof {
                    assert(record_views(r@) =~= record_views(all).skip(k as int));
                }
                r
            },
        },
    }
}

/// The page of a sorted list that follows a cursor, and the cursor behind it.
pub fn page_of(records: Vec<Record>, cursor: Option<&str>, limit: usize) -> (r: (
    Vec<Record>,
    Option<String>,
))
    ensures
        (record_views(r.0@), chars::opt_text(r.1)) == page(
            record_views(records@),
            chars::opt_str(cursor),
            limit as nat,
        ),
{
    let mut rest = records_after(records, cursor);
    let size: usize = if limit < 1 {
        1
    } else if limit > MAX_PAGE {
        MAX_PAGE
    } else {
        limit
    };
    let ghost all = rest@;
    if rest.len() > size {
        rest.truncate(size);
        let next = encode_cursor(&rest[size - 1]);
        proof {
            assert(record_views(rest@) =~= record_views(all).take(size as int));
        }
        (rest, Some(next))
    } else {
        (rest, None)
    }
}

/// Answers a query over the records of the spool with one page, newest first, and with the cursor
/// by which the next page is asked for.
pub fn query(
    records: Vec<Record>,
    scope: Option<&str>,
    resource_id: Option<&str>,
    cursor: Option<&str>,
    limit: usize,
) -> (r: (Vec<Record>, Option<String>))
    ensures
        answers(
            record_views(records@),
            chars::opt_str(scope),
            chars::opt_str(resource_id),
            chars::opt_str(cursor),
            limit as nat,
            (record_views(r.0@), chars::opt_text(r.1)),
        ),
        1 <= page_size(limit as nat) <= MAX_PAGE,
        r.0.len() <= page_size(limit as nat),
{
    let wanted = select(records, scope, resource_id);
    let sorted = sort::sort_newest_first(wanted);
    let r = page_of(sorted, cursor, limit);
    proof {
        assert(record_views(r.0@).len() == r.0@.len());
    }
    r
}

} // verus!
