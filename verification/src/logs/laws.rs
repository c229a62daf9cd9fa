//! What holds of the log: what is recorded, what is kept, and what a query is answered.

use crate::bytes;
use crate::logs::query;
use crate::logs::record::{self, RecordView};
use crate::logs::redact;
use crate::logs::sort;
use crate::logs::spool;
use crate::logs::writer::{self, AgentLineView};
use crate::text::{number, order, search, trim};
use vstd::prelude::*;

verus! {

/// A record of a job's output tells the job, the attempt and the stream that it is of, and when it
/// was written; what a job writes to its standard error is an error. No secret is left in it
/// behind a marker.
pub proof fn job_output_is_recorded(
    id: Seq<char>,
    timestamp: u64,
    job_id: Seq<char>,
    attempt_id: Seq<char>,
    stream: Seq<char>,
    line: Seq<char>,
    scope: Seq<char>,
    resource_id: Option<Seq<char>>,
    m: int,
)
    requires
        0 <= m < redact::markers().len(),
    ensures
        ({
            let r = record::job_record(
                id,
                timestamp,
                job_id,
                attempt_id,
                stream,
                line,
                scope,
                resource_id,
            );
            &&& r.id == id && r.timestamp == timestamp && r.scope == scope && r.resource_id
                == resource_id
            &&& r.job_id == Some(job_id) && r.attempt_id == Some(attempt_id) && r.stream == Some(
                stream,
            )
            &&& stream == "stderr"@ ==> r.level == "error"@
            &&& stream != "stderr"@ ==> r.level == "info"@
            &&& redact::clean(r.message, redact::markers()[m])
            &&& (forall|k: int|
                0 <= k < redact::markers().len() ==> !search::contains(
                    line,
                    #[trigger] redact::markers()[k],
                )) ==> r.message == line
        }),
{
    redact::every_marker_is_redacted(line, m);
    if forall|k: int|
        0 <= k < redact::markers().len() ==> !search::contains(
            line,
            #[trigger] redact::markers()[k],
        ) {
        redact::other_text_is_kept(line);
    }
}

/// A record of the agent itself is of no job, and tells its level; no secret is left in it behind
/// a marker.
pub proof fn agent_is_recorded(
    id: Seq<char>,
    timestamp: u64,
    level: Seq<char>,
    message: Seq<char>,
    m: int,
)
    requires
        0 <= m < redact::markers().len(),
    ensures
        ({
            let r = record::agent_record(id, timestamp, level, message);
            &&& r.id == id && r.timestamp == timestamp && r.level == level
            &&& r.scope == "agent"@
            &&& r.job_id is None && r.attempt_id is None && r.stream is None && r.resource_id
                is None
            &&& redact::clean(r.message, redact::markers()[m])
            &&& (forall|k: int|
                0 <= k < redact::markers().len() ==> !search::contains(
                    message,
                    #[trigger] redact::markers()[k],
                )) ==> r.message == message
        }),
{
    redact::every_marker_is_redacted(message, m);
    if forall|k: int|
        0 <= k < redact::markers().len() ==> !search::contains(
            message,
            #[trigger] redact::markers()[k],
        ) {
        redact::other_text_is_kept(message);
    }
}

/// Of two records the one with the later time is newer; at the same time, the one with the greater
/// id.
pub proof fn later_is_newer(a: RecordView, b: RecordView)
    ensures
        a.timestamp > b.timestamp ==> query::newer(a, b) && !query::newer(b, a),
        a.timestamp == b.timestamp ==> (query::newer(a, b) <==> order::before(b.id, a.id)),
{
}

/// A query without a scope and a resource asks for all records; with a scope for those that have
/// it; with a resource for those that name it, or that are of the job of that name.
pub proof fn query_selects(
    scope: Option<Seq<char>>,
    resource_id: Option<Seq<char>>,
    r: RecordView,
)
    ensures
        scope is None && resource_id is None ==> query::selects(scope, resource_id, r),
        scope matches Some(name) ==> (query::selects(scope, resource_id, r) ==> r.scope == name),
        resource_id matches Some(name) ==> (query::selects(scope, resource_id, r)
            ==> r.resource_id == Some(name) || r.job_id == Some(name)),
        (scope is None || scope == Some(r.scope)) && resource_id is Some && (r.resource_id
            == resource_id || r.job_id == resource_id) ==> query::selects(scope, resource_id, r),
        scope == Some(r.scope) && resource_id is None ==> query::selects(scope, resource_id, r),
{
}

/// A page holds as many records as were asked for, but at least one may be asked for and at most
/// five hundred are given.
pub proof fn pages_are_bounded(limit: nat)
    ensures
        1 <= limit <= 500 ==> query::page_size(limit) == limit,
        limit > 500 ==> query::page_size(limit) == 500,
        limit == 0 ==> query::page_size(limit) == 1,
{
}

/// The first page of an answer holds the newest of the records that are asked for, in order: no
/// earlier time stands before a later one, all are asked for, as many as the page may hold, and
/// none that is left out is newer than one that is there. A cursor follows exactly where some are
/// left out.
pub proof fn first_page_is_the_newest(
    s: Seq<RecordView>,
    scope: Option<Seq<char>>,
    resource_id: Option<Seq<char>>,
    limit: nat,
    answer: (Seq<RecordView>, Option<Seq<char>>),
) -> (left: Seq<RecordView>)
    requires
        query::answers(s, scope, resource_id, None, limit, answer),
    ensures
        (answer.0 + left).to_multiset() == query::selected(s, scope, resource_id).to_multiset(),
        answer.0.len() <= query::page_size(limit),
        left.len() > 0 ==> answer.0.len() == query::page_size(limit),
        answer.1 is Some <==> left.len() > 0,
        answer.1 matches Some(cursor) ==> cursor == number::decimal(
            answer.0.last().timestamp as nat,
        ) + "|"@ + answer.0.last().id,
        forall|i: int, j: int|
            0 <= i < j < answer.0.len() ==> (#[trigger] answer.0[i]).timestamp >= (
            #[trigger] answer.0[j]).timestamp,
        forall|i: int, j: int|
            0 <= i < answer.0.len() && 0 <= j < left.len() ==> (#[trigger] answer.0[i]).timestamp
                >= (#[trigger] left[j]).timestamp,
        forall|i: int|
            0 <= i < answer.0.len() ==> s.contains(#[trigger] answer.0[i]) && query::selects(
                scope,
                resource_id,
                answer.0[i],
            ),
{
    let wanted = query::selected(s, scope, resource_id);
    let sorted = choose|sorted: Seq<RecordView>| #[trigger]
        query::sorted_from(sorted, wanted) && answer == query::page(sorted, None, limit);
    let n = query::page_size(limit) as int;
    let left = if sorted.len() > n {
        sorted.skip(n)
    } else {
        seq![]
    };
    assert(answer.0 + left =~= sorted);
    assert forall|i: int, j: int| 0 <= i < j < answer.0.len() implies (
    #[trigger] answer.0[i]).timestamp >= (#[trigger] answer.0[j]).timestamp by {
        assert(!query::newer(sorted[j], sorted[i]));
    }
    assert forall|i: int, j: int| 0 <= i < answer.0.len() && 0 <= j < left.len() implies (
    #[trigger] answer.0[i]).timestamp >= (#[trigger] left[j]).timestamp by {
        assert(left[j] == sorted[n + j]);
        assert(answer.0[i] == sorted[i]);
        assert(!query::newer(sorted[n + j], sorted[i]));
    }
    assert forall|i: int| 0 <= i < answer.0.len() implies s.contains(#[trigger] answer.0[i])
        && query::selects(scope, resource_id, answer.0[i]) by {
        let r = answer.0[i];
        assert(sorted[i] == r);
        assert(sorted.contains(r));
        lemma_same_members(sorted, wanted, r);
        lemma_selected(s, scope, resource_id, r);
    }
    left
}

proof fn lemma_same_members(a: Seq<RecordView>, b: Seq<RecordView>, r: RecordView)
    requires
        a.to_multiset() == b.to_multiset(),
        a.contains(r),
    ensures
        b.contains(r),
{
    broadcast use vstd::seq_lib::group_to_multiset_ensures;

    assert(a.to_multiset().count(r) > 0);
    assert(b.to_multiset().count(r) > 0);
}

proof fn lemma_selected(
    s: Seq<RecordView>,
    scope: Option<Seq<char>>,
    resource_id: Option<Seq<char>>,
    r: RecordView,
)
    requires
        query::selected(s, scope, resource_id).contains(r),
    ensures
        s.contains(r),
        query::selects(scope, resource_id, r),
    decreases s.len(),
{
    reveal(Seq::filter);
    let all = query::selected(s, scope, resource_id);
    if s.len() > 0 {
        let d = s.drop_last();
        let before = query::selected(d, scope, resource_id);
        let k = choose|k: int| 0 <= k < all.len() && all[k] == r;
        if k < before.len() {
            assert(before[k] == r);
            assert(before.contains(r));
            lemma_selected(d, scope, resource_id, r);
            let i = choose|i: int| 0 <= i < d.len() && d[i] == r;
            assert(s[i] == r);
        } else {
            assert(s[s.len() - 1] == r);
        }
    }
}

/// A record that is asked for is among those that are selected.
pub proof fn asked_records_are_selected(
    s: Seq<RecordView>,
    scope: Option<Seq<char>>,
    resource_id: Option<Seq<char>>,
    i: int,
)
    requires
        0 <= i < s.len(),
        query::selects(scope, resource_id, s[i]),
    ensures
        query::selected(s, scope, resource_id).contains(s[i]),
    decreases s.len(),
{
    reveal(Seq::filter);
    let d = s.drop_last();
    let before = query::selected(d, scope, resource_id);
    let all = query::selected(s, scope, resource_id);
    if i < d.len() {
        assert(d[i] == s[i]);
        asked_records_are_selected(d, scope, resource_id, i);
        let k = choose|k: int| 0 <= k < before.len() && before[k] == s[i];
        assert(all[k] == s[i]);
    } else {
        assert(all[all.len() - 1] == s[i]);
    }
}

/// A cursor that is the id of a record leads behind the first record of that id; one that is
/// nothing known leads to the beginning.
pub proof fn id_is_a_cursor(s: Seq<RecordView>, cursor: Seq<char>, i: int)
    requires
        query::cursor_position(cursor) is None,
        0 <= i <= s.len(),
        forall|j: int| 0 <= j < i ==> (#[trigger] s[j]).id != cursor,
    ensures
        i < s.len() && s[i].id == cursor ==> query::after_cursor(s, Some(cursor)) == s.skip(i + 1),
        i == s.len() ==> query::after_cursor(s, Some(cursor)) == s,
{
    lemma_behind(s, cursor, 0, i);
    assert(s.skip(0) =~= s);
}

proof fn lemma_behind(s: Seq<RecordView>, id: Seq<char>, from: int, i: int)
    requires
        0 <= from <= i <= s.len(),
        forall|j: int| from <= j < i ==> (#[trigger] s[j]).id != id,
    ensures
        i < s.len() && s[i].id == id ==> query::behind_id(s, id, from) == i + 1,
        i == s.len() ==> query::behind_id(s, id, from) == 0,
    decreases i - from,
{
    if from < i {
        assert(s[from].id != id);
        lemma_behind(s, id, from + 1, i);
    }
}

/// A cursor with a time and an id leads to the records that are older: of an earlier time, or of
/// the same time and a smaller id.
pub proof fn cursor_leads_to_older_records(s: Seq<RecordView>, last: RecordView, i: int)
    requires
        0 <= i < s.len(),
        query::cursor_position(query::cursor_text(last)) == Some((last.timestamp as nat, last.id)),
    ensures
        query::after_cursor(s, Some(query::cursor_text(last))).contains(s[i]) <==> query::newer(
            last,
            s[i],
        ),
{
    let pred = |r: RecordView| query::behind(r, last.timestamp as nat, last.id);
    if query::newer(last, s[i]) {
        lemma_filtered(s, last.timestamp as nat, last.id, i);
    }
    if s.filter(pred).contains(s[i]) {
        s.lemma_filter_contains_rev(pred, s[i]);
        let k = choose|k: int| 0 <= k < s.filter(pred).len() && s.filter(pred)[k] == s[i];
        s.filter_lemma(pred);
        assert(pred(s.filter(pred)[k]));
    }
}

proof fn lemma_filtered(s: Seq<RecordView>, timestamp: nat, id: Seq<char>, i: int)
    requires
        0 <= i < s.len(),
        query::behind(s[i], timestamp, id),
    ensures
        s.filter(|r: RecordView| query::behind(r, timestamp, id)).contains(s[i]),
    decreases s.len(),
{
    reveal(Seq::filter);
    let pred = |r: RecordView| query::behind(r, timestamp, id);
    let d = s.drop_last();
    let all = s.filter(pred);
    if i < d.len() {
        assert(d[i] == s[i]);
        lemma_filtered(d, timestamp, id, i);
        let before = d.filter(pred);
        let k = choose|k: int| 0 <= k < before.len() && before[k] == s[i];
        assert(all[k] == s[i]);
    } else {
        assert(all[all.len() - 1] == s[i]);
    }
}

/// A line of the agent's diagnostics has the level that it names; the most severe one where it
/// names more, and that of information where it names none.
pub proof fn line_names_its_level(line: Seq<char>)
    ensures
        search::contains(line, " ERROR "@) ==> writer::line_level(line) == "error"@,
        !search::contains(line, " ERROR "@) && search::contains(line, " WARN "@)
            ==> writer::line_level(line) == "warn"@,
        !search::contains(line, " ERROR "@) && !search::contains(line, " WARN "@)
            && search::contains(line, " DEBUG "@) ==> writer::line_level(line) == "debug"@,
        !search::contains(line, " ERROR "@) && !search::contains(line, " WARN "@)
            && !search::contains(line, " DEBUG "@) ==> writer::line_level(line) == "info"@,
{
}

/// Each line of the agent's diagnostics is recorded for itself and in its order, without the
/// blanks around it; a blank one is not.
pub proof fn lines_are_recorded(first: Seq<Seq<u8>>, second: Seq<Seq<u8>>, line: Seq<u8>)
    ensures
        writer::recorded_lines(first + second) == writer::recorded_lines(first)
            + writer::recorded_lines(second),
        trim::trim(bytes::utf8_lossy(line)).len() == 0 ==> writer::recorded_lines(seq![line])
            == Seq::<AgentLineView>::empty(),
        trim::trim(bytes::utf8_lossy(line)).len() > 0 ==> {
            &&& writer::recorded_lines(seq![line]).len() == 1
            &&& writer::recorded_lines(seq![line])[0].line == trim::trim(bytes::utf8_lossy(line))
            &&& writer::recorded_lines(seq![line])[0].level == writer::line_level(
                trim::trim(bytes::utf8_lossy(line)),
            )
        },
    decreases second.len(),
{
    assert(seq![line].drop_last() =~= seq![]);
    assert(writer::recorded_lines(seq![]) =~= seq![]);
    let told = writer::recorded(bytes::utf8_lossy(line));
    assert(Seq::<AgentLineView>::empty() + told =~= told);
    assert(writer::recorded_lines(seq![line]) =~= told);
    if second.len() == 0 {
        assert(first + second =~= first);
        assert(writer::recorded_lines(first) + writer::recorded_lines(second)
            =~= writer::recorded_lines(first));
    } else {
        lines_are_recorded(first, second.drop_last(), line);
        assert((first + second).drop_last() =~= first + second.drop_last());
        assert((first + second).last() == second.last());
        assert(writer::recorded_lines(first + second) =~= writer::recorded_lines(first)
            + writer::recorded_lines(second));
    }
}

/// A line is complete when a line feed ends it, and not before.
pub proof fn line_feed_ends_a_line(line: Seq<u8>)
    requires
        forall|i: int| 0 <= i < line.len() ==> #[trigger] line[i] != 10,
    ensures
        bytes::cut(line, false).complete == Seq::<Seq<u8>>::empty(),
        bytes::cut(line, false).pending == line,
        bytes::cut(line.push(10), false).complete == seq![line],
        bytes::cut(line.push(10), false).pending == Seq::<u8>::empty(),
    decreases line.len(),
{
    assert(line.push(10).drop_last() =~= line);
    if line.len() > 0 {
        let d = line.drop_last();
        assert forall|i: int| 0 <= i < d.len() implies #[trigger] d[i] != 10 by {
            assert(d[i] == line[i]);
        }
        line_feed_ends_a_line(d);
        assert(line[line.len() - 1] != 10);
        assert(d.push(line.last()) =~= line);
    } else {
        assert(bytes::cut(line, false).pending =~= line);
    }
    assert(Seq::<Seq<u8>>::empty().push(line) =~= seq![line]);
}

/// A file of the spool is moved aside only where it holds something and the record does not fit
/// any more, and then always; a file that holds nothing is not.
pub proof fn full_files_are_moved_aside(current_len: u64, payload_len: u64, max_bytes: u64)
    requires
        max_bytes < u64::MAX,
    ensures
        current_len == 0 ==> !spool::rotates(current_len, payload_len, max_bytes),
        current_len + payload_len <= max_bytes ==> !spool::rotates(
            current_len,
            payload_len,
            max_bytes,
        ),
        current_len > 0 && current_len + payload_len > max_bytes ==> spool::rotates(
            current_len,
            payload_len,
            max_bytes,
        ),
        !spool::rotates(current_len, payload_len, max_bytes) ==> spool::length_after(
            current_len,
            payload_len,
            max_bytes,
        ) == current_len + payload_len,
        spool::rotates(current_len, payload_len, max_bytes) ==> spool::length_after(
            current_len,
            payload_len,
            max_bytes,
        ) == payload_len,
{
}

/// The bounds of the spool: files of a hundred mebibytes, a file for each day, and a week.
pub proof fn spool_is_bounded()
    ensures
        spool::MAX_BYTES == 100 * 1024 * 1024,
        spool::DAY_MS == 24 * 60 * 60 * 1000,
        spool::RETENTION_MS == 7 * spool::DAY_MS,
{
}

/// A file of the spool is removed where it was last changed more than a week ago, and then only;
/// no other file is removed, nor one of which the time is not known.
pub proof fn old_files_are_removed(name: Seq<char>, modified_ms: Option<u64>, now_ms: u64)
    ensures
        !"events-"@.is_prefix_of(name) ==> !spool::expired(name, modified_ms, now_ms),
        modified_ms is None ==> !spool::expired(name, modified_ms, now_ms),
        "events-"@.is_prefix_of(name) ==> (modified_ms matches Some(t) ==> (spool::expired(
            name,
            modified_ms,
            now_ms,
        ) <==> now_ms - t > 7 * 24 * 60 * 60 * 1000)),
{
}

proof fn lemma_dot(s: Seq<char>, at: int)
    requires
        0 <= at < s.len(),
        s[at] == '.',
        forall|j: int| at < j < s.len() ==> s[j] != '.',
    ensures
        spool::last_dot(s) == at,
    decreases s.len(),
{
    if at < s.len() - 1 {
        lemma_dot(s.drop_last(), at);
    }
}

/// The files that records are written to are those that are read and that are removed when they
/// are old: the file of a day, and a full file that was moved aside.
pub proof fn written_files_are_read(now_ms: u64, record_id: Seq<char>)
    ensures
        spool::has_extension(spool::events_name(now_ms), "jsonl"@),
        "events-"@.is_prefix_of(spool::events_name(now_ms)),
        spool::has_extension("events-overflow-"@ + record_id + ".jsonl"@, "jsonl"@),
        "events-"@.is_prefix_of("events-overflow-"@ + record_id + ".jsonl"@),
{
    reveal_strlit("events-");
    reveal_strlit("events-overflow-");
    reveal_strlit(".jsonl");
    reveal_strlit("jsonl");
    reveal_strlit("..");
    let a = spool::events_name(now_ms);
    let b = "events-overflow-"@ + record_id + ".jsonl"@;
    lemma_dot(a, a.len() - 6);
    lemma_dot(b, b.len() - 6);
    assert(a.skip(a.len() - 5) =~= "jsonl"@);
    assert(b.skip(b.len() - 5) =~= "jsonl"@);
    assert(a.take(7) =~= "events-"@);
    assert(b.take(7) =~= "events-"@);
}

/// Records of one day go to one file, and those of different days to different ones.
pub proof fn each_day_has_its_file(a_ms: u64, b_ms: u64)
    ensures
        spool::events_name(a_ms) == spool::events_name(b_ms) <==> a_ms / 86_400_000 == b_ms
            / 86_400_000,
{
    let a = (a_ms / 86_400_000) as nat;
    let b = (b_ms / 86_400_000) as nat;
    number::lemma_decimal(a);
    number::lemma_decimal(b);
    let x = spool::events_name(a_ms);
    let y = spool::events_name(b_ms);
    let n = "events-"@.len() as int;
    let m = ".jsonl"@.len() as int;
    assert(x.subrange(n, x.len() - m) =~= number::decimal(a));
    assert(y.subrange(n, y.len() - m) =~= number::decimal(b));
}

/// The number of a record is the clock or the one after the last number, whichever is greater.
pub proof fn numbers_follow_the_clock(previous: u64, now: u64)
    requires
        previous < u64::MAX,
    ensures
        now > previous ==> spool::next_number(previous, now) == now,
        now <= previous ==> spool::next_number(previous, now) == previous + 1,
{
}

/// Sorting by age does not depend on the order of what is sorted where no two records have the
/// same time and id: of two such records one is newer.
pub proof fn one_of_two_is_newer(a: RecordView, b: RecordView)
    requires
        a.timestamp != b.timestamp || a.id != b.id,
    ensures
        query::newer(a, b) || query::newer(b, a),
        !(query::newer(a, b) && query::newer(b, a)),
{
    order::before_is_total(a.id, b.id);
    sort::newer_is_asymmetric(a, b);
}

/// Of two records the newer one comes first; two of the same time and id have no order.
pub proof fn newer_comes_first(left: RecordView, right: RecordView)
    ensures
        left.timestamp > right.timestamp ==> query::order_newest_first(left, right) is Less,
        left.timestamp < right.timestamp ==> query::order_newest_first(left, right) is Greater,
        left.timestamp == right.timestamp ==> {
            &&& order::before(right.id, left.id) ==> query::order_newest_first(left, right) is Less
            &&& order::before(left.id, right.id) ==> query::order_newest_first(
                left,
                right,
            ) is Greater
            &&& left.id == right.id ==> query::order_newest_first(left, right) is Equal
        },
{
    sort::newer_is_asymmetric(left, right);
    if left.timestamp == right.timestamp && left.id == right.id {
        order::before_is_total(left.id, right.id);
    }
}

/// A name that begins with its only dot has no extension; a file of another extension is not read.
pub proof fn hidden_files_have_no_extension(name: Seq<char>, extension: Seq<char>, other: Seq<char>)
    ensures
        name.len() > 0 && name[0] == '.' && (forall|i: int| 0 < i < name.len() ==> name[i] != '.')
            ==> !spool::has_extension(name, extension),
        spool::has_extension(name, extension) && spool::has_extension(name, other) ==> extension
            == other,
{
    if name.len() > 0 && name[0] == '.' && (forall|i: int| 0 < i < name.len() ==> name[i] != '.') {
        lemma_dot(name, 0);
    }
}

} // verus!
