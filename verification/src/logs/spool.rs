//! The files of the spool: their names, their rotation, their retention, and the ids of records.

use crate::text::{chars, number, order, search};
use vstd::prelude::*;

verus! {

/// The most bytes that a spool file holds.
pub const MAX_BYTES: u64 = 104_857_600;

/// How long a spool file is kept, in milliseconds: seven days.
pub const RETENTION_MS: u64 = 604_800_000;

/// The milliseconds of a day.
pub const DAY_MS: u64 = 86_400_000;

/// The name of the file that records of the day are appended to.
pub open spec fn events_name(now_ms: u64) -> Seq<char> {
    "events-"@ + number::decimal((now_ms / DAY_MS) as nat) + ".jsonl"@
}

/// Names the file that records are appended to at the given time. Daily files bound how long a
/// record is kept even on quiet nodes.
pub fn path_in(now_ms: u64) -> (r: String)
    ensures
        r@ == events_name(now_ms),
{
    let day = number::decimal_text(now_ms / DAY_MS);
    chars::cat3("events-", &day, ".jsonl")
}

/// Names the file that a full spool file is moved to.
pub fn overflow_name(record_id: &str) -> (r: String)
    ensures
        r@ == "events-overflow-"@ + record_id@ + ".jsonl"@,
{
    chars::cat3("events-overflow-", record_id, ".jsonl")
}

/// A file is moved aside before an append: it holds something, and would grow over the limit. The
/// largest number is no limit.
pub open spec fn rotates(current_len: u64, payload_len: u64, max_bytes: u64) -> bool {
    current_len > 0 && current_len + payload_len > max_bytes && max_bytes < u64::MAX
}

/// The length of the file that a record is appended to, once it was appended.
pub open spec fn length_after(current_len: u64, payload_len: u64, max_bytes: u64) -> int {
    if rotates(current_len, payload_len, max_bytes) {
        payload_len as int
    } else {
        current_len + payload_len
    }
}

/// Decides whether the current file is moved aside before a record is appended.
pub fn needs_rotation(current_len: u64, payload_len: u64, max_bytes: u64) -> (r: bool)
    ensures
        r == rotates(current_len, payload_len, max_bytes),
{
    current_len > 0 && current_len.saturating_add(payload_len) > max_bytes
}

/// No append makes a file grow over the limit, except for a record that alone is larger.
pub proof fn files_stay_within_the_limit(current_len: u64, payload_len: u64, max_bytes: u64)
    requires
        max_bytes < u64::MAX,
    ensures
        length_after(current_len, payload_len, max_bytes) <= max_bytes || length_after(
            current_len,
            payload_len,
            max_bytes,
        ) == payload_len,
        payload_len <= max_bytes ==> length_after(current_len, payload_len, max_bytes)
            <= max_bytes,
{
}

/// A file of the spool is kept no longer: it was last changed before the retention period.
pub open spec fn expired(name: Seq<char>, modified_ms: Option<u64>, now_ms: u64) -> bool {
    &&& "events-"@.is_prefix_of(name)
    &&& modified_ms matches Some(t) && t + RETENTION_MS < now_ms
}

/// Whether a file in the spool directory is one of the spool's own, to be removed when it is old.
pub fn is_spooled(name: &str) -> (r: bool)
    ensures
        r == "events-"@.is_prefix_of(name@),
{
    search::begins(name, "events-")
}

/// Decides whether a file in the spool directory is removed. The time of its last change is
/// `None` where it is not known.
pub fn is_expired(name: &str, modified_ms: Option<u64>, now_ms: u64) -> (r: bool)
    ensures
        r == expired(name@, modified_ms, now_ms),
{
    let cutoff: u64 = now_ms.saturating_sub(RETENTION_MS);
    match modified_ms {
        Some(t) => is_spooled(name) && t < cutoff,
        None => false,
    }
}

/// Whether a file in the spool directory holds records.
pub fn holds_records(name: &str) -> (r: bool)
    ensures
        r == has_extension(name@, "jsonl"@),
{
    let cs = chars::chars_of(name);
    let mut i: usize = cs.len();
    while i > 0
        invariant
            i <= cs.len(),
            cs@ == name@,
            forall|j: int| i <= j < cs.len() ==> cs@[j] != '.',
        decreases i,
    {
        if cs[i - 1] == '.' {
            let ghost at = i - 1;
            let tail = chars::text_of(&cs, i, cs.len());
            let r = i > 1 && !chars::same(name, "..") && chars::same(&tail, "jsonl");
            proof {
                assert(tail@ =~= name@.skip(at + 1));
                assert(last_dot(name@) == at) by {
                    lemma_last_dot(name@, at);
                }
            }
            return r;
        }
        i -= 1;
    }
    proof {
        lemma_no_dot(name@);
    }
    false
}

/// The position of the last dot; -1 if there is none.
pub open spec fn last_dot(s: Seq<char>) -> int
    decreases s.len(),
{
    if s.len() == 0 {
        -1
    } else if s.last() == '.' {
        s.len() - 1
    } else {
        last_dot(s.drop_last())
    }
}

/// The part of a file name behind its last dot is the given one. A dot at the start makes no
/// extension, and the name of the parent directory has none.
pub open spec fn has_extension(name: Seq<char>, extension: Seq<char>) -> bool {
    let at = last_dot(name);
    at > 0 && name != ".."@ && name.skip(at + 1) == extension
}

proof fn lemma_last_dot(s: Seq<char>, at: int)
    requires
        0 <= at < s.len(),
        s[at] == '.',
        forall|j: int| at < j < s.len() ==> s[j] != '.',
    ensures
        last_dot(s) == at,
    decreases s.len(),
{
    if at < s.len() - 1 {
        lemma_last_dot(s.drop_last(), at);
    }
}

proof fn lemma_no_dot(s: Seq<char>)
    requires
        forall|j: int| 0 <= j < s.len() ==> s[j] != '.',
    ensures
        last_dot(s) == -1,
    decreases s.len(),
{
    if s.len() > 0 {
        lemma_no_dot(s.drop_last());
    }
}

/// The number of the next record: the clock, or the number after the last one where the clock
/// does not run ahead of it.
pub open spec fn next_number(previous: u64, now: u64) -> u64 {
    if previous == u64::MAX {
        u64::MAX
    } else if now > previous + 1 {
        now
    } else {
        (previous + 1) as u64
    }
}

/// The id of a record: its number and the process that wrote it, both with leading zeros.
pub open spec fn record_id(number: u64, process: u32) -> Seq<char> {
    number::padded(number as nat, 20) + "-"@ + number::padded(process as nat, 10)
}

/// The clock that record numbers follow: nanoseconds, up to the largest number.
pub fn record_clock(nanoseconds: u128) -> (r: u64)
    ensures
        r == if nanoseconds > u64::MAX {
            u64::MAX as u128
        } else {
            nanoseconds
        },
{
    if nanoseconds > 18_446_744_073_709_551_615u128 {
        u64::MAX
    } else {
        nanoseconds as u64
    }
}

/// The number of the next record, given that of the last one and the clock.
pub fn next_record_number(previous: u64, now: u64) -> (r: u64)
    ensures
        r == next_number(previous, now),
{
    let after = previous.saturating_add(1);
    if now > after {
        now
    } else {
        after
    }
}

/// The id of the record with the given number.
pub fn next_record_id(number: u64, process: u32) -> (r: String)
    ensures
        r@ == record_id(number, process),
{
    let a = number::padded_text(number, 20);
    let b = number::padded_text(process as u64, 10);
    chars::cat3(&a, "-", &b)
}

/// Record numbers grow with every record, whatever the clock does, until the largest is reached.
pub proof fn record_numbers_grow(previous: u64, now: u64)
    requires
        previous < u64::MAX,
    ensures
        next_number(previous, now) > previous,
        next_number(previous, now) >= now,
{
}

/// The counter of record numbers after a process read the clock for each of its records. It
/// begins at zero. Where several threads write records, the readings stand in the order in which
/// the threads moved the counter on.
pub open spec fn counter_after(clocks: Seq<u64>) -> u64
    decreases clocks.len(),
{
    if clocks.len() == 0 {
        0
    } else {
        next_number(counter_after(clocks.drop_last()), clocks.last())
    }
}

/// The ids of a process's records: each has the number at which the counter stood before it was
/// moved on for that record.
pub open spec fn ids_of(clocks: Seq<u64>, process: u32) -> Seq<Seq<char>> {
    Seq::new(clocks.len(), |i: int| record_id(counter_after(clocks.take(i)), process))
}

/// Ten to the power of a number of digits.
spec fn tens(width: nat) -> nat
    decreases width,
{
    if width == 0 {
        1
    } else {
        10 * tens((width - 1) as nat)
    }
}

proof fn lemma_digits(n: nat, width: nat)
    requires
        n < tens(width),
        width > 0,
    ensures
        number::decimal(n).len() <= width,
    decreases width,
{
    if n >= 10 {
        if width == 1 {
            assert(tens(0) == 1);
        } else {
            lemma_digits(n / 10, (width - 1) as nat);
        }
    }
}

/// The lowest digits of a number.
spec fn fixed(n: nat, width: nat) -> Seq<char>
    decreases width,
{
    if width == 0 {
        seq![]
    } else {
        fixed(n / 10, (width - 1) as nat).push(number::digit_char(n % 10))
    }
}

proof fn lemma_fixed_zero(width: nat)
    ensures
        fixed(0, width) == Seq::new(width, |i: int| '0'),
    decreases width,
{
    if width > 0 {
        lemma_fixed_zero((width - 1) as nat);
    }
    assert(fixed(0, width) =~= Seq::new(width, |i: int| '0'));
}

/// Padding to a width gives that many digits.
proof fn lemma_fixed(n: nat, width: nat)
    requires
        n < tens(width),
        width > 0,
    ensures
        number::padded(n, width) == fixed(n, width),
        fixed(n, width).len() == width,
    decreases width,
{
    lemma_digits(n, width);
    if n < 10 {
        lemma_fixed_zero((width - 1) as nat);
        assert(number::padded(n, width) =~= fixed(n, width));
    } else {
        if width == 1 {
            assert(tens(0) == 1);
        }
        lemma_fixed(n / 10, (width - 1) as nat);
        assert(number::padded(n, width) =~= number::padded(n / 10, (width - 1) as nat).push(
            number::digit_char(n % 10),
        ));
    }
}

/// The digits of a smaller and of a larger number agree up to a place where those of the larger
/// have the larger digit.
proof fn lemma_fixed_order(a: nat, b: nat, width: nat) -> (k: int)
    requires
        a < b < tens(width),
        width > 0,
    ensures
        0 <= k < width,
        fixed(a, width).len() == width,
        fixed(b, width).len() == width,
        forall|i: int| 0 <= i < k ==> fixed(a, width)[i] == fixed(b, width)[i],
        fixed(a, width)[k] < fixed(b, width)[k],
    decreases width,
{
    lemma_fixed(a, width);
    lemma_fixed(b, width);
    if width == 1 {
        assert(tens(0) == 1);
        assert(fixed(a, 0) =~= seq![] && fixed(b, 0) =~= seq![]);
        0
    } else if a / 10 == b / 10 {
        width - 1
    } else {
        lemma_fixed_order(a / 10, b / 10, (width - 1) as nat)
    }
}

proof fn lemma_widths()
    ensures
        u64::MAX < tens(20),
        u32::MAX < tens(10),
{
    reveal_with_fuel(tens, 21);
}

/// The ids of records follow their numbers: the record with the greater number has the greater
/// id, whichever processes wrote them.
pub proof fn record_ids_follow_numbers(a: u64, b: u64, p: u32, q: u32)
    requires
        a < b,
    ensures
        order::before(record_id(a, p), record_id(b, q)),
        record_id(a, p) != record_id(b, q),
{
    lemma_widths();
    let k = lemma_fixed_order(a as nat, b as nat, 20);
    lemma_fixed(a as nat, 20);
    lemma_fixed(b as nat, 20);
    order::before_at(record_id(a, p), record_id(b, q), k);
    order::before_is_total(record_id(a, p), record_id(b, q));
}

/// An earlier place of the counter lies below a later one, until the largest number is reached.
proof fn lemma_counter_grows(clocks: Seq<u64>, i: int, j: int)
    requires
        0 <= i < j <= clocks.len(),
        counter_after(clocks.take(i)) < u64::MAX,
    ensures
        counter_after(clocks.take(i)) < counter_after(clocks.take(j)),
    decreases j - i,
{
    assert(clocks.take(j).drop_last() =~= clocks.take(j - 1));
    if i < j - 1 {
        lemma_counter_grows(clocks, i, j - 1);
    }
}

/// Whatever the clock does, no two records of a process have the same id, and the later of two
/// records has the greater id, until the largest number is reached.
pub proof fn record_ids_are_unique_and_grow(clocks: Seq<u64>, process: u32)
    ensures
        forall|i: int, j: int|
            #![trigger ids_of(clocks, process)[i], ids_of(clocks, process)[j]]
            0 <= i < j < clocks.len() && counter_after(clocks.take(i)) < u64::MAX ==> {
                &&& ids_of(clocks, process)[i] != ids_of(clocks, process)[j]
                &&& order::before(ids_of(clocks, process)[i], ids_of(clocks, process)[j])
            },
{
    let ids = ids_of(clocks, process);
    assert forall|i: int, j: int|
        #![trigger ids[i], ids[j]]
        0 <= i < j < clocks.len() && counter_after(clocks.take(i)) < u64::MAX implies ids[i]
        != ids[j] && order::before(ids[i], ids[j]) by {
        lemma_counter_grows(clocks, i, j);
        record_ids_follow_numbers(
            counter_after(clocks.take(i)),
            counter_after(clocks.take(j)),
            process,
            process,
        );
    }
}

proof fn lemma_fixed_digits(n: nat, width: nat)
    ensures
        fixed(n, width).len() == width,
        number::all_digits(fixed(n, width)),
    decreases width,
{
    if width > 0 {
        lemma_fixed_digits(n / 10, (width - 1) as nat);
        assert(crate::text::ascii::digit(number::digit_char(n % 10)));
    }
}

/// An id is twenty digits, a dash and ten digits.
pub proof fn record_ids_have_one_shape(number: u64, process: u32)
    ensures
        record_id(number, process).len() == 31,
        number::all_digits(record_id(number, process).take(20)),
        record_id(number, process)[20] == '-',
        number::all_digits(record_id(number, process).skip(21)),
{
    reveal_strlit("-");
    lemma_widths();
    lemma_fixed(number as nat, 20);
    lemma_fixed(process as nat, 10);
    lemma_fixed_digits(number as nat, 20);
    lemma_fixed_digits(process as nat, 10);
    assert(record_id(number, process).take(20) =~= fixed(number as nat, 20));
    assert(record_id(number, process).skip(21) =~= fixed(process as nat, 10));
}

/// Two processes never give the same id.
pub proof fn processes_have_different_ids(a: u64, b: u64, p: u32, q: u32)
    requires
        p != q,
    ensures
        record_id(a, p) != record_id(b, q),
{
    reveal_strlit("-");
    lemma_widths();
    lemma_fixed(a as nat, 20);
    lemma_fixed(b as nat, 20);
    let k = if p < q {
        lemma_fixed_order(p as nat, q as nat, 10)
    } else {
        lemma_fixed_order(q as nat, p as nat, 10)
    };
    lemma_fixed(p as nat, 10);
    lemma_fixed(q as nat, 10);
    assert(record_id(a, p)[21 + k] == number::padded(p as nat, 10)[k]);
    assert(record_id(b, q)[21 + k] == number::padded(q as nat, 10)[k]);
}

} // verus!
