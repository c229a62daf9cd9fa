//! What holds of the measurements: what is published for what was read.

use crate::metrics::disk::{self, Disk};
use crate::metrics::memory::{self, MemorySources};
use crate::metrics::network::{self, Interface};
use crate::text::{chars, number, search, split, trim};
use vstd::prelude::*;

verus! {

/// The number that a file holds.
pub open spec fn number_in(raw: Seq<char>) -> Option<nat> {
    number::parse(trim::trim(raw), u64::MAX as nat)
}

/// The smaller of two numbers.
pub open spec fn min(a: nat, b: nat) -> nat {
    if a <= b {
        a
    } else {
        b
    }
}

/// Where the control group has a limit and tells its use, all of the memory is the limit, what is
/// used is the use, up to the limit, and the rest is available, whatever the statistics hold. They
/// bear on what is cached only, which is no more than what is used.
pub proof fn group_tells_its_use(
    max_raw: Seq<char>,
    current_raw: Seq<char>,
    stat_raw: Seq<char>,
    limit: nat,
    current: nat,
)
    requires
        trim::trim(max_raw) != "max"@,
        number_in(max_raw) == Some(limit),
        limit > 0,
        number_in(current_raw) == Some(current),
    ensures
        memory::by_group(max_raw, current_raw, stat_raw) matches Some(m) && {
            &&& m.total == limit
            &&& m.used == min(current, limit)
            &&& m.available matches Some(available) && available == limit - min(current, limit)
            &&& m.cached matches Some(cached) ==> cached <= m.used
        },
{
    trim::trimmed_once(max_raw);
    trim::trimmed_once(current_raw);
    lemma_parse_is_bounded(trim::trim(max_raw));
    lemma_parse_is_bounded(trim::trim(current_raw));
}

proof fn lemma_parse_is_bounded(s: Seq<char>)
    ensures
        number::parse(s, u64::MAX as nat) matches Some(n) ==> n <= u64::MAX,
{
}

/// A control group without a limit, or that does not tell its use, does not tell the memory.
pub proof fn group_without_a_limit_tells_nothing(
    max_raw: Seq<char>,
    current_raw: Seq<char>,
    stat_raw: Seq<char>,
)
    ensures
        trim::trim(max_raw) == "max"@ ==> memory::by_group(max_raw, current_raw, stat_raw) is None,
        number_in(max_raw) is None ==> memory::by_group(max_raw, current_raw, stat_raw) is None,
        number_in(max_raw) == Some(0nat) ==> memory::by_group(max_raw, current_raw, stat_raw)
            is None,
        number_in(current_raw) is None ==> memory::by_group(max_raw, current_raw, stat_raw) is None,
{
    trim::trimmed_once(max_raw);
    trim::trimmed_once(current_raw);
}

/// A line of the statistics that tells the bytes of cached files.
pub open spec fn tells_files(line: Seq<char>, n: nat) -> bool {
    split::words(line).len() > 1 && split::words(line)[0] == "file"@ && number::parse(
        trim::trim(split::words(line)[1]),
        u64::MAX as nat,
    ) == Some(n)
}

/// What is cached is what the first line of the statistics that tells the bytes of cached files
/// says, up to what is used; nothing is said of it where there is no such line.
pub proof fn first_line_tells_the_cache(
    max_raw: Seq<char>,
    current_raw: Seq<char>,
    stat_raw: Seq<char>,
    i: int,
    n: nat,
)
    requires
        memory::by_group(max_raw, current_raw, stat_raw) is Some,
        0 <= i <= split::lines(stat_raw).len(),
        forall|j: int, k: nat| 0 <= j < i ==> !tells_files(split::lines(stat_raw)[j], k),
    ensures
        i < split::lines(stat_raw).len() && tells_files(split::lines(stat_raw)[i], n) ==> (
        memory::by_group(max_raw, current_raw, stat_raw)->Some_0.cached matches Some(cached)
            && cached == min(
            n,
            memory::by_group(max_raw, current_raw, stat_raw)->Some_0.used as nat,
        )),
        i == split::lines(stat_raw).len() ==> memory::by_group(
            max_raw,
            current_raw,
            stat_raw,
        )->Some_0.cached is None,
{
    trim::trimmed_once(max_raw);
    trim::trimmed_once(current_raw);
    lemma_parse_is_bounded(trim::trim(max_raw));
    lemma_parse_is_bounded(trim::trim(current_raw));
    let lines = split::lines(stat_raw);
    lemma_no_files(lines, i);
    if i < lines.len() && tells_files(lines[i], n) {
        assert(lines.take(i + 1).drop_last() =~= lines.take(i));
        assert(memory::file_bytes(lines.take(i + 1)) == Some(n));
        lemma_files_stay(lines, i + 1);
    } else if i == lines.len() {
        assert(lines.take(i) =~= lines);
    }
}

proof fn lemma_no_files(lines: Seq<Seq<char>>, i: int)
    requires
        0 <= i <= lines.len(),
        forall|j: int, k: nat| 0 <= j < i ==> !tells_files(lines[j], k),
    ensures
        memory::file_bytes(lines.take(i)) is None,
    decreases i,
{
    if i > 0 {
        assert(lines.take(i).drop_last() =~= lines.take(i - 1));
        lemma_no_files(lines, i - 1);
        match memory::file_line(lines[i - 1]) {
            Some(k) => {
                assert(tells_files(lines[i - 1], k));
            },
            None => {},
        }
    }
}

proof fn lemma_files_stay(lines: Seq<Seq<char>>, i: int)
    requires
        0 <= i <= lines.len(),
        memory::file_bytes(lines.take(i)) is Some,
    ensures
        memory::file_bytes(lines) == memory::file_bytes(lines.take(i)),
    decreases lines.len(),
{
    if i == lines.len() {
        assert(lines.take(i) =~= lines);
    } else {
        assert(lines.drop_last().take(i) =~= lines.take(i));
        lemma_files_stay(lines.drop_last(), i);
    }
}

/// The bytes of an entry of the kernel's table, which tells kilobytes; zero without the entry.
pub open spec fn kilobytes(values: Map<Seq<char>, u64>, key: Seq<char>) -> nat {
    if values.contains_key(key) {
        values[key] as nat * 1024
    } else {
        0
    }
}

/// The entries of the table are of a size that a machine can have.
pub open spec fn sizes_fit(values: Map<Seq<char>, u64>) -> bool {
    &&& forall|key: Seq<char>| #[trigger] values.contains_key(key) ==> values[key] * 1024
        <= u64::MAX
    &&& kilobytes(values, "Buffers"@) + kilobytes(values, "Cached"@) + kilobytes(
        values,
        "SReclaimable"@,
    ) <= u64::MAX
}

/// Where the kernel tells what is available, and not all is, that is what is published as
/// available, and the rest is used. All of the memory is what the kernel tells.
pub proof fn kernel_tells_what_is_available(values: Map<Seq<char>, u64>)
    requires
        sizes_fit(values),
        values.contains_key("MemTotal"@),
        values.contains_key("MemAvailable"@),
        values["MemAvailable"@] < values["MemTotal"@],
    ensures
        memory::by_table(values) matches Some(m) && {
            &&& m.total == kilobytes(values, "MemTotal"@)
            &&& m.available matches Some(available) && available == kilobytes(
                values,
                "MemAvailable"@,
            )
            &&& m.used == kilobytes(values, "MemTotal"@) - kilobytes(values, "MemAvailable"@)
        },
{
    assert(values.contains_key("MemTotal"@) && values["MemTotal"@] * 1024 <= u64::MAX);
    assert(values["MemAvailable"@] * 1024 <= u64::MAX);
}

/// What is cached is what buffers, cached files and reclaimable structures hold but for what is
/// shared, up to all of the memory.
pub proof fn kernel_tells_the_cache(values: Map<Seq<char>, u64>)
    requires
        sizes_fit(values),
        values.contains_key("MemTotal"@),
    ensures
        ({
            let held = kilobytes(values, "Buffers"@) + kilobytes(values, "Cached"@) + kilobytes(
                values,
                "SReclaimable"@,
            );
            let shared = kilobytes(values, "Shmem"@);
            let cache = if held >= shared {
                held - shared
            } else {
                0
            };
            memory::by_table(values) matches Some(m) && (m.cached matches Some(cached) && cached
                == min(cache as nat, kilobytes(values, "MemTotal"@)))
        }),
{
    lemma_entry(values, "MemTotal"@);
    lemma_entry(values, "Buffers"@);
    lemma_entry(values, "Cached"@);
    lemma_entry(values, "SReclaimable"@);
    lemma_entry(values, "Shmem"@);
}

proof fn lemma_entry(values: Map<Seq<char>, u64>, key: Seq<char>)
    requires
        sizes_fit(values),
    ensures
        memory::entry_or_zero(values, key) == kilobytes(values, key),
        kilobytes(values, key) <= u64::MAX,
        values.contains_key(key) ==> memory::entry_bytes(values, key) == Some(
            kilobytes(values, key),
        ),
{
    if values.contains_key(key) {
        assert(values[key] * 1024 <= u64::MAX);
    }
}

/// Where by what the kernel tells to be available nothing would be used, though memory holds a
/// cache, what is used is what is neither free nor cache.
pub proof fn hidden_use_is_found(values: Map<Seq<char>, u64>)
    requires
        sizes_fit(values),
        values.contains_key("MemTotal"@),
        values.contains_key("MemAvailable"@) ==> values["MemAvailable"@] >= values["MemTotal"@],
        kilobytes(values, "Buffers"@) + kilobytes(values, "Cached"@) + kilobytes(
            values,
            "SReclaimable"@,
        ) > kilobytes(values, "Shmem"@),
    ensures
        ({
            let total = kilobytes(values, "MemTotal"@);
            let cache = kilobytes(values, "Buffers"@) + kilobytes(values, "Cached"@) + kilobytes(
                values,
                "SReclaimable"@,
            ) - kilobytes(values, "Shmem"@);
            let free = kilobytes(values, "MemFree"@);
            memory::by_table(values) matches Some(m) && {
                &&& m.used + free + cache == total || (m.used == 0 && free + cache >= total)
                &&& m.available matches Some(available) && available == total - m.used
            }
        }),
{
    lemma_entry(values, "MemTotal"@);
    lemma_entry(values, "MemAvailable"@);
    lemma_entry(values, "Buffers"@);
    lemma_entry(values, "Cached"@);
    lemma_entry(values, "SReclaimable"@);
    lemma_entry(values, "Shmem"@);
    lemma_entry(values, "MemFree"@);
}

/// The table tells nothing of the memory where it does not tell all of it.
pub proof fn table_without_a_total_tells_nothing(values: Map<Seq<char>, u64>)
    ensures
        memory::by_table(values) is Some <==> values.contains_key("MemTotal"@),
{
}

/// The control group is believed first, then the kernel's table, then what the system tells of
/// all of the memory: there, what is not available of it is used.
pub proof fn sources_are_believed_in_order(sources: MemorySources)
    ensures
        sources.cgroup matches Some((max_raw, current_raw, stat_raw)) ==> (memory::by_group(
            max_raw@,
            current_raw@,
            stat_raw@,
        ) matches Some(m) ==> memory::measured(sources) == m),
        (sources.cgroup matches Some((max_raw, current_raw, stat_raw)) ==> memory::by_group(
            max_raw@,
            current_raw@,
            stat_raw@,
        ) is None) ==> (sources.meminfo matches Some(content) ==> (memory::by_table(
            memory::entries(split::lines(content@)),
        ) matches Some(m) ==> memory::measured(sources) == m)),
        sources.cgroup is None && sources.meminfo is None ==> {
            let m = memory::measured(sources);
            let (total, available) = sources.totals;
            &&& m.cached is None
            &&& total > 0 ==> m.total == total
            &&& total > 0 ==> m.used == total - min(available as nat, total as nat)
        },
{
}

/// A line tells an entry of that name.
pub open spec fn names(line: Seq<char>, key: Seq<char>) -> bool {
    memory::line_entry(line) matches Some((name, _)) && name == key
}

/// Of entries of the table with the same name the last one counts.
pub proof fn last_entry_counts(lines: Seq<Seq<char>>, i: int, key: Seq<char>, n: u64)
    requires
        0 <= i < lines.len(),
        memory::line_entry(lines[i]) == Some((key, n)),
        forall|j: int| i < j < lines.len() ==> !names(#[trigger] lines[j], key),
    ensures
        memory::entries(lines).contains_key(key),
        memory::entries(lines)[key] == n,
    decreases lines.len(),
{
    if i < lines.len() - 1 {
        let before = lines.drop_last();
        assert(before[i] == lines[i]);
        assert forall|j: int| i < j < before.len() implies !names(#[trigger] before[j], key) by {
            assert(before[j] == lines[j]);
        }
        last_entry_counts(before, i, key, n);
        assert(!names(lines[lines.len() - 1], key));
    }
}

/// An entry is named by what stands before the first colon of its line, and has the number that
/// stands first behind it.
pub proof fn entry_is_read(name: Seq<char>, value: Seq<char>, n: u64)
    requires
        forall|i: int| 0 <= i < name.len() ==> name[i] != ':',
        split::words(value).len() > 0,
        number::parse(split::words(value)[0], u64::MAX as nat) == Some(n as nat),
    ensures
        memory::line_entry(name + seq![':'] + value) == Some((trim::trim(name), n)),
{
    let line = name + seq![':'] + value;
    search::lemma_find_char(line, ':', 0);
    assert(line[name.len() as int] == ':');
    let k = search::find_char(line, ':', 0)->Some_0;
    if k < name.len() {
        assert(name[k] == ':');
    }
    assert(line.take(k) =~= name);
    assert(line.skip(k + 1) =~= value);
}

/// The disk that is told of is mounted at the root, where there is such a disk, and then it is
/// the first such one; else it is the first of all.
pub proof fn root_is_told_of(disks: Seq<Disk>)
    ensures
        match disk::told_disk(disks) {
            Some(i) => {
                &&& 0 <= i < disks.len()
                &&& disks[i].mount_point@ == "/"@ ==> forall|j: int|
                    0 <= j < i ==> (#[trigger] disks[j]).mount_point@ != "/"@
                &&& disks[i].mount_point@ != "/"@ ==> i == 0 && forall|j: int|
                    0 <= j < disks.len() ==> (#[trigger] disks[j]).mount_point@ != "/"@
            },
            None => disks.len() == 0,
        },
{
    lemma_root(disks);
}

proof fn lemma_root(disks: Seq<Disk>)
    ensures
        match disk::root_disk(disks) {
            Some(i) => {
                &&& 0 <= i < disks.len()
                &&& disks[i].mount_point@ == "/"@
                &&& forall|j: int| 0 <= j < i ==> (#[trigger] disks[j]).mount_point@ != "/"@
            },
            None => forall|j: int|
                0 <= j < disks.len() ==> (#[trigger] disks[j]).mount_point@ != "/"@,
        },
    decreases disks.len(),
{
    if disks.len() > 0 {
        let before = disks.drop_last();
        lemma_root(before);
        assert forall|j: int| 0 <= j < before.len() implies (
        #[trigger] disks[j]).mount_point == before[j].mount_point by {
        }
    }
}

/// Of a disk with a size, what is used is what is not free, and all of it is its size.
pub proof fn used_space_is_not_free(total: nat, available: nat)
    ensures
        total > 0 ==> disk::space(total, available).1 == total,
        total > 0 && available <= total ==> disk::space(total, available).0 == total - available,
        available >= total ==> disk::space(total, available).0 <= 1,
        available >= total && total > 0 ==> disk::space(total, available).0 == 0,
{
}

/// The numbers of the interfaces that count, added up.
pub open spec fn sum(interfaces: Seq<Interface>, received: bool) -> nat
    decreases interfaces.len(),
{
    if interfaces.len() == 0 {
        0
    } else {
        let last = interfaces.last();
        let text = if received {
            last.rx_bytes
        } else {
            last.tx_bytes
        };
        let shown = match text {
            Some(t) => match number_in(t@) {
                Some(n) => n,
                None => 0,
            },
            None => 0,
        };
        let loopback = last.name@.len() >= 2 && last.name@[0] == 'l' && last.name@[1] == 'o';
        let down = match last.operstate {
            Some(state) => trim::trim(state@) == "down"@,
            None => false,
        };
        sum(interfaces.drop_last(), received) + (if loopback || down {
            0
        } else {
            shown
        })
    }
}

/// What was received and what was sent are the sums of the counters of all interfaces but the
/// loopback and those that are down, up to the largest number.
pub proof fn traffic_is_added_up(interfaces: Seq<Interface>)
    ensures
        network::total_rx(interfaces) == min(sum(interfaces, true), u64::MAX as nat),
        network::total_tx(interfaces) == min(sum(interfaces, false), u64::MAX as nat),
    decreases interfaces.len(),
{
    reveal_strlit("lo");
    if interfaces.len() > 0 {
        traffic_is_added_up(interfaces.drop_last());
        let name = interfaces.last().name@;
        assert("lo"@.is_prefix_of(name) <==> name.len() >= 2 && name[0] == 'l' && name[1] == 'o')
            by {
            if name.len() >= 2 && name[0] == 'l' && name[1] == 'o' {
                assert("lo"@ =~= name.subrange(0, 2));
            }
            if "lo"@.is_prefix_of(name) {
                assert(name.subrange(0, 2)[0] == name[0]);
                assert(name.subrange(0, 2)[1] == name[1]);
            }
        }
        assert(network::counter(chars::opt_text(interfaces.last().rx_bytes)) >= 0);
    }
}

/// The node's memory has a size: memory that is told to have none counts as one byte. What is
/// available is no more than there is, and the rest is used.
pub proof fn totals_tell_the_use(total: u64, available: u64)
    ensures
        ({
            let m = memory::by_totals(total, available);
            &&& total > 0 ==> m.total == total
            &&& total == 0 ==> m.total == 1
            &&& m.available matches Some(free) && free == min(available as nat, m.total as nat)
            &&& m.used == m.total - min(available as nat, m.total as nat)
            &&& m.cached is None
        }),
{
}

} // verus!
