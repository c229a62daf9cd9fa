//! The memory of the node.

use crate::string_map::StringMap;
use crate::text::{chars, number, split, trim};
use vstd::prelude::*;

verus! {

/// The memory of the node, in bytes: all of it, and how much is used, cached and available.
#[derive(Debug, Clone, Copy, PartialEq, Eq, Structural)]
pub struct MemoryMetrics {
    pub total: u64,
    pub used: u64,
    pub cached: Option<u64>,
    pub available: Option<u64>,
}

/// The smaller of two numbers.
pub open spec fn least(a: nat, b: nat) -> nat {
    if a < b {
        a
    } else {
        b
    }
}

/// What is left of a number, not below zero.
pub open spec fn less(a: nat, b: nat) -> nat {
    if a < b {
        0
    } else {
        (a - b) as nat
    }
}

/// A number, up to the largest one.
pub open spec fn capped(n: nat) -> nat {
    least(n, u64::MAX as nat)
}

/// The entry of a line such as `MemFree: 100 kB`.
pub open spec fn line_entry(line: Seq<char>) -> Option<(Seq<char>, u64)> {
    match split::split_once_char(line, ':') {
        Some((key, value)) => {
            let words = split::words(value);
            if words.len() > 0 {
                match number::parse(words[0], u64::MAX as nat) {
                    Some(n) => Some((trim::trim(key), n as u64)),
                    None => None,
                }
            } else {
                None
            }
        },
        None => None,
    }
}

/// The entries of lines; of two with the same name the later one counts.
pub open spec fn entries(lines: Seq<Seq<char>>) -> Map<Seq<char>, u64>
    decreases lines.len(),
{
    if lines.len() == 0 {
        Map::empty()
    } else {
        let before = entries(lines.drop_last());
        match line_entry(lines.last()) {
            Some((key, n)) => before.insert(key, n),
            None => before,
        }
    }
}

/// Reads the entries of the kernel's table of memory.
pub fn parse_meminfo(content: &str) -> (r: StringMap<u64>)
    ensures
        r.map() == entries(split::lines(content@)),
{
    let lines = split::lines_of(content);
    let ghost all = chars::texts(lines@);
    let mut values: StringMap<u64> = StringMap::new();
    let mut i: usize = 0;
    while i < lines.len()
        invariant
            i <= lines.len(),
            all == chars::texts(lines@),
            values.map() == entries(all.take(i as int)),
        decreases lines.len() - i,
    {
        proof {
            assert(all.take(i + 1).drop_last() =~= all.take(i as int));
            assert(all.take(i + 1).last() == lines@[i as int]@);
        }
        if let Some((key, value)) = split::cut_char(&lines[i], ':') {
            let words = split::words_of(&value);
            proof {
                assert(chars::texts(words@).len() == words@.len());
            }
            if words.len() > 0 {
                proof {
                    assert(chars::texts(words@)[0] == words@[0]@);
                }
                if let Some(n) = number::parsed(&words[0], u64::MAX) {
                    values.insert(trim::trimmed(&key), n);
                }
            }
        }
        i += 1;
    }
    proof {
        assert(all.take(i as int) =~= all);
    }
    values
}

/// The bytes of an entry in kilobytes, up to the largest number.
pub open spec fn entry_bytes(values: Map<Seq<char>, u64>, key: Seq<char>) -> Option<nat> {
    if values.contains_key(key) {
        Some(capped(values[key] as nat * 1024))
    } else {
        None
    }
}

/// The bytes of an entry, zero where there is none.
pub open spec fn entry_or_zero(values: Map<Seq<char>, u64>, key: Seq<char>) -> nat {
    match entry_bytes(values, key) {
        Some(n) => n,
        None => 0,
    }
}

/// The memory that holds what can be given up: buffers, cached files and reclaimable structures,
/// but not what is shared.
pub open spec fn cache_bytes(values: Map<Seq<char>, u64>) -> nat {
    less(
        capped(
            capped(entry_or_zero(values, "Buffers"@) + entry_or_zero(values, "Cached"@))
                + entry_or_zero(values, "SReclaimable"@),
        ),
        entry_or_zero(values, "Shmem"@),
    )
}

/// The memory that the kernel tells to be available, of at most `total`.
pub open spec fn told_available(values: Map<Seq<char>, u64>, total: nat) -> Option<nat> {
    match entry_bytes(values, "MemAvailable"@) {
        Some(n) => Some(least(n, total)),
        None => None,
    }
}

/// The memory that is used, of all `total`: what is not available, as the kernel tells it; or,
/// where by that nothing would be used though memory holds a cache, what is neither free nor
/// cache.
pub open spec fn used_bytes(values: Map<Seq<char>, u64>, total: nat) -> nat {
    let by_available = match told_available(values, total) {
        Some(n) => less(total, n),
        None => 0,
    };
    if by_available == 0 && cache_bytes(values) > 0 {
        least(
            less(less(total, entry_or_zero(values, "MemFree"@)), cache_bytes(values)),
            total,
        )
    } else {
        least(by_available, total)
    }
}

/// The bytes of an entry in kilobytes, up to the largest number.
pub fn read_meminfo_value_bytes(values: &StringMap<u64>, key: &str) -> (r: Option<u64>)
    ensures
        match r {
            Some(n) => entry_bytes(values.map(), key@) == Some(n as nat),
            None => entry_bytes(values.map(), key@) is None,
        },
{
    match values.get(key) {
        Some(n) => if *n > u64::MAX / 1024 {
            Some(u64::MAX)
        } else {
            Some(*n * 1024)
        },
        None => None,
    }
}

/// The bytes of an entry, zero where there is none.
fn value_or_zero(values: &StringMap<u64>, key: &str) -> (r: u64)
    ensures
        r == entry_or_zero(values.map(), key@),
{
    match read_meminfo_value_bytes(values, key) {
        Some(n) => n,
        None => 0,
    }
}

/// The smaller of two numbers.
fn smaller(a: u64, b: u64) -> (r: u64)
    ensures
        r == least(a as nat, b as nat),
{
    if a < b {
        a
    } else {
        b
    }
}

/// The memory of the node, over the entries of the kernel's table. It is unknown where the table
/// does not tell all of the memory.
pub open spec fn by_table(values: Map<Seq<char>, u64>) -> Option<MemoryMetrics> {
    match entry_bytes(values, "MemTotal"@) {
        Some(total) => Some(
            MemoryMetrics {
                total: total as u64,
                used: used_bytes(values, total) as u64,
                cached: Some(least(cache_bytes(values), total) as u64),
                available: Some((total - used_bytes(values, total)) as u64),
            },
        ),
        None => None,
    }
}

/// The memory of the node, over the entries of the kernel's table.
pub fn memory_metrics_from_meminfo(values: &StringMap<u64>) -> (r: Option<MemoryMetrics>)
    ensures
        r == by_table(values.map()),
{
    let total: u64 = match read_meminfo_value_bytes(values, "MemTotal") {
        Some(total) => total,
        None => {
            return None;
        },
    };
    let free: u64 = value_or_zero(values, "MemFree");
    let available: Option<u64> = match read_meminfo_value_bytes(values, "MemAvailable") {
        Some(n) => Some(smaller(n, total)),
        None => None,
    };
    let buffers: u64 = value_or_zero(values, "Buffers");
    let cached: u64 = value_or_zero(values, "Cached");
    let reclaimable: u64 = value_or_zero(values, "SReclaimable");
    let shmem: u64 = value_or_zero(values, "Shmem");
    let htop_style_cache: u64 = buffers.saturating_add(cached).saturating_add(
        reclaimable,
    ).saturating_sub(shmem);
    let available_used: u64 = match available {
        Some(n) => total.saturating_sub(n),
        None => 0,
    };
    let free_used: u64 = total.saturating_sub(free).saturating_sub(htop_style_cache);
    let hidden = available_used == 0 && htop_style_cache > 0;
    let used: u64 = smaller(
        if hidden {
            free_used
        } else {
            available_used
        },
        total,
    );
    let available: Option<u64> = if hidden {
        Some(total.saturating_sub(used))
    } else {
        match available {
            Some(n) => Some(n),
            None => Some(total.saturating_sub(used)),
        }
    };
    Some(
        MemoryMetrics { total, used, cached: Some(smaller(htop_style_cache, total)), available },
    )
}

/// The number of a file that holds one.
pub fn parse_positive_number(raw: &str) -> (r: Option<u64>)
    ensures
        match r {
            Some(n) => number::parse(trim::trim(raw@), u64::MAX as nat) == Some(n as nat),
            None => number::parse(trim::trim(raw@), u64::MAX as nat) is None,
        },
{
    number::parsed(&trim::trimmed(raw), u64::MAX)
}

/// The bytes of cached files that a line of the control group's statistics tells.
pub open spec fn file_line(line: Seq<char>) -> Option<nat> {
    let words = split::words(line);
    if words.len() > 1 && words[0] == "file"@ {
        number::parse(trim::trim(words[1]), u64::MAX as nat)
    } else {
        None
    }
}

/// The first bytes of cached files that lines tell.
pub open spec fn file_bytes(lines: Seq<Seq<char>>) -> Option<nat>
    decreases lines.len(),
{
    if lines.len() == 0 {
        None
    } else {
        match file_bytes(lines.drop_last()) {
            Some(n) => Some(n),
            None => file_line(lines.last()),
        }
    }
}

proof fn lemma_file_bytes(lines: Seq<Seq<char>>, i: int)
    requires
        0 <= i <= lines.len(),
        file_bytes(lines.take(i)) is Some,
    ensures
        file_bytes(lines) == file_bytes(lines.take(i)),
    decreases lines.len(),
{
    if i == lines.len() {
        assert(lines.take(i) =~= lines);
    } else {
        assert(lines.drop_last().take(i) =~= lines.take(i));
        lemma_file_bytes(lines.drop_last(), i);
    }
}

/// The limit of the control group, where it has one.
pub open spec fn group_limit(max_raw: Seq<char>) -> Option<nat> {
    if trim::trim(max_raw) == "max"@ {
        None
    } else {
        match number::parse(trim::trim(trim::trim(max_raw)), u64::MAX as nat) {
            Some(total) => if total > 0 {
                Some(total)
            } else {
                None
            },
            None => None,
        }
    }
}

/// Finds the first bytes of cached files that the control group's statistics tell.
fn cached_files(stat_raw: &str) -> (r: Option<u64>)
    ensures
        match r {
            Some(n) => file_bytes(split::lines(stat_raw@)) == Some(n as nat),
            None => file_bytes(split::lines(stat_raw@)) is None,
        },
{
    let lines = split::lines_of(stat_raw);
    let ghost all = chars::texts(lines@);
    let mut i: usize = 0;
    while i < lines.len()
        invariant
            i <= lines.len(),
            all == chars::texts(lines@),
            all == split::lines(stat_raw@),
            file_bytes(all.take(i as int)) is None,
        decreases lines.len() - i,
    {
        let words = split::words_of(&lines[i]);
        proof {
            assert(all.take(i + 1).drop_last() =~= all.take(i as int));
            assert(all.take(i + 1).last() == lines@[i as int]@);
            assert(chars::texts(words@).len() == words@.len());
            assert(forall|j: int|
                0 <= j < words@.len() ==> #[trigger] chars::texts(words@)[j] == words@[j]@);
        }
        if words.len() > 1 && chars::same(&words[0], "file") {
            if let Some(n) = parse_positive_number(&words[1]) {
                proof {
                    lemma_file_bytes(all, i + 1);
                }
                return Some(n);
            }
        }
        i += 1;
    }
    proof {
        assert(all.take(i as int) =~= all);
    }
    None
}

/// The memory of the node's control group, over the files that tell its limit, its use and its
/// statistics. It is unknown where there is no limit, or the use is not told.
pub open spec fn by_group(max_raw: Seq<char>, current_raw: Seq<char>, stat_raw: Seq<char>) -> Option<
    MemoryMetrics,
> {
    match (
        group_limit(max_raw),
        number::parse(trim::trim(trim::trim(current_raw)), u64::MAX as nat),
    ) {
        (Some(total), Some(current)) => {
            let used = least(current, total);
            Some(
                MemoryMetrics {
                    total: total as u64,
                    used: used as u64,
                    cached: match file_bytes(split::lines(stat_raw)) {
                        Some(n) => Some(least(n, used) as u64),
                        None => None,
                    },
                    available: Some((total - used) as u64),
                },
            )
        },
        _ => None,
    }
}

/// The memory of the node's control group, over the files that tell its limit, its use and its
/// statistics.
pub fn read_cgroup_v2(max_raw: &str, current_raw: &str, stat_raw: &str) -> (r: Option<
    MemoryMetrics,
>)
    ensures
        r == by_group(max_raw@, current_raw@, stat_raw@),
{
    let max_trimmed = trim::trimmed(max_raw);
    if chars::same(&max_trimmed, "max") {
        return None;
    }
    let total: u64 = match parse_positive_number(&max_trimmed) {
        Some(total) => total,
        None => {
            return None;
        },
    };
    let current: u64 = match parse_positive_number(&trim::trimmed(current_raw)) {
        Some(current) => current,
        None => {
            return None;
        },
    };
    if total == 0 {
        return None;
    }
    let used: u64 = smaller(current, total);
    let cached: Option<u64> = match cached_files(stat_raw) {
        Some(n) => Some(smaller(n, used)),
        None => None,
    };
    Some(MemoryMetrics { total, used, cached, available: Some(total.saturating_sub(used)) })
}

/// The memory of the node, over all of it and what is available of it. Memory without a size
/// counts as one byte.
pub open spec fn by_totals(total: u64, available: u64) -> MemoryMetrics {
    let size = if total == 0 {
        1
    } else {
        total
    };
    let free = least(available as nat, size as nat);
    MemoryMetrics {
        total: size,
        used: (size - free) as u64,
        cached: None,
        available: Some(free as u64),
    }
}

/// The memory of the node, over all of it and what is available of it.
pub fn from_totals(total: u64, available: u64) -> (r: MemoryMetrics)
    ensures
        r == by_totals(total, available),
{
    let size: u64 = if total == 0 {
        1
    } else {
        total
    };
    let free: u64 = smaller(available, size);
    MemoryMetrics { total: size, used: size.saturating_sub(free), cached: None, available: Some(free) }
}

/// What can be read of the node's memory.
pub struct MemorySources<'a> {
    /// The limit, the use and the statistics of the control group.
    pub cgroup: Option<(&'a str, &'a str, &'a str)>,
    /// The kernel's table of memory.
    pub meminfo: Option<&'a str>,
    /// All of the memory, and what is available of it.
    pub totals: (u64, u64),
}

/// The node's memory: by its control group, else by the kernel's table, else by what the system
/// tells of all of it.
pub open spec fn measured(sources: MemorySources) -> MemoryMetrics {
    let group = match sources.cgroup {
        Some((max_raw, current_raw, stat_raw)) => by_group(max_raw@, current_raw@, stat_raw@),
        None => None,
    };
    let table = match sources.meminfo {
        Some(content) => by_table(entries(split::lines(content@))),
        None => None,
    };
    match group {
        Some(metrics) => metrics,
        None => match table {
            Some(metrics) => metrics,
            None => by_totals(sources.totals.0, sources.totals.1),
        },
    }
}

/// Measures the node's memory.
pub fn collect(sources: &MemorySources) -> (r: MemoryMetrics)
    ensures
        r == measured(*sources),
{
    if let Some((max_raw, current_raw, stat_raw)) = sources.cgroup {
        if let Some(metrics) = read_cgroup_v2(max_raw, current_raw, stat_raw) {
            return metrics;
        }
    }
    if let Some(content) = sources.meminfo {
        if let Some(metrics) = memory_metrics_from_meminfo(&parse_meminfo(content)) {
            return metrics;
        }
    }
    from_totals(sources.totals.0, sources.totals.1)
}

/// However the memory is measured, what is used and what is available make up all of it, and no
/// more is cached than there is.
pub proof fn memory_adds_up(sources: MemorySources)
    ensures
        measured(sources).used <= measured(sources).total,
        measured(sources).available matches Some(available) && measured(sources).used + available
            == measured(sources).total,
        measured(sources).cached matches Some(cached) ==> cached <= measured(sources).total,
{
    if let Some((max_raw, current_raw, stat_raw)) = sources.cgroup {
        lemma_group_limit(max_raw@);
    }
}

proof fn lemma_group_limit(max_raw: Seq<char>)
    ensures
        group_limit(max_raw) matches Some(total) ==> 0 < total <= u64::MAX,
{
}

} // verus!
