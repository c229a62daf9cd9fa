//! The space on the node's disk.

use crate::text::chars;
use vstd::prelude::*;

verus! {

/// The space on a disk that is used, and all of it, in bytes.
#[derive(Debug, Clone, Copy, PartialEq, Eq, Structural)]
pub struct DiskMetrics {
    pub used: u64,
    pub total: u64,
}

/// A disk: where it is mounted, its size, and how much of it is free.
#[derive(Debug)]
pub struct Disk {
    pub mount_point: String,
    pub total: u64,
    pub available: u64,
}

/// The first disk of a list that is mounted at the root.
pub open spec fn root_disk(disks: Seq<Disk>) -> Option<int>
    decreases disks.len(),
{
    if disks.len() == 0 {
        None
    } else {
        match root_disk(disks.drop_last()) {
            Some(i) => Some(i),
            None => if disks.last().mount_point@ == "/"@ {
                Some(disks.len() - 1)
            } else {
                None
            },
        }
    }
}

/// The disk that is told of: the one at the root, else the first one.
pub open spec fn told_disk(disks: Seq<Disk>) -> Option<int> {
    match root_disk(disks) {
        Some(i) => Some(i),
        None => if disks.len() > 0 {
            Some(0)
        } else {
            None
        },
    }
}

/// The space on a disk. A disk without a size counts as one byte.
pub open spec fn space(total: nat, available: nat) -> (nat, nat) {
    let size = if total == 0 {
        1
    } else {
        total
    };
    (
        (size - if available < size {
            available
        } else {
            size
        }) as nat,
        size,
    )
}

proof fn lemma_root_disk(disks: Seq<Disk>, i: int)
    requires
        0 <= i <= disks.len(),
        root_disk(disks.take(i)) is Some,
    ensures
        root_disk(disks) == root_disk(disks.take(i)),
    decreases disks.len(),
{
    if i == disks.len() {
        assert(disks.take(i) =~= disks);
    } else {
        assert(disks.drop_last().take(i) =~= disks.take(i));
        lemma_root_disk(disks.drop_last(), i);
    }
}

/// Measures the space on the node's disk.
pub fn collect(disks: &Vec<Disk>) -> (r: DiskMetrics)
    ensures
        match told_disk(disks@) {
            Some(i) => {
                &&& 0 <= i < disks@.len()
                &&& (r.used as nat, r.total as nat) == space(
                    disks@[i].total as nat,
                    disks@[i].available as nat,
                )
            },
            None => r.used == 0 && r.total == 1,
        },
        r.used <= r.total,
{
    let mut i: usize = 0;
    while i < disks.len()
        invariant
            i <= disks.len(),
            root_disk(disks@.take(i as int)) is None,
        decreases disks.len() - i,
    {
        proof {
            assert(disks@.take(i + 1).drop_last() =~= disks@.take(i as int));
        }
        if chars::same(&disks[i].mount_point, "/") {
            proof {
                lemma_root_disk(disks@, i + 1);
            }
            return measure(&disks[i]);
        }
        i += 1;
    }
    proof {
        assert(disks@.take(i as int) =~= disks@);
    }
    if disks.len() > 0 {
        measure(&disks[0])
    } else {
        DiskMetrics { used: 0, total: 1 }
    }
}

/// Measures the space on a disk.
fn measure(disk: &Disk) -> (r: DiskMetrics)
    ensures
        (r.used as nat, r.total as nat) == space(disk.total as nat, disk.available as nat),
        r.used <= r.total,
{
    let total: u64 = if disk.total == 0 {
        1
    } else {
        disk.total
    };
    let available: u64 = if disk.available < total {
        disk.available
    } else {
        total
    };
    DiskMetrics { used: total - available, total }
}

} // verus!
