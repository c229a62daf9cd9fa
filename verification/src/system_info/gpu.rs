//! The graphics processors of the node.

use crate::system_info::GpuInfo;
use crate::text::{chars, edit, number, search, split, trim};
use vstd::prelude::*;

verus! {

/// The texts of a graphics processor.
pub struct GpuView {
    pub name: Seq<char>,
    pub vendor: Option<Seq<char>>,
    pub memory_bytes: Option<u64>,
    pub driver_version: Option<Seq<char>>,
}

impl View for GpuInfo {
    type V = GpuView;

    open spec fn view(&self) -> GpuView {
        GpuView {
            name: self.name@,
            vendor: chars::opt_text(self.vendor),
            memory_bytes: self.memory_bytes,
            driver_version: chars::opt_text(self.driver_version),
        }
    }
}

/// The texts of graphics processors.
pub open spec fn gpu_views(gpus: Seq<GpuInfo>) -> Seq<GpuView> {
    gpus.map_values(|gpu: GpuInfo| gpu@)
}

/// Megabytes in bytes, up to the largest number.
pub open spec fn megabytes(n: nat) -> u64 {
    if n * 1_048_576 > u64::MAX {
        u64::MAX
    } else {
        (n * 1_048_576) as u64
    }
}

/// The graphics processor that a line of `nvidia-smi` tells: its name, its memory in megabytes
/// and the version of its driver.
pub open spec fn nvidia_line(line: Seq<char>) -> Option<GpuView> {
    let parts = split::split(line, ',');
    if parts.len() == 0 || trim::trim(parts[0]).len() == 0 {
        None
    } else {
        Some(
            GpuView {
                name: trim::trim(parts[0]),
                vendor: Some("NVIDIA"@),
                memory_bytes: if parts.len() > 1 {
                    match number::parse(trim::trim(parts[1]), u64::MAX as nat) {
                        Some(n) => Some(megabytes(n)),
                        None => None,
                    }
                } else {
                    None
                },
                driver_version: if parts.len() > 2 && trim::trim(parts[2]).len() > 0 {
                    Some(trim::trim(parts[2]))
                } else {
                    None
                },
            },
        )
    }
}

/// The graphics processors that lines of `nvidia-smi` tell.
pub open spec fn nvidia_lines(lines: Seq<Seq<char>>) -> Seq<GpuView>
    decreases lines.len(),
{
    if lines.len() == 0 {
        seq![]
    } else {
        let before = nvidia_lines(lines.drop_last());
        match nvidia_line(lines.last()) {
            Some(gpu) => before.push(gpu),
            None => before,
        }
    }
}

/// A line of `lspci` tells of a graphics processor.
pub open spec fn is_display(line: Seq<char>) -> bool {
    let words = edit::lower_text(line);
    ||| search::contains(words, "vga compatible controller"@)
    ||| search::contains(words, "3d controller"@)
    ||| search::contains(words, "display controller"@)
}

/// What a line of `lspci` says of a device.
pub open spec fn descriptor(line: Seq<char>) -> Seq<char> {
    match split::split_once_char(line, ':') {
        Some((_, rest)) => if trim::trim(rest).len() > 0 {
            trim::trim(rest)
        } else {
            "GPU"@
        },
        None => "GPU"@,
    }
}

/// Who made a device, as far as what is said of it tells.
pub open spec fn maker(said: Seq<char>) -> Option<Seq<char>> {
    let words = edit::lower_text(said);
    if search::contains(words, "nvidia"@) {
        Some("NVIDIA"@)
    } else if search::contains(words, "advanced micro devices"@) || search::contains(words, "amd"@)
        || search::contains(words, "ati"@) {
        Some("AMD"@)
    } else if search::contains(words, "intel"@) {
        Some("Intel"@)
    } else {
        None
    }
}

/// The graphics processor that a line of `lspci` tells.
pub open spec fn pci_gpu(line: Seq<char>) -> GpuView {
    GpuView {
        name: descriptor(line),
        vendor: maker(descriptor(line)),
        memory_bytes: None,
        driver_version: None,
    }
}

/// The graphics processors that lines of `lspci` tell.
pub open spec fn pci_lines(lines: Seq<Seq<char>>) -> Seq<GpuView>
    decreases lines.len(),
{
    if lines.len() == 0 {
        seq![]
    } else {
        let before = pci_lines(lines.drop_last());
        if is_display(lines.last()) {
            before.push(pci_gpu(lines.last()))
        } else {
            before
        }
    }
}

/// The graphics processors of the node: those that `nvidia-smi` tells, else those that `lspci`
/// tells.
pub open spec fn gpus(nvidia: Option<Seq<char>>, pci: Option<Seq<char>>) -> Seq<GpuView> {
    let first = match nvidia {
        Some(output) => nvidia_lines(split::lines(output)),
        None => seq![],
    };
    if first.len() > 0 {
        first
    } else {
        match pci {
            Some(output) => pci_lines(split::lines(output)),
            None => seq![],
        }
    }
}

/// The graphics processor that a line of `nvidia-smi` tells.
fn nvidia_gpu(line: &str) -> (r: Option<GpuInfo>)
    ensures
        match r {
            Some(gpu) => nvidia_line(line@) == Some(gpu@),
            None => nvidia_line(line@) is None,
        },
{
    let parts = split::pieces(line, ',');
    let ghost all = chars::texts(parts@);
    proof {
        assert(all.len() == parts@.len());
        assert(forall|i: int| 0 <= i < all.len() ==> #[trigger] all[i] == parts@[i]@);
    }
    let name = trim::trimmed(&parts[0]);
    if name.as_str().is_empty() {
        return None;
    }
    let memory_bytes: Option<u64> = if parts.len() > 1 {
        match number::parsed(&trim::trimmed(&parts[1]), u64::MAX) {
            Some(n) => if n > 17_592_186_044_415 {
                Some(u64::MAX)
            } else {
                Some(n * 1_048_576)
            },
            None => None,
        }
    } else {
        None
    };
    let driver_version = if parts.len() > 2 {
        let version = trim::trimmed(&parts[2]);
        if version.as_str().is_empty() {
            None
        } else {
            Some(version)
        }
    } else {
        None
    };
    Some(GpuInfo { name, vendor: Some("NVIDIA".to_owned()), memory_bytes, driver_version })
}

/// Reads the graphics processors that `nvidia-smi` tells.
pub fn nvidia_smi_gpus(output: &str) -> (r: Vec<GpuInfo>)
    ensures
        gpu_views(r@) == nvidia_lines(split::lines(output@)),
{
    let lines = split::lines_of(output);
    let ghost all = chars::texts(lines@);
    let mut r: Vec<GpuInfo> = Vec::new();
    let mut i: usize = 0;
    while i < lines.len()
        invariant
            i <= lines.len(),
            all == chars::texts(lines@),
            gpu_views(r@) == nvidia_lines(all.take(i as int)),
        decreases lines.len() - i,
    {
        proof {
            assert(all.take(i + 1).drop_last() =~= all.take(i as int));
            assert(all.take(i + 1).last() == lines@[i as int]@);
        }
        if let Some(gpu) = nvidia_gpu(&lines[i]) {
            let ghost before = r@;
            r.push(gpu);
            proof {
                assert(gpu_views(r@) =~= gpu_views(before).push(gpu@));
            }
        }
        i += 1;
    }
    proof {
        assert(all.take(i as int) =~= all);
    }
    r
}

/// Whether a line of `lspci` tells of a graphics processor.
fn tells_display(line: &str) -> (r: bool)
    ensures
        r == is_display(line@),
{
    let words = edit::lowered(line);
    search::has(&words, "vga compatible controller") || search::has(&words, "3d controller")
        || search::has(&words, "display controller")
}

/// The graphics processor that a line of `lspci` tells.
fn display_gpu(line: &str) -> (r: GpuInfo)
    ensures
        r@ == pci_gpu(line@),
{
    let name = match split::cut_char(line, ':') {
        Some((_, rest)) => {
            let rest = trim::trimmed(&rest);
            if rest.as_str().is_empty() {
                "GPU".to_owned()
            } else {
                rest
            }
        },
        None => "GPU".to_owned(),
    };
    let words = edit::lowered(&name);
    let vendor = if search::has(&words, "nvidia") {
        Some("NVIDIA".to_owned())
    } else if search::has(&words, "advanced micro devices") || search::has(&words, "amd")
        || search::has(&words, "ati") {
        Some("AMD".to_owned())
    } else if search::has(&words, "intel") {
        Some("Intel".to_owned())
    } else {
        None
    };
    GpuInfo { name, vendor, memory_bytes: None, driver_version: None }
}

/// Reads the graphics processors that `lspci` tells.
pub fn linux_pci_gpus(output: &str) -> (r: Vec<GpuInfo>)
    ensures
        gpu_views(r@) == pci_lines(split::lines(output@)),
{
    let lines = split::lines_of(output);
    let ghost all = chars::texts(lines@);
    let mut r: Vec<GpuInfo> = Vec::new();
    let mut i: usize = 0;
    while i < lines.len()
        invariant
            i <= lines.len(),
            all == chars::texts(lines@),
            gpu_views(r@) == pci_lines(all.take(i as int)),
        decreases lines.len() - i,
    {
        proof {
            assert(all.take(i + 1).drop_last() =~= all.take(i as int));
            assert(all.take(i + 1).last() == lines@[i as int]@);
        }
        if tells_display(&lines[i]) {
            let gpu = display_gpu(&lines[i]);
            let ghost before = r@;
            r.push(gpu);
            proof {
                assert(gpu_views(r@) =~= gpu_views(before).push(gpu@));
            }
        }
        i += 1;
    }
    proof {
        assert(all.take(i as int) =~= all);
    }
    r
}

/// Reads the graphics processors of the node, over the output of `nvidia-smi` and `lspci`, where
/// they gave any.
pub fn collect_gpu_info(nvidia: Option<&str>, pci: Option<&str>) -> (r: Vec<GpuInfo>)
    ensures
        gpu_views(r@) == gpus(chars::opt_str(nvidia), chars::opt_str(pci)),
{
    if let Some(output) = nvidia {
        let found = nvidia_smi_gpus(output);
        proof {
            assert(gpu_views(found@).len() == found@.len());
        }
        if found.len() > 0 {
            return found;
        }
    }
    match pci {
        Some(output) => linux_pci_gpus(output),
        None => {
            let none: Vec<GpuInfo> = Vec::new();
            proof {
                assert(gpu_views(none@) =~= seq![]);
            }
            none
        },
    }
}

} // verus!
