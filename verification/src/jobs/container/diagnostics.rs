//! What is said of containers that fail.

use crate::bytes;
use crate::text::{chars, edit, search, split, trim};
use vstd::prelude::*;

verus! {

/// What a command wrote, over the texts of its streams.
pub open spec fn raw_report(stdout: Seq<char>, stderr: Seq<char>) -> Seq<char> {
    let out = trim::trim(stdout);
    let err = trim::trim(stderr);
    if out.len() == 0 && err.len() == 0 {
        "no output"@
    } else if err.len() == 0 {
        "stdout:\n"@ + out
    } else if out.len() == 0 {
        "stderr:\n"@ + err
    } else {
        "stdout:\n"@ + out + "\n\nstderr:\n"@ + err
    }
}

/// What a command wrote, over the texts of its streams.
pub fn summarize_raw_command_texts(stdout: &str, stderr: &str) -> (r: String)
    ensures
        r@ == raw_report(stdout@, stderr@),
{
    let out = trim::trimmed(stdout);
    let err = trim::trimmed(stderr);
    if err.as_str().is_empty() {
        if out.as_str().is_empty() {
            "no output".to_owned()
        } else {
            chars::cat("stdout:\n", &out)
        }
    } else if out.as_str().is_empty() {
        chars::cat("stderr:\n", &err)
    } else {
        let mut both = chars::cat3("stdout:\n", &out, "\n\nstderr:\n");
        both.append(&err);
        both
    }
}

/// What a command wrote, over the bytes of its streams.
pub fn summarize_raw_command_output(stdout: &[u8], stderr: &[u8]) -> (r: String)
    ensures
        r@ == raw_report(bytes::utf8_lossy(stdout@), bytes::utf8_lossy(stderr@)),
{
    summarize_raw_command_texts(&bytes::lossy_text(stdout), &bytes::lossy_text(stderr))
}

/// The end of a log.
pub fn tail_for_log(value: &str, max_chars: usize) -> (r: String)
    ensures
        r@ == edit::shorten_front(value@, max_chars as nat),
{
    edit::shortened_front(value, max_chars)
}

/// The part of the log at `path` that is told. `Err` says why the log could not be read.
pub open spec fn excerpt(path: Seq<char>, log: Result<Seq<char>, Seq<char>>) -> Seq<char> {
    match log {
        Ok(text) => if trim::trim(text).len() == 0 {
            "lxc log "@ + path + " was empty"@
        } else {
            edit::shorten_front(trim::trim(text), 4_000)
        },
        Err(error) => "failed to read lxc log "@ + path + ": "@ + error,
    }
}

/// The part of the log at `path` that is told.
pub fn lxc_log_excerpt(path: &str, log: Result<&str, &str>) -> (r: String)
    ensures
        r@ == excerpt(
            path@,
            match log {
                Ok(text) => Ok(text@),
                Err(error) => Err(error@),
            },
        ),
{
    match log {
        Ok(text) => {
            let text = trim::trimmed(text);
            if text.as_str().is_empty() {
                chars::cat3("lxc log ", path, " was empty")
            } else {
                tail_for_log(&text, 4_000)
            }
        },
        Err(error) => {
            let mut r = chars::cat3("failed to read lxc log ", path, ": ");
            r.append(error);
            r
        },
    }
}

/// How to make the file that serialises the allocation of network devices writable.
pub const NICS_HINT: &'static str =
    "\nHint: lxc-user-nic needs write access to /run/lxc/nics to serialize unprivileged veth allocation. If statix-agent is running under systemd with ProtectSystem=strict, add ReadWritePaths=/run/lxc and restart the service.";

/// How to make the directory in which containers are mounted writable.
pub const ROOTFS_HINT: &'static str =
    "\nHint: LXC needs write access to its package rootfs mountpoint under /usr/lib/*/lxc/rootfs. If statix-agent is running under systemd with ProtectSystem=strict, add ReadWritePaths for the distro multiarch LXC rootfs path and restart the service.";

/// What to do where `/proc` is mounted with `noatime`.
pub const NOATIME_HINT: &'static str =
    " The statix-agent process also sees /proc mounted with noatime; unprivileged LXC can fail to mount proc from that parent mount. Remount /proc with relatime and make the matching /etc/fstab change persistent.";

/// What to look for where `/proc` is not mounted with `noatime`.
pub const KERNEL_HINT: &'static str =
    " If ReadWritePaths is already applied, check whether systemd ProtectKernelTunables is enabled for statix-agent; it can make proc/sys paths read-only in the service mount namespace and block LXC's procfs mount. Also check the host /proc mount options with `findmnt -no OPTIONS /proc`; unprivileged LXC can fail when /proc is mounted with noatime instead of relatime.";

/// What to look for where it is not known how `/proc` is mounted.
pub const UNKNOWN_HINT: &'static str =
    " If ReadWritePaths is already applied, check whether systemd ProtectKernelTunables is enabled for statix-agent; it can make proc/sys paths read-only in the service mount namespace and block LXC's procfs mount. Also check the host /proc mount options; unprivileged LXC can fail when /proc is mounted with noatime instead of relatime.";

/// The log tells that network devices could not be allocated.
pub open spec fn nics_failed(log: Seq<char>) -> bool {
    &&& search::contains(log, "lxc-user-nic failed to configure requested network"@)
    &&& search::contains(log, "Read-only file system"@)
    &&& search::contains(log, "/run/lxc/nics"@)
}

/// The log tells that `/proc` could not be mounted in the container.
pub open spec fn proc_failed(log: Seq<char>) -> bool {
    &&& search::contains(log, "Failed to mount \"proc\""@)
    &&& search::contains(log, "/usr/lib/"@)
    &&& search::contains(log, "/lxc/rootfs/proc"@)
    &&& search::contains(log, "Operation not permitted"@)
}

/// What to say of a container that does not start, where the log does not tell that network
/// devices could not be allocated.
pub open spec fn host_failure(log: Seq<char>, proc_uses_noatime: Option<bool>) -> Seq<char> {
    if proc_failed(log) {
        log + ROOTFS_HINT@ + (match proc_uses_noatime {
            Some(true) => NOATIME_HINT@,
            Some(false) => KERNEL_HINT@,
            None => UNKNOWN_HINT@,
        })
    } else {
        log
    }
}

/// What to say of a container that does not start: the log, and what may help.
pub open spec fn start_failure(log: Seq<char>, proc_uses_noatime: Option<bool>) -> Seq<char> {
    if nics_failed(log) {
        log + NICS_HINT@
    } else {
        host_failure(log, proc_uses_noatime)
    }
}

/// What to say of a container that does not start, where the log does not tell that network
/// devices could not be allocated.
pub fn lxc_start_failure_message_with_host_context(
    log_excerpt: &str,
    proc_uses_noatime: Option<bool>,
) -> (r: String)
    ensures
        r@ == host_failure(log_excerpt@, proc_uses_noatime),
{
    if search::has(log_excerpt, "Failed to mount \"proc\"") && search::has(log_excerpt, "/usr/lib/")
        && search::has(log_excerpt, "/lxc/rootfs/proc") && search::has(
        log_excerpt,
        "Operation not permitted",
    ) {
        let hint = match proc_uses_noatime {
            Some(noatime) => if noatime {
                NOATIME_HINT
            } else {
                KERNEL_HINT
            },
            None => UNKNOWN_HINT,
        };
        chars::cat3(log_excerpt, ROOTFS_HINT, hint)
    } else {
        log_excerpt.to_owned()
    }
}

/// What to say of a container that does not start: the log, and what may help.
pub fn lxc_start_failure_message(log_excerpt: &str, proc_uses_noatime: Option<bool>) -> (r: String)
    ensures
        r@ == start_failure(log_excerpt@, proc_uses_noatime),
{
    if search::has(log_excerpt, "lxc-user-nic failed to configure requested network")
        && search::has(log_excerpt, "Read-only file system") && search::has(
        log_excerpt,
        "/run/lxc/nics",
    ) {
        return chars::cat(log_excerpt, NICS_HINT);
    }
    lxc_start_failure_message_with_host_context(log_excerpt, proc_uses_noatime)
}

/// A line of the list of mounts tells of `/proc`.
pub open spec fn is_proc(line: Seq<char>) -> bool {
    let fields = split::words(line);
    fields.len() > 4 && fields[4] == "/proc"@
}

/// A line of the list of mounts has the option `noatime`.
pub open spec fn has_noatime(line: Seq<char>) -> bool {
    let fields = split::words(line);
    fields.len() > 5 && split::split(fields[5], ',').contains("noatime"@)
}

/// Some line of the list of mounts tells of `/proc`.
pub open spec fn lists_proc(lines: Seq<Seq<char>>) -> bool {
    exists|i: int| 0 <= i < lines.len() && is_proc(#[trigger] lines[i])
}

/// Some line of the list of mounts tells of `/proc` and has the option `noatime`.
pub open spec fn lists_noatime(lines: Seq<Seq<char>>) -> bool {
    exists|i: int|
        0 <= i < lines.len() && is_proc(#[trigger] lines[i]) && has_noatime(lines[i])
}

/// Whether `/proc` is mounted with `noatime`, as far as the list of mounts tells it.
pub open spec fn noatime(mountinfo: Seq<char>) -> Option<bool> {
    let lines = split::lines(mountinfo);
    if lists_noatime(lines) {
        Some(true)
    } else if lists_proc(lines) {
        Some(false)
    } else {
        None
    }
}

/// Whether a list holds a text.
fn holds(list: &Vec<String>, text: &str) -> (r: bool)
    ensures
        r == chars::texts(list@).contains(text@),
{
    let mut i: usize = 0;
    while i < list.len()
        invariant
            i <= list.len(),
            forall|j: int| 0 <= j < i ==> #[trigger] chars::texts(list@)[j] != text@,
        decreases list.len() - i,
    {
        if chars::same(&list[i], text) {
            proof {
                assert(chars::texts(list@)[i as int] == text@);
            }
            return true;
        }
        i += 1;
    }
    false
}

/// Whether `/proc` is mounted with `noatime`, as far as the list of mounts tells it. The list is
/// none where it could not be read.
pub fn proc_mount_uses_noatime(mountinfo: Option<&str>) -> (r: Option<bool>)
    ensures
        r == match mountinfo {
            Some(text) => noatime(text@),
            None => None,
        },
{
    let lines = match mountinfo {
        Some(text) => split::lines_of(text),
        None => {
            return None;
        },
    };
    let ghost all = chars::texts(lines@);
    let mut found = false;
    let mut i: usize = 0;
    while i < lines.len()
        invariant
            i <= lines.len(),
            all == chars::texts(lines@),
            mountinfo is Some,
            all == split::lines(mountinfo->Some_0@),
            found == lists_proc(all.take(i as int)),
            !lists_noatime(all.take(i as int)),
        decreases lines.len() - i,
    {
        let ghost before = all.take(i as int);
        let ghost now = all.take(i + 1);
        let fields = split::words_of(&lines[i]);
        proof {
            assert(now =~= before.push(all[i as int]));
            assert(all[i as int] == lines@[i as int]@);
            assert(chars::texts(fields@).len() == fields@.len());
            assert forall|j: int| 0 <= j < before.len() implies now[j] == before[j] by {}
        }
        if fields.len() > 4 && chars::same(&fields[4], "/proc") {
            found = true;
            proof {
                assert(chars::texts(fields@)[4] == fields@[4]@);
                assert(is_proc(now[i as int]));
                assert(lists_proc(now));
            }
            if fields.len() > 5 {
                let options = split::pieces(&fields[5], ',');
                proof {
                    assert(chars::texts(fields@)[5] == fields@[5]@);
                }
                if holds(&options, "noatime") {
                    proof {
                        assert(is_proc(all[i as int]) && has_noatime(all[i as int]));
                    }
                    return Some(true);
                }
            }
            proof {
                assert(!has_noatime(all[i as int]));
            }
        } else {
            proof {
                if fields@.len() > 4 {
                    assert(chars::texts(fields@)[4] == fields@[4]@);
                }
                assert(!is_proc(all[i as int]));
            }
        }
        proof {
            if lists_proc(now) && !is_proc(all[i as int]) {
                let j = choose|j: int| 0 <= j < now.len() && is_proc(#[trigger] now[j]);
                assert(is_proc(before[j]));
            }
            if lists_proc(before) {
                let j = choose|j: int| 0 <= j < before.len() && is_proc(#[trigger] before[j]);
                assert(is_proc(now[j]));
            }
            if lists_noatime(now) {
                let j = choose|j: int|
                    0 <= j < now.len() && is_proc(#[trigger] now[j]) && has_noatime(now[j]);
                assert(is_proc(before[j]) && has_noatime(before[j]));
            }
        }
        i += 1;
    }
    proof {
        assert(all.take(i as int) =~= all);
    }
    if found {
        Some(false)
    } else {
        None
    }
}

/// The part of a log that is told is bounded, however long the log is.
pub proof fn excerpt_is_bounded(path: Seq<char>, log: Seq<char>)
    ensures
        excerpt(path, Ok(log)).len() <= path.len() + 4_018,
{
    reveal_strlit("lxc log ");
    reveal_strlit(" was empty");
    edit::shortened_is_bounded(trim::trim(log), 4_000);
}

} // verus!
