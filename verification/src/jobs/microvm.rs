//! Running commands in virtual machines.

use crate::digest;
use crate::paths;
use crate::text::{ascii, chars, trim};
use vstd::prelude::*;
use vstd::utf8::encode_utf8;

pub mod commands;
pub mod guest;
pub mod image;
pub mod laws;
pub mod readiness;
pub mod run;
pub mod run_laws;

verus! {

/// The number of processors of a machine for which none is given.
pub const DEFAULT_CPU_COUNT: u8 = 2;

/// The memory of a machine for which none is given, in megabytes.
pub const DEFAULT_MEMORY_MB: u32 = 4096;

/// The port at which a machine of its own is reached.
pub const DEFAULT_SSH_PORT: u16 = 2222;

/// Runs a command in a virtual machine of its own.
///
/// The image is the one that the job named. The machine does not boot it: it boots the image that
/// `image::boot_image` finds in the environment.
pub struct MicrovmRunner {
    pub image: String,
    pub cpu: Option<u8>,
    pub memory_mb: Option<u32>,
}

/// Runs a command in the virtual machine of a project's environment.
///
/// The image is the one that the job named. The machine does not boot it: it boots the image that
/// `image::boot_image` finds in the environment.
pub struct ProjectMicrovmRunner {
    pub project_id: String,
    pub environment: String,
    pub image: String,
    pub cpu: Option<u8>,
    pub memory_mb: Option<u32>,
}

impl MicrovmRunner {
    /// A runner with an image and the size of its machine.
    pub fn new(image: String, cpu: Option<u8>, memory_mb: Option<u32>) -> (r: Self)
        ensures
            r == (MicrovmRunner { image, cpu, memory_mb }),
    {
        MicrovmRunner { image, cpu, memory_mb }
    }
}

impl ProjectMicrovmRunner {
    /// A runner for a project's environment with an image and the size of its machine.
    pub fn new(
        project_id: String,
        environment: String,
        image: String,
        cpu: Option<u8>,
        memory_mb: Option<u32>,
    ) -> (r: Self)
        ensures
            r == (ProjectMicrovmRunner { project_id, environment, image, cpu, memory_mb }),
    {
        ProjectMicrovmRunner { project_id, environment, image, cpu, memory_mb }
    }
}

/// The number of processors and the memory of a machine.
pub fn machine_size(cpu: Option<u8>, memory_mb: Option<u32>) -> (r: (u8, u32))
    ensures
        r.0 == (match cpu {
            Some(count) => count,
            None => DEFAULT_CPU_COUNT,
        }),
        r.1 == (match memory_mb {
            Some(size) => size,
            None => DEFAULT_MEMORY_MB,
        }),
{
    let count: u8 = match cpu {
        Some(count) => count,
        None => DEFAULT_CPU_COUNT,
    };
    let size: u32 = match memory_mb {
        Some(size) => size,
        None => DEFAULT_MEMORY_MB,
    };
    (count, size)
}

/// A character that stands for itself in the name of a file.
pub open spec fn kept(c: char) -> bool {
    ascii::alphanumeric(c) || c == '-' || c == '_'
}

/// A text with a dash in the place of each character that does not stand for itself.
pub open spec fn dashed(s: Seq<char>) -> Seq<char> {
    s.map_values(
        |c: char|
            if kept(c) {
                c
            } else {
                '-'
            },
    )
}

/// A text with one dash in the place of each run of dashes.
pub open spec fn single_dashes(s: Seq<char>) -> Seq<char>
    decreases s.len(),
{
    if s.len() == 0 {
        seq![]
    } else {
        let before = single_dashes(s.drop_last());
        if s.last() == '-' && before.len() > 0 && before.last() == '-' {
            before
        } else {
            before.push(s.last())
        }
    }
}

/// The name of a file for a text.
pub open spec fn segment(s: Seq<char>) -> Seq<char> {
    let inner = trim::trim_end_char(
        trim::trim_start_char(single_dashes(dashed(s)), '-'),
        '-',
    );
    if inner.len() == 0 {
        "default"@
    } else {
        inner
    }
}

/// All characters of a text stand for themselves in the name of a file.
pub open spec fn all_kept(s: Seq<char>) -> bool {
    forall|i: int| 0 <= i < s.len() ==> kept(#[trigger] s[i])
}

proof fn lemma_single_dashes(s: Seq<char>)
    requires
        all_kept(s),
    ensures
        all_kept(single_dashes(s)),
    decreases s.len(),
{
    if s.len() > 0 {
        let t = s.drop_last();
        assert(all_kept(t)) by {
            assert forall|i: int| 0 <= i < t.len() implies kept(#[trigger] t[i]) by {
                assert(kept(s[i]));
            }
        }
        lemma_single_dashes(t);
        assert(kept(s[s.len() - 1]));
    }
}

proof fn lemma_trim_keeps(s: Seq<char>)
    requires
        all_kept(s),
    ensures
        all_kept(trim::trim_start_char(s, '-')),
        all_kept(trim::trim_end_char(s, '-')),
    decreases s.len(),
{
    if s.len() > 0 {
        let first = s.drop_first();
        let last = s.drop_last();
        assert(all_kept(first)) by {
            assert forall|i: int| 0 <= i < first.len() implies kept(#[trigger] first[i]) by {
                assert(kept(s[i + 1]));
            }
        }
        assert(all_kept(last)) by {
            assert forall|i: int| 0 <= i < last.len() implies kept(#[trigger] last[i]) by {
                assert(kept(s[i]));
            }
        }
        lemma_trim_keeps(first);
        lemma_trim_keeps(last);
    }
}

/// The name of a file for a text is not empty, and holds letters, digits, dashes and underscores
/// alone: it names a file in the directory that it is joined to, and no other place.
pub proof fn segment_is_a_name(s: Seq<char>)
    ensures
        segment(s).len() > 0,
        all_kept(segment(s)),
{
    reveal_strlit("default");
    let d = dashed(s);
    assert(all_kept(d)) by {
        assert forall|i: int| 0 <= i < d.len() implies kept(#[trigger] d[i]) by {}
    }
    lemma_single_dashes(d);
    lemma_trim_keeps(single_dashes(d));
    lemma_trim_keeps(trim::trim_start_char(single_dashes(d), '-'));
}

/// Makes the name of a file for a text.
pub fn safe_path_segment(value: &str) -> (r: String)
    ensures
        r@ == segment(value@),
{
    let cs = chars::chars_of(value);
    let ghost d = dashed(value@);
    let mut out: Vec<char> = Vec::new();
    let mut i: usize = 0;
    while i < cs.len()
        invariant
            i <= cs.len(),
            cs@ == value@,
            d == dashed(value@),
            out@ == single_dashes(d.take(i as int)),
        decreases cs.len() - i,
    {
        let c: char = if ascii::is_alphanumeric(cs[i]) || cs[i] == '-' || cs[i] == '_' {
            cs[i]
        } else {
            '-'
        };
        proof {
            assert(d.take(i + 1).drop_last() =~= d.take(i as int));
            assert(d.take(i + 1).last() == c);
        }
        let count: usize = out.len();
        if !(c == '-' && count > 0 && out[count - 1] == '-') {
            out.push(c);
        }
        i += 1;
    }
    proof {
        assert(d.take(i as int) =~= d);
    }
    let all = chars::text_of(&out, 0, out.len());
    proof {
        assert(all@ =~= out@);
    }
    let inner = trim::trimmed_end_char(&trim::trimmed_start_char(&all, '-'), '-');
    if inner.as_str().is_empty() {
        "default".to_owned()
    } else {
        inner
    }
}

/// The digest of an address, by which what was fetched from it is found again.
pub open spec fn cache_key(url: Seq<char>) -> Seq<char> {
    digest::hex_text(digest::sha256(encode_utf8(url)))
}

/// The digest of an address, by which what was fetched from it is found again.
pub fn image_cache_key(url: &str) -> (r: String)
    ensures
        r@ == cache_key(url@),
        r@.len() == 64,
{
    digest::text_sha256_hex(url)
}

/// The name of a project's machine, over the digest that tells it from others.
pub open spec fn vm_key(project_id: Seq<char>, environment: Seq<char>, key: Seq<char>) -> Seq<
    char,
> {
    segment(project_id) + "-"@ + segment(environment) + "-"@ + key.take(12)
}

/// The name of a project's machine, over the digest that tells it from others.
pub fn project_vm_key_of(project_id: &str, environment: &str, key: &str) -> (r: String)
    requires
        key@.len() >= 12,
    ensures
        r@ == vm_key(project_id@, environment@, key@),
{
    let cs = chars::chars_of(key);
    let short = chars::text_of(&cs, 0, 12);
    proof {
        assert(short@ =~= key@.take(12));
    }
    let mut r = chars::cat3(&safe_path_segment(project_id), "-", &safe_path_segment(environment));
    r.append("-");
    r.append(&short);
    r
}

/// The name of the machine of a project's environment.
pub fn project_vm_key(project_id: &str, environment: &str) -> (r: String)
    ensures
        r@ == vm_key(project_id@, environment@, cache_key(project_id@ + ":"@ + environment@)),
{
    let key = image_cache_key(&chars::cat3(project_id, ":", environment));
    project_vm_key_of(project_id, environment, &key)
}

/// The port of a project's machine, over the digest of its name.
pub open spec fn ssh_port(digest: Seq<u8>) -> int {
    22_200 + (digest[0] * 256 + digest[1]) % 1_000
}

/// The port of a project's machine, over the digest of its name.
pub fn project_vm_ssh_port_of(digest: &Vec<u8>) -> (r: u16)
    requires
        digest@.len() >= 2,
    ensures
        r == ssh_port(digest@),
        22_200 <= r < 23_200,
{
    let value: u32 = digest[0] as u32 * 256 + digest[1] as u32;
    (22_200 + value % 1_000) as u16
}

/// The port at which a project's machine is reached. It lies between 22200 and 23199.
pub fn project_vm_ssh_port(vm_key: &str) -> (r: u16)
    ensures
        r == ssh_port(digest::sha256(encode_utf8(vm_key@))),
        22_200 <= r < 23_200,
{
    project_vm_ssh_port_of(&digest::sha256_of(vm_key.as_bytes()))
}

/// The files of a machine.
#[derive(Debug)]
pub struct VmFiles {
    pub root: String,
    pub overlay_image: String,
    pub ssh_dir: String,
    pub private_key: String,
    pub public_key: String,
    pub seed_iso: String,
    pub user_data: String,
    pub meta_data: String,
    pub workspace_tar: String,
}

/// The files of a machine lie in the directory `root`.
pub open spec fn files_in(files: VmFiles, root: Seq<char>, archive: Seq<char>) -> bool {
    &&& files.root@ == root
    &&& files.overlay_image@ == paths::join(root, "disk.qcow2"@)
    &&& files.ssh_dir@ == paths::join(root, "ssh"@)
    &&& files.private_key@ == paths::join(files.ssh_dir@, "id_ed25519"@)
    &&& files.public_key@ == paths::join(files.ssh_dir@, "id_ed25519.pub"@)
    &&& files.seed_iso@ == paths::join(root, "seed.iso"@)
    &&& files.user_data@ == paths::join(root, "seed.user-data"@)
    &&& files.meta_data@ == paths::join(root, "seed.meta-data"@)
    &&& files.workspace_tar@ == paths::join(root, archive)
}

/// The files of a machine in the directory `root`, with the workspace in the file `archive`.
fn files_of(root: String, archive: &str) -> (r: VmFiles)
    ensures
        files_in(r, root@, archive@),
{
    let ssh_dir = paths::path_join(&root, "ssh");
    VmFiles {
        overlay_image: paths::path_join(&root, "disk.qcow2"),
        private_key: paths::path_join(&ssh_dir, "id_ed25519"),
        public_key: paths::path_join(&ssh_dir, "id_ed25519.pub"),
        ssh_dir,
        seed_iso: paths::path_join(&root, "seed.iso"),
        user_data: paths::path_join(&root, "seed.user-data"),
        meta_data: paths::path_join(&root, "seed.meta-data"),
        workspace_tar: paths::path_join(&root, archive),
        root,
    }
}

/// The files of a machine that one attempt of a job has of its own.
pub fn microvm_files(state_dir: &str, job_id: &str, attempt_id: &str) -> (r: VmFiles)
    ensures
        files_in(
            r,
            paths::join(paths::join(paths::join(state_dir@, "microvm"@), job_id@), attempt_id@),
            "workspace.tar.gz"@,
        ),
{
    let root = paths::path_join(
        &paths::path_join(&paths::path_join(state_dir, "microvm"), job_id),
        attempt_id,
    );
    files_of(root, "workspace.tar.gz")
}

/// The files of the machine of a project's environment.
pub fn project_files(state_dir: &str, vm_key: &str, attempt_id: &str) -> (r: VmFiles)
    ensures
        files_in(
            r,
            paths::join(paths::join(paths::join(state_dir@, "microvm"@), "projects"@), vm_key@),
            "workspace-"@ + segment(attempt_id@) + ".tar.gz"@,
        ),
{
    let root = paths::path_join(
        &paths::path_join(&paths::path_join(state_dir, "microvm"), "projects"),
        vm_key,
    );
    files_of(root, &chars::cat3("workspace-", &safe_path_segment(attempt_id), ".tar.gz"))
}

} // verus!
