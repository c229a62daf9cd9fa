//! The bundle of a project's files, and where it is unpacked.

use crate::agent::DeploymentBundle;
use crate::digest;
use crate::failure::Failure;
use crate::jobs::output::{self, ToolOutcome};
use crate::paths;
use crate::text::{ascii, chars, edit, number, search, trim};
use vstd::prelude::*;

verus! {

/// The address at which the server tells where a bundle is found: the path `path` of the server
/// at `api_base_url`, with no part `/api` twice.
pub open spec fn api_url(api_base_url: Seq<char>, path: Seq<char>) -> Seq<char> {
    let base = trim::trim_end_char(api_base_url, '/');
    let rest = if "/api"@.is_suffix_of(base) {
        trim::trim_start_text(path, "/api"@)
    } else {
        path
    };
    base + "/"@ + trim::trim_start_char(rest, '/')
}

/// The address at which the server tells where a bundle is found.
pub fn deployment_api_url(api_base_url: &str, path: &str) -> (r: String)
    ensures
        r@ == api_url(api_base_url@, path@),
{
    let base = trim::trimmed_end_char(api_base_url, '/');
    let rest = if search::ends(&base, "/api") {
        trim::trimmed_start_text(path, "/api")
    } else {
        path.to_owned()
    };
    chars::cat3(&base, "/", &trim::trimmed_start_char(&rest, '/'))
}

/// A character of the name of a job's directory.
pub open spec fn segment_char(c: char) -> char {
    if ascii::alphanumeric(c) || c == '-' || c == '_' || c == '.' {
        c
    } else {
        '_'
    }
}

/// The name of a job's directory.
pub open spec fn segment(s: Seq<char>) -> Seq<char> {
    s.map_values(|c: char| segment_char(c))
}

/// The name of a job's directory.
pub fn safe_path_segment(value: &str) -> (r: String)
    ensures
        r@ == segment(value@),
{
    let cs = chars::chars_of(value);
    let mut r = String::new();
    let mut i: usize = 0;
    while i < cs.len()
        invariant
            i <= cs.len(),
            cs@ == value@,
            r@ == segment(value@).take(i as int),
        decreases cs.len() - i,
    {
        let c: char = if ascii::is_alphanumeric(cs[i]) || cs[i] == '-' || cs[i] == '_' || cs[i]
            == '.' {
            cs[i]
        } else {
            '_'
        };
        r.push(c);
        proof {
            assert(segment(value@).take(i + 1) =~= segment(value@).take(i as int).push(c));
        }
        i += 1;
    }
    proof {
        assert(segment(value@).take(i as int) =~= segment(value@));
    }
    r
}

/// A character that stands in the name of a directory as it is.
pub open spec fn kept(c: char) -> bool {
    'a' <= c <= 'z' || 'A' <= c <= 'Z' || '0' <= c <= '9' || c == '-' || c == '_' || c == '.'
}

/// The name of a job's directory holds no separator: it is one component of a path. Letters,
/// digits, dashes, underscores and dots stand as they are, and all else is an underscore.
pub proof fn segment_is_one_component(s: Seq<char>)
    ensures
        segment(s).len() == s.len(),
        forall|i: int| 0 <= i < segment(s).len() ==> #[trigger] segment(s)[i] != '/',
        forall|i: int|
            0 <= i < s.len() ==> #[trigger] segment(s)[i] == (if kept(s[i]) {
                s[i]
            } else {
                '_'
            }),
{
}

/// The places of a deployment's files.
#[derive(Debug)]
pub struct DeploymentFiles {
    pub root: String,
    pub job_root: String,
    pub archive: String,
    pub workdir: String,
}

/// The places of a deployment's files.
pub fn deployment_files(state_dir: &str, job_id: &str) -> (r: DeploymentFiles)
    ensures
        r.root@ == paths::join(paths::join(state_dir@, "jobs"@), "deployments"@),
        r.job_root@ == paths::join(r.root@, segment(job_id@)),
        r.archive@ == paths::join(r.job_root@, "project.tar.zst"@),
        r.workdir@ == paths::join(r.job_root@, "workspace"@),
{
    let root = paths::path_join(&paths::path_join(state_dir, "jobs"), "deployments");
    let job_root = paths::path_join(&root, &safe_path_segment(job_id));
    DeploymentFiles {
        archive: paths::path_join(&job_root, "project.tar.zst"),
        workdir: paths::path_join(&job_root, "workspace"),
        root,
        job_root,
    }
}

/// The arguments with which `tar` unpacks a bundle.
pub fn extract_args(archive: &str, workdir: &str) -> (r: Vec<String>)
    ensures
        chars::texts(r@) == seq!["--zstd"@, "-xf"@, archive@, "-C"@, workdir@],
{
    let mut args = chars::no_texts();
    chars::push_text(&mut args, "--zstd");
    chars::push_text(&mut args, "-xf");
    chars::push_text(&mut args, archive);
    chars::push_text(&mut args, "-C");
    chars::push_text(&mut args, workdir);
    args
}

/// Decides what follows when `tar` has unpacked a bundle, or has not and ended with `status`.
pub fn extracted(outcome: ToolOutcome, status: &str) -> (r: Result<(), Failure>)
    ensures
        output::tool_told(
            outcome,
            "failed to launch tar"@,
            "tar failed to extract deployment bundle with status "@ + status@,
            r,
        ),
{
    output::tool_result(
        outcome,
        "failed to launch tar".to_owned(),
        chars::cat("tar failed to extract deployment bundle with status ", status),
    )
}

/// What the server tells of a bundle that is downloaded.
#[derive(Debug)]
pub struct DownloadSession {
    pub url: String,
    pub sha256: String,
    pub size_bytes: u64,
}

/// Why a bundle that was downloaded is not used.
#[derive(Debug)]
pub enum BundleError {
    Size { downloaded: u64, expected: u64 },
    Digest { downloaded: String, expected: String },
}

impl BundleError {
    /// What the error says.
    pub open spec fn text(self) -> Seq<char> {
        match self {
            BundleError::Size { downloaded, expected } =>
                "deployment bundle size mismatch: downloaded "@ + number::decimal(
                downloaded as nat,
            ) + ", expected "@ + number::decimal(expected as nat),
            BundleError::Digest { downloaded, expected } =>
                "deployment bundle sha256 mismatch: downloaded "@ + downloaded@ + ", expected "@
                + expected@,
        }
    }

    /// What the error says.
    pub fn message(&self) -> (r: String)
        ensures
            r@ == self.text(),
    {
        match self {
            BundleError::Size { downloaded, expected } => {
                let mut r = chars::cat3(
                    "deployment bundle size mismatch: downloaded ",
                    &number::decimal_text(*downloaded),
                    ", expected ",
                );
                r.append(&number::decimal_text(*expected));
                r
            },
            BundleError::Digest { downloaded, expected } => {
                let mut r = chars::cat3(
                    "deployment bundle sha256 mismatch: downloaded ",
                    downloaded,
                    ", expected ",
                );
                r.append(expected);
                r
            },
        }
    }
}

/// The size of a bundle is the one that the job and the server tell.
pub open spec fn size_agrees(size: nat, bundle: DeploymentBundle, session: DownloadSession) -> bool {
    size == bundle.size_bytes && size == session.size_bytes
}

/// The digest of a bundle, in hexadecimal of either case, is the one that the job and the server
/// tell.
pub open spec fn digest_agrees(
    actual: Seq<char>,
    bundle: DeploymentBundle,
    session: DownloadSession,
) -> bool {
    edit::same_ignoring_case(actual, bundle.sha256@) && edit::same_ignoring_case(
        actual,
        session.sha256@,
    )
}

/// Checks the size and the digest of a bundle that was downloaded.
pub fn check_digest(
    size: u64,
    actual_sha: &str,
    bundle: &DeploymentBundle,
    session: &DownloadSession,
) -> (r: Result<(), BundleError>)
    ensures
        match r {
            Ok(()) => size_agrees(size as nat, *bundle, *session) && digest_agrees(
                actual_sha@,
                *bundle,
                *session,
            ),
            Err(BundleError::Size { downloaded, expected }) => {
                &&& !size_agrees(size as nat, *bundle, *session)
                &&& downloaded == size && expected == bundle.size_bytes
            },
            Err(BundleError::Digest { downloaded, expected }) => {
                &&& size_agrees(size as nat, *bundle, *session)
                &&& !digest_agrees(actual_sha@, *bundle, *session)
                &&& downloaded@ == actual_sha@ && expected == bundle.sha256
            },
        },
{
    if size != bundle.size_bytes || size != session.size_bytes {
        return Err(BundleError::Size { downloaded: size, expected: bundle.size_bytes });
    }
    if !edit::equal_ignoring_case(actual_sha, &bundle.sha256) || !edit::equal_ignoring_case(
        actual_sha,
        &session.sha256,
    ) {
        return Err(
            BundleError::Digest {
                downloaded: actual_sha.to_owned(),
                expected: bundle.sha256.clone(),
            },
        );
    }
    Ok(())
}

/// Checks a bundle that was downloaded: it is used only where its size and its digest are those
/// that the job and the server tell.
pub fn check_bundle(content: &[u8], bundle: &DeploymentBundle, session: &DownloadSession) -> (r:
    Result<(), BundleError>)
    ensures
        ({
            let actual = digest::hex_text(digest::sha256(content@));
            match r {
                Ok(()) => size_agrees(content@.len(), *bundle, *session) && digest_agrees(
                    actual,
                    *bundle,
                    *session,
                ),
                Err(BundleError::Size { downloaded, expected }) => {
                    &&& !size_agrees(content@.len(), *bundle, *session)
                    &&& downloaded == content@.len() && expected == bundle.size_bytes
                },
                Err(BundleError::Digest { downloaded, expected }) => {
                    &&& size_agrees(content@.len(), *bundle, *session)
                    &&& !digest_agrees(actual, *bundle, *session)
                    &&& downloaded@ == actual && expected == bundle.sha256
                },
            }
        }),
{
    let size: u64 = content.len() as u64;
    check_digest(size, &digest::sha256_hex(content), bundle, session)
}

/// What to say where the server does not tell where a bundle is found; `status` is its answer in
/// text.
pub fn session_failure(status: &str, body: &str) -> (r: String)
    ensures
        r@ == "deployment bundle download session failed ("@ + status@ + "): "@ + body@,
{
    let mut r = chars::cat3("deployment bundle download session failed (", status, "): ");
    r.append(body);
    r
}

} // verus!
