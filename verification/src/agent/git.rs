//! Checking out a project's files.

use crate::bytes;
use crate::digest;
use crate::environment;
use crate::failure::Failure;
use crate::jobs::PreparedWorkspace;
use crate::paths;
use crate::text::{chars, number, split, trim};
use vstd::prelude::*;

verus! {

/// A step of a checkout.
#[derive(Debug, Clone, Copy, PartialEq, Eq, Structural)]
pub enum GitStep {
    /// Copies the repository, which is not there yet.
    Clone,
    /// Tells the repository, which is there, where it comes from.
    SetUrl,
    /// Fetches what the job asks for.
    Fetch,
    /// Asks for the commit that was fetched.
    Resolve,
    /// Brings the files of the commit.
    Checkout,
    /// Removes other files.
    Clean,
}

/// What is checked out, and where to.
#[derive(Debug)]
pub struct Checkout {
    pub repo_url: String,
    pub git_ref: String,
    pub commit_sha: String,
    pub repo_dir: String,
}

/// The directory of a repository.
pub open spec fn repo_path(state_dir: Seq<char>, repo_url: Seq<char>) -> Seq<char> {
    paths::join(
        paths::join(paths::join(state_dir, "jobs"@), "git"@),
        number::hex_digits(digest::default_hash(repo_url) as nat, 16),
    )
}

/// The directory that holds the repositories.
pub fn repositories_dir(state_dir: &str) -> (r: String)
    ensures
        r@ == paths::join(paths::join(state_dir@, "jobs"@), "git"@),
{
    paths::path_join(&paths::path_join(state_dir, "jobs"), "git")
}

/// The directory of a repository.
pub fn repo_dir(state_dir: &str, repo_url: &str) -> (r: String)
    ensures
        r@ == repo_path(state_dir@, repo_url@),
{
    paths::path_join(&repositories_dir(state_dir), &digest::hash_key(repo_url))
}

/// The directory in which a job runs: the one that it names in the repository, else the whole.
pub open spec fn workdir_of(repo_dir: Seq<char>, subdir: Option<Seq<char>>) -> Seq<char> {
    match environment::non_blank(subdir) {
        Some(path) => paths::join(repo_dir, path),
        None => repo_dir,
    }
}

/// The directory in which a job runs.
pub fn job_workdir(repo_dir: &str, subdir: Option<&str>) -> (r: String)
    ensures
        r@ == workdir_of(repo_dir@, chars::opt_str(subdir)),
{
    match environment::non_blank_text(subdir) {
        Some(path) => paths::path_join(repo_dir, &path),
        None => repo_dir.to_owned(),
    }
}

/// The workspace of a job, where its directory is there; else what to say.
pub fn prepared_workspace(workdir: String, is_dir: bool) -> (r: Result<PreparedWorkspace, String>)
    ensures
        match r {
            Ok(workspace) => is_dir && workspace.workdir == workdir,
            Err(message) => !is_dir && message@ == "resolved workdir does not exist: "@ + workdir@,
        },
{
    if is_dir {
        Ok(PreparedWorkspace { workdir })
    } else {
        Err(chars::cat("resolved workdir does not exist: ", &workdir))
    }
}

/// The arguments of `git` for a step.
pub open spec fn args_of(checkout: Checkout, step: GitStep) -> Seq<Seq<char>> {
    match step {
        GitStep::Clone => seq![
            "clone"@,
            "--no-checkout"@,
            checkout.repo_url@,
            checkout.repo_dir@,
        ],
        GitStep::SetUrl => seq!["remote"@, "set-url"@, "origin"@, checkout.repo_url@],
        GitStep::Fetch => seq!["fetch"@, "--depth"@, "1"@, "origin"@, checkout.git_ref@],
        GitStep::Resolve => seq!["rev-parse"@, "FETCH_HEAD"@],
        GitStep::Checkout => seq!["checkout"@, "--force"@, checkout.commit_sha@],
        GitStep::Clean => seq!["clean"@, "-fdx"@],
    }
}

/// What to say where a step fails.
pub open spec fn context_of(checkout: Checkout, step: GitStep) -> Seq<char> {
    match step {
        GitStep::Clone => "failed to clone "@ + checkout.repo_url@,
        GitStep::SetUrl => "failed to update origin url for "@ + checkout.repo_dir@,
        GitStep::Fetch => "failed to fetch "@ + checkout.git_ref@ + " from "@ + checkout.repo_url@,
        GitStep::Resolve => "failed to resolve FETCH_HEAD"@,
        GitStep::Checkout => "failed to checkout "@ + checkout.commit_sha@,
        GitStep::Clean => "failed to clean checkout"@,
    }
}

/// The step after a step that was done; none at the end.
pub open spec fn after(step: GitStep) -> Option<GitStep> {
    match step {
        GitStep::Clone => Some(GitStep::Fetch),
        GitStep::SetUrl => Some(GitStep::Fetch),
        GitStep::Fetch => Some(GitStep::Resolve),
        GitStep::Resolve => Some(GitStep::Checkout),
        GitStep::Checkout => Some(GitStep::Clean),
        GitStep::Clean => None,
    }
}

/// What to say where another commit was fetched than the job asks for.
pub open spec fn mismatch(checkout: Checkout, fetched: Seq<char>) -> Seq<char> {
    "fetched commit "@ + trim::trim(fetched) + " does not match expected "@ + trim::trim(
        checkout.commit_sha@,
    ) + " for ref "@ + checkout.git_ref@
}

/// What follows a step that gave a text, or failed with causes: the next step, or the end; or the
/// causes of the checkout's failure.
pub open spec fn next(
    checkout: Checkout,
    step: GitStep,
    gave: Result<Seq<char>, Seq<Seq<char>>>,
) -> Result<Option<GitStep>, Seq<Seq<char>>> {
    match gave {
        Ok(text) => if step == GitStep::Resolve && trim::trim(text) != trim::trim(
            checkout.commit_sha@,
        ) {
            Err(seq![mismatch(checkout, text)])
        } else {
            Ok(after(step))
        },
        Err(causes) => Err(seq![context_of(checkout, step)] + causes),
    }
}

impl Checkout {
    /// The first step, for a repository that is there or not.
    pub fn first_step(&self, repo_exists: bool) -> (r: GitStep)
        ensures
            r == (if repo_exists {
                GitStep::SetUrl
            } else {
                GitStep::Clone
            }),
    {
        if repo_exists {
            GitStep::SetUrl
        } else {
            GitStep::Clone
        }
    }

    /// The arguments of `git` for a step. But for a copy, a step runs in the repository.
    pub fn args(&self, step: GitStep) -> (r: (Vec<String>, bool))
        ensures
            chars::texts(r.0@) == args_of(*self, step),
            r.1 == (step != GitStep::Clone),
    {
        let mut args = chars::no_texts();
        match step {
            GitStep::Clone => {
                chars::push_text(&mut args, "clone");
                chars::push_text(&mut args, "--no-checkout");
                chars::push_text(&mut args, &self.repo_url);
                chars::push_text(&mut args, &self.repo_dir);
                return (args, false);
            },
            GitStep::SetUrl => {
                chars::push_text(&mut args, "remote");
                chars::push_text(&mut args, "set-url");
                chars::push_text(&mut args, "origin");
                chars::push_text(&mut args, &self.repo_url);
            },
            GitStep::Fetch => {
                chars::push_text(&mut args, "fetch");
                chars::push_text(&mut args, "--depth");
                chars::push_text(&mut args, "1");
                chars::push_text(&mut args, "origin");
                chars::push_text(&mut args, &self.git_ref);
            },
            GitStep::Resolve => {
                chars::push_text(&mut args, "rev-parse");
                chars::push_text(&mut args, "FETCH_HEAD");
            },
            GitStep::Checkout => {
                chars::push_text(&mut args, "checkout");
                chars::push_text(&mut args, "--force");
                chars::push_text(&mut args, &self.commit_sha);
            },
            GitStep::Clean => {
                chars::push_text(&mut args, "clean");
                chars::push_text(&mut args, "-fdx");
            },
        }
        (args, true)
    }

    /// What to say where a step fails.
    fn context(&self, step: GitStep) -> (r: String)
        ensures
            r@ == context_of(*self, step),
    {
        match step {
            GitStep::Clone => chars::cat("failed to clone ", &self.repo_url),
            GitStep::SetUrl => chars::cat("failed to update origin url for ", &self.repo_dir),
            GitStep::Fetch => {
                let mut r = chars::cat3("failed to fetch ", &self.git_ref, " from ");
                r.append(&self.repo_url);
                r
            },
            GitStep::Resolve => "failed to resolve FETCH_HEAD".to_owned(),
            GitStep::Checkout => chars::cat("failed to checkout ", &self.commit_sha),
            GitStep::Clean => "failed to clean checkout".to_owned(),
        }
    }

    /// Decides what follows a step that gave a text or failed.
    pub fn advance(&self, step: GitStep, gave: Result<String, Failure>) -> (r: Result<
        Option<GitStep>,
        Failure,
    >)
        ensures
            ({
                let told = match gave {
                    Ok(text) => Ok::<Seq<char>, Seq<Seq<char>>>(text@),
                    Err(cause) => Err(cause.texts()),
                };
                match r {
                    Ok(following) => next(*self, step, told) == Ok::<
                        Option<GitStep>,
                        Seq<Seq<char>>,
                    >(following),
                    Err(failure) => next(*self, step, told) == Err::<
                        Option<GitStep>,
                        Seq<Seq<char>>,
                    >(failure.texts()),
                }
            }),
    {
        let text = match gave {
            Ok(text) => text,
            Err(cause) => {
                return Err(cause.context(self.context(step)));
            },
        };
        match step {
            GitStep::Clone => Ok(Some(GitStep::Fetch)),
            GitStep::SetUrl => Ok(Some(GitStep::Fetch)),
            GitStep::Fetch => Ok(Some(GitStep::Resolve)),
            GitStep::Resolve => {
                let fetched = trim::trimmed(&text);
                let expected = trim::trimmed(&self.commit_sha);
                if chars::same(&fetched, &expected) {
                    Ok(Some(GitStep::Checkout))
                } else {
                    let mut said = chars::cat3("fetched commit ", &fetched, " does not match expected ");
                    said.append(&expected);
                    said.append(" for ref ");
                    said.append(&self.git_ref);
                    Err(Failure::new(said))
                }
            },
            GitStep::Checkout => Ok(Some(GitStep::Clean)),
            GitStep::Clean => Ok(None),
        }
    }
}

/// What came of running `git`: it could not be run, or it ended, well or not, and wrote these
/// bytes.
pub enum GitOutcome {
    NotRun(Failure),
    Exited { success: bool, stdout: Vec<u8>, stderr: Vec<u8> },
}

/// What a run of `git` gave: a text, or the causes of its failure.
pub open spec fn given(args: Seq<Seq<char>>, outcome: GitOutcome) -> Result<
    Seq<char>,
    Seq<Seq<char>>,
> {
    match outcome {
        GitOutcome::Exited { success, stdout, stderr } => if success {
            Ok(trim::trim(bytes::utf8_lossy(stdout@)))
        } else {
            let said = trim::trim(bytes::utf8_lossy(stderr@));
            Err(
                seq![
                    "git "@ + split::join(args, " "@) + " failed: "@ + (if said.len() == 0 {
                        "unknown error"@
                    } else {
                        said
                    }),
                ],
            )
        },
        GitOutcome::NotRun(cause) => Err(cause.texts()),
    }
}

/// Decides what a run of `git` gave.
pub fn run_git_output(args: &Vec<String>, outcome: GitOutcome) -> (r: Result<String, Failure>)
    ensures
        match r {
            Ok(text) => given(chars::texts(args@), outcome) == Ok::<Seq<char>, Seq<Seq<char>>>(
                text@,
            ),
            Err(failure) => given(chars::texts(args@), outcome) == Err::<
                Seq<char>,
                Seq<Seq<char>>,
            >(failure.texts()),
        },
{
    match outcome {
        GitOutcome::Exited { success, stdout, stderr } => {
            if success {
                return Ok(trim::trimmed(&bytes::lossy_text(stdout.as_slice())));
            }
            let said = trim::trimmed(&bytes::lossy_text(stderr.as_slice()));
            let mut message = chars::cat3("git ", &split::joined(args, " "), " failed: ");
            if said.as_str().is_empty() {
                message.append("unknown error");
            } else {
                message.append(&said);
            }
            Err(Failure::new(message))
        },
        GitOutcome::NotRun(cause) => Err(cause),
    }
}

/// The steps that a checkout takes are the ones in their order, and the files of a commit are
/// brought only when it was found to be the one that the job asks for.
pub proof fn commit_is_checked(
    checkout: Checkout,
    step: GitStep,
    gave: Result<Seq<char>, Seq<Seq<char>>>,
)
    ensures
        next(checkout, step, gave) matches Ok(Some(GitStep::Checkout)) ==> {
            &&& step == GitStep::Resolve
            &&& gave matches Ok(fetched) && trim::trim(fetched) == trim::trim(checkout.commit_sha@)
        },
        next(checkout, step, gave) matches Ok(None) ==> step == GitStep::Clean,
        next(checkout, step, gave) matches Ok(Some(GitStep::Clean)) ==> step == GitStep::Checkout,
{
}

/// A checkout fetches right after its first step, whichever that is; it asks for the commit right
/// after it fetched, and only then. It takes no first step again.
pub proof fn commit_is_fetched(
    checkout: Checkout,
    step: GitStep,
    gave: Result<Seq<char>, Seq<Seq<char>>>,
    text: Seq<char>,
)
    ensures
        next(checkout, GitStep::Clone, Ok(text)) == Ok::<Option<GitStep>, Seq<Seq<char>>>(
            Some(GitStep::Fetch),
        ),
        next(checkout, GitStep::SetUrl, Ok(text)) == Ok::<Option<GitStep>, Seq<Seq<char>>>(
            Some(GitStep::Fetch),
        ),
        next(checkout, GitStep::Fetch, Ok(text)) == Ok::<Option<GitStep>, Seq<Seq<char>>>(
            Some(GitStep::Resolve),
        ),
        next(checkout, step, gave) matches Ok(Some(GitStep::Resolve)) ==> step == GitStep::Fetch
            && gave is Ok,
        next(checkout, step, gave) matches Ok(Some(GitStep::Fetch)) ==> gave is Ok && (step
            == GitStep::Clone || step == GitStep::SetUrl),
        !(next(checkout, step, gave) matches Ok(Some(GitStep::Clone))),
        !(next(checkout, step, gave) matches Ok(Some(GitStep::SetUrl))),
{
}

/// A checkout goes on where git did what it was told and gave the right commit: it brings the
/// files, removes others, and then has ended. Any failure of git fails it, and keeps its causes.
pub proof fn checkout_goes_on(
    checkout: Checkout,
    step: GitStep,
    text: Seq<char>,
    causes: Seq<Seq<char>>,
)
    ensures
        trim::trim(text) == trim::trim(checkout.commit_sha@) ==> next(
            checkout,
            GitStep::Resolve,
            Ok(text),
        ) == Ok::<Option<GitStep>, Seq<Seq<char>>>(Some(GitStep::Checkout)),
        trim::trim(text) != trim::trim(checkout.commit_sha@) ==> next(
            checkout,
            GitStep::Resolve,
            Ok(text),
        ) is Err,
        next(checkout, GitStep::Checkout, Ok(text)) == Ok::<Option<GitStep>, Seq<Seq<char>>>(
            Some(GitStep::Clean),
        ),
        next(checkout, GitStep::Clean, Ok(text)) == Ok::<Option<GitStep>, Seq<Seq<char>>>(None),
        next(checkout, step, Err(causes)) matches Err(all) && all.len() == causes.len() + 1
            && all.skip(1) == causes,
{
    assert((seq![context_of(checkout, step)] + causes).skip(1) =~= causes);
}

/// Each step names what the job asks for: the repository is copied from the job's address into
/// its directory, its address is set to the job's, what is fetched is the job's ref, and what is
/// checked out is the job's commit.
pub proof fn steps_name_the_jobs_commit(checkout: Checkout)
    ensures
        args_of(checkout, GitStep::Clone)[0] == "clone"@,
        args_of(checkout, GitStep::Clone).drop_last().last() == checkout.repo_url@,
        args_of(checkout, GitStep::Clone).last() == checkout.repo_dir@,
        args_of(checkout, GitStep::Clone).contains("--no-checkout"@),
        args_of(checkout, GitStep::SetUrl).take(3) == seq!["remote"@, "set-url"@, "origin"@],
        args_of(checkout, GitStep::SetUrl).last() == checkout.repo_url@,
        args_of(checkout, GitStep::Fetch)[0] == "fetch"@,
        args_of(checkout, GitStep::Fetch).drop_last().last() == "origin"@,
        args_of(checkout, GitStep::Fetch).last() == checkout.git_ref@,
        args_of(checkout, GitStep::Resolve)[0] == "rev-parse"@,
        args_of(checkout, GitStep::Resolve).last() == "FETCH_HEAD"@,
        args_of(checkout, GitStep::Checkout)[0] == "checkout"@,
        args_of(checkout, GitStep::Checkout).contains("--force"@),
        args_of(checkout, GitStep::Checkout).last() == checkout.commit_sha@,
        args_of(checkout, GitStep::Clean)[0] == "clean"@,
        args_of(checkout, GitStep::Clean).last() == "-fdx"@,
{
    assert(args_of(checkout, GitStep::Clone)[1] == "--no-checkout"@);
    assert(args_of(checkout, GitStep::Checkout)[1] == "--force"@);
    assert(args_of(checkout, GitStep::SetUrl).take(3) =~= seq!["remote"@, "set-url"@, "origin"@]);
}

/// Git is believed where it ends well, and then gives what it wrote, without the blanks around
/// it; where it does not, the failure tells the arguments.
pub proof fn git_is_believed_where_it_ends_well(args: Seq<Seq<char>>, outcome: GitOutcome)
    ensures
        given(args, outcome) is Ok <==> (outcome matches GitOutcome::Exited { success, .. }
            && success),
        outcome matches GitOutcome::Exited { success, stdout, .. } ==> (success ==> given(
            args,
            outcome,
        ) == Ok::<Seq<char>, Seq<Seq<char>>>(trim::trim(bytes::utf8_lossy(stdout@)))),
        outcome matches GitOutcome::Exited { success, stderr, .. } ==> (!success && trim::trim(
            bytes::utf8_lossy(stderr@),
        ).len() > 0 ==> {
            &&& given(args, outcome) matches Err(causes)
            &&& causes.len() == 1
            &&& ("git "@ + split::join(args, " "@) + " failed: "@).is_prefix_of(causes[0])
            &&& trim::trim(bytes::utf8_lossy(stderr@)).is_suffix_of(causes[0])
        }),
        outcome matches GitOutcome::NotRun(cause) ==> given(args, outcome) == Err::<
            Seq<char>,
            Seq<Seq<char>>,
        >(cause.texts()),
{
    if let GitOutcome::Exited { success, stdout, stderr } = outcome {
        let said = trim::trim(bytes::utf8_lossy(stderr@));
        let head = "git "@ + split::join(args, " "@) + " failed: "@;
        assert((head + said).take(head.len() as int) =~= head);
        assert((head + said).skip(head.len() as int) =~= said);
        assert(head.is_prefix_of(head + said));
        assert(said.is_suffix_of(head + said));
    }
}

/// A job runs in the whole repository where it names no directory in it, or only blanks; else in
/// the directory that it names, without the blanks around the name.
pub proof fn job_runs_where_it_says(repo_dir: Seq<char>, subdir: Option<Seq<char>>)
    ensures
        subdir is None ==> workdir_of(repo_dir, subdir) == repo_dir,
        subdir matches Some(name) ==> (trim::trim(name).len() == 0 ==> workdir_of(repo_dir, subdir)
            == repo_dir),
        subdir matches Some(name) ==> (trim::trim(name).len() > 0 ==> workdir_of(repo_dir, subdir)
            == paths::join(repo_dir, trim::trim(name))),
{
}

proof fn lemma_hex_length(n: nat, width: nat)
    ensures
        number::hex_digits(n, width).len() == width,
        forall|i: int| 0 <= i < width ==> #[trigger] number::hex_digits(n, width)[i] != '/',
    decreases width,
{
    if width > 0 {
        lemma_hex_length(n / 16, (width - 1) as nat);
    }
}

/// A repository lies in a directory of its own, of one component, among those of the agent's
/// state; its name depends on the address of the repository alone.
pub proof fn repository_has_its_directory(
    state_dir: Seq<char>,
    other_dir: Seq<char>,
    repo_url: Seq<char>,
)
    requires
        state_dir.len() > 0,
        state_dir.last() != '/',
        other_dir.len() > 0,
        other_dir.last() != '/',
    ensures
        (state_dir + "/jobs/git/"@).is_prefix_of(repo_path(state_dir, repo_url)),
        repo_path(state_dir, repo_url).len() == state_dir.len() + 26,
        forall|i: int|
            state_dir.len() + 10 <= i < repo_path(state_dir, repo_url).len() ==> #[trigger] repo_path(
                state_dir,
                repo_url,
            )[i] != '/',
        repo_path(state_dir, repo_url).skip(state_dir.len() as int) == repo_path(
            other_dir,
            repo_url,
        ).skip(other_dir.len() as int),
{
    reveal_strlit("/");
    reveal_strlit("jobs");
    reveal_strlit("git");
    reveal_strlit("/jobs/git/");
    let name = number::hex_digits(digest::default_hash(repo_url) as nat, 16);
    lemma_hex_length(digest::default_hash(repo_url) as nat, 16);
    assert(name[0] != '/');
    let path = repo_path(state_dir, repo_url);
    let other = repo_path(other_dir, repo_url);
    assert(path =~= state_dir + "/jobs/git/"@ + name);
    assert(other =~= other_dir + "/jobs/git/"@ + name);
    let head = state_dir + "/jobs/git/"@;
    assert(path.take(head.len() as int) =~= head);
    assert forall|i: int| state_dir.len() + 10 <= i < path.len() implies #[trigger] path[i]
        != '/' by {
        assert(path[i] == name[i - state_dir.len() - 10]);
    }
    assert(path.skip(state_dir.len() as int) =~= other.skip(other_dir.len() as int));
}

} // verus!
