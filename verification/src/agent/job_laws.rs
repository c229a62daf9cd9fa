//! What jobs come to: the machine and the command of a test, the bundle of a deployment, and the
//! request for an update.

use crate::agent::bundle::{self, DownloadSession};
use crate::agent::test_job::{self, PlannedRun};
use crate::agent::update::{self, UpdateOutcome, UpdateStep};
use crate::agent::{DeploymentBundle, JobEnvironment, JobExecutionConfig, TestJob};
use crate::bytes;
use crate::config::AgentConfig;
use crate::environment::{self, Environment};
use crate::failure::Failure;
use crate::jobs::shell;
use crate::jobs::{ExecutionContext, JobExecutionResult, RunnerEnvironment};
use crate::text::{ascii, chars, edit, search, trim};
use vstd::prelude::*;

verus! {

/// Each part of a job's machine is the one that the job asks for; where it asks for none, the one
/// that the agent is configured with.
pub proof fn job_decides_its_machine(config: AgentConfig, asked: Option<JobEnvironment>)
    ensures
        asked matches Some(JobEnvironment::Microvm { image, cpu, memory_mb }) ==> {
            let machine = test_job::machine(config, asked);
            &&& image matches Some(name) ==> machine.image == name@
            &&& cpu is Some ==> machine.cpu == cpu
            &&& memory_mb is Some ==> machine.memory_mb == memory_mb
            &&& image is None ==> machine.image == config.microvm_default_image@
            &&& cpu is None ==> machine.cpu == Some(config.microvm_default_cpu)
            &&& memory_mb is None ==> machine.memory_mb == Some(config.microvm_default_memory_mb)
        },
        asked is None ==> {
            let machine = test_job::machine(config, asked);
            &&& machine.image == config.microvm_default_image@
            &&& machine.cpu == Some(config.microvm_default_cpu)
            &&& machine.memory_mb == Some(config.microvm_default_memory_mb)
        },
{
}

/// A job runs under the names and the time limit that it asks for; where it asks for none, under
/// its own names, and for half an hour.
pub proof fn job_decides_its_names(
    execution: Option<JobExecutionConfig>,
    job_id: Seq<char>,
    attempt_id: Seq<char>,
    timeout_seconds: Option<u64>,
    context: ExecutionContext,
)
    requires
        test_job::context_of(execution, job_id, attempt_id, timeout_seconds, context),
    ensures
        execution is None ==> context.job_id@ == job_id && context.attempt_id@ == attempt_id,
        execution matches Some(asked) ==> {
            &&& asked.job_id matches Some(id) ==> context.job_id@ == id@
            &&& asked.attempt_id matches Some(id) ==> context.attempt_id@ == id@
            &&& asked.job_id is None ==> context.job_id@ == job_id
            &&& asked.attempt_id is None ==> context.attempt_id@ == attempt_id
        },
        timeout_seconds matches Some(seconds) ==> context.timeout_seconds == seconds,
        timeout_seconds is None ==> context.timeout_seconds == 30 * 60,
{
}

/// The tests of a project are run by `cargo test` with the arguments that the job gives, whatever
/// characters they hold: a shell takes up the toolchain, and then runs these words in its place.
pub proof fn tests_run_with_their_arguments(args: Seq<Seq<char>>)
    ensures
        ({
            let command = test_job::test_command(args);
            let first =
                "if [ -f \"$HOME/.cargo/env\" ]; then . \"$HOME/.cargo/env\"; fi; exec "@;
            &&& command.len() == 3
            &&& command[0] == "bash"@
            &&& command[1] == "-lc"@
            &&& first.is_prefix_of(command[2])
            &&& shell::shell_words(command[2].skip(first.len() as int)) == Some(
                seq!["cargo"@, "test"@] + args,
            )
        }),
{
    let first = "if [ -f \"$HOME/.cargo/env\" ]; then . \"$HOME/.cargo/env\"; fi; exec "@;
    let words = seq!["cargo"@, "test"@] + args;
    shell::command_is_read_back(words);
    let script = first + shell::command_text(words);
    assert(script.take(first.len() as int) =~= first);
    assert(script.skip(first.len() as int) =~= shell::command_text(words));
}

/// A project's tests run in a machine of their own, of the size that the job asks for, with the
/// job's arguments, and under the job's name.
pub proof fn tests_run_in_their_own_machine(
    run: PlannedRun,
    config: AgentConfig,
    job_id: Seq<char>,
    job: TestJob,
)
    requires
        test_job::runs_tests(run, config, job_id, job),
    ensures
        run.environment matches RunnerEnvironment::Microvm { cpu, memory_mb, .. } && (
        job.execution is None ==> cpu == Some(config.microvm_default_cpu) && memory_mb == Some(
            config.microvm_default_memory_mb,
        )),
        job.execution matches Some(e) ==> (e.environment matches Some(JobEnvironment::Microvm {
            cpu: Some(n),
            ..
        }) ==> (run.environment matches RunnerEnvironment::Microvm { cpu, .. } && cpu == Some(n))),
        job.execution is None ==> run.context.job_id@ == job_id && run.context.attempt_id@
            == job_id,
        chars::texts(run.command@) == test_job::test_command(chars::texts(job.args@)),
{
}

/// A bundle of another size than the job or the server tells is not used, nor one with another
/// digest; the case of the digest's digits makes no difference.
pub proof fn bundle_is_what_was_announced(
    size: nat,
    actual: Seq<char>,
    bundle: DeploymentBundle,
    session: DownloadSession,
)
    ensures
        bundle::size_agrees(size, bundle, session) ==> size == bundle.size_bytes && size
            == session.size_bytes,
        size == bundle.size_bytes && size == session.size_bytes ==> bundle::size_agrees(
            size,
            bundle,
            session,
        ),
        bundle::digest_agrees(actual, bundle, session) ==> {
            &&& actual.len() == bundle.sha256@.len() == session.sha256@.len()
            &&& forall|i: int|
                0 <= i < actual.len() ==> ascii::lower(#[trigger] actual[i]) == ascii::lower(
                    bundle.sha256@[i],
                ) && ascii::lower(actual[i]) == ascii::lower(session.sha256@[i])
        },
        actual == bundle.sha256@ && actual == session.sha256@ ==> bundle::digest_agrees(
            actual,
            bundle,
            session,
        ),
{
    if bundle::digest_agrees(actual, bundle, session) {
        let a = edit::lower_text(actual);
        let b = edit::lower_text(bundle.sha256@);
        let c = edit::lower_text(session.sha256@);
        assert(a == b && a == c);
        assert(a.len() == actual.len() && b.len() == bundle.sha256@.len() && c.len()
            == session.sha256@.len());
        assert forall|i: int| 0 <= i < actual.len() implies ascii::lower(#[trigger] actual[i])
            == ascii::lower(bundle.sha256@[i]) && ascii::lower(actual[i]) == ascii::lower(
            session.sha256@[i],
        ) by {
            assert(a[i] == ascii::lower(actual[i]));
            assert(b[i] == ascii::lower(bundle.sha256@[i]));
            assert(c[i] == ascii::lower(session.sha256@[i]));
        }
    }
}

/// The address at which a bundle is found begins with that of the server, without slashes at its
/// end, and a slash; and a path that has no part `/api` stands behind it, without slashes before
/// it.
pub proof fn bundle_is_found_at_the_server(base: Seq<char>, path: Seq<char>)
    requires
        path.len() > 0,
        path[0] != '/',
        base.len() > 0,
        base.last() != '/',
    ensures
        bundle::api_url(base, path) == base + "/"@ + path,
        bundle::api_url(base + "/"@, path) == base + "/"@ + path,
        bundle::api_url(base, "/"@ + path) == base + "/"@ + path || "/api"@.is_prefix_of(
            "/"@ + path,
        ),
{
    reveal_strlit("/");
    reveal_strlit("/api");
    assert(trim::trim_end_char(base, '/') == base);
    let slashed = base + "/"@;
    assert(slashed.drop_last() =~= base);
    assert(trim::trim_end_char(slashed, '/') == base);
    assert(!"/api"@.is_prefix_of(path)) by {
        if "/api"@.is_prefix_of(path) {
            assert(path.subrange(0, 4)[0] == '/');
        }
    }
    assert(trim::trim_start_char(path, '/') == path);
    let rooted = "/"@ + path;
    assert(rooted.drop_first() =~= path);
    assert(trim::trim_start_char(rooted, '/') == path);
}

/// An update is asked for with the rights of the superuser only where the first command could not
/// be run, or was denied; it was started where the first command ended well, and failed where it
/// ended otherwise.
pub proof fn update_asks_the_superuser_last(
    service: Seq<char>,
    outcome: UpdateOutcome,
    step: UpdateStep,
)
    requires
        update::goes_on(service, outcome, step),
    ensures
        step is Started <==> (outcome matches UpdateOutcome::Exited { success, .. } && success),
        step is Sudo <==> outcome is NotRun || (outcome matches UpdateOutcome::Exited {
            success,
            stderr,
        } && !success && update::denied(bytes::utf8_lossy(stderr@))),
        step matches UpdateStep::Sudo { command, .. } ==> {
            &&& command.program@ == "sudo"@
            &&& chars::texts(command.args@).first() == "-n"@
            &&& chars::texts(command.args@).last() == service
            &&& chars::texts(command.args@).subrange(1, 3) == seq!["systemctl"@, "start"@]
        },
{
    if let UpdateStep::Sudo { command, .. } = step {
        assert(chars::texts(command.args@).subrange(1, 3) =~= seq!["systemctl"@, "start"@]);
    }
}

/// An update that the superuser was asked for was started where that command ended well, and then
/// only.
pub proof fn superuser_starts_the_update(
    service: Seq<char>,
    context: Seq<char>,
    outcome: UpdateOutcome,
    ended: Result<(), Failure>,
)
    requires
        update::sudo_ended(service, context, outcome, ended),
    ensures
        ended is Ok <==> (outcome matches UpdateOutcome::Exited { success, .. } && success),
        outcome matches UpdateOutcome::NotRun(cause) ==> (ended matches Err(failure)
            && failure.texts().first() == context && failure.texts().skip(1) == cause.texts()),
{
    if let UpdateOutcome::NotRun(cause) = outcome {
        assert((seq![context] + cause.texts()).skip(1) =~= cause.texts());
    }
}

/// A job that asks for an update succeeds where the update was started, and fails as that failed.
pub proof fn update_is_reported(
    requested: Result<(), Failure>,
    reported: Result<JobExecutionResult, Failure>,
)
    requires
        update::reports(requested, reported),
    ensures
        requested is Ok <==> reported is Ok,
        reported matches Ok(result) ==> result.status@ == "succeeded"@ && chars::opt_text(
            result.message,
        ) == Some("agent update requested"@),
        requested matches Err(failure) ==> reported == Err::<JobExecutionResult, Failure>(failure),
{
}

/// A text that says, in whatever case and whatever it says besides, that access or permission is
/// denied, or that authentication is required, is a denial.
pub proof fn denial_is_recognised(before: Seq<char>, phrase: Seq<char>, after: Seq<char>)
    requires
        edit::lower_text(phrase) == "access denied"@ || edit::lower_text(phrase)
            == "permission denied"@ || edit::lower_text(phrase)
            == "interactive authentication required"@,
    ensures
        update::denied(before + phrase + after),
{
    let said = edit::lower_text(before + phrase + after);
    let p = edit::lower_text(phrase);
    let i = before.len() as int;
    assert(said.subrange(i, i + p.len()) =~= p);
    assert(search::occurs_at(said, p, i));
}

/// The unit that updates the agent is the one that the environment names, as it names it; without
/// a name, or with a blank one, the agent's own.
pub proof fn update_service_is_named(env: &Environment)
    ensures
        environment::var(env, "STATIX_UPDATE_SERVICE"@) matches Some(name) ==> (trim::trim(
            name,
        ).len() > 0 ==> update::service_of(env) == name),
        environment::set_var(env, "STATIX_UPDATE_SERVICE"@) is None ==> update::service_of(env)
            == "statix-agent-update.service"@,
{
}

/// A text that says none of these is no denial.
pub proof fn other_text_is_no_denial(said: Seq<char>)
    requires
        !search::contains(edit::lower_text(said), "access denied"@),
        !search::contains(edit::lower_text(said), "permission denied"@),
        !search::contains(edit::lower_text(said), "interactive authentication required"@),
    ensures
        !update::denied(said),
{
}

/// What is said of an update that was not started names the unit, and what the command said; where
/// it said nothing, that the error is not known.
pub proof fn failed_update_is_told(service: Seq<char>, said: Seq<char>)
    ensures
        ("systemctl start "@ + service + " failed: "@).is_prefix_of(
            update::not_started(service, said),
        ),
        trim::trim(said).len() > 0 ==> trim::trim(said).is_suffix_of(
            update::not_started(service, said),
        ),
        trim::trim(said).len() == 0 ==> "unknown error"@.is_suffix_of(
            update::not_started(service, said),
        ),
{
    let text = update::not_started(service, said);
    let head = "systemctl start "@ + service + " failed: "@;
    assert(text.take(head.len() as int) =~= head);
    let tail = if trim::trim(said).len() == 0 {
        "unknown error"@
    } else {
        trim::trim(said)
    };
    assert(text.skip(text.len() - tail.len()) =~= tail);
}

/// The part `/api` that both the server's address and a path have stands once in the address that
/// is asked; where the server's address has none, the path keeps its own.
pub proof fn shared_part_stands_once(base: Seq<char>, rest: Seq<char>)
    requires
        base.len() > 0,
        base.last() != '/',
        rest.len() > 0,
        rest[0] != '/',
        !"/api"@.is_prefix_of("/"@ + rest),
    ensures
        "/api"@.is_suffix_of(base) ==> bundle::api_url(base, "/api"@ + ("/"@ + rest)) == base + "/"@
            + rest,
        !"/api"@.is_suffix_of(base) ==> bundle::api_url(base, "/api"@ + ("/"@ + rest)) == base
            + "/"@ + ("api"@ + ("/"@ + rest)),
{
    reveal_strlit("/");
    reveal_strlit("api");
    reveal_strlit("/api");
    let rooted = "/"@ + rest;
    let path = "/api"@ + rooted;
    assert(trim::trim_end_char(base, '/') == base);
    assert(path.subrange(0, 4) =~= "/api"@);
    assert(path.skip(4) =~= rooted);
    assert(trim::trim_start_text(rooted, "/api"@) == rooted);
    assert(trim::trim_start_text(path, "/api"@) == rooted);
    assert(rooted.drop_first() =~= rest);
    assert(trim::trim_start_char(rest, '/') == rest);
    assert(trim::trim_start_char(rooted, '/') == rest);
    let bare = "api"@ + rooted;
    assert(path.drop_first() =~= bare);
    assert(trim::trim_start_char(bare, '/') == bare);
    assert(trim::trim_start_char(path, '/') == bare);
}

} // verus!
