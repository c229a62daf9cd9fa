//! What holds of jobs wherever they run: which commands are run, by which runner, and what is
//! reported of them.

use crate::failure::{self, Failure};
use crate::jobs::host::{self, HostOutcome};
use crate::jobs::output::{self, ToolOutcome};
use crate::jobs::shell;
use crate::jobs::{
    self, CommandError, CommandSpec, ExecutionContext, JobExecutionResult, JobLogLine,
    JobLogStream, RunError, RunnerEnvironment, SelectedRunner,
};
use crate::text::laws;
use crate::text::{chars, edit, number, split, trim};
use vstd::prelude::*;

verus! {

/// A command is run where it has a first word that is not blank and all its variables have names
/// that a shell takes for variables, and then only; the first name of another kind is told.
pub proof fn valid_commands_are_run(command: CommandSpec, r: Result<(), CommandError>, i: int)
    requires
        jobs::validated(command, r),
        0 <= i <= command.env.pairs().len(),
        forall|j: int| 0 <= j < i ==> shell::variable_name((#[trigger] command.env.pairs()[j]).0),
    ensures
        command.argv@.len() == 0 || trim::trim(command.argv@[0]@).len() == 0 ==> r matches Err(
            CommandError::Empty,
        ),
        r is Ok ==> command.argv@.len() > 0 && trim::trim(command.argv@[0]@).len() > 0,
        command.argv@.len() > 0 && trim::trim(command.argv@[0]@).len() > 0 ==> {
            &&& i == command.env.pairs().len() ==> r is Ok
            &&& i < command.env.pairs().len() && !shell::variable_name(command.env.pairs()[i].0)
                ==> (r matches Err(CommandError::InvalidName(name)) && name@
                == command.env.pairs()[i].0)
        },
{
    assert(chars::texts(command.argv@).len() == command.argv@.len());
    if command.argv@.len() > 0 {
        assert(chars::texts(command.argv@)[0] == command.argv@[0]@);
    }
    lemma_first_invalid(command.env.pairs(), i);
}

proof fn lemma_first_invalid(pairs: Seq<(Seq<char>, String)>, i: int)
    requires
        0 <= i <= pairs.len(),
        forall|j: int| 0 <= j < i ==> shell::variable_name((#[trigger] pairs[j]).0),
    ensures
        i == pairs.len() ==> jobs::first_invalid(pairs) is None,
        i < pairs.len() && !shell::variable_name(pairs[i].0) ==> jobs::first_invalid(pairs) == Some(
            pairs[i].0,
        ),
    decreases pairs.len(),
{
    if pairs.len() > 0 {
        let d = pairs.drop_last();
        if i < d.len() {
            assert forall|j: int| 0 <= j < i implies shell::variable_name((#[trigger] d[j]).0) by {
                assert(d[j] == pairs[j]);
            }
            lemma_first_invalid(d, i);
            assert(d[i] == pairs[i]);
        } else {
            assert forall|j: int| 0 <= j < d.len() implies shell::variable_name(
                (#[trigger] d[j]).0,
            ) by {
                assert(d[j] == pairs[j]);
            }
            lemma_first_invalid(d, d.len() as int);
            if i == pairs.len() {
                assert(shell::variable_name(pairs[i - 1].0));
            }
        }
    }
}

/// A runner takes a command with at least one word and a time limit between a second and an hour,
/// and no other; the time limit is looked at first.
pub proof fn runs_are_limited(
    timeout_seconds: u64,
    command: Seq<String>,
    r: Result<(), RunError>,
)
    requires
        jobs::run_checked(timeout_seconds, command, r),
    ensures
        r is Ok <==> 0 < timeout_seconds <= 60 * 60 && command.len() > 0,
        r == Err::<(), RunError>(RunError::Timeout) <==> timeout_seconds == 0 || timeout_seconds
            > 60 * 60,
{
}

/// Each environment has its own runner, with the size and the names that it asks for.
pub proof fn environment_decides_the_runner(environment: RunnerEnvironment)
    ensures
        environment matches RunnerEnvironment::Microvm { image, cpu, memory_mb } ==> (
        jobs::runner_of(environment) matches SelectedRunner::Microvm(runner) && runner.image
            == image && runner.cpu == cpu && runner.memory_mb == memory_mb),
        environment matches RunnerEnvironment::ProjectMicrovm {
            project_id,
            environment: name,
            cpu,
            memory_mb,
            ..
        } ==> (jobs::runner_of(environment) matches SelectedRunner::ProjectMicrovm(runner)
            && runner.project_id == project_id && runner.environment == name && runner.cpu == cpu
            && runner.memory_mb == memory_mb),
        environment matches RunnerEnvironment::Container { image, cpu, memory_mb } ==> (
        jobs::runner_of(environment) matches SelectedRunner::Container(runner) && runner.image
            == image && runner.cpu == cpu && runner.memory_mb == memory_mb),
{
}

/// A report names the directory, and holds what the command wrote, without the blanks around it
/// and up to two thousand characters of each stream.
pub proof fn report_holds_the_output(cwd: Seq<char>, stdout: Seq<char>, stderr: Seq<char>)
    ensures
        ({
            let out = trim::trim(stdout);
            let err = trim::trim(stderr);
            let said = output::report(cwd, stdout, stderr);
            &&& (cwd + ": "@).is_prefix_of(said)
            &&& out.len() == 0 && err.len() == 0 ==> said == cwd + ": "@
                + "command completed with no output"@
            &&& 0 < out.len() <= 2_000 && err.len() == 0 ==> said == cwd + ": "@ + out
            &&& out.len() == 0 && 0 < err.len() <= 2_000 ==> said == cwd + ": "@ + err
            &&& 0 < out.len() <= 2_000 && 0 < err.len() <= 2_000 ==> said == cwd + ": "@
                + "stdout:\n"@ + out + "\n\nstderr:\n"@ + err
            &&& out.len() > 2_000 && err.len() == 0 ==> said == cwd + ": "@ + out.take(2_000)
                + "..."@
        }),
{
    let out = trim::trim(stdout);
    let err = trim::trim(stderr);
    let said = output::report(cwd, stdout, stderr);
    let head = cwd + ": "@;
    assert(said.take(head.len() as int) =~= head);
    if 0 < out.len() <= 2_000 && 0 < err.len() <= 2_000 {
        assert(said =~= cwd + ": "@ + "stdout:\n"@ + out + "\n\nstderr:\n"@ + err);
    }
    if out.len() > 2_000 && err.len() == 0 {
        assert(said =~= cwd + ": "@ + out.take(2_000) + "..."@);
    }
}

/// A job has succeeded where its command ended well, and else failed.
pub proof fn end_of_the_command_decides(
    result: JobExecutionResult,
    cwd: Seq<char>,
    success: bool,
    stdout: Seq<u8>,
    stderr: Seq<u8>,
)
    requires
        output::tells(result, cwd, success, stdout, stderr),
    ensures
        success ==> result.status@ == "succeeded"@,
        !success ==> result.status@ == "failed"@,
        result.message is Some,
{
}

/// A tool has done its work where it ended well; else there is a failure, which keeps the causes
/// where the tool did not start.
pub proof fn end_of_the_tool_decides(
    outcome: ToolOutcome,
    not_started: Seq<char>,
    failed: Seq<char>,
    r: Result<(), Failure>,
)
    requires
        output::tool_told(outcome, not_started, failed, r),
    ensures
        r is Ok <==> outcome == ToolOutcome::Exited(true),
        outcome == ToolOutcome::Exited(false) ==> (r matches Err(failure) && failure.texts()
            == seq![failed]),
        outcome matches ToolOutcome::NotRun(cause) ==> (r matches Err(failure)
            && failure.texts().first() == not_started && failure.texts().skip(1) == cause.texts()),
{
    if let ToolOutcome::NotRun(cause) = outcome {
        assert((seq![not_started] + cause.texts()).skip(1) =~= cause.texts());
    }
}

/// A program on the host that ended decides how the job ended; one that was given up is a failure,
/// and one that took too long is told in the job's log too.
pub proof fn end_of_the_program_decides(
    ctx: ExecutionContext,
    workdir: Seq<char>,
    outcome: HostOutcome,
    r: (Option<JobLogLine>, Result<JobExecutionResult, Failure>),
)
    requires
        host::run_ended(ctx, workdir, outcome, r),
    ensures
        r.1 is Ok <==> outcome is Exited,
        outcome matches HostOutcome::Exited { success, stdout, stderr } ==> (r.1 matches Ok(result)
            && result.status@ == (if success {
            "succeeded"@
        } else {
            "failed"@
        }) && chars::opt_text(result.message) == Some(
            output::report(workdir, stdout@, stderr@),
        )),
        r.0 is Some <==> outcome is TimedOut,
        r.0 matches Some(line) ==> line.job_id == ctx.job_id && line.attempt_id == ctx.attempt_id
            && line.stream == JobLogStream::Stderr && (r.1 matches Err(failure)
            && failure.texts() == seq![line.line@]),
        r.0 matches Some(line) ==> line.line@ == "command timed out after "@ + number::decimal(
            ctx.timeout_seconds as nat,
        ) + " seconds"@,
        outcome matches HostOutcome::Broken(error) ==> (r.1 matches Err(failure)
            && error@.is_suffix_of(failure.texts()[0])),
{
    if let HostOutcome::Broken(error) = outcome {
        let said = "command execution failed: "@ + error@;
        assert(said.skip(said.len() - error@.len()) =~= error@);
    }
}

/// A program that could not be started is told in the job's log, and the failure keeps its causes.
pub proof fn missing_program_is_told(
    ctx: ExecutionContext,
    program: Seq<char>,
    workdir: Seq<char>,
    error: Failure,
    r: (JobLogLine, Failure),
)
    requires
        error.causes@.len() > 0,
        host::not_spawned(ctx, program, workdir, error, r),
    ensures
        r.0.job_id == ctx.job_id,
        r.0.attempt_id == ctx.attempt_id,
        r.0.stream == JobLogStream::Stderr,
        r.0.line@ == error.texts()[0],
        r.1.texts().skip(1) == error.texts(),
{
    assert((seq![host::not_started(program, workdir, ctx.attempt_id@)] + error.texts()).skip(1)
        =~= error.texts());
}

/// The streams of a command have their names.
pub proof fn streams_have_their_names()
    ensures
        JobLogStream::Stdout.name() == "stdout"@,
        JobLogStream::Stderr.name() == "stderr"@,
{
}

/// The line of a failure holds all its causes in their order, with colons between them, and leaves
/// out none but those that say again what the one before said.
pub proof fn failure_is_told_in_full(causes: Seq<Seq<char>>)
    ensures
        failure::no_repeats(causes) ==> failure::chain_text(causes) == split::join(causes, ": "@),
        forall|i: int|
            0 <= i < causes.len() ==> failure::without_repeats(causes).contains(
                #[trigger] causes[i],
            ),
        forall|cause: Seq<char>|
            failure::without_repeats(causes).contains(cause) ==> causes.contains(cause),
    decreases causes.len(),
{
    lemma_all_told(causes);
    if failure::no_repeats(causes) {
        lemma_no_repeats(causes);
    }
}

proof fn lemma_all_told(causes: Seq<Seq<char>>)
    ensures
        forall|i: int|
            0 <= i < causes.len() ==> failure::without_repeats(causes).contains(
                #[trigger] causes[i],
            ),
        forall|cause: Seq<char>|
            failure::without_repeats(causes).contains(cause) ==> causes.contains(cause),
    decreases causes.len(),
{
    if causes.len() > 0 {
        let d = causes.drop_last();
        let last = causes.len() - 1;
        lemma_all_told(d);
        let before = failure::without_repeats(d);
        let all = failure::without_repeats(causes);
        assert forall|i: int| 0 <= i < causes.len() implies all.contains(#[trigger] causes[i]) by {
            if i < last {
                assert(d[i] == causes[i]);
                assert(before.contains(d[i]));
                let k = choose|k: int| 0 <= k < before.len() && before[k] == d[i];
                assert(all[k] == before[k]);
            } else {
                assert(all[all.len() - 1] == causes[i]);
            }
        }
        assert forall|cause: Seq<char>| all.contains(cause) implies causes.contains(cause) by {
            let k = choose|k: int| 0 <= k < all.len() && all[k] == cause;
            if k < before.len() {
                assert(before[k] == cause);
                assert(before.contains(cause));
                assert(d.contains(cause));
                let i = choose|i: int| 0 <= i < d.len() && d[i] == cause;
                assert(causes[i] == cause);
            } else {
                assert(causes[last] == cause);
            }
        }
    }
}

proof fn lemma_no_repeats(causes: Seq<Seq<char>>)
    requires
        failure::no_repeats(causes),
    ensures
        failure::without_repeats(causes) == causes,
    decreases causes.len(),
{
    if causes.len() > 0 {
        let d = causes.drop_last();
        assert forall|i: int| 0 < i < d.len() implies #[trigger] d[i] != d[i - 1] by {
            assert(d[i] == causes[i] && d[i - 1] == causes[i - 1]);
        }
        lemma_no_repeats(d);
        if d.len() > 0 {
            assert(causes[causes.len() - 1] != causes[causes.len() - 2]);
        }
        assert(d.push(causes.last()) =~= causes);
    } else {
        assert(failure::without_repeats(causes) =~= causes);
    }
}

} // verus!
