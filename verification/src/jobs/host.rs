//! Running commands on the host itself.

use crate::failure::Failure;
use crate::jobs::output;
use crate::jobs::{CommandSpec, ExecutionContext, JobExecutionResult, JobLogLine, JobLogStream};
use crate::string_map::StringMap;
use crate::text::{chars, number, split, trim};
use vstd::prelude::*;

verus! {

/// Runs a command on the host itself.
pub struct HostRunner;

/// A program to start.
#[derive(Debug)]
pub struct HostCommand {
    pub program: String,
    pub args: Vec<String>,
    pub cwd: String,
    pub env: StringMap<String>,
}

impl HostRunner {
    /// The program to start for a command, in the directory that the command names, else in the
    /// workspace.
    pub fn command(&self, command: &CommandSpec, workdir: &str) -> (r: HostCommand)
        requires
            command.argv@.len() > 0,
        ensures
            r.program@ == command.argv@[0]@,
            r.args@ == command.argv@.skip(1),
            r.env.pairs() == command.env.pairs(),
            r.cwd@ == (match command.cwd {
                Some(cwd) => cwd@,
                None => workdir@,
            }),
    {
        let mut args: Vec<String> = Vec::new();
        let mut i: usize = 1;
        while i < command.argv.len()
            invariant
                1 <= i <= command.argv.len(),
                args@ == command.argv@.subrange(1, i as int),
            decreases command.argv.len() - i,
        {
            args.push(command.argv[i].clone());
            i += 1;
        }
        proof {
            assert(args@ =~= command.argv@.skip(1));
        }
        let cwd = match &command.cwd {
            Some(cwd) => cwd.clone(),
            None => workdir.to_owned(),
        };
        HostCommand { program: command.argv[0].clone(), args, cwd, env: command.env.copy() }
    }
}

/// What to say where a program could not be started for an attempt.
pub open spec fn not_started(program: Seq<char>, workdir: Seq<char>, attempt: Seq<char>) -> Seq<
    char,
> {
    "failed to run "@ + program + " in "@ + workdir + " for attempt "@ + attempt
}

/// This follows where a program could not be started.
pub open spec fn not_spawned(
    ctx: ExecutionContext,
    program: Seq<char>,
    workdir: Seq<char>,
    error: Failure,
    r: (JobLogLine, Failure),
) -> bool {
    &&& r.0 == (JobLogLine {
        job_id: ctx.job_id,
        attempt_id: ctx.attempt_id,
        stream: JobLogStream::Stderr,
        line: error.causes@[0],
    })
    &&& r.1.texts() == seq![not_started(program, workdir, ctx.attempt_id@)] + error.texts()
}

/// What follows where a program could not be started: the line that the job's log gets, and the
/// failure of the job.
pub fn spawn_failed(ctx: &ExecutionContext, program: &str, workdir: &str, error: Failure) -> (r: (
    JobLogLine,
    Failure,
))
    requires
        error.causes@.len() > 0,
    ensures
        not_spawned(*ctx, program@, workdir@, error, r),
{
    let line = ctx.log_line(JobLogStream::Stderr, error.causes[0].clone());
    let mut said = chars::cat3("failed to run ", program, " in ");
    said.append(workdir);
    said.append(" for attempt ");
    said.append(&ctx.attempt_id);
    (line, error.context(said))
}

/// What came of a program that was started.
pub enum HostOutcome {
    /// It did not end in time.
    TimedOut,
    /// Its output could not be read or it could not be waited for, which says this.
    Broken(String),
    /// It ended, well or not, and wrote these texts.
    Exited { success: bool, stdout: String, stderr: String },
}

/// What to say where a program did not end in time.
pub open spec fn timeout_text(seconds: nat) -> Seq<char> {
    "command timed out after "@ + number::decimal(seconds) + " seconds"@
}

/// This follows when a program that was started has ended or was given up.
pub open spec fn run_ended(
    ctx: ExecutionContext,
    workdir: Seq<char>,
    outcome: HostOutcome,
    r: (Option<JobLogLine>, Result<JobExecutionResult, Failure>),
) -> bool {
    match outcome {
        HostOutcome::TimedOut => {
            &&& r.0 matches Some(line)
            &&& line.job_id == ctx.job_id && line.attempt_id == ctx.attempt_id
            &&& line.stream == JobLogStream::Stderr
            &&& line.line@ == timeout_text(ctx.timeout_seconds as nat)
            &&& r.1 matches Err(failure) && failure.texts() == seq![
                timeout_text(ctx.timeout_seconds as nat),
            ]
        },
        HostOutcome::Broken(error) => {
            &&& r.0 is None
            &&& r.1 matches Err(failure) && failure.texts() == seq![
                "command execution failed: "@ + error@,
            ]
        },
        HostOutcome::Exited { success, stdout, stderr } => {
            &&& r.0 is None
            &&& r.1 matches Ok(result) && result.status@ == output::status(success)
                && chars::opt_text(result.message) == Some(
                output::report(workdir, stdout@, stderr@),
            )
        },
    }
}

/// Decides what follows when a program that was started has ended or was given up: the line that
/// the job's log gets where it was given up, and how the job ended.
pub fn after_run(ctx: &ExecutionContext, workdir: &str, outcome: HostOutcome) -> (r: (
    Option<JobLogLine>,
    Result<JobExecutionResult, Failure>,
))
    ensures
        run_ended(*ctx, workdir@, outcome, r),
{
    match outcome {
        HostOutcome::TimedOut => {
            let said = chars::cat3(
                "command timed out after ",
                &number::decimal_text(ctx.timeout_seconds),
                " seconds",
            );
            let line = ctx.log_line(JobLogStream::Stderr, said.clone());
            (Some(line), Err(Failure::new(said)))
        },
        HostOutcome::Broken(error) => (
            None,
            Err(Failure::new(chars::cat("command execution failed: ", &error))),
        ),
        HostOutcome::Exited { success, stdout, stderr } => (
            None,
            Ok(output::command_result_of_texts(workdir, success, &stdout, &stderr)),
        ),
    }
}

/// Collects a stream of a program line by line.
#[derive(Debug)]
pub struct HostStream {
    pub lines: Vec<String>,
}

impl HostStream {
    /// A stream of which nothing was read.
    pub fn new() -> (r: Self)
        ensures
            chars::texts(r.lines@) == Seq::<Seq<char>>::empty(),
    {
        HostStream { lines: chars::no_texts() }
    }

    /// Takes in a line, with its end, and gives what the job's log gets of it.
    pub fn push(&mut self, ctx: &ExecutionContext, stream: JobLogStream, line: &str) -> (r:
        JobLogLine)
        ensures
            chars::texts(final(self).lines@) == chars::texts(old(self).lines@).push(
                trim::trim_line_end(line@),
            ),
            r.job_id == ctx.job_id,
            r.attempt_id == ctx.attempt_id,
            r.stream == stream,
            r.line@ == trim::trim_line_end(line@),
    {
        let value = trim::trimmed_line_end(line);
        chars::push_text(&mut self.lines, &value);
        ctx.log_line(stream, value)
    }

    /// The text of the stream.
    pub fn text(&self) -> (r: String)
        ensures
            r@ == split::join(chars::texts(self.lines@), "\n"@),
    {
        split::joined(&self.lines, "\n")
    }
}

} // verus!
