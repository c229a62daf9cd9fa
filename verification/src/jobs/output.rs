//! What a job reports of a command's output.

use crate::bytes;
use crate::failure::Failure;
use crate::jobs::JobExecutionResult;
use crate::text::{chars, edit, trim};
use vstd::prelude::*;

verus! {

/// The number of characters of a stream that a report holds.
pub const MAX_CHARS: usize = 2_000;

/// The part of a stream that a report holds.
pub open spec fn reported(s: Seq<char>) -> Seq<char> {
    edit::shorten(trim::trim(s), MAX_CHARS as nat)
}

/// The report on a command that ran in `cwd`, over the texts that it wrote.
pub open spec fn report(cwd: Seq<char>, stdout: Seq<char>, stderr: Seq<char>) -> Seq<char> {
    let quiet_out = trim::trim(stdout).len() == 0;
    let quiet_err = trim::trim(stderr).len() == 0;
    cwd + ": "@ + (if quiet_err && quiet_out {
        "command completed with no output"@
    } else if quiet_err {
        reported(stdout)
    } else if quiet_out {
        reported(stderr)
    } else {
        "stdout:\n"@ + reported(stdout) + "\n\nstderr:\n"@ + reported(stderr)
    })
}

/// Cuts a stream to the part that a report holds.
pub fn truncate_output(value: &str) -> (r: String)
    ensures
        r@ == reported(value@),
{
    edit::shortened(&trim::trimmed(value), MAX_CHARS)
}

/// Reports on a command, over the texts that it wrote.
pub fn summarize_command_texts(cwd: &str, stdout: &str, stderr: &str) -> (r: String)
    ensures
        r@ == report(cwd@, stdout@, stderr@),
{
    let quiet_out = trim::trimmed(stdout).as_str().is_empty();
    let quiet_err = trim::trimmed(stderr).as_str().is_empty();
    let said = if quiet_err {
        if quiet_out {
            "command completed with no output".to_owned()
        } else {
            truncate_output(stdout)
        }
    } else if quiet_out {
        truncate_output(stderr)
    } else {
        let out = truncate_output(stdout);
        let err = truncate_output(stderr);
        let mut both = chars::cat3("stdout:\n", &out, "\n\nstderr:\n");
        both.append(&err);
        both
    };
    chars::cat3(cwd, ": ", &said)
}

/// Reports on a command, over the bytes that it wrote.
pub fn summarize_command_output(cwd: &str, stdout: &[u8], stderr: &[u8]) -> (r: String)
    ensures
        r@ == report(cwd@, bytes::utf8_lossy(stdout@), bytes::utf8_lossy(stderr@)),
{
    summarize_command_texts(cwd, &bytes::lossy_text(stdout), &bytes::lossy_text(stderr))
}

/// The status of a job whose command ended.
pub open spec fn status(success: bool) -> Seq<char> {
    if success {
        "succeeded"@
    } else {
        "failed"@
    }
}

/// How a job ended whose command wrote the texts `stdout` and `stderr`.
pub fn command_result_of_texts(cwd: &str, success: bool, stdout: &str, stderr: &str) -> (r:
    JobExecutionResult)
    ensures
        r.status@ == status(success),
        chars::opt_text(r.message) == Some(report(cwd@, stdout@, stderr@)),
{
    JobExecutionResult {
        status: if success {
            "succeeded"
        } else {
            "failed"
        },
        message: Some(summarize_command_texts(cwd, stdout, stderr)),
    }
}

/// How a job ended whose command wrote the bytes `stdout` and `stderr`.
pub fn command_result(cwd: &str, success: bool, stdout: &[u8], stderr: &[u8]) -> (r:
    JobExecutionResult)
    ensures
        r.status@ == status(success),
        chars::opt_text(r.message) == Some(
            report(cwd@, bytes::utf8_lossy(stdout@), bytes::utf8_lossy(stderr@)),
        ),
{
    command_result_of_texts(cwd, success, &bytes::lossy_text(stdout), &bytes::lossy_text(stderr))
}

/// A report is bounded, however much the command wrote.
pub proof fn report_is_bounded(cwd: Seq<char>, stdout: Seq<char>, stderr: Seq<char>)
    ensures
        report(cwd, stdout, stderr).len() <= cwd.len() + 2 * MAX_CHARS + 40,
{
    edit::shortened_is_bounded(trim::trim(stdout), MAX_CHARS as nat);
    edit::shortened_is_bounded(trim::trim(stderr), MAX_CHARS as nat);
    reveal_strlit(": ");
    reveal_strlit("command completed with no output");
    reveal_strlit("stdout:\n");
    reveal_strlit("\n\nstderr:\n");
}

/// What came of running a program.
pub enum ProcessOutcome {
    /// It did not end in time.
    TimedOut,
    /// It could not be started or waited for.
    NotRun(Failure),
    /// It ended, well or not, and wrote these bytes.
    Exited { success: bool, stdout: Vec<u8>, stderr: Vec<u8> },
}

/// How a job ended is told by the end of a command that ran in `cwd`.
pub open spec fn tells(
    result: JobExecutionResult,
    cwd: Seq<char>,
    success: bool,
    stdout: Seq<u8>,
    stderr: Seq<u8>,
) -> bool {
    &&& result.status@ == status(success)
    &&& chars::opt_text(result.message) == Some(
        report(cwd, bytes::utf8_lossy(stdout), bytes::utf8_lossy(stderr)),
    )
}

/// What came of a tool whose output does not matter.
pub enum ToolOutcome {
    /// It could not be started or waited for.
    NotRun(Failure),
    /// It ended, well or not.
    Exited(bool),
}

/// What follows from what came of a tool: nothing where it did its work; else a failure, with one
/// text where it did not start and another where it ended badly.
pub open spec fn tool_told(
    outcome: ToolOutcome,
    not_started: Seq<char>,
    failed: Seq<char>,
    r: Result<(), Failure>,
) -> bool {
    match outcome {
        ToolOutcome::NotRun(cause) => r matches Err(failure) && failure.texts() == seq![not_started]
            + cause.texts(),
        ToolOutcome::Exited(success) => if success {
            r is Ok
        } else {
            r matches Err(failure) && failure.texts() == seq![failed]
        },
    }
}

/// Decides what follows from what came of a tool.
pub fn tool_result(outcome: ToolOutcome, not_started: String, failed: String) -> (r: Result<
    (),
    Failure,
>)
    ensures
        tool_told(outcome, not_started@, failed@, r),
{
    match outcome {
        ToolOutcome::NotRun(cause) => Err(cause.context(not_started)),
        ToolOutcome::Exited(success) => if success {
            Ok(())
        } else {
            Err(Failure::new(failed))
        },
    }
}

} // verus!
