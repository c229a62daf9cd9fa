//! What runs inside a virtual machine, and what its emulator writes.

use crate::failure::Failure;
use crate::jobs::output::{self, ProcessOutcome};
use crate::jobs::shell;
use crate::jobs::JobExecutionResult;
use crate::text::{chars, number, split, trim};
use vstd::prelude::*;

verus! {

/// What a machine is told of itself when it boots first.
pub const META_DATA: &'static str = "instance-id: statix-microvm\nlocal-hostname: statix-microvm\n";

/// How a machine is set up when it boots first, before the key that opens it.
pub const USER_DATA_HEAD: &'static str =
    "#cloud-config\nusers:\n  - name: statix\n    groups: [sudo]\n    shell: /bin/bash\n    sudo: ALL=(ALL) NOPASSWD:ALL\n    ssh_authorized_keys:\n      - ";

/// How a machine is set up when it boots first, after the key that opens it.
pub const USER_DATA_TAIL: &'static str =
    "\nssh_pwauth: false\ndisable_root: true\npackage_update: true\npackages:\n  - build-essential\n  - ca-certificates\n  - curl\n  - docker.io\n  - docker-compose-v2\n  - git\n  - libssl-dev\n  - openssh-server\n  - pkg-config\nruncmd:\n  - [systemctl, enable, --now, docker]\n  - [usermod, -aG, docker, \"statix\"]\n  - [su, \"-\", \"statix\", \"-c\", \"curl --proto '=https' --tlsv1.2 -sSf https://sh.rustup.rs | sh -s -- -y --profile minimal --default-toolchain stable\"]\n";

/// How a machine is set up when it boots first, so that the key `public_key` opens it.
pub open spec fn setup_of(public_key: Seq<char>) -> Seq<char> {
    USER_DATA_HEAD@ + trim::trim(public_key) + USER_DATA_TAIL@
}

/// How a machine is set up when it boots first, so that the key `public_key` opens it.
pub fn user_data(public_key: &str) -> (r: String)
    ensures
        r@ == setup_of(public_key@),
{
    chars::cat3(USER_DATA_HEAD, &trim::trimmed(public_key), USER_DATA_TAIL)
}

/// What a machine runs before a command: it unpacks the workspace to the place of the project's
/// files and goes there.
pub const UNPACK: &'static str =
    "if [ -f /home/statix/.cargo/env ]; then . /home/statix/.cargo/env; fi; mkdir -p /home/statix/docker && tar -xzf /home/statix/workspace.tar.gz -C /home/statix/docker && cd /home/statix/docker && exec ";

/// The text of a command for the shell of a machine.
pub open spec fn remote_text(command: Seq<Seq<char>>) -> Seq<char> {
    UNPACK@ + shell::command_text(command)
}

/// The text of a command for the shell of a machine.
pub fn remote_command(command: &Vec<String>) -> (r: String)
    ensures
        r@ == remote_text(chars::texts(command@)),
{
    chars::cat(UNPACK, &shell::shell_join(command))
}

/// The number of lines that are kept of what an emulator writes.
pub const KEPT_LINES: usize = 32;

/// The last lines.
pub open spec fn kept(lines: Seq<Seq<char>>) -> Seq<Seq<char>> {
    if lines.len() <= KEPT_LINES {
        lines
    } else {
        lines.skip(lines.len() - KEPT_LINES)
    }
}

/// Of all lines the last ones are kept, though they are cut down with each line.
pub proof fn last_lines_are_kept(lines: Seq<Seq<char>>, line: Seq<char>)
    ensures
        kept(kept(lines).push(line)) == kept(lines.push(line)),
        kept(lines).len() <= KEPT_LINES,
{
    if lines.len() >= KEPT_LINES {
        assert(kept(kept(lines).push(line)) =~= kept(lines.push(line)));
    }
}

/// The last lines that an emulator wrote.
#[derive(Debug)]
pub struct RecentLogs {
    lines: Vec<String>,
}

impl View for RecentLogs {
    type V = Seq<Seq<char>>;

    closed spec fn view(&self) -> Seq<Seq<char>> {
        chars::texts(self.lines@)
    }
}

impl RecentLogs {
    #[verifier::type_invariant]
    spec fn inv(self) -> bool {
        self.lines@.len() <= KEPT_LINES
    }

    /// No lines.
    pub fn new() -> (r: Self)
        ensures
            r@ == Seq::<Seq<char>>::empty(),
    {
        RecentLogs { lines: chars::no_texts() }
    }

    /// Takes in a line of one of the emulator's streams.
    pub fn push(&mut self, label: &str, line: &str)
        ensures
            final(self)@ == kept(old(self)@.push(label@ + ": "@ + line@)),
    {
        proof {
            use_type_invariant(&*self);
        }
        let mut lines: Vec<String> = Vec::new();
        std::mem::swap(&mut lines, &mut self.lines);
        let ghost before = lines@;
        let text = chars::cat3(label, ": ", line);
        if lines.len() == KEPT_LINES {
            lines.remove(0);
        }
        let ghost rest = lines@;
        chars::push_text(&mut lines, &text);
        proof {
            let all = chars::texts(before).push(text@);
            assert(chars::texts(lines@) =~= kept(all));
            assert(chars::texts(lines@).len() == lines@.len());
        }
        self.lines = lines;
    }

    /// What to say where an emulator ended, as `status` tells, before its machine was ready.
    pub fn failure_message(&self, status: &str) -> (r: String)
        ensures
            r@ == early_exit(status@, self@),
    {
        let logs = split::joined(&self.lines, "\n");
        let said = chars::cat("qemu exited before the guest became ready: ", status);
        if trim::trimmed(&logs).as_str().is_empty() {
            said
        } else {
            chars::cat3(&said, "\nrecent qemu logs:\n", &logs)
        }
    }
}

/// What to say where an emulator ended, as `status` tells, before its machine was ready.
pub open spec fn early_exit(status: Seq<char>, lines: Seq<Seq<char>>) -> Seq<char> {
    let logs = split::join(lines, "\n"@);
    let said = "qemu exited before the guest became ready: "@ + status;
    if trim::trim(logs).len() == 0 {
        said
    } else {
        said + "\nrecent qemu logs:\n"@ + logs
    }
}

/// What to say where the workspace was not brought to a machine in time.
pub open spec fn upload_timeout(seconds: nat) -> Seq<char> {
    "microvm archive upload timed out after "@ + number::decimal(seconds) + " seconds"@
}

/// What to say where a command did not end in time.
pub open spec fn command_timeout(seconds: nat) -> Seq<char> {
    "microvm command timed out after "@ + number::decimal(seconds) + " seconds"@
}

/// This follows when the workspace was brought to a machine, or was not.
pub open spec fn upload_ended(
    cwd: Seq<char>,
    timeout_seconds: u64,
    outcome: ProcessOutcome,
    r: Result<Option<JobExecutionResult>, Failure>,
) -> bool {
    match outcome {
        ProcessOutcome::TimedOut => r matches Err(failure) && failure.texts() == seq![
            upload_timeout(timeout_seconds as nat),
        ],
        ProcessOutcome::NotRun(cause) => r matches Err(failure) && failure.texts() == seq![
            "failed to upload workspace archive to microvm"@,
        ] + cause.texts(),
        ProcessOutcome::Exited { success, stdout, stderr } => if success {
            r matches Ok(None)
        } else {
            r matches Ok(Some(result)) && output::tells(
                result,
                cwd,
                false,
                stdout@,
                stderr@,
            )
        },
    }
}

/// Decides what follows when the workspace was brought to a machine: where that failed, how the
/// job ended; else nothing, and the command is run.
pub fn after_upload(cwd: &str, timeout_seconds: u64, outcome: ProcessOutcome) -> (r: Result<
    Option<JobExecutionResult>,
    Failure,
>)
    ensures
        upload_ended(cwd@, timeout_seconds, outcome, r),
{
    match outcome {
        ProcessOutcome::TimedOut => Err(
            Failure::new(
                chars::cat3(
                    "microvm archive upload timed out after ",
                    &number::decimal_text(timeout_seconds),
                    " seconds",
                ),
            ),
        ),
        ProcessOutcome::NotRun(cause) => Err(
            cause.context("failed to upload workspace archive to microvm".to_owned()),
        ),
        ProcessOutcome::Exited { success, stdout, stderr } => if success {
            Ok(None)
        } else {
            Ok(Some(output::command_result(cwd, false, stdout.as_slice(), stderr.as_slice())))
        },
    }
}

/// A job ended so when its command was run in a machine.
pub open spec fn command_ended(
    cwd: Seq<char>,
    timeout_seconds: u64,
    outcome: ProcessOutcome,
    r: Result<JobExecutionResult, Failure>,
) -> bool {
    match outcome {
        ProcessOutcome::TimedOut => r matches Err(failure) && failure.texts() == seq![
            command_timeout(timeout_seconds as nat),
        ],
        ProcessOutcome::NotRun(cause) => r matches Err(failure) && failure.texts() == seq![
            "failed to execute command inside microvm"@,
        ] + cause.texts(),
        ProcessOutcome::Exited { success, stdout, stderr } => r matches Ok(result)
            && output::tells(result, cwd, success, stdout@, stderr@),
    }
}

/// Decides how a job ended when its command was run in a machine.
pub fn after_command(cwd: &str, timeout_seconds: u64, outcome: ProcessOutcome) -> (r: Result<
    JobExecutionResult,
    Failure,
>)
    ensures
        command_ended(cwd@, timeout_seconds, outcome, r),
{
    match outcome {
        ProcessOutcome::TimedOut => Err(
            Failure::new(
                chars::cat3(
                    "microvm command timed out after ",
                    &number::decimal_text(timeout_seconds),
                    " seconds",
                ),
            ),
        ),
        ProcessOutcome::NotRun(cause) => Err(
            cause.context("failed to execute command inside microvm".to_owned()),
        ),
        ProcessOutcome::Exited { success, stdout, stderr } => Ok(
            output::command_result(cwd, success, stdout.as_slice(), stderr.as_slice()),
        ),
    }
}

} // verus!
