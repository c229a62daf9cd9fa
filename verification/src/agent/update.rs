//! Updating the agent.

use crate::bytes;
use crate::environment::{self, Environment};
use crate::failure::Failure;
use crate::jobs::JobExecutionResult;
use crate::text::{chars, edit, search, trim};
use vstd::prelude::*;

verus! {

/// The unit that updates the agent: the one that the environment names unless that is blank.
pub open spec fn service_of(env: &Environment) -> Seq<char> {
    match environment::var(env, "STATIX_UPDATE_SERVICE"@) {
        Some(name) if trim::trim(name).len() > 0 => name,
        _ => "statix-agent-update.service"@,
    }
}

/// The unit that updates the agent.
pub fn update_service(env: &Environment) -> (r: String)
    ensures
        r@ == service_of(env),
{
    if let Some(name) = environment::var_of(env, "STATIX_UPDATE_SERVICE") {
        if !trim::trimmed(name).as_str().is_empty() {
            return name.to_owned();
        }
    }
    "statix-agent-update.service".to_owned()
}

/// A program and its arguments.
#[derive(Debug)]
pub struct UpdateCommand {
    pub program: &'static str,
    pub args: Vec<String>,
}

/// The command that starts the update.
pub fn start_command(service: &str) -> (r: UpdateCommand)
    ensures
        r.program@ == "systemctl"@,
        chars::texts(r.args@) == seq!["start"@, service@],
{
    let mut args = chars::no_texts();
    chars::push_text(&mut args, "start");
    chars::push_text(&mut args, service);
    UpdateCommand { program: "systemctl", args }
}

/// The command that starts the update with the rights of the superuser.
pub fn sudo_command(service: &str) -> (r: UpdateCommand)
    ensures
        r.program@ == "sudo"@,
        chars::texts(r.args@) == seq!["-n"@, "systemctl"@, "start"@, service@],
{
    let mut args = chars::no_texts();
    chars::push_text(&mut args, "-n");
    chars::push_text(&mut args, "systemctl");
    chars::push_text(&mut args, "start");
    chars::push_text(&mut args, service);
    UpdateCommand { program: "sudo", args }
}

/// What came of a command: it could not be run, or it ended, well or not, and said this.
pub enum UpdateOutcome {
    NotRun(Failure),
    Exited { success: bool, stderr: Vec<u8> },
}

/// A command ended badly for want of rights.
pub open spec fn denied(said: Seq<char>) -> bool {
    let words = edit::lower_text(said);
    ||| search::contains(words, "interactive authentication required"@)
    ||| search::contains(words, "access denied"@)
    ||| search::contains(words, "permission denied"@)
}

/// Whether a command ended badly for want of rights.
pub fn is_denied(said: &str) -> (r: bool)
    ensures
        r == denied(said@),
{
    let words = edit::lowered(said);
    search::has(&words, "interactive authentication required") || search::has(
        &words,
        "access denied",
    ) || search::has(&words, "permission denied")
}

/// The arguments with which `journalctl` follows what an update says from now on.
pub fn journal_args(service: &str) -> (r: Vec<String>)
    ensures
        chars::texts(r@) == seq![
            "--follow"@,
            "--no-pager"@,
            "--lines=0"@,
            "--unit"@,
            service@,
        ],
{
    let mut args = chars::no_texts();
    chars::push_text(&mut args, "--follow");
    chars::push_text(&mut args, "--no-pager");
    chars::push_text(&mut args, "--lines=0");
    chars::push_text(&mut args, "--unit");
    chars::push_text(&mut args, service);
    args
}

/// What to say of an update that was not started.
pub open spec fn not_started(service: Seq<char>, said: Seq<char>) -> Seq<char> {
    "systemctl start "@ + service + " failed: "@ + (if trim::trim(said).len() == 0 {
        "unknown error"@
    } else {
        trim::trim(said)
    })
}

/// What to say of an update that was not started.
pub fn not_started_message(service: &str, said: &str) -> (r: String)
    ensures
        r@ == not_started(service@, said@),
{
    let said = trim::trimmed(said);
    let mut r = chars::cat3("systemctl start ", service, " failed: ");
    if said.as_str().is_empty() {
        r.append("unknown error");
    } else {
        r.append(&said);
    }
    r
}

/// What a request for an update does next.
pub enum UpdateStep {
    /// It asks with the rights of the superuser. Should that command not run, `context` says why
    /// it was asked.
    Sudo { command: UpdateCommand, context: String },
    /// The update was started.
    Started,
    /// It was not.
    Failed(Failure),
}

/// A request for an update does this when the command that starts it was run: it asks with the
/// rights of the superuser where the command could not be run, or was denied.
pub open spec fn goes_on(service: Seq<char>, outcome: UpdateOutcome, r: UpdateStep) -> bool {
    match outcome {
        UpdateOutcome::NotRun(cause) => {
            &&& r matches UpdateStep::Sudo { command, context }
            &&& asks_sudo(command, service)
            &&& context@ == "failed to start update service: "@ + cause.causes@[0]@
        },
        UpdateOutcome::Exited { success, stderr } => if success {
            r is Started
        } else if denied(bytes::utf8_lossy(stderr@)) {
            &&& r matches UpdateStep::Sudo { command, context }
            &&& asks_sudo(command, service)
            &&& context@ == "failed to start update service via sudo"@
        } else {
            &&& r matches UpdateStep::Failed(failure)
            &&& failure.texts() == seq![not_started(service, bytes::utf8_lossy(stderr@))]
        },
    }
}

/// Decides what a request for an update does when the command that starts it was run: it asks
/// with the rights of the superuser where the command could not be run, or was denied.
pub fn after_start(service: &str, outcome: UpdateOutcome) -> (r: UpdateStep)
    requires
        outcome matches UpdateOutcome::NotRun(cause) ==> cause.causes@.len() > 0,
    ensures
        goes_on(service@, outcome, r),
{
    match outcome {
        UpdateOutcome::NotRun(cause) => UpdateStep::Sudo {
            command: sudo_command(service),
            context: chars::cat("failed to start update service: ", &cause.causes[0]),
        },
        UpdateOutcome::Exited { success, stderr } => {
            if success {
                return UpdateStep::Started;
            }
            let said = bytes::lossy_text(stderr.as_slice());
            if is_denied(&said) {
                UpdateStep::Sudo {
                    command: sudo_command(service),
                    context: "failed to start update service via sudo".to_owned(),
                }
            } else {
                UpdateStep::Failed(Failure::new(not_started_message(service, &said)))
            }
        },
    }
}

/// A command starts the update with the rights of the superuser.
pub open spec fn asks_sudo(command: UpdateCommand, service: Seq<char>) -> bool {
    &&& command.program@ == "sudo"@
    &&& chars::texts(command.args@) == seq!["-n"@, "systemctl"@, "start"@, service]
}

/// An update was started or not, when it was asked for with the rights of the superuser.
pub open spec fn sudo_ended(
    service: Seq<char>,
    context: Seq<char>,
    outcome: UpdateOutcome,
    r: Result<(), Failure>,
) -> bool {
    match outcome {
        UpdateOutcome::NotRun(cause) => r matches Err(failure) && failure.texts() == seq![
            context,
        ] + cause.texts(),
        UpdateOutcome::Exited { success, stderr } => if success {
            r is Ok
        } else {
            r matches Err(failure) && failure.texts() == seq![
                not_started(service, bytes::utf8_lossy(stderr@)),
            ]
        },
    }
}

/// Decides whether an update was started, when it was asked for with the rights of the superuser.
pub fn after_sudo(service: &str, context: String, outcome: UpdateOutcome) -> (r: Result<
    (),
    Failure,
>)
    ensures
        sudo_ended(service@, context@, outcome, r),
{
    match outcome {
        UpdateOutcome::NotRun(cause) => Err(cause.context(context)),
        UpdateOutcome::Exited { success, stderr } => if success {
            Ok(())
        } else {
            Err(
                Failure::new(
                    not_started_message(service, &bytes::lossy_text(stderr.as_slice())),
                ),
            )
        },
    }
}

/// A job that asks for an update reports this.
pub open spec fn reports(
    requested: Result<(), Failure>,
    r: Result<JobExecutionResult, Failure>,
) -> bool {
    match requested {
        Ok(_) => {
            &&& r matches Ok(result)
            &&& result.status@ == "succeeded"@
            &&& chars::opt_text(result.message) == Some("agent update requested"@)
        },
        Err(failure) => r == Result::<JobExecutionResult, Failure>::Err(failure),
    }
}

/// What a job that asks for an update reports.
pub fn update_result(requested: Result<(), Failure>) -> (r: Result<JobExecutionResult, Failure>)
    ensures
        reports(requested, r),
{
    match requested {
        Ok(_) => Ok(
            JobExecutionResult {
                status: "succeeded",
                message: Some("agent update requested".to_owned()),
            },
        ),
        Err(failure) => Err(failure),
    }
}

} // verus!
