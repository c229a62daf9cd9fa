//! Waiting until a virtual machine has booted.

use crate::bytes;
use crate::text::{chars, edit, number, search, trim};
use vstd::prelude::*;

verus! {

/// What `ssh` writes while a machine boots, though nothing is wrong.
pub open spec fn non_actionable(stderr: Seq<char>) -> bool {
    stderr.len() == 0 || "Warning: Permanently added "@.is_prefix_of(stderr)
}

/// Whether `ssh` writes this while a machine boots, though nothing is wrong.
pub fn readiness_stderr_is_non_actionable(stderr: &str) -> (r: bool)
    ensures
        r == non_actionable(stderr@),
{
    stderr.is_empty() || search::begins(stderr, "Warning: Permanently added ")
}

/// What to say of a machine that was asked and has not booted.
pub open spec fn probe_failure(code: Option<i32>, status: Seq<char>, stderr: Seq<char>) -> Seq<
    char,
> {
    let said = trim::trim(stderr);
    if code == Some(1i32) && non_actionable(said) {
        "ssh is reachable; waiting for cloud-init boot-finished marker"@
    } else if said.len() == 0 {
        "ssh readiness probe exited with "@ + status
    } else {
        "ssh readiness probe exited with "@ + status + ": "@ + edit::shorten(said, 240)
    }
}

/// What to say of a machine that was asked and has not booted, over the text that `ssh` wrote.
pub fn readiness_probe_failure_of_text(code: Option<i32>, status: &str, stderr: &str) -> (r: String)
    ensures
        r@ == probe_failure(code, status@, stderr@),
{
    let said = trim::trimmed(stderr);
    let marker_missing = match code {
        Some(code) => code == 1,
        None => false,
    };
    if marker_missing && readiness_stderr_is_non_actionable(&said) {
        return "ssh is reachable; waiting for cloud-init boot-finished marker".to_owned();
    }
    let exited = chars::cat("ssh readiness probe exited with ", status);
    if said.as_str().is_empty() {
        exited
    } else {
        chars::cat3(&exited, ": ", &edit::shortened(&said, 240))
    }
}

/// What to say of a machine that was asked and has not booted.
pub fn readiness_probe_failure(code: Option<i32>, status: &str, stderr: &[u8]) -> (r: String)
    ensures
        r@ == probe_failure(code, status@, bytes::utf8_lossy(stderr@)),
{
    readiness_probe_failure_of_text(code, status, &bytes::lossy_text(stderr))
}

/// What came of asking a machine whether it has booted.
pub enum ProbeOutcome {
    /// It has.
    Ready,
    /// It has not, and this is what there is to say.
    NotReady(String),
    /// `ssh` could not be started.
    NotLaunched(String),
    /// There was no answer in time.
    TimedOut,
}

/// What there is to say of a machine that was asked.
pub open spec fn last_probe(outcome: ProbeOutcome) -> Seq<char> {
    match outcome {
        ProbeOutcome::Ready => ""@,
        ProbeOutcome::NotReady(said) => said@,
        ProbeOutcome::NotLaunched(error) => "failed to launch ssh readiness probe: "@ + error@,
        ProbeOutcome::TimedOut => "ssh readiness probe timed out"@,
    }
}

/// A wait for a machine: the seconds that it may take, and those after which its progress is told
/// next.
pub struct Wait {
    pub timeout_seconds: u64,
    pub next_progress_seconds: u64,
}

/// What comes before a machine is asked.
pub enum BeforeProbe {
    /// The wait is over.
    TimedOut,
    /// The machine is asked, for so many milliseconds.
    Probe { milliseconds: u64 },
}

/// What comes after a machine was asked.
pub enum AfterProbe {
    /// The wait is over.
    Ready,
    /// The machine is asked again later. Where there is a text, it tells the progress.
    Again { progress: Option<String> },
}

/// The number of milliseconds for which a machine is asked, with so many left of the wait.
pub open spec fn probe_time(left: int) -> int {
    if left < 5_000 {
        left
    } else {
        5_000
    }
}

/// So many milliseconds into a wait the machine is asked, or not.
pub open spec fn asked(wait: Wait, elapsed_ms: u64, r: BeforeProbe) -> bool {
    match r {
        BeforeProbe::TimedOut => elapsed_ms >= wait.timeout_seconds * 1000,
        BeforeProbe::Probe { milliseconds } => {
            &&& elapsed_ms < wait.timeout_seconds * 1000
            &&& milliseconds == probe_time(wait.timeout_seconds * 1000 - elapsed_ms)
        },
    }
}

/// So goes a wait on after the machine was asked.
pub open spec fn waits_on(
    before: Wait,
    after: Wait,
    outcome: ProbeOutcome,
    elapsed_ms: u64,
    project: bool,
    r: AfterProbe,
) -> bool {
    &&& after.timeout_seconds == before.timeout_seconds
    &&& (match r {
        AfterProbe::Ready => outcome is Ready && after == before,
        AfterProbe::Again { progress } => {
            let due = elapsed_ms / 1000 >= before.next_progress_seconds;
            &&& !(outcome is Ready)
            &&& after.next_progress_seconds == before.next_progress_seconds + (
            if due {
                15int
            } else {
                0
            })
            &&& chars::opt_text(progress) == (if due {
                Some(progress_text(elapsed_ms / 1000, outcome, project))
            } else {
                None
            })
        },
    })
}

impl Wait {
    /// A wait of so many seconds.
    pub fn new(timeout_seconds: u64) -> (r: Self)
        ensures
            r.timeout_seconds == timeout_seconds,
            r.next_progress_seconds == 15,
    {
        Wait { timeout_seconds, next_progress_seconds: 15 }
    }

    /// Decides, so many milliseconds into the wait, whether the machine is asked.
    pub fn before_probe(&self, elapsed_ms: u64) -> (r: BeforeProbe)
        ensures
            asked(*self, elapsed_ms, r),
    {
        let seconds: u64 = elapsed_ms / 1000;
        if seconds >= self.timeout_seconds {
            return BeforeProbe::TimedOut;
        }
        let left: u64 = self.timeout_seconds - seconds;
        let milliseconds: u64 = if left > 5 {
            5_000
        } else {
            let exact: u64 = left * 1000 - elapsed_ms % 1000;
            if exact < 5_000 {
                exact
            } else {
                5_000
            }
        };
        BeforeProbe::Probe { milliseconds }
    }

    /// Takes in what came of asking the machine, so many milliseconds into the wait. The progress
    /// is told each quarter of a minute. For the machine of a project it tells only the time.
    pub fn after_probe(&mut self, outcome: ProbeOutcome, elapsed_ms: u64, project: bool) -> (r:
        AfterProbe)
        requires
            old(self).next_progress_seconds <= u64::MAX - 15,
        ensures
            waits_on(*old(self), *final(self), outcome, elapsed_ms, project, r),
    {
        if let ProbeOutcome::Ready = outcome {
            return AfterProbe::Ready;
        }
        let seconds: u64 = elapsed_ms / 1000;
        if seconds < self.next_progress_seconds {
            return AfterProbe::Again { progress: None };
        }
        self.next_progress_seconds = self.next_progress_seconds + 15;
        let time = number::decimal_text(seconds);
        let text = if project {
            chars::cat3("waiting for project microvm guest readiness for ", &time, "s")
        } else {
            let said = match outcome {
                ProbeOutcome::NotReady(said) => said,
                ProbeOutcome::NotLaunched(error) => chars::cat(
                    "failed to launch ssh readiness probe: ",
                    &error,
                ),
                _ => "ssh readiness probe timed out".to_owned(),
            };
            let waited = chars::cat3("waiting for microvm guest readiness for ", &time, "s");
            chars::cat3(&waited, "; last probe: ", &said)
        };
        AfterProbe::Again { progress: Some(text) }
    }
}

/// What tells the progress of a wait.
pub open spec fn progress_text(seconds: u64, outcome: ProbeOutcome, project: bool) -> Seq<char> {
    if project {
        "waiting for project microvm guest readiness for "@ + number::decimal(seconds as nat)
            + "s"@
    } else {
        "waiting for microvm guest readiness for "@ + number::decimal(seconds as nat) + "s"@
            + "; last probe: "@ + last_probe(outcome)
    }
}

/// What to say where a machine did not boot in time.
pub fn not_ready_message(project: bool) -> (r: &'static str)
    ensures
        r@ == (if project {
            "project microvm did not become ready before timeout"@
        } else {
            "microvm did not become ready before timeout"@
        }),
{
    if project {
        "project microvm did not become ready before timeout"
    } else {
        "microvm did not become ready before timeout"
    }
}

/// A machine is asked again only while time is left, so that the last answer comes no later than
/// the wait allows.
pub proof fn probes_end_in_time(timeout_seconds: u64, elapsed_ms: u64)
    requires
        elapsed_ms < timeout_seconds * 1000,
    ensures
        0 < probe_time(timeout_seconds * 1000 - elapsed_ms) <= 5_000,
        elapsed_ms + probe_time(timeout_seconds * 1000 - elapsed_ms) <= timeout_seconds * 1000,
{
}

} // verus!
