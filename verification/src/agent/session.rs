//! A session with the server.

use crate::agent::AgentJob;
use crate::environment::{self, Environment};
use crate::failure::{self, Failure};
use crate::jobs::{JobExecutionResult, JobLogLine};
use crate::text::{chars, number};
use std::collections::VecDeque;
use vstd::prelude::*;

verus! {

/// What the server says.
pub enum ServerMessage {
    Ready { node_id: String },
    Error { error: String },
    Job { job: AgentJob },
}

/// What the server is told of a job.
#[derive(Debug)]
pub struct JobStatus {
    pub job_id: String,
    pub status: &'static str,
    pub message: Option<String>,
}

/// The texts of what the server is told of a job.
pub struct StatusView {
    pub job_id: Seq<char>,
    pub status: Seq<char>,
    pub message: Option<Seq<char>>,
}

impl View for JobStatus {
    type V = StatusView;

    open spec fn view(&self) -> StatusView {
        StatusView {
            job_id: self.job_id@,
            status: self.status@,
            message: chars::opt_text(self.message),
        }
    }
}

/// The server is told that a job was accepted.
pub open spec fn accepted(job: AgentJob) -> StatusView {
    StatusView { job_id: job.id@, status: "accepted"@, message: None }
}

/// The server is told that a job started.
pub open spec fn started(job: AgentJob) -> StatusView {
    StatusView { job_id: job.id@, status: "started"@, message: None }
}

/// What the server is told of a job that is begun: that it was accepted, and that it started.
pub fn started_statuses(job: &AgentJob) -> (r: (JobStatus, JobStatus))
    ensures
        r.0@ == accepted(*job),
        r.1@ == started(*job),
{
    (
        JobStatus { job_id: job.id.clone(), status: "accepted", message: None },
        JobStatus { job_id: job.id.clone(), status: "started", message: None },
    )
}

/// The server is told how a job ended: its result, or that it failed and why.
pub open spec fn tells_end(
    job_id: Seq<char>,
    result: Result<JobExecutionResult, Failure>,
    r: JobStatus,
) -> bool {
    &&& r.job_id@ == job_id
    &&& (match result {
        Ok(ended) => r.status == ended.status && r.message == ended.message,
        Err(error) => r.status@ == "failed"@ && chars::opt_text(r.message) == Some(
            failure::chain_text(error.texts()),
        ),
    })
}

/// What the server is told of a job that ended: its result, or that it failed and why.
pub fn completed_status(job_id: &str, result: Result<JobExecutionResult, Failure>) -> (r: JobStatus)
    ensures
        tells_end(job_id@, result, r),
{
    match result {
        Ok(ended) => JobStatus {
            job_id: job_id.to_owned(),
            status: ended.status,
            message: ended.message,
        },
        Err(error) => JobStatus {
            job_id: job_id.to_owned(),
            status: "failed",
            message: Some(failure::format_error_chain(&error)),
        },
    }
}

/// What happens in a session.
pub enum SessionEvent {
    /// The server says something.
    Message(ServerMessage),
    /// The server sends a text that the agent does not know.
    Unknown,
    /// The server sends something other than a text.
    Other,
    /// The server closes the connection, with a reason or not.
    Closed(Option<String>),
    /// The connection breaks.
    Broken(Failure),
    /// The connection ends.
    Ended,
    /// It is time to publish measurements.
    PublishTick,
    /// It is time to see whether the node has changed.
    SystemTick,
    /// A job has ended; or none will end any more.
    JobDone(Option<JobStatus>),
    /// A job has written a line; or none will be written any more.
    JobLog(Option<JobLogLine>),
    /// The agent is told to stop, or not.
    StopChanged(bool),
}

/// What a session does on an event.
pub enum SessionAction {
    /// Nothing.
    Continue,
    /// It publishes measurements.
    PublishMetrics,
    /// It publishes what the node is, where that is needed.
    PublishSystemInfo,
    /// It tells the server how a job ended.
    SendStatus(JobStatus),
    /// It hands a line of a job to the server.
    SendLog(JobLogLine),
    /// It ends, as the agent stops.
    Stop,
    /// It fails.
    Fail(Failure),
}

/// The jobs of a session: those that wait, in the order in which the server gave them, and whether
/// one is running.
pub struct JobQueue {
    pub waiting: Seq<AgentJob>,
    pub active: bool,
}

/// The jobs of a session at its beginning.
pub open spec fn no_jobs() -> JobQueue {
    JobQueue { waiting: seq![], active: false }
}

/// The jobs when the server has given one more.
pub open spec fn received(queue: JobQueue, job: AgentJob) -> JobQueue {
    JobQueue { waiting: queue.waiting.push(job), ..queue }
}

/// The jobs when the running one has ended.
pub open spec fn finished(queue: JobQueue) -> JobQueue {
    JobQueue { active: false, ..queue }
}

/// The job that is begun: the one that waits longest, where none is running.
pub open spec fn to_begin(queue: JobQueue) -> Option<AgentJob> {
    if !queue.active && queue.waiting.len() > 0 {
        Some(queue.waiting[0])
    } else {
        None
    }
}

/// The jobs when the one that is to be begun is running.
pub open spec fn begun(queue: JobQueue) -> JobQueue {
    if to_begin(queue) is Some {
        JobQueue { waiting: queue.waiting.skip(1), active: true }
    } else {
        queue
    }
}

/// The jobs after an event.
pub open spec fn queue_after(queue: JobQueue, event: SessionEvent) -> JobQueue {
    match event {
        SessionEvent::Message(ServerMessage::Job { job }) => received(queue, job),
        SessionEvent::JobDone(Some(_)) => finished(queue),
        _ => queue,
    }
}

/// A session with the server.
pub struct Session {
    waiting: VecDeque<AgentJob>,
    active: bool,
}

impl View for Session {
    type V = JobQueue;

    closed spec fn view(&self) -> JobQueue {
        JobQueue { waiting: self.waiting@, active: self.active }
    }
}

/// A session does this on an event; `stopping` tells whether the agent is to stop.
pub open spec fn acts(event: SessionEvent, stopping: bool, action: SessionAction) -> bool {
    match event {
        SessionEvent::Message(ServerMessage::Error { error }) => {
            action matches SessionAction::Fail(failure) && failure.texts() == seq![
                "server error: "@ + error@,
            ]
        },
        SessionEvent::Message(_) => action is Continue,
        SessionEvent::Unknown => action is Continue,
        SessionEvent::Other => action is Continue,
        SessionEvent::Closed(reason) => {
            action matches SessionAction::Fail(failure) && failure.texts() == seq![
                match reason {
                    Some(reason) => reason@,
                    None => "websocket closed"@,
                },
            ]
        },
        SessionEvent::Broken(cause) => if stopping {
            action is Stop
        } else {
            action matches SessionAction::Fail(failure) && failure.texts() == seq![
                "websocket session failed"@,
            ] + cause.texts()
        },
        SessionEvent::Ended => if stopping {
            action is Stop
        } else {
            action matches SessionAction::Fail(failure) && failure.texts() == seq![
                "websocket connection ended"@,
            ]
        },
        SessionEvent::PublishTick => action is PublishMetrics,
        SessionEvent::SystemTick => action is PublishSystemInfo,
        SessionEvent::JobDone(Some(status)) => action == SessionAction::SendStatus(status),
        SessionEvent::JobDone(None) => {
            action matches SessionAction::Fail(failure) && failure.texts() == seq![
                "job completion channel closed"@,
            ]
        },
        SessionEvent::JobLog(Some(line)) => action == SessionAction::SendLog(line),
        SessionEvent::JobLog(None) => {
            action matches SessionAction::Fail(failure) && failure.texts() == seq![
                "job log channel closed"@,
            ]
        },
        SessionEvent::StopChanged(stop) => if stop {
            action is Stop
        } else {
            action is Continue
        },
    }
}

impl Session {
    /// A session that begins.
    pub fn new() -> (r: Self)
        ensures
            r@ == no_jobs(),
    {
        let r = Session { waiting: VecDeque::new(), active: false };
        proof {
            assert(r@.waiting =~= seq![]);
        }
        r
    }

    /// Begins a job: the one that waits longest, where none is running.
    pub fn next_job(&mut self) -> (r: Option<AgentJob>)
        ensures
            r == to_begin(old(self)@),
            final(self)@ == begun(old(self)@),
    {
        if self.active {
            return None;
        }
        let ghost before = self.waiting@;
        match self.waiting.pop_front() {
            Some(job) => {
                self.active = true;
                proof {
                    assert(self.waiting@ =~= before.skip(1));
                }
                Some(job)
            },
            None => None,
        }
    }

    /// Decides what a session does on an event; `stopping` tells whether the agent is to stop.
    pub fn handle(&mut self, event: SessionEvent, stopping: bool) -> (r: SessionAction)
        ensures
            acts(event, stopping, r),
            final(self)@ == queue_after(old(self)@, event),
    {
        match event {
            SessionEvent::Message(message) => match message {
                ServerMessage::Error { error } => SessionAction::Fail(
                    Failure::new(chars::cat("server error: ", &error)),
                ),
                ServerMessage::Ready { .. } => SessionAction::Continue,
                ServerMessage::Job { job } => {
                    self.waiting.push_back(job);
                    SessionAction::Continue
                },
            },
            SessionEvent::Unknown => SessionAction::Continue,
            SessionEvent::Other => SessionAction::Continue,
            SessionEvent::Closed(reason) => SessionAction::Fail(
                Failure::new(
                    match reason {
                        Some(reason) => reason,
                        None => "websocket closed".to_owned(),
                    },
                ),
            ),
            SessionEvent::Broken(cause) => if stopping {
                SessionAction::Stop
            } else {
                SessionAction::Fail(cause.context("websocket session failed".to_owned()))
            },
            SessionEvent::Ended => if stopping {
                SessionAction::Stop
            } else {
                SessionAction::Fail(Failure::new("websocket connection ended".to_owned()))
            },
            SessionEvent::PublishTick => SessionAction::PublishMetrics,
            SessionEvent::SystemTick => SessionAction::PublishSystemInfo,
            SessionEvent::JobDone(status) => match status {
                Some(status) => {
                    self.active = false;
                    SessionAction::SendStatus(status)
                },
                None => SessionAction::Fail(
                    Failure::new("job completion channel closed".to_owned()),
                ),
            },
            SessionEvent::JobLog(line) => match line {
                Some(line) => SessionAction::SendLog(line),
                None => SessionAction::Fail(Failure::new("job log channel closed".to_owned())),
            },
            SessionEvent::StopChanged(stop) => if stop {
                SessionAction::Stop
            } else {
                SessionAction::Continue
            },
        }
    }
}

/// What changes the jobs of a session.
pub enum QueueStep {
    /// The server gives a job.
    Receive(AgentJob),
    /// The running job ends, which the server is told with this.
    Finish(JobStatus),
    /// A job is begun, where one can be.
    Begin,
}

/// The jobs of a session after steps.
pub open spec fn queue_of(steps: Seq<QueueStep>) -> JobQueue
    decreases steps.len(),
{
    if steps.len() == 0 {
        no_jobs()
    } else {
        let before = queue_of(steps.drop_last());
        match steps.last() {
            QueueStep::Receive(job) => received(before, job),
            QueueStep::Finish(_) => finished(before),
            QueueStep::Begin => begun(before),
        }
    }
}

/// The jobs that the server gave.
pub open spec fn given(steps: Seq<QueueStep>) -> Seq<AgentJob>
    decreases steps.len(),
{
    if steps.len() == 0 {
        seq![]
    } else {
        let before = given(steps.drop_last());
        match steps.last() {
            QueueStep::Receive(job) => before.push(job),
            _ => before,
        }
    }
}

/// The jobs that were begun.
pub open spec fn all_begun(steps: Seq<QueueStep>) -> Seq<AgentJob>
    decreases steps.len(),
{
    if steps.len() == 0 {
        seq![]
    } else {
        let before = all_begun(steps.drop_last());
        match steps.last() {
            QueueStep::Begin => match to_begin(queue_of(steps.drop_last())) {
                Some(job) => before.push(job),
                None => before,
            },
            _ => before,
        }
    }
}

/// The number of times that a running job ended.
pub open spec fn ended(steps: Seq<QueueStep>) -> nat
    decreases steps.len(),
{
    if steps.len() == 0 {
        0
    } else {
        let before = ended(steps.drop_last());
        match steps.last() {
            QueueStep::Finish(_) => if queue_of(steps.drop_last()).active {
                before + 1
            } else {
                before
            },
            _ => before,
        }
    }
}

/// No job is lost, none is begun twice, and they are begun in the order in which the server gave
/// them: those that were begun and those that wait are, one after the other, those that it gave.
pub proof fn jobs_are_begun_in_order(steps: Seq<QueueStep>)
    ensures
        all_begun(steps) + queue_of(steps).waiting == given(steps),
    decreases steps.len(),
{
    if steps.len() > 0 {
        let before = steps.drop_last();
        jobs_are_begun_in_order(before);
        let queue = queue_of(before);
        match steps.last() {
            QueueStep::Receive(job) => {
                assert(all_begun(before) + queue.waiting.push(job) =~= given(before).push(job));
            },
            QueueStep::Finish(_) => {},
            QueueStep::Begin => {
                if to_begin(queue) is Some {
                    assert(all_begun(before).push(queue.waiting[0]) + queue.waiting.skip(1)
                        =~= all_begun(before) + queue.waiting);
                }
            },
        }
    } else {
        assert(all_begun(steps) + queue_of(steps).waiting =~= given(steps));
    }
}

/// At most one job is running: of the jobs that were begun all but at most one have ended, and
/// one has not exactly while one is active.
pub proof fn one_job_runs_at_a_time(steps: Seq<QueueStep>)
    ensures
        all_begun(steps).len() == ended(steps) + (if queue_of(steps).active {
            1nat
        } else {
            0
        }),
    decreases steps.len(),
{
    if steps.len() > 0 {
        one_job_runs_at_a_time(steps.drop_last());
    }
}

/// Each job that ends is the one that is running: the one that was begun last.
pub open spec fn orderly(steps: Seq<QueueStep>) -> bool
    decreases steps.len(),
{
    steps.len() == 0 || {
        let before = steps.drop_last();
        &&& orderly(before)
        &&& steps.last() matches QueueStep::Finish(status) ==> {
            &&& queue_of(before).active
            &&& status@.job_id == all_begun(before).last().id@
        }
    }
}

/// What the server is told at the ends of jobs.
pub open spec fn final_statuses(steps: Seq<QueueStep>) -> Seq<StatusView>
    decreases steps.len(),
{
    if steps.len() == 0 {
        seq![]
    } else {
        let before = final_statuses(steps.drop_last());
        match steps.last() {
            QueueStep::Finish(status) => before.push(status@),
            _ => before,
        }
    }
}

/// All that the server is told of jobs: two statuses when one is begun, and one when one ends.
pub open spec fn statuses(steps: Seq<QueueStep>) -> Seq<StatusView>
    decreases steps.len(),
{
    if steps.len() == 0 {
        seq![]
    } else {
        let before = statuses(steps.drop_last());
        match steps.last() {
            QueueStep::Receive(_) => before,
            QueueStep::Finish(status) => before.push(status@),
            QueueStep::Begin => match to_begin(queue_of(steps.drop_last())) {
                Some(job) => before + seq![accepted(job), started(job)],
                None => before,
            },
        }
    }
}

/// Job by job: that it was accepted, that it started, and how it ended where it did.
pub open spec fn job_by_job(jobs: Seq<AgentJob>, ends: Seq<StatusView>) -> Seq<StatusView>
    decreases jobs.len(),
{
    if jobs.len() == 0 {
        seq![]
    } else {
        let n = jobs.len() - 1;
        let begun = job_by_job(jobs.drop_last(), ends) + seq![
            accepted(jobs.last()),
            started(jobs.last()),
        ];
        if n < ends.len() {
            begun.push(ends[n])
        } else {
            begun
        }
    }
}

/// How a further job ended makes no difference to what was told of the others.
proof fn lemma_other_ends(jobs: Seq<AgentJob>, ends: Seq<StatusView>, end: StatusView)
    requires
        jobs.len() <= ends.len(),
    ensures
        job_by_job(jobs, ends.push(end)) == job_by_job(jobs, ends),
    decreases jobs.len(),
{
    if jobs.len() > 0 {
        lemma_other_ends(jobs.drop_last(), ends, end);
    }
}

/// A job that was begun gets at most one final status: the final statuses are those of the jobs
/// that ended, each under the name of its job and in the order in which the jobs were begun.
pub proof fn each_job_ends_once(steps: Seq<QueueStep>)
    requires
        orderly(steps),
    ensures
        final_statuses(steps).len() == ended(steps),
        ended(steps) <= all_begun(steps).len(),
        forall|k: int|
            0 <= k < final_statuses(steps).len() ==> (#[trigger] final_statuses(steps)[k]).job_id
                == all_begun(steps)[k].id@,
    decreases steps.len(),
{
    one_job_runs_at_a_time(steps);
    if steps.len() > 0 {
        let before = steps.drop_last();
        each_job_ends_once(before);
        one_job_runs_at_a_time(before);
        let ends = final_statuses(before);
        let now = final_statuses(steps);
        assert forall|k: int| 0 <= k < now.len() implies (#[trigger] now[k]).job_id == all_begun(
            steps,
        )[k].id@ by {
            if k < ends.len() {
                assert(now[k] == ends[k]);
                assert(all_begun(steps)[k] == all_begun(before)[k]);
            }
        }
    }
}

/// What the server is told goes job by job: that a job was accepted, that it started, and then at
/// most one final status, before anything is told of the next job.
pub proof fn statuses_go_job_by_job(steps: Seq<QueueStep>)
    requires
        orderly(steps),
    ensures
        statuses(steps) == job_by_job(all_begun(steps), final_statuses(steps)),
    decreases steps.len(),
{
    if steps.len() > 0 {
        let before = steps.drop_last();
        statuses_go_job_by_job(before);
        each_job_ends_once(before);
        one_job_runs_at_a_time(before);
        let jobs = all_begun(before);
        let ends = final_statuses(before);
        match steps.last() {
            QueueStep::Receive(_) => {},
            QueueStep::Finish(status) => {
                lemma_other_ends(jobs.drop_last(), ends, status@);
            },
            QueueStep::Begin => {
                if let Some(job) = to_begin(queue_of(before)) {
                    assert(jobs.push(job).drop_last() =~= jobs);
                    assert(jobs.len() == ends.len());
                }
            },
        }
    }
}

/// What happens while the server has not let the node in yet.
pub enum ReadyEvent {
    /// The server says something.
    Message(ServerMessage),
    /// The server sends something that the agent does not know.
    Other,
    /// The server closes the connection, with a reason or not.
    Closed(Option<String>),
    /// The connection breaks.
    Broken(Failure),
    /// The connection ends.
    Ended,
}

/// What a node does while the server has not let it in yet.
pub enum ReadyStep {
    /// It was let in.
    Ready,
    /// It waits.
    Wait,
    /// It was not let in.
    Fail(Failure),
}

/// A node does this while the server has not let it in yet: it waits for its own name.
pub open spec fn awaits(node_id: Seq<char>, event: ReadyEvent, r: ReadyStep) -> bool {
    match event {
        ReadyEvent::Message(ServerMessage::Ready { node_id: let_in }) => if let_in@ == node_id {
            r is Ready
        } else {
            r matches ReadyStep::Fail(failure) && failure.texts() == seq![
                "websocket authenticated for unexpected node: "@ + let_in@,
            ]
        },
        ReadyEvent::Message(ServerMessage::Error { error }) => {
            r matches ReadyStep::Fail(failure) && failure.texts() == seq![
                "server error: "@ + error@,
            ]
        },
        ReadyEvent::Message(ServerMessage::Job { .. }) => r is Wait,
        ReadyEvent::Other => r is Wait,
        ReadyEvent::Closed(reason) => {
            r matches ReadyStep::Fail(failure) && failure.texts() == seq![
                match reason {
                    Some(reason) => reason@,
                    None => "websocket closed during auth"@,
                },
            ]
        },
        ReadyEvent::Broken(cause) => {
            r matches ReadyStep::Fail(failure) && failure.texts() == seq![
                "websocket auth failed"@,
            ] + cause.texts()
        },
        ReadyEvent::Ended => {
            r matches ReadyStep::Fail(failure) && failure.texts() == seq![
                "websocket closed before ready"@,
            ]
        },
    }
}

/// Decides what a node does while the server has not let it in yet: it waits for its own name.
pub fn await_ready(node_id: &str, event: ReadyEvent) -> (r: ReadyStep)
    ensures
        awaits(node_id@, event, r),
{
    match event {
        ReadyEvent::Message(message) => match message {
            ServerMessage::Ready { node_id: let_in } => if chars::same(&let_in, node_id) {
                ReadyStep::Ready
            } else {
                ReadyStep::Fail(
                    Failure::new(
                        chars::cat("websocket authenticated for unexpected node: ", &let_in),
                    ),
                )
            },
            ServerMessage::Error { error } => ReadyStep::Fail(
                Failure::new(chars::cat("server error: ", &error)),
            ),
            ServerMessage::Job { .. } => ReadyStep::Wait,
        },
        ReadyEvent::Other => ReadyStep::Wait,
        ReadyEvent::Closed(reason) => ReadyStep::Fail(
            Failure::new(
                match reason {
                    Some(reason) => reason,
                    None => "websocket closed during auth".to_owned(),
                },
            ),
        ),
        ReadyEvent::Broken(cause) => ReadyStep::Fail(
            cause.context("websocket auth failed".to_owned()),
        ),
        ReadyEvent::Ended => ReadyStep::Fail(
            Failure::new("websocket closed before ready".to_owned()),
        ),
    }
}

/// What to say where the server did not let the node in in time.
pub fn auth_timeout_message(timeout_ms: u64) -> (r: String)
    ensures
        r@ == "websocket auth timed out after "@ + number::decimal(timeout_ms as nat) + " ms"@,
{
    chars::cat3("websocket auth timed out after ", &number::decimal_text(timeout_ms), " ms")
}

/// What to say where no connection was made in time.
pub fn connect_timeout_message(timeout_ms: u64) -> (r: String)
    ensures
        r@ == "ws connect timed out after "@ + number::decimal(timeout_ms as nat) + " ms"@,
{
    chars::cat3("ws connect timed out after ", &number::decimal_text(timeout_ms), " ms")
}

/// What the node is is published: where that is forced, where it has changed, and where it was
/// not published for so long, or not at all.
pub open spec fn publication_due(
    force: bool,
    last_hash: Option<Seq<char>>,
    hash: Seq<char>,
    since_last_ms: Option<u128>,
    republish_interval_ms: u64,
) -> bool {
    ||| force
    ||| last_hash != Some(hash)
    ||| match since_last_ms {
        Some(ms) => ms >= republish_interval_ms,
        None => true,
    }
}

/// Decides whether what the node is is published, over the hash of it that was published last and
/// the milliseconds since then.
pub fn publish_system_info_if_needed(
    force: bool,
    last_hash: Option<&str>,
    hash: &str,
    since_last_ms: Option<u128>,
    republish_interval_ms: u64,
) -> (r: bool)
    ensures
        r == publication_due(
            force,
            chars::opt_str(last_hash),
            hash@,
            since_last_ms,
            republish_interval_ms,
        ),
{
    let changed = match last_hash {
        Some(last) => !chars::same(last, hash),
        None => true,
    };
    let due = match since_last_ms {
        Some(ms) => ms >= republish_interval_ms as u128,
        None => true,
    };
    force || changed || due
}

/// Whether the agent brings up its WireGuard interface.
pub fn applies_wireguard(env: &Environment, configured: bool) -> (r: bool)
    ensures
        r == (configured && environment::flag(env, "STATIX_APPLY_WIREGUARD"@)),
{
    configured && environment::env_flag(env, "STATIX_APPLY_WIREGUARD")
}

/// What to say where the agent has no identity.
pub const NOT_CONFIGURED: &'static str =
    "Agent identity not configured. Run `statix-agent login --api-base-url http://host:3001` with STATIX_AGENT_CONFIG pointing at the service config, or set NODE_ID/NODE_TOKEN in the environment.";

/// Decides whether the agent connects again when a session has ended, `stopped` or by a failure;
/// `stopping` tells whether the agent is to stop.
pub fn connects_again(stopped: bool, stopping: bool) -> (r: bool)
    ensures
        r == (!stopped && !stopping),
{
    !stopped && !stopping
}

} // verus!
