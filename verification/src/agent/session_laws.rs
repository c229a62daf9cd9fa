//! What a session with the server comes to: when it goes on, when it ends, and what it tells.

use crate::agent::session::{
    self, JobQueue, JobStatus, ReadyEvent, ReadyStep, ServerMessage, SessionAction, SessionEvent,
};
use crate::agent::AgentJob;
use crate::failure::{self, Failure};
use crate::jobs::JobExecutionResult;
use crate::text::chars;
use vstd::prelude::*;

verus! {

/// The connection breaks or ends by itself.
pub open spec fn connection_lost(event: SessionEvent) -> bool {
    event is Broken || event is Ended
}

/// A session stops where the agent is told to, and where the connection is lost while the agent
/// stops; for nothing else.
pub proof fn session_stops_when_told(event: SessionEvent, stopping: bool, action: SessionAction)
    requires
        session::acts(event, stopping, action),
    ensures
        action is Stop <==> event == SessionEvent::StopChanged(true) || (stopping
            && connection_lost(event)),
{
}

/// A session fails where the server tells an error or closes the connection, where the connection
/// is lost while the agent does not stop, and where its own jobs cannot be heard any more; for
/// nothing else, whatever else the server sends.
pub proof fn session_fails_with_its_connection(
    event: SessionEvent,
    stopping: bool,
    action: SessionAction,
)
    requires
        session::acts(event, stopping, action),
    ensures
        action is Fail <==> {
            ||| event matches SessionEvent::Message(ServerMessage::Error { .. })
            ||| event is Closed
            ||| connection_lost(event) && !stopping
            ||| event == SessionEvent::JobDone(None)
            ||| event == SessionEvent::JobLog(None)
        },
{
}

/// What the server is told comes from the jobs, as it comes; measurements and what the node is are
/// published when it is time, and then only.
pub proof fn session_hands_on(event: SessionEvent, stopping: bool, action: SessionAction)
    requires
        session::acts(event, stopping, action),
    ensures
        action is PublishMetrics <==> event is PublishTick,
        action is PublishSystemInfo <==> event is SystemTick,
        forall|status: JobStatus|
            action == SessionAction::SendStatus(status) <==> event == SessionEvent::JobDone(
                Some(status),
            ),
        forall|line: crate::jobs::JobLogLine|
            action == SessionAction::SendLog(line) <==> event == SessionEvent::JobLog(Some(line)),
{
}

/// Why a session failed is told: what the server said stands at the end of it, and a lost
/// connection keeps its causes.
pub proof fn failure_of_a_session_is_told(
    event: SessionEvent,
    stopping: bool,
    action: SessionAction,
)
    requires
        session::acts(event, stopping, action),
        action is Fail,
    ensures
        action->Fail_0.texts().len() > 0,
        event matches SessionEvent::Message(ServerMessage::Error { error })
            ==> error@.is_suffix_of(action->Fail_0.texts()[0]),
        event matches SessionEvent::Closed(Some(reason)) ==> action->Fail_0.texts()[0] == reason@,
        event matches SessionEvent::Broken(cause) ==> action->Fail_0.texts().skip(1)
            == cause.texts(),
{
    match event {
        SessionEvent::Message(ServerMessage::Error { error }) => {
            let said = "server error: "@ + error@;
            assert(said.skip(said.len() - error@.len()) =~= error@);
            assert(error@.is_suffix_of(said));
        },
        SessionEvent::Broken(cause) => {
            assert((seq!["websocket session failed"@] + cause.texts()).skip(1) =~= cause.texts());
        },
        _ => {},
    }
}

/// A job that the server gives waits behind the others, and one that ends lets the next one
/// begin. Nothing else changes the jobs.
pub proof fn only_jobs_change_the_jobs(queue: JobQueue, event: SessionEvent)
    ensures
        event matches SessionEvent::Message(ServerMessage::Job { job }) ==> {
            &&& session::queue_after(queue, event).waiting == queue.waiting.push(job)
            &&& session::queue_after(queue, event).active == queue.active
        },
        event matches SessionEvent::JobDone(Some(_)) ==> {
            &&& session::queue_after(queue, event).waiting == queue.waiting
            &&& !session::queue_after(queue, event).active
        },
        !(event matches SessionEvent::Message(ServerMessage::Job { .. })) && !(event matches
            SessionEvent::JobDone(Some(_))) ==> session::queue_after(queue, event) == queue,
{
}

/// Where a job waits and none is running, the one that waits longest is begun; it is then running
/// and does not wait any more. While one is running none is begun.
pub proof fn waiting_job_is_begun(queue: JobQueue)
    ensures
        queue.active ==> session::to_begin(queue) is None && session::begun(queue) == queue,
        queue.waiting.len() == 0 ==> session::to_begin(queue) is None && session::begun(queue)
            == queue,
        !queue.active && queue.waiting.len() > 0 ==> {
            &&& session::to_begin(queue) == Some(queue.waiting.first())
            &&& session::begun(queue).active
            &&& session::begun(queue).waiting == queue.waiting.drop_first()
        },
        !session::no_jobs().active && session::no_jobs().waiting.len() == 0,
{
    if queue.waiting.len() > 0 {
        assert(queue.waiting.skip(1) =~= queue.waiting.drop_first());
    }
}

/// What the server is told of a job that is begun names that job.
pub proof fn statuses_name_their_job(job: AgentJob)
    ensures
        session::accepted(job).job_id == job.id@,
        session::accepted(job).status == "accepted"@,
        session::started(job).job_id == job.id@,
        session::started(job).status == "started"@,
{
}

/// The end of a job is told under its name: as its result tells it; a failure as failed, and with
/// all that is known of it.
pub proof fn end_is_told(
    job_id: Seq<char>,
    result: Result<JobExecutionResult, Failure>,
    status: JobStatus,
)
    requires
        session::tells_end(job_id, result, status),
    ensures
        status@.job_id == job_id,
        result matches Ok(ended) ==> status@.status == ended.status@ && status@.message
            == chars::opt_text(ended.message),
        result matches Err(error) ==> status@.status == "failed"@ && (status@.message matches Some(
            said,
        ) && said == failure::chain_text(error.texts())),
{
}

/// A node is let in where the server tells it ready under its own name, and then only. Under
/// another name, on an error and without a connection it is not; on anything else it waits on.
pub proof fn node_is_let_in_by_name(node_id: Seq<char>, event: ReadyEvent, step: ReadyStep)
    requires
        session::awaits(node_id, event, step),
    ensures
        step is Ready <==> (event matches ReadyEvent::Message(ServerMessage::Ready { node_id: name })
            && name@ == node_id),
        step is Wait <==> event is Other || (event matches ReadyEvent::Message(ServerMessage::Job {
            ..
        })),
        event is Closed || event is Broken || event is Ended ==> step is Fail,
{
}

/// What the node is is published again only where it is forced, where it differs from what was
/// published, or after the interval; and always in these cases.
pub proof fn publication_is_not_repeated(
    last: Seq<char>,
    hash: Seq<char>,
    since_ms: u128,
    interval_ms: u64,
)
    ensures
        last == hash && since_ms < interval_ms ==> !session::publication_due(
            false,
            Some(last),
            hash,
            Some(since_ms),
            interval_ms,
        ),
        last != hash ==> session::publication_due(
            false,
            Some(last),
            hash,
            Some(since_ms),
            interval_ms,
        ),
        since_ms >= interval_ms ==> session::publication_due(
            false,
            Some(last),
            hash,
            Some(since_ms),
            interval_ms,
        ),
        session::publication_due(true, Some(last), hash, Some(since_ms), interval_ms),
        session::publication_due(false, None, hash, Some(since_ms), interval_ms),
        session::publication_due(false, Some(last), hash, None, interval_ms),
{
}

} // verus!
