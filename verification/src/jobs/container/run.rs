//! The steps in which a command is run in a container.

use crate::failure::Failure;
use crate::jobs::JobExecutionResult;
use vstd::prelude::*;

verus! {

/// A step on the way to a command's result.
#[derive(Debug, Clone, Copy, PartialEq, Eq, Structural)]
pub enum ContainerStep {
    /// Makes and configures the container.
    Create,
    /// Starts the container, and waits until it runs.
    Start,
    /// Gives the container an address.
    Network,
    /// Packs the workspace.
    Archive,
    /// Brings the archive to the container.
    Copy,
    /// Installs what commands need.
    Setup,
    /// Runs the command.
    Run,
    /// Ends what runs in the container.
    Stop,
    /// Removes the container.
    Destroy,
}

/// What came of a step.
pub enum ContainerEvent {
    /// It was done.
    Done,
    /// With it the command ended, or was given up, and this is what the job reports.
    Ended(JobExecutionResult),
    /// It failed.
    Failed(Failure),
}

/// What the rest of a run depends on: whether the way to the command goes on.
pub open spec fn goes_on(event: ContainerEvent) -> bool {
    event is Done
}

/// The step after a step; none at the end. A run that has made its container leads to its removal,
/// whatever comes of the steps between.
pub open spec fn next(step: ContainerStep, on: bool) -> Option<ContainerStep> {
    match step {
        ContainerStep::Create => if on {
            Some(ContainerStep::Start)
        } else {
            None
        },
        ContainerStep::Run => Some(ContainerStep::Stop),
        ContainerStep::Stop => Some(ContainerStep::Destroy),
        ContainerStep::Destroy => None,
        _ => Some(
            if !on {
                ContainerStep::Stop
            } else {
                match step {
                    ContainerStep::Start => ContainerStep::Network,
                    ContainerStep::Network => ContainerStep::Archive,
                    ContainerStep::Archive => ContainerStep::Copy,
                    ContainerStep::Copy => ContainerStep::Setup,
                    _ => ContainerStep::Run,
                }
            },
        ),
    }
}

/// The step after a step.
pub fn next_step(step: ContainerStep, on: bool) -> (r: Option<ContainerStep>)
    ensures
        r == next(step, on),
{
    match step {
        ContainerStep::Create => if on {
            Some(ContainerStep::Start)
        } else {
            None
        },
        ContainerStep::Run => Some(ContainerStep::Stop),
        ContainerStep::Stop => Some(ContainerStep::Destroy),
        ContainerStep::Destroy => None,
        _ => if !on {
            Some(ContainerStep::Stop)
        } else {
            match step {
                ContainerStep::Start => Some(ContainerStep::Network),
                ContainerStep::Network => Some(ContainerStep::Archive),
                ContainerStep::Archive => Some(ContainerStep::Copy),
                ContainerStep::Copy => Some(ContainerStep::Setup),
                _ => Some(ContainerStep::Run),
            }
        },
    }
}

/// A step that cleans up after a run.
pub open spec fn cleans_up(step: ContainerStep) -> bool {
    step == ContainerStep::Stop || step == ContainerStep::Destroy
}

/// What is known of the result after an event. What comes of cleaning up makes no difference.
pub open spec fn result_after(
    step: ContainerStep,
    event: ContainerEvent,
    before: Option<Result<JobExecutionResult, Failure>>,
) -> Option<Result<JobExecutionResult, Failure>> {
    if cleans_up(step) {
        before
    } else {
        match event {
            ContainerEvent::Done => before,
            ContainerEvent::Ended(result) => Some(Ok(result)),
            ContainerEvent::Failed(failure) => Some(Err(failure)),
        }
    }
}

/// A run of a command: the next step, and what is reported at the end as far as it is known.
pub struct ContainerRun {
    pub step: Option<ContainerStep>,
    pub result: Option<Result<JobExecutionResult, Failure>>,
}

impl ContainerRun {
    /// A run that begins.
    pub fn new() -> (r: Self)
        ensures
            r == (ContainerRun { step: Some(ContainerStep::Create), result: None }),
    {
        ContainerRun { step: Some(ContainerStep::Create), result: None }
    }

    /// Takes in what came of the step. A run that has ended stays as it is.
    pub fn advance(&mut self, event: ContainerEvent)
        ensures
            match old(self).step {
                Some(step) => {
                    &&& final(self).step == next(step, goes_on(event))
                    &&& final(self).result == result_after(step, event, old(self).result)
                },
                None => *final(self) == *old(self),
            },
    {
        let step = match self.step {
            Some(step) => step,
            None => {
                return;
            },
        };
        let on = match &event {
            ContainerEvent::Done => true,
            _ => false,
        };
        self.step = next_step(step, on);
        if step != ContainerStep::Stop && step != ContainerStep::Destroy {
            match event {
                ContainerEvent::Done => {},
                ContainerEvent::Ended(result) => {
                    self.result = Some(Ok(result));
                },
                ContainerEvent::Failed(failure) => {
                    self.result = Some(Err(failure));
                },
            }
        }
    }
}

/// A run after events.
pub open spec fn run_after(events: Seq<ContainerEvent>) -> ContainerRun
    decreases events.len(),
{
    if events.len() == 0 {
        ContainerRun { step: Some(ContainerStep::Create), result: None }
    } else {
        let before = run_after(events.drop_last());
        match before.step {
            Some(step) => ContainerRun {
                step: next(step, goes_on(events.last())),
                result: result_after(step, events.last(), before.result),
            },
            None => before,
        }
    }
}

/// The run took a step when `k` events had come.
pub open spec fn took(events: Seq<ContainerEvent>, k: int, step: ContainerStep) -> bool {
    0 <= k < events.len() && run_after(events.take(k)).step == Some(step)
}

/// From its making on, a container is there until it was stopped and then removed.
proof fn lemma_cleaned_up(events: Seq<ContainerEvent>, n: int)
    requires
        0 < n <= events.len(),
        events[0] is Done,
    ensures
        match run_after(events.take(n)).step {
            Some(ContainerStep::Create) => false,
            Some(ContainerStep::Destroy) => 1 < n && took(events, n - 1, ContainerStep::Stop),
            Some(_) => true,
            None => exists|k: int|
                0 < k < n - 1 && took(events, k, ContainerStep::Stop) && #[trigger] took(
                    events,
                    k + 1,
                    ContainerStep::Destroy,
                ),
        },
    decreases n,
{
    let now = events.take(n);
    assert(now.drop_last() =~= events.take(n - 1));
    assert(now.last() == events[n - 1]);
    if n == 1 {
        assert(events.take(0) =~= seq![]);
        assert(run_after(events.take(0)).step == Some(ContainerStep::Create));
    } else {
        lemma_cleaned_up(events, n - 1);
        match run_after(events.take(n - 1)).step {
            Some(step) => {
                if step == ContainerStep::Destroy {
                    assert(took(events, n - 2, ContainerStep::Stop));
                    assert(took(events, (n - 2) + 1, ContainerStep::Destroy));
                }
            },
            None => {
                let k = choose|k: int|
                    0 < k < n - 2 && took(events, k, ContainerStep::Stop) && #[trigger] took(
                        events,
                        k + 1,
                        ContainerStep::Destroy,
                    );
                assert(took(events, k + 1, ContainerStep::Destroy));
            },
        }
    }
}

/// A container that was made and configured is stopped and then removed before its run ends,
/// whatever comes of the steps between.
pub proof fn made_container_is_removed(events: Seq<ContainerEvent>)
    requires
        events.len() > 0,
        events[0] is Done,
        run_after(events).step is None,
    ensures
        exists|k: int|
            took(events, k, ContainerStep::Stop) && #[trigger] took(
                events,
                k + 1,
                ContainerStep::Destroy,
            ),
{
    assert(events.take(events.len() as int) =~= events);
    lemma_cleaned_up(events, events.len() as int);
}

/// A run reports something by the time it cleans up or ends, where running the command does not
/// merely count as done: it gives a result or fails.
pub proof fn run_reports(events: Seq<ContainerEvent>)
    requires
        forall|k: int| #[trigger] took(events, k, ContainerStep::Run) ==> !(events[k] is Done),
    ensures
        match run_after(events).step {
            Some(step) => cleans_up(step) ==> run_after(events).result is Some,
            None => run_after(events).result is Some,
        },
    decreases events.len(),
{
    if events.len() > 0 {
        let before = events.drop_last();
        let n = before.len() as int;
        assert forall|k: int| #[trigger] took(before, k, ContainerStep::Run) implies !(
        before[k] is Done) by {
            assert(before.take(k) =~= events.take(k));
            assert(took(events, k, ContainerStep::Run));
        }
        run_reports(before);
        if run_after(before).step == Some(ContainerStep::Run) {
            assert(events.take(n) =~= before);
            assert(took(events, n, ContainerStep::Run));
        }
    }
}

/// What comes of cleaning up changes nothing of what a run reports.
pub proof fn cleaning_up_is_not_reported(events: Seq<ContainerEvent>, event: ContainerEvent)
    requires
        run_after(events).step matches Some(step) && cleans_up(step),
    ensures
        run_after(events.push(event)).result == run_after(events).result,
{
    assert(events.push(event).drop_last() =~= events);
}

/// How far a step is from the beginning of a run.
pub open spec fn rank(step: ContainerStep) -> int {
    match step {
        ContainerStep::Create => 0,
        ContainerStep::Start => 1,
        ContainerStep::Network => 2,
        ContainerStep::Archive => 3,
        ContainerStep::Copy => 4,
        ContainerStep::Setup => 5,
        ContainerStep::Run => 6,
        ContainerStep::Stop => 7,
        ContainerStep::Destroy => 8,
    }
}

/// A run ends: each step lies further on than the one before it.
pub proof fn run_goes_on(step: ContainerStep, on: bool)
    ensures
        next(step, on) matches Some(after) ==> rank(step) < rank(after) <= 8,
{
}

} // verus!
