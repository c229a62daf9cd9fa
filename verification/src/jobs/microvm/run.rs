//! The steps in which a command is run in a virtual machine.

use crate::failure::Failure;
use crate::jobs::JobExecutionResult;
use vstd::prelude::*;

verus! {

/// A step on the way to a command's result.
#[derive(Debug, Clone, Copy, PartialEq, Eq, Structural)]
pub enum VmStep {
    /// Makes the directory of the machine's files.
    MakeRoot,
    /// Finds the image that the machine boots.
    FindImage,
    /// Asks whether the machine has a disk already.
    HasDisk,
    /// Makes the machine's disk.
    MakeDisk,
    /// Makes the directory of the machine's keys.
    MakeKeyDir,
    /// Asks whether the machine has keys already.
    HasKeys,
    /// Makes the machine's keys.
    MakeKeys,
    /// Packs the workspace.
    Archive,
    /// Asks whether the machine has a seed already.
    HasSeed,
    /// Makes the seed that sets the machine up.
    MakeSeed,
    /// Asks whether the machine runs already.
    IsReady,
    /// Starts the machine.
    Launch,
    /// Waits until the machine has booted.
    AwaitReady,
    /// Runs the command.
    Run,
    /// Ends the machine.
    ShutDown,
    /// Removes the archive of the workspace.
    RemoveArchive,
}

/// What came of a step.
pub enum VmEvent {
    /// It was done.
    Done,
    /// The answer to a question.
    Found(bool),
    /// The command ran, and this is what the job reports.
    Ran(JobExecutionResult),
    /// It failed.
    Failed(Failure),
}

/// What the rest of a run depends on.
#[derive(Debug, Clone, Copy, PartialEq, Eq, Structural)]
pub enum Answer {
    Good,
    Yes,
    Bad,
}

/// What the rest of a run depends on.
pub open spec fn answer(event: VmEvent) -> Answer {
    match event {
        VmEvent::Done => Answer::Good,
        VmEvent::Found(yes) => if yes {
            Answer::Yes
        } else {
            Answer::Good
        },
        VmEvent::Ran(_) => Answer::Good,
        VmEvent::Failed(_) => Answer::Bad,
    }
}

/// The step after a step, in a machine of its own or in that of a project; none at the end.
pub open spec fn next(project: bool, step: VmStep, answer: Answer) -> Option<VmStep> {
    match step {
        VmStep::AwaitReady if !project => if answer == Answer::Bad {
            Some(VmStep::ShutDown)
        } else {
            Some(VmStep::Run)
        },
        VmStep::Run => if project {
            Some(VmStep::RemoveArchive)
        } else {
            Some(VmStep::ShutDown)
        },
        VmStep::ShutDown => None,
        VmStep::RemoveArchive => None,
        _ => if answer == Answer::Bad {
            None
        } else {
            match step {
                VmStep::MakeRoot => Some(VmStep::FindImage),
                VmStep::FindImage => Some(
                    if project {
                        VmStep::HasDisk
                    } else {
                        VmStep::MakeDisk
                    },
                ),
                VmStep::HasDisk => Some(
                    if answer == Answer::Yes {
                        VmStep::MakeKeyDir
                    } else {
                        VmStep::MakeDisk
                    },
                ),
                VmStep::MakeDisk => Some(VmStep::MakeKeyDir),
                VmStep::MakeKeyDir => Some(
                    if project {
                        VmStep::HasKeys
                    } else {
                        VmStep::MakeKeys
                    },
                ),
                VmStep::HasKeys => Some(
                    if answer == Answer::Yes {
                        VmStep::HasSeed
                    } else {
                        VmStep::MakeKeys
                    },
                ),
                VmStep::MakeKeys => Some(
                    if project {
                        VmStep::HasSeed
                    } else {
                        VmStep::Archive
                    },
                ),
                VmStep::HasSeed => Some(
                    if answer == Answer::Yes {
                        VmStep::IsReady
                    } else {
                        VmStep::MakeSeed
                    },
                ),
                VmStep::MakeSeed => Some(
                    if project {
                        VmStep::IsReady
                    } else {
                        VmStep::Launch
                    },
                ),
                VmStep::IsReady => Some(
                    if answer == Answer::Yes {
                        VmStep::AwaitReady
                    } else {
                        VmStep::Launch
                    },
                ),
                VmStep::Launch => Some(VmStep::AwaitReady),
                VmStep::AwaitReady => Some(VmStep::Archive),
                _ => Some(
                    if project {
                        VmStep::Run
                    } else {
                        VmStep::MakeSeed
                    },
                ),
            }
        },
    }
}

/// A run of a command: the next step, and what is reported at the end as far as it is known.
pub struct VmRun {
    pub project: bool,
    pub step: Option<VmStep>,
    pub result: Option<Result<JobExecutionResult, Failure>>,
}

/// What is known of the result after an event: a failure before the command ran, else what came
/// of the command.
pub open spec fn result_after(
    step: VmStep,
    event: VmEvent,
    before: Option<Result<JobExecutionResult, Failure>>,
) -> Option<Result<JobExecutionResult, Failure>> {
    if step == VmStep::ShutDown || step == VmStep::RemoveArchive {
        before
    } else {
        match event {
            VmEvent::Ran(result) => Some(Ok(result)),
            VmEvent::Failed(failure) => Some(Err(failure)),
            _ => before,
        }
    }
}

impl VmRun {
    /// A run that begins.
    pub fn new(project: bool) -> (r: Self)
        ensures
            r == (VmRun { project, step: Some(VmStep::MakeRoot), result: None }),
    {
        VmRun { project, step: Some(VmStep::MakeRoot), result: None }
    }

    /// Takes in what came of the step. A run that has ended stays as it is.
    pub fn advance(&mut self, event: VmEvent)
        ensures
            match old(self).step {
                Some(step) => {
                    &&& final(self).project == old(self).project
                    &&& final(self).step == next(old(self).project, step, answer(event))
                    &&& final(self).result == result_after(step, event, old(self).result)
                },
                None => *final(self) == *old(self),
            },
    {
        let step = match self.step {
            Some(step) => step,
            None => {
                return;
            },
        };
        let answer = match &event {
            VmEvent::Failed(_) => Answer::Bad,
            VmEvent::Found(yes) => if *yes {
                Answer::Yes
            } else {
                Answer::Good
            },
            _ => Answer::Good,
        };
        self.step = next_step(self.project, step, answer);
        if step != VmStep::ShutDown && step != VmStep::RemoveArchive {
            match event {
                VmEvent::Ran(result) => {
                    self.result = Some(Ok(result));
                },
                VmEvent::Failed(failure) => {
                    self.result = Some(Err(failure));
                },
                _ => {},
            }
        }
    }
}

/// The step after a step.
pub fn next_step(project: bool, step: VmStep, answer: Answer) -> (r: Option<VmStep>)
    ensures
        r == next(project, step, answer),
{
    let bad = answer == Answer::Bad;
    let yes = answer == Answer::Yes;
    match step {
        VmStep::ShutDown => None,
        VmStep::RemoveArchive => None,
        VmStep::Run => if project {
            Some(VmStep::RemoveArchive)
        } else {
            Some(VmStep::ShutDown)
        },
        VmStep::AwaitReady => if project {
            if bad {
                None
            } else {
                Some(VmStep::Archive)
            }
        } else if bad {
            Some(VmStep::ShutDown)
        } else {
            Some(VmStep::Run)
        },
        _ => if bad {
            None
        } else {
            match step {
                VmStep::MakeRoot => Some(VmStep::FindImage),
                VmStep::FindImage => if project {
                    Some(VmStep::HasDisk)
                } else {
                    Some(VmStep::MakeDisk)
                },
                VmStep::HasDisk => if yes {
                    Some(VmStep::MakeKeyDir)
                } else {
                    Some(VmStep::MakeDisk)
                },
                VmStep::MakeDisk => Some(VmStep::MakeKeyDir),
                VmStep::MakeKeyDir => if project {
                    Some(VmStep::HasKeys)
                } else {
                    Some(VmStep::MakeKeys)
                },
                VmStep::HasKeys => if yes {
                    Some(VmStep::HasSeed)
                } else {
                    Some(VmStep::MakeKeys)
                },
                VmStep::MakeKeys => if project {
                    Some(VmStep::HasSeed)
                } else {
                    Some(VmStep::Archive)
                },
                VmStep::HasSeed => if yes {
                    Some(VmStep::IsReady)
                } else {
                    Some(VmStep::MakeSeed)
                },
                VmStep::MakeSeed => if project {
                    Some(VmStep::IsReady)
                } else {
                    Some(VmStep::Launch)
                },
                VmStep::IsReady => if yes {
                    Some(VmStep::AwaitReady)
                } else {
                    Some(VmStep::Launch)
                },
                VmStep::Launch => Some(VmStep::AwaitReady),
                _ => if project {
                    Some(VmStep::Run)
                } else {
                    Some(VmStep::MakeSeed)
                },
            }
        },
    }
}

/// The step that a run is at after answers; none where it has ended.
pub open spec fn step_after(project: bool, answers: Seq<Answer>) -> Option<VmStep>
    decreases answers.len(),
{
    if answers.len() == 0 {
        Some(VmStep::MakeRoot)
    } else {
        match step_after(project, answers.drop_last()) {
            Some(step) => next(project, step, answers.last()),
            None => None,
        }
    }
}

/// The run took a step, and it was done.
pub open spec fn did(project: bool, answers: Seq<Answer>, step: VmStep) -> bool {
    exists|i: int|
        0 <= i < answers.len() && step_after(project, #[trigger] answers.take(i)) == Some(step)
            && answers[i] != Answer::Bad
}

/// A machine of its own is running at a step.
pub open spec fn running(step: VmStep) -> bool {
    step == VmStep::AwaitReady || step == VmStep::Run || step == VmStep::ShutDown
}

/// From the launch on, a machine of its own is running until it is ended.
proof fn lemma_runs_on(answers: Seq<Answer>, i: int, j: int)
    requires
        0 <= i < j <= answers.len(),
        step_after(false, answers.take(i)) == Some(VmStep::Launch),
        answers[i] != Answer::Bad,
    ensures
        match step_after(false, answers.take(j)) {
            Some(step) => running(step),
            None => exists|k: int|
                i < k < j && step_after(false, #[trigger] answers.take(k)) == Some(
                    VmStep::ShutDown,
                ),
        },
    decreases j,
{
    assert(answers.take(j).drop_last() =~= answers.take(j - 1));
    assert(answers.take(j).last() == answers[j - 1]);
    if j > i + 1 {
        lemma_runs_on(answers, i, j - 1);
        if step_after(false, answers.take(j)) is None {
            match step_after(false, answers.take(j - 1)) {
                Some(step) => {
                    assert(step == VmStep::ShutDown);
                },
                None => {
                    let k = choose|k: int|
                        i < k < j - 1 && step_after(false, #[trigger] answers.take(k)) == Some(
                            VmStep::ShutDown,
                        );
                    assert(i < k < j);
                },
            }
        }
    }
}

/// A machine of its own that was started is ended, whatever comes of the steps between.
pub proof fn started_machine_is_ended(answers: Seq<Answer>)
    requires
        did(false, answers, VmStep::Launch),
        step_after(false, answers) is None,
    ensures
        exists|k: int|
            0 <= k < answers.len() && step_after(false, #[trigger] answers.take(k)) == Some(
                VmStep::ShutDown,
            ),
{
    let i = choose|i: int|
        0 <= i < answers.len() && step_after(false, #[trigger] answers.take(i)) == Some(
            VmStep::Launch,
        ) && answers[i] != Answer::Bad;
    lemma_runs_on(answers, i, answers.len() as int);
    assert(answers.take(answers.len() as int) =~= answers);
    let k = choose|k: int|
        i < k < answers.len() && step_after(false, #[trigger] answers.take(k)) == Some(
            VmStep::ShutDown,
        );
    assert(0 <= k < answers.len());
}

/// A step of a project's run is not the end of its machine, which serves the next command.
pub proof fn project_machine_runs_on(answers: Seq<Answer>)
    ensures
        step_after(true, answers) != Some(VmStep::ShutDown),
    decreases answers.len(),
{
    if answers.len() > 0 {
        project_machine_runs_on(answers.drop_last());
    }
}

/// How far a step is from the beginning of a run.
pub open spec fn rank(project: bool, step: VmStep) -> int {
    match step {
        VmStep::MakeRoot => 0,
        VmStep::FindImage => 1,
        VmStep::HasDisk => 2,
        VmStep::MakeDisk => 3,
        VmStep::MakeKeyDir => 4,
        VmStep::HasKeys => 5,
        VmStep::MakeKeys => 6,
        VmStep::Archive => if project {
            13
        } else {
            7
        },
        VmStep::HasSeed => 8,
        VmStep::MakeSeed => 9,
        VmStep::IsReady => 10,
        VmStep::Launch => 11,
        VmStep::AwaitReady => 12,
        VmStep::Run => 14,
        VmStep::ShutDown => 15,
        VmStep::RemoveArchive => 15,
    }
}

/// A run ends: each step lies further on than the one before it.
pub proof fn run_goes_on(project: bool, step: VmStep, answer: Answer)
    ensures
        match next(project, step, answer) {
            Some(after) => rank(project, step) < rank(project, after) <= 15,
            None => true,
        },
{
}

} // verus!
