//! What a run in a virtual machine comes to: what it needs, what it leaves out, and what it reports.

use crate::failure::Failure;
use crate::jobs::microvm::run::{self, Answer, VmEvent, VmStep};
use crate::jobs::JobExecutionResult;
use vstd::prelude::*;

verus! {

/// The run came to a step, whatever came of it.
pub open spec fn took(project: bool, answers: Seq<Answer>, step: VmStep) -> bool {
    exists|i: int|
        0 <= i < answers.len() && run::step_after(project, #[trigger] answers.take(i)) == Some(step)
}

/// The run asked a question, and the answer was yes.
pub open spec fn found(project: bool, answers: Seq<Answer>, step: VmStep) -> bool {
    exists|i: int|
        0 <= i < answers.len() && run::step_after(project, #[trigger] answers.take(i)) == Some(step)
            && answers[i] == Answer::Yes
}

/// What a step made is there: it was made by this run, or it was there already where the machine
/// is that of a project.
pub open spec fn there(project: bool, answers: Seq<Answer>, asked: VmStep, made: VmStep) -> bool {
    run::did(project, answers, made) || (project && found(project, answers, asked))
}

/// What happened stays so.
proof fn lemma_longer(project: bool, answers: Seq<Answer>, step: VmStep)
    requires
        answers.len() > 0,
    ensures
        run::did(project, answers.drop_last(), step) ==> run::did(project, answers, step),
        found(project, answers.drop_last(), step) ==> found(project, answers, step),
        run::step_after(project, answers.drop_last()) == Some(step) && answers.last()
            != Answer::Bad ==> run::did(project, answers, step),
        run::step_after(project, answers.drop_last()) == Some(step) && answers.last()
            == Answer::Yes ==> found(project, answers, step),
{
    let d = answers.drop_last();
    if run::did(project, d, step) {
        let i = choose|i: int|
            0 <= i < d.len() && run::step_after(project, #[trigger] d.take(i)) == Some(step)
                && d[i] != Answer::Bad;
        assert(answers.take(i) =~= d.take(i));
    }
    if found(project, d, step) {
        let i = choose|i: int|
            0 <= i < d.len() && run::step_after(project, #[trigger] d.take(i)) == Some(step)
                && d[i] == Answer::Yes;
        assert(answers.take(i) =~= d.take(i));
    }
    assert(answers.take(d.len() as int) =~= d);
}

/// A step that only a run in a project's machine takes: it asks for what the machine has.
pub open spec fn question(step: VmStep) -> bool {
    step == VmStep::HasDisk || step == VmStep::HasKeys || step == VmStep::HasSeed || step
        == VmStep::IsReady
}

/// A run gets past `made` only where it did it, or where `asked` was answered with yes.
spec fn guards(project: bool, asked: VmStep, made: VmStep) -> bool {
    forall|step: VmStep, answer: Answer|
        #![trigger run::next(project, step, answer)]
        (project || !question(step)) && run::rank(project, step) <= run::rank(project, made) && (
        run::next(project, step, answer)
            matches Some(after) && run::rank(project, made) < run::rank(project, after) < 15) ==> {
            ||| step == made && answer != Answer::Bad
            ||| step == asked && answer == Answer::Yes
        }
}

/// A run that is past a step has done it, or had no need to.
proof fn lemma_past(project: bool, answers: Seq<Answer>, asked: VmStep, made: VmStep)
    requires
        guards(project, asked, made),
        asked == made || question(asked),
    ensures
        run::step_after(project, answers) matches Some(step) ==> (run::rank(project, made)
            < run::rank(project, step) < 15 ==> there(project, answers, asked, made)),
    decreases answers.len(),
{
    if answers.len() > 0 {
        let d = answers.drop_last();
        lemma_past(project, d, asked, made);
        if !project {
            own_machine_is_new(d);
        }
        lemma_longer(project, answers, asked);
        lemma_longer(project, answers, made);
        match run::step_after(project, d) {
            Some(before) => {
                run::run_goes_on(project, before, answers.last());
                assert(run::step_after(project, answers) == run::next(
                    project,
                    before,
                    answers.last(),
                ));
            },
            None => {},
        }
    }
}

/// The command is run only in a machine that runs: it was launched, or, where it is that of a
/// project, found running, and it was waited for. Before that, the disk, the keys and the seed of
/// the machine were each made or found, and the workspace was packed.
pub proof fn command_has_a_machine(project: bool, answers: Seq<Answer>)
    requires
        run::step_after(project, answers) == Some(VmStep::Run),
    ensures
        run::did(project, answers, VmStep::FindImage),
        there(project, answers, VmStep::HasDisk, VmStep::MakeDisk),
        there(project, answers, VmStep::HasKeys, VmStep::MakeKeys),
        there(project, answers, VmStep::HasSeed, VmStep::MakeSeed),
        there(project, answers, VmStep::IsReady, VmStep::Launch),
        run::did(project, answers, VmStep::AwaitReady),
        run::did(project, answers, VmStep::Archive),
{
    lemma_past(project, answers, VmStep::FindImage, VmStep::FindImage);
    lemma_past(project, answers, VmStep::HasDisk, VmStep::MakeDisk);
    lemma_past(project, answers, VmStep::HasKeys, VmStep::MakeKeys);
    lemma_past(project, answers, VmStep::HasSeed, VmStep::MakeSeed);
    lemma_past(project, answers, VmStep::IsReady, VmStep::Launch);
    lemma_past(project, answers, VmStep::AwaitReady, VmStep::AwaitReady);
    lemma_past(project, answers, VmStep::Archive, VmStep::Archive);
}

/// A machine is launched only with its disk, its keys and its seed.
pub proof fn launch_has_its_files(project: bool, answers: Seq<Answer>)
    requires
        run::step_after(project, answers) == Some(VmStep::Launch),
    ensures
        run::did(project, answers, VmStep::MakeRoot),
        run::did(project, answers, VmStep::FindImage),
        there(project, answers, VmStep::HasDisk, VmStep::MakeDisk),
        there(project, answers, VmStep::HasKeys, VmStep::MakeKeys),
        there(project, answers, VmStep::HasSeed, VmStep::MakeSeed),
{
    lemma_past(project, answers, VmStep::MakeRoot, VmStep::MakeRoot);
    lemma_past(project, answers, VmStep::FindImage, VmStep::FindImage);
    lemma_past(project, answers, VmStep::HasDisk, VmStep::MakeDisk);
    lemma_past(project, answers, VmStep::HasKeys, VmStep::MakeKeys);
    lemma_past(project, answers, VmStep::HasSeed, VmStep::MakeSeed);
}

/// A machine is waited for only where it was launched, or found running.
pub proof fn awaited_machine_was_started(project: bool, answers: Seq<Answer>)
    requires
        run::step_after(project, answers) == Some(VmStep::AwaitReady),
    ensures
        there(project, answers, VmStep::IsReady, VmStep::Launch),
{
    lemma_past(project, answers, VmStep::IsReady, VmStep::Launch);
}

/// A seed, which holds the machine's key, is made only when there are keys, and a disk only from
/// an image that was found.
pub proof fn files_are_made_from_others(project: bool, answers: Seq<Answer>)
    ensures
        run::step_after(project, answers) == Some(VmStep::MakeSeed) ==> there(
            project,
            answers,
            VmStep::HasKeys,
            VmStep::MakeKeys,
        ),
        run::step_after(project, answers) == Some(VmStep::MakeKeys) ==> run::did(
            project,
            answers,
            VmStep::MakeKeyDir,
        ),
        run::step_after(project, answers) == Some(VmStep::MakeDisk) ==> run::did(
            project,
            answers,
            VmStep::MakeRoot,
        ) && run::did(project, answers, VmStep::FindImage),
{
    lemma_past(project, answers, VmStep::MakeRoot, VmStep::MakeRoot);
    lemma_past(project, answers, VmStep::FindImage, VmStep::FindImage);
    lemma_past(project, answers, VmStep::MakeKeyDir, VmStep::MakeKeyDir);
    lemma_past(project, answers, VmStep::HasKeys, VmStep::MakeKeys);
}

/// Later steps lie further on.
proof fn lemma_ranks(project: bool, answers: Seq<Answer>, i: int, j: int)
    requires
        0 <= i < j <= answers.len(),
        run::step_after(project, answers.take(j)) is Some,
    ensures
        run::step_after(project, answers.take(i)) is Some,
        run::rank(project, run::step_after(project, answers.take(i))->Some_0) < run::rank(
            project,
            run::step_after(project, answers.take(j))->Some_0,
        ),
    decreases j - i,
{
    assert(answers.take(j).drop_last() =~= answers.take(j - 1));
    let before = run::step_after(project, answers.take(j - 1))->Some_0;
    run::run_goes_on(project, before, answers[j - 1]);
    if i < j - 1 {
        lemma_ranks(project, answers, i, j - 1);
    }
}

/// What a project's machine has already is not made again: neither its disk, nor its keys, nor
/// its seed; and a machine that runs is not launched again.
pub proof fn what_is_there_is_kept(answers: Seq<Answer>)
    ensures
        found(true, answers, VmStep::HasDisk) ==> !took(true, answers, VmStep::MakeDisk),
        found(true, answers, VmStep::HasKeys) ==> !took(true, answers, VmStep::MakeKeys),
        found(true, answers, VmStep::HasSeed) ==> !took(true, answers, VmStep::MakeSeed),
        found(true, answers, VmStep::IsReady) ==> !took(true, answers, VmStep::Launch),
{
    lemma_not_both(answers, VmStep::HasDisk, VmStep::MakeDisk);
    lemma_not_both(answers, VmStep::HasKeys, VmStep::MakeKeys);
    lemma_not_both(answers, VmStep::HasSeed, VmStep::MakeSeed);
    lemma_not_both(answers, VmStep::IsReady, VmStep::Launch);
}

proof fn lemma_not_both(answers: Seq<Answer>, asked: VmStep, made: VmStep)
    requires
        run::rank(true, asked) < run::rank(true, made),
        run::next(true, asked, Answer::Yes) matches Some(after) && run::rank(true, made)
            < run::rank(true, after),
    ensures
        !(found(true, answers, asked) && took(true, answers, made)),
{
    if found(true, answers, asked) && took(true, answers, made) {
        let i = choose|i: int|
            0 <= i < answers.len() && run::step_after(true, #[trigger] answers.take(i)) == Some(
                asked,
            ) && answers[i] == Answer::Yes;
        let j = choose|j: int|
            0 <= j < answers.len() && run::step_after(true, #[trigger] answers.take(j)) == Some(
                made,
            );
        if j < i {
            lemma_ranks(true, answers, j, i);
        } else if i < j {
            assert(answers.take(i + 1).drop_last() =~= answers.take(i));
            assert(answers.take(i + 1).last() == Answer::Yes);
            if i + 1 < j {
                lemma_ranks(true, answers, i + 1, j);
            }
        }
    }
}

/// No step is taken twice.
pub proof fn steps_are_taken_once(project: bool, answers: Seq<Answer>, i: int, j: int)
    requires
        0 <= i < j <= answers.len(),
        run::step_after(project, answers.take(j)) is Some,
    ensures
        run::step_after(project, answers.take(i)) != run::step_after(project, answers.take(j)),
{
    lemma_ranks(project, answers, i, j);
}

/// A machine of its own is made anew: nothing is asked of an earlier one, and no archive is left
/// to be removed, as its files go with it.
pub proof fn own_machine_is_new(answers: Seq<Answer>)
    ensures
        run::step_after(false, answers) matches Some(step) ==> {
            &&& !question(step)
            &&& step != VmStep::RemoveArchive
        },
    decreases answers.len(),
{
    if answers.len() > 0 {
        own_machine_is_new(answers.drop_last());
    }
}

/// No step failed.
pub open spec fn none_failed(answers: Seq<Answer>) -> bool {
    forall|i: int| 0 <= i < answers.len() ==> #[trigger] answers[i] != Answer::Bad
}

/// A run in which no step fails goes on until the command was run.
pub proof fn command_is_run(project: bool, answers: Seq<Answer>)
    requires
        none_failed(answers),
    ensures
        run::step_after(project, answers) is None ==> run::did(project, answers, VmStep::Run),
    decreases answers.len(),
{
    lemma_command_is_run(project, answers);
}

proof fn lemma_command_is_run(project: bool, answers: Seq<Answer>)
    requires
        none_failed(answers),
    ensures
        match run::step_after(project, answers) {
            Some(step) => run::rank(project, step) == 15 ==> run::did(
                project,
                answers,
                VmStep::Run,
            ),
            None => run::did(project, answers, VmStep::Run),
        },
    decreases answers.len(),
{
    if answers.len() > 0 {
        let d = answers.drop_last();
        assert(none_failed(d)) by {
            assert forall|i: int| 0 <= i < d.len() implies #[trigger] d[i] != Answer::Bad by {
                assert(answers[i] != Answer::Bad);
            }
        }
        assert(answers[answers.len() - 1] != Answer::Bad);
        lemma_command_is_run(project, d);
        lemma_longer(project, answers, VmStep::Run);
    }
}

/// How long a run is: after as many answers as there are steps it has ended.
pub proof fn run_ends(project: bool, answers: Seq<Answer>)
    requires
        answers.len() >= 16,
    ensures
        run::step_after(project, answers) is None,
{
    lemma_run_ends(project, answers);
}

proof fn lemma_run_ends(project: bool, answers: Seq<Answer>)
    ensures
        run::step_after(project, answers) matches Some(step) ==> answers.len() <= run::rank(
            project,
            step,
        ) <= 15,
    decreases answers.len(),
{
    if answers.len() > 0 {
        lemma_run_ends(project, answers.drop_last());
    }
}

/// After a step that failed before the command, the command is not run. The run has ended, but
/// for the end of a machine of its own that was launched.
pub proof fn failed_run_stops(project: bool, answers: Seq<Answer>, i: int, j: int)
    requires
        0 <= i < j <= answers.len(),
        answers[i] == Answer::Bad,
        run::step_after(project, answers.take(i)) matches Some(step) && step != VmStep::Run,
    ensures
        run::step_after(project, answers.take(j)) matches Some(step) ==> !project && step
            == VmStep::ShutDown,
    decreases j,
{
    assert(answers.take(j).drop_last() =~= answers.take(j - 1));
    assert(answers.take(j).last() == answers[j - 1]);
    if i < j - 1 {
        failed_run_stops(project, answers, i, j - 1);
    } else if project {
        run::project_machine_runs_on(answers.take(i));
    } else {
        own_machine_is_new(answers.take(i));
    }
}

/// After the command, whatever came of it, a machine of its own is ended, and the archive of a
/// project's workspace is removed; then the run has ended.
pub proof fn command_is_followed_by_cleaning_up(
    project: bool,
    answers: Seq<Answer>,
    first: Answer,
    second: Answer,
)
    requires
        run::step_after(project, answers) == Some(VmStep::Run),
    ensures
        run::step_after(project, answers.push(first)) == Some(
            if project {
                VmStep::RemoveArchive
            } else {
                VmStep::ShutDown
            },
        ),
        run::step_after(project, answers.push(first).push(second)) is None,
{
    assert(answers.push(first).drop_last() =~= answers);
    assert(answers.push(first).push(second).drop_last() =~= answers.push(first));
}

/// What a run reports is what came of the command; where a step before failed, its failure. What
/// comes of cleaning up is not reported.
pub proof fn run_reports_its_command(
    step: VmStep,
    before: Option<Result<JobExecutionResult, Failure>>,
    result: JobExecutionResult,
    failure: Failure,
    event: VmEvent,
)
    ensures
        run::result_after(VmStep::Run, VmEvent::Ran(result), before) == Some(
            Ok::<JobExecutionResult, Failure>(result),
        ),
        step != VmStep::ShutDown && step != VmStep::RemoveArchive ==> run::result_after(
            step,
            VmEvent::Failed(failure),
            before,
        ) == Some(Err::<JobExecutionResult, Failure>(failure)),
        run::result_after(VmStep::ShutDown, event, before) == before,
        run::result_after(VmStep::RemoveArchive, event, before) == before,
        run::result_after(step, VmEvent::Done, before) == before,
        forall|yes: bool| run::result_after(step, VmEvent::Found(yes), before) == before,
{
}

/// A failure counts as one, an answer as what it says, and all else as done.
pub proof fn events_are_told_apart(event: VmEvent)
    ensures
        run::answer(event) == Answer::Bad <==> event is Failed,
        run::answer(event) == Answer::Yes <==> event == VmEvent::Found(true),
{
}

} // verus!
