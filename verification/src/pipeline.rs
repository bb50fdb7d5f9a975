//! The provisioning run: fetch the bundle, unpack it, create the prefix, record
//! the prefix in the configuration, remove the staged bundle.
//!
//! The run is a state machine. The caller performs the action it is given and
//! reports how it went; [`advance`] answers with the next action. The steps are
//! strictly sequential, nothing is retried, and nothing already done is undone
//! when a later step fails.

use crate::bundle::{
    bundle_file_name, bundle_name, bundle_url, prefix_dir, prefix_dir_name, prefix_field,
    prefix_key, runtime_bundle, runtime_dir_name,
};
use crate::error::BootstrapError;
use vstd::prelude::*;

verus! {

/// Where a provisioning run stands: which step is under way, or how the run
/// ended.
#[derive(Debug, Clone, Copy, PartialEq, Eq)]
pub enum Stage {
    /// The bundle is being fetched and staged.
    Fetching,
    /// The staged bundle is being unpacked.
    Extracting,
    /// The runtime is creating the prefix.
    Provisioning,
    /// The prefix is being recorded in the configuration.
    Recording,
    /// The staged bundle is being removed.
    Cleaning,
    /// Every step has succeeded.
    Succeeded,
    /// A step has failed; the steps behind it were never begun.
    Failed,
}

/// What the caller is to do next. Every name is that of a file or directory
/// directly below the launcher's resource directory.
#[derive(Debug, PartialEq, Eq)]
pub enum Action {
    /// Fetch what `url` serves and stage it as `file_name`.
    Fetch { url: String, file_name: String },
    /// Unpack the staged archive `file_name` into the resource directory.
    Extract { file_name: String },
    /// Run the executable of the runtime unpacked in `runtime_dir` to create the
    /// prefix in `prefix_dir`, off any thread that has to stay responsive.
    Provision { runtime_dir: String, prefix_dir: String },
    /// Fill in the configuration field `key` with the path of `prefix_dir`.
    RecordPrefix { key: String, prefix_dir: String },
    /// Remove the staged archive `file_name`.
    RemoveArtifact { file_name: String },
    /// The run has ended; `result` is what it reports.
    Finish { result: Result<(), BootstrapError> },
    /// The run had ended before; there is nothing to do.
    Idle,
}

/// An action with its names as plain text.
pub enum ActionView {
    Fetch { url: Seq<char>, file_name: Seq<char> },
    Extract { file_name: Seq<char> },
    Provision { runtime_dir: Seq<char>, prefix_dir: Seq<char> },
    RecordPrefix { key: Seq<char>, prefix_dir: Seq<char> },
    RemoveArtifact { file_name: Seq<char> },
    Finish { result: Result<(), BootstrapError> },
    Idle,
}

impl View for Action {
    type V = ActionView;

    open spec fn view(&self) -> ActionView {
        match *self {
            Action::Fetch { url, file_name } => ActionView::Fetch {
                url: url@,
                file_name: file_name@,
            },
            Action::Extract { file_name } => ActionView::Extract { file_name: file_name@ },
            Action::Provision { runtime_dir, prefix_dir } => ActionView::Provision {
                runtime_dir: runtime_dir@,
                prefix_dir: prefix_dir@,
            },
            Action::RecordPrefix { key, prefix_dir } => ActionView::RecordPrefix {
                key: key@,
                prefix_dir: prefix_dir@,
            },
            Action::RemoveArtifact { file_name } => ActionView::RemoveArtifact {
                file_name: file_name@,
            },
            Action::Finish { result } => ActionView::Finish { result },
            Action::Idle => ActionView::Idle,
        }
    }
}

impl ActionView {
    /// Whether the action is one of the five steps of the run.
    pub open spec fn is_step(self) -> bool {
        self is Fetch || self is Extract || self is Provision || self is RecordPrefix
            || self is RemoveArtifact
    }
}

/// The first action of every run: fetch the bundle and stage it under its file
/// name.
pub open spec fn first_action() -> ActionView {
    ActionView::Fetch { url: bundle_url(), file_name: bundle_file_name() }
}

/// The stage and the action that follow when the step of `stage` ends with
/// `outcome`. A success leads to the next step, a failure ends the run with
/// that failure, and a run that has ended stays as it is.
///
/// What is unpacked, and in the end removed, is the archive that was staged.
/// The prefix is created beside the unpacked runtime, and the directory that is
/// recorded is the one in which it was created.
pub open spec fn step(stage: Stage, outcome: Result<(), BootstrapError>) -> (Stage, ActionView) {
    match (stage, outcome) {
        (Stage::Succeeded, _) => (Stage::Succeeded, ActionView::Idle),
        (Stage::Failed, _) => (Stage::Failed, ActionView::Idle),
        (_, Err(error)) => (Stage::Failed, ActionView::Finish { result: Err(error) }),
        (Stage::Fetching, Ok(())) => (
            Stage::Extracting,
            ActionView::Extract { file_name: bundle_file_name() },
        ),
        (Stage::Extracting, Ok(())) => (
            Stage::Provisioning,
            ActionView::Provision { runtime_dir: bundle_name(), prefix_dir: prefix_dir() },
        ),
        (Stage::Provisioning, Ok(())) => (
            Stage::Recording,
            ActionView::RecordPrefix { key: prefix_key(), prefix_dir: prefix_dir() },
        ),
        (Stage::Recording, Ok(())) => (
            Stage::Cleaning,
            ActionView::RemoveArtifact { file_name: bundle_file_name() },
        ),
        (Stage::Cleaning, Ok(())) => (Stage::Succeeded, ActionView::Finish { result: Ok(()) }),
    }
}

/// The stage of a run whose steps have ended with `outcomes`, in this order.
pub open spec fn stage_after(outcomes: Seq<Result<(), BootstrapError>>) -> Stage
    decreases outcomes.len(),
{
    if outcomes.len() == 0 {
        Stage::Fetching
    } else {
        step(stage_after(outcomes.drop_last()), outcomes.last()).0
    }
}

/// The action that a run asks for once its steps have ended with `outcomes`: the
/// first action of a run where there are none yet.
pub open spec fn action_after(outcomes: Seq<Result<(), BootstrapError>>) -> ActionView {
    if outcomes.len() == 0 {
        first_action()
    } else {
        step(stage_after(outcomes.drop_last()), outcomes.last()).1
    }
}

/// The first `count` outcomes are successes.
pub open spec fn succeeded_so_far(outcomes: Seq<Result<(), BootstrapError>>, count: int) -> bool {
    count <= outcomes.len() && forall|i: int| 0 <= i < count ==> outcomes[i] is Ok
}

/// One of the first five outcomes is a failure.
pub open spec fn failed_within_run(outcomes: Seq<Result<(), BootstrapError>>) -> bool {
    exists|i: int| 0 <= i < outcomes.len() && i < 5 && outcomes[i] is Err
}

/// Begins a provisioning run.
pub fn start() -> (first: (Stage, Action))
    ensures
        first.0 == stage_after(Seq::empty()),
        first.0 == Stage::Fetching,
        first.1@ == action_after(Seq::empty()),
        first.1@ == first_action(),
{
    let bundle = runtime_bundle();
    (Stage::Fetching, Action::Fetch { url: bundle.url, file_name: bundle.file_name })
}

/// Takes the outcome of the step that `stage` names and says how the run goes
/// on.
pub fn advance(stage: Stage, outcome: Result<(), BootstrapError>) -> (next: (Stage, Action))
    ensures
        (next.0, next.1@) == step(stage, outcome),
{
    match stage {
        Stage::Succeeded => (Stage::Succeeded, Action::Idle),
        Stage::Failed => (Stage::Failed, Action::Idle),
        _ => match outcome {
            Err(error) => (Stage::Failed, Action::Finish { result: Err(error) }),
            Ok(()) => match stage {
                Stage::Fetching => (
                    Stage::Extracting,
                    Action::Extract { file_name: runtime_bundle().file_name },
                ),
                Stage::Extracting => (
                    Stage::Provisioning,
                    Action::Provision {
                        runtime_dir: runtime_dir_name(),
                        prefix_dir: prefix_dir_name(),
                    },
                ),
                Stage::Provisioning => (
                    Stage::Recording,
                    Action::RecordPrefix { key: prefix_field(), prefix_dir: prefix_dir_name() },
                ),
                Stage::Recording => (
                    Stage::Cleaning,
                    Action::RemoveArtifact { file_name: runtime_bundle().file_name },
                ),
                _ => (Stage::Succeeded, Action::Finish { result: Ok(()) }),
            },
        },
    }
}

/// The stage of a run tells how many steps have ended and how: a run is under
/// way exactly while fewer than five steps have ended and all of them well, it
/// has succeeded exactly where the first five have ended well, and it has failed
/// exactly where one of the first five has not.
pub proof fn lemma_stage_tells_history(outcomes: Seq<Result<(), BootstrapError>>)
    ensures
        stage_after(outcomes) == Stage::Fetching <==> outcomes.len() == 0,
        stage_after(outcomes) == Stage::Extracting <==> outcomes.len() == 1 && succeeded_so_far(
            outcomes,
            1,
        ),
        stage_after(outcomes) == Stage::Provisioning <==> outcomes.len() == 2 && succeeded_so_far(
            outcomes,
            2,
        ),
        stage_after(outcomes) == Stage::Recording <==> outcomes.len() == 3 && succeeded_so_far(
            outcomes,
            3,
        ),
        stage_after(outcomes) == Stage::Cleaning <==> outcomes.len() == 4 && succeeded_so_far(
            outcomes,
            4,
        ),
        stage_after(outcomes) == Stage::Succeeded <==> succeeded_so_far(outcomes, 5),
        stage_after(outcomes) == Stage::Failed <==> failed_within_run(outcomes),
    decreases outcomes.len(),
{
    if outcomes.len() > 0 {
        let before = outcomes.drop_last();
        lemma_stage_tells_history(before);
        assert forall|count: int| 0 <= count < outcomes.len() implies (succeeded_so_far(
            before,
            count,
        ) <==> succeeded_so_far(outcomes, count)) by {
            assert forall|i: int| 0 <= i < count implies before[i] == outcomes[i] by {}
        }
        if failed_within_run(before) {
            let i = choose|i: int| 0 <= i < before.len() && i < 5 && before[i] is Err;
            assert(outcomes[i] is Err);
        }
        if failed_within_run(outcomes) {
            let i = choose|i: int| 0 <= i < outcomes.len() && i < 5 && outcomes[i] is Err;
            if i < before.len() {
                assert(before[i] is Err);
            }
        }
        if outcomes.len() <= 5 {
            if succeeded_so_far(before, outcomes.len() - 1) && outcomes.last() is Ok {
                assert(succeeded_so_far(outcomes, outcomes.len() as int));
            }
            if outcomes.last() is Err {
                assert(outcomes[outcomes.len() - 1] is Err);
            }
        }
    }
}

/// The steps of a run follow each other in one order, and each is asked for only
/// in answer to the success of the one before it: unpacking never begins before
/// the fetch has succeeded, and the prefix is never created before unpacking has
/// succeeded. The same holds of recording the prefix and of removing the staged
/// bundle, and a fetch is asked for only at the start.
pub proof fn lemma_steps_follow_in_order(outcomes: Seq<Result<(), BootstrapError>>)
    ensures
        action_after(outcomes) is Fetch ==> outcomes.len() == 0,
        action_after(outcomes) is Extract ==> {
            &&& outcomes.len() == 1
            &&& action_after(outcomes.take(0)) is Fetch
            &&& outcomes[0] is Ok
        },
        action_after(outcomes) is Provision ==> {
            &&& outcomes.len() == 2
            &&& action_after(outcomes.take(1)) is Extract
            &&& outcomes[1] is Ok
        },
        action_after(outcomes) is RecordPrefix ==> {
            &&& outcomes.len() == 3
            &&& action_after(outcomes.take(2)) is Provision
            &&& outcomes[2] is Ok
        },
        action_after(outcomes) is RemoveArtifact ==> {
            &&& outcomes.len() == 4
            &&& action_after(outcomes.take(3)) is RecordPrefix
            &&& outcomes[3] is Ok
        },
{
    if outcomes.len() > 0 {
        let before = outcomes.drop_last();
        lemma_stage_tells_history(before);
        if before.len() > 0 && before.len() <= 3 && succeeded_so_far(before, before.len() as int) {
            let earlier = before.drop_last();
            assert(outcomes.take(before.len() as int) =~= before);
            lemma_stage_tells_history(earlier);
            assert(succeeded_so_far(earlier, earlier.len() as int)) by {
                assert forall|i: int| 0 <= i < earlier.len() implies earlier[i] is Ok by {
                    assert(earlier[i] == before[i]);
                }
            }
            assert(before.last() is Ok) by {
                assert(before[before.len() - 1] is Ok);
            }
        }
    }
}

/// A run succeeds only through the removal of the staged bundle: where a run has
/// succeeded, the removal was asked for as its fifth step and went well, and the
/// answer to that was the report of success.
pub proof fn lemma_success_follows_cleanup(outcomes: Seq<Result<(), BootstrapError>>)
    requires
        stage_after(outcomes) == Stage::Succeeded,
    ensures
        outcomes.len() >= 5,
        action_after(outcomes.take(4)) is RemoveArtifact,
        outcomes[4] is Ok,
        action_after(outcomes.take(5)) == (ActionView::Finish { result: Ok(()) }),
{
    lemma_stage_tells_history(outcomes);
    let four = outcomes.take(4);
    let five = outcomes.take(5);
    assert(five.drop_last() =~= four);
    assert(four.drop_last() =~= outcomes.take(3));
    assert(succeeded_so_far(four, 4));
    assert(succeeded_so_far(outcomes.take(3), 3));
    lemma_stage_tells_history(four);
    lemma_stage_tells_history(outcomes.take(3));
    assert(four.last() is Ok) by {
        assert(four[3] == outcomes[3]);
    }
    assert(five.last() == outcomes[4]);
}

/// Once a step has failed the run is over: whatever is reported afterwards, none
/// of the five steps is asked for again. Where the failure is the first one of a
/// run under way, the answer to it is the end of the run with that very failure.
/// So when the fetch fails, nothing is unpacked, no prefix is created and the
/// configuration is not touched.
pub proof fn lemma_failure_ends_run(outcomes: Seq<Result<(), BootstrapError>>, failed: int)
    requires
        0 <= failed < outcomes.len(),
        outcomes[failed] is Err,
    ensures
        forall|k: int| failed < k <= outcomes.len() ==> !(#[trigger] action_after(outcomes.take(k))).is_step(),
        failed < 5 && succeeded_so_far(outcomes, failed) ==> {
            &&& action_after(outcomes.take(failed + 1)) == (ActionView::Finish {
                result: outcomes[failed],
            })
            &&& stage_after(outcomes) == Stage::Failed
        },
{
    assert forall|k: int| failed < k <= outcomes.len() implies !(#[trigger] action_after(
        outcomes.take(k),
    )).is_step() by {
        let upto = outcomes.take(k);
        let before = upto.drop_last();
        lemma_stage_tells_history(before);
        if k - 1 == failed {
            assert(upto.last() == outcomes[failed]);
        } else {
            assert(before[failed] == outcomes[failed]);
            if failed < 5 {
                assert(failed_within_run(before));
            } else if !succeeded_so_far(before, 5) {
                let i = choose|i: int| 0 <= i < 5 && !(before[i] is Ok);
                assert(before[i] is Err);
                assert(failed_within_run(before));
            }
        }
    }
    if failed < 5 && succeeded_so_far(outcomes, failed) {
        let upto = outcomes.take(failed + 1);
        let before = upto.drop_last();
        assert(before =~= outcomes.take(failed));
        lemma_stage_tells_history(before);
        assert(succeeded_so_far(before, failed)) by {
            assert forall|i: int| 0 <= i < failed implies before[i] is Ok by {
                assert(before[i] == outcomes[i]);
            }
        }
        assert(upto.last() == outcomes[failed]);
        lemma_stage_tells_history(outcomes);
        assert(failed_within_run(outcomes));
    }
}

/// The names that the steps of a run are given belong together. What is
/// unpacked is the archive that was staged, and so is what is removed in the
/// end. The runtime is looked for in the directory named as the archive is,
/// without its ending. The field that is filled in is that of the execution
/// prefix, and the directory recorded in it is the one in which the prefix was
/// created.
pub proof fn lemma_steps_share_names(outcomes: Seq<Result<(), BootstrapError>>)
    ensures
        match action_after(outcomes) {
            ActionView::Extract { file_name } => action_after(outcomes.take(0)) == (
            ActionView::Fetch { url: bundle_url(), file_name }),
            ActionView::Provision { runtime_dir, prefix_dir: created } => {
                &&& action_after(outcomes.take(1)) == (ActionView::Extract {
                    file_name: runtime_dir + ".tar.xz"@,
                })
                &&& created == prefix_dir()
            },
            ActionView::RecordPrefix { key, prefix_dir } => {
                &&& key == prefix_key()
                &&& action_after(outcomes.take(2)) == (ActionView::Provision {
                    runtime_dir: bundle_name(),
                    prefix_dir,
                })
            },
            ActionView::RemoveArtifact { file_name } => {
                &&& action_after(outcomes.take(0)) == (ActionView::Fetch {
                    url: bundle_url(),
                    file_name,
                })
                &&& action_after(outcomes.take(1)) == (ActionView::Extract { file_name })
            },
            _ => true,
        },
{
    lemma_steps_follow_in_order(outcomes);
    if outcomes.len() > 0 {
        lemma_stage_tells_history(outcomes.drop_last());
        if outcomes.len() >= 2 && outcomes.len() <= 4 && succeeded_so_far(
            outcomes,
            outcomes.len() as int,
        ) {
            let one = outcomes.take(1);
            let two = outcomes.take(2);
            assert(one.drop_last() =~= outcomes.take(0));
            assert(one.last() == outcomes[0]);
            lemma_stage_tells_history(one.drop_last());
            if outcomes.len() >= 3 {
                assert(two.drop_last() =~= one);
                assert(two.last() == outcomes[1]);
                assert(succeeded_so_far(one, 1));
                lemma_stage_tells_history(one);
            }
        }
    }
}

} // verus!
