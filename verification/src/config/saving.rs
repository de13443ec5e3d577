//! Writing the config file, one step after the other. Whichever step fails, and at every moment in
//! between, the file is the old one or the new one as a whole.
use vstd::prelude::*;

use super::{save_failure, save_plan, SavePlan, SavePlanView, SaveStep};
use crate::model::result_view;
use crate::paths::{a_dotted_extension_changes_the_path, components, file_name};

verus! {

/// The steps of a save, in order.
pub open spec fn save_steps() -> Seq<SaveStep> {
    seq![SaveStep::CreateDir, SaveStep::Serialize, SaveStep::Write, SaveStep::Rename]
}

impl SavePlan {
    /// The steps of a save, in order: the temporary file is written whole before it takes the
    /// place of the config file.
    pub fn steps(&self) -> (steps: Vec<SaveStep>)
        ensures
            steps@ == save_steps(),
    {
        vec![SaveStep::CreateDir, SaveStep::Serialize, SaveStep::Write, SaveStep::Rename]
    }
}

/// What a step does.
#[derive(Debug)]
pub enum SaveAction {
    /// Create this directory and those above it, if needed.
    CreateDir(String),
    /// Turn the config into text.
    Serialize,
    /// Write the text to this file.
    Write(String),
    /// Put the first file in the place of the second.
    Rename(String, String),
}

/// A [`SaveAction`] as mathematical values.
#[verifier::ext_equal]
pub enum SaveActionView {
    CreateDir(Seq<char>),
    Serialize,
    Write(Seq<char>),
    Rename(Seq<char>, Seq<char>),
}

impl DeepView for SaveAction {
    type V = SaveActionView;

    open spec fn deep_view(&self) -> SaveActionView {
        match self {
            SaveAction::CreateDir(dir) => SaveActionView::CreateDir(dir@),
            SaveAction::Serialize => SaveActionView::Serialize,
            SaveAction::Write(path) => SaveActionView::Write(path@),
            SaveAction::Rename(from, to) => SaveActionView::Rename(from@, to@),
        }
    }
}

/// A save that is under way.
#[derive(Debug)]
pub struct SaveRun {
    pub plan: SavePlan,
    /// How many steps have succeeded.
    pub done: usize,
    /// Why the save has failed.
    pub error: Option<String>,
}

/// A [`SaveRun`] as mathematical values.
#[verifier::ext_equal]
pub struct SaveRunView {
    pub plan: SavePlanView,
    pub done: usize,
    pub error: Option<Seq<char>>,
}

impl DeepView for SaveRun {
    type V = SaveRunView;

    open spec fn deep_view(&self) -> SaveRunView {
        SaveRunView {
            plan: self.plan.deep_view(),
            done: self.done,
            error: self.error.deep_view(),
        }
    }
}

/// A save before its first step.
pub open spec fn save_begun(plan: SavePlanView) -> SaveRunView {
    SaveRunView { plan, done: 0, error: None }
}

/// The step that is due; none is when the save is over.
pub open spec fn step_due(run: SaveRunView) -> Option<SaveStep> {
    if run.error is None && run.done < save_steps().len() {
        Some(save_steps()[run.done as int])
    } else {
        None
    }
}

/// What a step of a plan does.
pub open spec fn step_action(plan: SavePlanView, step: SaveStep) -> SaveActionView {
    match step {
        SaveStep::CreateDir => SaveActionView::CreateDir(plan.dir),
        SaveStep::Serialize => SaveActionView::Serialize,
        SaveStep::Write => SaveActionView::Write(plan.tmp),
        SaveStep::Rename => SaveActionView::Rename(plan.tmp, plan.path),
    }
}

/// What is to be done next.
pub open spec fn action_due(run: SaveRunView) -> Option<SaveActionView> {
    match step_due(run) {
        Some(step) => Some(step_action(run.plan, step)),
        None => None,
    }
}

/// A save after the step that was due: the first failure ends it.
pub open spec fn save_answered(run: SaveRunView, result: Result<(), Seq<char>>) -> SaveRunView {
    match step_due(run) {
        None => run,
        Some(step) => match result {
            Ok(_) => SaveRunView { done: (run.done + 1) as usize, ..run },
            Err(cause) => SaveRunView {
                error: Some(save_failure(run.plan, step) + ": "@ + cause),
                ..run
            },
        },
    }
}

/// What came of a save that is over.
pub open spec fn save_result(run: SaveRunView) -> Option<Result<(), Seq<char>>> {
    match run.error {
        Some(error) => Some(Err(error)),
        None => if run.done < save_steps().len() {
            None
        } else {
            Some(Ok(()))
        },
    }
}

impl SaveRun {
    /// Starts a save.
    pub fn begin(plan: SavePlan) -> (run: Self)
        ensures
            run.deep_view() == save_begun(plan.deep_view()),
    {
        SaveRun { plan, done: 0, error: None }
    }

    /// The step that is due, if the save is not over.
    pub fn step(&self) -> (step: Option<SaveStep>)
        ensures
            step == step_due(self.deep_view()),
    {
        if self.error.is_some() {
            return None;
        }
        let steps = self.plan.steps();
        if self.done < steps.len() {
            Some(steps[self.done])
        } else {
            None
        }
    }

    /// What is to be done next, if the save is not over.
    pub fn action(&self) -> (action: Option<SaveAction>)
        ensures
            action.deep_view() == action_due(self.deep_view()),
    {
        match self.step() {
            Some(step) => Some(
                match step {
                    SaveStep::CreateDir => SaveAction::CreateDir(self.plan.dir.clone()),
                    SaveStep::Serialize => SaveAction::Serialize,
                    SaveStep::Write => SaveAction::Write(self.plan.tmp.clone()),
                    SaveStep::Rename => SaveAction::Rename(
                        self.plan.tmp.clone(),
                        self.plan.path.clone(),
                    ),
                },
            ),
            None => None,
        }
    }

    /// Takes in how the step that was due went.
    pub fn answer(&mut self, result: Result<(), String>)
        ensures
            final(self).deep_view() == save_answered(old(self).deep_view(), result_view(result)),
    {
        if let Some(step) = self.step() {
            match result {
                Ok(_) => {
                    self.done = self.done + 1;
                },
                Err(cause) => {
                    self.error = Some(self.plan.failure(step).concat(": ").concat(&cause));
                },
            }
        }
    }

    /// What came of the save; `None` while it goes on.
    pub fn finish(self) -> (result: Option<Result<(), String>>)
        ensures
            match result {
                Some(r) => save_result(self.deep_view()) == Some(result_view(r)),
                None => save_result(self.deep_view()) is None,
            },
    {
        let over = self.step().is_none();
        match self.error {
            Some(error) => Some(Err(error)),
            None => if over {
                Some(Ok(()))
            } else {
                None
            },
        }
    }
}

// ---------------------------------------------------------------------------------------------
// Files
// ---------------------------------------------------------------------------------------------

/// Files by the components of their paths, with their contents.
pub type Files = Map<Seq<Seq<char>>, Seq<char>>;

/// How the steps of a save turn out: which succeed and why the others fail, what the config reads
/// as text, and what a failed write leaves in the file that it was to write, if anything.
pub struct Outcomes {
    pub succeeds: spec_fn(SaveStep) -> bool,
    pub cause: spec_fn(SaveStep) -> Seq<char>,
    pub text: Seq<char>,
    pub leftover: Option<Seq<char>>,
}

/// The files after an action. A rename takes effect at once or not at all.
pub open spec fn files_after(files: Files, action: SaveActionView, ok: bool, outcomes: Outcomes) -> Files {
    match action {
        SaveActionView::CreateDir(_) => files,
        SaveActionView::Serialize => files,
        SaveActionView::Write(path) => if ok {
            files.insert(components(path), outcomes.text)
        } else {
            match outcomes.leftover {
                Some(text) => files.insert(components(path), text),
                None => files,
            }
        },
        SaveActionView::Rename(from, to) => if ok {
            files.remove(components(from)).insert(components(to), files[components(from)])
        } else {
            files
        },
    }
}

/// A save and the files after the first `n` steps, or fewer if it is over before.
pub open spec fn after_steps(plan: SavePlanView, files: Files, outcomes: Outcomes, n: nat) -> (
    SaveRunView,
    Files,
)
    decreases n,
{
    if n == 0 {
        (save_begun(plan), files)
    } else {
        let (run, now) = after_steps(plan, files, outcomes, (n - 1) as nat);
        match step_due(run) {
            None => (run, now),
            Some(step) => {
                let ok = (outcomes.succeeds)(step);
                (
                    save_answered(
                        run,
                        if ok {
                            Ok(())
                        } else {
                            Err((outcomes.cause)(step))
                        },
                    ),
                    files_after(now, step_action(plan, step), ok, outcomes),
                )
            },
        }
    }
}

/// The files hold the same at `path`: the same text, or no file in both.
pub open spec fn same_at(before: Files, after: Files, path: Seq<Seq<char>>) -> bool {
    &&& before.contains_key(path) == after.contains_key(path)
    &&& before.contains_key(path) ==> before[path] == after[path]
}

/// A file name has a directory above it, so there is a plan to save to it.
pub proof fn every_file_can_be_planned(path: Seq<char>)
    requires
        file_name(path) is Some,
    ensures
        save_plan(path) is Ok,
{
}

/// At every moment of a save, whichever steps fail and whatever a failed write leaves behind, the
/// config file is the old one or the new one as a whole: it stays as it was until the last step has
/// succeeded, and then holds the new text. No other file changes but the temporary one. After as
/// many steps as there are the save is over, and it has succeeded exactly when every step has.
pub proof fn the_config_is_whole_at_every_moment(
    path: Seq<char>,
    files: Files,
    outcomes: Outcomes,
    n: nat,
)
    requires
        file_name(path) is Some,
    ensures
        ({
            let plan = save_plan(path)->Ok_0;
            let (run, now) = after_steps(plan, files, outcomes, n);
            let key = components(path);
            let complete = save_result(run) == Some(Ok::<(), Seq<char>>(()));
            &&& !complete ==> same_at(files, now, key)
            &&& complete ==> now.contains_key(key) && now[key] == outcomes.text
            &&& forall|other: Seq<Seq<char>>|
                other != key && other != components(plan.tmp) ==> #[trigger] same_at(
                    files,
                    now,
                    other,
                )
            &&& n >= save_steps().len() ==> save_result(run) is Some
            &&& n >= save_steps().len() ==> (complete <==> forall|i: int|
                0 <= i < save_steps().len() ==> (outcomes.succeeds)(#[trigger] save_steps()[i]))
        }),
{
    let plan = save_plan(path)->Ok_0;
    let (run, now) = after_steps(plan, files, outcomes, n);
    lemma_steps(path, files, outcomes, n);
    let steps = save_steps();
    if n >= steps.len() {
        if run.error is Some {
            assert(!(outcomes.succeeds)(steps[run.done as int]));
        } else {
            assert forall|i: int| 0 <= i < steps.len() implies (outcomes.succeeds)(
                #[trigger] steps[i],
            ) by {}
        }
    }
}

proof fn lemma_steps(path: Seq<char>, files: Files, outcomes: Outcomes, n: nat)
    requires
        file_name(path) is Some,
    ensures
        ({
            let plan = save_plan(path)->Ok_0;
            let (run, now) = after_steps(plan, files, outcomes, n);
            let key = components(path);
            let tmp = components(plan.tmp);
            &&& run.plan == plan
            &&& run.done <= 4
            &&& run.error is Some ==> run.done < 4 && !(outcomes.succeeds)(
                save_steps()[run.done as int],
            )
            &&& run.error is None ==> run.done == if n < 4 {
                n
            } else {
                4
            }
            &&& n >= 4 && run.error is None ==> run.done == 4
            &&& forall|i: int| 0 <= i < run.done ==> (outcomes.succeeds)(#[trigger] save_steps()[i])
            &&& run.done < 4 ==> same_at(files, now, key)
            &&& run.done == 4 ==> now.contains_key(key) && now[key] == outcomes.text
            &&& run.done == 3 ==> now.contains_key(tmp) && now[tmp] == outcomes.text
            &&& forall|other: Seq<Seq<char>>|
                other != key && other != tmp ==> #[trigger] same_at(files, now, other)
        }),
    decreases n,
{
    reveal_strlit("toml.tmp");
    let extension = "toml.tmp"@;
    assert(extension[4] == '.');
    a_dotted_extension_changes_the_path(path, extension, 4);
    if n > 0 {
        lemma_steps(path, files, outcomes, (n - 1) as nat);
        let plan = save_plan(path)->Ok_0;
        let key = components(path);
        let tmp = components(plan.tmp);
        let (was, before) = after_steps(plan, files, outcomes, (n - 1) as nat);
        let (run, now) = after_steps(plan, files, outcomes, n);
        assert(tmp != key);
        if let Some(step) = step_due(was) {
            assert(step == save_steps()[was.done as int]);
            let ok = (outcomes.succeeds)(step);
            assert(now == files_after(before, step_action(plan, step), ok, outcomes));
            assert forall|i: int| 0 <= i < run.done implies (outcomes.succeeds)(
                #[trigger] save_steps()[i],
            ) by {
                if i < was.done {
                    assert((outcomes.succeeds)(save_steps()[i]));
                }
            }
            assert forall|other: Seq<Seq<char>>| other != key && other != tmp implies #[trigger] same_at(
                files,
                now,
                other,
            ) by {
                assert(same_at(files, before, other));
            }
            if was.done == 3 && ok {
                assert(now == before.remove(tmp).insert(key, before[tmp]));
            }
            if was.done < 3 || !ok {
                assert(same_at(before, now, key));
            }
            assert(run.done == 3 ==> now.contains_key(tmp) && now[tmp] == outcomes.text);
        }
    }
}

} // verus!
