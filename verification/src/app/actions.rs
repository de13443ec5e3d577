//! Worktree actions: delete worktrees with their branches, sync branches with origin, and jump to
//! the pull request of a branch. Changes ask for confirmation first and run in the background.
use vstd::prelude::*;

use super::plan::{
    add_delete, add_line, branch_label, counted, delete_lines, delete_plan, delete_refusal,
    label_of, numbers, plan_delete, plan_sync, plural, refuse_delete, refuse_sync, skip_line,
    skip_row, skip_sync, skip_text, skipped_row, sync_line, sync_numbers, sync_plan, sync_refusal,
    sync_skip, sync_text,
};
use super::state::{
    Action, ActionView, App, AppView, Confirm, ConfirmView, DeleteJob, DeleteJobView, Focus, Mode,
    ModeView, Planned, PlannedView, Project, ProjectView, Skipped, SkippedView, SyncJob,
    SyncJobView, Tab, Tone, Verb,
};
use super::{refreshed, said};
use crate::config::{display_path, displayed};
use crate::git::change::{DeleteOutcome, DeleteOutcomeView};
use crate::git::{WorktreeInfo, WorktreeInfoView};
use crate::model::result_view;
use crate::paths::components;
use crate::text::{decimal, decimal_of, lines};

verus! {

// ---------------------------------------------------------------------------------------------
// Rows to act on
// ---------------------------------------------------------------------------------------------

/// The rows of marked worktrees, from the top.
pub open spec fn marked_rows(list: Seq<WorktreeInfoView>, marked: Set<Seq<Seq<char>>>) -> Seq<int>
    decreases list.len(),
{
    if list.len() == 0 {
        Seq::empty()
    } else {
        let before = marked_rows(list.drop_last(), marked);
        if marked.contains(components(list.last().worktree.path)) {
            before.push(list.len() - 1)
        } else {
            before
        }
    }
}

/// The worktree rows of a project that `x` / `s` act on: the marked ones, or else the selected
/// one.
pub open spec fn rows_of(project: ProjectView) -> Seq<int> {
    let marked = marked_rows(project.worktree_list(), project.marked);
    if marked.len() > 0 {
        marked
    } else {
        match project.selected_worktree() {
            Some(_) => seq![project.worktree_table->Some_0 as int],
            None => Seq::empty(),
        }
    }
}

/// The project whose worktree rows can be acted on, or why none can. A refresh has to end first;
/// jobs may be queued while others run.
pub open spec fn row_project(app: AppView) -> Result<int, Seq<char>> {
    if app.tab != Tab::Worktrees || app.focus == Focus::Projects {
        Err("Select a worktree row first (l to open the list)."@)
    } else {
        match app.project_list {
            None => Err("No project selected."@),
            Some(i) => if app.projects[i as int].refreshing || app.projects[i as int].prs_loading {
                Err("Wait until the current refresh or action has finished."@)
            } else if app.projects[i as int].selected_worktree() is None {
                Err("Select a worktree row first."@)
            } else {
                Ok(i as int)
            },
        }
    }
}

/// Row numbers as integers.
pub open spec fn as_rows(rows: Seq<usize>) -> Seq<int> {
    rows.map_values(|row: usize| row as int)
}

/// Every row is a row of the list.
pub open spec fn rows_within(rows: Seq<int>, len: nat) -> bool {
    forall|k: int| 0 <= k < rows.len() ==> 0 <= #[trigger] rows[k] < len
}

pub proof fn lemma_marked_rows(list: Seq<WorktreeInfoView>, marked: Set<Seq<Seq<char>>>)
    ensures
        rows_within(marked_rows(list, marked), list.len()),
        forall|k: int|
            0 <= k < marked_rows(list, marked).len() ==> marked.contains(
                components(list[#[trigger] marked_rows(list, marked)[k]].worktree.path),
            ),
    decreases list.len(),
{
    if list.len() > 0 {
        lemma_marked_rows(list.drop_last(), marked);
        let before = marked_rows(list.drop_last(), marked);
        let all = marked_rows(list, marked);
        assert forall|k: int| 0 <= k < all.len() implies 0 <= #[trigger] all[k] < list.len()
            && marked.contains(components(list[all[k]].worktree.path)) by {
            if k < before.len() {
                assert(all[k] == before[k]);
                assert(list.drop_last()[before[k]] == list[before[k]]);
            }
        }
    }
}

impl Project {
    fn marked_indices(&self) -> (rows: Vec<usize>)
        ensures
            as_rows(rows@) == marked_rows(
                self.deep_view().worktree_list(),
                self.deep_view().marked,
            ),
    {
        let list = self.worktree_list();
        let ghost all = self.deep_view().worktree_list();
        let ghost marked = self.deep_view().marked;
        let mut rows: Vec<usize> = Vec::new();
        let mut i: usize = 0;
        proof {
            assert(as_rows(rows@) =~= marked_rows(all.take(0), marked));
        }
        while i < list.len()
            invariant
                i <= list@.len(),
                all == list.deep_view(),
                marked == self.marked.deep_view(),
                as_rows(rows@) == marked_rows(all.take(i as int), marked),
            decreases list@.len() - i,
        {
            let ghost before = rows@;
            proof {
                assert(all.take(i + 1).drop_last() =~= all.take(i as int));
                assert(all.take(i + 1).last() == list@[i as int].deep_view());
            }
            if self.marked.contains(&list[i].worktree.path) {
                rows.push(i);
                proof {
                    assert(as_rows(rows@) =~= as_rows(before).push(i as int));
                }
            }
            i = i + 1;
        }
        proof {
            assert(all.take(i as int) =~= all);
        }
        rows
    }

    /// The worktree rows that `x` / `s` act on: the marked ones, or else the selected one.
    pub(crate) fn action_rows(&self) -> (rows: Vec<usize>)
        ensures
            as_rows(rows@) == rows_of(self.deep_view()),
            rows_within(rows_of(self.deep_view()), self.deep_view().worktree_list().len()),
    {
        let rows = self.marked_indices();
        proof {
            lemma_marked_rows(self.deep_view().worktree_list(), self.deep_view().marked);
        }
        if rows.len() > 0 {
            return rows;
        }
        let mut rows: Vec<usize> = Vec::new();
        if self.selected_worktree().is_some() {
            if let Some(row) = self.worktree_table {
                rows.push(row);
            }
        }
        proof {
            assert(as_rows(rows@) =~= rows_of(self.deep_view()));
        }
        rows
    }
}

// ---------------------------------------------------------------------------------------------
// Deleting
// ---------------------------------------------------------------------------------------------

/// The jobs that delete these rows; protected rows get none.
pub open spec fn planned_deletes(project: ProjectView, rows: Seq<int>) -> Seq<PlannedView>
    decreases rows.len(),
{
    if rows.len() == 0 {
        Seq::empty()
    } else {
        let before = planned_deletes(project, rows.drop_last());
        let info = project.worktree_list()[rows.last()];
        match delete_refusal(project.path, project.default_branch_name(), info) {
            None => before.push(delete_plan(info)),
            Some(_) => before,
        }
    }
}

/// The protected rows among these.
pub open spec fn skipped_deletes(project: ProjectView, rows: Seq<int>) -> Seq<SkippedView>
    decreases rows.len(),
{
    if rows.len() == 0 {
        Seq::empty()
    } else {
        let before = skipped_deletes(project, rows.drop_last());
        let info = project.worktree_list()[rows.last()];
        match delete_refusal(project.path, project.default_branch_name(), info) {
            None => before,
            Some(why) => before.push(skipped_row(info, Verb::Delete, why)),
        }
    }
}

/// What the dialog says about each row.
pub open spec fn delete_row_lines(
    project: ProjectView,
    rows: Seq<int>,
    home: Option<Seq<char>>,
) -> Seq<(Seq<char>, Tone)>
    decreases rows.len(),
{
    if rows.len() == 0 {
        Seq::empty()
    } else {
        let before = delete_row_lines(project, rows.drop_last(), home);
        let info = project.worktree_list()[rows.last()];
        match delete_refusal(project.path, project.default_branch_name(), info) {
            None => before + delete_lines(info, project.base(), home),
            Some(why) => before.push(skip_line(label_of(info), why)),
        }
    }
}

/// The question before worktrees are deleted.
pub open spec fn delete_dialog(
    project: ProjectView,
    rows: Seq<int>,
    home: Option<Seq<char>>,
) -> ConfirmView {
    let planned = planned_deletes(project, rows);
    let count = decimal(planned.len());
    ConfirmView {
        title: if planned.len() == 1 {
            " Delete worktree "@
        } else {
            " Delete "@ + count + " worktrees "@
        },
        lines: delete_row_lines(project, rows, home) + seq![
            (
                "Deletes with --force: uncommitted and untracked files in them are lost."@,
                Tone::Warn,
            ),
            ("Remote branches are not touched."@, Tone::Muted),
        ],
        yes: if planned.len() == 1 {
            "Delete"@
        } else {
            "Delete "@ + count
        },
        danger: false,
        action: ActionView::Queue {
            project: project.path,
            planned,
            skipped: skipped_deletes(project, rows),
        },
    }
}

/// Deleting the marked worktrees, or else the selected one, is asked for. What cannot be deleted
/// is explained.
pub open spec fn delete_asked(app: AppView) -> AppView {
    match row_project(app) {
        Err(why) => said(app, why),
        Ok(i) => {
            let project = app.projects[i];
            let rows = rows_of(project);
            let skipped = skipped_deletes(project, rows);
            if planned_deletes(project, rows).len() > 0 {
                AppView {
                    mode: ModeView::Confirm(delete_dialog(project, rows, app.home)),
                    ..app
                }
            } else if skipped.len() == 1 {
                said(app, skipped[0].reason)
            } else {
                said(app, "None of the marked worktrees can be deleted."@)
            }
        },
    }
}

// ---------------------------------------------------------------------------------------------
// Syncing
// ---------------------------------------------------------------------------------------------

/// The jobs that sync these rows; rows that are not ready get none.
pub open spec fn planned_syncs(project: ProjectView, rows: Seq<int>) -> Seq<PlannedView>
    decreases rows.len(),
{
    if rows.len() == 0 {
        Seq::empty()
    } else {
        let before = planned_syncs(project, rows.drop_last());
        let info = project.worktree_list()[rows.last()];
        match sync_skip(info) {
            None => before.push(
                sync_plan(info.worktree.path, label_of(info), project.base()),
            ),
            Some(_) => before,
        }
    }
}

/// The rows among these that are not ready.
pub open spec fn skipped_syncs(project: ProjectView, rows: Seq<int>) -> Seq<SkippedView>
    decreases rows.len(),
{
    if rows.len() == 0 {
        Seq::empty()
    } else {
        let before = skipped_syncs(project, rows.drop_last());
        let info = project.worktree_list()[rows.last()];
        match sync_skip(info) {
            None => before,
            Some(why) => before.push(skipped_row(info, Verb::Sync, why)),
        }
    }
}

/// What the dialog says about each row.
pub open spec fn sync_row_lines(project: ProjectView, rows: Seq<int>) -> Seq<(Seq<char>, Tone)>
    decreases rows.len(),
{
    if rows.len() == 0 {
        Seq::empty()
    } else {
        let before = sync_row_lines(project, rows.drop_last());
        let info = project.worktree_list()[rows.last()];
        match sync_skip(info) {
            None => before.push(sync_line(info)),
            Some(why) => before.push(skip_line(label_of(info), why)),
        }
    }
}

/// The question before several branches are synced.
pub open spec fn batch_sync_dialog(project: ProjectView, rows: Seq<int>) -> ConfirmView {
    let planned = planned_syncs(project, rows);
    let count = decimal(planned.len());
    ConfirmView {
        title: " Sync "@ + count + " with origin "@,
        lines: sync_row_lines(project, rows),
        yes: "Sync "@ + count,
        danger: false,
        action: ActionView::Queue {
            project: project.path,
            planned,
            skipped: skipped_syncs(project, rows),
        },
    }
}

/// The question before one branch is synced.
pub open spec fn sync_dialog(
    info: WorktreeInfoView,
    base: Seq<char>,
    home: Option<Seq<char>>,
) -> ConfirmView {
    let branch = label_of(info);
    let (ahead, behind, ff) = sync_numbers(info);
    ConfirmView {
        title: " Sync with origin "@,
        lines: seq![
            ("Merge "@ + base + " into "@ + branch + "?"@, Tone::Normal),
            (
                branch + " is "@ + counted(behind as nat, "commit"@, "commits"@) + " behind and "@
                    + counted(ahead as nat, "commit"@, "commits"@) + " ahead."@,
                Tone::Normal,
            ),
            (
                if ff {
                    "Fast-forward: no merge commit needed."@
                } else {
                    "Creates a merge commit. No history is rewritten, so it is safe for pushed branches."@
                },
                Tone::Muted,
            ),
            (
                "Runs: git merge "@ + base + "  (in "@ + displayed(info.worktree.path, home)
                    + ")"@,
                Tone::Muted,
            ),
        ],
        yes: "Sync"@,
        danger: false,
        action: ActionView::Sync(
            SyncJobView { worktree: info.worktree.path, branch, base },
        ),
    }
}

/// Syncing the marked branches, or else the selected one, is asked for. What cannot be synced is
/// explained.
pub open spec fn sync_asked(app: AppView) -> AppView {
    match row_project(app) {
        Err(why) => said(app, why),
        Ok(i) => {
            let project = app.projects[i];
            let rows = rows_of(project);
            if rows.len() == 1 {
                let info = project.worktree_list()[rows[0]];
                match sync_refusal(info, project.base()) {
                    Some(why) => said(app, why),
                    None => AppView {
                        mode: ModeView::Confirm(sync_dialog(info, project.base(), app.home)),
                        ..app
                    },
                }
            } else if planned_syncs(project, rows).len() > 0 {
                AppView { mode: ModeView::Confirm(batch_sync_dialog(project, rows)), ..app }
            } else {
                said(app, "None of the marked worktrees can be synced."@)
            }
        },
    }
}

/// Asks before one branch is synced.
fn sync_question(info: &WorktreeInfo, base: &str, home: &Option<String>) -> (dialog: Confirm)
    ensures
        dialog.deep_view() == sync_dialog(info.deep_view(), base@, home.deep_view()),
{
    let branch = branch_label(info);
    let shown = display_path(&info.worktree.path, home);
    let (ahead, behind, ff) = numbers(info);
    let mut lines: Vec<(String, Tone)> = Vec::new();
    add_line(
        &mut lines,
        "Merge ".to_owned().concat(base).concat(" into ").concat(&branch).concat("?"),
        Tone::Normal,
    );
    add_line(
        &mut lines,
        branch.clone().concat(" is ").concat(&plural(behind, "commit", "commits")).concat(
            " behind and ",
        ).concat(&plural(ahead, "commit", "commits")).concat(" ahead."),
        Tone::Normal,
    );
    add_line(
        &mut lines,
        if ff {
            "Fast-forward: no merge commit needed.".to_owned()
        } else {
            "Creates a merge commit. No history is rewritten, so it is safe for pushed branches.".to_owned()
        },
        Tone::Muted,
    );
    add_line(
        &mut lines,
        "Runs: git merge ".to_owned().concat(base).concat("  (in ").concat(&shown).concat(")"),
        Tone::Muted,
    );
    proof {
        assert(lines.deep_view() =~= sync_dialog(
            info.deep_view(),
            base@,
            home.deep_view(),
        ).lines);
    }
    Confirm {
        title: " Sync with origin ".to_owned(),
        lines,
        yes: "Sync".to_owned(),
        danger: false,
        action: Action::Sync(
            SyncJob { worktree: info.worktree.path.clone(), branch, base: base.to_owned() },
        ),
    }
}

// ---------------------------------------------------------------------------------------------
// Deletes and syncs that ended
// ---------------------------------------------------------------------------------------------

/// What the status line says about a delete that ended. A refused one gives git's reason; nothing
/// is asked again.
pub open spec fn delete_reported(
    app: AppView,
    job: DeleteJobView,
    outcome: DeleteOutcomeView,
) -> AppView {
    let shown = displayed(job.path, app.home);
    match outcome {
        DeleteOutcomeView::Done => said(
            app,
            match job.branch {
                Some(branch) => "Deleted worktree "@ + shown + " and branch "@ + branch + "."@,
                None => "Deleted worktree "@ + shown + "."@,
            },
        ),
        DeleteOutcomeView::NeedsForce { reason, worktree_removed } => said(
            app,
            match job.branch {
                Some(branch) if worktree_removed => "The worktree "@ + shown
                    + " is already removed; branch "@ + branch + " is left: "@ + reason,
                _ => "Delete of "@ + shown + " was refused: "@ + reason,
            },
        ),
        DeleteOutcomeView::Failed(err) => said(app, "Delete failed: "@ + err),
    }
}

/// A delete ended, and the project is refreshed.
pub open spec fn deleted(
    app: AppView,
    i: int,
    job: DeleteJobView,
    outcome: DeleteOutcomeView,
) -> AppView {
    refreshed(delete_reported(app, job, outcome), i)
}

/// A sync ended, and the project is refreshed.
pub open spec fn synced(
    app: AppView,
    i: int,
    job: SyncJobView,
    result: Result<Seq<char>, Seq<char>>,
) -> AppView {
    refreshed(
        said(
            app,
            match result {
                Ok(summary) => "Synced "@ + job.branch + " with "@ + job.base + ": "@ + summary
                    + "."@,
                Err(err) => "Sync of "@ + job.branch + " failed: "@ + err,
            },
        ),
        i,
    )
}

impl App {
    /// The project whose worktree rows can be acted on, or why none can.
    fn action_project(&self) -> (index: Result<usize, String>)
        requires
            self.deep_view().wf(),
        ensures
            match index {
                Ok(i) => row_project(self.deep_view()) == Ok::<int, Seq<char>>(i as int) && i
                    < self.projects@.len(),
                Err(why) => row_project(self.deep_view()) == Err::<int, Seq<char>>(why@),
            },
    {
        if self.tab != Tab::Worktrees || self.focus == Focus::Projects {
            return Err("Select a worktree row first (l to open the list).".to_owned());
        }
        match self.project_list {
            None => Err("No project selected.".to_owned()),
            Some(i) => if self.projects[i].refreshing || self.projects[i].prs_loading {
                Err("Wait until the current refresh or action has finished.".to_owned())
            } else if self.projects[i].selected_worktree().is_none() {
                Err("Select a worktree row first.".to_owned())
            } else {
                Ok(i)
            },
        }
    }

    pub(crate) fn ask_delete_worktrees(&mut self)
        requires
            old(self).deep_view().wf(),
        ensures
            final(self).deep_view() == delete_asked(old(self).deep_view()),
            final(self).deep_view().wf(),
    {
        let index = match self.action_project() {
            Ok(index) => index,
            Err(why) => {
                self.set_status(why);
                return ;
            },
        };
        let ghost app = self.deep_view();
        let ghost project = app.projects[index as int];
        let rows = self.projects[index].action_rows();
        let ghost all = as_rows(rows@);
        let base = self.projects[index].base_ref();
        let mut planned: Vec<Planned> = Vec::new();
        let mut skipped: Vec<Skipped> = Vec::new();
        let mut lines: Vec<(String, Tone)> = Vec::new();
        let mut k: usize = 0;
        while k < rows.len()
            invariant
                k <= rows@.len(),
                index < self.projects@.len(),
                app == self.deep_view(),
                project == self.projects@[index as int].deep_view(),
                all == as_rows(rows@),
                rows_within(all, project.worktree_list().len()),
                base@ == project.base(),
                planned.deep_view() == planned_deletes(project, all.take(k as int)),
                skipped.deep_view() == skipped_deletes(project, all.take(k as int)),
                lines.deep_view() == delete_row_lines(project, all.take(k as int), app.home),
            decreases rows@.len() - k,
        {
            let list = self.projects[index].worktree_list();
            let ghost had_planned = planned.deep_view();
            let ghost had_skipped = skipped.deep_view();
            proof {
                assert(all[k as int] == rows@[k as int] as int);
                assert(all.take(k + 1).drop_last() =~= all.take(k as int));
                assert(all.take(k + 1).last() == rows@[k as int] as int);
            }
            let info = &list[rows[k]];
            proof {
                assert(project.worktree_list()[all[k as int]] == info.deep_view());
            }
            match refuse_delete(
                &self.projects[index].path,
                self.projects[index].default_branch(),
                info,
            ) {
                None => {
                    planned.push(plan_delete(info));
                    add_delete(&mut lines, info, &base, &self.home);
                    proof {
                        assert(planned.deep_view() =~= had_planned.push(
                            delete_plan(info.deep_view()),
                        ));
                    }
                },
                Some(why) => {
                    let (text, tone) = skip_text(&branch_label(info), &why);
                    add_line(&mut lines, text, tone);
                    skipped.push(skip_row(info, Verb::Delete, why));
                    proof {
                        assert(skipped.deep_view() =~= had_skipped.push(
                            skipped_row(info.deep_view(), Verb::Delete, why@),
                        ));
                    }
                },
            }
            k = k + 1;
        }
        proof {
            assert(all.take(k as int) =~= all);
        }
        let ghost row_lines = lines.deep_view();
        let count = planned.len();
        if count > 0 {
            add_line(
                &mut lines,
                "Deletes with --force: uncommitted and untracked files in them are lost.".to_owned(),
                Tone::Warn,
            );
            add_line(&mut lines, "Remote branches are not touched.".to_owned(), Tone::Muted);
            let title = if count == 1 {
                " Delete worktree ".to_owned()
            } else {
                " Delete ".to_owned().concat(&decimal_of(count as u64)).concat(" worktrees ")
            };
            let yes = if count == 1 {
                "Delete".to_owned()
            } else {
                "Delete ".to_owned().concat(&decimal_of(count as u64))
            };
            let path = self.projects[index].path.clone();
            self.mode = Mode::Confirm(
                Confirm {
                    title,
                    lines,
                    yes,
                    danger: false,
                    action: Action::Queue { project: path, planned, skipped },
                },
            );
            proof {
                let dialog = delete_dialog(project, all, app.home);
                assert(lines.deep_view() =~= dialog.lines);
                assert(self.deep_view() =~= delete_asked(app));
            }
        } else if skipped.len() == 1 {
            let skip = skipped.remove(0);
            proof {
                assert(skipped_deletes(project, all)[0] == skip.deep_view());
            }
            self.set_status(skip.reason);
        } else {
            self.set_status("None of the marked worktrees can be deleted.".to_owned());
        }
    }

    pub(crate) fn ask_sync(&mut self)
        requires
            old(self).deep_view().wf(),
        ensures
            final(self).deep_view() == sync_asked(old(self).deep_view()),
            final(self).deep_view().wf(),
    {
        let index = match self.action_project() {
            Ok(index) => index,
            Err(why) => {
                self.set_status(why);
                return ;
            },
        };
        let ghost app = self.deep_view();
        let ghost project = app.projects[index as int];
        let rows = self.projects[index].action_rows();
        let ghost all = as_rows(rows@);
        let base = self.projects[index].base_ref();
        if rows.len() == 1 {
            proof {
                assert(all[0] == rows@[0] as int);
            }
            let dialog = {
                let info = &self.projects[index].worktree_list()[rows[0]];
                match refuse_sync(info, &base) {
                    Some(why) => Err(why),
                    None => Ok(sync_question(info, &base, &self.home)),
                }
            };
            match dialog {
                Err(why) => {
                    self.set_status(why);
                },
                Ok(dialog) => {
                    self.mode = Mode::Confirm(dialog);
                },
            }
            return ;
        }
        let mut planned: Vec<Planned> = Vec::new();
        let mut skipped: Vec<Skipped> = Vec::new();
        let mut lines: Vec<(String, Tone)> = Vec::new();
        let mut k: usize = 0;
        while k < rows.len()
            invariant
                k <= rows@.len(),
                index < self.projects@.len(),
                app == self.deep_view(),
                project == self.projects@[index as int].deep_view(),
                all == as_rows(rows@),
                rows_within(all, project.worktree_list().len()),
                base@ == project.base(),
                planned.deep_view() == planned_syncs(project, all.take(k as int)),
                skipped.deep_view() == skipped_syncs(project, all.take(k as int)),
                lines.deep_view() == sync_row_lines(project, all.take(k as int)),
            decreases rows@.len() - k,
        {
            let list = self.projects[index].worktree_list();
            let ghost had_planned = planned.deep_view();
            let ghost had_skipped = skipped.deep_view();
            proof {
                assert(all[k as int] == rows@[k as int] as int);
                assert(all.take(k + 1).drop_last() =~= all.take(k as int));
                assert(all.take(k + 1).last() == rows@[k as int] as int);
            }
            let info = &list[rows[k]];
            proof {
                assert(project.worktree_list()[all[k as int]] == info.deep_view());
            }
            match skip_sync(info) {
                None => {
                    let (text, tone) = sync_text(info);
                    add_line(&mut lines, text, tone);
                    planned.push(plan_sync(&info.worktree.path, branch_label(info), &base));
                    proof {
                        assert(planned.deep_view() =~= had_planned.push(
                            sync_plan(info.worktree.path@, label_of(info.deep_view()), base@),
                        ));
                    }
                },
                Some(why) => {
                    let (text, tone) = skip_text(&branch_label(info), &why);
                    add_line(&mut lines, text, tone);
                    skipped.push(skip_row(info, Verb::Sync, why));
                    proof {
                        assert(skipped.deep_view() =~= had_skipped.push(
                            skipped_row(info.deep_view(), Verb::Sync, why@),
                        ));
                    }
                },
            }
            k = k + 1;
        }
        proof {
            assert(all.take(k as int) =~= all);
        }
        let count = planned.len();
        if count > 0 {
            let number = decimal_of(count as u64);
            let path = self.projects[index].path.clone();
            self.mode = Mode::Confirm(
                Confirm {
                    title: " Sync ".to_owned().concat(&number).concat(" with origin "),
                    lines,
                    yes: "Sync ".to_owned().concat(&number),
                    danger: false,
                    action: Action::Queue { project: path, planned, skipped },
                },
            );
        } else {
            self.set_status("None of the marked worktrees can be synced.".to_owned());
        }
    }

    /// Takes in how a delete ended. No dialog opens, whatever the outcome.
    pub fn on_deleted(&mut self, index: usize, job: DeleteJob, outcome: DeleteOutcome)
        requires
            old(self).deep_view().wf(),
            old(self).deep_view().can_refresh(),
        ensures
            final(self).deep_view() == deleted(
                old(self).deep_view(),
                index as int,
                job.deep_view(),
                outcome.deep_view(),
            ),
            final(self).deep_view().mode == old(self).deep_view().mode,
            final(self).deep_view().wf(),
    {
        let shown = display_path(&job.path, &self.home);
        let message = match outcome {
            DeleteOutcome::Done => {
                let start = "Deleted worktree ".to_owned().concat(&shown);
                match &job.branch {
                    Some(branch) => start.concat(" and branch ").concat(branch).concat("."),
                    None => start.concat("."),
                }
            },
            DeleteOutcome::NeedsForce { reason, worktree_removed } => match &job.branch {
                Some(branch) if worktree_removed => "The worktree ".to_owned().concat(
                    &shown,
                ).concat(" is already removed; branch ").concat(branch).concat(
                    " is left: ",
                ).concat(&reason),
                _ => "Delete of ".to_owned().concat(&shown).concat(" was refused: ").concat(
                    &reason,
                ),
            },
            DeleteOutcome::Failed(err) => "Delete failed: ".to_owned().concat(&err),
        };
        self.set_status(message);
        self.refresh(index);
    }

    /// Takes in how a sync ended.
    pub fn on_synced(&mut self, index: usize, job: SyncJob, result: Result<String, String>)
        requires
            old(self).deep_view().wf(),
            old(self).deep_view().can_refresh(),
        ensures
            final(self).deep_view() == synced(
                old(self).deep_view(),
                index as int,
                job.deep_view(),
                result_view(result),
            ),
            final(self).deep_view().wf(),
    {
        let message = match result {
            Ok(summary) => "Synced ".to_owned().concat(&job.branch).concat(" with ").concat(
                &job.base,
            ).concat(": ").concat(&summary).concat("."),
            Err(err) => "Sync of ".to_owned().concat(&job.branch).concat(" failed: ").concat(&err),
        };
        self.set_status(message);
        self.refresh(index);
    }
}

} // verus!
