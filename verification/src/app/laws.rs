//! What holds of the application as a whole.
use vstd::prelude::*;

use super::actions::{
    delete_asked, planned_deletes, planned_syncs, rows_within, skipped_deletes, skipped_syncs,
    sync_asked,
};
use super::cleanup::{merged_keys, merged_marked, merged_paths};
use super::input::{
    key_pressed, letter_pressed, normal_key_pressed, pressed, selected_jumped_to_pr, Key, KeyCode,
};
use super::marks::{lemma_row_of_key, listed_keys};
use super::mouse::{clicked, mark_clicked, only_mark_toggled};
use super::plan::{delete_plan, label_of, sync_plan, sync_skip};
use super::project::{stepped_to, with_worktrees};
use super::projects::{
    launched, project_paths, remove_asked, repository_added, saved, selected_removed, updated,
};
use super::queue::{active_count, enqueued, has_active, job_finished, quit_asked};
use super::state::{
    ActionView, AppView, Button, Focus, JobStateView, ModeView, PathInputView, PlannedView,
    ProjectView, RequestView, SkippedView, Tab,
};
use super::{
    mark_toggled, moved, opened, project_at, project_selected, refreshed, selected_mark_toggled,
    tab_set, went_back, with_mark_toggled,
};
use crate::config::{loaded, ConfigFileView};
use crate::git::WorktreeInfoView;
use crate::paths::{components, same_path};
use crate::worker::{TaskView, UpdateView};

verus! {

// ---------------------------------------------------------------------------------------------
// Reloads
// ---------------------------------------------------------------------------------------------

/// Marks survive a reload: a worktree that is still listed is marked exactly when it was, and one
/// that is gone is not marked.
pub proof fn marks_survive_a_reload(
    project: ProjectView,
    list: Seq<WorktreeInfoView>,
    key: Seq<Seq<char>>,
)
    ensures
        with_worktrees(project, Ok(list)).marked.contains(key) <==> (project.marked.contains(key)
            && listed_keys(list).contains(key)),
{
}

/// The cursor stays on its worktree across a reload that still lists it, wherever it moves to.
pub proof fn the_cursor_follows_its_worktree(project: ProjectView, list: Seq<WorktreeInfoView>)
    requires
        list.len() <= usize::MAX,
        project.selected_worktree() is Some,
        listed_keys(list).contains(components(project.selected_worktree()->Some_0.worktree.path)),
    ensures
        with_worktrees(project, Ok(list)).selected_worktree() is Some,
        same_path(
            with_worktrees(project, Ok(list)).selected_worktree()->Some_0.worktree.path,
            project.selected_worktree()->Some_0.worktree.path,
        ),
{
    lemma_row_of_key(list, components(project.selected_worktree()->Some_0.worktree.path));
}

/// A reload that fails keeps the marks.
pub proof fn a_failed_reload_keeps_the_marks(project: ProjectView, reason: Seq<char>)
    ensures
        with_worktrees(project, Err(reason)).marked == project.marked,
{
}

/// Pull requests and files that belong to an older reload change no project.
pub proof fn late_pr_results_are_ignored(app: AppView, update: UpdateView)
    requires
        update.kind is Prs || update.kind is PrFiles,
        project_at(app.projects, update.project) matches Some(i) ==> 0 <= i < app.projects.len()
            && app.projects[i].pr_generation != update.generation,
    ensures
        updated(app, update).projects == app.projects,
{
    if let Some(i) = project_at(app.projects, update.project) {
        assert(app.projects.update(i, app.projects[i]) =~= app.projects);
    }
}

/// Results for a project that is not in the list change nothing.
pub proof fn results_for_removed_projects_are_ignored(app: AppView, update: UpdateView)
    requires
        project_at(app.projects, update.project) is None,
    ensures
        updated(app, update) == app,
{
}

/// Results of the background work never move the user: the projects and their order, the selected
/// project, the focus, the tab and an open dialog stay as they are.
pub proof fn results_do_not_move_the_user(app: AppView, update: UpdateView)
    ensures
        project_paths(updated(app, update).projects) == project_paths(app.projects),
        updated(app, update).project_list == app.project_list,
        updated(app, update).focus == app.focus,
        updated(app, update).tab == app.tab,
        updated(app, update).mode == app.mode,
{
    let after = updated(app, update);
    lemma_project_at(app.projects, update.project);
    assert(project_paths(after.projects) =~= project_paths(app.projects));
}

proof fn lemma_project_at(projects: Seq<ProjectView>, path: Seq<char>)
    ensures
        project_at(projects, path) matches Some(i) ==> 0 <= i < projects.len() && same_path(
            projects[i].path,
            path,
        ),
    decreases projects.len(),
{
    if projects.len() > 0 {
        lemma_project_at(projects.drop_first(), path);
    }
}

/// A project that is being refreshed gets no second refresh.
pub proof fn no_refresh_while_refreshing(app: AppView, i: int)
    requires
        0 <= i < app.projects.len(),
        app.projects[i].refreshing,
    ensures
        refreshed(app, i).projects == app.projects,
        refreshed(app, i).requests == app.requests,
{
}

/// A refresh puts exactly one task on the project's lane, behind what waits there, and leaves all
/// other lanes alone.
pub proof fn a_refresh_is_one_task(app: AppView, i: int)
    requires
        0 <= i < app.projects.len(),
        !app.projects[i].refreshing,
        app.project_list matches Some(s) ==> s < app.projects.len(),
    ensures
        refreshed(app, i).projects.len() == app.projects.len(),
        refreshed(app, i).projects[i].lane == app.projects[i].lane.push(TaskView::Refresh),
        refreshed(app, i).projects[i].refreshing,
        refreshed(app, i).projects[i].loaded,
        forall|j: int|
            0 <= j < app.projects.len() && j != i ==> (#[trigger] refreshed(app, i).projects[j]).lane
                == app.projects[j].lane,
{
}

// ---------------------------------------------------------------------------------------------
// Marks
// ---------------------------------------------------------------------------------------------

/// Marking a row twice leaves everything as it was.
pub proof fn marking_twice_changes_nothing(app: AppView, index: int)
    requires
        app.project_list matches Some(i) ==> i < app.projects.len(),
    ensures
        mark_toggled(mark_toggled(app, index), index) == app,
{
    if let Some(project) = app.selected_project() {
        if 0 <= index < project.worktree_list().len() {
            let i = app.project_list->Some_0 as int;
            let key = components(project.worktree_list()[index].worktree.path);
            let once = with_mark_toggled(project, key);
            assert(with_mark_toggled(once, key).marked =~= project.marked);
            assert(with_mark_toggled(once, key) =~= project);
            let first = mark_toggled(app, index);
            assert(first.projects[i] == once);
            assert(first.selected_project() == Some(once));
            assert(once.worktree_list() == project.worktree_list());
            assert(mark_toggled(first, index).projects =~= app.projects);
        }
    }
}

/// Marking the merged worktrees when not all of them are marked and then again leaves the other
/// marks as they were and no merged worktree marked.
pub proof fn marking_merged_twice_unmarks_them(app: AppView)
    requires
        app.project_list matches Some(i) ==> i < app.projects.len(),
        app.tab == Tab::Worktrees,
        app.selected_project() matches Some(project) ==> !merged_keys(
            project.worktree_list(),
        ).subset_of(project.marked),
    ensures
        app.selected_project() matches Some(project) ==> merged_marked(
            merged_marked(app),
        ).selected_project()->Some_0.marked == project.marked.difference(
            merged_keys(project.worktree_list()),
        ),
{
    if let Some(project) = app.selected_project() {
        let i = app.project_list->Some_0 as int;
        let keys = merged_keys(project.worktree_list());
        if merged_paths(project.worktree_list()).len() == 0 {
            assert(keys =~= Set::empty());
            assert(false);
        }
        let once = merged_marked(app);
        let marked = ProjectView { marked: project.marked.union(keys), ..project };
        assert(once.projects[i] == marked);
        assert(once.selected_project() == Some(marked));
        assert(marked.worktree_list() == project.worktree_list());
        assert(keys.subset_of(marked.marked));
        assert(marked.marked.difference(keys) =~= project.marked.difference(keys));
    }
}

// ---------------------------------------------------------------------------------------------
// Deleting and syncing
// ---------------------------------------------------------------------------------------------

/// Every planned delete is for one of the rows, which is neither the main worktree nor on the
/// default branch.
pub proof fn protected_worktrees_are_never_deleted(project: ProjectView, rows: Seq<int>, k: int)
    requires
        rows_within(rows, project.worktree_list().len()),
        0 <= k < planned_deletes(project, rows).len(),
    ensures
        exists|r: int|
            #![trigger rows[r]]
            0 <= r < rows.len() && {
                let info = project.worktree_list()[rows[r]];
                &&& planned_deletes(project, rows)[k] == delete_plan(info)
                &&& !info.worktree.main
                &&& !same_path(info.worktree.path, project.path)
                &&& info.worktree.branch != Some(project.default_branch_name())
            },
    decreases rows.len(),
{
    let fewer = rows.drop_last();
    let info = project.worktree_list()[rows.last()];
    let before = planned_deletes(project, fewer);
    if k < before.len() {
        assert(rows_within(fewer, project.worktree_list().len())) by {
            assert forall|j: int| 0 <= j < fewer.len() implies 0 <= #[trigger] fewer[j]
                < project.worktree_list().len() by {
                assert(fewer[j] == rows[j]);
            }
        }
        protected_worktrees_are_never_deleted(project, fewer, k);
        let r = choose|r: int|
            #![trigger fewer[r]]
            0 <= r < fewer.len() && {
                let info = project.worktree_list()[fewer[r]];
                &&& before[k] == delete_plan(info)
                &&& !info.worktree.main
                &&& !same_path(info.worktree.path, project.path)
                &&& info.worktree.branch != Some(project.default_branch_name())
            };
        assert(rows[r] == fewer[r]);
    } else {
        assert(rows[rows.len() - 1] == rows.last());
        assert(planned_deletes(project, rows)[k] == delete_plan(info));
    }
}

/// Every planned sync is for one of the rows, whose merge was checked and is ready.
pub proof fn only_ready_worktrees_are_synced(project: ProjectView, rows: Seq<int>, k: int)
    requires
        rows_within(rows, project.worktree_list().len()),
        0 <= k < planned_syncs(project, rows).len(),
    ensures
        exists|r: int|
            #![trigger rows[r]]
            0 <= r < rows.len() && {
                let info = project.worktree_list()[rows[r]];
                &&& planned_syncs(project, rows)[k] == sync_plan(
                    info.worktree.path,
                    label_of(info),
                    project.base(),
                )
                &&& sync_skip(info) is None
            },
    decreases rows.len(),
{
    let fewer = rows.drop_last();
    let before = planned_syncs(project, fewer);
    if k < before.len() {
        assert(rows_within(fewer, project.worktree_list().len())) by {
            assert forall|j: int| 0 <= j < fewer.len() implies 0 <= #[trigger] fewer[j]
                < project.worktree_list().len() by {
                assert(fewer[j] == rows[j]);
            }
        }
        only_ready_worktrees_are_synced(project, fewer, k);
        let r = choose|r: int|
            #![trigger fewer[r]]
            0 <= r < fewer.len() && {
                let info = project.worktree_list()[fewer[r]];
                &&& before[k] == sync_plan(info.worktree.path, label_of(info), project.base())
                &&& sync_skip(info) is None
            };
        assert(rows[r] == fewer[r]);
    } else {
        assert(rows[rows.len() - 1] == rows.last());
    }
}

/// Every row of a delete or a sync is accounted for: it is either planned or skipped.
pub proof fn every_row_is_planned_or_skipped(project: ProjectView, rows: Seq<int>)
    ensures
        planned_deletes(project, rows).len() + skipped_deletes(project, rows).len() == rows.len(),
        planned_syncs(project, rows).len() + skipped_syncs(project, rows).len() == rows.len(),
    decreases rows.len(),
{
    if rows.len() > 0 {
        every_row_is_planned_or_skipped(project, rows.drop_last());
    }
}

/// A lane got no job: it is as it was, or has one more refresh.
pub open spec fn no_new_job(before: Seq<TaskView>, after: Seq<TaskView>) -> bool {
    after == before || after == before.push(TaskView::Refresh)
}

/// No job was queued and no project added, removed or moved on the way from `before` to `after`.
#[verifier::opaque]
pub open spec fn no_job_queued(before: AppView, after: AppView) -> bool {
    &&& after.jobs == before.jobs
    &&& after.projects.len() == before.projects.len()
    &&& forall|i: int|
        0 <= i < before.projects.len() ==> (#[trigger] after.projects[i]).path
            == before.projects[i].path && no_new_job(
            before.projects[i].lane,
            after.projects[i].lane,
        )
}

proof fn lemma_refresh_queues_no_job(app: AppView, i: int)
    ensures
        no_job_queued(app, refreshed(app, i)),
{
    reveal(no_job_queued);
}

proof fn lemma_moving_queues_no_job(app: AppView, delta: int)
    requires
        app.wf(),
    ensures
        no_job_queued(app, moved(app, app.focus, delta)),
{
    reveal(no_job_queued);
    if app.focus == Focus::Projects {
        let next = stepped_to(app.project_list, app.projects.len(), delta);
        if let Some(i) = next {
            lemma_refresh_queues_no_job(AppView { project_list: next, ..app }, i as int);
        }
    }
}

proof fn lemma_letters_queue_no_job(app: AppView, c: char)
    requires
        app.wf(),
    ensures
        no_job_queued(app, letter_pressed(app, c)),
{
    lemma_moving_queues_no_job(app, 1);
    lemma_moving_queues_no_job(app, -1);
    if let Some(i) = app.project_list {
        lemma_refresh_queues_no_job(app, i as int);
    }
    lemma_questions_queue_no_job(app);
}

proof fn lemma_questions_queue_no_job(app: AppView)
    requires
        app.wf(),
    ensures
        no_job_queued(app, app),
        no_job_queued(app, quit_asked(app)),
        no_job_queued(app, remove_asked(app)),
        no_job_queued(app, delete_asked(app)),
        no_job_queued(app, sync_asked(app)),
        no_job_queued(app, selected_jumped_to_pr(app)),
        no_job_queued(app, selected_mark_toggled(app)),
        no_job_queued(app, merged_marked(app)),
        no_job_queued(app, opened(app)),
        no_job_queued(app, went_back(app)),
        forall|tab: Tab| no_job_queued(app, #[trigger] tab_set(app, tab)),
        forall|mode: ModeView| no_job_queued(app, AppView { mode, ..app }),
        no_job_queued(app, AppView { show_queue: !app.show_queue, ..app }),
{
    reveal(no_job_queued);
}

/// A key of normal mode queues no job.
#[verifier::rlimit(30)]
proof fn lemma_normal_keys_queue_no_job(app: AppView, code: KeyCode)
    requires
        app.wf(),
    ensures
        no_job_queued(app, normal_key_pressed(app, code)),
{
    lemma_moving_queues_no_job(app, 1);
    lemma_moving_queues_no_job(app, -1);
    lemma_questions_queue_no_job(app);
    if let KeyCode::Char(c) = code {
        lemma_letters_queue_no_job(app, c);
    }
}

/// While no dialog is open, no key queues a job: deletes and syncs always ask first.
pub proof fn keys_alone_queue_no_job(app: AppView, key: Key)
    requires
        app.wf(),
        app.mode is Normal,
    ensures
        no_job_queued(app, key_pressed(app, key)),
{
    lemma_normal_keys_queue_no_job(app, key.code);
    lemma_questions_queue_no_job(app);
}

/// While no dialog is open, no key adds or removes a project or changes a job, `d` and `x`
/// included: they only ask.
pub proof fn keys_alone_keep_the_project_list(app: AppView, key: Key)
    requires
        app.wf(),
        app.mode is Normal,
    ensures
        project_paths(key_pressed(app, key).projects) == project_paths(app.projects),
        key_pressed(app, key).jobs == app.jobs,
{
    keys_alone_queue_no_job(app, key);
    reveal(no_job_queued);
    assert(project_paths(key_pressed(app, key).projects) =~= project_paths(app.projects));
}

/// The key is bound to something while no dialog is open.
pub open spec fn is_bound(code: KeyCode) -> bool {
    match code {
        KeyCode::Char(c) => {
            ||| c == 'q' || c == '?' || c == 'a' || c == 'd' || c == 'x' || c == 's' || c == 'p'
            ||| c == ' ' || c == 'M' || c == 'Q' || c == 'r' || c == 'j' || c == 'k' || c == 'l'
            ||| c == 'h'
        },
        KeyCode::Backspace => false,
        KeyCode::Other => false,
        _ => true,
    }
}

/// The project paths and the jobs are the same before and after.
pub open spec fn projects_and_jobs_kept(before: AppView, after: AppView) -> bool {
    project_paths(after.projects) == project_paths(before.projects) && after.jobs == before.jobs
}

/// No job is queued or running.
pub open spec fn is_idle(app: AppView) -> bool {
    forall|i: int| 0 <= i < app.jobs.len() ==> !(#[trigger] app.jobs[i]).is_active()
}

/// What the keys do while no dialog is open. No key, `d` and `x` included, adds or removes a
/// project or changes a job. `q` quits exactly when no job is queued or running, `?` opens the help,
/// `a` asks for a path with nothing typed yet, Tab shows the other tab and Tab again the same one,
/// and a key that is not bound changes nothing.
#[verifier::rlimit(30)]
pub proof fn what_the_keys_do(app: AppView, code: KeyCode)
    requires
        app.wf(),
    ensures
        ({
            let after = normal_key_pressed(app, code);
            &&& projects_and_jobs_kept(app, after)
            &&& code == KeyCode::Char('q') && !app.should_quit ==> after.should_quit == is_idle(app)
            &&& code == KeyCode::Char('?') ==> after == (AppView { mode: ModeView::Help, ..app })
            &&& code == KeyCode::Char('a') ==> after == (AppView {
                mode: ModeView::AddProject(PathInputView { text: Seq::empty(), error: None }),
                ..app
            })
            &&& code == KeyCode::Tab || code == KeyCode::BackTab ==> after.tab != app.tab
                && normal_key_pressed(after, code).tab == app.tab
            &&& !is_bound(code) ==> after == app
        }),
{
    lemma_normal_keys_queue_no_job(app, code);
    reveal(no_job_queued);
    assert(project_paths(normal_key_pressed(app, code).projects) =~= project_paths(app.projects));
    lemma_active(app.jobs);
}

/// A click on the mark column of a worktree row marks or unmarks exactly that worktree: the other
/// marks, the selections, the focus, the tab and everything else stay as they are, and the same
/// click again restores the application.
pub proof fn a_click_on_a_mark_toggles_it(app: AppView, x: u16, y: u16)
    requires
        app.wf(),
        mark_clicked(app, x, y) is Some,
    ensures
        only_mark_toggled(app, clicked(app, x, y), mark_clicked(app, x, y)->Some_0),
        clicked(clicked(app, x, y), x, y) == app,
{
    let row = mark_clicked(app, x, y)->Some_0;
    let i = app.project_list->Some_0 as int;
    let after = clicked(app, x, y);
    assert(after == mark_toggled(app, row));
    assert(after.projects[i].marked == after.selected_project()->Some_0.marked);
    marking_twice_changes_nothing(app, row);
}

/// Dismissing a dialog closes it and changes nothing else.
pub proof fn dismissing_changes_nothing_else(app: AppView)
    ensures
        pressed(app, Button::No) == (AppView { mode: ModeView::Normal, ..app }),
{
}

/// Any key but Ctrl+C closes the help and does nothing else.
pub proof fn any_key_closes_the_help(app: AppView, key: Key)
    requires
        app.mode is Help,
        !(key.control && key.code == KeyCode::Char('c')),
    ensures
        key_pressed(app, key) == (AppView { mode: ModeView::Normal, ..app }),
{
}

// ---------------------------------------------------------------------------------------------
// The queue
// ---------------------------------------------------------------------------------------------

/// Queued jobs go behind what waits on the lane, in the order of the plan, each under the id of
/// its entry in the panel; skipped rows get an entry but no task.
pub proof fn queued_jobs_keep_their_order(
    app: AppView,
    i: int,
    project: Seq<char>,
    planned: Seq<PlannedView>,
    skipped: Seq<SkippedView>,
)
    requires
        app.wf(),
        project_at(app.projects, project) == Some(i),
        0 <= i < app.projects.len(),
        app.next_job + planned.len() + skipped.len() <= u64::MAX,
    ensures
        ({
            let after = enqueued(app, project, planned, skipped);
            let waiting = app.projects[i].lane.len() as int;
            let entries = app.jobs.len() as int;
            &&& after.projects[i].lane.len() == waiting + planned.len()
            &&& after.projects[i].lane.take(waiting) == app.projects[i].lane
            &&& after.jobs.len() == entries + planned.len() + skipped.len()
            &&& forall|k: int|
                0 <= k < planned.len() ==> #[trigger] after.projects[i].lane[waiting + k]
                    == TaskView::Job { id: after.jobs[entries + k].id, job: planned[k].job }
            &&& forall|k: int|
                0 <= k < planned.len() ==> (#[trigger] after.jobs[entries + k]).state is Pending
            &&& forall|k: int|
                0 <= k < skipped.len() ==> (#[trigger] after.jobs[entries + planned.len()
                    + k]).state == JobStateView::Skipped(skipped[k].reason)
        }),
{
    let after = enqueued(app, project, planned, skipped);
    let waiting = app.projects[i].lane.len() as int;
    assert(after.projects[i].lane.take(waiting) =~= app.projects[i].lane);
}

/// No two jobs of a session share an id.
pub proof fn job_ids_are_unique(app: AppView, i: int, j: int)
    requires
        app.wf(),
        0 <= i < j < app.jobs.len(),
    ensures
        app.jobs[i].id != app.jobs[j].id,
{
}

/// A job that was reported as finished is not active any more, and no other job changes.
pub proof fn a_finished_job_is_over(
    app: AppView,
    id: u64,
    result: Result<Seq<char>, Seq<char>>,
)
    requires
        1 <= id <= app.jobs.len(),
    ensures
        !job_finished(app, id, result).jobs[id - 1].is_active(),
        forall|i: int|
            0 <= i < app.jobs.len() && i != id - 1 ==> #[trigger] job_finished(
                app,
                id,
                result,
            ).jobs[i] == app.jobs[i],
        result is Err ==> job_finished(app, id, result).show_queue,
{
}

pub(crate) proof fn lemma_active(jobs: Seq<super::state::JobEntryView>)
    ensures
        active_count(jobs) == 0 <==> forall|i: int|
            0 <= i < jobs.len() ==> !(#[trigger] jobs[i]).is_active(),
    decreases jobs.len(),
{
    if jobs.len() > 0 {
        let fewer = jobs.drop_last();
        lemma_active(fewer);
        assert(forall|i: int| 0 <= i < fewer.len() ==> fewer[i] == jobs[i]);
        if active_count(jobs) == 0 {
            assert forall|i: int| 0 <= i < jobs.len() implies !(#[trigger] jobs[i]).is_active() by {
                if i < fewer.len() {
                    assert(!fewer[i].is_active());
                }
            }
        }
        if forall|i: int| 0 <= i < jobs.len() ==> !(#[trigger] jobs[i]).is_active() {
            assert forall|i: int| 0 <= i < fewer.len() implies !(
            #[trigger] fewer[i]).is_active() by {
                assert(fewer[i] == jobs[i]);
            }
        }
    }
}

/// `q` quits right away when no job is queued or running, and asks first otherwise.
pub proof fn quitting_asks_while_jobs_run(app: AppView)
    requires
        !app.should_quit,
        app.mode is Normal,
    ensures
        ({
            let after = key_pressed(app, Key { code: KeyCode::Char('q'), control: false });
            let idle = forall|i: int|
                0 <= i < app.jobs.len() ==> !(#[trigger] app.jobs[i]).is_active();
            &&& after.should_quit == idle
            &&& !idle ==> after.mode is Confirm && after.mode->Confirm_0.action
                == ActionView::Quit
        }),
{
    lemma_active(app.jobs);
}

// ---------------------------------------------------------------------------------------------
// Projects
// ---------------------------------------------------------------------------------------------

/// Removing a project touches nothing but the list: it asks for the list to be saved, the other
/// projects stay in order, and no lane gets a job (the project that is selected next may be
/// loaded).
pub proof fn removing_a_project_touches_nothing_else(app: AppView)
    requires
        app.wf(),
        app.project_list is Some,
    ensures
        ({
            let i = app.project_list->Some_0 as int;
            let left = app.projects.remove(i);
            let after = selected_removed(app);
            &&& after.projects.len() == left.len()
            &&& after.jobs == app.jobs
            &&& after.requests.len() > app.requests.len()
            &&& after.requests[app.requests.len() as int] is SaveConfig
            &&& forall|j: int|
                0 <= j < left.len() ==> (#[trigger] after.projects[j]).path == left[j].path
                    && no_new_job(left[j].lane, after.projects[j].lane)
        }),
{
}

/// The project list that is saved is the list that the next session starts with.
pub proof fn a_saved_list_is_restored(
    app: AppView,
    path: Seq<char>,
    home: Option<Seq<char>>,
    now: u64,
)
    ensures
        saved(app).requests.last() == RequestView::SaveConfig(project_paths(app.projects)),
        loaded(path, ConfigFileView::Read(project_paths(app.projects))) is Ok,
        project_paths(
            launched(
                loaded(path, ConfigFileView::Read(project_paths(app.projects)))->Ok_0,
                home,
                now,
            ).projects,
        ) == project_paths(app.projects),
{
    let paths = project_paths(app.projects);
    assert(project_paths(launched(paths, home, now).projects) =~= paths);
}

/// A project with queued or running jobs is not removed: not even the question is asked.
pub proof fn busy_projects_are_not_removed(app: AppView)
    requires
        app.selected_project() matches Some(project) && has_active(app.jobs, project.path),
    ensures
        remove_asked(app).mode == app.mode,
        remove_asked(app).projects == app.projects,
{
}

/// A repository that is in the list already is selected and not added again.
pub proof fn no_project_is_added_twice(app: AppView, root: Seq<char>, github: Option<Seq<char>>)
    requires
        project_at(app.projects, root) is Some,
    ensures
        repository_added(app, root, github).projects == app.projects,
        repository_added(app, root, github).requests == app.requests,
{
}

/// Selecting a project loads it only if it never was.
pub proof fn loaded_projects_are_not_loaded_again(app: AppView, index: usize)
    requires
        index < app.projects.len(),
        app.projects[index as int].loaded,
    ensures
        project_selected(app, Some(index)).projects == app.projects,
        project_selected(app, Some(index)).requests == app.requests,
{
}

// ---------------------------------------------------------------------------------------------
// Moving
// ---------------------------------------------------------------------------------------------

/// Moving never wraps around: the first row is above all others and the last below.
pub proof fn moving_does_not_wrap(current: usize, len: nat, delta: int)
    requires
        current < len <= usize::MAX,
    ensures
        delta <= 0 ==> stepped_to(Some(current), len, delta)->Some_0 <= current,
        delta >= 0 ==> stepped_to(Some(current), len, delta)->Some_0 >= current,
        stepped_to(Some(0usize), len, -1) == Some(0usize),
        stepped_to(Some((len - 1) as usize), len, 1) == Some((len - 1) as usize),
{
}

/// Switching tabs twice shows the same tab again, and never leaves a detail pane open.
pub proof fn tabs_alternate(app: AppView)
    requires
        app.mode is Normal,
    ensures
        ({
            let tab = Key { code: KeyCode::Tab, control: false };
            let twice = key_pressed(key_pressed(app, tab), tab);
            &&& twice.tab == app.tab
            &&& key_pressed(app, tab).tab != app.tab
            &&& twice.focus != Focus::Detail
        }),
{
}

/// Going back undoes opening a project.
pub proof fn back_undoes_open(app: AppView)
    requires
        app.focus == Focus::Projects || app.focus == Focus::List,
        opened(app).focus != app.focus,
    ensures
        went_back(opened(app)).focus == app.focus,
{
}

} // verus!
