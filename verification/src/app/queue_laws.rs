//! What the job queue holds, what it says, and what becomes of a job.
use vstd::prelude::*;

use super::project_at;
use super::queue::{
    active_count, active_count_of, active_job_of, enqueued, has_active, job_finished, job_started,
    quit_asked,
};
use super::state::{
    ActionView, AppView, JobEntryView, JobStateView, PlannedView, ProjectView, SkippedView, Tone,
    Verb,
};
use crate::config::displayed;
use crate::paths::{components, same_path};
use crate::text::decimal;
use crate::worker::TaskView;

verus! {

/// The project with a path is the first one in the list whose path is the same.
pub proof fn the_first_project_with_a_path_counts(projects: Seq<ProjectView>, path: Seq<char>)
    ensures
        match project_at(projects, path) {
            Some(i) => {
                &&& 0 <= i < projects.len()
                &&& same_path(projects[i].path, path)
                &&& forall|j: int| 0 <= j < i ==> !same_path((#[trigger] projects[j]).path, path)
            },
            None => forall|j: int|
                0 <= j < projects.len() ==> !same_path((#[trigger] projects[j]).path, path),
        },
    decreases projects.len(),
{
    if projects.len() > 0 && !same_path(projects[0].path, path) {
        let rest = projects.drop_first();
        the_first_project_with_a_path_counts(rest, path);
        assert forall|j: int|
            0 < j < projects.len() && !same_path(rest[j - 1].path, path) implies !same_path(
            (#[trigger] projects[j]).path,
            path,
        ) by {
            assert(rest[j - 1] == projects[j]);
        }
        match project_at(rest, path) {
            Some(i) => {
                assert forall|j: int| 0 <= j < i + 1 implies !same_path(
                    (#[trigger] projects[j]).path,
                    path,
                ) by {
                    if j > 0 {
                        assert(rest[j - 1] == projects[j]);
                    }
                }
            },
            None => {
                assert forall|j: int| 0 <= j < projects.len() implies !same_path(
                    (#[trigger] projects[j]).path,
                    path,
                ) by {
                    if j > 0 {
                        assert(rest[j - 1] == projects[j]);
                    }
                }
            },
        }
    }
}

/// Queueing gives every planned row a pending entry and a task, and every skipped row an entry with
/// the reason; entries keep the order of the plan and name their project, worktree, branch and
/// command. The rows that were handled lose their marks and no others do. The panel opens, and the
/// status line counts both.
pub proof fn what_queueing_does(
    app: AppView,
    project: Seq<char>,
    planned: Seq<PlannedView>,
    skipped: Seq<SkippedView>,
    i: int,
)
    requires
        project_at(app.projects, project) == Some(i),
        app.next_job + planned.len() + skipped.len() <= u64::MAX,
    ensures
        ({
            let after = enqueued(app, project, planned, skipped);
            let first = app.next_job as int;
            let before = app.projects[i];
            let now = after.projects[i];
            let entries = app.jobs.len() as int;
            &&& after == (AppView {
                projects: after.projects,
                jobs: after.jobs,
                next_job: (first + planned.len() + skipped.len()) as u64,
                show_queue: true,
                status: Some(
                    (
                        "Queued "@ + decimal(planned.len()) + (if planned.len() == 1 {
                            " job"@
                        } else {
                            " jobs"@
                        }) + (if skipped.len() == 0 {
                            Seq::empty()
                        } else {
                            ", skipped "@ + decimal(skipped.len())
                        }) + ". Q shows or hides the queue."@,
                        app.now,
                    ),
                ),
                ..app
            })
            &&& after.projects.len() == app.projects.len()
            &&& forall|j: int|
                0 <= j < app.projects.len() && j != i ==> after.projects[j]
                    == #[trigger] app.projects[j]
            &&& now == (ProjectView { lane: now.lane, marked: now.marked, ..before })
            &&& now.lane.len() == before.lane.len() + planned.len()
            &&& forall|k: int|
                0 <= k < before.lane.len() ==> now.lane[k] == #[trigger] before.lane[k]
            &&& forall|k: int|
                0 <= k < planned.len() ==> now.lane[before.lane.len() + k] == (TaskView::Job {
                    id: (first + k) as u64,
                    job: (#[trigger] planned[k]).job,
                })
            &&& forall|key: Seq<Seq<char>>|
                now.marked.contains(key) <==> before.marked.contains(key) && !(exists|k: int|
                    0 <= k < planned.len() && components((#[trigger] planned[k]).worktree) == key)
                    && !(exists|k: int|
                    0 <= k < skipped.len() && components((#[trigger] skipped[k]).worktree) == key)
            &&& after.jobs.len() == entries + planned.len() + skipped.len()
            &&& forall|k: int| 0 <= k < entries ==> after.jobs[k] == #[trigger] app.jobs[k]
            &&& forall|k: int|
                0 <= k < planned.len() ==> after.jobs[entries + k] == (JobEntryView {
                    id: (first + k) as u64,
                    project,
                    worktree: (#[trigger] planned[k]).worktree,
                    label: planned[k].label,
                    verb: planned[k].verb,
                    state: JobStateView::Pending,
                })
            &&& forall|k: int|
                0 <= k < skipped.len() ==> after.jobs[entries + planned.len() + k] == (
                JobEntryView {
                    id: (first + planned.len() + k) as u64,
                    project,
                    worktree: (#[trigger] skipped[k]).worktree,
                    label: skipped[k].label,
                    verb: skipped[k].verb,
                    state: JobStateView::Skipped(skipped[k].reason),
                })
        }),
{
    the_first_project_with_a_path_counts(app.projects, project);
    let after = enqueued(app, project, planned, skipped);
    let before = app.projects[i];
    let plans = super::queue::planned_keys(planned);
    let skips = super::queue::skipped_keys(skipped);
    assert forall|key: Seq<Seq<char>>|
        after.projects[i].marked.contains(key) <==> before.marked.contains(key) && !(exists|k: int|
            0 <= k < planned.len() && components((#[trigger] planned[k]).worktree) == key) && !(
        exists|k: int|
            0 <= k < skipped.len() && components((#[trigger] skipped[k]).worktree) == key) by {
        if plans.contains(key) {
            let k = choose|k: int| 0 <= k < plans.len() && plans[k] == key;
            assert(components(planned[k].worktree) == key);
        }
        if skips.contains(key) {
            let k = choose|k: int| 0 <= k < skips.len() && skips[k] == key;
            assert(components(skipped[k].worktree) == key);
        }
        if exists|k: int| 0 <= k < planned.len() && components((#[trigger] planned[k]).worktree)
            == key {
            let k = choose|k: int|
                0 <= k < planned.len() && components((#[trigger] planned[k]).worktree) == key;
            assert(plans[k] == key);
        }
        if exists|k: int| 0 <= k < skipped.len() && components((#[trigger] skipped[k]).worktree)
            == key {
            let k = choose|k: int|
                0 <= k < skipped.len() && components((#[trigger] skipped[k]).worktree) == key;
            assert(skips[k] == key);
        }
    }
}

/// Nothing is queued for a project that is not in the list.
pub proof fn nothing_is_queued_for_a_removed_project(
    app: AppView,
    project: Seq<char>,
    planned: Seq<PlannedView>,
    skipped: Seq<SkippedView>,
)
    requires
        forall|j: int|
            0 <= j < app.projects.len() ==> !same_path((#[trigger] app.projects[j]).path, project),
    ensures
        enqueued(app, project, planned, skipped) == app,
{
    the_first_project_with_a_path_counts(app.projects, project);
}

/// A report that a job started makes that job a running one; a report about a job that is not in
/// the queue changes nothing.
pub proof fn a_started_job_runs(app: AppView, id: u64)
    ensures
        ({
            let after = job_started(app, id);
            &&& id == 0 || id > app.jobs.len() ==> after == app
            &&& 1 <= id <= app.jobs.len() ==> {
                &&& after == (AppView { jobs: after.jobs, ..app })
                &&& after.jobs.len() == app.jobs.len()
                &&& after.jobs[id - 1] == (JobEntryView {
                    state: JobStateView::Running,
                    ..app.jobs[id - 1]
                })
                &&& forall|k: int|
                    0 <= k < app.jobs.len() && k != id - 1 ==> after.jobs[k]
                        == #[trigger] app.jobs[k]
            }
        }),
{
}

/// A job that ended keeps its entry with what came of it. The status line names the worktree and
/// its branch, or says what failed and where the reason stands; a failure opens the queue and a
/// success does not.
pub proof fn what_becomes_of_a_job(app: AppView, id: u64, result: Result<Seq<char>, Seq<char>>)
    ensures
        ({
            let after = job_finished(app, id, result);
            &&& id == 0 || id > app.jobs.len() ==> after == app
            &&& 1 <= id <= app.jobs.len() ==> {
                let job = app.jobs[id - 1];
                let shown = displayed(job.worktree, app.home);
                let detached = job.label.len() > 0 && job.label[0] == '(';
                let message = match (job.verb, result) {
                    (Verb::Delete, Ok(_)) => if detached {
                        "Deleted worktree "@ + shown + "."@
                    } else {
                        "Deleted worktree "@ + shown + " and branch "@ + job.label + "."@
                    },
                    (Verb::Sync, Ok(summary)) => "Synced "@ + job.label + ": "@ + summary + "."@,
                    (Verb::Delete, Err(_)) => "delete "@ + job.label
                        + " failed. The queue (Q) shows git's error."@,
                    (Verb::Sync, Err(_)) => "sync "@ + job.label
                        + " failed. The queue (Q) shows git's error."@,
                };
                &&& after == (AppView {
                    jobs: after.jobs,
                    status: Some((message, app.now)),
                    show_queue: app.show_queue || result is Err,
                    ..app
                })
                &&& after.jobs.len() == app.jobs.len()
                &&& after.jobs[id - 1] == (JobEntryView {
                    state: match result {
                        Ok(summary) => JobStateView::Done(summary),
                        Err(reason) => JobStateView::Failed(reason),
                    },
                    ..job
                })
                &&& forall|k: int|
                    0 <= k < app.jobs.len() && k != id - 1 ==> after.jobs[k]
                        == #[trigger] app.jobs[k]
            }
        }),
{
    if 1 <= id <= app.jobs.len() {
        let job = app.jobs[id - 1];
        reveal_strlit("delete");
        reveal_strlit(" ");
        reveal_strlit("delete ");
        reveal_strlit("sync");
        reveal_strlit("sync ");
        assert("delete"@ + " "@ =~= "delete "@);
        assert("sync"@ + " "@ =~= "sync "@);
    }
}

/// One more job counts as active exactly when it is queued or running, and for a project only when
/// it is a job of that project.
pub proof fn active_jobs_are_queued_or_running(
    jobs: Seq<JobEntryView>,
    job: JobEntryView,
    project: Seq<char>,
)
    ensures
        active_count(Seq::empty()) == 0,
        active_count_of(Seq::empty(), project) == 0,
        active_count(jobs.push(job)) == active_count(jobs) + (match job.state {
            JobStateView::Pending => 1nat,
            JobStateView::Running => 1,
            JobStateView::Done(_) => 0,
            JobStateView::Failed(_) => 0,
            JobStateView::Skipped(_) => 0,
        }),
        active_count_of(jobs.push(job), project) == active_count_of(jobs, project) + (
        match job.state {
            JobStateView::Pending => if same_path(job.project, project) {
                1nat
            } else {
                0
            },
            JobStateView::Running => if same_path(job.project, project) {
                1
            } else {
                0
            },
            JobStateView::Done(_) => 0,
            JobStateView::Failed(_) => 0,
            JobStateView::Skipped(_) => 0,
        }),
        has_active(jobs, project) <==> active_count_of(jobs, project) > 0,
{
    assert(jobs.push(job).drop_last() =~= jobs);
    lemma_active_of(jobs, project);
}

proof fn lemma_active_of(jobs: Seq<JobEntryView>, project: Seq<char>)
    ensures
        has_active(jobs, project) <==> active_count_of(jobs, project) > 0,
    decreases jobs.len(),
{
    if jobs.len() > 0 {
        let fewer = jobs.drop_last();
        lemma_active_of(fewer, project);
        if has_active(fewer, project) {
            let i = choose|i: int|
                0 <= i < fewer.len() && (#[trigger] fewer[i]).is_active() && same_path(
                    fewer[i].project,
                    project,
                );
            assert(jobs[i].is_active() && same_path(jobs[i].project, project));
        }
        if has_active(jobs, project) {
            let i = choose|i: int|
                0 <= i < jobs.len() && (#[trigger] jobs[i]).is_active() && same_path(
                    jobs[i].project,
                    project,
                );
            if i < fewer.len() {
                assert(fewer[i].is_active() && same_path(fewer[i].project, project));
            }
        }
        if jobs.last().is_active() && same_path(jobs.last().project, project) {
            assert(jobs[jobs.len() - 1].is_active());
        }
    }
}

/// The job shown beside a worktree is the first one in the queue that is still queued or running
/// there.
pub proof fn the_first_active_job_is_shown(jobs: Seq<JobEntryView>, worktree: Seq<char>)
    ensures
        match active_job_of(jobs, worktree) {
            Some(job) => exists|i: int|
                {
                    &&& 0 <= i < jobs.len()
                    &&& #[trigger] jobs[i] == job
                    &&& job.state is Pending || job.state is Running
                    &&& same_path(job.worktree, worktree)
                    &&& forall|j: int|
                        0 <= j < i ==> !(jobs[j].state is Pending || jobs[j].state is Running)
                            || !same_path((#[trigger] jobs[j]).worktree, worktree)
                },
            None => forall|j: int|
                0 <= j < jobs.len() ==> !(jobs[j].state is Pending || jobs[j].state is Running)
                    || !same_path((#[trigger] jobs[j]).worktree, worktree),
        },
    decreases jobs.len(),
{
    if jobs.len() > 0 {
        if jobs[0].is_active() && same_path(jobs[0].worktree, worktree) {
            assert(jobs[0] == active_job_of(jobs, worktree)->Some_0);
        } else {
            let rest = jobs.drop_first();
            the_first_active_job_is_shown(rest, worktree);
            assert forall|j: int| 0 <= j < rest.len() implies #[trigger] rest[j] == jobs[j + 1] by {}
            match active_job_of(rest, worktree) {
                Some(job) => {
                    let i = choose|i: int|
                        {
                            &&& 0 <= i < rest.len()
                            &&& #[trigger] rest[i] == job
                            &&& job.state is Pending || job.state is Running
                            &&& same_path(job.worktree, worktree)
                            &&& forall|j: int|
                                0 <= j < i ==> !(rest[j].state is Pending
                                    || rest[j].state is Running) || !same_path(
                                    (#[trigger] rest[j]).worktree,
                                    worktree,
                                )
                        };
                    assert forall|j: int| 0 <= j < i + 1 implies !(jobs[j].state is Pending
                        || jobs[j].state is Running) || !same_path(
                        (#[trigger] jobs[j]).worktree,
                        worktree,
                    ) by {
                        if j > 0 {
                            assert(rest[j - 1] == jobs[j]);
                        }
                    }
                    assert(jobs[i + 1] == job);
                },
                None => {
                    assert forall|j: int| 0 <= j < jobs.len() implies !(jobs[j].state is Pending
                        || jobs[j].state is Running) || !same_path(
                        (#[trigger] jobs[j]).worktree,
                        worktree,
                    ) by {
                        if j > 0 {
                            assert(rest[j - 1] == jobs[j]);
                        }
                    }
                },
            }
        }
    }
}

/// Asking to quit quits when nothing is queued or running. Otherwise a dialog counts the jobs and
/// says what becomes of them, and nothing else changes.
pub proof fn what_quitting_asks(app: AppView)
    ensures
        ({
            let after = quit_asked(app);
            let active = active_count(app.jobs);
            let dialog = after.mode->Confirm_0;
            &&& active == 0 ==> after == (AppView { should_quit: true, ..app })
            &&& active > 0 ==> {
                &&& after == (AppView { mode: after.mode, ..app })
                &&& after.mode is Confirm
                &&& dialog.title == " Quit? "@
                &&& dialog.yes == "Quit"@
                &&& dialog.danger
                &&& dialog.action == ActionView::Quit
                &&& dialog.lines.len() == 2
                &&& active == 1 ==> dialog.lines[0] == (
                    decimal(1) + " job is"@ + " still queued or running."@,
                    Tone::Warn,
                )
                &&& active > 1 ==> dialog.lines[0] == (
                    decimal(active) + " jobs are"@ + " still queued or running."@,
                    Tone::Warn,
                )
                &&& dialog.lines[1] == (
                    "Quitting drops queued jobs; a git command that already started finishes on its own."@,
                    Tone::Muted,
                )
            }
        }),
{
}

} // verus!
