//! The job queue: deletes and syncs run in the background, one at a time per repository, while
//! the UI stays usable. Every job of the session is kept for the queue panel.
use vstd::prelude::*;

use super::state::{
    Action, ActionView, App, AppView, Confirm, ConfirmView, JobEntry, JobEntryView, JobState,
    JobStateView, Mode, ModeView, Planned, PlannedView, ProjectView, Skipped, SkippedView, Tone,
    Verb,
};
use super::{project_at, said};
use crate::config::{display_path, displayed};
use crate::model::result_view;
use crate::paths::{components, paths_equal, same_path};
use crate::text::{chars_of, decimal, decimal_of};
use crate::worker::{Task, TaskView};

verus! {

impl Verb {
    pub open spec fn name_text(self) -> Seq<char> {
        match self {
            Verb::Delete => "delete"@,
            Verb::Sync => "sync"@,
        }
    }

    pub open spec fn doing_text(self) -> Seq<char> {
        match self {
            Verb::Delete => "deleting"@,
            Verb::Sync => "syncing"@,
        }
    }

    pub fn name(self) -> (name: &'static str)
        ensures
            name@ == self.name_text(),
    {
        match self {
            Verb::Delete => "delete",
            Verb::Sync => "sync",
        }
    }

    pub fn doing(self) -> (doing: &'static str)
        ensures
            doing@ == self.doing_text(),
    {
        match self {
            Verb::Delete => "deleting",
            Verb::Sync => "syncing",
        }
    }
}

impl JobEntryView {
    /// The job is queued or running.
    pub open spec fn is_active(self) -> bool {
        self.state is Pending || self.state is Running
    }
}

impl JobEntry {
    pub fn is_active(&self) -> (active: bool)
        ensures
            active == self.deep_view().is_active(),
    {
        match self.state {
            JobState::Pending => true,
            JobState::Running => true,
            _ => false,
        }
    }
}

/// How many jobs are queued or running.
pub open spec fn active_count(jobs: Seq<JobEntryView>) -> nat
    decreases jobs.len(),
{
    if jobs.len() == 0 {
        0
    } else {
        active_count(jobs.drop_last()) + if jobs.last().is_active() {
            1nat
        } else {
            0nat
        }
    }
}

/// How many jobs of a project are queued or running.
pub open spec fn active_count_of(jobs: Seq<JobEntryView>, project: Seq<char>) -> nat
    decreases jobs.len(),
{
    if jobs.len() == 0 {
        0
    } else {
        active_count_of(jobs.drop_last(), project) + if jobs.last().is_active() && same_path(
            jobs.last().project,
            project,
        ) {
            1nat
        } else {
            0nat
        }
    }
}

/// The project has queued or running jobs.
pub open spec fn has_active(jobs: Seq<JobEntryView>, project: Seq<char>) -> bool {
    exists|i: int|
        0 <= i < jobs.len() && (#[trigger] jobs[i]).is_active() && same_path(
            jobs[i].project,
            project,
        )
}

/// The first pending or running job of a worktree.
pub open spec fn active_job_of(jobs: Seq<JobEntryView>, worktree: Seq<char>) -> Option<JobEntryView>
    decreases jobs.len(),
{
    if jobs.len() == 0 {
        None
    } else if jobs[0].is_active() && same_path(jobs[0].worktree, worktree) {
        Some(jobs[0])
    } else {
        active_job_of(jobs.drop_first(), worktree)
    }
}

/// The entry of a job that has just been queued.
pub open spec fn pending_entry(id: u64, project: Seq<char>, plan: PlannedView) -> JobEntryView {
    JobEntryView {
        id,
        project,
        worktree: plan.worktree,
        label: plan.label,
        verb: plan.verb,
        state: JobStateView::Pending,
    }
}

/// The entry of a row that gets no job.
pub open spec fn skipped_entry(id: u64, project: Seq<char>, skip: SkippedView) -> JobEntryView {
    JobEntryView {
        id,
        project,
        worktree: skip.worktree,
        label: skip.label,
        verb: skip.verb,
        state: JobStateView::Skipped(skip.reason),
    }
}

/// The entries of queued jobs, with ids that count up from `first`.
pub open spec fn pending_entries(
    first: u64,
    project: Seq<char>,
    planned: Seq<PlannedView>,
) -> Seq<JobEntryView> {
    Seq::new(planned.len(), |k: int| pending_entry((first + k) as u64, project, planned[k]))
}

/// The entries of skipped rows, with ids that count up from `first`.
pub open spec fn skipped_entries(
    first: u64,
    project: Seq<char>,
    skipped: Seq<SkippedView>,
) -> Seq<JobEntryView> {
    Seq::new(skipped.len(), |k: int| skipped_entry((first + k) as u64, project, skipped[k]))
}

/// The tasks of queued jobs, under the same ids.
pub open spec fn job_tasks(first: u64, planned: Seq<PlannedView>) -> Seq<TaskView> {
    Seq::new(
        planned.len(),
        |k: int| TaskView::Job { id: (first + k) as u64, job: planned[k].job },
    )
}

/// What identifies the worktrees of planned jobs.
pub open spec fn planned_keys(planned: Seq<PlannedView>) -> Seq<Seq<Seq<char>>> {
    planned.map_values(|plan: PlannedView| components(plan.worktree))
}

/// What identifies the worktrees of skipped rows.
pub open spec fn skipped_keys(skipped: Seq<SkippedView>) -> Seq<Seq<Seq<char>>> {
    skipped.map_values(|skip: SkippedView| components(skip.worktree))
}

/// What the status line says about jobs that were queued.
pub open spec fn queued_message(queued: nat, skipped: nat) -> Seq<char> {
    "Queued "@ + decimal(queued) + (if queued == 1 {
        " job"@
    } else {
        " jobs"@
    }) + (if skipped > 0 {
        ", skipped "@ + decimal(skipped)
    } else {
        Seq::empty()
    }) + ". Q shows or hides the queue."@
}

/// A project whose lane got the planned jobs; rows that were handled are no longer marked.
pub open spec fn with_jobs(
    project: ProjectView,
    first: u64,
    planned: Seq<PlannedView>,
    skipped: Seq<SkippedView>,
) -> ProjectView {
    ProjectView {
        lane: project.lane + job_tasks(first, planned),
        marked: project.marked.difference(planned_keys(planned).to_set()).difference(
            skipped_keys(skipped).to_set(),
        ),
        ..project
    }
}

/// The planned jobs go on the project's lane and the skipped rows are recorded in the queue
/// panel; nothing happens when the project is gone.
pub open spec fn enqueued(
    app: AppView,
    project: Seq<char>,
    planned: Seq<PlannedView>,
    skipped: Seq<SkippedView>,
) -> AppView {
    match project_at(app.projects, project) {
        None => app,
        Some(i) => said(
            AppView {
                projects: app.projects.update(
                    i,
                    with_jobs(app.projects[i], app.next_job, planned, skipped),
                ),
                jobs: app.jobs + pending_entries(app.next_job, project, planned) + skipped_entries(
                    (app.next_job + planned.len()) as u64,
                    project,
                    skipped,
                ),
                next_job: (app.next_job + planned.len() + skipped.len()) as u64,
                show_queue: true,
                ..app
            },
            queued_message(planned.len(), skipped.len()),
        ),
    }
}

/// The state while jobs are being queued: `planned` and `skipped` have been handled.
spec fn partly_enqueued(
    app: AppView,
    i: int,
    project: Seq<char>,
    planned: Seq<PlannedView>,
    skipped: Seq<SkippedView>,
) -> AppView {
    AppView {
        projects: app.projects.update(
            i,
            with_jobs(app.projects[i], app.next_job, planned, skipped),
        ),
        jobs: app.jobs + pending_entries(app.next_job, project, planned) + skipped_entries(
            (app.next_job + planned.len()) as u64,
            project,
            skipped,
        ),
        next_job: (app.next_job + planned.len() + skipped.len()) as u64,
        ..app
    }
}

/// One job more is queued.
spec fn one_planned(app: AppView, i: int, project: Seq<char>, plan: PlannedView) -> AppView {
    AppView {
        projects: app.projects.update(
            i,
            ProjectView {
                lane: app.projects[i].lane.push(TaskView::Job { id: app.next_job, job: plan.job }),
                marked: app.projects[i].marked.remove(components(plan.worktree)),
                ..app.projects[i]
            },
        ),
        jobs: app.jobs.push(pending_entry(app.next_job, project, plan)),
        next_job: (app.next_job + 1) as u64,
        ..app
    }
}

/// One row more is skipped.
spec fn one_skipped(app: AppView, i: int, project: Seq<char>, skip: SkippedView) -> AppView {
    AppView {
        projects: app.projects.update(
            i,
            ProjectView {
                marked: app.projects[i].marked.remove(components(skip.worktree)),
                ..app.projects[i]
            },
        ),
        jobs: app.jobs.push(skipped_entry(app.next_job, project, skip)),
        next_job: (app.next_job + 1) as u64,
        ..app
    }
}

proof fn lemma_to_set_push<T>(s: Seq<T>, x: T, from: Set<T>)
    ensures
        from.difference(s.push(x).to_set()) == from.difference(s.to_set()).remove(x),
{
    assert forall|y: T| s.push(x).contains(y) <==> (s.contains(y) || y == x) by {
        if s.contains(y) {
            let i = choose|i: int| 0 <= i < s.len() && s[i] == y;
            assert(s.push(x)[i] == y);
        }
        if y == x {
            assert(s.push(x)[s.len() as int] == y);
        }
    }
    assert(from.difference(s.push(x).to_set()) =~= from.difference(s.to_set()).remove(x));
}

proof fn lemma_one_more_plan(
    app: AppView,
    i: int,
    project: Seq<char>,
    planned: Seq<PlannedView>,
    plan: PlannedView,
)
    requires
        0 <= i < app.projects.len(),
        app.next_job + planned.len() + 1 <= u64::MAX,
    ensures
        one_planned(
            partly_enqueued(app, i, project, planned, Seq::empty()),
            i,
            project,
            plan,
        ) == partly_enqueued(app, i, project, planned.push(plan), Seq::empty()),
{
    let a = one_planned(
        partly_enqueued(app, i, project, planned, Seq::empty()),
        i,
        project,
        plan,
    );
    let b = partly_enqueued(app, i, project, planned.push(plan), Seq::empty());
    let all = planned.push(plan);
    assert(a.projects[i].lane =~= b.projects[i].lane);
    assert(planned_keys(all) =~= planned_keys(planned).push(components(plan.worktree)));
    lemma_to_set_push(planned_keys(planned), components(plan.worktree), app.projects[i].marked);
    assert(a.projects[i].marked =~= b.projects[i].marked);
    assert(a.projects =~= b.projects);
    assert(a.jobs =~= b.jobs);
}

proof fn lemma_one_more_skip(
    app: AppView,
    i: int,
    project: Seq<char>,
    planned: Seq<PlannedView>,
    skipped: Seq<SkippedView>,
    skip: SkippedView,
)
    requires
        0 <= i < app.projects.len(),
        app.next_job + planned.len() + skipped.len() + 1 <= u64::MAX,
    ensures
        one_skipped(partly_enqueued(app, i, project, planned, skipped), i, project, skip)
            == partly_enqueued(app, i, project, planned, skipped.push(skip)),
{
    let a = one_skipped(partly_enqueued(app, i, project, planned, skipped), i, project, skip);
    let b = partly_enqueued(app, i, project, planned, skipped.push(skip));
    let all = skipped.push(skip);
    assert(skipped_keys(all) =~= skipped_keys(skipped).push(components(skip.worktree)));
    lemma_to_set_push(
        skipped_keys(skipped),
        components(skip.worktree),
        app.projects[i].marked.difference(planned_keys(planned).to_set()),
    );
    assert(a.projects[i].marked =~= b.projects[i].marked);
    assert(a.projects =~= b.projects);
    assert(a.jobs =~= b.jobs);
}

/// The job with this id runs.
pub open spec fn job_started(app: AppView, id: u64) -> AppView {
    if 1 <= id <= app.jobs.len() {
        AppView {
            jobs: app.jobs.update(
                id - 1,
                JobEntryView { state: JobStateView::Running, ..app.jobs[id - 1] },
            ),
            ..app
        }
    } else {
        app
    }
}

/// What the status line says about a job that has ended.
pub open spec fn job_message(
    job: JobEntryView,
    result: Result<Seq<char>, Seq<char>>,
    home: Option<Seq<char>>,
) -> Seq<char> {
    match result {
        Ok(summary) => match job.verb {
            Verb::Delete => {
                let shown = displayed(job.worktree, home);
                if job.label.len() > 0 && job.label[0] == '(' {
                    "Deleted worktree "@ + shown + "."@
                } else {
                    "Deleted worktree "@ + shown + " and branch "@ + job.label + "."@
                }
            },
            Verb::Sync => "Synced "@ + job.label + ": "@ + summary + "."@,
        },
        Err(_) => job.verb.name_text() + " "@ + job.label
            + " failed. The queue (Q) shows git's error."@,
    }
}

/// The job with this id has ended; a failure opens the queue panel.
pub open spec fn job_finished(
    app: AppView,
    id: u64,
    result: Result<Seq<char>, Seq<char>>,
) -> AppView {
    if 1 <= id <= app.jobs.len() {
        let job = app.jobs[id - 1];
        said(
            AppView {
                jobs: app.jobs.update(
                    id - 1,
                    JobEntryView {
                        state: match result {
                            Ok(summary) => JobStateView::Done(summary),
                            Err(err) => JobStateView::Failed(err),
                        },
                        ..job
                    },
                ),
                show_queue: app.show_queue || result is Err,
                ..app
            },
            job_message(job, result, app.home),
        )
    } else {
        app
    }
}

/// The question before quitting while `active` jobs are queued or running.
pub open spec fn quit_dialog(active: nat) -> ConfirmView {
    ConfirmView {
        title: " Quit? "@,
        lines: seq![
            (
                decimal(active) + (if active == 1 {
                    " job is"@
                } else {
                    " jobs are"@
                }) + " still queued or running."@,
                Tone::Warn,
            ),
            (
                "Quitting drops queued jobs; a git command that already started finishes on its own."@,
                Tone::Muted,
            ),
        ],
        yes: "Quit"@,
        danger: true,
        action: ActionView::Quit,
    }
}

/// The application quits, or asks first when jobs are queued or running.
pub open spec fn quit_asked(app: AppView) -> AppView {
    if active_count(app.jobs) == 0 {
        AppView { should_quit: true, ..app }
    } else {
        AppView { mode: ModeView::Confirm(quit_dialog(active_count(app.jobs))), ..app }
    }
}

impl App {
    pub fn has_active_jobs(&self, project: &str) -> (has: bool)
        ensures
            has == has_active(self.deep_view().jobs, project@),
    {
        let ghost jobs = self.deep_view().jobs;
        let mut i: usize = 0;
        while i < self.jobs.len()
            invariant
                i <= self.jobs@.len(),
                jobs == self.jobs.deep_view(),
                forall|j: int|
                    0 <= j < i ==> !((#[trigger] jobs[j]).is_active() && same_path(
                        jobs[j].project,
                        project@,
                    )),
            decreases self.jobs@.len() - i,
        {
            proof {
                assert(jobs[i as int] == self.jobs@[i as int].deep_view());
            }
            if self.jobs[i].is_active() && paths_equal(&self.jobs[i].project, project) {
                return true;
            }
            i = i + 1;
        }
        false
    }

    /// The pending or running job of a worktree, if any.
    pub fn active_job(&self, worktree: &str) -> (job: Option<&JobEntry>)
        ensures
            job.deep_view() == active_job_of(self.deep_view().jobs, worktree@),
    {
        let ghost jobs = self.deep_view().jobs;
        let mut i: usize = 0;
        proof {
            assert(jobs.skip(0) =~= jobs);
        }
        while i < self.jobs.len()
            invariant
                i <= self.jobs@.len(),
                jobs == self.jobs.deep_view(),
                active_job_of(jobs.skip(i as int), worktree@) == active_job_of(jobs, worktree@),
            decreases self.jobs@.len() - i,
        {
            proof {
                assert(jobs.skip(i as int)[0] == self.jobs@[i as int].deep_view());
                assert(jobs.skip(i as int).drop_first() =~= jobs.skip(i + 1));
            }
            if self.jobs[i].is_active() && paths_equal(&self.jobs[i].worktree, worktree) {
                return Some(&self.jobs[i]);
            }
            i = i + 1;
        }
        None
    }

    /// How many jobs are queued or running.
    pub fn active_jobs(&self) -> (count: usize)
        ensures
            count == active_count(self.deep_view().jobs),
    {
        let ghost jobs = self.deep_view().jobs;
        let mut count: usize = 0;
        let mut i: usize = 0;
        proof {
            assert(jobs.take(0) =~= Seq::empty());
        }
        while i < self.jobs.len()
            invariant
                count <= i <= self.jobs@.len(),
                jobs == self.jobs.deep_view(),
                count == active_count(jobs.take(i as int)),
            decreases self.jobs@.len() - i,
        {
            proof {
                assert(jobs.take(i + 1).drop_last() =~= jobs.take(i as int));
                assert(jobs.take(i + 1).last() == self.jobs@[i as int].deep_view());
            }
            if self.jobs[i].is_active() {
                count = count + 1;
            }
            i = i + 1;
        }
        proof {
            assert(jobs.take(i as int) =~= jobs);
        }
        count
    }

    /// How many jobs of a project are queued or running.
    pub fn active_jobs_of(&self, project: &str) -> (count: usize)
        ensures
            count == active_count_of(self.deep_view().jobs, project@),
    {
        let ghost jobs = self.deep_view().jobs;
        let mut count: usize = 0;
        let mut i: usize = 0;
        proof {
            assert(jobs.take(0) =~= Seq::empty());
        }
        while i < self.jobs.len()
            invariant
                count <= i <= self.jobs@.len(),
                jobs == self.jobs.deep_view(),
                count == active_count_of(jobs.take(i as int), project@),
            decreases self.jobs@.len() - i,
        {
            proof {
                assert(jobs.take(i + 1).drop_last() =~= jobs.take(i as int));
                assert(jobs.take(i + 1).last() == self.jobs@[i as int].deep_view());
            }
            if self.jobs[i].is_active() && paths_equal(&self.jobs[i].project, project) {
                count = count + 1;
            }
            i = i + 1;
        }
        proof {
            assert(jobs.take(i as int) =~= jobs);
        }
        count
    }

    /// Index of the first project with this path.
    pub(crate) fn project_index(&self, path: &str) -> (index: Option<usize>)
        ensures
            match index {
                Some(i) => i < self.projects@.len() && project_at(
                    self.deep_view().projects,
                    path@,
                ) == Some(i as int),
                None => project_at(self.deep_view().projects, path@) is None,
            },
    {
        let ghost all = self.deep_view().projects;
        let mut i: usize = 0;
        proof {
            assert(all.skip(0) =~= all);
        }
        while i < self.projects.len()
            invariant
                i <= self.projects@.len(),
                all == self.projects.deep_view(),
                project_at(all, path@) == match project_at(all.skip(i as int), path@) {
                    Some(j) => Some(i + j),
                    None => None,
                },
            decreases self.projects@.len() - i,
        {
            proof {
                assert(all.skip(i as int)[0] == self.projects@[i as int].deep_view());
                assert(all.skip(i as int).drop_first() =~= all.skip(i + 1));
            }
            if paths_equal(&self.projects[i].path, path) {
                return Some(i);
            }
            i = i + 1;
        }
        None
    }

    /// Queues `planned` on the project's lane and records `skipped` in the queue panel.
    pub(crate) fn enqueue(&mut self, project: &str, planned: Vec<Planned>, skipped: Vec<Skipped>)
        requires
            old(self).deep_view().wf(),
            old(self).deep_view().next_job + planned@.len() + skipped@.len() <= u64::MAX,
        ensures
            final(self).deep_view() == enqueued(
                old(self).deep_view(),
                project@,
                planned.deep_view(),
                skipped.deep_view(),
            ),
            final(self).deep_view().wf(),
    {
        let index = match self.project_index(project) {
            Some(index) => index,
            None => {
                return ;
            },
        };
        let ghost before = self.deep_view();
        let ghost first = self.next_job;
        let ghost plans = planned.deep_view();
        let ghost skips = skipped.deep_view();
        let queued = planned.len();
        let skipped_count = skipped.len();
        let mut planned = planned;
        let mut skipped = skipped;
        proof {
            assert(plans.skip(0) =~= plans);
            assert(skips.skip(0) =~= skips);
            let start = partly_enqueued(
                before,
                index as int,
                project@,
                plans.take(0),
                skips.take(0),
            );
            assert(start.projects[index as int].lane =~= before.projects[index as int].lane);
            assert(start.projects[index as int].marked =~= before.projects[index as int].marked);
            assert(start.projects =~= before.projects);
            assert(start.jobs =~= before.jobs);
            assert(start =~= before);
        }
        let ghost mut k: int = 0;
        while planned.len() > 0
            invariant
                0 <= k,
                k + planned@.len() == plans.len(),
                index < before.projects.len(),
                before.projects.len() == self.projects@.len(),
                first == before.next_job,
                first + plans.len() + skips.len() <= u64::MAX,
                planned.deep_view() == plans.skip(k),
                self.deep_view() == partly_enqueued(
                    before,
                    index as int,
                    project@,
                    plans.take(k),
                    skips.take(0),
                ),
            decreases planned@.len(),
        {
            let ghost rest = planned.deep_view();
            let ghost was = self.deep_view();
            let plan = planned.remove(0);
            proof {
                assert(skips.take(0) =~= Seq::empty());
                assert(rest[0] == plan.deep_view());
                assert(plans[k] == plan.deep_view());
                assert(planned.deep_view() =~= rest.drop_first());
                assert(rest.drop_first() =~= plans.skip(k + 1));
                lemma_one_more_plan(
                    before,
                    index as int,
                    project@,
                    plans.take(k),
                    plans[k],
                );
                assert(plans.take(k + 1) =~= plans.take(k).push(plans[k]));
            }
            let id = self.next_job;
            self.next_job = id + 1;
            self.projects[index].marked.remove(&plan.worktree);
            self.projects[index].lane.send(Task::Job { id, job: plan.job });
            self.jobs.push(
                JobEntry {
                    id,
                    project: project.to_owned(),
                    worktree: plan.worktree,
                    label: plan.label,
                    verb: plan.verb,
                    state: JobState::Pending,
                },
            );
            proof {
                let next = one_planned(was, index as int, project@, plans[k]);
                assert(self.projects@[index as int].deep_view() =~= next.projects[index as int]);
                assert(self.deep_view().projects =~= next.projects);
                assert(self.deep_view().jobs =~= next.jobs);
                assert(self.deep_view() =~= next);
            }
            proof {
                k = k + 1;
            }
        }
        proof {
            assert(plans.take(k) =~= plans);
        }
        let ghost mut k: int = 0;
        while skipped.len() > 0
            invariant
                0 <= k,
                k + skipped@.len() == skips.len(),
                index < before.projects.len(),
                before.projects.len() == self.projects@.len(),
                first == before.next_job,
                first + plans.len() + skips.len() <= u64::MAX,
                skipped.deep_view() == skips.skip(k),
                self.deep_view() == partly_enqueued(
                    before,
                    index as int,
                    project@,
                    plans,
                    skips.take(k),
                ),
            decreases skipped@.len(),
        {
            let ghost rest = skipped.deep_view();
            let ghost was = self.deep_view();
            let skip = skipped.remove(0);
            proof {
                assert(rest[0] == skip.deep_view());
                assert(skips[k] == skip.deep_view());
                assert(skipped.deep_view() =~= rest.drop_first());
                assert(rest.drop_first() =~= skips.skip(k + 1));
                lemma_one_more_skip(
                    before,
                    index as int,
                    project@,
                    plans,
                    skips.take(k),
                    skips[k],
                );
                assert(skips.take(k + 1) =~= skips.take(k).push(skips[k]));
            }
            let id = self.next_job;
            self.next_job = id + 1;
            self.projects[index].marked.remove(&skip.worktree);
            self.jobs.push(
                JobEntry {
                    id,
                    project: project.to_owned(),
                    worktree: skip.worktree,
                    label: skip.label,
                    verb: skip.verb,
                    state: JobState::Skipped(skip.reason),
                },
            );
            proof {
                let next = one_skipped(was, index as int, project@, skips[k]);
                assert(self.projects@[index as int].deep_view() =~= next.projects[index as int]);
                assert(self.deep_view().projects =~= next.projects);
                assert(self.deep_view().jobs =~= next.jobs);
                assert(self.deep_view() =~= next);
            }
            proof {
                k = k + 1;
            }
        }
        proof {
            assert(skips.take(k) =~= skips);
        }
        self.show_queue = true;
        let mut status = "Queued ".to_owned().concat(&decimal_of(queued as u64)).concat(
            if queued == 1 {
                " job"
            } else {
                " jobs"
            },
        );
        let ghost so_far = status@;
        if skipped_count > 0 {
            status.append(&", skipped ".to_owned().concat(&decimal_of(skipped_count as u64)));
        } else {
            proof {
                assert(so_far + Seq::<char>::empty() =~= so_far);
            }
        }
        status.append(". Q shows or hides the queue.");
        proof {
            assert(status@ == queued_message(plans.len(), skips.len()));
        }
        self.set_status(status);
        proof {
            let after = enqueued(before, project@, plans, skips);
            assert(self.deep_view() =~= after);
            assert forall|j: int| 0 <= j < after.jobs.len() implies (#[trigger] after.jobs[j]).id == j
                + 1 by {
                if j < before.jobs.len() {
                    assert(after.jobs[j] == before.jobs[j]);
                }
            }
        }
    }

    pub(crate) fn on_job_started(&mut self, id: u64)
        requires
            old(self).deep_view().wf(),
        ensures
            final(self).deep_view() == job_started(old(self).deep_view(), id),
            final(self).deep_view().wf(),
    {
        let ghost before = self.deep_view();
        if 1 <= id && id <= self.jobs.len() as u64 {
            let at = (id - 1) as usize;
            self.jobs[at].state = JobState::Running;
            proof {
                assert(self.deep_view().jobs =~= job_started(before, id).jobs);
                assert(self.deep_view() =~= job_started(before, id));
            }
        }
    }

    pub(crate) fn on_job_finished(&mut self, id: u64, result: Result<String, String>)
        requires
            old(self).deep_view().wf(),
        ensures
            final(self).deep_view() == job_finished(old(self).deep_view(), id, result_view(result)),
            final(self).deep_view().wf(),
    {
        let ghost before = self.deep_view();
        let ghost ended = result_view(result);
        if 1 <= id && id <= self.jobs.len() as u64 {
            let at = (id - 1) as usize;
            let job = &self.jobs[at];
            let message = match &result {
                Ok(summary) => match job.verb {
                    Verb::Delete => {
                        let shown = display_path(&job.worktree, &self.home);
                        let label = chars_of(&job.label);
                        if label.len() > 0 && label[0] == '(' {
                            "Deleted worktree ".to_owned().concat(&shown).concat(".")
                        } else {
                            "Deleted worktree ".to_owned().concat(&shown).concat(
                                " and branch ",
                            ).concat(&job.label).concat(".")
                        }
                    },
                    Verb::Sync => "Synced ".to_owned().concat(&job.label).concat(": ").concat(
                        summary,
                    ).concat("."),
                },
                Err(_) => job.verb.name().to_owned().concat(" ").concat(&job.label).concat(
                    " failed. The queue (Q) shows git's error.",
                ),
            };
            proof {
                assert(message@ == job_message(before.jobs[at as int], ended, before.home));
            }
            let state = match result {
                Ok(summary) => JobState::Done(summary),
                Err(err) => {
                    self.show_queue = true;
                    JobState::Failed(err)
                },
            };
            self.jobs[at].state = state;
            proof {
                assert(self.deep_view().jobs =~= job_finished(before, id, ended).jobs);
            }
            self.set_status(message);
            proof {
                assert(self.deep_view() =~= job_finished(before, id, ended));
            }
        }
    }

    /// Quits, asking first when jobs are still queued or running.
    pub(crate) fn ask_quit(&mut self)
        requires
            old(self).deep_view().wf(),
        ensures
            final(self).deep_view() == quit_asked(old(self).deep_view()),
            final(self).deep_view().wf(),
    {
        let ghost before = self.deep_view();
        let active = self.active_jobs();
        if active == 0 {
            self.should_quit = true;
            return ;
        }
        let lines: Vec<(String, Tone)> = vec![
            (
                decimal_of(active as u64).concat(
                    if active == 1 {
                        " job is"
                    } else {
                        " jobs are"
                    },
                ).concat(" still queued or running."),
                Tone::Warn,
            ),
            (
                "Quitting drops queued jobs; a git command that already started finishes on its own.".to_owned(),
                Tone::Muted,
            ),
        ];
        self.mode = Mode::Confirm(
            Confirm {
                title: " Quit? ".to_owned(),
                lines,
                yes: "Quit".to_owned(),
                danger: true,
                action: Action::Quit,
            },
        );
        proof {
            assert(lines.deep_view() =~= quit_dialog(active as nat).lines);
            assert(self.deep_view() =~= quit_asked(before));
        }
    }
}

} // verus!
