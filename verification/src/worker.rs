//! Background work. Everything that touches a repository runs on that project's *lane*, one task
//! (a refresh or a queued job) at a time, because git locks the repository.
use vstd::prelude::*;

use crate::cmd::{Attempt, AttemptView};
use crate::gh::{repo_list_args, repo_list_query, PullRequest, PullRequestView};
use crate::git::change::{
    branch_args, branch_deleted, branch_deleted_of, branch_query, deleted_of, merge, merge_args,
    merge_of, merge_query, remove_args, remove_query, removed,
};
use crate::git::prs::{RepoPr, RepoPrView};
use crate::git::{
    default_branch, default_branch_of, fetch, fetch_args, fetch_query, fetched, git_output,
    github_of, github_repo, head_args, head_query, remote_args, remote_query, WorktreeInfo,
    WorktreeInfoView,
};
use crate::model::{result_view, FileStat, FileStatView};

pub mod laws;

verus! {

/// A result for one project.
pub struct Update {
    pub project: String,
    /// Ties PR results to the refresh that asked for them; late ones are ignored.
    pub generation: u64,
    pub kind: UpdateKind,
}

pub enum UpdateKind {
    RepoInfo { github: Option<String>, default_branch: String },
    /// What the lane is doing right now; `None` when it is idle.
    Activity(Option<&'static str>),
    Worktrees(Result<Vec<WorktreeInfo>, String>),
    Fetched(Result<(), String>),
    /// A refresh has finished.
    RefreshDone,
    Prs(Result<Vec<PullRequest>, String>),
    PrFiles { number: u64, files: Result<Vec<FileStat>, String> },
    JobStarted(u64),
    JobFinished { id: u64, result: Result<String, String> },
}

/// An [`UpdateKind`] as mathematical values.
#[verifier::ext_equal]
pub enum UpdateKindView {
    RepoInfo { github: Option<Seq<char>>, default_branch: Seq<char> },
    Activity(Option<Seq<char>>),
    Worktrees(Result<Seq<WorktreeInfoView>, Seq<char>>),
    Fetched(Result<(), Seq<char>>),
    RefreshDone,
    Prs(Result<Seq<PullRequestView>, Seq<char>>),
    PrFiles { number: u64, files: Result<Seq<FileStatView>, Seq<char>> },
    JobStarted(u64),
    JobFinished { id: u64, result: Result<Seq<char>, Seq<char>> },
}

impl DeepView for UpdateKind {
    type V = UpdateKindView;

    open spec fn deep_view(&self) -> UpdateKindView {
        match self {
            UpdateKind::RepoInfo { github, default_branch } => UpdateKindView::RepoInfo {
                github: github.deep_view(),
                default_branch: default_branch@,
            },
            UpdateKind::Activity(activity) => UpdateKindView::Activity(activity.deep_view()),
            UpdateKind::Worktrees(result) => UpdateKindView::Worktrees(result_view(*result)),
            UpdateKind::Fetched(result) => UpdateKindView::Fetched(result_view(*result)),
            UpdateKind::RefreshDone => UpdateKindView::RefreshDone,
            UpdateKind::Prs(result) => UpdateKindView::Prs(result_view(*result)),
            UpdateKind::PrFiles { number, files } => UpdateKindView::PrFiles {
                number: *number,
                files: result_view(*files),
            },
            UpdateKind::JobStarted(id) => UpdateKindView::JobStarted(*id),
            UpdateKind::JobFinished { id, result } => UpdateKindView::JobFinished {
                id: *id,
                result: result_view(*result),
            },
        }
    }
}

/// An [`Update`] as mathematical values.
#[verifier::ext_equal]
pub struct UpdateView {
    pub project: Seq<char>,
    pub generation: u64,
    pub kind: UpdateKindView,
}

impl DeepView for Update {
    type V = UpdateView;

    open spec fn deep_view(&self) -> UpdateView {
        UpdateView {
            project: self.project@,
            generation: self.generation,
            kind: self.kind.deep_view(),
        }
    }
}

/// Stamps the results of one piece of work with the project and the generation they belong to.
pub struct Reporter {
    pub project: String,
    pub generation: u64,
}

impl Reporter {
    pub fn new(project: &str, generation: u64) -> (reporter: Self)
        ensures
            reporter.project@ == project@,
            reporter.generation == generation,
    {
        Reporter { project: project.to_owned(), generation }
    }

    pub fn stamp(&self, kind: UpdateKind) -> (update: Update)
        ensures
            update.deep_view() == (UpdateView {
                project: self.project@,
                generation: self.generation,
                kind: kind.deep_view(),
            }),
    {
        Update { project: self.project.clone(), generation: self.generation, kind }
    }
}

#[derive(Debug)]
pub enum Job {
    /// Remove the worktree (forcefully) and delete its local branch.
    Delete { path: String, branch: Option<String> },
    /// Merge `base` into the branch checked out in `worktree`.
    Sync { worktree: String, base: String },
}

/// A [`Job`] as mathematical values.
#[verifier::ext_equal]
pub enum JobView {
    Delete { path: Seq<char>, branch: Option<Seq<char>> },
    Sync { worktree: Seq<char>, base: Seq<char> },
}

impl DeepView for Job {
    type V = JobView;

    open spec fn deep_view(&self) -> JobView {
        match self {
            Job::Delete { path, branch } => JobView::Delete {
                path: path@,
                branch: branch.deep_view(),
            },
            Job::Sync { worktree, base } => JobView::Sync { worktree: worktree@, base: base@ },
        }
    }
}

/// Work for a project's lane.
#[derive(Debug)]
pub enum Task {
    /// `git fetch` and reload the worktrees.
    Refresh,
    /// Run a queued job, then reload the worktrees.
    Job { id: u64, job: Job },
}

/// A [`Task`] as mathematical values.
#[verifier::ext_equal]
pub enum TaskView {
    Refresh,
    Job { id: u64, job: JobView },
}

impl DeepView for Task {
    type V = TaskView;

    open spec fn deep_view(&self) -> TaskView {
        match self {
            Task::Refresh => TaskView::Refresh,
            Task::Job { id, job } => TaskView::Job { id: *id, job: job.deep_view() },
        }
    }
}

/// The tasks of a project that have not been handed out yet, oldest first.
#[derive(Debug)]
pub struct Lane {
    tasks: Vec<Task>,
}

/// A lane stands for its tasks, oldest first.
impl DeepView for Lane {
    type V = Seq<TaskView>;

    closed spec fn deep_view(&self) -> Seq<TaskView> {
        self.tasks.deep_view()
    }
}

impl Lane {
    pub fn new() -> (lane: Self)
        ensures
            lane.deep_view() == Seq::<TaskView>::empty(),
    {
        Lane { tasks: Vec::new() }
    }

    /// Adds a task behind those that wait already.
    pub fn send(&mut self, task: Task)
        ensures
            final(self).deep_view() == old(self).deep_view().push(task.deep_view()),
    {
        let ghost before = self.deep_view();
        self.tasks.push(task);
        proof {
            assert(self.deep_view() =~= before.push(task.deep_view()));
        }
    }

    /// Hands out the oldest task.
    pub fn take(&mut self) -> (task: Option<Task>)
        ensures
            old(self).deep_view().len() == 0 ==> task is None && final(self).deep_view() == old(
                self,
            ).deep_view(),
            old(self).deep_view().len() > 0 ==> task.deep_view() == Some(old(self).deep_view()[0])
                && final(self).deep_view() == old(self).deep_view().drop_first(),
    {
        let ghost before = self.deep_view();
        if self.tasks.len() == 0 {
            return None;
        }
        let task = self.tasks.remove(0);
        proof {
            assert(self.deep_view() =~= before.drop_first());
        }
        Some(task)
    }
}

// ---------------------------------------------------------------------------------------------
// Jobs
// ---------------------------------------------------------------------------------------------

/// What came of a job in the repository at `repo`, given how its git commands went. A sync has
/// one command; a delete has a second one, for the branch.
pub open spec fn job_result(
    repo: Seq<char>,
    job: JobView,
    first: AttemptView,
    second: AttemptView,
) -> Result<Seq<char>, Seq<char>> {
    match job {
        JobView::Delete { path, branch } => match deleted_of(repo, path, branch, first, second) {
            Err(reason) => Err(reason),
            Ok(_) => Ok(delete_summary(branch)),
        },
        JobView::Sync { worktree, base } => merge_of(worktree, base, first),
    }
}

/// How far a job has got.
#[derive(Debug)]
pub enum JobPhase {
    /// The first command is due: removing the worktree, or merging.
    First,
    /// The worktree is gone, and its branch is to be deleted.
    Branch,
    Over(Result<String, String>),
}

/// A [`JobPhase`] as mathematical values.
#[verifier::ext_equal]
pub enum JobPhaseView {
    First,
    Branch,
    Over(Result<Seq<char>, Seq<char>>),
}

impl DeepView for JobPhase {
    type V = JobPhaseView;

    open spec fn deep_view(&self) -> JobPhaseView {
        match self {
            JobPhase::First => JobPhaseView::First,
            JobPhase::Branch => JobPhaseView::Branch,
            JobPhase::Over(result) => JobPhaseView::Over(result_view(*result)),
        }
    }
}

/// A job that is being run in the repository at `repo`.
#[derive(Debug)]
pub struct JobRun<'a> {
    pub repo: &'a str,
    pub job: &'a Job,
    pub phase: JobPhase,
}

/// A [`JobRun`] as mathematical values.
#[verifier::ext_equal]
pub struct JobRunView {
    pub repo: Seq<char>,
    pub job: JobView,
    pub phase: JobPhaseView,
}

impl<'a> DeepView for JobRun<'a> {
    type V = JobRunView;

    open spec fn deep_view(&self) -> JobRunView {
        JobRunView {
            repo: self.repo@,
            job: self.job.deep_view(),
            phase: self.phase.deep_view(),
        }
    }
}

/// What a finished delete says.
pub open spec fn delete_summary(branch: Option<Seq<char>>) -> Seq<char> {
    match branch {
        Some(branch) => "worktree and branch "@ + branch + " deleted"@,
        None => "worktree deleted"@,
    }
}

/// Where a job stands once the worktree is gone.
pub open spec fn worktree_gone(branch: Option<Seq<char>>) -> JobPhaseView {
    if branch is Some {
        JobPhaseView::Branch
    } else {
        JobPhaseView::Over(Ok(delete_summary(branch)))
    }
}

/// A job before its first command.
pub open spec fn job_begun(repo: Seq<char>, job: JobView) -> JobRunView {
    JobRunView { repo, job, phase: JobPhaseView::First }
}

/// The directory and the arguments of the git command that the job waits for.
pub open spec fn job_question(run: JobRunView) -> Option<(Seq<char>, Seq<Seq<char>>)> {
    match (run.phase, run.job) {
        (JobPhaseView::First, JobView::Delete { path, .. }) => Some((run.repo, remove_args(path))),
        (JobPhaseView::First, JobView::Sync { worktree, base }) => Some(
            (worktree, merge_args(base)),
        ),
        (JobPhaseView::Branch, JobView::Delete { branch: Some(branch), .. }) => Some(
            (run.repo, branch_args(branch)),
        ),
        _ => None,
    }
}

/// A job after an attempt to run the git command that it waits for.
pub open spec fn job_answered(run: JobRunView, attempt: AttemptView) -> JobRunView {
    JobRunView {
        phase: match (run.phase, run.job) {
            (JobPhaseView::First, JobView::Delete { path, branch, .. }) => match git_output(
                run.repo,
                remove_args(path),
                attempt,
            ) {
                Ok(_) => worktree_gone(branch),
                Err(reason) => JobPhaseView::Over(Err(reason)),
            },
            (JobPhaseView::First, JobView::Sync { worktree, base }) => JobPhaseView::Over(
                merge_of(worktree, base, attempt),
            ),
            (JobPhaseView::Branch, JobView::Delete { branch: Some(branch), .. }) => {
                JobPhaseView::Over(
                    match branch_deleted_of(run.repo, branch, attempt) {
                        Ok(_) => Ok(delete_summary(Some(branch))),
                        Err(reason) => Err(reason),
                    },
                )
            },
            _ => run.phase,
        },
        ..run
    }
}

fn summary_of(branch: &Option<String>) -> (summary: String)
    ensures
        summary@ == delete_summary(branch.deep_view()),
{
    match branch {
        Some(branch) => "worktree and branch ".to_owned().concat(branch).concat(" deleted"),
        None => "worktree deleted".to_owned(),
    }
}

fn after_removal(branch: &Option<String>) -> (phase: JobPhase)
    ensures
        phase.deep_view() == worktree_gone(branch.deep_view()),
{
    if branch.is_some() {
        JobPhase::Branch
    } else {
        JobPhase::Over(Ok(summary_of(branch)))
    }
}

impl<'a> JobRun<'a> {
    /// Starts a job in the repository at `repo`.
    pub fn begin(repo: &'a str, job: &'a Job) -> (run: Self)
        ensures
            run.deep_view() == job_begun(repo@, job.deep_view()),
    {
        JobRun { repo, job, phase: JobPhase::First }
    }

    /// The directory and the arguments of the git command to run next, if one is due.
    pub fn question(&self) -> (question: Option<(String, Vec<String>)>)
        ensures
            question.deep_view() == job_question(self.deep_view()),
    {
        match (&self.phase, self.job) {
            (JobPhase::First, Job::Delete { path, .. }) => Some(
                (self.repo.to_owned(), remove_query(path)),
            ),
            (JobPhase::First, Job::Sync { worktree, base }) => Some(
                (worktree.clone(), merge_query(base)),
            ),
            (JobPhase::Branch, Job::Delete { branch: Some(branch), .. }) => Some(
                (self.repo.to_owned(), branch_query(branch)),
            ),
            _ => None,
        }
    }

    /// Takes in how the git command that was due went.
    pub fn answer(&mut self, attempt: Attempt)
        ensures
            final(self).deep_view() == job_answered(old(self).deep_view(), attempt.deep_view()),
    {
        match (&self.phase, self.job) {
            (JobPhase::First, Job::Delete { path, branch, .. }) => {
                self.phase = match removed(self.repo, path, attempt) {
                    Ok(_) => after_removal(branch),
                    Err(reason) => JobPhase::Over(Err(reason)),
                };
            },
            (JobPhase::First, Job::Sync { worktree, base }) => {
                self.phase = JobPhase::Over(merge(worktree, base, attempt));
            },
            (JobPhase::Branch, Job::Delete { branch: Some(branch), .. }) => {
                self.phase = JobPhase::Over(
                    match branch_deleted(self.repo, branch, attempt) {
                        Ok(_) => Ok(
                            "worktree and branch ".to_owned().concat(branch).concat(" deleted"),
                        ),
                        Err(reason) => Err(reason),
                    },
                );
            },
            _ => {},
        }
    }

    /// What came of the job; `None` while it goes on.
    pub fn finish(self) -> (result: Option<Result<String, String>>)
        ensures
            match result {
                Some(r) => self.deep_view().phase == JobPhaseView::Over(result_view(r)),
                None => !(self.deep_view().phase is Over),
            },
    {
        match self.phase {
            JobPhase::Over(result) => Some(result),
            _ => None,
        }
    }
}

/// A job as a whole gives what its commands amount to: a delete removes the worktree, and then
/// deletes the branch, if there is one and the worktree is gone; a sync merges.
pub proof fn a_job_gives_its_result(
    repo: Seq<char>,
    job: JobView,
    first: AttemptView,
    second: AttemptView,
)
    ensures
        ({
            let once = job_answered(job_begun(repo, job), first);
            let twice = if once.phase is Branch {
                job_answered(once, second)
            } else {
                once
            };
            twice.phase == JobPhaseView::Over(job_result(repo, job, first, second))
        }),
{
}

/// No branch is deleted while its worktree is there: the command for the branch is only due when
/// removing the worktree has succeeded.
pub proof fn a_branch_goes_after_its_worktree(
    repo: Seq<char>,
    path: Seq<char>,
    branch: Option<Seq<char>>,
    first: AttemptView,
)
    ensures
        ({
            let start = job_begun(repo, JobView::Delete { path, branch });
            &&& job_question(start) == Some((repo, remove_args(path)))
            &&& job_answered(start, first).phase is Branch ==> git_output(
                repo,
                remove_args(path),
                first,
            ) is Ok
        }),
{
}

// ---------------------------------------------------------------------------------------------
// Pull requests
// ---------------------------------------------------------------------------------------------

/// The GitHub repository whose pull requests to load for the project at `dir`, or what to say
/// instead.
pub open spec fn pr_source_of(dir: Seq<char>, attempt: AttemptView) -> Result<Seq<char>, Seq<char>> {
    match github_of(dir, attempt) {
        Some(repo) => Ok(repo),
        None => Err("origin is not a GitHub remote, so there are no pull requests to show."@),
    }
}

/// The GitHub repository whose pull requests to load for the project at `dir`, or what to say
/// instead.
pub fn pr_source(dir: &str, attempt: Attempt) -> (repo: Result<String, String>)
    ensures
        result_view(repo) == pr_source_of(dir@, attempt.deep_view()),
{
    match github_repo(dir, attempt) {
        Some(repo) => Ok(repo),
        None => Err(
            "origin is not a GitHub remote, so there are no pull requests to show.".to_owned(),
        ),
    }
}

// ---------------------------------------------------------------------------------------------
// Running a lane
// ---------------------------------------------------------------------------------------------

/// What a lane waits for.
#[derive(Debug)]
pub enum Stage {
    /// The next task.
    Idle,
    /// The URL of origin.
    Remote,
    /// The default branch.
    Head,
    /// The quick numbers from local refs.
    Quick,
    Fetching,
    /// The repository's pull requests.
    Listing,
    /// The full numbers of a refresh, including the merge check against the fetched refs.
    Full,
    /// The end of a job.
    Working { id: u64, job: Job },
    /// The default branch, after a job.
    ReloadHead,
    /// The full numbers, after a job.
    Reload,
}

/// A [`Stage`] as mathematical values.
#[verifier::ext_equal]
pub enum StageView {
    Idle,
    Remote,
    Head,
    Quick,
    Fetching,
    Listing,
    Full,
    Working { id: u64, job: JobView },
    ReloadHead,
    Reload,
}

impl DeepView for Stage {
    type V = StageView;

    open spec fn deep_view(&self) -> StageView {
        match self {
            Stage::Idle => StageView::Idle,
            Stage::Remote => StageView::Remote,
            Stage::Head => StageView::Head,
            Stage::Quick => StageView::Quick,
            Stage::Fetching => StageView::Fetching,
            Stage::Listing => StageView::Listing,
            Stage::Full => StageView::Full,
            Stage::Working { id, job } => StageView::Working { id: *id, job: job.deep_view() },
            Stage::ReloadHead => StageView::ReloadHead,
            Stage::Reload => StageView::Reload,
        }
    }
}

/// The state of a lane between two steps of its work.
#[derive(Debug)]
pub struct LaneRun {
    pub repo: String,
    pub stage: Stage,
    pub github: Option<String>,
    /// What the worktrees are compared with, such as `origin/main`.
    pub base: String,
    /// The repo's recent PRs from gh, refreshed with every fetch and reused by job reloads;
    /// `None` while gh is unavailable.
    pub prs: Option<Vec<RepoPr>>,
}

/// A [`LaneRun`] as mathematical values.
#[verifier::ext_equal]
pub struct LaneRunView {
    pub repo: Seq<char>,
    pub stage: StageView,
    pub github: Option<Seq<char>>,
    pub base: Seq<char>,
    pub prs: Option<Seq<RepoPrView>>,
}

impl DeepView for LaneRun {
    type V = LaneRunView;

    open spec fn deep_view(&self) -> LaneRunView {
        LaneRunView {
            repo: self.repo@,
            stage: self.stage.deep_view(),
            github: self.github.deep_view(),
            base: self.base@,
            prs: self.prs.deep_view(),
        }
    }
}

/// What came back from a step of a lane's work.
pub enum Reply {
    /// How a git command went.
    Git(Attempt),
    /// The worktrees with their stats.
    Worktrees(Result<Vec<WorktreeInfo>, String>),
    /// The repository's pull requests.
    Prs(Result<Vec<RepoPr>, String>),
    /// What came of a job.
    Job(Result<String, String>),
}

/// A [`Reply`] as mathematical values.
#[verifier::ext_equal]
pub enum ReplyView {
    Git(AttemptView),
    Worktrees(Result<Seq<WorktreeInfoView>, Seq<char>>),
    Prs(Result<Seq<RepoPrView>, Seq<char>>),
    Job(Result<Seq<char>, Seq<char>>),
}

impl DeepView for Reply {
    type V = ReplyView;

    open spec fn deep_view(&self) -> ReplyView {
        match self {
            Reply::Git(attempt) => ReplyView::Git(attempt.deep_view()),
            Reply::Worktrees(result) => ReplyView::Worktrees(result_view(*result)),
            Reply::Prs(result) => ReplyView::Prs(result_view(*result)),
            Reply::Job(result) => ReplyView::Job(result_view(*result)),
        }
    }
}

/// A lane that takes up `task`, and the updates it sends then.
pub open spec fn begun(lane: LaneRunView, task: TaskView) -> (LaneRunView, Seq<UpdateKindView>) {
    match task {
        TaskView::Refresh => (LaneRunView { stage: StageView::Remote, ..lane }, Seq::empty()),
        TaskView::Job { id, job } => (
            LaneRunView { stage: StageView::Working { id, job }, ..lane },
            seq![UpdateKindView::JobStarted(id)],
        ),
    }
}

/// `origin/<default>`.
pub open spec fn origin(branch: Seq<char>) -> Seq<char> {
    "origin/"@ + branch
}

pub open spec fn updating() -> UpdateKindView {
    UpdateKindView::Activity(Some("updating worktrees…"@))
}

/// A lane after one more step of its work, and the updates it sends then. A refresh shows quick
/// numbers from local refs first, then runs `git fetch` and lists the repo's PRs (kept from
/// last time when gh fails), then shows the full numbers. A job is followed by the full numbers,
/// without a fetch. A reply that the lane does not wait for changes nothing.
pub open spec fn advanced(lane: LaneRunView, reply: ReplyView) -> (
    LaneRunView,
    Seq<UpdateKindView>,
) {
    match (lane.stage, reply) {
        (StageView::Remote, ReplyView::Git(attempt)) => (
            LaneRunView {
                stage: StageView::Head,
                github: github_of(lane.repo, attempt),
                ..lane
            },
            Seq::empty(),
        ),
        (StageView::Head, ReplyView::Git(attempt)) => {
            let branch = default_branch_of(lane.repo, attempt);
            (
                LaneRunView { stage: StageView::Quick, base: origin(branch), ..lane },
                seq![
                    UpdateKindView::RepoInfo { github: lane.github, default_branch: branch },
                    updating(),
                ],
            )
        },
        (StageView::Quick, ReplyView::Worktrees(result)) => (
            LaneRunView { stage: StageView::Fetching, ..lane },
            seq![
                UpdateKindView::Worktrees(result),
                UpdateKindView::Activity(Some("fetching origin…"@)),
            ],
        ),
        (StageView::Fetching, ReplyView::Git(attempt)) => {
            let done = UpdateKindView::Fetched(fetched(lane.repo, attempt));
            if lane.github is Some {
                (
                    LaneRunView { stage: StageView::Listing, ..lane },
                    seq![done, UpdateKindView::Activity(Some("checking PRs…"@))],
                )
            } else {
                (LaneRunView { stage: StageView::Full, ..lane }, seq![done, updating()])
            }
        },
        (StageView::Listing, ReplyView::Prs(result)) => (
            LaneRunView {
                stage: StageView::Full,
                prs: match result {
                    Ok(list) => Some(list),
                    Err(_) => lane.prs,
                },
                ..lane
            },
            seq![updating()],
        ),
        (StageView::Full, ReplyView::Worktrees(result)) => (
            LaneRunView { stage: StageView::Idle, ..lane },
            seq![
                UpdateKindView::Worktrees(result),
                UpdateKindView::RefreshDone,
                UpdateKindView::Activity(None),
            ],
        ),
        (StageView::Working { id, .. }, ReplyView::Job(result)) => (
            LaneRunView { stage: StageView::ReloadHead, ..lane },
            seq![UpdateKindView::JobFinished { id, result }, updating()],
        ),
        (StageView::ReloadHead, ReplyView::Git(attempt)) => (
            LaneRunView {
                stage: StageView::Reload,
                base: origin(default_branch_of(lane.repo, attempt)),
                ..lane
            },
            Seq::empty(),
        ),
        (StageView::Reload, ReplyView::Worktrees(result)) => (
            LaneRunView { stage: StageView::Idle, ..lane },
            seq![UpdateKindView::Worktrees(result), UpdateKindView::Activity(None)],
        ),
        _ => (lane, Seq::empty()),
    }
}

/// A command to run: the program, its directory and its arguments.
#[derive(Debug)]
pub struct Command {
    pub program: &'static str,
    pub dir: String,
    pub args: Vec<String>,
}

/// A [`Command`] as mathematical values.
#[verifier::ext_equal]
pub struct CommandView {
    pub program: Seq<char>,
    pub dir: Seq<char>,
    pub args: Seq<Seq<char>>,
}

impl DeepView for Command {
    type V = CommandView;

    open spec fn deep_view(&self) -> CommandView {
        CommandView { program: self.program@, dir: self.dir@, args: self.args.deep_view() }
    }
}

/// A git command in the repository of a lane.
pub open spec fn git_command(lane: LaneRunView, args: Seq<Seq<char>>) -> CommandView {
    CommandView { program: "git"@, dir: lane.repo, args }
}

/// The command that a lane waits for. There is none while it is idle, while it loads worktrees,
/// each of which has questions of its own, and while a job runs, which has its own too.
pub open spec fn lane_question(lane: LaneRunView) -> Option<CommandView> {
    match lane.stage {
        StageView::Remote => Some(git_command(lane, remote_args())),
        StageView::Head => Some(git_command(lane, head_args())),
        StageView::ReloadHead => Some(git_command(lane, head_args())),
        StageView::Fetching => Some(git_command(lane, fetch_args())),
        StageView::Listing => match lane.github {
            Some(github) => Some(
                CommandView { program: "gh"@, dir: lane.repo, args: repo_list_args(github) },
            ),
            None => None,
        },
        _ => None,
    }
}

/// `origin/<default>`.
fn base_ref(branch: &str) -> (base: String)
    ensures
        base@ == origin(branch@),
{
    "origin/".to_owned().concat(branch)
}

impl LaneRun {
    /// A lane that has not done anything yet.
    pub fn new(repo: &str) -> (lane: Self)
        ensures
            lane.deep_view() == (LaneRunView {
                repo: repo@,
                stage: StageView::Idle,
                github: None,
                base: Seq::empty(),
                prs: None,
            }),
    {
        LaneRun {
            repo: repo.to_owned(),
            stage: Stage::Idle,
            github: None,
            base: String::new(),
            prs: None,
        }
    }

    /// Takes up a task. The updates are to be sent in order.
    pub fn begin(&mut self, task: Task) -> (updates: Vec<UpdateKind>)
        ensures
            (final(self).deep_view(), updates.deep_view()) == begun(
                old(self).deep_view(),
                task.deep_view(),
            ),
    {
        let mut updates: Vec<UpdateKind> = Vec::new();
        match task {
            Task::Refresh => {
                self.stage = Stage::Remote;
            },
            Task::Job { id, job } => {
                self.stage = Stage::Working { id, job };
                updates.push(UpdateKind::JobStarted(id));
            },
        }
        proof {
            assert(updates.deep_view() =~= begun(old(self).deep_view(), task.deep_view()).1);
            assert(self.deep_view() =~= begun(old(self).deep_view(), task.deep_view()).0);
        }
        updates
    }

    /// Takes in what came back from the step that was due. The updates are to be sent in order.
    pub fn advance(&mut self, reply: Reply) -> (updates: Vec<UpdateKind>)
        ensures
            (final(self).deep_view(), updates.deep_view()) == advanced(
                old(self).deep_view(),
                reply.deep_view(),
            ),
    {
        let mut updates: Vec<UpdateKind> = Vec::new();
        let ghost before = self.deep_view();
        match (&self.stage, reply) {
            (Stage::Remote, Reply::Git(attempt)) => {
                self.github = github_repo(&self.repo, attempt);
                self.stage = Stage::Head;
            },
            (Stage::Head, Reply::Git(attempt)) => {
                let branch = default_branch(&self.repo, attempt);
                self.base = base_ref(&branch);
                self.stage = Stage::Quick;
                updates.push(
                    UpdateKind::RepoInfo { github: self.github.clone(), default_branch: branch },
                );
                updates.push(UpdateKind::Activity(Some("updating worktrees…")));
            },
            (Stage::Quick, Reply::Worktrees(result)) => {
                self.stage = Stage::Fetching;
                updates.push(UpdateKind::Worktrees(result));
                updates.push(UpdateKind::Activity(Some("fetching origin…")));
            },
            (Stage::Fetching, Reply::Git(attempt)) => {
                updates.push(UpdateKind::Fetched(fetch(&self.repo, attempt)));
                if self.github.is_some() {
                    self.stage = Stage::Listing;
                    updates.push(UpdateKind::Activity(Some("checking PRs…")));
                } else {
                    self.stage = Stage::Full;
                    updates.push(UpdateKind::Activity(Some("updating worktrees…")));
                }
            },
            (Stage::Listing, Reply::Prs(result)) => {
                match result {
                    Ok(list) => {
                        self.prs = Some(list);
                    },
                    Err(_) => {},
                }
                self.stage = Stage::Full;
                updates.push(UpdateKind::Activity(Some("updating worktrees…")));
            },
            (Stage::Full, Reply::Worktrees(result)) => {
                self.stage = Stage::Idle;
                updates.push(UpdateKind::Worktrees(result));
                updates.push(UpdateKind::RefreshDone);
                updates.push(UpdateKind::Activity(None));
            },
            (Stage::Working { id, .. }, Reply::Job(result)) => {
                updates.push(UpdateKind::JobFinished { id: *id, result });
                self.stage = Stage::ReloadHead;
                updates.push(UpdateKind::Activity(Some("updating worktrees…")));
            },
            (Stage::ReloadHead, Reply::Git(attempt)) => {
                self.base = base_ref(&default_branch(&self.repo, attempt));
                self.stage = Stage::Reload;
            },
            (Stage::Reload, Reply::Worktrees(result)) => {
                self.stage = Stage::Idle;
                updates.push(UpdateKind::Worktrees(result));
                updates.push(UpdateKind::Activity(None));
            },
            _ => {},
        }
        proof {
            assert(updates.deep_view() =~= advanced(before, reply.deep_view()).1);
            assert(self.deep_view() =~= advanced(before, reply.deep_view()).0);
        }
        updates
    }

    /// The command to run next, if one is due.
    pub fn question(&self) -> (command: Option<Command>)
        ensures
            command.deep_view() == lane_question(self.deep_view()),
    {
        let dir = self.repo.clone();
        match &self.stage {
            Stage::Remote => Some(Command { program: "git", dir, args: remote_query() }),
            Stage::Head => Some(Command { program: "git", dir, args: head_query() }),
            Stage::ReloadHead => Some(Command { program: "git", dir, args: head_query() }),
            Stage::Fetching => Some(Command { program: "git", dir, args: fetch_query() }),
            Stage::Listing => match &self.github {
                Some(github) => Some(
                    Command { program: "gh", dir, args: repo_list_query(github) },
                ),
                None => None,
            },
            _ => None,
        }
    }

    /// Whether the worktrees are to be loaded with the merge check: not for the quick numbers.
    pub fn checks_merges(&self) -> (check: bool)
        ensures
            check == checked(self.deep_view()),
    {
        match &self.stage {
            Stage::Quick => false,
            _ => true,
        }
    }
}

// ---------------------------------------------------------------------------------------------
// Laws
// ---------------------------------------------------------------------------------------------

/// The worktrees that the lane loads are checked for whether they can be merged.
pub open spec fn checked(lane: LaneRunView) -> bool {
    !(lane.stage is Quick)
}

/// The reply is of the kind that the lane waits for.
pub open spec fn awaited(stage: StageView, reply: ReplyView) -> bool {
    match stage {
        StageView::Idle => false,
        StageView::Remote | StageView::Head | StageView::Fetching | StageView::ReloadHead => {
            reply is Git
        },
        StageView::Quick | StageView::Full | StageView::Reload => reply is Worktrees,
        StageView::Listing => reply is Prs,
        StageView::Working { .. } => reply is Job,
    }
}

/// How many steps a task takes from `stage` on, at most.
pub open spec fn steps_left(stage: StageView) -> nat {
    match stage {
        StageView::Idle => 0,
        StageView::Remote => 6,
        StageView::Head => 5,
        StageView::Quick => 4,
        StageView::Fetching => 3,
        StageView::Listing => 2,
        StageView::Full => 1,
        StageView::Working { .. } => 3,
        StageView::ReloadHead => 2,
        StageView::Reload => 1,
    }
}

/// Every awaited reply, good or bad, brings a lane closer to its next task: neither a refresh
/// nor a job can hang on a failure.
pub proof fn every_reply_brings_a_lane_closer(lane: LaneRunView, reply: ReplyView)
    requires
        awaited(lane.stage, reply),
    ensures
        steps_left(advanced(lane, reply).0.stage) < steps_left(lane.stage),
{
}

/// A lane that falls idle says so last, and at the end of a refresh it has reported that the
/// refresh is done.
pub proof fn an_idle_lane_says_so(lane: LaneRunView, reply: ReplyView)
    requires
        !(lane.stage is Idle),
        advanced(lane, reply).0.stage is Idle,
    ensures
        advanced(lane, reply).1.last() == UpdateKindView::Activity(None),
        lane.stage is Full ==> advanced(lane, reply).1.contains(UpdateKindView::RefreshDone),
{
    let sent = advanced(lane, reply).1;
    if lane.stage is Full {
        assert(sent[1] == UpdateKindView::RefreshDone);
    }
}

/// A job that was started under some id is finished under that id, with the result that came
/// back, before anything else is reported.
pub proof fn a_started_job_is_finished(
    lane: LaneRunView,
    id: u64,
    job: JobView,
    result: Result<Seq<char>, Seq<char>>,
)
    ensures
        ({
            let (working, first) = begun(lane, TaskView::Job { id, job });
            &&& first == seq![UpdateKindView::JobStarted(id)]
            &&& advanced(working, ReplyView::Job(result)).1[0] == UpdateKindView::JobFinished {
                id,
                result,
            }
        }),
{
}

/// What came back from each step of a refresh.
pub struct RefreshReplies {
    pub remote: AttemptView,
    pub head: AttemptView,
    pub quick: Result<Seq<WorktreeInfoView>, Seq<char>>,
    pub fetch: AttemptView,
    pub prs: Result<Seq<RepoPrView>, Seq<char>>,
    pub full: Result<Seq<WorktreeInfoView>, Seq<char>>,
}

/// A refresh from its start to its end, whatever came back: it asks git for the remote and the
/// default branch, shows the worktrees, fetches once, asks gh once for the pull requests in any
/// state if origin is on GitHub and never otherwise, and shows the worktrees again. It reports one
/// fetch, between the two lists of worktrees, and at the end that the refresh is done. Pull
/// requests that gh could not list stay as they were.
pub proof fn a_refresh_runs_its_course(lane: LaneRunView, replies: RefreshReplies)
    ensures
        ({
            let (l0, u0) = begun(lane, TaskView::Refresh);
            let (l1, u1) = advanced(l0, ReplyView::Git(replies.remote));
            let (l2, u2) = advanced(l1, ReplyView::Git(replies.head));
            let (l3, u3) = advanced(l2, ReplyView::Worktrees(replies.quick));
            let (l4, u4) = advanced(l3, ReplyView::Git(replies.fetch));
            let github = github_of(lane.repo, replies.remote);
            let (l5, u5) = if github is Some {
                advanced(l4, ReplyView::Prs(replies.prs))
            } else {
                (l4, Seq::empty())
            };
            let (l6, u6) = advanced(l5, ReplyView::Worktrees(replies.full));
            let branch = default_branch_of(lane.repo, replies.head);
            let checking = UpdateKindView::Activity(Some("checking PRs…"@));
            &&& lane_question(l0) == Some(git_command(lane, remote_args()))
            &&& lane_question(l1) == Some(git_command(lane, head_args()))
            &&& lane_question(l2) is None
            &&& lane_question(l3) == Some(git_command(lane, fetch_args()))
            &&& lane_question(l4) == match github {
                Some(repo) => Some(
                    CommandView { program: "gh"@, dir: lane.repo, args: repo_list_args(repo) },
                ),
                None => None,
            }
            &&& lane_question(l5) is None
            &&& lane_question(l6) is None
            &&& u0 + u1 + u2 + u3 + u4 + u5 + u6 == seq![
                UpdateKindView::RepoInfo { github, default_branch: branch },
                updating(),
                UpdateKindView::Worktrees(replies.quick),
                UpdateKindView::Activity(Some("fetching origin…"@)),
                UpdateKindView::Fetched(fetched(lane.repo, replies.fetch)),
            ] + (if github is Some {
                seq![checking, updating()]
            } else {
                seq![updating()]
            }) + seq![
                UpdateKindView::Worktrees(replies.full),
                UpdateKindView::RefreshDone,
                UpdateKindView::Activity(None),
            ]
            &&& l6 == LaneRunView {
                stage: StageView::Idle,
                github,
                base: origin(branch),
                prs: match replies.prs {
                    Ok(list) if github is Some => Some(list),
                    _ => lane.prs,
                },
                ..lane
            }
        }),
{
}

/// When gh fails, the pull requests known from last time are kept.
pub proof fn a_gh_failure_keeps_the_prs(lane: LaneRunView, reason: Seq<char>)
    ensures
        advanced(lane, ReplyView::Prs(Err(reason))).0.prs == lane.prs,
{
}

/// Only an answer to the listing changes the known pull requests.
pub proof fn only_a_listing_changes_the_prs(lane: LaneRunView, reply: ReplyView)
    requires
        !(reply is Prs),
    ensures
        advanced(lane, reply).0.prs == lane.prs,
{
}

/// A lane hands its tasks out in the order in which they were sent.
pub proof fn tasks_keep_their_order(waiting: Seq<TaskView>, task: TaskView)
    requires
        waiting.len() > 0,
    ensures
        waiting.push(task)[0] == waiting[0],
        waiting.push(task).drop_first() == waiting.drop_first().push(task),
{
    assert(waiting.push(task).drop_first() =~= waiting.drop_first().push(task));
}

} // verus!
