//! The state of the application and its mathematical model.
use std::collections::HashMap;
use vstd::prelude::*;

use super::marks::{listed_keys, Marks};
use crate::config::Config;
use crate::gh::{PullRequest, PullRequestView};
use crate::git::{WorktreeInfo, WorktreeInfoView};
use crate::model::{result_view, FileStat, FileStatView};
use crate::worker::{Job, JobView, Lane, TaskView};

verus! {

// ---------------------------------------------------------------------------------------------
// Small enums
// ---------------------------------------------------------------------------------------------

#[derive(Debug, Clone, Copy, PartialEq, Eq, Structural)]
pub enum Focus {
    Projects,
    List,
    Detail,
}

#[derive(Debug, Clone, Copy, PartialEq, Eq, Structural)]
pub enum Tab {
    Worktrees,
    Prs,
}

#[derive(Debug, Clone, Copy, PartialEq, Eq, Structural)]
pub enum Button {
    Yes,
    No,
}

#[derive(Debug, Clone, Copy, PartialEq, Eq, Structural)]
pub enum Tone {
    Normal,
    Muted,
    Warn,
    Danger,
}

impl DeepView for Tone {
    type V = Tone;

    open spec fn deep_view(&self) -> Tone {
        *self
    }
}

#[derive(Debug, Clone, Copy, PartialEq, Eq, Structural)]
pub enum Verb {
    Delete,
    Sync,
}

// ---------------------------------------------------------------------------------------------
// Jobs
// ---------------------------------------------------------------------------------------------

#[derive(Debug)]
pub enum JobState {
    Pending,
    Running,
    Done(String),
    /// Carries git's full error output.
    Failed(String),
    /// Never ran; carries the reason.
    Skipped(String),
}

/// A [`JobState`] as mathematical values.
#[verifier::ext_equal]
pub enum JobStateView {
    Pending,
    Running,
    Done(Seq<char>),
    Failed(Seq<char>),
    Skipped(Seq<char>),
}

impl DeepView for JobState {
    type V = JobStateView;

    open spec fn deep_view(&self) -> JobStateView {
        match self {
            JobState::Pending => JobStateView::Pending,
            JobState::Running => JobStateView::Running,
            JobState::Done(summary) => JobStateView::Done(summary@),
            JobState::Failed(err) => JobStateView::Failed(err@),
            JobState::Skipped(reason) => JobStateView::Skipped(reason@),
        }
    }
}

#[derive(Debug)]
pub struct JobEntry {
    pub id: u64,
    pub project: String,
    pub worktree: String,
    /// Branch name, or `(detached …)`.
    pub label: String,
    pub verb: Verb,
    pub state: JobState,
}

/// A [`JobEntry`] as mathematical values.
#[verifier::ext_equal]
pub struct JobEntryView {
    pub id: u64,
    pub project: Seq<char>,
    pub worktree: Seq<char>,
    pub label: Seq<char>,
    pub verb: Verb,
    pub state: JobStateView,
}

impl DeepView for JobEntry {
    type V = JobEntryView;

    open spec fn deep_view(&self) -> JobEntryView {
        JobEntryView {
            id: self.id,
            project: self.project@,
            worktree: self.worktree@,
            label: self.label@,
            verb: self.verb,
            state: self.state.deep_view(),
        }
    }
}

/// A job ready to be queued.
#[derive(Debug)]
pub struct Planned {
    pub worktree: String,
    pub label: String,
    pub verb: Verb,
    pub job: Job,
}

/// A [`Planned`] as mathematical values.
#[verifier::ext_equal]
pub struct PlannedView {
    pub worktree: Seq<char>,
    pub label: Seq<char>,
    pub verb: Verb,
    pub job: JobView,
}

impl DeepView for Planned {
    type V = PlannedView;

    open spec fn deep_view(&self) -> PlannedView {
        PlannedView {
            worktree: self.worktree@,
            label: self.label@,
            verb: self.verb,
            job: self.job.deep_view(),
        }
    }
}

/// A marked row that will not get a job, and why.
#[derive(Debug)]
pub struct Skipped {
    pub worktree: String,
    pub label: String,
    pub verb: Verb,
    pub reason: String,
}

/// A [`Skipped`] as mathematical values.
#[verifier::ext_equal]
pub struct SkippedView {
    pub worktree: Seq<char>,
    pub label: Seq<char>,
    pub verb: Verb,
    pub reason: Seq<char>,
}

impl DeepView for Skipped {
    type V = SkippedView;

    open spec fn deep_view(&self) -> SkippedView {
        SkippedView {
            worktree: self.worktree@,
            label: self.label@,
            verb: self.verb,
            reason: self.reason@,
        }
    }
}

/// A worktree that was to be deleted, with its branch.
#[derive(Debug)]
pub struct DeleteJob {
    pub path: String,
    pub branch: Option<String>,
}

/// A [`DeleteJob`] as mathematical values.
#[verifier::ext_equal]
pub struct DeleteJobView {
    pub path: Seq<char>,
    pub branch: Option<Seq<char>>,
}

impl DeepView for DeleteJob {
    type V = DeleteJobView;

    open spec fn deep_view(&self) -> DeleteJobView {
        DeleteJobView {
            path: self.path@,
            branch: self.branch.deep_view(),
        }
    }
}

/// A branch to merge `base` into.
#[derive(Debug)]
pub struct SyncJob {
    pub worktree: String,
    pub branch: String,
    pub base: String,
}

/// A [`SyncJob`] as mathematical values.
#[verifier::ext_equal]
pub struct SyncJobView {
    pub worktree: Seq<char>,
    pub branch: Seq<char>,
    pub base: Seq<char>,
}

impl DeepView for SyncJob {
    type V = SyncJobView;

    open spec fn deep_view(&self) -> SyncJobView {
        SyncJobView { worktree: self.worktree@, branch: self.branch@, base: self.base@ }
    }
}

// ---------------------------------------------------------------------------------------------
// Dialogs
// ---------------------------------------------------------------------------------------------

#[derive(Debug)]
pub enum Action {
    RemoveProject,
    Quit,
    /// Queue jobs on a project's lane.
    Queue { project: String, planned: Vec<Planned>, skipped: Vec<Skipped> },
    Sync(SyncJob),
}

/// An [`Action`] as mathematical values.
#[verifier::ext_equal]
pub enum ActionView {
    RemoveProject,
    Quit,
    Queue { project: Seq<char>, planned: Seq<PlannedView>, skipped: Seq<SkippedView> },
    Sync(SyncJobView),
}

impl DeepView for Action {
    type V = ActionView;

    open spec fn deep_view(&self) -> ActionView {
        match self {
            Action::RemoveProject => ActionView::RemoveProject,
            Action::Quit => ActionView::Quit,
            Action::Queue { project, planned, skipped } => ActionView::Queue {
                project: project@,
                planned: planned.deep_view(),
                skipped: skipped.deep_view(),
            },
            Action::Sync(job) => ActionView::Sync(job.deep_view()),
        }
    }
}

/// A yes/no dialog and what "yes" does.
#[derive(Debug)]
pub struct Confirm {
    pub title: String,
    pub lines: Vec<(String, Tone)>,
    /// Label of the "yes" button.
    pub yes: String,
    /// Destructive: drawn in red.
    pub danger: bool,
    pub action: Action,
}

/// A [`Confirm`] as mathematical values.
#[verifier::ext_equal]
pub struct ConfirmView {
    pub title: Seq<char>,
    pub lines: Seq<(Seq<char>, Tone)>,
    pub yes: Seq<char>,
    pub danger: bool,
    pub action: ActionView,
}

impl DeepView for Confirm {
    type V = ConfirmView;

    open spec fn deep_view(&self) -> ConfirmView {
        ConfirmView {
            title: self.title@,
            lines: self.lines.deep_view(),
            yes: self.yes@,
            danger: self.danger,
            action: self.action.deep_view(),
        }
    }
}

#[derive(Debug)]
pub struct PathInput {
    pub text: String,
    pub error: Option<String>,
}

/// A [`PathInput`] as mathematical values.
#[verifier::ext_equal]
pub struct PathInputView {
    pub text: Seq<char>,
    pub error: Option<Seq<char>>,
}

impl DeepView for PathInput {
    type V = PathInputView;

    open spec fn deep_view(&self) -> PathInputView {
        PathInputView { text: self.text@, error: self.error.deep_view() }
    }
}

#[derive(Debug)]
pub enum Mode {
    Normal,
    Help,
    AddProject(PathInput),
    Confirm(Confirm),
}

/// A [`Mode`] as mathematical values.
#[verifier::ext_equal]
pub enum ModeView {
    Normal,
    Help,
    AddProject(PathInputView),
    Confirm(ConfirmView),
}

impl DeepView for Mode {
    type V = ModeView;

    open spec fn deep_view(&self) -> ModeView {
        match self {
            Mode::Normal => ModeView::Normal,
            Mode::Help => ModeView::Help,
            Mode::AddProject(input) => ModeView::AddProject(input.deep_view()),
            Mode::Confirm(confirm) => ModeView::Confirm(confirm.deep_view()),
        }
    }
}

// ---------------------------------------------------------------------------------------------
// Projects
// ---------------------------------------------------------------------------------------------

#[derive(Debug)]
pub struct FetchResult {
    /// When the fetch ended, in milliseconds.
    pub at: u64,
    pub result: Result<(), String>,
}

/// A [`FetchResult`] as mathematical values.
#[verifier::ext_equal]
pub struct FetchResultView {
    pub at: u64,
    pub result: Result<(), Seq<char>>,
}

impl DeepView for FetchResult {
    type V = FetchResultView;

    open spec fn deep_view(&self) -> FetchResultView {
        FetchResultView { at: self.at, result: result_view(self.result) }
    }
}

/// Files of one PR; `None` while they are loading.
pub type PrFilesState = Option<Result<Vec<FileStat>, String>>;

/// A [`PrFilesState`] as mathematical values.
pub open spec fn pr_files_state_view(state: PrFilesState) -> Option<
    Result<Seq<FileStatView>, Seq<char>>,
> {
    match state {
        Some(result) => Some(result_view(result)),
        None => None,
    }
}

#[derive(Debug)]
pub struct Project {
    pub path: String,
    pub github: Option<String>,
    pub default_branch: Option<String>,
    /// Tasks for this project's git work, which run one at a time.
    pub lane: Lane,
    /// Refreshed at least once.
    pub loaded: bool,
    /// A refresh is queued or running on the lane.
    pub refreshing: bool,
    /// What the lane is doing right now.
    pub activity: Option<&'static str>,
    /// Bumped on every PR reload; late PR results of older reloads are ignored.
    pub pr_generation: u64,
    pub prs_loading: bool,
    pub last_fetch: Option<FetchResult>,
    pub worktrees: Option<Result<Vec<WorktreeInfo>, String>>,
    /// Worktrees marked with space, by path so marks survive reloads.
    pub marked: Marks,
    pub prs: Option<Result<Vec<PullRequest>, String>>,
    pub pr_files: HashMap<u64, PrFilesState>,
    /// Selected row of the worktree table.
    pub worktree_table: Option<usize>,
    /// Selected row of the PR table.
    pub pr_table: Option<usize>,
}

/// A [`Project`] as mathematical values.
#[verifier::ext_equal]
pub struct ProjectView {
    pub path: Seq<char>,
    pub github: Option<Seq<char>>,
    pub default_branch: Option<Seq<char>>,
    pub lane: Seq<TaskView>,
    pub loaded: bool,
    pub refreshing: bool,
    pub activity: Option<Seq<char>>,
    pub pr_generation: u64,
    pub prs_loading: bool,
    pub last_fetch: Option<FetchResultView>,
    pub worktrees: Option<Result<Seq<WorktreeInfoView>, Seq<char>>>,
    pub marked: Set<Seq<Seq<char>>>,
    pub prs: Option<Result<Seq<PullRequestView>, Seq<char>>>,
    pub pr_files: Map<u64, Option<Result<Seq<FileStatView>, Seq<char>>>>,
    pub worktree_table: Option<usize>,
    pub pr_table: Option<usize>,
}

/// An optional result as mathematical values.
pub open spec fn optional_result_view<T: DeepView>(result: Option<Result<T, String>>) -> Option<
    Result<T::V, Seq<char>>,
> {
    match result {
        Some(result) => Some(result_view(result)),
        None => None,
    }
}

impl DeepView for Project {
    type V = ProjectView;

    open spec fn deep_view(&self) -> ProjectView {
        ProjectView {
            path: self.path@,
            github: self.github.deep_view(),
            default_branch: self.default_branch.deep_view(),
            lane: self.lane.deep_view(),
            loaded: self.loaded,
            refreshing: self.refreshing,
            activity: self.activity.deep_view(),
            pr_generation: self.pr_generation,
            prs_loading: self.prs_loading,
            last_fetch: self.last_fetch.deep_view(),
            worktrees: optional_result_view(self.worktrees),
            marked: self.marked.deep_view(),
            prs: optional_result_view(self.prs),
            pr_files: self.pr_files@.map_values(|state: PrFilesState| pr_files_state_view(state)),
            worktree_table: self.worktree_table,
            pr_table: self.pr_table,
        }
    }
}

// ---------------------------------------------------------------------------------------------
// The screen
// ---------------------------------------------------------------------------------------------

/// An area of the screen, in cells.
#[derive(Debug, Clone, Copy, PartialEq, Eq, Structural)]
pub struct Rect {
    pub x: u16,
    pub y: u16,
    pub width: u16,
    pub height: u16,
}

/// Rows of a rendered list or table: where they are and which item the top row shows.
#[derive(Debug, Clone, Copy, PartialEq, Eq, Structural)]
pub struct Rows {
    pub area: Rect,
    pub offset: usize,
    pub row_height: u16,
}

/// Clickable areas of the last drawn frame.
#[derive(Debug)]
pub struct Hits {
    pub projects: Option<Rows>,
    pub tabs: Vec<(Rect, Tab)>,
    pub list: Option<Rows>,
    /// The mark column of the worktree table (click toggles a mark).
    pub marks: Option<Rect>,
    /// The PR column of the worktree table (click jumps to the PR).
    pub pr: Option<Rect>,
    pub detail: Option<Rows>,
    pub buttons: Vec<(Rect, Button)>,
}

/// [`Hits`] as mathematical values.
#[verifier::ext_equal]
pub struct HitsView {
    pub projects: Option<Rows>,
    pub tabs: Seq<(Rect, Tab)>,
    pub list: Option<Rows>,
    pub marks: Option<Rect>,
    pub pr: Option<Rect>,
    pub detail: Option<Rows>,
    pub buttons: Seq<(Rect, Button)>,
}

impl DeepView for Hits {
    type V = HitsView;

    open spec fn deep_view(&self) -> HitsView {
        HitsView {
            projects: self.projects,
            tabs: self.tabs@,
            list: self.list,
            marks: self.marks,
            pr: self.pr,
            detail: self.detail,
            buttons: self.buttons@,
        }
    }
}

// ---------------------------------------------------------------------------------------------
// The application
// ---------------------------------------------------------------------------------------------

/// Work that the surroundings do for the application.
#[derive(Debug)]
pub enum Request {
    /// Write the project list.
    SaveConfig(Config),
    /// Load the open PRs of a project.
    LoadPrs { project: String, generation: u64 },
    /// Load the per-file changes of one PR.
    LoadPrFiles { project: String, generation: u64, repo: String, number: u64 },
    /// Look at the path that was typed, then call `add_project`.
    AddProject(PathInput),
}

/// A [`Request`] as mathematical values.
#[verifier::ext_equal]
pub enum RequestView {
    SaveConfig(Seq<Seq<char>>),
    LoadPrs { project: Seq<char>, generation: u64 },
    LoadPrFiles { project: Seq<char>, generation: u64, repo: Seq<char>, number: u64 },
    AddProject(PathInputView),
}

impl DeepView for Request {
    type V = RequestView;

    open spec fn deep_view(&self) -> RequestView {
        match self {
            Request::SaveConfig(config) => RequestView::SaveConfig(config.deep_view()),
            Request::LoadPrs { project, generation } => RequestView::LoadPrs {
                project: project@,
                generation: *generation,
            },
            Request::LoadPrFiles { project, generation, repo, number } => {
                RequestView::LoadPrFiles {
                    project: project@,
                    generation: *generation,
                    repo: repo@,
                    number: *number,
                }
            },
            Request::AddProject(input) => RequestView::AddProject(input.deep_view()),
        }
    }
}

#[derive(Debug)]
pub struct App {
    pub projects: Vec<Project>,
    /// Selected row of the project list.
    pub project_list: Option<usize>,
    pub focus: Focus,
    pub tab: Tab,
    pub mode: Mode,
    /// Selected row of the detail pane.
    pub detail_table: Option<usize>,
    pub home: Option<String>,
    pub should_quit: bool,
    /// Every delete/sync job of this session, oldest first.
    pub jobs: Vec<JobEntry>,
    /// The queue panel is visible (`Q`).
    pub show_queue: bool,
    /// Screen areas of the last draw, for mouse hit-testing.
    pub hits: Hits,
    pub next_job: u64,
    /// A message and when it was set.
    pub status: Option<(String, u64)>,
    /// When the session started, in milliseconds.
    pub started: u64,
    /// The current time, in milliseconds.
    pub now: u64,
    /// Work that has not been handed out yet, oldest first.
    pub requests: Vec<Request>,
}

/// An [`App`] as mathematical values.
#[verifier::ext_equal]
pub struct AppView {
    pub projects: Seq<ProjectView>,
    pub project_list: Option<usize>,
    pub focus: Focus,
    pub tab: Tab,
    pub mode: ModeView,
    pub detail_table: Option<usize>,
    pub home: Option<Seq<char>>,
    pub should_quit: bool,
    pub jobs: Seq<JobEntryView>,
    pub show_queue: bool,
    pub hits: HitsView,
    pub next_job: u64,
    pub status: Option<(Seq<char>, u64)>,
    pub started: u64,
    pub now: u64,
    pub requests: Seq<RequestView>,
}

impl DeepView for App {
    type V = AppView;

    open spec fn deep_view(&self) -> AppView {
        AppView {
            projects: self.projects.deep_view(),
            project_list: self.project_list,
            focus: self.focus,
            tab: self.tab,
            mode: self.mode.deep_view(),
            detail_table: self.detail_table,
            home: self.home.deep_view(),
            should_quit: self.should_quit,
            jobs: self.jobs.deep_view(),
            show_queue: self.show_queue,
            hits: self.hits.deep_view(),
            next_job: self.next_job,
            status: self.status.deep_view(),
            started: self.started,
            now: self.now,
            requests: self.requests.deep_view(),
        }
    }
}

// ---------------------------------------------------------------------------------------------
// Reading the model
// ---------------------------------------------------------------------------------------------

impl ProjectView {
    /// The loaded worktrees; none while they are loading or could not be read.
    pub open spec fn worktree_list(self) -> Seq<WorktreeInfoView> {
        match self.worktrees {
            Some(Ok(list)) => list,
            _ => Seq::empty(),
        }
    }

    /// The loaded pull requests; none while they are loading or could not be read.
    pub open spec fn pr_list(self) -> Seq<PullRequestView> {
        match self.prs {
            Some(Ok(list)) => list,
            _ => Seq::empty(),
        }
    }

    pub open spec fn selected_worktree(self) -> Option<WorktreeInfoView> {
        match self.worktree_table {
            Some(i) => if i < self.worktree_list().len() {
                Some(self.worktree_list()[i as int])
            } else {
                None
            },
            None => None,
        }
    }

    pub open spec fn selected_pr(self) -> Option<PullRequestView> {
        match self.pr_table {
            Some(i) => if i < self.pr_list().len() {
                Some(self.pr_list()[i as int])
            } else {
                None
            },
            None => None,
        }
    }

    pub open spec fn default_branch_name(self) -> Seq<char> {
        match self.default_branch {
            Some(branch) => branch,
            None => "main"@,
        }
    }

    pub open spec fn base(self) -> Seq<char> {
        "origin/"@ + self.default_branch_name()
    }

    /// Something is being loaded or changed.
    pub open spec fn is_loading(self) -> bool {
        self.refreshing || self.activity is Some || self.prs_loading
    }

    /// The selections point at rows, and only listed worktrees are marked.
    pub open spec fn wf(self) -> bool {
        &&& selects(self.worktree_table, self.worktree_list().len())
        &&& selects(self.pr_table, self.pr_list().len())
        &&& self.worktrees matches Some(Ok(list)) ==> self.marked.subset_of(
            listed_keys(list).to_set(),
        )
    }
}

/// A selection within a list of `len` rows: some row is selected unless there is none.
pub open spec fn selects(selection: Option<usize>, len: nat) -> bool {
    match selection {
        Some(i) => i < len,
        None => len == 0,
    }
}

/// Which rows a click can hit can be computed: rows have a height, and no index overflows.
pub open spec fn rows_wf(rows: Option<Rows>) -> bool {
    rows matches Some(rows) ==> rows.row_height > 0 && rows.offset + u16::MAX <= usize::MAX
}

impl HitsView {
    pub open spec fn wf(self) -> bool {
        &&& rows_wf(self.projects)
        &&& rows_wf(self.list)
        &&& rows_wf(self.detail)
    }
}

/// How many entries an action adds to the queue.
pub open spec fn action_growth(action: ActionView) -> nat {
    match action {
        ActionView::Queue { planned, skipped, .. } => planned.len() + skipped.len(),
        ActionView::Sync(_) => 1,
        _ => 0,
    }
}

/// How many entries the open dialog can add to the queue.
pub open spec fn queue_growth(mode: ModeView) -> nat {
    match mode {
        ModeView::Confirm(confirm) => action_growth(confirm.action),
        _ => 0,
    }
}

impl AppView {
    pub open spec fn selected_project(self) -> Option<ProjectView> {
        match self.project_list {
            Some(i) => if i < self.projects.len() {
                Some(self.projects[i as int])
            } else {
                None
            },
            None => None,
        }
    }

    /// Files shown in the detail pane for the current selection, when available.
    pub open spec fn detail_files(self) -> Option<Seq<FileStatView>> {
        match self.selected_project() {
            None => None,
            Some(project) => match self.tab {
                Tab::Worktrees => match project.selected_worktree() {
                    Some(info) => match info.stats {
                        Ok(stats) => Some(stats.files),
                        Err(_) => None,
                    },
                    None => None,
                },
                Tab::Prs => match project.selected_pr() {
                    Some(pr) => if project.pr_files.contains_key(pr.number) {
                        match project.pr_files[pr.number] {
                            Some(Ok(files)) => Some(files),
                            _ => None,
                        }
                    } else {
                        None
                    },
                    None => None,
                },
            },
        }
    }

    pub open spec fn detail_len(self) -> nat {
        match self.detail_files() {
            Some(files) => files.len(),
            None => 0,
        }
    }

    /// Selections point at rows, job ids count up from one, and clicks can be located.
    pub open spec fn wf(self) -> bool {
        &&& selects(self.project_list, self.projects.len())
        &&& forall|i: int| 0 <= i < self.projects.len() ==> (#[trigger] self.projects[i]).wf()
        &&& self.next_job == self.jobs.len() + 1
        &&& forall|i: int| 0 <= i < self.jobs.len() ==> (#[trigger] self.jobs[i]).id == i + 1
        &&& self.hits.wf()
    }

    /// Every project can load its pull requests once more: no generation has run out.
    pub open spec fn can_refresh(self) -> bool {
        forall|i: int|
            0 <= i < self.projects.len() ==> (#[trigger] self.projects[i]).pr_generation < u64::MAX
    }

    /// The counters can go on: neither job ids nor generations have run out.
    pub open spec fn room(self) -> bool {
        self.can_refresh() && self.next_job + queue_growth(self.mode) <= u64::MAX
    }
}

} // verus!
