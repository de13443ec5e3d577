//! Adding and removing projects, and what the background work reports of them.
use vstd::prelude::*;

use super::project::{clamped, clamped_to, new_project, with_prs, with_worktrees};
use super::queue::{has_active, job_finished, job_started};
use super::state::{
    Action, ActionView, App, AppView, Confirm, ConfirmView, FetchResult, FetchResultView, Focus,
    Mode, ModeView, PathInput, PathInputView, Project, ProjectView, Request, RequestView, Tab, Tone,
};
use super::{asked, project_at, said, selected_loaded, selected_refreshed, with_project};
use crate::config::{display_path, displayed, expand_tilde, expanded, Config, ProjectEntry};
use crate::model::result_view;
use crate::paths::{is_rooted, join, joined, rooted};
use crate::text::{chars_of, string_of, trim, trimmed};
use crate::worker::{Update, UpdateKind, UpdateKindView, UpdateView};

verus! {

broadcast use vstd::std_specs::hash::group_hash_axioms;

// ---------------------------------------------------------------------------------------------
// The project list
// ---------------------------------------------------------------------------------------------

/// The paths of the projects, in order.
pub open spec fn project_paths(projects: Seq<ProjectView>) -> Seq<Seq<char>> {
    projects.map_values(|project: ProjectView| project.path)
}

/// The project list is to be written.
pub open spec fn saved(app: AppView) -> AppView {
    asked(app, RequestView::SaveConfig(project_paths(app.projects)))
}

/// The projects of a config, none of them loaded.
pub open spec fn new_projects(paths: Seq<Seq<char>>) -> Seq<ProjectView> {
    paths.map_values(|path: Seq<char>| new_project(path))
}

/// The application at the start of a session: the first project is selected and loads.
pub open spec fn launched(
    paths: Seq<Seq<char>>,
    home: Option<Seq<char>>,
    now: u64,
) -> AppView {
    selected_loaded(
        AppView {
            projects: new_projects(paths),
            project_list: if paths.len() == 0 {
                None
            } else {
                Some(0usize)
            },
            focus: Focus::Projects,
            tab: Tab::Worktrees,
            mode: ModeView::Normal,
            detail_table: None,
            home,
            should_quit: false,
            jobs: Seq::empty(),
            show_queue: false,
            hits: super::mouse::no_hits(),
            next_job: 1,
            status: None,
            started: now,
            now,
            requests: Seq::empty(),
        },
    )
}

// ---------------------------------------------------------------------------------------------
// Adding
// ---------------------------------------------------------------------------------------------

/// The path that was typed, made absolute; `None` when nothing was typed.
pub open spec fn typed_path(
    text: Seq<char>,
    home: Option<Seq<char>>,
    cwd: Option<Seq<char>>,
) -> Option<Seq<char>> {
    let raw = trim(text);
    if raw.len() == 0 {
        None
    } else {
        let path = expanded(raw, home);
        match cwd {
            Some(dir) => if rooted(path) {
                Some(path)
            } else {
                Some(join(dir, path))
            },
            None => Some(path),
        }
    }
}

/// The path that was typed, made absolute; `None` when nothing was typed.
pub fn project_path(text: &str, home: &Option<String>, cwd: &Option<String>) -> (path: Option<
    String,
>)
    ensures
        path.deep_view() == typed_path(text@, home.deep_view(), cwd.deep_view()),
{
    let chars = chars_of(text);
    let raw = trimmed(&chars);
    if raw.len() == 0 {
        return None;
    }
    let path = expand_tilde(&string_of(raw), home);
    match cwd {
        Some(dir) => if is_rooted(&path) {
            Some(path)
        } else {
            Some(joined(dir, &path))
        },
        None => Some(path),
    }
}

/// What stands at the path that was typed.
#[derive(Debug)]
pub enum Found {
    /// Nothing was typed.
    NoPath,
    NotADirectory(String),
    NotARepository(String),
    /// A repository with its root, and the GitHub repository that origin points at.
    Repository { root: String, github: Option<String> },
}

/// A [`Found`] as mathematical values.
#[verifier::ext_equal]
pub enum FoundView {
    NoPath,
    NotADirectory(Seq<char>),
    NotARepository(Seq<char>),
    Repository { root: Seq<char>, github: Option<Seq<char>> },
}

impl DeepView for Found {
    type V = FoundView;

    open spec fn deep_view(&self) -> FoundView {
        match self {
            Found::NoPath => FoundView::NoPath,
            Found::NotADirectory(path) => FoundView::NotADirectory(path@),
            Found::NotARepository(path) => FoundView::NotARepository(path@),
            Found::Repository { root, github } => FoundView::Repository {
                root: root@,
                github: github.deep_view(),
            },
        }
    }
}

/// The input dialog with an error.
pub open spec fn refused(app: AppView, input: PathInputView, error: Seq<char>) -> AppView {
    AppView {
        mode: ModeView::AddProject(PathInputView { error: Some(error), ..input }),
        ..app
    }
}

/// A repository joins the list, is selected and loads. One that is in the list already is only
/// selected.
pub open spec fn repository_added(
    app: AppView,
    root: Seq<char>,
    github: Option<Seq<char>>,
) -> AppView {
    let shown = displayed(root, app.home);
    match project_at(app.projects, root) {
        Some(i) => said(
            AppView { project_list: Some(i as usize), ..app },
            shown + " is already in the list."@,
        ),
        None => {
            let remote = match github {
                Some(repo) => "GitHub: "@ + repo,
                None => "origin is not on GitHub"@,
            };
            let project = ProjectView { github, ..new_project(root) };
            selected_refreshed(
                said(
                    saved(
                        AppView {
                            projects: app.projects.push(project),
                            project_list: Some(app.projects.len() as usize),
                            focus: Focus::Projects,
                            ..app
                        },
                    ),
                    "Added "@ + shown + " ("@ + remote + ")."@,
                ),
            )
        },
    }
}

/// The answer to a typed path: errors are shown in the input dialog.
pub open spec fn project_added(app: AppView, input: PathInputView, found: FoundView) -> AppView {
    match found {
        FoundView::NoPath => refused(app, input, "Type the path of a git repository."@),
        FoundView::NotADirectory(path) => refused(app, input, "Not a directory: "@ + path),
        FoundView::NotARepository(path) => refused(app, input, "Not a git repository: "@ + path),
        FoundView::Repository { root, github } => repository_added(app, root, github),
    }
}

// ---------------------------------------------------------------------------------------------
// Removing
// ---------------------------------------------------------------------------------------------

/// The question before a project is removed from the list.
pub open spec fn remove_dialog(path: Seq<char>, home: Option<Seq<char>>) -> ConfirmView {
    ConfirmView {
        title: " Remove project "@,
        lines: seq![
            ("Remove "@ + displayed(path, home) + " from tuitree?"@, Tone::Normal),
            ("The repository on disk is not touched."@, Tone::Muted),
        ],
        yes: "Remove"@,
        danger: false,
        action: ActionView::RemoveProject,
    }
}

/// Removing the selected project is asked for, unless it has queued or running jobs.
pub open spec fn remove_asked(app: AppView) -> AppView {
    match app.selected_project() {
        None => app,
        Some(project) => if has_active(app.jobs, project.path) {
            said(app, "This project still has queued jobs; wait for them to finish."@)
        } else {
            AppView { mode: ModeView::Confirm(remove_dialog(project.path, app.home)), ..app }
        },
    }
}

/// The selected project leaves the list; the one that takes its place is selected and loads.
pub open spec fn selected_removed(app: AppView) -> AppView {
    match app.project_list {
        None => app,
        Some(i) => {
            let left = app.projects.remove(i as int);
            selected_loaded(
                said(
                    saved(
                        AppView {
                            projects: left,
                            project_list: if left.len() == 0 {
                                None
                            } else if i < left.len() {
                                Some(i)
                            } else {
                                Some((left.len() - 1) as usize)
                            },
                            focus: Focus::Projects,
                            ..app
                        },
                    ),
                    "Removed "@ + displayed(app.projects[i as int].path, app.home)
                        + " from tuitree. Files on disk are untouched."@,
                ),
            )
        },
    }
}

// ---------------------------------------------------------------------------------------------
// Updates
// ---------------------------------------------------------------------------------------------

/// A project after a report about it; pull requests of an older reload are ignored.
pub open spec fn project_updated(
    project: ProjectView,
    now: u64,
    generation: u64,
    kind: UpdateKindView,
) -> ProjectView {
    let current = generation == project.pr_generation;
    match kind {
        UpdateKindView::RepoInfo { github, default_branch } => ProjectView {
            github,
            default_branch: Some(default_branch),
            ..project
        },
        UpdateKindView::Activity(activity) => ProjectView { activity, ..project },
        UpdateKindView::Worktrees(result) => with_worktrees(project, result),
        UpdateKindView::Fetched(result) => ProjectView {
            last_fetch: Some(FetchResultView { at: now, result }),
            ..project
        },
        UpdateKindView::RefreshDone => ProjectView { refreshing: false, ..project },
        UpdateKindView::Prs(result) => if current {
            with_prs(project, result)
        } else {
            project
        },
        UpdateKindView::PrFiles { number, files } => if current {
            ProjectView { pr_files: project.pr_files.insert(number, Some(files)), ..project }
        } else {
            project
        },
        UpdateKindView::JobStarted(_) => project,
        UpdateKindView::JobFinished { .. } => project,
    }
}

/// The application after a report about project `i`.
pub open spec fn reported(app: AppView, i: int, update: UpdateView) -> AppView {
    match update.kind {
        UpdateKindView::JobStarted(id) => job_started(app, id),
        UpdateKindView::JobFinished { id, result } => job_finished(app, id, result),
        _ => with_project(
            app,
            i,
            project_updated(app.projects[i], app.now, update.generation, update.kind),
        ),
    }
}

/// The application after an update; one about a project that was removed meanwhile changes
/// nothing. The selection in the detail pane stays within the files shown.
pub open spec fn updated(app: AppView, update: UpdateView) -> AppView {
    match project_at(app.projects, update.project) {
        None => app,
        Some(i) => {
            let next = reported(app, i, update);
            AppView {
                detail_table: clamped_to(next.detail_table, next.detail_len()),
                ..next
            }
        },
    }
}

impl App {
    /// Starts a session.
    pub fn new(config: Config, home: Option<String>, now: u64) -> (app: Self)
        ensures
            app.deep_view() == launched(config.deep_view(), home.deep_view(), now),
            app.deep_view().wf(),
    {
        let ghost paths = config.deep_view();
        let mut entries = config.projects;
        let mut projects: Vec<Project> = Vec::new();
        proof {
            assert(paths.skip(0) =~= paths);
        }
        while entries.len() > 0
            invariant
                projects@.len() + entries@.len() == paths.len(),
                entries.deep_view() == paths.skip(projects@.len() as int),
                projects.deep_view() == new_projects(paths).take(projects@.len() as int),
                forall|i: int| 0 <= i < projects@.len() ==> (#[trigger] projects@[i]).deep_view().wf(),
            decreases entries@.len(),
        {
            let ghost n = projects@.len() as int;
            let ghost rest = entries.deep_view();
            let ghost before = projects.deep_view();
            let entry = entries.remove(0);
            proof {
                assert(rest[0] == entry.path@);
                assert(entries.deep_view() =~= rest.drop_first());
                assert(rest.drop_first() =~= paths.skip(n + 1));
            }
            projects.push(Project::new(entry.path));
            proof {
                assert(projects.deep_view() =~= before.push(new_projects(paths)[n]));
                assert(projects.deep_view() =~= new_projects(paths).take(n + 1));
            }
        }
        proof {
            assert(new_projects(paths).take(paths.len() as int) =~= new_projects(paths));
        }
        let mut app = App {
            project_list: if projects.len() == 0 {
                None
            } else {
                Some(0)
            },
            projects,
            focus: Focus::Projects,
            tab: Tab::Worktrees,
            mode: Mode::Normal,
            detail_table: None,
            home,
            should_quit: false,
            jobs: Vec::new(),
            show_queue: false,
            hits: super::mouse::empty_hits(),
            next_job: 1,
            status: None,
            started: now,
            now,
            requests: Vec::new(),
        };
        proof {
            assert(app.deep_view().jobs =~= Seq::empty());
            assert(app.deep_view().requests =~= Seq::empty());
        }
        app.load_selected_if_new();
        app
    }

    fn save_config(&mut self)
        ensures
            final(self).deep_view() == saved(old(self).deep_view()),
    {
        let ghost before = self.deep_view();
        let ghost paths = project_paths(before.projects);
        let mut entries: Vec<ProjectEntry> = Vec::new();
        let mut i: usize = 0;
        while i < self.projects.len()
            invariant
                i <= self.projects@.len(),
                before == self.deep_view(),
                paths == project_paths(before.projects),
                entries.deep_view() == paths.take(i as int),
            decreases self.projects@.len() - i,
        {
            let ghost had = entries.deep_view();
            entries.push(ProjectEntry { path: self.projects[i].path.clone() });
            i = i + 1;
            proof {
                assert(entries.deep_view() =~= had.push(paths[i - 1]));
                assert(entries.deep_view() =~= paths.take(i as int));
            }
        }
        proof {
            assert(paths.take(i as int) =~= paths);
        }
        self.requests.push(Request::SaveConfig(Config { projects: entries }));
        proof {
            assert(self.deep_view().requests =~= saved(before).requests);
            assert(self.deep_view() =~= saved(before));
        }
    }

    fn refuse(&mut self, input: PathInput, error: String)
        ensures
            final(self).deep_view() == refused(old(self).deep_view(), input.deep_view(), error@),
    {
        self.mode = Mode::AddProject(PathInput { text: input.text, error: Some(error) });
    }

    /// Adds the project that was found at the path that was typed. Errors are shown in the input
    /// dialog.
    pub fn add_project(&mut self, input: PathInput, found: Found)
        requires
            old(self).deep_view().wf(),
            old(self).deep_view().can_refresh(),
            old(self).deep_view().projects.len() < usize::MAX,
        ensures
            final(self).deep_view() == project_added(
                old(self).deep_view(),
                input.deep_view(),
                found.deep_view(),
            ),
            final(self).deep_view().wf(),
    {
        match found {
            Found::NoPath => {
                self.refuse(input, "Type the path of a git repository.".to_owned());
            },
            Found::NotADirectory(path) => {
                self.refuse(input, "Not a directory: ".to_owned().concat(&path));
            },
            Found::NotARepository(path) => {
                self.refuse(input, "Not a git repository: ".to_owned().concat(&path));
            },
            Found::Repository { root, github } => {
                self.add_repository(root, github);
            },
        }
    }

    fn add_repository(&mut self, root: String, github: Option<String>)
        requires
            old(self).deep_view().wf(),
            old(self).deep_view().can_refresh(),
            old(self).deep_view().projects.len() < usize::MAX,
        ensures
            final(self).deep_view() == repository_added(
                old(self).deep_view(),
                root@,
                github.deep_view(),
            ),
            final(self).deep_view().wf(),
    {
        let ghost before = self.deep_view();
        let ghost path = root@;
        let ghost remote_repo = github.deep_view();
        let shown = display_path(&root, &self.home);
        if let Some(index) = self.project_index(&root) {
            self.project_list = Some(index);
            self.set_status(shown.concat(" is already in the list."));
            return ;
        }
        let remote = match &github {
            Some(repo) => "GitHub: ".to_owned().concat(repo),
            None => "origin is not on GitHub".to_owned(),
        };
        let mut project = Project::new(root);
        project.github = github;
        let ghost added = project.deep_view();
        self.projects.push(project);
        self.project_list = Some(self.projects.len() - 1);
        self.focus = Focus::Projects;
        proof {
            assert(added =~= ProjectView { github: remote_repo, ..new_project(path) });
            assert(self.deep_view().projects =~= before.projects.push(added));
        }
        self.save_config();
        self.set_status(
            "Added ".to_owned().concat(&shown).concat(" (").concat(&remote).concat(")."),
        );
        proof {
            assert(self.deep_view().wf());
        }
        self.refresh_selected();
    }

    pub(crate) fn ask_remove_project(&mut self)
        requires
            old(self).deep_view().wf(),
        ensures
            final(self).deep_view() == remove_asked(old(self).deep_view()),
            final(self).deep_view().wf(),
    {
        let ghost before = self.deep_view();
        let path = match self.selected_project() {
            Some(project) => project.path.clone(),
            None => {
                return ;
            },
        };
        if self.has_active_jobs(&path) {
            self.set_status(
                "This project still has queued jobs; wait for them to finish.".to_owned(),
            );
            return ;
        }
        let lines: Vec<(String, Tone)> = vec![
            (
                "Remove ".to_owned().concat(&display_path(&path, &self.home)).concat(
                    " from tuitree?",
                ),
                Tone::Normal,
            ),
            ("The repository on disk is not touched.".to_owned(), Tone::Muted),
        ];
        self.mode = Mode::Confirm(
            Confirm {
                title: " Remove project ".to_owned(),
                lines,
                yes: "Remove".to_owned(),
                danger: false,
                action: Action::RemoveProject,
            },
        );
        proof {
            assert(lines.deep_view() =~= remove_dialog(path@, before.home).lines);
            assert(self.deep_view() =~= remove_asked(before));
        }
    }

    pub(crate) fn remove_selected(&mut self)
        requires
            old(self).deep_view().wf(),
            old(self).deep_view().can_refresh(),
        ensures
            final(self).deep_view() == selected_removed(old(self).deep_view()),
            final(self).deep_view().wf(),
    {
        let ghost before = self.deep_view();
        let index = match self.project_list {
            Some(index) => index,
            None => {
                return ;
            },
        };
        let removed = self.projects.remove(index);
        let left = self.projects.len();
        self.project_list = if left == 0 {
            None
        } else if index < left {
            Some(index)
        } else {
            Some(left - 1)
        };
        self.focus = Focus::Projects;
        proof {
            assert(self.deep_view().projects =~= before.projects.remove(index as int));
        }
        self.save_config();
        let shown = display_path(&removed.path, &self.home);
        self.set_status(
            "Removed ".to_owned().concat(&shown).concat(
                " from tuitree. Files on disk are untouched.",
            ),
        );
        proof {
            assert(self.deep_view().wf());
        }
        self.load_selected_if_new();
    }

    /// Takes in a result of the background work.
    pub fn on_update(&mut self, update: Update)
        requires
            old(self).deep_view().wf(),
        ensures
            final(self).deep_view() == updated(old(self).deep_view(), update.deep_view()),
            final(self).deep_view().wf(),
    {
        let ghost before = self.deep_view();
        let ghost given = update.deep_view();
        let index = match self.project_index(&update.project) {
            Some(index) => index,
            None => {
                return ;
            },
        };
        match update.kind {
            UpdateKind::JobStarted(id) => {
                self.on_job_started(id);
            },
            UpdateKind::JobFinished { id, result } => {
                self.on_job_finished(id, result);
            },
            kind => {
                let now = self.now;
                self.projects[index].update(now, update.generation, kind);
                proof {
                    assert(self.deep_view().projects =~= reported(
                        before,
                        index as int,
                        given,
                    ).projects);
                }
            },
        }
        let len = self.detail_len();
        self.detail_table = clamped(self.detail_table, len);
    }
}

impl Project {
    /// Takes in a report about the project.
    fn update(&mut self, now: u64, generation: u64, kind: UpdateKind)
        requires
            old(self).deep_view().wf(),
        ensures
            final(self).deep_view() == project_updated(
                old(self).deep_view(),
                now,
                generation,
                kind.deep_view(),
            ),
            final(self).deep_view().wf(),
    {
        let ghost before = self.deep_view();
        match kind {
            UpdateKind::RepoInfo { github, default_branch } => {
                self.github = github;
                self.default_branch = Some(default_branch);
            },
            UpdateKind::Activity(activity) => {
                self.activity = activity;
            },
            UpdateKind::Worktrees(result) => {
                self.set_worktrees(result);
            },
            UpdateKind::Fetched(result) => {
                self.last_fetch = Some(FetchResult { at: now, result });
            },
            UpdateKind::RefreshDone => {
                self.refreshing = false;
            },
            UpdateKind::Prs(result) => {
                if generation == self.pr_generation {
                    self.set_prs(result);
                }
            },
            UpdateKind::PrFiles { number, files } => {
                if generation == self.pr_generation {
                    self.pr_files.insert(number, Some(files));
                    proof {
                        assert(self.deep_view().pr_files =~= before.pr_files.insert(
                            number,
                            Some(result_view(files)),
                        ));
                    }
                }
            },
            UpdateKind::JobStarted(_) => {},
            UpdateKind::JobFinished { .. } => {},
        }
    }
}

} // verus!
