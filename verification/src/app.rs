//! Application state and input handling. Submodules: `state` (the model), `project` (one
//! project), `actions` (planning delete/sync), `queue` (background jobs), `mouse` (hit-testing).

use vstd::prelude::*;

use crate::model::FileStat;
use crate::paths::components;
use crate::worker::{Task, TaskView};

pub mod actions;
pub mod cleanup;
pub mod delete_laws;
pub mod handover;
pub mod input;
pub mod key_laws;
pub mod laws;
pub mod marks;
pub mod mouse;
pub mod mouse_laws;
pub mod plan;
pub mod project;
pub mod project_laws;
pub mod projects;
pub mod queue;
pub mod queue_laws;
pub mod state;
pub mod sync_laws;

use self::marks::listed_keys;
use self::project::{stepped, stepped_to};
use self::state::{selects, App, AppView, Focus, Project, ProjectView, Request, RequestView, Tab};

verus! {

broadcast use vstd::std_specs::hash::group_hash_axioms;

// ---------------------------------------------------------------------------------------------
// Status line and requests
// ---------------------------------------------------------------------------------------------

/// The application with a message in its status line.
pub open spec fn said(app: AppView, message: Seq<char>) -> AppView {
    AppView { status: Some((message, app.now)), ..app }
}

/// The application with project `i` replaced.
pub open spec fn with_project(app: AppView, i: int, project: ProjectView) -> AppView {
    AppView { projects: app.projects.update(i, project), ..app }
}

/// The application with one more request.
pub open spec fn asked(app: AppView, request: RequestView) -> AppView {
    AppView { requests: app.requests.push(request), ..app }
}

/// Index of the first project with this path.
pub open spec fn project_at(projects: Seq<ProjectView>, path: Seq<char>) -> Option<int>
    decreases projects.len(),
{
    if projects.len() == 0 {
        None
    } else if components(projects[0].path) == components(path) {
        Some(0int)
    } else {
        match project_at(projects.drop_first(), path) {
            Some(i) => Some(i + 1),
            None => None,
        }
    }
}

/// Milliseconds that a message stays in the status line.
pub const STATUS_TTL: u64 = 8000;

/// The message to show: the last one, until its time is over.
pub open spec fn shown_status(app: AppView) -> Option<Seq<char>> {
    match app.status {
        Some((message, at)) => if app.now - at < STATUS_TTL {
            Some(message)
        } else {
            None
        },
        None => None,
    }
}

/// The frames of the spinner, ten per second.
pub open spec fn spinner_frames() -> Seq<Seq<char>> {
    seq!["⠋"@, "⠙"@, "⠹"@, "⠸"@, "⠼"@, "⠴"@, "⠦"@, "⠧"@, "⠇"@, "⠏"@]
}

/// How long the session has lasted, in milliseconds.
pub open spec fn elapsed(app: AppView) -> int {
    if app.now < app.started {
        0
    } else {
        app.now - app.started
    }
}

/// The frame of the spinner to show.
pub open spec fn spinner_frame(app: AppView) -> Seq<char> {
    spinner_frames()[elapsed(app) / 100 % 10]
}

// ---------------------------------------------------------------------------------------------
// Loading
// ---------------------------------------------------------------------------------------------

/// The files of PR `number` of the selected project are asked for, unless they are loading or
/// loaded already or the project is not on GitHub.
pub open spec fn files_requested(app: AppView, number: u64) -> AppView {
    match app.selected_project() {
        None => app,
        Some(project) => {
            let known = project.pr_files.contains_key(number) && !(
            project.pr_files[number] matches Some(Err(_)));
            if known {
                app
            } else {
                match project.github {
                    None => app,
                    Some(repo) => asked(
                        with_project(
                            app,
                            app.project_list->Some_0 as int,
                            ProjectView {
                                pr_files: project.pr_files.insert(number, None),
                                ..project
                            },
                        ),
                        RequestView::LoadPrFiles {
                            project: project.path,
                            generation: project.pr_generation,
                            repo,
                            number,
                        },
                    ),
                }
            }
        },
    }
}

/// A project whose refresh has been put on its lane.
pub open spec fn refresh_queued(project: ProjectView) -> ProjectView {
    ProjectView {
        loaded: true,
        refreshing: true,
        lane: project.lane.push(TaskView::Refresh),
        ..project
    }
}

/// A project that starts to load its pull requests again.
pub open spec fn prs_requested(project: ProjectView) -> ProjectView {
    ProjectView {
        pr_generation: (project.pr_generation + 1) as u64,
        prs_loading: true,
        pr_files: Map::empty(),
        ..project
    }
}

/// Project `i` is refreshed: a fetch and reload goes on its lane (after any running jobs), and
/// its pull requests are loaded again. A project that is being refreshed is left alone.
pub open spec fn refreshed(app: AppView, i: int) -> AppView {
    if !(0 <= i < app.projects.len()) {
        app
    } else {
        let project = app.projects[i];
        if project.refreshing {
            said(app, "Already refreshing, please wait."@)
        } else {
            let queued = refresh_queued(project);
            let next = if project.prs_loading {
                with_project(app, i, queued)
            } else {
                asked(
                    with_project(app, i, prs_requested(queued)),
                    RequestView::LoadPrs {
                        project: project.path,
                        generation: (project.pr_generation + 1) as u64,
                    },
                )
            };
            let shows_pr = app.project_list == Some(i as usize) && app.focus == Focus::Detail
                && app.tab == Tab::Prs;
            match project.selected_pr() {
                Some(pr) => if shows_pr {
                    files_requested(next, pr.number)
                } else {
                    next
                },
                None => next,
            }
        }
    }
}

/// The selected project is refreshed.
pub open spec fn selected_refreshed(app: AppView) -> AppView {
    match app.project_list {
        Some(i) => refreshed(app, i as int),
        None => app,
    }
}

/// The selected project is loaded if it never was.
pub open spec fn selected_loaded(app: AppView) -> AppView {
    match app.selected_project() {
        Some(project) => if project.loaded {
            app
        } else {
            selected_refreshed(app)
        },
        None => app,
    }
}

/// Another project is selected, and loaded if it never was.
pub open spec fn project_selected(app: AppView, index: Option<usize>) -> AppView {
    if index == app.project_list {
        app
    } else {
        selected_loaded(AppView { project_list: index, ..app })
    }
}

// ---------------------------------------------------------------------------------------------
// Moving around
// ---------------------------------------------------------------------------------------------

/// Another tab is shown; a detail pane closes.
pub open spec fn tab_set(app: AppView, tab: Tab) -> AppView {
    AppView {
        tab,
        focus: if app.focus == Focus::Detail {
            Focus::List
        } else {
            app.focus
        },
        ..app
    }
}

/// The selection of one pane moves by `delta` rows.
pub open spec fn moved(app: AppView, pane: Focus, delta: int) -> AppView {
    match pane {
        Focus::Projects => project_selected(
            app,
            stepped_to(app.project_list, app.projects.len(), delta),
        ),
        Focus::List => match app.selected_project() {
            None => app,
            Some(project) => with_project(
                app,
                app.project_list->Some_0 as int,
                match app.tab {
                    Tab::Worktrees => ProjectView {
                        worktree_table: stepped_to(
                            project.worktree_table,
                            project.worktree_list().len(),
                            delta,
                        ),
                        ..project
                    },
                    Tab::Prs => ProjectView {
                        pr_table: stepped_to(project.pr_table, project.pr_list().len(), delta),
                        ..project
                    },
                },
            ),
        },
        Focus::Detail => AppView {
            detail_table: stepped_to(app.detail_table, app.detail_len(), delta),
            ..app
        },
    }
}

/// The detail pane opens on its first row.
pub open spec fn detail_opened(app: AppView) -> AppView {
    AppView { detail_table: Some(0usize), focus: Focus::Detail, ..app }
}

/// From the projects to the list of the selected one, and from a row of the list to its detail.
pub open spec fn opened(app: AppView) -> AppView {
    match app.selected_project() {
        None => app,
        Some(project) => match app.focus {
            Focus::Projects => AppView { focus: Focus::List, ..app },
            Focus::List => match app.tab {
                Tab::Worktrees => if project.selected_worktree() is None {
                    app
                } else {
                    detail_opened(app)
                },
                Tab::Prs => match project.selected_pr() {
                    Some(pr) => detail_opened(files_requested(app, pr.number)),
                    None => app,
                },
            },
            Focus::Detail => app,
        },
    }
}

/// From the detail to the list, and from the list to the projects.
pub open spec fn went_back(app: AppView) -> AppView {
    AppView {
        focus: if app.focus == Focus::Detail {
            Focus::List
        } else {
            Focus::Projects
        },
        ..app
    }
}

// ---------------------------------------------------------------------------------------------
// Marks
// ---------------------------------------------------------------------------------------------

/// A worktree is marked, or unmarked if it was marked.
pub open spec fn with_mark_toggled(project: ProjectView, key: Seq<Seq<char>>) -> ProjectView {
    ProjectView {
        marked: if project.marked.contains(key) {
            project.marked.remove(key)
        } else {
            project.marked.insert(key)
        },
        ..project
    }
}

/// Worktree row `index` of the selected project is marked or unmarked.
pub open spec fn mark_toggled(app: AppView, index: int) -> AppView {
    match app.selected_project() {
        None => app,
        Some(project) => if 0 <= index < project.worktree_list().len() {
            with_project(
                app,
                app.project_list->Some_0 as int,
                with_mark_toggled(
                    project,
                    components(project.worktree_list()[index].worktree.path),
                ),
            )
        } else {
            app
        },
    }
}

/// The selected worktree is marked or unmarked.
pub open spec fn selected_mark_toggled(app: AppView) -> AppView {
    if app.tab != Tab::Worktrees || app.focus == Focus::Projects {
        said(app, "Marks are for worktree rows (l to open the list)."@)
    } else {
        match app.selected_project() {
            Some(project) => match project.worktree_table {
                Some(index) => mark_toggled(app, index as int),
                None => app,
            },
            None => app,
        }
    }
}

impl App {
    /// Sets the clock.
    pub fn set_time(&mut self, now: u64)
        ensures
            final(self).deep_view() == (AppView { now, ..old(self).deep_view() }),
    {
        self.now = now;
    }

    /// The frame of the spinner to show.
    pub fn spinner(&self) -> (frame: &'static str)
        ensures
            frame@ == spinner_frame(self.deep_view()),
    {
        let elapsed = if self.now < self.started {
            0
        } else {
            self.now - self.started
        };
        let frame = elapsed / 100 % 10;
        if frame == 0 {
            "⠋"
        } else if frame == 1 {
            "⠙"
        } else if frame == 2 {
            "⠹"
        } else if frame == 3 {
            "⠸"
        } else if frame == 4 {
            "⠼"
        } else if frame == 5 {
            "⠴"
        } else if frame == 6 {
            "⠦"
        } else if frame == 7 {
            "⠧"
        } else if frame == 8 {
            "⠇"
        } else {
            "⠏"
        }
    }

    /// The message to show in the status line.
    pub fn status(&self) -> (message: Option<&str>)
        ensures
            message.deep_view() == shown_status(self.deep_view()),
    {
        match &self.status {
            Some((message, at)) => {
                let at = *at;
                let age = if self.now < at {
                    0
                } else {
                    self.now - at
                };
                if age < STATUS_TTL {
                    Some(message.as_str())
                } else {
                    None
                }
            },
            None => None,
        }
    }

    pub fn selected_project(&self) -> (project: Option<&Project>)
        ensures
            project.deep_view() == self.deep_view().selected_project(),
    {
        match self.project_list {
            Some(i) => if i < self.projects.len() {
                Some(&self.projects[i])
            } else {
                None
            },
            None => None,
        }
    }

    /// Files shown in the detail pane for the current selection, when available.
    pub fn detail_files(&self) -> (files: Option<&[FileStat]>)
        ensures
            files.deep_view() == self.deep_view().detail_files(),
    {
        let project = match self.selected_project() {
            Some(project) => project,
            None => {
                return None;
            },
        };
        match self.tab {
            Tab::Worktrees => match project.selected_worktree() {
                Some(info) => match &info.stats {
                    Ok(stats) => Some(stats.files.as_slice()),
                    Err(_) => None,
                },
                None => None,
            },
            Tab::Prs => match project.selected_pr() {
                Some(pr) => match project.pr_files.get(&pr.number) {
                    Some(Some(Ok(files))) => Some(files.as_slice()),
                    _ => None,
                },
                None => None,
            },
        }
    }

    pub(crate) fn detail_len(&self) -> (len: usize)
        ensures
            len == self.deep_view().detail_len(),
    {
        match self.detail_files() {
            Some(files) => {
                proof {
                    assert(files.deep_view().len() == files@.len());
                }
                files.len()
            },
            None => 0,
        }
    }

    pub(crate) fn set_status(&mut self, message: String)
        ensures
            final(self).deep_view() == said(old(self).deep_view(), message@),
    {
        self.status = Some((message, self.now));
        proof {
            assert(self.deep_view() =~= said(old(self).deep_view(), message@));
        }
    }

    pub(crate) fn request_pr_files(&mut self, number: u64)
        requires
            old(self).deep_view().wf(),
        ensures
            final(self).deep_view() == files_requested(old(self).deep_view(), number),
            final(self).deep_view().wf(),
    {
        let ghost before = self.deep_view();
        let i = match self.project_list {
            Some(i) => i,
            None => {
                return ;
            },
        };
        let project = &self.projects[i];
        let known = match project.pr_files.get(&number) {
            Some(None) => true,
            Some(Some(Ok(_))) => true,
            _ => false,
        };
        if known {
            return ;
        }
        let repo = match &project.github {
            Some(repo) => repo.clone(),
            None => {
                return ;
            },
        };
        let request = Request::LoadPrFiles {
            project: project.path.clone(),
            generation: project.pr_generation,
            repo,
            number,
        };
        self.projects[i].pr_files.insert(number, None);
        self.requests.push(request);
        proof {
            let after = files_requested(before, number);
            assert(self.projects@[i as int].deep_view().pr_files =~= after.projects[i as int].pr_files);
            assert(self.deep_view().projects =~= after.projects);
            assert(self.deep_view().requests =~= after.requests);
            assert(self.deep_view() =~= after);
        }
    }

    pub(crate) fn load_selected_if_new(&mut self)
        requires
            old(self).deep_view().wf(),
            old(self).deep_view().can_refresh(),
        ensures
            final(self).deep_view() == selected_loaded(old(self).deep_view()),
            final(self).deep_view().wf(),
    {
        let new = match self.selected_project() {
            Some(project) => !project.loaded,
            None => false,
        };
        if new {
            self.refresh_selected();
        }
    }

    pub(crate) fn refresh_selected(&mut self)
        requires
            old(self).deep_view().wf(),
            old(self).deep_view().can_refresh(),
        ensures
            final(self).deep_view() == selected_refreshed(old(self).deep_view()),
            final(self).deep_view().wf(),
    {
        if let Some(index) = self.project_list {
            self.refresh(index);
        }
    }

    /// Queues a fetch + reload on the project's lane (after any running jobs) and reloads PRs.
    pub fn refresh(&mut self, index: usize)
        requires
            old(self).deep_view().wf(),
            old(self).deep_view().can_refresh(),
        ensures
            final(self).deep_view() == refreshed(old(self).deep_view(), index as int),
            final(self).deep_view().wf(),
    {
        let ghost before = self.deep_view();
        if index >= self.projects.len() {
            return ;
        }
        if self.projects[index].refreshing {
            self.set_status("Already refreshing, please wait.".to_owned());
            return ;
        }
        let ghost project = before.projects[index as int];
        self.projects[index].loaded = true;
        self.projects[index].refreshing = true;
        self.projects[index].lane.send(Task::Refresh);
        proof {
            assert(self.projects@[index as int].deep_view() =~= refresh_queued(project));
            assert(self.deep_view().projects =~= before.projects.update(
                index as int,
                refresh_queued(project),
            ));
        }
        if !self.projects[index].prs_loading {
            proof {
                assert(before.projects[index as int].pr_generation < u64::MAX);
            }
            let generation = self.projects[index].pr_generation + 1;
            self.projects[index].pr_generation = generation;
            self.projects[index].prs_loading = true;
            self.projects[index].pr_files.clear();
            let path = self.projects[index].path.clone();
            self.requests.push(Request::LoadPrs { project: path, generation });
            proof {
                let next = prs_requested(refresh_queued(project));
                assert(self.projects@[index as int].deep_view().pr_files =~= next.pr_files);
                assert(self.projects@[index as int].deep_view() =~= next);
                assert(self.deep_view().projects =~= before.projects.update(index as int, next));
                assert(self.deep_view().requests =~= before.requests.push(
                    RequestView::LoadPrs { project: project.path, generation },
                ));
            }
        }
        let shows_pr = self.project_list == Some(index) && self.focus == Focus::Detail && self.tab
            == Tab::Prs;
        let number = match self.projects[index].selected_pr() {
            Some(pr) => Some(pr.number),
            None => None,
        };
        proof {
            assert(self.deep_view().wf());
        }
        if shows_pr {
            if let Some(number) = number {
                self.request_pr_files(number);
            }
        }
    }

    pub(crate) fn select_project(&mut self, index: Option<usize>)
        requires
            old(self).deep_view().wf(),
            old(self).deep_view().can_refresh(),
            selects(index, old(self).deep_view().projects.len()),
        ensures
            final(self).deep_view() == project_selected(old(self).deep_view(), index),
            final(self).deep_view().wf(),
    {
        if index != self.project_list {
            self.project_list = index;
            self.load_selected_if_new();
        }
    }

    pub(crate) fn set_tab(&mut self, tab: Tab)
        ensures
            final(self).deep_view() == tab_set(old(self).deep_view(), tab),
    {
        self.tab = tab;
        if self.focus == Focus::Detail {
            self.focus = Focus::List;
        }
    }

    /// Marks or unmarks worktree row `index` of the selected project.
    pub(crate) fn toggle_mark(&mut self, index: usize)
        requires
            old(self).deep_view().wf(),
        ensures
            final(self).deep_view() == mark_toggled(old(self).deep_view(), index as int),
            final(self).deep_view().wf(),
    {
        let ghost before = self.deep_view();
        let i = match self.project_list {
            Some(i) => i,
            None => {
                return ;
            },
        };
        let path = {
            let list = self.projects[i].worktree_list();
            if index >= list.len() {
                return ;
            }
            proof {
                let rows = before.projects[i as int].worktree_list();
                assert(list.deep_view()[index as int] == list@[index as int].deep_view());
                assert(listed_keys(rows)[index as int] == components(
                    rows[index as int].worktree.path,
                ));
                assert(listed_keys(rows).contains(components(rows[index as int].worktree.path)));
            }
            list[index].worktree.path.clone()
        };
        if self.projects[i].marked.contains(&path) {
            self.projects[i].marked.remove(&path);
        } else {
            self.projects[i].marked.insert(&path);
        }
        proof {
            let after = mark_toggled(before, index as int);
            assert(self.projects@[i as int].deep_view() =~= after.projects[i as int]);
            assert(self.deep_view().projects =~= after.projects);
            assert(self.deep_view() =~= after);
        }
    }

    pub(crate) fn toggle_mark_selected(&mut self)
        requires
            old(self).deep_view().wf(),
        ensures
            final(self).deep_view() == selected_mark_toggled(old(self).deep_view()),
            final(self).deep_view().wf(),
    {
        if self.tab != Tab::Worktrees || self.focus == Focus::Projects {
            self.set_status("Marks are for worktree rows (l to open the list).".to_owned());
            return ;
        }
        let row = match self.selected_project() {
            Some(project) => project.worktree_table,
            None => None,
        };
        if let Some(index) = row {
            self.toggle_mark(index);
        }
    }

    /// Moves the selection of one pane by `delta` rows.
    pub(crate) fn move_in(&mut self, pane: Focus, delta: isize)
        requires
            old(self).deep_view().wf(),
            old(self).deep_view().can_refresh(),
        ensures
            final(self).deep_view() == moved(old(self).deep_view(), pane, delta as int),
            final(self).deep_view().wf(),
    {
        let ghost before = self.deep_view();
        match pane {
            Focus::Projects => {
                let next = stepped(self.project_list, self.projects.len(), delta);
                self.select_project(next);
            },
            Focus::List => {
                let i = match self.project_list {
                    Some(i) => i,
                    None => {
                        return ;
                    },
                };
                match self.tab {
                    Tab::Worktrees => {
                        let len = self.projects[i].worktree_list().len();
                        let current = self.projects[i].worktree_table;
                        self.projects[i].worktree_table = stepped(current, len, delta);
                    },
                    Tab::Prs => {
                        let len = self.projects[i].pr_list().len();
                        let current = self.projects[i].pr_table;
                        self.projects[i].pr_table = stepped(current, len, delta);
                    },
                }
                proof {
                    let after = moved(before, pane, delta as int);
                    assert(self.projects@[i as int].deep_view() =~= after.projects[i as int]);
                    assert(self.deep_view().projects =~= after.projects);
                    assert(self.deep_view() =~= after);
                }
            },
            Focus::Detail => {
                let len = self.detail_len();
                self.detail_table = stepped(self.detail_table, len, delta);
            },
        }
    }

    pub(crate) fn open(&mut self)
        requires
            old(self).deep_view().wf(),
        ensures
            final(self).deep_view() == opened(old(self).deep_view()),
            final(self).deep_view().wf(),
    {
        match self.focus {
            Focus::Projects => {
                if self.selected_project().is_some() {
                    self.focus = Focus::List;
                }
            },
            Focus::List => {
                let (worktree, pr) = match self.selected_project() {
                    Some(project) => (
                        project.selected_worktree().is_some(),
                        match project.selected_pr() {
                            Some(pr) => Some(pr.number),
                            None => None,
                        },
                    ),
                    None => {
                        return ;
                    },
                };
                match self.tab {
                    Tab::Worktrees => {
                        if !worktree {
                            return ;
                        }
                    },
                    Tab::Prs => match pr {
                        Some(number) => {
                            self.request_pr_files(number);
                        },
                        None => {
                            return ;
                        },
                    },
                }
                self.detail_table = Some(0);
                self.focus = Focus::Detail;
            },
            Focus::Detail => {},
        }
    }

    pub(crate) fn back(&mut self)
        ensures
            final(self).deep_view() == went_back(old(self).deep_view()),
    {
        self.focus = match self.focus {
            Focus::Detail => Focus::List,
            Focus::List => Focus::Projects,
            Focus::Projects => Focus::Projects,
        };
    }
}

} // verus!
