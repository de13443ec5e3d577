//! How the list of projects changes, and what each report does to a project.
use vstd::prelude::*;

use super::actions::{delete_reported, deleted, synced};
use super::cleanup::{merged_marked, merged_paths};
use super::input::pressed;
use super::marks::{lemma_row_of_key, listed_keys};
use super::project::{new_project, with_prs, with_worktrees};
use super::projects::{
    launched, project_added, project_paths, remove_asked, selected_removed, typed_path, updated,
    FoundView,
};
use super::queue::{has_active, job_finished, job_started};
use super::queue_laws::the_first_project_with_a_path_counts;
use super::state::{
    ActionView, AppView, Button, DeleteJobView, Focus, ModeView, PathInputView, ProjectView,
    RequestView, SyncJobView, Tab, Tone,
};
use super::{
    elapsed, files_requested, project_at, refreshed, shown_status, spinner_frame, spinner_frames,
};
use crate::config::{displayed, expanded};
use crate::gh::PullRequestView;
use crate::git::change::DeleteOutcomeView;
use crate::git::WorktreeInfoView;
use crate::paths::{components, join, same_path};
use crate::text::{decimal, trim};
use crate::worker::{TaskView, UpdateKindView, UpdateView};

verus! {

// ---------------------------------------------------------------------------------------------
// What is shown
// ---------------------------------------------------------------------------------------------

/// A project shows rows only once they were loaded, and a selection is the row at its place.
pub proof fn what_a_project_shows(project: ProjectView)
    ensures
        project.worktrees is None ==> project.worktree_list().len() == 0,
        project.worktrees matches Some(Err(_)) ==> project.worktree_list().len() == 0,
        project.worktrees matches Some(Ok(list)) ==> project.worktree_list() == list,
        project.prs is None ==> project.pr_list().len() == 0,
        project.prs matches Some(Err(_)) ==> project.pr_list().len() == 0,
        project.prs matches Some(Ok(list)) ==> project.pr_list() == list,
        project.worktree_table is None ==> project.selected_worktree() is None,
        project.worktree_table matches Some(i) ==> project.selected_worktree() == if i
            < project.worktree_list().len() {
            Some(project.worktree_list()[i as int])
        } else {
            None
        },
        project.pr_table is None ==> project.selected_pr() is None,
        project.pr_table matches Some(i) ==> project.selected_pr() == if i
            < project.pr_list().len() {
            Some(project.pr_list()[i as int])
        } else {
            None
        },
        project.default_branch matches Some(branch) ==> project.base() == "origin/"@ + branch,
        project.default_branch is None ==> project.base() == "origin/"@ + "main"@,
        project.is_loading() <==> project.refreshing || project.activity is Some
            || project.prs_loading,
{
}

/// The detail pane shows the files of the selected worktree when its state could be read, and those
/// of the selected pull request once they are loaded.
pub proof fn what_the_detail_shows(app: AppView, project: ProjectView)
    requires
        app.selected_project() == Some(project),
    ensures
        app.tab == Tab::Worktrees ==> match project.selected_worktree() {
            Some(info) => info.stats is Ok ==> app.detail_files() == Some(info.stats->Ok_0.files),
            None => app.detail_files() is None,
        },
        app.tab == Tab::Worktrees && project.selected_worktree() is Some
            && project.selected_worktree()->Some_0.stats is Err ==> app.detail_files() is None,
        app.tab == Tab::Prs && project.selected_pr() is None ==> app.detail_files() is None,
        app.tab == Tab::Prs && project.selected_pr() is Some ==> {
            let number = project.selected_pr()->Some_0.number;
            match app.detail_files() {
                Some(files) => project.pr_files.contains_key(number) && project.pr_files[number]
                    == Some(Ok::<_, Seq<char>>(files)),
                None => project.pr_files.contains_key(number) ==> !(
                project.pr_files[number] matches Some(Ok(_))),
            }
        },
        app.detail_len() == match app.detail_files() {
            Some(files) => files.len(),
            None => 0,
        },
{
}

/// A message is shown for eight seconds, and then none is.
pub proof fn messages_are_shown_for_a_while(app: AppView)
    ensures
        app.status is None ==> shown_status(app) is None,
        app.status matches Some((message, at)) ==> (app.now < at + 8000 ==> shown_status(app)
            == Some(message)) && (app.now >= at + 8000 ==> shown_status(app) is None),
{
}

/// The session lasts from its start to now. The spinner has ten frames and shows each of them for a
/// tenth of a second, one after the other, and all of them again every second.
pub proof fn the_spinner_turns_with_the_clock(app: AppView, seconds: nat, frame: int, rest: nat)
    requires
        0 <= frame < 10,
        rest < 100,
    ensures
        app.now >= app.started ==> elapsed(app) + app.started == app.now,
        app.now < app.started ==> elapsed(app) == 0 && spinner_frame(app) == spinner_frames()[0],
        spinner_frames().len() == 10,
        spinner_frames() == seq!["⠋"@, "⠙"@, "⠹"@, "⠸"@, "⠼"@, "⠴"@, "⠦"@, "⠧"@, "⠇"@, "⠏"@],
        app.now == app.started + 1000 * seconds + 100 * frame + rest ==> spinner_frame(app)
            == spinner_frames()[frame],
{
    if app.now == app.started + 1000 * seconds + 100 * frame + rest {
        assert(elapsed(app) == 100 * (10 * seconds + frame) + rest);
        assert(elapsed(app) / 100 == 10 * seconds + frame);
        assert((10 * seconds + frame) % 10 == frame);
    }
}

// ---------------------------------------------------------------------------------------------
// Refreshing
// ---------------------------------------------------------------------------------------------

/// A refresh that is running is not started again: only the status line says so.
pub proof fn a_running_refresh_is_left_alone(app: AppView, i: int)
    requires
        0 <= i < app.projects.len(),
        app.projects[i].refreshing,
    ensures
        refreshed(app, i) == (AppView {
            status: Some(("Already refreshing, please wait."@, app.now)),
            ..app
        }),
{
}

/// A refresh puts one task on the lane and, unless they are loading already, asks for the pull
/// requests under a new generation and forgets the files that were loaded with the old one. It asks
/// for nothing else unless a pull request is open in the detail pane.
pub proof fn what_a_refresh_does(app: AppView, i: int)
    requires
        0 <= i < app.projects.len(),
        !app.projects[i].refreshing,
        app.projects[i].pr_generation < u64::MAX,
        app.focus != Focus::Detail || app.tab != Tab::Prs || app.project_list != Some(i as usize),
    ensures
        ({
            let after = refreshed(app, i);
            let before = app.projects[i];
            let lane = before.lane.push(TaskView::Refresh);
            &&& before.prs_loading ==> after == (AppView {
                projects: app.projects.update(
                    i,
                    ProjectView { loaded: true, refreshing: true, lane, ..before },
                ),
                ..app
            })
            &&& !before.prs_loading ==> {
                let generation = (before.pr_generation + 1) as u64;
                &&& generation > before.pr_generation
                &&& after == (AppView {
                    projects: app.projects.update(
                        i,
                        ProjectView {
                            loaded: true,
                            refreshing: true,
                            lane,
                            pr_generation: generation,
                            prs_loading: true,
                            pr_files: Map::empty(),
                            ..before
                        },
                    ),
                    requests: app.requests.push(
                        RequestView::LoadPrs { project: before.path, generation },
                    ),
                    ..app
                })
            }
        }),
{
}

/// A refresh of the selected project with a pull request open in the detail pane also asks for its
/// files, because those of the old generation are forgotten; and the same refresh in another pane does
/// everything else in the same way.
pub proof fn a_refresh_reloads_the_open_pull_request(app: AppView, i: usize)
    requires
        i < app.projects.len(),
        !app.projects[i as int].refreshing,
        app.projects[i as int].pr_generation < u64::MAX,
        app.project_list == Some(i),
        app.focus == Focus::Detail,
        app.tab == Tab::Prs,
    ensures
        ({
            let after = refreshed(app, i as int);
            let away = refreshed(AppView { focus: Focus::List, ..app }, i as int);
            match app.projects[i as int].selected_pr() {
                Some(pr) => after == files_requested(
                    AppView { focus: Focus::Detail, ..away },
                    pr.number,
                ),
                None => after == (AppView { focus: Focus::Detail, ..away }),
            }
        }),
{
}

/// Nothing is refreshed that is not in the list, and without a selected project no key for one does
/// anything.
pub proof fn without_a_project_nothing_happens(app: AppView, i: int, number: u64)
    ensures
        !(0 <= i < app.projects.len()) ==> refreshed(app, i) == app,
        app.project_list is None ==> {
            &&& super::selected_refreshed(app) == app
            &&& files_requested(app, number) == app
            &&& remove_asked(app) == app
            &&& selected_removed(app) == app
            &&& super::mark_toggled(app, i) == app
            &&& app.tab == Tab::Worktrees ==> merged_marked(app) == app
            &&& super::mouse::list_row_clicked(app, i) == app
            &&& app.detail_files() is None
        },
{
}

/// A row that is not in the list is neither marked nor jumped from nor selected.
pub proof fn rows_beyond_the_list_do_nothing(app: AppView, i: usize, row: int)
    requires
        app.project_list == Some(i),
        i < app.projects.len(),
    ensures
        row < 0 || row >= app.projects[i as int].worktree_list().len() ==> {
            &&& super::mark_toggled(app, row) == app
            &&& super::input::jumped_to_pr(app, row) == app
            &&& app.tab == Tab::Worktrees ==> super::mouse::list_row_clicked(app, row) == app
        },
        (row < 0 || row >= app.projects[i as int].pr_list().len()) && app.tab == Tab::Prs
            ==> super::mouse::list_row_clicked(app, row) == app,
{
}

/// `r` refreshes the selected project.
pub proof fn the_selected_project_is_refreshed(app: AppView, i: usize)
    requires
        app.project_list == Some(i),
    ensures
        super::selected_refreshed(app) == refreshed(app, i as int),
{
}

/// The files of a pull request are asked for once: not again while they load or when they are
/// there, but again when they could not be loaded. Nothing is asked of a project that is not on
/// GitHub.
pub proof fn files_are_asked_for_once(app: AppView, number: u64, i: usize)
    requires
        app.project_list == Some(i),
        i < app.projects.len(),
    ensures
        ({
            let after = files_requested(app, number);
            let project = app.projects[i as int];
            let known = project.pr_files.contains_key(number);
            let failed = known && project.pr_files[number] is Some
                && project.pr_files[number]->Some_0 is Err;
            &&& project.github is None ==> after == app
            &&& known && !failed ==> after == app
            &&& project.github is Some && (!known || failed) ==> after == (AppView {
                projects: app.projects.update(
                    i as int,
                    ProjectView { pr_files: project.pr_files.insert(number, None), ..project },
                ),
                requests: app.requests.push(
                    RequestView::LoadPrFiles {
                        project: project.path,
                        generation: project.pr_generation,
                        repo: project.github->Some_0,
                        number,
                    },
                ),
                ..app
            })
        }),
{
}

// ---------------------------------------------------------------------------------------------
// Reports
// ---------------------------------------------------------------------------------------------

/// What a report leaves in the project that it is about. Each one sets what it reports and nothing
/// else; pull requests and their files count only when they belong to the latest reload.
pub proof fn what_each_report_changes(app: AppView, update: UpdateView, i: int)
    requires
        project_at(app.projects, update.project) == Some(i),
        !(update.kind is JobStarted),
        !(update.kind is JobFinished),
    ensures
        ({
            let after = updated(app, update);
            let before = app.projects[i];
            let now = after.projects[i];
            let latest = update.generation == before.pr_generation;
            &&& after == (AppView {
                projects: after.projects,
                detail_table: after.detail_table,
                ..app
            })
            &&& after.projects.len() == app.projects.len()
            &&& forall|j: int|
                0 <= j < app.projects.len() && j != i ==> after.projects[j]
                    == #[trigger] app.projects[j]
            &&& match update.kind {
                UpdateKindView::RepoInfo { github, default_branch } => {
                    &&& now.github == github
                    &&& now.default_branch == Some(default_branch)
                    &&& before == (ProjectView {
                        github: before.github,
                        default_branch: before.default_branch,
                        ..now
                    })
                },
                UpdateKindView::Activity(activity) => {
                    &&& now.activity == activity
                    &&& before == (ProjectView { activity: before.activity, ..now })
                },
                UpdateKindView::Worktrees(result) => {
                    &&& now.worktrees == Some(result)
                    &&& before == (ProjectView {
                        worktrees: before.worktrees,
                        marked: before.marked,
                        worktree_table: before.worktree_table,
                        ..now
                    })
                },
                UpdateKindView::Fetched(result) => {
                    &&& now.last_fetch is Some
                    &&& now.last_fetch->Some_0.at == app.now
                    &&& now.last_fetch->Some_0.result == result
                    &&& before == (ProjectView { last_fetch: before.last_fetch, ..now })
                },
                UpdateKindView::RefreshDone => {
                    &&& !now.refreshing
                    &&& before == (ProjectView { refreshing: before.refreshing, ..now })
                },
                UpdateKindView::Prs(result) => {
                    &&& !latest ==> now == before
                    &&& latest ==> {
                        &&& !now.prs_loading
                        &&& now.prs == Some(result)
                        &&& before == (ProjectView {
                            prs_loading: before.prs_loading,
                            prs: before.prs,
                            pr_table: before.pr_table,
                            ..now
                        })
                    }
                },
                UpdateKindView::PrFiles { number, files } => {
                    &&& !latest ==> now == before
                    &&& latest ==> {
                        &&& now.pr_files.contains_key(number)
                        &&& now.pr_files[number] == Some(files)
                        &&& now.pr_files.remove(number) == before.pr_files.remove(number)
                        &&& before == (ProjectView { pr_files: before.pr_files, ..now })
                    }
                },
                _ => true,
            }
        }),
{
    the_first_project_with_a_path_counts(app.projects, update.project);
    if let UpdateKindView::PrFiles { number, files } = update.kind {
        let before = app.projects[i];
        assert(before.pr_files.insert(number, Some(files)).remove(number)
            =~= before.pr_files.remove(number));
    }
}

/// Reports about jobs go to the queue, whatever project of the list they name.
pub proof fn reports_about_jobs_go_to_the_queue(app: AppView, update: UpdateView)
    requires
        project_at(app.projects, update.project) is Some,
    ensures
        update.kind matches UpdateKindView::JobStarted(id) ==> {
            let after = updated(app, update);
            AppView { detail_table: app.detail_table, ..after } == job_started(app, id)
        },
        update.kind matches UpdateKindView::JobFinished { id, result } ==> {
            let after = updated(app, update);
            AppView { detail_table: app.detail_table, ..after } == job_finished(app, id, result)
        },
{
}

/// After a report the selection in the detail pane is a row that it shows: the one that was selected
/// where there still is one, or else the last.
pub proof fn the_detail_selection_stays_in_the_files(app: AppView, update: UpdateView)
    requires
        project_at(app.projects, update.project) is Some,
    ensures
        ({
            let after = updated(app, update);
            let len = after.detail_len();
            &&& len == 0 ==> after.detail_table is None
            &&& len > 0 && len <= usize::MAX ==> {
                &&& app.detail_table is None ==> after.detail_table == Some(0usize)
                &&& app.detail_table matches Some(k) ==> after.detail_table == Some(
                    if k < len {
                        k
                    } else {
                        (len - 1) as usize
                    },
                )
            }
        }),
{
    the_first_project_with_a_path_counts(app.projects, update.project);
    let i = project_at(app.projects, update.project)->Some_0;
    let next = super::projects::reported(app, i, update);
    assert(updated(app, update).detail_len() == next.detail_len());
}

/// Where the cursor goes when worktrees are loaded again. It stays on its worktree; when that one is
/// gone it stays on its row, or goes to the last one.
pub proof fn where_the_cursor_goes(project: ProjectView, list: Seq<WorktreeInfoView>)
    requires
        list.len() <= usize::MAX,
    ensures
        ({
            let now = with_worktrees(project, Ok(list));
            &&& list.len() == 0 ==> now.worktree_table is None
            &&& list.len() > 0 && project.worktree_table is None ==> now.worktree_table == Some(
                0usize,
            )
            &&& list.len() > 0 && project.worktree_table is Some && (
            project.selected_worktree() matches Some(info) ==> !listed_keys(list).contains(
                components(info.worktree.path),
            )) ==> {
                let row = project.worktree_table->Some_0;
                now.worktree_table == Some(
                    if row < list.len() {
                        row
                    } else {
                        (list.len() - 1) as usize
                    },
                )
            }
        }),
{
    if let Some(info) = project.selected_worktree() {
        lemma_row_of_key(list, components(info.worktree.path));
    }
}

/// The selected row of the pull requests stays, or is the last one when there are fewer now.
pub proof fn the_selected_pull_request_stays_in_its_row(
    project: ProjectView,
    list: Seq<PullRequestView>,
)
    requires
        list.len() <= usize::MAX,
    ensures
        ({
            let now = with_prs(project, Ok(list));
            &&& list.len() == 0 ==> now.pr_table is None
            &&& list.len() > 0 && project.pr_table is None ==> now.pr_table == Some(0usize)
            &&& project.pr_table matches Some(row) ==> {
                &&& row < list.len() ==> now.pr_table == Some(row)
                &&& 0 < list.len() <= row ==> now.pr_table == Some((list.len() - 1) as usize)
            }
        }),
{
}

/// A reload that failed leaves its reason and no row to select, and nothing else changes.
pub proof fn what_a_failed_reload_leaves(project: ProjectView, reason: Seq<char>)
    ensures
        with_worktrees(project, Err(reason)) == (ProjectView {
            worktrees: Some(Err(reason)),
            worktree_table: None,
            ..project
        }),
        with_prs(project, Err(reason)) == (ProjectView {
            prs: Some(Err(reason)),
            pr_table: None,
            prs_loading: false,
            ..project
        }),
{
}

// ---------------------------------------------------------------------------------------------
// The list of projects
// ---------------------------------------------------------------------------------------------

/// A project that joins the list has nothing loaded and nothing waiting.
pub proof fn a_new_project_is_empty(path: Seq<char>)
    ensures
        ({
            let project = new_project(path);
            &&& project.path == path
            &&& project.github is None && project.default_branch is None
            &&& project.lane.len() == 0
            &&& !project.loaded && !project.refreshing && !project.prs_loading
            &&& project.activity is None
            &&& project.pr_generation == 0
            &&& project.last_fetch is None
            &&& project.worktrees is None && project.prs is None
            &&& project.worktree_table is None && project.pr_table is None
            &&& project.marked == Set::<Seq<Seq<char>>>::empty()
            &&& forall|number: u64| !project.pr_files.contains_key(number)
        }),
{
}

/// A session starts with the saved projects, in their order, on the first of them, which loads; the
/// others wait until they are selected. Nothing else is going on.
pub proof fn how_a_session_starts(paths: Seq<Seq<char>>, home: Option<Seq<char>>, now: u64)
    ensures
        ({
            let app = launched(paths, home, now);
            &&& app.projects.len() == paths.len()
            &&& forall|k: int|
                0 < k < paths.len() ==> app.projects[k] == new_project(#[trigger] paths[k])
            &&& app.focus == Focus::Projects
            &&& app.tab == Tab::Worktrees
            &&& app.mode is Normal
            &&& app.detail_table is None
            &&& app.home == home
            &&& !app.should_quit && !app.show_queue
            &&& app.jobs.len() == 0 && app.next_job == 1
            &&& app.status is None
            &&& app.started == now && app.now == now
            &&& app.hits == super::mouse::no_hits()
            &&& paths.len() == 0 ==> app.project_list is None && app.requests.len() == 0
            &&& paths.len() > 0 ==> {
                &&& app.project_list == Some(0usize)
                &&& app.projects[0] == (ProjectView {
                    loaded: true,
                    refreshing: true,
                    lane: seq![TaskView::Refresh],
                    pr_generation: 1,
                    prs_loading: true,
                    ..new_project(paths[0])
                })
                &&& app.requests == seq![
                    RequestView::LoadPrs { project: paths[0], generation: 1 },
                ]
            }
        }),
{
    let app = launched(paths, home, now);
    if paths.len() > 0 {
        assert(app.projects[0].lane =~= seq![TaskView::Refresh]);
        assert(app.projects[0].pr_files =~= Map::empty());
        assert(app.requests =~= seq![RequestView::LoadPrs { project: paths[0], generation: 1 }]);
    }
}

/// What is typed is taken without the white space around it. Nothing typed is no path; a path that
/// starts at the root or stands for one is taken as it is, and any other one lies in the current
/// directory.
pub proof fn what_a_typed_path_stands_for(
    text: Seq<char>,
    home: Option<Seq<char>>,
    dir: Seq<char>,
)
    ensures
        ({
            let raw = trim(text);
            let path = expanded(raw, home);
            &&& raw.len() == 0 ==> typed_path(text, home, Some(dir)) is None && typed_path(
                text,
                home,
                None,
            ) is None
            &&& raw.len() > 0 ==> typed_path(text, home, None) == Some(path)
            &&& raw.len() > 0 && path.len() > 0 && path[0] == '/' ==> typed_path(
                text,
                home,
                Some(dir),
            ) == Some(path)
            &&& raw.len() > 0 && (path.len() == 0 || path[0] != '/') ==> typed_path(
                text,
                home,
                Some(dir),
            ) == Some(join(dir, path))
        }),
{
}

/// What does not lead to a repository leaves everything as it was but the error in the dialog, which
/// keeps what was typed.
pub proof fn refused_paths_are_explained(app: AppView, input: PathInputView, found: FoundView)
    requires
        !(found is Repository),
    ensures
        ({
            let error = match found {
                FoundView::NotADirectory(path) => "Not a directory: "@ + path,
                FoundView::NotARepository(path) => "Not a git repository: "@ + path,
                _ => "Type the path of a git repository."@,
            };
            project_added(app, input, found) == (AppView {
                mode: ModeView::AddProject(
                    PathInputView { text: input.text, error: Some(error) },
                ),
                ..app
            })
        }),
{
}

/// A repository that the list holds already is selected, and the status line says so; nothing else
/// changes.
pub proof fn a_known_repository_is_selected(
    app: AppView,
    input: PathInputView,
    root: Seq<char>,
    github: Option<Seq<char>>,
)
    requires
        app.projects.len() <= usize::MAX,
        project_at(app.projects, root) is Some,
    ensures
        ({
            let after = project_added(app, input, FoundView::Repository { root, github });
            &&& after == (AppView {
                project_list: after.project_list,
                status: Some((displayed(root, app.home) + " is already in the list."@, app.now)),
                ..app
            })
            &&& after.project_list is Some
            &&& after.project_list->Some_0 < app.projects.len()
            &&& same_path(app.projects[after.project_list->Some_0 as int].path, root)
        }),
{
    the_first_project_with_a_path_counts(app.projects, root);
}

/// A new repository goes to the end of the list and is selected. The list is saved with it, and it
/// loads.
pub proof fn a_new_repository_joins_the_list(
    app: AppView,
    input: PathInputView,
    root: Seq<char>,
    github: Option<Seq<char>>,
)
    requires
        app.projects.len() < usize::MAX,
        project_at(app.projects, root) is None,
    ensures
        ({
            let after = project_added(app, input, FoundView::Repository { root, github });
            let last = app.projects.len() as int;
            &&& after == (AppView {
                projects: after.projects,
                project_list: Some(last as usize),
                focus: Focus::Projects,
                status: Some(
                    (
                        "Added "@ + displayed(root, app.home) + " ("@ + (match github {
                            Some(repo) => "GitHub: "@ + repo,
                            None => "origin is not on GitHub"@,
                        }) + ")."@,
                        app.now,
                    ),
                ),
                requests: app.requests.push(
                    RequestView::SaveConfig(project_paths(app.projects).push(root)),
                ).push(RequestView::LoadPrs { project: root, generation: 1 }),
                ..app
            })
            &&& after.projects.len() == last + 1
            &&& forall|k: int| 0 <= k < last ==> after.projects[k] == #[trigger] app.projects[k]
            &&& after.projects[last] == (ProjectView {
                github,
                loaded: true,
                refreshing: true,
                lane: seq![TaskView::Refresh],
                pr_generation: 1,
                prs_loading: true,
                ..new_project(root)
            })
        }),
{
    let after = project_added(app, input, FoundView::Repository { root, github });
    let last = app.projects.len() as int;
    let project = ProjectView { github, ..new_project(root) };
    assert(project_paths(app.projects.push(project)) =~= project_paths(app.projects).push(root));
    assert(after.projects[last].lane =~= seq![TaskView::Refresh]);
    assert(after.projects[last].pr_files =~= Map::empty());
}

/// Removing the selected project is asked for with the name of the project; with a job queued or
/// running in it the status line says that it has to wait.
pub proof fn what_removing_asks(app: AppView, project: ProjectView)
    requires
        app.selected_project() == Some(project),
    ensures
        ({
            let after = remove_asked(app);
            let dialog = after.mode->Confirm_0;
            &&& has_active(app.jobs, project.path) ==> after == (AppView {
                status: Some(
                    ("This project still has queued jobs; wait for them to finish."@, app.now),
                ),
                ..app
            })
            &&& !has_active(app.jobs, project.path) ==> {
                &&& after == (AppView { mode: after.mode, ..app })
                &&& after.mode is Confirm
                &&& dialog.title == " Remove project "@
                &&& dialog.yes == "Remove"@
                &&& !dialog.danger
                &&& dialog.action == ActionView::RemoveProject
                &&& dialog.lines.len() == 2
                &&& dialog.lines[0] == (
                    "Remove "@ + displayed(project.path, app.home) + " from tuitree?"@,
                    Tone::Normal,
                )
                &&& dialog.lines[1] == ("The repository on disk is not touched."@, Tone::Muted)
            }
        }),
{
}

/// Accepting the question removes the selected project and no other; the list is saved without it.
pub proof fn accepting_a_removal_removes_the_selected(app: AppView)
    requires
        app.mode is Confirm,
        app.mode->Confirm_0.action == ActionView::RemoveProject,
    ensures
        pressed(app, Button::Yes) == selected_removed(
            AppView { mode: ModeView::Normal, ..app },
        ),
{
}

/// The selected project leaves the list and the others keep their order. The one in its place is
/// selected, or else the last one, and loads only if it never was. Whatever is asked for next, the
/// list is saved first.
pub proof fn what_removing_does(app: AppView, i: usize)
    requires
        app.project_list == Some(i),
        i < app.projects.len() <= usize::MAX,
    ensures
        ({
            let after = selected_removed(app);
            let left = app.projects.remove(i as int);
            let message = "Removed "@ + displayed(app.projects[i as int].path, app.home)
                + " from tuitree. Files on disk are untouched."@;
            let save = RequestView::SaveConfig(project_paths(left));
            let calm = AppView {
                projects: left,
                project_list: after.project_list,
                focus: Focus::Projects,
                status: Some((message, app.now)),
                requests: app.requests.push(save),
                ..app
            };
            &&& left.len() == 0 ==> after.project_list is None && after == calm
            &&& left.len() > 0 ==> {
                &&& i < left.len() ==> after.project_list == Some(i)
                &&& i == left.len() ==> after.project_list == Some((i - 1) as usize)
                &&& left[after.project_list->Some_0 as int].loaded ==> after == calm
                &&& !left[after.project_list->Some_0 as int].loaded ==> after == refreshed(
                    calm,
                    after.project_list->Some_0 as int,
                )
            }
        }),
{
}

// ---------------------------------------------------------------------------------------------
// Merged worktrees
// ---------------------------------------------------------------------------------------------

/// Row `k` of the list is the worktree that `key` identifies, and its work is merged.
pub open spec fn merged_row(list: Seq<WorktreeInfoView>, k: int, key: Seq<Seq<char>>) -> bool {
    &&& 0 <= k < list.len()
    &&& components(list[k].worktree.path) == key
    &&& list[k].stats is Ok
    &&& list[k].stats->Ok_0.merged is Some
}

proof fn lemma_merged(list: Seq<WorktreeInfoView>, key: Seq<Seq<char>>)
    ensures
        super::cleanup::merged_keys(list).contains(key) <==> exists|k: int|
            merged_row(list, k, key),
        merged_paths(list).len() == 0 <==> forall|k: int|
            0 <= k < list.len() ==> !super::cleanup::is_merged(#[trigger] list[k]),
    decreases list.len(),
{
    let keys = super::marks::keys_of(merged_paths(list));
    if list.len() > 0 {
        let fewer = list.drop_last();
        lemma_merged(fewer, key);
        let before = super::marks::keys_of(merged_paths(fewer));
        let last = list.len() - 1;
        assert forall|k: int| 0 <= k < last implies #[trigger] fewer[k] == list[k] by {}
        if before.contains(key) {
            let m = choose|m: int| 0 <= m < before.len() && before[m] == key;
            assert(keys[m] == key);
            let k = choose|k: int| merged_row(fewer, k, key);
            assert(merged_row(list, k, key));
        }
        if merged_row(list, last, key) {
            assert(keys[before.len() as int] == key);
        }
        if exists|k: int| merged_row(list, k, key) {
            let k = choose|k: int| merged_row(list, k, key);
            if k < last {
                assert(merged_row(fewer, k, key));
            }
        }
        if keys.contains(key) {
            let m = choose|m: int| 0 <= m < keys.len() && keys[m] == key;
            if m < before.len() {
                assert(before[m] == key);
            } else {
                assert(merged_row(list, last, key));
            }
        }
        if forall|k: int| 0 <= k < list.len() ==> !super::cleanup::is_merged(#[trigger] list[k]) {
            assert forall|k: int| 0 <= k < fewer.len() implies !super::cleanup::is_merged(
                #[trigger] fewer[k],
            ) by {
                assert(fewer[k] == list[k]);
            }
            assert(!super::cleanup::is_merged(list[last]));
        }
        if merged_paths(list).len() == 0 {
            assert forall|k: int| 0 <= k < list.len() implies !super::cleanup::is_merged(
                #[trigger] list[k],
            ) by {
                if k < last {
                    assert(!super::cleanup::is_merged(fewer[k]));
                }
            }
        }
    } else {
        assert(!keys.contains(key));
    }
}

/// The merged worktrees are listed once each, in the order of the list.
pub proof fn merged_worktrees_are_listed_in_order(
    list: Seq<WorktreeInfoView>,
    info: WorktreeInfoView,
)
    ensures
        merged_paths(Seq::empty()).len() == 0,
        info.stats is Ok && info.stats->Ok_0.merged is Some ==> merged_paths(list.push(info))
            == merged_paths(list).push(info.worktree.path),
        !(info.stats is Ok && info.stats->Ok_0.merged is Some) ==> merged_paths(list.push(info))
            == merged_paths(list),
{
    assert(list.push(info).drop_last() =~= list);
}

/// `M` marks the merged worktrees and keeps the other marks; when all of them are marked it unmarks
/// exactly those. It goes from the projects to the list, and says how many there are.
pub proof fn what_marking_the_merged_does(app: AppView, i: usize, key: Seq<Seq<char>>)
    requires
        app.project_list == Some(i),
        i < app.projects.len(),
    ensures
        ({
            let after = merged_marked(app);
            let before = app.projects[i as int];
            let list = before.worktree_list();
            let now = after.projects[i as int];
            let count = decimal(merged_paths(list).len());
            let none = forall|k: int|
                0 <= k < list.len() ==> !super::cleanup::is_merged(#[trigger] list[k]);
            let all = forall|k: int|
                #![trigger list[k]]
                0 <= k < list.len() && super::cleanup::is_merged(list[k]) ==> before.marked.contains(
                    components(list[k].worktree.path),
                );
            let merged = exists|k: int| merged_row(list, k, key);
            &&& app.tab != Tab::Worktrees ==> after == (AppView {
                status: Some(("Merged rows are on the Worktrees tab."@, app.now)),
                ..app
            })
            &&& app.tab == Tab::Worktrees ==> {
                &&& after == (AppView {
                    projects: after.projects,
                    focus: if app.focus == Focus::Projects {
                        Focus::List
                    } else {
                        app.focus
                    },
                    status: Some(
                        (
                            if none {
                                "No merged worktrees (yet: the check runs after each fetch)."@
                            } else if all {
                                "Unmarked "@ + count + " merged worktrees."@
                            } else {
                                "Marked "@ + count + " merged worktrees. x deletes them."@
                            },
                            app.now,
                        ),
                    ),
                    ..app
                })
                &&& after.projects == app.projects.update(
                    i as int,
                    ProjectView { marked: now.marked, ..before },
                )
                &&& !none && !all ==> (now.marked.contains(key) <==> before.marked.contains(key)
                    || merged)
                &&& !none && all ==> (now.marked.contains(key) <==> before.marked.contains(key)
                    && !merged)
                &&& none ==> now.marked == before.marked
            }
        }),
{
    let before = app.projects[i as int];
    let list = before.worktree_list();
    let keys = super::cleanup::merged_keys(list);
    lemma_merged(list, key);
    assert(app.projects.update(i as int, before) =~= app.projects);
    if keys.subset_of(before.marked) {
        assert forall|k: int|
            #![trigger list[k]]
            0 <= k < list.len() && super::cleanup::is_merged(list[k]) implies before.marked.contains(
            components(list[k].worktree.path),
        ) by {
            let row = components(list[k].worktree.path);
            lemma_merged(list, row);
            assert(merged_row(list, k, row));
            assert(keys.contains(row));
        }
    }
    if forall|k: int|
        #![trigger list[k]]
        0 <= k < list.len() && super::cleanup::is_merged(list[k]) ==> before.marked.contains(
            components(list[k].worktree.path),
        ) {
        assert forall|row: Seq<Seq<char>>| keys.contains(row) implies before.marked.contains(
            row,
        ) by {
            lemma_merged(list, row);
            let k = choose|k: int| merged_row(list, k, row);
            assert(super::cleanup::is_merged(list[k]));
        }
    }
}

// ---------------------------------------------------------------------------------------------
// What came of a delete or a sync
// ---------------------------------------------------------------------------------------------

/// What is said about a delete that ended: what was deleted, or what git refused and what is left.
pub proof fn what_is_said_of_a_delete(
    app: AppView,
    job: DeleteJobView,
    outcome: DeleteOutcomeView,
)
    ensures
        ({
            let shown = displayed(job.path, app.home);
            let message = match (outcome, job.branch) {
                (DeleteOutcomeView::Done, Some(branch)) => "Deleted worktree "@ + shown
                    + " and branch "@ + branch + "."@,
                (DeleteOutcomeView::Done, None) => "Deleted worktree "@ + shown + "."@,
                (
                    DeleteOutcomeView::NeedsForce { reason, worktree_removed: true },
                    Some(branch),
                ) => "The worktree "@ + shown + " is already removed; branch "@ + branch
                    + " is left: "@ + reason,
                (DeleteOutcomeView::NeedsForce { reason, .. }, _) => "Delete of "@ + shown
                    + " was refused: "@ + reason,
                (DeleteOutcomeView::Failed(reason), _) => "Delete failed: "@ + reason,
            };
            delete_reported(app, job, outcome) == (AppView {
                status: Some((message, app.now)),
                ..app
            })
        }),
{
}

/// After a delete or a sync that ended the project is refreshed.
pub proof fn what_ended_is_said_and_shown(
    app: AppView,
    i: int,
    job: SyncJobView,
    result: Result<Seq<char>, Seq<char>>,
    delete: DeleteJobView,
    outcome: DeleteOutcomeView,
)
    ensures
        deleted(app, i, delete, outcome) == refreshed(delete_reported(app, delete, outcome), i),
        synced(app, i, job, result) == refreshed(
            AppView {
                status: Some(
                    (
                        match result {
                            Ok(summary) => "Synced "@ + job.branch + " with "@ + job.base + ": "@
                                + summary + "."@,
                            Err(reason) => "Sync of "@ + job.branch + " failed: "@ + reason,
                        },
                        app.now,
                    ),
                ),
                ..app
            },
            i,
        ),
{
}

} // verus!
