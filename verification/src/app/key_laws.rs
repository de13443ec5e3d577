//! What each key does in each mode.
use vstd::prelude::*;

use super::input::{jumped_to_pr, key_pressed, normal_key_pressed, pr_row, pressed, Key, KeyCode};
use super::laws::is_idle;

use super::plan::label_of;
use super::project::{clamped_to, stepped_to};
use super::queue::active_count;
use super::state::{
    ActionView, AppView, Button, ConfirmView, Focus, ModeView, PathInputView, ProjectView,
    RequestView, Tab, Tone,
};
use super::{
    moved, opened, project_selected, refreshed, selected_mark_toggled, selected_refreshed, tab_set,
    went_back,
};
use crate::gh::PullRequestView;
use crate::git::{PrLink, PrState};
use crate::paths::components;
use crate::text::decimal;

verus! {

// ---------------------------------------------------------------------------------------------
// Dialogs
// ---------------------------------------------------------------------------------------------

/// The key accepts a yes/no dialog.
pub open spec fn accepts(key: Key) -> bool {
    key.code == KeyCode::Char('y') || key.code == KeyCode::Char('Y') || key.code == KeyCode::Enter
}

/// The key dismisses a yes/no dialog.
pub open spec fn dismisses(key: Key) -> bool {
    key.code == KeyCode::Esc || key.code == KeyCode::Char('n') || key.code == KeyCode::Char('N')
        || key.code == KeyCode::Char('q')
}

/// Ctrl+C.
pub open spec fn interrupts(key: Key) -> bool {
    key.control && key.code == KeyCode::Char('c')
}

/// While a yes/no dialog is open, only y, Y and Enter perform its action, which is what pressing its
/// "yes" button does. Esc, n, N and q close it and leave everything else as it is: no job is queued, no
/// project removed, and the session goes on. Every other key but Ctrl+C changes nothing at all.
pub proof fn only_yes_keys_perform(app: AppView, key: Key)
    requires
        app.mode is Confirm,
        !interrupts(key),
    ensures
        dismisses(key) ==> key_pressed(app, key) == (AppView { mode: ModeView::Normal, ..app }),
        !accepts(key) && !dismisses(key) ==> key_pressed(app, key) == app,
        accepts(key) ==> key_pressed(app, key) == pressed(app, Button::Yes),
        !accepts(key) ==> key_pressed(app, key).jobs == app.jobs && key_pressed(app, key).projects
            == app.projects && key_pressed(app, key).should_quit == app.should_quit && key_pressed(
            app,
            key,
        ).requests == app.requests,
{
}

/// The "no" button closes any dialog and changes nothing else; the "yes" button closes it too.
pub proof fn both_buttons_close_a_dialog(app: AppView)
    ensures
        pressed(app, Button::No) == (AppView { mode: ModeView::Normal, ..app }),
        pressed(app, Button::Yes).mode is Normal,
{
}

/// Accepting the question before quitting quits, and nothing else happens.
pub proof fn accepting_to_quit_quits(app: AppView)
    requires
        app.mode is Confirm,
        app.mode->Confirm_0.action is Quit,
    ensures
        pressed(app, Button::Yes) == (AppView {
            mode: ModeView::Normal,
            should_quit: true,
            ..app
        }),
{
}

/// Ctrl+C asks to quit in every mode: it quits when no job is queued or running, and otherwise opens
/// the question, which says how many there are. `q` does the same while no dialog is open.
pub proof fn ctrl_c_asks_to_quit_everywhere(app: AppView, key: Key)
    requires
        interrupts(key) || (app.mode is Normal && key.code == KeyCode::Char('q')),
    ensures
        ({
            let after = key_pressed(app, key);
            let n = active_count(app.jobs);
            &&& is_idle(app) ==> after == (AppView { should_quit: true, ..app })
            &&& !is_idle(app) ==> n > 0 && after == (AppView {
                mode: ModeView::Confirm(
                    ConfirmView {
                        title: " Quit? "@,
                        lines: seq![
                            (
                                decimal(n) + (if n == 1 {
                                    " job is"@
                                } else {
                                    " jobs are"@
                                }) + " still queued or running."@,
                                Tone::Warn,
                            ),
                            (
                                "Quitting drops queued jobs; a git command that already started finishes on its own."@,
                                Tone::Muted,
                            ),
                        ],
                        yes: "Quit"@,
                        danger: true,
                        action: ActionView::Quit,
                    },
                ),
                ..app
            })
        }),
{
    super::laws::lemma_active(app.jobs);
}

/// While a path is typed: Esc closes the dialog and changes nothing else; Enter closes it and asks for
/// the path to be looked at; a character is appended, Backspace takes the last one off, Ctrl+U all of
/// them; the error stays until then, and every other key changes nothing.
pub proof fn what_typing_a_path_does(app: AppView, key: Key, input: PathInputView)
    requires
        app.mode == ModeView::AddProject(input),
        !interrupts(key),
    ensures
        ({
            let after = key_pressed(app, key);
            let text = |text: Seq<char>|
                after == (AppView {
                    mode: ModeView::AddProject(PathInputView { text, error: input.error }),
                    ..app
                });
            &&& key.code == KeyCode::Esc ==> after == (AppView { mode: ModeView::Normal, ..app })
            &&& key.code == KeyCode::Enter ==> after == (AppView {
                mode: ModeView::Normal,
                requests: app.requests.push(RequestView::AddProject(input)),
                ..app
            })
            &&& key.code == KeyCode::Backspace && input.text.len() > 0 ==> text(
                input.text.drop_last(),
            )
            &&& key.code == KeyCode::Backspace && input.text.len() == 0 ==> after == app
            &&& key.code is Char && !(key.control && key.code == KeyCode::Char('u')) ==> text(
                input.text.push(key.code->Char_0),
            )
            &&& key.control && key.code == KeyCode::Char('u') ==> text(Seq::empty())
            &&& !(key.code is Char || key.code is Esc || key.code is Enter || key.code is Backspace)
                ==> after == app
        }),
{
}

// ---------------------------------------------------------------------------------------------
// Normal mode
// ---------------------------------------------------------------------------------------------

/// Letters and named keys for the same thing do the same: `j` and Down, `k` and Up, `l`, Enter and
/// Right, `h`, Esc and Left, Tab and Shift+Tab.
pub proof fn keys_for_the_same_thing_agree(app: AppView)
    ensures
        normal_key_pressed(app, KeyCode::Char('j')) == normal_key_pressed(app, KeyCode::Down),
        normal_key_pressed(app, KeyCode::Char('k')) == normal_key_pressed(app, KeyCode::Up),
        normal_key_pressed(app, KeyCode::Char('l')) == normal_key_pressed(app, KeyCode::Enter),
        normal_key_pressed(app, KeyCode::Char('l')) == normal_key_pressed(app, KeyCode::Right),
        normal_key_pressed(app, KeyCode::Char('h')) == normal_key_pressed(app, KeyCode::Esc),
        normal_key_pressed(app, KeyCode::Char('h')) == normal_key_pressed(app, KeyCode::Left),
        normal_key_pressed(app, KeyCode::Tab) == normal_key_pressed(app, KeyCode::BackTab),
{
}

/// Each letter stands for one command, and without a dialog a key means the same with or without Ctrl,
/// except Ctrl+C.
pub proof fn each_letter_is_one_command(app: AppView, key: Key)
    requires
        app.mode is Normal,
        !interrupts(key),
    ensures
        key_pressed(app, key) == normal_key_pressed(app, key.code),
        normal_key_pressed(app, KeyCode::Char('q')) == super::queue::quit_asked(app),
        normal_key_pressed(app, KeyCode::Char('d')) == super::projects::remove_asked(app),
        normal_key_pressed(app, KeyCode::Char('x')) == super::actions::delete_asked(app),
        normal_key_pressed(app, KeyCode::Char('s')) == super::actions::sync_asked(app),
        normal_key_pressed(app, KeyCode::Char('p')) == super::input::selected_jumped_to_pr(app),
        normal_key_pressed(app, KeyCode::Char(' ')) == selected_mark_toggled(app),
        normal_key_pressed(app, KeyCode::Char('M')) == super::cleanup::merged_marked(app),
        normal_key_pressed(app, KeyCode::Char('r')) == selected_refreshed(app),
        normal_key_pressed(app, KeyCode::Char('Q')) == (AppView {
            show_queue: !app.show_queue,
            ..app
        }),
        normal_key_pressed(app, KeyCode::Char('j')) == moved(app, app.focus, 1),
        normal_key_pressed(app, KeyCode::Char('k')) == moved(app, app.focus, -1),
        normal_key_pressed(app, KeyCode::Char('l')) == opened(app),
        normal_key_pressed(app, KeyCode::Char('h')) == went_back(app),
{
}

/// One row down and one row up: the next row, or the same one at the end of the list; with nothing
/// selected the first row, and nothing in an empty list. A step of several rows is as many single steps.
pub proof fn a_step_is_one_row(current: usize, len: nat, delta: int)
    requires
        current < len <= usize::MAX,
    ensures
        stepped_to(Some(current), len, 1) == Some(
            if current + 1 < len {
                (current + 1) as usize
            } else {
                current
            },
        ),
        stepped_to(Some(current), len, -1) == Some(
            if current > 0 {
                (current - 1) as usize
            } else {
                current
            },
        ),
        stepped_to(Some(current), len, 0) == Some(current),
        delta >= 0 ==> stepped_to(Some(current), len, delta + 1) == stepped_to(
            stepped_to(Some(current), len, delta),
            len,
            1,
        ),
        delta <= 0 ==> stepped_to(Some(current), len, delta - 1) == stepped_to(
            stepped_to(Some(current), len, delta),
            len,
            -1,
        ),
        stepped_to(None, len, delta) == Some(0usize),
        stepped_to(None, 0, delta) is None,
        stepped_to(Some(current), 0, delta) is None,
{
}

/// A selection in a list that changed: the same row if it is still there, the last one if not, the
/// first one if there was none, and none in an empty list.
pub proof fn a_selection_stays_in_its_list(current: usize, len: nat)
    requires
        len <= usize::MAX,
    ensures
        current < len ==> clamped_to(Some(current), len) == Some(current),
        0 < len <= current ==> clamped_to(Some(current), len) == Some((len - 1) as usize),
        len > 0 ==> clamped_to(None, len) == Some(0usize),
        clamped_to(Some(current), 0) is None,
        clamped_to(None, 0) is None,
{
}

/// Moving in the list moves the selection of the shown tab of the selected project and changes nothing
/// else; moving in the detail moves the selected file and changes nothing else.
pub proof fn moving_moves_one_selection(app: AppView, delta: int)
    requires
        app.wf(),
    ensures
        app.project_list is None ==> moved(app, Focus::List, delta) == app,
        app.project_list matches Some(i) ==> {
            let project = app.projects[i as int];
            let next = match app.tab {
                Tab::Worktrees => ProjectView {
                    worktree_table: stepped_to(
                        project.worktree_table,
                        project.worktree_list().len(),
                        delta,
                    ),
                    ..project
                },
                Tab::Prs => ProjectView {
                    pr_table: stepped_to(project.pr_table, project.pr_list().len(), delta),
                    ..project
                },
            };
            moved(app, Focus::List, delta) == (AppView {
                projects: app.projects.update(i as int, next),
                ..app
            })
        },
        moved(app, Focus::Detail, delta) == (AppView {
            detail_table: stepped_to(app.detail_table, app.detail_len(), delta),
            ..app
        }),
        moved(app, Focus::Projects, delta).project_list == stepped_to(
            app.project_list,
            app.projects.len(),
            delta,
        ),
        moved(app, Focus::Projects, delta) == project_selected(
            app,
            stepped_to(app.project_list, app.projects.len(), delta),
        ),
{
}

/// Another project is selected without anything else changing, but that one that was never loaded is
/// refreshed.
pub proof fn selecting_a_project_loads_it_once(app: AppView, index: usize)
    requires
        index < app.projects.len(),
    ensures
        app.project_list == Some(index) ==> project_selected(app, Some(index)) == app,
        app.project_list != Some(index) && app.projects[index as int].loaded ==> project_selected(
            app,
            Some(index),
        ) == (AppView { project_list: Some(index), ..app }),
        app.project_list != Some(index) && !app.projects[index as int].loaded ==> project_selected(
            app,
            Some(index),
        ) == refreshed(AppView { project_list: Some(index), ..app }, index as int),
{
}

/// `l` goes from the projects to the list and from a row of the list to its detail, with the first
/// file selected; for a pull request its files are asked for. `h` goes back one pane. Tab shows the
/// other list and closes the detail. None of them changes anything else.
pub proof fn panes_open_and_close(app: AppView, tab: Tab)
    requires
        app.wf(),
    ensures
        app.focus == Focus::Projects ==> opened(app) == if app.project_list is Some {
            AppView { focus: Focus::List, ..app }
        } else {
            app
        },
        app.focus == Focus::Detail ==> opened(app) == app,
        app.focus == Focus::List && app.project_list is None ==> opened(app) == app,
        app.focus == Focus::List && app.project_list is Some && app.tab == Tab::Worktrees ==> {
            let project = app.projects[app.project_list->Some_0 as int];
            opened(app) == if project.worktree_list().len() > 0 {
                AppView { detail_table: Some(0usize), focus: Focus::Detail, ..app }
            } else {
                app
            }
        },
        app.focus == Focus::List && app.project_list is Some && app.tab == Tab::Prs ==> {
            let project = app.projects[app.project_list->Some_0 as int];
            opened(app) == if project.pr_list().len() > 0 {
                let number = project.pr_list()[project.pr_table->Some_0 as int].number;
                AppView {
                    detail_table: Some(0usize),
                    focus: Focus::Detail,
                    ..super::files_requested(app, number)
                }
            } else {
                app
            }
        },
        went_back(app) == (AppView {
            focus: match app.focus {
                Focus::Detail => Focus::List,
                Focus::List => Focus::Projects,
                Focus::Projects => Focus::Projects,
            },
            ..app
        }),
        tab_set(app, tab) == (AppView {
            tab,
            focus: match app.focus {
                Focus::Detail => Focus::List,
                other => other,
            },
            ..app
        }),
        normal_key_pressed(app, KeyCode::Tab) == tab_set(
            app,
            match app.tab {
                Tab::Worktrees => Tab::Prs,
                Tab::Prs => Tab::Worktrees,
            },
        ),
{
    if let Some(i) = app.project_list {
        let project = app.projects[i as int];
        assert(project.wf());
    }
}

/// The space bar marks the selected worktree of the selected project, or unmarks it; other marks and
/// everything else stay. On the other tab or in the project list it only says what marks are for.
pub proof fn the_space_bar_marks_one_worktree(app: AppView)
    requires
        app.wf(),
    ensures
        app.tab != Tab::Worktrees || app.focus == Focus::Projects ==> selected_mark_toggled(app) == (
        AppView {
            status: Some(("Marks are for worktree rows (l to open the list)."@, app.now)),
            ..app
        }),
        app.tab == Tab::Worktrees && app.focus != Focus::Projects && app.project_list is Some ==> {
            let i = app.project_list->Some_0 as int;
            let project = app.projects[i];
            let after = selected_mark_toggled(app);
            if project.worktree_list().len() == 0 {
                after == app
            } else {
                let path = project.worktree_list()[project.worktree_table->Some_0 as int].worktree.path;
                let marked = after.projects[i].marked;
                &&& after == (AppView {
                    projects: app.projects.update(i, ProjectView { marked, ..project }),
                    ..app
                })
                &&& marked.contains(components(path)) == !project.marked.contains(components(path))
                &&& forall|key: Seq<Seq<char>>|
                    key != components(path) ==> #[trigger] marked.contains(key)
                        == project.marked.contains(key)
            }
        },
        app.tab == Tab::Worktrees && app.focus != Focus::Projects && app.project_list is None
            ==> selected_mark_toggled(app) == app,
{
    if let Some(i) = app.project_list {
        let project = app.projects[i as int];
        assert(project.wf());
    }
}

// ---------------------------------------------------------------------------------------------
// Jumping to a pull request
// ---------------------------------------------------------------------------------------------

proof fn lemma_pr_row(prs: Seq<PullRequestView>, number: u64)
    ensures
        match pr_row(prs, number) {
            Some(i) => 0 <= i < prs.len() && prs[i].number == number && forall|j: int|
                0 <= j < i ==> (#[trigger] prs[j]).number != number,
            None => forall|j: int| 0 <= j < prs.len() ==> (#[trigger] prs[j]).number != number,
        },
    decreases prs.len(),
{
    if prs.len() > 0 && prs[0].number != number {
        let rest = prs.drop_first();
        lemma_pr_row(rest, number);
        match pr_row(rest, number) {
            Some(i) => {
                assert(rest[i] == prs[i + 1]);
                assert forall|j: int| 0 <= j < i + 1 implies (#[trigger] prs[j]).number != number by {
                    if j > 0 {
                        assert(rest[j - 1] == prs[j]);
                    }
                }
            },
            None => {
                assert forall|j: int| 0 <= j < prs.len() implies (
                #[trigger] prs[j]).number != number by {
                    if j > 0 {
                        assert(rest[j - 1] == prs[j]);
                    }
                }
            },
        }
    }
}

/// From a worktree row to its pull request: if the list of open ones holds it, that list is shown with
/// it selected, and nothing else changes; if not, or if the branch has none, the status line says so.
pub proof fn a_jump_ends_at_the_pull_request(app: AppView, index: int)
    requires
        app.wf(),
        app.project_list is Some,
        0 <= index < app.projects[app.project_list->Some_0 as int].worktree_list().len(),
        app.projects[app.project_list->Some_0 as int].pr_list().len() <= usize::MAX,
    ensures
        ({
            let i = app.project_list->Some_0 as int;
            let project = app.projects[i];
            let info = project.worktree_list()[index];
            let after = jumped_to_pr(app, index);
            let says = |message: Seq<char>|
                after == (AppView { status: Some((message, app.now)), ..app });
            match info.pr {
                PrLink::Absent => says(label_of(info) + " has no PR."@),
                PrLink::Unknown => says(label_of(info) + " has no known PR."@),
                PrLink::Pr { number, state } => {
                    if exists|j: int|
                        0 <= j < project.pr_list().len() && (
                        #[trigger] project.pr_list()[j]).number == number {
                        let row = after.projects[i].pr_table;
                        &&& row is Some
                        &&& project.pr_list()[row->Some_0 as int].number == number
                        &&& after == (AppView {
                            tab: Tab::Prs,
                            focus: Focus::List,
                            projects: app.projects.update(
                                i,
                                ProjectView { pr_table: row, ..project },
                            ),
                            ..app
                        })
                    } else {
                        says(
                            "PR #"@ + decimal(number as nat) + match state {
                                PrState::Merged => {
                                    " is merged; the Pull requests tab lists open PRs."@
                                },
                                PrState::Closed => {
                                    " is closed; the Pull requests tab lists open PRs."@
                                },
                                _ => " is not in the list yet; press r to refresh."@,
                            },
                        )
                    }
                },
            }
        }),
{
    let i = app.project_list->Some_0 as int;
    let project = app.projects[i];
    assert(project.wf());
    if let PrLink::Pr { number, state } = project.worktree_list()[index].pr {
        lemma_pr_row(project.pr_list(), number);
    }
}

/// `p` jumps from the selected row; elsewhere it says that a row has to be selected first.
pub proof fn p_jumps_from_the_selected_row(app: AppView)
    requires
        app.wf(),
    ensures
        app.tab != Tab::Worktrees || app.focus == Focus::Projects
            ==> super::input::selected_jumped_to_pr(app) == (AppView {
            status: Some(("Select a worktree row first (l to open the list)."@, app.now)),
            ..app
        }),
        app.tab == Tab::Worktrees && app.focus != Focus::Projects && app.project_list is Some ==> {
            let project = app.projects[app.project_list->Some_0 as int];
            super::input::selected_jumped_to_pr(app) == match project.worktree_table {
                Some(row) => jumped_to_pr(app, row as int),
                None => app,
            }
        },
{
}

} // verus!
