//! What a click and the wheel reach.
use vstd::prelude::*;

use super::input::{jumped_to_pr, pressed};
use super::mouse::{
    clicked, covered, first_hit, item_at, list_row_clicked, mouse_used, no_hits, scrolled, Mouse,
    MouseKind,
};
use super::state::{AppView, Button, Focus, ModeView, ProjectView, Rect, Rows, Tab};
use super::{mark_toggled, moved, opened, project_selected};

verus! {

/// An area holds the cells from its corner on, as many to the right as it is wide and as many down
/// as it is high; nothing lies beyond the last cell number.
pub proof fn what_an_area_covers(area: Rect, x: u16, y: u16)
    requires
        area.x + area.width <= u16::MAX,
        area.y + area.height <= u16::MAX,
    ensures
        area.covers(x, y) <==> {
            &&& 0 <= x - area.x < area.width
            &&& 0 <= y - area.y < area.height
        },
        covered(Some(area), x, y) == area.covers(x, y),
        !covered(None, x, y),
{
}

/// An area that would reach past the last cell number ends before it.
pub proof fn areas_end_with_the_screen(area: Rect, x: u16, y: u16)
    ensures
        area.covers(x, y) <==> {
            &&& 0 <= x - area.x < area.width
            &&& 0 <= y - area.y < area.height
            &&& x < u16::MAX
            &&& y < u16::MAX
        },
{
}

/// The item under the pointer: rows follow each other down the area, each as many cells high as a
/// row is, and the first one shows the item at the offset.
pub proof fn which_item_a_row_shows(rows: Rows, x: u16, y: u16)
    requires
        rows.row_height > 0,
    ensures
        !rows.area.covers(x, y) ==> item_at(Some(rows), x, y) is None,
        item_at(None, x, y) is None,
        rows.area.covers(x, y) ==> {
            let item = item_at(Some(rows), x, y);
            &&& item is Some
            &&& item->Some_0 >= rows.offset
            &&& (item->Some_0 - rows.offset) * rows.row_height <= y - rows.area.y
            &&& y - rows.area.y < (item->Some_0 - rows.offset + 1) * rows.row_height
        },
{
    if rows.area.covers(x, y) {
        let down = y - rows.area.y;
        let height = rows.row_height as int;
        assert(down >= 0);
        assert(down / height >= 0 && (down / height) * height <= down && down < (down / height + 1)
            * height) by (nonlinear_arith)
            requires
                down >= 0,
                height > 0,
        ;
    }
}

/// Of several areas that cover a cell the first one counts.
pub proof fn the_first_area_counts<T>(areas: Seq<(Rect, T)>, x: u16, y: u16)
    ensures
        match first_hit(areas, x, y) {
            Some(thing) => exists|i: int|
                {
                    &&& 0 <= i < areas.len()
                    &&& (#[trigger] areas[i]).0.covers(x, y)
                    &&& areas[i].1 == thing
                    &&& forall|j: int| 0 <= j < i ==> !(#[trigger] areas[j]).0.covers(x, y)
                },
            None => forall|j: int| 0 <= j < areas.len() ==> !(#[trigger] areas[j]).0.covers(x, y),
        },
    decreases areas.len(),
{
    if areas.len() > 0 {
        if areas[0].0.covers(x, y) {
            assert(areas[0].1 == first_hit(areas, x, y)->Some_0);
        } else {
            let rest = areas.drop_first();
            the_first_area_counts(rest, x, y);
            match first_hit(rest, x, y) {
                Some(thing) => {
                    let i = choose|i: int|
                        {
                            &&& 0 <= i < rest.len()
                            &&& (#[trigger] rest[i]).0.covers(x, y)
                            &&& rest[i].1 == thing
                            &&& forall|j: int| 0 <= j < i ==> !(#[trigger] rest[j]).0.covers(x, y)
                        };
                    assert(rest[i] == areas[i + 1]);
                    assert forall|j: int| 0 <= j < i + 1 implies !(
                    #[trigger] areas[j]).0.covers(x, y) by {
                        if j > 0 {
                            assert(rest[j - 1] == areas[j]);
                        }
                    }
                    assert(areas[i + 1].0.covers(x, y));
                },
                None => {
                    assert forall|j: int| 0 <= j < areas.len() implies !(
                    #[trigger] areas[j]).0.covers(x, y) by {
                        if j > 0 {
                            assert(rest[j - 1] == areas[j]);
                        }
                    }
                },
            }
        }
    }
}

/// A click on an empty screen changes nothing, and neither does one beside everything that was
/// drawn.
pub proof fn a_click_beside_everything_changes_nothing(app: AppView, x: u16, y: u16)
    requires
        !(app.mode is Help),
        first_hit(app.hits.tabs, x, y) is None,
        first_hit(app.hits.buttons, x, y) is None,
        item_at(app.hits.projects, x, y) is None,
        item_at(app.hits.list, x, y) is None,
        item_at(app.hits.detail, x, y) is None,
    ensures
        clicked(app, x, y) == app,
        first_hit(no_hits().tabs, x, y) is None,
        first_hit(no_hits().buttons, x, y) is None,
        item_at(no_hits().projects, x, y) is None,
        item_at(no_hits().list, x, y) is None,
        item_at(no_hits().detail, x, y) is None,
{
}

/// While a dialog is open only its buttons can be clicked, and any click closes the help.
pub proof fn clicks_reach_the_open_dialog_only(app: AppView, x: u16, y: u16)
    ensures
        app.mode is Help ==> clicked(app, x, y) == (AppView { mode: ModeView::Normal, ..app }),
        app.mode is Confirm || app.mode is AddProject ==> match first_hit(app.hits.buttons, x, y) {
            Some(button) => clicked(app, x, y) == pressed(app, button),
            None => clicked(app, x, y) == app,
        },
{
}

/// A click on the No button only closes the dialog.
pub proof fn the_no_button_only_closes(app: AppView, x: u16, y: u16)
    requires
        app.mode is Confirm || app.mode is AddProject,
        first_hit(app.hits.buttons, x, y) == Some(Button::No),
    ensures
        clicked(app, x, y) == (AppView { mode: ModeView::Normal, ..app }),
{
}

/// A click on a tab shows it. The pane in front stays, but for a detail pane, which closes.
pub proof fn a_click_on_a_tab_shows_it(app: AppView, x: u16, y: u16, tab: Tab)
    requires
        app.mode is Normal,
        first_hit(app.hits.tabs, x, y) == Some(tab),
    ensures
        clicked(app, x, y) == (AppView {
            tab,
            focus: match app.focus {
                Focus::Projects => Focus::Projects,
                Focus::List => Focus::List,
                Focus::Detail => Focus::List,
            },
            ..app
        }),
{
}

/// A click on a project goes to the projects and selects it; below the last one nothing happens.
pub proof fn a_click_on_a_project_selects_it(app: AppView, x: u16, y: u16)
    requires
        app.mode is Normal,
        first_hit(app.hits.tabs, x, y) is None,
        item_at(app.hits.projects, x, y) is Some,
    ensures
        ({
            let index = item_at(app.hits.projects, x, y)->Some_0;
            &&& index >= app.projects.len() ==> clicked(app, x, y) == app
            &&& index < app.projects.len() ==> clicked(app, x, y) == project_selected(
                AppView { focus: Focus::Projects, ..app },
                Some(index as usize),
            )
        }),
{
}

/// Within a row of the list a click on the mark marks that row, one on the pull request jumps to it,
/// and any other one is a click on the row.
pub proof fn what_a_click_on_a_row_does(app: AppView, x: u16, y: u16)
    requires
        app.mode is Normal,
        first_hit(app.hits.tabs, x, y) is None,
        item_at(app.hits.projects, x, y) is None,
        item_at(app.hits.list, x, y) is Some,
    ensures
        ({
            let row = item_at(app.hits.list, x, y)->Some_0;
            let mark = covered(app.hits.marks, x, y);
            let pr = covered(app.hits.pr, x, y);
            &&& mark ==> clicked(app, x, y) == mark_toggled(app, row)
            &&& !mark && pr ==> clicked(app, x, y) == jumped_to_pr(app, row)
            &&& !mark && !pr ==> clicked(app, x, y) == list_row_clicked(app, row)
        }),
{
}

/// A click on a worktree row selects it and goes to the list; on the row that is selected in the
/// list it opens the detail, and with the detail open it stays there. Other rows do not change.
pub proof fn clicking_a_worktree_row(app: AppView, i: usize, index: int)
    requires
        app.project_list == Some(i),
        i < app.projects.len(),
        app.tab == Tab::Worktrees,
        app.projects[i as int].worktree_list().len() <= usize::MAX,
    ensures
        ({
            let after = list_row_clicked(app, index);
            let project = app.projects[i as int];
            let again = project.worktree_table == Some(index as usize);
            let there = AppView {
                projects: app.projects.update(
                    i as int,
                    ProjectView { worktree_table: Some(index as usize), ..project },
                ),
                ..app
            };
            &&& index < 0 || index >= project.worktree_list().len() ==> after == app
            &&& 0 <= index < project.worktree_list().len() ==> {
                &&& !again || app.focus == Focus::Projects ==> after == (AppView {
                    focus: Focus::List,
                    ..there
                })
                &&& again && app.focus == Focus::Detail ==> after == there
                &&& again && app.focus == Focus::List ==> after == (AppView {
                    focus: Focus::Detail,
                    detail_table: Some(0usize),
                    ..there
                })
            }
        }),
{
}

/// The same holds of a click on a row of the pull requests, whose files are asked for when its
/// detail opens.
pub proof fn clicking_a_pull_request_row(app: AppView, i: usize, index: int)
    requires
        app.project_list == Some(i),
        i < app.projects.len(),
        app.tab == Tab::Prs,
        app.projects[i as int].pr_list().len() <= usize::MAX,
    ensures
        ({
            let after = list_row_clicked(app, index);
            let project = app.projects[i as int];
            let again = project.pr_table == Some(index as usize);
            let there = AppView {
                projects: app.projects.update(
                    i as int,
                    ProjectView { pr_table: Some(index as usize), ..project },
                ),
                ..app
            };
            &&& index < 0 || index >= project.pr_list().len() ==> after == app
            &&& 0 <= index < project.pr_list().len() ==> {
                &&& !again || app.focus == Focus::Projects ==> after == (AppView {
                    focus: Focus::List,
                    ..there
                })
                &&& again && app.focus == Focus::Detail ==> after == there
                &&& again && app.focus == Focus::List ==> after == (AppView {
                    focus: Focus::Detail,
                    detail_table: Some(0usize),
                    ..super::files_requested(there, project.pr_list()[index].number)
                })
            }
        }),
{
    let project = app.projects[i as int];
    if 0 <= index < project.pr_list().len() {
        let there = AppView {
            projects: app.projects.update(
                i as int,
                ProjectView { pr_table: Some(index as usize), ..project },
            ),
            ..app
        };
        assert(there.projects[i as int].selected_pr() == Some(project.pr_list()[index]));
        assert(opened(AppView { focus: Focus::List, ..there }).focus == Focus::Detail);
    }
}

/// A click on a file of the detail pane selects that file and goes to the pane; below the last one
/// nothing happens.
pub proof fn a_click_on_a_file_selects_it(app: AppView, x: u16, y: u16)
    requires
        app.mode is Normal,
        first_hit(app.hits.tabs, x, y) is None,
        item_at(app.hits.projects, x, y) is None,
        item_at(app.hits.list, x, y) is None,
        item_at(app.hits.detail, x, y) is Some,
    ensures
        ({
            let index = item_at(app.hits.detail, x, y)->Some_0;
            clicked(app, x, y) == if index < app.detail_len() {
                AppView { detail_table: Some(index as usize), focus: Focus::Detail, ..app }
            } else {
                app
            }
        }),
{
}

/// The wheel moves the selection of the list under the pointer, whichever pane is in front; beside
/// the lists, and while a dialog is open, it does nothing.
pub proof fn the_wheel_moves_what_is_under_the_pointer(app: AppView, x: u16, y: u16, delta: int)
    ensures
        ({
            let after = scrolled(app, x, y, delta);
            let over = |rows: Option<Rows>| rows is Some && rows->Some_0.area.covers(x, y);
            &&& !(app.mode is Normal) ==> after == app
            &&& app.mode is Normal && over(app.hits.projects) ==> after == moved(
                app,
                Focus::Projects,
                delta,
            )
            &&& app.mode is Normal && !over(app.hits.projects) && over(app.hits.list) ==> after
                == moved(app, Focus::List, delta)
            &&& app.mode is Normal && !over(app.hits.projects) && !over(app.hits.list) && over(
                app.hits.detail,
            ) ==> after == moved(app, Focus::Detail, delta)
            &&& !over(app.hits.projects) && !over(app.hits.list) && !over(app.hits.detail)
                ==> after == app
        }),
{
}

/// A turn of the wheel is one row, down or up; a press of the left button is a click; nothing else
/// that the mouse does changes anything.
pub proof fn what_the_mouse_does(app: AppView, mouse: Mouse)
    ensures
        match mouse.kind {
            MouseKind::LeftDown => mouse_used(app, mouse) == clicked(app, mouse.column, mouse.row),
            MouseKind::ScrollDown => mouse_used(app, mouse) == scrolled(
                app,
                mouse.column,
                mouse.row,
                1,
            ),
            MouseKind::ScrollUp => mouse_used(app, mouse) == scrolled(
                app,
                mouse.column,
                mouse.row,
                -1,
            ),
            MouseKind::Other => mouse_used(app, mouse) == app,
        },
{
}

} // verus!
