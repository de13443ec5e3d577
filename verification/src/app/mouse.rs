//! Mouse input. The UI records where it drew each clickable thing (`Hits`) and clicks are
//! matched against those rectangles.
use vstd::prelude::*;

use super::input::{jumped_to_pr, pressed};
use super::laws::a_click_on_a_mark_toggles_it;
use super::state::{
    rows_wf, App, AppView, Focus, Hits, HitsView, Mode, ModeView, ProjectView, Rect, Rows, Tab,
};
use super::{mark_toggled, moved, opened, project_selected, tab_set, with_project};
use crate::paths::components;

verus! {

/// What the mouse did.
#[derive(Debug, Clone, Copy, PartialEq, Eq, Structural)]
pub enum MouseKind {
    /// The left button was pressed.
    LeftDown,
    ScrollDown,
    ScrollUp,
    /// Anything else.
    Other,
}

/// A mouse event and the cell under the pointer.
#[derive(Debug, Clone, Copy, PartialEq, Eq, Structural)]
pub struct Mouse {
    pub kind: MouseKind,
    pub column: u16,
    pub row: u16,
}

// ---------------------------------------------------------------------------------------------
// Areas
// ---------------------------------------------------------------------------------------------

/// Nothing on the screen can be clicked.
pub open spec fn no_hits() -> HitsView {
    HitsView {
        projects: None,
        tabs: Seq::empty(),
        list: None,
        marks: None,
        pr: None,
        detail: None,
        buttons: Seq::empty(),
    }
}

/// Nothing on the screen can be clicked.
pub fn empty_hits() -> (hits: Hits)
    ensures
        hits.deep_view() == no_hits(),
        hits.deep_view().wf(),
{
    Hits {
        projects: None,
        tabs: Vec::new(),
        list: None,
        marks: None,
        pr: None,
        detail: None,
        buttons: Vec::new(),
    }
}

/// Where a stretch of `length` cells from `start` ends; the screen ends at the last cell number.
pub open spec fn stretch_end(start: u16, length: u16) -> int {
    if start + length > u16::MAX {
        u16::MAX as int
    } else {
        start + length
    }
}

impl Rect {
    /// The cell lies in the area.
    pub open spec fn covers(self, x: u16, y: u16) -> bool {
        self.x <= x < stretch_end(self.x, self.width) && self.y <= y < stretch_end(
            self.y,
            self.height,
        )
    }

    pub fn contains(&self, x: u16, y: u16) -> (inside: bool)
        ensures
            inside == self.covers(x, y),
    {
        self.x <= x && x < self.x.saturating_add(self.width) && self.y <= y && y
            < self.y.saturating_add(self.height)
    }
}

/// The cell lies in the area, if there is one.
pub open spec fn covered(area: Option<Rect>, x: u16, y: u16) -> bool {
    area matches Some(area) && area.covers(x, y)
}

/// The item that the rows show at a cell.
pub open spec fn item_at(rows: Option<Rows>, x: u16, y: u16) -> Option<int> {
    match rows {
        Some(rows) => if rows.area.covers(x, y) {
            Some(rows.offset + (y - rows.area.y) / rows.row_height as int)
        } else {
            None
        },
        None => None,
    }
}

/// What the first area that covers a cell stands for.
pub open spec fn first_hit<T>(areas: Seq<(Rect, T)>, x: u16, y: u16) -> Option<T>
    decreases areas.len(),
{
    if areas.len() == 0 {
        None
    } else if areas[0].0.covers(x, y) {
        Some(areas[0].1)
    } else {
        first_hit(areas.drop_first(), x, y)
    }
}

fn hit<T: Copy>(areas: &Vec<(Rect, T)>, x: u16, y: u16) -> (found: Option<T>)
    ensures
        found == first_hit(areas@, x, y),
{
    let mut i: usize = 0;
    proof {
        assert(areas@.skip(0) =~= areas@);
    }
    while i < areas.len()
        invariant
            i <= areas@.len(),
            first_hit(areas@.skip(i as int), x, y) == first_hit(areas@, x, y),
        decreases areas@.len() - i,
    {
        proof {
            assert(areas@.skip(i as int)[0] == areas@[i as int]);
            assert(areas@.skip(i as int).drop_first() =~= areas@.skip(i + 1));
        }
        if areas[i].0.contains(x, y) {
            return Some(areas[i].1);
        }
        i = i + 1;
    }
    None
}

fn is_over(area: &Option<Rect>, x: u16, y: u16) -> (over: bool)
    ensures
        over == covered(*area, x, y),
{
    match area {
        Some(area) => area.contains(x, y),
        None => false,
    }
}

impl Rows {
    /// The item that the rows show at a cell.
    pub fn index_at(&self, x: u16, y: u16) -> (index: Option<usize>)
        requires
            rows_wf(Some(*self)),
        ensures
            match index {
                Some(i) => item_at(Some(*self), x, y) == Some(i as int),
                None => item_at(Some(*self), x, y) is None,
            },
    {
        if self.area.contains(x, y) {
            let down = (y - self.area.y) / self.row_height;
            Some(self.offset + down as usize)
        } else {
            None
        }
    }
}

fn index_of(rows: &Option<Rows>, x: u16, y: u16) -> (index: Option<usize>)
    requires
        rows_wf(*rows),
    ensures
        match index {
            Some(i) => item_at(*rows, x, y) == Some(i as int),
            None => item_at(*rows, x, y) is None,
        },
{
    match rows {
        Some(rows) => rows.index_at(x, y),
        None => None,
    }
}

// ---------------------------------------------------------------------------------------------
// Clicks
// ---------------------------------------------------------------------------------------------

/// A row of the list is selected; a click on the row that is selected already opens its detail.
pub open spec fn list_row_clicked(app: AppView, index: int) -> AppView {
    match app.selected_project() {
        None => app,
        Some(project) => {
            let (len, current) = match app.tab {
                Tab::Worktrees => (project.worktree_list().len(), project.worktree_table),
                Tab::Prs => (project.pr_list().len(), project.pr_table),
            };
            if !(0 <= index < len) {
                app
            } else {
                let selected = with_project(
                    app,
                    app.project_list->Some_0 as int,
                    match app.tab {
                        Tab::Worktrees => ProjectView {
                            worktree_table: Some(index as usize),
                            ..project
                        },
                        Tab::Prs => ProjectView { pr_table: Some(index as usize), ..project },
                    },
                );
                if current == Some(index as usize) && app.focus == Focus::List {
                    opened(selected)
                } else if current == Some(index as usize) && app.focus == Focus::Detail {
                    selected
                } else {
                    AppView { focus: Focus::List, ..selected }
                }
            }
        },
    }
}

/// A click while no dialog is open.
pub open spec fn screen_clicked(app: AppView, x: u16, y: u16) -> AppView {
    let hits = app.hits;
    let row = item_at(hits.list, x, y);
    if first_hit(hits.tabs, x, y) is Some {
        tab_set(app, first_hit(hits.tabs, x, y)->Some_0)
    } else if item_at(hits.projects, x, y) is Some {
        let index = item_at(hits.projects, x, y)->Some_0;
        if index < app.projects.len() {
            project_selected(
                AppView { focus: Focus::Projects, ..app },
                Some(index as usize),
            )
        } else {
            app
        }
    } else if covered(hits.marks, x, y) && row is Some {
        mark_toggled(app, row->Some_0)
    } else if covered(hits.pr, x, y) && row is Some {
        jumped_to_pr(app, row->Some_0)
    } else if row is Some {
        list_row_clicked(app, row->Some_0)
    } else {
        match item_at(hits.detail, x, y) {
            Some(index) => if index < app.detail_len() {
                AppView { detail_table: Some(index as usize), focus: Focus::Detail, ..app }
            } else {
                app
            },
            None => app,
        }
    }
}

/// A click: it closes the help, presses a button of a dialog, or goes to the screen.
pub open spec fn clicked(app: AppView, x: u16, y: u16) -> AppView {
    match app.mode {
        ModeView::Normal => screen_clicked(app, x, y),
        ModeView::Help => AppView { mode: ModeView::Normal, ..app },
        _ => match first_hit(app.hits.buttons, x, y) {
            Some(button) => pressed(app, button),
            None => app,
        },
    }
}

/// The worktree row whose mark a click hits: while no dialog is open, in the mark column beside a
/// row of the list, and in no tab and no project.
pub open spec fn mark_clicked(app: AppView, x: u16, y: u16) -> Option<int> {
    match (app.selected_project(), item_at(app.hits.list, x, y)) {
        (Some(project), Some(row)) => if app.mode is Normal && covered(app.hits.marks, x, y)
            && first_hit(app.hits.tabs, x, y) is None && item_at(app.hits.projects, x, y) is None
            && 0 <= row < project.worktree_list().len() {
            Some(row)
        } else {
            None
        },
        _ => None,
    }
}

/// Only the mark of worktree `row` of the selected project has changed.
pub open spec fn only_mark_toggled(before: AppView, after: AppView, row: int) -> bool {
    let project = before.selected_project()->Some_0;
    let key = components(project.worktree_list()[row].worktree.path);
    let marked = after.selected_project()->Some_0.marked;
    &&& after == with_project(
        before,
        before.project_list->Some_0 as int,
        ProjectView { marked, ..project },
    )
    &&& marked.contains(key) == !project.marked.contains(key)
    &&& forall|other: Seq<Seq<char>>|
        other != key ==> #[trigger] marked.contains(other) == project.marked.contains(other)
}

/// The area of the rows covers the cell.
pub open spec fn over(rows: Option<Rows>, x: u16, y: u16) -> bool {
    rows matches Some(rows) && rows.area.covers(x, y)
}

/// The wheel moves the selection of whichever list is under the pointer, unless a dialog is open.
pub open spec fn scrolled(app: AppView, x: u16, y: u16, delta: int) -> AppView {
    if !(app.mode is Normal) {
        app
    } else if over(app.hits.projects, x, y) {
        moved(app, Focus::Projects, delta)
    } else if over(app.hits.list, x, y) {
        moved(app, Focus::List, delta)
    } else if over(app.hits.detail, x, y) {
        moved(app, Focus::Detail, delta)
    } else {
        app
    }
}

/// The application after a mouse event.
pub open spec fn mouse_used(app: AppView, mouse: Mouse) -> AppView {
    match mouse.kind {
        MouseKind::LeftDown => clicked(app, mouse.column, mouse.row),
        MouseKind::ScrollDown => scrolled(app, mouse.column, mouse.row, 1),
        MouseKind::ScrollUp => scrolled(app, mouse.column, mouse.row, -1),
        MouseKind::Other => app,
    }
}

fn is_over_rows(rows: &Option<Rows>, x: u16, y: u16) -> (is: bool)
    ensures
        is == over(*rows, x, y),
{
    match rows {
        Some(rows) => rows.area.contains(x, y),
        None => false,
    }
}

impl App {
    /// Records where the last frame drew what can be clicked.
    pub fn set_hits(&mut self, hits: Hits)
        requires
            old(self).deep_view().wf(),
            hits.deep_view().wf(),
        ensures
            final(self).deep_view() == (AppView {
                hits: hits.deep_view(),
                ..old(self).deep_view()
            }),
            final(self).deep_view().wf(),
    {
        self.hits = hits;
    }

    /// Takes in a mouse event.
    pub fn on_mouse(&mut self, mouse: Mouse)
        requires
            old(self).deep_view().wf(),
            old(self).deep_view().room(),
        ensures
            final(self).deep_view() == mouse_used(old(self).deep_view(), mouse),
            final(self).deep_view().wf(),
    {
        match mouse.kind {
            MouseKind::LeftDown => {
                self.on_click(mouse.column, mouse.row);
            },
            MouseKind::ScrollDown => {
                self.on_scroll(mouse.column, mouse.row, 1);
            },
            MouseKind::ScrollUp => {
                self.on_scroll(mouse.column, mouse.row, -1);
            },
            MouseKind::Other => {},
        }
    }

    /// Takes in a click with the left button. One on the mark of a worktree row changes that mark
    /// and nothing else, and the same click again restores everything.
    pub fn on_click(&mut self, x: u16, y: u16)
        requires
            old(self).deep_view().wf(),
            old(self).deep_view().room(),
        ensures
            final(self).deep_view() == clicked(old(self).deep_view(), x, y),
            mark_clicked(old(self).deep_view(), x, y) matches Some(row) ==> only_mark_toggled(
                old(self).deep_view(),
                final(self).deep_view(),
                row,
            ) && clicked(final(self).deep_view(), x, y) == old(self).deep_view(),
            final(self).deep_view().wf(),
    {
        proof {
            if mark_clicked(self.deep_view(), x, y) is Some {
                a_click_on_a_mark_toggles_it(self.deep_view(), x, y);
            }
        }
        match &self.mode {
            Mode::Normal => {
                self.click_screen(x, y);
            },
            Mode::Help => {
                self.mode = Mode::Normal;
            },
            _ => {
                if let Some(button) = hit(&self.hits.buttons, x, y) {
                    self.press(button);
                }
            },
        }
    }

    fn click_screen(&mut self, x: u16, y: u16)
        requires
            old(self).deep_view().wf(),
            old(self).deep_view().room(),
        ensures
            final(self).deep_view() == screen_clicked(old(self).deep_view(), x, y),
            final(self).deep_view().wf(),
    {
        if let Some(tab) = hit(&self.hits.tabs, x, y) {
            self.set_tab(tab);
            return ;
        }
        if let Some(index) = index_of(&self.hits.projects, x, y) {
            if index < self.projects.len() {
                self.focus = Focus::Projects;
                self.select_project(Some(index));
            }
            return ;
        }
        if let Some(index) = index_of(&self.hits.list, x, y) {
            if is_over(&self.hits.marks, x, y) {
                self.toggle_mark(index);
            } else if is_over(&self.hits.pr, x, y) {
                self.jump_to_pr(index);
            } else {
                self.click_list_row(index);
            }
            return ;
        }
        if let Some(index) = index_of(&self.hits.detail, x, y) {
            if index < self.detail_len() {
                self.detail_table = Some(index);
                self.focus = Focus::Detail;
            }
        }
    }

    /// Selects a row; clicking the already selected row opens its detail.
    fn click_list_row(&mut self, index: usize)
        requires
            old(self).deep_view().wf(),
        ensures
            final(self).deep_view() == list_row_clicked(old(self).deep_view(), index as int),
            final(self).deep_view().wf(),
    {
        let ghost before = self.deep_view();
        let i = match self.project_list {
            Some(i) => i,
            None => {
                return ;
            },
        };
        let (len, current) = match self.tab {
            Tab::Worktrees => (
                self.projects[i].worktree_list().len(),
                self.projects[i].worktree_table,
            ),
            Tab::Prs => (self.projects[i].pr_list().len(), self.projects[i].pr_table),
        };
        if index >= len {
            return ;
        }
        let already_selected = current == Some(index);
        match self.tab {
            Tab::Worktrees => {
                self.projects[i].worktree_table = Some(index);
            },
            Tab::Prs => {
                self.projects[i].pr_table = Some(index);
            },
        }
        proof {
            let project = before.projects[i as int];
            let chosen = match before.tab {
                Tab::Worktrees => ProjectView { worktree_table: Some(index), ..project },
                Tab::Prs => ProjectView { pr_table: Some(index), ..project },
            };
            assert(self.projects@[i as int].deep_view() =~= chosen);
            assert(self.deep_view().projects =~= before.projects.update(i as int, chosen));
            assert(self.deep_view() =~= with_project(before, i as int, chosen));
        }
        if already_selected && self.focus == Focus::List {
            self.open();
        } else if !(already_selected && self.focus == Focus::Detail) {
            self.focus = Focus::List;
        }
    }

    /// The wheel moves the selection of whichever list is under the pointer.
    fn on_scroll(&mut self, x: u16, y: u16, delta: isize)
        requires
            old(self).deep_view().wf(),
            old(self).deep_view().can_refresh(),
        ensures
            final(self).deep_view() == scrolled(old(self).deep_view(), x, y, delta as int),
            final(self).deep_view().wf(),
    {
        match &self.mode {
            Mode::Normal => {},
            _ => {
                return ;
            },
        }
        if is_over_rows(&self.hits.projects, x, y) {
            self.move_in(Focus::Projects, delta);
        } else if is_over_rows(&self.hits.list, x, y) {
            self.move_in(Focus::List, delta);
        } else if is_over_rows(&self.hits.detail, x, y) {
            self.move_in(Focus::Detail, delta);
        }
    }
}

} // verus!
