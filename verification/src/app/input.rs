//! Keyboard input and the buttons of dialogs.
use vstd::prelude::*;

use super::actions::{delete_asked, sync_asked};
use super::cleanup::merged_marked;
use super::laws::{is_bound, is_idle, projects_and_jobs_kept, what_the_keys_do};
use super::plan::{branch_label, label_of, plan_sync, sync_plan};
use super::projects::{remove_asked, selected_removed};
use super::queue::{enqueued, quit_asked};
use super::state::{
    action_growth, Action, ActionView, App, AppView, Button, Focus, Mode, ModeView, PathInput,
    PathInputView, Planned, ProjectView, Request, RequestView, Skipped, Tab,
};
use super::{
    asked, moved, opened, said, selected_mark_toggled, selected_refreshed, tab_set, went_back,
    with_project,
};
use crate::gh::{PullRequest, PullRequestView};
use crate::git::{PrLink, PrState};
use crate::text::{decimal, decimal_of};

verus! {

// ---------------------------------------------------------------------------------------------
// Keys
// ---------------------------------------------------------------------------------------------

/// A key of the keyboard.
#[derive(Debug, Clone, Copy, PartialEq, Eq, Structural)]
pub enum KeyCode {
    Char(char),
    Enter,
    Esc,
    Backspace,
    Tab,
    BackTab,
    Up,
    Down,
    Left,
    Right,
    /// Any other key.
    Other,
}

/// A key that was pressed, with or without Ctrl.
#[derive(Debug, Clone, Copy, PartialEq, Eq, Structural)]
pub struct Key {
    pub code: KeyCode,
    pub control: bool,
}

// ---------------------------------------------------------------------------------------------
// Jumping to a pull request
// ---------------------------------------------------------------------------------------------

/// Row of the pull request with this number.
pub open spec fn pr_row(prs: Seq<PullRequestView>, number: u64) -> Option<int>
    decreases prs.len(),
{
    if prs.len() == 0 {
        None
    } else if prs[0].number == number {
        Some(0int)
    } else {
        match pr_row(prs.drop_first(), number) {
            Some(i) => Some(i + 1),
            None => None,
        }
    }
}

/// Why a pull request is not in the list of open ones.
pub open spec fn unlisted_message(number: u64, state: PrState) -> Seq<char> {
    "PR #"@ + decimal(number as nat) + match state {
        PrState::Merged => " is merged; the Pull requests tab lists open PRs."@,
        PrState::Closed => " is closed; the Pull requests tab lists open PRs."@,
        _ => " is not in the list yet; press r to refresh."@,
    }
}

/// The pull request of worktree row `index` is selected in its tab, or its absence is explained.
pub open spec fn jumped_to_pr(app: AppView, index: int) -> AppView {
    match app.selected_project() {
        None => app,
        Some(project) => if !(0 <= index < project.worktree_list().len()) {
            app
        } else {
            let info = project.worktree_list()[index];
            match info.pr {
                PrLink::Unknown => said(app, label_of(info) + " has no known PR."@),
                PrLink::Absent => said(app, label_of(info) + " has no PR."@),
                PrLink::Pr { number, state } => match pr_row(project.pr_list(), number) {
                    Some(row) => AppView {
                        tab: Tab::Prs,
                        focus: Focus::List,
                        ..with_project(
                            app,
                            app.project_list->Some_0 as int,
                            ProjectView { pr_table: Some(row as usize), ..project },
                        )
                    },
                    None => said(app, unlisted_message(number, state)),
                },
            }
        },
    }
}

/// The pull request of the selected worktree row is selected in its tab.
pub open spec fn selected_jumped_to_pr(app: AppView) -> AppView {
    if app.tab != Tab::Worktrees || app.focus == Focus::Projects {
        said(app, "Select a worktree row first (l to open the list)."@)
    } else {
        match app.selected_project() {
            Some(project) => match project.worktree_table {
                Some(index) => jumped_to_pr(app, index as int),
                None => app,
            },
            None => app,
        }
    }
}

// ---------------------------------------------------------------------------------------------
// Dialogs
// ---------------------------------------------------------------------------------------------

/// What "yes" does.
pub open spec fn acted(app: AppView, action: ActionView) -> AppView {
    match action {
        ActionView::RemoveProject => selected_removed(app),
        ActionView::Quit => AppView { should_quit: true, ..app },
        ActionView::Queue { project, planned, skipped } => enqueued(
            app,
            project,
            planned,
            skipped,
        ),
        ActionView::Sync(job) => match app.selected_project() {
            Some(project) => enqueued(
                app,
                project.path,
                seq![sync_plan(job.worktree, job.branch, job.base)],
                Seq::empty(),
            ),
            None => app,
        },
    }
}

/// The open dialog is accepted (`Yes`) or dismissed (`No`); either way it closes.
pub open spec fn pressed(app: AppView, button: Button) -> AppView {
    let closed = AppView { mode: ModeView::Normal, ..app };
    match app.mode {
        ModeView::AddProject(input) => if button == Button::Yes {
            asked(closed, RequestView::AddProject(input))
        } else {
            closed
        },
        ModeView::Confirm(confirm) => if button == Button::Yes {
            acted(closed, confirm.action)
        } else {
            closed
        },
        _ => closed,
    }
}

/// The path that is being typed, after a key.
pub open spec fn typed(input: PathInputView, key: Key) -> PathInputView {
    match key.code {
        KeyCode::Backspace => PathInputView {
            text: if input.text.len() == 0 {
                input.text
            } else {
                input.text.drop_last()
            },
            ..input
        },
        KeyCode::Char(c) => if c == 'u' && key.control {
            PathInputView { text: Seq::empty(), ..input }
        } else {
            PathInputView { text: input.text.push(c), ..input }
        },
        _ => input,
    }
}

// ---------------------------------------------------------------------------------------------
// Key presses
// ---------------------------------------------------------------------------------------------

/// The tab that is not shown.
pub open spec fn other_tab(tab: Tab) -> Tab {
    match tab {
        Tab::Worktrees => Tab::Prs,
        Tab::Prs => Tab::Worktrees,
    }
}

/// A letter while no dialog is open.
pub open spec fn letter_pressed(app: AppView, c: char) -> AppView {
    if c == 'q' {
        quit_asked(app)
    } else if c == '?' {
        AppView { mode: ModeView::Help, ..app }
    } else if c == 'a' {
        AppView {
            mode: ModeView::AddProject(PathInputView { text: Seq::empty(), error: None }),
            ..app
        }
    } else if c == 'd' {
        remove_asked(app)
    } else if c == 'x' {
        delete_asked(app)
    } else if c == 's' {
        sync_asked(app)
    } else if c == 'p' {
        selected_jumped_to_pr(app)
    } else if c == ' ' {
        selected_mark_toggled(app)
    } else if c == 'M' {
        merged_marked(app)
    } else if c == 'Q' {
        AppView { show_queue: !app.show_queue, ..app }
    } else if c == 'r' {
        selected_refreshed(app)
    } else if c == 'j' {
        moved(app, app.focus, 1)
    } else if c == 'k' {
        moved(app, app.focus, -1)
    } else if c == 'l' {
        opened(app)
    } else if c == 'h' {
        went_back(app)
    } else {
        app
    }
}

/// A key while no dialog is open.
pub open spec fn normal_key_pressed(app: AppView, code: KeyCode) -> AppView {
    match code {
        KeyCode::Char(c) => letter_pressed(app, c),
        KeyCode::Tab | KeyCode::BackTab => tab_set(app, other_tab(app.tab)),
        KeyCode::Down => moved(app, app.focus, 1),
        KeyCode::Up => moved(app, app.focus, -1),
        KeyCode::Enter | KeyCode::Right => opened(app),
        KeyCode::Esc | KeyCode::Left => went_back(app),
        _ => app,
    }
}

/// A key while a yes/no dialog is open.
pub open spec fn confirm_key_pressed(app: AppView, code: KeyCode) -> AppView {
    match code {
        KeyCode::Enter => pressed(app, Button::Yes),
        KeyCode::Esc => pressed(app, Button::No),
        KeyCode::Char(c) => if c == 'y' || c == 'Y' {
            pressed(app, Button::Yes)
        } else if c == 'n' || c == 'N' || c == 'q' {
            pressed(app, Button::No)
        } else {
            app
        },
        _ => app,
    }
}

/// The application after a key. Ctrl+C asks to quit wherever it is pressed, and any key closes
/// the help.
pub open spec fn key_pressed(app: AppView, key: Key) -> AppView {
    if key.control && key.code == KeyCode::Char('c') {
        quit_asked(app)
    } else {
        match app.mode {
            ModeView::Normal => normal_key_pressed(app, key.code),
            ModeView::Help => AppView { mode: ModeView::Normal, ..app },
            ModeView::Confirm(_) => confirm_key_pressed(app, key.code),
            ModeView::AddProject(input) => match key.code {
                KeyCode::Esc => pressed(app, Button::No),
                KeyCode::Enter => pressed(app, Button::Yes),
                _ => AppView { mode: ModeView::AddProject(typed(input, key)), ..app },
            },
        }
    }
}

fn find_pr(prs: &[PullRequest], number: u64) -> (row: Option<usize>)
    ensures
        match row {
            Some(i) => i < prs@.len() && pr_row(prs.deep_view(), number) == Some(i as int),
            None => pr_row(prs.deep_view(), number) is None,
        },
{
    let ghost all = prs.deep_view();
    let mut i: usize = 0;
    proof {
        assert(all.skip(0) =~= all);
    }
    while i < prs.len()
        invariant
            i <= prs@.len(),
            all == prs.deep_view(),
            pr_row(all, number) == match pr_row(all.skip(i as int), number) {
                Some(j) => Some(i + j),
                None => None,
            },
        decreases prs@.len() - i,
    {
        proof {
            assert(all.skip(i as int)[0] == prs@[i as int].deep_view());
            assert(all.skip(i as int).drop_first() =~= all.skip(i + 1));
        }
        if prs[i].number == number {
            return Some(i);
        }
        i = i + 1;
    }
    None
}

impl App {
    /// Selects the pull request of worktree row `index` in its tab.
    pub(crate) fn jump_to_pr(&mut self, index: usize)
        requires
            old(self).deep_view().wf(),
        ensures
            final(self).deep_view() == jumped_to_pr(old(self).deep_view(), index as int),
            final(self).deep_view().wf(),
    {
        let ghost before = self.deep_view();
        let i = match self.project_list {
            Some(i) => i,
            None => {
                return ;
            },
        };
        let list = self.projects[i].worktree_list();
        if index >= list.len() {
            return ;
        }
        let info = &list[index];
        proof {
            assert(before.projects[i as int].worktree_list()[index as int] == info.deep_view());
        }
        match info.pr {
            PrLink::Unknown => {
                let message = branch_label(info).concat(" has no known PR.");
                self.set_status(message);
            },
            PrLink::Absent => {
                let message = branch_label(info).concat(" has no PR.");
                self.set_status(message);
            },
            PrLink::Pr { number, state } => match find_pr(self.projects[i].pr_list(), number) {
                Some(row) => {
                    self.projects[i].pr_table = Some(row);
                    self.tab = Tab::Prs;
                    self.focus = Focus::List;
                    proof {
                        let after = jumped_to_pr(before, index as int);
                        assert(self.projects@[i as int].deep_view()
                            =~= after.projects[i as int]);
                        assert(self.deep_view().projects =~= after.projects);
                        assert(self.deep_view() =~= after);
                    }
                },
                None => {
                    let message = "PR #".to_owned().concat(&decimal_of(number)).concat(
                        match state {
                            PrState::Merged => {
                                " is merged; the Pull requests tab lists open PRs."
                            },
                            PrState::Closed => {
                                " is closed; the Pull requests tab lists open PRs."
                            },
                            _ => " is not in the list yet; press r to refresh.",
                        },
                    );
                    self.set_status(message);
                },
            },
        }
    }

    fn jump_to_selected_pr(&mut self)
        requires
            old(self).deep_view().wf(),
        ensures
            final(self).deep_view() == selected_jumped_to_pr(old(self).deep_view()),
            final(self).deep_view().wf(),
    {
        if self.tab != Tab::Worktrees || self.focus == Focus::Projects {
            self.set_status("Select a worktree row first (l to open the list).".to_owned());
            return ;
        }
        let row = match self.selected_project() {
            Some(project) => project.worktree_table,
            None => None,
        };
        if let Some(index) = row {
            self.jump_to_pr(index);
        }
    }

    /// Does what "yes" stands for.
    pub(crate) fn run_action(&mut self, action: Action)
        requires
            old(self).deep_view().wf(),
            old(self).deep_view().can_refresh(),
            old(self).deep_view().next_job + action_growth(action.deep_view()) <= u64::MAX,
        ensures
            final(self).deep_view() == acted(old(self).deep_view(), action.deep_view()),
            final(self).deep_view().wf(),
    {
        match action {
            Action::RemoveProject => {
                self.remove_selected();
            },
            Action::Quit => {
                self.should_quit = true;
            },
            Action::Queue { project, planned, skipped } => {
                self.enqueue(&project, planned, skipped);
            },
            Action::Sync(job) => {
                let path = match self.selected_project() {
                    Some(project) => project.path.clone(),
                    None => {
                        return ;
                    },
                };
                let ghost wanted = sync_plan(job.worktree@, job.branch@, job.base@);
                let planned: Vec<Planned> = vec![plan_sync(&job.worktree, job.branch, &job.base)];
                let skipped: Vec<Skipped> = Vec::new();
                proof {
                    assert(planned.deep_view() =~= seq![wanted]);
                    assert(skipped.deep_view() =~= Seq::empty());
                }
                self.enqueue(&path, planned, skipped);
            },
        }
    }

    /// Accepts (`Yes`) or dismisses (`No`) the open dialog.
    pub(crate) fn press(&mut self, button: Button)
        requires
            old(self).deep_view().wf(),
            old(self).deep_view().room(),
        ensures
            final(self).deep_view() == pressed(old(self).deep_view(), button),
            final(self).deep_view().wf(),
    {
        let ghost before = self.deep_view();
        let mut mode = Mode::Normal;
        std::mem::swap(&mut self.mode, &mut mode);
        match mode {
            Mode::AddProject(input) => {
                if button == Button::Yes {
                    self.requests.push(Request::AddProject(input));
                    proof {
                        assert(self.deep_view().requests =~= pressed(before, button).requests);
                    }
                }
            },
            Mode::Confirm(confirm) => {
                if button == Button::Yes {
                    self.run_action(confirm.action);
                }
            },
            _ => {},
        }
    }

    fn on_letter(&mut self, c: char)
        requires
            old(self).deep_view().wf(),
            old(self).deep_view().room(),
        ensures
            final(self).deep_view() == letter_pressed(old(self).deep_view(), c),
            final(self).deep_view().wf(),
    {
        if c == 'q' {
            self.ask_quit();
        } else if c == '?' {
            self.mode = Mode::Help;
        } else if c == 'a' {
            self.mode = Mode::AddProject(PathInput { text: String::new(), error: None });
        } else if c == 'd' {
            self.ask_remove_project();
        } else if c == 'x' {
            self.ask_delete_worktrees();
        } else if c == 's' {
            self.ask_sync();
        } else if c == 'p' {
            self.jump_to_selected_pr();
        } else if c == ' ' {
            self.toggle_mark_selected();
        } else if c == 'M' {
            self.mark_merged();
        } else if c == 'Q' {
            self.show_queue = !self.show_queue;
        } else if c == 'r' {
            self.refresh_selected();
        } else if c == 'j' {
            self.move_in(self.focus, 1);
        } else if c == 'k' {
            self.move_in(self.focus, -1);
        } else if c == 'l' {
            self.open();
        } else if c == 'h' {
            self.back();
        }
    }

    /// Takes in a key while no dialog is open. No key adds or removes a project or changes a job.
    pub fn on_normal_key(&mut self, code: KeyCode)
        requires
            old(self).deep_view().wf(),
            old(self).deep_view().room(),
        ensures
            final(self).deep_view() == normal_key_pressed(old(self).deep_view(), code),
            projects_and_jobs_kept(old(self).deep_view(), final(self).deep_view()),
            (code == KeyCode::Char('q') && !old(self).deep_view().should_quit)
                ==> final(self).deep_view().should_quit == is_idle(old(self).deep_view()),
            !is_bound(code) ==> final(self).deep_view() == old(self).deep_view(),
            final(self).deep_view().wf(),
    {
        proof {
            what_the_keys_do(self.deep_view(), code);
        }
        match code {
            KeyCode::Char(c) => {
                self.on_letter(c);
            },
            KeyCode::Tab | KeyCode::BackTab => {
                let tab = match self.tab {
                    Tab::Worktrees => Tab::Prs,
                    Tab::Prs => Tab::Worktrees,
                };
                self.set_tab(tab);
            },
            KeyCode::Down => {
                self.move_in(self.focus, 1);
            },
            KeyCode::Up => {
                self.move_in(self.focus, -1);
            },
            KeyCode::Enter | KeyCode::Right => {
                self.open();
            },
            KeyCode::Esc | KeyCode::Left => {
                self.back();
            },
            _ => {},
        }
    }

    fn on_confirm_key(&mut self, code: KeyCode)
        requires
            old(self).deep_view().wf(),
            old(self).deep_view().room(),
        ensures
            final(self).deep_view() == confirm_key_pressed(old(self).deep_view(), code),
            final(self).deep_view().wf(),
    {
        match code {
            KeyCode::Enter => {
                self.press(Button::Yes);
            },
            KeyCode::Esc => {
                self.press(Button::No);
            },
            KeyCode::Char(c) => {
                if c == 'y' || c == 'Y' {
                    self.press(Button::Yes);
                } else if c == 'n' || c == 'N' || c == 'q' {
                    self.press(Button::No);
                }
            },
            _ => {},
        }
    }

    /// Takes in a key that was pressed.
    #[verifier::rlimit(30)]
    pub fn on_key(&mut self, key: Key)
        requires
            old(self).deep_view().wf(),
            old(self).deep_view().room(),
        ensures
            final(self).deep_view() == key_pressed(old(self).deep_view(), key),
            final(self).deep_view().wf(),
    {
        if key.control && key.code == KeyCode::Char('c') {
            self.ask_quit();
            return ;
        }
        match &mut self.mode {
            Mode::Normal => {
                self.on_normal_key(key.code);
            },
            Mode::Help => {
                self.mode = Mode::Normal;
            },
            Mode::Confirm(_) => {
                self.on_confirm_key(key.code);
            },
            Mode::AddProject(input) => match key.code {
                KeyCode::Esc => {
                    self.press(Button::No);
                },
                KeyCode::Enter => {
                    self.press(Button::Yes);
                },
                KeyCode::Backspace => {
                    let _ = input.text.pop();
                },
                KeyCode::Char(c) => {
                    if c == 'u' && key.control {
                        input.text.clear();
                    } else {
                        input.text.push(c);
                    }
                },
                _ => {},
            },
        }
    }
}

} // verus!
