//! The footer, the dialogs, the help and the queue panel.
use vstd::prelude::*;

use super::tables::plain;
use super::{painted, piece, Paint, Piece, PieceView};
use crate::app::shown_status;
use crate::app::state::{
    App, AppView, Confirm, ConfirmView, Focus, JobEntry, JobEntryView, JobState, JobStateView,
    PathInput, PathInputView, Tone,
};
use crate::text::{chars_of, contents, lines, lines_of, string_of};

verus! {

// ---------------------------------------------------------------------------------------------
// Footer
// ---------------------------------------------------------------------------------------------

/// The keys that work in a pane.
pub open spec fn hints(focus: Focus) -> Seq<char> {
    match focus {
        Focus::Projects =>
            "j/k move · l/enter open · tab worktrees/PRs · a add · d remove · r refresh · ? help · q quit"@,
        Focus::List =>
            "j/k move · l/enter files · h/esc back · tab worktrees/PRs · r refresh · ? help · q quit"@,
        Focus::Detail =>
            "j/k move · h/esc back · tab worktrees/PRs · r refresh · ? help · q quit"@,
    }
}

/// The last line of the screen: the status message, or else the keys that work.
pub open spec fn footer_piece(app: AppView) -> PieceView {
    match shown_status(app) {
        Some(message) => piece(message, Paint::Warning),
        None => piece(hints(app.focus), Paint::Muted),
    }
}

impl App {
    /// The last line of the screen: the status message, or else the keys that work.
    pub fn footer(&self) -> (line: Piece)
        ensures
            line.deep_view() == footer_piece(self.deep_view()),
    {
        match self.status() {
            Some(message) => painted(message.to_owned(), Paint::Warning),
            None => painted(
                match self.focus {
                    Focus::Projects =>
                        "j/k move · l/enter open · tab worktrees/PRs · a add · d remove · r refresh · ? help · q quit".to_owned(),
                    Focus::List =>
                        "j/k move · l/enter files · h/esc back · tab worktrees/PRs · r refresh · ? help · q quit".to_owned(),
                    Focus::Detail =>
                        "j/k move · h/esc back · tab worktrees/PRs · r refresh · ? help · q quit".to_owned(),
                },
                Paint::Muted,
            ),
        }
    }
}

// ---------------------------------------------------------------------------------------------
// Adding a project
// ---------------------------------------------------------------------------------------------

/// The lines of the dialog that asks for a path.
pub open spec fn input_lines(input: PathInputView) -> Seq<Seq<PieceView>> {
    seq![
        seq![plain("Path to a local git repository (~ is expanded):"@)],
        seq![piece("> "@, Paint::Accent), plain(input.text)],
        seq![
            piece(
                match input.error {
                    Some(error) => error,
                    None => Seq::empty(),
                },
                Paint::Deleted,
            ),
        ],
        seq![piece("enter add · esc cancel · ctrl+u clear"@, Paint::Muted)],
    ]
}

/// The lines of the dialog that asks for a path.
pub fn add_project_lines(input: &PathInput) -> (shown: Vec<Vec<Piece>>)
    ensures
        shown.deep_view() == input_lines(input.deep_view()),
{
    let error = match &input.error {
        Some(error) => error.clone(),
        None => String::new(),
    };
    let asks: Vec<Piece> = vec![
        painted("Path to a local git repository (~ is expanded):".to_owned(), Paint::Plain),
    ];
    let typed: Vec<Piece> = vec![
        painted("> ".to_owned(), Paint::Accent),
        painted(input.text.clone(), Paint::Plain),
    ];
    let wrong: Vec<Piece> = vec![painted(error, Paint::Deleted)];
    let keys: Vec<Piece> = vec![
        painted("enter add · esc cancel · ctrl+u clear".to_owned(), Paint::Muted),
    ];
    proof {
        let wanted = input_lines(input.deep_view());
        assert(asks.deep_view() =~= wanted[0]);
        assert(typed.deep_view() =~= wanted[1]);
        assert(wrong.deep_view() =~= wanted[2]);
        assert(keys.deep_view() =~= wanted[3]);
    }
    vec![asks, typed, wrong, keys]
}

/// The column of the cursor behind what was typed, but within the dialog, which spans the
/// columns from `left` to `right`.
pub open spec fn cursor_column_of(input: PathInputView, left: u16, right: u16) -> int {
    let behind = left + 2 + input.text.len();
    let last = if right == 0 {
        0
    } else {
        right - 1
    };
    if behind < last {
        behind
    } else {
        last
    }
}

/// The column of the cursor behind what was typed, but within the dialog.
pub fn cursor_column(input: &PathInput, left: u16, right: u16) -> (column: u16)
    ensures
        column == cursor_column_of(input.deep_view(), left, right),
{
    let typed = chars_of(&input.text).len();
    let last: u16 = right.saturating_sub(1);
    if left <= last && last - left >= 2 && typed < (last - left - 2) as usize {
        left + 2 + typed as u16
    } else {
        last
    }
}

// ---------------------------------------------------------------------------------------------
// Yes/no dialogs
// ---------------------------------------------------------------------------------------------

/// The color of a line in a dialog.
pub open spec fn tone_paint(tone: Tone) -> Paint {
    match tone {
        Tone::Normal => Paint::Plain,
        Tone::Muted => Paint::Muted,
        Tone::Warn => Paint::Warning,
        Tone::Danger => Paint::Deleted,
    }
}

/// The lines of a yes/no dialog.
pub open spec fn confirm_pieces(confirm: ConfirmView) -> Seq<PieceView> {
    confirm.lines.map_values(|line: (Seq<char>, Tone)| piece(line.0, tone_paint(line.1)))
}

/// The lines of a yes/no dialog.
pub fn confirm_lines(confirm: &Confirm) -> (shown: Vec<Piece>)
    ensures
        shown.deep_view() == confirm_pieces(confirm.deep_view()),
{
    let ghost wanted = confirm_pieces(confirm.deep_view());
    let mut shown: Vec<Piece> = Vec::new();
    let mut i: usize = 0;
    while i < confirm.lines.len()
        invariant
            i <= confirm.lines@.len(),
            wanted == confirm_pieces(confirm.deep_view()),
            shown.deep_view() == wanted.take(i as int),
        decreases confirm.lines@.len() - i,
    {
        let ghost before = shown.deep_view();
        let paint = match confirm.lines[i].1 {
            Tone::Normal => Paint::Plain,
            Tone::Muted => Paint::Muted,
            Tone::Warn => Paint::Warning,
            Tone::Danger => Paint::Deleted,
        };
        shown.push(painted(confirm.lines[i].0.clone(), paint));
        i = i + 1;
        proof {
            assert(confirm.lines.deep_view()[i - 1] == confirm.lines@[i - 1].deep_view());
            assert(shown.deep_view() =~= before.push(wanted[i - 1]));
            assert(shown.deep_view() =~= wanted.take(i as int));
        }
    }
    proof {
        assert(wanted.take(i as int) =~= wanted);
    }
    shown
}

/// The two buttons of a yes/no dialog.
pub open spec fn button_texts(confirm: ConfirmView) -> (Seq<char>, Seq<char>) {
    ("[ y "@ + confirm.yes + " ]"@, "[ n Cancel ]"@)
}

/// The buttons of a yes/no dialog.
pub fn confirm_buttons(confirm: &Confirm) -> (buttons: (String, String))
    ensures
        buttons.deep_view() == button_texts(confirm.deep_view()),
{
    ("[ y ".to_owned().concat(&confirm.yes).concat(" ]"), "[ n Cancel ]".to_owned())
}

// ---------------------------------------------------------------------------------------------
// Help
// ---------------------------------------------------------------------------------------------

/// `text` followed by blanks, so that it takes `width` characters.
pub open spec fn padded(text: Seq<char>, width: nat) -> Seq<char> {
    if text.len() < width {
        text + Seq::new((width - text.len()) as nat, |i: int| ' ')
    } else {
        text
    }
}

fn pad(text: &str, width: usize) -> (line: String)
    ensures
        line@ == padded(text@, width as nat),
{
    let mut line = text.to_owned();
    let mut len = chars_of(text).len();
    while len < width
        invariant
            line@ == padded(text@, len as nat),
            text@.len() <= len,
            len <= width || len == text@.len(),
        decreases width - len,
    {
        line.push(' ');
        len = len + 1;
        proof {
            assert(line@ =~= padded(text@, len as nat));
        }
    }
    line
}

/// One key and what it does.
pub open spec fn help_line(key: Seq<char>, what: Seq<char>) -> Seq<PieceView> {
    seq![piece(padded(key, 14), Paint::Accent), plain(what)]
}

fn help_row(key: &str, what: &str) -> (line: Vec<Piece>)
    ensures
        line.deep_view() == help_line(key@, what@),
{
    let line: Vec<Piece> = vec![
        painted(pad(key, 14), Paint::Accent),
        painted(what.to_owned(), Paint::Plain),
    ];
    proof {
        assert(line.deep_view() =~= help_line(key@, what@));
    }
    line
}

/// A line in one style.
pub open spec fn note(text: Seq<char>) -> Seq<PieceView> {
    seq![piece(text, Paint::Muted)]
}

fn note_row(text: &str) -> (line: Vec<Piece>)
    ensures
        line.deep_view() == note(text@),
{
    let line: Vec<Piece> = vec![painted(text.to_owned(), Paint::Muted)];
    proof {
        assert(line.deep_view() =~= note(text@));
    }
    line
}

/// The help text.
pub open spec fn help_content() -> Seq<Seq<PieceView>> {
    seq![
        help_line("j / k, ↓ / ↑"@, "move"@),
        help_line("tab"@, "switch Worktrees / Pull requests"@),
        help_line("enter / l"@, "open (project → list → files)"@),
        help_line("esc / h"@, "back"@),
        help_line("a"@, "add project"@),
        help_line("d"@, "remove project (asks first)"@),
        help_line("r"@, "refresh: git fetch, worktree stats, PRs"@),
        help_line("?"@, "this help"@),
        help_line("q"@, "quit"@),
        note(""@),
        note(
            "Worktree stats compare against the merge-base with origin/<default branch>, including staged, unstaged and untracked files. Untracked text files count every line as added; binary files show \"bin\"."@,
        ),
        note(""@),
        note("press any key to close"@),
    ]
}

/// The help text.
pub fn help_lines() -> (shown: Vec<Vec<Piece>>)
    ensures
        shown.deep_view() == help_content(),
{
    vec![
        help_row("j / k, ↓ / ↑", "move"),
        help_row("tab", "switch Worktrees / Pull requests"),
        help_row("enter / l", "open (project → list → files)"),
        help_row("esc / h", "back"),
        help_row("a", "add project"),
        help_row("d", "remove project (asks first)"),
        help_row("r", "refresh: git fetch, worktree stats, PRs"),
        help_row("?", "this help"),
        help_row("q", "quit"),
        note_row(""),
        note_row(
            "Worktree stats compare against the merge-base with origin/<default branch>, including staged, unstaged and untracked files. Untracked text files count every line as added; binary files show \"bin\".",
        ),
        note_row(""),
        note_row("press any key to close"),
    ]
}

// ---------------------------------------------------------------------------------------------
// The queue panel
// ---------------------------------------------------------------------------------------------

/// The state of a job in one word, and its color.
pub open spec fn state_word(state: JobStateView) -> (Seq<char>, Paint) {
    match state {
        JobStateView::Pending => ("pending"@, Paint::Muted),
        JobStateView::Running => ("running"@, Paint::Accent),
        JobStateView::Done(_) => ("done"@, Paint::Added),
        JobStateView::Failed(_) => ("failed"@, Paint::Deleted),
        JobStateView::Skipped(_) => ("skipped"@, Paint::Warning),
    }
}

/// The first line of a job: its state, what it does, and to what.
pub open spec fn job_line(job: JobEntryView) -> PieceView {
    let (word, paint) = state_word(job.state);
    let start = word + " "@ + job.verb.name_text() + " "@ + job.label;
    piece(
        match job.state {
            JobStateView::Done(summary) => start + "  "@ + summary,
            JobStateView::Skipped(reason) => start + "  "@ + reason,
            _ => start,
        },
        paint,
    )
}

/// The lines of git's error, indented.
pub open spec fn error_lines(err: Seq<char>) -> Seq<PieceView> {
    lines(err).map_values(|line: Seq<char>| piece("    "@ + line, Paint::Deleted))
}

/// The lines of a job in the queue panel; a failed one shows git's full error.
pub open spec fn job_lines(job: JobEntryView) -> Seq<PieceView> {
    seq![job_line(job)] + match job.state {
        JobStateView::Failed(err) => error_lines(err),
        _ => Seq::empty(),
    }
}

/// The lines of the queue panel, oldest job first.
pub open spec fn queue_content(jobs: Seq<JobEntryView>) -> Seq<PieceView>
    decreases jobs.len(),
{
    if jobs.len() == 0 {
        Seq::empty()
    } else {
        queue_content(jobs.drop_last()) + job_lines(jobs.last())
    }
}

fn job_text(job: &JobEntry) -> (line: Piece)
    ensures
        line.deep_view() == job_line(job.deep_view()),
{
    let (word, paint) = match &job.state {
        JobState::Pending => ("pending", Paint::Muted),
        JobState::Running => ("running", Paint::Accent),
        JobState::Done(_) => ("done", Paint::Added),
        JobState::Failed(_) => ("failed", Paint::Deleted),
        JobState::Skipped(_) => ("skipped", Paint::Warning),
    };
    let start = word.to_owned().concat(" ").concat(job.verb.name()).concat(" ").concat(&job.label);
    painted(
        match &job.state {
            JobState::Done(summary) => start.concat("  ").concat(summary),
            JobState::Skipped(reason) => start.concat("  ").concat(reason),
            _ => start,
        },
        paint,
    )
}

fn add_error(shown: &mut Vec<Piece>, err: &str)
    ensures
        final(shown).deep_view() == old(shown).deep_view() + error_lines(err@),
{
    let ghost before = shown.deep_view();
    let ghost wanted = error_lines(err@);
    let chars = chars_of(err);
    let found = lines_of(&chars);
    let mut i: usize = 0;
    proof {
        assert(before =~= before + wanted.take(0));
    }
    while i < found.len()
        invariant
            i <= found@.len(),
            contents(found@) == lines(err@),
            wanted == error_lines(err@),
            shown.deep_view() == before + wanted.take(i as int),
        decreases found@.len() - i,
    {
        let ghost had = shown.deep_view();
        shown.push(painted("    ".to_owned().concat(&string_of(found[i])), Paint::Deleted));
        i = i + 1;
        proof {
            assert(contents(found@)[i - 1] == found@[i - 1]@);
            assert(shown.deep_view() =~= had.push(wanted[i - 1]));
            assert(shown.deep_view() =~= before + wanted.take(i as int));
        }
    }
    proof {
        assert(wanted.take(i as int) =~= wanted);
    }
}

impl App {
    /// The lines of the queue panel, oldest job first.
    pub fn queue_lines(&self) -> (shown: Vec<Piece>)
        ensures
            shown.deep_view() == queue_content(self.deep_view().jobs),
    {
        let ghost jobs = self.deep_view().jobs;
        let mut shown: Vec<Piece> = Vec::new();
        let mut i: usize = 0;
        proof {
            assert(shown.deep_view() =~= queue_content(jobs.take(0)));
        }
        while i < self.jobs.len()
            invariant
                i <= self.jobs@.len(),
                jobs == self.jobs.deep_view(),
                shown.deep_view() == queue_content(jobs.take(i as int)),
            decreases self.jobs@.len() - i,
        {
            let job = &self.jobs[i];
            let ghost before = shown.deep_view();
            proof {
                assert(jobs.take(i + 1).drop_last() =~= jobs.take(i as int));
                assert(jobs.take(i + 1).last() == job.deep_view());
            }
            shown.push(job_text(job));
            if let JobState::Failed(err) = &job.state {
                add_error(&mut shown, err);
            }
            i = i + 1;
            proof {
                assert(shown.deep_view() =~= before + job_lines(job.deep_view()));
            }
        }
        proof {
            assert(jobs.take(i as int) =~= jobs);
        }
        shown
    }
}

} // verus!
