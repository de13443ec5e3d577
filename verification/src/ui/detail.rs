//! The detail pane: the files of a worktree or of a pull request.
use vstd::prelude::*;

use super::tables::{plain, Pane, PaneView};
use super::{count_cell, count_piece, painted, piece, Paint, Piece, PieceView};
use crate::app::plan::{branch_label, label_of};
use crate::app::state::{pr_files_state_view, App, AppView, PrFilesState, Tab};
use crate::gh::{PullRequest, PullRequestView};
use crate::git::{
    SyncStatus, SyncStatusView, WorktreeInfo, WorktreeInfoView, WorktreeStats, WorktreeStatsView,
};
use crate::model::{added_lines, countable, deleted_lines, FileStat, FileStatView, Totals};
use crate::text::{decimal, decimal_of};

verus! {

broadcast use vstd::std_specs::hash::group_hash_axioms;

/// What the detail pane shows: a title, some notes, and files or a message. A file row has the
/// cells added, deleted, path and what is said of the path.
#[derive(Debug)]
pub struct Detail {
    pub title: String,
    pub notes: Vec<Piece>,
    pub files: Pane,
}

/// A [`Detail`] as mathematical values.
#[verifier::ext_equal]
pub struct DetailView {
    pub title: Seq<char>,
    pub notes: Seq<PieceView>,
    pub files: PaneView,
}

impl DeepView for Detail {
    type V = DetailView;

    open spec fn deep_view(&self) -> DetailView {
        DetailView {
            title: self.title@,
            notes: self.notes.deep_view(),
            files: self.files.deep_view(),
        }
    }
}

/// The cells of a file; without counts it is a binary file.
pub open spec fn file_cells(file: FileStatView) -> Seq<PieceView> {
    let (added, deleted) = match (file.added, file.deleted) {
        (Some(added), Some(deleted)) => (
            count_piece("+"@, added as nat, Paint::Added),
            count_piece("-"@, deleted as nat, Paint::Deleted),
        ),
        _ => (piece("bin"@, Paint::Muted), plain(Seq::empty())),
    };
    seq![
        added,
        deleted,
        plain(file.path),
        piece(
            if file.untracked {
                " (untracked)"@
            } else {
                Seq::empty()
            },
            Paint::Muted,
        ),
    ]
}

/// The cells of a file.
pub fn file_row(file: &FileStat) -> (cells: Vec<Piece>)
    ensures
        cells.deep_view() == file_cells(file.deep_view()),
{
    let (added, deleted) = match (file.added, file.deleted) {
        (Some(added), Some(deleted)) => (
            count_cell("+", added, Paint::Added),
            count_cell("-", deleted, Paint::Deleted),
        ),
        _ => (painted("bin".to_owned(), Paint::Muted), painted(String::new(), Paint::Plain)),
    };
    let cells: Vec<Piece> = vec![
        added,
        deleted,
        painted(file.path.clone(), Paint::Plain),
        painted(
            if file.untracked {
                " (untracked)".to_owned()
            } else {
                String::new()
            },
            Paint::Muted,
        ),
    ];
    proof {
        assert(cells.deep_view() =~= file_cells(file.deep_view()));
    }
    cells
}

/// The files of the pane.
pub open spec fn files_content(files: Seq<FileStatView>) -> PaneView {
    if files.len() == 0 {
        PaneView::Message(piece("No changes."@, Paint::Muted))
    } else {
        PaneView::Table(files.map_values(|file: FileStatView| file_cells(file)))
    }
}

fn files_pane(files: &Vec<FileStat>) -> (pane: Pane)
    ensures
        pane.deep_view() == files_content(files.deep_view()),
{
    if files.len() == 0 {
        return Pane::Message(painted("No changes.".to_owned(), Paint::Muted));
    }
    let ghost wanted = files.deep_view().map_values(|file: FileStatView| file_cells(file));
    let mut rows: Vec<Vec<Piece>> = Vec::new();
    let mut i: usize = 0;
    while i < files.len()
        invariant
            i <= files@.len(),
            wanted == files.deep_view().map_values(|file: FileStatView| file_cells(file)),
            rows.deep_view() == wanted.take(i as int),
        decreases files@.len() - i,
    {
        let ghost before = rows.deep_view();
        rows.push(file_row(&files[i]));
        i = i + 1;
        proof {
            assert(rows.deep_view() =~= before.push(wanted[i - 1]));
            assert(rows.deep_view() =~= wanted.take(i as int));
        }
    }
    proof {
        assert(wanted.take(i as int) =~= wanted);
    }
    Pane::Table(rows)
}

// ---------------------------------------------------------------------------------------------
// Worktrees
// ---------------------------------------------------------------------------------------------

/// The files that would conflict, one note each.
pub open spec fn conflict_notes(files: Seq<Seq<char>>) -> Seq<PieceView> {
    files.map_values(|file: Seq<char>| piece("✗ "@ + file, Paint::Deleted))
}

/// What is to be said about merging a worktree: that it is merged, or what would conflict.
pub open spec fn merge_notes(stats: WorktreeStatsView, base: Seq<char>) -> Seq<PieceView> {
    match stats.merged {
        Some(merged) => seq![
            piece(
                match merged.pr {
                    Some(number) => "✓ Already merged (PR #"@ + decimal(number as nat)
                        + "): its work is in "@ + base + "."@,
                    None => "✓ Already merged: merging it into "@ + base
                        + " would change nothing."@,
                },
                Paint::Added,
            ),
        ],
        None => match stats.sync {
            Some(SyncStatusView::Conflicts(files)) => seq![
                piece(
                    "Merging "@ + base + " would conflict in "@ + decimal(files.len())
                        + " file(s):"@,
                    Paint::Deleted,
                ),
            ] + conflict_notes(files),
            Some(SyncStatusView::Unknown(why)) => seq![
                piece("Can't check the merge: "@ + why, Paint::Warning),
            ],
            _ => Seq::empty(),
        },
    }
}

fn notes_on(stats: &WorktreeStats, base: &str) -> (notes: Vec<Piece>)
    ensures
        notes.deep_view() == merge_notes(stats.deep_view(), base@),
{
    let mut notes: Vec<Piece> = Vec::new();
    if let Some(merged) = stats.merged {
        let text = match merged.pr {
            Some(number) => "✓ Already merged (PR #".to_owned().concat(
                &decimal_of(number),
            ).concat("): its work is in ").concat(base).concat("."),
            None => "✓ Already merged: merging it into ".to_owned().concat(base).concat(
                " would change nothing.",
            ),
        };
        notes.push(painted(text, Paint::Added));
        proof {
            assert(notes.deep_view() =~= merge_notes(stats.deep_view(), base@));
        }
        return notes;
    }
    match &stats.sync {
        Some(SyncStatus::Conflicts(files)) => {
            notes.push(
                painted(
                    "Merging ".to_owned().concat(base).concat(" would conflict in ").concat(
                        &decimal_of(files.len() as u64),
                    ).concat(" file(s):"),
                    Paint::Deleted,
                ),
            );
            let ghost first = notes.deep_view();
            let ghost rest = conflict_notes(files.deep_view());
            let mut i: usize = 0;
            proof {
                assert(notes.deep_view() =~= first + rest.take(0));
            }
            while i < files.len()
                invariant
                    i <= files@.len(),
                    rest == conflict_notes(files.deep_view()),
                    notes.deep_view() == first + rest.take(i as int),
                decreases files@.len() - i,
            {
                let ghost before = notes.deep_view();
                notes.push(painted("✗ ".to_owned().concat(&files[i]), Paint::Deleted));
                i = i + 1;
                proof {
                    assert(notes.deep_view() =~= before.push(rest[i - 1]));
                    assert(notes.deep_view() =~= first + rest.take(i as int));
                }
            }
            proof {
                assert(rest.take(i as int) =~= rest);
                assert(notes.deep_view() =~= merge_notes(stats.deep_view(), base@));
            }
        },
        Some(SyncStatus::Unknown(why)) => {
            notes.push(
                painted("Can't check the merge: ".to_owned().concat(why), Paint::Warning),
            );
            proof {
                assert(notes.deep_view() =~= merge_notes(stats.deep_view(), base@));
            }
        },
        _ => {
            proof {
                assert(notes.deep_view() =~= merge_notes(stats.deep_view(), base@));
            }
        },
    }
    notes
}

/// The detail of a worktree.
pub open spec fn worktree_content(info: WorktreeInfoView, base: Seq<char>) -> DetailView {
    let label = label_of(info);
    match info.stats {
        Ok(stats) => DetailView {
            title: " "@ + label + ": "@ + decimal(stats.files.len()) + " files +"@ + decimal(
                added_lines(stats.files) as nat,
            ) + " -"@ + decimal(deleted_lines(stats.files) as nat) + " vs merge-base with "@ + base
                + " (incl. uncommitted and untracked) "@,
            notes: merge_notes(stats, base),
            files: files_content(stats.files),
        },
        Err(err) => DetailView {
            title: " "@ + label + " "@,
            notes: Seq::empty(),
            files: PaneView::Message(piece(err, Paint::Deleted)),
        },
    }
}

/// The detail of a worktree.
pub fn worktree_detail(info: &WorktreeInfo, base: &str) -> (detail: Detail)
    requires
        info.deep_view().stats matches Ok(stats) ==> countable(stats.files),
    ensures
        detail.deep_view() == worktree_content(info.deep_view(), base@),
{
    let label = branch_label(info);
    match &info.stats {
        Ok(stats) => {
            let totals = Totals::of(stats.files.as_slice());
            Detail {
                title: " ".to_owned().concat(&label).concat(": ").concat(
                    &decimal_of(totals.files as u64),
                ).concat(" files +").concat(&decimal_of(totals.added)).concat(" -").concat(
                    &decimal_of(totals.deleted),
                ).concat(" vs merge-base with ").concat(base).concat(
                    " (incl. uncommitted and untracked) ",
                ),
                notes: notes_on(stats, base),
                files: files_pane(&stats.files),
            }
        },
        Err(err) => {
            let notes: Vec<Piece> = Vec::new();
            proof {
                assert(notes.deep_view() =~= Seq::empty());
            }
            Detail {
                title: " ".to_owned().concat(&label).concat(" "),
                notes,
                files: Pane::Message(painted(err.clone(), Paint::Deleted)),
            }
        },
    }
}

// ---------------------------------------------------------------------------------------------
// Pull requests
// ---------------------------------------------------------------------------------------------

/// The detail of a pull request; its files may still be loading.
pub open spec fn pr_content(
    pr: PullRequestView,
    files: Option<Option<Result<Seq<FileStatView>, Seq<char>>>>,
    spinner: Seq<char>,
) -> DetailView {
    DetailView {
        title: " #"@ + decimal(pr.number as nat) + " "@ + pr.title + ": "@ + decimal(
            pr.changed_files as nat,
        ) + " files +"@ + decimal(pr.additions as nat) + " -"@ + decimal(pr.deletions as nat)
            + " "@,
        notes: Seq::empty(),
        files: match files {
            Some(Some(Ok(files))) => files_content(files),
            Some(Some(Err(err))) => PaneView::Message(piece(err, Paint::Deleted)),
            _ => PaneView::Message(piece(spinner + " Loading files…"@, Paint::Accent)),
        },
    }
}

/// The detail of a pull request; its files may still be loading.
pub fn pr_detail(pr: &PullRequest, state: Option<&PrFilesState>, spinner: &str) -> (detail: Detail)
    ensures
        detail.deep_view() == pr_content(
            pr.deep_view(),
            match state {
                Some(state) => Some(pr_files_state_view(*state)),
                None => None,
            },
            spinner@,
        ),
{
    let files = match state {
        Some(Some(Ok(files))) => files_pane(files),
        Some(Some(Err(err))) => Pane::Message(painted(err.clone(), Paint::Deleted)),
        _ => Pane::Message(painted(spinner.to_owned().concat(" Loading files…"), Paint::Accent)),
    };
    let notes: Vec<Piece> = Vec::new();
    proof {
        assert(notes.deep_view() =~= Seq::empty());
    }
    Detail {
        title: " #".to_owned().concat(&decimal_of(pr.number)).concat(" ").concat(
            &pr.title,
        ).concat(": ").concat(&decimal_of(pr.changed_files)).concat(" files +").concat(
            &decimal_of(pr.additions),
        ).concat(" -").concat(&decimal_of(pr.deletions)).concat(" "),
        notes,
        files,
    }
}

// ---------------------------------------------------------------------------------------------
// The pane
// ---------------------------------------------------------------------------------------------

/// The detail of what is selected, if something is.
pub open spec fn detail_content(app: AppView, spinner: Seq<char>) -> Option<DetailView> {
    match app.selected_project() {
        None => None,
        Some(project) => match app.tab {
            Tab::Worktrees => match project.selected_worktree() {
                Some(info) => Some(worktree_content(info, project.base())),
                None => None,
            },
            Tab::Prs => match project.selected_pr() {
                Some(pr) => Some(
                    pr_content(
                        pr,
                        if project.pr_files.contains_key(pr.number) {
                            Some(project.pr_files[pr.number])
                        } else {
                            None
                        },
                        spinner,
                    ),
                ),
                None => None,
            },
        },
    }
}

/// The line counts of what is selected can be added up.
pub open spec fn detail_countable(app: AppView) -> bool {
    app.tab == Tab::Worktrees ==> (app.detail_files() matches Some(files) ==> countable(files))
}

impl App {
    /// The detail of what is selected, if something is.
    pub fn detail(&self, spinner: &str) -> (detail: Option<Detail>)
        requires
            detail_countable(self.deep_view()),
        ensures
            detail.deep_view() == detail_content(self.deep_view(), spinner@),
    {
        let project = match self.selected_project() {
            Some(project) => project,
            None => {
                return None;
            },
        };
        match self.tab {
            Tab::Worktrees => match project.selected_worktree() {
                Some(info) => Some(worktree_detail(info, &project.base_ref())),
                None => None,
            },
            Tab::Prs => match project.selected_pr() {
                Some(pr) => {
                    let state = project.pr_files.get(&pr.number);
                    Some(pr_detail(pr, state, spinner))
                },
                None => None,
            },
        }
    }
}

} // verus!
