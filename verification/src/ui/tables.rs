//! The tables of worktrees and pull requests.
use vstd::prelude::*;

use super::{count_cell, count_piece, painted, piece, Paint, Piece, PieceView};
use crate::app::plan::{branch_label, label_of};
use crate::app::queue::active_job_of;
use crate::app::state::{App, JobEntry, JobEntryView, JobState, Project, ProjectView};
use crate::config::{display_path, displayed};
use crate::gh::{PullRequest, PullRequestView};
use crate::git::{
    Merged, PrLink, PrState, SyncStatus, SyncStatusView, WorktreeInfo, WorktreeInfoView,
    WorktreeStats, WorktreeStatsView,
};
use crate::model::{added_lines, countable, deleted_lines, is_countable, Totals};
use crate::paths::components;
use crate::text::{chars_of, decimal, decimal_of};

verus! {

/// What a list shows: a message, or a table whose rows are lists of cells.
#[derive(Debug)]
pub enum Pane {
    Message(Piece),
    Table(Vec<Vec<Piece>>),
}

/// A [`Pane`] as mathematical values.
#[verifier::ext_equal]
pub enum PaneView {
    Message(PieceView),
    Table(Seq<Seq<PieceView>>),
}

impl DeepView for Pane {
    type V = PaneView;

    open spec fn deep_view(&self) -> PaneView {
        match self {
            Pane::Message(message) => PaneView::Message(message.deep_view()),
            Pane::Table(rows) => PaneView::Table(rows.deep_view()),
        }
    }
}

// ---------------------------------------------------------------------------------------------
// Worktree rows
// ---------------------------------------------------------------------------------------------

/// The sync column: what a queued or running job does, else whether the branch is merged, else
/// the outcome of the merge check.
pub open spec fn sync_piece(stats: WorktreeStatsView) -> PieceView {
    match stats.merged {
        Some(merged) => match merged.pr {
            Some(number) => piece("merged #"@ + decimal(number as nat), Paint::Merged),
            None => piece("merged"@, Paint::Merged),
        },
        None => match stats.sync {
            None => piece("…"@, Paint::Muted),
            Some(SyncStatusView::UpToDate) => piece("up to date"@, Paint::Muted),
            Some(SyncStatusView::Dirty) => piece("dirty"@, Paint::Warning),
            Some(SyncStatusView::Ready { ff }) => piece(
                if ff {
                    "ready (ff)"@
                } else {
                    "ready"@
                },
                Paint::Added,
            ),
            Some(SyncStatusView::Conflicts(files)) => piece(
                "conflicts "@ + decimal(files.len()),
                Paint::Deleted,
            ),
            Some(SyncStatusView::Unknown(_)) => piece("?"@, Paint::Muted),
        },
    }
}

fn sync_cell(stats: &WorktreeStats) -> (cell: Piece)
    ensures
        cell.deep_view() == sync_piece(stats.deep_view()),
{
    match stats.merged {
        Some(merged) => match merged.pr {
            Some(number) => painted(
                "merged #".to_owned().concat(&decimal_of(number)),
                Paint::Merged,
            ),
            None => painted("merged".to_owned(), Paint::Merged),
        },
        None => match &stats.sync {
            None => painted("…".to_owned(), Paint::Muted),
            Some(SyncStatus::UpToDate) => painted("up to date".to_owned(), Paint::Muted),
            Some(SyncStatus::Dirty) => painted("dirty".to_owned(), Paint::Warning),
            Some(SyncStatus::Ready { ff }) => painted(
                if *ff {
                    "ready (ff)".to_owned()
                } else {
                    "ready".to_owned()
                },
                Paint::Added,
            ),
            Some(SyncStatus::Conflicts(files)) => painted(
                "conflicts ".to_owned().concat(&decimal_of(files.len() as u64)),
                Paint::Deleted,
            ),
            Some(SyncStatus::Unknown(_)) => painted("?".to_owned(), Paint::Muted),
        },
    }
}

/// What a queued or running job shows in its row.
pub open spec fn job_piece(job: JobEntryView) -> PieceView {
    piece(
        if job.state is Running {
            job.verb.doing_text()
        } else {
            "queued "@ + job.verb.name_text()
        },
        Paint::Accent,
    )
}

fn job_cell(job: &JobEntry) -> (cell: Piece)
    ensures
        cell.deep_view() == job_piece(job.deep_view()),
{
    let running = match job.state {
        JobState::Running => true,
        _ => false,
    };
    painted(
        if running {
            job.verb.doing().to_owned()
        } else {
            "queued ".to_owned().concat(job.verb.name())
        },
        Paint::Accent,
    )
}

/// The PR column: empty while the pull requests are not known.
pub open spec fn pr_piece(link: PrLink) -> PieceView {
    match link {
        PrLink::Unknown => piece(Seq::empty(), Paint::Plain),
        PrLink::Absent => piece("-"@, Paint::Muted),
        PrLink::Pr { number, state } => match state {
            PrState::Open => piece("#"@ + decimal(number as nat) + " open"@, Paint::Added),
            PrState::Draft => piece("#"@ + decimal(number as nat) + " draft"@, Paint::Muted),
            PrState::Closed => piece("#"@ + decimal(number as nat) + " closed"@, Paint::Deleted),
            PrState::Merged => piece("#"@ + decimal(number as nat) + " merged"@, Paint::Merged),
        },
    }
}

fn pr_cell(link: PrLink) -> (cell: Piece)
    ensures
        cell.deep_view() == pr_piece(link),
{
    match link {
        PrLink::Unknown => painted(String::new(), Paint::Plain),
        PrLink::Absent => painted("-".to_owned(), Paint::Muted),
        PrLink::Pr { number, state } => {
            let start = "#".to_owned().concat(&decimal_of(number));
            match state {
                PrState::Open => painted(start.concat(" open"), Paint::Added),
                PrState::Draft => painted(start.concat(" draft"), Paint::Muted),
                PrState::Closed => painted(start.concat(" closed"), Paint::Deleted),
                PrState::Merged => painted(start.concat(" merged"), Paint::Merged),
            }
        },
    }
}

pub open spec fn plain(text: Seq<char>) -> PieceView {
    piece(text, Paint::Plain)
}

fn plain_text(text: String) -> (cell: Piece)
    ensures
        cell.deep_view() == plain(text@),
{
    painted(text, Paint::Plain)
}

/// The cells of a worktree row: mark, branch, ahead, behind, sync, PR, files, added, deleted,
/// path.
pub open spec fn worktree_cells(
    info: WorktreeInfoView,
    marked: bool,
    job: Option<JobEntryView>,
    home: Option<Seq<char>>,
) -> Seq<PieceView> {
    let path = displayed(info.worktree.path, home);
    let mark = piece(
        if marked {
            "●"@
        } else {
            Seq::empty()
        },
        Paint::Accent,
    );
    let empty = plain(Seq::empty());
    match info.stats {
        Ok(stats) => seq![
            mark,
            plain(label_of(info)),
            count_piece("↑"@, stats.ahead as nat, Paint::Accent),
            count_piece("↓"@, stats.behind as nat, Paint::Warning),
            match job {
                Some(job) => job_piece(job),
                None => sync_piece(stats),
            },
            pr_piece(info.pr),
            plain(decimal(stats.files.len())),
            count_piece("+"@, added_lines(stats.files) as nat, Paint::Added),
            count_piece("-"@, deleted_lines(stats.files) as nat, Paint::Deleted),
            plain(path),
        ],
        Err(err) => seq![
            mark,
            plain(label_of(info)),
            empty,
            empty,
            match job {
                Some(job) => job_piece(job),
                None => empty,
            },
            pr_piece(info.pr),
            empty,
            empty,
            empty,
            piece(path + "  ⚠ "@ + err, Paint::Deleted),
        ],
    }
}

/// The line counts of a row can be added up.
pub open spec fn row_countable(info: WorktreeInfoView) -> bool {
    info.stats matches Ok(stats) ==> countable(stats.files)
}

/// The cells of a worktree row.
pub fn worktree_row(
    info: &WorktreeInfo,
    marked: bool,
    job: Option<&JobEntry>,
    home: &Option<String>,
) -> (cells: Vec<Piece>)
    requires
        row_countable(info.deep_view()),
    ensures
        cells.deep_view() == worktree_cells(
            info.deep_view(),
            marked,
            job.deep_view(),
            home.deep_view(),
        ),
{
    let path = display_path(&info.worktree.path, home);
    let mark = painted(
        if marked {
            "●".to_owned()
        } else {
            String::new()
        },
        Paint::Accent,
    );
    let label = plain_text(branch_label(info));
    let cells: Vec<Piece> = match &info.stats {
        Ok(stats) => {
            let totals = Totals::of(stats.files.as_slice());
            let sync = match job {
                Some(job) => job_cell(job),
                None => sync_cell(stats),
            };
            vec![
                mark,
                label,
                count_cell("↑", stats.ahead, Paint::Accent),
                count_cell("↓", stats.behind, Paint::Warning),
                sync,
                pr_cell(info.pr),
                plain_text(decimal_of(totals.files as u64)),
                count_cell("+", totals.added, Paint::Added),
                count_cell("-", totals.deleted, Paint::Deleted),
                plain_text(path),
            ]
        },
        Err(err) => {
            let doing = match job {
                Some(job) => job_cell(job),
                None => plain_text(String::new()),
            };
            vec![
                mark,
                label,
                plain_text(String::new()),
                plain_text(String::new()),
                doing,
                pr_cell(info.pr),
                plain_text(String::new()),
                plain_text(String::new()),
                plain_text(String::new()),
                painted(path.concat("  ⚠ ").concat(err), Paint::Deleted),
            ]
        },
    };
    proof {
        assert(cells.deep_view() =~= worktree_cells(
            info.deep_view(),
            marked,
            job.deep_view(),
            home.deep_view(),
        ));
    }
    cells
}

/// The rows of the worktree table.
pub open spec fn worktree_rows(
    project: ProjectView,
    jobs: Seq<JobEntryView>,
    home: Option<Seq<char>>,
) -> Seq<Seq<PieceView>> {
    project.worktree_list().map_values(
        |info: WorktreeInfoView|
            worktree_cells(
                info,
                project.marked.contains(components(info.worktree.path)),
                active_job_of(jobs, info.worktree.path),
                home,
            ),
    )
}

/// Whether the line counts of every row can be added up.
pub fn are_rows_countable(project: &Project) -> (are: bool)
    ensures
        are == rows_countable(project.deep_view()),
{
    let list = project.worktree_list();
    let ghost all = project.deep_view().worktree_list();
    let mut i: usize = 0;
    while i < list.len()
        invariant
            i <= list@.len(),
            all == list.deep_view(),
            all == project.deep_view().worktree_list(),
            forall|j: int| 0 <= j < i ==> row_countable(#[trigger] all[j]),
        decreases list@.len() - i,
    {
        let info = &list[i];
        proof {
            assert(all[i as int] == info.deep_view());
        }
        let fits = match &info.stats {
            Ok(stats) => is_countable(stats.files.as_slice()),
            Err(_) => true,
        };
        if !fits {
            proof {
                assert(!row_countable(all[i as int]));
            }
            return false;
        }
        i = i + 1;
    }
    true
}

/// What the Worktrees tab shows.
pub open spec fn worktrees_content(
    project: ProjectView,
    jobs: Seq<JobEntryView>,
    home: Option<Seq<char>>,
    spinner: Seq<char>,
) -> PaneView {
    match project.worktrees {
        None => PaneView::Message(piece(spinner + " Reading worktrees…"@, Paint::Accent)),
        Some(Err(err)) => PaneView::Message(
            piece("Could not list worktrees: "@ + err, Paint::Deleted),
        ),
        Some(Ok(_)) => PaneView::Table(worktree_rows(project, jobs, home)),
    }
}

/// The line counts of every row can be added up.
pub open spec fn rows_countable(project: ProjectView) -> bool {
    forall|i: int|
        0 <= i < project.worktree_list().len() ==> row_countable(
            #[trigger] project.worktree_list()[i],
        )
}

impl App {
    /// What the Worktrees tab of a project shows.
    pub fn worktrees_pane(&self, project: &Project, spinner: &str) -> (pane: Pane)
        requires
            rows_countable(project.deep_view()),
        ensures
            pane.deep_view() == worktrees_content(
                project.deep_view(),
                self.deep_view().jobs,
                self.deep_view().home,
                spinner@,
            ),
    {
        match &project.worktrees {
            None => {
                return Pane::Message(
                    painted(spinner.to_owned().concat(" Reading worktrees…"), Paint::Accent),
                );
            },
            Some(Err(err)) => {
                return Pane::Message(
                    painted("Could not list worktrees: ".to_owned().concat(err), Paint::Deleted),
                );
            },
            Some(Ok(_)) => {},
        }
        let list = project.worktree_list();
        let ghost shown = project.deep_view();
        let ghost jobs = self.deep_view().jobs;
        let ghost home = self.deep_view().home;
        let ghost wanted = worktree_rows(shown, jobs, home);
        let mut rows: Vec<Vec<Piece>> = Vec::new();
        let mut i: usize = 0;
        while i < list.len()
            invariant
                i <= list@.len(),
                shown == project.deep_view(),
                jobs == self.deep_view().jobs,
                home == self.deep_view().home,
                wanted == worktree_rows(shown, jobs, home),
                list.deep_view() == shown.worktree_list(),
                rows_countable(shown),
                rows.deep_view() == wanted.take(i as int),
            decreases list@.len() - i,
        {
            let info = &list[i];
            let ghost before = rows.deep_view();
            proof {
                assert(shown.worktree_list()[i as int] == info.deep_view());
            }
            let marked = project.marked.contains(&info.worktree.path);
            let job = self.active_job(&info.worktree.path);
            rows.push(worktree_row(info, marked, job, &self.home));
            i = i + 1;
            proof {
                assert(rows.deep_view() =~= before.push(wanted[i - 1]));
                assert(rows.deep_view() =~= wanted.take(i as int));
            }
        }
        proof {
            assert(wanted.take(i as int) =~= wanted);
        }
        Pane::Table(rows)
    }
}

// ---------------------------------------------------------------------------------------------
// Pull request rows
// ---------------------------------------------------------------------------------------------

/// The cells of a pull request row: number, title, branch, author, draft, files, added, deleted.
pub open spec fn pr_cells(pr: PullRequestView) -> Seq<PieceView> {
    seq![
        piece("#"@ + decimal(pr.number as nat), Paint::Accent),
        plain(pr.title),
        plain(pr.head_ref_name),
        plain(
            match pr.author {
                Some(login) => login,
                None => Seq::empty(),
            },
        ),
        if pr.is_draft {
            piece("draft"@, Paint::Warning)
        } else {
            plain(Seq::empty())
        },
        plain(decimal(pr.changed_files as nat)),
        count_piece("+"@, pr.additions as nat, Paint::Added),
        count_piece("-"@, pr.deletions as nat, Paint::Deleted),
    ]
}

/// The cells of a pull request row.
pub fn pr_row(pr: &PullRequest) -> (cells: Vec<Piece>)
    ensures
        cells.deep_view() == pr_cells(pr.deep_view()),
{
    let author = match &pr.author {
        Some(author) => author.login.clone(),
        None => String::new(),
    };
    let draft = if pr.is_draft {
        painted("draft".to_owned(), Paint::Warning)
    } else {
        plain_text(String::new())
    };
    let cells: Vec<Piece> = vec![
        painted("#".to_owned().concat(&decimal_of(pr.number)), Paint::Accent),
        plain_text(pr.title.clone()),
        plain_text(pr.head_ref_name.clone()),
        plain_text(author),
        draft,
        plain_text(decimal_of(pr.changed_files)),
        count_cell("+", pr.additions, Paint::Added),
        count_cell("-", pr.deletions, Paint::Deleted),
    ];
    proof {
        assert(cells.deep_view() =~= pr_cells(pr.deep_view()));
    }
    cells
}

/// What the Pull requests tab shows.
pub open spec fn prs_content(project: ProjectView, spinner: Seq<char>) -> PaneView {
    match project.prs {
        None => PaneView::Message(piece(spinner + " Loading pull requests…"@, Paint::Accent)),
        Some(Err(err)) => PaneView::Message(piece(err, Paint::Warning)),
        Some(Ok(prs)) => if prs.len() == 0 {
            PaneView::Message(piece("No open pull requests."@, Paint::Muted))
        } else {
            PaneView::Table(prs.map_values(|pr: PullRequestView| pr_cells(pr)))
        },
    }
}

/// What the Pull requests tab shows.
pub fn prs_pane(project: &Project, spinner: &str) -> (pane: Pane)
    ensures
        pane.deep_view() == prs_content(project.deep_view(), spinner@),
{
    let prs = match &project.prs {
        None => {
            return Pane::Message(
                painted(spinner.to_owned().concat(" Loading pull requests…"), Paint::Accent),
            );
        },
        Some(Err(err)) => {
            return Pane::Message(painted(err.clone(), Paint::Warning));
        },
        Some(Ok(prs)) => prs,
    };
    if prs.len() == 0 {
        return Pane::Message(painted("No open pull requests.".to_owned(), Paint::Muted));
    }
    let ghost wanted = prs.deep_view().map_values(|pr: PullRequestView| pr_cells(pr));
    let mut rows: Vec<Vec<Piece>> = Vec::new();
    let mut i: usize = 0;
    while i < prs.len()
        invariant
            i <= prs@.len(),
            wanted == prs.deep_view().map_values(|pr: PullRequestView| pr_cells(pr)),
            rows.deep_view() == wanted.take(i as int),
        decreases prs@.len() - i,
    {
        let ghost before = rows.deep_view();
        rows.push(pr_row(&prs[i]));
        i = i + 1;
        proof {
            assert(rows.deep_view() =~= before.push(wanted[i - 1]));
            assert(rows.deep_view() =~= wanted.take(i as int));
        }
    }
    proof {
        assert(wanted.take(i as int) =~= wanted);
    }
    Pane::Table(rows)
}

// ---------------------------------------------------------------------------------------------
// Column widths
// ---------------------------------------------------------------------------------------------

/// The longest text of a column.
pub open spec fn longest(rows: Seq<Seq<PieceView>>, column: int) -> nat
    decreases rows.len(),
{
    if rows.len() == 0 {
        0
    } else {
        let before = longest(rows.drop_last(), column);
        let here = rows.last()[column].text.len();
        if here > before {
            here
        } else {
            before
        }
    }
}

/// As wide as its longest text, but at least 6 and at most `cap` cells.
pub open spec fn column_width(rows: Seq<Seq<PieceView>>, column: int, cap: u16) -> int {
    let widest = longest(rows, column);
    if widest < 6 {
        6
    } else if widest > cap {
        cap as int
    } else {
        widest as int
    }
}

/// How wide to draw a column: as its longest text, but at least 6 and at most `cap` cells.
pub fn width_of(rows: &Vec<Vec<Piece>>, column: usize, cap: u16) -> (width: u16)
    requires
        6 <= cap,
        forall|i: int| 0 <= i < rows@.len() ==> column < (#[trigger] rows@[i])@.len(),
    ensures
        width == column_width(rows.deep_view(), column as int, cap),
{
    let ghost all = rows.deep_view();
    let mut widest: usize = 0;
    let mut i: usize = 0;
    while i < rows.len()
        invariant
            i <= rows@.len(),
            all == rows.deep_view(),
            forall|i: int| 0 <= i < rows@.len() ==> column < (#[trigger] rows@[i])@.len(),
            widest == longest(all.take(i as int), column as int),
        decreases rows@.len() - i,
    {
        proof {
            assert(all.take(i + 1).drop_last() =~= all.take(i as int));
            assert(all.take(i + 1).last() == rows@[i as int].deep_view());
        }
        let row = &rows[i];
        let here = chars_of(&row[column].text).len();
        if here > widest {
            widest = here;
        }
        i = i + 1;
    }
    proof {
        assert(all.take(i as int) =~= all);
    }
    if widest < 6 {
        6
    } else if widest > cap as usize {
        cap
    } else {
        widest as u16
    }
}

} // verus!
