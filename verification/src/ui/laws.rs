//! What a reader of the screen can rely on.
use vstd::prelude::*;

use super::detail::{
    detail_content, file_cells, files_content, merge_notes, pr_content, worktree_content,
};
use super::dialogs::{
    button_texts, confirm_pieces, cursor_column_of, footer_piece, input_lines, job_lines, padded,
    queue_content,
};
use super::places::{
    cells, column_area, column_start, column_widths, dialog_size_of, longest_line, onward,
    pair_areas, rows_in,
};
use super::tables::{
    column_width, job_piece, longest, pr_cells, pr_piece, prs_content, sync_piece, worktree_cells,
    worktrees_content, PaneView,
};
use super::{
    age_text, count_piece, info_pieces, project_lines, seconds_since, tab_text, tab_texts, Paint,
    PieceView,
};
use crate::app::plan::label_of;
use crate::app::queue::active_job_of;
use crate::app::shown_status;
use crate::app::state::{
    AppView, ConfirmView, Focus, JobEntryView, JobStateView, PathInputView, ProjectView, Rect, Tab,
    Tone, Verb,
};
use crate::config::displayed;
use crate::gh::PullRequestView;
use crate::git::{PrLink, PrState, SyncStatusView, WorktreeInfoView, WorktreeStatsView};
use crate::model::{added_lines, deleted_lines, FileStatView};
use crate::paths::{components, file_name};
use crate::text::{decimal, lines};

verus! {

// ---------------------------------------------------------------------------------------------
// Small things
// ---------------------------------------------------------------------------------------------

/// A count stands behind its sign in the color of what it counts; a zero is muted.
pub proof fn how_counts_look(sign: Seq<char>, value: nat, paint: Paint)
    ensures
        count_piece(sign, 0, paint) == (PieceView {
            text: sign + decimal(0),
            paint: Paint::Muted,
            bold: false,
        }),
        value > 0 ==> count_piece(sign, value, paint) == (PieceView {
            text: sign + decimal(value),
            paint,
            bold: false,
        }),
{
}

/// An age is told in the largest unit that fits: seconds up to a minute, minutes up to an hour, and
/// whole hours from then on. Less than five seconds is just now.
pub proof fn how_ages_are_told(secs: nat, unit: nat, rest: nat)
    ensures
        secs < 5 ==> age_text(secs) == "just now"@,
        5 <= secs < 60 ==> age_text(secs) == decimal(secs) + "s ago"@,
        1 <= unit < 60 && rest < 60 && secs == 60 * unit + rest ==> age_text(secs) == decimal(unit)
            + "m ago"@,
        1 <= unit && rest < 3600 && secs == 3600 * unit + rest ==> age_text(secs) == decimal(unit)
            + "h ago"@,
{
    if rest < 60 && secs == 60 * unit + rest {
        assert(secs / 60 == unit);
    }
    if rest < 3600 && secs == 3600 * unit + rest {
        assert(secs / 3600 == unit);
    }
}

/// A thousand milliseconds are a second; a clock that went back counts as none.
pub proof fn how_seconds_pass(at: u64, now: u64)
    ensures
        now < at ==> seconds_since(at, now) == 0,
        now >= at ==> 1000 * seconds_since(at, now) <= now - at < 1000 * seconds_since(at, now)
            + 1000,
{
}

// ---------------------------------------------------------------------------------------------
// Projects
// ---------------------------------------------------------------------------------------------

/// A project is shown by the last part of its path, with the spinner while it is busy, and below it
/// its GitHub repository once that is known.
pub proof fn how_projects_are_listed(project: ProjectView, spinner: Seq<char>)
    ensures
        ({
            let shown = project_lines(project, spinner);
            let busy = project.refreshing || project.activity is Some || project.prs_loading;
            &&& shown.len() == 2
            &&& shown[0].len() == 3
            &&& shown[0][0].bold && shown[0][0].paint == Paint::Plain
            &&& file_name(project.path) is Some ==> shown[0][0].text == file_name(
                project.path,
            )->Some_0
            &&& file_name(project.path) is None ==> shown[0][0].text == project.path
            &&& shown[0][1] == (PieceView { text: " "@, paint: Paint::Plain, bold: false })
            &&& shown[0][2].paint == Paint::Accent && !shown[0][2].bold
            &&& busy ==> shown[0][2].text == spinner
            &&& !busy ==> shown[0][2].text.len() == 0
            &&& shown[1].len() == 2
            &&& shown[1][0] == (PieceView { text: "  "@, paint: Paint::Plain, bold: false })
            &&& shown[1][1].paint == Paint::Muted && !shown[1][1].bold
            &&& project.github is Some ==> shown[1][1].text == project.github->Some_0
            &&& project.github is None && project.default_branch is Some ==> shown[1][1].text
                == "no GitHub remote"@
            &&& project.github is None && project.default_branch is None
                ==> shown[1][1].text.len() == 0
        }),
{
}

/// The line above the tabs names the repository, or says that there is none or that it is not known
/// yet, and the branch that worktrees are compared with.
pub proof fn what_the_info_line_names(
    project: ProjectView,
    jobs: nat,
    spinner: Seq<char>,
    now: u64,
)
    ensures
        ({
            let line = info_pieces(project, jobs, spinner, now);
            &&& line.len() >= 5
            &&& line[0] == (PieceView { text: "GitHub "@, paint: Paint::Muted, bold: false })
            &&& project.github is Some ==> line[1] == (PieceView {
                text: project.github->Some_0,
                paint: Paint::Plain,
                bold: true,
            })
            &&& project.github is None && project.default_branch is Some ==> line[1] == (
            PieceView {
                text: "none (origin is not on GitHub)"@,
                paint: Paint::Plain,
                bold: false,
            })
            &&& project.github is None && project.default_branch is None ==> line[1] == (
            PieceView { text: "…"@, paint: Paint::Muted, bold: false })
            &&& line[2] == (PieceView { text: "  base "@, paint: Paint::Muted, bold: false })
            &&& line[3] == (PieceView { text: project.base(), paint: Paint::Plain, bold: true })
            &&& line[4] == (PieceView { text: "  "@, paint: Paint::Plain, bold: false })
        }),
{
}

/// The rest of that line: what the project is doing; if nothing, how its last fetch went, with the
/// last line of git's error; and behind that the number of jobs, unless there are none.
pub proof fn what_the_info_line_reports(
    project: ProjectView,
    jobs: nat,
    spinner: Seq<char>,
    now: u64,
)
    ensures
        ({
            let line = info_pieces(project, jobs, spinner, now).skip(5);
            let count = if jobs == 0 {
                Seq::empty()
            } else {
                seq![
                    PieceView {
                        text: "  jobs: "@ + decimal(jobs),
                        paint: Paint::Accent,
                        bold: false,
                    },
                ]
            };
            match (project.activity, project.last_fetch) {
                (Some(doing), _) => line == seq![
                    PieceView {
                        text: spinner + " "@ + doing,
                        paint: Paint::Accent,
                        bold: false,
                    },
                ] + count,
                (None, None) => line == count,
                (None, Some(fetch)) => match fetch.result {
                    Ok(_) => line == seq![
                        PieceView {
                            text: "fetched "@ + age_text(seconds_since(fetch.at, now)),
                            paint: Paint::Muted,
                            bold: false,
                        },
                    ] + count,
                    Err(err) => line == seq![
                        PieceView {
                            text: "fetch failed: "@ + if lines(err).len() == 0 {
                                "unknown error"@
                            } else {
                                lines(err)[lines(err).len() - 1]
                            },
                            paint: Paint::Deleted,
                            bold: false,
                        },
                    ] + count,
                },
            }
        }),
{
    let line = info_pieces(project, jobs, spinner, now).skip(5);
    let count = if jobs == 0 {
        Seq::empty()
    } else {
        seq![PieceView { text: "  jobs: "@ + decimal(jobs), paint: Paint::Accent, bold: false }]
    };
    assert(line =~= super::work_pieces(project, spinner, now) + count);
    assert(Seq::<PieceView>::empty() + count =~= count);
}

/// A tab counts its rows once they are loaded. The pull requests show the spinner whenever they
/// load, the worktrees only the first time.
pub proof fn what_the_tabs_say(project: ProjectView, spinner: Seq<char>)
    ensures
        ({
            let (left, right) = tab_texts(project, spinner);
            &&& match project.worktrees {
                None => left == if project.refreshing {
                    "Worktrees"@ + " "@ + spinner
                } else {
                    "Worktrees"@
                },
                Some(Err(_)) => left == "Worktrees"@,
                Some(Ok(list)) => left == "Worktrees"@ + " ("@ + decimal(list.len()) + ")"@,
            }
            &&& project.prs_loading ==> right == "Pull requests"@ + " "@ + spinner
            &&& !project.prs_loading ==> match project.prs {
                Some(Ok(list)) => right == "Pull requests"@ + " ("@ + decimal(list.len()) + ")"@,
                _ => right == "Pull requests"@,
            }
        }),
{
}

/// The same of any tab: the spinner while it loads, else the count, else only the name.
pub proof fn what_a_tab_says(
    name: Seq<char>,
    count: nat,
    known: Option<nat>,
    spinner: Seq<char>,
)
    ensures
        tab_text(name, known, true, spinner) == name + " "@ + spinner,
        tab_text(name, Some(count), false, spinner) == name + " ("@ + decimal(count) + ")"@,
        tab_text(name, None, false, spinner) == name,
{
}

// ---------------------------------------------------------------------------------------------
// Tables
// ---------------------------------------------------------------------------------------------

/// What the sync column says of a worktree: that it is merged, before all else, and by which pull
/// request; else the outcome of the merge check.
pub proof fn what_the_sync_column_says(stats: WorktreeStatsView)
    ensures
        ({
            let shown = sync_piece(stats);
            &&& !shown.bold
            &&& match stats.merged {
                Some(merged) => shown.paint == Paint::Merged && match merged.pr {
                    Some(number) => shown.text == "merged #"@ + decimal(number as nat),
                    None => shown.text == "merged"@,
                },
                None => match stats.sync {
                    None => shown.text == "…"@ && shown.paint == Paint::Muted,
                    Some(SyncStatusView::UpToDate) => shown.text == "up to date"@ && shown.paint
                        == Paint::Muted,
                    Some(SyncStatusView::Dirty) => shown.text == "dirty"@ && shown.paint
                        == Paint::Warning,
                    Some(SyncStatusView::Ready { ff: true }) => shown.text == "ready (ff)"@
                        && shown.paint == Paint::Added,
                    Some(SyncStatusView::Ready { ff: false }) => shown.text == "ready"@
                        && shown.paint == Paint::Added,
                    Some(SyncStatusView::Conflicts(files)) => shown.text == "conflicts "@ + decimal(
                        files.len(),
                    ) && shown.paint == Paint::Deleted,
                    Some(SyncStatusView::Unknown(_)) => shown.text == "?"@ && shown.paint
                        == Paint::Muted,
                },
            }
        }),
{
}

/// What a job shows beside its worktree: what it does when it runs, what it waits for otherwise.
pub proof fn what_a_job_shows_in_its_row(job: JobEntryView)
    ensures
        ({
            let shown = job_piece(job);
            &&& shown.paint == Paint::Accent && !shown.bold
            &&& job.state is Running ==> shown.text == match job.verb {
                Verb::Delete => "deleting"@,
                Verb::Sync => "syncing"@,
            }
            &&& !(job.state is Running) ==> shown.text == match job.verb {
                Verb::Delete => "queued delete"@,
                Verb::Sync => "queued sync"@,
            }
        }),
{
    reveal_strlit("queued ");
    reveal_strlit("delete");
    reveal_strlit("sync");
    reveal_strlit("queued delete");
    reveal_strlit("queued sync");
    assert("queued "@ + "delete"@ =~= "queued delete"@);
    assert("queued "@ + "sync"@ =~= "queued sync"@);
}

/// What the column of pull requests says of a branch: its number and state in the color of the
/// state, a dash when it has none, nothing while that is not known.
pub proof fn what_the_pr_column_says(link: PrLink)
    ensures
        ({
            let shown = pr_piece(link);
            &&& !shown.bold
            &&& match link {
                PrLink::Unknown => shown.text.len() == 0 && shown.paint == Paint::Plain,
                PrLink::Absent => shown.text == "-"@ && shown.paint == Paint::Muted,
                PrLink::Pr { number, state: PrState::Open } => shown.text == "#"@ + decimal(
                    number as nat,
                ) + " open"@ && shown.paint == Paint::Added,
                PrLink::Pr { number, state: PrState::Draft } => shown.text == "#"@ + decimal(
                    number as nat,
                ) + " draft"@ && shown.paint == Paint::Muted,
                PrLink::Pr { number, state: PrState::Closed } => shown.text == "#"@ + decimal(
                    number as nat,
                ) + " closed"@ && shown.paint == Paint::Deleted,
                PrLink::Pr { number, state: PrState::Merged } => shown.text == "#"@ + decimal(
                    number as nat,
                ) + " merged"@ && shown.paint == Paint::Merged,
            }
        }),
{
}

/// The row of a worktree, column by column. Where its state could not be read the columns that
/// depend on it are empty and the reason stands behind the path.
pub proof fn what_a_worktree_row_shows(
    info: WorktreeInfoView,
    marked: bool,
    job: Option<JobEntryView>,
    home: Option<Seq<char>>,
)
    ensures
        ({
            let row = worktree_cells(info, marked, job, home);
            let path = displayed(info.worktree.path, home);
            &&& row.len() == 10
            &&& marked ==> row[0].text == "●"@
            &&& !marked ==> row[0].text.len() == 0
            &&& row[0].paint == Paint::Accent
            &&& row[1] == (PieceView { text: label_of(info), paint: Paint::Plain, bold: false })
            &&& job is Some ==> row[4] == job_piece(job->Some_0)
            &&& row[5] == pr_piece(info.pr)
            &&& info.stats matches Ok(stats) ==> {
                &&& row[2] == count_piece("↑"@, stats.ahead as nat, Paint::Accent)
                &&& row[3] == count_piece("↓"@, stats.behind as nat, Paint::Warning)
                &&& job is None ==> row[4] == sync_piece(stats)
                &&& row[6] == (PieceView {
                    text: decimal(stats.files.len()),
                    paint: Paint::Plain,
                    bold: false,
                })
                &&& row[7] == count_piece("+"@, added_lines(stats.files) as nat, Paint::Added)
                &&& row[8] == count_piece("-"@, deleted_lines(stats.files) as nat, Paint::Deleted)
                &&& row[9] == (PieceView { text: path, paint: Paint::Plain, bold: false })
            }
            &&& info.stats matches Err(err) ==> {
                &&& row[2].text.len() == 0 && row[3].text.len() == 0
                &&& job is None ==> row[4].text.len() == 0
                &&& row[6].text.len() == 0 && row[7].text.len() == 0 && row[8].text.len() == 0
                &&& row[9] == (PieceView {
                    text: path + "  ⚠ "@ + err,
                    paint: Paint::Deleted,
                    bold: false,
                })
            }
        }),
{
}

/// The Worktrees tab shows one row per worktree in their order, each with its own mark and its own
/// job; before they are loaded a spinner, and the reason when they could not be.
pub proof fn what_the_worktrees_tab_shows(
    project: ProjectView,
    jobs: Seq<JobEntryView>,
    home: Option<Seq<char>>,
    spinner: Seq<char>,
)
    ensures
        match project.worktrees {
            None => worktrees_content(project, jobs, home, spinner) == PaneView::Message(
                PieceView {
                    text: spinner + " Reading worktrees…"@,
                    paint: Paint::Accent,
                    bold: false,
                },
            ),
            Some(Err(err)) => worktrees_content(project, jobs, home, spinner) == PaneView::Message(
                PieceView {
                    text: "Could not list worktrees: "@ + err,
                    paint: Paint::Deleted,
                    bold: false,
                },
            ),
            Some(Ok(list)) => {
                let shown = worktrees_content(project, jobs, home, spinner);
                &&& shown is Table
                &&& shown->Table_0.len() == list.len()
                &&& forall|k: int|
                    0 <= k < list.len() ==> shown->Table_0[k] == worktree_cells(
                        #[trigger] list[k],
                        project.marked.contains(components(list[k].worktree.path)),
                        active_job_of(jobs, list[k].worktree.path),
                        home,
                    )
            },
        },
{
}

/// The row of a pull request, column by column.
pub proof fn what_a_pull_request_row_shows(pr: PullRequestView)
    ensures
        ({
            let row = pr_cells(pr);
            &&& row.len() == 8
            &&& row[0] == (PieceView {
                text: "#"@ + decimal(pr.number as nat),
                paint: Paint::Accent,
                bold: false,
            })
            &&& row[1] == (PieceView { text: pr.title, paint: Paint::Plain, bold: false })
            &&& row[2] == (PieceView { text: pr.head_ref_name, paint: Paint::Plain, bold: false })
            &&& row[3].paint == Paint::Plain
            &&& pr.author is Some ==> row[3].text == pr.author->Some_0
            &&& pr.author is None ==> row[3].text.len() == 0
            &&& pr.is_draft ==> row[4] == (PieceView {
                text: "draft"@,
                paint: Paint::Warning,
                bold: false,
            })
            &&& !pr.is_draft ==> row[4].text.len() == 0
            &&& row[5] == (PieceView {
                text: decimal(pr.changed_files as nat),
                paint: Paint::Plain,
                bold: false,
            })
            &&& row[6] == count_piece("+"@, pr.additions as nat, Paint::Added)
            &&& row[7] == count_piece("-"@, pr.deletions as nat, Paint::Deleted)
        }),
{
}

/// The Pull requests tab shows one row each, in their order, or says why there is none.
pub proof fn what_the_pull_requests_tab_shows(project: ProjectView, spinner: Seq<char>)
    ensures
        ({
            let shown = prs_content(project, spinner);
            match project.prs {
                None => shown == PaneView::Message(
                    PieceView {
                        text: spinner + " Loading pull requests…"@,
                        paint: Paint::Accent,
                        bold: false,
                    },
                ),
                Some(Err(err)) => shown == PaneView::Message(
                    PieceView { text: err, paint: Paint::Warning, bold: false },
                ),
                Some(Ok(list)) => {
                    &&& list.len() == 0 ==> shown == PaneView::Message(
                        PieceView {
                            text: "No open pull requests."@,
                            paint: Paint::Muted,
                            bold: false,
                        },
                    )
                    &&& list.len() > 0 ==> shown is Table && shown->Table_0.len() == list.len() && (
                    forall|k: int|
                        0 <= k < list.len() ==> shown->Table_0[k] == pr_cells(#[trigger] list[k]))
                }
            }
        }),
{
}

proof fn lemma_longest(rows: Seq<Seq<PieceView>>, column: int)
    ensures
        forall|k: int|
            0 <= k < rows.len() ==> (#[trigger] rows[k])[column].text.len() <= longest(rows, column),
        longest(rows, column) == 0 || exists|k: int|
            0 <= k < rows.len() && (#[trigger] rows[k])[column].text.len() == longest(rows, column),
    decreases rows.len(),
{
    if rows.len() > 0 {
        let fewer = rows.drop_last();
        lemma_longest(fewer, column);
        assert(rows.last() == rows[rows.len() - 1]);
        assert forall|k: int| 0 <= k < rows.len() implies (#[trigger] rows[k])[column].text.len()
            <= longest(rows, column) by {
            if k < fewer.len() {
                assert(fewer[k] == rows[k]);
                assert(fewer[k][column].text.len() <= longest(fewer, column));
            }
        }
        if longest(rows, column) == longest(fewer, column) && longest(fewer, column) > 0 {
            let k = choose|k: int|
                0 <= k < fewer.len() && (#[trigger] fewer[k])[column].text.len() == longest(
                    fewer,
                    column,
                );
            assert(rows[k][column].text.len() == longest(rows, column));
        }
    }
}

/// A column is wide enough for each of its texts up to the cap, never narrower than six cells, and no
/// wider than its longest text needs.
pub proof fn columns_fit_their_texts(rows: Seq<Seq<PieceView>>, column: int, cap: u16)
    requires
        cap >= 6,
    ensures
        6 <= column_width(rows, column, cap) <= cap,
        forall|k: int|
            0 <= k < rows.len() && (#[trigger] rows[k])[column].text.len() <= cap
                ==> rows[k][column].text.len() <= column_width(rows, column, cap),
        column_width(rows, column, cap) > 6 ==> exists|k: int|
            0 <= k < rows.len() && (#[trigger] rows[k])[column].text.len() >= column_width(
                rows,
                column,
                cap,
            ),
{
    lemma_longest(rows, column);
}

// ---------------------------------------------------------------------------------------------
// Details
// ---------------------------------------------------------------------------------------------

/// The row of a file: its counts, or that it is binary; its path; and whether git tracks it.
pub proof fn what_a_file_row_shows(file: FileStatView)
    ensures
        ({
            let row = file_cells(file);
            &&& row.len() == 4
            &&& file.added is Some && file.deleted is Some ==> {
                &&& row[0] == count_piece("+"@, file.added->Some_0 as nat, Paint::Added)
                &&& row[1] == count_piece("-"@, file.deleted->Some_0 as nat, Paint::Deleted)
            }
            &&& file.added is None || file.deleted is None ==> {
                &&& row[0] == (PieceView { text: "bin"@, paint: Paint::Muted, bold: false })
                &&& row[1].text.len() == 0
            }
            &&& row[2] == (PieceView { text: file.path, paint: Paint::Plain, bold: false })
            &&& row[3].paint == Paint::Muted
            &&& file.untracked ==> row[3].text == " (untracked)"@
            &&& !file.untracked ==> row[3].text.len() == 0
        }),
{
}

/// The files are shown one row each, in their order.
pub proof fn every_file_has_its_row(files: Seq<FileStatView>)
    ensures
        files.len() == 0 ==> files_content(files) == PaneView::Message(
            PieceView { text: "No changes."@, paint: Paint::Muted, bold: false },
        ),
        files.len() > 0 ==> {
            let shown = files_content(files);
            &&& shown is Table
            &&& shown->Table_0.len() == files.len()
            &&& forall|k: int|
                0 <= k < files.len() ==> shown->Table_0[k] == file_cells(#[trigger] files[k])
        },
{
}

/// What is noted about merging a worktree: that it is merged already, or every file that would
/// conflict, or why that could not be checked; otherwise nothing.
pub proof fn what_is_noted_of_a_merge(stats: WorktreeStatsView, base: Seq<char>)
    ensures
        ({
            let notes = merge_notes(stats, base);
            match stats.merged {
                Some(merged) => notes.len() == 1 && notes[0].paint == Paint::Added && match merged.pr {
                    Some(number) => notes[0].text == "✓ Already merged (PR #"@ + decimal(
                        number as nat,
                    ) + "): its work is in "@ + base + "."@,
                    None => notes[0].text == "✓ Already merged: merging it into "@ + base
                        + " would change nothing."@,
                },
                None => match stats.sync {
                    Some(SyncStatusView::Conflicts(files)) => {
                        &&& notes.len() == files.len() + 1
                        &&& notes[0] == (PieceView {
                            text: "Merging "@ + base + " would conflict in "@ + decimal(files.len())
                                + " file(s):"@,
                            paint: Paint::Deleted,
                            bold: false,
                        })
                        &&& forall|k: int|
                            0 <= k < files.len() ==> notes[k + 1] == (PieceView {
                                text: "✗ "@ + #[trigger] files[k],
                                paint: Paint::Deleted,
                                bold: false,
                            })
                    },
                    Some(SyncStatusView::Unknown(why)) => notes.len() == 1 && notes[0] == (
                    PieceView {
                        text: "Can't check the merge: "@ + why,
                        paint: Paint::Warning,
                        bold: false,
                    }),
                    _ => notes.len() == 0,
                },
            }
        }),
{
}

/// The detail of a worktree: how much it changes and against what, what is noted of its merge, and
/// its files; or the reason why its state could not be read.
pub proof fn what_the_detail_of_a_worktree_shows(info: WorktreeInfoView, base: Seq<char>)
    ensures
        ({
            let shown = worktree_content(info, base);
            match info.stats {
                Ok(stats) => {
                    &&& shown.title == " "@ + label_of(info) + ": "@ + decimal(stats.files.len())
                        + " files +"@ + decimal(added_lines(stats.files) as nat) + " -"@ + decimal(
                        deleted_lines(stats.files) as nat,
                    ) + " vs merge-base with "@ + base + " (incl. uncommitted and untracked) "@
                    &&& shown.notes == merge_notes(stats, base)
                    &&& shown.files == files_content(stats.files)
                },
                Err(err) => {
                    &&& shown.title == " "@ + label_of(info) + " "@
                    &&& shown.notes.len() == 0
                    &&& shown.files == PaneView::Message(
                        PieceView { text: err, paint: Paint::Deleted, bold: false },
                    )
                },
            }
        }),
{
}

/// The detail of a pull request: its number, title and size, and its files once they are loaded.
pub proof fn what_the_detail_of_a_pull_request_shows(
    pr: PullRequestView,
    files: Option<Option<Result<Seq<FileStatView>, Seq<char>>>>,
    spinner: Seq<char>,
)
    ensures
        ({
            let shown = pr_content(pr, files, spinner);
            let loading = PaneView::Message(
                PieceView {
                    text: spinner + " Loading files…"@,
                    paint: Paint::Accent,
                    bold: false,
                },
            );
            &&& shown.title == " #"@ + decimal(pr.number as nat) + " "@ + pr.title + ": "@
                + decimal(pr.changed_files as nat) + " files +"@ + decimal(pr.additions as nat)
                + " -"@ + decimal(pr.deletions as nat) + " "@
            &&& shown.notes.len() == 0
            &&& match files {
                None => shown.files == loading,
                Some(None) => shown.files == loading,
                Some(Some(Ok(list))) => shown.files == files_content(list),
                Some(Some(Err(err))) => shown.files == PaneView::Message(
                    PieceView { text: err, paint: Paint::Deleted, bold: false },
                ),
            }
        }),
{
}

/// The detail is that of the selected row of the tab in front, and there is none without one.
pub proof fn whose_detail_is_shown(app: AppView, spinner: Seq<char>)
    ensures
        app.selected_project() is None ==> detail_content(app, spinner) is None,
        app.selected_project() is Some && app.tab == Tab::Worktrees ==> {
            let project = app.selected_project()->Some_0;
            detail_content(app, spinner) == match project.selected_worktree() {
                Some(info) => Some(worktree_content(info, project.base())),
                None => None,
            }
        },
        app.selected_project() is Some && app.tab == Tab::Prs ==> {
            let project = app.selected_project()->Some_0;
            match project.selected_pr() {
                Some(pr) => {
                    &&& project.pr_files.contains_key(pr.number) ==> detail_content(app, spinner)
                        == Some(pr_content(pr, Some(project.pr_files[pr.number]), spinner))
                    &&& !project.pr_files.contains_key(pr.number) ==> detail_content(app, spinner)
                        == Some(pr_content(pr, None, spinner))
                },
                None => detail_content(app, spinner) is None,
            }
        },
{
}

// ---------------------------------------------------------------------------------------------
// Dialogs
// ---------------------------------------------------------------------------------------------

/// The last line of the screen is the message while it is shown, and the keys otherwise.
pub proof fn what_the_last_line_says(app: AppView)
    ensures
        shown_status(app) is Some ==> footer_piece(app) == (PieceView {
            text: shown_status(app)->Some_0,
            paint: Paint::Warning,
            bold: false,
        }),
        shown_status(app) is None ==> footer_piece(app) == (PieceView {
            text: match app.focus {
                Focus::Projects =>
                    "j/k move · l/enter open · tab worktrees/PRs · a add · d remove · r refresh · ? help · q quit"@,
                Focus::List =>
                    "j/k move · l/enter files · h/esc back · tab worktrees/PRs · r refresh · ? help · q quit"@,
                Focus::Detail =>
                    "j/k move · h/esc back · tab worktrees/PRs · r refresh · ? help · q quit"@,
            },
            paint: Paint::Muted,
            bold: false,
        }),
{
}

/// The dialog for a path shows what was typed and the error, if there is one.
pub proof fn what_the_input_dialog_shows(input: PathInputView)
    ensures
        ({
            let shown = input_lines(input);
            &&& shown.len() == 4
            &&& shown[0] == seq![
                PieceView {
                    text: "Path to a local git repository (~ is expanded):"@,
                    paint: Paint::Plain,
                    bold: false,
                },
            ]
            &&& shown[1] == seq![
                PieceView { text: "> "@, paint: Paint::Accent, bold: false },
                PieceView { text: input.text, paint: Paint::Plain, bold: false },
            ]
            &&& shown[2].len() == 1 && shown[2][0].paint == Paint::Deleted
            &&& input.error is Some ==> shown[2][0].text == input.error->Some_0
            &&& input.error is None ==> shown[2][0].text.len() == 0
            &&& shown[3] == seq![
                PieceView {
                    text: "enter add · esc cancel · ctrl+u clear"@,
                    paint: Paint::Muted,
                    bold: false,
                },
            ]
        }),
{
}

/// The cursor stands behind what was typed, and at the last cell of the dialog at most.
pub proof fn where_the_cursor_stands(input: PathInputView, left: u16, right: u16)
    ensures
        left + 2 + input.text.len() < right ==> cursor_column_of(input, left, right) == left + 2
            + input.text.len(),
        0 < right <= left + 2 + input.text.len() ==> cursor_column_of(input, left, right) == right
            - 1,
        right == 0 ==> cursor_column_of(input, left, right) == 0,
{
}

/// A dialog shows its lines in their order, each in the color of its tone.
pub proof fn dialogs_show_every_line(confirm: ConfirmView, k: int)
    requires
        0 <= k < confirm.lines.len(),
    ensures
        confirm_pieces(confirm).len() == confirm.lines.len(),
        confirm_pieces(confirm)[k] == (PieceView {
            text: confirm.lines[k].0,
            paint: match confirm.lines[k].1 {
                Tone::Normal => Paint::Plain,
                Tone::Muted => Paint::Muted,
                Tone::Warn => Paint::Warning,
                Tone::Danger => Paint::Deleted,
            },
            bold: false,
        }),
{
}

/// The first button says what is done, the second one that nothing is.
pub proof fn what_the_buttons_say(confirm: ConfirmView)
    ensures
        button_texts(confirm).0 == "[ y "@ + confirm.yes + " ]"@,
        button_texts(confirm).1 == "[ n Cancel ]"@,
{
}

/// A padded text is itself, followed by blanks only up to the width.
pub proof fn padding_adds_blanks_only(text: Seq<char>, width: nat)
    ensures
        ({
            let wide = padded(text, width);
            &&& text.is_prefix_of(wide)
            &&& text.len() <= width ==> wide.len() == width
            &&& text.len() > width ==> wide == text
            &&& forall|i: int| text.len() <= i < wide.len() ==> #[trigger] wide[i] == ' '
        }),
{
    assert(text.is_prefix_of(padded(text, width)));
}

/// A job in the panel: its state, what it does and to what, with what came of it. Only a failed one
/// has more lines, which are those of git's error, indented.
pub proof fn what_a_job_shows_in_the_panel(job: JobEntryView)
    ensures
        ({
            let shown = job_lines(job);
            let what = match job.verb {
                Verb::Delete => " delete "@ + job.label,
                Verb::Sync => " sync "@ + job.label,
            };
            &&& shown.len() >= 1
            &&& !shown[0].bold
            &&& match job.state {
                JobStateView::Pending => shown.len() == 1 && shown[0].text == "pending"@ + what
                    && shown[0].paint == Paint::Muted,
                JobStateView::Running => shown.len() == 1 && shown[0].text == "running"@ + what
                    && shown[0].paint == Paint::Accent,
                JobStateView::Done(summary) => shown.len() == 1 && shown[0].text == "done"@ + what
                    + "  "@ + summary && shown[0].paint == Paint::Added,
                JobStateView::Skipped(reason) => shown.len() == 1 && shown[0].text == "skipped"@
                    + what + "  "@ + reason && shown[0].paint == Paint::Warning,
                JobStateView::Failed(err) => {
                    &&& shown.len() == 1 + lines(err).len()
                    &&& shown[0].text == "failed"@ + what
                    &&& shown[0].paint == Paint::Deleted
                    &&& forall|k: int|
                        0 <= k < lines(err).len() ==> shown[k + 1] == (PieceView {
                            text: "    "@ + #[trigger] lines(err)[k],
                            paint: Paint::Deleted,
                            bold: false,
                        })
                },
            }
        }),
{
    reveal_strlit(" ");
    reveal_strlit("delete");
    reveal_strlit("sync");
    reveal_strlit(" delete ");
    reveal_strlit(" sync ");
    assert(" "@ + "delete"@ + " "@ =~= " delete "@);
    assert(" "@ + "sync"@ + " "@ =~= " sync "@);
    let (word, paint) = super::dialogs::state_word(job.state);
    match job.verb {
        Verb::Delete => {
            assert(word + " "@ + "delete"@ + " "@ + job.label =~= word + (" delete "@ + job.label));
        },
        Verb::Sync => {
            assert(word + " "@ + "sync"@ + " "@ + job.label =~= word + (" sync "@ + job.label));
        },
    }
}

/// The panel shows all jobs, the oldest first: one that is added comes below the others.
pub proof fn the_panel_shows_every_job(jobs: Seq<JobEntryView>, job: JobEntryView)
    ensures
        queue_content(Seq::empty()).len() == 0,
        queue_content(jobs.push(job)) == queue_content(jobs) + job_lines(job),
{
    assert(jobs.push(job).drop_last() =~= jobs);
}

// ---------------------------------------------------------------------------------------------
// Places
// ---------------------------------------------------------------------------------------------

/// Cells are counted exactly up to the last one that there can be.
pub proof fn cells_are_counted_up_to_the_last(a: u16, b: nat)
    ensures
        b <= u16::MAX ==> cells(b) == b,
        b > u16::MAX ==> cells(b) == u16::MAX,
        a + b <= u16::MAX ==> onward(a, b) == a + b,
        a + b > u16::MAX ==> onward(a, b) == u16::MAX,
{
}

/// The rows of a table start one line below its top, under the header, and reach to its end.
pub proof fn rows_lie_under_the_header(area: Rect, offset: usize, x: u16, y: u16)
    requires
        area.y + area.height <= u16::MAX,
    ensures
        rows_in(area, offset).offset == offset,
        rows_in(area, offset).row_height == 1,
        rows_in(area, offset).area.covers(x, y) <==> area.covers(x, y) && y != area.y,
{
}

/// Where the columns of the worktree table start: the mark behind the cursor, and each other column
/// one cell behind the one before.
pub proof fn columns_follow_each_other(branch: u16, column: int)
    requires
        0 < column < 9,
    ensures
        column_widths(branch).len() == 9,
        column_widths(branch)[1] == branch,
        column_start(column_widths(branch), 0) == 2,
        column_start(column_widths(branch), column) == column_start(
            column_widths(branch),
            column - 1,
        ) + column_widths(branch)[column - 1] + 1,
        column_start(column_widths(branch), 5) == 34 + branch,
{
    reveal_with_fuel(column_start, 6);
}

/// A click counts as one on a column when it is in a row and between the sides of the column.
pub proof fn what_a_column_covers(rows: Rect, branch: u16, x: u16, y: u16)
    requires
        rows.x + branch + 48 <= u16::MAX,
    ensures
        column_area(rows, branch, 0).covers(x, y) <==> {
            &&& x == rows.x + 2
            &&& Rect { x, width: 1, ..rows }.covers(x, y)
        },
        column_area(rows, branch, 5).covers(x, y) <==> {
            &&& rows.x + branch + 34 <= x < rows.x + branch + 48
            &&& Rect { x, width: 1, ..rows }.covers(x, y)
        },
{
    reveal_with_fuel(column_start, 6);
}

/// Two texts side by side take a line each as wide as they are, the second one the gap behind the
/// first.
pub proof fn neighbours_are_a_gap_apart(area: Rect, first: nat, second: nat, gap: u16)
    requires
        area.x + first + gap + second <= u16::MAX,
    ensures
        pair_areas(area, first, second, gap).0 == (Rect {
            x: area.x,
            y: area.y,
            width: first as u16,
            height: 1,
        }),
        pair_areas(area, first, second, gap).1 == (Rect {
            x: (area.x + first + gap) as u16,
            y: area.y,
            width: second as u16,
            height: 1,
        }),
{
}

proof fn lemma_longest_line(lines: Seq<PieceView>)
    ensures
        forall|k: int| 0 <= k < lines.len() ==> (#[trigger] lines[k]).text.len() <= longest_line(
            lines,
        ),
        longest_line(lines) == 0 || exists|k: int|
            0 <= k < lines.len() && (#[trigger] lines[k]).text.len() == longest_line(lines),
    decreases lines.len(),
{
    if lines.len() > 0 {
        let fewer = lines.drop_last();
        lemma_longest_line(fewer);
        assert(lines.last() == lines[lines.len() - 1]);
        assert forall|k: int| 0 <= k < lines.len() implies (#[trigger] lines[k]).text.len()
            <= longest_line(lines) by {
            if k < fewer.len() {
                assert(fewer[k] == lines[k]);
                assert(fewer[k].text.len() <= longest_line(fewer));
            }
        }
        if longest_line(lines) == longest_line(fewer) && longest_line(fewer) > 0 {
            let k = choose|k: int|
                0 <= k < fewer.len() && (#[trigger] fewer[k]).text.len() == longest_line(fewer);
            assert(lines[k].text.len() == longest_line(lines));
        }
    }
}

/// A dialog is four cells wider than its longest line, but at least 64 cells wide, and four lines
/// higher than its text.
pub proof fn dialogs_fit_their_lines(lines: Seq<PieceView>)
    requires
        lines.len() + 4 <= u16::MAX,
        longest_line(lines) + 4 <= u16::MAX,
    ensures
        ({
            let (width, height) = dialog_size_of(lines);
            &&& height == lines.len() + 4
            &&& width >= 64
            &&& forall|k: int|
                0 <= k < lines.len() ==> (#[trigger] lines[k]).text.len() + 4 <= width
            &&& width > 64 ==> exists|k: int|
                0 <= k < lines.len() && (#[trigger] lines[k]).text.len() + 4 == width
        }),
{
    lemma_longest_line(lines);
}

} // verus!
