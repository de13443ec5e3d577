//! What the sync dialog says and what accepting it does.
use vstd::prelude::*;

use super::actions::{
    batch_sync_dialog, planned_syncs, rows_of, rows_within, skipped_syncs, sync_asked, sync_dialog,
    sync_row_lines,
};
use super::input::pressed;
use super::plan::{label_of, skip_line, skipped_row, sync_line, sync_plan, sync_refusal, sync_skip};
use super::queue::enqueued;
use super::state::{
    ActionView, AppView, Button, Focus, ModeView, PlannedView, ProjectView, SkippedView,
    SyncJobView, Tab, Tone, Verb,
};
use crate::config::displayed;
use crate::git::{SyncStatusView, WorktreeInfoView, WorktreeStatsView};
use crate::text::decimal;
use crate::worker::JobView;

verus! {

/// A number of commits in words.
pub open spec fn commits(n: nat) -> Seq<char> {
    decimal(n) + " "@ + if n == 1 {
        "commit"@
    } else {
        "commits"@
    }
}

/// A number of files in words.
pub open spec fn file_count(n: nat) -> Seq<char> {
    decimal(n) + " "@ + if n == 1 {
        "file"@
    } else {
        "files"@
    }
}

/// Why a worktree is not synced. It needs a branch, a state that could be read, work that is not merged
/// already, and a merge that was checked and is ready; what is missing first is what is said, once in
/// full for a single row and once in short for one of several.
pub proof fn what_stands_against_a_sync(info: WorktreeInfoView, base: Seq<char>)
    ensures
        ({
            let full = sync_refusal(info, base);
            let short = sync_skip(info);
            match info.worktree.branch {
                None => full == Some("Detached HEAD: check out a branch in it to sync."@) && short
                    == Some("detached HEAD"@),
                Some(branch) => match info.stats {
                    Err(err) => full == Some("Can't sync "@ + branch + ": "@ + err) && short == Some(
                        err,
                    ),
                    Ok(stats) => {
                        &&& stats.merged is Some ==> full == Some(
                            branch + " is already merged into "@ + base + "; delete it (x) instead."@,
                        ) && short == Some("already merged"@)
                        &&& stats.merged is None ==> match stats.sync {
                            None => full == Some(
                                "Still checking whether it can sync, try again in a moment."@,
                            ) && short == Some("still being checked"@),
                            Some(SyncStatusView::UpToDate) => full == Some(
                                branch + " is already up to date with "@ + base + "."@,
                            ) && short == Some("up to date"@),
                            Some(SyncStatusView::Dirty) => full == Some(
                                branch
                                    + " has uncommitted changes. Commit or stash them, then sync."@,
                            ) && short == Some("uncommitted changes"@),
                            Some(SyncStatusView::Conflicts(files)) => full == Some(
                                "Merging "@ + base + " into "@ + branch + " would conflict in "@
                                    + file_count(files.len()) + ". Merge by hand."@,
                            ) && short == Some("would conflict in "@ + file_count(files.len())),
                            Some(SyncStatusView::Unknown(why)) => full == Some(
                                "Can't check "@ + branch + ": "@ + why,
                            ) && short == Some(why),
                            Some(SyncStatusView::Ready { .. }) => full is None && short is None,
                        }
                    },
                },
            }
        }),
{
}

/// The question before one branch is synced: what is merged into what, how far it is behind and ahead,
/// whether that makes a merge commit, and the command with its directory. Accepting it queues one merge
/// of `base` in that worktree, under the name of its branch.
pub proof fn what_a_sync_dialog_says(
    info: WorktreeInfoView,
    stats: WorktreeStatsView,
    branch: Seq<char>,
    ff: bool,
    base: Seq<char>,
    home: Option<Seq<char>>,
)
    requires
        info.worktree.branch == Some(branch),
        info.stats == Ok::<WorktreeStatsView, Seq<char>>(stats),
        stats.sync == Some(SyncStatusView::Ready { ff }),
    ensures
        ({
            let dialog = sync_dialog(info, base, home);
            &&& dialog.title == " Sync with origin "@
            &&& dialog.yes == "Sync"@
            &&& !dialog.danger
            &&& dialog.lines.len() == 4
            &&& dialog.lines[0] == ("Merge "@ + base + " into "@ + branch + "?"@, Tone::Normal)
            &&& dialog.lines[1] == (
                branch + " is "@ + commits(stats.behind as nat) + " behind and "@ + commits(
                    stats.ahead as nat,
                ) + " ahead."@,
                Tone::Normal,
            )
            &&& ff ==> dialog.lines[2] == ("Fast-forward: no merge commit needed."@, Tone::Muted)
            &&& !ff ==> dialog.lines[2] == (
                "Creates a merge commit. No history is rewritten, so it is safe for pushed branches."@,
                Tone::Muted,
            )
            &&& dialog.lines[3] == (
                "Runs: git merge "@ + base + "  (in "@ + displayed(info.worktree.path, home) + ")"@,
                Tone::Muted,
            )
            &&& dialog.action == ActionView::Sync(
                SyncJobView { worktree: info.worktree.path, branch, base },
            )
        }),
{
}

/// Accepting the question for one branch queues one job on the selected project: a merge of the base in
/// that worktree.
pub proof fn accepting_a_sync_queues_one_merge(app: AppView, job: SyncJobView)
    requires
        app.wf(),
        app.project_list is Some,
        app.mode is Confirm,
        app.mode->Confirm_0.action == ActionView::Sync(job),
    ensures
        pressed(app, Button::Yes) == enqueued(
            AppView { mode: ModeView::Normal, ..app },
            app.projects[app.project_list->Some_0 as int].path,
            seq![
                PlannedView {
                    worktree: job.worktree,
                    label: job.branch,
                    verb: Verb::Sync,
                    job: JobView::Sync { worktree: job.worktree, base: job.base },
                },
            ],
            Seq::empty(),
        ),
{
}

/// Accepting a dialog for several rows queues exactly its plan on the project that it names.
pub proof fn accepting_a_plan_queues_it(
    app: AppView,
    project: Seq<char>,
    planned: Seq<PlannedView>,
    skipped: Seq<SkippedView>,
)
    requires
        app.mode is Confirm,
        app.mode->Confirm_0.action == (ActionView::Queue { project, planned, skipped }),
    ensures
        pressed(app, Button::Yes) == enqueued(
            AppView { mode: ModeView::Normal, ..app },
            project,
            planned,
            skipped,
        ),
{
}

/// The dialog for several rows speaks of every row: how one that is ready is synced, and for any other
/// its label and why it is skipped. Accepting it merges the base in each ready worktree, once.
pub proof fn a_sync_dialog_covers_every_row(project: ProjectView, rows: Seq<int>, k: int)
    requires
        rows_within(rows, project.worktree_list().len()),
        0 <= k < rows.len(),
    ensures
        ({
            let info = project.worktree_list()[rows[k]];
            let dialog = batch_sync_dialog(project, rows);
            let n = dialog.action->planned.len();
            &&& dialog.title == " Sync "@ + decimal(n) + " with origin "@
            &&& dialog.yes == "Sync "@ + decimal(n)
            &&& dialog.action is Queue
            &&& dialog.action->project == project.path
            &&& dialog.lines.len() == rows.len()
            &&& n + dialog.action->skipped.len() == rows.len()
            &&& sync_skip(info) matches Some(why) ==> {
                &&& dialog.lines[k] == (
                    "• "@ + label_of(info) + " skipped: "@ + why,
                    Tone::Muted,
                )
                &&& dialog.action->skipped.contains(
                    SkippedView {
                        worktree: info.worktree.path,
                        label: label_of(info),
                        verb: Verb::Sync,
                        reason: why,
                    },
                )
            }
            &&& sync_skip(info) is None ==> {
                let stats = info.stats->Ok_0;
                &&& dialog.lines[k] == (
                    "• "@ + label_of(info) + if stats.sync->Some_0->ff {
                        ": fast-forward"@
                    } else {
                        ": merge commit ("@ + decimal(stats.behind as nat) + " behind, "@ + decimal(
                            stats.ahead as nat,
                        ) + " ahead)"@
                    },
                    Tone::Normal,
                )
                &&& dialog.action->planned.contains(
                    PlannedView {
                        worktree: info.worktree.path,
                        label: label_of(info),
                        verb: Verb::Sync,
                        job: JobView::Sync {
                            worktree: info.worktree.path,
                            base: "origin/"@ + match project.default_branch {
                                Some(branch) => branch,
                                None => "main"@,
                            },
                        },
                    },
                )
            }
        }),
{
    lemma_row(project, rows, k);
    super::laws::every_row_is_planned_or_skipped(project, rows);
}

/// One more row adds its line and its merge, or the reason why it is skipped, behind the others.
pub proof fn one_more_row_to_sync(project: ProjectView, rows: Seq<int>, row: int)
    ensures
        ({
            let fewer = batch_sync_dialog(project, rows);
            let dialog = batch_sync_dialog(project, rows.push(row));
            let none = batch_sync_dialog(project, Seq::empty());
            let info = project.worktree_list()[row];
            &&& none.lines.len() == 0
            &&& none.action->planned.len() == 0
            &&& none.action->skipped.len() == 0
            &&& dialog.lines.len() == fewer.lines.len() + 1
            &&& dialog.lines.drop_last() == fewer.lines
            &&& !dialog.danger
            &&& sync_skip(info) is None ==> {
                &&& dialog.action->planned == fewer.action->planned.push(
                    PlannedView {
                        worktree: info.worktree.path,
                        label: label_of(info),
                        verb: Verb::Sync,
                        job: JobView::Sync {
                            worktree: info.worktree.path,
                            base: project.base(),
                        },
                    },
                )
                &&& dialog.action->skipped == fewer.action->skipped
            }
            &&& sync_skip(info) matches Some(why) ==> {
                &&& dialog.action->planned == fewer.action->planned
                &&& dialog.action->skipped == fewer.action->skipped.push(
                    SkippedView {
                        worktree: info.worktree.path,
                        label: label_of(info),
                        verb: Verb::Sync,
                        reason: why,
                    },
                )
            }
        }),
{
    assert(rows.push(row).drop_last() =~= rows);
    let fewer = batch_sync_dialog(project, rows);
    let dialog = batch_sync_dialog(project, rows.push(row));
    assert(dialog.lines.drop_last() =~= fewer.lines);
}

proof fn lemma_row(project: ProjectView, rows: Seq<int>, k: int)
    requires
        0 <= k < rows.len(),
    ensures
        ({
            let info = project.worktree_list()[rows[k]];
            let body = sync_row_lines(project, rows);
            &&& body.len() == rows.len()
            &&& match sync_skip(info) {
                None => {
                    &&& body[k] == sync_line(info)
                    &&& planned_syncs(project, rows).contains(
                        sync_plan(info.worktree.path, label_of(info), project.base()),
                    )
                },
                Some(why) => {
                    &&& body[k] == skip_line(label_of(info), why)
                    &&& skipped_syncs(project, rows).contains(skipped_row(info, Verb::Sync, why))
                },
            }
        }),
    decreases rows.len(),
{
    let fewer = rows.drop_last();
    let before = sync_row_lines(project, fewer);
    let info = project.worktree_list()[rows[k]];
    let planned = planned_syncs(project, fewer);
    let skipped = skipped_syncs(project, fewer);
    if k < rows.len() - 1 {
        assert(fewer[k] == rows[k]);
        lemma_row(project, fewer, k);
        match sync_skip(info) {
            None => {
                let plan = sync_plan(info.worktree.path, label_of(info), project.base());
                let i = choose|i: int| 0 <= i < planned.len() && planned[i] == plan;
                assert(planned_syncs(project, rows)[i] == plan);
            },
            Some(why) => {
                let row = skipped_row(info, Verb::Sync, why);
                let i = choose|i: int| 0 <= i < skipped.len() && skipped[i] == row;
                assert(skipped_syncs(project, rows)[i] == row);
            },
        }
    } else {
        if fewer.len() > 0 {
            lemma_row(project, fewer, fewer.len() - 1);
        }
        match sync_skip(info) {
            None => {
                assert(planned_syncs(project, rows)[planned.len() as int] == sync_plan(
                    info.worktree.path,
                    label_of(info),
                    project.base(),
                ));
            },
            Some(why) => {
                assert(skipped_syncs(project, rows)[skipped.len() as int] == skipped_row(
                    info,
                    Verb::Sync,
                    why,
                ));
            },
        }
    }
}

/// `s` says why nothing can be synced, or opens the dialog for the rows it acts on and changes nothing
/// else. One row has its own dialog and its own reasons.
pub proof fn what_s_does(app: AppView)
    requires
        app.wf(),
    ensures
        ({
            let after = sync_asked(app);
            let list_open = app.tab == Tab::Worktrees && app.focus != Focus::Projects;
            let status = |message: Seq<char>|
                after == (AppView { status: Some((message, app.now)), ..app });
            &&& !list_open ==> status("Select a worktree row first (l to open the list)."@)
            &&& list_open && app.project_list is None ==> status("No project selected."@)
            &&& list_open && app.project_list is Some ==> {
                let project = app.projects[app.project_list->Some_0 as int];
                let rows = rows_of(project);
                let busy = project.refreshing || project.prs_loading;
                let base = "origin/"@ + match project.default_branch {
                    Some(branch) => branch,
                    None => "main"@,
                };
                &&& busy ==> status("Wait until the current refresh or action has finished."@)
                &&& !busy && project.worktree_list().len() == 0 ==> status(
                    "Select a worktree row first."@,
                )
                &&& !busy && project.worktree_list().len() > 0 && rows.len() == 1 ==> {
                    let info = project.worktree_list()[rows[0]];
                    match sync_refusal(info, base) {
                        Some(why) => status(why),
                        None => after == (AppView {
                            mode: ModeView::Confirm(sync_dialog(info, base, app.home)),
                            ..app
                        }),
                    }
                }
                &&& !busy && project.worktree_list().len() > 0 && rows.len() != 1 ==> if (exists|
                    k: int,
                |
                    0 <= k < rows.len() && sync_skip(
                        project.worktree_list()[#[trigger] rows[k]],
                    ) is None) {
                    after == (AppView {
                        mode: ModeView::Confirm(batch_sync_dialog(project, rows)),
                        ..app
                    })
                } else {
                    status("None of the marked worktrees can be synced."@)
                }
            }
        }),
{
    if let Some(i) = app.project_list {
        let project = app.projects[i as int];
        assert(project.wf());
        let rows = rows_of(project);
        if project.worktree_list().len() > 0 {
            assert(project.selected_worktree() is Some);
        }
        if exists|k: int|
            0 <= k < rows.len() && sync_skip(project.worktree_list()[#[trigger] rows[k]]) is None {
            let k = choose|k: int|
                0 <= k < rows.len() && sync_skip(
                    project.worktree_list()[#[trigger] rows[k]],
                ) is None;
            lemma_row(project, rows, k);
        } else {
            lemma_none(project, rows);
        }
    }
}

proof fn lemma_none(project: ProjectView, rows: Seq<int>)
    requires
        forall|k: int|
            0 <= k < rows.len() ==> sync_skip(
                project.worktree_list()[#[trigger] rows[k]],
            ) is Some,
    ensures
        planned_syncs(project, rows).len() == 0,
    decreases rows.len(),
{
    if rows.len() > 0 {
        let fewer = rows.drop_last();
        assert forall|k: int| 0 <= k < fewer.len() implies sync_skip(
            project.worktree_list()[#[trigger] fewer[k]],
        ) is Some by {
            assert(fewer[k] == rows[k]);
        }
        lemma_none(project, fewer);
        assert(rows[rows.len() - 1] == rows.last());
    }
}

/// What a row is called: its branch, whole; a detached HEAD by the beginning of its commit.
pub proof fn rows_are_called_by_their_branch(info: WorktreeInfoView)
    ensures
        info.worktree.branch matches Some(branch) ==> label_of(info) == branch,
        info.worktree.branch is None && info.worktree.head is None ==> label_of(info)
            == "(unknown)"@,
        info.worktree.branch is None && info.worktree.head is Some ==> label_of(info)
            == "(detached "@ + super::plan::beginning(info.worktree.head->Some_0, 7) + ")"@,
{
}

/// The beginning of a text that fits into so many bytes: for ASCII as many characters, or all of them.
pub proof fn the_beginning_of_a_commit(s: Seq<char>, n: nat)
    requires
        forall|i: int| 0 <= i < s.len() ==> (#[trigger] s[i] as u32) < 0x80,
    ensures
        super::plan::beginning(s, n) == if s.len() <= n {
            s
        } else {
            s.take(n as int)
        },
    decreases s.len(),
{
    if s.len() > 0 && n > 0 {
        let rest = s.drop_first();
        assert forall|i: int| 0 <= i < rest.len() implies (#[trigger] rest[i] as u32) < 0x80 by {
            assert(rest[i] == s[i + 1]);
            assert((s[i + 1] as u32) < 0x80);
        }
        the_beginning_of_a_commit(rest, (n - 1) as nat);
        assert((s[0] as u32) < 0x80);
        assert(seq![s[0]] + rest =~= s);
        if s.len() > n {
            assert(seq![s[0]] + rest.take(n - 1) =~= s.take(n as int));
        }
    } else {
        if s.len() > 0 {
            assert((s[0] as u32) < 0x80);
            assert(s.take(0) =~= Seq::empty());
        } else {
            assert(s =~= Seq::empty());
        }
    }
}

/// How many bytes a text takes in UTF-8.
pub open spec fn bytes_of(s: Seq<char>) -> nat
    decreases s.len(),
{
    if s.len() == 0 {
        0
    } else {
        super::plan::width(s[0]) + bytes_of(s.drop_first())
    }
}

/// The beginning of a text fits into the bytes, and one more character would not. A character takes
/// one byte up to U+007F, two up to U+07FF, three up to U+FFFF and four beyond.
pub proof fn a_beginning_is_as_long_as_fits(s: Seq<char>, n: nat, c: char)
    ensures
        ({
            let start = super::plan::beginning(s, n);
            &&& start.len() <= s.len()
            &&& start == s.take(start.len() as int)
            &&& bytes_of(start) <= n
            &&& start.len() < s.len() ==> bytes_of(start) + super::plan::width(
                s[start.len() as int],
            ) > n
        }),
        c as u32 <= 0x7f ==> super::plan::width(c) == 1,
        0x80 <= c as u32 <= 0x7ff ==> super::plan::width(c) == 2,
        0x800 <= c as u32 <= 0xffff ==> super::plan::width(c) == 3,
        c as u32 > 0xffff ==> super::plan::width(c) == 4,
    decreases s.len(),
{
    let start = super::plan::beginning(s, n);
    if s.len() == 0 || super::plan::width(s[0]) > n {
        assert(start =~= s.take(0));
    } else {
        let rest = s.drop_first();
        let left = (n - super::plan::width(s[0])) as nat;
        a_beginning_is_as_long_as_fits(rest, left, c);
        let inner = super::plan::beginning(rest, left);
        assert(start =~= seq![s[0]] + inner);
        assert(start.drop_first() =~= inner);
        assert(start =~= s.take(start.len() as int));
        if start.len() < s.len() {
            assert(rest[inner.len() as int] == s[start.len() as int]);
        }
    }
}

} // verus!
