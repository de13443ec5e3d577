//! What the delete dialog says and what accepting it does.
use vstd::prelude::*;

use super::actions::{
    delete_asked, delete_dialog, delete_row_lines, lemma_marked_rows, marked_rows, planned_deletes,
    rows_of, rows_within, skipped_deletes,
};
use super::plan::{
    counted, delete_lines, delete_plan, delete_refusal, label_of, losses, merged_line, skip_line,
    skipped_row, state_lines, untracked_count,
};
use super::state::{
    AppView, Focus, ModeView, PlannedView, ProjectView, SkippedView, Tab, Tone, Verb,
};
use crate::config::displayed;
use crate::git::{WorktreeInfoView, WorktreeStatsView};
use crate::model::FileStatView;
use crate::paths::{components, same_path};
use crate::text::decimal;
use crate::worker::JobView;

verus! {

/// A count with its noun: the first form for one, the second for any other number.
pub proof fn one_takes_the_singular(count: nat, one: Seq<char>, many: Seq<char>)
    ensures
        count == 1 ==> counted(count, one, many) == decimal(count) + " "@ + one,
        count != 1 ==> counted(count, one, many) == decimal(count) + " "@ + many,
{
}

/// Every untracked file counts once, and no other file does.
pub proof fn untracked_files_count_once(files: Seq<FileStatView>, file: FileStatView)
    ensures
        untracked_count(Seq::empty()) == 0,
        file.untracked ==> untracked_count(files.push(file)) == untracked_count(files) + 1,
        !file.untracked ==> untracked_count(files.push(file)) == untracked_count(files),
{
    assert(files.push(file).drop_last() =~= files);
}

proof fn lemma_in_both<T>(a: Seq<T>, b: Seq<T>, x: T)
    ensures
        a.contains(x) ==> (a + b).contains(x),
        b.contains(x) ==> (a + b).contains(x),
        (a + b).contains(x) ==> a.contains(x) || b.contains(x),
{
    if a.contains(x) {
        let i = choose|i: int| 0 <= i < a.len() && a[i] == x;
        assert((a + b)[i] == x);
    }
    if b.contains(x) {
        let i = choose|i: int| 0 <= i < b.len() && b[i] == x;
        assert((a + b)[a.len() + i] == x);
    }
    if (a + b).contains(x) {
        let i = choose|i: int| 0 <= i < (a + b).len() && (a + b)[i] == x;
        if i < a.len() {
            assert(a[i] == x);
        } else {
            assert(b[i - a.len()] == x);
        }
    }
}

proof fn lemma_one<T>(x: T)
    ensures
        seq![x].contains(x),
{
    assert(seq![x][0] == x);
}

/// The warning of uncommitted changes.
pub open spec fn uncommitted_warning(changed: nat, untracked: nat) -> (Seq<char>, Tone) {
    (
        "  ⚠ uncommitted changes: "@ + (decimal(changed) + " "@ + if changed == 1 {
            "changed file"@
        } else {
            "changed files"@
        }) + ", "@ + (decimal(untracked) + " "@ + if untracked == 1 {
            "untracked file"@
        } else {
            "untracked files"@
        }),
        Tone::Warn,
    )
}

/// The warning of commits that origin does not have.
pub open spec fn unpushed_warning(commits: nat) -> (Seq<char>, Tone) {
    (
        "  ⚠ "@ + (decimal(commits) + " "@ + if commits == 1 {
            "commit"@
        } else {
            "commits"@
        }) + " not on origin (unpushed)"@,
        Tone::Warn,
    )
}

/// The warning of commits that only this branch has.
pub open spec fn unmerged_warning(base: Seq<char>, commits: nat) -> (Seq<char>, Tone) {
    (
        "  ⚠ branch not merged into "@ + base + ": "@ + (decimal(commits) + " "@ + if commits
            == 1 {
            "commit"@
        } else {
            "commits"@
        }) + " only on this branch"@,
        Tone::Warn,
    )
}

pub open spec fn one_if(holds: bool) -> nat {
    if holds {
        1
    } else {
        0
    }
}

proof fn lemma_losses(has_branch: bool, stats: WorktreeStatsView, base: Seq<char>)
    ensures
        ({
            let untracked = untracked_count(stats.files);
            let dirty = stats.uncommitted > 0 || untracked > 0;
            let unpushed = stats.unpushed > 0 && stats.merged is None;
            let unmerged = has_branch && stats.ahead > 0 && stats.merged is None;
            let warned = losses(has_branch, stats, base);
            &&& dirty ==> warned.contains(uncommitted_warning(stats.uncommitted as nat, untracked))
            &&& unpushed ==> warned.contains(unpushed_warning(stats.unpushed as nat))
            &&& unmerged ==> warned.contains(unmerged_warning(base, stats.ahead as nat))
            &&& warned.len() == one_if(dirty) + one_if(unpushed) + one_if(unmerged)
        }),
{
    let untracked = untracked_count(stats.files);
    let a = if stats.uncommitted > 0 || untracked > 0 {
        seq![uncommitted_warning(stats.uncommitted as nat, untracked)]
    } else {
        Seq::empty()
    };
    let b = if stats.unpushed > 0 && stats.merged is None {
        seq![unpushed_warning(stats.unpushed as nat)]
    } else {
        Seq::empty()
    };
    let c = if has_branch && stats.ahead > 0 && stats.merged is None {
        seq![unmerged_warning(base, stats.ahead as nat)]
    } else {
        Seq::empty()
    };
    assert(losses(has_branch, stats, base) == a + b + c);
    lemma_one(uncommitted_warning(stats.uncommitted as nat, untracked));
    lemma_one(unpushed_warning(stats.unpushed as nat));
    lemma_one(unmerged_warning(base, stats.ahead as nat));
    lemma_in_both(a, b, uncommitted_warning(stats.uncommitted as nat, untracked));
    lemma_in_both(a + b, c, uncommitted_warning(stats.uncommitted as nat, untracked));
    lemma_in_both(a, b, unpushed_warning(stats.unpushed as nat));
    lemma_in_both(a + b, c, unpushed_warning(stats.unpushed as nat));
    lemma_in_both(a + b, c, unmerged_warning(base, stats.ahead as nat));
}

/// The line for a lock.
pub open spec fn lock_warning() -> (Seq<char>, Tone) {
    ("  ⚠ locked (git worktree lock); it is unlocked and removed"@, Tone::Warn)
}

/// What the delete dialog says about a worktree. The first line names it, with its branch if it has
/// one. Of a worktree that is not merged it warns of unpushed commits whenever there are any and, on a
/// branch, of commits ahead whenever there are any, with their numbers; it warns of uncommitted
/// changes whenever a file is changed or untracked, with both numbers; it warns of a lock and of a
/// state that cannot be read. None of these depends on the others. Merged work is said to be merged,
/// with the pull request if it is known. Only where there is nothing to warn of and nothing merged
/// the worktree is called clean, and nothing else is said.
pub proof fn what_a_delete_warns_of(
    info: WorktreeInfoView,
    base: Seq<char>,
    home: Option<Seq<char>>,
)
    ensures
        ({
            let said = delete_lines(info, base, home);
            let shown = displayed(info.worktree.path, home);
            &&& info.worktree.branch matches Some(branch) ==> said[0] == (
                "• "@ + shown + "  "@ + ("worktree and local branch "@ + branch),
                Tone::Normal,
            )
            &&& info.worktree.branch is None ==> said[0] == (
                "• "@ + shown + "  "@ + "worktree only (detached HEAD)"@,
                Tone::Normal,
            )
            &&& info.worktree.locked ==> said.contains(lock_warning())
            &&& info.stats is Err ==> said.contains(
                ("  ⚠ could not read the worktree state: "@ + info.stats->Err_0, Tone::Warn),
            ) && said.len() == 2 + one_if(info.worktree.locked)
            &&& info.stats is Ok ==> {
                let stats = info.stats->Ok_0;
                let untracked = untracked_count(stats.files);
                let dirty = stats.uncommitted > 0 || untracked > 0;
                let unpushed = stats.unpushed > 0 && stats.merged is None;
                let unmerged = info.worktree.branch is Some && stats.ahead > 0 && stats.merged is None;
                let warned = one_if(dirty) + one_if(unpushed) + one_if(unmerged) + one_if(
                    info.worktree.locked,
                );
                &&& dirty ==> said.contains(
                    uncommitted_warning(stats.uncommitted as nat, untracked),
                )
                &&& unpushed ==> said.contains(unpushed_warning(stats.unpushed as nat))
                &&& unmerged ==> said.contains(unmerged_warning(base, stats.ahead as nat))
                &&& stats.merged matches Some(merged) ==> said.len() == 2 + warned && said.contains(
                    (
                        match merged.pr {
                            Some(number) => "  ✓ merged (PR #"@ + decimal(number as nat)
                                + "); its work is in "@ + base,
                            None => "  ✓ merged; its work is already in "@ + base,
                        },
                        Tone::Muted,
                    ),
                )
                &&& stats.merged is None && warned > 0 ==> said.len() == 1 + warned
                &&& stats.merged is None && warned == 0 ==> said.len() == 2 && said[1] == (
                    "  clean, pushed and merged"@,
                    Tone::Muted,
                )
            }
        }),
{
    let said = delete_lines(info, base, home);
    let head = seq![said[0]];
    let state = state_lines(info, base);
    assert(said =~= head + state);
    let locked = if info.worktree.locked {
        seq![lock_warning()]
    } else {
        Seq::empty()
    };
    lemma_one(lock_warning());
    lemma_in_both(head, state, lock_warning());
    match info.stats {
        Err(err) => {
            let line = ("  ⚠ could not read the worktree state: "@ + err, Tone::Warn);
            assert(state == seq![line] + locked);
            lemma_one(line);
            lemma_in_both(seq![line], locked, line);
            lemma_in_both(seq![line], locked, lock_warning());
            lemma_in_both(head, state, line);
        },
        Ok(stats) => {
            let has = info.worktree.branch is Some;
            let warned = losses(has, stats, base);
            let all = warned + locked;
            lemma_losses(has, stats, base);
            let w1 = uncommitted_warning(stats.uncommitted as nat, untracked_count(stats.files));
            let w2 = unpushed_warning(stats.unpushed as nat);
            let w3 = unmerged_warning(base, stats.ahead as nat);
            lemma_in_both(warned, locked, w1);
            lemma_in_both(warned, locked, w2);
            lemma_in_both(warned, locked, w3);
            lemma_in_both(warned, locked, lock_warning());
            lemma_in_both(head, state, w1);
            lemma_in_both(head, state, w2);
            lemma_in_both(head, state, w3);
            if let Some(merged) = stats.merged {
                let line = (merged_line(merged, base), Tone::Muted);
                assert(state == seq![line] + all);
                lemma_one(line);
                lemma_in_both(seq![line], all, line);
                lemma_in_both(seq![line], all, lock_warning());
                lemma_in_both(seq![line], all, w1);
                lemma_in_both(head, state, line);
            } else if all.len() > 0 {
                assert(state == all);
            }
        },
    }
}

/// Exactly the main worktree and the default branch are protected, and the reason says which.
pub proof fn which_worktrees_are_protected(
    project: Seq<char>,
    default_branch: Seq<char>,
    info: WorktreeInfoView,
)
    ensures
        ({
            let why = delete_refusal(project, default_branch, info);
            let main = info.worktree.main || same_path(info.worktree.path, project);
            &&& why is None <==> !main && info.worktree.branch != Some(default_branch)
            &&& main ==> why == Some("The main worktree can't be deleted."@)
            &&& !main && info.worktree.branch == Some(default_branch) ==> why == Some(
                default_branch + " is the default branch; tuitree won't delete it."@,
            )
        }),
{
}

/// The worktree of this row is marked.
pub open spec fn row_marked(project: ProjectView, row: int) -> bool {
    0 <= row < project.worktree_list().len() && project.marked.contains(
        components(project.worktree_list()[row].worktree.path),
    )
}

/// The rows that `x` and `s` act on: with marks, exactly the rows of marked worktrees, from the top;
/// without, the selected row.
pub proof fn which_rows_are_acted_on(project: ProjectView, row: int)
    requires
        project.wf(),
    ensures
        ({
            let list = project.worktree_list();
            let rows = rows_of(project);
            &&& (exists|r: int| #[trigger] row_marked(project, r)) ==> (rows.contains(row)
                <==> row_marked(project, row))
            &&& (forall|r: int| !(#[trigger] row_marked(project, r))) && list.len() > 0 ==> rows
                == seq![project.worktree_table->Some_0 as int]
            &&& forall|j: int, k: int| 0 <= j < k < rows.len() ==> rows[j] < rows[k]
        }),
{
    let list = project.worktree_list();
    lemma_rows_of_marks(list, project.marked);
    let all = marked_rows(list, project.marked);
    if exists|r: int| #[trigger] row_marked(project, r) {
        let r = choose|r: int| #[trigger] row_marked(project, r);
        assert(all.contains(r));
    } else {
        if all.len() > 0 {
            assert(all.contains(all[0]));
            assert(row_marked(project, all[0]));
        }
    }
}

proof fn lemma_rows_of_marks(list: Seq<WorktreeInfoView>, marked: Set<Seq<Seq<char>>>)
    ensures
        forall|r: int|
            #[trigger] marked_rows(list, marked).contains(r) <==> 0 <= r < list.len()
                && marked.contains(components(list[r].worktree.path)),
        forall|j: int, k: int|
            0 <= j < k < marked_rows(list, marked).len() ==> marked_rows(list, marked)[j]
                < marked_rows(list, marked)[k],
    decreases list.len(),
{
    lemma_marked_rows(list, marked);
    if list.len() > 0 {
        let fewer = list.drop_last();
        lemma_rows_of_marks(fewer, marked);
        lemma_marked_rows(fewer, marked);
        let before = marked_rows(fewer, marked);
        let all = marked_rows(list, marked);
        let n = list.len() - 1;
        assert forall|r: int| #[trigger] all.contains(r) <==> 0 <= r < list.len()
            && marked.contains(components(list[r].worktree.path)) by {
            if 0 <= r < n {
                assert(fewer[r] == list[r]);
                if before.contains(r) {
                    let i = choose|i: int| 0 <= i < before.len() && before[i] == r;
                    assert(all[i] == r);
                }
                if all.contains(r) {
                    let i = choose|i: int| 0 <= i < all.len() && all[i] == r;
                    assert(before[i] == r);
                }
            } else if r == n && marked.contains(components(list[n].worktree.path)) {
                assert(all[before.len() as int] == n);
            } else if all.contains(r) {
                let i = choose|i: int| 0 <= i < all.len() && all[i] == r;
                if i < before.len() {
                    assert(0 <= before[i] < fewer.len());
                }
            }
        }
    }
}

/// The dialog speaks of every row: all that is to be said of one that is deleted, and for one that is
/// skipped its label and the reason. Accepting it queues the deletes and records the skipped rows, each
/// once: a delete goes for the path and the whole branch of its row, under the row's label.
pub proof fn a_delete_dialog_covers_every_row(
    project: ProjectView,
    rows: Seq<int>,
    home: Option<Seq<char>>,
    k: int,
)
    requires
        rows_within(rows, project.worktree_list().len()),
        0 <= k < rows.len(),
    ensures
        ({
            let info = project.worktree_list()[rows[k]];
            let dialog = delete_dialog(project, rows, home);
            let refusal = delete_refusal(project.path, project.default_branch_name(), info);
            &&& refusal is None ==> {
                &&& forall|line: (Seq<char>, Tone)|
                    delete_lines(info, project.base(), home).contains(line)
                        ==> #[trigger] dialog.lines.contains(line)
                &&& dialog.action->planned.contains(
                    PlannedView {
                        worktree: info.worktree.path,
                        label: label_of(info),
                        verb: Verb::Delete,
                        job: JobView::Delete {
                            path: info.worktree.path,
                            branch: info.worktree.branch,
                        },
                    },
                )
            }
            &&& refusal matches Some(why) ==> {
                &&& dialog.lines.contains(
                    ("• "@ + label_of(info) + " skipped: "@ + why, Tone::Muted),
                )
                &&& dialog.action->skipped.contains(
                    SkippedView {
                        worktree: info.worktree.path,
                        label: label_of(info),
                        verb: Verb::Delete,
                        reason: why,
                    },
                )
            }
            &&& dialog.lines.contains(
                (
                    "Deletes with --force: uncommitted and untracked files in them are lost."@,
                    Tone::Warn,
                ),
            )
            &&& dialog.lines.contains(("Remote branches are not touched."@, Tone::Muted))
            &&& dialog.action is Queue
            &&& dialog.action->project == project.path
            &&& dialog.action->planned.len() + dialog.action->skipped.len() == rows.len()
        }),
{
    let dialog = delete_dialog(project, rows, home);
    let body = delete_row_lines(project, rows, home);
    let warning = (
        "Deletes with --force: uncommitted and untracked files in them are lost."@,
        Tone::Warn,
    );
    let remote = ("Remote branches are not touched."@, Tone::Muted);
    let end = seq![warning, remote];
    assert(end[0] == warning);
    assert(end[1] == remote);
    lemma_in_both(body, end, warning);
    lemma_in_both(body, end, remote);
    lemma_row(project, rows, home, k);
    super::laws::every_row_is_planned_or_skipped(project, rows);
    let info = project.worktree_list()[rows[k]];
    assert forall|line: (Seq<char>, Tone)| body.contains(line) implies #[trigger] dialog.lines.contains(
        line,
    ) by {
        lemma_in_both(body, end, line);
    }
}

proof fn lemma_row(project: ProjectView, rows: Seq<int>, home: Option<Seq<char>>, k: int)
    requires
        0 <= k < rows.len(),
    ensures
        ({
            let info = project.worktree_list()[rows[k]];
            let body = delete_row_lines(project, rows, home);
            match delete_refusal(project.path, project.default_branch_name(), info) {
                None => {
                    &&& forall|line: (Seq<char>, Tone)|
                        delete_lines(info, project.base(), home).contains(line)
                            ==> #[trigger] body.contains(line)
                    &&& planned_deletes(project, rows).contains(delete_plan(info))
                },
                Some(why) => {
                    &&& body.contains(skip_line(label_of(info), why))
                    &&& skipped_deletes(project, rows).contains(
                        skipped_row(info, Verb::Delete, why),
                    )
                },
            }
        }),
    decreases rows.len(),
{
    let fewer = rows.drop_last();
    let before = delete_row_lines(project, fewer, home);
    let body = delete_row_lines(project, rows, home);
    let last = project.worktree_list()[rows.last()];
    let info = project.worktree_list()[rows[k]];
    let planned = planned_deletes(project, fewer);
    let skipped = skipped_deletes(project, fewer);
    let refusal = delete_refusal(project.path, project.default_branch_name(), last);
    if k == rows.len() - 1 {
        match refusal {
            None => {
                let new = delete_lines(last, project.base(), home);
                assert forall|line: (Seq<char>, Tone)| new.contains(line) implies
                    #[trigger] body.contains(line) by {
                    lemma_in_both(before, new, line);
                }
                assert(planned_deletes(project, rows)[planned.len() as int] == delete_plan(last));
            },
            Some(why) => {
                assert(body[before.len() as int] == skip_line(label_of(last), why));
                assert(skipped_deletes(project, rows)[skipped.len() as int] == skipped_row(
                    last,
                    Verb::Delete,
                    why,
                ));
            },
        }
    } else {
        assert(fewer[k] == rows[k]);
        lemma_row(project, fewer, home, k);
        assert forall|line: (Seq<char>, Tone)| before.contains(line) implies
            #[trigger] body.contains(line) by {
            match refusal {
                None => {
                    lemma_in_both(before, delete_lines(last, project.base(), home), line);
                },
                Some(why) => {
                    let i = choose|i: int| 0 <= i < before.len() && before[i] == line;
                    assert(body[i] == line);
                },
            }
        }
        match delete_refusal(project.path, project.default_branch_name(), info) {
            None => {
                let i = choose|i: int|
                    0 <= i < planned.len() && planned[i] == delete_plan(info);
                assert(planned_deletes(project, rows)[i] == delete_plan(info));
            },
            Some(why) => {
                let row = skipped_row(info, Verb::Delete, why);
                let i = choose|i: int| 0 <= i < skipped.len() && skipped[i] == row;
                assert(skipped_deletes(project, rows)[i] == row);
                assert(before.contains(skip_line(label_of(info), why)));
            },
        }
    }
}

/// `x` says why nothing can be deleted, or opens the dialog for the rows it acts on and changes nothing
/// else. It says that a row has to be selected first, on the other tab or in the project list; that a
/// refresh has to end first; and what protects the row or that all rows are protected.
pub proof fn what_x_does(app: AppView)
    requires
        app.wf(),
    ensures
        ({
            let after = delete_asked(app);
            let list_open = app.tab == Tab::Worktrees && app.focus != Focus::Projects;
            let status = |message: Seq<char>|
                after == (AppView { status: Some((message, app.now)), ..app });
            &&& !list_open ==> status("Select a worktree row first (l to open the list)."@)
            &&& list_open && app.project_list is None ==> status("No project selected."@)
            &&& list_open && app.project_list is Some ==> {
                let project = app.projects[app.project_list->Some_0 as int];
                let rows = rows_of(project);
                let busy = project.refreshing || project.prs_loading;
                let planned = planned_deletes(project, rows);
                &&& busy ==> status("Wait until the current refresh or action has finished."@)
                &&& !busy && project.worktree_list().len() == 0 ==> status(
                    "Select a worktree row first."@,
                )
                &&& !busy && project.worktree_list().len() > 0 && planned.len() > 0 ==> after == (
                AppView {
                    mode: ModeView::Confirm(delete_dialog(project, rows, app.home)),
                    ..app
                })
                &&& !busy && project.worktree_list().len() > 0 && planned.len() == 0 && rows.len()
                    == 1 ==> status(
                    delete_refusal(
                        project.path,
                        project.default_branch_name(),
                        project.worktree_list()[rows[0]],
                    )->Some_0,
                )
                &&& !busy && project.worktree_list().len() > 0 && planned.len() == 0 && rows.len()
                    > 1 ==> status("None of the marked worktrees can be deleted."@)
            }
        }),
{
    if let Some(i) = app.project_list {
        let project = app.projects[i as int];
        assert(project.wf());
        let rows = rows_of(project);
        super::laws::every_row_is_planned_or_skipped(project, rows);
        lemma_marked_rows(project.worktree_list(), project.marked);
        if planned_deletes(project, rows).len() == 0 && rows.len() == 1 {
            let fewer = rows.drop_last();
            assert(fewer =~= Seq::empty());
            assert(planned_deletes(project, fewer) == Seq::<PlannedView>::empty());
            assert(skipped_deletes(project, fewer) == Seq::<SkippedView>::empty());
            assert(rows.last() == rows[0]);
        }
        if project.worktree_list().len() > 0 {
            assert(project.selected_worktree() is Some);
            assert(rows.len() > 0);
        }
    }
}

/// The dialog's title and button say how many worktrees are deleted; it is not drawn as dangerous.
pub proof fn how_a_delete_dialog_is_headed(
    project: ProjectView,
    rows: Seq<int>,
    home: Option<Seq<char>>,
)
    ensures
        ({
            let dialog = delete_dialog(project, rows, home);
            let n = planned_deletes(project, rows).len();
            &&& n == 1 ==> dialog.title == " Delete worktree "@ && dialog.yes == "Delete"@
            &&& n != 1 ==> dialog.title == " Delete "@ + decimal(n) + " worktrees "@ && dialog.yes
                == "Delete "@ + decimal(n)
            &&& !dialog.danger
        }),
{
}

/// One line, if it is due.
pub open spec fn line_when(due: bool, line: (Seq<char>, Tone)) -> Seq<(Seq<char>, Tone)> {
    if due {
        seq![line]
    } else {
        Seq::empty()
    }
}

/// The order of what is said about a worktree: that it is merged comes first, then uncommitted
/// changes, unpushed commits, unmerged commits and the lock, as far as they apply; for a state that
/// cannot be read the reason, and then the lock.
pub proof fn in_which_order_a_delete_warns(
    info: WorktreeInfoView,
    base: Seq<char>,
    home: Option<Seq<char>>,
)
    ensures
        ({
            let said = delete_lines(info, base, home).skip(1);
            let lock = line_when(info.worktree.locked, lock_warning());
            match info.stats {
                Err(reason) => said == seq![
                    ("  ⚠ could not read the worktree state: "@ + reason, Tone::Warn),
                ] + lock,
                Ok(stats) => {
                    let untracked = untracked_count(stats.files);
                    let open = stats.merged is None;
                    let warned = line_when(
                        stats.uncommitted > 0 || untracked > 0,
                        uncommitted_warning(stats.uncommitted as nat, untracked),
                    ) + line_when(
                        open && stats.unpushed > 0,
                        unpushed_warning(stats.unpushed as nat),
                    ) + line_when(
                        open && info.worktree.branch is Some && stats.ahead > 0,
                        unmerged_warning(base, stats.ahead as nat),
                    ) + lock;
                    &&& open && warned.len() > 0 ==> said == warned
                    &&& !open ==> said.len() == 1 + warned.len() && said.skip(1) == warned
                }
            }
        }),
{
    let all = delete_lines(info, base, home);
    let said = super::plan::state_lines(info, base);
    assert(all.skip(1) =~= said);
    let lock = line_when(info.worktree.locked, lock_warning());
    if let Ok(stats) = info.stats {
        let untracked = untracked_count(stats.files);
        let open = stats.merged is None;
        let a = line_when(
            stats.uncommitted > 0 || untracked > 0,
            uncommitted_warning(stats.uncommitted as nat, untracked),
        );
        let b = line_when(open && stats.unpushed > 0, unpushed_warning(stats.unpushed as nat));
        let c = line_when(
            open && info.worktree.branch is Some && stats.ahead > 0,
            unmerged_warning(base, stats.ahead as nat),
        );
        assert(losses(info.worktree.branch is Some, stats, base) == a + b + c);
        if !open {
            assert(said.skip(1) =~= a + b + c + lock);
        }
    }
}

/// The rows are told in their order, each with its own lines and nothing between them, and the two
/// closing lines come last; one more row adds its lines and its delete, or the reason why it is
/// skipped, behind the others.
pub proof fn one_more_row_to_delete(
    project: ProjectView,
    rows: Seq<int>,
    row: int,
    home: Option<Seq<char>>,
)
    ensures
        ({
            let fewer = delete_dialog(project, rows, home);
            let dialog = delete_dialog(project, rows.push(row), home);
            let none = delete_dialog(project, Seq::empty(), home);
            let info = project.worktree_list()[row];
            let refusal = delete_refusal(project.path, project.default_branch_name(), info);
            let closing = seq![
                (
                    "Deletes with --force: uncommitted and untracked files in them are lost."@,
                    Tone::Warn,
                ),
                ("Remote branches are not touched."@, Tone::Muted),
            ];
            &&& none.lines == closing
            &&& none.action->planned.len() == 0
            &&& none.action->skipped.len() == 0
            &&& fewer.lines.len() >= 2
            &&& refusal is None ==> {
                &&& dialog.lines == fewer.lines.take(fewer.lines.len() - 2) + delete_lines(
                    info,
                    project.base(),
                    home,
                ) + closing
                &&& dialog.action->planned == fewer.action->planned.push(
                    PlannedView {
                        worktree: info.worktree.path,
                        label: label_of(info),
                        verb: Verb::Delete,
                        job: JobView::Delete {
                            path: info.worktree.path,
                            branch: info.worktree.branch,
                        },
                    },
                )
                &&& dialog.action->skipped == fewer.action->skipped
            }
            &&& refusal matches Some(why) ==> {
                &&& dialog.lines == fewer.lines.take(fewer.lines.len() - 2).push(
                    ("• "@ + label_of(info) + " skipped: "@ + why, Tone::Muted),
                ) + closing
                &&& dialog.action->planned == fewer.action->planned
                &&& dialog.action->skipped == fewer.action->skipped.push(
                    SkippedView {
                        worktree: info.worktree.path,
                        label: label_of(info),
                        verb: Verb::Delete,
                        reason: why,
                    },
                )
            }
        }),
{
    let fewer = delete_dialog(project, rows, home);
    let dialog = delete_dialog(project, rows.push(row), home);
    let none = delete_dialog(project, Seq::empty(), home);
    let body = super::actions::delete_row_lines(project, rows, home);
    assert(rows.push(row).drop_last() =~= rows);
    assert(fewer.lines.take(fewer.lines.len() - 2) =~= body);
    assert(none.lines =~= seq![
        (
            "Deletes with --force: uncommitted and untracked files in them are lost."@,
            Tone::Warn,
        ),
        ("Remote branches are not touched."@, Tone::Muted),
    ]);
}

} // verus!
