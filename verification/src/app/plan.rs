//! What can be done with a worktree row: whether it can be deleted or synced, and how the dialogs
//! put it.
use vstd::prelude::*;

use super::state::{Planned, PlannedView, Skipped, SkippedView, Tone, Verb};
use crate::config::{display_path, displayed};
use crate::git::{
    Merged, SyncStatus, SyncStatusView, WorktreeInfo, WorktreeInfoView, WorktreeStats,
    WorktreeStatsView,
};
use crate::model::{FileStat, FileStatView};
use crate::paths::{paths_equal, same_path};
use crate::text::{chars_of, decimal, decimal_of, same_text, string_of};
use crate::worker::{Job, JobView};
use vstd::slice::slice_subrange;

verus! {

// ---------------------------------------------------------------------------------------------
// Labels
// ---------------------------------------------------------------------------------------------

/// How many bytes a character takes in UTF-8.
pub open spec fn width(c: char) -> nat {
    let code = c as u32;
    if code < 0x80 {
        1
    } else if code < 0x800 {
        2
    } else if code < 0x10000 {
        3
    } else {
        4
    }
}

/// The longest beginning of `s` that takes at most `bytes` bytes.
pub open spec fn beginning(s: Seq<char>, bytes: nat) -> Seq<char>
    decreases s.len(),
{
    if s.len() == 0 || width(s[0]) > bytes {
        Seq::empty()
    } else {
        seq![s[0]] + beginning(s.drop_first(), (bytes - width(s[0])) as nat)
    }
}

/// What a worktree row is called: its branch, or the commit of a detached HEAD.
pub open spec fn label_of(info: WorktreeInfoView) -> Seq<char> {
    match (info.worktree.branch, info.worktree.head) {
        (Some(branch), _) => branch,
        (None, Some(head)) => "(detached "@ + beginning(head, 7) + ")"@,
        (None, None) => "(unknown)"@,
    }
}

fn first_bytes(text: &str, bytes: usize) -> (start: String)
    ensures
        start@ == beginning(text@, bytes as nat),
{
    let chars = chars_of(text);
    let mut left = bytes;
    let mut i: usize = 0;
    proof {
        assert(chars@.skip(0) =~= chars@);
        assert(chars@.take(0) + beginning(chars@.skip(0), left as nat) =~= beginning(
            chars@,
            bytes as nat,
        ));
    }
    while i < chars.len()
        invariant_except_break
            i <= chars@.len(),
            chars@.take(i as int) + beginning(chars@.skip(i as int), left as nat) == beginning(
                chars@,
                bytes as nat,
            ),
        ensures
            i <= chars@.len(),
            chars@.take(i as int) == beginning(chars@, bytes as nat),
        decreases chars@.len() - i,
    {
        let code = chars[i] as u32;
        let size: usize = if code < 0x80 {
            1
        } else if code < 0x800 {
            2
        } else if code < 0x10000 {
            3
        } else {
            4
        };
        let ghost rest = chars@.skip(i as int);
        if size > left {
            proof {
                assert(beginning(rest, left as nat) =~= Seq::empty());
                assert(chars@.take(i as int) + Seq::<char>::empty() =~= chars@.take(i as int));
            }
            break ;
        }
        proof {
            assert(rest.drop_first() =~= chars@.skip(i + 1));
            let more = beginning(rest.drop_first(), (left - size) as nat);
            assert(beginning(rest, left as nat) == seq![chars@[i as int]] + more);
            assert(chars@.take(i + 1) + more =~= chars@.take(i as int) + (seq![chars@[i as int]]
                + more));
        }
        left = left - size;
        i = i + 1;
        proof {
            if i == chars@.len() {
                assert(beginning(chars@.skip(i as int), left as nat) =~= Seq::empty());
                assert(chars@.take(i as int) + Seq::<char>::empty() =~= chars@.take(i as int));
            }
        }
    }
    string_of(slice_subrange(chars.as_slice(), 0, i))
}

/// What a worktree row is called: its branch, or the commit of a detached HEAD.
pub fn branch_label(info: &WorktreeInfo) -> (label: String)
    ensures
        label@ == label_of(info.deep_view()),
{
    match (&info.worktree.branch, &info.worktree.head) {
        (Some(branch), _) => branch.clone(),
        (None, Some(head)) => "(detached ".to_owned().concat(&first_bytes(head, 7)).concat(")"),
        (None, None) => "(unknown)".to_owned(),
    }
}

/// `1 file`, `2 files`.
pub open spec fn counted(count: nat, one: Seq<char>, many: Seq<char>) -> Seq<char> {
    decimal(count) + " "@ + if count == 1 {
        one
    } else {
        many
    }
}

/// `1 file`, `2 files`.
pub fn plural(count: u64, one: &str, many: &str) -> (text: String)
    ensures
        text@ == counted(count as nat, one@, many@),
{
    decimal_of(count).concat(" ").concat(
        if count == 1 {
            one
        } else {
            many
        },
    )
}

// ---------------------------------------------------------------------------------------------
// Deleting
// ---------------------------------------------------------------------------------------------

/// Why a worktree cannot be deleted, if it cannot: neither the main worktree nor the default
/// branch is ever deleted.
pub open spec fn delete_refusal(
    project: Seq<char>,
    default_branch: Seq<char>,
    info: WorktreeInfoView,
) -> Option<Seq<char>> {
    if info.worktree.main || same_path(info.worktree.path, project) {
        Some("The main worktree can't be deleted."@)
    } else if info.worktree.branch == Some(default_branch) {
        Some(default_branch + " is the default branch; tuitree won't delete it."@)
    } else {
        None
    }
}

pub fn refuse_delete(project: &str, default_branch: &str, info: &WorktreeInfo) -> (why: Option<
    String,
>)
    ensures
        why.deep_view() == delete_refusal(project@, default_branch@, info.deep_view()),
{
    if info.worktree.main || paths_equal(&info.worktree.path, project) {
        return Some("The main worktree can't be deleted.".to_owned());
    }
    match &info.worktree.branch {
        Some(branch) => if same_text(branch, default_branch) {
            Some(
                default_branch.to_owned().concat(
                    " is the default branch; tuitree won't delete it.",
                ),
            )
        } else {
            None
        },
        None => None,
    }
}

/// How many of the files are untracked.
pub open spec fn untracked_count(files: Seq<FileStatView>) -> nat
    decreases files.len(),
{
    if files.len() == 0 {
        0
    } else {
        untracked_count(files.drop_last()) + if files.last().untracked {
            1nat
        } else {
            0nat
        }
    }
}

fn count_untracked(files: &Vec<FileStat>) -> (count: usize)
    ensures
        count == untracked_count(files.deep_view()),
{
    let ghost all = files.deep_view();
    let mut count: usize = 0;
    let mut i: usize = 0;
    while i < files.len()
        invariant
            count <= i <= files@.len(),
            all == files.deep_view(),
            count == untracked_count(all.take(i as int)),
        decreases files@.len() - i,
    {
        proof {
            assert(all.take(i + 1).drop_last() =~= all.take(i as int));
            assert(all.take(i + 1).last() == files@[i as int].deep_view());
        }
        if files[i].untracked {
            count = count + 1;
        }
        i = i + 1;
    }
    proof {
        assert(all.take(i as int) =~= all);
    }
    count
}

/// The line for work that is already merged.
pub open spec fn merged_line(merged: Merged, base: Seq<char>) -> Seq<char> {
    match merged.pr {
        Some(number) => "  ✓ merged (PR #"@ + decimal(number as nat) + "); its work is in "@ + base,
        None => "  ✓ merged; its work is already in "@ + base,
    }
}

/// What a delete would throw away, one warning per line.
pub open spec fn losses(
    has_branch: bool,
    stats: WorktreeStatsView,
    base: Seq<char>,
) -> Seq<(Seq<char>, Tone)> {
    let untracked = untracked_count(stats.files);
    let uncommitted = if stats.uncommitted > 0 || untracked > 0 {
        seq![
            (
                "  ⚠ uncommitted changes: "@ + counted(
                    stats.uncommitted as nat,
                    "changed file"@,
                    "changed files"@,
                ) + ", "@ + counted(untracked, "untracked file"@, "untracked files"@),
                Tone::Warn,
            ),
        ]
    } else {
        Seq::empty()
    };
    let unpushed = if stats.unpushed > 0 && stats.merged is None {
        seq![
            (
                "  ⚠ "@ + counted(stats.unpushed as nat, "commit"@, "commits"@)
                    + " not on origin (unpushed)"@,
                Tone::Warn,
            ),
        ]
    } else {
        Seq::empty()
    };
    let unmerged = if has_branch && stats.ahead > 0 && stats.merged is None {
        seq![
            (
                "  ⚠ branch not merged into "@ + base + ": "@ + counted(
                    stats.ahead as nat,
                    "commit"@,
                    "commits"@,
                ) + " only on this branch"@,
                Tone::Warn,
            ),
        ]
    } else {
        Seq::empty()
    };
    uncommitted + unpushed + unmerged
}

/// What the delete dialog says about the state of a worktree.
pub open spec fn state_lines(info: WorktreeInfoView, base: Seq<char>) -> Seq<(Seq<char>, Tone)> {
    let locked = if info.worktree.locked {
        seq![
            ("  ⚠ locked (git worktree lock); it is unlocked and removed"@, Tone::Warn),
        ]
    } else {
        Seq::empty()
    };
    match info.stats {
        Err(err) => seq![("  ⚠ could not read the worktree state: "@ + err, Tone::Warn)] + locked,
        Ok(stats) => {
            let warnings = losses(info.worktree.branch is Some, stats, base) + locked;
            match stats.merged {
                Some(merged) => seq![(merged_line(merged, base), Tone::Muted)] + warnings,
                None => if warnings.len() == 0 {
                    seq![("  clean, pushed and merged"@, Tone::Muted)]
                } else {
                    warnings
                },
            }
        },
    }
}

/// What the delete dialog says about a worktree that is to be deleted.
pub open spec fn delete_lines(
    info: WorktreeInfoView,
    base: Seq<char>,
    home: Option<Seq<char>>,
) -> Seq<(Seq<char>, Tone)> {
    let shown = displayed(info.worktree.path, home);
    let what = match info.worktree.branch {
        Some(branch) => "worktree and local branch "@ + branch,
        None => "worktree only (detached HEAD)"@,
    };
    seq![("• "@ + shown + "  "@ + what, Tone::Normal)] + state_lines(info, base)
}

/// What a dialog says about a row that gets no job.
pub open spec fn skip_line(label: Seq<char>, reason: Seq<char>) -> (Seq<char>, Tone) {
    ("• "@ + label + " skipped: "@ + reason, Tone::Muted)
}

pub(crate) fn skip_text(label: &str, reason: &str) -> (line: (String, Tone))
    ensures
        line.deep_view() == skip_line(label@, reason@),
{
    ("• ".to_owned().concat(label).concat(" skipped: ").concat(reason), Tone::Muted)
}

/// Puts a line behind the others.
pub(crate) fn add_line(lines: &mut Vec<(String, Tone)>, text: String, tone: Tone)
    ensures
        final(lines).deep_view() == old(lines).deep_view().push((text@, tone)),
{
    let ghost before = lines.deep_view();
    lines.push((text, tone));
    proof {
        assert(lines.deep_view() =~= before.push((text@, tone)));
    }
}

fn add_losses(lines: &mut Vec<(String, Tone)>, has_branch: bool, stats: &WorktreeStats, base: &str)
    ensures
        final(lines).deep_view() == old(lines).deep_view() + losses(
            has_branch,
            stats.deep_view(),
            base@,
        ),
{
    let ghost before = lines.deep_view();
    let untracked = count_untracked(&stats.files);
    if stats.uncommitted > 0 || untracked > 0 {
        add_line(
            lines,
            "  ⚠ uncommitted changes: ".to_owned().concat(
                &plural(stats.uncommitted, "changed file", "changed files"),
            ).concat(", ").concat(
                &plural(untracked as u64, "untracked file", "untracked files"),
            ),
            Tone::Warn,
        );
    }
    if stats.unpushed > 0 && stats.merged.is_none() {
        add_line(
            lines,
            "  ⚠ ".to_owned().concat(&plural(stats.unpushed, "commit", "commits")).concat(
                " not on origin (unpushed)",
            ),
            Tone::Warn,
        );
    }
    if has_branch && stats.ahead > 0 && stats.merged.is_none() {
        add_line(
            lines,
            "  ⚠ branch not merged into ".to_owned().concat(base).concat(": ").concat(
                &plural(stats.ahead, "commit", "commits"),
            ).concat(" only on this branch"),
            Tone::Warn,
        );
    }
    proof {
        assert(lines.deep_view() =~= before + losses(has_branch, stats.deep_view(), base@));
    }
}

fn add_state(lines: &mut Vec<(String, Tone)>, info: &WorktreeInfo, base: &str)
    ensures
        final(lines).deep_view() == old(lines).deep_view() + state_lines(info.deep_view(), base@),
{
    let ghost before = lines.deep_view();
    let ghost wanted = state_lines(info.deep_view(), base@);
    match &info.stats {
        Err(err) => {
            add_line(
                lines,
                "  ⚠ could not read the worktree state: ".to_owned().concat(err),
                Tone::Warn,
            );
            if info.worktree.locked {
                add_line(
                    lines,
                    "  ⚠ locked (git worktree lock); it is unlocked and removed".to_owned(),
                    Tone::Warn,
                );
            }
        },
        Ok(stats) => {
            if let Some(merged) = stats.merged {
                let line = match merged.pr {
                    Some(number) => "  ✓ merged (PR #".to_owned().concat(
                        &decimal_of(number),
                    ).concat("); its work is in ").concat(base),
                    None => "  ✓ merged; its work is already in ".to_owned().concat(base),
                };
                add_line(lines, line, Tone::Muted);
            }
            let start = lines.len();
            add_losses(lines, info.worktree.branch.is_some(), stats, base);
            if info.worktree.locked {
                add_line(
                    lines,
                    "  ⚠ locked (git worktree lock); it is unlocked and removed".to_owned(),
                    Tone::Warn,
                );
            }
            if stats.merged.is_none() && lines.len() == start {
                add_line(lines, "  clean, pushed and merged".to_owned(), Tone::Muted);
            }
        },
    }
    proof {
        assert(lines.deep_view() =~= before + wanted);
    }
}

/// Says in the delete dialog what happens to a worktree.
pub(crate) fn add_delete(
    lines: &mut Vec<(String, Tone)>,
    info: &WorktreeInfo,
    base: &str,
    home: &Option<String>,
)
    ensures
        final(lines).deep_view() == old(lines).deep_view() + delete_lines(
            info.deep_view(),
            base@,
            home.deep_view(),
        ),
{
    let ghost before = lines.deep_view();
    let what = match &info.worktree.branch {
        Some(branch) => "worktree and local branch ".to_owned().concat(branch),
        None => "worktree only (detached HEAD)".to_owned(),
    };
    let head = "• ".to_owned().concat(&display_path(&info.worktree.path, home)).concat("  ").concat(
        &what,
    );
    add_line(lines, head, Tone::Normal);
    add_state(lines, info, base);
    proof {
        assert(lines.deep_view() =~= before + delete_lines(
            info.deep_view(),
            base@,
            home.deep_view(),
        ));
    }
}

/// The job that deletes a worktree.
pub open spec fn delete_plan(info: WorktreeInfoView) -> PlannedView {
    PlannedView {
        worktree: info.worktree.path,
        label: label_of(info),
        verb: Verb::Delete,
        job: JobView::Delete {
            path: info.worktree.path,
            branch: info.worktree.branch,
        },
    }
}

pub(crate) fn plan_delete(info: &WorktreeInfo) -> (plan: Planned)
    ensures
        plan.deep_view() == delete_plan(info.deep_view()),
{
    Planned {
        worktree: info.worktree.path.clone(),
        label: branch_label(info),
        verb: Verb::Delete,
        job: Job::Delete {
            path: info.worktree.path.clone(),
            branch: info.worktree.branch.clone(),
        },
    }
}

/// The record of a row that gets no job.
pub open spec fn skipped_row(info: WorktreeInfoView, verb: Verb, reason: Seq<char>) -> SkippedView {
    SkippedView { worktree: info.worktree.path, label: label_of(info), verb, reason }
}

pub(crate) fn skip_row(info: &WorktreeInfo, verb: Verb, reason: String) -> (skip: Skipped)
    ensures
        skip.deep_view() == skipped_row(info.deep_view(), verb, reason@),
{
    Skipped { worktree: info.worktree.path.clone(), label: branch_label(info), verb, reason }
}

// ---------------------------------------------------------------------------------------------
// Syncing
// ---------------------------------------------------------------------------------------------

/// Why a row cannot be synced, if it cannot, as the status line puts it.
pub open spec fn sync_refusal(info: WorktreeInfoView, base: Seq<char>) -> Option<Seq<char>> {
    match info.worktree.branch {
        None => Some("Detached HEAD: check out a branch in it to sync."@),
        Some(branch) => match info.stats {
            Err(err) => Some("Can't sync "@ + branch + ": "@ + err),
            Ok(stats) => if stats.merged is Some {
                Some(branch + " is already merged into "@ + base + "; delete it (x) instead."@)
            } else {
                match stats.sync {
                    None => Some("Still checking whether it can sync, try again in a moment."@),
                    Some(SyncStatusView::UpToDate) => Some(
                        branch + " is already up to date with "@ + base + "."@,
                    ),
                    Some(SyncStatusView::Dirty) => Some(
                        branch + " has uncommitted changes. Commit or stash them, then sync."@,
                    ),
                    Some(SyncStatusView::Conflicts(files)) => Some(
                        "Merging "@ + base + " into "@ + branch + " would conflict in "@ + counted(
                            files.len(),
                            "file"@,
                            "files"@,
                        ) + ". Merge by hand."@,
                    ),
                    Some(SyncStatusView::Unknown(why)) => Some(
                        "Can't check "@ + branch + ": "@ + why,
                    ),
                    Some(SyncStatusView::Ready { .. }) => None,
                }
            },
        },
    }
}

/// Why a row cannot be synced, if it cannot, as the queue panel puts it.
pub open spec fn sync_skip(info: WorktreeInfoView) -> Option<Seq<char>> {
    match info.worktree.branch {
        None => Some("detached HEAD"@),
        Some(_) => match info.stats {
            Err(err) => Some(err),
            Ok(stats) => if stats.merged is Some {
                Some("already merged"@)
            } else {
                match stats.sync {
                    None => Some("still being checked"@),
                    Some(SyncStatusView::UpToDate) => Some("up to date"@),
                    Some(SyncStatusView::Dirty) => Some("uncommitted changes"@),
                    Some(SyncStatusView::Conflicts(files)) => Some(
                        "would conflict in "@ + counted(files.len(), "file"@, "files"@),
                    ),
                    Some(SyncStatusView::Unknown(why)) => Some(why),
                    Some(SyncStatusView::Ready { .. }) => None,
                }
            },
        },
    }
}

/// A row is either refused in both ways of putting it or in neither, and it is not refused
/// exactly when the merge was checked and is ready.
pub proof fn only_ready_rows_are_synced(info: WorktreeInfoView, base: Seq<char>)
    ensures
        sync_refusal(info, base) is None <==> sync_skip(info) is None,
        sync_skip(info) is None <==> (info.worktree.branch is Some && info.stats is Ok
            && info.stats->Ok_0.merged is None && info.stats->Ok_0.sync is Some
            && info.stats->Ok_0.sync->Some_0 is Ready),
{
}

pub(crate) fn refuse_sync(info: &WorktreeInfo, base: &str) -> (why: Option<String>)
    ensures
        why.deep_view() == sync_refusal(info.deep_view(), base@),
{
    let branch = match &info.worktree.branch {
        None => {
            return Some("Detached HEAD: check out a branch in it to sync.".to_owned());
        },
        Some(branch) => branch,
    };
    let stats = match &info.stats {
        Err(err) => {
            return Some("Can't sync ".to_owned().concat(branch).concat(": ").concat(err));
        },
        Ok(stats) => stats,
    };
    if stats.merged.is_some() {
        return Some(
            branch.clone().concat(" is already merged into ").concat(base).concat(
                "; delete it (x) instead.",
            ),
        );
    }
    match &stats.sync {
        None => Some("Still checking whether it can sync, try again in a moment.".to_owned()),
        Some(SyncStatus::UpToDate) => Some(
            branch.clone().concat(" is already up to date with ").concat(base).concat("."),
        ),
        Some(SyncStatus::Dirty) => Some(
            branch.clone().concat(" has uncommitted changes. Commit or stash them, then sync."),
        ),
        Some(SyncStatus::Conflicts(files)) => Some(
            "Merging ".to_owned().concat(base).concat(" into ").concat(branch).concat(
                " would conflict in ",
            ).concat(&plural(files.len() as u64, "file", "files")).concat(". Merge by hand."),
        ),
        Some(SyncStatus::Unknown(why)) => Some(
            "Can't check ".to_owned().concat(branch).concat(": ").concat(why),
        ),
        Some(SyncStatus::Ready { .. }) => None,
    }
}

pub(crate) fn skip_sync(info: &WorktreeInfo) -> (why: Option<String>)
    ensures
        why.deep_view() == sync_skip(info.deep_view()),
{
    if info.worktree.branch.is_none() {
        return Some("detached HEAD".to_owned());
    }
    let stats = match &info.stats {
        Err(err) => {
            return Some(err.clone());
        },
        Ok(stats) => stats,
    };
    if stats.merged.is_some() {
        return Some("already merged".to_owned());
    }
    match &stats.sync {
        None => Some("still being checked".to_owned()),
        Some(SyncStatus::UpToDate) => Some("up to date".to_owned()),
        Some(SyncStatus::Dirty) => Some("uncommitted changes".to_owned()),
        Some(SyncStatus::Conflicts(files)) => Some(
            "would conflict in ".to_owned().concat(&plural(files.len() as u64, "file", "files")),
        ),
        Some(SyncStatus::Unknown(why)) => Some(why.clone()),
        Some(SyncStatus::Ready { .. }) => None,
    }
}

/// How far a worktree is ahead and behind, and whether it fast-forwards; all zero for rows that
/// are not ready.
pub open spec fn sync_numbers(info: WorktreeInfoView) -> (u64, u64, bool) {
    match info.stats {
        Ok(stats) => (
            stats.ahead,
            stats.behind,
            stats.sync == Some(SyncStatusView::Ready { ff: true }),
        ),
        Err(_) => (0, 0, false),
    }
}

pub(crate) fn numbers(info: &WorktreeInfo) -> (found: (u64, u64, bool))
    ensures
        found == sync_numbers(info.deep_view()),
{
    match &info.stats {
        Ok(stats) => (
            stats.ahead,
            stats.behind,
            match &stats.sync {
                Some(SyncStatus::Ready { ff }) => *ff,
                _ => false,
            },
        ),
        Err(_) => (0, 0, false),
    }
}

/// What the sync dialog says about one of several rows.
pub open spec fn sync_line(info: WorktreeInfoView) -> (Seq<char>, Tone) {
    let (ahead, behind, ff) = sync_numbers(info);
    (
        "• "@ + label_of(info) + if ff {
            ": fast-forward"@
        } else {
            ": merge commit ("@ + decimal(behind as nat) + " behind, "@ + decimal(ahead as nat)
                + " ahead)"@
        },
        Tone::Normal,
    )
}

pub(crate) fn sync_text(info: &WorktreeInfo) -> (line: (String, Tone))
    ensures
        line.deep_view() == sync_line(info.deep_view()),
{
    let (ahead, behind, ff) = numbers(info);
    let how = if ff {
        ": fast-forward".to_owned()
    } else {
        ": merge commit (".to_owned().concat(&decimal_of(behind)).concat(" behind, ").concat(
            &decimal_of(ahead),
        ).concat(" ahead)")
    };
    ("• ".to_owned().concat(&branch_label(info)).concat(&how), Tone::Normal)
}

/// The job that merges `base` into the branch of a worktree.
pub open spec fn sync_plan(worktree: Seq<char>, label: Seq<char>, base: Seq<char>) -> PlannedView {
    PlannedView { worktree, label, verb: Verb::Sync, job: JobView::Sync { worktree, base } }
}

pub(crate) fn plan_sync(worktree: &str, label: String, base: &str) -> (plan: Planned)
    ensures
        plan.deep_view() == sync_plan(worktree@, label@, base@),
{
    Planned {
        worktree: worktree.to_owned(),
        label,
        verb: Verb::Sync,
        job: Job::Sync { worktree: worktree.to_owned(), base: base.to_owned() },
    }
}

} // verus!
