//! Reading the state of one worktree: which question to put to git next, and what the answers
//! add up to.
use vstd::prelude::*;

use super::{
    fields_of, git, git_output, left_right_count, parse_left_right_count, parse_numstat_z, stats_in,
    Merged, SyncStatus, SyncStatusView, WorktreeStats, WorktreeStatsView,
};
use crate::cmd::{
    failure, failure_message, run_status, status_of, Attempt, AttemptView, CmdError, CmdErrorView,
};
use crate::model::{result_view, FileStat, FileStatView};
use crate::text::{
    chars_of, contents, lossy, number_of, parse_u64, same_text, split, split_bytes, string_of, trim,
    trimmed, utf8_lossy,
};

verus! {

// ---------------------------------------------------------------------------------------------
// Lists of names
// ---------------------------------------------------------------------------------------------

/// The pieces that are not empty.
pub open spec fn nonempty(pieces: Seq<Seq<u8>>) -> Seq<Seq<u8>>
    decreases pieces.len(),
{
    if pieces.len() == 0 {
        Seq::empty()
    } else if pieces.last().len() == 0 {
        nonempty(pieces.drop_last())
    } else {
        nonempty(pieces.drop_last()).push(pieces.last())
    }
}

/// The names in a NUL-separated list.
pub open spec fn names_in(raw: Seq<u8>) -> Seq<Seq<char>> {
    nonempty(split(raw, 0u8)).map_values(|name: Seq<u8>| utf8_lossy(name))
}

/// The names in a NUL-separated list.
pub fn parse_names(raw: &[u8]) -> (names: Vec<String>)
    ensures
        names.deep_view() == names_in(raw@),
{
    let pieces = split_bytes(raw, 0);
    let ghost all = split(raw@, 0u8);
    let ghost text = |name: Seq<u8>| utf8_lossy(name);
    let mut names: Vec<String> = Vec::new();
    let mut i: usize = 0;
    proof {
        assert(names.deep_view() =~= nonempty(all.take(0)).map_values(text));
    }
    while i < pieces.len()
        invariant
            i <= pieces@.len(),
            contents(pieces@) == all,
            text == (|name: Seq<u8>| utf8_lossy(name)),
            names.deep_view() == nonempty(all.take(i as int)).map_values(text),
        decreases pieces@.len() - i,
    {
        let piece: &[u8] = pieces[i];
        let ghost before = names.deep_view();
        let ghost had = nonempty(all.take(i as int));
        proof {
            assert(all[i as int] == piece@);
            assert(all.take(i + 1).drop_last() =~= all.take(i as int));
        }
        if piece.len() > 0 {
            names.push(lossy(piece));
            proof {
                assert(had.push(piece@).map_values(text) =~= had.map_values(text).push(
                    utf8_lossy(piece@),
                ));
                assert(names.deep_view() =~= before.push(utf8_lossy(piece@)));
            }
        }
        i = i + 1;
    }
    proof {
        assert(all.take(i as int) =~= all);
    }
    names
}

// ---------------------------------------------------------------------------------------------
// Untracked files
// ---------------------------------------------------------------------------------------------

/// What stands at the path of an untracked file.
#[derive(Debug, Clone, Copy, PartialEq, Eq, Structural)]
pub enum Probe {
    Symlink,
    /// A regular file with so many lines; `None` when it is binary or cannot be read.
    File(Option<u64>),
    /// Neither, or nothing at all.
    Other,
}

/// Untracked files count as new files: every line is an addition, binary files get no counts.
/// git stores a symlink as one line that holds the target path.
pub open spec fn untracked_stat_of(path: Seq<char>, probe: Probe) -> FileStatView {
    let added = match probe {
        Probe::Symlink => Some(1u64),
        Probe::File(lines) => lines,
        Probe::Other => None,
    };
    FileStatView {
        path,
        added,
        deleted: match added {
            Some(_) => Some(0u64),
            None => None,
        },
        untracked: true,
    }
}

/// Untracked files count as new files: every line is an addition, binary files get no counts.
pub fn untracked_stat(path: String, probe: Probe) -> (stat: FileStat)
    ensures
        stat.deep_view() == untracked_stat_of(path@, probe),
{
    let added = match probe {
        Probe::Symlink => Some(1),
        Probe::File(lines) => lines,
        Probe::Other => None,
    };
    FileStat {
        path,
        added,
        deleted: match added {
            Some(_) => Some(0),
            None => None,
        },
        untracked: true,
    }
}

// ---------------------------------------------------------------------------------------------
// The merge check
// ---------------------------------------------------------------------------------------------

/// What a trial merge gives.
#[derive(Debug)]
pub enum Trial {
    /// It succeeds; carries the name of the resulting tree.
    Clean(String),
    /// These files conflict.
    Conflicts(Vec<String>),
    /// It could not be tried.
    Failed(String),
}

/// A [`Trial`] as mathematical values.
#[verifier::ext_equal]
pub enum TrialView {
    Clean(Seq<char>),
    Conflicts(Seq<Seq<char>>),
    Failed(Seq<char>),
}

impl DeepView for Trial {
    type V = TrialView;

    open spec fn deep_view(&self) -> TrialView {
        match self {
            Trial::Clean(tree) => TrialView::Clean(tree@),
            Trial::Conflicts(files) => TrialView::Conflicts(files.deep_view()),
            Trial::Failed(reason) => TrialView::Failed(reason@),
        }
    }
}

/// `git merge-tree` names the tree first and then the files in conflict, if there are any; it
/// exits with 0 when there are none and with 1 when there are some.
pub open spec fn trial_of(
    dir: Seq<char>,
    args: Seq<Seq<char>>,
    attempt: AttemptView,
) -> TrialView {
    match status_of("git"@, dir, attempt) {
        Err(CmdErrorView::Missing) => TrialView::Failed("git is not installed"@),
        Err(CmdErrorView::Failed(reason)) => TrialView::Failed(reason),
        Ok(output) => {
            let names = names_in(output.stdout);
            if output.code == Some(0i32) {
                TrialView::Clean(
                    if names.len() == 0 {
                        Seq::empty()
                    } else {
                        trim(names[0])
                    },
                )
            } else if output.code == Some(1i32) {
                TrialView::Conflicts(
                    if names.len() == 0 {
                        names
                    } else {
                        names.drop_first()
                    },
                )
            } else {
                TrialView::Failed(failure("git"@, args, output))
            }
        },
    }
}

fn read_trial(dir: &str, args: &Vec<String>, attempt: Attempt) -> (trial: Trial)
    ensures
        trial.deep_view() == trial_of(dir@, args.deep_view(), attempt.deep_view()),
{
    match run_status("git", dir, attempt) {
        Err(CmdError::Missing) => Trial::Failed("git is not installed".to_owned()),
        Err(CmdError::Failed(reason)) => Trial::Failed(reason),
        Ok(output) => {
            let mut names = parse_names(&output.stdout);
            if output.code == Some(0) {
                if names.len() == 0 {
                    Trial::Clean(String::new())
                } else {
                    let chars = chars_of(&names[0]);
                    Trial::Clean(string_of(trimmed(&chars)))
                }
            } else if output.code == Some(1) {
                if names.len() > 0 {
                    let ghost all = names.deep_view();
                    let _ = names.remove(0);
                    proof {
                        assert(names.deep_view() =~= all.drop_first());
                    }
                }
                Trial::Conflicts(names)
            } else {
                Trial::Failed(failure_message("git", args, &output))
            }
        },
    }
}

/// Whether origin's default branch can be merged into a worktree; the trial merge only decides
/// when both sides have commits and nothing is uncommitted.
pub open spec fn sync_of(
    ahead: u64,
    behind: u64,
    uncommitted: u64,
    trial: Option<TrialView>,
) -> SyncStatusView {
    if behind == 0 {
        SyncStatusView::UpToDate
    } else if uncommitted > 0 {
        SyncStatusView::Dirty
    } else if ahead == 0 {
        SyncStatusView::Ready { ff: true }
    } else {
        match trial {
            Some(TrialView::Clean(_)) => SyncStatusView::Ready { ff: false },
            Some(TrialView::Conflicts(files)) => SyncStatusView::Conflicts(files),
            Some(TrialView::Failed(reason)) => SyncStatusView::Unknown(reason),
            None => SyncStatusView::Unknown(Seq::empty()),
        }
    }
}

/// A branch with commits of its own is merged when a merged pull request ends at its head, or
/// when merging it would leave the tree of the default branch as it is.
pub open spec fn merged_of(
    ahead: u64,
    pr: Option<u64>,
    base_tree: Seq<char>,
    trial: Option<TrialView>,
) -> Option<Merged> {
    if ahead == 0 {
        None
    } else if pr is Some {
        Some(Merged { pr })
    } else if trial == Some(TrialView::Clean(base_tree)) {
        Some(Merged { pr: None })
    } else {
        None
    }
}

// ---------------------------------------------------------------------------------------------
// The questions
// ---------------------------------------------------------------------------------------------

/// Which answer a [`StatsRun`] waits for.
#[derive(Debug)]
pub enum Phase {
    /// How far the worktree is ahead and behind.
    Counts,
    MergeBase,
    /// The changes since the merge-base; the working tree side covers commits, staged and
    /// unstaged edits.
    Diff,
    Untracked,
    /// What stands at the path of the first pending untracked file.
    Probing,
    Uncommitted,
    Unpushed,
    /// The tree of the default branch.
    BaseTree,
    MergeTree,
    Done,
    Failed(String),
}

/// A [`Phase`] as mathematical values.
#[verifier::ext_equal]
pub enum PhaseView {
    Counts,
    MergeBase,
    Diff,
    Untracked,
    Probing,
    Uncommitted,
    Unpushed,
    BaseTree,
    MergeTree,
    Done,
    Failed(Seq<char>),
}

impl DeepView for Phase {
    type V = PhaseView;

    open spec fn deep_view(&self) -> PhaseView {
        match self {
            Phase::Counts => PhaseView::Counts,
            Phase::MergeBase => PhaseView::MergeBase,
            Phase::Diff => PhaseView::Diff,
            Phase::Untracked => PhaseView::Untracked,
            Phase::Probing => PhaseView::Probing,
            Phase::Uncommitted => PhaseView::Uncommitted,
            Phase::Unpushed => PhaseView::Unpushed,
            Phase::BaseTree => PhaseView::BaseTree,
            Phase::MergeTree => PhaseView::MergeTree,
            Phase::Done => PhaseView::Done,
            Phase::Failed(reason) => PhaseView::Failed(reason@),
        }
    }
}

/// The reading of one worktree, from the first question to the result.
#[derive(Debug)]
pub struct StatsRun {
    pub dir: String,
    /// What the worktree is compared with, such as `origin/main`.
    pub base: String,
    /// Whether to try the merge.
    pub check: bool,
    /// The merged pull request that ends at the head of the worktree.
    pub pr: Option<u64>,
    pub phase: Phase,
    pub merge_base: String,
    pub base_tree: String,
    /// Untracked files that have not been looked at yet.
    pub pending: Vec<String>,
    pub stats: WorktreeStats,
}

/// A [`StatsRun`] as mathematical values.
#[verifier::ext_equal]
pub struct StatsRunView {
    pub dir: Seq<char>,
    pub base: Seq<char>,
    pub check: bool,
    pub pr: Option<u64>,
    pub phase: PhaseView,
    pub merge_base: Seq<char>,
    pub base_tree: Seq<char>,
    pub pending: Seq<Seq<char>>,
    pub stats: WorktreeStatsView,
}

impl DeepView for StatsRun {
    type V = StatsRunView;

    open spec fn deep_view(&self) -> StatsRunView {
        StatsRunView {
            dir: self.dir@,
            base: self.base@,
            check: self.check,
            pr: self.pr,
            phase: self.phase.deep_view(),
            merge_base: self.merge_base@,
            base_tree: self.base_tree@,
            pending: self.pending.deep_view(),
            stats: self.stats.deep_view(),
        }
    }
}

pub open spec fn no_stats() -> WorktreeStatsView {
    WorktreeStatsView {
        ahead: 0,
        behind: 0,
        files: Seq::empty(),
        uncommitted: 0,
        unpushed: 0,
        sync: None,
        merged: None,
    }
}

/// The start of a reading. A worktree without a directory cannot be read.
pub open spec fn started(
    dir: Seq<char>,
    base: Seq<char>,
    check: bool,
    pr: Option<u64>,
    present: bool,
) -> StatsRunView {
    StatsRunView {
        dir,
        base,
        check,
        pr,
        phase: if present {
            PhaseView::Counts
        } else {
            PhaseView::Failed("worktree directory is missing"@)
        },
        merge_base: Seq::empty(),
        base_tree: Seq::empty(),
        pending: Seq::empty(),
        stats: no_stats(),
    }
}

/// The arguments of the git command that the reading waits for; `None` when it waits for no git
/// command.
pub open spec fn question(run: StatsRunView) -> Option<Seq<Seq<char>>> {
    match run.phase {
        PhaseView::Counts => Some(
            seq!["rev-list"@, "--left-right"@, "--count"@, run.base + "...HEAD"@],
        ),
        PhaseView::MergeBase => Some(seq!["merge-base"@, "HEAD"@, run.base]),
        PhaseView::Diff => Some(
            seq!["diff"@, "--numstat"@, "-z"@, "--no-ext-diff"@, run.merge_base, "--"@],
        ),
        PhaseView::Untracked => Some(
            seq!["ls-files"@, "--others"@, "--exclude-standard"@, "-z"@],
        ),
        PhaseView::Uncommitted => Some(seq!["diff"@, "--name-only"@, "-z"@, "HEAD"@, "--"@]),
        PhaseView::Unpushed => Some(
            seq!["rev-list"@, "--count"@, "HEAD"@, "--not"@, "--remotes=origin"@],
        ),
        PhaseView::BaseTree => Some(seq!["rev-parse"@, run.base + "^{tree}"@]),
        PhaseView::MergeTree => Some(
            seq![
                "merge-tree"@,
                "--write-tree"@,
                "--name-only"@,
                "--no-messages"@,
                "-z"@,
                run.base,
                "HEAD"@,
            ],
        ),
        _ => None,
    }
}

/// The reading after its last question, with the merge check in its result.
pub open spec fn settled(run: StatsRunView, trial: Option<TrialView>) -> StatsRunView {
    StatsRunView {
        phase: PhaseView::Done,
        stats: WorktreeStatsView {
            sync: Some(
                sync_of(run.stats.ahead, run.stats.behind, run.stats.uncommitted, trial),
            ),
            merged: merged_of(run.stats.ahead, run.pr, run.base_tree, trial),
            ..run.stats
        },
        ..run
    }
}

pub open spec fn failed(run: StatsRunView, reason: Seq<char>) -> StatsRunView {
    StatsRunView { phase: PhaseView::Failed(reason), ..run }
}

/// The reading after git has answered with `out`.
pub open spec fn with_output(run: StatsRunView, out: Seq<u8>) -> StatsRunView {
    let text = utf8_lossy(out);
    match run.phase {
        PhaseView::Counts => match left_right_count(text) {
            Some((behind, ahead)) => StatsRunView {
                phase: PhaseView::MergeBase,
                stats: WorktreeStatsView { ahead, behind, ..run.stats },
                ..run
            },
            None => failed(run, "unexpected rev-list output: "@ + trim(text)),
        },
        PhaseView::MergeBase => StatsRunView {
            phase: PhaseView::Diff,
            merge_base: trim(text),
            ..run
        },
        PhaseView::Diff => StatsRunView {
            phase: PhaseView::Untracked,
            stats: WorktreeStatsView { files: stats_in(fields_of(out)), ..run.stats },
            ..run
        },
        PhaseView::Untracked => StatsRunView {
            phase: if names_in(out).len() == 0 {
                PhaseView::Uncommitted
            } else {
                PhaseView::Probing
            },
            pending: names_in(out),
            ..run
        },
        PhaseView::Uncommitted => StatsRunView {
            phase: PhaseView::Unpushed,
            stats: WorktreeStatsView { uncommitted: names_in(out).len() as u64, ..run.stats },
            ..run
        },
        PhaseView::Unpushed => match parse_u64(trim(text)) {
            Some(unpushed) => {
                let next = StatsRunView {
                    stats: WorktreeStatsView { unpushed, ..run.stats },
                    ..run
                };
                if !run.check {
                    StatsRunView { phase: PhaseView::Done, ..next }
                } else if run.stats.ahead == 0 {
                    settled(next, None)
                } else {
                    StatsRunView { phase: PhaseView::BaseTree, ..next }
                }
            },
            None => failed(run, "unexpected rev-list output: "@ + trim(text)),
        },
        PhaseView::BaseTree => StatsRunView {
            phase: PhaseView::MergeTree,
            base_tree: trim(text),
            ..run
        },
        _ => run,
    }
}

/// The reading after an attempt to ask git. What git refuses ends the reading with git's reason,
/// except that a trial merge may report conflicts.
pub open spec fn answered(run: StatsRunView, attempt: AttemptView) -> StatsRunView {
    match question(run) {
        None => run,
        Some(args) => if run.phase is MergeTree {
            settled(run, Some(trial_of(run.dir, args, attempt)))
        } else {
            match git_output(run.dir, args, attempt) {
                Ok(out) => with_output(run, out),
                Err(reason) => failed(run, reason),
            }
        },
    }
}

/// The untracked file to look at next, if one is due.
pub open spec fn probe_due(run: StatsRunView) -> Option<Seq<char>> {
    if run.phase is Probing && run.pending.len() > 0 {
        Some(run.pending[0])
    } else {
        None
    }
}

/// The reading after its first pending untracked file has been looked at.
pub open spec fn probed(run: StatsRunView, probe: Probe) -> StatsRunView {
    if run.phase is Probing && run.pending.len() > 0 {
        StatsRunView {
            phase: if run.pending.len() == 1 {
                PhaseView::Uncommitted
            } else {
                PhaseView::Probing
            },
            pending: run.pending.drop_first(),
            stats: WorktreeStatsView {
                files: run.stats.files.push(untracked_stat_of(run.pending[0], probe)),
                ..run.stats
            },
            ..run
        }
    } else {
        run
    }
}

/// What came out of a reading that is over.
pub open spec fn result_of(run: StatsRunView) -> Option<Result<WorktreeStatsView, Seq<char>>> {
    match run.phase {
        PhaseView::Done => Some(Ok(run.stats)),
        PhaseView::Failed(reason) => Some(Err(reason)),
        _ => None,
    }
}

/// `text` without the white space around it.
fn inner_text(text: &str) -> (inner: String)
    ensures
        inner@ == trim(text@),
{
    let chars = chars_of(text);
    string_of(trimmed(&chars))
}

impl StatsRun {
    /// Starts to read the worktree at `dir`.
    pub fn start(dir: String, base: String, check: bool, pr: Option<u64>, present: bool) -> (run:
        Self)
        ensures
            run.deep_view() == started(dir@, base@, check, pr, present),
    {
        let run = StatsRun {
            dir,
            base,
            check,
            pr,
            phase: if present {
                Phase::Counts
            } else {
                Phase::Failed("worktree directory is missing".to_owned())
            },
            merge_base: String::new(),
            base_tree: String::new(),
            pending: Vec::new(),
            stats: WorktreeStats {
                ahead: 0,
                behind: 0,
                files: Vec::new(),
                uncommitted: 0,
                unpushed: 0,
                sync: None,
                merged: None,
            },
        };
        proof {
            assert(run.deep_view() =~= started(dir@, base@, check, pr, present));
        }
        run
    }

    /// The arguments of the git command to run next in the worktree, if one is due.
    pub fn question(&self) -> (args: Option<Vec<String>>)
        ensures
            args.deep_view() == question(self.deep_view()),
    {
        match &self.phase {
            Phase::Counts => Some(
                vec![
                    "rev-list".to_owned(),
                    "--left-right".to_owned(),
                    "--count".to_owned(),
                    self.base.clone().concat("...HEAD"),
                ],
            ),
            Phase::MergeBase => Some(
                vec!["merge-base".to_owned(), "HEAD".to_owned(), self.base.clone()],
            ),
            Phase::Diff => Some(
                vec![
                    "diff".to_owned(),
                    "--numstat".to_owned(),
                    "-z".to_owned(),
                    "--no-ext-diff".to_owned(),
                    self.merge_base.clone(),
                    "--".to_owned(),
                ],
            ),
            Phase::Untracked => Some(
                vec![
                    "ls-files".to_owned(),
                    "--others".to_owned(),
                    "--exclude-standard".to_owned(),
                    "-z".to_owned(),
                ],
            ),
            Phase::Uncommitted => Some(
                vec![
                    "diff".to_owned(),
                    "--name-only".to_owned(),
                    "-z".to_owned(),
                    "HEAD".to_owned(),
                    "--".to_owned(),
                ],
            ),
            Phase::Unpushed => Some(
                vec![
                    "rev-list".to_owned(),
                    "--count".to_owned(),
                    "HEAD".to_owned(),
                    "--not".to_owned(),
                    "--remotes=origin".to_owned(),
                ],
            ),
            Phase::BaseTree => Some(
                vec!["rev-parse".to_owned(), self.base.clone().concat("^{tree}")],
            ),
            Phase::MergeTree => Some(
                vec![
                    "merge-tree".to_owned(),
                    "--write-tree".to_owned(),
                    "--name-only".to_owned(),
                    "--no-messages".to_owned(),
                    "-z".to_owned(),
                    self.base.clone(),
                    "HEAD".to_owned(),
                ],
            ),
            _ => None,
        }
    }

    /// The untracked file to look at next, if one is due.
    pub fn to_probe(&self) -> (path: Option<String>)
        ensures
            path.deep_view() == probe_due(self.deep_view()),
    {
        match &self.phase {
            Phase::Probing => {
                if self.pending.len() > 0 {
                    Some(self.pending[0].clone())
                } else {
                    None
                }
            },
            _ => None,
        }
    }

    fn settle(&mut self, trial: Option<Trial>)
        ensures
            final(self).deep_view() == settled(old(self).deep_view(), trial.deep_view()),
    {
        let ghost before = self.deep_view();
        let ghost seen = trial.deep_view();
        let (ahead, behind) = (self.stats.ahead, self.stats.behind);
        self.stats.merged = if ahead == 0 {
            None
        } else if self.pr.is_some() {
            Some(Merged { pr: self.pr })
        } else {
            match &trial {
                Some(Trial::Clean(tree)) => if same_text(tree, &self.base_tree) {
                    Some(Merged { pr: None })
                } else {
                    None
                },
                _ => None,
            }
        };
        let sync = if behind == 0 {
            SyncStatus::UpToDate
        } else if self.stats.uncommitted > 0 {
            SyncStatus::Dirty
        } else if ahead == 0 {
            SyncStatus::Ready { ff: true }
        } else {
            match trial {
                Some(Trial::Clean(_)) => SyncStatus::Ready { ff: false },
                Some(Trial::Conflicts(files)) => SyncStatus::Conflicts(files),
                Some(Trial::Failed(reason)) => SyncStatus::Unknown(reason),
                None => SyncStatus::Unknown(String::new()),
            }
        };
        self.stats.sync = Some(sync);
        self.phase = Phase::Done;
        proof {
            let after = settled(before, seen);
            assert(self.deep_view().stats.merged == after.stats.merged);
            assert(self.deep_view().stats.sync == after.stats.sync);
            assert(self.deep_view() =~= after);
        }
    }

    /// Takes in what git printed.
    fn take(&mut self, out: Vec<u8>)
        ensures
            final(self).deep_view() == with_output(old(self).deep_view(), out@),
    {
        let ghost before = self.deep_view();
        match &self.phase {
            Phase::Counts => {
                let text = lossy(&out);
                match parse_left_right_count(&text) {
                    Some((behind, ahead)) => {
                        self.stats.behind = behind;
                        self.stats.ahead = ahead;
                        self.phase = Phase::MergeBase;
                    },
                    None => {
                        self.phase = Phase::Failed(
                            "unexpected rev-list output: ".to_owned().concat(&inner_text(&text)),
                        );
                    },
                }
            },
            Phase::MergeBase => {
                self.merge_base = inner_text(&lossy(&out));
                self.phase = Phase::Diff;
            },
            Phase::Diff => {
                self.stats.files = parse_numstat_z(&out);
                self.phase = Phase::Untracked;
            },
            Phase::Untracked => {
                self.pending = parse_names(&out);
                self.phase = if self.pending.len() == 0 {
                    Phase::Uncommitted
                } else {
                    Phase::Probing
                };
            },
            Phase::Uncommitted => {
                let names = parse_names(&out);
                self.stats.uncommitted = names.len() as u64;
                self.phase = Phase::Unpushed;
            },
            Phase::Unpushed => {
                let text = lossy(&out);
                let chars = chars_of(&text);
                match number_of(trimmed(&chars)) {
                    Some(unpushed) => {
                        self.stats.unpushed = unpushed;
                        if !self.check {
                            self.phase = Phase::Done;
                        } else if self.stats.ahead == 0 {
                            self.settle(None);
                        } else {
                            self.phase = Phase::BaseTree;
                        }
                    },
                    None => {
                        self.phase = Phase::Failed(
                            "unexpected rev-list output: ".to_owned().concat(&inner_text(&text)),
                        );
                    },
                }
            },
            Phase::BaseTree => {
                self.base_tree = inner_text(&lossy(&out));
                self.phase = Phase::MergeTree;
            },
            _ => {},
        }
        proof {
            assert(self.deep_view() =~= with_output(before, out@));
        }
    }

    /// Takes in how the git command that was due went.
    pub fn answer(&mut self, attempt: Attempt)
        ensures
            final(self).deep_view() == answered(old(self).deep_view(), attempt.deep_view()),
    {
        let ghost before = self.deep_view();
        let args = match self.question() {
            Some(args) => args,
            None => {
                return ;
            },
        };
        let merging = match &self.phase {
            Phase::MergeTree => true,
            _ => false,
        };
        if merging {
            let trial = read_trial(&self.dir, &args, attempt);
            self.settle(Some(trial));
        } else {
            match git(&self.dir, &args, attempt) {
                Ok(out) => {
                    proof {
                        assert(out.deep_view() =~= out@);
                    }
                    self.take(out);
                },
                Err(reason) => {
                    self.phase = Phase::Failed(reason);
                    proof {
                        assert(self.deep_view() =~= failed(before, reason@));
                    }
                },
            }
        }
    }

    /// Takes in what stands at the path that was to be looked at.
    pub fn probed(&mut self, probe: Probe)
        ensures
            final(self).deep_view() == probed(old(self).deep_view(), probe),
    {
        let ghost before = self.deep_view();
        match &self.phase {
            Phase::Probing => {
                if self.pending.len() > 0 {
                    let path = self.pending.remove(0);
                    self.stats.files.push(untracked_stat(path, probe));
                    if self.pending.len() == 0 {
                        self.phase = Phase::Uncommitted;
                    }
                    proof {
                        assert(self.pending.deep_view() =~= before.pending.drop_first());
                        assert(self.stats.files.deep_view() =~= before.stats.files.push(
                            untracked_stat_of(before.pending[0], probe),
                        ));
                        assert(self.deep_view() =~= probed(before, probe));
                    }
                }
            },
            _ => {},
        }
    }

    /// What came out of a reading that is over; `None` while it goes on.
    pub fn finish(self) -> (result: Option<Result<WorktreeStats, String>>)
        ensures
            match result {
                Some(r) => result_of(self.deep_view()) == Some(result_view(r)),
                None => result_of(self.deep_view()) is None,
            },
    {
        match self.phase {
            Phase::Done => Some(Ok(self.stats)),
            Phase::Failed(reason) => Some(Err(reason)),
            _ => None,
        }
    }
}

// ---------------------------------------------------------------------------------------------
// Laws
// ---------------------------------------------------------------------------------------------

/// How much of a reading is still to come.
pub open spec fn steps_left(run: StatsRunView) -> (int, nat) {
    match run.phase {
        PhaseView::Counts => (9, 0),
        PhaseView::MergeBase => (8, 0),
        PhaseView::Diff => (7, 0),
        PhaseView::Untracked => (6, 0),
        PhaseView::Probing => (5, run.pending.len()),
        PhaseView::Uncommitted => (4, 0),
        PhaseView::Unpushed => (3, 0),
        PhaseView::BaseTree => (2, 0),
        PhaseView::MergeTree => (1, 0),
        PhaseView::Done => (0, 0),
        PhaseView::Failed(_) => (0, 0),
    }
}

pub open spec fn fewer(a: (int, nat), b: (int, nat)) -> bool {
    a.0 < b.0 || (a.0 == b.0 && a.1 < b.1)
}

/// A reading waits for a git command, for a look at a file, or is over; never for nothing.
pub proof fn a_reading_is_never_stuck(run: StatsRunView)
    requires
        run.phase is Probing ==> run.pending.len() > 0,
    ensures
        question(run) is Some || (run.phase is Probing && run.pending.len() > 0) || result_of(
            run,
        ) is Some,
{
}

/// Whatever git answers, a reading comes closer to its end, so it ends.
pub proof fn every_answer_brings_a_reading_closer(run: StatsRunView, attempt: AttemptView)
    requires
        question(run) is Some,
    ensures
        fewer(steps_left(answered(run, attempt)), steps_left(run)),
        answered(run, attempt).phase is Probing ==> answered(run, attempt).pending.len() > 0,
{
}

/// Every look at a file brings a reading closer to its end.
pub proof fn every_look_brings_a_reading_closer(run: StatsRunView, probe: Probe)
    requires
        run.phase is Probing,
        run.pending.len() > 0,
    ensures
        fewer(steps_left(probed(run, probe)), steps_left(run)),
        probed(run, probe).phase is Probing ==> probed(run, probe).pending.len() > 0,
{
}

/// A worktree is only called ready for a merge when something is to be merged and nothing is
/// uncommitted, and it is only fast-forwarded when it has no commits of its own.
pub proof fn ready_means_clean_and_behind(
    ahead: u64,
    behind: u64,
    uncommitted: u64,
    trial: Option<TrialView>,
)
    ensures
        sync_of(ahead, behind, uncommitted, trial) matches SyncStatusView::Ready { ff } ==> behind
            > 0 && uncommitted == 0 && ff == (ahead == 0),
{
}

/// A branch without commits of its own is never called merged.
pub proof fn merged_needs_own_commits(
    ahead: u64,
    pr: Option<u64>,
    base_tree: Seq<char>,
    trial: Option<TrialView>,
)
    ensures
        merged_of(ahead, pr, base_tree, trial) is Some ==> ahead > 0,
{
}

} // verus!
