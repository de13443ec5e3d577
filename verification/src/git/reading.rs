//! What a reading of a worktree amounts to: what is asked, what each answer adds, and what the
//! merge check says.
use vstd::prelude::*;

use super::stats::{
    answered, merged_of, names_in, nonempty, probe_due, probed, question, result_of, started,
    sync_of, trial_of, untracked_stat_of, Probe, StatsRunView, TrialView,
};
use super::{git_output, git_text_output, left_right_count, SyncStatusView, WorktreeStatsView};
use crate::cmd::laws::a_command_gives_its_output_or_a_reason;
use crate::cmd::{spaced, stdout_of, AttemptView, CmdErrorView, OutputView};
use crate::model::FileStatView;
use crate::text::laws::{
    blank, free_of, numbers_are_written_in_decimal, solid, splitting_comes_apart_at_separators,
    words_stand_between_white_space,
};
use crate::text::{decimal, decimal_reads_back, is_white, parse_u64, split, trim, utf8_lossy, words};

verus! {

/// git gives what it printed exactly when it ends well; otherwise a reason, and one that says so when
/// git is not there.
pub proof fn git_gives_its_output_or_a_reason(
    dir: Seq<char>,
    args: Seq<Seq<char>>,
    attempt: AttemptView,
)
    ensures
        match stdout_of("git"@, dir, args, attempt) {
            Ok(out) => {
                &&& git_output(dir, args, attempt) == Ok::<Seq<u8>, Seq<char>>(out)
                &&& git_text_output(dir, args, attempt) == Ok::<Seq<char>, Seq<char>>(
                    utf8_lossy(out),
                )
            },
            Err(CmdErrorView::Missing) => {
                &&& git_output(dir, args, attempt) == Err::<Seq<u8>, Seq<char>>(
                    "git is not installed"@,
                )
                &&& git_text_output(dir, args, attempt) == Err::<Seq<char>, Seq<char>>(
                    "git is not installed"@,
                )
            },
            Err(CmdErrorView::Failed(reason)) => {
                &&& git_output(dir, args, attempt) == Err::<Seq<u8>, Seq<char>>(reason)
                &&& git_text_output(dir, args, attempt) == Err::<Seq<char>, Seq<char>>(reason)
            },
        },
{
}

// ---------------------------------------------------------------------------------------------
// The merge check
// ---------------------------------------------------------------------------------------------

/// A checked worktree is up to date exactly when it is 0 commits behind. When it is behind,
/// uncommitted changes make it dirty. When nothing is uncommitted, it is fast-forwarded if it has no
/// commits of its own; otherwise the trial merge alone decides: ready for a clean one, the files in
/// conflict for a conflicting one, and the reason for one that could not be tried.
pub proof fn what_the_merge_check_says(
    ahead: u64,
    behind: u64,
    uncommitted: u64,
    trial: Option<TrialView>,
)
    ensures
        ({
            let sync = sync_of(ahead, behind, uncommitted, trial);
            &&& sync is UpToDate <==> behind == 0
            &&& sync is Dirty <==> behind > 0 && uncommitted > 0
            &&& sync == SyncStatusView::Ready { ff: true } <==> behind > 0 && uncommitted == 0
                && ahead == 0
            &&& behind > 0 && uncommitted == 0 && ahead > 0 ==> {
                &&& sync == SyncStatusView::Ready { ff: false } <==> (trial is Some
                    && trial->Some_0 is Clean)
                &&& forall|files: Seq<Seq<char>>|
                    trial == Some(TrialView::Conflicts(files)) ==> sync
                        == SyncStatusView::Conflicts(files)
                &&& forall|reason: Seq<char>|
                    trial == Some(TrialView::Failed(reason)) ==> sync == SyncStatusView::Unknown(
                        reason,
                    )
            }
            &&& forall|files: Seq<Seq<char>>|
                sync == SyncStatusView::Conflicts(files) ==> trial == Some(
                    TrialView::Conflicts(files),
                )
        }),
{
}

/// The work of a branch is merged exactly when it has commits of its own and either a merged pull
/// request ends at its head, which is then named, or merging it leaves the tree of the default
/// branch as it is.
pub proof fn what_merged_means(
    ahead: u64,
    pr: Option<u64>,
    base_tree: Seq<char>,
    trial: Option<TrialView>,
)
    ensures
        ({
            let merged = merged_of(ahead, pr, base_tree, trial);
            &&& merged is Some <==> ahead > 0 && (pr is Some || trial == Some(
                TrialView::Clean(base_tree),
            ))
            &&& merged matches Some(m) ==> m.pr == pr
        }),
{
}

/// A trial merge that exits with 0 is clean and names the resulting tree first; one that exits with
/// 1 names the files in conflict behind the tree, all of them and no others; any other exit, or a git
/// that cannot be run, is a failure with its reason.
pub proof fn what_a_trial_merge_says(
    dir: Seq<char>,
    args: Seq<Seq<char>>,
    tree: Seq<char>,
    files: Seq<Seq<char>>,
    output: OutputView,
)
    requires
        names_in(output.stdout) == seq![tree] + files,
    ensures
        ({
            let trial = trial_of(dir, args, AttemptView::Finished(output));
            &&& output.code == Some(0i32) ==> trial == TrialView::Clean(trim(tree))
            &&& output.code == Some(1i32) ==> trial == TrialView::Conflicts(files)
            &&& output.code != Some(0i32) && output.code != Some(1i32) ==> trial is Failed
            &&& output.code != Some(0i32) && output.code != Some(1i32) && trim(
                utf8_lossy(output.stderr),
            ).len() > 0 ==> trial == TrialView::Failed(trim(utf8_lossy(output.stderr)))
        }),
        trial_of(dir, args, AttemptView::NotFound) == TrialView::Failed("git is not installed"@),
        trial_of(dir, args, AttemptView::NoDirectory) == TrialView::Failed(
            "directory not found: "@ + dir,
        ),
        forall|why: Seq<char>| #[trigger]
            trial_of(dir, args, AttemptView::NotStarted(why)) == TrialView::Failed(
                "could not run git: "@ + why,
            ),
{
    assert((seq![tree] + files).drop_first() =~= files);
    assert forall|why: Seq<char>| #[trigger]
        trial_of(dir, args, AttemptView::NotStarted(why)) == TrialView::Failed(
            "could not run git: "@ + why,
        ) by {
        reveal_strlit("could not run ");
        reveal_strlit("git");
        reveal_strlit(": ");
        reveal_strlit("could not run git: ");
        assert("could not run "@ + "git"@ + ": "@ + why =~= "could not run git: "@ + why);
    }
}

// ---------------------------------------------------------------------------------------------
// Lists of names and counts
// ---------------------------------------------------------------------------------------------

proof fn lemma_nonempty_adds(a: Seq<Seq<u8>>, b: Seq<Seq<u8>>)
    ensures
        nonempty(a + b) == nonempty(a) + nonempty(b),
    decreases b.len(),
{
    if b.len() == 0 {
        assert(a + b =~= a);
        assert(nonempty(a) + nonempty(b) =~= nonempty(a));
    } else {
        lemma_nonempty_adds(a, b.drop_last());
        assert((a + b).drop_last() =~= a + b.drop_last());
        assert((a + b).last() == b.last());
        assert(nonempty(a + b) =~= nonempty(a) + nonempty(b));
    }
}

/// The names of a NUL-separated list are what stands between the NUL bytes, in order; only empty
/// pieces are left out.
pub proof fn names_stand_between_nul_bytes(name: Seq<u8>, rest: Seq<u8>)
    requires
        free_of(name, 0u8),
    ensures
        name.len() > 0 ==> names_in(name) == seq![utf8_lossy(name)],
        name.len() > 0 ==> names_in(name.push(0u8) + rest) == seq![utf8_lossy(name)] + names_in(
            rest,
        ),
        name.len() == 0 ==> names_in(name) == Seq::<Seq<char>>::empty(),
        name.len() == 0 ==> names_in(name.push(0u8) + rest) == names_in(rest),
{
    let text = |name: Seq<u8>| utf8_lossy(name);
    splitting_comes_apart_at_separators(name, rest, 0u8);
    let one = seq![name];
    let more = split(rest, 0u8);
    lemma_nonempty_adds(one, more);
    assert(one.drop_last() =~= Seq::empty());
    assert(nonempty(one.drop_last()) == Seq::<Seq<u8>>::empty());
    if name.len() > 0 {
        assert(nonempty(one) =~= one);
        assert(one.map_values(text) =~= seq![utf8_lossy(name)]);
        assert((one + nonempty(more)).map_values(text) =~= seq![utf8_lossy(name)] + nonempty(
            more,
        ).map_values(text));
    } else {
        assert(nonempty(one) =~= Seq::empty());
        assert(nonempty(one).map_values(text) =~= Seq::empty());
        assert(Seq::<Seq<u8>>::empty() + nonempty(more) =~= nonempty(more));
    }
}

/// Two numbers with white space between them, and maybe around them, are the two counts, the left
/// one first; anything but two words is none.
pub proof fn counts_are_two_numbers(
    before: Seq<char>,
    left: Seq<char>,
    gap: Seq<char>,
    right: Seq<char>,
    after: Seq<char>,
)
    requires
        blank(before),
        blank(gap),
        blank(after),
        gap.len() > 0,
        left.len() > 0,
        right.len() > 0,
        solid(left),
        solid(right),
    ensures
        left_right_count(before + left + gap + right + after) == match (
            parse_u64(left),
            parse_u64(right),
        ) {
            (Some(l), Some(r)) => Some((l, r)),
            _ => None,
        },
        forall|text: Seq<char>|
            words(text).len() != 2 ==> #[trigger] left_right_count(text) is None,
{
    let text = before + left + gap + right + after;
    let rest = gap + right + after;
    assert(is_white(gap[0]));
    assert(text =~= before + left + rest);
    words_stand_between_white_space(before, left, rest);
    if after.len() > 0 {
        assert(is_white(after[0]));
    }
    words_stand_between_white_space(gap, right, after);
    lemma_blank_has_no_words(after);
    assert(words(text) =~= seq![left, right]);
}

proof fn lemma_blank_has_no_words(s: Seq<char>)
    requires
        blank(s),
    ensures
        words(s) == Seq::<Seq<char>>::empty(),
    decreases s.len(),
{
    if s.len() > 0 {
        let rest = s.drop_first();
        assert(is_white(s[0]));
        assert forall|i: int| 0 <= i < rest.len() implies is_white(#[trigger] rest[i]) by {
            assert(rest[i] == s[i + 1]);
        }
        lemma_blank_has_no_words(rest);
    }
}

/// What `git rev-list --left-right --count` prints for two counts reads back.
pub proof fn printed_counts_read_back(behind: u64, ahead: u64)
    ensures
        left_right_count(decimal(behind as nat) + "\t"@ + decimal(ahead as nat) + "\n"@) == Some(
            (behind, ahead),
        ),
{
    reveal_strlit("\t");
    reveal_strlit("\n");
    let l = decimal(behind as nat);
    let r = decimal(ahead as nat);
    numbers_are_written_in_decimal(behind as nat);
    numbers_are_written_in_decimal(ahead as nat);
    decimal_reads_back(behind);
    decimal_reads_back(ahead);
    assert forall|i: int| 0 <= i < l.len() implies !is_white(#[trigger] l[i]) by {
        assert('0' <= l[i] <= '9');
    }
    assert forall|i: int| 0 <= i < r.len() implies !is_white(#[trigger] r[i]) by {
        assert('0' <= r[i] <= '9');
    }
    counts_are_two_numbers(Seq::empty(), l, "\t"@, r, "\n"@);
    assert(Seq::<char>::empty() + l + "\t"@ + r + "\n"@ =~= l + "\t"@ + r + "\n"@);
}

// ---------------------------------------------------------------------------------------------
// Untracked files
// ---------------------------------------------------------------------------------------------

/// An untracked file is shown under its path and as untracked. Every line of a text file is an
/// addition and none a deletion; a symlink is one line; without a line count there are no counts.
pub proof fn untracked_files_are_all_additions(path: Seq<char>, lines: u64)
    ensures
        ({
            let stat = |probe: Probe| untracked_stat_of(path, probe);
            &&& stat(Probe::File(Some(lines))) == (FileStatView {
                path,
                added: Some(lines),
                deleted: Some(0u64),
                untracked: true,
            })
            &&& stat(Probe::Symlink) == (FileStatView {
                path,
                added: Some(1u64),
                deleted: Some(0u64),
                untracked: true,
            })
            &&& stat(Probe::File(None)) == (FileStatView {
                path,
                added: None,
                deleted: None,
                untracked: true,
            })
            &&& stat(Probe::Other) == stat(Probe::File(None))
        }),
{
}

/// Each look at an untracked file adds exactly that file behind the others and goes on to the next
/// one, until none is left.
pub proof fn each_look_adds_one_file(run: StatsRunView, probe: Probe)
    requires
        run.phase is Probing,
        run.pending.len() > 0,
    ensures
        ({
            let after = probed(run, probe);
            let stat = untracked_stat_of(run.pending[0], probe);
            &&& probe_due(run) == Some(run.pending[0])
            &&& probe_due(after) == if run.pending.len() > 1 {
                Some(run.pending[1])
            } else {
                None
            }
            &&& after.stats == (WorktreeStatsView {
                files: run.stats.files.push(stat),
                ..run.stats
            })
            &&& after.pending == run.pending.drop_first()
            &&& after.phase is Probing <==> run.pending.len() > 1
            &&& run.pending.len() == 1 ==> after.phase is Uncommitted
            &&& (after.dir, after.base, after.check, after.pr) == (
                run.dir,
                run.base,
                run.check,
                run.pr,
            )
        }),
{
}

// ---------------------------------------------------------------------------------------------
// Question by question
// ---------------------------------------------------------------------------------------------

/// A reading starts with the counts, unless there is no directory to read.
pub proof fn a_reading_starts_with_the_counts(
    dir: Seq<char>,
    base: Seq<char>,
    check: bool,
    pr: Option<u64>,
)
    ensures
        question(started(dir, base, check, pr, true)) == Some(
            seq!["rev-list"@, "--left-right"@, "--count"@, base + "...HEAD"@],
        ),
        result_of(started(dir, base, check, pr, true)) is None,
        result_of(started(dir, base, check, pr, false)) == Some(
            Err::<WorktreeStatsView, Seq<char>>("worktree directory is missing"@),
        ),
        ({
            let run = started(dir, base, check, pr, true);
            &&& (run.dir, run.base, run.check, run.pr) == (dir, base, check, pr)
            &&& run.stats.files.len() == 0
            &&& run.stats.sync is None
            &&& run.stats.merged is None
        }),
{
}

/// `run` and `after` read the same worktree in the same way.
pub open spec fn same_reading(run: StatsRunView, after: StatsRunView) -> bool {
    (after.dir, after.base, after.check, after.pr) == (run.dir, run.base, run.check, run.pr)
}

/// What each answer of git adds to a reading, and what is asked next. Git's answers are exit code 0
/// with `out` on stdout. The counts are behind first; the diff is against the trimmed merge-base; what
/// git lists as untracked is looked at; the other questions count names and commits. Without a check
/// the reading is over then; with one, a worktree without commits of its own needs no trial merge.
pub proof fn what_each_answer_adds(run: StatsRunView, out: Seq<u8>, status: Seq<char>, err: Seq<u8>)
    ensures
        ({
            let after = answered(
                run,
                AttemptView::Finished(
                    OutputView { code: Some(0i32), status, stdout: out, stderr: err },
                ),
            );
            let text = utf8_lossy(out);
            &&& same_reading(run, after)
            &&& run.phase is Counts ==> {
                &&& forall|behind: u64, ahead: u64|
                    left_right_count(text) == Some((behind, ahead)) ==> #[trigger] with_counts(
                        run.stats,
                        ahead,
                        behind,
                    ) == after.stats && after.phase is MergeBase
                &&& left_right_count(text) is None ==> result_of(after) == Some(
                    Err::<WorktreeStatsView, Seq<char>>(
                        "unexpected rev-list output: "@ + trim(text),
                    ),
                )
            }
            &&& run.phase is MergeBase ==> {
                &&& question(run) == Some(seq!["merge-base"@, "HEAD"@, run.base])
                &&& question(after) == Some(
                    seq!["diff"@, "--numstat"@, "-z"@, "--no-ext-diff"@, trim(text), "--"@],
                )
                &&& after.stats == run.stats
            }
            &&& run.phase is Diff ==> {
                &&& after.stats == (WorktreeStatsView {
                    files: super::stats_in(super::fields_of(out)),
                    ..run.stats
                })
                &&& question(after) == Some(
                    seq!["ls-files"@, "--others"@, "--exclude-standard"@, "-z"@],
                )
            }
            &&& run.phase is Untracked ==> {
                &&& after.pending == names_in(out)
                &&& after.stats == run.stats
                &&& if names_in(out).len() == 0 {
                    after.phase is Uncommitted
                } else {
                    after.phase is Probing
                }
            }
            &&& run.phase is Uncommitted ==> {
                &&& question(run) == Some(seq!["diff"@, "--name-only"@, "-z"@, "HEAD"@, "--"@])
                &&& after.stats == (WorktreeStatsView {
                    uncommitted: names_in(out).len() as u64,
                    ..run.stats
                })
                &&& question(after) == Some(
                    seq!["rev-list"@, "--count"@, "HEAD"@, "--not"@, "--remotes=origin"@],
                )
            }
            &&& run.phase is Unpushed ==> match parse_u64(trim(text)) {
                None => result_of(after) == Some(
                    Err::<WorktreeStatsView, Seq<char>>(
                        "unexpected rev-list output: "@ + trim(text),
                    ),
                ),
                Some(unpushed) => {
                    let stats = WorktreeStatsView { unpushed, ..run.stats };
                    if !run.check {
                        result_of(after) == Some(Ok::<WorktreeStatsView, Seq<char>>(stats))
                    } else if run.stats.ahead > 0 {
                        after.stats == stats && question(after) == Some(
                            seq!["rev-parse"@, run.base + "^{tree}"@],
                        )
                    } else {
                        result_of(after) == Some(
                            Ok::<WorktreeStatsView, Seq<char>>(
                                WorktreeStatsView {
                                    sync: Some(
                                        if run.stats.behind == 0 {
                                            SyncStatusView::UpToDate
                                        } else if run.stats.uncommitted > 0 {
                                            SyncStatusView::Dirty
                                        } else {
                                            SyncStatusView::Ready { ff: true }
                                        },
                                    ),
                                    merged: None,
                                    ..stats
                                },
                            ),
                        )
                    }
                },
            }
            &&& run.phase is BaseTree ==> {
                &&& after.base_tree == trim(text)
                &&& after.stats == run.stats
                &&& question(after) == Some(
                    seq![
                        "merge-tree"@,
                        "--write-tree"@,
                        "--name-only"@,
                        "--no-messages"@,
                        "-z"@,
                        run.base,
                        "HEAD"@,
                    ],
                )
            }
        }),
{
}

/// The stats with these counts.
pub open spec fn with_counts(stats: WorktreeStatsView, ahead: u64, behind: u64) -> WorktreeStatsView {
    WorktreeStatsView { ahead, behind, ..stats }
}

/// The trial merge ends a reading. It changes nothing of what was counted; it only says whether the
/// worktree can be synced and whether its work is merged.
pub proof fn the_trial_merge_ends_a_reading(run: StatsRunView, attempt: AttemptView)
    requires
        run.phase is MergeTree,
    ensures
        ({
            let after = answered(run, attempt);
            let trial = trial_of(run.dir, question(run)->Some_0, attempt);
            let stats = after.stats;
            &&& result_of(after) == Some(Ok::<WorktreeStatsView, Seq<char>>(stats))
            &&& stats == (WorktreeStatsView {
                sync: stats.sync,
                merged: stats.merged,
                ..run.stats
            })
            &&& stats.sync is Some
            &&& stats.sync->Some_0 is UpToDate <==> run.stats.behind == 0
            &&& stats.sync->Some_0 is Dirty <==> run.stats.behind > 0 && run.stats.uncommitted > 0
            &&& run.stats.behind > 0 && run.stats.uncommitted == 0 && run.stats.ahead > 0 ==> (
            stats.sync == Some(
                match trial {
                    TrialView::Clean(_) => SyncStatusView::Ready { ff: false },
                    TrialView::Conflicts(files) => SyncStatusView::Conflicts(files),
                    TrialView::Failed(reason) => SyncStatusView::Unknown(reason),
                },
            ))
            &&& stats.merged is Some <==> run.stats.ahead > 0 && (run.pr is Some || trial
                == TrialView::Clean(run.base_tree))
            &&& stats.merged is Some ==> stats.merged->Some_0.pr == run.pr
        }),
{
}

/// A git command that fails ends a reading with the reason, whichever question it was; only a trial
/// merge is another matter.
pub proof fn a_failed_question_ends_a_reading(run: StatsRunView, attempt: AttemptView)
    requires
        question(run) is Some,
        !(run.phase is MergeTree),
    ensures
        attempt is NotFound ==> result_of(answered(run, attempt)) == Some(
            Err::<WorktreeStatsView, Seq<char>>("git is not installed"@),
        ),
        attempt is NoDirectory ==> result_of(answered(run, attempt)) == Some(
            Err::<WorktreeStatsView, Seq<char>>("directory not found: "@ + run.dir),
        ),
        forall|why: Seq<char>|
            attempt == AttemptView::NotStarted(why) ==> #[trigger] result_of(
                answered(run, AttemptView::NotStarted(why)),
            ) == Some(
                Err::<WorktreeStatsView, Seq<char>>("could not run git: "@ + why),
            ),
        forall|output: OutputView|
            attempt == AttemptView::Finished(output) && output.code != Some(0i32) && trim(
                utf8_lossy(output.stderr),
            ).len() > 0 ==> #[trigger] result_of(answered(run, AttemptView::Finished(output)))
                == Some(
                Err::<WorktreeStatsView, Seq<char>>(trim(utf8_lossy(output.stderr))),
            ),
        forall|output: OutputView|
            attempt == AttemptView::Finished(output) && output.code != Some(0i32) && trim(
                utf8_lossy(output.stderr),
            ).len() == 0 ==> #[trigger] result_of(answered(run, AttemptView::Finished(output)))
                == Some(
                Err::<WorktreeStatsView, Seq<char>>(
                    "git "@ + spaced(question(run)->Some_0) + " failed ("@ + output.status + ")"@,
                ),
            ),
{
    a_command_gives_its_output_or_a_reason("git"@, run.dir, question(run)->Some_0, attempt);
    reveal_strlit("could not run ");
    reveal_strlit("git");
    reveal_strlit(" ");
    reveal_strlit("git ");
    reveal_strlit(": ");
    reveal_strlit("could not run git: ");
    if let AttemptView::NotStarted(why) = attempt {
        assert("could not run "@ + "git"@ + ": "@ + why =~= "could not run git: "@ + why);
    }
    let args = question(run)->Some_0;
    if let AttemptView::Finished(output) = attempt {
        assert("git"@ + " "@ + spaced(args) + " failed ("@ + output.status + ")"@ =~= "git "@
            + spaced(args) + " failed ("@ + output.status + ")"@);
    }
}

/// A reading that is over asks nothing, and while files are looked at git is asked nothing. An answer
/// to a question that was not asked changes nothing, and neither does a look out of turn.
pub proof fn a_reading_that_is_over_asks_nothing(
    run: StatsRunView,
    attempt: AttemptView,
    probe: Probe,
)
    ensures
        result_of(run) is Some ==> question(run) is None,
        run.phase is Done ==> result_of(run) == Some(Ok::<WorktreeStatsView, Seq<char>>(run.stats)),
        run.phase is Probing ==> question(run) is None && result_of(run) is None,
        question(run) is None ==> answered(run, attempt) == run,
        !(run.phase is Probing) || run.pending.len() == 0 ==> probed(run, probe) == run
            && probe_due(run) is None,
        result_of(run) is None ==> question(run) is Some || run.phase is Probing,
{
}

} // verus!
