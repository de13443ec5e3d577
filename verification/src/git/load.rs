//! Putting the worktrees of a repository together with what was read of each.
use vstd::prelude::*;

use super::prs::{link_of, pr_link, RepoPr, RepoPrView};
use super::{
    Worktree, WorktreeInfo, WorktreeInfoView, WorktreeStats, WorktreeStatsView, WorktreeView,
};
use crate::model::result_view;

verus! {

/// Run at most this many worktrees' git commands at the same time.
pub const PARALLEL_WORKTREES: usize = 8;

/// How many of `left` worktrees are read at the same time.
pub open spec fn batch_of(left: usize) -> usize {
    if left < PARALLEL_WORKTREES {
        left
    } else {
        PARALLEL_WORKTREES
    }
}

/// How many of `left` worktrees are read at the same time.
pub fn batch(left: usize) -> (count: usize)
    ensures
        count == batch_of(left),
{
    if left < PARALLEL_WORKTREES {
        left
    } else {
        PARALLEL_WORKTREES
    }
}

/// Several results as mathematical values.
pub open spec fn results_view(results: Seq<Result<WorktreeStats, String>>) -> Seq<
    Result<WorktreeStatsView, Seq<char>>,
> {
    results.map_values(|result: Result<WorktreeStats, String>| result_view(result))
}

/// Each worktree with its stats and its pull request, in the order of the listing.
pub open spec fn infos_of(
    worktrees: Seq<WorktreeView>,
    stats: Seq<Result<WorktreeStatsView, Seq<char>>>,
    prs: Option<Seq<RepoPrView>>,
) -> Seq<WorktreeInfoView> {
    Seq::new(
        worktrees.len(),
        |i: int|
            WorktreeInfoView {
                worktree: worktrees[i],
                stats: stats[i],
                pr: link_of(prs, worktrees[i].branch),
            },
    )
}

/// The worktrees of a listing with their stats; a listing that failed stays an error.
pub open spec fn loaded_infos(
    listed: Result<Seq<WorktreeView>, Seq<char>>,
    stats: Seq<Result<WorktreeStatsView, Seq<char>>>,
    prs: Option<Seq<RepoPrView>>,
) -> Result<Seq<WorktreeInfoView>, Seq<char>> {
    match listed {
        Ok(worktrees) => Ok(infos_of(worktrees, stats, prs)),
        Err(reason) => Err(reason),
    }
}

/// Each listed worktree with its stats and its pull request. A listing that failed stays an
/// error.
pub fn load_worktrees(
    listed: Result<Vec<Worktree>, String>,
    stats: Vec<Result<WorktreeStats, String>>,
    prs: &Option<Vec<RepoPr>>,
) -> (infos: Result<Vec<WorktreeInfo>, String>)
    requires
        listed matches Ok(worktrees) ==> worktrees@.len() == stats@.len(),
    ensures
        result_view(infos) == loaded_infos(
            result_view(listed),
            results_view(stats@),
            prs.deep_view(),
        ),
{
    let mut worktrees = match listed {
        Ok(worktrees) => worktrees,
        Err(reason) => {
            return Err(reason);
        },
    };
    let mut left = stats;
    let mut infos: Vec<WorktreeInfo> = Vec::new();
    let ghost all = worktrees.deep_view();
    let ghost results = results_view(stats@);
    let ghost known = prs.deep_view();
    proof {
        assert(all.skip(0) =~= all);
        assert(results.skip(0) =~= results);
    }
    while worktrees.len() > 0
        invariant
            known == prs.deep_view(),
            all.len() == results.len(),
            infos@.len() <= all.len(),
            worktrees@.len() == left@.len(),
            worktrees.deep_view() == all.skip(infos@.len() as int),
            results_view(left@) == results.skip(infos@.len() as int),
            infos.deep_view() == infos_of(all, results, known).take(infos@.len() as int),
        decreases worktrees@.len(),
    {
        let ghost n = infos@.len() as int;
        let ghost rest = worktrees.deep_view();
        let ghost rest_stats = results_view(left@);
        let ghost before = infos.deep_view();
        let worktree = worktrees.remove(0);
        let read = left.remove(0);
        proof {
            assert(rest[0] == worktree.deep_view());
            assert(rest_stats[0] == result_view(read));
            assert(worktrees.deep_view() =~= rest.drop_first());
            assert(all.skip(n).drop_first() =~= all.skip(n + 1));
            assert(results_view(left@) =~= rest_stats.drop_first());
            assert(results.skip(n).drop_first() =~= results.skip(n + 1));
        }
        let pr = pr_link(prs, &worktree.branch);
        infos.push(WorktreeInfo { worktree, stats: read, pr });
        proof {
            let info = infos_of(all, results, known)[n];
            assert(infos.deep_view() =~= before.push(info));
            assert(infos.deep_view() =~= infos_of(all, results, known).take(n + 1));
        }
    }
    proof {
        assert(infos_of(all, results, known).take(infos@.len() as int) =~= infos_of(
            all,
            results,
            known,
        ));
    }
    Ok(infos)
}

/// Every listed worktree is shown once, in the order of the listing, with what was read of it and the
/// pull request of its branch.
pub proof fn every_worktree_is_shown_with_its_own_stats(
    worktrees: Seq<WorktreeView>,
    stats: Seq<Result<WorktreeStatsView, Seq<char>>>,
    prs: Option<Seq<RepoPrView>>,
    i: int,
)
    requires
        0 <= i < worktrees.len(),
    ensures
        infos_of(worktrees, stats, prs).len() == worktrees.len(),
        infos_of(worktrees, stats, prs)[i].worktree == worktrees[i],
        infos_of(worktrees, stats, prs)[i].stats == stats[i],
        infos_of(worktrees, stats, prs)[i].pr == link_of(prs, worktrees[i].branch),
{
}

/// All worktrees of a listing are shown, and a listing that failed shows its reason. At most eight are
/// read at the same time, and as long as some are left at least one is.
pub proof fn what_becomes_of_a_listing(
    worktrees: Seq<WorktreeView>,
    reason: Seq<char>,
    stats: Seq<Result<WorktreeStatsView, Seq<char>>>,
    prs: Option<Seq<RepoPrView>>,
    left: usize,
)
    ensures
        loaded_infos(Ok(worktrees), stats, prs) == Ok::<Seq<WorktreeInfoView>, Seq<char>>(
            infos_of(worktrees, stats, prs),
        ),
        loaded_infos(Err(reason), stats, prs) == Err::<Seq<WorktreeInfoView>, Seq<char>>(reason),
        left <= 8 ==> batch_of(left) == left,
        left > 8 ==> batch_of(left) == 8,
{
}

} // verus!
