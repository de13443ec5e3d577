//! Matching branches with the pull requests of their repository.
use vstd::prelude::*;

use super::{PrLink, PrState};
use crate::text::{chars_of, same_text};

verus! {

/// A pull request of the repository, in any state.
#[derive(Debug)]
pub struct RepoPr {
    pub number: u64,
    pub head_ref_name: String,
    pub head_ref_oid: String,
    pub state: PrState,
    /// Its branch lives in another repository.
    pub fork: bool,
    /// When it was opened, as a UTC time stamp such as `2026-09-10T00:00:00Z`.
    pub created: String,
}

/// A [`RepoPr`] as mathematical values.
#[verifier::ext_equal]
pub struct RepoPrView {
    pub number: u64,
    pub head_ref_name: Seq<char>,
    pub head_ref_oid: Seq<char>,
    pub state: PrState,
    pub fork: bool,
    pub created: Seq<char>,
}

impl DeepView for RepoPr {
    type V = RepoPrView;

    open spec fn deep_view(&self) -> RepoPrView {
        RepoPrView {
            number: self.number,
            head_ref_name: self.head_ref_name@,
            head_ref_oid: self.head_ref_oid@,
            state: self.state,
            fork: self.fork,
            created: self.created@,
        }
    }
}

/// The state of a pull request from GitHub's `state` and `isDraft`: drafts are open.
pub open spec fn state_of(state: Seq<char>, draft: bool) -> PrState {
    if state == "MERGED"@ {
        PrState::Merged
    } else if state == "CLOSED"@ {
        PrState::Closed
    } else if draft {
        PrState::Draft
    } else {
        PrState::Open
    }
}

/// The state of a pull request from GitHub's `state` and `isDraft`: drafts are open.
pub fn pr_state(state: &str, draft: bool) -> (found: PrState)
    ensures
        found == state_of(state@, draft),
{
    if same_text(state, "MERGED") {
        PrState::Merged
    } else if same_text(state, "CLOSED") {
        PrState::Closed
    } else if draft {
        PrState::Draft
    } else {
        PrState::Open
    }
}

/// `a` comes before `b` in the order of their characters; a text comes after its beginnings.
pub open spec fn earlier(a: Seq<char>, b: Seq<char>) -> bool
    decreases a.len(),
{
    if b.len() == 0 {
        false
    } else if a.len() == 0 {
        true
    } else if a[0] == b[0] {
        earlier(a.drop_first(), b.drop_first())
    } else {
        (a[0] as u32) < (b[0] as u32)
    }
}

fn is_earlier(a: &str, b: &str) -> (is: bool)
    ensures
        is == earlier(a@, b@),
{
    let first = chars_of(a);
    let second = chars_of(b);
    let mut i: usize = 0;
    proof {
        assert(first@.skip(0) =~= first@);
        assert(second@.skip(0) =~= second@);
    }
    loop
        invariant
            first@ == a@,
            second@ == b@,
            i <= first@.len(),
            i <= second@.len(),
            earlier(first@.skip(i as int), second@.skip(i as int)) == earlier(a@, b@),
        decreases first@.len() - i,
    {
        if i == second.len() {
            return false;
        }
        if i == first.len() {
            return true;
        }
        if first[i] != second[i] {
            return (first[i] as u32) < (second[i] as u32);
        }
        proof {
            assert(first@.skip(i as int).drop_first() =~= first@.skip(i + 1));
            assert(second@.skip(i as int).drop_first() =~= second@.skip(i + 1));
        }
        i = i + 1;
    }
}

/// The pull request is for `branch` of the repository itself.
pub open spec fn is_for(pr: RepoPrView, branch: Seq<char>) -> bool {
    !pr.fork && pr.head_ref_name == branch
}

/// Index of the newest pull request for `branch`; the first of equally old ones.
pub open spec fn newest_for(prs: Seq<RepoPrView>, branch: Seq<char>) -> Option<int>
    decreases prs.len(),
{
    if prs.len() == 0 {
        None
    } else {
        let n = prs.len() - 1;
        match newest_for(prs.drop_last(), branch) {
            None => if is_for(prs[n], branch) {
                Some(n)
            } else {
                None
            },
            Some(best) => if is_for(prs[n], branch) && earlier(prs[best].created, prs[n].created) {
                Some(n)
            } else {
                Some(best)
            },
        }
    }
}

/// The pull request of `branch`; a detached HEAD has none.
pub open spec fn link_of(prs: Option<Seq<RepoPrView>>, branch: Option<Seq<char>>) -> PrLink {
    match prs {
        None => PrLink::Unknown,
        Some(list) => match branch {
            None => PrLink::Absent,
            Some(branch) => match newest_for(list, branch) {
                Some(i) => PrLink::Pr { number: list[i].number, state: list[i].state },
                None => PrLink::Absent,
            },
        },
    }
}

/// The pull request of `branch`; a detached HEAD has none.
pub fn pr_link(prs: &Option<Vec<RepoPr>>, branch: &Option<String>) -> (link: PrLink)
    ensures
        link == link_of(prs.deep_view(), branch.deep_view()),
{
    let list = match prs {
        Some(list) => list,
        None => {
            return PrLink::Unknown;
        },
    };
    let branch = match branch {
        Some(branch) => branch,
        None => {
            return PrLink::Absent;
        },
    };
    let ghost all = list.deep_view();
    let mut best: Option<usize> = None;
    let mut i: usize = 0;
    while i < list.len()
        invariant
            i <= list@.len(),
            all == list.deep_view(),
            match best {
                Some(b) => b < i && newest_for(all.take(i as int), branch@) == Some(b as int),
                None => newest_for(all.take(i as int), branch@) is None,
            },
        decreases list@.len() - i,
    {
        let pr = &list[i];
        proof {
            assert(all.take(i + 1).drop_last() =~= all.take(i as int));
            assert(all[i as int] == pr.deep_view());
        }
        if !pr.fork && same_text(&pr.head_ref_name, branch) {
            let newer = match best {
                Some(b) => is_earlier(&list[b].created, &pr.created),
                None => true,
            };
            if newer {
                best = Some(i);
            }
        }
        i = i + 1;
    }
    proof {
        assert(all.take(i as int) =~= all);
    }
    match best {
        Some(b) => PrLink::Pr { number: list[b].number, state: list[b].state },
        None => PrLink::Absent,
    }
}

/// The pull request is merged and its last commit is the one `head` names, on `branch`.
pub open spec fn shows_merged(pr: RepoPrView, branch: Seq<char>, head: Seq<char>) -> bool {
    pr.state == PrState::Merged && pr.head_ref_name == branch && pr.head_ref_oid == head
}

/// The number of the first merged pull request whose last commit is what the worktree holds.
pub open spec fn merged_in(prs: Seq<RepoPrView>, branch: Seq<char>, head: Seq<char>) -> Option<u64>
    decreases prs.len(),
{
    if prs.len() == 0 {
        None
    } else if shows_merged(prs[0], branch, head) {
        Some(prs[0].number)
    } else {
        merged_in(prs.drop_first(), branch, head)
    }
}

/// The merged pull request that holds the work of a worktree, if one is known to.
pub open spec fn merged_pr_of(
    prs: Option<Seq<RepoPrView>>,
    branch: Option<Seq<char>>,
    head: Option<Seq<char>>,
) -> Option<u64> {
    match (prs, branch, head) {
        (Some(list), Some(branch), Some(head)) => merged_in(list, branch, head),
        _ => None,
    }
}

fn first_merged(list: &Vec<RepoPr>, branch: &str, head: &str) -> (number: Option<u64>)
    ensures
        number == merged_in(list.deep_view(), branch@, head@),
{
    let ghost all = list.deep_view();
    let mut i: usize = 0;
    proof {
        assert(all.skip(0) =~= all);
    }
    while i < list.len()
        invariant
            i <= list@.len(),
            all == list.deep_view(),
            merged_in(all.skip(i as int), branch@, head@) == merged_in(all, branch@, head@),
        decreases list@.len() - i,
    {
        let pr = &list[i];
        proof {
            assert(all.skip(i as int)[0] == pr.deep_view());
            assert(all.skip(i as int).drop_first() =~= all.skip(i + 1));
        }
        if pr.state == PrState::Merged && same_text(&pr.head_ref_name, branch) && same_text(
            &pr.head_ref_oid,
            head,
        ) {
            return Some(pr.number);
        }
        i = i + 1;
    }
    None
}

/// The merged pull request that holds the work of a worktree, if one is known to. A branch name
/// that was used again for new work does not count: its head differs.
pub fn merged_pr(
    prs: &Option<Vec<RepoPr>>,
    branch: &Option<String>,
    head: &Option<String>,
) -> (number: Option<u64>)
    ensures
        number == merged_pr_of(prs.deep_view(), branch.deep_view(), head.deep_view()),
{
    match (prs, branch, head) {
        (Some(list), Some(branch), Some(head)) => first_merged(list, branch, head),
        _ => None,
    }
}

/// The linked pull request is one of the repository's own for that branch, and no other one for
/// the branch is newer.
pub proof fn the_newest_pr_is_linked(prs: Seq<RepoPrView>, branch: Seq<char>)
    ensures
        match newest_for(prs, branch) {
            Some(best) => {
                &&& 0 <= best < prs.len()
                &&& is_for(prs[best], branch)
                &&& forall|i: int|
                    0 <= i < prs.len() && is_for(#[trigger] prs[i], branch) ==> !earlier(
                        prs[best].created,
                        prs[i].created,
                    )
            },
            None => forall|i: int| 0 <= i < prs.len() ==> !is_for(#[trigger] prs[i], branch),
        },
    decreases prs.len(),
{
    if prs.len() > 0 {
        the_newest_pr_is_linked(prs.drop_last(), branch);
        let n = prs.len() - 1;
        assert(forall|i: int| 0 <= i < n ==> prs.drop_last()[i] == prs[i]);
        match newest_for(prs.drop_last(), branch) {
            None => {
                lemma_not_earlier(prs[n].created);
            },
            Some(best) => {
                lemma_not_earlier(prs[n].created);
                if is_for(prs[n], branch) && earlier(prs[best].created, prs[n].created) {
                    assert forall|i: int|
                        0 <= i < prs.len() && is_for(#[trigger] prs[i], branch) implies !earlier(
                        prs[n].created,
                        prs[i].created,
                    ) by {
                        if i < n && earlier(prs[n].created, prs[i].created) {
                            assert(prs.drop_last()[i] == prs[i]);
                            lemma_earlier_chains(
                                prs[best].created,
                                prs[n].created,
                                prs[i].created,
                            );
                        }
                    }
                }
            },
        }
    }
}

proof fn lemma_not_earlier(a: Seq<char>)
    ensures
        !earlier(a, a),
    decreases a.len(),
{
    if a.len() > 0 {
        lemma_not_earlier(a.drop_first());
    }
}

proof fn lemma_earlier_chains(a: Seq<char>, b: Seq<char>, c: Seq<char>)
    requires
        earlier(a, b),
        earlier(b, c),
    ensures
        earlier(a, c),
    decreases a.len(),
{
    if a.len() > 0 && a[0] == b[0] && b[0] == c[0] {
        lemma_earlier_chains(a.drop_first(), b.drop_first(), c.drop_first());
    }
}

/// Texts are ordered by their first difference: a common beginning does not count, then the smaller
/// character comes first, and a text comes before its continuations. So of two different texts exactly
/// one is earlier.
pub proof fn the_first_difference_decides(start: Seq<char>, a: Seq<char>, b: Seq<char>)
    ensures
        earlier(start + a, start + b) == earlier(a, b),
        a.len() > 0 && b.len() > 0 && (a[0] as u32) < (b[0] as u32) ==> earlier(a, b) && !earlier(
            b,
            a,
        ),
        b.len() > 0 ==> earlier(Seq::empty(), b),
        !earlier(a, Seq::empty()),
        !earlier(a, a),
    decreases start.len(),
{
    lemma_not_earlier(a);
    if start.len() > 0 {
        let rest = start.drop_first();
        the_first_difference_decides(rest, a, b);
        assert((start + a).drop_first() =~= rest + a);
        assert((start + b).drop_first() =~= rest + b);
        assert((start + a)[0] == start[0]);
        assert((start + b)[0] == start[0]);
    } else {
        assert(start + a =~= a);
        assert(start + b =~= b);
    }
}

/// GitHub's word for the state decides; among those that are neither merged nor closed drafts are told
/// apart.
pub proof fn what_the_states_mean(draft: bool, word: Seq<char>)
    ensures
        word != "MERGED"@ && word != "CLOSED"@ ==> state_of(word, true) == PrState::Draft
            && state_of(word, false) == PrState::Open,
        state_of("MERGED"@, draft) == PrState::Merged,
        state_of("CLOSED"@, draft) == PrState::Closed,
        state_of("OPEN"@, true) == PrState::Draft,
        state_of("OPEN"@, false) == PrState::Open,
{
    reveal_strlit("MERGED");
    reveal_strlit("CLOSED");
    reveal_strlit("OPEN");
    assert(("MERGED"@)[0] == 'M');
    assert(("CLOSED"@)[0] == 'C');
    assert(("OPEN"@)[0] == 'O');
}

/// A branch is linked to a pull request of the repository itself whose head branch has its name, with
/// that pull request's number and state, and none for it was opened later. There is no link exactly
/// when there is no such pull request or no branch, and nothing is known without the list.
pub proof fn what_a_branch_is_linked_to(prs: Seq<RepoPrView>, branch: Seq<char>)
    ensures
        link_of(None, Some(branch)) == PrLink::Unknown,
        link_of(None, None) == PrLink::Unknown,
        link_of(Some(prs), None) == PrLink::Absent,
        match link_of(Some(prs), Some(branch)) {
            PrLink::Unknown => false,
            PrLink::Absent => forall|i: int|
                0 <= i < prs.len() ==> (#[trigger] prs[i]).fork || prs[i].head_ref_name != branch,
            PrLink::Pr { number, state } => exists|i: int|
                0 <= i < prs.len() && !(#[trigger] prs[i]).fork && prs[i].head_ref_name == branch
                    && prs[i].number == number && prs[i].state == state && forall|j: int|
                    0 <= j < prs.len() && !(#[trigger] prs[j]).fork && prs[j].head_ref_name
                        == branch ==> !earlier(prs[i].created, prs[j].created),
        },
{
    the_newest_pr_is_linked(prs, branch);
    match newest_for(prs, branch) {
        Some(best) => {
            assert(is_for(prs[best], branch));
            assert forall|j: int|
                0 <= j < prs.len() && !(#[trigger] prs[j]).fork && prs[j].head_ref_name
                    == branch implies !earlier(prs[best].created, prs[j].created) by {
                assert(is_for(prs[j], branch));
            }
        },
        None => {
            assert forall|i: int| 0 <= i < prs.len() implies (#[trigger] prs[i]).fork
                || prs[i].head_ref_name != branch by {
                assert(!is_for(prs[i], branch));
            }
        },
    }
}

/// A worktree's work is held to be merged by a pull request exactly when one is known that is merged,
/// has the worktree's branch and ends at its head; a reused branch name alone does not count.
pub proof fn what_shows_that_work_is_merged(
    prs: Seq<RepoPrView>,
    branch: Seq<char>,
    head: Seq<char>,
)
    ensures
        match merged_pr_of(Some(prs), Some(branch), Some(head)) {
            Some(number) => exists|i: int|
                0 <= i < prs.len() && (#[trigger] prs[i]).number == number && prs[i].state
                    == PrState::Merged && prs[i].head_ref_name == branch && prs[i].head_ref_oid
                    == head,
            None => forall|i: int|
                0 <= i < prs.len() ==> !((#[trigger] prs[i]).state == PrState::Merged
                    && prs[i].head_ref_name == branch && prs[i].head_ref_oid == head),
        },
        merged_pr_of(None, Some(branch), Some(head)) is None,
        merged_pr_of(Some(prs), None, Some(head)) is None,
        merged_pr_of(Some(prs), Some(branch), None) is None,
    decreases prs.len(),
{
    if prs.len() > 0 {
        let rest = prs.drop_first();
        what_shows_that_work_is_merged(rest, branch, head);
        if shows_merged(prs[0], branch, head) {
            assert(prs[0].number == merged_in(prs, branch, head)->Some_0);
        } else {
            match merged_in(rest, branch, head) {
                Some(number) => {
                    let i = choose|i: int|
                        0 <= i < rest.len() && (#[trigger] rest[i]).number == number
                            && rest[i].state == PrState::Merged && rest[i].head_ref_name == branch
                            && rest[i].head_ref_oid == head;
                    assert(prs[i + 1] == rest[i]);
                },
                None => {
                    assert forall|i: int| 0 <= i < prs.len() implies !((
                    #[trigger] prs[i]).state == PrState::Merged && prs[i].head_ref_name == branch
                        && prs[i].head_ref_oid == head) by {
                        if i > 0 {
                            assert(prs[i] == rest[i - 1]);
                        }
                    }
                },
            }
        }
    }
}

/// Of several pull requests of a branch that are as new as each other, and of several that show that
/// work is merged, the first one in the list counts.
pub proof fn the_first_of_equals_counts(
    prs: Seq<RepoPrView>,
    branch: Seq<char>,
    head: Seq<char>,
    i: int,
)
    requires
        0 <= i < prs.len(),
    ensures
        newest_for(prs, branch) matches Some(best) ==> (i < best && is_for(prs[i], branch)
            ==> earlier(prs[i].created, prs[best].created)),
        (prs[i].state == PrState::Merged && prs[i].head_ref_name == branch && prs[i].head_ref_oid
            == head && forall|j: int|
            0 <= j < i ==> !((#[trigger] prs[j]).state == PrState::Merged && prs[j].head_ref_name
                == branch && prs[j].head_ref_oid == head)) ==> merged_pr_of(
            Some(prs),
            Some(branch),
            Some(head),
        ) == Some(prs[i].number),
{
    lemma_first_newest(prs, branch, i);
    lemma_first_merged(prs, branch, head, i);
}

proof fn lemma_first_newest(prs: Seq<RepoPrView>, branch: Seq<char>, i: int)
    requires
        0 <= i < prs.len(),
    ensures
        newest_for(prs, branch) matches Some(best) ==> (i < best && is_for(prs[i], branch)
            ==> earlier(prs[i].created, prs[best].created)),
    decreases prs.len(),
{
    let fewer = prs.drop_last();
    let n = prs.len() - 1;
    if i < n {
        lemma_first_newest(fewer, branch, i);
        the_newest_pr_is_linked(fewer, branch);
        assert(fewer[i] == prs[i]);
        if let Some(best) = newest_for(fewer, branch) {
            assert(fewer[best] == prs[best]);
            if is_for(prs[n], branch) && earlier(prs[best].created, prs[n].created) && is_for(
                prs[i],
                branch,
            ) {
                assert(!earlier(prs[best].created, prs[i].created));
                lemma_before_or_after(prs[i].created, prs[best].created);
                if earlier(prs[i].created, prs[best].created) {
                    lemma_earlier_chains(prs[i].created, prs[best].created, prs[n].created);
                }
            }
        } else {
            assert(!is_for(fewer[i], branch));
        }
    } else {
        the_newest_pr_is_linked(prs, branch);
    }
}

proof fn lemma_code_points_differ(a: char, b: char)
    requires
        a != b,
    ensures
        a as u32 != b as u32,
{
}

/// Of two different texts one is earlier.
proof fn lemma_before_or_after(a: Seq<char>, b: Seq<char>)
    ensures
        a == b || earlier(a, b) || earlier(b, a),
    decreases a.len(),
{
    if a.len() > 0 && b.len() > 0 {
        if a[0] == b[0] {
            lemma_before_or_after(a.drop_first(), b.drop_first());
            if a.drop_first() == b.drop_first() {
                assert(a =~= seq![a[0]] + a.drop_first());
                assert(b =~= seq![b[0]] + b.drop_first());
                assert(a == b);
            }
        } else {
            lemma_code_points_differ(a[0], b[0]);
        }
    } else if a.len() == 0 && b.len() == 0 {
        assert(a =~= b);
    }
}

proof fn lemma_first_merged(prs: Seq<RepoPrView>, branch: Seq<char>, head: Seq<char>, i: int)
    requires
        0 <= i < prs.len(),
    ensures
        (shows_merged(prs[i], branch, head) && forall|j: int|
            0 <= j < i ==> !((#[trigger] prs[j]).state == PrState::Merged && prs[j].head_ref_name
                == branch && prs[j].head_ref_oid == head)) ==> merged_in(prs, branch, head) == Some(
            prs[i].number,
        ),
    decreases prs.len(),
{
    if i > 0 {
        let rest = prs.drop_first();
        lemma_first_merged(rest, branch, head, i - 1);
        assert(rest[i - 1] == prs[i]);
        if forall|j: int|
            0 <= j < i ==> !((#[trigger] prs[j]).state == PrState::Merged && prs[j].head_ref_name
                == branch && prs[j].head_ref_oid == head) {
            assert(!shows_merged(prs[0], branch, head));
            assert forall|j: int| 0 <= j < i - 1 implies !((
            #[trigger] rest[j]).state == PrState::Merged && rest[j].head_ref_name == branch
                && rest[j].head_ref_oid == head) by {
                assert(rest[j] == prs[j + 1]);
            }
        }
    }
}

} // verus!
