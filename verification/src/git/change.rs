//! Changing a repository: deleting a worktree with its branch, and merging.
use vstd::prelude::*;

use super::{git, git_output, git_text, git_text_output};
use crate::cmd::{Attempt, AttemptView};
use crate::model::result_view;
use crate::text::{
    chars_of, contents, lines, lines_of, spells, string_of, strip_suffix, without_suffix,
};

verus! {

/// How an attempt to delete a worktree without force ended.
#[derive(Debug)]
pub enum DeleteOutcome {
    Done,
    /// git refused; `worktree_removed` when only the branch is left.
    NeedsForce { reason: String, worktree_removed: bool },
    Failed(String),
}

/// A [`DeleteOutcome`] as mathematical values.
#[verifier::ext_equal]
pub enum DeleteOutcomeView {
    Done,
    NeedsForce { reason: Seq<char>, worktree_removed: bool },
    Failed(Seq<char>),
}

impl DeepView for DeleteOutcome {
    type V = DeleteOutcomeView;

    open spec fn deep_view(&self) -> DeleteOutcomeView {
        match self {
            DeleteOutcome::Done => DeleteOutcomeView::Done,
            DeleteOutcome::NeedsForce { reason, worktree_removed } => {
                DeleteOutcomeView::NeedsForce {
                    reason: reason@,
                    worktree_removed: *worktree_removed,
                }
            },
            DeleteOutcome::Failed(reason) => DeleteOutcomeView::Failed(reason@),
        }
    }
}

/// Removes a worktree whatever its state: the first `--force` lets go of uncommitted files, the
/// second of a lock.
pub open spec fn remove_args(path: Seq<char>) -> Seq<Seq<char>> {
    seq!["worktree"@, "remove"@, "--force"@, "--force"@, path]
}

pub fn remove_query(path: &str) -> (args: Vec<String>)
    ensures
        args.deep_view() == remove_args(path@),
{
    vec![
        "worktree".to_owned(),
        "remove".to_owned(),
        "--force".to_owned(),
        "--force".to_owned(),
        path.to_owned(),
    ]
}

/// Deletes a local branch, merged or not.
pub open spec fn branch_args(branch: Seq<char>) -> Seq<Seq<char>> {
    seq!["branch"@, "-D"@, branch]
}

pub fn branch_query(branch: &str) -> (args: Vec<String>)
    ensures
        args.deep_view() == branch_args(branch@),
{
    vec!["branch".to_owned(), "-D".to_owned(), branch.to_owned()]
}

/// Whether the worktree at `path` was removed.
pub fn removed(repo: &str, path: &str, attempt: Attempt) -> (result: Result<(), String>)
    ensures
        result_view(result) == match git_output(repo@, remove_args(path@), attempt.deep_view()) {
            Ok(_) => Ok(()),
            Err(reason) => Err(reason),
        },
{
    match git(repo, &remove_query(path), attempt) {
        Ok(_) => Ok(()),
        Err(reason) => Err(reason),
    }
}

/// What deleting the branch of a removed worktree gives; a failure says what is already gone.
pub open spec fn branch_deleted_of(
    repo: Seq<char>,
    branch: Seq<char>,
    attempt: AttemptView,
) -> Result<(), Seq<char>> {
    match git_output(repo, branch_args(branch), attempt) {
        Ok(_) => Ok(()),
        Err(reason) => Err(
            "The worktree is gone, but git branch -D "@ + branch + " failed:\n"@ + reason,
        ),
    }
}

/// What deleting the branch of a removed worktree gives; a failure says what is already gone.
pub fn branch_deleted(repo: &str, branch: &str, attempt: Attempt) -> (result: Result<(), String>)
    ensures
        result_view(result) == branch_deleted_of(repo@, branch@, attempt.deep_view()),
{
    match git(repo, &branch_query(branch), attempt) {
        Ok(_) => Ok(()),
        Err(reason) => Err(
            "The worktree is gone, but git branch -D ".to_owned().concat(branch).concat(
                " failed:\n",
            ).concat(&reason),
        ),
    }
}

/// The outcome of deleting a worktree and its branch, given how both commands went. The branch
/// is only tried once the worktree is gone.
pub open spec fn deleted_of(
    repo: Seq<char>,
    path: Seq<char>,
    branch: Option<Seq<char>>,
    remove: AttemptView,
    delete: AttemptView,
) -> Result<(), Seq<char>> {
    match git_output(repo, remove_args(path), remove) {
        Err(reason) => Err(reason),
        Ok(_) => match branch {
            None => Ok(()),
            Some(branch) => branch_deleted_of(repo, branch, delete),
        },
    }
}

pub open spec fn merge_args(base: Seq<char>) -> Seq<Seq<char>> {
    seq!["merge"@, base]
}

/// Merges `base` into the branch that is checked out.
pub fn merge_query(base: &str) -> (args: Vec<String>)
    ensures
        args.deep_view() == merge_args(base@),
{
    vec!["merge".to_owned(), base.to_owned()]
}

/// What a successful `git merge` did, in a few words: `fast-forward` when it says so on a line of
/// its own, else its first line without the full stop.
pub open spec fn merge_summary(out: Seq<char>) -> Seq<char> {
    let found = lines(out);
    if found.contains("Fast-forward"@) {
        "fast-forward"@
    } else if found.len() == 0 {
        "merged"@
    } else {
        match strip_suffix(found[0], "."@) {
            Some(rest) => rest,
            None => found[0],
        }
    }
}

fn summary(out: &str) -> (words: String)
    ensures
        words@ == merge_summary(out@),
{
    let chars = chars_of(out);
    let found = lines_of(&chars);
    let ghost all = lines(out@);
    let mut i: usize = 0;
    while i < found.len()
        invariant
            i <= found@.len(),
            contents(found@) == all,
            all == lines(out@),
            forall|j: int| 0 <= j < i ==> all[j] != "Fast-forward"@,
        decreases found@.len() - i,
    {
        proof {
            assert(all[i as int] == found@[i as int]@);
        }
        if spells(found[i], "Fast-forward") {
            proof {
                assert(all[i as int] == "Fast-forward"@);
            }
            return "fast-forward".to_owned();
        }
        i = i + 1;
    }
    proof {
        assert(!all.contains("Fast-forward"@));
    }
    if found.len() == 0 {
        return "merged".to_owned();
    }
    proof {
        assert(all[0] == found@[0]@);
    }
    match without_suffix(found[0], ".") {
        Some(rest) => string_of(rest),
        None => string_of(found[0]),
    }
}

/// What `git merge base` gives in `worktree`: a summary, or git's reason.
pub open spec fn merge_of(
    worktree: Seq<char>,
    base: Seq<char>,
    attempt: AttemptView,
) -> Result<Seq<char>, Seq<char>> {
    match git_text_output(worktree, merge_args(base), attempt) {
        Ok(out) => Ok(merge_summary(out)),
        Err(reason) => Err(reason),
    }
}

/// What `git merge base` gives in `worktree`: a summary, or git's reason.
pub fn merge(worktree: &str, base: &str, attempt: Attempt) -> (result: Result<String, String>)
    ensures
        result_view(result) == merge_of(worktree@, base@, attempt.deep_view()),
{
    match git_text(worktree, &merge_query(base), attempt) {
        Ok(out) => Ok(summary(&out)),
        Err(reason) => Err(reason),
    }
}

/// What the commands that change a repository are, word by word.
pub proof fn what_the_changing_commands_are(path: Seq<char>, branch: Seq<char>, base: Seq<char>)
    ensures
        remove_args(path) == seq!["worktree"@, "remove"@, "--force"@, "--force"@, path],
        branch_args(branch) == seq!["branch"@, "-D"@, branch],
        merge_args(base) == seq!["merge"@, base],
{
}

/// A merge that says `Fast-forward` on a line of its own is one; otherwise its first line says what it
/// did, without the full stop at its end.
pub proof fn what_a_merge_did(out: Seq<char>, first: Seq<char>, rest: Seq<Seq<char>>)
    ensures
        lines(out).contains("Fast-forward"@) ==> merge_summary(out) == "fast-forward"@,
        lines(out) == seq![first + "."@] + rest && !lines(out).contains("Fast-forward"@)
            ==> merge_summary(out) == first,
        lines(out) == seq![first] + rest && !lines(out).contains("Fast-forward"@) && !(
        "."@).is_suffix_of(first) ==> merge_summary(out) == first,
        lines(out).len() == 0 ==> merge_summary(out) == "merged"@,
{
    crate::text::laws::prefixes_and_suffixes_are_taken_off(Seq::empty(), first, "."@);
}

/// A delete succeeds exactly when both commands do, or the first alone where there is no branch. What
/// the first one says when it fails is the reason; when only the second fails, the reason says that
/// the worktree is gone and what git says.
pub proof fn what_came_of_a_delete(
    repo: Seq<char>,
    path: Seq<char>,
    branch: Option<Seq<char>>,
    remove: AttemptView,
    delete: AttemptView,
)
    ensures
        ({
            let first = git_output(
                repo,
                seq!["worktree"@, "remove"@, "--force"@, "--force"@, path],
                remove,
            );
            let result = deleted_of(repo, path, branch, remove, delete);
            &&& first is Err ==> result == Err::<(), Seq<char>>(first->Err_0)
            &&& first is Ok && branch is None ==> result is Ok
            &&& first is Ok && branch is Some ==> {
                let second = git_output(repo, seq!["branch"@, "-D"@, branch->Some_0], delete);
                &&& result is Ok <==> second is Ok
                &&& second is Err ==> result->Err_0 == "The worktree is gone, but git branch -D "@
                    + branch->Some_0 + " failed:\n"@ + second->Err_0
            }
        }),
{
}

} // verus!
