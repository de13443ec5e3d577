//! What gh is asked, and how its failures read.
use vstd::prelude::*;

use super::{
    described, files_args, files_listed, gh_output, list_args, listed, merged_entry,
    merged_list_args, merged_listed, names_auth, pr_file_stat, repo_list_args, MergedPrJsonView,
    PrFileView,
};
use crate::cmd::{stdout_of, AttemptView, CmdErrorView};
use crate::git::MergedPrView;
use crate::model::FileStatView;
use crate::text::{decimal, lines, lowercase, occurs_at, the_first_occurrence_is_found, utf8_lossy};

verus! {

/// The words that gh is called with: which pull requests of which repository, how many at most, and
/// what of each.
pub proof fn what_gh_is_asked(repo: Seq<char>, number: u64)
    ensures
        list_args(repo) == seq![
            "pr"@,
            "list"@,
            "-R"@,
            repo,
            "--state"@,
            "open"@,
            "--limit"@,
            "100"@,
            "--json"@,
            "number,title,headRefName,author,isDraft,changedFiles,additions,deletions"@,
        ],
        repo_list_args(repo) == seq![
            "pr"@,
            "list"@,
            "-R"@,
            repo,
            "--state"@,
            "all"@,
            "--limit"@,
            "300"@,
            "--json"@,
            "number,headRefName,headRefOid,state,isDraft,isCrossRepository,createdAt"@,
        ],
        merged_list_args(repo) == seq![
            "pr"@,
            "list"@,
            "-R"@,
            repo,
            "--state"@,
            "merged"@,
            "--limit"@,
            "200"@,
            "--json"@,
            "number,headRefName,headRefOid"@,
        ],
        files_args(repo, number) == seq![
            "pr"@,
            "view"@,
            decimal(number as nat),
            "-R"@,
            repo,
            "--json"@,
            "files"@,
        ],
{
}

/// `word` stands somewhere in `text`, in capital or small letters.
pub open spec fn says(text: Seq<char>, word: Seq<char>) -> bool {
    exists|i: int| occurs_at(lowercase(text), word, i)
}

/// gh has no valid login exactly when it says one of these, wherever in the message and in whatever
/// case.
pub proof fn how_a_missing_login_reads(stderr: Seq<char>)
    ensures
        names_auth(stderr) <==> {
            ||| says(stderr, "gh auth login"@)
            ||| says(stderr, "not logged in"@)
            ||| says(stderr, "authentication"@)
            ||| says(stderr, "http 401"@)
            ||| says(stderr, "bad credentials"@)
        },
{
    let said = lowercase(stderr);
    the_first_occurrence_is_found(said, "gh auth login"@);
    the_first_occurrence_is_found(said, "not logged in"@);
    the_first_occurrence_is_found(said, "authentication"@);
    the_first_occurrence_is_found(said, "http 401"@);
    the_first_occurrence_is_found(said, "bad credentials"@);
}

/// A message that names the login leads to the login, a missing program to its package, and any
/// other failure to the first line that gh printed.
pub proof fn what_a_gh_failure_tells(stderr: Seq<char>)
    ensures
        described(CmdErrorView::Missing)
            == "GitHub CLI (gh) is not installed. Install it with `sudo pacman -S github-cli`, then press r."@,
        names_auth(stderr) ==> described(CmdErrorView::Failed(stderr))
            == "gh is not logged in. Run `gh auth login`, then press r."@,
        !names_auth(stderr) && lines(stderr).len() > 0 ==> described(CmdErrorView::Failed(stderr))
            == "gh failed: "@ + lines(stderr)[0],
        !names_auth(stderr) && lines(stderr).len() == 0 ==> described(CmdErrorView::Failed(stderr))
            == "gh failed: gh failed"@,
{
}

/// gh gives what it printed, as text, exactly when it ends well.
pub proof fn gh_gives_its_output_or_a_reason(
    dir: Seq<char>,
    args: Seq<Seq<char>>,
    attempt: AttemptView,
)
    ensures
        match stdout_of("gh"@, dir, args, attempt) {
            Ok(out) => gh_output(dir, args, attempt) == Ok::<Seq<char>, Seq<char>>(utf8_lossy(out)),
            Err(err) => gh_output(dir, args, attempt) == Err::<Seq<char>, Seq<char>>(
                described(err),
            ),
        },
{
}

/// What gh says of a pull request or of a file is taken over as it stands: the counts of a file are
/// known, and git tracks it.
pub proof fn entries_are_taken_over(pr: MergedPrJsonView, file: PrFileView)
    ensures
        merged_entry(pr).number == pr.number,
        merged_entry(pr).head_ref_name == pr.head_ref_name,
        merged_entry(pr).head_ref_oid == pr.head_ref_oid,
        pr_file_stat(file).path == file.path,
        pr_file_stat(file).added == Some(file.additions),
        pr_file_stat(file).deleted == Some(file.deletions),
        !pr_file_stat(file).untracked,
{
}

/// What gh listed is kept one for one and in its order, and what could not be parsed is an error that
/// names the command and keeps the complaint.
pub proof fn lists_are_kept_in_order(
    prs: Seq<MergedPrJsonView>,
    files: Seq<PrFileView>,
    err: Seq<char>,
)
    ensures
        listed(Ok(prs)) == Ok::<Seq<MergedPrJsonView>, Seq<char>>(prs),
        listed(Err::<Seq<MergedPrJsonView>, Seq<char>>(err)) == Err::<
            Seq<MergedPrJsonView>,
            Seq<char>,
        >("unexpected gh pr list output: "@ + err),
        merged_listed(Ok(prs)) is Ok,
        merged_listed(Ok(prs))->Ok_0.len() == prs.len(),
        forall|k: int|
            0 <= k < prs.len() ==> merged_listed(Ok(prs))->Ok_0[k] == merged_entry(
                #[trigger] prs[k],
            ),
        merged_listed(Err(err)) == Err::<Seq<MergedPrView>, Seq<char>>(
            "unexpected gh pr list output: "@ + err,
        ),
        files_listed(Ok(files)) is Ok,
        files_listed(Ok(files))->Ok_0.len() == files.len(),
        forall|k: int|
            0 <= k < files.len() ==> files_listed(Ok(files))->Ok_0[k] == pr_file_stat(
                #[trigger] files[k],
            ),
        files_listed(Err(err)) == Err::<Seq<FileStatView>, Seq<char>>(
            "unexpected gh pr view output: "@ + err,
        ),
{
}

} // verus!
