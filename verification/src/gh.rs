//! Pull requests via the GitHub CLI (`gh`): the arguments to call it with, and the reading of what
//! it says.
use vstd::prelude::*;

use crate::cmd::{run, stdout_of, Attempt, AttemptView, CmdError, CmdErrorView};
use crate::git::{MergedPr, MergedPrView};
use crate::model::{result_view, FileStat, FileStatView};
use crate::text::{
    chars_of, contains, contents, decimal, decimal_of, find_word, lines, lines_of, lossy, lowercase,
    lowercased, string_of, utf8_lossy,
};

pub mod laws;

verus! {

#[derive(Debug)]
pub struct PullRequest {
    pub number: u64,
    pub title: String,
    pub head_ref_name: String,
    pub author: Option<Author>,
    pub is_draft: bool,
    pub changed_files: u64,
    pub additions: u64,
    pub deletions: u64,
}

#[derive(Debug)]
pub struct Author {
    pub login: String,
}

/// A [`PullRequest`] as mathematical values; the author is given by login.
#[verifier::ext_equal]
pub struct PullRequestView {
    pub number: u64,
    pub title: Seq<char>,
    pub head_ref_name: Seq<char>,
    pub author: Option<Seq<char>>,
    pub is_draft: bool,
    pub changed_files: u64,
    pub additions: u64,
    pub deletions: u64,
}

impl DeepView for Author {
    type V = Seq<char>;

    open spec fn deep_view(&self) -> Seq<char> {
        self.login@
    }
}

impl DeepView for PullRequest {
    type V = PullRequestView;

    open spec fn deep_view(&self) -> PullRequestView {
        PullRequestView {
            number: self.number,
            title: self.title@,
            head_ref_name: self.head_ref_name@,
            author: self.author.deep_view(),
            is_draft: self.is_draft,
            changed_files: self.changed_files,
            additions: self.additions,
            deletions: self.deletions,
        }
    }
}

/// One file of a pull request, as `gh` reports it.
#[derive(Debug)]
pub struct PrFile {
    pub path: String,
    pub additions: u64,
    pub deletions: u64,
}

/// A [`PrFile`] as mathematical values.
pub struct PrFileView {
    pub path: Seq<char>,
    pub additions: u64,
    pub deletions: u64,
}

impl DeepView for PrFile {
    type V = PrFileView;

    open spec fn deep_view(&self) -> PrFileView {
        PrFileView { path: self.path@, additions: self.additions, deletions: self.deletions }
    }
}

/// One entry of a list of merged pull requests, as `gh` reports it.
#[derive(Debug)]
pub struct MergedPrJson {
    pub number: u64,
    pub head_ref_name: String,
    pub head_ref_oid: String,
}

/// A [`MergedPrJson`] as mathematical values.
pub struct MergedPrJsonView {
    pub number: u64,
    pub head_ref_name: Seq<char>,
    pub head_ref_oid: Seq<char>,
}

impl DeepView for MergedPrJson {
    type V = MergedPrJsonView;

    open spec fn deep_view(&self) -> MergedPrJsonView {
        MergedPrJsonView {
            number: self.number,
            head_ref_name: self.head_ref_name@,
            head_ref_oid: self.head_ref_oid@,
        }
    }
}

// ---------------------------------------------------------------------------------------------
// Calls
// ---------------------------------------------------------------------------------------------

pub open spec fn list_args(repo: Seq<char>) -> Seq<Seq<char>> {
    seq![
        "pr"@,
        "list"@,
        "-R"@,
        repo,
        "--state"@,
        "open"@,
        "--limit"@,
        "100"@,
        "--json"@,
        "number,title,headRefName,author,isDraft,changedFiles,additions,deletions"@,
    ]
}

/// Asks for the open PRs of `repo` (`owner/name`).
pub fn list_query(repo: &str) -> (args: Vec<String>)
    ensures
        args.deep_view() == list_args(repo@),
{
    vec![
        "pr".to_owned(),
        "list".to_owned(),
        "-R".to_owned(),
        repo.to_owned(),
        "--state".to_owned(),
        "open".to_owned(),
        "--limit".to_owned(),
        "100".to_owned(),
        "--json".to_owned(),
        "number,title,headRefName,author,isDraft,changedFiles,additions,deletions".to_owned(),
    ]
}

pub open spec fn repo_list_args(repo: Seq<char>) -> Seq<Seq<char>> {
    seq![
        "pr"@,
        "list"@,
        "-R"@,
        repo,
        "--state"@,
        "all"@,
        "--limit"@,
        "300"@,
        "--json"@,
        "number,headRefName,headRefOid,state,isDraft,isCrossRepository,createdAt"@,
    ]
}

/// Asks for the most recent PRs of `repo` in any state, to match them against local branches and
/// to recognize branches that were squash or rebase merged (their own commits never reach the
/// default branch).
pub fn repo_list_query(repo: &str) -> (args: Vec<String>)
    ensures
        args.deep_view() == repo_list_args(repo@),
{
    vec![
        "pr".to_owned(),
        "list".to_owned(),
        "-R".to_owned(),
        repo.to_owned(),
        "--state".to_owned(),
        "all".to_owned(),
        "--limit".to_owned(),
        "300".to_owned(),
        "--json".to_owned(),
        "number,headRefName,headRefOid,state,isDraft,isCrossRepository,createdAt".to_owned(),
    ]
}

pub open spec fn merged_list_args(repo: Seq<char>) -> Seq<Seq<char>> {
    seq![
        "pr"@,
        "list"@,
        "-R"@,
        repo,
        "--state"@,
        "merged"@,
        "--limit"@,
        "200"@,
        "--json"@,
        "number,headRefName,headRefOid"@,
    ]
}

/// Asks for the most recently merged PRs of `repo`.
pub fn merged_list_query(repo: &str) -> (args: Vec<String>)
    ensures
        args.deep_view() == merged_list_args(repo@),
{
    vec![
        "pr".to_owned(),
        "list".to_owned(),
        "-R".to_owned(),
        repo.to_owned(),
        "--state".to_owned(),
        "merged".to_owned(),
        "--limit".to_owned(),
        "200".to_owned(),
        "--json".to_owned(),
        "number,headRefName,headRefOid".to_owned(),
    ]
}

pub open spec fn files_args(repo: Seq<char>, number: u64) -> Seq<Seq<char>> {
    seq!["pr"@, "view"@, decimal(number as nat), "-R"@, repo, "--json"@, "files"@]
}

/// Asks for the files of PR `number` in `repo`.
pub fn files_query(repo: &str, number: u64) -> (args: Vec<String>)
    ensures
        args.deep_view() == files_args(repo@, number),
{
    vec![
        "pr".to_owned(),
        "view".to_owned(),
        decimal_of(number),
        "-R".to_owned(),
        repo.to_owned(),
        "--json".to_owned(),
        "files".to_owned(),
    ]
}

/// `stderr` says that `gh` has no valid login.
pub open spec fn names_auth(stderr: Seq<char>) -> bool {
    let said = lowercase(stderr);
    ||| contains(said, "gh auth login"@)
    ||| contains(said, "not logged in"@)
    ||| contains(said, "authentication"@)
    ||| contains(said, "http 401"@)
    ||| contains(said, "bad credentials"@)
}

/// A failed `gh` call as a message the user can act on.
pub open spec fn described(err: CmdErrorView) -> Seq<char> {
    match err {
        CmdErrorView::Missing =>
            "GitHub CLI (gh) is not installed. Install it with `sudo pacman -S github-cli`, then press r."@,
        CmdErrorView::Failed(stderr) => if names_auth(stderr) {
            "gh is not logged in. Run `gh auth login`, then press r."@
        } else if lines(stderr).len() == 0 {
            "gh failed: gh failed"@
        } else {
            "gh failed: "@ + lines(stderr)[0]
        },
    }
}

/// What `gh args...` printed in `dir`, or a message the user can act on.
pub open spec fn gh_output(
    dir: Seq<char>,
    args: Seq<Seq<char>>,
    attempt: AttemptView,
) -> Result<Seq<char>, Seq<char>> {
    match stdout_of("gh"@, dir, args, attempt) {
        Ok(out) => Ok(utf8_lossy(out)),
        Err(err) => Err(described(err)),
    }
}

fn says(chars: &[char], word: &str) -> (yes: bool)
    ensures
        yes == contains(chars@, word@),
{
    find_word(chars, &chars_of(word)).is_some()
}

/// `stderr` says that `gh` has no valid login.
fn is_auth_error(stderr: &str) -> (is: bool)
    ensures
        is == names_auth(stderr@),
{
    let chars = chars_of(stderr);
    let said = lowercased(&chars);
    says(&said, "gh auth login") || says(&said, "not logged in") || says(&said, "authentication")
        || says(&said, "http 401") || says(&said, "bad credentials")
}

/// Turns a failed `gh` call into a message the user can act on.
pub fn describe_error(err: CmdError) -> (message: String)
    ensures
        message@ == described(err.deep_view()),
{
    match err {
        CmdError::Missing =>
            "GitHub CLI (gh) is not installed. Install it with `sudo pacman -S github-cli`, then press r.".to_owned(),
        CmdError::Failed(stderr) => {
            if is_auth_error(&stderr) {
                "gh is not logged in. Run `gh auth login`, then press r.".to_owned()
            } else {
                let chars = chars_of(&stderr);
                let found = lines_of(&chars);
                proof {
                    assert(contents(found@).len() == found@.len());
                }
                if found.len() == 0 {
                    "gh failed: gh failed".to_owned()
                } else {
                    proof {
                        assert(contents(found@)[0] == found@[0]@);
                    }
                    "gh failed: ".to_owned().concat(&string_of(found[0]))
                }
            }
        },
    }
}

fn gh(dir: &str, args: &Vec<String>, attempt: Attempt) -> (result: Result<String, String>)
    ensures
        result_view(result) == gh_output(dir@, args.deep_view(), attempt.deep_view()),
{
    match run("gh", dir, args, attempt) {
        Ok(out) => {
            proof {
                assert(out.deep_view() =~= out@);
            }
            Ok(lossy(&out))
        },
        Err(err) => Err(describe_error(err)),
    }
}

/// The JSON list of the open PRs of `repo` (`owner/name`).
pub fn list_prs(dir: &str, repo: &str, attempt: Attempt) -> (json: Result<String, String>)
    ensures
        result_view(json) == gh_output(dir@, list_args(repo@), attempt.deep_view()),
{
    gh(dir, &list_query(repo), attempt)
}

/// The JSON list of the recent PRs of `repo` in any state.
pub fn list_repo_prs(dir: &str, repo: &str, attempt: Attempt) -> (json: Result<String, String>)
    ensures
        result_view(json) == gh_output(dir@, repo_list_args(repo@), attempt.deep_view()),
{
    gh(dir, &repo_list_query(repo), attempt)
}

/// The JSON list of the most recently merged PRs of `repo`, as raw bytes.
pub fn list_merged_prs(dir: &str, repo: &str, attempt: Attempt) -> (json: Result<Vec<u8>, String>)
    ensures
        result_view(json) == match stdout_of(
            "gh"@,
            dir@,
            merged_list_args(repo@),
            attempt.deep_view(),
        ) {
            Ok(out) => Ok(out),
            Err(err) => Err(described(err)),
        },
{
    match run("gh", dir, &merged_list_query(repo), attempt) {
        Ok(out) => Ok(out),
        Err(err) => Err(describe_error(err)),
    }
}

/// The JSON description of the files of PR `number` in `repo`.
pub fn pr_files(dir: &str, repo: &str, number: u64, attempt: Attempt) -> (json: Result<
    String,
    String,
>)
    ensures
        result_view(json) == gh_output(dir@, files_args(repo@, number), attempt.deep_view()),
{
    gh(dir, &files_query(repo, number), attempt)
}

// ---------------------------------------------------------------------------------------------
// Answers
// ---------------------------------------------------------------------------------------------

/// A list that was parsed, or what is wrong with gh's output.
pub open spec fn listed<T>(parsed: Result<T, Seq<char>>) -> Result<T, Seq<char>> {
    match parsed {
        Ok(list) => Ok(list),
        Err(err) => Err("unexpected gh pr list output: "@ + err),
    }
}

/// The PRs in a JSON list; `parsed` carries them or the parser's complaint.
pub fn parse_pr_list<T: DeepView>(parsed: Result<T, String>) -> (prs: Result<T, String>)
    ensures
        result_view(prs) == listed(result_view(parsed)),
{
    match parsed {
        Ok(list) => Ok(list),
        Err(err) => Err("unexpected gh pr list output: ".to_owned().concat(&err)),
    }
}

/// A merged pull request from gh's entry for it.
pub open spec fn merged_entry(pr: MergedPrJsonView) -> MergedPrView {
    MergedPrView {
        number: pr.number,
        head_ref_name: pr.head_ref_name,
        head_ref_oid: pr.head_ref_oid,
    }
}

/// The merged pull requests of a list that was parsed, or what is wrong with gh's output.
pub open spec fn merged_listed(parsed: Result<Seq<MergedPrJsonView>, Seq<char>>) -> Result<
    Seq<MergedPrView>,
    Seq<char>,
> {
    match parsed {
        Ok(list) => Ok(list.map_values(|pr: MergedPrJsonView| merged_entry(pr))),
        Err(err) => Err("unexpected gh pr list output: "@ + err),
    }
}

/// The merged PRs in a JSON list, in order; `parsed` carries its entries or the parser's complaint.
pub fn parse_merged_prs(parsed: Result<Vec<MergedPrJson>, String>) -> (prs: Result<
    Vec<MergedPr>,
    String,
>)
    ensures
        result_view(prs) == merged_listed(result_view(parsed)),
{
    let list = match parsed {
        Ok(list) => list,
        Err(err) => {
            return Err("unexpected gh pr list output: ".to_owned().concat(&err));
        },
    };
    let ghost wanted = list.deep_view().map_values(|pr: MergedPrJsonView| merged_entry(pr));
    let mut prs: Vec<MergedPr> = Vec::new();
    let mut i: usize = 0;
    while i < list.len()
        invariant
            i <= list@.len(),
            wanted == list.deep_view().map_values(|pr: MergedPrJsonView| merged_entry(pr)),
            prs.deep_view() == wanted.take(i as int),
        decreases list@.len() - i,
    {
        let pr = &list[i];
        let ghost before = prs.deep_view();
        prs.push(
            MergedPr {
                number: pr.number,
                head_ref_name: pr.head_ref_name.clone(),
                head_ref_oid: pr.head_ref_oid.clone(),
            },
        );
        i = i + 1;
        proof {
            assert(prs.deep_view() =~= before.push(wanted[i - 1]));
            assert(prs.deep_view() =~= wanted.take(i as int));
        }
    }
    proof {
        assert(wanted.take(i as int) =~= wanted);
    }
    Ok(prs)
}

/// A file of a PR: its counts are always known, and it is tracked.
pub open spec fn pr_file_stat(file: PrFileView) -> FileStatView {
    FileStatView {
        path: file.path,
        added: Some(file.additions),
        deleted: Some(file.deletions),
        untracked: false,
    }
}

/// The files of a description that was parsed, or what is wrong with gh's output.
pub open spec fn files_listed(parsed: Result<Seq<PrFileView>, Seq<char>>) -> Result<
    Seq<FileStatView>,
    Seq<char>,
> {
    match parsed {
        Ok(list) => Ok(list.map_values(|file: PrFileView| pr_file_stat(file))),
        Err(err) => Err("unexpected gh pr view output: "@ + err),
    }
}

/// The files in the JSON description of a PR; `parsed` carries them or the parser's complaint.
pub fn parse_pr_files(parsed: Result<Vec<PrFile>, String>) -> (files: Result<Vec<FileStat>, String>)
    ensures
        result_view(files) == files_listed(result_view(parsed)),
{
    let list = match parsed {
        Ok(list) => list,
        Err(err) => {
            return Err("unexpected gh pr view output: ".to_owned().concat(&err));
        },
    };
    let ghost wanted = list.deep_view().map_values(|file: PrFileView| pr_file_stat(file));
    let mut files: Vec<FileStat> = Vec::new();
    let mut i: usize = 0;
    while i < list.len()
        invariant
            i <= list@.len(),
            wanted == list.deep_view().map_values(|file: PrFileView| pr_file_stat(file)),
            files.deep_view() == wanted.take(i as int),
        decreases list@.len() - i,
    {
        let file = &list[i];
        let ghost before = files.deep_view();
        files.push(
            FileStat {
                path: file.path.clone(),
                added: Some(file.additions),
                deleted: Some(file.deletions),
                untracked: false,
            },
        );
        i = i + 1;
        proof {
            assert(files.deep_view() =~= before.push(wanted[i - 1]));
            assert(files.deep_view() =~= wanted.take(i as int));
        }
    }
    proof {
        assert(wanted.take(i as int) =~= wanted);
    }
    Ok(files)
}

} // verus!
