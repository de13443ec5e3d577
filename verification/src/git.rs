//! What `git` says about a repository: the arguments to ask it with and the reading of its
//! output.
use vstd::prelude::*;

use crate::cmd::{run, stdout_of, Attempt, AttemptView, CmdError, CmdErrorView};
use crate::model::{result_view, FileStat, FileStatView};
use crate::text::{
    chars_of, contents, find, find_char, find_word, lemma_position, lines, lines_of, lossy,
    lowercase, lowercased, number_of, parse_u64, position, spells, split, split_at_char,
    split_bytes, split_once, string_of, strip_prefix, strip_suffix, trim, trim_slashes, trimmed,
    utf8_lossy, without_prefix, without_slashes, without_suffix, words, words_of,
};
use vstd::slice::slice_subrange;
use vstd::utf8::{decode_utf8, valid_utf8};

pub mod change;
pub mod laws;
pub mod lines;
pub mod listing;
pub mod load;
pub mod prs;
pub mod reading;
pub mod remotes;
pub mod stats;
pub mod written;

use self::written::{
    all_fields, changes_shown, changes_writable, decoded, terminated, what_is_written_reads_back,
    writable, written, written_changes_read_back, Change,
};

verus! {

/// One entry of `git worktree list --porcelain`.
#[derive(Debug)]
pub struct Worktree {
    pub path: String,
    pub head: Option<String>,
    /// Short branch name; `None` when HEAD is detached.
    pub branch: Option<String>,
    pub bare: bool,
    /// The worktree directory no longer exists.
    pub prunable: bool,
    /// Protected by `git worktree lock`.
    pub locked: bool,
    /// The main worktree, which git lists first.
    pub main: bool,
}

/// A [`Worktree`] as mathematical values.
#[verifier::ext_equal]
pub struct WorktreeView {
    pub path: Seq<char>,
    pub head: Option<Seq<char>>,
    pub branch: Option<Seq<char>>,
    pub bare: bool,
    pub prunable: bool,
    pub locked: bool,
    pub main: bool,
}

impl DeepView for Worktree {
    type V = WorktreeView;

    open spec fn deep_view(&self) -> WorktreeView {
        WorktreeView {
            path: self.path@,
            head: self.head.deep_view(),
            branch: self.branch.deep_view(),
            bare: self.bare,
            prunable: self.prunable,
            locked: self.locked,
            main: self.main,
        }
    }
}

impl Worktree {
    /// Whether the worktree can be read: git does not call it prunable, and `is_dir` says that its
    /// directory is there.
    pub fn is_present(&self, is_dir: bool) -> (present: bool)
        ensures
            present == (!self.prunable && is_dir),
    {
        !self.prunable && is_dir
    }
}

/// A merged pull request, by number, head branch and head commit.
#[derive(Debug, PartialEq, Eq)]
pub struct MergedPr {
    pub number: u64,
    pub head_ref_name: String,
    pub head_ref_oid: String,
}

/// A [`MergedPr`] as mathematical values.
#[verifier::ext_equal]
pub struct MergedPrView {
    pub number: u64,
    pub head_ref_name: Seq<char>,
    pub head_ref_oid: Seq<char>,
}

impl DeepView for MergedPr {
    type V = MergedPrView;

    open spec fn deep_view(&self) -> MergedPrView {
        MergedPrView {
            number: self.number,
            head_ref_name: self.head_ref_name@,
            head_ref_oid: self.head_ref_oid@,
        }
    }
}

/// Whether `origin/<default>` can be merged into a branch.
#[derive(Debug)]
pub enum SyncStatus {
    /// Nothing to merge.
    UpToDate,
    /// Uncommitted changes are in the way.
    Dirty,
    /// Merges cleanly; `ff` when no merge commit is needed.
    Ready { ff: bool },
    /// These files would conflict.
    Conflicts(Vec<String>),
    /// The check failed.
    Unknown(String),
}

/// A [`SyncStatus`] as mathematical values.
#[verifier::ext_equal]
pub enum SyncStatusView {
    UpToDate,
    Dirty,
    Ready { ff: bool },
    Conflicts(Seq<Seq<char>>),
    Unknown(Seq<char>),
}

impl DeepView for SyncStatus {
    type V = SyncStatusView;

    open spec fn deep_view(&self) -> SyncStatusView {
        match self {
            SyncStatus::UpToDate => SyncStatusView::UpToDate,
            SyncStatus::Dirty => SyncStatusView::Dirty,
            SyncStatus::Ready { ff } => SyncStatusView::Ready { ff: *ff },
            SyncStatus::Conflicts(files) => SyncStatusView::Conflicts(files.deep_view()),
            SyncStatus::Unknown(why) => SyncStatusView::Unknown(why@),
        }
    }
}

/// The work of a branch is already in the default branch.
#[derive(Debug, Clone, Copy, PartialEq, Eq, Structural)]
pub struct Merged {
    /// The merged pull request that shows it, if one does.
    pub pr: Option<u64>,
}

/// Position of a worktree relative to `origin/<default>`.
#[derive(Debug)]
pub struct WorktreeStats {
    pub ahead: u64,
    pub behind: u64,
    /// Changes vs the merge-base, including staged, unstaged and untracked files.
    pub files: Vec<FileStat>,
    /// Tracked files with staged or unstaged changes.
    pub uncommitted: u64,
    /// Commits that no branch of origin holds.
    pub unpushed: u64,
    /// `None` until the merge has been checked.
    pub sync: Option<SyncStatus>,
    pub merged: Option<Merged>,
}

/// [`WorktreeStats`] as mathematical values.
#[verifier::ext_equal]
pub struct WorktreeStatsView {
    pub ahead: u64,
    pub behind: u64,
    pub files: Seq<FileStatView>,
    pub uncommitted: u64,
    pub unpushed: u64,
    pub sync: Option<SyncStatusView>,
    pub merged: Option<Merged>,
}

impl DeepView for WorktreeStats {
    type V = WorktreeStatsView;

    open spec fn deep_view(&self) -> WorktreeStatsView {
        WorktreeStatsView {
            ahead: self.ahead,
            behind: self.behind,
            files: self.files.deep_view(),
            uncommitted: self.uncommitted,
            unpushed: self.unpushed,
            sync: self.sync.deep_view(),
            merged: self.merged,
        }
    }
}

/// Where a pull request stands.
#[derive(Debug, Clone, Copy, PartialEq, Eq, Structural)]
pub enum PrState {
    Open,
    Draft,
    Closed,
    Merged,
}

/// The pull request of a worktree's branch.
#[derive(Debug, Clone, Copy, PartialEq, Eq, Structural)]
pub enum PrLink {
    /// The pull requests of the repository are not known.
    Unknown,
    /// The branch has none.
    Absent,
    Pr { number: u64, state: PrState },
}

#[derive(Debug)]
pub struct WorktreeInfo {
    pub worktree: Worktree,
    pub stats: Result<WorktreeStats, String>,
    pub pr: PrLink,
}

/// A [`WorktreeInfo`] as mathematical values.
#[verifier::ext_equal]
pub struct WorktreeInfoView {
    pub worktree: WorktreeView,
    pub stats: Result<WorktreeStatsView, Seq<char>>,
    pub pr: PrLink,
}

impl DeepView for WorktreeInfo {
    type V = WorktreeInfoView;

    open spec fn deep_view(&self) -> WorktreeInfoView {
        WorktreeInfoView {
            worktree: self.worktree.deep_view(),
            stats: result_view(self.stats),
            pr: self.pr,
        }
    }
}

// ---------------------------------------------------------------------------------------------
// Asking git
// ---------------------------------------------------------------------------------------------

/// The stdout of `git args...` run in `dir`, or a readable reason.
pub open spec fn git_output(
    dir: Seq<char>,
    args: Seq<Seq<char>>,
    attempt: AttemptView,
) -> Result<Seq<u8>, Seq<char>> {
    match stdout_of("git"@, dir, args, attempt) {
        Ok(stdout) => Ok(stdout),
        Err(CmdErrorView::Missing) => Err("git is not installed"@),
        Err(CmdErrorView::Failed(reason)) => Err(reason),
    }
}

/// The stdout of `git args...` as text.
pub open spec fn git_text_output(
    dir: Seq<char>,
    args: Seq<Seq<char>>,
    attempt: AttemptView,
) -> Result<Seq<char>, Seq<char>> {
    match git_output(dir, args, attempt) {
        Ok(stdout) => Ok(utf8_lossy(stdout)),
        Err(reason) => Err(reason),
    }
}

/// The stdout of `git args...` run in `dir`, or a readable reason.
pub fn git(dir: &str, args: &Vec<String>, attempt: Attempt) -> (result: Result<Vec<u8>, String>)
    ensures
        result_view(result) == git_output(dir@, args.deep_view(), attempt.deep_view()),
{
    match run("git", dir, args, attempt) {
        Ok(stdout) => Ok(stdout),
        Err(CmdError::Missing) => Err("git is not installed".to_owned()),
        Err(CmdError::Failed(reason)) => Err(reason),
    }
}

/// The stdout of `git args...` as text.
pub fn git_text(dir: &str, args: &Vec<String>, attempt: Attempt) -> (result: Result<String, String>)
    ensures
        result_view(result) == git_text_output(dir@, args.deep_view(), attempt.deep_view()),
{
    match git(dir, args, attempt) {
        Ok(stdout) => {
            proof {
                assert(stdout.deep_view() =~= stdout@);
            }
            Ok(lossy(&stdout))
        },
        Err(reason) => Err(reason),
    }
}

pub open spec fn toplevel_args() -> Seq<Seq<char>> {
    seq!["rev-parse"@, "--show-toplevel"@]
}

/// Asks for the root of the working tree.
pub fn toplevel_query() -> (args: Vec<String>)
    ensures
        args.deep_view() == toplevel_args(),
{
    vec!["rev-parse".to_owned(), "--show-toplevel".to_owned()]
}

/// The root of the working tree that holds `dir`, as git names it.
pub open spec fn toplevel(dir: Seq<char>, attempt: AttemptView) -> Result<Seq<char>, Seq<char>> {
    match git_text_output(dir, toplevel_args(), attempt) {
        Ok(out) => Ok(trim(out)),
        Err(reason) => Err(reason),
    }
}

/// The root of the working tree containing `dir`; fails when `dir` is not in a git repo.
pub fn repo_toplevel(dir: &str, attempt: Attempt) -> (root: Result<String, String>)
    ensures
        result_view(root) == toplevel(dir@, attempt.deep_view()),
{
    match git_text(dir, &toplevel_query(), attempt) {
        Ok(out) => {
            let chars = chars_of(&out);
            Ok(string_of(trimmed(&chars)))
        },
        Err(reason) => Err(reason),
    }
}

pub open spec fn remote_args() -> Seq<Seq<char>> {
    seq!["config"@, "--get"@, "remote.origin.url"@]
}

/// Asks for the URL of origin as it is configured. `git remote get-url` would apply `insteadOf`
/// rewrites, which hide which GitHub repository the remote stands for.
pub fn remote_query() -> (args: Vec<String>)
    ensures
        args.deep_view() == remote_args(),
{
    vec!["config".to_owned(), "--get".to_owned(), "remote.origin.url".to_owned()]
}

/// `owner/repo` when `origin` points at GitHub.
pub open spec fn github_of(dir: Seq<char>, attempt: AttemptView) -> Option<Seq<char>> {
    match git_text_output(dir, remote_args(), attempt) {
        Ok(url) => github_remote(url),
        Err(_) => None,
    }
}

/// `owner/repo` when `origin` points at GitHub.
pub fn github_repo(dir: &str, attempt: Attempt) -> (repo: Option<String>)
    ensures
        repo.deep_view() == github_of(dir@, attempt.deep_view()),
{
    match git_text(dir, &remote_query(), attempt) {
        Ok(url) => parse_github_remote(&url),
        Err(_) => None,
    }
}

pub open spec fn head_args() -> Seq<Seq<char>> {
    seq!["symbolic-ref"@, "refs/remotes/origin/HEAD"@]
}

/// Asks for the default branch of origin.
pub fn head_query() -> (args: Vec<String>)
    ensures
        args.deep_view() == head_args(),
{
    vec!["symbolic-ref".to_owned(), "refs/remotes/origin/HEAD".to_owned()]
}

/// The remote's default branch; `main` when git does not know it.
pub open spec fn default_branch_of(dir: Seq<char>, attempt: AttemptView) -> Seq<char> {
    match git_text_output(dir, head_args(), attempt) {
        Ok(out) => match default_branch_in(out) {
            Some(branch) => branch,
            None => "main"@,
        },
        Err(_) => "main"@,
    }
}

/// The remote's default branch from `refs/remotes/origin/HEAD`, falling back to `main`.
pub fn default_branch(dir: &str, attempt: Attempt) -> (branch: String)
    ensures
        branch@ == default_branch_of(dir@, attempt.deep_view()),
{
    match git_text(dir, &head_query(), attempt) {
        Ok(out) => match parse_default_branch(&out) {
            Some(branch) => branch,
            None => "main".to_owned(),
        },
        Err(_) => "main".to_owned(),
    }
}

pub open spec fn fetch_args() -> Seq<Seq<char>> {
    seq!["fetch"@, "origin"@, "--prune"@]
}

/// Asks git to update what it knows of origin.
pub fn fetch_query() -> (args: Vec<String>)
    ensures
        args.deep_view() == fetch_args(),
{
    vec!["fetch".to_owned(), "origin".to_owned(), "--prune".to_owned()]
}

/// Whether the fetch went well; its output says nothing more.
pub open spec fn fetched(dir: Seq<char>, attempt: AttemptView) -> Result<(), Seq<char>> {
    match git_output(dir, fetch_args(), attempt) {
        Ok(_) => Ok(()),
        Err(reason) => Err(reason),
    }
}

/// Whether the fetch went well.
pub fn fetch(dir: &str, attempt: Attempt) -> (result: Result<(), String>)
    ensures
        result_view(result) == fetched(dir@, attempt.deep_view()),
{
    match git(dir, &fetch_query(), attempt) {
        Ok(_) => Ok(()),
        Err(reason) => Err(reason),
    }
}

pub open spec fn listing_args() -> Seq<Seq<char>> {
    seq!["worktree"@, "list"@, "--porcelain"@]
}

/// Asks for the repository's worktrees.
pub fn listing_query() -> (args: Vec<String>)
    ensures
        args.deep_view() == listing_args(),
{
    vec!["worktree".to_owned(), "list".to_owned(), "--porcelain".to_owned()]
}

/// The worktrees with files in them: bare entries are left out.
pub open spec fn checked_out(worktrees: Seq<WorktreeView>) -> Seq<WorktreeView>
    decreases worktrees.len(),
{
    if worktrees.len() == 0 {
        Seq::empty()
    } else {
        let before = checked_out(worktrees.drop_last());
        if worktrees.last().bare {
            before
        } else {
            before.push(worktrees.last())
        }
    }
}

/// The worktrees of the repository at `repo`, without bare entries.
pub open spec fn worktrees_of(repo: Seq<char>, attempt: AttemptView) -> Result<
    Seq<WorktreeView>,
    Seq<char>,
> {
    match git_text_output(repo, listing_args(), attempt) {
        Ok(listing) => Ok(checked_out(worktrees_in(lines(listing)))),
        Err(reason) => Err(reason),
    }
}

fn without_bare(worktrees: Vec<Worktree>) -> (kept: Vec<Worktree>)
    ensures
        kept.deep_view() == checked_out(worktrees.deep_view()),
{
    let ghost all = worktrees.deep_view();
    let mut rest = worktrees;
    let mut kept: Vec<Worktree> = Vec::new();
    let mut back: Vec<Worktree> = Vec::new();
    // Popping reverses the order, so the list is turned over once first.
    while rest.len() > 0
        invariant
            all == rest.deep_view() + back.deep_view().reverse(),
        decreases rest@.len(),
    {
        let ghost was = rest.deep_view() + back.deep_view().reverse();
        if let Some(wt) = rest.pop() {
            back.push(wt);
        }
        proof {
            assert(rest.deep_view() + back.deep_view().reverse() =~= was);
        }
    }
    proof {
        assert(all =~= back.deep_view().reverse());
        assert(all.take(0) =~= Seq::empty());
        assert(kept.deep_view() =~= checked_out(all.take(0)));
    }
    while back.len() > 0
        invariant
            back@.len() <= all.len(),
            all.skip(all.len() - back@.len()) == back.deep_view().reverse(),
            kept.deep_view() == checked_out(all.take(all.len() - back@.len())),
        decreases back@.len(),
    {
        let ghost n = all.len() - back@.len();
        let ghost left = back.deep_view();
        let ghost before = kept.deep_view();
        if let Some(wt) = back.pop() {
            proof {
                assert(left.reverse()[0] == wt.deep_view());
                assert(all[n] == all.skip(n)[0]);
                assert(all.take(n + 1).drop_last() =~= all.take(n));
                assert(all.skip(n + 1) =~= all.skip(n).drop_first());
                assert(back.deep_view().reverse() =~= left.reverse().drop_first());
            }
            if !wt.bare {
                kept.push(wt);
                proof {
                    assert(kept.deep_view() =~= before.push(all[n]));
                }
            }
        }
    }
    proof {
        assert(all.take(all.len() as int) =~= all);
    }
    kept
}

/// The worktrees of the repository at `repo`, without bare entries.
pub fn list_worktrees(repo: &str, attempt: Attempt) -> (worktrees: Result<Vec<Worktree>, String>)
    ensures
        result_view(worktrees) == worktrees_of(repo@, attempt.deep_view()),
{
    match git_text(repo, &listing_query(), attempt) {
        Ok(listing) => Ok(without_bare(parse_worktree_porcelain(&listing))),
        Err(reason) => Err(reason),
    }
}

// ---------------------------------------------------------------------------------------------
// git worktree list --porcelain
// ---------------------------------------------------------------------------------------------

/// The key of a `key value` line: the text before its first space.
pub open spec fn line_key(line: Seq<char>) -> Seq<char> {
    match split_once(line, ' ') {
        Some((key, _)) => key,
        None => line,
    }
}

/// The value of a `key value` line: the text after its first space.
pub open spec fn line_value(line: Seq<char>) -> Seq<char> {
    match split_once(line, ' ') {
        Some((_, value)) => value,
        None => Seq::empty(),
    }
}

/// The line opens a new record.
pub open spec fn opens_record(line: Seq<char>) -> bool {
    line_key(line) == "worktree"@
}

/// A record of which only the first line has been read.
pub open spec fn fresh_worktree(path: Seq<char>, main: bool) -> WorktreeView {
    WorktreeView {
        path,
        head: None,
        branch: None,
        bare: false,
        prunable: false,
        locked: false,
        main,
    }
}

/// `refs/heads/topic` and `topic` are both branch `topic`.
pub open spec fn short_branch(reference: Seq<char>) -> Seq<char> {
    match strip_prefix(reference, "refs/heads/"@) {
        Some(short) => short,
        None => reference,
    }
}

/// A record after one more of its lines; lines with unknown keys say nothing.
pub open spec fn with_line(wt: WorktreeView, line: Seq<char>) -> WorktreeView {
    let key = line_key(line);
    if key == "HEAD"@ {
        WorktreeView { head: Some(line_value(line)), ..wt }
    } else if key == "branch"@ {
        WorktreeView { branch: Some(short_branch(line_value(line))), ..wt }
    } else if key == "bare"@ {
        WorktreeView { bare: true, ..wt }
    } else if key == "prunable"@ {
        WorktreeView { prunable: true, ..wt }
    } else if key == "locked"@ {
        WorktreeView { locked: true, ..wt }
    } else {
        wt
    }
}

/// The worktrees that the lines of a porcelain listing describe; lines before the first record
/// say nothing.
pub open spec fn worktrees_in(listing: Seq<Seq<char>>) -> Seq<WorktreeView>
    decreases listing.len(),
{
    if listing.len() == 0 {
        Seq::empty()
    } else {
        let line = listing.last();
        let before = worktrees_in(listing.drop_last());
        if opens_record(line) {
            before.push(fresh_worktree(line_value(line), before.len() == 0))
        } else if before.len() == 0 {
            before
        } else {
            before.drop_last().push(with_line(before.last(), line))
        }
    }
}

/// Parses `git worktree list --porcelain`: blank-line separated records of `key value` lines.
pub fn parse_worktree_porcelain(text: &str) -> (worktrees: Vec<Worktree>)
    ensures
        worktrees.deep_view() == worktrees_in(lines(text@)),
{
    let chars = chars_of(text);
    let found = lines_of(&chars);
    let ghost listing = lines(text@);
    let mut worktrees: Vec<Worktree> = Vec::new();
    let mut i: usize = 0;
    proof {
        assert(worktrees.deep_view() =~= worktrees_in(listing.take(0)));
    }
    while i < found.len()
        invariant
            i <= found@.len(),
            contents(found@) == listing,
            worktrees.deep_view() == worktrees_in(listing.take(i as int)),
        decreases found@.len() - i,
    {
        let line: &[char] = found[i];
        let ghost before = worktrees.deep_view();
        proof {
            assert(listing[i as int] == line@);
            assert(listing.take(i + 1).drop_last() =~= listing.take(i as int));
            assert(listing.take(i + 1).last() == line@);
        }
        let (key, value) = match split_at_char(line, ' ') {
            Some((key, value)) => (key, value),
            None => (line, slice_subrange(line, line.len(), line.len())),
        };
        proof {
            assert(key@ == line_key(line@));
            assert(value@ =~= line_value(line@));
        }
        if spells(key, "worktree") {
            let main = worktrees.len() == 0;
            worktrees.push(
                Worktree {
                    path: string_of(value),
                    head: None,
                    branch: None,
                    bare: false,
                    prunable: false,
                    locked: false,
                    main,
                },
            );
            proof {
                assert(worktrees.deep_view() =~= before.push(
                    fresh_worktree(line_value(line@), main),
                ));
            }
        } else if let Some(last) = worktrees.pop() {
            let mut wt = last;
            let ghost was = wt.deep_view();
            if spells(key, "HEAD") {
                wt.head = Some(string_of(value));
            } else if spells(key, "branch") {
                wt.branch = Some(
                    match without_prefix(value, "refs/heads/") {
                        Some(short) => string_of(short),
                        None => string_of(value),
                    },
                );
            } else if spells(key, "bare") {
                wt.bare = true;
            } else if spells(key, "prunable") {
                wt.prunable = true;
            } else if spells(key, "locked") {
                wt.locked = true;
            }
            worktrees.push(wt);
            proof {
                assert(was == before.last());
                assert(worktrees.deep_view() =~= before.drop_last().push(with_line(was, line@)));
            }
        }
        i = i + 1;
    }
    proof {
        assert(listing.take(i as int) =~= listing);
    }
    worktrees
}

/// The paths named by the opening lines of a porcelain listing, in order.
pub open spec fn opened_paths(listing: Seq<Seq<char>>) -> Seq<Seq<char>>
    decreases listing.len(),
{
    if listing.len() == 0 {
        Seq::empty()
    } else if opens_record(listing.last()) {
        opened_paths(listing.drop_last()).push(line_value(listing.last()))
    } else {
        opened_paths(listing.drop_last())
    }
}

/// A porcelain listing gives exactly one worktree per opening line, in the same order and with
/// the path that the line names, and only the first is the main worktree.
pub proof fn one_worktree_per_opening_line(listing: Seq<Seq<char>>)
    ensures
        worktrees_in(listing).map_values(|wt: WorktreeView| wt.path) == opened_paths(listing),
        forall|i: int|
            0 <= i < worktrees_in(listing).len() ==> (#[trigger] worktrees_in(listing)[i]).main == (
            i == 0),
    decreases listing.len(),
{
    if listing.len() > 0 {
        one_worktree_per_opening_line(listing.drop_last());
        let path = |wt: WorktreeView| wt.path;
        let before = worktrees_in(listing.drop_last());
        let after = worktrees_in(listing);
        assert(before.map_values(path) == opened_paths(listing.drop_last()));
        assert(before.map_values(path).len() == before.len());
        assert(forall|i: int| 0 <= i < before.len() ==> before.map_values(path)[i] == (
        #[trigger] before[i]).path);
        assert(after.map_values(path) =~= opened_paths(listing));
    }
}

// ---------------------------------------------------------------------------------------------
// git diff --numstat -z
// ---------------------------------------------------------------------------------------------

/// `fields` from position `n` on; nothing when there are fewer.
pub open spec fn fields_from(fields: Seq<Seq<char>>, n: int) -> Seq<Seq<char>> {
    if n <= fields.len() {
        fields.skip(n)
    } else {
        Seq::empty()
    }
}

/// The field at position `n`; empty when there are fewer.
pub open spec fn field_at(fields: Seq<Seq<char>>, n: int) -> Seq<char> {
    if n < fields.len() {
        fields[n]
    } else {
        Seq::empty()
    }
}

/// The three tab-separated parts of a numstat record; further tabs belong to the last part.
pub open spec fn record_parts(record: Seq<char>) -> Option<(Seq<char>, Seq<char>, Seq<char>)> {
    match split_once(record, '\t') {
        Some((added, rest)) => match split_once(rest, '\t') {
            Some((deleted, path)) => Some((added, deleted, path)),
            None => None,
        },
        None => None,
    }
}

/// The changes of the tracked file `path`.
pub open spec fn tracked_stat(
    path: Seq<char>,
    added: Seq<char>,
    deleted: Seq<char>,
) -> FileStatView {
    FileStatView {
        path,
        added: parse_u64(added),
        deleted: parse_u64(deleted),
        untracked: false,
    }
}

/// The files that NUL-separated numstat fields describe. A record whose path is empty is a rename;
/// the two fields after it are the old and the new path.
pub open spec fn stats_in(fields: Seq<Seq<char>>) -> Seq<FileStatView>
    decreases fields.len(),
{
    if fields.len() == 0 {
        Seq::empty()
    } else {
        match record_parts(fields[0]) {
            None => stats_in(fields_from(fields, 1)),
            Some((added, deleted, path)) => if path.len() == 0 {
                seq![
                    tracked_stat(
                        field_at(fields, 1) + " → "@ + field_at(fields, 2),
                        added,
                        deleted,
                    ),
                ] + stats_in(fields_from(fields, 3))
            } else {
                seq![tracked_stat(path, added, deleted)] + stats_in(fields_from(fields, 1))
            },
        }
    }
}

/// The NUL-separated fields of `raw` as text.
pub open spec fn fields_of(raw: Seq<u8>) -> Seq<Seq<char>> {
    split(raw, 0u8).map_values(|piece: Seq<u8>| utf8_lossy(piece))
}

/// The NUL-separated fields of `raw` as text.
fn field_texts(raw: &[u8]) -> (texts: Vec<String>)
    ensures
        texts.deep_view() == fields_of(raw@),
        decoded(raw@),
{
    let pieces = split_bytes(raw, 0);
    let ghost all = split(raw@, 0u8);
    let ghost fields = fields_of(raw@);
    let mut texts: Vec<String> = Vec::new();
    let mut i: usize = 0;
    proof {
        assert(texts.deep_view() =~= fields.take(0));
    }
    while i < pieces.len()
        invariant
            i <= pieces@.len(),
            contents(pieces@) == all,
            all == split(raw@, 0u8),
            fields == fields_of(raw@),
            texts.deep_view() == fields.take(i as int),
            forall|j: int|
                0 <= j < i && valid_utf8(#[trigger] all[j]) ==> utf8_lossy(all[j]) == decode_utf8(
                    all[j],
                ),
        decreases pieces@.len() - i,
    {
        let ghost before = texts.deep_view();
        proof {
            assert(all[i as int] == pieces@[i as int]@);
        }
        texts.push(lossy(pieces[i]));
        i = i + 1;
        proof {
            assert(texts.deep_view() =~= before.push(fields[i - 1]));
            assert(texts.deep_view() =~= fields.take(i as int));
        }
    }
    proof {
        assert(fields.take(i as int) =~= fields);
    }
    texts
}

/// The field at position `n`; empty when there are fewer.
fn field_text(fields: &Vec<String>, n: usize) -> (text: String)
    ensures
        text@ == field_at(fields.deep_view(), n as int),
{
    if n < fields.len() {
        fields[n].clone()
    } else {
        String::new()
    }
}

/// Parses `git diff --numstat -z`. Binary files report `-` counts, which become `None`.
/// Renames arrive as `added\tdeleted\t\0old\0new\0` and are shown as `old → new`. What is written
/// for any list of changed files, renames included, reads back as that list.
pub fn parse_numstat_z(raw: &[u8]) -> (files: Vec<FileStat>)
    ensures
        files.deep_view() == stats_in(fields_of(raw@)),
        forall|list: Seq<FileStatView>|
            writable(list) && raw@ == #[trigger] written(list) ==> files.deep_view() == list,
        forall|changes: Seq<Change>|
            changes_writable(changes) && raw@ == #[trigger] terminated(all_fields(changes))
                ==> files.deep_view() == changes_shown(changes),
{
    let texts = field_texts(raw);
    let ghost fields = fields_of(raw@);
    let mut files: Vec<FileStat> = Vec::new();
    let mut i: usize = 0;
    proof {
        assert(fields.skip(0) =~= fields);
        assert(files.deep_view() + stats_in(fields.skip(0)) =~= stats_in(fields));
    }
    while i < texts.len()
        invariant
            i <= texts@.len(),
            texts.deep_view() == fields,
            fields.len() == texts@.len(),
            files.deep_view() + stats_in(fields.skip(i as int)) == stats_in(fields),
        decreases texts@.len() - i,
    {
        let record = chars_of(&texts[i]);
        let ghost left = fields.skip(i as int);
        let ghost before = files.deep_view();
        proof {
            assert(record@ == left[0]);
            assert(fields_from(left, 1) =~= fields.skip(i + 1));
        }
        let parts = match split_at_char(&record, '\t') {
            Some((added, rest)) => match split_at_char(rest, '\t') {
                Some((deleted, path)) => Some((added, deleted, path)),
                None => None,
            },
            None => None,
        };
        match parts {
            Some((added, deleted, path)) => {
                proof {
                    assert(record_parts(left[0]) == Some((added@, deleted@, path@)));
                }
                let count = texts.len();
                let renamed = path.len() == 0;
                let (shown, next) = if renamed {
                    let from = if count - i > 1 {
                        field_text(&texts, i + 1)
                    } else {
                        String::new()
                    };
                    let to = if count - i > 2 {
                        field_text(&texts, i + 2)
                    } else {
                        String::new()
                    };
                    proof {
                        assert(from@ == field_at(left, 1));
                        assert(to@ == field_at(left, 2));
                        if i + 3 <= count {
                            assert(fields_from(left, 3) =~= fields.skip(i + 3));
                        } else {
                            assert(fields_from(left, 3) =~= fields.skip(count as int));
                        }
                    }
                    let next: usize = if count - i > 3 {
                        i + 3
                    } else {
                        count
                    };
                    (from.concat(" → ").concat(&to), next)
                } else {
                    (string_of(path), i + 1)
                };
                files.push(
                    FileStat {
                        path: shown,
                        added: number_of(added),
                        deleted: number_of(deleted),
                        untracked: false,
                    },
                );
                proof {
                    let stat = tracked_stat(shown@, added@, deleted@);
                    assert(files.deep_view() =~= before.push(stat));
                    assert(stats_in(left) == seq![stat] + stats_in(fields.skip(next as int)));
                    assert(files.deep_view() + stats_in(fields.skip(next as int)) =~= before
                        + stats_in(left));
                }
                i = next;
            },
            None => {
                i = i + 1;
            },
        }
    }
    proof {
        assert(fields.skip(i as int) =~= Seq::empty());
        assert(files.deep_view() + stats_in(fields.skip(i as int)) =~= files.deep_view());
        assert forall|list: Seq<FileStatView>|
            writable(list) && raw@ == #[trigger] written(list) implies files.deep_view() == list by {
            what_is_written_reads_back(list);
        }
        assert forall|changes: Seq<Change>|
            changes_writable(changes) && raw@ == #[trigger] terminated(
                all_fields(changes),
            ) implies files.deep_view() == changes_shown(changes) by {
            written_changes_read_back(changes);
        }
    }
    files
}

// ---------------------------------------------------------------------------------------------
// Small outputs
// ---------------------------------------------------------------------------------------------

/// The two counts in the output of `git rev-list --left-right --count A...B`: exactly two
/// numbers, separated by white space.
pub open spec fn left_right_count(text: Seq<char>) -> Option<(u64, u64)> {
    let found = words(text);
    if found.len() == 2 {
        match (parse_u64(found[0]), parse_u64(found[1])) {
            (Some(left), Some(right)) => Some((left, right)),
            _ => None,
        }
    } else {
        None
    }
}

/// Parses `git rev-list --left-right --count A...B` output: `<left>\t<right>`.
pub fn parse_left_right_count(text: &str) -> (counts: Option<(u64, u64)>)
    ensures
        counts == left_right_count(text@),
{
    let chars = chars_of(text);
    let found = words_of(&chars);
    proof {
        assert(contents(found@).len() == found@.len());
    }
    if found.len() != 2 {
        return None;
    }
    proof {
        assert(contents(found@)[0] == found@[0]@ && contents(found@)[1] == found@[1]@);
    }
    match (number_of(found[0]), number_of(found[1])) {
        (Some(left), Some(right)) => Some((left, right)),
        _ => None,
    }
}

/// `refs/remotes/origin/main` → `main`.
pub open spec fn default_branch_in(symbolic_ref: Seq<char>) -> Option<Seq<char>> {
    match strip_prefix(trim(symbolic_ref), "refs/remotes/origin/"@) {
        Some(branch) => if branch.len() == 0 {
            None
        } else {
            Some(branch)
        },
        None => None,
    }
}

/// `refs/remotes/origin/main` → `main`.
pub fn parse_default_branch(symbolic_ref: &str) -> (branch: Option<String>)
    ensures
        branch.deep_view() == default_branch_in(symbolic_ref@),
{
    let chars = chars_of(symbolic_ref);
    match without_prefix(trimmed(&chars), "refs/remotes/origin/") {
        Some(branch) => if branch.len() == 0 {
            None
        } else {
            Some(string_of(branch))
        },
        None => None,
    }
}

// ---------------------------------------------------------------------------------------------
// GitHub remotes
// ---------------------------------------------------------------------------------------------

/// The text after the last `sep`; all of it when there is none.
pub open spec fn after_last(s: Seq<char>, sep: char) -> Seq<char>
    decreases s.len(),
{
    let at = position(s, sep);
    if 0 <= at < s.len() {
        after_last(s.skip(at + 1), sep)
    } else {
        s
    }
}

/// The text before the first `sep`; all of it when there is none.
pub open spec fn before_first(s: Seq<char>, sep: char) -> Seq<char> {
    s.take(position(s, sep))
}

/// The text on either side of the first `word`.
pub open spec fn split_at_word(s: Seq<char>, word: Seq<char>) -> Option<(Seq<char>, Seq<char>)> {
    let at = find(s, word);
    if 0 <= at && at + word.len() <= s.len() {
        Some((s.take(at), s.skip(at + word.len())))
    } else {
        None
    }
}

/// Host and path of a remote URL: `scheme://[user@]host[:port]/path` or `[user@]host:path`.
pub open spec fn host_and_path(url: Seq<char>) -> Option<(Seq<char>, Seq<char>)> {
    match split_at_word(url, "://"@) {
        Some((_, rest)) => match split_once(rest, '/') {
            Some((authority, path)) => Some(
                (before_first(after_last(authority, '@'), ':'), path),
            ),
            None => None,
        },
        None => match split_once(url, ':') {
            Some((user_host, path)) => Some((after_last(user_host, '@'), path)),
            None => None,
        },
    }
}

/// The path of a remote without slashes around it and without the `.git` at its end.
pub open spec fn bare_path(path: Seq<char>) -> Seq<char> {
    match strip_suffix(trim_slashes(path), ".git"@) {
        Some(rest) => rest,
        None => trim_slashes(path),
    }
}

/// `owner/repo` of a path with exactly these two parts, neither of them empty.
pub open spec fn owner_and_repo(path: Seq<char>) -> Option<Seq<char>> {
    match split_once(path, '/') {
        Some((owner, repo)) => if owner.len() > 0 && repo.len() > 0 && !repo.contains('/') {
            Some(owner + "/"@ + repo)
        } else {
            None
        },
        None => None,
    }
}

/// `owner/repo` when the URL points at GitHub.
pub open spec fn github_remote(url: Seq<char>) -> Option<Seq<char>> {
    match host_and_path(trim(url)) {
        Some((host, path)) => if lowercase(host) == "github.com"@ {
            owner_and_repo(bare_path(path))
        } else {
            None
        },
        None => None,
    }
}

fn last_part<'a>(s: &'a [char], sep: char) -> (part: &'a [char])
    ensures
        part@ == after_last(s@, sep),
{
    let mut start: usize = 0;
    proof {
        assert(s@.skip(0) =~= s@);
    }
    loop
        invariant
            start <= s@.len(),
            after_last(s@.skip(start as int), sep) == after_last(s@, sep),
        decreases s@.len() - start,
    {
        let at = find_char(s, start, sep);
        proof {
            lemma_position(s@.skip(start as int), sep);
        }
        if at == s.len() {
            let part = slice_subrange(s, start, s.len());
            proof {
                assert(part@ =~= s@.skip(start as int));
            }
            return part;
        }
        proof {
            let at0 = at - start;
            assert(s@.skip(start as int).skip(at0 + 1) =~= s@.skip(at + 1));
        }
        start = at + 1;
    }
}

fn first_part<'a>(s: &'a [char], sep: char) -> (part: &'a [char])
    ensures
        part@ == before_first(s@, sep),
{
    proof {
        assert(s@.skip(0) =~= s@);
        lemma_position(s@, sep);
    }
    let at = find_char(s, 0, sep);
    slice_subrange(s, 0, at)
}

/// Extracts `owner/repo` from GitHub remote URLs in https, ssh:// and scp-like forms.
pub fn parse_github_remote(url: &str) -> (repo: Option<String>)
    ensures
        repo.deep_view() == github_remote(url@),
{
    let chars = chars_of(url);
    let inner = trimmed(&chars);
    let scheme_end = chars_of("://");
    let found = match find_word(inner, &scheme_end) {
        Some(at) => {
            let end = inner.len();
            let rest = slice_subrange(inner, at + scheme_end.len(), end);
            proof {
                assert(rest@ =~= inner@.skip(at + scheme_end@.len()));
            }
            match split_at_char(rest, '/') {
                Some((authority, path)) => Some(
                    (first_part(last_part(authority, '@'), ':'), path),
                ),
                None => None,
            }
        },
        None => match split_at_char(inner, ':') {
            Some((user_host, path)) => Some((last_part(user_host, '@'), path)),
            None => None,
        },
    };
    let (host, path) = match found {
        Some(parts) => parts,
        None => {
            return None;
        },
    };
    if !spells(&lowercased(host), "github.com") {
        return None;
    }
    let path = without_slashes(path);
    let path = match without_suffix(path, ".git") {
        Some(rest) => rest,
        None => path,
    };
    match split_at_char(path, '/') {
        Some((owner, repo)) => {
            proof {
                assert(repo@.skip(0) =~= repo@);
                lemma_position(repo@, '/');
            }
            if owner.len() == 0 || repo.len() == 0 || find_char(repo, 0, '/') < repo.len() {
                None
            } else {
                Some(string_of(owner).concat("/").concat(&string_of(repo)))
            }
        },
        None => None,
    }
}

} // verus!
