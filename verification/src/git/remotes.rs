//! What the parts of a remote URL are, and which URLs name a repository on GitHub; what the small
//! answers of git mean.
use vstd::prelude::*;

use super::{
    after_last, bare_path, before_first, checked_out, default_branch_in, default_branch_of,
    fetch_args, fetched, github_of, github_remote, head_args, host_and_path, listing_args,
    owner_and_repo, remote_args, toplevel, toplevel_args, worktrees_in, worktrees_of,
};
use crate::cmd::laws::a_command_gives_its_output_or_a_reason;
use crate::cmd::{AttemptView, OutputView};
use crate::text::laws::{
    blank, free_of, prefixes_and_suffixes_are_taken_off, splitting_once_is_at_the_first_separator,
    trimming_drops_slashes_around, trimming_drops_white_space_around,
};
use crate::text::{
    contains, find, is_white, lemma_position, lemma_position_is, lines, lowercase, occurs_at,
    position, split_once, the_first_occurrence_is_found, trim, utf8_lossy,
};

verus! {

/// What stands after the last separator and before the first one.
pub proof fn around_separators(a: Seq<char>, b: Seq<char>, c: Seq<char>, sep: char)
    requires
        free_of(a, sep),
        free_of(c, sep),
    ensures
        after_last(c, sep) == c,
        after_last(b.push(sep) + c, sep) == c,
        before_first(a, sep) == a,
        before_first(a.push(sep) + b, sep) == a,
    decreases b.len(),
{
    lemma_position_is(c, sep, c.len() as int);
    lemma_position_is(a, sep, a.len() as int);
    assert(a.take(a.len() as int) =~= a);
    let whole = a.push(sep) + b;
    assert(whole[a.len() as int] == sep);
    assert forall|j: int| 0 <= j < a.len() implies whole[j] != sep by {
        assert(whole[j] == a[j]);
    }
    lemma_position_is(whole, sep, a.len() as int);
    assert(whole.take(a.len() as int) =~= a);
    // The last separator.
    let all = b.push(sep) + c;
    let p = position(b, sep);
    lemma_position(b, sep);
    if p == b.len() {
        assert(all[p] == sep);
        assert forall|j: int| 0 <= j < p implies all[j] != sep by {
            assert(all[j] == b[j]);
        }
        lemma_position_is(all, sep, p);
        assert(all.skip(p + 1) =~= c);
    } else {
        assert(all[p] == b[p]);
        assert forall|j: int| 0 <= j < p implies all[j] != sep by {
            assert(all[j] == b[j]);
        }
        lemma_position_is(all, sep, p);
        let rest = b.skip(p + 1);
        assert(all.skip(p + 1) =~= rest.push(sep) + c);
        around_separators(a, rest, c, sep);
    }
}

/// Who logs in, with the at sign behind; or nobody.
pub open spec fn is_user(user: Seq<char>) -> bool {
    user.len() == 0 || user.last() == '@'
}

/// A port with the colon before it, or none.
pub open spec fn is_port_part(port: Seq<char>) -> bool {
    port.len() == 0 || port[0] == ':'
}

/// A URL with a scheme has its host between the user and the port, and its path behind the first
/// slash after them.
pub proof fn hosts_of_urls_with_a_scheme(
    scheme: Seq<char>,
    user: Seq<char>,
    host: Seq<char>,
    port: Seq<char>,
    path: Seq<char>,
)
    requires
        free_of(scheme, ':'),
        is_user(user),
        free_of(user, '/'),
        free_of(host, '/'),
        free_of(host, '@'),
        free_of(host, ':'),
        is_port_part(port),
        free_of(port, '/'),
        free_of(port, '@'),
    ensures
        host_and_path(scheme + "://"@ + user + host + port + "/"@ + path) == Some((host, path)),
{
    reveal_strlit("://");
    reveal_strlit("/");
    let authority = user + host + port;
    let rest = authority + "/"@ + path;
    let url = scheme + "://"@ + user + host + port + "/"@ + path;
    assert(url =~= scheme + "://"@ + rest);
    let n = scheme.len() as int;
    assert(occurs_at(url, "://"@, n)) by {
        assert(url.subrange(n, n + 3) =~= "://"@);
    }
    the_first_occurrence_is_found(url, "://"@);
    let at = find(url, "://"@);
    assert(at == n) by {
        if at < n {
            assert(url.subrange(at, at + 3)[0] == ':');
            assert(url[at] == scheme[at]);
        }
    }
    assert(url.skip(n + 3) =~= rest);
    assert forall|j: int| 0 <= j < authority.len() implies authority[j] != '/' by {
        if j < user.len() {
            assert(authority[j] == user[j]);
        } else if j < user.len() + host.len() {
            assert(authority[j] == host[j - user.len()]);
        } else {
            assert(authority[j] == port[j - user.len() - host.len()]);
        }
    }
    splitting_once_is_at_the_first_separator(authority, path, '/');
    assert(rest =~= authority.push('/') + path);
    let behind = host + port;
    assert forall|j: int| 0 <= j < behind.len() implies behind[j] != '@' by {
        if j < host.len() {
            assert(behind[j] == host[j]);
        } else {
            assert(behind[j] == port[j - host.len()]);
        }
    }
    if user.len() == 0 {
        assert(authority =~= behind);
        around_separators(host, Seq::empty(), behind, '@');
    } else {
        let name = user.drop_last();
        assert(authority =~= name.push('@') + behind);
        around_separators(host, name, behind, '@');
    }
    assert(after_last(authority, '@') == behind);
    if port.len() == 0 {
        assert(behind =~= host);
        around_separators(host, Seq::empty(), host, ':');
    } else {
        let number = port.drop_first();
        assert(behind =~= host.push(':') + number);
        around_separators(host, number, host, ':');
    }
}

/// A URL without a scheme has its host between the user and the first colon, and its path behind it.
pub proof fn hosts_of_urls_without_a_scheme(user: Seq<char>, host: Seq<char>, path: Seq<char>)
    requires
        is_user(user),
        free_of(user, ':'),
        free_of(host, ':'),
        free_of(host, '@'),
        !contains(user + host + ":"@ + path, "://"@),
    ensures
        host_and_path(user + host + ":"@ + path) == Some((host, path)),
{
    reveal_strlit(":");
    let start = user + host;
    let url = user + host + ":"@ + path;
    assert forall|j: int| 0 <= j < start.len() implies start[j] != ':' by {
        if j < user.len() {
            assert(start[j] == user[j]);
        } else {
            assert(start[j] == host[j - user.len()]);
        }
    }
    assert(url =~= start.push(':') + path);
    splitting_once_is_at_the_first_separator(start, path, ':');
    if user.len() == 0 {
        assert(start =~= host);
        around_separators(host, Seq::empty(), host, '@');
    } else {
        let name = user.drop_last();
        assert(start =~= name.push('@') + host);
        around_separators(host, name, host, '@');
    }
}

/// Only a URL whose host is github.com, in any letter case, names a repository on GitHub; what it
/// names then depends on the path alone.
pub proof fn only_github_hosts_count(
    url: Seq<char>,
    other: Seq<char>,
    host: Seq<char>,
    second: Seq<char>,
    path: Seq<char>,
)
    requires
        host_and_path(trim(url)) == Some((host, path)),
        host_and_path(trim(other)) == Some((second, path)),
    ensures
        lowercase(host) != "github.com"@ ==> github_remote(url) is None,
        lowercase(host) == "github.com"@ && lowercase(second) == "github.com"@ ==> github_remote(
            url,
        ) == github_remote(other),
        forall|u: Seq<char>|
            host_and_path(trim(u)) is None ==> #[trigger] github_remote(u) is None,
{
}

/// A path names a repository exactly when it is an owner and a name with one slash between them,
/// neither of them empty; slashes around it and `.git` at its end do not count.
pub proof fn repositories_have_an_owner_and_a_name(
    before: Seq<char>,
    path: Seq<char>,
    after: Seq<char>,
    owner: Seq<char>,
    repo: Seq<char>,
)
    requires
        forall|i: int| 0 <= i < before.len() ==> before[i] == '/',
        forall|i: int| 0 <= i < after.len() ==> after[i] == '/',
        path.len() > 0 ==> path[0] != '/' && path.last() != '/',
    ensures
        !(".git"@).is_suffix_of(path) ==> bare_path(before + path + after) == path,
        (".git"@).is_suffix_of(path) ==> bare_path(before + path + after) + ".git"@ == path,
        owner.len() > 0 && repo.len() > 0 && free_of(owner, '/') && free_of(repo, '/')
            ==> owner_and_repo(owner + "/"@ + repo) == Some(owner + "/"@ + repo),
        owner_and_repo(path) matches Some(found) ==> found == path,
        free_of(path, '/') ==> owner_and_repo(path) is None,
        repo.contains('/') && free_of(owner, '/') ==> owner_and_repo(owner + "/"@ + repo) is None,
        free_of(owner, '/') && (owner.len() == 0 || repo.len() == 0) ==> owner_and_repo(
            owner + "/"@ + repo,
        ) is None,
{
    reveal_strlit("/");
    trimming_drops_slashes_around(before, path, after);
    prefixes_and_suffixes_are_taken_off(path, Seq::empty(), ".git"@);
    if free_of(owner, '/') {
        splitting_once_is_at_the_first_separator(owner, repo, '/');
        assert(owner + "/"@ + repo =~= owner.push('/') + repo);
        if free_of(repo, '/') {
            assert(!repo.contains('/'));
        }
    }
    if free_of(path, '/') {
        splitting_once_is_at_the_first_separator(path, repo, '/');
    }
    if let Some((left, right)) = split_once(path, '/') {
        lemma_position(path, '/');
        assert(left + "/"@ + right =~= path);
    }
}

/// `refs/remotes/origin/` and a branch, with white space around them or not, is that branch, whole;
/// anything else is none.
pub proof fn the_default_branch_is_read_whole(
    before: Seq<char>,
    branch: Seq<char>,
    after: Seq<char>,
    other: Seq<char>,
)
    requires
        blank(before),
        blank(after),
        branch.len() > 0,
        !is_white(branch.last()),
    ensures
        default_branch_in(before + ("refs/remotes/origin/"@ + branch) + after) == Some(branch),
        default_branch_in("refs/remotes/origin/"@) is None,
        !("refs/remotes/origin/"@).is_prefix_of(trim(other)) ==> default_branch_in(other) is None,
{
    reveal_strlit("refs/remotes/origin/");
    let start = "refs/remotes/origin/"@;
    let whole = start + branch;
    assert(whole[0] == 'r');
    assert(whole.last() == branch.last());
    trimming_drops_white_space_around(before, whole, after);
    prefixes_and_suffixes_are_taken_off(Seq::empty(), start, branch);
    let none = Seq::<char>::empty();
    assert(start[0] == 'r');
    assert(start.last() == '/');
    trimming_drops_white_space_around(none, start, none);
    assert(none + start + none =~= start);
    prefixes_and_suffixes_are_taken_off(Seq::empty(), start, none);
    assert(start + none =~= start);
}

/// What the small questions to git are, word by word.
pub proof fn what_the_small_questions_are()
    ensures
        toplevel_args() == seq!["rev-parse"@, "--show-toplevel"@],
        remote_args() == seq!["config"@, "--get"@, "remote.origin.url"@],
        head_args() == seq!["symbolic-ref"@, "refs/remotes/origin/HEAD"@],
        fetch_args() == seq!["fetch"@, "origin"@, "--prune"@],
        listing_args() == seq!["worktree"@, "list"@, "--porcelain"@],
{
}

/// What git's answers to the small questions mean. An answer is exit code 0 with `out` on stdout: the
/// trimmed root, the repository that the URL names, the default branch and `main` where there is none,
/// a fetch that went well, and the worktrees of the listing.
pub proof fn what_the_small_answers_mean(
    dir: Seq<char>,
    out: Seq<u8>,
    status: Seq<char>,
    err: Seq<u8>,
)
    ensures
        ({
            let answer = AttemptView::Finished(
                OutputView { code: Some(0i32), status, stdout: out, stderr: err },
            );
            let text = utf8_lossy(out);
            &&& toplevel(dir, answer) == Ok::<Seq<char>, Seq<char>>(trim(text))
            &&& github_of(dir, answer) == github_remote(text)
            &&& default_branch_of(dir, answer) == match default_branch_in(text) {
                Some(branch) => branch,
                None => "main"@,
            }
            &&& fetched(dir, answer) is Ok
            &&& worktrees_of(dir, answer) == Ok::<Seq<super::WorktreeView>, Seq<char>>(
                checked_out(worktrees_in(lines(text))),
            )
        }),
{
}

/// What a small question means that git does not answer: no repository on GitHub, the default branch
/// `main`, and otherwise the reason: what git said on stderr, or that git is not installed.
pub proof fn what_silence_means(dir: Seq<char>, attempt: AttemptView)
    requires
        !(attempt is Finished && attempt->Finished_0.code == Some(0i32)),
    ensures
        github_of(dir, attempt) is None,
        default_branch_of(dir, attempt) == "main"@,
        toplevel(dir, attempt) is Err,
        fetched(dir, attempt) is Err,
        worktrees_of(dir, attempt) is Err,
        attempt is NotFound ==> toplevel(dir, attempt)->Err_0 == "git is not installed"@
            && fetched(dir, attempt)->Err_0 == "git is not installed"@ && worktrees_of(
            dir,
            attempt,
        )->Err_0 == "git is not installed"@,
        attempt is Finished && trim(utf8_lossy(attempt->Finished_0.stderr)).len() > 0 ==> fetched(
            dir,
            attempt,
        )->Err_0 == trim(utf8_lossy(attempt->Finished_0.stderr)) && worktrees_of(
            dir,
            attempt,
        )->Err_0 == trim(utf8_lossy(attempt->Finished_0.stderr)),
{
    a_command_gives_its_output_or_a_reason("git"@, dir, toplevel_args(), attempt);
    a_command_gives_its_output_or_a_reason("git"@, dir, remote_args(), attempt);
    a_command_gives_its_output_or_a_reason("git"@, dir, head_args(), attempt);
    a_command_gives_its_output_or_a_reason("git"@, dir, fetch_args(), attempt);
    a_command_gives_its_output_or_a_reason("git"@, dir, listing_args(), attempt);
}

} // verus!
