//! What holds of the reading of remote URLs.
use vstd::prelude::*;

use super::{after_last, bare_path, before_first, github_remote, host_and_path, owner_and_repo};
use crate::text::{
    find, is_digit, is_white, lemma_position, lemma_position_is, lemma_trim_end, lemma_trim_start,
    lower, lowercase, split_once, trim, trim_slashes,
};

verus! {

/// A part of a repository's name: not empty, without white space and without the characters that
/// separate the parts of a URL.
pub open spec fn is_name(part: Seq<char>) -> bool {
    &&& part.len() > 0
    &&& forall|i: int|
        0 <= i < part.len() ==> !is_white(#[trigger] part[i]) && part[i] != '/' && part[i] != ':'
            && part[i] != '@'
}

proof fn lemma_find_is(s: Seq<char>, word: Seq<char>, i: int)
    requires
        0 <= i <= s.len(),
        word.is_prefix_of(s.skip(i)),
        forall|j: int| 0 <= j < i ==> !word.is_prefix_of(#[trigger] s.skip(j)),
    ensures
        find(s, word) == i,
    decreases i,
{
    assert(s.skip(0) =~= s);
    if i > 0 {
        assert(!word.is_prefix_of(s.skip(0)));
        let rest = s.drop_first();
        assert(rest.skip(i - 1) =~= s.skip(i));
        assert forall|j: int| 0 <= j < i - 1 implies !word.is_prefix_of(#[trigger] rest.skip(j)) by {
            assert(rest.skip(j) =~= s.skip(j + 1));
        }
        lemma_find_is(rest, word, i - 1);
    }
}

proof fn lemma_find_none(s: Seq<char>, word: Seq<char>)
    requires
        forall|j: int| 0 <= j <= s.len() ==> !word.is_prefix_of(#[trigger] s.skip(j)),
    ensures
        find(s, word) < 0,
    decreases s.len(),
{
    assert(s.skip(0) =~= s);
    assert(!word.is_prefix_of(s.skip(0)));
    if s.len() > 0 {
        let rest = s.drop_first();
        assert forall|j: int| 0 <= j <= rest.len() implies !word.is_prefix_of(
            #[trigger] rest.skip(j),
        ) by {
            assert(rest.skip(j) =~= s.skip(j + 1));
        }
        lemma_find_none(rest, word);
    }
}

proof fn lemma_no_sep(s: Seq<char>, sep: char)
    requires
        forall|i: int| 0 <= i < s.len() ==> s[i] != sep,
    ensures
        after_last(s, sep) == s,
        before_first(s, sep) == s,
        split_once(s, sep) is None,
{
    lemma_position_is(s, sep, s.len() as int);
    assert(s.take(s.len() as int) =~= s);
}

/// What may follow the name of a repository in a URL.
pub open spec fn is_ending(ending: Seq<char>) -> bool {
    ending == ""@ || ending == ".git"@ || ending == "/"@ || ending == ".git/"@
}

/// A port with the colon before it, or nothing.
pub open spec fn is_port(port: Seq<char>) -> bool {
    port.len() == 0 || (port[0] == ':' && forall|i: int|
        1 <= i < port.len() ==> is_digit(#[trigger] port[i]))
}

/// Nothing but white space.
pub open spec fn is_blank(s: Seq<char>) -> bool {
    forall|i: int| 0 <= i < s.len() ==> is_white(#[trigger] s[i])
}

/// The path of a repository gives owner and name, whatever follows the name.
proof fn lemma_path(owner: Seq<char>, repo: Seq<char>, ending: Seq<char>)
    requires
        is_name(owner),
        is_name(repo),
        !(".git"@).is_suffix_of(repo),
        is_ending(ending),
    ensures
        owner_and_repo(bare_path(owner + "/"@ + repo + ending)) == Some(owner + "/"@ + repo),
{
    reveal_strlit("");
    reveal_strlit("/");
    reveal_strlit(".git");
    reveal_strlit(".git/");
    let name = owner + "/"@ + repo;
    let path = name + ending;
    let n = owner.len() as int;
    let slash = |c: char| c == '/';
    let git = ".git"@;
    let with = name + git;
    assert(name.last() == repo.last());
    assert(repo[repo.len() - 1] != '/');
    assert(path[0] == owner[0]);
    lemma_trim_start(path, slash, 0);
    assert(path.skip(0) =~= path);
    if ending == ""@ || ending == "/"@ {
        assert(path[name.len() - 1] == name.last());
        lemma_trim_end(path, slash, name.len() as int);
        assert(path.take(name.len() as int) =~= name);
        assert(trim_slashes(path) == name);
    } else {
        assert(path[with.len() - 1] == 't');
        lemma_trim_end(path, slash, with.len() as int);
        assert(path.take(with.len() as int) =~= with);
        assert(trim_slashes(path) == with);
    }
    assert(!git.is_suffix_of(name)) by {
        if git.is_suffix_of(name) {
            if repo.len() >= 4 {
                assert(repo.subrange(repo.len() - 4, repo.len() as int) =~= name.subrange(
                    name.len() - 4,
                    name.len() as int,
                ));
            } else {
                assert(name[n] == '/');
                assert(name.subrange(name.len() - 4, name.len() as int)[n - (name.len() - 4)]
                    == '/');
            }
        }
    }
    assert(git.is_suffix_of(with)) by {
        assert(with.subrange(with.len() - 4, with.len() as int) =~= git);
    }
    assert(with.take(with.len() - 4) =~= name);
    assert(bare_path(path) == name);
    assert(name[n] == '/');
    assert forall|j: int| 0 <= j < n implies name[j] != '/' by {
        assert(name[j] == owner[j]);
    }
    lemma_position_is(name, '/', n);
    assert(name.take(n) =~= owner);
    assert(name.skip(n + 1) =~= repo);
    assert(!repo.contains('/'));
}

/// No letter case of the host holds a character that separates the parts of a URL.
proof fn lemma_host(host: Seq<char>)
    requires
        lowercase(host) == "github.com"@,
    ensures
        host.len() == 10,
        forall|i: int|
            0 <= i < 10 ==> host[i] != '/' && host[i] != ':' && host[i] != '@' && !is_white(
                #[trigger] host[i],
            ),
{
    reveal_strlit("github.com");
    assert(lowercase(host).len() == host.len());
    assert forall|i: int| 0 <= i < 10 implies host[i] != '/' && host[i] != ':' && host[i] != '@'
        && !is_white(#[trigger] host[i]) by {
        assert(lowercase(host)[i] == lower(host[i]));
        assert(lowercase(host)[i] == ("github.com"@)[i]);
    }
}

proof fn lemma_trimmed(s: Seq<char>, tail: Seq<char>)
    requires
        s.len() > 0,
        !is_white(s[0]),
        !is_white(s.last()),
        is_blank(tail),
    ensures
        trim(s + tail) == s,
{
    let white = |c: char| is_white(c);
    let all = s + tail;
    assert(all[0] == s[0]);
    lemma_trim_start(all, white, 0);
    assert(all.skip(0) =~= all);
    assert(all[s.len() - 1] == s.last());
    assert forall|j: int| s.len() <= j < all.len() implies white(all[j]) by {
        assert(all[j] == tail[j - s.len()]);
    }
    lemma_trim_end(all, white, s.len() as int);
    assert(all.take(s.len() as int) =~= s);
}

/// The host between a user and a port.
proof fn lemma_authority(user: Seq<char>, host: Seq<char>, port: Seq<char>)
    requires
        user == ""@ || user == "git@"@,
        lowercase(host) == "github.com"@,
        is_port(port),
    ensures
        before_first(after_last(user + host + port, '@'), ':') == host,
        after_last(user + host, '@') == host,
        forall|i: int| 0 <= i < (user + host + port).len() ==> (user + host + port)[i] != '/',
{
    reveal_strlit("");
    reveal_strlit("git@");
    lemma_host(host);
    let rest = host + port;
    assert forall|i: int| 0 <= i < rest.len() implies rest[i] != '@' && rest[i] != '/' by {
        if i < 10 {
            assert(rest[i] == host[i]);
        } else {
            assert(rest[i] == port[i - 10]);
        }
    }
    lemma_no_sep(rest, '@');
    lemma_no_sep(host, '@');
    lemma_after_user(user, rest);
    lemma_after_user(user, host);
    assert(user + host + port =~= user + rest);
    if port.len() == 0 {
        assert(rest =~= host);
        lemma_no_sep(host, ':');
    } else {
        assert(rest[10] == ':');
        assert forall|j: int| 0 <= j < 10 implies rest[j] != ':' by {
            assert(rest[j] == host[j]);
        }
        lemma_position_is(rest, ':', 10);
        assert(rest.take(10) =~= host);
    }
    assert forall|i: int| 0 <= i < (user + rest).len() implies (user + rest)[i] != '/' by {
        if i >= user.len() {
            assert((user + rest)[i] == rest[i - user.len()]);
        } else {
            assert((user + rest)[i] == user[i]);
        }
    }
}

proof fn lemma_after_user(user: Seq<char>, rest: Seq<char>)
    requires
        user == ""@ || user == "git@"@,
        forall|i: int| 0 <= i < rest.len() ==> rest[i] != '@',
    ensures
        after_last(user + rest, '@') == rest,
{
    reveal_strlit("");
    reveal_strlit("git@");
    lemma_no_sep(rest, '@');
    let all = user + rest;
    if user.len() == 0 {
        assert(all =~= rest);
    } else {
        assert(all[3] == '@');
        assert forall|j: int| 0 <= j < 3 implies all[j] != '@' by {
            assert(all[j] == user[j]);
        }
        lemma_position_is(all, '@', 3);
        assert(all.skip(4) =~= rest);
    }
}

/// Host and path of a URL with a scheme.
proof fn lemma_with_scheme(
    scheme: Seq<char>,
    user: Seq<char>,
    host: Seq<char>,
    port: Seq<char>,
    path: Seq<char>,
    tail: Seq<char>,
)
    requires
        scheme.len() > 0,
        forall|i: int| 0 <= i < scheme.len() ==> scheme[i] != ':' && !is_white(scheme[i]),
        user == ""@ || user == "git@"@,
        lowercase(host) == "github.com"@,
        is_port(port),
        path.len() > 0,
        !is_white(path.last()),
        is_blank(tail),
    ensures
        host_and_path(trim(scheme + "://"@ + (user + host + port) + "/"@ + path + tail)) == Some(
            (host, path),
        ),
{
    reveal_strlit("://");
    reveal_strlit("/");
    lemma_authority(user, host, port);
    let authority = user + host + port;
    let rest = authority + "/"@ + path;
    let url = scheme + "://"@ + rest;
    assert(scheme + "://"@ + authority + "/"@ + path + tail =~= url + tail);
    assert(url[0] == scheme[0]);
    assert(url.last() == path.last());
    lemma_trimmed(url, tail);
    let n = scheme.len() as int;
    assert(("://"@).is_prefix_of(url.skip(n))) by {
        assert(url.skip(n).subrange(0, 3) =~= "://"@);
    }
    assert forall|j: int| 0 <= j < n implies !("://"@).is_prefix_of(#[trigger] url.skip(j)) by {
        assert(url.skip(j)[0] == scheme[j]);
        assert(("://"@)[0] == ':');
    }
    lemma_find_is(url, "://"@, n);
    assert(url.skip(n + 3) =~= rest);
    let m = authority.len() as int;
    assert(rest[m] == '/');
    assert forall|j: int| 0 <= j < m implies rest[j] != '/' by {
        assert(rest[j] == authority[j]);
    }
    lemma_position_is(rest, '/', m);
    assert(rest.take(m) =~= authority);
    assert(rest.skip(m + 1) =~= path);
}

/// Host and path of a URL without a scheme.
proof fn lemma_scp(host: Seq<char>, path: Seq<char>, tail: Seq<char>)
    requires
        lowercase(host) == "github.com"@,
        path.len() > 0,
        path[0] != '/',
        forall|i: int| 0 <= i < path.len() ==> path[i] != ':',
        !is_white(path.last()),
        is_blank(tail),
    ensures
        host_and_path(trim("git@"@ + host + ":"@ + path + tail)) == Some((host, path)),
{
    reveal_strlit("git@");
    reveal_strlit(":");
    reveal_strlit("://");
    lemma_host(host);
    lemma_authority("git@"@, host, Seq::empty());
    let start = "git@"@ + host;
    let url = start + ":"@ + path;
    assert(url[0] == 'g');
    assert(url.last() == path.last());
    lemma_trimmed(url, tail);
    assert(url[14] == ':');
    assert forall|j: int| 0 <= j < 14 implies url[j] != ':' by {
        if j >= 4 {
            assert(url[j] == host[j - 4]);
        } else {
            assert(url[j] == ("git@"@)[j]);
        }
    }
    assert forall|j: int| 0 <= j <= url.len() implies !("://"@).is_prefix_of(
        #[trigger] url.skip(j),
    ) by {
        let rest = url.skip(j);
        if ("://"@).is_prefix_of(rest) {
            assert(rest.subrange(0, 3)[0] == ':');
            assert(rest.subrange(0, 3)[1] == '/');
            assert(url[j] == ':');
            assert(url[j + 1] == '/');
            if j > 14 {
                assert(url[j] == path[j - 15]);
            } else if j == 14 {
                assert(url[15] == path[0]);
            }
        }
    }
    lemma_find_none(url, "://"@);
    lemma_position_is(url, ':', 14);
    assert(url.take(14) =~= start);
    assert(url.skip(15) =~= path);
}

/// A GitHub repository is recognized in the https, ssh:// and scp-like forms of its URL, and always
/// under the same name: in any letter case of the host, with or without a port, with `.git`, a
/// slash, both or neither behind the name, and with white space such as a line feed at the end.
#[verifier::rlimit(30)]
pub proof fn all_forms_of_a_github_remote_agree(
    owner: Seq<char>,
    repo: Seq<char>,
    host: Seq<char>,
    port: Seq<char>,
    ending: Seq<char>,
    tail: Seq<char>,
)
    requires
        is_name(owner),
        is_name(repo),
        !(".git"@).is_suffix_of(repo),
        lowercase(host) == "github.com"@,
        is_port(port),
        is_ending(ending),
        is_blank(tail),
    ensures
        ({
            let name = owner + "/"@ + repo;
            &&& github_remote("https://"@ + host + port + "/"@ + name + ending + tail) == Some(name)
            &&& github_remote("ssh://git@"@ + host + port + "/"@ + name + ending + tail) == Some(
                name,
            )
            &&& github_remote("git@"@ + host + ":"@ + name + ending + tail) == Some(name)
        }),
{
    reveal_strlit("");
    reveal_strlit("git@");
    reveal_strlit("https");
    reveal_strlit("ssh");
    reveal_strlit("://");
    reveal_strlit("https://");
    reveal_strlit("ssh://git@");
    reveal_strlit("/");
    reveal_strlit(".git");
    reveal_strlit(".git/");
    let name = owner + "/"@ + repo;
    let path = name + ending;
    lemma_path(owner, repo, ending);
    assert(path[0] == owner[0]);
    assert(!is_white(repo[repo.len() - 1]));
    assert(path.last() == if ending.len() == 0 {
        repo.last()
    } else {
        ending.last()
    });
    assert forall|i: int| 0 <= i < path.len() implies path[i] != ':' by {
        if i < owner.len() {
            assert(path[i] == owner[i]);
        } else if i > owner.len() && i < name.len() {
            assert(path[i] == repo[i - owner.len() - 1]);
        } else if i >= name.len() {
            assert(path[i] == ending[i - name.len()]);
        }
    }
    lemma_with_scheme("https"@, ""@, host, port, path, tail);
    assert("https"@ + "://"@ + (""@ + host + port) + "/"@ + path + tail =~= "https://"@ + host
        + port + "/"@ + name + ending + tail);
    lemma_with_scheme("ssh"@, "git@"@, host, port, path, tail);
    assert("ssh"@ + "://"@ + ("git@"@ + host + port) + "/"@ + path + tail =~= "ssh://git@"@ + host
        + port + "/"@ + name + ending + tail);
    lemma_scp(host, path, tail);
    assert("git@"@ + host + ":"@ + path + tail =~= "git@"@ + host + ":"@ + name + ending + tail);
}

/// What is read from a URL is always an owner and a name with one slash between them.
pub proof fn a_github_remote_is_owner_and_name(url: Seq<char>)
    ensures
        github_remote(url) matches Some(found) ==> exists|owner: Seq<char>, repo: Seq<char>|
            #![trigger owner + "/"@ + repo]
            found == owner + "/"@ + repo && owner.len() > 0 && repo.len() > 0
                && !owner.contains('/') && !repo.contains('/'),
{
    if let Some(found) = github_remote(url) {
        let path = bare_path(host_and_path(trim(url))->Some_0.1);
        let (owner, repo) = split_once(path, '/')->Some_0;
        lemma_position(path, '/');
        assert(!owner.contains('/'));
        assert(found == owner + "/"@ + repo);
    }
}

} // verus!
