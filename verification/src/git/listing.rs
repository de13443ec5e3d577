//! What `git worktree list --porcelain` writes for a list of worktrees, and that it reads back.
use vstd::prelude::*;

use super::{
    checked_out, line_key, line_value, opens_record, short_branch, with_line, worktrees_in,
    WorktreeView,
};
use crate::text::laws::{
    free_of, plain_line, prefixes_and_suffixes_are_taken_off,
    splitting_once_is_at_the_first_separator, written_lines, written_lines_read_back,
};
use crate::text::lines;

verus! {

/// A worktree with the reasons that git gives for a lock and for calling it prunable.
pub struct Listed {
    pub wt: WorktreeView,
    pub lock_reason: Option<Seq<char>>,
    pub prune_reason: Option<Seq<char>>,
}

/// One line, if it is to be written.
pub open spec fn line_if(write: bool, line: Seq<char>) -> Seq<Seq<char>> {
    if write {
        seq![line]
    } else {
        Seq::empty()
    }
}

/// A word, and a space and a reason behind it if there is one.
pub open spec fn reasoned(word: Seq<char>, reason: Option<Seq<char>>) -> Seq<char> {
    match reason {
        Some(reason) => word + " "@ + reason,
        None => word,
    }
}

/// The lines that git writes for a worktree, with the empty line that ends a record.
pub open spec fn record_lines(entry: Listed) -> Seq<Seq<char>> {
    seq!["worktree "@ + entry.wt.path] + line_if(entry.wt.bare, "bare"@) + line_if(
        entry.wt.head is Some,
        "HEAD "@ + entry.wt.head->Some_0,
    ) + line_if(entry.wt.branch is Some, "branch refs/heads/"@ + entry.wt.branch->Some_0) + line_if(
        entry.wt.branch is None && !entry.wt.bare,
        "detached"@,
    ) + line_if(entry.wt.locked, reasoned("locked"@, entry.lock_reason)) + line_if(
        entry.wt.prunable,
        reasoned("prunable"@, entry.prune_reason),
    ) + seq![Seq::<char>::empty()]
}

/// The lines of a whole listing.
pub open spec fn listing_lines(list: Seq<Listed>) -> Seq<Seq<char>>
    decreases list.len(),
{
    if list.len() == 0 {
        Seq::empty()
    } else {
        listing_lines(list.drop_last()) + record_lines(list.last())
    }
}

/// A text that is written on one line and read as it was written.
pub open spec fn plain_text(text: Option<Seq<char>>) -> bool {
    text matches Some(text) ==> plain_line(text)
}

/// Nothing of the worktree breaks a line.
pub open spec fn listable(entry: Listed) -> bool {
    &&& plain_line(entry.wt.path)
    &&& plain_text(entry.wt.head)
    &&& plain_text(entry.wt.branch)
    &&& plain_text(entry.lock_reason)
    &&& plain_text(entry.prune_reason)
}

/// Key and value of a line.
proof fn lemma_key(key: Seq<char>, value: Seq<char>)
    requires
        free_of(key, ' '),
    ensures
        line_key(key.push(' ') + value) == key,
        line_value(key.push(' ') + value) == value,
        line_key(key) == key,
        line_value(key) == Seq::<char>::empty(),
{
    splitting_once_is_at_the_first_separator(key, value, ' ');
}

/// No two of the keys are the same, and none holds a space.
proof fn lemma_keys()
    ensures
        forall|key: Seq<char>|
            key == "worktree"@ || key == "HEAD"@ || key == "branch"@ || key == "bare"@ || key
                == "prunable"@ || key == "locked"@ || key == "detached"@ ==> #[trigger] free_of(
                key,
                ' ',
            ),
        "worktree"@ != "prunable"@,
        "worktree"@ != "detached"@,
        "prunable"@ != "detached"@,
        "HEAD"@ != "bare"@,
        "branch"@ != "locked"@,
        ("worktree"@).len() == 8,
        ("prunable"@).len() == 8,
        ("detached"@).len() == 8,
        ("HEAD"@).len() == 4,
        ("bare"@).len() == 4,
        ("branch"@).len() == 6,
        ("locked"@).len() == 6,
{
    reveal_strlit("worktree");
    reveal_strlit("prunable");
    reveal_strlit("detached");
    reveal_strlit("HEAD");
    reveal_strlit("bare");
    reveal_strlit("branch");
    reveal_strlit("locked");
    assert(("worktree"@)[0] == 'w');
    assert(("prunable"@)[0] == 'p');
    assert(("detached"@)[0] == 'd');
    assert(("HEAD"@)[0] == 'H');
    assert(("bare"@)[0] == 'b');
    assert(("branch"@)[0] == 'b');
    assert(("locked"@)[0] == 'l');
}

/// One more line of a listing.
proof fn lemma_more(listing: Seq<Seq<char>>, line: Seq<char>)
    ensures
        ({
            let before = worktrees_in(listing);
            let after = worktrees_in(listing.push(line));
            &&& opens_record(line) ==> after == before.push(
                super::fresh_worktree(line_value(line), before.len() == 0),
            )
            &&& !opens_record(line) && before.len() == 0 ==> after == before
            &&& !opens_record(line) && before.len() > 0 ==> after == before.drop_last().push(
                with_line(before.last(), line),
            )
        }),
{
    assert(listing.push(line).drop_last() =~= listing);
}

/// What one line says: a line `worktree` with a path opens a worktree with that path and nothing
/// else; any other line leaves all worktrees but the last as they are, and of the last only what
/// its key names. A branch is taken whole, slashes included, but for `refs/heads/` before it. A key
/// alone says the same as with an empty value.
pub proof fn what_one_line_says(listing: Seq<Seq<char>>, key: Seq<char>, value: Seq<char>)
    requires
        free_of(key, ' '),
    ensures
        ({
            let before = worktrees_in(listing);
            let after = worktrees_in(listing.push(key.push(' ') + value));
            if key == "worktree"@ {
                after == before.push(
                    WorktreeView {
                        path: value,
                        head: None,
                        branch: None,
                        bare: false,
                        prunable: false,
                        locked: false,
                        main: before.len() == 0,
                    },
                )
            } else if before.len() == 0 {
                after == before
            } else {
                let was = before.last();
                &&& after.len() == before.len()
                &&& after.drop_last() == before.drop_last()
                &&& after.last().path == was.path
                &&& after.last().main == was.main
                &&& after.last().head == if key == "HEAD"@ {
                    Some(value)
                } else {
                    was.head
                }
                &&& key != "branch"@ ==> after.last().branch == was.branch
                &&& after.last().bare == (was.bare || key == "bare"@)
                &&& after.last().prunable == (was.prunable || key == "prunable"@)
                &&& after.last().locked == (was.locked || key == "locked"@)
            }
        }),
        forall|branch: Seq<char>|
            worktrees_in(listing).len() > 0 ==> worktrees_in(
                listing.push("branch"@.push(' ') + ("refs/heads/"@ + branch)),
            ).last().branch == Some(branch),
        key == "branch"@ && !("refs/heads/"@).is_prefix_of(value) && worktrees_in(listing).len() > 0
            ==> worktrees_in(listing.push(key.push(' ') + value)).last().branch == Some(value),
        worktrees_in(listing.push(key)) == worktrees_in(listing.push(key.push(' '))),
{
    lemma_keys();
    lemma_key(key, value);
    lemma_key(key, Seq::empty());
    lemma_more(listing, key);
    lemma_more(listing, key.push(' '));
    assert(key.push(' ') + Seq::<char>::empty() =~= key.push(' '));
    lemma_more(listing, key.push(' ') + value);
    let before = worktrees_in(listing);
    let after = worktrees_in(listing.push(key.push(' ') + value));
    if key != "worktree"@ && before.len() > 0 {
        assert(after.drop_last() =~= before.drop_last());
    }
    assert forall|branch: Seq<char>| before.len() > 0 implies worktrees_in(
        listing.push("branch"@.push(' ') + ("refs/heads/"@ + branch)),
    ).last().branch == Some(branch) by {
        let line = "branch"@.push(' ') + ("refs/heads/"@ + branch);
        assert(free_of("branch"@, ' '));
        lemma_key("branch"@, "refs/heads/"@ + branch);
        lemma_more(listing, line);
        prefixes_and_suffixes_are_taken_off(Seq::empty(), "refs/heads/"@, branch);
        assert(short_branch("refs/heads/"@ + branch) == branch);
    }
}

/// A record that has been read up to `wt` after the worktrees `before` goes on with one more line,
/// if it is written, and has been read up to `next` then.
proof fn lemma_step(
    listing: Seq<Seq<char>>,
    before: Seq<WorktreeView>,
    wt: WorktreeView,
    next: WorktreeView,
    write: bool,
    line: Seq<char>,
)
    requires
        worktrees_in(listing) == before.push(wt),
        write ==> !opens_record(line) && with_line(wt, line) == next,
        !write ==> next == wt,
    ensures
        worktrees_in(listing + line_if(write, line)) == before.push(next),
{
    if write {
        assert(listing + line_if(write, line) =~= listing.push(line));
        lemma_more(listing, line);
        assert(before.push(wt).drop_last() =~= before);
    } else {
        assert(listing + line_if(write, line) =~= listing);
    }
}

proof fn lemma_in_a_row<T>(
    z: Seq<T>,
    x: T,
    b: Seq<T>,
    c: Seq<T>,
    d: Seq<T>,
    e: Seq<T>,
    f: Seq<T>,
    g: Seq<T>,
    h: Seq<T>,
)
    ensures
        z + (seq![x] + b + c + d + e + f + g + h) == z.push(x) + b + c + d + e + f + g + h,
{
    assert(z + (seq![x] + b + c + d + e + f + g + h) =~= z.push(x) + b + c + d + e + f + g + h);
}

proof fn lemma_first_line(listing: Seq<Seq<char>>, path: Seq<char>)
    ensures
        worktrees_in(listing.push("worktree "@ + path)) == worktrees_in(listing).push(
            super::fresh_worktree(path, worktrees_in(listing).len() == 0),
        ),
{
    reveal_strlit("worktree ");
    reveal_strlit("worktree");
    lemma_keys();
    let first = "worktree "@ + path;
    assert(free_of("worktree"@, ' '));
    assert(first =~= "worktree"@.push(' ') + path);
    lemma_key("worktree"@, path);
    lemma_more(listing, first);
}

proof fn lemma_head_line(wt: WorktreeView, head: Seq<char>)
    ensures
        !opens_record("HEAD "@ + head),
        with_line(wt, "HEAD "@ + head) == (WorktreeView { head: Some(head), ..wt }),
{
    reveal_strlit("HEAD ");
    reveal_strlit("HEAD");
    lemma_keys();
    assert(free_of("HEAD"@, ' '));
    assert("HEAD "@ + head =~= "HEAD"@.push(' ') + head);
    lemma_key("HEAD"@, head);
}

proof fn lemma_branch_line(wt: WorktreeView, branch: Seq<char>)
    ensures
        !opens_record("branch refs/heads/"@ + branch),
        with_line(wt, "branch refs/heads/"@ + branch) == (WorktreeView {
            branch: Some(branch),
            ..wt
        }),
{
    reveal_strlit("branch refs/heads/");
    reveal_strlit("refs/heads/");
    reveal_strlit("branch");
    lemma_keys();
    let reference = "refs/heads/"@ + branch;
    assert(free_of("branch"@, ' '));
    assert("branch refs/heads/"@ + branch =~= "branch"@.push(' ') + reference);
    lemma_key("branch"@, reference);
    prefixes_and_suffixes_are_taken_off(Seq::empty(), "refs/heads/"@, branch);
    assert(short_branch(reference) == branch);
}

proof fn lemma_word_lines(wt: WorktreeView, reason: Option<Seq<char>>)
    ensures
        !opens_record("bare"@),
        with_line(wt, "bare"@) == (WorktreeView { bare: true, ..wt }),
        !opens_record("detached"@),
        with_line(wt, "detached"@) == wt,
        !opens_record(reasoned("locked"@, reason)),
        with_line(wt, reasoned("locked"@, reason)) == (WorktreeView { locked: true, ..wt }),
        !opens_record(reasoned("prunable"@, reason)),
        with_line(wt, reasoned("prunable"@, reason)) == (WorktreeView { prunable: true, ..wt }),
        !opens_record(Seq::empty()),
        with_line(wt, Seq::empty()) == wt,
{
    lemma_keys();
    assert(free_of("bare"@, ' '));
    assert(free_of("detached"@, ' '));
    assert(free_of("locked"@, ' '));
    assert(free_of("prunable"@, ' '));
    lemma_key("bare"@, Seq::empty());
    lemma_key("detached"@, Seq::empty());
    lemma_reasoned("locked"@, reason);
    lemma_reasoned("prunable"@, reason);
    lemma_key(Seq::empty(), Seq::empty());
}

proof fn lemma_record(listing: Seq<Seq<char>>, entry: Listed)
    requires
        entry.wt.main == (worktrees_in(listing).len() == 0),
    ensures
        worktrees_in(listing + record_lines(entry)) == worktrees_in(listing).push(entry.wt),
{
    let wt = entry.wt;
    let before = worktrees_in(listing);
    let first = "worktree "@ + wt.path;
    let head = "HEAD "@ + wt.head->Some_0;
    let branch = "branch refs/heads/"@ + wt.branch->Some_0;
    let loose = wt.branch is None && !wt.bare;
    let locked = reasoned("locked"@, entry.lock_reason);
    let prunable = reasoned("prunable"@, entry.prune_reason);
    let end = Seq::<char>::empty();
    let w0 = super::fresh_worktree(wt.path, wt.main);
    let w1 = WorktreeView { bare: wt.bare, ..w0 };
    let w2 = WorktreeView { head: wt.head, ..w1 };
    let w3 = WorktreeView { branch: wt.branch, ..w2 };
    let w5 = WorktreeView { locked: wt.locked, ..w3 };
    let l0 = listing.push(first);
    let l1 = l0 + line_if(wt.bare, "bare"@);
    let l2 = l1 + line_if(wt.head is Some, head);
    let l3 = l2 + line_if(wt.branch is Some, branch);
    let l4 = l3 + line_if(loose, "detached"@);
    let l5 = l4 + line_if(wt.locked, locked);
    let l6 = l5 + line_if(wt.prunable, prunable);
    let l7 = l6 + line_if(true, end);
    assert(worktrees_in(l0) == before.push(w0)) by {
        lemma_first_line(listing, wt.path);
    }
    assert(worktrees_in(l1) == before.push(w1)) by {
        lemma_word_lines(w0, None);
        lemma_step(l0, before, w0, w1, wt.bare, "bare"@);
    }
    assert(worktrees_in(l2) == before.push(w2)) by {
        lemma_head_line(w1, wt.head->Some_0);
        lemma_step(l1, before, w1, w2, wt.head is Some, head);
    }
    assert(worktrees_in(l3) == before.push(w3)) by {
        lemma_branch_line(w2, wt.branch->Some_0);
        lemma_step(l2, before, w2, w3, wt.branch is Some, branch);
    }
    assert(worktrees_in(l4) == before.push(w3)) by {
        lemma_word_lines(w3, None);
        lemma_step(l3, before, w3, w3, loose, "detached"@);
    }
    assert(worktrees_in(l5) == before.push(w5)) by {
        lemma_word_lines(w3, entry.lock_reason);
        lemma_step(l4, before, w3, w5, wt.locked, locked);
    }
    assert(worktrees_in(l6) == before.push(wt)) by {
        lemma_word_lines(w5, entry.prune_reason);
        lemma_step(l5, before, w5, wt, wt.prunable, prunable);
    }
    assert(worktrees_in(l7) == before.push(wt)) by {
        lemma_word_lines(wt, None);
        lemma_step(l6, before, wt, wt, true, end);
    }
    assert(listing + record_lines(entry) == l7) by {
        lemma_in_a_row(
            listing,
            first,
            line_if(wt.bare, "bare"@),
            line_if(wt.head is Some, head),
            line_if(wt.branch is Some, branch),
            line_if(loose, "detached"@),
            line_if(wt.locked, locked),
            line_if(wt.prunable, prunable),
            seq![end],
        );
        assert(line_if(true, end) == seq![end]);
    }
}

proof fn lemma_reasoned(word: Seq<char>, reason: Option<Seq<char>>)
    requires
        free_of(word, ' '),
    ensures
        line_key(reasoned(word, reason)) == word,
{
    reveal_strlit(" ");
    match reason {
        Some(reason) => {
            lemma_key(word, reason);
            assert(word + " "@ + reason =~= word.push(' ') + reason);
        },
        None => {
            lemma_key(word, word);
        },
    }
}

proof fn lemma_listing(list: Seq<Listed>)
    requires
        forall|i: int| 0 <= i < list.len() ==> (#[trigger] list[i]).wt.main == (i == 0),
    ensures
        worktrees_in(listing_lines(list)) == list.map_values(|entry: Listed| entry.wt),
    decreases list.len(),
{
    if list.len() > 0 {
        let fewer = list.drop_last();
        assert forall|i: int| 0 <= i < fewer.len() implies (#[trigger] fewer[i]).wt.main == (i
            == 0) by {
            assert(fewer[i] == list[i]);
        }
        lemma_listing(fewer);
        assert(list[list.len() - 1].wt.main == (list.len() == 1));
        lemma_record(listing_lines(fewer), list.last());
    }
    assert(worktrees_in(listing_lines(list)) =~= list.map_values(|entry: Listed| entry.wt));
}

proof fn lemma_plain(list: Seq<Listed>)
    requires
        forall|i: int| 0 <= i < list.len() ==> listable(#[trigger] list[i]),
    ensures
        forall|i: int| 0 <= i < listing_lines(list).len() ==> plain_line(
            #[trigger] listing_lines(list)[i],
        ),
    decreases list.len(),
{
    if list.len() > 0 {
        let fewer = list.drop_last();
        assert forall|i: int| 0 <= i < fewer.len() implies listable(#[trigger] fewer[i]) by {
            assert(fewer[i] == list[i]);
        }
        lemma_plain(fewer);
        assert(listable(list[list.len() - 1]));
        lemma_plain_record(list.last());
        let before = listing_lines(fewer);
        let record = record_lines(list.last());
        assert forall|i: int| 0 <= i < (before + record).len() implies plain_line(
            #[trigger] (before + record)[i],
        ) by {
            if i < before.len() {
                assert((before + record)[i] == before[i]);
            } else {
                assert((before + record)[i] == record[i - before.len()]);
            }
        }
    }
}

proof fn lemma_plain_with(start: Seq<char>, text: Seq<char>)
    requires
        plain_line(start),
        plain_line(text),
    ensures
        plain_line(start + text),
{
    let whole = start + text;
    assert forall|i: int| 0 <= i < whole.len() implies whole[i] != '\n' by {
        if i < start.len() {
            assert(whole[i] == start[i]);
        } else {
            assert(whole[i] == text[i - start.len()]);
        }
    }
    if text.len() > 0 {
        assert(whole.last() == text.last());
    } else {
        assert(whole =~= start);
    }
}

proof fn lemma_plain_reason(word: Seq<char>, reason: Option<Seq<char>>)
    requires
        plain_line(word),
        plain_text(reason),
    ensures
        plain_line(reasoned(word, reason)),
{
    reveal_strlit(" ");
    if let Some(reason) = reason {
        lemma_plain_with(word, " "@);
        lemma_plain_with(word + " "@, reason);
    }
}

proof fn lemma_all_plain(a: Seq<Seq<char>>, b: Seq<Seq<char>>)
    requires
        forall|i: int| 0 <= i < a.len() ==> plain_line(#[trigger] a[i]),
        forall|i: int| 0 <= i < b.len() ==> plain_line(#[trigger] b[i]),
    ensures
        forall|i: int| 0 <= i < (a + b).len() ==> plain_line(#[trigger] (a + b)[i]),
{
    assert forall|i: int| 0 <= i < (a + b).len() implies plain_line(#[trigger] (a + b)[i]) by {
        if i < a.len() {
            assert((a + b)[i] == a[i]);
        } else {
            assert((a + b)[i] == b[i - a.len()]);
        }
    }
}

proof fn lemma_plain_record(entry: Listed)
    requires
        listable(entry),
    ensures
        forall|i: int| 0 <= i < record_lines(entry).len() ==> plain_line(
            #[trigger] record_lines(entry)[i],
        ),
{
    reveal_strlit("worktree ");
    reveal_strlit("HEAD ");
    reveal_strlit("branch refs/heads/");
    reveal_strlit("bare");
    reveal_strlit("detached");
    reveal_strlit("locked");
    reveal_strlit("prunable");
    let wt = entry.wt;
    lemma_plain_with("worktree "@, wt.path);
    if wt.head is Some {
        lemma_plain_with("HEAD "@, wt.head->Some_0);
    }
    if wt.branch is Some {
        lemma_plain_with("branch refs/heads/"@, wt.branch->Some_0);
    }
    lemma_plain_reason("locked"@, entry.lock_reason);
    lemma_plain_reason("prunable"@, entry.prune_reason);
    let a = seq!["worktree "@ + wt.path];
    let b = line_if(wt.bare, "bare"@);
    let c = line_if(wt.head is Some, "HEAD "@ + wt.head->Some_0);
    let d = line_if(wt.branch is Some, "branch refs/heads/"@ + wt.branch->Some_0);
    let e = line_if(wt.branch is None && !wt.bare, "detached"@);
    let f = line_if(wt.locked, reasoned("locked"@, entry.lock_reason));
    let g = line_if(wt.prunable, reasoned("prunable"@, entry.prune_reason));
    lemma_all_plain(a, b);
    lemma_all_plain(a + b, c);
    lemma_all_plain(a + b + c, d);
    lemma_all_plain(a + b + c + d, e);
    lemma_all_plain(a + b + c + d + e, f);
    lemma_all_plain(a + b + c + d + e + f, g);
    lemma_all_plain(a + b + c + d + e + f + g, seq![Seq::<char>::empty()]);
}

/// What git writes for any list of worktrees reads back as that list: the same worktrees in the
/// same order, each with its path, head, whole branch and marks; the first one is the main one.
pub proof fn a_written_listing_reads_back(list: Seq<Listed>)
    requires
        forall|i: int| 0 <= i < list.len() ==> listable(#[trigger] list[i]),
        forall|i: int| 0 <= i < list.len() ==> (#[trigger] list[i]).wt.main == (i == 0),
    ensures
        worktrees_in(lines(written_lines(listing_lines(list)))) == list.map_values(
            |entry: Listed| entry.wt,
        ),
{
    lemma_plain(list);
    written_lines_read_back(listing_lines(list));
    lemma_listing(list);
}

/// Every worktree with files in it is shown, in the order of the listing, and bare entries are not.
pub proof fn only_bare_entries_are_left_out(worktrees: Seq<WorktreeView>, wt: WorktreeView)
    ensures
        checked_out(Seq::empty()) == Seq::<WorktreeView>::empty(),
        !wt.bare ==> checked_out(worktrees.push(wt)) == checked_out(worktrees).push(wt),
        wt.bare ==> checked_out(worktrees.push(wt)) == checked_out(worktrees),
{
    assert(worktrees.push(wt).drop_last() =~= worktrees);
}

} // verus!
