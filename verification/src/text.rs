//! Text as sequences of characters: splitting, trimming, comparing, and numbers in decimal.
use vstd::prelude::*;
use vstd::slice::slice_subrange;
use vstd::utf8::{decode_utf8, valid_utf8};

pub mod laws;

verus! {

/// The standard library's `String::push` appends one character.
pub assume_specification[ String::push ](text: &mut String, c: char)
    ensures
        final(text)@ == old(text)@.push(c),
;

/// The standard library's `String::pop` removes and returns the last character; an empty string
/// stays empty.
pub assume_specification[ String::pop ](text: &mut String) -> (last: Option<char>)
    ensures
        old(text)@.len() == 0 ==> last is None && final(text)@ == old(text)@,
        old(text)@.len() > 0 ==> last == Some(old(text)@.last()) && final(text)@
            == old(text)@.drop_last(),
;

/// The standard library's `String::clear` leaves an empty string.
pub assume_specification[ String::clear ](text: &mut String)
    ensures
        final(text)@ == Seq::<char>::empty(),
;

/// What the standard library's `String::from_utf8_lossy` makes of `bytes`.
pub uninterp spec fn utf8_lossy(bytes: Seq<u8>) -> Seq<char>;

/// Calls the standard library's `String::from_utf8_lossy`. Valid UTF-8 is decoded as it is; how
/// invalid sequences are replaced is left to the name [`utf8_lossy`].
#[verifier::external_body]
pub(crate) fn lossy(bytes: &[u8]) -> (text: String)
    ensures
        text@ == utf8_lossy(bytes@),
        valid_utf8(bytes@) ==> text@ == decode_utf8(bytes@),
{
    String::from_utf8_lossy(bytes).into_owned()
}

/// The characters of `text`, one per element.
pub fn chars_of(text: &str) -> (chars: Vec<char>)
    ensures
        chars@ == text@,
{
    let mut chars: Vec<char> = Vec::new();
    for c in iter: text.chars()
        invariant
            iter.seq() == text@,
            chars@ == text@.take(iter.index() as int),
    {
        chars.push(c);
    }
    proof {
        assert(text@.take(text@.len() as int) =~= text@);
    }
    chars
}

/// The string that holds exactly `chars`.
pub fn string_of(chars: &[char]) -> (text: String)
    ensures
        text@ == chars@,
{
    let mut text = String::new();
    let mut i: usize = 0;
    while i < chars.len()
        invariant
            i <= chars@.len(),
            text@ == chars@.take(i as int),
        decreases chars@.len() - i,
    {
        text.push(chars[i]);
        i = i + 1;
        proof {
            assert(chars@.take(i as int) =~= chars@.take(i - 1).push(chars@[i - 1]));
        }
    }
    proof {
        assert(chars@.take(i as int) =~= chars@);
    }
    text
}

/// Whether two texts hold the same characters.
pub fn same_text(a: &str, b: &str) -> (same: bool)
    ensures
        same == (a@ == b@),
{
    a.to_owned() == b.to_owned()
}

/// Whether `chars` spells `word`.
pub fn spells(chars: &[char], word: &str) -> (same: bool)
    ensures
        same == (chars@ == word@),
{
    string_of(chars) == word.to_owned()
}

// ---------------------------------------------------------------------------------------------
// Splitting
// ---------------------------------------------------------------------------------------------

/// Index of the first `sep` in `s`, or the length of `s` when there is none.
pub open spec fn position<T>(s: Seq<T>, sep: T) -> int
    decreases s.len(),
{
    if s.len() == 0 || s[0] == sep {
        0
    } else {
        1 + position(s.drop_first(), sep)
    }
}

pub proof fn lemma_position<T>(s: Seq<T>, sep: T)
    ensures
        0 <= position(s, sep) <= s.len(),
        forall|j: int| 0 <= j < position(s, sep) ==> s[j] != sep,
        position(s, sep) < s.len() ==> s[position(s, sep)] == sep,
    decreases s.len(),
{
    if s.len() == 0 || s[0] == sep {
    } else {
        lemma_position(s.drop_first(), sep);
        assert forall|j: int| 0 <= j < position(s, sep) implies s[j] != sep by {
            if j > 0 {
                assert(s.drop_first()[j - 1] == s[j]);
            }
        }
    }
}

pub proof fn lemma_position_is<T>(s: Seq<T>, sep: T, i: int)
    requires
        0 <= i <= s.len(),
        forall|j: int| 0 <= j < i ==> s[j] != sep,
        i < s.len() ==> s[i] == sep,
    ensures
        position(s, sep) == i,
{
    lemma_position(s, sep);
    let p = position(s, sep);
    if p < i {
        assert(s[p] != sep);
    } else if i < p {
        assert(s[i] != sep);
    }
}

/// The pieces of `s` between separators; `s` without a separator is one piece.
pub open spec fn split<T>(s: Seq<T>, sep: T) -> Seq<Seq<T>>
    decreases s.len(),
{
    let at = position(s, sep);
    if 0 <= at < s.len() {
        seq![s.take(at)] + split(s.skip(at + 1), sep)
    } else {
        seq![s]
    }
}

/// Index of the first `sep` at or after `from`, or the length of `s`.
pub fn find_char(s: &[char], from: usize, sep: char) -> (at: usize)
    requires
        from <= s@.len(),
    ensures
        from <= at <= s@.len(),
        at - from == position(s@.skip(from as int), sep),
        forall|j: int| from <= j < at ==> s@[j] != sep,
        at < s@.len() ==> s@[at as int] == sep,
{
    let mut at = from;
    while at < s.len() && s[at] != sep
        invariant
            from <= at <= s@.len(),
            forall|j: int| from <= j < at ==> s@[j] != sep,
        decreases s@.len() - at,
    {
        at = at + 1;
    }
    proof {
        let rest = s@.skip(from as int);
        assert forall|j: int| 0 <= j < at - from implies rest[j] != sep by {
            assert(rest[j] == s@[from + j]);
        }
        lemma_position_is(rest, sep, at - from);
    }
    at
}

/// Index of the first `sep` byte at or after `from`, or the length of `s`.
pub fn find_byte(s: &[u8], from: usize, sep: u8) -> (at: usize)
    requires
        from <= s@.len(),
    ensures
        from <= at <= s@.len(),
        at - from == position(s@.skip(from as int), sep),
        forall|j: int| from <= j < at ==> s@[j] != sep,
        at < s@.len() ==> s@[at as int] == sep,
{
    let mut at = from;
    while at < s.len() && s[at] != sep
        invariant
            from <= at <= s@.len(),
            forall|j: int| from <= j < at ==> s@[j] != sep,
        decreases s@.len() - at,
    {
        at = at + 1;
    }
    proof {
        let rest = s@.skip(from as int);
        assert forall|j: int| 0 <= j < at - from implies rest[j] != sep by {
            assert(rest[j] == s@[from + j]);
        }
        lemma_position_is(rest, sep, at - from);
    }
    at
}

/// What the slices of `pieces` hold.
pub open spec fn contents<T>(pieces: Seq<&[T]>) -> Seq<Seq<T>> {
    pieces.map_values(|piece: &[T]| piece@)
}

pub proof fn lemma_contents_push<T>(pieces: Seq<&[T]>, piece: &[T])
    ensures
        contents(pieces.push(piece)) == contents(pieces).push(piece@),
{
    assert(contents(pieces.push(piece)) =~= contents(pieces).push(piece@));
}

/// The pieces of `bytes` between `sep` bytes.
pub fn split_bytes<'a>(bytes: &'a [u8], sep: u8) -> (pieces: Vec<&'a [u8]>)
    ensures
        contents(pieces@) == split(bytes@, sep),
{
    let mut pieces: Vec<&'a [u8]> = Vec::new();
    let mut start: usize = 0;
    proof {
        assert(bytes@.skip(0) =~= bytes@);
        assert(contents(pieces@) + split(bytes@.skip(0), sep) =~= split(bytes@, sep));
    }
    loop
        invariant
            start <= bytes@.len(),
            contents(pieces@) + split(bytes@.skip(start as int), sep) == split(bytes@, sep),
        decreases bytes@.len() - start,
    {
        let at = find_byte(bytes, start, sep);
        let piece = slice_subrange(bytes, start, at);
        let ghost rest = bytes@.skip(start as int);
        let ghost before = contents(pieces@);
        pieces.push(piece);
        proof {
            lemma_contents_push(pieces@.drop_last(), piece);
            assert(pieces@.drop_last().push(piece) =~= pieces@);
            assert(rest.take(at - start) =~= piece@);
        }
        if at == bytes.len() {
            proof {
                assert(rest =~= piece@);
                assert(split(rest, sep) =~= seq![piece@]);
                assert(before + seq![piece@] =~= before.push(piece@));
            }
            return pieces;
        }
        proof {
            assert(rest.skip(at - start + 1) =~= bytes@.skip(at + 1));
            let more = split(bytes@.skip(at + 1), sep);
            assert(before + (seq![piece@] + more) =~= before.push(piece@) + more);
        }
        start = at + 1;
    }
}

/// The two sides of the first `sep` in `s`.
pub open spec fn split_once(s: Seq<char>, sep: char) -> Option<(Seq<char>, Seq<char>)> {
    let at = position(s, sep);
    if at < s.len() {
        Some((s.take(at), s.skip(at + 1)))
    } else {
        None
    }
}

/// The two sides of the first `sep` in `s`.
pub fn split_at_char<'a>(s: &'a [char], sep: char) -> (parts: Option<(&'a [char], &'a [char])>)
    ensures
        match parts {
            Some((left, right)) => split_once(s@, sep) == Some((left@, right@)),
            None => split_once(s@, sep) is None,
        },
{
    let at = find_char(s, 0, sep);
    proof {
        assert(s@.skip(0) =~= s@);
    }
    if at == s.len() {
        return None;
    }
    let left = slice_subrange(s, 0, at);
    let right = slice_subrange(s, at + 1, s.len());
    proof {
        assert(left@ =~= s@.take(at as int));
        assert(right@ =~= s@.skip(at + 1));
    }
    Some((left, right))
}

/// Index of the first place where `s` continues with `word`, or `-1`.
pub open spec fn find(s: Seq<char>, word: Seq<char>) -> int
    decreases s.len(),
{
    if word.is_prefix_of(s) {
        0
    } else if s.len() == 0 {
        -1
    } else {
        let later = find(s.drop_first(), word);
        if later < 0 {
            -1
        } else {
            later + 1
        }
    }
}

/// `word` occurs somewhere in `s`.
pub open spec fn contains(s: Seq<char>, word: Seq<char>) -> bool {
    find(s, word) >= 0
}

/// `word` stands in `s` at index `i`.
pub open spec fn occurs_at(s: Seq<char>, word: Seq<char>, i: int) -> bool {
    0 <= i <= s.len() - word.len() && s.subrange(i, i + word.len()) == word
}

/// [`contains`] holds exactly when some stretch of `s` equals `word`, and [`find`] is the index of
/// the first one.
pub proof fn the_first_occurrence_is_found(s: Seq<char>, word: Seq<char>)
    ensures
        contains(s, word) <==> exists|i: int| occurs_at(s, word, i),
        contains(s, word) ==> occurs_at(s, word, find(s, word)),
        forall|i: int| 0 <= i && occurs_at(s, word, i) ==> 0 <= find(s, word) <= i,
    decreases s.len(),
{
    if word.is_prefix_of(s) {
        assert(s.subrange(0, 0int + word.len()) =~= word);
        assert(occurs_at(s, word, 0));
    } else if s.len() > 0 {
        let rest = s.drop_first();
        the_first_occurrence_is_found(rest, word);
        if find(rest, word) >= 0 {
            let i = find(rest, word);
            assert(s.subrange(i + 1, i + 1 + word.len()) =~= rest.subrange(i, i + word.len()));
            assert(occurs_at(s, word, i + 1));
        }
        assert forall|i: int| 0 <= i && occurs_at(s, word, i) implies 0 <= find(s, word) <= i by {
            if i == 0 {
                assert(s.subrange(0, 0int + word.len()) =~= s.subrange(0, word.len() as int));
            } else {
                assert(rest.subrange(i - 1, i - 1 + word.len()) =~= s.subrange(i, i + word.len()));
                assert(occurs_at(rest, word, i - 1));
            }
        }
    } else {
        assert forall|i: int| 0 <= i && occurs_at(s, word, i) implies false by {
            assert(s.subrange(i, i + word.len()) =~= s);
        }
    }
}

/// Whether `s` holds `word` at index `at`.
fn holds_at(s: &[char], at: usize, word: &[char]) -> (holds: bool)
    requires
        at <= s@.len(),
    ensures
        holds == word@.is_prefix_of(s@.skip(at as int)),
{
    let len = s.len();
    if len - at < word.len() {
        return false;
    }
    let mut i: usize = 0;
    let ghost rest = s@.skip(at as int);
    while i < word.len()
        invariant
            i <= word@.len(),
            len == s@.len(),
            at + word@.len() <= len,
            rest == s@.skip(at as int),
            forall|j: int| 0 <= j < i ==> rest[j] == word@[j],
        decreases word@.len() - i,
    {
        if s[at + i] != word[i] {
            proof {
                assert(rest[i as int] != word@[i as int]);
                assert(!(word@ =~= rest.subrange(0, word@.len() as int))) by {
                    assert(rest.subrange(0, word@.len() as int)[i as int] == rest[i as int]);
                }
            }
            return false;
        }
        i = i + 1;
    }
    proof {
        assert(word@ =~= rest.subrange(0, word@.len() as int));
    }
    true
}

/// Index of the first place where `s` continues with `word`.
pub fn find_word(s: &[char], word: &[char]) -> (at: Option<usize>)
    ensures
        match at {
            Some(i) => i == find(s@, word@) && i + word@.len() <= s@.len(),
            None => find(s@, word@) < 0,
        },
{
    let mut at: usize = 0;
    proof {
        assert(s@.skip(0) =~= s@);
    }
    loop
        invariant
            at <= s@.len(),
            find(s@, word@) == {
                let later = find(s@.skip(at as int), word@);
                if later < 0 {
                    -1
                } else {
                    later + at
                }
            },
        decreases s@.len() - at,
    {
        if holds_at(s, at, word) {
            return Some(at);
        }
        if at == s.len() {
            return None;
        }
        proof {
            assert(s@.skip(at as int).drop_first() =~= s@.skip(at + 1));
        }
        at = at + 1;
    }
}

/// The text of `s` after `prefix`.
pub open spec fn strip_prefix(s: Seq<char>, prefix: Seq<char>) -> Option<Seq<char>> {
    if prefix.is_prefix_of(s) {
        Some(s.skip(prefix.len() as int))
    } else {
        None
    }
}

/// The text of `s` before `suffix`.
pub open spec fn strip_suffix(s: Seq<char>, suffix: Seq<char>) -> Option<Seq<char>> {
    if suffix.is_suffix_of(s) {
        Some(s.take(s.len() - suffix.len()))
    } else {
        None
    }
}

pub fn without_prefix<'a>(s: &'a [char], prefix: &str) -> (rest: Option<&'a [char]>)
    ensures
        match rest {
            Some(r) => strip_prefix(s@, prefix@) == Some(r@),
            None => strip_prefix(s@, prefix@) is None,
        },
{
    let word = chars_of(prefix);
    proof {
        assert(s@.skip(0) =~= s@);
    }
    if holds_at(s, 0, &word) {
        let rest = slice_subrange(s, word.len(), s.len());
        proof {
            assert(rest@ =~= s@.skip(word@.len() as int));
        }
        Some(rest)
    } else {
        None
    }
}

pub fn without_suffix<'a>(s: &'a [char], suffix: &str) -> (rest: Option<&'a [char]>)
    ensures
        match rest {
            Some(r) => strip_suffix(s@, suffix@) == Some(r@),
            None => strip_suffix(s@, suffix@) is None,
        },
{
    let word = chars_of(suffix);
    if s.len() < word.len() {
        return None;
    }
    let cut = s.len() - word.len();
    if holds_at(s, cut, &word) {
        let rest = slice_subrange(s, 0, cut);
        proof {
            assert(s@.skip(cut as int) =~= s@.subrange(cut as int, s@.len() as int));
            assert(s@.skip(cut as int).subrange(0, word@.len() as int) =~= s@.skip(cut as int));
            assert(rest@ =~= s@.take(cut as int));
        }
        Some(rest)
    } else {
        proof {
            assert(s@.skip(cut as int) =~= s@.subrange(cut as int, s@.len() as int));
            assert(s@.skip(cut as int).subrange(0, word@.len() as int) =~= s@.skip(cut as int));
        }
        None
    }
}

// ---------------------------------------------------------------------------------------------
// Lines, words, white space
// ---------------------------------------------------------------------------------------------

/// A line without the carriage return that stood before its line feed.
pub open spec fn without_return(line: Seq<char>) -> Seq<char> {
    if line.len() > 0 && line.last() == '\r' {
        line.drop_last()
    } else {
        line
    }
}

/// The lines of `s`: each ends with a line feed or a carriage return and a line feed, which are
/// not part of it; the last line may lack the ending.
pub open spec fn lines(s: Seq<char>) -> Seq<Seq<char>>
    decreases s.len(),
{
    let at = position(s, '\n');
    if s.len() == 0 {
        Seq::empty()
    } else if 0 <= at < s.len() {
        seq![without_return(s.take(at))] + lines(s.skip(at + 1))
    } else {
        seq![s]
    }
}

/// The lines of `s`.
pub fn lines_of<'a>(s: &'a [char]) -> (found: Vec<&'a [char]>)
    ensures
        contents(found@) == lines(s@),
{
    let mut found: Vec<&'a [char]> = Vec::new();
    let mut start: usize = 0;
    proof {
        assert(s@.skip(0) =~= s@);
        assert(contents(found@) + lines(s@.skip(0)) =~= lines(s@));
    }
    while start < s.len()
        invariant
            start <= s@.len(),
            contents(found@) + lines(s@.skip(start as int)) == lines(s@),
        decreases s@.len() - start,
    {
        let at = find_char(s, start, '\n');
        let ghost rest = s@.skip(start as int);
        let ghost before = contents(found@);
        if at == s.len() {
            let line = slice_subrange(s, start, at);
            found.push(line);
            proof {
                lemma_contents_push(found@.drop_last(), line);
                assert(found@.drop_last().push(line) =~= found@);
                assert(line@ =~= rest);
                assert(before + seq![rest] =~= before.push(rest));
            }
            return found;
        }
        let end = if at > start && s[at - 1] == '\r' {
            at - 1
        } else {
            at
        };
        let line = slice_subrange(s, start, end);
        found.push(line);
        proof {
            lemma_contents_push(found@.drop_last(), line);
            assert(found@.drop_last().push(line) =~= found@);
            assert(line@ =~= without_return(rest.take(at - start)));
            assert(rest.skip(at - start + 1) =~= s@.skip(at + 1));
            let more = lines(s@.skip(at + 1));
            assert(before + (seq![line@] + more) =~= before.push(line@) + more);
        }
        start = at + 1;
    }
    proof {
        assert(s@.skip(start as int) =~= Seq::empty());
        assert(contents(found@) + Seq::<Seq<char>>::empty() =~= contents(found@));
    }
    found
}

/// The characters with Unicode's `White_Space` property.
pub open spec fn is_white(c: char) -> bool {
    ||| '\t' <= c <= '\r'
    ||| c == ' '
    ||| c == '\u{85}'
    ||| c == '\u{A0}'
    ||| c == '\u{1680}'
    ||| '\u{2000}' <= c <= '\u{200A}'
    ||| c == '\u{2028}'
    ||| c == '\u{2029}'
    ||| c == '\u{202F}'
    ||| c == '\u{205F}'
    ||| c == '\u{3000}'
}

pub fn white(c: char) -> (white: bool)
    ensures
        white == is_white(c),
{
    ('\t' <= c && c <= '\r') || c == ' ' || c == '\u{85}' || c == '\u{A0}' || c == '\u{1680}' || (
    '\u{2000}' <= c && c <= '\u{200A}') || c == '\u{2028}' || c == '\u{2029}' || c == '\u{202F}'
        || c == '\u{205F}' || c == '\u{3000}'
}

/// `s` without the characters that satisfy `drop` at its start.
pub open spec fn trim_start(s: Seq<char>, drop: spec_fn(char) -> bool) -> Seq<char>
    decreases s.len(),
{
    if s.len() > 0 && drop(s[0]) {
        trim_start(s.drop_first(), drop)
    } else {
        s
    }
}

/// `s` without the characters that satisfy `drop` at its end.
pub open spec fn trim_end(s: Seq<char>, drop: spec_fn(char) -> bool) -> Seq<char>
    decreases s.len(),
{
    if s.len() > 0 && drop(s.last()) {
        trim_end(s.drop_last(), drop)
    } else {
        s
    }
}

/// `s` without white space around it.
pub open spec fn trim(s: Seq<char>) -> Seq<char> {
    trim_end(trim_start(s, |c: char| is_white(c)), |c: char| is_white(c))
}

/// `s` without slashes around it.
pub open spec fn trim_slashes(s: Seq<char>) -> Seq<char> {
    trim_end(trim_start(s, |c: char| c == '/'), |c: char| c == '/')
}

/// What is dropped at the start is the longest run that satisfies `drop`.
pub proof fn lemma_trim_start(s: Seq<char>, drop: spec_fn(char) -> bool, n: int)
    requires
        0 <= n <= s.len(),
        forall|j: int| 0 <= j < n ==> drop(s[j]),
        n < s.len() ==> !drop(s[n]),
    ensures
        trim_start(s, drop) == s.skip(n),
    decreases s.len(),
{
    if n > 0 {
        let rest = s.drop_first();
        assert forall|j: int| 0 <= j < n - 1 implies drop(rest[j]) by {
            assert(rest[j] == s[j + 1]);
        }
        lemma_trim_start(rest, drop, n - 1);
        assert(rest.skip(n - 1) =~= s.skip(n));
    } else {
        assert(s.skip(0) =~= s);
    }
}

/// What is dropped at the end is the longest run that satisfies `drop`.
pub proof fn lemma_trim_end(s: Seq<char>, drop: spec_fn(char) -> bool, n: int)
    requires
        0 <= n <= s.len(),
        forall|j: int| n <= j < s.len() ==> drop(s[j]),
        n > 0 ==> !drop(s[n - 1]),
    ensures
        trim_end(s, drop) == s.take(n),
    decreases s.len(),
{
    if n < s.len() {
        lemma_trim_end(s.drop_last(), drop, n);
        assert(s.drop_last().take(n) =~= s.take(n));
    } else {
        assert(s.take(n) =~= s);
    }
}

pub fn trimmed<'a>(s: &'a [char]) -> (inner: &'a [char])
    ensures
        inner@ == trim(s@),
{
    let ghost drop = |c: char| is_white(c);
    let mut start: usize = 0;
    while start < s.len() && white(s[start])
        invariant
            start <= s@.len(),
            drop == (|c: char| is_white(c)),
            forall|j: int| 0 <= j < start ==> drop(#[trigger] s@[j]),
        decreases s@.len() - start,
    {
        start = start + 1;
    }
    let mut end: usize = s.len();
    while end > start && white(s[end - 1])
        invariant
            start <= end <= s@.len(),
            drop == (|c: char| is_white(c)),
            forall|j: int| end <= j < s@.len() ==> drop(#[trigger] s@[j]),
        decreases end,
    {
        end = end - 1;
    }
    let inner = slice_subrange(s, start, end);
    proof {
        lemma_trim_start(s@, drop, start as int);
        let rest = s@.skip(start as int);
        assert forall|j: int| end - start <= j < rest.len() implies drop(#[trigger] rest[j]) by {
            assert(rest[j] == s@[start + j]);
        }
        if end > start {
            assert(rest[end - start - 1] == s@[end - 1]);
        }
        lemma_trim_end(rest, drop, end - start);
        assert(inner@ =~= rest.take(end - start));
    }
    inner
}

/// `s` without slashes at its start.
pub fn after_slashes<'a>(s: &'a [char]) -> (rest: &'a [char])
    ensures
        rest@ == trim_start(s@, |c: char| c == '/'),
{
    let ghost drop = |c: char| c == '/';
    let mut start: usize = 0;
    while start < s.len() && s[start] == '/'
        invariant
            start <= s@.len(),
            drop == (|c: char| c == '/'),
            forall|j: int| 0 <= j < start ==> drop(#[trigger] s@[j]),
        decreases s@.len() - start,
    {
        start = start + 1;
    }
    let rest = slice_subrange(s, start, s.len());
    proof {
        lemma_trim_start(s@, drop, start as int);
        assert(rest@ =~= s@.skip(start as int));
    }
    rest
}

/// `s` without slashes around it.
pub fn without_slashes<'a>(s: &'a [char]) -> (inner: &'a [char])
    ensures
        inner@ == trim_slashes(s@),
{
    let ghost drop = |c: char| c == '/';
    let mut start: usize = 0;
    while start < s.len() && s[start] == '/'
        invariant
            start <= s@.len(),
            drop == (|c: char| c == '/'),
            forall|j: int| 0 <= j < start ==> drop(#[trigger] s@[j]),
        decreases s@.len() - start,
    {
        start = start + 1;
    }
    let mut end: usize = s.len();
    while end > start && s[end - 1] == '/'
        invariant
            start <= end <= s@.len(),
            drop == (|c: char| c == '/'),
            forall|j: int| end <= j < s@.len() ==> drop(#[trigger] s@[j]),
        decreases end,
    {
        end = end - 1;
    }
    let inner = slice_subrange(s, start, end);
    proof {
        lemma_trim_start(s@, drop, start as int);
        let rest = s@.skip(start as int);
        assert forall|j: int| end - start <= j < rest.len() implies drop(#[trigger] rest[j]) by {
            assert(rest[j] == s@[start + j]);
        }
        if end > start {
            assert(rest[end - start - 1] == s@[end - 1]);
        }
        lemma_trim_end(rest, drop, end - start);
        assert(inner@ =~= rest.take(end - start));
    }
    inner
}

/// The words of `s`: its longest stretches without white space.
pub open spec fn words(s: Seq<char>) -> Seq<Seq<char>>
    decreases s.len(),
{
    if s.len() == 0 {
        Seq::empty()
    } else if is_white(s[0]) {
        words(s.drop_first())
    } else {
        let end = word_end(s);
        if 0 < end <= s.len() {
            seq![s.take(end)] + words(s.skip(end))
        } else {
            Seq::empty()
        }
    }
}

/// Index of the first white space in `s`, or the length of `s`.
pub open spec fn word_end(s: Seq<char>) -> int
    decreases s.len(),
{
    if s.len() == 0 || is_white(s[0]) {
        0
    } else {
        1 + word_end(s.drop_first())
    }
}

proof fn lemma_word_end(s: Seq<char>, n: int)
    requires
        0 <= n <= s.len(),
        forall|j: int| 0 <= j < n ==> !is_white(#[trigger] s[j]),
        n < s.len() ==> is_white(s[n]),
    ensures
        word_end(s) == n,
    decreases s.len(),
{
    if n > 0 {
        let rest = s.drop_first();
        assert(!is_white(s[0]));
        assert forall|j: int| 0 <= j < n - 1 implies !is_white(#[trigger] rest[j]) by {
            assert(rest[j] == s[j + 1]);
        }
        lemma_word_end(rest, n - 1);
    }
}

/// The words of `s`.
pub fn words_of<'a>(s: &'a [char]) -> (found: Vec<&'a [char]>)
    ensures
        contents(found@) == words(s@),
{
    let mut found: Vec<&'a [char]> = Vec::new();
    let mut at: usize = 0;
    proof {
        assert(s@.skip(0) =~= s@);
        assert(contents(found@) + words(s@.skip(0)) =~= words(s@));
    }
    while at < s.len()
        invariant
            at <= s@.len(),
            contents(found@) + words(s@.skip(at as int)) == words(s@),
        decreases s@.len() - at,
    {
        let ghost rest = s@.skip(at as int);
        if white(s[at]) {
            proof {
                assert(rest.drop_first() =~= s@.skip(at + 1));
            }
            at = at + 1;
        } else {
            let mut end: usize = at + 1;
            while end < s.len() && !white(s[end])
                invariant
                    at < end <= s@.len(),
                    forall|j: int| at <= j < end ==> !is_white(#[trigger] s@[j]),
                decreases s@.len() - end,
            {
                end = end + 1;
            }
            let word = slice_subrange(s, at, end);
            let ghost before = contents(found@);
            found.push(word);
            proof {
                assert forall|j: int| 0 <= j < end - at implies !is_white(#[trigger] rest[j]) by {
                    assert(rest[j] == s@[at + j]);
                }
                if end < s@.len() {
                    assert(rest[end - at] == s@[end as int]);
                }
                lemma_word_end(rest, end - at);
                lemma_contents_push(found@.drop_last(), word);
                assert(found@.drop_last().push(word) =~= found@);
                assert(word@ =~= rest.take(end - at));
                assert(rest.skip(end - at) =~= s@.skip(end as int));
                let more = words(s@.skip(end as int));
                assert(before + (seq![word@] + more) =~= before.push(word@) + more);
            }
            at = end;
        }
    }
    proof {
        assert(s@.skip(at as int) =~= Seq::empty());
        assert(contents(found@) + Seq::<Seq<char>>::empty() =~= contents(found@));
    }
    found
}

// ---------------------------------------------------------------------------------------------
// Letters
// ---------------------------------------------------------------------------------------------

/// An ASCII capital as a small letter; other characters as they are.
pub open spec fn lower(c: char) -> char {
    if 'A' <= c <= 'Z' {
        (c as u8 + 32) as u8 as char
    } else {
        c
    }
}

/// `s` with its ASCII capitals as small letters.
pub open spec fn lowercase(s: Seq<char>) -> Seq<char> {
    s.map_values(|c: char| lower(c))
}

pub fn lower_char(c: char) -> (l: char)
    ensures
        l == lower(c),
{
    if 'A' <= c && c <= 'Z' {
        (c as u8 + 32) as char
    } else {
        c
    }
}

/// `s` with its ASCII capitals as small letters.
pub fn lowercased(s: &[char]) -> (l: Vec<char>)
    ensures
        l@ == lowercase(s@),
{
    let mut l: Vec<char> = Vec::new();
    let mut i: usize = 0;
    while i < s.len()
        invariant
            i <= s@.len(),
            l@ == lowercase(s@).take(i as int),
        decreases s@.len() - i,
    {
        l.push(lower_char(s[i]));
        i = i + 1;
        proof {
            assert(l@ =~= lowercase(s@).take(i as int));
        }
    }
    proof {
        assert(lowercase(s@).take(i as int) =~= lowercase(s@));
    }
    l
}

// ---------------------------------------------------------------------------------------------
// Numbers
// ---------------------------------------------------------------------------------------------

/// The character of a decimal digit.
pub open spec fn digit(d: int) -> char {
    if d == 0 { '0' } else if d == 1 { '1' } else if d == 2 { '2' } else if d == 3 { '3' }
    else if d == 4 { '4' } else if d == 5 { '5' } else if d == 6 { '6' } else if d == 7 { '7' }
    else if d == 8 { '8' } else { '9' }
}

/// The value of a decimal digit.
pub open spec fn digit_value(c: char) -> int {
    c as int - '0' as int
}

pub open spec fn is_digit(c: char) -> bool {
    '0' <= c <= '9'
}

/// `n` in decimal, without leading zeros.
pub open spec fn decimal(n: nat) -> Seq<char>
    decreases n,
{
    if n < 10 {
        seq![digit(n as int)]
    } else {
        decimal(n / 10).push(digit((n % 10) as int))
    }
}

/// The number that a run of decimal digits stands for.
pub open spec fn value(digits: Seq<char>) -> int
    decreases digits.len(),
{
    if digits.len() == 0 {
        0
    } else {
        10 * value(digits.drop_last()) + digit_value(digits.last())
    }
}

/// Only decimal digits, and at least one.
pub open spec fn all_digits(s: Seq<char>) -> bool {
    s.len() > 0 && forall|i: int| 0 <= i < s.len() ==> is_digit(#[trigger] s[i])
}

/// The `u64` that `s` spells: decimal digits, with a plus sign allowed in front.
pub open spec fn parse_u64(s: Seq<char>) -> Option<u64> {
    let digits = if s.len() > 0 && s[0] == '+' {
        s.drop_first()
    } else {
        s
    };
    if all_digits(digits) && value(digits) <= u64::MAX {
        Some(value(digits) as u64)
    } else {
        None
    }
}

fn digit_char(d: u64) -> (c: char)
    requires
        d < 10,
    ensures
        c == digit(d as int),
{
    if d == 0 { '0' } else if d == 1 { '1' } else if d == 2 { '2' } else if d == 3 { '3' }
    else if d == 4 { '4' } else if d == 5 { '5' } else if d == 6 { '6' } else if d == 7 { '7' }
    else if d == 8 { '8' } else { '9' }
}

/// `n` in decimal.
pub fn decimal_of(n: u64) -> (text: String)
    ensures
        text@ == decimal(n as nat),
    decreases n,
{
    let mut text = if n < 10 {
        String::new()
    } else {
        decimal_of(n / 10)
    };
    text.push(digit_char(n % 10));
    proof {
        if n < 10 {
            assert(text@ =~= seq![digit(n as int)]);
        }
    }
    text
}

proof fn lemma_value_grows(digits: Seq<char>, n: int)
    requires
        0 <= n <= digits.len(),
        forall|i: int| 0 <= i < digits.len() ==> is_digit(#[trigger] digits[i]),
    ensures
        0 <= value(digits.take(n)) <= value(digits),
    decreases digits.len(),
{
    if n == digits.len() {
        assert(digits.take(n) =~= digits);
        if n > 0 {
            lemma_value_grows(digits.drop_last(), n - 1);
            assert(digits.drop_last().take(n - 1) =~= digits.drop_last());
        }
    } else {
        lemma_value_grows(digits.drop_last(), n);
        assert(digits.drop_last().take(n) =~= digits.take(n));
        assert(is_digit(digits[digits.len() - 1]));
    }
}

/// The `u64` that `s` spells.
pub fn number_of(s: &[char]) -> (n: Option<u64>)
    ensures
        n == parse_u64(s@),
{
    let from: usize = if s.len() > 0 && s[0] == '+' {
        1
    } else {
        0
    };
    let ghost digits = s@.skip(from as int);
    proof {
        if from == 1 {
            assert(digits =~= s@.drop_first());
        } else {
            assert(digits =~= s@);
        }
    }
    if from == s.len() {
        return None;
    }
    let mut total: u64 = 0;
    let mut i: usize = from;
    while i < s.len()
        invariant
            from <= i <= s@.len(),
            digits == s@.skip(from as int),
            digits.len() > 0,
            parse_u64(s@) == (if all_digits(digits) && value(digits) <= u64::MAX {
                Some(value(digits) as u64)
            } else {
                None::<u64>
            }),
            forall|j: int| 0 <= j < i - from ==> is_digit(#[trigger] digits[j]),
            total == value(digits.take(i - from)),
        decreases s@.len() - i,
    {
        let c = s[i];
        proof {
            assert(digits[i - from] == c);
            assert(digits.take(i - from + 1).drop_last() =~= digits.take(i - from));
            assert(digits.take(i - from + 1).last() == c);
        }
        if c < '0' || '9' < c {
            return None;
        }
        let d: u64 = (c as u32 - '0' as u32) as u64;
        proof {
            if all_digits(digits) {
                lemma_value_grows(digits, i - from + 1);
            }
            assert(value(digits.take(i - from + 1)) == 10 * total + d);
        }
        if total > (u64::MAX - d) / 10 {
            return None;
        }
        total = total * 10 + d;
        i = i + 1;
    }
    proof {
        assert(digits.take(i - from) =~= digits);
    }
    Some(total)
}

/// A number written in decimal reads back as itself.
pub proof fn decimal_reads_back(n: u64)
    ensures
        parse_u64(decimal(n as nat)) == Some(n),
{
    lemma_decimal(n as nat);
    let s = decimal(n as nat);
    assert(is_digit(s[0]));
}

pub proof fn lemma_decimal(n: nat)
    ensures
        all_digits(decimal(n)),
        value(decimal(n)) == n,
    decreases n,
{
    if n < 10 {
        let s = decimal(n);
        assert(s.drop_last() =~= Seq::empty());
        assert(value(s.drop_last()) == 0);
    } else {
        lemma_decimal(n / 10);
        let s = decimal(n);
        assert(s.drop_last() =~= decimal(n / 10));
        assert forall|i: int| 0 <= i < s.len() implies is_digit(#[trigger] s[i]) by {
            if i < s.len() - 1 {
                assert(s[i] == decimal(n / 10)[i]);
            }
        }
    }
}

} // verus!
