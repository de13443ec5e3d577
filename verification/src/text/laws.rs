//! What splitting, trimming, comparing and number reading amount to on every text.
use vstd::prelude::*;

use super::{
    decimal, digit, is_digit, is_white, lemma_decimal, lemma_position_is, lemma_trim_end,
    lemma_trim_start, lines, lowercase, parse_u64, split, split_once, strip_prefix, strip_suffix,
    trim, trim_slashes, trim_start, value, word_end, words,
};

verus! {

/// `s` does not hold `x`.
pub open spec fn free_of<T>(s: Seq<T>, x: T) -> bool {
    forall|i: int| 0 <= i < s.len() ==> s[i] != x
}

/// Nothing but white space.
pub open spec fn blank(s: Seq<char>) -> bool {
    forall|i: int| 0 <= i < s.len() ==> is_white(#[trigger] s[i])
}

/// No white space at all.
pub open spec fn solid(s: Seq<char>) -> bool {
    forall|i: int| 0 <= i < s.len() ==> !is_white(#[trigger] s[i])
}

/// The pieces of a text come apart at every separator and nowhere else.
pub proof fn splitting_comes_apart_at_separators<T>(a: Seq<T>, b: Seq<T>, sep: T)
    requires
        free_of(a, sep),
    ensures
        split(a, sep) == seq![a],
        split(a.push(sep) + b, sep) == seq![a] + split(b, sep),
{
    lemma_position_is(a, sep, a.len() as int);
    let whole = a.push(sep) + b;
    assert(whole[a.len() as int] == sep);
    assert forall|j: int| 0 <= j < a.len() implies whole[j] != sep by {
        assert(whole[j] == a[j]);
    }
    lemma_position_is(whole, sep, a.len() as int);
    assert(whole.take(a.len() as int) =~= a);
    assert(whole.skip(a.len() as int + 1) =~= b);
}

/// A text is split once at its first separator; without one it is not split.
pub proof fn splitting_once_is_at_the_first_separator(a: Seq<char>, b: Seq<char>, sep: char)
    requires
        free_of(a, sep),
    ensures
        split_once(a, sep) is None,
        split_once(a.push(sep) + b, sep) == Some((a, b)),
{
    splitting_comes_apart_at_separators(a, b, sep);
    lemma_position_is(a, sep, a.len() as int);
    let whole = a.push(sep) + b;
    assert(whole[a.len() as int] == sep);
    assert forall|j: int| 0 <= j < a.len() implies whole[j] != sep by {
        assert(whole[j] == a[j]);
    }
    lemma_position_is(whole, sep, a.len() as int);
    assert(whole.take(a.len() as int) =~= a);
    assert(whole.skip(a.len() as int + 1) =~= b);
}

/// A line ends at its line feed, which is not part of it, nor is a carriage return right before it;
/// what follows are further lines. A last line may lack the ending, and no text has no lines.
pub proof fn lines_end_at_line_feeds(line: Seq<char>, rest: Seq<char>)
    requires
        free_of(line, '\n'),
    ensures
        line.len() == 0 || line.last() != '\r' ==> lines(line.push('\n') + rest) == seq![line]
            + lines(rest),
        lines(line.push('\r').push('\n') + rest) == seq![line] + lines(rest),
        line.len() > 0 ==> lines(line) == seq![line],
        lines(Seq::empty()) == Seq::<Seq<char>>::empty(),
{
    let a = line.push('\n') + rest;
    let n = line.len() as int;
    assert(a[n] == '\n');
    assert forall|j: int| 0 <= j < n implies a[j] != '\n' by {
        assert(a[j] == line[j]);
    }
    lemma_position_is(a, '\n', n);
    assert(a.take(n) =~= line);
    assert(a.skip(n + 1) =~= rest);
    let ended = line.push('\r');
    let b = ended.push('\n') + rest;
    assert(b[n + 1] == '\n');
    assert forall|j: int| 0 <= j < n + 1 implies b[j] != '\n' by {
        if j < n {
            assert(b[j] == line[j]);
        } else {
            assert(b[j] == '\r');
        }
    }
    lemma_position_is(b, '\n', n + 1);
    assert(b.take(n + 1) =~= ended);
    assert(ended.drop_last() =~= line);
    assert(b.skip(n + 2) =~= rest);
    lemma_position_is(line, '\n', n);
}

/// The text that git or a user writes for a list of lines, each ended by a line feed.
pub open spec fn written_lines(list: Seq<Seq<char>>) -> Seq<char>
    decreases list.len(),
{
    if list.len() == 0 {
        Seq::empty()
    } else {
        list[0].push('\n') + written_lines(list.drop_first())
    }
}

/// A line that is read as it was written: without a line feed in it or a carriage return at its end.
pub open spec fn plain_line(line: Seq<char>) -> bool {
    free_of(line, '\n') && (line.len() == 0 || line.last() != '\r')
}

/// Lines that were written read back.
pub proof fn written_lines_read_back(list: Seq<Seq<char>>)
    requires
        forall|i: int| 0 <= i < list.len() ==> plain_line(#[trigger] list[i]),
    ensures
        lines(written_lines(list)) == list,
    decreases list.len(),
{
    if list.len() == 0 {
        assert(lines(written_lines(list)) =~= list);
    } else {
        let rest = list.drop_first();
        assert forall|i: int| 0 <= i < rest.len() implies plain_line(#[trigger] rest[i]) by {
            assert(rest[i] == list[i + 1]);
        }
        written_lines_read_back(rest);
        assert(plain_line(list[0]));
        lines_end_at_line_feeds(list[0], written_lines(rest));
        assert(lines(written_lines(list)) =~= list);
    }
}

/// Trimming drops exactly the white space around a text.
pub proof fn trimming_drops_white_space_around(before: Seq<char>, s: Seq<char>, after: Seq<char>)
    requires
        blank(before),
        blank(after),
        s.len() > 0 ==> !is_white(s[0]) && !is_white(s.last()),
    ensures
        trim(before + s + after) == s,
{
    let white = |c: char| is_white(c);
    let all = before + s + after;
    let n = before.len() as int;
    if s.len() == 0 {
        assert forall|j: int| 0 <= j < all.len() implies white(all[j]) by {
            if j < n {
                assert(all[j] == before[j]);
            } else {
                assert(all[j] == after[j - n]);
            }
        }
        lemma_trim_start(all, white, all.len() as int);
        assert(all.skip(all.len() as int) =~= s);
        lemma_trim_end(s, white, 0);
        assert(s.take(0) =~= s);
    } else {
        assert forall|j: int| 0 <= j < n implies white(all[j]) by {
            assert(all[j] == before[j]);
        }
        assert(all[n] == s[0]);
        lemma_trim_start(all, white, n);
        let rest = s + after;
        assert(all.skip(n) =~= rest);
        assert forall|j: int| s.len() <= j < rest.len() implies white(rest[j]) by {
            assert(rest[j] == after[j - s.len()]);
        }
        assert(rest[s.len() - 1] == s.last());
        lemma_trim_end(rest, white, s.len() as int);
        assert(rest.take(s.len() as int) =~= s);
    }
}

/// Trimming slashes drops exactly the slashes around a text.
pub proof fn trimming_drops_slashes_around(before: Seq<char>, s: Seq<char>, after: Seq<char>)
    requires
        forall|i: int| 0 <= i < before.len() ==> before[i] == '/',
        forall|i: int| 0 <= i < after.len() ==> after[i] == '/',
        s.len() > 0 ==> s[0] != '/' && s.last() != '/',
    ensures
        trim_slashes(before + s + after) == s,
        trim_start(before + s + after, |c: char| c == '/') == s + after || s.len() == 0,
        s.len() == 0 ==> trim_start(before + s + after, |c: char| c == '/') == Seq::<char>::empty(),
{
    let slash = |c: char| c == '/';
    let all = before + s + after;
    let n = before.len() as int;
    if s.len() == 0 {
        assert forall|j: int| 0 <= j < all.len() implies slash(all[j]) by {
            if j < n {
                assert(all[j] == before[j]);
            } else {
                assert(all[j] == after[j - n]);
            }
        }
        lemma_trim_start(all, slash, all.len() as int);
        assert(all.skip(all.len() as int) =~= s);
        lemma_trim_end(s, slash, 0);
        assert(s.take(0) =~= s);
    } else {
        assert forall|j: int| 0 <= j < n implies slash(all[j]) by {
            assert(all[j] == before[j]);
        }
        assert(all[n] == s[0]);
        lemma_trim_start(all, slash, n);
        let rest = s + after;
        assert(all.skip(n) =~= rest);
        assert forall|j: int| s.len() <= j < rest.len() implies slash(rest[j]) by {
            assert(rest[j] == after[j - s.len()]);
        }
        assert(rest[s.len() - 1] == s.last());
        lemma_trim_end(rest, slash, s.len() as int);
        assert(rest.take(s.len() as int) =~= s);
    }
}

proof fn lemma_word_end_is(s: Seq<char>, n: int)
    requires
        0 <= n <= s.len(),
        forall|j: int| 0 <= j < n ==> !is_white(s[j]),
        n < s.len() ==> is_white(s[n]),
    ensures
        word_end(s) == n,
    decreases n,
{
    if n > 0 {
        let rest = s.drop_first();
        assert forall|j: int| 0 <= j < n - 1 implies !is_white(rest[j]) by {
            assert(rest[j] == s[j + 1]);
        }
        if n < s.len() {
            assert(rest[n - 1] == s[n]);
        }
        lemma_word_end_is(rest, n - 1);
    }
}

/// The words of a text stand between white space: a word comes first, the words of what follows it
/// after, and white space alone holds none.
pub proof fn words_stand_between_white_space(before: Seq<char>, word: Seq<char>, rest: Seq<char>)
    requires
        blank(before),
        solid(word),
        word.len() > 0,
        rest.len() == 0 || is_white(rest[0]),
    ensures
        words(before) == Seq::<Seq<char>>::empty(),
        words(before + word + rest) == seq![word] + words(rest),
    decreases before.len(),
{
    let all = before + word + rest;
    if before.len() == 0 {
        assert(all =~= word + rest);
        let n = word.len() as int;
        assert forall|j: int| 0 <= j < n implies !is_white(all[j]) by {
            assert(all[j] == word[j]);
        }
        if n < all.len() {
            assert(all[n] == rest[0]);
        }
        lemma_word_end_is(all, n);
        assert(all[0] == word[0]);
        assert(all.take(n) =~= word);
        assert(all.skip(n) =~= rest);
    } else {
        let fewer = before.drop_first();
        assert forall|i: int| 0 <= i < fewer.len() implies is_white(#[trigger] fewer[i]) by {
            assert(fewer[i] == before[i + 1]);
        }
        words_stand_between_white_space(fewer, word, rest);
        assert(all[0] == before[0]);
        assert(all.drop_first() =~= fewer + word + rest);
        assert(is_white(before[0]));
    }
}

/// White space is what Unicode calls so, by code point.
pub proof fn white_space_by_code_point(c: char)
    ensures
        is_white(c) <==> {
            let code = c as u32;
            ||| 9 <= code <= 13
            ||| code == 32
            ||| code == 0x85
            ||| code == 0xA0
            ||| code == 0x1680
            ||| 0x2000 <= code <= 0x200A
            ||| code == 0x2028
            ||| code == 0x2029
            ||| code == 0x202F
            ||| code == 0x205F
            ||| code == 0x3000
        },
{
}

/// Lower case moves the capital letters of ASCII by 32 and leaves every other character alone.
pub proof fn lower_case_by_code_point(s: Seq<char>, i: int)
    requires
        0 <= i < s.len(),
    ensures
        lowercase(s).len() == s.len(),
        65 <= s[i] as u32 <= 90 ==> lowercase(s)[i] as u32 == s[i] as u32 + 32,
        !(65 <= s[i] as u32 <= 90) ==> lowercase(s)[i] == s[i],
{
}

/// A prefix or suffix that is there is taken off, and what does not have it is not cut.
pub proof fn prefixes_and_suffixes_are_taken_off(s: Seq<char>, a: Seq<char>, b: Seq<char>)
    ensures
        strip_prefix(a + b, a) == Some(b),
        strip_suffix(a + b, b) == Some(a),
        strip_prefix(s, a) matches Some(rest) ==> s == a + rest,
        strip_suffix(s, b) matches Some(rest) ==> s == rest + b,
{
    assert((a + b).subrange(0, a.len() as int) =~= a);
    assert(a.is_prefix_of(a + b));
    assert((a + b).skip(a.len() as int) =~= b);
    assert((a + b).subrange((a + b).len() - b.len(), (a + b).len() as int) =~= b);
    assert(b.is_suffix_of(a + b));
    assert((a + b).take((a + b).len() - b.len()) =~= a);
    if let Some(rest) = strip_prefix(s, a) {
        assert(s =~= a + rest);
    }
    if let Some(rest) = strip_suffix(s, b) {
        assert(s =~= rest + b);
    }
}

/// The digits of a number read from left to right, ten times as much per place.
pub proof fn digits_count_by_tens(digits: Seq<char>, c: char)
    requires
        is_digit(c),
    ensures
        48 <= c as u32 <= 57,
        value(Seq::empty()) == 0,
        value(digits.push(c)) == 10 * value(digits) + (c as u32 - 48),
{
    assert(digits.push(c).drop_last() =~= digits);
}

/// A text is read as a number exactly when it is digits, with or without a plus sign in front, and
/// its value fits; then that value is read.
pub proof fn numbers_are_digits(s: Seq<char>, digits: Seq<char>)
    requires
        s == digits || s == seq!['+'] + digits,
        digits.len() > 0,
        forall|i: int| 0 <= i < digits.len() ==> '0' <= #[trigger] digits[i] <= '9',
    ensures
        value(digits) <= u64::MAX ==> parse_u64(s) == Some(value(digits) as u64),
        value(digits) > u64::MAX ==> parse_u64(s) is None,
{
    assert forall|i: int| 0 <= i < digits.len() implies is_digit(#[trigger] digits[i]) by {
        
    }
    if s == digits {
        assert(is_digit(digits[0]));
    } else {
        assert(s.drop_first() =~= digits);
    }
}

/// What is read as a number is at least one digit, with nothing but a plus sign before.
pub proof fn nothing_else_is_a_number(s: Seq<char>)
    ensures
        parse_u64(s) is Some ==> s.len() > 0 && (s[0] == '+' ==> s.len() > 1) && forall|i: int|
            0 <= i < s.len() && !(i == 0 && s[0] == '+') ==> '0' <= #[trigger] s[i] <= '9',
{
    if parse_u64(s) is Some {
        let digits = if s[0] == '+' {
            s.drop_first()
        } else {
            s
        };
        assert forall|i: int| 0 <= i < s.len() && !(i == 0 && s[0] == '+') implies '0' <= #[trigger] s[i] <= '9' by {
            if s[0] == '+' {
                assert(is_digit(digits[i - 1]));
            } else {
                assert(is_digit(digits[i]));
            }
        }
    }
}

/// A number is written with its digits only, without a zero in front of others, and its value is
/// the number.
pub proof fn numbers_are_written_in_decimal(n: nat)
    ensures
        value(decimal(n)) == n,
        decimal(n).len() > 0,
        n >= 10 ==> decimal(n)[0] != '0',
        forall|i: int| 0 <= i < decimal(n).len() ==> '0' <= #[trigger] decimal(n)[i] <= '9',
    decreases n,
{
    lemma_decimal(n);
    assert forall|i: int| 0 <= i < decimal(n).len() implies '0' <= #[trigger] decimal(n)[i] <= '9' by {
        assert(is_digit(decimal(n)[i]));
    }
    if n >= 10 {
        numbers_are_written_in_decimal(n / 10);
        assert(decimal(n)[0] == decimal(n / 10)[0]);
        if n / 10 < 10 {
            assert(decimal(n / 10)[0] == digit((n / 10) as int));
        }
    }
}

} // verus!
