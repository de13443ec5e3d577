//! Unix paths as text. Two texts name the same path when they have the same components:
//! repeated and trailing slashes do not count, nor does a `.` except at the very start.
use vstd::prelude::*;
use vstd::slice::slice_subrange;

use crate::text::{
    chars_of, find_char, lemma_position, lemma_position_is, position, same_text, split, string_of,
};

pub mod laws;

verus! {

/// The path starts at the root directory.
pub open spec fn rooted(path: Seq<char>) -> bool {
    path.len() > 0 && path[0] == '/'
}

/// Where the component that starts at `from` ends: at the next slash or the end of the text.
pub open spec fn part_end(path: Seq<char>, from: int) -> int {
    from + position(path.skip(from), '/')
}

/// The text between `from` and `end` is a component: not empty, and not a `.` past the start.
pub open spec fn is_part(path: Seq<char>, from: int, end: int) -> bool {
    from < end && !(end == from + 1 && path[from] == '.' && from > 0)
}

/// Start and end of every component at or after `from`.
pub open spec fn parts_from(path: Seq<char>, from: int) -> Seq<(int, int)>
    decreases path.len() + 1 - from,
{
    if 0 <= from < path.len() {
        let end = part_end(path, from);
        proof {
            lemma_position(path.skip(from), '/');
        }
        let rest = parts_from(path, end + 1);
        if is_part(path, from, end) {
            seq![(from, end)] + rest
        } else {
            rest
        }
    } else {
        Seq::empty()
    }
}

/// Start and end of every component; the root directory is a component of its own.
pub open spec fn spans(path: Seq<char>) -> Seq<(int, int)> {
    if rooted(path) {
        seq![(0int, 1int)] + parts_from(path, 1)
    } else {
        parts_from(path, 0)
    }
}

/// The texts of the components of `path`.
pub open spec fn components(path: Seq<char>) -> Seq<Seq<char>> {
    spans(path).map_values(|span: (int, int)| path.subrange(span.0, span.1))
}

/// Both texts name the same path.
pub open spec fn same_path(a: Seq<char>, b: Seq<char>) -> bool {
    components(a) == components(b)
}

/// `path` relative to `base`: its text past the components of `base`.
pub open spec fn strip_base(path: Seq<char>, base: Seq<char>) -> Option<Seq<char>> {
    let n = components(base).len() as int;
    if components(base).is_prefix_of(components(path)) {
        Some(
            if n == spans(path).len() {
                Seq::empty()
            } else {
                path.subrange(spans(path)[n].0, spans(path).last().1)
            },
        )
    } else {
        None
    }
}

/// `path` seen from inside `base`; an absolute path stays as it is.
pub open spec fn join(base: Seq<char>, path: Seq<char>) -> Seq<char> {
    if rooted(path) {
        path
    } else if base.len() > 0 && base.last() != '/' {
        base.push('/') + path
    } else {
        base + path
    }
}

/// The last component, unless it is the root, `.` or `..`.
pub open spec fn file_name(path: Seq<char>) -> Option<Seq<char>> {
    let parts = components(path);
    if parts.len() == 0 || parts.last() == "/"@ || parts.last() == "."@ || parts.last() == ".."@ {
        None
    } else {
        Some(parts.last())
    }
}

/// `path` without its last component; the root and the empty path have no parent.
pub open spec fn parent(path: Seq<char>) -> Option<Seq<char>> {
    let all = spans(path);
    if all.len() == 0 || components(path).last() == "/"@ {
        None
    } else if all.len() == 1 {
        Some(Seq::empty())
    } else {
        Some(path.take(all[all.len() - 2].1))
    }
}

/// How long the stem of a file name is: up to its last dot, unless that dot is its first character.
pub open spec fn stem_len(name: Seq<char>) -> int {
    stem_len_of(name, name.len() as int)
}

/// The stem length, looking for the last dot before `end`.
pub open spec fn stem_len_of(name: Seq<char>, end: int) -> int
    decreases end,
{
    if end <= 1 {
        name.len() as int
    } else if name[end - 1] == '.' {
        end - 1
    } else {
        stem_len_of(name, end - 1)
    }
}

/// `path` with `extension` in place of the extension of its file name, if it has a file name.
pub open spec fn with_extension(path: Seq<char>, extension: Seq<char>) -> Seq<char> {
    match file_name(path) {
        Some(name) => path.take(spans(path).last().0 + stem_len(name)).push('.') + extension,
        None => path,
    }
}

/// Every component lies inside the text, and they come in order.
pub proof fn lemma_parts(path: Seq<char>, from: int)
    requires
        0 <= from,
    ensures
        forall|i: int|
            0 <= i < parts_from(path, from).len() ==> from <= (#[trigger] parts_from(path, from)[i]).0
                < parts_from(path, from)[i].1 <= path.len(),
        forall|i: int, j: int|
            0 <= i < j < parts_from(path, from).len() ==> (#[trigger] parts_from(path, from)[i]).1
                < (#[trigger] parts_from(path, from)[j]).0,
    decreases path.len() + 1 - from,
{
    if from < path.len() {
        let end = part_end(path, from);
        lemma_position(path.skip(from), '/');
        lemma_parts(path, end + 1);
        let rest = parts_from(path, end + 1);
        let all = parts_from(path, from);
        if is_part(path, from, end) {
            assert(all == seq![(from, end)] + rest);
            assert forall|i: int| 0 <= i < all.len() implies from <= (#[trigger] all[i]).0
                < all[i].1 <= path.len() by {
                if i > 0 {
                    assert(all[i] == rest[i - 1]);
                }
            }
            assert forall|i: int, j: int| 0 <= i < j < all.len() implies (#[trigger] all[i]).1 < (
            #[trigger] all[j]).0 by {
                assert(all[j] == rest[j - 1]);
                if i > 0 {
                    assert(all[i] == rest[i - 1]);
                }
            }
        }
    }
}

/// Every component of `path` lies inside its text, and they come in order.
pub proof fn lemma_spans(path: Seq<char>)
    ensures
        forall|i: int|
            0 <= i < spans(path).len() ==> 0 <= (#[trigger] spans(path)[i]).0 < spans(path)[i].1
                <= path.len(),
        forall|i: int, j: int|
            0 <= i < j < spans(path).len() ==> (#[trigger] spans(path)[i]).1 <= (
            #[trigger] spans(path)[j]).0,
{
    lemma_parts(path, 0);
    lemma_parts(path, 1);
    let all = spans(path);
    if rooted(path) {
        let rest = parts_from(path, 1);
        assert forall|i: int| 0 <= i < all.len() implies 0 <= (#[trigger] all[i]).0 < all[i].1
            <= path.len() by {
            if i > 0 {
                assert(all[i] == rest[i - 1]);
            }
        }
        assert forall|i: int, j: int| 0 <= i < j < all.len() implies (#[trigger] all[i]).1 <= (
        #[trigger] all[j]).0 by {
            assert(all[j] == rest[j - 1]);
            if i > 0 {
                assert(all[i] == rest[i - 1]);
            }
        }
    }
}

/// Machine-sized spans as mathematical ones.
spec fn as_spans(found: Seq<(usize, usize)>) -> Seq<(int, int)> {
    found.map_values(|span: (usize, usize)| (span.0 as int, span.1 as int))
}

fn spans_of(path: &[char]) -> (found: Vec<(usize, usize)>)
    ensures
        as_spans(found@) == spans(path@),
{
    let mut found: Vec<(usize, usize)> = Vec::new();
    let mut from: usize = 0;
    if path.len() > 0 && path[0] == '/' {
        found.push((0, 1));
        from = 1;
    }
    proof {
        assert(as_spans(found@) + parts_from(path@, from as int) =~= spans(path@));
    }
    while from < path.len()
        invariant
            as_spans(found@) + parts_from(path@, from as int) == spans(path@),
        decreases path@.len() - from,
    {
        let end = find_char(path, from, '/');
        let ghost before = as_spans(found@);
        if from < end && !(end == from + 1 && path[from] == '.' && from > 0) {
            found.push((from, end));
            proof {
                let rest = parts_from(path@, end + 1);
                assert(as_spans(found@) =~= before.push((from as int, end as int)));
                assert(before + (seq![(from as int, end as int)] + rest) =~= before.push(
                    (from as int, end as int),
                ) + rest);
            }
        }
        if end == path.len() {
            proof {
                assert(parts_from(path@, end + 1) =~= Seq::empty());
                assert(as_spans(found@) + Seq::<(int, int)>::empty() =~= as_spans(found@));
            }
            return found;
        }
        from = end + 1;
    }
    proof {
        assert(as_spans(found@) + Seq::<(int, int)>::empty() =~= as_spans(found@));
    }
    found
}

/// Whether the first components of `path` are exactly those of `base`.
fn starts_with(
    path: &[char],
    path_spans: &Vec<(usize, usize)>,
    base: &[char],
    base_spans: &Vec<(usize, usize)>,
) -> (starts: bool)
    requires
        as_spans(path_spans@) == spans(path@),
        as_spans(base_spans@) == spans(base@),
    ensures
        starts == components(base@).is_prefix_of(components(path@)),
{
    if base_spans.len() > path_spans.len() {
        return false;
    }
    let ghost p = components(path@);
    let ghost b = components(base@);
    let mut i: usize = 0;
    while i < base_spans.len()
        invariant
            i <= base_spans@.len() <= path_spans@.len(),
            as_spans(path_spans@) == spans(path@),
            as_spans(base_spans@) == spans(base@),
            p == components(path@),
            b == components(base@),
            forall|j: int| 0 <= j < i ==> p[j] == b[j],
        decreases base_spans@.len() - i,
    {
        let (p_from, p_end) = path_spans[i];
        let (b_from, b_end) = base_spans[i];
        proof {
            lemma_spans(path@);
            lemma_spans(base@);
            assert(as_spans(path_spans@)[i as int] == (p_from as int, p_end as int));
            assert(as_spans(base_spans@)[i as int] == (b_from as int, b_end as int));
        }
        let p_part = string_of(slice_subrange(path, p_from, p_end));
        let b_part = string_of(slice_subrange(base, b_from, b_end));
        proof {
            assert(p[i as int] == p_part@);
            assert(b[i as int] == b_part@);
        }
        if !(p_part == b_part) {
            proof {
                assert(!b.is_prefix_of(p)) by {
                    assert(p.subrange(0, b.len() as int)[i as int] == p[i as int]);
                }
            }
            return false;
        }
        i = i + 1;
    }
    proof {
        assert(b =~= p.subrange(0, b.len() as int));
    }
    true
}

/// Whether both texts name the same path.
pub fn paths_equal(a: &str, b: &str) -> (same: bool)
    ensures
        same == same_path(a@, b@),
{
    let a_chars = chars_of(a);
    let b_chars = chars_of(b);
    let a_spans = spans_of(&a_chars);
    let b_spans = spans_of(&b_chars);
    if a_spans.len() != b_spans.len() {
        proof {
            assert(components(a@).len() == a_spans@.len());
            assert(components(b@).len() == b_spans@.len());
        }
        return false;
    }
    let same = starts_with(&a_chars, &a_spans, &b_chars, &b_spans);
    proof {
        assert(components(a@).subrange(0, components(b@).len() as int) =~= components(a@));
    }
    same
}

/// `path` relative to `base`, when it lies in it.
pub fn relative_to(path: &str, base: &str) -> (rest: Option<String>)
    ensures
        match rest {
            Some(r) => strip_base(path@, base@) == Some(r@),
            None => strip_base(path@, base@) is None,
        },
{
    let chars = chars_of(path);
    let base_chars = chars_of(base);
    let path_spans = spans_of(&chars);
    let base_spans = spans_of(&base_chars);
    if !starts_with(&chars, &path_spans, &base_chars, &base_spans) {
        return None;
    }
    let n = base_spans.len();
    if n == path_spans.len() {
        return Some(String::new());
    }
    let from = path_spans[n].0;
    let end = path_spans[path_spans.len() - 1].1;
    proof {
        lemma_spans(path@);
        let all = spans(path@);
        assert(all[n as int] == (path_spans@[n as int].0 as int, path_spans@[n as int].1 as int));
        assert(all.last() == (
            path_spans@[path_spans@.len() - 1].0 as int,
            path_spans@[path_spans@.len() - 1].1 as int,
        ));
        if n < all.len() - 1 {
            assert(all[n as int].1 <= all[all.len() - 1].0);
        }
    }
    Some(string_of(slice_subrange(&chars, from, end)))
}

/// `path` seen from inside `base`.
pub fn joined(base: &str, path: &str) -> (whole: String)
    ensures
        whole@ == join(base@, path@),
{
    let path_chars = chars_of(path);
    if path_chars.len() > 0 && path_chars[0] == '/' {
        return path.to_owned();
    }
    let base_chars = chars_of(base);
    let mut whole = base.to_owned();
    if base_chars.len() > 0 && base_chars[base_chars.len() - 1] != '/' {
        whole.push('/');
    }
    whole.append(path);
    whole
}

/// Whether the path starts at the root directory.
pub fn is_rooted(path: &str) -> (is: bool)
    ensures
        is == rooted(path@),
{
    let chars = chars_of(path);
    chars.len() > 0 && chars[0] == '/'
}

/// The last component of `path`, if it names a file or directory.
pub fn name_of(path: &str) -> (name: Option<String>)
    ensures
        match name {
            Some(n) => file_name(path@) == Some(n@),
            None => file_name(path@) is None,
        },
{
    let chars = chars_of(path);
    let found = spans_of(&chars);
    proof {
        assert(components(path@).len() == found@.len());
    }
    if found.len() == 0 {
        return None;
    }
    let (from, end) = found[found.len() - 1];
    proof {
        lemma_spans(path@);
        assert(spans(path@).last() == (from as int, end as int));
    }
    let name = string_of(slice_subrange(&chars, from, end));
    if same_text(&name, "/") || same_text(&name, ".") || same_text(&name, "..") {
        None
    } else {
        Some(name)
    }
}

/// `path` without its last component.
pub fn parent_of(path: &str) -> (above: Option<String>)
    ensures
        match above {
            Some(p) => parent(path@) == Some(p@),
            None => parent(path@) is None,
        },
{
    let chars = chars_of(path);
    let found = spans_of(&chars);
    proof {
        assert(components(path@).len() == found@.len());
    }
    if found.len() == 0 {
        return None;
    }
    let (from, end) = found[found.len() - 1];
    proof {
        lemma_spans(path@);
        assert(spans(path@).last() == (from as int, end as int));
    }
    if same_text(&string_of(slice_subrange(&chars, from, end)), "/") {
        return None;
    }
    if found.len() == 1 {
        return Some(String::new());
    }
    let cut = found[found.len() - 2].1;
    proof {
        let i = found@.len() - 2;
        assert(spans(path@)[i] == (found@[i].0 as int, found@[i].1 as int));
        assert(path@.subrange(0, cut as int) =~= path@.take(cut as int));
    }
    Some(string_of(slice_subrange(&chars, 0, cut)))
}

/// `path` with `extension` in place of the extension of its file name.
pub fn extended(path: &str, extension: &str) -> (changed: String)
    ensures
        changed@ == with_extension(path@, extension@),
{
    let name = match name_of(path) {
        Some(name) => chars_of(&name),
        None => {
            return path.to_owned();
        },
    };
    let chars = chars_of(path);
    let found = spans_of(&chars);
    let mut end = name.len();
    let mut stem = name.len();
    while end > 1
        invariant_except_break
            end <= name@.len(),
            stem == name@.len(),
            stem_len(name@) == stem_len_of(name@, end as int),
        ensures
            stem == stem_len(name@),
            stem <= name@.len(),
        decreases end,
    {
        if name[end - 1] == '.' {
            stem = end - 1;
            break;
        }
        end = end - 1;
    }
    let from = found[found.len() - 1].0;
    proof {
        lemma_spans(path@);
        assert(spans(path@).last() == (
            found@[found@.len() - 1].0 as int,
            found@[found@.len() - 1].1 as int,
        ));
        assert(path@.subrange(0, from + stem) =~= path@.take(from + stem));
    }
    let mut changed = string_of(slice_subrange(&chars, 0, from + stem));
    changed.push('.');
    changed.append(extension);
    changed
}

// ---------------------------------------------------------------------------------------------
// Components of joined and stripped paths
// ---------------------------------------------------------------------------------------------

/// The pieces between slashes that are components: neither empty nor a dot.
pub open spec fn kept(pieces: Seq<Seq<char>>) -> Seq<Seq<char>>
    decreases pieces.len(),
{
    if pieces.len() == 0 {
        Seq::empty()
    } else {
        let rest = kept(pieces.drop_first());
        if pieces[0].len() == 0 || pieces[0] == seq!['.'] {
            rest
        } else {
            seq![pieces[0]] + rest
        }
    }
}

/// The texts of parts of a path.
pub open spec fn texts(path: Seq<char>, parts: Seq<(int, int)>) -> Seq<Seq<char>> {
    parts.map_values(|span: (int, int)| path.subrange(span.0, span.1))
}

proof fn lemma_kept_adds(a: Seq<Seq<char>>, b: Seq<Seq<char>>)
    ensures
        kept(a + b) == kept(a) + kept(b),
    decreases a.len(),
{
    if a.len() == 0 {
        assert(a + b =~= b);
        assert(kept(a) + kept(b) =~= kept(b));
    } else {
        lemma_kept_adds(a.drop_first(), b);
        assert((a + b).drop_first() =~= a.drop_first() + b);
        assert(kept(a + b) =~= kept(a) + kept(b));
    }
}

/// A slash between two texts separates their pieces.
proof fn lemma_split_at_slash(a: Seq<char>, b: Seq<char>)
    ensures
        split(a.push('/') + b, '/') == split(a, '/') + split(b, '/'),
    decreases a.len(),
{
    let whole = a.push('/') + b;
    let p = position(a, '/');
    lemma_position(a, '/');
    assert(forall|j: int| 0 <= j < a.len() ==> whole[j] == a[j]);
    assert(whole[a.len() as int] == '/');
    lemma_position_is(whole, '/', p);
    assert(whole.take(p) =~= a.take(p));
    if p < a.len() {
        let rest = a.skip(p + 1);
        lemma_split_at_slash(rest, b);
        assert(whole.skip(p + 1) =~= rest.push('/') + b);
        assert(split(whole, '/') =~= split(a, '/') + split(b, '/'));
    } else {
        assert(a.take(p) =~= a);
        assert(whole.skip(p + 1) =~= b);
        assert(split(whole, '/') =~= split(a, '/') + split(b, '/'));
    }
}

/// Past the start of a path, its components are the kept pieces.
proof fn lemma_parts_are_kept(path: Seq<char>, from: int)
    requires
        1 <= from <= path.len(),
    ensures
        texts(path, parts_from(path, from)) == kept(split(path.skip(from), '/')),
    decreases path.len() - from,
{
    let here = path.skip(from);
    let p = position(here, '/');
    lemma_position(here, '/');
    let pieces = split(here, '/');
    if from == path.len() {
        assert(pieces =~= seq![here]);
        assert(pieces.drop_first() =~= Seq::empty());
        assert(kept(pieces.drop_first()) == Seq::<Seq<char>>::empty());
        assert(texts(path, parts_from(path, from)) =~= kept(pieces));
    } else {
        let end = from + p;
        let rest = parts_from(path, end + 1);
        let first = path.subrange(from, end);
        assert(here.take(p) =~= first);
        if p < here.len() {
            lemma_parts_are_kept(path, end + 1);
            assert(here.skip(p + 1) =~= path.skip(end + 1));
            assert(pieces =~= seq![first] + split(path.skip(end + 1), '/'));
            assert(pieces.drop_first() =~= split(path.skip(end + 1), '/'));
        } else {
            assert(here =~= first);
            assert(pieces =~= seq![first]);
            assert(pieces.drop_first() =~= Seq::empty());
            assert(texts(path, rest) =~= Seq::empty());
        }
        assert(texts(path, rest) == kept(pieces.drop_first()));
        assert((first == seq!['.']) == (end == from + 1 && path[from] == '.')) by {
            if end == from + 1 && path[from] == '.' {
                assert(first =~= seq!['.']);
            }
            if first == seq!['.'] {
                assert(first.len() == 1);
                assert(first[0] == '.');
            }
        }
        assert(is_part(path, from, end) == !(first.len() == 0 || first == seq!['.']));
        if is_part(path, from, end) {
            assert(texts(path, seq![(from, end)] + rest) =~= seq![first] + texts(path, rest));
        }
    }
}

/// The components of an absolute path, and of a relative one.
proof fn lemma_components(path: Seq<char>)
    ensures
        rooted(path) ==> components(path) == seq![seq!['/']] + kept(split(path.skip(1), '/')),
        !rooted(path) && path.len() > 0 ==> ({
            let p = position(path, '/');
            &&& 0 < p <= path.len()
            &&& components(path) == seq![path.take(p)] + if p < path.len() {
                kept(split(path.skip(p + 1), '/'))
            } else {
                Seq::empty()
            }
        }),
{
    lemma_position(path, '/');
    if rooted(path) {
        lemma_parts_are_kept(path, 1);
        assert(path.subrange(0, 1) =~= seq!['/']);
        assert(components(path) =~= seq![seq!['/']] + texts(path, parts_from(path, 1)));
    } else if path.len() > 0 {
        let p = position(path, '/');
        assert(path.skip(0) =~= path);
        assert(part_end(path, 0) == p);
        let rest = parts_from(path, p + 1);
        assert(path.subrange(0, p) =~= path.take(p));
        assert(components(path) =~= seq![path.take(p)] + texts(path, rest));
        if p < path.len() {
            lemma_parts_are_kept(path, p + 1);
        } else {
            assert(texts(path, rest) =~= Seq::empty());
        }
    }
}

/// A path seen from inside a directory has the components of both, one after the other.
pub proof fn joining_adds_components(base: Seq<char>, path: Seq<char>)
    requires
        base.len() > 0,
        !rooted(path),
    ensures
        components(join(base, path)) == components(base) + kept(split(path, '/')),
{
    let whole = join(base, path);
    lemma_components(base);
    lemma_components(whole);
    lemma_position(base, '/');
    assert(forall|j: int| 0 <= j < base.len() ==> whole[j] == base[j]);
    let none = Seq::<char>::empty();
    assert(kept(split(none, '/')) =~= Seq::empty()) by {
        assert(split(none, '/') =~= seq![none]);
        assert(split(none, '/').drop_first() =~= Seq::empty());
        assert(kept(split(none, '/').drop_first()) == Seq::<Seq<char>>::empty());
    }
    // The text of `base` behind its first component.
    let start = if rooted(base) {
        1
    } else {
        position(base, '/') + 1
    };
    if !rooted(base) {
        let p = position(base, '/');
        if p < base.len() {
            lemma_position_is(whole, '/', p);
        } else {
            assert(whole[p] == '/');
            lemma_position_is(whole, '/', p);
        }
        assert(whole.take(p) =~= base.take(p));
    }
    if start > base.len() {
        assert(whole.skip(start) =~= path);
        assert(components(whole) =~= components(base) + kept(split(path, '/')));
    } else {
        let rest = base.skip(start);
        if base.last() == '/' {
            if rest.len() == 0 {
                assert(rest =~= none);
                assert(whole.skip(start) =~= path);
            } else {
                let inner = rest.drop_last();
                assert(rest =~= inner.push('/') + none);
                assert(whole.skip(start) =~= inner.push('/') + path);
                lemma_split_at_slash(inner, none);
                lemma_split_at_slash(inner, path);
                lemma_kept_adds(split(inner, '/'), split(none, '/'));
                lemma_kept_adds(split(inner, '/'), split(path, '/'));
                assert(kept(split(inner, '/')) + Seq::<Seq<char>>::empty() =~= kept(
                    split(inner, '/'),
                ));
            }
        } else {
            assert(whole.skip(start) =~= rest.push('/') + path);
            lemma_split_at_slash(rest, path);
            lemma_kept_adds(split(rest, '/'), split(path, '/'));
        }
        assert(kept(split(whole.skip(start), '/')) =~= kept(split(rest, '/')) + kept(
            split(path, '/'),
        ));
        assert(components(whole) =~= components(base) + kept(split(path, '/')));
    }
}

/// The parts from some part on are the parts from its start on; no part starts with a slash.
proof fn lemma_parts_tail(path: Seq<char>, from: int, k: int)
    requires
        0 <= from,
        0 <= k < parts_from(path, from).len(),
    ensures
        parts_from(path, parts_from(path, from)[k].0) == parts_from(path, from).skip(k),
        0 <= parts_from(path, from)[k].0 < path.len(),
        path[parts_from(path, from)[k].0] != '/',
    decreases path.len() + 1 - from,
{
    let all = parts_from(path, from);
    let end = part_end(path, from);
    lemma_position(path.skip(from), '/');
    let rest = parts_from(path, end + 1);
    if is_part(path, from, end) {
        if k == 0 {
            assert(all.skip(0) =~= all);
            assert(path.skip(from)[0] == path[from]);
        } else {
            assert(all[k] == rest[k - 1]);
            lemma_parts_tail(path, end + 1, k - 1);
            assert(all.skip(k) =~= rest.skip(k - 1));
        }
    } else {
        lemma_parts_tail(path, end + 1, k);
    }
}

/// Behind the last part there is a slash or nothing, and no further part.
proof fn lemma_parts_end(path: Seq<char>, from: int)
    requires
        0 <= from,
        parts_from(path, from).len() > 0,
    ensures
        ({
            let end = parts_from(path, from).last().1;
            &&& from < end <= path.len()
            &&& end < path.len() ==> path[end] == '/'
            &&& parts_from(path, end + 1).len() == 0
        }),
    decreases path.len() + 1 - from,
{
    let end = part_end(path, from);
    lemma_position(path.skip(from), '/');
    let rest = parts_from(path, end + 1);
    if rest.len() > 0 {
        lemma_parts_end(path, end + 1);
        assert(parts_from(path, from).last() == rest.last());
    } else if end < path.len() {
        assert(path.skip(from)[end - from] == path[end]);
    }
}

/// The text past the first `n` components has the other components.
proof fn lemma_rest_components(path: Seq<char>, n: int)
    requires
        1 <= n < spans(path).len(),
    ensures
        ({
            let rest = path.subrange(spans(path)[n].0, spans(path).last().1);
            &&& rest.len() > 0
            &&& !rooted(rest)
            &&& kept(split(rest, '/')) == components(path).skip(n)
        }),
{
    lemma_spans(path);
    let all = spans(path);
    let at = all[n].0;
    assert(all[0].1 <= all[n].0);
    let (from, k) = if rooted(path) {
        (1int, n - 1)
    } else {
        (0int, n)
    };
    let parts = parts_from(path, from);
    assert(parts[k] == all[n]);
    lemma_parts_tail(path, from, k);
    lemma_parts_end(path, from);
    assert(parts.last() == all.last());
    let end = all.last().1;
    assert(all.skip(n) =~= parts.skip(k));
    lemma_parts_are_kept(path, at);
    assert(components(path).skip(n) =~= texts(path, all.skip(n)));
    let rest = path.subrange(at, end);
    assert(all[n].0 < all[n].1);
    if n < all.len() - 1 {
        assert(all[n].1 <= all[all.len() - 1].0);
    }
    assert(rest[0] == path[at]);
    if end < path.len() {
        let tail = path.skip(end + 1);
        lemma_parts_are_kept(path, end + 1);
        assert(kept(split(tail, '/')) =~= Seq::empty());
        assert(path.skip(at) =~= rest.push('/') + tail);
        lemma_split_at_slash(rest, tail);
        lemma_kept_adds(split(rest, '/'), split(tail, '/'));
        assert(kept(split(rest, '/')) + Seq::<Seq<char>>::empty() =~= kept(split(rest, '/')));
    } else {
        assert(path.skip(at) =~= rest);
    }
}

/// A path that was made relative to a directory and is then seen from inside that directory is the
/// same path; what was left of it does not start at the root.
pub proof fn joining_undoes_stripping(path: Seq<char>, base: Seq<char>)
    requires
        base.len() > 0,
        strip_base(path, base) is Some,
    ensures
        ({
            let rest = strip_base(path, base)->Some_0;
            if rest.len() == 0 {
                same_path(base, path)
            } else {
                !rooted(rest) && same_path(join(base, rest), path)
            }
        }),
{
    let n = components(base).len() as int;
    lemma_components(base);
    assert(n >= 1);
    if n == spans(path).len() {
        assert(components(base) =~= components(path));
    } else {
        lemma_rest_components(path, n);
        let rest = strip_base(path, base)->Some_0;
        joining_adds_components(base, rest);
        assert(components(base) + components(path).skip(n) =~= components(path));
    }
}

// ---------------------------------------------------------------------------------------------
// Extensions
// ---------------------------------------------------------------------------------------------

/// With other text in place of its last part, a path keeps its other parts.
proof fn lemma_last_part_replaced(path: Seq<char>, from: int, at: int, name: Seq<char>)
    requires
        0 <= from <= at,
        parts_from(path, from).len() > 0,
        parts_from(path, from).last().0 == at,
        name.len() > 1,
        forall|j: int| 0 <= j < name.len() ==> name[j] != '/',
    ensures
        ({
            let changed = path.take(at) + name;
            parts_from(changed, from) == parts_from(path, from).drop_last().push(
                (at, changed.len() as int),
            )
        }),
    decreases path.len() + 1 - from,
{
    let changed = path.take(at) + name;
    let all = parts_from(path, from);
    let end = part_end(path, from);
    lemma_parts(path, from);
    lemma_position(path.skip(from), '/');
    let rest = parts_from(path, end + 1);
    assert(at < path.len());
    if from == at {
        if all.len() > 1 {
            assert(all[0].0 < all[0].1);
            assert(all[0].1 < all[all.len() - 1].0);
            assert(from <= all[0].0);
        }
        assert(all.len() == 1);
        let here = changed.skip(from);
        assert(here =~= name);
        lemma_position_is(here, '/', name.len() as int);
        assert(part_end(changed, from) == changed.len());
        assert(is_part(changed, from, changed.len() as int));
        assert(parts_from(changed, changed.len() as int + 1) == Seq::<(int, int)>::empty());
        assert(parts_from(changed, from) =~= all.drop_last().push((at, changed.len() as int)));
    } else {
        lemma_parts(path, end + 1);
        if rest.len() == 0 {
            assert(all =~= seq![(from, end)]);
            assert(false);
        }
        assert(all.last() == rest.last());
        assert(end + 1 <= at) by {
            assert(rest[rest.len() - 1].0 >= end + 1);
        }
        assert(path.skip(from)[end - from] == '/');
        let here = changed.skip(from);
        assert forall|j: int| 0 <= j <= end - from implies here[j] == path.skip(from)[j] by {
            assert(here[j] == changed[from + j]);
            assert(path.skip(from)[j] == path[from + j]);
        }
        lemma_position_is(here, '/', end - from);
        assert(part_end(changed, from) == end);
        assert(changed[from] == path[from]);
        assert(is_part(changed, from, end) == is_part(path, from, end));
        lemma_last_part_replaced(path, end + 1, at, name);
        assert(parts_from(changed, from) =~= all.drop_last().push((at, changed.len() as int)));
    }
}

/// The stem of a name ends at its last dot.
proof fn lemma_stem(name: Seq<char>, end: int)
    requires
        0 < name.len(),
        0 <= end <= name.len(),
        forall|j: int| end <= j < name.len() ==> name[j] != '.',
    ensures
        0 < stem_len_of(name, end) <= name.len(),
        forall|j: int| stem_len_of(name, end) < j < name.len() ==> name[j] != '.',
    decreases end,
{
    if end > 1 && name[end - 1] != '.' {
        lemma_stem(name, end - 1);
    }
}

/// A path with another extension names a file in the same directory: only the last component
/// changes, to its stem, a dot and the extension.
pub proof fn an_extension_stays_in_its_directory(path: Seq<char>, extension: Seq<char>)
    requires
        file_name(path) is Some,
        forall|j: int| 0 <= j < extension.len() ==> extension[j] != '/',
    ensures
        ({
            let name = file_name(path)->Some_0;
            let changed = with_extension(path, extension);
            &&& spans(changed) == spans(path).drop_last().push(
                (spans(path).last().0, changed.len() as int),
            )
            &&& components(changed).last() == name.take(stem_len(name)).push('.') + extension
            &&& parent(changed) == parent(path)
        }),
{
    reveal_strlit("/");
    lemma_spans(path);
    lemma_parts(path, 0);
    lemma_parts(path, 1);
    let all = spans(path);
    let (at, end) = all.last();
    let name = path.subrange(at, end);
    assert(components(path).last() == name);
    assert(all[all.len() - 1] == (at, end));
    lemma_stem(name, name.len() as int);
    let stem = stem_len(name);
    let fresh = name.take(stem).push('.') + extension;
    let changed = with_extension(path, extension);
    assert(changed =~= path.take(at) + fresh);
    // The last component is not the root, so it is a part, and parts hold no slash.
    if rooted(path) && all.len() == 1 {
        assert(path.subrange(0, 1) =~= "/"@);
        assert(false);
    }
    let from = if rooted(path) {
        1int
    } else {
        0int
    };
    let parts = parts_from(path, from);
    assert(parts.last() == all.last());
    lemma_part_holds_no_slash(path, from, parts.len() - 1);
    assert forall|j: int| 0 <= j < fresh.len() implies fresh[j] != '/' by {
        if j < stem {
            assert(fresh[j] == path[at + j]);
        } else if j > stem {
            assert(fresh[j] == extension[j - stem - 1]);
        }
    }
    lemma_last_part_replaced(path, from, at, fresh);
    assert(changed[0] == if at > 0 {
        path[0]
    } else {
        fresh[0]
    });
    assert(rooted(changed) == rooted(path));
    let new = spans(changed);
    assert(new =~= all.drop_last().push((at, changed.len() as int)));
    assert(changed.subrange(at, changed.len() as int) =~= fresh);
    assert(components(changed).last() == fresh);
    assert(fresh != "/"@) by {
        assert(fresh[0] != '/');
    }
    if all.len() > 1 {
        let before = all[all.len() - 2];
        assert(new[new.len() - 2] == before);
        assert(before.1 <= at);
        assert(changed.take(before.1) =~= path.take(before.1));
    }
}

proof fn lemma_part_holds_no_slash(path: Seq<char>, from: int, k: int)
    requires
        0 <= from,
        0 <= k < parts_from(path, from).len(),
    ensures
        ({
            let (start, end) = parts_from(path, from)[k];
            forall|j: int| start <= j < end ==> path[j] != '/'
        }),
    decreases path.len() + 1 - from,
{
    let end = part_end(path, from);
    lemma_position(path.skip(from), '/');
    let rest = parts_from(path, end + 1);
    if is_part(path, from, end) {
        if k > 0 {
            assert(parts_from(path, from)[k] == rest[k - 1]);
            lemma_part_holds_no_slash(path, end + 1, k - 1);
        } else {
            assert forall|j: int| from <= j < end implies path[j] != '/' by {
                assert(path.skip(from)[j - from] == path[j]);
            }
        }
    } else {
        lemma_part_holds_no_slash(path, end + 1, k);
    }
}

/// A path whose extension has a dot in it never names the file it was made from.
pub proof fn a_dotted_extension_changes_the_path(
    path: Seq<char>,
    extension: Seq<char>,
    dot: int,
)
    requires
        file_name(path) is Some,
        forall|j: int| 0 <= j < extension.len() ==> extension[j] != '/',
        0 <= dot < extension.len(),
        extension[dot] == '.',
    ensures
        with_extension(path, extension) != path,
        !same_path(with_extension(path, extension), path),
{
    an_extension_stays_in_its_directory(path, extension);
    let name = file_name(path)->Some_0;
    let changed = with_extension(path, extension);
    lemma_spans(path);
    let last = spans(path)[spans(path).len() - 1];
    assert(name == path.subrange(last.0, last.1));
    lemma_stem(name, name.len() as int);
    if same_path(changed, path) {
        let stem = stem_len(name);
        let fresh = name.take(stem).push('.') + extension;
        assert(name == fresh);
        assert(fresh[stem + 1 + dot] == '.');
        assert(name[stem + 1 + dot] != '.');
    }
}

} // verus!
