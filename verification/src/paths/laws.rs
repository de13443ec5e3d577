//! What the text of a path says, for every way of writing it.
use vstd::prelude::*;

use super::{
    components, file_name, is_part, join, kept, lemma_components, lemma_kept_adds,
    lemma_part_holds_no_slash, lemma_parts, lemma_spans, lemma_split_at_slash, parent, part_end,
    parts_from, rooted, same_path, spans, stem_len, stem_len_of, strip_base,
};
use crate::text::{lemma_position, lemma_position_is, position, split};

verus! {

// ---------------------------------------------------------------------------------------------
// Components
// ---------------------------------------------------------------------------------------------

/// `name` can be a component past the start of a path: it is not empty, not a dot, and holds no
/// slash.
pub open spec fn is_name(name: Seq<char>) -> bool {
    &&& name.len() > 0
    &&& name != seq!['.']
    &&& forall|i: int| 0 <= i < name.len() ==> #[trigger] name[i] != '/'
}

proof fn lemma_one_piece(name: Seq<char>)
    requires
        forall|i: int| 0 <= i < name.len() ==> #[trigger] name[i] != '/',
    ensures
        split(name, '/') == seq![name],
{
    lemma_position(name, '/');
    assert(position(name, '/') == name.len());
}

proof fn lemma_kept_one(piece: Seq<char>)
    ensures
        kept(seq![piece]) == if piece.len() == 0 || piece == seq!['.'] {
            Seq::empty()
        } else {
            seq![piece]
        },
{
    assert(seq![piece].drop_first() =~= Seq::empty());
    assert(kept(seq![piece].drop_first()) =~= Seq::empty());
    assert(seq![piece] + Seq::<Seq<char>>::empty() =~= seq![piece]);
}

proof fn lemma_behind_a_slash(a: Seq<char>, b: Seq<char>)
    requires
        a.len() > 0,
    ensures
        components(a.push('/') + b) == components(a) + kept(split(b, '/')),
{
    let whole = a.push('/') + b;
    lemma_components(a);
    lemma_components(whole);
    lemma_position(a, '/');
    assert(forall|j: int| 0 <= j < a.len() ==> whole[j] == a[j]);
    assert(whole[a.len() as int] == '/');
    if rooted(a) {
        let rest = a.skip(1);
        assert(whole.skip(1) =~= rest.push('/') + b);
        lemma_split_at_slash(rest, b);
        lemma_kept_adds(split(rest, '/'), split(b, '/'));
        assert(components(whole) =~= components(a) + kept(split(b, '/')));
    } else {
        let p = position(a, '/');
        lemma_position_is(whole, '/', p);
        assert(whole.take(p) =~= a.take(p));
        if p < a.len() {
            let rest = a.skip(p + 1);
            assert(whole.skip(p + 1) =~= rest.push('/') + b);
            lemma_split_at_slash(rest, b);
            lemma_kept_adds(split(rest, '/'), split(b, '/'));
            assert(components(whole) =~= components(a) + kept(split(b, '/')));
        } else {
            assert(whole.skip(p + 1) =~= b);
            assert(components(whole) =~= components(a) + kept(split(b, '/')));
        }
    }
}

/// A name behind a slash is one more component, whatever stands before.
pub proof fn a_slash_separates_components(path: Seq<char>, name: Seq<char>)
    requires
        path.len() > 0,
        is_name(name),
    ensures
        components(path.push('/') + name) == components(path).push(name),
{
    lemma_behind_a_slash(path, name);
    lemma_one_piece(name);
    lemma_kept_one(name);
    assert(components(path) + seq![name] =~= components(path).push(name));
}

/// A path starts with its root or with what stands before its first slash, even a lone dot.
pub proof fn where_a_path_starts(first: Seq<char>)
    requires
        first.len() > 0,
        forall|i: int| 0 <= i < first.len() ==> #[trigger] first[i] != '/',
    ensures
        components(first) == seq![first],
        components(seq!['/']) == seq![seq!['/']],
        components(seq!['/'] + first) == if first == seq!['.'] {
            seq![seq!['/']]
        } else {
            seq![seq!['/'], first]
        },
        components(Seq::empty()).len() == 0,
{
    lemma_components(first);
    lemma_position(first, '/');
    assert(position(first, '/') == first.len());
    assert(first.take(first.len() as int) =~= first);
    assert(components(first) =~= seq![first]);
    let root = seq!['/'];
    lemma_components(root);
    assert(root.skip(1) =~= Seq::empty());
    lemma_one_piece(Seq::empty());
    lemma_kept_one(Seq::empty());
    assert(components(root) =~= seq![root]);
    let whole = root + first;
    lemma_components(whole);
    assert(whole.skip(1) =~= first);
    lemma_one_piece(first);
    lemma_kept_one(first);
    assert(components(whole) =~= if first == seq!['.'] {
        seq![root]
    } else {
        seq![root, first]
    });
}

/// Repeated slashes, a slash at the end and lone dots past the start make no difference.
pub proof fn slashes_and_dots_do_not_count(a: Seq<char>, b: Seq<char>)
    requires
        a.len() > 0,
    ensures
        same_path(a.push('/'), a),
        same_path(a.push('/').push('/') + b, a.push('/') + b),
        same_path(a.push('/').push('.').push('/') + b, a.push('/') + b),
        same_path(a.push('/').push('.'), a),
{
    let none = Seq::<char>::empty();
    let dot = seq!['.'];
    lemma_one_piece(none);
    lemma_one_piece(dot);
    lemma_kept_one(none);
    lemma_kept_one(dot);
    lemma_behind_a_slash(a, none);
    assert(a.push('/') + none =~= a.push('/'));
    assert(components(a) + Seq::<Seq<char>>::empty() =~= components(a));
    lemma_behind_a_slash(a.push('/'), b);
    lemma_behind_a_slash(a, b);
    lemma_behind_a_slash(a, dot);
    assert(a.push('/') + dot =~= a.push('/').push('.'));
    lemma_behind_a_slash(a.push('/').push('.'), b);
}

// ---------------------------------------------------------------------------------------------
// Names and parents
// ---------------------------------------------------------------------------------------------

/// The name of a file is what stands behind the last slash; two dots are no name, and neither is the
/// root.
pub proof fn the_name_stands_behind_the_last_slash(dir: Seq<char>, name: Seq<char>)
    requires
        dir.len() > 0,
        is_name(name),
    ensures
        name != seq!['.', '.'] ==> file_name(dir.push('/') + name) == Some(name) && file_name(
            dir.push('/') + name.push('/'),
        ) == Some(name),
        file_name(dir.push('/') + seq!['.', '.']) is None,
        file_name(seq!['/']) is None,
        file_name(Seq::empty()) is None,
{
    reveal_strlit("/");
    reveal_strlit(".");
    reveal_strlit("..");
    assert("."@ =~= seq!['.']);
    assert(".."@ =~= seq!['.', '.']);
    assert("/"@ =~= seq!['/']);
    a_slash_separates_components(dir, name);
    assert(name != "/"@) by {
        if name == "/"@ {
            assert(name[0] != '/');
        }
    }
    let whole = dir.push('/') + name;
    slashes_and_dots_do_not_count(whole, Seq::empty());
    assert(whole.push('/') =~= dir.push('/') + name.push('/'));
    assert(components(whole).last() == name);
    let up = seq!['.', '.'];
    assert(up.len() != seq!['.'].len());
    a_slash_separates_components(dir, up);
    assert(components(dir.push('/') + up).last() == up);
    where_a_path_starts(name);
    assert(components(seq!['/']).last() == seq!['/']);
}

proof fn lemma_parts_of_a_beginning(path: Seq<char>, from: int, k: int)
    requires
        0 <= from,
        0 <= k < parts_from(path, from).len(),
    ensures
        ({
            let end = parts_from(path, from)[k].1;
            parts_from(path.take(end), from) == parts_from(path, from).take(k + 1)
        }),
    decreases path.len() + 1 - from,
{
    let all = parts_from(path, from);
    let stop = all[k].1;
    lemma_parts(path, from);
    let start = path.take(stop);
    let end = part_end(path, from);
    lemma_position(path.skip(from), '/');
    let rest = parts_from(path, end + 1);
    assert(from <= all[k].0 < stop <= path.len());
    assert forall|j: int| 0 <= j < start.len() - from implies #[trigger] start.skip(from)[j]
        == path.skip(from)[j] by {}
    if is_part(path, from, end) && k == 0 {
        assert(stop == end);
        lemma_position_is(start.skip(from), '/', end - from);
        assert(part_end(start, from) == end);
        assert(parts_from(start, end + 1) =~= Seq::empty());
        assert(parts_from(start, from) =~= all.take(1));
    } else {
        if is_part(path, from, end) {
            assert(all[k] == rest[k - 1]);
            lemma_parts_of_a_beginning(path, end + 1, k - 1);
        } else {
            lemma_parts_of_a_beginning(path, end + 1, k);
        }
        lemma_parts(path, end + 1);
        assert(end < stop);
        assert(path.skip(from)[end - from] == path[end]);
        lemma_position_is(start.skip(from), '/', end - from);
        assert(part_end(start, from) == end);
        assert(parts_from(start, from) =~= all.take(k + 1));
    }
}

/// The parent of a path has all its components but the last, and is the beginning of its text. The
/// root and the empty path have none.
pub proof fn a_parent_lacks_the_last_component(path: Seq<char>)
    ensures
        components(path).len() == 0 ==> parent(path) is None,
        components(path) == seq![seq!['/']] ==> parent(path) is None,
        components(path).len() > 0 && components(path) != seq![seq!['/']] ==> {
            &&& parent(path) is Some
            &&& components(parent(path)->Some_0) == components(path).drop_last()
            &&& parent(path)->Some_0.is_prefix_of(path)
        },
{
    reveal_strlit("/");
    assert("/"@ =~= seq!['/']);
    let all = spans(path);
    let parts = components(path);
    lemma_spans(path);
    let root = seq!['/'];
    if all.len() > 0 && parts != seq![root] {
        let last = all.len() - 1;
        let from = if rooted(path) {
            1int
        } else {
            0int
        };
        let rest = parts_from(path, from);
        if rooted(path) {
            assert(path.subrange(0, 1) =~= root);
            assert(all =~= seq![(0int, 1int)] + rest);
            if rest.len() == 0 {
                assert(parts =~= seq![root]);
            }
        }
        assert(rest.len() > 0);
        assert(all[last] == rest[rest.len() - 1]);
        lemma_part_holds_no_slash(path, from, rest.len() - 1);
        assert(parts.last() == path.subrange(all[last].0, all[last].1));
        assert(parts.last()[0] == path[all[last].0]);
        assert(parts.last() != "/"@);
        if all.len() == 1 {
            assert(components(Seq::<char>::empty()) =~= parts.drop_last());
            assert(Seq::<char>::empty().is_prefix_of(path));
        } else {
            let end = all[last - 1].1;
            let up = path.take(end);
            assert(up.is_prefix_of(path)) by {
                assert(up =~= path.subrange(0, end));
            }
            if rest.len() >= 2 {
                assert(rest[rest.len() - 2] == all[last - 1]);
                lemma_parts_of_a_beginning(path, from, rest.len() - 2);
                assert(spans(up) =~= all.drop_last());
            } else {
                assert(rooted(path) && end == 1);
                assert(up =~= root);
                assert(parts_from(up, 1) =~= Seq::empty());
                assert(spans(up) =~= all.drop_last());
            }
            assert forall|i: int| 0 <= i < last implies #[trigger] components(up)[i] == parts[i] by {
                assert(all[i].1 <= all[last - 1].1) by {
                    if i < last - 1 {
                        assert(all[i].1 <= all[last - 1].0);
                    }
                }
                assert(up.subrange(all[i].0, all[i].1) =~= path.subrange(all[i].0, all[i].1));
            }
            assert(components(up) =~= parts.drop_last());
        }
    }
}

// ---------------------------------------------------------------------------------------------
// Joining and stripping
// ---------------------------------------------------------------------------------------------

/// An absolute path stays as it is wherever it is seen from; any other one goes behind the base, with
/// one slash between them.
pub proof fn how_paths_are_joined(base: Seq<char>, path: Seq<char>)
    ensures
        join(base, seq!['/'] + path) == seq!['/'] + path,
        !rooted(path) ==> {
            &&& join(Seq::empty(), path) == path
            &&& join(base.push('/'), path) == base.push('/') + path
            &&& base.len() > 0 && base.last() != '/' ==> join(base, path) == base.push('/') + path
        },
{
    assert(Seq::<char>::empty() + path =~= path);
}

/// What is inside a directory can be told relative to it, and nothing else can.
pub proof fn only_what_lies_inside_is_relative(dir: Seq<char>, inner: Seq<char>, path: Seq<char>)
    requires
        dir.len() > 0,
    ensures
        strip_base(dir, dir) == Some(Seq::<char>::empty()),
        strip_base(dir.push('/') + inner, dir) is Some,
        strip_base(path, dir) is Some <==> components(path).len() >= components(dir).len()
            && components(path).take(components(dir).len() as int) == components(dir),
{
    let whole = dir.push('/') + inner;
    lemma_behind_a_slash(dir, inner);
    assert(components(dir).is_prefix_of(components(dir))) by {
        assert(components(dir).subrange(0, components(dir).len() as int) =~= components(dir));
    }
    assert(components(dir).is_prefix_of(components(whole))) by {
        assert(components(whole).subrange(0, components(dir).len() as int) =~= components(dir));
    }
    let n = components(dir).len() as int;
    if components(path).len() >= n {
        assert(components(path).take(n) =~= components(path).subrange(0, n));
    }
}

// ---------------------------------------------------------------------------------------------
// Extensions
// ---------------------------------------------------------------------------------------------

proof fn lemma_stem_at(name: Seq<char>, dot: int, end: int)
    requires
        0 < dot < end <= name.len(),
        name[dot] == '.',
        forall|j: int| dot < j < end ==> #[trigger] name[j] != '.',
    ensures
        stem_len_of(name, end) == dot,
    decreases end,
{
    if end - 1 > dot {
        lemma_stem_at(name, dot, end - 1);
    }
}

proof fn lemma_no_stem(name: Seq<char>, end: int)
    requires
        0 <= end <= name.len(),
        forall|j: int| 0 < j < end ==> #[trigger] name[j] != '.',
    ensures
        stem_len_of(name, end) == name.len(),
    decreases end,
{
    if end > 1 {
        lemma_no_stem(name, end - 1);
    }
}

/// The extension of a name stands behind its last dot; a name without one, or with only a dot at its
/// start, is all stem.
pub proof fn the_extension_stands_behind_the_last_dot(stem: Seq<char>, extension: Seq<char>)
    requires
        stem.len() > 0,
        forall|j: int| 0 <= j < extension.len() ==> #[trigger] extension[j] != '.',
    ensures
        stem_len(stem.push('.') + extension) == stem.len(),
        stem_len(extension) == extension.len(),
        stem_len(seq!['.'] + extension) == extension.len() + 1,
{
    let name = stem.push('.') + extension;
    assert forall|j: int| stem.len() < j < name.len() implies #[trigger] name[j] != '.' by {
        assert(name[j] == extension[j - stem.len() - 1]);
    }
    lemma_stem_at(name, stem.len() as int, name.len() as int);
    lemma_no_stem(extension, extension.len() as int);
    let hidden = seq!['.'] + extension;
    assert forall|j: int| 0 < j < hidden.len() implies #[trigger] hidden[j] != '.' by {
        assert(hidden[j] == extension[j - 1]);
    }
    lemma_no_stem(hidden, hidden.len() as int);
}

} // verus!
