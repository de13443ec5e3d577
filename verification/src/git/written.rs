//! What `git diff --numstat -z` writes for a list of changed files, and that it reads back.
use vstd::prelude::*;
use vstd::utf8::{
    char_is_scalar, char_u32_cast, decode_utf8, encode_scalar, encode_utf8, encode_utf8_decode_utf8,
    encode_utf8_valid_utf8, valid_utf8,
};

use super::{fields_from, fields_of, record_parts, stats_in, tracked_stat};
use crate::model::FileStatView;
use crate::text::laws::{free_of, splitting_once_is_at_the_first_separator};
use crate::text::{
    all_digits, decimal, decimal_reads_back, is_digit, lemma_decimal, lemma_position_is, parse_u64,
    split, utf8_lossy,
};

verus! {

/// A count as git writes it; a binary file has `-` in place of one.
pub open spec fn count_text(count: Option<u64>) -> Seq<char> {
    match count {
        Some(n) => decimal(n as nat),
        None => "-"@,
    }
}

/// The record of one file: both counts and the path, with a tab after each count.
pub open spec fn record_of(file: FileStatView) -> Seq<char> {
    count_text(file.added) + "\t"@ + count_text(file.deleted) + "\t"@ + file.path
}

/// The records of the files, each in UTF-8 and with a NUL byte behind it.
pub open spec fn written(files: Seq<FileStatView>) -> Seq<u8>
    decreases files.len(),
{
    if files.len() == 0 {
        Seq::empty()
    } else {
        encode_utf8(record_of(files[0])).push(0u8) + written(files.drop_first())
    }
}

/// Tracked files whose paths are not empty and hold no NUL character; tabs are allowed.
pub open spec fn writable(files: Seq<FileStatView>) -> bool {
    forall|i: int|
        0 <= i < files.len() ==> !(#[trigger] files[i]).untracked && files[i].path.len() > 0
            && !files[i].path.contains('\0')
}

/// The fields of `raw` that are valid UTF-8 are decoded as they are.
pub open spec fn decoded(raw: Seq<u8>) -> bool {
    forall|i: int|
        0 <= i < split(raw, 0u8).len() && valid_utf8(#[trigger] split(raw, 0u8)[i]) ==> utf8_lossy(
            split(raw, 0u8)[i],
        ) == decode_utf8(split(raw, 0u8)[i])
}

proof fn lemma_scalar_holds_no_nul(scalar: u32)
    requires
        scalar != 0,
        vstd::utf8::is_scalar(scalar),
    ensures
        forall|i: int| 0 <= i < encode_scalar(scalar).len() ==> encode_scalar(scalar)[i] != 0u8,
{
    assert(scalar != 0 && scalar <= 0x7F ==> (scalar & 0x7F) as u8 != 0u8) by (bit_vector);
    assert(0xC0u8 | ((scalar >> 6) & 0x1F) as u8 != 0u8) by (bit_vector);
    assert(0xE0u8 | ((scalar >> 12) & 0x0F) as u8 != 0u8) by (bit_vector);
    assert(0xF0u8 | ((scalar >> 18) & 0x7) as u8 != 0u8) by (bit_vector);
    assert(0x80u8 | (scalar & 0x3F) as u8 != 0u8) by (bit_vector);
    assert(0x80u8 | ((scalar >> 6) & 0x3F) as u8 != 0u8) by (bit_vector);
    assert(0x80u8 | ((scalar >> 12) & 0x3F) as u8 != 0u8) by (bit_vector);
}

proof fn lemma_no_nul(chars: Seq<char>)
    requires
        forall|i: int| 0 <= i < chars.len() ==> chars[i] != '\0',
    ensures
        forall|i: int| 0 <= i < encode_utf8(chars).len() ==> encode_utf8(chars)[i] != 0u8,
    decreases chars.len(),
{
    if chars.len() > 0 {
        let first = encode_scalar(chars[0] as u32);
        let rest = encode_utf8(chars.drop_first());
        char_is_scalar(chars[0]);
        assert(chars[0] as u32 != 0) by {
            if chars[0] as u32 == 0 {
                char_u32_cast(chars[0], 0u32);
                char_u32_cast('\0', 0u32);
                assert(chars[0] == '\0');
            }
        }
        lemma_scalar_holds_no_nul(chars[0] as u32);
        lemma_no_nul(chars.drop_first());
        assert forall|i: int| 0 <= i < (first + rest).len() implies (first + rest)[i] != 0u8 by {
            if i < first.len() {
                assert((first + rest)[i] == first[i]);
            } else {
                assert((first + rest)[i] == rest[i - first.len()]);
            }
        }
    }
}

/// A count holds neither a tab nor a NUL character, and reads back.
proof fn lemma_count(count: Option<u64>)
    ensures
        forall|i: int|
            0 <= i < count_text(count).len() ==> count_text(count)[i] != '\t' && count_text(
                count,
            )[i] != '\0',
        parse_u64(count_text(count)) == count,
{
    match count {
        Some(n) => {
            lemma_decimal(n as nat);
            decimal_reads_back(n);
            assert forall|i: int| 0 <= i < decimal(n as nat).len() implies decimal(n as nat)[i]
                != '\t' && decimal(n as nat)[i] != '\0' by {
                assert(is_digit(decimal(n as nat)[i]));
            }
        },
        None => {
            reveal_strlit("-");
            assert(!is_digit(("-"@)[0]));
            assert(!all_digits("-"@));
        },
    }
}

/// The record of a file is taken apart again.
proof fn lemma_record(file: FileStatView)
    requires
        !file.path.contains('\0'),
    ensures
        record_parts(record_of(file)) == Some(
            (count_text(file.added), count_text(file.deleted), file.path),
        ),
        forall|i: int| 0 <= i < record_of(file).len() ==> record_of(file)[i] != '\0',
{
    reveal_strlit("\t");
    let added = count_text(file.added);
    let deleted = count_text(file.deleted);
    lemma_count(file.added);
    lemma_count(file.deleted);
    let record = record_of(file);
    let rest = deleted + "\t"@ + file.path;
    let n = added.len() as int;
    assert(record =~= added + "\t"@ + rest);
    assert(record[n] == '\t');
    assert forall|j: int| 0 <= j < n implies record[j] != '\t' by {
        assert(record[j] == added[j]);
    }
    lemma_position_is(record, '\t', n);
    assert(record.take(n) =~= added);
    assert(record.skip(n + 1) =~= rest);
    let m = deleted.len() as int;
    assert(rest[m] == '\t');
    assert forall|j: int| 0 <= j < m implies rest[j] != '\t' by {
        assert(rest[j] == deleted[j]);
    }
    lemma_position_is(rest, '\t', m);
    assert(rest.take(m) =~= deleted);
    assert(rest.skip(m + 1) =~= file.path);
    assert forall|i: int| 0 <= i < record.len() implies record[i] != '\0' by {
        if i < n {
            assert(record[i] == added[i]);
        } else if i > n && i - n - 1 < m {
            assert(record[i] == deleted[i - n - 1]);
        } else if i > n + 1 + m {
            assert(record[i] == file.path[i - n - m - 2]);
        }
    }
}

/// The fields of what is written: the records, and an empty one behind the last NUL byte.
pub open spec fn records(files: Seq<FileStatView>) -> Seq<Seq<char>> {
    files.map_values(|file: FileStatView| record_of(file)).push(Seq::empty())
}

proof fn lemma_written_fields(files: Seq<FileStatView>)
    requires
        writable(files),
    ensures
        split(written(files), 0u8) == records(files).map_values(
            |record: Seq<char>| encode_utf8(record),
        ),
    decreases files.len(),
{
    let raw = written(files);
    let encode = |record: Seq<char>| encode_utf8(record);
    let wanted = records(files).map_values(encode);
    if files.len() == 0 {
        assert(raw =~= Seq::empty());
        assert(encode_utf8(Seq::<char>::empty()) =~= Seq::<u8>::empty());
        assert(split(raw, 0u8) =~= wanted);
    } else {
        let record = record_of(files[0]);
        let first = encode_utf8(record);
        let rest = files.drop_first();
        let later = written(rest);
        lemma_record(files[0]);
        lemma_no_nul(record);
        let n = first.len() as int;
        assert(raw[n] == 0u8);
        assert forall|j: int| 0 <= j < n implies raw[j] != 0u8 by {
            assert(raw[j] == first[j]);
        }
        lemma_position_is(raw, 0u8, n);
        assert(raw.take(n) =~= first);
        assert(raw.skip(n + 1) =~= later);
        assert forall|i: int| 0 <= i < rest.len() implies !(#[trigger] rest[i]).untracked
            && rest[i].path.len() > 0 && !rest[i].path.contains('\0') by {
            assert(rest[i] == files[i + 1]);
        }
        lemma_written_fields(rest);
        assert(split(raw, 0u8) == seq![first] + split(later, 0u8));
        assert(wanted =~= seq![first] + records(rest).map_values(encode));
    }
}

proof fn lemma_records_read_back(files: Seq<FileStatView>)
    requires
        writable(files),
    ensures
        stats_in(records(files)) == files,
    decreases files.len(),
{
    let fields = records(files);
    if files.len() == 0 {
        assert(fields =~= seq![Seq::<char>::empty()]);
        assert(record_parts(fields[0]) is None);
        assert(fields_from(fields, 1) =~= Seq::empty());
        assert(stats_in(fields_from(fields, 1)) =~= Seq::empty());
        assert(stats_in(fields) =~= files);
    } else {
        let rest = files.drop_first();
        assert(fields[0] == record_of(files[0]));
        lemma_record(files[0]);
        lemma_count(files[0].added);
        lemma_count(files[0].deleted);
        assert(fields_from(fields, 1) =~= records(rest));
        assert forall|i: int| 0 <= i < rest.len() implies !(#[trigger] rest[i]).untracked
            && rest[i].path.len() > 0 && !rest[i].path.contains('\0') by {
            assert(rest[i] == files[i + 1]);
        }
        lemma_records_read_back(rest);
        assert(tracked_stat(
            files[0].path,
            count_text(files[0].added),
            count_text(files[0].deleted),
        ) == files[0]);
        assert(stats_in(fields) =~= files);
    }
}

/// What is written for a list of files reads back as that list: the same files in the same order,
/// every path whole, and a count missing exactly where `-` was written.
pub(crate) proof fn what_is_written_reads_back(files: Seq<FileStatView>)
    requires
        writable(files),
        decoded(written(files)),
    ensures
        stats_in(fields_of(written(files))) == files,
{
    let raw = written(files);
    lemma_written_fields(files);
    lemma_records_read_back(files);
    assert forall|i: int| 0 <= i < records(files).len() implies fields_of(raw)[i]
        == records(files)[i] by {
        encode_utf8_valid_utf8(records(files)[i]);
        encode_utf8_decode_utf8(records(files)[i]);
        assert(split(raw, 0u8)[i] == encode_utf8(records(files)[i]));
    }
    assert(fields_of(raw) =~= records(files));
}

// ---------------------------------------------------------------------------------------------
// Renames
// ---------------------------------------------------------------------------------------------

/// A changed file as git reports it.
pub enum Change {
    /// A file that kept its path.
    Edited { path: Seq<char>, added: Option<u64>, deleted: Option<u64> },
    /// A file that moved from `old` to `new`, edited or not.
    Renamed { old: Seq<char>, new: Seq<char>, added: Option<u64>, deleted: Option<u64> },
}

/// The fields that git writes for a change: for a rename a record without a path, and both paths
/// after it.
pub open spec fn change_fields(change: Change) -> Seq<Seq<char>> {
    match change {
        Change::Edited { path, added, deleted } => seq![
            count_text(added) + "\t"@ + count_text(deleted) + "\t"@ + path,
        ],
        Change::Renamed { old, new, added, deleted } => seq![
            count_text(added) + "\t"@ + count_text(deleted) + "\t"@,
            old,
            new,
        ],
    }
}

/// What is shown of a change: the counts that were written, and for a rename both paths.
pub open spec fn change_shown(change: Change) -> FileStatView {
    match change {
        Change::Edited { path, added, deleted } => FileStatView {
            path,
            added,
            deleted,
            untracked: false,
        },
        Change::Renamed { old, new, added, deleted } => FileStatView {
            path: old + " → "@ + new,
            added,
            deleted,
            untracked: false,
        },
    }
}

/// All fields of a list of changes.
pub open spec fn all_fields(changes: Seq<Change>) -> Seq<Seq<char>>
    decreases changes.len(),
{
    if changes.len() == 0 {
        Seq::empty()
    } else {
        change_fields(changes[0]) + all_fields(changes.drop_first())
    }
}

/// Fields in UTF-8, each with a NUL byte behind it.
pub open spec fn terminated(fields: Seq<Seq<char>>) -> Seq<u8>
    decreases fields.len(),
{
    if fields.len() == 0 {
        Seq::empty()
    } else {
        encode_utf8(fields[0]).push(0u8) + terminated(fields.drop_first())
    }
}

/// No NUL character in a path, and a path for every file.
pub open spec fn change_writable(change: Change) -> bool {
    match change {
        Change::Edited { path, .. } => path.len() > 0 && !path.contains('\0'),
        Change::Renamed { old, new, .. } => !old.contains('\0') && !new.contains('\0'),
    }
}

/// Every change of the list can be written.
pub open spec fn changes_writable(changes: Seq<Change>) -> bool {
    forall|i: int| 0 <= i < changes.len() ==> change_writable(#[trigger] changes[i])
}

/// The files that are shown for a list of changes.
pub open spec fn changes_shown(changes: Seq<Change>) -> Seq<FileStatView> {
    changes.map_values(|change: Change| change_shown(change))
}

proof fn lemma_change_record(added: Option<u64>, deleted: Option<u64>, path: Seq<char>)
    requires
        !path.contains('\0'),
    ensures
        record_parts(count_text(added) + "\t"@ + count_text(deleted) + "\t"@ + path) == Some(
            (count_text(added), count_text(deleted), path),
        ),
        forall|i: int|
            0 <= i < (count_text(added) + "\t"@ + count_text(deleted) + "\t"@ + path).len() ==> (
            count_text(added) + "\t"@ + count_text(deleted) + "\t"@ + path)[i] != '\0',
        parse_u64(count_text(added)) == added,
        parse_u64(count_text(deleted)) == deleted,
{
    lemma_record(FileStatView { path, added, deleted, untracked: false });
    lemma_count(added);
    lemma_count(deleted);
}

/// Every change is read as one file with exactly the counts that were written, and what follows it
/// is read as if it were not there: the fields of any list of changes, renames included, give that
/// list.
pub proof fn changes_read_back(changes: Seq<Change>)
    requires
        changes_writable(changes),
    ensures
        stats_in(all_fields(changes).push(Seq::empty())) == changes_shown(changes),
    decreases changes.len(),
{
    let none = Seq::<char>::empty();
    let fields = all_fields(changes).push(none);
    if changes.len() == 0 {
        assert(fields =~= seq![none]);
        assert(record_parts(fields[0]) is None) by {
            splitting_once_is_at_the_first_separator(none, none, '\t');
        }
        assert(fields_from(fields, 1) =~= Seq::empty());
        assert(stats_in(fields_from(fields, 1)) =~= Seq::empty());
        assert(stats_in(fields) =~= changes_shown(changes));
    } else {
        let rest = changes.drop_first();
        assert forall|i: int| 0 <= i < rest.len() implies change_writable(#[trigger] rest[i]) by {
            assert(rest[i] == changes[i + 1]);
        }
        changes_read_back(rest);
        let later = all_fields(rest).push(none);
        assert(change_writable(changes[0]));
        match changes[0] {
            Change::Edited { path, added, deleted } => {
                lemma_change_record(added, deleted, path);
                assert(fields_from(fields, 1) =~= later);
            },
            Change::Renamed { old, new, added, deleted } => {
                lemma_change_record(added, deleted, none);
                assert(count_text(added) + "\t"@ + count_text(deleted) + "\t"@ + none =~= fields[0]);
                assert(fields[1] == old);
                assert(fields[2] == new);
                assert(fields_from(fields, 3) =~= later);
            },
        }
        assert(stats_in(fields) =~= seq![change_shown(changes[0])] + stats_in(later));
        assert(changes_shown(changes) =~= seq![change_shown(changes[0])] + changes_shown(rest));
    }
}

/// What one field says, whatever follows. Two tabs make a record: its counts are the numbers before
/// them, or unknown, and what stands behind them is its path. A record without a path is a rename and
/// takes the two fields after it, or as many as there are. A field without two tabs says nothing.
pub proof fn what_one_record_says(
    added: Seq<char>,
    deleted: Seq<char>,
    path: Seq<char>,
    rest: Seq<Seq<char>>,
)
    requires
        free_of(added, '\t'),
        free_of(deleted, '\t'),
    ensures
        ({
            let record = added.push('\t') + (deleted.push('\t') + path);
            let read = stats_in(seq![record] + rest);
            let none = Seq::<char>::empty();
            let stat = |name: Seq<char>|
                FileStatView {
                    path: name,
                    added: parse_u64(added),
                    deleted: parse_u64(deleted),
                    untracked: false,
                };
            &&& path.len() > 0 ==> read == seq![stat(path)] + stats_in(rest)
            &&& path.len() == 0 && rest.len() >= 2 ==> read == seq![
                stat(rest[0] + " → "@ + rest[1]),
            ] + stats_in(rest.skip(2))
            &&& path.len() == 0 && rest.len() == 1 ==> read == seq![
                stat(rest[0] + " → "@ + none),
            ]
            &&& path.len() == 0 && rest.len() == 0 ==> read == seq![stat(none + " → "@ + none)]
        }),
        stats_in(seq![added] + rest) == stats_in(rest),
        stats_in(seq![added.push('\t') + deleted] + rest) == stats_in(rest),
{
    let record = added.push('\t') + (deleted.push('\t') + path);
    let none = Seq::<char>::empty();
    splitting_once_is_at_the_first_separator(added, deleted.push('\t') + path, '\t');
    splitting_once_is_at_the_first_separator(deleted, path, '\t');
    splitting_once_is_at_the_first_separator(added, deleted, '\t');
    let fields = seq![record] + rest;
    assert(fields[0] == record);
    assert(fields_from(fields, 1) =~= rest);
    assert(record_parts(record) == Some((added, deleted, path)));
    if path.len() == 0 {
        assert(stats_in(Seq::<Seq<char>>::empty()) =~= Seq::empty());
        if rest.len() >= 2 {
            assert(fields[1] == rest[0] && fields[2] == rest[1]);
            assert(fields_from(fields, 3) =~= rest.skip(2));
        } else {
            if rest.len() == 1 {
                assert(fields[1] == rest[0]);
            }
            assert(fields_from(fields, 3) =~= Seq::empty());
            assert(stats_in(fields_from(fields, 3)) =~= Seq::empty());
        }
    }
    let bare = seq![added] + rest;
    assert(bare[0] == added);
    assert(fields_from(bare, 1) =~= rest);
    let half = seq![added.push('\t') + deleted] + rest;
    assert(half[0] == added.push('\t') + deleted);
    assert(fields_from(half, 1) =~= rest);
}

proof fn lemma_fields_hold_no_nul(changes: Seq<Change>)
    requires
        changes_writable(changes),
    ensures
        forall|i: int, j: int|
            0 <= i < all_fields(changes).len() && 0 <= j < all_fields(changes)[i].len()
                ==> #[trigger] all_fields(changes)[i][j] != '\0',
    decreases changes.len(),
{
    if changes.len() > 0 {
        let rest = changes.drop_first();
        assert forall|i: int| 0 <= i < rest.len() implies change_writable(#[trigger] rest[i]) by {
            assert(rest[i] == changes[i + 1]);
        }
        lemma_fields_hold_no_nul(rest);
        assert(change_writable(changes[0]));
        let first = change_fields(changes[0]);
        let none = Seq::<char>::empty();
        match changes[0] {
            Change::Edited { path, added, deleted } => {
                lemma_change_record(added, deleted, path);
            },
            Change::Renamed { old, new, added, deleted } => {
                lemma_change_record(added, deleted, none);
                assert(count_text(added) + "\t"@ + count_text(deleted) + "\t"@ + none =~= first[0]);
            },
        }
        let all = all_fields(changes);
        assert forall|i: int, j: int| 0 <= i < all.len() && 0 <= j < all[i].len() implies
            #[trigger] all[i][j] != '\0' by {
            if i < first.len() {
                assert(all[i] == first[i]);
            } else {
                assert(all[i] == all_fields(rest)[i - first.len()]);
            }
        }
    }
}

proof fn lemma_terminated(fields: Seq<Seq<char>>)
    requires
        forall|i: int, j: int|
            0 <= i < fields.len() && 0 <= j < fields[i].len() ==> #[trigger] fields[i][j] != '\0',
    ensures
        split(terminated(fields), 0u8) == fields.push(Seq::empty()).map_values(
            |field: Seq<char>| encode_utf8(field),
        ),
    decreases fields.len(),
{
    let encode = |field: Seq<char>| encode_utf8(field);
    let none = Seq::<char>::empty();
    let raw = terminated(fields);
    let wanted = fields.push(none).map_values(encode);
    assert(encode_utf8(none) =~= Seq::<u8>::empty());
    if fields.len() == 0 {
        assert(raw =~= Seq::empty());
        assert(split(raw, 0u8) =~= wanted);
    } else {
        let rest = fields.drop_first();
        assert forall|i: int, j: int| 0 <= i < rest.len() && 0 <= j < rest[i].len() implies
            #[trigger] rest[i][j] != '\0' by {
            assert(rest[i] == fields[i + 1]);
            assert(fields[i + 1][j] != '\0');
        }
        lemma_terminated(rest);
        assert forall|j: int| 0 <= j < fields[0].len() implies fields[0][j] != '\0' by {}
        lemma_no_nul(fields[0]);
        crate::text::laws::splitting_comes_apart_at_separators(
            encode_utf8(fields[0]),
            terminated(rest),
            0u8,
        );
        assert(wanted =~= seq![encode_utf8(fields[0])] + rest.push(none).map_values(encode));
    }
}

/// The bytes of any list of changes, renames included, read back as that list.
pub(crate) proof fn written_changes_read_back(changes: Seq<Change>)
    requires
        changes_writable(changes),
        decoded(terminated(all_fields(changes))),
    ensures
        stats_in(fields_of(terminated(all_fields(changes)))) == changes_shown(changes),
{
    let raw = terminated(all_fields(changes));
    let fields = all_fields(changes).push(Seq::empty());
    lemma_fields_hold_no_nul(changes);
    lemma_terminated(all_fields(changes));
    changes_read_back(changes);
    assert forall|i: int| 0 <= i < fields.len() implies fields_of(raw)[i] == fields[i] by {
        encode_utf8_valid_utf8(fields[i]);
        encode_utf8_decode_utf8(fields[i]);
        assert(split(raw, 0u8)[i] == encode_utf8(fields[i]));
    }
    assert(fields_of(raw) =~= fields);
}

} // verus!
