//! Data shared by the git and GitHub sides of the app.
use vstd::prelude::*;

verus! {

/// A result with both sides as mathematical values.
pub open spec fn result_view<T: DeepView, E: DeepView>(result: Result<T, E>) -> Result<T::V, E::V> {
    match result {
        Ok(value) => Ok(value.deep_view()),
        Err(err) => Err(err.deep_view()),
    }
}

/// Line changes for one file. `None` counts mean the file is binary.
#[derive(Debug, Clone, PartialEq, Eq)]
pub struct FileStat {
    pub path: String,
    pub added: Option<u64>,
    pub deleted: Option<u64>,
    /// The file is untracked in the worktree (not in git yet).
    pub untracked: bool,
}

/// A [`FileStat`] with its path as a sequence of characters.
pub struct FileStatView {
    pub path: Seq<char>,
    pub added: Option<u64>,
    pub deleted: Option<u64>,
    pub untracked: bool,
}

impl DeepView for FileStat {
    type V = FileStatView;

    open spec fn deep_view(&self) -> FileStatView {
        FileStatView {
            path: self.path@,
            added: self.added,
            deleted: self.deleted,
            untracked: self.untracked,
        }
    }
}

/// The lines a count stands for: a binary file adds none.
pub open spec fn lines_of(count: Option<u64>) -> int {
    match count {
        Some(n) => n as int,
        None => 0,
    }
}

/// Added lines over all of `files`.
pub open spec fn added_lines(files: Seq<FileStatView>) -> int
    decreases files.len(),
{
    if files.len() == 0 {
        0
    } else {
        added_lines(files.drop_last()) + lines_of(files.last().added)
    }
}

/// Deleted lines over all of `files`.
pub open spec fn deleted_lines(files: Seq<FileStatView>) -> int
    decreases files.len(),
{
    if files.len() == 0 {
        0
    } else {
        deleted_lines(files.drop_last()) + lines_of(files.last().deleted)
    }
}

/// The line sums of `files` fit the counters of [`Totals`].
pub open spec fn countable(files: Seq<FileStatView>) -> bool {
    added_lines(files) <= u64::MAX && deleted_lines(files) <= u64::MAX
}

/// Summed line changes over a set of files; binary files count as files but not as lines.
#[derive(Debug, Clone, Copy, PartialEq, Eq)]
pub struct Totals {
    pub files: usize,
    pub added: u64,
    pub deleted: u64,
}

impl Default for Totals {
    fn default() -> (totals: Self)
        ensures
            totals == (Totals { files: 0, added: 0, deleted: 0 }),
    {
        Totals { files: 0, added: 0, deleted: 0 }
    }
}

proof fn lemma_line_sums_grow(files: Seq<FileStatView>, n: int)
    requires
        0 <= n <= files.len(),
    ensures
        0 <= added_lines(files.take(n)) <= added_lines(files),
        0 <= deleted_lines(files.take(n)) <= deleted_lines(files),
    decreases files.len(),
{
    if n == files.len() {
        assert(files.take(n) =~= files);
        if n > 0 {
            lemma_line_sums_grow(files.drop_last(), n - 1);
            assert(files.drop_last().take(n - 1) =~= files.drop_last());
        }
    } else {
        lemma_line_sums_grow(files.drop_last(), n);
        assert(files.drop_last().take(n) =~= files.take(n));
    }
}

impl Totals {
    pub fn of(files: &[FileStat]) -> (totals: Self)
        requires
            countable(files.deep_view()),
        ensures
            totals.files == files@.len(),
            totals.added == added_lines(files.deep_view()),
            totals.deleted == deleted_lines(files.deep_view()),
    {
        let mut totals = Totals { files: files.len(), added: 0, deleted: 0 };
        let ghost all = files.deep_view();
        let mut i: usize = 0;
        while i < files.len()
            invariant
                i <= files@.len(),
                all == files.deep_view(),
                all.len() == files@.len(),
                countable(all),
                totals.files == files@.len(),
                totals.added == added_lines(all.take(i as int)),
                totals.deleted == deleted_lines(all.take(i as int)),
            decreases files@.len() - i,
        {
            proof {
                assert(all.take(i + 1).drop_last() =~= all.take(i as int));
                lemma_line_sums_grow(all, i + 1);
            }
            let added: u64 = match files[i].added {
                Some(n) => n,
                None => 0,
            };
            let deleted: u64 = match files[i].deleted {
                Some(n) => n,
                None => 0,
            };
            totals.added = totals.added + added;
            totals.deleted = totals.deleted + deleted;
            i = i + 1;
        }
        proof {
            assert(all.take(i as int) =~= all);
        }
        totals
    }
}

/// Whether the line sums of `files` fit the counters of [`Totals`].
pub fn is_countable(files: &[FileStat]) -> (is: bool)
    ensures
        is == countable(files.deep_view()),
{
    let ghost all = files.deep_view();
    let mut added: u64 = 0;
    let mut deleted: u64 = 0;
    let mut i: usize = 0;
    while i < files.len()
        invariant
            i <= files@.len(),
            all == files.deep_view(),
            all.len() == files@.len(),
            added == added_lines(all.take(i as int)),
            deleted == deleted_lines(all.take(i as int)),
        decreases files@.len() - i,
    {
        proof {
            assert(all.take(i + 1).drop_last() =~= all.take(i as int));
            lemma_line_sums_grow(all, i + 1);
        }
        let more: u64 = match files[i].added {
            Some(n) => n,
            None => 0,
        };
        let fewer: u64 = match files[i].deleted {
            Some(n) => n,
            None => 0,
        };
        if more > u64::MAX - added || fewer > u64::MAX - deleted {
            return false;
        }
        added = added + more;
        deleted = deleted + fewer;
        i = i + 1;
    }
    proof {
        assert(all.take(i as int) =~= all);
    }
    true
}

/// The totals of two sets of files together are the sums of their totals.
pub proof fn totals_add_up(a: Seq<FileStatView>, b: Seq<FileStatView>)
    ensures
        added_lines(a + b) == added_lines(a) + added_lines(b),
        deleted_lines(a + b) == deleted_lines(a) + deleted_lines(b),
    decreases b.len(),
{
    if b.len() == 0 {
        assert(a + b =~= a);
    } else {
        totals_add_up(a, b.drop_last());
        assert((a + b).drop_last() =~= a + b.drop_last());
    }
}

/// A binary file counts as a file but adds no lines.
pub proof fn binary_files_add_no_lines(files: Seq<FileStatView>, file: FileStatView)
    requires
        file.added is None,
        file.deleted is None,
    ensures
        added_lines(files.push(file)) == added_lines(files),
        deleted_lines(files.push(file)) == deleted_lines(files),
{
    assert(files.push(file).drop_last() =~= files);
}

/// A file counts the lines that were added to it and those that were deleted, each on its own side.
pub proof fn one_file_counts_its_own_lines(file: FileStatView)
    ensures
        added_lines(Seq::empty()) == 0,
        deleted_lines(Seq::empty()) == 0,
        file.added matches Some(n) ==> added_lines(seq![file]) == n,
        file.added is None ==> added_lines(seq![file]) == 0,
        file.deleted matches Some(n) ==> deleted_lines(seq![file]) == n,
        file.deleted is None ==> deleted_lines(seq![file]) == 0,
        added_lines(seq![file]) <= u64::MAX && deleted_lines(seq![file]) <= u64::MAX
            ==> countable(seq![file]),
{
    assert(seq![file].drop_last() =~= Seq::empty());
    assert(added_lines(seq![file].drop_last()) == 0);
    assert(deleted_lines(seq![file].drop_last()) == 0);
}

} // verus!
