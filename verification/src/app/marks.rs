//! The set of marked worktrees, by path so that marks survive reloads.
use vstd::prelude::*;

use crate::git::{WorktreeInfo, WorktreeInfoView};
use crate::paths::{components, paths_equal};

verus! {

/// A set of paths.
#[derive(Debug)]
pub struct Marks {
    paths: Vec<String>,
}

/// Marks stand for the set of marked paths, each by its components.
impl DeepView for Marks {
    type V = Set<Seq<Seq<char>>>;

    closed spec fn deep_view(&self) -> Set<Seq<Seq<char>>> {
        keys_of(self.paths.deep_view()).to_set()
    }
}

/// What identifies each path: its components.
pub open spec fn keys_of(paths: Seq<Seq<char>>) -> Seq<Seq<Seq<char>>> {
    paths.map_values(|path: Seq<char>| components(path))
}

/// What identifies the worktrees of a list: the components of their paths.
pub open spec fn listed_keys(list: Seq<WorktreeInfoView>) -> Seq<Seq<Seq<char>>> {
    list.map_values(|info: WorktreeInfoView| components(info.worktree.path))
}

impl Marks {
    pub fn new() -> (marks: Self)
        ensures
            marks.deep_view() == Set::<Seq<Seq<char>>>::empty(),
    {
        let marks = Marks { paths: Vec::new() };
        proof {
            assert(marks.deep_view() =~= Set::<Seq<Seq<char>>>::empty());
        }
        marks
    }

    pub fn contains(&self, path: &str) -> (marked: bool)
        ensures
            marked == self.deep_view().contains(components(path@)),
    {
        let ghost keys = keys_of(self.paths.deep_view());
        let mut i: usize = 0;
        while i < self.paths.len()
            invariant
                i <= self.paths@.len(),
                keys == keys_of(self.paths.deep_view()),
                forall|j: int| 0 <= j < i ==> keys[j] != components(path@),
            decreases self.paths@.len() - i,
        {
            proof {
                assert(keys[i as int] == components(self.paths@[i as int]@));
            }
            if paths_equal(&self.paths[i], path) {
                proof {
                    assert(keys[i as int] == components(path@));
                    assert(keys.contains(components(path@)));
                }
                return true;
            }
            i = i + 1;
        }
        proof {
            assert(!keys.contains(components(path@)));
        }
        false
    }

    pub fn insert(&mut self, path: &str)
        ensures
            final(self).deep_view() == old(self).deep_view().insert(components(path@)),
    {
        let ghost before = keys_of(self.paths.deep_view());
        self.paths.push(path.to_owned());
        proof {
            let after = keys_of(self.paths.deep_view());
            assert(after =~= before.push(components(path@)));
            assert(after[before.len() as int] == components(path@));
            assert forall|key: Seq<Seq<char>>|
                after.to_set().contains(key) == before.to_set().insert(components(path@)).contains(
                    key,
                ) by {
                if before.contains(key) {
                    let i = choose|i: int| 0 <= i < before.len() && before[i] == key;
                    assert(after[i] == key);
                }
                if after.contains(key) {
                    let i = choose|i: int| 0 <= i < after.len() && after[i] == key;
                    if i < before.len() {
                        assert(before[i] == key);
                    }
                }
            }
            assert(self.deep_view() =~= before.to_set().insert(components(path@)));
        }
    }

    /// Removes a path.
    pub fn remove(&mut self, path: &str)
        ensures
            final(self).deep_view() == old(self).deep_view().remove(components(path@)),
    {
        let ghost gone = components(path@);
        let ghost before = keys_of(self.paths.deep_view());
        let mut kept: Vec<String> = Vec::new();
        let mut i: usize = 0;
        while i < self.paths.len()
            invariant
                i <= self.paths@.len(),
                before == keys_of(self.paths.deep_view()),
                gone == components(path@),
                forall|key: Seq<Seq<char>>|
                    #![trigger keys_of(kept.deep_view()).contains(key)]
                    #![trigger before.take(i as int).contains(key)]
                    keys_of(kept.deep_view()).contains(key) <==> key != gone && before.take(
                        i as int,
                    ).contains(key),
            decreases self.paths@.len() - i,
        {
            let ghost had = keys_of(kept.deep_view());
            let ghost key = components(self.paths@[i as int]@);
            proof {
                assert(before[i as int] == key);
                assert(before.take(i + 1) =~= before.take(i as int).push(key));
                lemma_push_contains(before.take(i as int), key);
            }
            if !paths_equal(&self.paths[i], path) {
                kept.push(self.paths[i].clone());
                proof {
                    assert(keys_of(kept.deep_view()) =~= had.push(key));
                    lemma_push_contains(had, key);
                }
            }
            i = i + 1;
        }
        self.paths = kept;
        proof {
            assert(before.take(i as int) =~= before);
            assert(self.deep_view() =~= before.to_set().remove(gone));
        }
    }

    /// Keeps only the paths of listed worktrees.
    pub fn retain_listed(&mut self, list: &Vec<WorktreeInfo>)
        ensures
            final(self).deep_view() == old(self).deep_view().intersect(
                listed_keys(list.deep_view()).to_set(),
            ),
    {
        let ghost before = keys_of(self.paths.deep_view());
        let ghost listed = listed_keys(list.deep_view());
        let mut kept: Vec<String> = Vec::new();
        let mut i: usize = 0;
        while i < self.paths.len()
            invariant
                i <= self.paths@.len(),
                before == keys_of(self.paths.deep_view()),
                listed == listed_keys(list.deep_view()),
                forall|key: Seq<Seq<char>>|
                    #![trigger keys_of(kept.deep_view()).contains(key)]
                    #![trigger before.take(i as int).contains(key)]
                    keys_of(kept.deep_view()).contains(key) <==> listed.contains(key)
                        && before.take(i as int).contains(key),
            decreases self.paths@.len() - i,
        {
            let ghost had = keys_of(kept.deep_view());
            let ghost key = components(self.paths@[i as int]@);
            proof {
                assert(before[i as int] == key);
                assert(before.take(i + 1) =~= before.take(i as int).push(key));
                lemma_push_contains(before.take(i as int), key);
            }
            if is_listed(list, &self.paths[i]) {
                kept.push(self.paths[i].clone());
                proof {
                    assert(keys_of(kept.deep_view()) =~= had.push(key));
                    lemma_push_contains(had, key);
                }
            }
            i = i + 1;
        }
        self.paths = kept;
        proof {
            assert(before.take(i as int) =~= before);
            assert(self.deep_view() =~= before.to_set().intersect(listed.to_set()));
        }
    }

    pub fn is_empty(&self) -> (empty: bool)
        ensures
            empty == (self.deep_view() == Set::<Seq<Seq<char>>>::empty()),
    {
        proof {
            let keys = keys_of(self.paths.deep_view());
            if self.paths@.len() == 0 {
                assert(self.deep_view() =~= Set::<Seq<Seq<char>>>::empty());
            } else {
                assert(keys.contains(keys[0]));
                assert(self.deep_view().contains(keys[0]));
            }
        }
        self.paths.len() == 0
    }
}

proof fn lemma_push_contains<T>(s: Seq<T>, x: T)
    ensures
        forall|y: T| #[trigger] s.push(x).contains(y) <==> s.contains(y) || y == x,
{
    assert forall|y: T| #[trigger] s.push(x).contains(y) <==> s.contains(y) || y == x by {
        if s.contains(y) {
            let i = choose|i: int| 0 <= i < s.len() && s[i] == y;
            assert(s.push(x)[i] == y);
        }
        if y == x {
            assert(s.push(x)[s.len() as int] == y);
        }
        if s.push(x).contains(y) {
            let i = choose|i: int| 0 <= i < s.push(x).len() && s.push(x)[i] == y;
            if i < s.len() {
                assert(s[i] == y);
            }
        }
    }
}

/// Whether a worktree of the list has this path.
pub fn is_listed(list: &Vec<WorktreeInfo>, path: &str) -> (listed: bool)
    ensures
        listed == listed_keys(list.deep_view()).contains(components(path@)),
{
    row_of(list, path).is_some()
}

/// Index of the first worktree with this path.
pub open spec fn row_of_key(list: Seq<WorktreeInfoView>, key: Seq<Seq<char>>) -> Option<int>
    decreases list.len(),
{
    if list.len() == 0 {
        None
    } else if components(list[0].worktree.path) == key {
        Some(0int)
    } else {
        match row_of_key(list.drop_first(), key) {
            Some(i) => Some(i + 1),
            None => None,
        }
    }
}

pub proof fn lemma_row_of_key(list: Seq<WorktreeInfoView>, key: Seq<Seq<char>>)
    ensures
        match row_of_key(list, key) {
            Some(i) => 0 <= i < list.len() && components(list[i].worktree.path) == key
                && listed_keys(list).contains(key),
            None => !listed_keys(list).contains(key),
        },
    decreases list.len(),
{
    let keys = listed_keys(list);
    if list.len() > 0 {
        if components(list[0].worktree.path) == key {
            assert(keys[0] == key);
        } else {
            let rest = list.drop_first();
            lemma_row_of_key(rest, key);
            match row_of_key(rest, key) {
                Some(i) => {
                    assert(rest[i] == list[i + 1]);
                    assert(keys[i + 1] == key);
                },
                None => {
                    if keys.contains(key) {
                        let j = choose|j: int| 0 <= j < keys.len() && keys[j] == key;
                        assert(j > 0);
                        assert(listed_keys(rest)[j - 1] == key);
                    }
                },
            }
        }
    }
}

/// Index of the first worktree with this path.
pub fn row_of(list: &Vec<WorktreeInfo>, path: &str) -> (row: Option<usize>)
    ensures
        match row {
            Some(i) => row_of_key(list.deep_view(), components(path@)) == Some(i as int),
            None => row_of_key(list.deep_view(), components(path@)) is None,
        },
        row.is_some() == listed_keys(list.deep_view()).contains(components(path@)),
        row matches Some(i) ==> i < list@.len(),
{
    let ghost all = list.deep_view();
    let ghost key = components(path@);
    let mut i: usize = 0;
    proof {
        assert(all.skip(0) =~= all);
        lemma_row_of_key(all, key);
    }
    while i < list.len()
        invariant
            i <= list@.len(),
            all == list.deep_view(),
            key == components(path@),
            row_of_key(all, key) == match row_of_key(all.skip(i as int), key) {
                Some(j) => Some(i + j),
                None => None,
            },
        decreases list@.len() - i,
    {
        let ghost rest = all.skip(i as int);
        proof {
            assert(rest[0] == list@[i as int].deep_view());
            assert(rest.drop_first() =~= all.skip(i + 1));
        }
        if paths_equal(&list[i].worktree.path, path) {
            proof {
                lemma_row_of_key(all, key);
            }
            return Some(i);
        }
        i = i + 1;
    }
    proof {
        lemma_row_of_key(all, key);
    }
    None
}

} // verus!
