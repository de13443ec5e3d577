//! Marking every merged worktree at once.
use vstd::prelude::*;

use super::marks::{keys_of, listed_keys, Marks};
use super::state::{App, AppView, Focus, ProjectView, Tab};
use super::{said, with_project};
use crate::git::{WorktreeInfo, WorktreeInfoView};
use crate::paths::components;
use crate::text::{decimal, decimal_of};

verus! {

/// The worktree's work is already in the default branch.
pub open spec fn is_merged(info: WorktreeInfoView) -> bool {
    info.stats is Ok && info.stats->Ok_0.merged is Some
}

/// The paths of the merged worktrees, in order.
pub open spec fn merged_paths(list: Seq<WorktreeInfoView>) -> Seq<Seq<char>>
    decreases list.len(),
{
    if list.len() == 0 {
        Seq::empty()
    } else if is_merged(list.last()) {
        merged_paths(list.drop_last()).push(list.last().worktree.path)
    } else {
        merged_paths(list.drop_last())
    }
}

/// What identifies the merged worktrees.
pub open spec fn merged_keys(list: Seq<WorktreeInfoView>) -> Set<Seq<Seq<char>>> {
    keys_of(merged_paths(list)).to_set()
}

/// Every merged worktree of the selected project is marked, or unmarked when all already are.
pub open spec fn merged_marked(app: AppView) -> AppView {
    if app.tab != Tab::Worktrees {
        said(app, "Merged rows are on the Worktrees tab."@)
    } else {
        match app.selected_project() {
            None => app,
            Some(project) => {
                let list = project.worktree_list();
                let count = decimal(merged_paths(list).len());
                let keys = merged_keys(list);
                let focused = AppView {
                    focus: if app.focus == Focus::Projects {
                        Focus::List
                    } else {
                        app.focus
                    },
                    ..app
                };
                let i = app.project_list->Some_0 as int;
                if merged_paths(list).len() == 0 {
                    said(
                        focused,
                        "No merged worktrees (yet: the check runs after each fetch)."@,
                    )
                } else if keys.subset_of(project.marked) {
                    said(
                        with_project(
                            focused,
                            i,
                            ProjectView { marked: project.marked.difference(keys), ..project },
                        ),
                        "Unmarked "@ + count + " merged worktrees."@,
                    )
                } else {
                    said(
                        with_project(
                            focused,
                            i,
                            ProjectView { marked: project.marked.union(keys), ..project },
                        ),
                        "Marked "@ + count + " merged worktrees. x deletes them."@,
                    )
                }
            },
        }
    }
}

fn merged_rows(list: &[WorktreeInfo]) -> (paths: Vec<String>)
    ensures
        paths.deep_view() == merged_paths(list.deep_view()),
{
    let ghost all = list.deep_view();
    let mut paths: Vec<String> = Vec::new();
    let mut i: usize = 0;
    proof {
        assert(paths.deep_view() =~= merged_paths(all.take(0)));
    }
    while i < list.len()
        invariant
            i <= list@.len(),
            all == list.deep_view(),
            paths.deep_view() == merged_paths(all.take(i as int)),
        decreases list@.len() - i,
    {
        let info = &list[i];
        let ghost before = paths.deep_view();
        proof {
            assert(all.take(i + 1).drop_last() =~= all.take(i as int));
            assert(all.take(i + 1).last() == info.deep_view());
        }
        let merged = match &info.stats {
            Ok(stats) => stats.merged.is_some(),
            Err(_) => false,
        };
        if merged {
            paths.push(info.worktree.path.clone());
            proof {
                assert(paths.deep_view() =~= before.push(info.worktree.path@));
            }
        }
        i = i + 1;
    }
    proof {
        assert(all.take(i as int) =~= all);
    }
    paths
}

proof fn lemma_keys_grow(paths: Seq<Seq<char>>, n: int)
    requires
        0 <= n < paths.len(),
    ensures
        forall|key: Seq<Seq<char>>|
            #![trigger keys_of(paths.take(n + 1)).to_set().contains(key)]
            #![trigger keys_of(paths.take(n)).to_set().contains(key)]
            keys_of(paths.take(n + 1)).to_set().contains(key) <==> keys_of(
                paths.take(n),
            ).to_set().contains(key) || key == components(paths[n]),
{
    let before = keys_of(paths.take(n));
    let after = keys_of(paths.take(n + 1));
    assert(after =~= before.push(components(paths[n])));
    assert forall|key: Seq<Seq<char>>| after.contains(key) <==> (before.contains(key) || key
        == components(paths[n])) by {
        if before.contains(key) {
            let i = choose|i: int| 0 <= i < before.len() && before[i] == key;
            assert(after[i] == key);
        }
        if key == components(paths[n]) {
            assert(after[n] == key);
        }
    }
}

fn all_marked(marks: &Marks, paths: &Vec<String>) -> (all: bool)
    ensures
        all == keys_of(paths.deep_view()).to_set().subset_of(marks.deep_view()),
{
    let ghost texts = paths.deep_view();
    let mut i: usize = 0;
    proof {
        assert(keys_of(texts.take(0)).to_set().subset_of(marks.deep_view()));
    }
    while i < paths.len()
        invariant
            i <= paths@.len(),
            texts == paths.deep_view(),
            keys_of(texts.take(i as int)).to_set().subset_of(marks.deep_view()),
        decreases paths@.len() - i,
    {
        proof {
            lemma_keys_grow(texts, i as int);
        }
        if !marks.contains(&paths[i]) {
            proof {
                assert(keys_of(texts)[i as int] == components(texts[i as int]));
                assert(keys_of(texts).to_set().contains(components(texts[i as int])));
            }
            return false;
        }
        i = i + 1;
    }
    proof {
        assert(texts.take(i as int) =~= texts);
    }
    true
}

fn mark_all(marks: &mut Marks, paths: &Vec<String>)
    ensures
        final(marks).deep_view() == old(marks).deep_view().union(
            keys_of(paths.deep_view()).to_set(),
        ),
{
    let ghost texts = paths.deep_view();
    let ghost before = marks.deep_view();
    let mut i: usize = 0;
    proof {
        assert(before =~= before.union(keys_of(texts.take(0)).to_set()));
    }
    while i < paths.len()
        invariant
            i <= paths@.len(),
            texts == paths.deep_view(),
            marks.deep_view() == before.union(keys_of(texts.take(i as int)).to_set()),
        decreases paths@.len() - i,
    {
        proof {
            lemma_keys_grow(texts, i as int);
        }
        marks.insert(&paths[i]);
        i = i + 1;
        proof {
            assert(marks.deep_view() =~= before.union(keys_of(texts.take(i as int)).to_set()));
        }
    }
    proof {
        assert(texts.take(i as int) =~= texts);
    }
}

fn unmark_all(marks: &mut Marks, paths: &Vec<String>)
    ensures
        final(marks).deep_view() == old(marks).deep_view().difference(
            keys_of(paths.deep_view()).to_set(),
        ),
{
    let ghost texts = paths.deep_view();
    let ghost before = marks.deep_view();
    let mut i: usize = 0;
    proof {
        assert(before =~= before.difference(keys_of(texts.take(0)).to_set()));
    }
    while i < paths.len()
        invariant
            i <= paths@.len(),
            texts == paths.deep_view(),
            marks.deep_view() == before.difference(keys_of(texts.take(i as int)).to_set()),
        decreases paths@.len() - i,
    {
        proof {
            lemma_keys_grow(texts, i as int);
        }
        marks.remove(&paths[i]);
        i = i + 1;
        proof {
            assert(marks.deep_view() =~= before.difference(
                keys_of(texts.take(i as int)).to_set(),
            ));
        }
    }
    proof {
        assert(texts.take(i as int) =~= texts);
    }
}

/// Merged worktrees are listed worktrees.
pub proof fn lemma_merged_are_listed(list: Seq<WorktreeInfoView>)
    ensures
        merged_keys(list).subset_of(listed_keys(list).to_set()),
    decreases list.len(),
{
    let keys = keys_of(merged_paths(list));
    let listed = listed_keys(list);
    if list.len() > 0 {
        let fewer = list.drop_last();
        lemma_merged_are_listed(fewer);
        assert forall|key: Seq<Seq<char>>| keys.contains(key) implies listed.contains(key) by {
            let before = keys_of(merged_paths(fewer));
            let i = choose|i: int| 0 <= i < keys.len() && keys[i] == key;
            if i < before.len() {
                assert(before[i] == key);
                assert(merged_keys(fewer).contains(key));
                assert(listed_keys(fewer).contains(key));
                let j = choose|j: int|
                    0 <= j < listed_keys(fewer).len() && listed_keys(fewer)[j] == key;
                assert(listed[j] == key);
            } else {
                assert(listed[list.len() - 1] == key);
            }
        }
    }
}

impl App {
    /// Marks every merged worktree of the selected project, or unmarks them when all already
    /// are.
    pub(crate) fn mark_merged(&mut self)
        requires
            old(self).deep_view().wf(),
        ensures
            final(self).deep_view() == merged_marked(old(self).deep_view()),
            final(self).deep_view().wf(),
    {
        let ghost before = self.deep_view();
        if self.tab != Tab::Worktrees {
            self.set_status("Merged rows are on the Worktrees tab.".to_owned());
            return ;
        }
        let i = match self.project_list {
            Some(i) => i,
            None => {
                return ;
            },
        };
        let ghost list = before.projects[i as int].worktree_list();
        let merged = merged_rows(self.projects[i].worktree_list());
        let count = merged.len();
        let status = if count == 0 {
            "No merged worktrees (yet: the check runs after each fetch).".to_owned()
        } else if all_marked(&self.projects[i].marked, &merged) {
            unmark_all(&mut self.projects[i].marked, &merged);
            proof {
                let project = before.projects[i as int];
                assert(self.projects@[i as int].deep_view() =~= ProjectView {
                    marked: project.marked.difference(merged_keys(list)),
                    ..project
                });
            }
            "Unmarked ".to_owned().concat(&decimal_of(count as u64)).concat(" merged worktrees.")
        } else {
            mark_all(&mut self.projects[i].marked, &merged);
            proof {
                let project = before.projects[i as int];
                assert(self.projects@[i as int].deep_view() =~= ProjectView {
                    marked: project.marked.union(merged_keys(list)),
                    ..project
                });
            }
            "Marked ".to_owned().concat(&decimal_of(count as u64)).concat(
                " merged worktrees. x deletes them.",
            )
        };
        if self.focus == Focus::Projects {
            self.focus = Focus::List;
        }
        self.set_status(status);
        proof {
            let after = merged_marked(before);
            assert(merged.deep_view() == merged_paths(list));
            assert(self.deep_view().projects =~= after.projects);
            assert(self.deep_view() =~= after);
            lemma_merged_are_listed(list);
        }
    }
}

} // verus!
