//! One project: its lists, its selections and its marks.
use std::collections::HashMap;
use vstd::prelude::*;

use super::marks::{listed_keys, row_of, row_of_key, Marks};
use super::state::{selects, PrFilesState, Project, ProjectView};
use crate::gh::{PullRequest, PullRequestView};
use crate::git::{WorktreeInfo, WorktreeInfoView};
use crate::model::result_view;
use crate::paths::components;
use crate::worker::Lane;

verus! {

/// A selection moved by `delta` within `0..len`, without wrapping.
pub open spec fn stepped_to(current: Option<usize>, len: nat, delta: int) -> Option<usize> {
    if len == 0 {
        None
    } else {
        match current {
            None => Some(0usize),
            Some(index) => Some(
                if index + delta < 0 {
                    0usize
                } else if index + delta >= len {
                    (len - 1) as usize
                } else {
                    (index + delta) as usize
                },
            ),
        }
    }
}

/// Moves a selection by `delta` within `0..len`, without wrapping.
pub fn stepped(current: Option<usize>, len: usize, delta: isize) -> (next: Option<usize>)
    ensures
        next == stepped_to(current, len as nat, delta as int),
        selects(next, len as nat),
{
    if len == 0 {
        return None;
    }
    match current {
        None => Some(0),
        Some(index) => {
            if delta < 0 {
                // The most negative value has no positive counterpart, so one is held back.
                let back = (-(delta + 1)) as usize;
                if index <= back {
                    Some(0)
                } else if index - back - 1 < len {
                    Some(index - back - 1)
                } else {
                    Some(len - 1)
                }
            } else {
                let ahead = delta as usize;
                if index < len && ahead < len - index {
                    Some(index + ahead)
                } else {
                    Some(len - 1)
                }
            }
        },
    }
}

/// A selection that was made in a list that has `len` rows now: the same row or else the last
/// one; the first row when there was no selection.
pub open spec fn clamped_to(current: Option<usize>, len: nat) -> Option<usize> {
    if len == 0 {
        None
    } else {
        match current {
            None => Some(0usize),
            Some(index) => Some(
                if index < len {
                    index
                } else {
                    (len - 1) as usize
                },
            ),
        }
    }
}

/// Keeps a selection valid after the list changed; selects the first row of a new list.
pub fn clamped(current: Option<usize>, len: usize) -> (next: Option<usize>)
    ensures
        next == clamped_to(current, len as nat),
        selects(next, len as nat),
{
    if len == 0 {
        return None;
    }
    match current {
        None => Some(0),
        Some(index) => if index < len {
            Some(index)
        } else {
            Some(len - 1)
        },
    }
}

/// A project that has not been loaded yet.
pub open spec fn new_project(path: Seq<char>) -> ProjectView {
    ProjectView {
        path,
        github: None,
        default_branch: None,
        lane: Seq::empty(),
        loaded: false,
        refreshing: false,
        activity: None,
        pr_generation: 0,
        prs_loading: false,
        last_fetch: None,
        worktrees: None,
        marked: Set::empty(),
        prs: None,
        pr_files: Map::empty(),
        worktree_table: None,
        pr_table: None,
    }
}

/// The row of the new list that the cursor goes to: the same worktree (by path), or else the
/// same row.
pub open spec fn followed(project: ProjectView, list: Seq<WorktreeInfoView>) -> Option<usize> {
    let same = match project.selected_worktree() {
        Some(info) => row_of_key(list, components(info.worktree.path)),
        None => None,
    };
    match same {
        Some(i) => Some(i as usize),
        None => project.worktree_table,
    }
}

/// A project whose worktrees were loaded again: the cursor stays on the same worktree, and marks
/// of worktrees that are gone are dropped.
pub open spec fn with_worktrees(
    project: ProjectView,
    result: Result<Seq<WorktreeInfoView>, Seq<char>>,
) -> ProjectView {
    let list = match result {
        Ok(list) => list,
        Err(_) => Seq::empty(),
    };
    ProjectView {
        worktrees: Some(result),
        marked: match result {
            Ok(list) => project.marked.intersect(listed_keys(list).to_set()),
            Err(_) => project.marked,
        },
        worktree_table: clamped_to(followed(project, list), list.len()),
        ..project
    }
}

/// A project whose pull requests were loaded again.
pub open spec fn with_prs(
    project: ProjectView,
    result: Result<Seq<PullRequestView>, Seq<char>>,
) -> ProjectView {
    let len = match result {
        Ok(list) => list.len(),
        Err(_) => 0,
    };
    ProjectView {
        prs_loading: false,
        prs: Some(result),
        pr_table: clamped_to(project.pr_table, len),
        ..project
    }
}

impl Project {
    pub fn new(path: String) -> (project: Self)
        ensures
            project.deep_view() == new_project(path@),
            project.deep_view().wf(),
    {
        let pr_files: HashMap<u64, PrFilesState> = HashMap::new();
        let project = Project {
            path,
            github: None,
            default_branch: None,
            lane: Lane::new(),
            loaded: false,
            refreshing: false,
            activity: None,
            pr_generation: 0,
            prs_loading: false,
            last_fetch: None,
            worktrees: None,
            marked: Marks::new(),
            prs: None,
            pr_files,
            worktree_table: None,
            pr_table: None,
        };
        proof {
            assert(project.deep_view().pr_files =~= Map::empty());
        }
        project
    }

    pub fn is_loading(&self) -> (loading: bool)
        ensures
            loading == self.deep_view().is_loading(),
    {
        self.refreshing || self.activity.is_some() || self.prs_loading
    }

    pub fn worktree_list(&self) -> (list: &[WorktreeInfo])
        ensures
            list.deep_view() == self.deep_view().worktree_list(),
            list@.len() == self.deep_view().worktree_list().len(),
    {
        match &self.worktrees {
            Some(Ok(list)) => list.as_slice(),
            _ => &[],
        }
    }

    pub fn pr_list(&self) -> (list: &[PullRequest])
        ensures
            list.deep_view() == self.deep_view().pr_list(),
            list@.len() == self.deep_view().pr_list().len(),
    {
        match &self.prs {
            Some(Ok(list)) => list.as_slice(),
            _ => &[],
        }
    }

    pub fn selected_worktree(&self) -> (info: Option<&WorktreeInfo>)
        ensures
            info.deep_view() == self.deep_view().selected_worktree(),
    {
        match self.worktree_table {
            Some(i) => {
                let list = self.worktree_list();
                if i < list.len() {
                    Some(&list[i])
                } else {
                    None
                }
            },
            None => None,
        }
    }

    pub fn selected_pr(&self) -> (pr: Option<&PullRequest>)
        ensures
            pr.deep_view() == self.deep_view().selected_pr(),
    {
        match self.pr_table {
            Some(i) => {
                let list = self.pr_list();
                if i < list.len() {
                    Some(&list[i])
                } else {
                    None
                }
            },
            None => None,
        }
    }

    pub fn default_branch(&self) -> (branch: &str)
        ensures
            branch@ == self.deep_view().default_branch_name(),
    {
        match &self.default_branch {
            Some(branch) => branch.as_str(),
            None => "main",
        }
    }

    pub fn base_ref(&self) -> (base: String)
        ensures
            base@ == self.deep_view().base(),
    {
        "origin/".to_owned().concat(self.default_branch())
    }

    /// Replaces the worktree list, keeping the cursor on the same worktree (by path) and
    /// dropping marks of worktrees that are gone.
    pub fn set_worktrees(&mut self, result: Result<Vec<WorktreeInfo>, String>)
        requires
            old(self).deep_view().wf(),
        ensures
            final(self).deep_view() == with_worktrees(old(self).deep_view(), result_view(result)),
            final(self).deep_view().wf(),
    {
        let ghost before = self.deep_view();
        let selected = match self.selected_worktree() {
            Some(info) => Some(info.worktree.path.clone()),
            None => None,
        };
        let (index, len) = match &result {
            Ok(list) => {
                let row = match &selected {
                    Some(path) => row_of(list, path),
                    None => None,
                };
                self.marked.retain_listed(list);
                (
                    match row {
                        Some(i) => Some(i),
                        None => self.worktree_table,
                    },
                    list.len(),
                )
            },
            Err(_) => (self.worktree_table, 0),
        };
        self.worktree_table = clamped(index, len);
        self.worktrees = Some(result);
        proof {
            assert(self.deep_view().worktrees == Some(result_view(result)));
            assert(self.deep_view() =~= with_worktrees(before, result_view(result)));
        }
    }

    /// Replaces the list of pull requests, keeping the selected row.
    pub fn set_prs(&mut self, result: Result<Vec<PullRequest>, String>)
        requires
            old(self).deep_view().wf(),
        ensures
            final(self).deep_view() == with_prs(old(self).deep_view(), result_view(result)),
            final(self).deep_view().wf(),
    {
        let ghost before = self.deep_view();
        let len = match &result {
            Ok(list) => list.len(),
            Err(_) => 0,
        };
        self.prs_loading = false;
        self.prs = Some(result);
        self.pr_table = clamped(self.pr_table, len);
        proof {
            assert(self.deep_view() =~= with_prs(before, result_view(result)));
        }
    }
}

} // verus!
