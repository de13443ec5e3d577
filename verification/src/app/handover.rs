//! Handing work out to the surroundings, and checking what they hand in.
use vstd::prelude::*;

use super::state::{rows_wf, Action, App, AppView, Hits, Mode, ProjectView, Request, Rows};
use super::with_project;
use crate::worker::Task;

verus! {

impl App {
    /// Hands out the requests that have piled up, oldest first.
    pub fn take_requests(&mut self) -> (requests: Vec<Request>)
        ensures
            requests.deep_view() == old(self).deep_view().requests,
            final(self).deep_view() == (AppView {
                requests: Seq::empty(),
                ..old(self).deep_view()
            }),
            old(self).deep_view().wf() ==> final(self).deep_view().wf(),
    {
        let mut requests: Vec<Request> = Vec::new();
        std::mem::swap(&mut self.requests, &mut requests);
        proof {
            assert(self.deep_view().requests =~= Seq::empty());
        }
        requests
    }

    /// Hands out the oldest task of project `index`, if one waits.
    pub fn next_task(&mut self, index: usize) -> (task: Option<Task>)
        requires
            old(self).deep_view().wf(),
        ensures
            ({
                let before = old(self).deep_view();
                if index < before.projects.len() && before.projects[index as int].lane.len() > 0 {
                    let project = before.projects[index as int];
                    &&& task.deep_view() == Some(project.lane[0])
                    &&& final(self).deep_view() == with_project(
                        before,
                        index as int,
                        ProjectView { lane: project.lane.drop_first(), ..project },
                    )
                } else {
                    task is None && final(self).deep_view() == before
                }
            }),
            final(self).deep_view().wf(),
    {
        let ghost before = self.deep_view();
        if index >= self.projects.len() {
            return None;
        }
        let task = self.projects[index].lane.take();
        proof {
            let project = before.projects[index as int];
            if project.lane.len() > 0 {
                let next = ProjectView { lane: project.lane.drop_first(), ..project };
                assert(self.projects@[index as int].deep_view() =~= next);
                assert(self.deep_view().projects =~= before.projects.update(index as int, next));
            } else {
                assert(self.deep_view().projects =~= before.projects);
            }
        }
        task
    }

    /// Whether neither job ids nor generations have run out.
    pub fn has_room(&self) -> (room: bool)
        requires
            self.deep_view().wf(),
        ensures
            room == self.deep_view().room(),
    {
        let ghost projects = self.deep_view().projects;
        let mut i: usize = 0;
        while i < self.projects.len()
            invariant
                i <= self.projects@.len(),
                projects == self.projects.deep_view(),
                forall|j: int| 0 <= j < i ==> (#[trigger] projects[j]).pr_generation < u64::MAX,
            decreases self.projects@.len() - i,
        {
            proof {
                assert(projects[i as int] == self.projects@[i as int].deep_view());
            }
            if self.projects[i].pr_generation == u64::MAX {
                return false;
            }
            i = i + 1;
        }
        match &self.mode {
            Mode::Confirm(confirm) => {
                let left = u64::MAX - self.next_job;
                match &confirm.action {
                    Action::Queue { planned, skipped, .. } => {
                        let count = planned.len() as u64;
                        count <= left && skipped.len() as u64 <= left - count
                    },
                    Action::Sync(_) => left >= 1,
                    _ => true,
                }
            },
            _ => true,
        }
    }
}

fn rows_valid(rows: &Option<Rows>) -> (valid: bool)
    ensures
        valid == rows_wf(*rows),
{
    match rows {
        Some(rows) => rows.row_height > 0 && rows.offset <= usize::MAX - u16::MAX as usize,
        None => true,
    }
}

impl Hits {
    /// Whether clicks can be located in these areas.
    pub fn is_valid(&self) -> (valid: bool)
        ensures
            valid == self.deep_view().wf(),
    {
        rows_valid(&self.projects) && rows_valid(&self.list) && rows_valid(&self.detail)
    }
}

} // verus!
