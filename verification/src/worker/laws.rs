//! What a lane and its jobs do, step by step.
use vstd::prelude::*;

use super::{
    advanced, begun, checked, job_answered, job_begun, job_question, lane_question, pr_source_of,
    CommandView, JobPhaseView, JobRunView, JobView, LaneRunView, ReplyView, StageView, TaskView,
    UpdateKindView,
};
use crate::cmd::AttemptView;
use crate::gh::repo_list_args;
use crate::git::change::merge_summary;
use crate::git::{default_branch_of, git_output, git_text_output, github_of, WorktreeInfoView};

verus! {

/// A lane takes up a refresh without a word and a job with the report that it started; what it knows
/// of the repository stays.
pub proof fn what_a_lane_takes_up(lane: LaneRunView, id: u64, job: JobView)
    ensures
        begun(lane, TaskView::Refresh).0 == (LaneRunView { stage: StageView::Remote, ..lane }),
        begun(lane, TaskView::Refresh).1.len() == 0,
        begun(lane, TaskView::Job { id, job }).0 == (LaneRunView {
            stage: StageView::Working { id, job },
            ..lane
        }),
        begun(lane, TaskView::Job { id, job }).1 == seq![UpdateKindView::JobStarted(id)],
{
}

/// A job from its start to its end, whatever came back: its result is reported, the default branch
/// is looked up, and the worktrees are shown again. It fetches nothing and asks gh nothing, and the
/// repository and the pull requests known from before stay.
pub proof fn a_job_runs_its_course(
    lane: LaneRunView,
    id: u64,
    job: JobView,
    result: Result<Seq<char>, Seq<char>>,
    head: AttemptView,
    reload: Result<Seq<WorktreeInfoView>, Seq<char>>,
)
    ensures
        ({
            let (l0, u0) = begun(lane, TaskView::Job { id, job });
            let (l1, u1) = advanced(l0, ReplyView::Job(result));
            let (l2, u2) = advanced(l1, ReplyView::Git(head));
            let (l3, u3) = advanced(l2, ReplyView::Worktrees(reload));
            &&& lane_question(l0) is None
            &&& lane_question(l1) == Some(
                CommandView {
                    program: "git"@,
                    dir: lane.repo,
                    args: seq!["symbolic-ref"@, "refs/remotes/origin/HEAD"@],
                },
            )
            &&& lane_question(l2) is None
            &&& lane_question(l3) is None
            &&& u0 + u1 + u2 + u3 == seq![
                UpdateKindView::JobStarted(id),
                UpdateKindView::JobFinished { id, result },
                UpdateKindView::Activity(Some("updating worktrees…"@)),
                UpdateKindView::Worktrees(reload),
                UpdateKindView::Activity(None),
            ]
            &&& l2.base == "origin/"@ + default_branch_of(lane.repo, head)
            &&& l3 == (LaneRunView { stage: StageView::Idle, base: l2.base, ..lane })
        }),
{
}

/// The commands that a refresh waits for, one after the other.
pub proof fn what_a_refresh_asks(lane: LaneRunView)
    ensures
        lane.stage is Remote ==> lane_question(lane) == Some(
            CommandView {
                program: "git"@,
                dir: lane.repo,
                args: seq!["config"@, "--get"@, "remote.origin.url"@],
            },
        ),
        lane.stage is Head ==> lane_question(lane) == Some(
            CommandView {
                program: "git"@,
                dir: lane.repo,
                args: seq!["symbolic-ref"@, "refs/remotes/origin/HEAD"@],
            },
        ),
        lane.stage is Fetching ==> lane_question(lane) == Some(
            CommandView {
                program: "git"@,
                dir: lane.repo,
                args: seq!["fetch"@, "origin"@, "--prune"@],
            },
        ),
        lane.stage is Listing && lane.github is Some ==> lane_question(lane) == Some(
            CommandView {
                program: "gh"@,
                dir: lane.repo,
                args: repo_list_args(lane.github->Some_0),
            },
        ),
        lane.stage is Idle || lane.stage is Quick || lane.stage is Full || lane.stage is Reload
            || lane.stage is Working ==> lane_question(lane) is None,
{
}

/// Only the quick numbers that a refresh shows first go without the merge check.
pub proof fn which_numbers_are_checked(lane: LaneRunView)
    ensures
        lane.stage is Quick ==> !checked(lane),
        lane.stage is Full || lane.stage is Reload ==> checked(lane),
        !checked(lane) ==> lane.stage is Quick,
{
}

/// What a lane that waits for something else makes of a reply: nothing.
pub proof fn unexpected_replies_change_nothing(lane: LaneRunView, reply: ReplyView)
    requires
        match lane.stage {
            StageView::Idle => true,
            StageView::Remote => !(reply is Git),
            StageView::Head => !(reply is Git),
            StageView::Fetching => !(reply is Git),
            StageView::ReloadHead => !(reply is Git),
            StageView::Quick => !(reply is Worktrees),
            StageView::Full => !(reply is Worktrees),
            StageView::Reload => !(reply is Worktrees),
            StageView::Listing => !(reply is Prs),
            StageView::Working { .. } => !(reply is Job),
        },
    ensures
        advanced(lane, reply).0 == lane,
        advanced(lane, reply).1.len() == 0,
{
}

/// The commands of a job: a delete removes the worktree and then, once that has succeeded, its
/// branch; a sync merges in the worktree. A job that is over has none.
pub proof fn what_a_job_runs(
    repo: Seq<char>,
    path: Seq<char>,
    branch: Seq<char>,
    base: Seq<char>,
    result: Result<Seq<char>, Seq<char>>,
    job: JobView,
)
    ensures
        job_question(job_begun(repo, JobView::Delete { path, branch: Some(branch) })) == Some(
            (repo, seq!["worktree"@, "remove"@, "--force"@, "--force"@, path]),
        ),
        job_question(job_begun(repo, JobView::Delete { path, branch: None })) == Some(
            (repo, seq!["worktree"@, "remove"@, "--force"@, "--force"@, path]),
        ),
        job_question(
            JobRunView {
                repo,
                job: JobView::Delete { path, branch: Some(branch) },
                phase: JobPhaseView::Branch,
            },
        ) == Some((repo, seq!["branch"@, "-D"@, branch])),
        job_question(job_begun(repo, JobView::Sync { worktree: path, base })) == Some(
            (path, seq!["merge"@, base]),
        ),
        job_question(JobRunView { repo, job, phase: JobPhaseView::Over(result) }) is None,
{
}

/// How a delete goes on: a worktree that could not be removed ends it with git's reason; after that
/// the branch is due, or nothing where there is none.
pub proof fn how_a_delete_goes_on(
    repo: Seq<char>,
    path: Seq<char>,
    branch: Option<Seq<char>>,
    attempt: AttemptView,
)
    ensures
        ({
            let job = JobView::Delete { path, branch };
            let removed = git_output(
                repo,
                seq!["worktree"@, "remove"@, "--force"@, "--force"@, path],
                attempt,
            );
            let after = job_answered(job_begun(repo, job), attempt);
            &&& after.repo == repo && after.job == job
            &&& removed is Err ==> after.phase == JobPhaseView::Over(Err(removed->Err_0))
            &&& removed is Ok && branch is Some ==> after.phase is Branch
            &&& removed is Ok && branch is None ==> after.phase == JobPhaseView::Over(
                Ok("worktree deleted"@),
            )
        }),
{
}

/// How a delete with a branch ends: both are gone, or only the worktree is and the message says so.
pub proof fn how_a_delete_ends(
    repo: Seq<char>,
    path: Seq<char>,
    branch: Seq<char>,
    attempt: AttemptView,
)
    ensures
        ({
            let job = JobView::Delete { path, branch: Some(branch) };
            let gone = git_output(repo, seq!["branch"@, "-D"@, branch], attempt);
            let after = job_answered(
                JobRunView { repo, job, phase: JobPhaseView::Branch },
                attempt,
            );
            &&& after.repo == repo && after.job == job
            &&& gone is Ok ==> after.phase == JobPhaseView::Over(
                Ok("worktree and branch "@ + branch + " deleted"@),
            )
            &&& gone is Err ==> after.phase == JobPhaseView::Over(
                Err(
                    "The worktree is gone, but git branch -D "@ + branch + " failed:\n"@
                        + gone->Err_0,
                ),
            )
        }),
{
}

/// A sync ends after its merge, with what git says of it.
pub proof fn how_a_sync_ends(
    repo: Seq<char>,
    worktree: Seq<char>,
    base: Seq<char>,
    attempt: AttemptView,
)
    ensures
        ({
            let job = JobView::Sync { worktree, base };
            let merged = git_text_output(worktree, seq!["merge"@, base], attempt);
            let after = job_answered(job_begun(repo, job), attempt);
            &&& after.repo == repo && after.job == job
            &&& merged is Ok ==> after.phase == JobPhaseView::Over(Ok(merge_summary(merged->Ok_0)))
            &&& merged is Err ==> after.phase == JobPhaseView::Over(Err(merged->Err_0))
        }),
{
}

/// An answer to a job that is over changes nothing.
pub proof fn a_job_that_is_over_stays_so(run: JobRunView, attempt: AttemptView)
    requires
        run.phase is Over,
    ensures
        job_answered(run, attempt) == run,
{
}

/// Pull requests are loaded from the repository that origin names, and a project without one says so.
pub proof fn where_pull_requests_come_from(dir: Seq<char>, attempt: AttemptView)
    ensures
        github_of(dir, attempt) is Some ==> pr_source_of(dir, attempt) == Ok::<
            Seq<char>,
            Seq<char>,
        >(github_of(dir, attempt)->Some_0),
        github_of(dir, attempt) is None ==> pr_source_of(dir, attempt) == Err::<
            Seq<char>,
            Seq<char>,
        >("origin is not a GitHub remote, so there are no pull requests to show."@),
{
}

} // verus!
