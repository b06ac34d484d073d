//! What the mining server keeps for all its workers.

use std::collections::VecDeque;

use vstd::prelude::*;

use crate::bytes::{bytes_span, law_le_bytes_read_back, le_bytes, u32_to_le};
use crate::stratum::job::{Job, JobModel};
use crate::text::same_text;

verus! {

/// The number of jobs that workers may still answer.
pub const RECENT_JOBS_WINDOW: usize = 8;

/// The current job, the latest jobs and the next extranonce 1.
pub struct StratumState {
    pub current_job: Option<Job>,
    /// The latest jobs, oldest first.
    pub recent_jobs: VecDeque<Job>,
    pub next_extranonce1: u32,
}

/// What a [`StratumState`] holds.
#[verifier::ext_equal]
pub struct StateModel {
    pub current_job: Option<JobModel>,
    pub recent_jobs: Seq<JobModel>,
    pub next_extranonce1: u32,
}

/// What an optional job holds.
pub open spec fn job_view(job: Option<Job>) -> Option<JobModel> {
    match job {
        Some(j) => Some(j@),
        None => None,
    }
}

/// What the jobs of a list hold.
pub open spec fn jobs_view(jobs: Seq<Job>) -> Seq<JobModel> {
    jobs.map_values(|j: Job| j@)
}

impl View for StratumState {
    type V = StateModel;

    open spec fn view(&self) -> StateModel {
        StateModel {
            current_job: job_view(self.current_job),
            recent_jobs: jobs_view(self.recent_jobs@),
            next_extranonce1: self.next_extranonce1,
        }
    }
}

/// The latest jobs after one more: the oldest leaves a full window.
pub open spec fn window_after(recent: Seq<JobModel>, job: JobModel) -> Seq<JobModel> {
    let longer = recent.push(job);
    if longer.len() > RECENT_JOBS_WINDOW {
        longer.drop_first()
    } else {
        longer
    }
}

/// The latest jobs after several more.
pub open spec fn window_after_all(recent: Seq<JobModel>, jobs: Seq<JobModel>) -> Seq<JobModel>
    decreases jobs.len(),
{
    if jobs.len() == 0 {
        recent
    } else {
        window_after(window_after_all(recent, jobs.drop_last()), jobs.last())
    }
}

/// The oldest of a list of jobs with an identifier.
pub open spec fn find_in(jobs: Seq<JobModel>, id: Seq<char>) -> Option<JobModel>
    decreases jobs.len(),
{
    if jobs.len() == 0 {
        None
    } else if jobs[0].job_id == id {
        Some(jobs[0])
    } else {
        find_in(jobs.drop_first(), id)
    }
}

/// The states that the server gets into: no more jobs than the window holds,
/// and the current job is the latest of them.
pub open spec fn state_wf(s: StateModel) -> bool {
    &&& s.recent_jobs.len() <= RECENT_JOBS_WINDOW
    &&& s.current_job == if s.recent_jobs.len() == 0 {
        None
    } else {
        Some(s.recent_jobs.last())
    }
}

impl StratumState {
    /// The state of a server that has made no job.
    pub fn new() -> (r: Self)
        ensures
            r@ == (StateModel {
                current_job: None,
                recent_jobs: Seq::empty(),
                next_extranonce1: 0,
            }),
            state_wf(r@),
    {
        let s = StratumState {
            current_job: None,
            recent_jobs: VecDeque::new(),
            next_extranonce1: 0,
        };
        assert(s@.recent_jobs =~= Seq::empty());
        s
    }

    /// Makes a job the current one and lets it into the window.
    pub fn push_job(&mut self, job: Job)
        ensures
            final(self)@ == (StateModel {
                current_job: Some(job@),
                recent_jobs: window_after(old(self)@.recent_jobs, job@),
                next_extranonce1: old(self)@.next_extranonce1,
            }),
            state_wf(old(self)@) ==> state_wf(final(self)@),
    {
        self.current_job = Some(job.clone());
        self.recent_jobs.push_back(job);
        assert(jobs_view(self.recent_jobs@) =~= old(self)@.recent_jobs.push(job@));
        if self.recent_jobs.len() > RECENT_JOBS_WINDOW {
            let _oldest = self.recent_jobs.pop_front();
            assert(jobs_view(self.recent_jobs@) =~= old(self)@.recent_jobs.push(job@).drop_first());
        }
    }

    /// Finds a job in the window.
    pub fn find_job(&self, job_id: &str) -> (r: Option<Job>)
        ensures
            job_view(r) == find_in(self@.recent_jobs, job_id@),
    {
        let ghost all = self@.recent_jobs;
        let mut i: usize = 0;
        assert(all.skip(0) =~= all);
        while i < self.recent_jobs.len()
            invariant
                i <= self.recent_jobs@.len(),
                all == jobs_view(self.recent_jobs@),
                find_in(all, job_id@) == find_in(all.skip(i as int), job_id@),
            decreases self.recent_jobs@.len() - i,
        {
            let job = &self.recent_jobs[i];
            assert(all.skip(i as int)[0] == job@);
            if same_text(job.job_id.as_str(), job_id) {
                return Some(job.clone());
            }
            assert(all.skip(i as int).drop_first() =~= all.skip(i + 1));
            i = i + 1;
        }
        None
    }

    /// Assigns the next worker its extranonce 1.
    pub fn assign_extranonce1(&mut self) -> (r: [u8; 4])
        ensures
            r@ == le_bytes(old(self)@.next_extranonce1 as nat, 4),
            final(self)@ == (StateModel {
                next_extranonce1: if old(self)@.next_extranonce1 < u32::MAX {
                    (old(self)@.next_extranonce1 + 1) as u32
                } else {
                    0
                },
                ..old(self)@
            }),
            state_wf(old(self)@) ==> state_wf(final(self)@),
    {
        let n: u32 = self.next_extranonce1;
        self.next_extranonce1 = if n < u32::MAX {
            n + 1
        } else {
            0
        };
        u32_to_le(n)
    }
}

/// The window holds the latest jobs, eight at most, in the order in which they
/// came.
pub proof fn law_window_holds_latest(recent: Seq<JobModel>, jobs: Seq<JobModel>)
    requires
        recent.len() <= RECENT_JOBS_WINDOW,
    ensures
        ({
            let all = recent + jobs;
            let n = all.len() - RECENT_JOBS_WINDOW;
            window_after_all(recent, jobs) == if n > 0 {
                all.skip(n)
            } else {
                all
            }
        }),
    decreases jobs.len(),
{
    if jobs.len() == 0 {
        assert(recent + jobs =~= recent);
    } else {
        law_window_holds_latest(recent, jobs.drop_last());
        let before = recent + jobs.drop_last();
        let all = recent + jobs;
        assert(all =~= before.push(jobs.last()));
        let n = all.len() - RECENT_JOBS_WINDOW;
        if n > 1 {
            assert(all.skip(n) =~= before.skip(n - 1).push(jobs.last()).drop_first());
        } else if n == 1 {
            assert(all.skip(n) =~= before.push(jobs.last()).drop_first());
        }
    }
}

proof fn lemma_find_in_miss(jobs: Seq<JobModel>, id: Seq<char>)
    requires
        forall|i: int| 0 <= i < jobs.len() ==> (#[trigger] jobs[i]).job_id != id,
    ensures
        find_in(jobs, id) is None,
    decreases jobs.len(),
{
    if jobs.len() > 0 {
        let rest = jobs.drop_first();
        assert forall|i: int| 0 <= i < rest.len() implies (#[trigger] rest[i]).job_id != id by {
            assert(rest[i] == jobs[i + 1]);
        }
        lemma_find_in_miss(rest, id);
    }
}

proof fn lemma_find_in_last(jobs: Seq<JobModel>, job: JobModel)
    requires
        forall|i: int| 0 <= i < jobs.len() ==> (#[trigger] jobs[i]).job_id != job.job_id,
    ensures
        find_in(jobs.push(job), job.job_id) == Some(job),
    decreases jobs.len(),
{
    if jobs.len() > 0 {
        let rest = jobs.drop_first();
        assert forall|i: int| 0 <= i < rest.len() implies (#[trigger] rest[i]).job_id != job.job_id by {
            assert(rest[i] == jobs[i + 1]);
        }
        lemma_find_in_last(rest, job);
        assert(jobs.push(job).drop_first() =~= rest.push(job));
    }
}

/// A job with a new identifier is found once it is in the window.
pub proof fn law_new_job_is_found(recent: Seq<JobModel>, job: JobModel)
    requires
        forall|i: int| 0 <= i < recent.len() ==> (#[trigger] recent[i]).job_id != job.job_id,
    ensures
        find_in(window_after(recent, job), job.job_id) == Some(job),
{
    if recent.len() + 1 > RECENT_JOBS_WINDOW {
        let rest = recent.drop_first();
        assert(recent.push(job).drop_first() =~= rest.push(job));
        assert forall|i: int| 0 <= i < rest.len() implies (#[trigger] rest[i]).job_id != job.job_id by {
            assert(rest[i] == recent[i + 1]);
        }
        lemma_find_in_last(rest, job);
    } else {
        lemma_find_in_last(recent, job);
    }
}

/// A job is no longer found after as many others as the window holds.
pub proof fn law_old_job_is_forgotten(
    recent: Seq<JobModel>,
    jobs: Seq<JobModel>,
    id: Seq<char>,
)
    requires
        recent.len() <= RECENT_JOBS_WINDOW,
        jobs.len() >= RECENT_JOBS_WINDOW,
        forall|i: int| 0 <= i < jobs.len() ==> (#[trigger] jobs[i]).job_id != id,
    ensures
        find_in(window_after_all(recent, jobs), id) is None,
{
    law_window_holds_latest(recent, jobs);
    let all = recent + jobs;
    let n = all.len() - RECENT_JOBS_WINDOW;
    let window = window_after_all(recent, jobs);
    assert(n >= recent.len());
    assert forall|i: int| 0 <= i < window.len() implies (#[trigger] window[i]).job_id != id by {
        if n > 0 {
            assert(window[i] == all[n + i]);
        }
        assert(window[i] == jobs[n + i - recent.len()]);
    }
    lemma_find_in_miss(window, id);
}

/// Workers with different numbers have different extranonces.
pub proof fn law_extranonces_differ(m: u32, n: u32)
    requires
        m != n,
    ensures
        le_bytes(m as nat, 4) != le_bytes(n as nat, 4),
{
    reveal_with_fuel(bytes_span, 5);
    law_le_bytes_read_back(m as nat, 4);
    law_le_bytes_read_back(n as nat, 4);
}

}
