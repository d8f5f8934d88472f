//! The mathematical model of the engine: what it holds, and what each of its
//! operations returns and leaves behind.

use crate::job::{may_follow, step_allowed, JobHandle, JobView, StateView};
use vstd::prelude::*;

verus! {

/// Why a submission created no job.
#[derive(Debug, Clone, Copy, PartialEq, Eq, Structural)]
pub enum SubmitError {
    /// Every serial number has been issued.
    Exhausted,
}

/// Why a transition was not applied.
#[derive(Debug, Clone, Copy, PartialEq, Eq, Structural)]
pub enum TransitionError {
    /// The engine holds no job with that handle.
    UnknownJob,
    /// The state machine has no such transition from the job's state.
    NotAllowed,
}

/// A question asked of one job.
pub enum JobQuery {
    /// Is it a job for this track, whatever its state?
    Track(Seq<char>),
    /// Is it the active job for this track?
    ActiveTrack(Seq<char>),
    /// Is it a `Done` job for this track?
    FinishedTrack(Seq<char>),
    /// Is it `Queued`?
    Waiting,
    /// Is it the job with this handle?
    Handle(JobHandle),
}

/// Whether `job` answers the question `q` with yes.
pub open spec fn answers(job: JobView, q: JobQuery) -> bool {
    match q {
        JobQuery::Track(id) => job.track_id == id,
        JobQuery::ActiveTrack(id) => job.track_id == id && job.is_active(),
        JobQuery::FinishedTrack(id) => job.track_id == id && job.state is Done,
        JobQuery::Waiting => job.state is Queued,
        JobQuery::Handle(h) => job.handle == h,
    }
}

/// Index of the first job that answers `q`, or `jobs.len()` if none does.
pub open spec fn first_match(jobs: Seq<JobView>, q: JobQuery) -> int
    decreases jobs.len(),
{
    if jobs.len() == 0 {
        0
    } else if answers(jobs[0], q) {
        0
    } else {
        1 + first_match(jobs.drop_first(), q)
    }
}

/// No job answers `q`.
pub open spec fn no_match(jobs: Seq<JobView>, q: JobQuery) -> bool {
    forall|i: int| 0 <= i < jobs.len() ==> !answers(#[trigger] jobs[i], q)
}

/// Exactly one job answers `q`.
pub open spec fn exactly_one(jobs: Seq<JobView>, q: JobQuery) -> bool {
    exists|i: int|
        {
            &&& 0 <= i < jobs.len()
            &&& answers(#[trigger] jobs[i], q)
            &&& forall|j: int| 0 <= j < jobs.len() && answers(#[trigger] jobs[j], q) ==> j == i
        }
}

/// Those of `jobs` that are `Done`, in order.
pub open spec fn finished_of(jobs: Seq<JobView>) -> Seq<JobView> {
    jobs.filter(|job: JobView| job.state is Done)
}

/// Those of `jobs` that are not `Failed`, in order.
pub open spec fn kept_of(jobs: Seq<JobView>) -> Seq<JobView> {
    jobs.filter(|job: JobView| !(job.state is Failed))
}

/// Mathematical model of a [`JobEngine`]: its jobs in the order of their
/// submission, and how many serial numbers it has issued.
pub struct EngineView {
    pub jobs: Seq<JobView>,
    pub issued: nat,
}

impl EngineView {
    /// The engine that holds no job and has issued no serial number.
    pub open spec fn empty() -> EngineView {
        EngineView { jobs: Seq::empty(), issued: 0 }
    }

    /// What holds of every engine: serial numbers were issued in rising
    /// order, and no track has two active jobs.
    pub open spec fn well_formed(self) -> bool {
        &&& self.issued <= u64::MAX
        &&& forall|i: int|
            0 <= i < self.jobs.len() ==> (#[trigger] self.jobs[i]).handle.serial < self.issued
        &&& forall|i: int, j: int|
            0 <= i < j < self.jobs.len() ==> (#[trigger] self.jobs[i]).handle.serial < (
            #[trigger] self.jobs[j]).handle.serial
        &&& forall|i: int, j: int|
            0 <= i < self.jobs.len() && 0 <= j < self.jobs.len() && i != j && (
            #[trigger] self.jobs[i]).is_active() && (#[trigger] self.jobs[j]).is_active()
                ==> self.jobs[i].track_id != self.jobs[j].track_id
    }

    /// Whether the engine holds a job with this handle.
    pub open spec fn holds(self, handle: JobHandle) -> bool {
        exists|i: int| 0 <= i < self.jobs.len() && (#[trigger] self.jobs[i]).handle == handle
    }

    /// The job that a submission for `track_id` creates.
    pub open spec fn fresh_job(
        self,
        track_id: Seq<char>,
        title: Seq<char>,
        author: Seq<char>,
    ) -> JobView {
        JobView {
            handle: JobHandle { serial: self.issued as u64 },
            track_id,
            title,
            author,
            state: StateView::Queued,
        }
    }

    /// What a submission for `track_id` returns: the handle of the active job
    /// for that track if there is one, else the handle of a new job, or an
    /// error where no serial number is left.
    pub open spec fn submit_outcome(self, track_id: Seq<char>) -> Result<JobHandle, SubmitError> {
        let i = first_match(self.jobs, JobQuery::ActiveTrack(track_id));
        if i < self.jobs.len() {
            Ok(self.jobs[i].handle)
        } else if self.issued >= u64::MAX {
            Err(SubmitError::Exhausted)
        } else {
            Ok(JobHandle { serial: self.issued as u64 })
        }
    }

    /// The engine after a submission: unchanged where the track has an active
    /// job or no serial number is left, else with a new `Queued` job at the
    /// end.
    pub open spec fn submit(
        self,
        track_id: Seq<char>,
        title: Seq<char>,
        author: Seq<char>,
    ) -> EngineView {
        let i = first_match(self.jobs, JobQuery::ActiveTrack(track_id));
        if i < self.jobs.len() || self.issued >= u64::MAX {
            self
        } else {
            EngineView {
                jobs: self.jobs.push(self.fresh_job(track_id, title, author)),
                issued: self.issued + 1,
            }
        }
    }

    /// The engine with the state of the job at index `i` replaced.
    pub open spec fn with_state(self, i: int, state: StateView) -> EngineView {
        EngineView {
            jobs: self.jobs.update(i, JobView { state, ..self.jobs[i] }),
            issued: self.issued,
        }
    }

    /// The handle of the job that a worker claims next: the first `Queued`
    /// one.
    pub open spec fn next_waiting(self) -> Option<JobHandle> {
        let i = first_match(self.jobs, JobQuery::Waiting);
        if i < self.jobs.len() {
            Some(self.jobs[i].handle)
        } else {
            None
        }
    }

    /// The engine after a worker has claimed the next job: the first
    /// `Queued` job is `Locked`.
    pub open spec fn claim_next(self) -> EngineView {
        let i = first_match(self.jobs, JobQuery::Waiting);
        if i < self.jobs.len() {
            self.with_state(i, StateView::Locked)
        } else {
            self
        }
    }

    /// Whether the job with this handle may move to `next`.
    pub open spec fn transition_outcome(self, handle: JobHandle, next: StateView) -> Result<
        (),
        TransitionError,
    > {
        let i = first_match(self.jobs, JobQuery::Handle(handle));
        if i >= self.jobs.len() {
            Err(TransitionError::UnknownJob)
        } else if !step_allowed(self.jobs[i].state, next) {
            Err(TransitionError::NotAllowed)
        } else {
            Ok(())
        }
    }

    /// The engine after the job with this handle was asked to move to `next`:
    /// changed only where `transition_outcome` is `Ok`.
    pub open spec fn transition(self, handle: JobHandle, next: StateView) -> EngineView {
        let i = first_match(self.jobs, JobQuery::Handle(handle));
        if i < self.jobs.len() && step_allowed(self.jobs[i].state, next) {
            self.with_state(i, next)
        } else {
            self
        }
    }

    /// The jobs in `Done` state, in order.
    pub open spec fn finished(self) -> Seq<JobView> {
        finished_of(self.jobs)
    }

    /// The artifact path that a retrieval for `track_id` hands out: that of
    /// the first `Done` job for the track, if there is one.
    pub open spec fn retrieved(self, track_id: Seq<char>) -> Option<Seq<char>> {
        let i = first_match(self.jobs, JobQuery::FinishedTrack(track_id));
        if i < self.jobs.len() {
            Some(self.jobs[i].state->artifact_path)
        } else {
            None
        }
    }

    /// The engine after a retrieval for `track_id`: without the job whose
    /// artifact was handed out.
    pub open spec fn retrieve(self, track_id: Seq<char>) -> EngineView {
        let i = first_match(self.jobs, JobQuery::FinishedTrack(track_id));
        if i < self.jobs.len() {
            EngineView { jobs: self.jobs.remove(i), issued: self.issued }
        } else {
            self
        }
    }

    /// The job with this handle.
    pub open spec fn job(self, handle: JobHandle) -> Option<JobView> {
        let i = first_match(self.jobs, JobQuery::Handle(handle));
        if i < self.jobs.len() {
            Some(self.jobs[i])
        } else {
            None
        }
    }

    /// The engine without its `Failed` jobs.
    pub open spec fn clear_failed(self) -> EngineView {
        EngineView { jobs: kept_of(self.jobs), issued: self.issued }
    }

    /// Whether `later` can be a later state of this engine: no serial number
    /// is taken back, no job comes back once it left, and every job that is
    /// still there is the same job in a state that may follow the one it had.
    pub open spec fn evolves_into(self, later: EngineView) -> bool {
        &&& self.issued <= later.issued
        &&& forall|j: int|
            0 <= j < later.jobs.len() ==> (#[trigger] later.jobs[j]).handle.serial >= self.issued
                || self.holds(later.jobs[j].handle)
        &&& forall|i: int, j: int|
            0 <= i < self.jobs.len() && 0 <= j < later.jobs.len() && (
            #[trigger] self.jobs[i]).handle == (#[trigger] later.jobs[j]).handle ==> {
                &&& later.jobs[j].track_id == self.jobs[i].track_id
                &&& later.jobs[j].title == self.jobs[i].title
                &&& later.jobs[j].author == self.jobs[i].author
                &&& may_follow(self.jobs[i].state, later.jobs[j].state)
            }
    }
}

} // verus!
