//! The job engine: the one collection of jobs and the operations through
//! which every other component reads or changes it.

pub mod laws;
pub mod model;

pub use crate::engine::model::{EngineView, SubmitError, TransitionError};

use crate::engine::laws::{
    lemma_claim_next, lemma_clear_failed, lemma_finished_push, lemma_first_match,
    lemma_first_match_is, lemma_kept_push, lemma_retrieve, lemma_submit, lemma_transition,
};
use crate::engine::model::{answers, finished_of, first_match, kept_of, JobQuery};
use crate::job::{
    job_views, state_after, DownloadState, Job, JobHandle, StateView, WorkerEvent,
};
use vstd::prelude::*;

verus! {

/// The engine that owns every job. Other components read and change jobs
/// through its operations only.
pub struct JobEngine {
    jobs: Vec<Job>,
    issued: u64,
}

impl View for JobEngine {
    type V = EngineView;

    closed spec fn view(&self) -> EngineView {
        EngineView { jobs: job_views(self.jobs@), issued: self.issued as nat }
    }
}

impl JobEngine {
    /// What every operation keeps: see [`EngineView::well_formed`].
    pub open spec fn wf(&self) -> bool {
        self@.well_formed()
    }

    /// An engine without jobs.
    pub fn new() -> (r: JobEngine)
        ensures
            r@ == EngineView::empty(),
            r.wf(),
    {
        let r = JobEngine { jobs: Vec::new(), issued: 0 };
        assert(r@.jobs =~= Seq::empty());
        r
    }

    /// An engine without jobs that numbers its jobs from `first` on.
    pub fn numbering_from(first: u64) -> (r: JobEngine)
        ensures
            r@ == (EngineView { jobs: Seq::empty(), issued: first as nat }),
            r.wf(),
    {
        let r = JobEngine { jobs: Vec::new(), issued: first };
        assert(r@.jobs =~= Seq::empty());
        r
    }

    /// Index of the active job for `track_id`, or the number of jobs.
    fn find_active(&self, track_id: &str) -> (i: usize)
        ensures
            i == first_match(self@.jobs, JobQuery::ActiveTrack(track_id@)),
    {
        let mut i: usize = 0;
        while i < self.jobs.len()
            invariant
                i <= self.jobs.len(),
                forall|j: int|
                    0 <= j < i ==> !answers(
                        #[trigger] self@.jobs[j],
                        JobQuery::ActiveTrack(track_id@),
                    ),
            decreases self.jobs.len() - i,
        {
            if self.jobs[i].track_id.as_str().eq(track_id) && !self.jobs[i].state.is_terminal() {
                proof {
                    lemma_first_match_is(self@.jobs, JobQuery::ActiveTrack(track_id@), i as int);
                }
                return i;
            }
            i += 1;
        }
        proof {
            lemma_first_match_is(self@.jobs, JobQuery::ActiveTrack(track_id@), i as int);
        }
        i
    }

    /// Index of the first `Done` job for `track_id`, or the number of jobs.
    fn find_finished(&self, track_id: &str) -> (i: usize)
        ensures
            i == first_match(self@.jobs, JobQuery::FinishedTrack(track_id@)),
    {
        let mut i: usize = 0;
        while i < self.jobs.len()
            invariant
                i <= self.jobs.len(),
                forall|j: int|
                    0 <= j < i ==> !answers(
                        #[trigger] self@.jobs[j],
                        JobQuery::FinishedTrack(track_id@),
                    ),
            decreases self.jobs.len() - i,
        {
            if self.jobs[i].track_id.as_str().eq(track_id) && matches!(
                self.jobs[i].state,
                DownloadState::Done { .. }
            ) {
                proof {
                    lemma_first_match_is(self@.jobs, JobQuery::FinishedTrack(track_id@), i as int);
                }
                return i;
            }
            i += 1;
        }
        proof {
            lemma_first_match_is(self@.jobs, JobQuery::FinishedTrack(track_id@), i as int);
        }
        i
    }

    /// Index of the first `Queued` job, or the number of jobs.
    fn find_waiting(&self) -> (i: usize)
        ensures
            i == first_match(self@.jobs, JobQuery::Waiting),
    {
        let mut i: usize = 0;
        while i < self.jobs.len()
            invariant
                i <= self.jobs.len(),
                forall|j: int| 0 <= j < i ==> !answers(#[trigger] self@.jobs[j], JobQuery::Waiting),
            decreases self.jobs.len() - i,
        {
            if matches!(self.jobs[i].state, DownloadState::Queued) {
                proof {
                    lemma_first_match_is(self@.jobs, JobQuery::Waiting, i as int);
                }
                return i;
            }
            i += 1;
        }
        proof {
            lemma_first_match_is(self@.jobs, JobQuery::Waiting, i as int);
        }
        i
    }

    /// Index of the job with this handle, or the number of jobs.
    fn find_handle(&self, handle: JobHandle) -> (i: usize)
        ensures
            i == first_match(self@.jobs, JobQuery::Handle(handle)),
    {
        let mut i: usize = 0;
        while i < self.jobs.len()
            invariant
                i <= self.jobs.len(),
                forall|j: int|
                    0 <= j < i ==> !answers(#[trigger] self@.jobs[j], JobQuery::Handle(handle)),
            decreases self.jobs.len() - i,
        {
            if self.jobs[i].handle.serial == handle.serial {
                proof {
                    lemma_first_match_is(self@.jobs, JobQuery::Handle(handle), i as int);
                }
                return i;
            }
            i += 1;
        }
        proof {
            lemma_first_match_is(self@.jobs, JobQuery::Handle(handle), i as int);
        }
        i
    }

    /// Accepts a request to download a track. Where the track has an active
    /// job already, nothing changes and that job's handle is returned;
    /// otherwise a `Queued` job is added at the end.
    pub fn submit(&mut self, track_id: String, title: String, author: String) -> (r: Result<
        JobHandle,
        SubmitError,
    >)
        requires
            old(self).wf(),
        ensures
            final(self).wf(),
            final(self)@ == old(self)@.submit(track_id@, title@, author@),
            r == old(self)@.submit_outcome(track_id@),
            old(self)@.evolves_into(final(self)@),
    {
        proof {
            lemma_submit(self@, track_id@, title@, author@);
        }
        let i = self.find_active(track_id.as_str());
        if i < self.jobs.len() {
            return Ok(self.jobs[i].handle);
        }
        if self.issued == u64::MAX {
            return Err(SubmitError::Exhausted);
        }
        let handle = JobHandle { serial: self.issued };
        let job = Job { handle, track_id, title, author, state: DownloadState::Queued };
        self.jobs.push(job);
        self.issued = self.issued + 1;
        assert(self@.jobs =~= old(self)@.jobs.push(
            old(self)@.fresh_job(track_id@, title@, author@),
        ));
        Ok(handle)
    }

    /// A copy of every job held, in the order of submission.
    pub fn snapshot(&self) -> (r: Vec<Job>)
        ensures
            job_views(r@) == self@.jobs,
    {
        let mut out: Vec<Job> = Vec::new();
        let mut i: usize = 0;
        while i < self.jobs.len()
            invariant
                i <= self.jobs.len(),
                out.len() == i,
                job_views(out@) == self@.jobs.take(i as int),
            decreases self.jobs.len() - i,
        {
            let ghost before = out@;
            out.push(self.jobs[i].clone());
            i += 1;
            assert forall|k: int| 0 <= k < i implies job_views(out@)[k] == self@.jobs[k] by {
                if k < i - 1 {
                    assert(job_views(before)[k] == self@.jobs.take(i - 1)[k]);
                }
            }
            assert(job_views(out@) =~= self@.jobs.take(i as int));
        }
        assert(self@.jobs.take(i as int) =~= self@.jobs);
        out
    }

    /// A copy of every job in `Done` state, in the order of submission.
    pub fn finished_snapshot(&self) -> (r: Vec<Job>)
        ensures
            job_views(r@) == self@.finished(),
    {
        let mut out: Vec<Job> = Vec::new();
        let mut i: usize = 0;
        proof {
            reveal(Seq::filter);
            assert(self@.jobs.take(0) =~= Seq::empty());
            assert(job_views(out@) =~= Seq::empty());
        }
        while i < self.jobs.len()
            invariant
                i <= self.jobs.len(),
                job_views(out@) == finished_of(self@.jobs.take(i as int)),
            decreases self.jobs.len() - i,
        {
            proof {
                lemma_finished_push(self@.jobs.take(i as int), self@.jobs[i as int]);
                assert(self@.jobs.take(i as int).push(self@.jobs[i as int]) =~= self@.jobs.take(
                    i + 1,
                ));
            }
            if matches!(self.jobs[i].state, DownloadState::Done { .. }) {
                let ghost before = out@;
                out.push(self.jobs[i].clone());
                assert(job_views(out@) =~= job_views(before).push(self@.jobs[i as int]));
            }
            i += 1;
        }
        assert(self@.jobs.take(i as int) =~= self@.jobs);
        out
    }

    /// Hands the first `Queued` job to a worker: the job becomes `Locked` and
    /// its handle is returned. `None` where no job is `Queued`.
    pub fn claim_next(&mut self) -> (r: Option<JobHandle>)
        requires
            old(self).wf(),
        ensures
            final(self).wf(),
            final(self)@ == old(self)@.claim_next(),
            r == old(self)@.next_waiting(),
            old(self)@.evolves_into(final(self)@),
    {
        proof {
            lemma_claim_next(self@);
        }
        let i = self.find_waiting();
        if i >= self.jobs.len() {
            return None;
        }
        let handle = self.jobs[i].handle;
        self.jobs[i].state = DownloadState::Locked;
        assert(self@.jobs =~= old(self)@.with_state(i as int, StateView::Locked).jobs);
        Some(handle)
    }

    /// Moves the job with this handle to the state `next`, where the state
    /// machine has that transition; otherwise nothing changes and the error
    /// says why.
    pub fn transition(&mut self, handle: JobHandle, next: DownloadState) -> (r: Result<
        (),
        TransitionError,
    >)
        requires
            old(self).wf(),
        ensures
            final(self).wf(),
            final(self)@ == old(self)@.transition(handle, next@),
            r == old(self)@.transition_outcome(handle, next@),
            old(self)@.evolves_into(final(self)@),
    {
        proof {
            lemma_transition(self@, handle, next@);
        }
        let i = self.find_handle(handle);
        if i >= self.jobs.len() {
            return Err(TransitionError::UnknownJob);
        }
        if !self.jobs[i].state.permits(&next) {
            return Err(TransitionError::NotAllowed);
        }
        self.jobs[i].state = next;
        assert(self@.jobs =~= old(self)@.with_state(i as int, next@).jobs);
        Ok(())
    }

    /// Records what the worker of the job with this handle has learnt: the
    /// job moves to the state that the event puts it in, where the state
    /// machine has that transition.
    pub fn record(&mut self, handle: JobHandle, event: WorkerEvent) -> (r: Result<
        (),
        TransitionError,
    >)
        requires
            old(self).wf(),
        ensures
            final(self).wf(),
            final(self)@ == old(self)@.transition(handle, state_after(event@)),
            r == old(self)@.transition_outcome(handle, state_after(event@)),
            old(self)@.evolves_into(final(self)@),
    {
        self.transition(handle, event.into_state())
    }

    /// Takes the first `Done` job for `track_id` out of the engine and
    /// returns the path of its artifact, which is thereby handed out once.
    /// `None`, and no change, where the track has no `Done` job.
    pub fn retrieve_artifact(&mut self, track_id: &str) -> (r: Option<String>)
        requires
            old(self).wf(),
        ensures
            final(self).wf(),
            final(self)@ == old(self)@.retrieve(track_id@),
            (r is Some) == (old(self)@.retrieved(track_id@) is Some),
            r is Some ==> r->0@ == old(self)@.retrieved(track_id@)->0,
            old(self)@.evolves_into(final(self)@),
    {
        proof {
            lemma_retrieve(self@, track_id@);
            lemma_first_match(self@.jobs, JobQuery::FinishedTrack(track_id@));
        }
        let i = self.find_finished(track_id);
        if i >= self.jobs.len() {
            return None;
        }
        let job = self.jobs.remove(i);
        assert(self@.jobs =~= old(self)@.jobs.remove(i as int));
        assert(job@ == old(self)@.jobs[i as int]);
        match job.state {
            DownloadState::Done { artifact_path } => Some(artifact_path),
            _ => None,
        }
    }

    /// A copy of the job with this handle, if the engine holds it.
    pub fn job(&self, handle: JobHandle) -> (r: Option<Job>)
        ensures
            (r is Some) == (self@.job(handle) is Some),
            r is Some ==> r->0@ == self@.job(handle)->0,
    {
        let i = self.find_handle(handle);
        if i < self.jobs.len() {
            Some(self.jobs[i].clone())
        } else {
            None
        }
    }

    /// Takes every `Failed` job out of the engine and returns how many there
    /// were.
    pub fn clear_failed(&mut self) -> (removed: usize)
        requires
            old(self).wf(),
        ensures
            final(self).wf(),
            final(self)@ == old(self)@.clear_failed(),
            removed == old(self)@.jobs.len() - final(self)@.jobs.len(),
            old(self)@.evolves_into(final(self)@),
    {
        proof {
            lemma_clear_failed(self@);
        }
        let mut kept: Vec<Job> = Vec::new();
        let mut i: usize = 0;
        proof {
            reveal(Seq::filter);
            assert(self@.jobs.take(0) =~= Seq::empty());
            assert(job_views(kept@) =~= Seq::empty());
        }
        while i < self.jobs.len()
            invariant
                i <= self.jobs.len(),
                kept.len() <= i,
                job_views(kept@) == kept_of(self@.jobs.take(i as int)),
            decreases self.jobs.len() - i,
        {
            proof {
                lemma_kept_push(self@.jobs.take(i as int), self@.jobs[i as int]);
                assert(self@.jobs.take(i as int).push(self@.jobs[i as int]) =~= self@.jobs.take(
                    i + 1,
                ));
            }
            if !matches!(self.jobs[i].state, DownloadState::Failed { .. }) {
                let ghost before = kept@;
                kept.push(self.jobs[i].clone());
                assert(job_views(kept@) =~= job_views(before).push(self@.jobs[i as int]));
            }
            i += 1;
        }
        assert(self@.jobs.take(i as int) =~= self@.jobs);
        let removed = self.jobs.len() - kept.len();
        self.jobs = kept;
        removed
    }
}

} // verus!
