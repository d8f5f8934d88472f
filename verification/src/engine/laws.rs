//! What holds of the engine's model: each operation keeps the engine
//! well-formed and moves every job forward only, a track is never queued
//! twice, and an artifact is handed out once.

use crate::engine::model::{
    answers, exactly_one, finished_of, first_match, kept_of, no_match, EngineView, JobQuery,
    SubmitError,
};
use crate::job::{lemma_order_transitive, may_follow, step_allowed, JobHandle, JobView, StateView};
use vstd::prelude::*;

verus! {

/// `first_match` is the least index whose job answers the query.
pub proof fn lemma_first_match(jobs: Seq<JobView>, q: JobQuery)
    ensures
        0 <= first_match(jobs, q) <= jobs.len(),
        first_match(jobs, q) < jobs.len() ==> answers(jobs[first_match(jobs, q)], q),
        forall|j: int| 0 <= j < first_match(jobs, q) ==> !answers(#[trigger] jobs[j], q),
    decreases jobs.len(),
{
    if jobs.len() > 0 && !answers(jobs[0], q) {
        let rest = jobs.drop_first();
        lemma_first_match(rest, q);
        assert forall|j: int| 0 <= j < first_match(jobs, q) implies !answers(
            #[trigger] jobs[j],
            q,
        ) by {
            if j > 0 {
                assert(jobs[j] == rest[j - 1]);
            }
        }
    }
}

/// An index before which no job answers the query, and which is the end or
/// holds a job that answers it, is `first_match`.
pub proof fn lemma_first_match_is(jobs: Seq<JobView>, q: JobQuery, i: int)
    requires
        0 <= i <= jobs.len(),
        forall|j: int| 0 <= j < i ==> !answers(#[trigger] jobs[j], q),
        i < jobs.len() ==> answers(jobs[i], q),
    ensures
        first_match(jobs, q) == i,
{
    lemma_first_match(jobs, q);
    let f = first_match(jobs, q);
    if f < i {
        assert(!answers(jobs[f], q));
    }
}

/// The `Done` jobs of a sequence that grew by one job.
pub proof fn lemma_finished_push(jobs: Seq<JobView>, job: JobView)
    ensures
        finished_of(jobs.push(job)) == if job.state is Done {
            finished_of(jobs).push(job)
        } else {
            finished_of(jobs)
        },
{
    reveal(Seq::filter);
    assert(jobs.push(job).drop_last() =~= jobs);
}

/// The jobs that are not `Failed`, of a sequence that grew by one job.
pub proof fn lemma_kept_push(jobs: Seq<JobView>, job: JobView)
    ensures
        kept_of(jobs.push(job)) == if job.state is Failed {
            kept_of(jobs)
        } else {
            kept_of(jobs).push(job)
        },
{
    reveal(Seq::filter);
    assert(jobs.push(job).drop_last() =~= jobs);
}

/// In a well-formed engine a handle names at most one job.
pub proof fn lemma_handles_are_unique(e: EngineView, i: int, j: int)
    requires
        e.well_formed(),
        0 <= i < e.jobs.len(),
        0 <= j < e.jobs.len(),
        e.jobs[i].handle == e.jobs[j].handle,
    ensures
        i == j,
{
    if i < j {
        assert(e.jobs[i].handle.serial < e.jobs[j].handle.serial);
    }
    if j < i {
        assert(e.jobs[j].handle.serial < e.jobs[i].handle.serial);
    }
}

/// Every engine can be a later state of itself.
pub proof fn lemma_evolution_reflexive(e: EngineView)
    requires
        e.well_formed(),
    ensures
        e.evolves_into(e),
{
    assert forall|i: int, j: int|
        0 <= i < e.jobs.len() && 0 <= j < e.jobs.len() && (#[trigger] e.jobs[i]).handle == (
        #[trigger] e.jobs[j]).handle implies e.jobs[j] == e.jobs[i] by {
        lemma_handles_are_unique(e, i, j);
    }
}

/// Monotonic transitions, over any number of operations: a later state of a
/// later state is a later state, so whenever a job is observed twice, the
/// second state may follow the first.
pub proof fn lemma_evolution_transitive(a: EngineView, b: EngineView, c: EngineView)
    requires
        a.well_formed(),
        a.evolves_into(b),
        b.evolves_into(c),
    ensures
        a.evolves_into(c),
{
    assert forall|k: int| 0 <= k < c.jobs.len() implies (#[trigger] c.jobs[k]).handle.serial
        >= a.issued || a.holds(c.jobs[k].handle) by {
        if c.jobs[k].handle.serial < b.issued {
            assert(b.holds(c.jobs[k].handle));
            let j = choose|j: int|
                0 <= j < b.jobs.len() && (#[trigger] b.jobs[j]).handle == c.jobs[k].handle;
            assert(b.jobs[j].handle.serial >= a.issued || a.holds(b.jobs[j].handle));
        }
    }
    assert forall|i: int, k: int|
        0 <= i < a.jobs.len() && 0 <= k < c.jobs.len() && (#[trigger] a.jobs[i]).handle == (
        #[trigger] c.jobs[k]).handle implies {
        &&& c.jobs[k].track_id == a.jobs[i].track_id
        &&& c.jobs[k].title == a.jobs[i].title
        &&& c.jobs[k].author == a.jobs[i].author
        &&& may_follow(a.jobs[i].state, c.jobs[k].state)
    } by {
        assert(a.jobs[i].handle.serial < a.issued);
        assert(c.jobs[k].handle.serial >= b.issued || b.holds(c.jobs[k].handle));
        let j = choose|j: int|
            0 <= j < b.jobs.len() && (#[trigger] b.jobs[j]).handle == c.jobs[k].handle;
        lemma_order_transitive(a.jobs[i].state, b.jobs[j].state, c.jobs[k].state);
    }
}

/// A submission keeps the engine well-formed and leaves every job that was
/// there as it was.
pub proof fn lemma_submit(e: EngineView, track_id: Seq<char>, title: Seq<char>, author: Seq<char>)
    requires
        e.well_formed(),
    ensures
        e.submit(track_id, title, author).well_formed(),
        e.evolves_into(e.submit(track_id, title, author)),
{
    let later = e.submit(track_id, title, author);
    lemma_first_match(e.jobs, JobQuery::ActiveTrack(track_id));
    lemma_evolution_reflexive(e);
    if later != e {
        let job = e.fresh_job(track_id, title, author);
        assert forall|j: int| 0 <= j < later.jobs.len() implies (
        #[trigger] later.jobs[j]).handle.serial >= e.issued || e.holds(later.jobs[j].handle) by {
            if j < e.jobs.len() {
                assert(e.jobs[j].handle == later.jobs[j].handle);
            }
        }
        assert forall|i: int, j: int|
            0 <= i < e.jobs.len() && 0 <= j < later.jobs.len() && (#[trigger] e.jobs[i]).handle
                == (#[trigger] later.jobs[j]).handle implies later.jobs[j] == e.jobs[i] by {
            if j < e.jobs.len() {
                lemma_handles_are_unique(e, i, j);
            }
        }
        assert forall|i: int, j: int|
            0 <= i < later.jobs.len() && 0 <= j < later.jobs.len() && i != j && (
            #[trigger] later.jobs[i]).is_active() && (
            #[trigger] later.jobs[j]).is_active() implies later.jobs[i].track_id
            != later.jobs[j].track_id by {
            if i < e.jobs.len() && j < e.jobs.len() {
                assert(e.jobs[i].is_active() && e.jobs[j].is_active());
            } else if i < e.jobs.len() {
                assert(!answers(e.jobs[i], JobQuery::ActiveTrack(track_id)));
            } else {
                assert(!answers(e.jobs[j], JobQuery::ActiveTrack(track_id)));
            }
        }
    }
}

/// A single transition of one job keeps the engine well-formed and is an
/// evolution of it.
pub proof fn lemma_with_state(e: EngineView, i: int, next: StateView)
    requires
        e.well_formed(),
        0 <= i < e.jobs.len(),
        step_allowed(e.jobs[i].state, next),
    ensures
        e.with_state(i, next).well_formed(),
        e.evolves_into(e.with_state(i, next)),
{
    let later = e.with_state(i, next);
    assert forall|k: int| 0 <= k < later.jobs.len() implies (#[trigger] later.jobs[k]).handle
        == e.jobs[k].handle by {}
    assert forall|k: int| 0 <= k < later.jobs.len() implies (
    #[trigger] later.jobs[k]).handle.serial >= e.issued || e.holds(later.jobs[k].handle) by {
        assert(e.jobs[k].handle == later.jobs[k].handle);
    }
    assert forall|a: int, b: int|
        0 <= a < later.jobs.len() && 0 <= b < later.jobs.len() && a != b && (
        #[trigger] later.jobs[a]).is_active() && (
        #[trigger] later.jobs[b]).is_active() implies later.jobs[a].track_id
        != later.jobs[b].track_id by {
        assert(e.jobs[a].is_active() && e.jobs[b].is_active());
    }
    assert forall|a: int, b: int|
        0 <= a < e.jobs.len() && 0 <= b < later.jobs.len() && (#[trigger] e.jobs[a]).handle == (
        #[trigger] later.jobs[b]).handle implies {
        &&& later.jobs[b].track_id == e.jobs[a].track_id
        &&& later.jobs[b].title == e.jobs[a].title
        &&& later.jobs[b].author == e.jobs[a].author
        &&& may_follow(e.jobs[a].state, later.jobs[b].state)
    } by {
        assert(later.jobs[b].handle == e.jobs[b].handle);
        lemma_handles_are_unique(e, a, b);
    }
}

/// Claiming the next job keeps the engine well-formed and is an evolution of
/// it.
pub proof fn lemma_claim_next(e: EngineView)
    requires
        e.well_formed(),
    ensures
        e.claim_next().well_formed(),
        e.evolves_into(e.claim_next()),
{
    lemma_first_match(e.jobs, JobQuery::Waiting);
    let i = first_match(e.jobs, JobQuery::Waiting);
    if i < e.jobs.len() {
        lemma_with_state(e, i, StateView::Locked);
    } else {
        lemma_evolution_reflexive(e);
    }
}

/// A requested transition, applied or refused, keeps the engine well-formed
/// and is an evolution of it.
pub proof fn lemma_transition(e: EngineView, handle: JobHandle, next: StateView)
    requires
        e.well_formed(),
    ensures
        e.transition(handle, next).well_formed(),
        e.evolves_into(e.transition(handle, next)),
{
    lemma_first_match(e.jobs, JobQuery::Handle(handle));
    let i = first_match(e.jobs, JobQuery::Handle(handle));
    if i < e.jobs.len() && step_allowed(e.jobs[i].state, next) {
        lemma_with_state(e, i, next);
    } else {
        lemma_evolution_reflexive(e);
    }
}

/// A retrieval keeps the engine well-formed and is an evolution of it.
pub proof fn lemma_retrieve(e: EngineView, track_id: Seq<char>)
    requires
        e.well_formed(),
    ensures
        e.retrieve(track_id).well_formed(),
        e.evolves_into(e.retrieve(track_id)),
{
    let later = e.retrieve(track_id);
    lemma_first_match(e.jobs, JobQuery::FinishedTrack(track_id));
    lemma_evolution_reflexive(e);
    let i = first_match(e.jobs, JobQuery::FinishedTrack(track_id));
    if i < e.jobs.len() {
        assert forall|k: int| 0 <= k < later.jobs.len() implies #[trigger] later.jobs[k]
            == e.jobs[if k < i {
            k
        } else {
            k + 1
        }] by {}
        assert forall|k: int| 0 <= k < later.jobs.len() implies (
        #[trigger] later.jobs[k]).handle.serial >= e.issued || e.holds(later.jobs[k].handle) by {
            let k0 = if k < i {
                k
            } else {
                k + 1
            };
            assert(e.jobs[k0].handle == later.jobs[k].handle);
        }
        assert forall|a: int, b: int|
            0 <= a < e.jobs.len() && 0 <= b < later.jobs.len() && (#[trigger] e.jobs[a]).handle
                == (#[trigger] later.jobs[b]).handle implies later.jobs[b] == e.jobs[a] by {
            let b0 = if b < i {
                b
            } else {
                b + 1
            };
            assert(later.jobs[b] == e.jobs[b0]);
            lemma_handles_are_unique(e, a, b0);
        }
        assert forall|a: int, b: int|
            0 <= a < later.jobs.len() && 0 <= b < later.jobs.len() && a != b && (
            #[trigger] later.jobs[a]).is_active() && (
            #[trigger] later.jobs[b]).is_active() implies later.jobs[a].track_id
            != later.jobs[b].track_id by {
            let a0 = if a < i {
                a
            } else {
                a + 1
            };
            let b0 = if b < i {
                b
            } else {
                b + 1
            };
            assert(e.jobs[a0].is_active() && e.jobs[b0].is_active());
        }
        assert forall|a: int, b: int| 0 <= a < b < later.jobs.len() implies (
        #[trigger] later.jobs[a]).handle.serial < (#[trigger] later.jobs[b]).handle.serial by {
            let a0 = if a < i {
                a
            } else {
                a + 1
            };
            let b0 = if b < i {
                b
            } else {
                b + 1
            };
            assert(e.jobs[a0].handle.serial < e.jobs[b0].handle.serial);
        }
        assert forall|a: int| 0 <= a < later.jobs.len() implies (
        #[trigger] later.jobs[a]).handle.serial < later.issued by {
            let a0 = if a < i {
                a
            } else {
                a + 1
            };
            assert(e.jobs[a0].handle.serial < e.issued);
        }
    }
}

/// Clearing the failed jobs keeps the engine well-formed and is an evolution
/// of it; every job that stays was there before.
pub proof fn lemma_clear_failed(e: EngineView)
    requires
        e.well_formed(),
    ensures
        e.clear_failed().well_formed(),
        e.evolves_into(e.clear_failed()),
        forall|k: int|
            0 <= k < e.clear_failed().jobs.len() ==> e.jobs.contains(
                #[trigger] e.clear_failed().jobs[k],
            ),
    decreases e.jobs.len(),
{
    let later = e.clear_failed();
    if e.jobs.len() == 0 {
        reveal(Seq::filter);
        assert(later.jobs =~= e.jobs);
        lemma_evolution_reflexive(e);
    } else {
        let last = e.jobs.last();
        let shorter = EngineView { jobs: e.jobs.drop_last(), issued: e.issued };
        assert(shorter.well_formed()) by {
            assert forall|i: int| 0 <= i < shorter.jobs.len() implies #[trigger] shorter.jobs[i]
                == e.jobs[i] by {}
        }
        lemma_clear_failed(shorter);
        lemma_kept_push(shorter.jobs, last);
        assert(shorter.jobs.push(last) =~= e.jobs);
        let kept = shorter.clear_failed().jobs;
        assert forall|k: int| 0 <= k < kept.len() implies exists|i: int|
            0 <= i < e.jobs.len() - 1 && e.jobs[i] == #[trigger] kept[k] by {
            assert(shorter.jobs.contains(kept[k]));
            let i = choose|i: int| 0 <= i < shorter.jobs.len() && shorter.jobs[i] == kept[k];
            assert(e.jobs[i] == kept[k]);
        }
        assert forall|k: int| 0 <= k < later.jobs.len() implies exists|i: int|
            0 <= i < e.jobs.len() && e.jobs[i] == #[trigger] later.jobs[k] by {
            if k < kept.len() {
                assert(later.jobs[k] == kept[k]);
                let i = choose|i: int| 0 <= i < e.jobs.len() - 1 && e.jobs[i] == kept[k];
                assert(e.jobs[i] == later.jobs[k]);
            } else {
                assert(e.jobs[e.jobs.len() - 1] == later.jobs[k]);
            }
        }
        assert forall|k: int| 0 <= k < later.jobs.len() implies e.jobs.contains(
            #[trigger] later.jobs[k],
        ) by {
            let i = choose|i: int| 0 <= i < e.jobs.len() && e.jobs[i] == later.jobs[k];
            assert(e.jobs[i] == later.jobs[k]);
        }
        assert forall|k: int| 0 <= k < later.jobs.len() implies (
        #[trigger] later.jobs[k]).handle.serial >= e.issued || e.holds(later.jobs[k].handle) by {
            let i = choose|i: int| 0 <= i < e.jobs.len() && e.jobs[i] == later.jobs[k];
            assert(e.jobs[i].handle == later.jobs[k].handle);
        }
        assert forall|i: int, k: int|
            0 <= i < e.jobs.len() && 0 <= k < later.jobs.len() && (#[trigger] e.jobs[i]).handle
                == (#[trigger] later.jobs[k]).handle implies later.jobs[k] == e.jobs[i] by {
            let i0 = choose|i0: int| 0 <= i0 < e.jobs.len() && e.jobs[i0] == later.jobs[k];
            lemma_handles_are_unique(e, i, i0);
        }
        if !(last.state is Failed) {
            let n = kept.len() as int;
            assert forall|a: int, b: int| 0 <= a < b < later.jobs.len() implies (
            #[trigger] later.jobs[a]).handle.serial < (#[trigger] later.jobs[b]).handle.serial by {
                if b < n {
                    assert(kept[a].handle.serial < kept[b].handle.serial);
                } else {
                    let i = choose|i: int| 0 <= i < e.jobs.len() - 1 && e.jobs[i] == kept[a];
                    assert(e.jobs[i].handle.serial < e.jobs[e.jobs.len() - 1].handle.serial);
                }
            }
            assert forall|a: int, b: int|
                0 <= a < later.jobs.len() && 0 <= b < later.jobs.len() && a != b && (
                #[trigger] later.jobs[a]).is_active() && (
                #[trigger] later.jobs[b]).is_active() implies later.jobs[a].track_id
                != later.jobs[b].track_id by {
                if a < n && b < n {
                    assert(kept[a].is_active() && kept[b].is_active());
                } else {
                    let c = if a < n {
                        a
                    } else {
                        b
                    };
                    let i = choose|i: int| 0 <= i < e.jobs.len() - 1 && e.jobs[i] == kept[c];
                    assert(e.jobs[i].is_active() && e.jobs[e.jobs.len() - 1].is_active());
                }
            }
            assert forall|a: int| 0 <= a < later.jobs.len() implies (
            #[trigger] later.jobs[a]).handle.serial < later.issued by {
                let i = choose|i: int| 0 <= i < e.jobs.len() && e.jobs[i] == later.jobs[a];
                assert(e.jobs[i].handle.serial < e.issued);
            }
        }
    }
}

/// Dedup: while a track has an active job, a submission for it changes
/// nothing and returns the handle of that job.
pub proof fn lemma_submission_of_active_track(
    e: EngineView,
    track_id: Seq<char>,
    title: Seq<char>,
    author: Seq<char>,
    i: int,
)
    requires
        e.well_formed(),
        0 <= i < e.jobs.len(),
        e.jobs[i].track_id == track_id,
        e.jobs[i].is_active(),
    ensures
        e.submit(track_id, title, author) == e,
        e.submit_outcome(track_id) == Ok::<JobHandle, SubmitError>(e.jobs[i].handle),
{
    let q = JobQuery::ActiveTrack(track_id);
    lemma_first_match(e.jobs, q);
    let f = first_match(e.jobs, q);
    assert(answers(e.jobs[i], q));
    if f != i {
        assert(e.jobs[f].is_active() && e.jobs[i].is_active());
    }
}

/// Dedup: where a submission is accepted, a second submission for the same
/// track right after it changes nothing and returns the same handle, the
/// track has exactly one active job, and, unless a terminal job for the track
/// was still held before, exactly one job at all.
pub proof fn lemma_duplicate_submission(
    e: EngineView,
    track_id: Seq<char>,
    title: Seq<char>,
    author: Seq<char>,
    title_again: Seq<char>,
    author_again: Seq<char>,
)
    requires
        e.well_formed(),
        e.submit_outcome(track_id) is Ok,
    ensures
        ({
            let once = e.submit(track_id, title, author);
            let twice = once.submit(track_id, title_again, author_again);
            &&& twice == once
            &&& once.submit_outcome(track_id) == e.submit_outcome(track_id)
            &&& exactly_one(twice.jobs, JobQuery::ActiveTrack(track_id))
            &&& no_match(e.jobs, JobQuery::Track(track_id)) ==> exactly_one(
                twice.jobs,
                JobQuery::Track(track_id),
            )
        }),
{
    let q = JobQuery::ActiveTrack(track_id);
    let once = e.submit(track_id, title, author);
    lemma_first_match(e.jobs, q);
    lemma_submit(e, track_id, title, author);
    let i = first_match(e.jobs, q);
    let w = if i < e.jobs.len() {
        i
    } else {
        e.jobs.len() as int
    };
    assert(0 <= w < once.jobs.len() && answers(once.jobs[w], q));
    assert forall|j: int| 0 <= j < w implies !answers(#[trigger] once.jobs[j], q) by {
        assert(once.jobs[j] == e.jobs[j]);
    }
    lemma_first_match_is(once.jobs, q, w);
    assert forall|j: int| 0 <= j < once.jobs.len() && answers(#[trigger] once.jobs[j], q) implies j
        == w by {
        if j != w {
            assert(once.jobs[j].is_active() && once.jobs[w].is_active());
        }
    }
    if no_match(e.jobs, JobQuery::Track(track_id)) {
        assert(i == e.jobs.len()) by {
            if i < e.jobs.len() {
                assert(answers(e.jobs[i], JobQuery::Track(track_id)));
            }
        }
        assert(answers(once.jobs[w], JobQuery::Track(track_id)));
        assert forall|j: int|
            0 <= j < once.jobs.len() && answers(
                #[trigger] once.jobs[j],
                JobQuery::Track(track_id),
            ) implies j == w by {
            if j < w {
                assert(once.jobs[j] == e.jobs[j]);
            }
        }
    }
}

/// Single-use retrieval: where exactly one `Done` job is held for a track,
/// the first retrieval hands out its artifact, and every retrieval after it
/// finds nothing and leaves the engine as it is.
pub proof fn lemma_single_use_retrieval(e: EngineView, track_id: Seq<char>)
    requires
        exactly_one(e.jobs, JobQuery::FinishedTrack(track_id)),
    ensures
        e.retrieved(track_id) is Some,
        e.retrieve(track_id).retrieved(track_id) is None,
        e.retrieve(track_id).retrieve(track_id) == e.retrieve(track_id),
{
    let q = JobQuery::FinishedTrack(track_id);
    lemma_first_match(e.jobs, q);
    let i = first_match(e.jobs, q);
    let later = e.retrieve(track_id);
    assert(i < e.jobs.len());
    lemma_first_match(later.jobs, q);
    let f = first_match(later.jobs, q);
    if f < later.jobs.len() {
        let f0 = if f < i {
            f
        } else {
            f + 1
        };
        assert(later.jobs[f] == e.jobs[f0]);
        assert(answers(e.jobs[f0], q));
        assert(answers(e.jobs[i], q));
    }
}

} // verus!
