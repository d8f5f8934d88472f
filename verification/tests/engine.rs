use track_jobs::engine::{JobEngine, SubmitError, TransitionError};
use track_jobs::job::{DownloadState, Job, JobHandle, WorkerEvent};

fn submit(engine: &mut JobEngine, track_id: &str) -> Result<JobHandle, SubmitError> {
    engine.submit(track_id.to_string(), format!("title of {}", track_id), "author".to_string())
}

fn finish(engine: &mut JobEngine, handle: JobHandle, path: &str) {
    assert_eq!(engine.transition(handle, DownloadState::Locked), Ok(()));
    assert_eq!(
        engine.transition(handle, DownloadState::InProgress { read: 1, total: 2 }),
        Ok(())
    );
    assert_eq!(engine.transition(handle, DownloadState::PostProcessing), Ok(()));
    assert_eq!(
        engine.transition(handle, DownloadState::Done { artifact_path: path.to_string() }),
        Ok(())
    );
}

fn states(engine: &JobEngine) -> Vec<DownloadState> {
    engine.snapshot().into_iter().map(|job| job.state).collect()
}

#[test]
fn new_engine_is_empty() {
    let engine = JobEngine::new();
    assert!(engine.snapshot().is_empty());
    assert!(engine.finished_snapshot().is_empty());
}

#[test]
fn submit_creates_queued_job() {
    let mut engine = JobEngine::new();
    let handle = engine
        .submit("abc".to_string(), "Song".to_string(), "Singer".to_string())
        .unwrap();
    assert_eq!(handle, JobHandle { serial: 0 });
    assert_eq!(
        engine.snapshot(),
        vec![Job {
            handle: JobHandle { serial: 0 },
            track_id: "abc".to_string(),
            title: "Song".to_string(),
            author: "Singer".to_string(),
            state: DownloadState::Queued,
        }]
    );
}

#[test]
fn submitting_twice_yields_one_job() {
    let mut engine = JobEngine::new();
    let first = submit(&mut engine, "abc").unwrap();
    let second = submit(&mut engine, "abc").unwrap();
    assert_eq!(first, second);
    let jobs = engine.snapshot();
    assert_eq!(jobs.iter().filter(|job| job.track_id == "abc").count(), 1);
    assert_eq!(jobs.len(), 1);
}

#[test]
fn duplicate_of_active_job_keeps_first_metadata() {
    let mut engine = JobEngine::new();
    let first = engine
        .submit("abc".to_string(), "first".to_string(), "a".to_string())
        .unwrap();
    assert_eq!(engine.claim_next(), Some(first));
    let again = engine
        .submit("abc".to_string(), "second".to_string(), "b".to_string())
        .unwrap();
    assert_eq!(again, first);
    let jobs = engine.snapshot();
    assert_eq!(jobs.len(), 1);
    assert_eq!(jobs[0].title, "first");
    assert_eq!(jobs[0].state, DownloadState::Locked);
}

#[test]
fn different_tracks_get_rising_serials() {
    let mut engine = JobEngine::new();
    let a = submit(&mut engine, "a").unwrap();
    let b = submit(&mut engine, "b").unwrap();
    let c = submit(&mut engine, "c").unwrap();
    assert_eq!((a.serial, b.serial, c.serial), (0, 1, 2));
    let ids: Vec<String> = engine.snapshot().into_iter().map(|job| job.track_id).collect();
    assert_eq!(ids, vec!["a".to_string(), "b".to_string(), "c".to_string()]);
}

#[test]
fn resubmission_after_terminal_state_creates_new_job() {
    let mut engine = JobEngine::new();
    let first = submit(&mut engine, "abc").unwrap();
    assert_eq!(engine.transition(first, DownloadState::Locked), Ok(()));
    assert_eq!(
        engine.transition(first, DownloadState::Failed { reason: "gone".to_string() }),
        Ok(())
    );
    let second = submit(&mut engine, "abc").unwrap();
    assert_ne!(first, second);
    assert_eq!(
        states(&engine),
        vec![DownloadState::Failed { reason: "gone".to_string() }, DownloadState::Queued]
    );
}

#[test]
fn submit_fails_when_serials_are_exhausted() {
    let mut engine = JobEngine::numbering_from(u64::MAX);
    assert_eq!(submit(&mut engine, "abc"), Err(SubmitError::Exhausted));
    assert!(engine.snapshot().is_empty());
}

#[test]
fn last_serial_is_issued() {
    let mut engine = JobEngine::numbering_from(u64::MAX - 1);
    assert_eq!(submit(&mut engine, "abc"), Ok(JobHandle { serial: u64::MAX - 1 }));
    assert_eq!(submit(&mut engine, "abc"), Ok(JobHandle { serial: u64::MAX - 1 }));
    assert_eq!(submit(&mut engine, "other"), Err(SubmitError::Exhausted));
    assert_eq!(engine.snapshot().len(), 1);
}

#[test]
fn claim_next_takes_first_queued_job() {
    let mut engine = JobEngine::new();
    let a = submit(&mut engine, "a").unwrap();
    let b = submit(&mut engine, "b").unwrap();
    assert_eq!(engine.claim_next(), Some(a));
    assert_eq!(states(&engine), vec![DownloadState::Locked, DownloadState::Queued]);
    assert_eq!(engine.claim_next(), Some(b));
    assert_eq!(states(&engine), vec![DownloadState::Locked, DownloadState::Locked]);
    assert_eq!(engine.claim_next(), None);
    assert_eq!(states(&engine), vec![DownloadState::Locked, DownloadState::Locked]);
}

#[test]
fn job_runs_through_every_state() {
    let mut engine = JobEngine::new();
    let h = submit(&mut engine, "abc").unwrap();
    assert_eq!(states(&engine), vec![DownloadState::Queued]);
    assert_eq!(engine.transition(h, DownloadState::Locked), Ok(()));
    assert_eq!(states(&engine), vec![DownloadState::Locked]);
    assert_eq!(engine.transition(h, DownloadState::InProgress { read: 0, total: 10 }), Ok(()));
    assert_eq!(engine.transition(h, DownloadState::InProgress { read: 10, total: 10 }), Ok(()));
    assert_eq!(states(&engine), vec![DownloadState::InProgress { read: 10, total: 10 }]);
    assert_eq!(engine.transition(h, DownloadState::PostProcessing), Ok(()));
    assert_eq!(states(&engine), vec![DownloadState::PostProcessing]);
    assert_eq!(
        engine.transition(h, DownloadState::Done { artifact_path: "abc.mp3".to_string() }),
        Ok(())
    );
    assert_eq!(
        states(&engine),
        vec![DownloadState::Done { artifact_path: "abc.mp3".to_string() }]
    );
}

#[test]
fn nothing_follows_done() {
    let mut engine = JobEngine::new();
    let h = submit(&mut engine, "abc").unwrap();
    finish(&mut engine, h, "abc.mp3");
    let done = DownloadState::Done { artifact_path: "abc.mp3".to_string() };
    for next in [
        DownloadState::Queued,
        DownloadState::Locked,
        DownloadState::InProgress { read: 1, total: 1 },
        DownloadState::PostProcessing,
        DownloadState::Done { artifact_path: "other.mp3".to_string() },
        DownloadState::Failed { reason: "late".to_string() },
    ] {
        assert_eq!(engine.transition(h, next), Err(TransitionError::NotAllowed));
        assert_eq!(states(&engine), vec![done.clone()]);
    }
}

#[test]
fn nothing_follows_failed() {
    let mut engine = JobEngine::new();
    let h = submit(&mut engine, "abc").unwrap();
    assert_eq!(engine.transition(h, DownloadState::Locked), Ok(()));
    assert_eq!(
        engine.transition(h, DownloadState::Failed { reason: "no network".to_string() }),
        Ok(())
    );
    let failed = DownloadState::Failed { reason: "no network".to_string() };
    for next in [
        DownloadState::Queued,
        DownloadState::Locked,
        DownloadState::InProgress { read: 1, total: 1 },
        DownloadState::PostProcessing,
        DownloadState::Done { artifact_path: "x".to_string() },
        DownloadState::Failed { reason: "again".to_string() },
    ] {
        assert_eq!(engine.transition(h, next), Err(TransitionError::NotAllowed));
        assert_eq!(states(&engine), vec![failed.clone()]);
    }
}

#[test]
fn states_cannot_be_skipped_or_reversed() {
    let mut engine = JobEngine::new();
    let h = submit(&mut engine, "abc").unwrap();
    assert_eq!(
        engine.transition(h, DownloadState::InProgress { read: 0, total: 1 }),
        Err(TransitionError::NotAllowed)
    );
    assert_eq!(
        engine.transition(h, DownloadState::Failed { reason: "early".to_string() }),
        Err(TransitionError::NotAllowed)
    );
    assert_eq!(engine.transition(h, DownloadState::Locked), Ok(()));
    assert_eq!(engine.transition(h, DownloadState::Queued), Err(TransitionError::NotAllowed));
    assert_eq!(engine.transition(h, DownloadState::Locked), Err(TransitionError::NotAllowed));
    assert_eq!(
        engine.transition(h, DownloadState::PostProcessing),
        Err(TransitionError::NotAllowed)
    );
    assert_eq!(engine.transition(h, DownloadState::InProgress { read: 0, total: 1 }), Ok(()));
    assert_eq!(engine.transition(h, DownloadState::Locked), Err(TransitionError::NotAllowed));
    assert_eq!(
        engine.transition(h, DownloadState::Done { artifact_path: "x".to_string() }),
        Err(TransitionError::NotAllowed)
    );
    assert_eq!(engine.transition(h, DownloadState::PostProcessing), Ok(()));
    assert_eq!(
        engine.transition(h, DownloadState::InProgress { read: 1, total: 1 }),
        Err(TransitionError::NotAllowed)
    );
    assert_eq!(states(&engine), vec![DownloadState::PostProcessing]);
}

#[test]
fn failure_is_possible_from_each_working_state() {
    for steps in 1..=3 {
        let mut engine = JobEngine::new();
        let h = submit(&mut engine, "abc").unwrap();
        let path = [
            DownloadState::Locked,
            DownloadState::InProgress { read: 1, total: 3 },
            DownloadState::PostProcessing,
        ];
        for next in path.into_iter().take(steps) {
            assert_eq!(engine.transition(h, next), Ok(()));
        }
        assert_eq!(
            engine.transition(h, DownloadState::Failed { reason: "broken".to_string() }),
            Ok(())
        );
        assert_eq!(states(&engine), vec![DownloadState::Failed { reason: "broken".to_string() }]);
    }
}

#[test]
fn transition_of_unknown_job_is_refused() {
    let mut engine = JobEngine::new();
    submit(&mut engine, "abc").unwrap();
    assert_eq!(
        engine.transition(JobHandle { serial: 7 }, DownloadState::Locked),
        Err(TransitionError::UnknownJob)
    );
    assert_eq!(states(&engine), vec![DownloadState::Queued]);
}

#[test]
fn transition_changes_only_the_named_job() {
    let mut engine = JobEngine::new();
    let a = submit(&mut engine, "a").unwrap();
    let b = submit(&mut engine, "b").unwrap();
    assert_eq!(engine.transition(b, DownloadState::Locked), Ok(()));
    let jobs = engine.snapshot();
    assert_eq!(jobs[0].handle, a);
    assert_eq!(jobs[0].state, DownloadState::Queued);
    assert_eq!(jobs[1].handle, b);
    assert_eq!(jobs[1].state, DownloadState::Locked);
    assert_eq!(jobs[1].track_id, "b");
}

#[test]
fn permits_follows_the_state_machine() {
    let queued = DownloadState::Queued;
    let locked = DownloadState::Locked;
    let running = DownloadState::InProgress { read: 1, total: 2 };
    let post = DownloadState::PostProcessing;
    let done = DownloadState::Done { artifact_path: "a".to_string() };
    let failed = DownloadState::Failed { reason: "r".to_string() };
    assert!(queued.permits(&locked));
    assert!(!queued.permits(&failed));
    assert!(!queued.permits(&queued));
    assert!(locked.permits(&running));
    assert!(locked.permits(&failed));
    assert!(!locked.permits(&post));
    assert!(running.permits(&running));
    assert!(running.permits(&post));
    assert!(running.permits(&failed));
    assert!(!running.permits(&done));
    assert!(post.permits(&done));
    assert!(post.permits(&failed));
    assert!(!post.permits(&running));
    assert!(!done.permits(&failed));
    assert!(!failed.permits(&done));
    assert!(!queued.is_terminal());
    assert!(!locked.is_terminal());
    assert!(!running.is_terminal());
    assert!(!post.is_terminal());
    assert!(done.is_terminal());
    assert!(failed.is_terminal());
}

#[test]
fn finished_snapshot_holds_done_jobs_only() {
    let mut engine = JobEngine::new();
    let a = submit(&mut engine, "a").unwrap();
    let b = submit(&mut engine, "b").unwrap();
    let c = submit(&mut engine, "c").unwrap();
    let _d = submit(&mut engine, "d").unwrap();
    finish(&mut engine, a, "a.mp3");
    assert_eq!(engine.transition(b, DownloadState::Locked), Ok(()));
    assert_eq!(
        engine.transition(b, DownloadState::Failed { reason: "x".to_string() }),
        Ok(())
    );
    finish(&mut engine, c, "c.mp3");
    let finished = engine.finished_snapshot();
    let ids: Vec<&str> = finished.iter().map(|job| job.track_id.as_str()).collect();
    assert_eq!(ids, vec!["a", "c"]);
    assert_eq!(finished[1].state, DownloadState::Done { artifact_path: "c.mp3".to_string() });
    assert_eq!(engine.snapshot().len(), 4);
}

#[test]
fn artifact_is_retrieved_once() {
    let mut engine = JobEngine::new();
    let h = submit(&mut engine, "abc").unwrap();
    finish(&mut engine, h, "out/abc.mp3");
    assert_eq!(engine.retrieve_artifact("abc"), Some("out/abc.mp3".to_string()));
    assert_eq!(engine.retrieve_artifact("abc"), None);
    assert_eq!(engine.retrieve_artifact("abc"), None);
    assert!(engine.snapshot().is_empty());
    assert!(engine.finished_snapshot().is_empty());
}

#[test]
fn retrieval_needs_a_done_job() {
    let mut engine = JobEngine::new();
    let h = submit(&mut engine, "abc").unwrap();
    assert_eq!(engine.retrieve_artifact("abc"), None);
    assert_eq!(engine.retrieve_artifact("xyz"), None);
    assert_eq!(engine.transition(h, DownloadState::Locked), Ok(()));
    assert_eq!(engine.transition(h, DownloadState::InProgress { read: 1, total: 2 }), Ok(()));
    assert_eq!(engine.retrieve_artifact("abc"), None);
    assert_eq!(engine.transition(h, DownloadState::PostProcessing), Ok(()));
    assert_eq!(engine.retrieve_artifact("abc"), None);
    assert_eq!(states(&engine), vec![DownloadState::PostProcessing]);
}

#[test]
fn retrieval_leaves_other_jobs() {
    let mut engine = JobEngine::new();
    let a = submit(&mut engine, "a").unwrap();
    let b = submit(&mut engine, "b").unwrap();
    let c = submit(&mut engine, "c").unwrap();
    finish(&mut engine, a, "a.mp3");
    finish(&mut engine, b, "b.mp3");
    assert_eq!(engine.retrieve_artifact("b"), Some("b.mp3".to_string()));
    let jobs = engine.snapshot();
    assert_eq!(jobs.len(), 2);
    assert_eq!(jobs[0].handle, a);
    assert_eq!(jobs[1].handle, c);
    assert_eq!(engine.transition(b, DownloadState::Locked), Err(TransitionError::UnknownJob));
}

#[test]
fn two_done_jobs_of_one_track_are_retrieved_in_order() {
    let mut engine = JobEngine::new();
    let first = submit(&mut engine, "abc").unwrap();
    finish(&mut engine, first, "one.mp3");
    let second = submit(&mut engine, "abc").unwrap();
    finish(&mut engine, second, "two.mp3");
    assert_eq!(engine.retrieve_artifact("abc"), Some("one.mp3".to_string()));
    assert_eq!(engine.retrieve_artifact("abc"), Some("two.mp3".to_string()));
    assert_eq!(engine.retrieve_artifact("abc"), None);
}

#[test]
fn snapshot_is_a_copy() {
    let mut engine = JobEngine::new();
    let h = submit(&mut engine, "abc").unwrap();
    let before = engine.snapshot();
    assert_eq!(engine.transition(h, DownloadState::Locked), Ok(()));
    assert_eq!(before[0].state, DownloadState::Queued);
    assert_eq!(engine.snapshot()[0].state, DownloadState::Locked);
    assert_eq!(before[0].clone(), before[0]);
}

#[test]
fn job_is_found_by_handle() {
    let mut engine = JobEngine::new();
    let a = submit(&mut engine, "a").unwrap();
    let b = submit(&mut engine, "b").unwrap();
    assert_eq!(engine.transition(b, DownloadState::Locked), Ok(()));
    let found = engine.job(b).unwrap();
    assert_eq!(found.track_id, "b");
    assert_eq!(found.state, DownloadState::Locked);
    assert_eq!(engine.job(a).map(|job| job.state), Some(DownloadState::Queued));
    assert_eq!(engine.job(JobHandle { serial: 2 }), None);
}

#[test]
fn clearing_removes_failed_jobs_only() {
    let mut engine = JobEngine::new();
    let a = submit(&mut engine, "a").unwrap();
    let b = submit(&mut engine, "b").unwrap();
    let c = submit(&mut engine, "c").unwrap();
    let d = submit(&mut engine, "d").unwrap();
    let e = submit(&mut engine, "e").unwrap();
    for h in [a, c, e] {
        assert_eq!(engine.transition(h, DownloadState::Locked), Ok(()));
        assert_eq!(
            engine.transition(h, DownloadState::Failed { reason: "x".to_string() }),
            Ok(())
        );
    }
    finish(&mut engine, b, "b.mp3");
    assert_eq!(engine.clear_failed(), 3);
    let jobs = engine.snapshot();
    assert_eq!(jobs.len(), 2);
    assert_eq!(jobs[0].handle, b);
    assert_eq!(jobs[0].state, DownloadState::Done { artifact_path: "b.mp3".to_string() });
    assert_eq!(jobs[1].handle, d);
    assert_eq!(jobs[1].state, DownloadState::Queued);
    assert_eq!(engine.clear_failed(), 0);
    assert_eq!(engine.snapshot().len(), 2);
    assert_eq!(engine.job(a), None);
    assert_eq!(submit(&mut engine, "a").unwrap().serial, 5);
}

#[test]
fn clearing_an_empty_engine_removes_nothing() {
    let mut engine = JobEngine::new();
    assert_eq!(engine.clear_failed(), 0);
    assert!(engine.snapshot().is_empty());
}

#[test]
fn worker_events_drive_a_job() {
    let mut engine = JobEngine::new();
    let h = submit(&mut engine, "abc").unwrap();
    assert_eq!(
        engine.record(h, WorkerEvent::Progress { read: 1, total: 2 }),
        Err(TransitionError::NotAllowed)
    );
    assert_eq!(engine.claim_next(), Some(h));
    assert_eq!(engine.record(h, WorkerEvent::Progress { read: 50, total: 100 }), Ok(()));
    assert_eq!(states(&engine), vec![DownloadState::InProgress { read: 50, total: 100 }]);
    assert_eq!(engine.record(h, WorkerEvent::Progress { read: 100, total: 100 }), Ok(()));
    assert_eq!(engine.record(h, WorkerEvent::Acquired), Ok(()));
    assert_eq!(states(&engine), vec![DownloadState::PostProcessing]);
    assert_eq!(
        engine.record(h, WorkerEvent::Finished { artifact_path: "abc.mp3".to_string() }),
        Ok(())
    );
    assert_eq!(
        states(&engine),
        vec![DownloadState::Done { artifact_path: "abc.mp3".to_string() }]
    );
    assert_eq!(
        engine.record(h, WorkerEvent::Broken { reason: "late".to_string() }),
        Err(TransitionError::NotAllowed)
    );
}

#[test]
fn collaborator_failure_is_recorded_on_the_job_alone() {
    let mut engine = JobEngine::new();
    let a = submit(&mut engine, "a").unwrap();
    let b = submit(&mut engine, "b").unwrap();
    assert_eq!(engine.claim_next(), Some(a));
    assert_eq!(engine.claim_next(), Some(b));
    assert_eq!(engine.record(a, WorkerEvent::Broken { reason: "no rights".to_string() }), Ok(()));
    assert_eq!(
        states(&engine),
        vec![DownloadState::Failed { reason: "no rights".to_string() }, DownloadState::Locked]
    );
    assert_eq!(
        engine.record(JobHandle { serial: 9 }, WorkerEvent::Acquired),
        Err(TransitionError::UnknownJob)
    );
    assert_eq!(
        WorkerEvent::Broken { reason: "x".to_string() }.into_state(),
        DownloadState::Failed { reason: "x".to_string() }
    );
    assert_eq!(WorkerEvent::Acquired.into_state(), DownloadState::PostProcessing);
}
