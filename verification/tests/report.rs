use track_jobs::job::{DownloadState, Job, JobHandle};
use track_jobs::report::{is_settled, percent, progress_label, report, status_line, Report};

fn job(title: &str, state: DownloadState) -> Job {
    Job {
        handle: JobHandle { serial: 0 },
        track_id: "abc".to_string(),
        title: title.to_string(),
        author: "author".to_string(),
        state,
    }
}

fn done() -> DownloadState {
    DownloadState::Done { artifact_path: "abc.mp3".to_string() }
}

fn failed(reason: &str) -> DownloadState {
    DownloadState::Failed { reason: reason.to_string() }
}

#[test]
fn percent_is_floor_of_share() {
    assert_eq!(percent(50, 100), 50);
    assert_eq!(percent(0, 100), 0);
    assert_eq!(percent(1, 3), 33);
    assert_eq!(percent(2, 3), 66);
    assert_eq!(percent(99, 100), 99);
    assert_eq!(percent(999, 1000), 99);
    assert_eq!(percent(100, 100), 100);
    assert_eq!(percent(1, 1000), 0);
}

#[test]
fn percent_is_clamped() {
    assert_eq!(percent(101, 100), 100);
    assert_eq!(percent(usize::MAX, 1), 100);
    assert_eq!(percent(5, 0), 100);
    assert_eq!(percent(usize::MAX, usize::MAX), 100);
    assert_eq!(percent(usize::MAX - 1, usize::MAX), 99);
}

#[test]
fn percent_of_nothing_is_zero() {
    assert_eq!(percent(0, 0), 0);
}

#[test]
fn labels_name_each_state() {
    assert_eq!(progress_label(&DownloadState::Queued), "Preparing... ");
    assert_eq!(progress_label(&DownloadState::Locked), "Preparing... ");
    assert_eq!(progress_label(&DownloadState::InProgress { read: 1, total: 4 }), "25%");
    assert_eq!(progress_label(&DownloadState::InProgress { read: 0, total: 0 }), "0%");
    assert_eq!(progress_label(&DownloadState::PostProcessing), "Postprocessing... ");
    assert_eq!(progress_label(&done()), "Done.");
    assert_eq!(progress_label(&failed("no rights")), "no rights");
}

#[test]
fn overshoot_renders_as_hundred_percent() {
    assert_eq!(progress_label(&DownloadState::InProgress { read: 150, total: 100 }), "100%");
    assert_eq!(progress_label(&DownloadState::InProgress { read: 7, total: 0 }), "100%");
    assert_eq!(
        progress_label(&DownloadState::InProgress { read: usize::MAX, total: 2 }),
        "100%"
    );
}

#[test]
fn job_progress_renders_in_order() {
    let states = [
        DownloadState::InProgress { read: 50, total: 100 },
        DownloadState::InProgress { read: 100, total: 100 },
        DownloadState::PostProcessing,
        DownloadState::Done { artifact_path: "abc.mp3".to_string() },
    ];
    let rendered: Vec<String> = states.iter().map(progress_label).collect();
    assert_eq!(rendered, vec!["50%", "100%", "Postprocessing... ", "Done."]);
}

#[test]
fn status_line_pads_the_progress_column() {
    assert_eq!(status_line(&job("Song", done())), "Done.              | Song");
    assert_eq!(
        status_line(&job("Song", DownloadState::InProgress { read: 1, total: 2 })),
        "50%                | Song"
    );
    assert_eq!(status_line(&job("", DownloadState::Queued)), "Preparing...       | ");
    assert_eq!(
        status_line(&job("Song", DownloadState::PostProcessing)),
        "Postprocessing...  | Song"
    );
}

#[test]
fn long_reason_is_not_cut() {
    assert_eq!(
        status_line(&job("Song", failed("the catalog refused the track"))),
        "the catalog refused the track| Song"
    );
    assert_eq!(
        status_line(&job("Song", failed("exactly 19 chars...")),),
        "exactly 19 chars...| Song"
    );
}

#[test]
fn settled_means_every_job_terminal() {
    assert!(is_settled(&vec![]));
    assert!(is_settled(&vec![job("a", done()), job("b", failed("x"))]));
    assert!(!is_settled(&vec![job("a", done()), job("b", DownloadState::Queued)]));
    assert!(!is_settled(&vec![job("a", DownloadState::Locked)]));
    assert!(!is_settled(&vec![job("a", DownloadState::InProgress { read: 1, total: 1 })]));
    assert!(!is_settled(&vec![job("a", DownloadState::PostProcessing), job("b", failed("x"))]));
    assert!(!is_settled(&vec![job("b", failed("x")), job("a", DownloadState::PostProcessing)]));
}

#[test]
fn report_goes_on_while_a_job_is_active() {
    let jobs = vec![
        job("One", DownloadState::InProgress { read: 50, total: 100 }),
        job("Two", failed("no rights")),
        job("Three", done()),
    ];
    assert_eq!(
        report(&jobs, 12),
        Report {
            lines: vec![
                "50%                | One".to_string(),
                "no rights          | Two".to_string(),
                "Done.              | Three".to_string(),
            ],
            footer: "\nElapsed second(s): 12".to_string(),
            finished: false,
        }
    );
}

#[test]
fn report_ends_when_all_jobs_are_settled() {
    let jobs = vec![job("Two", failed("no rights")), job("Three", done())];
    assert_eq!(
        report(&jobs, 75),
        Report {
            lines: vec![
                "no rights          | Two".to_string(),
                "Done.              | Three".to_string(),
            ],
            footer: "Finished download(s) in 75 second(s).".to_string(),
            finished: true,
        }
    );
}

#[test]
fn report_of_nothing_is_finished() {
    assert_eq!(
        report(&vec![], 0),
        Report {
            lines: vec![],
            footer: "Finished download(s) in 0 second(s).".to_string(),
            finished: true,
        }
    );
}
