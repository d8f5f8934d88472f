//! The status view: one line of text per job, and the rule that ends the
//! reporting loop.

use crate::job::{job_views, DownloadState, Job, JobView, StateView};
use crate::text::{decimal, pad_right, padded, push_decimal};
use vstd::prelude::*;

verus! {

/// Width of the progress column of a status line.
pub const PROGRESS_WIDTH: usize = 19;

/// The share of `total` that `read` amounts to, in whole percent and never
/// above 100. Of nothing, nothing read is 0 and anything read is 100.
pub open spec fn percent_of(read: nat, total: nat) -> nat {
    if read >= total {
        if read == 0 {
            0
        } else {
            100
        }
    } else {
        read * 100 / total
    }
}

/// Progress clamping: the percentage is never above 100, and it is 100
/// whenever more was read than the total.
pub proof fn lemma_percent_is_clamped(read: nat, total: nat)
    ensures
        percent_of(read, total) <= 100,
        read > total ==> percent_of(read, total) == 100,
        0 < read < total ==> percent_of(read, total) < 100,
{
    if read < total {
        assert(read * 100 / total < 100) by (nonlinear_arith)
            requires
                0 <= read < total,
        ;
    }
}

/// The share of `total` that `read` amounts to, in whole percent, at most
/// 100.
pub fn percent(read: usize, total: usize) -> (p: u8)
    ensures
        p == percent_of(read as nat, total as nat),
        p <= 100,
        read > total ==> p == 100,
{
    proof {
        lemma_percent_is_clamped(read as nat, total as nat);
    }
    if read >= total {
        if read == 0 {
            0
        } else {
            100
        }
    } else {
        let scaled: u128 = (read as u128) * 100;
        (scaled / (total as u128)) as u8
    }
}

/// The text of the progress column for a job in the given state.
pub open spec fn label_of(state: StateView) -> Seq<char> {
    match state {
        StateView::Queued => "Preparing... "@,
        StateView::Locked => "Preparing... "@,
        StateView::InProgress { read, total } => decimal(percent_of(read, total)).push('%'),
        StateView::PostProcessing => "Postprocessing... "@,
        StateView::Done { .. } => "Done."@,
        StateView::Failed { reason } => reason,
    }
}

/// The text of the progress column for a job in the given state: a marker
/// for each phase, the clamped percentage while the acquisition runs, the
/// reason for a failure.
pub fn progress_label(state: &DownloadState) -> (r: String)
    ensures
        r@ == label_of(state@),
        state@ matches StateView::InProgress { read, total } && read > total ==> r@ == "100%"@,
{
    match state {
        DownloadState::Queued => String::from_str("Preparing... "),
        DownloadState::Locked => String::from_str("Preparing... "),
        DownloadState::InProgress { read, total } => {
            let mut out = String::new();
            let p = percent(*read, *total);
            push_decimal(&mut out, p as u64);
            out.push('%');
            proof {
                assert(out@ =~= decimal(p as nat).push('%'));
                if *read > *total {
                    reveal_strlit("100%");
                    reveal_with_fuel(decimal, 3);
                    assert(decimal(100) =~= seq!['1', '0', '0']);
                    assert(out@ =~= "100%"@);
                }
            }
            out
        },
        DownloadState::PostProcessing => String::from_str("Postprocessing... "),
        DownloadState::Done { .. } => String::from_str("Done."),
        DownloadState::Failed { reason } => reason.clone(),
    }
}

/// The status line of a job: the progress column, padded to its width, a
/// bar, and the title.
pub open spec fn line_of(job: JobView) -> Seq<char> {
    padded(label_of(job.state), PROGRESS_WIDTH as nat) + "| "@ + job.title
}

/// The status line of a job.
pub fn status_line(job: &Job) -> (r: String)
    ensures
        r@ == line_of(job@),
{
    let label = progress_label(&job.state);
    let mut out = pad_right(label.as_str(), PROGRESS_WIDTH);
    out.append("| ");
    out.append(job.title.as_str());
    out
}

/// Whether every job has reached a terminal state.
pub open spec fn all_settled(jobs: Seq<JobView>) -> bool {
    forall|i: int| 0 <= i < jobs.len() ==> !(#[trigger] jobs[i]).is_active()
}

/// Whether every job has reached a terminal state, which is when the
/// reporting loop ends.
pub fn is_settled(jobs: &Vec<Job>) -> (r: bool)
    ensures
        r == all_settled(job_views(jobs@)),
{
    let mut i: usize = 0;
    while i < jobs.len()
        invariant
            i <= jobs.len(),
            forall|j: int| 0 <= j < i ==> !(#[trigger] job_views(jobs@)[j]).is_active(),
        decreases jobs.len() - i,
    {
        if !jobs[i].state.is_terminal() {
            assert(job_views(jobs@)[i as int].is_active());
            return false;
        }
        i += 1;
    }
    true
}

/// The line under the status lines: the time taken once every job is
/// settled, the time elapsed so far before that.
pub open spec fn footer_of(settled: bool, elapsed_seconds: nat) -> Seq<char> {
    if settled {
        "Finished download(s) in "@ + decimal(elapsed_seconds) + " second(s)."@
    } else {
        "\nElapsed second(s): "@ + decimal(elapsed_seconds)
    }
}

/// One round of the status view.
#[derive(Debug, PartialEq, Eq)]
pub struct Report {
    /// One line per job, in the order of the snapshot.
    pub lines: Vec<String>,
    /// The line under them.
    pub footer: String,
    /// Whether this was the last round.
    pub finished: bool,
}

/// The text of one round of the status view for a snapshot taken
/// `elapsed_seconds` after the view was opened. The round is the last one
/// exactly when every job of the snapshot is settled.
pub fn report(jobs: &Vec<Job>, elapsed_seconds: u64) -> (r: Report)
    ensures
        r.finished == all_settled(job_views(jobs@)),
        r.footer@ == footer_of(r.finished, elapsed_seconds as nat),
        r.lines.len() == jobs.len(),
        forall|i: int| 0 <= i < jobs.len() ==> (#[trigger] r.lines[i])@ == line_of(jobs[i]@),
{
    let mut lines: Vec<String> = Vec::new();
    let mut i: usize = 0;
    while i < jobs.len()
        invariant
            i <= jobs.len(),
            lines.len() == i,
            forall|j: int| 0 <= j < i ==> (#[trigger] lines[j])@ == line_of(jobs[j]@),
        decreases jobs.len() - i,
    {
        lines.push(status_line(&jobs[i]));
        i += 1;
    }
    let finished = is_settled(jobs);
    let mut footer = if finished {
        String::from_str("Finished download(s) in ")
    } else {
        String::from_str("\nElapsed second(s): ")
    };
    push_decimal(&mut footer, elapsed_seconds);
    if finished {
        footer.append(" second(s).");
    }
    Report { lines, footer, finished }
}

} // verus!
