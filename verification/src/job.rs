//! Jobs and the state machine that every job follows from submission to its
//! terminal state.

use vstd::prelude::*;

verus! {

/// The state of one job.
#[derive(Debug, PartialEq, Eq)]
pub enum DownloadState {
    /// Accepted, not yet claimed by a worker.
    Queued,
    /// Claimed by a worker, acquisition not yet started.
    Locked,
    /// Acquisition underway: `read` of `total` units fetched so far.
    InProgress { read: usize, total: usize },
    /// Acquisition complete, conversion and tagging underway.
    PostProcessing,
    /// Finished; the artifact waits at `artifact_path` to be retrieved once.
    Done { artifact_path: String },
    /// Given up, for the cause in `reason`.
    Failed { reason: String },
}

/// Mathematical model of a [`DownloadState`].
pub enum StateView {
    Queued,
    Locked,
    InProgress { read: nat, total: nat },
    PostProcessing,
    Done { artifact_path: Seq<char> },
    Failed { reason: Seq<char> },
}

impl StateView {
    /// `Done` and `Failed` are the terminal states.
    pub open spec fn is_terminal(self) -> bool {
        self is Done || self is Failed
    }

    /// Position of the state along the path `Queued, Locked, InProgress,
    /// PostProcessing`, with both terminal states at the end.
    pub open spec fn rank(self) -> nat {
        match self {
            StateView::Queued => 0,
            StateView::Locked => 1,
            StateView::InProgress { .. } => 2,
            StateView::PostProcessing => 3,
            StateView::Done { .. } => 4,
            StateView::Failed { .. } => 4,
        }
    }
}

/// The single transitions of the state machine: one step forward along
/// `Queued, Locked, InProgress, PostProcessing, Done`, any number of progress
/// updates while `InProgress`, and failure from `Locked`, `InProgress` or
/// `PostProcessing`.
pub open spec fn step_allowed(from: StateView, to: StateView) -> bool {
    match from {
        StateView::Queued => to is Locked,
        StateView::Locked => to is InProgress || to is Failed,
        StateView::InProgress { .. } => to is InProgress || to is PostProcessing || to is Failed,
        StateView::PostProcessing => to is Done || to is Failed,
        StateView::Done { .. } => false,
        StateView::Failed { .. } => false,
    }
}

/// Whether an observer who saw a job in state `earlier` may see it in state
/// `later` afterwards: nothing but itself follows a terminal state; a
/// non-terminal state is followed by itself, by a state further along the
/// path, by another `InProgress`, or by `Failed`.
pub open spec fn may_follow(earlier: StateView, later: StateView) -> bool {
    if earlier.is_terminal() {
        later == earlier
    } else {
        ||| later == earlier
        ||| later is Failed
        ||| earlier.rank() < later.rank()
        ||| (earlier is InProgress && later is InProgress)
    }
}

/// Every single transition respects the observable order.
pub proof fn lemma_step_respects_order(from: StateView, to: StateView)
    requires
        step_allowed(from, to),
    ensures
        may_follow(from, to),
        !from.is_terminal(),
{
}

/// The observable order is reflexive.
pub proof fn lemma_order_reflexive(s: StateView)
    ensures
        may_follow(s, s),
{
}

/// The observable order is transitive.
pub proof fn lemma_order_transitive(a: StateView, b: StateView, c: StateView)
    requires
        may_follow(a, b),
        may_follow(b, c),
    ensures
        may_follow(a, c),
{
}

/// No other state is observed after `Done` or `Failed`.
pub proof fn lemma_terminal_is_final(earlier: StateView, later: StateView)
    requires
        earlier.is_terminal(),
        may_follow(earlier, later),
    ensures
        later == earlier,
{
}

/// A trace in which each state is the one before it or a single transition
/// away from it.
pub open spec fn is_history(trace: Seq<StateView>) -> bool {
    forall|i: int|
        0 <= i < trace.len() - 1 ==> trace[i + 1] == #[trigger] trace[i] || step_allowed(
            trace[i],
            trace[i + 1],
        )
}

/// Monotonic transitions: whatever part of a job's history is observed, the
/// states are seen in the order `Queued, Locked, InProgress, PostProcessing,
/// Done`, or the observation ends in `Failed`, and once a terminal state was
/// seen no other state is seen.
pub proof fn lemma_history_is_monotonic(trace: Seq<StateView>, i: int, j: int)
    requires
        is_history(trace),
        0 <= i <= j < trace.len(),
    ensures
        may_follow(trace[i], trace[j]),
        trace[i].is_terminal() ==> trace[j] == trace[i],
        trace[i].rank() <= trace[j].rank(),
    decreases j - i,
{
    if i < j {
        lemma_history_is_monotonic(trace, i, j - 1);
        assert(trace[j - 1 + 1] == trace[j - 1] || step_allowed(trace[j - 1], trace[j - 1 + 1]));
    }
}

impl View for DownloadState {
    type V = StateView;

    open spec fn view(&self) -> StateView {
        match self {
            DownloadState::Queued => StateView::Queued,
            DownloadState::Locked => StateView::Locked,
            DownloadState::InProgress { read, total } => StateView::InProgress {
                read: *read as nat,
                total: *total as nat,
            },
            DownloadState::PostProcessing => StateView::PostProcessing,
            DownloadState::Done { artifact_path } => StateView::Done {
                artifact_path: artifact_path@,
            },
            DownloadState::Failed { reason } => StateView::Failed { reason: reason@ },
        }
    }
}

impl Clone for DownloadState {
    fn clone(&self) -> (r: Self)
        ensures
            r@ == self@,
    {
        match self {
            DownloadState::Queued => DownloadState::Queued,
            DownloadState::Locked => DownloadState::Locked,
            DownloadState::InProgress { read, total } => DownloadState::InProgress {
                read: *read,
                total: *total,
            },
            DownloadState::PostProcessing => DownloadState::PostProcessing,
            DownloadState::Done { artifact_path } => DownloadState::Done {
                artifact_path: artifact_path.clone(),
            },
            DownloadState::Failed { reason } => DownloadState::Failed { reason: reason.clone() },
        }
    }
}

impl DownloadState {
    /// Whether the state is `Done` or `Failed`.
    pub fn is_terminal(&self) -> (r: bool)
        ensures
            r == self@.is_terminal(),
    {
        match self {
            DownloadState::Done { .. } => true,
            DownloadState::Failed { .. } => true,
            _ => false,
        }
    }

    /// Whether the state machine has a single transition from this state to
    /// `next`.
    pub fn permits(&self, next: &DownloadState) -> (r: bool)
        ensures
            r == step_allowed(self@, next@),
    {
        match self {
            DownloadState::Queued => matches!(next, DownloadState::Locked),
            DownloadState::Locked => matches!(
                next,
                DownloadState::InProgress { .. } | DownloadState::Failed { .. }
            ),
            DownloadState::InProgress { .. } => matches!(
                next,
                DownloadState::InProgress { .. } | DownloadState::PostProcessing
                    | DownloadState::Failed { .. }
            ),
            DownloadState::PostProcessing => matches!(
                next,
                DownloadState::Done { .. } | DownloadState::Failed { .. }
            ),
            DownloadState::Done { .. } => false,
            DownloadState::Failed { .. } => false,
        }
    }
}

/// What a worker learns from the collaborators that acquire, convert and
/// tag a track.
#[derive(Debug, PartialEq, Eq)]
pub enum WorkerEvent {
    /// The acquisition has fetched `read` of `total` units.
    Progress { read: usize, total: usize },
    /// The acquisition is complete.
    Acquired,
    /// Conversion and tagging are complete; the artifact is at
    /// `artifact_path`.
    Finished { artifact_path: String },
    /// A collaborator gave up, for the cause in `reason`.
    Broken { reason: String },
}

/// Mathematical model of a [`WorkerEvent`].
pub enum WorkerEventView {
    Progress { read: nat, total: nat },
    Acquired,
    Finished { artifact_path: Seq<char> },
    Broken { reason: Seq<char> },
}

impl View for WorkerEvent {
    type V = WorkerEventView;

    open spec fn view(&self) -> WorkerEventView {
        match self {
            WorkerEvent::Progress { read, total } => WorkerEventView::Progress {
                read: *read as nat,
                total: *total as nat,
            },
            WorkerEvent::Acquired => WorkerEventView::Acquired,
            WorkerEvent::Finished { artifact_path } => WorkerEventView::Finished {
                artifact_path: artifact_path@,
            },
            WorkerEvent::Broken { reason } => WorkerEventView::Broken { reason: reason@ },
        }
    }
}

/// The state that an event puts a job in: progress is `InProgress`, the end
/// of the acquisition `PostProcessing`, the artifact `Done`, and a failure of
/// a collaborator `Failed` with its cause.
pub open spec fn state_after(event: WorkerEventView) -> StateView {
    match event {
        WorkerEventView::Progress { read, total } => StateView::InProgress { read, total },
        WorkerEventView::Acquired => StateView::PostProcessing,
        WorkerEventView::Finished { artifact_path } => StateView::Done { artifact_path },
        WorkerEventView::Broken { reason } => StateView::Failed { reason },
    }
}

impl WorkerEvent {
    /// The state that this event puts a job in.
    pub fn into_state(self) -> (r: DownloadState)
        ensures
            r@ == state_after(self@),
    {
        match self {
            WorkerEvent::Progress { read, total } => DownloadState::InProgress { read, total },
            WorkerEvent::Acquired => DownloadState::PostProcessing,
            WorkerEvent::Finished { artifact_path } => DownloadState::Done { artifact_path },
            WorkerEvent::Broken { reason } => DownloadState::Failed { reason },
        }
    }
}

/// Names one job for as long as the engine that issued the handle lives: no
/// two jobs of one engine share a serial number.
#[derive(Debug, Clone, Copy, PartialEq, Eq, Structural)]
pub struct JobHandle {
    pub serial: u64,
}

/// One requested track download.
#[derive(Debug, PartialEq, Eq)]
pub struct Job {
    pub handle: JobHandle,
    pub track_id: String,
    pub title: String,
    pub author: String,
    pub state: DownloadState,
}

/// Mathematical model of a [`Job`].
pub struct JobView {
    pub handle: JobHandle,
    pub track_id: Seq<char>,
    pub title: Seq<char>,
    pub author: Seq<char>,
    pub state: StateView,
}

impl JobView {
    /// A job is active until it reaches a terminal state.
    pub open spec fn is_active(self) -> bool {
        !self.state.is_terminal()
    }
}

impl View for Job {
    type V = JobView;

    open spec fn view(&self) -> JobView {
        JobView {
            handle: self.handle,
            track_id: self.track_id@,
            title: self.title@,
            author: self.author@,
            state: self.state@,
        }
    }
}

impl Clone for Job {
    fn clone(&self) -> (r: Self)
        ensures
            r@ == self@,
    {
        Job {
            handle: self.handle,
            track_id: self.track_id.clone(),
            title: self.title.clone(),
            author: self.author.clone(),
            state: self.state.clone(),
        }
    }
}

/// The models of a sequence of jobs, in the same order.
pub open spec fn job_views(jobs: Seq<Job>) -> Seq<JobView> {
    Seq::new(jobs.len(), |i: int| jobs[i]@)
}

/// One match that the catalog found for a query.
#[derive(Debug, PartialEq, Eq)]
pub struct SearchResult {
    pub track_id: String,
    pub title: String,
    pub author: String,
}

/// Mathematical model of a [`SearchResult`].
pub struct SearchResultView {
    pub track_id: Seq<char>,
    pub title: Seq<char>,
    pub author: Seq<char>,
}

impl View for SearchResult {
    type V = SearchResultView;

    open spec fn view(&self) -> SearchResultView {
        SearchResultView { track_id: self.track_id@, title: self.title@, author: self.author@ }
    }
}

} // verus!
