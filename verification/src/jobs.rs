//! The jobs that fetch and purge artifacts: what each decides in each
//! state of an artifact, and the steps in which it runs.

use crate::cache::db::Status;
use crate::nix::hash;
use crate::nix::hash::HashView;
use crate::nix::nar_info::{NarInfo, NarInfoView};
use crate::nix::upstream::Upstream;
use vstd::prelude::*;
use vstd::string::StringExecFns;

verus! {

/// The seconds after which a job that has to wait for another is run again.
pub const RESCHEDULE_SECONDS: u64 = 10;

/// A piece of work on one artifact.
#[derive(Debug)]
pub enum Job {
    /// Fetch the artifact; with `is_force`, also where it is here already.
    CacheNar { hash: hash::Hash, is_force: bool },
    /// Remove the artifact; with `is_force`, also where it is not here.
    PurgeNar { hash: hash::Hash, is_force: bool },
    /// Do nothing.
    Test,
}

/// What a `Job` stands for.
pub ghost enum JobView {
    CacheNar { hash: HashView, is_force: bool },
    PurgeNar { hash: HashView, is_force: bool },
    Test,
}

impl View for Job {
    type V = JobView;

    open spec fn view(&self) -> JobView {
        match self {
            Job::CacheNar { hash, is_force } => JobView::CacheNar {
                hash: hash@,
                is_force: *is_force,
            },
            Job::PurgeNar { hash, is_force } => JobView::PurgeNar {
                hash: hash@,
                is_force: *is_force,
            },
            Job::Test => JobView::Test,
        }
    }
}

/// How a job ends.
#[derive(Debug)]
pub enum JobOutcome {
    /// The job is done.
    Success,
    /// The job ends without an error and is not run again.
    Kill,
    /// The job is run again after so many seconds.
    Reschedule(u64),
    /// The job is run again at once.
    Retry,
    /// The job failed, for the reason given.
    Failed(String),
}

/// What a `JobOutcome` stands for.
pub ghost enum JobOutcomeView {
    Success,
    Kill,
    Reschedule(u64),
    Retry,
    Failed(Seq<char>),
}

impl View for JobOutcome {
    type V = JobOutcomeView;

    open spec fn view(&self) -> JobOutcomeView {
        match self {
            JobOutcome::Success => JobOutcomeView::Success,
            JobOutcome::Kill => JobOutcomeView::Kill,
            JobOutcome::Reschedule(s) => JobOutcomeView::Reschedule(*s),
            JobOutcome::Retry => JobOutcomeView::Retry,
            JobOutcome::Failed(c) => JobOutcomeView::Failed(c@),
        }
    }
}

/// What a job decides when it has read the state of its artifact.
#[derive(Clone, Copy, Debug, PartialEq, Eq, Structural)]
pub enum Claim {
    /// The job takes the artifact and goes on.
    Proceed,
    /// The job ends and is not run again.
    Kill,
    /// The job ends and is run again after so many seconds.
    Reschedule(u64),
}

/// What a fetch decides. It goes on where the artifact is unknown or not
/// available, and, if forced, where it is available. It waits, if forced,
/// for a purge to end. In every other case another worker has the
/// artifact, or the artifact is here, and the job ends.
pub open spec fn cache_claim(status: Option<Status>, is_force: bool) -> Claim {
    match status {
        None => Claim::Proceed,
        Some(Status::NotAvailable) => Claim::Proceed,
        Some(Status::Available) => if is_force {
            Claim::Proceed
        } else {
            Claim::Kill
        },
        Some(Status::Fetching) => Claim::Kill,
        Some(Status::Purging) => if is_force {
            Claim::Reschedule(RESCHEDULE_SECONDS)
        } else {
            Claim::Kill
        },
    }
}

/// What a purge decides. It goes on where the artifact is available, and,
/// if forced, where it is not available. It waits, if forced, for a fetch
/// to end. In every other case there is nothing to purge, or another
/// worker has the artifact, and the job ends.
pub open spec fn purge_claim(status: Option<Status>, is_force: bool) -> Claim {
    match status {
        None => Claim::Kill,
        Some(Status::Available) => Claim::Proceed,
        Some(Status::NotAvailable) => if is_force {
            Claim::Proceed
        } else {
            Claim::Kill
        },
        Some(Status::Fetching) => if is_force {
            Claim::Reschedule(RESCHEDULE_SECONDS)
        } else {
            Claim::Kill
        },
        Some(Status::Purging) => Claim::Kill,
    }
}

/// What a fetch decides in the state `status`.
pub fn decide_cache(status: Option<Status>, is_force: bool) -> (c: Claim)
    ensures
        c == cache_claim(status, is_force),
{
    match status {
        None => Claim::Proceed,
        Some(Status::NotAvailable) => Claim::Proceed,
        Some(Status::Available) => if is_force {
            Claim::Proceed
        } else {
            Claim::Kill
        },
        Some(Status::Fetching) => Claim::Kill,
        Some(Status::Purging) => if is_force {
            Claim::Reschedule(RESCHEDULE_SECONDS)
        } else {
            Claim::Kill
        },
    }
}

/// What a purge decides in the state `status`.
pub fn decide_purge(status: Option<Status>, is_force: bool) -> (c: Claim)
    ensures
        c == purge_claim(status, is_force),
{
    match status {
        None => Claim::Kill,
        Some(Status::Available) => Claim::Proceed,
        Some(Status::NotAvailable) => if is_force {
            Claim::Proceed
        } else {
            Claim::Kill
        },
        Some(Status::Fetching) => if is_force {
            Claim::Reschedule(RESCHEDULE_SECONDS)
        } else {
            Claim::Kill
        },
        Some(Status::Purging) => Claim::Kill,
    }
}

/// What an upstream gave: the descriptor, the upstream, and the bytes of
/// the archive.
#[derive(Debug)]
pub struct Fetched {
    pub nar_info: NarInfo,
    pub upstream: Upstream,
    pub data: Vec<u8>,
}

/// What a `Fetched` stands for.
pub ghost struct FetchedView {
    pub nar_info: NarInfoView,
    pub upstream: Seq<char>,
    pub data: Seq<u8>,
}

impl View for Fetched {
    type V = FetchedView;

    open spec fn view(&self) -> FetchedView {
        FetchedView { nar_info: self.nar_info@, upstream: self.upstream@, data: self.data@ }
    }
}

/// What the outside asks of a job, or tells it of the step it was asked
/// to take.
#[derive(Debug)]
pub enum Event {
    /// The job is to begin.
    Begin,
    /// The state of the artifact, read in a transaction that stays open.
    Status(Option<Status>),
    /// The step was taken.
    Done,
    /// What the upstreams gave; `None` where all of them failed.
    Fetched(Option<Fetched>),
    /// The path of the artifact's archive; `None` where the index holds no
    /// descriptor for the artifact.
    Archive(Option<String>),
    /// The step failed, for the reason given; what it had changed in the
    /// index is undone.
    Failed(String),
}

/// What an `Event` stands for.
pub ghost enum EventView {
    Begin,
    Status(Option<Status>),
    Done,
    Fetched(Option<FetchedView>),
    Archive(Option<Seq<char>>),
    Failed(Seq<char>),
}

impl View for Event {
    type V = EventView;

    open spec fn view(&self) -> EventView {
        match self {
            Event::Begin => EventView::Begin,
            Event::Status(s) => EventView::Status(*s),
            Event::Done => EventView::Done,
            Event::Fetched(f) => EventView::Fetched(
                match f {
                    Some(x) => Some(x@),
                    None => None,
                },
            ),
            Event::Archive(p) => EventView::Archive(
                match p {
                    Some(x) => Some(x@),
                    None => None,
                },
            ),
            Event::Failed(c) => EventView::Failed(c@),
        }
    }
}

/// The step that a job asks the outside to take on its artifact.
#[derive(Debug)]
pub enum Action {
    /// Open a transaction and read the state.
    ReadStatus,
    /// In the open transaction: set the state to `Fetching`, stamp the time
    /// of the fetch, and commit.
    ClaimFetching,
    /// Ask the upstreams, in their order, for descriptor and archive.
    Fetch,
    /// In one transaction: write the descriptor, replacing an old one only
    /// if forced; write the archive; set the state to `Available`.
    Install { fetched: Fetched, is_force: bool },
    /// Set the state to `NotAvailable`.
    MarkNotAvailable,
    /// Look the path of the archive up in the descriptor.
    LookUpArchive,
    /// In the open transaction: set the state to `Purging`, and commit.
    ClaimPurging,
    /// Remove the archive at the path; it may be gone already.
    RemoveArchive(String),
    /// Remove the artifact's state from the index.
    ForgetEntry,
    /// End the job; a transaction that is still open is given up.
    Finish(JobOutcome),
}

/// What an `Action` stands for.
pub ghost enum ActionView {
    ReadStatus,
    ClaimFetching,
    Fetch,
    Install { fetched: FetchedView, is_force: bool },
    MarkNotAvailable,
    LookUpArchive,
    ClaimPurging,
    RemoveArchive(Seq<char>),
    ForgetEntry,
    Finish(JobOutcomeView),
}

impl View for Action {
    type V = ActionView;

    open spec fn view(&self) -> ActionView {
        match self {
            Action::ReadStatus => ActionView::ReadStatus,
            Action::ClaimFetching => ActionView::ClaimFetching,
            Action::Fetch => ActionView::Fetch,
            Action::Install { fetched, is_force } => ActionView::Install {
                fetched: fetched@,
                is_force: *is_force,
            },
            Action::MarkNotAvailable => ActionView::MarkNotAvailable,
            Action::LookUpArchive => ActionView::LookUpArchive,
            Action::ClaimPurging => ActionView::ClaimPurging,
            Action::RemoveArchive(p) => ActionView::RemoveArchive(p@),
            Action::ForgetEntry => ActionView::ForgetEntry,
            Action::Finish(o) => ActionView::Finish(o@),
        }
    }
}

/// How far a job has come.
#[derive(Debug)]
pub enum Phase {
    /// Not begun.
    Start,
    /// Waiting for the state of the artifact.
    ReadingStatus,
    /// Waiting for the state `Fetching` to be set.
    ClaimingFetch,
    /// Waiting for the upstreams.
    Fetching,
    /// Waiting for descriptor and archive to be written.
    Installing,
    /// Waiting for the state `NotAvailable` to be set.
    Releasing,
    /// Waiting for the path of the archive.
    LookingUp,
    /// Waiting for the state `Purging` to be set; it holds the path of the
    /// archive.
    ClaimingPurge(String),
    /// Waiting for the archive to be removed.
    Removing,
    /// Waiting for the state to be removed from the index.
    Forgetting,
    /// Ended.
    Finished,
}

/// What a `Phase` stands for.
pub ghost enum PhaseView {
    Start,
    ReadingStatus,
    ClaimingFetch,
    Fetching,
    Installing,
    Releasing,
    LookingUp,
    ClaimingPurge(Seq<char>),
    Removing,
    Forgetting,
    Finished,
}

impl View for Phase {
    type V = PhaseView;

    open spec fn view(&self) -> PhaseView {
        match self {
            Phase::Start => PhaseView::Start,
            Phase::ReadingStatus => PhaseView::ReadingStatus,
            Phase::ClaimingFetch => PhaseView::ClaimingFetch,
            Phase::Fetching => PhaseView::Fetching,
            Phase::Installing => PhaseView::Installing,
            Phase::Releasing => PhaseView::Releasing,
            Phase::LookingUp => PhaseView::LookingUp,
            Phase::ClaimingPurge(p) => PhaseView::ClaimingPurge(p@),
            Phase::Removing => PhaseView::Removing,
            Phase::Forgetting => PhaseView::Forgetting,
            Phase::Finished => PhaseView::Finished,
        }
    }
}

/// The reason with which a job fails when it is told of a step that it did
/// not ask for.
pub open spec fn unexpected() -> Seq<char> {
    "unexpected event"@
}

/// The end of a job with the outcome `o`.
pub open spec fn finish(o: JobOutcomeView) -> (PhaseView, ActionView) {
    (PhaseView::Finished, ActionView::Finish(o))
}

/// The end that a claim other than `Proceed` brings.
pub open spec fn stop(c: Claim) -> (PhaseView, ActionView) {
    match c {
        Claim::Reschedule(s) => finish(JobOutcomeView::Reschedule(s)),
        _ => finish(JobOutcomeView::Kill),
    }
}

/// The next step of a fetch.
pub open spec fn cache_next(is_force: bool, phase: PhaseView, event: EventView) -> (
    PhaseView,
    ActionView,
) {
    match (phase, event) {
        (_, EventView::Failed(cause)) => finish(JobOutcomeView::Failed(cause)),
        (PhaseView::Start, EventView::Begin) => (PhaseView::ReadingStatus, ActionView::ReadStatus),
        (PhaseView::ReadingStatus, EventView::Status(s)) => match cache_claim(s, is_force) {
            Claim::Proceed => (PhaseView::ClaimingFetch, ActionView::ClaimFetching),
            c => stop(c),
        },
        (PhaseView::ClaimingFetch, EventView::Done) => (PhaseView::Fetching, ActionView::Fetch),
        (PhaseView::Fetching, EventView::Fetched(Some(f))) => (
            PhaseView::Installing,
            ActionView::Install { fetched: f, is_force },
        ),
        (PhaseView::Fetching, EventView::Fetched(None)) => (
            PhaseView::Releasing,
            ActionView::MarkNotAvailable,
        ),
        (PhaseView::Installing, EventView::Done) => finish(JobOutcomeView::Success),
        (PhaseView::Releasing, EventView::Done) => finish(JobOutcomeView::Success),
        _ => finish(JobOutcomeView::Failed(unexpected())),
    }
}

/// The next step of a purge.
pub open spec fn purge_next(is_force: bool, phase: PhaseView, event: EventView) -> (
    PhaseView,
    ActionView,
) {
    match (phase, event) {
        (_, EventView::Failed(cause)) => finish(JobOutcomeView::Failed(cause)),
        (PhaseView::Start, EventView::Begin) => (PhaseView::ReadingStatus, ActionView::ReadStatus),
        (PhaseView::ReadingStatus, EventView::Status(s)) => match purge_claim(s, is_force) {
            Claim::Proceed => (PhaseView::LookingUp, ActionView::LookUpArchive),
            c => stop(c),
        },
        (PhaseView::LookingUp, EventView::Archive(Some(path))) => (
            PhaseView::ClaimingPurge(path),
            ActionView::ClaimPurging,
        ),
        (PhaseView::LookingUp, EventView::Archive(None)) => finish(JobOutcomeView::Retry),
        (PhaseView::ClaimingPurge(path), EventView::Done) => (
            PhaseView::Removing,
            ActionView::RemoveArchive(path),
        ),
        (PhaseView::Removing, EventView::Done) => (PhaseView::Forgetting, ActionView::ForgetEntry),
        (PhaseView::Forgetting, EventView::Done) => finish(JobOutcomeView::Success),
        _ => finish(JobOutcomeView::Failed(unexpected())),
    }
}

/// The next step of a job: the phase it enters, and what it asks for.
pub open spec fn next(job: JobView, phase: PhaseView, event: EventView) -> (PhaseView, ActionView) {
    match job {
        JobView::CacheNar { hash, is_force } => cache_next(is_force, phase, event),
        JobView::PurgeNar { hash, is_force } => purge_next(is_force, phase, event),
        JobView::Test => match (phase, event) {
            (PhaseView::Start, EventView::Begin) => finish(JobOutcomeView::Success),
            (_, EventView::Failed(cause)) => finish(JobOutcomeView::Failed(cause)),
            _ => finish(JobOutcomeView::Failed(unexpected())),
        },
    }
}

/// The end of a job that was told of a step that it did not ask for.
fn fail_unexpected() -> (r: (Phase, Action))
    ensures
        (r.0@, r.1@) == finish(JobOutcomeView::Failed(unexpected())),
{
    (Phase::Finished, Action::Finish(JobOutcome::Failed(String::from_str("unexpected event"))))
}

/// The end that a claim other than `Proceed` brings.
fn stop_with(c: Claim) -> (r: (Phase, Action))
    ensures
        (r.0@, r.1@) == stop(c),
{
    match c {
        Claim::Reschedule(s) => (Phase::Finished, Action::Finish(JobOutcome::Reschedule(s))),
        _ => (Phase::Finished, Action::Finish(JobOutcome::Kill)),
    }
}

/// The next step of the fetch of an artifact, `cache_nar`: what the job
/// does in the phase `phase` when it is told `event`.
pub fn cache_nar(is_force: bool, phase: Phase, event: Event) -> (r: (Phase, Action))
    ensures
        (r.0@, r.1@) == cache_next(is_force, phase@, event@),
{
    match (phase, event) {
        (_, Event::Failed(cause)) => (Phase::Finished, Action::Finish(JobOutcome::Failed(cause))),
        (Phase::Start, Event::Begin) => (Phase::ReadingStatus, Action::ReadStatus),
        (Phase::ReadingStatus, Event::Status(s)) => match decide_cache(s, is_force) {
            Claim::Proceed => (Phase::ClaimingFetch, Action::ClaimFetching),
            c => stop_with(c),
        },
        (Phase::ClaimingFetch, Event::Done) => (Phase::Fetching, Action::Fetch),
        (Phase::Fetching, Event::Fetched(Some(f))) => (
            Phase::Installing,
            Action::Install { fetched: f, is_force },
        ),
        (Phase::Fetching, Event::Fetched(None)) => (Phase::Releasing, Action::MarkNotAvailable),
        (Phase::Installing, Event::Done) => (Phase::Finished, Action::Finish(JobOutcome::Success)),
        (Phase::Releasing, Event::Done) => (Phase::Finished, Action::Finish(JobOutcome::Success)),
        _ => fail_unexpected(),
    }
}

/// The next step of the purge of an artifact, `purge_nar`: what the job
/// does in the phase `phase` when it is told `event`.
pub fn purge_nar(is_force: bool, phase: Phase, event: Event) -> (r: (Phase, Action))
    ensures
        (r.0@, r.1@) == purge_next(is_force, phase@, event@),
{
    match (phase, event) {
        (_, Event::Failed(cause)) => (Phase::Finished, Action::Finish(JobOutcome::Failed(cause))),
        (Phase::Start, Event::Begin) => (Phase::ReadingStatus, Action::ReadStatus),
        (Phase::ReadingStatus, Event::Status(s)) => match decide_purge(s, is_force) {
            Claim::Proceed => (Phase::LookingUp, Action::LookUpArchive),
            c => stop_with(c),
        },
        (Phase::LookingUp, Event::Archive(Some(path))) => (
            Phase::ClaimingPurge(path),
            Action::ClaimPurging,
        ),
        (Phase::LookingUp, Event::Archive(None)) => (
            Phase::Finished,
            Action::Finish(JobOutcome::Retry),
        ),
        (Phase::ClaimingPurge(path), Event::Done) => (Phase::Removing, Action::RemoveArchive(path)),
        (Phase::Removing, Event::Done) => (Phase::Forgetting, Action::ForgetEntry),
        (Phase::Forgetting, Event::Done) => (Phase::Finished, Action::Finish(JobOutcome::Success)),
        _ => fail_unexpected(),
    }
}

/// The next step of a job, whatever its kind.
pub fn dispatch_jobs(job: &Job, phase: Phase, event: Event) -> (r: (Phase, Action))
    ensures
        (r.0@, r.1@) == next(job@, phase@, event@),
{
    match job {
        Job::CacheNar { hash, is_force } => cache_nar(*is_force, phase, event),
        Job::PurgeNar { hash, is_force } => purge_nar(*is_force, phase, event),
        Job::Test => match (phase, event) {
            (Phase::Start, Event::Begin) => (
                Phase::Finished,
                Action::Finish(JobOutcome::Success),
            ),
            (_, Event::Failed(cause)) => (
                Phase::Finished,
                Action::Finish(JobOutcome::Failed(cause)),
            ),
            _ => fail_unexpected(),
        },
    }
}

} // verus!
