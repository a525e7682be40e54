//! The cache as the jobs leave it: a model of the index and of the archive
//! directory, the effect of each step of a job on it, and what holds of
//! every run.

use crate::cache::db::Status;
use crate::cache::diff::path_set;
use crate::cache::paths::archive_path;
use crate::jobs::{
    cache_claim, next, purge_claim, ActionView, Claim, EventView, FetchedView, JobOutcomeView,
    JobView, PhaseView,
};
use crate::nix::nar_info::NarInfoView;
use crate::nix::store_path::StorePath;
use vstd::prelude::*;

verus! {

/// What the index holds of a descriptor: the descriptor, and the upstream
/// that gave it. The descriptor is kept here as it was given; the archive
/// that it names is the same when the index gives it back.
pub ghost struct DescriptorRow {
    pub nar_info: NarInfoView,
    pub upstream: Seq<char>,
}

/// The cache: the state of each artifact and the descriptors, both by the
/// digest of the artifact; the paths at which archives lie; and, for each
/// artifact, how often the time of a fetch was stamped.
pub ghost struct Store {
    pub lifecycle: Map<Seq<char>, Status>,
    pub descriptors: Map<Seq<char>, DescriptorRow>,
    pub archives: Set<Seq<char>>,
    pub fetch_stamps: Map<Seq<char>, nat>,
}

/// The digest of the artifact that a job works on.
pub open spec fn digest_of(job: JobView) -> Seq<char> {
    match job {
        JobView::CacheNar { hash, is_force } => hash.string,
        JobView::PurgeNar { hash, is_force } => hash.string,
        JobView::Test => Seq::empty(),
    }
}

/// The state of an artifact, if the index holds one.
pub open spec fn status_of(store: Store, digest: Seq<char>) -> Option<Status> {
    if store.lifecycle.dom().contains(digest) {
        Some(store.lifecycle[digest])
    } else {
        None
    }
}

/// The path of the archive that the descriptor of an artifact names.
pub open spec fn archive_of(store: Store, root: Seq<char>, digest: Seq<char>) -> Seq<char> {
    let d = store.descriptors[digest].nar_info;
    archive_path(root, d.file_hash, d.compression)
}

/// How often the time of a fetch of the artifact was stamped.
pub open spec fn stamps_of(store: Store, digest: Seq<char>) -> nat {
    if store.fetch_stamps.dom().contains(digest) {
        store.fetch_stamps[digest]
    } else {
        0
    }
}

/// The cache with the time of a fetch of one artifact stamped once more.
pub open spec fn with_stamp(store: Store, digest: Seq<char>) -> Store {
    Store {
        fetch_stamps: store.fetch_stamps.insert(digest, stamps_of(store, digest) + 1),
        ..store
    }
}

/// The cache with the state of one artifact set.
pub open spec fn with_status(store: Store, digest: Seq<char>, status: Status) -> Store {
    Store { lifecycle: store.lifecycle.insert(digest, status), ..store }
}

/// The reason with which the index refuses a second descriptor for an
/// artifact where none is to be replaced.
pub open spec fn conflict() -> Seq<char> {
    "descriptor exists"@
}

/// What the outside does when a job asks for a step, where nothing fails
/// but what the index refuses: the cache afterwards, and what the job is
/// told. `root` is the data directory, `gift` what the upstreams give.
pub open spec fn perform(
    store: Store,
    root: Seq<char>,
    digest: Seq<char>,
    gift: Option<FetchedView>,
    action: ActionView,
) -> (Store, EventView) {
    match action {
        ActionView::ReadStatus => (store, EventView::Status(status_of(store, digest))),
        ActionView::ClaimFetching => (
            with_stamp(with_status(store, digest, Status::Fetching), digest),
            EventView::Done,
        ),
        ActionView::Fetch => (store, EventView::Fetched(gift)),
        ActionView::Install { fetched, is_force } => if !is_force
            && store.descriptors.dom().contains(digest) {
            (store, EventView::Failed(conflict()))
        } else {
            (
                Store {
                    lifecycle: store.lifecycle.insert(digest, Status::Available),
                    descriptors: store.descriptors.insert(
                        digest,
                        DescriptorRow { nar_info: fetched.nar_info, upstream: fetched.upstream },
                    ),
                    archives: store.archives.insert(
                        archive_path(
                            root,
                            fetched.nar_info.file_hash,
                            fetched.nar_info.compression,
                        ),
                    ),
                    fetch_stamps: store.fetch_stamps,
                },
                EventView::Done,
            )
        },
        ActionView::MarkNotAvailable => (
            with_status(store, digest, Status::NotAvailable),
            EventView::Done,
        ),
        ActionView::LookUpArchive => (
            store,
            EventView::Archive(
                if store.descriptors.dom().contains(digest) {
                    Some(archive_of(store, root, digest))
                } else {
                    None
                },
            ),
        ),
        ActionView::ClaimPurging => (with_status(store, digest, Status::Purging), EventView::Done),
        ActionView::RemoveArchive(path) => (
            Store { archives: store.archives.remove(path), ..store },
            EventView::Done,
        ),
        ActionView::ForgetEntry => (
            Store { lifecycle: store.lifecycle.remove(digest), ..store },
            EventView::Done,
        ),
        ActionView::Finish(o) => (store, EventView::Done),
    }
}

/// The reason with which a run that takes more steps than any job has is
/// cut off.
pub open spec fn out_of_steps() -> Seq<char> {
    "too many steps"@
}

/// The run of a job from the phase `phase` and the event `event` on, alone
/// on the cache: the cache as the job leaves it, and how the job ends.
pub open spec fn run_from(
    job: JobView,
    root: Seq<char>,
    gift: Option<FetchedView>,
    store: Store,
    phase: PhaseView,
    event: EventView,
    steps: nat,
) -> (Store, JobOutcomeView)
    decreases steps,
{
    let (then, action) = next(job, phase, event);
    match action {
        ActionView::Finish(o) => (store, o),
        _ => if steps == 0 {
            (store, JobOutcomeView::Failed(out_of_steps()))
        } else {
            let (after, told) = perform(store, root, digest_of(job), gift, action);
            run_from(job, root, gift, after, then, told, (steps - 1) as nat)
        },
    }
}

/// The run of a job, alone on the cache, from its beginning.
pub open spec fn run(job: JobView, root: Seq<char>, gift: Option<FetchedView>, store: Store) -> (
    Store,
    JobOutcomeView,
) {
    run_from(job, root, gift, store, PhaseView::Start, EventView::Begin, 8)
}

/// What a purge does, alone on the cache. It changes nothing where it does
/// not take the artifact, or where the index holds no descriptor of it.
/// Else the archive that the descriptor names and the state of the
/// artifact are gone, and the descriptor stays.
pub open spec fn purged(store: Store, root: Seq<char>, digest: Seq<char>, is_force: bool) -> (
    Store,
    JobOutcomeView,
) {
    match purge_claim(status_of(store, digest), is_force) {
        Claim::Kill => (store, JobOutcomeView::Kill),
        Claim::Reschedule(s) => (store, JobOutcomeView::Reschedule(s)),
        Claim::Proceed => if !store.descriptors.dom().contains(digest) {
            (store, JobOutcomeView::Retry)
        } else {
            (
                Store {
                    lifecycle: store.lifecycle.remove(digest),
                    descriptors: store.descriptors,
                    archives: store.archives.remove(archive_of(store, root, digest)),
                    fetch_stamps: store.fetch_stamps,
                },
                JobOutcomeView::Success,
            )
        },
    }
}

/// What a fetch does, alone on the cache. It changes nothing where it does
/// not take the artifact. Where it takes it, the time of the fetch is
/// stamped, whatever follows. Where the upstreams give nothing, the
/// artifact is not available and the descriptors are as before. Where the
/// index refuses the descriptor, the artifact is left as being fetched.
/// Else descriptor and archive are here and the artifact is available.
pub open spec fn cached(
    store: Store,
    root: Seq<char>,
    digest: Seq<char>,
    is_force: bool,
    gift: Option<FetchedView>,
) -> (Store, JobOutcomeView) {
    match cache_claim(status_of(store, digest), is_force) {
        Claim::Kill => (store, JobOutcomeView::Kill),
        Claim::Reschedule(s) => (store, JobOutcomeView::Reschedule(s)),
        Claim::Proceed => {
            let stamped = with_stamp(store, digest);
            match gift {
                None => (
                    with_status(stamped, digest, Status::NotAvailable),
                    JobOutcomeView::Success,
                ),
                Some(f) => if !is_force && store.descriptors.dom().contains(digest) {
                    (
                        with_status(stamped, digest, Status::Fetching),
                        JobOutcomeView::Failed(conflict()),
                    )
                } else {
                    (
                        Store {
                            lifecycle: store.lifecycle.insert(digest, Status::Available),
                            descriptors: store.descriptors.insert(
                                digest,
                                DescriptorRow { nar_info: f.nar_info, upstream: f.upstream },
                            ),
                            archives: store.archives.insert(
                                archive_path(root, f.nar_info.file_hash, f.nar_info.compression),
                            ),
                            fetch_stamps: stamped.fetch_stamps,
                        },
                        JobOutcomeView::Success,
                    )
                },
            }
        },
    }
}

/// The run of a purge, step by step, comes to what `purged` says.
pub proof fn lemma_purge_run(
    hash: crate::nix::hash::HashView,
    is_force: bool,
    root: Seq<char>,
    gift: Option<FetchedView>,
    store: Store,
)
    ensures
        run(JobView::PurgeNar { hash, is_force }, root, gift, store) == purged(
            store,
            root,
            hash.string,
            is_force,
        ),
{
    reveal_with_fuel(run_from, 9);
    let job = JobView::PurgeNar { hash, is_force };
    let digest = hash.string;
    let r = run(job, root, gift, store);
    let p = purged(store, root, digest, is_force);
    if purge_claim(status_of(store, digest), is_force) == Claim::Proceed
        && store.descriptors.dom().contains(digest) {
        let s1 = with_status(store, digest, Status::Purging);
        assert(s1.lifecycle.remove(digest) =~= store.lifecycle.remove(digest));
        assert(r.0.lifecycle =~= p.0.lifecycle);
        assert(r.0.archives =~= p.0.archives);
    }
}

/// The run of a fetch, step by step, comes to what `cached` says.
pub proof fn lemma_cache_run(
    hash: crate::nix::hash::HashView,
    is_force: bool,
    root: Seq<char>,
    gift: Option<FetchedView>,
    store: Store,
)
    ensures
        run(JobView::CacheNar { hash, is_force }, root, gift, store) == cached(
            store,
            root,
            hash.string,
            is_force,
            gift,
        ),
{
    reveal_with_fuel(run_from, 9);
    let job = JobView::CacheNar { hash, is_force };
    let digest = hash.string;
    let r = run(job, root, gift, store);
    let c = cached(store, root, digest, is_force, gift);
    if cache_claim(status_of(store, digest), is_force) == Claim::Proceed {
        let s1 = with_status(store, digest, Status::Fetching);
        assert(s1.lifecycle.insert(digest, Status::NotAvailable) =~= store.lifecycle.insert(
            digest,
            Status::NotAvailable,
        ));
        assert(s1.lifecycle.insert(digest, Status::Available) =~= store.lifecycle.insert(
            digest,
            Status::Available,
        ));
        assert(r.0.lifecycle =~= c.0.lifecycle);
    }
}

/// The time of a fetch is stamped when the fetch takes the artifact, be it
/// that the upstreams give the artifact or that they fail; a fetch that
/// does not take the artifact stamps nothing.
pub proof fn lemma_fetch_is_stamped(
    hash: crate::nix::hash::HashView,
    is_force: bool,
    root: Seq<char>,
    gift: Option<FetchedView>,
    store: Store,
)
    ensures
        ({
            let after = run(JobView::CacheNar { hash, is_force }, root, gift, store).0;
            stamps_of(after, hash.string) == stamps_of(store, hash.string) + (if cache_claim(
                status_of(store, hash.string),
                is_force,
            ) == Claim::Proceed {
                1int
            } else {
                0int
            })
        }),
{
    lemma_cache_run(hash, is_force, root, gift, store);
}

/// A forced purge run twice in a row leaves the cache as one run does.
pub proof fn lemma_purge_is_idempotent(
    hash: crate::nix::hash::HashView,
    root: Seq<char>,
    gift: Option<FetchedView>,
    store: Store,
)
    ensures
        ({
            let job = JobView::PurgeNar { hash, is_force: true };
            let once = run(job, root, gift, store).0;
            run(job, root, gift, once).0 == once
        }),
{
    let job = JobView::PurgeNar { hash, is_force: true };
    let once = run(job, root, gift, store).0;
    lemma_purge_run(hash, true, root, gift, store);
    lemma_purge_run(hash, true, root, gift, once);
}

/// A forced fetch of an artifact that is available either replaces the
/// descriptor by the one that the upstreams give, with its archive, and
/// leaves the artifact available; or, where all upstreams fail, leaves
/// every descriptor as it was and the artifact not available. The
/// descriptor is never anything between the old and the new.
pub proof fn lemma_forced_refresh(
    hash: crate::nix::hash::HashView,
    root: Seq<char>,
    gift: Option<FetchedView>,
    store: Store,
)
    requires
        status_of(store, hash.string) == Some(Status::Available),
    ensures
        ({
            let (after, outcome) = run(
                JobView::CacheNar { hash, is_force: true },
                root,
                gift,
                store,
            );
            &&& outcome == JobOutcomeView::Success
            &&& stamps_of(after, hash.string) == stamps_of(store, hash.string) + 1
            &&& forall|d: Seq<char>|
                d != hash.string ==> after.descriptors.dom().contains(d)
                    == store.descriptors.dom().contains(d) && after.descriptors[d]
                    == store.descriptors[d]
            &&& match gift {
                Some(f) => {
                    &&& status_of(after, hash.string) == Some(Status::Available)
                    &&& after.descriptors.dom().contains(hash.string)
                    &&& after.descriptors[hash.string] == DescriptorRow {
                        nar_info: f.nar_info,
                        upstream: f.upstream,
                    }
                    &&& after.archives.contains(archive_of(after, root, hash.string))
                },
                None => {
                    &&& status_of(after, hash.string) == Some(Status::NotAvailable)
                    &&& after.descriptors == store.descriptors
                    &&& after.archives == store.archives
                },
            }
        }),
{
    lemma_cache_run(hash, true, root, gift, store);
}

/// A worker with its job: how far it has come, and the step that it has
/// asked for and that is yet to be taken.
pub ghost struct Worker {
    pub job: JobView,
    pub phase: PhaseView,
    pub pending: ActionView,
}

/// The cache and the workers on it.
pub ghost struct System {
    pub store: Store,
    pub workers: Seq<Worker>,
}

/// A worker that has just begun a job.
pub open spec fn spawn(job: JobView) -> Worker {
    let (phase, pending) = next(job, PhaseView::Start, EventView::Begin);
    Worker { job, phase, pending }
}

/// The phases in which a job holds a transaction open: what it does in
/// them is one with the step that opened the transaction.
pub open spec fn in_transaction(phase: PhaseView) -> bool {
    phase is ClaimingFetch || phase is LookingUp || phase is ClaimingPurge
}

/// The reason with which a step fails when the index or the disk does.
pub open spec fn broken() -> Seq<char> {
    "storage failed"@
}

/// One move of a worker: the step that it asked for is taken, and, while
/// the job holds its transaction open, the steps that follow. `sound`
/// tells how many steps are taken before one fails.
pub open spec fn advance(
    job: JobView,
    root: Seq<char>,
    gift: Option<FetchedView>,
    store: Store,
    phase: PhaseView,
    pending: ActionView,
    sound: nat,
    steps: nat,
) -> (Store, PhaseView, ActionView)
    decreases steps,
{
    if pending is Finish {
        (store, phase, pending)
    } else {
        let (after, told) = if sound == 0 {
            (store, EventView::Failed(broken()))
        } else {
            perform(store, root, digest_of(job), gift, pending)
        };
        let (then, asked) = next(job, phase, told);
        if in_transaction(then) && steps > 0 && sound > 0 {
            advance(job, root, gift, after, then, asked, (sound - 1) as nat, (steps - 1) as nat)
        } else {
            (after, then, asked)
        }
    }
}

/// The system after the worker `i` has made one move.
pub open spec fn system_step(
    sys: System,
    i: int,
    root: Seq<char>,
    gift: Option<FetchedView>,
    sound: nat,
) -> System {
    let w = sys.workers[i];
    let (store, phase, pending) = advance(w.job, root, gift, sys.store, w.phase, w.pending, sound, 3);
    System { store, workers: sys.workers.update(i, Worker { job: w.job, phase, pending }) }
}

/// The system with one more worker, which has just begun the job `job`.
pub open spec fn with_worker(sys: System, job: JobView) -> System {
    System { store: sys.store, workers: sys.workers.push(spawn(job)) }
}

/// Whether the worker has taken its artifact and not yet let go of it.
pub open spec fn owns(w: Worker) -> bool {
    w.phase is Fetching || w.phase is Installing || w.phase is Releasing || w.phase is Removing
        || w.phase is Forgetting
}

/// The state in which an artifact is while a worker with this job has it.
pub open spec fn held_status(job: JobView) -> Status {
    if job is CacheNar {
        Status::Fetching
    } else {
        Status::Purging
    }
}

/// Between its moves a worker is in a phase of its job, and has asked for
/// the step of that phase.
pub open spec fn worker_is_sound(w: Worker) -> bool {
    match w.phase {
        PhaseView::ReadingStatus => w.pending is ReadStatus && !(w.job is Test),
        PhaseView::Fetching => w.pending is Fetch && w.job is CacheNar,
        PhaseView::Installing => w.pending is Install && w.job is CacheNar,
        PhaseView::Releasing => w.pending is MarkNotAvailable && w.job is CacheNar,
        PhaseView::Removing => w.pending is RemoveArchive && w.job is PurgeNar,
        PhaseView::Forgetting => w.pending is ForgetEntry && w.job is PurgeNar,
        PhaseView::Finished => w.pending is Finish,
        _ => false,
    }
}

/// No artifact is in the hands of two workers: a worker that has taken an
/// artifact finds it in the state that it has set, `Fetching` or
/// `Purging`, and no other worker has taken the same artifact.
pub open spec fn one_owner(sys: System) -> bool {
    &&& forall|i: int| 0 <= i < sys.workers.len() ==> worker_is_sound(#[trigger] sys.workers[i])
    &&& forall|i: int|
        0 <= i < sys.workers.len() && owns(#[trigger] sys.workers[i]) ==> status_of(
            sys.store,
            digest_of(sys.workers[i].job),
        ) == Some(held_status(sys.workers[i].job))
    &&& forall|i: int, j: int|
        0 <= i < sys.workers.len() && 0 <= j < sys.workers.len() && i != j && owns(
            #[trigger] sys.workers[i],
        ) && owns(#[trigger] sys.workers[j]) ==> digest_of(sys.workers[i].job) != digest_of(
            sys.workers[j].job,
        )
}

/// A cache without workers has no artifact in two hands.
pub proof fn lemma_one_owner_at_first(store: Store)
    ensures
        one_owner(System { store, workers: Seq::empty() }),
{
}

/// A worker that begins a job has taken nothing yet.
pub proof fn lemma_one_owner_with_worker(sys: System, job: JobView)
    requires
        one_owner(sys),
    ensures
        one_owner(with_worker(sys, job)),
{
    let after = with_worker(sys, job);
    let n = sys.workers.len() as int;
    assert(!owns(spawn(job)));
    assert(worker_is_sound(spawn(job)));
    assert forall|i: int| 0 <= i < after.workers.len() implies worker_is_sound(
        #[trigger] after.workers[i],
    ) by {
        if i < n {
            assert(after.workers[i] == sys.workers[i]);
        }
    }
    assert forall|i: int| 0 <= i < after.workers.len() && owns(#[trigger] after.workers[i])
        implies status_of(after.store, digest_of(after.workers[i].job)) == Some(
        held_status(after.workers[i].job),
    ) by {
        assert(after.workers[i] == sys.workers[i]);
    }
    assert forall|i: int, j: int|
        0 <= i < after.workers.len() && 0 <= j < after.workers.len() && i != j && owns(
            #[trigger] after.workers[i],
        ) && owns(#[trigger] after.workers[j]) implies digest_of(after.workers[i].job)
        != digest_of(after.workers[j].job) by {
        assert(after.workers[i] == sys.workers[i]);
        assert(after.workers[j] == sys.workers[j]);
    }
}

/// What one move of a worker does: the worker stays in a phase of its job;
/// it changes the state of no artifact but its own; where it has its
/// artifact afterwards, the artifact is in the state that it has set; and
/// it takes an artifact only where the artifact was in no worker's state.
pub proof fn lemma_advance(
    w: Worker,
    root: Seq<char>,
    gift: Option<FetchedView>,
    store: Store,
    sound: nat,
)
    requires
        worker_is_sound(w),
        owns(w) ==> status_of(store, digest_of(w.job)) == Some(held_status(w.job)),
    ensures
        ({
            let (after, phase, pending) = advance(
                w.job,
                root,
                gift,
                store,
                w.phase,
                w.pending,
                sound,
                3,
            );
            let v = Worker { job: w.job, phase, pending };
            &&& worker_is_sound(v)
            &&& forall|d: Seq<char>|
                d != digest_of(w.job) ==> status_of(after, d) == status_of(store, d)
            &&& owns(v) ==> status_of(after, digest_of(w.job)) == Some(held_status(w.job))
            &&& owns(v) && !owns(w) ==> status_of(store, digest_of(w.job)) != Some(
                Status::Fetching,
            ) && status_of(store, digest_of(w.job)) != Some(Status::Purging)
        }),
{
    reveal_with_fuel(advance, 4);
}

/// The changes of state that the life of an artifact allows: from unknown,
/// not available or available to being fetched; from being fetched to
/// available or not available; from available or not available to being
/// purged; from being purged to unknown. No change is one of them.
pub open spec fn is_legal(before: Option<Status>, after: Option<Status>) -> bool {
    ||| before == after
    ||| after == Some(Status::Fetching) && (before.is_none() || before == Some(
        Status::NotAvailable,
    ) || before == Some(Status::Available))
    ||| before == Some(Status::Fetching) && (after == Some(Status::Available) || after == Some(
        Status::NotAvailable,
    ))
    ||| after == Some(Status::Purging) && (before == Some(Status::Available) || before == Some(
        Status::NotAvailable,
    ))
    ||| before == Some(Status::Purging) && after.is_none()
}

/// Whatever move a worker makes, the state of every artifact changes as
/// the life of an artifact allows, or not at all.
pub proof fn lemma_transitions_are_legal(
    sys: System,
    i: int,
    root: Seq<char>,
    gift: Option<FetchedView>,
    sound: nat,
)
    requires
        one_owner(sys),
        0 <= i < sys.workers.len(),
    ensures
        forall|d: Seq<char>|
            is_legal(
                #[trigger] status_of(sys.store, d),
                status_of(system_step(sys, i, root, gift, sound).store, d),
            ),
{
    reveal_with_fuel(advance, 4);
    let w = sys.workers[i];
    assert(worker_is_sound(w));
    if owns(w) {
        assert(status_of(sys.store, digest_of(w.job)) == Some(held_status(w.job)));
    }
    lemma_advance(w, root, gift, sys.store, sound);
}

/// Whatever move a worker makes, no artifact comes into two hands.
pub proof fn lemma_one_owner_step(
    sys: System,
    i: int,
    root: Seq<char>,
    gift: Option<FetchedView>,
    sound: nat,
)
    requires
        one_owner(sys),
        0 <= i < sys.workers.len(),
    ensures
        one_owner(system_step(sys, i, root, gift, sound)),
{
    let w = sys.workers[i];
    let after = system_step(sys, i, root, gift, sound);
    let v = after.workers[i];
    lemma_advance(w, root, gift, sys.store, sound);
    assert forall|k: int| 0 <= k < after.workers.len() implies worker_is_sound(
        #[trigger] after.workers[k],
    ) by {
        if k != i {
            assert(after.workers[k] == sys.workers[k]);
        }
    }
    assert forall|a: int, b: int|
        0 <= a < after.workers.len() && 0 <= b < after.workers.len() && a != b && owns(
            #[trigger] after.workers[a],
        ) && owns(#[trigger] after.workers[b]) implies digest_of(after.workers[a].job)
        != digest_of(after.workers[b].job) by {
        if a != i && b != i {
            assert(after.workers[a] == sys.workers[a]);
            assert(after.workers[b] == sys.workers[b]);
        } else {
            let o = if a == i { b } else { a };
            assert(after.workers[o] == sys.workers[o]);
            assert(owns(sys.workers[o]));
            assert(status_of(sys.store, digest_of(sys.workers[o].job)) == Some(
                held_status(sys.workers[o].job),
            ));
            if owns(w) {
                assert(digest_of(w.job) != digest_of(sys.workers[o].job));
            }
        }
    }
    assert forall|k: int| 0 <= k < after.workers.len() && owns(#[trigger] after.workers[k])
        implies status_of(after.store, digest_of(after.workers[k].job)) == Some(
        held_status(after.workers[k].job),
    ) by {
        if k != i {
            assert(after.workers[k] == sys.workers[k]);
            assert(owns(sys.workers[k]));
            if digest_of(sys.workers[k].job) == digest_of(w.job) {
                // The two work on one artifact, which the other holds: the
                // mover did not hold it, and cannot have taken it.
                assert(!owns(w));
                assert(!owns(v));
                assert(status_of(after.store, digest_of(w.job)) == status_of(
                    sys.store,
                    digest_of(w.job),
                )) by {
                    lemma_advance_leaves_held(w, root, gift, sys.store, sound);
                }
            }
        }
    }
}

/// A worker that finds its artifact in another worker's state, and has not
/// taken it, leaves the state of the artifact as it is.
pub proof fn lemma_advance_leaves_held(
    w: Worker,
    root: Seq<char>,
    gift: Option<FetchedView>,
    store: Store,
    sound: nat,
)
    requires
        worker_is_sound(w),
        !owns(w),
        status_of(store, digest_of(w.job)) == Some(Status::Fetching) || status_of(
            store,
            digest_of(w.job),
        ) == Some(Status::Purging),
    ensures
        advance(w.job, root, gift, store, w.phase, w.pending, sound, 3).0 == store,
{
    reveal_with_fuel(advance, 4);
}

/// Every artifact that is available has its descriptor in the index and
/// its archive on disk.
pub open spec fn available_is_present(store: Store, root: Seq<char>) -> bool {
    forall|d: Seq<char>|
        #[trigger] status_of(store, d) == Some(Status::Available)
            ==> store.descriptors.dom().contains(d) && store.archives.contains(
            archive_of(store, root, d),
        )
}

/// A move of a worker leaves every available artifact with its descriptor
/// and its archive. One kind of move is left out: the removal of an
/// archive that another artifact, which is available, shares.
pub proof fn lemma_available_is_present_step(
    sys: System,
    i: int,
    root: Seq<char>,
    gift: Option<FetchedView>,
    sound: nat,
)
    requires
        one_owner(sys),
        0 <= i < sys.workers.len(),
        available_is_present(sys.store, root),
        sys.workers[i].pending matches ActionView::RemoveArchive(path) ==> forall|d: Seq<char>|
            d != digest_of(sys.workers[i].job) && #[trigger] status_of(sys.store, d) == Some(
                Status::Available,
            ) ==> archive_of(sys.store, root, d) != path,
    ensures
        available_is_present(system_step(sys, i, root, gift, sound).store, root),
{
    reveal_with_fuel(advance, 4);
    let w = sys.workers[i];
    let after = system_step(sys, i, root, gift, sound).store;
    assert(worker_is_sound(w));
    assert forall|d: Seq<char>| #[trigger]
        status_of(after, d) == Some(Status::Available) implies after.descriptors.dom().contains(d)
        && after.archives.contains(archive_of(after, root, d)) by {
        if d != digest_of(w.job) {
            assert(status_of(sys.store, d) == Some(Status::Available));
            assert(sys.store.archives.contains(archive_of(sys.store, root, d)));
        } else {
            if owns(w) {
                assert(status_of(sys.store, d) == Some(held_status(w.job)));
            }
            if status_of(sys.store, d) == Some(Status::Available) {
                assert(sys.store.archives.contains(archive_of(sys.store, root, d)));
            }
        }
    }
    assert(available_is_present(after, root));
}

/// The store paths that the cache holds: those of the descriptors of the
/// artifacts that are available.
pub open spec fn cached_store_paths(store: Store) -> Set<Seq<char>> {
    Set::new(
        |p: Seq<char>|
            exists|d: Seq<char>|
                #[trigger] status_of(store, d) == Some(Status::Available)
                    && store.descriptors.dom().contains(d)
                    && store.descriptors[d].nar_info.store_path.path() == p,
    )
}

/// What is reported as missing is what the channels list less what the
/// cache holds: a store path is in `diff` if and only if a channel lists
/// it and no artifact that is available has it. `cached` is the list that
/// the index gives of what the cache holds, and `diff` what
/// `missing_from_channel_upstreams` makes of it and of `upstream`.
pub proof fn lemma_diff_is_upstream_less_available(
    store: Store,
    cached: Seq<StorePath>,
    upstream: Seq<StorePath>,
    diff: Seq<StorePath>,
)
    requires
        path_set(cached) == cached_store_paths(store),
        path_set(diff) == path_set(upstream).difference(path_set(cached)),
    ensures
        path_set(diff) == path_set(upstream).difference(cached_store_paths(store)),
        forall|p: Seq<char>|
            path_set(diff).contains(p) <==> path_set(upstream).contains(p) && !exists|
                d: Seq<char>,
            |
                #[trigger] status_of(store, d) == Some(Status::Available)
                    && store.descriptors.dom().contains(d)
                    && store.descriptors[d].nar_info.store_path.path() == p,
{
    assert forall|p: Seq<char>|
        path_set(diff).contains(p) <==> path_set(upstream).contains(p) && !exists|d: Seq<char>|
            #[trigger] status_of(store, d) == Some(Status::Available)
                && store.descriptors.dom().contains(d)
                && store.descriptors[d].nar_info.store_path.path() == p by {
        assert(path_set(cached).contains(p) == cached_store_paths(store).contains(p));
    }
}

/// Whether an artifact that is available has the archive with this hash
/// and this compression.
pub open spec fn is_archive_cached(
    store: Store,
    file_hash: Seq<char>,
    compression: crate::nix::compression::CompressionType,
) -> bool {
    exists|d: Seq<char>|
        #[trigger] status_of(store, d) == Some(Status::Available)
            && store.descriptors.dom().contains(d)
            && store.descriptors[d].nar_info.file_hash.string == file_hash
            && store.descriptors[d].nar_info.compression == compression
}

/// An archive that an available artifact has lies on disk, at the path
/// that its hash and its compression give: what is served on a request for
/// an archive is there.
pub proof fn lemma_cached_archive_is_on_disk(
    store: Store,
    root: Seq<char>,
    file_hash: crate::nix::hash::HashView,
    compression: crate::nix::compression::CompressionType,
)
    requires
        available_is_present(store, root),
        is_archive_cached(store, file_hash.string, compression),
    ensures
        store.archives.contains(archive_path(root, file_hash, compression)),
{
    let d = choose|d: Seq<char>|
        #[trigger] status_of(store, d) == Some(Status::Available)
            && store.descriptors.dom().contains(d)
            && store.descriptors[d].nar_info.file_hash.string == file_hash.string
            && store.descriptors[d].nar_info.compression == compression;
    assert(store.archives.contains(archive_of(store, root, d)));
}

/// The system after the workers have moved in the order `order`, one move
/// for each entry; an entry that names no worker moves nothing.
pub open spec fn run_schedule(
    sys: System,
    order: Seq<int>,
    root: Seq<char>,
    gift: Option<FetchedView>,
    sound: nat,
) -> System
    decreases order.len(),
{
    if order.len() == 0 {
        sys
    } else {
        let i = order[0];
        let next = if 0 <= i < sys.workers.len() {
            system_step(sys, i, root, gift, sound)
        } else {
            sys
        };
        run_schedule(next, order.drop_first(), root, gift, sound)
    }
}

/// A cache with `n` workers that have each just begun a fetch, not forced,
/// of the artifact `hash`.
pub open spec fn fetchers(store: Store, n: nat, hash: crate::nix::hash::HashView) -> System {
    System {
        store,
        workers: Seq::new(n, |i: int| spawn(JobView::CacheNar { hash, is_force: false })),
    }
}

/// The worker has yet to read the state of its artifact.
pub open spec fn is_waiting(w: Worker) -> bool {
    w.phase is ReadingStatus && w.pending is ReadStatus
}

/// The worker has taken the artifact: it asks the upstreams, installs what
/// they gave, or has ended with success.
pub open spec fn has_won(w: Worker) -> bool {
    w.phase is Fetching || w.phase is Installing || (w.phase is Finished && w.pending
        == ActionView::Finish(JobOutcomeView::Success))
}

/// The worker was killed.
pub open spec fn has_lost(w: Worker) -> bool {
    w.phase is Finished && w.pending == ActionView::Finish(JobOutcomeView::Kill)
}

/// Fetches of one artifact that run side by side collapse into one. Every
/// worker waits, has taken the artifact or was killed, and at most one has
/// taken it. Before that one there is no state and no descriptor; with it
/// the artifact is being fetched, and from the end of its work on it is
/// available: it is never not available.
pub open spec fn collapsed(sys: System, hash: crate::nix::hash::HashView, given: FetchedView) -> bool {
    let h = hash.string;
    &&& forall|i: int|
        0 <= i < sys.workers.len() ==> (#[trigger] sys.workers[i]).job == (JobView::CacheNar {
            hash,
            is_force: false,
        }) && (is_waiting(sys.workers[i]) || has_won(sys.workers[i]) || has_lost(sys.workers[i]))
    &&& forall|i: int, j: int|
        0 <= i < sys.workers.len() && 0 <= j < sys.workers.len() && i != j ==> !(has_won(
            #[trigger] sys.workers[i],
        ) && has_won(#[trigger] sys.workers[j]))
    &&& (forall|i: int| 0 <= i < sys.workers.len() ==> !has_won(#[trigger] sys.workers[i]))
        ==> status_of(sys.store, h).is_none() && !sys.store.descriptors.dom().contains(h)
        && forall|i: int| 0 <= i < sys.workers.len() ==> is_waiting(#[trigger] sys.workers[i])
    &&& forall|i: int|
        0 <= i < sys.workers.len() && has_won(#[trigger] sys.workers[i]) ==> match sys.workers[i].phase {
            PhaseView::Fetching => status_of(sys.store, h) == Some(Status::Fetching)
                && !sys.store.descriptors.dom().contains(h) && sys.workers[i].pending is Fetch,
            PhaseView::Installing => status_of(sys.store, h) == Some(Status::Fetching)
                && !sys.store.descriptors.dom().contains(h) && sys.workers[i].pending
                == (ActionView::Install { fetched: given, is_force: false }),
            _ => status_of(sys.store, h) == Some(Status::Available),
        }
}

/// A move of one of the workers keeps the fetches collapsed, where the
/// upstreams give the artifact and nothing fails.
pub proof fn lemma_collapsed_step(
    sys: System,
    i: int,
    hash: crate::nix::hash::HashView,
    given: FetchedView,
    root: Seq<char>,
    sound: nat,
)
    requires
        collapsed(sys, hash, given),
        0 <= i < sys.workers.len(),
        sound >= 3,
    ensures
        collapsed(system_step(sys, i, root, Some(given), sound), hash, given),
{
    reveal_with_fuel(advance, 4);
    let h = hash.string;
    let w = sys.workers[i];
    let after = system_step(sys, i, root, Some(given), sound);
    let v = after.workers[i];
    assert(w.job == JobView::CacheNar { hash, is_force: false });
    assert(digest_of(w.job) == h);
    assert forall|k: int| 0 <= k < after.workers.len() && k != i implies after.workers[k]
        == sys.workers[k] by {}
    if is_waiting(w) {
        if forall|k: int| 0 <= k < sys.workers.len() ==> !has_won(#[trigger] sys.workers[k]) {
            // Nobody has the artifact: the mover takes it.
            assert(status_of(sys.store, h).is_none());
            assert(v.phase is Fetching);
            assert(has_won(v));
            assert forall|k: int| 0 <= k < after.workers.len() && k != i implies is_waiting(
                #[trigger] after.workers[k],
            ) by {
                assert(is_waiting(sys.workers[k]));
            }
        } else {
            // Another has it: the mover is killed.
            let o = choose|k: int| 0 <= k < sys.workers.len() && has_won(#[trigger] sys.workers[k]);
            assert(has_won(sys.workers[o]));
            assert(o != i);
            assert(status_of(sys.store, h) == Some(Status::Fetching) || status_of(sys.store, h)
                == Some(Status::Available));
            assert(has_lost(v));
            assert(after.store == sys.store);
            assert(after.workers[o] == sys.workers[o]);
        }
    } else if has_won(w) {
        assert forall|k: int| 0 <= k < sys.workers.len() && k != i implies !has_won(
            #[trigger] sys.workers[k],
        ) by {}
        assert(has_won(v));
    } else {
        assert(has_lost(w));
        assert(v == w);
        assert(after.store == sys.store);
        assert(after.workers =~= sys.workers);
    }
    assert forall|k: int| 0 <= k < after.workers.len() implies (#[trigger] after.workers[k]).job
        == (JobView::CacheNar { hash, is_force: false }) && (is_waiting(after.workers[k])
        || has_won(after.workers[k]) || has_lost(after.workers[k])) by {
        if k != i {
            assert(after.workers[k] == sys.workers[k]);
        }
    }
    assert forall|a: int, b: int|
        0 <= a < after.workers.len() && 0 <= b < after.workers.len() && a != b implies !(has_won(
        #[trigger] after.workers[a],
    ) && has_won(#[trigger] after.workers[b])) by {
        if a != i {
            assert(after.workers[a] == sys.workers[a]);
        }
        if b != i {
            assert(after.workers[b] == sys.workers[b]);
        }
    }
    assert forall|k: int| 0 <= k < after.workers.len() && has_won(
        #[trigger] after.workers[k],
    ) implies match after.workers[k].phase {
        PhaseView::Fetching => status_of(after.store, h) == Some(Status::Fetching)
            && !after.store.descriptors.dom().contains(h) && after.workers[k].pending is Fetch,
        PhaseView::Installing => status_of(after.store, h) == Some(Status::Fetching)
            && !after.store.descriptors.dom().contains(h) && after.workers[k].pending
            == (ActionView::Install { fetched: given, is_force: false }),
        _ => status_of(after.store, h) == Some(Status::Available),
    } by {
        if k != i {
            assert(after.workers[k] == sys.workers[k]);
            assert(has_won(sys.workers[k]));
        }
    }
    if forall|k: int| 0 <= k < after.workers.len() ==> !has_won(#[trigger] after.workers[k]) {
        assert(!has_won(v));
        assert forall|k: int| 0 <= k < sys.workers.len() implies !has_won(
            #[trigger] sys.workers[k],
        ) by {
            if k != i {
                assert(after.workers[k] == sys.workers[k]);
            }
        }
    }
}

/// Whatever the order in which the workers move, the fetches stay
/// collapsed.
pub proof fn lemma_collapsed_schedule(
    sys: System,
    order: Seq<int>,
    hash: crate::nix::hash::HashView,
    given: FetchedView,
    root: Seq<char>,
    sound: nat,
)
    requires
        collapsed(sys, hash, given),
        sound >= 3,
    ensures
        collapsed(run_schedule(sys, order, root, Some(given), sound), hash, given),
        run_schedule(sys, order, root, Some(given), sound).workers.len() == sys.workers.len(),
    decreases order.len(),
{
    if order.len() > 0 {
        let i = order[0];
        if 0 <= i < sys.workers.len() {
            lemma_collapsed_step(sys, i, hash, given, root, sound);
            lemma_collapsed_schedule(
                system_step(sys, i, root, Some(given), sound),
                order.drop_first(),
                hash,
                given,
                root,
                sound,
            );
        } else {
            lemma_collapsed_schedule(sys, order.drop_first(), hash, given, root, sound);
        }
    }
}

/// Any number of fetches, not forced, of one artifact that is unknown and
/// has no descriptor, run side by side in any order of their moves, with
/// upstreams that give the artifact: at every moment at most one worker
/// has taken the artifact, and the artifact, once taken, is being fetched
/// or available. When all have ended, exactly one has ended with success,
/// all the others were killed, and the artifact is available.
pub proof fn lemma_concurrent_fetches_collapse(
    store: Store,
    n: nat,
    hash: crate::nix::hash::HashView,
    given: FetchedView,
    root: Seq<char>,
    order: Seq<int>,
    sound: nat,
)
    requires
        status_of(store, hash.string).is_none(),
        !store.descriptors.dom().contains(hash.string),
        sound >= 3,
    ensures
        ({
            let end = run_schedule(fetchers(store, n, hash), order, root, Some(given), sound);
            &&& end.workers.len() == n
            &&& collapsed(end, hash, given)
            &&& (n > 0 && forall|i: int| 0 <= i < n ==> (#[trigger] end.workers[i]).phase is Finished)
                ==> status_of(end.store, hash.string) == Some(Status::Available) && exists|k: int|
                0 <= k < n && (#[trigger] end.workers[k]).pending == ActionView::Finish(
                    JobOutcomeView::Success,
                ) && forall|i: int|
                    0 <= i < n && i != k ==> (#[trigger] end.workers[i]).pending
                        == ActionView::Finish(JobOutcomeView::Kill)
        }),
{
    let start = fetchers(store, n, hash);
    assert(collapsed(start, hash, given)) by {
        assert forall|i: int| 0 <= i < start.workers.len() implies is_waiting(
            #[trigger] start.workers[i],
        ) && !has_won(start.workers[i]) by {}
    }
    lemma_collapsed_schedule(start, order, hash, given, root, sound);
    let end = run_schedule(start, order, root, Some(given), sound);
    if n > 0 && forall|i: int| 0 <= i < n ==> (#[trigger] end.workers[i]).phase is Finished {
        assert(end.workers[0].phase is Finished);
        assert(!is_waiting(end.workers[0]));
        assert(exists|k: int| 0 <= k < end.workers.len() && has_won(#[trigger] end.workers[k]));
        let k = choose|k: int| 0 <= k < end.workers.len() && has_won(#[trigger] end.workers[k]);
        assert(end.workers[k].phase is Finished);
        assert forall|i: int| 0 <= i < n && i != k implies (#[trigger] end.workers[i]).pending
            == ActionView::Finish(JobOutcomeView::Kill) by {
            assert(!(has_won(end.workers[i]) && has_won(end.workers[k])));
            assert(has_lost(end.workers[i]));
        }
    }
}

} // verus!
