use nicacher::cache::db::Status;
use nicacher::cache::paths::{nar_file_path, nar_file_path_from_nar_file, nar_file_path_from_parts};
use nicacher::config::Config;
use nicacher::http::api::{get_nar_file, get_nar_info, NarFileReply, NarInfoReply};
use nicacher::jobs::{
    cache_nar, decide_cache, decide_purge, dispatch_jobs, purge_nar, Action, Claim, Event,
    Fetched, Job, JobOutcome, Phase, RESCHEDULE_SECONDS,
};
use nicacher::nix::compression::CompressionType;
use nicacher::nix::hash;
use nicacher::nix::nar_file::NarFile;
use nicacher::nix::nar_info::NarInfo;
use nicacher::nix::upstream::Upstream;
use std::collections::HashMap;

const DIGEST: &str = "abc123abc";

const TEXT: &str = "StorePath: /nix/store/abc123abc-hello-2.12\nURL: nar/0f1e2d.nar.xz\nCompression: xz\nFileHash: sha256:0f1e2d\nFileSize: 4\nNarHash: sha256:99aa\nNarSize: 8\nReferences:\n";

const OTHER_TEXT: &str = "StorePath: /nix/store/abc123abc-hello-2.13\nURL: nar/77aa.nar.xz\nCompression: xz\nFileHash: sha256:77aa\nFileSize: 5\nNarHash: sha256:99bb\nNarSize: 9\nReferences:\n";

struct Sim {
    config: Config,
    lifecycle: HashMap<String, Status>,
    descriptors: HashMap<String, (String, String)>,
    archives: HashMap<String, Vec<u8>>,
    gift: Option<(String, Vec<u8>)>,
    fetches: usize,
    seen: Vec<Option<Status>>,
}

fn sim() -> Sim {
    let mut config = Config::default().unwrap();
    config.local_data_path = "/data".to_string();
    Sim {
        config,
        lifecycle: HashMap::new(),
        descriptors: HashMap::new(),
        archives: HashMap::new(),
        gift: Some((TEXT.to_string(), vec![1, 2, 3, 4])),
        fetches: 0,
        seen: Vec::new(),
    }
}

fn the_hash() -> hash::Hash {
    hash::Hash::from_str(DIGEST).unwrap()
}

fn perform(sim: &mut Sim, action: Action) -> Event {
    let digest = DIGEST.to_string();
    let event = match action {
        Action::ReadStatus => Event::Status(sim.lifecycle.get(&digest).copied()),
        Action::ClaimFetching => {
            sim.lifecycle.insert(digest, Status::Fetching);
            Event::Done
        }
        Action::Fetch => {
            sim.fetches += 1;
            Event::Fetched(sim.gift.as_ref().map(|(text, data)| Fetched {
                nar_info: NarInfo::from_str(text).unwrap(),
                upstream: Upstream::new("https://cache.nixos.org").unwrap(),
                data: data.clone(),
            }))
        }
        Action::Install { fetched, is_force } => {
            if !is_force && sim.descriptors.contains_key(&digest) {
                Event::Failed("UNIQUE constraint failed".to_string())
            } else {
                let path = nar_file_path(&sim.config, &fetched.nar_info);
                sim.descriptors.insert(
                    digest.clone(),
                    (fetched.nar_info.to_string(), fetched.upstream.to_string()),
                );
                sim.archives.insert(path, fetched.data);
                sim.lifecycle.insert(digest, Status::Available);
                Event::Done
            }
        }
        Action::MarkNotAvailable => {
            sim.lifecycle.insert(digest, Status::NotAvailable);
            Event::Done
        }
        Action::LookUpArchive => Event::Archive(sim.descriptors.get(&digest).map(|(text, _)| {
            nar_file_path(&sim.config, &NarInfo::from_str(text).unwrap())
        })),
        Action::ClaimPurging => {
            sim.lifecycle.insert(digest, Status::Purging);
            Event::Done
        }
        Action::RemoveArchive(path) => {
            sim.archives.remove(&path);
            Event::Done
        }
        Action::ForgetEntry => {
            sim.lifecycle.remove(&digest);
            Event::Done
        }
        Action::Finish(_) => unreachable!(),
    };
    sim.seen.push(sim.lifecycle.get(DIGEST).copied());
    event
}

fn run(sim: &mut Sim, job: &Job) -> JobOutcome {
    let (mut phase, mut action) = dispatch_jobs(job, Phase::Start, Event::Begin);
    loop {
        if let Action::Finish(outcome) = action {
            assert!(matches!(phase, Phase::Finished));
            return outcome;
        }
        let event = perform(sim, action);
        let next = dispatch_jobs(job, phase, event);
        phase = next.0;
        action = next.1;
    }
}

fn cache_job(is_force: bool) -> Job {
    Job::CacheNar { hash: the_hash(), is_force }
}

fn purge_job(is_force: bool) -> Job {
    Job::PurgeNar { hash: the_hash(), is_force }
}

#[test]
fn cache_claims_follow_the_table() {
    let f = Claim::Reschedule(RESCHEDULE_SECONDS);
    assert_eq!(RESCHEDULE_SECONDS, 10);
    assert_eq!(decide_cache(None, false), Claim::Proceed);
    assert_eq!(decide_cache(None, true), Claim::Proceed);
    assert_eq!(decide_cache(Some(Status::NotAvailable), false), Claim::Proceed);
    assert_eq!(decide_cache(Some(Status::NotAvailable), true), Claim::Proceed);
    assert_eq!(decide_cache(Some(Status::Available), true), Claim::Proceed);
    assert_eq!(decide_cache(Some(Status::Available), false), Claim::Kill);
    assert_eq!(decide_cache(Some(Status::Fetching), false), Claim::Kill);
    assert_eq!(decide_cache(Some(Status::Fetching), true), Claim::Kill);
    assert_eq!(decide_cache(Some(Status::Purging), true), f);
    assert_eq!(decide_cache(Some(Status::Purging), false), Claim::Kill);
}

#[test]
fn purge_claims_follow_the_table() {
    let f = Claim::Reschedule(10);
    assert_eq!(decide_purge(Some(Status::Available), false), Claim::Proceed);
    assert_eq!(decide_purge(Some(Status::Available), true), Claim::Proceed);
    assert_eq!(decide_purge(Some(Status::NotAvailable), true), Claim::Proceed);
    assert_eq!(decide_purge(Some(Status::NotAvailable), false), Claim::Kill);
    assert_eq!(decide_purge(Some(Status::Fetching), true), f);
    assert_eq!(decide_purge(Some(Status::Fetching), false), Claim::Kill);
    assert_eq!(decide_purge(Some(Status::Purging), false), Claim::Kill);
    assert_eq!(decide_purge(Some(Status::Purging), true), Claim::Kill);
    assert_eq!(decide_purge(None, false), Claim::Kill);
    assert_eq!(decide_purge(None, true), Claim::Kill);
}

#[test]
fn cache_job_steps_in_order() {
    let (p, a) = cache_nar(false, Phase::Start, Event::Begin);
    assert!(matches!((&p, &a), (Phase::ReadingStatus, Action::ReadStatus)));
    let (p, a) = cache_nar(false, p, Event::Status(None));
    assert!(matches!((&p, &a), (Phase::ClaimingFetch, Action::ClaimFetching)));
    let (p, a) = cache_nar(false, p, Event::Done);
    assert!(matches!((&p, &a), (Phase::Fetching, Action::Fetch)));
    let fetched = Fetched {
        nar_info: NarInfo::from_str(TEXT).unwrap(),
        upstream: Upstream::new("https://cache.nixos.org").unwrap(),
        data: vec![9],
    };
    let (p, a) = cache_nar(false, p, Event::Fetched(Some(fetched)));
    match (&p, &a) {
        (Phase::Installing, Action::Install { fetched, is_force }) => {
            assert!(!is_force);
            assert_eq!(fetched.data, vec![9]);
            assert_eq!(fetched.nar_info.to_string(), TEXT);
            assert_eq!(fetched.upstream.url(), "https://cache.nixos.org/");
        }
        other => panic!("{other:?}"),
    }
    let (p, a) = cache_nar(false, p, Event::Done);
    assert!(matches!((&p, &a), (Phase::Finished, Action::Finish(JobOutcome::Success))));
}

#[test]
fn purge_job_steps_in_order() {
    let (p, a) = purge_nar(true, Phase::Start, Event::Begin);
    assert!(matches!((&p, &a), (Phase::ReadingStatus, Action::ReadStatus)));
    let (p, a) = purge_nar(true, p, Event::Status(Some(Status::NotAvailable)));
    assert!(matches!((&p, &a), (Phase::LookingUp, Action::LookUpArchive)));
    let (p, a) = purge_nar(true, p, Event::Archive(Some("/data/nar/x.nar.xz".to_string())));
    assert!(matches!((&p, &a), (Phase::ClaimingPurge(_), Action::ClaimPurging)));
    let (p, a) = purge_nar(true, p, Event::Done);
    match (&p, &a) {
        (Phase::Removing, Action::RemoveArchive(path)) => assert_eq!(path, "/data/nar/x.nar.xz"),
        other => panic!("{other:?}"),
    }
    let (p, a) = purge_nar(true, p, Event::Done);
    assert!(matches!((&p, &a), (Phase::Forgetting, Action::ForgetEntry)));
    let (p, a) = purge_nar(true, p, Event::Done);
    assert!(matches!((&p, &a), (Phase::Finished, Action::Finish(JobOutcome::Success))));
}

#[test]
fn purge_without_descriptor_retries() {
    let (p, _) = purge_nar(true, Phase::Start, Event::Begin);
    let (p, _) = purge_nar(true, p, Event::Status(Some(Status::Available)));
    let (p, a) = purge_nar(true, p, Event::Archive(None));
    assert!(matches!((&p, &a), (Phase::Finished, Action::Finish(JobOutcome::Retry))));
}

#[test]
fn storage_failure_fails_the_job() {
    let (p, _) = cache_nar(false, Phase::Start, Event::Begin);
    let (p, a) = cache_nar(false, p, Event::Failed("disk full".to_string()));
    match (&p, &a) {
        (Phase::Finished, Action::Finish(JobOutcome::Failed(cause))) => {
            assert_eq!(cause, "disk full")
        }
        other => panic!("{other:?}"),
    }
}

#[test]
fn unexpected_event_fails_the_job() {
    let (p, a) = cache_nar(false, Phase::Start, Event::Done);
    match (&p, &a) {
        (Phase::Finished, Action::Finish(JobOutcome::Failed(cause))) => {
            assert_eq!(cause, "unexpected event")
        }
        other => panic!("{other:?}"),
    }
    let (_, a) = purge_nar(false, Phase::Removing, Event::Status(None));
    assert!(matches!(a, Action::Finish(JobOutcome::Failed(_))));
}

#[test]
fn test_job_succeeds_at_once() {
    let (p, a) = dispatch_jobs(&Job::Test, Phase::Start, Event::Begin);
    assert!(matches!((&p, &a), (Phase::Finished, Action::Finish(JobOutcome::Success))));
}

#[test]
fn cold_hit() {
    let mut sim = sim();
    let job = match get_nar_info(the_hash(), None) {
        NarInfoReply::Miss(job, response) => {
            assert_eq!(response.status, 404);
            assert_eq!(response.body, "unavailable");
            job
        }
        other => panic!("{other:?}"),
    };
    match &job {
        Job::CacheNar { hash, is_force } => {
            assert_eq!(hash.string, DIGEST);
            assert!(!is_force);
        }
        other => panic!("{other:?}"),
    }
    assert!(matches!(run(&mut sim, &job), JobOutcome::Success));
    assert_eq!(sim.lifecycle.get(DIGEST), Some(&Status::Available));
    let stored = NarInfo::from_str(&sim.descriptors[DIGEST].0).unwrap();
    match get_nar_info(the_hash(), Some(stored)) {
        NarInfoReply::Hit(response) => {
            assert_eq!(response.status, 200);
            assert_eq!(response.content_type.as_deref(), Some("text/x-nix-narinfo"));
            assert_eq!(response.body, TEXT);
        }
        other => panic!("{other:?}"),
    }
}

#[test]
fn archive_follows_descriptor() {
    let mut sim = sim();
    assert!(matches!(run(&mut sim, &cache_job(false)), JobOutcome::Success));
    let file = NarFile::from_str("0f1e2d.nar.xz").unwrap();
    match get_nar_file(&sim.config, &file, true) {
        NarFileReply::Serve(path, kind) => {
            assert_eq!(path, "/data/nar/0f1e2d.nar.xz");
            assert_eq!(kind, "application/x-nix-nar");
            assert_eq!(sim.archives[&path], vec![1, 2, 3, 4]);
        }
        other => panic!("{other:?}"),
    }
    assert!(matches!(get_nar_file(&sim.config, &file, false), NarFileReply::NotFound));
}

#[test]
fn concurrent_requests_collapse() {
    let mut sim = sim();
    let job = cache_job(false);
    // The first worker takes the artifact, and waits for the upstreams.
    let (p, a) = dispatch_jobs(&job, Phase::Start, Event::Begin);
    let e = perform(&mut sim, a);
    let (p, a) = dispatch_jobs(&job, p, e);
    let e = perform(&mut sim, a);
    let (first_phase, first_action) = dispatch_jobs(&job, p, e);
    assert!(matches!(first_action, Action::Fetch));
    // Nine others come while it waits.
    let mut kills = 0;
    for _ in 0..9 {
        if matches!(run(&mut sim, &cache_job(false)), JobOutcome::Kill) {
            kills += 1;
        }
    }
    assert_eq!(kills, 9);
    // The first goes on.
    let e = perform(&mut sim, first_action);
    let (p, a) = dispatch_jobs(&job, first_phase, e);
    let e = perform(&mut sim, a);
    let (_, a) = dispatch_jobs(&job, p, e);
    assert!(matches!(a, Action::Finish(JobOutcome::Success)));
    assert_eq!(sim.fetches, 1);
    assert_eq!(sim.lifecycle.get(DIGEST), Some(&Status::Available));
    let after_claim: Vec<_> = sim.seen.iter().skip(1).collect();
    assert!(after_claim
        .iter()
        .all(|s| matches!(s, Some(Status::Fetching) | Some(Status::Available))));
    // A tenth that comes later finds the artifact here.
    assert!(matches!(run(&mut sim, &cache_job(false)), JobOutcome::Kill));
    assert_eq!(sim.fetches, 1);
}

#[test]
fn force_purge_under_fetch() {
    let mut sim = sim();
    let job = cache_job(false);
    let (p, a) = dispatch_jobs(&job, Phase::Start, Event::Begin);
    let e = perform(&mut sim, a);
    let (p, a) = dispatch_jobs(&job, p, e);
    let e = perform(&mut sim, a);
    let (p, a) = dispatch_jobs(&job, p, e);
    assert_eq!(sim.lifecycle.get(DIGEST), Some(&Status::Fetching));
    match run(&mut sim, &purge_job(true)) {
        JobOutcome::Reschedule(seconds) => assert_eq!(seconds, 10),
        other => panic!("{other:?}"),
    }
    assert!(matches!(run(&mut sim, &purge_job(false)), JobOutcome::Kill));
    let e = perform(&mut sim, a);
    let (p, a) = dispatch_jobs(&job, p, e);
    let e = perform(&mut sim, a);
    let (_, a) = dispatch_jobs(&job, p, e);
    assert!(matches!(a, Action::Finish(JobOutcome::Success)));
    assert_eq!(sim.lifecycle.get(DIGEST), Some(&Status::Available));
    assert_eq!(sim.archives.len(), 1);
    assert!(matches!(run(&mut sim, &purge_job(true)), JobOutcome::Success));
    assert!(sim.archives.is_empty());
    assert!(sim.lifecycle.get(DIGEST).is_none());
    assert!(sim.descriptors.contains_key(DIGEST));
}

#[test]
fn all_upstreams_down() {
    let mut sim = sim();
    sim.gift = None;
    assert!(matches!(run(&mut sim, &cache_job(false)), JobOutcome::Success));
    assert_eq!(sim.lifecycle.get(DIGEST), Some(&Status::NotAvailable));
    assert!(sim.descriptors.is_empty());
    assert!(sim.archives.is_empty());
}

#[test]
fn purge_twice_is_purge_once() {
    let mut sim = sim();
    assert!(matches!(run(&mut sim, &cache_job(false)), JobOutcome::Success));
    assert!(matches!(run(&mut sim, &purge_job(true)), JobOutcome::Success));
    let lifecycle = sim.lifecycle.clone();
    let descriptors = sim.descriptors.clone();
    let archives = sim.archives.clone();
    assert!(matches!(run(&mut sim, &purge_job(true)), JobOutcome::Kill));
    assert_eq!(sim.lifecycle, lifecycle);
    assert_eq!(sim.descriptors, descriptors);
    assert_eq!(sim.archives, archives);
}

#[test]
fn forced_refresh_replaces_or_leaves() {
    let mut sim = sim();
    assert!(matches!(run(&mut sim, &cache_job(false)), JobOutcome::Success));
    sim.gift = None;
    let before = sim.descriptors.clone();
    assert!(matches!(run(&mut sim, &cache_job(true)), JobOutcome::Success));
    assert_eq!(sim.descriptors, before);
    assert_eq!(sim.lifecycle.get(DIGEST), Some(&Status::NotAvailable));
    sim.gift = Some((OTHER_TEXT.to_string(), vec![5, 6, 7, 8, 9]));
    assert!(matches!(run(&mut sim, &cache_job(true)), JobOutcome::Success));
    assert_eq!(sim.descriptors[DIGEST].0, OTHER_TEXT);
    assert_eq!(sim.lifecycle.get(DIGEST), Some(&Status::Available));
    assert_eq!(sim.archives["/data/nar/77aa.nar.xz"], vec![5, 6, 7, 8, 9]);
}

#[test]
fn unforced_fetch_over_an_old_descriptor_fails() {
    let mut sim = sim();
    assert!(matches!(run(&mut sim, &cache_job(false)), JobOutcome::Success));
    assert!(matches!(run(&mut sim, &purge_job(false)), JobOutcome::Success));
    match run(&mut sim, &cache_job(false)) {
        JobOutcome::Failed(cause) => assert_eq!(cause, "UNIQUE constraint failed"),
        other => panic!("{other:?}"),
    }
    assert_eq!(sim.lifecycle.get(DIGEST), Some(&Status::Fetching));
}

#[test]
fn available_has_descriptor_and_archive() {
    let mut sim = sim();
    for job in [cache_job(false), cache_job(true), purge_job(false), cache_job(true)] {
        run(&mut sim, &job);
        if sim.lifecycle.get(DIGEST) == Some(&Status::Available) {
            let d = NarInfo::from_str(&sim.descriptors[DIGEST].0).unwrap();
            assert!(sim.archives.contains_key(&nar_file_path(&sim.config, &d)));
        }
    }
}

#[test]
fn archive_paths() {
    let mut config = Config::default().unwrap();
    let d = NarInfo::from_str(TEXT).unwrap();
    assert_eq!(nar_file_path(&config, &d), "./nar/0f1e2d.nar.xz");
    config.local_data_path = "/var/cache/".to_string();
    assert_eq!(nar_file_path(&config, &d), "/var/cache/nar/0f1e2d.nar.xz");
    config.local_data_path = String::new();
    assert_eq!(nar_file_path(&config, &d), "nar/0f1e2d.nar.xz");
    let file = NarFile::from_str("0f1e2d.nar.xz").unwrap();
    assert_eq!(nar_file_path_from_nar_file(&config, &file), nar_file_path(&config, &d));
    let h = hash::Hash::from_method_hash("md5".to_string(), "0f1e2d".to_string());
    assert_eq!(
        nar_file_path_from_parts(&config, &h, &CompressionType::Xz),
        nar_file_path(&config, &d)
    );
    let expected = std::path::Path::new("").join("nar").join("0f1e2d.nar.xz");
    assert_eq!(nar_file_path(&config, &d), expected.to_str().unwrap());
}
