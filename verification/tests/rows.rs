use nicacher::cache::db::{Entry, NarInfoEntry, Status};
use nicacher::error::Error;
use nicacher::http::admin::{
    cache_size, list_cache_diff, list_cached, nar_status, outcome, push_cache_nar,
    push_purge_nar, DEFAULT_LIST_LIMIT,
};
use nicacher::http::api::{index, nix_cache_info, NARINFO_MIME, NAR_FILE_MIME};
use nicacher::jobs::{Job, JobOutcome};
use nicacher::nix::hash;
use nicacher::nix::nar_info::{NarInfo, NarInfoBuilder, NarInfoParseError};
use nicacher::nix::store_path::StorePath;

const TEXT: &str = "StorePath: /nix/store/abc123abc-hello-2.12\nURL: https://elsewhere.example/x\nCompression: xz\nFileHash: sha256:0f1e2d\nFileSize: 4\nNarHash: 99aa\nNarSize: 8\nDeriver: d\nReferences: aaa-one bbb-two\nSig: s\n";

#[test]
fn status_numbers() {
    assert_eq!(Status::NotAvailable.to_i64(), 0);
    assert_eq!(Status::Fetching.to_i64(), 1);
    assert_eq!(Status::Available.to_i64(), 2);
    assert_eq!(Status::Purging.to_i64(), 3);
    for s in [Status::NotAvailable, Status::Fetching, Status::Available, Status::Purging] {
        assert_eq!(Status::from_i64(s.to_i64()), s);
    }
    assert_eq!(Status::from_i64(4), Status::NotAvailable);
    assert_eq!(Status::from_i64(-1), Status::NotAvailable);
    assert_eq!(Status::from_i64(i64::MAX), Status::NotAvailable);
    assert_eq!(Status::default(), Status::NotAvailable);
}

#[test]
fn entry_holds_plain_values() {
    let e = Entry { status: Status::Available, last_cached: 1_700_000_000, last_accessed: None };
    assert_eq!(e, e.clone());
}

#[test]
fn row_of_a_descriptor() {
    let d = NarInfo::from_str(TEXT).unwrap();
    let h = hash::Hash::from_str("sha256:abc123abc").unwrap();
    let row = NarInfoEntry::from_nar_info(&h, &d);
    assert_eq!(row.hash, "abc123abc");
    assert_eq!(row.store_path, "/nix/store/abc123abc-hello-2.12");
    assert_eq!(row.compression, "xz");
    assert_eq!(row.file_hash_method, "sha256");
    assert_eq!(row.file_hash, "0f1e2d");
    assert_eq!(row.file_size, 4);
    assert_eq!(row.nar_hash_method, "");
    assert_eq!(row.nar_hash, "99aa");
    assert_eq!(row.nar_size, 8);
    assert_eq!(row.deriver.as_deref(), Some("d"));
    assert_eq!(row.system, None);
    assert_eq!(row.refs, " aaa-one bbb-two");
    let tagged = NarInfo::from_str(&TEXT.replace("aaa-one", "sha256:aaa-one")).unwrap();
    assert_eq!(NarInfoEntry::from_nar_info(&h, &tagged).refs, " sha256:aaa-one bbb-two");
    assert_eq!(row.signature.as_deref(), Some("s"));
}

#[test]
fn descriptor_of_a_row() {
    let d = NarInfo::from_str(TEXT).unwrap();
    let h = hash::Hash::from_str("abc123abc").unwrap();
    let back = NarInfoEntry::from_nar_info(&h, &d).try_into_nar_info().unwrap();
    assert_eq!(back.store_path.path(), "/nix/store/abc123abc-hello-2.12");
    assert_eq!(back.url, "nar/0f1e2d.nar.xz");
    assert_eq!(back.file_hash.to_string(), "sha256:0f1e2d");
    assert_eq!(back.file_size, 4);
    assert_eq!(back.nar_hash.to_string(), "99aa");
    assert!(back.nar_hash.method.is_none());
    assert_eq!(back.nar_size, 8);
    assert_eq!(back.deriver.as_deref(), Some("d"));
    assert_eq!(back.references.len(), 2);
    assert_eq!(back.references[1].name(), "bbb-two");
    assert_eq!(back.signature.as_deref(), Some("s"));
}

#[test]
fn row_gives_the_descriptor_back() {
    let hashes = ["0f1e2d", "sha256:0f1e2d", "md5:0f1e2d", ":0f1e2d"];
    for file_hash in hashes {
        for nar_hash in hashes {
            let text = format!("StorePath: /nix/store/sha1:abc-hello\nURL: https://elsewhere.example/x\nCompression: xz\nFileHash: {file_hash}\nFileSize: 4\nNarHash: {nar_hash}\nNarSize: 8\nSystem: s\nReferences: sha256:aaa-one bbb-two :ccc-three\n");
            let d = NarInfo::from_str(&text).unwrap();
            let h = hash::Hash::from_str("abc").unwrap();
            let back = NarInfoEntry::from_nar_info(&h, &d).try_into_nar_info().unwrap();
            assert_eq!(back.url, format!("nar/{}.nar.{}", d.file_hash.string, d.compression.to_string()));
            assert_eq!(back.store_path.store_path_root, d.store_path.store_path_root);
            assert_eq!(back.store_path.derivation.package, d.store_path.derivation.package);
            assert!(back.store_path.derivation.hash.same(&d.store_path.derivation.hash));
            assert_eq!(back.compression, d.compression);
            assert!(back.file_hash.same(&d.file_hash), "{file_hash}");
            assert!(back.nar_hash.same(&d.nar_hash), "{nar_hash}");
            assert_eq!(back.file_size, d.file_size);
            assert_eq!(back.nar_size, d.nar_size);
            assert_eq!(back.deriver, d.deriver);
            assert_eq!(back.system, d.system);
            assert_eq!(back.signature, d.signature);
            assert_eq!(back.references.len(), 3);
            for (x, y) in back.references.iter().zip(d.references.iter()) {
                assert_eq!(x.package, y.package);
                assert!(x.hash.same(&y.hash));
            }
            assert_eq!(back.references[0].hash.method.as_ref().unwrap().as_str(), "sha256");
            let mut served = NarInfo::from_str(&d.to_string()).unwrap();
            served.url = back.url.clone();
            assert_eq!(back.to_string(), served.to_string());
        }
    }
}

#[test]
fn sizes_keep_their_bits() {
    let mut d = NarInfo::from_str(TEXT).unwrap();
    d.file_size = usize::MAX;
    d.nar_size = (i64::MAX as usize) + 1;
    let h = hash::Hash::from_str("abc").unwrap();
    let row = NarInfoEntry::from_nar_info(&h, &d);
    assert_eq!(row.file_size, usize::MAX as i64);
    assert_eq!(row.nar_size, i64::MIN);
    let back = row.try_into_nar_info().unwrap();
    assert_eq!(back.file_size, usize::MAX);
    assert_eq!(back.nar_size, (i64::MAX as usize) + 1);
}

#[test]
fn broken_rows() {
    let d = NarInfo::from_str(TEXT).unwrap();
    let h = hash::Hash::from_str("abc").unwrap();
    let mut row = NarInfoEntry::from_nar_info(&h, &d);
    row.refs = "aaa-one nohyphen".to_string();
    row.store_path = "/".to_string();
    row.compression = "zip".to_string();
    match row.try_into_nar_info() {
        Err(NarInfoParseError::InvalidFieldValue(k, m)) => {
            assert_eq!(k, "Compression");
            assert_eq!(m, "Unsupported compression type: \"zip\"");
        }
        other => panic!("{other:?}"),
    }
    let mut row = NarInfoEntry::from_nar_info(&h, &d);
    row.refs = "aaa-one nohyphen".to_string();
    row.store_path = "/".to_string();
    match row.try_into_nar_info() {
        Err(NarInfoParseError::InvalidFieldValue(k, _)) => assert_eq!(k, "StorePath"),
        other => panic!("{other:?}"),
    }
    let mut row = NarInfoEntry::from_nar_info(&h, &d);
    row.refs = "aaa-one nohyphen".to_string();
    assert!(matches!(row.try_into_nar_info(), Err(NarInfoParseError::InvalidReference(_))));
}

#[test]
fn builder_sets_fields() {
    let d = NarInfo::from_str(TEXT).unwrap();
    let mut b = NarInfoBuilder::new();
    b.store_path(d.store_path.clone());
    b.url("u".to_string());
    b.compression(d.compression);
    b.file_hash(d.file_hash.clone());
    b.file_size(1);
    b.nar_hash(d.nar_hash.clone());
    b.nar_size(2);
    b.deriver(None);
    b.system(Some("x86_64-linux".to_string()));
    b.signature(None);
    match b.build() {
        Err(NarInfoParseError::MissingField(f)) => assert_eq!(f, "references"),
        other => panic!("{other:?}"),
    }
    let mut b = NarInfoBuilder::new();
    b.store_path(d.store_path.clone());
    b.url("u".to_string());
    b.compression(d.compression);
    b.file_hash(d.file_hash.clone());
    b.file_size(1);
    b.nar_hash(d.nar_hash.clone());
    b.nar_size(2);
    b.references(Vec::new());
    let built = b.build().unwrap();
    assert_eq!(built.url, "u");
    assert_eq!(built.system, None);
    assert_eq!(built.to_string(), "StorePath: /nix/store/abc123abc-hello-2.12\nURL: u\nCompression: xz\nFileHash: sha256:0f1e2d\nFileSize: 1\nNarHash: 99aa\nNarSize: 2\nReferences:\n");
}

#[test]
fn fixed_answers() {
    assert_eq!(index(), "up");
    assert_eq!(nix_cache_info(), "StoreDir: /nix/store\nWantMassQuery: 0\nPriority: 30");
    assert_eq!(NARINFO_MIME, "text/x-nix-narinfo");
    assert_eq!(NAR_FILE_MIME, "application/x-nix-nar");
    assert_eq!(DEFAULT_LIST_LIMIT, 30);
}

#[test]
fn failure_answer() {
    let e = Error::from("no such table".to_string());
    assert_eq!(e.to_string(), "no such table");
    let r = e.into_response();
    assert_eq!(r.status, 500);
    assert_eq!(r.content_type, None);
    assert_eq!(
        r.body,
        "Failed to handle request due to internal server error:\nno such table"
    );
}

#[test]
fn cache_size_report() {
    assert_eq!(
        cache_size(123456, 7890, 42),
        "Cache disk size: 123456 (nar: 7890)\nCache reported size: 42"
    );
    assert_eq!(
        cache_size(u64::MAX, 0, 0),
        "Cache disk size: 18446744073709551615 (nar: 0)\nCache reported size: 0"
    );
}

fn paths(texts: &[&str]) -> Vec<StorePath> {
    texts.iter().map(|t| StorePath::from_str(t).unwrap()).collect()
}

#[test]
fn list_cached_report() {
    let ps = paths(&["/nix/store/aaa-A", "/nix/store/bbb-B", "/nix/store/ccc-C"]);
    assert_eq!(list_cached(0, 30, &ps), "No (0) derivations cached");
    assert_eq!(
        list_cached(3, 2, &ps),
        "Number derivations cached: 3\nStore paths of cached derivations: (limit: 2)\n\n/nix/store/aaa-A\n/nix/store/bbb-B\n"
    );
    assert_eq!(
        list_cached(3, 30, &ps),
        "Number derivations cached: 3\nStore paths of cached derivations: (limit: 30)\n\n/nix/store/aaa-A\n/nix/store/bbb-B\n/nix/store/ccc-C\n"
    );
    assert_eq!(
        list_cached(3, 0, &ps),
        "Number derivations cached: 3\nStore paths of cached derivations: (limit: 0)\n\n"
    );
}

#[test]
fn list_cache_diff_report() {
    let ps = paths(&["/nix/store/aaa-A", "/nix/store/bbb-B", "/nix/store/ccc-C"]);
    assert_eq!(list_cache_diff(30, &Vec::new()), "No missing derivations from cache");
    assert_eq!(
        list_cache_diff(2, &ps),
        "Number of missing derivations from cache: 3\n----------------------------------------------------\nStore paths of missing derivations: (limit: 2)\n\n/nix/store/aaa-A\n/nix/store/bbb-B"
    );
    assert_eq!(
        list_cache_diff(1, &ps),
        "Number of missing derivations from cache: 3\n----------------------------------------------------\nStore paths of missing derivations: (limit: 1)\n\n/nix/store/aaa-A"
    );
    assert_eq!(
        list_cache_diff(0, &ps),
        "Number of missing derivations from cache: 3\n----------------------------------------------------\nStore paths of missing derivations: (limit: 0)\n\n"
    );
}

#[test]
fn status_report() {
    assert_eq!(nar_status(None), format!("{:#?}", None::<Status>));
    for s in [Status::NotAvailable, Status::Fetching, Status::Available, Status::Purging] {
        assert_eq!(nar_status(Some(s)), format!("{:#?}", Some(s)));
    }
}

#[test]
fn outcome_report() {
    assert_eq!(outcome(&JobOutcome::Success), "Success");
    assert_eq!(outcome(&JobOutcome::Kill), "Kill");
    assert_eq!(outcome(&JobOutcome::Retry), "Retry");
    assert_eq!(outcome(&JobOutcome::Reschedule(10)), "Reschedule(10s)");
    assert_eq!(outcome(&JobOutcome::Failed("boom".to_string())), "Failed(boom)");
}

#[test]
fn pushed_jobs() {
    let (job, text) = push_cache_nar(hash::Hash::from_str("abc").unwrap(), true);
    assert!(matches!(job, Job::CacheNar { is_force: true, .. }));
    assert_eq!(text, "Pushed job for caching abc to queue");
    let (job, text) = push_purge_nar(hash::Hash::from_str("abc").unwrap(), false);
    match job {
        Job::PurgeNar { hash, is_force } => {
            assert_eq!(hash.string, "abc");
            assert!(!is_force);
        }
        other => panic!("{other:?}"),
    }
    assert_eq!(text, "Pushed job for purging abc to queue");
}
