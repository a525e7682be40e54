use nicacher::cache::diff::{missing_from_channel_upstreams, request_all_channel_stores};
use nicacher::config::{upstreams_from_entries, Config, UpstreamEntry, UpstreamSet};
use nicacher::fetch::{
    channel_store_url, read_store_paths, request_channel_store, request_derivation,
    ChannelStoreError, FetchAction, FetchEvent, FetchPhase,
};
use nicacher::nix::hash;
use nicacher::nix::store_path::{StorePath, StorePathParseError};
use nicacher::nix::upstream::{is_text_before, Channel, Priority, PriorityUpstream, Upstream};
use std::collections::{BTreeSet, HashMap};
use std::io::Write;

const TEXT: &str = "StorePath: /nix/store/abc123abc-hello-2.12\nURL: nar/0f1e2d.nar.xz\nCompression: xz\nFileHash: sha256:0f1e2d\nFileSize: 4\nNarHash: sha256:99aa\nNarSize: 8\nReferences:\n";

fn upstreams(urls: &[(&str, u32)]) -> UpstreamSet {
    let mut set = UpstreamSet::new();
    for (url, priority) in urls {
        set.insert(PriorityUpstream::new(Upstream::new(url).unwrap(), Priority(*priority)));
    }
    set
}

fn ask(
    set: &UpstreamSet,
    texts: &HashMap<&str, &str>,
    blobs: &HashMap<&str, Vec<u8>>,
) -> (Option<nicacher::jobs::Fetched>, Vec<String>) {
    let h = hash::Hash::from_str("abc123abc").unwrap();
    let mut asked = Vec::new();
    let (mut phase, mut action) = request_derivation(set, &h, FetchPhase::Start, FetchEvent::Begin);
    loop {
        let event = match action {
            FetchAction::Done(result) => return (result, asked),
            FetchAction::GetText(url) => {
                let answer = texts.get(url.as_str()).map(|t| FetchEvent::Text(t.to_string()));
                asked.push(url);
                answer.unwrap_or(FetchEvent::Failed)
            }
            FetchAction::GetBytes(url) => {
                let answer = blobs.get(url.as_str()).map(|b| FetchEvent::Bytes(b.clone()));
                asked.push(url);
                answer.unwrap_or(FetchEvent::Failed)
            }
        };
        let next = request_derivation(set, &h, phase, event);
        phase = next.0;
        action = next.1;
    }
}

#[test]
fn upstream_address_is_put_in_normal_form() {
    let u = Upstream::new("HTTPS://Cache.NixOS.org").unwrap();
    assert_eq!(u.url(), "https://cache.nixos.org/");
    assert_eq!(u.to_string(), "https://cache.nixos.org/");
    assert_eq!(u.url(), url::Url::parse("HTTPS://Cache.NixOS.org").unwrap().as_str());
}

#[test]
fn upstream_address_refused() {
    let e = match Upstream::new("not an address") {
        Err(e) => e,
        Ok(u) => panic!("{u:?}"),
    };
    assert_eq!(e.text, "not an address");
    assert_eq!(e.cause, url::ParseError::RelativeUrlWithoutBase);
    assert!(PriorityUpstream::from_str("").is_err());
}

#[test]
fn upstream_join() {
    let u = Upstream::new("https://cache.nixos.org/sub/").unwrap();
    assert_eq!(u.join("abc.narinfo").unwrap(), "https://cache.nixos.org/sub/abc.narinfo");
    assert_eq!(u.join("/nar/x.nar.xz").unwrap(), "https://cache.nixos.org/nar/x.nar.xz");
    assert_eq!(u.join("https://other.org/x").unwrap(), "https://other.org/x");
    assert!(u.join("https://[bad").is_none());
}

#[test]
fn priority_defaults_to_forty() {
    assert_eq!(Priority::default(), Priority(40));
    let u = PriorityUpstream::from_str("https://cache.nixos.org").unwrap();
    assert_eq!(u.priority(), Priority(40));
    assert_eq!(u.url(), "https://cache.nixos.org/");
    assert_eq!(u.clone().into_upstream().url(), u.as_ref().url());
}

#[test]
fn texts_are_ordered_as_strings_are() {
    let words = ["", "a", "ab", "b", "B", "https://a/", "https://a/b", "ä", "z"];
    for a in words {
        for b in words {
            assert_eq!(is_text_before(a, b), a < b, "{a} {b}");
        }
    }
}

#[test]
fn upstreams_are_kept_in_order() {
    let entries = [
        ("https://b.example/", 40),
        ("https://a.example/", 40),
        ("https://z.example/", 10),
        ("https://a.example/", 40),
        ("https://a.example/", 50),
    ];
    let mut set = UpstreamSet::new();
    let mut model = BTreeSet::new();
    for (url, priority) in entries {
        let added =
            set.insert(PriorityUpstream::new(Upstream::new(url).unwrap(), Priority(priority)));
        assert_eq!(added, model.insert((priority, url::Url::parse(url).unwrap())));
    }
    assert_eq!(set.len(), 4);
    let got: Vec<_> =
        (0..set.len()).map(|i| (set.get(i).priority().0, set.get(i).url().to_string())).collect();
    let expected: Vec<_> = model.iter().map(|(p, u)| (*p, u.to_string())).collect();
    assert_eq!(got, expected);
    assert_eq!(got[0], (10, "https://z.example/".to_string()));
    assert!(set.get(0).is_before(set.get(1)));
    assert!(!set.get(1).is_before(set.get(0)));
    assert!(set.get(1).same(set.get(1)));
}

#[test]
fn upstreams_from_settings() {
    let entries = vec![
        UpstreamEntry::Address("https://cache.nixos.org".to_string()),
        UpstreamEntry::Record { url: "https://mirror.example/".to_string(), priority: Some(10) },
        UpstreamEntry::Record { url: "https://third.example/".to_string(), priority: None },
    ];
    let set = upstreams_from_entries(&entries).unwrap();
    assert_eq!(set.len(), 3);
    assert_eq!(set.get(0).url(), "https://mirror.example/");
    assert_eq!(set.get(0).priority(), Priority(10));
    assert_eq!(set.get(1).url(), "https://cache.nixos.org/");
    assert_eq!(set.get(2).url(), "https://third.example/");
    assert_eq!(set.get(2).priority(), Priority(40));
    let bad = vec![
        UpstreamEntry::Address("https://cache.nixos.org".to_string()),
        UpstreamEntry::Address("nonsense".to_string()),
        UpstreamEntry::Address("more nonsense".to_string()),
    ];
    match upstreams_from_entries(&bad) {
        Err(e) => assert_eq!(e.text, "nonsense"),
        Ok(set) => panic!("{set:?}"),
    }
}

#[test]
fn default_settings() {
    let config = Config::default().unwrap();
    assert_eq!(config.upstreams.len(), 1);
    assert_eq!(config.upstreams.get(0).url(), "https://cache.nixos.org/");
    assert_eq!(config.upstreams.get(0).priority(), Priority(40));
    assert_eq!(config.channel_url.url(), "https://channels.nixos.org/");
    assert_eq!(config.channels.len(), 1);
    assert_eq!(config.channels[0].to_string(), "nixpkgs-unstable");
    assert_eq!(config.local_data_path, ".");
    assert_eq!(config.database_max_connections, 20);
    assert_eq!(Channel::NixosUnstable().to_string(), "nixos-unstable");
}

#[test]
fn first_upstream_that_gives_both_wins() {
    let set = upstreams(&[("https://one.example/", 10), ("https://two.example/", 20)]);
    let texts = HashMap::from([
        ("https://one.example/abc123abc.narinfo", TEXT),
        ("https://two.example/abc123abc.narinfo", TEXT),
    ]);
    let blobs = HashMap::from([
        ("https://one.example/nar/0f1e2d.nar.xz", vec![1u8]),
        ("https://two.example/nar/0f1e2d.nar.xz", vec![2u8]),
    ]);
    let (result, asked) = ask(&set, &texts, &blobs);
    let fetched = result.unwrap();
    assert_eq!(fetched.upstream.url(), "https://one.example/");
    assert_eq!(fetched.data, vec![1]);
    assert_eq!(fetched.nar_info.to_string(), TEXT);
    assert_eq!(
        asked,
        ["https://one.example/abc123abc.narinfo", "https://one.example/nar/0f1e2d.nar.xz"]
    );
}

#[test]
fn failing_upstreams_are_passed_over() {
    let set = upstreams(&[
        ("https://down.example/", 1),
        ("https://garbled.example/", 2),
        ("https://no-archive.example/", 3),
        ("https://good.example/", 4),
        ("https://never.example/", 5),
    ]);
    let texts = HashMap::from([
        ("https://garbled.example/abc123abc.narinfo", "<html>not found</html>"),
        ("https://no-archive.example/abc123abc.narinfo", TEXT),
        ("https://good.example/abc123abc.narinfo", TEXT),
        ("https://never.example/abc123abc.narinfo", TEXT),
    ]);
    let blobs = HashMap::from([
        ("https://good.example/nar/0f1e2d.nar.xz", vec![4u8]),
        ("https://never.example/nar/0f1e2d.nar.xz", vec![5u8]),
    ]);
    let (result, asked) = ask(&set, &texts, &blobs);
    let fetched = result.unwrap();
    assert_eq!(fetched.upstream.url(), "https://good.example/");
    assert_eq!(fetched.data, vec![4]);
    assert_eq!(
        asked,
        [
            "https://down.example/abc123abc.narinfo",
            "https://garbled.example/abc123abc.narinfo",
            "https://no-archive.example/abc123abc.narinfo",
            "https://no-archive.example/nar/0f1e2d.nar.xz",
            "https://good.example/abc123abc.narinfo",
            "https://good.example/nar/0f1e2d.nar.xz",
        ]
    );
}

#[test]
fn all_upstreams_fail() {
    let set = upstreams(&[("https://one.example/", 10), ("https://two.example/", 20)]);
    let (result, asked) = ask(&set, &HashMap::new(), &HashMap::new());
    assert!(result.is_none());
    assert_eq!(asked.len(), 2);
    let (result, asked) = ask(&UpstreamSet::new(), &HashMap::new(), &HashMap::new());
    assert!(result.is_none());
    assert!(asked.is_empty());
}

#[test]
fn fetch_out_of_turn_ends() {
    let set = upstreams(&[("https://one.example/", 10)]);
    let h = hash::Hash::from_str("abc").unwrap();
    let (p, a) = request_derivation(&set, &h, FetchPhase::Start, FetchEvent::Failed);
    assert!(matches!((p, a), (FetchPhase::Finished, FetchAction::Done(None))));
    let (p, a) =
        request_derivation(&set, &h, FetchPhase::AwaitingNarInfo(7), FetchEvent::Text(TEXT.into()));
    assert!(matches!((p, a), (FetchPhase::Finished, FetchAction::Done(None))));
}

#[test]
fn channel_store_address() {
    let base = Upstream::new("https://channels.nixos.org/").unwrap();
    assert_eq!(
        channel_store_url(&base, &Channel::NixpkgsUnstable()).unwrap(),
        "https://channels.nixos.org/nixpkgs-unstable/store-paths.xz"
    );
    assert_eq!(
        channel_store_url(&base, &Channel::new("nixos-23.05".to_string())).unwrap(),
        "https://channels.nixos.org/nixos-23.05/store-paths.xz"
    );
}

#[test]
fn store_path_list_is_read_line_by_line() {
    let paths = read_store_paths("\n  /nix/store/aaa-one\n/nix/store/bbb-two\r\n/nix/store/ccc-three\n\n")
        .unwrap();
    let got: Vec<_> = paths.iter().map(|p| p.path()).collect();
    assert_eq!(got, ["/nix/store/aaa-one", "/nix/store/bbb-two", "/nix/store/ccc-three"]);
    assert!(read_store_paths("").unwrap().is_empty());
    assert!(read_store_paths(" \n ").unwrap().is_empty());
    match read_store_paths("/nix/store/aaa-one\n\n/nix/store/bbb-two") {
        Err(StorePathParseError::InvalidPath(p)) => assert_eq!(p, ""),
        other => panic!("{other:?}"),
    }
    assert!(matches!(
        read_store_paths("/nix/store/aaa-one\n/nix/store/nohyphen"),
        Err(StorePathParseError::InvalidDerivation(_))
    ));
}

#[test]
fn compressed_store_path_list() {
    let mut encoder = xz2::write::XzEncoder::new(Vec::new(), 6);
    encoder.write_all(b"/nix/store/aaa-one\n/nix/store/bbb-two\n").unwrap();
    let bytes = encoder.finish().unwrap();
    let paths = request_channel_store(&bytes).unwrap();
    assert_eq!(paths.len(), 2);
    assert_eq!(paths[1].path(), "/nix/store/bbb-two");
    assert!(matches!(
        request_channel_store(b"/nix/store/aaa-one\n"),
        Err(ChannelStoreError::NotDecodable)
    ));
    let mut encoder = xz2::write::XzEncoder::new(Vec::new(), 6);
    encoder.write_all(b"/nix/store/nohyphen\n").unwrap();
    assert!(matches!(
        request_channel_store(&encoder.finish().unwrap()),
        Err(ChannelStoreError::InvalidStorePath(_))
    ));
    let mut encoder = xz2::write::XzEncoder::new(Vec::new(), 6);
    encoder.write_all(&[0xff, 0xfe]).unwrap();
    assert!(matches!(
        request_channel_store(&encoder.finish().unwrap()),
        Err(ChannelStoreError::NotDecodable)
    ));
}

fn paths(texts: &[&str]) -> Vec<StorePath> {
    texts.iter().map(|t| StorePath::from_str(t).unwrap()).collect()
}

#[test]
fn diff_reports_missing() {
    let cached = paths(&["/nix/store/aaa-A", "/nix/store/bbb-B"]);
    let channel = paths(&["/nix/store/aaa-A", "/nix/store/bbb-B", "/nix/store/ccc-C"]);
    let diff = missing_from_channel_upstreams(&cached, &channel);
    let got: Vec<_> = diff.iter().map(|p| p.path()).collect();
    assert_eq!(got, ["/nix/store/ccc-C"]);
}

#[test]
fn diff_is_a_set_difference() {
    let cached = paths(&["/nix/store/bbb-B", "/nix/store/zzz-Z", "/nix/store/bbb-B"]);
    let channel = paths(&[
        "/nix/store/ddd-D",
        "/nix/store/bbb-B/",
        "/nix/store/ccc-C",
        "/nix/store/ddd-D",
        "/nix/store/ccc-C/.",
    ]);
    let diff = missing_from_channel_upstreams(&cached, &channel);
    let got: Vec<_> = diff.iter().map(|p| p.path()).collect();
    assert_eq!(got, ["/nix/store/ddd-D", "/nix/store/ccc-C"]);
    assert!(missing_from_channel_upstreams(&channel, &channel).is_empty());
    assert!(missing_from_channel_upstreams(&cached, &Vec::new()).is_empty());
    assert_eq!(missing_from_channel_upstreams(&Vec::new(), &channel).len(), 3);
}

#[test]
fn channels_are_merged() {
    let lists = vec![
        paths(&["/nix/store/aaa-A", "/nix/store/bbb-B"]),
        Vec::new(),
        paths(&["/nix/store/bbb-B", "/nix/store/ccc-C", "/nix/store/aaa-A"]),
    ];
    let all = request_all_channel_stores(&lists);
    let got: Vec<_> = all.iter().map(|p| p.path()).collect();
    assert_eq!(got, ["/nix/store/aaa-A", "/nix/store/bbb-B", "/nix/store/ccc-C"]);
    assert!(request_all_channel_stores(&Vec::new()).is_empty());
}
