use nicacher::nix::compression::CompressionType;
use nicacher::nix::derivation::{Derivation, DerivationParseError};
use nicacher::nix::hash;
use nicacher::nix::hash::{HashMethod, HashParseError};
use nicacher::nix::nar_file::{nar_info_path_hash, NarFile, NarFileParseError};
use nicacher::nix::nar_info::{NarInfo, NarInfoParseError};
use nicacher::nix::store_path::{StorePath, StorePathParseError};

const SAMPLE: &str = "StorePath: /nix/store/abc123def-hello-2.12\nURL: nar/0f1e2d.nar.xz\nCompression: xz\nFileHash: sha256:0f1e2d\nFileSize: 1234\nNarHash: sha256:99aa\nNarSize: 5678\nDeriver: xyz789-hello-2.12.drv\nSystem: x86_64-linux\nReferences: abc123def-hello-2.12 q1w2-glibc-2.37\nSig: cache.nixos.org-1:c2lnbmF0dXJl\n";

#[test]
fn hash_bare_digest() {
    let h = hash::Hash::from_str("abc123").unwrap();
    assert!(h.method.is_none());
    assert_eq!(h.string, "abc123");
    assert_eq!(h.to_string(), "abc123");
}

#[test]
fn hash_with_method() {
    let h = hash::Hash::from_str("sha256:abc123").unwrap();
    assert_eq!(h.method.as_ref().unwrap().as_str(), "sha256");
    assert_eq!(h.string, "abc123");
    assert_eq!(h.to_string(), "sha256:abc123");
}

#[test]
fn hash_empty_method_counts_as_none() {
    let h = hash::Hash::from_str(":abc").unwrap();
    assert!(h.method.is_none());
    assert_eq!(h.string, "abc");
}

#[test]
fn hash_missing_digest() {
    assert_eq!(hash::Hash::from_str("sha256:").unwrap_err(), HashParseError::MissingHash);
}

#[test]
fn hash_non_alphanumeric() {
    assert_eq!(hash::Hash::from_str("ab-c").unwrap_err(), HashParseError::HashNonAlphanumeric);
    assert_eq!(hash::Hash::from_str("sha256:ab c").unwrap_err(), HashParseError::HashNonAlphanumeric);
    assert_eq!(hash::Hash::from_str("a:b:c").unwrap_err(), HashParseError::HashNonAlphanumeric);
}

#[test]
fn hash_unicode_letters_are_alphanumeric() {
    let h = hash::Hash::from_str("äöü٣").unwrap();
    assert_eq!(h.string, "äöü٣");
}

#[test]
fn hash_empty_text_is_empty_digest() {
    let h = hash::Hash::from_str("").unwrap();
    assert!(h.method.is_none());
    assert_eq!(h.string, "");
}

#[test]
fn hash_constructors() {
    let h = hash::Hash::from_hash("abc".to_string());
    assert!(h.method.is_none());
    let g = hash::Hash::from_method_hash("sha256".to_string(), "abc".to_string());
    assert_eq!(g.method.as_ref().unwrap().as_str(), HashMethod::Sha256().as_str());
    assert!(!h.same(&g));
    assert!(g.same(&g.clone()));
}

#[test]
fn hash_error_messages() {
    assert_eq!(HashParseError::MissingHash.message(), "Missing hash string");
    assert_eq!(
        HashParseError::HashNonAlphanumeric.message(),
        "Hash string contains non-alphanumeric characters"
    );
}

#[test]
fn derivation_splits_at_first_hyphen() {
    let d = Derivation::from_str("abc123-hello-world-1.0").unwrap();
    assert_eq!(d.hash.string, "abc123");
    assert_eq!(d.package, "hello-world-1.0");
    assert_eq!(d.name(), "abc123-hello-world-1.0");
    assert_eq!(d.to_string(), "abc123-hello-world-1.0");
}

#[test]
fn derivation_errors() {
    assert_eq!(Derivation::from_str("abc123").unwrap_err(), DerivationParseError::InvalidFormat);
    assert_eq!(
        Derivation::from_str("abc123-").unwrap_err(),
        DerivationParseError::MissingPackageName
    );
    assert_eq!(
        Derivation::from_str("ab.c-x").unwrap_err(),
        DerivationParseError::InvalidHash(HashParseError::HashNonAlphanumeric)
    );
    assert_eq!(
        Derivation::from_str("m:-x").unwrap_err(),
        DerivationParseError::InvalidHash(HashParseError::MissingHash)
    );
}

#[test]
fn derivation_error_messages() {
    assert_eq!(DerivationParseError::InvalidFormat.message(), "Invalid derivation name format");
    assert_eq!(DerivationParseError::MissingPackageName.message(), "Missing package name");
    assert_eq!(
        DerivationParseError::InvalidHash(HashParseError::MissingHash).message(),
        "Invalid hash: Missing hash string"
    );
    assert_eq!(
        DerivationParseError::InvalidHash(HashParseError::MissingHash).debug_text(),
        "InvalidHash(MissingHash)"
    );
}

#[test]
fn derivation_name_keeps_the_method() {
    let d = Derivation::from_str("sha256:abc-hello").unwrap();
    assert_eq!(d.hash.method.as_ref().unwrap().as_str(), "sha256");
    assert_eq!(d.name(), "sha256:abc-hello");
    assert_eq!(d.to_string(), "sha256:abc-hello");
    let e = Derivation::from_str(&d.name()).unwrap();
    assert!(e.hash.same(&d.hash));
    assert_eq!(e.package, d.package);
    let f = Derivation::from_str(":abc-hello").unwrap();
    assert!(f.hash.method.is_none());
    assert_eq!(f.name(), "abc-hello");
}

#[test]
fn store_path_plain() {
    let p = StorePath::from_str("/nix/store/abc123-hello").unwrap();
    assert_eq!(p.store_path_root, "/nix/store");
    assert_eq!(p.derivation.hash.string, "abc123");
    assert_eq!(p.derivation.package, "hello");
    assert_eq!(p.path(), "/nix/store/abc123-hello");
    assert_eq!(p.to_string(), "/nix/store/abc123-hello");
}

#[test]
fn store_path_agrees_with_the_operating_system() {
    let cases = [
        "/nix/store/abc123-hello",
        "/nix/store/abc123-hello/",
        "/nix/store/abc123-hello/.",
        "/nix/store//abc123-hello//",
        "/nix/store/./abc123-hello",
        "abc123-hello",
        "./abc123-hello",
        "/abc123-hello",
        "a/b/../abc-x",
        "store/abc-x/./.",
        ".hidden/abc-x",
        "..a/abc-x",
        "//abc-x",
    ];
    for case in cases {
        let path = std::path::Path::new(case);
        let root = path.parent().unwrap().to_str().unwrap().to_string();
        let name = path.file_name().unwrap().to_str().unwrap().to_string();
        let p = StorePath::from_str(case).unwrap();
        assert_eq!(p.store_path_root, root, "directory of {case}");
        assert_eq!(p.derivation.name(), name, "name of {case}");
        assert_eq!(p.path(), path.parent().unwrap().join(&name).to_str().unwrap(), "path of {case}");
    }
}

#[test]
fn store_path_without_last_component() {
    for case in ["/", "", ".", "..", "/nix/store/..", "./", "a/.."] {
        let path = std::path::Path::new(case);
        assert!(path.parent().is_none() || path.file_name().is_none());
        match StorePath::from_str(case) {
            Err(StorePathParseError::InvalidPath(p)) => assert_eq!(p, case),
            other => panic!("{case}: {other:?}"),
        }
    }
}

#[test]
fn store_path_invalid_derivation() {
    match StorePath::from_str("/nix/store/hello") {
        Err(StorePathParseError::InvalidDerivation(e)) => {
            assert_eq!(e, DerivationParseError::InvalidFormat)
        }
        other => panic!("{other:?}"),
    }
    let e = StorePath::from_str("/nix/store/hello").unwrap_err();
    assert_eq!(e.message(), "Invalid Derivation: InvalidFormat");
    let e = StorePath::from_str("/").unwrap_err();
    assert_eq!(e.message(), "Invalid Store Path: \"/\"");
}

#[test]
fn store_paths_are_the_same_by_their_full_path() {
    let a = StorePath::from_str("/nix/store/abc-hello").unwrap();
    let b = StorePath::from_str("/nix/store//abc-hello/").unwrap();
    let c = StorePath::from_str("/nix/store/abd-hello").unwrap();
    let t = StorePath::from_str("/nix/store/sha256:abc-hello").unwrap();
    assert!(a.same_path(&b));
    assert!(!a.same_path(&c));
    assert!(!a.same_path(&t));
    assert_eq!(t.path(), "/nix/store/sha256:abc-hello");
}

#[test]
fn compression_names() {
    assert_eq!(CompressionType::from_str("xz").unwrap(), CompressionType::Xz);
    assert_eq!(CompressionType::Xz.to_string(), "xz");
    let e = CompressionType::from_str("gzip").unwrap_err();
    assert_eq!(e.0, "gzip");
    assert_eq!(e.message(), "Unsupported compression type: \"gzip\"");
    assert!(CompressionType::from_str("XZ").is_err());
    assert!(CompressionType::from_str("").is_err());
}

#[test]
fn nar_info_parses_every_field() {
    let d = NarInfo::from_str(SAMPLE).unwrap();
    assert_eq!(d.store_path.path(), "/nix/store/abc123def-hello-2.12");
    assert_eq!(d.url, "nar/0f1e2d.nar.xz");
    assert_eq!(d.compression, CompressionType::Xz);
    assert_eq!(d.file_hash.to_string(), "sha256:0f1e2d");
    assert_eq!(d.file_size, 1234);
    assert_eq!(d.nar_hash.to_string(), "sha256:99aa");
    assert_eq!(d.nar_size, 5678);
    assert_eq!(d.deriver.as_deref(), Some("xyz789-hello-2.12.drv"));
    assert_eq!(d.system.as_deref(), Some("x86_64-linux"));
    assert_eq!(d.references.len(), 2);
    assert_eq!(d.references[0].name(), "abc123def-hello-2.12");
    assert_eq!(d.references[1].name(), "q1w2-glibc-2.37");
    assert_eq!(d.signature.as_deref(), Some("cache.nixos.org-1:c2lnbmF0dXJl"));
}

fn same_derivation(a: &Derivation, b: &Derivation) -> bool {
    a.package == b.package && a.hash.same(&b.hash)
}

fn same_nar_info(a: &NarInfo, b: &NarInfo) -> bool {
    a.store_path.store_path_root == b.store_path.store_path_root
        && same_derivation(&a.store_path.derivation, &b.store_path.derivation)
        && a.url == b.url
        && a.compression == b.compression
        && a.file_hash.same(&b.file_hash)
        && a.file_size == b.file_size
        && a.nar_hash.same(&b.nar_hash)
        && a.nar_size == b.nar_size
        && a.deriver == b.deriver
        && a.system == b.system
        && a.references.len() == b.references.len()
        && a.references.iter().zip(b.references.iter()).all(|(x, y)| same_derivation(x, y))
        && a.signature == b.signature
}

#[test]
fn nar_info_round_trip() {
    let d = NarInfo::from_str(SAMPLE).unwrap();
    let text = d.to_string();
    assert_eq!(text, SAMPLE);
    let e = NarInfo::from_str(&text).unwrap();
    assert_eq!(e.to_string(), text);
    assert!(same_nar_info(&d, &e));
}

#[test]
fn nar_info_round_trip_keeps_the_methods_of_references() {
    let text = "StorePath: /nix/store/abc123-hello\nURL: nar/def456.nar.xz\nCompression: xz\nFileHash: sha256:def456\nFileSize: 100\nNarHash: sha256:aaa111\nNarSize: 200\nReferences: sha256:abc123-hello\n";
    let d = NarInfo::from_str(text).unwrap();
    assert_eq!(d.to_string(), text);
    let d2 = NarInfo::from_str(&d.to_string()).unwrap();
    assert_eq!(d2.references.len(), 1);
    assert_eq!(d2.references[0].package, "hello");
    assert_eq!(d2.references[0].hash.string, "abc123");
    assert_eq!(d2.references[0].hash.method.as_ref().unwrap().as_str(), "sha256");
    assert!(d2.references[0].hash.same(&d.references[0].hash));
    assert!(same_nar_info(&d, &d2));
}

#[test]
fn nar_info_round_trip_of_odd_texts() {
    let texts = [
        "StorePath: /nix/store/md5:abc-x/.\nURL:\nCompression: xz\nFileHash: :f\nFileSize: +07\nNarHash: m:n\nNarSize: 0\nReferences:  :a-b   sha1:c-d-e  f-g\nDeriver:\nSig:  s : t \r\n",
        "References:\nNarSize: 2\nNarHash: n\nFileSize: 1\nFileHash: f\nCompression: xz\nURL: a b\nStorePath: ./x:abc-p q\nSystem: s\n",
        "StorePath: abc-x\n\nURL: u\nCompression: xz\nFileHash:\nFileSize: 1\nNarHash:\nNarSize: 2\nReferences: -x\n",
    ];
    for text in texts {
        let d = NarInfo::from_str(text).unwrap();
        let e = NarInfo::from_str(&d.to_string()).unwrap();
        assert!(same_nar_info(&d, &e), "{text:?}");
        assert_eq!(e.to_string(), d.to_string());
    }
}

#[test]
fn nar_info_store_path_that_ends_in_a_blank_is_not_read_back() {
    let text = "StorePath: /nix/store/abc-x /\nURL: u\nCompression: xz\nFileHash: f\nFileSize: 1\nNarHash: n\nNarSize: 2\nReferences:\n";
    let d = NarInfo::from_str(text).unwrap();
    assert_eq!(d.store_path.derivation.package, "x ");
    let e = NarInfo::from_str(&d.to_string()).unwrap();
    assert_eq!(e.store_path.derivation.package, "x");
}

#[test]
fn nar_info_without_optional_fields() {
    let text = "StorePath: /nix/store/abc-x\nURL: nar/f.nar.xz\nCompression: xz\nFileHash: f\nFileSize: 1\nNarHash: n\nNarSize: 2\nReferences:\n";
    let d = NarInfo::from_str(text).unwrap();
    assert!(d.deriver.is_none());
    assert!(d.system.is_none());
    assert!(d.signature.is_none());
    assert!(d.references.is_empty());
    assert_eq!(d.to_string(), "StorePath: /nix/store/abc-x\nURL: nar/f.nar.xz\nCompression: xz\nFileHash: f\nFileSize: 1\nNarHash: n\nNarSize: 2\nReferences:\n");
}

#[test]
fn nar_info_lenient_separators() {
    let text = "StorePath:/nix/store/abc-x\r\n  URL :  nar/f.nar.xz  \r\nCompression:xz\nFileHash: f\nFileSize: +7\nNarHash: n\nNarSize: 002\nReferences:   a-b   c-d  \nSig";
    match NarInfo::from_str(text) {
        Err(NarInfoParseError::InvalidEntryFormat(l)) => assert_eq!(l, "Sig"),
        other => panic!("{other:?}"),
    }
    let text = text.strip_suffix("\nSig").unwrap();
    let d = NarInfo::from_str(text).unwrap();
    assert_eq!(d.url, "nar/f.nar.xz");
    assert_eq!(d.file_size, 7);
    assert_eq!(d.nar_size, 2);
    assert_eq!(d.references.len(), 2);
    assert_eq!(d.references[1].name(), "c-d");
}

#[test]
fn nar_info_passes_over_empty_lines() {
    let text = "\nStorePath: /nix/store/abc-x\n\nURL: u\nCompression: xz\nFileHash: f\nFileSize: 1\nNarHash: n\nNarSize: 2\nReferences:\n\n";
    let d = NarInfo::from_str(text).unwrap();
    assert_eq!(d.url, "u");
}

#[test]
fn nar_info_later_line_overrides() {
    let text = "URL: first\nStorePath: /nix/store/abc-x\nURL: second\nCompression: xz\nFileHash: f\nFileSize: 1\nNarHash: n\nNarSize: 2\nReferences:\n";
    assert_eq!(NarInfo::from_str(text).unwrap().url, "second");
}

#[test]
fn nar_info_unknown_field() {
    match NarInfo::from_str("Colour: blue\n") {
        Err(NarInfoParseError::UnknownField(l)) => assert_eq!(l, "Colour: blue"),
        other => panic!("{other:?}"),
    }
    match NarInfo::from_str("url: x\n") {
        Err(NarInfoParseError::UnknownField(l)) => assert_eq!(l, "url: x"),
        other => panic!("{other:?}"),
    }
}

#[test]
fn nar_info_missing_fields_in_order() {
    let fields = [
        ("StorePath: /nix/store/abc-x\n", "store_path"),
        ("URL: u\n", "url"),
        ("Compression: xz\n", "compression"),
        ("FileHash: f\n", "file_hash"),
        ("FileSize: 1\n", "file_size"),
        ("NarHash: n\n", "nar_hash"),
        ("NarSize: 2\n", "nar_size"),
        ("References:\n", "references"),
    ];
    for skip in 0..fields.len() {
        let mut text = String::new();
        for (i, (line, _)) in fields.iter().enumerate() {
            if i != skip {
                text.push_str(line);
            }
        }
        match NarInfo::from_str(&text) {
            Err(NarInfoParseError::MissingField(f)) => assert_eq!(f, fields[skip].1),
            other => panic!("{other:?}"),
        }
    }
    match NarInfo::from_str("") {
        Err(NarInfoParseError::MissingField(f)) => assert_eq!(f, "store_path"),
        other => panic!("{other:?}"),
    }
}

#[test]
fn nar_info_invalid_values() {
    let cases = [
        ("StorePath: /\n", "StorePath", "Invalid Store Path: \"/\""),
        ("Compression: zip\n", "Compression", "Unsupported compression type: \"zip\""),
        ("FileHash: a b\n", "FileHash", "Hash string contains non-alphanumeric characters"),
        ("NarHash: sha256:\n", "NarHash", "Missing hash string"),
        ("FileSize: \n", "FileSize", "cannot parse integer from empty string"),
        ("FileSize: 12a\n", "FileSize", "invalid digit found in string"),
        ("FileSize: -1\n", "FileSize", "invalid digit found in string"),
        ("FileSize: +\n", "FileSize", "invalid digit found in string"),
        (
            "NarSize: 99999999999999999999999999\n",
            "NarSize",
            "number too large to fit in target type",
        ),
    ];
    for (text, key, reason) in cases {
        match NarInfo::from_str(text) {
            Err(NarInfoParseError::InvalidFieldValue(k, m)) => {
                assert_eq!(k, key);
                assert_eq!(m, reason);
            }
            other => panic!("{text}: {other:?}"),
        }
    }
}

#[test]
fn numbers_agree_with_the_standard_library() {
    for value in ["0", "7", "+7", "007", "18446744073709551615", "18446744073709551616", "1x", "", "+", "-", "--1", "+-1", "٣"] {
        let text = format!("FileSize: {value}\n");
        let expected = value.parse::<usize>();
        match NarInfo::from_str(&text) {
            Err(NarInfoParseError::InvalidFieldValue(_, m)) => {
                assert_eq!(m, expected.unwrap_err().to_string(), "{value}")
            }
            Err(NarInfoParseError::MissingField(_)) => assert!(expected.is_ok(), "{value}"),
            other => panic!("{value}: {other:?}"),
        }
    }
}

#[test]
fn nar_info_invalid_reference() {
    match NarInfo::from_str("References: abc-x nohyphen\n") {
        Err(NarInfoParseError::InvalidReference(e)) => {
            assert_eq!(e, DerivationParseError::InvalidFormat)
        }
        other => panic!("{other:?}"),
    }
}

#[test]
fn nar_info_error_messages() {
    assert_eq!(
        NarInfoParseError::MissingField("url".to_string()).message(),
        "Missing field: `url` must be initialized"
    );
    assert_eq!(
        NarInfoParseError::UnknownField("a: b".to_string()).message(),
        "Unknown field: \"a: b\""
    );
    assert_eq!(
        NarInfoParseError::InvalidEntryFormat("ab".to_string()).message(),
        "Invalid entry format: \"ab\""
    );
    assert_eq!(
        NarInfoParseError::InvalidFieldValue("URL".to_string(), "bad".to_string()).message(),
        "Invalid field value \"URL\": bad"
    );
    assert_eq!(
        NarInfoParseError::InvalidReference(DerivationParseError::InvalidFormat).message(),
        "Invalid valid reference: Invalid derivation name format"
    );
}

#[test]
fn nar_file_names() {
    let f = NarFile::from_str("0f1e2d.nar.xz").unwrap();
    assert_eq!(f.hash.string, "0f1e2d");
    assert_eq!(f.compression, CompressionType::Xz);
    assert_eq!(f.to_string(), "0f1e2d.nar.xz");
    match NarFile::from_str("0f1e2d.tar.xz") {
        Err(NarFileParseError::InvalidFormat(s)) => assert_eq!(s, "0f1e2d.tar.xz"),
        other => panic!("{other:?}"),
    }
    assert!(matches!(NarFile::from_str("0f1e2d"), Err(NarFileParseError::InvalidFormat(_))));
    assert!(matches!(NarFile::from_str("0f1e2d.nar"), Err(NarFileParseError::InvalidFormat(_))));
    match NarFile::from_str("0f1e2d.nar.xz.bak") {
        Err(NarFileParseError::InvalidCompression(s)) => assert_eq!(s, "xz.bak"),
        other => panic!("{other:?}"),
    }
    assert!(matches!(
        NarFile::from_str("0f-1e.nar.xz"),
        Err(NarFileParseError::InvalidHash(HashParseError::HashNonAlphanumeric))
    ));
}

#[test]
fn nar_info_path_names() {
    assert_eq!(nar_info_path_hash("abc123.narinfo").unwrap().string, "abc123");
    assert!(matches!(nar_info_path_hash("abc123"), Err(NarFileParseError::InvalidFormat(_))));
    assert!(matches!(
        nar_info_path_hash("abc123.narinfo.bak"),
        Err(NarFileParseError::InvalidFormat(_))
    ));
    assert!(matches!(
        nar_info_path_hash("a.b.narinfo"),
        Err(NarFileParseError::InvalidHash(HashParseError::HashNonAlphanumeric))
    ));
}
