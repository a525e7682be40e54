use nicacher::nix::store_path::{join, split, StorePath};
use nicacher::text::{
    char_is_space, chars_are, find_char, from_chars, parse_usize, rfind_char_end, take_line,
    take_word, to_chars, trim_chars, u64_to_string, usize_to_string, NumberError,
};

const TEXTS: [&str; 24] = [
    "",
    " ",
    "\n",
    "\r",
    "\r\n",
    "a",
    " a ",
    "a\n",
    "a\r\n",
    "a\rb\r\nc",
    "a\n\nb\n",
    "\na",
    "a\r",
    "a \u{a0}\u{2003}b\u{3000}",
    "\u{85}x\u{1680}",
    "\t tab\tbed \t",
    "one two  three   ",
    "  Key: value \r\n Other:x\n",
    "StorePath: /nix/store/abc-x\nURL: u\n",
    "\u{200b}zero width\u{200b}",
    "\u{180e}mongolian\u{180e}",
    "\u{feff}bom",
    "ends with cr\r\n\r\n",
    "é ü\tß\n\u{2028}x",
];

#[test]
fn white_space_agrees_with_the_standard_library() {
    for n in 0..=0x10ffffu32 {
        if let Some(c) = char::from_u32(n) {
            assert_eq!(char_is_space(c), c.is_whitespace(), "U+{n:04X}");
        }
    }
}

#[test]
fn no_white_space_is_alphanumeric() {
    for n in 0..=0x10ffffu32 {
        if let Some(c) = char::from_u32(n) {
            if c.is_whitespace() {
                assert!(!c.is_alphanumeric(), "U+{n:04X}");
            }
            if n < 0x80 {
                assert_eq!(c.is_alphanumeric(), c.is_ascii_alphanumeric(), "U+{n:04X}");
            }
        }
    }
}

#[test]
fn characters_and_strings() {
    for text in TEXTS {
        let cs = to_chars(text);
        assert_eq!(cs, text.chars().collect::<Vec<_>>());
        assert_eq!(from_chars(&cs), text);
        assert!(chars_are(&cs, text));
        assert!(!chars_are(&cs, &format!("{text}x")));
    }
    assert!(!chars_are(&to_chars("abc"), "abd"));
}

#[test]
fn trim_agrees_with_the_standard_library() {
    for text in TEXTS {
        let cs = to_chars(text);
        assert_eq!(from_chars(trim_chars(&cs)), text.trim(), "{text:?}");
    }
}

#[test]
fn lines_agree_with_the_standard_library() {
    for text in TEXTS {
        let cs = to_chars(text);
        let mut rest: &[char] = &cs;
        let mut lines = Vec::new();
        while !rest.is_empty() {
            let (line, tail) = take_line(rest);
            lines.push(from_chars(line));
            rest = tail;
        }
        assert_eq!(lines, text.lines().collect::<Vec<_>>(), "{text:?}");
    }
}

#[test]
fn first_line_of_an_empty_text_is_empty() {
    let (line, tail) = take_line(&[]);
    assert!(line.is_empty());
    assert!(tail.is_empty());
    let cs = to_chars("a\r\nb");
    let (line, tail) = take_line(&cs);
    assert_eq!(from_chars(line), "a");
    assert_eq!(from_chars(tail), "b");
}

#[test]
fn words_agree_with_the_standard_library() {
    for text in TEXTS {
        let cs = to_chars(text);
        let mut rest: &[char] = &cs;
        let mut words = Vec::new();
        while let Some((word, tail)) = take_word(rest) {
            words.push(from_chars(word));
            rest = tail;
        }
        assert_eq!(words, text.split_whitespace().collect::<Vec<_>>(), "{text:?}");
    }
}

#[test]
fn finding_characters() {
    for text in TEXTS {
        let cs = to_chars(text);
        for c in ['a', ':', '\n', ' ', 'é'] {
            let first = text.chars().position(|x| x == c).unwrap_or(cs.len());
            assert_eq!(find_char(&cs, c), first, "{text:?} {c:?}");
            let last = cs.iter().rposition(|x| *x == c).map(|i| i + 1).unwrap_or(0);
            assert_eq!(rfind_char_end(&cs, c), last, "{text:?} {c:?}");
        }
    }
}

#[test]
fn numbers_are_read_as_the_standard_library_reads_them() {
    let texts = [
        "0", "1", "9", "10", "007", "+0", "+15", "-0", "-1", "+", "-", "", " 1", "1 ", "1_000",
        "0x10", "12a", "a12", "++1", "18446744073709551615", "18446744073709551616",
        "99999999999999999999", "184467440737095516150", "1844674407370955161x", "٣", "１",
    ];
    for text in texts {
        let got = parse_usize(&to_chars(text));
        match text.parse::<usize>() {
            Ok(n) => assert_eq!(got, Ok(n), "{text:?}"),
            Err(e) => {
                let kind = match e.kind() {
                    std::num::IntErrorKind::Empty => NumberError::Empty,
                    std::num::IntErrorKind::InvalidDigit => NumberError::InvalidDigit,
                    std::num::IntErrorKind::PosOverflow => NumberError::TooLarge,
                    other => panic!("{other:?}"),
                };
                assert_eq!(got, Err(kind), "{text:?}");
            }
        }
    }
}

#[test]
fn numbers_are_written_in_decimal() {
    for n in [0u64, 1, 9, 10, 11, 99, 100, 101, 1234567890, u64::MAX - 1, u64::MAX] {
        assert_eq!(u64_to_string(n), n.to_string());
        assert_eq!(parse_usize(&to_chars(&u64_to_string(n))), Ok(n as usize));
    }
    assert_eq!(usize_to_string(usize::MAX), usize::MAX.to_string());
    assert_eq!(usize_to_string(4096), "4096");
}

#[test]
fn paths_are_split_as_the_operating_system_splits_them() {
    let parts = ["", "/", "//", ".", "..", "a", "a-b", ".a", "a.", "...", " ", "/.", "./", "/..", "x/"];
    let mut cases = Vec::new();
    for a in parts {
        for b in parts {
            for c in parts {
                cases.push(format!("{a}{b}{c}"));
            }
        }
    }
    for case in &cases {
        let path = std::path::Path::new(case);
        let expected = match (path.parent(), path.file_name()) {
            (Some(dir), Some(name)) => {
                Some((dir.to_str().unwrap().to_string(), name.to_str().unwrap().to_string()))
            }
            _ => None,
        };
        let cs = to_chars(case);
        let got = split(&cs).map(|(dir, name)| (from_chars(dir), from_chars(name)));
        assert_eq!(got, expected, "{case:?}");
    }
}

#[test]
fn paths_are_joined_as_the_operating_system_joins_them() {
    let parts = ["", "/", "a", "a/", "/a", "a/b", ".", "./", "..", "//", "a//", " "];
    for a in parts {
        for b in parts {
            let expected = std::path::Path::new(a).join(b);
            assert_eq!(join(a, b), expected.to_str().unwrap(), "{a:?} {b:?}");
        }
    }
}

#[test]
fn store_paths_compare_by_their_full_path() {
    let a = StorePath::from_str("/nix/store/abc-hello").unwrap();
    let b = StorePath::from_str("/nix/store/./abc-hello/").unwrap();
    let c = StorePath::from_str("/nix/store/abc-hellp").unwrap();
    assert!(a == b);
    assert!(a != c);
    assert!(a == a.clone());
    assert!(a.is_before(&c));
    assert!(!c.is_before(&a));
    assert!(!a.is_before(&b));
    let d = StorePath::from_str("/nix/store/abc-hello/x-y").unwrap();
    assert_eq!(a.is_before(&d), a.path() < d.path());
    assert_eq!(d.is_before(&c), d.path() < c.path());
}
