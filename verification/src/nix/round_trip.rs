//! What is written of a descriptor is read back as the same descriptor.

use crate::nix::compression::{compression_name, CompressionType};
use crate::nix::derivation::{
    derivation_name, lemma_derivation_round_trip, parse_derivation,
    DerivationParseError, DerivationView,
};
use crate::nix::hash::{hash_text, lemma_hash_round_trip, parse_hash, HashParseError, HashView};
use crate::nix::nar_info::{
    apply_line, empty_builder, field_line, nar_info_text, optional_line,
    parse_lines, parse_nar_info, parse_references, references_line, references_text,
    NarInfoBuilderView, NarInfoParseErrorView, NarInfoView,
};
use crate::nix::store_path::{
    lemma_store_path_round_trip, parse_store_path, StorePathParseErrorView, StorePathView,
};
use crate::text::{
    after_first_line, decimal, find_from, first_line, is_digit, is_plain, is_space,
    is_trimmed, lemma_decimal_digits, lemma_decimal_round_trip, lemma_find_from,
    lemma_find_from_is, lemma_find_space_is, lemma_first_line, lemma_first_line_no_line_feed,
    lemma_trim_after_space, lemma_trim_is_plain, lemma_trim_of_trimmed,
    lemma_words, no_line_feed, no_space, skip_spaces, split_once, trim, words,
};
use vstd::prelude::*;

verus! {

/// A key of the descriptor format as far as the reading of lines cares: not
/// empty, without colon or line feed, without white space at its ends.
pub open spec fn is_key(key: Seq<char>) -> bool {
    &&& key.len() > 0
    &&& is_plain(key)
    &&& forall|j: int| 0 <= j < key.len() ==> #[trigger] key[j] != ':'
}

/// The keys of the descriptor format are keys, and no two are the same.
pub proof fn lemma_keys()
    ensures
        is_key("StorePath"@),
        is_key("URL"@),
        is_key("Compression"@),
        is_key("FileHash"@),
        is_key("FileSize"@),
        is_key("NarHash"@),
        is_key("NarSize"@),
        is_key("Deriver"@),
        is_key("System"@),
        is_key("References"@),
        is_key("Sig"@),
        "URL"@ != "Sig"@,
        "FileHash"@ != "FileSize"@,
        "NarHash"@ != "NarSize"@,
        "NarHash"@ != "Deriver"@,
        "NarSize"@ != "Deriver"@,
        "StorePath"@.len() == 9,
        "URL"@.len() == 3,
        "Compression"@.len() == 11,
        "FileHash"@.len() == 8,
        "FileSize"@.len() == 8,
        "NarHash"@.len() == 7,
        "NarSize"@.len() == 7,
        "Deriver"@.len() == 7,
        "System"@.len() == 6,
        "References"@.len() == 10,
        "Sig"@.len() == 3,
{
    reveal_strlit("StorePath");
    reveal_strlit("URL");
    reveal_strlit("Compression");
    reveal_strlit("FileHash");
    reveal_strlit("FileSize");
    reveal_strlit("NarHash");
    reveal_strlit("NarSize");
    reveal_strlit("Deriver");
    reveal_strlit("System");
    reveal_strlit("References");
    reveal_strlit("Sig");
    assert("URL"@[0] != "Sig"@[0]);
    assert("FileHash"@[4] != "FileSize"@[4]);
    assert("NarHash"@[3] != "NarSize"@[3]);
    assert("NarHash"@[0] != "Deriver"@[0]);
    assert("NarSize"@[0] != "Deriver"@[0]);
}

/// A text that begins with a line goes the way of that line, then of the
/// rest.
pub proof fn lemma_parse_first_line(l: Seq<char>, rest: Seq<char>, b: NarInfoBuilderView)
    requires
        l.len() > 0,
        no_line_feed(l),
        l[l.len() - 1] != '\r',
    ensures
        parse_lines(l + seq!['\n'] + rest, b) == (match apply_line(b, l) {
            Err(e) => Err(e),
            Ok(next) => parse_lines(rest, next),
        }),
{
    lemma_first_line(l, rest);
}

/// A key, a colon, a blank and a plain value are split into that key and
/// that value.
pub proof fn lemma_key_value(key: Seq<char>, value: Seq<char>)
    requires
        is_key(key),
        is_trimmed(value),
    ensures
        ({
            let l = key + seq![':', ' '] + value;
            &&& split_once(l, ':') == Some((key, seq![' '] + value))
            &&& trim(key) == key
            &&& trim(seq![' '] + value) == value
        }),
{
    let l = key + seq![':', ' '] + value;
    assert forall|j: int| 0 <= j < key.len() implies l[j] != ':' by {
        assert(l[j] == key[j]);
    }
    lemma_find_from_is(l, ':', 0, key.len() as int);
    assert(l.subrange(0, key.len() as int) =~= key);
    assert(l.subrange(key.len() as int + 1, l.len() as int) =~= seq![' '] + value);
    lemma_trim_of_trimmed(key);
    lemma_trim_after_space(value);
}

/// The text of a field's line goes the way of `key: value`, then of the
/// rest.
pub proof fn lemma_field(b: NarInfoBuilderView, key: Seq<char>, value: Seq<char>, rest: Seq<char>)
    requires
        is_key(key),
        is_plain(value),
    ensures
        parse_lines(field_line(key, value) + rest, b) == (match apply_line(
            b,
            key + seq![':', ' '] + value,
        ) {
            Err(e) => Err(e),
            Ok(next) => parse_lines(rest, next),
        }),
{
    let l = key + seq![':', ' '] + value;
    assert(no_line_feed(l)) by {
        assert forall|j: int| 0 <= j < l.len() implies #[trigger] l[j] != '\n' by {
            if j < key.len() {
                assert(l[j] == key[j]);
            } else if j >= key.len() + 2 {
                assert(l[j] == value[j - key.len() - 2]);
            }
        }
    }
    assert(l[l.len() - 1] != '\r') by {
        if value.len() > 0 {
            assert(l[l.len() - 1] == value[value.len() - 1]);
        }
    }
    lemma_parse_first_line(l, rest, b);
    assert(field_line(key, value) + rest =~= l + seq!['\n'] + rest);
}

/// The names of a list of derivations.
pub open spec fn names_of(ds: Seq<DerivationView>) -> Seq<Seq<char>> {
    ds.map_values(|d: DerivationView| derivation_name(d))
}

/// The words of the text of the references are their names.
pub proof fn lemma_words_of_references(ds: Seq<DerivationView>)
    requires
        forall|i: int|
            0 <= i < ds.len() ==> derivation_name(#[trigger] ds[i]).len() > 0 && no_space(
                derivation_name(ds[i]),
            ),
    ensures
        words(references_text(ds)) == names_of(ds),
        no_line_feed(references_text(ds)),
        ds.len() > 0 ==> references_text(ds).len() > 0 && references_text(ds)[0] == ' '
            && !is_space(references_text(ds)[references_text(ds).len() - 1]),
        ds.len() == 0 ==> references_text(ds).len() == 0,
    decreases ds.len(),
{
    if ds.len() == 0 {
        assert(words(references_text(ds)) =~= names_of(ds));
    } else {
        let n = derivation_name(ds[0]);
        let tail = ds.drop_first();
        assert forall|i: int| 0 <= i < tail.len() implies derivation_name(
            #[trigger] tail[i],
        ).len() > 0 && no_space(derivation_name(tail[i])) by {
            assert(tail[i] == ds[i + 1]);
        }
        lemma_words_of_references(tail);
        let r = references_text(tail);
        let s = references_text(ds);
        assert(s == seq![' '] + n + r);
        let e = 1 + n.len() as int;
        assert(is_space(s[0]));
        assert(s[1] == n[0]);
        assert(!is_space(n[0]));
        assert(skip_spaces(s, 1) == 1);
        assert(skip_spaces(s, 0) == 1);
        assert forall|j: int| 1 <= j < e implies !is_space(s[j]) by {
            assert(s[j] == n[j - 1]);
        }
        if e < s.len() {
            assert(s[e] == r[0]);
        }
        lemma_find_space_is(s, 1, e);
        assert(s.subrange(1, e) =~= n);
        assert(s.subrange(e, s.len() as int) =~= r);
        assert(words(s) =~= seq![n] + words(r));
        assert(names_of(ds) =~= seq![n] + names_of(tail));
        assert forall|j: int| 0 <= j < s.len() implies #[trigger] s[j] != '\n' by {
            if 1 <= j < e {
                assert(s[j] == n[j - 1]);
            } else if j >= e {
                assert(s[j] == r[j - e]);
            }
        }
        if tail.len() == 0 {
            assert(s[s.len() - 1] == n[n.len() - 1]);
        } else {
            assert(s[s.len() - 1] == r[r.len() - 1]);
        }
    }
}

/// Derivations that were read from words are read back from their names.
pub proof fn lemma_references_round_trip(ds: Seq<DerivationView>)
    requires
        forall|i: int| 0 <= i < ds.len() ==> derivation_was_read(#[trigger] ds[i]),
    ensures
        parse_references(names_of(ds)) == Ok::<Seq<DerivationView>, DerivationParseError>(ds),
    decreases ds.len(),
{
    if ds.len() == 0 {
        assert(ds =~= Seq::<DerivationView>::empty());
    } else {
        let tail = ds.drop_first();
        assert forall|i: int| 0 <= i < tail.len() implies derivation_was_read(
            #[trigger] tail[i],
        ) by {
            assert(tail[i] == ds[i + 1]);
        }
        lemma_references_round_trip(tail);
        assert(derivation_was_read(ds[0]));
        let w = choose|w: Seq<char>| read_as_derivation(w, ds[0]);
        lemma_derivation_round_trip(w);
        assert(names_of(ds).drop_first() =~= names_of(tail));
        assert(names_of(ds)[0] == derivation_name(ds[0]));
        assert(ds =~= seq![ds[0]] + tail);
    }
}

/// `w` is a word that is read as the derivation `d`.
pub open spec fn read_as_derivation(w: Seq<char>, d: DerivationView) -> bool {
    w.len() > 0 && no_space(w) && parse_derivation(w) == Ok::<
        DerivationView,
        DerivationParseError,
    >(d)
}

/// Some word is read as the derivation `d`.
pub open spec fn derivation_was_read(d: DerivationView) -> bool {
    exists|w: Seq<char>| read_as_derivation(w, d)
}

/// Some plain text is read as the hash `h`.
pub open spec fn hash_was_read(h: HashView) -> bool {
    exists|v: Seq<char>| is_plain(v) && parse_hash(v) == Ok::<HashView, HashParseError>(h)
}

/// Some plain text is read as the store path `p`.
pub open spec fn store_path_was_read(p: StorePathView) -> bool {
    exists|v: Seq<char>|
        is_plain(v) && parse_store_path(v) == Ok::<StorePathView, StorePathParseErrorView>(p)
}

/// The text, if there is one, is plain.
pub open spec fn is_plain_if_set(o: Option<Seq<char>>) -> bool {
    match o {
        Some(v) => is_plain(v),
        None => true,
    }
}

/// Every field that is set is one that some line gives.
pub open spec fn builder_was_read(b: NarInfoBuilderView) -> bool {
    &&& b.store_path matches Some(p) ==> store_path_was_read(p)
    &&& is_plain_if_set(b.url)
    &&& b.file_hash matches Some(h) ==> hash_was_read(h)
    &&& b.nar_hash matches Some(h) ==> hash_was_read(h)
    &&& is_plain_if_set(b.deriver)
    &&& is_plain_if_set(b.system)
    &&& b.references matches Some(ds) ==> forall|i: int|
        0 <= i < ds.len() ==> derivation_was_read(#[trigger] ds[i])
    &&& is_plain_if_set(b.signature)
}

/// Every field of the descriptor is one that some line gives.
pub open spec fn was_read(d: NarInfoView) -> bool {
    &&& store_path_was_read(d.store_path)
    &&& is_plain(d.url)
    &&& hash_was_read(d.file_hash)
    &&& hash_was_read(d.nar_hash)
    &&& is_plain_if_set(d.deriver)
    &&& is_plain_if_set(d.system)
    &&& forall|i: int| 0 <= i < d.references.len() ==> derivation_was_read(#[trigger] d.references[i])
    &&& is_plain_if_set(d.signature)
}

/// What a list of words is read as holds, word for word, what each word is
/// read as.
pub proof fn lemma_parse_references(ws: Seq<Seq<char>>)
    requires
        parse_references(ws).is_ok(),
    ensures
        parse_references(ws).unwrap().len() == ws.len(),
        forall|i: int|
            0 <= i < ws.len() ==> parse_derivation(#[trigger] ws[i]) == Ok::<
                DerivationView,
                DerivationParseError,
            >(parse_references(ws).unwrap()[i]),
    decreases ws.len(),
{
    if ws.len() > 0 {
        let tail = ws.drop_first();
        lemma_parse_references(tail);
        let d = parse_derivation(ws[0]).unwrap();
        let ds = parse_references(tail).unwrap();
        assert(parse_references(ws).unwrap() == seq![d] + ds);
        assert forall|i: int| 0 <= i < ws.len() implies parse_derivation(#[trigger] ws[i]) == Ok::<
            DerivationView,
            DerivationParseError,
        >(parse_references(ws).unwrap()[i]) by {
            if i > 0 {
                assert(ws[i] == tail[i - 1]);
            }
        }
    }
}

/// A line that is read sets a field to what the line gives.
pub proof fn lemma_apply_line_was_read(b: NarInfoBuilderView, l: Seq<char>)
    requires
        builder_was_read(b),
        no_line_feed(l),
        apply_line(b, l).is_ok(),
    ensures
        builder_was_read(apply_line(b, l)->Ok_0),
{
    lemma_find_from(l, ':', 0);
    let i = find_from(l, ':', 0);
    let k = l.subrange(0, i);
    let v = l.subrange(i + 1, l.len() as int);
    assert(no_line_feed(v)) by {
        assert forall|j: int| 0 <= j < v.len() implies #[trigger] v[j] != '\n' by {
            assert(v[j] == l[i + 1 + j]);
        }
    }
    lemma_trim_is_plain(v);
    let key = trim(k);
    let value = trim(v);
    let next = apply_line(b, l)->Ok_0;
    lemma_keys();
    if key == "StorePath"@ {
        assert(store_path_was_read(next.store_path->0)) by {
            assert(is_plain(value) && parse_store_path(value) == Ok::<
                StorePathView,
                StorePathParseErrorView,
            >(next.store_path->0));
        }
    } else if key == "URL"@ {
    } else if key == "Compression"@ {
    } else if key == "FileHash"@ {
        assert(hash_was_read(next.file_hash->0)) by {
            assert(is_plain(value) && parse_hash(value) == Ok::<HashView, HashParseError>(
                next.file_hash->0,
            ));
        }
    } else if key == "FileSize"@ {
    } else if key == "NarHash"@ {
        assert(hash_was_read(next.nar_hash->0)) by {
            assert(is_plain(value) && parse_hash(value) == Ok::<HashView, HashParseError>(
                next.nar_hash->0,
            ));
        }
    } else if key == "NarSize"@ {
    } else if key == "Deriver"@ {
    } else if key == "System"@ {
    } else if key == "References"@ {
        let ws = words(v);
        lemma_words(v);
        lemma_parse_references(ws);
        let ds = next.references->0;
        assert forall|j: int| 0 <= j < ds.len() implies derivation_was_read(#[trigger] ds[j]) by {
            assert(read_as_derivation(ws[j], ds[j]));
        }
    } else if key == "Sig"@ {
    }
}

/// The lines of a text set the fields to what the lines give.
pub proof fn lemma_parse_lines_was_read(s: Seq<char>, b: NarInfoBuilderView)
    requires
        builder_was_read(b),
        parse_lines(s, b).is_ok(),
    ensures
        builder_was_read(parse_lines(s, b)->Ok_0),
    decreases s.len(),
{
    if s.len() > 0 {
        lemma_find_from(s, '\n', 0);
        let line = first_line(s);
        let rest = after_first_line(s);
        if line.len() == 0 {
            lemma_parse_lines_was_read(rest, b);
        } else {
            lemma_first_line_no_line_feed(s);
            lemma_apply_line_was_read(b, line);
            lemma_parse_lines_was_read(rest, apply_line(b, line)->Ok_0);
        }
    }
}

/// Every field of a descriptor that a text stands for is one that some
/// line of the text gives.
pub proof fn lemma_parsed_was_read(text: Seq<char>)
    requires
        parse_nar_info(text).is_ok(),
    ensures
        was_read(parse_nar_info(text)->Ok_0),
{
    lemma_parse_lines_was_read(text, empty_builder());
}

/// The path of the store path ends in no white space. A path read from
/// a line may: where a blank stands before a slash at its end.
pub open spec fn path_ends_plainly(d: NarInfoView) -> bool {
    let q = d.store_path.path();
    q.len() > 0 ==> !is_space(q[q.len() - 1])
}

/// The decimal text of a size is plain, and is read back as the size.
pub proof fn lemma_size_round_trip(key: Seq<char>, n: usize)
    ensures
        is_plain(decimal(n as nat)),
        crate::nix::nar_info::parse_size(key, decimal(n as nat)) == Ok::<
            usize,
            NarInfoParseErrorView,
        >(n),
{
    lemma_decimal_digits(n as nat);
    lemma_decimal_round_trip(n as nat, usize::MAX as int);
    let t = decimal(n as nat);
    assert(is_digit(t[0]));
    assert(is_digit(t[t.len() - 1]));
    assert forall|j: int| 0 <= j < t.len() implies #[trigger] t[j] != '\n' by {
        assert(is_digit(t[j]));
    }
}

/// The line of a field that may be missing sets the field, or leaves it
/// unset where the field is missing.
pub proof fn lemma_optional_field(
    b: NarInfoBuilderView,
    key: Seq<char>,
    value: Option<Seq<char>>,
    rest: Seq<char>,
)
    requires
        is_key(key),
        is_plain_if_set(value),
    ensures
        parse_lines(optional_line(key, value) + rest, b) == (match value {
            Some(v) => match apply_line(b, key + seq![':', ' '] + v) {
                Err(e) => Err(e),
                Ok(next) => parse_lines(rest, next),
            },
            None => parse_lines(rest, b),
        }),
{
    match value {
        Some(v) => {
            lemma_field(b, key, v, rest);
        },
        None => {
            assert(optional_line(key, value) + rest =~= rest);
        },
    }
}

/// The names of derivations that were read from words, a blank before
/// each, are read back as those derivations.
pub proof fn lemma_references_text_round_trip(ds: Seq<DerivationView>)
    requires
        forall|i: int| 0 <= i < ds.len() ==> derivation_was_read(#[trigger] ds[i]),
    ensures
        parse_references(words(references_text(ds))) == Ok::<
            Seq<DerivationView>,
            DerivationParseError,
        >(ds),
        no_line_feed(references_text(ds)),
        ds.len() > 0 ==> references_text(ds).len() > 0 && !is_space(
            references_text(ds)[references_text(ds).len() - 1],
        ),
        ds.len() == 0 ==> references_text(ds).len() == 0,
{
    assert forall|i: int| 0 <= i < ds.len() implies derivation_name(#[trigger] ds[i]).len() > 0
        && no_space(derivation_name(ds[i])) by {
        assert(derivation_was_read(ds[i]));
        let w = choose|w: Seq<char>| read_as_derivation(w, ds[i]);
        lemma_derivation_round_trip(w);
        let n = derivation_name(ds[i]);
        let off = w.len() - n.len();
        assert forall|j: int| 0 <= j < n.len() implies !is_space(#[trigger] n[j]) by {
            assert(n[j] == w[off + j]);
        }
    }
    lemma_words_of_references(ds);
    lemma_references_round_trip(ds);
}

/// The line of the references sets the references to what their names are
/// read as.
pub proof fn lemma_references_line(
    b: NarInfoBuilderView,
    ds: Seq<DerivationView>,
    rest: Seq<char>,
)
    requires
        forall|i: int| 0 <= i < ds.len() ==> derivation_was_read(#[trigger] ds[i]),
    ensures
        parse_lines(references_line(ds) + rest, b) == parse_lines(
            rest,
            NarInfoBuilderView { references: Some(ds), ..b },
        ),
{
    lemma_keys();
    reveal_strlit("References");
    reveal_strlit("References:");
    let key = "References"@;
    assert("References:"@ =~= key + seq![':']);
    let r = references_text(ds);
    lemma_references_text_round_trip(ds);
    let l = key + seq![':'] + r;
    assert forall|j: int| 0 <= j < key.len() implies l[j] != ':' by {
        assert(l[j] == key[j]);
    }
    lemma_find_from_is(l, ':', 0, key.len() as int);
    assert(l.subrange(0, key.len() as int) =~= key);
    assert(l.subrange(key.len() as int + 1, l.len() as int) =~= r);
    lemma_trim_of_trimmed(key);
    assert(no_line_feed(l)) by {
        assert forall|j: int| 0 <= j < l.len() implies #[trigger] l[j] != '\n' by {
            if j < key.len() {
                assert(l[j] == key[j]);
            } else if j > key.len() {
                assert(l[j] == r[j - key.len() - 1]);
            }
        }
    }
    assert(l[l.len() - 1] != '\r') by {
        if r.len() > 0 {
            assert(l[l.len() - 1] == r[r.len() - 1]);
        }
    }
    lemma_parse_first_line(l, rest, b);
    assert(references_line(ds) + rest =~= l + seq!['\n'] + rest);
    assert(apply_line(b, l) == Ok::<NarInfoBuilderView, NarInfoParseErrorView>(
        NarInfoBuilderView { references: Some(ds), ..b },
    ));
}

/// The line of the store path sets the store path.
pub proof fn lemma_line_store_path(
    b: NarInfoBuilderView,
    v: Seq<char>,
    p: StorePathView,
    rest: Seq<char>,
)
    requires
        is_plain(v),
        parse_store_path(v) == Ok::<StorePathView, StorePathParseErrorView>(p),
    ensures
        parse_lines(field_line("StorePath"@, v) + rest, b) == parse_lines(
            rest,
            NarInfoBuilderView { store_path: Some(p), ..b },
        ),
{
    lemma_keys();
    lemma_field(b, "StorePath"@, v, rest);
    lemma_key_value("StorePath"@, v);
}

/// The line of the address sets the address.
pub proof fn lemma_line_url(b: NarInfoBuilderView, v: Seq<char>, rest: Seq<char>)
    requires
        is_plain(v),
    ensures
        parse_lines(field_line("URL"@, v) + rest, b) == parse_lines(
            rest,
            NarInfoBuilderView { url: Some(v), ..b },
        ),
{
    lemma_keys();
    lemma_field(b, "URL"@, v, rest);
    lemma_key_value("URL"@, v);
}

/// The line of the compression sets the compression.
pub proof fn lemma_line_compression(b: NarInfoBuilderView, c: CompressionType, rest: Seq<char>)
    ensures
        parse_lines(field_line("Compression"@, compression_name(c)) + rest, b) == parse_lines(
            rest,
            NarInfoBuilderView { compression: Some(c), ..b },
        ),
{
    lemma_keys();
    let v = compression_name(c);
    assert(is_plain(v)) by {
        reveal_strlit("xz");
    }
    lemma_field(b, "Compression"@, v, rest);
    lemma_key_value("Compression"@, v);
}

/// The line of the archive's hash sets that hash.
pub proof fn lemma_line_file_hash(b: NarInfoBuilderView, h: HashView, rest: Seq<char>)
    requires
        hash_was_read(h),
    ensures
        parse_lines(field_line("FileHash"@, hash_text(h)) + rest, b) == parse_lines(
            rest,
            NarInfoBuilderView { file_hash: Some(h), ..b },
        ),
{
    lemma_keys();
    let w = choose|v: Seq<char>| is_plain(v) && parse_hash(v) == Ok::<HashView, HashParseError>(h);
    lemma_hash_round_trip(w);
    lemma_field(b, "FileHash"@, hash_text(h), rest);
    lemma_key_value("FileHash"@, hash_text(h));
}

/// The line of the archive's size sets that size.
pub proof fn lemma_line_file_size(b: NarInfoBuilderView, n: usize, rest: Seq<char>)
    ensures
        parse_lines(field_line("FileSize"@, decimal(n as nat)) + rest, b) == parse_lines(
            rest,
            NarInfoBuilderView { file_size: Some(n), ..b },
        ),
{
    lemma_keys();
    lemma_size_round_trip("FileSize"@, n);
    lemma_field(b, "FileSize"@, decimal(n as nat), rest);
    lemma_key_value("FileSize"@, decimal(n as nat));
}

/// The line of the content's hash sets that hash.
pub proof fn lemma_line_nar_hash(b: NarInfoBuilderView, h: HashView, rest: Seq<char>)
    requires
        hash_was_read(h),
    ensures
        parse_lines(field_line("NarHash"@, hash_text(h)) + rest, b) == parse_lines(
            rest,
            NarInfoBuilderView { nar_hash: Some(h), ..b },
        ),
{
    lemma_keys();
    let w = choose|v: Seq<char>| is_plain(v) && parse_hash(v) == Ok::<HashView, HashParseError>(h);
    lemma_hash_round_trip(w);
    lemma_field(b, "NarHash"@, hash_text(h), rest);
    lemma_key_value("NarHash"@, hash_text(h));
}

/// The line of the content's size sets that size.
pub proof fn lemma_line_nar_size(b: NarInfoBuilderView, n: usize, rest: Seq<char>)
    ensures
        parse_lines(field_line("NarSize"@, decimal(n as nat)) + rest, b) == parse_lines(
            rest,
            NarInfoBuilderView { nar_size: Some(n), ..b },
        ),
{
    lemma_keys();
    lemma_size_round_trip("NarSize"@, n);
    lemma_field(b, "NarSize"@, decimal(n as nat), rest);
    lemma_key_value("NarSize"@, decimal(n as nat));
}

/// The line of the deriver, where there is one, sets the deriver.
pub proof fn lemma_line_deriver(b: NarInfoBuilderView, v: Option<Seq<char>>, rest: Seq<char>)
    requires
        is_plain_if_set(v),
        b.deriver.is_none(),
    ensures
        parse_lines(optional_line("Deriver"@, v) + rest, b) == parse_lines(
            rest,
            NarInfoBuilderView { deriver: v, ..b },
        ),
{
    lemma_keys();
    lemma_optional_field(b, "Deriver"@, v, rest);
    if v.is_some() {
        lemma_key_value("Deriver"@, v.unwrap());
    }
}

/// The line of the system, where there is one, sets the system.
pub proof fn lemma_line_system(b: NarInfoBuilderView, v: Option<Seq<char>>, rest: Seq<char>)
    requires
        is_plain_if_set(v),
        b.system.is_none(),
    ensures
        parse_lines(optional_line("System"@, v) + rest, b) == parse_lines(
            rest,
            NarInfoBuilderView { system: v, ..b },
        ),
{
    lemma_keys();
    lemma_optional_field(b, "System"@, v, rest);
    if v.is_some() {
        lemma_key_value("System"@, v.unwrap());
    }
}

/// The line of the signature, where there is one, sets the signature.
pub proof fn lemma_line_signature(b: NarInfoBuilderView, v: Option<Seq<char>>, rest: Seq<char>)
    requires
        is_plain_if_set(v),
        b.signature.is_none(),
    ensures
        parse_lines(optional_line("Sig"@, v) + rest, b) == parse_lines(
            rest,
            NarInfoBuilderView { signature: v, ..b },
        ),
{
    lemma_keys();
    lemma_optional_field(b, "Sig"@, v, rest);
    if v.is_some() {
        lemma_key_value("Sig"@, v.unwrap());
    }
}

/// The lines of a descriptor from the references on.
pub open spec fn text_from_references(d: NarInfoView) -> Seq<char> {
    references_line(d.references) + optional_line("Sig"@, d.signature)
}

/// The lines of a descriptor from the content's hash on.
pub open spec fn text_from_nar_hash(d: NarInfoView) -> Seq<char> {
    field_line("NarHash"@, hash_text(d.nar_hash)) + (field_line(
        "NarSize"@,
        decimal(d.nar_size as nat),
    ) + (optional_line("Deriver"@, d.deriver) + (optional_line("System"@, d.system)
        + text_from_references(d))))
}

/// The lines of a descriptor, each put before all that follow it.
pub open spec fn text_by_lines(d: NarInfoView) -> Seq<char> {
    field_line("StorePath"@, d.store_path.path()) + (field_line("URL"@, d.url) + (field_line(
        "Compression"@,
        compression_name(d.compression),
    ) + (field_line("FileHash"@, hash_text(d.file_hash)) + (field_line(
        "FileSize"@,
        decimal(d.file_size as nat),
    ) + text_from_nar_hash(d)))))
}

/// Three texts in a row are the same however they are put together.
pub proof fn lemma_concat_assoc(a: Seq<char>, b: Seq<char>, c: Seq<char>)
    ensures
        (a + b) + c == a + (b + c),
{
    assert((a + b) + c =~= a + (b + c));
}

/// The text of a descriptor is its lines, one after the other.
pub proof fn lemma_text_by_lines(d: NarInfoView)
    ensures
        nar_info_text(d) == text_by_lines(d),
{
    let l1 = field_line("StorePath"@, d.store_path.path());
    let l2 = field_line("URL"@, d.url);
    let l3 = field_line("Compression"@, compression_name(d.compression));
    let l4 = field_line("FileHash"@, hash_text(d.file_hash));
    let l5 = field_line("FileSize"@, decimal(d.file_size as nat));
    let l6 = field_line("NarHash"@, hash_text(d.nar_hash));
    let l7 = field_line("NarSize"@, decimal(d.nar_size as nat));
    let l8 = optional_line("Deriver"@, d.deriver);
    let l9 = optional_line("System"@, d.system);
    let l10 = references_line(d.references);
    let l11 = optional_line("Sig"@, d.signature);
    let s2 = l1 + l2;
    let s3 = s2 + l3;
    let s4 = s3 + l4;
    let s5 = s4 + l5;
    let s6 = s5 + l6;
    let s7 = s6 + l7;
    let s8 = s7 + l8;
    let s9 = s8 + l9;
    let s10 = s9 + l10;
    let t10 = l10 + l11;
    let t9 = l9 + t10;
    let t8 = l8 + t9;
    let t7 = l7 + t8;
    let t6 = l6 + t7;
    let t5 = l5 + t6;
    let t4 = l4 + t5;
    let t3 = l3 + t4;
    let t2 = l2 + t3;
    assert(nar_info_text(d) == s10 + l11);
    lemma_concat_assoc(s9, l10, l11);
    lemma_concat_assoc(s8, l9, t10);
    lemma_concat_assoc(s7, l8, t9);
    lemma_concat_assoc(s6, l7, t8);
    lemma_concat_assoc(s5, l6, t7);
    lemma_concat_assoc(s4, l5, t6);
    lemma_concat_assoc(s3, l4, t5);
    lemma_concat_assoc(s2, l3, t4);
    lemma_concat_assoc(l1, l2, t3);
}

/// The lines from the content's hash on set the fields that they name.
pub proof fn lemma_read_from_nar_hash(b: NarInfoBuilderView, d: NarInfoView)
    requires
        was_read(d),
        b.deriver.is_none(),
        b.system.is_none(),
        b.signature.is_none(),
    ensures
        parse_lines(text_from_nar_hash(d), b) == Ok::<NarInfoBuilderView, NarInfoParseErrorView>(
            NarInfoBuilderView {
                nar_hash: Some(d.nar_hash),
                nar_size: Some(d.nar_size),
                deriver: d.deriver,
                system: d.system,
                references: Some(d.references),
                signature: d.signature,
                ..b
            },
        ),
{
    let t11 = optional_line("Sig"@, d.signature);
    let t10 = references_line(d.references) + t11;
    let t9 = optional_line("System"@, d.system) + t10;
    let t8 = optional_line("Deriver"@, d.deriver) + t9;
    let t7 = field_line("NarSize"@, decimal(d.nar_size as nat)) + t8;
    let b6 = NarInfoBuilderView { nar_hash: Some(d.nar_hash), ..b };
    let b7 = NarInfoBuilderView { nar_size: Some(d.nar_size), ..b6 };
    let b8 = NarInfoBuilderView { deriver: d.deriver, ..b7 };
    let b9 = NarInfoBuilderView { system: d.system, ..b8 };
    let b10 = NarInfoBuilderView { references: Some(d.references), ..b9 };
    let b11 = NarInfoBuilderView { signature: d.signature, ..b10 };
    lemma_line_nar_hash(b, d.nar_hash, t7);
    lemma_line_nar_size(b6, d.nar_size, t8);
    lemma_line_deriver(b7, d.deriver, t9);
    lemma_line_system(b8, d.system, t10);
    lemma_references_line(b9, d.references, t11);
    lemma_line_signature(b10, d.signature, Seq::<char>::empty());
    assert(t11 + Seq::<char>::empty() =~= t11);
    assert(parse_lines(Seq::<char>::empty(), b11) == Ok::<
        NarInfoBuilderView,
        NarInfoParseErrorView,
    >(b11));
}

/// The text of a descriptor whose fields were read from lines is read as
/// that descriptor.
pub proof fn lemma_written_is_read(d: NarInfoView)
    requires
        was_read(d),
        path_ends_plainly(d),
    ensures
        parse_nar_info(nar_info_text(d)) == Ok::<NarInfoView, NarInfoParseErrorView>(d),
{
    let pv = choose|v: Seq<char>|
        is_plain(v) && parse_store_path(v) == Ok::<StorePathView, StorePathParseErrorView>(
            d.store_path,
        );
    lemma_store_path_round_trip(pv);
    let v1 = d.store_path.path();
    assert(is_plain(v1));
    lemma_text_by_lines(d);
    let t6 = text_from_nar_hash(d);
    let t5 = field_line("FileSize"@, decimal(d.file_size as nat)) + t6;
    let t4 = field_line("FileHash"@, hash_text(d.file_hash)) + t5;
    let t3 = field_line("Compression"@, compression_name(d.compression)) + t4;
    let t2 = field_line("URL"@, d.url) + t3;
    let b0 = empty_builder();
    let b1 = NarInfoBuilderView { store_path: Some(d.store_path), ..b0 };
    let b2 = NarInfoBuilderView { url: Some(d.url), ..b1 };
    let b3 = NarInfoBuilderView { compression: Some(d.compression), ..b2 };
    let b4 = NarInfoBuilderView { file_hash: Some(d.file_hash), ..b3 };
    let b5 = NarInfoBuilderView { file_size: Some(d.file_size), ..b4 };
    lemma_line_store_path(b0, v1, d.store_path, t2);
    lemma_line_url(b1, d.url, t3);
    lemma_line_compression(b2, d.compression, t4);
    lemma_line_file_hash(b3, d.file_hash, t5);
    lemma_line_file_size(b4, d.file_size, t6);
    lemma_read_from_nar_hash(b5, d);
}

/// Writing a descriptor that was read from a text and reading it again
/// gives the same descriptor, in every field. One kind of descriptor is
/// left out, which no line can carry: one whose store path ends in white
/// space, which the reading of a line drops from the end of a value.
pub proof fn lemma_descriptor_round_trip(text: Seq<char>)
    requires
        parse_nar_info(text).is_ok(),
        path_ends_plainly(parse_nar_info(text)->Ok_0),
    ensures
        parse_nar_info(nar_info_text(parse_nar_info(text)->Ok_0)) == parse_nar_info(text),
{
    lemma_parsed_was_read(text);
    lemma_written_is_read(parse_nar_info(text)->Ok_0);
}

} // verus!
