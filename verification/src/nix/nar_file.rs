//! The names of archives, `<digest>.nar.<compression>`, and of descriptors,
//! `<digest>.narinfo`, as requests carry them.

use crate::nix::compression::{
    compression_name, parse_compression, CompressionType, };
use crate::nix::hash;
use crate::nix::hash::{
    all_alphanumeric, lemma_parse_bare_digest, parse_hash, HashParseError, HashView,
};
use crate::text::{
    chars_are, find_char, find_from, is_alnum, lemma_find_from_is, rfind_char_end, rsplit_once,
    to_chars,
};
use vstd::prelude::*;
use vstd::slice::slice_subrange;
use vstd::string::StringExecFns;

verus! {

/// An archive, known by its hash and its compression.
#[derive(Debug)]
pub struct NarFile {
    pub hash: hash::Hash,
    pub compression: CompressionType,
}

/// What a `NarFile` stands for.
pub ghost struct NarFileView {
    pub hash: HashView,
    pub compression: CompressionType,
}

impl View for NarFile {
    type V = NarFileView;

    open spec fn view(&self) -> NarFileView {
        NarFileView { hash: self.hash@, compression: self.compression }
    }
}

/// Why a text names no archive or no descriptor.
#[derive(Debug)]
pub enum NarFileParseError {
    /// The text has not the parts that the name of an archive, or of a
    /// descriptor, has; it holds the text.
    InvalidFormat(String),
    /// The first part is no hash.
    InvalidHash(HashParseError),
    /// The last part names no compression; it holds that part.
    InvalidCompression(String),
}

/// What a `NarFileParseError` stands for.
pub ghost enum NarFileParseErrorView {
    InvalidFormat(Seq<char>),
    InvalidHash(HashParseError),
    InvalidCompression(Seq<char>),
}

impl View for NarFileParseError {
    type V = NarFileParseErrorView;

    open spec fn view(&self) -> NarFileParseErrorView {
        match self {
            NarFileParseError::InvalidFormat(s) => NarFileParseErrorView::InvalidFormat(s@),
            NarFileParseError::InvalidHash(e) => NarFileParseErrorView::InvalidHash(*e),
            NarFileParseError::InvalidCompression(s) => NarFileParseErrorView::InvalidCompression(
                s@,
            ),
        }
    }
}

/// The name of the file of an archive: the digest, `.nar.` and the
/// compression.
pub open spec fn nar_file_name(h: HashView, c: CompressionType) -> Seq<char> {
    h.string + ".nar."@ + compression_name(c)
}

/// The archive that a name stands for. The name is cut at its first two
/// dots: a hash, the word `nar`, and a compression.
pub open spec fn parse_nar_file(s: Seq<char>) -> Result<NarFileView, NarFileParseErrorView> {
    let i = find_from(s, '.', 0);
    let j = find_from(s, '.', i + 1);
    if i < s.len() && j < s.len() && s.subrange(i + 1, j) == "nar"@ {
        match parse_hash(s.subrange(0, i)) {
            Err(e) => Err(NarFileParseErrorView::InvalidHash(e)),
            Ok(h) => match parse_compression(s.subrange(j + 1, s.len() as int)) {
                Err(t) => Err(NarFileParseErrorView::InvalidCompression(t)),
                Ok(c) => Ok(NarFileView { hash: h, compression: c }),
            },
        }
    } else {
        Err(NarFileParseErrorView::InvalidFormat(s))
    }
}

/// The hash that the name of a descriptor stands for. The name is cut at
/// its last dot: a hash, and the word `narinfo`.
pub open spec fn parse_nar_info_path(s: Seq<char>) -> Result<HashView, NarFileParseErrorView> {
    match rsplit_once(s, '.') {
        Some((h, ending)) => if ending == "narinfo"@ {
            match parse_hash(h) {
                Err(e) => Err(NarFileParseErrorView::InvalidHash(e)),
                Ok(h) => Ok(h),
            }
        } else {
            Err(NarFileParseErrorView::InvalidFormat(s))
        },
        None => Err(NarFileParseErrorView::InvalidFormat(s)),
    }
}

impl NarFile {
    /// The name of the archive's file.
    pub fn to_string(&self) -> (r: String)
        ensures
            r@ == nar_file_name(self@.hash, self@.compression),
    {
        let mut out = self.hash.string.clone();
        out.append(".nar.");
        out.append(self.compression.to_string().as_str());
        out
    }

    /// Reads the name of an archive.
    pub fn from_str(s: &str) -> (r: Result<NarFile, NarFileParseError>)
        ensures
            match r {
                Ok(f) => parse_nar_file(s@) == Ok::<NarFileView, NarFileParseErrorView>(f@),
                Err(e) => parse_nar_file(s@) == Err::<NarFileView, NarFileParseErrorView>(e@),
            },
    {
        let v = to_chars(s);
        let cs = v.as_slice();
        let i = find_char(cs, '.');
        if i >= cs.len() {
            assert(find_from(cs@, '.', i + 1) == cs@.len());
            return Err(NarFileParseError::InvalidFormat(String::from_str(s)));
        }
        let rest = slice_subrange(cs, i + 1, cs.len());
        let k = find_char(rest, '.');
        proof {
            lemma_find_shifted(cs@, '.', i as int + 1, 0);
        }
        let j = i + 1 + k;
        if k >= rest.len() {
            return Err(NarFileParseError::InvalidFormat(String::from_str(s)));
        }
        assert(rest@.subrange(0, k as int) =~= cs@.subrange(i + 1, j as int));
        if !chars_are(slice_subrange(rest, 0, k), "nar") {
            return Err(NarFileParseError::InvalidFormat(String::from_str(s)));
        }
        let h = match hash::Hash::parse_chars(slice_subrange(cs, 0, i)) {
            Ok(h) => h,
            Err(e) => return Err(NarFileParseError::InvalidHash(e)),
        };
        assert(rest@.subrange(k + 1, rest@.len() as int) =~= cs@.subrange(
            j + 1,
            cs@.len() as int,
        ));
        match CompressionType::parse_chars(slice_subrange(rest, k + 1, rest.len())) {
            Ok(c) => Ok(NarFile { hash: h, compression: c }),
            Err(e) => Err(NarFileParseError::InvalidCompression(e.0)),
        }
    }
}

/// Searching in what follows index `k` finds the same place as searching
/// the whole from `k` on.
pub proof fn lemma_find_shifted(s: Seq<char>, c: char, k: int, i: int)
    requires
        0 <= k <= s.len(),
        0 <= i <= s.len() - k,
    ensures
        find_from(s.subrange(k, s.len() as int), c, i) + k == find_from(s, c, k + i),
    decreases s.len() - k - i,
{
    let t = s.subrange(k, s.len() as int);
    if i < t.len() {
        assert(t[i] == s[k + i]);
        if t[i] != c {
            lemma_find_shifted(s, c, k, i + 1);
        }
    }
}

/// Reads the hash from the name of a descriptor, `<hash>.narinfo`.
pub fn nar_info_path_hash(s: &str) -> (r: Result<hash::Hash, NarFileParseError>)
    ensures
        match r {
            Ok(h) => parse_nar_info_path(s@) == Ok::<HashView, NarFileParseErrorView>(h@),
            Err(e) => parse_nar_info_path(s@) == Err::<HashView, NarFileParseErrorView>(e@),
        },
{
    let v = to_chars(s);
    let cs = v.as_slice();
    let j = rfind_char_end(cs, '.');
    if j == 0 || !chars_are(slice_subrange(cs, j, cs.len()), "narinfo") {
        return Err(NarFileParseError::InvalidFormat(String::from_str(s)));
    }
    match hash::Hash::parse_chars(slice_subrange(cs, 0, j - 1)) {
        Ok(h) => Ok(h),
        Err(e) => Err(NarFileParseError::InvalidHash(e)),
    }
}

/// The name of an archive's file is read back as that archive: the digest
/// and the compression are the same, and the hash has no method, which
/// the name does not show.
pub proof fn lemma_nar_file_round_trip(h: HashView, c: CompressionType)
    requires
        all_alphanumeric(h.string),
    ensures
        parse_nar_file(nar_file_name(h, c)) == Ok::<NarFileView, NarFileParseErrorView>(
            NarFileView { hash: HashView { method: None, string: h.string }, compression: c },
        ),
{
    reveal_strlit(".nar.");
    reveal_strlit("nar");
    reveal_strlit("xz");
    let s = nar_file_name(h, c);
    let n = h.string.len() as int;
    assert(s.len() == n + 7);
    assert forall|j: int| 0 <= j < n implies s[j] != '.' by {
        assert(s[j] == h.string[j]);
        assert(is_alnum(h.string[j]));
    }
    assert(s[n] == '.');
    lemma_find_from_is(s, '.', 0, n);
    assert(s[n + 1] == 'n' && s[n + 2] == 'a' && s[n + 3] == 'r' && s[n + 4] == '.');
    lemma_find_from_is(s, '.', n + 1, n + 4);
    assert(s.subrange(n + 1, n + 4) =~= "nar"@);
    assert(s.subrange(0, n) =~= h.string);
    assert(s.subrange(n + 5, s.len() as int) =~= compression_name(c));
    lemma_parse_bare_digest(h.string);
}

} // verus!
