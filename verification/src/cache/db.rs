//! What the index holds: the state of each artifact, and the rows of the
//! descriptors.

use crate::nix::compression::{
    compression_name, parse_compression, CompressionType, CompressionTypeParseError,
};
use crate::nix::hash;
use crate::nix::hash::{lemma_hash_round_trip, parse_hash, HashParseError, HashView};
use crate::nix::nar_file::nar_file_name;
use crate::nix::nar_info::{
    derivations_of, parse_references, read_references, references_text, text_of, NarInfo,
    NarInfoParseError, NarInfoParseErrorView, NarInfoView, lemma_references_text_push,
};
use crate::nix::round_trip::{lemma_references_text_round_trip, was_read};
use crate::nix::store_path::{
    lemma_store_path_round_trip, parse_store_path, StorePath, StorePathParseErrorView,
    StorePathView,
};
use crate::text::{to_chars, words};
use vstd::prelude::*;
use vstd::string::StringExecFns;

verus! {

/// The state of an artifact in the cache.
#[derive(Clone, Copy, Debug, PartialEq, Eq, Structural)]
pub enum Status {
    /// Known, and not to be served.
    NotAvailable,
    /// A worker is fetching it.
    Fetching,
    /// Descriptor and archive are here.
    Available,
    /// A worker is removing it.
    Purging,
}

impl Default for Status {
    fn default() -> (r: Self)
        ensures
            r == Status::NotAvailable,
    {
        Status::NotAvailable
    }
}

impl Status {
    /// The number under which the index keeps the state.
    pub open spec fn number(self) -> i64 {
        match self {
            Status::NotAvailable => 0,
            Status::Fetching => 1,
            Status::Available => 2,
            Status::Purging => 3,
        }
    }

    /// The state that the index means by a number: a number that names no
    /// state counts as `NotAvailable`.
    pub open spec fn of_number(n: i64) -> Status {
        if n == 1 {
            Status::Fetching
        } else if n == 2 {
            Status::Available
        } else if n == 3 {
            Status::Purging
        } else {
            Status::NotAvailable
        }
    }

    /// The number under which the index keeps the state.
    pub fn to_i64(self) -> (n: i64)
        ensures
            n == self.number(),
            Status::of_number(n) == self,
    {
        match self {
            Status::NotAvailable => 0,
            Status::Fetching => 1,
            Status::Available => 2,
            Status::Purging => 3,
        }
    }

    /// The state that the index means by `n`.
    pub fn from_i64(n: i64) -> (s: Status)
        ensures
            s == Status::of_number(n),
    {
        if n == 1 {
            Status::Fetching
        } else if n == 2 {
            Status::Available
        } else if n == 3 {
            Status::Purging
        } else {
            Status::NotAvailable
        }
    }
}

/// What the index holds of the life of one artifact. Times are seconds
/// since the start of 1970.
#[derive(Clone, Copy, Debug, PartialEq, Eq, Structural)]
pub struct Entry {
    pub status: Status,
    pub last_cached: i64,
    pub last_accessed: Option<i64>,
}

/// The row of a descriptor in the index.
#[derive(Debug)]
pub struct NarInfoEntry {
    pub hash: String,
    pub store_path: String,
    pub compression: String,
    pub file_hash_method: String,
    pub file_hash: String,
    pub file_size: i64,
    pub nar_hash_method: String,
    pub nar_hash: String,
    pub nar_size: i64,
    pub deriver: Option<String>,
    pub system: Option<String>,
    pub refs: String,
    pub signature: Option<String>,
}

/// What a `NarInfoEntry` stands for.
pub ghost struct NarInfoEntryView {
    pub hash: Seq<char>,
    pub store_path: Seq<char>,
    pub compression: Seq<char>,
    pub file_hash_method: Seq<char>,
    pub file_hash: Seq<char>,
    pub file_size: i64,
    pub nar_hash_method: Seq<char>,
    pub nar_hash: Seq<char>,
    pub nar_size: i64,
    pub deriver: Option<Seq<char>>,
    pub system: Option<Seq<char>>,
    pub refs: Seq<char>,
    pub signature: Option<Seq<char>>,
}

impl View for NarInfoEntry {
    type V = NarInfoEntryView;

    open spec fn view(&self) -> NarInfoEntryView {
        NarInfoEntryView {
            hash: self.hash@,
            store_path: self.store_path@,
            compression: self.compression@,
            file_hash_method: self.file_hash_method@,
            file_hash: self.file_hash@,
            file_size: self.file_size,
            nar_hash_method: self.nar_hash_method@,
            nar_hash: self.nar_hash@,
            nar_size: self.nar_size,
            deriver: text_of(self.deriver),
            system: text_of(self.system),
            refs: self.refs@,
            signature: text_of(self.signature),
        }
    }
}

/// The name of a hash's method as a row holds it: empty where the hash has
/// none.
pub open spec fn method_column(h: HashView) -> Seq<char> {
    match h.method {
        Some(m) => m,
        None => Seq::empty(),
    }
}

/// The row that holds the descriptor `d` of the artifact with the digest
/// `digest`. Sizes are kept as the signed numbers with the same bits; the
/// references as their names, a blank before each.
pub open spec fn row_of(digest: Seq<char>, d: NarInfoView) -> NarInfoEntryView {
    NarInfoEntryView {
        hash: digest,
        store_path: d.store_path.path(),
        compression: compression_name(d.compression),
        file_hash_method: method_column(d.file_hash),
        file_hash: d.file_hash.string,
        file_size: d.file_size as i64,
        nar_hash_method: method_column(d.nar_hash),
        nar_hash: d.nar_hash.string,
        nar_size: d.nar_size as i64,
        deriver: d.deriver,
        system: d.system,
        refs: references_text(d.references),
        signature: d.signature,
    }
}

/// The hash that a row holds in two columns: an empty method column
/// stands for a hash without a method.
pub open spec fn hash_of_columns(method: Seq<char>, digest: Seq<char>) -> HashView {
    if method.len() == 0 {
        HashView { method: None, string: digest }
    } else {
        HashView { method: Some(method), string: digest }
    }
}

/// The descriptor that a row holds. Its address is made from the hash of
/// the archive and the compression; the compression is read first, then
/// the store path, then the references.
pub open spec fn descriptor_of(row: NarInfoEntryView) -> Result<
    NarInfoView,
    NarInfoParseErrorView,
> {
    let file_hash = hash_of_columns(row.file_hash_method, row.file_hash);
    match parse_compression(row.compression) {
        Err(t) => Err(
            NarInfoParseErrorView::InvalidFieldValue(
                "Compression"@,
                CompressionTypeParseError::message_spec(t),
            ),
        ),
        Ok(c) => match parse_store_path(row.store_path) {
            Err(e) => Err(
                NarInfoParseErrorView::InvalidFieldValue("StorePath"@, e.message_spec()),
            ),
            Ok(p) => match parse_references(words(row.refs)) {
                Err(e) => Err(NarInfoParseErrorView::InvalidReference(e)),
                Ok(ds) => Ok(
                    NarInfoView {
                        store_path: p,
                        url: "nar/"@ + nar_file_name(file_hash, c),
                        compression: c,
                        file_hash,
                        file_size: row.file_size as usize,
                        nar_hash: hash_of_columns(row.nar_hash_method, row.nar_hash),
                        nar_size: row.nar_size as usize,
                        deriver: row.deriver,
                        system: row.system,
                        references: ds,
                        signature: row.signature,
                    },
                ),
            },
        },
    }
}

/// A copy of an optional text.
pub fn clone_text(o: &Option<String>) -> (r: Option<String>)
    ensures
        text_of(r) == text_of(*o),
{
    match o {
        Some(s) => Some(s.clone()),
        None => None,
    }
}

/// The hash that a row holds in the two columns `method` and `digest`.
pub fn hash_from_columns(method: String, digest: String) -> (r: hash::Hash)
    ensures
        r@ == hash_of_columns(method@, digest@),
{
    if method.as_str().is_empty() {
        hash::Hash::from_hash(digest)
    } else {
        hash::Hash::from_method_hash(method, digest)
    }
}

/// The name of a hash's method as a row holds it.
fn method_text(h: &hash::Hash) -> (r: String)
    ensures
        r@ == method_column(h@),
{
    match &h.method {
        Some(m) => m.to_string(),
        None => String::new(),
    }
}

impl NarInfoEntry {
    /// The row for the descriptor `nar_info` of the artifact `hash`.
    pub fn from_nar_info(hash: &hash::Hash, nar_info: &NarInfo) -> (r: Self)
        ensures
            r@ == row_of(hash@.string, nar_info@),
    {
        let mut refs = String::new();
        let mut i: usize = 0;
        while i < nar_info.references.len()
            invariant
                i <= nar_info.references.len(),
                refs@ == references_text(derivations_of(nar_info.references@).take(i as int)),
            decreases nar_info.references.len() - i,
        {
            let ghost ds = derivations_of(nar_info.references@);
            refs.append(" ");
            refs.append(nar_info.references[i].to_string().as_str());
            proof {
                reveal_strlit(" ");
                assert(" "@ =~= seq![' ']);
                lemma_references_text_push(ds.take(i as int), ds[i as int]);
                assert(ds.take(i + 1) =~= ds.take(i as int).push(ds[i as int]));
            }
            i += 1;
        }
        proof {
            let ds = derivations_of(nar_info.references@);
            assert(ds.take(i as int) =~= ds);
        }
        NarInfoEntry {
            hash: hash.string.clone(),
            store_path: nar_info.store_path.path(),
            compression: nar_info.compression.to_string(),
            file_hash_method: method_text(&nar_info.file_hash),
            file_hash: nar_info.file_hash.string.clone(),
            file_size: #[verifier::truncate] (nar_info.file_size as i64),
            nar_hash_method: method_text(&nar_info.nar_hash),
            nar_hash: nar_info.nar_hash.string.clone(),
            nar_size: #[verifier::truncate] (nar_info.nar_size as i64),
            deriver: clone_text(&nar_info.deriver),
            system: clone_text(&nar_info.system),
            refs,
            signature: clone_text(&nar_info.signature),
        }
    }

    /// The descriptor that the row holds.
    pub fn try_into_nar_info(self) -> (r: Result<NarInfo, NarInfoParseError>)
        ensures
            match r {
                Ok(d) => descriptor_of(self@) == Ok::<NarInfoView, NarInfoParseErrorView>(d@),
                Err(e) => descriptor_of(self@) == Err::<NarInfoView, NarInfoParseErrorView>(e@),
            },
    {
        let compression = match CompressionType::from_str(self.compression.as_str()) {
            Ok(c) => c,
            Err(e) => return Err(
                NarInfoParseError::InvalidFieldValue(String::from_str("Compression"), e.message()),
            ),
        };
        let file_hash = hash_from_columns(self.file_hash_method, self.file_hash);
        let mut url = String::from_str("nar/");
        url.append(file_hash.string.as_str());
        url.append(".nar.");
        url.append(compression.to_string().as_str());
        proof {
            assert(url@ =~= "nar/"@ + nar_file_name(file_hash@, compression));
        }
        let store_path = match StorePath::from_str(self.store_path.as_str()) {
            Ok(p) => p,
            Err(e) => return Err(
                NarInfoParseError::InvalidFieldValue(String::from_str("StorePath"), e.message()),
            ),
        };
        let refs = to_chars(self.refs.as_str());
        let references = match read_references(refs.as_slice()) {
            Ok(ds) => ds,
            Err(e) => return Err(NarInfoParseError::InvalidReference(e)),
        };
        Ok(
            NarInfo {
                store_path,
                url,
                compression,
                file_hash,
                file_size: #[verifier::truncate] (self.file_size as usize),
                nar_hash: hash_from_columns(self.nar_hash_method, self.nar_hash),
                nar_size: #[verifier::truncate] (self.nar_size as usize),
                deriver: self.deriver,
                system: self.system,
                references,
                signature: self.signature,
            },
        )
    }
}

/// A descriptor with the address under which the proxy serves its
/// archive: `nar/`, and the name of the archive's file.
pub open spec fn stored(d: NarInfoView) -> NarInfoView {
    NarInfoView { url: "nar/"@ + nar_file_name(d.file_hash, d.compression), ..d }
}

/// The row of a descriptor that was read from a text holds that
/// descriptor: what is read from the row is the same in every field but
/// the address, which is the one under which the proxy serves the archive.
pub proof fn lemma_row_holds_descriptor(digest: Seq<char>, d: NarInfoView)
    requires
        was_read(d),
    ensures
        descriptor_of(row_of(digest, d)) == Ok::<NarInfoView, NarInfoParseErrorView>(stored(d)),
{
    let pv = choose|v: Seq<char>|
        crate::text::is_plain(v) && parse_store_path(v) == Ok::<
            StorePathView,
            StorePathParseErrorView,
        >(d.store_path);
    lemma_store_path_round_trip(pv);
    lemma_references_text_round_trip(d.references);
    let fv = choose|v: Seq<char>|
        crate::text::is_plain(v) && parse_hash(v) == Ok::<HashView, HashParseError>(d.file_hash);
    lemma_hash_round_trip(fv);
    let nv = choose|v: Seq<char>|
        crate::text::is_plain(v) && parse_hash(v) == Ok::<HashView, HashParseError>(d.nar_hash);
    lemma_hash_round_trip(nv);
    assert(hash_of_columns(method_column(d.file_hash), d.file_hash.string) == d.file_hash);
    assert(hash_of_columns(method_column(d.nar_hash), d.nar_hash.string) == d.nar_hash);
    let a = d.file_size;
    let b = d.nar_size;
    assert(((a as i64) as usize) == a) by (bit_vector);
    assert(((b as i64) as usize) == b) by (bit_vector);
}

} // verus!
