//! Package descriptors and their text form, one `Key: value` per line.

use crate::nix::compression::{
    compression_name, parse_compression, CompressionType, CompressionTypeParseError,
};
use crate::nix::derivation::{
    derivation_name, parse_derivation, Derivation, DerivationParseError, DerivationView,
};
use crate::nix::hash;
use crate::nix::hash::{hash_text, parse_hash, HashView};
use crate::nix::store_path::{
    parse_store_path, StorePath, StorePathView,
};
use crate::text::{
    after_first_line, chars_are, decimal, find_char, first_line, from_chars, parse_decimal,
    parse_usize, split_once, take_line, take_word, to_chars, trim, trim_chars,
    usize_to_string, words, NumberError,
};
use vstd::prelude::*;
use vstd::slice::slice_subrange;
use vstd::string::StringExecFns;

verus! {

/// The description of one artifact.
#[derive(Debug)]
pub struct NarInfo {
    pub store_path: StorePath,
    pub url: String,
    pub compression: CompressionType,
    pub file_hash: hash::Hash,
    pub file_size: usize,
    pub nar_hash: hash::Hash,
    pub nar_size: usize,
    pub deriver: Option<String>,
    pub system: Option<String>,
    pub references: Vec<Derivation>,
    pub signature: Option<String>,
}

/// What a `NarInfo` stands for.
pub ghost struct NarInfoView {
    pub store_path: StorePathView,
    pub url: Seq<char>,
    pub compression: CompressionType,
    pub file_hash: HashView,
    pub file_size: usize,
    pub nar_hash: HashView,
    pub nar_size: usize,
    pub deriver: Option<Seq<char>>,
    pub system: Option<Seq<char>>,
    pub references: Seq<DerivationView>,
    pub signature: Option<Seq<char>>,
}

/// What an optional string stands for.
pub open spec fn text_of(o: Option<String>) -> Option<Seq<char>> {
    match o {
        Some(s) => Some(s@),
        None => None,
    }
}

/// What a list of derivations stands for.
pub open spec fn derivations_of(v: Seq<Derivation>) -> Seq<DerivationView> {
    v.map_values(|d: Derivation| d@)
}

impl View for NarInfo {
    type V = NarInfoView;

    open spec fn view(&self) -> NarInfoView {
        NarInfoView {
            store_path: self.store_path@,
            url: self.url@,
            compression: self.compression,
            file_hash: self.file_hash@,
            file_size: self.file_size,
            nar_hash: self.nar_hash@,
            nar_size: self.nar_size,
            deriver: text_of(self.deriver),
            system: text_of(self.system),
            references: derivations_of(self.references@),
            signature: text_of(self.signature),
        }
    }
}

/// Why a text is no descriptor.
#[derive(Debug)]
pub enum NarInfoParseError {
    /// The value of a field cannot be read: the field's key and the reason.
    InvalidFieldValue(String, String),
    /// A field that every descriptor has is not there: the field's name.
    MissingField(String),
    /// The line's key is none of the known keys: the line.
    UnknownField(String),
    /// One of the references is no derivation.
    InvalidReference(DerivationParseError),
    /// The line holds no colon: the line.
    InvalidEntryFormat(String),
}

/// What a `NarInfoParseError` stands for.
pub ghost enum NarInfoParseErrorView {
    InvalidFieldValue(Seq<char>, Seq<char>),
    MissingField(Seq<char>),
    UnknownField(Seq<char>),
    InvalidReference(DerivationParseError),
    InvalidEntryFormat(Seq<char>),
}

impl View for NarInfoParseError {
    type V = NarInfoParseErrorView;

    open spec fn view(&self) -> NarInfoParseErrorView {
        match self {
            NarInfoParseError::InvalidFieldValue(k, m) => NarInfoParseErrorView::InvalidFieldValue(
                k@,
                m@,
            ),
            NarInfoParseError::MissingField(f) => NarInfoParseErrorView::MissingField(f@),
            NarInfoParseError::UnknownField(l) => NarInfoParseErrorView::UnknownField(l@),
            NarInfoParseError::InvalidReference(e) => NarInfoParseErrorView::InvalidReference(*e),
            NarInfoParseError::InvalidEntryFormat(l) => NarInfoParseErrorView::InvalidEntryFormat(
                l@,
            ),
        }
    }
}

impl NarInfoParseErrorView {
    /// The text of the error.
    pub open spec fn message_spec(self) -> Seq<char> {
        match self {
            NarInfoParseErrorView::InvalidFieldValue(k, m) => "Invalid field value \""@ + k
                + "\": "@ + m,
            NarInfoParseErrorView::MissingField(f) => "Missing field: `"@ + f
                + "` must be initialized"@,
            NarInfoParseErrorView::UnknownField(l) => "Unknown field: \""@ + l + "\""@,
            NarInfoParseErrorView::InvalidReference(e) => "Invalid valid reference: "@
                + e.message_spec(),
            NarInfoParseErrorView::InvalidEntryFormat(l) => "Invalid entry format: \""@ + l
                + "\""@,
        }
    }
}

impl NarInfoParseError {
    /// The text of the error.
    pub fn message(&self) -> (r: String)
        ensures
            r@ == self@.message_spec(),
    {
        match self {
            NarInfoParseError::InvalidFieldValue(k, m) => {
                let mut out = String::from_str("Invalid field value \"");
                out.append(k.as_str());
                out.append("\": ");
                out.append(m.as_str());
                out
            },
            NarInfoParseError::MissingField(f) => {
                let mut out = String::from_str("Missing field: `");
                out.append(f.as_str());
                out.append("` must be initialized");
                out
            },
            NarInfoParseError::UnknownField(l) => {
                let mut out = String::from_str("Unknown field: \"");
                out.append(l.as_str());
                out.append("\"");
                out
            },
            NarInfoParseError::InvalidReference(e) => {
                let mut out = String::from_str("Invalid valid reference: ");
                out.append(e.message().as_str());
                out
            },
            NarInfoParseError::InvalidEntryFormat(l) => {
                let mut out = String::from_str("Invalid entry format: \"");
                out.append(l.as_str());
                out.append("\"");
                out
            },
        }
    }
}

/// The text that tells why a number could not be read.
pub open spec fn number_error_text(e: NumberError) -> Seq<char> {
    match e {
        NumberError::Empty => "cannot parse integer from empty string"@,
        NumberError::InvalidDigit => "invalid digit found in string"@,
        NumberError::TooLarge => "number too large to fit in target type"@,
    }
}

/// The text that tells why a number could not be read.
pub fn number_error_message(e: NumberError) -> (r: String)
    ensures
        r@ == number_error_text(e),
{
    match e {
        NumberError::Empty => String::from_str("cannot parse integer from empty string"),
        NumberError::InvalidDigit => String::from_str("invalid digit found in string"),
        NumberError::TooLarge => String::from_str("number too large to fit in target type"),
    }
}

/// The fields of a descriptor that have been set so far.
#[derive(Debug)]
pub struct NarInfoBuilder {
    store_path: Option<StorePath>,
    url: Option<String>,
    compression: Option<CompressionType>,
    file_hash: Option<hash::Hash>,
    file_size: Option<usize>,
    nar_hash: Option<hash::Hash>,
    nar_size: Option<usize>,
    deriver: Option<String>,
    system: Option<String>,
    references: Option<Vec<Derivation>>,
    signature: Option<String>,
}

/// What a `NarInfoBuilder` stands for.
pub ghost struct NarInfoBuilderView {
    pub store_path: Option<StorePathView>,
    pub url: Option<Seq<char>>,
    pub compression: Option<CompressionType>,
    pub file_hash: Option<HashView>,
    pub file_size: Option<usize>,
    pub nar_hash: Option<HashView>,
    pub nar_size: Option<usize>,
    pub deriver: Option<Seq<char>>,
    pub system: Option<Seq<char>>,
    pub references: Option<Seq<DerivationView>>,
    pub signature: Option<Seq<char>>,
}

impl View for NarInfoBuilder {
    type V = NarInfoBuilderView;

    closed spec fn view(&self) -> NarInfoBuilderView {
        NarInfoBuilderView {
            store_path: match self.store_path {
                Some(p) => Some(p@),
                None => None,
            },
            url: text_of(self.url),
            compression: self.compression,
            file_hash: match self.file_hash {
                Some(h) => Some(h@),
                None => None,
            },
            file_size: self.file_size,
            nar_hash: match self.nar_hash {
                Some(h) => Some(h@),
                None => None,
            },
            nar_size: self.nar_size,
            deriver: text_of(self.deriver),
            system: text_of(self.system),
            references: match self.references {
                Some(r) => Some(derivations_of(r@)),
                None => None,
            },
            signature: text_of(self.signature),
        }
    }
}

/// The builder with no field set.
pub open spec fn empty_builder() -> NarInfoBuilderView {
    NarInfoBuilderView {
        store_path: None,
        url: None,
        compression: None,
        file_hash: None,
        file_size: None,
        nar_hash: None,
        nar_size: None,
        deriver: None,
        system: None,
        references: None,
        signature: None,
    }
}

/// The descriptor that the fields make, or the first field, in the order of
/// the record, that every descriptor has and that was not set.
pub open spec fn build_spec(b: NarInfoBuilderView) -> Result<NarInfoView, NarInfoParseErrorView> {
    if b.store_path.is_none() {
        Err(NarInfoParseErrorView::MissingField("store_path"@))
    } else if b.url.is_none() {
        Err(NarInfoParseErrorView::MissingField("url"@))
    } else if b.compression.is_none() {
        Err(NarInfoParseErrorView::MissingField("compression"@))
    } else if b.file_hash.is_none() {
        Err(NarInfoParseErrorView::MissingField("file_hash"@))
    } else if b.file_size.is_none() {
        Err(NarInfoParseErrorView::MissingField("file_size"@))
    } else if b.nar_hash.is_none() {
        Err(NarInfoParseErrorView::MissingField("nar_hash"@))
    } else if b.nar_size.is_none() {
        Err(NarInfoParseErrorView::MissingField("nar_size"@))
    } else if b.references.is_none() {
        Err(NarInfoParseErrorView::MissingField("references"@))
    } else {
        Ok(
            NarInfoView {
                store_path: b.store_path.unwrap(),
                url: b.url.unwrap(),
                compression: b.compression.unwrap(),
                file_hash: b.file_hash.unwrap(),
                file_size: b.file_size.unwrap(),
                nar_hash: b.nar_hash.unwrap(),
                nar_size: b.nar_size.unwrap(),
                deriver: b.deriver,
                system: b.system,
                references: b.references.unwrap(),
                signature: b.signature,
            },
        )
    }
}

impl Default for NarInfoBuilder {
    fn default() -> (r: Self)
        ensures
            r@ == empty_builder(),
    {
        NarInfoBuilder::new()
    }
}

impl NarInfoBuilder {
    /// A builder with no field set.
    pub fn new() -> (r: Self)
        ensures
            r@ == empty_builder(),
    {
        NarInfoBuilder {
            store_path: None,
            url: None,
            compression: None,
            file_hash: None,
            file_size: None,
            nar_hash: None,
            nar_size: None,
            deriver: None,
            system: None,
            references: None,
            signature: None,
        }
    }

    pub fn store_path(&mut self, value: StorePath)
        ensures
            final(self)@ == (NarInfoBuilderView { store_path: Some(value@), ..old(self)@ }),
    {
        self.store_path = Some(value);
    }

    pub fn url(&mut self, value: String)
        ensures
            final(self)@ == (NarInfoBuilderView { url: Some(value@), ..old(self)@ }),
    {
        self.url = Some(value);
    }

    pub fn compression(&mut self, value: CompressionType)
        ensures
            final(self)@ == (NarInfoBuilderView { compression: Some(value), ..old(self)@ }),
    {
        self.compression = Some(value);
    }

    pub fn file_hash(&mut self, value: hash::Hash)
        ensures
            final(self)@ == (NarInfoBuilderView { file_hash: Some(value@), ..old(self)@ }),
    {
        self.file_hash = Some(value);
    }

    pub fn file_size(&mut self, value: usize)
        ensures
            final(self)@ == (NarInfoBuilderView { file_size: Some(value), ..old(self)@ }),
    {
        self.file_size = Some(value);
    }

    pub fn nar_hash(&mut self, value: hash::Hash)
        ensures
            final(self)@ == (NarInfoBuilderView { nar_hash: Some(value@), ..old(self)@ }),
    {
        self.nar_hash = Some(value);
    }

    pub fn nar_size(&mut self, value: usize)
        ensures
            final(self)@ == (NarInfoBuilderView { nar_size: Some(value), ..old(self)@ }),
    {
        self.nar_size = Some(value);
    }

    pub fn deriver(&mut self, value: Option<String>)
        ensures
            final(self)@ == (NarInfoBuilderView { deriver: text_of(value), ..old(self)@ }),
    {
        self.deriver = value;
    }

    pub fn system(&mut self, value: Option<String>)
        ensures
            final(self)@ == (NarInfoBuilderView { system: text_of(value), ..old(self)@ }),
    {
        self.system = value;
    }

    pub fn references(&mut self, value: Vec<Derivation>)
        ensures
            final(self)@ == (NarInfoBuilderView {
                references: Some(derivations_of(value@)),
                ..old(self)@
            }),
    {
        self.references = Some(value);
    }

    pub fn signature(&mut self, value: Option<String>)
        ensures
            final(self)@ == (NarInfoBuilderView { signature: text_of(value), ..old(self)@ }),
    {
        self.signature = value;
    }

    /// The descriptor, if every field that it must have was set.
    pub fn build(self) -> (r: Result<NarInfo, NarInfoParseError>)
        ensures
            match r {
                Ok(d) => build_spec(self@) == Ok::<NarInfoView, NarInfoParseErrorView>(d@),
                Err(e) => build_spec(self@) == Err::<NarInfoView, NarInfoParseErrorView>(e@),
            },
    {
        let NarInfoBuilder {
            store_path,
            url,
            compression,
            file_hash,
            file_size,
            nar_hash,
            nar_size,
            deriver,
            system,
            references,
            signature,
        } = self;
        let store_path = match store_path {
            Some(v) => v,
            None => return Err(NarInfoParseError::MissingField(String::from_str("store_path"))),
        };
        let url = match url {
            Some(v) => v,
            None => return Err(NarInfoParseError::MissingField(String::from_str("url"))),
        };
        let compression = match compression {
            Some(v) => v,
            None => return Err(NarInfoParseError::MissingField(String::from_str("compression"))),
        };
        let file_hash = match file_hash {
            Some(v) => v,
            None => return Err(NarInfoParseError::MissingField(String::from_str("file_hash"))),
        };
        let file_size = match file_size {
            Some(v) => v,
            None => return Err(NarInfoParseError::MissingField(String::from_str("file_size"))),
        };
        let nar_hash = match nar_hash {
            Some(v) => v,
            None => return Err(NarInfoParseError::MissingField(String::from_str("nar_hash"))),
        };
        let nar_size = match nar_size {
            Some(v) => v,
            None => return Err(NarInfoParseError::MissingField(String::from_str("nar_size"))),
        };
        let references = match references {
            Some(v) => v,
            None => return Err(NarInfoParseError::MissingField(String::from_str("references"))),
        };
        Ok(
            NarInfo {
                store_path,
                url,
                compression,
                file_hash,
                file_size,
                nar_hash,
                nar_size,
                deriver,
                system,
                references,
                signature,
            },
        )
    }
}

/// A list of derivations put before what reading the rest gave.
pub open spec fn after_read(
    done: Seq<DerivationView>,
    rest: Result<Seq<DerivationView>, DerivationParseError>,
) -> Result<Seq<DerivationView>, DerivationParseError> {
    match rest {
        Ok(ds) => Ok(done + ds),
        Err(e) => Err(e),
    }
}

/// The derivations that a list of words names, or why the first word that
/// names none does not.
pub open spec fn parse_references(ws: Seq<Seq<char>>) -> Result<
    Seq<DerivationView>,
    DerivationParseError,
>
    decreases ws.len(),
{
    if ws.len() == 0 {
        Ok(Seq::empty())
    } else {
        match parse_derivation(ws[0]) {
            Err(e) => Err(e),
            Ok(d) => after_read(seq![d], parse_references(ws.drop_first())),
        }
    }
}

/// The size that a text stands for, or the text of the reason why it stands
/// for none, under the key `key`.
pub open spec fn parse_size(key: Seq<char>, value: Seq<char>) -> Result<
    usize,
    NarInfoParseErrorView,
> {
    match parse_decimal(value, usize::MAX as int) {
        Ok(n) => Ok(n as usize),
        Err(e) => Err(NarInfoParseErrorView::InvalidFieldValue(key, number_error_text(e))),
    }
}

/// The hash that a text stands for, or the text of the reason why it stands
/// for none, under the key `key`.
pub open spec fn parse_hash_field(key: Seq<char>, value: Seq<char>) -> Result<
    HashView,
    NarInfoParseErrorView,
> {
    match parse_hash(value) {
        Ok(h) => Ok(h),
        Err(e) => Err(NarInfoParseErrorView::InvalidFieldValue(key, e.message_spec())),
    }
}

/// What one line does to the fields set so far. The line is split at its
/// first colon; key and value are what stands on either side, less the
/// white space around them. The references are the words of the value.
pub open spec fn apply_line(b: NarInfoBuilderView, line: Seq<char>) -> Result<
    NarInfoBuilderView,
    NarInfoParseErrorView,
> {
    match split_once(line, ':') {
        None => Err(NarInfoParseErrorView::InvalidEntryFormat(line)),
        Some((k, v)) => {
            let key = trim(k);
            let value = trim(v);
            if key == "StorePath"@ {
                match parse_store_path(value) {
                    Ok(p) => Ok(NarInfoBuilderView { store_path: Some(p), ..b }),
                    Err(e) => Err(
                        NarInfoParseErrorView::InvalidFieldValue(key, e.message_spec()),
                    ),
                }
            } else if key == "URL"@ {
                Ok(NarInfoBuilderView { url: Some(value), ..b })
            } else if key == "Compression"@ {
                match parse_compression(value) {
                    Ok(c) => Ok(NarInfoBuilderView { compression: Some(c), ..b }),
                    Err(e) => Err(
                        NarInfoParseErrorView::InvalidFieldValue(
                            key,
                            CompressionTypeParseError::message_spec(e),
                        ),
                    ),
                }
            } else if key == "FileHash"@ {
                match parse_hash_field(key, value) {
                    Ok(h) => Ok(NarInfoBuilderView { file_hash: Some(h), ..b }),
                    Err(e) => Err(e),
                }
            } else if key == "FileSize"@ {
                match parse_size(key, value) {
                    Ok(n) => Ok(NarInfoBuilderView { file_size: Some(n), ..b }),
                    Err(e) => Err(e),
                }
            } else if key == "NarHash"@ {
                match parse_hash_field(key, value) {
                    Ok(h) => Ok(NarInfoBuilderView { nar_hash: Some(h), ..b }),
                    Err(e) => Err(e),
                }
            } else if key == "NarSize"@ {
                match parse_size(key, value) {
                    Ok(n) => Ok(NarInfoBuilderView { nar_size: Some(n), ..b }),
                    Err(e) => Err(e),
                }
            } else if key == "Deriver"@ {
                Ok(NarInfoBuilderView { deriver: Some(value), ..b })
            } else if key == "System"@ {
                Ok(NarInfoBuilderView { system: Some(value), ..b })
            } else if key == "References"@ {
                match parse_references(words(v)) {
                    Ok(ds) => Ok(NarInfoBuilderView { references: Some(ds), ..b }),
                    Err(e) => Err(NarInfoParseErrorView::InvalidReference(e)),
                }
            } else if key == "Sig"@ {
                Ok(NarInfoBuilderView { signature: Some(value), ..b })
            } else {
                Err(NarInfoParseErrorView::UnknownField(line))
            }
        },
    }
}

/// What the lines of a text do to the fields set so far, line after line up
/// to the first that fails. Empty lines are passed over.
pub open spec fn parse_lines(s: Seq<char>, b: NarInfoBuilderView) -> Result<
    NarInfoBuilderView,
    NarInfoParseErrorView,
>
    decreases s.len(),
{
    if s.len() == 0 {
        Ok(b)
    } else {
        proof {
            crate::text::lemma_find_from(s, '\n', 0);
        }
        let line = first_line(s);
        let rest = after_first_line(s);
        if line.len() == 0 {
            parse_lines(rest, b)
        } else {
            match apply_line(b, line) {
                Err(e) => Err(e),
                Ok(next) => parse_lines(rest, next),
            }
        }
    }
}

/// The descriptor that a text stands for.
pub open spec fn parse_nar_info(s: Seq<char>) -> Result<NarInfoView, NarInfoParseErrorView> {
    match parse_lines(s, empty_builder()) {
        Err(e) => Err(e),
        Ok(b) => build_spec(b),
    }
}

/// Reads the references of a descriptor from the words of `value`.
pub fn read_references(value: &[char]) -> (r: Result<Vec<Derivation>, DerivationParseError>)
    ensures
        match r {
            Ok(ds) => parse_references(words(value@)) == Ok::<
                Seq<DerivationView>,
                DerivationParseError,
            >(derivations_of(ds@)),
            Err(e) => parse_references(words(value@)) == Err::<
                Seq<DerivationView>,
                DerivationParseError,
            >(e),
        },
{
    let mut out: Vec<Derivation> = Vec::new();
    let mut rest: &[char] = value;
    loop
        invariant
            parse_references(words(value@)) == after_read(
                derivations_of(out@),
                parse_references(words(rest@)),
            ),
        decreases rest@.len(),
    {
        match take_word(rest) {
            None => {
                assert(derivations_of(out@) + Seq::<DerivationView>::empty() =~= derivations_of(
                    out@,
                ));
                return Ok(out);
            },
            Some((w, tail)) => {
                let ghost ws = words(rest@);
                assert(ws[0] == w@);
                assert(ws.drop_first() =~= words(tail@));
                match Derivation::parse_chars(w) {
                    Err(e) => {
                        return Err(e);
                    },
                    Ok(d) => {
                        let ghost before = derivations_of(out@);
                        let ghost dv = d@;
                        out.push(d);
                        assert(derivations_of(out@) =~= before + seq![dv]);
                        assert(forall|t: Seq<DerivationView>|
                            #![auto]
                            before + (seq![dv] + t) =~= (before + seq![dv]) + t);
                        rest = tail;
                    },
                }
            },
        }
    }
}

impl NarInfoBuilder {
    /// Sets the field that `line` names to the value that it gives.
    pub fn apply_line(&mut self, line: &[char]) -> (r: Result<(), NarInfoParseError>)
        ensures
            match r {
                Ok(()) => apply_line(old(self)@, line@) == Ok::<
                    NarInfoBuilderView,
                    NarInfoParseErrorView,
                >(final(self)@),
                Err(e) => apply_line(old(self)@, line@) == Err::<
                    NarInfoBuilderView,
                    NarInfoParseErrorView,
                >(e@),
            },
    {
        let i = find_char(line, ':');
        if i >= line.len() {
            return Err(NarInfoParseError::InvalidEntryFormat(from_chars(line)));
        }
        let key = trim_chars(slice_subrange(line, 0, i));
        let value = trim_chars(slice_subrange(line, i + 1, line.len()));
        if chars_are(key, "StorePath") {
            match StorePath::parse_chars(value) {
                Ok(p) => self.store_path(p),
                Err(e) => return Err(
                    NarInfoParseError::InvalidFieldValue(from_chars(key), e.message()),
                ),
            }
        } else if chars_are(key, "URL") {
            self.url(from_chars(value));
        } else if chars_are(key, "Compression") {
            match CompressionType::parse_chars(value) {
                Ok(c) => self.compression(c),
                Err(e) => return Err(
                    NarInfoParseError::InvalidFieldValue(from_chars(key), e.message()),
                ),
            }
        } else if chars_are(key, "FileHash") {
            match hash::Hash::parse_chars(value) {
                Ok(h) => self.file_hash(h),
                Err(e) => return Err(
                    NarInfoParseError::InvalidFieldValue(from_chars(key), e.message()),
                ),
            }
        } else if chars_are(key, "FileSize") {
            match parse_usize(value) {
                Ok(n) => self.file_size(n),
                Err(e) => return Err(
                    NarInfoParseError::InvalidFieldValue(from_chars(key), number_error_message(e)),
                ),
            }
        } else if chars_are(key, "NarHash") {
            match hash::Hash::parse_chars(value) {
                Ok(h) => self.nar_hash(h),
                Err(e) => return Err(
                    NarInfoParseError::InvalidFieldValue(from_chars(key), e.message()),
                ),
            }
        } else if chars_are(key, "NarSize") {
            match parse_usize(value) {
                Ok(n) => self.nar_size(n),
                Err(e) => return Err(
                    NarInfoParseError::InvalidFieldValue(from_chars(key), number_error_message(e)),
                ),
            }
        } else if chars_are(key, "Deriver") {
            self.deriver(Some(from_chars(value)));
        } else if chars_are(key, "System") {
            self.system(Some(from_chars(value)));
        } else if chars_are(key, "References") {
            match read_references(slice_subrange(line, i + 1, line.len())) {
                Ok(ds) => self.references(ds),
                Err(e) => return Err(NarInfoParseError::InvalidReference(e)),
            }
        } else if chars_are(key, "Sig") {
            self.signature(Some(from_chars(value)));
        } else {
            return Err(NarInfoParseError::UnknownField(from_chars(line)));
        }
        Ok(())
    }
}

impl NarInfo {
    /// Reads a descriptor from its characters.
    pub fn parse_chars(text: &[char]) -> (r: Result<NarInfo, NarInfoParseError>)
        ensures
            match r {
                Ok(d) => parse_nar_info(text@) == Ok::<NarInfoView, NarInfoParseErrorView>(d@),
                Err(e) => parse_nar_info(text@) == Err::<NarInfoView, NarInfoParseErrorView>(e@),
            },
    {
        let mut builder = NarInfoBuilder::new();
        let mut rest: &[char] = text;
        while rest.len() > 0
            invariant
                parse_lines(text@, empty_builder()) == parse_lines(rest@, builder@),
            decreases rest@.len(),
        {
            let (line, tail) = take_line(rest);
            if line.len() > 0 {
                match builder.apply_line(line) {
                    Err(e) => {
                        return Err(e);
                    },
                    Ok(()) => {},
                }
            }
            rest = tail;
        }
        builder.build()
    }

    /// Reads a descriptor from its text, one `Key: value` per line.
    pub fn from_str(text: &str) -> (r: Result<NarInfo, NarInfoParseError>)
        ensures
            match r {
                Ok(d) => parse_nar_info(text@) == Ok::<NarInfoView, NarInfoParseErrorView>(d@),
                Err(e) => parse_nar_info(text@) == Err::<NarInfoView, NarInfoParseErrorView>(e@),
            },
    {
        let cs = to_chars(text);
        NarInfo::parse_chars(cs.as_slice())
    }
}

/// A line of a descriptor: key, colon, blank, value, line feed.
pub open spec fn field_line(key: Seq<char>, value: Seq<char>) -> Seq<char> {
    key + seq![':', ' '] + value + seq!['\n']
}

/// The line of a field that a descriptor may go without.
pub open spec fn optional_line(key: Seq<char>, value: Option<Seq<char>>) -> Seq<char> {
    match value {
        Some(v) => field_line(key, v),
        None => Seq::empty(),
    }
}

/// The names of the references, a blank before each.
pub open spec fn references_text(ds: Seq<DerivationView>) -> Seq<char>
    decreases ds.len(),
{
    if ds.len() == 0 {
        Seq::empty()
    } else {
        seq![' '] + derivation_name(ds[0]) + references_text(ds.drop_first())
    }
}

/// The line of the references.
pub open spec fn references_line(ds: Seq<DerivationView>) -> Seq<char> {
    "References:"@ + references_text(ds) + seq!['\n']
}

/// The text of a descriptor: its fields in a fixed order, one per line; the
/// fields that are not set are left out, the references never.
pub open spec fn nar_info_text(d: NarInfoView) -> Seq<char> {
    field_line("StorePath"@, d.store_path.path()) + field_line("URL"@, d.url) + field_line(
        "Compression"@,
        compression_name(d.compression),
    ) + field_line("FileHash"@, hash_text(d.file_hash)) + field_line(
        "FileSize"@,
        decimal(d.file_size as nat),
    ) + field_line("NarHash"@, hash_text(d.nar_hash)) + field_line(
        "NarSize"@,
        decimal(d.nar_size as nat),
    ) + optional_line("Deriver"@, d.deriver) + optional_line("System"@, d.system)
        + references_line(d.references) + optional_line("Sig"@, d.signature)
}

/// One more reference adds its name, behind a blank, at the end.
pub proof fn lemma_references_text_push(ds: Seq<DerivationView>, d: DerivationView)
    ensures
        references_text(ds.push(d)) == references_text(ds) + seq![' '] + derivation_name(d),
    decreases ds.len(),
{
    if ds.len() == 0 {
        assert(ds.push(d).drop_first() =~= Seq::<DerivationView>::empty());
        assert(references_text(ds.push(d).drop_first()) =~= Seq::<char>::empty());
        assert(ds.push(d)[0] == d);
        assert(references_text(ds.push(d)) =~= seq![' '] + derivation_name(d) + Seq::<
            char,
        >::empty());
        assert(references_text(ds) + seq![' '] + derivation_name(d) =~= seq![' ']
            + derivation_name(d));
    } else {
        lemma_references_text_push(ds.drop_first(), d);
        assert(ds.push(d).drop_first() =~= ds.drop_first().push(d));
        assert(ds.push(d)[0] == ds[0]);
        assert(references_text(ds.push(d)) =~= references_text(ds) + seq![' ']
            + derivation_name(d));
    }
}

/// Appends the line of a field to `out`.
fn push_field(out: &mut String, key: &str, value: &str)
    ensures
        final(out)@ == old(out)@ + field_line(key@, value@),
{
    out.append(key);
    out.append(": ");
    out.append(value);
    out.append("\n");
    proof {
        reveal_strlit(": ");
        reveal_strlit("\n");
        assert(": "@ =~= seq![':', ' ']);
        assert("\n"@ =~= seq!['\n']);
        assert(out@ =~= old(out)@ + field_line(key@, value@));
    }
}

/// Appends the line of a field that may be missing to `out`.
fn push_optional(out: &mut String, key: &str, value: &Option<String>)
    ensures
        final(out)@ == old(out)@ + optional_line(key@, text_of(*value)),
{
    match value {
        Some(v) => push_field(out, key, v.as_str()),
        None => {
            assert(out@ + Seq::<char>::empty() =~= out@);
        },
    }
}

impl NarInfo {
    /// The descriptor as text, one `Key: value` per line.
    pub fn to_string(&self) -> (r: String)
        ensures
            r@ == nar_info_text(self@),
    {
        let mut out = String::new();
        push_field(&mut out, "StorePath", self.store_path.path().as_str());
        push_field(&mut out, "URL", self.url.as_str());
        push_field(&mut out, "Compression", self.compression.to_string().as_str());
        push_field(&mut out, "FileHash", self.file_hash.to_string().as_str());
        push_field(&mut out, "FileSize", usize_to_string(self.file_size).as_str());
        push_field(&mut out, "NarHash", self.nar_hash.to_string().as_str());
        push_field(&mut out, "NarSize", usize_to_string(self.nar_size).as_str());
        push_optional(&mut out, "Deriver", &self.deriver);
        push_optional(&mut out, "System", &self.system);
        let ghost head = out@;
        out.append("References:");
        let mut i: usize = 0;
        while i < self.references.len()
            invariant
                i <= self.references.len(),
                out@ == head + "References:"@ + references_text(
                    derivations_of(self.references@).take(i as int),
                ),
            decreases self.references.len() - i,
        {
            let ghost ds = derivations_of(self.references@);
            out.append(" ");
            out.append(self.references[i].name().as_str());
            proof {
                reveal_strlit(" ");
                assert(" "@ =~= seq![' ']);
                lemma_references_text_push(ds.take(i as int), ds[i as int]);
                assert(ds.take(i + 1) =~= ds.take(i as int).push(ds[i as int]));
            }
            i += 1;
        }
        out.append("\n");
        proof {
            reveal_strlit("\n");
            assert("\n"@ =~= seq!['\n']);
            let ds = derivations_of(self.references@);
            assert(ds.take(i as int) =~= ds);
            assert(out@ =~= head + references_line(ds));
        }
        push_optional(&mut out, "Sig", &self.signature);
        out
    }
}

} // verus!
