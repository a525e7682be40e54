//! The ways in which an archive may be compressed.

use crate::text::{chars_are, debug_quoted, from_chars, quoted, to_chars};
use vstd::prelude::*;
use vstd::string::StringExecFns;

verus! {

/// How an archive is compressed.
#[derive(Clone, Copy, Debug, PartialEq, Eq, Structural)]
pub enum CompressionType {
    Xz,
}

/// A text that names no compression type; it holds the text.
#[derive(Debug)]
pub struct CompressionTypeParseError(pub String);

impl View for CompressionTypeParseError {
    type V = Seq<char>;

    open spec fn view(&self) -> Seq<char> {
        self.0@
    }
}

impl CompressionTypeParseError {
    /// The text of the error, over the text that was refused.
    pub open spec fn message_spec(refused: Seq<char>) -> Seq<char> {
        "Unsupported compression type: "@ + debug_quoted(refused)
    }

    /// The text of the error.
    pub fn message(&self) -> (r: String)
        ensures
            r@ == Self::message_spec(self@),
    {
        let mut out = String::from_str("Unsupported compression type: ");
        out.append(quoted(self.0.as_str()).as_str());
        out
    }
}

/// The name of a compression type.
pub open spec fn compression_name(c: CompressionType) -> Seq<char> {
    match c {
        CompressionType::Xz => "xz"@,
    }
}

/// The compression type that a text names.
pub open spec fn parse_compression(s: Seq<char>) -> Result<CompressionType, Seq<char>> {
    if s == "xz"@ {
        Ok(CompressionType::Xz)
    } else {
        Err(s)
    }
}

/// Names and compression types stand one for one: the name of a type is
/// read back as that type, and a text that is read as a type is its name.
pub proof fn lemma_compression_round_trip(c: CompressionType, s: Seq<char>)
    ensures
        parse_compression(compression_name(c)) == Ok::<CompressionType, Seq<char>>(c),
        parse_compression(s) == Ok::<CompressionType, Seq<char>>(c) ==> s == compression_name(c),
{
}

impl CompressionType {
    /// The name of the compression type.
    pub fn to_string(&self) -> (r: String)
        ensures
            r@ == compression_name(*self),
    {
        match self {
            CompressionType::Xz => String::from_str("xz"),
        }
    }

    /// Reads a compression type from its characters.
    pub fn parse_chars(s: &[char]) -> (r: Result<CompressionType, CompressionTypeParseError>)
        ensures
            match r {
                Ok(c) => parse_compression(s@) == Ok::<CompressionType, Seq<char>>(c),
                Err(e) => parse_compression(s@) == Err::<CompressionType, Seq<char>>(e@),
            },
    {
        if chars_are(s, "xz") {
            Ok(CompressionType::Xz)
        } else {
            Err(CompressionTypeParseError(from_chars(s)))
        }
    }

    /// Reads a compression type from its name.
    pub fn from_str(s: &str) -> (r: Result<CompressionType, CompressionTypeParseError>)
        ensures
            match r {
                Ok(c) => parse_compression(s@) == Ok::<CompressionType, Seq<char>>(c),
                Err(e) => parse_compression(s@) == Err::<CompressionType, Seq<char>>(e@),
            },
    {
        let cs = to_chars(s);
        CompressionType::parse_chars(cs.as_slice())
    }
}

} // verus!
