//! Derivations: a hash and a package name, written `hash-name`.

use crate::nix::hash;
use crate::nix::hash::{
    all_alphanumeric, hash_text, lemma_hash_round_trip, parse_hash, HashParseError, HashView,
};
use crate::text::{
    find_char, find_from, from_chars, lemma_find_from, lemma_find_from_is, split_once, to_chars,
};
use vstd::prelude::*;
use vstd::slice::slice_subrange;
use vstd::string::StringExecFns;

verus! {

/// A buildable unit of the store.
#[derive(Debug)]
pub struct Derivation {
    pub package: String,
    pub hash: hash::Hash,
}

/// What a `Derivation` stands for.
pub ghost struct DerivationView {
    pub package: Seq<char>,
    pub hash: HashView,
}

impl View for Derivation {
    type V = DerivationView;

    open spec fn view(&self) -> DerivationView {
        DerivationView { package: self.package@, hash: self.hash@ }
    }
}

impl Clone for Derivation {
    fn clone(&self) -> (r: Self)
        ensures
            r@ == self@,
    {
        Derivation { package: self.package.clone(), hash: self.hash.clone() }
    }
}

/// Why a text is no derivation.
#[derive(Clone, Copy, Debug, PartialEq, Eq, Structural)]
pub enum DerivationParseError {
    /// The text holds no hyphen.
    InvalidFormat,
    /// Nothing follows the first hyphen.
    MissingPackageName,
    /// What stands before the first hyphen is no hash.
    InvalidHash(HashParseError),
}

impl DerivationParseError {
    /// The text of the error.
    pub open spec fn message_spec(self) -> Seq<char> {
        match self {
            DerivationParseError::InvalidFormat => "Invalid derivation name format"@,
            DerivationParseError::MissingPackageName => "Missing package name"@,
            DerivationParseError::InvalidHash(e) => "Invalid hash: "@ + e.message_spec(),
        }
    }

    /// The variant and what it holds, as a debugging aid prints them.
    pub open spec fn debug_spec(self) -> Seq<char> {
        match self {
            DerivationParseError::InvalidFormat => "InvalidFormat"@,
            DerivationParseError::MissingPackageName => "MissingPackageName"@,
            DerivationParseError::InvalidHash(e) => "InvalidHash("@ + e.debug_spec() + ")"@,
        }
    }

    /// The text of the error.
    pub fn message(&self) -> (r: String)
        ensures
            r@ == self.message_spec(),
    {
        match self {
            DerivationParseError::InvalidFormat => String::from_str(
                "Invalid derivation name format",
            ),
            DerivationParseError::MissingPackageName => String::from_str("Missing package name"),
            DerivationParseError::InvalidHash(e) => {
                let mut out = String::from_str("Invalid hash: ");
                out.append(e.message().as_str());
                out
            },
        }
    }

    /// The variant and what it holds, as a debugging aid prints them.
    pub fn debug_text(&self) -> (r: String)
        ensures
            r@ == self.debug_spec(),
    {
        match self {
            DerivationParseError::InvalidFormat => String::from_str("InvalidFormat"),
            DerivationParseError::MissingPackageName => String::from_str("MissingPackageName"),
            DerivationParseError::InvalidHash(e) => {
                let mut out = String::from_str("InvalidHash(");
                out.append(e.debug_text().as_str());
                out.append(")");
                out
            },
        }
    }
}

/// The derivation that a text stands for: a hash, the first hyphen, and a
/// package name that is not empty.
pub open spec fn parse_derivation(s: Seq<char>) -> Result<DerivationView, DerivationParseError> {
    match split_once(s, '-') {
        None => Err(DerivationParseError::InvalidFormat),
        Some((h, p)) => if p.len() == 0 {
            Err(DerivationParseError::MissingPackageName)
        } else {
            match parse_hash(h) {
                Err(e) => Err(DerivationParseError::InvalidHash(e)),
                Ok(hash) => Ok(DerivationView { package: p, hash }),
            }
        },
    }
}

/// The name of a derivation: its hash as text, a hyphen, the package.
pub open spec fn derivation_name(d: DerivationView) -> Seq<char> {
    hash_text(d.hash) + seq!['-'] + d.package
}

impl Derivation {
    /// The name under which the derivation lies in the store.
    pub fn name(&self) -> (r: String)
        ensures
            r@ == derivation_name(self@),
    {
        let mut out = self.hash.to_string();
        out.append("-");
        out.append(self.package.as_str());
        proof {
            reveal_strlit("-");
            assert("-"@ =~= seq!['-']);
        }
        out
    }

    /// The derivation as text, which is its name.
    pub fn to_string(&self) -> (r: String)
        ensures
            r@ == derivation_name(self@),
    {
        self.name()
    }

    /// Reads a derivation from its characters.
    pub fn parse_chars(s: &[char]) -> (r: Result<Derivation, DerivationParseError>)
        ensures
            match r {
                Ok(d) => parse_derivation(s@) == Ok::<DerivationView, DerivationParseError>(d@),
                Err(e) => parse_derivation(s@) == Err::<DerivationView, DerivationParseError>(e),
            },
    {
        let i = find_char(s, '-');
        if i >= s.len() {
            return Err(DerivationParseError::InvalidFormat);
        }
        let p = slice_subrange(s, i + 1, s.len());
        if p.len() == 0 {
            return Err(DerivationParseError::MissingPackageName);
        }
        match hash::Hash::parse_chars(slice_subrange(s, 0, i)) {
            Err(e) => Err(DerivationParseError::InvalidHash(e)),
            Ok(hash) => Ok(Derivation { package: from_chars(p), hash }),
        }
    }

    /// Reads a derivation from `hash-name`.
    pub fn from_str(s: &str) -> (r: Result<Derivation, DerivationParseError>)
        ensures
            match r {
                Ok(d) => parse_derivation(s@) == Ok::<DerivationView, DerivationParseError>(d@),
                Err(e) => parse_derivation(s@) == Err::<DerivationView, DerivationParseError>(e),
            },
    {
        let cs = to_chars(s);
        Derivation::parse_chars(cs.as_slice())
    }
}

/// The name of a derivation that was read from a text is read back as that
/// derivation. The name is the text it was read from, less a colon at its
/// start that no method stands before.
pub proof fn lemma_derivation_round_trip(w: Seq<char>)
    requires
        parse_derivation(w).is_ok(),
    ensures
        ({
            let d = parse_derivation(w).unwrap();
            let n = derivation_name(d);
            &&& parse_derivation(n) == Ok::<DerivationView, DerivationParseError>(d)
            &&& all_alphanumeric(d.hash.string)
            &&& d.package.len() > 0
            &&& 2 <= n.len() <= w.len()
            &&& n == w.subrange(w.len() - n.len(), w.len() as int)
            &&& n == w || d.hash.method.is_none()
            &&& n[hash_text(d.hash).len() as int] == '-'
        }),
{
    let d = parse_derivation(w).unwrap();
    let n = derivation_name(d);
    lemma_find_from(w, '-', 0);
    let i = find_from(w, '-', 0);
    let ht = w.subrange(0, i);
    let pkg = w.subrange(i + 1, w.len() as int);
    lemma_hash_round_trip(ht);
    let t = hash_text(d.hash);
    let off = ht.len() - t.len();
    assert(n =~= w.subrange(w.len() - n.len(), w.len() as int));
    if t == ht {
        assert(n =~= w);
    }
    assert forall|j: int| 0 <= j < t.len() implies n[j] != '-' by {
        assert(n[j] == t[j]);
        assert(t[j] == ht[off + j]);
        assert(ht[off + j] == w[off + j]);
    }
    lemma_find_from_is(n, '-', 0, t.len() as int);
    assert(n.subrange(0, t.len() as int) =~= t);
    assert(n.subrange(t.len() as int + 1, n.len() as int) =~= pkg);
}

} // verus!
