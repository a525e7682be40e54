//! Content hashes: an optional method tag and an alphanumeric digest.

use crate::text::{
    find_char, find_from, from_chars, is_alnum, is_trimmed, lemma_find_from, lemma_find_from_is,
    no_line_feed, split_once, to_chars,
};
use vstd::prelude::*;
use vstd::slice::slice_subrange;
use vstd::string::StringExecFns;

verus! {

/// The name of a hashing method, such as `sha256`.
#[derive(Debug)]
pub struct HashMethod(String);

impl View for HashMethod {
    type V = Seq<char>;

    closed spec fn view(&self) -> Seq<char> {
        self.0@
    }
}

impl Clone for HashMethod {
    fn clone(&self) -> (r: Self)
        ensures
            r@ == self@,
    {
        HashMethod(self.0.clone())
    }
}

impl Default for HashMethod {
    fn default() -> (r: Self)
        ensures
            r@ == Seq::<char>::empty(),
    {
        HashMethod(String::new())
    }
}

impl HashMethod {
    /// The method `sha256`.
    #[allow(non_snake_case)]
    pub fn Sha256() -> (r: Self)
        ensures
            r@ == "sha256"@,
    {
        HashMethod(String::from_str("sha256"))
    }

    /// The method named `s`.
    pub fn from(s: &str) -> (r: Self)
        ensures
            r@ == s@,
    {
        HashMethod(String::from_str(s))
    }

    /// The method named by `s`.
    pub fn from_string(s: String) -> (r: Self)
        ensures
            r@ == s@,
    {
        HashMethod(s)
    }

    /// The method's name.
    pub fn as_str(&self) -> (r: &str)
        ensures
            r@ == self@,
    {
        self.0.as_str()
    }

    /// The method's name, as it is printed.
    pub fn to_string(&self) -> (r: String)
        ensures
            r@ == self@,
    {
        self.0.clone()
    }
}

/// The identity of an artifact.
#[derive(Debug)]
pub struct Hash {
    pub method: Option<HashMethod>,
    pub string: String,
}

/// What a `Hash` stands for.
pub ghost struct HashView {
    pub method: Option<Seq<char>>,
    pub string: Seq<char>,
}

impl View for Hash {
    type V = HashView;

    open spec fn view(&self) -> HashView {
        HashView {
            method: match self.method {
                Some(m) => Some(m@),
                None => None,
            },
            string: self.string@,
        }
    }
}

impl Clone for Hash {
    fn clone(&self) -> (r: Self)
        ensures
            r@ == self@,
    {
        Hash {
            method: match &self.method {
                Some(m) => Some(m.clone()),
                None => None,
            },
            string: self.string.clone(),
        }
    }
}

/// Why a text is no hash.
#[derive(Clone, Copy, Debug, PartialEq, Eq, Structural)]
pub enum HashParseError {
    /// Nothing follows the colon.
    MissingHash,
    /// The digest holds a character that is neither letter nor digit.
    HashNonAlphanumeric,
}

impl HashParseError {
    /// The text of the error.
    pub open spec fn message_spec(self) -> Seq<char> {
        match self {
            HashParseError::MissingHash => "Missing hash string"@,
            HashParseError::HashNonAlphanumeric =>
                "Hash string contains non-alphanumeric characters"@,
        }
    }

    /// The name of the variant.
    pub open spec fn debug_spec(self) -> Seq<char> {
        match self {
            HashParseError::MissingHash => "MissingHash"@,
            HashParseError::HashNonAlphanumeric => "HashNonAlphanumeric"@,
        }
    }

    /// The text of the error.
    pub fn message(&self) -> (r: String)
        ensures
            r@ == self.message_spec(),
    {
        match self {
            HashParseError::MissingHash => String::from_str("Missing hash string"),
            HashParseError::HashNonAlphanumeric => String::from_str(
                "Hash string contains non-alphanumeric characters",
            ),
        }
    }

    /// The name of the variant, as a debugging aid prints it.
    pub fn debug_text(&self) -> (r: String)
        ensures
            r@ == self.debug_spec(),
    {
        match self {
            HashParseError::MissingHash => String::from_str("MissingHash"),
            HashParseError::HashNonAlphanumeric => String::from_str("HashNonAlphanumeric"),
        }
    }
}

/// Every character of `s` is a letter or a digit.
pub open spec fn all_alphanumeric(s: Seq<char>) -> bool {
    forall|i: int| 0 <= i < s.len() ==> is_alnum(#[trigger] s[i])
}

/// The digest `digest` under the method `method`, if it is alphanumeric.
pub open spec fn checked_hash(method: Option<Seq<char>>, digest: Seq<char>) -> Result<
    HashView,
    HashParseError,
> {
    if all_alphanumeric(digest) {
        Ok(HashView { method, string: digest })
    } else {
        Err(HashParseError::HashNonAlphanumeric)
    }
}

/// The hash that a text stands for: `method:digest`, or a bare `digest`. An
/// empty method counts as none; an empty digest after a colon is refused.
pub open spec fn parse_hash(s: Seq<char>) -> Result<HashView, HashParseError> {
    match split_once(s, ':') {
        None => checked_hash(None, s),
        Some((m, d)) => if d.len() == 0 {
            Err(HashParseError::MissingHash)
        } else if m.len() == 0 {
            checked_hash(None, d)
        } else {
            checked_hash(Some(m), d)
        },
    }
}

/// The text of a hash: the digest, behind the method and a colon where the
/// hash has a method.
pub open spec fn hash_text(h: HashView) -> Seq<char> {
    match h.method {
        Some(m) => m + seq![':'] + h.string,
        None => h.string,
    }
}

/// Whether every character of `s` is a letter or a digit.
pub fn is_all_alphanumeric(s: &[char]) -> (b: bool)
    ensures
        b == all_alphanumeric(s@),
{
    let mut i: usize = 0;
    while i < s.len()
        invariant
            i <= s.len(),
            forall|j: int| 0 <= j < i ==> is_alnum(#[trigger] s@[j]),
        decreases s.len() - i,
    {
        if !s[i].is_alphanumeric() {
            return false;
        }
        i += 1;
    }
    true
}

impl Hash {
    /// A hash without a method.
    pub fn from_hash(string: String) -> (r: Self)
        ensures
            r@ == (HashView { method: None, string: string@ }),
    {
        Hash { method: None, string }
    }

    /// A hash with a method.
    pub fn from_method_hash(method: String, string: String) -> (r: Self)
        ensures
            r@ == (HashView { method: Some(method@), string: string@ }),
    {
        Hash { method: Some(HashMethod::from_string(method)), string }
    }

    /// Reads a hash from its characters.
    pub fn parse_chars(s: &[char]) -> (r: Result<Hash, HashParseError>)
        ensures
            match r {
                Ok(h) => parse_hash(s@) == Ok::<HashView, HashParseError>(h@),
                Err(e) => parse_hash(s@) == Err::<HashView, HashParseError>(e),
            },
    {
        let i = find_char(s, ':');
        let (method, digest): (Option<HashMethod>, &[char]) = if i < s.len() {
            let d = slice_subrange(s, i + 1, s.len());
            if d.len() == 0 {
                return Err(HashParseError::MissingHash);
            }
            if i == 0 {
                (None, d)
            } else {
                (Some(HashMethod::from_string(from_chars(slice_subrange(s, 0, i)))), d)
            }
        } else {
            (None, s)
        };
        if !is_all_alphanumeric(digest) {
            return Err(HashParseError::HashNonAlphanumeric);
        }
        Ok(Hash { method, string: from_chars(digest) })
    }

    /// Reads a hash from `method:digest` or from a bare `digest`.
    pub fn from_str(s: &str) -> (r: Result<Hash, HashParseError>)
        ensures
            match r {
                Ok(h) => parse_hash(s@) == Ok::<HashView, HashParseError>(h@),
                Err(e) => parse_hash(s@) == Err::<HashView, HashParseError>(e),
            },
    {
        let cs = to_chars(s);
        Hash::parse_chars(cs.as_slice())
    }

    /// The hash as text: `method:digest`, or the digest alone.
    pub fn to_string(&self) -> (r: String)
        ensures
            r@ == hash_text(self@),
    {
        match &self.method {
            Some(m) => {
                let mut out = m.to_string();
                out.append(":");
                out.append(self.string.as_str());
                proof {
                    reveal_strlit(":");
                    assert(":"@ =~= seq![':']);
                }
                out
            },
            None => self.string.clone(),
        }
    }

    /// Whether two hashes have the same method and the same digest.
    pub fn same(&self, other: &Hash) -> (b: bool)
        ensures
            b == (self@ == other@),
    {
        let methods = match (&self.method, &other.method) {
            (Some(a), Some(b)) => a.0 == b.0,
            (None, None) => true,
            _ => false,
        };
        methods && self.string == other.string
    }
}

/// An alphanumeric digest, read as a hash, is the hash without a method.
pub proof fn lemma_parse_bare_digest(digest: Seq<char>)
    requires
        all_alphanumeric(digest),
    ensures
        parse_hash(digest) == Ok::<HashView, HashParseError>(
            HashView { method: None, string: digest },
        ),
{
    assert forall|j: int| 0 <= j < digest.len() implies digest[j] != ':' by {
        assert(is_alnum(digest[j]));
    }
    lemma_find_from_is(digest, ':', 0, digest.len() as int);
}

/// A hash that was read from a text is read back from its own text. That
/// text is the text it was read from, less a colon at its start that no
/// method stands before; it is plain where the other was. A method that
/// was read is not empty.
pub proof fn lemma_hash_round_trip(v: Seq<char>)
    requires
        parse_hash(v).is_ok(),
    ensures
        ({
            let h = parse_hash(v).unwrap();
            let t = hash_text(h);
            &&& parse_hash(t) == Ok::<HashView, HashParseError>(h)
            &&& all_alphanumeric(h.string)
            &&& h.method matches Some(m) ==> m.len() > 0
            &&& t.len() <= v.len()
            &&& t == v.subrange(v.len() - t.len(), v.len() as int)
            &&& t == v || h.method.is_none()
            &&& no_line_feed(v) ==> no_line_feed(t)
            &&& is_trimmed(v) ==> is_trimmed(t)
        }),
{
    let h = parse_hash(v).unwrap();
    let t = hash_text(h);
    lemma_find_from(v, ':', 0);
    let i = find_from(v, ':', 0);
    if i < v.len() {
        let m = v.subrange(0, i);
        let d = v.subrange(i + 1, v.len() as int);
        assert(h.string == d);
        if m.len() == 0 {
            assert(t =~= v.subrange(v.len() - t.len(), v.len() as int));
            lemma_parse_bare_digest(d);
            assert(is_alnum(d[0]));
            assert(is_alnum(d[d.len() - 1]));
            assert forall|j: int| 0 <= j < d.len() implies #[trigger] d[j] != '\n' by {
                assert(is_alnum(d[j]));
            }
        } else {
            assert(t =~= v);
            assert(v =~= v.subrange(0, v.len() as int));
        }
    } else {
        assert(v =~= v.subrange(0, v.len() as int));
    }
}

} // verus!
