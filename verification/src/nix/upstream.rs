//! Upstream caches and the channels that list what they hold.

use crate::text::to_chars;
use vstd::prelude::*;
use vstd::string::StringExecFns;

verus! {

/// Why the `url` crate refuses a text.
#[verifier::external_type_specification]
#[verifier::external_body]
pub struct ExUrlParseError(url::ParseError);

/// The normal form in which the `url` crate writes the address that a text
/// stands for; `None` where it stands for none.
pub uninterp spec fn url_parsed(s: Seq<char>) -> Option<Seq<char>>;

/// The normal form of the address that `reference` stands for when it is
/// read relative to the address `base`; `None` where either is refused.
pub uninterp spec fn url_joined(base: Seq<char>, reference: Seq<char>) -> Option<Seq<char>>;

/// `url::Url::parse`, and the text that the address is written as: a
/// function of the text alone.
#[verifier::external_body]
fn parse_url(s: &str) -> (r: Result<String, url::ParseError>)
    ensures
        match r {
            Ok(t) => url_parsed(s@) == Some(t@),
            Err(_) => url_parsed(s@).is_none(),
        },
{
    url::Url::parse(s).map(String::from)
}

/// `url::Url::join` on the address that `base` is read as, and the text
/// that the result is written as: a function of the two texts alone.
#[verifier::external_body]
fn join_url(base: &str, reference: &str) -> (r: Result<String, url::ParseError>)
    ensures
        match r {
            Ok(t) => url_joined(base@, reference@) == Some(t@),
            Err(_) => url_joined(base@, reference@).is_none(),
        },
{
    url::Url::parse(base)?.join(reference).map(String::from)
}

/// A text that is no address, with the reason that the `url` crate gives.
#[derive(Debug)]
pub struct UrlError {
    pub text: String,
    pub cause: url::ParseError,
}

/// A remote cache, known by its address.
#[derive(Debug)]
pub struct Upstream {
    url: String,
}

impl View for Upstream {
    type V = Seq<char>;

    closed spec fn view(&self) -> Seq<char> {
        self.url@
    }
}

impl Clone for Upstream {
    fn clone(&self) -> (r: Self)
        ensures
            r@ == self@,
    {
        Upstream { url: self.url.clone() }
    }
}

impl Upstream {
    /// The upstream at the address that `url` stands for, in normal form.
    pub fn new(url: &str) -> (r: Result<Upstream, UrlError>)
        ensures
            match r {
                Ok(u) => url_parsed(url@) == Some(u@),
                Err(e) => url_parsed(url@).is_none() && e.text@ == url@,
            },
    {
        match parse_url(url) {
            Ok(t) => Ok(Upstream { url: t }),
            Err(cause) => Err(UrlError { text: String::from_str(url), cause }),
        }
    }

    /// The address of the upstream.
    pub fn url(&self) -> (r: &str)
        ensures
            r@ == self@,
    {
        self.url.as_str()
    }

    /// The address of the upstream, as text.
    pub fn to_string(&self) -> (r: String)
        ensures
            r@ == self@,
    {
        self.url.clone()
    }

    /// The address of `reference` at this upstream.
    pub fn join(&self, reference: &str) -> (r: Option<String>)
        ensures
            match r {
                Some(t) => url_joined(self@, reference@) == Some(t@),
                None => url_joined(self@, reference@).is_none(),
            },
    {
        match join_url(self.url.as_str(), reference) {
            Ok(t) => Some(t),
            Err(_) => None,
        }
    }
}

/// How early an upstream is tried: the lower, the earlier.
#[derive(Clone, Copy, Debug, PartialEq, Eq, Structural)]
pub struct Priority(pub u32);

impl Default for Priority {
    fn default() -> (r: Self)
        ensures
            r == Priority(40),
    {
        Priority(40)
    }
}

/// The name of a distribution channel.
#[derive(Debug)]
pub struct Channel(String);

impl View for Channel {
    type V = Seq<char>;

    closed spec fn view(&self) -> Seq<char> {
        self.0@
    }
}

impl Clone for Channel {
    fn clone(&self) -> (r: Self)
        ensures
            r@ == self@,
    {
        Channel(self.0.clone())
    }
}

impl Channel {
    /// The channel named `name`.
    pub fn new(name: String) -> (r: Self)
        ensures
            r@ == name@,
    {
        Channel(name)
    }

    /// The channel `nixos-unstable`.
    #[allow(non_snake_case)]
    pub fn NixosUnstable() -> (r: Self)
        ensures
            r@ == "nixos-unstable"@,
    {
        Channel(String::from_str("nixos-unstable"))
    }

    /// The channel `nixpkgs-unstable`.
    #[allow(non_snake_case)]
    pub fn NixpkgsUnstable() -> (r: Self)
        ensures
            r@ == "nixpkgs-unstable"@,
    {
        Channel(String::from_str("nixpkgs-unstable"))
    }

    /// The name of the channel.
    pub fn to_string(&self) -> (r: String)
        ensures
            r@ == self@,
    {
        self.0.clone()
    }
}

/// An upstream with its priority.
#[derive(Debug)]
pub struct PriorityUpstream {
    inner: Upstream,
    priority: Priority,
}

/// What a `PriorityUpstream` stands for.
pub ghost struct PriorityUpstreamView {
    pub url: Seq<char>,
    pub priority: u32,
}

impl View for PriorityUpstream {
    type V = PriorityUpstreamView;

    closed spec fn view(&self) -> PriorityUpstreamView {
        PriorityUpstreamView { url: self.inner@, priority: self.priority.0 }
    }
}

impl Clone for PriorityUpstream {
    fn clone(&self) -> (r: Self)
        ensures
            r@ == self@,
    {
        PriorityUpstream { inner: self.inner.clone(), priority: self.priority }
    }
}

/// Whether `a` stands before `b` in the order of the dictionary, from index
/// `i` on, the two being the same below `i`.
pub open spec fn text_before_from(a: Seq<char>, b: Seq<char>, i: int) -> bool
    decreases a.len() - i,
{
    if i < 0 || i >= b.len() {
        false
    } else if i >= a.len() {
        true
    } else if a[i] != b[i] {
        a[i] < b[i]
    } else {
        text_before_from(a, b, i + 1)
    }
}

/// Whether `a` stands before `b` in the order of the dictionary.
pub open spec fn text_before(a: Seq<char>, b: Seq<char>) -> bool {
    text_before_from(a, b, 0)
}

/// Whether `a` is tried before `b`: by priority, then by address.
pub open spec fn precedes(a: PriorityUpstreamView, b: PriorityUpstreamView) -> bool {
    a.priority < b.priority || (a.priority == b.priority && text_before(a.url, b.url))
}

/// Whether the text `a` stands before the text `b`.
pub fn is_text_before(a: &str, b: &str) -> (r: bool)
    ensures
        r == text_before(a@, b@),
{
    let x = to_chars(a);
    let y = to_chars(b);
    let mut i: usize = 0;
    while i < x.len() && i < y.len() && x[i] == y[i]
        invariant
            i <= x.len(),
            i <= y.len(),
            text_before(x@, y@) == text_before_from(x@, y@, i as int),
        decreases x.len() - i,
    {
        i += 1;
    }
    if i >= y.len() {
        false
    } else if i >= x.len() {
        true
    } else {
        x[i] < y[i]
    }
}

impl PriorityUpstream {
    /// The upstream at `url` with the priority that upstreams have where
    /// none is given.
    pub fn from_url(url: Upstream) -> (r: Self)
        ensures
            r@ == (PriorityUpstreamView { url: url@, priority: 40 }),
    {
        PriorityUpstream { inner: url, priority: Priority(40) }
    }

    /// The upstream at `url` with the priority `priority`.
    pub fn new(url: Upstream, priority: Priority) -> (r: Self)
        ensures
            r@ == (PriorityUpstreamView { url: url@, priority: priority.0 }),
    {
        PriorityUpstream { inner: url, priority }
    }

    /// Reads an upstream from its address; the priority is the usual one.
    pub fn from_str(s: &str) -> (r: Result<PriorityUpstream, UrlError>)
        ensures
            match r {
                Ok(u) => url_parsed(s@) == Some(u@.url) && u@.priority == 40,
                Err(e) => url_parsed(s@).is_none() && e.text@ == s@,
            },
    {
        match Upstream::new(s) {
            Ok(u) => Ok(PriorityUpstream::from_url(u)),
            Err(e) => Err(e),
        }
    }

    /// The address of the upstream.
    pub fn url(&self) -> (r: &str)
        ensures
            r@ == self@.url,
    {
        self.inner.url()
    }

    /// The priority of the upstream.
    pub fn priority(&self) -> (r: Priority)
        ensures
            r.0 == self@.priority,
    {
        self.priority
    }

    /// The upstream, without its priority.
    pub fn as_ref(&self) -> (r: &Upstream)
        ensures
            r@ == self@.url,
    {
        &self.inner
    }

    /// The upstream, without its priority.
    pub fn into_upstream(self) -> (r: Upstream)
        ensures
            r@ == self@.url,
    {
        self.inner
    }

    /// Whether this upstream is tried before `other`.
    pub fn is_before(&self, other: &PriorityUpstream) -> (r: bool)
        ensures
            r == precedes(self@, other@),
    {
        if self.priority.0 != other.priority.0 {
            self.priority.0 < other.priority.0
        } else {
            is_text_before(self.inner.url(), other.inner.url())
        }
    }

    /// Whether the two have the same address and the same priority.
    pub fn same(&self, other: &PriorityUpstream) -> (r: bool)
        ensures
            r == (self@ == other@),
    {
        self.priority.0 == other.priority.0 && self.inner.url == other.inner.url
    }
}

} // verus!
