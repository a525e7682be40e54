//! The settings of the proxy, and the ordered set of its upstreams.

use crate::nix::upstream::{
    precedes, text_before_from, url_parsed, Channel, Priority, PriorityUpstream,
    PriorityUpstreamView, Upstream, UrlError,
};
use vstd::prelude::*;
use vstd::string::StringExecFns;

verus! {

/// No text stands before itself.
pub proof fn lemma_text_before_irreflexive(a: Seq<char>, i: int)
    requires
        0 <= i,
    ensures
        !text_before_from(a, a, i),
    decreases a.len() - i,
{
    if i < a.len() {
        lemma_text_before_irreflexive(a, i + 1);
    }
}

/// A text that stands before a second, which stands before a third, stands
/// before the third.
pub proof fn lemma_text_before_transitive(a: Seq<char>, b: Seq<char>, c: Seq<char>, i: int)
    requires
        0 <= i,
        text_before_from(a, b, i),
        text_before_from(b, c, i),
    ensures
        text_before_from(a, c, i),
    decreases a.len() - i,
{
    if i < a.len() && i < b.len() && i < c.len() && a[i] == b[i] && b[i] == c[i] {
        lemma_text_before_transitive(a, b, c, i + 1);
    }
}

/// Of two texts that are the same below `i`, one stands before the other,
/// or they are the same.
pub proof fn lemma_text_before_total(a: Seq<char>, b: Seq<char>, i: int)
    requires
        0 <= i <= a.len(),
        i <= b.len(),
        a.subrange(0, i) == b.subrange(0, i),
        !text_before_from(a, b, i),
        !text_before_from(b, a, i),
    ensures
        a == b,
    decreases a.len() - i,
{
    if i < a.len() && i < b.len() {
        assert(a[i] == b[i]);
        assert(a.subrange(0, i + 1) =~= a.subrange(0, i).push(a[i]));
        assert(b.subrange(0, i + 1) =~= b.subrange(0, i).push(b[i]));
        lemma_text_before_total(a, b, i + 1);
    } else {
        assert(a.len() == b.len());
        assert(a =~= a.subrange(0, i));
        assert(b =~= b.subrange(0, i));
    }
}

/// The order of upstreams is strict: none is tried before itself.
pub proof fn lemma_precedes_irreflexive(a: PriorityUpstreamView)
    ensures
        !precedes(a, a),
{
    lemma_text_before_irreflexive(a.url, 0);
}

/// The order of upstreams passes on: before a second that is before a
/// third is before the third.
pub proof fn lemma_precedes_transitive(
    a: PriorityUpstreamView,
    b: PriorityUpstreamView,
    c: PriorityUpstreamView,
)
    requires
        precedes(a, b),
        precedes(b, c),
    ensures
        precedes(a, c),
{
    if a.priority == b.priority && b.priority == c.priority {
        lemma_text_before_transitive(a.url, b.url, c.url, 0);
    }
}

/// The order of upstreams leaves no two apart: one is before the other, or
/// they are the same.
pub proof fn lemma_precedes_total(a: PriorityUpstreamView, b: PriorityUpstreamView)
    requires
        !precedes(a, b),
        !precedes(b, a),
    ensures
        a == b,
{
    assert(a.url.subrange(0, 0) =~= b.url.subrange(0, 0));
    lemma_text_before_total(a.url, b.url, 0);
}

/// Each upstream of the list is tried before all that follow it.
pub open spec fn is_ordered(s: Seq<PriorityUpstreamView>) -> bool {
    forall|i: int, j: int| 0 <= i < j < s.len() ==> precedes(#[trigger] s[i], #[trigger] s[j])
}

/// What a list of upstreams stands for.
pub open spec fn upstreams_of(v: Seq<PriorityUpstream>) -> Seq<PriorityUpstreamView> {
    v.map_values(|u: PriorityUpstream| u@)
}

/// The upstreams of the proxy, in the order in which they are tried: by
/// priority, then by address, none twice.
#[derive(Debug)]
pub struct UpstreamSet {
    items: Vec<PriorityUpstream>,
}

impl View for UpstreamSet {
    type V = Seq<PriorityUpstreamView>;

    closed spec fn view(&self) -> Seq<PriorityUpstreamView> {
        upstreams_of(self.items@)
    }
}

impl UpstreamSet {
    /// The upstreams are in order.
    pub open spec fn wf(&self) -> bool {
        is_ordered(self@)
    }

    /// The set without upstreams.
    pub fn new() -> (r: Self)
        ensures
            r.wf(),
            r@ == Seq::<PriorityUpstreamView>::empty(),
    {
        let r = UpstreamSet { items: Vec::new() };
        assert(r@ =~= Seq::<PriorityUpstreamView>::empty());
        r
    }

    /// How many upstreams the set holds.
    pub fn len(&self) -> (n: usize)
        ensures
            n == self@.len(),
    {
        self.items.len()
    }

    /// The upstream that is tried as the `i`th, counted from 0.
    pub fn get(&self, i: usize) -> (u: &PriorityUpstream)
        requires
            i < self@.len(),
        ensures
            u@ == self@[i as int],
    {
        &self.items[i]
    }

    /// Puts `u` into the set, at its place in the order. A set that holds
    /// `u` already stays as it is. Tells whether `u` was put in.
    pub fn insert(&mut self, u: PriorityUpstream) -> (added: bool)
        requires
            old(self).wf(),
        ensures
            final(self).wf(),
            added == !old(self)@.contains(u@),
            final(self)@.contains(u@),
            forall|x: PriorityUpstreamView|
                final(self)@.contains(x) <==> (old(self)@.contains(x) || x == u@),
            final(self)@.len() == old(self)@.len() + (if added { 1int } else { 0int }),
    {
        let ghost before = self@;
        let ghost uv = u@;
        let mut i: usize = 0;
        while i < self.items.len() && self.items[i].is_before(&u)
            invariant
                i <= self.items.len(),
                self@ == before,
                is_ordered(before),
                uv == u@,
                forall|j: int| 0 <= j < i ==> precedes(#[trigger] before[j], uv),
            decreases self.items.len() - i,
        {
            i += 1;
        }
        proof {
            // Nothing before the place is the new upstream.
            assert forall|j: int| 0 <= j < i implies before[j] != uv by {
                lemma_precedes_irreflexive(uv);
            }
        }
        if i < self.items.len() && self.items[i].same(&u) {
            proof {
                assert(before[i as int] == uv);
                assert(before.contains(uv));
            }
            return false;
        }
        proof {
            // All from the place on come after the new upstream.
            if i < before.len() {
                assert(!precedes(before[i as int], uv));
                assert(before[i as int] != uv);
                if !precedes(uv, before[i as int]) {
                    lemma_precedes_total(before[i as int], uv);
                }
                assert forall|j: int| i <= j < before.len() implies precedes(
                    uv,
                    #[trigger] before[j],
                ) by {
                    if j > i {
                        lemma_precedes_transitive(uv, before[i as int], before[j]);
                    }
                }
            }
            assert forall|j: int| i <= j < before.len() implies before[j] != uv by {
                lemma_precedes_irreflexive(uv);
            }
            assert(!before.contains(uv));
        }
        self.items.insert(i, u);
        proof {
            let after = self@;
            assert(after =~= before.insert(i as int, uv));
            assert forall|a: int, b: int| 0 <= a < b < after.len() implies precedes(
                #[trigger] after[a],
                #[trigger] after[b],
            ) by {
                if a < i && b == i {
                    assert(after[a] == before[a]);
                } else if a < i && b > i {
                    assert(after[a] == before[a]);
                    assert(after[b] == before[b - 1]);
                } else if a == i {
                    assert(after[b] == before[b - 1]);
                } else if a > i {
                    assert(after[a] == before[a - 1]);
                    assert(after[b] == before[b - 1]);
                } else {
                    assert(after[a] == before[a]);
                    assert(after[b] == before[b]);
                }
            }
            assert(after[i as int] == uv);
            assert forall|x: PriorityUpstreamView| after.contains(x) <==> (before.contains(x) || x
                == uv) by {
                if after.contains(x) {
                    let k = choose|k: int| 0 <= k < after.len() && after[k] == x;
                    if k < i {
                        assert(before[k] == x);
                    } else if k > i {
                        assert(before[k - 1] == x);
                    }
                }
                if before.contains(x) {
                    let k = choose|k: int| 0 <= k < before.len() && before[k] == x;
                    if k < i {
                        assert(after[k] == x);
                    } else {
                        assert(after[k + 1] == x);
                    }
                }
            }
        }
        true
    }
}

/// One upstream as the settings name it: an address alone, or an address
/// with a priority that may be left out.
#[derive(Debug)]
pub enum UpstreamEntry {
    Address(String),
    Record { url: String, priority: Option<u32> },
}

/// What an `UpstreamEntry` stands for: the address as it is written, and
/// the priority, 40 where none is given.
pub ghost struct UpstreamEntryView {
    pub url: Seq<char>,
    pub priority: u32,
}

impl View for UpstreamEntry {
    type V = UpstreamEntryView;

    open spec fn view(&self) -> UpstreamEntryView {
        match self {
            UpstreamEntry::Address(url) => UpstreamEntryView { url: url@, priority: 40 },
            UpstreamEntry::Record { url, priority } => UpstreamEntryView {
                url: url@,
                priority: match priority {
                    Some(p) => *p,
                    None => 40,
                },
            },
        }
    }
}

/// Whether the address of the entry is one.
pub open spec fn entry_is_valid(e: UpstreamEntryView) -> bool {
    url_parsed(e.url).is_some()
}

/// The upstream that a valid entry names.
pub open spec fn entry_upstream(e: UpstreamEntryView) -> PriorityUpstreamView {
    PriorityUpstreamView { url: url_parsed(e.url).unwrap(), priority: e.priority }
}

impl UpstreamEntry {
    /// The upstream that the entry names.
    pub fn to_upstream(&self) -> (r: Result<PriorityUpstream, UrlError>)
        ensures
            match r {
                Ok(u) => entry_is_valid(self@) && u@ == entry_upstream(self@),
                Err(e) => !entry_is_valid(self@) && e.text@ == self@.url,
            },
    {
        match self {
            UpstreamEntry::Address(url) => PriorityUpstream::from_str(url.as_str()),
            UpstreamEntry::Record { url, priority } => {
                let p = match priority {
                    Some(p) => Priority(*p),
                    None => Priority(40),
                };
                match Upstream::new(url.as_str()) {
                    Ok(u) => Ok(PriorityUpstream::new(u, p)),
                    Err(e) => Err(e),
                }
            },
        }
    }
}

/// The ordered set of the upstreams that the entries name. The first entry
/// whose address is none makes the whole list fail.
pub fn upstreams_from_entries(entries: &Vec<UpstreamEntry>) -> (r: Result<UpstreamSet, UrlError>)
    ensures
        match r {
            Ok(set) => {
                &&& set.wf()
                &&& forall|i: int| 0 <= i < entries.len() ==> entry_is_valid(#[trigger] entries[i]@)
                &&& forall|x: PriorityUpstreamView|
                    set@.contains(x) <==> exists|i: int|
                        0 <= i < entries.len() && x == entry_upstream(#[trigger] entries[i]@)
            },
            Err(e) => exists|i: int|
                0 <= i < entries.len() && !entry_is_valid(#[trigger] entries[i]@) && e.text@
                    == entries[i]@.url && forall|j: int|
                    0 <= j < i ==> entry_is_valid(#[trigger] entries[j]@),
        },
{
    let mut set = UpstreamSet::new();
    let mut k: usize = 0;
    while k < entries.len()
        invariant
            k <= entries.len(),
            set.wf(),
            forall|i: int| 0 <= i < k ==> entry_is_valid(#[trigger] entries[i]@),
            forall|x: PriorityUpstreamView|
                set@.contains(x) <==> exists|i: int|
                    0 <= i < k && x == entry_upstream(#[trigger] entries[i]@),
        decreases entries.len() - k,
    {
        match entries[k].to_upstream() {
            Err(e) => {
                return Err(e);
            },
            Ok(u) => {
                let ghost before = set@;
                let ghost uv = u@;
                set.insert(u);
                proof {
                    assert forall|x: PriorityUpstreamView| set@.contains(x) <==> exists|i: int|
                        0 <= i < k + 1 && x == entry_upstream(#[trigger] entries[i]@) by {
                        if set@.contains(x) {
                            if x == uv {
                                assert(x == entry_upstream(entries[k as int]@));
                            } else {
                                assert(before.contains(x));
                                let i = choose|i: int|
                                    0 <= i < k && x == entry_upstream(#[trigger] entries[i]@);
                                assert(0 <= i < k + 1 && x == entry_upstream(entries[i]@));
                            }
                        }
                        if exists|i: int|
                            0 <= i < k + 1 && x == entry_upstream(#[trigger] entries[i]@) {
                            let i = choose|i: int|
                                0 <= i < k + 1 && x == entry_upstream(#[trigger] entries[i]@);
                            if i < k {
                                assert(before.contains(x));
                            }
                        }
                    }
                }
            },
        }
        k += 1;
    }
    Ok(set)
}

/// The settings of the proxy.
#[derive(Debug)]
pub struct Config {
    pub upstreams: UpstreamSet,
    pub channel_url: Upstream,
    pub channels: Vec<Channel>,
    pub local_data_path: String,
    pub database_max_connections: u32,
}

impl Config {
    /// The settings are in order.
    pub open spec fn wf(&self) -> bool {
        self.upstreams.wf()
    }

    /// The settings that hold where none are given: one upstream, one
    /// channel, the working directory for the data, twenty connections.
    pub fn default() -> (r: Result<Config, UrlError>)
        ensures
            match r {
                Ok(c) => {
                    &&& c.wf()
                    &&& url_parsed("https://cache.nixos.org/"@) is Some
                    &&& c.upstreams@ == seq![
                        PriorityUpstreamView {
                            url: url_parsed("https://cache.nixos.org/"@).unwrap(),
                            priority: 40,
                        },
                    ]
                    &&& url_parsed("https://channels.nixos.org/"@) == Some(c.channel_url@)
                    &&& c.channels@.len() == 1
                    &&& c.channels@[0]@ == "nixpkgs-unstable"@
                    &&& c.local_data_path@ == "."@
                    &&& c.database_max_connections == 20
                },
                Err(e) => url_parsed("https://cache.nixos.org/"@).is_none() || url_parsed(
                    "https://channels.nixos.org/"@,
                ).is_none(),
            },
    {
        let cache = match PriorityUpstream::from_str("https://cache.nixos.org/") {
            Ok(u) => u,
            Err(e) => return Err(e),
        };
        let channel_url = match Upstream::new("https://channels.nixos.org/") {
            Ok(u) => u,
            Err(e) => return Err(e),
        };
        let mut upstreams = UpstreamSet::new();
        let ghost cv = cache@;
        upstreams.insert(cache);
        proof {
            let s = upstreams@;
            assert(s.len() == 1);
            assert(s.contains(cv));
            assert(s[0] == cv);
            assert(s =~= seq![cv]);
        }
        let mut channels: Vec<Channel> = Vec::new();
        channels.push(Channel::NixpkgsUnstable());
        Ok(
            Config {
                upstreams,
                channel_url,
                channels,
                local_data_path: String::from_str("."),
                database_max_connections: 20,
            },
        )
    }
}

} // verus!
