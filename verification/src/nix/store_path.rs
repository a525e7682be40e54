//! Store paths: a directory and, below it, the name of a derivation.

use crate::nix::derivation::{
    derivation_name, lemma_derivation_round_trip, parse_derivation, Derivation,
    DerivationParseError, DerivationView,
};
use crate::nix::hash::hash_text;
use crate::nix::upstream::{is_text_before, text_before};
use crate::text::{
    debug_quoted, from_chars, is_alnum, is_space, no_line_feed, quoted, to_chars,
};
use vstd::prelude::*;
use vstd::slice::slice_subrange;
use vstd::string::StringExecFns;

verus! {

/// Where the body of a path begins: behind a leading slash, or behind a
/// leading dot that stands for the current directory.
pub open spec fn body_start(p: Seq<char>) -> int {
    if p.len() > 0 && p[0] == '/' {
        1
    } else if p.len() > 0 && p[0] == '.' && (p.len() == 1 || p[1] == '/') {
        1
    } else {
        0
    }
}

/// Where the last component of `p[..n]` begins: behind the last slash at or
/// after `start`, or at `start`.
pub open spec fn component_start(p: Seq<char>, start: int, n: int) -> int
    decreases n,
{
    if n <= start || n <= 0 || n > p.len() {
        start
    } else if p[n - 1] == '/' {
        n
    } else {
        component_start(p, start, n - 1)
    }
}

/// Where `p` ends once its last component, which begins at `cs`, and the
/// slash before it are cut off.
pub open spec fn cut_before(start: int, cs: int) -> int {
    if cs > start {
        cs - 1
    } else {
        start
    }
}

/// Whether the component `p[cs..n]` is empty or a single dot: such a
/// component is passed over.
pub open spec fn is_skipped(p: Seq<char>, cs: int, n: int) -> bool {
    cs == n || (cs + 1 == n && 0 <= cs < p.len() && p[cs] == '.')
}

/// The length to which `p[..n]` shrinks when the empty components and the
/// single dots at its end are dropped.
pub open spec fn trimmed_len(p: Seq<char>, start: int, n: int) -> int
    decreases n,
{
    if n <= start || n > p.len() || start < 0 {
        n
    } else {
        let cs = component_start(p, start, n);
        if is_skipped(p, cs, n) {
            proof {
                lemma_component_start(p, start, n);
            }
            trimmed_len(p, start, cut_before(start, cs))
        } else {
            n
        }
    }
}

pub proof fn lemma_component_start(p: Seq<char>, start: int, n: int)
    requires
        0 <= start <= n <= p.len(),
    ensures
        start <= component_start(p, start, n) <= n,
        component_start(p, start, n) > start ==> p[component_start(p, start, n) - 1] == '/',
        forall|k: int| component_start(p, start, n) <= k < n ==> p[k] != '/',
    decreases n,
{
    if n > start && n > 0 && p[n - 1] != '/' {
        lemma_component_start(p, start, n - 1);
    }
}

/// The directory and the last component of a path, as the operating system
/// reads it: slashes and single dots at the end do not count, and a path
/// that ends in the root, in the current directory or in `..` has no last
/// component.
pub open spec fn split_path(p: Seq<char>) -> Option<(Seq<char>, Seq<char>)> {
    let start = body_start(p);
    let n = trimmed_len(p, start, p.len() as int);
    if n <= start {
        None
    } else {
        let cs = component_start(p, start, n);
        let comp = p.subrange(cs, n);
        if comp == seq!['.', '.'] {
            None
        } else {
            Some((p.subrange(0, trimmed_len(p, start, cut_before(start, cs))), comp))
        }
    }
}

/// `name` below the directory `root`: a name that begins with a slash
/// stands alone, and a slash is put between the two where `root` is not
/// empty and does not end with one.
pub open spec fn join_path(root: Seq<char>, name: Seq<char>) -> Seq<char> {
    if name.len() > 0 && name[0] == '/' {
        name
    } else if root.len() == 0 || root[root.len() - 1] == '/' {
        root + name
    } else {
        root + seq!['/'] + name
    }
}

/// The path of `name` below `root`.
pub fn join(root: &str, name: &str) -> (r: String)
    ensures
        r@ == join_path(root@, name@),
{
    let rc = to_chars(root);
    let nc = to_chars(name);
    if nc.len() > 0 && nc[0] == '/' {
        return String::from_str(name);
    }
    let mut out = String::from_str(root);
    if rc.len() > 0 && rc[rc.len() - 1] != '/' {
        out.append("/");
        proof {
            reveal_strlit("/");
            assert("/"@ =~= seq!['/']);
        }
    }
    out.append(name);
    out
}

/// The index at which the last component of `p[..n]` begins.
fn find_component_start(p: &[char], start: usize, n: usize) -> (cs: usize)
    requires
        start <= n <= p.len(),
    ensures
        cs == component_start(p@, start as int, n as int),
        start <= cs <= n,
{
    let mut j: usize = n;
    while j > start && p[j - 1] != '/'
        invariant
            start <= j <= n <= p.len(),
            component_start(p@, start as int, n as int) == component_start(
                p@,
                start as int,
                j as int,
            ),
        decreases j,
    {
        j -= 1;
    }
    j
}

/// Drops the empty components and the single dots at the end of `p[..n]`.
fn trim_components(p: &[char], start: usize, n: usize) -> (m: usize)
    requires
        start <= n <= p.len(),
    ensures
        m == trimmed_len(p@, start as int, n as int),
        start <= m <= n,
{
    let mut m: usize = n;
    while m > start
        invariant
            start <= m <= n <= p.len(),
            trimmed_len(p@, start as int, n as int) == trimmed_len(p@, start as int, m as int),
        decreases m,
    {
        let cs = find_component_start(p, start, m);
        if cs == m || (cs + 1 == m && p[cs] == '.') {
            m = if cs > start { cs - 1 } else { start };
        } else {
            return m;
        }
    }
    m
}

/// Splits a path into its directory and its last component.
pub fn split(p: &[char]) -> (r: Option<(&[char], &[char])>)
    ensures
        match r {
            Some((root, name)) => split_path(p@) == Some((root@, name@)),
            None => split_path(p@).is_none(),
        },
{
    let start: usize = if p.len() > 0 && p[0] == '/' {
        1
    } else if p.len() > 0 && p[0] == '.' && (p.len() == 1 || p[1] == '/') {
        1
    } else {
        0
    };
    let n = trim_components(p, start, p.len());
    if n <= start {
        return None;
    }
    let cs = find_component_start(p, start, n);
    let comp = slice_subrange(p, cs, n);
    if comp.len() == 2 && comp[0] == '.' && comp[1] == '.' {
        assert(comp@ =~= seq!['.', '.']);
        return None;
    }
    assert(comp@ != seq!['.', '.']) by {
        if comp@ == seq!['.', '.'] {
            assert(comp@.len() == 2);
            assert(comp@[0] == '.' && comp@[1] == '.');
        }
    }
    let cut: usize = if cs > start { cs - 1 } else { start };
    let m = trim_components(p, start, cut);
    Some((slice_subrange(p, 0, m), comp))
}

/// A path in the store.
#[derive(Debug)]
pub struct StorePath {
    pub store_path_root: String,
    pub derivation: Derivation,
}

/// What a `StorePath` stands for.
pub ghost struct StorePathView {
    pub store_path_root: Seq<char>,
    pub derivation: DerivationView,
}

impl StorePathView {
    /// The full path: the derivation's name below the directory.
    pub open spec fn path(self) -> Seq<char> {
        join_path(self.store_path_root, derivation_name(self.derivation))
    }
}

impl View for StorePath {
    type V = StorePathView;

    open spec fn view(&self) -> StorePathView {
        StorePathView { store_path_root: self.store_path_root@, derivation: self.derivation@ }
    }
}

impl Clone for StorePath {
    fn clone(&self) -> (r: Self)
        ensures
            r@ == self@,
    {
        StorePath {
            store_path_root: self.store_path_root.clone(),
            derivation: self.derivation.clone(),
        }
    }
}

impl PartialEq for StorePath {
    /// Two store paths are the same where their full paths are.
    fn eq(&self, other: &Self) -> (r: bool) {
        self.path() == other.path()
    }
}

impl Eq for StorePath {

}

impl vstd::std_specs::cmp::PartialEqSpecImpl for StorePath {
    open spec fn obeys_eq_spec() -> bool {
        true
    }

    open spec fn eq_spec(&self, other: &Self) -> bool {
        self@.path() == other@.path()
    }
}

/// Why a text is no store path.
#[derive(Debug)]
pub enum StorePathParseError {
    /// The path has no directory or no last component; it holds the path.
    InvalidPath(String),
    /// The last component is no derivation.
    InvalidDerivation(DerivationParseError),
}

/// What a `StorePathParseError` stands for.
pub ghost enum StorePathParseErrorView {
    InvalidPath(Seq<char>),
    InvalidDerivation(DerivationParseError),
}

impl View for StorePathParseError {
    type V = StorePathParseErrorView;

    open spec fn view(&self) -> StorePathParseErrorView {
        match self {
            StorePathParseError::InvalidPath(p) => StorePathParseErrorView::InvalidPath(p@),
            StorePathParseError::InvalidDerivation(e) => StorePathParseErrorView::InvalidDerivation(
                *e,
            ),
        }
    }
}

impl StorePathParseErrorView {
    /// The text of the error.
    pub open spec fn message_spec(self) -> Seq<char> {
        match self {
            StorePathParseErrorView::InvalidPath(p) => "Invalid Store Path: "@ + debug_quoted(p),
            StorePathParseErrorView::InvalidDerivation(e) => "Invalid Derivation: "@
                + e.debug_spec(),
        }
    }
}

impl StorePathParseError {
    /// The text of the error.
    pub fn message(&self) -> (r: String)
        ensures
            r@ == self@.message_spec(),
    {
        match self {
            StorePathParseError::InvalidPath(p) => {
                let mut out = String::from_str("Invalid Store Path: ");
                out.append(quoted(p.as_str()).as_str());
                out
            },
            StorePathParseError::InvalidDerivation(e) => {
                let mut out = String::from_str("Invalid Derivation: ");
                out.append(e.debug_text().as_str());
                out
            },
        }
    }
}

/// The store path that a text stands for: its directory, and the derivation
/// that its last component names.
pub open spec fn parse_store_path(s: Seq<char>) -> Result<StorePathView, StorePathParseErrorView> {
    match split_path(s) {
        None => Err(StorePathParseErrorView::InvalidPath(s)),
        Some((root, name)) => match parse_derivation(name) {
            Err(e) => Err(StorePathParseErrorView::InvalidDerivation(e)),
            Ok(d) => Ok(StorePathView { store_path_root: root, derivation: d }),
        },
    }
}

impl StorePath {
    /// The full path.
    pub fn path(&self) -> (r: String)
        ensures
            r@ == self@.path(),
    {
        let name = self.derivation.name();
        join(self.store_path_root.as_str(), name.as_str())
    }

    /// The store path as text, which is its full path.
    pub fn to_string(&self) -> (r: String)
        ensures
            r@ == self@.path(),
    {
        self.path()
    }

    /// Reads a store path from its characters.
    pub fn parse_chars(s: &[char]) -> (r: Result<StorePath, StorePathParseError>)
        ensures
            match r {
                Ok(p) => parse_store_path(s@) == Ok::<StorePathView, StorePathParseErrorView>(p@),
                Err(e) => parse_store_path(s@) == Err::<StorePathView, StorePathParseErrorView>(
                    e@,
                ),
            },
    {
        match split(s) {
            None => Err(StorePathParseError::InvalidPath(from_chars(s))),
            Some((root, name)) => match Derivation::parse_chars(name) {
                Err(e) => Err(StorePathParseError::InvalidDerivation(e)),
                Ok(d) => Ok(StorePath { store_path_root: from_chars(root), derivation: d }),
            },
        }
    }

    /// Reads a store path from its text.
    pub fn from_str(s: &str) -> (r: Result<StorePath, StorePathParseError>)
        ensures
            match r {
                Ok(p) => parse_store_path(s@) == Ok::<StorePathView, StorePathParseErrorView>(p@),
                Err(e) => parse_store_path(s@) == Err::<StorePathView, StorePathParseErrorView>(
                    e@,
                ),
            },
    {
        let cs = to_chars(s);
        StorePath::parse_chars(cs.as_slice())
    }

    /// Whether this store path stands before `other`: store paths are
    /// ordered as their full paths are, as texts.
    pub fn is_before(&self, other: &StorePath) -> (b: bool)
        ensures
            b == text_before(self@.path(), other@.path()),
    {
        is_text_before(self.path().as_str(), other.path().as_str())
    }

    /// Whether two store paths have the same full path.
    pub fn same_path(&self, other: &StorePath) -> (b: bool)
        ensures
            b == (self@.path() == other@.path()),
    {
        self.path() == other.path()
    }
}

/// Where a path may be cut: at the start of its body, or at a slash.
pub open spec fn is_cut(p: Seq<char>, start: int, x: int) -> bool {
    x == start || (start <= x < p.len() && p[x] == '/')
}

/// A last component without a slash begins where `component_start` says.
pub proof fn lemma_component_start_is(p: Seq<char>, start: int, n: int, k: int)
    requires
        0 <= start <= k <= n <= p.len(),
        k > start ==> p[k - 1] == '/',
        forall|j: int| k <= j < n ==> p[j] != '/',
    ensures
        component_start(p, start, n) == k,
    decreases n - k,
{
    if k < n {
        lemma_component_start_is(p, start, n - 1, k);
    }
}

/// Two paths that agree below `n` have their last component below `n` at
/// the same place.
pub proof fn lemma_component_start_agree(p: Seq<char>, q: Seq<char>, start: int, n: int)
    requires
        0 <= start,
        n <= p.len(),
        n <= q.len(),
        forall|j: int| 0 <= j < n ==> p[j] == q[j],
    ensures
        component_start(p, start, n) == component_start(q, start, n),
    decreases n,
{
    if n > start && n > 0 && p[n - 1] != '/' {
        lemma_component_start_agree(p, q, start, n - 1);
    }
}

/// Two paths that agree below `n` shrink to the same length below `n`.
pub proof fn lemma_trimmed_len_agree(p: Seq<char>, q: Seq<char>, start: int, n: int)
    requires
        0 <= start,
        n <= p.len(),
        n <= q.len(),
        forall|j: int| 0 <= j < n ==> p[j] == q[j],
    ensures
        trimmed_len(p, start, n) == trimmed_len(q, start, n),
    decreases n,
{
    if n > start {
        lemma_component_start_agree(p, q, start, n);
        lemma_component_start(p, start, n);
        let cs = component_start(p, start, n);
        if is_skipped(p, cs, n) {
            lemma_trimmed_len_agree(p, q, start, cut_before(start, cs));
        }
    }
}

/// What `trimmed_len` gives lies between the start of the body and `n`,
/// shrinks no further, ends in a component that counts where it is past
/// the start of the body, and is a place to cut where `n` was.
pub proof fn lemma_trimmed_len(p: Seq<char>, start: int, n: int)
    requires
        0 <= start <= n <= p.len(),
    ensures
        start <= trimmed_len(p, start, n) <= n,
        trimmed_len(p, start, trimmed_len(p, start, n)) == trimmed_len(p, start, n),
        trimmed_len(p, start, n) > start ==> !is_skipped(
            p,
            component_start(p, start, trimmed_len(p, start, n)),
            trimmed_len(p, start, n),
        ),
        is_cut(p, start, n) ==> is_cut(p, start, trimmed_len(p, start, n)),
    decreases n,
{
    if n > start {
        lemma_component_start(p, start, n);
        let cs = component_start(p, start, n);
        if is_skipped(p, cs, n) {
            lemma_trimmed_len(p, start, cut_before(start, cs));
        }
    }
}

/// The first component of the body, where it counts, is never dropped:
/// what is left of `p[..x]` reaches at least to its end at `k`.
pub proof fn lemma_trimmed_len_keeps_first(p: Seq<char>, start: int, k: int, x: int)
    requires
        0 <= start < k <= x <= p.len(),
        forall|j: int| start <= j < k ==> p[j] != '/',
        k < x ==> p[k] == '/',
        !(k == start + 1 && p[start] == '.'),
    ensures
        trimmed_len(p, start, x) >= k,
    decreases x,
{
    lemma_component_start(p, start, x);
    let cs = component_start(p, start, x);
    if cs > start && is_skipped(p, cs, x) {
        assert(p[cs - 1] == '/');
        assert(cs - 1 >= k);
        lemma_trimmed_len_keeps_first(p, start, k, cs - 1);
    }
}

/// The path of a store path that was read from a text is read back as the
/// same store path.
pub proof fn lemma_store_path_round_trip(p: Seq<char>)
    requires
        parse_store_path(p).is_ok(),
    ensures
        ({
            let sp = parse_store_path(p)->Ok_0;
            let q = sp.path();
            &&& parse_store_path(q) == Ok::<StorePathView, StorePathParseErrorView>(sp)
            &&& q.len() > 0
            &&& no_line_feed(p) ==> no_line_feed(q)
            &&& (p.len() > 0 && !is_space(p[0])) ==> !is_space(q[0])
        }),
{
    let sp = parse_store_path(p)->Ok_0;
    let q = sp.path();
    let root = sp.store_path_root;
    let d = sp.derivation;
    let n = derivation_name(d);
    let start = body_start(p);
    let big = trimmed_len(p, start, p.len() as int);
    lemma_trimmed_len(p, start, p.len() as int);
    let cs = component_start(p, start, big);
    lemma_component_start(p, start, big);
    let comp = p.subrange(cs, big);
    let cut = cut_before(start, cs);
    let m = trimmed_len(p, start, cut);
    lemma_trimmed_len(p, start, cut);
    assert(is_cut(p, start, cut));
    assert(root == p.subrange(0, m));
    lemma_derivation_round_trip(comp);
    let t = hash_text(d.hash);
    let off = comp.len() - n.len();
    assert forall|j: int| 0 <= j < n.len() implies #[trigger] n[j] != '/' by {
        assert(n[j] == comp[off + j]);
        assert(comp[off + j] == p[cs + off + j]);
    }
    assert(n != seq!['.', '.']) by {
        if n == seq!['.', '.'] {
            assert(n[t.len() as int] == '-');
            assert(seq!['.', '.'][t.len() as int] == '.');
        }
    }
    if no_line_feed(p) {
        assert forall|j: int| 0 <= j < q.len() implies #[trigger] q[j] != '\n' by {
            if j < root.len() {
                assert(q[j] == p[j]);
            } else if j >= q.len() - n.len() {
                let k = j - (q.len() - n.len());
                assert(q[j] == n[k]);
                assert(n[k] == comp[off + k]);
                assert(comp[off + k] == p[cs + off + k]);
            }
        }
    }
    if m == 0 {
        // The directory is empty: the path is the name alone.
        assert(root =~= Seq::<char>::empty());
        assert(q =~= n);
        assert(body_start(q) == 0);
        lemma_component_start_is(q, 0, q.len() as int, 0);
        assert(!is_skipped(q, 0, q.len() as int));
        assert(trimmed_len(q, 0, q.len() as int) == q.len());
        assert(q.subrange(0, q.len() as int) =~= q);
        assert(trimmed_len(q, 0, 0) == 0);
        assert(q.subrange(0, 0) =~= root);
        if p.len() > 0 && !is_space(p[0]) {
            assert(!is_space(n[0])) by {
                if d.hash.method.is_none() {
                    if d.hash.string.len() > 0 {
                        assert(n[0] == d.hash.string[0]);
                        assert(is_alnum(d.hash.string[0]));
                    }
                } else {
                    // The name is the whole last component, which begins the path.
                    assert(n == comp);
                    if cs > 0 {
                        crate::text::lemma_find_from(p, '/', 0);
                        let k = crate::text::find_from(p, '/', 0);
                        assert(p[cs - 1] == '/');
                        assert(1 <= k <= cs - 1);
                        lemma_trimmed_len_keeps_first(p, 0, k, cs - 1);
                    }
                    assert(cs == 0);
                    assert(n[0] == p[0]);
                }
            }
        }
    } else if m == start {
        // The directory is the root or the current directory.
        assert(m == 1);
        if p[0] == '/' {
            assert(root =~= seq!['/']);
            assert(q =~= seq!['/'] + n);
        } else {
            assert(root =~= seq!['.']);
            assert(q =~= seq!['.'] + seq!['/'] + n);
        }
        let from = q.len() - n.len();
        assert forall|j: int| from <= j < q.len() implies q[j] != '/' by {
            assert(q[j] == n[j - from]);
        }
        assert(body_start(q) == 1);
        lemma_component_start_is(q, 1, q.len() as int, from);
        assert(!is_skipped(q, from, q.len() as int));
        assert(trimmed_len(q, 1, q.len() as int) == q.len());
        assert(q.subrange(from, q.len() as int) =~= n);
        assert(cut_before(1, from) == 1);
        assert(trimmed_len(q, 1, 1) == 1);
        assert(q.subrange(0, 1) =~= root);
    } else {
        // The directory ends in a component of its own.
        assert(m > start);
        let csr = component_start(p, start, m);
        lemma_component_start(p, start, m);
        assert(p[m - 1] != '/');
        assert(root[root.len() - 1] == p[m - 1]);
        assert(q =~= root + seq!['/'] + n);
        assert(q[0] == p[0]);
        if m >= 2 {
            assert(q[1] == p[1]);
        } else {
            assert(p[1] == '/');
            assert(q[1] == '/');
        }
        assert(body_start(q) == start);
        let from = m + 1;
        assert(q[m] == '/');
        assert forall|j: int| from <= j < q.len() implies q[j] != '/' by {
            assert(q[j] == n[j - from]);
        }
        lemma_component_start_is(q, start, q.len() as int, from);
        assert(!is_skipped(q, from, q.len() as int));
        assert(trimmed_len(q, start, q.len() as int) == q.len());
        assert(q.subrange(from, q.len() as int) =~= n);
        assert(cut_before(start, from) == m);
        assert forall|j: int| 0 <= j < m implies p[j] == q[j] by {
            assert(q[j] == root[j]);
        }
        lemma_trimmed_len_agree(p, q, start, m);
        assert(trimmed_len(q, start, m) == m);
        assert(q.subrange(0, m) =~= root);
    }
}

} // verus!
