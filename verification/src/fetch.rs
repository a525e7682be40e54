//! Asking the upstreams: the order in which they are tried for an
//! artifact, and the reading of the list of store paths of a channel.

use crate::config::UpstreamSet;
use crate::jobs::{Fetched, FetchedView};
use crate::nix::hash;
use crate::nix::nar_info::{parse_nar_info, NarInfo, NarInfoView};
use crate::nix::store_path::{
    parse_store_path, StorePath, StorePathParseError, StorePathParseErrorView, StorePathView,
};
use crate::nix::upstream::{url_joined, Channel, PriorityUpstreamView, Upstream};
use crate::text::{after_first_line, first_line, take_line, to_chars, trim, trim_chars};
use vstd::prelude::*;
use vstd::string::StringExecFns;

verus! {

/// The text that a compressed stream in the `xz` format holds; `None` where
/// the bytes are no such stream, or what they hold is no text.
pub uninterp spec fn xz_decoded(bytes: Seq<u8>) -> Option<Seq<char>>;

/// `xz2::read::XzDecoder` read to its end as a string: the text that the
/// stream holds, which depends on the bytes alone.
#[verifier::external_body]
pub(crate) fn decode_xz_to_string(bytes: &[u8]) -> (r: Option<String>)
    ensures
        match r {
            Some(t) => xz_decoded(bytes@) == Some(t@),
            None => xz_decoded(bytes@).is_none(),
        },
{
    let mut content = String::new();
    match std::io::Read::read_to_string(&mut xz2::read::XzDecoder::new(bytes), &mut content) {
        Ok(_) => Some(content),
        Err(_) => None,
    }
}

/// The name of the file in which a channel lists its store paths.
pub open spec fn store_paths_file(channel: Seq<char>) -> Seq<char> {
    channel + "/store-paths.xz"@
}

/// The address of the list of store paths of a channel; `None` where the
/// channel's name cannot be part of an address.
pub fn channel_store_url(channel_url: &Upstream, channel: &Channel) -> (r: Option<String>)
    ensures
        match r {
            Some(t) => url_joined(channel_url@, store_paths_file(channel@)) == Some(t@),
            None => url_joined(channel_url@, store_paths_file(channel@)).is_none(),
        },
{
    let mut file = channel.to_string();
    file.append("/store-paths.xz");
    channel_url.join(file.as_str())
}

/// A store path put before what reading the rest gave.
pub open spec fn path_then(
    p: StorePathView,
    rest: Result<Seq<StorePathView>, StorePathParseErrorView>,
) -> Result<Seq<StorePathView>, StorePathParseErrorView> {
    match rest {
        Ok(ps) => Ok(seq![p] + ps),
        Err(e) => Err(e),
    }
}

/// The store paths that the lines of a text stand for, or why the first
/// line that stands for none does not.
pub open spec fn parse_path_lines(s: Seq<char>) -> Result<
    Seq<StorePathView>,
    StorePathParseErrorView,
>
    decreases s.len(),
{
    if s.len() == 0 {
        Ok(Seq::empty())
    } else {
        proof {
            crate::text::lemma_find_from(s, '\n', 0);
        }
        match parse_store_path(first_line(s)) {
            Err(e) => Err(e),
            Ok(p) => path_then(p, parse_path_lines(after_first_line(s))),
        }
    }
}

/// The store paths that the list of a channel holds: one per line, white
/// space around the whole not counting.
pub open spec fn parse_store_paths(text: Seq<char>) -> Result<
    Seq<StorePathView>,
    StorePathParseErrorView,
> {
    parse_path_lines(trim(text))
}

/// What a list of store paths stands for.
pub open spec fn store_paths_of(v: Seq<StorePath>) -> Seq<StorePathView> {
    v.map_values(|p: StorePath| p@)
}

/// What was read, then what reading the rest gave.
pub open spec fn paths_then(
    done: Seq<StorePathView>,
    rest: Result<Seq<StorePathView>, StorePathParseErrorView>,
) -> Result<Seq<StorePathView>, StorePathParseErrorView> {
    match rest {
        Ok(ps) => Ok(done + ps),
        Err(e) => Err(e),
    }
}

/// Reads the list of store paths of a channel.
pub fn read_store_paths(text: &str) -> (r: Result<Vec<StorePath>, StorePathParseError>)
    ensures
        match r {
            Ok(ps) => parse_store_paths(text@) == Ok::<
                Seq<StorePathView>,
                StorePathParseErrorView,
            >(store_paths_of(ps@)),
            Err(e) => parse_store_paths(text@) == Err::<
                Seq<StorePathView>,
                StorePathParseErrorView,
            >(e@),
        },
{
    let cs = to_chars(text);
    let body = trim_chars(cs.as_slice());
    let mut out: Vec<StorePath> = Vec::new();
    let mut rest: &[char] = body;
    while rest.len() > 0
        invariant
            body@ == trim(text@),
            parse_path_lines(body@) == paths_then(store_paths_of(out@), parse_path_lines(rest@)),
        decreases rest@.len(),
    {
        let (line, tail) = take_line(rest);
        match StorePath::parse_chars(line) {
            Err(e) => {
                return Err(e);
            },
            Ok(p) => {
                let ghost before = store_paths_of(out@);
                let ghost pv = p@;
                out.push(p);
                proof {
                    assert(store_paths_of(out@) =~= before + seq![pv]);
                    assert(forall|t: Seq<StorePathView>|
                        #![auto]
                        before + (seq![pv] + t) =~= (before + seq![pv]) + t);
                }
                rest = tail;
            },
        }
    }
    proof {
        assert(store_paths_of(out@) + Seq::<StorePathView>::empty() =~= store_paths_of(out@));
    }
    Ok(out)
}

/// Why the list of store paths of a channel cannot be read.
#[derive(Debug)]
pub enum ChannelStoreError {
    /// The bytes are no compressed text.
    NotDecodable,
    /// A line is no store path.
    InvalidStorePath(StorePathParseError),
}

/// The store paths that the compressed list of a channel holds.
pub fn request_channel_store(bytes: &[u8]) -> (r: Result<Vec<StorePath>, ChannelStoreError>)
    ensures
        match r {
            Ok(ps) => xz_decoded(bytes@).is_some() && parse_store_paths(xz_decoded(bytes@).unwrap())
                == Ok::<Seq<StorePathView>, StorePathParseErrorView>(store_paths_of(ps@)),
            Err(ChannelStoreError::NotDecodable) => xz_decoded(bytes@).is_none(),
            Err(ChannelStoreError::InvalidStorePath(e)) => xz_decoded(bytes@).is_some()
                && parse_store_paths(xz_decoded(bytes@).unwrap()) == Err::<
                Seq<StorePathView>,
                StorePathParseErrorView,
            >(e@),
        },
{
    match decode_xz_to_string(bytes) {
        None => Err(ChannelStoreError::NotDecodable),
        Some(text) => match read_store_paths(text.as_str()) {
            Ok(ps) => Ok(ps),
            Err(e) => Err(ChannelStoreError::InvalidStorePath(e)),
        },
    }
}

/// How far the asking of the upstreams has come.
#[derive(Debug)]
pub enum FetchPhase {
    /// Not begun.
    Start,
    /// Waiting for the descriptor from the upstream with this index.
    AwaitingNarInfo(usize),
    /// Waiting for the archive from the upstream with this index, which
    /// gave this descriptor.
    AwaitingArchive(usize, NarInfo),
    /// Ended.
    Finished,
}

/// What a `FetchPhase` stands for.
pub ghost enum FetchPhaseView {
    Start,
    AwaitingNarInfo(int),
    AwaitingArchive(int, NarInfoView),
    Finished,
}

impl View for FetchPhase {
    type V = FetchPhaseView;

    open spec fn view(&self) -> FetchPhaseView {
        match self {
            FetchPhase::Start => FetchPhaseView::Start,
            FetchPhase::AwaitingNarInfo(i) => FetchPhaseView::AwaitingNarInfo(*i as int),
            FetchPhase::AwaitingArchive(i, d) => FetchPhaseView::AwaitingArchive(*i as int, d@),
            FetchPhase::Finished => FetchPhaseView::Finished,
        }
    }
}

/// What the outside tells of a request.
#[derive(Debug)]
pub enum FetchEvent {
    /// The asking is to begin.
    Begin,
    /// The text that the address gave.
    Text(String),
    /// The bytes that the address gave.
    Bytes(Vec<u8>),
    /// The request failed, or was not answered with success.
    Failed,
}

/// What a `FetchEvent` stands for.
pub ghost enum FetchEventView {
    Begin,
    Text(Seq<char>),
    Bytes(Seq<u8>),
    Failed,
}

impl View for FetchEvent {
    type V = FetchEventView;

    open spec fn view(&self) -> FetchEventView {
        match self {
            FetchEvent::Begin => FetchEventView::Begin,
            FetchEvent::Text(t) => FetchEventView::Text(t@),
            FetchEvent::Bytes(b) => FetchEventView::Bytes(b@),
            FetchEvent::Failed => FetchEventView::Failed,
        }
    }
}

/// The request that is to be made next, or the end of the asking.
#[derive(Debug)]
pub enum FetchAction {
    /// Get the text at the address.
    GetText(String),
    /// Get the bytes at the address.
    GetBytes(String),
    /// The asking has ended, with what an upstream gave or with nothing.
    Done(Option<Fetched>),
}

/// What a `FetchAction` stands for.
pub ghost enum FetchActionView {
    GetText(Seq<char>),
    GetBytes(Seq<char>),
    Done(Option<FetchedView>),
}

impl View for FetchAction {
    type V = FetchActionView;

    open spec fn view(&self) -> FetchActionView {
        match self {
            FetchAction::GetText(u) => FetchActionView::GetText(u@),
            FetchAction::GetBytes(u) => FetchActionView::GetBytes(u@),
            FetchAction::Done(f) => FetchActionView::Done(
                match f {
                    Some(x) => Some(x@),
                    None => None,
                },
            ),
        }
    }
}

/// The name of the file of an artifact's descriptor.
pub open spec fn nar_info_file(digest: Seq<char>) -> Seq<char> {
    digest + ".narinfo"@
}

/// The end of the asking with nothing.
pub open spec fn give_up() -> (FetchPhaseView, FetchActionView) {
    (FetchPhaseView::Finished, FetchActionView::Done(None))
}

/// The request for the descriptor at the first upstream, from the `i`th
/// on, at which the descriptor has an address; the end of the asking where
/// there is none.
pub open spec fn ask_from(ups: Seq<PriorityUpstreamView>, digest: Seq<char>, i: int) -> (
    FetchPhaseView,
    FetchActionView,
)
    decreases ups.len() - i,
{
    if i < 0 || i >= ups.len() {
        give_up()
    } else {
        match url_joined(ups[i].url, nar_info_file(digest)) {
            Some(u) => (FetchPhaseView::AwaitingNarInfo(i), FetchActionView::GetText(u)),
            None => ask_from(ups, digest, i + 1),
        }
    }
}

/// The next request. The upstreams are asked in their order. One that
/// fails, that gives what is no descriptor, or whose descriptor names an
/// archive that has no address, is passed over; the first that gives
/// descriptor and archive ends the asking.
pub open spec fn fetch_next(
    ups: Seq<PriorityUpstreamView>,
    digest: Seq<char>,
    phase: FetchPhaseView,
    event: FetchEventView,
) -> (FetchPhaseView, FetchActionView) {
    match (phase, event) {
        (FetchPhaseView::Start, FetchEventView::Begin) => ask_from(ups, digest, 0),
        (FetchPhaseView::AwaitingNarInfo(i), FetchEventView::Text(t)) => if 0 <= i < ups.len() {
            match parse_nar_info(t) {
                Err(_) => ask_from(ups, digest, i + 1),
                Ok(d) => match url_joined(ups[i].url, d.url) {
                    None => ask_from(ups, digest, i + 1),
                    Some(u) => (
                        FetchPhaseView::AwaitingArchive(i, d),
                        FetchActionView::GetBytes(u),
                    ),
                },
            }
        } else {
            give_up()
        },
        (FetchPhaseView::AwaitingNarInfo(i), FetchEventView::Failed) => ask_from(
            ups,
            digest,
            i + 1,
        ),
        (FetchPhaseView::AwaitingArchive(i, d), FetchEventView::Bytes(b)) => if 0 <= i
            < ups.len() {
            (
                FetchPhaseView::Finished,
                FetchActionView::Done(
                    Some(FetchedView { nar_info: d, upstream: ups[i].url, data: b }),
                ),
            )
        } else {
            give_up()
        },
        (FetchPhaseView::AwaitingArchive(i, d), FetchEventView::Failed) => ask_from(
            ups,
            digest,
            i + 1,
        ),
        _ => give_up(),
    }
}

/// The request for the descriptor at the first upstream from `from` on.
fn request_from(upstreams: &UpstreamSet, hash: &hash::Hash, from: usize) -> (r: (
    FetchPhase,
    FetchAction,
))
    ensures
        (r.0@, r.1@) == ask_from(upstreams@, hash@.string, from as int),
{
    let mut file = hash.string.clone();
    file.append(".narinfo");
    let mut i: usize = from;
    while i < upstreams.len()
        invariant
            file@ == nar_info_file(hash@.string),
            ask_from(upstreams@, hash@.string, from as int) == ask_from(
                upstreams@,
                hash@.string,
                i as int,
            ),
        decreases upstreams@.len() - i,
    {
        match upstreams.get(i).as_ref().join(file.as_str()) {
            Some(u) => {
                return (FetchPhase::AwaitingNarInfo(i), FetchAction::GetText(u));
            },
            None => {},
        }
        i += 1;
    }
    (FetchPhase::Finished, FetchAction::Done(None))
}

/// The request for the descriptor at the upstream after the `i`th.
fn request_after(upstreams: &UpstreamSet, hash: &hash::Hash, i: usize) -> (r: (
    FetchPhase,
    FetchAction,
))
    ensures
        (r.0@, r.1@) == ask_from(upstreams@, hash@.string, i as int + 1),
{
    if i < upstreams.len() {
        request_from(upstreams, hash, i + 1)
    } else {
        (FetchPhase::Finished, FetchAction::Done(None))
    }
}

/// The next step in asking the upstreams for the artifact `hash`: what is
/// requested in the phase `phase` when `event` is told.
pub fn request_derivation(
    upstreams: &UpstreamSet,
    hash: &hash::Hash,
    phase: FetchPhase,
    event: FetchEvent,
) -> (r: (FetchPhase, FetchAction))
    ensures
        (r.0@, r.1@) == fetch_next(upstreams@, hash@.string, phase@, event@),
{
    match (phase, event) {
        (FetchPhase::Start, FetchEvent::Begin) => request_from(upstreams, hash, 0),
        (FetchPhase::AwaitingNarInfo(i), FetchEvent::Text(t)) => {
            if i >= upstreams.len() {
                return (FetchPhase::Finished, FetchAction::Done(None));
            }
            match NarInfo::from_str(t.as_str()) {
                Err(_) => request_after(upstreams, hash, i),
                Ok(d) => match upstreams.get(i).as_ref().join(d.url.as_str()) {
                    None => request_after(upstreams, hash, i),
                    Some(u) => (FetchPhase::AwaitingArchive(i, d), FetchAction::GetBytes(u)),
                },
            }
        },
        (FetchPhase::AwaitingNarInfo(i), FetchEvent::Failed) => request_after(upstreams, hash, i),
        (FetchPhase::AwaitingArchive(i, d), FetchEvent::Bytes(b)) => {
            if i >= upstreams.len() {
                return (FetchPhase::Finished, FetchAction::Done(None));
            }
            let upstream = upstreams.get(i).as_ref().clone();
            (
                FetchPhase::Finished,
                FetchAction::Done(Some(Fetched { nar_info: d, upstream, data: b })),
            )
        },
        (FetchPhase::AwaitingArchive(i, d), FetchEvent::Failed) => request_after(
            upstreams,
            hash,
            i,
        ),
        _ => (FetchPhase::Finished, FetchAction::Done(None)),
    }
}

/// What the addresses give: a text or bytes at some, nothing at the rest.
pub ghost struct Web {
    pub texts: Map<Seq<char>, Seq<char>>,
    pub blobs: Map<Seq<char>, Seq<u8>>,
}

/// What the outside tells of a request made to the web `web`.
pub open spec fn answer(web: Web, action: FetchActionView) -> FetchEventView {
    match action {
        FetchActionView::GetText(u) => if web.texts.dom().contains(u) {
            FetchEventView::Text(web.texts[u])
        } else {
            FetchEventView::Failed
        },
        FetchActionView::GetBytes(u) => if web.blobs.dom().contains(u) {
            FetchEventView::Bytes(web.blobs[u])
        } else {
            FetchEventView::Failed
        },
        FetchActionView::Done(_) => FetchEventView::Failed,
    }
}

/// What the `i`th upstream gives: the descriptor at the address of the
/// artifact's descriptor, and the archive at the address that the
/// descriptor names; nothing where either is missing.
pub open spec fn offer(ups: Seq<PriorityUpstreamView>, digest: Seq<char>, web: Web, i: int) -> Option<
    FetchedView,
> {
    match url_joined(ups[i].url, nar_info_file(digest)) {
        None => None,
        Some(u) => if !web.texts.dom().contains(u) {
            None
        } else {
            match parse_nar_info(web.texts[u]) {
                Err(_) => None,
                Ok(d) => match url_joined(ups[i].url, d.url) {
                    None => None,
                    Some(a) => if web.blobs.dom().contains(a) {
                        Some(FetchedView { nar_info: d, upstream: ups[i].url, data: web.blobs[a] })
                    } else {
                        None
                    },
                },
            }
        },
    }
}

/// What the first upstream, from the `i`th on, that gives anything gives.
pub open spec fn first_offer(
    ups: Seq<PriorityUpstreamView>,
    digest: Seq<char>,
    web: Web,
    i: int,
) -> Option<FetchedView>
    decreases ups.len() - i,
{
    if i < 0 || i >= ups.len() {
        None
    } else {
        match offer(ups, digest, web, i) {
            Some(f) => Some(f),
            None => first_offer(ups, digest, web, i + 1),
        }
    }
}

/// The asking of the upstreams from one step on, each request being
/// answered by the web: what it ends with.
pub open spec fn fetch_run(
    ups: Seq<PriorityUpstreamView>,
    digest: Seq<char>,
    web: Web,
    step: (FetchPhaseView, FetchActionView),
    steps: nat,
) -> Option<FetchedView>
    decreases steps,
{
    match step.1 {
        FetchActionView::Done(r) => r,
        _ => if steps == 0 {
            None
        } else {
            fetch_run(
                ups,
                digest,
                web,
                fetch_next(ups, digest, step.0, answer(web, step.1)),
                (steps - 1) as nat,
            )
        },
    }
}

/// Asking the upstreams from the `i`th on ends with what the first of them
/// that gives anything gives.
pub proof fn lemma_fetch_run_from(
    ups: Seq<PriorityUpstreamView>,
    digest: Seq<char>,
    web: Web,
    i: int,
    steps: nat,
)
    requires
        0 <= i,
        steps >= 2 * (ups.len() - i),
    ensures
        fetch_run(ups, digest, web, ask_from(ups, digest, i), steps) == first_offer(
            ups,
            digest,
            web,
            i,
        ),
    decreases ups.len() - i,
{
    reveal_with_fuel(fetch_run, 3);
    if i < ups.len() {
        lemma_fetch_run_from(ups, digest, web, i + 1, steps);
        lemma_fetch_run_from(ups, digest, web, i + 1, (steps - 1) as nat);
        lemma_fetch_run_from(ups, digest, web, i + 1, (steps - 2) as nat);
    }
}

/// The upstreams are asked in their order, and the asking ends with what
/// the first of them that gives descriptor and archive gives; with
/// nothing where none does.
pub proof fn lemma_first_upstream_wins(
    ups: Seq<PriorityUpstreamView>,
    digest: Seq<char>,
    web: Web,
)
    ensures
        fetch_run(
            ups,
            digest,
            web,
            fetch_next(ups, digest, FetchPhaseView::Start, FetchEventView::Begin),
            2 * ups.len(),
        ) == first_offer(ups, digest, web, 0),
{
    lemma_fetch_run_from(ups, digest, web, 0, 2 * ups.len());
}

} // verus!
