//! The answers to the requests of clients.

use crate::cache::paths::{archive_path, nar_file_path_from_nar_file};
use crate::config::Config;
use crate::jobs::{Job, JobView};
use crate::nix::hash;
use crate::nix::nar_file::NarFile;
use crate::nix::nar_info::{nar_info_text, NarInfo};
use vstd::prelude::*;
use vstd::string::StringExecFns;

verus! {

/// The kind of content that a descriptor is.
pub const NARINFO_MIME: &'static str = "text/x-nix-narinfo";

/// The kind of content that an archive is.
pub const NAR_FILE_MIME: &'static str = "application/x-nix-nar";

/// An answer: its status, the kind of its content where that is told, and
/// its body.
#[derive(Debug)]
pub struct Response {
    pub status: u16,
    pub content_type: Option<String>,
    pub body: String,
}

/// What a `Response` stands for.
pub ghost struct ResponseView {
    pub status: u16,
    pub content_type: Option<Seq<char>>,
    pub body: Seq<char>,
}

impl View for Response {
    type V = ResponseView;

    open spec fn view(&self) -> ResponseView {
        ResponseView {
            status: self.status,
            content_type: match self.content_type {
                Some(t) => Some(t@),
                None => None,
            },
            body: self.body@,
        }
    }
}

/// The answer that tells that the proxy runs.
pub fn index() -> (r: String)
    ensures
        r@ == "up"@,
{
    String::from_str("up")
}

/// What the proxy tells of itself as a cache.
pub fn nix_cache_info() -> (r: String)
    ensures
        r@ == "StoreDir: /nix/store\nWantMassQuery: 0\nPriority: 30"@,
{
    String::from_str("StoreDir: /nix/store\nWantMassQuery: 0\nPriority: 30")
}

/// What is to be done on a request for a descriptor.
#[derive(Debug)]
pub enum NarInfoReply {
    /// The descriptor is here: stamp the time of the access, and answer.
    Hit(Response),
    /// The descriptor is not here: put the job into the queue, and answer.
    Miss(Job, Response),
}

/// What a `NarInfoReply` stands for.
pub ghost enum NarInfoReplyView {
    Hit(ResponseView),
    Miss(JobView, ResponseView),
}

impl View for NarInfoReply {
    type V = NarInfoReplyView;

    open spec fn view(&self) -> NarInfoReplyView {
        match self {
            NarInfoReply::Hit(r) => NarInfoReplyView::Hit(r@),
            NarInfoReply::Miss(j, r) => NarInfoReplyView::Miss(j@, r@),
        }
    }
}

/// The answer to a request for the descriptor of the artifact `hash`,
/// `found` being what the index holds of it. A descriptor that is here is
/// served as text. One that is not is reported missing, and a fetch that
/// is not forced is asked for.
pub fn get_nar_info(hash: hash::Hash, found: Option<NarInfo>) -> (r: NarInfoReply)
    ensures
        r@ == (match found {
            Some(d) => NarInfoReplyView::Hit(
                ResponseView {
                    status: 200,
                    content_type: Some(NARINFO_MIME@),
                    body: nar_info_text(d@),
                },
            ),
            None => NarInfoReplyView::Miss(
                JobView::CacheNar { hash: hash@, is_force: false },
                ResponseView { status: 404, content_type: None, body: "unavailable"@ },
            ),
        }),
{
    match found {
        Some(d) => NarInfoReply::Hit(
            Response {
                status: 200,
                content_type: Some(String::from_str(NARINFO_MIME)),
                body: d.to_string(),
            },
        ),
        None => NarInfoReply::Miss(
            Job::CacheNar { hash, is_force: false },
            Response { status: 404, content_type: None, body: String::from_str("unavailable") },
        ),
    }
}

/// What is to be done on a request for an archive.
#[derive(Debug)]
pub enum NarFileReply {
    /// Serve the file at the path, as content of the kind given.
    Serve(String, String),
    /// Answer that the archive is not here.
    NotFound,
}

/// What a `NarFileReply` stands for.
pub ghost enum NarFileReplyView {
    Serve(Seq<char>, Seq<char>),
    NotFound,
}

impl View for NarFileReply {
    type V = NarFileReplyView;

    open spec fn view(&self) -> NarFileReplyView {
        match self {
            NarFileReply::Serve(p, t) => NarFileReplyView::Serve(p@, t@),
            NarFileReply::NotFound => NarFileReplyView::NotFound,
        }
    }
}

/// The answer to a request for the archive `nar_file`, `is_cached` telling
/// whether an artifact that is available has this archive.
pub fn get_nar_file(config: &Config, nar_file: &NarFile, is_cached: bool) -> (r: NarFileReply)
    ensures
        r@ == (if is_cached {
            NarFileReplyView::Serve(
                archive_path(config.local_data_path@, nar_file@.hash, nar_file@.compression),
                NAR_FILE_MIME@,
            )
        } else {
            NarFileReplyView::NotFound
        }),
{
    if is_cached {
        NarFileReply::Serve(
            nar_file_path_from_nar_file(config, nar_file),
            String::from_str(NAR_FILE_MIME),
        )
    } else {
        NarFileReply::NotFound
    }
}

} // verus!
