//! Coordination core of a caching proxy for a content-addressed binary
//! artifact store: the descriptor codec, the per-artifact lifecycle and the
//! decisions of the fetch and purge jobs.

pub mod cache;
pub mod config;
pub mod error;
pub mod fetch;
pub mod http;
pub mod jobs;
pub mod model;
pub mod nix;
pub mod text;
