//! What the proxy answers to requests.

pub mod admin;
pub mod api;
