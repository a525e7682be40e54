//! The local store: where archives lie, and what the index holds of them.

pub mod db;
pub mod diff;
pub mod paths;
