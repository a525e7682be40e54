//! The vocabulary of the artifact store: hashes, derivations, store paths
//! and package descriptors.

pub mod compression;
pub mod derivation;
pub mod hash;
pub mod nar_file;
pub mod nar_info;
pub mod round_trip;
pub mod store_path;
pub mod upstream;
