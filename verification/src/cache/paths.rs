//! Where the archive of an artifact lies on disk.

use crate::config::Config;
use crate::nix::compression::{CompressionType};
use crate::nix::hash;
use crate::nix::hash::HashView;
use crate::nix::nar_file::{nar_file_name, NarFile};
use crate::nix::nar_info::NarInfo;
use crate::nix::store_path::{join, join_path};
use vstd::prelude::*;
use vstd::string::StringExecFns;

verus! {

/// The directory, below the data directory, that holds the archives.
pub open spec fn nar_dir(root: Seq<char>) -> Seq<char> {
    join_path(root, "nar"@)
}

/// The path of the archive with the hash `file_hash` and the compression
/// `compression`, below the data directory `root`: it depends on these
/// three alone.
pub open spec fn archive_path(
    root: Seq<char>,
    file_hash: HashView,
    compression: CompressionType,
) -> Seq<char> {
    join_path(nar_dir(root), nar_file_name(file_hash, compression))
}

/// The directory that holds the archives.
pub fn nar_dir_path(config: &Config) -> (r: String)
    ensures
        r@ == nar_dir(config.local_data_path@),
{
    join(config.local_data_path.as_str(), "nar")
}

/// The path of the archive that a hash and a compression name.
pub fn nar_file_path_from_parts(
    config: &Config,
    file_hash: &hash::Hash,
    compression: &CompressionType,
) -> (r: String)
    ensures
        r@ == archive_path(config.local_data_path@, file_hash@, *compression),
{
    let dir = nar_dir_path(config);
    let mut name = file_hash.string.clone();
    name.append(".nar.");
    name.append(compression.to_string().as_str());
    join(dir.as_str(), name.as_str())
}

/// The path of the archive that a descriptor describes.
pub fn nar_file_path(config: &Config, nar_info: &NarInfo) -> (r: String)
    ensures
        r@ == archive_path(config.local_data_path@, nar_info@.file_hash, nar_info@.compression),
{
    nar_file_path_from_parts(config, &nar_info.file_hash, &nar_info.compression)
}

/// The path of the archive that an archive's name stands for.
pub fn nar_file_path_from_nar_file(config: &Config, nar_file: &NarFile) -> (r: String)
    ensures
        r@ == archive_path(config.local_data_path@, nar_file@.hash, nar_file@.compression),
{
    nar_file_path_from_parts(config, &nar_file.hash, &nar_file.compression)
}

/// The path of an archive depends on the data directory, the hash of the
/// archive and its compression alone: for the same three it is the same
/// path, whatever else the artifacts are.
pub proof fn lemma_archive_path_is_pure(
    root: Seq<char>,
    a: crate::nix::nar_info::NarInfoView,
    b: crate::nix::nar_info::NarInfoView,
)
    requires
        a.file_hash == b.file_hash,
        a.compression == b.compression,
    ensures
        archive_path(root, a.file_hash, a.compression) == archive_path(
            root,
            b.file_hash,
            b.compression,
        ),
{
}

/// The sum of the sizes.
pub open spec fn total_size(sizes: Seq<u64>) -> nat
    decreases sizes.len(),
{
    if sizes.len() == 0 {
        0
    } else {
        total_size(sizes.drop_last()) + sizes.last() as nat
    }
}

/// The bytes that the files of a directory tree take, `sizes` being the
/// size of each file in it; `None` where the sum is more than a `u64`
/// holds.
pub fn folder_size(sizes: &Vec<u64>) -> (r: Option<u64>)
    ensures
        match r {
            Some(n) => n == total_size(sizes@),
            None => total_size(sizes@) > u64::MAX,
        },
{
    let mut sum: u64 = 0;
    let mut i: usize = 0;
    while i < sizes.len()
        invariant
            i <= sizes.len(),
            sum == total_size(sizes@.take(i as int)),
        decreases sizes.len() - i,
    {
        proof {
            assert(sizes@.take(i + 1).drop_last() =~= sizes@.take(i as int));
            lemma_total_size_grows(sizes@, i + 1);
        }
        match sum.checked_add(sizes[i]) {
            Some(s) => {
                sum = s;
            },
            None => {
                return None;
            },
        }
        i += 1;
    }
    proof {
        assert(sizes@.take(i as int) =~= sizes@);
    }
    Some(sum)
}

/// The sum of all sizes is at least the sum of the first `n`.
pub proof fn lemma_total_size_grows(sizes: Seq<u64>, n: int)
    requires
        0 <= n <= sizes.len(),
    ensures
        total_size(sizes.take(n)) <= total_size(sizes),
    decreases sizes.len() - n,
{
    if n < sizes.len() {
        lemma_total_size_grows(sizes, n + 1);
        assert(sizes.take(n + 1).drop_last() =~= sizes.take(n));
    } else {
        assert(sizes.take(n) =~= sizes);
    }
}

} // verus!
