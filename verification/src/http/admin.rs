//! The answers to the requests of the operator.

use crate::cache::db::Status;
use crate::jobs::{Job, JobOutcome, JobOutcomeView, JobView};
use crate::nix::hash;
use crate::nix::store_path::StorePath;
use crate::text::{decimal, u64_to_string, usize_to_string};
use vstd::prelude::*;
use vstd::string::StringExecFns;

verus! {

/// How many store paths a list shows where the request names no limit.
pub const DEFAULT_LIST_LIMIT: usize = 30;

/// The report on the size of the cache.
pub open spec fn cache_size_text(disk: u64, nar_disk: u64, reported: usize) -> Seq<char> {
    "Cache disk size: "@ + decimal(disk as nat) + " (nar: "@ + decimal(nar_disk as nat)
        + ")\nCache reported size: "@ + decimal(reported as nat)
}

/// The report on the size of the cache: the bytes on disk, those of the
/// archives among them, and the sum of the sizes that the descriptors
/// name.
pub fn cache_size(disk_size: u64, nar_disk_size: u64, reported_size: usize) -> (r: String)
    ensures
        r@ == cache_size_text(disk_size, nar_disk_size, reported_size),
{
    let mut out = String::from_str("Cache disk size: ");
    out.append(u64_to_string(disk_size).as_str());
    out.append(" (nar: ");
    out.append(u64_to_string(nar_disk_size).as_str());
    out.append(")\nCache reported size: ");
    out.append(usize_to_string(reported_size).as_str());
    out
}

/// The full paths of the first `n` store paths, a line feed behind each.
pub open spec fn path_lines(ps: Seq<StorePath>, n: int) -> Seq<char>
    decreases n,
{
    if n <= 0 || n > ps.len() {
        Seq::empty()
    } else {
        path_lines(ps, n - 1) + ps[n - 1]@.path() + seq!['\n']
    }
}

/// The full paths of the first `n` store paths, a line feed between them.
pub open spec fn paths_joined(ps: Seq<StorePath>, n: int) -> Seq<char>
    decreases n,
{
    if n <= 0 || n > ps.len() {
        Seq::empty()
    } else if n == 1 {
        ps[0]@.path()
    } else {
        paths_joined(ps, n - 1) + seq!['\n'] + ps[n - 1]@.path()
    }
}

/// The smaller of a limit and the length of a list.
pub open spec fn shown(limit: usize, len: nat) -> int {
    if limit <= len {
        limit as int
    } else {
        len as int
    }
}

/// The list of what the cache holds.
pub open spec fn list_cached_text(num_cached: usize, limit: usize, ps: Seq<StorePath>) -> Seq<
    char,
> {
    if num_cached == 0 {
        "No (0) derivations cached"@
    } else {
        "Number derivations cached: "@ + decimal(num_cached as nat)
            + "\nStore paths of cached derivations: (limit: "@ + decimal(limit as nat) + ")\n\n"@
            + path_lines(ps, shown(limit, ps.len()))
    }
}

/// The list of what the cache holds: how many artifacts are available,
/// and the store paths of at most `limit` of them, one per line.
pub fn list_cached(num_cached: usize, limit: usize, cached_store_paths: &Vec<StorePath>) -> (r:
    String)
    ensures
        r@ == list_cached_text(num_cached, limit, cached_store_paths@),
{
    if num_cached == 0 {
        return String::from_str("No (0) derivations cached");
    }
    let mut out = String::from_str("Number derivations cached: ");
    out.append(usize_to_string(num_cached).as_str());
    out.append("\nStore paths of cached derivations: (limit: ");
    out.append(usize_to_string(limit).as_str());
    out.append(")\n\n");
    let ghost head = out@;
    let n: usize = if limit <= cached_store_paths.len() {
        limit
    } else {
        cached_store_paths.len()
    };
    let mut i: usize = 0;
    while i < n
        invariant
            i <= n <= cached_store_paths.len(),
            out@ == head + path_lines(cached_store_paths@, i as int),
        decreases n - i,
    {
        out.append(cached_store_paths[i].path().as_str());
        out.append("\n");
        proof {
            reveal_strlit("\n");
            assert("\n"@ =~= seq!['\n']);
            assert(out@ =~= head + path_lines(cached_store_paths@, i + 1));
        }
        i += 1;
    }
    out
}

/// The list of what the channels hold and the cache does not.
pub open spec fn list_cache_diff_text(limit: usize, diff: Seq<StorePath>) -> Seq<char> {
    if diff.len() == 0 {
        "No missing derivations from cache"@
    } else {
        "Number of missing derivations from cache: "@ + decimal(diff.len())
            + "\n----------------------------------------------------\nStore paths of missing derivations: (limit: "@
            + decimal(limit as nat) + ")\n\n"@ + paths_joined(diff, shown(limit, diff.len()))
    }
}

/// The list of what the channels hold and the cache does not: how many
/// store paths are missing, and at most `limit` of them, one per line.
pub fn list_cache_diff(limit: usize, diff: &Vec<StorePath>) -> (r: String)
    ensures
        r@ == list_cache_diff_text(limit, diff@),
{
    if diff.len() == 0 {
        return String::from_str("No missing derivations from cache");
    }
    let mut out = String::from_str("Number of missing derivations from cache: ");
    out.append(usize_to_string(diff.len()).as_str());
    out.append(
        "\n----------------------------------------------------\nStore paths of missing derivations: (limit: ",
    );
    out.append(usize_to_string(limit).as_str());
    out.append(")\n\n");
    let ghost head = out@;
    let n: usize = if limit <= diff.len() {
        limit
    } else {
        diff.len()
    };
    let mut i: usize = 0;
    while i < n
        invariant
            i <= n <= diff.len(),
            out@ == head + paths_joined(diff@, i as int),
        decreases n - i,
    {
        if i > 0 {
            out.append("\n");
        }
        out.append(diff[i].path().as_str());
        proof {
            reveal_strlit("\n");
            assert("\n"@ =~= seq!['\n']);
            assert(out@ =~= head + paths_joined(diff@, i + 1));
        }
        i += 1;
    }
    out
}

/// The name of a state.
pub open spec fn status_name(s: Status) -> Seq<char> {
    match s {
        Status::NotAvailable => "NotAvailable"@,
        Status::Fetching => "Fetching"@,
        Status::Available => "Available"@,
        Status::Purging => "Purging"@,
    }
}

/// The state of an artifact as the operator is shown it.
pub open spec fn nar_status_text(s: Option<Status>) -> Seq<char> {
    match s {
        None => "None"@,
        Some(s) => "Some(\n    "@ + status_name(s) + ",\n)"@,
    }
}

/// The state of an artifact as the operator is shown it.
pub fn nar_status(status: Option<Status>) -> (r: String)
    ensures
        r@ == nar_status_text(status),
{
    match status {
        None => String::from_str("None"),
        Some(s) => {
            let mut out = String::from_str("Some(\n    ");
            match s {
                Status::NotAvailable => out.append("NotAvailable"),
                Status::Fetching => out.append("Fetching"),
                Status::Available => out.append("Available"),
                Status::Purging => out.append("Purging"),
            }
            out.append(",\n)");
            out
        },
    }
}

/// How a job ended, as the operator is shown it.
pub open spec fn outcome_text(o: JobOutcomeView) -> Seq<char> {
    match o {
        JobOutcomeView::Success => "Success"@,
        JobOutcomeView::Kill => "Kill"@,
        JobOutcomeView::Retry => "Retry"@,
        JobOutcomeView::Reschedule(s) => "Reschedule("@ + decimal(s as nat) + "s)"@,
        JobOutcomeView::Failed(c) => "Failed("@ + c + ")"@,
    }
}

/// How a job ended, as the operator is shown it.
pub fn outcome(o: &JobOutcome) -> (r: String)
    ensures
        r@ == outcome_text(o@),
{
    match o {
        JobOutcome::Success => String::from_str("Success"),
        JobOutcome::Kill => String::from_str("Kill"),
        JobOutcome::Retry => String::from_str("Retry"),
        JobOutcome::Reschedule(s) => {
            let mut out = String::from_str("Reschedule(");
            out.append(u64_to_string(*s).as_str());
            out.append("s)");
            out
        },
        JobOutcome::Failed(c) => {
            let mut out = String::from_str("Failed(");
            out.append(c.as_str());
            out.append(")");
            out
        },
    }
}

/// The fetch that the operator asks to be put into the queue, and the
/// answer that tells so.
pub fn push_cache_nar(hash: hash::Hash, is_force: bool) -> (r: (Job, String))
    ensures
        r.0@ == (JobView::CacheNar { hash: hash@, is_force }),
        r.1@ == "Pushed job for caching "@ + hash@.string + " to queue"@,
{
    let mut out = String::from_str("Pushed job for caching ");
    out.append(hash.string.as_str());
    out.append(" to queue");
    (Job::CacheNar { hash, is_force }, out)
}

/// The purge that the operator asks to be put into the queue, and the
/// answer that tells so.
pub fn push_purge_nar(hash: hash::Hash, is_force: bool) -> (r: (Job, String))
    ensures
        r.0@ == (JobView::PurgeNar { hash: hash@, is_force }),
        r.1@ == "Pushed job for purging "@ + hash@.string + " to queue"@,
{
    let mut out = String::from_str("Pushed job for purging ");
    out.append(hash.string.as_str());
    out.append(" to queue");
    (Job::PurgeNar { hash, is_force }, out)
}

} // verus!
