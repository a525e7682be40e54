//! What the channels list and the cache does not hold.

use crate::nix::store_path::StorePath;
use vstd::hash_set::StringHashSet;
use vstd::prelude::*;

verus! {

/// The full paths of a list of store paths.
pub open spec fn path_set(v: Seq<StorePath>) -> Set<Seq<char>> {
    Set::new(|p: Seq<char>| exists|i: int| 0 <= i < v.len() && (#[trigger] v[i])@.path() == p)
}

/// No two store paths of the list have the same full path.
pub open spec fn distinct_paths(v: Seq<StorePath>) -> bool {
    forall|i: int, j: int|
        0 <= i < j < v.len() ==> (#[trigger] v[i])@.path() != (#[trigger] v[j])@.path()
}

/// Appends to `out` each store path of `items` whose full path is not in
/// `seen`, the first time it occurs, and puts its full path into `seen`.
fn push_unseen(items: &Vec<StorePath>, seen: &mut StringHashSet, out: &mut Vec<StorePath>)
    requires
        distinct_paths(old(out)@),
        path_set(old(out)@).subset_of(old(seen)@),
    ensures
        final(seen)@ == old(seen)@.union(path_set(items@)),
        path_set(final(out)@) == path_set(old(out)@).union(
            path_set(items@).difference(old(seen)@),
        ),
        distinct_paths(final(out)@),
        path_set(final(out)@).subset_of(final(seen)@),
        old(out)@.is_prefix_of(final(out)@),
{
    let ghost seen0 = seen@;
    let ghost out0 = out@;
    let mut k: usize = 0;
    while k < items.len()
        invariant
            k <= items.len(),
            distinct_paths(out@),
            path_set(out@).subset_of(seen@),
            seen@ == seen0.union(path_set(items@.take(k as int))),
            path_set(out@) == path_set(out0).union(
                path_set(items@.take(k as int)).difference(seen0),
            ),
            out0.is_prefix_of(out@),
        decreases items.len() - k,
    {
        let ghost seen1 = seen@;
        let ghost out1 = out@;
        let ghost done = items@.take(k as int);
        let ghost next = items@.take(k + 1);
        let p = items[k].path();
        let ghost pv = p@;
        proof {
            assert(next =~= done.push(items@[k as int]));
            assert forall|x: Seq<char>| path_set(next).contains(x) <==> (path_set(done).contains(x)
                || x == pv) by {
                if path_set(next).contains(x) {
                    let i = choose|i: int| 0 <= i < next.len() && (#[trigger] next[i])@.path() == x;
                    if i < k {
                        assert(done[i]@.path() == x);
                    }
                }
                if path_set(done).contains(x) {
                    let i = choose|i: int| 0 <= i < done.len() && (#[trigger] done[i])@.path() == x;
                    assert(next[i]@.path() == x);
                }
                if x == pv {
                    assert(next[k as int]@.path() == x);
                }
            }
        }
        if !seen.contains(p.as_str()) {
            seen.insert(p);
            out.push(items[k].clone());
            proof {
                let out2 = out@;
                assert(out2 =~= out1.push(out2[out1.len() as int]));
                assert(out2[out1.len() as int]@.path() == pv);
                assert forall|x: Seq<char>| path_set(out2).contains(x) <==> (path_set(
                    out1,
                ).contains(x) || x == pv) by {
                    if path_set(out2).contains(x) {
                        let i = choose|i: int|
                            0 <= i < out2.len() && (#[trigger] out2[i])@.path() == x;
                        if i < out1.len() {
                            assert(out1[i]@.path() == x);
                        }
                    }
                    if path_set(out1).contains(x) {
                        let i = choose|i: int|
                            0 <= i < out1.len() && (#[trigger] out1[i])@.path() == x;
                        assert(out2[i]@.path() == x);
                    }
                    if x == pv {
                        assert(out2[out1.len() as int]@.path() == x);
                    }
                }
                assert forall|i: int, j: int| 0 <= i < j < out2.len() implies (#[trigger] out2[i])@.path()
                    != (#[trigger] out2[j])@.path() by {
                    if j == out1.len() {
                        assert(out2[i] == out1[i]);
                        assert(path_set(out1).contains(out1[i]@.path()));
                    } else {
                        assert(out2[i] == out1[i]);
                        assert(out2[j] == out1[j]);
                    }
                }
                assert(seen@ =~= seen0.union(path_set(next)));
                assert(path_set(out2) =~= path_set(out0).union(
                    path_set(next).difference(seen0),
                ));
            }
        } else {
            proof {
                assert(seen@ =~= seen0.union(path_set(next)));
                assert(path_set(out@) =~= path_set(out0).union(
                    path_set(next).difference(seen0),
                ));
            }
        }
        k += 1;
    }
    proof {
        assert(items@.take(k as int) =~= items@);
    }
}

/// The store paths that the channels list, each once: what every list
/// holds, in the order of the lists.
pub fn request_all_channel_stores(lists: &Vec<Vec<StorePath>>) -> (r: Vec<StorePath>)
    ensures
        distinct_paths(r@),
        forall|p: Seq<char>|
            path_set(r@).contains(p) <==> exists|k: int|
                0 <= k < lists.len() && path_set((#[trigger] lists[k])@).contains(p),
{
    let mut seen = StringHashSet::new();
    let mut out: Vec<StorePath> = Vec::new();
    let mut n: usize = 0;
    while n < lists.len()
        invariant
            n <= lists.len(),
            distinct_paths(out@),
            path_set(out@).subset_of(seen@),
            seen@ == path_set(out@),
            forall|p: Seq<char>|
                path_set(out@).contains(p) <==> exists|k: int|
                    0 <= k < n && path_set((#[trigger] lists[k])@).contains(p),
        decreases lists.len() - n,
    {
        let ghost before = path_set(out@);
        push_unseen(&lists[n], &mut seen, &mut out);
        proof {
            let now = path_set(out@);
            assert(now =~= before.union(path_set(lists[n as int]@)));
            assert(seen@ =~= now);
            assert forall|p: Seq<char>| now.contains(p) <==> exists|k: int|
                0 <= k < n + 1 && path_set((#[trigger] lists[k])@).contains(p) by {
                if now.contains(p) {
                    if before.contains(p) {
                        let k = choose|k: int|
                            0 <= k < n && path_set((#[trigger] lists[k])@).contains(p);
                        assert(0 <= k < n + 1 && path_set(lists[k]@).contains(p));
                    } else {
                        assert(path_set(lists[n as int]@).contains(p));
                    }
                }
                if exists|k: int| 0 <= k < n + 1 && path_set((#[trigger] lists[k])@).contains(p) {
                    let k = choose|k: int|
                        0 <= k < n + 1 && path_set((#[trigger] lists[k])@).contains(p);
                    if k < n {
                        assert(before.contains(p));
                    }
                }
            }
        }
        n += 1;
    }
    out
}

/// The store paths that the channels list and the cache does not hold,
/// each once, in the order in which the channels list them: the full
/// paths of the result are those of `upstream` less those of `cached`.
pub fn missing_from_channel_upstreams(cached: &Vec<StorePath>, upstream: &Vec<StorePath>) -> (r:
    Vec<StorePath>)
    ensures
        path_set(r@) == path_set(upstream@).difference(path_set(cached@)),
        distinct_paths(r@),
{
    let mut seen = StringHashSet::new();
    let mut k: usize = 0;
    while k < cached.len()
        invariant
            k <= cached.len(),
            seen@ == path_set(cached@.take(k as int)),
        decreases cached.len() - k,
    {
        let ghost done = cached@.take(k as int);
        let ghost next = cached@.take(k + 1);
        let p = cached[k].path();
        let ghost pv = p@;
        seen.insert(p);
        proof {
            assert(next =~= done.push(cached@[k as int]));
            assert forall|x: Seq<char>| path_set(next).contains(x) <==> (path_set(done).contains(x)
                || x == pv) by {
                if path_set(next).contains(x) {
                    let i = choose|i: int| 0 <= i < next.len() && (#[trigger] next[i])@.path() == x;
                    if i < k {
                        assert(done[i]@.path() == x);
                    }
                }
                if path_set(done).contains(x) {
                    let i = choose|i: int| 0 <= i < done.len() && (#[trigger] done[i])@.path() == x;
                    assert(next[i]@.path() == x);
                }
                if x == pv {
                    assert(next[k as int]@.path() == x);
                }
            }
            assert(seen@ =~= path_set(next));
        }
        k += 1;
    }
    proof {
        assert(cached@.take(k as int) =~= cached@);
    }
    let mut out: Vec<StorePath> = Vec::new();
    proof {
        assert(path_set(out@) =~= Set::<Seq<char>>::empty());
    }
    push_unseen(upstream, &mut seen, &mut out);
    proof {
        assert(path_set(out@) =~= path_set(upstream@).difference(path_set(cached@)));
    }
    out
}

} // verus!
