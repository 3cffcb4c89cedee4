//! Ordering policy for tar extraction.
//!
//! Extraction streams a tar archive once and unpacks every non-directory
//! entry immediately, in archive order. Directory entries are deferred and
//! unpacked only after all other entries, deepest path first (by descending
//! byte length of the relative path, ties kept in archive order). Creating
//! a child path updates the parent directory's modification time as an
//! operating-system side effect, so a directory's recorded metadata must be
//! applied only once nothing will be written underneath it any more. The
//! deferred, deepest-first order guarantees exactly that, and this module
//! proves it: see [`lemma_directory_metadata_preserved`].
//!
//! The archive reading and the filesystem writes themselves are I/O and
//! stay outside the library; [`unpack_order`] computes the order in which
//! a caller must unpack the entries it has streamed.

use vstd::prelude::*;

verus! {

/// The kind of a tar archive entry.
#[derive(Clone, Copy, PartialEq, Eq, Structural, Debug)]
pub enum EntryKind {
    RegularFile,
    Symlink,
    Hardlink,
    Directory,
    Other,
}

/// The metadata a tar entry records for its path.
#[derive(Clone, Copy, PartialEq, Eq, Structural, Debug)]
pub struct EntryMeta {
    pub mode: u32,
    pub mtime: u64,
    pub uid: u64,
    pub gid: u64,
}

/// One tar archive entry header: the relative path as bytes, the entry's
/// kind, and the metadata recorded for the path.
#[derive(Debug)]
pub struct TarEntry {
    pub path: Vec<u8>,
    pub kind: EntryKind,
    pub meta: EntryMeta,
}

impl TarEntry {
    /// Whether this entry is a directory entry, whose unpacking is deferred.
    pub open spec fn is_dir(&self) -> bool {
        self.kind is Directory
    }
}

/// How many entries of `s` are not directories. Non-directory entries fill
/// the first `num_nondirs` positions of a valid unpack order.
pub open spec fn num_nondirs(s: Seq<TarEntry>) -> int
    decreases s.len(),
{
    if s.len() == 0 {
        0
    } else {
        num_nondirs(s.drop_last()) + if s.last().is_dir() {
            0int
        } else {
            1int
        }
    }
}

/// Index `k` occurs among the values of `order`.
pub open spec fn appears(order: Seq<usize>, k: int) -> bool {
    exists|t: int| 0 <= t < order.len() && order[t] as int == k
}

/// The deferred-directory ordering on entry indices: `a` comes before `b`
/// when `a`'s path is strictly longer in bytes, or the lengths are equal
/// and `a` is the earlier archive entry.
pub open spec fn deeper_first(entries: Seq<TarEntry>, a: usize, b: usize) -> bool {
    entries[a as int].path@.len() > entries[b as int].path@.len() || (entries[a as int].path@.len()
        == entries[b as int].path@.len() && a < b)
}

/// `order` is a correct unpack order for `entries`: a permutation of the
/// entry indices in which every non-directory entry comes first, in archive
/// order, followed by every directory entry, deepest path first with ties
/// kept in archive order.
pub open spec fn valid_unpack_order(entries: Seq<TarEntry>, order: Seq<usize>) -> bool {
    let nf = num_nondirs(entries);
    &&& order.len() == entries.len()
    &&& forall|i: int| 0 <= i < order.len() ==> ((#[trigger] order[i]) as int) < entries.len()
    &&& forall|k: int| 0 <= k < entries.len() ==> #[trigger] appears(order, k)
    &&& forall|i: int| 0 <= i < nf ==> !entries[(#[trigger] order[i]) as int].is_dir()
    &&& forall|i: int|
        nf <= i < order.len() ==> entries[(#[trigger] order[i]) as int].is_dir()
    &&& forall|i: int, j: int| 0 <= i < j < nf ==> #[trigger] order[i] < #[trigger] order[j]
    &&& forall|i: int, j: int|
        nf <= i < j < order.len() ==> deeper_first(
            entries,
            #[trigger] order[i],
            #[trigger] order[j],
        )
}

/// The entries in unpack order.
pub open spec fn planned(entries: Seq<TarEntry>, order: Seq<usize>) -> Seq<TarEntry> {
    Seq::new(order.len(), |i: int| entries[order[i] as int])
}

proof fn lemma_num_nondirs_bounds(s: Seq<TarEntry>)
    ensures
        0 <= num_nondirs(s) <= s.len(),
    decreases s.len(),
{
    if s.len() > 0 {
        lemma_num_nondirs_bounds(s.drop_last());
    }
}

proof fn lemma_insert_preserves_appears(s: Seq<usize>, pos: int, elt: usize, k: int)
    requires
        0 <= pos <= s.len(),
        appears(s, k),
    ensures
        appears(s.insert(pos, elt), k),
{
    let t = choose|t: int| 0 <= t < s.len() && s[t] as int == k;
    s.insert_ensures(pos, elt);
    if t < pos {
        assert(s.insert(pos, elt)[t] as int == k);
    } else {
        assert(s.insert(pos, elt)[t + 1] as int == k);
    }
}

/// Compute the order in which the entries of an archive must be unpacked:
/// the returned vector holds each index of `entries` exactly once, every
/// non-directory index before every directory index, non-directory indices
/// in archive order, and directory indices by strictly decreasing path byte
/// length with ties in archive order.
#[verifier::loop_isolation(false)]
#[verifier::rlimit(100)]
pub fn unpack_order(entries: &Vec<TarEntry>) -> (order: Vec<usize>)
    ensures
        valid_unpack_order(entries@, order@),
{
    let n: usize = entries.len();
    let mut order: Vec<usize> = Vec::new();

    let mut i: usize = 0;
    while i < n
        invariant
            i <= n,
            order@.len() == num_nondirs(entries@.subrange(0, i as int)),
            forall|j: int| 0 <= j < order@.len() ==> ((#[trigger] order@[j]) as int) < i,
            forall|j: int|
                0 <= j < order@.len() ==> !entries@[(#[trigger] order@[j]) as int].is_dir(),
            forall|k: int| 0 <= k < i && !entries@[k].is_dir() ==> #[trigger] appears(order@, k),
            forall|p: int, q: int|
                0 <= p < q < order@.len() ==> #[trigger] order@[p] < #[trigger] order@[q],
        decreases n - i,
    {
        proof {
            assert(entries@.subrange(0, i + 1).drop_last() =~= entries@.subrange(0, i as int));
            assert(entries@.subrange(0, i + 1).last() == entries@[i as int]);
        }
        if !(entries[i].kind == EntryKind::Directory) {
            let ghost before: Seq<usize> = order@;
            order.push(i);
            proof {
                assert(order@ == before.push(i));
                assert forall|k: int|
                    0 <= k < i + 1 && !entries@[k].is_dir() implies #[trigger] appears(
                    order@,
                    k,
                ) by {
                    if k < i {
                        assert(appears(before, k));
                        let t = choose|t: int| 0 <= t < before.len() && before[t] as int == k;
                        assert(order@[t] as int == k);
                    } else {
                        assert(order@[before.len() as int] as int == k);
                    }
                }
            }
        }
        i += 1;
    }
    proof {
        assert(entries@.subrange(0, n as int) =~= entries@);
        lemma_num_nondirs_bounds(entries@);
    }
    let nf: usize = order.len();

    let mut i: usize = 0;
    while i < n
        invariant
            i <= n,
            order@.len() == nf + i - num_nondirs(entries@.subrange(0, i as int)),
            nf <= order@.len(),
            forall|j: int| 0 <= j < order@.len() ==> ((#[trigger] order@[j]) as int) < n,
            forall|j: int|
                0 <= j < nf ==> !entries@[(#[trigger] order@[j]) as int].is_dir(),
            forall|j: int|
                nf <= j < order@.len() ==> entries@[(#[trigger] order@[j]) as int].is_dir(),
            forall|j: int| nf <= j < order@.len() ==> ((#[trigger] order@[j]) as int) < i,
            forall|k: int| 0 <= k < n && !entries@[k].is_dir() ==> #[trigger] appears(order@, k),
            forall|k: int| 0 <= k < i && entries@[k].is_dir() ==> #[trigger] appears(order@, k),
            forall|p: int, q: int| 0 <= p < q < nf ==> #[trigger] order@[p] < #[trigger] order@[q],
            forall|p: int, q: int|
                nf <= p < q < order@.len() ==> deeper_first(
                    entries@,
                    #[trigger] order@[p],
                    #[trigger] order@[q],
                ),
        decreases n - i,
    {
        proof {
            assert(entries@.subrange(0, i + 1).drop_last() =~= entries@.subrange(0, i as int));
            assert(entries@.subrange(0, i + 1).last() == entries@[i as int]);
            lemma_num_nondirs_bounds(entries@.subrange(0, i as int));
        }
        if entries[i].kind == EntryKind::Directory {
            let len_i: usize = entries[i].path.len();
            let mut p: usize = nf;
            while p < order.len() && entries[order[p]].path.len() >= len_i
                invariant
                    nf <= p <= order@.len(),
                    forall|q: int|
                        nf <= q < p ==> entries@[(#[trigger] order@[q]) as int].path@.len()
                            >= len_i,
                decreases order@.len() - p,
            {
                p += 1;
            }
            let ghost before: Seq<usize> = order@;
            let ghost pos: int = p as int;
            order.insert(p, i);
            proof {
                before.insert_ensures(pos, i);
                assert(order@ == before.insert(pos, i));
                assert forall|k: int|
                    0 <= k < i + 1 && entries@[k].is_dir() implies #[trigger] appears(
                    order@,
                    k,
                ) by {
                    if k < i {
                        lemma_insert_preserves_appears(before, pos, i, k);
                    } else {
                        assert(order@[pos] as int == k);
                    }
                }
                assert forall|k: int|
                    0 <= k < n && !entries@[k].is_dir() implies #[trigger] appears(
                    order@,
                    k,
                ) by {
                    lemma_insert_preserves_appears(before, pos, i, k);
                }
                assert forall|a: int, b: int|
                    nf <= a < b < order@.len() implies deeper_first(
                    entries@,
                    #[trigger] order@[a],
                    #[trigger] order@[b],
                ) by {
                    if a < pos && b < pos {
                        assert(order@[a] == before[a] && order@[b] == before[b]);
                    } else if a < pos && b == pos {
                        // elements before the insertion point have paths at
                        // least as long, and earlier archive indices than i
                        assert(order@[a] == before[a]);
                        assert(entries@[before[a] as int].path@.len() >= len_i);
                        assert((before[a] as int) < i);
                    } else if a < pos && b > pos {
                        assert(order@[a] == before[a] && order@[b] == before[b - 1]);
                    } else if a == pos && b > pos {
                        // elements at or after the insertion point have
                        // strictly shorter paths than entries[i]
                        assert(order@[b] == before[b - 1]);
                        assert(entries@[before[pos] as int].path@.len() < len_i);
                        if b - 1 > pos {
                            assert(deeper_first(entries@, before[pos], before[b - 1]));
                        }
                    } else {
                        assert(order@[a] == before[a - 1] && order@[b] == before[b - 1]);
                    }
                }
            }
        }
        i += 1;
    }
    proof {
        assert(entries@.subrange(0, n as int) =~= entries@);
    }
    order
}

/// `q` lies strictly under `p` when `p` is a proper byte prefix of `q`.
/// Directory paths in a tar archive end in a slash, so a proper byte
/// prefix is exactly the lies-underneath relation on paths.
pub open spec fn strictly_under(q: Seq<u8>, p: Seq<u8>) -> bool {
    p.len() < q.len() && q.subrange(0, p.len() as int) == p
}

/// What extraction has left at one path of the model filesystem.
pub enum NodeState {
    /// Nothing has been written at this path.
    Absent,
    /// A non-directory entry was unpacked at this path.
    NonDirectory,
    /// A directory exists at this path, but its metadata is not an archive
    /// record: it was created implicitly as a missing ancestor, or a later
    /// write underneath it perturbed its modification time.
    DirDefault,
    /// A directory exists at this path and its metadata is exactly the
    /// archive record `meta`.
    DirRecorded { meta: EntryMeta },
}

/// The model filesystem before extraction: nothing anywhere.
pub open spec fn fs_init() -> Map<Seq<u8>, NodeState> {
    Map::total(|p: Seq<u8>| NodeState::Absent)
}

/// Unpacking one entry writes the entry's own path and, as an
/// operating-system side effect, perturbs every ancestor: creating a child
/// updates the parent directory's modification time, and missing ancestors
/// are created implicitly with default metadata.
pub open spec fn apply_entry(fs: Map<Seq<u8>, NodeState>, e: TarEntry) -> Map<Seq<u8>, NodeState> {
    Map::total(
        |p: Seq<u8>|
            if p == e.path@ {
                if e.is_dir() {
                    NodeState::DirRecorded { meta: e.meta }
                } else {
                    NodeState::NonDirectory
                }
            } else if strictly_under(e.path@, p) {
                NodeState::DirDefault
            } else {
                fs[p]
            },
    )
}

/// The model filesystem after unpacking each entry of `plan` in order.
pub open spec fn extract_fs(fs: Map<Seq<u8>, NodeState>, plan: Seq<TarEntry>) -> Map<
    Seq<u8>,
    NodeState,
>
    decreases plan.len(),
{
    if plan.len() == 0 {
        fs
    } else {
        extract_fs(apply_entry(fs, plan[0]), plan.drop_first())
    }
}

/// A path no entry of `plan` writes at or under keeps its state.
proof fn lemma_fs_untouched(fs: Map<Seq<u8>, NodeState>, plan: Seq<TarEntry>, p: Seq<u8>)
    requires
        forall|k: int|
            0 <= k < plan.len() ==> (#[trigger] plan[k]).path@ != p && !strictly_under(
                plan[k].path@,
                p,
            ),
    ensures
        extract_fs(fs, plan)[p] == fs[p],
    decreases plan.len(),
{
    if plan.len() > 0 {
        assert(plan[0].path@ != p && !strictly_under(plan[0].path@, p));
        assert(apply_entry(fs, plan[0])[p] == fs[p]);
        assert forall|k: int|
            0 <= k < plan.drop_first().len() implies (#[trigger] plan.drop_first()[k]).path@ != p
            && !strictly_under(plan.drop_first()[k].path@, p) by {
            assert(plan.drop_first()[k] == plan[k + 1]);
        }
        lemma_fs_untouched(apply_entry(fs, plan[0]), plan.drop_first(), p);
    }
}

/// Folding extraction over a concatenation folds over each part in turn.
proof fn lemma_extract_fs_split(fs: Map<Seq<u8>, NodeState>, a: Seq<TarEntry>, b: Seq<TarEntry>)
    ensures
        extract_fs(fs, a + b) == extract_fs(extract_fs(fs, a), b),
    decreases a.len(),
{
    if a.len() == 0 {
        assert(a + b =~= b);
    } else {
        assert((a + b)[0] == a[0]);
        assert((a + b).drop_first() =~= a.drop_first() + b);
        lemma_extract_fs_split(apply_entry(fs, a[0]), a.drop_first(), b);
    }
}

/// Once a directory entry of the plan is unpacked, no later entry of the
/// plan writes underneath it.
pub proof fn lemma_no_later_entry_under_directory(
    entries: Seq<TarEntry>,
    order: Seq<usize>,
    i: int,
    j: int,
)
    requires
        valid_unpack_order(entries, order),
        0 <= i < j < order.len(),
        planned(entries, order)[i].is_dir(),
    ensures
        !strictly_under(planned(entries, order)[j].path@, planned(entries, order)[i].path@),
{
    let nf = num_nondirs(entries);
    let plan = planned(entries, order);
    if i < nf {
        assert(!entries[(order[i]) as int].is_dir());
        assert(false);
    }
    // both positions lie in the deferred block, so the deeper-first order
    // bounds the later entry's path length by the earlier one's
    assert(deeper_first(entries, order[i], order[j]));
    assert(plan[i].path@.len() >= plan[j].path@.len());
}

/// No directory path is listed twice among the directory entries.
pub open spec fn distinct_dir_paths(entries: Seq<TarEntry>) -> bool {
    forall|a: int, b: int|
        0 <= a < entries.len() && 0 <= b < entries.len() && a != b && entries[a].is_dir()
            && entries[b].is_dir() ==> (#[trigger] entries[a]).path@ != (
        #[trigger] entries[b]).path@
}

/// Ordering independence of directory metadata: however the archive orders
/// its entries, extracting them in a valid unpack order leaves, at the path
/// of every directory entry, exactly the metadata the archive recorded for
/// it. Later entries can neither overwrite it nor perturb it by writing
/// underneath it.
pub proof fn lemma_directory_metadata_preserved(entries: Seq<TarEntry>, order: Seq<usize>, k: int)
    requires
        valid_unpack_order(entries, order),
        distinct_dir_paths(entries),
        0 <= k < entries.len(),
        entries[k].is_dir(),
    ensures
        extract_fs(fs_init(), planned(entries, order))[entries[k].path@] == (NodeState::DirRecorded {
            meta: entries[k].meta,
        }),
{
    let nf = num_nondirs(entries);
    let plan = planned(entries, order);
    let p = entries[k].path@;
    assert(appears(order, k));
    let t = choose|t: int| 0 <= t < order.len() && order[t] as int == k;
    assert(plan[t] == entries[k]);
    if t < nf {
        assert(!entries[(order[t]) as int].is_dir());
        assert(false);
    }
    // split the plan at the position that unpacks entry k
    let head = plan.subrange(0, t + 1);
    let tail = plan.subrange(t + 1, plan.len() as int);
    assert(plan =~= head + tail);
    lemma_extract_fs_split(fs_init(), head, tail);
    // the head ends by applying entry k itself
    let front = plan.subrange(0, t);
    assert(head =~= front + seq![plan[t]]);
    lemma_extract_fs_split(fs_init(), front, seq![plan[t]]);
    let mid = extract_fs(fs_init(), front);
    assert(extract_fs(mid, seq![plan[t]]) == extract_fs(
        apply_entry(mid, plan[t]),
        seq![plan[t]].drop_first(),
    ));
    assert(seq![plan[t]].drop_first().len() == 0);
    assert(extract_fs(fs_init(), head) == apply_entry(mid, plan[t]));
    assert(apply_entry(mid, plan[t])[p] == (NodeState::DirRecorded { meta: entries[k].meta }));
    // nothing after position t writes at or under the directory's path
    assert forall|m: int|
        0 <= m < tail.len() implies (#[trigger] tail[m]).path@ != p && !strictly_under(
        tail[m].path@,
        p,
    ) by {
        let j = t + 1 + m;
        assert(tail[m] == plan[j]);
        assert(entries[(order[j]) as int].is_dir());
        lemma_no_later_entry_under_directory(entries, order, t, j);
        // a later directory entry cannot carry the same path: the deferred
        // block is strictly ordered, so it is a different archive entry,
        // and directory paths are distinct
        assert(deeper_first(entries, order[t], order[j]));
        if order[j] as int == k {
            assert(!deeper_first(entries, order[t], order[j]));
        }
        assert(entries[(order[j]) as int].path@ != p);
    }
    lemma_fs_untouched(extract_fs(fs_init(), head), tail, p);
}

} // verus!
