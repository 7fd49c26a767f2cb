//! The rows and the bytes of a move: what the destination gains, what the source gives up.

use vstd::prelude::*;

use crate::server::namespace::{Namespace, Table};
#[allow(unused_imports)]
use crate::server::namespace::{charged, Held, Space};
use crate::server::share::{refs_hold, Move, Ref};
#[allow(unused_imports)]
use crate::server::share::{kind_of, ref_at, ref_at_is_found, referenced, refs_wf};
#[allow(unused_imports)]
use crate::server::store::shardable;

verus! {

/// What the destination holds after it took the references on.
pub open spec fn gained(to: Map<Seq<char>, Held>, refs: Seq<Ref>) -> Map<Seq<char>, Held> {
    Map::new(
        |sha: Seq<char>| to.contains_key(sha) || referenced(refs, sha),
        |sha: Seq<char>|
            if !referenced(refs, sha) {
                to[sha]
            } else if to.contains_key(sha) {
                Held {
                    size: to[sha].size,
                    refcount: to[sha].refcount + refs[ref_at(refs, sha)].count,
                }
            } else {
                Held {
                    size: refs[ref_at(refs, sha)].size as int,
                    refcount: refs[ref_at(refs, sha)].count as int,
                }
            },
    )
}

/// Does the reference take the last of what points at the object?
pub open spec fn drained(from: Map<Seq<char>, Held>, r: Ref) -> bool {
    from.contains_key(r.sha@) && from[r.sha@].refcount - r.count <= 0
}

/// What the source holds after it gave the references up: an object that nothing points at any
/// more is gone.
pub open spec fn given_up(from: Map<Seq<char>, Held>, refs: Seq<Ref>) -> Map<Seq<char>, Held> {
    Map::new(
        |sha: Seq<char>|
            from.contains_key(sha) && !(referenced(refs, sha) && drained(
                from,
                refs[ref_at(refs, sha)],
            )),
        |sha: Seq<char>|
            if !referenced(refs, sha) {
                from[sha]
            } else {
                Held {
                    size: from[sha].size,
                    refcount: from[sha].refcount - refs[ref_at(refs, sha)].count,
                }
            },
    )
}

/// The bytes the destination did not hold before.
pub open spec fn new_bytes(to: Map<Seq<char>, Held>, refs: Seq<Ref>) -> int
    decreases refs.len(),
{
    if refs.len() == 0 {
        0
    } else {
        new_bytes(to, refs.drop_last()) + (if to.contains_key(refs.last().sha@) {
            0
        } else {
            refs.last().size as int
        })
    }
}

/// The bytes the source no longer holds.
pub open spec fn freed_bytes(from: Map<Seq<char>, Held>, refs: Seq<Ref>) -> int
    decreases refs.len(),
{
    if refs.len() == 0 {
        0
    } else {
        freed_bytes(from, refs.drop_last()) + (if drained(from, refs.last()) {
            from[refs.last().sha@].size
        } else {
            0
        })
    }
}

/// The hashes of the objects that the source no longer holds, in order.
pub open spec fn drained_shas(from: Map<Seq<char>, Held>, refs: Seq<Ref>) -> Seq<Seq<char>>
    decreases refs.len(),
{
    if refs.len() == 0 {
        Seq::empty()
    } else if drained(from, refs.last()) {
        drained_shas(from, refs.drop_last()).push(refs.last().sha@)
    } else {
        drained_shas(from, refs.drop_last())
    }
}

/// The move of these references fits in machine numbers: no size in the source is negative and no
/// refcount or total leaves its range.
pub open spec fn settles(
    from: Map<Seq<char>, Held>,
    to: Map<Seq<char>, Held>,
    refs: Seq<Ref>,
) -> bool {
    &&& refs_wf(refs)
    &&& forall|sha: Seq<char>| #[trigger] from.contains_key(sha) ==> from[sha].size >= 0
    &&& forall|i: int|
        0 <= i < refs.len() && to.contains_key((#[trigger] refs[i]).sha@)
            ==> to[refs[i].sha@].refcount + refs[i].count <= i64::MAX
    &&& forall|i: int|
        0 <= i < refs.len() && from.contains_key((#[trigger] refs[i]).sha@)
            ==> from[refs[i].sha@].refcount - refs[i].count >= i64::MIN
    &&& new_bytes(to, refs) <= i64::MAX
    &&& freed_bytes(from, refs) <= i64::MAX
}

/// No size is negative, in the source or among the references.
spec fn no_debt(from: Map<Seq<char>, Held>, refs: Seq<Ref>) -> bool {
    &&& refs_wf(refs)
    &&& forall|sha: Seq<char>| #[trigger] from.contains_key(sha) ==> from[sha].size >= 0
}

proof fn bytes_grow(
    from: Map<Seq<char>, Held>,
    to: Map<Seq<char>, Held>,
    refs: Seq<Ref>,
    i: int,
)
    requires
        no_debt(from, refs),
        0 <= i <= refs.len(),
    ensures
        0 <= new_bytes(to, refs.take(i)) <= new_bytes(to, refs),
        0 <= freed_bytes(from, refs.take(i)) <= freed_bytes(from, refs),
    decreases refs.len() - i,
{
    bytes_are_not_negative(from, to, refs, i);
    if i < refs.len() {
        bytes_grow(from, to, refs, i + 1);
        assert(refs.take(i + 1).drop_last() =~= refs.take(i));
        assert(refs.take(i + 1).last() == refs[i]);
    } else {
        assert(refs.take(i) =~= refs);
    }
}

proof fn bytes_are_not_negative(
    from: Map<Seq<char>, Held>,
    to: Map<Seq<char>, Held>,
    refs: Seq<Ref>,
    i: int,
)
    requires
        no_debt(from, refs),
        0 <= i <= refs.len(),
    ensures
        0 <= new_bytes(to, refs.take(i)),
        0 <= freed_bytes(from, refs.take(i)),
    decreases i,
{
    if i > 0 {
        bytes_are_not_negative(from, to, refs, i - 1);
        assert(refs.take(i).drop_last() =~= refs.take(i - 1));
        assert(refs.take(i).last() == refs[i - 1]);
    }
}

proof fn next_ref(refs: Seq<Ref>, i: int)
    requires
        refs_wf(refs),
        0 <= i < refs.len(),
    ensures
        !referenced(refs.take(i), refs[i].sha@),
        ref_at(refs.take(i + 1), refs[i].sha@) == i,
        forall|sha: Seq<char>|
            sha != refs[i].sha@ ==> #[trigger] ref_at(refs.take(i + 1), sha) == ref_at(
                refs.take(i),
                sha,
            ),
        forall|sha: Seq<char>|
            #[trigger] ref_at(refs.take(i), sha) < i,
{
    assert(refs.take(i + 1).drop_last() =~= refs.take(i));
    assert(refs.take(i + 1).last() == refs[i]);
    ref_at_is_found(refs.take(i), refs[i].sha@);
    if referenced(refs.take(i), refs[i].sha@) {
        let k = ref_at(refs.take(i), refs[i].sha@);
        assert(refs[k].sha@ != refs[i].sha@);
    }
    assert forall|sha: Seq<char>| #[trigger] ref_at(refs.take(i), sha) < i by {
        ref_at_is_found(refs.take(i), sha);
    }
}

/// Can the references of one kind be moved within machine numbers? The bytes that the destination
/// gains and those that the source frees, where they can.
pub fn fits(from: &Table, to: &Table, refs: &Vec<Ref>) -> (r: Option<(i64, i64)>)
    requires
        from.wf(),
    ensures
        r is Some == settles(from@, to@, refs@),
        r matches Some((gain, freed)) ==> gain == new_bytes(to@, refs@) && freed == freed_bytes(
            from@,
            refs@,
        ),
{
    if !refs_hold(refs) || !from.sizes_hold() {
        return None;
    }
    let mut gain: i64 = 0;
    let mut freed: i64 = 0;
    let mut i: usize = 0;
    while i < refs.len()
        invariant
            i <= refs.len(),
            no_debt(from@, refs@),
            forall|k: int|
                0 <= k < i && to@.contains_key((#[trigger] refs@[k]).sha@)
                    ==> to@[refs@[k].sha@].refcount + refs@[k].count <= i64::MAX,
            forall|k: int|
                0 <= k < i && from@.contains_key((#[trigger] refs@[k]).sha@)
                    ==> from@[refs@[k].sha@].refcount - refs@[k].count >= i64::MIN,
            gain == new_bytes(to@, refs@.take(i as int)),
            freed == freed_bytes(from@, refs@.take(i as int)),
        decreases refs.len() - i,
    {
        let r = &refs[i];
        let sha = r.sha.as_str();
        proof {
            assert(refs@.take(i + 1).drop_last() =~= refs@.take(i as int));
            assert(refs@.take(i + 1).last() == refs@[i as int]);
            bytes_grow(from@, to@, refs@, i + 1);
        }
        match to.refcount(sha) {
            Some(n) => {
                if n > i64::MAX - r.count {
                    return None;
                }
            },
            None => {
                if gain > i64::MAX - r.size {
                    return None;
                }
                gain = gain + r.size;
            },
        }
        match (from.refcount(sha), from.size(sha)) {
            (Some(n), Some(size)) => {
                if n < i64::MIN + r.count {
                    return None;
                }
                if n - r.count <= 0 {
                    if freed > i64::MAX - size {
                        return None;
                    }
                    freed = freed + size;
                }
            },
            _ => {},
        }
        i += 1;
    }
    assert(refs@.take(refs.len() as int) =~= refs@);
    Some((gain, freed))
}

/// Move the references of one kind: add them to the destination's rows, take them from the
/// source's, and drop the rows that nothing points at any more.
pub fn settle_kind(from: &mut Table, to: &mut Table, refs: &Vec<Ref>) -> (r: (
    i64,
    i64,
    Vec<String>,
))
    requires
        old(from).wf(),
        old(to).wf(),
        settles(old(from)@, old(to)@, refs@),
    ensures
        final(from).wf(),
        final(to).wf(),
        final(to)@ == gained(old(to)@, refs@),
        final(from)@ == given_up(old(from)@, refs@),
        r.0 == new_bytes(old(to)@, refs@),
        r.1 == freed_bytes(old(from)@, refs@),
        crate::text::views(r.2@) == drained_shas(old(from)@, refs@),
{
    let ghost from0 = from@;
    let ghost to0 = to@;
    let mut gain: i64 = 0;
    let mut freed: i64 = 0;
    let mut orphans: Vec<String> = Vec::new();
    let mut i: usize = 0;
    assert(to@ =~= gained(to0, refs@.take(0)));
    assert(from@ =~= given_up(from0, refs@.take(0)));
    assert(crate::text::views(orphans@) =~= drained_shas(from0, refs@.take(0)));
    while i < refs.len()
        invariant
            i <= refs.len(),
            from.wf(),
            to.wf(),
            settles(from0, to0, refs@),
            to@ == gained(to0, refs@.take(i as int)),
            from@ == given_up(from0, refs@.take(i as int)),
            gain == new_bytes(to0, refs@.take(i as int)),
            freed == freed_bytes(from0, refs@.take(i as int)),
            crate::text::views(orphans@) == drained_shas(from0, refs@.take(i as int)),
        decreases refs.len() - i,
    {
        let r = &refs[i];
        let sha = r.sha.as_str();
        let ghost done = refs@.take(i as int);
        let ghost next = refs@.take(i + 1);
        proof {
            next_ref(refs@, i as int);
            bytes_grow(from0, to0, refs@, i + 1);
            assert(next.drop_last() =~= done);
            assert(next.last() == refs@[i as int]);
            assert(to@.contains_key(sha@) == to0.contains_key(sha@));
            assert(from@.contains_key(sha@) == from0.contains_key(sha@));
        }
        let had = to.size(sha).is_some();
        to.incref(sha, r.size, r.count);
        assert(to@ =~= gained(to0, next));
        if !had {
            gain = gain + r.size;
        }
        match from.decref(sha, r.count) {
            Some((left, size)) => {
                if left <= 0 {
                    from.delete_row(sha);
                    freed = freed + size;
                    let ghost was = crate::text::views(orphans@);
                    orphans.push(r.sha.clone());
                    assert(crate::text::views(orphans@) =~= was.push(sha@));
                }
            },
            None => {},
        }
        assert(from@ =~= given_up(from0, next));
        i += 1;
    }
    assert(refs@.take(refs.len() as int) =~= refs@);
    (gain, freed, orphans)
}

/// What a namespace holds.
#[derive(Debug)]
pub struct Shelf {
    pub blobs: Table,
    pub chunks: Table,
}

/// The rows of a namespace, by the hash of their object.
pub ghost struct Stock {
    pub blobs: Map<Seq<char>, Held>,
    pub chunks: Map<Seq<char>, Held>,
}

impl Stock {
    /// The rows of one kind.
    pub open spec fn of(self, is_chunk: bool) -> Map<Seq<char>, Held> {
        if is_chunk {
            self.chunks
        } else {
            self.blobs
        }
    }

    /// The rows after the namespace took the references on.
    pub open spec fn plus(self, blobs: Seq<Ref>, chunks: Seq<Ref>) -> Stock {
        Stock { blobs: gained(self.blobs, blobs), chunks: gained(self.chunks, chunks) }
    }

    /// The rows after the namespace gave the references up.
    pub open spec fn minus(self, blobs: Seq<Ref>, chunks: Seq<Ref>) -> Stock {
        Stock { blobs: given_up(self.blobs, blobs), chunks: given_up(self.chunks, chunks) }
    }

    /// The bytes that the namespace does not hold yet.
    pub open spec fn lacks(self, blobs: Seq<Ref>, chunks: Seq<Ref>) -> int {
        new_bytes(self.blobs, blobs) + new_bytes(self.chunks, chunks)
    }

    /// The bytes that the namespace no longer holds once the references are gone.
    pub open spec fn frees(self, blobs: Seq<Ref>, chunks: Seq<Ref>) -> int {
        freed_bytes(self.blobs, blobs) + freed_bytes(self.chunks, chunks)
    }

    /// Does the namespace lose the object with the references?
    pub open spec fn loses(
        self,
        blobs: Seq<Ref>,
        chunks: Seq<Ref>,
        is_chunk: bool,
        sha: Seq<char>,
    ) -> bool {
        drained_shas(self.of(is_chunk), if is_chunk { chunks } else { blobs }).contains(sha)
    }
}

impl View for Shelf {
    type V = Stock;

    open spec fn view(&self) -> Stock {
        Stock { blobs: self.blobs@, chunks: self.chunks@ }
    }
}

/// An object of the source that nothing references any more.
#[derive(Debug)]
pub struct Orphan {
    pub is_chunk: bool,
    pub sha: String,
    pub key: String,
}

/// What a move came to.
#[derive(Debug)]
pub struct Settlement {
    pub bytes_moved: i64,
    pub bytes_freed: i64,
    pub orphans: Vec<Orphan>,
}

/// Is the orphan the object of this kind and hash?
pub open spec fn orphaned(
    o: Orphan,
    is_chunk: bool,
    sha: Seq<char>,
    from: Space,
) -> bool {
    &&& o.is_chunk == is_chunk
    &&& o.sha@ == sha
    &&& o.key@ == from.key(kind_of(is_chunk), sha)
}

/// The keys of the orphans, which are deleted.
pub open spec fn keys_deleted(orphans: Seq<Orphan>) -> Set<Seq<char>> {
    Set::new(
        |k: Seq<char>| exists|i: int| 0 <= i < orphans.len() && (#[trigger] orphans[i]).key@ == k,
    )
}

/// The keys of what the namespace loses with the references.
pub open spec fn keys_lost(
    space: Space,
    stock: Stock,
    blobs: Seq<Ref>,
    chunks: Seq<Ref>,
) -> Set<Seq<char>> {
    Set::new(
        |k: Seq<char>|
            exists|is_chunk: bool, sha: Seq<char>|
                #[trigger] stock.loses(blobs, chunks, is_chunk, sha) && k == space.key(
                    kind_of(is_chunk),
                    sha,
                ),
    )
}

proof fn drained_are_shardable(from: Map<Seq<char>, Held>, refs: Seq<Ref>)
    requires
        forall|i: int| 0 <= i < refs.len() ==> shardable((#[trigger] refs[i]).sha@),
    ensures
        forall|i: int|
            0 <= i < drained_shas(from, refs).len() ==> shardable(
                #[trigger] drained_shas(from, refs)[i],
            ),
    decreases refs.len(),
{
    if refs.len() > 0 {
        let rest = refs.drop_last();
        assert forall|i: int| 0 <= i < rest.len() implies shardable((#[trigger] rest[i]).sha@) by {
            assert(rest[i] == refs[i]);
        }
        drained_are_shardable(from, rest);
        assert(shardable(refs[refs.len() - 1].sha@));
        assert forall|i: int| 0 <= i < drained_shas(from, refs).len() implies shardable(
            #[trigger] drained_shas(from, refs)[i],
        ) by {
            if i < drained_shas(from, rest).len() {
                assert(drained_shas(from, refs)[i] == drained_shas(from, rest)[i]);
            }
        }
    }
}

fn name_orphans(
    out: &mut Vec<Orphan>,
    shas: Vec<String>,
    is_chunk: bool,
    from: &Namespace,
)
    requires
        forall|i: int| 0 <= i < shas@.len() ==> shardable((#[trigger] shas@[i])@),
    ensures
        final(out)@.len() == old(out)@.len() + shas@.len(),
        forall|i: int| 0 <= i < old(out)@.len() ==> final(out)@[i] == #[trigger] old(out)@[i],
        forall|i: int|
            0 <= i < shas@.len() ==> orphaned(
                #[trigger] final(out)@[old(out)@.len() + i],
                is_chunk,
                shas@[i]@,
                from@,
            ),
{
    let ghost n = out@.len() as int;
    let ghost was = out@;
    let mut i: usize = 0;
    while i < shas.len()
        invariant
            i <= shas.len(),
            n == was.len(),
            was == old(out)@,
            out@.len() == n + i,
            forall|k: int| 0 <= k < shas@.len() ==> shardable((#[trigger] shas@[k])@),
            forall|k: int| 0 <= k < n ==> out@[k] == #[trigger] was[k],
            forall|k: int|
                0 <= k < i ==> orphaned(#[trigger] out@[n + k], is_chunk, shas@[k]@, from@),
        decreases shas.len() - i,
    {
        let sha = shas[i].as_str();
        let key = if is_chunk {
            from.chunk_key(sha)
        } else {
            from.blob_key(sha)
        };
        let ghost earlier = out@;
        out.push(Orphan { is_chunk, sha: shas[i].clone(), key });
        assert(forall|k: int| 0 <= k < earlier.len() ==> out@[k] == earlier[k]);
        i += 1;
    }
}

/// The move of a save's references fits in machine numbers, the bytes of both kinds together.
pub open spec fn settleable(from: Stock, to: Stock, blobs: Seq<Ref>, chunks: Seq<Ref>) -> bool {
    &&& settles(from.blobs, to.blobs, blobs)
    &&& settles(from.chunks, to.chunks, chunks)
    &&& to.lacks(blobs, chunks) <= i64::MAX
    &&& from.frees(blobs, chunks) <= i64::MAX
}

/// Can the save's references be moved within machine numbers?
pub fn can_settle(from: &Shelf, to: &Shelf, blobs: &Vec<Ref>, chunks: &Vec<Ref>) -> (r: bool)
    requires
        from.blobs.wf(),
        from.chunks.wf(),
    ensures
        r == settleable(from@, to@, blobs@, chunks@),
{
    match (fits(&from.blobs, &to.blobs, blobs), fits(&from.chunks, &to.chunks, chunks)) {
        (Some((blob_gain, blob_freed)), Some((chunk_gain, chunk_freed))) => {
            proof {
                bytes_grow(from.blobs@, to.blobs@, blobs@, 0);
                bytes_grow(from.chunks@, to.chunks@, chunks@, 0);
            }
            blob_gain <= i64::MAX - chunk_gain && blob_freed <= i64::MAX - chunk_freed
        },
        _ => false,
    }
}

/// Move every reference of the save from one namespace's rows to the other's.
pub fn settle(
    from_ns: &Namespace,
    from: &mut Shelf,
    to: &mut Shelf,
    blobs: &Vec<Ref>,
    chunks: &Vec<Ref>,
) -> (r: Settlement)
    requires
        old(from).blobs.wf(),
        old(from).chunks.wf(),
        old(to).blobs.wf(),
        old(to).chunks.wf(),
        settleable(old(from)@, old(to)@, blobs@, chunks@),
    ensures
        final(from).blobs.wf(),
        final(from).chunks.wf(),
        final(to).blobs.wf(),
        final(to).chunks.wf(),
        final(to)@ == old(to)@.plus(blobs@, chunks@),
        final(from)@ == old(from)@.minus(blobs@, chunks@),
        r.bytes_moved == old(to)@.lacks(blobs@, chunks@),
        r.bytes_freed == old(from)@.frees(blobs@, chunks@),
        r.orphans@.len() == drained_shas(old(from).blobs@, blobs@).len() + drained_shas(
            old(from).chunks@,
            chunks@,
        ).len(),
        forall|i: int|
            0 <= i < drained_shas(old(from).blobs@, blobs@).len() ==> orphaned(
                #[trigger] r.orphans@[i],
                false,
                drained_shas(old(from).blobs@, blobs@)[i],
                from_ns@,
            ),
        forall|i: int|
            0 <= i < drained_shas(old(from).chunks@, chunks@).len() ==> orphaned(
                #[trigger] r.orphans@[drained_shas(old(from).blobs@, blobs@).len() + i],
                true,
                drained_shas(old(from).chunks@, chunks@)[i],
                from_ns@,
            ),
        keys_deleted(r.orphans@) == keys_lost(from_ns@, old(from)@, blobs@, chunks@),
{
    proof {
        drained_are_shardable(from.blobs@, blobs@);
        drained_are_shardable(from.chunks@, chunks@);
        bytes_grow(from.blobs@, to.blobs@, blobs@, 0);
        bytes_grow(from.chunks@, to.chunks@, chunks@, 0);
    }
    let ghost stock = from@;
    let ghost lost_blobs = drained_shas(from.blobs@, blobs@);
    let ghost lost_chunks = drained_shas(from.chunks@, chunks@);
    let (blob_gain, blob_freed, blob_shas) = settle_kind(&mut from.blobs, &mut to.blobs, blobs);
    let (chunk_gain, chunk_freed, chunk_shas) = settle_kind(
        &mut from.chunks,
        &mut to.chunks,
        chunks,
    );
    proof {
        assert forall|i: int| 0 <= i < blob_shas@.len() implies shardable((#[trigger] blob_shas@[i])@) by {
            assert(crate::text::views(blob_shas@)[i] == lost_blobs[i]);
        }
        assert forall|i: int| 0 <= i < chunk_shas@.len() implies shardable((#[trigger] chunk_shas@[i])@) by {
            assert(crate::text::views(chunk_shas@)[i] == lost_chunks[i]);
        }
        assert(crate::text::views(blob_shas@).len() == blob_shas@.len());
        assert(crate::text::views(chunk_shas@).len() == chunk_shas@.len());
    }
    let ghost bs = blob_shas@;
    let ghost cs = chunk_shas@;
    let mut orphans: Vec<Orphan> = Vec::new();
    name_orphans(&mut orphans, blob_shas, false, from_ns);
    let ghost half = orphans@;
    name_orphans(&mut orphans, chunk_shas, true, from_ns);
    proof {
        assert forall|i: int| 0 <= i < lost_blobs.len() implies orphaned(
            #[trigger] orphans@[i],
            false,
            lost_blobs[i],
            from_ns@,
        ) by {
            assert(orphans@[i] == half[i]);
            assert(orphaned(half[0 + i], false, bs[i]@, from_ns@));
            assert(crate::text::views(bs)[i] == lost_blobs[i]);
        }
        assert forall|i: int| 0 <= i < lost_chunks.len() implies orphaned(
            #[trigger] orphans@[lost_blobs.len() + i],
            true,
            lost_chunks[i],
            from_ns@,
        ) by {
            assert(orphaned(orphans@[half.len() + i], true, cs[i]@, from_ns@));
            assert(crate::text::views(cs)[i] == lost_chunks[i]);
        }
        let lost = keys_lost(from_ns@, stock, blobs@, chunks@);
        assert forall|k: Seq<char>| keys_deleted(orphans@).contains(k) implies lost.contains(k) by {
            let i = choose|i: int| 0 <= i < orphans@.len() && (#[trigger] orphans@[i]).key@ == k;
            if i < lost_blobs.len() {
                assert(lost_blobs.contains(lost_blobs[i]));
                assert(stock.loses(blobs@, chunks@, false, lost_blobs[i]));
            } else {
                let j = i - lost_blobs.len();
                assert(orphaned(
                    orphans@[lost_blobs.len() + j],
                    true,
                    lost_chunks[j],
                    from_ns@,
                ));
                assert(lost_chunks.contains(lost_chunks[j]));
                assert(stock.loses(blobs@, chunks@, true, lost_chunks[j]));
            }
        }
        assert forall|k: Seq<char>| lost.contains(k) implies keys_deleted(orphans@).contains(k) by {
            let (is_chunk, sha) = choose|is_chunk: bool, sha: Seq<char>|
                #[trigger] stock.loses(blobs@, chunks@, is_chunk, sha) && k == from_ns@.key(
                    kind_of(is_chunk),
                    sha,
                );
            if is_chunk {
                let j = lost_chunks.index_of(sha);
                assert(orphaned(
                    orphans@[lost_blobs.len() + j],
                    true,
                    lost_chunks[j],
                    from_ns@,
                ));
            } else {
                let j = lost_blobs.index_of(sha);
                assert(orphaned(orphans@[j], false, lost_blobs[j], from_ns@));
            }
        }
        assert(keys_deleted(orphans@) =~= lost);
    }
    Settlement {
        bytes_moved: blob_gain + chunk_gain,
        bytes_freed: blob_freed + chunk_freed,
        orphans,
    }
}

/// What the audit log keeps of a move.
#[derive(Debug)]
pub struct MoveRecord {
    pub shared: bool,
    pub group_id: Option<String>,
    pub blobs: usize,
    pub chunks: usize,
    pub bytes_moved: i64,
    pub bytes_freed: i64,
    pub lease_ended: bool,
}

/// The record of a move: the group is the one the save went into or came from.
pub fn move_record(
    mv: &Move,
    from: &Namespace,
    blobs: &Vec<Ref>,
    chunks: &Vec<Ref>,
    settlement: &Settlement,
    lease_ended: bool,
) -> (r: MoveRecord)
    ensures
        r.shared == (*mv is Share),
        r.group_id == (match (*mv, *from) {
            (Move::Share { group_id, .. }, _) => Some(group_id),
            (_, Namespace::Group(g)) => Some(g),
            (_, Namespace::User(_)) => None,
        }),
        r.blobs == blobs@.len(),
        r.chunks == chunks@.len(),
        r.bytes_moved == settlement.bytes_moved,
        r.bytes_freed == settlement.bytes_freed,
        r.lease_ended == lease_ended,
{
    let group_id = match (mv, from) {
        (Move::Share { group_id, .. }, _) => Some(group_id.clone()),
        (_, Namespace::Group(g)) => Some(g.clone()),
        (_, Namespace::User(_)) => None,
    };
    MoveRecord {
        shared: matches!(mv, Move::Share { .. }),
        group_id,
        blobs: blobs.len(),
        chunks: chunks.len(),
        bytes_moved: settlement.bytes_moved,
        bytes_freed: settlement.bytes_freed,
        lease_ended,
    }
}

impl MoveRecord {
    /// The name of the event.
    pub fn event(&self) -> (r: &'static str)
        ensures
            r@ == (if self.shared { "save.shared"@ } else { "save.unshared"@ }),
    {
        if self.shared {
            "save.shared"
        } else {
            "save.unshared"
        }
    }
}

/// Is a source object still wanted after the move? A push since may have brought its row back;
/// where the row could not be read (`Err`), it may have too.
pub fn revived(refcount: Result<Option<i64>, ()>) -> (r: bool)
    ensures
        r == (match refcount {
            Ok(Some(n)) => n > 0,
            Ok(None) => false,
            Err(_) => true,
        }),
{
    match refcount {
        Ok(Some(n)) => n > 0,
        Ok(None) => false,
        Err(_) => true,
    }
}

/// Can the references be handed over whole? The source holds each at the size the save says, with
/// at least the references that move, and the destination holds nothing that nothing points at.
pub open spec fn in_order(
    from: Map<Seq<char>, Held>,
    to: Map<Seq<char>, Held>,
    refs: Seq<Ref>,
) -> bool {
    &&& refs_wf(refs)
    &&& forall|i: int|
        0 <= i < refs.len() ==> {
            &&& from.contains_key((#[trigger] refs[i]).sha@)
            &&& from[refs[i].sha@].size == refs[i].size
            &&& from[refs[i].sha@].refcount >= refs[i].count
            &&& refs[i].count > 0
        }
    &&& forall|i: int|
        0 <= i < refs.len() && to.contains_key((#[trigger] refs[i]).sha@)
            ==> to[refs[i].sha@].refcount > 0
}

/// The hashes that a namespace loses are those whose last reference goes.
pub proof fn drained_shas_are_drained(from: Map<Seq<char>, Held>, refs: Seq<Ref>, sha: Seq<char>)
    requires
        refs_wf(refs),
    ensures
        drained_shas(from, refs).contains(sha) == (referenced(refs, sha) && drained(
            from,
            refs[ref_at(refs, sha)],
        )),
    decreases refs.len(),
{
    ref_at_is_found(refs, sha);
    if refs.len() > 0 {
        let rest = refs.drop_last();
        let n = refs.len() - 1;
        assert(refs_wf(rest));
        drained_shas_are_drained(from, rest, sha);
        next_ref(refs, n);
        assert(refs.take(n) =~= rest && refs.take(n + 1) =~= refs);
        let (was, now) = (drained_shas(from, rest), drained_shas(from, refs));
        if drained(from, refs.last()) {
            assert(now == was.push(refs.last().sha@));
            assert(now[was.len() as int] == refs.last().sha@);
            if was.contains(sha) {
                let i = was.index_of(sha);
                assert(now[i] == sha);
            }
            if now.contains(sha) && sha != refs.last().sha@ {
                let i = now.index_of(sha);
                assert(was[i] == sha);
            }
        }
    }
}

/// A move deletes from the source exactly the objects that the source no longer holds, and the
/// destination holds each of them: a move loses nothing.
pub proof fn nothing_is_lost_in_a_move(
    from: Map<Seq<char>, Held>,
    to: Map<Seq<char>, Held>,
    refs: Seq<Ref>,
    sha: Seq<char>,
)
    requires
        refs_wf(refs),
    ensures
        drained_shas(from, refs).contains(sha) == (from.contains_key(sha) && !given_up(
            from,
            refs,
        ).contains_key(sha)),
        drained_shas(from, refs).contains(sha) ==> gained(to, refs).contains_key(sha),
        from.contains_key(sha) || to.contains_key(sha) ==> given_up(from, refs).contains_key(sha)
            || gained(to, refs).contains_key(sha),
{
    drained_shas_are_drained(from, refs, sha);
    ref_at_is_found(refs, sha);
}

/// Unsharing is the exact reverse of sharing: the same references moved back leave every row of
/// both namespaces as it was, and the bytes that each way gains are those that the other frees.
pub proof fn moving_back_restores_both_sides(
    from: Map<Seq<char>, Held>,
    to: Map<Seq<char>, Held>,
    refs: Seq<Ref>,
)
    requires
        in_order(from, to, refs),
    ensures
        gained(given_up(from, refs), refs) == from,
        given_up(gained(to, refs), refs) == to,
        new_bytes(given_up(from, refs), refs) == freed_bytes(from, refs),
        freed_bytes(gained(to, refs), refs) == new_bytes(to, refs),
{
    assert forall|sha: Seq<char>| #[trigger] referenced(refs, sha) implies ({
        let r = refs[ref_at(refs, sha)];
        &&& 0 <= ref_at(refs, sha) < refs.len()
        &&& r.sha@ == sha
    }) by {
        ref_at_is_found(refs, sha);
    }
    assert(gained(given_up(from, refs), refs) =~= from);
    assert(given_up(gained(to, refs), refs) =~= to);
    bytes_match(from, to, refs, refs.len() as int);
    assert(refs.take(refs.len() as int) =~= refs);
}

proof fn bytes_match(from: Map<Seq<char>, Held>, to: Map<Seq<char>, Held>, refs: Seq<Ref>, i: int)
    requires
        in_order(from, to, refs),
        0 <= i <= refs.len(),
    ensures
        new_bytes(given_up(from, refs), refs.take(i)) == freed_bytes(from, refs.take(i)),
        freed_bytes(gained(to, refs), refs.take(i)) == new_bytes(to, refs.take(i)),
    decreases i,
{
    if i > 0 {
        bytes_match(from, to, refs, i - 1);
        let part = refs.take(i);
        assert(part.drop_last() =~= refs.take(i - 1));
        assert(part.last() == refs[i - 1]);
        let sha = refs[i - 1].sha@;
        ref_at_is_found(refs, sha);
        let k = ref_at(refs, sha);
        if k >= 0 && k != i - 1 {
            assert(refs[k].sha@ != refs[i - 1].sha@);
        }
        assert(k == i - 1);
    }
}

/// A save shared and taken back costs nobody anything: the owner and the one who pays for the
/// group end where they began, where neither was in debt.
pub proof fn the_bill_comes_back(
    from: Map<Seq<char>, Held>,
    to: Map<Seq<char>, Held>,
    refs: Seq<Ref>,
    owner_used: int,
    payer_used: int,
)
    requires
        in_order(from, to, refs),
        owner_used >= freed_bytes(from, refs) >= 0,
        payer_used >= 0,
        new_bytes(to, refs) >= 0,
    ensures
        ({
            let moved = new_bytes(to, refs);
            let freed = freed_bytes(from, refs);
            let back = new_bytes(given_up(from, refs), refs);
            let released = freed_bytes(gained(to, refs), refs);
            &&& charged(charged(owner_used, -freed), back) == owner_used
            &&& charged(charged(payer_used, moved), -released) == payer_used
        }),
{
    moving_back_restores_both_sides(from, to, refs);
}

/// A save whose objects nobody else references moves its bill whole: what the group's owner is
/// charged is what the save's owner is refunded.
pub proof fn the_bill_moves_whole(
    from: Map<Seq<char>, Held>,
    to: Map<Seq<char>, Held>,
    refs: Seq<Ref>,
)
    requires
        in_order(from, to, refs),
        forall|i: int|
            0 <= i < refs.len() ==> from[(#[trigger] refs[i]).sha@].refcount == refs[i].count
                && !to.contains_key(refs[i].sha@),
    ensures
        new_bytes(to, refs) == freed_bytes(from, refs),
        forall|i: int|
            0 <= i < refs.len() ==> !given_up(from, refs).contains_key((#[trigger] refs[i]).sha@),
        forall|i: int|
            0 <= i < refs.len() ==> gained(to, refs).contains_key((#[trigger] refs[i]).sha@)
                && gained(to, refs)[refs[i].sha@] == (Held {
                size: refs[i].size as int,
                refcount: refs[i].count as int,
            }),
{
    assert forall|i: int| 0 <= i < refs.len() implies ref_at(refs, (#[trigger] refs[i]).sha@) == i by {
        ref_at_is_found(refs, refs[i].sha@);
        let k = ref_at(refs, refs[i].sha@);
        if k != i {
            assert(k >= 0);
            if k < i {
                assert(refs[k].sha@ != refs[i].sha@);
            } else {
                assert(refs[i].sha@ != refs[k].sha@);
            }
        }
    }
    whole_bytes(from, to, refs, refs.len() as int);
    assert(refs.take(refs.len() as int) =~= refs);
}

proof fn whole_bytes(from: Map<Seq<char>, Held>, to: Map<Seq<char>, Held>, refs: Seq<Ref>, i: int)
    requires
        in_order(from, to, refs),
        forall|k: int|
            0 <= k < refs.len() ==> from[(#[trigger] refs[k]).sha@].refcount == refs[k].count
                && !to.contains_key(refs[k].sha@),
        0 <= i <= refs.len(),
    ensures
        new_bytes(to, refs.take(i)) == freed_bytes(from, refs.take(i)),
    decreases i,
{
    if i > 0 {
        whole_bytes(from, to, refs, i - 1);
        assert(refs.take(i).drop_last() =~= refs.take(i - 1));
        assert(refs.take(i).last() == refs[i - 1]);
    }
}

/// A move can be settled only within machine numbers, and then what it gains and frees is told; the
/// bytes that move are those that the destination did not hold, those freed are of objects that
/// nothing of the source points at any more, and each of them is named with its key there.
pub proof fn a_move_is_settled(
    from_ns: Namespace,
    from: &mut Shelf,
    to: &mut Shelf,
    blobs: Vec<Ref>,
    chunks: Vec<Ref>,
    r: Settlement,
    k: int,
    sha: Seq<char>,
)
    requires
        old(from).blobs.wf(),
        old(from).chunks.wf(),
        old(to).blobs.wf(),
        old(to).chunks.wf(),
        settleable(old(from)@, old(to)@, blobs@, chunks@),
        call_ensures(settle, (&from_ns, from, to, &blobs, &chunks), r),
        0 <= k < blobs@.len(),
        sha == blobs@[k].sha@,
    ensures
        ({
            let one = blobs@[k];
            let (f, t) = (old(from).blobs@, old(to).blobs@);
            let (g, u) = (final(from).blobs@, final(to).blobs@);
            &&& u.contains_key(sha)
            &&& t.contains_key(sha) ==> u[sha].refcount == t[sha].refcount + one.count
                && u[sha].size == t[sha].size
            &&& !t.contains_key(sha) ==> u[sha].refcount == one.count && u[sha].size == one.size
            &&& g.contains_key(sha) <==> f.contains_key(sha) && f[sha].refcount > one.count
            &&& g.contains_key(sha) ==> g[sha].refcount == f[sha].refcount - one.count
            &&& f.contains_key(sha) && !g.contains_key(sha) ==> exists|o: int|
                {
                    &&& 0 <= o < r.orphans@.len()
                    &&& (#[trigger] r.orphans@[o]).sha@ == sha
                    &&& !r.orphans@[o].is_chunk
                    &&& r.orphans@[o].key@ == from_ns@.key("blobs"@, sha)
                }
            &&& blobs@.len() == 1 && chunks@.len() == 0 && t.contains_key(sha) ==> r.bytes_moved
                == 0
            &&& blobs@.len() == 1 && chunks@.len() == 0 && !t.contains_key(sha) ==> r.bytes_moved
                == one.size
            &&& blobs@.len() == 1 && chunks@.len() == 0 && f.contains_key(sha)
                && !g.contains_key(sha) ==> r.bytes_freed == f[sha].size
            &&& blobs@.len() == 1 && chunks@.len() == 0 && g.contains_key(sha) ==> r.bytes_freed
                == 0
        }),
{
    let refs = blobs@;
    let f = old(from).blobs@;
    ref_at_is_found(refs, sha);
    let at = ref_at(refs, sha);
    if at < 0 {
        assert(refs[k].sha@ != sha);
    } else if at < k {
        assert(refs[at].sha@ != refs[k].sha@);
    } else if k < at {
        assert(refs[k].sha@ != refs[at].sha@);
    }
    assert(at == k);
    drained_shas_are_drained(f, refs, sha);
    assert(final(to)@.blobs == gained(old(to).blobs@, refs));
    assert(final(from)@.blobs == given_up(f, refs));
    if f.contains_key(sha) && !final(from).blobs@.contains_key(sha) {
        let i = drained_shas(f, refs).index_of(sha);
        assert(drained_shas(f, refs)[i] == sha);
        assert(orphaned(r.orphans@[i], false, drained_shas(f, refs)[i], from_ns@));
    }
    if refs.len() == 1 && chunks@.len() == 0 {
        assert(refs.drop_last().len() == 0);
        assert(refs.last() == refs[0]);
        assert(new_bytes(old(to).blobs@, refs.drop_last()) == 0);
        assert(freed_bytes(f, refs.drop_last()) == 0);
        assert(new_bytes(old(to).chunks@, chunks@) == 0);
        assert(freed_bytes(old(from).chunks@, chunks@) == 0);
    }
}

/// What is kept on record of a move: whether it shared, the group it went into or came from, how
/// much it moved and freed, and whether a lease was ended; under the name that says which way.
pub proof fn a_move_is_recorded(
    mv: Move,
    from: Namespace,
    blobs: Vec<Ref>,
    chunks: Vec<Ref>,
    s: Settlement,
    ended: bool,
    r: MoveRecord,
    event: &'static str,
)
    requires
        call_ensures(move_record, (&mv, &from, &blobs, &chunks, &s, ended), r),
        call_ensures(MoveRecord::event, (&r,), event),
    ensures
        r.shared <==> mv is Share,
        mv is Share ==> event@ == "save.shared"@ && r.group_id == Some(mv->group_id),
        mv !is Share ==> event@ == "save.unshared"@,
        mv !is Share && from is Group ==> r.group_id == Some(from->Group_0),
        mv !is Share && from is User ==> r.group_id is None,
        r.blobs == blobs@.len() && r.chunks == chunks@.len(),
        r.bytes_moved == s.bytes_moved && r.bytes_freed == s.bytes_freed,
        r.lease_ended == ended,
{
}

/// A source object is kept after a move where something points at it again, and where that could not
/// be read.
pub proof fn what_is_kept_after_a_move(count: Result<Option<i64>, ()>, r: bool)
    requires
        call_ensures(revived, (count,), r),
    ensures
        count is Err ==> r,
        count is Ok && count->Ok_0 is None ==> !r,
        count is Ok && count->Ok_0 is Some ==> (r <==> count->Ok_0->0 >= 1),
{
}

} // verus!
