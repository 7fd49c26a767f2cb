//! A save shared and taken back: all that a move changes, and that the way back restores it.

use vstd::prelude::*;

#[allow(unused_imports)]
use crate::server::namespace::{
    a_key_belongs_to_one_kind, a_key_belongs_to_one_object, charged, group_keys_sit_apart, Space,
};
#[allow(unused_imports)]
use crate::server::settle::{
    drained_shas_are_drained, in_order, keys_deleted, keys_lost,
    moving_back_restores_both_sides, Orphan, Stock,
};
#[allow(unused_imports)]
use crate::server::share::{
    arrival, has_copied, keys_in, keys_written, kind_of, ref_at, ref_at_is_found, refers, same_place,
    verdict, way, Check, Move, Moving, ObjectCopy, Ref, ShareRow, Whereabouts,
};
#[allow(unused_imports)]
use crate::server::store::shardable;

verus! {

/// All that the moves of one save between its owner and a group change.
pub ghost struct Books {
    /// The rows of the owner's namespace.
    pub owner: Stock,
    /// The rows of the group's namespace.
    pub group: Stock,
    /// The keys at which objects are stored.
    pub keys: Set<Seq<char>>,
    /// What the save's owner has in use.
    pub owner_used: int,
    /// What the one who pays for the group has in use.
    pub payer_used: int,
    /// What the group has in use.
    pub group_used: int,
    /// The row that records the share.
    pub row: Option<ShareRow>,
}

/// A save that goes between an owner and a group, with all that it references.
pub ghost struct Parcel {
    pub owner: Seq<char>,
    pub group: Seq<char>,
    pub blobs: Seq<Ref>,
    pub chunks: Seq<Ref>,
}

impl Parcel {
    pub open spec fn refers(self, is_chunk: bool, sha: Seq<char>) -> bool {
        refers(self.blobs, self.chunks, is_chunk, sha)
    }

    /// No id and no hash holds a `/`.
    pub open spec fn plain(self) -> bool {
        &&& !self.owner.contains('/')
        &&& !self.group.contains('/')
        &&& forall|i: int|
            0 <= i < self.blobs.len() ==> !(#[trigger] self.blobs[i]).sha@.contains('/')
        &&& forall|i: int|
            0 <= i < self.chunks.len() ==> !(#[trigger] self.chunks[i]).sha@.contains('/')
    }

    /// Of what the save references, the store holds exactly the objects that the rows name.
    pub open spec fn stored(self, keys: Set<Seq<char>>, space: Space, stock: Stock) -> bool {
        forall|is_chunk: bool, sha: Seq<char>|
            #![trigger self.refers(is_chunk, sha)]
            self.refers(is_chunk, sha) ==> keys.contains(space.key(kind_of(is_chunk), sha))
                == stock.of(is_chunk).contains_key(sha)
    }
}

impl Books {
    /// The books after the save went into the group: the copies are written, the rows and the
    /// bytes change hands, the share is recorded and what the owner no longer holds is deleted.
    pub open spec fn shared(self, p: Parcel, row: ShareRow) -> Books {
        Books {
            owner: self.owner.minus(p.blobs, p.chunks),
            group: self.group.plus(p.blobs, p.chunks),
            keys: self.keys.union(keys_in(Space::Group(p.group), p.blobs, p.chunks)).difference(
                keys_lost(Space::User(p.owner), self.owner, p.blobs, p.chunks),
            ),
            owner_used: charged(self.owner_used, -self.owner.frees(p.blobs, p.chunks)),
            payer_used: charged(self.payer_used, self.group.lacks(p.blobs, p.chunks)),
            group_used: charged(self.group_used, self.group.lacks(p.blobs, p.chunks)),
            row: Some(row),
        }
    }

    /// The books after the save came back from the group.
    pub open spec fn returned(self, p: Parcel) -> Books {
        Books {
            owner: self.owner.plus(p.blobs, p.chunks),
            group: self.group.minus(p.blobs, p.chunks),
            keys: self.keys.union(keys_in(Space::User(p.owner), p.blobs, p.chunks)).difference(
                keys_lost(Space::Group(p.group), self.group, p.blobs, p.chunks),
            ),
            owner_used: charged(self.owner_used, self.owner.lacks(p.blobs, p.chunks)),
            payer_used: charged(self.payer_used, -self.group.frees(p.blobs, p.chunks)),
            group_used: charged(self.group_used, -self.group.frees(p.blobs, p.chunks)),
            row: None,
        }
    }

    /// The save is its owner's: the rows can be handed over whole, the store holds what they name,
    /// nobody is in debt, and no share is recorded.
    pub open spec fn ready(self, p: Parcel) -> bool {
        &&& p.plain()
        &&& in_order(self.owner.blobs, self.group.blobs, p.blobs)
        &&& in_order(self.owner.chunks, self.group.chunks, p.chunks)
        &&& p.stored(self.keys, Space::User(p.owner), self.owner)
        &&& p.stored(self.keys, Space::Group(p.group), self.group)
        &&& self.owner_used >= self.owner.frees(p.blobs, p.chunks)
        &&& self.payer_used >= 0
        &&& self.group_used >= 0
        &&& self.row is None
    }
}

/// What a reference makes a key of: a hash that shards and holds no `/`.
proof fn a_reference_is_plain(b: Books, p: Parcel, is_chunk: bool, sha: Seq<char>)
    requires
        b.ready(p),
        p.refers(is_chunk, sha),
    ensures
        shardable(sha),
        !sha.contains('/'),
        !kind_of(is_chunk).contains('/'),
{
    reveal_strlit("chunks");
    reveal_strlit("blobs");
    let refs = if is_chunk {
        p.chunks
    } else {
        p.blobs
    };
    ref_at_is_found(refs, sha);
    let i = ref_at(refs, sha);
    assert(refs[i].sha@ == sha);
}

/// Of all that a save references, two objects in the two namespaces, and two different ones in the
/// same, have different keys.
proof fn keys_stay_apart(
    b: Books,
    p: Parcel,
    is_chunk: bool,
    sha: Seq<char>,
    other: bool,
    other_sha: Seq<char>,
)
    requires
        b.ready(p),
        p.refers(is_chunk, sha),
        p.refers(other, other_sha),
    ensures
        Space::User(p.owner).key(kind_of(is_chunk), sha) != Space::Group(p.group).key(
            kind_of(other),
            other_sha,
        ),
        Space::User(p.owner).key(kind_of(is_chunk), sha) == Space::User(p.owner).key(
            kind_of(other),
            other_sha,
        ) ==> is_chunk == other && sha == other_sha,
        Space::Group(p.group).key(kind_of(is_chunk), sha) == Space::Group(p.group).key(
            kind_of(other),
            other_sha,
        ) ==> is_chunk == other && sha == other_sha,
{
    reveal_strlit("chunks");
    reveal_strlit("blobs");
    a_reference_is_plain(b, p, is_chunk, sha);
    a_reference_is_plain(b, p, other, other_sha);
    let (kind, kind2) = (kind_of(is_chunk), kind_of(other));
    group_keys_sit_apart(p.owner, p.group, kind, kind2, sha, other_sha);
    assert("chunks"@.len() == 6 && "blobs"@.len() == 5);
    if Space::User(p.owner).key(kind, sha) == Space::User(p.owner).key(kind2, other_sha) {
        a_key_belongs_to_one_kind(Space::User(p.owner), kind, kind2, sha, other_sha);
        a_key_belongs_to_one_object(Space::User(p.owner), kind, sha, other_sha);
    }
    if Space::Group(p.group).key(kind, sha) == Space::Group(p.group).key(kind2, other_sha) {
        a_key_belongs_to_one_kind(Space::Group(p.group), kind, kind2, sha, other_sha);
        a_key_belongs_to_one_object(Space::Group(p.group), kind, sha, other_sha);
    }
}

/// What each namespace loses of a reference: the owner what nothing else of theirs points at, the
/// group, on the way back, what it did not hold before.
proof fn what_is_lost(b: Books, p: Parcel, row: ShareRow, is_chunk: bool, sha: Seq<char>)
    requires
        b.ready(p),
    ensures
        b.owner.loses(p.blobs, p.chunks, is_chunk, sha) ==> p.refers(is_chunk, sha),
        p.refers(is_chunk, sha) ==> b.owner.of(is_chunk).contains_key(sha),
        p.refers(is_chunk, sha) ==> b.owner.loses(p.blobs, p.chunks, is_chunk, sha)
            == !b.shared(p, row).owner.of(is_chunk).contains_key(sha),
        p.refers(is_chunk, sha) ==> b.shared(p, row).group.of(is_chunk).contains_key(sha),
        b.shared(p, row).group.loses(p.blobs, p.chunks, is_chunk, sha) == (p.refers(is_chunk, sha)
            && !b.group.of(is_chunk).contains_key(sha)),
{
    let refs = if is_chunk {
        p.chunks
    } else {
        p.blobs
    };
    ref_at_is_found(refs, sha);
    drained_shas_are_drained(b.owner.of(is_chunk), refs, sha);
    drained_shas_are_drained(b.shared(p, row).group.of(is_chunk), refs, sha);
}

/// The objects stay where the rows say: after a share the store holds, in both namespaces, exactly
/// the objects of the save that the rows name.
pub proof fn objects_follow_the_rows(b: Books, p: Parcel, row: ShareRow)
    requires
        b.ready(p),
    ensures
        p.stored(b.shared(p, row).keys, Space::User(p.owner), b.shared(p, row).owner),
        p.stored(b.shared(p, row).keys, Space::Group(p.group), b.shared(p, row).group),
{
    let after = b.shared(p, row);
    let (mine, theirs) = (Space::User(p.owner), Space::Group(p.group));
    assert forall|is_chunk: bool, sha: Seq<char>| #[trigger] p.refers(is_chunk, sha) implies
        after.keys.contains(mine.key(kind_of(is_chunk), sha)) == after.owner.of(
        is_chunk,
    ).contains_key(sha) && after.keys.contains(theirs.key(kind_of(is_chunk), sha))
        == after.group.of(is_chunk).contains_key(sha) by {
        what_is_lost(b, p, row, is_chunk, sha);
        let (k, g) = (mine.key(kind_of(is_chunk), sha), theirs.key(kind_of(is_chunk), sha));
        assert(refers(p.blobs, p.chunks, is_chunk, sha));
        assert(keys_in(theirs, p.blobs, p.chunks).contains(g));
        let lost = keys_lost(mine, b.owner, p.blobs, p.chunks);
        if lost.contains(k) {
            let (c, s) = choose|c: bool, s: Seq<char>|
                #[trigger] b.owner.loses(p.blobs, p.chunks, c, s) && k == mine.key(kind_of(c), s);
            what_is_lost(b, p, row, c, s);
            keys_stay_apart(b, p, is_chunk, sha, c, s);
        }
        if lost.contains(g) {
            let (c, s) = choose|c: bool, s: Seq<char>|
                #[trigger] b.owner.loses(p.blobs, p.chunks, c, s) && g == mine.key(kind_of(c), s);
            what_is_lost(b, p, row, c, s);
            keys_stay_apart(b, p, c, s, is_chunk, sha);
        }
    }
}

/// Unsharing is the exact reverse of sharing: with nothing pushed between, every row of both
/// namespaces, every stored object and every counter is as it was, and no share is recorded. Of
/// what the group did not hold before, it has neither a row nor an object.
pub proof fn a_share_and_its_return_change_nothing(b: Books, p: Parcel, row: ShareRow)
    requires
        b.ready(p),
    ensures
        b.shared(p, row).returned(p) == b,
        b.shared(p, row).returned(p).row is None,
        forall|is_chunk: bool, sha: Seq<char>| #[trigger]
            p.refers(is_chunk, sha) ==> b.shared(p, row).returned(p).keys.contains(
                Space::User(p.owner).key(kind_of(is_chunk), sha),
            ),
        forall|is_chunk: bool, sha: Seq<char>| #[trigger]
            p.refers(is_chunk, sha) && !b.group.of(is_chunk).contains_key(sha) ==> {
                let back = b.shared(p, row).returned(p);
                &&& !back.group.of(is_chunk).contains_key(sha)
                &&& !back.keys.contains(Space::Group(p.group).key(kind_of(is_chunk), sha))
            },
{
    let out = b.shared(p, row);
    let back = out.returned(p);
    moving_back_restores_both_sides(b.owner.blobs, b.group.blobs, p.blobs);
    moving_back_restores_both_sides(b.owner.chunks, b.group.chunks, p.chunks);
    bytes_are_sizes(b, p, p.blobs.len() as int, p.chunks.len() as int);
    assert(p.blobs.take(p.blobs.len() as int) =~= p.blobs);
    assert(p.chunks.take(p.chunks.len() as int) =~= p.chunks);
    assert(back.owner == b.owner);
    assert(back.group == b.group);
    assert(back.owner_used == b.owner_used);
    assert(back.payer_used == b.payer_used);
    assert(back.group_used == b.group_used);
    objects_follow_the_rows(b, p, row);
    let (mine, theirs) = (Space::User(p.owner), Space::Group(p.group));
    assert forall|k: Seq<char>| back.keys.contains(k) == b.keys.contains(k) by {
        let (u, g) = (
            keys_in(mine, p.blobs, p.chunks),
            keys_in(theirs, p.blobs, p.chunks),
        );
        let lost_here = keys_lost(mine, b.owner, p.blobs, p.chunks);
        let lost_there = keys_lost(theirs, out.group, p.blobs, p.chunks);
        if lost_here.contains(k) {
            let (c, s) = choose|c: bool, s: Seq<char>|
                #[trigger] b.owner.loses(p.blobs, p.chunks, c, s) && k == mine.key(kind_of(c), s);
            what_is_lost(b, p, row, c, s);
            assert(refers(p.blobs, p.chunks, c, s));
            assert(u.contains(k));
        }
        if u.contains(k) {
            let (c, s) = choose|c: bool, s: Seq<char>|
                #[trigger] refers(p.blobs, p.chunks, c, s) && k == mine.key(kind_of(c), s);
            assert(p.refers(c, s));
            what_is_lost(b, p, row, c, s);
            assert(b.keys.contains(k));
            if lost_there.contains(k) {
                let (c2, s2) = choose|c2: bool, s2: Seq<char>|
                    #[trigger] out.group.loses(p.blobs, p.chunks, c2, s2) && k == theirs.key(
                        kind_of(c2),
                        s2,
                    );
                what_is_lost(b, p, row, c2, s2);
                keys_stay_apart(b, p, c, s, c2, s2);
            }
        }
        if g.contains(k) {
            let (c, s) = choose|c: bool, s: Seq<char>|
                #[trigger] refers(p.blobs, p.chunks, c, s) && k == theirs.key(kind_of(c), s);
            assert(p.refers(c, s));
            what_is_lost(b, p, row, c, s);
            if !b.group.of(c).contains_key(s) {
                assert(out.group.loses(p.blobs, p.chunks, c, s));
                assert(lost_there.contains(k));
            }
        }
        if lost_there.contains(k) {
            let (c, s) = choose|c: bool, s: Seq<char>|
                #[trigger] out.group.loses(p.blobs, p.chunks, c, s) && k == theirs.key(
                    kind_of(c),
                    s,
                );
            what_is_lost(b, p, row, c, s);
            assert(p.refers(c, s));
            assert(!b.keys.contains(k));
        }
    }
    assert(back.keys =~= b.keys);
    assert(back == b);
    assert forall|is_chunk: bool, sha: Seq<char>| #[trigger] p.refers(is_chunk, sha) implies
        back.keys.contains(mine.key(kind_of(is_chunk), sha)) by {
        what_is_lost(b, p, row, is_chunk, sha);
    }
}

/// The store comes back: of a share and an unshare, each with all of its objects copied in one
/// round, the copies written and the orphans deleted leave the keys that were held before.
pub proof fn the_store_comes_back(
    b: Books,
    p: Parcel,
    row: ShareRow,
    out: Seq<ObjectCopy>,
    left: Seq<Orphan>,
    back: Seq<ObjectCopy>,
    cleared: Seq<Orphan>,
)
    requires
        b.ready(p),
        keys_written(out) == keys_in(Space::Group(p.group), p.blobs, p.chunks),
        keys_deleted(left) == keys_lost(Space::User(p.owner), b.owner, p.blobs, p.chunks),
        keys_written(back) == keys_in(Space::User(p.owner), p.blobs, p.chunks),
        keys_deleted(cleared) == keys_lost(
            Space::Group(p.group),
            b.shared(p, row).group,
            p.blobs,
            p.chunks,
        ),
    ensures
        b.keys.union(keys_written(out)).difference(keys_deleted(left)).union(
            keys_written(back),
        ).difference(keys_deleted(cleared)) == b.keys,
{
    a_share_and_its_return_change_nothing(b, p, row);
}

proof fn bytes_are_sizes(b: Books, p: Parcel, i: int, j: int)
    requires
        b.ready(p),
        0 <= i <= p.blobs.len(),
        0 <= j <= p.chunks.len(),
    ensures
        b.owner.frees(p.blobs.take(i), p.chunks.take(j)) >= 0,
        b.group.lacks(p.blobs.take(i), p.chunks.take(j)) >= 0,
    decreases i + j,
{
    if i > 0 {
        bytes_are_sizes(b, p, i - 1, j);
        assert(p.blobs.take(i).drop_last() =~= p.blobs.take(i - 1));
        assert(p.blobs.take(i).last() == p.blobs[i - 1]);
    } else if j > 0 {
        bytes_are_sizes(b, p, i, j - 1);
        assert(p.chunks.take(j).drop_last() =~= p.chunks.take(j - 1));
        assert(p.chunks.take(j).last() == p.chunks[j - 1]);
    }
}

/// The owner of a save who also pays for the group is charged for nothing: their one counter ends
/// where it began.
pub proof fn one_who_pays_for_both_pays_nothing(b: Books, p: Parcel, row: ShareRow)
    requires
        b.ready(p),
    ensures
        ({
            let out = b.shared(p, row);
            let moved = charged(b.owner_used, b.group.lacks(p.blobs, p.chunks));
            let settled = charged(moved, -b.owner.frees(p.blobs, p.chunks));
            let back = charged(settled, out.owner.lacks(p.blobs, p.chunks));
            charged(back, -out.group.frees(p.blobs, p.chunks)) == b.owner_used
        }),
{
    moving_back_restores_both_sides(b.owner.blobs, b.group.blobs, p.blobs);
    moving_back_restores_both_sides(b.owner.chunks, b.group.chunks, p.chunks);
    bytes_are_sizes(b, p, p.blobs.len() as int, p.chunks.len() as int);
    assert(p.blobs.take(p.blobs.len() as int) =~= p.blobs);
    assert(p.chunks.take(p.chunks.len() as int) =~= p.chunks);
}

/// A save shared by its owner can be unshared: the way back is the way out turned round, and it
/// ends where the share began.
pub proof fn a_share_can_be_undone(share: Move, w: Whereabouts)
    requires
        share is Share,
        w.group is None,
    ensures
        way(share, w) is Some,
        way(share, w) matches Some((from, to)) ==> way(Move::Unshare, arrival(share, w)) == Some(
            (to, from),
        ),
        way(Move::TakeBack, arrival(share, w)) == way(Move::Unshare, arrival(share, w)),
        arrival(Move::Unshare, arrival(share, w)) == w,
        arrival(Move::TakeBack, arrival(share, w)) == w,
{
}

/// A move that finds the save where it was, with all of its references copied and no live lease,
/// goes through and ends no lease.
pub proof fn a_quiet_move_goes_through(m: Moving, now: Whereabouts, p: Parcel)
    requires
        same_place(now, m.expected),
        forall|is_chunk: bool, sha: Seq<char>| #[trigger]
            p.refers(is_chunk, sha) ==> has_copied(m.copied@, is_chunk, sha),
    ensures
        verdict(m, Some(now), p.blobs, p.chunks, false) == (Check::Go { end_lease: false }),
{
    assert forall|i: int| 0 <= i < p.blobs.len() implies has_copied(
        m.copied@,
        false,
        (#[trigger] p.blobs[i]).sha@,
    ) by {
        ref_at_is_found(p.blobs, p.blobs[i].sha@);
        assert(p.refers(false, p.blobs[i].sha@));
    }
    assert forall|i: int| 0 <= i < p.chunks.len() implies has_copied(
        m.copied@,
        true,
        (#[trigger] p.chunks[i]).sha@,
    ) by {
        ref_at_is_found(p.chunks, p.chunks[i].sha@);
        assert(p.refers(true, p.chunks[i].sha@));
    }
}

} // verus!
