//! Share a save into a group, and take it back.
//!
//! A shared save's bytes live in the group's namespace, so sharing is a move: every blob and
//! chunk the save's versions reference is copied to the group's key, referenced there, released
//! from the owner's row, and the quota follows to the group's owner. Unsharing is the same move
//! the other way.
//!
//! The copy comes first and changes no row. Then, under the write lock, the move checks that the
//! save is still where the copy assumed and that nothing was pushed since, and moves the rows,
//! the quota and the share together. Only then are the source objects that nothing references any
//! more deleted.

use vstd::prelude::*;

use crate::fileclass::included;
#[allow(unused_imports)]
use crate::fileclass::named_by;
use crate::server::access::{Role, SaveAccess};
use crate::server::json::{read_list, write_list};
#[allow(unused_imports)]
use crate::server::json::{json_of_list, list_of_json};
#[allow(unused_imports)]
use crate::server::namespace::Space;
use crate::server::namespace::{Namespace, Table};
use crate::server::reply::Refusal;
use crate::server::store::is_shardable;
#[allow(unused_imports)]
use crate::server::store::shardable;
use crate::text::same;
#[allow(unused_imports)]
use crate::text::views;

verus! {

/// Which way the content goes.
#[derive(Debug)]
pub enum Move {
    /// Into this group, with the list of what the save consists of (`None` is everything).
    Share { group_id: String, include_json: Option<String> },
    /// Back to the owner, at the owner's request: a live lease refuses it.
    Unshare,
    /// Back to the owner with nobody asking: a live lease is ended first.
    TakeBack,
}

/// Why a move did not happen.
#[derive(Debug)]
pub enum MoveError {
    /// The save is not where the caller saw it: shared, unshared or deleted since.
    Changed,
    /// A member holds a live lease and the move was not allowed to end it.
    LeaseHeld,
    /// Anything else, in words.
    Other(String),
}

impl MoveError {
    /// The error in words.
    pub fn message(&self) -> (r: String)
        ensures
            r@ == (match *self {
                MoveError::Changed => "the save moved meanwhile"@,
                MoveError::LeaseHeld => "a member holds a live lease"@,
                MoveError::Other(e) => e@,
            }),
    {
        match self {
            MoveError::Changed => "the save moved meanwhile".to_owned(),
            MoveError::LeaseHeld => "a member holds a live lease".to_owned(),
            MoveError::Other(e) => e.clone(),
        }
    }
}

/// The refusal that a failed move answers with.
pub fn move_err(e: MoveError) -> (r: Refusal)
    ensures
        r == (match e {
            MoveError::Changed => Refusal::NamespaceChanged,
            MoveError::LeaseHeld => Refusal::LeaseHeld,
            MoveError::Other(_) => Refusal::Internal,
        }),
{
    match e {
        MoveError::Changed => Refusal::NamespaceChanged,
        MoveError::LeaseHeld => Refusal::LeaseHeld,
        MoveError::Other(_) => Refusal::Internal,
    }
}

/// Access for what only the owner of a save may do.
pub fn owner_access(access: Option<SaveAccess>) -> (r: Result<SaveAccess, Refusal>)
    ensures
        r == (match access {
            None => Err::<SaveAccess, Refusal>(Refusal::SaveNotFound),
            Some(a) => if a.role == Role::Owner {
                Ok::<SaveAccess, Refusal>(a)
            } else {
                Err::<SaveAccess, Refusal>(Refusal::NotSaveOwner)
            },
        }),
{
    match access {
        None => Err(Refusal::SaveNotFound),
        Some(a) => if a.role == Role::Owner {
            Ok(a)
        } else {
            Err(Refusal::NotSaveOwner)
        },
    }
}

/// The column that a share's list is stored in: nothing for an empty list, which names
/// everything.
pub open spec fn column_of(list: Seq<Seq<char>>) -> Option<Seq<char>> {
    if list.len() == 0 {
        None
    } else {
        Some(json_of_list(list))
    }
}

/// The list that a column holds. A column that does not parse names everything, as none does.
pub open spec fn list_in(column: Option<Seq<char>>) -> Seq<Seq<char>> {
    match column {
        Some(json) => match list_of_json(json) {
            Some(list) => list,
            None => Seq::empty(),
        },
        None => Seq::empty(),
    }
}

/// The column to store a share's list in.
pub fn include_column(includes: &Vec<String>) -> (r: Option<String>)
    ensures
        match column_of(views(includes@)) {
            Some(json) => r matches Some(s) && s@ == json,
            None => r is None,
        },
        list_in(
            match r {
                Some(s) => Some(s@),
                None => None,
            },
        ) == views(includes@),
{
    if includes.len() == 0 {
        assert(views(includes@) =~= Seq::<Seq<char>>::empty());
        return None;
    }
    write_list(includes)
}

/// The list stored with a share; empty when the save is unshared or shares whole.
pub fn include_for(column: &Option<String>) -> (r: Vec<String>)
    ensures
        views(r@) == list_in(
            match *column {
                Some(s) => Some(s@),
                None => None,
            },
        ),
{
    let none: Vec<String> = Vec::new();
    assert(views(none@) =~= Seq::<Seq<char>>::empty());
    match column {
        Some(json) => match read_list(json.as_str()) {
            Some(list) => list,
            None => none,
        },
        None => none,
    }
}

/// The first path a push carries that the share's list does not name. An empty list names
/// everything.
pub fn first_outside_include<'a>(includes: &[String], paths: &[&'a str]) -> (r: Option<&'a str>)
    ensures
        r is None ==> forall|i: int|
            0 <= i < paths@.len() ==> named_by(views(includes@), #[trigger] paths@[i]@),
        r matches Some(p) ==> exists|i: int|
            {
                &&& 0 <= i < paths@.len()
                &&& p == #[trigger] paths@[i]
                &&& !named_by(views(includes@), p@)
                &&& forall|k: int| 0 <= k < i ==> named_by(views(includes@), #[trigger] paths@[k]@)
            },
{
    if includes.len() == 0 {
        return None;
    }
    let mut i: usize = 0;
    while i < paths.len()
        invariant
            i <= paths.len(),
            forall|k: int| 0 <= k < i ==> named_by(views(includes@), #[trigger] paths@[k]@),
        decreases paths.len() - i,
    {
        if !included(includes, paths[i]) {
            let p = paths[i];
            assert(p == paths@[i as int]);
            return Some(p);
        }
        i += 1;
    }
    None
}

/// Why a request to share is refused, if it is.
pub open spec fn share_refusal(
    bad_list: Option<String>,
    access: Option<SaveAccess>,
    caller_in_group: bool,
) -> Option<Refusal> {
    match bad_list {
        Some(why) => Some(Refusal::BadList(why)),
        None => match access {
            None => Some(Refusal::SaveNotFound),
            Some(a) => if a.role != Role::Owner {
                Some(Refusal::NotSaveOwner)
            } else if a.group_id is Some {
                Some(Refusal::AlreadyShared)
            } else if !caller_in_group {
                Some(Refusal::GroupNotFound)
            } else {
                None
            },
        },
    }
}

/// A request to share: the list must hold, the caller must own the save and belong to the group,
/// and the save must not be shared yet. The answer is the move to make.
pub fn share(
    bad_list: Option<String>,
    access: Option<SaveAccess>,
    caller_in_group: bool,
    group_id: String,
    includes: &Vec<String>,
) -> (r: Result<Move, Refusal>)
    ensures
        match share_refusal(bad_list, access, caller_in_group) {
            Some(e) => r == Err::<Move, Refusal>(e),
            None => {
                &&& r matches Ok(Move::Share { group_id: g, include_json: c })
                &&& g == group_id
                &&& list_in(
                    match c {
                        Some(s) => Some(s@),
                        None => None,
                    },
                ) == views(includes@)
                &&& c is None == (includes@.len() == 0)
            },
        },
{
    if let Some(why) = bad_list {
        return Err(Refusal::BadList(why));
    }
    match owner_access(access) {
        Err(e) => {
            return Err(e);
        },
        Ok(a) => {
            if a.group_id.is_some() {
                return Err(Refusal::AlreadyShared);
            }
        },
    }
    if !caller_in_group {
        return Err(Refusal::GroupNotFound);
    }
    Ok(Move::Share { group_id, include_json: include_column(includes) })
}

/// A request to unshare: the caller must own the save, and it must be shared.
pub fn unshare(access: Option<SaveAccess>) -> (r: Result<Move, Refusal>)
    ensures
        r == (match access {
            None => Err::<Move, Refusal>(Refusal::SaveNotFound),
            Some(a) => if a.role != Role::Owner {
                Err::<Move, Refusal>(Refusal::NotSaveOwner)
            } else if a.group_id is None {
                Err::<Move, Refusal>(Refusal::NotShared)
            } else {
                Ok::<Move, Refusal>(Move::Unshare)
            },
        }),
{
    match owner_access(access) {
        Err(e) => Err(e),
        Ok(a) => if a.group_id.is_none() {
            Err(Refusal::NotShared)
        } else {
            Ok(Move::Unshare)
        },
    }
}

/// Who owns a save, and the group it is shared into.
#[derive(Debug)]
pub struct Whereabouts {
    pub owner: String,
    pub group: Option<String>,
}

/// Are the two the same place?
pub open spec fn same_place(a: Whereabouts, b: Whereabouts) -> bool {
    a.owner@ == b.owner@ && match (a.group, b.group) {
        (Some(x), Some(y)) => x@ == y@,
        (None, None) => true,
        _ => false,
    }
}

fn is_same_place(a: &Whereabouts, b: &Whereabouts) -> (r: bool)
    ensures
        r == same_place(*a, *b),
{
    same(a.owner.as_str(), b.owner.as_str()) && match (&a.group, &b.group) {
        (Some(x), Some(y)) => same(x.as_str(), y.as_str()),
        (None, None) => true,
        _ => false,
    }
}

/// One distinct hash the save references: its size and how many rows point at it, which is what
/// the refcounts move by.
#[derive(Debug)]
pub struct Ref {
    pub sha: String,
    pub size: i64,
    pub count: i64,
}

/// Where the hash stands among the references; `-1` when it does not.
pub open spec fn ref_at(refs: Seq<Ref>, sha: Seq<char>) -> int
    decreases refs.len(),
{
    if refs.len() == 0 {
        -1
    } else if refs.last().sha@ == sha {
        refs.len() - 1
    } else {
        ref_at(refs.drop_last(), sha)
    }
}

/// Is the hash among the references?
pub open spec fn referenced(refs: Seq<Ref>, sha: Seq<char>) -> bool {
    ref_at(refs, sha) >= 0
}

/// Is the hash among the references of its kind?
pub open spec fn refers(blobs: Seq<Ref>, chunks: Seq<Ref>, is_chunk: bool, sha: Seq<char>) -> bool {
    referenced(if is_chunk { chunks } else { blobs }, sha)
}

/// No hash is listed twice, every hash makes a key, and no size or count is negative.
pub open spec fn refs_wf(refs: Seq<Ref>) -> bool {
    &&& forall|i: int, j: int|
        0 <= i < j < refs.len() ==> (#[trigger] refs[i]).sha@ != (#[trigger] refs[j]).sha@
    &&& forall|i: int|
        0 <= i < refs.len() ==> {
            &&& shardable((#[trigger] refs[i]).sha@)
            &&& refs[i].size >= 0
            &&& refs[i].count >= 0
        }
}

/// See [`refs_wf`].
pub fn refs_hold(refs: &Vec<Ref>) -> (r: bool)
    ensures
        r == refs_wf(refs@),
{
    let mut i: usize = 0;
    while i < refs.len()
        invariant
            i <= refs.len(),
            refs_wf(refs@.take(i as int)),
        decreases refs.len() - i,
    {
        let one = &refs[i];
        let ghost next = refs@.take(i + 1);
        assert(next[i as int] == refs@[i as int]);
        if !is_shardable(one.sha.as_str()) || one.size < 0 || one.count < 0 {
            assert(!refs_wf(refs@));
            return false;
        }
        let mut k: usize = 0;
        while k < i
            invariant
                k <= i < refs.len(),
                forall|j: int| 0 <= j < k ==> (#[trigger] refs@[j]).sha@ != refs@[i as int].sha@,
            decreases i - k,
        {
            if same(refs[k].sha.as_str(), refs[i].sha.as_str()) {
                assert(refs@[k as int].sha@ == refs@[i as int].sha@);
                return false;
            }
            k += 1;
        }
        proof {
            let done = refs@.take(i as int);
            assert forall|a: int, b: int| 0 <= a < b < next.len() implies (#[trigger] next[a]).sha@
                != (#[trigger] next[b]).sha@ by {
                if b < i {
                    assert(done[a] == next[a] && done[b] == next[b]);
                } else {
                    assert(next[a] == refs@[a]);
                }
            }
            assert forall|a: int| 0 <= a < next.len() implies ({
                &&& shardable((#[trigger] next[a]).sha@)
                &&& next[a].size >= 0
                &&& next[a].count >= 0
            }) by {
                if a < i {
                    assert(done[a] == next[a]);
                }
            }
        }
        i += 1;
    }
    assert(refs@.take(i as int) =~= refs@);
    true
}

/// What `ref_at` finds.
pub proof fn ref_at_is_found(refs: Seq<Ref>, sha: Seq<char>)
    ensures
        -1 <= ref_at(refs, sha) < refs.len(),
        ref_at(refs, sha) >= 0 ==> refs[ref_at(refs, sha)].sha@ == sha,
        ref_at(refs, sha) < 0 ==> forall|i: int|
            0 <= i < refs.len() ==> (#[trigger] refs[i]).sha@ != sha,
    decreases refs.len(),
{
    if refs.len() > 0 && refs.last().sha@ != sha {
        ref_at_is_found(refs.drop_last(), sha);
        if ref_at(refs, sha) < 0 {
            assert forall|i: int| 0 <= i < refs.len() implies (#[trigger] refs[i]).sha@ != sha by {
                if i < refs.len() - 1 {
                    assert(refs.drop_last()[i].sha@ != sha);
                }
            }
        }
    }
}

/// The chunks a save references, each with the size its row has. A chunk without a row is a
/// broken save, and moving it would only spread the damage.
pub fn chunk_refs(counts: Vec<(String, i64)>, rows: &Table) -> (r: Result<Vec<Ref>, MoveError>)
    ensures
        r is Ok == forall|i: int|
            0 <= i < counts@.len() ==> rows@.contains_key(#[trigger] counts@[i].0@),
        r is Err ==> r->Err_0 is Other && r->Err_0->Other_0@
            == "no rows returned by a query that expected to return at least one row"@,
        r matches Ok(refs) ==> {
            &&& refs@.len() == counts@.len()
            &&& forall|i: int|
                0 <= i < refs@.len() ==> {
                    &&& (#[trigger] refs@[i]).sha@ == counts@[i].0@
                    &&& refs@[i].count == counts@[i].1
                    &&& refs@[i].size == rows@[counts@[i].0@].size
                }
        },
{
    let mut refs: Vec<Ref> = Vec::new();
    let mut i: usize = 0;
    while i < counts.len()
        invariant
            i <= counts.len(),
            refs.len() == i,
            forall|k: int| 0 <= k < i ==> rows@.contains_key(#[trigger] counts@[k].0@),
            forall|k: int|
                0 <= k < refs@.len() ==> {
                    &&& (#[trigger] refs@[k]).sha@ == counts@[k].0@
                    &&& refs@[k].count == counts@[k].1
                    &&& refs@[k].size == rows@[counts@[k].0@].size
                },
        decreases counts.len() - i,
    {
        match rows.size(counts[i].0.as_str()) {
            Some(size) => {
                refs.push(Ref { sha: counts[i].0.clone(), size, count: counts[i].1 });
            },
            None => {
                assert(!rows@.contains_key(counts@[i as int].0@));
                return Err(
                    MoveError::Other(
                        "no rows returned by a query that expected to return at least one row".to_owned(),
                    ),
                );
            },
        }
        i += 1;
    }
    Ok(refs)
}

/// One object to copy: from one key to another.
#[derive(Debug)]
pub struct ObjectCopy {
    pub src: String,
    pub dst: String,
    pub is_chunk: bool,
    pub sha: String,
}

/// The name that one kind of object has in a key.
pub open spec fn kind_of(is_chunk: bool) -> Seq<char> {
    if is_chunk {
        "chunks"@
    } else {
        "blobs"@
    }
}

/// Does the copy take this reference from the one namespace to the other?
pub open spec fn copies(c: ObjectCopy, r: Ref, is_chunk: bool, from: Space, to: Space) -> bool {
    &&& c.src@ == from.key(kind_of(is_chunk), r.sha@)
    &&& c.dst@ == to.key(kind_of(is_chunk), r.sha@)
    &&& c.is_chunk == is_chunk
    &&& c.sha@ == r.sha@
}

/// The copy of every object, blobs first.
pub fn keys(blobs: &Vec<Ref>, chunks: &Vec<Ref>, from: &Namespace, to: &Namespace) -> (r: Vec<
    ObjectCopy,
>)
    requires
        forall|i: int| 0 <= i < blobs@.len() ==> shardable((#[trigger] blobs@[i]).sha@),
        forall|i: int| 0 <= i < chunks@.len() ==> shardable((#[trigger] chunks@[i]).sha@),
    ensures
        r@.len() == blobs@.len() + chunks@.len(),
        forall|i: int|
            0 <= i < blobs@.len() ==> copies(#[trigger] r@[i], blobs@[i], false, from@, to@),
        forall|i: int|
            0 <= i < chunks@.len() ==> copies(
                #[trigger] r@[blobs@.len() + i],
                chunks@[i],
                true,
                from@,
                to@,
            ),
{
    let mut r: Vec<ObjectCopy> = Vec::new();
    let mut i: usize = 0;
    while i < blobs.len()
        invariant
            i <= blobs.len(),
            r.len() == i,
            forall|k: int| 0 <= k < blobs@.len() ==> shardable((#[trigger] blobs@[k]).sha@),
            forall|k: int| 0 <= k < i ==> copies(#[trigger] r@[k], blobs@[k], false, from@, to@),
        decreases blobs.len() - i,
    {
        let sha = blobs[i].sha.as_str();
        r.push(
            ObjectCopy {
                src: from.blob_key(sha),
                dst: to.blob_key(sha),
                is_chunk: false,
                sha: blobs[i].sha.clone(),
            },
        );
        i += 1;
    }
    let mut j: usize = 0;
    while j < chunks.len()
        invariant
            j <= chunks.len(),
            r.len() == blobs.len() + j,
            forall|k: int| 0 <= k < chunks@.len() ==> shardable((#[trigger] chunks@[k]).sha@),
            forall|k: int|
                0 <= k < blobs@.len() ==> copies(#[trigger] r@[k], blobs@[k], false, from@, to@),
            forall|k: int|
                0 <= k < j ==> copies(
                    #[trigger] r@[blobs@.len() + k],
                    chunks@[k],
                    true,
                    from@,
                    to@,
                ),
        decreases chunks.len() - j,
    {
        let sha = chunks[j].sha.as_str();
        let ghost was = r@;
        r.push(
            ObjectCopy {
                src: from.chunk_key(sha),
                dst: to.chunk_key(sha),
                is_chunk: true,
                sha: chunks[j].sha.clone(),
            },
        );
        assert(forall|k: int| 0 <= k < was.len() ==> r@[k] == was[k]);
        j += 1;
    }
    r
}

/// A move under way: where it goes from and to, where it found the save, what it has copied and
/// how often it has tried.
#[derive(Debug)]
pub struct Moving {
    pub mv: Move,
    pub from: Namespace,
    pub to: Namespace,
    pub expected: Whereabouts,
    pub copied: Vec<(bool, String)>,
    pub rounds: u8,
}

/// Three rounds cover any race a lease admits; more is a save being pushed to continuously.
pub const MOVE_ROUNDS: u8 = 3;

/// Has the move copied this object?
pub open spec fn has_copied(copied: Seq<(bool, String)>, is_chunk: bool, sha: Seq<char>) -> bool {
    exists|i: int|
        0 <= i < copied.len() && (#[trigger] copied[i]).0 == is_chunk && copied[i].1@ == sha
}

/// Has the move copied everything the save references?
pub open spec fn all_copied(copied: Seq<(bool, String)>, refs: Seq<Ref>, is_chunk: bool) -> bool {
    forall|i: int| 0 <= i < refs.len() ==> has_copied(copied, is_chunk, (#[trigger] refs[i]).sha@)
}

/// What the check under the write lock decides.
#[derive(Debug, Clone, Copy, PartialEq, Eq, Structural)]
pub enum Check {
    /// The save is not where the copy assumed.
    Changed,
    /// A push landed something the copy missed: give the lock back and copy again.
    CopyAgain,
    /// It kept growing while its content was being copied.
    GiveUp,
    /// A live lease stands in the way.
    LeaseHeld,
    /// Move the rows; end the live lease first where there is one.
    Go { end_lease: bool },
}

/// Where a move goes from and to: into the group from the save's owner, or back from the group it
/// is shared into. `None` where the save is not where the move needs it.
pub open spec fn way(mv: Move, w: Whereabouts) -> Option<(Space, Space)> {
    match (mv, w.group) {
        (Move::Share { group_id, .. }, None) => Some(
            (Space::User(w.owner@), Space::Group(group_id@)),
        ),
        (Move::Share { .. }, Some(_)) => None,
        (_, Some(g)) => Some((Space::Group(g@), Space::User(w.owner@))),
        (_, None) => None,
    }
}

/// Where the save is once the move is through: in the group, or with its owner.
pub open spec fn arrival(mv: Move, w: Whereabouts) -> Whereabouts {
    Whereabouts {
        owner: w.owner,
        group: match mv {
            Move::Share { group_id, .. } => Some(group_id),
            _ => None,
        },
    }
}

/// What the check under the write lock comes to.
pub open spec fn verdict(
    m: Moving,
    now: Option<Whereabouts>,
    blobs: Seq<Ref>,
    chunks: Seq<Ref>,
    lease_live: bool,
) -> Check {
    if !(now is Some && same_place(now->0, m.expected)) {
        Check::Changed
    } else if !(all_copied(m.copied@, blobs, false) && all_copied(m.copied@, chunks, true)) {
        if m.rounds + 1 < MOVE_ROUNDS {
            Check::CopyAgain
        } else {
            Check::GiveUp
        }
    } else {
        match m.mv {
            Move::Share { .. } => Check::Go { end_lease: false },
            Move::Unshare => if lease_live {
                Check::LeaseHeld
            } else {
                Check::Go { end_lease: false }
            },
            Move::TakeBack => Check::Go { end_lease: lease_live },
        }
    }
}

/// The keys that the copies write.
pub open spec fn keys_written(copies: Seq<ObjectCopy>) -> Set<Seq<char>> {
    Set::new(|k: Seq<char>| exists|i: int| 0 <= i < copies.len() && (#[trigger] copies[i]).dst@ == k)
}

/// The keys, in one namespace, of all that the save references.
pub open spec fn keys_in(space: Space, blobs: Seq<Ref>, chunks: Seq<Ref>) -> Set<Seq<char>> {
    Set::new(
        |k: Seq<char>|
            exists|is_chunk: bool, sha: Seq<char>|
                #[trigger] refers(blobs, chunks, is_chunk, sha) && k == space.key(
                    kind_of(is_chunk),
                    sha,
                ),
    )
}

/// The row that records a share: the group, and the list of what the save consists of.
#[derive(Debug, PartialEq, Eq)]
pub struct ShareRow {
    pub group_id: String,
    pub include_json: Option<String>,
}

impl Moving {
    /// Where the move goes, given where the save is: into the group from its owner, or back from
    /// the group it is shared into. A save that is not where the move needs it has changed.
    pub fn begin(mv: Move, found: Option<Whereabouts>) -> (r: Result<Moving, MoveError>)
        ensures
            match found {
                Some(w) => match way(mv, w) {
                    Some((from, to)) => r is Ok && r->Ok_0.from@ == from && r->Ok_0.to@ == to,
                    None => r == Err::<Moving, MoveError>(MoveError::Changed),
                },
                None => r == Err::<Moving, MoveError>(MoveError::Changed),
            },
            r matches Ok(m) ==> {
                &&& m.mv == mv
                &&& m.expected == found->0
                &&& m.copied@.len() == 0
                &&& m.rounds == 0
            },
    {
        let w = match found {
            Some(w) => w,
            None => {
                return Err(MoveError::Changed);
            },
        };
        let (from, to) = match (&mv, &w.group) {
            (Move::Share { group_id, .. }, None) => (
                Namespace::User(w.owner.clone()),
                Namespace::Group(group_id.clone()),
            ),
            (Move::Unshare, Some(g)) => (
                Namespace::Group(g.clone()),
                Namespace::User(w.owner.clone()),
            ),
            (Move::TakeBack, Some(g)) => (
                Namespace::Group(g.clone()),
                Namespace::User(w.owner.clone()),
            ),
            _ => {
                return Err(MoveError::Changed);
            },
        };
        Ok(Moving { mv, from, to, expected: w, copied: Vec::new(), rounds: 0 })
    }

    fn copied_already(&self, is_chunk: bool, sha: &str) -> (r: bool)
        ensures
            r == has_copied(self.copied@, is_chunk, sha@),
    {
        let mut i: usize = 0;
        while i < self.copied.len()
            invariant
                i <= self.copied.len(),
                forall|k: int|
                    0 <= k < i ==> !((#[trigger] self.copied@[k]).0 == is_chunk
                        && self.copied@[k].1@ == sha@),
            decreases self.copied.len() - i,
        {
            if self.copied[i].0 == is_chunk && same(self.copied[i].1.as_str(), sha) {
                assert(self.copied@[i as int].0 == is_chunk && self.copied@[i as int].1@ == sha@);
                return true;
            }
            i += 1;
        }
        false
    }

    /// What this round has to copy: what the save references and no earlier round has copied.
    /// The caller skips a copy whose destination is there, and records nothing else.
    pub fn copy_round(&mut self, blobs: &Vec<Ref>, chunks: &Vec<Ref>) -> (r: Vec<ObjectCopy>)
        requires
            refs_wf(blobs@),
            refs_wf(chunks@),
        ensures
            final(self).mv == old(self).mv,
            final(self).from == old(self).from,
            final(self).to == old(self).to,
            final(self).expected == old(self).expected,
            final(self).rounds == old(self).rounds,
            forall|is_chunk: bool, sha: Seq<char>|
                has_copied(final(self).copied@, is_chunk, sha) == (has_copied(
                    old(self).copied@,
                    is_chunk,
                    sha,
                ) || refers(blobs@, chunks@, is_chunk, sha)),
            forall|i: int|
                0 <= i < r@.len() ==> {
                    &&& !has_copied(old(self).copied@, (#[trigger] r@[i]).is_chunk, r@[i].sha@)
                    &&& refers(blobs@, chunks@, r@[i].is_chunk, r@[i].sha@)
                    &&& r@[i].src@ == old(self).from@.key(kind_of(r@[i].is_chunk), r@[i].sha@)
                    &&& r@[i].dst@ == old(self).to@.key(kind_of(r@[i].is_chunk), r@[i].sha@)
                },
            forall|is_chunk: bool, sha: Seq<char>|
                #![trigger has_copied(old(self).copied@, is_chunk, sha)]
                refers(blobs@, chunks@, is_chunk, sha) && !has_copied(
                    old(self).copied@,
                    is_chunk,
                    sha,
                ) ==> exists|i: int|
                    0 <= i < r@.len() && (#[trigger] r@[i]).is_chunk == is_chunk && r@[i].sha@ == sha,
            forall|i: int, j: int|
                0 <= i < j < r@.len() ==> !((#[trigger] r@[i]).is_chunk == (
                #[trigger] r@[j]).is_chunk && r@[i].sha@ == r@[j].sha@),
            old(self).copied@.len() == 0 ==> keys_written(r@) == keys_in(
                old(self).to@,
                blobs@,
                chunks@,
            ),
    {
        let all = keys(blobs, chunks, &self.from, &self.to);
        let ghost before = self.copied@;
        let ghost n = blobs@.len() as int;
        proof {
            assert forall|k: int| 0 <= k < all@.len() implies refers(blobs@, chunks@, (#[trigger] all@[k]).is_chunk, all@[k].sha@,
            ) by {
                if k < n {
                    ref_at_is_found(blobs@, blobs@[k].sha@);
                } else {
                    assert(copies(all@[n + (k - n)], chunks@[k - n], true, self.from@, self.to@));
                    ref_at_is_found(chunks@, chunks@[k - n].sha@);
                }
            }
            assert forall|is_chunk: bool, sha: Seq<char>| #[trigger] refers(blobs@, chunks@, is_chunk, sha,
            ) implies exists|k: int|
                0 <= k < all@.len() && (#[trigger] all@[k]).is_chunk == is_chunk && all@[k].sha@
                    == sha by {
                if is_chunk {
                    ref_at_is_found(chunks@, sha);
                    let k = ref_at(chunks@, sha);
                    assert(copies(all@[n + k], chunks@[k], true, self.from@, self.to@));
                } else {
                    ref_at_is_found(blobs@, sha);
                    let k = ref_at(blobs@, sha);
                    assert(copies(all@[k], blobs@[k], false, self.from@, self.to@));
                }
            }
        }
        let mut r: Vec<ObjectCopy> = Vec::new();
        let ghost from = self.from@;
        let ghost to = self.to@;
        let mut i: usize = 0;
        while i < all.len()
            invariant
                i <= all.len(),
                n == blobs@.len(),
                all@.len() == blobs@.len() + chunks@.len(),
                before == old(self).copied@,
                from == old(self).from@,
                to == old(self).to@,
                self.mv == old(self).mv,
                self.from == old(self).from,
                self.to == old(self).to,
                self.expected == old(self).expected,
                self.rounds == old(self).rounds,
                forall|k: int|
                    0 <= k < blobs@.len() ==> copies(#[trigger] all@[k], blobs@[k], false, from, to),
                forall|k: int|
                    0 <= k < chunks@.len() ==> copies(
                        #[trigger] all@[blobs@.len() + k],
                        chunks@[k],
                        true,
                        from,
                        to,
                    ),
                forall|k: int|
                    0 <= k < all@.len() ==> refers(blobs@, chunks@, (#[trigger] all@[k]).is_chunk, all@[k].sha@,
                    ),
                forall|is_chunk: bool, sha: Seq<char>|
                    has_copied(self.copied@, is_chunk, sha) == (has_copied(before, is_chunk, sha)
                        || exists|k: int|
                        0 <= k < i && (#[trigger] all@[k]).is_chunk == is_chunk && all@[k].sha@
                            == sha),
                forall|k: int|
                    0 <= k < r@.len() ==> {
                        &&& !has_copied(before, (#[trigger] r@[k]).is_chunk, r@[k].sha@)
                        &&& refers(blobs@, chunks@, r@[k].is_chunk, r@[k].sha@)
                        &&& r@[k].src@ == from.key(kind_of(r@[k].is_chunk), r@[k].sha@)
                        &&& r@[k].dst@ == to.key(kind_of(r@[k].is_chunk), r@[k].sha@)
                        &&& has_copied(self.copied@, r@[k].is_chunk, r@[k].sha@)
                    },
                forall|k: int, m: int|
                    0 <= k < m < r@.len() ==> !((#[trigger] r@[k]).is_chunk == (
                    #[trigger] r@[m]).is_chunk && r@[k].sha@ == r@[m].sha@),
                forall|k: int|
                    0 <= k < i && !has_copied(before, (#[trigger] all@[k]).is_chunk, all@[k].sha@)
                        ==> exists|m: int|
                        0 <= m < r@.len() && (#[trigger] r@[m]).is_chunk == all@[k].is_chunk
                            && r@[m].sha@ == all@[k].sha@,
            decreases all.len() - i,
        {
            proof {
                if i < n {
                    assert(copies(all@[i as int], blobs@[i as int], false, from, to));
                } else {
                    assert(copies(all@[n + (i - n)], chunks@[i - n], true, from, to));
                }
            }
            let c = &all[i];
            let ghost earlier = self.copied@;
            let ghost was = r@;
            if !self.copied_already(c.is_chunk, c.sha.as_str()) {
                self.copied.push((c.is_chunk, c.sha.clone()));
                r.push(
                    ObjectCopy {
                        src: c.src.clone(),
                        dst: c.dst.clone(),
                        is_chunk: c.is_chunk,
                        sha: c.sha.clone(),
                    },
                );
                proof {
                    let it = all@[i as int];
                    assert(self.copied@[earlier.len() as int].0 == it.is_chunk
                        && self.copied@[earlier.len() as int].1@ == it.sha@);
                    assert forall|is_chunk: bool, sha: Seq<char>| has_copied(
                        self.copied@,
                        is_chunk,
                        sha,
                    ) == (has_copied(earlier, is_chunk, sha) || (is_chunk == it.is_chunk && sha
                        == it.sha@)) by {
                        if has_copied(earlier, is_chunk, sha) {
                            let k = choose|k: int|
                                0 <= k < earlier.len() && (#[trigger] earlier[k]).0 == is_chunk
                                    && earlier[k].1@ == sha;
                            assert(self.copied@[k] == earlier[k]);
                        }
                        if has_copied(self.copied@, is_chunk, sha) {
                            let k = choose|k: int|
                                0 <= k < self.copied@.len() && (#[trigger] self.copied@[k]).0
                                    == is_chunk && self.copied@[k].1@ == sha;
                            if k < earlier.len() {
                                assert(earlier[k] == self.copied@[k]);
                            }
                        }
                    }
                    assert(r@[was.len() as int].is_chunk == it.is_chunk && r@[was.len() as int].sha@
                        == it.sha@);
                    assert forall|k: int| 0 <= k < was.len() implies r@[k] == was[k] by {}
                }
            } else {
                proof {
                    let it = all@[i as int];
                    assert(has_copied(earlier, it.is_chunk, it.sha@));
                }
            }
            proof {
                let it = all@[i as int];
                assert forall|k: int|
                    0 <= k < i + 1 && !has_copied(before, (#[trigger] all@[k]).is_chunk, all@[k].sha@) implies exists|
                    m: int,
                |
                    0 <= m < r@.len() && (#[trigger] r@[m]).is_chunk == all@[k].is_chunk && r@[m].sha@
                        == all@[k].sha@ by {
                    if k < i {
                        let m = choose|m: int|
                            0 <= m < was.len() && (#[trigger] was[m]).is_chunk == all@[k].is_chunk
                                && was[m].sha@ == all@[k].sha@;
                        assert(r@[m] == was[m]);
                    } else if has_copied(earlier, it.is_chunk, it.sha@) {
                        let j = choose|j: int|
                            0 <= j < i && (#[trigger] all@[j]).is_chunk == it.is_chunk
                                && all@[j].sha@ == it.sha@;
                        let m = choose|m: int|
                            0 <= m < was.len() && (#[trigger] was[m]).is_chunk == all@[j].is_chunk
                                && was[m].sha@ == all@[j].sha@;
                        assert(r@[m] == was[m]);
                    } else {
                        assert(r@[was.len() as int].is_chunk == it.is_chunk);
                    }
                }
            }
            i += 1;
        }
        proof {
            if before.len() == 0 {
                assert forall|is_chunk: bool, sha: Seq<char>| !has_copied(before, is_chunk, sha) by {}
                assert forall|k: Seq<char>| #[trigger] keys_in(to, blobs@, chunks@).contains(
                    k,
                ) implies keys_written(r@).contains(k) by {
                    let (is_chunk, sha) = choose|is_chunk: bool, sha: Seq<char>|
                        #[trigger] refers(blobs@, chunks@, is_chunk, sha) && k == to.key(
                            kind_of(is_chunk),
                            sha,
                        );
                    assert(!has_copied(before, is_chunk, sha));
                }
                assert(keys_written(r@) =~= keys_in(to, blobs@, chunks@));
            }
        }
        r
    }

    fn covers_refs(&self, refs: &Vec<Ref>, is_chunk: bool) -> (r: bool)
        ensures
            r == all_copied(self.copied@, refs@, is_chunk),
    {
        let mut i: usize = 0;
        while i < refs.len()
            invariant
                i <= refs.len(),
                forall|k: int|
                    0 <= k < i ==> has_copied(self.copied@, is_chunk, (#[trigger] refs@[k]).sha@),
            decreases refs.len() - i,
        {
            if !self.copied_already(is_chunk, refs[i].sha.as_str()) {
                assert(!has_copied(self.copied@, is_chunk, refs@[i as int].sha@));
                return false;
            }
            i += 1;
        }
        true
    }

    /// The check under the write lock, with where the save is now, what it references now and
    /// whether a live lease stands on it.
    pub fn check(
        &mut self,
        now: &Option<Whereabouts>,
        blobs: &Vec<Ref>,
        chunks: &Vec<Ref>,
        lease_live: bool,
    ) -> (r: Check)
        requires
            old(self).rounds < MOVE_ROUNDS,
        ensures
            final(self).mv == old(self).mv,
            final(self).from == old(self).from,
            final(self).to == old(self).to,
            final(self).expected == old(self).expected,
            final(self).copied == old(self).copied,
            r == Check::CopyAgain || r == Check::GiveUp ==> final(self).rounds == old(self).rounds
                + 1,
            r != Check::CopyAgain && r != Check::GiveUp ==> final(self).rounds == old(self).rounds,
            r == Check::CopyAgain ==> final(self).rounds < MOVE_ROUNDS,
            r == verdict(*old(self), *now, blobs@, chunks@, lease_live),
    {
        let here = match now {
            Some(w) => is_same_place(w, &self.expected),
            None => false,
        };
        if !here {
            return Check::Changed;
        }
        if !self.covers_refs(blobs, false) || !self.covers_refs(chunks, true) {
            self.rounds = self.rounds + 1;
            return if self.rounds < MOVE_ROUNDS {
                Check::CopyAgain
            } else {
                Check::GiveUp
            };
        }
        match &self.mv {
            Move::Share { .. } => Check::Go { end_lease: false },
            Move::Unshare => if lease_live {
                Check::LeaseHeld
            } else {
                Check::Go { end_lease: false }
            },
            Move::TakeBack => Check::Go { end_lease: lease_live },
        }
    }

    /// The row that records the save's share once the move is through: none for a save that is
    /// back with its owner.
    pub fn share_row(&self) -> (r: Option<ShareRow>)
        ensures
            r == (match self.mv {
                Move::Share { group_id, include_json } => Some(
                    ShareRow { group_id, include_json },
                ),
                _ => None,
            }),
    {
        match &self.mv {
            Move::Share { group_id, include_json } => Some(
                ShareRow {
                    group_id: group_id.clone(),
                    include_json: match include_json {
                        Some(list) => Some(list.clone()),
                        None => None,
                    },
                },
            ),
            Move::Unshare => None,
            Move::TakeBack => None,
        }
    }
}

/// The error of a move that was given up.
pub fn kept_growing() -> (r: MoveError)
    ensures
        r is Other,
        r->Other_0@ == "the save kept growing while its content was being copied"@,
{
    MoveError::Other("the save kept growing while its content was being copied".to_owned())
}

/// What taking a share back without its owner does next.
#[derive(Debug, Clone, Copy, PartialEq, Eq, Structural)]
pub enum TakeBack {
    /// Nothing is left to take back.
    Done,
    /// Move the content back.
    Move,
    /// The save kept moving.
    GiveUp,
}

/// Before a round of taking back: a save that is no longer shared, or no longer there, is left
/// alone; after three rounds it kept moving.
pub fn take_back(rounds: u8, found: &Option<Whereabouts>) -> (r: TakeBack)
    ensures
        r == (if rounds >= MOVE_ROUNDS {
            TakeBack::GiveUp
        } else if *found is Some && found->0.group is Some {
            TakeBack::Move
        } else {
            TakeBack::Done
        }),
{
    if rounds >= MOVE_ROUNDS {
        return TakeBack::GiveUp;
    }
    match found {
        Some(w) => if w.group.is_some() {
            TakeBack::Move
        } else {
            TakeBack::Done
        },
        None => TakeBack::Done,
    }
}

/// The error of a save that could not be taken back.
pub fn kept_moving(save_id: &str) -> (r: String)
    ensures
        r@ == "save "@ + save_id@ + " kept moving while being taken back"@,
{
    let mut r = "save ".to_owned();
    r.append(save_id);
    r.append(" kept moving while being taken back");
    assert(r@ =~= "save "@ + save_id@ + " kept moving while being taken back"@);
    r
}

/// After a failed round: a save that changed meanwhile is looked at again, anything else is the
/// failure. Taking back ends the lease, so none is in the way.
pub fn take_back_failed(e: MoveError) -> (r: Result<(), String>)
    requires
        !(e is LeaseHeld),
    ensures
        r == (match e {
            MoveError::Other(why) => Err::<(), String>(why),
            _ => Ok::<(), String>(()),
        }),
{
    match e {
        MoveError::Other(why) => Err(why),
        _ => Ok(()),
    }
}

/// Which of a group's shared saves are taken back: all of them, or one owner's.
pub fn taken_back_with(owner: &str, owned_by: Option<&str>) -> (r: bool)
    ensures
        r == (match owned_by {
            Some(who) => owner@ == who@,
            None => true,
        }),
{
    match owned_by {
        Some(who) => same(owner, who),
        None => true,
    }
}

// ---- laws

/// Sharing is the owner's, of a save that is not shared yet, into a group they are in, with a list
/// that holds: anything else is refused, the first of these that fails first. The move that comes of
/// it goes into that group with that list, which reads back as it was.
pub proof fn who_may_share(
    bad_list: Option<String>,
    access: Option<SaveAccess>,
    in_group: bool,
    group_id: String,
    includes: Vec<String>,
    r: Result<Move, Refusal>,
    column: Option<String>,
    back: Vec<String>,
)
    requires
        call_ensures(share, (bad_list, access, in_group, group_id, &includes), r),
        r is Ok ==> column == r->Ok_0->include_json,
        call_ensures(include_for, (&column,), back),
    ensures
        r is Ok <==> bad_list is None && access is Some && access->0.role == Role::Owner
            && access->0.group_id is None && in_group,
        bad_list is Some ==> r == Err::<Move, Refusal>(Refusal::BadList(bad_list->0)),
        bad_list is None && access is None ==> r == Err::<Move, Refusal>(Refusal::SaveNotFound),
        bad_list is None && access is Some && access->0.role != Role::Owner ==> r == Err::<
            Move,
            Refusal,
        >(Refusal::NotSaveOwner),
        bad_list is None && access is Some && access->0.role == Role::Owner
            && access->0.group_id is Some ==> r == Err::<Move, Refusal>(Refusal::AlreadyShared),
        bad_list is None && access is Some && access->0.role == Role::Owner
            && access->0.group_id is None && !in_group ==> r == Err::<Move, Refusal>(
            Refusal::GroupNotFound,
        ),
        r is Ok ==> r->Ok_0 is Share && r->Ok_0->group_id == group_id && views(back@) == views(
            includes@,
        ),
        r is Ok ==> (column is None <==> includes@.len() == 0),
{
}

/// Taking a share back by hand is the owner's, of a save that is shared; what only an owner may do
/// is refused to a member and does not exist to a stranger.
pub proof fn who_may_unshare(
    access: Option<SaveAccess>,
    r: Result<Move, Refusal>,
    pass: Result<SaveAccess, Refusal>,
)
    requires
        call_ensures(unshare, (access,), r),
        call_ensures(owner_access, (access,), pass),
    ensures
        access is None ==> r == Err::<Move, Refusal>(Refusal::SaveNotFound) && pass == Err::<
            SaveAccess,
            Refusal,
        >(Refusal::SaveNotFound),
        access is Some && access->0.role == Role::Member ==> r == Err::<Move, Refusal>(
            Refusal::NotSaveOwner,
        ) && pass == Err::<SaveAccess, Refusal>(Refusal::NotSaveOwner),
        access is Some && access->0.role == Role::Owner ==> pass == Ok::<SaveAccess, Refusal>(
            access->0,
        ),
        access is Some && access->0.role == Role::Owner && access->0.group_id is None ==> r
            == Err::<Move, Refusal>(Refusal::NotShared),
        access is Some && access->0.role == Role::Owner && access->0.group_id is Some ==> r
            == Ok::<Move, Refusal>(Move::Unshare),
{
}

/// A move into a group goes from the owner's namespace to the group's, of a save that is not shared;
/// a move back, by hand or not, from the group's to the owner's, of one that is. Of a save that is
/// elsewhere or gone it has changed. A move starts with nothing copied.
pub proof fn where_a_move_goes(mv: Move, found: Option<Whereabouts>, r: Result<Moving, MoveError>)
    requires
        call_ensures(Moving::begin, (mv, found), r),
    ensures
        r is Err ==> r->Err_0 is Changed,
        found is None ==> r is Err,
        found matches Some(w) ==> {
            &&& r is Ok <==> (mv is Share <==> w.group is None)
            &&& r is Ok && mv is Share ==> r->Ok_0.from@ == Space::User(w.owner@) && r->Ok_0.to@
                == Space::Group(mv->group_id@)
            &&& r is Ok && mv !is Share ==> r->Ok_0.from@ == Space::Group(w.group->0@)
                && r->Ok_0.to@ == Space::User(w.owner@)
            &&& r is Ok ==> r->Ok_0.expected == w && r->Ok_0.mv == mv && r->Ok_0.rounds == 0
                && r->Ok_0.copied@.len() == 0
        },
{
}

/// Under the write lock a move goes through only on a save that is where it was found and of which
/// everything is copied. Otherwise it is off, or copies again, three rounds in all. A live lease
/// stands in the way of the owner's own request and of nothing else; taken back without them it is
/// ended first.
pub proof fn when_a_move_goes_through(
    m: &mut Moving,
    now: Option<Whereabouts>,
    blobs: Vec<Ref>,
    chunks: Vec<Ref>,
    live: bool,
    r: Check,
)
    requires
        old(m).rounds < 3,
        call_ensures(Moving::check, (m, &now, &blobs, &chunks, live), r),
    ensures
        ({
            let e = old(m).expected;
            let here = now is Some && now->0.owner@ == e.owner@ && (now->0.group is Some
                <==> e.group is Some) && (e.group is Some ==> now->0.group->0@ == e.group->0@);
            let whole = all_copied(old(m).copied@, blobs@, false) && all_copied(
                old(m).copied@,
                chunks@,
                true,
            );
            &&& !here <==> r == Check::Changed
            &&& here && !whole && old(m).rounds < 2 ==> r == Check::CopyAgain
            &&& here && !whole && old(m).rounds == 2 ==> r == Check::GiveUp
            &&& here && !whole ==> final(m).rounds == old(m).rounds + 1
            &&& here && whole && old(m).mv is Share ==> r == (Check::Go { end_lease: false })
            &&& here && whole && old(m).mv is Unshare && live ==> r == Check::LeaseHeld
            &&& here && whole && old(m).mv is Unshare && !live ==> r == (Check::Go {
                end_lease: false,
            })
            &&& here && whole && old(m).mv is TakeBack ==> r == (Check::Go { end_lease: live })
        }),
{
}

/// What a move leaves on record: a share, the group it went into with its list; a save that is back
/// with its owner, nothing.
pub proof fn a_share_is_recorded(m: Moving, r: Option<ShareRow>)
    requires
        call_ensures(Moving::share_row, (&m,), r),
    ensures
        r is Some <==> m.mv is Share,
        r is Some ==> r->0.group_id == m.mv->group_id && r->0.include_json == m.mv->include_json,
{
}

/// What a failed move is answered with and says.
pub proof fn a_failed_move_is_answered(
    e: MoveError,
    r: Refusal,
    m: String,
    grown: MoveError,
    save_id: &str,
    moving: String,
)
    requires
        call_ensures(move_err, (e,), r),
        call_ensures(MoveError::message, (&e,), m),
        call_ensures(kept_growing, (), grown),
        call_ensures(kept_moving, (save_id,), moving),
    ensures
        e is Changed ==> r == Refusal::NamespaceChanged && m@ == "the save moved meanwhile"@,
        e is LeaseHeld ==> r == Refusal::LeaseHeld && m@ == "a member holds a live lease"@,
        e matches MoveError::Other(why) ==> r == Refusal::Internal && m@ == why@,
        grown is Other && grown->Other_0@
            == "the save kept growing while its content was being copied"@,
        moving@ == "save "@ + save_id@ + " kept moving while being taken back"@,
{
}

/// Taking back without the owner goes on while the save is shared, three rounds at most; a round
/// that found it changed is looked at again, any other failure ends it. It is of every save of the
/// group, or of one owner's.
pub proof fn taking_back_goes_on(
    rounds: u8,
    found: Option<Whereabouts>,
    r: TakeBack,
    e: MoveError,
    failed: Result<(), String>,
    owner: &str,
    of: Option<&str>,
    with: bool,
)
    requires
        call_ensures(take_back, (rounds, &found), r),
        !(e is LeaseHeld),
        call_ensures(take_back_failed, (e,), failed),
        call_ensures(taken_back_with, (owner, of), with),
    ensures
        rounds >= 3 <==> r == TakeBack::GiveUp,
        rounds < 3 ==> (r == TakeBack::Move <==> found is Some && found->0.group is Some),
        rounds < 3 && r != TakeBack::Move ==> r == TakeBack::Done,
        e is Changed ==> failed is Ok,
        e matches MoveError::Other(why) ==> failed == Err::<(), String>(why),
        of is None ==> with,
        of matches Some(who) ==> (with <==> owner@ == who@),
{
}

/// The list of a share reads back as it was written, and an empty one is written as none; none, and
/// a text that is no list, read as no list at all.
pub proof fn a_list_reads_back(
    includes: Vec<String>,
    column: Option<String>,
    back: Vec<String>,
    none: Option<String>,
    nothing: Vec<String>,
)
    requires
        call_ensures(include_column, (&includes,), column),
        call_ensures(include_for, (&column,), back),
        none is None || list_of_json(none->0@) is None,
        call_ensures(include_for, (&none,), nothing),
    ensures
        views(back@) == views(includes@),
        column is None <==> includes@.len() == 0,
        nothing@.len() == 0,
{
    assert(views(nothing@).len() == nothing@.len());
}

/// References hold where no hash stands twice, each can be cut, and no size or count is negative.
pub proof fn which_references_hold(refs: Vec<Ref>, r: bool, i: int, j: int)
    requires
        call_ensures(refs_hold, (&refs,), r),
    ensures
        r && 0 <= i < j < refs@.len() ==> refs@[i].sha@ != refs@[j].sha@,
        r && 0 <= i < refs@.len() ==> refs@[i].size >= 0 && refs@[i].count >= 0 && shardable(
            refs@[i].sha@,
        ),
        refs@.len() == 0 ==> r,
        refs@.len() == 1 && refs@[0].size >= 0 && refs@[0].count >= 0 && shardable(
            refs@[0].sha@,
        ) ==> r,
{
}

/// A round copies each object that the save references and no round has copied, from its key in the
/// one namespace to its key in the other, each once; after it everything referenced is copied.
pub proof fn a_round_copies_what_is_missing(
    m: &mut Moving,
    blobs: Vec<Ref>,
    chunks: Vec<Ref>,
    r: Vec<ObjectCopy>,
    i: int,
    k: int,
)
    requires
        refs_wf(blobs@),
        refs_wf(chunks@),
        call_ensures(Moving::copy_round, (m, &blobs, &chunks), r),
    ensures
        final(m).from == old(m).from && final(m).to == old(m).to && final(m).rounds
            == old(m).rounds,
        0 <= k < r@.len() ==> !has_copied(old(m).copied@, r@[k].is_chunk, r@[k].sha@),
        0 <= k < r@.len() && r@[k].is_chunk ==> r@[k].src@ == old(m).from@.key(
            "chunks"@,
            r@[k].sha@,
        ) && r@[k].dst@ == old(m).to@.key("chunks"@, r@[k].sha@),
        0 <= k < r@.len() && !r@[k].is_chunk ==> r@[k].src@ == old(m).from@.key(
            "blobs"@,
            r@[k].sha@,
        ) && r@[k].dst@ == old(m).to@.key("blobs"@, r@[k].sha@),
        0 <= i < blobs@.len() ==> has_copied(final(m).copied@, false, blobs@[i].sha@),
        0 <= i < chunks@.len() ==> has_copied(final(m).copied@, true, chunks@[i].sha@),
{
    if 0 <= i < blobs@.len() {
        ref_at_is_found(blobs@, blobs@[i].sha@);
        assert(refers(blobs@, chunks@, false, blobs@[i].sha@));
    }
    if 0 <= i < chunks@.len() {
        ref_at_is_found(chunks@, chunks@[i].sha@);
        assert(refers(blobs@, chunks@, true, chunks@[i].sha@));
    }
}

} // verus!
