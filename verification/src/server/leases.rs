//! Who is hosting a shared save.
//!
//! One row per save, rewritten on acquire. A lease is live while it is not released and its last
//! renewal is within [`LEASE_TTL_SECS`]. It gates the push: the one playing a world is the one
//! pushing it. Acquire carries the caller's version and is refused once the world has moved past
//! it. Every change of holder, liveness or `pushed_since` is news; a renewal is none.

use vstd::prelude::*;

#[allow(unused_imports)]
use crate::clock::utc_second;
use crate::clock::Moment;
use crate::fileclass::included;
#[allow(unused_imports)]
use crate::fileclass::named_by;
use crate::server::access::{Role, SaveAccess};
use crate::server::reply::Refusal;
use crate::wire::{clone_text, FileEntry, Lease, LeaseEvent};
use crate::text::{same, trim};
#[allow(unused_imports)]
use crate::text::{trimmed, views};

verus! {

/// Seconds a lease stays live after its last renewal.
pub const LEASE_TTL_SECS: i64 = 300;

/// A lease and its holder, as [`live_lease`] reads them: the holder's name is what the stored text
/// was repaired to. Times are seconds since the epoch.
#[derive(Debug)]
pub struct LeaseRow {
    pub save_id: String,
    pub holder_user_id: String,
    pub holder_username: String,
    pub holder_device_fp: Option<String>,
    pub acquired_at: i64,
    pub renewed_at: i64,
    pub base_version: i64,
    pub pushed_since: bool,
}

/// The row of a save's lease, live or not.
#[derive(Debug)]
pub struct StoredLease {
    pub row: LeaseRow,
    pub released_at: Option<i64>,
}

/// Is the row a live lease at `now`?
pub open spec fn is_live(stored: StoredLease, now: int) -> bool {
    stored.released_at is None && stored.row.renewed_at > now - LEASE_TTL_SECS
}

/// Does the row say that `user_id` hosts the save at `now`?
pub open spec fn hosted_by(stored: Option<StoredLease>, now: int, user_id: Seq<char>) -> bool {
    stored is Some && is_live(stored->0, now) && stored->0.row.holder_user_id@ == user_id
}

/// Does the row say that somebody else hosts the save at `now`?
pub open spec fn hosted_by_another(stored: Option<StoredLease>, now: int, user_id: Seq<char>) -> bool {
    stored is Some && is_live(stored->0, now) && stored->0.row.holder_user_id@ != user_id
}

/// The lease that a row is on the wire.
pub open spec fn wire_of(row: LeaseRow) -> Lease {
    Lease {
        save_id: row.save_id,
        holder_user_id: row.holder_user_id,
        holder_username: row.holder_username,
        holder_device_fp: row.holder_device_fp,
        acquired_at: utc_second(row.acquired_at as int),
        renewed_at: utc_second(row.renewed_at as int),
        base_version: row.base_version,
        pushed_since: row.pushed_since,
        live: true,
    }
}

/// The news of a live lease.
pub open spec fn news_of(row: LeaseRow) -> LeaseEvent {
    LeaseEvent {
        save_id: row.save_id,
        holder_user_id: Some(row.holder_user_id),
        live: true,
        pushed_since: row.pushed_since,
    }
}

/// The news of a lease that ended.
pub open spec fn end_of(row: LeaseRow) -> LeaseEvent {
    LeaseEvent {
        save_id: row.save_id,
        holder_user_id: None,
        live: false,
        pushed_since: row.pushed_since,
    }
}

impl LeaseRow {
    pub fn to_wire(&self) -> (r: Lease)
        ensures
            r == wire_of(*self),
    {
        Lease {
            save_id: self.save_id.clone(),
            holder_user_id: self.holder_user_id.clone(),
            holder_username: self.holder_username.clone(),
            holder_device_fp: clone_text(&self.holder_device_fp),
            acquired_at: Moment::utc(self.acquired_at),
            renewed_at: Moment::utc(self.renewed_at),
            base_version: self.base_version,
            pushed_since: self.pushed_since,
            live: true,
        }
    }

    pub fn event(&self) -> (r: LeaseEvent)
        ensures
            r == news_of(*self),
    {
        LeaseEvent {
            save_id: self.save_id.clone(),
            holder_user_id: Some(self.holder_user_id.clone()),
            live: true,
            pushed_since: self.pushed_since,
        }
    }

    /// The news that this lease ended.
    pub fn end_event(&self) -> (r: LeaseEvent)
        ensures
            r == end_of(*self),
    {
        LeaseEvent {
            save_id: self.save_id.clone(),
            holder_user_id: None,
            live: false,
            pushed_since: self.pushed_since,
        }
    }
}

/// Whether the row is a live lease at `now`.
fn live_at(stored: &StoredLease, now: i64) -> (r: bool)
    ensures
        r == is_live(*stored, now as int),
{
    if stored.released_at.is_some() {
        return false;
    }
    match now.checked_sub(LEASE_TTL_SECS) {
        Some(since) => stored.row.renewed_at > since,
        None => true,
    }
}

/// The live lease of a save, if any. Expired and released rows read as `None`.
pub fn live_lease<'a>(stored: &'a Option<StoredLease>, now: i64) -> (r: Option<&'a LeaseRow>)
    ensures
        r is Some == (*stored is Some && is_live(stored->0, now as int)),
        r matches Some(row) ==> *row == stored->0.row,
{
    match stored {
        Some(s) => if live_at(s, now) {
            Some(&s.row)
        } else {
            None
        },
        None => None,
    }
}

/// The caller's access to a save that is shared. A stranger gets what an unknown id gets; a
/// private save has no lease.
pub fn require_shared_access(access: Option<SaveAccess>) -> (r: Result<SaveAccess, Refusal>)
    ensures
        match access {
            None => r == Err::<SaveAccess, Refusal>(Refusal::SaveNotFound),
            Some(a) => if a.group_id is None {
                r == Err::<SaveAccess, Refusal>(Refusal::NotShared)
            } else {
                r == Ok::<SaveAccess, Refusal>(a)
            },
        },
{
    match access {
        None => Err(Refusal::SaveNotFound),
        Some(a) => if a.group_id.is_none() {
            Err(Refusal::NotShared)
        } else {
            Ok(a)
        },
    }
}

/// The refusal that a caller without shared access gets, if any.
pub open spec fn shared_access_refusal(access: Option<SaveAccess>) -> Option<Refusal> {
    match access {
        None => Some(Refusal::SaveNotFound),
        Some(a) => if a.group_id is None {
            Some(Refusal::NotShared)
        } else {
            None
        },
    }
}

/// The push gate: the caller must hold the live lease on a shared save. The refusal names the
/// current host when there is one.
pub fn require_host(stored: &Option<StoredLease>, now: i64, user_id: &str) -> (r: Result<(), Refusal>)
    ensures
        r is Ok == hosted_by(*stored, now as int, user_id@),
        r is Err ==> r->Err_0 == Refusal::LeaseRequired(
            if hosted_by_another(*stored, now as int, user_id@) {
                Some(wire_of(stored->0.row))
            } else {
                None
            },
        ),
{
    match live_lease(stored, now) {
        Some(l) => if same(l.holder_user_id.as_str(), user_id) {
            Ok(())
        } else {
            Err(Refusal::LeaseRequired(Some(l.to_wire())))
        },
        None => Err(Refusal::LeaseRequired(None)),
    }
}

/// Is this one of the world's files at this version: a path the share names, with this content?
pub open spec fn in_world(
    list: Seq<Seq<char>>,
    files: Seq<FileEntry>,
    path: Seq<char>,
    sha: Seq<char>,
) -> bool {
    named_by(list, path) && exists|i: int|
        0 <= i < files.len() && (#[trigger] files[i]).path@ == path && files[i].sha@ == sha
}

/// Is the world, as the share names it, the same in two versions?
pub open spec fn same_world(list: Seq<Seq<char>>, a: Seq<FileEntry>, b: Seq<FileEntry>) -> bool {
    forall|path: Seq<char>, sha: Seq<char>|
        #![trigger in_world(list, a, path, sha)]
        #![trigger in_world(list, b, path, sha)]
        in_world(list, a, path, sha) == in_world(list, b, path, sha)
}

/// Whether every file of the world of `a` is in `b`.
fn world_within(includes: &[String], a: &[FileEntry], b: &[FileEntry]) -> (r: bool)
    ensures
        r == forall|path: Seq<char>, sha: Seq<char>|
            #[trigger] in_world(views(includes@), a@, path, sha) ==> in_world(
                views(includes@),
                b@,
                path,
                sha,
            ),
{
    let ghost list = views(includes@);
    let mut i: usize = 0;
    while i < a.len()
        invariant
            i <= a.len(),
            list == views(includes@),
            forall|k: int|
                0 <= k < i && named_by(list, (#[trigger] a@[k]).path@) ==> in_world(
                    list,
                    b@,
                    a@[k].path@,
                    a@[k].sha@,
                ),
        decreases a.len() - i,
    {
        if included(includes, a[i].path.as_str()) {
            let mut found = false;
            let mut j: usize = 0;
            while j < b.len()
                invariant
                    i < a.len(),
                    j <= b.len(),
                    found == exists|k: int|
                        0 <= k < j && (#[trigger] b@[k]).path@ == a@[i as int].path@ && b@[k].sha@
                            == a@[i as int].sha@,
                decreases b.len() - j,
            {
                if same(b[j].path.as_str(), a[i].path.as_str()) && same(
                    b[j].sha.as_str(),
                    a[i].sha.as_str(),
                ) {
                    found = true;
                }
                j += 1;
            }
            if !found {
                assert(in_world(list, a@, a@[i as int].path@, a@[i as int].sha@));
                assert(!in_world(list, b@, a@[i as int].path@, a@[i as int].sha@));
                return false;
            }
        }
        i += 1;
    }
    true
}

/// Whether the world, as the share names it, is the same in two versions.
pub fn world_unmoved(includes: &[String], a: &[FileEntry], b: &[FileEntry]) -> (r: bool)
    ensures
        r == same_world(views(includes@), a@, b@),
{
    let forth = world_within(includes, a, b);
    let back = world_within(includes, b, a);
    proof {
        let list = views(includes@);
        if forth && back {
            assert forall|path: Seq<char>, sha: Seq<char>|
                in_world(list, a@, path, sha) == in_world(list, b@, path, sha) by {}
        }
        if same_world(list, a@, b@) {
            assert(forth);
            assert(back);
        }
    }
    forth && back
}

/// Has the save moved past `base`? The whole save, where the share names no files; else the
/// world that it names.
pub open spec fn moved_past(
    list: Seq<Seq<char>>,
    base: int,
    head: int,
    at_base: Seq<FileEntry>,
    at_head: Seq<FileEntry>,
) -> bool {
    head > base && (list.len() == 0 || !same_world(list, at_base, at_head))
}

/// Where the save stands: its newest version, what the share names, and the files of the
/// caller's version and of the newest.
#[derive(Debug)]
pub struct Head {
    pub version: i64,
    pub includes: Vec<String>,
    pub at_base: Vec<FileEntry>,
    pub at_head: Vec<FileEntry>,
}

/// Has the save moved past the caller's version?
pub open spec fn behind(head: Head, base: int) -> bool {
    moved_past(views(head.includes@), base, head.version as int, head.at_base@, head.at_head@)
}

fn is_behind(head: &Head, base: i64) -> (r: bool)
    ensures
        r == behind(*head, base as int),
{
    head.version > base && (head.includes.len() == 0 || !world_unmoved(
        head.includes.as_slice(),
        head.at_base.as_slice(),
        head.at_head.as_slice(),
    ))
}

/// Does the push go without the lease? The owner's backup of what a share leaves out changes no
/// world.
pub open spec fn push_needs_no_lease(
    role: Role,
    list: Seq<Seq<char>>,
    at_head: Seq<FileEntry>,
    pushed: Seq<FileEntry>,
) -> bool {
    role == Role::Owner && list.len() > 0 && same_world(list, at_head, pushed)
}

/// Who may push on a shared save: `Ok(true)` for the host's, which is marked and announced,
/// `Ok(false)` for the owner's backup past an unchanged world, which is no lease news.
pub fn push_gate(
    role: Role,
    includes: &[String],
    at_head: &[FileEntry],
    pushed: &[FileEntry],
    stored: &Option<StoredLease>,
    now: i64,
    user_id: &str,
) -> (r: Result<bool, Refusal>)
    ensures
        push_needs_no_lease(role, views(includes@), at_head@, pushed@) ==> r == Ok::<bool, Refusal>(
            false,
        ),
        !push_needs_no_lease(role, views(includes@), at_head@, pushed@) ==> {
            &&& r is Ok == hosted_by(*stored, now as int, user_id@)
            &&& r is Ok ==> r->Ok_0
            &&& r is Err ==> r->Err_0 == Refusal::LeaseRequired(
                if hosted_by_another(*stored, now as int, user_id@) {
                    Some(wire_of(stored->0.row))
                } else {
                    None
                },
            )
        },
{
    if role == Role::Owner && includes.len() > 0 && world_unmoved(includes, at_head, pushed) {
        return Ok(false);
    }
    match require_host(stored, now, user_id) {
        Ok(()) => Ok(true),
        Err(e) => Err(e),
    }
}

/// Record that the holder pushed: from here on the lease cannot be forced. A row that is not the
/// caller's is left alone.
pub fn mark_pushed(stored: &mut StoredLease, user_id: &str)
    ensures
        final(stored).released_at == old(stored).released_at,
        final(stored).row == (LeaseRow {
            pushed_since: old(stored).row.pushed_since || old(stored).row.holder_user_id@
                == user_id@,
            ..old(stored).row
        }),
{
    if same(stored.row.holder_user_id.as_str(), user_id) {
        stored.row.pushed_since = true;
    }
}

/// After a push on a shared save: the holder's lease now covers it.
pub fn announce_push(save_id: &str, user_id: &str) -> (r: LeaseEvent)
    ensures
        r.save_id@ == save_id@,
        r.holder_user_id is Some,
        r.holder_user_id->0@ == user_id@,
        r.live,
        r.pushed_since,
{
    LeaseEvent {
        save_id: save_id.to_owned(),
        holder_user_id: Some(user_id.to_owned()),
        live: true,
        pushed_since: true,
    }
}

/// The device's fingerprint, as the header carries it: trimmed, and nothing when empty.
pub fn device_fp(header: Option<&str>) -> (r: Option<String>)
    ensures
        r is Some == (header is Some && trimmed(header->0@).len() > 0),
        r matches Some(fp) ==> fp@ == trimmed(header->0@),
{
    match header {
        Some(h) => {
            let t = trim(h);
            if t.as_str().is_empty() {
                None
            } else {
                Some(t)
            }
        },
        None => None,
    }
}

/// The lease a save has, for somebody who has a stake in it.
pub fn get(access: Option<SaveAccess>, stored: &Option<StoredLease>, now: i64) -> (r: Result<
    Option<Lease>,
    Refusal,
>)
    ensures
        match shared_access_refusal(access) {
            Some(e) => r == Err::<Option<Lease>, Refusal>(e),
            None => r == Ok::<Option<Lease>, Refusal>(
                if *stored is Some && is_live(stored->0, now as int) {
                    Some(wire_of(stored->0.row))
                } else {
                    None
                },
            ),
        },
{
    match require_shared_access(access) {
        Err(e) => Err(e),
        Ok(_) => match live_lease(stored, now) {
            Some(l) => Ok(Some(l.to_wire())),
            None => Ok(None),
        },
    }
}

/// Who asks for a lease, and from which version.
#[derive(Debug)]
pub struct Claimant {
    pub user_id: String,
    pub username: String,
    pub device_fp: Option<String>,
    pub base_version: i64,
}

/// The row that an accepted acquire leaves: one's own live lease refreshed, or a fresh one.
pub open spec fn acquired(
    stored: Option<StoredLease>,
    save_id: String,
    who: Claimant,
    now: i64,
) -> LeaseRow {
    if hosted_by(stored, now as int, who.user_id@) {
        LeaseRow {
            holder_device_fp: who.device_fp,
            renewed_at: now,
            base_version: who.base_version,
            ..stored->0.row
        }
    } else {
        LeaseRow {
            save_id,
            holder_user_id: who.user_id,
            holder_username: who.username,
            holder_device_fp: who.device_fp,
            acquired_at: now,
            renewed_at: now,
            base_version: who.base_version,
            pushed_since: false,
        }
    }
}

/// Why an acquire is refused, if it is.
pub open spec fn acquire_refusal(
    access: Option<SaveAccess>,
    stored: Option<StoredLease>,
    head: Head,
    who: Claimant,
    now: int,
) -> Option<Refusal> {
    if shared_access_refusal(access) is Some {
        shared_access_refusal(access)
    } else if hosted_by_another(stored, now, who.user_id@) {
        Some(Refusal::Held(wire_of(stored->0.row)))
    } else if behind(head, who.base_version as int) {
        Some(Refusal::Stale { head_version: head.version, base_version: who.base_version })
    } else {
        None
    }
}

/// An accepted acquire: the row to store, and the news when it is a fresh lease.
#[derive(Debug)]
pub struct Acquired {
    pub stored: StoredLease,
    pub news: Option<LeaseEvent>,
}

/// Take the lease: refused while another member's is live, and once the save has moved past
/// the caller's version. Taking one's own live lease again refreshes it and keeps
/// `pushed_since`; anything else writes a fresh row.
pub fn acquire(
    access: Option<SaveAccess>,
    stored: &Option<StoredLease>,
    head: &Head,
    save_id: String,
    who: Claimant,
    now: i64,
) -> (r: Result<Acquired, Refusal>)
    ensures
        match acquire_refusal(access, *stored, *head, who, now as int) {
            Some(e) => r == Err::<Acquired, Refusal>(e),
            None => {
                &&& r is Ok
                &&& r->Ok_0.stored.row == acquired(*stored, save_id, who, now)
                &&& r->Ok_0.stored.released_at is None
                &&& is_live(r->Ok_0.stored, now as int)
                &&& r->Ok_0.news == (if hosted_by(*stored, now as int, who.user_id@) {
                    None
                } else {
                    Some(news_of(r->Ok_0.stored.row))
                })
            },
        },
{
    match require_shared_access(access) {
        Err(e) => {
            return Err(e);
        },
        Ok(_) => {},
    }
    let current = live_lease(stored, now);
    if let Some(l) = current {
        if !same(l.holder_user_id.as_str(), who.user_id.as_str()) {
            return Err(Refusal::Held(l.to_wire()));
        }
    }
    if is_behind(head, who.base_version) {
        return Err(
            Refusal::Stale { head_version: head.version, base_version: who.base_version },
        );
    }
    match current {
        Some(l) => {
            let row = LeaseRow {
                save_id: l.save_id.clone(),
                holder_user_id: l.holder_user_id.clone(),
                holder_username: l.holder_username.clone(),
                holder_device_fp: who.device_fp,
                acquired_at: l.acquired_at,
                renewed_at: now,
                base_version: who.base_version,
                pushed_since: l.pushed_since,
            };
            Ok(Acquired { stored: StoredLease { row, released_at: None }, news: None })
        },
        None => {
            let row = LeaseRow {
                save_id,
                holder_user_id: who.user_id,
                holder_username: who.username,
                holder_device_fp: who.device_fp,
                acquired_at: now,
                renewed_at: now,
                base_version: who.base_version,
                pushed_since: false,
            };
            let news = row.event();
            Ok(Acquired { stored: StoredLease { row, released_at: None }, news: Some(news) })
        },
    }
}

/// The heartbeat. An expired lease is not renewed: it has to be acquired again.
pub fn renew(
    access: Option<SaveAccess>,
    stored: &mut Option<StoredLease>,
    now: i64,
    user_id: &str,
) -> (r: Result<Lease, Refusal>)
    ensures
        match shared_access_refusal(access) {
            Some(e) => r == Err::<Lease, Refusal>(e) && *final(stored) == *old(stored),
            None => if hosted_by(*old(stored), now as int, user_id@) {
                &&& *final(stored) == Some(
                    StoredLease {
                        row: LeaseRow { renewed_at: now, ..old(stored)->0.row },
                        released_at: None,
                    },
                )
                &&& r == Ok::<Lease, Refusal>(wire_of(final(stored)->0.row))
            } else {
                r == Err::<Lease, Refusal>(Refusal::NotHolder) && *final(stored) == *old(stored)
            },
        },
{
    match require_shared_access(access) {
        Err(e) => {
            return Err(e);
        },
        Ok(_) => {},
    }
    match live_lease(stored, now) {
        Some(l) => {
            if !same(l.holder_user_id.as_str(), user_id) {
                return Err(Refusal::NotHolder);
            }
            let row = LeaseRow {
                save_id: l.save_id.clone(),
                holder_user_id: l.holder_user_id.clone(),
                holder_username: l.holder_username.clone(),
                holder_device_fp: clone_text(&l.holder_device_fp),
                acquired_at: l.acquired_at,
                renewed_at: now,
                base_version: l.base_version,
                pushed_since: l.pushed_since,
            };
            let wire = row.to_wire();
            *stored = Some(StoredLease { row, released_at: None });
            Ok(wire)
        },
        None => Err(Refusal::NotHolder),
    }
}

/// End a lease: mark it released, and tell everyone the save has no host.
fn end_lease(stored: &mut StoredLease, now: i64) -> (r: LeaseEvent)
    ensures
        r == end_of(old(stored).row),
        *final(stored) == (StoredLease { row: old(stored).row, released_at: Some(now) }),
{
    stored.released_at = Some(now);
    stored.row.end_event()
}

/// The holder gives the lease up.
pub fn release(
    access: Option<SaveAccess>,
    stored: &mut Option<StoredLease>,
    now: i64,
    user_id: &str,
) -> (r: Result<LeaseEvent, Refusal>)
    ensures
        match shared_access_refusal(access) {
            Some(e) => r == Err::<LeaseEvent, Refusal>(e) && *final(stored) == *old(stored),
            None => if hosted_by(*old(stored), now as int, user_id@) {
                &&& r == Ok::<LeaseEvent, Refusal>(end_of(old(stored)->0.row))
                &&& *final(stored) == Some(
                    StoredLease { row: old(stored)->0.row, released_at: Some(now) },
                )
            } else {
                r == Err::<LeaseEvent, Refusal>(Refusal::NotHolder) && *final(stored) == *old(
                    stored,
                )
            },
        },
{
    match require_shared_access(access) {
        Err(e) => {
            return Err(e);
        },
        Ok(_) => {},
    }
    match end_lease_held_by(stored, now, user_id) {
        Some(news) => Ok(news),
        None => Err(Refusal::NotHolder),
    }
}

/// Take a live lease off its holder, while the holder has pushed nothing under it. The caller
/// acquires separately afterwards, so that check still runs.
pub fn force(access: Option<SaveAccess>, stored: &mut Option<StoredLease>, now: i64) -> (r: Result<
    LeaseEvent,
    Refusal,
>)
    ensures
        match shared_access_refusal(access) {
            Some(e) => r == Err::<LeaseEvent, Refusal>(e) && *final(stored) == *old(stored),
            None => if !(*old(stored) is Some && is_live(old(stored)->0, now as int)) {
                r == Err::<LeaseEvent, Refusal>(Refusal::NotHeld) && *final(stored) == *old(stored)
            } else if old(stored)->0.row.pushed_since {
                r == Err::<LeaseEvent, Refusal>(Refusal::Pushed(wire_of(old(stored)->0.row)))
                    && *final(stored) == *old(stored)
            } else {
                &&& r == Ok::<LeaseEvent, Refusal>(end_of(old(stored)->0.row))
                &&& *final(stored) == Some(
                    StoredLease { row: old(stored)->0.row, released_at: Some(now) },
                )
            },
        },
{
    match require_shared_access(access) {
        Err(e) => {
            return Err(e);
        },
        Ok(_) => {},
    }
    match stored {
        Some(s) => if !live_at(s, now) {
            Err(Refusal::NotHeld)
        } else if s.row.pushed_since {
            Err(Refusal::Pushed(s.row.to_wire()))
        } else {
            Ok(end_lease(s, now))
        },
        None => Err(Refusal::NotHeld),
    }
}

/// A member leaves a group: the lease they hold on one of its saves ends with their access.
pub fn end_lease_held_by(stored: &mut Option<StoredLease>, now: i64, user_id: &str) -> (r: Option<
    LeaseEvent,
>)
    ensures
        if hosted_by(*old(stored), now as int, user_id@) {
            &&& r == Some(end_of(old(stored)->0.row))
            &&& *final(stored) == Some(
                StoredLease { row: old(stored)->0.row, released_at: Some(now) },
            )
        } else {
            r is None && *final(stored) == *old(stored)
        },
{
    match stored {
        Some(s) => if live_at(s, now) && same(s.row.holder_user_id.as_str(), user_id) {
            Some(end_lease(s, now))
        } else {
            None
        },
        None => None,
    }
}

/// At most one account passes the push gate at a time.
pub proof fn one_host_at_a_time(
    stored: Option<StoredLease>,
    now: int,
    a: Seq<char>,
    b: Seq<char>,
)
    requires
        hosted_by(stored, now, a),
        hosted_by(stored, now, b),
    ensures
        a == b,
{
}

/// Who acquires hosts: until the lease ends or expires the caller may push and nobody
/// else acquires.
pub proof fn who_acquires_hosts(
    stored: Option<StoredLease>,
    save_id: String,
    who: Claimant,
    now: i64,
    later: int,
    other: Claimant,
    access: Option<SaveAccess>,
    head: Head,
)
    requires
        later < now + LEASE_TTL_SECS,
        other.user_id@ != who.user_id@,
    ensures
        ({
            let after = Some(
                StoredLease { row: acquired(stored, save_id, who, now), released_at: None },
            );
            &&& hosted_by(after, later, who.user_id@)
            &&& acquire_refusal(access, after, head, other, later) is Some
        }),
{
}

/// A lease nobody renews is over when its time is: from then on another member acquires at once,
/// from a version that the save has not moved past.
pub proof fn a_silent_lease_expires(
    stored: StoredLease,
    later: int,
    who: Claimant,
    access: Option<SaveAccess>,
    head: Head,
)
    requires
        later >= stored.row.renewed_at + LEASE_TTL_SECS,
        shared_access_refusal(access) is None,
        !behind(head, who.base_version as int),
    ensures
        !is_live(stored, later),
        acquire_refusal(access, Some(stored), head, who, later) is None,
{
}

/// A released lease is over at every time.
pub proof fn a_released_lease_hosts_nobody(row: LeaseRow, at: i64, now: int, user_id: Seq<char>)
    ensures
        !hosted_by(Some(StoredLease { row, released_at: Some(at) }), now, user_id),
{
}

/// Refreshing one's own lease keeps when it was taken and that a push was made under it.
pub proof fn a_refresh_keeps_the_lease(
    stored: StoredLease,
    save_id: String,
    who: Claimant,
    now: i64,
)
    requires
        hosted_by(Some(stored), now as int, who.user_id@),
    ensures
        ({
            let after = acquired(Some(stored), save_id, who, now);
            &&& after.acquired_at == stored.row.acquired_at
            &&& after.pushed_since == stored.row.pushed_since
            &&& after.holder_user_id@ == who.user_id@
        }),
{
}

// ---- laws on the calls

/// A stored lease is live for five minutes from its last renewal, unless it was released.
pub proof fn a_lease_lasts_five_minutes(stored: Option<StoredLease>, now: i64, r: Option<&LeaseRow>)
    requires
        call_ensures(live_lease, (&stored, now), r),
    ensures
        r is Some <==> stored is Some && stored->0.released_at is None && now
            < stored->0.row.renewed_at + 300,
        r is Some ==> *r->0 == stored->0.row,
{
}

/// A stranger is answered as for a save that is not there, a private save has no lease, and anybody
/// else goes through with the access they have: alike for a look, an acquire, a renewal, a release
/// and a force, which then change nothing.
pub proof fn strangers_and_private_saves_are_refused(
    access: Option<SaveAccess>,
    stored: Option<StoredLease>,
    kept: &mut Option<StoredLease>,
    let_go: &mut Option<StoredLease>,
    taken: &mut Option<StoredLease>,
    head: Head,
    save_id: String,
    who: Claimant,
    now: i64,
    user_id: &str,
    pass: Result<SaveAccess, Refusal>,
    look: Result<Option<Lease>, Refusal>,
    got: Result<Acquired, Refusal>,
    renewed: Result<Lease, Refusal>,
    released: Result<LeaseEvent, Refusal>,
    forced: Result<LeaseEvent, Refusal>,
)
    requires
        call_ensures(require_shared_access, (access,), pass),
        call_ensures(get, (access, &stored, now), look),
        call_ensures(acquire, (access, &stored, &head, save_id, who, now), got),
        call_ensures(renew, (access, kept, now, user_id), renewed),
        call_ensures(release, (access, let_go, now, user_id), released),
        call_ensures(force, (access, taken, now), forced),
    ensures
        access is None ==> {
            &&& pass == Err::<SaveAccess, Refusal>(Refusal::SaveNotFound)
            &&& look == Err::<Option<Lease>, Refusal>(Refusal::SaveNotFound)
            &&& got == Err::<Acquired, Refusal>(Refusal::SaveNotFound)
            &&& renewed == Err::<Lease, Refusal>(Refusal::SaveNotFound)
            &&& released == Err::<LeaseEvent, Refusal>(Refusal::SaveNotFound)
            &&& forced == Err::<LeaseEvent, Refusal>(Refusal::SaveNotFound)
        },
        access is Some && access->0.group_id is None ==> {
            &&& pass == Err::<SaveAccess, Refusal>(Refusal::NotShared)
            &&& look == Err::<Option<Lease>, Refusal>(Refusal::NotShared)
            &&& got == Err::<Acquired, Refusal>(Refusal::NotShared)
            &&& renewed == Err::<Lease, Refusal>(Refusal::NotShared)
            &&& released == Err::<LeaseEvent, Refusal>(Refusal::NotShared)
            &&& forced == Err::<LeaseEvent, Refusal>(Refusal::NotShared)
        },
        access is Some && access->0.group_id is Some ==> pass is Ok && pass->Ok_0 == access->0
            && look is Ok,
        renewed is Err ==> *final(kept) == *old(kept),
        released is Err ==> *final(let_go) == *old(let_go),
        forced is Err ==> *final(taken) == *old(taken),
{
}

/// An acquire is refused to a member while somebody else's lease is live, with that lease; then to a
/// member whose version the save has moved past, with both versions; otherwise it is granted, and
/// the lease is the caller's from now, live, from their version and device. Taken afresh it starts
/// unpushed and is news; one's own refreshed keeps when it was taken and what was pushed, and is
/// none.
pub proof fn an_acquire_is_decided(
    access: Option<SaveAccess>,
    stored: Option<StoredLease>,
    head: Head,
    save_id: String,
    who: Claimant,
    now: i64,
    r: Result<Acquired, Refusal>,
)
    requires
        call_ensures(acquire, (access, &stored, &head, save_id, who, now), r),
        access is Some,
        access->0.group_id is Some,
    ensures
        ({
            let live = stored is Some && stored->0.released_at is None && now
                < stored->0.row.renewed_at + 300;
            let others = live && stored->0.row.holder_user_id@ != who.user_id@;
            let own = live && stored->0.row.holder_user_id@ == who.user_id@;
            let moved = head.version > who.base_version && (head.includes@.len() == 0
                || !same_world(views(head.includes@), head.at_base@, head.at_head@));
            &&& r is Ok <==> !others && !moved
            &&& others ==> r->Err_0 is Held && r->Err_0->Held_0.holder_user_id
                == stored->0.row.holder_user_id && r->Err_0->Held_0.holder_username
                == stored->0.row.holder_username && r->Err_0->Held_0.pushed_since
                == stored->0.row.pushed_since
            &&& !others && moved ==> r->Err_0 == (Refusal::Stale {
                head_version: head.version,
                base_version: who.base_version,
            })
            &&& r is Ok ==> {
                let row = r->Ok_0.stored.row;
                &&& r->Ok_0.stored.released_at is None
                &&& row.holder_user_id@ == who.user_id@
                &&& row.holder_device_fp == who.device_fp
                &&& row.renewed_at == now
                &&& row.base_version == who.base_version
                &&& !own ==> row.save_id == save_id && row.holder_username == who.username
                    && row.acquired_at == now && !row.pushed_since
                &&& own ==> row.save_id == stored->0.row.save_id && row.acquired_at
                    == stored->0.row.acquired_at && row.pushed_since
                    == stored->0.row.pushed_since && row.holder_username
                    == stored->0.row.holder_username
                &&& own ==> r->Ok_0.news is None
                &&& !own ==> r->Ok_0.news is Some && r->Ok_0.news->0.save_id == save_id
                    && r->Ok_0.news->0.holder_user_id == Some(who.user_id) && r->Ok_0.news->0.live
                    && !r->Ok_0.news->0.pushed_since
            }
        }),
{
}

/// What the holder pushed decides who may take the lease off them: a force is refused under a lease
/// that was pushed under, and where no live lease is held; otherwise it ends the lease, which anyone
/// may acquire then. The holder's own release ends it always, and nobody else's does.
pub proof fn leases_end(
    access: Option<SaveAccess>,
    released: &mut Option<StoredLease>,
    forced: &mut Option<StoredLease>,
    now: i64,
    user_id: &str,
    a: Result<LeaseEvent, Refusal>,
    b: Result<LeaseEvent, Refusal>,
)
    requires
        call_ensures(release, (access, released, now, user_id), a),
        call_ensures(force, (access, forced, now), b),
        access is Some,
        access->0.group_id is Some,
    ensures
        ({
            let s = *old(released);
            let live = s is Some && s->0.released_at is None && now < s->0.row.renewed_at + 300;
            &&& a is Ok <==> live && s->0.row.holder_user_id@ == user_id@
            &&& a is Err ==> a->Err_0 == Refusal::NotHolder
            &&& a is Ok ==> final(released)->0.released_at == Some(now) && final(released)->0.row
                == s->0.row && a->Ok_0.save_id == s->0.row.save_id
                && a->Ok_0.holder_user_id is None && !a->Ok_0.live && a->Ok_0.pushed_since
                == s->0.row.pushed_since
        }),
        ({
            let s = *old(forced);
            let live = s is Some && s->0.released_at is None && now < s->0.row.renewed_at + 300;
            &&& b is Ok <==> live && !s->0.row.pushed_since
            &&& !live ==> b == Err::<LeaseEvent, Refusal>(Refusal::NotHeld)
            &&& live && s->0.row.pushed_since ==> b is Err && b->Err_0 is Pushed
                && b->Err_0->Pushed_0.holder_user_id == s->0.row.holder_user_id
                && b->Err_0->Pushed_0.holder_username == s->0.row.holder_username
            &&& b is Ok ==> final(forced)->0.released_at == Some(now) && final(forced)->0.row
                == s->0.row && b->Ok_0.save_id == s->0.row.save_id
                && b->Ok_0.holder_user_id is None && !b->Ok_0.live
        }),
{
}

/// A heartbeat is the live holder's alone. It moves the renewal to now and nothing else, so that the
/// lease lives five minutes from there; a lease that went silent is not revived by one.
pub proof fn a_heartbeat_moves_the_renewal(
    access: Option<SaveAccess>,
    stored: &mut Option<StoredLease>,
    now: i64,
    user_id: &str,
    r: Result<Lease, Refusal>,
    later: i64,
    still: Option<&LeaseRow>,
)
    requires
        call_ensures(renew, (access, stored, now, user_id), r),
        access is Some,
        access->0.group_id is Some,
        call_ensures(live_lease, (final(stored), later), still),
    ensures
        ({
            let s = *old(stored);
            let live = s is Some && s->0.released_at is None && now < s->0.row.renewed_at + 300;
            &&& r is Ok <==> live && s->0.row.holder_user_id@ == user_id@
            &&& r is Err ==> r->Err_0 == Refusal::NotHolder
            &&& r is Ok ==> {
                &&& final(stored)->0.row == (LeaseRow { renewed_at: now, ..s->0.row })
                &&& (later < now + 300 <==> still is Some)
                &&& r->Ok_0.holder_user_id == s->0.row.holder_user_id
                &&& r->Ok_0.holder_username == s->0.row.holder_username
                &&& r->Ok_0.base_version == s->0.row.base_version
                &&& r->Ok_0.pushed_since == s->0.row.pushed_since
                &&& r->Ok_0.live
            }
        }),
{
}

/// The push gate lets the live holder through and, past an unchanged world that a share names, the
/// owner without the lease; the holder's push is marked and the owner's backup is not. Anybody else
/// is refused, and told who hosts where somebody does.
pub proof fn who_may_push(
    role: Role,
    includes: &[String],
    at_head: &[FileEntry],
    pushed: &[FileEntry],
    stored: Option<StoredLease>,
    now: i64,
    user_id: &str,
    r: Result<bool, Refusal>,
    unmoved: bool,
    host: Result<(), Refusal>,
)
    requires
        call_ensures(push_gate, (role, includes, at_head, pushed, &stored, now, user_id), r),
        call_ensures(world_unmoved, (includes, at_head, pushed), unmoved),
        call_ensures(require_host, (&stored, now, user_id), host),
    ensures
        ({
            let live = stored is Some && stored->0.released_at is None && now
                < stored->0.row.renewed_at + 300;
            let holds = live && stored->0.row.holder_user_id@ == user_id@;
            let backup = role == Role::Owner && includes@.len() > 0 && unmoved;
            &&& backup ==> r == Ok::<bool, Refusal>(false)
            &&& !backup && holds ==> r == Ok::<bool, Refusal>(true)
            &&& !backup && !holds ==> r is Err && r->Err_0 is LeaseRequired
            &&& host is Ok <==> holds
            &&& host is Err ==> host->Err_0 is LeaseRequired
            &&& !backup && !holds ==> (r->Err_0->LeaseRequired_0 is Some <==> live)
            &&& !backup && !holds && live ==> r->Err_0->LeaseRequired_0->0.holder_user_id
                == stored->0.row.holder_user_id && r->Err_0->LeaseRequired_0->0.holder_username
                == stored->0.row.holder_username
            &&& !holds ==> (host->Err_0->LeaseRequired_0 is Some <==> live)
        }),
{
    assert(views(includes@).len() == includes@.len());
}

/// A world is unmoved between two versions exactly when each file that the share names in the one is
/// in the other with the same content, and the other way round. Files it does not name do not count.
pub proof fn a_world_is_its_named_files(
    includes: &[String],
    a: &[FileEntry],
    b: &[FileEntry],
    r: bool,
    i: int,
)
    requires
        call_ensures(world_unmoved, (includes, a, b), r),
        0 <= i < a@.len(),
    ensures
        r && named_by(views(includes@), a@[i].path@) ==> exists|k: int|
            0 <= k < b@.len() && (#[trigger] b@[k]).path@ == a@[i].path@ && b@[k].sha@
                == a@[i].sha@,
        (forall|k: int|
            0 <= k < a@.len() ==> !named_by(views(includes@), (#[trigger] a@[k]).path@)) && (
        forall|k: int| 0 <= k < b@.len() ==> !named_by(views(includes@), (#[trigger] b@[k]).path@))
            ==> r,
        a@ == b@ ==> r,
{
    let list = views(includes@);
    if r && named_by(list, a@[i].path@) {
        assert(in_world(list, a@, a@[i].path@, a@[i].sha@));
        assert(in_world(list, b@, a@[i].path@, a@[i].sha@));
    }
}

/// A push marks the lease of the one who pushed and no other, and is told with their name; from then
/// on the lease cannot be forced.
pub proof fn a_push_is_marked(
    stored: &mut StoredLease,
    user_id: &str,
    save_id: &str,
    news: LeaseEvent,
)
    requires
        call_ensures(mark_pushed, (stored, user_id), ()),
        call_ensures(announce_push, (save_id, user_id), news),
    ensures
        old(stored).row.holder_user_id@ == user_id@ ==> final(stored).row.pushed_since,
        old(stored).row.holder_user_id@ != user_id@ ==> *final(stored) == *old(stored),
        final(stored).released_at == old(stored).released_at,
        final(stored).row.renewed_at == old(stored).row.renewed_at,
        final(stored).row.holder_user_id == old(stored).row.holder_user_id,
        final(stored).row.base_version == old(stored).row.base_version,
        news.save_id@ == save_id@,
        news.holder_user_id is Some && news.holder_user_id->0@ == user_id@,
        news.live && news.pushed_since,
{
}

/// A look shows the live lease, field by field under its own name, and nothing otherwise. The news
/// of a lease names its holder while it is live and nobody once it ended.
pub proof fn a_lease_is_shown_as_stored(
    access: Option<SaveAccess>,
    stored: Option<StoredLease>,
    now: i64,
    look: Result<Option<Lease>, Refusal>,
    row: LeaseRow,
    wire: Lease,
    news: LeaseEvent,
    ended: LeaseEvent,
)
    requires
        call_ensures(get, (access, &stored, now), look),
        call_ensures(LeaseRow::to_wire, (&row,), wire),
        call_ensures(LeaseRow::event, (&row,), news),
        call_ensures(LeaseRow::end_event, (&row,), ended),
    ensures
        look is Ok ==> (look->Ok_0 is Some <==> stored is Some && stored->0.released_at is None
            && now < stored->0.row.renewed_at + 300),
        look is Ok && look->Ok_0 is Some && stored->0.row == row ==> look->Ok_0->0 == wire,
        wire.save_id@ == row.save_id@,
        wire.holder_user_id@ == row.holder_user_id@,
        wire.holder_username@ == row.holder_username@,
        wire.holder_device_fp == row.holder_device_fp,
        wire.acquired_at == utc_second(row.acquired_at as int),
        wire.renewed_at == utc_second(row.renewed_at as int),
        wire.base_version == row.base_version,
        wire.pushed_since == row.pushed_since,
        wire.live,
        news.save_id@ == row.save_id@ && ended.save_id@ == row.save_id@,
        news.holder_user_id == Some(row.holder_user_id) && news.live,
        ended.holder_user_id is None && !ended.live,
        news.pushed_since == row.pushed_since && ended.pushed_since == row.pushed_since,
{
}

/// A member who leaves takes their own live lease with them and nobody else's.
pub proof fn a_leaver_takes_their_lease_along(
    stored: &mut Option<StoredLease>,
    now: i64,
    user_id: &str,
    r: Option<LeaseEvent>,
)
    requires
        call_ensures(end_lease_held_by, (stored, now, user_id), r),
    ensures
        r is Some <==> *old(stored) is Some && old(stored)->0.released_at is None && now
            < old(stored)->0.row.renewed_at + 300 && old(stored)->0.row.holder_user_id@ == user_id@,
        r is None ==> *final(stored) == *old(stored),
        r is Some ==> final(stored)->0.released_at == Some(now) && final(stored)->0.row
            == old(stored)->0.row && r->0.save_id == old(stored)->0.row.save_id
            && r->0.holder_user_id is None && !r->0.live,
{
}

/// A device is known by its header without the space around it, and not by an empty one.
pub proof fn a_device_is_known_by_its_header(header: Option<&str>, r: Option<String>)
    requires
        call_ensures(device_fp, (header,), r),
    ensures
        header is None ==> r is None,
        header is Some ==> (r is None <==> trimmed(header->0@).len() == 0),
        r is Some ==> r->0@ == trimmed(header->0@),
{
}

} // verus!
