//! Who hosts a shared save, from the server's side.

use hoard::clock::Moment;
use hoard::server::access::{save_access, Role, SaveAccess, SaveStanding};
use hoard::server::leases::{
    acquire, announce_push, device_fp, end_lease_held_by, force, get, mark_pushed, push_gate, release,
    renew, world_unmoved, Claimant, Head, StoredLease, LEASE_TTL_SECS,
};
use hoard::server::reply::Refusal;
use hoard::server::share::{unshare, Check, Moving, Whereabouts};
use hoard::wire::{FileEntry, Lease, LeaseEvent};

const OWNER: &str = "u-owner";
const MEMBER: &str = "u-member";
const PAYER: &str = "u-payer";
const EVE: &str = "u-eve";

/// A shared save of two versions, its lease and the news that went out.
struct Shared {
    group: Option<String>,
    includes: Vec<String>,
    versions: Vec<Vec<(String, String)>>,
    stored: Option<StoredLease>,
    news: Vec<LeaseEvent>,
    now: i64,
}

fn version(files: &[(&str, &str)]) -> Vec<(String, String)> {
    files
        .iter()
        .map(|(p, s)| (p.to_string(), s.to_string()))
        .collect()
}

fn shared_with(includes: &[&str]) -> Shared {
    Shared {
        group: Some("g1".into()),
        includes: includes.iter().map(|s| s.to_string()).collect(),
        versions: vec![
            version(&[("world.db", "a"), ("world.fwl", "b")]),
            version(&[("world.db", "a"), ("world.fwl", "c")]),
        ],
        stored: None,
        news: Vec::new(),
        now: 1_800_000_000,
    }
}

fn shared() -> Shared {
    shared_with(&[])
}

fn name(who: &str) -> &str {
    match who {
        OWNER => "alice",
        MEMBER => "tom",
        PAYER => "pat",
        _ => "eve",
    }
}

impl Shared {
    fn access(&self, who: &str) -> Option<SaveAccess> {
        let standing = SaveStanding {
            game_slug: "valheim".into(),
            label: "main".into(),
            owner_user_id: OWNER.into(),
            group_id: self.group.clone(),
            caller_in_group: who != EVE,
        };
        save_access(Some(standing), who)
    }

    fn files(&self, version: i64) -> Vec<FileEntry> {
        if version < 1 {
            return Vec::new();
        }
        self.versions[version as usize - 1]
            .iter()
            .map(|(path, sha)| FileEntry {
                path: path.clone(),
                sha: sha.clone(),
            })
            .collect()
    }

    fn head(&self) -> i64 {
        self.versions.len() as i64
    }

    fn acquire_from(&mut self, who: &str, base: i64, fp: Option<&str>) -> Result<Lease, Refusal> {
        let head = Head {
            version: self.head(),
            includes: self.includes.clone(),
            at_base: self.files(base),
            at_head: self.files(self.head()),
        };
        let claimant = Claimant {
            user_id: who.into(),
            username: name(who).into(),
            device_fp: device_fp(fp),
            base_version: base,
        };
        let taken = acquire(
            self.access(who),
            &self.stored,
            &head,
            "s1".into(),
            claimant,
            self.now,
        )?;
        self.news.extend(taken.news);
        let wire = taken.stored.row.to_wire();
        self.stored = Some(taken.stored);
        Ok(wire)
    }

    fn acquire(&mut self, who: &str, base: i64) -> Result<Lease, Refusal> {
        self.acquire_from(who, base, None)
    }

    fn lease(&self, who: &str) -> Result<Option<Lease>, Refusal> {
        get(self.access(who), &self.stored, self.now)
    }

    fn renew(&mut self, who: &str) -> Result<Lease, Refusal> {
        renew(self.access(who), &mut self.stored, self.now, who)
    }

    fn release(&mut self, who: &str) -> Result<(), Refusal> {
        let end = release(self.access(who), &mut self.stored, self.now, who)?;
        self.news.push(end);
        Ok(())
    }

    fn force(&mut self, who: &str) -> Result<(), Refusal> {
        let end = force(self.access(who), &mut self.stored, self.now)?;
        self.news.push(end);
        Ok(())
    }

    fn push(&mut self, who: &str, files: &[(&str, &str)]) -> Result<i64, Refusal> {
        let access = self.access(who).ok_or(Refusal::SaveNotFound)?;
        let pushed: Vec<FileEntry> = files
            .iter()
            .map(|(p, s)| FileEntry {
                path: p.to_string(),
                sha: s.to_string(),
            })
            .collect();
        let hosted = push_gate(
            access.role,
            &self.includes,
            &self.files(self.head()),
            &pushed,
            &self.stored,
            self.now,
            who,
        )?;
        self.versions.push(version(files));
        if hosted {
            mark_pushed(self.stored.as_mut().unwrap(), who);
            self.news.push(announce_push("s1", who));
        }
        Ok(self.head())
    }

    /// A third version: `world.db` kept, `world.fwl` new.
    fn push_as(&mut self, who: &str) -> Result<i64, Refusal> {
        self.push(who, &[("world.db", "a"), ("world.fwl", "d")])
    }
}

fn refused<T>(r: Result<T, Refusal>) -> (u16, Option<&'static str>) {
    match r {
        Ok(_) => panic!("not refused"),
        Err(e) => (e.status(), e.code()),
    }
}

#[test]
fn a_member_acquires_a_live_lease_everyone_can_read() {
    let mut s = shared();
    let l = s.acquire(MEMBER, 2).unwrap();
    assert_eq!(l.holder_user_id, MEMBER);
    assert_eq!(l.holder_username, "tom");
    assert_eq!(l.base_version, 2);
    assert!(l.live && !l.pushed_since);
    assert_eq!(l.acquired_at, l.renewed_at);
    assert!(l.holder_device_fp.is_none());
    for who in [OWNER, PAYER] {
        let seen = s.lease(who).unwrap().expect("visible");
        assert_eq!(seen.holder_user_id, MEMBER);
    }
}

#[test]
fn acquire_records_the_device_fingerprint_header() {
    let mut s = shared();
    let l = s.acquire_from(MEMBER, 2, Some(" fp-tom-desk ")).unwrap();
    assert_eq!(l.holder_device_fp.as_deref(), Some("fp-tom-desk"));
    assert_eq!(device_fp(Some("  ")), None);
    assert_eq!(device_fp(None), None);
}

#[test]
fn a_second_members_acquire_is_409_held_with_the_holder() {
    let mut s = shared();
    s.acquire(MEMBER, 2).unwrap();
    let Err(Refusal::Held(l)) = s.acquire(PAYER, 2) else {
        panic!("held");
    };
    assert_eq!(l.holder_user_id, MEMBER);
    assert_eq!(refused(s.acquire(OWNER, 2)), (409, Some("held")));
}

/// Taking one's own live lease again is a refresh: same `acquired_at`, and a push already made
/// under it stays recorded.
#[test]
fn reacquiring_ones_own_lease_refreshes_it_and_keeps_pushed_since() {
    let mut s = shared();
    let first = s.acquire(MEMBER, 2).unwrap();
    s.push_as(MEMBER).unwrap();
    s.now += 100;
    let again = s.acquire(MEMBER, 3).unwrap();
    assert_eq!(again.acquired_at, first.acquired_at);
    assert_eq!(again.renewed_at, Moment::utc(s.now));
    assert!(again.pushed_since);
    assert_eq!(again.base_version, 3);
    assert_eq!(s.news.len(), 2, "a refresh is no news");
}

#[test]
fn acquire_with_a_stale_base_is_409_stale_with_the_head() {
    let mut s = shared();
    let r = s.acquire(MEMBER, 1);
    assert!(matches!(
        r,
        Err(Refusal::Stale { head_version: 2, base_version: 1 })
    ));
    assert_eq!(refused(r), (409, Some("stale")));
    assert!(s.lease(MEMBER).unwrap().is_none());
}

#[test]
fn renew_moves_renewed_at_and_is_refused_to_everyone_else() {
    let mut s = shared();
    let l = s.acquire(MEMBER, 2).unwrap();
    s.now += 100;
    let renewed = s.renew(MEMBER).unwrap();
    assert_eq!(renewed.renewed_at, Moment::utc(s.now));
    assert_eq!(renewed.acquired_at, l.acquired_at);
    assert_eq!(s.stored.as_ref().unwrap().row.renewed_at, s.now);
    assert_eq!(refused(s.renew(PAYER)), (409, Some("not_holder")));
    assert_eq!(refused(s.renew(OWNER)), (409, Some("not_holder")));
    assert_eq!(s.news.len(), 1, "a renewal is no news");
}

#[test]
fn an_expired_lease_reads_as_none_and_another_member_takes_it() {
    let mut s = shared();
    s.acquire(MEMBER, 2).unwrap();
    s.now += LEASE_TTL_SECS - 1;
    assert!(s.lease(OWNER).unwrap().is_some(), "live to its last second");
    s.now += 1;
    assert!(s.lease(OWNER).unwrap().is_none());
    // Expired means gone: the old holder acquires again rather than renews.
    assert_eq!(refused(s.renew(MEMBER)), (409, Some("not_holder")));
    let l = s.acquire(PAYER, 2).unwrap();
    assert_eq!(l.holder_user_id, PAYER);
    assert!(!l.pushed_since);
}

#[test]
fn release_frees_the_save_for_the_next_member() {
    let mut s = shared();
    s.acquire(MEMBER, 2).unwrap();
    assert_eq!(refused(s.release(PAYER)), (409, Some("not_holder")));
    s.release(MEMBER).unwrap();
    assert!(s.lease(MEMBER).unwrap().is_none());
    assert_eq!(refused(s.release(MEMBER)), (409, Some("not_holder")));
    assert_eq!(s.acquire(PAYER, 2).unwrap().holder_user_id, PAYER);
}

#[test]
fn a_push_without_the_lease_is_409_lease_required_for_member_and_owner() {
    let mut s = shared();
    for who in [MEMBER, OWNER, PAYER] {
        let r = s.push_as(who);
        assert!(matches!(r, Err(Refusal::LeaseRequired(None))), "nobody to name");
        assert_eq!(refused(r), (409, Some("lease_required")));
    }
    assert_eq!(s.head(), 2, "nothing landed");
    // With a holder, the refusal names them.
    s.acquire(MEMBER, 2).unwrap();
    let Err(Refusal::LeaseRequired(Some(l))) = s.push_as(OWNER) else {
        panic!("not the host");
    };
    assert_eq!(l.holder_user_id, MEMBER);
}

#[test]
fn with_the_lease_a_push_succeeds_and_pushed_since_flips() {
    let mut s = shared();
    assert!(!s.acquire(MEMBER, 2).unwrap().pushed_since);
    assert_eq!(s.push_as(MEMBER).unwrap(), 3);
    let l = s.lease(OWNER).unwrap().expect("still held");
    assert!(l.pushed_since);
    assert_eq!(l.holder_user_id, MEMBER);
}

/// The commit checks again: a lease lost between init and commit refuses the commit.
#[test]
fn a_lease_lost_between_init_and_commit_refuses_the_commit() {
    let mut s = shared();
    s.acquire(MEMBER, 2).unwrap();
    s.force(PAYER).unwrap();
    s.acquire(PAYER, 2).unwrap();
    let Err(Refusal::LeaseRequired(Some(l))) = s.push_as(MEMBER) else {
        panic!("the lease moved");
    };
    assert_eq!(l.holder_user_id, PAYER);
    assert_eq!(s.head(), 2);
}

#[test]
fn force_is_204_before_a_push_and_409_pushed_after_one() {
    let mut s = shared();
    s.acquire(MEMBER, 2).unwrap();
    s.force(PAYER).unwrap();
    assert!(s.lease(PAYER).unwrap().is_none());
    // The forcing member does not inherit it: acquire runs the head check.
    assert_eq!(s.acquire(PAYER, 2).unwrap().holder_user_id, PAYER);
    s.release(PAYER).unwrap();

    s.acquire(MEMBER, 2).unwrap();
    s.push_as(MEMBER).unwrap();
    let Err(Refusal::Pushed(l)) = s.force(PAYER) else {
        panic!("they pushed");
    };
    assert_eq!(l.holder_user_id, MEMBER);
    let l = s.lease(PAYER).unwrap().expect("still held");
    assert_eq!(l.holder_user_id, MEMBER);
}

#[test]
fn force_on_no_live_lease_is_409_not_held() {
    let mut s = shared();
    assert_eq!(refused(s.force(MEMBER)), (409, Some("not_held")));
    s.acquire(MEMBER, 2).unwrap();
    s.now += LEASE_TTL_SECS + 1;
    assert_eq!(refused(s.force(PAYER)), (409, Some("not_held")));
}

#[test]
fn unshare_while_a_member_holds_a_live_lease_is_409_lease_held() {
    let mut s = shared();
    s.acquire(MEMBER, 2).unwrap();
    let here = || {
        Some(Whereabouts {
            owner: OWNER.into(),
            group: Some("g1".into()),
        })
    };
    let mv = unshare(s.access(OWNER)).unwrap();
    let mut moving = Moving::begin(mv, here()).unwrap();
    let live = |s: &Shared| s.lease(OWNER).unwrap().is_some();
    let none = Vec::new();
    assert_eq!(moving.check(&here(), &none, &none, live(&s)), Check::LeaseHeld);
    s.release(MEMBER).unwrap();
    assert_eq!(
        moving.check(&here(), &none, &none, live(&s)),
        Check::Go { end_lease: false }
    );
    assert_eq!(Refusal::LeaseHeld.code(), Some("lease_held"));
    assert!(matches!(unshare(s.access(MEMBER)), Err(Refusal::NotSaveOwner)));
}

#[test]
fn an_unshared_saves_lease_routes_answer_409_not_shared() {
    let mut s = shared();
    s.group = None;
    let no = (409, Some("not_shared"));
    assert_eq!(refused(s.lease(OWNER)), no);
    assert_eq!(refused(s.acquire(OWNER, 1)), no);
    assert_eq!(refused(s.renew(OWNER)), no);
    assert_eq!(refused(s.release(OWNER)), no);
    assert_eq!(refused(s.force(OWNER)), no);
}

#[test]
fn a_stranger_gets_404_on_every_lease_route() {
    let mut s = shared();
    s.acquire(MEMBER, 2).unwrap();
    assert_eq!(refused(s.lease(EVE)).0, 404);
    assert_eq!(refused(s.acquire(EVE, 2)).0, 404);
    assert_eq!(refused(s.renew(EVE)).0, 404);
    assert_eq!(refused(s.release(EVE)).0, 404);
    assert_eq!(refused(s.force(EVE)).0, 404);
    let l = s.lease(OWNER).unwrap().expect("untouched");
    assert_eq!(l.holder_user_id, MEMBER);
}

/// A member's session is three pieces of news: acquired, pushed, released.
#[test]
fn lease_and_save_frames_reach_the_owner_and_the_other_member() {
    let mut s = shared();
    s.acquire(MEMBER, 2).unwrap();
    s.push_as(MEMBER).unwrap();
    s.release(MEMBER).unwrap();
    let leases = &s.news;
    assert_eq!(leases.len(), 3, "acquired, pushed, released");
    assert_eq!(leases[0].holder_user_id.as_deref(), Some(MEMBER));
    assert!(leases[0].live && !leases[0].pushed_since);
    assert_eq!(leases[1].holder_user_id.as_deref(), Some(MEMBER));
    assert!(leases[1].live && leases[1].pushed_since);
    assert!(leases[2].holder_user_id.is_none());
    assert!(!leases[2].live && leases[2].pushed_since);
}

/// The owner's backup of what the list leaves out goes without the lease and is no lease news.
#[test]
fn an_owner_backup_past_an_unchanged_world_publishes_no_lease_frame() {
    let mut s = shared_with(&["world.db"]);
    assert_eq!(s.push_as(OWNER).unwrap(), 3);
    assert!(s.news.is_empty(), "no lease frame");
    assert!(s.lease(MEMBER).unwrap().is_none());
    // A member's push, and a push of another world, need the lease as before.
    assert_eq!(refused(s.push_as(MEMBER)), (409, Some("lease_required")));
    assert_eq!(
        refused(s.push(OWNER, &[("world.db", "z")])),
        (409, Some("lease_required"))
    );
}

/// Acquire accepts a head that moved only outside the list, and is stale again once a hosted push
/// changed the world.
#[test]
fn acquire_is_stale_only_when_the_world_moved() {
    let mut s = shared_with(&["world.db"]);
    s.push_as(OWNER).unwrap();
    assert_eq!(s.acquire(MEMBER, 2).unwrap().base_version, 2);
    let head = s
        .push(MEMBER, &[("world.db", "w"), ("world.fwl", "d")])
        .unwrap();
    assert_eq!(head, 4);
    s.release(MEMBER).unwrap();
    for base in [2, 3] {
        let Err(Refusal::Stale { head_version, .. }) = s.acquire(PAYER, base) else {
            panic!("stale");
        };
        assert_eq!(head_version, 4);
    }
    s.acquire(PAYER, 4).unwrap();
}

/// The host leaves the group: the lease ends and another member can host, even though they pushed.
#[test]
fn removing_the_host_frees_the_lease_for_the_next_member() {
    let mut s = shared();
    s.acquire(MEMBER, 2).unwrap();
    s.push_as(MEMBER).unwrap();
    assert!(s.lease(OWNER).unwrap().is_some_and(|l| l.pushed_since));
    assert!(end_lease_held_by(&mut s.stored, s.now, PAYER).is_none());
    let end = end_lease_held_by(&mut s.stored, s.now, MEMBER).unwrap();
    assert!(!end.live && end.holder_user_id.is_none());
    assert!(s.lease(OWNER).unwrap().is_none());
    assert_eq!(s.acquire(OWNER, 3).unwrap().holder_user_id, OWNER);
}

#[test]
fn a_world_is_its_named_files_whatever_their_order() {
    let files = |list: &[(&str, &str)]| -> Vec<FileEntry> {
        list.iter()
            .map(|(p, s)| FileEntry {
                path: p.to_string(),
                sha: s.to_string(),
            })
            .collect()
    };
    let includes = vec!["w/*".to_string()];
    let a = files(&[("w/1", "a"), ("w/2", "b"), ("x", "c")]);
    assert!(world_unmoved(&includes, &a, &files(&[("w/2", "b"), ("w/1", "a")])));
    assert!(!world_unmoved(&includes, &a, &files(&[("w/1", "a")])));
    assert!(!world_unmoved(&includes, &a, &files(&[("w/1", "b"), ("w/2", "a")])));
}

#[test]
fn an_owner_is_told_from_a_member() {
    let s = shared();
    assert_eq!(s.access(OWNER).unwrap().role, Role::Owner);
    assert_eq!(s.access(MEMBER).unwrap().role, Role::Member);
    assert!(s.access(EVE).is_none());
}
