//! Moving a save's content into a group's namespace and back.

use hoard::server::access::{Role, SaveAccess};
use hoard::server::groups::{remove_member, removed};
use hoard::server::leases::require_shared_access;
use hoard::server::namespace::{Namespace, Table};
use hoard::server::reply::Refusal;
use hoard::server::saves::{delete, may_delete, DeleteStep};
use hoard::server::settle::{
    can_settle, fits, move_record, revived, settle, MoveRecord, Shelf,
};
use hoard::server::share::{
    chunk_refs, first_outside_include, include_column, include_for, kept_growing, kept_moving, move_err,
    refs_hold,
    share, take_back, take_back_failed, taken_back_with, unshare, Check, Move, MoveError, Moving, Ref,
    ShareRow, TakeBack, Whereabouts,
};
use hoard::server::store;
use std::collections::BTreeSet;

const OWNER: &str = "u-owner";
const GROUP: &str = "g1";

const A: i64 = 30_000;
const B: i64 = 10_000;
const C: i64 = 20_000;
const TOTAL: i64 = A + B + C;

/// The hashes of three files: the first is in two versions.
fn sha(c: char) -> String {
    c.to_string().repeat(64)
}

/// Two namespaces with their rows and objects, one save of two versions, and who pays what.
struct Server {
    group: Option<String>,
    include_json: Option<String>,
    user: Shelf,
    theirs: Shelf,
    objects: BTreeSet<String>,
    owner_used: i64,
    payer_used: i64,
    group_used: i64,
    refs: Vec<(char, i64, i64)>,
    lease_live: bool,
    pushes: u8,
}

fn shelf() -> Shelf {
    Shelf {
        blobs: Table::new(),
        chunks: Table::new(),
    }
}

fn two_versions() -> Server {
    let mut user = shelf();
    let mut objects = BTreeSet::new();
    let refs = vec![('a', A, 2), ('b', B, 1), ('c', C, 1)];
    for (c, size, count) in &refs {
        user.blobs.incref(&sha(*c), *size, *count);
        objects.insert(store::blob_key(OWNER, &sha(*c)));
    }
    Server {
        group: None,
        include_json: None,
        user,
        theirs: shelf(),
        objects,
        owner_used: TOTAL,
        payer_used: 0,
        group_used: 0,
        refs,
        lease_live: false,
        pushes: 0,
    }
}

impl Server {
    fn access(&self, who: &str) -> Option<SaveAccess> {
        if who == OWNER || self.group.is_some() {
            Some(SaveAccess {
                game_slug: "valheim".into(),
                label: "main".into(),
                owner_user_id: OWNER.into(),
                role: if who == OWNER { Role::Owner } else { Role::Member },
                group_id: self.group.clone(),
            })
        } else {
            None
        }
    }

    fn here(&self) -> Option<Whereabouts> {
        Some(Whereabouts {
            owner: OWNER.into(),
            group: self.group.clone(),
        })
    }

    fn blobs(&self) -> Vec<Ref> {
        self.refs
            .iter()
            .map(|(c, size, count)| Ref {
                sha: sha(*c),
                size: *size,
                count: *count,
            })
            .collect()
    }

    /// A push that lands while a move copies.
    fn pushed_meanwhile(&mut self) {
        if self.pushes == 0 {
            return;
        }
        self.pushes -= 1;
        let c = char::from(b'd' + self.pushes);
        self.refs.push((c, 10, 1));
        match &self.group {
            None => {
                self.user.blobs.incref(&sha(c), 10, 1);
                self.objects.insert(store::blob_key(OWNER, &sha(c)));
                self.owner_used += 10;
            }
            Some(_) => panic!("only private saves are pushed to here"),
        }
    }

    fn run(&mut self, mv: Move) -> Result<(MoveRecord, bool), MoveError> {
        let mut moving = Moving::begin(mv, self.here())?;
        let none: Vec<Ref> = Vec::new();
        loop {
            for copy in moving.copy_round(&self.blobs(), &none) {
                assert!(self.objects.contains(&copy.src), "copied from where it is");
                self.objects.insert(copy.dst);
            }
            self.pushed_meanwhile();
            match moving.check(&self.here(), &self.blobs(), &none, self.lease_live) {
                Check::Changed => return Err(MoveError::Changed),
                Check::LeaseHeld => return Err(MoveError::LeaseHeld),
                Check::GiveUp => return Err(kept_growing()),
                Check::CopyAgain => continue,
                Check::Go { end_lease } => {
                    if end_lease {
                        self.lease_live = false;
                    }
                    let blobs = self.blobs();
                    let into_group = matches!(moving.mv, Move::Share { .. });
                    let (from, to) = if into_group {
                        (&mut self.user, &mut self.theirs)
                    } else {
                        (&mut self.theirs, &mut self.user)
                    };
                    let settlement = settle(&moving.from, from, to, &blobs, &none);
                    let (gained, freed) = (settlement.bytes_moved, settlement.bytes_freed);
                    if into_group {
                        moving.to.charge(&mut self.payer_used, &mut self.group_used, gained);
                        moving.from.charge(&mut self.owner_used, &mut self.group_used, -freed);
                    } else {
                        moving.to.charge(&mut self.owner_used, &mut self.group_used, gained);
                        moving.from.charge(&mut self.payer_used, &mut self.group_used, -freed);
                    }
                    let record =
                        move_record(&moving.mv, &moving.from, &blobs, &none, &settlement, end_lease);
                    for orphan in &settlement.orphans {
                        assert!(!orphan.is_chunk);
                        self.objects.remove(&orphan.key);
                    }
                    let row = moving.share_row();
                    self.include_json = row.as_ref().and_then(|r| r.include_json.clone());
                    self.group = row.map(|r| r.group_id);
                    return Ok((record, end_lease));
                }
            }
        }
    }

    fn share(&mut self, who: &str, includes: &[&str]) -> Result<MoveRecord, Refusal> {
        let list: Vec<String> = includes.iter().map(|s| s.to_string()).collect();
        let mv = share(None, self.access(who), true, GROUP.into(), &list)?;
        self.run(mv).map(|r| r.0).map_err(move_err)
    }

    fn unshare(&mut self, who: &str) -> Result<MoveRecord, Refusal> {
        let mv = unshare(self.access(who))?;
        self.run(mv).map(|r| r.0).map_err(move_err)
    }

    fn user_blob(&self, c: char) -> Option<(i64, i64)> {
        let s = sha(c);
        Some((self.user.blobs.refcount(&s)?, self.user.blobs.size(&s)?))
    }

    fn group_blob(&self, c: char) -> Option<(i64, i64)> {
        let s = sha(c);
        Some((self.theirs.blobs.refcount(&s)?, self.theirs.blobs.size(&s)?))
    }

    fn stored_for_user(&self, c: char) -> bool {
        self.objects
            .contains(&Namespace::User(OWNER.into()).blob_key(&sha(c)))
    }

    fn stored_for_group(&self, c: char) -> bool {
        self.objects
            .contains(&Namespace::Group(GROUP.into()).blob_key(&sha(c)))
    }

    /// The save is where it started: the owner's rows, objects and bill.
    fn assert_back_with_owner(&self) {
        for (c, size, count) in [('a', A, 2), ('b', B, 1), ('c', C, 1)] {
            assert_eq!(self.user_blob(c), Some((count, size)));
            assert_eq!(self.group_blob(c), None);
            assert!(self.stored_for_user(c) && !self.stored_for_group(c));
        }
        assert_eq!(self.owner_used, TOTAL);
        assert_eq!((self.payer_used, self.group_used), (0, 0));
        assert!(self.group.is_none());
    }
}

#[test]
fn user_keys_are_the_store_keys_and_group_keys_sit_apart() {
    let sha = "ab".to_string() + &"0".repeat(62);
    let user = Namespace::User("u1".into());
    assert_eq!(user.blob_key(&sha), store::blob_key("u1", &sha));
    assert_eq!(user.chunk_key(&sha), store::chunk_key("u1", &sha));
    let group = Namespace::Group("g1".into());
    assert_eq!(group.blob_key(&sha), format!("blobs/group/g1/ab/{sha}"));
    assert_eq!(group.chunk_key(&sha), format!("chunks/group/g1/ab/{sha}"));
    assert_eq!(group.dir("blobs"), "blobs/group/g1");
}

#[test]
fn a_namespace_has_one_payer() {
    assert_eq!(Namespace::of("u1", None), Namespace::User("u1".into()));
    assert_eq!(Namespace::of("u1", Some("g1")), Namespace::Group("g1".into()));
    let user = Namespace::User("u1".into());
    let group = Namespace::Group("g1".into());
    assert_eq!(user.billing_user("u9"), "u1");
    assert_eq!(group.billing_user("u9"), "u9");
    let (mut used, mut mirrored) = (10, 20);
    user.charge(&mut used, &mut mirrored, -15);
    assert_eq!((used, mirrored), (0, 20), "floored at zero");
    group.charge(&mut used, &mut mirrored, 5);
    assert_eq!((used, mirrored), (5, 25));
    assert_eq!(user.dir("chunks"), "chunks/u1");
    assert_eq!(user.clone(), user);
}

/// Sharing moves the bytes: the owner's rows and objects go, the group's arrive with the same
/// refcounts, and the bill moves from the owner to the group's owner byte for byte.
#[test]
fn share_moves_blobs_rows_files_and_quota_to_the_group() {
    let mut s = two_versions();
    assert_eq!(s.user_blob('a'), Some((2, A)));
    let record = s.share(OWNER, &[]).unwrap();
    for (c, size, count) in [('a', A, 2), ('b', B, 1), ('c', C, 1)] {
        assert_eq!(s.user_blob(c), None, "the owner's row is gone");
        assert_eq!(s.group_blob(c), Some((count, size)));
        assert!(s.stored_for_group(c) && !s.stored_for_user(c));
    }
    assert_eq!(s.owner_used, 0);
    assert_eq!(s.payer_used, TOTAL);
    assert_eq!(s.group_used, TOTAL);
    assert_eq!(record.event(), "save.shared");
    assert_eq!(record.group_id.as_deref(), Some(GROUP));
    assert_eq!((record.blobs, record.chunks), (3, 0));
    assert_eq!((record.bytes_moved, record.bytes_freed), (TOTAL, TOTAL));
    assert!(!record.lease_ended);
}

/// Unsharing is the exact reverse move, refused while a member holds a live lease, and refused
/// again once there is nothing to reverse.
#[test]
fn unshare_reverses_the_move_and_a_second_one_is_409() {
    let mut s = two_versions();
    s.share(OWNER, &[]).unwrap();
    s.lease_live = true;
    let e = s.unshare(OWNER).unwrap_err();
    assert_eq!((e.status(), e.code()), (409, Some("lease_held")));
    s.lease_live = false;
    let record = s.unshare(OWNER).unwrap();
    assert_eq!(record.event(), "save.unshared");
    assert_eq!(record.group_id.as_deref(), Some(GROUP));
    s.assert_back_with_owner();
    let e = s.unshare(OWNER).unwrap_err();
    assert_eq!((e.status(), e.code()), (409, Some("not_shared")));
}

/// A round copies every object once, and there and back the store holds what it held: also what
/// the group held before, and what the owner keeps for another save.
#[test]
fn a_share_and_its_return_leave_every_key_in_place() {
    let mut s = two_versions();
    s.user.blobs.incref(&sha('b'), B, 3);
    s.theirs.blobs.incref(&sha('c'), C, 1);
    s.objects.insert(Namespace::Group(GROUP.into()).blob_key(&sha('c')));
    s.payer_used = C;
    s.group_used = C;
    let objects = s.objects.clone();
    s.share(OWNER, &["Alpha.db"]).unwrap();
    assert!(s.stored_for_user('b') && s.stored_for_group('b'), "another save of theirs needs it");
    assert!(!s.stored_for_user('c') && s.stored_for_group('c'));
    assert_eq!((s.owner_used, s.payer_used), (B, TOTAL));
    assert_eq!(s.include_json.as_deref(), Some(r#"["Alpha.db"]"#));
    assert_eq!(s.run(Move::Unshare).unwrap().1, false, "no lease was ended");
    assert_eq!(s.objects, objects);
    assert_eq!(s.user_blob('b'), Some((4, B)));
    assert_eq!(s.group_blob('c'), Some((1, C)));
    assert_eq!(s.group_blob('a'), None);
    assert_eq!((s.owner_used, s.payer_used, s.group_used), (TOTAL, C, C));
    assert_eq!((s.group.clone(), s.include_json.clone()), (None, None));

    let both = vec![Ref { sha: sha('a'), size: A, count: 2 }];
    let mv = Move::Share { group_id: GROUP.into(), include_json: None };
    let mut moving = Moving::begin(mv, s.here()).unwrap();
    let copies = moving.copy_round(&both, &both);
    let kinds: Vec<bool> = copies.iter().map(|c| c.is_chunk).collect();
    assert_eq!(kinds, [false, true], "a hash is copied once as a blob and once as a chunk");
    assert!(moving.copy_round(&both, &both).is_empty());
    assert_eq!(
        moving.share_row(),
        Some(ShareRow { group_id: GROUP.into(), include_json: None })
    );
}

/// A group the caller is not in reads as unknown; a second share is a conflict; a member cannot
/// share the owner's save.
#[test]
fn share_refuses_foreign_groups_and_double_shares() {
    let mut s = two_versions();
    let none = Vec::new();
    let r = share(None, s.access(OWNER), false, "no-such-group".into(), &none);
    assert_eq!(r.unwrap_err().status(), 404);
    // Before the share the member is a stranger to the save; after it they are a member, and still
    // not allowed to share.
    assert_eq!(s.share("u-member", &[]).unwrap_err().status(), 404);
    s.share(OWNER, &[]).unwrap();
    let e = s.share(OWNER, &[]).unwrap_err();
    assert_eq!((e.status(), e.code()), (409, Some("already_shared")));
    assert_eq!(s.share("u-member", &[]).unwrap_err().status(), 403);
    assert_eq!(s.payer_used, TOTAL, "charged once");
}

/// The list travels with the share, and unsharing forgets it.
#[test]
fn the_include_list_is_stored_with_the_share_and_listed_to_everyone() {
    let mut s = two_versions();
    let list = [
        "worlds_local/Alpha.db",
        "worlds_local/Alpha.fwl",
        "worlds_local/Alpha_backup_*",
    ];
    s.share(OWNER, &list).unwrap();
    assert_eq!(
        s.include_json.as_deref(),
        Some(
            r#"["worlds_local/Alpha.db","worlds_local/Alpha.fwl","worlds_local/Alpha_backup_*"]"#
        )
    );
    assert_eq!(include_for(&s.include_json), list);
    s.unshare(OWNER).unwrap();
    s.share(OWNER, &[]).unwrap();
    assert_eq!(s.include_json, None);
    assert!(include_for(&s.include_json).is_empty());
    assert!(include_for(&Some("{}".into())).is_empty(), "not a list");
    assert_eq!(include_column(&Vec::new()), None);
}

/// A name with quotes in it comes back as it went in.
#[test]
fn a_quoted_name_survives_the_column() {
    let list = vec![r#"worlds_local/"Alpha".fwl"#.to_string()];
    let column = include_column(&list);
    assert_eq!(column.as_deref(), Some(r#"["worlds_local/\"Alpha\".fwl"]"#));
    assert_eq!(include_for(&column), list);
}

/// The list is enforced where it cannot be forgotten: the first file that the share does not name.
#[test]
fn a_push_outside_the_include_list_is_refused() {
    let list: Vec<String> = vec!["worlds_local/Alpha.db".into(), "worlds_local/Alpha.fwl".into()];
    assert_eq!(
        first_outside_include(&list, &["worlds_local/Alpha.db", "characters_local/Me.fch", "x"]),
        Some("characters_local/Me.fch")
    );
    assert_eq!(first_outside_include(&list, &["worlds_local/Alpha.db"]), None);
    assert_eq!(first_outside_include(&[], &["anything"]), None);
}

/// A list that does not hold is refused whole, before anything moves.
#[test]
fn an_invalid_include_pattern_is_400_and_shares_nothing() {
    let s = two_versions();
    for bad in ["../worlds_local/Alpha.db", "/worlds_local/Alpha.db", "", "a//b"] {
        let why = format!("`{bad}` is not a pattern");
        let list = vec![bad.to_string()];
        let r = share(Some(why.clone()), s.access(OWNER), true, GROUP.into(), &list);
        let e = r.unwrap_err();
        assert_eq!((e.status(), e.message()), (400, why), "{bad:?}");
    }
    assert_eq!(s.owner_used, TOTAL, "nothing moved");
    assert!(s.group.is_none());
}

/// What a move would not fit in is found out before it.
#[test]
fn a_move_that_does_not_fit_is_told() {
    let refs = |list: &[(char, i64, i64)]| -> Vec<Ref> {
        list.iter().map(|(c, size, count)| Ref { sha: sha(*c), size: *size, count: *count }).collect()
    };
    let mut from = Table::new();
    from.incref(&sha('a'), 30, 2);
    from.incref(&sha('b'), 12, 1);
    let mut to = Table::new();
    to.incref(&sha('b'), 12, 7);
    // The one is new there and stays here, the other is there and goes from here.
    assert_eq!(fits(&from, &to, &refs(&[('a', 30, 1), ('b', 12, 1)])), Some((30, 12)));
    assert_eq!(fits(&from, &to, &refs(&[])), Some((0, 0)));
    for bad in [
        refs(&[('a', 30, 1), ('a', 30, 1)]),
        refs(&[('a', -1, 1)]),
        refs(&[('a', 30, -1)]),
        refs(&[('b', 12, i64::MAX)]),
        refs(&[('a', i64::MAX, 1), ('c', 1, 1)]),
        vec![Ref { sha: "a\u{20ac}".into(), size: 1, count: 1 }],
    ] {
        assert_eq!(fits(&from, &to, &bad), None, "{bad:?}");
    }
    assert!(refs_hold(&refs(&[('a', 30, 1), ('b', 12, i64::MAX)])));
    assert!(!refs_hold(&refs(&[('a', 30, 1), ('b', 12, 1), ('a', 30, 1)])));
    let mut owed = Table::new();
    owed.incref(&sha('a'), -5, 1);
    assert_eq!(fits(&owed, &to, &refs(&[])), None);

    // Each kind fits, but not the two together.
    let half = i64::MAX / 2 + 1;
    let (here, there) = (shelf(), shelf());
    let (one, other) = (refs(&[('a', half, 1)]), refs(&[('b', half, 1)]));
    assert!(can_settle(&here, &there, &one, &refs(&[])));
    assert!(!can_settle(&here, &there, &one, &other));
}

/// Nobody asked: a live lease is ended, and the save goes back to its owner.
#[test]
fn a_hosting_member_leaving_ends_the_lease_and_takes_the_save() {
    let mut s = two_versions();
    s.share(OWNER, &[]).unwrap();
    s.lease_live = true;
    assert_eq!(take_back(0, &s.here()), TakeBack::Move);
    let (record, ended) = s.run(Move::TakeBack).unwrap();
    assert!(ended && record.lease_ended && !s.lease_live);
    s.assert_back_with_owner();
    assert_eq!(take_back(1, &s.here()), TakeBack::Done);
    assert_eq!(take_back(3, &s.here()), TakeBack::GiveUp);
    assert_eq!(take_back(0, &None), TakeBack::Done);
    assert_eq!(
        kept_moving("s1"),
        "save s1 kept moving while being taken back"
    );
    assert!(take_back_failed(MoveError::Changed).is_ok());
    assert_eq!(
        take_back_failed(MoveError::Other("disk".into())).unwrap_err(),
        "disk"
    );
    assert!(taken_back_with("a", None) && taken_back_with("a", Some("a")));
    assert!(!taken_back_with("a", Some("b")));
}

/// The owner of the group removes the member who shared the save: it goes back with them.
#[test]
fn removing_a_member_takes_their_shared_save_back() {
    let mut s = two_versions();
    s.share(OWNER, &[]).unwrap();
    let owner_of_group = Some("u-payer".to_string());
    assert!(remove_member(&owner_of_group, "u-payer", OWNER).is_ok());
    assert!(taken_back_with(OWNER, Some(OWNER)));
    assert_eq!(take_back(0, &s.here()), TakeBack::Move);
    s.run(Move::TakeBack).unwrap();
    assert!(removed(1).is_ok());
    s.assert_back_with_owner();
    assert_eq!((s.payer_used, s.group_used), (0, 0));
    let gone = require_shared_access(s.access("u-member")).unwrap_err();
    assert_eq!(gone.status(), 404);
    let private = require_shared_access(s.access(OWNER)).unwrap_err();
    assert_eq!((private.status(), private.code()), (409, Some("not_shared")));
}

/// Deleting a shared save first takes it back, so that the group pays for nothing any more.
#[test]
fn deleting_a_shared_save_refunds_the_group_owner() {
    let mut s = two_versions();
    s.share(OWNER, &[]).unwrap();
    assert_eq!(may_delete(false).unwrap_err().status(), 404, "a member cannot delete it");
    assert!(may_delete(true).is_ok());
    assert_eq!(delete(0, 1), DeleteStep::TakeBackAgain);
    s.run(Move::TakeBack).unwrap();
    assert_eq!(delete(1, 0), DeleteStep::Delete);
    for c in ['a', 'b', 'c'] {
        assert_eq!(s.group_blob(c), None);
        assert!(!s.stored_for_group(c));
    }
    assert_eq!((s.payer_used, s.group_used), (0, 0));
}

/// A push that lands during the copy is copied in the next round; one in every round is given up.
#[test]
fn a_move_copies_again_what_was_pushed_meanwhile() {
    let mut s = two_versions();
    s.pushes = 2;
    s.share(OWNER, &[]).unwrap();
    assert_eq!(s.group_blob('d'), Some((1, 10)));
    assert!(s.stored_for_group('d') && !s.stored_for_user('d'));
    assert_eq!(s.payer_used, TOTAL + 20);

    let mut s = two_versions();
    s.pushes = 3;
    let mv = share(None, s.access(OWNER), true, GROUP.into(), &Vec::new()).unwrap();
    let e = s.run(mv).unwrap_err();
    assert_eq!(
        e.message(),
        "the save kept growing while its content was being copied"
    );
    assert_eq!(move_err(e).status(), 500);
    assert!(s.group.is_none());
    assert_eq!(s.user_blob('a'), Some((2, A)), "no row moved");
}

#[test]
fn a_move_needs_the_save_where_it_saw_it() {
    let s = two_versions();
    assert!(matches!(
        Moving::begin(Move::Unshare, s.here()),
        Err(MoveError::Changed)
    ));
    assert!(matches!(
        Moving::begin(Move::TakeBack, None),
        Err(MoveError::Changed)
    ));
    let mv = Move::Share {
        group_id: GROUP.into(),
        include_json: None,
    };
    let mut moving = Moving::begin(mv, s.here()).unwrap();
    let none = Vec::new();
    moving.copy_round(&s.blobs(), &none);
    let elsewhere = Some(Whereabouts {
        owner: OWNER.into(),
        group: Some("g9".into()),
    });
    assert_eq!(moving.check(&elsewhere, &s.blobs(), &none, false), Check::Changed);
    assert_eq!(moving.check(&None, &s.blobs(), &none, false), Check::Changed);
    assert_eq!(move_err(MoveError::Changed).status(), 409);
}

/// An object that another save of the owner uses stays, and so does its share of the bill.
#[test]
fn a_shared_object_stays_with_who_still_uses_it() {
    let mut s = two_versions();
    s.user.blobs.incref(&sha('a'), A, 1);
    s.share(OWNER, &[]).unwrap();
    assert_eq!(s.user_blob('a'), Some((1, A)));
    assert!(s.stored_for_user('a') && s.stored_for_group('a'));
    assert_eq!(s.owner_used, A);
    assert_eq!(s.payer_used, TOTAL);
    s.unshare(OWNER).unwrap();
    assert_eq!(s.user_blob('a'), Some((3, A)));
    assert_eq!((s.owner_used, s.payer_used), (TOTAL, 0));
}

#[test]
fn a_chunk_takes_its_size_from_its_row() {
    let mut rows = Table::new();
    rows.incref("aa", 7, 1);
    let refs = chunk_refs(vec![("aa".into(), 3)], &rows).unwrap();
    assert_eq!((refs[0].size, refs[0].count), (7, 3));
    let e = chunk_refs(vec![("aa".into(), 3), ("bb".into(), 1)], &rows).unwrap_err();
    assert_eq!(
        e.message(),
        "no rows returned by a query that expected to return at least one row"
    );
    assert!(rows.has("aa") && !rows.has("bb"));
    assert_eq!(
        rows.chunk_list(vec!["bb".into(), "aa".into(), "aa".into()]),
        [("bb".to_string(), 0), ("aa".to_string(), 7), ("aa".to_string(), 7)]
    );
    assert_eq!(rows.decref("aa", 1), Some((0, 7)));
    rows.delete_row("aa");
    assert_eq!(rows.size("aa"), None);
    assert_eq!(rows.decref("aa", 1), None);
}

#[test]
fn an_object_that_came_back_is_not_deleted() {
    assert!(revived(Ok(Some(1))));
    assert!(!revived(Ok(Some(0))));
    assert!(!revived(Ok(None)));
    assert!(revived(Err(())), "where it cannot be told, it is kept");
}

#[test]
fn a_short_hash_has_a_shard_of_its_own() {
    assert_eq!(store::shard("abcd"), "ab");
    assert_eq!(store::shard("a"), "00");
    assert_eq!(store::shard(""), "00");
}
