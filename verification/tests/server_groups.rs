//! Groups, their invites, and what their members may do with a save.

use hoard::clock::{stamp_of, Moment};
use hoard::secret::{hash_token, redeemed_hash, sha_hex};
use hoard::server::access::{read_include, save_access, Role, SaveStanding};
use hoard::server::groups::{
    create, create_invite, delete, fold_groups, join, redeem, remove_member, removed, spend, GroupRow,
    Invite, Join, Membership, NewGroup,
};
use hoard::server::reply::Refusal;
use hoard::server::saves::{
    create as create_save, created, delete as delete_save, included_totals, inserted, listed, may_delete, patch,
    relabelled, save_dir, stubbed, CreateSave, DeleteStep, ListQuery, PatchSave, RenameAction, RenameEvent, SaveRow, Written,
};

const NOW: i64 = 1_800_000_000;
const ID: &str = "0f8a5c2e-3b1d-4e6f-9a7b-1c2d3e4f5a6b";

fn owned_by(owner: &str) -> Option<String> {
    Some(owner.to_string())
}

fn row(group: &str, owner: &str, member: &str) -> GroupRow {
    GroupRow {
        id: group.into(),
        name: format!("{group}-name"),
        owner_user_id: owner.into(),
        created_at: Moment::utc(NOW),
        member_id: member.into(),
        username: format!("{member}-name"),
        role: if owner == member { "owner" } else { "member" }.into(),
        joined_at: Moment::utc(NOW),
    }
}

/// The rows as they are read back: a group beside each of its members.
fn read_back(group: &NewGroup, members: &[Membership]) -> Vec<GroupRow> {
    members
        .iter()
        .filter(|m| m.group_id == group.id)
        .map(|m| GroupRow {
            id: group.id.clone(),
            name: group.name.clone(),
            owner_user_id: group.owner_user_id.clone(),
            created_at: Moment::utc(NOW),
            member_id: m.user_id.clone(),
            username: m.user_id.clone(),
            role: m.role.clone(),
            joined_at: Moment::utc(NOW),
        })
        .collect()
}

#[test]
fn the_creator_is_the_owner_and_its_first_member() {
    let f = create("g1", "  valheim-crew ", "owner").unwrap();
    let groups = fold_groups(&read_back(&f.group, &[f.member]));
    assert_eq!(groups.len(), 1);
    assert_eq!(groups[0].id, "g1");
    assert_eq!(groups[0].name, "valheim-crew", "trimmed");
    assert_eq!(groups[0].owner_user_id, "owner");
    assert_eq!(groups[0].members.len(), 1);
    assert_eq!(groups[0].members[0].user_id, "owner");
    assert_eq!(groups[0].members[0].role, "owner");
    assert_eq!(groups[0].members[0].username, "owner");
    for bad in ["   ", &"x".repeat(65)] {
        assert_eq!(create("g1", bad, "owner").unwrap_err().status(), 400);
    }
    assert!(create("g1", &"é".repeat(64), "owner").is_ok());
}

#[test]
fn rows_fold_into_their_groups() {
    let groups = fold_groups(&vec![
        row("g1", "a", "a"),
        row("g1", "a", "b"),
        row("g2", "c", "c"),
    ]);
    let shape: Vec<(&str, Vec<&str>)> = groups
        .iter()
        .map(|g| {
            (
                g.id.as_str(),
                g.members.iter().map(|m| m.user_id.as_str()).collect(),
            )
        })
        .collect();
    assert_eq!(shape, [("g1", vec!["a", "b"]), ("g2", vec!["c"])]);
    // The run's first row speaks for the group; each member keeps their own name and time.
    let later = Moment { local: 500_000_000, offset: 3_600 };
    let second = GroupRow { created_at: later, joined_at: later, ..row("g1", "a", "b") };
    let folded = fold_groups(&vec![row("g1", "a", "a"), second]);
    assert_eq!(folded[0].created_at, Moment::utc(NOW));
    assert_eq!(folded[0].members[0].joined_at, Moment::utc(NOW));
    assert_eq!(folded[0].members[1].joined_at, later);
    assert_eq!(folded[0].members[1].username, "b-name");
    assert!(fold_groups(&Vec::new()).is_empty());
}

fn mint(secs: Option<u64>) -> Result<hoard::server::groups::Minted, Refusal> {
    create_invite(&owned_by("owner"), "owner", secs, &[7u8; 32], NOW)
}

#[test]
fn an_invite_redeemed_makes_a_member() {
    let inv = mint(None).unwrap();
    // 32 bytes in base64 without padding, in the alphabet that a link takes.
    assert_eq!(inv.token, "BwcHBwcHBwcHBwcHBwcHBwcHBwcHBwcHBwcHBwcHBwc");
    // Only the hash is kept; the token itself never touches the database.
    assert_ne!(inv.token_hash, inv.token);
    assert_eq!(inv.token_hash, hash_token(&inv.token));
    assert_eq!(inv.token_hash, redeemed_hash(&format!(" {}\n", inv.token)));
    assert_eq!(inv.expires_at, "2027-01-22T08:00:00Z", "a week");
    let now = stamp_of(NOW).unwrap();
    assert_eq!(now, "2027-01-15T08:00:00Z");
    let founded = create("g1", "valheim-crew", "owner").unwrap();
    let mut members = vec![founded.member];
    let mut invites = vec![
        Invite { token_hash: hash_token("another"), ..invite("2030-01-01T00:00:00Z", None) },
        Invite { token_hash: inv.token_hash, ..invite(&inv.expires_at, None) },
    ];
    assert_eq!(join(Some(&invites[1]), false, &now).unwrap(), Join::Redeem);
    let token = format!(" {}\n", inv.token);
    assert_eq!(redeem(&mut invites, &mut members, &token, "member", &now).unwrap(), "g1");
    let joined = &fold_groups(&read_back(&founded.group, &members))[0];
    assert_eq!(joined.id, "g1");
    assert_eq!(joined.members.len(), 2);
    let me = joined.members.iter().find(|m| m.user_id == "member").expect("listed as a member");
    assert_eq!(me.role, "member");
    assert_eq!(invites[1].used_by.as_deref(), Some("member"));
    assert_eq!(invites[1].used_at.as_deref(), Some(now.as_str()));
    assert_eq!(invites[0].used_by, None);
    // Only the owner mints invites.
    let r = create_invite(&owned_by("owner"), "member", None, &[7u8; 32], NOW);
    assert_eq!(r.unwrap_err().status(), 403);
}

#[test]
fn a_token_is_hashed_with_sha256() {
    assert_eq!(
        hash_token("abc"),
        "ba7816bf8f01cfea414140de5dae2223b00361a396177a9cb410ff61f20015ad"
    );
    assert_eq!(sha_hex(b"abc"), hash_token("abc"));
    assert_eq!(
        sha_hex(&[]),
        "e3b0c44298fc1c149afbf4c8996fb92427ae41e4649b934ca495991b7852b855"
    );
}

fn invite(expires_at: &str, used_at: Option<&str>) -> Invite {
    Invite {
        token_hash: hash_token("token"),
        group_id: "g1".into(),
        expires_at: expires_at.into(),
        used_by: used_at.map(|_| "somebody".into()),
        used_at: used_at.map(String::from),
    }
}

#[test]
fn a_used_or_expired_token_opens_nothing() {
    let now = "2027-01-15T08:00:00Z";
    let later = "2027-01-16T08:00:00Z";
    for i in [
        Some(invite(later, Some("2027-01-14T08:00:00Z"))),
        Some(invite("2000-01-01T00:00:00Z", None)),
        // At its last moment it is over.
        Some(invite(now, None)),
        None,
    ] {
        assert_eq!(join(i.as_ref(), false, now).unwrap_err().status(), 404);
        let mut stored: Vec<Invite> = i.into_iter().collect();
        let (was, mut members) = (format!("{stored:?}"), Vec::new());
        let r = redeem(&mut stored, &mut members, "token", "new", now);
        assert_eq!(r.unwrap_err().status(), 404);
        assert!(members.is_empty());
        assert_eq!(format!("{stored:?}"), was, "nothing is written");
    }
    assert!(join(Some(&invite(later, None)), false, now).is_ok());
    // One token admits one newcomer.
    let (mut stored, mut members) = (vec![invite(later, None)], Vec::new());
    assert!(redeem(&mut stored, &mut members, "token", "first", now).is_ok());
    assert!(redeem(&mut stored, &mut members, "token", "second", now).is_err());
    assert_eq!(members.len(), 1);
    assert!(spend(&mut stored[0], "second", now).is_err());
    assert_eq!(stored[0].used_by.as_deref(), Some("first"));
}

#[test]
fn joining_twice_changes_nothing() {
    let now = "2027-01-15T08:00:00Z";
    let used = invite("2027-01-16T08:00:00Z", Some(now));
    assert_eq!(join(Some(&used), true, now).unwrap(), Join::Already);
    let open = invite("2027-01-16T08:00:00Z", None);
    assert_eq!(join(Some(&open), true, now).unwrap(), Join::Already);
    assert!(join(None, true, now).is_err());
    let (mut stored, mut members) = (vec![open], Vec::new());
    assert_eq!(redeem(&mut stored, &mut members, "token", "me", now).unwrap(), "g1");
    let later = "2028-01-01T00:00:00Z";
    assert_eq!(redeem(&mut stored, &mut members, "token", "me", later).unwrap(), "g1");
    assert_eq!(members.len(), 1);
    assert_eq!(stored[0].used_at.as_deref(), Some(now));

    // The owner redeeming their own link is equally harmless.
    let mut members = vec![create("g1", "valheim-crew", "owner").unwrap().member];
    let mut stored = vec![invite("2027-01-16T08:00:00Z", None)];
    assert_eq!(redeem(&mut stored, &mut members, "token", "owner", now).unwrap(), "g1");
    assert_eq!(members.len(), 1);
    assert_eq!(members[0].role, "owner");
    assert_eq!(stored[0].used_by, None, "and the link still opens");
    assert_eq!(redeem(&mut stored, &mut members, "token", "member", now).unwrap(), "g1");
    assert_eq!(members.len(), 2);
}

#[test]
fn a_stranger_is_told_the_group_does_not_exist() {
    assert_eq!(delete(&None, "eve", 0).unwrap_err().status(), 404);
    let r = create_invite(&None, "eve", None, &[0u8; 32], NOW);
    assert_eq!(r.unwrap_err().status(), 404);
    assert_eq!(remove_member(&None, "eve", "member").unwrap_err().status(), 404);
    assert_eq!(remove_member(&None, "eve", "owner").unwrap_err().status(), 404);
}

#[test]
fn the_owner_stays_and_members_may_leave_or_be_removed() {
    let g = owned_by("owner");
    // The owner cannot leave, whoever asks.
    assert_eq!(remove_member(&g, "owner", "owner").unwrap_err().status(), 409);
    assert_eq!(remove_member(&g, "member", "owner").unwrap_err().status(), 403);
    // A member removes only themself.
    assert_eq!(remove_member(&g, "member", "other").unwrap_err().status(), 403);
    assert!(remove_member(&g, "member", "member").is_ok());
    // The owner removes anybody.
    assert!(remove_member(&g, "owner", "other").is_ok());
    assert!(removed(1).is_ok());
    assert_eq!(removed(0).unwrap_err().status(), 404, "already gone");
    // Only the owner deletes.
    assert_eq!(delete(&g, "member", 0).unwrap_err().status(), 403);
}

#[test]
fn a_group_with_shared_saves_refuses_to_die() {
    let g = owned_by("owner");
    assert_eq!(delete(&g, "owner", 1).unwrap_err().status(), 409);
    assert!(delete(&g, "owner", 0).is_ok());
}

fn standing(group: Option<&str>, member: bool) -> SaveStanding {
    SaveStanding {
        game_slug: "stardew-valley".into(),
        label: "farm".into(),
        owner_user_id: "owner".into(),
        group_id: group.map(String::from),
        caller_in_group: member,
    }
}

#[test]
fn save_access_tells_owner_member_and_stranger_apart() {
    // Unshared: the owner, nobody else.
    let a = save_access(Some(standing(None, false)), "owner").expect("owner");
    assert_eq!(a.role, Role::Owner);
    assert_eq!(a.group_id, None);
    assert_eq!(a.owner_user_id, "owner");
    assert_eq!(a.game_slug, "stardew-valley");
    assert_eq!(a.label, "farm");
    assert!(save_access(Some(standing(None, true)), "member").is_none());

    let a = save_access(Some(standing(Some("g1"), true)), "owner").unwrap();
    assert_eq!(a.role, Role::Owner);
    assert_eq!(a.group_id.as_deref(), Some("g1"));
    let a = save_access(Some(standing(Some("g1"), true)), "member").expect("member");
    assert_eq!(a.role, Role::Member);
    assert_eq!(a.owner_user_id, "owner");
    assert_eq!(a.group_id.as_deref(), Some("g1"));

    assert!(save_access(Some(standing(Some("g1"), false)), "stranger").is_none());
    assert!(save_access(None, "owner").is_none());
}

#[test]
fn a_member_reads_what_the_share_names() {
    let list = || vec!["w/*".to_string()];
    let owner = save_access(Some(standing(Some("g1"), true)), "owner").unwrap();
    assert!(read_include(&owner, list()).is_empty());
    let member = save_access(Some(standing(Some("g1"), true)), "member").unwrap();
    assert_eq!(read_include(&member, list()), list());
}

fn save_row(shared: bool, includes: Option<&str>) -> SaveRow {
    let on = |s: &str| if shared { Some(s.to_string()) } else { None };
    SaveRow {
        id: ID.into(),
        owner_user_id: "owner".into(),
        game_slug: "valheim".into(),
        label: "farm".into(),
        local_path_hint: None,
        client_os: Some("linux".into()),
        latest_version_num: 1,
        created_at: Moment::utc(NOW),
        updated_at: Moment::utc(NOW),
        snapshot_count: Some(1),
        total_size_bytes: Some(16_725),
        group_id: on("g1"),
        group_name: on("valheim-crew"),
        group_owner_id: on("payer"),
        group_owner_name: on("pat"),
        include_json: includes.map(String::from),
    }
}

#[test]
fn a_shared_save_is_listed_for_the_member_and_marked_for_both() {
    let s = save_row(true, None).into_wire().unwrap();
    let info = s.shared.expect("marked shared");
    assert_eq!(info.group_id, "g1");
    assert_eq!(info.group_name, "valheim-crew");
    assert_eq!(info.owner_user_id, "payer");
    assert_eq!(info.owner_username, "pat");
    assert!(info.includes.is_empty());
    assert!(save_row(false, None).into_wire().unwrap().shared.is_none());
    let mut broken = save_row(true, None);
    broken.id = "not an id".into();
    assert!(broken.into_wire().is_none());
    let slug = |s: &str| ListQuery {
        game_slug: Some(s.into()),
    };
    assert!(listed(&slug("valheim"), "valheim"));
    assert!(!listed(&slug("valheim"), "factorio"));
    assert!(listed(&ListQuery { game_slug: None }, "factorio"));
}

/// The save's size covers what the share names for a member and every file for the owner.
#[test]
fn a_member_sees_the_size_of_the_include_list_only() {
    let includes = r#"["worlds_local/Alpha.db","worlds_local/Alpha.fwl","worlds_local/Alpha_backup_*"]"#;
    let files: Vec<(String, i64)> = [
        ("characters_local/x.fch", 25),
        ("worlds_local/Alpha.db", 7_000),
        ("worlds_local/Alpha.fwl", 300),
        ("worlds_local/Beta.db", 9_000),
        ("worlds_local/Beta.fwl", 400),
    ]
    .iter()
    .map(|(p, n)| (p.to_string(), *n))
    .collect();
    let size = |who: &str, includes: Option<&str>| {
        save_row(true, includes)
            .into_visible(who, &files)
            .unwrap()
            .total_size_bytes
            .unwrap()
    };
    assert_eq!(size("member", Some(includes)), 7_300);
    assert_eq!(size("owner", Some(includes)), 16_725);
    // A share of the whole folder names everything, and so does a column that does not parse.
    assert_eq!(size("member", None), 16_725);
    assert_eq!(size("member", Some("[1")), 16_725);
    let list: Vec<String> = vec!["worlds_local".into()];
    assert_eq!(included_totals(&list, &files), (4, 16_700));
}

#[test]
fn a_member_cannot_rename_or_delete_the_save() {
    let body = PatchSave {
        label: Some("stolen".into()),
        local_path_hint: None,
        client_os: None,
    };
    assert_eq!(patch(None, body).unwrap_err().status(), 404);
    assert_eq!(may_delete(false).unwrap_err().status(), 404);
    assert!(may_delete(true).is_ok());
}

/// A year is the most an invite lives.
#[test]
fn an_invite_ttl_past_a_year_is_400() {
    assert_eq!(mint(Some(u64::MAX)).unwrap_err().status(), 400);
    assert_eq!(mint(Some(366 * 24 * 60 * 60)).unwrap_err().status(), 400);
    assert_eq!(mint(Some(0)).unwrap_err().status(), 400);
    assert!(mint(Some(365 * 24 * 60 * 60)).is_ok());
}

/// A row already marked used, by whatever path, admits nobody and is not rewritten.
#[test]
fn a_spent_invite_is_not_spent_again() {
    let mut i = invite("2027-01-16T08:00:00Z", Some("2000-01-01T00:00:00Z"));
    assert_eq!(
        spend(&mut i, "u-stranger", "2027-01-15T08:00:00Z").unwrap_err().status(),
        404
    );
    assert_eq!(i.used_at.as_deref(), Some("2000-01-01T00:00:00Z"));
}

fn new_save(label: Option<&str>, display_name: Option<&str>) -> CreateSave {
    CreateSave {
        game_slug: "stardew-valley".into(),
        label: label.map(String::from),
        local_path_hint: None,
        client_os: None,
        display_name: display_name.map(String::from),
        steam_app_id: Some(413150),
    }
}

#[test]
fn a_save_of_an_unknown_game_needs_its_name() {
    let (stub, save) = create_save(new_save(None, None), true).unwrap();
    assert!(stub.is_none());
    assert_eq!(save.label, "default");
    let (stub, save) = create_save(new_save(Some("farm"), Some("Stardew Valley")), false).unwrap();
    let stub = stub.unwrap();
    assert_eq!(stub.slug, "stardew-valley");
    assert_eq!(stub.display_name, "Stardew Valley");
    assert_eq!(stub.steam_app_id, Some(413150));
    assert_eq!(save.label, "farm");
    for name in [None, Some("")] {
        let r = create_save(new_save(None, name), false);
        assert_eq!(r.unwrap_err().status(), 422);
    }
    assert!(stubbed(true).is_ok());
    assert_eq!(stubbed(false).unwrap_err().status(), 422);
    assert_eq!(inserted(None), Written::Done);
    assert_eq!(inserted(Some("UNIQUE constraint failed: saves.label")), Written::Unique);
    assert_eq!(inserted(Some("UNIQUE index")), Written::Failed);
    assert_eq!(relabelled(Some("UNIQUE index")), Written::Unique);
    assert_eq!(relabelled(Some("disk I/O error")), Written::Failed);
    assert!(created(Written::Done).is_ok());
    assert_eq!(created(Written::Unique).unwrap_err().status(), 409);
    assert_eq!(created(Written::Failed).unwrap_err().status(), 500);
    assert_eq!(
        save_dir("u1", "valheim", "main"),
        ["data", "u1", "valheim", "main"]
    );
}

fn rename(label: &str) -> Option<hoard::server::saves::Rename> {
    let body = PatchSave {
        label: Some(label.into()),
        local_path_hint: None,
        client_os: None,
    };
    patch(Some("farm"), body).unwrap().rename
}

#[test]
fn a_label_that_says_nothing_new_renames_nothing() {
    assert!(rename("  ").is_none());
    assert!(rename(" farm ").is_none());
    assert_eq!(rename(" barn ").unwrap().label, "barn");
}

#[test]
fn a_rename_moves_the_row_and_the_directory_together() {
    let updated = RenameEvent::Updated(Written::Done);
    let looked = |old_exists, new_exists| RenameEvent::Looked {
        old_exists,
        new_exists,
    };
    let mut r = rename("barn").unwrap();
    assert!(r.next(RenameEvent::Committed(true)).is_none(), "out of turn");
    assert!(matches!(r.next(updated), Some(RenameAction::Look)));
    assert!(matches!(r.next(looked(true, false)), Some(RenameAction::MoveDir)));
    assert!(matches!(r.next(RenameEvent::Moved(true)), Some(RenameAction::Commit)));
    // The commit fails: the directory goes back.
    assert!(matches!(
        r.next(RenameEvent::Committed(false)),
        Some(RenameAction::MoveBack(Refusal::Internal))
    ));
    // With no directory there is none to put back.
    let mut r = rename("barn").unwrap();
    r.next(updated);
    assert!(matches!(r.next(looked(false, true)), Some(RenameAction::Commit)));
    assert!(matches!(
        r.next(RenameEvent::Committed(false)),
        Some(RenameAction::Refuse(Refusal::Internal))
    ));
    let mut r = rename("barn").unwrap();
    r.next(updated);
    assert!(matches!(
        r.next(looked(true, true)),
        Some(RenameAction::RollBack(Refusal::DirectoryTaken))
    ));
    let mut r = rename("barn").unwrap();
    assert!(matches!(
        r.next(RenameEvent::Updated(Written::Unique)),
        Some(RenameAction::Refuse(Refusal::LabelTaken))
    ));
    let mut r = rename("barn").unwrap();
    r.next(updated);
    r.next(looked(true, false));
    assert!(matches!(
        r.next(RenameEvent::Moved(false)),
        Some(RenameAction::RollBack(Refusal::Internal))
    ));
    let mut r = rename("barn").unwrap();
    r.next(updated);
    r.next(looked(true, false));
    r.next(RenameEvent::Moved(true));
    assert!(matches!(
        r.next(RenameEvent::Committed(true)),
        Some(RenameAction::Done)
    ));
}

#[test]
fn a_save_that_keeps_being_shared_is_not_deleted() {
    assert_eq!(delete_save(0, 0), DeleteStep::Delete);
    assert_eq!(delete_save(0, 1), DeleteStep::TakeBackAgain);
    assert_eq!(delete_save(1, 1), DeleteStep::TakeBackAgain);
    assert_eq!(delete_save(2, 1), DeleteStep::Refuse);
    assert_eq!(delete_save(2, 0), DeleteStep::Delete);
    assert_eq!((Refusal::KeptMoving.status(), Refusal::KeptMoving.code()), (409, None));
}

#[test]
fn a_refusal_has_a_status_and_a_sentence() {
    for (r, status, text) in [
        (Refusal::SaveNotFound, 404, "save not found"),
        (Refusal::NotYours, 404, "not found"),
        (Refusal::GroupNotFound, 404, "group not found"),
        (Refusal::InviteNotFound, 404, "invite not found"),
        (Refusal::MemberNotFound, 404, "member not found"),
        (
            Refusal::NotSaveOwner,
            403,
            "only the save owner can share or unshare it",
        ),
        (Refusal::GroupName, 400, "group name must be 1 to 64 characters"),
        (Refusal::BadList("bad".into()), 400, "bad"),
        (Refusal::GameNotFound, 422, "game not found"),
        (Refusal::AlreadyShared, 409, "the save is already shared"),
        (Refusal::Internal, 500, "internal server error"),
    ] {
        assert_eq!((r.status(), r.message().as_str()), (status, text));
    }
}

#[test]
fn stamps_sort_as_text() {
    let moments = [
        -62_167_219_200,
        -1,
        0,
        951_782_399,
        951_782_400,
        951_868_800,
        4_107_542_400,
        253_402_300_799,
    ];
    let texts: Vec<String> = moments.iter().map(|m| stamp_of(*m).unwrap()).collect();
    assert_eq!(
        texts,
        [
            "0000-01-01T00:00:00Z",
            "1969-12-31T23:59:59Z",
            "1970-01-01T00:00:00Z",
            "2000-02-28T23:59:59Z",
            "2000-02-29T00:00:00Z",
            "2000-03-01T00:00:00Z",
            "2100-03-01T00:00:00Z",
            "9999-12-31T23:59:59Z",
        ]
    );
    for pair in texts.windows(2) {
        assert!(pair[0] < pair[1]);
    }
    assert_eq!(stamp_of(-377_705_116_800).unwrap(), "-9999-01-01T00:00:00Z");
    assert_eq!(stamp_of(253_402_300_800), None);
    assert_eq!(stamp_of(-377_705_116_801), None);
}
