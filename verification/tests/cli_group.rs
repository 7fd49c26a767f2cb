//! `hoard group` and `hoard share`.

use hoard::agent::api::IpcError;
use hoard::clock::Moment;
use hoard::cli::group::{
    self, as_id, parse_expiry, resolve_in, row, rows, start, table, Answer, GroupCommand, InviteOut,
    Lookup, Request, Stage, Step,
};
use hoard::cli::output::{classify, Cause, Failure};
use hoard::cli::share;
use hoard::wire::{Group, GroupMember, Save, SharedInfo};

const ID: &str = "0f8a5c2e-3b1d-4e6f-9a7b-1c2d3e4f5a6b";

/// The next step, for an answer that prints as it is.
fn next(stage: Stage, answer: Answer) -> Step {
    let printed = format!("{answer:?}");
    group::next(stage, answer, &printed)
}

fn next_of_share(stage: share::Stage, answer: share::Answer) -> share::Step {
    let printed = format!("{answer:?}");
    share::next(stage, answer, &printed)
}

fn group(id: &str, name: &str) -> Group {
    Group {
        id: id.into(),
        name: name.into(),
        owner_user_id: "u1".into(),
        created_at: Moment::utc(0),
        members: Vec::new(),
    }
}

fn member(id: &str, name: &str) -> GroupMember {
    GroupMember {
        user_id: id.into(),
        username: name.into(),
        role: "member".into(),
        joined_at: Moment::utc(0),
    }
}

#[test]
fn an_id_resolves_to_itself() {
    let groups = [group("g1", "friends"), group("g2", "raid")];
    assert_eq!(resolve_in(&groups, "g2").unwrap(), "g2");
}

#[test]
fn a_unique_name_resolves_to_its_id() {
    let groups = [group("g1", "friends"), group("g2", "raid")];
    assert_eq!(resolve_in(&groups, "raid").unwrap(), "g2");
}

/// An id is unique; a name that happens to equal another group's id must not shadow that group.
#[test]
fn an_id_wins_over_a_name() {
    let groups = [group("g1", "g2"), group("g2", "raid")];
    assert_eq!(resolve_in(&groups, "g2").unwrap(), "g2");
}

#[test]
fn a_duplicated_name_lists_the_ids() {
    let groups = [group("g1", "raid"), group("g2", "raid"), group("g3", "x")];
    let err = resolve_in(&groups, "raid").unwrap_err();
    assert_eq!(
        err,
        Lookup::Ambiguous {
            name: "raid".into(),
            ids: vec!["g1".into(), "g2".into()]
        }
    );
    let text = err.message();
    assert!(text.contains("g1, g2"), "{text}");
    assert_eq!(text, "`raid` names 2 groups; pass the id instead: g1, g2");
    assert_eq!(classify(&err.refused()).code, "needs_choice");
}

#[test]
fn an_unknown_group_is_not_found() {
    let groups = [group("g1", "raid")];
    let err = resolve_in(&groups, "nope").unwrap_err();
    assert_eq!(err, Lookup::NotFound("nope".into()));
    assert_eq!(err.code(), "not_found");
    assert!(resolve_in(&[], "g1").is_err());
}

#[test]
fn expiry_takes_a_unit() {
    assert_eq!(parse_expiry("7d").unwrap(), 7 * 86_400);
    assert_eq!(parse_expiry("12h").unwrap(), 12 * 3600);
    assert_eq!(parse_expiry("30m").unwrap(), 1800);
    assert_eq!(parse_expiry("3600s").unwrap(), 3600);
    assert!(parse_expiry("7").is_err());
    assert!(parse_expiry("0d").is_err());
    assert!(parse_expiry("d").is_err());
    assert!(parse_expiry("7w").is_err());
}

#[test]
fn expiry_refuses_a_sign() {
    assert!(parse_expiry("+7d").is_err());
    assert!(parse_expiry("-7d").is_err());
}

/// The server refuses past a year; saying so here costs no round trip.
#[test]
fn expiry_is_capped_at_a_year() {
    assert_eq!(parse_expiry("365d").unwrap(), 365 * 86_400);
    assert_eq!(parse_expiry("8760h").unwrap(), 365 * 86_400);
    let err = parse_expiry("366d").unwrap_err();
    assert!(err.contains("at most one year"), "{err}");
    assert!(parse_expiry("8761h").is_err());
    // Overflow stays its own refusal, not a panic.
    assert!(parse_expiry("99999999999999999999d").is_err());
}

#[test]
fn a_refused_expiry_says_why() {
    assert_eq!(parse_expiry(" 2d ").unwrap(), 172_800);
    assert_eq!(
        parse_expiry("0d").unwrap_err(),
        "`0d` is not a usable expiry"
    );
    assert_eq!(
        parse_expiry("18446744073709551615d").unwrap_err(),
        "`18446744073709551615d` is not a usable expiry"
    );
    assert_eq!(
        parse_expiry("7 days").unwrap_err(),
        "expected a duration such as `7d`, `12h`, `30m` or `3600s`, got `7 days`"
    );
}

#[test]
fn a_uuid_skips_the_lookup_and_a_name_does_not() {
    let id = ID;
    assert_eq!(as_id(id).as_deref(), Some(id));
    assert_eq!(as_id("raid"), None);
    assert_eq!(as_id("g1"), None);
    // Not the canonical shape: looked up by name, where it can still match.
    assert_eq!(as_id(&id.to_uppercase()), None);
}

#[test]
fn a_group_is_shown_with_its_owners_name() {
    let mut g = group("g1", "a name that is longer than its column");
    assert_eq!(row(&g).owner, "u1");
    g.members = vec![member("u2", "bob"), member("u1", "alice")];
    let r = row(&g);
    assert_eq!((r.owner.as_str(), r.members), ("alice", 2));
    let lines = table(&rows(&vec![g]));
    assert_eq!(
        lines,
        [
            "NAME                      OWNER             MEMBERS  ID",
            "a name that is longer t…  alice                   2  g1",
        ]
    );
    let none = table(&rows(&Vec::new()));
    assert_eq!(none[0], "you belong to no group.");
    assert_eq!(none.len(), 2);
}

fn failed() -> Answer {
    Answer::Failed(Failure::of(Cause::Other("down".into())))
}

#[test]
fn an_invite_is_for_a_group_by_name_or_id() {
    let invite = |group: &str, expires: &str| {
        start(GroupCommand::Invite {
            group: group.into(),
            expires: expires.into(),
        })
    };
    assert!(matches!(
        invite(ID, "7d"),
        Step::Ask(_, Request::InviteToGroup { group_id, expires_in_secs: Some(604_800) }) if group_id == ID
    ));
    let Step::Fail(f) = invite(ID, "7") else {
        panic!("refused");
    };
    assert_eq!(classify(&f).code, "bad_request");
    let Step::Ask(stage, Request::ListGroups) = invite("raid", "1h") else {
        panic!("looked up");
    };
    let Step::Ask(stage, Request::InviteToGroup { group_id, expires_in_secs }) =
        next(stage, Answer::Groups(vec![group("g2", "raid")]))
    else {
        panic!("asked");
    };
    assert_eq!((group_id.as_str(), expires_in_secs), ("g2", Some(3600)));
    let Step::Say(text) = next(
        stage,
        Answer::Invite(InviteOut {
            token: "tok".into(),
            expires_at: Moment { local: 500_000_000, offset: 3_600 },
        }),
    ) else {
        panic!("said");
    };
    assert_eq!(
        text,
        "invite token (shown once, valid until 1970-01-01T00:00:00.5+01:00):\n\n  tok\n\n\
         Whoever should join runs `hoard group join tok`."
    );
    let Step::Ask(stage, _) = invite("raid", "1h") else {
        panic!("looked up");
    };
    let Step::Fail(f) = next(stage, Answer::Groups(Vec::new())) else {
        panic!("not found");
    };
    assert_eq!(classify(&f).code, "not_found");
}

#[test]
fn the_verbs_say_what_came_back() {
    let Step::Ask(stage, Request::CreateGroup { name }) = start(GroupCommand::Create {
        name: "raid".into(),
    }) else {
        panic!("asked");
    };
    assert_eq!(name, "raid");
    assert!(matches!(
        next(stage, Answer::Group(group("g1", "raid"))),
        Step::Say(s) if s == "created group 'raid' (g1)"
    ));
    let Step::Ask(stage, Request::JoinGroup { token }) = start(GroupCommand::Join {
        token: "tok".into(),
    }) else {
        panic!("asked");
    };
    assert_eq!(token, "tok");
    assert!(matches!(
        next(stage, Answer::Group(group("g1", "raid"))),
        Step::Say(s) if s == "joined group 'raid' (g1)"
    ));
    let Step::Ask(stage, Request::LeaveGroup { group_id }) = start(GroupCommand::Leave {
        group: ID.into(),
    }) else {
        panic!("asked");
    };
    assert_eq!(group_id, ID);
    assert!(matches!(
        next(stage, Answer::Done),
        Step::Say(s) if s == format!("left group {ID}")
    ));
    let Step::Ask(stage, Request::ListGroups) = start(GroupCommand::Leave {
        group: "raid".into(),
    }) else {
        panic!("looked up");
    };
    assert!(matches!(
        next(stage, Answer::Groups(vec![group("g1", "raid")])),
        Step::Ask(_, Request::LeaveGroup { group_id }) if group_id == "g1"
    ));
    let Step::Ask(stage, Request::ListGroups) = start(GroupCommand::List) else {
        panic!("asked");
    };
    assert!(matches!(
        next(stage, Answer::Groups(vec![group("g1", "raid")])),
        Step::Show(out) if out.groups.len() == 1
    ));
    let Step::Ask(stage, _) = start(GroupCommand::List) else {
        panic!("asked");
    };
    assert!(matches!(next(stage, failed()), Step::Fail(_)));
    let Step::Ask(stage, _) = start(GroupCommand::List) else {
        panic!("asked");
    };
    let Step::Fail(f) = group::next(stage, Answer::Unfit, "Pong") else {
        panic!("unexpected");
    };
    assert_eq!(f.message(), "unexpected answer to a group list: Pong");
    let Step::Ask(stage, _) = start(GroupCommand::List) else {
        panic!("asked");
    };
    let Step::Fail(f) = next(stage, Answer::Group(group("g1", "raid"))) else {
        panic!("unexpected");
    };
    assert_eq!(
        f.message(),
        "unexpected answer to a group list: Group(Group { id: \"g1\", name: \"raid\", \
         owner_user_id: \"u1\", created_at: Moment { local: 0, offset: 0 }, \
         members: [] })"
    );
}

fn save(shared: Option<SharedInfo>) -> Save {
    Save {
        id: "s1".into(),
        user_id: None,
        game_slug: "valheim".into(),
        label: "main".into(),
        local_path_hint: None,
        client_os: None,
        latest_version_num: Some(1),
        snapshot_count: Some(1),
        total_size_bytes: Some(1),
        created_at: Moment::utc(0),
        updated_at: Moment::utc(0),
        shared,
    }
}

fn info(includes: &[&str]) -> SharedInfo {
    SharedInfo {
        group_id: "g1".into(),
        group_name: "raid".into(),
        owner_user_id: "u1".into(),
        owner_username: "alice".into(),
        includes: includes.iter().map(|s| s.to_string()).collect(),
    }
}

#[test]
fn a_share_says_what_members_pull() {
    let share::Step::Ask(stage, share::Request::ListGroups) =
        share::share("s1".into(), "raid".into(), Some("Alpha".into()))
    else {
        panic!("looked up");
    };
    let share::Step::Ask(stage, share::Request::ShareSave { save_id, group_id, world }) =
        next_of_share(stage, share::Answer::Groups(vec![group("g1", "raid")]))
    else {
        panic!("asked");
    };
    assert_eq!(
        (save_id.as_str(), group_id.as_str(), world.as_deref()),
        ("s1", "g1", Some("Alpha"))
    );
    let share::Step::Show(out) =
        next_of_share(stage, share::Answer::Save(save(Some(info(&["a", "b"])))))
    else {
        panic!("shown");
    };
    assert_eq!(
        share::lines(&out),
        [
            "shared valheim/main into 'raid' (owner alice)",
            "members pull: a, b"
        ]
    );
    let share::Step::Ask(stage, _) = share::share("s1".into(), ID.into(), None) else {
        panic!("asked");
    };
    let share::Step::Show(out) = next_of_share(stage, share::Answer::Save(save(Some(info(&[])))))
    else {
        panic!("shown");
    };
    assert_eq!(share::lines(&out)[1], "members pull the whole folder");
    assert_eq!(
        share::unshared_line("s1"),
        "unshared s1: back in your own namespace"
    );
}

#[test]
fn a_share_that_needs_a_world_names_the_flag() {
    let ask = || match share::share("s1".into(), ID.into(), None) {
        share::Step::Ask(stage, _) => stage,
        s => panic!("{s:?}"),
    };
    let refusal = |code: &str| {
        share::Answer::Failed(Failure::of(Cause::Ipc(IpcError::Refused {
            code: code.into(),
            message: "which world? Alpha, Beta".into(),
        })))
    };
    let share::Step::Fail(f) = next_of_share(ask(), refusal("needs_input")) else {
        panic!("refused");
    };
    assert_eq!(
        f.message(),
        "pass `--world <name>`: which world? Alpha, Beta"
    );
    assert_eq!(classify(&f).code, "needs_input");
    let share::Step::Fail(f) = next_of_share(ask(), refusal("forbidden")) else {
        panic!("refused");
    };
    assert_eq!(f.message(), "which world? Alpha, Beta");
    let share::Step::Fail(f) = next_of_share(ask(), share::Answer::Save(save(None))) else {
        panic!("unshared");
    };
    assert_eq!(
        f.message(),
        "the service shared s1 but the row came back unshared"
    );
    let share::Step::Fail(f) = next_of_share(ask(), share::Answer::Groups(Vec::new())) else {
        panic!("unexpected");
    };
    assert_eq!(f.message(), "unexpected answer to a share request: Groups([])");
}
