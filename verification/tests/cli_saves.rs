//! `hoard adopt`, `hoard config`, `hoard status` and `hoard saves`.

use hoard::agent::api::ApiError;
use hoard::agent::idmap::IdMap;
use hoard::agent::slot::{CliState, SaveState, SharedRef, WorldLease};
use hoard::cli::adopt::{
    check, coded, existing, lexical, not_tracked, row_in_manifest, row_of, AdoptError, AdoptOut,
    AdoptRefusal, Folder, Found, ManifestEntry, Part,
};
use hoard::cli::config::{may_init, parse_bool, prerelease_line, rechecks, Setting};
use hoard::cli::{adopt, config};
use hoard::cli::order::{order_by, Key};
use hoard::cli::output::{classify, Cause, Failure};
use hoard::cli::saves::{hosted, saves, table};
use hoard::cli::status::{lines, shared_in, with_hosts, StatusOut};
use hoard::cli::world::{AgentSlotStatus, DaemonStatus, Hosts};
use hoard::clock::Moment;
use hoard::wire::{Lease, Save};

const ID: &str = "11111111-2222-3333-4444-555555555555";

fn code(f: &Failure) -> String {
    classify(f).code
}

fn folder(path: &str) -> Result<Folder, String> {
    Ok(Folder {
        path: path.into(),
        exists: false,
        is_dir: false,
        refusal: None,
    })
}

fn state(game: &str, label: &str, group: Option<&str>) -> SaveState {
    SaveState {
        local_path: "/saves".into(),
        game_slug: game.into(),
        label: label.into(),
        last_backup_at: None,
        last_version_num: None,
        paused: false,
        preset: None,
        shared: group.map(|g| SharedRef {
            group_id: "g1".into(),
            group_name: g.into(),
            owner_user_id: "u1".into(),
            owner_username: "alice".into(),
            includes: Vec::new(),
            caller_owns: false,
        }),
        includes: Vec::new(),
    }
}

fn tracking(id: &str, path: &str) -> CliState {
    let mut s = state("factorio", "main", None);
    s.local_path = path.into();
    CliState {
        saves: vec![(id.into(), s)],
    }
}

/// An absolute path of `/`-separated parts.
fn parts(path: &str) -> Vec<Part> {
    let mut r = vec![Part::Anchor("/".into())];
    for p in path.split('/').filter(|p| !p.is_empty()) {
        r.push(match p {
            "." => Part::Current,
            ".." => Part::Parent,
            name => Part::Name(name.into()),
        });
    }
    r
}

fn spell(path: Vec<Part>) -> String {
    let mut r = String::new();
    for p in path {
        match p {
            Part::Anchor(_) => {}
            Part::Name(n) => {
                r.push('/');
                r.push_str(&n);
            }
            other => panic!("{other:?}"),
        }
    }
    r
}

#[test]
fn a_folder_is_taken_as_an_absolute_path() {
    let got = check(ID, "valheim", folder("/games/valheim")).unwrap();
    assert_eq!(got, "/games/valheim");
    let e = check(ID, "worlds", Err("no current directory".into())).unwrap_err();
    assert_eq!(code(&e), "bad_request");
    assert_eq!(
        e.message(),
        "`worlds` is not a usable folder: no current directory"
    );
}

/// Refused on the state that the session selected.
#[test]
fn a_save_tracked_here_is_refused() {
    let err = not_tracked(&tracking(ID, "/games/a"), ID).unwrap_err();
    assert_eq!(code(&err), "already_tracked");
    assert!(err.message().contains("hoard save path"), "{err:?}");
    assert!(not_tracked(&tracking("x", "/games/a"), ID).is_ok());
    let refusal = AdoptRefusal::AlreadyTracked {
        save_id: ID.into(),
        local_path: "/games/a".into(),
    };
    assert_eq!(
        coded(AdoptError::Refused(refusal)).message(),
        err.message()
    );
}

#[test]
fn an_id_that_is_not_a_uuid_is_refused() {
    let err = check("valheim", "/games", folder("/games")).unwrap_err();
    assert_eq!(code(&err), "bad_request");
}

#[test]
fn a_file_or_an_empty_path_is_not_a_folder() {
    let file = Folder {
        path: "/games/world.fwl".into(),
        exists: true,
        is_dir: false,
        refusal: None,
    };
    let err = check(ID, "/games/world.fwl", Ok(file)).unwrap_err();
    assert_eq!(code(&err), "bad_request");
    assert!(err.message().contains("not a folder"), "{err:?}");
    let err = check(ID, "", Err("cannot make an empty path absolute".into())).unwrap_err();
    assert_eq!(code(&err), "bad_request");
}

/// The engine's own refusals, of a filesystem root say, come through as `bad_request` too.
#[test]
fn a_dangerous_folder_is_refused() {
    let root = Folder {
        path: "/".into(),
        exists: true,
        is_dir: true,
        refusal: Some("/ is a filesystem root".into()),
    };
    let err = check(ID, "/", Ok(root)).unwrap_err();
    assert_eq!(code(&err), "bad_request");
    assert_eq!(err.message(), "/ is a filesystem root");
}

#[test]
fn dot_dot_is_taken_out_before_anything_is_stored() {
    assert_eq!(spell(lexical(parts("/base/a/../b"))), "/base/b");
    assert_eq!(spell(lexical(parts("/base/./a/./b/.."))), "/base/a");
    assert_eq!(spell(lexical(parts("/../../a"))), "/a");
    assert_eq!(spell(lexical(parts("/games/factorio/.."))), "/games");
    assert_eq!(spell(lexical(parts("/home/u/games/.."))), "/home/u");
}

/// The home folder spelled with `..` is still the home folder.
#[test]
fn dot_dot_up_to_a_home_folder_is_refused() {
    let home = spell(lexical(parts("/home/u/games/..")));
    let found = Folder {
        refusal: Some(format!("{home} is a home folder")),
        path: home,
        exists: true,
        is_dir: true,
    };
    let err = check(ID, "/home/u/games/..", Ok(found)).unwrap_err();
    assert_eq!(code(&err), "bad_request");
    assert!(err.message().contains("/home/u"), "{err:?}");
}

/// `..` from a folder next to a tracked save names the folder holding it, and that is refused.
#[test]
fn dot_dot_from_beside_a_tracked_save_is_refused() {
    let games = spell(lexical(parts("/base/games/factorio/..")));
    let got = check(ID, "/base/games/factorio/..", folder(&games)).unwrap();
    assert_eq!(got, "/base/games");
    // The folder passes by itself; what is tracked below it refuses it.
    let refusal = AdoptRefusal::Invalid("'valheim' is inside this folder".into());
    let err = coded(AdoptError::Refused(refusal));
    assert_eq!(code(&err), "bad_request");
    assert!(err.message().contains("inside this folder"), "{err:?}");
}

#[test]
fn a_link_into_a_tracked_save_is_refused() {
    // `/base/shortcut` is a link to `/base/games/valheim`, and `worlds` is not there yet.
    let found = vec![Found::There, Found::There, Found::Linked, Found::Nothing];
    assert_eq!(existing(&found), (3, true));
    let got = check(ID, "/base/shortcut/worlds", folder("/base/games/valheim/worlds")).unwrap();
    assert_eq!(got, "/base/games/valheim/worlds");
    let refusal = AdoptRefusal::Invalid("'valheim' already tracks it".into());
    assert_eq!(code(&coded(AdoptError::Refused(refusal))), "bad_request");
}

#[test]
fn the_longest_prefix_that_is_there_may_be_reached_through_a_link() {
    assert_eq!(existing(&vec![Found::There, Found::There, Found::Nothing]), (2, false));
    assert_eq!(existing(&vec![Found::There, Found::Linked, Found::Nothing]), (2, true));
    // A link to nothing is not there, and what comes after it does not count.
    assert_eq!(existing(&vec![Found::There, Found::Dangling, Found::Linked]), (1, false));
    assert_eq!(existing(&Vec::new()), (0, false));
}

/// The engine's folder and slug refusals are the request's fault.
#[test]
fn a_folder_the_engine_refuses_is_a_bad_request() {
    let err = coded(AdoptError::Refused(AdoptRefusal::Invalid(
        "'valheim' already tracks it".into(),
    )));
    assert_eq!(code(&err), "bad_request");
    assert_eq!(err.message(), "'valheim' already tracks it");
    // Anything else keeps its own code.
    let err = coded(AdoptError::Other(Failure::of(Cause::Other("disk full".into()))));
    assert_eq!(code(&err), "error");
}

#[test]
fn a_save_is_found_in_the_manifest_or_by_its_row() {
    let entries = vec![ManifestEntry {
        save_id: ID.into(),
        game_slug: "valheim".into(),
        label: "main".into(),
    }];
    assert_eq!(
        row_in_manifest(&entries, ID).unwrap(),
        ("valheim".to_string(), "main".to_string())
    );
    let e = row_in_manifest(&entries, "other").unwrap_err();
    assert_eq!((code(&e).as_str(), classify(&e).exit), ("not_found", 3));
    assert_eq!(
        e.message(),
        "the server has no save other this account can reach: not found"
    );
    let save = Save {
        id: ID.into(),
        user_id: None,
        game_slug: "valheim".into(),
        label: "main".into(),
        local_path_hint: None,
        client_os: None,
        latest_version_num: Some(0),
        snapshot_count: Some(0),
        total_size_bytes: Some(0),
        created_at: Moment::utc(0),
        updated_at: Moment::utc(0),
        shared: None,
    };
    assert_eq!(row_of(Ok(save), ID).unwrap().1, "main");
    let missing = Failure::of(Cause::Api(ApiError::NotFound, "not found".into()));
    let e = row_of(Err(missing), "other").unwrap_err();
    assert!(e.message().starts_with("the server has no save other"));
    let down = Failure::of(Cause::Api(ApiError::Network("down".into()), "down".into()));
    assert_eq!(row_of(Err(down), "other").unwrap_err().message(), "down");
}

#[test]
fn an_adopt_is_told_in_one_line() {
    let state = CliState {
        saves: vec![("s1".into(), state("valheim", "main", None))],
    };
    let mut out = saves(&state, &IdMap::new(), "/state.json".into());
    let mut adopted = AdoptOut {
        save: out.saves.remove(0),
        watching: true,
    };
    assert_eq!(
        adopt::line(&adopted),
        "adopted valheim/main (s1) into /saves; the sync service picked it up"
    );
    adopted.watching = false;
    assert!(adopt::line(&adopted).ends_with("picks it up when it starts"));
}

#[test]
fn prerelease_takes_a_boolean() {
    assert_eq!(parse_bool("true"), Some(true));
    assert_eq!(parse_bool(" FALSE "), Some(false));
    assert_eq!(parse_bool("on"), Some(true));
    assert_eq!(parse_bool("0"), Some(false));
    assert_eq!(parse_bool("maybe"), None);
}

#[test]
fn a_setting_is_one_of_two() {
    assert!(matches!(
        config::set("updates.prerelease".into(), "Yes".into()),
        Ok(Setting::Prerelease(true))
    ));
    assert!(matches!(
        config::set("server.url".into(), "https://x".into()),
        Ok(Setting::ServerUrl(u)) if u == "https://x"
    ));
    assert_eq!(
        config::set("updates.prerelease".into(), "a\"b\n".into())
            .unwrap_err()
            .message(),
        "updates.prerelease takes true or false, not \"a\\\"b\\n\""
    );
    assert_eq!(
        config::set("x".into(), "y".into()).unwrap_err().message(),
        "unknown key: x (supported: server.url, updates.prerelease)"
    );
    assert!(prerelease_line(true).starts_with("pre-releases are test builds"));
    assert!(prerelease_line(false).starts_with("full releases only"));
    assert!(rechecks(true, false) && !rechecks(true, true));
}

#[test]
fn a_config_is_not_written_over() {
    assert!(may_init("/c", false, false).is_ok());
    assert!(may_init("/c", true, true).is_ok());
    assert_eq!(
        may_init("/c", true, false).unwrap_err().message(),
        "config already exists at /c (pass --force to overwrite)"
    );
}

#[test]
fn a_state_that_fails_to_load_shares_nothing() {
    let broken = Failure::of(Cause::Other("state.json is corrupt".into()));
    assert!(shared_in(Err(broken)).is_empty());
}

fn three() -> CliState {
    CliState {
        saves: vec![
            ("s1".into(), state("valheim", "main", Some("raid"))),
            ("s2".into(), state("stardew", "farm", None)),
            ("s3".into(), state("terraria", "a", Some("friends"))),
        ],
    }
}

#[test]
fn only_shared_saves_are_listed_in_order() {
    let rows = shared_in(Ok(three()));
    let ids: Vec<_> = rows.iter().map(|r| r.save_id.as_str()).collect();
    assert_eq!(ids, ["s3", "s1"]);
    assert_eq!(rows[1].group, "raid");
    assert!(rows.iter().all(|r| r.hosted.is_none()));
}

#[test]
fn a_status_names_who_hosts() {
    let rows = with_hosts(shared_in(Ok(three())), None);
    assert!(rows[0].lease.is_none());
    let status = DaemonStatus {
        slots: vec![AgentSlotStatus {
            save_id: "s1".into(),
            lease: Some(WorldLease::Other),
            lease_holder: Some("bob".into()),
            lease_behind: false,
        }],
    };
    let shared = with_hosts(rows, Some(&Hosts::from_status(&status)));
    assert_eq!(shared[0].lease, Some("unknown"));
    assert_eq!(shared[1].lease, Some("other"));
    let out = StatusOut {
        server: "https://x".into(),
        status: "ok".into(),
        version: "1.2.0".into(),
        uptime_secs: 90,
        shared,
    };
    assert_eq!(
        lines(&out),
        [
            "server:  https://x",
            "status:  ok",
            "version: 1.2.0",
            "uptime:  90s",
            "shared:  terraria/a in 'friends', unknown",
            "shared:  valheim/main in 'raid', hosted by bob",
        ]
    );
}

#[test]
fn rows_stand_by_game_and_label_and_each_once() {
    let key = |game_slug, label| Key { game_slug, label };
    let order = order_by(&vec![key("b", "x"), key("a", "y"), key("b", "a"), key("a", "y")]);
    assert_eq!(order, [1, 3, 2, 0]);
}

#[test]
fn saves_are_a_table() {
    let mut state = three();
    state.saves[0].1.last_backup_at = Some(Moment::utc(1_800_000_000));
    state.saves[0].1.last_version_num = Some(12);
    state.saves[0].1.paused = true;
    let mut hosts = IdMap::new();
    hosts.set("s1", "hosted by somebody else".to_string());
    let out = saves(&state, &hosts, "/state.json".into());
    let ids: Vec<_> = out.saves.iter().map(|r| r.save_id.as_str()).collect();
    assert_eq!(ids, ["s2", "s3", "s1"]);
    assert_eq!(
        out.saves[2].last_backup_at.as_deref(),
        Some("2027-01-15T08:00:00Z")
    );
    let lines = table(&out, true);
    assert_eq!(lines.len(), 6);
    assert_eq!(
        lines[3],
        "valheim                   main           v12  2027-01-15 08:00:00   paused    \
         raid          hosted by someb…  /saves"
    );
    assert_eq!(lines[5], "3 save(s) · /state.json");
    assert!(!table(&out, false)[0].contains("HOST"));
    let none = CliState { saves: Vec::new() };
    let out = saves(&none, &hosts, "/state.json".into());
    assert_eq!(table(&out, false)[0], "you don't track any save on this machine.");
}

#[test]
fn a_host_is_told_by_the_lease() {
    let lease = |fp: Option<&str>, live| Lease {
        save_id: "s1".into(),
        holder_user_id: "u2".into(),
        holder_username: "alice".into(),
        holder_device_fp: fp.map(String::from),
        acquired_at: Moment::utc(0),
        renewed_at: Moment::utc(0),
        base_version: 4,
        pushed_since: false,
        live,
    };
    assert_eq!(hosted(None, "fp"), None);
    assert_eq!(hosted(Some(&lease(Some("fp"), false)), "fp"), None);
    assert_eq!(
        hosted(Some(&lease(Some("fp"), true)), "fp").as_deref(),
        Some("hosted here")
    );
    assert_eq!(
        hosted(Some(&lease(None, true)), "fp").as_deref(),
        Some("hosted by alice")
    );
}

#[test]
fn a_verbatim_path_is_spelled_plainly() {
    let plain = |p: &str| adopt::without_verbatim(p.into());
    assert_eq!(plain(r"\\?\C:\games"), r"C:\games");
    assert_eq!(plain(r"\\?\UNC\server\games"), r"\\?\UNC\server\games");
    assert_eq!(plain(r"C:\games"), r"C:\games");
    assert_eq!(plain("/games"), "/games");
}
