//! What a restore writes, and which patterns shield a game's files.

use hoard::agent::savefilter::{
    gate_for_save, owner_share_include, restore_include, shields_for_slug, templates_of,
    CataloguePaths,
};
use hoard::agent::slot::{SaveState, SharedRef, WatchedSave};
use hoard::fileclass::is_useful_shield;

fn shared(caller_owns: bool) -> SharedRef {
    SharedRef {
        group_id: "g1".into(),
        group_name: "friends".into(),
        owner_user_id: "u1".into(),
        owner_username: "alice".into(),
        includes: vec!["worlds/One.wld".into()],
        caller_owns,
    }
}

fn texts(list: &[&str]) -> Vec<String> {
    list.iter().map(|s| s.to_string()).collect()
}

/// Only the owner has files outside the share to keep: a member's restore
/// never writes there, and an unshared save has no share to be outside of.
/// The owner is the server's mark, not an account id.
#[test]
fn only_the_owner_keeps_files_outside_the_share() {
    let owner = shared(true);
    let member = shared(false);
    assert_eq!(
        owner_share_include(Some(&owner)),
        ["worlds/One.wld".to_string()]
    );
    assert!(owner_share_include(Some(&member)).is_empty());
    assert!(owner_share_include(None).is_empty());
}

#[test]
fn a_restore_narrows_to_the_share_only_for_a_member() {
    let member = shared(false);
    let owner = shared(true);
    // The owner restores the whole of their own history, with the share's
    // list still on the row as its world.
    assert!(restore_include(Some(&owner)).is_empty());
    // A member restores the share's files.
    assert_eq!(
        restore_include(Some(&member)),
        ["worlds/One.wld".to_string()]
    );
    // An unshared save has no list for anybody.
    assert!(restore_include(None).is_empty());
}

#[test]
fn a_game_with_file_patterns_yields_them() {
    let shields = shields_for_slug(&texts(&[
        "<root>/userdata/<storeUserId>/105600/remote/players/*.plr",
        "<root>/userdata/<storeUserId>/105600/remote/worlds/*.wld",
    ]));
    assert!(shields.contains(&"*.plr".to_string()), "{shields:?}");
    assert!(shields.contains(&"*.wld".to_string()), "{shields:?}");
}

#[test]
fn a_bare_directory_template_yields_no_shield() {
    assert!(shields_for_slug(&texts(&["<winDocuments>/My Games/Fallout4/Saves"])).is_empty());
}

#[test]
fn an_unknown_slug_is_not_an_error() {
    assert!(shields_for_slug(&templates_of(None)).is_empty());
}

/// The Windows patterns count on every host: under Proton the folder is Windows-shaped.
#[test]
fn windows_patterns_count_on_every_host() {
    let only_windows = CataloguePaths {
        windows: texts(&["<base>/SavesDir/*.sav"]),
        linux: Vec::new(),
        mac: Vec::new(),
    };
    let shields = shields_for_slug(&templates_of(Some(&only_windows)));
    assert!(shields.contains(&"*.sav".to_string()), "{shields:?}");
}

/// The three systems in turn; a pattern that two of them declare shields once.
#[test]
fn the_templates_of_all_three_systems_count() {
    let entry = CataloguePaths {
        windows: texts(&["<winDocuments>/Game/*.plr", "<base>/Saves"]),
        linux: texts(&["<xdgData>/Game/*.wld"]),
        mac: texts(&["<home>/Library/Game/*.PLR", "<home>/Library/Game/*.map"]),
    };
    assert_eq!(
        templates_of(Some(&entry)),
        texts(&[
            "<winDocuments>/Game/*.plr",
            "<base>/Saves",
            "<xdgData>/Game/*.wld",
            "<home>/Library/Game/*.PLR",
            "<home>/Library/Game/*.map",
        ])
    );
    assert_eq!(
        shields_for_slug(&templates_of(Some(&entry))),
        texts(&["*.plr", "*.wld", "*.map"])
    );
    assert!(templates_of(None).is_empty(), "a game that the catalogue does not know");
}

/// `*.*` matches everything: it would shield the whole folder and void the
/// filter.
#[test]
fn degenerate_patterns_never_become_shields() {
    let templates = texts(&[
        "<base>/*", "<base>/*.*", "<base>/**", "<base>/Saves", "<base>/*.SAV", "<base>/x/*.sav",
        "<base>/slot?.dat",
    ]);
    let shields = shields_for_slug(&templates);
    for s in &shields {
        assert!(is_useful_shield(s), "shielded with {s}");
    }
    // In lower case, and each once.
    assert_eq!(shields, texts(&["*.sav", "slot?.dat"]));
}

#[test]
fn a_gate_is_the_shields_the_list_and_the_answer() {
    let gate = gate_for_save(&texts(&["<base>/*.ini"]), &texts(&["saves"]), false);
    assert!(gate.allows("saves/slot1.ini"));
    assert!(!gate.allows("saves/graphics.cfg"));
    assert!(!gate.allows("other/slot1.ini"));
    assert!(gate_for_save(&[], &[], true).allows("graphics.cfg"));
}

fn watched(caller_owns: bool, walk: &[&str]) -> WatchedSave {
    WatchedSave {
        save_id: "s1".into(),
        game_slug: "valheim".into(),
        label: "main".into(),
        local_path: "/saves".into(),
        track_only: false,
        shared: Some(shared(caller_owns)),
        includes: texts(walk),
    }
}

#[test]
fn the_owner_of_a_part_walks_the_whole_folder() {
    assert!(watched(true, &[]).owns_whole_folder());
    // Narrowed to the world, the owner pushes like a member.
    assert!(!watched(true, &["worlds/One.wld"]).owns_whole_folder());
    assert!(!watched(false, &[]).owns_whole_folder());
    let mut whole = watched(true, &[]);
    whole.shared.as_mut().unwrap().includes.clear();
    assert!(!whole.owns_whole_folder());
    let mut unshared = watched(true, &[]);
    unshared.shared = None;
    assert!(!unshared.owns_whole_folder());
    assert!(unshared.world().is_empty());
    assert_eq!(watched(true, &[]).world(), ["worlds/One.wld".to_string()]);
    assert!(watched(false, &["saves"]).gate(&[], false).allows("saves/a.sav"));
}

#[test]
fn a_state_has_the_shares_world_for_owner_and_member() {
    let mut state = SaveState {
        local_path: "/saves".into(),
        game_slug: "valheim".into(),
        label: "main".into(),
        last_backup_at: None,
        last_version_num: None,
        paused: false,
        preset: None,
        shared: Some(shared(true)),
        includes: Vec::new(),
    };
    assert_eq!(state.world(), ["worlds/One.wld".to_string()]);
    assert_eq!(shared(false).world(), ["worlds/One.wld".to_string()]);
    assert!(state.gate(&[], false).allows("characters/Me.fch"));
    state.shared = None;
    assert!(state.world().is_empty());
}
