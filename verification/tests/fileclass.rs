//! Which files are save data, which belong to one machine, and which are litter.

use hoard::fileclass::{
    classify, extension_of, holds_mirrored_folder, in_mirrored_folder, included, is_restore_tmp,
    is_useful_shield, mirrored_folders, reaches_beneath, replaced_by_version, stem_of, FileClass, RestoreGate, Scope,
};
use hoard::glob::glob_match;

fn c(path: &str) -> FileClass {
    classify(path, Scope::default())
}

fn shielded(path: &str, shields: &[String]) -> FileClass {
    classify(
        path,
        Scope {
            shields,
            includes: &[],
        },
    )
}

#[test]
fn plain_save_files_are_save_data() {
    for p in [
        "save1.sav",
        "autosave/autosave0.sav",
        "bmonster_4_6_2026_auto_1242.pss",
        "savedGames.gd",
        "level.dat",
        "world/region/r.0.0.mca",
    ] {
        assert_eq!(c(p), FileClass::SaveData, "{p}");
    }
}

/// A real user's folder that currently syncs whole. This is the case that
/// motivated the module.
#[test]
fn the_unity_folder_that_started_this() {
    assert_eq!(c("Player.log"), FileClass::Junk);
    assert_eq!(c("Player-prev.log"), FileClass::Junk);
    assert_eq!(c("steam_autocloud.vdf"), FileClass::Junk);
    assert_eq!(
        c("Unity/0a8833bc-a8ad-47f7-abed-f8d04a6f02f8/Analytics/values"),
        FileClass::Junk
    );
    assert_eq!(
        c("Unity/ShaderVariantAnalytics/ShaderRuntimeInfoEvent.json"),
        FileClass::Junk
    );
    // And the saves in the same folder come out untouched.
    assert_eq!(c("savedGames2.gd"), FileClass::SaveData);
    assert_eq!(c("savedGamesDeepBackup.gd.restore"), FileClass::SaveData);
}

#[test]
fn os_and_temp_junk() {
    for p in [
        ".DS_Store",
        "Thumbs.db",
        "desktop.ini",
        "._save.sav",
        "crash_2026.dmp",
        "save.sav.tmp",
        "download.part",
    ] {
        assert_eq!(c(p), FileClass::Junk, "{p}");
    }
}

#[test]
fn config_is_device_local_not_junk() {
    for p in [
        "graphics.ini",
        "settings.toml",
        "config.json",
        "GraphicsSettings.json",
        "Fallout4Prefs.ini",
        "UserOptions.dat",
        "keybinds.cfg",
        "video.yaml",
        "debug.log",
    ] {
        assert_eq!(c(p), FileClass::DeviceLocal, "{p}");
    }
}

/// The ladder's rule: anything doubtful still uploads. Only unambiguous
/// litter stays out of the snapshot.
#[test]
fn only_junk_is_dropped_from_the_backup() {
    assert!(!FileClass::Junk.is_backed_up());
    assert!(FileClass::DeviceLocal.is_backed_up());
    assert!(FileClass::SaveData.is_backed_up());
}

#[test]
fn device_local_needs_an_explicit_yes_to_be_restored() {
    assert!(!FileClass::DeviceLocal.is_restored(false));
    assert!(FileClass::DeviceLocal.is_restored(true));
    // Litter does not come back even on request; the switch is for config.
    assert!(!FileClass::Junk.is_restored(true));
    assert!(FileClass::SaveData.is_restored(false));
}

/// Many games use `*.ini` as their save pattern. Unshielded, the extension rule would take them
/// all.
#[test]
fn the_manifest_shield_beats_every_rule_below_it() {
    let shields = vec!["*.ini".to_string()];
    assert_eq!(shielded("save01.ini", &shields), FileClass::SaveData);
    assert_eq!(shielded("save01.ini", &[]), FileClass::DeviceLocal);

    let log_shield = vec!["*.log".to_string()];
    assert_eq!(shielded("player.log", &log_shield), FileClass::SaveData);
    assert_eq!(shielded("player.log", &[]), FileClass::Junk);
}

#[test]
fn shields_match_on_the_basename_at_any_depth() {
    let shields = vec!["*.bksav".to_string()];
    assert_eq!(
        shielded("Saves/slot3/quick.bksav", &shields),
        FileClass::SaveData
    );
}

#[test]
fn degenerate_patterns_are_not_shields() {
    // These would shield the whole folder and leave the filter doing
    // nothing.
    assert!(!is_useful_shield("*"));
    assert!(!is_useful_shield("*.*"));
    assert!(!is_useful_shield("**"));
    assert!(is_useful_shield("*.sav"));
    assert!(is_useful_shield("save*"));
    assert!(is_useful_shield("gamedata.bin"));
}

#[test]
fn the_gate_is_shut_for_config_by_default() {
    let gate = RestoreGate::default();
    assert!(gate.allows("slot1.sav"));
    assert!(!gate.allows("graphics.ini"));
    assert!(!gate.allows("Player.log"));
}

#[test]
fn the_gate_opens_for_config_when_asked_but_never_for_junk() {
    let gate = RestoreGate {
        shields: Vec::new(),
        includes: Vec::new(),
        allow_device_local: true,
    };
    assert!(gate.allows("graphics.ini"));
    // Litter does not come back even on request.
    assert!(!gate.allows("Player.log"));
    assert!(!gate.allows(".DS_Store"));
}

#[test]
fn a_shielded_config_file_still_goes_through_a_shut_gate() {
    let gate = RestoreGate {
        shields: vec!["*.ini".to_string()],
        includes: Vec::new(),
        allow_device_local: false,
    };
    assert!(gate.allows("save01.ini"));
}

fn inc(patterns: &[&str]) -> Vec<String> {
    patterns.iter().map(|p| p.to_string()).collect()
}

#[test]
fn an_empty_include_list_is_no_filter() {
    assert!(included(&[], "anything/at/all.bin"));
    assert!(included(&[], ""));
}

/// The Valheim template: one world's files under `worlds_local/`, the
/// wildcard only inside the last segment.
#[test]
fn include_matches_segment_by_segment() {
    let list = inc(&[
        "worlds_local/Alpha.db",
        "worlds_local/Alpha.fwl",
        "worlds_local/Alpha_backup_*",
    ]);
    assert!(included(&list, "worlds_local/Alpha.db"));
    assert!(included(
        &list,
        "worlds_local/Alpha_backup_auto-20260913.db"
    ));
    assert!(!included(&list, "worlds_local/Beta.db"));
    assert!(!included(&list, "characters_local/Alpha.fch"));
    // Same name, wrong depth: `*` never crosses a `/`.
    assert!(!included(&list, "Alpha.db"));
    assert!(!included(&list, "worlds_local/old/Alpha.db"));
    // A pattern deeper than the path matches nothing; one at the same
    // depth matches segment by segment.
    assert!(!included(&inc(&["*/*/*"]), "worlds_local/Alpha.db"));
    assert!(included(&inc(&["*/*"]), "worlds_local/Alpha.db"));
}

/// A pattern shorter than the path names a directory and covers everything
/// beneath it: how a game that keeps a world in a folder of its own is named.
#[test]
fn a_shorter_pattern_covers_the_directory_it_names() {
    let list = inc(&["saves/Alpha"]);
    assert!(included(&list, "saves/Alpha/level.dat"));
    assert!(included(&list, "saves/Alpha/region/r.0.0.mca"));
    assert!(!included(&list, "saves/Alpha2/level.dat"));
    assert!(!included(&list, "saves/Beta/level.dat"));
    assert!(!included(&list, "saves"));
    // `*` alone therefore covers the whole root, which is what it says.
    assert!(included(&inc(&["*"]), "worlds_local/Alpha.db"));
}

/// The walk descends only where a pattern can still match something: the
/// prefix test is the same segment rule as [`included`], stopped at the
/// directory's depth.
#[test]
fn a_directory_no_pattern_can_reach_is_not_descended() {
    let list = inc(&["worlds_local/Alpha.db", "worlds_local/Alpha_backup_*"]);
    assert!(reaches_beneath(&list, "worlds_local"));
    assert!(!reaches_beneath(&list, "characters_local"));
    // Deeper than any pattern: nothing under it can match.
    assert!(!reaches_beneath(&list, "worlds_local/old"));
    // A shorter pattern covers the directory and all beneath it.
    assert!(reaches_beneath(
        &inc(&["saves/Alpha"]),
        "saves/Alpha/region"
    ));
    assert!(!reaches_beneath(&inc(&["saves/Alpha"]), "saves/Beta"));
    assert!(reaches_beneath(&inc(&["*/*"]), "worlds_local"));
    // No list, no pruning.
    assert!(reaches_beneath(&[], "anything/at/all"));
}

/// Exact in case: the pattern was made from the name on disk.
#[test]
fn include_is_case_sensitive() {
    assert!(!included(
        &inc(&["worlds_local/alpha.db"]),
        "worlds_local/Alpha.db"
    ));
}

/// only a folder named outright, and only beneath it.
#[test]
fn a_mirrored_folder_is_a_wildcard_free_entry_covering_paths_beneath_it() {
    let list = inc(&[
        "worlds_local/Alpha",
        "worlds_local/Alpha.db",
        "worlds_local/Alpha_backup_*",
        "saves/slot?",
    ]);
    assert!(in_mirrored_folder(&list, "worlds_local/Alpha/_main.8.db2"));
    assert!(in_mirrored_folder(&list, "worlds_local/Alpha/sub/x.chunk"));
    // A sibling whose name starts the same is another world.
    assert!(!in_mirrored_folder(&list, "worlds_local/Alpha2/x"));
    assert!(!in_mirrored_folder(&list, "worlds_local/Alpha2"));
    // The entry itself, and the legacy flat files beside it.
    assert!(!in_mirrored_folder(&list, "worlds_local/Alpha"));
    assert!(!in_mirrored_folder(&list, "worlds_local/Alpha.db"));
    // Wildcard entries keep the merge, file or folder.
    assert!(!in_mirrored_folder(
        &list,
        "worlds_local/Alpha_backup_auto-1/_main.3.db2"
    ));
    assert!(!in_mirrored_folder(&list, "saves/slot1/a.sav"));
    // Case is exact, as in `included`.
    assert!(!in_mirrored_folder(&list, "worlds_local/alpha/_main.8.db2"));
    // Characters, and a save that is not shared at all.
    assert!(!in_mirrored_folder(&list, "characters_local/Me.fch"));
    assert!(!in_mirrored_folder(&[], "worlds_local/Alpha/_main.8.db2"));
    assert_eq!(
        mirrored_folders(&list),
        vec!["worlds_local/Alpha", "worlds_local/Alpha.db"]
    );
}

/// a converted world: once the version holds the folder, the
/// flat files the list names outright are replaced too; a backup the
/// wildcard names, a character and another world never are. A legacy
/// version replaces only what is beneath the folder.
#[test]
fn a_version_holding_the_folder_replaces_the_flat_files_too() {
    let list = inc(&[
        "worlds_local/Alpha",
        "worlds_local/Alpha.db",
        "worlds_local/Alpha.fwl",
        "worlds_local/Alpha.db.old",
        "worlds_local/Alpha_backup_*",
    ]);
    assert!(holds_mirrored_folder(
        &list,
        &["characters_local/Me.fch", "worlds_local/Alpha/_main.2.db2"]
    ));
    assert!(!holds_mirrored_folder(
        &list,
        &["worlds_local/Alpha.db", "worlds_local/Alpha.fwl"]
    ));
    for flat in [
        "worlds_local/Alpha.db",
        "worlds_local/Alpha.fwl",
        "worlds_local/Alpha.db.old",
    ] {
        assert!(replaced_by_version(&list, flat, true), "{flat}");
        assert!(!replaced_by_version(&list, flat, false), "{flat}");
    }
    assert!(replaced_by_version(
        &list,
        "worlds_local/Alpha/_main.1.db2",
        false
    ));
    for kept in [
        "worlds_local/Alpha_backup_auto-1.db",
        "worlds_local/Alpha_backup_auto-1/_main.1.db2",
        "worlds_local/Alpha2.db",
        "characters_local/Me.fch",
    ] {
        assert!(!replaced_by_version(&list, kept, true), "{kept}");
    }
    assert!(!replaced_by_version(&[], "worlds_local/Alpha.db", true));
}

/// `?` is one character of one segment, like everywhere else in the module.
#[test]
fn include_question_mark_is_one_character() {
    let list = inc(&["slot?.sav"]);
    assert!(included(&list, "slot1.sav"));
    assert!(!included(&list, "slot12.sav"));
    assert!(!included(&list, "a/slot1.sav"));
}

/// Outside the list a file is litter to every consumer: not uploaded, not
/// restored, not counted, whatever the shields say about it.
#[test]
fn a_file_outside_the_include_list_is_junk_before_any_shield() {
    let includes = inc(&["worlds_local/Alpha.db"]);
    let shields = inc(&["*.db"]);
    let scope = Scope {
        shields: &shields,
        includes: &includes,
    };
    assert_eq!(
        classify("worlds_local/Alpha.db", scope),
        FileClass::SaveData
    );
    assert_eq!(classify("worlds_local/Beta.db", scope), FileClass::Junk);
    assert!(!classify("worlds_local/Beta.db", scope).is_backed_up());
    assert!(!classify("worlds_local/Beta.db", scope).is_restored(true));
}

/// A restore's staged copy left by a crash is litter even where a
/// shield ending in `*` would take every file for save data, and inside a
/// shared world's folder.
#[test]
fn a_restore_temp_file_is_junk_before_the_shields() {
    let star = inc(&["*"]);
    let tmp = "worlds_local/Alpha/0_0.chunk.hoard-restore.tmp";
    assert_eq!(shielded(tmp, &star), FileClass::Junk);
    let includes = inc(&["worlds_local/Alpha"]);
    let scope = Scope {
        shields: &star,
        includes: &includes,
    };
    assert_eq!(classify(tmp, scope), FileClass::Junk);
    assert_eq!(
        classify("worlds_local/Alpha/0_0.chunk", scope),
        FileClass::SaveData
    );
}

#[test]
fn the_gate_carries_the_include_list() {
    let gate = RestoreGate {
        shields: Vec::new(),
        includes: inc(&["worlds_local/Alpha.db", "worlds_local/Alpha.fwl"]),
        allow_device_local: true,
    };
    assert!(gate.allows("worlds_local/Alpha.db"));
    assert!(!gate.allows("worlds_local/Beta.db"));
    assert!(!gate.allows("characters_local/Me.fch"));
    // Wide open still means wide open.
    assert!(RestoreGate::permissive().allows("characters_local/Me.fch"));
}

#[test]
fn glob_basics() {
    assert!(glob_match("*.sav", "slot1.sav"));
    assert!(!glob_match("*.sav", "slot1.savx"));
    assert!(glob_match("save*", "save"));
    assert!(glob_match("profile?.sav", "profile1.sav"));
    assert!(!glob_match("profile?.sav", "profile12.sav"));
    assert!(glob_match("*save*.dat", "my_save_2.dat"));
}

/// A game's own `analytics` folder is not Unity telemetry. The `Unity/`
/// ancestor is what condemns it.
#[test]
fn analytics_alone_is_not_enough() {
    assert_eq!(c("analytics/run1.sav"), FileClass::SaveData);
    assert_eq!(c("Unity/x/Analytics/run1.sav"), FileClass::Junk);
}

#[test]
fn dotfiles_have_no_extension() {
    assert_eq!(extension_of(".bashrc"), None);
    assert_eq!(extension_of("save.sav").as_deref(), Some("sav"));
    assert_eq!(stem_of("graphicssettings.json"), "graphicssettings");
}

/// `*` is anything, the empty text and a star of the name's own too.
#[test]
fn a_star_is_anything() {
    assert!(glob_match("*", ""));
    assert!(glob_match("*", "***"));
    assert!(glob_match("a*", "a*b"));
    assert!(glob_match("*b", "*ab"));
    assert!(!glob_match("a*c", "a*b"));
    assert!(glob_match("", ""));
    assert!(!glob_match("", "x"));
}

#[test]
fn a_trailing_star_is_a_beginning() {
    assert!(glob_match("Alpha_backup_*", "Alpha_backup_"));
    assert!(glob_match("Alpha_backup_*", "Alpha_backup_auto-1"));
    assert!(!glob_match("Alpha_backup_*", "Alpha_backup"));
}

#[test]
fn a_trailing_slash_on_an_entry_still_names_the_folder() {
    let list = inc(&["worlds_local/Alpha/"]);
    assert!(in_mirrored_folder(&list, "worlds_local/Alpha/x.chunk"));
    assert!(!in_mirrored_folder(&list, "worlds_local/Alphabet/x.chunk"));
}

#[test]
fn a_file_the_list_names_lies_where_the_walk_goes() {
    let list = inc(&["worlds_local/Alpha", "worlds_local/Alpha_backup_*"]);
    let path = "worlds_local/Alpha_backup_1/_main.2.db2";
    assert!(included(&list, path));
    assert!(reaches_beneath(&list, "worlds_local"));
    assert!(reaches_beneath(&list, "worlds_local/Alpha_backup_1"));
}

#[test]
fn a_staged_copy_is_known_by_its_suffix() {
    assert!(is_restore_tmp("slot1.sav.hoard-restore.tmp"));
    assert!(is_restore_tmp("a/b/SLOT1.SAV.HOARD-RESTORE.TMP"));
    assert!(!is_restore_tmp("slot1.sav.tmp"));
    assert!(!is_restore_tmp("hoard-restore.tmp.sav"));
}

#[test]
fn a_scope_of_shields_names_everything() {
    let shields = vec!["*.dmp".to_string()];
    let scope = Scope::shields_only(&shields);
    assert_eq!(classify("deep/world.dmp", scope), FileClass::SaveData);
    assert_eq!(classify("deep/world.sav", Scope::shields_only(&shields)), FileClass::SaveData);
    assert_ne!(c("deep/world.dmp"), FileClass::SaveData);
}
