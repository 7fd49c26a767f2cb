//! What a shared world consists of.

use hoard::agent::worldfiles::{has_template, template, worlds, BadWorld, Entry};
use hoard::fileclass::{included, reaches_beneath};

fn file(name: &str) -> Entry {
    Entry::File(name.into())
}

fn folder(name: &str, files: &[&str]) -> Entry {
    Entry::Folder {
        name: name.into(),
        files: files.iter().map(|f| f.to_string()).collect(),
    }
}

const LEGACY: [&str; 9] = [
    "Alpha.db",
    "Alpha.fwl",
    "Alpha.db.old",
    "Alpha.fwl.old",
    "Alpha_backup_auto-20260913.db",
    "Alpha_backup_auto-20260913.fwl",
    "Beta.db",
    "Beta.fwl",
    // A `.db` with no `.fwl`: a leftover, not a world.
    "Gamma.db",
];

#[test]
fn valheim_worlds_are_the_fwl_stems_sorted() {
    let mut entries: Vec<Entry> = LEGACY.iter().rev().map(|f| file(f)).collect();
    entries.push(file(".fwl"));
    assert_eq!(worlds("valheim", &entries), vec!["Alpha", "Beta"]);
    assert!(worlds("stardew-valley", &entries).is_empty());
    assert!(worlds("valheim", &Vec::new()).is_empty());
}

/// The template names one world's files and nothing of the other world or
/// of any character, checked with the matcher the walk uses.
#[test]
fn the_valheim_template_selects_one_world_and_no_character() {
    let list = template("valheim", "Alpha").unwrap().unwrap();
    assert_eq!(
        list,
        vec![
            "worlds_local/Alpha",
            "worlds_local/Alpha.db",
            "worlds_local/Alpha.fwl",
            "worlds_local/Alpha.db.old",
            "worlds_local/Alpha.fwl.old",
            "worlds_local/Alpha_backup_*",
        ]
    );
    let mut kept: Vec<String> = Vec::new();
    for f in LEGACY {
        let rel = format!("worlds_local/{f}");
        if included(&list, &rel) {
            kept.push(rel);
        }
    }
    for f in ["Me.fch", "Me.fch.old", "Alpha.fch"] {
        let rel = format!("characters_local/{f}");
        if included(&list, &rel) {
            kept.push(rel);
        }
    }
    kept.sort();
    assert_eq!(
        kept,
        vec![
            "worlds_local/Alpha.db",
            "worlds_local/Alpha.db.old",
            "worlds_local/Alpha.fwl",
            "worlds_local/Alpha.fwl.old",
            "worlds_local/Alpha_backup_auto-20260913.db",
            "worlds_local/Alpha_backup_auto-20260913.fwl",
        ]
    );
}

#[test]
fn valheim_1_0_worlds_are_listed_beside_the_legacy_ones() {
    let mut entries = vec![
        folder(
            "Alpha",
            &["_main.4.fwl2", "_main.4.db2", "_main.4.chunks", "_main.4.ok", "0_0.chunk"],
        ),
        file("Alpha.db.old"),
        file("Alpha.fwl.old"),
        folder("Alpha_backup_auto-20260915", &["_main.2.fwl2", "_main.2.db2", "0_0.chunk"]),
        file("Beta.db"),
        file("Beta.fwl"),
        folder("Gamma", &["_main.1.fwl2", "_main.1.db2", "0_0.chunk"]),
        // A folder with no generation: not a world.
        folder("Scratch", &["notes.txt", "_main..fwl2", "x_main.1.fwl2"]),
    ];
    assert_eq!(worlds("valheim", &entries), vec!["Alpha", "Beta", "Gamma"]);
    // Mid-conversion both layouts name `Alpha`: it is listed once.
    entries.push(file("Alpha.fwl"));
    assert_eq!(worlds("valheim", &entries), vec!["Alpha", "Beta", "Gamma"]);
}

/// The same template covers a converted world: its folder, nested files
/// and all, its `_backup_` folder and its `.old` twins, and nothing of
/// another world's folder or of any character.
#[test]
fn the_valheim_template_covers_a_1_0_world_folder() {
    let list = template("valheim", "Alpha").unwrap().unwrap();
    let mut kept: Vec<&str> = [
        "worlds_local/Alpha/_main.4.fwl2",
        "worlds_local/Alpha/_main.4.db2",
        "worlds_local/Alpha/_main.4.chunks",
        "worlds_local/Alpha/_main.4.ok",
        "worlds_local/Alpha/0_0.chunk",
        "worlds_local/Alpha/-1_2.chunk",
        "worlds_local/Alpha.db.old",
        "worlds_local/Alpha.fwl.old",
        "worlds_local/Alpha_backup_auto-20260915/_main.2.fwl2",
        "worlds_local/Alpha_backup_auto-20260915/_main.2.db2",
        "worlds_local/Alpha_backup_auto-20260915/0_0.chunk",
        "worlds_local/Beta.db",
        "worlds_local/Beta.fwl",
        "worlds_local/Gamma/_main.1.fwl2",
        "worlds_local/Gamma/_main.1.db2",
        "worlds_local/Gamma/0_0.chunk",
        "worlds_local/Scratch/notes.txt",
        "characters_local/Me.fch",
        "characters_local/Alpha.fch",
    ]
    .into_iter()
    .filter(|f| included(&list, f))
    .collect();
    kept.sort();
    assert_eq!(
        kept,
        vec![
            "worlds_local/Alpha.db.old",
            "worlds_local/Alpha.fwl.old",
            "worlds_local/Alpha/-1_2.chunk",
            "worlds_local/Alpha/0_0.chunk",
            "worlds_local/Alpha/_main.4.chunks",
            "worlds_local/Alpha/_main.4.db2",
            "worlds_local/Alpha/_main.4.fwl2",
            "worlds_local/Alpha/_main.4.ok",
            "worlds_local/Alpha_backup_auto-20260915/0_0.chunk",
            "worlds_local/Alpha_backup_auto-20260915/_main.2.db2",
            "worlds_local/Alpha_backup_auto-20260915/_main.2.fwl2",
        ]
    );
    // The next generation, under a name no one has seen yet, is covered.
    assert!(included(&list, "worlds_local/Alpha/_main.5.db2"));
    assert!(!included(&list, "worlds_local/Gamma/_main.1.db2"));
    assert!(!included(&list, "worlds_local/Alpha2/_main.1.db2"));
    assert!(!reaches_beneath(&list, "worlds_local/Gamma"));
    assert!(!reaches_beneath(&list, "characters_local"));
    assert!(reaches_beneath(&list, "worlds_local/Alpha"));
}

#[test]
fn other_games_have_no_template() {
    assert_eq!(template("stardew-valley", "Alpha"), Ok(None));
    assert!(!has_template("stardew-valley"));
    assert!(has_template("valheim"));
}

/// A name that is not a file stem is refused for every game, template or
/// not: the check is on the name, so a caller can 400 before looking up
/// the game.
#[test]
fn a_world_name_that_is_not_a_stem_is_refused() {
    for bad in ["", "a/b", "a\\b", "*", "Alpha?", "..", "x..y", "../Alpha"] {
        assert_eq!(
            template("valheim", bad),
            Err(BadWorld(bad.to_string())),
            "{bad:?}"
        );
        assert!(template("stardew-valley", bad).is_err(), "{bad:?}");
    }
    assert!(template("valheim", "Alpha World 2").is_ok());
    assert_eq!(
        BadWorld("a/b".into()).message(),
        "`a/b` is not a world name: no `/`, `\\`, `*`, `?` or `..`, and not empty"
    );
}
