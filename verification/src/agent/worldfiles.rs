//! What a shared save consists of, per game.
//!
//! A shared save is one world, not the whole folder: Valheim keeps every world and every character
//! of the account under one root, and a group shares a world while each member keeps their own
//! character. The template names that world's files and folder as patterns below the save's root,
//! and those patterns travel with the share, so that every member walks the same files.
//!
//! The world's name is inserted literally, so it has to be a bare file stem: anything that could
//! leave the folder or widen the match is refused before it reaches the server.

use vstd::prelude::*;

#[allow(unused_imports)]
use crate::fileclass::{covers, named_by};
#[allow(unused_imports)]
use crate::glob::{
    a_trailing_star_matches_a_beginning, globs, literal_patterns_match_themselves,
};
use crate::text::{add_in_order, holds, holds_text, same, strip_prefix, strip_suffix};
#[allow(unused_imports)]
use crate::text::{
    begins, ends, in_text_order, mentions, split_joins, split_of_unbroken, split_on, views,
};

verus! {

/// The game whose world layout is known. Others share the whole folder.
pub const VALHEIM: &'static str = "valheim";

/// A world name that is not a bare file stem.
#[derive(Debug, Clone, PartialEq, Eq)]
pub struct BadWorld(pub String);

impl BadWorld {
    /// What the user is told.
    pub fn message(&self) -> (r: String)
        ensures
            r@ == "`"@ + self.0@
                + "` is not a world name: no `/`, `\\`, `*`, `?` or `..`, and not empty"@,
    {
        let mut r = String::new();
        r.append("`");
        r.append(self.0.as_str());
        r.append("` is not a world name: no `/`, `\\`, `*`, `?` or `..`, and not empty");
        assert(r@ =~= "`"@ + self.0@
            + "` is not a world name: no `/`, `\\`, `*`, `?` or `..`, and not empty"@);
        r
    }
}

/// Is the name a bare file stem: nothing in it can leave the folder or widen the match?
pub open spec fn is_stem(world: Seq<char>) -> bool {
    &&& world.len() > 0
    &&& !world.contains('/')
    &&& !world.contains('\\')
    &&& !world.contains('*')
    &&& !world.contains('?')
    &&& !mentions(world, ".."@)
}

/// A name in the worlds' folder.
pub open spec fn in_worlds(name: Seq<char>) -> Seq<char> {
    "worlds_local/"@ + name
}

/// What follows a world's name in the entries that name it.
pub open spec fn suffixes() -> Seq<Seq<char>> {
    seq![""@, ".db"@, ".fwl"@, ".db.old"@, ".fwl.old"@, "_backup_*"@]
}

/// The entries that name a Valheim world: its folder, the flat files of the older layout with
/// their `.old` twins, and the `_backup_` copies.
pub open spec fn valheim(world: Seq<char>) -> Seq<Seq<char>> {
    Seq::new(6, |i: int| in_worlds(world + suffixes()[i]))
}

fn entry(world: &str, suffix: &str) -> (r: String)
    ensures
        r@ == in_worlds(world@ + suffix@),
{
    let mut r = String::new();
    r.append("worlds_local/");
    r.append(world);
    r.append(suffix);
    assert(r@ =~= in_worlds(world@ + suffix@));
    r
}

/// The list for `world` of `game_slug`, or `None` when the game has no known world layout: the
/// whole folder is what gets shared then. A name that is not a stem is refused for every game.
pub fn template(game_slug: &str, world: &str) -> (r: Result<Option<Vec<String>>, BadWorld>)
    ensures
        match r {
            Ok(list) => {
                &&& is_stem(world@)
                &&& list is Some <==> game_slug@ == VALHEIM@
                &&& list is Some ==> views(list->0@) == valheim(world@)
            },
            Err(e) => !is_stem(world@) && e.0@ == world@,
        },
{
    if world.is_empty() || holds(world, '/') || holds(world, '\\') || holds(world, '*') || holds(
        world,
        '?',
    ) || holds_text(world, "..") {
        return Err(BadWorld(world.to_owned()));
    }
    if !same(game_slug, VALHEIM) {
        return Ok(None);
    }
    let mut list: Vec<String> = Vec::new();
    list.push(entry(world, ""));
    list.push(entry(world, ".db"));
    list.push(entry(world, ".fwl"));
    list.push(entry(world, ".db.old"));
    list.push(entry(world, ".fwl.old"));
    list.push(entry(world, "_backup_*"));
    assert(views(list@) =~= valheim(world@));
    Ok(Some(list))
}

/// Does this game share by world at all? The question to ask before offering a picker.
pub fn has_template(game_slug: &str) -> (r: bool)
    ensures
        r == (game_slug@ == VALHEIM@),
{
    same(game_slug, VALHEIM)
}

/// What stands in the worlds' folder: a file, or a folder with the names of the files in it.
#[derive(Debug)]
pub enum Entry {
    File(String),
    Folder { name: String, files: Vec<String> },
}

/// Is this the file that names a world in the newer layout, `_main.<N>.fwl2`?
pub open spec fn is_generation(file: Seq<char>) -> bool {
    &&& begins(file, "_main."@)
    &&& ends(file.skip("_main."@.len() as int), ".fwl2"@)
    &&& file.len() > "_main."@.len() + ".fwl2"@.len()
}

/// Does the folder hold a world of the newer layout?
pub open spec fn holds_world(files: Seq<String>) -> bool {
    exists|i: int| 0 <= i < files.len() && is_generation((#[trigger] files[i])@)
}

/// The world that the entry names, its own copies aside.
pub open spec fn world_named(e: Entry) -> Option<Seq<char>> {
    let stem: Option<Seq<char>> = match e {
        Entry::File(name) => if ends(name@, ".fwl"@) {
            Some(name@.take(name@.len() - ".fwl"@.len()))
        } else {
            None
        },
        Entry::Folder { name, files } => if holds_world(files@) {
            Some(name@)
        } else {
            None
        },
    };
    match stem {
        Some(s) => if s.len() == 0 || mentions(s, "_backup_"@) {
            None
        } else {
            Some(s)
        },
        None => None,
    }
}

/// Is it one of the worlds that the entries name?
pub open spec fn is_world(entries: Seq<Entry>, world: Seq<char>) -> bool {
    exists|i: int| 0 <= i < entries.len() && world_named(#[trigger] entries[i]) == Some(world)
}

fn holds_a_generation(files: &Vec<String>) -> (r: bool)
    ensures
        r == holds_world(files@),
{
    let mut i: usize = 0;
    while i < files.len()
        invariant
            i <= files@.len(),
            forall|k: int| 0 <= k < i ==> !is_generation((#[trigger] files@[k])@),
        decreases files.len() - i,
    {
        if let Some(rest) = strip_prefix(files[i].as_str(), "_main.") {
            if let Some(generation) = strip_suffix(rest.as_str(), ".fwl2") {
                if !generation.as_str().is_empty() {
                    assert(is_generation(files@[i as int]@));
                    return true;
                }
            }
        }
        i += 1;
    }
    false
}

fn named(e: &Entry) -> (r: Option<String>)
    ensures
        match r {
            Some(s) => world_named(*e) == Some(s@),
            None => world_named(*e) is None,
        },
{
    let stem: Option<String> = match e {
        Entry::File(name) => strip_suffix(name.as_str(), ".fwl"),
        Entry::Folder { name, files } => if holds_a_generation(files) {
            Some(name.clone())
        } else {
            None
        },
    };
    match stem {
        Some(s) => if s.as_str().is_empty() || holds_text(s.as_str(), "_backup_") {
            None
        } else {
            Some(s)
        },
        None => None,
    }
}

/// The worlds found in the worlds' folder, sorted, each once. A `.fwl` names a world of the older
/// layout, a folder with a `_main.<N>.fwl2` in it one of the newer. The game's own `_backup_`
/// copies belong to the world they are named after. None for a game without a template.
pub fn worlds(game_slug: &str, entries: &Vec<Entry>) -> (r: Vec<String>)
    ensures
        in_text_order(views(r@)),
        forall|world: Seq<char>| #[trigger]
            views(r@).contains(world) <==> game_slug@ == VALHEIM@ && is_world(entries@, world),
{
    let mut out: Vec<String> = Vec::new();
    assert(views(out@) =~= Seq::<Seq<char>>::empty());
    if !same(game_slug, VALHEIM) {
        return out;
    }
    let mut i: usize = 0;
    while i < entries.len()
        invariant
            i <= entries@.len(),
            in_text_order(views(out@)),
            forall|world: Seq<char>| #[trigger]
                views(out@).contains(world) <==> is_world(entries@.take(i as int), world),
        decreases entries.len() - i,
    {
        let ghost was = views(out@);
        if let Some(name) = named(&entries[i]) {
            add_in_order(&mut out, name);
        }
        proof {
            let here = entries@.take(i as int);
            let next = entries@.take(i + 1);
            assert forall|world: Seq<char>| #[trigger]
                views(out@).contains(world) <==> is_world(next, world) by {
                assert(was.contains(world) == is_world(here, world));
                if is_world(here, world) {
                    let k = choose|k: int|
                        0 <= k < here.len() && world_named(#[trigger] here[k]) == Some(world);
                    assert(next[k] == here[k]);
                }
                if is_world(next, world) {
                    let k = choose|k: int|
                        0 <= k < next.len() && world_named(#[trigger] next[k]) == Some(world);
                    if k < i {
                        assert(here[k] == next[k]);
                    }
                }
                if world_named(entries@[i as int]) == Some(world) {
                    assert(next[i as int] == entries@[i as int]);
                }
            }
        }
        i += 1;
    }
    assert(entries@.take(i as int) =~= entries@);
    out
}

// ---- laws

/// Is the name in the worlds' folder one of the world's own: its folder, one of its flat files, or
/// one of its `_backup_` copies?
pub open spec fn belongs(name: Seq<char>, world: Seq<char>) -> bool {
    ||| name == world
    ||| name == world + ".db"@
    ||| name == world + ".fwl"@
    ||| name == world + ".db.old"@
    ||| name == world + ".fwl.old"@
    ||| begins(name, world + "_backup_"@)
}

/// The template names one world and no character: the paths it covers are those in the worlds'
/// folder that belong to the world, whatever lies beneath them, and no others.
pub proof fn a_template_names_one_world(world: Seq<char>, path: Seq<char>)
    requires
        is_stem(world),
    ensures
        named_by(valheim(world), path) <==> {
            let s = split_on(path, '/');
            s.len() >= 2 && s[0] == "worlds_local"@ && belongs(s[1], world)
        },
{
    let s = split_on(path, '/');
    let list = valheim(world);
    reveal_strlit("");
    reveal_strlit(".db");
    reveal_strlit(".fwl");
    reveal_strlit(".db.old");
    reveal_strlit(".fwl.old");
    reveal_strlit("_backup_");
    reveal_strlit("_backup_*");
    assert(world + ""@ =~= world);
    assert("_backup_*"@ =~= "_backup_"@.push('*'));
    assert(world + "_backup_*"@ =~= (world + "_backup_"@).push('*'));
    assert forall|i: int| 0 <= i < 6 implies covers(#[trigger] list[i], path) == (s.len() >= 2
        && s[0] == "worlds_local"@ && globs(world + suffixes()[i], s[1])) by {
        assert(!suffixes()[i].contains('/'));
        entry_covers(world + suffixes()[i], path);
    }
    let starred = world + "_backup_"@;
    a_trailing_star_matches_a_beginning(starred, s[1]);
    assert forall|i: int| 0 <= i < 5 implies globs(#[trigger] (world + suffixes()[i]), s[1]) == (
    world + suffixes()[i] == s[1]) by {
        literal_patterns_match_themselves(world + suffixes()[i], s[1]);
    }
    assert(suffixes()[0] == ""@ && suffixes()[1] == ".db"@ && suffixes()[2] == ".fwl"@
        && suffixes()[3] == ".db.old"@ && suffixes()[4] == ".fwl.old"@ && suffixes()[5]
        == "_backup_*"@);
    assert(covers(list[0], path) || covers(list[1], path) || covers(list[2], path) || covers(
        list[3],
        path,
    ) || covers(list[4], path) || covers(list[5], path) <==> named_by(list, path));
}

/// An entry of the worlds' folder covers what lies there under a name that its pattern matches.
proof fn entry_covers(name: Seq<char>, path: Seq<char>)
    requires
        !name.contains('/'),
    ensures
        covers(in_worlds(name), path) == (split_on(path, '/').len() >= 2 && split_on(path, '/')[0]
            == "worlds_local"@ && globs(name, split_on(path, '/')[1])),
{
    reveal_strlit("worlds_local/");
    reveal_strlit("worlds_local");
    let folder = "worlds_local"@;
    assert("worlds_local/"@ =~= folder.push('/'));
    assert(in_worlds(name) =~= folder.push('/') + name);
    split_joins(folder, '/', name);
    split_of_unbroken(folder, '/');
    split_of_unbroken(name, '/');
    let p = split_on(in_worlds(name), '/');
    let s = split_on(path, '/');
    assert(p =~= seq![folder, name]);
    literal_patterns_match_themselves(folder, s[0]);
    assert(p[0] == folder && p[1] == name);
    if s.len() >= 2 && s[0] == folder && globs(name, s[1]) {
        assert forall|i: int| 0 <= i < p.len() implies globs(#[trigger] p[i], s[i]) by {
            if i == 0 {
            } else {
                assert(i == 1);
            }
        }
    }
}

/// The list of a world is for Valheim alone, and for a bare stem alone: six entries under the
/// worlds' folder, its own, its flat files, their twins and its copies. A name that could leave the
/// folder or widen the match is refused and handed back, for every game.
pub proof fn a_template_is_for_a_bare_stem(
    game: &str,
    world: &str,
    r: Result<Option<Vec<String>>, BadWorld>,
    has: bool,
)
    requires
        call_ensures(template, (game, world), r),
        call_ensures(has_template, (game,), has),
    ensures
        has <==> game@ == "valheim"@,
        r is Err <==> (world@.len() == 0 || world@.contains('/') || world@.contains('\\')
            || world@.contains('*') || world@.contains('?') || mentions(world@, ".."@)),
        r is Err ==> r->Err_0.0@ == world@,
        r is Ok ==> (r->Ok_0 is Some <==> has),
        r is Ok && r->Ok_0 is Some ==> {
            let list = r->Ok_0->0@;
            &&& list.len() == 6
            &&& list[0]@ == "worlds_local/"@ + world@
            &&& list[1]@ == "worlds_local/"@ + world@ + ".db"@
            &&& list[2]@ == "worlds_local/"@ + world@ + ".fwl"@
            &&& list[3]@ == "worlds_local/"@ + world@ + ".db.old"@
            &&& list[4]@ == "worlds_local/"@ + world@ + ".fwl.old"@
            &&& list[5]@ == "worlds_local/"@ + world@ + "_backup_*"@
        },
{
    if r is Ok && r->Ok_0 is Some {
        let list = r->Ok_0->0@;
        let v = views(list);
        assert(v.len() == 6);
        assert(v[0] == list[0]@ && v[1] == list[1]@ && v[2] == list[2]@ && v[3] == list[3]@ && v[4]
            == list[4]@ && v[5] == list[5]@);
        reveal_strlit("");
        assert(world@ + ""@ =~= world@);
        let w = "worlds_local/"@;
        assert(w + (world@ + ".db"@) =~= w + world@ + ".db"@);
        assert(w + (world@ + ".fwl"@) =~= w + world@ + ".fwl"@);
        assert(w + (world@ + ".db.old"@) =~= w + world@ + ".db.old"@);
        assert(w + (world@ + ".fwl.old"@) =~= w + world@ + ".fwl.old"@);
        assert(w + (world@ + "_backup_*"@) =~= w + world@ + "_backup_*"@);
    }
}

/// What is found in the worlds' folder: a file `<world>.fwl` names its world, a folder with a
/// generation `_main.<N>.fwl2` in it is named after its world; a game's own `_backup_` copies and
/// everything else name none. The worlds come sorted, each once, and other games have none.
pub proof fn worlds_are_found_by_their_files(
    game: &str,
    entries: Vec<Entry>,
    r: Vec<String>,
    i: int,
    world: Seq<char>,
    n: Seq<char>,
)
    requires
        call_ensures(worlds, (game, &entries), r),
        0 <= i < entries@.len(),
    ensures
        game@ != "valheim"@ ==> r@.len() == 0,
        game@ == "valheim"@ && world.len() > 0 && !mentions(world, "_backup_"@) ==> {
            &&& entries@[i] is File && entries@[i]->File_0@ == world + ".fwl"@ ==> views(
                r@,
            ).contains(world)
            &&& entries@[i] is Folder && entries@[i]->name@ == world && n.len() > 0 && (exists|k:
                int|
                0 <= k < entries@[i]->files@.len() && (#[trigger] entries@[i]->files@[k])@
                    == "_main."@ + n + ".fwl2"@) ==> views(r@).contains(world)
        },
        mentions(world, "_backup_"@) ==> !views(r@).contains(world),
        world.len() == 0 ==> !views(r@).contains(world),
        views(r@).contains(world) ==> exists|k: int|
            {
                &&& 0 <= k < entries@.len()
                &&& (#[trigger] entries@[k]) is File ==> entries@[k]->File_0@ == world + ".fwl"@
                &&& entries@[k] is Folder ==> entries@[k]->name@ == world
            },
        in_text_order(views(r@)),
{
    if views(r@).len() > 0 {
        assert(views(r@).contains(views(r@)[0]));
    }
    assert(views(r@).len() == r@.len());
    assert(views(r@).contains(world) <==> game@ == VALHEIM@ && is_world(entries@, world));
    let e = entries@[i];
    if e is File && e->File_0@ == world + ".fwl"@ {
        let name = e->File_0@;
        assert(name.skip(name.len() - ".fwl"@.len()) =~= ".fwl"@);
        assert(name.take(name.len() - ".fwl"@.len()) =~= world);
        if world.len() > 0 && !mentions(world, "_backup_"@) {
            assert(world_named(entries@[i]) == Some(world));
        }
    }
    if e is Folder && e->name@ == world && n.len() > 0 && exists|k: int|
        0 <= k < e->files@.len() && (#[trigger] e->files@[k])@ == "_main."@ + n + ".fwl2"@ {
        let k = choose|k: int|
            0 <= k < e->files@.len() && (#[trigger] e->files@[k])@ == "_main."@ + n + ".fwl2"@;
        let f = e->files@[k]@;
        assert(f.take("_main."@.len() as int) =~= "_main."@);
        let rest = f.skip("_main."@.len() as int);
        assert(rest =~= n + ".fwl2"@);
        assert(rest.skip(rest.len() - ".fwl2"@.len()) =~= ".fwl2"@);
        assert(is_generation(f));
        assert(holds_world(e->files@));
        if world.len() > 0 && !mentions(world, "_backup_"@) {
            assert(world_named(entries@[i]) == Some(world));
        }
    }
    if is_world(entries@, world) {
        let k = choose|k: int|
            0 <= k < entries@.len() && world_named(#[trigger] entries@[k]) == Some(world);
        let f = entries@[k];
        if f is File {
            let name = f->File_0@;
            assert(name =~= name.take(name.len() - ".fwl"@.len()) + name.skip(
                name.len() - ".fwl"@.len(),
            ));
        }
    }
}

/// A refused name is quoted to the user with what a name may not hold.
pub proof fn a_refused_name_is_quoted(e: BadWorld, r: String)
    requires
        call_ensures(BadWorld::message, (&e,), r),
    ensures
        r@ == "`"@ + e.0@
            + "` is not a world name: no `/`, `\\`, `*`, `?` or `..`, and not empty"@,
{
}

} // verus!
