//! Which files of a save's folder are save data, and which of them a restore writes.
//!
//! A game's catalogue entry names where its saves lie. A template that ends in a file pattern
//! (`<base>/Saves/*.sav`) says more: that what matches is save data, whatever it is called. Those
//! patterns are the game's shields. Since they only ever rescue and never exclude, the templates
//! of every system count.

use vstd::prelude::*;

#[allow(unused_imports)]
use crate::agent::claim::{owns_whole, world_of};
use crate::agent::claim;
use crate::agent::slot::{SaveState, SharedRef, WatchedSave};
use crate::fileclass::{basename_of, classify, is_useful_shield, RestoreGate, Scope};
#[allow(unused_imports)]
use crate::fileclass::FileClass;
#[allow(unused_imports)]
use crate::fileclass::{basename, class_of, named_by, useful_shield};
use crate::text::{holds, same, to_lower};
#[allow(unused_imports)]
use crate::text::{lower, views};

verus! {

/// The share that a reference points at.
pub open spec fn ref_of(shared: Option<&SharedRef>) -> Option<SharedRef> {
    match shared {
        Some(s) => Some(*s),
        None => None,
    }
}

/// A member's part of the share's list: all of it, and nothing for the owner.
pub open spec fn member_list(shared: Option<SharedRef>) -> Seq<String> {
    match shared {
        Some(s) => if s.caller_owns {
            Seq::empty()
        } else {
            s.includes@
        },
        None => Seq::empty(),
    }
}

/// The owner's part of the share's list: all of it, and nothing for a member.
pub open spec fn owner_list(shared: Option<SharedRef>) -> Seq<String> {
    match shared {
        Some(s) => if s.caller_owns {
            s.includes@
        } else {
            Seq::empty()
        },
        None => Seq::empty(),
    }
}

/// The list that an explicit restore narrows to: a shared save's list for a member, nothing for
/// its owner or a save that is not shared. The owner's own history holds the whole folder, and
/// restoring it is not the share's to narrow.
pub fn restore_include(shared: Option<&SharedRef>) -> (r: &[String])
    ensures
        r@ == member_list(ref_of(shared)),
{
    match shared {
        Some(s) => if s.caller_owns {
            &[]
        } else {
            s.includes.as_slice()
        },
        None => &[],
    }
}

/// The share's list when this account owns the shared save, nothing otherwise. The owner's
/// restore writes the whole folder: a file outside the list that it overwrites is copied aside
/// first. The other half of [`restore_include`].
pub fn owner_share_include(shared: Option<&SharedRef>) -> (r: &[String])
    ensures
        r@ == owner_list(ref_of(shared)),
{
    match shared {
        Some(s) => if s.caller_owns {
            s.includes.as_slice()
        } else {
            &[]
        },
        None => &[],
    }
}

/// Is the template's last segment a file pattern that says something? A literal is the name of the
/// tracked folder.
pub open spec fn gives_shield(template: Seq<char>) -> bool {
    let last = basename(template);
    (last.contains('*') || last.contains('?')) && useful_shield(last)
}

/// The shields of a game's templates: their file patterns in lower case, each once, in order.
pub open spec fn shields_of(templates: Seq<Seq<char>>) -> Seq<Seq<char>>
    decreases templates.len(),
{
    if templates.len() == 0 {
        Seq::empty()
    } else {
        let rest = shields_of(templates.drop_last());
        let shield = lower(basename(templates.last()));
        if gives_shield(templates.last()) && !rest.contains(shield) {
            rest.push(shield)
        } else {
            rest
        }
    }
}

/// The templates that the catalogue has of one game, by system.
#[derive(Debug)]
pub struct CataloguePaths {
    pub windows: Vec<String>,
    pub linux: Vec<String>,
    pub mac: Vec<String>,
}

/// A game's templates on all three systems: Windows, then Linux, then macOS. None for a game that
/// the catalogue does not know.
pub open spec fn templates_in(entry: Option<CataloguePaths>) -> Seq<Seq<char>> {
    match entry {
        Some(e) => views(e.windows@) + views(e.linux@) + views(e.mac@),
        None => Seq::empty(),
    }
}

fn append_all(out: &mut Vec<String>, more: &Vec<String>)
    ensures
        views(final(out)@) == views(old(out)@) + views(more@),
{
    let ghost before = views(out@);
    let mut i: usize = 0;
    assert(views(out@) =~= before + views(more@).take(0));
    while i < more.len()
        invariant
            i <= more.len(),
            views(out@) == before + views(more@).take(i as int),
        decreases more.len() - i,
    {
        let ghost was = views(out@);
        out.push(more[i].clone());
        assert(views(out@) =~= was.push(more@[i as int]@));
        assert(views(out@) =~= before + views(more@).take(i + 1));
        i += 1;
    }
    assert(views(more@).take(i as int) =~= views(more@));
}

/// The templates of a game that the shields are taken from: those of all three systems, since a
/// save made on one is restored on another.
pub fn templates_of(entry: Option<&CataloguePaths>) -> (r: Vec<String>)
    ensures
        views(r@) == templates_in(
            match entry {
                Some(e) => Some(*e),
                None => None,
            },
        ),
{
    let mut out: Vec<String> = Vec::new();
    assert(views(out@) =~= Seq::<Seq<char>>::empty());
    if let Some(e) = entry {
        append_all(&mut out, &e.windows);
        append_all(&mut out, &e.linux);
        append_all(&mut out, &e.mac);
        assert(views(out@) =~= views(e.windows@) + views(e.linux@) + views(e.mac@));
    }
    out
}

/// The file patterns that a game's templates declare as save data, in lower case and each once.
pub fn shields_for_slug(templates: &[String]) -> (r: Vec<String>)
    ensures
        views(r@) == shields_of(views(templates@)),
{
    let mut out: Vec<String> = Vec::new();
    let mut i: usize = 0;
    assert(views(out@) =~= Seq::<Seq<char>>::empty());
    while i < templates.len()
        invariant
            i <= templates@.len(),
            views(out@) == shields_of(views(templates@).take(i as int)),
        decreases templates.len() - i,
    {
        assert(views(templates@).take(i + 1).drop_last() =~= views(templates@).take(i as int));
        let last = basename_of(templates[i].as_str());
        if (holds(last.as_str(), '*') || holds(last.as_str(), '?')) && is_useful_shield(
            last.as_str(),
        ) {
            let shield = to_lower(last.as_str());
            let mut k: usize = 0;
            while k < out.len() && !same(out[k].as_str(), shield.as_str())
                invariant
                    k <= out@.len(),
                    forall|j: int| 0 <= j < k ==> views(out@)[j] != shield@,
                decreases out.len() - k,
            {
                k += 1;
            }
            if k == out.len() {
                assert(!views(out@).contains(shield@));
                let ghost before = views(out@);
                out.push(shield);
                assert(views(out@) =~= before.push(shield@));
            } else {
                assert(views(out@)[k as int] == shield@);
            }
        }
        i += 1;
    }
    assert(views(templates@).take(i as int) =~= views(templates@));
    out
}

/// What a restore of a save is held to: the game's shields, what the save consists of
/// when shared, and the user's answer on writing its configuration. `templates` are the catalogue's
/// paths for the save's game, none for a game that it does not know.
pub fn gate_for_save(
    templates: &[String],
    includes: &[String],
    allow_device_local: bool,
) -> (r: RestoreGate)
    ensures
        views(r.shields@) == shields_of(views(templates@)),
        views(r.includes@) == views(includes@),
        r.allow_device_local == allow_device_local,
{
    let mut list: Vec<String> = Vec::new();
    let mut i: usize = 0;
    while i < includes.len()
        invariant
            i <= includes@.len(),
            list@.len() == i,
            forall|k: int| 0 <= k < i ==> (#[trigger] list@[k])@ == includes@[k]@,
        decreases includes.len() - i,
    {
        list.push(includes[i].clone());
        i += 1;
    }
    assert(views(list@) =~= views(includes@));
    RestoreGate { shields: shields_for_slug(templates), includes: list, allow_device_local }
}

impl SharedRef {
    /// The shared world: the files that members read and push, and the only ones that the hosting
    /// lease guards. Empty is the whole folder.
    pub fn world(&self) -> (r: &[String])
        ensures
            r@ == self.includes@,
    {
        self.includes.as_slice()
    }
}

impl SaveState {
    /// See [`gate_for_save`].
    pub fn gate(&self, templates: &[String], allow_device_local: bool) -> (r: RestoreGate)
        ensures
            views(r.shields@) == shields_of(views(templates@)),
            views(r.includes@) == views(self.includes@),
            r.allow_device_local == allow_device_local,
    {
        gate_for_save(templates, self.includes.as_slice(), allow_device_local)
    }

    /// See [`SharedRef::world`]; nothing for an unshared save. This is the share's list for owner
    /// and member alike.
    pub fn world(&self) -> (r: &[String])
        ensures
            r@ == (match self.shared {
                Some(s) => s.includes@,
                None => Seq::empty(),
            }),
    {
        match &self.shared {
            Some(s) => s.world(),
            None => &[],
        }
    }
}

impl WatchedSave {
    /// See [`gate_for_save`].
    pub fn gate(&self, templates: &[String], allow_device_local: bool) -> (r: RestoreGate)
        ensures
            views(r.shields@) == shields_of(views(templates@)),
            views(r.includes@) == views(self.includes@),
            r.allow_device_local == allow_device_local,
    {
        gate_for_save(templates, self.includes.as_slice(), allow_device_local)
    }

    /// See [`SaveState::world`].
    pub fn world(&self) -> (r: &[String])
        ensures
            r@ == (match self.shared {
                Some(s) => s.includes@,
                None => Seq::empty(),
            }),
            views(r@) == world_of(*self),
    {
        let r: &[String] = match &self.shared {
            Some(s) => s.world(),
            None => &[],
        };
        assert(views(r@) =~= world_of(*self));
        r
    }

    /// The caller owns a share of part of this folder and walks all of it: its uploads carry the
    /// whole folder, and one that leaves the world as last synced needs no lease. Not once the walk
    /// was narrowed to the world, where the owner pushes like a member.
    pub fn owns_whole_folder(&self) -> (r: bool)
        ensures
            r == owns_whole(*self),
    {
        claim::owns_whole_folder(self)
    }
}

/// Those of the paths that a walk held to the shields and the list takes, in order.
pub open spec fn walked(
    paths: Seq<Seq<char>>,
    shields: Seq<Seq<char>>,
    includes: Seq<Seq<char>>,
) -> Seq<Seq<char>>
    decreases paths.len(),
{
    if paths.len() == 0 {
        Seq::empty()
    } else {
        let rest = walked(paths.drop_last(), shields, includes);
        if class_of(paths.last(), shields, includes).backed_up() {
            rest.push(paths.last())
        } else {
            rest
        }
    }
}

/// The files that a side copy moves out of the folder: the world's, nothing else, also where the
/// save's walk takes the whole folder as the owner's does. `files` are the paths of all files below
/// the folder.
pub fn move_world_aside(save: &WatchedSave, templates: &[String], files: &Vec<String>) -> (r: Vec<
    String,
>)
    ensures
        views(r@) == walked(views(files@), shields_of(views(templates@)), world_of(*save)),
{
    let shields = shields_for_slug(templates);
    let scope = Scope { shields: shields.as_slice(), includes: save.world() };
    let mut out: Vec<String> = Vec::new();
    let mut i: usize = 0;
    assert(views(out@) =~= Seq::<Seq<char>>::empty());
    while i < files.len()
        invariant
            i <= files@.len(),
            views(scope.shields@) == shields_of(views(templates@)),
            views(scope.includes@) == world_of(*save),
            views(out@) == walked(
                views(files@).take(i as int),
                shields_of(views(templates@)),
                world_of(*save),
            ),
        decreases files.len() - i,
    {
        assert(views(files@).take(i + 1).drop_last() =~= views(files@).take(i as int));
        if classify(files[i].as_str(), scope).is_backed_up() {
            let ghost before = views(out@);
            out.push(files[i].clone());
            assert(views(out@) =~= before.push(files@[i as int]@));
        }
        i += 1;
    }
    assert(views(files@).take(i as int) =~= views(files@));
    out
}

/// Is anything of the world in the folder? `files` are the paths of all files below it; where they
/// could not be listed, the world may be there.
pub fn world_on_disk(save: &WatchedSave, templates: &[String], files: Option<&Vec<String>>) -> (r:
    bool)
    ensures
        r == (match files {
            Some(list) => walked(
                views(list@),
                shields_of(views(templates@)),
                world_of(*save),
            ).len() > 0,
            None => true,
        }),
{
    match files {
        Some(list) => {
            let moved = move_world_aside(save, templates, list);
            assert(views(moved@).len() == moved@.len());
            moved.len() > 0
        },
        None => true,
    }
}

// ---- laws

/// An owner's restore and a member's split the share's list between them: of the two lists one is
/// the share's and the other is empty.
pub proof fn the_list_is_the_owners_or_the_members(s: SharedRef)
    ensures
        s.caller_owns ==> owner_list(Some(s)) == s.includes@ && member_list(Some(s)) == Seq::<
            String,
        >::empty(),
        !s.caller_owns ==> member_list(Some(s)) == s.includes@ && owner_list(Some(s)) == Seq::<
            String,
        >::empty(),
{
}

/// Is the shield the file pattern of one of the templates?
pub open spec fn declared(shield: Seq<char>, templates: Seq<Seq<char>>) -> bool {
    exists|k: int|
        0 <= k < templates.len() && gives_shield(#[trigger] templates[k]) && shield == lower(
            basename(templates[k]),
        )
}

/// Every shield is a file pattern in lower case that says something, and none stands twice.
pub proof fn shields_are_useful_and_distinct(templates: Seq<Seq<char>>)
    ensures
        shields_of(templates).no_duplicates(),
        forall|i: int|
            0 <= i < shields_of(templates).len() ==> declared(
                #[trigger] shields_of(templates)[i],
                templates,
            ),
    decreases templates.len(),
{
    if templates.len() > 0 {
        let before = templates.drop_last();
        shields_are_useful_and_distinct(before);
        assert forall|i: int| 0 <= i < shields_of(templates).len() implies declared(
            #[trigger] shields_of(templates)[i],
            templates,
        ) by {
            if i < shields_of(before).len() {
                assert(declared(shields_of(before)[i], before));
                let k = choose|k: int|
                    0 <= k < before.len() && gives_shield(#[trigger] before[k]) && shields_of(
                        before,
                    )[i] == lower(basename(before[k]));
                assert(templates[k] == before[k]);
            } else {
                assert(gives_shield(templates[templates.len() - 1]));
            }
        }
    }
}

/// A side copy leaves every file in the folder that the share's list does not name.
pub proof fn a_side_copy_keeps_to_the_world(
    files: Seq<Seq<char>>,
    shields: Seq<Seq<char>>,
    world: Seq<Seq<char>>,
    path: Seq<char>,
)
    requires
        walked(files, shields, world).contains(path),
    ensures
        files.contains(path),
        named_by(world, path),
    decreases files.len(),
{
    let rest = walked(files.drop_last(), shields, world);
    let all = walked(files, shields, world);
    let i = choose|i: int| 0 <= i < all.len() && all[i] == path;
    if i < rest.len() {
        assert(rest[i] == path);
        a_side_copy_keeps_to_the_world(files.drop_last(), shields, world, path);
        let k = choose|k: int| 0 <= k < files.len() - 1 && files.drop_last()[k] == path;
        assert(files[k] == path);
    } else {
        assert(files[files.len() - 1] == path);
    }
}


/// A restore's list, by who restores: a member keeps to the share's list, its owner does not, and
/// without a share there is none.
pub proof fn a_restore_keeps_to_its_list(s: SharedRef, a: &[String], b: &[String], c: &[String], d: &[String])
    requires
        call_ensures(restore_include, (Some(&s),), a),
        call_ensures(owner_share_include, (Some(&s),), b),
        call_ensures(restore_include, (None,), c),
        call_ensures(owner_share_include, (None,), d),
    ensures
        s.caller_owns ==> a@.len() == 0 && b@ == s.includes@,
        !s.caller_owns ==> a@ == s.includes@ && b@.len() == 0,
        c@.len() == 0 && d@.len() == 0,
{
}

/// A gate takes its list and its answer from the save that is restored, whichever form that has.
pub proof fn a_gate_is_the_saves(
    saved: SaveState,
    watched: WatchedSave,
    templates: &[String],
    allow: bool,
    a: RestoreGate,
    b: RestoreGate,
    shields: Vec<String>,
)
    requires
        call_ensures(SaveState::gate, (&saved, templates, allow), a),
        call_ensures(WatchedSave::gate, (&watched, templates, allow), b),
        call_ensures(shields_for_slug, (templates,), shields),
    ensures
        views(a.includes@) == views(saved.includes@) && a.allow_device_local == allow,
        views(b.includes@) == views(watched.includes@) && b.allow_device_local == allow,
        views(a.shields@) == views(shields@) && views(b.shields@) == views(shields@),
{
}

/// The world is the share's list, for its owner and a member alike, and nothing without a share.
pub proof fn the_world_is_the_shares_list(
    saved: SaveState,
    watched: WatchedSave,
    a: &[String],
    b: &[String],
)
    requires
        call_ensures(SaveState::world, (&saved,), a),
        call_ensures(WatchedSave::world, (&watched,), b),
    ensures
        saved.shared is Some ==> a@ == saved.shared->0.includes@,
        saved.shared is None ==> a@.len() == 0,
        watched.shared is Some ==> b@ == watched.shared->0.includes@,
        watched.shared is None ==> b@.len() == 0,
{
}

/// The templates of all three systems count, in their order, and a game that is not in the
/// catalogue has none.
pub proof fn every_system_counts(e: CataloguePaths, r: Vec<String>, none: Vec<String>, i: int)
    requires
        call_ensures(templates_of, (Some(&e),), r),
        call_ensures(templates_of, (None,), none),
    ensures
        none@.len() == 0,
        r@.len() == e.windows@.len() + e.linux@.len() + e.mac@.len(),
        0 <= i < e.windows@.len() ==> r@[i]@ == e.windows@[i]@,
        0 <= i < e.linux@.len() ==> r@[e.windows@.len() + i]@ == e.linux@[i]@,
        0 <= i < e.mac@.len() ==> r@[e.windows@.len() + e.linux@.len() + i]@ == e.mac@[i]@,
{
    let v = views(r@);
    assert(views(none@).len() == none@.len());
    assert(v.len() == r@.len());
    let (w, l) = (e.windows@.len() as int, e.linux@.len() as int);
    if 0 <= i < w {
        assert(v[i] == r@[i]@);
    }
    if 0 <= i < l {
        assert(v[w + i] == r@[w + i]@);
    }
    if 0 <= i < e.mac@.len() {
        assert(v[w + l + i] == r@[w + l + i]@);
    }
}

proof fn walked_takes(files: Seq<Seq<char>>, shields: Seq<Seq<char>>, world: Seq<Seq<char>>, i: int)
    requires
        0 <= i < files.len(),
    ensures
        walked(files, shields, world).contains(files[i]) <==> class_of(
            files[i],
            shields,
            world,
        ).backed_up(),
    decreases files.len(),
{
    let before = files.drop_last();
    let rest = walked(before, shields, world);
    let all = walked(files, shields, world);
    let n = files.len() - 1;
    if class_of(files[i], shields, world).backed_up() {
        if i == n {
            assert(all[all.len() - 1] == files[i]);
        } else {
            walked_takes(before, shields, world, i);
            assert(before[i] == files[i]);
            let k = choose|k: int| 0 <= k < rest.len() && rest[k] == files[i];
            assert(all[k] == files[i]);
        }
    } else if all.contains(files[i]) {
        let k = choose|k: int| 0 <= k < all.len() && all[k] == files[i];
        if k < rest.len() {
            assert(rest[k] == files[i]);
            walked_are_backed_up(before, shields, world, k);
        }
    }
}

proof fn walked_are_backed_up(
    files: Seq<Seq<char>>,
    shields: Seq<Seq<char>>,
    world: Seq<Seq<char>>,
    k: int,
)
    requires
        0 <= k < walked(files, shields, world).len(),
    ensures
        class_of(walked(files, shields, world)[k], shields, world).backed_up(),
    decreases files.len(),
{
    if files.len() > 0 {
        let rest = walked(files.drop_last(), shields, world);
        if k < rest.len() {
            walked_are_backed_up(files.drop_last(), shields, world, k);
        }
    }
}

/// A side copy moves a file exactly where a walk of the world would back it up, and the world is on
/// disk exactly where there is such a file, or where nobody could look.
pub proof fn a_side_copy_moves_the_world(
    save: WatchedSave,
    templates: &[String],
    files: Vec<String>,
    moved: Vec<String>,
    there: bool,
    blind: bool,
    shields: Vec<String>,
    world: &[String],
    rules: &[String],
    path: &str,
    class: FileClass,
    i: int,
)
    requires
        call_ensures(move_world_aside, (&save, templates, &files), moved),
        call_ensures(world_on_disk, (&save, templates, Some(&files)), there),
        call_ensures(world_on_disk, (&save, templates, None), blind),
        call_ensures(shields_for_slug, (templates,), shields),
        call_ensures(WatchedSave::world, (&save,), world),
        rules@ == shields@,
        0 <= i < files@.len(),
        path@ == files@[i]@,
        call_ensures(classify, (path, Scope { shields: rules, includes: world }), class),
    ensures
        views(moved@).contains(files@[i]@) <==> class !is Junk,
        there <==> moved@.len() > 0,
        blind,
{
    assert(views(moved@).len() == moved@.len());
    assert(views(files@)[i] == files@[i]@);
    walked_takes(views(files@), shields_of(views(templates@)), world_of(save), i);
}

} // verus!
