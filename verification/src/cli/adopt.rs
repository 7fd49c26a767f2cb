//! `hoard adopt`: gives a save that exists on the server but not on this machine a folder here.

use vstd::prelude::*;

use crate::agent::api::ApiError;
use crate::agent::slot::{CliState, SaveState};
use crate::cli::output::{err, Cause, Failure};
use crate::cli::saves::SaveRow;
#[allow(unused_imports)]
use crate::cli::world::is_coded;
use crate::ids::is_canonical;
#[allow(unused_imports)]
use crate::ids::is_uuid;
#[allow(unused_imports)]
use crate::text::begins;
use crate::text::{same, starts_with, strip_prefix};
use crate::wire::Save;

verus! {

#[derive(Debug)]
pub struct Args {
    /// The id of the server's row.
    pub save_id: String,
    /// The folder on this machine. Relative paths are taken from here.
    pub path: String,
}

/// An adopt as agents and scripts see it.
#[derive(Debug)]
pub struct AdoptOut {
    /// The row that `hoard saves` now lists for it.
    pub save: SaveRow,
    /// A running service picked it up. Otherwise the save is watched when one starts.
    pub watching: bool,
}

// ---- the folder

/// One part of an absolute path.
#[derive(Debug)]
pub enum Part {
    /// What a path starts at: a root, or a drive.
    Anchor(String),
    Name(String),
    /// `.`
    Current,
    /// `..`
    Parent,
}

/// A part's content.
pub ghost enum Place {
    Anchor(Seq<char>),
    Name(Seq<char>),
    Current,
    Parent,
}

impl Part {
    /// What the part says.
    pub open spec fn view(&self) -> Place {
        match *self {
            Part::Anchor(s) => Place::Anchor(s@),
            Part::Name(s) => Place::Name(s@),
            Part::Current => Place::Current,
            Part::Parent => Place::Parent,
        }
    }
}

/// The contents of the parts.
pub open spec fn places(parts: Seq<Part>) -> Seq<Place> {
    Seq::new(parts.len(), |i: int| parts[i]@)
}

/// The folder that the path names, as text: without `.`, and with `..` taken for the folder above
/// the one that was written. There is nothing above an anchor.
pub open spec fn folder_of(path: Seq<Place>) -> Seq<Place>
    decreases path.len(),
{
    if path.len() == 0 {
        Seq::empty()
    } else {
        let rest = folder_of(path.drop_last());
        match path.last() {
            Place::Current => rest,
            Place::Parent => if rest.len() > 0 && rest.last() is Name {
                rest.drop_last()
            } else {
                rest
            },
            part => rest.push(part),
        }
    }
}

/// The folder that an absolute path names, without `.` and `..`.
pub fn lexical(path: Vec<Part>) -> (r: Vec<Part>)
    ensures
        places(r@) == folder_of(places(path@)),
{
    let ghost all = places(path@);
    let mut folder: Vec<Part> = Vec::new();
    let mut i: usize = 0;
    assert(places(folder@) =~= Seq::<Place>::empty());
    assert(all.take(0) =~= Seq::<Place>::empty());
    while i < path.len()
        invariant
            i <= path@.len(),
            all == places(path@),
            places(folder@) == folder_of(all.take(i as int)),
        decreases path.len() - i,
    {
        assert(all.take(i + 1).drop_last() =~= all.take(i as int));
        assert(all.take(i + 1).last() == path@[i as int]@);
        let ghost was = places(folder@);
        match &path[i] {
            Part::Current => {},
            Part::Parent => {
                let named = folder.len() > 0 && match &folder[folder.len() - 1] {
                    Part::Name(_) => true,
                    _ => false,
                };
                if named {
                    let _ = folder.pop();
                    assert(places(folder@) =~= was.drop_last());
                }
            },
            Part::Anchor(s) => {
                folder.push(Part::Anchor(s.clone()));
                assert(places(folder@) =~= was.push(path@[i as int]@));
            },
            Part::Name(s) => {
                folder.push(Part::Name(s.clone()));
                assert(places(folder@) =~= was.push(path@[i as int]@));
            },
        }
        i += 1;
    }
    assert(all.take(i as int) =~= all);
    folder
}

/// What the disk says of one prefix of the folder.
#[derive(Debug, Clone, Copy, PartialEq, Eq, Structural)]
pub enum Found {
    Nothing,
    /// A link to nothing.
    Dangling,
    /// There, and not a link itself.
    There,
    /// There, through a link.
    Linked,
}

/// Is there something?
pub open spec fn exists_there(f: Found) -> bool {
    f == Found::There || f == Found::Linked
}

/// How many of the first prefixes are there.
pub open spec fn reach(found: Seq<Found>) -> nat
    decreases found.len(),
{
    if found.len() == 0 || !exists_there(found[0]) {
        0
    } else {
        1 + reach(found.skip(1))
    }
}

/// Is a link on the way to the longest prefix that is there?
pub open spec fn through_link(found: Seq<Found>) -> bool {
    exists|i: int| 0 <= i < reach(found) && #[trigger] found[i] == Found::Linked
}

/// The longest prefix that is there, and whether a link is on the way to it. Only with a link is
/// that prefix to be spelled as the disk spells it.
pub fn existing(found: &Vec<Found>) -> (r: (usize, bool))
    ensures
        r.0 == reach(found@),
        r.1 == through_link(found@),
{
    let mut i: usize = 0;
    let mut linked = false;
    assert(found@.skip(0) =~= found@);
    while i < found.len() && (found[i] == Found::There || found[i] == Found::Linked)
        invariant
            i <= found@.len(),
            reach(found@) == i + reach(found@.skip(i as int)),
            linked == exists|k: int| 0 <= k < i && #[trigger] found@[k] == Found::Linked,
        decreases found.len() - i,
    {
        assert(found@.skip(i as int)[0] == found@[i as int]);
        assert(found@.skip(i as int).skip(1) =~= found@.skip(i + 1));
        if found[i] == Found::Linked {
            linked = true;
        }
        i += 1;
    }
    proof {
        if i < found@.len() {
            assert(found@.skip(i as int)[0] == found@[i as int]);
        }
        assert(reach(found@.skip(i as int)) == 0);
    }
    (i, linked)
}

/// The path without the mark of a verbatim one, unless it names a share of the network.
pub open spec fn plain_spelling(path: Seq<char>) -> Seq<char> {
    let rest = path.skip("\\\\?\\"@.len() as int);
    if begins(path, "\\\\?\\"@) && !begins(rest, "UNC\\"@) {
        rest
    } else {
        path
    }
}

/// A Windows path as the disk spells it is verbatim, and no check finds a drive in it; the plain
/// spelling names the same folder.
pub fn without_verbatim(path: String) -> (r: String)
    ensures
        r@ == plain_spelling(path@),
{
    match strip_prefix(path.as_str(), "\\\\?\\") {
        Some(rest) => if starts_with(rest.as_str(), "UNC\\") {
            path
        } else {
            rest
        },
        None => path,
    }
}

/// The text for an id that is not one.
pub open spec fn bad_id(id: Seq<char>) -> Seq<char> {
    "`"@ + id + "` is not a save id; the save id is the UUID `hoard save list` shows"@
}

/// What was found out of the folder that an adopt is for.
#[derive(Debug)]
pub struct Folder {
    /// The folder's path as the adopt stores it.
    pub path: String,
    pub exists: bool,
    pub is_dir: bool,
    /// Why the engine would refuse the folder by its path alone, where it would.
    pub refusal: Option<String>,
}

/// The folder that an adopt may use, or the refusal when `save_id` cannot be adopted there. `path`
/// is the folder as it was given, and `folder` what came of it, or why nothing did.
pub fn check(save_id: &str, path: &str, folder: Result<Folder, String>) -> (r: Result<
    String,
    Failure,
>)
    ensures
        if !is_uuid(save_id@) {
            r is Err && is_coded(r->Err_0, "bad_request"@, bad_id(save_id@))
        } else {
            match folder {
                Err(why) => r is Err && is_coded(
                    r->Err_0,
                    "bad_request"@,
                    "`"@ + path@ + "` is not a usable folder: "@ + why@,
                ),
                Ok(f) => if f.exists && !f.is_dir {
                    r is Err && is_coded(
                        r->Err_0,
                        "bad_request"@,
                        f.path@ + " is not a folder"@,
                    )
                } else {
                    match f.refusal {
                        Some(why) => r is Err && is_coded(r->Err_0, "bad_request"@, why@),
                        None => r == Ok::<String, Failure>(f.path),
                    }
                },
            }
        },
{
    if !is_canonical(save_id) {
        let mut s = "`".to_owned();
        s.append(save_id);
        s.append("` is not a save id; the save id is the UUID `hoard save list` shows");
        assert(s@ =~= bad_id(save_id@));
        return Err(err("bad_request", s));
    }
    match folder {
        Err(why) => {
            let mut s = "`".to_owned();
            s.append(path);
            s.append("` is not a usable folder: ");
            s.append(why.as_str());
            assert(s@ =~= "`"@ + path@ + "` is not a usable folder: "@ + why@);
            Err(err("bad_request", s))
        },
        Ok(f) => {
            if f.exists && !f.is_dir {
                let mut s = f.path.clone();
                s.append(" is not a folder");
                return Err(err("bad_request", s));
            }
            match f.refusal {
                Some(why) => Err(err("bad_request", why)),
                None => Ok(f.path),
            }
        },
    }
}

// ---- refusals

/// Why the engine would not adopt a save.
#[derive(Debug)]
pub enum AdoptRefusal {
    AlreadyTracked { save_id: String, local_path: String },
    Invalid(String),
}

/// How an adopt failed.
#[derive(Debug)]
pub enum AdoptError {
    Refused(AdoptRefusal),
    Other(Failure),
}

/// The text for a save that has a folder here already.
pub open spec fn tracked_text(id: Seq<char>, path: Seq<char>) -> Seq<char> {
    id + " is already tracked on this machine, in "@ + path + "; `hoard save path "@ + id
        + " <folder>` moves it"@
}

/// Is this the refusal as a coded failure?
pub open spec fn is_refused(f: Failure, refusal: AdoptRefusal) -> bool {
    match refusal {
        AdoptRefusal::AlreadyTracked { save_id, local_path } => is_coded(
            f,
            "already_tracked"@,
            tracked_text(save_id@, local_path@),
        ),
        AdoptRefusal::Invalid(message) => is_coded(f, "bad_request"@, message@),
    }
}

/// A refusal as a coded failure.
pub fn refused(refusal: AdoptRefusal) -> (r: Failure)
    ensures
        is_refused(r, refusal),
{
    match refusal {
        AdoptRefusal::AlreadyTracked { save_id, local_path } => {
            let mut s = save_id.clone();
            s.append(" is already tracked on this machine, in ");
            s.append(local_path.as_str());
            s.append("; `hoard save path ");
            s.append(save_id.as_str());
            s.append(" <folder>` moves it");
            assert(s@ =~= tracked_text(save_id@, local_path@));
            err("already_tracked", s)
        },
        AdoptRefusal::Invalid(message) => err("bad_request", message),
    }
}

/// The engine's refusals as codes. Anything else, a server or a disk failure, keeps its own.
pub fn coded(e: AdoptError) -> (r: Failure)
    ensures
        match e {
            AdoptError::Refused(refusal) => is_refused(r, refusal),
            AdoptError::Other(f) => r == f,
        },
{
    match e {
        AdoptError::Refused(refusal) => refused(refusal),
        AdoptError::Other(f) => f,
    }
}

/// Where the save is tracked.
pub open spec fn tracked_at(saves: Seq<(String, SaveState)>, id: Seq<char>) -> Option<Seq<char>>
    decreases saves.len(),
{
    if saves.len() == 0 {
        None
    } else if saves[0].0@ == id {
        Some(saves[0].1.local_path@)
    } else {
        tracked_at(saves.skip(1), id)
    }
}

/// A save that is tracked here already is refused before the server is asked.
pub fn not_tracked(state: &CliState, save_id: &str) -> (r: Result<(), Failure>)
    ensures
        match tracked_at(state.saves@, save_id@) {
            None => r is Ok,
            Some(path) => r is Err && is_coded(
                r->Err_0,
                "already_tracked"@,
                tracked_text(save_id@, path),
            ),
        },
{
    let mut i: usize = 0;
    assert(state.saves@.skip(0) =~= state.saves@);
    while i < state.saves.len()
        invariant
            i <= state.saves@.len(),
            tracked_at(state.saves@, save_id@) == tracked_at(
                state.saves@.skip(i as int),
                save_id@,
            ),
        decreases state.saves.len() - i,
    {
        assert(state.saves@.skip(i as int)[0] == state.saves@[i as int]);
        assert(state.saves@.skip(i as int).skip(1) =~= state.saves@.skip(i + 1));
        if same(state.saves[i].0.as_str(), save_id) {
            let s: &SaveState = &state.saves[i].1;
            return Err(
                refused(
                    AdoptRefusal::AlreadyTracked {
                        save_id: save_id.to_owned(),
                        local_path: s.local_path.clone(),
                    },
                ),
            );
        }
        i += 1;
    }
    Ok(())
}

// ---- the server's row

/// The server's word on a save that it does not have for this account.
pub open spec fn unknown_text(id: Seq<char>) -> Seq<char> {
    "the server has no save "@ + id + " this account can reach"@
}

fn unknown(save_id: &str) -> (r: String)
    ensures
        r@ == unknown_text(save_id@),
{
    let mut s = "the server has no save ".to_owned();
    s.append(save_id);
    s.append(" this account can reach");
    assert(s@ =~= unknown_text(save_id@));
    s
}

/// A save of the sync manifest.
#[derive(Debug)]
pub struct ManifestEntry {
    pub save_id: String,
    pub game_slug: String,
    pub label: String,
}

/// The first entry of the manifest for the save.
pub open spec fn entry_of(entries: Seq<ManifestEntry>, id: Seq<char>) -> Option<ManifestEntry>
    decreases entries.len(),
{
    if entries.len() == 0 {
        None
    } else if entries[0].save_id@ == id {
        Some(entries[0])
    } else {
        entry_of(entries.skip(1), id)
    }
}

/// The slug and label of a save by the sync manifest.
pub fn row_in_manifest(entries: &Vec<ManifestEntry>, save_id: &str) -> (r: Result<
    (String, String),
    Failure,
>)
    ensures
        match entry_of(entries@, save_id@) {
            Some(e) => r == Ok::<(String, String), Failure>((e.game_slug, e.label)),
            None => r is Err && r->Err_0.cause is Api && r->Err_0.cause->Api_0 is NotFound
                && r->Err_0.contexts@.len() == 1 && r->Err_0.contexts@[0]@ == unknown_text(
                save_id@,
            ),
        },
{
    let mut i: usize = 0;
    assert(entries@.skip(0) =~= entries@);
    while i < entries.len()
        invariant
            i <= entries@.len(),
            entry_of(entries@, save_id@) == entry_of(entries@.skip(i as int), save_id@),
        decreases entries.len() - i,
    {
        assert(entries@.skip(i as int)[0] == entries@[i as int]);
        assert(entries@.skip(i as int).skip(1) =~= entries@.skip(i + 1));
        if same(entries[i].save_id.as_str(), save_id) {
            return Ok((entries[i].game_slug.clone(), entries[i].label.clone()));
        }
        i += 1;
    }
    let f = Failure::of(Cause::Api(ApiError::NotFound, "not found".to_owned()));
    let f = f.context(unknown(save_id).as_str());
    assert(f.contexts@[0] == f.contexts@.last());
    Err(f)
}

/// The slug and label of a save by the server's answer for its row.
pub fn row_of(answer: Result<Save, Failure>, save_id: &str) -> (r: Result<
    (String, String),
    Failure,
>)
    ensures
        match answer {
            Ok(save) => r == Ok::<(String, String), Failure>((save.game_slug, save.label)),
            Err(f) => r is Err && r->Err_0.cause == f.cause && if f.cause is Api
                && f.cause->Api_0 is NotFound {
                r->Err_0.contexts@.len() == f.contexts@.len() + 1
                    && r->Err_0.contexts@.drop_last() == f.contexts@ && r->Err_0.contexts@.last()@
                    == unknown_text(save_id@)
            } else {
                r->Err_0 == f
            },
        },
{
    match answer {
        Ok(save) => Ok((save.game_slug, save.label)),
        Err(f) => {
            let missing = match &f.cause {
                Cause::Api(ApiError::NotFound, _) => true,
                _ => false,
            };
            if missing {
                Err(f.context(unknown(save_id).as_str()))
            } else {
                Err(f)
            }
        },
    }
}

/// The line that tells of an adopt.
pub open spec fn adopt_line(o: AdoptOut) -> Seq<char> {
    "adopted "@ + o.save.game_slug@ + "/"@ + o.save.label@ + " ("@ + o.save.save_id@ + ") into "@
        + o.save.local_path@ + "; "@ + (if o.watching {
        "the sync service picked it up"@
    } else {
        "the sync service picks it up when it starts"@
    })
}

/// The line that tells of an adopt.
pub fn line(o: &AdoptOut) -> (r: String)
    ensures
        r@ == adopt_line(*o),
{
    let mut s = "adopted ".to_owned();
    s.append(o.save.game_slug.as_str());
    s.append("/");
    s.append(o.save.label.as_str());
    s.append(" (");
    s.append(o.save.save_id.as_str());
    s.append(") into ");
    s.append(o.save.local_path.as_str());
    s.append("; ");
    s.append(
        if o.watching {
            "the sync service picked it up"
        } else {
            "the sync service picks it up when it starts"
        },
    );
    assert(s@ =~= adopt_line(*o));
    s
}

// ---- laws

/// The folder that a path names has no `.` and no `..` left in it, so nothing that is stored can
/// stand for another folder than it spells.
pub proof fn a_folder_spells_itself(path: Seq<Place>)
    ensures
        forall|i: int|
            0 <= i < folder_of(path).len() ==> (#[trigger] folder_of(path)[i] is Name || folder_of(
                path,
            )[i] is Anchor),
        folder_of(folder_of(path)) == folder_of(path),
    decreases path.len(),
{
    if path.len() > 0 {
        a_folder_spells_itself(path.drop_last());
    }
    plain_parts_stay(folder_of(path));
}

/// A path without `.` and `..` names the folder that it spells.
proof fn plain_parts_stay(path: Seq<Place>)
    requires
        forall|i: int| 0 <= i < path.len() ==> (#[trigger] path[i] is Name || path[i] is Anchor),
    ensures
        folder_of(path) == path,
    decreases path.len(),
{
    if path.len() > 0 {
        assert forall|i: int| 0 <= i < path.drop_last().len() implies (#[trigger] path.drop_last()[i]
            is Name || path.drop_last()[i] is Anchor) by {
            assert(path.drop_last()[i] == path[i]);
        }
        plain_parts_stay(path.drop_last());
        assert(path.last() == path[path.len() - 1]);
        assert(folder_of(path) =~= path);
    } else {
        assert(folder_of(path) =~= path);
    }
}


/// The three ways that a path goes on: a `.` changes nothing, a name goes one folder down, and a
/// `..` after a name takes that name back.
pub proof fn a_path_goes_on(
    path: Vec<Part>,
    here: Vec<Part>,
    down: Vec<Part>,
    back: Vec<Part>,
    name: String,
    a: Vec<Part>,
    b: Vec<Part>,
    c: Vec<Part>,
    d: Vec<Part>,
)
    requires
        here@ == path@.push(Part::Current),
        down@ == path@.push(Part::Name(name)),
        back@ == down@.push(Part::Parent),
        call_ensures(lexical, (path,), a),
        call_ensures(lexical, (here,), b),
        call_ensures(lexical, (down,), c),
        call_ensures(lexical, (back,), d),
    ensures
        places(b@) == places(a@),
        places(c@) == places(a@).push(Place::Name(name@)),
        places(d@) == places(a@),
{
    assert(places(here@).drop_last() =~= places(path@));
    assert(places(down@).drop_last() =~= places(path@));
    assert(places(back@).drop_last() =~= places(down@));
    assert(places(here@).last() == Place::Current);
    assert(places(down@).last() == Place::Name(name@));
    assert(places(back@).last() == Place::Parent);
    assert(places(a@).push(Place::Name(name@)).drop_last() =~= places(a@));
}

/// The prefix that is there ends at the first that is not, and a link counts only within it.
pub proof fn what_is_there_comes_first(found: Vec<Found>, r: (usize, bool), n: int)
    requires
        call_ensures(existing, (&found,), r),
        0 <= n <= found@.len(),
        forall|i: int|
            0 <= i < n ==> (#[trigger] found@[i] == Found::There || found@[i] == Found::Linked),
        n < found@.len() ==> found@[n] == Found::Nothing || found@[n] == Found::Dangling,
    ensures
        r.0 == n,
        r.1 <==> exists|i: int| 0 <= i < n && #[trigger] found@[i] == Found::Linked,
{
    reaches_so_far(found@, n);
}

proof fn reaches_so_far(found: Seq<Found>, n: int)
    requires
        0 <= n <= found.len(),
        forall|i: int|
            0 <= i < n ==> (#[trigger] found[i] == Found::There || found[i] == Found::Linked),
        n < found.len() ==> found[n] == Found::Nothing || found[n] == Found::Dangling,
    ensures
        reach(found) == n,
    decreases n,
{
    if n > 0 {
        let rest = found.skip(1);
        assert(exists_there(found[0]));
        assert forall|i: int| 0 <= i < n - 1 implies (#[trigger] rest[i] == Found::There || rest[i]
            == Found::Linked) by {
            assert(rest[i] == found[i + 1]);
        }
        if n < found.len() {
            assert(rest[n - 1] == found[n]);
        }
        reaches_so_far(rest, n - 1);
    }
}

/// A verbatim path of a drive loses its mark; one of a share, and a plain one, stay.
pub proof fn a_verbatim_drive_is_plain(path: String, rest: Seq<char>, r: String)
    requires
        call_ensures(without_verbatim, (path,), r),
    ensures
        path@ == seq!['\\', '\\', '?', '\\'] + rest && !begins(rest, "UNC\\"@) ==> r@ == rest,
        path@ == seq!['\\', '\\', '?', '\\'] + rest && begins(rest, "UNC\\"@) ==> r@ == path@,
        path@.len() < 4 || path@[0] != '\\' || path@[1] != '\\' || path@[2] != '?' || path@[3]
            != '\\' ==> r@ == path@,
{
    reveal_strlit("\\\\?\\");
    let mark = "\\\\?\\"@;
    assert(mark =~= seq!['\\', '\\', '?', '\\']);
    if path@ == mark + rest {
        assert(path@.skip(4) =~= rest);
        assert(path@.take(4) =~= mark);
    }
    if begins(path@, mark) {
        assert(path@.take(4)[0] == path@[0] && path@.take(4)[1] == path@[1] && path@.take(4)[2]
            == path@[2] && path@.take(4)[3] == path@[3]);
    }
}

/// A folder may be adopted into when the id is one, the folder is none yet or a folder, and the
/// engine has nothing against it. It is taken as it stands.
pub proof fn a_folder_may_be_used(
    save_id: &str,
    path: &str,
    folder: Result<Folder, String>,
    r: Result<String, Failure>,
)
    requires
        call_ensures(check, (save_id, path, folder), r),
    ensures
        r is Ok <==> is_uuid(save_id@) && folder is Ok && (!folder->Ok_0.exists
            || folder->Ok_0.is_dir) && folder->Ok_0.refusal is None,
        r is Ok ==> r->Ok_0 == folder->Ok_0.path,
        r is Err ==> r->Err_0.cause is Coded && r->Err_0.cause->Coded_0.code@ == "bad_request"@,
        !is_uuid(save_id@) ==> r->Err_0.cause->Coded_0.message@ == "`"@ + save_id@
            + "` is not a save id; the save id is the UUID `hoard save list` shows"@,
        is_uuid(save_id@) && folder is Err ==> r->Err_0.cause->Coded_0.message@ == "`"@ + path@
            + "` is not a usable folder: "@ + folder->Err_0@,
        is_uuid(save_id@) && folder is Ok && folder->Ok_0.exists && !folder->Ok_0.is_dir
            ==> r->Err_0.cause->Coded_0.message@ == folder->Ok_0.path@ + " is not a folder"@,
{
}

/// A refusal is told by its code and in words; any other failure keeps its own.
pub proof fn a_refusal_is_coded(refusal: AdoptRefusal, f: Failure, r: Failure, s: Failure)
    requires
        call_ensures(coded, (AdoptError::Refused(refusal),), r),
        call_ensures(coded, (AdoptError::Other(f),), s),
    ensures
        s == f,
        r.cause is Coded && r.contexts@.len() == 0,
        refusal matches AdoptRefusal::AlreadyTracked { save_id, local_path }
            ==> r.cause->Coded_0.code@ == "already_tracked"@ && r.cause->Coded_0.message@ == save_id@
            + " is already tracked on this machine, in "@ + local_path@ + "; `hoard save path "@
            + save_id@ + " <folder>` moves it"@,
        refusal matches AdoptRefusal::Invalid(message) ==> r.cause->Coded_0.code@ == "bad_request"@
            && r.cause->Coded_0.message@ == message@,
{
}

proof fn tracked_at_is(saves: Seq<(String, SaveState)>, id: Seq<char>, i: int)
    requires
        0 <= i < saves.len(),
        saves[i].0@ == id,
        forall|k: int| 0 <= k < i ==> (#[trigger] saves[k]).0@ != id,
    ensures
        tracked_at(saves, id) == Some(saves[i].1.local_path@),
    decreases i,
{
    if i > 0 {
        let rest = saves.skip(1);
        assert(saves[0].0@ != id);
        assert(rest[i - 1] == saves[i]);
        assert forall|k: int| 0 <= k < i - 1 implies (#[trigger] rest[k]).0@ != id by {
            assert(rest[k] == saves[k + 1]);
        }
        tracked_at_is(rest, id, i - 1);
    }
}

proof fn tracked_nowhere(saves: Seq<(String, SaveState)>, id: Seq<char>)
    requires
        forall|k: int| 0 <= k < saves.len() ==> (#[trigger] saves[k]).0@ != id,
    ensures
        tracked_at(saves, id) is None,
    decreases saves.len(),
{
    if saves.len() > 0 {
        let rest = saves.skip(1);
        assert(saves[0].0@ != id);
        assert forall|k: int| 0 <= k < rest.len() implies (#[trigger] rest[k]).0@ != id by {
            assert(rest[k] == saves[k + 1]);
        }
        tracked_nowhere(rest, id);
    }
}

/// A save is adopted once: one that has a folder here is refused, with the folder it has, and one
/// that has none is not.
pub proof fn a_save_is_adopted_once(state: CliState, save_id: &str, r: Result<(), Failure>, i: int)
    requires
        call_ensures(not_tracked, (&state, save_id), r),
    ensures
        (forall|k: int| 0 <= k < state.saves@.len() ==> (#[trigger] state.saves@[k]).0@ != save_id@)
            ==> r is Ok,
        (0 <= i < state.saves@.len() && state.saves@[i].0@ == save_id@ && forall|k: int|
            0 <= k < i ==> (#[trigger] state.saves@[k]).0@ != save_id@) ==> r is Err
            && r->Err_0.cause is Coded && r->Err_0.cause->Coded_0.code@ == "already_tracked"@
            && r->Err_0.cause->Coded_0.message@ == save_id@
            + " is already tracked on this machine, in "@ + state.saves@[i].1.local_path@
            + "; `hoard save path "@ + save_id@ + " <folder>` moves it"@,
{
    if forall|k: int|
        0 <= k < state.saves@.len() ==> (#[trigger] state.saves@[k]).0@ != save_id@ {
        tracked_nowhere(state.saves@, save_id@);
    }
    if 0 <= i < state.saves@.len() && state.saves@[i].0@ == save_id@ && (forall|k: int|
        0 <= k < i ==> (#[trigger] state.saves@[k]).0@ != save_id@) {
        tracked_at_is(state.saves@, save_id@, i);
    }
}

proof fn entry_is(entries: Seq<ManifestEntry>, id: Seq<char>, i: int)
    requires
        0 <= i < entries.len(),
        entries[i].save_id@ == id,
        forall|k: int| 0 <= k < i ==> (#[trigger] entries[k]).save_id@ != id,
    ensures
        entry_of(entries, id) == Some(entries[i]),
    decreases i,
{
    if i > 0 {
        let rest = entries.skip(1);
        assert(entries[0].save_id@ != id);
        assert(rest[i - 1] == entries[i]);
        assert forall|k: int| 0 <= k < i - 1 implies (#[trigger] rest[k]).save_id@ != id by {
            assert(rest[k] == entries[k + 1]);
        }
        entry_is(rest, id, i - 1);
    }
}

proof fn no_entry(entries: Seq<ManifestEntry>, id: Seq<char>)
    requires
        forall|k: int| 0 <= k < entries.len() ==> (#[trigger] entries[k]).save_id@ != id,
    ensures
        entry_of(entries, id) is None,
    decreases entries.len(),
{
    if entries.len() > 0 {
        let rest = entries.skip(1);
        assert(entries[0].save_id@ != id);
        assert forall|k: int| 0 <= k < rest.len() implies (#[trigger] rest[k]).save_id@ != id by {
            assert(rest[k] == entries[k + 1]);
        }
        no_entry(rest, id);
    }
}

/// The manifest answers for a save with the game and label of its entry, and for one that it lacks
/// as the server would: not found.
pub proof fn a_manifest_answers(
    entries: Vec<ManifestEntry>,
    save_id: &str,
    r: Result<(String, String), Failure>,
    i: int,
)
    requires
        call_ensures(row_in_manifest, (&entries, save_id), r),
    ensures
        (0 <= i < entries@.len() && entries@[i].save_id@ == save_id@ && forall|k: int|
            0 <= k < i ==> (#[trigger] entries@[k]).save_id@ != save_id@) ==> r is Ok && r->Ok_0.0
            == entries@[i].game_slug && r->Ok_0.1 == entries@[i].label,
        (forall|k: int|
            0 <= k < entries@.len() ==> (#[trigger] entries@[k]).save_id@ != save_id@) ==> r is Err
            && r->Err_0.cause is Api && r->Err_0.cause->Api_0 is NotFound
            && r->Err_0.contexts@.len() == 1 && r->Err_0.contexts@[0]@ == "the server has no save "@
            + save_id@ + " this account can reach"@,
{
    if 0 <= i < entries@.len() && entries@[i].save_id@ == save_id@ && (forall|k: int|
        0 <= k < i ==> (#[trigger] entries@[k]).save_id@ != save_id@) {
        entry_is(entries@, save_id@, i);
    }
    if forall|k: int| 0 <= k < entries@.len() ==> (#[trigger] entries@[k]).save_id@ != save_id@ {
        no_entry(entries@, save_id@);
    }
}

/// The server's row gives its game and its label. Of a failure only one is explained: that the row
/// is not there.
pub proof fn a_row_answers(
    answer: Result<Save, Failure>,
    save_id: &str,
    r: Result<(String, String), Failure>,
)
    requires
        call_ensures(row_of, (answer, save_id), r),
    ensures
        answer is Ok ==> r is Ok && r->Ok_0.0 == answer->Ok_0.game_slug && r->Ok_0.1
            == answer->Ok_0.label,
        answer is Err ==> r is Err && r->Err_0.cause == answer->Err_0.cause,
        answer is Err && answer->Err_0.cause is Api && answer->Err_0.cause->Api_0 is NotFound
            ==> r->Err_0.contexts@.len() > 0 && r->Err_0.contexts@.last()@
            == "the server has no save "@ + save_id@ + " this account can reach"@,
        answer is Err && !(answer->Err_0.cause is Api && answer->Err_0.cause->Api_0 is NotFound)
            ==> r->Err_0 == answer->Err_0,
{
}

/// An adopt is told by the save's row, and by whether a service watches it yet.
pub proof fn an_adopt_is_told(o: AdoptOut, r: String)
    requires
        call_ensures(line, (&o,), r),
    ensures
        o.watching ==> r@ == "adopted "@ + o.save.game_slug@ + "/"@ + o.save.label@ + " ("@
            + o.save.save_id@ + ") into "@ + o.save.local_path@ + "; "@
            + "the sync service picked it up"@,
        !o.watching ==> r@ == "adopted "@ + o.save.game_slug@ + "/"@ + o.save.label@ + " ("@
            + o.save.save_id@ + ") into "@ + o.save.local_path@ + "; "@
            + "the sync service picks it up when it starts"@,
{
}

} // verus!
