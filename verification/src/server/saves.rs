//! Saves: create, list, rename, delete.

use vstd::prelude::*;

use crate::clock::Moment;
use crate::fileclass::included;
#[allow(unused_imports)]
use crate::fileclass::named_by;
use crate::ids;
#[allow(unused_imports)]
use crate::ids::is_uuid;
#[allow(unused_imports)]
use crate::server::access::SaveAccess;
#[allow(unused_imports)]
use crate::server::leases::{acquire, Acquired, Claimant, Head, StoredLease};
use crate::server::reply::Refusal;
use crate::server::share::include_for;
#[allow(unused_imports)]
use crate::server::share::list_in;
use crate::text::{holds_text, same, trim};
#[allow(unused_imports)]
use crate::text::{mentions, trimmed, views};
use crate::wire::{Save, SharedInfo};

verus! {

/// Which saves a listing is about.
#[derive(Debug)]
pub struct ListQuery {
    pub game_slug: Option<String>,
}

/// Does the save belong in the listing?
pub fn listed(query: &ListQuery, game_slug: &str) -> (r: bool)
    ensures
        r == (match query.game_slug {
            Some(slug) => slug@ == game_slug@,
            None => true,
        }),
{
    match &query.game_slug {
        Some(slug) => same(slug.as_str(), game_slug),
        None => true,
    }
}

/// A request for a new save.
#[derive(Debug)]
pub struct CreateSave {
    pub game_slug: String,
    pub label: Option<String>,
    pub local_path_hint: Option<String>,
    pub client_os: Option<String>,
    pub display_name: Option<String>,
    pub steam_app_id: Option<i64>,
}

/// A row for a game that the server did not know.
#[derive(Debug)]
pub struct GameStub {
    pub slug: String,
    pub display_name: String,
    pub steam_app_id: Option<i64>,
}

/// A row for a new save.
#[derive(Debug)]
pub struct NewSave {
    pub game_slug: String,
    pub label: String,
    pub local_path_hint: Option<String>,
    pub client_os: Option<String>,
}

/// Does the request say what the game is called?
pub open spec fn names_game(body: CreateSave) -> bool {
    body.display_name is Some && body.display_name->0@.len() > 0
}

/// What a new save writes: the save, and a stub for the game where the server does not know it
/// and the client says what it is called. A client that does not say is refused.
pub fn create(body: CreateSave, game_known: bool) -> (r: Result<(Option<GameStub>, NewSave), Refusal>)
    ensures
        r is Ok == (game_known || names_game(body)),
        r is Err ==> r->Err_0 == Refusal::GameNotFound,
        r matches Ok((stub, save)) ==> {
            &&& stub is Some == !game_known
            &&& stub is Some ==> {
                &&& stub->0.slug@ == body.game_slug@
                &&& Some(stub->0.display_name) == body.display_name
                &&& stub->0.steam_app_id == body.steam_app_id
            }
            &&& save.game_slug == body.game_slug
            &&& save.label@ == (match body.label {
                Some(l) => l@,
                None => "default"@,
            })
            &&& save.local_path_hint == body.local_path_hint
            &&& save.client_os == body.client_os
        },
{
    let label = match body.label {
        Some(l) => l,
        None => "default".to_owned(),
    };
    let stub = if game_known {
        None
    } else {
        match body.display_name {
            Some(display_name) => {
                if display_name.as_str().is_empty() {
                    return Err(Refusal::GameNotFound);
                }
                Some(
                    GameStub {
                        slug: body.game_slug.clone(),
                        display_name,
                        steam_app_id: body.steam_app_id,
                    },
                )
            },
            None => {
                return Err(Refusal::GameNotFound);
            },
        }
    };
    Ok(
        (
            stub,
            NewSave {
                game_slug: body.game_slug,
                label,
                local_path_hint: body.local_path_hint,
                client_os: body.client_os,
            },
        ),
    )
}

/// How a write to the database went.
#[derive(Debug, Clone, Copy, PartialEq, Eq, Structural)]
pub enum Written {
    Done,
    /// Another row has this key.
    Unique,
    Failed,
}

/// How a write went that came back with this error, if any: a row with the same key is told by
/// what the error mentions.
pub open spec fn write_outcome(error: Option<Seq<char>>, mark: Seq<char>) -> Written {
    match error {
        None => Written::Done,
        Some(e) => if mentions(e, mark) {
            Written::Unique
        } else {
            Written::Failed
        },
    }
}

fn outcome_of(error: Option<&str>, mark: &str) -> (r: Written)
    ensures
        r == write_outcome(
            match error {
                Some(e) => Some(e@),
                None => None,
            },
            mark@,
        ),
{
    match error {
        None => Written::Done,
        Some(e) => if holds_text(e, mark) {
            Written::Unique
        } else {
            Written::Failed
        },
    }
}

/// How the insertion of a save went.
pub fn inserted(error: Option<&str>) -> (r: Written)
    ensures
        r == write_outcome(
            match error {
                Some(e) => Some(e@),
                None => None,
            },
            "UNIQUE constraint"@,
        ),
{
    outcome_of(error, "UNIQUE constraint")
}

/// How the update of a save's label went.
pub fn relabelled(error: Option<&str>) -> (r: Written)
    ensures
        r == write_outcome(
            match error {
                Some(e) => Some(e@),
                None => None,
            },
            "UNIQUE"@,
        ),
{
    outcome_of(error, "UNIQUE")
}

/// What the insertion of a game's stub answers: without it the game is not known.
pub fn stubbed(done: bool) -> (r: Result<(), Refusal>)
    ensures
        r == (if done {
            Ok::<(), Refusal>(())
        } else {
            Err::<(), Refusal>(Refusal::GameNotFound)
        }),
{
    if done {
        Ok(())
    } else {
        Err(Refusal::GameNotFound)
    }
}

/// What the insertion of a save answers.
pub fn created(written: Written) -> (r: Result<(), Refusal>)
    ensures
        r == (match written {
            Written::Done => Ok::<(), Refusal>(()),
            Written::Unique => Err::<(), Refusal>(Refusal::SaveExists),
            Written::Failed => Err::<(), Refusal>(Refusal::Internal),
        }),
{
    match written {
        Written::Done => Ok(()),
        Written::Unique => Err(Refusal::SaveExists),
        Written::Failed => Err(Refusal::Internal),
    }
}

/// `data/<user>/<game>/<label>`: the directory of a save, below the data directory.
pub open spec fn dir_of(user: Seq<char>, game: Seq<char>, label: Seq<char>) -> Seq<Seq<char>> {
    seq!["data"@, user, game, label]
}

/// The directory of a save, part by part.
pub fn save_dir(user_id: &str, game_slug: &str, label: &str) -> (r: Vec<String>)
    ensures
        views(r@) == dir_of(user_id@, game_slug@, label@),
{
    let mut r: Vec<String> = Vec::new();
    r.push("data".to_owned());
    r.push(user_id.to_owned());
    r.push(game_slug.to_owned());
    r.push(label.to_owned());
    assert(views(r@) =~= dir_of(user_id@, game_slug@, label@));
    r
}

/// A request to change a save.
#[derive(Debug)]
pub struct PatchSave {
    pub label: Option<String>,
    pub local_path_hint: Option<String>,
    pub client_os: Option<String>,
}

/// The label that a request renames a save to: trimmed, and none when it is empty or the label
/// the save has.
pub open spec fn new_label(current: Seq<char>, asked: Option<String>) -> Option<Seq<char>> {
    match asked {
        Some(l) => if trimmed(l@).len() == 0 || trimmed(l@) == current {
            None
        } else {
            Some(trimmed(l@))
        },
        None => None,
    }
}

/// What a rename waits for.
#[derive(Debug, Clone, Copy, PartialEq, Eq, Structural)]
pub enum RenameStep {
    /// The row's update, inside a transaction.
    Updating,
    /// A look at the two directories.
    Looking,
    /// The directory's rename.
    Moving,
    /// The commit.
    Committing { moved: bool },
    /// Nothing any more.
    Over,
}

/// What happened to a rename.
#[derive(Debug, Clone, Copy, PartialEq, Eq, Structural)]
pub enum RenameEvent {
    Updated(Written),
    Looked { old_exists: bool, new_exists: bool },
    Moved(bool),
    Committed(bool),
}

/// What a rename does next.
#[derive(Debug)]
pub enum RenameAction {
    /// Look whether the old and the new directory are there.
    Look,
    /// Rename the directory.
    MoveDir,
    /// Commit the transaction.
    Commit,
    /// Roll the transaction back, then refuse.
    RollBack(Refusal),
    /// The commit failed after the directory was renamed: rename it back, then refuse.
    MoveBack(Refusal),
    /// Refuse.
    Refuse(Refusal),
    /// The label and the directory have changed together.
    Done,
}

/// The step that follows an event, and the action to take. `None` for an event that the step
/// does not wait for.
pub open spec fn rename_next(step: RenameStep, event: RenameEvent) -> Option<
    (RenameStep, RenameAction),
> {
    match (step, event) {
        (RenameStep::Updating, RenameEvent::Updated(Written::Done)) => Some(
            (RenameStep::Looking, RenameAction::Look),
        ),
        (RenameStep::Updating, RenameEvent::Updated(Written::Unique)) => Some(
            (RenameStep::Over, RenameAction::Refuse(Refusal::LabelTaken)),
        ),
        (RenameStep::Updating, RenameEvent::Updated(Written::Failed)) => Some(
            (RenameStep::Over, RenameAction::Refuse(Refusal::Internal)),
        ),
        (RenameStep::Looking, RenameEvent::Looked { old_exists, new_exists }) => if !old_exists {
            Some((RenameStep::Committing { moved: false }, RenameAction::Commit))
        } else if new_exists {
            Some((RenameStep::Over, RenameAction::RollBack(Refusal::DirectoryTaken)))
        } else {
            Some((RenameStep::Moving, RenameAction::MoveDir))
        },
        (RenameStep::Moving, RenameEvent::Moved(true)) => Some(
            (RenameStep::Committing { moved: true }, RenameAction::Commit),
        ),
        (RenameStep::Moving, RenameEvent::Moved(false)) => Some(
            (RenameStep::Over, RenameAction::RollBack(Refusal::Internal)),
        ),
        (RenameStep::Committing { .. }, RenameEvent::Committed(true)) => Some(
            (RenameStep::Over, RenameAction::Done),
        ),
        (RenameStep::Committing { moved }, RenameEvent::Committed(false)) => if moved {
            Some((RenameStep::Over, RenameAction::MoveBack(Refusal::Internal)))
        } else {
            Some((RenameStep::Over, RenameAction::Refuse(Refusal::Internal)))
        },
        _ => None,
    }
}

/// The label of a save is part of its path on disk, so a rename moves the row and the directory
/// in lockstep: update the row inside a transaction, rename the directory, commit; undo what was
/// done when a later part fails.
#[derive(Debug)]
pub struct Rename {
    pub label: String,
    pub step: RenameStep,
}

impl Rename {
    /// Take one step.
    pub fn next(&mut self, event: RenameEvent) -> (r: Option<RenameAction>)
        ensures
            final(self).label == old(self).label,
            match rename_next(old(self).step, event) {
                Some((step, action)) => final(self).step == step && r == Some(action),
                None => final(self).step == old(self).step && r is None,
            },
    {
        let (step, action) = match (self.step, event) {
            (RenameStep::Updating, RenameEvent::Updated(Written::Done)) => (
                RenameStep::Looking,
                RenameAction::Look,
            ),
            (RenameStep::Updating, RenameEvent::Updated(Written::Unique)) => (
                RenameStep::Over,
                RenameAction::Refuse(Refusal::LabelTaken),
            ),
            (RenameStep::Updating, RenameEvent::Updated(Written::Failed)) => (
                RenameStep::Over,
                RenameAction::Refuse(Refusal::Internal),
            ),
            (
                RenameStep::Looking,
                RenameEvent::Looked { old_exists, new_exists },
            ) => if !old_exists {
                (RenameStep::Committing { moved: false }, RenameAction::Commit)
            } else if new_exists {
                (RenameStep::Over, RenameAction::RollBack(Refusal::DirectoryTaken))
            } else {
                (RenameStep::Moving, RenameAction::MoveDir)
            },
            (RenameStep::Moving, RenameEvent::Moved(true)) => (
                RenameStep::Committing { moved: true },
                RenameAction::Commit,
            ),
            (RenameStep::Moving, RenameEvent::Moved(false)) => (
                RenameStep::Over,
                RenameAction::RollBack(Refusal::Internal),
            ),
            (RenameStep::Committing { .. }, RenameEvent::Committed(true)) => (
                RenameStep::Over,
                RenameAction::Done,
            ),
            (RenameStep::Committing { moved }, RenameEvent::Committed(false)) => if moved {
                (RenameStep::Over, RenameAction::MoveBack(Refusal::Internal))
            } else {
                (RenameStep::Over, RenameAction::Refuse(Refusal::Internal))
            },
            _ => {
                return None;
            },
        };
        self.step = step;
        Some(action)
    }
}

/// What a request to change a save comes to.
#[derive(Debug)]
pub struct Patch {
    /// The rename to run first, if any.
    pub rename: Option<Rename>,
    pub local_path_hint: Option<String>,
    pub client_os: Option<String>,
}

/// A request to change a save: the caller must own it. `current` is the label of their save.
pub fn patch(current: Option<&str>, body: PatchSave) -> (r: Result<Patch, Refusal>)
    ensures
        r is Ok == current is Some,
        r is Err ==> r->Err_0 == Refusal::NotYours,
        r matches Ok(p) ==> {
            &&& match new_label(current->0@, body.label) {
                Some(l) => {
                    &&& p.rename is Some
                    &&& p.rename->0.label@ == l
                    &&& p.rename->0.step == RenameStep::Updating
                },
                None => p.rename is None,
            }
            &&& p.local_path_hint == body.local_path_hint
            &&& p.client_os == body.client_os
        },
{
    let current = match current {
        Some(c) => c,
        None => {
            return Err(Refusal::NotYours);
        },
    };
    let rename = match &body.label {
        Some(l) => {
            let label = trim(l.as_str());
            if label.as_str().is_empty() || same(label.as_str(), current) {
                None
            } else {
                Some(Rename { label, step: RenameStep::Updating })
            }
        },
        None => None,
    };
    Ok(Patch { rename, local_path_hint: body.local_path_hint, client_os: body.client_os })
}

/// Where the row and the directory of a save stand during a rename: at the new label or not. The
/// row is at the new label only once the transaction is committed.
pub ghost struct Standing {
    pub row_new: bool,
    pub dir_new: bool,
}

/// What an action does to the row and the directory, where the world does as it is told.
pub open spec fn acted(s: Standing, event: RenameEvent, action: RenameAction) -> Standing {
    let moved = match event {
        RenameEvent::Moved(ok) => Standing { dir_new: ok, ..s },
        RenameEvent::Committed(ok) => Standing { row_new: ok, ..s },
        _ => s,
    };
    match action {
        RenameAction::MoveBack(_) => Standing { dir_new: false, ..moved },
        _ => moved,
    }
}

/// Does the standing fit the step of a rename that started with both at the old label? `has_dir`
/// tells whether there was a directory to rename.
pub open spec fn stands(step: RenameStep, has_dir: bool, s: Standing) -> bool {
    match step {
        RenameStep::Updating | RenameStep::Looking => !s.row_new && !s.dir_new,
        RenameStep::Moving => has_dir && !s.row_new && !s.dir_new,
        RenameStep::Committing { moved } => !s.row_new && s.dir_new == moved && moved == has_dir,
        RenameStep::Over => s.dir_new == (has_dir && s.row_new),
    }
}

/// However a rename goes, the label and the directory never part: every step keeps them in
/// lockstep, and at the end the directory is at the new label if and only if the row is (and
/// there was a directory at all).
pub proof fn a_rename_keeps_row_and_directory_together(
    step: RenameStep,
    event: RenameEvent,
    has_dir: bool,
    s: Standing,
)
    requires
        stands(step, has_dir, s),
        step != RenameStep::Over,
        rename_next(step, event) is Some,
        event matches RenameEvent::Looked { old_exists, .. } ==> old_exists == has_dir,
    ensures
        ({
            let (next, action) = rename_next(step, event)->0;
            let after = acted(s, event, action);
            &&& stands(next, has_dir, after)
            &&& action is Done ==> after.row_new
            &&& (action is RollBack || action is MoveBack || action is Refuse) ==> !after.row_new
                && !after.dir_new
        }),
{
}

/// What deleting a save does after a round of taking its share back.
#[derive(Debug, Clone, Copy, PartialEq, Eq, Structural)]
pub enum DeleteStep {
    /// Delete the row.
    Delete,
    /// A share landed meanwhile: take it back again.
    TakeBackAgain,
    /// It kept being shared.
    Refuse,
}

/// A request to delete a save: the caller must own it.
pub fn may_delete(owned: bool) -> (r: Result<(), Refusal>)
    ensures
        r == (if owned {
            Ok::<(), Refusal>(())
        } else {
            Err::<(), Refusal>(Refusal::NotYours)
        }),
{
    if owned {
        Ok(())
    } else {
        Err(Refusal::NotYours)
    }
}

/// Under the write lock, in the given round (the first is 0): a save that is not shared is
/// deleted; one that is shared again is taken back again, up to three rounds.
pub fn delete(round: u8, shared: i64) -> (r: DeleteStep)
    ensures
        r == (if shared <= 0 {
            DeleteStep::Delete
        } else if round >= 2 {
            DeleteStep::Refuse
        } else {
            DeleteStep::TakeBackAgain
        }),
{
    if shared > 0 {
        if round >= 2 {
            return DeleteStep::Refuse;
        }
        return DeleteStep::TakeBackAgain;
    }
    DeleteStep::Delete
}

/// A row of a save with its totals and, when it is shared, its group. The game's slug, the name of
/// the group's owner and the times are what the stored texts were repaired to when the row was read.
#[derive(Debug)]
pub struct SaveRow {
    pub id: String,
    pub owner_user_id: String,
    pub game_slug: String,
    pub label: String,
    pub local_path_hint: Option<String>,
    pub client_os: Option<String>,
    pub latest_version_num: i64,
    pub created_at: Moment,
    pub updated_at: Moment,
    pub snapshot_count: Option<i64>,
    pub total_size_bytes: Option<i64>,
    pub group_id: Option<String>,
    pub group_name: Option<String>,
    pub group_owner_id: Option<String>,
    pub group_owner_name: Option<String>,
    pub include_json: Option<String>,
}

/// The text of a column.
pub open spec fn column(c: Option<String>) -> Option<Seq<char>> {
    match c {
        Some(s) => Some(s@),
        None => None,
    }
}

/// Is everything there that says where the save is shared?
pub open spec fn row_is_shared(row: SaveRow) -> bool {
    row.group_id is Some && row.group_name is Some && row.group_owner_id is Some
        && row.group_owner_name is Some
}

/// Is this the row as the wire has it, its total aside?
pub open spec fn is_wire_of(save: Save, row: SaveRow) -> bool {
    &&& save.id@ == row.id@
    &&& save.game_slug == row.game_slug
    &&& save.label == row.label
    &&& save.local_path_hint == row.local_path_hint
    &&& save.client_os == row.client_os
    &&& save.user_id is None
    &&& save.latest_version_num == Some(row.latest_version_num)
    &&& save.snapshot_count == Some(
        match row.snapshot_count {
            Some(n) => n,
            None => 0,
        },
    )
    &&& save.created_at == row.created_at
    &&& save.updated_at == row.updated_at
    &&& save.shared is Some == row_is_shared(row)
    &&& save.shared matches Some(s) ==> {
        &&& Some(s.group_id) == row.group_id
        &&& Some(s.group_name) == row.group_name
        &&& Some(s.owner_user_id) == row.group_owner_id
        &&& Some(s.owner_username) == row.group_owner_name
        &&& views(s.includes@) == list_in(column(row.include_json))
    }
}

/// The total that the row carries.
pub open spec fn row_total(row: SaveRow) -> i64 {
    match row.total_size_bytes {
        Some(n) => n,
        None => 0,
    }
}

/// The sizes of the named files, added up.
pub open spec fn named_total(list: Seq<Seq<char>>, files: Seq<(String, i64)>) -> int
    decreases files.len(),
{
    if files.len() == 0 {
        0
    } else {
        named_total(list, files.drop_last()) + (if named_by(list, files.last().0@) {
            files.last().1 as int
        } else {
            0
        })
    }
}

/// How many of the files are named.
pub open spec fn named_count(list: Seq<Seq<char>>, files: Seq<(String, i64)>) -> nat
    decreases files.len(),
{
    if files.len() == 0 {
        0
    } else {
        named_count(list, files.drop_last()) + (if named_by(list, files.last().0@) {
            1nat
        } else {
            0nat
        })
    }
}

/// All sizes, added up.
pub open spec fn whole_total(files: Seq<(String, i64)>) -> int
    decreases files.len(),
{
    if files.len() == 0 {
        0
    } else {
        whole_total(files.drop_last()) + files.last().1
    }
}

/// No size is negative, and together they fit in a machine number.
pub open spec fn sizes_fit(files: Seq<(String, i64)>) -> bool {
    whole_total(files) <= i64::MAX && forall|i: int|
        0 <= i < files.len() ==> (#[trigger] files[i]).1 >= 0
}

proof fn named_is_within_whole(list: Seq<Seq<char>>, files: Seq<(String, i64)>, i: int)
    requires
        sizes_fit(files),
        0 <= i <= files.len(),
    ensures
        0 <= named_total(list, files.take(i)) <= whole_total(files.take(i)) <= whole_total(files),
    decreases files.len() - i,
{
    if i < files.len() {
        named_is_within_whole(list, files, i + 1);
        let next = files.take(i + 1);
        assert(next.drop_last() =~= files.take(i));
        assert(next.last() == files[i]);
    } else {
        assert(files.take(i) =~= files);
    }
    named_from_below(list, files, i);
}

proof fn named_from_below(list: Seq<Seq<char>>, files: Seq<(String, i64)>, i: int)
    requires
        sizes_fit(files),
        0 <= i <= files.len(),
    ensures
        0 <= named_total(list, files.take(i)) <= whole_total(files.take(i)),
    decreases i,
{
    if i > 0 {
        named_from_below(list, files, i - 1);
        assert(files.take(i).drop_last() =~= files.take(i - 1));
        assert(files.take(i).last() == files[i - 1]);
    }
}

/// How many files a share names, and their sizes added up.
pub fn included_totals(includes: &[String], files: &Vec<(String, i64)>) -> (r: (usize, i64))
    requires
        sizes_fit(files@),
    ensures
        r.0 == named_count(views(includes@), files@),
        r.1 == named_total(views(includes@), files@),
{
    let ghost list = views(includes@);
    let mut count: usize = 0;
    let mut size: i64 = 0;
    let mut i: usize = 0;
    while i < files.len()
        invariant
            i <= files.len(),
            list == views(includes@),
            sizes_fit(files@),
            count <= i,
            count == named_count(list, files@.take(i as int)),
            size == named_total(list, files@.take(i as int)),
        decreases files.len() - i,
    {
        assert(files@.take(i + 1).drop_last() =~= files@.take(i as int));
        proof {
            named_is_within_whole(list, files@, i + 1);
        }
        if included(includes, files[i].0.as_str()) {
            count = count + 1;
            size = size + files[i].1;
        }
        i += 1;
    }
    assert(files@.take(files.len() as int) =~= files@);
    (count, size)
}

impl SaveRow {
    /// The row as the wire has it. `None` only for a row whose id is not one.
    pub fn into_wire(self) -> (r: Option<Save>)
        ensures
            r is Some == is_uuid(self.id@),
            r matches Some(save) ==> is_wire_of(save, self) && save.total_size_bytes == Some(
                row_total(self),
            ),
    {
        let id = match ids::parse(self.id.as_str()) {
            Some(id) => id,
            None => {
                return None;
            },
        };
        let shared = match (
            self.group_id,
            self.group_name,
            self.group_owner_id,
            self.group_owner_name,
        ) {
            (Some(group_id), Some(group_name), Some(owner_user_id), Some(owner_username)) => Some(
                SharedInfo {
                    group_id,
                    group_name,
                    owner_user_id,
                    owner_username,
                    includes: include_for(&self.include_json),
                },
            ),
            _ => None,
        };
        Some(
            Save {
                id,
                user_id: None,
                game_slug: self.game_slug,
                label: self.label,
                local_path_hint: self.local_path_hint,
                client_os: self.client_os,
                latest_version_num: Some(self.latest_version_num),
                snapshot_count: Some(
                    match self.snapshot_count {
                        Some(n) => n,
                        None => 0,
                    },
                ),
                total_size_bytes: Some(
                    match self.total_size_bytes {
                        Some(n) => n,
                        None => 0,
                    },
                ),
                created_at: self.created_at,
                updated_at: self.updated_at,
                shared,
            },
        )
    }

    /// Does `user_id` see only what the share names? A member does, of a share that names files.
    pub open spec fn narrowed_for(self, user_id: Seq<char>) -> bool {
        &&& self.owner_user_id@ != user_id
        &&& row_is_shared(self)
        &&& list_in(column(self.include_json)).len() > 0
    }

    /// The row as `user_id` may see it. `files` are the paths of the live versions, each with its
    /// sizes added up: for a member of a share that names its files the total is that of the
    /// named ones, for anybody else the row's.
    pub fn into_visible(self, user_id: &str, files: &Vec<(String, i64)>) -> (r: Option<Save>)
        requires
            sizes_fit(files@),
        ensures
            r is Some == is_uuid(self.id@),
            r matches Some(save) ==> {
                &&& is_wire_of(save, self)
                &&& save.total_size_bytes is Some
                &&& save.total_size_bytes->0 == (if self.narrowed_for(user_id@) {
                    named_total(list_in(column(self.include_json)), files@)
                } else {
                    row_total(self) as int
                })
            },
    {
        let is_owner = same(self.owner_user_id.as_str(), user_id);
        let mut save = match self.into_wire() {
            Some(save) => save,
            None => {
                return None;
            },
        };
        if is_owner {
            return Some(save);
        }
        let mut narrowed: Option<i64> = None;
        if let Some(shared) = &save.shared {
            assert(views(shared.includes@).len() == shared.includes@.len());
            if shared.includes.len() > 0 {
                let (_, size) = included_totals(shared.includes.as_slice(), files);
                narrowed = Some(size);
            }
        }
        if let Some(size) = narrowed {
            save.total_size_bytes = Some(size);
        }
        Some(save)
    }
}

// ---- laws on the rows

/// The version that a listed save carries is the newest that the server stores for it: an acquire
/// from the listed version is never refused as stale while the head has not moved, and one from an
/// older version is, where the share names no files. How many snapshots there are does not matter.
pub proof fn the_listed_version_is_the_head(
    row: SaveRow,
    save: Option<Save>,
    access: Option<SaveAccess>,
    stored: Option<StoredLease>,
    head: Head,
    save_id: String,
    who: Claimant,
    now: i64,
    r: Result<Acquired, Refusal>,
)
    requires
        call_ensures(SaveRow::into_wire, (row,), save),
        save is Some,
        call_ensures(acquire, (access, &stored, &head, save_id, who, now), r),
        head.version == row.latest_version_num,
    ensures
        save->0.latest_version_num is Some,
        save->0.latest_version_num == Some(who.base_version) ==> !(r is Err
            && r->Err_0 is Stale),
        r is Err && r->Err_0 is Stale ==> who.base_version < save->0.latest_version_num->0,
        r is Err && r->Err_0 is Stale ==> Some(r->Err_0->head_version)
            == save->0.latest_version_num,
{
}

/// Rows that differ only in their counts list the same save at the same version.
pub proof fn counts_do_not_move_the_version(
    a: SaveRow,
    b: SaveRow,
    x: Option<Save>,
    y: Option<Save>,
)
    requires
        call_ensures(SaveRow::into_wire, (a,), x),
        call_ensures(SaveRow::into_wire, (b,), y),
        a.id@ == b.id@,
        a.latest_version_num == b.latest_version_num,
    ensures
        x is Some <==> y is Some,
        x is Some ==> x->0.latest_version_num == y->0.latest_version_num,
        x is Some ==> x->0.latest_version_num == Some(a.latest_version_num),
{
}

/// Each column of a row is listed under its own name, and a column that is missing counts as none:
/// no snapshots, no bytes. A save is listed as shared only where everything is there that says with
/// whom, and then in the group and under the owner that the row names.
pub proof fn a_row_is_listed_column_by_column(row: SaveRow, r: Option<Save>)
    requires
        call_ensures(SaveRow::into_wire, (row,), r),
        r is Some,
    ensures
        r->0.id@ == row.id@,
        r->0.user_id is None,
        r->0.game_slug@ == row.game_slug@,
        r->0.label@ == row.label@,
        r->0.local_path_hint == row.local_path_hint,
        r->0.client_os == row.client_os,
        r->0.latest_version_num == Some(row.latest_version_num),
        row.snapshot_count is Some ==> r->0.snapshot_count == row.snapshot_count,
        row.snapshot_count is None ==> r->0.snapshot_count == Some(0i64),
        row.total_size_bytes is Some ==> r->0.total_size_bytes == row.total_size_bytes,
        row.total_size_bytes is None ==> r->0.total_size_bytes == Some(0i64),
        r->0.created_at == row.created_at,
        r->0.updated_at == row.updated_at,
        r->0.shared is Some <==> row.group_id is Some && row.group_name is Some
            && row.group_owner_id is Some && row.group_owner_name is Some,
        r->0.shared is Some ==> {
            let s = r->0.shared->0;
            &&& s.group_id@ == row.group_id->0@
            &&& s.group_name@ == row.group_name->0@
            &&& s.owner_user_id@ == row.group_owner_id->0@
            &&& s.owner_username@ == row.group_owner_name->0@
        },
{
}

/// What a user sees of a row differs from the row as it is listed in the total alone, and only for
/// one who does not own the save and sees a share that names files: theirs is the total of those.
pub proof fn a_member_sees_the_same_save(
    row: SaveRow,
    user_id: &str,
    files: Vec<(String, i64)>,
    includes: &[String],
    seen: Option<Save>,
    whole: Option<Save>,
    totals: (usize, i64),
)
    requires
        call_ensures(SaveRow::into_visible, (row, user_id, &files), seen),
        call_ensures(SaveRow::into_wire, (row,), whole),
        call_ensures(included_totals, (includes, &files), totals),
    ensures
        (seen is Some && row.owner_user_id@ != user_id@ && seen->0.shared is Some && includes@.len()
            > 0 && views(includes@) == views(seen->0.shared->0.includes@))
            ==> seen->0.total_size_bytes == Some(totals.1),
        (seen is Some && seen->0.shared is Some && seen->0.shared->0.includes@.len() == 0)
            ==> seen->0.total_size_bytes == whole->0.total_size_bytes,
        seen is Some <==> whole is Some,
        seen is Some ==> {
            let (a, b) = (seen->0, whole->0);
            &&& a.id@ == b.id@
            &&& a.label@ == b.label@
            &&& a.game_slug@ == b.game_slug@
            &&& a.latest_version_num == b.latest_version_num
            &&& a.snapshot_count == b.snapshot_count
            &&& a.created_at == b.created_at
            &&& a.updated_at == b.updated_at
            &&& a.shared is Some <==> b.shared is Some
            &&& row.owner_user_id@ == user_id@ || a.shared is None ==> a.total_size_bytes
                == b.total_size_bytes
        },
{
    if seen is Some && seen->0.shared is Some {
        assert(views(seen->0.shared->0.includes@).len() == seen->0.shared->0.includes@.len());
        assert(views(includes@).len() == includes@.len());
    }
}

proof fn the_whole_is_named_by_no_list(files: Seq<(String, i64)>, list: Seq<Seq<char>>)
    requires
        list.len() == 0,
    ensures
        named_total(list, files) == whole_total(files),
        named_count(list, files) == files.len(),
    decreases files.len(),
{
    if files.len() > 0 {
        the_whole_is_named_by_no_list(files.drop_last(), list);
    }
}

proof fn one_more_file(list: Seq<Seq<char>>, files: Seq<(String, i64)>, more: (String, i64))
    ensures
        named_total(list, files.push(more)) - named_total(list, files) == (if named_by(
            list,
            more.0@,
        ) {
            more.1 as int
        } else {
            0
        }),
        named_count(list, files.push(more)) - named_count(list, files) == (if named_by(
            list,
            more.0@,
        ) {
            1int
        } else {
            0
        }),
{
    assert(files.push(more).drop_last() =~= files);
}

/// A share's totals count each file the share names, with its size, and no other: one file more adds
/// itself where it is named and nothing where it is not, no file is none, and a list that names no
/// files counts them all.
pub proof fn totals_count_what_is_named(
    includes: &[String],
    files: Vec<(String, i64)>,
    longer: Vec<(String, i64)>,
    path: &str,
    is_named: bool,
    a: (usize, i64),
    b: (usize, i64),
)
    requires
        call_ensures(included_totals, (includes, &files), a),
        call_ensures(included_totals, (includes, &longer), b),
        call_ensures(included, (includes, path), is_named),
        longer@.len() == files@.len() + 1,
        longer@.take(files@.len() as int) == files@,
        longer@.last().0@ == path@,
    ensures
        is_named ==> b.0 == a.0 + 1 && b.1 == a.1 + longer@.last().1,
        !is_named ==> b == a,
        files@.len() == 0 ==> a.0 == 0 && a.1 == 0,
        includes@.len() == 0 ==> a.0 == files@.len() && a.1 == whole_total(files@),
{
    let list = views(includes@);
    assert(longer@ =~= files@.push(longer@.last()));
    one_more_file(list, files@, longer@.last());
    if includes@.len() == 0 {
        the_whole_is_named_by_no_list(files@, list);
    }
}

/// A new save is labelled as asked, or `default`; the game gets a row only where the server has
/// none, under the name the client gave, and a client that gave none is told the game is not known.
pub proof fn a_new_save_is_as_asked(
    body: CreateSave,
    game_known: bool,
    r: Result<(Option<GameStub>, NewSave), Refusal>,
)
    requires
        call_ensures(create, (body, game_known), r),
    ensures
        game_known ==> r is Ok,
        !game_known && (body.display_name is None || body.display_name->0@.len() == 0) ==> r
            == Err::<(Option<GameStub>, NewSave), Refusal>(Refusal::GameNotFound),
        !game_known && body.display_name is Some && body.display_name->0@.len() > 0 ==> r is Ok,
        r matches Ok((stub, save)) ==> {
            &&& save.game_slug@ == body.game_slug@
            &&& save.local_path_hint == body.local_path_hint
            &&& save.client_os == body.client_os
            &&& body.label is Some ==> save.label@ == body.label->0@
            &&& body.label is None ==> save.label@ == "default"@
            &&& game_known ==> stub is None
            &&& !game_known ==> stub is Some && stub->0.slug@ == body.game_slug@
                && stub->0.display_name@ == body.display_name->0@ && stub->0.steam_app_id
                == body.steam_app_id
        },
{
}

/// A listing without a game is of every save; one with a game, of that game's.
pub proof fn a_listing_is_of_its_game(query: ListQuery, slug: &str, r: bool)
    requires
        call_ensures(listed, (&query, slug), r),
    ensures
        query.game_slug is None ==> r,
        query.game_slug is Some ==> (r <==> query.game_slug->0@ == slug@),
{
}

/// A write that came back without an error is done. One whose error names a key that is taken is
/// told so: a save that exists, a label that is taken; any other error is the server's own.
pub proof fn a_write_is_answered(
    error: Option<&str>,
    new: Written,
    renamed: Written,
    answer: Result<(), Refusal>,
    stub: Result<(), Refusal>,
    done: bool,
)
    requires
        call_ensures(inserted, (error,), new),
        call_ensures(relabelled, (error,), renamed),
        call_ensures(created, (new,), answer),
        call_ensures(stubbed, (done,), stub),
    ensures
        error is None ==> new == Written::Done && renamed == Written::Done && answer is Ok,
        error is Some ==> answer is Err && renamed != Written::Done,
        error is Some && mentions(error->0@, "UNIQUE constraint"@) ==> answer == Err::<
            (),
            Refusal,
        >(Refusal::SaveExists),
        error is Some && !mentions(error->0@, "UNIQUE constraint"@) ==> answer == Err::<
            (),
            Refusal,
        >(Refusal::Internal),
        error is Some ==> (renamed == Written::Unique <==> mentions(error->0@, "UNIQUE"@)),
        stub is Ok <==> done,
        stub is Err ==> stub->Err_0 == Refusal::GameNotFound,
{
}

/// A save's directory tells its user, game and label apart: two saves in one directory are one.
pub proof fn a_directory_is_one_saves(
    user: &str,
    game: &str,
    label: &str,
    other_user: &str,
    other_game: &str,
    other_label: &str,
    a: Vec<String>,
    b: Vec<String>,
)
    requires
        call_ensures(save_dir, (user, game, label), a),
        call_ensures(save_dir, (other_user, other_game, other_label), b),
    ensures
        a@.len() == 4,
        a@[0]@ == "data"@,
        a@[1]@ == user@,
        a@[2]@ == game@,
        a@[3]@ == label@,
        views(a@) == views(b@) ==> user@ == other_user@ && game@ == other_game@ && label@
            == other_label@,
{
    assert(views(a@).len() == 4);
    assert(views(a@)[0] == a@[0]@ && views(a@)[1] == a@[1]@);
    assert(views(a@)[2] == a@[2]@ && views(a@)[3] == a@[3]@);
    assert(views(b@).len() == 4);
    assert(views(b@)[1] == b@[1]@ && views(b@)[2] == b@[2]@ && views(b@)[3] == b@[3]@);
}

/// Only the owner changes or deletes a save. A rename is to the label asked for, without the space
/// around it, and there is none where that is empty or the label the save has; the rest of the
/// request goes through as it came.
pub proof fn a_patch_is_the_owners(
    current: Option<&str>,
    body: PatchSave,
    r: Result<Patch, Refusal>,
    owned: bool,
    gone: Result<(), Refusal>,
)
    requires
        call_ensures(patch, (current, body), r),
        call_ensures(may_delete, (owned,), gone),
    ensures
        current is None ==> r == Err::<Patch, Refusal>(Refusal::NotYours),
        current is Some ==> r is Ok,
        r matches Ok(p) ==> {
            &&& p.local_path_hint == body.local_path_hint
            &&& p.client_os == body.client_os
            &&& body.label is None ==> p.rename is None
            &&& body.label is Some ==> {
                let asked = trimmed(body.label->0@);
                &&& p.rename is Some <==> asked.len() > 0 && asked != current->0@
                &&& p.rename is Some ==> p.rename->0.label@ == asked && p.rename->0.step
                    == RenameStep::Updating
            }
        },
        gone is Ok <==> owned,
        gone is Err ==> gone->Err_0 == Refusal::NotYours,
{
}

/// A save is deleted only when it is not shared; while it is, the share is taken back, at most three
/// rounds in all.
pub proof fn a_shared_save_is_not_deleted(round: u8, shared: i64, r: DeleteStep)
    requires
        call_ensures(delete, (round, shared), r),
    ensures
        shared <= 0 <==> r == DeleteStep::Delete,
        shared > 0 && round < 2 ==> r == DeleteStep::TakeBackAgain,
        shared > 0 && round >= 2 ==> r == DeleteStep::Refuse,
{
}

/// The way of a rename: the row, then a look, then the directory where there is one, then the
/// commit. A taken label or directory and any failure end it with the refusal that says so, and what
/// was done before is undone; it is done only by a commit.
pub proof fn a_rename_goes_its_way(rename: &mut Rename, event: RenameEvent, r: Option<RenameAction>)
    requires
        call_ensures(Rename::next, (rename, event), r),
    ensures
        final(rename).label == old(rename).label,
        old(rename).step == RenameStep::Over ==> r is None,
        r is None ==> final(rename).step == old(rename).step,
        r is Some && r->0 is Done <==> (old(rename).step is Committing && event
            == RenameEvent::Committed(true)),
        old(rename).step == RenameStep::Updating && event == RenameEvent::Updated(Written::Done)
            ==> r is Some && r->0 is Look && final(rename).step == RenameStep::Looking,
        old(rename).step == RenameStep::Updating && event == RenameEvent::Updated(Written::Unique)
            ==> r == Some(RenameAction::Refuse(Refusal::LabelTaken)) && final(rename).step
            == RenameStep::Over,
        old(rename).step == RenameStep::Updating && event == RenameEvent::Updated(Written::Failed)
            ==> r == Some(RenameAction::Refuse(Refusal::Internal)) && final(rename).step
            == RenameStep::Over,
        old(rename).step == RenameStep::Looking ==> {
            &&& event matches RenameEvent::Looked { old_exists, new_exists } ==> {
                &&& !old_exists ==> r is Some && r->0 is Commit && final(rename).step == (
                RenameStep::Committing { moved: false })
                &&& old_exists && new_exists ==> r == Some(
                    RenameAction::RollBack(Refusal::DirectoryTaken),
                ) && final(rename).step == RenameStep::Over
                &&& old_exists && !new_exists ==> r is Some && r->0 is MoveDir
                    && final(rename).step == RenameStep::Moving
            }
        },
        old(rename).step == RenameStep::Moving && event == RenameEvent::Moved(true) ==> r is Some
            && r->0 is Commit && final(rename).step == (RenameStep::Committing { moved: true }),
        old(rename).step == RenameStep::Moving && event == RenameEvent::Moved(false) ==> r == Some(
            RenameAction::RollBack(Refusal::Internal),
        ) && final(rename).step == RenameStep::Over,
        old(rename).step is Committing && event == RenameEvent::Committed(false)
            ==> final(rename).step == RenameStep::Over && r == Some(
            if old(rename).step->moved {
                RenameAction::MoveBack(Refusal::Internal)
            } else {
                RenameAction::Refuse(Refusal::Internal)
            },
        ),
{
}

} // verus!
