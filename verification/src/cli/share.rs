//! `hoard share` and `hoard unshare`: move a save into a group's namespace and back. The service
//! does the sharing; the command resolves the group and says what came back.

use vstd::prelude::*;

use crate::agent::api::IpcError;
use crate::cli::group::{as_id, resolve_in};
#[allow(unused_imports)]
use crate::cli::group::{resolves, Lookup};
use crate::cli::output::{Cause, Failure};
#[allow(unused_imports)]
use crate::cli::world::is_coded;
#[allow(unused_imports)]
use crate::ids::is_uuid;
use crate::text::{join, same};
#[allow(unused_imports)]
use crate::text::{joined, views};
use crate::wire::{Group, Save};

verus! {

/// A share as agents and scripts see it.
#[derive(Debug)]
pub struct ShareOut {
    pub save_id: String,
    pub game_slug: String,
    pub label: String,
    pub group_id: String,
    pub group_name: String,
    pub owner: String,
    /// The world's files, as patterns below the save's folder. Empty when the whole folder is
    /// shared.
    pub includes: Vec<String>,
}

/// What the service is asked.
#[derive(Debug)]
pub enum Request {
    ListGroups,
    ShareSave { save_id: String, group_id: String, world: Option<String> },
}

/// A share on its way.
#[derive(Debug)]
pub enum Stage {
    /// The group was given by name.
    Lookup { save_id: String, query: String, world: Option<String> },
    Sharing { save_id: String },
}

/// What the service answered.
#[derive(Debug)]
pub enum Answer {
    Groups(Vec<Group>),
    Save(Save),
    Failed(Failure),
    /// An answer to something else.
    Unfit,
}

/// What comes next.
#[derive(Debug)]
pub enum Step {
    /// Ask the service this, and hand its answer back.
    Ask(Stage, Request),
    Show(ShareOut),
    Fail(Failure),
}

/// Is this the step that shares the save into the group with this id?
pub open spec fn shares(
    step: Step,
    save_id: String,
    id: Seq<char>,
    world: Option<String>,
) -> bool {
    &&& step is Ask
    &&& step->Ask_0 == Stage::Sharing { save_id }
    &&& step->Ask_1 is ShareSave
    &&& step->Ask_1->save_id == save_id
    &&& step->Ask_1->group_id@ == id
    &&& step->Ask_1->world == world
}

fn ask_share(save_id: String, group_id: String, world: Option<String>) -> (r: Step)
    ensures
        shares(r, save_id, group_id@, world),
{
    let id = save_id.clone();
    Step::Ask(Stage::Sharing { save_id }, Request::ShareSave { save_id: id, group_id, world })
}

/// The first step of sharing a save into a group, given by id or exact name.
pub fn share(save_id: String, group: String, world: Option<String>) -> (r: Step)
    ensures
        if is_uuid(group@) {
            shares(r, save_id, group@, world)
        } else {
            r == Step::Ask(Stage::Lookup { save_id, query: group, world }, Request::ListGroups)
        },
{
    match as_id(group.as_str()) {
        Some(id) => ask_share(save_id, id, world),
        None => Step::Ask(Stage::Lookup { save_id, query: group, world }, Request::ListGroups),
    }
}

/// Is the failure the service's question for a world?
pub open spec fn wants_world(f: Failure) -> bool {
    f.cause is Ipc && f.cause->Ipc_0 is Refused && f.cause->Ipc_0->Refused_code@ == "needs_input"@
}

/// The service names the worlds when a game that shares by world is shared without one; the flag
/// that picks one is the command's to name.
pub fn name_the_flag(f: Failure) -> (r: Failure)
    ensures
        r.cause == f.cause,
        if wants_world(f) {
            &&& r.contexts@.len() == f.contexts@.len() + 1
            &&& r.contexts@.drop_last() == f.contexts@
            &&& r.contexts@.last()@ == "pass `--world <name>`"@
        } else {
            r == f
        },
{
    let named = match &f.cause {
        Cause::Ipc(IpcError::Refused { code, message: _ }) => same(code.as_str(), "needs_input"),
        _ => false,
    };
    if named {
        f.context("pass `--world <name>`")
    } else {
        f
    }
}

/// Is this a failure with only this line?
pub open spec fn is_plain(f: Failure, line: Seq<char>) -> bool {
    f.cause is Other && f.cause->Other_0@ == line && f.contexts@.len() == 0
}

/// Is this the share of the save, as the service's row has it?
pub open spec fn is_share(out: ShareOut, save: Save) -> bool {
    &&& save.shared is Some
    &&& out.save_id == save.id
    &&& out.game_slug == save.game_slug
    &&& out.label == save.label
    &&& out.group_id == save.shared->0.group_id
    &&& out.group_name == save.shared->0.group_name
    &&& out.owner == save.shared->0.owner_username
    &&& out.includes == save.shared->0.includes
}

/// Is this the step that the service's answer to a share leads to?
pub open spec fn shared_as(
    step: Step,
    save_id: Seq<char>,
    answer: Answer,
    printed: Seq<char>,
) -> bool {
    match answer {
        Answer::Failed(f) => step is Fail && step->Fail_0.cause == f.cause && if wants_world(f) {
            step->Fail_0.contexts@.len() == f.contexts@.len() + 1
                && step->Fail_0.contexts@.drop_last() == f.contexts@
                && step->Fail_0.contexts@.last()@ == "pass `--world <name>`"@
        } else {
            step->Fail_0 == f
        },
        Answer::Save(save) => if save.shared is Some {
            step is Show && is_share(step->Show_0, save)
        } else {
            step is Fail && is_plain(
                step->Fail_0,
                "the service shared "@ + save_id + " but the row came back unshared"@,
            )
        },
        _ => step is Fail && is_plain(
            step->Fail_0,
            "unexpected answer to "@ + "a share request"@ + ": "@ + printed,
        ),
    }
}

/// Is this the step that a lookup of the group leads to?
pub open spec fn looked_up(
    step: Step,
    save_id: String,
    query: Seq<char>,
    world: Option<String>,
    answer: Answer,
    printed: Seq<char>,
) -> bool {
    match answer {
        Answer::Groups(groups) => exists|found: Result<String, Lookup>| #[trigger]
            resolves(groups@, query, found) && match found {
                Ok(id) => shares(step, save_id, id@, world),
                Err(why) => step is Fail && is_coded(step->Fail_0, why.code_of(), why.text()),
            },
        Answer::Failed(f) => step == Step::Fail(f),
        _ => step is Fail && is_plain(
            step->Fail_0,
            "unexpected answer to "@ + "a group list"@ + ": "@ + printed,
        ),
    }
}

fn unexpected(what: &str, printed: &str) -> (r: Step)
    ensures
        r is Fail,
        is_plain(r->Fail_0, "unexpected answer to "@ + what@ + ": "@ + printed@),
{
    let mut s = "unexpected answer to ".to_owned();
    s.append(what);
    s.append(": ");
    s.append(printed);
    plain(s.as_str())
}

fn plain(line: &str) -> (r: Step)
    ensures
        r is Fail,
        is_plain(r->Fail_0, line@),
{
    Step::Fail(Failure::of(Cause::Other(line.to_owned())))
}

/// The next step, for the service's answer to the request of a stage. `printed` is the answer as it
/// prints, for one that does not fit.
pub fn next(stage: Stage, answer: Answer, printed: &str) -> (r: Step)
    ensures
        match stage {
            Stage::Lookup { save_id, query, world } => looked_up(
                r,
                save_id,
                query@,
                world,
                answer,
                printed@,
            ),
            Stage::Sharing { save_id } => shared_as(r, save_id@, answer, printed@),
        },
{
    match stage {
        Stage::Lookup { save_id, query, world } => match answer {
            Answer::Groups(groups) => {
                let found = resolve_in(groups.as_slice(), query.as_str());
                let ghost f = found;
                assert(resolves(groups@, query@, f));
                match found {
                    Ok(id) => ask_share(save_id, id, world),
                    Err(why) => Step::Fail(why.refused()),
                }
            },
            Answer::Failed(f) => Step::Fail(f),
            _ => unexpected("a group list", printed),
        },
        Stage::Sharing { save_id } => match answer {
            Answer::Failed(f) => Step::Fail(name_the_flag(f)),
            Answer::Save(save) => match save.shared {
                Some(shared) => Step::Show(
                    ShareOut {
                        save_id: save.id,
                        game_slug: save.game_slug,
                        label: save.label,
                        group_id: shared.group_id,
                        group_name: shared.group_name,
                        owner: shared.owner_username,
                        includes: shared.includes,
                    },
                ),
                None => {
                    let mut line = "the service shared ".to_owned();
                    line.append(save_id.as_str());
                    line.append(" but the row came back unshared");
                    assert(line@ =~= "the service shared "@ + save_id@
                        + " but the row came back unshared"@);
                    plain(line.as_str())
                },
            },
            _ => unexpected("a share request", printed),
        },
    }
}

/// The lines that tell of a share.
pub open spec fn share_lines(o: ShareOut) -> Seq<Seq<char>> {
    seq![
        "shared "@ + o.game_slug@ + "/"@ + o.label@ + " into '"@ + o.group_name@ + "' (owner "@
            + o.owner@ + ")"@,
        if o.includes@.len() == 0 {
            "members pull the whole folder"@
        } else {
            "members pull: "@ + joined(views(o.includes@), ", "@)
        },
    ]
}

/// The lines that tell of a share.
pub fn lines(o: &ShareOut) -> (r: Vec<String>)
    ensures
        views(r@) == share_lines(*o),
{
    let mut first = "shared ".to_owned();
    first.append(o.game_slug.as_str());
    first.append("/");
    first.append(o.label.as_str());
    first.append(" into '");
    first.append(o.group_name.as_str());
    first.append("' (owner ");
    first.append(o.owner.as_str());
    first.append(")");
    let second = if o.includes.len() == 0 {
        "members pull the whole folder".to_owned()
    } else {
        let mut s = "members pull: ".to_owned();
        s.append(join(&o.includes, ", ").as_str());
        s
    };
    let mut r: Vec<String> = Vec::new();
    r.push(first);
    r.push(second);
    assert(r@[0]@ =~= share_lines(*o)[0]);
    assert(r@[1]@ =~= share_lines(*o)[1]);
    assert(views(r@) =~= share_lines(*o));
    r
}

/// The line that tells of a share taken back.
pub fn unshared_line(save_id: &str) -> (r: String)
    ensures
        r@ == "unshared "@ + save_id@ + ": back in your own namespace"@,
{
    let mut r = "unshared ".to_owned();
    r.append(save_id);
    r.append(": back in your own namespace");
    assert(r@ =~= "unshared "@ + save_id@ + ": back in your own namespace"@);
    r
}


// ---- laws

/// A share goes to the group that was given by its id, for the world that was asked for. A group
/// that was given by name is looked up first, and nothing is forgotten meanwhile.
pub proof fn a_share_asks(save_id: String, group: String, world: Option<String>, r: Step)
    requires
        call_ensures(share, (save_id, group, world), r),
    ensures
        r is Ask,
        is_uuid(group@) ==> {
            &&& r->Ask_0 is Sharing && r->Ask_0->Sharing_save_id == save_id
            &&& r->Ask_1 is ShareSave && r->Ask_1->save_id == save_id && r->Ask_1->group_id@
                == group@ && r->Ask_1->world == world
        },
        !is_uuid(group@) ==> {
            &&& r->Ask_1 is ListGroups
            &&& r->Ask_0 is Lookup && r->Ask_0->Lookup_save_id == save_id && r->Ask_0->query
                == group && r->Ask_0->Lookup_world == world
        },
{
}

/// A group that was looked up is shared into by its id. Without one group the share ends, with the
/// code and the words of the lookup.
pub proof fn a_looked_up_group_is_shared_into(
    save_id: String,
    query: String,
    world: Option<String>,
    groups: Vec<Group>,
    list: &[Group],
    text: &str,
    found: Result<String, Lookup>,
    printed: &str,
    r: Step,
)
    requires
        list@ == groups@,
        text@ == query@,
        call_ensures(resolve_in, (list, text), found),
        call_ensures(
            next,
            (Stage::Lookup { save_id, query, world }, Answer::Groups(groups), printed),
            r,
        ),
    ensures
        found is Ok ==> {
            &&& r is Ask && r->Ask_0 is Sharing && r->Ask_0->Sharing_save_id == save_id
            &&& r->Ask_1 is ShareSave && r->Ask_1->save_id == save_id && r->Ask_1->group_id@
                == found->Ok_0@ && r->Ask_1->world == world
        },
        found is Err ==> r is Fail && r->Fail_0.cause is Coded && r->Fail_0.contexts@.len() == 0,
        found is Err && found->Err_0 is NotFound ==> r->Fail_0.cause->Coded_0.code@
            == "not_found"@,
        found is Err && found->Err_0 is Ambiguous ==> r->Fail_0.cause->Coded_0.code@
            == "needs_choice"@,
{
}

/// What a share ends in: the row as it is shared now, field by field; a failure with its cause; and
/// a word on a row that is not shared after all.
pub proof fn a_share_ends(save_id: String, answer: Answer, printed: &str, r: Step)
    requires
        call_ensures(next, (Stage::Sharing { save_id }, answer, printed), r),
    ensures
        answer matches Answer::Save(save) ==> {
            &&& save.shared is Some ==> {
                &&& r is Show && r->Show_0.save_id == save.id && r->Show_0.game_slug
                    == save.game_slug && r->Show_0.label == save.label
                &&& r->Show_0.group_id == save.shared->0.group_id && r->Show_0.group_name
                    == save.shared->0.group_name && r->Show_0.owner
                    == save.shared->0.owner_username && r->Show_0.includes
                    == save.shared->0.includes
            }
            &&& save.shared is None ==> r is Fail && r->Fail_0.cause is Other
                && r->Fail_0.cause->Other_0@ == "the service shared "@ + save_id@
                + " but the row came back unshared"@
        },
        answer is Failed ==> r is Fail && r->Fail_0.cause == answer->Failed_0.cause,
        answer is Unfit || answer is Groups ==> r is Fail && r->Fail_0.cause is Other
            && r->Fail_0.cause->Other_0@ == "unexpected answer to a share request: "@ + printed@,
{
    reveal_strlit("unexpected answer to ");
    reveal_strlit("a share request");
    reveal_strlit(": ");
    reveal_strlit("unexpected answer to a share request: ");
    assert("unexpected answer to "@ + "a share request"@ + ": "@
        =~= "unexpected answer to a share request: "@);
    assert("unexpected answer to "@ + "a share request"@ + ": "@ + printed@ == ("unexpected answer to "@
        + "a share request"@ + ": "@) + printed@);
}

/// Only the service's question for a world gets the flag named with it; every other failure stays
/// what it was.
pub proof fn the_flag_is_named_for_a_world(f: Failure, r: Failure, was: String, now: String)
    requires
        call_ensures(name_the_flag, (f,), r),
        call_ensures(Failure::message, (&f,), was),
        call_ensures(Failure::message, (&r,), now),
    ensures
        f.cause matches Cause::Ipc(IpcError::Refused { code, message }) ==> code@ == "needs_input"@
            ==> now@ == "pass `--world <name>`"@ + ": "@ + was@,
        !(f.cause matches Cause::Ipc(IpcError::Refused { code, message }) && code@
            == "needs_input"@) ==> r == f,
        r.cause == f.cause,
{
}

/// The lines of a share: what went where, and what the members get of it.
pub proof fn a_share_is_told(o: ShareOut, r: Vec<String>, id: &str, back: String)
    requires
        call_ensures(lines, (&o,), r),
        call_ensures(unshared_line, (id,), back),
    ensures
        r@.len() == 2,
        r@[0]@ == "shared "@ + o.game_slug@ + "/"@ + o.label@ + " into '"@ + o.group_name@
            + "' (owner "@ + o.owner@ + ")"@,
        o.includes@.len() == 0 ==> r@[1]@ == "members pull the whole folder"@,
        o.includes@.len() > 0 ==> r@[1]@ == "members pull: "@ + joined(views(o.includes@), ", "@),
        back@ == "unshared "@ + id@ + ": back in your own namespace"@,
{
    assert(views(r@).len() == r@.len());
    assert(views(r@)[0] == r@[0]@);
    assert(views(r@)[1] == r@[1]@);
}

} // verus!
