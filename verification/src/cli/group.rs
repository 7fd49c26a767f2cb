//! `hoard group`: the groups this account shares saves with. Every verb is one request to the
//! service; the command only turns a name into an id and says what came back.

use vstd::prelude::*;

use crate::cli::output::{err, truncate, Cause, Failure};
#[allow(unused_imports)]
use crate::cli::output::cut;
#[allow(unused_imports)]
use crate::cli::world::is_coded;
use crate::clock::{spell, Moment};
#[allow(unused_imports)]
use crate::clock::spelled;
use crate::ids;
#[allow(unused_imports)]
use crate::ids::is_uuid;
use crate::text::{chars_of, decimal, join, pad, pad_left, parse_number, same, text_of, trim};
#[allow(unused_imports)]
use crate::text::{
    all_digits, digits, joined, number, padded, padded_left, trimmed, views,
};
use crate::wire::Group;

verus! {

#[derive(Debug)]
pub enum GroupCommand {
    /// Create a group you own. Members join with an invite token.
    Create { name: String },
    /// List the groups you belong to.
    List,
    /// Mint an invite token for a group you own. The token is shown once.
    Invite { group: String, expires: String },
    /// Join a group with an invite token.
    Join { token: String },
    /// Leave a group you are a member of. The owner cannot leave.
    Leave { group: String },
}

/// One group as agents and scripts see it.
#[derive(Debug)]
pub struct GroupRow {
    pub id: String,
    pub name: String,
    pub owner: String,
    pub members: usize,
}

#[derive(Debug)]
pub struct GroupsOut {
    pub groups: Vec<GroupRow>,
}

// ---- naming a group

/// Why a `<group>` argument did not name exactly one group.
#[derive(Debug, PartialEq, Eq)]
pub enum Lookup {
    NotFound(String),
    /// Several groups carry the name; their ids, for the user to pick one.
    Ambiguous { name: String, ids: Vec<String> },
}

impl Lookup {
    /// The stable code.
    pub open spec fn code_of(self) -> Seq<char> {
        match self {
            Lookup::NotFound(_) => "not_found"@,
            Lookup::Ambiguous { name, ids } => "needs_choice"@,
        }
    }

    /// What the user is told.
    pub open spec fn text(self) -> Seq<char> {
        match self {
            Lookup::NotFound(q) => "no group named or identified `"@ + q@
                + "`; see `hoard group list`"@,
            Lookup::Ambiguous { name, ids } => "`"@ + name@ + "` names "@ + digits(ids@.len())
                + " groups; pass the id instead: "@ + joined(views(ids@), ", "@),
        }
    }

    /// The stable code.
    pub fn code(&self) -> (r: &'static str)
        ensures
            r@ == self.code_of(),
    {
        match self {
            Lookup::NotFound(_) => "not_found",
            Lookup::Ambiguous { name: _, ids: _ } => "needs_choice",
        }
    }

    /// What the user is told.
    pub fn message(&self) -> (r: String)
        ensures
            r@ == self.text(),
    {
        let mut r = String::new();
        match self {
            Lookup::NotFound(q) => {
                r.append("no group named or identified `");
                r.append(q.as_str());
                r.append("`; see `hoard group list`");
            },
            Lookup::Ambiguous { name, ids } => {
                r.append("`");
                r.append(name.as_str());
                r.append("` names ");
                r.append(decimal(ids.len() as u64).as_str());
                r.append(" groups; pass the id instead: ");
                r.append(join(ids, ", ").as_str());
            },
        }
        assert(r@ =~= self.text());
        r
    }

    /// The refusal that it becomes.
    pub fn refused(&self) -> (r: Failure)
        ensures
            is_coded(r, self.code_of(), self.text()),
    {
        err(self.code(), self.message())
    }
}

/// `query` as a group id when it is a canonical UUID, the shape the server mints; `None` sends it
/// to the name lookup.
pub fn as_id(query: &str) -> (r: Option<String>)
    ensures
        r is Some == is_uuid(query@),
        r is Some ==> r->0@ == query@,
{
    ids::parse(query)
}

/// Has one of the groups this id?
pub open spec fn has_group(groups: Seq<Group>, id: Seq<char>) -> bool {
    exists|i: int| 0 <= i < groups.len() && (#[trigger] groups[i]).id@ == id
}

/// The ids of the groups with this name, in order.
pub open spec fn ids_named(groups: Seq<Group>, name: Seq<char>) -> Seq<Seq<char>>
    decreases groups.len(),
{
    if groups.len() == 0 {
        Seq::empty()
    } else if groups.last().name@ == name {
        ids_named(groups.drop_last(), name).push(groups.last().id@)
    } else {
        ids_named(groups.drop_last(), name)
    }
}

/// Is this what the query names among the groups?
pub open spec fn resolves(
    groups: Seq<Group>,
    query: Seq<char>,
    r: Result<String, Lookup>,
) -> bool {
    let ids = ids_named(groups, query);
    if has_group(groups, query) {
        r is Ok && r->Ok_0@ == query
    } else if ids.len() == 0 {
        r is Err && r->Err_0 is NotFound && r->Err_0->NotFound_0@ == query
    } else if ids.len() == 1 {
        r is Ok && r->Ok_0@ == ids[0]
    } else {
        r is Err && r->Err_0 is Ambiguous && r->Err_0->name@ == query && views(r->Err_0->ids@)
            == ids
    }
}

/// The group that `query` names. An id wins over a name: an id is unique by construction, a name
/// is not.
pub fn resolve_in(groups: &[Group], query: &str) -> (r: Result<String, Lookup>)
    ensures
        resolves(groups@, query@, r),
{
    let mut ids: Vec<String> = Vec::new();
    let mut i: usize = 0;
    assert(views(ids@) =~= Seq::<Seq<char>>::empty());
    assert(groups@.take(0) =~= Seq::<Group>::empty());
    while i < groups.len()
        invariant
            i <= groups@.len(),
            forall|k: int| 0 <= k < i ==> (#[trigger] groups@[k]).id@ != query@,
            views(ids@) == ids_named(groups@.take(i as int), query@),
        decreases groups.len() - i,
    {
        assert(groups@.take(i + 1).drop_last() =~= groups@.take(i as int));
        if same(groups[i].id.as_str(), query) {
            assert(groups@[i as int].id@ == query@);
            return Ok(groups[i].id.clone());
        }
        if same(groups[i].name.as_str(), query) {
            let ghost was = views(ids@);
            ids.push(groups[i].id.clone());
            assert(views(ids@) =~= was.push(groups@[i as int].id@));
        }
        i += 1;
    }
    assert(groups@.take(i as int) =~= groups@);
    assert(views(ids@).len() == ids@.len());
    if ids.len() == 0 {
        Err(Lookup::NotFound(query.to_owned()))
    } else if ids.len() == 1 {
        let id = ids[0].clone();
        assert(views(ids@)[0] == id@);
        Ok(id)
    } else {
        Err(Lookup::Ambiguous { name: query.to_owned(), ids })
    }
}

// ---- an invite's lifetime

/// The longest an invite lives: one year, in seconds.
pub const MAX_EXPIRY_SECS: u64 = 31_536_000;

/// An ASCII letter.
pub open spec fn is_letter(c: char) -> bool {
    ('a' <= c && c <= 'z') || ('A' <= c && c <= 'Z')
}

/// How long the text is without the letters that it ends with.
pub open spec fn before_letters(s: Seq<char>) -> nat
    decreases s.len(),
{
    if s.len() > 0 && is_letter(s.last()) {
        before_letters(s.drop_last())
    } else {
        s.len()
    }
}

/// The seconds of a unit.
pub open spec fn unit_secs(unit: Seq<char>) -> Option<nat> {
    if unit == "s"@ {
        Some(1)
    } else if unit == "m"@ {
        Some(60)
    } else if unit == "h"@ {
        Some(3600)
    } else if unit == "d"@ {
        Some(86_400)
    } else {
        None
    }
}

/// What a duration comes to.
pub ghost enum Expiry {
    Secs(nat),
    /// Not a number of digits and a unit.
    NotADuration,
    /// Nothing, or more than a machine can count.
    Unusable,
    /// More than a year.
    TooLong,
}

/// What a duration comes to: digits and a unit, at most one year.
pub open spec fn expiry_of(raw: Seq<char>) -> Expiry {
    let t = trimmed(raw);
    let n = before_letters(t) as int;
    let count = t.take(n);
    match unit_secs(t.skip(n)) {
        Some(per_unit) => if count.len() == 0 || !all_digits(count) || number(count) > u64::MAX {
            Expiry::NotADuration
        } else if number(count) * per_unit > u64::MAX || number(count) * per_unit == 0 {
            Expiry::Unusable
        } else if number(count) * per_unit > MAX_EXPIRY_SECS {
            Expiry::TooLong
        } else {
            Expiry::Secs(number(count) * per_unit)
        },
        None => Expiry::NotADuration,
    }
}

/// What is said of a duration that is refused.
pub open spec fn expiry_refusal(raw: Seq<char>) -> Seq<char> {
    let t = trimmed(raw);
    match expiry_of(raw) {
        Expiry::Unusable => "`"@ + t + "` is not a usable expiry"@,
        Expiry::TooLong => "an invite expires in at most one year, got `"@ + t + "`"@,
        _ => "expected a duration such as `7d`, `12h`, `30m` or `3600s`, got `"@ + t + "`"@,
    }
}

fn quoted(before: &str, raw: &str, after: &str) -> (r: String)
    ensures
        r@ == before@ + raw@ + after@,
{
    let mut r = String::new();
    r.append(before);
    r.append(raw);
    r.append(after);
    assert(r@ =~= before@ + raw@ + after@);
    r
}

/// `7d`, `12h`, `30m` or `3600s` as seconds, at most one year. A bare number is refused: it is not
/// obvious whether `7` means days or seconds, so the unit has to be said.
pub fn parse_expiry(raw: &str) -> (r: Result<u64, String>)
    ensures
        match expiry_of(raw@) {
            Expiry::Secs(n) => r is Ok && r->Ok_0 == n,
            _ => r is Err && r->Err_0@ == expiry_refusal(raw@),
        },
{
    let t = trim(raw);
    let c = chars_of(t.as_str());
    let mut n: usize = c.len();
    assert(c@.take(n as int) =~= c@);
    while n > 0 && (('a' <= c[n - 1] && c[n - 1] <= 'z') || ('A' <= c[n - 1] && c[n - 1] <= 'Z'))
        invariant
            n <= c.len(),
            before_letters(c@) == before_letters(c@.take(n as int)),
        decreases n,
    {
        assert(c@.take(n as int).drop_last() =~= c@.take(n - 1));
        n -= 1;
    }
    assert(before_letters(c@) == n);
    let count = text_of(&c, 0, n);
    let unit = text_of(&c, n, c.len());
    assert(count@ =~= t@.take(n as int));
    assert(unit@ =~= t@.skip(n as int));
    let per_unit: u64 = if same(unit.as_str(), "s") {
        1
    } else if same(unit.as_str(), "m") {
        60
    } else if same(unit.as_str(), "h") {
        3600
    } else if same(unit.as_str(), "d") {
        86_400
    } else {
        return Err(
            quoted(
                "expected a duration such as `7d`, `12h`, `30m` or `3600s`, got `",
                t.as_str(),
                "`",
            ),
        );
    };
    assert(unit_secs(unit@) == Some(per_unit as nat));
    let count: u64 = match parse_number(count.as_str()) {
        Some(n) => n,
        None => {
            return Err(
                quoted(
                    "expected a duration such as `7d`, `12h`, `30m` or `3600s`, got `",
                    t.as_str(),
                    "`",
                ),
            );
        },
    };
    let secs: u64 = match count.checked_mul(per_unit) {
        Some(s) => s,
        None => 0,
    };
    if secs == 0 {
        return Err(quoted("`", t.as_str(), "` is not a usable expiry"));
    }
    if secs > MAX_EXPIRY_SECS {
        return Err(quoted("an invite expires in at most one year, got `", t.as_str(), "`"));
    }
    Ok(secs)
}

// ---- what is shown of a group

/// The name that a group's members know its owner by, or the owner's id where they are not among
/// the members.
pub open spec fn owner_name(g: Group, upto: int) -> Seq<char>
    decreases upto,
{
    if upto <= 0 {
        g.owner_user_id@
    } else if g.members@[g.members@.len() - upto].user_id@ == g.owner_user_id@ {
        g.members@[g.members@.len() - upto].username@
    } else {
        owner_name(g, upto - 1)
    }
}

/// Is this the group's row?
pub open spec fn is_row(r: GroupRow, g: Group) -> bool {
    &&& r.id == g.id
    &&& r.name == g.name
    &&& r.owner@ == owner_name(g, g.members@.len() as int)
    &&& r.members == g.members@.len()
}

/// One group as it is shown.
pub fn row(g: &Group) -> (r: GroupRow)
    ensures
        is_row(r, *g),
{
    let mut i: usize = 0;
    let mut owner: Option<String> = None;
    while i < g.members.len() && owner.is_none()
        invariant
            i <= g.members@.len(),
            owner is None ==> owner_name(*g, g.members@.len() as int) == owner_name(
                *g,
                g.members@.len() - i,
            ),
            owner is Some ==> owner->0@ == owner_name(*g, g.members@.len() as int),
        decreases g.members.len() - i,
    {
        if same(g.members[i].user_id.as_str(), g.owner_user_id.as_str()) {
            owner = Some(g.members[i].username.clone());
        }
        i += 1;
    }
    let owner = match owner {
        Some(o) => o,
        None => g.owner_user_id.clone(),
    };
    GroupRow { id: g.id.clone(), name: g.name.clone(), owner, members: g.members.len() }
}

/// Are these the groups' rows, in order?
pub open spec fn are_rows(rows: Seq<GroupRow>, groups: Seq<Group>) -> bool {
    rows.len() == groups.len() && forall|i: int|
        0 <= i < rows.len() ==> is_row(#[trigger] rows[i], groups[i])
}

/// The groups as they are shown.
pub fn rows(groups: &Vec<Group>) -> (r: GroupsOut)
    ensures
        are_rows(r.groups@, groups@),
{
    let mut out: Vec<GroupRow> = Vec::new();
    let mut i: usize = 0;
    while i < groups.len()
        invariant
            i <= groups@.len(),
            out@.len() == i,
            forall|k: int| 0 <= k < i ==> is_row(#[trigger] out@[k], groups@[k]),
        decreases groups.len() - i,
    {
        out.push(row(&groups[i]));
        i += 1;
    }
    GroupsOut { groups: out }
}

/// A group's line in the table.
pub open spec fn table_line(g: GroupRow) -> Seq<char> {
    padded(cut(g.name@, 24), 24) + "  "@ + padded(cut(g.owner@, 16), 16) + "  "@ + padded_left(
        digits(g.members as nat),
        7,
    ) + "  "@ + g.id@
}

fn line(g: &GroupRow) -> (r: String)
    ensures
        r@ == table_line(*g),
{
    let mut r = pad(truncate(g.name.as_str(), 24).as_str(), 24);
    r.append("  ");
    r.append(pad(truncate(g.owner.as_str(), 16).as_str(), 16).as_str());
    r.append("  ");
    r.append(pad_left(decimal(g.members as u64).as_str(), 7).as_str());
    r.append("  ");
    r.append(g.id.as_str());
    assert(r@ =~= table_line(*g));
    r
}

/// The head of the table.
pub open spec fn table_head() -> Seq<char> {
    padded("NAME"@, 24) + "  "@ + padded("OWNER"@, 16) + "  "@ + padded_left("MEMBERS"@, 7)
        + "  "@ + "ID"@
}

/// Are these the lines of the table?
pub open spec fn is_table(lines: Seq<Seq<char>>, groups: Seq<GroupRow>) -> bool {
    if groups.len() == 0 {
        lines == seq![
            "you belong to no group."@,
            "Create one with `hoard group create <name>` or join one with `hoard group join <token>`."@,
        ]
    } else {
        &&& lines.len() == groups.len() + 1
        &&& lines[0] == table_head()
        &&& forall|i: int|
            0 <= i < groups.len() ==> #[trigger] lines[i + 1] == table_line(groups[i])
    }
}

/// The groups as a table.
pub fn table(out: &GroupsOut) -> (r: Vec<String>)
    ensures
        is_table(views(r@), out.groups@),
{
    let mut lines: Vec<String> = Vec::new();
    if out.groups.len() == 0 {
        lines.push("you belong to no group.".to_owned());
        lines.push(
            "Create one with `hoard group create <name>` or join one with `hoard group join <token>`.".to_owned(),
        );
        assert(views(lines@) =~= seq![
            "you belong to no group."@,
            "Create one with `hoard group create <name>` or join one with `hoard group join <token>`."@,
        ]);
        return lines;
    }
    let mut head = pad("NAME", 24);
    head.append("  ");
    head.append(pad("OWNER", 16).as_str());
    head.append("  ");
    head.append(pad_left("MEMBERS", 7).as_str());
    head.append("  ");
    head.append("ID");
    assert(head@ =~= table_head());
    lines.push(head);
    let mut i: usize = 0;
    while i < out.groups.len()
        invariant
            i <= out.groups@.len(),
            lines@.len() == i + 1,
            lines@[0]@ == table_head(),
            forall|k: int| 0 <= k < i ==> (#[trigger] lines@[k + 1])@ == table_line(out.groups@[k]),
        decreases out.groups.len() - i,
    {
        lines.push(line(&out.groups[i]));
        i += 1;
    }
    proof {
        let v = views(lines@);
        assert forall|k: int| 0 <= k < out.groups@.len() implies #[trigger] v[k + 1] == table_line(
            out.groups@[k],
        ) by {
            assert(lines@[k + 1]@ == table_line(out.groups@[k]));
        }
    }
    lines
}

// ---- the verbs

/// What the service is asked.
#[derive(Debug)]
pub enum Request {
    CreateGroup { name: String },
    ListGroups,
    InviteToGroup { group_id: String, expires_in_secs: Option<u64> },
    JoinGroup { token: String },
    LeaveGroup { group_id: String },
}

/// An invite that was minted.
#[derive(Debug)]
pub struct InviteOut {
    pub token: String,
    pub expires_at: Moment,
}

/// What the service answered.
#[derive(Debug)]
pub enum Answer {
    Done,
    Group(Group),
    Groups(Vec<Group>),
    Invite(InviteOut),
    Failed(Failure),
    /// An answer to something else.
    Unfit,
}

/// A verb on its way.
#[derive(Debug)]
pub enum Stage {
    Creating,
    Listing,
    /// The group to invite to was given by name.
    InviteLookup { query: String, expires: u64 },
    Inviting,
    Joining,
    /// The group to leave was given by name.
    LeaveLookup { query: String },
    Leaving { group_id: String },
}

/// What comes next.
#[derive(Debug)]
pub enum Step {
    /// Ask the service this, and hand its answer back.
    Ask(Stage, Request),
    Say(String),
    Show(GroupsOut),
    Fail(Failure),
}

/// The step that invites to a group with an id.
pub open spec fn invites(step: Step, id: Seq<char>, expires: u64) -> bool {
    step is Ask && step->Ask_0 == Stage::Inviting && step->Ask_1 is InviteToGroup
        && step->Ask_1->InviteToGroup_group_id@ == id && step->Ask_1->expires_in_secs == Some(
        expires,
    )
}

/// The step that leaves a group with an id.
pub open spec fn leaves(step: Step, id: Seq<char>) -> bool {
    step is Ask && step->Ask_0 is Leaving && step->Ask_0->group_id@ == id && step->Ask_1
        is LeaveGroup && step->Ask_1->LeaveGroup_group_id@ == id
}

/// Is this the command's first step?
pub open spec fn starts(step: Step, cmd: GroupCommand) -> bool {
    match cmd {
        GroupCommand::Create { name } => step == Step::Ask(
            Stage::Creating,
            Request::CreateGroup { name },
        ),
        GroupCommand::List => step == Step::Ask(Stage::Listing, Request::ListGroups),
        GroupCommand::Invite { group, expires } => match expiry_of(expires@) {
            Expiry::Secs(n) => if is_uuid(group@) {
                invites(step, group@, n as u64)
            } else {
                step == Step::Ask(
                    Stage::InviteLookup { query: group, expires: n as u64 },
                    Request::ListGroups,
                )
            },
            _ => step is Fail && is_coded(
                step->Fail_0,
                "bad_request"@,
                expiry_refusal(expires@),
            ),
        },
        GroupCommand::Join { token } => step == Step::Ask(
            Stage::Joining,
            Request::JoinGroup { token },
        ),
        GroupCommand::Leave { group } => if is_uuid(group@) {
            leaves(step, group@)
        } else {
            step == Step::Ask(Stage::LeaveLookup { query: group }, Request::ListGroups)
        },
    }
}

fn invite(group_id: String, expires: u64) -> (r: Step)
    ensures
        invites(r, group_id@, expires),
{
    Step::Ask(Stage::Inviting, Request::InviteToGroup { group_id, expires_in_secs: Some(expires) })
}

fn leave(group_id: String) -> (r: Step)
    ensures
        leaves(r, group_id@),
{
    let id = group_id.clone();
    Step::Ask(Stage::Leaving { group_id }, Request::LeaveGroup { group_id: id })
}

/// The command's first step. An id goes straight through without listing the groups: the server
/// refuses one that this account cannot reach.
pub fn start(cmd: GroupCommand) -> (r: Step)
    ensures
        starts(r, cmd),
{
    match cmd {
        GroupCommand::Create { name } => Step::Ask(Stage::Creating, Request::CreateGroup { name }),
        GroupCommand::List => Step::Ask(Stage::Listing, Request::ListGroups),
        GroupCommand::Invite { group, expires } => match parse_expiry(expires.as_str()) {
            Err(m) => Step::Fail(err("bad_request", m)),
            Ok(secs) => match as_id(group.as_str()) {
                Some(id) => invite(id, secs),
                None => Step::Ask(
                    Stage::InviteLookup { query: group, expires: secs },
                    Request::ListGroups,
                ),
            },
        },
        GroupCommand::Join { token } => Step::Ask(Stage::Joining, Request::JoinGroup { token }),
        GroupCommand::Leave { group } => match as_id(group.as_str()) {
            Some(id) => leave(id),
            None => Step::Ask(Stage::LeaveLookup { query: group }, Request::ListGroups),
        },
    }
}

/// What is said of a group that was made or joined.
pub open spec fn said_of(verb: Seq<char>, g: Group) -> Seq<char> {
    verb + " group '"@ + g.name@ + "' ("@ + g.id@ + ")"@
}

fn say_of(verb: &str, g: &Group) -> (r: Step)
    ensures
        r is Say,
        r->Say_0@ == said_of(verb@, *g),
{
    let mut s = verb.to_owned();
    s.append(" group '");
    s.append(g.name.as_str());
    s.append("' (");
    s.append(g.id.as_str());
    s.append(")");
    assert(s@ =~= said_of(verb@, *g));
    Step::Say(s)
}

/// What is said of an invite.
pub open spec fn said_of_invite(i: InviteOut) -> Seq<char> {
    "invite token (shown once, valid until "@ + spelled(i.expires_at) + "):\n\n  "@
        + i.token@ + "\n\nWhoever should join runs `hoard group join "@ + i.token@ + "`."@
}

fn say_of_invite(i: &InviteOut) -> (r: Step)
    ensures
        r is Say,
        r->Say_0@ == said_of_invite(*i),
{
    let mut s = "invite token (shown once, valid until ".to_owned();
    s.append(spell(i.expires_at).as_str());
    s.append("):\n\n  ");
    s.append(i.token.as_str());
    s.append("\n\nWhoever should join runs `hoard group join ");
    s.append(i.token.as_str());
    s.append("`.");
    assert(s@ =~= said_of_invite(*i));
    Step::Say(s)
}

/// Is this the step of an answer that does not fit the request? The answer is told as it prints.
pub open spec fn is_unexpected(step: Step, what: Seq<char>, printed: Seq<char>) -> bool {
    step is Fail && step->Fail_0.cause is Other && step->Fail_0.cause->Other_0@
        == "unexpected answer to "@ + what + ": "@ + printed
        && step->Fail_0.contexts@.len() == 0
}

fn unexpected(what: &str, printed: &str) -> (r: Step)
    ensures
        is_unexpected(r, what@, printed@),
{
    let mut s = "unexpected answer to ".to_owned();
    s.append(what);
    s.append(": ");
    s.append(printed);
    Step::Fail(Failure::of(Cause::Other(s)))
}

/// Is this the step that a lookup leads to?
pub open spec fn looked_up(
    step: Step,
    groups: Seq<Group>,
    query: Seq<char>,
    expires: Option<u64>,
) -> bool {
    exists|found: Result<String, Lookup>| #[trigger]
        resolves(groups, query, found) && match found {
            Ok(id) => match expires {
                Some(secs) => invites(step, id@, secs),
                None => leaves(step, id@),
            },
            Err(why) => step is Fail && is_coded(step->Fail_0, why.code_of(), why.text()),
        }
}

fn look_up(groups: &Vec<Group>, query: &str, expires: Option<u64>) -> (r: Step)
    ensures
        looked_up(r, groups@, query@, expires),
{
    let found = resolve_in(groups.as_slice(), query);
    let ghost f = found;
    assert(resolves(groups@, query@, f));
    match found {
        Ok(id) => match expires {
            Some(secs) => invite(id, secs),
            None => leave(id),
        },
        Err(why) => Step::Fail(why.refused()),
    }
}

/// Is this the step that the answer leads to?
pub open spec fn acted(step: Step, stage: Stage, answer: Answer, printed: Seq<char>) -> bool {
    if answer is Failed {
        step == Step::Fail(answer->Failed_0)
    } else {
        match stage {
            Stage::Creating => match answer {
                Answer::Group(g) => step is Say && step->Say_0@ == said_of("created"@, g),
                _ => is_unexpected(step, "a group request"@, printed),
            },
            Stage::Listing => match answer {
                Answer::Groups(groups) => step is Show && are_rows(
                    step->Show_0.groups@,
                    groups@,
                ),
                _ => is_unexpected(step, "a group list"@, printed),
            },
            Stage::InviteLookup { query, expires } => match answer {
                Answer::Groups(groups) => looked_up(step, groups@, query@, Some(expires)),
                _ => is_unexpected(step, "a group list"@, printed),
            },
            Stage::Inviting => match answer {
                Answer::Invite(i) => step is Say && step->Say_0@ == said_of_invite(i),
                _ => is_unexpected(step, "an invite request"@, printed),
            },
            Stage::Joining => match answer {
                Answer::Group(g) => step is Say && step->Say_0@ == said_of("joined"@, g),
                _ => is_unexpected(step, "a group request"@, printed),
            },
            Stage::LeaveLookup { query } => match answer {
                Answer::Groups(groups) => looked_up(step, groups@, query@, None),
                _ => is_unexpected(step, "a group list"@, printed),
            },
            Stage::Leaving { group_id } => step is Say && step->Say_0@ == "left group "@
                + group_id@,
        }
    }
}

/// The next step, for the service's answer to the request of a stage. `printed` is the answer as it
/// prints, for one that does not fit.
pub fn next(stage: Stage, answer: Answer, printed: &str) -> (r: Step)
    ensures
        acted(r, stage, answer, printed@),
{
    if let Answer::Failed(f) = answer {
        return Step::Fail(f);
    }
    match stage {
        Stage::Creating => match &answer {
            Answer::Group(g) => say_of("created", g),
            _ => unexpected("a group request", printed),
        },
        Stage::Listing => match &answer {
            Answer::Groups(groups) => Step::Show(rows(groups)),
            _ => unexpected("a group list", printed),
        },
        Stage::InviteLookup { query, expires } => match &answer {
            Answer::Groups(groups) => look_up(groups, query.as_str(), Some(expires)),
            _ => unexpected("a group list", printed),
        },
        Stage::Inviting => match &answer {
            Answer::Invite(i) => say_of_invite(i),
            _ => unexpected("an invite request", printed),
        },
        Stage::Joining => match &answer {
            Answer::Group(g) => say_of("joined", g),
            _ => unexpected("a group request", printed),
        },
        Stage::LeaveLookup { query } => match &answer {
            Answer::Groups(groups) => look_up(groups, query.as_str(), None),
            _ => unexpected("a group list", printed),
        },
        Stage::Leaving { group_id } => {
            let mut s = "left group ".to_owned();
            s.append(group_id.as_str());
            Step::Say(s)
        },
    }
}

// ---- laws

/// A name that happens to equal another group's id does not shadow that group.
pub proof fn an_id_wins_over_a_name(groups: Seq<Group>, i: int, r: Result<String, Lookup>)
    requires
        0 <= i < groups.len(),
        resolves(groups, groups[i].id@, r),
    ensures
        r is Ok,
        r->Ok_0@ == groups[i].id@,
{
}

/// Whatever is resolved is the id of one of the groups.
pub proof fn only_a_group_is_resolved(groups: Seq<Group>, query: Seq<char>, r: Result<String, Lookup>)
    requires
        resolves(groups, query, r),
        r is Ok,
    ensures
        has_group(groups, r->Ok_0@),
{
    if !has_group(groups, query) {
        named_ids_are_ids(groups, query, 0);
    }
}

proof fn named_ids_are_ids(groups: Seq<Group>, name: Seq<char>, k: int)
    requires
        0 <= k < ids_named(groups, name).len(),
    ensures
        has_group(groups, ids_named(groups, name)[k]),
    decreases groups.len(),
{
    if groups.len() > 0 {
        let rest = groups.drop_last();
        if k < ids_named(rest, name).len() {
            named_ids_are_ids(rest, name, k);
            let id = ids_named(rest, name)[k];
            let i = choose|i: int| 0 <= i < rest.len() && (#[trigger] rest[i]).id@ == id;
            assert(groups[i].id@ == id);
        } else {
            assert(groups[groups.len() - 1].id@ == ids_named(groups, name)[k]);
        }
    }
}

/// An expiry that is taken is of some use: more than nothing, and at most a year.
pub proof fn a_taken_expiry_is_within_a_year(raw: Seq<char>)
    requires
        expiry_of(raw) is Secs,
    ensures
        0 < expiry_of(raw)->Secs_0 <= MAX_EXPIRY_SECS,
{
}

/// What each command asks of the service first: `create` a group of the name it was given, `list`
/// the groups, `join` with the token it was given. `invite` and `leave` ask at once for a group that
/// was given by its id, and list the groups for one that was given by name. An invite whose expiry
/// is no duration asks nothing.
pub proof fn each_command_asks_its_own(cmd: GroupCommand, step: Step)
    requires
        call_ensures(start, (cmd,), step),
    ensures
        cmd matches GroupCommand::Create { name } ==> step == Step::Ask(
            Stage::Creating,
            Request::CreateGroup { name },
        ),
        cmd is List ==> step == Step::Ask(Stage::Listing, Request::ListGroups),
        cmd matches GroupCommand::Join { token } ==> step == Step::Ask(
            Stage::Joining,
            Request::JoinGroup { token },
        ),
        cmd matches GroupCommand::Leave { group } ==> {
            &&& is_uuid(group@) ==> step is Ask && step->Ask_0 is Leaving
                && step->Ask_0->group_id@ == group@ && step->Ask_1 is LeaveGroup
                && step->Ask_1->LeaveGroup_group_id@ == group@
            &&& !is_uuid(group@) ==> step == Step::Ask(
                Stage::LeaveLookup { query: group },
                Request::ListGroups,
            )
        },
        cmd matches GroupCommand::Invite { group, expires } ==> {
            &&& step is Fail || step is Ask
            &&& step is Ask && is_uuid(group@) ==> step->Ask_0 is Inviting
                && step->Ask_1 is InviteToGroup && step->Ask_1->InviteToGroup_group_id@ == group@
                && step->Ask_1->expires_in_secs is Some
            &&& step is Ask && !is_uuid(group@) ==> step->Ask_0 is InviteLookup
                && step->Ask_0->InviteLookup_query == group && step->Ask_1 is ListGroups
        },
{
}

/// An invite asks for the seconds that its expiry says, by id or by name, and is refused where the
/// expiry is no duration.
pub proof fn an_invite_asks_for_its_seconds(
    group: String,
    expires: String,
    raw: &str,
    secs: Result<u64, String>,
    step: Step,
)
    requires
        raw@ == expires@,
        call_ensures(parse_expiry, (raw,), secs),
        call_ensures(start, (GroupCommand::Invite { group, expires },), step),
    ensures
        secs is Ok && is_uuid(group@) ==> step is Ask && step->Ask_1->expires_in_secs == Some(
            secs->Ok_0,
        ),
        secs is Ok && !is_uuid(group@) ==> step is Ask && step->Ask_0->expires == secs->Ok_0,
        secs is Err ==> step is Fail && step->Fail_0.cause is Coded
            && step->Fail_0.cause->Coded_0.code@ == "bad_request"@
            && step->Fail_0.cause->Coded_0.message@ == secs->Err_0@,
{
}

proof fn letters_come_off(s: Seq<char>, n: int)
    requires
        0 <= n <= s.len(),
        n > 0 ==> !is_letter(s[n - 1]),
        forall|i: int| n <= i < s.len() ==> is_letter(#[trigger] s[i]),
    ensures
        before_letters(s) == n,
    decreases s.len(),
{
    if s.len() > n {
        let t = s.drop_last();
        assert(is_letter(s[s.len() - 1]));
        assert forall|i: int| n <= i < t.len() implies is_letter(#[trigger] t[i]) by {
            assert(t[i] == s[i]);
        }
        if n > 0 {
            assert(t[n - 1] == s[n - 1]);
        }
        letters_come_off(t, n);
    }
}

/// A duration in one unit: so many seconds, minutes, hours or days, of some length and of a year at
/// most. Without a unit, in any other, with no digits or with anything else in front, it is none.
pub proof fn a_duration_in_one_unit(raw: &str, count: Seq<char>, unit: char, r: Result<u64, String>)
    requires
        call_ensures(parse_expiry, (raw,), r),
        trimmed(raw@) == count.push(unit),
        count.len() > 0,
        all_digits(count),
        number(count) <= u64::MAX,
        ('a' <= unit && unit <= 'z') || ('A' <= unit && unit <= 'Z'),
    ensures
        ({
            let secs = if unit == 's' {
                number(count) as int
            } else if unit == 'm' {
                (number(count) * 60) as int
            } else if unit == 'h' {
                (number(count) * 3600) as int
            } else {
                (number(count) * 86_400) as int
            };
            let known = unit == 's' || unit == 'm' || unit == 'h' || unit == 'd';
            &&& r is Ok <==> known && 0 < secs <= 31_536_000
            &&& r is Ok ==> r->Ok_0 == secs
            &&& !known ==> r->Err_0@
                == "expected a duration such as `7d`, `12h`, `30m` or `3600s`, got `"@ + trimmed(
                raw@,
            ) + "`"@
            &&& known && 31_536_000 < secs <= u64::MAX ==> r->Err_0@
                == "an invite expires in at most one year, got `"@ + trimmed(raw@) + "`"@
            &&& known && secs == 0 ==> r->Err_0@ == "`"@ + trimmed(raw@)
                + "` is not a usable expiry"@
        }),
{
    let t = trimmed(raw@);
    let n = count.len() as int;
    assert(t[n - 1] == count[n - 1]);
    assert(crate::text::is_digit(count[n - 1]));
    letters_come_off(t, n);
    assert(t.take(n) =~= count);
    assert(t.skip(n) =~= seq![unit]);
    reveal_strlit("s");
    reveal_strlit("m");
    reveal_strlit("h");
    reveal_strlit("d");
    assert("s"@ =~= seq!['s'] && "m"@ =~= seq!['m'] && "h"@ =~= seq!['h'] && "d"@ =~= seq!['d']);
    assert(seq![unit][0] == unit);
    assert(seq!['s'][0] == 's' && seq!['m'][0] == 'm' && seq!['h'][0] == 'h' && seq!['d'][0] == 'd');
    match unit_secs(t.skip(n)) {
        Some(per) => {
            let c = number(count);
            assert(per == 1 ==> c * per == c) by (nonlinear_arith);
            assert(per == 60 ==> c * per == c * 60) by (nonlinear_arith);
            assert(per == 3600 ==> c * per == c * 3600) by (nonlinear_arith);
            assert(per == 86_400 ==> c * per == c * 86_400) by (nonlinear_arith);
        },
        None => {},
    }
}

/// What is said of the service's answers: a failure as it is; a group that was made or joined by its
/// name and id; an invite with its token and until when; a group that was left by its id.
pub proof fn answers_are_told(stage: Stage, answer: Answer, printed: &str, step: Step)
    requires
        call_ensures(next, (stage, answer, printed), step),
    ensures
        answer is Failed ==> step is Fail && step->Fail_0 == answer->Failed_0,
        stage is Creating ==> (answer matches Answer::Group(g) ==> step is Say && step->Say_0@
            == "created"@ + " group '"@ + g.name@ + "' ("@ + g.id@ + ")"@),
        stage is Joining ==> (answer matches Answer::Group(g) ==> step is Say && step->Say_0@
            == "joined"@ + " group '"@ + g.name@ + "' ("@ + g.id@ + ")"@),
        stage is Inviting ==> (answer matches Answer::Invite(i) ==> step is Say && step->Say_0@
            == "invite token (shown once, valid until "@ + spelled(i.expires_at) + "):\n\n  "@
            + i.token@ + "\n\nWhoever should join runs `hoard group join "@ + i.token@ + "`."@),
        stage is Leaving && answer !is Failed ==> step is Say && step->Say_0@ == "left group "@
            + stage->group_id@,
        stage is Listing ==> (answer matches Answer::Groups(g) ==> step is Show
            && step->Show_0.groups@.len() == g@.len()),
        (stage is Creating || stage is Joining) && answer !is Group && answer !is Failed
            ==> step is Fail && step->Fail_0.cause is Other && step->Fail_0.cause->Other_0@
            == "unexpected answer to "@ + "a group request"@ + ": "@ + printed@,
        (stage is Listing || stage is InviteLookup || stage is LeaveLookup) && answer !is Groups
            && answer !is Failed ==> step is Fail && step->Fail_0.cause is Other
            && step->Fail_0.cause->Other_0@ == "unexpected answer to "@ + "a group list"@ + ": "@
            + printed@,
        stage is Inviting && answer !is Invite && answer !is Failed ==> step is Fail
            && step->Fail_0.cause is Other && step->Fail_0.cause->Other_0@
            == "unexpected answer to "@ + "an invite request"@ + ": "@ + printed@,
{
}

proof fn one_group_of_the_name(groups: Seq<Group>, name: Seq<char>, i: int)
    requires
        0 <= i < groups.len(),
        groups[i].name@ == name,
        forall|k: int|
            0 <= k < groups.len() && k != i ==> (#[trigger] groups[k]).name@ != name,
    ensures
        ids_named(groups, name) == seq![groups[i].id@],
    decreases groups.len(),
{
    let rest = groups.drop_last();
    if i == groups.len() - 1 {
        no_group_of_the_name(rest, name);
        assert(ids_named(groups, name) =~= seq![groups[i].id@]);
    } else {
        assert(groups[groups.len() - 1].name@ != name);
        assert forall|k: int| 0 <= k < rest.len() && k != i implies (#[trigger] rest[k]).name@
            != name by {
            assert(rest[k] == groups[k]);
        }
        one_group_of_the_name(rest, name, i);
    }
}

proof fn no_group_of_the_name(groups: Seq<Group>, name: Seq<char>)
    requires
        forall|k: int| 0 <= k < groups.len() ==> (#[trigger] groups[k]).name@ != name,
    ensures
        ids_named(groups, name).len() == 0,
    decreases groups.len(),
{
    if groups.len() > 0 {
        let rest = groups.drop_last();
        assert(groups[groups.len() - 1].name@ != name);
        assert forall|k: int| 0 <= k < rest.len() implies (#[trigger] rest[k]).name@ != name by {
            assert(rest[k] == groups[k]);
        }
        no_group_of_the_name(rest, name);
    }
}

proof fn more_groups_of_the_name(groups: Seq<Group>, name: Seq<char>, i: int, j: int)
    requires
        0 <= i < j < groups.len(),
        groups[i].name@ == name,
        groups[j].name@ == name,
    ensures
        ids_named(groups, name).len() >= 2,
    decreases groups.len(),
{
    let rest = groups.drop_last();
    if j < groups.len() - 1 {
        more_groups_of_the_name(rest, name, i, j);
    } else {
        some_group_of_the_name(rest, name, i);
    }
}

proof fn some_group_of_the_name(groups: Seq<Group>, name: Seq<char>, i: int)
    requires
        0 <= i < groups.len(),
        groups[i].name@ == name,
    ensures
        ids_named(groups, name).len() >= 1,
    decreases groups.len(),
{
    if i < groups.len() - 1 {
        some_group_of_the_name(groups.drop_last(), name, i);
    }
}

/// A query names the group with that very id, and else the only group of that very name. It names
/// none where no group has it, and where several do it is theirs to choose from.
pub proof fn a_query_names_one_group(groups: &[Group], query: &str, r: Result<String, Lookup>, i: int, j: int)
    requires
        call_ensures(resolve_in, (groups, query), r),
    ensures
        0 <= i < groups@.len() && groups@[i].id@ == query@ ==> r is Ok && r->Ok_0@ == query@,
        (forall|k: int| 0 <= k < groups@.len() ==> (#[trigger] groups@[k]).id@ != query@) ==> {
            &&& (0 <= i < groups@.len() && groups@[i].name@ == query@ && forall|k: int|
                0 <= k < groups@.len() && k != i ==> (#[trigger] groups@[k]).name@ != query@)
                ==> r is Ok && r->Ok_0@ == groups@[i].id@
            &&& (forall|k: int| 0 <= k < groups@.len() ==> (#[trigger] groups@[k]).name@ != query@)
                ==> r is Err && r->Err_0 is NotFound && r->Err_0->NotFound_0@ == query@
            &&& (0 <= i < j < groups@.len() && groups@[i].name@ == query@ && groups@[j].name@
                == query@) ==> r is Err && r->Err_0 is Ambiguous && r->Err_0->name@ == query@
                && r->Err_0->ids@.len() >= 2
        },
{
    if forall|k: int| 0 <= k < groups@.len() ==> (#[trigger] groups@[k]).id@ != query@ {
        if 0 <= i < groups@.len() && groups@[i].name@ == query@ && (forall|k: int|
            0 <= k < groups@.len() && k != i ==> (#[trigger] groups@[k]).name@ != query@) {
            one_group_of_the_name(groups@, query@, i);
        }
        if forall|k: int| 0 <= k < groups@.len() ==> (#[trigger] groups@[k]).name@ != query@ {
            no_group_of_the_name(groups@, query@);
        }
        if 0 <= i < j < groups@.len() && groups@[i].name@ == query@ && groups@[j].name@
            == query@ {
            more_groups_of_the_name(groups@, query@, i, j);
            assert(views(r->Err_0->ids@).len() == r->Err_0->ids@.len());
        }
    }
}

/// What is said of a query that names no one group, and under which code.
pub proof fn a_lookup_that_failed_is_told(l: Lookup, code: &'static str, m: String, f: Failure)
    requires
        call_ensures(Lookup::code, (&l,), code),
        call_ensures(Lookup::message, (&l,), m),
        call_ensures(Lookup::refused, (&l,), f),
    ensures
        l matches Lookup::NotFound(q) ==> code@ == "not_found"@ && m@
            == "no group named or identified `"@ + q@ + "`; see `hoard group list`"@,
        l matches Lookup::Ambiguous { name, ids } ==> code@ == "needs_choice"@ && m@ == "`"@
            + name@ + "` names "@ + digits(ids@.len()) + " groups; pass the id instead: "@ + joined(
            views(ids@),
            ", "@,
        ),
        f.cause is Coded && f.cause->Coded_0.code@ == code@ && f.cause->Coded_0.message@ == m@,
{
}

/// A looked-up group is then asked about by its id: to be left, or invited to for the seconds that
/// were asked. Only the id counts from there on.
pub proof fn a_looked_up_group_is_asked_about(
    groups: Vec<Group>,
    list: &[Group],
    query: String,
    text: &str,
    found: Result<String, Lookup>,
    expires: u64,
    printed: &str,
    a: Step,
    b: Step,
)
    requires
        list@ == groups@,
        text@ == query@,
        call_ensures(resolve_in, (list, text), found),
        call_ensures(
            next,
            (Stage::InviteLookup { query, expires }, Answer::Groups(groups), printed),
            a,
        ),
        call_ensures(next, (Stage::LeaveLookup { query }, Answer::Groups(groups), printed), b),
    ensures
        found is Ok ==> {
            &&& a is Ask && a->Ask_0 is Inviting && a->Ask_1 is InviteToGroup
                && a->Ask_1->InviteToGroup_group_id@ == found->Ok_0@ && a->Ask_1->expires_in_secs
                == Some(expires)
            &&& b is Ask && b->Ask_0 is Leaving && b->Ask_0->group_id@ == found->Ok_0@
                && b->Ask_1 is LeaveGroup && b->Ask_1->LeaveGroup_group_id@ == found->Ok_0@
        },
        found is Err ==> a is Fail && b is Fail,
{
}

/// A group's row: its own name and id, how many are in it, and its owner by the name they go by in
/// it, or by their id where they are not in it.
pub proof fn a_group_is_shown(g: Group, r: GroupRow, i: int)
    requires
        call_ensures(row, (&g,), r),
    ensures
        r.id@ == g.id@ && r.name@ == g.name@ && r.members == g.members@.len(),
        (0 <= i < g.members@.len() && g.members@[i].user_id@ == g.owner_user_id@ && forall|k: int|
            0 <= k < i ==> (#[trigger] g.members@[k]).user_id@ != g.owner_user_id@) ==> r.owner@
            == g.members@[i].username@,
        (forall|k: int|
            0 <= k < g.members@.len() ==> (#[trigger] g.members@[k]).user_id@ != g.owner_user_id@)
            ==> r.owner@ == g.owner_user_id@,
{
    let n = g.members@.len() as int;
    if 0 <= i < n && g.members@[i].user_id@ == g.owner_user_id@ && (forall|k: int|
        0 <= k < i ==> (#[trigger] g.members@[k]).user_id@ != g.owner_user_id@) {
        owner_is_the_first(g, i, n);
    }
    if forall|k: int|
        0 <= k < n ==> (#[trigger] g.members@[k]).user_id@ != g.owner_user_id@ {
        owner_is_nobody(g, n);
    }
}

proof fn owner_is_the_first(g: Group, i: int, upto: int)
    requires
        0 <= i < g.members@.len(),
        g.members@[i].user_id@ == g.owner_user_id@,
        forall|k: int| 0 <= k < i ==> (#[trigger] g.members@[k]).user_id@ != g.owner_user_id@,
        g.members@.len() - i <= upto <= g.members@.len(),
    ensures
        owner_name(g, upto) == g.members@[i].username@,
    decreases upto,
{
    if g.members@.len() - upto < i {
        assert(g.members@[g.members@.len() - upto].user_id@ != g.owner_user_id@);
        owner_is_the_first(g, i, upto - 1);
    }
}

proof fn owner_is_nobody(g: Group, upto: int)
    requires
        forall|k: int|
            0 <= k < g.members@.len() ==> (#[trigger] g.members@[k]).user_id@ != g.owner_user_id@,
        0 <= upto <= g.members@.len(),
    ensures
        owner_name(g, upto) == g.owner_user_id@,
    decreases upto,
{
    if upto > 0 {
        assert(g.members@[g.members@.len() - upto].user_id@ != g.owner_user_id@);
        owner_is_nobody(g, upto - 1);
    }
}

/// The table of groups: without any, how to come by one; else a head and a line for each, in order,
/// which ends in its id.
pub proof fn a_table_of_groups(out: GroupsOut, r: Vec<String>, i: int)
    requires
        call_ensures(table, (&out,), r),
    ensures
        out.groups@.len() == 0 ==> r@.len() == 2 && r@[0]@ == "you belong to no group."@,
        out.groups@.len() > 0 ==> r@.len() == out.groups@.len() + 1,
        0 <= i < out.groups@.len() ==> r@[i + 1]@ == padded(cut(out.groups@[i].name@, 24), 24)
            + "  "@ + padded(cut(out.groups@[i].owner@, 16), 16) + "  "@ + padded_left(
            digits(out.groups@[i].members as nat),
            7,
        ) + "  "@ + out.groups@[i].id@,
        out.groups@.len() > 0 ==> r@[0]@ == padded("NAME"@, 24) + "  "@ + padded("OWNER"@, 16)
            + "  "@ + padded_left("MEMBERS"@, 7) + "  "@ + "ID"@,
{
    let v = views(r@);
    assert(v.len() == r@.len());
    if out.groups@.len() == 0 {
        assert(v[0] == r@[0]@);
    } else {
        assert(v[0] == r@[0]@);
        if 0 <= i < out.groups@.len() {
            assert(v[i + 1] == r@[i + 1]@);
        }
    }
}


/// Every group has its row, in order, and an id is taken as it was given.
pub proof fn every_group_has_its_row(groups: Vec<Group>, r: GroupsOut, query: &str, id: Option<String>, i: int)
    requires
        call_ensures(rows, (&groups,), r),
        call_ensures(as_id, (query,), id),
    ensures
        r.groups@.len() == groups@.len(),
        0 <= i < groups@.len() ==> r.groups@[i].id@ == groups@[i].id@ && r.groups@[i].name@
            == groups@[i].name@ && r.groups@[i].members == groups@[i].members@.len(),
        id is Some <==> is_uuid(query@),
        id is Some ==> id->0@ == query@,
{
    if 0 <= i < groups@.len() {
        assert(is_row(r.groups@[i], groups@[i]));
    }
}

} // verus!
