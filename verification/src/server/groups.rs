//! Groups: create, list, invite, join, leave.
//!
//! A group is one owner plus members, joined by one-time invite links. A caller who is not a
//! member gets what an unknown id gets: membership is the only way to learn a group exists.

use vstd::prelude::*;

use crate::clock::{stamp_of, Moment};
#[allow(unused_imports)]
use crate::clock::{civil_at, stamp_text, FIRST_MOMENT, LAST_MOMENT};
#[allow(unused_imports)]
use crate::secret::{base64_url, hash_of};
use crate::secret::{hash_token, redeemed_hash, token_of};
use crate::server::reply::Refusal;
use crate::text::{chars_of, comes_before, same, trim};
#[allow(unused_imports)]
use crate::text::{before, trimmed};
use crate::wire::{Group, GroupMember};

verus! {

pub const MAX_NAME_CHARS: usize = 64;

/// A week.
pub const DEFAULT_INVITE_TTL_SECS: u64 = 604_800;

/// A year.
pub const MAX_INVITE_TTL_SECS: u64 = 31_536_000;

/// One member of one group; [`fold_groups`] turns a run of them into a [`Group`]. The user name and
/// the times are not the texts that are stored but what those were repaired to when the row was
/// read: a text that somebody edited by hand may be neither a name nor a time.
#[derive(Debug)]
pub struct GroupRow {
    pub id: String,
    pub name: String,
    pub owner_user_id: String,
    pub created_at: Moment,
    pub member_id: String,
    pub username: String,
    pub role: String,
    pub joined_at: Moment,
}

/// The member that a row holds.
pub open spec fn member_of(r: GroupRow) -> GroupMember {
    GroupMember { user_id: r.member_id, username: r.username, role: r.role, joined_at: r.joined_at }
}

/// A group by what it holds.
pub ghost struct GroupView {
    pub id: Seq<char>,
    pub name: String,
    pub owner_user_id: String,
    pub created_at: Moment,
    pub members: Seq<GroupMember>,
}

/// What a group holds.
pub open spec fn group_view(g: Group) -> GroupView {
    GroupView {
        id: g.id@,
        name: g.name,
        owner_user_id: g.owner_user_id,
        created_at: g.created_at,
        members: g.members@,
    }
}

/// What a list of groups holds.
pub open spec fn group_views(list: Seq<Group>) -> Seq<GroupView> {
    Seq::new(list.len(), |i: int| group_view(list[i]))
}

/// The groups that a list of rows makes: one for each run of rows with one id, with what the
/// run's first row says of the group and the members of the run in order.
pub open spec fn folded(rows: Seq<GroupRow>) -> Seq<GroupView>
    decreases rows.len(),
{
    if rows.len() == 0 {
        Seq::empty()
    } else {
        let done = folded(rows.drop_last());
        let r = rows.last();
        if done.len() > 0 && done.last().id == r.id@ {
            done.update(
                done.len() - 1,
                GroupView { members: done.last().members.push(member_of(r)), ..done.last() },
            )
        } else {
            done.push(
                GroupView {
                    id: r.id@,
                    name: r.name,
                    owner_user_id: r.owner_user_id,
                    created_at: r.created_at,
                    members: seq![member_of(r)],
                },
            )
        }
    }
}

/// The members of a list of groups, group after group.
pub open spec fn all_members(groups: Seq<GroupView>) -> Seq<GroupMember>
    decreases groups.len(),
{
    if groups.len() == 0 {
        Seq::empty()
    } else {
        all_members(groups.drop_last()) + groups.last().members
    }
}

fn last_is(out: &Vec<Group>, id: &str) -> (r: bool)
    ensures
        r == (out@.len() > 0 && out@.last().id@ == id@),
{
    out.len() > 0 && same(out[out.len() - 1].id.as_str(), id)
}

/// Rows arrive ordered by group, so each group is one contiguous run.
pub fn fold_groups(rows: &Vec<GroupRow>) -> (out: Vec<Group>)
    ensures
        group_views(out@) == folded(rows@),
{
    let mut out: Vec<Group> = Vec::new();
    let mut i: usize = 0;
    assert(group_views(out@) =~= folded(rows@.take(0)));
    while i < rows.len()
        invariant
            i <= rows.len(),
            group_views(out@) == folded(rows@.take(i as int)),
        decreases rows.len() - i,
    {
        let r = &rows[i];
        let ghost was = group_views(out@);
        assert(rows@.take(i + 1).drop_last() =~= rows@.take(i as int));
        let member = GroupMember {
            user_id: r.member_id.clone(),
            username: r.username.clone(),
            role: r.role.clone(),
            joined_at: r.joined_at,
        };
        let known = last_is(&out, r.id.as_str());
        assert(out@.len() > 0 ==> was.last() == group_view(out@.last()));
        if known {
            match out.pop() {
                Some(g) => {
                    let mut members = g.members;
                    members.push(member);
                    out.push(
                        Group {
                            id: g.id,
                            name: g.name,
                            owner_user_id: g.owner_user_id,
                            created_at: g.created_at,
                            members,
                        },
                    );
                },
                None => {},
            }
        } else {
            let mut members: Vec<GroupMember> = Vec::new();
            members.push(member);
            assert(members@ =~= seq![member_of(rows@[i as int])]);
            out.push(
                Group {
                    id: r.id.clone(),
                    name: r.name.clone(),
                    owner_user_id: r.owner_user_id.clone(),
                    created_at: r.created_at,
                    members,
                },
            );
        }
        assert(group_views(out@) =~= folded(rows@.take(i + 1)));
        i += 1;
    }
    assert(rows@.take(rows.len() as int) =~= rows@);
    out
}

/// Folding loses and reorders nobody: the members of the groups, one group after another, are the
/// members of the rows.
pub proof fn folding_keeps_every_member(rows: Seq<GroupRow>)
    ensures
        all_members(folded(rows)) == Seq::new(rows.len(), |i: int| member_of(rows[i])),
    decreases rows.len(),
{
    if rows.len() > 0 {
        let rest = rows.drop_last();
        folding_keeps_every_member(rest);
        let done = folded(rest);
        let now = folded(rows);
        if done.len() > 0 && done.last().id == rows.last().id@ {
            assert(now.drop_last() =~= done.drop_last());
        } else {
            assert(now.drop_last() =~= done);
        }
        assert(all_members(now) =~= all_members(done).push(member_of(rows.last())));
    }
    assert(all_members(folded(rows)) =~= Seq::new(rows.len(), |i: int| member_of(rows[i])));
}

/// No group of a fold is empty, and no two that follow each other are one group.
pub proof fn folding_splits_by_group(rows: Seq<GroupRow>)
    ensures
        forall|i: int| 0 <= i < folded(rows).len() ==> (#[trigger] folded(rows)[i]).members.len() > 0,
        forall|i: int|
            #![trigger folded(rows)[i]]
            0 < i < folded(rows).len() ==> folded(rows)[i].id != folded(rows)[i - 1].id,
    decreases rows.len(),
{
    if rows.len() > 0 {
        folding_splits_by_group(rows.drop_last());
        let done = folded(rows.drop_last());
        let now = folded(rows);
        assert forall|i: int| 0 <= i < now.len() implies (#[trigger] now[i]).members.len() > 0 by {
            if i < done.len() {
                assert(done[i].members.len() > 0);
            }
        }
        assert forall|i: int| #![trigger now[i]] 0 < i < now.len() implies now[i].id != now[i - 1].id by {
            if i < done.len() {
                assert(done[i].id != done[i - 1].id);
            }
        }
    }
}

/// A group's name: 1 to 64 characters, white space around it aside.
pub open spec fn name_holds(name: Seq<char>) -> bool {
    0 < trimmed(name).len() <= MAX_NAME_CHARS
}

/// One account's place in one group, as it is stored.
#[derive(Debug, PartialEq, Eq)]
pub struct Membership {
    pub group_id: String,
    pub user_id: String,
    pub role: String,
}

/// A group as it is stored.
#[derive(Debug, PartialEq, Eq)]
pub struct NewGroup {
    pub id: String,
    pub name: String,
    pub owner_user_id: String,
}

/// What creating a group writes: the group, and its owner as the first member.
#[derive(Debug, PartialEq, Eq)]
pub struct Founded {
    pub group: NewGroup,
    pub member: Membership,
}

/// Create a group under `id`: the caller owns it and is its first member.
pub fn create(id: &str, name: &str, user_id: &str) -> (r: Result<Founded, Refusal>)
    ensures
        r is Ok == name_holds(name@),
        r matches Ok(f) ==> {
            &&& f.group.id@ == id@
            &&& f.group.name@ == trimmed(name@)
            &&& f.group.owner_user_id@ == user_id@
            &&& f.member.group_id@ == id@
            &&& f.member.user_id@ == user_id@
            &&& f.member.role@ == "owner"@
        },
        r is Err ==> r->Err_0 == Refusal::GroupName,
{
    let name = trim(name);
    let n: usize = chars_of(name.as_str()).len();
    if n == 0 || n > MAX_NAME_CHARS {
        return Err(Refusal::GroupName);
    }
    Ok(
        Founded {
            group: NewGroup { id: id.to_owned(), name, owner_user_id: user_id.to_owned() },
            member: Membership {
                group_id: id.to_owned(),
                user_id: user_id.to_owned(),
                role: "owner".to_owned(),
            },
        },
    )
}

/// The caller's standing in a group: who owns it. `None` when the group does not exist or the
/// caller is not in it, which is the same to them.
pub open spec fn owner_refusal(standing: Option<String>, user_id: Seq<char>) -> Option<Refusal> {
    match standing {
        None => Some(Refusal::GroupNotFound),
        Some(owner) => if owner@ != user_id {
            Some(Refusal::NotGroupOwner)
        } else {
            None
        },
    }
}

fn require_group_owner(standing: &Option<String>, user_id: &str) -> (r: Result<(), Refusal>)
    ensures
        match owner_refusal(*standing, user_id@) {
            Some(e) => r == Err::<(), Refusal>(e),
            None => r == Ok::<(), Refusal>(()),
        },
{
    match standing {
        None => Err(Refusal::GroupNotFound),
        Some(owner) => if same(owner.as_str(), user_id) {
            Ok(())
        } else {
            Err(Refusal::NotGroupOwner)
        },
    }
}

/// A request to delete a group: its owner's, and refused while a save is shared into it.
pub fn delete(standing: &Option<String>, user_id: &str, shared_saves: i64) -> (r: Result<(), Refusal>)
    ensures
        match owner_refusal(*standing, user_id@) {
            Some(e) => r == Err::<(), Refusal>(e),
            None => if shared_saves > 0 {
                r == Err::<(), Refusal>(Refusal::StillShared)
            } else {
                r == Ok::<(), Refusal>(())
            },
        },
{
    match require_group_owner(standing, user_id) {
        Err(e) => Err(e),
        Ok(()) => if shared_saves > 0 {
            Err(Refusal::StillShared)
        } else {
            Ok(())
        },
    }
}

/// How long an invite lives that asked for `asked`; a week when it did not say.
pub open spec fn invite_ttl(asked: Option<u64>) -> u64 {
    match asked {
        Some(n) => n,
        None => DEFAULT_INVITE_TTL_SECS,
    }
}

/// An invite as it is minted: the token goes out once, its hash is stored.
#[derive(Debug)]
pub struct Minted {
    pub token: String,
    pub token_hash: String,
    pub expires_at: String,
}

/// Why a request for an invite is refused, if it is.
pub open spec fn invite_refusal(
    standing: Option<String>,
    user_id: Seq<char>,
    asked: Option<u64>,
) -> Option<Refusal> {
    if owner_refusal(standing, user_id) is Some {
        owner_refusal(standing, user_id)
    } else if invite_ttl(asked) == 0 {
        Some(Refusal::InviteTtlZero)
    } else if invite_ttl(asked) > MAX_INVITE_TTL_SECS {
        Some(Refusal::InviteTtlLong)
    } else {
        None
    }
}

/// Mint an invite: only the group's owner does, for a year at most. `raw` is random, `now` the
/// clock.
pub fn create_invite(
    standing: &Option<String>,
    user_id: &str,
    expires_in_secs: Option<u64>,
    raw: &[u8; 32],
    now: i64,
) -> (r: Result<Minted, Refusal>)
    requires
        FIRST_MOMENT <= now <= LAST_MOMENT - MAX_INVITE_TTL_SECS,
    ensures
        match invite_refusal(*standing, user_id@, expires_in_secs) {
            Some(e) => r == Err::<Minted, Refusal>(e),
            None => {
                &&& r is Ok
                &&& r->Ok_0.token@ == base64_url(raw@)
                &&& r->Ok_0.token_hash@ == hash_of(r->Ok_0.token@)
                &&& r->Ok_0.expires_at@ == stamp_text(civil_at(now + invite_ttl(expires_in_secs)))
            },
        },
{
    match require_group_owner(standing, user_id) {
        Err(e) => {
            return Err(e);
        },
        Ok(()) => {},
    }
    let ttl: u64 = match expires_in_secs {
        Some(n) => n,
        None => DEFAULT_INVITE_TTL_SECS,
    };
    if ttl == 0 {
        return Err(Refusal::InviteTtlZero);
    }
    if ttl > MAX_INVITE_TTL_SECS {
        return Err(Refusal::InviteTtlLong);
    }
    let until: i64 = now + ttl as i64;
    match stamp_of(until) {
        Some(expires_at) => {
            let token = token_of(raw);
            let token_hash = hash_token(token.as_str());
            Ok(Minted { token, token_hash, expires_at })
        },
        None => Err(Refusal::Internal),
    }
}

/// An invite as it is stored. Times are stamps, which sort as text.
#[derive(Debug)]
pub struct Invite {
    pub token_hash: String,
    pub group_id: String,
    pub expires_at: String,
    pub used_by: Option<String>,
    pub used_at: Option<String>,
}

/// Does the invite still admit somebody at `now`?
pub open spec fn admits(invite: Invite, now: Seq<char>) -> bool {
    invite.used_at is None && before(now, invite.expires_at@)
}

/// What redeeming a token comes to before anything is written.
#[derive(Debug, Clone, Copy, PartialEq, Eq, Structural)]
pub enum Join {
    /// The caller is in the group already: they get it back whatever the token's state.
    Already,
    /// Spend the invite and add the caller.
    Redeem,
}

/// Redeem a token. Every failure is the same: no such invite.
pub fn join(invite: Option<&Invite>, in_group: bool, now: &str) -> (r: Result<Join, Refusal>)
    ensures
        r is Err ==> r->Err_0 == Refusal::InviteNotFound,
        r == Ok::<Join, Refusal>(Join::Already) <==> invite is Some && in_group,
        r == Ok::<Join, Refusal>(Join::Redeem) <==> invite is Some && !in_group && admits(
            *invite->0,
            now@,
        ),
{
    match invite {
        None => Err(Refusal::InviteNotFound),
        Some(i) => {
            if in_group {
                return Ok(Join::Already);
            }
            if i.used_at.is_some() || !comes_before(now, i.expires_at.as_str()) {
                return Err(Refusal::InviteNotFound);
            }
            Ok(Join::Redeem)
        },
    }
}

/// Spend the invite under the write lock, where its row may have changed since it was read: it is
/// marked as used by the caller, who becomes a member of its group. A row already used, or expired,
/// admits nobody and is not rewritten.
pub fn spend(invite: &mut Invite, user_id: &str, now: &str) -> (r: Result<Membership, Refusal>)
    ensures
        final(invite).token_hash == old(invite).token_hash,
        final(invite).group_id == old(invite).group_id,
        final(invite).expires_at == old(invite).expires_at,
        r is Ok == admits(*old(invite), now@),
        r matches Ok(m) ==> {
            &&& final(invite).used_by matches Some(by) && by@ == user_id@
            &&& final(invite).used_at matches Some(at) && at@ == now@
            &&& m.group_id@ == old(invite).group_id@
            &&& m.user_id@ == user_id@
            &&& m.role@ == "member"@
        },
        r is Err ==> r->Err_0 == Refusal::InviteNotFound && *final(invite) == *old(invite),
{
    if invite.used_at.is_some() || !comes_before(now, invite.expires_at.as_str()) {
        return Err(Refusal::InviteNotFound);
    }
    invite.used_by = Some(user_id.to_owned());
    invite.used_at = Some(now.to_owned());
    Ok(
        Membership {
            group_id: invite.group_id.clone(),
            user_id: user_id.to_owned(),
            role: "member".to_owned(),
        },
    )
}

/// Where the invite with this hash stands; the length where there is none.
pub open spec fn invite_at(invites: Seq<Invite>, hash: Seq<char>) -> nat
    decreases invites.len(),
{
    if invites.len() == 0 || invites[0].token_hash@ == hash {
        0
    } else {
        1 + invite_at(invites.skip(1), hash)
    }
}

fn find_invite(invites: &Vec<Invite>, hash: &str) -> (r: usize)
    ensures
        r == invite_at(invites@, hash@),
        r <= invites@.len(),
{
    let mut i: usize = 0;
    assert(invites@.skip(0) =~= invites@);
    while i < invites.len() && !same(invites[i].token_hash.as_str(), hash)
        invariant
            i <= invites.len(),
            invite_at(invites@, hash@) == i + invite_at(invites@.skip(i as int), hash@),
        decreases invites.len() - i,
    {
        assert(invites@.skip(i as int).skip(1) =~= invites@.skip(i + 1));
        i += 1;
    }
    i
}

/// Is the account in the group?
pub open spec fn is_member(members: Seq<Membership>, group: Seq<char>, user_id: Seq<char>) -> bool {
    exists|i: int|
        0 <= i < members.len() && (#[trigger] members[i]).group_id@ == group && members[i].user_id@
            == user_id
}

fn has_member(members: &Vec<Membership>, group: &str, user_id: &str) -> (r: bool)
    ensures
        r == is_member(members@, group@, user_id@),
{
    let mut i: usize = 0;
    while i < members.len()
        invariant
            i <= members.len(),
            forall|k: int|
                0 <= k < i ==> !((#[trigger] members@[k]).group_id@ == group@
                    && members@[k].user_id@ == user_id@),
        decreases members.len() - i,
    {
        if same(members[i].group_id.as_str(), group) && same(members[i].user_id.as_str(), user_id) {
            return true;
        }
        i += 1;
    }
    false
}

/// What a token redeemed does to the invites and the members, and what it answers.
pub open spec fn redeems(
    invites: Seq<Invite>,
    members: Seq<Membership>,
    hash: Seq<char>,
    user_id: Seq<char>,
    now: Seq<char>,
    r: Result<String, Refusal>,
    after: Seq<Invite>,
    joined: Seq<Membership>,
) -> bool {
    let i = invite_at(invites, hash) as int;
    let group = invites[i].group_id@;
    if i < invites.len() && is_member(members, group, user_id) {
        &&& r matches Ok(g) && g@ == group
        &&& after == invites
        &&& joined == members
    } else if i < invites.len() && admits(invites[i], now) {
        &&& r matches Ok(g) && g@ == group
        &&& after == invites.update(i, after[i])
        &&& after[i].token_hash == invites[i].token_hash
        &&& after[i].group_id == invites[i].group_id
        &&& after[i].expires_at == invites[i].expires_at
        &&& after[i].used_by matches Some(by) && by@ == user_id
        &&& after[i].used_at matches Some(at) && at@ == now
        &&& joined == members.push(joined.last())
        &&& joined.last().group_id@ == group
        &&& joined.last().user_id@ == user_id
        &&& joined.last().role@ == "member"@
    } else {
        &&& r == Err::<String, Refusal>(Refusal::InviteNotFound)
        &&& after == invites
        &&& joined == members
    }
}

/// Redeem a token against what is stored, under the write lock: the group that the caller is in
/// then. Somebody in the group already gets it back whatever the token's state, and nothing is
/// written.
pub fn redeem(
    invites: &mut Vec<Invite>,
    members: &mut Vec<Membership>,
    token: &str,
    user_id: &str,
    now: &str,
) -> (r: Result<String, Refusal>)
    ensures
        redeems(
            old(invites)@,
            old(members)@,
            hash_of(trimmed(token@)),
            user_id@,
            now@,
            r,
            final(invites)@,
            final(members)@,
        ),
{
    let hash = redeemed_hash(token);
    let i = find_invite(invites, hash.as_str());
    if i == invites.len() {
        return Err(Refusal::InviteNotFound);
    }
    let group = invites[i].group_id.clone();
    let in_group = has_member(members, group.as_str(), user_id);
    match join(Some(&invites[i]), in_group, now) {
        Err(e) => {
            return Err(e);
        },
        Ok(Join::Already) => {
            return Ok(group);
        },
        Ok(Join::Redeem) => {},
    }
    let ghost was = invites@;
    let spent = spend(&mut invites[i], user_id, now);
    match spent {
        Ok(member) => {
            let ghost before = members@;
            members.push(member);
            assert(invites@ =~= was.update(i as int, invites@[i as int]));
            assert(members@ =~= before.push(members@.last()));
            Ok(group)
        },
        Err(e) => {
            assert(invites@ =~= was);
            Err(e)
        },
    }
}

/// One link admits one person: once spent, an invite admits nobody at any time.
pub proof fn a_spent_invite_admits_nobody(invite: Invite, now: Seq<char>)
    requires
        invite.used_at is Some,
    ensures
        !admits(invite, now),
{
}

/// Whoever redeemed a token redeems it again to no effect: they are in the group.
pub proof fn redeeming_again_changes_nothing(
    invites: Seq<Invite>,
    members: Seq<Membership>,
    hash: Seq<char>,
    user_id: Seq<char>,
    times: (Seq<char>, Seq<char>),
    first: Result<String, Refusal>,
    after: (Seq<Invite>, Seq<Membership>),
    second: Result<String, Refusal>,
    again: (Seq<Invite>, Seq<Membership>),
)
    requires
        first is Ok,
        redeems(invites, members, hash, user_id, times.0, first, after.0, after.1),
        redeems(after.0, after.1, hash, user_id, times.1, second, again.0, again.1),
    ensures
        second matches Ok(g) && g@ == first->Ok_0@,
        again == after,
{
    let i = invite_at(invites, hash) as int;
    invite_stays(invites, after.0, hash);
    if !is_member(members, invites[i].group_id@, user_id) {
        assert(after.1[members.len() as int] == after.1.last());
        assert(is_member(after.1, invites[i].group_id@, user_id));
    }
}

/// One token admits one newcomer: once somebody was let in with it, nobody else is.
pub proof fn one_token_admits_one_newcomer(
    invites: Seq<Invite>,
    members: Seq<Membership>,
    hash: Seq<char>,
    users: (Seq<char>, Seq<char>),
    times: (Seq<char>, Seq<char>),
    first: Result<String, Refusal>,
    after: (Seq<Invite>, Seq<Membership>),
    second: Result<String, Refusal>,
    again: (Seq<Invite>, Seq<Membership>),
)
    requires
        first is Ok,
        redeems(invites, members, hash, users.0, times.0, first, after.0, after.1),
        after.1 != members,
        !is_member(after.1, first->Ok_0@, users.1),
        redeems(after.0, after.1, hash, users.1, times.1, second, again.0, again.1),
    ensures
        second == Err::<String, Refusal>(Refusal::InviteNotFound),
        again == after,
{
    invite_stays(invites, after.0, hash);
}

proof fn invite_stays(a: Seq<Invite>, b: Seq<Invite>, hash: Seq<char>)
    requires
        a.len() == b.len(),
        forall|k: int| 0 <= k < a.len() ==> (#[trigger] a[k]).token_hash == b[k].token_hash,
    ensures
        invite_at(a, hash) == invite_at(b, hash),
    decreases a.len(),
{
    if a.len() > 0 {
        assert forall|k: int| 0 <= k < a.skip(1).len() implies (#[trigger] a.skip(1)[k]).token_hash
            == b.skip(1)[k].token_hash by {
            assert(a.skip(1)[k] == a[k + 1]);
        }
        invite_stays(a.skip(1), b.skip(1), hash);
    }
}

/// Why a request to remove a member is refused, if it is.
pub open spec fn remove_refusal(
    standing: Option<String>,
    user_id: Seq<char>,
    target: Seq<char>,
) -> Option<Refusal> {
    match standing {
        None => Some(Refusal::GroupNotFound),
        Some(owner) => if owner@ != user_id && target != user_id {
            Some(Refusal::OnlyThemself)
        } else if target == owner@ {
            Some(Refusal::OwnerStays)
        } else {
            None
        },
    }
}

/// The owner removes anybody but themself; a member removes only themself.
pub fn remove_member(standing: &Option<String>, user_id: &str, target: &str) -> (r: Result<
    (),
    Refusal,
>)
    ensures
        match remove_refusal(*standing, user_id@, target@) {
            Some(e) => r == Err::<(), Refusal>(e),
            None => r == Ok::<(), Refusal>(()),
        },
{
    match standing {
        None => Err(Refusal::GroupNotFound),
        Some(owner) => {
            if !same(owner.as_str(), user_id) && !same(target, user_id) {
                return Err(Refusal::OnlyThemself);
            }
            if same(target, owner.as_str()) {
                return Err(Refusal::OwnerStays);
            }
            Ok(())
        },
    }
}

/// What a removal answers once the member's leases are ended and their saves taken back: the
/// row had to be there.
pub fn removed(rows: u64) -> (r: Result<(), Refusal>)
    ensures
        r == (if rows == 0 {
            Err::<(), Refusal>(Refusal::MemberNotFound)
        } else {
            Ok::<(), Refusal>(())
        }),
{
    if rows == 0 {
        Err(Refusal::MemberNotFound)
    } else {
        Ok(())
    }
}

/// The owner of a group never leaves it, whoever asks.
pub proof fn the_owner_stays(owner: String, user_id: Seq<char>)
    ensures
        remove_refusal(Some(owner), user_id, owner@) is Some,
{
}

/// A stranger learns nothing of a group: whatever they ask, it does not exist.
pub proof fn a_stranger_is_told_nothing(user_id: Seq<char>, target: Seq<char>, asked: Option<u64>)
    ensures
        owner_refusal(None, user_id) == Some(Refusal::GroupNotFound),
        invite_refusal(None, user_id, asked) == Some(Refusal::GroupNotFound),
        remove_refusal(None, user_id, target) == Some(Refusal::GroupNotFound),
{
}

// ---- laws on the calls

/// A group's name is what was asked for without the space around it, of one to 64 characters; any
/// other name is refused. Whoever founds the group owns it and is in it, as its owner.
pub proof fn a_founder_owns_the_group(id: &str, name: &str, user_id: &str, r: Result<Founded, Refusal>)
    requires
        call_ensures(create, (id, name, user_id), r),
    ensures
        r is Ok <==> 1 <= trimmed(name@).len() <= 64,
        r is Err ==> r->Err_0 == Refusal::GroupName,
        r matches Ok(f) ==> {
            &&& f.group.id@ == id@ && f.member.group_id@ == id@
            &&& f.group.name@ == trimmed(name@)
            &&& f.group.owner_user_id@ == user_id@ && f.member.user_id@ == user_id@
            &&& f.member.role@ == "owner"@
        },
{
}

/// Deleting a group and inviting into it are its owner's alone: to a stranger the group does not
/// exist, a member is told it is the owner's. A group with a save shared into it stays. An invite
/// lives a week unless it says otherwise, for some time, and for a year at most.
pub proof fn what_a_groups_owner_may(
    standing: Option<String>,
    user_id: &str,
    shared: i64,
    r: Result<(), Refusal>,
    asked: Option<u64>,
    raw: [u8; 32],
    now: i64,
    invite: Result<Minted, Refusal>,
    token: &str,
    hash: String,
)
    requires
        call_ensures(delete, (&standing, user_id, shared), r),
        call_ensures(create_invite, (&standing, user_id, asked, &raw, now), invite),
        call_ensures(hash_token, (token,), hash),
        FIRST_MOMENT <= now <= LAST_MOMENT - 31_536_000,
    ensures
        standing is None ==> r == Err::<(), Refusal>(Refusal::GroupNotFound) && invite == Err::<
            Minted,
            Refusal,
        >(Refusal::GroupNotFound),
        standing matches Some(owner) ==> {
            &&& owner@ != user_id@ ==> r == Err::<(), Refusal>(Refusal::NotGroupOwner) && invite
                == Err::<Minted, Refusal>(Refusal::NotGroupOwner)
            &&& owner@ == user_id@ && shared > 0 ==> r == Err::<(), Refusal>(Refusal::StillShared)
            &&& owner@ == user_id@ && shared <= 0 ==> r == Ok::<(), Refusal>(())
            &&& owner@ == user_id@ ==> {
                let ttl = if asked is Some {
                    asked->0 as int
                } else {
                    604_800
                };
                &&& ttl == 0 ==> invite == Err::<Minted, Refusal>(Refusal::InviteTtlZero)
                &&& ttl > 31_536_000 ==> invite == Err::<Minted, Refusal>(Refusal::InviteTtlLong)
                &&& 0 < ttl <= 31_536_000 ==> invite is Ok && invite->Ok_0.expires_at@
                    == stamp_text(civil_at(now + ttl)) && invite->Ok_0.token@ == base64_url(raw@)
            }
        },
        invite is Ok && invite->Ok_0.token@ == token@ ==> invite->Ok_0.token_hash@ == hash@,
{
}

/// A token opens its group to whoever is in it already, whatever its state, and to one newcomer
/// while it was not used and has not expired; to everybody else there is no such invite. Spent, it
/// is marked with who and when, once, and makes them a member and no more.
pub proof fn an_invite_is_redeemed(
    invite: Option<&Invite>,
    in_group: bool,
    now: &str,
    r: Result<Join, Refusal>,
    row: &mut Invite,
    user_id: &str,
    spent: Result<Membership, Refusal>,
)
    requires
        call_ensures(join, (invite, in_group, now), r),
        call_ensures(spend, (row, user_id, now), spent),
    ensures
        invite is None ==> r is Err,
        r is Err ==> r->Err_0 == Refusal::InviteNotFound,
        invite is Some && in_group ==> r == Ok::<Join, Refusal>(Join::Already),
        invite is Some && !in_group ==> (r == Ok::<Join, Refusal>(Join::Redeem) <==> (
        invite->0.used_at is None && before(now@, invite->0.expires_at@))),
        invite is Some && !in_group && r is Ok ==> r->Ok_0 == Join::Redeem,
        spent is Ok <==> old(row).used_at is None && before(now@, old(row).expires_at@),
        spent is Err ==> spent->Err_0 == Refusal::InviteNotFound && *final(row) == *old(row),
        spent matches Ok(m) ==> {
            &&& final(row).used_by is Some && final(row).used_by->0@ == user_id@
            &&& final(row).used_at is Some && final(row).used_at->0@ == now@
            &&& m.group_id@ == old(row).group_id@
            &&& m.user_id@ == user_id@
            &&& m.role@ == "member"@
        },
        final(row).token_hash == old(row).token_hash && final(row).group_id == old(row).group_id
            && final(row).expires_at == old(row).expires_at,
{
}

proof fn the_first_with_the_hash(invites: Seq<Invite>, hash: Seq<char>)
    ensures
        invite_at(invites, hash) <= invites.len(),
        invite_at(invites, hash) < invites.len() ==> invites[invite_at(
            invites,
            hash,
        ) as int].token_hash@ == hash,
        forall|k: int| 0 <= k < invite_at(invites, hash) ==> (#[trigger] invites[k]).token_hash@
            != hash,
    decreases invites.len(),
{
    if invites.len() > 0 && invites[0].token_hash@ != hash {
        let rest = invites.skip(1);
        the_first_with_the_hash(rest, hash);
        assert forall|k: int| 0 <= k < invite_at(invites, hash) implies (
        #[trigger] invites[k]).token_hash@ != hash by {
            if k > 0 {
                assert(rest[k - 1] == invites[k]);
            }
        }
    }
}

/// Redeeming a token against what is stored: the invite is the one with the hash of the token,
/// without the space around it. Who is let in is in that group from then on, and was not before; who
/// is in it already changes nothing; and with no invite of that hash nobody is let in.
pub proof fn a_token_lets_in_who_holds_it(
    invites: &mut Vec<Invite>,
    members: &mut Vec<Membership>,
    token: &str,
    user_id: &str,
    now: &str,
    r: Result<String, Refusal>,
    hash: String,
    i: int,
)
    requires
        call_ensures(redeem, (invites, members, token, user_id, now), r),
        call_ensures(redeemed_hash, (token,), hash),
        forall|a: int, b: int|
            0 <= a < b < old(invites)@.len() ==> (#[trigger] old(invites)@[a]).token_hash@ != (
            #[trigger] old(invites)@[b]).token_hash@,
    ensures
        ({
            let (rows, people) = (old(invites)@, old(members)@);
            let known = 0 <= i < rows.len() && rows[i].token_hash@ == hash@;
            let inside = exists|k: int|
                0 <= k < people.len() && (#[trigger] people[k]).group_id@ == rows[i].group_id@
                    && people[k].user_id@ == user_id@;
            let open = rows[i].used_at is None && before(now@, rows[i].expires_at@);
            &&& known && (inside || open) ==> r is Ok && r->Ok_0@ == rows[i].group_id@
            &&& known && inside ==> final(members)@ == people && final(invites)@ == rows
            &&& known && !inside && open ==> {
                &&& final(members)@.len() == people.len() + 1
                &&& final(members)@.take(people.len() as int) == people
                &&& final(members)@.last().group_id@ == rows[i].group_id@
                &&& final(members)@.last().user_id@ == user_id@
                &&& final(members)@.last().role@ == "member"@
                &&& final(invites)@[i].used_at is Some
                &&& final(invites)@[i].used_by is Some && final(invites)@[i].used_by->0@
                    == user_id@
            }
            &&& known && !inside && !open ==> r == Err::<String, Refusal>(Refusal::InviteNotFound)
                && final(members)@ == people
            &&& (forall|k: int|
                0 <= k < rows.len() ==> (#[trigger] rows[k]).token_hash@ != hash@) ==> r == Err::<
                String,
                Refusal,
            >(Refusal::InviteNotFound) && final(members)@ == people && final(invites)@ == rows
        }),
{
    let rows = old(invites)@;
    the_first_with_the_hash(rows, hash@);
    let at = invite_at(rows, hash@) as int;
    if 0 <= i < rows.len() && rows[i].token_hash@ == hash@ {
        if at < i {
            assert(rows[at].token_hash@ != rows[i].token_hash@);
        } else if i < at {
            assert(rows[i].token_hash@ != hash@);
        }
        assert(at == i);
    }
}

/// The owner removes anybody but themself; a member removes themself and nobody else; to a stranger
/// the group does not exist. A removal that finds nobody says so.
pub proof fn who_may_be_removed(
    standing: Option<String>,
    user_id: &str,
    target: &str,
    r: Result<(), Refusal>,
    rows: u64,
    done: Result<(), Refusal>,
)
    requires
        call_ensures(remove_member, (&standing, user_id, target), r),
        call_ensures(removed, (rows,), done),
    ensures
        standing is None ==> r == Err::<(), Refusal>(Refusal::GroupNotFound),
        standing matches Some(owner) ==> {
            &&& owner@ == user_id@ && target@ != user_id@ ==> r is Ok
            &&& owner@ == user_id@ && target@ == user_id@ ==> r == Err::<(), Refusal>(
                Refusal::OwnerStays,
            )
            &&& owner@ != user_id@ && target@ == user_id@ ==> r is Ok
            &&& owner@ != user_id@ && target@ != user_id@ ==> r == Err::<(), Refusal>(
                Refusal::OnlyThemself,
            )
        },
        done is Ok <==> rows > 0,
        done is Err ==> done->Err_0 == Refusal::MemberNotFound,
{
}

/// Rows of one group, one after the other, come to one group with all of them in it, in their order
/// and each under its own name; rows of two groups come to two.
pub proof fn rows_of_one_group_are_one_group(rows: Vec<GroupRow>, r: Vec<Group>, k: int)
    requires
        call_ensures(fold_groups, (&rows,), r),
        0 <= k < rows@.len(),
        forall|i: int| 0 <= i < rows@.len() ==> (#[trigger] rows@[i]).id@ == rows@[0].id@,
    ensures
        r@.len() == 1,
        r@[0].id@ == rows@[0].id@,
        r@[0].name == rows@[0].name,
        r@[0].owner_user_id == rows@[0].owner_user_id,
        r@[0].created_at == rows@[0].created_at,
        r@[0].members@.len() == rows@.len(),
        r@[0].members@[k].user_id == rows@[k].member_id,
        r@[0].members@[k].username == rows@[k].username,
        r@[0].members@[k].role == rows@[k].role,
        r@[0].members@[k].joined_at == rows@[k].joined_at,
{
    one_run_folds_to_one(rows@);
    assert(group_views(r@).len() == r@.len());
    assert(group_views(r@)[0] == group_view(r@[0]));
    assert(folded(rows@)[0].members[k] == member_of(rows@[k]));
}

proof fn one_run_folds_to_one(rows: Seq<GroupRow>)
    requires
        rows.len() > 0,
        forall|i: int| 0 <= i < rows.len() ==> (#[trigger] rows[i]).id@ == rows[0].id@,
    ensures
        folded(rows).len() == 1,
        folded(rows)[0].id == rows[0].id@,
        folded(rows)[0].name == rows[0].name,
        folded(rows)[0].owner_user_id == rows[0].owner_user_id,
        folded(rows)[0].created_at == rows[0].created_at,
        folded(rows)[0].members == Seq::new(rows.len(), |i: int| member_of(rows[i])),
    decreases rows.len(),
{
    let rest = rows.drop_last();
    if rest.len() == 0 {
        assert(folded(rest).len() == 0);
        assert(folded(rows)[0].members =~= Seq::new(rows.len(), |i: int| member_of(rows[i])));
    } else {
        assert forall|i: int| 0 <= i < rest.len() implies (#[trigger] rest[i]).id@ == rest[0].id@ by {
            assert(rest[i] == rows[i]);
        }
        one_run_folds_to_one(rest);
        assert(rows[rows.len() - 1].id@ == rows[0].id@);
        assert(rest[0] == rows[0]);
        assert(folded(rows)[0].members =~= Seq::new(rows.len(), |i: int| member_of(rows[i])));
    }
}

} // verus!
