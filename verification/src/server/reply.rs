//! Why the server refuses a request, and how it says so.

use vstd::prelude::*;

use crate::wire::Lease;

verus! {

/// A refused request.
#[derive(Debug)]
pub enum Refusal {
    /// The save does not exist, or the caller has no standing on it.
    SaveNotFound,
    /// The save does not exist, or is not the caller's own.
    NotYours,
    /// The group does not exist, or the caller is not in it.
    GroupNotFound,
    /// No invite opens with this token.
    InviteNotFound,
    /// The group has no such member.
    MemberNotFound,
    /// Only the save's owner shares and unshares it.
    NotSaveOwner,
    /// Only the group's owner may do this.
    NotGroupOwner,
    /// A member removes nobody but themself.
    OnlyThemself,
    /// The owner stays in their group.
    OwnerStays,
    /// A group dies only once nothing is shared into it.
    StillShared,
    /// The name of a group is empty or too long.
    GroupName,
    /// An invite has to live for some time.
    InviteTtlZero,
    /// An invite lives for a year at most.
    InviteTtlLong,
    /// The share's list does not hold.
    BadList(String),
    /// The save is shared already.
    AlreadyShared,
    /// The save is not shared.
    NotShared,
    /// The save moved between namespaces meanwhile.
    NamespaceChanged,
    /// A member hosts the save right now.
    LeaseHeld,
    /// Another member hosts the save.
    Held(Lease),
    /// The save moved past the caller's version.
    Stale { head_version: i64, base_version: i64 },
    /// The caller holds no live lease on the save.
    NotHolder,
    /// Nobody hosts the save.
    NotHeld,
    /// The host has pushed under the lease.
    Pushed(Lease),
    /// A shared save is pushed by its host, who is somebody else or nobody.
    LeaseRequired(Option<Lease>),
    /// The game is unknown.
    GameNotFound,
    /// The caller has a save with this game and label.
    SaveExists,
    /// The caller has a save with the new label.
    LabelTaken,
    /// The directory that the new label asks for is there already.
    DirectoryTaken,
    /// A shared save kept being shared while it was deleted. The status says it all.
    KeptMoving,
    /// Something failed that the caller learns nothing of.
    Internal,
}

/// The HTTP status of a refusal.
pub open spec fn status_of(r: Refusal) -> u16 {
    match r {
        Refusal::SaveNotFound
        | Refusal::NotYours
        | Refusal::GroupNotFound
        | Refusal::InviteNotFound
        | Refusal::MemberNotFound => 404,
        Refusal::NotSaveOwner | Refusal::NotGroupOwner | Refusal::OnlyThemself => 403,
        Refusal::GroupName
        | Refusal::InviteTtlZero
        | Refusal::InviteTtlLong
        | Refusal::BadList(_) => 400,
        Refusal::GameNotFound => 422,
        Refusal::Internal => 500,
        _ => 409,
    }
}

/// The machine-readable code of a refusal, where it has one.
pub open spec fn code_of(r: Refusal) -> Option<Seq<char>> {
    match r {
        Refusal::AlreadyShared => Some("already_shared"@),
        Refusal::NotShared => Some("not_shared"@),
        Refusal::LeaseHeld => Some("lease_held"@),
        Refusal::Held(_) => Some("held"@),
        Refusal::Stale { .. } => Some("stale"@),
        Refusal::NotHolder => Some("not_holder"@),
        Refusal::NotHeld => Some("not_held"@),
        Refusal::Pushed(_) => Some("pushed"@),
        Refusal::LeaseRequired(_) => Some("lease_required"@),
        _ => None,
    }
}

/// The sentence of a refusal.
pub open spec fn message_of(r: Refusal) -> Seq<char> {
    match r {
        Refusal::SaveNotFound => "save not found"@,
        Refusal::NotYours => "not found"@,
        Refusal::GroupNotFound => "group not found"@,
        Refusal::InviteNotFound => "invite not found"@,
        Refusal::MemberNotFound => "member not found"@,
        Refusal::NotSaveOwner => "only the save owner can share or unshare it"@,
        Refusal::NotGroupOwner => "only the group owner can do that"@,
        Refusal::OnlyThemself => "a member can only remove themself"@,
        Refusal::OwnerStays => "the owner cannot leave their own group"@,
        Refusal::StillShared => "unshare every save before deleting the group"@,
        Refusal::GroupName => "group name must be 1 to 64 characters"@,
        Refusal::InviteTtlZero => "expires_in_secs must be positive"@,
        Refusal::InviteTtlLong => "expires_in_secs must be at most one year"@,
        Refusal::BadList(why) => why@,
        Refusal::AlreadyShared => "the save is already shared"@,
        Refusal::NotShared => "the save is not shared"@,
        Refusal::NamespaceChanged => "the save moved meanwhile"@,
        Refusal::LeaseHeld => "a member is hosting this save right now"@,
        Refusal::Held(_) => "another member is hosting this save"@,
        Refusal::Stale { .. } => "the save moved past your version: pull before hosting"@,
        Refusal::NotHolder => "you do not hold a live lease on this save"@,
        Refusal::NotHeld => "nobody is hosting this save"@,
        Refusal::Pushed(_) => "the host has pushed under this lease; it ends when they release it"@,
        Refusal::LeaseRequired(Some(_)) => "another member is hosting this save"@,
        Refusal::LeaseRequired(None) =>
            "a shared save is pushed by its host: acquire the lease first"@,
        Refusal::GameNotFound => "game not found"@,
        Refusal::SaveExists => "save with this game and label already exists"@,
        Refusal::LabelTaken => "label collision"@,
        Refusal::DirectoryTaken => "target directory already exists"@,
        Refusal::KeptMoving => ""@,
        Refusal::Internal => "internal server error"@,
    }
}

impl Refusal {
    /// The HTTP status.
    pub fn status(&self) -> (r: u16)
        ensures
            r == status_of(*self),
    {
        match self {
            Refusal::SaveNotFound
            | Refusal::NotYours
            | Refusal::GroupNotFound
            | Refusal::InviteNotFound
            | Refusal::MemberNotFound => 404,
            Refusal::NotSaveOwner | Refusal::NotGroupOwner | Refusal::OnlyThemself => 403,
            Refusal::GroupName
            | Refusal::InviteTtlZero
            | Refusal::InviteTtlLong
            | Refusal::BadList(_) => 400,
            Refusal::GameNotFound => 422,
            Refusal::Internal => 500,
            _ => 409,
        }
    }

    /// The machine-readable code.
    pub fn code(&self) -> (r: Option<&'static str>)
        ensures
            r is Some == code_of(*self) is Some,
            r matches Some(c) ==> code_of(*self) == Some(c@),
    {
        match self {
            Refusal::AlreadyShared => Some("already_shared"),
            Refusal::NotShared => Some("not_shared"),
            Refusal::LeaseHeld => Some("lease_held"),
            Refusal::Held(_) => Some("held"),
            Refusal::Stale { .. } => Some("stale"),
            Refusal::NotHolder => Some("not_holder"),
            Refusal::NotHeld => Some("not_held"),
            Refusal::Pushed(_) => Some("pushed"),
            Refusal::LeaseRequired(_) => Some("lease_required"),
            _ => None,
        }
    }

    /// The sentence.
    pub fn message(&self) -> (r: String)
        ensures
            r@ == message_of(*self),
    {
        match self {
            Refusal::SaveNotFound => "save not found".to_owned(),
            Refusal::NotYours => "not found".to_owned(),
            Refusal::GroupNotFound => "group not found".to_owned(),
            Refusal::InviteNotFound => "invite not found".to_owned(),
            Refusal::MemberNotFound => "member not found".to_owned(),
            Refusal::NotSaveOwner => "only the save owner can share or unshare it".to_owned(),
            Refusal::NotGroupOwner => "only the group owner can do that".to_owned(),
            Refusal::OnlyThemself => "a member can only remove themself".to_owned(),
            Refusal::OwnerStays => "the owner cannot leave their own group".to_owned(),
            Refusal::StillShared => "unshare every save before deleting the group".to_owned(),
            Refusal::GroupName => "group name must be 1 to 64 characters".to_owned(),
            Refusal::InviteTtlZero => "expires_in_secs must be positive".to_owned(),
            Refusal::InviteTtlLong => "expires_in_secs must be at most one year".to_owned(),
            Refusal::BadList(why) => why.clone(),
            Refusal::AlreadyShared => "the save is already shared".to_owned(),
            Refusal::NotShared => "the save is not shared".to_owned(),
            Refusal::NamespaceChanged => "the save moved meanwhile".to_owned(),
            Refusal::LeaseHeld => "a member is hosting this save right now".to_owned(),
            Refusal::Held(_) => "another member is hosting this save".to_owned(),
            Refusal::Stale { .. } =>
                "the save moved past your version: pull before hosting".to_owned(),
            Refusal::NotHolder => "you do not hold a live lease on this save".to_owned(),
            Refusal::NotHeld => "nobody is hosting this save".to_owned(),
            Refusal::Pushed(_) =>
                "the host has pushed under this lease; it ends when they release it".to_owned(),
            Refusal::LeaseRequired(Some(_)) => "another member is hosting this save".to_owned(),
            Refusal::LeaseRequired(None) =>
                "a shared save is pushed by its host: acquire the lease first".to_owned(),
            Refusal::GameNotFound => "game not found".to_owned(),
            Refusal::SaveExists => "save with this game and label already exists".to_owned(),
            Refusal::LabelTaken => "label collision".to_owned(),
            Refusal::DirectoryTaken => "target directory already exists".to_owned(),
            Refusal::KeptMoving => "".to_owned(),
            Refusal::Internal => "internal server error".to_owned(),
        }
    }
}

// ---- laws

/// The status of every refusal. What is not there, or not for the caller to know of, is not found;
/// what only an owner may do is forbidden; what was asked wrongly is a bad request; a game that
/// nobody named is unprocessable; a failure of the server's own says so; everything else is a
/// conflict with how things stand.
pub proof fn each_refusal_has_its_status(r: Refusal, status: u16)
    requires
        call_ensures(Refusal::status, (&r,), status),
    ensures
        status == 404 <==> r is SaveNotFound || r is NotYours || r is GroupNotFound
            || r is InviteNotFound || r is MemberNotFound,
        status == 403 <==> r is NotSaveOwner || r is NotGroupOwner || r is OnlyThemself,
        status == 400 <==> r is GroupName || r is InviteTtlZero || r is InviteTtlLong
            || r is BadList,
        status == 422 <==> r is GameNotFound,
        status == 500 <==> r is Internal,
        status == 409 <==> r is OwnerStays || r is StillShared || r is AlreadyShared
            || r is NotShared || r is NamespaceChanged || r is LeaseHeld || r is Held || r is Stale
            || r is NotHolder || r is NotHeld || r is Pushed || r is LeaseRequired
            || r is SaveExists || r is LabelTaken || r is DirectoryTaken || r is KeptMoving,
{
}

/// The code that a client tells a refusal by, where it has one: each of its own, all of them on
/// conflicts, and the sentence beside it.
pub proof fn each_code_is_one_refusals(r: Refusal, code: Option<&'static str>, status: u16)
    requires
        call_ensures(Refusal::code, (&r,), code),
        call_ensures(Refusal::status, (&r,), status),
    ensures
        r is AlreadyShared ==> code is Some && code->0@ == "already_shared"@,
        r is NotShared ==> code is Some && code->0@ == "not_shared"@,
        r is LeaseHeld ==> code is Some && code->0@ == "lease_held"@,
        r is Held ==> code is Some && code->0@ == "held"@,
        r is Stale ==> code is Some && code->0@ == "stale"@,
        r is NotHolder ==> code is Some && code->0@ == "not_holder"@,
        r is NotHeld ==> code is Some && code->0@ == "not_held"@,
        r is Pushed ==> code is Some && code->0@ == "pushed"@,
        r is LeaseRequired ==> code is Some && code->0@ == "lease_required"@,
        code is Some ==> status == 409,
        code is Some <==> r is AlreadyShared || r is NotShared || r is LeaseHeld || r is Held
            || r is Stale || r is NotHolder || r is NotHeld || r is Pushed || r is LeaseRequired,
{
}

/// The sentence of every refusal.
pub proof fn each_refusal_says_why(r: Refusal, m: String)
    requires
        call_ensures(Refusal::message, (&r,), m),
    ensures
        r is SaveNotFound ==> m@ == "save not found"@,
        r is NotYours ==> m@ == "not found"@,
        r is GroupNotFound ==> m@ == "group not found"@,
        r is InviteNotFound ==> m@ == "invite not found"@,
        r is MemberNotFound ==> m@ == "member not found"@,
        r is NotSaveOwner ==> m@ == "only the save owner can share or unshare it"@,
        r is NotGroupOwner ==> m@ == "only the group owner can do that"@,
        r is OnlyThemself ==> m@ == "a member can only remove themself"@,
        r is OwnerStays ==> m@ == "the owner cannot leave their own group"@,
        r is StillShared ==> m@ == "unshare every save before deleting the group"@,
        r is GroupName ==> m@ == "group name must be 1 to 64 characters"@,
        r is InviteTtlZero ==> m@ == "expires_in_secs must be positive"@,
        r is InviteTtlLong ==> m@ == "expires_in_secs must be at most one year"@,
        r matches Refusal::BadList(why) ==> m@ == why@,
        r is AlreadyShared ==> m@ == "the save is already shared"@,
        r is NotShared ==> m@ == "the save is not shared"@,
        r is NamespaceChanged ==> m@ == "the save moved meanwhile"@,
        r is LeaseHeld ==> m@ == "a member is hosting this save right now"@,
        r is Held ==> m@ == "another member is hosting this save"@,
        r is Stale ==> m@ == "the save moved past your version: pull before hosting"@,
        r is NotHolder ==> m@ == "you do not hold a live lease on this save"@,
        r is NotHeld ==> m@ == "nobody is hosting this save"@,
        r is Pushed ==> m@
            == "the host has pushed under this lease; it ends when they release it"@,
        r matches Refusal::LeaseRequired(Some(_)) ==> m@ == "another member is hosting this save"@,
        r matches Refusal::LeaseRequired(None) ==> m@
            == "a shared save is pushed by its host: acquire the lease first"@,
        r is GameNotFound ==> m@ == "game not found"@,
        r is SaveExists ==> m@ == "save with this game and label already exists"@,
        r is LabelTaken ==> m@ == "label collision"@,
        r is DirectoryTaken ==> m@ == "target directory already exists"@,
        r is KeptMoving ==> m@ == ""@,
        r is Internal ==> m@ == "internal server error"@,
{
}

} // verus!
