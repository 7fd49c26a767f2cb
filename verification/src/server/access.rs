//! Who may touch a save: its owner, or a member of the group it is shared into.
//!
//! A stranger gets what an unknown id gets, so existence does not leak.

use vstd::prelude::*;

use crate::text::same;

verus! {

/// The caller's standing on a save.
#[derive(Debug, Clone, Copy, PartialEq, Eq, Structural)]
pub enum Role {
    /// The save is the caller's own.
    Owner,
    /// The caller belongs to the group the save is shared into.
    Member,
}

/// What a caller may do with a save.
#[derive(Debug)]
pub struct SaveAccess {
    pub game_slug: String,
    pub label: String,
    pub owner_user_id: String,
    pub role: Role,
    /// The group the save is shared into, if any. Set for the owner too.
    pub group_id: Option<String>,
}

/// A save as it is stored, and whether the caller is in the group it is shared into.
#[derive(Debug)]
pub struct SaveStanding {
    pub game_slug: String,
    pub label: String,
    pub owner_user_id: String,
    pub group_id: Option<String>,
    pub caller_in_group: bool,
}

/// Has the caller any standing on the save?
pub open spec fn has_access(save: SaveStanding, user_id: Seq<char>) -> bool {
    save.owner_user_id@ == user_id || (save.group_id is Some && save.caller_in_group)
}

/// The caller's access to the save; `None` for a stranger and for a save that is not there.
pub fn save_access(save: Option<SaveStanding>, user_id: &str) -> (r: Option<SaveAccess>)
    ensures
        r is Some == (save is Some && has_access(save->0, user_id@)),
        r matches Some(a) ==> {
            &&& a.game_slug == save->0.game_slug
            &&& a.label == save->0.label
            &&& a.owner_user_id == save->0.owner_user_id
            &&& a.group_id == save->0.group_id
            &&& a.role == (if save->0.owner_user_id@ == user_id@ {
                Role::Owner
            } else {
                Role::Member
            })
        },
{
    match save {
        None => None,
        Some(s) => {
            let owner = same(s.owner_user_id.as_str(), user_id);
            if !owner && !(s.group_id.is_some() && s.caller_in_group) {
                return None;
            }
            Some(
                SaveAccess {
                    game_slug: s.game_slug,
                    label: s.label,
                    owner_user_id: s.owner_user_id,
                    role: if owner {
                        Role::Owner
                    } else {
                        Role::Member
                    },
                    group_id: s.group_id,
                },
            )
        },
    }
}

/// What of the save the caller may read, as a list of patterns: empty for the whole save. The
/// owner reads everything; a member reads what the share names, on every version.
pub fn read_include(access: &SaveAccess, stored: Vec<String>) -> (r: Vec<String>)
    ensures
        access.role == Role::Owner ==> r@.len() == 0,
        access.role == Role::Member ==> r == stored,
{
    if access.role == Role::Owner {
        Vec::new()
    } else {
        stored
    }
}

/// A member of a save's group reads it only while it is shared: on a private save the owner
/// alone has access.
pub proof fn a_private_save_is_its_owners_alone(save: SaveStanding, user_id: Seq<char>)
    requires
        save.group_id is None,
    ensures
        has_access(save, user_id) == (save.owner_user_id@ == user_id),
{
}

/// Who has access to a save, and as what: its owner as the owner, whether it is shared or not; a
/// member of the group it is shared into as a member; nobody else, and nobody to a save that is not
/// there. The access names the save's own game, label, owner and group.
pub proof fn access_is_the_owners_and_the_members(
    save: Option<SaveStanding>,
    user_id: &str,
    r: Option<SaveAccess>,
)
    requires
        call_ensures(save_access, (save, user_id), r),
    ensures
        save is None ==> r is None,
        save matches Some(s) ==> {
            let owns = s.owner_user_id@ == user_id@;
            let belongs = s.group_id is Some && s.caller_in_group;
            &&& r is Some <==> owns || belongs
            &&& owns ==> r->0.role == Role::Owner
            &&& r is Some && !owns ==> r->0.role == Role::Member
            &&& r is Some ==> r->0.game_slug@ == s.game_slug@ && r->0.label@ == s.label@
                && r->0.owner_user_id@ == s.owner_user_id@ && r->0.group_id == s.group_id
        },
{
}

/// The owner reads the whole save, a member what the share's list names.
pub proof fn what_may_be_read(access: SaveAccess, stored: Vec<String>, r: Vec<String>)
    requires
        call_ensures(read_include, (&access, stored), r),
    ensures
        access.role == Role::Owner ==> r@.len() == 0,
        access.role == Role::Member ==> r@ == stored@,
{
}

} // verus!
