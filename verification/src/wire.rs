//! What the server and its clients tell each other.

use vstd::prelude::*;

use crate::clock::Moment;

verus! {

/// Who hosts a shared save.
#[derive(Debug)]
pub struct Lease {
    pub save_id: String,
    pub holder_user_id: String,
    pub holder_username: String,
    pub holder_device_fp: Option<String>,
    pub acquired_at: Moment,
    pub renewed_at: Moment,
    pub base_version: i64,
    pub pushed_since: bool,
    pub live: bool,
}

/// News of a lease, for the owner and every member.
#[derive(Debug)]
pub struct LeaseEvent {
    pub save_id: String,
    pub holder_user_id: Option<String>,
    pub live: bool,
    pub pushed_since: bool,
}

/// One file of a version: its path and the hash of its content.
#[derive(Debug)]
pub struct FileEntry {
    pub path: String,
    pub sha: String,
}

/// One member of a group.
#[derive(Debug)]
pub struct GroupMember {
    pub user_id: String,
    pub username: String,
    pub role: String,
    pub joined_at: Moment,
}

/// A group: its owner and its members.
#[derive(Debug)]
pub struct Group {
    pub id: String,
    pub name: String,
    pub owner_user_id: String,
    pub created_at: Moment,
    pub members: Vec<GroupMember>,
}

/// The group a save is shared into, and what the share names.
#[derive(Debug)]
pub struct SharedInfo {
    pub group_id: String,
    pub group_name: String,
    pub owner_user_id: String,
    pub owner_username: String,
    pub includes: Vec<String>,
}

/// A save as its owner or a member sees it.
#[derive(Debug)]
pub struct Save {
    pub id: String,
    pub user_id: Option<String>,
    pub game_slug: String,
    pub label: String,
    pub local_path_hint: Option<String>,
    pub client_os: Option<String>,
    pub latest_version_num: Option<i64>,
    pub snapshot_count: Option<i64>,
    pub total_size_bytes: Option<i64>,
    pub created_at: Moment,
    pub updated_at: Moment,
    pub shared: Option<SharedInfo>,
}

/// A clone of an optional text.
pub fn clone_text(o: &Option<String>) -> (r: Option<String>)
    ensures
        r == *o,
{
    match o {
        Some(s) => Some(s.clone()),
        None => None,
    }
}

} // verus!
