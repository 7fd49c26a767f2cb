//! Who plays a shared world this session, decided without asking twice.
//!
//! A game with shared worlds starts and the agent asks once: which world, hosting or viewing.
//! Then it waits for one of four things. The answer. A minute with no answer while the game has
//! exactly one shared world whose lease is free, after which it hosts on its own. A write to a
//! world nobody claimed, which takes the lease if it is free: evidence beats a prompt. Or the
//! game closing. A viewer's writes, and a host's under somebody else's lease, never push: on close
//! they go to a side copy and the folder goes back to the shared head. A host's lease is given
//! back once its final flush is up.

use vstd::prelude::*;

use crate::agent::slot::{
    AgentEvent, LeaseCmd, LeaseObs, Outbox, SaveSlot, SlotState, WatchedSave, WorldLease,
    WorldRole, WorldSession,
};
#[allow(unused_imports)]
use crate::agent::slot::{at, new_session, sent};
use crate::clock::is_within;
#[allow(unused_imports)]
use crate::clock::whole_seconds;
#[allow(unused_imports)]
use crate::fileclass::{named_by, reached_by};
use crate::fileclass::{included, reaches_beneath};
use crate::text::chars_of;
#[allow(unused_imports)]
use crate::text::views;

verus! {

/// How long an unanswered prompt waits before the one free world is hosted, in seconds.
pub const AUTO_HOST_DELAY_SECS: u64 = 60;

/// The same in nanoseconds.
pub const AUTO_HOST_DELAY: u64 = 60_000_000_000;

/// How long after a side copy lands its renames may still reach the watcher, in nanoseconds.
pub const SIDE_COPY_TAIL: u64 = 10_000_000_000;

/// A lease as a prompt shows it.
pub open spec fn shown(obs: LeaseObs) -> WorldLease {
    match obs {
        LeaseObs::Unknown => WorldLease::Unknown,
        LeaseObs::Free => WorldLease::Free,
        LeaseObs::Mine => WorldLease::Mine,
        LeaseObs::Other => WorldLease::Other,
    }
}

pub fn lease_for_prompt(obs: LeaseObs) -> (r: WorldLease)
    ensures
        r == shown(obs),
{
    match obs {
        LeaseObs::Unknown => WorldLease::Unknown,
        LeaseObs::Free => WorldLease::Free,
        LeaseObs::Mine => WorldLease::Mine,
        LeaseObs::Other => WorldLease::Other,
    }
}

// ---- what a slot's state amounts to

/// Is a session live?
pub open spec fn has_live_session(s: SlotState) -> bool {
    s.session is Some && s.session->0.is_live()
}

/// Is a side copy of the last session still on its way?
pub open spec fn landing(s: SlotState) -> bool {
    s.session is Some && !s.session->0.is_live() && s.session->0.side_copy_started
}

/// Does the caller own a share of part of this folder, and walk all of it?
pub open spec fn owns_whole(save: WatchedSave) -> bool {
    save.shared is Some && save.shared->0.caller_owns && save.includes@.len() == 0
        && save.shared->0.includes@.len() > 0
}

/// The state once the session is over: the role goes with it, unless writes that must stay local
/// keep the slot a viewer.
pub open spec fn session_over(s: SlotState) -> SlotState {
    SlotState {
        session: None,
        role: if s.local_only_pending {
            WorldRole::View
        } else {
            WorldRole::Host
        },
        ..s
    }
}

/// The state once the session is over with its local-only writes still in the folder.
pub open spec fn session_over_local_only(s: SlotState) -> SlotState {
    session_over(SlotState { local_only_pending: true, ..s })
}

pub(crate) fn end_session(s: SlotState) -> (r: SlotState)
    ensures
        r == session_over(s),
{
    SlotState {
        session: None,
        role: if s.local_only_pending {
            WorldRole::View
        } else {
            WorldRole::Host
        },
        ..s
    }
}

pub(crate) fn end_session_local_only(s: SlotState) -> (r: SlotState)
    ensures
        r == session_over_local_only(s),
{
    end_session(SlotState { local_only_pending: true, ..s })
}

// ---- asking for the lease and giving it back

/// The state after the lease was asked for. Behind the head it is not: the answer is known.
pub open spec fn asked(s: SlotState, attached: bool) -> SlotState {
    if attached && s.stale_base is None {
        SlotState { lease_requested: true, release_requested: false, ..s }
    } else {
        s
    }
}

/// What asking for the lease sends.
pub open spec fn ask_cmds(save: WatchedSave, s: SlotState, attached: bool) -> Seq<LeaseCmd> {
    if attached && s.stale_base is None {
        seq![
            LeaseCmd::Acquire {
                save_id: save.save_id,
                base_version: match s.known_version {
                    Some(v) => v,
                    None => 0,
                },
            },
        ]
    } else {
        Seq::empty()
    }
}

/// Asks for the lease. The verdict clears `lease_requested`; a release asked for before is
/// overtaken. Not behind the head: the answer is known, and the pull asks again.
pub fn request_acquire(slot: &mut SaveSlot, out: &mut Outbox)
    ensures
        *final(slot) == at(*old(slot), asked(old(slot).state, old(out).attached)),
        sent(
            *old(out),
            *final(out),
            ask_cmds(old(slot).save, old(slot).state, old(out).attached),
            Seq::empty(),
        ),
{
    let s = slot.state;
    if !out.attached || s.stale_base.is_some() {
        return;
    }
    let base: i64 = match s.known_version {
        Some(v) => v,
        None => 0,
    };
    out.send(LeaseCmd::Acquire { save_id: slot.save.save_id.clone(), base_version: base });
    slot.state = SlotState { lease_requested: true, release_requested: false, ..s };
}

/// The state once the lease is not wanted any more.
pub open spec fn given_back(s: SlotState, attached: bool, release: bool) -> SlotState {
    if attached {
        SlotState {
            lease_requested: false,
            release_requested: s.release_requested || s.lease_requested || release,
            ..s
        }
    } else {
        s
    }
}

/// What giving the lease back sends.
pub open spec fn give_back_cmds(
    save: WatchedSave,
    s: SlotState,
    attached: bool,
    release: bool,
) -> Seq<LeaseCmd> {
    if !attached {
        Seq::empty()
    } else if s.lease_requested && release {
        seq![
            LeaseCmd::Cancel { save_id: save.save_id },
            LeaseCmd::Release { save_id: save.save_id },
        ]
    } else if s.lease_requested {
        seq![LeaseCmd::Cancel { save_id: save.save_id }]
    } else if release {
        seq![LeaseCmd::Release { save_id: save.save_id }]
    } else {
        Seq::empty()
    }
}

/// Stops wanting the lease: an acquire still out is cancelled, and with `release` the lease is
/// given back. What comes back is then asked for, not lost.
pub(crate) fn give_back(slot: &mut SaveSlot, out: &mut Outbox, release: bool)
    ensures
        *final(slot) == at(*old(slot), given_back(old(slot).state, old(out).attached, release)),
        sent(
            *old(out),
            *final(out),
            give_back_cmds(old(slot).save, old(slot).state, old(out).attached, release),
            Seq::empty(),
        ),
{
    if !out.attached {
        return;
    }
    let s = slot.state;
    if s.lease_requested {
        out.send(LeaseCmd::Cancel { save_id: slot.save.save_id.clone() });
    }
    if release {
        out.send(LeaseCmd::Release { save_id: slot.save.save_id.clone() });
    }
    slot.state = SlotState {
        lease_requested: false,
        release_requested: s.release_requested || s.lease_requested || release,
        ..s
    };
}

/// The session with a role taken.
pub open spec fn claimed_session(w: WorldSession) -> WorldSession {
    WorldSession { claimed: true, auto_host_deadline: None, ..w }
}

/// The state with a role taken in the session, if there is one.
pub open spec fn claimed(s: SlotState) -> SlotState {
    SlotState {
        session: match s.session {
            Some(w) => Some(claimed_session(w)),
            None => None,
        },
        ..s
    }
}

/// A role was taken this session, by the user or by force.
pub fn on_claim(slot: &mut SaveSlot)
    ensures
        *final(slot) == at(*old(slot), claimed(old(slot).state)),
{
    let s = slot.state;
    if let Some(w) = s.session {
        slot.state = SlotState {
            session: Some(WorldSession { claimed: true, auto_host_deadline: None, ..w }),
            ..s
        };
    }
}

/// The state with a role chosen: pinned for the next session when there is none.
pub open spec fn chosen(s: SlotState, role: WorldRole) -> SlotState {
    claimed(SlotState { role, role_pinned: s.session is None, ..s })
}

fn choose_role(slot: &mut SaveSlot, role: WorldRole)
    ensures
        *final(slot) == at(*old(slot), chosen(old(slot).state, role)),
{
    let s = slot.state;
    slot.state = SlotState { role, role_pinned: s.session.is_none(), ..s };
    on_claim(slot);
}

/// The state after the user's answer.
pub open spec fn answered(s: SlotState, role: WorldRole, attached: bool) -> SlotState {
    let t = chosen(s, role);
    match role {
        WorldRole::Host => asked(t, attached),
        WorldRole::View => given_back(t, attached, t.lease == LeaseObs::Mine),
    }
}

/// What the user's answer sends.
pub open spec fn answer_cmds(
    save: WatchedSave,
    s: SlotState,
    role: WorldRole,
    attached: bool,
) -> Seq<LeaseCmd> {
    let t = chosen(s, role);
    match role {
        WorldRole::Host => ask_cmds(save, t, attached),
        WorldRole::View => give_back_cmds(save, t, attached, t.lease == LeaseObs::Mine),
    }
}

/// The user answered. `Host` asks for the lease; `View` on a lease this machine still holds gives
/// it back, and with an acquire still out cancels it. An answer with no session at all is kept
/// for the next one.
pub fn on_claim_world(slot: &mut SaveSlot, role: WorldRole, out: &mut Outbox)
    ensures
        *final(slot) == at(*old(slot), answered(old(slot).state, role, old(out).attached)),
        sent(
            *old(out),
            *final(out),
            answer_cmds(old(slot).save, old(slot).state, role, old(out).attached),
            seq![
                AgentEvent::WorldClaimed {
                    save_id: old(slot).save.save_id,
                    game_slug: old(slot).save.game_slug,
                    role,
                    by_agent: false,
                },
            ],
        ),
{
    choose_role(slot, role);
    match role {
        WorldRole::Host => request_acquire(slot, out),
        WorldRole::View => {
            let holds = slot.state.lease == LeaseObs::Mine;
            give_back(slot, out, holds);
        },
    }
    out.tell(
        AgentEvent::WorldClaimed {
            save_id: slot.save.save_id.clone(),
            game_slug: slot.save.game_slug.clone(),
            role,
            by_agent: false,
        },
    );
}

/// What taking a lease off its holder sends.
pub open spec fn force_cmds(save: WatchedSave, s: SlotState, attached: bool) -> Seq<LeaseCmd> {
    if attached {
        seq![LeaseCmd::Force { save_id: save.save_id }] + ask_cmds(
            save,
            chosen(s, WorldRole::Host),
            true,
        )
    } else {
        Seq::empty()
    }
}

/// The lease is taken off its holder and asked for here, as a host.
pub fn on_force_world(slot: &mut SaveSlot, out: &mut Outbox)
    ensures
        *final(slot) == at(
            *old(slot),
            answered(old(slot).state, WorldRole::Host, old(out).attached),
        ),
        sent(
            *old(out),
            *final(out),
            force_cmds(old(slot).save, old(slot).state, old(out).attached),
            Seq::empty(),
        ),
{
    choose_role(slot, WorldRole::Host);
    out.send(LeaseCmd::Force { save_id: slot.save.save_id.clone() });
    request_acquire(slot, out);
}

/// The news that a world was given back.
pub open spec fn released_event(save: WatchedSave) -> AgentEvent {
    AgentEvent::WorldReleased { save_id: save.save_id, game_slug: save.game_slug }
}

pub(crate) fn tell_released(slot: &SaveSlot, out: &mut Outbox)
    ensures
        sent(*old(out), *final(out), Seq::empty(), seq![released_event(slot.save)]),
{
    out.tell(
        AgentEvent::WorldReleased {
            save_id: slot.save.save_id.clone(),
            game_slug: slot.save.game_slug.clone(),
        },
    );
}

/// The state with the role no longer kept for the next session.
pub open spec fn unpinned(s: SlotState) -> SlotState {
    SlotState { role_pinned: false, ..s }
}

/// The user gave the world back: the lease goes, an acquire still out is cancelled, and a role
/// pinned for the next launch goes with it.
pub fn on_release_world(slot: &mut SaveSlot, out: &mut Outbox)
    ensures
        *final(slot) == at(
            *old(slot),
            given_back(unpinned(old(slot).state), old(out).attached, true),
        ),
        sent(
            *old(out),
            *final(out),
            give_back_cmds(old(slot).save, old(slot).state, old(out).attached, true),
            seq![released_event(old(slot).save)],
        ),
{
    let s = slot.state;
    slot.state = SlotState { role_pinned: false, ..s };
    give_back(slot, out, true);
    tell_released(slot, out);
}

/// Did an acquire land that nobody wants any more: on a viewer's slot, or on one that asked to
/// give the lease back meanwhile?
pub open spec fn unwanted(s: SlotState, obs: LeaseObs, verdict: bool) -> bool {
    obs == LeaseObs::Mine && verdict && (s.role == WorldRole::View || s.release_requested)
}

/// The state after the server's word on the lease.
pub open spec fn told_lease(
    s: SlotState,
    obs: LeaseObs,
    verdict: bool,
    attached: bool,
) -> SlotState {
    let u = unwanted(s, obs, verdict);
    SlotState {
        lease: if u {
            LeaseObs::Unknown
        } else {
            obs
        },
        stale_base: if !u && obs == LeaseObs::Mine {
            None
        } else {
            s.stale_base
        },
        release_requested: obs == LeaseObs::Mine && (s.release_requested || (u && attached)),
        lease_requested: s.lease_requested && !verdict,
        hosted_elsewhere_notified: s.hosted_elsewhere_notified && obs == LeaseObs::Other,
        ..s
    }
}

/// Is a lease that this machine held gone, with nobody here having given it back?
pub open spec fn lost(s: SlotState, obs: LeaseObs) -> bool {
    s.lease == LeaseObs::Mine && obs != LeaseObs::Mine && !s.release_requested
}

/// What the server's word on the lease sends.
pub open spec fn lease_cmds(
    save: WatchedSave,
    s: SlotState,
    obs: LeaseObs,
    verdict: bool,
    attached: bool,
) -> Seq<LeaseCmd> {
    if unwanted(s, obs, verdict) && attached {
        seq![LeaseCmd::Release { save_id: save.save_id }]
    } else {
        Seq::empty()
    }
}

/// What the server's word on the lease tells.
pub open spec fn lease_events(
    save: WatchedSave,
    s: SlotState,
    obs: LeaseObs,
    holder: Option<String>,
) -> Seq<AgentEvent> {
    if lost(s, obs) {
        seq![
            AgentEvent::WorldLeaseLost {
                save_id: save.save_id,
                game_slug: save.game_slug,
                holder,
            },
        ]
    } else {
        Seq::empty()
    }
}

/// The server's word on the lease. A `verdict` answers an acquire and clears `lease_requested`;
/// an observation leaves the flag to the answer still owed. A `Mine` verdict that nobody wants any
/// more is released at once and never read as ours.
pub fn on_lease(
    slot: &mut SaveSlot,
    obs: LeaseObs,
    holder: Option<String>,
    verdict: bool,
    out: &mut Outbox,
)
    ensures
        final(slot).save == old(slot).save,
        final(slot).state == told_lease(old(slot).state, obs, verdict, old(out).attached),
        final(slot).lease_holder == (if unwanted(old(slot).state, obs, verdict) {
            None
        } else {
            holder
        }),
        sent(
            *old(out),
            *final(out),
            lease_cmds(old(slot).save, old(slot).state, obs, verdict, old(out).attached),
            lease_events(old(slot).save, old(slot).state, obs, holder),
        ),
{
    let s = slot.state;
    let unwanted = obs == LeaseObs::Mine && verdict && (s.role == WorldRole::View
        || s.release_requested);
    if unwanted {
        out.send(LeaseCmd::Release { save_id: slot.save.save_id.clone() });
    }
    if s.lease == LeaseObs::Mine && obs != LeaseObs::Mine && !s.release_requested {
        let holder = match &holder {
            Some(h) => Some(h.clone()),
            None => None,
        };
        out.tell(
            AgentEvent::WorldLeaseLost {
                save_id: slot.save.save_id.clone(),
                game_slug: slot.save.game_slug.clone(),
                holder,
            },
        );
    }
    // Held only for as long as the release takes: nothing pushes under it.
    slot.lease_holder = if unwanted {
        None
    } else {
        holder
    };
    slot.state = SlotState {
        lease: if unwanted {
            LeaseObs::Unknown
        } else {
            obs
        },
        stale_base: if !unwanted && obs == LeaseObs::Mine {
            None
        } else {
            s.stale_base
        },
        release_requested: obs == LeaseObs::Mine && (s.release_requested || (unwanted
            && out.attached)),
        lease_requested: s.lease_requested && !verdict,
        hosted_elsewhere_notified: s.hosted_elsewhere_notified && obs == LeaseObs::Other,
        ..s
    };
}

/// The acquire was refused as stale at `base`: the server's head is ahead of the folder. With no
/// write to the world pending the head comes down now.
pub fn on_stale(slot: &mut SaveSlot, base: i64, world_pending: bool)
    ensures
        *final(slot) == at(
            *old(slot),
            SlotState {
                stale_base: Some(base),
                pull_pending: old(slot).state.pull_pending || !world_pending,
                ..old(slot).state
            },
        ),
{
    let s = slot.state;
    slot.state = SlotState {
        stale_base: Some(base),
        pull_pending: s.pull_pending || !world_pending,
        ..s
    };
}

/// Has the pull after a stale refusal landed?
pub open spec fn caught_up(s: SlotState) -> bool {
    s.stale_base is Some && s.known_version is Some && s.known_version->0 > s.stale_base->0
}

/// Does a slot that caught up ask again? A host who claimed does, with nothing out and nothing
/// held.
pub open spec fn asks_again(s: SlotState) -> bool {
    &&& s.role == WorldRole::Host
    &&& s.role_pinned || (s.session is Some && s.session->0.claimed)
    &&& !s.lease_requested
    &&& s.lease != LeaseObs::Mine
}

/// The state after the pull landed.
pub open spec fn after_catch_up(s: SlotState, attached: bool) -> SlotState {
    if !caught_up(s) {
        s
    } else if asks_again(s) {
        asked(SlotState { stale_base: None, ..s }, attached)
    } else {
        SlotState { stale_base: None, ..s }
    }
}

/// What a slot that caught up sends.
pub open spec fn catch_up_cmds(save: WatchedSave, s: SlotState, attached: bool) -> Seq<LeaseCmd> {
    if caught_up(s) && asks_again(s) {
        ask_cmds(save, SlotState { stale_base: None, ..s }, attached)
    } else {
        Seq::empty()
    }
}

/// The pull after a stale refusal landed: a host who claimed asks again with the new head; anyone
/// else only stops being behind.
pub(crate) fn catch_up(slot: &mut SaveSlot, out: &mut Outbox)
    ensures
        *final(slot) == at(*old(slot), after_catch_up(old(slot).state, old(out).attached)),
        sent(
            *old(out),
            *final(out),
            catch_up_cmds(old(slot).save, old(slot).state, old(out).attached),
            Seq::empty(),
        ),
{
    let s = slot.state;
    let base: i64 = match s.stale_base {
        Some(b) => b,
        None => {
            return;
        },
    };
    let moved = match s.known_version {
        Some(v) => v > base,
        None => false,
    };
    if !moved {
        return;
    }
    slot.state = SlotState { stale_base: None, ..s };
    let claimed = s.role_pinned || match s.session {
        Some(w) => w.claimed,
        None => false,
    };
    if s.role == WorldRole::Host && claimed && !s.lease_requested && s.lease != LeaseObs::Mine {
        request_acquire(slot, out);
    }
}

/// Was the folder written within the grace, a number of seconds? A game that nothing sees may
/// still have it open.
pub open spec fn written_recently(s: SlotState, wall: int, grace: int) -> bool {
    s.last_fs_event_at is Some && whole_seconds(wall - s.last_fs_event_at->0) < grace
}

/// Are the slot's writes set aside before the head comes down? Behind the head, or under somebody
/// else's lease with writes that can never go up; with no session to own them, no game running,
/// nothing in flight, no copy that failed before, and the folder quiet.
pub open spec fn sets_aside(
    save: WatchedSave,
    s: SlotState,
    wall: int,
    grace: int,
    world_pending: bool,
) -> bool {
    &&& s.stale_base is Some || ((owns_whole(save) || s.world_held.held()) && s.lease
        == LeaseObs::Other)
    &&& s.session is None
    &&& s.has_pending
    &&& !s.is_running
    &&& !s.in_flight
    &&& !s.local_only_pending
    &&& s.lease != LeaseObs::Mine
    &&& world_pending
    &&& !written_recently(s, wall, grace)
}

/// The stopped session that a set-aside runs under.
pub open spec fn aside_session(now: u64, wall: i128) -> WorldSession {
    WorldSession { claimed: true, stopped: true, side_copy_started: true, ..new_session(now, wall) }
}

pub(crate) fn set_aside_behind(
    slot: &mut SaveSlot,
    now: u64,
    wall: i128,
    grace: i64,
    world_pending: bool,
) -> (r: bool)
    ensures
        r == sets_aside(
            old(slot).save,
            old(slot).state,
            wall as int,
            grace as int,
            world_pending,
        ),
        *final(slot) == (if r {
            at(
                *old(slot),
                SlotState { session: Some(aside_session(now, wall)), ..old(slot).state },
            )
        } else {
            *old(slot)
        }),
{
    let s = slot.state;
    let elsewhere = (owns_whole_folder(&slot.save) || s.world_held.active()) && s.lease
        == LeaseObs::Other;
    if (s.stale_base.is_none() && !elsewhere) || s.session.is_some() || !s.has_pending
        || s.is_running || s.in_flight || s.local_only_pending || s.lease == LeaseObs::Mine
        || !world_pending {
        return false;
    }
    let recent = match s.last_fs_event_at {
        Some(t) => is_within(wall, t, grace),
        None => false,
    };
    if recent {
        return false;
    }
    slot.state = SlotState {
        session: Some(
            WorldSession {
                claimed: true,
                stopped: true,
                side_copy_started: true,
                ..WorldSession::new(now, wall)
            },
        ),
        ..s
    };
    true
}

/// Does the caller own a share of part of this folder, and walk all of it?
pub(crate) fn owns_whole_folder(save: &WatchedSave) -> (r: bool)
    ensures
        r == owns_whole(*save),
{
    match &save.shared {
        Some(s) => s.caller_owns && save.includes.len() == 0 && s.includes.len() > 0,
        None => false,
    }
}

/// A shared world seated with no version on this machine is one just adopted: the touch that made
/// its folder is ours, so it does not hold the first pull back.
pub fn on_seated(slot: &mut SaveSlot, wall: i128)
    ensures
        *final(slot) == (if old(slot).save.shared is Some && old(slot).state.known_version is None {
            at(*old(slot), SlotState { last_restore_at: Some(wall), ..old(slot).state })
        } else {
            *old(slot)
        }),
{
    if slot.save.shared.is_some() && slot.state.known_version.is_none() {
        let s = slot.state;
        slot.state = SlotState { last_restore_at: Some(wall), ..s };
    }
}

/// The state once the service is stopping.
pub open spec fn stopping(s: SlotState) -> SlotState {
    SlotState {
        release_requested: s.release_requested || s.lease == LeaseObs::Mine || s.lease_requested,
        ..s
    }
}

/// The service is stopping and gives back every lease held here: the word that follows was asked
/// for.
pub fn on_stopping(slot: &mut SaveSlot)
    ensures
        *final(slot) == at(*old(slot), stopping(old(slot).state)),
{
    let s = slot.state;
    if s.lease == LeaseObs::Mine || s.lease_requested {
        slot.state = SlotState { release_requested: true, ..s };
    }
}

/// May a push that waits for the lease turn into an acquire? Only a host asks, once, with
/// something to push; not while a session is still being asked; never for writes that stay local;
/// and not behind the head.
pub open spec fn may_request(save: WatchedSave, s: SlotState) -> bool {
    &&& save.shared is Some
    &&& s.has_pending
    &&& s.role == WorldRole::Host
    &&& !s.lease_requested
    &&& !s.local_only_pending
    &&& s.stale_base is None
    &&& !(has_live_session(s) && !s.session->0.claimed)
}

pub fn may_request_lease(slot: &SaveSlot) -> (r: bool)
    ensures
        r == may_request(slot.save, slot.state),
{
    let s = slot.state;
    let being_asked = match s.session {
        Some(w) => w.live() && !w.claimed,
        None => false,
    };
    slot.save.shared.is_some() && s.has_pending && s.role == WorldRole::Host && !s.lease_requested
        && !s.local_only_pending && s.stale_base.is_none() && !being_asked
}

/// Is a watcher's hit the side copy's own touch: while it moves the world's files, or in the tail
/// once it landed?
pub open spec fn copys_own(s: SlotState, now: int) -> bool {
    landing(s) || (s.session is None && s.side_copy_landed_at is Some && now
        - s.side_copy_landed_at->0 < SIDE_COPY_TAIL)
}

pub fn hit_is_side_copy(slot: &SaveSlot, now: u64) -> (r: bool)
    ensures
        r == copys_own(slot.state, now as int),
{
    match slot.state.session {
        Some(w) => !w.live() && w.side_copy_started,
        None => match slot.state.side_copy_landed_at {
            Some(at) => now < at || now - at < SIDE_COPY_TAIL,
            None => false,
        },
    }
}

/// Is a side copy of the last session still on its way?
pub(crate) fn copy_on_its_way(slot: &SaveSlot) -> (r: bool)
    ensures
        r == landing(slot.state),
{
    match slot.state.session {
        Some(w) => !w.live() && w.side_copy_started,
        None => false,
    }
}

/// The state once the user answered "not playing".
pub open spec fn dismissed(s: SlotState) -> SlotState {
    SlotState {
        session: match s.session {
            Some(w) => Some(WorldSession { dismissed: true, auto_host_deadline: None, ..w }),
            None => None,
        },
        ..s
    }
}

/// The user answered "not playing".
pub fn on_dismiss(slot: &mut SaveSlot)
    ensures
        *final(slot) == at(*old(slot), dismissed(old(slot).state)),
{
    let s = slot.state;
    if let Some(w) = s.session {
        slot.state = SlotState {
            session: Some(WorldSession { dismissed: true, auto_host_deadline: None, ..w }),
            ..s
        };
    }
}

/// The state once the game stopped: the clock stops, and what is left is judged later.
pub open spec fn stopped(s: SlotState) -> SlotState {
    SlotState {
        relaunch_pending: false,
        session: match s.session {
            Some(w) => Some(WorldSession { stopped: true, auto_host_deadline: None, ..w }),
            None => None,
        },
        ..s
    }
}

/// The game stopped.
pub fn on_game_stopped(slot: &mut SaveSlot)
    ensures
        *final(slot) == at(*old(slot), stopped(old(slot).state)),
{
    let s = slot.state;
    slot.state = SlotState {
        relaunch_pending: false,
        session: match s.session {
            Some(w) => Some(WorldSession { stopped: true, auto_host_deadline: None, ..w }),
            None => None,
        },
        ..s
    };
}

// ---- writes

/// The news that the agent hosts on its own.
pub open spec fn auto_claim(save: WatchedSave) -> AgentEvent {
    AgentEvent::WorldClaimed {
        save_id: save.save_id,
        game_slug: save.game_slug,
        role: WorldRole::Host,
        by_agent: true,
    }
}

/// Hosts on the agent's own decision: the lease is asked for, and the user is told it was the
/// agent.
pub(crate) fn acquire_auto(slot: &mut SaveSlot, out: &mut Outbox)
    ensures
        *final(slot) == at(*old(slot), asked(old(slot).state, old(out).attached)),
        sent(
            *old(out),
            *final(out),
            ask_cmds(old(slot).save, old(slot).state, old(out).attached),
            seq![auto_claim(old(slot).save)],
        ),
{
    request_acquire(slot, out);
    out.tell(
        AgentEvent::WorldClaimed {
            save_id: slot.save.save_id.clone(),
            game_slug: slot.save.game_slug.clone(),
            role: WorldRole::Host,
            by_agent: true,
        },
    );
}

/// Does a write to the shared world count: a session is live on it?
pub open spec fn write_counts(save: WatchedSave, s: SlotState) -> bool {
    save.shared is Some && has_live_session(s)
}

/// Is a write that counts evidence of hosting the world: a free lease that nobody claimed?
pub open spec fn write_claims(s: SlotState) -> bool {
    s.role == WorldRole::Host && s.lease == LeaseObs::Free && !s.session->0.claimed
}

/// Is a viewer told of a write that counts? Of the second one, once.
pub open spec fn write_told(s: SlotState) -> bool {
    s.role == WorldRole::View && s.session->0.writes >= 1 && !s.session->0.view_writing_told
}

/// The state after a write that counts.
pub open spec fn wrote(s: SlotState, attached: bool) -> SlotState {
    let w = s.session->0;
    match s.role {
        WorldRole::View => SlotState {
            session: Some(
                WorldSession {
                    writes: if w.writes < u32::MAX {
                        (w.writes + 1) as u32
                    } else {
                        u32::MAX
                    },
                    view_writing_told: w.view_writing_told || w.writes >= 1,
                    ..w
                },
            ),
            ..s
        },
        WorldRole::Host => match s.lease {
            LeaseObs::Other => SlotState {
                session: Some(WorldSession { side_copy: true, ..w }),
                ..s
            },
            LeaseObs::Free => if w.claimed {
                s
            } else {
                asked(claimed(s), attached)
            },
            LeaseObs::Unknown => if w.claimed {
                s
            } else {
                SlotState { session: Some(WorldSession { wrote_unclaimed: true, ..w }), ..s }
            },
            LeaseObs::Mine => s,
        },
    }
}

/// What a write that counts sends.
pub open spec fn write_cmds(save: WatchedSave, s: SlotState, attached: bool) -> Seq<LeaseCmd> {
    if write_claims(s) {
        ask_cmds(save, s, attached)
    } else {
        Seq::empty()
    }
}

/// What a write that counts tells.
pub open spec fn write_events(save: WatchedSave, s: SlotState) -> Seq<AgentEvent> {
    if write_claims(s) {
        seq![auto_claim(save)]
    } else if write_told(s) {
        seq![
            AgentEvent::ViewSessionWriting { save_id: save.save_id, game_slug: save.game_slug },
        ]
    } else {
        Seq::empty()
    }
}

/// A write landed on the folder during a session: evidence. A host with no claim takes a free
/// lease now; under somebody else's lease the session goes local; a viewer's second write is told
/// once.
pub fn on_write(slot: &mut SaveSlot, out: &mut Outbox)
    ensures
        if write_counts(old(slot).save, old(slot).state) {
            &&& *final(slot) == at(*old(slot), wrote(old(slot).state, old(out).attached))
            &&& sent(
                *old(out),
                *final(out),
                write_cmds(old(slot).save, old(slot).state, old(out).attached),
                write_events(old(slot).save, old(slot).state),
            )
        } else {
            *final(slot) == *old(slot) && *final(out) == *old(out)
        },
{
    let s = slot.state;
    let w = match s.session {
        Some(w) => w,
        None => {
            return;
        },
    };
    if slot.save.shared.is_none() || !w.live() {
        return;
    }
    match s.role {
        WorldRole::View => {
            let writes: u32 = if w.writes < u32::MAX { w.writes + 1 } else { u32::MAX };
            let tell = writes >= 2 && !w.view_writing_told;
            slot.state = SlotState {
                session: Some(
                    WorldSession { writes, view_writing_told: w.view_writing_told || tell, ..w },
                ),
                ..s
            };
            if tell {
                out.tell(
                    AgentEvent::ViewSessionWriting {
                        save_id: slot.save.save_id.clone(),
                        game_slug: slot.save.game_slug.clone(),
                    },
                );
            }
        },
        WorldRole::Host => match s.lease {
            LeaseObs::Other => {
                slot.state = SlotState {
                    session: Some(WorldSession { side_copy: true, ..w }),
                    ..s
                };
            },
            LeaseObs::Free => {
                if !w.claimed {
                    on_claim(slot);
                    acquire_auto(slot, out);
                }
            },
            LeaseObs::Unknown => {
                if !w.claimed {
                    slot.state = SlotState {
                        session: Some(WorldSession { wrote_unclaimed: true, ..w }),
                        ..s
                    };
                }
            },
            LeaseObs::Mine => {},
        },
    }
}

/// A file that the watcher saw change: its path below the save's folder, empty where it has none,
/// and whether it is a file there now.
#[derive(Debug)]
pub struct Hit {
    pub rel: String,
    pub is_file: bool,
}

/// The path with `/` between its parts.
pub open spec fn slashed(s: Seq<char>) -> Seq<char> {
    Seq::new(
        s.len(),
        |i: int|
            if s[i] == '\\' {
                '/'
            } else {
                s[i]
            },
    )
}

fn to_slashes(s: &str) -> (r: String)
    ensures
        r@ == slashed(s@),
{
    let c = chars_of(s);
    let mut r = String::new();
    let mut i: usize = 0;
    while i < c.len()
        invariant
            i <= c.len(),
            r@ == slashed(c@).take(i as int),
        decreases c.len() - i,
    {
        r.push(if c[i] == '\\' { '/' } else { c[i] });
        i += 1;
        assert(r@ =~= slashed(c@).take(i as int));
    }
    assert(slashed(c@).take(c.len() as int) =~= slashed(s@));
    r
}

/// Does the hit touch the world: one of its files, a directory or a gone path that it can reach
/// into, or something that cannot be ruled out?
pub open spec fn touches(world: Seq<Seq<char>>, hit: Hit) -> bool {
    let rel = slashed(hit.rel@);
    rel.len() == 0 || named_by(world, rel) || (!hit.is_file && reached_by(world, rel))
}

/// Do the hits touch the world? None at all cannot rule it out.
pub open spec fn any_touches(world: Seq<Seq<char>>, hits: Seq<Hit>) -> bool {
    hits.len() == 0 || exists|i: int| 0 <= i < hits.len() && touches(world, #[trigger] hits[i])
}

/// What a save's share names.
pub open spec fn world_of(save: WatchedSave) -> Seq<Seq<char>> {
    match save.shared {
        Some(r) => views(r.includes@),
        None => Seq::empty(),
    }
}

fn hits_touch(save: &WatchedSave, hits: &Vec<Hit>) -> (r: bool)
    ensures
        r == any_touches(world_of(*save), hits@),
{
    if hits.len() == 0 {
        return true;
    }
    let none: Vec<String> = Vec::new();
    let world: &[String] = match &save.shared {
        Some(s) => s.includes.as_slice(),
        None => none.as_slice(),
    };
    assert(views(world@) =~= world_of(*save));
    let mut i: usize = 0;
    while i < hits.len()
        invariant
            i <= hits.len(),
            views(world@) == world_of(*save),
            forall|k: int| 0 <= k < i ==> !touches(world_of(*save), #[trigger] hits@[k]),
        decreases hits.len() - i,
    {
        let rel = to_slashes(hits[i].rel.as_str());
        let rel = rel.as_str();
        if rel.is_empty() || included(world, rel) || (!hits[i].is_file && reaches_beneath(
            world,
            rel,
        )) {
            assert(touches(world_of(*save), hits@[i as int]));
            return true;
        }
        i += 1;
    }
    false
}

/// [`on_write`] for what a watcher saw change: only a write to the shared world is evidence of
/// playing it.
pub fn on_write_at(slot: &mut SaveSlot, hits: &Vec<Hit>, out: &mut Outbox)
    ensures
        if write_counts(old(slot).save, old(slot).state) && any_touches(
            world_of(old(slot).save),
            hits@,
        ) {
            &&& *final(slot) == at(*old(slot), wrote(old(slot).state, old(out).attached))
            &&& sent(
                *old(out),
                *final(out),
                write_cmds(old(slot).save, old(slot).state, old(out).attached),
                write_events(old(slot).save, old(slot).state),
            )
        } else {
            *final(slot) == *old(slot) && *final(out) == *old(out)
        },
{
    if hits_touch(&slot.save, hits) {
        on_write(slot, out);
    }
}

// ---- laws on the calls

/// Asking for the lease sends one acquire, for the slot's save and from the version its folder
/// holds, and notes that the answer is owed; nothing else changes. Behind the head, or with no task
/// to hear it, nothing is sent and nothing changes.
pub proof fn an_acquire_is_for_the_slots_version(slot: &mut SaveSlot, out: &mut Outbox)
    requires
        call_ensures(request_acquire, (slot, out), ()),
    ensures
        final(slot).save == old(slot).save,
        final(slot).lease_holder == old(slot).lease_holder,
        final(out).events@ == old(out).events@,
        final(out).attached == old(out).attached,
        old(out).attached && old(slot).state.stale_base is None ==> {
            &&& final(slot).state == (SlotState {
                lease_requested: true,
                release_requested: false,
                ..old(slot).state
            })
            &&& final(out).cmds@.len() == old(out).cmds@.len() + 1
            &&& final(out).cmds@.take(old(out).cmds@.len() as int) == old(out).cmds@
            &&& final(out).cmds@.last() is Acquire
            &&& final(out).cmds@.last()->Acquire_save_id == old(slot).save.save_id
            &&& old(slot).state.known_version is Some ==> final(out).cmds@.last()->base_version
                == old(slot).state.known_version->0
            &&& old(slot).state.known_version is None ==> final(out).cmds@.last()->base_version
                == 0
        },
        !old(out).attached || old(slot).state.stale_base is Some ==> final(slot).state
            == old(slot).state && final(out).cmds@ == old(out).cmds@,
{
}

/// The user's answer. It is told once, as theirs, with the role; the session, if there is one, is
/// claimed and its clock stopped, and without one the role is kept for the next. Hosting asks for
/// the lease. Viewing cancels an acquire that is still out, gives back a lease that is held here,
/// and asks for nothing.
pub proof fn an_answer_is_taken(slot: &mut SaveSlot, role: WorldRole, out: &mut Outbox, k: int)
    requires
        call_ensures(on_claim_world, (slot, role, out), ()),
    ensures
        ({
            let (s, t) = (old(slot).state, final(slot).state);
            let n = old(out).cmds@.len() as int;
            let cmds = final(out).cmds@;
            &&& final(slot).save == old(slot).save
            &&& final(out).events@ == old(out).events@.push(
                AgentEvent::WorldClaimed {
                    save_id: old(slot).save.save_id,
                    game_slug: old(slot).save.game_slug,
                    role,
                    by_agent: false,
                },
            )
            &&& t.role == role
            &&& t.role_pinned <==> s.session is None
            &&& t.session is Some <==> s.session is Some
            &&& s.session is Some ==> t.session->0 == (WorldSession {
                claimed: true,
                auto_host_deadline: None,
                ..s.session->0
            })
            &&& t.lease == s.lease
            &&& t.has_pending == s.has_pending
            &&& t.stale_base == s.stale_base
            &&& t.local_only_pending == s.local_only_pending
            &&& t.pull_pending == s.pull_pending
            &&& t.relaunch_pending == s.relaunch_pending
            &&& role == WorldRole::Host && old(out).attached && s.stale_base is None ==> {
                &&& cmds.len() == n + 1
                &&& cmds[n] is Acquire
                &&& cmds[n]->Acquire_save_id == old(slot).save.save_id
                &&& s.known_version is Some ==> cmds[n]->base_version == s.known_version->0
                &&& t.lease_requested
                &&& !t.release_requested
            }
            &&& role == WorldRole::View && old(out).attached ==> {
                &&& !t.lease_requested
                &&& t.release_requested <==> s.release_requested || s.lease_requested || s.lease
                    == LeaseObs::Mine
                &&& s.lease_requested && s.lease == LeaseObs::Mine ==> cmds.len() == n + 2
                    && cmds[n] == (LeaseCmd::Cancel { save_id: old(slot).save.save_id }) && cmds[n
                    + 1] == (LeaseCmd::Release { save_id: old(slot).save.save_id })
                &&& s.lease_requested && s.lease != LeaseObs::Mine ==> cmds.len() == n + 1
                    && cmds[n] == (LeaseCmd::Cancel { save_id: old(slot).save.save_id })
                &&& !s.lease_requested && s.lease == LeaseObs::Mine ==> cmds.len() == n + 1
                    && cmds[n] == (LeaseCmd::Release { save_id: old(slot).save.save_id })
                &&& !s.lease_requested && s.lease != LeaseObs::Mine ==> cmds.len() == n
            }
            &&& !old(out).attached ==> cmds == old(out).cmds@
            &&& 0 <= k < n ==> cmds[k] == old(out).cmds@[k]
        }),
{
}

/// A force takes the lease off its holder and then asks for it, both for the slot's save and in that
/// order, as a host; behind the head it takes it off and does not ask. Nothing is told.
pub proof fn a_force_takes_and_asks(slot: &mut SaveSlot, out: &mut Outbox)
    requires
        call_ensures(on_force_world, (slot, out), ()),
    ensures
        ({
            let (s, t) = (old(slot).state, final(slot).state);
            let n = old(out).cmds@.len() as int;
            let cmds = final(out).cmds@;
            &&& final(slot).save == old(slot).save
            &&& final(out).events@ == old(out).events@
            &&& t.role == WorldRole::Host
            &&& t.role_pinned <==> s.session is None
            &&& s.session is Some ==> t.session->0.claimed && t.session->0.auto_host_deadline is None
            &&& t.lease == s.lease
            &&& old(out).attached ==> cmds.len() >= n + 1 && cmds[n] == (LeaseCmd::Force {
                save_id: old(slot).save.save_id,
            })
            &&& old(out).attached && s.stale_base is None ==> cmds.len() == n + 2 && cmds[n
                + 1] is Acquire && cmds[n + 1]->Acquire_save_id == old(slot).save.save_id
                && t.lease_requested
            &&& old(out).attached && s.stale_base is Some ==> cmds.len() == n + 1
            &&& !old(out).attached ==> cmds == old(out).cmds@
        }),
{
}

/// Giving a world back releases its lease, after cancelling an acquire that is still out, forgets a
/// role kept for the next session, and is told. The session stays.
pub proof fn a_world_is_given_back(slot: &mut SaveSlot, out: &mut Outbox)
    requires
        call_ensures(on_release_world, (slot, out), ()),
    ensures
        ({
            let (s, t) = (old(slot).state, final(slot).state);
            let n = old(out).cmds@.len() as int;
            let cmds = final(out).cmds@;
            let id = old(slot).save.save_id;
            &&& final(slot).save == old(slot).save
            &&& final(out).events@ == old(out).events@.push(
                AgentEvent::WorldReleased { save_id: id, game_slug: old(slot).save.game_slug },
            )
            &&& !t.role_pinned
            &&& t.session == s.session
            &&& t.role == s.role
            &&& t.lease == s.lease
            &&& t.has_pending == s.has_pending
            &&& old(out).attached ==> !t.lease_requested && t.release_requested
            &&& old(out).attached && s.lease_requested ==> cmds.len() == n + 2 && cmds[n] == (
            LeaseCmd::Cancel { save_id: id }) && cmds[n + 1] == (LeaseCmd::Release { save_id: id })
            &&& old(out).attached && !s.lease_requested ==> cmds.len() == n + 1 && cmds[n] == (
            LeaseCmd::Release { save_id: id })
            &&& !old(out).attached ==> cmds == old(out).cmds@ && t.lease_requested
                == s.lease_requested
        }),
{
}

/// The server's word on the lease is what the slot knows from then on, with the holder it names. A
/// verdict settles the acquire that was out. One of ours that nobody wants, because the slot only
/// views or asked to give it back, is released at once and not taken for ours. A lease that was ours
/// and is not any more is told as lost, with who has it, unless it was given back.
pub proof fn a_word_on_the_lease(
    slot: &mut SaveSlot,
    obs: LeaseObs,
    holder: Option<String>,
    verdict: bool,
    out: &mut Outbox,
)
    requires
        call_ensures(on_lease, (slot, obs, holder, verdict, out), ()),
    ensures
        ({
            let (s, t) = (old(slot).state, final(slot).state);
            let id = old(slot).save.save_id;
            let unwanted = obs == LeaseObs::Mine && verdict && (s.role == WorldRole::View
                || s.release_requested);
            let lost = s.lease == LeaseObs::Mine && obs != LeaseObs::Mine && !s.release_requested;
            &&& final(slot).save == old(slot).save
            &&& !unwanted ==> t.lease == obs && final(slot).lease_holder == holder
            &&& unwanted ==> t.lease == LeaseObs::Unknown && final(slot).lease_holder is None
            &&& unwanted && old(out).attached ==> final(out).cmds@ == old(out).cmds@.push(
                LeaseCmd::Release { save_id: id },
            ) && t.release_requested
            &&& !unwanted || !old(out).attached ==> final(out).cmds@ == old(out).cmds@
            &&& lost ==> final(out).events@ == old(out).events@.push(
                AgentEvent::WorldLeaseLost {
                    save_id: id,
                    game_slug: old(slot).save.game_slug,
                    holder,
                },
            )
            &&& !lost ==> final(out).events@ == old(out).events@
            &&& verdict ==> !t.lease_requested
            &&& !verdict ==> t.lease_requested == s.lease_requested
            &&& obs != LeaseObs::Mine ==> !t.release_requested
            &&& obs == LeaseObs::Mine && !unwanted ==> t.release_requested == s.release_requested
                && t.stale_base is None
            &&& obs != LeaseObs::Mine ==> t.stale_base == s.stale_base
            &&& t.hosted_elsewhere_notified <==> s.hosted_elsewhere_notified && obs
                == LeaseObs::Other
            &&& t.role == s.role && t.role_pinned == s.role_pinned && t.session == s.session
            &&& t.has_pending == s.has_pending && t.pull_pending == s.pull_pending
                && t.known_version == s.known_version
        }),
{
}

/// A stale refusal notes the version it was for; with nothing pending on the world the head is to
/// come down, and with something it is not on that account.
pub proof fn a_stale_refusal_is_noted(slot: &mut SaveSlot, base: i64, world_pending: bool)
    requires
        call_ensures(on_stale, (slot, base, world_pending), ()),
    ensures
        final(slot).state.stale_base == Some(base),
        !world_pending ==> final(slot).state.pull_pending,
        world_pending ==> final(slot).state.pull_pending == old(slot).state.pull_pending,
        final(slot).state == (SlotState {
            stale_base: Some(base),
            pull_pending: final(slot).state.pull_pending,
            ..old(slot).state
        }),
        final(slot).save == old(slot).save,
        final(slot).lease_holder == old(slot).lease_holder,
{
}

/// A waiting push may ask for the lease exactly when: the save is shared, something is pending that
/// may go up, the slot hosts, no acquire is out, it is not behind the head, and no session is still
/// being asked.
pub proof fn when_a_push_may_ask(slot: SaveSlot, r: bool)
    requires
        call_ensures(may_request_lease, (&slot,), r),
    ensures
        ({
            let s = slot.state;
            let asked = s.session is Some && !s.session->0.stopped && !s.session->0.claimed;
            r <==> slot.save.shared is Some && s.has_pending && !s.local_only_pending && s.role
                == WorldRole::Host && !s.lease_requested && s.stale_base is None && !asked
        }),
{
}

/// A hit is the side copy's own while a stopped session's copy is on its way, and, once there is no
/// session, for ten seconds from its landing.
pub proof fn whose_hit_it_is(slot: SaveSlot, now: u64, r: bool)
    requires
        call_ensures(hit_is_side_copy, (&slot, now), r),
    ensures
        slot.state.session matches Some(w) ==> (r <==> w.stopped && w.side_copy_started),
        slot.state.session is None ==> (r <==> slot.state.side_copy_landed_at is Some && now
            - slot.state.side_copy_landed_at->0 < 10_000_000_000),
{
}

/// "Not playing" and the game's stop are noted on the session and stop its clock; a stop also
/// forgets a relaunch that was waiting. A claim is noted the same way. Nothing else changes, and
/// without a session only the relaunch does.
pub proof fn what_sessions_are_told(a: &mut SaveSlot, b: &mut SaveSlot, c: &mut SaveSlot)
    requires
        call_ensures(on_dismiss, (a,), ()),
        call_ensures(on_game_stopped, (b,), ()),
        call_ensures(on_claim, (c,), ()),
    ensures
        old(a).state.session is None ==> *final(a) == *old(a),
        old(a).state.session is Some ==> *final(a) == (SaveSlot {
            state: SlotState {
                session: Some(
                    WorldSession {
                        dismissed: true,
                        auto_host_deadline: None,
                        ..old(a).state.session->0
                    },
                ),
                ..old(a).state
            },
            ..*old(a)
        }),
        !final(b).state.relaunch_pending,
        old(b).state.session is Some ==> final(b).state.session == Some(
            WorldSession { stopped: true, auto_host_deadline: None, ..old(b).state.session->0 },
        ),
        old(b).state.session is None ==> final(b).state.session is None,
        *final(b) == (SaveSlot {
            state: SlotState {
                session: final(b).state.session,
                relaunch_pending: false,
                ..old(b).state
            },
            ..*old(b)
        }),
        old(c).state.session is None ==> *final(c) == *old(c),
        old(c).state.session is Some ==> *final(c) == (SaveSlot {
            state: SlotState {
                session: Some(
                    WorldSession {
                        claimed: true,
                        auto_host_deadline: None,
                        ..old(c).state.session->0
                    },
                ),
                ..old(c).state
            },
            ..*old(c)
        }),
{
}

/// A shared save with no version here counts as just written by us, and no other does. A stopping
/// service has given back what it holds or asked for, and nothing else.
pub proof fn seated_and_stopping(a: &mut SaveSlot, wall: i128, b: &mut SaveSlot)
    requires
        call_ensures(on_seated, (a, wall), ()),
        call_ensures(on_stopping, (b,), ()),
    ensures
        old(a).save.shared is Some && old(a).state.known_version is None
            ==> final(a).state.last_restore_at == Some(wall),
        old(a).save.shared is None || old(a).state.known_version is Some ==> *final(a) == *old(a),
        *final(a) == (SaveSlot {
            state: SlotState { last_restore_at: final(a).state.last_restore_at, ..old(a).state },
            ..*old(a)
        }),
        old(b).state.lease == LeaseObs::Mine || old(b).state.lease_requested
            ==> final(b).state.release_requested,
        old(b).state.lease != LeaseObs::Mine && !old(b).state.lease_requested ==> *final(b)
            == *old(b),
        *final(b) == (SaveSlot {
            state: SlotState {
                release_requested: final(b).state.release_requested,
                ..old(b).state
            },
            ..*old(b)
        }),
{
}

/// A write in a live session of a shared world. A viewer's are counted, and the second one is told,
/// once. A host's under somebody else's lease goes to a side copy; with a free lease that nobody
/// claimed it claims, asks for the lease, and is told as the agent's doing; with the lease unknown
/// it is remembered; with it ours it changes nothing. No other write counts.
pub proof fn a_write_is_evidence(slot: &mut SaveSlot, out: &mut Outbox)
    requires
        call_ensures(on_write, (slot, out), ()),
    ensures
        ({
            let (s, t) = (old(slot).state, final(slot).state);
            let save = old(slot).save;
            let n = old(out).cmds@.len() as int;
            let counts = save.shared is Some && s.session is Some && !s.session->0.stopped;
            let (w, v) = (s.session->0, t.session->0);
            let hosts = counts && s.role == WorldRole::Host;
            let views = counts && s.role == WorldRole::View;
            let claims = hosts && s.lease == LeaseObs::Free && !w.claimed;
            &&& final(slot).save == save
            &&& !counts ==> *final(slot) == *old(slot) && *final(out) == *old(out)
            &&& views ==> {
                &&& v == (WorldSession {
                    writes: v.writes,
                    view_writing_told: v.view_writing_told,
                    ..w
                })
                &&& w.writes < u32::MAX ==> v.writes == w.writes + 1
                &&& v.view_writing_told <==> w.view_writing_told || w.writes >= 1
                &&& final(out).cmds@ == old(out).cmds@
                &&& w.writes >= 1 && !w.view_writing_told ==> final(out).events@
                    == old(out).events@.push(
                    AgentEvent::ViewSessionWriting {
                        save_id: save.save_id,
                        game_slug: save.game_slug,
                    },
                )
                &&& w.writes == 0 || w.view_writing_told ==> final(out).events@ == old(out).events@
            }
            &&& hosts && s.lease == LeaseObs::Other ==> v == (WorldSession { side_copy: true, ..w })
            &&& hosts && s.lease == LeaseObs::Unknown && !w.claimed ==> v == (WorldSession {
                wrote_unclaimed: true,
                ..w
            })
            &&& hosts && (s.lease == LeaseObs::Mine || (w.claimed && s.lease != LeaseObs::Other))
                ==> t == s
            &&& claims ==> {
                &&& v == (WorldSession { claimed: true, auto_host_deadline: None, ..w })
                &&& final(out).events@ == old(out).events@.push(
                    AgentEvent::WorldClaimed {
                        save_id: save.save_id,
                        game_slug: save.game_slug,
                        role: WorldRole::Host,
                        by_agent: true,
                    },
                )
                &&& old(out).attached && s.stale_base is None ==> final(out).cmds@.len() == n + 1
                    && final(out).cmds@[n] is Acquire && final(out).cmds@[n]->Acquire_save_id
                    == save.save_id && t.lease_requested
            }
            &&& hosts && !claims ==> final(out).cmds@ == old(out).cmds@ && final(out).events@
                == old(out).events@
            &&& t.lease == s.lease && t.role == s.role && t.has_pending == s.has_pending
        }),
{
    if final(out).cmds@.len() == old(out).cmds@.len() {
        assert(final(out).cmds@ =~= old(out).cmds@);
    }
    if final(out).events@.len() == old(out).events@.len() {
        assert(final(out).events@ =~= old(out).events@);
    }
}

proof fn slashes_only(s: Seq<char>)
    ensures
        slashed(s).len() == s.len(),
        forall|i: int| 0 <= i < s.len() ==> #[trigger] slashed(s)[i] != '\\',
        (forall|i: int| 0 <= i < s.len() ==> #[trigger] s[i] != '\\') ==> slashed(s) == s,
{
    if forall|i: int| 0 <= i < s.len() ==> #[trigger] s[i] != '\\' {
        assert(slashed(s) =~= s);
    }
}

/// Of what a watcher saw, a write counts as a write to the world where one of the hits may touch it:
/// a file that the share names, by a path with either slash; a path that is no file and that the
/// share reaches into; one with no path; and no hits at all. Where every hit is a file that the
/// share does not name, nothing changes.
pub proof fn a_hit_on_the_world_counts(
    slot: &mut SaveSlot,
    hits: Vec<Hit>,
    out: &mut Outbox,
    other: &mut SaveSlot,
    other_out: &mut Outbox,
    includes: &[String],
    path: &str,
    named: bool,
    i: int,
)
    requires
        call_ensures(on_write_at, (slot, &hits, out), ()),
        call_ensures(on_write, (other, other_out), ()),
        call_ensures(included, (includes, path), named),
        old(slot).save.shared is Some,
        includes@ == old(slot).save.shared->0.includes@,
        *old(other) == *old(slot),
        *old(other_out) == *old(out),
    ensures
        (hits@.len() == 0 || (0 <= i < hits@.len() && hits@[i].rel@.len() == 0)) ==> *final(slot)
            == *final(other) && final(out).cmds@ == final(other_out).cmds@ && final(out).events@
            == final(other_out).events@,
        (0 <= i < hits@.len() && named && hits@[i].rel@.len() == path@.len() && forall|k: int|
            0 <= k < path@.len() ==> #[trigger] path@[k] == (if hits@[i].rel@[k] == '\\' {
                '/'
            } else {
                hits@[i].rel@[k]
            })) ==> *final(slot) == *final(other) && final(out).cmds@ == final(other_out).cmds@,
        (hits@.len() == 1 && hits@[0].is_file && hits@[0].rel@ == path@ && path@.len() > 0
            && !named && !path@.contains('\\')) ==> *final(slot) == *old(slot) && *final(out)
            == *old(out),
{
    let world = world_of(old(slot).save);
    assert(views(includes@) =~= world);
    if 0 <= i < hits@.len() {
        slashes_only(hits@[i].rel@);
        if hits@[i].rel@.len() == 0 {
            assert(touches(world, hits@[i]));
        }
        if named && hits@[i].rel@.len() == path@.len() && (forall|k: int|
            0 <= k < path@.len() ==> #[trigger] path@[k] == (if hits@[i].rel@[k] == '\\' {
                '/'
            } else {
                hits@[i].rel@[k]
            })) {
            assert(slashed(hits@[i].rel@) =~= path@);
            assert(touches(world, hits@[i]));
        }
    }
    if hits@.len() == 1 && hits@[0].rel@ == path@ && !path@.contains('\\') && !named
        && hits@[0].is_file && path@.len() > 0 {
        slashes_only(path@);
        assert forall|k: int| 0 <= k < path@.len() implies #[trigger] path@[k] != '\\' by {
            if path@[k] == '\\' {
                assert(path@.contains('\\'));
            }
        }
        assert(slashed(path@) == path@);
        assert(!touches(world, hits@[0]));
        if any_touches(world, hits@) {
            let k = choose|k: int| 0 <= k < hits@.len() && touches(world, #[trigger] hits@[k]);
            assert(k == 0);
        }
    }
    same_sending(*old(out), *final(out), *final(other_out));
}

proof fn same_sending(before: Outbox, a: Outbox, b: Outbox)
    ensures
        forall|cmds: Seq<LeaseCmd>, events: Seq<AgentEvent>|
            #![trigger sent(before, a, cmds, events), sent(before, b, cmds, events)]
            sent(before, a, cmds, events) && sent(before, b, cmds, events) ==> a.cmds@ == b.cmds@
                && a.events@ == b.events@,
{
}

/// A prompt shows each lease by its own name.
pub proof fn a_prompt_shows_the_lease(obs: LeaseObs, r: WorldLease)
    requires
        call_ensures(lease_for_prompt, (obs,), r),
    ensures
        obs == LeaseObs::Unknown <==> r == WorldLease::Unknown,
        obs == LeaseObs::Free <==> r == WorldLease::Free,
        obs == LeaseObs::Mine <==> r == WorldLease::Mine,
        obs == LeaseObs::Other <==> r == WorldLease::Other,
{
}

} // verus!
