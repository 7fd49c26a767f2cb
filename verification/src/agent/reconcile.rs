//! What a reconcile does with a slot's session: the clock, the releases and the side copy.

use vstd::prelude::*;

use crate::agent::claim::{
    acquire_auto, catch_up, end_session, end_session_local_only, give_back, copy_on_its_way, on_claim,
    owns_whole_folder, set_aside_behind, tell_released,
};
#[allow(unused_imports)]
use crate::agent::claim::{
    after_catch_up, aside_session, ask_cmds, asked, auto_claim, catch_up_cmds, caught_up,
    claimed, copys_own, give_back_cmds, given_back, has_live_session, landing, lost,
    may_request, owns_whole, released_event, session_over, session_over_local_only, sets_aside,
    stopping, told_lease, unpinned,
};
use crate::agent::slot::{
    AgentEvent, LeaseCmd, LeaseObs, Outbox, SaveSlot, SlotState, WatchedSave, WorldHeld, WorldRole,
    WorldSession,
};
#[allow(unused_imports)]
use crate::agent::slot::{at, sent};
use crate::clock::{format_rfc3339, Moment};
#[allow(unused_imports)]
use crate::clock::rfc3339_text;
use crate::text::chars_of;

verus! {

/// What a reconcile leaves for its caller to do.
#[derive(Debug, Clone, Copy, PartialEq, Eq, Structural)]
pub enum Followup {
    Nothing,
    /// Move the world's files into a side copy, then report how many moved.
    SideCopy,
}

/// A reconcile's outcome.
pub ghost struct Turn {
    pub state: SlotState,
    pub cmds: Seq<LeaseCmd>,
    pub events: Seq<AgentEvent>,
    pub followup: Followup,
}

// ---- the clock

/// Is the session's minute up?
pub open spec fn clock_up(s: SlotState, now: int) -> bool {
    has_live_session(s) && s.session->0.auto_host_deadline is Some && now
        >= s.session->0.auto_host_deadline->0
}

/// Does the clock host: the minute is up, nobody claimed or said "not playing", and the lease is
/// free?
pub open spec fn clock_hosts(s: SlotState, now: int) -> bool {
    &&& clock_up(s, now)
    &&& !s.session->0.claimed
    &&& !s.session->0.dismissed
    &&& s.role == WorldRole::Host
    &&& s.lease == LeaseObs::Free
}

/// The state after the clock was looked at. One that is up without hosting is spent.
pub open spec fn after_clock(s: SlotState, now: int, attached: bool) -> SlotState {
    if clock_hosts(s, now) {
        asked(claimed(s), attached)
    } else if clock_up(s, now) {
        SlotState {
            session: Some(WorldSession { auto_host_deadline: None, ..s.session->0 }),
            ..s
        }
    } else {
        s
    }
}

/// The minute is up with nobody hosting: host. `true` when it did.
pub fn maybe_auto_host(slot: &mut SaveSlot, now: u64, out: &mut Outbox) -> (r: bool)
    ensures
        r == clock_hosts(old(slot).state, now as int),
        *final(slot) == at(*old(slot), after_clock(old(slot).state, now as int, old(out).attached)),
        sent(
            *old(out),
            *final(out),
            if r {
                ask_cmds(old(slot).save, old(slot).state, old(out).attached)
            } else {
                Seq::empty()
            },
            if r {
                seq![auto_claim(old(slot).save)]
            } else {
                Seq::empty()
            },
        ),
{
    let s = slot.state;
    let w = match s.session {
        Some(w) => w,
        None => {
            return false;
        },
    };
    let deadline: u64 = match w.auto_host_deadline {
        Some(d) => d,
        None => {
            return false;
        },
    };
    if now < deadline || !w.live() {
        return false;
    }
    if w.claimed || w.dismissed || s.role != WorldRole::Host || s.lease != LeaseObs::Free {
        // Somebody took it, or the server never answered: the clock is spent and evidence is what
        // is left.
        slot.state = SlotState {
            session: Some(WorldSession { auto_host_deadline: None, ..w }),
            ..s
        };
        return false;
    }
    on_claim(slot);
    acquire_auto(slot, out);
    true
}

// ---- giving the lease back

/// Does a lease go back after a push with no session? Not with a role pinned for the next launch,
/// a game running, or anything pending, in flight or asked of the lease task.
pub open spec fn releases_after_push(s: SlotState) -> bool {
    &&& s.session is None
    &&& s.lease == LeaseObs::Mine
    &&& !s.role_pinned
    &&& !s.is_running
    &&& !s.has_pending
    &&& !s.in_flight
    &&& !s.lease_requested
    &&& !s.release_requested
}

fn maybe_release_after_push(slot: &mut SaveSlot, out: &mut Outbox)
    ensures
        ({
            let s = old(slot).state;
            let attached = old(out).attached;
            if releases_after_push(s) {
                &&& *final(slot) == at(*old(slot), given_back(s, attached, true))
                &&& sent(
                    *old(out),
                    *final(out),
                    give_back_cmds(old(slot).save, s, attached, true),
                    Seq::empty(),
                )
            } else {
                *final(slot) == *old(slot) && *final(out) == *old(out)
            }
        }),
{
    let s = slot.state;
    if s.session.is_some() || s.lease != LeaseObs::Mine || s.role_pinned || s.is_running
        || s.has_pending || s.in_flight || s.lease_requested || s.release_requested {
        return;
    }
    give_back(slot, out, true);
}

/// Does the lease of a world whose push has parked go back? Parked, not merely held: a file
/// locked for a few seconds holds the first attempts too.
pub open spec fn releases_held(s: SlotState) -> bool {
    &&& s.world_held.needs_attention
    &&& s.lease == LeaseObs::Mine
    &&& !s.is_running
    &&& !has_live_session(s)
    &&& !s.in_flight
    &&& !s.lease_requested
    &&& !s.release_requested
}

fn maybe_release_held_world(slot: &mut SaveSlot, out: &mut Outbox) -> (r: bool)
    ensures
        r == releases_held(old(slot).state),
        ({
            let s = unpinned(old(slot).state);
            let attached = old(out).attached;
            if r {
                &&& *final(slot) == at(*old(slot), given_back(s, attached, true))
                &&& sent(
                    *old(out),
                    *final(out),
                    give_back_cmds(old(slot).save, s, attached, true),
                    seq![released_event(old(slot).save)],
                )
            } else {
                *final(slot) == *old(slot) && *final(out) == *old(out)
            }
        }),
{
    let s = slot.state;
    let live = match s.session {
        Some(w) => w.live(),
        None => false,
    };
    if !s.world_held.needs_attention || s.lease != LeaseObs::Mine || s.is_running || live
        || s.in_flight || s.lease_requested || s.release_requested {
        return false;
    }
    slot.state = SlotState { role_pinned: false, ..s };
    give_back(slot, out, true);
    tell_released(slot, out);
    true
}

/// Does a stopped session give its lease back: the final flush is up, and nothing is pending, in
/// flight or unanswered?
pub open spec fn releases_after_stop(s: SlotState) -> bool {
    &&& s.session is Some
    &&& !s.session->0.is_live()
    &&& s.lease == LeaseObs::Mine
    &&& !s.has_pending
    &&& !s.in_flight
    &&& !s.lease_requested
}

/// After the game stopped on a world this machine hosts: give the lease back once the final flush
/// is up, and not while anything is pending or in flight. `true` when the session ended here.
pub fn maybe_release_after_stop(slot: &mut SaveSlot, out: &mut Outbox) -> (r: bool)
    ensures
        r == releases_after_stop(old(slot).state),
        ({
            let s = old(slot).state;
            let attached = old(out).attached;
            if r {
                &&& *final(slot) == at(*old(slot), session_over(given_back(s, attached, true)))
                &&& sent(
                    *old(out),
                    *final(out),
                    give_back_cmds(old(slot).save, s, attached, true),
                    seq![released_event(old(slot).save)],
                )
            } else {
                *final(slot) == *old(slot) && *final(out) == *old(out)
            }
        }),
{
    let s = slot.state;
    let w = match s.session {
        Some(w) => w,
        None => {
            return false;
        },
    };
    if w.live() || s.lease != LeaseObs::Mine {
        return false;
    }
    // An acquire still unanswered lands here whatever the lease reads now: the session waits for
    // it, or its `Mine` would arrive on nobody.
    if s.has_pending || s.in_flight || s.lease_requested {
        return false;
    }
    give_back(slot, out, true);
    tell_released(slot, out);
    slot.state = end_session(slot.state);
    true
}

// ---- the reconcile

/// Is the lease task asked who holds it? Once, while the prompt found the lease unknown.
pub open spec fn refreshes(s: SlotState) -> bool {
    s.lease == LeaseObs::Unknown && !s.session->0.refresh_asked
}

/// The state with the question asked.
pub open spec fn refreshed(s: SlotState) -> SlotState {
    if refreshes(s) {
        SlotState { session: Some(WorldSession { refresh_asked: true, ..s.session->0 }), ..s }
    } else {
        s
    }
}

/// Does an earlier write claim, now that the lease reads free?
pub open spec fn late_write_claims(s: SlotState) -> bool {
    s.session->0.wrote_unclaimed && !s.session->0.claimed && s.lease == LeaseObs::Free && s.role
        == WorldRole::Host
}

/// The state with an earlier write judged by a lease that reads somebody else's.
pub open spec fn late_write_refused(s: SlotState) -> SlotState {
    if s.session->0.wrote_unclaimed && !s.session->0.claimed && s.lease == LeaseObs::Other {
        SlotState {
            session: Some(WorldSession { wrote_unclaimed: false, side_copy: true, ..s.session->0 }),
            ..s
        }
    } else {
        s
    }
}

/// The state with an earlier write that claimed.
pub open spec fn late_write_spent(s: SlotState) -> SlotState {
    SlotState { session: Some(WorldSession { wrote_unclaimed: false, ..s.session->0 }), ..s }
}

/// A reconcile of a live session.
#[verifier::opaque]
pub open spec fn live_turn(save: WatchedSave, s: SlotState, now: int, attached: bool) -> Turn {
    let r = refreshed(s);
    let refresh: Seq<LeaseCmd> = if refreshes(s) && attached {
        seq![LeaseCmd::Refresh { save_id: save.save_id }]
    } else {
        Seq::empty()
    };
    let judged = late_write_refused(r);
    if late_write_claims(r) {
        Turn {
            state: asked(claimed(late_write_spent(r)), attached),
            cmds: refresh + ask_cmds(save, r, attached),
            events: seq![auto_claim(save)],
            followup: Followup::Nothing,
        }
    } else if clock_hosts(judged, now) {
        Turn {
            state: after_clock(judged, now, attached),
            cmds: refresh + ask_cmds(save, judged, attached),
            events: seq![auto_claim(save)],
            followup: Followup::Nothing,
        }
    } else {
        Turn {
            state: after_clock(judged, now, attached),
            cmds: refresh,
            events: Seq::empty(),
            followup: Followup::Nothing,
        }
    }
}

/// May the session's writes to the world never go up: a viewer's, or under somebody else's lease?
pub open spec fn stays_local(s: SlotState) -> bool {
    s.role == WorldRole::View || s.lease == LeaseObs::Other
}

/// Does a stopped session wait: for its copy to land, for its lease's release, or for an answer?
pub open spec fn waits(s: SlotState) -> bool {
    s.session->0.side_copy_started || s.lease == LeaseObs::Mine || s.lease_requested
}

/// A reconcile of a stopped session.
#[verifier::opaque]
pub open spec fn stopped_turn(
    save: WatchedSave,
    s: SlotState,
    world_pending: bool,
    attached: bool,
) -> Turn {
    let still = Turn {
        state: s,
        cmds: Seq::empty(),
        events: Seq::empty(),
        followup: Followup::Nothing,
    };
    if releases_after_stop(s) {
        Turn {
            state: session_over(given_back(s, attached, true)),
            cmds: give_back_cmds(save, s, attached, true),
            events: seq![released_event(save)],
            followup: Followup::Nothing,
        }
    } else if waits(s) {
        still
    } else if stays_local(s) && world_pending && s.in_flight {
        still
    } else if stays_local(s) && world_pending {
        Turn {
            state: SlotState {
                session: Some(WorldSession { side_copy_started: true, ..s.session->0 }),
                ..s
            },
            followup: Followup::SideCopy,
            ..still
        }
    } else {
        Turn { state: session_over(s), ..still }
    }
}

/// A reconcile with no session.
#[verifier::opaque]
pub open spec fn idle_turn(
    save: WatchedSave,
    s: SlotState,
    now: u64,
    wall: i128,
    grace: i64,
    world_pending: bool,
    attached: bool,
) -> Turn {
    let still = Turn {
        state: s,
        cmds: Seq::empty(),
        events: Seq::empty(),
        followup: Followup::Nothing,
    };
    if sets_aside(save, s, wall as int, grace as int, world_pending) {
        Turn {
            state: SlotState { session: Some(aside_session(now, wall)), ..s },
            followup: Followup::SideCopy,
            ..still
        }
    } else if releases_after_push(s) {
        Turn {
            state: given_back(s, attached, true),
            cmds: give_back_cmds(save, s, attached, true),
            ..still
        }
    } else {
        still
    }
}

/// A reconcile of a slot that is not behind.
pub open spec fn turn(
    save: WatchedSave,
    s: SlotState,
    now: u64,
    wall: i128,
    grace: i64,
    world_pending: bool,
    attached: bool,
) -> Turn {
    if releases_held(s) {
        Turn {
            state: given_back(unpinned(s), attached, true),
            cmds: give_back_cmds(save, unpinned(s), attached, true),
            events: seq![released_event(save)],
            followup: Followup::Nothing,
        }
    } else if s.session is None {
        idle_turn(save, s, now, wall, grace, world_pending, attached)
    } else if has_live_session(s) {
        live_turn(save, s, now as int, attached)
    } else {
        stopped_turn(save, s, world_pending, attached)
    }
}

fn reconcile_live(slot: &mut SaveSlot, now: u64, out: &mut Outbox)
    requires
        has_live_session(old(slot).state),
    ensures
        ({
            let t = live_turn(old(slot).save, old(slot).state, now as int, old(out).attached);
            &&& *final(slot) == at(*old(slot), t.state)
            &&& sent(*old(out), *final(out), t.cmds, t.events)
            &&& t.followup == Followup::Nothing
        }),
{
    reveal(live_turn);
    let mut s = slot.state;
    let mut w: WorldSession = match s.session {
        Some(w) => w,
        None => {
            return;
        },
    };
    // The prompt found the lease unknown: ask once, so the clock has an answer to read before it
    // fires.
    if s.lease == LeaseObs::Unknown && !w.refresh_asked {
        w = WorldSession { refresh_asked: true, ..w };
        s = SlotState { session: Some(w), ..s };
        slot.state = s;
        out.send(LeaseCmd::Refresh { save_id: slot.save.save_id.clone() });
    }
    assert(s == refreshed(old(slot).state));
    // A write seen while the lease was unknown claims as soon as it reads free; if somebody else
    // holds it, the write was theirs to refuse. "Not playing" does not stop it: the write says
    // otherwise.
    if w.wrote_unclaimed && !w.claimed {
        if s.lease == LeaseObs::Free && s.role == WorldRole::Host {
            slot.state = SlotState {
                session: Some(WorldSession { wrote_unclaimed: false, ..w }),
                ..s
            };
            on_claim(slot);
            acquire_auto(slot, out);
            return;
        }
        if s.lease == LeaseObs::Other {
            slot.state = SlotState {
                session: Some(WorldSession { wrote_unclaimed: false, side_copy: true, ..w }),
                ..s
            };
        }
    }
    let _ = maybe_auto_host(slot, now, out);
}

fn reconcile_stopped(slot: &mut SaveSlot, world_pending: bool, out: &mut Outbox) -> (r: Followup)
    requires
        old(slot).state.session is Some,
        !has_live_session(old(slot).state),
    ensures
        ({
            let t = stopped_turn(
                old(slot).save,
                old(slot).state,
                world_pending,
                old(out).attached,
            );
            &&& *final(slot) == at(*old(slot), t.state)
            &&& sent(*old(out), *final(out), t.cmds, t.events)
            &&& r == t.followup
        }),
{
    reveal(stopped_turn);
    if maybe_release_after_stop(slot, out) {
        return Followup::Nothing;
    }
    let s = slot.state;
    let w: WorldSession = match s.session {
        Some(w) => w,
        None => {
            return Followup::Nothing;
        },
    };
    // The copy is on its way: only its landing ends the session. Ours, or about to be: the
    // release waits for the final flush.
    if w.side_copy_started || s.lease == LeaseObs::Mine || s.lease_requested {
        return Followup::Nothing;
    }
    // Only writes to the world are set aside: a member's pending is all world, and the owner's
    // other files go up without the lease.
    if (s.role == WorldRole::View || s.lease == LeaseObs::Other) && world_pending {
        // An upload still streaming the folder reads the files the copy would move: it goes first.
        if s.in_flight {
            return Followup::Nothing;
        }
        slot.state = SlotState {
            session: Some(WorldSession { side_copy_started: true, ..w }),
            ..s
        };
        return Followup::SideCopy;
    }
    slot.state = end_session(s);
    Followup::Nothing
}

fn reconcile_idle(
    slot: &mut SaveSlot,
    now: u64,
    wall: i128,
    grace: i64,
    world_pending: bool,
    out: &mut Outbox,
) -> (r: Followup)
    ensures
        ({
            let t = idle_turn(
                old(slot).save,
                old(slot).state,
                now,
                wall,
                grace,
                world_pending,
                old(out).attached,
            );
            &&& *final(slot) == at(*old(slot), t.state)
            &&& sent(*old(out), *final(out), t.cmds, t.events)
            &&& r == t.followup
        }),
{
    reveal(idle_turn);
    if set_aside_behind(slot, now, wall, grace, world_pending) {
        return Followup::SideCopy;
    }
    maybe_release_after_push(slot, out);
    Followup::Nothing
}

fn reconcile(
    slot: &mut SaveSlot,
    now: u64,
    wall: i128,
    grace: i64,
    world_pending: bool,
    out: &mut Outbox,
) -> (r: Followup)
    ensures
        ({
            let t = turn(
                old(slot).save,
                old(slot).state,
                now,
                wall,
                grace,
                world_pending,
                old(out).attached,
            );
            &&& *final(slot) == at(*old(slot), t.state)
            &&& sent(*old(out), *final(out), t.cmds, t.events)
            &&& r == t.followup
        }),
{
    if maybe_release_held_world(slot, out) {
        return Followup::Nothing;
    }
    let w: WorldSession = match slot.state.session {
        Some(w) => w,
        None => {
            return reconcile_idle(slot, now, wall, grace, world_pending, out);
        },
    };
    if w.live() {
        reconcile_live(slot, now, out);
        return Followup::Nothing;
    }
    reconcile_stopped(slot, world_pending, out)
}

/// A reconcile of the slot: catch up with the head, then whatever its session is due.
/// `world_pending` says whether a write to the shared world is pending, and `grace` how long a
/// write keeps a folder from being touched, in seconds.
pub fn on_reconciled(
    slot: &mut SaveSlot,
    now: u64,
    wall: i128,
    grace: i64,
    world_pending: bool,
    out: &mut Outbox,
) -> (r: Followup)
    ensures
        ({
            let c = after_catch_up(old(slot).state, old(out).attached);
            let t = turn(old(slot).save, c, now, wall, grace, world_pending, old(out).attached);
            &&& *final(slot) == at(*old(slot), t.state)
            &&& sent(
                *old(out),
                *final(out),
                catch_up_cmds(old(slot).save, old(slot).state, old(out).attached) + t.cmds,
                t.events,
            )
            &&& r == t.followup
        }),
{
    catch_up(slot, out);
    reconcile(slot, now, wall, grace, world_pending, out)
}

// ---- the side copy

/// The state once a side copy landed with `moved` files in it.
pub open spec fn copied(
    save: WatchedSave,
    s: SlotState,
    moved: int,
    world_on_disk: bool,
    now: u64,
    wall: i128,
) -> SlotState {
    if moved > 0 {
        session_over(
            SlotState {
                has_pending: false,
                local_only_pending: false,
                world_held: WorldHeld { consecutive: 0, needs_attention: false },
                recheck_pending_after_pull: owns_whole(save),
                known_version: None,
                version_base: None,
                pull_pending: true,
                last_restore_at: Some(wall),
                side_copy_landed_at: Some(now),
                ..s
            },
        )
    } else if s.has_pending && world_on_disk {
        session_over_local_only(s)
    } else if s.has_pending {
        session_over(
            SlotState {
                has_pending: false,
                local_only_pending: false,
                recheck_pending_after_pull: owns_whole(save),
                pull_pending: true,
                ..s
            },
        )
    } else {
        session_over(s)
    }
}

/// The side copy landed: the session's bytes are safe there, so the folder may be pulled over.
/// Only the session that asked for the copy is ended by it; `false` when there is none.
pub(crate) fn side_copied(
    slot: &mut SaveSlot,
    moved: u64,
    world_on_disk: bool,
    now: u64,
    wall: i128,
    out: &mut Outbox,
) -> (r: bool)
    ensures
        r == landing(old(slot).state),
        r ==> *final(slot) == at(
            *old(slot),
            copied(old(slot).save, old(slot).state, moved as int, world_on_disk, now, wall),
        ),
        r ==> sent(
            *old(out),
            *final(out),
            Seq::empty(),
            copied_events(old(slot).save, old(slot).state, moved as int),
        ),
        !r ==> *final(slot) == *old(slot) && *final(out) == *old(out),
{
    if !copy_on_its_way(slot) {
        return false;
    }
    let s = slot.state;
    if moved > 0 {
        if s.world_held.active() {
            out.tell(
                AgentEvent::BackupAttentionCleared {
                    save_id: slot.save.save_id.clone(),
                    game_slug: slot.save.game_slug.clone(),
                },
            );
        }
        let recheck = owns_whole_folder(&slot.save);
        slot.state = end_session(
            SlotState {
                has_pending: false,
                local_only_pending: false,
                world_held: WorldHeld { consecutive: 0, needs_attention: false },
                recheck_pending_after_pull: recheck,
                known_version: None,
                version_base: None,
                pull_pending: true,
                last_restore_at: Some(wall),
                side_copy_landed_at: Some(now),
                ..s
            },
        );
    } else if s.has_pending && world_on_disk {
        // Nothing moved and something is pending: the list missed what the game wrote, and it
        // stays where it is.
        slot.state = end_session_local_only(s);
    } else if s.has_pending {
        // Nothing of the world is here: the pending mark was about files outside it, which the
        // pull does not touch. Nothing is left to lose, so the head comes down.
        let recheck = owns_whole_folder(&slot.save);
        slot.state = end_session(
            SlotState {
                has_pending: false,
                local_only_pending: false,
                recheck_pending_after_pull: recheck,
                pull_pending: true,
                ..s
            },
        );
    } else {
        slot.state = end_session(s);
    }
    true
}

/// What a side copy that landed tells: a held push is moot once its files are in the copy.
pub open spec fn copied_events(save: WatchedSave, s: SlotState, moved: int) -> Seq<AgentEvent> {
    if moved > 0 && s.world_held.held() {
        seq![
            AgentEvent::BackupAttentionCleared { save_id: save.save_id, game_slug: save.game_slug },
        ]
    } else {
        Seq::empty()
    }
}

/// The state once a side copy could not be made.
pub open spec fn copy_failed(s: SlotState) -> SlotState {
    if s.has_pending {
        session_over_local_only(s)
    } else {
        session_over(s)
    }
}

/// The side copy could not be made: the bytes stay where they are, pending, and the session is
/// over, but the slot stays a viewer for them. `false` when no copy was on its way.
pub(crate) fn side_copy_failed(slot: &mut SaveSlot) -> (r: bool)
    ensures
        r == landing(old(slot).state),
        *final(slot) == (if r {
            at(*old(slot), copy_failed(old(slot).state))
        } else {
            *old(slot)
        }),
{
    if !copy_on_its_way(slot) {
        return false;
    }
    let s = slot.state;
    slot.state = if s.has_pending {
        end_session_local_only(s)
    } else {
        end_session(s)
    };
    true
}

/// The text with a dash for every colon.
pub open spec fn dashed(s: Seq<char>) -> Seq<char> {
    Seq::new(
        s.len(),
        |i: int|
            if s[i] == ':' {
                '-'
            } else {
                s[i]
            },
    )
}

/// The name of a side copy made at this moment, in nanoseconds since the epoch.
pub open spec fn side_copy_name(nanos: i128) -> Seq<char> {
    match rfc3339_text(Moment { local: nanos, offset: 0 }) {
        Some(t) => dashed(t),
        None => "unknown-ts"@,
    }
}

/// Where a session's side copy goes, below the folder of all side copies.
pub fn side_copy_dir(save_id: &str, nanos: i128) -> (r: String)
    ensures
        r@ == save_id@ + "/"@ + side_copy_name(nanos),
{
    let mut r = String::new();
    r.append(save_id);
    r.append("/");
    match format_rfc3339(Moment::utc_nanos(nanos)) {
        None => r.append("unknown-ts"),
        Some(t) => {
            let c = chars_of(t.as_str());
            let mut i: usize = 0;
            while i < c.len()
                invariant
                    i <= c.len(),
                    r@ == save_id@ + "/"@ + dashed(c@).take(i as int),
                decreases c.len() - i,
            {
                r.push(if c[i] == ':' { '-' } else { c[i] });
                i += 1;
                assert(r@ =~= save_id@ + "/"@ + dashed(c@).take(i as int));
            }
            assert(dashed(c@).take(i as int) =~= dashed(t@));
        },
    }
    assert(r@ =~= save_id@ + "/"@ + side_copy_name(nanos));
    r
}

// ---- laws

/// A verdict that the lease is ours, on a slot that does not want it any more, is never read as
/// ours: nothing pushes under a lease that is being given back.
pub proof fn an_unwanted_lease_is_never_ours(s: SlotState, obs: LeaseObs, attached: bool)
    requires
        s.role == WorldRole::View || s.release_requested,
    ensures
        told_lease(s, obs, true, attached).lease != LeaseObs::Mine,
{
}

/// What was given back is not lost: after a release, a cancelled acquire or a stop of the service,
/// no word on the lease is told as a loss.
pub proof fn a_lease_given_back_is_not_lost(s: SlotState, obs: LeaseObs)
    ensures
        !lost(given_back(s, true, true), obs),
        !lost(stopping(s), obs),
        s.lease_requested ==> !lost(given_back(s, true, false), obs),
{
}

/// An acquire never goes out behind the head: not from an answer, a force, a write, the clock or a
/// reconcile, until the pull landed.
pub proof fn nothing_is_asked_behind_the_head(
    save: WatchedSave,
    s: SlotState,
    now: u64,
    wall: i128,
    grace: i64,
    world_pending: bool,
    attached: bool,
    i: int,
)
    requires
        s.stale_base is Some,
        !caught_up(s),
    ensures
        ask_cmds(save, s, attached) == Seq::<LeaseCmd>::empty(),
        asked(s, attached) == s,
        !may_request(save, s),
        ({
            let t = turn(save, after_catch_up(s, attached), now, wall, grace, world_pending, attached);
            let cmds = catch_up_cmds(save, s, attached) + t.cmds;
            &&& t.state.lease_requested ==> s.lease_requested
            &&& 0 <= i < cmds.len() ==> !(cmds[i] is Acquire)
        }),
{
    reveal(live_turn);
    reveal(stopped_turn);
    reveal(idle_turn);
}

/// A viewer's slot, and one whose writes must stay local, never turns a waiting push into an
/// acquire.
pub proof fn only_a_host_pushes(save: WatchedSave, s: SlotState)
    requires
        s.role == WorldRole::View || s.local_only_pending,
    ensures
        !may_request(save, s),
{
}

/// On its own a reconcile asks for a lease only in a live session that nobody claimed, as a host,
/// with the lease known to be free: on a write, or on the clock where nobody said "not playing".
pub proof fn the_agent_hosts_a_free_world_only(
    save: WatchedSave,
    s: SlotState,
    now: u64,
    wall: i128,
    grace: i64,
    world_pending: bool,
    attached: bool,
    i: int,
)
    requires
        0 <= i < turn(save, s, now, wall, grace, world_pending, attached).cmds.len(),
        turn(save, s, now, wall, grace, world_pending, attached).cmds[i] is Acquire,
    ensures
        s.lease == LeaseObs::Free,
        s.role == WorldRole::Host,
        has_live_session(s),
        !s.session->0.claimed,
        s.session->0.wrote_unclaimed || (!s.session->0.dismissed && clock_up(s, now as int)),
{
    reveal(live_turn);
    reveal(stopped_turn);
    reveal(idle_turn);
}

/// Writes that must stay local keep the slot a viewer when its session ends, so that nothing
/// pushes them as the shared head.
pub proof fn local_writes_keep_a_viewer(save: WatchedSave, s: SlotState)
    ensures
        s.local_only_pending ==> session_over(s).role == WorldRole::View,
        session_over_local_only(s).role == WorldRole::View,
        !may_request(save, session_over_local_only(s)),
        s.has_pending ==> !may_request(save, copy_failed(s)),
{
}

/// Once a copy with files in it landed, the folder holds nothing unversioned: the head is owed a
/// pull, and the copy's own touches are not taken for the game's.
pub proof fn a_landed_copy_owes_a_pull(
    save: WatchedSave,
    s: SlotState,
    moved: int,
    world_on_disk: bool,
    now: u64,
    wall: i128,
)
    requires
        moved > 0,
    ensures
        ({
            let t = copied(save, s, moved, world_on_disk, now, wall);
            &&& t.pull_pending
            &&& !t.has_pending
            &&& !t.local_only_pending
            &&& t.known_version is None
            &&& t.session is None
            &&& t.role == WorldRole::Host
            &&& copys_own(t, now as int)
        }),
{
}

/// A set-aside happens once: the reconcile that asked for the copy leaves the slot waiting for it,
/// and the next one asks for nothing.
pub proof fn a_copy_is_asked_for_once(
    save: WatchedSave,
    s: SlotState,
    now: u64,
    wall: i128,
    grace: i64,
    world_pending: bool,
    attached: bool,
    later: u64,
    later_wall: i128,
)
    requires
        turn(save, s, now, wall, grace, world_pending, attached).followup == Followup::SideCopy,
    ensures
        ({
            let t = turn(save, s, now, wall, grace, world_pending, attached).state;
            &&& landing(t)
            &&& turn(save, t, later, later_wall, grace, world_pending, attached).followup
                == Followup::Nothing
            &&& landing(turn(save, t, later, later_wall, grace, world_pending, attached).state)
        }),
{
    reveal(live_turn);
    reveal(stopped_turn);
    reveal(idle_turn);
}

/// The minute's end: it hosts exactly where it is up in a live session that nobody claimed or
/// dismissed, as a host, with the lease free. Then the session is claimed, the lease asked for, and
/// it is told as the agent's doing. A minute that is up without hosting is spent; one that is not,
/// and a session without one, stay as they are.
pub proof fn the_minutes_end(slot: &mut SaveSlot, now: u64, out: &mut Outbox, r: bool)
    requires
        call_ensures(maybe_auto_host, (slot, now, out), r),
    ensures
        ({
            let (s, t) = (old(slot).state, final(slot).state);
            let (w, v) = (s.session->0, t.session->0);
            let up = s.session is Some && !w.stopped && w.auto_host_deadline is Some
                && w.auto_host_deadline->0 <= now;
            let n = old(out).cmds@.len() as int;
            &&& final(slot).save == old(slot).save
            &&& r <==> up && !w.claimed && !w.dismissed && s.role == WorldRole::Host && s.lease
                == LeaseObs::Free
            &&& !up ==> t == s
            &&& up && !r ==> t == (SlotState {
                session: Some(WorldSession { auto_host_deadline: None, ..w }),
                ..s
            })
            &&& r ==> v == (WorldSession { claimed: true, auto_host_deadline: None, ..w })
            &&& r ==> final(out).events@ == old(out).events@.push(
                AgentEvent::WorldClaimed {
                    save_id: old(slot).save.save_id,
                    game_slug: old(slot).save.game_slug,
                    role: WorldRole::Host,
                    by_agent: true,
                },
            )
            &&& r && old(out).attached && s.stale_base is None ==> {
                &&& final(out).cmds@.len() == n + 1
                &&& final(out).cmds@[n] is Acquire
                &&& final(out).cmds@[n]->Acquire_save_id == old(slot).save.save_id
                &&& t.lease_requested
            }
            &&& !r ==> final(out).cmds@ == old(out).cmds@ && final(out).events@
                == old(out).events@
        }),
{
    if !r {
        assert(final(out).cmds@ =~= old(out).cmds@);
        assert(final(out).events@ =~= old(out).events@);
    }
}

/// A stopped session gives its lease back exactly when it holds it with nothing pending, in flight
/// or unanswered: then the release goes out and is told, the session is over, and the role goes with
/// it unless writes must stay local. Otherwise nothing changes.
pub proof fn a_stopped_host_gives_back(slot: &mut SaveSlot, out: &mut Outbox, r: bool)
    requires
        call_ensures(maybe_release_after_stop, (slot, out), r),
    ensures
        ({
            let (s, t) = (old(slot).state, final(slot).state);
            &&& r <==> s.session is Some && s.session->0.stopped && s.lease == LeaseObs::Mine
                && !s.has_pending && !s.in_flight && !s.lease_requested
            &&& !r ==> *final(slot) == *old(slot) && *final(out) == *old(out)
            &&& r ==> {
                &&& t.session is None
                &&& t.role == (if s.local_only_pending {
                    WorldRole::View
                } else {
                    WorldRole::Host
                })
                &&& final(out).events@ == old(out).events@.push(
                    AgentEvent::WorldReleased {
                        save_id: old(slot).save.save_id,
                        game_slug: old(slot).save.game_slug,
                    },
                )
                &&& old(out).attached ==> t.release_requested && final(out).cmds@
                    == old(out).cmds@.push(
                    LeaseCmd::Release { save_id: old(slot).save.save_id },
                )
                &&& !old(out).attached ==> final(out).cmds@ == old(out).cmds@
            }
        }),
{
}

/// A reconcile of a slot with no session and nothing parked. Its writes to the world are set aside
/// exactly where they cannot go up and nothing is in their way: behind the head, or under somebody
/// else's lease where the owner walks the whole folder or the push is held. A lease of ours with
/// nothing left to push goes back, and is not told. Otherwise nothing changes.
pub proof fn a_reconcile_without_a_session(
    slot: &mut SaveSlot,
    now: u64,
    wall: i128,
    grace: i64,
    world_pending: bool,
    out: &mut Outbox,
    r: Followup,
)
    requires
        call_ensures(on_reconciled, (slot, now, wall, grace, world_pending, out), r),
        old(slot).state.session is None,
        !old(slot).state.world_held.needs_attention,
        old(slot).state.stale_base is None || old(slot).state.known_version is None
            || old(slot).state.known_version->0 <= old(slot).state.stale_base->0,
    ensures
        ({
            let (s, t) = (old(slot).state, final(slot).state);
            let save = old(slot).save;
            let shared = save.shared;
            let whole = shared is Some && shared->0.caller_owns && save.includes@.len() == 0
                && shared->0.includes@.len() > 0;
            let elsewhere = (whole || s.world_held.consecutive > 0) && s.lease == LeaseObs::Other;
            let quiet = s.last_fs_event_at is None || wall - s.last_fs_event_at->0 >= grace
                * 1_000_000_000;
            let busy = s.last_fs_event_at is Some && 0 <= wall - s.last_fs_event_at->0 < grace
                * 1_000_000_000;
            let stuck = (s.stale_base is Some || elsewhere) && s.has_pending && !s.is_running
                && !s.in_flight && !s.local_only_pending && s.lease != LeaseObs::Mine
                && world_pending;
            let goes_back = s.lease == LeaseObs::Mine && !s.role_pinned && !s.is_running
                && !s.has_pending && !s.in_flight && !s.lease_requested && !s.release_requested;
            &&& final(slot).save == save
            &&& final(out).events@ == old(out).events@
            &&& r == Followup::SideCopy ==> stuck && !busy
            &&& stuck && quiet && grace > 0 ==> r == Followup::SideCopy
            &&& r == Followup::SideCopy ==> {
                &&& t.session is Some
                &&& t.session->0.stopped && t.session->0.side_copy_started && t.session->0.claimed
                &&& t.session->0.started_at == now && t.session->0.raised_at == wall
                &&& t == (SlotState { session: t.session, ..s })
                &&& final(out).cmds@ == old(out).cmds@
            }
            &&& r == Followup::Nothing && goes_back && old(out).attached ==> final(out).cmds@
                == old(out).cmds@.push(LeaseCmd::Release { save_id: save.save_id }) && t == (
            SlotState { release_requested: true, ..s })
            &&& r == Followup::Nothing && !goes_back ==> t == s && final(out).cmds@
                == old(out).cmds@
        }),
{
    reveal(idle_turn);
    let s = old(slot).state;
    assert(!caught_up(s));
    assert(final(out).events@ =~= old(out).events@);
    if final(out).cmds@.len() == old(out).cmds@.len() {
        assert(final(out).cmds@ =~= old(out).cmds@);
    }
    if s.last_fs_event_at is Some {
        let d = wall - s.last_fs_event_at->0;
        if grace > 0 && d >= grace * 1_000_000_000 {
            assert(d / 1_000_000_000 >= grace) by (nonlinear_arith)
                requires
                    d >= grace * 1_000_000_000,
            ;
        }
        if 0 <= d < grace * 1_000_000_000 {
            assert(d / 1_000_000_000 < grace) by (nonlinear_arith)
                requires
                    0 <= d < grace * 1_000_000_000,
            ;
        }
    }
}

/// A reconcile of a stopped session with nothing parked. While its copy is on its way, its lease is
/// ours or an acquire is out, it waits. Writes to the world that must stay local are copied aside,
/// after what is in flight. Otherwise the session is over, and the role goes with it.
pub proof fn a_reconcile_after_the_game(
    slot: &mut SaveSlot,
    now: u64,
    wall: i128,
    grace: i64,
    world_pending: bool,
    out: &mut Outbox,
    r: Followup,
)
    requires
        call_ensures(on_reconciled, (slot, now, wall, grace, world_pending, out), r),
        old(slot).state.session is Some,
        old(slot).state.session->0.stopped,
        !old(slot).state.world_held.needs_attention,
        old(slot).state.stale_base is None,
    ensures
        ({
            let (s, t) = (old(slot).state, final(slot).state);
            let w = s.session->0;
            let done = s.lease == LeaseObs::Mine && !s.has_pending && !s.in_flight
                && !s.lease_requested;
            let waits = w.side_copy_started || s.lease == LeaseObs::Mine || s.lease_requested;
            let local = (s.role == WorldRole::View || s.lease == LeaseObs::Other) && world_pending;
            &&& done ==> t.session is None && final(out).events@.len() == old(out).events@.len()
                + 1 && final(out).events@.last() is WorldReleased && r == Followup::Nothing
            &&& done && old(out).attached ==> final(out).cmds@ == old(out).cmds@.push(
                LeaseCmd::Release { save_id: old(slot).save.save_id },
            )
            &&& !done && waits ==> t == s && r == Followup::Nothing
            &&& !waits && local && s.in_flight ==> t == s && r == Followup::Nothing
            &&& !waits && local && !s.in_flight ==> r == Followup::SideCopy && t == (SlotState {
                session: Some(WorldSession { side_copy_started: true, ..w }),
                ..s
            })
            &&& !waits && !local ==> r == Followup::Nothing && t == (SlotState {
                session: None,
                role: if s.local_only_pending {
                    WorldRole::View
                } else {
                    WorldRole::Host
                },
                ..s
            })
            &&& !done ==> final(out).cmds@ == old(out).cmds@ && final(out).events@
                == old(out).events@
        }),
{
    reveal(stopped_turn);
    if final(out).events@.len() == old(out).events@.len() {
        assert(final(out).cmds@ =~= old(out).cmds@);
        assert(final(out).events@ =~= old(out).events@);
    }
}

/// What the turn of a live session comes to.
proof fn a_live_turn(save: WatchedSave, s: SlotState, now: int)
    requires
        s.session is Some,
        !s.session->0.stopped,
        s.stale_base is None,
    ensures
        ({
            let turn = live_turn(save, s, now, true);
            let t = turn.state;
            let (w, v) = (s.session->0, t.session->0);
            let host = s.role == WorldRole::Host && s.lease == LeaseObs::Free && !w.claimed;
            let up = w.auto_host_deadline is Some && w.auto_host_deadline->0 <= now;
            let claims = host && (w.wrote_unclaimed || (up && !w.dismissed));
            &&& turn.followup == Followup::Nothing
            &&& t.session is Some && !v.stopped
            &&& v.claimed <==> w.claimed || claims
            &&& claims ==> turn.cmds == seq![
                LeaseCmd::Acquire {
                    save_id: save.save_id,
                    base_version: if s.known_version is Some {
                        s.known_version->0
                    } else {
                        0
                    },
                },
            ] && t.lease_requested && v.auto_host_deadline is None && !v.wrote_unclaimed
            &&& claims ==> turn.events == seq![
                AgentEvent::WorldClaimed {
                    save_id: save.save_id,
                    game_slug: save.game_slug,
                    role: WorldRole::Host,
                    by_agent: true,
                },
            ]
            &&& !claims ==> turn.events.len() == 0 && t.lease_requested == s.lease_requested
            &&& s.lease == LeaseObs::Unknown && !w.refresh_asked ==> turn.cmds == seq![
                LeaseCmd::Refresh { save_id: save.save_id },
            ] && v.refresh_asked
            &&& !claims && !(s.lease == LeaseObs::Unknown && !w.refresh_asked) ==> turn.cmds.len()
                == 0
            &&& w.wrote_unclaimed && !w.claimed && s.lease == LeaseObs::Other ==> v.side_copy
                && !v.wrote_unclaimed
            &&& v.side_copy ==> w.side_copy || (w.wrote_unclaimed && s.lease == LeaseObs::Other)
            &&& up ==> v.auto_host_deadline is None
            &&& !up && !claims ==> v.auto_host_deadline == w.auto_host_deadline
            &&& t.lease == s.lease && t.role == s.role && t.has_pending == s.has_pending
        }),
{
    reveal(live_turn);
    let turn = live_turn(save, s, now, true);
    let none = Seq::<LeaseCmd>::empty();
    assert(none + ask_cmds(save, s, true) =~= ask_cmds(save, s, true));
    if turn.cmds.len() == 1 {
        assert(turn.cmds =~= seq![turn.cmds[0]]);
    }
}

/// A reconcile of a live session. With the lease unknown, who holds it is asked once. A write that
/// was seen before the lease was known claims when it reads free, also where the user said "not
/// playing", and goes to a side copy when it reads somebody else's; else the minute's end decides.
/// Nothing is moved aside while the game runs.
pub proof fn a_reconcile_of_a_live_session(
    slot: &mut SaveSlot,
    now: u64,
    wall: i128,
    grace: i64,
    world_pending: bool,
    out: &mut Outbox,
    r: Followup,
)
    requires
        call_ensures(on_reconciled, (slot, now, wall, grace, world_pending, out), r),
        old(slot).state.session is Some,
        !old(slot).state.session->0.stopped,
        old(slot).state.stale_base is None,
        old(out).attached,
    ensures
        ({
            let (s, t) = (old(slot).state, final(slot).state);
            let (w, v) = (s.session->0, t.session->0);
            let id = old(slot).save.save_id;
            let n = old(out).cmds@.len() as int;
            let cmds = final(out).cmds@;
            let host = s.role == WorldRole::Host && s.lease == LeaseObs::Free && !w.claimed;
            let up = w.auto_host_deadline is Some && w.auto_host_deadline->0 <= now;
            let claims = host && (w.wrote_unclaimed || (up && !w.dismissed));
            &&& r == Followup::Nothing
            &&& t.session is Some && !v.stopped
            &&& v.claimed <==> w.claimed || claims
            &&& claims ==> cmds.len() == n + 1 && cmds[n] is Acquire && cmds[n]->Acquire_save_id
                == id && t.lease_requested && v.auto_host_deadline is None && !v.wrote_unclaimed
            &&& claims && s.known_version is Some ==> cmds[n]->base_version == s.known_version->0
            &&& claims ==> final(out).events@ == old(out).events@.push(
                AgentEvent::WorldClaimed {
                    save_id: id,
                    game_slug: old(slot).save.game_slug,
                    role: WorldRole::Host,
                    by_agent: true,
                },
            )
            &&& !claims ==> final(out).events@ == old(out).events@ && t.lease_requested
                == s.lease_requested
            &&& s.lease == LeaseObs::Unknown && !w.refresh_asked ==> cmds == old(out).cmds@.push(
                LeaseCmd::Refresh { save_id: id },
            ) && v.refresh_asked
            &&& !claims && !(s.lease == LeaseObs::Unknown && !w.refresh_asked) ==> cmds
                == old(out).cmds@
            &&& w.wrote_unclaimed && !w.claimed && s.lease == LeaseObs::Other ==> v.side_copy
                && !v.wrote_unclaimed
            &&& v.side_copy ==> w.side_copy || (w.wrote_unclaimed && s.lease == LeaseObs::Other)
            &&& up ==> v.auto_host_deadline is None
            &&& !up && !claims ==> v.auto_host_deadline == w.auto_host_deadline
            &&& t.lease == s.lease && t.role == s.role && t.has_pending == s.has_pending
        }),
{
    let s = old(slot).state;
    assert(!caught_up(s));
    a_live_turn(old(slot).save, s, now as int);
    let turn = live_turn(old(slot).save, s, now as int, true);
    let n = old(out).cmds@.len() as int;
    assert(final(out).cmds@ =~= old(out).cmds@ + turn.cmds);
    if turn.cmds.len() == 1 {
        assert(final(out).cmds@ =~= old(out).cmds@.push(turn.cmds[0]));
    } else if turn.cmds.len() == 0 {
        assert(final(out).cmds@ =~= old(out).cmds@);
    }
    if turn.events.len() == 0 {
        assert(final(out).events@ =~= old(out).events@);
    }
}

/// A world whose push has parked gives its lease back when no game plays it and nothing is under
/// way: it is released, told, and no role is kept for the next session. The session of a game that
/// stopped stays for now.
pub proof fn a_parked_world_gives_back(
    slot: &mut SaveSlot,
    now: u64,
    wall: i128,
    grace: i64,
    world_pending: bool,
    out: &mut Outbox,
    r: Followup,
)
    requires
        call_ensures(on_reconciled, (slot, now, wall, grace, world_pending, out), r),
        old(slot).state.world_held.needs_attention,
        old(slot).state.lease == LeaseObs::Mine,
        !old(slot).state.is_running,
        old(slot).state.session is None || old(slot).state.session->0.stopped,
        !old(slot).state.in_flight,
        !old(slot).state.lease_requested,
        !old(slot).state.release_requested,
        old(slot).state.stale_base is None,
        old(out).attached,
    ensures
        r == Followup::Nothing,
        final(slot).state == (SlotState {
            role_pinned: false,
            release_requested: true,
            ..old(slot).state
        }),
        final(out).cmds@ == old(out).cmds@.push(
            LeaseCmd::Release { save_id: old(slot).save.save_id },
        ),
        final(out).events@ == old(out).events@.push(
            AgentEvent::WorldReleased {
                save_id: old(slot).save.save_id,
                game_slug: old(slot).save.game_slug,
            },
        ),
{
    assert(final(out).cmds@ =~= old(out).cmds@.push(
        LeaseCmd::Release { save_id: old(slot).save.save_id },
    ));
}

proof fn a_live_turn_keeps_versions(save: WatchedSave, s: SlotState, now: int, attached: bool)
    requires
        s.session is Some,
    ensures
        live_turn(save, s, now, attached).state.stale_base == s.stale_base,
        live_turn(save, s, now, attached).state.known_version == s.known_version,
{
    reveal(live_turn);
}

proof fn a_stopped_turn_keeps_versions(
    save: WatchedSave,
    s: SlotState,
    world_pending: bool,
    attached: bool,
)
    ensures
        stopped_turn(save, s, world_pending, attached).state.stale_base == s.stale_base,
        stopped_turn(save, s, world_pending, attached).state.known_version == s.known_version,
{
    reveal(stopped_turn);
}

proof fn an_idle_turn_keeps_versions(
    save: WatchedSave,
    s: SlotState,
    now: u64,
    wall: i128,
    grace: i64,
    world_pending: bool,
    attached: bool,
)
    ensures
        idle_turn(save, s, now, wall, grace, world_pending, attached).state.stale_base
            == s.stale_base,
        idle_turn(save, s, now, wall, grace, world_pending, attached).state.known_version
            == s.known_version,
{
    reveal(idle_turn);
}

/// No turn moves the version of the folder, or the one that was refused as stale.
proof fn a_turn_keeps_versions(
    save: WatchedSave,
    s: SlotState,
    now: u64,
    wall: i128,
    grace: i64,
    world_pending: bool,
    attached: bool,
)
    ensures
        turn(save, s, now, wall, grace, world_pending, attached).state.stale_base == s.stale_base,
        turn(save, s, now, wall, grace, world_pending, attached).state.known_version
            == s.known_version,
{
    if s.session is None {
        an_idle_turn_keeps_versions(save, s, now, wall, grace, world_pending, attached);
    } else {
        a_live_turn_keeps_versions(save, s, now as int, attached);
        a_stopped_turn_keeps_versions(save, s, world_pending, attached);
    }
}

/// Once the folder's version is past the one that was refused as stale, a reconcile is no longer
/// behind, and a host who claimed asks again, from the version the folder holds now. Until then it
/// stays behind.
pub proof fn a_reconcile_catches_up(
    slot: &mut SaveSlot,
    now: u64,
    wall: i128,
    grace: i64,
    world_pending: bool,
    out: &mut Outbox,
    r: Followup,
)
    requires
        call_ensures(on_reconciled, (slot, now, wall, grace, world_pending, out), r),
        old(slot).state.stale_base is Some,
        old(out).attached,
    ensures
        ({
            let (s, t) = (old(slot).state, final(slot).state);
            let caught = s.known_version is Some && s.known_version->0 > s.stale_base->0;
            let wants = s.role == WorldRole::Host && (s.role_pinned || (s.session is Some
                && s.session->0.claimed)) && !s.lease_requested && s.lease != LeaseObs::Mine;
            let n = old(out).cmds@.len() as int;
            &&& caught ==> t.stale_base is None
            &&& !caught ==> t.stale_base == s.stale_base
            &&& caught && wants ==> final(out).cmds@.len() > n && final(out).cmds@[n] == (
            LeaseCmd::Acquire {
                save_id: old(slot).save.save_id,
                base_version: s.known_version->0,
            })
            &&& t.known_version == s.known_version
        }),
{
    let (save, s) = (old(slot).save, old(slot).state);
    let c = after_catch_up(s, true);
    a_turn_keeps_versions(save, c, now, wall, grace, world_pending, true);
    let more = turn(save, c, now, wall, grace, world_pending, true).cmds;
    let n = old(out).cmds@.len() as int;
    assert(final(out).cmds@ =~= old(out).cmds@ + (catch_up_cmds(save, s, true) + more));
    if catch_up_cmds(save, s, true).len() > 0 {
        assert(final(out).cmds@[n] == catch_up_cmds(save, s, true)[0]);
    }
}

/// A side copy's directory is the save's own, named for its moment with dashes for colons: two
/// copies of one save made at moments that are written differently lie apart.
pub proof fn a_side_copy_has_its_own_directory(save_id: &str, nanos: i128, r: String, i: int)
    requires
        call_ensures(side_copy_dir, (save_id, nanos), r),
    ensures
        r@.len() > save_id@.len(),
        r@.take(save_id@.len() as int) == save_id@,
        r@[save_id@.len() as int] == '/',
        ({
            let text = rfc3339_text(Moment { local: nanos, offset: 0 });
            let name = r@.skip(save_id@.len() as int + 1);
            &&& text is None ==> name == "unknown-ts"@
            &&& text is Some ==> name.len() == text->0.len()
            &&& text is Some && 0 <= i < name.len() && text->0[i] == ':' ==> name[i] == '-'
            &&& text is Some && 0 <= i < name.len() && text->0[i] != ':' ==> name[i] == text->0[i]
        }),
{
    reveal_strlit("/");
    assert(r@.take(save_id@.len() as int) =~= save_id@);
    assert(r@.skip(save_id@.len() as int + 1) =~= side_copy_name(nanos));
}

} // verus!
