//! Who plays a shared world this session.

use hoard::agent::claim::{
    hit_is_side_copy, may_request_lease, on_claim, on_claim_world, on_dismiss, on_force_world,
    on_game_stopped, on_lease, on_release_world, on_seated, on_stale, on_stopping, on_write,
    on_write_at, request_acquire, Hit, AUTO_HOST_DELAY, SIDE_COPY_TAIL,
};
use hoard::agent::reconcile::{
    maybe_auto_host, maybe_release_after_stop, on_reconciled, side_copy_dir, Followup,
};
use hoard::agent::savefilter::{move_world_aside, world_on_disk};
use hoard::agent::sessions::{
    dismiss_siblings, on_game_started, on_game_stopped_all, on_side_copied, on_side_copy_failed,
    pending_prompts, shared_of, Slots,
};
use hoard::agent::slot::{
    AgentEvent, LeaseCmd, LeaseObs, Outbox, SaveSlot, SharedRef, SlotState, WatchedSave, WorldHeld,
    WorldLease, WorldRole, WorldSession,
};
use hoard::agent::worldfiles::template;

const SEC: u64 = 1_000_000_000;
const SECOND: i128 = 1_000_000_000;
const WALL: i128 = 1_800_000_000 * SECOND;
const GRACE: i64 = 120;

fn world(save_id: &str, game: &str) -> WatchedSave {
    WatchedSave {
        save_id: save_id.into(),
        game_slug: game.into(),
        label: save_id.into(),
        local_path: format!("/tmp/saves/{save_id}"),
        track_only: false,
        shared: Some(SharedRef {
            group_id: "g1".into(),
            group_name: "friends".into(),
            owner_user_id: "u-owner".into(),
            owner_username: "owner".into(),
            includes: Vec::new(),
            caller_owns: false,
        }),
        includes: Vec::new(),
    }
}

/// An owner's share of one world out of a folder holding more.
fn owned_world() -> WatchedSave {
    let mut save = world("w1", "valheim");
    let shared = save.shared.as_mut().unwrap();
    shared.includes = vec!["worlds_local/Alpha.db".into()];
    shared.caller_owns = true;
    save
}

fn slots(saves: Vec<WatchedSave>) -> Slots {
    let mut s = Slots::new();
    for save in saves {
        assert!(s.insert(SaveSlot::new(save, Some(3))));
    }
    s
}

fn at<'a>(s: &'a mut Slots, id: &str) -> &'a mut SaveSlot {
    let i = s.find(id).unwrap();
    s.slot_mut(i)
}

fn state(s: &Slots, id: &str) -> SlotState {
    s.get(s.find(id).unwrap()).state
}

fn session(s: &Slots, id: &str) -> WorldSession {
    state(s, id).session.unwrap()
}

fn drain(out: &mut Outbox) -> Vec<AgentEvent> {
    std::mem::take(&mut out.events)
}

fn lines(out: &mut Outbox) -> Vec<String> {
    std::mem::take(&mut out.cmds)
        .into_iter()
        .map(|c| match c {
            LeaseCmd::Acquire { save_id, .. } => format!("acquire {save_id}"),
            LeaseCmd::Release { save_id } => format!("release {save_id}"),
            LeaseCmd::Cancel { save_id } => format!("cancel {save_id}"),
            LeaseCmd::Force { save_id } => format!("force {save_id}"),
            LeaseCmd::Refresh { save_id } => format!("refresh {save_id}"),
        })
        .collect()
}

fn started(s: &mut Slots, id: &str, out: &mut Outbox) {
    on_game_started(s, id, 0, WALL, out);
}

/// A reconcile of a member's slot, where all that is pending is the world's.
fn rec(slot: &mut SaveSlot, out: &mut Outbox) -> Followup {
    let pending = slot.state.has_pending;
    on_reconciled(slot, 0, WALL, GRACE, pending, out)
}

fn task() -> Outbox {
    Outbox::new(true)
}

fn alone() -> Outbox {
    Outbox::new(false)
}

fn auto_claims(events: &[AgentEvent]) -> bool {
    matches!(
        events,
        [AgentEvent::WorldClaimed {
            role: WorldRole::Host,
            by_agent: true,
            ..
        }]
    )
}

#[test]
fn the_prompt_goes_out_once_with_every_shared_world_of_the_game() {
    let mut out = alone();
    let mut s = slots(vec![
        world("w1", "valheim"),
        world("w2", "valheim"),
        world("other", "factorio"),
    ]);
    at(&mut s, "w2").state.lease = LeaseObs::Other;
    at(&mut s, "w2").lease_holder = Some("bob".into());
    assert_eq!(shared_of(&s, "valheim"), ["w1", "w2"]);
    started(&mut s, "w1", &mut out);
    // The second save of the same game matched the same process.
    started(&mut s, "w2", &mut out);
    let events = drain(&mut out);
    assert_eq!(events.len(), 1, "{events:?}");
    let AgentEvent::WorldClaimWanted { game_slug, worlds } = &events[0] else {
        panic!("{events:?}");
    };
    assert_eq!(game_slug, "valheim");
    assert_eq!(worlds.len(), 2);
    assert_eq!(worlds[1].holder.as_deref(), Some("bob"));
    assert_eq!(worlds[1].lease, WorldLease::Other);
    assert_eq!(worlds[0].group_name, "friends");
    assert!(session(&s, "w1").prompted);
    assert!(state(&s, "other").session.is_none());
    // Two worlds: no clock.
    assert!(session(&s, "w1").auto_host_deadline.is_none());
    assert!(session(&s, "w2").auto_host_deadline.is_none());
}

#[test]
fn a_prompted_session_is_in_the_status_until_it_is_answered() {
    let mut out = alone();
    let mut s = slots(vec![
        world("w1", "valheim"),
        world("w2", "valheim"),
        world("f1", "factorio"),
    ]);
    at(&mut s, "w1").state.lease = LeaseObs::Free;
    at(&mut s, "w2").state.lease = LeaseObs::Other;
    at(&mut s, "w2").lease_holder = Some("bob".into());
    assert!(pending_prompts(&s, 0, WALL).is_empty());

    started(&mut s, "w1", &mut out);
    let prompts = pending_prompts(&s, 0, WALL);
    assert_eq!(prompts.len(), 1, "{prompts:?}");
    assert_eq!(prompts[0].game_slug, "valheim");
    assert_eq!(prompts[0].worlds.len(), 2);
    assert_eq!(prompts[0].worlds[1].holder.as_deref(), Some("bob"));
    assert_eq!(prompts[0].worlds[1].lease, WorldLease::Other);
    // Two worlds: no clock, so no deadline.
    assert!(prompts[0].auto_host_at.is_none());

    // Hosting one world answers for the game: the other is "not playing".
    on_claim(at(&mut s, "w1"));
    dismiss_siblings(&mut s, "w1");
    assert!(pending_prompts(&s, 0, WALL).is_empty());
    assert!(session(&s, "w2").dismissed);

    // One free world of another game: the clock is armed and it is on the
    // wall, sixty seconds out.
    at(&mut s, "f1").state.lease = LeaseObs::Free;
    started(&mut s, "f1", &mut out);
    let prompts = pending_prompts(&s, 0, WALL);
    assert_eq!(prompts.len(), 1);
    assert_eq!(prompts[0].game_slug, "factorio");
    assert_eq!(prompts[0].auto_host_at, Some(WALL + 60 * SECOND));
    assert_eq!(prompts[0].raised_at, WALL);

    // "Not playing" takes it out too, and so does the game closing.
    on_dismiss(at(&mut s, "f1"));
    assert!(pending_prompts(&s, 0, WALL).is_empty());
    let mut again = slots(vec![world("g1", "grounded")]);
    started(&mut again, "g1", &mut out);
    assert_eq!(pending_prompts(&again, 0, WALL).len(), 1);
    on_game_stopped(at(&mut again, "g1"));
    assert!(pending_prompts(&again, 0, WALL).is_empty());
}

#[test]
fn prompts_stand_in_the_order_of_their_games() {
    let mut out = alone();
    let mut s = slots(vec![
        world("a", "valheim"),
        world("b", "factorio"),
        world("c", "valheim"),
        world("d", "astroneer"),
    ]);
    for id in ["a", "b", "d"] {
        started(&mut s, id, &mut out);
    }
    let games: Vec<String> = pending_prompts(&s, 0, WALL)
        .into_iter()
        .map(|p| p.game_slug)
        .collect();
    assert_eq!(games, ["astroneer", "factorio", "valheim"]);
    // A clock that is past its time shows as now.
    let prompts = pending_prompts(&s, AUTO_HOST_DELAY + 5, WALL + 60 * SECOND + 5);
    assert_eq!(prompts[0].auto_host_at, Some(WALL + 60 * SECOND + 5));
    // And one that is not, to the nanosecond.
    let prompts = pending_prompts(&s, AUTO_HOST_DELAY - 1, WALL);
    assert_eq!(prompts[0].auto_host_at, Some(WALL + 1));
}

#[test]
fn a_game_without_shared_worlds_gets_no_prompt() {
    let mut out = alone();
    let mut plain = world("p1", "factorio");
    plain.shared = None;
    let mut s = slots(vec![plain]);
    started(&mut s, "p1", &mut out);
    started(&mut s, "nobody", &mut out);
    assert!(drain(&mut out).is_empty());
    assert!(state(&s, "p1").session.is_none());
}

#[test]
fn the_clock_is_armed_only_for_one_free_world() {
    for (lease, armed) in [
        (LeaseObs::Free, true),
        (LeaseObs::Unknown, true),
        (LeaseObs::Other, false),
        (LeaseObs::Mine, false),
    ] {
        let mut s = slots(vec![world("w1", "valheim")]);
        at(&mut s, "w1").state.lease = lease;
        started(&mut s, "w1", &mut alone());
        assert_eq!(
            session(&s, "w1").auto_host_deadline,
            armed.then_some(AUTO_HOST_DELAY),
            "{lease:?}"
        );
    }
}

#[test]
fn the_clock_hosts_the_one_free_world_and_says_it_was_the_engine() {
    let mut out = task();
    let mut s = slots(vec![world("w1", "valheim")]);
    started(&mut s, "w1", &mut out);
    drain(&mut out);
    let slot = at(&mut s, "w1");
    // Unknown at launch: the first pass asks the server; the clock reads the answer.
    assert_eq!(rec(slot, &mut out), Followup::Nothing);
    assert_eq!(lines(&mut out), ["refresh w1"]);
    slot.state.lease = LeaseObs::Free;
    assert!(!maybe_auto_host(slot, AUTO_HOST_DELAY - SEC, &mut out));
    assert!(drain(&mut out).is_empty());
    assert!(maybe_auto_host(slot, AUTO_HOST_DELAY, &mut out));
    assert_eq!(lines(&mut out), ["acquire w1"]);
    assert!(slot.state.lease_requested);
    let events = drain(&mut out);
    assert!(auto_claims(&events), "{events:?}");
    // Once.
    assert!(!maybe_auto_host(slot, AUTO_HOST_DELAY + 5 * SEC, &mut out));
    assert!(slot.state.session.unwrap().claimed);
}

#[test]
fn dismissed_or_answered_or_taken_never_auto_hosts() {
    for case in ["dismissed", "answered", "taken", "stopped"] {
        let mut out = task();
        let mut s = slots(vec![world("w1", "valheim")]);
        at(&mut s, "w1").state.lease = LeaseObs::Free;
        started(&mut s, "w1", &mut out);
        let slot = at(&mut s, "w1");
        match case {
            "dismissed" => on_dismiss(slot),
            "answered" => on_claim(slot),
            "taken" => slot.state.lease = LeaseObs::Other,
            _ => on_game_stopped(slot),
        }
        drain(&mut out);
        assert!(!maybe_auto_host(slot, AUTO_HOST_DELAY, &mut out), "{case}");
        assert!(lines(&mut out).is_empty(), "{case}: asked for the lease");
        assert!(drain(&mut out).is_empty(), "{case}");
    }
}

#[test]
fn a_write_with_nobody_hosting_claims_once() {
    let mut out = task();
    let mut s = slots(vec![world("w1", "valheim")]);
    at(&mut s, "w1").state.lease = LeaseObs::Free;
    started(&mut s, "w1", &mut out);
    drain(&mut out);
    let slot = at(&mut s, "w1");
    on_write(slot, &mut out);
    on_write(slot, &mut out);
    assert_eq!(lines(&mut out), ["acquire w1"]);
    let events = drain(&mut out);
    assert!(auto_claims(&events), "{events:?}");
    // The clock is spent by the claim.
    assert!(slot.state.session.unwrap().auto_host_deadline.is_none());
}

#[test]
fn an_acquire_names_the_version_it_has() {
    let mut out = task();
    let mut slot = SaveSlot::new(world("w1", "valheim"), Some(7));
    request_acquire(&mut slot, &mut out);
    assert!(matches!(out.cmds[0], LeaseCmd::Acquire { base_version: 7, .. }));
    let mut slot = SaveSlot::new(world("w1", "valheim"), None);
    request_acquire(&mut slot, &mut out);
    assert!(matches!(out.cmds[1], LeaseCmd::Acquire { base_version: 0, .. }));
    // With no lease task there is nobody to ask.
    let mut slot = SaveSlot::new(world("w1", "valheim"), None);
    request_acquire(&mut slot, &mut alone());
    assert!(!slot.state.lease_requested);
}

#[test]
fn a_write_under_somebody_elses_lease_goes_local() {
    let mut out = task();
    let mut s = slots(vec![world("w1", "valheim")]);
    at(&mut s, "w1").state.lease = LeaseObs::Other;
    started(&mut s, "w1", &mut out);
    drain(&mut out);
    let slot = at(&mut s, "w1");
    on_write(slot, &mut out);
    assert!(lines(&mut out).is_empty());
    assert!(drain(&mut out).is_empty(), "the hold tells the user, not this");
    assert!(slot.state.session.unwrap().side_copy);
}

#[test]
fn a_viewer_is_told_on_the_second_write_once() {
    let mut out = alone();
    let mut s = slots(vec![world("w1", "valheim")]);
    at(&mut s, "w1").state.lease = LeaseObs::Other;
    started(&mut s, "w1", &mut out);
    drain(&mut out);
    let slot = at(&mut s, "w1");
    slot.state.role = WorldRole::View;
    on_claim(slot);
    on_write(slot, &mut out);
    assert!(drain(&mut out).is_empty(), "one write is a save at exit");
    on_write(slot, &mut out);
    let events = drain(&mut out);
    assert!(
        matches!(events.as_slice(), [AgentEvent::ViewSessionWriting { .. }]),
        "{events:?}"
    );
    on_write(slot, &mut out);
    assert!(drain(&mut out).is_empty());
    assert_eq!(slot.state.session.unwrap().writes, 3);
}

#[test]
fn the_lease_goes_back_only_once_nothing_is_pending_or_in_flight() {
    let mut out = task();
    let mut s = slots(vec![world("w1", "valheim")]);
    at(&mut s, "w1").state.lease = LeaseObs::Mine;
    started(&mut s, "w1", &mut out);
    drain(&mut out);
    let slot = at(&mut s, "w1");
    slot.state.has_pending = true;
    // Still playing: nothing.
    assert!(!maybe_release_after_stop(slot, &mut out));
    on_game_stopped(slot);
    // The final flush is owed.
    assert!(!maybe_release_after_stop(slot, &mut out));
    slot.state.has_pending = false;
    slot.state.in_flight = true;
    // And in flight.
    assert_eq!(rec(slot, &mut out), Followup::Nothing);
    assert!(slot.state.session.is_some());
    slot.state.in_flight = false;
    assert_eq!(rec(slot, &mut out), Followup::Nothing);
    assert_eq!(lines(&mut out), ["release w1"]);
    let events = drain(&mut out);
    assert!(
        matches!(events.as_slice(), [AgentEvent::WorldReleased { .. }]),
        "{events:?}"
    );
    assert!(slot.state.session.is_none());
}

/// A viewer's session that wrote, stopped, with its side copy on its way.
fn landing(out: &mut Outbox) -> Slots {
    let mut s = slots(vec![world("w1", "valheim")]);
    at(&mut s, "w1").state.lease = LeaseObs::Other;
    started(&mut s, "w1", out);
    drain(out);
    let slot = at(&mut s, "w1");
    slot.state.role = WorldRole::View;
    slot.state.has_pending = true;
    on_game_stopped(slot);
    assert_eq!(rec(slot, out), Followup::SideCopy);
    s
}

#[test]
fn a_viewers_writes_end_in_a_side_copy_and_the_head_comes_back() {
    let mut out = alone();
    let mut s = landing(&mut out);
    // Asked once; the next pass waits for it to land.
    assert_eq!(rec(at(&mut s, "w1"), &mut out), Followup::Nothing);
    on_side_copied(&mut s, "w1", 2, false, 0, WALL, &mut out);
    let slot = state(&s, "w1");
    assert!(!slot.has_pending);
    assert!(slot.pull_pending);
    assert_eq!(slot.known_version, None);
    assert!(slot.session.is_none());
    assert!(drain(&mut out).is_empty(), "the game is not running");
    // A second landing finds no session to end.
    let before = state(&s, "w1");
    on_side_copied(&mut s, "w1", 2, false, 9, WALL, &mut out);
    on_side_copy_failed(&mut s, "w1", 9, WALL, &mut out);
    assert_eq!(state(&s, "w1"), before);
}

/// The copy's renames reach the watcher too, some after the landing: none of them marks the emptied
/// folder pending, and the touch reads as ours to the pull's veto.
#[test]
fn the_side_copys_own_hits_are_not_pending() {
    let mut out = alone();
    let mut s = slots(vec![world("w1", "valheim")]);
    at(&mut s, "w1").state.lease = LeaseObs::Other;
    started(&mut s, "w1", &mut out);
    assert!(!hit_is_side_copy(at(&mut s, "w1"), 0), "a write while playing");
    let mut s = landing(&mut out);
    assert!(hit_is_side_copy(at(&mut s, "w1"), 0), "a rename while the copy runs");
    let landed = 3 * SEC;
    on_side_copied(&mut s, "w1", 2, false, landed, WALL + 3 * SECOND, &mut out);
    let slot = at(&mut s, "w1");
    assert!(slot.state.session.is_none());
    assert!(!slot.state.has_pending);
    assert_eq!(slot.state.last_restore_at, Some(WALL + 3 * SECOND), "the touch is ours");
    assert!(hit_is_side_copy(slot, landed + 2 * SEC), "the debouncer's tail");
    assert!(hit_is_side_copy(slot, landed + SIDE_COPY_TAIL - 1), "to its last nanosecond");
    assert!(
        !hit_is_side_copy(slot, landed + SIDE_COPY_TAIL),
        "after the tail a write is a write"
    );
}

/// Behind the head with a pending mark and nothing of the world in the folder: the set-aside before
/// the pull moves nothing, and that is not a write left local-only.
#[test]
fn a_side_copy_with_no_world_on_disk_lets_the_pull_through() {
    let mut out = alone();
    let mut s = slots(vec![world("w1", "valheim")]);
    let slot = at(&mut s, "w1");
    slot.state.lease = LeaseObs::Free;
    slot.state.has_pending = true;
    on_stale(slot, 3, true);
    assert!(!slot.state.pull_pending, "held back by the pending mark");
    assert_eq!(rec(slot, &mut out), Followup::SideCopy);
    on_side_copied(&mut s, "w1", 0, false, 0, WALL, &mut out);
    let slot = at(&mut s, "w1");
    assert!(slot.state.session.is_none());
    assert!(!slot.state.has_pending);
    assert!(!slot.state.local_only_pending);
    assert!(slot.state.pull_pending);
    assert_eq!(slot.state.role, WorldRole::Host);
    assert!(!may_request_lease(slot));
}

/// The side copy is skipped or fails with writes still in the folder: the session ends, but the
/// slot stays a viewer and asks for no lease until they are versioned or set aside.
#[test]
fn a_failed_side_copy_keeps_the_writes_local_only() {
    for moved in [None, Some(0)] {
        let mut out = alone();
        let mut s = slots(vec![world("w1", "valheim")]);
        at(&mut s, "w1").state.lease = LeaseObs::Free;
        started(&mut s, "w1", &mut out);
        drain(&mut out);
        let slot = at(&mut s, "w1");
        slot.state.role = WorldRole::View;
        on_claim(slot);
        slot.state.has_pending = true;
        on_game_stopped(slot);
        assert_eq!(rec(slot, &mut out), Followup::SideCopy);
        match moved {
            None => on_side_copy_failed(&mut s, "w1", 0, WALL, &mut out),
            Some(n) => on_side_copied(&mut s, "w1", n, true, 0, WALL, &mut out),
        }
        let slot = at(&mut s, "w1");
        assert!(slot.state.session.is_none(), "{moved:?}");
        assert_eq!(slot.state.role, WorldRole::View, "{moved:?}");
        assert!(slot.state.local_only_pending, "{moved:?}");
        assert!(slot.state.has_pending, "{moved:?}");
        assert!(!may_request_lease(slot), "{moved:?}: the hold would acquire");
        // The next session starts as a viewer too.
        started(&mut s, "w1", &mut out);
        assert_eq!(drain(&mut out).len(), 1, "{moved:?}: asked again");
        let slot = at(&mut s, "w1");
        assert_eq!(slot.state.role, WorldRole::View, "{moved:?}");
        assert!(!may_request_lease(slot), "{moved:?}");
        // Versioned at last (the user hosted and pushed): a host again.
        slot.state.has_pending = false;
        slot.state.local_only_pending = false;
        on_game_stopped(slot);
        assert_eq!(rec(slot, &mut out), Followup::Nothing);
        assert_eq!(slot.state.role, WorldRole::Host, "{moved:?}");
    }
}

/// A lease this machine still holds at launch is a role, not a question: no prompt. Viewing it
/// anyway gives the lease back.
#[test]
fn a_world_still_held_is_not_asked_about_and_viewing_it_releases() {
    let mut out = task();
    let mut s = slots(vec![world("w1", "valheim")]);
    at(&mut s, "w1").state.lease = LeaseObs::Mine;
    started(&mut s, "w1", &mut out);
    assert!(drain(&mut out).is_empty(), "hosting already");
    let w = session(&s, "w1");
    assert!(w.claimed && !w.prompted && w.live());
    // The second save of the game matched: still one session, no prompt.
    started(&mut s, "w1", &mut out);
    assert!(drain(&mut out).is_empty());
    let slot = at(&mut s, "w1");
    on_claim_world(slot, WorldRole::View, &mut out);
    assert_eq!(lines(&mut out), ["release w1"]);
    assert_eq!(slot.state.role, WorldRole::View);
    assert!(!slot.state.role_pinned, "a role taken in a session is the session's");
    let events = drain(&mut out);
    assert!(
        matches!(
            events.as_slice(),
            [AgentEvent::WorldClaimed {
                role: WorldRole::View,
                by_agent: false,
                ..
            }]
        ),
        "{events:?}"
    );
}

/// A write under a lease still unknown is the claim flow's to turn into an acquire.
#[test]
fn a_write_under_an_unknown_lease_is_acquired_by_the_claim_flow() {
    let mut out = task();
    let mut s = slots(vec![world("w1", "valheim")]);
    started(&mut s, "w1", &mut out);
    drain(&mut out);
    let slot = at(&mut s, "w1");
    slot.state.has_pending = true;
    on_write(slot, &mut out);
    assert!(!may_request_lease(slot), "the hold acquired around the prompt");
    on_lease(slot, LeaseObs::Free, None, false, &mut out);
    assert!(!may_request_lease(slot));
    assert_eq!(rec(slot, &mut out), Followup::Nothing);
    assert_eq!(lines(&mut out), ["acquire w1"]);
    let events = drain(&mut out);
    assert!(auto_claims(&events), "{events:?}");
    assert!(slot.state.session.unwrap().claimed);
    // Claimed: a later hold (the acquire refused as stale, say) may ask.
    slot.state.lease_requested = false;
    assert!(may_request_lease(slot));
}

/// A lease lost during the final flush: the side copy waits for the upload, which reads the very
/// files it would move.
#[test]
fn the_side_copy_waits_for_the_upload_in_flight() {
    let mut out = alone();
    let mut s = slots(vec![world("w1", "valheim")]);
    at(&mut s, "w1").state.lease = LeaseObs::Mine;
    started(&mut s, "w1", &mut out);
    drain(&mut out);
    let slot = at(&mut s, "w1");
    slot.state.has_pending = true;
    on_game_stopped(slot);
    slot.state.in_flight = true;
    on_lease(slot, LeaseObs::Other, Some("bob".into()), false, &mut out);
    assert_eq!(rec(slot, &mut out), Followup::Nothing);
    assert!(slot.state.session.is_some());
    assert!(!slot.state.session.unwrap().side_copy_started);
    slot.state.in_flight = false;
    assert_eq!(rec(slot, &mut out), Followup::SideCopy);
}

/// The game was found through one world's activity: its stop closes the siblings' sessions too,
/// except one whose own process still runs.
#[test]
fn a_siblings_session_closes_with_the_game() {
    let mut out = alone();
    let mut s = slots(vec![
        world("w1", "valheim"),
        world("w2", "valheim"),
        world("w3", "valheim"),
    ]);
    started(&mut s, "w1", &mut out);
    drain(&mut out);
    at(&mut s, "w3").state.is_running = true;
    on_game_stopped_all(&mut s, "w1");
    assert!(!session(&s, "w1").live());
    assert!(!session(&s, "w2").live());
    assert!(session(&s, "w3").live(), "its own process runs");
    // And the next launch asks again once the sessions are gone.
    for id in ["w1", "w2"] {
        let slot = at(&mut s, id);
        assert_eq!(rec(slot, &mut out), Followup::Nothing);
        assert!(slot.state.session.is_none());
    }
}

/// A refresh answering between the click and the acquire's verdict is an observation: the session
/// waits for the verdict, and a stop in between ends nothing.
#[test]
fn an_observed_lease_does_not_answer_the_acquire() {
    let mut out = task();
    let mut s = slots(vec![world("w1", "valheim")]);
    started(&mut s, "w1", &mut out);
    let slot = at(&mut s, "w1");
    on_claim_world(slot, WorldRole::Host, &mut out);
    drain(&mut out);
    assert!(slot.state.lease_requested);
    // The refresh queued before the click answers first.
    on_lease(slot, LeaseObs::Free, None, false, &mut out);
    assert!(slot.state.lease_requested, "an observation answers no acquire");
    on_game_stopped(slot);
    assert_eq!(rec(slot, &mut out), Followup::Nothing);
    assert!(slot.state.session.is_some(), "the acquire is still owed an answer");
    // A frame reading mine before the verdict changes nothing either.
    on_lease(slot, LeaseObs::Mine, Some("me".into()), false, &mut out);
    assert_eq!(rec(slot, &mut out), Followup::Nothing);
    assert!(slot.state.session.is_some());
    on_lease(slot, LeaseObs::Mine, Some("me".into()), true, &mut out);
    assert!(!slot.state.lease_requested);
    assert_eq!(rec(slot, &mut out), Followup::Nothing);
    assert!(slot.state.session.is_none(), "released once the verdict landed");
    assert_eq!(lines(&mut out), ["acquire w1", "release w1"]);
    assert!(matches!(
        drain(&mut out).as_slice(),
        [AgentEvent::WorldReleased { .. }]
    ));
}

/// A role chosen before the process was seen is the next session's answer: kept, not asked again,
/// and gone with that session.
#[test]
fn a_role_chosen_before_launch_is_kept_for_the_session() {
    let mut out = alone();
    let mut s = slots(vec![world("w1", "valheim")]);
    at(&mut s, "w1").state.lease = LeaseObs::Free;
    on_claim_world(at(&mut s, "w1"), WorldRole::View, &mut out);
    drain(&mut out);
    assert!(state(&s, "w1").role_pinned);
    started(&mut s, "w1", &mut out);
    assert!(drain(&mut out).is_empty(), "answered already");
    let slot = at(&mut s, "w1");
    assert_eq!(slot.state.role, WorldRole::View);
    assert!(!slot.state.role_pinned, "the pin is spent on the session");
    let w = slot.state.session.unwrap();
    assert!(w.claimed && w.auto_host_deadline.is_none());
    // A write is a viewer's: no acquire.
    on_write(slot, &mut out);
    assert_eq!(slot.state.session.unwrap().writes, 1);
    on_game_stopped(slot);
    assert_eq!(rec(slot, &mut out), Followup::Nothing);
    assert_eq!(slot.state.role, WorldRole::Host, "for one session");
    started(&mut s, "w1", &mut out);
    assert_eq!(drain(&mut out).len(), 1, "the next launch asks");
}

#[test]
fn a_session_with_nothing_owed_just_ends() {
    let mut out = alone();
    let mut s = slots(vec![world("w1", "valheim")]);
    at(&mut s, "w1").state.lease = LeaseObs::Free;
    started(&mut s, "w1", &mut out);
    drain(&mut out);
    let slot = at(&mut s, "w1");
    on_game_stopped(slot);
    assert_eq!(rec(slot, &mut out), Followup::Nothing);
    assert!(slot.state.session.is_none());
    assert!(drain(&mut out).is_empty());
    // And the next launch asks again.
    started(&mut s, "w1", &mut out);
    assert_eq!(drain(&mut out).len(), 1);
}

/// Viewing is for one session: the next launch of the same world starts as a host again, clock and
/// all.
#[test]
fn a_view_choice_ends_with_its_session() {
    let mut out = alone();
    let mut s = slots(vec![world("w1", "valheim")]);
    at(&mut s, "w1").state.lease = LeaseObs::Free;
    started(&mut s, "w1", &mut out);
    drain(&mut out);
    let slot = at(&mut s, "w1");
    slot.state.role = WorldRole::View;
    on_claim(slot);
    on_game_stopped(slot);
    assert_eq!(rec(slot, &mut out), Followup::Nothing);
    assert!(slot.state.session.is_none());
    assert_eq!(slot.state.role, WorldRole::Host);
    started(&mut s, "w1", &mut out);
    assert_eq!(drain(&mut out).len(), 1);
    assert!(session(&s, "w1").auto_host_deadline.is_some());
}

/// The game relaunched while the side copy was on its way: the old session keeps the copy, the new
/// launch asks nothing about that world yet, and the landing ends the old session and opens the new
/// one, with its prompt.
#[test]
fn a_relaunch_waits_for_the_side_copy_to_land() {
    let mut out = alone();
    let mut s = landing(&mut out);
    started(&mut s, "w1", &mut out);
    assert!(drain(&mut out).is_empty(), "no prompt while the copy is landing");
    assert!(session(&s, "w1").side_copy_started);
    assert!(!session(&s, "w1").live());
    assert!(state(&s, "w1").relaunch_pending);
    on_side_copied(&mut s, "w1", 2, false, 0, WALL, &mut out);
    let slot = state(&s, "w1");
    assert!(!slot.has_pending);
    assert_eq!(slot.role, WorldRole::Host);
    assert!(!slot.relaunch_pending);
    let w = session(&s, "w1");
    assert!(w.live() && w.prompted && !w.side_copy_started);
    assert_eq!(drain(&mut out).len(), 1, "the landing asks for the relaunch");
    // Stopped again before the copy landed: nothing to open.
    let mut s = landing(&mut out);
    started(&mut s, "w1", &mut out);
    on_game_stopped_all(&mut s, "w1");
    on_side_copied(&mut s, "w1", 2, false, 0, WALL, &mut out);
    assert!(state(&s, "w1").session.is_none());
    assert!(drain(&mut out).is_empty());
}

/// A write while nobody knows who holds the lease is not lost: it claims the moment the refresh
/// reads free.
#[test]
fn a_write_under_an_unknown_lease_claims_once_it_reads_free() {
    let mut out = alone();
    let mut s = slots(vec![world("w1", "valheim")]);
    started(&mut s, "w1", &mut out);
    drain(&mut out);
    let slot = at(&mut s, "w1");
    assert_eq!(slot.state.lease, LeaseObs::Unknown);
    on_write(slot, &mut out);
    assert!(drain(&mut out).is_empty());
    assert!(slot.state.session.unwrap().wrote_unclaimed);
    slot.state.lease = LeaseObs::Free;
    assert_eq!(rec(slot, &mut out), Followup::Nothing);
    let events = drain(&mut out);
    assert!(auto_claims(&events), "{events:?}");
    assert!(slot.state.session.unwrap().claimed);
}

/// Every release this machine asks for answers with the lease free: none of them is a lost lease.
#[test]
fn a_release_this_machine_asked_for_is_not_a_lost_lease() {
    for path in ["after the flush", "release", "view"] {
        let mut out = task();
        let mut s = slots(vec![world("w1", "valheim")]);
        at(&mut s, "w1").state.lease = LeaseObs::Mine;
        started(&mut s, "w1", &mut out);
        let slot = at(&mut s, "w1");
        match path {
            "after the flush" => {
                on_game_stopped(slot);
                assert_eq!(rec(slot, &mut out), Followup::Nothing);
            }
            "release" => on_release_world(slot, &mut out),
            _ => on_claim_world(slot, WorldRole::View, &mut out),
        }
        assert_eq!(lines(&mut out), ["release w1"], "{path}");
        assert!(slot.state.release_requested, "{path}");
        drain(&mut out);
        // The task's answer to the release.
        on_lease(slot, LeaseObs::Free, None, false, &mut out);
        assert!(!slot.state.release_requested, "{path}");
        assert!(drain(&mut out).is_empty(), "{path}: told as a lost lease");
    }
}

fn held(s: &mut Slots) {
    let slot = at(s, "w1");
    slot.state.lease = LeaseObs::Mine;
    slot.state.has_pending = true;
    slot.state.world_held = WorldHeld {
        consecutive: 5,
        needs_attention: true,
    };
}

/// A world whose push is held for a file that cannot be read gives its lease back once it parks and
/// no game runs here, with the writes still pending.
#[test]
fn a_held_world_gives_the_lease_back_with_no_game_running() {
    for case in ["no session", "session stopped", "parked, pinned"] {
        let mut out = task();
        let mut s = slots(vec![world("w1", "valheim")]);
        held(&mut s);
        if case == "session stopped" {
            started(&mut s, "w1", &mut out);
            on_game_stopped(at(&mut s, "w1"));
        }
        if case == "parked, pinned" {
            at(&mut s, "w1").state.role_pinned = true;
        }
        drain(&mut out);
        let slot = at(&mut s, "w1");
        assert_eq!(rec(slot, &mut out), Followup::Nothing);
        assert_eq!(lines(&mut out), ["release w1"], "{case}");
        assert!(slot.state.has_pending, "{case}: the writes stay pending");
        assert!(!slot.state.role_pinned, "{case}: the pin outlived the release");
        assert!(
            drain(&mut out)
                .iter()
                .any(|e| matches!(e, AgentEvent::WorldReleased { .. })),
            "{case}"
        );
    }
    // Held but still on its ladder: a file locked for seconds must not hand the world to a member
    // who would host from the old head.
    for case in [
        "running",
        "session live",
        "not held",
        "held once",
        "held, session stopped",
    ] {
        let mut out = task();
        let mut s = slots(vec![world("w1", "valheim")]);
        held(&mut s);
        let on_ladder = WorldHeld {
            consecutive: 1,
            needs_attention: false,
        };
        match case {
            "running" => at(&mut s, "w1").state.is_running = true,
            "session live" => started(&mut s, "w1", &mut out),
            "held once" => at(&mut s, "w1").state.world_held = on_ladder,
            "held, session stopped" => {
                at(&mut s, "w1").state.world_held = on_ladder;
                started(&mut s, "w1", &mut out);
                on_game_stopped(at(&mut s, "w1"));
            }
            _ => {
                at(&mut s, "w1").state.world_held = WorldHeld {
                    consecutive: 0,
                    needs_attention: false,
                }
            }
        }
        rec(at(&mut s, "w1"), &mut out);
        assert!(lines(&mut out).is_empty(), "{case}");
    }
}

/// Once somebody else hosts, a held world's writes can never go up, so they are set aside before
/// the pull, as an owner's are.
#[test]
fn a_held_world_hosted_elsewhere_is_set_aside() {
    for held in [true, false] {
        let mut out = alone();
        let mut s = slots(vec![world("w1", "valheim")]);
        let slot = at(&mut s, "w1");
        slot.state.lease = LeaseObs::Other;
        slot.state.has_pending = true;
        if held {
            slot.state.world_held.consecutive = 2;
        }
        let expected = if held {
            Followup::SideCopy
        } else {
            Followup::Nothing
        };
        assert_eq!(rec(slot, &mut out), expected, "held={held}");
        if held {
            on_side_copied(&mut s, "w1", 1, false, 0, WALL, &mut out);
            assert!(matches!(
                drain(&mut out).as_slice(),
                [AgentEvent::BackupAttentionCleared { .. }]
            ));
            assert!(!state(&s, "w1").world_held.active());
        }
    }
}

/// A claim made outside a session and then released leaves no pin behind, so a later push with no
/// session gives the lease back once it is up.
#[test]
fn a_released_claim_does_not_keep_a_later_push_s_lease() {
    let mut out = task();
    let mut s = slots(vec![world("w1", "valheim")]);
    let slot = at(&mut s, "w1");
    on_claim_world(slot, WorldRole::Host, &mut out);
    assert!(slot.state.role_pinned);
    on_lease(slot, LeaseObs::Mine, None, true, &mut out);
    on_release_world(slot, &mut out);
    on_lease(slot, LeaseObs::Free, None, false, &mut out);
    assert!(!slot.state.role_pinned);
    lines(&mut out);

    // A push with no session takes the lease, and goes up.
    slot.state.has_pending = true;
    request_acquire(slot, &mut out);
    on_lease(slot, LeaseObs::Mine, None, true, &mut out);
    slot.state.has_pending = false;
    lines(&mut out);
    assert_eq!(rec(slot, &mut out), Followup::Nothing);
    assert_eq!(lines(&mut out), ["release w1"]);
}

/// A lease taken off this machine, or gone while the renew could not get through, is lost, and still
/// is after an earlier release was answered.
#[test]
fn a_forced_or_expired_lease_is_still_lost() {
    let mut out = task();
    for (obs, holder) in [(LeaseObs::Other, Some("bob")), (LeaseObs::Free, None)] {
        let mut s = slots(vec![world("w1", "valheim")]);
        let slot = at(&mut s, "w1");
        slot.state.lease = LeaseObs::Mine;
        on_release_world(slot, &mut out);
        on_lease(slot, LeaseObs::Free, None, false, &mut out);
        // Hosting again.
        on_claim_world(slot, WorldRole::Host, &mut out);
        on_lease(slot, LeaseObs::Mine, Some("me".into()), true, &mut out);
        assert_eq!(slot.state.lease, LeaseObs::Mine);
        drain(&mut out);
        on_lease(slot, obs, holder.map(String::from), false, &mut out);
        let events = drain(&mut out);
        let [AgentEvent::WorldLeaseLost { holder: told, .. }] = events.as_slice() else {
            panic!("{obs:?}: {events:?}");
        };
        assert_eq!(told.as_deref(), holder);
    }
    assert_eq!(
        lines(&mut out),
        ["release w1", "acquire w1", "release w1", "acquire w1"],
        "a loss is not given back again"
    );
}

/// Viewing while the acquire is still out: the task's queued retry is cancelled, and a verdict that
/// lands `Mine` anyway is given back at once and never read as ours.
#[test]
fn viewing_while_the_acquire_is_out_ends_with_no_lease() {
    for stop_first in [false, true] {
        let mut out = task();
        let mut s = slots(vec![world("w1", "valheim")]);
        at(&mut s, "w1").state.lease = LeaseObs::Free;
        started(&mut s, "w1", &mut out);
        let slot = at(&mut s, "w1");
        on_claim_world(slot, WorldRole::Host, &mut out);
        on_claim_world(slot, WorldRole::View, &mut out);
        assert!(!slot.state.lease_requested, "{stop_first}");
        slot.state.has_pending = true;
        assert!(!may_request_lease(slot), "{stop_first}");
        slot.state.has_pending = false;
        if stop_first {
            on_game_stopped(slot);
            assert_eq!(rec(slot, &mut out), Followup::Nothing);
            assert!(slot.state.session.is_none());
            assert_eq!(slot.state.role, WorldRole::Host);
        }
        drain(&mut out);
        // The acquire that was already on the wire.
        on_lease(slot, LeaseObs::Mine, Some("me".into()), true, &mut out);
        assert_ne!(slot.state.lease, LeaseObs::Mine, "{stop_first}: read as ours");
        assert_eq!(slot.lease_holder, None);
        // The release's answer.
        on_lease(slot, LeaseObs::Free, None, false, &mut out);
        assert_eq!(slot.state.lease, LeaseObs::Free, "{stop_first}");
        assert!(!slot.state.release_requested, "{stop_first}");
        assert!(drain(&mut out).is_empty(), "{stop_first}: told as a loss");
        assert_eq!(
            lines(&mut out),
            ["acquire w1", "cancel w1", "release w1"],
            "{stop_first}"
        );
    }
}

/// The relaunch asked about the other world while this one's side copy landed, and the user chose
/// it: the landing world opens as "not playing", with no second prompt and no clock.
#[test]
fn a_landing_world_is_not_asked_about_once_a_sibling_was_chosen() {
    let mut out = alone();
    let mut s = slots(vec![world("w1", "valheim"), world("w2", "valheim")]);
    at(&mut s, "w1").state.lease = LeaseObs::Other;
    at(&mut s, "w2").state.lease = LeaseObs::Free;
    started(&mut s, "w1", &mut out);
    drain(&mut out);
    let slot = at(&mut s, "w1");
    slot.state.role = WorldRole::View;
    on_claim(slot);
    slot.state.has_pending = true;
    on_game_stopped_all(&mut s, "w1");
    assert_eq!(rec(at(&mut s, "w1"), &mut out), Followup::SideCopy);
    assert_eq!(rec(at(&mut s, "w2"), &mut out), Followup::Nothing);
    started(&mut s, "w2", &mut out);
    let events = drain(&mut out);
    let [AgentEvent::WorldClaimWanted { worlds, .. }] = events.as_slice() else {
        panic!("{events:?}");
    };
    assert_eq!(worlds.len(), 1);
    assert_eq!(worlds[0].save_id, "w2");
    on_claim_world(at(&mut s, "w2"), WorldRole::Host, &mut out);
    drain(&mut out);
    on_side_copied(&mut s, "w1", 2, false, 0, WALL, &mut out);
    assert!(drain(&mut out).is_empty(), "asked again after the choice");
    let w = session(&s, "w1");
    assert!(w.live() && w.dismissed && !w.prompted);
    assert!(w.auto_host_deadline.is_none());
}

/// An answer given after the game closed, while its session still owes the final flush, is that
/// session's: the next launch asks again.
#[test]
fn an_answer_to_a_stopped_session_does_not_decide_the_next_launch() {
    let mut out = task();
    let mut s = slots(vec![world("w1", "valheim")]);
    at(&mut s, "w1").state.lease = LeaseObs::Mine;
    started(&mut s, "w1", &mut out);
    let slot = at(&mut s, "w1");
    slot.state.has_pending = true;
    on_game_stopped(slot);
    assert_eq!(rec(slot, &mut out), Followup::Nothing);
    assert!(slot.state.session.is_some(), "the flush is owed");
    on_claim_world(slot, WorldRole::Host, &mut alone());
    assert!(!slot.state.role_pinned, "pinned for the next launch");
    slot.state.has_pending = false;
    assert_eq!(rec(slot, &mut out), Followup::Nothing);
    assert!(slot.state.session.is_none());
    on_lease(slot, LeaseObs::Free, None, false, &mut out);
    drain(&mut out);
    started(&mut s, "w1", &mut out);
    assert_eq!(drain(&mut out).len(), 1, "the next launch asks");
    let w = session(&s, "w1");
    assert!(w.prompted && !w.claimed);
}

/// After a service restart nothing runs and nothing was claimed, and the last session's writes are
/// still pending: the push takes the lease, goes up, and the lease is given back once it lands.
#[test]
fn a_push_with_no_session_gives_the_lease_back_once_it_lands() {
    let mut out = task();
    let mut s = slots(vec![world("w1", "valheim")]);
    let slot = at(&mut s, "w1");
    assert_eq!(slot.state.lease, LeaseObs::Unknown);
    assert!(slot.state.session.is_none() && !slot.state.role_pinned);
    slot.state.has_pending = true;

    assert!(may_request_lease(slot));
    request_acquire(slot, &mut out);
    on_lease(slot, LeaseObs::Free, None, false, &mut out);
    assert_eq!(rec(slot, &mut out), Followup::Nothing);
    on_lease(slot, LeaseObs::Mine, Some("me".into()), true, &mut out);
    assert_eq!(slot.state.lease, LeaseObs::Mine);
    // Held while the push is still to go, and while it streams.
    rec(slot, &mut out);
    slot.state.has_pending = false;
    slot.state.in_flight = true;
    rec(slot, &mut out);
    assert!(!slot.state.release_requested, "released under the push");

    // The push landed: nothing pending, nothing in flight.
    slot.state.in_flight = false;
    rec(slot, &mut out);
    assert!(slot.state.release_requested);
    // Asked once, not every tick until the answer.
    rec(slot, &mut out);
    on_lease(slot, LeaseObs::Free, None, false, &mut out);
    assert_eq!(slot.state.lease, LeaseObs::Free);
    assert!(!slot.state.release_requested);
    assert!(drain(&mut out).is_empty(), "the release was told as a lost lease");
    assert_eq!(lines(&mut out), ["acquire w1", "release w1"]);

    // A role pinned for the next launch is not a push's lease.
    on_claim_world(slot, WorldRole::Host, &mut out);
    assert!(slot.state.role_pinned);
    on_lease(slot, LeaseObs::Mine, Some("me".into()), true, &mut out);
    rec(slot, &mut out);
    assert!(!slot.state.release_requested, "gave back a pinned claim");
    assert_eq!(lines(&mut out), ["acquire w1"]);
}

#[test]
fn a_side_copy_is_named_after_its_moment() {
    assert_eq!(side_copy_dir("w1", 0), "w1/1970-01-01T00-00-00Z");
    assert_eq!(
        side_copy_dir("w1", 1_800_000_000_000_000_000),
        "w1/2027-01-15T08-00-00Z"
    );
    assert_eq!(
        side_copy_dir("w1", 1_800_000_000_120_000_000),
        "w1/2027-01-15T08-00-00.12Z"
    );
    assert_eq!(side_copy_dir("w1", -1), "w1/1969-12-31T23-59-59.999999999Z");
    // RFC 3339 has no text for a year before our era.
    assert_eq!(side_copy_dir("w1", -99_999_999_999_000_000_000), "w1/unknown-ts");
}

/// An owner's side copy that finds no file of the world on disk lets the pull through, and the
/// owner's pending writes outside the world are looked at again once it lands.
#[test]
fn a_side_copy_with_no_world_on_disk_keeps_the_owners_edits_for_after_the_pull() {
    let mut out = alone();
    let mut s = slots(vec![owned_world()]);
    let slot = at(&mut s, "w1");
    slot.state.has_pending = true;
    let mut w = WorldSession::new(0, WALL);
    w.stopped = true;
    w.side_copy_started = true;
    slot.state.session = Some(w);
    on_side_copied(&mut s, "w1", 0, false, 0, WALL, &mut out);
    let slot = state(&s, "w1");
    assert!(slot.session.is_none());
    assert!(!slot.has_pending && slot.pull_pending);
    assert!(slot.recheck_pending_after_pull, "looked at after the pull");
}

/// An owner who viewed the world and changed only a character: nothing is set aside.
#[test]
fn an_owner_viewers_character_change_is_not_set_aside_and_backs_up() {
    let mut out = alone();
    let mut s = slots(vec![owned_world()]);
    at(&mut s, "w1").state.lease = LeaseObs::Other;
    started(&mut s, "w1", &mut out);
    let slot = at(&mut s, "w1");
    slot.state.role = WorldRole::View;
    slot.state.has_pending = true;
    on_game_stopped(slot);
    assert_eq!(
        on_reconciled(slot, 0, WALL, GRACE, false, &mut out),
        Followup::Nothing
    );
    assert!(slot.state.session.is_none());
    assert!(slot.state.has_pending);
}

/// The owner changed the world and a character under somebody else's lease: the world is set aside,
/// and what lies outside it is looked at once the pull has landed.
#[test]
fn an_owners_world_and_character_change_sets_aside_only_the_world() {
    let mut out = alone();
    let mut s = slots(vec![owned_world()]);
    at(&mut s, "w1").state.lease = LeaseObs::Other;
    started(&mut s, "w1", &mut out);
    let slot = at(&mut s, "w1");
    slot.state.has_pending = true;
    on_game_stopped(slot);
    assert_eq!(rec(slot, &mut out), Followup::SideCopy);
    on_side_copied(&mut s, "w1", 1, false, 0, WALL, &mut out);
    let slot = state(&s, "w1");
    assert!(!slot.has_pending, "nothing vetoes the pull that refills the world");
    assert!(slot.pull_pending);
    assert!(slot.recheck_pending_after_pull);
}

fn hit(rel: &str, is_file: bool) -> Hit {
    Hit {
        rel: rel.into(),
        is_file,
    }
}

/// A write to a character during a session on the owner's world is not evidence of playing it: no
/// lease is asked for. A write to the world is, and so is a hit that names only the folder, or no
/// path at all.
#[test]
fn a_write_outside_the_world_claims_nothing() {
    let mut out = task();
    let fresh = |out: &mut Outbox| {
        let mut s = slots(vec![owned_world()]);
        at(&mut s, "w1").state.lease = LeaseObs::Free;
        started(&mut s, "w1", out);
        drain(out);
        s
    };
    let mut s = fresh(&mut out);
    let slot = at(&mut s, "w1");
    let character = || hit("characters_local/me.fch", true);
    let beta = || hit("worlds_local/Beta.db", true);
    on_write_at(slot, &vec![character()], &mut out);
    on_write_at(slot, &vec![beta()], &mut out);
    on_write_at(slot, &vec![character(), beta()], &mut out);
    assert!(
        lines(&mut out).is_empty(),
        "a write outside the world asked for the lease"
    );
    assert!(!slot.state.session.unwrap().claimed);
    assert!(drain(&mut out).is_empty());

    // One world file in the batch is enough.
    on_write_at(slot, &vec![beta(), hit("worlds_local\\Alpha.db", true)], &mut out);
    assert_eq!(lines(&mut out), ["acquire w1"]);
    assert!(slot.state.session.unwrap().claimed);

    // A hit on the folder alone, an event with no path, and a directory the world reaches into
    // cannot rule the world out: each claims.
    for hits in [
        vec![hit("", false)],
        Vec::new(),
        vec![hit("worlds_local", false)],
    ] {
        let mut s = fresh(&mut out);
        let slot = at(&mut s, "w1");
        on_write_at(slot, &hits, &mut out);
        assert_eq!(lines(&mut out), ["acquire w1"], "{hits:?}");
        assert!(slot.state.session.unwrap().claimed, "{hits:?}");
    }
}

/// Behind the head with only the owner's files outside the world pending: nothing is set aside and
/// the pull is not held back for them. A write to the world behind the head still is set aside.
#[test]
fn behind_the_head_the_owners_other_writes_are_not_set_aside() {
    let mut out = alone();
    let mut s = slots(vec![owned_world()]);
    let slot = at(&mut s, "w1");
    slot.state.has_pending = true;
    on_stale(slot, 3, false);
    assert!(slot.state.pull_pending);
    assert_eq!(
        on_reconciled(slot, 0, WALL, GRACE, false, &mut out),
        Followup::Nothing
    );
    assert!(slot.state.session.is_none());
    assert_eq!(rec(slot, &mut out), Followup::SideCopy);
}

/// A world that is a folder: a write, or the deletion of a file, anywhere inside it claims it, and
/// the same inside another world's folder claims nothing.
#[test]
fn a_write_inside_a_1_0_world_folder_claims_only_that_world() {
    let mut out = task();
    let fresh = |out: &mut Outbox| {
        let mut save = world("w1", "valheim");
        let shared = save.shared.as_mut().unwrap();
        shared.includes = template("valheim", "Alpha").unwrap().unwrap();
        shared.caller_owns = true;
        let mut s = slots(vec![save]);
        at(&mut s, "w1").state.lease = LeaseObs::Free;
        started(&mut s, "w1", out);
        drain(out);
        s
    };
    let mut s = fresh(&mut out);
    let slot = at(&mut s, "w1");
    for (path, is_file) in [
        ("worlds_local/Gamma/_main.2.db2", true),
        ("worlds_local/Gamma/_main.1.db2", false),
        ("worlds_local/Gamma", false),
        ("characters_local/me.fch", true),
    ] {
        on_write_at(slot, &vec![hit(path, is_file)], &mut out);
    }
    assert!(
        lines(&mut out).is_empty(),
        "a write in another world's folder asked for the lease"
    );
    assert!(!slot.state.session.unwrap().claimed);
    assert!(drain(&mut out).is_empty());

    for (path, is_file) in [
        ("worlds_local/Alpha/_main.5.db2", true),
        ("worlds_local/Alpha/0_0.chunk", true),
        ("worlds_local/Alpha/_main.4.db2", false),
        ("worlds_local/Alpha", false),
    ] {
        let mut s = fresh(&mut out);
        let slot = at(&mut s, "w1");
        on_write_at(slot, &vec![hit(path, is_file)], &mut out);
        assert_eq!(lines(&mut out), ["acquire w1"], "{path}");
        assert!(slot.state.session.unwrap().claimed, "{path}");
    }
}

/// With no session, the owner changed the world and a character while a member hosts: the world is
/// set aside, once, and the head comes down.
#[test]
fn an_owners_world_edit_under_a_members_lease_is_set_aside_with_no_session() {
    let mut out = alone();
    let mut s = slots(vec![owned_world()]);
    let slot = at(&mut s, "w1");
    slot.state.lease = LeaseObs::Other;
    slot.state.has_pending = true;
    assert_eq!(rec(slot, &mut out), Followup::SideCopy);
    assert_eq!(rec(slot, &mut out), Followup::Nothing, "asked once");
    on_side_copied(&mut s, "w1", 1, false, 0, WALL, &mut out);
    let slot = at(&mut s, "w1");
    assert!(slot.state.session.is_none());
    assert!(!slot.state.has_pending && slot.state.pull_pending);
    // The pull lands; the character is still newer, and goes up without the lease.
    slot.state.pull_pending = false;
    slot.state.known_version = Some(3);
    slot.state.has_pending = true;
    assert_eq!(
        on_reconciled(slot, 0, WALL, GRACE, false, &mut out),
        Followup::Nothing
    );
}

/// Adopted with no version and claimed at once: the server refuses the acquire as stale. The head
/// comes down, the claim asks again with it, and the world is hosted here.
#[test]
fn an_adopted_world_claimed_behind_the_head_pulls_then_hosts() {
    let mut out = task();
    let mut slot = SaveSlot::new(world("w1", "valheim"), None);
    let slot = &mut slot;
    on_seated(slot, WALL);
    assert!(slot.state.last_restore_at.is_some(), "the adopt's touch is ours");

    on_claim_world(slot, WorldRole::Host, &mut out);
    on_lease(slot, LeaseObs::Free, None, true, &mut out);
    on_stale(slot, 0, false);
    assert_eq!(slot.state.stale_base, Some(0));
    assert!(slot.state.pull_pending, "the head comes down");
    assert!(!slot.state.lease_requested);
    assert_eq!(rec(slot, &mut out), Followup::Nothing);

    // The pull landed.
    slot.state.pull_pending = false;
    slot.state.known_version = Some(4);
    assert_eq!(rec(slot, &mut out), Followup::Nothing);
    assert_eq!(slot.state.stale_base, None);
    assert!(slot.state.lease_requested, "asked again with the new head");

    on_lease(slot, LeaseObs::Mine, Some("me".into()), true, &mut out);
    assert_eq!(rec(slot, &mut out), Followup::Nothing);
    assert_eq!(slot.state.lease, LeaseObs::Mine);
    assert!(!slot.state.release_requested, "a pinned claim keeps its lease");
    assert_eq!(lines(&mut out), ["acquire w1", "acquire w1"]);
    assert!(
        !drain(&mut out)
            .iter()
            .any(|e| matches!(e, AgentEvent::WorldLeaseLost { .. })),
        "nothing was lost"
    );
}

/// Behind the head with writes that cannot go up: they are moved to a side copy, never pulled over,
/// the head comes down, and the claim hosts with it.
#[test]
fn behind_the_head_with_local_writes_sets_them_aside_then_pulls_and_hosts() {
    let mut out = task();
    let mut s = slots(vec![world("w1", "valheim")]);
    let slot = at(&mut s, "w1");
    slot.state.has_pending = true;
    on_claim_world(slot, WorldRole::Host, &mut out);
    on_lease(slot, LeaseObs::Free, None, true, &mut out);
    on_stale(slot, 3, true);
    assert!(!slot.state.pull_pending, "not over the writes");
    assert!(!may_request_lease(slot), "the answer is known until the pull");
    assert_eq!(rec(slot, &mut out), Followup::SideCopy);
    assert!(hit_is_side_copy(slot, 0), "the copy's renames are not writes");
    assert_eq!(rec(slot, &mut out), Followup::Nothing, "asked once");
    assert!(slot.state.session.is_some(), "only the landing ends it");
    on_side_copied(&mut s, "w1", 1, false, 0, WALL, &mut out);

    let slot = at(&mut s, "w1");
    assert!(slot.state.session.is_none());
    assert!(!slot.state.has_pending);
    assert!(slot.state.pull_pending, "the head comes down over the emptied folder");
    assert_eq!(slot.state.stale_base, Some(3), "behind until the pull lands");
    assert_eq!(rec(slot, &mut out), Followup::Nothing);
    assert!(!slot.state.lease_requested);

    // The pull landed.
    slot.state.pull_pending = false;
    slot.state.known_version = Some(4);
    assert_eq!(rec(slot, &mut out), Followup::Nothing);
    assert!(slot.state.lease_requested, "asked again with the new head");
    on_lease(slot, LeaseObs::Mine, Some("me".into()), true, &mut out);
    assert_eq!(slot.state.lease, LeaseObs::Mine);
    assert_eq!(slot.state.stale_base, None);
    assert_eq!(lines(&mut out), ["acquire w1", "acquire w1"]);
    assert!(!drain(&mut out)
        .iter()
        .any(|e| matches!(e, AgentEvent::WorldLeaseLost { .. })));
}

/// Asked to host again, or forced, while the first acquire was refused as stale: nothing is left
/// waiting on a verdict.
#[test]
fn asked_again_behind_the_head_leaves_no_acquire_waiting() {
    for verb in ["host", "force"] {
        let mut out = task();
        let mut s = slots(vec![world("w1", "valheim")]);
        at(&mut s, "w1").state.lease = LeaseObs::Free;
        started(&mut s, "w1", &mut out);
        let ask = |slot: &mut SaveSlot, out: &mut Outbox| match verb {
            "host" => on_claim_world(slot, WorldRole::Host, out),
            _ => on_force_world(slot, out),
        };
        let slot = at(&mut s, "w1");
        ask(slot, &mut out);
        assert!(slot.state.lease_requested, "{verb}");
        on_lease(slot, LeaseObs::Free, None, true, &mut out);
        on_stale(slot, 3, false);
        ask(slot, &mut out);
        assert!(!slot.state.lease_requested, "{verb}: no verdict is coming");

        // The game writes, and the grace has passed by the time it stops.
        slot.state.has_pending = true;
        slot.state.last_fs_event_at = Some(WALL - i128::from(GRACE + 1) * SECOND);
        on_write(slot, &mut out);
        on_game_stopped(slot);
        assert_eq!(rec(slot, &mut out), Followup::Nothing);
        assert!(slot.state.session.is_none(), "{verb}: the stopped session ends");
        assert_eq!(rec(slot, &mut out), Followup::SideCopy, "{verb}");
        on_side_copied(&mut s, "w1", 1, false, 0, WALL, &mut out);
        let slot = at(&mut s, "w1");
        assert!(slot.state.pull_pending && !slot.state.has_pending, "{verb}");
        // The pull landed.
        slot.state.pull_pending = false;
        slot.state.known_version = Some(4);
        assert_eq!(rec(slot, &mut out), Followup::Nothing);
        assert_eq!(slot.state.stale_base, None, "{verb}");

        started(&mut s, "w1", &mut out);
        let slot = at(&mut s, "w1");
        on_write(slot, &mut out);
        assert!(slot.state.lease_requested, "{verb}: asked again with the new head");
        on_lease(slot, LeaseObs::Mine, Some("me".into()), true, &mut out);
        assert!(!slot.state.lease_requested, "{verb}: answered");
        assert_eq!(slot.state.lease, LeaseObs::Mine, "{verb}");
        let expected: &[&str] = match verb {
            "host" => &["acquire w1", "acquire w1"],
            _ => &["force w1", "acquire w1", "force w1", "acquire w1"],
        };
        assert_eq!(lines(&mut out), expected, "{verb}");
        assert!(
            !drain(&mut out)
                .iter()
                .any(|e| matches!(e, AgentEvent::WorldLeaseLost { .. })),
            "{verb}"
        );
    }
}

/// Behind the head with writes and no session, a folder written within the grace is not moved aside:
/// a game that nothing sees may still have it open.
#[test]
fn behind_the_head_a_recent_write_is_not_set_aside_until_the_grace_passes() {
    let mut out = alone();
    let mut s = slots(vec![world("w1", "valheim")]);
    let slot = at(&mut s, "w1");
    slot.state.has_pending = true;
    on_stale(slot, 3, true);
    slot.state.last_fs_event_at = Some(WALL - 10 * SECOND);
    assert_eq!(rec(slot, &mut out), Followup::Nothing);
    assert!(slot.state.session.is_none(), "no side copy under a recent write");
    slot.state.last_fs_event_at = Some(WALL - i128::from(GRACE + 1) * SECOND);
    assert_eq!(rec(slot, &mut out), Followup::SideCopy);
    assert!(slot.state.session.unwrap().side_copy_started);
}

/// The grace is over with its last whole second, and not a nanosecond before.
#[test]
fn the_grace_runs_to_its_last_nanosecond() {
    let quiet = |since: i128, grace: i64| {
        let mut out = alone();
        let mut s = slots(vec![world("w1", "valheim")]);
        let slot = at(&mut s, "w1");
        slot.state.has_pending = true;
        on_stale(slot, 3, true);
        slot.state.last_fs_event_at = Some(WALL - since);
        on_reconciled(slot, 0, WALL, grace, true, &mut out) == Followup::SideCopy
    };
    assert!(!quiet(i128::from(GRACE) * SECOND - 1, GRACE));
    assert!(quiet(i128::from(GRACE) * SECOND, GRACE));
    // Whole seconds are cut off towards zero: a write a moment ahead of the clock is none.
    assert!(quiet(0, 0) && quiet(1 - SECOND, 0));
    assert!(!quiet(-SECOND, 0));
    assert!(!quiet(-SECOND, GRACE));
}

/// A failed side copy of writes behind the head is not retried every pass: they stay local-only, and
/// nothing moves under a running game.
#[test]
fn behind_the_head_the_side_copy_waits_for_the_game_and_is_not_retried() {
    let mut out = alone();
    let mut s = slots(vec![world("w1", "valheim")]);
    let slot = at(&mut s, "w1");
    slot.state.has_pending = true;
    slot.state.is_running = true;
    on_stale(slot, 3, true);
    assert_eq!(rec(slot, &mut out), Followup::Nothing);
    slot.state.is_running = false;
    assert_eq!(rec(slot, &mut out), Followup::SideCopy);
    on_side_copy_failed(&mut s, "w1", 0, WALL, &mut out);
    let slot = at(&mut s, "w1");
    assert!(slot.state.local_only_pending);
    assert_eq!(rec(slot, &mut out), Followup::Nothing);
}

/// Stopping the service while hosting: the lease task gives the lease back and the server's word
/// says free. That is the stop's answer, not a loss, with a session running or not.
#[test]
fn stopping_while_hosting_is_not_a_lost_lease() {
    for live in [false, true] {
        let mut out = alone();
        let mut s = slots(vec![world("w1", "valheim")]);
        at(&mut s, "w1").state.lease = LeaseObs::Mine;
        if live {
            started(&mut s, "w1", &mut out);
        }
        drain(&mut out);
        let slot = at(&mut s, "w1");
        on_stopping(slot);
        assert!(slot.state.release_requested, "live: {live}");
        on_lease(slot, LeaseObs::Free, None, false, &mut out);
        assert_eq!(slot.state.lease, LeaseObs::Free);
        assert!(
            drain(&mut out).is_empty(),
            "live: {live}: told as a lost lease"
        );
    }
}

#[test]
fn slots_stand_in_the_order_of_their_ids() {
    let mut s = slots(vec![world("c", "x"), world("a", "x"), world("b", "x")]);
    let ids: Vec<&str> = (0..s.len()).map(|i| s.get(i).save.save_id.as_str()).collect();
    assert_eq!(ids, ["a", "b", "c"]);
    assert!(!s.insert(SaveSlot::new(world("b", "y"), None)), "one slot a save");
    assert_eq!(s.find("z"), None);
}

const FOLDER: [&str; 3] = [
    "worlds_local/Alpha.db",
    "worlds_local/Beta.db",
    "characters_local/me.fch",
];

fn files(list: &[&str]) -> Vec<String> {
    list.iter().map(|f| f.to_string()).collect()
}

#[test]
fn the_side_copy_moves_only_the_worlds_files() {
    let mut save = world("w1", "valheim");
    save.includes = vec!["worlds_local/Alpha.db".into()];
    // A member's row: the share's list is the world the side copy takes.
    save.shared.as_mut().unwrap().includes = save.includes.clone();
    assert_eq!(side_copy_dir("w1", 0), "w1/1970-01-01T00-00-00Z");
    let moved = move_world_aside(&save, &[], &files(&FOLDER));
    assert_eq!(moved.len(), 1);
    assert_eq!(moved, ["worlds_local/Alpha.db"]);
}

#[test]
fn the_owners_side_copy_moves_only_the_world() {
    let save = owned_world();
    assert!(save.includes.is_empty() && save.owns_whole_folder());
    assert_eq!(
        move_world_aside(&save, &[], &files(&FOLDER)),
        ["worlds_local/Alpha.db"]
    );
}

#[test]
fn the_side_copy_moves_a_1_0_world_folder() {
    let mut save = world("w1", "valheim");
    save.includes = template("valheim", "Alpha").unwrap().unwrap();
    save.shared.as_mut().unwrap().includes = save.includes.clone();
    let folder = files(&[
        "worlds_local/Alpha/_main.5.fwl2",
        "worlds_local/Alpha/0_0.chunk",
        "worlds_local/Gamma/_main.2.fwl2",
        "characters_local/me.fch",
    ]);
    let moved = move_world_aside(&save, &[], &folder);
    assert_eq!(moved.len(), 2);
    assert_eq!(moved, folder[..2]);
}

#[test]
fn a_side_copy_of_a_whole_folder_leaves_the_litter() {
    let save = world("w1", "valheim");
    let folder = files(&["a.sav", "crash.dmp", "b.sav.hoard-restore.tmp", "c/settings.ini"]);
    assert_eq!(move_world_aside(&save, &[], &folder), ["a.sav", "c/settings.ini"]);
    assert_eq!(
        move_world_aside(&save, &["<base>/*.dmp".into()], &folder),
        ["a.sav", "crash.dmp", "c/settings.ini"]
    );
}

#[test]
fn a_folder_that_cannot_be_listed_may_hold_the_world() {
    let save = owned_world();
    assert!(world_on_disk(&save, &[], None));
    assert!(world_on_disk(&save, &[], Some(&files(&FOLDER))));
    assert!(!world_on_disk(&save, &[], Some(&files(&FOLDER[1..]))));
    assert!(!world_on_disk(&save, &[], Some(&Vec::new())));
}
