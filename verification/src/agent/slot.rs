//! A watched save and what the agent knows of it.
//!
//! `now` is a monotonic clock and `wall` the wall clock, both in nanoseconds.

use vstd::prelude::*;

use crate::clock::Moment;

verus! {

/// What this machine knows of a world's lease.
#[derive(Debug, Clone, Copy, PartialEq, Eq, Structural)]
pub enum LeaseObs {
    Unknown,
    Free,
    Mine,
    Other,
}

/// A lease as a prompt shows it.
#[derive(Debug, Clone, Copy, PartialEq, Eq, Structural)]
pub enum WorldLease {
    Unknown,
    Free,
    Mine,
    Other,
}

/// How a shared world is played: hosting it, or viewing a copy.
#[derive(Debug, Clone, Copy, PartialEq, Eq, Structural)]
pub enum WorldRole {
    Host,
    View,
}

/// The share a save belongs to.
#[derive(Debug)]
pub struct SharedRef {
    pub group_id: String,
    pub group_name: String,
    pub owner_user_id: String,
    pub owner_username: String,
    /// What the share names; empty is the whole folder.
    pub includes: Vec<String>,
    /// Whether this account owns the shared save: the server's word.
    pub caller_owns: bool,
}

/// A save that this machine watches.
#[derive(Debug)]
pub struct WatchedSave {
    pub save_id: String,
    pub game_slug: String,
    pub label: String,
    pub local_path: String,
    pub track_only: bool,
    pub shared: Option<SharedRef>,
    /// What the walk of the folder is narrowed to; empty for the whole folder.
    pub includes: Vec<String>,
}

/// A save as this machine's state file has it.
#[derive(Debug)]
pub struct SaveState {
    pub local_path: String,
    pub game_slug: String,
    pub label: String,
    pub last_backup_at: Option<Moment>,
    pub last_version_num: Option<i64>,
    pub paused: bool,
    pub preset: Option<String>,
    pub shared: Option<SharedRef>,
    /// What the walk of the folder is narrowed to; empty for the whole folder.
    pub includes: Vec<String>,
}

/// What this machine's state file holds: its saves by id.
#[derive(Debug)]
pub struct CliState {
    pub saves: Vec<(String, SaveState)>,
}

/// A world whose push is held for a file that cannot go up.
#[derive(Debug, Clone, Copy, PartialEq, Eq, Structural)]
pub struct WorldHeld {
    /// How many attempts in a row were held.
    pub consecutive: u32,
    /// The push has parked: it retries only on a change or on the user's word.
    pub needs_attention: bool,
}

impl WorldHeld {
    /// Is a push held at all?
    pub open spec fn held(self) -> bool {
        self.consecutive > 0
    }

    pub fn active(&self) -> (r: bool)
        ensures
            r == self.held(),
    {
        self.consecutive > 0
    }
}

/// One session of a game with shared worlds, on one of them. Made when the game starts, dropped
/// when there is nothing left to do after it stopped.
#[derive(Debug, Clone, Copy, PartialEq, Eq, Structural)]
pub struct WorldSession {
    pub started_at: u64,
    /// `started_at` on the wall clock.
    pub raised_at: i128,
    /// The prompt for this game went out with this world in it.
    pub prompted: bool,
    /// "Not playing": no auto-host, no second prompt. Evidence still claims.
    pub dismissed: bool,
    /// A role was taken this session: by the answer, by the clock, or by a write.
    pub claimed: bool,
    /// Writes seen while viewing; the second one is told.
    pub writes: u32,
    pub view_writing_told: bool,
    /// Wrote under somebody else's lease: the session's changes stay local.
    pub side_copy: bool,
    /// Wrote while the lease was still unknown; claims when it reads free.
    pub wrote_unclaimed: bool,
    /// The side copy is on its way; the session ends when it lands.
    pub side_copy_started: bool,
    /// The lease task was asked who holds it, once.
    pub refresh_asked: bool,
    pub auto_host_deadline: Option<u64>,
    /// The game stopped; what is left is the release or the side copy.
    pub stopped: bool,
}

/// A session that has just begun.
pub open spec fn new_session(now: u64, wall: i128) -> WorldSession {
    WorldSession {
        started_at: now,
        raised_at: wall,
        prompted: false,
        dismissed: false,
        claimed: false,
        writes: 0,
        view_writing_told: false,
        side_copy: false,
        wrote_unclaimed: false,
        side_copy_started: false,
        refresh_asked: false,
        auto_host_deadline: None,
        stopped: false,
    }
}

impl WorldSession {
    pub fn new(now: u64, wall: i128) -> (r: Self)
        ensures
            r == new_session(now, wall),
    {
        WorldSession {
            started_at: now,
            raised_at: wall,
            prompted: false,
            dismissed: false,
            claimed: false,
            writes: 0,
            view_writing_told: false,
            side_copy: false,
            wrote_unclaimed: false,
            side_copy_started: false,
            refresh_asked: false,
            auto_host_deadline: None,
            stopped: false,
        }
    }

    /// Between the game's start and its stop.
    pub open spec fn is_live(self) -> bool {
        !self.stopped
    }

    /// Between the game's start and its stop.
    pub fn live(&self) -> (r: bool)
        ensures
            r == self.is_live(),
    {
        !self.stopped
    }
}

/// Where a watched save stands.
#[derive(Debug, Clone, Copy, PartialEq, Eq, Structural)]
pub struct SlotState {
    pub session: Option<WorldSession>,
    pub role: WorldRole,
    /// The role was chosen outside a session: it is the next one's answer.
    pub role_pinned: bool,
    pub lease: LeaseObs,
    /// An acquire is out, and its verdict is owed.
    pub lease_requested: bool,
    /// A release was asked for: what comes back is not a lost lease.
    pub release_requested: bool,
    pub hosted_elsewhere_notified: bool,
    /// The version an acquire was refused as stale with.
    pub stale_base: Option<i64>,
    pub known_version: Option<i64>,
    pub version_base: Option<i64>,
    pub pull_pending: bool,
    pub has_pending: bool,
    pub is_running: bool,
    /// An upload or a download runs.
    pub in_flight: bool,
    /// Writes that must stay local are still in the folder.
    pub local_only_pending: bool,
    pub world_held: WorldHeld,
    pub last_fs_event_at: Option<i128>,
    pub last_restore_at: Option<i128>,
    pub side_copy_landed_at: Option<u64>,
    /// The game started again while the side copy was on its way.
    pub relaunch_pending: bool,
    /// What lies outside the world is looked at again once the pull landed.
    pub recheck_pending_after_pull: bool,
}

/// A slot that nothing has happened to, with the version its folder holds.
pub open spec fn fresh(known_version: Option<i64>) -> SlotState {
    SlotState {
        session: None,
        role: WorldRole::Host,
        role_pinned: false,
        lease: LeaseObs::Unknown,
        lease_requested: false,
        release_requested: false,
        hosted_elsewhere_notified: false,
        stale_base: None,
        known_version,
        version_base: known_version,
        pull_pending: false,
        has_pending: false,
        is_running: false,
        in_flight: false,
        local_only_pending: false,
        world_held: WorldHeld { consecutive: 0, needs_attention: false },
        last_fs_event_at: None,
        last_restore_at: None,
        side_copy_landed_at: None,
        relaunch_pending: false,
        recheck_pending_after_pull: false,
    }
}

/// What the agent keeps of one watched save.
#[derive(Debug)]
pub struct SaveSlot {
    pub save: WatchedSave,
    pub state: SlotState,
    pub lease_holder: Option<String>,
}

impl SaveSlot {
    /// A slot that nothing has happened to.
    pub fn new(save: WatchedSave, known_version: Option<i64>) -> (r: Self)
        ensures
            r == (SaveSlot { save, state: fresh(known_version), lease_holder: None }),
    {
        SaveSlot {
            save,
            state: SlotState {
                session: None,
                role: WorldRole::Host,
                role_pinned: false,
                lease: LeaseObs::Unknown,
                lease_requested: false,
                release_requested: false,
                hosted_elsewhere_notified: false,
                stale_base: None,
                known_version,
                version_base: known_version,
                pull_pending: false,
                has_pending: false,
                is_running: false,
                in_flight: false,
                local_only_pending: false,
                world_held: WorldHeld { consecutive: 0, needs_attention: false },
                last_fs_event_at: None,
                last_restore_at: None,
                side_copy_landed_at: None,
                relaunch_pending: false,
                recheck_pending_after_pull: false,
            },
            lease_holder: None,
        }
    }
}

/// A slot with its state replaced.
pub open spec fn at(slot: SaveSlot, state: SlotState) -> SaveSlot {
    SaveSlot { state, ..slot }
}

/// One world of a prompt.
#[derive(Debug)]
pub struct WorldChoice {
    pub save_id: String,
    pub label: String,
    pub group_name: String,
    pub holder: Option<String>,
    pub lease: WorldLease,
}

/// A prompt that waits for an answer.
#[derive(Debug)]
pub struct WorldPrompt {
    pub game_slug: String,
    pub worlds: Vec<WorldChoice>,
    pub auto_host_at: Option<i128>,
    pub raised_at: i128,
}

/// What the agent tells whoever listens.
#[derive(Debug)]
pub enum AgentEvent {
    /// Which shared world is played?
    WorldClaimWanted { game_slug: String, worlds: Vec<WorldChoice> },
    /// A role was taken: by the user, or by the agent.
    WorldClaimed { save_id: String, game_slug: String, role: WorldRole, by_agent: bool },
    WorldReleased { save_id: String, game_slug: String },
    WorldLeaseLost { save_id: String, game_slug: String, holder: Option<String> },
    /// A viewer's game writes into its copy.
    ViewSessionWriting { save_id: String, game_slug: String },
    BackupAttentionCleared { save_id: String, game_slug: String },
}

/// What the agent asks of the lease task.
#[derive(Debug)]
pub enum LeaseCmd {
    Acquire { save_id: String, base_version: i64 },
    Release { save_id: String },
    Cancel { save_id: String },
    Force { save_id: String },
    Refresh { save_id: String },
}

/// What goes out: events, and commands where a lease task is attached.
#[derive(Debug)]
pub struct Outbox {
    pub events: Vec<AgentEvent>,
    pub cmds: Vec<LeaseCmd>,
    pub attached: bool,
}

impl Outbox {
    /// Nothing to send.
    pub fn new(attached: bool) -> (r: Self)
        ensures
            r.events@.len() == 0,
            r.cmds@.len() == 0,
            r.attached == attached,
    {
        Outbox { events: Vec::new(), cmds: Vec::new(), attached }
    }

    /// Put a command in, where there is a task to hear it.
    pub fn send(&mut self, cmd: LeaseCmd)
        ensures
            final(self).events@ == old(self).events@,
            final(self).attached == old(self).attached,
            final(self).cmds@ == (if old(self).attached {
                old(self).cmds@.push(cmd)
            } else {
                old(self).cmds@
            }),
    {
        if self.attached {
            self.cmds.push(cmd);
        }
    }

    /// Put an event in.
    pub fn tell(&mut self, event: AgentEvent)
        ensures
            final(self).events@ == old(self).events@.push(event),
            final(self).attached == old(self).attached,
            final(self).cmds@ == old(self).cmds@,
    {
        self.events.push(event);
    }
}

/// Has exactly this gone out, after what was there?
pub open spec fn sent(
    before: Outbox,
    after: Outbox,
    cmds: Seq<LeaseCmd>,
    events: Seq<AgentEvent>,
) -> bool {
    &&& after.attached == before.attached
    &&& after.cmds@ =~= before.cmds@ + cmds
    &&& after.events@ =~= before.events@ + events
}

// ---- laws

/// A new slot hosts nothing and knows nothing of its lease; its folder holds the version it was
/// given and nothing is owed, pending or under way. A new session is live, begins at its time, and
/// was neither asked about nor answered.
pub proof fn everything_starts_afresh(
    save: WatchedSave,
    known: Option<i64>,
    slot: SaveSlot,
    now: u64,
    wall: i128,
    w: WorldSession,
    live: bool,
    held: WorldHeld,
    active: bool,
)
    requires
        call_ensures(SaveSlot::new, (save, known), slot),
        call_ensures(WorldSession::new, (now, wall), w),
        call_ensures(WorldSession::live, (&w,), live),
        call_ensures(WorldHeld::active, (&held,), active),
    ensures
        slot.save == save,
        slot.lease_holder is None,
        slot.state.known_version == known && slot.state.version_base == known,
        slot.state.session is None && slot.state.role == WorldRole::Host && !slot.state.role_pinned,
        slot.state.lease == LeaseObs::Unknown && !slot.state.lease_requested
            && !slot.state.release_requested,
        slot.state.stale_base is None && !slot.state.pull_pending && !slot.state.has_pending,
        !slot.state.is_running && !slot.state.in_flight && !slot.state.local_only_pending,
        slot.state.world_held.consecutive == 0 && !slot.state.world_held.needs_attention,
        slot.state.last_fs_event_at is None && slot.state.last_restore_at is None,
        slot.state.side_copy_landed_at is None && !slot.state.relaunch_pending,
        !slot.state.recheck_pending_after_pull && !slot.state.hosted_elsewhere_notified,
        live,
        w.started_at == now && w.raised_at == wall,
        !w.prompted && !w.dismissed && !w.claimed && w.writes == 0 && !w.view_writing_told,
        !w.side_copy && !w.wrote_unclaimed && !w.side_copy_started && !w.refresh_asked,
        w.auto_host_deadline is None,
        active <==> held.consecutive >= 1,
{
}

/// A session is live until it was stopped.
pub proof fn live_until_stopped(w: WorldSession, r: bool)
    requires
        call_ensures(WorldSession::live, (&w,), r),
    ensures
        r <==> !w.stopped,
{
}

/// What is sent and told goes out last, after all that was there; without a task to hear them
/// commands go nowhere, and events still do.
pub proof fn the_outbox_keeps_its_order(
    a: &mut Outbox,
    cmd: LeaseCmd,
    b: &mut Outbox,
    event: AgentEvent,
    attached: bool,
    fresh: Outbox,
)
    requires
        call_ensures(Outbox::send, (a, cmd), ()),
        call_ensures(Outbox::tell, (b, event), ()),
        call_ensures(Outbox::new, (attached,), fresh),
    ensures
        old(a).attached ==> final(a).cmds@ == old(a).cmds@ + seq![cmd],
        !old(a).attached ==> final(a).cmds@ == old(a).cmds@,
        final(a).events@ == old(a).events@ && final(a).attached == old(a).attached,
        final(b).events@ == old(b).events@ + seq![event],
        final(b).cmds@ == old(b).cmds@ && final(b).attached == old(b).attached,
        fresh.attached == attached && fresh.cmds@.len() == 0 && fresh.events@.len() == 0,
{
    assert(old(a).cmds@.push(cmd) =~= old(a).cmds@ + seq![cmd]);
    assert(old(b).events@.push(event) =~= old(b).events@ + seq![event]);
}

} // verus!
