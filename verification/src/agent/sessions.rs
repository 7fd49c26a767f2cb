//! The sessions of a game with shared worlds, over every slot of this machine.

use vstd::prelude::*;

use crate::agent::claim::{lease_for_prompt, on_dismiss, on_game_stopped, AUTO_HOST_DELAY};
#[allow(unused_imports)]
use crate::agent::claim::{chosen, dismissed, has_live_session, landing, shown, stopped};
#[allow(unused_imports)]
use crate::agent::reconcile::{copied, copied_events, copy_failed};
use crate::agent::reconcile::{side_copied, side_copy_failed};
use crate::agent::slot::{
    AgentEvent, LeaseObs, Outbox, SaveSlot, SlotState, WorldChoice, WorldPrompt, WorldRole,
    WorldSession,
};
#[allow(unused_imports)]
use crate::agent::slot::{at, new_session};
use crate::text::{comes_before, same};
#[allow(unused_imports)]
use crate::text::{before, before_is_strict, before_is_total, before_is_transitive, views};

verus! {

/// The slots of this machine, in the order of their saves' ids.
#[derive(Debug)]
pub struct Slots {
    list: Vec<SaveSlot>,
}

/// Do the slots stand in the order of their ids, each id once?
pub open spec fn in_order(list: Seq<SaveSlot>) -> bool {
    forall|i: int, j: int|
        #![trigger list[i], list[j]]
        0 <= i < j < list.len() ==> before(list[i].save.save_id@, list[j].save.save_id@)
}

/// Has the slot this id?
pub open spec fn has_id(list: Seq<SaveSlot>, i: int, id: Seq<char>) -> bool {
    0 <= i < list.len() && list[i].save.save_id@ == id
}

/// Has no slot this id?
pub open spec fn nowhere(list: Seq<SaveSlot>, id: Seq<char>) -> bool {
    forall|i: int| !#[trigger] has_id(list, i, id)
}

/// Are these the same saves, slot by slot?
pub open spec fn same_saves(a: Seq<SaveSlot>, b: Seq<SaveSlot>) -> bool {
    a.len() == b.len() && forall|i: int|
        #![trigger b[i]]
        0 <= i < a.len() ==> b[i].save == a[i].save && b[i].lease_holder == a[i].lease_holder
}

impl Slots {
    /// The slots, in order.
    pub closed spec fn view(&self) -> Seq<SaveSlot> {
        self.list@
    }

    /// The slots stand in the order of their ids, each id once.
    pub open spec fn wf(self) -> bool {
        in_order(self.view())
    }

    /// No slots.
    pub fn new() -> (r: Self)
        ensures
            r.wf(),
            r@ == Seq::<SaveSlot>::empty(),
    {
        Slots { list: Vec::new() }
    }

    /// How many slots there are.
    pub fn len(&self) -> (r: usize)
        ensures
            r == self@.len(),
    {
        self.list.len()
    }

    /// The slot at `i`.
    pub fn get(&self, i: usize) -> (r: &SaveSlot)
        requires
            i < self@.len(),
        ensures
            *r == self@[i as int],
    {
        &self.list[i]
    }

    /// Where the save `id` stands.
    pub fn find(&self, id: &str) -> (r: Option<usize>)
        ensures
            r matches Some(i) ==> has_id(self@, i as int, id@),
            r is None ==> nowhere(self@, id@),
    {
        let mut i: usize = 0;
        while i < self.list.len()
            invariant
                i <= self.list.len(),
                forall|k: int| 0 <= k < i ==> !#[trigger] has_id(self@, k, id@),
            decreases self.list.len() - i,
        {
            if same(self.list[i].save.save_id.as_str(), id) {
                return Some(i);
            }
            i += 1;
        }
        None
    }

    /// The slot at `i`, for a handler to change.
    pub fn slot_mut(&mut self, i: usize) -> (r: &mut SaveSlot)
        requires
            i < old(self)@.len(),
        ensures
            *r == old(self)@[i as int],
            final(self)@ == old(self)@.update(i as int, *final(r)),
    {
        &mut self.list[i]
    }

    /// A slot for a save that has none yet, in its place. `false` when the save has one already.
    pub fn insert(&mut self, slot: SaveSlot) -> (r: bool)
        requires
            old(self).wf(),
        ensures
            final(self).wf(),
            r <==> nowhere(old(self)@, slot.save.save_id@),
            r ==> exists|at: int|
                0 <= at <= old(self)@.len() && final(self)@ == old(self)@.insert(at, slot),
            !r ==> *final(self) == *old(self),
    {
        let mut i: usize = 0;
        while i < self.list.len() && comes_before(
            self.list[i].save.save_id.as_str(),
            slot.save.save_id.as_str(),
        )
            invariant
                i <= self.list.len(),
                *self == *old(self),
                forall|k: int|
                    0 <= k < i ==> before(#[trigger] self@[k].save.save_id@, slot.save.save_id@),
            decreases self.list.len() - i,
        {
            i += 1;
        }
        let ghost id = slot.save.save_id@;
        if i < self.list.len() && same(
            self.list[i].save.save_id.as_str(),
            slot.save.save_id.as_str(),
        ) {
            assert(has_id(self@, i as int, id));
            return false;
        }
        proof {
            if i < self@.len() {
                before_is_total(self@[i as int].save.save_id@, id);
            }
            assert forall|k: int| i <= k < self@.len() implies before(
                id,
                #[trigger] self@[k].save.save_id@,
            ) by {
                if k > i {
                    before_is_transitive(
                        id,
                        self@[i as int].save.save_id@,
                        self@[k].save.save_id@,
                    );
                }
            }
            assert forall|k: int| !#[trigger] has_id(self@, k, id) by {
                before_is_strict(id, id);
                if 0 <= k < self@.len() {
                    assert(self@[k].save.save_id@ != id);
                }
            }
        }
        self.list.insert(i, slot);
        assert(self@ =~= old(self)@.insert(i as int, slot));
        assert forall|a: int, b: int|
            #![trigger self@[a], self@[b]]
            0 <= a < b < self@.len() implies before(
            self@[a].save.save_id@,
            self@[b].save.save_id@,
        ) by {
            let x = if a < i { a } else { a - 1 };
            let y = if b < i { b } else { b - 1 };
            if a != i {
                assert(self@[a] == old(self)@[x]);
            }
            if b != i {
                assert(self@[b] == old(self)@[y]);
            }
        }
        true
    }
}

/// Is the slot a shared world of the game on this machine?
pub open spec fn is_world_of(s: SaveSlot, game: Seq<char>) -> bool {
    s.save.shared is Some && !s.save.track_only && s.save.game_slug@ == game
}

fn world_of_game(s: &SaveSlot, game: &str) -> (r: bool)
    ensures
        r == is_world_of(*s, game@),
{
    s.save.shared.is_some() && !s.save.track_only && same(s.save.game_slug.as_str(), game)
}

/// The ids of the game's shared worlds.
pub open spec fn world_ids(list: Seq<SaveSlot>, game: Seq<char>) -> Seq<Seq<char>>
    decreases list.len(),
{
    if list.len() == 0 {
        Seq::empty()
    } else if is_world_of(list.last(), game) {
        world_ids(list.drop_last(), game).push(list.last().save.save_id@)
    } else {
        world_ids(list.drop_last(), game)
    }
}

/// The shared worlds of `game_slug` on this machine, in a stable order.
pub fn shared_of(slots: &Slots, game_slug: &str) -> (r: Vec<String>)
    ensures
        views(r@) == world_ids(slots@, game_slug@),
{
    let mut ids: Vec<String> = Vec::new();
    let mut i: usize = 0;
    while i < slots.list.len()
        invariant
            i <= slots.list.len(),
            views(ids@) == world_ids(slots@.take(i as int), game_slug@),
        decreases slots.list.len() - i,
    {
        assert(slots@.take(i + 1).drop_last() =~= slots@.take(i as int));
        if world_of_game(&slots.list[i], game_slug) {
            ids.push(slots.list[i].save.save_id.clone());
        }
        i += 1;
        assert(views(ids@) =~= world_ids(slots@.take(i as int), game_slug@));
    }
    assert(slots@.take(i as int) =~= slots@);
    ids
}

/// How many shared worlds the game has on this machine.
pub open spec fn world_count(list: Seq<SaveSlot>, game: Seq<char>) -> nat {
    world_ids(list, game).len()
}

/// Is a session live on one of the game's worlds?
pub open spec fn any_live(list: Seq<SaveSlot>, game: Seq<char>) -> bool {
    exists|i: int|
        0 <= i < list.len() && is_world_of(#[trigger] list[i], game) && has_live_session(
            list[i].state,
        )
}

fn has_live(slots: &Slots, game: &str) -> (r: bool)
    ensures
        r == any_live(slots@, game@),
{
    let mut i: usize = 0;
    while i < slots.list.len()
        invariant
            i <= slots.list.len(),
            forall|k: int|
                0 <= k < i ==> !(is_world_of(#[trigger] slots@[k], game@) && has_live_session(
                    slots@[k].state,
                )),
        decreases slots.list.len() - i,
    {
        let live = match slots.list[i].state.session {
            Some(w) => w.live(),
            None => false,
        };
        if live && world_of_game(&slots.list[i], game) {
            assert(is_world_of(slots@[i as int], game@));
            return true;
        }
        i += 1;
    }
    false
}

// ---- opening sessions

/// Does the slot have a role already: chosen before the process was seen, or by a lease this
/// machine still holds?
pub open spec fn role_taken(s: SlotState) -> bool {
    s.role_pinned || s.lease == LeaseObs::Mine
}

/// Is the slot's world asked about?
pub open spec fn asks(s: SlotState, as_dismissed: bool) -> bool {
    !role_taken(s) && !as_dismissed
}

/// The state with a session opened. A role is for one session, except one pinned for this one, and
/// except the viewer's that writes nobody could set aside keep. The clock runs for a lone world
/// that nobody is known to hold.
pub open spec fn opened(
    s: SlotState,
    total: nat,
    as_dismissed: bool,
    now: u64,
    wall: i128,
) -> SlotState {
    let ask = asks(s, as_dismissed);
    SlotState {
        role_pinned: false,
        role: if s.role_pinned || s.local_only_pending {
            s.role
        } else {
            WorldRole::Host
        },
        session: Some(
            WorldSession {
                claimed: role_taken(s),
                prompted: ask,
                dismissed: as_dismissed && !role_taken(s),
                auto_host_deadline: if ask && total == 1 && (s.lease == LeaseObs::Free || s.lease
                    == LeaseObs::Unknown) {
                    Some((now + AUTO_HOST_DELAY) as u64)
                } else {
                    None
                },
                ..new_session(now, wall)
            },
        ),
        ..s
    }
}

fn open_one(
    s: SlotState,
    total: usize,
    as_dismissed: bool,
    now: u64,
    wall: i128,
) -> (r: SlotState)
    requires
        now + AUTO_HOST_DELAY <= u64::MAX,
    ensures
        r == opened(s, total as nat, as_dismissed, now, wall),
{
    let claimed = s.role_pinned || s.lease == LeaseObs::Mine;
    let ask = !claimed && !as_dismissed;
    let deadline: Option<u64> = if ask && total == 1 && (s.lease == LeaseObs::Free || s.lease
        == LeaseObs::Unknown) {
        Some(now + AUTO_HOST_DELAY)
    } else {
        None
    };
    SlotState {
        role_pinned: false,
        role: if s.role_pinned || s.local_only_pending {
            s.role
        } else {
            WorldRole::Host
        },
        session: Some(
            WorldSession {
                claimed,
                prompted: ask,
                dismissed: as_dismissed && !claimed,
                auto_host_deadline: deadline,
                ..WorldSession::new(now, wall)
            },
        ),
        ..s
    }
}

/// Is this how a prompt shows the slot's world?
pub open spec fn is_choice(c: WorldChoice, s: SaveSlot) -> bool {
    &&& c.save_id == s.save.save_id
    &&& c.label == s.save.label
    &&& match s.save.shared {
        Some(r) => c.group_name == r.group_name,
        None => c.group_name@ == Seq::<char>::empty(),
    }
    &&& c.holder == s.lease_holder
    &&& c.lease == shown(s.state.lease)
}

/// Are these the slots' worlds, in order?
pub open spec fn are_choices(worlds: Seq<WorldChoice>, slots: Seq<SaveSlot>) -> bool {
    worlds.len() == slots.len() && forall|i: int|
        0 <= i < worlds.len() ==> is_choice(#[trigger] worlds[i], slots[i])
}

fn choice_of(s: &SaveSlot) -> (r: WorldChoice)
    ensures
        is_choice(r, *s),
{
    WorldChoice {
        save_id: s.save.save_id.clone(),
        label: s.save.label.clone(),
        group_name: match &s.save.shared {
            Some(r) => r.group_name.clone(),
            None => String::new(),
        },
        holder: match &s.lease_holder {
            Some(h) => Some(h.clone()),
            None => None,
        },
        lease: lease_for_prompt(s.state.lease),
    }
}

/// Is this event the prompt for these slots of the game?
pub open spec fn is_prompt_event(e: AgentEvent, game: Seq<char>, slots: Seq<SaveSlot>) -> bool {
    e matches AgentEvent::WorldClaimWanted { game_slug, worlds } && game_slug@ == game
        && are_choices(worlds@, slots)
}

/// Was the prompt for these slots told after `before`, or nothing where there are none?
pub open spec fn prompt_told(
    before: Seq<AgentEvent>,
    after: Seq<AgentEvent>,
    game: Seq<char>,
    slots: Seq<SaveSlot>,
) -> bool {
    if slots.len() == 0 {
        after == before
    } else {
        after.len() == before.len() + 1 && after.drop_last() == before && is_prompt_event(
            after.last(),
            game,
            slots,
        )
    }
}

/// The slots of the game that a launch asks about: those with no role yet, and no side copy on its
/// way.
pub open spec fn asked_about(list: Seq<SaveSlot>, game: Seq<char>) -> Seq<SaveSlot>
    decreases list.len(),
{
    if list.len() == 0 {
        Seq::empty()
    } else {
        let rest = asked_about(list.drop_last(), game);
        let s = list.last();
        if is_world_of(s, game) && !landing(s.state) && asks(s.state, false) {
            rest.push(s)
        } else {
            rest
        }
    }
}

/// A slot after the game's launch. A side copy still on its way belongs to the last session: it
/// keeps its session until the copy lands.
pub open spec fn launched(
    s: SaveSlot,
    game: Seq<char>,
    total: nat,
    now: u64,
    wall: i128,
) -> SaveSlot {
    if !is_world_of(s, game) {
        s
    } else if landing(s.state) {
        at(s, SlotState { relaunch_pending: true, ..s.state })
    } else {
        at(s, opened(s.state, total, false, now, wall))
    }
}

/// Is `after` what a launch of the game makes of `list`?
pub open spec fn is_launched(
    list: Seq<SaveSlot>,
    after: Seq<SaveSlot>,
    game: Seq<char>,
    now: u64,
    wall: i128,
) -> bool {
    after.len() == list.len() && forall|i: int|
        0 <= i < list.len() ==> #[trigger] after[i] == launched(
            list[i],
            game,
            world_count(list, game),
            now,
            wall,
        )
}

fn launch(slots: &mut Slots, game: &str, now: u64, wall: i128, out: &mut Outbox)
    requires
        now + AUTO_HOST_DELAY <= u64::MAX,
    ensures
        is_launched(old(slots)@, final(slots)@, game@, now, wall),
        final(out).attached == old(out).attached,
        final(out).cmds@ == old(out).cmds@,
        prompt_told(
            old(out).events@,
            final(out).events@,
            game@,
            asked_about(old(slots)@, game@),
        ),
{
    let total: usize = shared_of(slots, game).len();
    let mut worlds: Vec<WorldChoice> = Vec::new();
    let mut i: usize = 0;
    let ghost list = slots@;
    while i < slots.list.len()
        invariant
            i <= slots@.len(),
            slots@.len() == list.len(),
            total == world_count(list, game@),
            now + AUTO_HOST_DELAY <= u64::MAX,
            forall|k: int|
                0 <= k < i ==> #[trigger] slots@[k] == launched(
                    list[k],
                    game@,
                    world_count(list, game@),
                    now,
                    wall,
                ),
            forall|k: int| i <= k < list.len() ==> #[trigger] slots@[k] == list[k],
            are_choices(worlds@, asked_about(list.take(i as int), game@)),
        decreases slots@.len() - i,
    {
        assert(list.take(i + 1).drop_last() =~= list.take(i as int));
        assert(list.take(i + 1).last() == list[i as int]);
        assert(slots@[i as int] == list[i as int]);
        if world_of_game(&slots.list[i], game) {
            let s = slots.list[i].state;
            let copying = match s.session {
                Some(w) => !w.live() && w.side_copy_started,
                None => false,
            };
            if copying {
                slots.list[i].state = SlotState { relaunch_pending: true, ..s };
            } else {
                if !s.role_pinned && s.lease != LeaseObs::Mine {
                    worlds.push(choice_of(&slots.list[i]));
                }
                slots.list[i].state = open_one(s, total, false, now, wall);
            }
        }
        i += 1;
    }
    assert(list.take(i as int) =~= list);
    if worlds.len() > 0 {
        out.tell(AgentEvent::WorldClaimWanted { game_slug: game.to_owned(), worlds });
        assert(out.events@.drop_last() =~= old(out).events@);
    }
}

/// The game of `save_id` started: open a session on every shared world of that game, ask once, and
/// start the clock when there is exactly one world and nobody holds it. A second start of the same
/// Did a launch of the save with this id open the sessions of its game and ask about its worlds,
/// unless one is live?
pub open spec fn all_started(
    list: Seq<SaveSlot>,
    after: Seq<SaveSlot>,
    before_out: Outbox,
    after_out: Outbox,
    id: Seq<char>,
    now: u64,
    wall: i128,
) -> bool {
    forall|i: int| #[trigger]
        has_id(list, i, id) ==> {
            let game = list[i].save.game_slug@;
            if any_live(list, game) {
                after == list && after_out == before_out
            } else {
                &&& is_launched(list, after, game, now, wall)
                &&& prompt_told(
                    before_out.events@,
                    after_out.events@,
                    game,
                    asked_about(list, game),
                )
            }
        }
}

/// game finds the sessions open and asks nothing.
pub fn on_game_started(slots: &mut Slots, save_id: &str, now: u64, wall: i128, out: &mut Outbox)
    requires
        old(slots).wf(),
        now + AUTO_HOST_DELAY <= u64::MAX,
    ensures
        final(slots).wf(),
        final(out).attached == old(out).attached,
        final(out).cmds@ == old(out).cmds@,
        nowhere(old(slots)@, save_id@) ==> final(slots)@ == old(
            slots,
        )@ && *final(out) == *old(out),
        all_started(old(slots)@, final(slots)@, *old(out), *final(out), save_id@, now, wall),
{
    let i: usize = match slots.find(save_id) {
        Some(i) => i,
        None => {
            return;
        },
    };
    proof {
        ids_are_unique(slots@, save_id@);
    }
    let game = slots.list[i].save.game_slug.clone();
    if has_live(slots, game.as_str()) {
        return;
    }
    launch(slots, game.as_str(), now, wall, out);
    proof {
        saves_keep_their_order(old(slots)@, slots@);
    }
}

/// In slots that stand in order an id is found once.
proof fn ids_are_unique(list: Seq<SaveSlot>, id: Seq<char>)
    requires
        in_order(list),
    ensures
        forall|i: int, j: int| #[trigger]
            has_id(list, i, id) && #[trigger] has_id(list, j, id) ==> i == j,
{
    assert forall|i: int, j: int| #[trigger]
        has_id(list, i, id) && #[trigger] has_id(list, j, id) implies i == j by {
        before_is_strict(id, id);
        if i < j {
            assert(before(list[i].save.save_id@, list[j].save.save_id@));
        } else if j < i {
            assert(before(list[j].save.save_id@, list[i].save.save_id@));
        }
    }
}

/// Slots whose saves did not change stand in the order they stood in.
proof fn saves_keep_their_order(a: Seq<SaveSlot>, b: Seq<SaveSlot>)
    requires
        in_order(a),
        same_saves(a, b),
    ensures
        in_order(b),
{
    assert forall|i: int, j: int|
        #![trigger b[i], b[j]]
        0 <= i < j < b.len() implies before(b[i].save.save_id@, b[j].save.save_id@) by {
        assert(a[i].save == b[i].save && a[j].save == b[j].save);
    }
}

// ---- the game's stop, and "not playing"

/// A slot after the game of `id` stopped: its own session stops, and every sibling's whose own
/// process is not running.
pub open spec fn stopped_with(s: SaveSlot, game: Seq<char>, id: Seq<char>) -> SaveSlot {
    if is_world_of(s, game) && (s.save.save_id@ == id || !s.state.is_running) {
        at(s, stopped(s.state))
    } else {
        s
    }
}

/// Did the stop of the save with this id reach every slot of its game?
pub open spec fn all_stopped(list: Seq<SaveSlot>, after: Seq<SaveSlot>, id: Seq<char>) -> bool {
    forall|i: int| #[trigger]
        has_id(list, i, id) ==> {
            &&& after.len() == list.len()
            &&& forall|k: int|
                0 <= k < list.len() ==> #[trigger] after[k] == stopped_with(
                    list[k],
                    list[i].save.game_slug@,
                    id,
                )
        }
}

/// The game of `save_id` stopped: its session stops, and so does every sibling's whose own process
/// is not running.
pub fn on_game_stopped_all(slots: &mut Slots, save_id: &str)
    requires
        old(slots).wf(),
    ensures
        final(slots).wf(),
        nowhere(old(slots)@, save_id@) ==> final(slots)@ == old(
            slots,
        )@,
        all_stopped(old(slots)@, final(slots)@, save_id@),
{
    let at: usize = match slots.find(save_id) {
        Some(i) => i,
        None => {
            return;
        },
    };
    proof {
        ids_are_unique(slots@, save_id@);
    }
    let game = slots.list[at].save.game_slug.clone();
    let ghost list = slots@;
    let mut i: usize = 0;
    while i < slots.list.len()
        invariant
            i <= slots@.len(),
            slots@.len() == list.len(),
            forall|k: int|
                0 <= k < i ==> #[trigger] slots@[k] == stopped_with(list[k], game@, save_id@),
            forall|k: int| i <= k < list.len() ==> #[trigger] slots@[k] == list[k],
        decreases slots@.len() - i,
    {
        assert(slots@[i as int] == list[i as int]);
        if world_of_game(&slots.list[i], game.as_str()) && (same(
            slots.list[i].save.save_id.as_str(),
            save_id,
        ) || !slots.list[i].state.is_running) {
            on_game_stopped(&mut slots.list[i]);
        }
        i += 1;
    }
    proof {
        saves_keep_their_order(list, slots@);
    }
}

/// Does the slot's part of a prompt wait for an answer?
pub open spec fn is_pending(s: SlotState) -> bool {
    has_live_session(s) && s.session->0.prompted && !s.session->0.claimed
        && !s.session->0.dismissed
}

fn pending(s: SlotState) -> (r: bool)
    ensures
        r == is_pending(s),
{
    match s.session {
        Some(w) => w.live() && w.prompted && !w.claimed && !w.dismissed,
        None => false,
    }
}

/// A slot after another world of its game was chosen.
pub open spec fn passed_over(s: SaveSlot, game: Seq<char>, id: Seq<char>) -> SaveSlot {
    if s.save.save_id@ != id && s.save.game_slug@ == game && is_pending(s.state) {
        at(s, dismissed(s.state))
    } else {
        s
    }
}

/// Did the choice of the save with this id reach every slot of its game?
pub open spec fn all_passed_over(list: Seq<SaveSlot>, after: Seq<SaveSlot>, id: Seq<char>) -> bool {
    forall|i: int| #[trigger]
        has_id(list, i, id) ==> {
            &&& after.len() == list.len()
            &&& forall|k: int|
                0 <= k < list.len() ==> #[trigger] after[k] == passed_over(
                    list[k],
                    list[i].save.game_slug@,
                    id,
                )
        }
}

/// A role taken on `save_id` answers the game's prompt for its other worlds too: choosing one is
/// "not playing" the rest.
pub fn dismiss_siblings(slots: &mut Slots, save_id: &str)
    requires
        old(slots).wf(),
    ensures
        final(slots).wf(),
        nowhere(old(slots)@, save_id@) ==> final(slots)@ == old(
            slots,
        )@,
        all_passed_over(old(slots)@, final(slots)@, save_id@),
{
    let at: usize = match slots.find(save_id) {
        Some(i) => i,
        None => {
            return;
        },
    };
    proof {
        ids_are_unique(slots@, save_id@);
    }
    let game = slots.list[at].save.game_slug.clone();
    let ghost list = slots@;
    let mut i: usize = 0;
    while i < slots.list.len()
        invariant
            i <= slots@.len(),
            slots@.len() == list.len(),
            forall|k: int|
                0 <= k < i ==> #[trigger] slots@[k] == passed_over(list[k], game@, save_id@),
            forall|k: int| i <= k < list.len() ==> #[trigger] slots@[k] == list[k],
        decreases slots@.len() - i,
    {
        assert(slots@[i as int] == list[i as int]);
        if pending(slots.list[i].state) && !same(slots.list[i].save.save_id.as_str(), save_id)
            && same(slots.list[i].save.game_slug.as_str(), game.as_str()) {
            on_dismiss(&mut slots.list[i]);
        }
        i += 1;
    }
    proof {
        saves_keep_their_order(list, slots@);
    }
}

// ---- the prompts

/// The slots of the game whose part of the prompt waits for an answer.
pub open spec fn pending_of(list: Seq<SaveSlot>, game: Seq<char>) -> Seq<SaveSlot>
    decreases list.len(),
{
    if list.len() == 0 {
        Seq::empty()
    } else {
        let rest = pending_of(list.drop_last(), game);
        let s = list.last();
        if is_pending(s.state) && s.save.game_slug@ == game {
            rest.push(s)
        } else {
            rest
        }
    }
}

/// When the first of these sessions was raised.
pub open spec fn raised(slots: Seq<SaveSlot>) -> i128
    decreases slots.len(),
{
    if slots.len() == 0 {
        0
    } else {
        let last = slots.last().state.session->0.raised_at;
        if slots.len() == 1 || last < raised(slots.drop_last()) {
            last
        } else {
            raised(slots.drop_last())
        }
    }
}

/// A clock's deadline on the wall.
pub open spec fn on_the_wall(deadline: u64, now: u64, wall: i128) -> int {
    if deadline > now {
        wall + (deadline - now)
    } else {
        wall as int
    }
}

/// The clock that runs on these slots, on the wall.
pub open spec fn clock_of(slots: Seq<SaveSlot>, now: u64, wall: i128) -> Option<i128>
    decreases slots.len(),
{
    if slots.len() == 0 {
        None
    } else {
        match slots.last().state.session->0.auto_host_deadline {
            Some(d) => Some(on_the_wall(d, now, wall) as i128),
            None => clock_of(slots.drop_last(), now, wall),
        }
    }
}

/// Is this the prompt of its game?
pub open spec fn is_prompt(p: WorldPrompt, list: Seq<SaveSlot>, now: u64, wall: i128) -> bool {
    let slots = pending_of(list, p.game_slug@);
    &&& slots.len() > 0
    &&& are_choices(p.worlds@, slots)
    &&& p.raised_at == raised(slots)
    &&& p.auto_host_at == clock_of(slots, now, wall)
}

/// Is the game's prompt among these?
pub open spec fn prompts_for(prompts: Seq<WorldPrompt>, game: Seq<char>) -> bool {
    exists|k: int| 0 <= k < prompts.len() && (#[trigger] prompts[k]).game_slug@ == game
}

/// Do the prompts stand in the order of their games, one for each?
pub open spec fn by_game(prompts: Seq<WorldPrompt>) -> bool {
    forall|i: int, j: int|
        #![trigger prompts[i], prompts[j]]
        0 <= i < j < prompts.len() ==> before(prompts[i].game_slug@, prompts[j].game_slug@)
}

/// Do the clocks that run fit on the wall?
pub open spec fn clocks_fit(list: Seq<SaveSlot>, now: u64, wall: i128) -> bool {
    forall|i: int|
        0 <= i < list.len() && is_pending((#[trigger] list[i]).state)
            && list[i].state.session->0.auto_host_deadline is Some ==> on_the_wall(
            list[i].state.session->0.auto_host_deadline->0,
            now,
            wall,
        ) <= i128::MAX
}

fn prompt_of(slots: &Slots, first: usize, now: u64, wall: i128) -> (r: WorldPrompt)
    requires
        first < slots@.len(),
        is_pending(slots@[first as int].state),
        clocks_fit(slots@, now, wall),
    ensures
        r.game_slug@ == slots@[first as int].save.game_slug@,
        is_prompt(r, slots@, now, wall),
{
    let game = slots.list[first].save.game_slug.clone();
    let mut worlds: Vec<WorldChoice> = Vec::new();
    let mut auto_host_at: Option<i128> = None;
    let mut raised_at: i128 = 0;
    let mut i: usize = 0;
    while i < slots.list.len()
        invariant
            i <= slots@.len(),
            first < slots@.len(),
            is_pending(slots@[first as int].state),
            slots@[first as int].save.game_slug@ == game@,
            clocks_fit(slots@, now, wall),
            first < i ==> pending_of(slots@.take(i as int), game@).len() > 0,
            are_choices(worlds@, pending_of(slots@.take(i as int), game@)),
            raised_at == raised(pending_of(slots@.take(i as int), game@)),
            auto_host_at == clock_of(pending_of(slots@.take(i as int), game@), now, wall),
        decreases slots@.len() - i,
    {
        let ghost seen = pending_of(slots@.take(i as int), game@);
        assert(slots@.take(i + 1).drop_last() =~= slots@.take(i as int));
        assert(slots@.take(i + 1).last() == slots@[i as int]);
        let s = slots.list[i].state;
        if pending(s) && same(slots.list[i].save.game_slug.as_str(), game.as_str()) {
            if let Some(w) = s.session {
                if worlds.len() == 0 || w.raised_at < raised_at {
                    raised_at = w.raised_at;
                }
                if let Some(d) = w.auto_host_deadline {
                    assert(on_the_wall(d, now, wall) <= i128::MAX);
                    let left: u64 = if d > now { d - now } else { 0 };
                    auto_host_at = Some(wall + left as i128);
                }
            }
            worlds.push(choice_of(&slots.list[i]));
            assert(seen.push(slots@[i as int]).drop_last() =~= seen);
        }
        i += 1;
    }
    assert(slots@.take(i as int) =~= slots@);
    WorldPrompt { game_slug: game, worlds, auto_host_at, raised_at }
}

/// Has every open question a prompt of its game?
pub open spec fn all_prompted(list: Seq<SaveSlot>, prompts: Seq<WorldPrompt>) -> bool {
    forall|i: int|
        0 <= i < list.len() && is_pending((#[trigger] list[i]).state) ==> prompts_for(
            prompts,
            list[i].save.game_slug@,
        )
}

/// The prompts still waiting for an answer, one per game, in the order of the games. A world is in
/// its prompt while its session is live, was prompted, and nobody answered for it.
pub fn pending_prompts(slots: &Slots, now: u64, wall: i128) -> (r: Vec<WorldPrompt>)
    requires
        clocks_fit(slots@, now, wall),
    ensures
        by_game(r@),
        forall|k: int| 0 <= k < r@.len() ==> is_prompt(#[trigger] r@[k], slots@, now, wall),
        all_prompted(slots@, r@),
{
    let mut prompts: Vec<WorldPrompt> = Vec::new();
    let mut i: usize = 0;
    while i < slots.list.len()
        invariant
            i <= slots@.len(),
            clocks_fit(slots@, now, wall),
            by_game(prompts@),
            forall|k: int|
                0 <= k < prompts@.len() ==> is_prompt(#[trigger] prompts@[k], slots@, now, wall),
            forall|j: int|
                0 <= j < i && is_pending((#[trigger] slots@[j]).state) ==> prompts_for(
                    prompts@,
                    slots@[j].save.game_slug@,
                ),
        decreases slots@.len() - i,
    {
        if pending(slots.list[i].state) {
            let prompt = prompt_of(slots, i, now, wall);
            add_prompt(&mut prompts, prompt);
        }
        i += 1;
    }
    prompts
}

/// Puts a prompt in its place, unless its game has one.
fn add_prompt(prompts: &mut Vec<WorldPrompt>, prompt: WorldPrompt)
    requires
        by_game(old(prompts)@),
    ensures
        by_game(final(prompts)@),
        prompts_for(final(prompts)@, prompt.game_slug@),
        forall|game: Seq<char>| #[trigger]
            prompts_for(old(prompts)@, game) ==> prompts_for(final(prompts)@, game),
        forall|k: int|
            0 <= k < final(prompts)@.len() ==> #[trigger] final(prompts)@[k] == prompt || old(
                prompts,
            )@.contains(final(prompts)@[k]),
{
    let ghost list = prompts@;
    let ghost game = prompt.game_slug@;
    let mut at: usize = 0;
    while at < prompts.len() && comes_before(
        prompts[at].game_slug.as_str(),
        prompt.game_slug.as_str(),
    )
        invariant
            at <= prompts.len(),
            prompts@ == list,
            forall|k: int| 0 <= k < at ==> before((#[trigger] list[k]).game_slug@, prompt.game_slug@),
        decreases prompts.len() - at,
    {
        at += 1;
    }
    if at < prompts.len() && same(prompts[at].game_slug.as_str(), prompt.game_slug.as_str()) {
        assert(list[at as int].game_slug@ == game);
        return;
    }
    proof {
        if at < list.len() {
            before_is_total(list[at as int].game_slug@, game);
        }
        assert forall|k: int| at <= k < list.len() implies before(
            game,
            (#[trigger] list[k]).game_slug@,
        ) by {
            if k > at {
                before_is_transitive(game, list[at as int].game_slug@, list[k].game_slug@);
            }
        }
    }
    prompts.insert(at, prompt);
    proof {
        let new = prompts@;
        assert(new[at as int] == prompt);
        assert forall|a: int, b: int|
            #![trigger new[a], new[b]]
            0 <= a < b < new.len() implies before(new[a].game_slug@, new[b].game_slug@) by {
            let x = if a < at { a } else { a - 1 };
            let y = if b < at { b } else { b - 1 };
            if a != at {
                assert(new[a] == list[x]);
            }
            if b != at {
                assert(new[b] == list[y]);
            }
        }
        assert forall|g: Seq<char>| #[trigger] prompts_for(list, g) implies prompts_for(new, g) by {
            let k = choose|k: int| 0 <= k < list.len() && (#[trigger] list[k]).game_slug@ == g;
            let y = if k < at { k } else { k + 1 };
            assert(new[y] == list[k]);
        }
        assert forall|k: int| 0 <= k < new.len() implies #[trigger] new[k] == prompt
            || list.contains(new[k]) by {
            let x = if k < at { k } else { k - 1 };
            if k != at {
                assert(new[k] == list[x]);
            }
        }
    }
}

// ---- the side copy's landing

/// Is another world of the game being played by the user's choice?
pub open spec fn sibling_chosen(list: Seq<SaveSlot>, game: Seq<char>, id: Seq<char>) -> bool {
    exists|k: int|
        0 <= k < list.len() && is_world_of(#[trigger] list[k], game) && list[k].save.save_id@ != id
            && has_live_session(list[k].state) && list[k].state.session->0.claimed
}

fn has_chosen_sibling(slots: &Slots, game: &str, id: &str) -> (r: bool)
    ensures
        r == sibling_chosen(slots@, game@, id@),
{
    let mut i: usize = 0;
    while i < slots.list.len()
        invariant
            i <= slots@.len(),
            forall|k: int|
                0 <= k < i ==> !(is_world_of(#[trigger] slots@[k], game@)
                    && slots@[k].save.save_id@ != id@ && has_live_session(slots@[k].state)
                    && slots@[k].state.session->0.claimed),
        decreases slots@.len() - i,
    {
        let chosen = match slots.list[i].state.session {
            Some(w) => w.live() && w.claimed,
            None => false,
        };
        if chosen && world_of_game(&slots.list[i], game) && !same(
            slots.list[i].save.save_id.as_str(),
            id,
        ) {
            assert(is_world_of(slots@[i as int], game@));
            return true;
        }
        i += 1;
    }
    false
}

/// The state of the slot at `i` once its old session is over. Where the game started again
/// meanwhile its session opens now, as the launch would have: as "not playing" where a sibling was
/// chosen from the launch's prompt.
pub open spec fn landed(
    list: Seq<SaveSlot>,
    i: int,
    over: SlotState,
    now: u64,
    wall: i128,
) -> SlotState {
    let s = SlotState { relaunch_pending: false, ..over };
    let game = list[i].save.game_slug@;
    if over.relaunch_pending {
        opened(
            s,
            world_count(list, game),
            sibling_chosen(list, game, list[i].save.save_id@),
            now,
            wall,
        )
    } else {
        s
    }
}

/// What the landing asks about.
pub open spec fn landing_asks(list: Seq<SaveSlot>, i: int, over: SlotState) -> Seq<SaveSlot> {
    let game = list[i].save.game_slug@;
    if over.relaunch_pending && asks(over, sibling_chosen(list, game, list[i].save.save_id@)) {
        seq![at(list[i], over)]
    } else {
        Seq::empty()
    }
}

/// The ids of a game's worlds are read off the saves alone.
proof fn worlds_are_their_saves(a: Seq<SaveSlot>, b: Seq<SaveSlot>, game: Seq<char>)
    requires
        same_saves(a, b),
    ensures
        world_ids(a, game) == world_ids(b, game),
    decreases a.len(),
{
    if a.len() > 0 {
        assert(b[b.len() - 1].save == a[a.len() - 1].save);
        assert forall|i: int| #![trigger b.drop_last()[i]] 0 <= i < a.len() - 1 implies b.drop_last()[i].save
            == a.drop_last()[i].save && b.drop_last()[i].lease_holder
            == a.drop_last()[i].lease_holder by {
            assert(b[i].save == a[i].save);
        }
        worlds_are_their_saves(a.drop_last(), b.drop_last(), game);
    }
}

/// A slot's own state says nothing of its siblings.
proof fn siblings_are_the_others(
    a: Seq<SaveSlot>,
    i: int,
    slot: SaveSlot,
    game: Seq<char>,
)
    requires
        0 <= i < a.len(),
        slot.save == a[i].save,
    ensures
        sibling_chosen(a.update(i, slot), game, a[i].save.save_id@) == sibling_chosen(
            a,
            game,
            a[i].save.save_id@,
        ),
{
    let b = a.update(i, slot);
    let id = a[i].save.save_id@;
    if sibling_chosen(a, game, id) {
        let k = choose|k: int|
            0 <= k < a.len() && is_world_of(#[trigger] a[k], game) && a[k].save.save_id@ != id
                && has_live_session(a[k].state) && a[k].state.session->0.claimed;
        assert(b[k] == a[k]);
    }
    if sibling_chosen(b, game, id) {
        let k = choose|k: int|
            0 <= k < b.len() && is_world_of(#[trigger] b[k], game) && b[k].save.save_id@ != id
                && has_live_session(b[k].state) && b[k].state.session->0.claimed;
        assert(b[k] == a[k]);
    }
}

fn after_side_copy(slots: &mut Slots, i: usize, now: u64, wall: i128, out: &mut Outbox)
    requires
        i < old(slots)@.len(),
        now + AUTO_HOST_DELAY <= u64::MAX,
    ensures
        final(slots)@ == old(slots)@.update(
            i as int,
            at(
                old(slots)@[i as int],
                landed(old(slots)@, i as int, old(slots)@[i as int].state, now, wall),
            ),
        ),
        final(out).attached == old(out).attached,
        final(out).cmds@ == old(out).cmds@,
        prompt_told(
            old(out).events@,
            final(out).events@,
            old(slots)@[i as int].save.game_slug@,
            landing_asks(old(slots)@, i as int, old(slots)@[i as int].state),
        ),
{
    let over = slots.list[i].state;
    if !over.relaunch_pending {
        assert(slots@ =~= slots@.update(i as int, at(slots@[i as int], SlotState { relaunch_pending: false, ..over })));
        return;
    }
    let game = slots.list[i].save.game_slug.clone();
    let total: usize = shared_of(slots, game.as_str()).len();
    let id = slots.list[i].save.save_id.clone();
    let chosen = has_chosen_sibling(slots, game.as_str(), id.as_str());
    let ask = !over.role_pinned && over.lease != LeaseObs::Mine && !chosen;
    if ask {
        let mut worlds: Vec<WorldChoice> = Vec::new();
        worlds.push(choice_of(&slots.list[i]));
        out.tell(AgentEvent::WorldClaimWanted { game_slug: game, worlds });
        assert(out.events@.drop_last() =~= old(out).events@);
    }
    slots.list[i].state = open_one(
        SlotState { relaunch_pending: false, ..over },
        total,
        chosen,
        now,
        wall,
    );
    assert(slots@ =~= old(slots)@.update(
        i as int,
        at(
            old(slots)@[i as int],
            landed(old(slots)@, i as int, old(slots)@[i as int].state, now, wall),
        ),
    ));
}

/// Did the end of a copy end the session of the slot at `i` that waited for it, with this state and
/// these events, and open the one that a relaunch owes?
pub open spec fn ended_by(
    list: Seq<SaveSlot>,
    after: Seq<SaveSlot>,
    before_out: Outbox,
    after_out: Outbox,
    i: int,
    over: SlotState,
    events: Seq<AgentEvent>,
    now: u64,
    wall: i128,
) -> bool {
    if landing(list[i].state) {
        &&& after == list.update(i, at(list[i], landed(list, i, over, now, wall)))
        &&& prompt_told(
            before_out.events@ + events,
            after_out.events@,
            list[i].save.game_slug@,
            landing_asks(list, i, over),
        )
    } else {
        after == list && after_out == before_out
    }
}

/// Did the landing of the copy of the save with this id end the session that waited for it?
pub open spec fn copy_landed(
    list: Seq<SaveSlot>,
    after: Seq<SaveSlot>,
    before_out: Outbox,
    after_out: Outbox,
    id: Seq<char>,
    moved: int,
    world_on_disk: bool,
    now: u64,
    wall: i128,
) -> bool {
    forall|i: int| #[trigger]
        has_id(list, i, id) ==> ended_by(
            list,
            after,
            before_out,
            after_out,
            i,
            copied(list[i].save, list[i].state, moved, world_on_disk, now, wall),
            copied_events(list[i].save, list[i].state, moved),
            now,
            wall,
        )
}

/// The side copy landed with `moved` files in it. Only the session that asked for the copy is
/// ended by it; the head then comes down, and a game that started again meanwhile gets its
/// session.
pub fn on_side_copied(
    slots: &mut Slots,
    save_id: &str,
    moved: u64,
    world_on_disk: bool,
    now: u64,
    wall: i128,
    out: &mut Outbox,
)
    requires
        old(slots).wf(),
        now + AUTO_HOST_DELAY <= u64::MAX,
    ensures
        final(slots).wf(),
        final(out).attached == old(out).attached,
        final(out).cmds@ == old(out).cmds@,
        nowhere(old(slots)@, save_id@) ==> final(slots)@ == old(
            slots,
        )@ && *final(out) == *old(out),
        copy_landed(
            old(slots)@,
            final(slots)@,
            *old(out),
            *final(out),
            save_id@,
            moved as int,
            world_on_disk,
            now,
            wall,
        ),
{
    let i: usize = match slots.find(save_id) {
        Some(i) => i,
        None => {
            return;
        },
    };
    let ghost list = slots@;
    proof {
        ids_are_unique(list, save_id@);
    }
    if !side_copied(&mut slots.list[i], moved, world_on_disk, now, wall, out) {
        assert(slots.list@ =~= list);
        return;
    }
    let ghost mid = slots@;
    let ghost mid_events = out.events@;
    proof {
        assert(mid =~= list.update(i as int, mid[i as int]));
        worlds_are_their_saves(list, mid, list[i as int].save.game_slug@);
        siblings_are_the_others(list, i as int, mid[i as int], list[i as int].save.game_slug@);
    }
    after_side_copy(slots, i, now, wall, out);
    proof {
        assert(slots@ =~= list.update(i as int, slots@[i as int]));
        saves_keep_their_order(list, slots@);
        let over = copied(list[i as int].save, list[i as int].state, moved as int, world_on_disk, now, wall);
        let events = copied_events(list[i as int].save, list[i as int].state, moved as int);
        assert(old(out).events@ + events =~= mid_events);
        assert(ended_by(list, slots@, *old(out), *out, i as int, over, events, now, wall));
    }
}

/// Did the failure of the copy of the save with this id end the session that waited for it?
pub open spec fn copy_lost(
    list: Seq<SaveSlot>,
    after: Seq<SaveSlot>,
    before_out: Outbox,
    after_out: Outbox,
    id: Seq<char>,
    now: u64,
    wall: i128,
) -> bool {
    forall|i: int| #[trigger]
        has_id(list, i, id) ==> ended_by(
            list,
            after,
            before_out,
            after_out,
            i,
            copy_failed(list[i].state),
            Seq::empty(),
            now,
            wall,
        )
}

/// The side copy could not be made: the bytes stay where they are, pending, and the session is
/// over, but the slot stays a viewer for them.
pub fn on_side_copy_failed(slots: &mut Slots, save_id: &str, now: u64, wall: i128, out: &mut Outbox)
    requires
        old(slots).wf(),
        now + AUTO_HOST_DELAY <= u64::MAX,
    ensures
        final(slots).wf(),
        final(out).attached == old(out).attached,
        final(out).cmds@ == old(out).cmds@,
        nowhere(old(slots)@, save_id@) ==> final(slots)@ == old(
            slots,
        )@ && *final(out) == *old(out),
        copy_lost(
            old(slots)@,
            final(slots)@,
            *old(out),
            *final(out),
            save_id@,
            now,
            wall,
        ),
{
    let i: usize = match slots.find(save_id) {
        Some(i) => i,
        None => {
            return;
        },
    };
    let ghost list = slots@;
    proof {
        ids_are_unique(list, save_id@);
    }
    if !side_copy_failed(&mut slots.list[i]) {
        assert(slots.list@ =~= list);
        return;
    }
    let ghost mid = slots@;
    let ghost mid_events = out.events@;
    proof {
        assert(mid =~= list.update(i as int, mid[i as int]));
        worlds_are_their_saves(list, mid, list[i as int].save.game_slug@);
        siblings_are_the_others(list, i as int, mid[i as int], list[i as int].save.game_slug@);
    }
    after_side_copy(slots, i, now, wall, out);
    proof {
        assert(slots@ =~= list.update(i as int, slots@[i as int]));
        saves_keep_their_order(list, slots@);
        let over = copy_failed(list[i as int].state);
        let events = Seq::<AgentEvent>::empty();
        assert(old(out).events@ + events =~= mid_events);
        assert(ended_by(list, slots@, *old(out), *out, i as int, over, events, now, wall));
    }
}

// ---- laws

/// Whatever a handler does with a slot, the slots stay in order as long as the slot keeps its id.
pub proof fn a_slot_stays_in_its_place(list: Seq<SaveSlot>, i: int, slot: SaveSlot)
    requires
        in_order(list),
        0 <= i < list.len(),
        slot.save.save_id@ == list[i].save.save_id@,
    ensures
        in_order(list.update(i, slot)),
{
    let b = list.update(i, slot);
    assert forall|x: int, y: int|
        #![trigger b[x], b[y]]
        0 <= x < y < b.len() implies before(b[x].save.save_id@, b[y].save.save_id@) by {
        assert(b[x].save.save_id@ == list[x].save.save_id@);
        assert(b[y].save.save_id@ == list[y].save.save_id@);
    }
}

/// A game asks once: after a launch that opened a session, a second launch of the same game finds
/// it live and changes nothing.
pub proof fn a_second_launch_asks_nothing(
    list: Seq<SaveSlot>,
    after: Seq<SaveSlot>,
    i: int,
    game: Seq<char>,
    now: u64,
    wall: i128,
)
    requires
        is_launched(list, after, game, now, wall),
        0 <= i < list.len(),
        is_world_of(list[i], game),
        !landing(list[i].state),
    ensures
        any_live(after, game),
{
    assert(after[i] == launched(list[i], game, world_count(list, game), now, wall));
}

/// The clock starts for a lone world alone, and never for one that somebody is known to hold or
/// that has a role already.
pub proof fn the_clock_is_for_a_lone_free_world(
    s: SlotState,
    total: nat,
    as_dismissed: bool,
    now: u64,
    wall: i128,
)
    ensures
        opened(s, total, as_dismissed, now, wall).session->0.auto_host_deadline is Some ==> {
            &&& total == 1
            &&& s.lease != LeaseObs::Other
            &&& s.lease != LeaseObs::Mine
            &&& !s.role_pinned
            &&& !as_dismissed
        },
{
}

/// A role chosen outside a session is the next session's answer: that session opens claimed, keeps
/// the role, and asks nothing.
pub proof fn a_pinned_role_is_the_answer(
    s: SlotState,
    role: WorldRole,
    total: nat,
    as_dismissed: bool,
    now: u64,
    wall: i128,
)
    requires
        s.session is None,
    ensures
        ({
            let t = opened(chosen(s, role), total, as_dismissed, now, wall);
            &&& t.role == role
            &&& t.session->0.claimed
            &&& !is_pending(t)
        }),
{
}

/// Choosing a world answers its game's prompt: the chosen world claims, the others are passed
/// over, and none of the game's worlds waits for an answer any more.
pub proof fn one_choice_answers_the_prompt(s: SaveSlot, role: WorldRole, id: Seq<char>)
    ensures
        ({
            let game = s.save.game_slug@;
            if s.save.save_id@ == id {
                !is_pending(chosen(s.state, role))
            } else {
                !is_pending(passed_over(s, game, id).state)
            }
        }),
{
}

/// The game's stop takes its worlds out of the prompt, and stops their clocks.
pub proof fn a_stop_ends_the_prompt(s: SlotState)
    ensures
        !is_pending(stopped(s)),
        stopped(s).session is Some ==> stopped(s).session->0.auto_host_deadline is None,
        !stopped(s).relaunch_pending,
{
}

/// The ids that a prompt's worlds carry.
pub open spec fn ids_offered(worlds: Seq<WorldChoice>) -> Seq<Seq<char>> {
    Seq::new(worlds.len(), |i: int| worlds[i].save_id@)
}

proof fn ids_grow(list: Seq<SaveSlot>, game: Seq<char>, k: int)
    requires
        0 <= k < list.len(),
        forall|i: int| 0 <= i < list.len() ==> {
            &&& (#[trigger] list[i]).save.shared is Some
            &&& !list[i].save.track_only
            &&& list[i].save.game_slug@ == game
        },
    ensures
        world_ids(list, game).len() == list.len(),
        world_ids(list, game)[k] == list[k].save.save_id@,
    decreases list.len(),
{
    let rest = list.drop_last();
    assert forall|i: int| 0 <= i < rest.len() implies {
        &&& (#[trigger] rest[i]).save.shared is Some
        &&& !rest[i].save.track_only
        &&& rest[i].save.game_slug@ == game
    } by {
        assert(rest[i] == list[i]);
    }
    assert(list[list.len() - 1].save.shared is Some);
    if rest.len() > 0 {
        ids_grow(rest, game, if k < rest.len() { k } else { 0 });
    } else {
        assert(world_ids(rest, game) =~= Seq::<Seq<char>>::empty());
    }
}

/// Of the slots asked about, each is one of the slots, in their order; and each shared world of the
/// game that has no role yet and no copy on its way is among them.
proof fn the_asked_are_slots(list: Seq<SaveSlot>, game: Seq<char>, k: int) -> (i: int)
    requires
        0 <= k < asked_about(list, game).len(),
    ensures
        0 <= i < list.len(),
        asked_about(list, game)[k] == list[i],
        list[i].save.shared is Some,
        !list[i].save.track_only,
        list[i].save.game_slug@ == game,
        !list[i].state.role_pinned,
        list[i].state.lease != LeaseObs::Mine,
    decreases list.len(),
{
    let rest = list.drop_last();
    if k < asked_about(rest, game).len() {
        let i = the_asked_are_slots(rest, game, k);
        assert(rest[i] == list[i]);
        i
    } else {
        list.len() - 1
    }
}

proof fn a_free_world_is_asked_about(list: Seq<SaveSlot>, game: Seq<char>, i: int) -> (k: int)
    requires
        0 <= i < list.len(),
        list[i].save.shared is Some,
        !list[i].save.track_only,
        list[i].save.game_slug@ == game,
        !list[i].state.role_pinned,
        list[i].state.lease != LeaseObs::Mine,
        list[i].state.session is None || !list[i].state.session->0.side_copy_started,
    ensures
        0 <= k < asked_about(list, game).len(),
        asked_about(list, game)[k] == list[i],
    decreases list.len(),
{
    let rest = list.drop_last();
    if i < rest.len() {
        assert(rest[i] == list[i]);
        a_free_world_is_asked_about(rest, game, i)
    } else {
        asked_about(rest, game).len() as int
    }
}

/// The answer to a launch's prompt names a save: looking up the id of a world that is offered finds
/// the one slot it was made from, a shared world of the game with no role yet, and the prompt shows
/// that slot's label, group, holder and lease. The ids offered are those that the game's worlds
/// among the asked have, in their order, and no free world is left out.
pub proof fn a_prompt_names_its_slots(
    list: Seq<SaveSlot>,
    game: Seq<char>,
    e: AgentEvent,
    k: int,
    j: int,
)
    requires
        in_order(list),
        is_prompt_event(e, game, asked_about(list, game)),
    ensures
        e is WorldClaimWanted,
        e->WorldClaimWanted_game_slug@ == game,
        ids_offered(e->worlds@) == world_ids(asked_about(list, game), game),
        0 <= k < e->worlds@.len() ==> {
            let c = e->worlds@[k];
            &&& exists|i: int| #[trigger] has_id(list, i, c.save_id@)
            &&& has_id(list, j, c.save_id@) ==> {
                &&& list[j].save.save_id@ == c.save_id@
                &&& list[j].save.label == c.label
                &&& list[j].save.game_slug@ == game
                &&& list[j].save.shared is Some
                &&& list[j].save.shared->0.group_name == c.group_name
                &&& !list[j].save.track_only
                &&& list[j].lease_holder == c.holder
                &&& !list[j].state.role_pinned
                &&& list[j].state.lease != LeaseObs::Mine
                &&& (c.lease == crate::agent::slot::WorldLease::Free) == (list[j].state.lease
                    == LeaseObs::Free)
                &&& (c.lease == crate::agent::slot::WorldLease::Other) == (list[j].state.lease
                    == LeaseObs::Other)
                &&& (c.lease == crate::agent::slot::WorldLease::Unknown) == (list[j].state.lease
                    == LeaseObs::Unknown)
            }
        },
        (0 <= j < list.len() && list[j].save.shared is Some && !list[j].save.track_only
            && list[j].save.game_slug@ == game && !list[j].state.role_pinned && list[j].state.lease
            != LeaseObs::Mine && list[j].state.session is None) ==> ids_offered(
            e->worlds@,
        ).contains(list[j].save.save_id@),
{
    let asked = asked_about(list, game);
    let worlds = e->worlds@;
    assert forall|n: int| 0 <= n < asked.len() implies {
        &&& (#[trigger] asked[n]).save.shared is Some
        &&& !asked[n].save.track_only
        &&& asked[n].save.game_slug@ == game
    } by {
        let i = the_asked_are_slots(list, game, n);
    }
    assert forall|n: int| 0 <= n < asked.len() implies #[trigger] world_ids(asked, game)[n]
        == asked[n].save.save_id@ by {
        ids_grow(asked, game, n);
    }
    if asked.len() > 0 {
        ids_grow(asked, game, 0);
    }
    assert forall|n: int| 0 <= n < worlds.len() implies #[trigger] ids_offered(worlds)[n]
        == world_ids(asked, game)[n] by {
        assert(is_choice(worlds[n], asked[n]));
    }
    assert(ids_offered(worlds) =~= world_ids(asked, game));
    if 0 <= k < worlds.len() {
        let i = the_asked_are_slots(list, game, k);
        assert(is_choice(worlds[k], asked[k]));
        assert(has_id(list, i, worlds[k].save_id@));
        ids_are_unique(list, worlds[k].save_id@);
    }
    if 0 <= j < list.len() && list[j].save.shared is Some && !list[j].save.track_only
        && list[j].save.game_slug@ == game && !list[j].state.role_pinned && list[j].state.lease
        != LeaseObs::Mine && list[j].state.session is None {
        let n = a_free_world_is_asked_about(list, game, j);
        assert(ids_offered(worlds)[n] == list[j].save.save_id@);
    }
}

proof fn the_pending_are_slots(list: Seq<SaveSlot>, game: Seq<char>, k: int) -> (i: int)
    requires
        0 <= k < pending_of(list, game).len(),
    ensures
        0 <= i < list.len(),
        pending_of(list, game)[k] == list[i],
        list[i].save.game_slug@ == game,
        list[i].state.session is Some,
        !list[i].state.session->0.stopped,
        list[i].state.session->0.prompted,
        !list[i].state.session->0.claimed,
        !list[i].state.session->0.dismissed,
    decreases list.len(),
{
    let rest = list.drop_last();
    if k < pending_of(rest, game).len() {
        let i = the_pending_are_slots(rest, game, k);
        assert(rest[i] == list[i]);
        i
    } else {
        list.len() - 1
    }
}

proof fn an_open_question_is_pending(list: Seq<SaveSlot>, game: Seq<char>, i: int) -> (k: int)
    requires
        0 <= i < list.len(),
        list[i].save.game_slug@ == game,
        list[i].state.session is Some,
        !list[i].state.session->0.stopped,
        list[i].state.session->0.prompted,
        !list[i].state.session->0.claimed,
        !list[i].state.session->0.dismissed,
    ensures
        0 <= k < pending_of(list, game).len(),
        pending_of(list, game)[k] == list[i],
    decreases list.len(),
{
    let rest = list.drop_last();
    if i < rest.len() {
        assert(rest[i] == list[i]);
        an_open_question_is_pending(rest, game, i)
    } else {
        pending_of(rest, game).len() as int
    }
}

proof fn raised_is_the_first(slots: Seq<SaveSlot>, k: int)
    requires
        0 <= k < slots.len(),
    ensures
        raised(slots) <= slots[k].state.session->0.raised_at,
        exists|m: int|
            0 <= m < slots.len() && raised(slots) == (
            #[trigger] slots[m]).state.session->0.raised_at,
    decreases slots.len(),
{
    let rest = slots.drop_last();
    if rest.len() == 0 {
        assert(raised(slots) == slots[0].state.session->0.raised_at);
    } else {
        raised_is_the_first(rest, if k < rest.len() { k } else { 0 });
        let m = choose|m: int|
            0 <= m < rest.len() && raised(rest) == (#[trigger] rest[m]).state.session->0.raised_at;
        assert(slots[m] == rest[m]);
        assert(raised(slots) == slots[m].state.session->0.raised_at || raised(slots)
            == slots[slots.len() - 1].state.session->0.raised_at);
    }
}

proof fn a_clock_has_its_slot(slots: Seq<SaveSlot>, now: u64, wall: i128)
    ensures
        clock_of(slots, now, wall) is Some ==> exists|m: int|
            0 <= m < slots.len() && (#[trigger] slots[m]).state.session->0.auto_host_deadline is Some
                && clock_of(slots, now, wall)->0 == on_the_wall(
                slots[m].state.session->0.auto_host_deadline->0,
                now,
                wall,
            ) as i128,
        clock_of(slots, now, wall) is None ==> forall|m: int|
            0 <= m < slots.len() ==> (#[trigger] slots[m]).state.session->0.auto_host_deadline is None,
    decreases slots.len(),
{
    if slots.len() > 0 {
        let rest = slots.drop_last();
        a_clock_has_its_slot(rest, now, wall);
        if slots.last().state.session->0.auto_host_deadline is Some {
            assert(slots[slots.len() - 1].state.session->0.auto_host_deadline is Some);
        } else if clock_of(slots, now, wall) is Some {
            let m = choose|m: int|
                0 <= m < rest.len() && (
                #[trigger] rest[m]).state.session->0.auto_host_deadline is Some && clock_of(
                    rest,
                    now,
                    wall,
                )->0 == on_the_wall(rest[m].state.session->0.auto_host_deadline->0, now, wall) as i128;
            assert(slots[m] == rest[m]);
        } else {
            assert forall|m: int| 0 <= m < slots.len() implies (
            #[trigger] slots[m]).state.session->0.auto_host_deadline is None by {
                if m < rest.len() {
                    assert(rest[m] == slots[m]);
                }
            }
        }
    }
}

/// A prompt that waits shows the worlds whose question is open and no others: the id of each finds
/// its one slot, of the prompt's game, in a live session that was asked and not answered. It was
/// raised when the first of their sessions was. Its clock is some deadline of theirs on the wall:
/// so far after `wall` as the deadline is after `now`, and not before it.
pub proof fn a_waiting_prompt_shows_open_questions(
    list: Seq<SaveSlot>,
    p: WorldPrompt,
    now: u64,
    wall: i128,
    k: int,
    j: int,
)
    requires
        in_order(list),
        is_prompt(p, list, now, wall),
        clocks_fit(list, now, wall),
        0 <= k < p.worlds@.len(),
    ensures
        exists|i: int| #[trigger] has_id(list, i, p.worlds@[k].save_id@),
        has_id(list, j, p.worlds@[k].save_id@) ==> {
            &&& list[j].save.game_slug@ == p.game_slug@
            &&& list[j].save.label == p.worlds@[k].label
            &&& list[j].save.shared is Some ==> list[j].save.shared->0.group_name
                == p.worlds@[k].group_name
            &&& list[j].lease_holder == p.worlds@[k].holder
            &&& list[j].state.session is Some
            &&& !list[j].state.session->0.stopped
            &&& list[j].state.session->0.prompted
            &&& !list[j].state.session->0.claimed
            &&& !list[j].state.session->0.dismissed
            &&& p.raised_at <= list[j].state.session->0.raised_at
            &&& p.auto_host_at is None ==> list[j].state.session->0.auto_host_deadline is None
        },
        exists|i: int|
            0 <= i < list.len() && p.raised_at == (
            #[trigger] list[i]).state.session->0.raised_at,
        p.auto_host_at matches Some(t) ==> exists|i: int|
            {
                &&& 0 <= i < list.len()
                &&& (#[trigger] list[i]).state.session->0.auto_host_deadline is Some
                &&& list[i].state.session->0.auto_host_deadline->0 >= now ==> t - wall
                    == list[i].state.session->0.auto_host_deadline->0 - now
                &&& list[i].state.session->0.auto_host_deadline->0 < now ==> t == wall
            },
        (0 <= j < list.len() && list[j].save.game_slug@ == p.game_slug@
            && list[j].state.session is Some && !list[j].state.session->0.stopped
            && list[j].state.session->0.prompted && !list[j].state.session->0.claimed
            && !list[j].state.session->0.dismissed) ==> ids_offered(p.worlds@).contains(
            list[j].save.save_id@,
        ),
{
    let game = p.game_slug@;
    let slots = pending_of(list, game);
    let i = the_pending_are_slots(list, game, k);
    assert(is_choice(p.worlds@[k], slots[k]));
    assert(has_id(list, i, p.worlds@[k].save_id@));
    ids_are_unique(list, p.worlds@[k].save_id@);
    raised_is_the_first(slots, k);
    a_clock_has_its_slot(slots, now, wall);
    let m = choose|m: int|
        0 <= m < slots.len() && raised(slots) == (#[trigger] slots[m]).state.session->0.raised_at;
    let mi = the_pending_are_slots(list, game, m);
    assert(list[mi].state.session->0.raised_at == p.raised_at);
    if p.auto_host_at is Some {
        let c = choose|c: int|
            0 <= c < slots.len() && (#[trigger] slots[c]).state.session->0.auto_host_deadline is Some
                && clock_of(slots, now, wall)->0 == on_the_wall(
                slots[c].state.session->0.auto_host_deadline->0,
                now,
                wall,
            ) as i128;
        let ci = the_pending_are_slots(list, game, c);
        assert(is_pending(list[ci].state));
        assert(list[ci].state.session->0.auto_host_deadline is Some);
    }
    if 0 <= j < list.len() && list[j].save.game_slug@ == game && list[j].state.session is Some
        && !list[j].state.session->0.stopped && list[j].state.session->0.prompted
        && !list[j].state.session->0.claimed && !list[j].state.session->0.dismissed {
        let n = an_open_question_is_pending(list, game, j);
        assert(is_choice(p.worlds@[n], slots[n]));
        assert(ids_offered(p.worlds@)[n] == list[j].save.save_id@);
    }
}

/// The worlds of a game that are listed are its shared saves that this machine does not only track,
/// by the id of their save, each once and in the order of the slots.
pub proof fn the_listed_are_the_shared_worlds(list: Seq<SaveSlot>, game: Seq<char>, id: Seq<char>)
    requires
        in_order(list),
    ensures
        world_ids(list, game).contains(id) <==> exists|i: int|
            {
                &&& 0 <= i < list.len()
                &&& (#[trigger] list[i]).save.save_id@ == id
                &&& list[i].save.shared is Some
                &&& !list[i].save.track_only
                &&& list[i].save.game_slug@ == game
            },
        forall|a: int, b: int|
            #![trigger world_ids(list, game)[a], world_ids(list, game)[b]]
            0 <= a < b < world_ids(list, game).len() ==> before(
                world_ids(list, game)[a],
                world_ids(list, game)[b],
            ),
    decreases list.len(),
{
    if list.len() > 0 {
        let rest = list.drop_last();
        let (was, is) = (world_ids(rest, game), world_ids(list, game));
        assert forall|a: int, b: int|
            #![trigger rest[a], rest[b]]
            0 <= a < b < rest.len() implies before(rest[a].save.save_id@, rest[b].save.save_id@) by {
            assert(rest[a] == list[a] && rest[b] == list[b]);
        }
        the_listed_are_the_shared_worlds(rest, game, id);
        let last = list[list.len() - 1];
        if was.contains(id) {
            let i = choose|i: int|
                {
                    &&& 0 <= i < rest.len()
                    &&& (#[trigger] rest[i]).save.save_id@ == id
                    &&& rest[i].save.shared is Some
                    &&& !rest[i].save.track_only
                    &&& rest[i].save.game_slug@ == game
                };
            assert(list[i] == rest[i]);
            let n = was.index_of(id);
            assert(is[n] == id);
        }
        if is.contains(id) && !was.contains(id) {
            let n = is.index_of(id);
            if n < was.len() {
                assert(was[n] == id);
            }
        }
        if exists|i: int|
            {
                &&& 0 <= i < list.len()
                &&& (#[trigger] list[i]).save.save_id@ == id
                &&& list[i].save.shared is Some
                &&& !list[i].save.track_only
                &&& list[i].save.game_slug@ == game
            } {
            let i = choose|i: int|
                {
                    &&& 0 <= i < list.len()
                    &&& (#[trigger] list[i]).save.save_id@ == id
                    &&& list[i].save.shared is Some
                    &&& !list[i].save.track_only
                    &&& list[i].save.game_slug@ == game
                };
            if i < rest.len() {
                assert(rest[i] == list[i]);
            } else {
                assert(is[is.len() - 1] == id);
            }
        }
        assert forall|a: int, b: int|
            #![trigger is[a], is[b]]
            0 <= a < b < is.len() implies before(is[a], is[b]) by {
            if b < was.len() {
                assert(is[a] == was[a] && is[b] == was[b]);
            } else {
                assert(is[b] == last.save.save_id@);
                assert(was[a] == is[a]);
                a_listed_id_is_a_slots(rest, game, a);
                let i = choose|i: int|
                    0 <= i < rest.len() && (#[trigger] rest[i]).save.save_id@ == was[a];
                assert(list[i] == rest[i]);
            }
        }
    }
}

proof fn a_listed_id_is_a_slots(list: Seq<SaveSlot>, game: Seq<char>, k: int)
    requires
        0 <= k < world_ids(list, game).len(),
    ensures
        exists|i: int|
            0 <= i < list.len() && (#[trigger] list[i]).save.save_id@ == world_ids(list, game)[k],
    decreases list.len(),
{
    let rest = list.drop_last();
    if k < world_ids(rest, game).len() {
        a_listed_id_is_a_slots(rest, game, k);
        let i = choose|i: int|
            0 <= i < rest.len() && (#[trigger] rest[i]).save.save_id@ == world_ids(rest, game)[k];
        assert(list[i] == rest[i]);
    } else {
        assert(list[list.len() - 1].save.save_id@ == world_ids(list, game)[k]);
    }
}

/// What a launch leaves of each slot. No save, holder or lease changes, and nothing at all of a save
/// that is not a shared world of the game. A world whose copy is on its way keeps its session and
/// opens the next one later. Any other gets a session that began now and is live: claimed with the
/// role it was pinned to, or that of the host where this machine holds the lease; else asked about,
/// with the minute running for a lone world that nobody is known to hold.
pub proof fn a_launch_opens_a_session_on_each_world(
    list: Seq<SaveSlot>,
    after: Seq<SaveSlot>,
    game: Seq<char>,
    now: u64,
    wall: i128,
    i: int,
)
    requires
        is_launched(list, after, game, now, wall),
        0 <= i < list.len(),
        now + 60_000_000_000 <= u64::MAX,
    ensures
        ({
            let (s, t) = (list[i].state, after[i].state);
            let world = list[i].save.shared is Some && !list[i].save.track_only
                && list[i].save.game_slug@ == game;
            let copying = s.session is Some && s.session->0.stopped
                && s.session->0.side_copy_started;
            &&& after.len() == list.len()
            &&& after[i].save == list[i].save
            &&& after[i].lease_holder == list[i].lease_holder
            &&& !world ==> t == s
            &&& world && copying ==> t.relaunch_pending && t.session == s.session
            &&& world && !copying ==> {
                &&& t.session is Some
                &&& !t.session->0.stopped
                &&& t.session->0.started_at == now
                &&& t.session->0.raised_at == wall
                &&& t.session->0.claimed == (s.role_pinned || s.lease == LeaseObs::Mine)
                &&& t.session->0.prompted == !t.session->0.claimed
                &&& !t.session->0.dismissed
                &&& !t.session->0.side_copy
                &&& !t.session->0.side_copy_started
                &&& !t.session->0.wrote_unclaimed
                &&& !t.session->0.refresh_asked
                &&& t.session->0.writes == 0
                &&& !t.role_pinned
                &&& t.role == (if s.role_pinned || s.local_only_pending {
                    s.role
                } else {
                    WorldRole::Host
                })
                &&& t.session->0.auto_host_deadline is Some <==> t.session->0.prompted
                    && world_ids(list, game).len() == 1 && s.lease != LeaseObs::Other
                &&& t.session->0.auto_host_deadline matches Some(d) ==> d == now + 60_000_000_000
            }
            &&& t.lease == s.lease
            &&& t.lease_requested == s.lease_requested
            &&& t.release_requested == s.release_requested
            &&& t.has_pending == s.has_pending
            &&& t.local_only_pending == s.local_only_pending
            &&& t.stale_base == s.stale_base
            &&& t.known_version == s.known_version
            &&& t.pull_pending == s.pull_pending
            &&& t.is_running == s.is_running
        }),
{
    assert(after[i] == launched(list[i], game, world_count(list, game), now, wall));
}

/// A stop ends the session of the save that stopped and of its game's other worlds whose own
/// process is not running; every other slot, and the rest of those, stays as it was.
pub proof fn a_stop_is_for_its_own_and_the_idle(s: SaveSlot, game: Seq<char>, id: Seq<char>)
    ensures
        ({
            let t = stopped_with(s, game, id);
            let hit = s.save.shared is Some && !s.save.track_only && s.save.game_slug@ == game && (
            s.save.save_id@ == id || !s.state.is_running);
            &&& !hit ==> t == s
            &&& hit && s.state.session is Some ==> t.state.session is Some
                && t.state.session->0.stopped && t.state.session->0.auto_host_deadline is None
                && t.state.session->0.claimed == s.state.session->0.claimed
                && t.state.session->0.side_copy == s.state.session->0.side_copy
            &&& hit && s.state.session is None ==> t.state.session is None
            &&& hit ==> !t.state.relaunch_pending
            &&& SaveSlot {
                state: SlotState {
                    session: s.state.session,
                    relaunch_pending: s.state.relaunch_pending,
                    ..t.state
                },
                ..t
            } == s
        }),
{
}

/// Choosing a world says "not playing" for exactly the other open questions of its game, and
/// touches nothing else.
pub proof fn a_choice_passes_over_the_open_siblings(s: SaveSlot, game: Seq<char>, id: Seq<char>)
    ensures
        ({
            let t = passed_over(s, game, id);
            let open = s.state.session is Some && !s.state.session->0.stopped
                && s.state.session->0.prompted && !s.state.session->0.claimed
                && !s.state.session->0.dismissed;
            let hit = open && s.save.game_slug@ == game && s.save.save_id@ != id;
            &&& !hit ==> t == s
            &&& hit ==> t.state.session->0.dismissed && t.state.session->0.auto_host_deadline is None
                && !t.state.session->0.claimed && !t.state.session->0.stopped
            &&& SaveSlot { state: SlotState { session: s.state.session, ..t.state }, ..t } == s
        }),
{
}

/// The landing of a copy opens the session that a relaunch owes, as the launch would have, and only
/// that one: not asked about where another world of the game was chosen meanwhile.
pub proof fn a_landing_opens_what_the_relaunch_owes(
    list: Seq<SaveSlot>,
    i: int,
    over: SlotState,
    now: u64,
    wall: i128,
    k: int,
)
    requires
        0 <= i < list.len(),
        now + 60_000_000_000 <= u64::MAX,
    ensures
        ({
            let t = landed(list, i, over, now, wall);
            let game = list[i].save.game_slug@;
            let taken = over.role_pinned || over.lease == LeaseObs::Mine;
            &&& !t.relaunch_pending
            &&& !over.relaunch_pending ==> SlotState { relaunch_pending: false, ..over } == t
                && landing_asks(list, i, over).len() == 0
            &&& over.relaunch_pending ==> {
                &&& t.session is Some
                &&& !t.session->0.stopped
                &&& t.session->0.started_at == now
                &&& t.session->0.claimed == taken
                &&& t.session->0.prompted ==> !taken && !t.session->0.dismissed
                &&& taken || t.session->0.prompted || t.session->0.dismissed
                &&& landing_asks(list, i, over).len() == (if t.session->0.prompted {
                    1int
                } else {
                    0
                })
                &&& (0 <= k < list.len() && list[k].save.shared is Some && !list[k].save.track_only
                    && list[k].save.game_slug@ == game && list[k].save.save_id@
                    != list[i].save.save_id@ && list[k].state.session is Some
                    && !list[k].state.session->0.stopped && list[k].state.session->0.claimed
                    && !taken) ==> t.session->0.dismissed
            }
            &&& landing_asks(list, i, over).len() > 0 ==> landing_asks(list, i, over)[0].save
                == list[i].save
        }),
{
    let game = list[i].save.game_slug@;
    if 0 <= k < list.len() && list[k].save.shared is Some && !list[k].save.track_only
        && list[k].save.game_slug@ == game && list[k].save.save_id@ != list[i].save.save_id@
        && list[k].state.session is Some && !list[k].state.session->0.stopped
        && list[k].state.session->0.claimed {
        assert(is_world_of(list[k], game));
        assert(sibling_chosen(list, game, list[i].save.save_id@));
    }
}

// ---- laws on the calls

/// Looking an id up finds the one slot that has it, and nothing where none has. A slot whose id is
/// taken is not put in again; any other is, and then the lookup finds it.
pub proof fn a_lookup_finds_the_slot(
    slots: &mut Slots,
    slot: SaveSlot,
    put: bool,
    id: &str,
    found: Option<usize>,
    none: Slots,
    count: usize,
)
    requires
        old(slots).wf(),
        call_ensures(Slots::insert, (slots, slot), put),
        call_ensures(Slots::find, (&*final(slots), id), found),
        call_ensures(Slots::len, (&*final(slots),), count),
        call_ensures(Slots::new, (), none),
    ensures
        none@.len() == 0,
        count == final(slots)@.len(),
        put ==> count == old(slots)@.len() + 1,
        !put ==> final(slots)@ == old(slots)@,
        id@ == slot.save.save_id@ ==> found is Some,
        put && id@ == slot.save.save_id@ ==> final(slots)@[found->0 as int] == slot,
        found is Some ==> found->0 < count && final(slots)@[found->0 as int].save.save_id@ == id@,
        found is None ==> forall|i: int|
            0 <= i < final(slots)@.len() ==> (#[trigger] final(slots)@[i]).save.save_id@ != id@,
{
    let new = final(slots)@;
    if put {
        let at = choose|at: int|
            0 <= at <= old(slots)@.len() && new == old(slots)@.insert(at, slot);
        assert(has_id(new, at, slot.save.save_id@));
        ids_are_unique(new, slot.save.save_id@);
    } else {
        let i = choose|i: int| #[trigger] has_id(old(slots)@, i, slot.save.save_id@);
        assert(has_id(new, i, slot.save.save_id@));
    }
    if found is None {
        assert forall|i: int| 0 <= i < new.len() implies (#[trigger] new[i]).save.save_id@ != id@ by {
            assert(!has_id(new, i, id@));
        }
    }
}

/// The shared worlds of a game are listed by ids that a lookup finds: each is a save of that game
/// that is shared and not only tracked; and every such save is listed.
pub proof fn listed_worlds_are_found(
    slots: Slots,
    game: &str,
    ids: Vec<String>,
    id: &str,
    found: Option<usize>,
)
    requires
        slots.wf(),
        call_ensures(shared_of, (&slots, game), ids),
        call_ensures(Slots::find, (&slots, id), found),
    ensures
        views(ids@).contains(id@) <==> found is Some && {
            let s = slots@[found->0 as int];
            &&& s.save.save_id@ == id@
            &&& s.save.game_slug@ == game@
            &&& s.save.shared is Some
            &&& !s.save.track_only
        },
{
    the_listed_are_the_shared_worlds(slots@, game@, id@);
    ids_are_unique(slots@, id@);
    if views(ids@).contains(id@) {
        let i = choose|i: int|
            {
                &&& 0 <= i < slots@.len()
                &&& (#[trigger] slots@[i]).save.save_id@ == id@
                &&& slots@[i].save.shared is Some
                &&& !slots@[i].save.track_only
                &&& slots@[i].save.game_slug@ == game@
            };
        assert(has_id(slots@, i, id@));
    }
}

/// A launch of a game that is not being played asks about its free worlds, once, in one prompt: the
/// id of each world that is offered finds the slot it was made from, and no free world is left out.
/// Where there is none nothing is asked. A launch of a game that is being played, or of a save that
/// is not here, does nothing; none asks the lease task for anything.
pub proof fn a_launch_asks_about_the_free_worlds(
    slots: &mut Slots,
    save_id: &str,
    now: u64,
    wall: i128,
    out: &mut Outbox,
    i: int,
    j: int,
    k: int,
    offered: &str,
    found: Option<usize>,
)
    requires
        old(slots).wf(),
        call_ensures(on_game_started, (slots, save_id, now, wall, out), ()),
        call_ensures(Slots::find, (&*old(slots), offered), found),
        0 <= i < old(slots)@.len(),
        old(slots)@[i].save.save_id@ == save_id@,
    ensures
        ({
            let list = old(slots)@;
            let game = list[i].save.game_slug@;
            let played = exists|x: int|
                {
                    &&& 0 <= x < list.len()
                    &&& (#[trigger] list[x]).save.game_slug@ == game
                    &&& list[x].save.shared is Some
                    &&& !list[x].save.track_only
                    &&& list[x].state.session is Some
                    &&& !list[x].state.session->0.stopped
                };
            let free = 0 <= j < list.len() && list[j].save.game_slug@ == game
                && list[j].save.shared is Some && !list[j].save.track_only
                && !list[j].state.role_pinned && list[j].state.lease != LeaseObs::Mine
                && list[j].state.session is None;
            let n = old(out).events@.len() as int;
            let told = final(out).events@;
            &&& final(out).cmds@ == old(out).cmds@
            &&& played ==> final(slots)@ == list && told == old(out).events@
            &&& told.len() <= n + 1
            &&& !played && free ==> told.len() == n + 1
            &&& told.len() == n + 1 ==> {
                &&& told[n] is WorldClaimWanted
                &&& told[n]->WorldClaimWanted_game_slug@ == game
                &&& free ==> ids_offered(told[n]->worlds@).contains(list[j].save.save_id@)
                &&& 0 <= k < told[n]->worlds@.len() && told[n]->worlds@[k].save_id@ == offered@
                    ==> {
                    let c = told[n]->worlds@[k];
                    let s = list[found->0 as int];
                    &&& found is Some
                    &&& s.save.game_slug@ == game
                    &&& s.save.shared is Some
                    &&& s.save.label == c.label
                    &&& s.save.shared->0.group_name == c.group_name
                    &&& s.lease_holder == c.holder
                    &&& !s.state.role_pinned
                    &&& s.state.lease != LeaseObs::Mine
                }
            }
            &&& told.len() == n ==> told == old(out).events@
        }),
{
    let list = old(slots)@;
    let game = list[i].save.game_slug@;
    assert(has_id(list, i, save_id@));
    let asked = asked_about(list, game);
    let n = old(out).events@.len() as int;
    let told = final(out).events@;
    if any_live(list, game) {
        let x = choose|x: int|
            0 <= x < list.len() && is_world_of(#[trigger] list[x], game) && has_live_session(
                list[x].state,
            );
        assert(list[x].save.game_slug@ == game);
    } else {
        assert forall|x: int| 0 <= x < list.len() && (#[trigger] list[x]).save.game_slug@ == game
            && list[x].save.shared is Some && !list[x].save.track_only
            && list[x].state.session is Some implies list[x].state.session->0.stopped by {
            assert(is_world_of(list[x], game));
        }
        if 0 <= j < list.len() && list[j].save.game_slug@ == game && list[j].save.shared is Some
            && !list[j].save.track_only && !list[j].state.role_pinned && list[j].state.lease
            != LeaseObs::Mine && list[j].state.session is None {
            let m = a_free_world_is_asked_about(list, game, j);
        }
        if asked.len() > 0 {
            assert(told.len() == n + 1);
            assert(told[n] == told.last());
            a_prompt_names_its_slots(list, game, told[n], k, j);
            if 0 <= k < told[n]->worlds@.len() && told[n]->worlds@[k].save_id@ == offered@ {
                let x = choose|x: int| #[trigger] has_id(list, x, offered@);
                assert(has_id(list, x, offered@));
                assert(found is Some);
                a_prompt_names_its_slots(list, game, told[n], k, found->0 as int);
            }
        }
    }
}

/// The prompts that wait are of open questions: each is of one game and has its worlds, by ids that
/// a lookup finds; every open question is in the prompt of its game.
pub proof fn waiting_prompts_are_open_questions(
    slots: Slots,
    now: u64,
    wall: i128,
    r: Vec<WorldPrompt>,
    k: int,
    c: int,
    offered: &str,
    found: Option<usize>,
    i: int,
)
    requires
        slots.wf(),
        clocks_fit(slots@, now, wall),
        call_ensures(pending_prompts, (&slots, now, wall), r),
        call_ensures(Slots::find, (&slots, offered), found),
    ensures
        (0 <= k < r@.len() && 0 <= c < r@[k].worlds@.len() && r@[k].worlds@[c].save_id@
            == offered@) ==> {
            let s = slots@[found->0 as int];
            &&& found is Some
            &&& s.save.game_slug@ == r@[k].game_slug@
            &&& s.save.label == r@[k].worlds@[c].label
            &&& s.lease_holder == r@[k].worlds@[c].holder
            &&& s.state.session is Some
            &&& s.state.session->0.prompted
            &&& !s.state.session->0.claimed
            &&& !s.state.session->0.dismissed
            &&& !s.state.session->0.stopped
        },
        (0 <= i < slots@.len() && slots@[i].state.session is Some
            && slots@[i].state.session->0.prompted && !slots@[i].state.session->0.claimed
            && !slots@[i].state.session->0.dismissed && !slots@[i].state.session->0.stopped)
            ==> exists|p: int|
            0 <= p < r@.len() && (#[trigger] r@[p]).game_slug@ == slots@[i].save.game_slug@,
{
    if 0 <= k < r@.len() && 0 <= c < r@[k].worlds@.len() && r@[k].worlds@[c].save_id@ == offered@ {
        assert(is_prompt(r@[k], slots@, now, wall));
        a_waiting_prompt_shows_open_questions(slots@, r@[k], now, wall, c, 0);
        let x = choose|x: int| #[trigger] has_id(slots@, x, offered@);
        assert(has_id(slots@, x, offered@));
        a_waiting_prompt_shows_open_questions(slots@, r@[k], now, wall, c, found->0 as int);
    }
    if 0 <= i < slots@.len() && slots@[i].state.session is Some
        && slots@[i].state.session->0.prompted && !slots@[i].state.session->0.claimed
        && !slots@[i].state.session->0.dismissed && !slots@[i].state.session->0.stopped {
        assert(is_pending(slots@[i].state));
        assert(prompts_for(r@, slots@[i].save.game_slug@));
    }
}

/// A stop of a game ends the sessions of its worlds that no process of their own keeps, and that of
/// the save that stopped, for good; a choice of one world says "not playing" for the others that
/// still ask. Slots of other games, and all saves and leases, stay as they are.
pub proof fn stops_and_choices_reach_the_siblings(
    a: &mut Slots,
    b: &mut Slots,
    save_id: &str,
    i: int,
    k: int,
)
    requires
        old(a).wf(),
        *old(b) == *old(a),
        call_ensures(on_game_stopped_all, (a, save_id), ()),
        call_ensures(dismiss_siblings, (b, save_id), ()),
        0 <= i < old(a)@.len(),
        old(a)@[i].save.save_id@ == save_id@,
        0 <= k < old(a)@.len(),
    ensures
        ({
            let (s, t, u) = (old(a)@[k], final(a)@[k], final(b)@[k]);
            let game = old(a)@[i].save.game_slug@;
            let world = s.save.game_slug@ == game && s.save.shared is Some && !s.save.track_only;
            let stops = world && (s.save.save_id@ == save_id@ || !s.state.is_running);
            let (w, x) = (s.state.session, t.state.session);
            let open = w is Some && !w->0.stopped && w->0.prompted && !w->0.claimed
                && !w->0.dismissed;
            let passed = open && s.save.game_slug@ == game && s.save.save_id@ != save_id@;
            &&& final(a)@.len() == old(a)@.len() && final(b)@.len() == old(a)@.len()
            &&& t.save == s.save && u.save == s.save
            &&& t.lease_holder == s.lease_holder && u.lease_holder == s.lease_holder
            &&& !stops ==> t == s
            &&& stops ==> !t.state.relaunch_pending && (x is Some <==> w is Some)
            &&& stops && w is Some ==> x->0 == (WorldSession {
                stopped: true,
                auto_host_deadline: None,
                ..w->0
            })
            &&& t.state.lease == s.state.lease && t.state.role == s.state.role
            &&& !passed ==> u == s
            &&& passed ==> u.state.session == Some(
                WorldSession { dismissed: true, auto_host_deadline: None, ..w->0 },
            ) && u.state.lease == s.state.lease && u.state.role == s.state.role
        }),
{
    assert(has_id(old(a)@, i, save_id@));
}

/// The state that a landed copy leaves, where no relaunch waits for it.
proof fn what_a_copy_leaves(
    save: crate::agent::slot::WatchedSave,
    s: SlotState,
    moved: int,
    world_on_disk: bool,
    now: u64,
    wall: i128,
)
    ensures
        ({
            let t = copied(save, s, moved, world_on_disk, now, wall);
            let u = copy_failed(s);
            &&& t.session is None && u.session is None
            &&& t.relaunch_pending == s.relaunch_pending && u.relaunch_pending
                == s.relaunch_pending
            &&& t.lease == s.lease && u.lease == s.lease
            &&& moved > 0 ==> {
                &&& !t.has_pending && !t.local_only_pending && t.pull_pending
                &&& t.known_version is None && t.version_base is None
                &&& t.last_restore_at == Some(wall) && t.side_copy_landed_at == Some(now)
                &&& t.world_held.consecutive == 0 && !t.world_held.needs_attention
                &&& t.role == WorldRole::Host
                &&& t.recheck_pending_after_pull <==> save.shared is Some
                    && save.shared->0.caller_owns && save.includes@.len() == 0
                    && save.shared->0.includes@.len() > 0
            }
            &&& moved <= 0 ==> {
                &&& t.known_version == s.known_version
                &&& s.has_pending && world_on_disk ==> t.role == WorldRole::View
                    && t.local_only_pending && t.has_pending && t.pull_pending == s.pull_pending
                &&& s.has_pending && !world_on_disk ==> !t.has_pending && t.pull_pending
                    && !t.local_only_pending
                &&& !s.has_pending ==> t.pull_pending == s.pull_pending && !t.has_pending
            }
            &&& s.has_pending ==> u.role == WorldRole::View && u.local_only_pending
                && u.has_pending
            &&& u.known_version == s.known_version && u.pull_pending == s.pull_pending
                && u.has_pending == s.has_pending
        }),
{
}

/// The landing of a side copy ends the session that waited for it and no other: with files in it the
/// folder holds no version and nothing pending, and the head is to come down; with none and
/// something of the world still there the slot stays a viewer of what is pending; with none and
/// nothing there the head is to come down too. A push that was held is told as cleared where files
/// moved. Slots without a copy on its way, and all the others, stay as they are.
pub proof fn a_side_copy_lands(
    a: &mut Slots,
    save_id: &str,
    moved: u64,
    world_on_disk: bool,
    now: u64,
    wall: i128,
    out: &mut Outbox,
    i: int,
    k: int,
)
    requires
        old(a).wf(),
        call_ensures(on_side_copied, (a, save_id, moved, world_on_disk, now, wall, out), ()),
        0 <= i < old(a)@.len(),
        old(a)@[i].save.save_id@ == save_id@,
        0 <= k < old(a)@.len(),
    ensures
        ({
            let (s, t) = (old(a)@[i].state, final(a)@[i].state);
            let waits = s.session is Some && s.session->0.stopped
                && s.session->0.side_copy_started;
            &&& final(a)@[i].save == old(a)@[i].save
            &&& k != i ==> final(a)@[k] == old(a)@[k]
            &&& final(out).cmds@ == old(out).cmds@
            &&& !waits ==> final(a)@ == old(a)@ && *final(out) == *old(out)
            &&& waits && !s.relaunch_pending ==> {
                &&& t.session is None
                &&& moved > 0 ==> {
                    &&& !t.has_pending && !t.local_only_pending && t.pull_pending
                    &&& t.known_version is None && t.version_base is None
                    &&& t.last_restore_at == Some(wall) && t.side_copy_landed_at == Some(now)
                    &&& t.world_held.consecutive == 0 && !t.world_held.needs_attention
                    &&& t.role == WorldRole::Host
                    &&& s.world_held.consecutive > 0 ==> final(out).events@
                        == old(out).events@.push(
                        AgentEvent::BackupAttentionCleared {
                            save_id: old(a)@[i].save.save_id,
                            game_slug: old(a)@[i].save.game_slug,
                        },
                    )
                    &&& s.world_held.consecutive == 0 ==> final(out).events@ == old(out).events@
                }
                &&& moved == 0 ==> {
                    &&& t.known_version == s.known_version && final(out).events@
                        == old(out).events@
                    &&& s.has_pending && world_on_disk ==> t.role == WorldRole::View
                        && t.local_only_pending && t.has_pending && t.pull_pending
                        == s.pull_pending
                    &&& s.has_pending && !world_on_disk ==> !t.has_pending && t.pull_pending
                        && !t.local_only_pending
                    &&& !s.has_pending ==> t.pull_pending == s.pull_pending && !t.has_pending
                }
            }
        }),
{
    let list = old(a)@;
    let (save, s) = (list[i].save, list[i].state);
    assert(has_id(list, i, save_id@));
    what_a_copy_leaves(save, s, moved as int, world_on_disk, now, wall);
    let events = copied_events(save, s, moved as int);
    if moved == 0 || s.world_held.consecutive == 0 {
        assert(old(out).events@ + events =~= old(out).events@);
    } else {
        assert(old(out).events@ + events =~= old(out).events@.push(
            AgentEvent::BackupAttentionCleared {
                save_id: save.save_id,
                game_slug: save.game_slug,
            },
        ));
    }
}

/// A copy that could not be made ends the session that waited for it and leaves what is pending, to
/// a viewer: nothing of it is taken for versioned, and no pull is owed on its account. Slots without
/// a copy on its way, and all the others, stay as they are.
pub proof fn a_side_copy_fails(
    a: &mut Slots,
    save_id: &str,
    now: u64,
    wall: i128,
    out: &mut Outbox,
    i: int,
    k: int,
)
    requires
        old(a).wf(),
        call_ensures(on_side_copy_failed, (a, save_id, now, wall, out), ()),
        0 <= i < old(a)@.len(),
        old(a)@[i].save.save_id@ == save_id@,
        0 <= k < old(a)@.len(),
    ensures
        ({
            let (s, u) = (old(a)@[i].state, final(a)@[i].state);
            let waits = s.session is Some && s.session->0.stopped
                && s.session->0.side_copy_started;
            &&& final(a)@[i].save == old(a)@[i].save
            &&& k != i ==> final(a)@[k] == old(a)@[k]
            &&& final(out).cmds@ == old(out).cmds@
            &&& !waits ==> final(a)@ == old(a)@ && *final(out) == *old(out)
            &&& waits && !s.relaunch_pending ==> {
                &&& u.session is None
                &&& s.has_pending ==> u.role == WorldRole::View && u.local_only_pending
                &&& u.has_pending == s.has_pending
                &&& u.known_version == s.known_version && u.pull_pending == s.pull_pending
                &&& final(out).events@ == old(out).events@
            }
        }),
{
    let list = old(a)@;
    assert(has_id(list, i, save_id@));
    what_a_copy_leaves(list[i].save, list[i].state, 0, true, now, wall);
    assert(old(out).events@ + Seq::<AgentEvent>::empty() =~= old(out).events@);
}

} // verus!
