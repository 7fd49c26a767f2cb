//! `hoard world`: who hosts a shared world.
//!
//! The verbs are requests to the service. `claim` and `force` then wait a few seconds for the
//! lease to settle: each look at the lease is read as one [`Seen`], and [`Wait`] turns the looks
//! into a [`Verdict`].

use vstd::prelude::*;

use crate::agent::idmap::IdMap;
use crate::agent::slot::{WorldLease, WorldRole};
use crate::cli::output::{err, Cause, Failure};
use crate::clock::spell;
#[allow(unused_imports)]
use crate::clock::spelled;
use crate::text::{same, signed_decimal};
#[allow(unused_imports)]
use crate::text::signed_digits;
use crate::wire::Lease;

verus! {

#[derive(Debug)]
pub enum WorldCommand {
    /// Take a role on a shared world: host it, which is the default, or only view it.
    Claim { save_id: String, view: bool },
    /// Give the hosting lease back.
    Release { save_id: String },
    /// Take the lease off its holder and host. Only an idle lease can be taken.
    Force { save_id: String },
    /// Not playing this world.
    Dismiss { save_id: String },
    /// Who hosts a shared world right now.
    Lease { save_id: String },
}

/// The lease as agents and scripts see it.
#[derive(Debug)]
pub struct LeaseOut {
    pub save_id: String,
    /// None when nobody holds the lease.
    pub lease: Option<LeaseDetail>,
}

/// A held lease.
#[derive(Debug)]
pub struct LeaseDetail {
    pub holder: String,
    /// The lease is held here.
    pub here: bool,
    pub acquired_at: String,
    /// The last heartbeat.
    pub renewed_at: String,
    pub base_version: i64,
    /// Heartbeats are arriving; a quiet lease is free to take.
    pub live: bool,
    /// The holder has pushed under it, so it can no longer be forced.
    pub pushed_since: bool,
}

/// What a world verb came to.
#[derive(Debug)]
pub struct WorldOut {
    pub save_id: String,
    pub outcome: Outcome,
}

#[derive(Debug, Clone, Copy, PartialEq, Eq, Structural)]
pub enum Outcome {
    /// This machine holds the lease.
    Hosting,
    /// The service took the request and no verdict arrived within the wait.
    Pending,
    /// Asked, with nothing to wait on.
    Viewing,
    Releasing,
    Dismissed,
}

impl Outcome {
    /// The one word that scripts read.
    pub fn word(self) -> (r: &'static str)
        ensures
            r@ == (match self {
                Outcome::Hosting => "hosting"@,
                Outcome::Pending => "pending"@,
                Outcome::Viewing => "viewing"@,
                Outcome::Releasing => "releasing"@,
                Outcome::Dismissed => "dismissed"@,
            }),
    {
        match self {
            Outcome::Hosting => "hosting",
            Outcome::Pending => "pending",
            Outcome::Viewing => "viewing",
            Outcome::Releasing => "releasing",
            Outcome::Dismissed => "dismissed",
        }
    }
}

/// How long `claim` and `force` wait for the verdict, in milliseconds.
pub const VERDICT_WAIT_MS: u64 = 10_000;

/// How often they look, in milliseconds.
pub const POLL_EVERY_MS: u64 = 500;

/// The text of a verb's one line.
pub open spec fn line_of(id: Seq<char>, outcome: Outcome, force: bool) -> Seq<char> {
    match outcome {
        Outcome::Hosting => "hosting "@ + id,
        Outcome::Pending => if force {
            "taking the lease on "@ + id + "; the outcome shows in `hoard sync logs`"@
        } else {
            "asked to host "@ + id
                + "; the outcome shows in `hoard sync logs` and `hoard world lease "@ + id + "`"@
        },
        Outcome::Viewing => "asked to view "@ + id
            + "; the outcome shows in `hoard sync logs` and `hoard world lease "@ + id + "`"@,
        Outcome::Releasing => "releasing the lease on "@ + id,
        Outcome::Dismissed => "dismissed "@ + id + ": no role this session"@,
    }
}

/// The one line that a world verb prints.
pub fn human_line(save_id: &str, outcome: Outcome, force: bool) -> (r: String)
    ensures
        r@ == line_of(save_id@, outcome, force),
{
    let mut r = String::new();
    match outcome {
        Outcome::Hosting => {
            r.append("hosting ");
            r.append(save_id);
        },
        Outcome::Pending => {
            if force {
                r.append("taking the lease on ");
                r.append(save_id);
                r.append("; the outcome shows in `hoard sync logs`");
            } else {
                r.append("asked to host ");
                r.append(save_id);
                r.append("; the outcome shows in `hoard sync logs` and `hoard world lease ");
                r.append(save_id);
                r.append("`");
            }
        },
        Outcome::Viewing => {
            r.append("asked to view ");
            r.append(save_id);
            r.append("; the outcome shows in `hoard sync logs` and `hoard world lease ");
            r.append(save_id);
            r.append("`");
        },
        Outcome::Releasing => {
            r.append("releasing the lease on ");
            r.append(save_id);
        },
        Outcome::Dismissed => {
            r.append("dismissed ");
            r.append(save_id);
            r.append(": no role this session");
        },
    }
    assert(r@ =~= line_of(save_id@, outcome, force));
    r
}

// ---- looks and verdicts

/// The lease as one look at it saw it.
#[derive(Debug, Clone, PartialEq, Eq)]
pub enum Seen {
    /// The service could not say.
    Unknown,
    /// Nobody holds it, or the holder's lease has gone quiet.
    Free,
    Mine,
    Other { holder: String, pushed: bool },
}

/// Where a wait for the verdict ended.
#[derive(Debug, Clone, PartialEq, Eq)]
pub enum Verdict {
    Hosting,
    Held { holder: String, pushed: bool },
    /// Nothing settled before the deadline.
    Undecided,
    /// Nothing settled, and the world is behind the head: a pull runs first.
    Behind,
}

/// A look's content.
pub ghost enum Look {
    Unknown,
    Free,
    Mine,
    Other { holder: Seq<char>, pushed: bool },
}

/// A verdict's content.
pub ghost enum End {
    Hosting,
    Held { holder: Seq<char>, pushed: bool },
    Undecided,
    Behind,
}

impl Seen {
    /// What the look saw.
    pub open spec fn view(&self) -> Look {
        match *self {
            Seen::Unknown => Look::Unknown,
            Seen::Free => Look::Free,
            Seen::Mine => Look::Mine,
            Seen::Other { holder, pushed } => Look::Other { holder: holder@, pushed },
        }
    }
}

impl Verdict {
    /// Where the wait ended.
    pub open spec fn view(&self) -> End {
        match *self {
            Verdict::Hosting => End::Hosting,
            Verdict::Held { holder, pushed } => End::Held { holder: holder@, pushed },
            Verdict::Undecided => End::Undecided,
            Verdict::Behind => End::Behind,
        }
    }
}

/// Reads the looks of one wait in order. `Mine` settles it at once. `Other` settles it only when
/// two looks in a row agree: right after a takeover the server still names the old holder until
/// the engine's call lands, and one look cannot tell that from a refusal.
#[derive(Debug)]
pub struct Wait {
    /// For a force: the holder it was sent against. They settle nothing before the deadline.
    forced: Option<String>,
    other: Option<(String, bool)>,
    /// The last look named `forced`.
    still_forced: Option<(String, bool)>,
}

/// A wait between two looks: who was forced, and what the last look said of a holder.
pub ghost struct Waiting {
    pub forced: Option<Seq<char>>,
    pub other: Option<(Seq<char>, bool)>,
    pub still_forced: Option<(Seq<char>, bool)>,
}

/// Does the look settle the wait?
pub open spec fn settles(w: Waiting, look: Look) -> Option<End> {
    match look {
        Look::Mine => Some(End::Hosting),
        Look::Other { holder, pushed } => if w.forced != Some(holder) && w.other == Some(
            (holder, pushed),
        ) {
            Some(End::Held { holder, pushed })
        } else {
            None
        },
        _ => None,
    }
}

/// The wait after a look that settled nothing.
pub open spec fn looked(w: Waiting, look: Look) -> Waiting {
    match look {
        Look::Other { holder, pushed } => if w.forced == Some(holder) {
            Waiting { forced: w.forced, other: None, still_forced: Some((holder, pushed)) }
        } else {
            Waiting { forced: w.forced, other: Some((holder, pushed)), still_forced: None }
        },
        _ => Waiting { forced: w.forced, other: None, still_forced: None },
    }
}

/// Where the wait ends when the deadline comes first: held, when the last look still named the
/// holder that a force was sent against.
pub open spec fn at_deadline(w: Waiting) -> End {
    match w.still_forced {
        Some((holder, pushed)) => End::Held { holder, pushed },
        None => End::Undecided,
    }
}

/// Where a wait ends with these looks before the deadline.
pub open spec fn ends_at(w: Waiting, looks: Seq<Look>) -> End
    decreases looks.len(),
{
    if looks.len() == 0 {
        at_deadline(w)
    } else {
        match settles(w, looks[0]) {
            Some(end) => end,
            None => ends_at(looked(w, looks[0]), looks.skip(1)),
        }
    }
}

/// The contents of the looks.
pub open spec fn looks_of(looks: Seq<Seen>) -> Seq<Look> {
    Seq::new(looks.len(), |i: int| looks[i]@)
}

impl Wait {
    /// Where the wait is.
    pub closed spec fn view(&self) -> Waiting {
        Waiting {
            forced: match self.forced {
                Some(s) => Some(s@),
                None => None,
            },
            other: match self.other {
                Some((s, p)) => Some((s@, p)),
                None => None,
            },
            still_forced: match self.still_forced {
                Some((s, p)) => Some((s@, p)),
                None => None,
            },
        }
    }

    /// A claim's wait.
    pub fn claiming() -> (r: Self)
        ensures
            r@ == (Waiting { forced: None, other: None, still_forced: None }),
    {
        Wait { forced: None, other: None, still_forced: None }
    }

    /// A force's wait, against the holder it was sent against where that is known.
    pub fn forcing(holder: Option<String>) -> (r: Self)
        ensures
            r@ == (Waiting {
                forced: match holder {
                    Some(s) => Some(s@),
                    None => None,
                },
                other: None,
                still_forced: None,
            }),
    {
        Wait { forced: holder, other: None, still_forced: None }
    }

    /// Read one look.
    pub fn see(&mut self, seen: Seen) -> (r: Option<Verdict>)
        ensures
            match r {
                Some(v) => settles(old(self)@, seen@) == Some(v@) && final(self)@ == (Waiting {
                    still_forced: None,
                    ..old(self)@
                }),
                None => settles(old(self)@, seen@) is None && final(self)@ == looked(
                    old(self)@,
                    seen@,
                ),
            },
    {
        self.still_forced = None;
        match seen {
            Seen::Mine => Some(Verdict::Hosting),
            Seen::Other { holder, pushed } => {
                let against = match &self.forced {
                    Some(f) => same(f.as_str(), holder.as_str()),
                    None => false,
                };
                if against {
                    self.other = None;
                    self.still_forced = Some((holder, pushed));
                    return None;
                }
                let again = match &self.other {
                    Some(o) => o.1 == pushed && same(o.0.as_str(), holder.as_str()),
                    None => false,
                };
                if again {
                    return Some(Verdict::Held { holder, pushed });
                }
                self.other = Some((holder, pushed));
                None
            },
            Seen::Unknown => {
                self.other = None;
                None
            },
            Seen::Free => {
                self.other = None;
                None
            },
        }
    }

    /// Where the wait ends when the deadline comes first.
    pub fn deadline(self) -> (r: Verdict)
        ensures
            r@ == at_deadline(self@),
    {
        match self.still_forced {
            Some(f) => Verdict::Held { holder: f.0, pushed: f.1 },
            None => Verdict::Undecided,
        }
    }
}

/// The verdict that a sequence of looks reaches; the wait's own deadline when it runs out first.
pub fn verdict_of(wait: Wait, looks: Vec<Seen>) -> (r: Verdict)
    ensures
        r@ == ends_at(wait@, looks_of(looks@)),
{
    let ghost start = wait@;
    let mut w = wait;
    let ghost all = looks_of(looks@);
    let mut i: usize = 0;
    assert(all.skip(0) =~= all);
    while i < looks.len()
        invariant
            i <= looks@.len(),
            start == wait@,
            all == looks_of(looks@),
            ends_at(start, all) == ends_at(w@, all.skip(i as int)),
        decreases looks.len() - i,
    {
        assert(all.skip(i as int)[0] == looks@[i as int]@);
        assert(all.skip(i as int).skip(1) =~= all.skip(i + 1));
        let look = copy_of(&looks[i]);
        if let Some(v) = w.see(look) {
            return v;
        }
        i += 1;
    }
    w.deadline()
}

fn copy_of(seen: &Seen) -> (r: Seen)
    ensures
        r@ == seen@,
{
    match seen {
        Seen::Unknown => Seen::Unknown,
        Seen::Free => Seen::Free,
        Seen::Mine => Seen::Mine,
        Seen::Other { holder, pushed } => Seen::Other { holder: holder.clone(), pushed: *pushed },
    }
}

/// Where a wait ends at the deadline: behind the head when the engine says so, whatever the looks
/// were; otherwise the wait's own deadline.
pub fn timed_out(wait: Wait, behind: bool) -> (r: Verdict)
    ensures
        r@ == (if behind {
            End::Behind
        } else {
            at_deadline(wait@)
        }),
{
    if behind {
        Verdict::Behind
    } else {
        wait.deadline()
    }
}

/// Was the lease taken from this machine?
pub open spec fn from_here(lease: Lease, my_fp: Seq<char>) -> bool {
    lease.holder_device_fp is Some && lease.holder_device_fp->0@ == my_fp
}

/// What a look at the lease sees.
pub open spec fn look_at(
    lease: Option<Lease>,
    engine: Option<WorldLease>,
    my_fp: Seq<char>,
    me: Option<Seq<char>>,
) -> Look {
    match lease {
        None => Look::Free,
        Some(l) => {
            let other = Look::Other { holder: l.holder_username@, pushed: l.pushed_since };
            if !l.live {
                Look::Free
            } else if engine == Some(WorldLease::Mine) {
                Look::Mine
            } else if engine == Some(WorldLease::Other) || !from_here(l, my_fp) {
                other
            } else {
                match me {
                    Some(id) => if id == l.holder_user_id@ {
                        Look::Mine
                    } else {
                        other
                    },
                    None => Look::Unknown,
                }
            }
        },
    }
}

pub(crate) fn same_device(lease: &Lease, my_fp: &str) -> (r: bool)
    ensures
        r == from_here(*lease, my_fp@),
{
    match &lease.holder_device_fp {
        Some(fp) => same(fp.as_str(), my_fp),
        None => false,
    }
}

/// The text behind a reference, where there is one.
pub open spec fn text_in(s: Option<&str>) -> Option<Seq<char>> {
    match s {
        Some(t) => Some(t@),
        None => None,
    }
}

/// One lease read as a look: a quiet lease is as good as free. Whose it is is the engine's word
/// when it has one. Otherwise ours is a lease held from this machine by this account: every
/// account here shares the fingerprint. With the account unknown, a lease from this machine says
/// nothing either way.
pub fn seen(
    lease: Option<&Lease>,
    engine: Option<WorldLease>,
    my_fp: &str,
    me: Option<&str>,
) -> (r: Seen)
    ensures
        r@ == look_at(
            match lease {
                Some(l) => Some(*l),
                None => None,
            },
            engine,
            my_fp@,
            text_in(me),
        ),
{
    let l: &Lease = match lease {
        None => {
            return Seen::Free;
        },
        Some(l) => l,
    };
    if !l.live {
        return Seen::Free;
    }
    let here = match engine {
        Some(WorldLease::Mine) => {
            return Seen::Mine;
        },
        Some(WorldLease::Other) => false,
        _ => same_device(l, my_fp),
    };
    if here {
        match me {
            Some(id) => {
                if same(l.holder_user_id.as_str(), id) {
                    return Seen::Mine;
                }
            },
            None => {
                return Seen::Unknown;
            },
        }
    }
    Seen::Other { holder: l.holder_username.clone(), pushed: l.pushed_since }
}

/// The looks that a verb takes until the lease settles or the deadline comes, and whether the world
/// was behind the head when the service last said.
#[derive(Debug)]
pub struct Watch {
    pub wait: Wait,
    pub behind: bool,
}

/// What one look sees. A lease that could not be read says nothing; a status that could not leaves
/// the engine's word out.
pub open spec fn look_in(
    save_id: Seq<char>,
    status: Option<DaemonStatus>,
    lease: Option<Option<Lease>>,
    my_fp: Seq<char>,
    me: Option<Seq<char>>,
) -> Look {
    match lease {
        Some(l) => look_at(
            l,
            match status {
                Some(s) => lease_in(hosts_in(s.slots@), save_id),
                None => None,
            },
            my_fp,
            me,
        ),
        None => Look::Unknown,
    }
}

impl Watch {
    /// Before the first look.
    pub fn new(wait: Wait) -> (r: Self)
        ensures
            r.wait@ == wait@,
            !r.behind,
    {
        Watch { wait, behind: false }
    }

    /// Take one look: at the service's status and at the lease, each where it could be read.
    pub fn look(
        &mut self,
        save_id: &str,
        status: &Option<DaemonStatus>,
        lease: &Option<Option<Lease>>,
        my_fp: &str,
        me: Option<&str>,
    ) -> (r: Option<Verdict>)
        ensures
            final(self).behind == (match *status {
                Some(s) => says_behind(s.slots@, save_id@),
                None => old(self).behind,
            }),
            ({
                let look = look_in(save_id@, *status, *lease, my_fp@, text_in(me));
                match r {
                    Some(v) => settles(old(self).wait@, look) == Some(v@),
                    None => settles(old(self).wait@, look) is None && final(self).wait@ == looked(
                        old(self).wait@,
                        look,
                    ),
                }
            }),
    {
        let engine = match status {
            Some(s) => {
                self.behind = behind(s, save_id);
                Hosts::from_status(s).lease(save_id)
            },
            None => None,
        };
        let look = match lease {
            Some(Some(l)) => seen(Some(l), engine, my_fp, me),
            Some(None) => seen(None, engine, my_fp, me),
            None => Seen::Unknown,
        };
        self.wait.see(look)
    }

    /// Where it ends when the deadline comes first.
    pub fn timed_out(self) -> (r: Verdict)
        ensures
            r@ == (if self.behind {
                End::Behind
            } else {
                at_deadline(self.wait@)
            }),
    {
        timed_out(self.wait, self.behind)
    }
}

/// The text of a refusal because the world is behind the head.
pub open spec fn stale_text(id: Seq<char>) -> Seq<char> {
    id + " is behind the latest version; Hoard is pulling it, then claim again"@
}

/// The text of a refusal because the holder has pushed.
pub open spec fn pushed_text(holder: Seq<char>, id: Seq<char>) -> Seq<char> {
    holder + " has pushed to "@ + id
        + " under their lease, so it cannot be taken; ask them to release it"@
}

/// The text of a refusal because somebody hosts.
pub open spec fn held_text(holder: Seq<char>, id: Seq<char>) -> Seq<char> {
    holder + " is hosting "@ + id + "; view it with `hoard world claim "@ + id
        + " --view`, or ask them to release it"@
}

/// Is this a coded failure with this code and text?
pub open spec fn is_coded(f: Failure, code: Seq<char>, text: Seq<char>) -> bool {
    &&& f.cause is Coded
    &&& f.cause->Coded_0.code@ == code
    &&& f.cause->Coded_0.message@ == text
    &&& f.contexts@.len() == 0
}

/// A verdict as the command's answer. Held is a refusal, and for a takeover a lease that the holder
/// has pushed under is its own one.
pub fn outcome_of(save_id: &str, verdict: Verdict, force: bool) -> (r: Result<Outcome, Failure>)
    ensures
        match verdict {
            Verdict::Hosting => r == Ok::<Outcome, Failure>(Outcome::Hosting),
            Verdict::Undecided => r == Ok::<Outcome, Failure>(Outcome::Pending),
            Verdict::Behind => r is Err && is_coded(r->Err_0, "stale"@, stale_text(save_id@)),
            Verdict::Held { holder, pushed } => r is Err && (if pushed && force {
                is_coded(r->Err_0, "pushed"@, pushed_text(holder@, save_id@))
            } else {
                is_coded(r->Err_0, "held"@, held_text(holder@, save_id@))
            }),
        },
{
    match verdict {
        Verdict::Hosting => Ok(Outcome::Hosting),
        Verdict::Undecided => Ok(Outcome::Pending),
        Verdict::Behind => {
            let mut text = save_id.to_owned();
            text.append(" is behind the latest version; Hoard is pulling it, then claim again");
            assert(text@ =~= stale_text(save_id@));
            Err(err("stale", text))
        },
        Verdict::Held { holder, pushed } => {
            let mut text = holder.as_str().to_owned();
            if pushed && force {
                text.append(" has pushed to ");
                text.append(save_id);
                text.append(" under their lease, so it cannot be taken; ask them to release it");
                assert(text@ =~= pushed_text(holder@, save_id@));
                Err(err("pushed", text))
            } else {
                text.append(" is hosting ");
                text.append(save_id);
                text.append("; view it with `hoard world claim ");
                text.append(save_id);
                text.append(" --view`, or ask them to release it");
                assert(text@ =~= held_text(holder@, save_id@));
                Err(err("held", text))
            }
        },
    }
}

// ---- who hosts, for the tables

/// What the service's status says of one slot's lease.
#[derive(Debug)]
pub struct AgentSlotStatus {
    pub save_id: String,
    pub lease: Option<WorldLease>,
    pub lease_holder: Option<String>,
    /// The world is behind the head.
    pub lease_behind: bool,
}

/// What the service's status says of its slots.
#[derive(Debug)]
pub struct DaemonStatus {
    pub slots: Vec<AgentSlotStatus>,
}

/// Is the world behind the head, by the service's word?
pub open spec fn says_behind(slots: Seq<AgentSlotStatus>, id: Seq<char>) -> bool {
    exists|i: int|
        0 <= i < slots.len() && (#[trigger] slots[i]).save_id@ == id && slots[i].lease_behind
}

/// Whether the world is behind the head, by the service's word.
pub fn behind(status: &DaemonStatus, save_id: &str) -> (r: bool)
    ensures
        r == says_behind(status.slots@, save_id@),
{
    let mut i: usize = 0;
    while i < status.slots.len()
        invariant
            i <= status.slots@.len(),
            forall|k: int|
                0 <= k < i ==> !((#[trigger] status.slots@[k]).save_id@ == save_id@
                    && status.slots@[k].lease_behind),
        decreases status.slots.len() - i,
    {
        if status.slots[i].lease_behind && same(status.slots[i].save_id.as_str(), save_id) {
            return true;
        }
        i += 1;
    }
    false
}

/// Who hosts each shared save, as the engine last heard it: every slot's lease from one status
/// read, so a table costs one local call.
#[derive(Debug)]
pub struct Hosts {
    slots: IdMap<(Option<WorldLease>, Option<String>)>,
}

/// A table's host cell and the lease behind it.
#[derive(Debug, PartialEq)]
pub struct Host {
    /// "hosted here", "hosted by <name>", "hosted elsewhere", "nobody" or "unknown".
    pub cell: String,
    /// "mine", "other", "free" or "unknown", for a script to branch on.
    pub lease: &'static str,
}

/// What the slots say, by id; of two slots with one id the later counts.
pub open spec fn hosts_in(slots: Seq<AgentSlotStatus>) -> Map<
    Seq<char>,
    (Option<WorldLease>, Option<String>),
>
    decreases slots.len(),
{
    if slots.len() == 0 {
        Map::empty()
    } else {
        hosts_in(slots.drop_last()).insert(
            slots.last().save_id@,
            (slots.last().lease, slots.last().lease_holder),
        )
    }
}

/// The lease that the engine has on a save.
pub open spec fn lease_in(
    hosts: Map<Seq<char>, (Option<WorldLease>, Option<String>)>,
    id: Seq<char>,
) -> Option<WorldLease> {
    if hosts.contains_key(id) {
        hosts[id].0
    } else {
        None
    }
}

/// The text of a host cell.
pub open spec fn cell_of(lease: WorldLease, holder: Option<Seq<char>>) -> Seq<char> {
    match lease {
        WorldLease::Mine => "hosted here"@,
        WorldLease::Other => match holder {
            Some(h) => "hosted by "@ + h,
            None => "hosted elsewhere"@,
        },
        WorldLease::Free => "nobody"@,
        WorldLease::Unknown => "unknown"@,
    }
}

/// The word for a lease.
pub open spec fn tag_of(lease: WorldLease) -> Seq<char> {
    match lease {
        WorldLease::Mine => "mine"@,
        WorldLease::Other => "other"@,
        WorldLease::Free => "free"@,
        WorldLease::Unknown => "unknown"@,
    }
}

impl Hosts {
    /// What the engine last heard, by id.
    pub closed spec fn view(&self) -> Map<Seq<char>, (Option<WorldLease>, Option<String>)> {
        self.slots@
    }

    /// Each id stands once.
    pub closed spec fn wf(self) -> bool {
        self.slots.wf()
    }

    pub fn from_status(status: &DaemonStatus) -> (r: Hosts)
        ensures
            r.wf(),
            r@ == hosts_in(status.slots@),
    {
        let mut slots: IdMap<(Option<WorldLease>, Option<String>)> = IdMap::new();
        let mut i: usize = 0;
        assert(status.slots@.take(0) =~= Seq::<AgentSlotStatus>::empty());
        while i < status.slots.len()
            invariant
                i <= status.slots@.len(),
                slots.wf(),
                slots@ == hosts_in(status.slots@.take(i as int)),
            decreases status.slots.len() - i,
        {
            assert(status.slots@.take(i + 1).drop_last() =~= status.slots@.take(i as int));
            let s = &status.slots[i];
            let holder = match &s.lease_holder {
                Some(h) => Some(h.clone()),
                None => None,
            };
            slots.set(s.save_id.as_str(), (s.lease, holder));
            i += 1;
        }
        assert(status.slots@.take(i as int) =~= status.slots@);
        Hosts { slots }
    }

    /// The engine's lease on `save_id`, `None` when it has no shared slot for it.
    pub fn lease(&self, save_id: &str) -> (r: Option<WorldLease>)
        ensures
            r == lease_in(self@, save_id@),
    {
        match self.slots.get(save_id) {
            Some(s) => s.0,
            None => None,
        }
    }

    /// The host of a shared save. One that the engine has no slot for is unknown.
    pub fn of(&self, save_id: &str) -> (r: Host)
        ensures
            ({
                let lease = match lease_in(self@, save_id@) {
                    Some(l) => l,
                    None => WorldLease::Unknown,
                };
                let holder = if self@.contains_key(save_id@) && self@[save_id@].1 is Some {
                    Some(self@[save_id@].1->0@)
                } else {
                    None
                };
                r.cell@ == cell_of(lease, holder) && r.lease@ == tag_of(lease)
            }),
    {
        let lease = match self.lease(save_id) {
            Some(l) => l,
            None => WorldLease::Unknown,
        };
        let holder: Option<&str> = match self.slots.get(save_id) {
            Some(s) => match &s.1 {
                Some(h) => Some(h.as_str()),
                None => None,
            },
            None => None,
        };
        host(lease, holder)
    }
}

/// A host cell, for a lease and the holder's name where it is known.
pub fn host(lease: WorldLease, holder: Option<&str>) -> (r: Host)
    ensures
        r.cell@ == cell_of(lease, text_in(holder)),
        r.lease@ == tag_of(lease),
{
    match lease {
        WorldLease::Mine => Host { cell: "hosted here".to_owned(), lease: "mine" },
        WorldLease::Other => {
            let cell = match holder {
                Some(h) => {
                    let mut c = "hosted by ".to_owned();
                    c.append(h);
                    c
                },
                None => "hosted elsewhere".to_owned(),
            };
            Host { cell, lease: "other" }
        },
        WorldLease::Free => Host { cell: "nobody".to_owned(), lease: "free" },
        WorldLease::Unknown => Host { cell: "unknown".to_owned(), lease: "unknown" },
    }
}

/// The user that a session remembers.
#[derive(Debug)]
pub struct CachedUser {
    pub user_id: String,
}

/// This account's id as the session caches it. `session` is the session's public part where there
/// is one: its server, and the user where it cached one.
pub fn this_account(session: Option<(String, Option<CachedUser>)>) -> (r: Option<String>)
    ensures
        r == (match session {
            Some((_, Some(user))) => Some(user.user_id),
            _ => None,
        }),
{
    match session {
        Some(s) => match s.1 {
            Some(user) => Some(user.user_id),
            None => None,
        },
        None => None,
    }
}

/// Is the lease held here?
pub open spec fn is_here(
    lease: Lease,
    engine: Option<WorldLease>,
    my_fp: Seq<char>,
    me: Option<Seq<char>>,
) -> bool {
    match engine {
        Some(WorldLease::Mine) => true,
        Some(WorldLease::Other) => false,
        _ => from_here(lease, my_fp) && me == Some(lease.holder_user_id@),
    }
}

/// Whether the lease is held here. The engine decides once it knows who holds the lease; while its
/// slot reads unknown or free, or it has no slot, the fingerprint on the lease says, and only for a
/// lease that this account holds. An account that cannot be known here is not the holder.
pub fn held_here(
    lease: &Lease,
    engine: Option<WorldLease>,
    my_fp: &str,
    me: Option<&str>,
) -> (r: bool)
    ensures
        r == is_here(*lease, engine, my_fp@, text_in(me)),
{
    match engine {
        Some(WorldLease::Mine) => true,
        Some(WorldLease::Other) => false,
        _ => same_device(lease, my_fp) && match me {
            Some(id) => same(lease.holder_user_id.as_str(), id),
            None => false,
        },
    }
}

/// Is this what is told of the lease?
pub open spec fn is_detail(
    d: LeaseDetail,
    lease: Lease,
    engine: Option<WorldLease>,
    my_fp: Seq<char>,
    me: Option<Seq<char>>,
) -> bool {
    &&& d.holder == lease.holder_username
    &&& d.here == is_here(lease, engine, my_fp, me)
    &&& d.acquired_at@ == spelled(lease.acquired_at)
    &&& d.renewed_at@ == spelled(lease.renewed_at)
    &&& d.base_version == lease.base_version
    &&& d.live == lease.live
    &&& d.pushed_since == lease.pushed_since
}

/// What is told of a held lease.
pub fn detail(
    lease: &Lease,
    engine: Option<WorldLease>,
    my_fp: &str,
    me: Option<&str>,
) -> (r: LeaseDetail)
    ensures
        is_detail(r, *lease, engine, my_fp@, text_in(me)),
{
    LeaseDetail {
        holder: lease.holder_username.clone(),
        here: held_here(lease, engine, my_fp, me),
        acquired_at: spell(lease.acquired_at),
        renewed_at: spell(lease.renewed_at),
        base_version: lease.base_version,
        live: lease.live,
        pushed_since: lease.pushed_since,
    }
}

/// The lines that tell of a lease.
pub open spec fn lease_text(o: LeaseOut) -> Seq<char> {
    match o.lease {
        None => o.save_id@ + ": nobody is hosting"@,
        Some(l) => "holder:  "@ + l.holder@ + (if l.here {
            " (this machine)"@
        } else {
            ""@
        }) + "\nsince:   "@ + l.acquired_at@ + "\nrenewed: "@ + l.renewed_at@ + "\nbase:    v"@
            + signed_digits(l.base_version as int) + "\nlive:    "@ + yes_or_no(l.live)
            + "\npushed:  "@ + yes_or_no(l.pushed_since),
    }
}

/// The word for an answer.
pub open spec fn yes_or_no(b: bool) -> Seq<char> {
    if b {
        "yes"@
    } else {
        "no"@
    }
}

fn yes_no(b: bool) -> (r: &'static str)
    ensures
        r@ == yes_or_no(b),
{
    if b {
        "yes"
    } else {
        "no"
    }
}

/// The lines that tell of a lease.
pub fn lease_lines(o: &LeaseOut) -> (r: String)
    ensures
        r@ == lease_text(*o),
{
    let mut r = String::new();
    match &o.lease {
        None => {
            r.append(o.save_id.as_str());
            r.append(": nobody is hosting");
        },
        Some(l) => {
            r.append("holder:  ");
            r.append(l.holder.as_str());
            r.append(
                if l.here {
                    " (this machine)"
                } else {
                    ""
                },
            );
            r.append("\nsince:   ");
            r.append(l.acquired_at.as_str());
            r.append("\nrenewed: ");
            r.append(l.renewed_at.as_str());
            r.append("\nbase:    v");
            r.append(signed_decimal(l.base_version).as_str());
            r.append("\nlive:    ");
            r.append(yes_no(l.live));
            r.append("\npushed:  ");
            r.append(yes_no(l.pushed_since));
        },
    }
    assert(r@ =~= lease_text(*o));
    r
}

// ---- the verbs

/// What the service is asked.
#[derive(Debug)]
pub enum Request {
    ClaimWorld { save_id: String, role: WorldRole },
    ReleaseWorld { save_id: String },
    ForceWorld { save_id: String },
    DismissWorld { save_id: String },
    GetLease { save_id: String },
    Status,
}

/// What the service answered.
#[derive(Debug)]
pub enum Answer {
    /// The request was taken.
    Done,
    /// The lease, or none.
    Lease(Option<Lease>),
    /// The service's status.
    Status(DaemonStatus),
    /// The request was refused, or the service did not answer it.
    Failed(Failure),
    /// An answer to something else.
    Unfit,
}

/// A verb on its way.
#[derive(Debug)]
pub enum Stage {
    Claiming { view: bool },
    Releasing,
    /// Before a force: who holds the lease as it goes out?
    Looking,
    /// Before a force: whose is it, by the engine's word?
    Weighing { lease: Option<Lease> },
    Forcing { forced: Option<String> },
    Dismissing,
    /// `lease`: the lease was asked for.
    Reading,
    /// `lease`: the engine's word was asked for.
    Telling { lease: Option<Lease> },
}

/// A verb and the save it is about.
#[derive(Debug)]
pub struct Verb {
    pub save_id: String,
    pub stage: Stage,
}

/// What comes next.
#[derive(Debug)]
pub enum Step {
    /// Ask the service this, and hand its answer back.
    Ask(Verb, Request),
    /// Look at the lease until it settles or the deadline comes.
    Watch { save_id: String, watch: Watch, force: bool },
    Show(WorldOut, bool),
    ShowLease(LeaseOut),
    Fail(Failure),
}

/// The stage that a command starts in.
pub open spec fn first_stage(cmd: WorldCommand) -> Stage {
    match cmd {
        WorldCommand::Claim { save_id, view } => Stage::Claiming { view },
        WorldCommand::Release { save_id } => Stage::Releasing,
        WorldCommand::Force { save_id } => Stage::Looking,
        WorldCommand::Dismiss { save_id } => Stage::Dismissing,
        WorldCommand::Lease { save_id } => Stage::Reading,
    }
}

/// The save that a command is about.
pub open spec fn subject(cmd: WorldCommand) -> String {
    match cmd {
        WorldCommand::Claim { save_id, view } => save_id,
        WorldCommand::Release { save_id } => save_id,
        WorldCommand::Force { save_id } => save_id,
        WorldCommand::Dismiss { save_id } => save_id,
        WorldCommand::Lease { save_id } => save_id,
    }
}

/// What is asked in a stage.
pub open spec fn asked_in(stage: Stage, save_id: String) -> Request {
    match stage {
        Stage::Claiming { view } => Request::ClaimWorld {
            save_id,
            role: if view {
                WorldRole::View
            } else {
                WorldRole::Host
            },
        },
        Stage::Releasing => Request::ReleaseWorld { save_id },
        Stage::Looking => Request::GetLease { save_id },
        Stage::Weighing { lease } => Request::Status,
        Stage::Forcing { forced } => Request::ForceWorld { save_id },
        Stage::Dismissing => Request::DismissWorld { save_id },
        Stage::Reading => Request::GetLease { save_id },
        Stage::Telling { lease } => Request::Status,
    }
}

fn ask(save_id: String, stage: Stage) -> (r: Step)
    ensures
        r == Step::Ask(Verb { save_id, stage }, asked_in(stage, save_id)),
{
    let id = save_id.clone();
    let request = match &stage {
        Stage::Claiming { view } => Request::ClaimWorld {
            save_id: id,
            role: if *view {
                WorldRole::View
            } else {
                WorldRole::Host
            },
        },
        Stage::Releasing => Request::ReleaseWorld { save_id: id },
        Stage::Looking => Request::GetLease { save_id: id },
        Stage::Weighing { lease: _ } => Request::Status,
        Stage::Forcing { forced: _ } => Request::ForceWorld { save_id: id },
        Stage::Dismissing => Request::DismissWorld { save_id: id },
        Stage::Reading => Request::GetLease { save_id: id },
        Stage::Telling { lease: _ } => Request::Status,
    };
    Step::Ask(Verb { save_id, stage }, request)
}

/// The engine's lease on a save by an answer to a status request. A service that cannot say leaves
/// it open.
pub open spec fn engine_says(answer: Answer, id: Seq<char>) -> Option<WorldLease> {
    match answer {
        Answer::Status(status) => lease_in(hosts_in(status.slots@), id),
        _ => None,
    }
}

fn engine_word(answer: &Answer, save_id: &str) -> (r: Option<WorldLease>)
    ensures
        r == engine_says(*answer, save_id@),
{
    match answer {
        Answer::Status(status) => Hosts::from_status(status).lease(save_id),
        _ => None,
    }
}

/// Is this the step of an answer that does not fit the request? The answer is told as it prints.
pub open spec fn is_unexpected(step: Step, printed: Seq<char>) -> bool {
    step is Fail && step->Fail_0.cause is Other && step->Fail_0.cause->Other_0@
        == "unexpected answer to a lease request: "@ + printed
        && step->Fail_0.contexts@.len() == 0
}

fn unexpected(printed: &str) -> (r: Step)
    ensures
        is_unexpected(r, printed@),
{
    let mut s = "unexpected answer to a lease request: ".to_owned();
    s.append(printed);
    Step::Fail(Failure::of(Cause::Other(s)))
}

/// Who a force is sent against: somebody else, as one look saw it.
pub open spec fn forced_in(look: Look) -> Option<Seq<char>> {
    match look {
        Look::Other { holder, pushed } => Some(holder),
        _ => None,
    }
}

/// Is this a step to the stage?
pub open spec fn goes_to(step: Step, save_id: String, stage: Stage) -> bool {
    step == Step::Ask(Verb { save_id, stage }, asked_in(stage, save_id))
}

/// The command's first step.
pub fn start(cmd: WorldCommand) -> (r: Step)
    ensures
        goes_to(r, subject(cmd), first_stage(cmd)),
{
    match cmd {
        WorldCommand::Claim { save_id, view } => ask(save_id, Stage::Claiming { view }),
        WorldCommand::Release { save_id } => ask(save_id, Stage::Releasing),
        WorldCommand::Force { save_id } => ask(save_id, Stage::Looking),
        WorldCommand::Dismiss { save_id } => ask(save_id, Stage::Dismissing),
        WorldCommand::Lease { save_id } => ask(save_id, Stage::Reading),
    }
}

/// Is this a force that goes out against this holder?
pub open spec fn forces(step: Step, save_id: String, forced: Option<Seq<char>>) -> bool {
    step is Ask && {
        let verb = step->Ask_0;
        &&& verb.save_id == save_id
        &&& verb.stage is Forcing
        &&& match verb.stage->forced {
            Some(s) => forced == Some(s@),
            None => forced is None,
        }
        &&& step->Ask_1 == Request::ForceWorld { save_id }
    }
}

/// Is this the step that a verb takes on an answer that says how its request went?
pub open spec fn acted(
    step: Step,
    verb: Verb,
    answer: Answer,
    printed: Seq<char>,
    my_fp: Seq<char>,
    me: Option<Seq<char>>,
) -> bool {
    let id = verb.save_id;
    match verb.stage {
        Stage::Claiming { view } => match answer {
            Answer::Failed(f) => step == Step::Fail(f),
            _ => if view {
                step == Step::Show(WorldOut { save_id: id, outcome: Outcome::Viewing }, false)
            } else {
                step is Watch && step->save_id == id && !step->force && !step->watch.behind
                    && step->watch.wait@ == (Waiting {
                    forced: None,
                    other: None,
                    still_forced: None,
                })
            },
        },
        Stage::Releasing => match answer {
            Answer::Failed(f) => step == Step::Fail(f),
            _ => step == Step::Show(WorldOut { save_id: id, outcome: Outcome::Releasing }, false),
        },
        Stage::Dismissing => match answer {
            Answer::Failed(f) => step == Step::Fail(f),
            _ => step == Step::Show(WorldOut { save_id: id, outcome: Outcome::Dismissed }, false),
        },
        // A lease that cannot be read does not stop a force.
        Stage::Looking => match answer {
            Answer::Lease(lease) => goes_to(step, id, Stage::Weighing { lease }),
            _ => forces(step, id, None),
        },
        Stage::Weighing { lease } => forces(
            step,
            id,
            forced_in(look_at(lease, engine_says(answer, id@), my_fp, me)),
        ),
        Stage::Forcing { forced } => match answer {
            Answer::Failed(f) => step == Step::Fail(f),
            _ => step is Watch && step->save_id == id && step->force && !step->watch.behind
                && step->watch.wait@ == (Waiting {
                forced: match forced {
                    Some(s) => Some(s@),
                    None => None,
                },
                other: None,
                still_forced: None,
            }),
        },
        Stage::Reading => match answer {
            Answer::Lease(lease) => goes_to(step, id, Stage::Telling { lease }),
            Answer::Failed(f) => step == Step::Fail(f),
            _ => is_unexpected(step, printed),
        },
        Stage::Telling { lease } => step is ShowLease && step->ShowLease_0.save_id == id && {
            match lease {
                None => step->ShowLease_0.lease is None,
                Some(l) => step->ShowLease_0.lease is Some && is_detail(
                    step->ShowLease_0.lease->0,
                    l,
                    engine_says(answer, id@),
                    my_fp,
                    me,
                ),
            }
        },
    }
}

/// The verb's next step, for the service's answer to its request. `printed` is the answer as it
/// prints, for one that does not fit; `my_fp` is this machine's fingerprint and `me` this account,
/// where it is known.
pub fn next(
    verb: Verb,
    answer: Answer,
    printed: &str,
    my_fp: &str,
    me: Option<&str>,
) -> (r: Step)
    ensures
        acted(r, verb, answer, printed@, my_fp@, text_in(me)),
{
    let Verb { save_id, stage } = verb;
    match stage {
        Stage::Claiming { view } => match answer {
            Answer::Failed(f) => Step::Fail(f),
            _ => if view {
                Step::Show(WorldOut { save_id, outcome: Outcome::Viewing }, false)
            } else {
                Step::Watch { save_id, watch: Watch::new(Wait::claiming()), force: false }
            },
        },
        Stage::Releasing => match answer {
            Answer::Failed(f) => Step::Fail(f),
            _ => Step::Show(WorldOut { save_id, outcome: Outcome::Releasing }, false),
        },
        Stage::Dismissing => match answer {
            Answer::Failed(f) => Step::Fail(f),
            _ => Step::Show(WorldOut { save_id, outcome: Outcome::Dismissed }, false),
        },
        Stage::Looking => match answer {
            Answer::Lease(lease) => ask(save_id, Stage::Weighing { lease }),
            _ => ask(save_id, Stage::Forcing { forced: None }),
        },
        Stage::Weighing { lease } => {
            let engine = engine_word(&answer, save_id.as_str());
            let look = match &lease {
                Some(l) => seen(Some(l), engine, my_fp, me),
                None => seen(None, engine, my_fp, me),
            };
            let forced = match look {
                Seen::Other { holder, pushed: _ } => Some(holder),
                _ => None,
            };
            ask(save_id, Stage::Forcing { forced })
        },
        Stage::Forcing { forced } => match answer {
            Answer::Failed(f) => Step::Fail(f),
            _ => Step::Watch { save_id, watch: Watch::new(Wait::forcing(forced)), force: true },
        },
        Stage::Reading => match answer {
            Answer::Lease(lease) => ask(save_id, Stage::Telling { lease }),
            Answer::Failed(f) => Step::Fail(f),
            _ => unexpected(printed),
        },
        Stage::Telling { lease } => {
            let engine = engine_word(&answer, save_id.as_str());
            let lease = match &lease {
                Some(l) => Some(detail(l, engine, my_fp, me)),
                None => None,
            };
            Step::ShowLease(LeaseOut { save_id, lease })
        },
    }
}

/// The verb's last step, for the verdict on its lease.
pub fn settled(save_id: String, verdict: Verdict, force: bool) -> (r: Step)
    ensures
        match verdict {
            Verdict::Hosting => r == Step::Show(
                WorldOut { save_id, outcome: Outcome::Hosting },
                force,
            ),
            Verdict::Undecided => r == Step::Show(
                WorldOut { save_id, outcome: Outcome::Pending },
                force,
            ),
            Verdict::Behind => r is Fail && is_coded(
                r->Fail_0,
                "stale"@,
                stale_text(save_id@),
            ),
            Verdict::Held { holder, pushed } => r is Fail && (if pushed && force {
                is_coded(r->Fail_0, "pushed"@, pushed_text(holder@, save_id@))
            } else {
                is_coded(r->Fail_0, "held"@, held_text(holder@, save_id@))
            }),
        },
{
    match outcome_of(save_id.as_str(), verdict, force) {
        Ok(outcome) => Step::Show(WorldOut { save_id, outcome }, force),
        Err(f) => Step::Fail(f),
    }
}

// ---- laws

/// A lease of ours settles the wait at once, whatever came before.
pub proof fn ours_settles_at_once(w: Waiting)
    ensures
        settles(w, Look::Mine) == Some(End::Hosting),
{
}

/// One look at a holder settles nothing, unless the look before it saw the very same.
pub proof fn one_look_is_not_a_verdict(w: Waiting, holder: Seq<char>, pushed: bool)
    ensures
        w.other != Some((holder, pushed)) ==> settles(w, Look::Other { holder, pushed }) is None,
        w.forced != Some(holder) ==> settles(
            looked(w, Look::Other { holder, pushed }),
            Look::Other { holder, pushed },
        ) == Some(End::Held { holder, pushed }),
{
}

/// The holder that a force was sent against settles nothing before the deadline, however often
/// they are seen; at the deadline they do.
pub proof fn a_force_waits_its_holder_out(w: Waiting, holder: Seq<char>, pushed: bool)
    requires
        w.forced == Some(holder),
    ensures
        settles(w, Look::Other { holder, pushed }) is None,
        looked(w, Look::Other { holder, pushed }).forced == w.forced,
        at_deadline(looked(w, Look::Other { holder, pushed })) == (End::Held { holder, pushed }),
{
}

/// A look and the detail of a lease agree: what a look reads as ours is held here, and a live
/// lease held here reads as ours.
pub proof fn looks_and_details_agree(
    lease: Lease,
    engine: Option<WorldLease>,
    my_fp: Seq<char>,
    me: Option<Seq<char>>,
)
    ensures
        look_at(Some(lease), engine, my_fp, me) is Mine ==> is_here(lease, engine, my_fp, me),
        lease.live && is_here(lease, engine, my_fp, me) ==> look_at(
            Some(lease),
            engine,
            my_fp,
            me,
        ) is Mine,
{
}

/// What each command asks of the service first, and for which save: `claim` asks for the role it
/// names, `release` to release, `dismiss` to dismiss; `force` and `lease` read the lease before
/// anything else. Nothing is shown and nothing waited for before the answer.
pub proof fn each_command_asks_its_own(cmd: WorldCommand, step: Step)
    requires
        call_ensures(start, (cmd,), step),
    ensures
        step is Ask,
        cmd matches WorldCommand::Claim { save_id, view } ==> step->Ask_0.save_id == save_id
            && step->Ask_0.stage == (Stage::Claiming { view }) && step->Ask_1
            == (Request::ClaimWorld {
            save_id,
            role: if view {
                WorldRole::View
            } else {
                WorldRole::Host
            },
        }),
        cmd matches WorldCommand::Release { save_id } ==> step->Ask_0.save_id == save_id
            && step->Ask_0.stage == Stage::Releasing && step->Ask_1 == (Request::ReleaseWorld {
            save_id,
        }),
        cmd matches WorldCommand::Dismiss { save_id } ==> step->Ask_0.save_id == save_id
            && step->Ask_0.stage == Stage::Dismissing && step->Ask_1 == (Request::DismissWorld {
            save_id,
        }),
        cmd matches WorldCommand::Force { save_id } ==> step->Ask_0.save_id == save_id
            && step->Ask_0.stage == Stage::Looking && step->Ask_1 == (Request::GetLease {
            save_id,
        }),
        cmd matches WorldCommand::Lease { save_id } ==> step->Ask_0.save_id == save_id
            && step->Ask_0.stage == Stage::Reading && step->Ask_1 == (Request::GetLease {
            save_id,
        }),
{
}

/// No two of `claim`, `release` and `dismiss` send the same request, whatever their saves.
pub proof fn no_two_verbs_ask_alike(
    claim: WorldCommand,
    release: WorldCommand,
    dismiss: WorldCommand,
    a: Step,
    b: Step,
    c: Step,
)
    requires
        claim is Claim,
        release is Release,
        dismiss is Dismiss,
        call_ensures(start, (claim,), a),
        call_ensures(start, (release,), b),
        call_ensures(start, (dismiss,), c),
    ensures
        a->Ask_1 != b->Ask_1,
        a->Ask_1 != c->Ask_1,
        b->Ask_1 != c->Ask_1,
{
}

/// What a verb comes to once its request was taken: `--view` is told as viewing, a release as
/// releasing, a dismissal as dismissed, each of the save the verb names; a claim to host is watched.
/// A request that failed fails the verb with that very failure.
pub proof fn a_taken_request_is_told(
    verb: Verb,
    answer: Answer,
    printed: &str,
    my_fp: &str,
    me: Option<&str>,
    step: Step,
)
    requires
        call_ensures(next, (verb, answer, printed, my_fp, me), step),
    ensures
        (verb.stage is Claiming || verb.stage is Releasing || verb.stage is Dismissing
            || verb.stage is Forcing || verb.stage is Reading) && answer is Failed ==> step is Fail
            && step->Fail_0 == answer->Failed_0,
        answer !is Failed ==> {
            &&& verb.stage is Claiming && verb.stage->view ==> step is Show
                && step->Show_0.save_id == verb.save_id && step->Show_0.outcome == Outcome::Viewing
                && !step->Show_1
            &&& verb.stage is Releasing ==> step is Show && step->Show_0.save_id == verb.save_id
                && step->Show_0.outcome == Outcome::Releasing && !step->Show_1
            &&& verb.stage is Dismissing ==> step is Show && step->Show_0.save_id == verb.save_id
                && step->Show_0.outcome == Outcome::Dismissed && !step->Show_1
            &&& verb.stage is Claiming && !verb.stage->view ==> step is Watch && step->save_id
                == verb.save_id && !step->force && step->watch.wait@.forced is None
            &&& verb.stage is Forcing ==> step is Watch && step->save_id == verb.save_id
                && step->force
            &&& step is Watch ==> !step->watch.behind && step->watch.wait@.other is None
                && step->watch.wait@.still_forced is None
            &&& verb.stage is Forcing && verb.stage->forced is Some ==> step->watch.wait@.forced
                == Some(verb.stage->forced->0@)
            &&& verb.stage is Forcing && verb.stage->forced is None
                ==> step->watch.wait@.forced is None
        },
{
}

/// A force always goes out, whatever could be read first, and against somebody only where a live
/// lease of somebody else was read. The engine's word on whose it is comes first; the fingerprint
/// and the account count where it has none.
pub proof fn a_force_is_always_sent(
    verb: Verb,
    answer: Answer,
    printed: &str,
    my_fp: &str,
    me: Option<&str>,
    step: Step,
)
    requires
        call_ensures(next, (verb, answer, printed, my_fp, me), step),
    ensures
        verb.stage is Looking ==> step is Ask && step->Ask_0.save_id == verb.save_id,
        verb.stage is Looking && answer is Lease ==> step->Ask_1 == Request::Status
            && step->Ask_0.stage == (Stage::Weighing { lease: answer->Lease_0 }),
        verb.stage is Looking && answer !is Lease ==> step->Ask_1 == (Request::ForceWorld {
            save_id: verb.save_id,
        }) && step->Ask_0.stage is Forcing && step->Ask_0.stage->forced is None,
        verb.stage is Weighing ==> {
            let lease = verb.stage->Weighing_lease;
            let engine = engine_says(answer, verb.save_id@);
            &&& step is Ask
            &&& step->Ask_0.save_id == verb.save_id
            &&& step->Ask_1 == (Request::ForceWorld { save_id: verb.save_id })
            &&& step->Ask_0.stage is Forcing
            &&& step->Ask_0.stage->forced is Some ==> lease is Some && lease->0.live && engine
                != Some(WorldLease::Mine) && step->Ask_0.stage->forced->0@
                == lease->0.holder_username@
            &&& (lease is Some && lease->0.live && engine == Some(WorldLease::Other))
                ==> step->Ask_0.stage->forced is Some
            &&& (lease is Some && lease->0.live && engine != Some(WorldLease::Mine) && (
            lease->0.holder_device_fp is None || lease->0.holder_device_fp->0@ != my_fp@))
                ==> step->Ask_0.stage->forced is Some
        },
{
}

/// `lease` asks the engine after the lease, and then tells the lease it read: its holder, base, and
/// whether it is live and pushed, as they were read. An answer to something else is told as it
/// prints.
pub proof fn a_lease_is_told_as_read(
    verb: Verb,
    answer: Answer,
    printed: &str,
    my_fp: &str,
    me: Option<&str>,
    step: Step,
)
    requires
        call_ensures(next, (verb, answer, printed, my_fp, me), step),
    ensures
        verb.stage is Reading && answer is Lease ==> step is Ask && step->Ask_1 == Request::Status
            && step->Ask_0.save_id == verb.save_id && step->Ask_0.stage == (Stage::Telling {
            lease: answer->Lease_0,
        }),
        verb.stage is Reading && answer !is Lease && answer !is Failed ==> step is Fail
            && step->Fail_0.cause is Other && step->Fail_0.cause->Other_0@
            == "unexpected answer to a lease request: "@ + printed@,
        verb.stage is Telling ==> {
            let lease = verb.stage->Telling_lease;
            &&& step is ShowLease
            &&& step->ShowLease_0.save_id == verb.save_id
            &&& step->ShowLease_0.lease is Some <==> lease is Some
            &&& lease is Some ==> {
                let d = step->ShowLease_0.lease->0;
                &&& d.holder@ == lease->0.holder_username@
                &&& d.base_version == lease->0.base_version
                &&& d.live == lease->0.live
                &&& d.pushed_since == lease->0.pushed_since
                &&& d.acquired_at@ == spelled(lease->0.acquired_at)
                &&& d.renewed_at@ == spelled(lease->0.renewed_at)
            }
        },
{
}

/// Whether a lease is held here: as the engine says where it says mine or other; else where it was
/// taken from this machine by this account, and not where the account is not known.
pub proof fn here_is_this_machine_and_account(
    lease: Lease,
    engine: Option<WorldLease>,
    my_fp: &str,
    me: Option<&str>,
    here: bool,
    told: LeaseDetail,
)
    requires
        call_ensures(held_here, (&lease, engine, my_fp, me), here),
        call_ensures(detail, (&lease, engine, my_fp, me), told),
    ensures
        told.here == here,
        engine == Some(WorldLease::Mine) ==> here,
        engine == Some(WorldLease::Other) ==> !here,
        engine != Some(WorldLease::Mine) && engine != Some(WorldLease::Other) ==> (here <==> (
        lease.holder_device_fp is Some && lease.holder_device_fp->0@ == my_fp@ && me is Some
            && me->0@ == lease.holder_user_id@)),
{
}

/// What one look sees. No lease and a quiet one are free, whoever held it. Of a live one the
/// engine's word decides; else it is ours from this machine and account, somebody's who took it
/// from elsewhere or by another account, and nobody can say with the account unknown.
pub proof fn a_look_reads_the_lease(
    lease: Option<Lease>,
    engine: Option<WorldLease>,
    my_fp: &str,
    me: Option<&str>,
    r: Seen,
)
    requires
        lease is None ==> call_ensures(seen, (None, engine, my_fp, me), r),
        lease matches Some(l) ==> call_ensures(seen, (Some(&l), engine, my_fp, me), r),
    ensures
        lease is None || !lease->0.live ==> r is Free,
        lease is Some && lease->0.live ==> {
            let l = lease->0;
            let from = l.holder_device_fp is Some && l.holder_device_fp->0@ == my_fp@;
            let account = me is Some && me->0@ == l.holder_user_id@;
            &&& r !is Free
            &&& r is Mine <==> engine == Some(WorldLease::Mine) || (engine != Some(
                WorldLease::Other,
            ) && from && account)
            &&& r is Unknown <==> engine != Some(WorldLease::Mine) && engine != Some(
                WorldLease::Other,
            ) && from && me is None
            &&& r is Other ==> r->holder@ == l.holder_username@ && r->pushed == l.pushed_since
        },
{
}

/// The last word of a verb that waited: hosting and pending are told, of the save it names; a world
/// behind the head, a holder who pushed (to a force alone) and a holder otherwise are refusals with
/// a code each, whose text names the save, and the holder where there is one.
pub proof fn a_verdict_is_answered(save_id: String, verdict: Verdict, force: bool, step: Step)
    requires
        call_ensures(settled, (save_id, verdict, force), step),
    ensures
        verdict is Hosting ==> step is Show && step->Show_0.outcome == Outcome::Hosting,
        verdict is Undecided ==> step is Show && step->Show_0.outcome == Outcome::Pending,
        step is Show ==> step->Show_0.save_id == save_id && step->Show_1 == force,
        verdict is Behind || verdict is Held ==> step is Fail && step->Fail_0.cause is Coded,
        verdict is Behind ==> step->Fail_0.cause->Coded_0.code@ == "stale"@
            && step->Fail_0.cause->Coded_0.message@ == save_id@
            + " is behind the latest version; Hoard is pulling it, then claim again"@,
        verdict is Held && verdict->pushed && force ==> step->Fail_0.cause->Coded_0.code@
            == "pushed"@ && step->Fail_0.cause->Coded_0.message@ == verdict->holder@
            + " has pushed to "@ + save_id@
            + " under their lease, so it cannot be taken; ask them to release it"@,
        verdict is Held && !(verdict->pushed && force) ==> step->Fail_0.cause->Coded_0.code@
            == "held"@ && step->Fail_0.cause->Coded_0.message@ == verdict->holder@
            + " is hosting "@ + save_id@ + "; view it with `hoard world claim "@ + save_id@
            + " --view`, or ask them to release it"@,
{
}

/// Reading one look of a wait: ours ends it, hosting; somebody ends it when the look before named
/// the very same with the same pushes and they are not who a force was sent against; every other
/// look goes on, and the next one is compared with it.
pub proof fn one_look_of_a_wait(w: &mut Wait, look: Seen, r: Option<Verdict>)
    requires
        call_ensures(Wait::see, (w, look), r),
    ensures
        look is Mine ==> r == Some(Verdict::Hosting),
        look is Free || look is Unknown ==> r is None && final(w)@.other is None
            && final(w)@.still_forced is None,
        look is Other ==> {
            let told = (look->holder@, look->pushed);
            let against = old(w)@.forced == Some(look->holder@);
            &&& r is Some <==> !against && old(w)@.other == Some(told)
            &&& r is Some ==> r->0 is Held && r->0->holder@ == look->holder@ && r->0->pushed
                == look->pushed
            &&& r is None && !against ==> final(w)@.other == Some(told)
                && final(w)@.still_forced is None
            &&& against ==> final(w)@.other is None && final(w)@.still_forced == Some(told)
        },
        final(w)@.forced == old(w)@.forced,
{
}

/// A wait that its deadline ends is held by whom the last look still named of those a force was
/// sent against, and undecided otherwise; behind the head beats both.
pub proof fn a_deadline_ends_a_wait(w: Wait, behind: bool, r: Verdict)
    requires
        call_ensures(timed_out, (w, behind), r),
    ensures
        behind ==> r is Behind,
        !behind && w@.still_forced is None ==> r is Undecided,
        w@.still_forced matches Some((holder, pushed)) ==> behind || (r is Held && r->holder@
            == holder && r->pushed == pushed),
{
}

/// The host cell of a table and the tag beside it, word for word.
pub proof fn a_host_cell_says(lease: WorldLease, holder: Option<&str>, h: Host)
    requires
        call_ensures(host, (lease, holder), h),
    ensures
        lease == WorldLease::Mine ==> h.cell@ == "hosted here"@ && h.lease@ == "mine"@,
        lease == WorldLease::Free ==> h.cell@ == "nobody"@ && h.lease@ == "free"@,
        lease == WorldLease::Unknown ==> h.cell@ == "unknown"@ && h.lease@ == "unknown"@,
        lease == WorldLease::Other ==> h.lease@ == "other"@,
        lease == WorldLease::Other && holder is Some ==> h.cell@ == "hosted by "@ + holder->0@,
        lease == WorldLease::Other && holder is None ==> h.cell@ == "hosted elsewhere"@,
{
}

proof fn the_last_slot_counts(slots: Seq<AgentSlotStatus>, id: Seq<char>, i: int)
    requires
        0 <= i < slots.len(),
        slots[i].save_id@ == id,
        forall|k: int| i < k < slots.len() ==> (#[trigger] slots[k]).save_id@ != id,
    ensures
        hosts_in(slots).contains_key(id),
        hosts_in(slots)[id] == (slots[i].lease, slots[i].lease_holder),
    decreases slots.len(),
{
    if i < slots.len() - 1 {
        assert(slots[slots.len() - 1].save_id@ != id);
        assert forall|k: int| i < k < slots.drop_last().len() implies (
        #[trigger] slots.drop_last()[k]).save_id@ != id by {
            assert(slots.drop_last()[k] == slots[k]);
        }
        the_last_slot_counts(slots.drop_last(), id, i);
    }
}

proof fn no_slot_no_host(slots: Seq<AgentSlotStatus>, id: Seq<char>)
    requires
        forall|k: int| 0 <= k < slots.len() ==> (#[trigger] slots[k]).save_id@ != id,
    ensures
        !hosts_in(slots).contains_key(id),
    decreases slots.len(),
{
    if slots.len() > 0 {
        assert(slots[slots.len() - 1].save_id@ != id);
        assert forall|k: int| 0 <= k < slots.drop_last().len() implies (
        #[trigger] slots.drop_last()[k]).save_id@ != id by {
            assert(slots.drop_last()[k] == slots[k]);
        }
        no_slot_no_host(slots.drop_last(), id);
    }
}

/// What a table shows of a save is what the engine's slot for it says: its lease, and the holder's
/// name beside somebody else's. With no slot the host is unknown.
pub proof fn a_table_shows_the_slots_host(
    status: DaemonStatus,
    hosts: Hosts,
    save_id: &str,
    lease: Option<WorldLease>,
    h: Host,
    i: int,
)
    requires
        call_ensures(Hosts::from_status, (&status,), hosts),
        call_ensures(Hosts::lease, (&hosts, save_id), lease),
        call_ensures(Hosts::of, (&hosts, save_id), h),
    ensures
        (0 <= i < status.slots@.len() && status.slots@[i].save_id@ == save_id@ && forall|k: int|
            i < k < status.slots@.len() ==> (#[trigger] status.slots@[k]).save_id@ != save_id@)
            ==> {
            let s = status.slots@[i];
            &&& lease == s.lease
            &&& s.lease == Some(WorldLease::Mine) ==> h.cell@ == "hosted here"@
            &&& s.lease == Some(WorldLease::Free) ==> h.cell@ == "nobody"@
            &&& s.lease == Some(WorldLease::Other) && s.lease_holder is Some ==> h.cell@
                == "hosted by "@ + s.lease_holder->0@
            &&& s.lease is None ==> h.cell@ == "unknown"@
        },
        (forall|k: int|
            0 <= k < status.slots@.len() ==> (#[trigger] status.slots@[k]).save_id@ != save_id@)
            ==> lease is None && h.cell@ == "unknown"@ && h.lease@ == "unknown"@,
{
    if 0 <= i < status.slots@.len() && status.slots@[i].save_id@ == save_id@ && (forall|k: int|
        i < k < status.slots@.len() ==> (#[trigger] status.slots@[k]).save_id@ != save_id@) {
        the_last_slot_counts(status.slots@, save_id@, i);
    }
    if forall|k: int|
        0 <= k < status.slots@.len() ==> (#[trigger] status.slots@[k]).save_id@ != save_id@ {
        no_slot_no_host(status.slots@, save_id@);
    }
}

/// A world is behind the head when the slot with its very id says so.
pub proof fn behind_is_the_slots_word(status: DaemonStatus, save_id: &str, r: bool, i: int)
    requires
        call_ensures(behind, (&status, save_id), r),
    ensures
        (0 <= i < status.slots@.len() && status.slots@[i].save_id@ == save_id@
            && status.slots@[i].lease_behind) ==> r,
        r ==> exists|k: int|
            0 <= k < status.slots@.len() && (#[trigger] status.slots@[k]).save_id@ == save_id@
                && status.slots@[k].lease_behind,
{
}

/// A look at the service and the lease: what the service's status says of the save's lease is the
/// engine's word; a lease that could not be read says nothing and settles nothing.
pub proof fn a_watch_looks(
    w: &mut Watch,
    save_id: &str,
    status: Option<DaemonStatus>,
    lease: Option<Option<Lease>>,
    my_fp: &str,
    me: Option<&str>,
    r: Option<Verdict>,
)
    requires
        call_ensures(Watch::look, (w, save_id, &status, &lease, my_fp, me), r),
    ensures
        lease is None ==> r is None,
        lease matches Some(None) ==> r is None,
        status is None ==> final(w).behind == old(w).behind,
        status matches Some(s) ==> final(w).behind == exists|k: int|
            0 <= k < s.slots@.len() && (#[trigger] s.slots@[k]).save_id@ == save_id@
                && s.slots@[k].lease_behind,
        lease matches Some(Some(l)) ==> {
            let word = match status {
                Some(s) => lease_in(hosts_in(s.slots@), save_id@),
                None => None,
            };
            &&& !l.live ==> r is None
            &&& l.live && word == Some(WorldLease::Mine) ==> r == Some(Verdict::Hosting)
            &&& r matches Some(v) ==> v is Hosting || v is Held
            &&& r matches Some(Verdict::Held { holder, pushed }) ==> l.live && holder@
                == l.holder_username@ && pushed == l.pushed_since && word != Some(
                WorldLease::Mine,
            )
        },
{
}

/// The line of each outcome and the word for scripts, letter for letter.
pub proof fn outcomes_are_told(save_id: &str, outcome: Outcome, force: bool, line: String, word: &str)
    requires
        call_ensures(human_line, (save_id, outcome, force), line),
        call_ensures(Outcome::word, (outcome,), word),
    ensures
        outcome == Outcome::Hosting ==> line@ == "hosting "@ + save_id@ && word@ == "hosting"@,
        outcome == Outcome::Releasing ==> line@ == "releasing the lease on "@ + save_id@ && word@
            == "releasing"@,
        outcome == Outcome::Dismissed ==> line@ == "dismissed "@ + save_id@
            + ": no role this session"@ && word@ == "dismissed"@,
        outcome == Outcome::Viewing ==> line@ == "asked to view "@ + save_id@
            + "; the outcome shows in `hoard sync logs` and `hoard world lease "@ + save_id@ + "`"@
            && word@ == "viewing"@,
        outcome == Outcome::Pending ==> word@ == "pending"@,
        outcome == Outcome::Pending && force ==> line@ == "taking the lease on "@ + save_id@
            + "; the outcome shows in `hoard sync logs`"@,
        outcome == Outcome::Pending && !force ==> line@ == "asked to host "@ + save_id@
            + "; the outcome shows in `hoard sync logs` and `hoard world lease "@ + save_id@
            + "`"@,
{
}

/// The lines of a lease: nobody hosts without one; else who, since when, renewed when, from which
/// version, and whether it is live and was pushed under.
pub proof fn a_lease_reads(o: LeaseOut, r: String)
    requires
        call_ensures(lease_lines, (&o,), r),
    ensures
        o.lease is None ==> r@ == o.save_id@ + ": nobody is hosting"@,
        o.lease matches Some(l) ==> {
            let here = if l.here {
                " (this machine)"@
            } else {
                ""@
            };
            let live = if l.live {
                "yes"@
            } else {
                "no"@
            };
            let pushed = if l.pushed_since {
                "yes"@
            } else {
                "no"@
            };
            r@ == "holder:  "@ + l.holder@ + here + "\nsince:   "@ + l.acquired_at@
                + "\nrenewed: "@ + l.renewed_at@ + "\nbase:    v"@ + signed_digits(
                l.base_version as int,
            ) + "\nlive:    "@ + live + "\npushed:  "@ + pushed
        },
{
}

/// The account is the user that the session remembers, where it remembers one.
pub proof fn the_account_is_the_sessions_user(
    session: Option<(String, Option<CachedUser>)>,
    r: Option<String>,
)
    requires
        call_ensures(this_account, (session,), r),
    ensures
        r is Some <==> session is Some && (session matches Some((_, user)) ==> user is Some),
        session matches Some((_, Some(user))) ==> r == Some(user.user_id),
{
}


/// A claim's wait that sees nothing is undecided when it runs out, and so is a force's; each verdict
/// ends in its own outcome, and a push that got in the way is told only of a force.
pub proof fn a_wait_ends_in_an_outcome(
    holder: Option<String>,
    claim: Wait,
    force: Wait,
    a: Verdict,
    b: Verdict,
    save_id: &str,
    verdict: Verdict,
    forced: bool,
    r: Result<Outcome, Failure>,
)
    requires
        call_ensures(Wait::claiming, (), claim),
        call_ensures(Wait::forcing, (holder,), force),
        call_ensures(Wait::deadline, (claim,), a),
        call_ensures(Wait::deadline, (force,), b),
        call_ensures(outcome_of, (save_id, verdict, forced), r),
    ensures
        a is Undecided && b is Undecided,
        verdict is Hosting ==> r is Ok && r->Ok_0 == Outcome::Hosting,
        verdict is Undecided ==> r is Ok && r->Ok_0 == Outcome::Pending,
        verdict is Behind ==> r is Err && r->Err_0.cause is Coded && r->Err_0.cause->Coded_0.code@
            == "stale"@,
        verdict is Held && verdict->pushed && forced ==> r is Err && r->Err_0.cause is Coded
            && r->Err_0.cause->Coded_0.code@ == "pushed"@,
        verdict is Held && !(verdict->pushed && forced) ==> r is Err && r->Err_0.cause is Coded
            && r->Err_0.cause->Coded_0.code@ == "held"@,
{
}

/// A wait is over with the first look that settles it, whatever would have come after. One that has
/// nothing to look at is over at its deadline.
pub proof fn the_first_settling_look_counts(
    wait: Wait,
    looks: Vec<Seen>,
    w: &mut Wait,
    first: Option<Verdict>,
    none: Vec<Seen>,
    r: Verdict,
    late: Verdict,
    nothing: Verdict,
)
    requires
        *old(w) == wait,
        looks@.len() > 0,
        none@.len() == 0,
        call_ensures(Wait::see, (w, looks@[0]), first),
        call_ensures(verdict_of, (wait, none), nothing),
        call_ensures(Wait::deadline, (wait,), late),
        call_ensures(verdict_of, (wait, looks), r),
    ensures
        first is Some ==> r@ == first->0@,
        nothing@ == late@,
{
    assert(looks_of(looks@)[0] == looks@[0]@);
}

} // verus!
