//! The lease task: acquire a hosting lease, keep it alive, give it back.
//!
//! The task holds no policy. It remembers what it holds, what it still has to ask for, and with
//! which version each save was refused as stale; every answer it gets becomes at most one report.
//!
//! - A held lease is renewed every [`RENEW_SECS`].
//! - A renew that is refused drops the lease and says who holds it now.
//! - A transport error changes nothing but what is retried. A release or a cancel drops that
//!   retry, so it cannot take back a lease that nobody wants any more.

use vstd::prelude::*;

use crate::agent::api::{ApiError, CallError};
use crate::agent::idmap::IdMap;
use crate::agent::slot::LeaseObs;
use crate::text::same;
#[allow(unused_imports)]
use crate::text::views;
use crate::wire::Lease;

verus! {

/// How often a held lease is renewed, in seconds.
pub const RENEW_SECS: u64 = 30;

/// The longest the task waits for its releases when it closes, in seconds.
pub const CLOSING_TIMEOUT_SECS: u64 = 3;

/// What the engine is told of a lease. A verdict is the answer to an acquire; anything else is an
/// observation.
#[derive(Debug)]
pub struct Report {
    pub save_id: String,
    pub lease: LeaseObs,
    pub holder: Option<String>,
    pub verdict: bool,
}

/// A report's content.
pub open spec fn reports(
    r: Option<Report>,
    id: Seq<char>,
    lease: LeaseObs,
    holder: Option<String>,
    verdict: bool,
) -> bool {
    &&& r is Some
    &&& r->0.save_id@ == id
    &&& r->0.lease == lease
    &&& r->0.holder == holder
    &&& r->0.verdict == verdict
}

fn report(save_id: &str, lease: LeaseObs, holder: Option<String>, verdict: bool) -> (r: Option<
    Report,
>)
    ensures
        reports(r, save_id@, lease, holder, verdict),
{
    Some(Report { save_id: save_id.to_owned(), lease, holder, verdict })
}

/// What a refused call says about the lease.
pub open spec fn refused(err: CallError) -> Option<Option<String>> {
    match err {
        CallError::Api(ApiError::LeaseHeld(c)) => Some(
            match c.lease {
                Some(l) => Some(l.holder_username),
                None => None,
            },
        ),
        CallError::Api(ApiError::LeaseRequired(c)) => Some(
            match c.lease {
                Some(l) => Some(l.holder_username),
                None => None,
            },
        ),
        CallError::Api(ApiError::Conflict(_)) => Some(None),
        CallError::Api(ApiError::NotShared) => Some(None),
        CallError::Api(ApiError::NotFound) => Some(None),
        CallError::Api(ApiError::Forbidden) => Some(None),
        _ => None,
    }
}

/// What a refused call says about the lease: `Some(holder)` when the server named who has it,
/// `Some(None)` when it only said "not yours", `None` when the call never reached a verdict and
/// the last state stands.
pub fn refusal(err: &CallError) -> (r: Option<Option<String>>)
    ensures
        r == refused(*err),
{
    match err {
        CallError::Api(ApiError::LeaseHeld(c)) => Some(c.holder()),
        CallError::Api(ApiError::LeaseRequired(c)) => Some(c.holder()),
        CallError::Api(ApiError::Conflict(_)) => Some(None),
        CallError::Api(ApiError::NotShared) => Some(None),
        CallError::Api(ApiError::NotFound) => Some(None),
        CallError::Api(ApiError::Forbidden) => Some(None),
        _ => None,
    }
}

/// What the task remembers.
#[derive(Debug)]
pub struct LeaseTask {
    /// The leases held here, with when each was got, in nanoseconds on a monotonic clock.
    held: IdMap<u64>,
    /// Acquires that the server never answered, with the version to ask again with.
    wanted: IdMap<i64>,
    /// The version each save was refused as stale with.
    stale: IdMap<i64>,
    /// This account's id, once it is known.
    me: Option<String>,
}

/// What the task remembers.
pub ghost struct Memory {
    pub held: Map<Seq<char>, u64>,
    pub wanted: Map<Seq<char>, i64>,
    pub stale: Map<Seq<char>, i64>,
    pub me: Option<Seq<char>>,
}

/// `held` with the id in it.
pub open spec fn holding(held: Map<Seq<char>, u64>, id: Seq<char>, now: u64) -> Map<Seq<char>, u64> {
    if held.contains_key(id) {
        held
    } else {
        held.insert(id, now)
    }
}

/// Is the server not asked: the save was refused as stale with this very version?
pub open spec fn still_behind(m: Memory, id: Seq<char>, base: i64) -> bool {
    m.stale.contains_key(id) && m.stale[id] == base
}

/// What an answer to an acquire leaves.
pub open spec fn acquired_as(
    m: Memory,
    id: Seq<char>,
    base: i64,
    answer: Result<Lease, CallError>,
    now: u64,
) -> Memory {
    match answer {
        Ok(_) => Memory {
            held: holding(m.held, id, now),
            wanted: m.wanted.remove(id),
            stale: m.stale.remove(id),
            ..m
        },
        Err(CallError::Api(ApiError::LeaseHeld(_))) => Memory {
            held: m.held.remove(id),
            wanted: m.wanted.remove(id),
            ..m
        },
        Err(CallError::Api(ApiError::LeaseStale { head_version, base_version })) => Memory {
            held: m.held.remove(id),
            wanted: m.wanted.remove(id),
            stale: m.stale.insert(id, base),
            ..m
        },
        Err(e) => if refused(e) is Some {
            Memory { wanted: m.wanted.remove(id), ..m }
        } else {
            Memory { wanted: m.wanted.insert(id, base), ..m }
        },
    }
}

/// What the engine is told of an answer to an acquire.
pub open spec fn acquire_told(
    r: Option<Report>,
    id: Seq<char>,
    answer: Result<Lease, CallError>,
) -> bool {
    match answer {
        Ok(lease) => reports(r, id, LeaseObs::Mine, Some(lease.holder_username), true),
        Err(CallError::Api(ApiError::LeaseHeld(c))) => reports(
            r,
            id,
            LeaseObs::Other,
            match c.lease {
                Some(l) => Some(l.holder_username),
                None => None,
            },
            true,
        ),
        Err(CallError::Api(ApiError::LeaseStale { head_version, base_version })) => reports(
            r,
            id,
            LeaseObs::Free,
            None,
            true,
        ),
        Err(_) => r is None,
    }
}

/// What a release leaves.
pub open spec fn released_as(m: Memory, id: Seq<char>, answer: Result<(), CallError>) -> Memory {
    let dropped = Memory { wanted: m.wanted.remove(id), ..m };
    match answer {
        Ok(_) => Memory { held: m.held.remove(id), ..dropped },
        Err(e) => if refused(e) is Some {
            Memory { held: m.held.remove(id), ..dropped }
        } else {
            dropped
        },
    }
}

/// Is the lease that the server names this account's? Ours only when the server names this
/// account; where the account is not known, what the task holds decides.
pub open spec fn ours(m: Memory, id: Seq<char>, lease: Lease) -> bool {
    match m.me {
        Some(me) => me == lease.holder_user_id@,
        None => m.held.contains_key(id),
    }
}

/// What a refresh leaves.
pub open spec fn refreshed_as(
    m: Memory,
    id: Seq<char>,
    answer: Result<Option<Lease>, CallError>,
    now: u64,
) -> Memory {
    match answer {
        Ok(Some(lease)) => if ours(m, id, lease) {
            Memory { held: holding(m.held, id, now), ..m }
        } else {
            Memory { held: m.held.remove(id), ..m }
        },
        _ => m,
    }
}

/// What the engine is told of a refresh.
pub open spec fn refresh_told(
    r: Option<Report>,
    m: Memory,
    id: Seq<char>,
    answer: Result<Option<Lease>, CallError>,
) -> bool {
    match answer {
        Ok(Some(lease)) => reports(
            r,
            id,
            if ours(m, id, lease) {
                LeaseObs::Mine
            } else {
                LeaseObs::Other
            },
            Some(lease.holder_username),
            false,
        ),
        Ok(None) => reports(r, id, LeaseObs::Free, None, false),
        Err(_) => r is None,
    }
}

/// What a renew asks for next.
#[derive(Debug)]
pub enum Renewed {
    /// Nothing: the lease stands, or nobody knows.
    Kept,
    /// The lease is lost, and the engine is told who holds it now.
    Lost(Report),
    /// The lease is lost, and who holds it now is a second question.
    WhoHolds,
}

impl LeaseTask {
    /// What the task remembers.
    pub closed spec fn view(&self) -> Memory {
        Memory {
            held: self.held@,
            wanted: self.wanted@,
            stale: self.stale@,
            me: match self.me {
                Some(s) => Some(s@),
                None => None,
            },
        }
    }

    /// Each id stands once in what the task remembers.
    pub closed spec fn wf(self) -> bool {
        self.held.wf() && self.wanted.wf() && self.stale.wf()
    }

    /// A task that holds nothing.
    pub fn new() -> (r: Self)
        ensures
            r.wf(),
            r@ == (Memory {
                held: Map::empty(),
                wanted: Map::empty(),
                stale: Map::empty(),
                me: None,
            }),
    {
        LeaseTask { held: IdMap::new(), wanted: IdMap::new(), stale: IdMap::new(), me: None }
    }

    /// Is the server asked for this lease? Not again for the version it was refused as stale with.
    pub fn asks(&self, save_id: &str, base_version: i64) -> (r: bool)
        ensures
            r == !still_behind(self@, save_id@, base_version),
    {
        match self.stale.get(save_id) {
            Some(b) => *b != base_version,
            None => true,
        }
    }

    /// The server's answer to an acquire.
    pub fn acquired(
        &mut self,
        save_id: &str,
        base_version: i64,
        answer: Result<Lease, CallError>,
        now: u64,
    ) -> (r: Option<Report>)
        requires
            old(self).wf(),
        ensures
            final(self).wf(),
            final(self)@ == acquired_as(old(self)@, save_id@, base_version, answer, now),
            acquire_told(r, save_id@, answer),
    {
        match answer {
            Ok(lease) => {
                let _ = self.wanted.remove(save_id);
                let _ = self.stale.remove(save_id);
                self.held.keep(save_id, now);
                report(save_id, LeaseObs::Mine, Some(lease.holder_username), true)
            },
            Err(e) => match &e {
                CallError::Api(ApiError::LeaseHeld(c)) => {
                    let _ = self.wanted.remove(save_id);
                    let _ = self.held.remove(save_id);
                    report(save_id, LeaseObs::Other, c.holder(), true)
                },
                CallError::Api(ApiError::LeaseStale { head_version: _, base_version: _ }) => {
                    let _ = self.wanted.remove(save_id);
                    let _ = self.held.remove(save_id);
                    self.stale.set(save_id, base_version);
                    report(save_id, LeaseObs::Free, None, true)
                },
                _ => {
                    if refusal(&e).is_some() {
                        // A verdict with nothing to hold: not shared, not found, not ours to ask.
                        let _ = self.wanted.remove(save_id);
                    } else {
                        self.wanted.set(save_id, base_version);
                    }
                    None
                },
            },
        }
    }

    /// The server's answer to a release. The retry still queued is dropped first: it would take
    /// back what is given back.
    pub fn released(&mut self, save_id: &str, answer: Result<(), CallError>) -> (r: Option<Report>)
        requires
            old(self).wf(),
        ensures
            final(self).wf(),
            final(self)@ == released_as(old(self)@, save_id@, answer),
            match answer {
                Ok(_) => reports(r, save_id@, LeaseObs::Free, None, false),
                Err(e) => if refused(e) is Some {
                    reports(r, save_id@, LeaseObs::Free, None, false)
                } else {
                    r is None
                },
            },
    {
        let _ = self.wanted.remove(save_id);
        let given = match &answer {
            Ok(_) => true,
            Err(e) => refusal(e).is_some(),
        };
        if !given {
            return None;
        }
        let _ = self.held.remove(save_id);
        report(save_id, LeaseObs::Free, None, false)
    }

    /// Stop asking for the lease: an acquire still retried is dropped and answers nothing.
    pub fn cancel(&mut self, save_id: &str)
        requires
            old(self).wf(),
        ensures
            final(self).wf(),
            final(self)@ == (Memory { wanted: old(self)@.wanted.remove(save_id@), ..old(self)@ }),
    {
        let _ = self.wanted.remove(save_id);
    }

    /// The server's answer to taking a lease off its holder.
    pub fn forced(&self, save_id: &str, answer: Result<(), CallError>) -> (r: Option<Report>)
        ensures
            match answer {
                Ok(_) => reports(r, save_id@, LeaseObs::Free, None, false),
                Err(_) => r is None,
            },
    {
        match answer {
            Ok(_) => report(save_id, LeaseObs::Free, None, false),
            Err(_) => None,
        }
    }

    /// Has the account's id still to be asked for?
    pub fn needs_me(&self) -> (r: bool)
        ensures
            r == (self@.me is None),
    {
        self.me.is_none()
    }

    /// The account's id, where the server gave it.
    pub fn set_me(&mut self, me: Option<String>)
        requires
            old(self).wf(),
        ensures
            final(self).wf(),
            final(self)@ == (if old(self)@.me is Some {
                old(self)@
            } else {
                Memory {
                    me: match me {
                        Some(s) => Some(s@),
                        None => None,
                    },
                    ..old(self)@
                }
            }),
    {
        if self.me.is_none() {
            self.me = me;
        }
    }

    /// The server's answer to who holds the lease.
    pub fn refreshed(
        &mut self,
        save_id: &str,
        answer: Result<Option<Lease>, CallError>,
        now: u64,
    ) -> (r: Option<Report>)
        requires
            old(self).wf(),
        ensures
            final(self).wf(),
            final(self)@ == refreshed_as(old(self)@, save_id@, answer, now),
            refresh_told(r, old(self)@, save_id@, answer),
    {
        match answer {
            Ok(Some(lease)) => {
                let ours = match &self.me {
                    Some(me) => same(me.as_str(), lease.holder_user_id.as_str()),
                    None => self.held.get(save_id).is_some(),
                };
                if ours {
                    // Ours on the server is ours to renew: a lease left by a restart expires
                    // otherwise.
                    self.held.keep(save_id, now);
                    report(save_id, LeaseObs::Mine, Some(lease.holder_username), false)
                } else {
                    let _ = self.held.remove(save_id);
                    report(save_id, LeaseObs::Other, Some(lease.holder_username), false)
                }
            },
            Ok(None) => report(save_id, LeaseObs::Free, None, false),
            Err(_) => None,
        }
    }

    /// The leases to give back on an orderly end: all that are held, and none after that.
    pub fn closing(&mut self) -> (r: Vec<String>)
        requires
            old(self).wf(),
        ensures
            final(self).wf(),
            final(self)@ == (Memory { held: Map::empty(), ..old(self)@ }),
            forall|id: Seq<char>| #[trigger]
                views(r@).contains(id) <==> old(self)@.held.contains_key(id),
            views(r@).no_duplicates(),
    {
        let ids = self.held.ids();
        self.held = IdMap::new();
        ids
    }

    /// The acquires to ask again on the tick.
    pub fn retries(&self) -> (r: Vec<(String, i64)>)
        requires
            self.wf(),
        ensures
            forall|k: int|
                0 <= k < r@.len() ==> self@.wanted.contains_key((#[trigger] r@[k]).0@)
                    && self@.wanted[r@[k].0@] == r@[k].1,
            forall|id: Seq<char>|
                self@.wanted.contains_key(id) ==> exists|k: int|
                    0 <= k < r@.len() && (#[trigger] r@[k]).0@ == id,
            forall|a: int, b: int|
                0 <= a < b < r@.len() ==> (#[trigger] r@[a]).0@ != (#[trigger] r@[b]).0@,
    {
        let ids = self.wanted.ids();
        let mut r: Vec<(String, i64)> = Vec::new();
        let mut i: usize = 0;
        while i < ids.len()
            invariant
                i <= ids@.len(),
                self.wf(),
                forall|id: Seq<char>| #[trigger]
                    views(ids@).contains(id) <==> self@.wanted.contains_key(id),
                r@.len() == i,
                forall|k: int|
                    0 <= k < i ==> (#[trigger] r@[k]).0@ == ids@[k]@ && self@.wanted.contains_key(
                        r@[k].0@,
                    ) && self@.wanted[r@[k].0@] == r@[k].1,
            decreases ids.len() - i,
        {
            let ghost id = ids@[i as int]@;
            assert(views(ids@)[i as int] == id);
            assert(views(ids@).contains(id));
            match self.wanted.get(ids[i].as_str()) {
                Some(base) => {
                    r.push((ids[i].clone(), *base));
                },
                None => {},
            }
            i += 1;
        }
        proof {
            assert forall|id: Seq<char>| self@.wanted.contains_key(id) implies exists|k: int|
                0 <= k < r@.len() && (#[trigger] r@[k]).0@ == id by {
                assert(views(ids@).contains(id));
                let k = choose|k: int| 0 <= k < views(ids@).len() && views(ids@)[k] == id;
                assert(r@[k].0@ == ids@[k]@);
            }
            assert forall|a: int, b: int| 0 <= a < b < r@.len() implies (#[trigger] r@[a]).0@ != (
            #[trigger] r@[b]).0@ by {
                assert(views(ids@)[a] != views(ids@)[b]);
            }
        }
        r
    }

    /// The leases to renew on the tick.
    pub fn renewals(&self) -> (r: Vec<String>)
        requires
            self.wf(),
        ensures
            forall|id: Seq<char>| #[trigger]
                views(r@).contains(id) <==> self@.held.contains_key(id),
            views(r@).no_duplicates(),
    {
        self.held.ids()
    }

    /// The server's answer to a renew. Refused, the lease is dropped; where the refusal does not
    /// say who has it now, that is a second question, and [`Self::lost`] takes its answer.
    pub fn renewed(&mut self, save_id: &str, answer: Result<Lease, CallError>) -> (r: Renewed)
        requires
            old(self).wf(),
        ensures
            final(self).wf(),
            ({
                let verdict: Option<Option<String>> = match answer {
                    Ok(_) => None,
                    Err(e) => refused(e),
                };
                &&& final(self)@ == (match verdict {
                    None => old(self)@,
                    Some(_) => Memory { held: old(self)@.held.remove(save_id@), ..old(self)@ },
                })
                &&& match verdict {
                    None => r is Kept,
                    Some(Some(holder)) => r is Lost && reports(
                        Some(r->Lost_0),
                        save_id@,
                        LeaseObs::Other,
                        Some(holder),
                        false,
                    ),
                    Some(None) => r is WhoHolds,
                }
            }),
    {
        let verdict = match &answer {
            Ok(_) => None,
            Err(e) => refusal(e),
        };
        match verdict {
            None => Renewed::Kept,
            Some(named) => {
                let _ = self.held.remove(save_id);
                match named {
                    Some(holder) => Renewed::Lost(
                        Report {
                            save_id: save_id.to_owned(),
                            lease: LeaseObs::Other,
                            holder: Some(holder),
                            verdict: false,
                        },
                    ),
                    None => Renewed::WhoHolds,
                }
            },
        }
    }

    /// What the engine is told of a lost lease, once the server was asked who holds it now.
    pub fn lost(&self, save_id: &str, answer: Result<Option<Lease>, CallError>) -> (r: Option<
        Report,
    >)
        ensures
            match answer {
                Ok(Some(lease)) => reports(
                    r,
                    save_id@,
                    LeaseObs::Other,
                    Some(lease.holder_username),
                    false,
                ),
                _ => reports(r, save_id@, LeaseObs::Free, None, false),
            },
    {
        match answer {
            Ok(Some(lease)) => report(
                save_id,
                LeaseObs::Other,
                Some(lease.holder_username),
                false,
            ),
            _ => report(save_id, LeaseObs::Free, None, false),
        }
    }
}

// ---- laws

/// A transport error changes nothing but what is retried: what is held stays held, and the next
/// tick asks again.
pub proof fn a_transport_error_keeps_the_last_state(
    m: Memory,
    id: Seq<char>,
    base: i64,
    err: CallError,
    now: u64,
)
    requires
        refused(err) is None,
        !(err matches CallError::Api(ApiError::LeaseStale { .. })),
    ensures
        acquired_as(m, id, base, Err(err), now) == (Memory {
            wanted: m.wanted.insert(id, base),
            ..m
        }),
        released_as(m, id, Err(err)).held == m.held,
        refreshed_as(m, id, Err(err), now) == m,
{
}

/// A release or a cancel drops the retry, whatever the server answers: the next tick does not
/// take the lease back.
pub proof fn what_is_given_back_is_not_asked_for(
    m: Memory,
    id: Seq<char>,
    answer: Result<(), CallError>,
)
    ensures
        !released_as(m, id, answer).wanted.contains_key(id),
{
}

/// Refused as stale, the same version is not asked for again; another one is.
pub proof fn a_stale_version_is_asked_for_once(
    m: Memory,
    id: Seq<char>,
    base: i64,
    head: i64,
    refused_base: i64,
    now: u64,
    other: i64,
)
    ensures
        ({
            let after = acquired_as(
                m,
                id,
                base,
                Err(
                    CallError::Api(
                        ApiError::LeaseStale { head_version: head, base_version: refused_base },
                    ),
                ),
                now,
            );
            &&& still_behind(after, id, base)
            &&& other != base ==> !still_behind(after, id, other)
        }),
{
}

/// What an answer says of one save leaves every other as it was.
pub proof fn saves_do_not_touch_each_other(
    m: Memory,
    id: Seq<char>,
    other: Seq<char>,
    base: i64,
    answer: Result<Lease, CallError>,
    now: u64,
)
    requires
        id != other,
    ensures
        ({
            let after = acquired_as(m, id, base, answer, now);
            &&& after.held.contains_key(other) == m.held.contains_key(other)
            &&& after.wanted.contains_key(other) == m.wanted.contains_key(other)
            &&& after.stale.contains_key(other) == m.stale.contains_key(other)
            &&& m.wanted.contains_key(other) ==> after.wanted[other] == m.wanted[other]
            &&& m.stale.contains_key(other) ==> after.stale[other] == m.stale[other]
        }),
{
}

/// What of an error is a verdict on the lease: somebody else's, by name where the server said it;
/// no longer ours, for a conflict and a save that is not shared, not there or not for us. Anything
/// else, a stale version and a lost connection too, says nothing about who holds it.
pub proof fn which_errors_are_verdicts(err: CallError, r: Option<Option<String>>)
    requires
        call_ensures(refusal, (&err,), r),
    ensures
        err is Other ==> r is None,
        err is Api ==> {
            let e = err->Api_0;
            let bare = e is Conflict || e is NotShared || e is NotFound || e is Forbidden;
            &&& bare ==> r is Some && r->0 is None
            &&& r is Some <==> bare || e is LeaseHeld || e is LeaseRequired
            &&& e matches ApiError::LeaseHeld(c) ==> r == Some(
                if c.lease is Some {
                    Some(c.lease->0.holder_username)
                } else {
                    None
                },
            )
            &&& e matches ApiError::LeaseRequired(c) ==> r == Some(
                if c.lease is Some {
                    Some(c.lease->0.holder_username)
                } else {
                    None
                },
            )
        },
{
}

/// The answer to an acquire. Granted, the lease is held and reported as ours and nothing is left to
/// ask. Held by somebody, it is not held, is reported as theirs with their name, and is not asked
/// again. Stale, it is reported free and the version is remembered. A save that is not there or not
/// ours is dropped without a word; whatever never reached a verdict is asked again with the same
/// version. Each of the first three is a verdict.
pub proof fn an_acquire_is_answered(
    t: &mut LeaseTask,
    save_id: &str,
    base: i64,
    answer: Result<Lease, CallError>,
    now: u64,
    r: Option<Report>,
)
    requires
        call_ensures(LeaseTask::acquired, (t, save_id, base, answer, now), r),
        old(t).wf(),
    ensures
        r is Some ==> r->0.save_id@ == save_id@ && r->0.verdict,
        answer is Ok ==> {
            &&& r is Some && r->0.lease == LeaseObs::Mine && r->0.holder == Some(
                answer->Ok_0.holder_username,
            )
            &&& final(t)@.held.contains_key(save_id@)
            &&& !final(t)@.wanted.contains_key(save_id@)
            &&& !final(t)@.stale.contains_key(save_id@)
            &&& !old(t)@.held.contains_key(save_id@) ==> final(t)@.held[save_id@] == now
            &&& old(t)@.held.contains_key(save_id@) ==> final(t)@.held[save_id@]
                == old(t)@.held[save_id@]
        },
        answer matches Err(CallError::Api(ApiError::LeaseHeld(c))) ==> {
            &&& r is Some && r->0.lease == LeaseObs::Other
            &&& r->0.holder is Some <==> c.lease is Some
            &&& r->0.holder is Some ==> r->0.holder->0@ == c.lease->0.holder_username@
            &&& !final(t)@.held.contains_key(save_id@)
            &&& !final(t)@.wanted.contains_key(save_id@)
        },
        answer matches Err(CallError::Api(ApiError::LeaseStale { .. })) ==> {
            &&& r is Some && r->0.lease == LeaseObs::Free && r->0.holder is None
            &&& !final(t)@.held.contains_key(save_id@)
            &&& !final(t)@.wanted.contains_key(save_id@)
            &&& final(t)@.stale.contains_key(save_id@) && final(t)@.stale[save_id@] == base
        },
        answer matches Err(CallError::Api(e)) ==> {
            &&& e is Conflict || e is NotShared || e is NotFound || e is Forbidden || e is LeaseRequired
                ==> r is None && !final(t)@.wanted.contains_key(save_id@) && final(t)@.held
                == old(t)@.held
            &&& e is Network || e is Server || e is RateLimited || e is Unauthorized ==> r is None
                && final(t)@.wanted.contains_key(save_id@) && final(t)@.wanted[save_id@] == base
                && final(t)@.held == old(t)@.held
        },
        answer matches Err(CallError::Other) ==> r is None && final(t)@.wanted.contains_key(
            save_id@,
        ) && final(t)@.wanted[save_id@] == base && final(t)@.held == old(t)@.held,
        final(t)@.me == old(t)@.me,
{
}

/// The answer to a release: given back, or refused because it is not ours any more, the lease is
/// free and no longer held; with no verdict it is still held. Either way it is not asked for again.
pub proof fn a_release_is_answered(
    t: &mut LeaseTask,
    c: &mut LeaseTask,
    save_id: &str,
    answer: Result<(), CallError>,
    r: Option<Report>,
)
    requires
        call_ensures(LeaseTask::released, (t, save_id, answer), r),
        call_ensures(LeaseTask::cancel, (c, save_id), ()),
        old(t).wf(),
        old(c).wf(),
    ensures
        !final(t)@.wanted.contains_key(save_id@),
        !final(c)@.wanted.contains_key(save_id@),
        final(c)@.held == old(c)@.held,
        r is Some ==> r->0.save_id@ == save_id@ && r->0.lease == LeaseObs::Free
            && r->0.holder is None && !r->0.verdict,
        answer is Ok ==> r is Some && !final(t)@.held.contains_key(save_id@),
        answer matches Err(CallError::Other) ==> r is None && final(t)@.held == old(t)@.held,
        answer matches Err(CallError::Api(e)) ==> {
            &&& e is NotFound || e is Conflict || e is NotShared || e is Forbidden ==> r is Some
                && !final(t)@.held.contains_key(save_id@)
            &&& e is Network || e is Server ==> r is None && final(t)@.held == old(t)@.held
        },
        final(t)@.stale == old(t)@.stale,
{
}

/// A force that went through frees the lease and one that did not says nothing. A refused renewal
/// loses the lease: to whom the server named, or to whom it names when asked; free where it names
/// nobody. An unanswered renewal keeps it.
pub proof fn losing_a_lease(
    t: &mut LeaseTask,
    s: LeaseTask,
    save_id: &str,
    answer: Result<Lease, CallError>,
    r: Renewed,
    asked: Result<Option<Lease>, CallError>,
    told: Option<Report>,
    force: Result<(), CallError>,
    forced: Option<Report>,
)
    requires
        call_ensures(LeaseTask::renewed, (t, save_id, answer), r),
        call_ensures(LeaseTask::lost, (&s, save_id, asked), told),
        call_ensures(LeaseTask::forced, (&s, save_id, force), forced),
        old(t).wf(),
    ensures
        answer is Ok ==> r is Kept && final(t)@ == old(t)@,
        answer matches Err(CallError::Other) ==> r is Kept && final(t)@ == old(t)@,
        answer matches Err(CallError::Api(e)) ==> {
            &&& e is Network || e is Server ==> r is Kept && final(t)@ == old(t)@
            &&& e is NotFound || e is Conflict || e is NotShared || e is Forbidden ==> r is WhoHolds
                && !final(t)@.held.contains_key(save_id@)
            &&& e matches ApiError::LeaseHeld(c) ==> !final(t)@.held.contains_key(save_id@) && (
            c.lease is Some ==> r is Lost && r->Lost_0.lease == LeaseObs::Other
                && r->Lost_0.holder == Some(c.lease->0.holder_username) && r->Lost_0.save_id@
                == save_id@ && !r->Lost_0.verdict)
        },
        told is Some && told->0.save_id@ == save_id@ && !told->0.verdict,
        asked matches Ok(Some(l)) ==> told->0.lease == LeaseObs::Other && told->0.holder == Some(
            l.holder_username,
        ),
        asked matches Ok(None) ==> told->0.lease == LeaseObs::Free && told->0.holder is None,
        asked is Err ==> told->0.lease == LeaseObs::Free && told->0.holder is None,
        forced is Some <==> force is Ok,
        forced is Some ==> forced->0.lease == LeaseObs::Free && forced->0.holder is None
            && !forced->0.verdict && forced->0.save_id@ == save_id@,
{
}

/// A refresh reads the server: a lease that names this account is ours and is kept alive from here
/// on, one that names another is theirs and is not, no lease is free. Nothing of it is a verdict.
/// The account's id, once known, stays.
pub proof fn a_refresh_reads_the_server(
    t: &mut LeaseTask,
    u: &mut LeaseTask,
    save_id: &str,
    answer: Result<Option<Lease>, CallError>,
    now: u64,
    r: Option<Report>,
    me: Option<String>,
    needs: bool,
)
    requires
        call_ensures(LeaseTask::refreshed, (t, save_id, answer, now), r),
        call_ensures(LeaseTask::set_me, (u, me), ()),
        call_ensures(LeaseTask::needs_me, (&*final(u),), needs),
        old(t).wf(),
        old(u).wf(),
    ensures
        r is Some <==> answer is Ok,
        r is Some ==> r->0.save_id@ == save_id@ && !r->0.verdict,
        answer matches Ok(None) ==> r->0.lease == LeaseObs::Free && r->0.holder is None
            && final(t)@ == old(t)@,
        answer is Err ==> final(t)@ == old(t)@,
        answer matches Ok(Some(l)) ==> {
            let mine = if old(t)@.me is Some {
                old(t)@.me->0 == l.holder_user_id@
            } else {
                old(t)@.held.contains_key(save_id@)
            };
            &&& r->0.lease == (if mine {
                LeaseObs::Mine
            } else {
                LeaseObs::Other
            })
            &&& r->0.holder == Some(l.holder_username)
            &&& final(t)@.held.contains_key(save_id@) <==> mine
        },
        final(t)@.wanted == old(t)@.wanted && final(t)@.stale == old(t)@.stale,
        old(u)@.me is Some ==> final(u)@.me == old(u)@.me,
        old(u)@.me is None ==> (final(u)@.me is Some <==> me is Some),
        old(u)@.me is None && me is Some ==> final(u)@.me == Some(me->0@),
        needs <==> final(u)@.me is None,
        final(u)@.held == old(u)@.held && final(u)@.wanted == old(u)@.wanted,
{
}

/// Asked again is what was never answered, with its version; renewed is what is held; on an orderly
/// end all that is held is given back and nothing is held after. A version that was refused as stale
/// is the only one that is not asked for.
pub proof fn the_tick_goes_by_memory(
    t: LeaseTask,
    c: &mut LeaseTask,
    again: Vec<(String, i64)>,
    renew: Vec<String>,
    back: Vec<String>,
    save_id: &str,
    base: i64,
    asks: bool,
    fresh: LeaseTask,
    k: int,
)
    requires
        t.wf(),
        old(c).wf(),
        call_ensures(LeaseTask::retries, (&t,), again),
        call_ensures(LeaseTask::renewals, (&t,), renew),
        call_ensures(LeaseTask::closing, (c,), back),
        call_ensures(LeaseTask::asks, (&t, save_id, base), asks),
        call_ensures(LeaseTask::new, (), fresh),
    ensures
        0 <= k < again@.len() ==> t@.wanted.contains_key(again@[k].0@) && t@.wanted[again@[k].0@]
            == again@[k].1,
        t@.wanted.contains_key(save_id@) ==> exists|i: int|
            0 <= i < again@.len() && (#[trigger] again@[i]).0@ == save_id@,
        views(renew@).contains(save_id@) <==> t@.held.contains_key(save_id@),
        views(back@).contains(save_id@) <==> old(c)@.held.contains_key(save_id@),
        !final(c)@.held.contains_key(save_id@),
        final(c)@.wanted == old(c)@.wanted,
        asks <==> !(t@.stale.contains_key(save_id@) && t@.stale[save_id@] == base),
        !fresh@.held.contains_key(save_id@) && !fresh@.wanted.contains_key(save_id@)
            && !fresh@.stale.contains_key(save_id@) && fresh@.me is None,
{
}

} // verus!
