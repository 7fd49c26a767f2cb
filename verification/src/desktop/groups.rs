//! Groups, shares and world leases, as a client of the service. The conflict codes that the server
//! uses reach the interface as keys of sentences, so that a dialog reads as one.

use vstd::prelude::*;

use crate::agent::api::IpcError;
use crate::agent::slot::WorldLease;
use crate::cli::output::{Cause, Failure};
#[allow(unused_imports)]
use crate::cli::world::from_here;
use crate::cli::world::{same_device, AgentSlotStatus, DaemonStatus};
use crate::text::same;
use crate::wire::Lease;

verus! {

/// An error as the interface shows it: the keys of its title and its message, or the message
/// itself, and more on it where there is more.
#[derive(Debug)]
pub struct AppError {
    pub title: &'static str,
    pub message: String,
    pub detail: Option<String>,
}

/// The lease as the card draws it: the server's row, and whether this machine is the holder.
#[derive(Debug)]
pub struct LeaseView {
    pub lease: Option<Lease>,
    pub here: bool,
}

/// The key of the sentence for a conflict.
pub open spec fn sentence(code: Seq<char>) -> Option<Seq<char>> {
    if code == "held"@ {
        Some("lease.err_held"@)
    } else if code == "stale"@ {
        Some("lease.err_stale"@)
    } else if code == "lease_required"@ {
        Some("lease.err_required"@)
    } else if code == "not_shared"@ {
        Some("share.err_not_shared"@)
    } else if code == "already_shared"@ {
        Some("share.err_already_shared"@)
    } else if code == "lease_held"@ {
        Some("share.err_lease_held"@)
    } else if code == "pushed"@ {
        Some("lease.err_pushed"@)
    } else if code == "not_holder"@ {
        Some("lease.err_not_holder"@)
    } else if code == "not_held"@ {
        Some("lease.err_not_held"@)
    } else {
        None
    }
}

/// The key of the sentence that the user reads for a conflict's code.
pub fn conflict_key(code: &str) -> (r: Option<&'static str>)
    ensures
        r is Some == sentence(code@) is Some,
        r is Some ==> sentence(code@) == Some(r->0@),
{
    if same(code, "held") {
        Some("lease.err_held")
    } else if same(code, "stale") {
        Some("lease.err_stale")
    } else if same(code, "lease_required") {
        Some("lease.err_required")
    } else if same(code, "not_shared") {
        Some("share.err_not_shared")
    } else if same(code, "already_shared") {
        Some("share.err_already_shared")
    } else if same(code, "lease_held") {
        Some("share.err_lease_held")
    } else if same(code, "pushed") {
        Some("lease.err_pushed")
    } else if same(code, "not_holder") {
        Some("lease.err_not_holder")
    } else if same(code, "not_held") {
        Some("lease.err_not_held")
    } else {
        None
    }
}

/// Does the error say this?
pub open spec fn says(e: AppError, message: Seq<char>, detail: Option<Seq<char>>) -> bool {
    &&& e.title@ == "groups.err_title"@
    &&& e.message@ == message
    &&& match e.detail {
        Some(d) => detail == Some(d@),
        None => detail is None,
    }
}

fn say(message: String, detail: Option<String>) -> (r: AppError)
    ensures
        says(
            r,
            message@,
            match detail {
                Some(d) => Some(d@),
                None => None,
            },
        ),
{
    AppError { title: "groups.err_title", message, detail }
}

/// Is this how the failure is shown?
pub open spec fn shown_as(e: AppError, f: Failure) -> bool {
    match f.cause {
        Cause::Ipc(IpcError::Conflict { code, message }) => match sentence(code@) {
            Some(key) => says(e, key, Some(message@)),
            None => says(e, message@, None),
        },
        Cause::Ipc(IpcError::Invalid { message }) => says(e, message@, None),
        Cause::Ipc(IpcError::EngineDown { reason, kind }) => says(
            e,
            "groups.err_engine_down"@,
            Some(reason@),
        ),
        _ => says(e, "groups.err_generic"@, Some(f.line())),
    }
}

/// A failure as the interface shows it. A conflict's code becomes the key of a sentence; unknown
/// codes fall back to the server's own message.
pub fn map_err(f: &Failure) -> (r: AppError)
    ensures
        shown_as(r, *f),
{
    match &f.cause {
        Cause::Ipc(IpcError::Conflict { code, message }) => match conflict_key(code.as_str()) {
            Some(key) => say(key.to_owned(), Some(message.clone())),
            None => say(message.clone(), None),
        },
        Cause::Ipc(IpcError::Invalid { message }) => say(message.clone(), None),
        Cause::Ipc(IpcError::EngineDown { reason, kind: _ }) => say(
            "groups.err_engine_down".to_owned(),
            Some(reason.clone()),
        ),
        _ => say("groups.err_generic".to_owned(), Some(f.message())),
    }
}

/// An answer that does not fit the request, as the interface shows it. `answer` is what it looked
/// like.
pub fn unexpected(what: &str, answer: &str) -> (r: AppError)
    ensures
        says(
            r,
            "groups.err_generic"@,
            Some("unexpected answer to "@ + what@ + ": "@ + answer@),
        ),
{
    let mut s = "unexpected answer to ".to_owned();
    s.append(what);
    s.append(": ");
    s.append(answer);
    assert(s@ =~= "unexpected answer to "@ + what@ + ": "@ + answer@);
    say("groups.err_generic".to_owned(), Some(s))
}

/// The lease of the first slot with this id.
pub open spec fn slot_lease(slots: Seq<AgentSlotStatus>, id: Seq<char>) -> Option<WorldLease>
    decreases slots.len(),
{
    if slots.len() == 0 {
        None
    } else if slots[0].save_id@ == id {
        slots[0].lease
    } else {
        slot_lease(slots.skip(1), id)
    }
}

fn engine_lease(status: &DaemonStatus, save_id: &str) -> (r: Option<WorldLease>)
    ensures
        r == slot_lease(status.slots@, save_id@),
{
    let mut i: usize = 0;
    assert(status.slots@.skip(0) =~= status.slots@);
    while i < status.slots.len()
        invariant
            i <= status.slots@.len(),
            slot_lease(status.slots@, save_id@) == slot_lease(
                status.slots@.skip(i as int),
                save_id@,
            ),
        decreases status.slots.len() - i,
    {
        assert(status.slots@.skip(i as int)[0] == status.slots@[i as int]);
        assert(status.slots@.skip(i as int).skip(1) =~= status.slots@.skip(i + 1));
        if same(status.slots[i].save_id.as_str(), save_id) {
            return status.slots[i].lease;
        }
        i += 1;
    }
    None
}

/// Is a lease held by this machine?
pub open spec fn held_by_machine(
    lease: Lease,
    engine: Option<WorldLease>,
    my_fp: Seq<char>,
) -> bool {
    match engine {
        Some(WorldLease::Mine) => true,
        Some(WorldLease::Other) => false,
        _ => from_here(lease, my_fp),
    }
}

/// The lease as the card draws it. The engine decides once it knows who holds the lease; while its
/// slot reads unknown or free, or it has none, the fingerprint on the lease says.
pub fn lease_view(
    save_id: &str,
    lease: Option<Lease>,
    status: Option<&DaemonStatus>,
    my_fp: &str,
) -> (r: LeaseView)
    ensures
        r.lease == lease,
        r.here == (lease is Some && held_by_machine(
            lease->0,
            match status {
                Some(s) => slot_lease(s.slots@, save_id@),
                None => None,
            },
            my_fp@,
        )),
{
    let engine = match status {
        Some(s) => engine_lease(s, save_id),
        None => None,
    };
    let here = match &lease {
        Some(l) => match engine {
            Some(WorldLease::Mine) => true,
            Some(WorldLease::Other) => false,
            _ => same_device(l, my_fp),
        },
        None => false,
    };
    LeaseView { lease, here }
}


// ---- laws

/// Each conflict has a sentence of its own; what is no known conflict has none.
pub proof fn each_conflict_has_its_sentence(code: &str, r: Option<&'static str>)
    requires
        call_ensures(conflict_key, (code,), r),
    ensures
        code@ == "held"@ ==> r is Some && r->0@ == "lease.err_held"@,
        code@ == "stale"@ ==> r is Some && r->0@ == "lease.err_stale"@,
        code@ == "lease_required"@ ==> r is Some && r->0@ == "lease.err_required"@,
        code@ == "not_shared"@ ==> r is Some && r->0@ == "share.err_not_shared"@,
        code@ == "already_shared"@ ==> r is Some && r->0@ == "share.err_already_shared"@,
        code@ == "lease_held"@ ==> r is Some && r->0@ == "share.err_lease_held"@,
        code@ == "pushed"@ ==> r is Some && r->0@ == "lease.err_pushed"@,
        code@ == "not_holder"@ ==> r is Some && r->0@ == "lease.err_not_holder"@,
        code@ == "not_held"@ ==> r is Some && r->0@ == "lease.err_not_held"@,
        r is Some ==> code@ == "held"@ || code@ == "stale"@ || code@ == "lease_required"@ || code@
            == "not_shared"@ || code@ == "already_shared"@ || code@ == "lease_held"@ || code@
            == "pushed"@ || code@ == "not_holder"@ || code@ == "not_held"@,
{
    reveal_strlit("held");
    reveal_strlit("stale");
    reveal_strlit("lease_required");
    reveal_strlit("not_shared");
    reveal_strlit("already_shared");
    reveal_strlit("lease_held");
    reveal_strlit("pushed");
    reveal_strlit("not_holder");
    reveal_strlit("not_held");
    assert("held"@.len() == 4 && "stale"@.len() == 5 && "lease_required"@.len() == 14
        && "not_shared"@.len() == 10 && "already_shared"@.len() == 14 && "lease_held"@.len() == 10
        && "pushed"@.len() == 6 && "not_holder"@.len() == 10 && "not_held"@.len() == 8);
    assert("lease_required"@[0] == 'l' && "already_shared"@[0] == 'a');
    assert("not_shared"@[4] == 's' && "lease_held"@[4] == 'e' && "not_holder"@[4] == 'h');
}

/// How a failure is shown: a conflict by its sentence, with the server's words below; an unknown one
/// and a refused request by the words alone; an engine that is down with its reason; the rest by
/// the whole line.
pub proof fn a_failure_is_shown(f: Failure, r: AppError, code: &str, key: Option<&'static str>, m: String)
    requires
        call_ensures(map_err, (&f,), r),
        call_ensures(conflict_key, (code,), key),
        call_ensures(Failure::message, (&f,), m),
    ensures
        r.title@ == "groups.err_title"@,
        f.cause matches Cause::Ipc(IpcError::Conflict { code: c, message }) ==> c@ == code@ ==> {
            &&& key is Some ==> r.message@ == key->0@ && r.detail is Some && r.detail->0@
                == message@
            &&& key is None ==> r.message@ == message@ && r.detail is None
        },
        f.cause matches Cause::Ipc(IpcError::Invalid { message }) ==> r.message@ == message@
            && r.detail is None,
        f.cause matches Cause::Ipc(IpcError::EngineDown { reason, kind }) ==> r.message@
            == "groups.err_engine_down"@ && r.detail is Some && r.detail->0@ == reason@,
        f.cause is Api || f.cause is Other || f.cause is Coded ==> r.message@
            == "groups.err_generic"@ && r.detail is Some && r.detail->0@ == m@,
{
}

/// An answer to something else is shown as such.
pub proof fn an_odd_answer_is_shown(what: &str, answer: &str, r: AppError)
    requires
        call_ensures(unexpected, (what, answer), r),
    ensures
        r.title@ == "groups.err_title"@ && r.message@ == "groups.err_generic"@,
        r.detail is Some && r.detail->0@ == "unexpected answer to "@ + what@ + ": "@ + answer@,
{
}

proof fn slot_lease_is(slots: Seq<AgentSlotStatus>, id: Seq<char>, i: int)
    requires
        0 <= i < slots.len(),
        slots[i].save_id@ == id,
        forall|k: int| 0 <= k < i ==> (#[trigger] slots[k]).save_id@ != id,
    ensures
        slot_lease(slots, id) == slots[i].lease,
    decreases i,
{
    if i > 0 {
        let rest = slots.skip(1);
        assert(slots[0].save_id@ != id);
        assert(rest[i - 1] == slots[i]);
        assert forall|k: int| 0 <= k < i - 1 implies (#[trigger] rest[k]).save_id@ != id by {
            assert(rest[k] == slots[k + 1]);
        }
        slot_lease_is(rest, id, i - 1);
    }
}

/// Whose a lease is: the slot's word counts where it has one, mine or another's; without one the
/// fingerprint on the lease says. A save that nobody holds is not held here.
pub proof fn a_card_says_whose_lease_it_is(
    save_id: &str,
    lease: Lease,
    status: DaemonStatus,
    my_fp: &str,
    r: LeaseView,
    alone: LeaseView,
    free: LeaseView,
    i: int,
)
    requires
        call_ensures(lease_view, (save_id, Some(lease), Some(&status), my_fp), r),
        call_ensures(lease_view, (save_id, Some(lease), None, my_fp), alone),
        call_ensures(lease_view, (save_id, None, Some(&status), my_fp), free),
        0 <= i < status.slots@.len(),
        status.slots@[i].save_id@ == save_id@,
        forall|k: int| 0 <= k < i ==> (#[trigger] status.slots@[k]).save_id@ != save_id@,
    ensures
        r.lease == Some(lease) && alone.lease == Some(lease) && free.lease is None,
        status.slots@[i].lease == Some(WorldLease::Mine) ==> r.here,
        status.slots@[i].lease == Some(WorldLease::Other) ==> !r.here,
        status.slots@[i].lease != Some(WorldLease::Mine) && status.slots@[i].lease != Some(
            WorldLease::Other,
        ) ==> r.here == alone.here,
        alone.here == from_here(lease, my_fp@),
        !free.here,
{
    slot_lease_is(status.slots@, save_id@, i);
}

} // verus!
