//! The lease task: what it remembers of the answers it gets.

use hoard::agent::api::{ApiError, CallError, LeaseConflict};
use hoard::agent::idmap::IdMap;
use hoard::agent::lease::{refusal, LeaseTask, Renewed, Report};
use hoard::agent::slot::LeaseObs;
use hoard::clock::Moment;
use hoard::wire::Lease;

fn lease(holder: &str) -> Lease {
    Lease {
        save_id: "w1".into(),
        holder_user_id: format!("id-{holder}"),
        holder_username: holder.into(),
        holder_device_fp: None,
        acquired_at: Moment::utc(0),
        renewed_at: Moment::utc(0),
        base_version: 1,
        pushed_since: false,
        live: true,
    }
}

fn conflict(holder: Option<&str>) -> LeaseConflict {
    LeaseConflict {
        code: "held".into(),
        error: String::new(),
        lease: holder.map(lease),
    }
}

fn held_by(holder: &str) -> CallError {
    CallError::Api(ApiError::LeaseHeld(conflict(Some(holder))))
}

fn not_holder() -> CallError {
    CallError::Api(ApiError::Conflict(
        "you do not hold a live lease on this save".into(),
    ))
}

fn stale(head: i64, base: i64) -> CallError {
    CallError::Api(ApiError::LeaseStale {
        head_version: head,
        base_version: base,
    })
}

fn told(r: Option<Report>) -> Option<(String, LeaseObs, Option<String>, bool)> {
    r.map(|r| (r.save_id, r.lease, r.holder, r.verdict))
}

fn said(
    id: &str,
    lease: LeaseObs,
    holder: Option<&str>,
    verdict: bool,
) -> Option<(String, LeaseObs, Option<String>, bool)> {
    Some((id.into(), lease, holder.map(String::from), verdict))
}

#[test]
fn an_acquired_lease_is_mine_and_gets_renewed() {
    let mut t = LeaseTask::new();
    assert!(t.asks("w1", 1));
    assert_eq!(
        told(t.acquired("w1", 1, Ok(lease("me")), 0)),
        said("w1", LeaseObs::Mine, Some("me"), true)
    );
    assert_eq!(t.renewals(), ["w1"]);
    // A good renew is quiet.
    assert!(matches!(t.renewed("w1", Ok(lease("me"))), Renewed::Kept));
    assert_eq!(t.renewals(), ["w1"]);
}

#[test]
fn a_held_refusal_names_the_holder_and_holds_nothing() {
    let mut t = LeaseTask::new();
    assert_eq!(
        told(t.acquired("w1", 1, Err(held_by("bob")), 0)),
        said("w1", LeaseObs::Other, Some("bob"), true)
    );
    assert!(t.renewals().is_empty(), "nothing to renew");
    assert!(t.retries().is_empty());
}

#[test]
fn a_refused_renew_drops_the_lease_and_says_who_has_it() {
    let mut t = LeaseTask::new();
    t.acquired("w1", 1, Ok(lease("me")), 0);
    assert!(matches!(t.renewed("w1", Err(not_holder())), Renewed::WhoHolds));
    assert_eq!(
        told(t.lost("w1", Ok(Some(lease("bob"))))),
        said("w1", LeaseObs::Other, Some("bob"), false)
    );
    assert!(t.renewals().is_empty(), "dropped from the map");
    // A refusal that names the holder needs no second question.
    t.acquired("w1", 1, Ok(lease("me")), 0);
    let Renewed::Lost(r) = t.renewed("w1", Err(held_by("carol"))) else {
        panic!("lost");
    };
    assert_eq!(
        told(Some(r)),
        said("w1", LeaseObs::Other, Some("carol"), false)
    );
}

#[test]
fn a_refused_renew_with_nobody_holding_reads_free() {
    let mut t = LeaseTask::new();
    t.acquired("w1", 1, Ok(lease("me")), 0);
    assert!(matches!(t.renewed("w1", Err(not_holder())), Renewed::WhoHolds));
    assert_eq!(
        told(t.lost("w1", Ok(None))),
        said("w1", LeaseObs::Free, None, false)
    );
    assert_eq!(
        told(t.lost("w1", Err(CallError::Other))),
        said("w1", LeaseObs::Free, None, false)
    );
}

#[test]
fn a_transport_error_keeps_the_last_state() {
    let mut t = LeaseTask::new();
    assert!(t.acquired("w1", 1, Err(CallError::Other), 0).is_none());
    // The failed acquire is the task's to retry on its tick.
    assert_eq!(t.retries(), [("w1".to_string(), 1)]);
    assert!(t.acquired("w1", 1, Ok(lease("me")), 0).is_some());
    assert!(t.retries().is_empty());
    assert!(matches!(t.renewed("w1", Err(CallError::Other)), Renewed::Kept));
    assert_eq!(t.renewals(), ["w1"], "still held, still renewed");
    assert!(t.released("w1", Err(CallError::Other)).is_none());
    assert_eq!(t.renewals(), ["w1"], "kept");
    assert!(t.refreshed("w1", Err(CallError::Other), 0).is_none());
}

#[test]
fn release_and_force_read_free() {
    let mut t = LeaseTask::new();
    t.acquired("w1", 1, Ok(lease("me")), 0);
    assert_eq!(
        told(t.released("w1", Ok(()))),
        said("w1", LeaseObs::Free, None, false)
    );
    assert!(t.renewals().is_empty());
    // Not ours any more is as good as given back.
    t.acquired("w1", 1, Ok(lease("me")), 0);
    assert_eq!(
        told(t.released("w1", Err(not_holder()))),
        said("w1", LeaseObs::Free, None, false)
    );
    assert_eq!(
        told(t.forced("w2", Ok(()))),
        said("w2", LeaseObs::Free, None, false)
    );
    assert!(t.forced("w2", Err(not_holder())).is_none());
}

#[test]
fn a_refresh_reads_the_servers_answer() {
    let mut t = LeaseTask::new();
    assert!(t.needs_me());
    t.set_me(Some("id-me".into()));
    assert!(!t.needs_me());
    assert_eq!(
        told(t.refreshed("w1", Ok(Some(lease("bob"))), 0)),
        said("w1", LeaseObs::Other, Some("bob"), false)
    );
    assert_eq!(
        told(t.refreshed("w1", Ok(None), 0)),
        said("w1", LeaseObs::Free, None, false)
    );
    t.acquired("w1", 1, Ok(lease("me")), 0);
    assert_eq!(
        told(t.refreshed("w1", Ok(Some(lease("me"))), 0)).unwrap().1,
        LeaseObs::Mine
    );
}

#[test]
fn closing_releases_every_held_lease() {
    let mut t = LeaseTask::new();
    t.acquired("w1", 1, Ok(lease("me")), 0);
    t.acquired("w2", 1, Ok(lease("me")), 0);
    let mut released = t.closing();
    released.sort();
    assert_eq!(released, ["w1", "w2"]);
    assert!(t.renewals().is_empty());
}

/// Refused as stale, the task asks the server once per head.
#[test]
fn a_stale_acquire_is_asked_once_per_head() {
    let mut t = LeaseTask::new();
    assert_eq!(
        told(t.acquired("w1", 1, Err(stale(2, 1)), 0)),
        said("w1", LeaseObs::Free, None, true)
    );
    assert!(!t.asks("w1", 1), "not asked again for the same head");
    assert!(t.asks("w1", 2));
    assert!(t.asks("w2", 1));
    t.acquired("w1", 2, Ok(lease("me")), 0);
    assert!(t.asks("w1", 1), "held once, the old refusal is forgotten");
}

#[test]
fn an_unanswered_acquire_is_retried_on_the_tick() {
    let mut t = LeaseTask::new();
    t.acquired("w1", 1, Err(CallError::Other), 0);
    t.acquired("w1", 2, Err(CallError::Other), 0);
    t.acquired("w2", 5, Err(CallError::Other), 0);
    let mut retries = t.retries();
    retries.sort();
    assert_eq!(retries, [("w1".to_string(), 2), ("w2".to_string(), 5)]);
}

#[test]
fn a_release_or_cancel_drops_the_acquire_waiting_for_the_tick() {
    let mut t = LeaseTask::new();
    t.acquired("w1", 1, Err(CallError::Other), 0);
    t.cancel("w1");
    assert!(t.retries().is_empty());
    t.acquired("w1", 1, Err(CallError::Other), 0);
    t.released("w1", Err(CallError::Other));
    assert!(t.retries().is_empty(), "whatever the server answered");
}

#[test]
fn a_refresh_that_reads_mine_is_renewed() {
    let mut t = LeaseTask::new();
    t.set_me(Some("id-me".into()));
    assert_eq!(
        told(t.refreshed("w1", Ok(Some(lease("me"))), 0)),
        said("w1", LeaseObs::Mine, Some("me"), false)
    );
    assert_eq!(t.renewals(), ["w1"]);
}

/// A refresh reads mine only when the server names this account, whatever the task still thinks it
/// holds.
#[test]
fn a_refresh_names_mine_only_for_this_account() {
    let mut t = LeaseTask::new();
    t.acquired("w1", 1, Ok(lease("me")), 0);
    // The account is not known yet: what the task holds decides.
    assert_eq!(
        told(t.refreshed("w1", Ok(Some(lease("bob"))), 0)).unwrap().1,
        LeaseObs::Mine
    );
    t.set_me(Some("id-me".into()));
    assert_eq!(
        told(t.refreshed("w1", Ok(Some(lease("bob"))), 0)),
        said("w1", LeaseObs::Other, Some("bob"), false)
    );
    assert!(t.renewals().is_empty());
    assert_eq!(
        told(t.refreshed("w1", Ok(Some(lease("me"))), 0)),
        said("w1", LeaseObs::Mine, Some("me"), false)
    );
}

#[test]
fn a_refusal_is_told_from_a_stumble() {
    assert_eq!(refusal(&held_by("bob")), Some(Some("bob".into())));
    assert_eq!(
        refusal(&CallError::Api(ApiError::LeaseRequired(conflict(None)))),
        Some(None)
    );
    for e in [
        ApiError::Conflict("x".into()),
        ApiError::NotShared,
        ApiError::NotFound,
        ApiError::Forbidden,
    ] {
        assert_eq!(refusal(&CallError::Api(e)), Some(None));
    }
    for e in [
        ApiError::Unauthorized,
        ApiError::Network("down".into()),
        ApiError::Archived,
    ] {
        assert_eq!(refusal(&CallError::Api(e)), None);
    }
    assert_eq!(refusal(&CallError::Other), None);
    // Refused with nothing to hold: nothing is told, and nothing is retried.
    let mut t = LeaseTask::new();
    assert!(t
        .acquired("w1", 1, Err(CallError::Api(ApiError::NotShared)), 0)
        .is_none());
    assert!(t.retries().is_empty());
}

#[test]
fn values_are_kept_by_id() {
    let mut m: IdMap<i64> = IdMap::new();
    m.set("a", 1);
    m.set("b", 2);
    m.set("a", 3);
    m.keep("b", 9);
    m.keep("c", 4);
    assert_eq!((m.get("a"), m.get("b"), m.get("c")), (Some(&3), Some(&2), Some(&4)));
    assert_eq!(m.remove("a"), Some(3));
    assert_eq!(m.remove("a"), None);
    let mut ids = m.ids();
    ids.sort();
    assert_eq!(ids, ["b", "c"]);
}
