//! `hoard world`.

use hoard::agent::api::ApiError;
use hoard::agent::slot::{WorldLease, WorldRole};
use hoard::cli::output::{classify, Cause, Failure};
use hoard::cli::world::{
    self, behind, detail, held_here, host, human_line, outcome_of, seen, start, this_account,
    lease_lines, settled, timed_out, verdict_of, AgentSlotStatus, Answer, CachedUser, DaemonStatus, Host, Hosts, LeaseOut,
    Outcome, Request, Seen, Stage, Step, Verb, Verdict, Wait, Watch, WorldCommand, WorldOut,
};
use hoard::clock::Moment;
use hoard::wire::Lease;

/// The next step, for an answer that prints as it is.
fn next(verb: Verb, answer: Answer, my_fp: &str, me: Option<&str>) -> Step {
    let printed = format!("{answer:?}");
    world::next(verb, answer, &printed, my_fp, me)
}

fn lease(fp: Option<&str>, live: bool) -> Lease {
    Lease {
        save_id: "s1".into(),
        holder_user_id: "u2".into(),
        holder_username: "alice".into(),
        holder_device_fp: fp.map(String::from),
        acquired_at: Moment::utc(0),
        renewed_at: Moment::utc(0),
        base_version: 4,
        pushed_since: false,
        live,
    }
}

fn verdict<const N: usize>(looks: [Seen; N]) -> Verdict {
    verdict_of(Wait::claiming(), looks.into_iter().collect())
}

fn other(holder: &str, pushed: bool) -> Seen {
    Seen::Other {
        holder: holder.into(),
        pushed,
    }
}

fn held(holder: &str, pushed: bool) -> Verdict {
    Verdict::Held {
        holder: holder.into(),
        pushed,
    }
}

fn slot(id: &str, lease: Option<WorldLease>, holder: Option<&str>) -> AgentSlotStatus {
    AgentSlotStatus {
        save_id: id.into(),
        lease,
        lease_holder: holder.map(String::from),
        lease_behind: false,
    }
}

#[test]
fn a_live_lease_on_this_machine_is_hosted_here() {
    assert_eq!(
        host(WorldLease::Mine, None),
        Host {
            cell: "hosted here".into(),
            lease: "mine"
        }
    );
    // The engine's verdict wins over the fingerprint, both ways.
    let l = lease(Some("fp-them"), true);
    assert!(held_here(&l, Some(WorldLease::Mine), "fp-me", Some("u2")));
    let l = lease(Some("fp-me"), true);
    assert!(!held_here(&l, Some(WorldLease::Other), "fp-me", Some("u2")));
    // With no slot the fingerprint decides.
    assert!(held_here(&l, None, "fp-me", Some("u2")));
    // Just restarted, the engine has not heard who holds it: the fingerprint still says, either way.
    assert!(held_here(&l, Some(WorldLease::Unknown), "fp-me", Some("u2")));
    assert!(held_here(&l, Some(WorldLease::Free), "fp-me", Some("u2")));
    assert!(!held_here(&l, Some(WorldLease::Unknown), "fp-other", Some("u2")));
}

/// Two accounts on one computer share its fingerprint: the fallback also needs the lease to be this
/// account's, and an account it cannot know is not the holder. The engine's verdict still wins.
#[test]
fn a_lease_of_another_account_on_this_machine_is_not_hosted_here() {
    let l = lease(Some("fp-me"), true);
    assert!(!held_here(&l, None, "fp-me", Some("u3")));
    assert!(!held_here(&l, Some(WorldLease::Unknown), "fp-me", Some("u3")));
    assert!(!held_here(&l, Some(WorldLease::Free), "fp-me", Some("u3")));
    assert!(!held_here(&l, None, "fp-me", None));
    assert!(held_here(&l, Some(WorldLease::Mine), "fp-me", None));
    assert_eq!(seen(Some(&l), None, "fp-me", Some("u3")), other("alice", false));
    assert!(!detail(&l, None, "fp-me", Some("u3")).here);
}

#[test]
fn a_live_lease_elsewhere_names_the_holder() {
    assert_eq!(host(WorldLease::Other, Some("alice")).cell, "hosted by alice");
    assert_eq!(host(WorldLease::Other, None).cell, "hosted elsewhere");
    assert_eq!(host(WorldLease::Other, None).lease, "other");
    // A server that kept no fingerprint is not held here.
    assert!(!held_here(&lease(None, true), None, "fp-me", Some("u2")));
}

/// Every shared save gets a cell: a slot the engine has no lease for, or no slot at all, is unknown
/// rather than blank.
#[test]
fn hosts_read_every_slot_from_one_status() {
    let status = DaemonStatus {
        slots: vec![
            slot("s1", Some(WorldLease::Mine), None),
            slot("s2", Some(WorldLease::Other), Some("bob")),
            slot("s3", Some(WorldLease::Free), None),
            slot("s4", None, None),
        ],
    };
    let hosts = Hosts::from_status(&status);
    assert_eq!(hosts.of("s1").cell, "hosted here");
    assert_eq!(hosts.of("s2").cell, "hosted by bob");
    assert_eq!(hosts.of("s3"), host(WorldLease::Free, None));
    assert_eq!(hosts.of("s4").lease, "unknown");
    assert_eq!(hosts.of("gone").cell, "unknown");
    assert_eq!(hosts.lease("s4"), None);
    assert_eq!(hosts.lease("s2"), Some(WorldLease::Other));
}

/// No lease is none, not a row of `false`s that reads as a lease.
#[test]
fn no_lease_is_null_and_a_lease_is_whole() {
    let none = LeaseOut {
        save_id: "s1".into(),
        lease: None,
    };
    assert!(none.lease.is_none());
    let d = detail(&lease(Some("fp-me"), true), None, "fp-me", Some("u2"));
    assert_eq!(d.holder, "alice");
    assert!(d.here);
    assert_eq!(d.base_version, 4);
    assert_eq!(d.acquired_at, "1970-01-01T00:00:00Z");
    assert!(d.live && !d.pushed_since);
    let mut later = lease(None, false);
    later.acquired_at = Moment::utc(1_800_000_000);
    // RFC 3339 has no text for a year before our era: the time is shown some other way.
    later.renewed_at = Moment::utc(-62_200_000_000);
    let d = detail(&later, None, "fp-me", None);
    assert_eq!(d.acquired_at, "2027-01-15T08:00:00Z");
    assert_eq!(d.renewed_at, "-0002-12-17 14:13:20.0 +00:00:00");
    later.renewed_at = Moment::utc(-62_200_021_600);
    let d = detail(&later, None, "fp-me", None);
    assert_eq!(d.renewed_at, "-0002-12-17 8:13:20.0 +00:00:00");
    later.renewed_at = Moment::utc(i64::MAX);
    assert_eq!(detail(&later, None, "fp-me", None).renewed_at, "");
}

/// A time is told as it came: with its part of a second and its offset, at whose date it is.
#[test]
fn a_time_keeps_its_fraction_and_its_offset() {
    let told = |local: i128, offset: i32| {
        let mut l = lease(None, true);
        l.acquired_at = Moment { local, offset };
        detail(&l, None, "fp-me", None).acquired_at
    };
    let nanos = 1_000_000_000;
    assert_eq!(told(1_800_000_000 * nanos + 250_000_000, 0), "2027-01-15T08:00:00.25Z");
    assert_eq!(told(1_800_000_000 * nanos, 19_800), "2027-01-15T08:00:00+05:30");
    assert_eq!(told(1_800_000_000 * nanos + 1, -3_600), "2027-01-15T08:00:00.000000001-01:00");
    assert_eq!(told(-1, 7_200), "1969-12-31T23:59:59.999999999+02:00");
    assert_eq!(told(0, -86_340), "1970-01-01T00:00:00-23:59");
    // RFC 3339 has no text for an offset with seconds, nor for one of a day or more.
    assert_eq!(told(0, 3_601), "1970-01-01 0:00:00.0 +01:00:01");
    assert_eq!(told(500_000_000, -86_400), "1970-01-01 0:00:00.5 -24:00:00");
    assert_eq!(told(120_000_000, 93_599), "1970-01-01 0:00:00.12 +25:59:59");
    assert_eq!(told(0, 93_600), "", "no clock is that far ahead");
    assert_eq!(told(-62_200_000_000 * nanos, -1_800), "-0002-12-17 14:13:20.0 -00:30:00");
}

#[test]
fn a_quiet_lease_shows_nothing() {
    // The engine calls a lease nobody renews free; the cell says so.
    assert_eq!(
        host(WorldLease::Free, Some("alice")),
        Host {
            cell: "nobody".into(),
            lease: "free"
        }
    );
}

#[test]
fn a_lease_of_ours_settles_the_wait_at_once() {
    assert_eq!(
        verdict([Seen::Unknown, Seen::Free, Seen::Mine]),
        Verdict::Hosting
    );
    // The old holder seen once, then ours: a takeover that landed.
    assert_eq!(verdict([other("bob", false), Seen::Mine]), Verdict::Hosting);
}

#[test]
fn a_holder_seen_twice_in_a_row_is_held() {
    assert_eq!(
        verdict([other("bob", false), other("bob", false)]),
        held("bob", false)
    );
    assert_eq!(
        verdict([Seen::Free, other("bob", true), other("bob", true), Seen::Mine]),
        held("bob", true)
    );
}

/// One look at the old holder is not a verdict, nor two that disagree.
#[test]
fn a_holder_seen_once_is_not_a_verdict() {
    assert_eq!(verdict([other("bob", false)]), Verdict::Undecided);
    assert_eq!(
        verdict([other("bob", false), Seen::Free, other("bob", false)]),
        Verdict::Undecided
    );
    assert_eq!(
        verdict([other("bob", false), other("carol", false)]),
        Verdict::Undecided
    );
}

#[test]
fn nothing_heard_by_the_deadline_is_undecided() {
    assert_eq!(verdict([]), Verdict::Undecided);
    assert_eq!(
        verdict_of(Wait::claiming(), vec![Seen::Unknown; 20]),
        Verdict::Undecided
    );
    assert_eq!(
        verdict_of(Wait::claiming(), vec![Seen::Free; 20]),
        Verdict::Undecided
    );
}

#[test]
fn a_lease_reads_as_a_look() {
    let me = Some("u2");
    assert_eq!(seen(None, None, "fp-me", me), Seen::Free);
    assert_eq!(
        seen(Some(&lease(Some("fp-me"), false)), None, "fp-me", me),
        Seen::Free
    );
    assert_eq!(
        seen(Some(&lease(Some("fp-me"), true)), None, "fp-me", me),
        Seen::Mine
    );
    assert_eq!(
        seen(Some(&lease(Some("fp-them"), true)), None, "fp-me", me),
        other("alice", false)
    );
}

/// Two accounts on one machine share the fingerprint: another account's lease is theirs, as the
/// engine counts it.
#[test]
fn a_lease_from_this_machine_is_ours_only_for_this_account() {
    let here = lease(Some("fp-me"), true);
    assert_eq!(
        seen(Some(&here), None, "fp-me", Some("u9")),
        other("alice", false)
    );
    assert_eq!(seen(Some(&here), None, "fp-me", None), Seen::Unknown);
    // This account from another machine is not ours either.
    assert_eq!(
        seen(Some(&lease(Some("fp-them"), true)), None, "fp-me", Some("u2")),
        other("alice", false)
    );
}

/// At the deadline a world behind the head answers `Behind`, even for a force whose last look still
/// named the holder it was sent against.
#[test]
fn behind_the_head_outranks_a_held_force_at_the_deadline() {
    let forced = || {
        let mut wait = Wait::forcing(Some("bob".into()));
        assert_eq!(wait.see(other("bob", false)), None);
        wait
    };
    assert_eq!(timed_out(forced(), true), Verdict::Behind);
    assert_eq!(timed_out(forced(), false), held("bob", false));
}

/// A force goes out behind whatever the engine already had on the wire, so the holder it was sent
/// against is not a refusal until the deadline.
#[test]
fn a_force_waits_out_the_holder_it_was_sent_against() {
    let forcing = || Wait::forcing(Some("bob".into()));
    assert_eq!(
        verdict_of(
            forcing(),
            vec![
                other("bob", false),
                other("bob", false),
                other("bob", false),
                Seen::Mine
            ]
        ),
        Verdict::Hosting
    );
    // Still there at the deadline: held, or pushed under.
    assert_eq!(
        verdict_of(forcing(), vec![other("bob", false); 20]),
        held("bob", false)
    );
    assert_eq!(
        verdict_of(forcing(), vec![other("bob", true), other("bob", true)]),
        held("bob", true)
    );
    // Someone else read twice took it in between.
    assert_eq!(
        verdict_of(
            forcing(),
            vec![
                other("bob", false),
                other("carol", false),
                other("carol", false)
            ]
        ),
        held("carol", false)
    );
    // The last look said nothing about the holder: no verdict.
    assert_eq!(
        verdict_of(forcing(), vec![other("bob", false), Seen::Unknown]),
        Verdict::Undecided
    );
    assert_eq!(
        verdict_of(forcing(), vec![other("bob", false), Seen::Free]),
        Verdict::Undecided
    );
    // With no holder known at the force, the wait is a claim's.
    assert_eq!(
        verdict_of(
            Wait::forcing(None),
            vec![other("bob", false), other("bob", false)]
        ),
        held("bob", false)
    );
}

fn code(r: Result<Outcome, Failure>) -> String {
    classify(&r.unwrap_err()).code
}

#[test]
fn a_verdict_becomes_the_answer() {
    assert_eq!(
        outcome_of("s1", Verdict::Hosting, false).unwrap(),
        Outcome::Hosting
    );
    assert_eq!(
        outcome_of("s1", Verdict::Undecided, true).unwrap(),
        Outcome::Pending
    );
    assert_eq!(code(outcome_of("s1", held("bob", false), false)), "held");
    assert_eq!(code(outcome_of("s1", held("bob", false), true)), "held");
    // Pushed is the takeover's refusal; a claim is simply held.
    assert_eq!(code(outcome_of("s1", held("bob", true), true)), "pushed");
    assert_eq!(code(outcome_of("s1", held("bob", true), false)), "held");
    let err = outcome_of("s1", held("bob", false), false).unwrap_err();
    assert!(err.message().contains("bob"), "{err:?}");
    assert_eq!(classify(&err).exit, 1);
}

#[test]
fn the_outcome_is_one_line_and_one_word() {
    assert_eq!(human_line("s1", Outcome::Hosting, true), "hosting s1");
    assert!(human_line("s1", Outcome::Pending, false).contains("hoard world lease s1"));
    assert!(human_line("s1", Outcome::Pending, true).starts_with("taking the lease"));
    let out = WorldOut {
        save_id: "s1".into(),
        outcome: Outcome::Pending,
    };
    assert_eq!((out.save_id.as_str(), out.outcome.word()), ("s1", "pending"));
}

/// A look takes the engine's word on whose lease it is, and the fingerprint only while the engine
/// reads unknown or free.
#[test]
fn a_look_takes_the_engines_word_on_whose_lease_it_is() {
    let theirs_by_fp = lease(Some("fp-them"), true);
    assert!(matches!(
        seen(Some(&theirs_by_fp), Some(WorldLease::Mine), "fp-me", Some("u2")),
        Seen::Mine
    ));
    let mine_by_fp = lease(Some("fp-me"), true);
    assert!(matches!(
        seen(Some(&mine_by_fp), Some(WorldLease::Other), "fp-me", Some("u2")),
        Seen::Other { .. }
    ));
    assert!(matches!(
        seen(Some(&mine_by_fp), Some(WorldLease::Unknown), "fp-me", Some("u2")),
        Seen::Mine
    ));
}

/// A claim that runs out of time while the engine pulls the head answers `stale`, not a
/// success-shaped pending.
#[test]
fn a_world_behind_the_head_answers_stale() {
    let err = outcome_of("s-1", Verdict::Behind, false).unwrap_err();
    let c = classify(&err);
    assert_eq!((c.code.as_str(), c.exit), ("stale", 1));
    assert!(err.message().contains("behind"), "{err:?}");
}

#[test]
fn a_status_says_which_world_is_behind() {
    let mut status = DaemonStatus {
        slots: vec![slot("s1", None, None), slot("s2", None, None)],
    };
    status.slots[1].lease_behind = true;
    assert!(!behind(&status, "s1"));
    assert!(behind(&status, "s2"));
    assert!(!behind(&status, "s3"));
}

#[test]
fn the_session_says_which_account_this_is() {
    assert_eq!(this_account(None), None);
    assert_eq!(this_account(Some(("https://x".into(), None))), None);
    assert_eq!(
        this_account(Some((
            "https://x".into(),
            Some(CachedUser {
                user_id: "u2".into()
            })
        )))
        .as_deref(),
        Some("u2")
    );
}

fn refused() -> Failure {
    Failure::of(Cause::Api(ApiError::NotShared, "not shared".into()))
}

fn asked(step: Step) -> (Verb, Request) {
    match step {
        Step::Ask(verb, request) => (verb, request),
        s => panic!("{s:?}"),
    }
}

#[test]
fn a_claim_asks_and_then_waits() {
    let claim = |view| WorldCommand::Claim {
        save_id: "s1".into(),
        view,
    };
    let (verb, request) = asked(start(claim(false)));
    assert!(matches!(
        request,
        Request::ClaimWorld { save_id, role: WorldRole::Host } if save_id == "s1"
    ));
    assert!(matches!(
        next(verb, Answer::Done, "fp", None),
        Step::Watch { force: false, .. }
    ));
    let (verb, request) = asked(start(claim(true)));
    assert!(matches!(
        request,
        Request::ClaimWorld { role: WorldRole::View, .. }
    ));
    assert!(matches!(
        next(verb, Answer::Done, "fp", None),
        Step::Show(WorldOut { outcome: Outcome::Viewing, .. }, false)
    ));
    let (verb, _) = asked(start(claim(true)));
    assert!(matches!(
        next(verb, Answer::Failed(refused()), "fp", None),
        Step::Fail(_)
    ));
}

/// A force reads who holds the lease first, and goes out against them; a lease that cannot be read
/// does not stop it.
#[test]
fn a_force_is_sent_against_the_holder_it_read() {
    let force = || start(WorldCommand::Force { save_id: "s1".into() });
    let (verb, request) = asked(force());
    assert!(matches!(request, Request::GetLease { .. }));
    let (verb, request) = asked(next(
        verb,
        Answer::Lease(Some(lease(Some("fp-them"), true))),
        "fp-me",
        Some("u2"),
    ));
    assert!(matches!(request, Request::Status));
    let (verb, request) = asked(next(
        verb,
        Answer::Status(DaemonStatus { slots: Vec::new() }),
        "fp-me",
        Some("u2"),
    ));
    assert!(matches!(request, Request::ForceWorld { save_id } if save_id == "s1"));
    assert!(matches!(&verb.stage, Stage::Forcing { forced: Some(h) } if h == "alice"));
    let Step::Watch { watch, force: true, .. } = next(verb, Answer::Done, "fp-me", Some("u2")) else {
        panic!("a force waits");
    };
    assert_eq!(
        verdict_of(watch.wait, vec![other("alice", false), other("alice", false), Seen::Mine]),
        Verdict::Hosting
    );
    let (verb, _) = asked(force());
    let (verb, request) = asked(next(verb, Answer::Failed(refused()), "fp-me", None));
    assert!(matches!(request, Request::ForceWorld { .. }));
    assert!(matches!(verb.stage, Stage::Forcing { forced: None }));
    assert!(matches!(
        next(verb, Answer::Failed(refused()), "fp-me", None),
        Step::Fail(_)
    ));
}

#[test]
fn the_other_verbs_say_what_they_did() {
    for (cmd, outcome) in [
        (
            WorldCommand::Release { save_id: "s1".into() },
            Outcome::Releasing,
        ),
        (
            WorldCommand::Dismiss { save_id: "s1".into() },
            Outcome::Dismissed,
        ),
    ] {
        let (verb, _) = asked(start(cmd));
        let Step::Show(out, false) = next(verb, Answer::Done, "fp", None) else {
            panic!("shown");
        };
        assert_eq!((out.save_id.as_str(), out.outcome), ("s1", outcome));
    }
}

#[test]
fn a_lease_is_told_with_the_engines_word() {
    let read = || start(WorldCommand::Lease { save_id: "s1".into() });
    let (verb, _) = asked(read());
    let (verb, request) = asked(next(
        verb,
        Answer::Lease(Some(lease(Some("fp-them"), true))),
        "fp-me",
        None,
    ));
    assert!(matches!(request, Request::Status));
    let status = DaemonStatus {
        slots: vec![slot("s1", Some(WorldLease::Mine), None)],
    };
    let Step::ShowLease(out) = next(verb, Answer::Status(status), "fp-me", None) else {
        panic!("shown");
    };
    assert!(out.lease.unwrap().here);
    let (verb, _) = asked(read());
    let (verb, _) = asked(next(verb, Answer::Lease(None), "fp-me", None));
    assert!(matches!(
        next(verb, Answer::Failed(refused()), "fp-me", None),
        Step::ShowLease(LeaseOut { lease: None, .. })
    ));
    let (verb, _) = asked(read());
    let Step::Fail(f) = next(verb, Answer::Done, "fp-me", None) else {
        panic!("unexpected");
    };
    assert_eq!(f.message(), "unexpected answer to a lease request: Done");
}

#[test]
fn a_watch_looks_until_it_settles() {
    let status = |lease, behind| {
        Some(DaemonStatus {
            slots: vec![AgentSlotStatus {
                save_id: "s1".into(),
                lease,
                lease_holder: None,
                lease_behind: behind,
            }],
        })
    };
    let theirs = || Some(Some(lease(Some("fp-them"), true)));
    let mut w = Watch::new(Wait::claiming());
    assert_eq!(w.look("s1", &status(None, false), &theirs(), "fp-me", None), None);
    // Neither could be read: nothing is known, and the holder has to be seen twice again.
    assert_eq!(w.look("s1", &None, &None, "fp-me", None), None);
    assert_eq!(w.look("s1", &None, &theirs(), "fp-me", None), None);
    assert_eq!(
        w.look("s1", &None, &theirs(), "fp-me", None),
        Some(held("alice", false))
    );
    // The engine's word settles it.
    let mut w = Watch::new(Wait::claiming());
    let mine = status(Some(WorldLease::Mine), false);
    assert_eq!(
        w.look("s1", &mine, &theirs(), "fp-me", None),
        Some(Verdict::Hosting)
    );
    // A status that could not be read leaves what the last one said.
    let mut w = Watch::new(Wait::claiming());
    assert_eq!(w.look("s1", &status(None, true), &Some(None), "fp-me", None), None);
    assert_eq!(w.look("s1", &None, &Some(None), "fp-me", None), None);
    assert_eq!(w.timed_out(), Verdict::Behind);
    let mut w = Watch::new(Wait::claiming());
    w.look("s1", &status(None, true), &Some(None), "fp-me", None);
    w.look("s1", &status(None, false), &Some(None), "fp-me", None);
    assert_eq!(w.timed_out(), Verdict::Undecided);
}

#[test]
fn a_verdict_ends_the_verb() {
    assert!(matches!(
        settled("s1".into(), Verdict::Hosting, true),
        Step::Show(WorldOut { outcome: Outcome::Hosting, .. }, true)
    ));
    assert!(matches!(
        settled("s1".into(), Verdict::Undecided, false),
        Step::Show(WorldOut { outcome: Outcome::Pending, .. }, false)
    ));
    let Step::Fail(f) = settled("s1".into(), held("bob", true), true) else {
        panic!("refused");
    };
    assert_eq!(classify(&f).code, "pushed");
}

#[test]
fn a_lease_is_told_line_by_line() {
    let out = |lease| LeaseOut {
        save_id: "s1".into(),
        lease,
    };
    assert_eq!(lease_lines(&out(None)), "s1: nobody is hosting");
    let d = detail(&lease(Some("fp-me"), true), None, "fp-me", Some("u2"));
    assert_eq!(
        lease_lines(&out(Some(d))),
        "holder:  alice (this machine)\nsince:   1970-01-01T00:00:00Z\n\
         renewed: 1970-01-01T00:00:00Z\nbase:    v4\nlive:    yes\npushed:  no"
    );
}
