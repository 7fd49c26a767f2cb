//! Which version is newer, and what an update does when.

use hoard::agent::update::{
    available_update, cached_latest, current, is_newer, latest_in, lookup, parse, tag_version,
    Cache, Lookup,
};
use hoard::agent::updater::{
    check_if_due, checked, latest_on, Begin, Cadence, Channel, Delivery, Hold, Ledger, Phase,
    Stance, Tick, Updater,
};

#[test]
fn newer_compares_semver_not_lexically() {
    assert!(is_newer("1.0.10", "1.0.9"));
    assert!(is_newer("1.1.0", "1.0.99"));
    assert!(is_newer("2.0.0", "1.9.9"));
    assert!(!is_newer("1.0.3", "1.0.3"));
    assert!(!is_newer("1.0.2", "1.0.3"));
}

/// The ordering the pre-release channel stands on:
/// `1.1.7 < 1.2.0-1 < 1.2.0-2 < 1.2.0`.
#[test]
fn prereleases_order_between_their_neighbours() {
    let chain = ["1.1.7", "1.2.0-1", "1.2.0-2", "1.2.0"];
    for (i, lower) in chain.iter().enumerate() {
        for higher in &chain[i + 1..] {
            assert!(is_newer(higher, lower), "{higher} > {lower}");
            assert!(!is_newer(lower, higher), "{lower} < {higher}");
        }
        assert!(!is_newer(lower, lower), "{lower} is not newer than itself");
    }
    // Numeric identifiers compare as numbers, not text.
    assert!(is_newer("1.2.0-10", "1.2.0-9"));
    // Build metadata carries no precedence.
    assert!(!is_newer("1.2.0+build.5", "1.2.0"));
}

/// What is newer than a version is newer than all that this one is newer than: by the numbers, by
/// the pre-release, and across the two.
#[test]
fn newer_is_a_strict_order() {
    let chain = [
        "1.0.0-1", "1.0.0-2", "1.0.0-alpha", "1.0.0-alpha.1", "1.0.0-beta.2", "1.0.0-beta.11",
        "1.0.0-rc", "v1.0.0", "1.0.1-1", " 1.1.0 ", "2.0.0",
    ];
    for a in chain {
        assert!(!is_newer(a, a));
        for b in chain {
            assert!(!(is_newer(a, b) && is_newer(b, a)));
            for c in chain {
                assert!(!is_newer(a, b) || !is_newer(b, c) || is_newer(a, c), "{a} {b} {c}");
            }
        }
    }
    for pair in chain.windows(2) {
        assert!(is_newer(pair[1], pair[0]), "{} < {}", pair[0], pair[1]);
    }
}

#[test]
fn tolerates_v_prefix() {
    assert_eq!(parse("v1.0.4"), parse("1.0.4"));
    assert!(parse("v1.0.4").is_some());
    assert!(is_newer("v1.0.4", "1.0.3"));
    assert!(is_newer("v1.2.0", "v1.2.0-2"));
    assert!(is_newer(" 1.2.0-2 ", "v1.2.0-1"));
}

#[test]
fn unparseable_never_nags() {
    assert!(!is_newer("garbage", "1.0.3"));
    assert!(!is_newer("1.0.4", "nightly"));
    assert!(!is_newer("1.3", "1.2.0"));
    assert!(!is_newer("", "1.2.0"));
}

#[test]
fn a_version_comes_apart() {
    let v = parse("v1.2.3-beta.4+x.5").unwrap();
    assert_eq!((v.major, v.minor, v.patch), (1, 2, 3));
    assert_eq!(v.pre, "beta.4");
    assert_eq!(v.build, "x.5");
    assert!(is_newer("1.2.3-beta.5", "1.2.3-beta.4"));
    assert!(is_newer("1.2.3-rc", "1.2.3-beta.11"));
}

#[test]
fn a_release_is_read_off_the_servers_answer() {
    assert_eq!(tag_version("v1.2.3"), "1.2.3");
    assert_eq!(
        latest_in(true, "{\"tag_name\":\"v1.2.3\",\"draft\":false}").as_deref(),
        Some("1.2.3")
    );
    assert_eq!(latest_in(true, "{\"name\":\"x\"}"), None);
    assert_eq!(latest_in(true, "not json"), None);
    assert_eq!(latest_in(false, "{\"tag_name\":\"v1.2.3\"}"), None);
}

fn cache(latest: &str, checked_at: u64) -> Option<Cache> {
    Some(Cache {
        latest: latest.into(),
        checked_at,
    })
}

#[test]
fn a_fresh_cache_is_not_asked_past() {
    assert!(matches!(lookup(cache("1.2.0", 1000), 1001), Lookup::Known(v) if v == "1.2.0"));
    let later = 1000 + 7 * 24 * 3600;
    assert!(matches!(
        lookup(cache("1.2.0", 1000), later),
        Lookup::Fetch { stale: Some(v) } if v == "1.2.0"
    ));
    assert!(matches!(lookup(None, 5), Lookup::Fetch { stale: None }));
    assert_eq!(
        cached_latest(Some("1.3.0".into()), Some("1.2.0".into())),
        (Some("1.3.0".into()), true)
    );
    assert_eq!(
        cached_latest(None, Some("1.2.0".into())),
        (Some("1.2.0".into()), false)
    );
}

#[test]
fn an_update_is_offered_only_when_newer() {
    assert_eq!(
        available_update(Some("1.3.0".into()), "1.2.0").as_deref(),
        Some("1.3.0")
    );
    assert_eq!(available_update(Some("1.2.0".into()), "1.2.0"), None);
    assert_eq!(available_update(None, "1.2.0"), None);
}

// ---- the updater

#[test]
fn a_fresh_updater_says_nothing_is_pending() {
    let u = Updater::new();
    let s = u.state();
    assert_eq!(s.phase, Phase::UpToDate);
    assert!(!s.mandatory);
    assert_eq!(s.latest, None);
    assert_eq!(s.current, current());
}

#[test]
fn a_client_request_is_taken_exactly_once() {
    let mut u = Updater::new();
    u.apply_now(Some("1.2.3".into()));
    assert_eq!(u.take_request(), Some(Some("1.2.3".into())));
    // The second read comes back empty: two presses of the button must not turn
    // into two applications treading on each other.
    assert_eq!(u.take_request(), None);
}

#[test]
fn every_hold_survives_the_trip_to_the_wire() {
    for hold in [Hold::GameRunning, Hold::TransferInFlight] {
        let mut u = Updater::new();
        u.set_phase(Phase::Waiting(hold));
        assert_eq!(u.state().phase, Phase::Waiting(hold));
    }
}

#[test]
fn a_failure_is_visible_to_clients() {
    let mut u = Updater::new();
    u.fail("no package for aarch64".into());
    let s = u.state();
    assert_eq!(s.phase, Phase::Failed);
    assert_eq!(s.last_error.as_deref(), Some("no package for aarch64"));
}

#[test]
fn a_recheck_is_taken_exactly_once() {
    let mut u = Updater::new();
    u.recheck();
    assert!(u.take_recheck());
    assert!(!u.take_recheck());
}

const SECOND: i128 = 1_000_000_000;
const NOW: i128 = 1_800_000_000 * SECOND;

#[test]
fn an_unchanged_channel_waits_out_the_hour() {
    let mut ledger = Ledger {
        latest_seen: Some("1.1.7".into()),
        last_check_at: Some(NOW),
        ..Ledger::default()
    };
    assert!(!check_if_due(&mut ledger, NOW, Channel::Stable, false));
    assert!(!check_if_due(&mut ledger, NOW + 3599 * SECOND, Channel::Stable, false));
    assert!(!check_if_due(&mut ledger, NOW + 3600 * SECOND - 1, Channel::Stable, false));
    assert!(check_if_due(&mut ledger, NOW + 3600 * SECOND, Channel::Stable, false));
}

/// Opting out on a pre-release: the switch makes the check due at once, and the answer is taken
/// as the new channel's.
#[test]
fn opting_out_after_a_prerelease_waits_for_the_release() {
    let mut ledger = Ledger {
        latest_seen: Some("1.2.0-2".into()),
        last_check_at: Some(NOW),
        channel: Channel::Prerelease,
        ..Ledger::default()
    };
    assert!(check_if_due(&mut ledger, NOW, Channel::Stable, false));
    checked(&mut ledger, NOW, Channel::Stable, Some("1.1.7".into()));
    assert_eq!(ledger.channel, Channel::Stable);
    assert_eq!(ledger.latest_seen.as_deref(), Some("1.1.7"));
    assert!(!is_newer("1.1.7", "1.2.0-2"), "no downgrade");
}

/// Opting out while the server fails: what was seen on the other channel is hidden, and the failed
/// check is not retried every cycle.
#[test]
fn opting_out_while_github_fails_applies_nothing_and_backs_off() {
    let mut ledger = Ledger {
        latest_seen: Some("1.2.0-2".into()),
        first_seen_at: Some(NOW - 30 * 86_400 * SECOND),
        staged: Some("1.2.0-2".into()),
        last_check_at: Some(NOW),
        last_attempt_at: Some(NOW),
        channel: Channel::Prerelease,
        ..Ledger::default()
    };
    assert!(check_if_due(&mut ledger, NOW, Channel::Stable, true));
    checked(&mut ledger, NOW, Channel::Stable, None);
    assert_eq!(ledger.channel, Channel::Prerelease, "no answer, no switch on record");
    assert_eq!(latest_on(&ledger, Channel::Stable), None, "nor shown to clients");
    for minutes in [1, 2, 5, 14] {
        assert!(!check_if_due(&mut ledger, NOW + minutes * 60 * SECOND, Channel::Stable, false));
    }
    assert!(check_if_due(&mut ledger, NOW + 15 * 60 * SECOND, Channel::Stable, false));
}

/// A stable check that keeps failing is spaced out too, not only a switch.
#[test]
fn a_failing_check_on_the_same_channel_backs_off() {
    let mut ledger = Ledger::default();
    assert!(check_if_due(&mut ledger, NOW, Channel::Stable, false));
    checked(&mut ledger, NOW, Channel::Stable, None);
    assert!(!check_if_due(&mut ledger, NOW + 60 * SECOND, Channel::Stable, false));
}

#[test]
fn a_version_is_first_seen_once() {
    let mut ledger = Ledger::default();
    checked(&mut ledger, NOW, Channel::Stable, Some("1.2.0".into()));
    checked(&mut ledger, NOW + 7200 * SECOND, Channel::Stable, Some("1.2.0".into()));
    assert_eq!(ledger.first_seen_at, Some(NOW));
    assert_eq!(ledger.last_check_at, Some(NOW + 7200 * SECOND));
    checked(&mut ledger, NOW + 9000 * SECOND, Channel::Stable, Some("1.3.0".into()));
    assert_eq!(ledger.first_seen_at, Some(NOW + 9000 * SECOND));
}

#[test]
fn what_was_staged_and_runs_has_landed() {
    let mut u = Updater::new();
    let mut ledger = Ledger {
        staged: Some("1.2.0".into()),
        failures: 2,
        ..Ledger::default()
    };
    assert_eq!(
        u.begin(Delivery::Ours, &mut ledger, "1.2.0"),
        Begin::Go { landed: true }
    );
    assert_eq!((ledger.staged.clone(), ledger.failures), (None, 0));
    assert_eq!(
        u.begin(Delivery::Managed, &mut ledger, "1.2.0"),
        Begin::Over(Cadence::Normal)
    );
    assert_eq!(u.state().phase, Phase::Managed);
    u.begin(Delivery::Unknown("no idea".into()), &mut ledger, "1.2.0");
    assert_eq!(u.state().phase, Phase::Failed);
}

fn ask() -> Stance {
    Stance::Ask {
        version: "1.2.0".into(),
    }
}

#[test]
fn a_version_is_announced_once_and_applied_on_request() {
    let mut u = Updater::new();
    let mut ledger = Ledger::default();
    assert!(matches!(u.tick(ask(), None, &mut ledger, NOW), Tick::Announce(v) if v == "1.2.0"));
    assert!(matches!(
        u.tick(ask(), None, &mut ledger, NOW),
        Tick::Rest(Cadence::Normal)
    ));
    assert!(matches!(
        u.tick(ask(), Some(None), &mut ledger, NOW),
        Tick::Apply { noninteractive: false, .. }
    ));
    assert!(matches!(
        u.tick(ask(), Some(Some("9.9.9".into())), &mut ledger, NOW),
        Tick::Rest(Cadence::Normal)
    ));
    let mut fresh = Ledger::default();
    fresh.snooze(1, NOW);
    assert_eq!(fresh.snoozed_until, Some(NOW + 3600 * SECOND));
    assert!(matches!(
        u.tick(ask(), None, &mut fresh, NOW + 3600 * SECOND - 1),
        Tick::Rest(Cadence::Normal)
    ));
    assert!(matches!(u.tick(ask(), None, &mut fresh, NOW + 3600 * SECOND), Tick::Announce(_)));
}

#[test]
fn a_snooze_is_a_week_at_most() {
    let mut ledger = Ledger::default();
    ledger.snooze(10_000, NOW);
    assert_eq!(ledger.snoozed_until, Some(NOW + 7 * 86_400 * SECOND));
}

#[test]
fn a_game_or_a_transfer_holds_an_update() {
    let waiting = |hold| Stance::Waiting {
        version: "1.2.0".into(),
        hold,
    };
    let mut u = Updater::new();
    let mut ledger = Ledger::default();
    assert!(matches!(
        u.tick(waiting(Hold::GameRunning), None, &mut ledger, NOW),
        Tick::Rest(Cadence::Soon)
    ));
    assert_eq!(u.state().phase, Phase::Waiting(Hold::GameRunning));
    assert!(matches!(
        u.tick(waiting(Hold::GameRunning), Some(None), &mut ledger, NOW),
        Tick::Apply { .. }
    ));
    // Asked for in the middle of a transfer: kept for when it is over.
    assert!(matches!(
        u.tick(waiting(Hold::TransferInFlight), Some(None), &mut ledger, NOW),
        Tick::Rest(Cadence::Soon)
    ));
    assert_eq!(u.take_request(), Some(None));
}

#[test]
fn repeated_failures_rest_until_somebody_asks() {
    let mut u = Updater::new();
    let mut ledger = Ledger::default();
    let force = || Stance::Force {
        version: "1.2.0".into(),
    };
    for _ in 0..5 {
        assert!(matches!(
            u.tick(force(), None, &mut ledger, NOW),
            Tick::Apply { noninteractive: true, .. }
        ));
        assert_eq!(u.apply_begin(&mut ledger, true, "1.2.0"), None);
        assert!(u
            .apply_end(&mut ledger, "1.2.0".into(), Err("denied".into()))
            .is_none());
    }
    assert_eq!(ledger.failures, 5);
    assert_eq!(ledger.last_error.as_deref(), Some("denied"));
    assert!(matches!(u.tick(force(), None, &mut ledger, NOW), Tick::Rest(Cadence::Normal)));
    assert!(matches!(
        u.tick(force(), Some(None), &mut ledger, NOW),
        Tick::Apply { noninteractive: false, .. }
    ));
}

#[test]
fn an_attempt_is_on_record_before_it_starts() {
    let mut u = Updater::new();
    let mut ledger = Ledger {
        staged: Some("1.2.0".into()),
        ..Ledger::default()
    };
    assert_eq!(u.apply_begin(&mut ledger, true, "1.2.0"), None);
    assert_eq!(
        ledger.last_error.as_deref(),
        Some("applying 1.2.0 never reported back")
    );
    assert_eq!(u.state().phase, Phase::Applying);
    let relaunch = u.apply_end(&mut ledger, "1.2.0".into(), Ok(())).unwrap();
    assert_eq!(relaunch.version, "1.2.0");
    assert_eq!((ledger.failures, ledger.staged.clone()), (0, None));
    // What was staged is gone from the disk: it is forgotten.
    ledger.staged = Some("1.3.0".into());
    assert_eq!(u.apply_begin(&mut ledger, false, "1.3.0"), Some(Cadence::Soon));
    assert_eq!(ledger.staged, None);
}

#[test]
fn a_download_is_shown_when_it_lands() {
    let mut u = Updater::new();
    let mut ledger = Ledger::default();
    assert_eq!(
        u.staged(&mut ledger, Ok("1.2.0".into()), NOW),
        Cadence::Soon
    );
    assert_eq!(u.state().staged.as_deref(), Some("1.2.0"));
    assert_eq!(u.staged(&mut ledger, Err("disk full".into()), NOW), Cadence::Normal);
    assert_eq!(ledger.failures, 1);
    ledger.latest_seen = Some("1.3.0".into());
    u.show(
        &ledger,
        Channel::from_prerelease(false),
        Some(NOW),
        &Stance::Force {
            version: "1.3.0".into(),
        },
        true,
    );
    let s = u.state();
    assert_eq!(s.latest.as_deref(), Some("1.3.0"));
    assert!(s.mandatory && s.unattended);
    u.show(&ledger, Channel::from_prerelease(true), None, &Stance::Idle, false);
    assert_eq!(u.state().latest, None, "the other channel's answer is hidden");
}
