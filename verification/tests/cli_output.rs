//! What a command answers.

use hoard::agent::api::{ApiError, EngineDownReason, IpcError, LeaseConflict};
use hoard::cli::output::{
    classify, err, error_body, interactive, json, require_token, set_json, truncate, Cause, Failure,
    Output,
};

fn api(e: ApiError) -> Failure {
    Failure::of(Cause::Api(e, "the server said no".into()))
}

fn ipc(e: IpcError) -> Failure {
    Failure::of(Cause::Ipc(e))
}

#[test]
fn coded_errors_keep_their_code() {
    let e = err("not_tracked", "nope".into());
    let c = classify(&e);
    assert_eq!(c.code, "not_tracked");
    assert_eq!(c.exit, 3);
}

#[test]
fn a_429_carries_the_wait() {
    let e = api(ApiError::RateLimited {
        retry_after_seconds: 3600,
        body: String::new(),
    });
    let c = classify(&e);
    assert_eq!(c.code, "rate_limited");
    assert_eq!(c.exit, 4);
    // Without this an agent retries a wait it can't see, which is the loop the server's brake
    // exists to stop.
    assert_eq!(c.retry_after_seconds, Some(3600));
    let (body, exit) = error_body(&e);
    assert_eq!((body.code.as_str(), exit), ("rate_limited", 4));
    assert_eq!(body.retry_after_seconds, Some(3600));
    assert_eq!(body.message, "the server said no");
}

#[test]
fn an_unclassified_error_is_generic_not_a_panic() {
    let c = classify(&Failure::of(Cause::Other("something odd".into())));
    assert_eq!(c.code, "error");
    assert_eq!(c.exit, 1);
}

/// A conflict that the service relays keeps the server's own tag, so a script can tell `held` from
/// `stale` without parsing the sentence; exit 1 as any conflict. It prints as the server's one
/// line, not as the variant.
#[test]
fn a_relayed_conflict_keeps_its_code() {
    let e = ipc(IpcError::Conflict {
        code: "held".into(),
        message: "another member is hosting this save".into(),
    });
    assert_eq!(classify(&e).code, "held");
    assert_eq!(classify(&e).exit, 1);
    for code in [
        "stale",
        "lease_required",
        "not_shared",
        "pushed",
        "conflict",
    ] {
        let e = ipc(IpcError::Conflict {
            code: code.into(),
            message: "no".into(),
        });
        assert_eq!(classify(&e).code, code);
        assert_eq!(classify(&e).exit, 1);
    }
    assert_eq!(e.message(), "another member is hosting this save");
    let e = ipc(IpcError::Conflict {
        code: String::new(),
        message: "no".into(),
    });
    assert_eq!(classify(&e).code, "conflict");
    let e = ipc(IpcError::Invalid {
        message: "`a/b` is not a world name".into(),
    });
    assert_eq!(classify(&e).code, "bad_request");
    assert_eq!(e.message(), "`a/b` is not a world name");
}

/// Every code the service relays lands in the group its HTTP twin does, keeps its own name, and
/// prints as the service's message.
#[test]
fn relayed_refusals_keep_their_code_and_group() {
    for (code, exit) in [
        ("unauthorized", 2),
        ("forbidden", 2),
        ("not_found", 3),
        ("not_watched", 3),
        ("throttled", 4),
        ("quota_full", 5),
        ("bad_request", 1),
        ("not_shared", 1),
        ("needs_input", 1),
        ("something_newer", 1),
    ] {
        let e = ipc(IpcError::Refused {
            code: code.into(),
            message: format!("refused: {code}"),
        });
        let c = classify(&e);
        assert_eq!((c.code.as_str(), c.exit), (code, exit), "{code}");
        assert_eq!(c.retry_after_seconds, None);
        assert_eq!(e.message(), format!("refused: {code}"));
    }
    for e in [
        IpcError::EngineDown {
            reason: "no session".into(),
            kind: EngineDownReason::NoSession,
        },
        IpcError::NoServerSession {
            reason: "none".into(),
        },
        IpcError::CloudSessionExpired {
            reason: "revoked".into(),
        },
    ] {
        let c = classify(&ipc(e));
        assert_eq!((c.code.as_str(), c.exit), ("no_session", 2));
    }
    // A keyring that will not hand the session over is a sign-in: signing in again rewrites the
    // item under the service.
    let c = classify(&ipc(IpcError::EngineDown {
        reason: "the keyring did not answer".into(),
        kind: EngineDownReason::KeyringUnreadable,
    }));
    assert_eq!((c.code.as_str(), c.exit), ("no_session", 2));
    // Starting, stopping or failing: not a sign-in.
    for kind in [EngineDownReason::Unknown, EngineDownReason::Other] {
        let c = classify(&ipc(IpcError::EngineDown {
            reason: "the engine is still starting".into(),
            kind,
        }));
        assert_eq!((c.code.as_str(), c.exit), ("engine_down", 1), "{kind:?}");
    }
    // A service older than `kind`: no session is still named in its text, whatever the case; any
    // other text stays `engine_down`.
    for (reason, code, exit) in [
        ("No session. Sign in with `hoard login`", "no_session", 2),
        ("the engine is still starting", "engine_down", 1),
    ] {
        let c = classify(&ipc(IpcError::EngineDown {
            reason: reason.into(),
            kind: EngineDownReason::Unknown,
        }));
        assert_eq!((c.code.as_str(), c.exit), (code, exit), "{reason}");
    }
    // The fallback is for `Unknown` only: a classified reason wins over the words in its text.
    let c = classify(&ipc(IpcError::EngineDown {
        reason: "no session yet, but the daemon is shutting down".into(),
        kind: EngineDownReason::Other,
    }));
    assert_eq!((c.code.as_str(), c.exit), ("engine_down", 1));
}

#[test]
fn truncate_marks_what_it_cut() {
    assert_eq!(truncate("raid", 4), "raid");
    assert_eq!(truncate("friends", 4), "fri…");
    assert_eq!(truncate("días", 3), "dí…");
}

/// What was being done must not hide the typed cause.
#[test]
fn context_does_not_lose_the_code() {
    let e = Failure::of(Cause::Api(ApiError::NotFound, "not found".into()))
        .context("while fetching the save")
        .context("while adopting it");
    assert_eq!(classify(&e).code, "not_found");
    assert_eq!(
        e.message(),
        "while adopting it: while fetching the save: not found"
    );
}

#[test]
fn every_refusal_of_the_server_has_its_group() {
    let conflict = || LeaseConflict {
        code: "held".into(),
        error: String::new(),
        lease: None,
    };
    for (e, code, exit) in [
        (ApiError::Unauthorized, "unauthorized", 2),
        (ApiError::Forbidden, "forbidden", 2),
        (ApiError::NotFound, "not_found", 3),
        (ApiError::QuotaExceeded("full".into()), "quota_exceeded", 5),
        (ApiError::TooLarge("big".into()), "too_large", 5),
        (ApiError::Archived, "archived", 5),
        (ApiError::Network("down".into()), "network", 6),
        (
            ApiError::StorageUnreachable {
                message: "s3".into(),
            },
            "storage_unreachable",
            6,
        ),
        (ApiError::NonFastForward("behind".into()), "conflict", 1),
        (ApiError::LeaseHeld(conflict()), "conflict", 1),
        (ApiError::LeaseRequired(conflict()), "conflict", 1),
        (
            ApiError::LeaseStale {
                head_version: 3,
                base_version: 2,
            },
            "conflict",
            1,
        ),
        (ApiError::LeasePushed("bob".into()), "conflict", 1),
        (ApiError::NotShared, "conflict", 1),
        (ApiError::Conflict("x".into()), "conflict", 1),
        (ApiError::BadRequest("x".into()), "bad_request", 1),
        (
            ApiError::Server {
                status: 500,
                body: String::new(),
            },
            "server",
            1,
        ),
    ] {
        let c = classify(&api(e));
        assert_eq!((c.code.as_str(), c.exit), (code, exit));
        assert_eq!(c.retry_after_seconds, None);
    }
}

#[test]
fn a_prompt_needs_a_person() {
    let mut out = Output::new();
    assert!(!json(&out));
    assert!(interactive(&out, true));
    assert!(!interactive(&out, false));
    set_json(&mut out, true);
    assert!(json(&out));
    assert!(!interactive(&out, true));
}

#[test]
fn no_token_is_no_session() {
    assert_eq!(require_token(Ok("t".into())).unwrap(), "t");
    let e = require_token(Err("sign in with `hoard login`".into())).unwrap_err();
    let c = classify(&e);
    assert_eq!((c.code.as_str(), c.exit), ("no_session", 2));
    assert_eq!(e.message(), "sign in with `hoard login`");
}
