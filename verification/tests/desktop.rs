//! What the interface is shown, and what it may do.

use hoard::agent::api::{EngineDownReason, IpcError};
use hoard::agent::slot::WorldLease;
use hoard::cli::output::{Cause, Failure};
use hoard::cli::world::{AgentSlotStatus, DaemonStatus};
use hoard::clock::Moment;
use hoard::desktop::groups::{conflict_key, lease_view, map_err, unexpected};
use hoard::desktop::misc::{
    greet, may_open, may_show, platform_opener, polluted_names, ui_log, EnvChange, System,
};
use hoard::wire::Lease;

fn lease(fp: Option<&str>) -> Lease {
    Lease {
        save_id: "s1".into(),
        holder_user_id: "u2".into(),
        holder_username: "alice".into(),
        holder_device_fp: fp.map(String::from),
        acquired_at: Moment::utc(0),
        renewed_at: Moment::utc(0),
        base_version: 4,
        pushed_since: false,
        live: true,
    }
}

fn ipc(e: IpcError) -> Failure {
    Failure::of(Cause::Ipc(e))
}

#[test]
fn a_conflict_is_a_sentence() {
    for (code, key) in [
        ("held", Some("lease.err_held")),
        ("stale", Some("lease.err_stale")),
        ("lease_required", Some("lease.err_required")),
        ("not_shared", Some("share.err_not_shared")),
        ("already_shared", Some("share.err_already_shared")),
        ("lease_held", Some("share.err_lease_held")),
        ("pushed", Some("lease.err_pushed")),
        ("not_holder", Some("lease.err_not_holder")),
        ("not_held", Some("lease.err_not_held")),
        ("something_newer", None),
    ] {
        assert_eq!(conflict_key(code), key);
        let e = map_err(&ipc(IpcError::Conflict {
            code: code.into(),
            message: "no".into(),
        }));
        match key {
            Some(k) => assert_eq!((e.message.as_str(), e.detail.as_deref()), (k, Some("no"))),
            None => assert_eq!((e.message.as_str(), e.detail.as_deref()), ("no", None)),
        }
        assert_eq!(e.title, "groups.err_title");
    }
}

#[test]
fn other_failures_keep_their_words() {
    let e = map_err(&ipc(IpcError::Invalid {
        message: "bad".into(),
    }));
    assert_eq!((e.message.as_str(), e.detail), ("bad", None));
    let e = map_err(&ipc(IpcError::EngineDown {
        reason: "starting".into(),
        kind: EngineDownReason::Other,
    }));
    assert_eq!(
        (e.message.as_str(), e.detail.as_deref()),
        ("groups.err_engine_down", Some("starting"))
    );
    let e = map_err(&Failure::of(Cause::Other("disk full".into())).context("saving"));
    assert_eq!(
        (e.message.as_str(), e.detail.as_deref()),
        ("groups.err_generic", Some("saving: disk full"))
    );
    let e = unexpected("a lease request", "Done");
    assert_eq!(
        e.detail.as_deref(),
        Some("unexpected answer to a lease request: Done")
    );
}

#[test]
fn a_card_says_whether_this_machine_hosts() {
    let status = |lease| DaemonStatus {
        slots: vec![AgentSlotStatus {
            save_id: "s1".into(),
            lease,
            lease_holder: None,
            lease_behind: false,
        }],
    };
    let here = |fp: &str, s: Option<&DaemonStatus>| lease_view("s1", Some(lease(Some(fp))), s, "fp").here;
    assert!(here("other", Some(&status(Some(WorldLease::Mine)))));
    assert!(!here("fp", Some(&status(Some(WorldLease::Other)))));
    assert!(here("fp", Some(&status(Some(WorldLease::Unknown)))));
    assert!(here("fp", Some(&status(None))));
    assert!(here("fp", None));
    assert!(!here("other", None));
    let none = lease_view("s1", None, Some(&status(Some(WorldLease::Mine))), "fp");
    assert!(none.lease.is_none() && !none.here);
}

#[test]
fn only_the_web_and_folders_are_opened() {
    for url in ["https://x", "http://x", "mailto:x"] {
        assert!(may_open(url).is_ok());
    }
    for url in ["file:///etc", "HTTPS://x", "", " https://x"] {
        assert_eq!(may_open(url).unwrap_err(), "refusing to open non-web URL");
    }
    assert!(may_show(true, true).is_ok());
    for (absolute, dir) in [(true, false), (false, true), (false, false)] {
        assert!(may_show(absolute, dir).is_err());
    }
}

#[test]
fn an_opener_does_not_inherit_the_bundles_libraries() {
    let names = polluted_names();
    assert_eq!(names.len(), 7);
    let mut kept = vec![None; names.len()];
    kept[1] = Some("/lib/x.so".to_string());
    let o = platform_opener(System::Linux, "https://x?a&b", kept);
    assert_eq!((o.program, o.args), ("xdg-open", vec!["https://x?a&b".to_string()]));
    assert_eq!(o.env.len(), 7);
    assert!(matches!(&o.env[0], EnvChange::Drop { name: "LD_LIBRARY_PATH" }));
    assert!(matches!(
        &o.env[1],
        EnvChange::Restore { name: "LD_PRELOAD", value } if value == "/lib/x.so"
    ));
    let o = platform_opener(System::MacOs, "x", Vec::new());
    assert_eq!((o.program, o.env.len()), ("open", 0));
    let o = platform_opener(System::Windows, "x", Vec::new());
    assert_eq!(o.program, "rundll32.exe");
    assert_eq!(o.args, ["url.dll,FileProtocolHandler", "x"]);
}

#[test]
fn a_line_of_the_interface_is_capped() {
    let (topic, message) = ui_log(&"t".repeat(40), &"é".repeat(500));
    assert_eq!(topic.chars().count(), 32);
    assert_eq!(message, "é".repeat(400));
    assert_eq!(ui_log("a", "b"), ("a".to_string(), "b".to_string()));
    assert_eq!(greet("Ana"), "Hello from Rust, Ana! 🪙");
}
