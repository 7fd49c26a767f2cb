//! The stream of lease frames.

use hoard::agent::live::{classify, gate, heard, Backoff, Gate, SseParser};
use hoard::agent::slot::LeaseObs;
use hoard::wire::LeaseEvent;

fn frame(holder: Option<&str>, live: bool) -> LeaseEvent {
    LeaseEvent {
        save_id: "w1".into(),
        holder_user_id: holder.map(String::from),
        live,
        pushed_since: false,
    }
}

#[test]
fn a_frame_reads_as_mine_other_or_free() {
    assert_eq!(classify(&frame(Some("me"), true), "me"), LeaseObs::Mine);
    assert_eq!(classify(&frame(Some("bob"), true), "me"), LeaseObs::Other);
    assert_eq!(classify(&frame(None, false), "me"), LeaseObs::Free);
    // A holder the server no longer counts as live holds nothing.
    assert_eq!(classify(&frame(Some("bob"), false), "me"), LeaseObs::Free);
}

/// Frames split across chunks, comments between them, CRLF endings.
#[test]
fn the_parser_reassembles_frames_across_chunks() {
    let mut p = SseParser::new();
    assert!(p.push(": keep-alive\n\nevent: lea").is_empty());
    let got = p.push("se\r\ndata: {\"save_id\":\"w1\"}\r\n\r\nevent: lagged\ndata: \n\n");
    assert_eq!(
        got,
        vec![
            ("lease".to_string(), "{\"save_id\":\"w1\"}".to_string()),
            ("lagged".to_string(), String::new()),
        ]
    );
    // A multi-line `data:` joins with newlines.
    let got = p.push("data: a\ndata: b\n\n");
    assert_eq!(got, vec![(String::new(), "a\nb".to_string())]);
}

#[test]
fn a_stream_may_be_cut_anywhere() {
    let stream = "event:lease\ndata:{\n: note\ndata:  x}\r\r\nretry: 5\n\n\n\nevent: save \n\nrest";
    let mut whole = SseParser::new();
    let expected = whole.push(stream);
    assert_eq!(
        expected,
        vec![
            ("lease".to_string(), "{\n x}".to_string()),
            ("save".to_string(), String::new()),
        ]
    );
    for cut in 0..=stream.len() {
        let mut p = SseParser::new();
        let mut got = p.push(&stream[..cut]);
        got.extend(p.push(&stream[cut..]));
        assert_eq!(got, expected, "cut at {cut}");
    }
}

#[test]
fn a_frame_names_only_somebody_else() {
    let named = || Some("bob".to_string());
    let r = heard(&frame(Some("u2"), true), "u1", named());
    assert_eq!((r.lease, r.holder.as_deref()), (LeaseObs::Other, Some("bob")));
    assert!(!r.verdict);
    let r = heard(&frame(Some("u1"), true), "u1", named());
    assert_eq!((r.lease, r.holder), (LeaseObs::Mine, None));
    assert_eq!(heard(&frame(None, false), "u1", named()).holder, None);
}

#[test]
fn waits_double_up_to_a_minute() {
    let mut b = Backoff::new();
    let waits: Vec<u64> = (0..7).map(|_| b.wait()).collect();
    assert_eq!(waits, [2, 4, 8, 16, 32, 60, 60]);
    // A stream that ended on its own starts the waits over; a dropped one goes on with them.
    assert_eq!(b.after_stream(false), 60);
    assert_eq!(b.after_stream(true), 2);
    assert_eq!(b.after_stream(false), 4);
}

#[test]
fn only_a_definite_answer_settles_the_gate() {
    let mut b = Backoff::new();
    assert_eq!(gate(None, &mut b), Gate::Retry(2));
    assert_eq!(gate(None, &mut b), Gate::Retry(4));
    assert_eq!(gate(Some(true), &mut b), Gate::Listen);
    assert_eq!(gate(Some(false), &mut b), Gate::Stop);
}
