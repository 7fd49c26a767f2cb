//! What the canned servers make of a request.

use hoard::agent::testing::{asked_path, asset_of, github_reply, LATEST_PATH, LIST_PATH};
use hoard::agent::testserver::{
    answer, answer_head, content_length, head_end, key_of, lacks, request_line, version_keys, Route,
    NOT_FOUND,
};

#[test]
fn the_head_ends_at_the_first_empty_line() {
    assert_eq!(head_end(b"GET / HTTP/1.1\r\n\r\nbody\r\n\r\n"), Some(18));
    assert_eq!(head_end(b"\r\n\r\n"), Some(4));
    assert_eq!(head_end(b"\r\r\n\r\n"), Some(5));
    assert_eq!(head_end(b"GET / HTTP/1.1\r\n"), None);
    assert_eq!(head_end(b"a\n\nb"), None);
    assert_eq!(head_end(b""), None);
}

#[test]
fn the_first_line_that_announces_a_length_says_it() {
    assert_eq!(content_length("PUT /x HTTP/1.1\r\nHost: a\r\nContent-Length: 12\r\n\r\n"), 12);
    assert_eq!(content_length("PUT /x HTTP/1.1\r\nCONTENT-LENGTH:+7 \r\n\r\n"), 7);
    // One that does not read is passed over.
    assert_eq!(content_length("PUT /x\r\nContent-Length: x\r\ncontent-length: 3\r\n\r\n"), 3);
    assert_eq!(content_length("PUT /x\r\nContent-Length: -1\r\n\r\n"), 0);
    assert_eq!(content_length("PUT /x\r\nContent-Length: 99999999999999999999\r\n\r\n"), 0);
    assert_eq!(content_length("GET /x HTTP/1.1\r\nHost: a:80\r\n\r\n"), 0);
    assert_eq!(content_length(""), 0);
}

#[test]
fn a_request_is_read_to_the_end_of_its_body() {
    assert!(lacks(10, 18, 0));
    assert!(lacks(20, 18, 4));
    assert!(!lacks(22, 18, 4));
    assert!(!lacks(30, 18, 4));
    assert!(lacks(30, 18, usize::MAX));
}

#[test]
fn a_route_is_a_method_and_a_path() {
    let head = "GET /v1/saves/s1?x=1&y=2 HTTP/1.1\r\nHost: a\r\n\r\n";
    let line = request_line(head);
    assert_eq!(line, "GET /v1/saves/s1?x=1&y=2 HTTP/1.1");
    assert_eq!(key_of(&line), "GET /v1/saves/s1");
    assert_eq!(key_of("GET"), "GET ");
    assert_eq!(key_of(""), " ");
    let routes = vec![
        Route { key: "GET /a".into(), status: 200, body: b"one".to_vec() },
        Route { key: "GET /a".into(), status: 500, body: b"two".to_vec() },
        Route { key: "PUT /a".into(), status: 409, body: b"three".to_vec() },
    ];
    assert_eq!(answer(&routes, "GET /a"), (200, b"one".as_slice()));
    assert_eq!(answer(&routes, "PUT /a"), (409, b"three".as_slice()));
    assert_eq!(answer(&routes, "GET /b"), (404, NOT_FOUND.as_bytes()));
    assert_eq!(
        answer_head(404, NOT_FOUND.len()),
        "HTTP/1.1 404 X\r\ncontent-type: application/json\r\ncontent-length: 21\r\n\
         connection: close\r\n\r\n"
    );
}

#[test]
fn a_version_is_served_under_four_keys() {
    let keys = version_keys("s1", 7);
    assert_eq!(keys.health, "GET /v1/health");
    assert_eq!(keys.row, "GET /v1/saves/s1");
    assert_eq!(keys.listing, "GET /v1/saves/s1/snapshots/7");
    assert_eq!(keys.archive, "GET /v1/saves/s1/snapshots/7/download");
}

#[test]
fn a_release_is_found_by_path_and_query() {
    let routes = vec![(LATEST_PATH, "{}".to_string()), (LIST_PATH, "[1]".to_string())];
    assert_eq!(
        github_reply(&routes, LIST_PATH),
        "HTTP/1.1 200 OK\r\nContent-Type: application/json\r\nContent-Length: 3\r\n\
         Connection: close\r\n\r\n[1]"
    );
    assert!(github_reply(&routes, LATEST_PATH).ends_with("\r\n\r\n{}"));
    assert_eq!(
        github_reply(&routes, "/"),
        "HTTP/1.1 404 Not Found\r\nContent-Type: application/json\r\nContent-Length: 23\r\n\
         Connection: close\r\n\r\n{\"message\":\"Not Found\"}"
    );
    assert_eq!(asked_path("GET /a?b=1 HTTP/1.1\r\nHost: x\r\n\r\n"), "/a?b=1");
    assert_eq!(asked_path("  GET \t /a"), "/a");
    assert_eq!(asked_path("GET"), "");
    assert_eq!(asked_path(""), "");
    let (name, url) = asset_of("v1.2.0-1");
    assert_eq!(name, "hoard_1.2.0-1_amd64.deb");
    assert_eq!(url, "https://example.invalid/v1.2.0-1.deb");
}
