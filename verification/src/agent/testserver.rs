//! What a canned server makes of a request: a route is a method and a path, the query aside, with
//! the status and the body it answers. Anything else is not found.

use vstd::prelude::*;

use vstd::utf8::*;

use crate::text::{chars_of, decimal, parse_number, same, signed_decimal, split, text_of, to_lower, trim};
#[allow(unused_imports)]
use crate::text::{all_digits, digits, lower, number, signed_digits, split_on, trimmed, views};

verus! {

/// One canned answer, under the method and the path it is for: `GET /v1/health`.
#[derive(Debug)]
pub struct Route {
    pub key: String,
    pub status: u16,
    pub body: Vec<u8>,
}

/// Does the empty line that ends a head stand here, with the end of the line before it?
pub open spec fn head_ends_at(buf: Seq<u8>, i: int) -> bool {
    &&& 0 <= i
    &&& i + 4 <= buf.len()
    &&& buf[i] == 13 && buf[i + 1] == 10 && buf[i + 2] == 13 && buf[i + 3] == 10
}

/// Where the body begins, once the whole head has arrived.
pub fn head_end(buf: &[u8]) -> (r: Option<usize>)
    ensures
        match r {
            Some(end) => end >= 4 && head_ends_at(buf@, end - 4) && forall|i: int|
                0 <= i < end - 4 ==> !#[trigger] head_ends_at(buf@, i),
            None => forall|i: int| 0 <= i < buf@.len() ==> !#[trigger] head_ends_at(buf@, i),
        },
{
    let mut i: usize = 0;
    while buf.len() - i >= 4
        invariant
            i <= buf.len(),
            forall|k: int| 0 <= k < i ==> !#[trigger] head_ends_at(buf@, k),
        decreases buf.len() - i,
    {
        if buf[i] == 13 && buf[i + 1] == 10 && buf[i + 2] == 13 && buf[i + 3] == 10 {
            assert(head_ends_at(buf@, i as int));
            return Some(i + 4);
        }
        i += 1;
    }
    None
}

/// How many characters stand before the first `c`; all of them where there is none.
pub open spec fn first_at(s: Seq<char>, c: char) -> nat
    decreases s.len(),
{
    if s.len() == 0 || s[0] == c {
        0
    } else {
        1 + first_at(s.skip(1), c)
    }
}

fn first_of(v: &Vec<char>, c: char) -> (r: usize)
    ensures
        r == first_at(v@, c),
        r <= v@.len(),
{
    let mut i: usize = 0;
    assert(v@.skip(0) =~= v@);
    while i < v.len() && v[i] != c
        invariant
            i <= v.len(),
            first_at(v@, c) == i + first_at(v@.skip(i as int), c),
        decreases v.len() - i,
    {
        assert(v@.skip(i as int).skip(1) =~= v@.skip(i + 1));
        i += 1;
    }
    i
}

/// A count: decimal digits, with or without a plus in front.
pub open spec fn count_in(s: Seq<char>) -> Option<usize> {
    let n = if s.len() > 0 && s[0] == '+' {
        s.skip(1)
    } else {
        s
    };
    if n.len() > 0 && all_digits(n) && number(n) <= usize::MAX {
        Some(number(n) as usize)
    } else {
        None
    }
}

fn parse_count(s: &str) -> (r: Option<usize>)
    ensures
        r == count_in(s@),
{
    let c = chars_of(s);
    let from: usize = if c.len() > 0 && c[0] == '+' {
        1
    } else {
        0
    };
    let n = text_of(&c, from, c.len());
    proof {
        if from == 1 {
            assert(c@.subrange(1, c@.len() as int) =~= c@.skip(1));
        } else {
            assert(c@.subrange(0, c@.len() as int) =~= c@);
        }
    }
    match parse_number(n.as_str()) {
        Some(n) => if n <= usize::MAX as u64 {
            Some(n as usize)
        } else {
            None
        },
        None => None,
    }
}

/// The length that a line of the head announces, where it is the line for that.
pub open spec fn announced(line: Seq<char>) -> Option<usize> {
    let k = first_at(line, ':') as int;
    if k < line.len() && lower(line.take(k)) == "content-length"@ {
        count_in(trimmed(line.skip(k + 1)))
    } else {
        None
    }
}

fn announced_in(line: &str) -> (r: Option<usize>)
    ensures
        r == announced(line@),
{
    let c = chars_of(line);
    let k = first_of(&c, ':');
    if k == c.len() {
        return None;
    }
    let name = text_of(&c, 0, k);
    assert(c@.subrange(0, k as int) =~= c@.take(k as int));
    if !same(to_lower(name.as_str()).as_str(), "content-length") {
        return None;
    }
    let value = text_of(&c, k + 1, c.len());
    assert(c@.subrange(k + 1, c@.len() as int) =~= c@.skip(k + 1));
    parse_count(trim(value.as_str()).as_str())
}

/// A line without the carriage return before its end.
pub open spec fn without_return(s: Seq<char>) -> Seq<char> {
    if s.len() > 0 && s.last() == '\r' {
        s.drop_last()
    } else {
        s
    }
}

/// A line of a text. The last is what follows the last line feed.
pub open spec fn line_at(s: Seq<char>, i: int) -> Seq<char> {
    let parts = split_on(s, '\n');
    if i + 1 < parts.len() {
        without_return(parts[i])
    } else {
        parts[i]
    }
}

fn nth_line(parts: &Vec<String>, i: usize, Ghost(s): Ghost<Seq<char>>) -> (r: String)
    requires
        views(parts@) == split_on(s, '\n'),
        i < parts@.len(),
    ensures
        r@ == line_at(s, i as int),
{
    assert(views(parts@)[i as int] == parts@[i as int]@);
    let c = chars_of(parts[i].as_str());
    if parts.len() - i > 1 && c.len() > 0 && c[c.len() - 1] == '\r' {
        let r = text_of(&c, 0, c.len() - 1);
        assert(c@.subrange(0, c@.len() - 1) =~= c@.drop_last());
        r
    } else {
        parts[i].clone()
    }
}

/// The length of the body: what the first line that announces one says, from a line on.
pub open spec fn length_from(s: Seq<char>, i: int) -> usize
    decreases split_on(s, '\n').len() - i,
{
    if i >= split_on(s, '\n').len() {
        0
    } else {
        match announced(line_at(s, i)) {
            Some(n) => n,
            None => length_from(s, i + 1),
        }
    }
}

/// How long the body is that the head announces; nothing where no line does.
pub fn content_length(head: &str) -> (r: usize)
    ensures
        r == length_from(head@, 0),
{
    let parts = split(head, '\n');
    let mut i: usize = 0;
    assert(views(parts@).len() == parts@.len());
    while i < parts.len()
        invariant
            i <= parts.len(),
            views(parts@) == split_on(head@, '\n'),
            views(parts@).len() == parts@.len(),
            length_from(head@, 0) == length_from(head@, i as int),
        decreases parts.len() - i,
    {
        let line = nth_line(&parts, i, Ghost(head@));
        match announced_in(line.as_str()) {
            Some(n) => {
                return n;
            },
            None => {},
        }
        i += 1;
    }
    0
}

/// Is there more of the request to read?
pub fn lacks(arrived: usize, head_end: usize, body: usize) -> (r: bool)
    ensures
        r == (arrived < head_end + body),
{
    arrived < head_end || arrived - head_end < body
}

/// The first line of a request's head.
pub fn request_line(head: &str) -> (r: String)
    ensures
        r@ == line_at(head@, 0),
{
    let parts = split(head, '\n');
    nth_line(&parts, 0, Ghost(head@))
}

/// What a request line asks for: its method and its path, the query aside.
pub open spec fn key_in(line: Seq<char>) -> Seq<char> {
    let parts = split_on(line, ' ');
    parts[0] + " "@ + (if parts.len() > 1 {
        split_on(parts[1], '?')[0]
    } else {
        Seq::empty()
    })
}

/// The key of the route that a request line asks for.
pub fn key_of(line: &str) -> (r: String)
    ensures
        r@ == key_in(line@),
{
    let parts = split(line, ' ');
    assert(views(parts@).len() == parts@.len());
    assert(views(parts@)[0] == parts@[0]@);
    let mut r = parts[0].clone();
    r.append(" ");
    if parts.len() > 1 {
        assert(views(parts@)[1] == parts@[1]@);
        let path = split(parts[1].as_str(), '?');
        assert(views(path@)[0] == path@[0]@);
        r.append(path[0].as_str());
    } else {
        assert(r@ =~= r@ + Seq::<char>::empty());
    }
    r
}

/// Which route answers: the first with the key.
pub open spec fn route_for(routes: Seq<Route>, key: Seq<char>) -> int
    decreases routes.len(),
{
    if routes.len() == 0 {
        0
    } else if routes[0].key@ == key {
        0
    } else {
        1 + route_for(routes.skip(1), key)
    }
}

/// The body of an answer to what no route is for.
pub const NOT_FOUND: &'static str = "{\"error\":\"not found\"}";

/// The status and the body that the key is answered with.
pub fn answer<'a>(routes: &'a Vec<Route>, key: &str) -> (r: (u16, &'a [u8]))
    ensures
        ({
            let i = route_for(routes@, key@);
            if i < routes@.len() {
                r.0 == routes@[i].status && r.1@ == routes@[i].body@
            } else {
                r.0 == 404 && r.1@ == encode_utf8(NOT_FOUND@)
            }
        }),
{
    let mut i: usize = 0;
    assert(routes@.skip(0) =~= routes@);
    while i < routes.len()
        invariant
            i <= routes.len(),
            route_for(routes@, key@) == i + route_for(routes@.skip(i as int), key@),
        decreases routes.len() - i,
    {
        if same(routes[i].key.as_str(), key) {
            return (routes[i].status, routes[i].body.as_slice());
        }
        assert(routes@.skip(i as int).skip(1) =~= routes@.skip(i + 1));
        i += 1;
    }
    (404, NOT_FOUND.as_bytes())
}

/// The head of an answer.
pub fn answer_head(status: u16, body: usize) -> (r: String)
    ensures
        r@ == "HTTP/1.1 "@ + digits(status as nat)
            + " X\r\ncontent-type: application/json\r\ncontent-length: "@ + digits(body as nat)
            + "\r\nconnection: close\r\n\r\n"@,
{
    let mut r = String::new();
    r.append("HTTP/1.1 ");
    r.append(decimal(status as u64).as_str());
    r.append(" X\r\ncontent-type: application/json\r\ncontent-length: ");
    r.append(decimal(body as u64).as_str());
    r.append("\r\nconnection: close\r\n\r\n");
    assert("HTTP/1.1 "@ =~= Seq::<char>::empty() + "HTTP/1.1 "@);
    r
}

/// The keys of a server that holds a save at a version: its health, the save's row, what the
/// version lists and its archive.
#[derive(Debug)]
pub struct VersionKeys {
    pub health: String,
    pub row: String,
    pub listing: String,
    pub archive: String,
}

/// The keys under which a save's version is served.
pub fn version_keys(save_id: &str, version: i64) -> (r: VersionKeys)
    ensures
        r.health@ == "GET /v1/health"@,
        r.row@ == "GET /v1/saves/"@ + save_id@,
        r.listing@ == "GET /v1/saves/"@ + save_id@ + "/snapshots/"@ + signed_digits(version as int),
        r.archive@ == "GET /v1/saves/"@ + save_id@ + "/snapshots/"@ + signed_digits(version as int)
            + "/download"@,
{
    let mut row = "GET /v1/saves/".to_owned();
    row.append(save_id);
    let mut listing = row.clone();
    listing.append("/snapshots/");
    listing.append(signed_decimal(version).as_str());
    let mut archive = listing.clone();
    archive.append("/download");
    VersionKeys { health: "GET /v1/health".to_owned(), row, listing, archive }
}


// ---- laws

/// A request lacks something until its head and the whole of its body have arrived.
pub proof fn a_request_is_read_whole(arrived: usize, head: usize, body: usize, r: bool)
    requires
        call_ensures(lacks, (arrived, head, body), r),
    ensures
        r <==> arrived < head + body,
{
}

proof fn route_is(routes: Seq<Route>, key: Seq<char>, i: int)
    requires
        0 <= i < routes.len(),
        routes[i].key@ == key,
        forall|k: int| 0 <= k < i ==> (#[trigger] routes[k]).key@ != key,
    ensures
        route_for(routes, key) == i,
    decreases i,
{
    if i > 0 {
        let rest = routes.skip(1);
        assert(routes[0].key@ != key);
        assert(rest[i - 1] == routes[i]);
        assert forall|k: int| 0 <= k < i - 1 implies (#[trigger] rest[k]).key@ != key by {
            assert(rest[k] == routes[k + 1]);
        }
        route_is(rest, key, i - 1);
    }
}

proof fn no_route_is(routes: Seq<Route>, key: Seq<char>)
    requires
        forall|k: int| 0 <= k < routes.len() ==> (#[trigger] routes[k]).key@ != key,
    ensures
        route_for(routes, key) == routes.len(),
    decreases routes.len(),
{
    if routes.len() > 0 {
        let rest = routes.skip(1);
        assert(routes[0].key@ != key);
        assert forall|k: int| 0 <= k < rest.len() implies (#[trigger] rest[k]).key@ != key by {
            assert(rest[k] == routes[k + 1]);
        }
        no_route_is(rest, key);
    }
}

/// A route answers for its own key, the first of several; what has no route is not found.
pub proof fn a_route_answers_for_its_key(routes: Vec<Route>, key: &str, r: (u16, &[u8]), i: int)
    requires
        call_ensures(answer, (&routes, key), r),
    ensures
        (0 <= i < routes@.len() && routes@[i].key@ == key@ && forall|k: int|
            0 <= k < i ==> (#[trigger] routes@[k]).key@ != key@) ==> r.0 == routes@[i].status
            && r.1@ == routes@[i].body@,
        (forall|k: int| 0 <= k < routes@.len() ==> (#[trigger] routes@[k]).key@ != key@) ==> r.0
            == 404,
{
    if 0 <= i < routes@.len() && routes@[i].key@ == key@ && (forall|k: int|
        0 <= k < i ==> (#[trigger] routes@[k]).key@ != key@) {
        route_is(routes@, key@, i);
    }
    if forall|k: int| 0 <= k < routes@.len() ==> (#[trigger] routes@[k]).key@ != key@ {
        no_route_is(routes@, key@);
    }
}

/// The keys of a version lie below one another, and the head of an answer says its status and the
/// length of its body.
pub proof fn keys_and_heads(id: &str, version: i64, r: VersionKeys, status: u16, body: usize, head: String)
    requires
        call_ensures(version_keys, (id, version), r),
        call_ensures(answer_head, (status, body), head),
    ensures
        r.health@ == "GET /v1/health"@,
        r.row@ == "GET /v1/saves/"@ + id@,
        r.listing@ == r.row@ + "/snapshots/"@ + signed_digits(version as int),
        r.archive@ == r.listing@ + "/download"@,
        head@ == "HTTP/1.1 "@ + digits(status as nat)
            + " X\r\ncontent-type: application/json\r\ncontent-length: "@ + digits(body as nat)
            + "\r\nconnection: close\r\n\r\n"@,
{
}

} // verus!
