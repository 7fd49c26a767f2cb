//! A stand-in for the server that lists releases: each path answers with its JSON, anything else
//! is not found.

use vstd::prelude::*;

use vstd::utf8::*;

use crate::agent::testserver::request_line;
#[allow(unused_imports)]
use crate::agent::testserver::line_at;
use crate::agent::update::tag_version;
#[allow(unused_imports)]
use crate::agent::update::tag_version_of;
use crate::text::{chars_of, decimal, same, text_of};
#[allow(unused_imports)]
use crate::text::{digits, is_white};

verus! {

/// The path that the stable channel asks.
pub const LATEST_PATH: &'static str = "/repos/DevOfPie/hoard/releases/latest";

/// The path that the pre-release channel asks.
pub const LIST_PATH: &'static str = "/repos/DevOfPie/hoard/releases?per_page=10";

/// How many characters at the beginning are white space, or are not.
pub open spec fn run(s: Seq<char>, white: bool) -> nat
    decreases s.len(),
{
    if s.len() > 0 && is_white(s[0]) == white {
        1 + run(s.skip(1), white)
    } else {
        0
    }
}

/// The second word of a line; nothing where it has none.
pub open spec fn second_word(s: Seq<char>) -> Seq<char> {
    let a = s.skip(run(s, true) as int);
    let b = a.skip(run(a, false) as int);
    let c = b.skip(run(b, true) as int);
    c.take(run(c, false) as int)
}

fn run_end(v: &Vec<char>, from: usize, white: bool) -> (r: usize)
    requires
        from <= v@.len(),
    ensures
        r == from + run(v@.skip(from as int), white),
        from <= r <= v@.len(),
{
    let mut i: usize = from;
    while i < v.len() && v[i].is_whitespace() == white
        invariant
            from <= i <= v.len(),
            from + run(v@.skip(from as int), white) == i + run(v@.skip(i as int), white),
        decreases v.len() - i,
    {
        assert(v@.skip(i as int).skip(1) =~= v@.skip(i + 1));
        i += 1;
    }
    i
}

/// The path that a request asks for.
pub fn asked_path(head: &str) -> (r: String)
    ensures
        r@ == second_word(line_at(head@, 0)),
{
    let line = request_line(head);
    let c = chars_of(line.as_str());
    let a = run_end(&c, 0, true);
    let b = run_end(&c, a, false);
    let from = run_end(&c, b, true);
    let to = run_end(&c, from, false);
    proof {
        assert(c@.skip(0) =~= c@);
        assert(c@.skip(a as int).skip(b - a) =~= c@.skip(b as int));
        assert(c@.skip(b as int).skip(from - b) =~= c@.skip(from as int));
        assert(c@.subrange(from as int, to as int) =~= c@.skip(from as int).take(to - from));
    }
    text_of(&c, from, to)
}

/// Which of the pairs is for the path: the first that names it.
pub open spec fn pair_for(routes: Seq<(&'static str, String)>, path: Seq<char>) -> int
    decreases routes.len(),
{
    if routes.len() == 0 {
        0
    } else if routes[0].0@ == path {
        0
    } else {
        1 + pair_for(routes.skip(1), path)
    }
}

/// The answer with a status line and a body.
pub open spec fn reply_text(status: Seq<char>, body: Seq<char>) -> Seq<char> {
    "HTTP/1.1 "@ + status + "\r\nContent-Type: application/json\r\nContent-Length: "@ + digits(
        encode_utf8(body).len(),
    ) + "\r\nConnection: close\r\n\r\n"@ + body
}

fn reply(status: &str, body: &str) -> (r: String)
    ensures
        r@ == reply_text(status@, body@),
{
    let mut r = "HTTP/1.1 ".to_owned();
    r.append(status);
    r.append("\r\nContent-Type: application/json\r\nContent-Length: ");
    r.append(decimal(body.as_bytes().len() as u64).as_str());
    r.append("\r\nConnection: close\r\n\r\n");
    r.append(body);
    r
}

/// The whole answer to a request for the path.
pub fn github_reply(routes: &Vec<(&'static str, String)>, path: &str) -> (r: String)
    ensures
        ({
            let i = pair_for(routes@, path@);
            r@ == if i < routes@.len() {
                reply_text("200 OK"@, routes@[i].1@)
            } else {
                reply_text("404 Not Found"@, "{\"message\":\"Not Found\"}"@)
            }
        }),
{
    let mut i: usize = 0;
    assert(routes@.skip(0) =~= routes@);
    while i < routes.len()
        invariant
            i <= routes.len(),
            pair_for(routes@, path@) == i + pair_for(routes@.skip(i as int), path@),
        decreases routes.len() - i,
    {
        if same(routes[i].0, path) {
            return reply("200 OK", routes[i].1.as_str());
        }
        assert(routes@.skip(i as int).skip(1) =~= routes@.skip(i + 1));
        i += 1;
    }
    reply("404 Not Found", "{\"message\":\"Not Found\"}")
}

/// The name and the address of the package that a release carries.
pub fn asset_of(tag: &str) -> (r: (String, String))
    ensures
        r.0@ == "hoard_"@ + tag_version_of(tag@) + "_amd64.deb"@,
        r.1@ == "https://example.invalid/"@ + tag@ + ".deb"@,
{
    let mut name = "hoard_".to_owned();
    name.append(tag_version(tag).as_str());
    name.append("_amd64.deb");
    let mut url = "https://example.invalid/".to_owned();
    url.append(tag);
    url.append(".deb");
    (name, url)
}


// ---- laws

proof fn pair_is(routes: Seq<(&'static str, String)>, path: Seq<char>, i: int)
    requires
        0 <= i < routes.len(),
        routes[i].0@ == path,
        forall|k: int| 0 <= k < i ==> (#[trigger] routes[k]).0@ != path,
    ensures
        pair_for(routes, path) == i,
    decreases i,
{
    if i > 0 {
        let rest = routes.skip(1);
        assert(routes[0].0@ != path);
        assert(rest[i - 1] == routes[i]);
        assert forall|k: int| 0 <= k < i - 1 implies (#[trigger] rest[k]).0@ != path by {
            assert(rest[k] == routes[k + 1]);
        }
        pair_is(rest, path, i - 1);
    }
}

proof fn no_pair_is(routes: Seq<(&'static str, String)>, path: Seq<char>)
    requires
        forall|k: int| 0 <= k < routes.len() ==> (#[trigger] routes[k]).0@ != path,
    ensures
        pair_for(routes, path) == routes.len(),
    decreases routes.len(),
{
    if routes.len() > 0 {
        let rest = routes.skip(1);
        assert(routes[0].0@ != path);
        assert forall|k: int| 0 <= k < rest.len() implies (#[trigger] rest[k]).0@ != path by {
            assert(rest[k] == routes[k + 1]);
        }
        no_pair_is(rest, path);
    }
}

/// A path answers with its own JSON, whole and with its length in bytes; any other is not found.
pub proof fn a_path_answers_with_its_json(
    routes: Vec<(&'static str, String)>,
    path: &str,
    r: String,
    i: int,
)
    requires
        call_ensures(github_reply, (&routes, path), r),
    ensures
        (0 <= i < routes@.len() && routes@[i].0@ == path@ && forall|k: int|
            0 <= k < i ==> (#[trigger] routes@[k]).0@ != path@) ==> r@ == "HTTP/1.1 "@ + "200 OK"@
            + "\r\nContent-Type: application/json\r\nContent-Length: "@ + digits(
            encode_utf8(routes@[i].1@).len(),
        ) + "\r\nConnection: close\r\n\r\n"@ + routes@[i].1@,
        (forall|k: int| 0 <= k < routes@.len() ==> (#[trigger] routes@[k]).0@ != path@) ==> r@
            == "HTTP/1.1 "@ + "404 Not Found"@
            + "\r\nContent-Type: application/json\r\nContent-Length: "@ + digits(
            encode_utf8("{\"message\":\"Not Found\"}"@).len(),
        ) + "\r\nConnection: close\r\n\r\n"@ + "{\"message\":\"Not Found\"}"@,
{
    if 0 <= i < routes@.len() && routes@[i].0@ == path@ && (forall|k: int|
        0 <= k < i ==> (#[trigger] routes@[k]).0@ != path@) {
        pair_is(routes@, path@, i);
    }
    if forall|k: int| 0 <= k < routes@.len() ==> (#[trigger] routes@[k]).0@ != path@ {
        no_pair_is(routes@, path@);
    }
}

/// A release's package is named by its version, and its address by its tag.
pub proof fn a_package_is_named_by_its_release(tag: &str, version: String, r: (String, String))
    requires
        call_ensures(asset_of, (tag,), r),
        call_ensures(tag_version, (tag,), version),
    ensures
        r.0@ == "hoard_"@ + version@ + "_amd64.deb"@,
        r.1@ == "https://example.invalid/"@ + tag@ + ".deb"@,
{
}

} // verus!
