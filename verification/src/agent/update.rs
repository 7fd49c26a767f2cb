//! What is the newest published release, and is this binary behind it?
//!
//! Every check is best-effort: where one fails, the answer is "assume up to date".

use vstd::prelude::*;

use crate::text::{chars_of, strip_prefix, text_of, trim};
#[allow(unused_imports)]
use crate::text::{begins, trimmed};

verus! {

/// This version.
pub const VERSION: &'static str = "0.1.0";

/// How long a cached answer is trusted before the next check, in seconds: six hours.
pub const CACHE_TTL: u64 = 21_600;

/// This binary's version.
pub fn current() -> (r: &'static str)
    ensures
        r@ == VERSION@,
{
    VERSION
}

/// A version by its parts.
#[derive(Debug, PartialEq, Eq)]
pub struct Version {
    pub major: u64,
    pub minor: u64,
    pub patch: u64,
    pub pre: String,
    pub build: String,
}

/// The parts of a version, as texts and numbers.
pub ghost struct Parts {
    pub major: u64,
    pub minor: u64,
    pub patch: u64,
    pub pre: Seq<char>,
    pub build: Seq<char>,
}

/// The parts of a version.
pub open spec fn parts_of(v: Version) -> Parts {
    Parts { major: v.major, minor: v.minor, patch: v.patch, pre: v.pre@, build: v.build@ }
}

/// How one version stands to another.
#[derive(Debug, Clone, Copy, PartialEq, Eq, Structural)]
pub enum Precedence {
    Older,
    Same,
    Newer,
}

/// The other way round.
pub open spec fn flipped(p: Precedence) -> Precedence {
    match p {
        Precedence::Older => Precedence::Newer,
        Precedence::Same => Precedence::Same,
        Precedence::Newer => Precedence::Older,
    }
}

/// The version that `semver::Version::parse` reads: major, minor and patch, the pre-release and
/// the build metadata. `None` where it refuses the text.
pub uninterp spec fn semver_parts(text: Seq<char>) -> Option<(u64, u64, u64, Seq<char>, Seq<char>)>;

/// How one pre-release stands to another, by `semver`'s order of `Prerelease`.
pub uninterp spec fn pre_precedence(a: Seq<char>, b: Seq<char>) -> Precedence;

/// The version that a text is.
pub open spec fn version_of(text: Seq<char>) -> Option<Parts> {
    match semver_parts(text) {
        Some((major, minor, patch, pre, build)) => Some(Parts { major, minor, patch, pre, build }),
        None => None,
    }
}

/// `semver::Version::parse`: what it reads is a function of the text alone.
#[verifier::external_body]
fn parse_semver(text: &str) -> (r: Option<Version>)
    ensures
        r is Some == semver_parts(text@) is Some,
        r is Some ==> semver_parts(text@) == Some(
            (r->0.major, r->0.minor, r->0.patch, r->0.pre@, r->0.build@),
        ),
{
    let v = semver::Version::parse(text).ok()?;
    let (pre, build) = (v.pre.as_str().to_string(), v.build.as_str().to_string());
    Some(Version { major: v.major, minor: v.minor, patch: v.patch, pre, build })
}

/// Do the two differ in nothing but the pre-release and the build?
pub open spec fn same_numbers(a: Parts, b: Parts) -> bool {
    a.major == b.major && a.minor == b.minor && a.patch == b.patch
}

/// Are the numbers of `a` before those of `b`: major first, then minor, then patch?
pub open spec fn lower_numbers(a: Parts, b: Parts) -> bool {
    ||| a.major < b.major
    ||| a.major == b.major && a.minor < b.minor
    ||| a.major == b.major && a.minor == b.minor && a.patch < b.patch
}

/// By precedence: major, minor, patch, then the pre-release. Build metadata carries none.
pub open spec fn precedence_of(a: Parts, b: Parts) -> Precedence {
    if same_numbers(a, b) {
        pre_precedence(a.pre, b.pre)
    } else if lower_numbers(a, b) {
        Precedence::Older
    } else {
        Precedence::Newer
    }
}

/// `semver::Version::cmp_precedence` of two texts that `semver::Version::parse` reads: by major,
/// minor and patch, then by the order of the pre-releases. That order is antisymmetric and
/// transitive, calls two equal texts the same, and puts a version with a pre-release before the
/// one without.
#[verifier::external_body]
fn weigh(a: &str, b: &str) -> (r: Option<Precedence>)
    ensures
        r is Some == (semver_parts(a@) is Some && semver_parts(b@) is Some),
        r is Some && !same_numbers(version_of(a@)->0, version_of(b@)->0) ==> r->0 == (
        if lower_numbers(version_of(a@)->0, version_of(b@)->0) {
            Precedence::Older
        } else {
            Precedence::Newer
        }),
        r is Some && same_numbers(version_of(a@)->0, version_of(b@)->0) ==> r->0 == pre_precedence(
            version_of(a@)->0.pre,
            version_of(b@)->0.pre,
        ),
        r is Some && same_numbers(version_of(a@)->0, version_of(b@)->0) ==> r->0 == flipped(
            pre_precedence(version_of(b@)->0.pre, version_of(a@)->0.pre),
        ),
        r is Some && same_numbers(version_of(a@)->0, version_of(b@)->0) && version_of(a@)->0.pre
            == version_of(b@)->0.pre ==> r->0 == Precedence::Same,
        r is Some && same_numbers(version_of(a@)->0, version_of(b@)->0) && version_of(
            a@,
        )->0.pre.len() == 0 && version_of(b@)->0.pre.len() > 0 ==> r->0 == Precedence::Newer,
        r == Some(Precedence::Newer) && same_numbers(version_of(a@)->0, version_of(b@)->0)
            ==> forall|c: Seq<char>|
            #[trigger] semver_parts(c) is Some && pre_precedence(
                version_of(b@)->0.pre,
                version_of(c)->0.pre,
            ) == Precedence::Newer ==> pre_precedence(version_of(a@)->0.pre, version_of(c)->0.pre)
                == Precedence::Newer,
{
    let (a, b) = (semver::Version::parse(a).ok()?, semver::Version::parse(b).ok()?);
    Some(match a.cmp_precedence(&b) {
        std::cmp::Ordering::Less => Precedence::Older,
        std::cmp::Ordering::Equal => Precedence::Same,
        std::cmp::Ordering::Greater => Precedence::Newer,
    })
}

/// The text that a tag is read as: without white space around it and the leading `v`.
pub open spec fn bare(v: Seq<char>) -> Seq<char> {
    if begins(trimmed(v), "v"@) {
        trimmed(v).skip("v"@.len() as int)
    } else {
        trimmed(v)
    }
}

/// Without white space around it and the leading `v`.
fn without_v(v: &str) -> (r: String)
    ensures
        r@ == bare(v@),
{
    let t = trim(v);
    match strip_prefix(t.as_str(), "v") {
        Some(rest) => rest,
        None => t,
    }
}

/// A version, tolerant of white space around it and of the tag's leading `v`. `None` for anything
/// that is no semantic version. The pre-release is kept: `1.2.0-1` is a test build before `1.2.0`.
pub fn parse(v: &str) -> (r: Option<Version>)
    ensures
        r is Some == version_of(bare(v@)) is Some,
        r matches Some(x) ==> version_of(bare(v@)) == Some(parts_of(x)),
{
    parse_semver(without_v(v).as_str())
}

/// Is `candidate` strictly newer than `base`? Not where either is no version.
pub open spec fn newer(candidate: Seq<char>, base: Seq<char>) -> bool {
    match (version_of(bare(candidate)), version_of(bare(base))) {
        (Some(a), Some(b)) => precedence_of(a, b) == Precedence::Newer,
        _ => false,
    }
}

/// True when `candidate` is strictly newer than `base` by precedence. Unparseable input on either
/// side is `false`: never nag, and never install, on a version that cannot be compared. Nothing
/// is newer than itself, of two versions at most one is the newer, what is newer than a version is
/// newer than all that this one is newer than, and a release is newer than any pre-release of it.
pub fn is_newer(candidate: &str, base: &str) -> (r: bool)
    ensures
        r == newer(candidate@, base@),
        r ==> !newer(base@, candidate@),
        r ==> forall|c: Seq<char>| newer(base@, c) ==> #[trigger] newer(candidate@, c),
        bare(candidate@) == bare(base@) ==> !r,
        version_of(bare(candidate@)) is Some && version_of(bare(base@)) is Some && same_numbers(
            version_of(bare(candidate@))->0,
            version_of(bare(base@))->0,
        ) && version_of(bare(candidate@))->0.pre.len() == 0 && version_of(bare(base@))->0.pre.len()
            > 0 ==> r,
{
    let a = without_v(candidate);
    let b = without_v(base);
    match weigh(a.as_str(), b.as_str()) {
        Some(p) => p == Precedence::Newer,
        None => false,
    }
}

/// The version that a release's tag names: without the `v`s it starts with.
pub open spec fn tag_version_of(tag: Seq<char>) -> Seq<char>
    decreases tag.len(),
{
    if tag.len() > 0 && tag[0] == 'v' {
        tag_version_of(tag.skip(1))
    } else {
        tag
    }
}

/// The version that a release's tag names.
pub fn tag_version(tag: &str) -> (r: String)
    ensures
        r@ == tag_version_of(tag@),
{
    let c = chars_of(tag);
    let mut i: usize = 0;
    assert(c@.skip(0) =~= c@);
    while i < c.len() && c[i] == 'v'
        invariant
            i <= c.len(),
            tag_version_of(c@) == tag_version_of(c@.skip(i as int)),
        decreases c.len() - i,
    {
        assert(c@.skip(i as int).skip(1) =~= c@.skip(i + 1));
        i += 1;
    }
    assert(c@.subrange(i as int, c.len() as int) =~= c@.skip(i as int));
    text_of(&c, i, c.len())
}

/// The text under a key in the JSON object that the body is, as `serde_json` reads it; `None` where
/// the body is no object with a text there.
pub uninterp spec fn text_under(body: Seq<char>, key: Seq<char>) -> Option<Seq<char>>;

/// `serde_json::from_str` into a `Value`, then `get` with the key and `as_str`: what comes out
/// depends on the body and the key alone.
#[verifier::external_body]
fn read_text_under(body: &str, key: &str) -> (r: Option<String>)
    ensures
        r is Some == text_under(body@, key@) is Some,
        r is Some ==> text_under(body@, key@) == Some(r->0@),
{
    let json: serde_json::Value = serde_json::from_str(body).ok()?;
    Some(json.get(key)?.as_str()?.to_string())
}

/// The tag that the release server's answer names.
pub open spec fn tag_name_in(body: Seq<char>) -> Option<Seq<char>> {
    text_under(body, "tag_name"@)
}

/// The newest version that the release server's answer names; `None` for an answer that is no
/// success or names none.
pub fn latest_in(success: bool, body: &str) -> (r: Option<String>)
    ensures
        r is Some == (success && tag_name_in(body@) is Some),
        r matches Some(v) ==> v@ == tag_version_of(tag_name_in(body@)->0),
{
    if !success {
        return None;
    }
    match read_text_under(body, "tag_name") {
        Some(tag) => Some(tag_version(tag.as_str())),
        None => None,
    }
}

/// A cached answer, and when it was fetched.
#[derive(Debug)]
pub struct Cache {
    pub latest: String,
    pub checked_at: u64,
}

/// What a question for the newest version needs.
#[derive(Debug)]
pub enum Lookup {
    /// Nothing: the cached answer is fresh.
    Known(String),
    /// A fetch; where it fails, the stale answer stands, if there is one.
    Fetch { stale: Option<String> },
}

/// Is the cached answer young enough? One from the future is.
pub open spec fn fresh(c: Cache, now: u64) -> bool {
    now < c.checked_at + CACHE_TTL
}

/// Whether a fetch is needed.
pub fn lookup(cache: Option<Cache>, now: u64) -> (r: Lookup)
    ensures
        r == (match cache {
            Some(c) => if fresh(c, now) {
                Lookup::Known(c.latest)
            } else {
                Lookup::Fetch { stale: Some(c.latest) }
            },
            None => Lookup::Fetch { stale: None },
        }),
{
    match cache {
        Some(c) => if now.saturating_sub(c.checked_at) < CACHE_TTL {
            Lookup::Known(c.latest)
        } else {
            Lookup::Fetch { stale: Some(c.latest) }
        },
        None => Lookup::Fetch { stale: None },
    }
}

/// The answer after a fetch, and whether it is to be cached.
pub fn cached_latest(fetched: Option<String>, stale: Option<String>) -> (r: (Option<String>, bool))
    ensures
        r.0 == (if fetched is Some {
            fetched
        } else {
            stale
        }),
        r.1 == fetched is Some,
{
    match fetched {
        Some(v) => (Some(v), true),
        None => (stale, false),
    }
}

/// The newest version if it is ahead of this binary.
pub fn available_update(latest: Option<String>, current: &str) -> (r: Option<String>)
    ensures
        r == (if latest is Some && newer(latest->0@, current@) {
            latest
        } else {
            None
        }),
{
    match latest {
        Some(v) => if is_newer(v.as_str(), current) {
            Some(v)
        } else {
            None
        },
        None => None,
    }
}

// ---- laws

/// A version is newer by its first number that differs, whatever stands around it: white space, the
/// tag's `v`, the pre-release.
pub proof fn numbers_decide_first(
    candidate: &str,
    base: &str,
    a: Option<Version>,
    b: Option<Version>,
    r: bool,
)
    requires
        call_ensures(parse, (candidate,), a),
        call_ensures(parse, (base,), b),
        call_ensures(is_newer, (candidate, base), r),
    ensures
        a is None || b is None ==> !r,
        a is Some && b is Some ==> {
            let (x, y) = (a->0, b->0);
            &&& x.major > y.major ==> r
            &&& x.major < y.major ==> !r
            &&& x.major == y.major && x.minor > y.minor ==> r
            &&& x.major == y.major && x.minor < y.minor ==> !r
            &&& x.major == y.major && x.minor == y.minor && x.patch > y.patch ==> r
            &&& x.major == y.major && x.minor == y.minor && x.patch < y.patch ==> !r
            &&& x.major == y.major && x.minor == y.minor && x.patch == y.patch && x.pre@.len() == 0
                && y.pre@.len() > 0 ==> r
        },
        candidate@ == base@ ==> !r,
{
}

/// A leading `v` and white space around a version do not count.
pub proof fn a_tag_reads_as_its_version(
    tag: &str,
    version: &str,
    a: Option<Version>,
    b: Option<Version>,
)
    requires
        call_ensures(parse, (tag,), a),
        call_ensures(parse, (version,), b),
        version@.len() > 0,
        trimmed(version@) == version@,
        version@[0] != 'v',
        trimmed(tag@) == version@ || trimmed(tag@) == seq!['v'] + version@,
    ensures
        a is Some <==> b is Some,
        a is Some ==> {
            &&& a->0.major == b->0.major
            &&& a->0.minor == b->0.minor
            &&& a->0.patch == b->0.patch
            &&& a->0.pre@ == b->0.pre@
            &&& a->0.build@ == b->0.build@
        },
{
    reveal_strlit("v");
    assert("v"@ =~= seq!['v']);
    assert(version@.take(1)[0] == version@[0]);
    assert(!begins(version@, "v"@));
    assert(bare(version@) == version@);
    let t = trimmed(tag@);
    if t == seq!['v'] + version@ {
        assert(t.take(1) =~= "v"@);
        assert(t.skip(1) =~= version@);
    }
    assert(bare(tag@) == version@);
}

proof fn tag_without_vs(tag: Seq<char>, k: nat)
    requires
        k <= tag.len(),
        forall|i: int| 0 <= i < k ==> #[trigger] tag[i] == 'v',
        k < tag.len() ==> tag[k as int] != 'v',
    ensures
        tag_version_of(tag) == tag.skip(k as int),
    decreases k,
{
    if k > 0 {
        assert(tag[0] == 'v');
        let rest = tag.skip(1);
        assert forall|i: int| 0 <= i < k - 1 implies #[trigger] rest[i] == 'v' by {
            assert(rest[i] == tag[i + 1]);
        }
        tag_without_vs(rest, (k - 1) as nat);
        assert(rest.skip(k - 1) =~= tag.skip(k as int));
    } else {
        assert(tag.skip(0) =~= tag);
    }
}

/// A release's tag names what follows the `v`s it starts with, and an answer of the release server
/// the version of its tag, where it succeeded and names one.
pub proof fn the_newest_is_the_tags(
    tag: &str,
    k: nat,
    version: String,
    success: bool,
    body: &str,
    r: Option<String>,
)
    requires
        call_ensures(tag_version, (tag,), version),
        call_ensures(latest_in, (success, body), r),
        k <= tag@.len(),
        forall|i: int| 0 <= i < k ==> #[trigger] tag@[i] == 'v',
        k < tag@.len() ==> tag@[k as int] != 'v',
    ensures
        version@ == tag@.skip(k as int),
        !success ==> r is None,
        success ==> (r is Some <==> text_under(body@, "tag_name"@) is Some),
        r is Some && text_under(body@, "tag_name"@) == Some(tag@) ==> r->0@ == version@,
{
    tag_without_vs(tag@, k);
}

/// A cached answer is trusted for six hours from when it was fetched and one from the future too;
/// then it is only what a failed fetch falls back on. A fetched answer beats it and alone is cached.
pub proof fn an_answer_is_cached_six_hours(
    cache: Option<Cache>,
    now: u64,
    r: Lookup,
    fetched: Option<String>,
    stale: Option<String>,
    answer: (Option<String>, bool),
)
    requires
        call_ensures(lookup, (cache, now), r),
        call_ensures(cached_latest, (fetched, stale), answer),
    ensures
        cache is None ==> r == (Lookup::Fetch { stale: None }),
        cache is Some && now < cache->0.checked_at + 21_600 ==> r == Lookup::Known(cache->0.latest),
        cache is Some && now >= cache->0.checked_at + 21_600 ==> r == (Lookup::Fetch {
            stale: Some(cache->0.latest),
        }),
        answer.1 <==> fetched is Some,
        fetched is Some ==> answer.0 == fetched,
        fetched is None ==> answer.0 == stale,
{
}

/// An update is offered exactly when the newest version is newer than the running one, and it is
/// that version.
pub proof fn an_update_is_offered_when_newer(
    latest: Option<String>,
    current: &str,
    r: Option<String>,
    candidate: &str,
    is: bool,
)
    requires
        call_ensures(available_update, (latest, current), r),
        call_ensures(is_newer, (candidate, current), is),
    ensures
        latest is None ==> r is None,
        latest is Some && latest->0@ == candidate@ ==> (r is Some <==> is),
        r is Some ==> r == latest,
{
}

} // verus!
