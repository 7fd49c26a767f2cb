//! What a command answers: the contract that scripts parse.
//!
//! A failure carries a stable code and an exit status. Codes within an exit group share a
//! reaction: 2 sign in, 3 it is not there, 4 wait, 5 free space or upgrade, 6 the network, 1
//! everything else.

use vstd::prelude::*;

use crate::agent::api::{ApiError, EngineDownReason, IpcError};
use crate::text::{chars_of, holds_text, same, text_of, to_lower};
#[allow(unused_imports)]
use crate::text::{lower, mentions};

verus! {

/// How answers are written.
#[derive(Debug)]
pub struct Output {
    json: bool,
}

impl Output {
    /// Is the answer one JSON envelope and nothing else?
    pub closed spec fn is_json(self) -> bool {
        self.json
    }

    /// Answers for a person.
    pub fn new() -> (r: Self)
        ensures
            !r.is_json(),
    {
        Output { json: false }
    }
}

/// Set once, after the flags were read.
pub fn set_json(out: &mut Output, on: bool)
    ensures
        final(out).is_json() == on,
{
    out.json = on;
}

pub fn json(out: &Output) -> (r: bool)
    ensures
        r == out.is_json(),
{
    out.json
}

/// Whether a prompt would actually reach a person: not under JSON, and not with anything but a
/// terminal to read from. A prompt nobody sees is not a question but a hang.
pub fn interactive(out: &Output, stdin_is_terminal: bool) -> (r: bool)
    ensures
        r == (!out.is_json() && stdin_is_terminal),
{
    !out.json && stdin_is_terminal
}

/// An error that a command raises itself, with the stable code that callers branch on.
#[derive(Debug)]
pub struct Coded {
    pub code: &'static str,
    pub message: String,
}

/// Where a failure comes from.
#[derive(Debug)]
pub enum Cause {
    Coded(Coded),
    Ipc(IpcError),
    /// The server's refusal, with the line it prints as.
    Api(ApiError, String),
    /// Anything else, with the line it prints as.
    Other(String),
}

/// A failure: its cause, and what was being done, innermost first.
#[derive(Debug)]
pub struct Failure {
    pub cause: Cause,
    pub contexts: Vec<String>,
}

/// The line that a cause prints as.
pub open spec fn cause_line(cause: Cause) -> Seq<char> {
    match cause {
        Cause::Coded(c) => c.message@,
        Cause::Ipc(e) => e.line(),
        Cause::Api(_, line) => line@,
        Cause::Other(line) => line@,
    }
}

/// The line with what was being done in front of it, outermost first.
pub open spec fn with_contexts(contexts: Seq<String>, line: Seq<char>) -> Seq<char>
    decreases contexts.len(),
{
    if contexts.len() == 0 {
        line
    } else {
        contexts.last()@ + ": "@ + with_contexts(contexts.drop_last(), line)
    }
}

impl Failure {
    /// The whole failure in one line.
    pub open spec fn line(self) -> Seq<char> {
        with_contexts(self.contexts@, cause_line(self.cause))
    }

    /// A failure with nothing said of what was being done.
    pub fn of(cause: Cause) -> (r: Self)
        ensures
            r.cause == cause,
            r.contexts@.len() == 0,
    {
        Failure { cause, contexts: Vec::new() }
    }

    /// The failure, with what was being done. How it is sorted does not change.
    pub fn context(self, doing: &str) -> (r: Self)
        ensures
            r.cause == self.cause,
            class_of(r.cause) == class_of(self.cause),
            r.contexts@.len() == self.contexts@.len() + 1,
            r.contexts@.drop_last() == self.contexts@,
            r.contexts@.last()@ == doing@,
    {
        let mut f = self;
        f.contexts.push(doing.to_owned());
        assert(f.contexts@.drop_last() =~= self.contexts@);
        f
    }

    /// The whole failure in one line.
    pub fn message(&self) -> (r: String)
        ensures
            r@ == self.line(),
    {
        let mut line = match &self.cause {
            Cause::Coded(c) => c.message.clone(),
            Cause::Ipc(e) => e.message(),
            Cause::Api(_, l) => l.clone(),
            Cause::Other(l) => l.clone(),
        };
        let mut i: usize = 0;
        assert(self.contexts@.take(0) =~= Seq::<String>::empty());
        while i < self.contexts.len()
            invariant
                i <= self.contexts@.len(),
                line@ == with_contexts(self.contexts@.take(i as int), cause_line(self.cause)),
            decreases self.contexts.len() - i,
        {
            assert(self.contexts@.take(i + 1).drop_last() =~= self.contexts@.take(i as int));
            let mut whole = String::new();
            whole.append(self.contexts[i].as_str());
            whole.append(": ");
            whole.append(line.as_str());
            assert(whole@ =~= self.contexts@[i as int]@ + ": "@ + line@);
            line = whole;
            i += 1;
        }
        assert(self.contexts@.take(i as int) =~= self.contexts@);
        line
    }
}

/// A coded error.
pub fn err(code: &'static str, message: String) -> (r: Failure)
    ensures
        r.cause == Cause::Coded(Coded { code, message }),
        r.contexts@.len() == 0,
{
    Failure::of(Cause::Coded(Coded { code, message }))
}

/// The token of the session, or the coded answer of a caller who is not signed in. `token` is what
/// the configuration has, or why it has none.
pub fn require_token(token: Result<String, String>) -> (r: Result<String, Failure>)
    ensures
        match token {
            Ok(t) => r == Ok::<String, Failure>(t),
            Err(why) => r is Err && r->Err_0.cause is Coded && r->Err_0.cause->Coded_0.code@
                == "no_session"@ && r->Err_0.cause->Coded_0.message == why
                && r->Err_0.contexts@.len() == 0,
        },
{
    match token {
        Ok(t) => Ok(t),
        Err(why) => Err(err("no_session", why)),
    }
}

/// A failure, sorted into something a caller can act on.
#[derive(Debug)]
pub struct Classified {
    /// Stable vocabulary.
    pub code: String,
    /// Grouped so that a script can branch without parsing JSON.
    pub exit: i32,
    /// How long the server asked us to wait, where it did.
    pub retry_after_seconds: Option<u32>,
}

/// A code, an exit status and a wait.
pub ghost struct Class {
    pub code: Seq<char>,
    pub exit: int,
    pub wait: Option<u32>,
}

/// A class without a wait.
pub open spec fn plain_class(code: Seq<char>, exit: int) -> Class {
    Class { code, exit, wait: None }
}

/// The exit group of an error that a command raises itself.
pub open spec fn coded_exit(code: Seq<char>) -> int {
    if code == "no_session"@ {
        2
    } else if code == "not_tracked"@ {
        3
    } else {
        1
    }
}

/// The exit group of a refusal that the service relays, by its code.
pub open spec fn relayed_exit(code: Seq<char>) -> int {
    if code == "unauthorized"@ || code == "forbidden"@ {
        2
    } else if code == "not_found"@ || code == "not_watched"@ {
        3
    } else if code == "throttled"@ {
        4
    } else if code == "quota_full"@ {
        5
    } else {
        1
    }
}

/// Is a sign-in the way out? A missing or expired session, or a keyring that will not hand the
/// session over. A service too old to say why says it in its text.
pub open spec fn sign_in_helps(kind: EngineDownReason, reason: Seq<char>) -> bool {
    ||| kind == EngineDownReason::NoSession
    ||| kind == EngineDownReason::SessionExpired
    ||| kind == EngineDownReason::KeyringUnreadable
    ||| kind == EngineDownReason::Unknown && mentions(lower(reason), "no session"@)
}

/// The class of an answer of the service.
pub open spec fn ipc_class(e: IpcError) -> Class {
    match e {
        // An untagged conflict is still a conflict, never an empty code.
        IpcError::Conflict { code, message } => plain_class(
            if code@.len() == 0 {
                "conflict"@
            } else {
                code@
            },
            1,
        ),
        IpcError::Refused { code, message } => plain_class(code@, relayed_exit(code@)),
        IpcError::Invalid { message } => plain_class("bad_request"@, 1),
        IpcError::EngineDown { reason, kind } => if sign_in_helps(kind, reason@) {
            plain_class("no_session"@, 2)
        } else {
            plain_class("engine_down"@, 1)
        },
        IpcError::NoServerSession { reason } => plain_class("no_session"@, 2),
        IpcError::CloudSessionExpired { reason } => plain_class("no_session"@, 2),
        IpcError::Internal { message } => plain_class("error"@, 1),
    }
}

/// The class of a refusal of the server.
pub open spec fn api_class(e: ApiError) -> Class {
    match e {
        ApiError::Unauthorized => plain_class("unauthorized"@, 2),
        ApiError::Forbidden => plain_class("forbidden"@, 2),
        ApiError::NotFound => plain_class("not_found"@, 3),
        ApiError::QuotaExceeded(_) => plain_class("quota_exceeded"@, 5),
        ApiError::TooLarge(_) => plain_class("too_large"@, 5),
        ApiError::Archived => plain_class("archived"@, 5),
        ApiError::RateLimited { retry_after_seconds, body } => Class {
            code: "rate_limited"@,
            exit: 4,
            wait: Some(retry_after_seconds),
        },
        ApiError::Network(_) => plain_class("network"@, 6),
        ApiError::StorageUnreachable { message } => plain_class("storage_unreachable"@, 6),
        ApiError::NonFastForward(_) => plain_class("conflict"@, 1),
        ApiError::LeaseHeld(_) => plain_class("conflict"@, 1),
        ApiError::LeaseStale { head_version, base_version } => plain_class("conflict"@, 1),
        ApiError::LeaseRequired(_) => plain_class("conflict"@, 1),
        ApiError::LeasePushed(_) => plain_class("conflict"@, 1),
        ApiError::NotShared => plain_class("conflict"@, 1),
        ApiError::Conflict(_) => plain_class("conflict"@, 1),
        ApiError::BadRequest(_) => plain_class("bad_request"@, 1),
        ApiError::Server { status, body } => plain_class("server"@, 1),
    }
}

/// The class of a failure: its cause's, whatever was being done.
pub open spec fn class_of(cause: Cause) -> Class {
    match cause {
        Cause::Coded(c) => plain_class(c.code@, coded_exit(c.code@)),
        Cause::Ipc(e) => ipc_class(e),
        Cause::Api(e, _) => api_class(e),
        Cause::Other(_) => plain_class("error"@, 1),
    }
}

impl Classified {
    /// The class that this says.
    pub open spec fn view(&self) -> Class {
        Class { code: self.code@, exit: self.exit as int, wait: self.retry_after_seconds }
    }
}

fn plain(code: &str, exit: i32) -> (r: Classified)
    ensures
        r@ == plain_class(code@, exit as int),
{
    Classified { code: code.to_owned(), exit, retry_after_seconds: None }
}

fn refused_exit(code: &str) -> (r: i32)
    ensures
        r == relayed_exit(code@),
{
    if same(code, "unauthorized") || same(code, "forbidden") {
        2
    } else if same(code, "not_found") || same(code, "not_watched") {
        3
    } else if same(code, "throttled") {
        4
    } else if same(code, "quota_full") {
        5
    } else {
        1
    }
}

fn classify_ipc(e: &IpcError) -> (r: Classified)
    ensures
        r@ == ipc_class(*e),
{
    match e {
        IpcError::Conflict { code, message: _ } => {
            if code.as_str().is_empty() {
                plain("conflict", 1)
            } else {
                plain(code.as_str(), 1)
            }
        },
        IpcError::Refused { code, message: _ } => plain(code.as_str(), refused_exit(code.as_str())),
        IpcError::Invalid { message: _ } => plain("bad_request", 1),
        IpcError::EngineDown { reason, kind } => {
            let text = to_lower(reason.as_str());
            if *kind == EngineDownReason::NoSession || *kind == EngineDownReason::SessionExpired
                || *kind == EngineDownReason::KeyringUnreadable || (*kind
                == EngineDownReason::Unknown && holds_text(text.as_str(), "no session")) {
                plain("no_session", 2)
            } else {
                plain("engine_down", 1)
            }
        },
        IpcError::NoServerSession { reason: _ } => plain("no_session", 2),
        IpcError::CloudSessionExpired { reason: _ } => plain("no_session", 2),
        IpcError::Internal { message: _ } => plain("error", 1),
    }
}

fn classify_api(e: &ApiError) -> (r: Classified)
    ensures
        r@ == api_class(*e),
{
    match e {
        ApiError::Unauthorized => plain("unauthorized", 2),
        ApiError::Forbidden => plain("forbidden", 2),
        ApiError::NotFound => plain("not_found", 3),
        ApiError::QuotaExceeded(_) => plain("quota_exceeded", 5),
        ApiError::TooLarge(_) => plain("too_large", 5),
        ApiError::Archived => plain("archived", 5),
        ApiError::RateLimited { retry_after_seconds, body: _ } => Classified {
            code: "rate_limited".to_owned(),
            exit: 4,
            retry_after_seconds: Some(*retry_after_seconds),
        },
        ApiError::Network(_) => plain("network", 6),
        ApiError::StorageUnreachable { message: _ } => plain("storage_unreachable", 6),
        ApiError::NonFastForward(_) => plain("conflict", 1),
        ApiError::LeaseHeld(_) => plain("conflict", 1),
        ApiError::LeaseStale { head_version: _, base_version: _ } => plain("conflict", 1),
        ApiError::LeaseRequired(_) => plain("conflict", 1),
        ApiError::LeasePushed(_) => plain("conflict", 1),
        ApiError::NotShared => plain("conflict", 1),
        ApiError::Conflict(_) => plain("conflict", 1),
        ApiError::BadRequest(_) => plain("bad_request", 1),
        ApiError::Server { status: _, body: _ } => plain("server", 1),
    }
}

/// Sort an error into a code, an exit status and, where the server throttled us, a wait.
pub fn classify(e: &Failure) -> (r: Classified)
    ensures
        r@ == class_of(e.cause),
{
    match &e.cause {
        Cause::Coded(c) => {
            let exit: i32 = if same(c.code, "no_session") {
                2
            } else if same(c.code, "not_tracked") {
                3
            } else {
                1
            };
            plain(c.code, exit)
        },
        Cause::Ipc(e) => classify_ipc(e),
        Cause::Api(e, _) => classify_api(e),
        Cause::Other(_) => plain("error", 1),
    }
}

/// The body of the failure envelope.
#[derive(Debug)]
pub struct ErrBody {
    pub code: String,
    pub message: String,
    /// Only where the server throttled us, so that a caller waits the window it named.
    pub retry_after_seconds: Option<u32>,
}

/// What the failure envelope holds, and the exit status that goes with it.
pub fn error_body(e: &Failure) -> (r: (ErrBody, i32))
    ensures
        r.0.code@ == class_of(e.cause).code,
        r.0.message@ == e.line(),
        r.0.retry_after_seconds == class_of(e.cause).wait,
        r.1 == class_of(e.cause).exit,
{
    let c = classify(e);
    (
        ErrBody { code: c.code, message: e.message(), retry_after_seconds: c.retry_after_seconds },
        c.exit,
    )
}

/// The text cut for a table cell.
pub open spec fn cut(s: Seq<char>, max: nat) -> Seq<char> {
    if s.len() <= max {
        s
    } else if max == 0 {
        "…"@
    } else {
        s.take(max - 1) + "…"@
    }
}

/// `s` cut to `max` characters for a table cell, the last one an ellipsis when anything was
/// dropped. Tables only: JSON never truncates.
pub fn truncate(s: &str, max: usize) -> (r: String)
    ensures
        r@ == cut(s@, max as nat),
{
    let c = chars_of(s);
    if c.len() <= max {
        return s.to_owned();
    }
    let keep: usize = if max > 0 { max - 1 } else { 0 };
    let mut r = text_of(&c, 0, keep);
    r.append("…");
    assert(c@.subrange(0, keep as int) =~= s@.take(keep as int));
    assert(r@ =~= s@.take(keep as int) + "…"@);
    assert(s@.take(0) + "…"@ =~= "…"@);
    r
}

// ---- laws

/// A code always says something: only one that a caller or a service left empty is empty.
pub proof fn a_class_has_a_code(cause: Cause)
    requires
        !(cause matches Cause::Coded(c) && c.code@.len() == 0),
        !(cause matches Cause::Ipc(IpcError::Refused { code, message }) && code@.len() == 0),
    ensures
        class_of(cause).code.len() > 0,
        1 <= class_of(cause).exit <= 6,
{
    reveal_strlit("conflict");
    reveal_strlit("bad_request");
    reveal_strlit("no_session");
    reveal_strlit("engine_down");
    reveal_strlit("error");
    reveal_strlit("unauthorized");
    reveal_strlit("forbidden");
    reveal_strlit("not_found");
    reveal_strlit("quota_exceeded");
    reveal_strlit("too_large");
    reveal_strlit("archived");
    reveal_strlit("rate_limited");
    reveal_strlit("network");
    reveal_strlit("storage_unreachable");
    reveal_strlit("server");
}

/// A cell is never wider than it was cut to, where it is cut to anything.
pub proof fn a_cell_keeps_its_width(s: Seq<char>, max: nat)
    requires
        max > 0,
    ensures
        cut(s, max).len() <= max,
{
    reveal_strlit("…");
}


/// A failure that a command raises itself keeps its code. Only two of the codes have an exit status
/// of their own: no session, and nothing of that kind tracked.
pub proof fn a_commands_own_failure(e: Failure, r: Classified)
    requires
        call_ensures(classify, (&e,), r),
        e.cause is Coded,
    ensures
        r.code@ == e.cause->Coded_0.code@,
        r.retry_after_seconds is None,
        r.exit == 2 <==> r.code@ == "no_session"@,
        r.exit == 3 <==> r.code@ == "not_tracked"@,
        r.exit == 1 || r.exit == 2 || r.exit == 3,
{
    reveal_strlit("no_session");
    reveal_strlit("not_tracked");
    assert("no_session"@[1] != "not_tracked"@[1] || "no_session"@[2] != "not_tracked"@[2]);
}

/// A failure of the service, by its kind. One that the service relays keeps its code, and its exit
/// status is that of the reaction which the code asks for.
pub proof fn a_service_failure(e: Failure, r: Classified)
    requires
        call_ensures(classify, (&e,), r),
        e.cause is Ipc,
    ensures
        r.retry_after_seconds is None,
        e.cause->Ipc_0 matches IpcError::Conflict { code, message } ==> r.exit == 1 && r.code@ == (
        if code@.len() > 0 {
            code@
        } else {
            "conflict"@
        }),
        e.cause->Ipc_0 matches IpcError::Refused { code, message } ==> {
            &&& r.code@ == code@
            &&& code@ == "unauthorized"@ || code@ == "forbidden"@ ==> r.exit == 2
            &&& code@ == "not_found"@ || code@ == "not_watched"@ ==> r.exit == 3
            &&& code@ == "throttled"@ ==> r.exit == 4
            &&& code@ == "quota_full"@ ==> r.exit == 5
            &&& !(code@ == "unauthorized"@ || code@ == "forbidden"@ || code@ == "not_found"@
                || code@ == "not_watched"@ || code@ == "throttled"@ || code@ == "quota_full"@)
                ==> r.exit == 1
        },
        e.cause->Ipc_0 is Invalid ==> r.code@ == "bad_request"@ && r.exit == 1,
        e.cause->Ipc_0 is NoServerSession || e.cause->Ipc_0 is CloudSessionExpired ==> r.code@
            == "no_session"@ && r.exit == 2,
        e.cause->Ipc_0 is Internal ==> r.code@ == "error"@ && r.exit == 1,
        e.cause->Ipc_0 matches IpcError::EngineDown { reason, kind } ==> {
            &&& (r.code@ == "no_session"@ && r.exit == 2) || (r.code@ == "engine_down"@ && r.exit
                == 1)
            &&& kind is NoSession || kind is SessionExpired || kind is KeyringUnreadable ==> r.exit
                == 2
            &&& kind is Unknown ==> (r.exit == 2 <==> mentions(lower(reason@), "no session"@))
            &&& !(kind is NoSession || kind is SessionExpired || kind is KeyringUnreadable
                || kind is Unknown) ==> r.exit == 1
        },
{
    reveal_strlit("unauthorized");
    reveal_strlit("forbidden");
    reveal_strlit("not_found");
    reveal_strlit("not_watched");
    reveal_strlit("throttled");
    reveal_strlit("quota_full");
    assert("unauthorized"@.len() == 12 && "forbidden"@.len() == 9 && "not_found"@.len() == 9
        && "not_watched"@.len() == 11 && "throttled"@.len() == 9 && "quota_full"@.len() == 10);
    assert("forbidden"@[0] == 'f' && "not_found"@[0] == 'n' && "throttled"@[0] == 't');
}

/// A refusal of the server, by its kind: sign in, it is not there, wait as long as the server says,
/// free space, the network, and the rest.
pub proof fn a_servers_refusal(e: Failure, r: Classified)
    requires
        call_ensures(classify, (&e,), r),
        e.cause is Api,
    ensures
        e.cause->Api_0 is Unauthorized ==> r.code@ == "unauthorized"@ && r.exit == 2,
        e.cause->Api_0 is Forbidden ==> r.code@ == "forbidden"@ && r.exit == 2,
        e.cause->Api_0 is NotFound ==> r.code@ == "not_found"@ && r.exit == 3,
        e.cause->Api_0 matches ApiError::RateLimited { retry_after_seconds, body } ==> r.code@
            == "rate_limited"@ && r.exit == 4 && r.retry_after_seconds == Some(retry_after_seconds),
        e.cause->Api_0 !is RateLimited ==> r.retry_after_seconds is None && r.exit != 4,
        e.cause->Api_0 is QuotaExceeded ==> r.code@ == "quota_exceeded"@ && r.exit == 5,
        e.cause->Api_0 is TooLarge ==> r.code@ == "too_large"@ && r.exit == 5,
        e.cause->Api_0 is Archived ==> r.code@ == "archived"@ && r.exit == 5,
        e.cause->Api_0 is Network ==> r.code@ == "network"@ && r.exit == 6,
        e.cause->Api_0 is StorageUnreachable ==> r.code@ == "storage_unreachable"@ && r.exit == 6,
        e.cause->Api_0 is BadRequest ==> r.code@ == "bad_request"@ && r.exit == 1,
        e.cause->Api_0 is Server ==> r.code@ == "server"@ && r.exit == 1,
        e.cause->Api_0 is NonFastForward || e.cause->Api_0 is LeaseHeld
            || e.cause->Api_0 is LeaseStale || e.cause->Api_0 is LeaseRequired
            || e.cause->Api_0 is LeasePushed || e.cause->Api_0 is NotShared
            || e.cause->Api_0 is Conflict ==> r.code@ == "conflict"@ && r.exit == 1,
{
}

/// What is not known is an error, and the envelope says what the class and the line say.
pub proof fn an_envelope_says_the_class(e: Failure, r: Classified, body: (ErrBody, i32), m: String)
    requires
        call_ensures(classify, (&e,), r),
        call_ensures(error_body, (&e,), body),
        call_ensures(Failure::message, (&e,), m),
    ensures
        e.cause is Other ==> r.code@ == "error"@ && r.exit == 1 && r.retry_after_seconds is None,
        body.0.code@ == r.code@,
        body.0.message@ == m@,
        body.0.retry_after_seconds == r.retry_after_seconds,
        body.1 == r.exit,
{
}

/// What was being done is told in front, and changes neither the cause nor the class.
pub proof fn a_context_is_told_in_front(
    e: Failure,
    doing: &str,
    f: Failure,
    was: String,
    now: String,
    before: Classified,
    after: Classified,
)
    requires
        call_ensures(Failure::context, (e, doing), f),
        call_ensures(Failure::message, (&e,), was),
        call_ensures(Failure::message, (&f,), now),
        call_ensures(classify, (&e,), before),
        call_ensures(classify, (&f,), after),
    ensures
        now@ == doing@ + ": "@ + was@,
        f.cause == e.cause,
        before.code@ == after.code@ && before.exit == after.exit && before.retry_after_seconds
            == after.retry_after_seconds,
        e.contexts@.len() == 0 ==> {
            &&& e.cause matches Cause::Coded(c) ==> was@ == c.message@
            &&& e.cause matches Cause::Other(line) ==> was@ == line@
            &&& e.cause matches Cause::Api(x, line) ==> was@ == line@
        },
{
}

/// A failure that was made new has its cause and nothing else to tell.
pub proof fn a_new_failure(
    cause: Cause,
    f: Failure,
    code: &'static str,
    message: String,
    g: Failure,
    r: Classified,
    m: String,
)
    requires
        call_ensures(Failure::of, (cause,), f),
        call_ensures(err, (code, message), g),
        call_ensures(classify, (&g,), r),
        call_ensures(Failure::message, (&g,), m),
    ensures
        f.cause == cause && f.contexts@.len() == 0,
        r.code@ == code@ && m@ == message@,
{
}

/// A caller with a token gets it; one without is told to sign in.
pub proof fn a_token_is_required(
    token: Result<String, String>,
    r: Result<String, Failure>,
    c: Classified,
    m: String,
)
    requires
        call_ensures(require_token, (token,), r),
        r is Err ==> call_ensures(classify, (&r->Err_0,), c) && call_ensures(
            Failure::message,
            (&r->Err_0,),
            m,
        ),
    ensures
        token is Ok <==> r is Ok,
        r is Ok ==> r->Ok_0 == token->Ok_0,
        r is Err ==> c.exit == 2 && c.code@ == "no_session"@ && m@ == token->Err_0@,
{
}

/// A prompt needs a person: it is for a terminal, and never under JSON, from the moment that JSON
/// was asked for.
pub proof fn a_prompt_needs_a_person(
    out: &mut Output,
    on: bool,
    terminal: bool,
    asks: bool,
    is_json: bool,
    fresh: Output,
    first: bool,
)
    requires
        call_ensures(set_json, (out, on), ()),
        call_ensures(json, (final(out),), is_json),
        call_ensures(interactive, (final(out), terminal), asks),
        call_ensures(Output::new, (), fresh),
        call_ensures(interactive, (&fresh, terminal), first),
    ensures
        is_json == on,
        asks <==> !on && terminal,
        first == terminal,
{
}

/// A cell that fits is shown whole. One that does not is filled to its width: its beginning, and an
/// ellipsis at the end.
pub proof fn a_cell_is_cut(s: &str, max: usize, r: String)
    requires
        call_ensures(truncate, (s, max), r),
    ensures
        s@.len() <= max ==> r@ == s@,
        s@.len() > max > 0 ==> r@.len() == max && r@[max - 1] == '…' && forall|i: int|
            0 <= i < max - 1 ==> #[trigger] r@[i] == s@[i],
        s@.len() > max == 0 ==> r@ == seq!['…'],
{
    reveal_strlit("…");
    assert("…"@ =~= seq!['…']);
}

} // verus!
