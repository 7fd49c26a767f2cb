//! Live lease frames from a server that somebody runs for their group.
//!
//! One stream of events per engine: its `lease` frames say who hosts a world, so a member learns
//! within a second that a world got a host, lost it, or was taken over.

use vstd::prelude::*;

use crate::agent::lease::Report;
use crate::agent::slot::LeaseObs;
#[allow(unused_imports)]
use crate::text::{begins, trimmed, without_tail};
use crate::text::{chars_of, same, strip_prefix, trim, trim_tail};
use crate::wire::LeaseEvent;

verus! {

/// The shortest wait before a connection is tried again, in seconds.
pub const BACKOFF_MIN_SECS: u64 = 2;

/// The longest wait before a connection is tried again, in seconds.
pub const BACKOFF_MAX_SECS: u64 = 60;

/// The server sends a keep-alive well inside this; nothing at all for this long means a dead
/// socket. In seconds.
pub const READ_IDLE_SECS: u64 = 60;

/// Twice the wait, up to the longest.
pub open spec fn doubled(secs: int) -> int {
    if secs * 2 < BACKOFF_MAX_SECS {
        secs * 2
    } else {
        BACKOFF_MAX_SECS as int
    }
}

/// How long to wait before the next try: what a failed try leaves for the one after it.
#[derive(Debug, Clone, Copy, PartialEq, Eq, Structural)]
pub struct Backoff {
    pub secs: u64,
}

impl Backoff {
    /// The wait stays between the shortest and the longest.
    pub open spec fn wf(self) -> bool {
        BACKOFF_MIN_SECS <= self.secs <= BACKOFF_MAX_SECS
    }

    /// The shortest wait.
    pub fn new() -> (r: Self)
        ensures
            r.wf(),
            r.secs == BACKOFF_MIN_SECS,
    {
        Backoff { secs: BACKOFF_MIN_SECS }
    }

    /// How long to sleep now; the next sleep is twice that, up to the longest.
    pub fn wait(&mut self) -> (r: u64)
        requires
            old(self).wf(),
        ensures
            final(self).wf(),
            r == old(self).secs,
            final(self).secs == doubled(old(self).secs as int),
    {
        let now: u64 = self.secs;
        self.secs = if now * 2 < BACKOFF_MAX_SECS {
            now * 2
        } else {
            BACKOFF_MAX_SECS
        };
        now
    }

    /// How long to sleep once a stream ended. A stream that ended on its own starts the waits
    /// over; a dropped one goes on with them.
    pub fn after_stream(&mut self, ended: bool) -> (r: u64)
        requires
            old(self).wf(),
        ensures
            final(self).wf(),
            r == (if ended {
                BACKOFF_MIN_SECS
            } else {
                old(self).secs
            }),
            final(self).secs == doubled(r as int),
    {
        if ended {
            self.secs = BACKOFF_MIN_SECS;
        }
        self.wait()
    }
}

/// Whether to listen at all.
#[derive(Debug, Clone, Copy, PartialEq, Eq, Structural)]
pub enum Gate {
    Listen,
    /// The server has no groups.
    Stop,
    /// The probe failed: wait this long, in seconds, and ask again.
    Retry(u64),
}

/// Only a definite answer settles the question: a failed probe is retried, a server without groups
/// ends the task.
pub fn gate(supports_groups: Option<bool>, backoff: &mut Backoff) -> (r: Gate)
    requires
        old(backoff).wf(),
    ensures
        final(backoff).wf(),
        match supports_groups {
            Some(yes) => {
                &&& r == (if yes {
                    Gate::Listen
                } else {
                    Gate::Stop
                })
                &&& *final(backoff) == *old(backoff)
            },
            None => {
                &&& r == Gate::Retry(old(backoff).secs)
                &&& final(backoff).secs == doubled(old(backoff).secs as int)
            },
        },
{
    match supports_groups {
        Some(true) => Gate::Listen,
        Some(false) => Gate::Stop,
        None => Gate::Retry(backoff.wait()),
    }
}

// ---- frames

/// Framing of a stream of events: `event:` sets the type, `data:` lines add up, a blank line
/// dispatches. Comments, which begin with `:`, and unknown fields fall through.
#[derive(Debug)]
pub struct SseParser {
    line: String,
    ev_type: String,
    ev_data: String,
}

/// A parser between two characters: the line so far, and the event so far.
pub ghost struct Sse {
    pub line: Seq<char>,
    pub kind: Seq<char>,
    pub data: Seq<char>,
}

/// An event: its type and its data.
pub ghost struct Frame {
    pub kind: Seq<char>,
    pub data: Seq<char>,
}

/// The data with one more line of it. One space after the colon does not count.
pub open spec fn with_line(data: Seq<char>, rest: Seq<char>) -> Seq<char> {
    let text = if begins(rest, " "@) {
        rest.skip(1)
    } else {
        rest
    };
    if data.len() == 0 {
        text
    } else {
        data.push('\n') + text
    }
}

/// The parser at the end of a line, with the line taken.
pub open spec fn line_taken(s: Sse) -> Sse {
    let line = without_tail(s.line, '\r');
    let none = Seq::<char>::empty();
    if line.len() == 0 {
        Sse { line: none, kind: none, data: none }
    } else if begins(line, "event:"@) {
        Sse { line: none, kind: trimmed(line.skip("event:"@.len() as int)), data: s.data }
    } else if begins(line, "data:"@) {
        Sse {
            line: none,
            kind: s.kind,
            data: with_line(s.data, line.skip("data:"@.len() as int)),
        }
    } else {
        Sse { line: none, ..s }
    }
}

/// What the end of a line dispatches.
pub open spec fn line_frames(s: Sse) -> Seq<Frame> {
    if without_tail(s.line, '\r').len() == 0 && (s.kind.len() > 0 || s.data.len() > 0) {
        seq![Frame { kind: s.kind, data: s.data }]
    } else {
        Seq::empty()
    }
}

/// The parser after a chunk.
pub open spec fn fed(s: Sse, chunk: Seq<char>) -> Sse
    decreases chunk.len(),
{
    if chunk.len() == 0 {
        s
    } else {
        let t = fed(s, chunk.drop_last());
        if chunk.last() == '\n' {
            line_taken(t)
        } else {
            Sse { line: t.line.push(chunk.last()), ..t }
        }
    }
}

/// What a chunk dispatches, in order.
pub open spec fn frames(s: Sse, chunk: Seq<char>) -> Seq<Frame>
    decreases chunk.len(),
{
    if chunk.len() == 0 {
        Seq::empty()
    } else {
        let rest = frames(s, chunk.drop_last());
        if chunk.last() == '\n' {
            rest + line_frames(fed(s, chunk.drop_last()))
        } else {
            rest
        }
    }
}

/// Are these the frames, as pairs of type and data?
pub open spec fn are_frames(r: Seq<(String, String)>, frames: Seq<Frame>) -> bool {
    r.len() == frames.len() && forall|i: int|
        0 <= i < r.len() ==> (#[trigger] r[i]).0@ == frames[i].kind && r[i].1@ == frames[i].data
}

impl SseParser {
    /// Where the parser is.
    pub closed spec fn view(&self) -> Sse {
        Sse { line: self.line@, kind: self.ev_type@, data: self.ev_data@ }
    }

    /// A parser at the start of a stream.
    pub fn new() -> (r: Self)
        ensures
            r@ == (Sse { line: Seq::empty(), kind: Seq::empty(), data: Seq::empty() }),
    {
        SseParser { line: String::new(), ev_type: String::new(), ev_data: String::new() }
    }

    fn end_line(&mut self, out: &mut Vec<(String, String)>)
        ensures
            final(self)@ == line_taken(old(self)@),
            final(out)@.len() == old(out)@.len() + line_frames(old(self)@).len(),
            forall|i: int| 0 <= i < old(out)@.len() ==> #[trigger] final(out)@[i] == old(out)@[i],
            forall|i: int|
                old(out)@.len() <= i < final(out)@.len() ==> {
                    &&& (#[trigger] final(out)@[i]).0@ == line_frames(old(self)@)[i
                        - old(out)@.len()].kind
                    &&& final(out)@[i].1@ == line_frames(old(self)@)[i - old(out)@.len()].data
                },
    {
        let line = trim_tail(self.line.as_str(), '\r');
        self.line = String::new();
        if line.as_str().is_empty() {
            if !self.ev_type.as_str().is_empty() || !self.ev_data.as_str().is_empty() {
                out.push((self.ev_type.clone(), self.ev_data.clone()));
            }
            self.ev_type = String::new();
            self.ev_data = String::new();
        } else if let Some(rest) = strip_prefix(line.as_str(), "event:") {
            self.ev_type = trim(rest.as_str());
        } else if let Some(rest) = strip_prefix(line.as_str(), "data:") {
            proof {
                reveal_strlit(" ");
            }
            let text = match strip_prefix(rest.as_str(), " ") {
                Some(t) => t,
                None => rest,
            };
            if self.ev_data.as_str().is_empty() {
                self.ev_data = text;
            } else {
                self.ev_data.push('\n');
                self.ev_data.append(text.as_str());
            }
        }
    }

    /// The events that a chunk of the stream completes, in order.
    pub fn push(&mut self, chunk: &str) -> (r: Vec<(String, String)>)
        ensures
            final(self)@ == fed(old(self)@, chunk@),
            are_frames(r@, frames(old(self)@, chunk@)),
    {
        let c = chars_of(chunk);
        let mut out: Vec<(String, String)> = Vec::new();
        let mut i: usize = 0;
        let ghost start = self@;
        while i < c.len()
            invariant
                i <= c.len(),
                self@ == fed(start, c@.take(i as int)),
                are_frames(out@, frames(start, c@.take(i as int))),
            decreases c.len() - i,
        {
            assert(c@.take(i + 1).drop_last() =~= c@.take(i as int));
            if c[i] == '\n' {
                self.end_line(&mut out);
            } else {
                self.line.push(c[i]);
            }
            i += 1;
        }
        assert(c@.take(i as int) =~= c@);
        out
    }
}

/// The stream may be cut anywhere: two chunks leave the parser where their join does, and give its
/// frames.
pub proof fn chunks_do_not_matter(s: Sse, a: Seq<char>, b: Seq<char>)
    ensures
        fed(s, a + b) == fed(fed(s, a), b),
        frames(s, a + b) == frames(s, a) + frames(fed(s, a), b),
    decreases b.len(),
{
    if b.len() == 0 {
        assert(a + b =~= a);
        assert(frames(s, a) + frames(fed(s, a), b) =~= frames(s, a));
    } else {
        assert((a + b).drop_last() =~= a + b.drop_last());
        chunks_do_not_matter(s, a, b.drop_last());
        assert(frames(s, a + b) =~= frames(s, a) + frames(fed(s, a), b));
    }
}

// ---- what a frame says

/// What a frame says about the lease from this machine's point of view.
pub open spec fn seen(ev: LeaseEvent, me: Seq<char>) -> LeaseObs {
    match ev.holder_user_id {
        Some(h) => if !ev.live {
            LeaseObs::Free
        } else if h@ == me {
            LeaseObs::Mine
        } else {
            LeaseObs::Other
        },
        None => LeaseObs::Free,
    }
}

pub fn classify(ev: &LeaseEvent, me: &str) -> (r: LeaseObs)
    ensures
        r == seen(*ev, me@),
{
    match &ev.holder_user_id {
        Some(h) => {
            if !ev.live {
                LeaseObs::Free
            } else if same(h.as_str(), me) {
                LeaseObs::Mine
            } else {
                LeaseObs::Other
            }
        },
        None => LeaseObs::Free,
    }
}

/// What the engine is told of a frame. The frame carries the holder's id; `named` is the holder's
/// name as the server gives it, and counts only where there is somebody else to name.
pub fn heard(ev: &LeaseEvent, me: &str, named: Option<String>) -> (r: Report)
    ensures
        r.save_id == ev.save_id,
        r.lease == seen(*ev, me@),
        r.holder == (if r.lease == LeaseObs::Other {
            named
        } else {
            None
        }),
        !r.verdict,
{
    let lease = classify(ev, me);
    let holder = if lease == LeaseObs::Other {
        named
    } else {
        None
    };
    Report { save_id: ev.save_id.clone(), lease, holder, verdict: false }
}

// ---- laws on the calls

/// The waits double from two seconds up to a minute: the first is two, each is what the one before
/// left, and none is longer than a minute. A stream that ended on its own starts them over.
pub proof fn waits_double_up_to_a_minute(
    fresh: Backoff,
    a: &mut Backoff,
    b: &mut Backoff,
    first: u64,
    second: u64,
    s: &mut Backoff,
    ended: bool,
    after: u64,
)
    requires
        call_ensures(Backoff::new, (), fresh),
        call_ensures(Backoff::wait, (a,), first),
        call_ensures(Backoff::wait, (b,), second),
        call_ensures(Backoff::after_stream, (s, ended), after),
        old(a).wf(),
        old(s).wf(),
        *old(b) == *final(a),
    ensures
        fresh.secs == 2,
        first == old(a).secs,
        2 * first < 60 ==> second == 2 * first,
        2 * first >= 60 ==> second == 60,
        ended ==> after == 2 && final(s).secs == 4,
        !ended ==> after == old(s).secs,
{
}

/// A server with groups is listened to and one without is not, without a wait; a probe that failed
/// is tried again after the wait that was due.
pub proof fn only_an_answer_opens_the_gate(supports: Option<bool>, b: &mut Backoff, r: Gate)
    requires
        old(b).wf(),
        call_ensures(gate, (supports, b), r),
    ensures
        r is Listen <==> supports == Some(true),
        r is Stop <==> supports == Some(false),
        supports is None ==> r == Gate::Retry(old(b).secs),
        supports is Some ==> *final(b) == *old(b),
        supports is None && 2 * old(b).secs < 60 ==> final(b).secs == 2 * old(b).secs,
{
}

/// A frame about a lease that is not live, or that names nobody, says it is free; a live one is ours
/// where it names this account and somebody else's otherwise, whose name alone is passed on. It is
/// never a verdict.
pub proof fn a_frame_says_who_hosts(
    ev: LeaseEvent,
    me: &str,
    named: Option<String>,
    lease: LeaseObs,
    r: Report,
)
    requires
        call_ensures(classify, (&ev, me), lease),
        call_ensures(heard, (&ev, me, named), r),
    ensures
        r.lease == lease,
        r.save_id@ == ev.save_id@,
        !r.verdict,
        lease == LeaseObs::Free <==> !ev.live || ev.holder_user_id is None,
        lease == LeaseObs::Mine <==> ev.live && ev.holder_user_id is Some && ev.holder_user_id->0@
            == me@,
        lease == LeaseObs::Other <==> ev.live && ev.holder_user_id is Some && ev.holder_user_id->0@
            != me@,
        lease == LeaseObs::Other ==> r.holder == named,
        lease != LeaseObs::Other ==> r.holder is None,
{
}

proof fn a_line_feeds(s: Sse, text: Seq<char>)
    requires
        forall|i: int| 0 <= i < text.len() ==> #[trigger] text[i] != '\n',
    ensures
        fed(s, text) == (Sse { line: s.line + text, ..s }),
        frames(s, text).len() == 0,
    decreases text.len(),
{
    if text.len() == 0 {
        assert(s.line + text =~= s.line);
    } else {
        let t = text.drop_last();
        assert forall|i: int| 0 <= i < t.len() implies #[trigger] t[i] != '\n' by {
            assert(t[i] == text[i]);
        }
        a_line_feeds(s, t);
        assert(text[text.len() - 1] != '\n');
        assert(s.line + text =~= (s.line + t).push(text.last()));
    }
}

/// One whole line read between two lines: an empty one dispatches what was gathered and starts
/// over; `event:` sets the type, without the space around it; `data:` adds a line to the data; a
/// comment and any other line change nothing, and only the empty line dispatches.
pub proof fn a_line_is_read(p: &mut SseParser, chunk: &str, line: Seq<char>, r: Vec<(String, String)>)
    requires
        call_ensures(SseParser::push, (p, chunk), r),
        chunk@ == line.push('\n'),
        forall|i: int| 0 <= i < line.len() ==> #[trigger] line[i] != '\n',
        line.len() > 0 ==> line.last() != '\r',
        old(p)@.line.len() == 0,
    ensures
        final(p)@.line.len() == 0,
        line.len() > 0 ==> r@.len() == 0,
        line.len() == 0 ==> final(p)@.kind.len() == 0 && final(p)@.data.len() == 0,
        line.len() == 0 ==> (r@.len() == 1 <==> old(p)@.kind.len() > 0 || old(p)@.data.len() > 0),
        line.len() == 0 && r@.len() == 1 ==> r@[0].0@ == old(p)@.kind && r@[0].1@ == old(p)@.data,
        r@.len() <= 1,
        begins(line, "event:"@) ==> final(p)@.kind == trimmed(line.skip(6)) && final(p)@.data
            == old(p)@.data,
        begins(line, "data:"@) ==> final(p)@.kind == old(p)@.kind,
        begins(line, "data:"@) && old(p)@.data.len() == 0 ==> final(p)@.data == (if line.len() > 5
            && line[5] == ' ' {
            line.skip(6)
        } else {
            line.skip(5)
        }),
        begins(line, "data:"@) && old(p)@.data.len() > 0 ==> final(p)@.data == old(p)@.data.push(
            '\n',
        ) + (if line.len() > 5 && line[5] == ' ' {
            line.skip(6)
        } else {
            line.skip(5)
        }),
        line.len() > 0 && line[0] == ':' ==> final(p)@ == old(p)@,
{
    let s = old(p)@;
    reveal_strlit("event:");
    reveal_strlit("data:");
    reveal_strlit(" ");
    assert(chunk@.drop_last() =~= line);
    a_line_feeds(s, line);
    assert(s.line + line =~= line);
    assert(without_tail(line, '\r') == line);
    if begins(line, "event:"@) {
        assert(line.take(6)[0] == "event:"@[0]);
        assert(line[0] == 'e');
    }
    if begins(line, "data:"@) {
        assert(line.take(5)[0] == "data:"@[0]);
        assert(line[0] == 'd');
        let rest = line.skip(5);
        if line.len() > 5 && line[5] == ' ' {
            assert(rest.take(1) =~= " "@);
            assert(rest.skip(1) =~= line.skip(6));
        } else if begins(rest, " "@) {
            assert(rest.take(1)[0] == " "@[0]);
        }
    }
    if line.len() > 0 && line[0] == ':' {
        assert(s.line =~= Seq::<char>::empty());
        assert(final(p)@.line =~= s.line);
    }
}

} // verus!
