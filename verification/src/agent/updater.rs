//! The service updates itself: when to check, when to download, when to apply, and what its
//! clients are shown of it.
//!
//! It opens no dialogs: in the background everything runs non-interactively, and a route that
//! needs a person moves only when somebody asked.

use vstd::prelude::*;

use crate::clock::NANOS;
use crate::text::same;

verus! {

/// How often the version is asked for in normal running, in seconds.
pub const POLL: i64 = 3_600;

/// The short cadence while something is pending that could not be applied yet, in seconds.
pub const RETRY: i64 = 60;

/// A breather before the first cycle, in seconds.
pub const WARMUP: i64 = 90;

/// The cap on consecutive failures before the attempts get spaced out.
pub const MAX_FAILURES: u32 = 5;

/// How long a failed version check waits before it is tried again, in seconds.
pub const CHECK_BACKOFF: i64 = 900;

/// The longest "not now", in hours: a week.
pub const MAX_SNOOZE_HOURS: u32 = 168;

/// Which releases this machine takes.
#[derive(Debug, Clone, Copy, PartialEq, Eq, Structural)]
pub enum Channel {
    Stable,
    Prerelease,
}

impl Channel {
    pub fn from_prerelease(on: bool) -> (r: Self)
        ensures
            r == (if on {
                Channel::Prerelease
            } else {
                Channel::Stable
            }),
    {
        if on {
            Channel::Prerelease
        } else {
            Channel::Stable
        }
    }
}

/// Why a staged update is held back.
#[derive(Debug, Clone, Copy, PartialEq, Eq, Structural)]
pub enum Hold {
    GameRunning,
    TransferInFlight,
}

/// Where the updater is.
#[derive(Debug, Clone, Copy, PartialEq, Eq, Structural)]
pub enum Phase {
    UpToDate,
    Downloading,
    Ready,
    Waiting(Hold),
    Applying,
    Restarting,
    Failed,
    Managed,
}

/// What the policy makes of the situation.
#[derive(Debug)]
pub enum Stance {
    Idle,
    Stage { version: String },
    Waiting { version: String, hold: Hold },
    Ask { version: String },
    ApplyQuietly { version: String },
    Force { version: String },
}

/// What the updater remembers from one run to the next. Times are nanoseconds since the epoch.
#[derive(Debug)]
pub struct Ledger {
    pub latest_seen: Option<String>,
    pub first_seen_at: Option<i128>,
    pub staged: Option<String>,
    pub staged_at: Option<i128>,
    pub failures: u32,
    pub last_error: Option<String>,
    pub last_check_at: Option<i128>,
    pub last_attempt_at: Option<i128>,
    pub channel: Channel,
    pub snoozed_until: Option<i128>,
    pub notified: Option<String>,
}

/// Does the optional string hold this text?
pub open spec fn is_text(a: Option<String>, b: Seq<char>) -> bool {
    a is Some && a->0@ == b
}

fn holds_text(a: &Option<String>, b: &str) -> (r: bool)
    ensures
        r == is_text(*a, b@),
{
    match a {
        Some(x) => same(x.as_str(), b),
        None => false,
    }
}

impl Default for Ledger {
    fn default() -> (r: Self)
        ensures
            r == (Ledger {
                latest_seen: None,
                first_seen_at: None,
                staged: None,
                staged_at: None,
                failures: 0,
                last_error: None,
                last_check_at: None,
                last_attempt_at: None,
                channel: Channel::Stable,
                snoozed_until: None,
                notified: None,
            }),
    {
        Ledger {
            latest_seen: None,
            first_seen_at: None,
            staged: None,
            staged_at: None,
            failures: 0,
            last_error: None,
            last_check_at: None,
            last_attempt_at: None,
            channel: Channel::Stable,
            snoozed_until: None,
            notified: None,
        }
    }
}

impl Ledger {
    /// A check answered with this version: noted with the time, and as first seen now unless it
    /// is the one that was known.
    pub fn observe(&mut self, latest: String, now: i128)
        ensures
            *final(self) == (Ledger {
                latest_seen: Some(latest),
                first_seen_at: if is_text(old(self).latest_seen, latest@) {
                    old(self).first_seen_at
                } else {
                    Some(now)
                },
                last_check_at: Some(now),
                ..*old(self)
            }),
    {
        if !holds_text(&self.latest_seen, latest.as_str()) {
            self.first_seen_at = Some(now);
        }
        self.latest_seen = Some(latest);
        self.last_check_at = Some(now);
    }

    /// The update landed: its deadline, the staged copy and the attempt counter are over with.
    pub fn applied(&mut self)
        ensures
            *final(self) == (Ledger {
                first_seen_at: None,
                staged: None,
                staged_at: None,
                failures: 0,
                last_error: None,
                ..*old(self)
            }),
    {
        self.first_seen_at = None;
        self.staged = None;
        self.staged_at = None;
        self.failures = 0;
        self.last_error = None;
    }

    /// "Not now", for `hours`, a week at most. It does not move the deadline.
    pub fn snooze(&mut self, hours: u32, now: i128)
        requires
            now + 604_800_000_000_000 <= i128::MAX,
        ensures
            *final(self) == (Ledger {
                snoozed_until: Some(
                    (now + 3_600_000_000_000 * (if hours < MAX_SNOOZE_HOURS {
                        hours
                    } else {
                        MAX_SNOOZE_HOURS
                    })) as i128,
                ),
                ..*old(self)
            }),
    {
        let capped: u32 = if hours < MAX_SNOOZE_HOURS {
            hours
        } else {
            MAX_SNOOZE_HOURS
        };
        self.snoozed_until = Some(now + 3_600_000_000_000 * capped as i128);
    }
}

/// The newest version the ledger knows on `channel`; `None` when its answer came from the other
/// one. After a switch the old answer is hidden until a check on the new channel replaces it.
pub fn latest_on(ledger: &Ledger, channel: Channel) -> (r: Option<String>)
    ensures
        r == (if ledger.channel == channel {
            ledger.latest_seen
        } else {
            None
        }),
{
    if ledger.channel == channel {
        match &ledger.latest_seen {
            Some(v) => Some(v.clone()),
            None => None,
        }
    } else {
        None
    }
}

/// Have at least `gap` seconds passed since `at`? Since never, always.
pub open spec fn elapsed(at: Option<i128>, gap: int, now: int) -> bool {
    at is None || now - at->0 >= gap * NANOS
}

/// Is a version check due? A client asked; or the channel on record is another one, or the last
/// answer is older than [`POLL`], and the last attempt is not within [`CHECK_BACKOFF`].
pub open spec fn check_due(ledger: Ledger, now: int, channel: Channel, forced: bool) -> bool {
    forced || ((ledger.channel != channel || elapsed(ledger.last_check_at, POLL as int, now))
        && elapsed(ledger.last_attempt_at, CHECK_BACKOFF as int, now))
}

fn has_elapsed(at: Option<i128>, gap: i64, now: i128) -> (r: bool)
    requires
        gap >= 0,
    ensures
        r == elapsed(at, gap as int, now as int),
{
    match at {
        None => true,
        Some(t) => match now.checked_sub(t) {
            Some(d) => d >= gap as i128 * NANOS,
            None => now >= 0,
        },
    }
}

/// Whether the version is to be asked for now; the attempt is noted.
pub fn check_if_due(ledger: &mut Ledger, now: i128, channel: Channel, forced: bool) -> (r: bool)
    ensures
        r == check_due(*old(ledger), now as int, channel, forced),
        *final(ledger) == (if r {
            Ledger { last_attempt_at: Some(now), ..*old(ledger) }
        } else {
            *old(ledger)
        }),
{
    let wanted = ledger.channel != channel || has_elapsed(ledger.last_check_at, POLL, now);
    let due = forced || (wanted && has_elapsed(ledger.last_attempt_at, CHECK_BACKOFF, now));
    if due {
        ledger.last_attempt_at = Some(now);
    }
    due
}

/// What a check came back with. A failed one leaves the ledger's answer and channel as they were.
pub fn checked(ledger: &mut Ledger, now: i128, channel: Channel, answer: Option<String>)
    ensures
        *final(ledger) == (match answer {
            Some(latest) => Ledger {
                latest_seen: Some(latest),
                first_seen_at: if is_text(old(ledger).latest_seen, latest@) {
                    old(ledger).first_seen_at
                } else {
                    Some(now)
                },
                last_check_at: Some(now),
                channel,
                ..*old(ledger)
            },
            None => *old(ledger),
        }),
{
    match answer {
        Some(latest) => {
            ledger.observe(latest, now);
            ledger.channel = channel;
        },
        None => {},
    }
}

/// When to come back.
#[derive(Debug, Clone, Copy, PartialEq, Eq, Structural)]
pub enum Cadence {
    Normal,
    /// Something is pending and held back.
    Soon,
}

impl Cadence {
    /// The seconds until the next cycle.
    pub fn secs(self) -> (r: i64)
        ensures
            r == (match self {
                Cadence::Normal => POLL,
                Cadence::Soon => RETRY,
            }),
    {
        match self {
            Cadence::Normal => POLL,
            Cadence::Soon => RETRY,
        }
    }
}

/// Why the loop stops: something was applied and the new binary has to be started.
#[derive(Debug)]
pub struct Relaunch {
    pub version: String,
}

/// What clients see of the updater.
#[derive(Debug)]
pub struct UpdateState {
    pub current: String,
    pub latest: Option<String>,
    pub staged: Option<String>,
    pub phase: Phase,
    pub deadline: Option<i128>,
    pub mandatory: bool,
    pub unattended: bool,
    pub last_error: Option<String>,
}

/// The updater's shared view.
#[derive(Debug)]
pub struct Updater {
    pub phase: Phase,
    pub latest: Option<String>,
    pub staged: Option<String>,
    pub deadline: Option<i128>,
    pub mandatory: bool,
    pub unattended: bool,
    pub last_error: Option<String>,
    /// The version a client asked to apply, waiting for the loop to pick it up; `Some(None)` is
    /// whichever is ready.
    pub requested: Option<Option<String>>,
    /// A client changed the update channel: the next cycle checks whatever the gates say.
    pub recheck: bool,
}

fn copy_text(o: &Option<String>) -> (r: Option<String>)
    ensures
        r == *o,
{
    match o {
        Some(s) => Some(s.clone()),
        None => None,
    }
}

/// How this installation is kept up to date, as far as it could be told.
#[derive(Debug)]
pub enum Delivery {
    /// It could not be told.
    Unknown(String),
    /// By somebody else: a package manager, a Flatpak.
    Managed,
    /// By this service.
    Ours,
}

/// How a cycle goes on after its start.
#[derive(Debug, Clone, Copy, PartialEq, Eq, Structural)]
pub enum Begin {
    /// It is over.
    Over(Cadence),
    /// Go on. `landed` tells that this is the version that was staged: close the book on it and
    /// sweep what was staged.
    Go { landed: bool },
}

/// What a cycle does about its stance.
#[derive(Debug)]
pub enum Tick {
    /// Nothing more; come back.
    Rest(Cadence),
    /// Download this version.
    Stage(String),
    /// Apply this version; `noninteractive` forbids a dialog.
    Apply { version: String, noninteractive: bool },
    /// Tell the user, once, that this version needs them; then come back.
    Announce(String),
}

/// Has a client asked for this version, or for whichever is ready?
pub open spec fn asks_for(requested: Option<Option<String>>, version: Seq<char>) -> bool {
    requested is Some && (requested->0 is None || requested->0->0@ == version)
}

/// Has the user put the update off until later than `now`?
pub open spec fn snoozed(ledger: Ledger, now: int) -> bool {
    ledger.snoozed_until is Some && now < ledger.snoozed_until->0
}

/// What a cycle does about its stance.
pub open spec fn tick_of(
    stance: Stance,
    requested: Option<Option<String>>,
    ledger: Ledger,
    now: int,
) -> Tick {
    let burnt = ledger.failures >= MAX_FAILURES;
    match stance {
        Stance::Idle => Tick::Rest(Cadence::Normal),
        Stance::Stage { version } => if burnt {
            Tick::Rest(Cadence::Normal)
        } else {
            Tick::Stage(version)
        },
        Stance::Waiting { version, hold } => if requested is Some && hold == Hold::GameRunning {
            Tick::Apply { version, noninteractive: false }
        } else {
            Tick::Rest(Cadence::Soon)
        },
        Stance::Ask { version } => if asks_for(requested, version@) {
            Tick::Apply { version, noninteractive: false }
        } else if snoozed(ledger, now) || is_text(ledger.notified, version@) {
            Tick::Rest(Cadence::Normal)
        } else {
            Tick::Announce(version)
        },
        Stance::ApplyQuietly { version } | Stance::Force { version } => if burnt
            && requested is None {
            Tick::Rest(Cadence::Normal)
        } else {
            Tick::Apply { version, noninteractive: requested is None }
        },
    }
}

/// The phase that a stance leaves the updater in, before what it does has come back.
pub open spec fn phase_after(
    stance: Stance,
    requested: Option<Option<String>>,
    ledger: Ledger,
    phase: Phase,
) -> Phase {
    match stance {
        Stance::Idle => Phase::UpToDate,
        Stance::Stage { .. } => if ledger.failures >= MAX_FAILURES {
            phase
        } else {
            Phase::Downloading
        },
        Stance::Waiting { hold, .. } => if requested is Some && hold == Hold::GameRunning {
            phase
        } else {
            Phase::Waiting(hold)
        },
        Stance::Ask { .. } => Phase::Ready,
        _ => phase,
    }
}

impl Updater {
    /// Nothing pending, nothing asked.
    pub fn new() -> (r: Self)
        ensures
            r == (Updater {
                phase: Phase::UpToDate,
                latest: None,
                staged: None,
                deadline: None,
                mandatory: false,
                unattended: false,
                last_error: None,
                requested: None,
                recheck: false,
            }),
    {
        Updater {
            phase: Phase::UpToDate,
            latest: None,
            staged: None,
            deadline: None,
            mandatory: false,
            unattended: false,
            last_error: None,
            requested: None,
            recheck: false,
        }
    }

    /// What a client sees.
    pub fn state(&self) -> (r: UpdateState)
        ensures
            r.current@ == crate::agent::update::VERSION@,
            r.latest == self.latest,
            r.staged == self.staged,
            r.phase == self.phase,
            r.deadline == self.deadline,
            r.mandatory == self.mandatory,
            r.unattended == self.unattended,
            r.last_error == self.last_error,
    {
        UpdateState {
            current: crate::agent::update::current().to_owned(),
            latest: copy_text(&self.latest),
            staged: copy_text(&self.staged),
            phase: self.phase,
            deadline: self.deadline,
            mandatory: self.mandatory,
            unattended: self.unattended,
            last_error: copy_text(&self.last_error),
        }
    }

    /// A client asks to apply now. The loop is what applies.
    pub fn apply_now(&mut self, version: Option<String>)
        ensures
            *final(self) == (Updater { requested: Some(version), ..*old(self) }),
    {
        self.requested = Some(version);
    }

    /// Check now rather than on the hour.
    pub fn recheck(&mut self)
        ensures
            *final(self) == (Updater { recheck: true, ..*old(self) }),
    {
        self.recheck = true;
    }

    /// The check that was asked for, once.
    pub fn take_recheck(&mut self) -> (r: bool)
        ensures
            r == old(self).recheck,
            *final(self) == (Updater { recheck: false, ..*old(self) }),
    {
        let asked = self.recheck;
        self.recheck = false;
        asked
    }

    /// The request that was made, once.
    pub fn take_request(&mut self) -> (r: Option<Option<String>>)
        ensures
            r == old(self).requested,
            *final(self) == (Updater { requested: None, ..*old(self) }),
    {
        self.requested.take()
    }

    pub fn set_phase(&mut self, phase: Phase)
        ensures
            *final(self) == (Updater { phase, ..*old(self) }),
    {
        self.phase = phase;
    }

    pub fn fail(&mut self, error: String)
        ensures
            *final(self) == (Updater {
                phase: Phase::Failed,
                last_error: Some(error),
                ..*old(self)
            }),
    {
        self.phase = Phase::Failed;
        self.last_error = Some(error);
    }

    /// The start of a cycle: it is over at once where the installation cannot be told or is not
    /// ours to touch. Running what was staged means that the update landed.
    pub fn begin(&mut self, delivery: Delivery, ledger: &mut Ledger, current: &str) -> (r: Begin)
        ensures
            match delivery {
                Delivery::Unknown(error) => {
                    &&& r == Begin::Over(Cadence::Normal)
                    &&& *final(self) == (Updater {
                        phase: Phase::Failed,
                        last_error: Some(error),
                        ..*old(self)
                    })
                    &&& *final(ledger) == *old(ledger)
                },
                Delivery::Managed => {
                    &&& r == Begin::Over(Cadence::Normal)
                    &&& *final(self) == (Updater { phase: Phase::Managed, ..*old(self) })
                    &&& *final(ledger) == *old(ledger)
                },
                Delivery::Ours => {
                    &&& r == Begin::Go { landed: is_text(old(ledger).staged, current@) }
                    &&& *final(self) == *old(self)
                    &&& *final(ledger) == (if is_text(old(ledger).staged, current@) {
                        Ledger {
                            first_seen_at: None,
                            staged: None,
                            staged_at: None,
                            failures: 0,
                            last_error: None,
                            ..*old(ledger)
                        }
                    } else {
                        *old(ledger)
                    })
                },
            },
    {
        match delivery {
            Delivery::Unknown(error) => {
                self.fail(error);
                Begin::Over(Cadence::Normal)
            },
            Delivery::Managed => {
                self.set_phase(Phase::Managed);
                Begin::Over(Cadence::Normal)
            },
            Delivery::Ours => {
                let landed = holds_text(&ledger.staged, current);
                if landed {
                    ledger.applied();
                }
                Begin::Go { landed }
            },
        }
    }

    /// Show clients what the cycle found: the newest version on this channel, what is staged, the
    /// deadline, and whether the update has stopped being optional.
    pub fn show(
        &mut self,
        ledger: &Ledger,
        channel: Channel,
        deadline: Option<i128>,
        stance: &Stance,
        unattended: bool,
    )
        ensures
            *final(self) == (Updater {
                latest: if ledger.channel == channel {
                    ledger.latest_seen
                } else {
                    None
                },
                staged: ledger.staged,
                deadline,
                mandatory: stance is Force,
                unattended,
                ..*old(self)
            }),
    {
        self.latest = latest_on(ledger, channel);
        self.staged = copy_text(&ledger.staged);
        self.deadline = deadline;
        self.mandatory = matches!(stance, Stance::Force { .. });
        self.unattended = unattended;
    }

    /// What the cycle does about its stance. A request to apply with a game open is honoured; one
    /// made while a transfer is in flight is kept for when it is over.
    pub fn tick(
        &mut self,
        stance: Stance,
        requested: Option<Option<String>>,
        ledger: &mut Ledger,
        now: i128,
    ) -> (r: Tick)
        ensures
            r == tick_of(stance, requested, *old(ledger), now as int),
            final(self).phase == phase_after(stance, requested, *old(ledger), old(self).phase),
            final(self).requested == (if requested is Some && stance is Waiting && stance->hold
                == Hold::TransferInFlight {
                requested
            } else {
                old(self).requested
            }),
            final(self).latest == old(self).latest,
            final(self).staged == old(self).staged,
            final(self).deadline == old(self).deadline,
            final(self).mandatory == old(self).mandatory,
            final(self).unattended == old(self).unattended,
            final(self).last_error == old(self).last_error,
            final(self).recheck == old(self).recheck,
            *final(ledger) == (match r {
                Tick::Announce(version) => Ledger { notified: Some(version), ..*old(ledger) },
                _ => *old(ledger),
            }),
    {
        let burnt = ledger.failures >= MAX_FAILURES;
        match stance {
            Stance::Idle => {
                self.set_phase(Phase::UpToDate);
                Tick::Rest(Cadence::Normal)
            },
            Stance::Stage { version } => {
                if burnt {
                    return Tick::Rest(Cadence::Normal);
                }
                self.set_phase(Phase::Downloading);
                Tick::Stage(version)
            },
            Stance::Waiting { version, hold } => {
                if requested.is_some() {
                    match hold {
                        Hold::GameRunning => {
                            return Tick::Apply { version, noninteractive: false };
                        },
                        Hold::TransferInFlight => {
                            self.requested = requested;
                        },
                    }
                }
                self.set_phase(Phase::Waiting(hold));
                Tick::Rest(Cadence::Soon)
            },
            Stance::Ask { version } => {
                self.set_phase(Phase::Ready);
                let asked = match &requested {
                    Some(Some(v)) => same(v.as_str(), version.as_str()),
                    Some(None) => true,
                    None => false,
                };
                if asked {
                    return Tick::Apply { version, noninteractive: false };
                }
                let put_off = match ledger.snoozed_until {
                    Some(until) => now < until,
                    None => false,
                };
                if put_off || holds_text(&ledger.notified, version.as_str()) {
                    return Tick::Rest(Cadence::Normal);
                }
                ledger.notified = Some(version.clone());
                Tick::Announce(version)
            },
            Stance::ApplyQuietly { version } => quietly(version, burnt, &requested),
            Stance::Force { version } => quietly(version, burnt, &requested),
        }
    }

    /// The download came back. It is on disk now, so the next cycle comes soon; a failure counts.
    pub fn staged(&mut self, ledger: &mut Ledger, result: Result<String, String>, now: i128) -> (r:
        Cadence)
        requires
            old(ledger).failures < u32::MAX,
        ensures
            match result {
                Ok(version) => {
                    &&& r == Cadence::Soon
                    &&& *final(ledger) == (Ledger {
                        staged: Some(version),
                        staged_at: Some(now),
                        failures: 0,
                        last_error: None,
                        ..*old(ledger)
                    })
                    &&& *final(self) == (Updater {
                        staged: Some(version),
                        phase: Phase::Ready,
                        ..*old(self)
                    })
                },
                Err(message) => {
                    &&& r == Cadence::Normal
                    &&& *final(ledger) == (Ledger {
                        failures: (old(ledger).failures + 1) as u32,
                        last_error: Some(message),
                        ..*old(ledger)
                    })
                    &&& *final(self) == (Updater {
                        phase: Phase::Failed,
                        last_error: Some(message),
                        ..*old(self)
                    })
                },
            },
    {
        match result {
            Ok(version) => {
                ledger.staged = Some(version.clone());
                ledger.staged_at = Some(now);
                ledger.failures = 0;
                ledger.last_error = None;
                self.staged = Some(version);
                self.set_phase(Phase::Ready);
                Cadence::Soon
            },
            Err(message) => {
                ledger.failures = ledger.failures + 1;
                ledger.last_error = Some(message.clone());
                self.fail(message);
                Cadence::Normal
            },
        }
    }

    /// Before an update is applied. Where what was staged is gone it is forgotten, and the next
    /// cycle downloads it again. Otherwise the attempt is written down first: on some systems
    /// there is no after, because the installer stops the service that launched it.
    pub fn apply_begin(&mut self, ledger: &mut Ledger, on_disk: bool, version: &str) -> (r: Option<
        Cadence,
    >)
        requires
            old(ledger).failures < u32::MAX,
        ensures
            !on_disk ==> {
                &&& r == Some(Cadence::Soon)
                &&& *final(ledger) == (Ledger { staged: None, staged_at: None, ..*old(ledger) })
                &&& *final(self) == *old(self)
            },
            on_disk ==> {
                &&& r is None
                &&& final(ledger).last_error is Some
                &&& final(ledger).last_error->0@ == "applying "@ + version@
                    + " never reported back"@
                &&& *final(ledger) == (Ledger {
                    failures: (old(ledger).failures + 1) as u32,
                    last_error: final(ledger).last_error,
                    ..*old(ledger)
                })
                &&& *final(self) == (Updater { phase: Phase::Applying, ..*old(self) })
            },
    {
        if !on_disk {
            ledger.staged = None;
            ledger.staged_at = None;
            return Some(Cadence::Soon);
        }
        self.set_phase(Phase::Applying);
        let mut message = "applying ".to_owned();
        message.append(version);
        message.append(" never reported back");
        ledger.failures = ledger.failures + 1;
        ledger.last_error = Some(message);
        None
    }

    /// After an update was applied, or failed to be. The attempt is counted already; a failure
    /// only puts the real reason in place of the placeholder.
    pub fn apply_end(
        &mut self,
        ledger: &mut Ledger,
        version: String,
        result: Result<(), String>,
    ) -> (r: Option<Relaunch>)
        ensures
            match result {
                Ok(_) => {
                    &&& r is Some
                    &&& r->0.version == version
                    &&& *final(ledger) == (Ledger {
                        first_seen_at: None,
                        staged: None,
                        staged_at: None,
                        failures: 0,
                        last_error: None,
                        ..*old(ledger)
                    })
                    &&& *final(self) == (Updater {
                        phase: Phase::Restarting,
                        staged: None,
                        mandatory: false,
                        last_error: None,
                        ..*old(self)
                    })
                },
                Err(message) => {
                    &&& r is None
                    &&& *final(ledger) == (Ledger { last_error: Some(message), ..*old(ledger) })
                    &&& *final(self) == (Updater {
                        phase: Phase::Failed,
                        last_error: Some(message),
                        ..*old(self)
                    })
                },
            },
    {
        match result {
            Ok(()) => {
                ledger.applied();
                self.phase = Phase::Restarting;
                self.staged = None;
                self.mandatory = false;
                self.last_error = None;
                Some(Relaunch { version })
            },
            Err(message) => {
                ledger.last_error = Some(message.clone());
                self.fail(message);
                None
            },
        }
    }
}

/// Applying without anybody in front of it, unless a client asked.
fn quietly(version: String, burnt: bool, requested: &Option<Option<String>>) -> (r: Tick)
    ensures
        r == (if burnt && *requested is None {
            Tick::Rest(Cadence::Normal)
        } else {
            Tick::Apply { version, noninteractive: *requested is None }
        }),
{
    if burnt && requested.is_none() {
        return Tick::Rest(Cadence::Normal);
    }
    Tick::Apply { version, noninteractive: requested.is_none() }
}

impl Default for Updater {
    fn default() -> (r: Self)
        ensures
            r == (Updater {
                phase: Phase::UpToDate,
                latest: None,
                staged: None,
                deadline: None,
                mandatory: false,
                unattended: false,
                last_error: None,
                requested: None,
                recheck: false,
            }),
    {
        Updater::new()
    }
}

/// A check that fails is not tried again within its backoff, whatever the channel, unless a
/// client asks: no outage turns into a request a minute.
pub proof fn a_failed_check_backs_off(ledger: Ledger, at: i128, later: int, channel: Channel)
    requires
        ledger.last_attempt_at == Some(at),
        later < at + CHECK_BACKOFF * NANOS,
    ensures
        !check_due(ledger, later, channel, false),
{
}

/// On an unchanged channel an answer holds for the hour.
pub proof fn an_unchanged_channel_waits_out_the_hour(ledger: Ledger, at: i128, later: int)
    requires
        ledger.last_check_at == Some(at),
        later < at + POLL * NANOS,
    ensures
        !check_due(ledger, later, ledger.channel, false),
{
}

/// A switch of the channel makes a check due at once, unless one was just tried.
pub proof fn a_switch_is_checked_at_once(ledger: Ledger, now: int, channel: Channel)
    requires
        ledger.channel != channel,
        elapsed(ledger.last_attempt_at, CHECK_BACKOFF as int, now),
    ensures
        check_due(ledger, now, channel, false),
{
}

/// Nobody is shown a dialog who did not ask: without a request, whatever is applied is applied
/// non-interactively.
pub proof fn the_background_opens_no_dialogs(stance: Stance, ledger: Ledger, now: int)
    ensures
        tick_of(stance, None, ledger, now) matches Tick::Apply { noninteractive, .. }
            ==> noninteractive,
{
}

/// After repeated failures nothing is downloaded, and nothing is applied that nobody asked for.
pub proof fn repeated_failures_rest(stance: Stance, ledger: Ledger, now: int)
    requires
        ledger.failures >= MAX_FAILURES,
    ensures
        !(tick_of(stance, None, ledger, now) is Stage),
        !(tick_of(stance, None, ledger, now) is Apply),
{
}

/// A version is announced once.
pub proof fn a_version_is_announced_once(
    stance: Stance,
    requested: Option<Option<String>>,
    ledger: Ledger,
    now: int,
)
    requires
        tick_of(stance, requested, ledger, now) is Announce,
    ensures
        ({
            let version = tick_of(stance, requested, ledger, now)->Announce_0;
            !(tick_of(stance, requested, Ledger { notified: Some(version), ..ledger }, now) is Announce)
        }),
{
}

// ---- laws on the calls

/// With fewer than five failures on record a cycle that is to stage a version downloads that very
/// version; with five or more it rests. Nothing else starts a download, and clients are shown one
/// exactly when one is started.
pub proof fn a_version_to_stage_is_downloaded(
    u: &mut Updater,
    stance: Stance,
    requested: Option<Option<String>>,
    ledger: &mut Ledger,
    now: i128,
    r: Tick,
)
    requires
        call_ensures(Updater::tick, (u, stance, requested, ledger, now), r),
    ensures
        stance is Stage && old(ledger).failures < 5 ==> r == Tick::Stage(stance->Stage_version),
        stance is Stage && old(ledger).failures >= 5 ==> r == Tick::Rest(Cadence::Normal),
        r is Stage ==> stance is Stage && final(u).phase == Phase::Downloading,
        old(u).phase != Phase::Downloading ==> (final(u).phase == Phase::Downloading
            <==> r is Stage),
{
}

/// What a cycle does about a staged version. Held back by a game it is applied only on request, by a
/// transfer not at all, and either is looked at again soon and shown as held. One that needs the
/// user is applied when they ask for it or for whichever is ready, and announced once otherwise,
/// unless they put it off. One that does not is applied without a dialog, after repeated failures on
/// request alone. Whatever is applied or announced is the version of the stance.
pub proof fn a_staged_version_is_dealt_with(
    u: &mut Updater,
    stance: Stance,
    requested: Option<Option<String>>,
    ledger: &mut Ledger,
    now: i128,
    r: Tick,
)
    requires
        call_ensures(Updater::tick, (u, stance, requested, ledger, now), r),
    ensures
        stance is Idle ==> r == Tick::Rest(Cadence::Normal) && final(u).phase == Phase::UpToDate,
        stance is Waiting ==> {
            let asked = requested is Some && stance->hold == Hold::GameRunning;
            &&& asked ==> r == (Tick::Apply {
                version: stance->Waiting_version,
                noninteractive: false,
            })
            &&& !asked ==> r == Tick::Rest(Cadence::Soon) && final(u).phase == Phase::Waiting(
                stance->hold,
            )
            &&& requested is Some && stance->hold == Hold::TransferInFlight
                ==> final(u).requested == requested
        },
        stance is Ask ==> {
            let version = stance->Ask_version;
            let asked = requested is Some && (requested->0 is None || requested->0->0@
                == version@);
            let put_off = old(ledger).snoozed_until is Some && now
                < old(ledger).snoozed_until->0;
            let told = old(ledger).notified is Some && old(ledger).notified->0@ == version@;
            &&& final(u).phase == Phase::Ready
            &&& asked ==> r == (Tick::Apply { version, noninteractive: false })
            &&& !asked && (put_off || told) ==> r == Tick::Rest(Cadence::Normal)
            &&& !asked && !put_off && !told ==> r == Tick::Announce(version)
                && final(ledger).notified == Some(version)
        },
        stance is ApplyQuietly ==> {
            &&& requested is Some ==> r == (Tick::Apply {
                version: stance->ApplyQuietly_version,
                noninteractive: false,
            })
            &&& requested is None && old(ledger).failures < 5 ==> r == (Tick::Apply {
                version: stance->ApplyQuietly_version,
                noninteractive: true,
            })
            &&& requested is None && old(ledger).failures >= 5 ==> r == Tick::Rest(Cadence::Normal)
        },
        stance is Force ==> {
            &&& requested is Some ==> r == (Tick::Apply {
                version: stance->Force_version,
                noninteractive: false,
            })
            &&& requested is None && old(ledger).failures < 5 ==> r == (Tick::Apply {
                version: stance->Force_version,
                noninteractive: true,
            })
            &&& requested is None && old(ledger).failures >= 5 ==> r == Tick::Rest(Cadence::Normal)
        },
        r !is Announce ==> *final(ledger) == *old(ledger),
        r is Announce ==> *final(ledger) == (Ledger {
            notified: final(ledger).notified,
            ..*old(ledger)
        }),
        !(stance is Waiting && stance->hold == Hold::TransferInFlight && requested is Some)
            ==> final(u).requested == old(u).requested,
{
}

/// Two cycles in a row on one stance that needs the user announce it once.
pub proof fn two_cycles_announce_once(
    u: &mut Updater,
    v: &mut Updater,
    stance: Stance,
    first: &mut Ledger,
    second: &mut Ledger,
    now: i128,
    later: i128,
    a: Tick,
    b: Tick,
)
    requires
        call_ensures(Updater::tick, (u, stance, None::<Option<String>>, first, now), a),
        call_ensures(Updater::tick, (v, stance, None::<Option<String>>, second, later), b),
        *old(second) == *final(first),
        a is Announce,
    ensures
        b == Tick::Rest(Cadence::Normal),
{
}

/// A download that lands is what is staged, for the ledger and for clients, and clears the failures;
/// the next cycle comes soon. One that fails counts once more and is shown with its reason, and what
/// was staged before stays.
pub proof fn a_download_comes_back(
    u: &mut Updater,
    ledger: &mut Ledger,
    result: Result<String, String>,
    now: i128,
    r: Cadence,
)
    requires
        call_ensures(Updater::staged, (u, ledger, result, now), r),
        old(ledger).failures < u32::MAX,
    ensures
        result is Ok ==> {
            &&& r == Cadence::Soon
            &&& final(ledger).staged == Some(result->Ok_0)
            &&& final(u).staged == Some(result->Ok_0)
            &&& final(ledger).staged_at == Some(now)
            &&& final(ledger).failures == 0
            &&& final(ledger).last_error is None
            &&& final(u).phase == Phase::Ready
            &&& final(u).last_error == old(u).last_error
        },
        result is Err ==> {
            &&& r == Cadence::Normal
            &&& final(ledger).failures == old(ledger).failures + 1
            &&& final(ledger).last_error == Some(result->Err_0)
            &&& final(u).last_error == Some(result->Err_0)
            &&& final(u).phase == Phase::Failed
            &&& final(ledger).staged == old(ledger).staged
            &&& final(u).staged == old(u).staged
        },
        final(ledger).latest_seen == old(ledger).latest_seen,
        final(ledger).first_seen_at == old(ledger).first_seen_at,
        final(ledger).channel == old(ledger).channel,
        final(ledger).snoozed_until == old(ledger).snoozed_until,
        final(ledger).notified == old(ledger).notified,
        final(u).requested == old(u).requested,
        final(u).latest == old(u).latest,
{
}

/// An attempt to apply counts before it starts, so one that never comes back has counted; with
/// nothing on disk there is no attempt, and what was staged is forgotten. One that succeeds closes
/// the book: nothing staged, no failures, no deadline. One that fails leaves the count as the start
/// left it and puts its own reason in place.
pub proof fn an_attempt_counts_before_it_starts(
    u: &mut Updater,
    v: &mut Updater,
    ledger: &mut Ledger,
    after: &mut Ledger,
    on_disk: bool,
    version: &str,
    applied: String,
    result: Result<(), String>,
    a: Option<Cadence>,
    b: Option<Relaunch>,
)
    requires
        old(ledger).failures < u32::MAX,
        call_ensures(Updater::apply_begin, (u, ledger, on_disk, version), a),
        call_ensures(Updater::apply_end, (v, after, applied, result), b),
        *old(after) == *final(ledger),
    ensures
        !on_disk ==> {
            &&& a == Some(Cadence::Soon)
            &&& final(ledger).staged is None
            &&& final(ledger).staged_at is None
            &&& final(ledger).failures == old(ledger).failures
            &&& *final(u) == *old(u)
        },
        on_disk ==> {
            &&& a is None
            &&& final(ledger).failures == old(ledger).failures + 1
            &&& final(ledger).last_error is Some
            &&& final(ledger).last_error->0@ == "applying "@ + version@ + " never reported back"@
            &&& final(ledger).staged == old(ledger).staged
            &&& final(u).phase == Phase::Applying
        },
        result is Ok ==> {
            &&& b is Some && b->0.version == applied
            &&& final(after).staged is None
            &&& final(after).staged_at is None
            &&& final(after).first_seen_at is None
            &&& final(after).failures == 0
            &&& final(after).last_error is None
            &&& final(v).phase == Phase::Restarting
            &&& final(v).staged is None
            &&& !final(v).mandatory
            &&& final(v).last_error is None
        },
        result is Err ==> {
            &&& b is None
            &&& final(after).failures == final(ledger).failures
            &&& final(after).last_error == Some(result->Err_0)
            &&& final(after).staged == final(ledger).staged
            &&& final(v).phase == Phase::Failed
            &&& final(v).last_error == Some(result->Err_0)
        },
        final(after).latest_seen == old(after).latest_seen,
        final(after).channel == old(after).channel,
        final(after).notified == old(after).notified,
{
}

/// A cycle goes on only where the installation is ours. Running the very version that was staged
/// means that it landed: its book is closed, and only then.
pub proof fn a_cycle_starts(
    u: &mut Updater,
    delivery: Delivery,
    ledger: &mut Ledger,
    current: &str,
    r: Begin,
)
    requires
        call_ensures(Updater::begin, (u, delivery, ledger, current), r),
    ensures
        r is Go <==> delivery is Ours,
        r is Over ==> r == Begin::Over(Cadence::Normal) && *final(ledger) == *old(ledger),
        delivery is Managed ==> final(u).phase == Phase::Managed && final(u).last_error
            == old(u).last_error,
        delivery is Unknown ==> final(u).phase == Phase::Failed && final(u).last_error == Some(
            delivery->Unknown_0,
        ),
        delivery is Ours ==> {
            let landed = old(ledger).staged is Some && old(ledger).staged->0@ == current@;
            &&& r == (Begin::Go { landed })
            &&& *final(u) == *old(u)
            &&& !landed ==> *final(ledger) == *old(ledger)
            &&& landed ==> final(ledger).staged is None && final(ledger).staged_at is None
                && final(ledger).first_seen_at is None && final(ledger).failures == 0
                && final(ledger).last_error is None && final(ledger).latest_seen
                == old(ledger).latest_seen && final(ledger).channel == old(ledger).channel
        },
{
}

/// What clients are shown of a cycle is the ledger's: the newest version of the channel they are on
/// and none from the other one, what is staged, and that an update is mandatory exactly when it is
/// forced.
pub proof fn clients_see_the_ledger(
    u: &mut Updater,
    ledger: Ledger,
    channel: Channel,
    deadline: Option<i128>,
    stance: Stance,
    unattended: bool,
    state: UpdateState,
    latest: Option<String>,
)
    requires
        call_ensures(Updater::show, (u, &ledger, channel, deadline, &stance, unattended), ()),
        call_ensures(Updater::state, (&*final(u),), state),
        call_ensures(latest_on, (&ledger, channel), latest),
    ensures
        ledger.channel == channel ==> latest == ledger.latest_seen,
        ledger.channel != channel ==> latest is None,
        state.latest == latest,
        state.staged == ledger.staged,
        state.deadline == deadline,
        state.mandatory <==> stance is Force,
        state.unattended == unattended,
        state.phase == old(u).phase,
        state.last_error == old(u).last_error,
        state.current@ == crate::agent::update::VERSION@,
        final(u).requested == old(u).requested,
        final(u).recheck == old(u).recheck,
{
}

/// A request and a recheck are each picked up once: the first that asks gets what was asked, and
/// nothing is left for the second.
pub proof fn a_request_is_picked_up_once(
    u: &mut Updater,
    v: &mut Updater,
    w: &mut Updater,
    version: Option<String>,
    a: Option<Option<String>>,
    b: Option<Option<String>>,
)
    requires
        call_ensures(Updater::apply_now, (u, version), ()),
        call_ensures(Updater::take_request, (v,), a),
        call_ensures(Updater::take_request, (w,), b),
        *old(v) == *final(u),
        *old(w) == *final(v),
    ensures
        a == Some(version),
        b is None,
        final(w).phase == old(u).phase,
        final(w).recheck == old(u).recheck,
        final(w).staged == old(u).staged,
{
}

/// As [`a_request_is_picked_up_once`], for a recheck.
pub proof fn a_recheck_is_picked_up_once(
    u: &mut Updater,
    v: &mut Updater,
    w: &mut Updater,
    a: bool,
    b: bool,
)
    requires
        call_ensures(Updater::recheck, (u,), ()),
        call_ensures(Updater::take_recheck, (v,), a),
        call_ensures(Updater::take_recheck, (w,), b),
        *old(v) == *final(u),
        *old(w) == *final(v),
    ensures
        a,
        !b,
        final(w).requested == old(u).requested,
        final(w).phase == old(u).phase,
{
}

/// Putting an update off holds for the hours asked for and a week at most, from now; it moves
/// nothing else, the day it was first seen least of all.
pub proof fn a_snooze_lasts_its_hours(ledger: &mut Ledger, hours: u32, now: i128)
    requires
        now + 604_800_000_000_000 <= i128::MAX,
        call_ensures(Ledger::snooze, (ledger, hours, now), ()),
    ensures
        final(ledger).snoozed_until is Some,
        hours <= 168 ==> final(ledger).snoozed_until->0 - now == 3_600_000_000_000 * hours,
        hours > 168 ==> final(ledger).snoozed_until->0 - now == 604_800_000_000_000,
        *final(ledger) == (Ledger { snoozed_until: final(ledger).snoozed_until, ..*old(ledger) }),
{
}

/// A version is first seen when it first came; seen again it keeps its day, and another one starts
/// anew. An answer says which channel it came from; no answer changes nothing.
pub proof fn a_version_keeps_its_first_day(
    ledger: &mut Ledger,
    now: i128,
    channel: Channel,
    answer: Option<String>,
)
    requires
        call_ensures(checked, (ledger, now, channel, answer), ()),
    ensures
        answer is None ==> *final(ledger) == *old(ledger),
        answer is Some ==> {
            let known = old(ledger).latest_seen is Some && old(ledger).latest_seen->0@
                == answer->0@;
            &&& final(ledger).latest_seen == answer
            &&& final(ledger).last_check_at == Some(now)
            &&& final(ledger).channel == channel
            &&& known ==> final(ledger).first_seen_at == old(ledger).first_seen_at
            &&& !known ==> final(ledger).first_seen_at == Some(now)
            &&& final(ledger).staged == old(ledger).staged
            &&& final(ledger).failures == old(ledger).failures
            &&& final(ledger).last_attempt_at == old(ledger).last_attempt_at
            &&& final(ledger).snoozed_until == old(ledger).snoozed_until
        },
{
}

/// When the version is asked for: whenever a client asks; else an hour after the last answer, or at
/// once on another channel, and never within a quarter of an hour of the last attempt. Asking is an
/// attempt, and nothing else is noted.
pub proof fn when_the_version_is_asked_for(
    ledger: &mut Ledger,
    now: i128,
    channel: Channel,
    forced: bool,
    r: bool,
)
    requires
        call_ensures(check_if_due, (ledger, now, channel, forced), r),
    ensures
        ({
            let l = *old(ledger);
            let stale = l.channel != channel || l.last_check_at is None || now - l.last_check_at->0
                >= 3_600_000_000_000;
            let rested = l.last_attempt_at is None || now - l.last_attempt_at->0
                >= 900_000_000_000;
            &&& r <==> forced || (stale && rested)
            &&& r ==> *final(ledger) == (Ledger { last_attempt_at: Some(now), ..l })
            &&& !r ==> *final(ledger) == l
        }),
{
}

/// The next cycle is in an hour, or in a minute where something is held back.
pub proof fn cadences_in_seconds(c: Cadence, r: i64, on: bool, channel: Channel)
    requires
        call_ensures(Cadence::secs, (c,), r),
        call_ensures(Channel::from_prerelease, (on,), channel),
    ensures
        c == Cadence::Normal ==> r == 3600,
        c == Cadence::Soon ==> r == 60,
        on <==> channel == Channel::Prerelease,
{
}

/// A ledger starts knowing nothing, and an updater with nothing to show.
pub proof fn everything_starts_empty(l: Ledger, u: Updater, v: Updater)
    requires
        call_ensures(Ledger::default, (), l),
        call_ensures(Updater::new, (), u),
        call_ensures(Updater::default, (), v),
    ensures
        l.latest_seen is None && l.staged is None && l.failures == 0 && l.channel
            == Channel::Stable,
        l.first_seen_at is None && l.staged_at is None && l.last_error is None,
        l.last_check_at is None && l.last_attempt_at is None && l.snoozed_until is None
            && l.notified is None,
        u == v,
        u.phase == Phase::UpToDate && u.latest is None && u.staged is None && u.deadline is None,
        !u.mandatory && !u.unattended && !u.recheck && u.requested is None && u.last_error is None,
{
}


/// A sighting starts a version's first day once, an update that landed clears what led to it and
/// nothing else, and a failure is shown with its words.
pub proof fn what_is_noted_of_an_update(
    seen: &mut Ledger,
    latest: String,
    now: i128,
    landed: &mut Ledger,
    u: &mut Updater,
    error: String,
    v: &mut Updater,
    phase: Phase,
)
    requires
        call_ensures(Ledger::observe, (seen, latest, now), ()),
        call_ensures(Ledger::applied, (landed,), ()),
        call_ensures(Updater::fail, (u, error), ()),
        call_ensures(Updater::set_phase, (v, phase), ()),
    ensures
        final(seen).latest_seen == Some(latest) && final(seen).last_check_at == Some(now),
        old(seen).latest_seen is Some && old(seen).latest_seen->0@ == latest@
            ==> final(seen).first_seen_at == old(seen).first_seen_at,
        !(old(seen).latest_seen is Some && old(seen).latest_seen->0@ == latest@)
            ==> final(seen).first_seen_at == Some(now),
        final(seen).staged == old(seen).staged && final(seen).failures == old(seen).failures,
        final(landed).first_seen_at is None && final(landed).staged is None
            && final(landed).staged_at is None && final(landed).failures == 0
            && final(landed).last_error is None,
        final(landed).latest_seen == old(landed).latest_seen && final(landed).last_check_at == old(
            landed,
        ).last_check_at && final(landed).snoozed_until == old(landed).snoozed_until,
        final(u).phase == Phase::Failed && final(u).last_error == Some(error),
        final(v).phase == phase && final(v).last_error == old(v).last_error,
{
}

} // verus!
