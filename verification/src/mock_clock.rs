//! A clock for tests: virtual time that a workflow sets and moves, its
//! display offset, and the state that is sent to the bridges.
//!
//! The clock never reads the time itself. Where it needs the time of the
//! wall clock, the caller hands it in.

use vstd::prelude::*;
use crate::text::{
    digits_value, from_chars, integer_value, is_digit, is_word, join2,
    join3, parse_digits, parse_i64, signed_decimal, signed_text, slice_chars, split_chars,
    split_text, to_chars, trim_chars, trim_text, lemma_first_piece, upper_case, upper_text,
};

verus! {

/// Nanoseconds in a second.
pub const NANOS_PER_SEC: u32 = 1_000_000_000;

/// The largest number of seconds, before or after the epoch, that an
/// instant can hold.
pub const MAX_SECS: i64 = 9_000_000_000_000_000;

/// An instant of time: nanoseconds since 1970-01-01T00:00:00Z, no leap
/// seconds counted.
#[derive(Debug, Clone, Copy, PartialEq, Eq)]
pub struct Instant {
    secs: i64,
    nanos: u32,
}

impl View for Instant {
    type V = int;

    closed spec fn view(&self) -> int {
        self.secs * 1_000_000_000 + self.nanos
    }
}

impl Instant {
    #[verifier::type_invariant]
    spec fn in_range(&self) -> bool {
        -MAX_SECS <= self.secs <= MAX_SECS && self.nanos < NANOS_PER_SEC
    }

    /// Whether `t` nanoseconds since the epoch can be held.
    pub open spec fn holds(t: int) -> bool {
        -MAX_SECS * 1_000_000_000 <= t < (MAX_SECS + 1) * 1_000_000_000
    }

    /// The instant `secs` seconds and `nanos` nanoseconds after the epoch,
    /// where `nanos` is less than a second and the instant can be held.
    pub fn new(secs: i64, nanos: u32) -> (r: Option<Instant>)
        ensures
            match r {
                Some(t) => t@ == secs * 1_000_000_000 + nanos && nanos < NANOS_PER_SEC
                    && Self::holds(t@),
                None => nanos >= NANOS_PER_SEC || secs < -MAX_SECS || secs > MAX_SECS,
            },
    {
        if nanos < NANOS_PER_SEC && -MAX_SECS <= secs && secs <= MAX_SECS {
            Some(Instant { secs, nanos })
        } else {
            None
        }
    }

    /// The instant `millis` milliseconds after the epoch, where it can be
    /// held.
    pub fn from_millis(millis: i64) -> (r: Option<Instant>)
        ensures
            match r {
                Some(t) => t@ == millis * 1_000_000 && Self::holds(t@),
                None => !Self::holds(millis * 1_000_000),
            },
    {
        if millis >= 0 {
            Instant::new(millis / 1000, ((millis % 1000) as u32) * 1_000_000)
        } else {
            let below = -(millis + 1);
            let secs = -(below / 1000) - 1;
            let rest = 999 - (below % 1000);
            Instant::new(secs, (rest as u32) * 1_000_000)
        }
    }

    /// Whole seconds since the epoch, rounded down.
    pub fn timestamp(&self) -> (s: i64)
        ensures
            s == self@ / 1_000_000_000,
            Self::holds(self@),
    {
        proof {
            use_type_invariant(self);
        }
        self.secs
    }

    /// The nanoseconds past the whole second.
    pub fn subsec_nanos(&self) -> (n: u32)
        ensures
            n == self@ % 1_000_000_000,
            n < NANOS_PER_SEC,
    {
        proof {
            use_type_invariant(self);
        }
        self.nanos
    }

    /// Whole milliseconds since the epoch, rounded down.
    pub fn timestamp_millis(&self) -> (ms: i64)
        ensures
            ms == self@ / 1_000_000,
    {
        proof {
            use_type_invariant(self);
        }
        self.secs * 1000 + (self.nanos / 1_000_000) as i64
    }

    /// Whether this instant is before `other`.
    pub fn is_before(&self, other: &Instant) -> (b: bool)
        ensures
            b == (self@ < other@),
    {
        proof {
            use_type_invariant(self);
            use_type_invariant(other);
        }
        self.secs < other.secs || (self.secs == other.secs && self.nanos < other.nanos)
    }

    /// This instant moved forward by `span`, where the result can be held.
    pub fn checked_add(&self, span: &Duration) -> (r: Option<Instant>)
        ensures
            match r {
                Some(t) => t@ == self@ + span@ && Self::holds(t@),
                None => !Self::holds(self@ + span@),
            },
    {
        proof {
            use_type_invariant(self);
            use_type_invariant(span);
        }
        if span.secs > (2 * MAX_SECS + 1) as u64 {
            return None;
        }
        let mut secs = self.secs + span.secs as i64;
        let mut nanos = self.nanos + span.nanos;
        if nanos >= NANOS_PER_SEC {
            nanos = nanos - NANOS_PER_SEC;
            secs = secs + 1;
        }
        Instant::new(secs, nanos)
    }
}

/// A span of time in nanoseconds.
#[derive(Debug, Clone, Copy, PartialEq, Eq)]
pub struct Duration {
    secs: u64,
    nanos: u32,
}

impl View for Duration {
    type V = nat;

    closed spec fn view(&self) -> nat {
        (self.secs * 1_000_000_000 + self.nanos) as nat
    }
}

impl Duration {
    #[verifier::type_invariant]
    spec fn in_range(&self) -> bool {
        self.nanos < NANOS_PER_SEC
    }

    /// Whether a span of `n` nanoseconds can be held.
    pub open spec fn holds(n: nat) -> bool {
        n < (u64::MAX + 1) * 1_000_000_000
    }

    /// No time at all.
    pub fn zero() -> (d: Duration)
        ensures
            d@ == 0,
    {
        Duration { secs: 0, nanos: 0 }
    }

    /// A span of `secs` seconds.
    pub fn from_secs(secs: u64) -> (d: Duration)
        ensures
            d@ == secs * 1_000_000_000,
    {
        Duration { secs, nanos: 0 }
    }

    /// A span of `millis` milliseconds.
    pub fn from_millis(millis: u64) -> (d: Duration)
        ensures
            d@ == millis * 1_000_000,
    {
        Duration { secs: millis / 1000, nanos: ((millis % 1000) as u32) * 1_000_000 }
    }

    /// A span of `nanos` nanoseconds, where it can be held.
    pub fn from_nanos(nanos: u128) -> (r: Option<Duration>)
        ensures
            match r {
                Some(d) => d@ == nanos,
                None => !Self::holds(nanos as nat),
            },
    {
        let secs = nanos / 1_000_000_000;
        if secs > u64::MAX as u128 {
            None
        } else {
            Some(Duration { secs: secs as u64, nanos: (nanos % 1_000_000_000) as u32 })
        }
    }

    /// The whole seconds of the span.
    pub fn as_secs(&self) -> (s: u64)
        ensures
            s == self@ / 1_000_000_000,
    {
        proof {
            use_type_invariant(self);
        }
        self.secs
    }

    /// The nanoseconds past the whole seconds.
    pub fn subsec_nanos(&self) -> (n: u32)
        ensures
            n == self@ % 1_000_000_000,
    {
        proof {
            use_type_invariant(self);
        }
        self.nanos
    }

    /// The whole milliseconds of the span.
    pub fn as_millis(&self) -> (ms: u128)
        ensures
            ms == self@ / 1_000_000,
    {
        proof {
            use_type_invariant(self);
        }
        (self.secs as u128) * 1000 + (self.nanos / 1_000_000) as u128
    }
}

/// The step by which the clock moves after a step of a job: 3 seconds.
pub fn default_step_duration() -> (d: Duration)
    ensures
        d@ == 3_000_000_000nat,
{
    Duration::from_secs(3)
}

/// What reading `text` as an RFC 3339 date and time gives: seconds since
/// the epoch and the nanoseconds past the second, or nothing where `text`
/// is no such date and time.
pub uninterp spec fn rfc3339_reading(text: Seq<char>) -> Option<(int, int)>;

/// How the instant `secs` seconds and `nanos` nanoseconds after the epoch
/// is written as an RFC 3339 date and time in UTC, or nothing where the
/// calendar cannot hold it.
pub uninterp spec fn rfc3339_writing(secs: int, nanos: int) -> Option<Seq<char>>;

/// How that instant reads in a message, or nothing where the calendar
/// cannot hold it.
pub uninterp spec fn calendar_text(secs: int, nanos: int) -> Option<Seq<char>>;

/// `chrono::DateTime::parse_from_rfc3339`, with the instant it read taken
/// by `timestamp` and `timestamp_subsec_nanos`: what comes back depends on
/// the text alone.
#[verifier::external_body]
fn read_rfc3339(text: &str) -> (r: Option<(i64, u32)>)
    ensures
        rfc3339_reading(text@) == match r {
            Some(p) => Some((p.0 as int, p.1 as int)),
            None => None,
        },
{
    match chrono::DateTime::parse_from_rfc3339(text) {
        Ok(dt) => Some((dt.timestamp(), dt.timestamp_subsec_nanos())),
        Err(_) => None,
    }
}

/// `chrono::DateTime::to_rfc3339` of the instant that
/// `chrono::DateTime::from_timestamp` makes of the two numbers: what comes
/// back depends on the numbers alone.
#[verifier::external_body]
fn write_rfc3339(secs: i64, nanos: u32) -> (r: Option<String>)
    ensures
        rfc3339_writing(secs as int, nanos as int) == match r {
            Some(s) => Some(s@),
            None => None,
        },
{
    chrono::DateTime::from_timestamp(secs, nanos).map(|dt| dt.to_rfc3339())
}

/// `chrono`'s `Display` of the instant that
/// `chrono::DateTime::from_timestamp` makes of the two numbers: what comes
/// back depends on the numbers alone.
#[verifier::external_body]
fn write_calendar(secs: i64, nanos: u32) -> (r: Option<String>)
    ensures
        calendar_text(secs as int, nanos as int) == match r {
            Some(s) => Some(s@),
            None => None,
        },
{
    chrono::DateTime::from_timestamp(secs, nanos).map(|dt| dt.to_string())
}

/// What can go wrong with the clock.
#[derive(Debug, Clone)]
pub enum ClockError {
    /// The target of a move lies before the time of the clock.
    CannotGoBackwards { current: Instant, target: Instant },
    InvalidTimeFormat(String),
    InvalidDurationFormat(String),
    InvalidTimezone(String),
}

/// How an instant reads in a message: by the calendar, or by its seconds
/// where the calendar cannot hold it.
pub open spec fn instant_text(t: int) -> Seq<char> {
    match calendar_text(t / 1_000_000_000, t % 1_000_000_000) {
        Some(text) => text,
        None => signed_text(t / 1_000_000_000),
    }
}

/// How an instant reads in a message, given what the calendar makes of it.
pub fn instant_message(t: &Instant, calendar: Option<String>) -> (s: String)
    ensures
        s@ == match calendar {
            Some(text) => text@,
            None => signed_text(t@ / 1_000_000_000),
        },
{
    match calendar {
        Some(text) => text,
        None => signed_decimal(t.timestamp()),
    }
}

impl ClockError {
    /// How the error reads.
    pub open spec fn text(&self) -> Seq<char> {
        match self {
            ClockError::CannotGoBackwards { current, target } =>
                "Cannot move clock backwards: current time is "@ + instant_text(current@)
                    + ", target is "@ + instant_text(target@),
            ClockError::InvalidTimeFormat(s) => "Invalid time format: "@ + s@,
            ClockError::InvalidDurationFormat(s) => "Invalid duration format: "@ + s@,
            ClockError::InvalidTimezone(s) => "Invalid timezone: "@ + s@,
        }
    }

    /// How the error reads.
    pub fn message(&self) -> (s: String)
        ensures
            s@ == self.text(),
    {
        match self {
            ClockError::CannotGoBackwards { current, target } => {
                let a = instant_message(
                    current,
                    write_calendar(current.timestamp(), current.subsec_nanos()),
                );
                let b = instant_message(
                    target,
                    write_calendar(target.timestamp(), target.subsec_nanos()),
                );
                let head = join3(
                    "Cannot move clock backwards: current time is ",
                    a.as_str(),
                    ", target is ",
                );
                join2(head.as_str(), b.as_str())
            },
            ClockError::InvalidTimeFormat(s) => join2("Invalid time format: ", s.as_str()),
            ClockError::InvalidDurationFormat(s) => join2("Invalid duration format: ", s.as_str()),
            ClockError::InvalidTimezone(s) => join2("Invalid timezone: ", s.as_str()),
        }
    }
}

/// The state of the clock that is sent to the bridges.
#[derive(Debug, Clone)]
pub struct ClockSyncState {
    /// Virtual time in milliseconds since the epoch; none for real time.
    pub virtual_time_ms: Option<i64>,
    /// Virtual time as an RFC 3339 string; none for real time.
    pub virtual_time_iso: Option<String>,
    pub frozen: bool,
    pub timezone_offset_secs: i32,
}

/// What a [`MockClock`] holds.
pub struct ClockModel {
    /// Virtual time in nanoseconds since the epoch; none for real time.
    pub virtual_time: Option<int>,
    pub frozen: bool,
    pub timezone_offset_secs: int,
    /// The step of an auto-advance, in nanoseconds.
    pub step: nat,
    pub auto_advance: bool,
}

/// An operation on the clock other than a reset.
pub enum ClockOp {
    SetTime(int),
    Forward(nat),
    ForwardUntil(int),
    AutoAdvance,
    SetTimezone(int),
    SetStepDuration(nat),
    SetAutoAdvance(bool),
}

/// The time that a clock shows when the wall clock shows `wall`.
pub open spec fn now_of(clock: ClockModel, wall: int) -> int {
    match clock.virtual_time {
        Some(t) => t,
        None => wall,
    }
}

/// The clock after the operation `op`, made when the wall clock shows
/// `wall`. A move to a target before the time of the clock changes
/// nothing, and so does an auto-advance that is switched off.
pub open spec fn after(clock: ClockModel, op: ClockOp, wall: int) -> ClockModel {
    match op {
        ClockOp::SetTime(t) => ClockModel { virtual_time: Some(t), frozen: true, ..clock },
        ClockOp::Forward(d) => ClockModel {
            virtual_time: Some(now_of(clock, wall) + d),
            frozen: true,
            ..clock
        },
        ClockOp::ForwardUntil(t) => if t < now_of(clock, wall) {
            clock
        } else {
            ClockModel { virtual_time: Some(t), frozen: true, ..clock }
        },
        ClockOp::AutoAdvance => if clock.auto_advance {
            ClockModel { virtual_time: Some(now_of(clock, wall) + clock.step), ..clock }
        } else {
            clock
        },
        ClockOp::SetTimezone(offset) => ClockModel { timezone_offset_secs: offset, ..clock },
        ClockOp::SetStepDuration(d) => ClockModel { step: d, ..clock },
        ClockOp::SetAutoAdvance(on) => ClockModel { auto_advance: on, ..clock },
    }
}

/// The clock does not go backwards. No operation other than a reset makes
/// the clock show an earlier time than it showed before, as long as the
/// wall clock itself does not go backwards and no `set` names a time
/// before the one that the clock shows.
pub proof fn lemma_no_backwards(clock: ClockModel, op: ClockOp, wall: int, later: int)
    requires
        wall <= later,
        op matches ClockOp::SetTime(t) ==> now_of(clock, wall) <= t,
    ensures
        now_of(clock, wall) <= now_of(after(clock, op, wall), later),
{
}

/// The clock after a run of operations, each made at its own wall time.
pub open spec fn after_all(clock: ClockModel, ops: Seq<(ClockOp, int)>) -> ClockModel
    decreases ops.len(),
{
    if ops.len() == 0 {
        clock
    } else {
        after(after_all(clock, ops.drop_last()), ops.last().0, ops.last().1)
    }
}

/// Whether a run of operations is one in which time can only go on: the
/// wall times do not fall, beginning at `wall`, and no `set` names a time
/// before the one that the clock shows when it is made.
pub open spec fn orderly(clock: ClockModel, ops: Seq<(ClockOp, int)>, wall: int) -> bool
    decreases ops.len(),
{
    if ops.len() == 0 {
        true
    } else {
        let before = ops.drop_last();
        let at = ops.last().1;
        &&& orderly(clock, before, wall)
        &&& wall <= at
        &&& before.len() > 0 ==> before.last().1 <= at
        &&& ops.last().0 matches ClockOp::SetTime(t) ==> now_of(after_all(clock, before), at) <= t
    }
}

/// Over any orderly run of operations without a reset, the time that the
/// clock shows never falls: read at or after the last operation, it is no
/// earlier than it was when read at `wall` before the first.
pub proof fn lemma_run_no_backwards(
    clock: ClockModel,
    ops: Seq<(ClockOp, int)>,
    wall: int,
    later: int,
)
    requires
        orderly(clock, ops, wall),
        wall <= later,
        ops.len() > 0 ==> ops.last().1 <= later,
    ensures
        now_of(clock, wall) <= now_of(after_all(clock, ops), later),
    decreases ops.len(),
{
    if ops.len() > 0 {
        let before = ops.drop_last();
        let at = ops.last().1;
        lemma_run_no_backwards(clock, before, wall, at);
        lemma_no_backwards(after_all(clock, before), ops.last().0, at, later);
    }
}

/// A clock that shows the time of the wall clock until a workflow sets it.
#[derive(Debug, Clone)]
pub struct MockClock {
    virtual_time: Option<Instant>,
    frozen: bool,
    timezone_offset_secs: i32,
    step_duration: Duration,
    auto_advance: bool,
}

impl View for MockClock {
    type V = ClockModel;

    closed spec fn view(&self) -> ClockModel {
        ClockModel {
            virtual_time: match self.virtual_time {
                Some(t) => Some(t@),
                None => None,
            },
            frozen: self.frozen,
            timezone_offset_secs: self.timezone_offset_secs as int,
            step: self.step_duration@,
            auto_advance: self.auto_advance,
        }
    }
}

/// What a new clock holds: it is on real time, in UTC and not frozen,
/// and moves by 3 seconds after each step once it is on virtual time.
pub open spec fn new_clock() -> ClockModel {
    ClockModel {
        virtual_time: None,
        frozen: false,
        timezone_offset_secs: 0,
        step: 3_000_000_000,
        auto_advance: true,
    }
}

impl MockClock {
    /// A clock on real time, in UTC, that moves by 3 seconds after each
    /// step once it is on virtual time.
    pub fn new() -> (clock: Self)
        ensures
            clock@ == new_clock(),
    {
        MockClock {
            virtual_time: None,
            frozen: false,
            timezone_offset_secs: 0,
            step_duration: default_step_duration(),
            auto_advance: true,
        }
    }

    /// The time of the clock: virtual time if it is set, else `wall`.
    pub fn now(&self, wall: Instant) -> (t: Instant)
        ensures
            t@ == now_of(self@, wall@),
    {
        match self.virtual_time {
            Some(t) => t,
            None => wall,
        }
    }

    /// Whether the clock is on virtual time.
    pub fn is_virtual(&self) -> (b: bool)
        ensures
            b == self@.virtual_time is Some,
    {
        self.virtual_time.is_some()
    }

    /// Whether the clock is on virtual time.
    pub fn is_active(&self) -> (b: bool)
        ensures
            b == self@.virtual_time is Some,
    {
        self.is_virtual()
    }

    /// Sets the clock to `time` and freezes it.
    pub fn set(&mut self, time: Instant)
        ensures
            final(self)@ == after(old(self)@, ClockOp::SetTime(time@), 0),
    {
        self.virtual_time = Some(time);
        self.frozen = true;
    }

    /// Moves the clock forward by `duration`, from `wall` where it was on
    /// real time, and freezes it. Hands back `false`, with the clock as it
    /// was, where the time moved to cannot be held.
    pub fn forward(&mut self, duration: Duration, wall: Instant) -> (moved: bool)
        ensures
            moved == Instant::holds(now_of(old(self)@, wall@) + duration@),
            moved ==> final(self)@ == after(old(self)@, ClockOp::Forward(duration@), wall@),
            !moved ==> final(self)@ == old(self)@,
    {
        let current = self.now(wall);
        match current.checked_add(&duration) {
            Some(t) => {
                self.virtual_time = Some(t);
                self.frozen = true;
                true
            },
            None => false,
        }
    }

    /// Moves the clock forward to `target` and freezes it. A target before
    /// the time of the clock is refused, and the clock stays as it was.
    pub fn forward_until(&mut self, target: Instant, wall: Instant) -> (r: Result<(), ClockError>)
        ensures
            final(self)@ == after(old(self)@, ClockOp::ForwardUntil(target@), wall@),
            r is Err <==> target@ < now_of(old(self)@, wall@),
            r matches Err(e) ==> e matches ClockError::CannotGoBackwards { current, target: t }
                && current@ == now_of(old(self)@, wall@) && t == target,
    {
        let current = self.now(wall);
        if target.is_before(&current) {
            return Err(ClockError::CannotGoBackwards { current, target });
        }
        self.virtual_time = Some(target);
        self.frozen = true;
        Ok(())
    }

    /// Puts the clock back on real time.
    pub fn reset(&mut self)
        ensures
            final(self)@ == (ClockModel { virtual_time: None, frozen: false, ..old(self)@ }),
    {
        self.virtual_time = None;
        self.frozen = false;
    }

    /// The state that is sent to the bridges.
    pub fn get_sync_state(&self) -> (state: ClockSyncState)
        ensures
            state.frozen == self@.frozen,
            state.timezone_offset_secs == self@.timezone_offset_secs,
            match self@.virtual_time {
                Some(t) => (state.virtual_time_ms matches Some(ms) && ms == t / 1_000_000)
                    && crate::context::option_text(state.virtual_time_iso) == rfc3339_writing(
                    t / 1_000_000_000,
                    t % 1_000_000_000,
                ),
                None => state.virtual_time_ms is None && state.virtual_time_iso is None,
            },
    {
        match self.virtual_time {
            Some(t) => ClockSyncState {
                virtual_time_ms: Some(t.timestamp_millis()),
                virtual_time_iso: write_rfc3339(t.timestamp(), t.subsec_nanos()),
                frozen: self.frozen,
                timezone_offset_secs: self.timezone_offset_secs,
            },
            None => ClockSyncState {
                virtual_time_ms: None,
                virtual_time_iso: None,
                frozen: self.frozen,
                timezone_offset_secs: self.timezone_offset_secs,
            },
        }
    }

    /// Moves the clock on by its step, from `wall` where it was on real
    /// time; nothing happens where auto-advance is off. Hands back
    /// `false`, with the clock as it was, where the time moved to cannot
    /// be held.
    pub fn auto_advance_step(&mut self, wall: Instant) -> (moved: bool)
        ensures
            moved == (!old(self)@.auto_advance || Instant::holds(
                now_of(old(self)@, wall@) + old(self)@.step,
            )),
            moved ==> final(self)@ == after(old(self)@, ClockOp::AutoAdvance, wall@),
            !moved ==> final(self)@ == old(self)@,
    {
        if !self.auto_advance {
            return true;
        }
        let current = self.now(wall);
        match current.checked_add(&self.step_duration) {
            Some(t) => {
                self.virtual_time = Some(t);
                true
            },
            None => false,
        }
    }

    /// Sets the display offset, in seconds east of UTC.
    pub fn set_timezone(&mut self, offset_seconds: i32)
        ensures
            final(self)@ == after(old(self)@, ClockOp::SetTimezone(offset_seconds as int), 0),
    {
        self.timezone_offset_secs = offset_seconds;
    }

    /// Sets the display offset by the name of a timezone.
    pub fn set_timezone_name(&mut self, name: &str) -> (r: Result<(), ClockError>)
        ensures
            match timezone_offset(name@) {
                Ok(offset) => r is Ok && final(self)@ == after(
                    old(self)@,
                    ClockOp::SetTimezone(offset),
                    0,
                ),
                Err(message) => r matches Err(ClockError::InvalidTimezone(m)) && m@ == message
                    && final(self)@ == old(self)@,
            },
    {
        match parse_timezone(name) {
            Ok(offset) => {
                self.timezone_offset_secs = offset;
                Ok(())
            },
            Err(e) => Err(e),
        }
    }

    /// The display offset in seconds east of UTC.
    pub fn timezone_offset_secs(&self) -> (offset: i32)
        ensures
            offset == self@.timezone_offset_secs,
    {
        self.timezone_offset_secs
    }

    /// The time of the clock with the offset at which it is displayed: the
    /// offset of the clock where that is less than a day, else none.
    pub fn now_local(&self, wall: Instant) -> (r: (Instant, i32))
        ensures
            r.0@ == now_of(self@, wall@),
            r.1 == if -86_400 < self@.timezone_offset_secs < 86_400 {
                self@.timezone_offset_secs
            } else {
                0
            },
    {
        let offset = if -86_400 < self.timezone_offset_secs && self.timezone_offset_secs < 86_400 {
            self.timezone_offset_secs
        } else {
            0
        };
        (self.now(wall), offset)
    }

    /// Sets the step of an auto-advance.
    pub fn set_step_duration(&mut self, duration: Duration)
        ensures
            final(self)@ == after(old(self)@, ClockOp::SetStepDuration(duration@), 0),
    {
        self.step_duration = duration;
    }

    /// Switches auto-advance on or off.
    pub fn set_auto_advance(&mut self, enabled: bool)
        ensures
            final(self)@ == after(old(self)@, ClockOp::SetAutoAdvance(enabled), 0),
    {
        self.auto_advance = enabled;
    }

    /// Whether auto-advance is on.
    pub fn is_auto_advance_enabled(&self) -> (b: bool)
        ensures
            b == self@.auto_advance,
    {
        self.auto_advance
    }
}

impl Default for MockClock {
    /// What [`MockClock::new`] gives.
    fn default() -> (clock: Self)
        ensures
            clock@ == new_clock(),
    {
        MockClock::new()
    }
}

/// The offset in hours of a timezone abbreviation, in upper case.
pub open spec fn abbreviation_hours(name: Seq<char>) -> Option<int> {
    if name == "UTC"@ || name == "GMT"@ {
        Some(0)
    } else if name == "EST"@ {
        Some(-5)
    } else if name == "EDT"@ {
        Some(-4)
    } else if name == "CST"@ {
        Some(-6)
    } else if name == "CDT"@ {
        Some(-5)
    } else if name == "MST"@ {
        Some(-7)
    } else if name == "MDT"@ {
        Some(-6)
    } else if name == "PST"@ {
        Some(-8)
    } else if name == "PDT"@ {
        Some(-7)
    } else if name == "CET"@ {
        Some(1)
    } else if name == "CEST"@ {
        Some(2)
    } else if name == "EET"@ {
        Some(2)
    } else if name == "EEST"@ {
        Some(3)
    } else if name == "IST"@ {
        Some(5)
    } else if name == "JST"@ {
        Some(9)
    } else if name == "KST"@ {
        Some(9)
    } else if name == "SGT"@ {
        Some(8)
    } else if name == "HKT"@ {
        Some(8)
    } else if name == "AEST"@ {
        Some(10)
    } else if name == "ACST"@ {
        Some(9)
    } else if name == "AWST"@ {
        Some(8)
    } else if name == "AEDT"@ {
        Some(11)
    } else if name == "ACDT"@ {
        Some(10)
    } else {
        None
    }
}

/// `c`, in upper case where it is one of the letters `a` to `z`.
pub open spec fn upper_char(c: char) -> char {
    if 'a' <= c && c <= 'z' {
        ((c as u8) - 32) as char
    } else {
        c
    }
}

/// `s` with its letters `a` to `z` in upper case.
pub open spec fn uppered(s: Seq<char>) -> Seq<char> {
    Seq::new(s.len(), |i: int| upper_char(s[i]))
}

/// An integer that fits 32 bits, from its text.
pub open spec fn small_integer(s: Seq<char>) -> Option<int> {
    match integer_value(s) {
        Some(x) => if i32::MIN <= x <= i32::MAX {
            Some(x)
        } else {
            None
        },
        None => None,
    }
}

/// The offset in seconds east of UTC that `text` names, or why it names
/// none. `text`, with white space at its ends taken off, is `UTC` in any
/// case or `Z`; or a sign and hours, or a sign, hours, a colon and
/// minutes; or an abbreviation of the table, in any case. An offset that
/// does not fit 32 bits is refused.
pub open spec fn timezone_offset(text: Seq<char>) -> Result<int, Seq<char>> {
    timezone_given(text, upper_text(trim_text(text)))
}

/// The offset that `text` names, where `upper` is how `text`, with white
/// space at its ends taken off, reads in upper case.
pub open spec fn timezone_given(text: Seq<char>, upper: Seq<char>) -> Result<int, Seq<char>> {
    let s = trim_text(text);
    if uppered(s) == "UTC"@ || s == "Z"@ {
        Ok(0)
    } else if s.len() > 0 && (s[0] == '+' || s[0] == '-') {
        let sign: int = if s[0] == '-' {
            -1
        } else {
            1
        };
        let rest = s.skip(1);
        let parts = split_text(rest, ':');
        if parts.len() >= 2 {
            let minutes_text = rest.skip(parts[0].len() as int + 1);
            match small_integer(parts[0]) {
                None => Err("invalid hours in '"@ + s + "'"@),
                Some(hours) => match small_integer(minutes_text) {
                    None => Err("invalid minutes in '"@ + s + "'"@),
                    Some(minutes) => {
                        let offset = sign * (hours * 3600 + minutes * 60);
                        if i32::MIN <= offset <= i32::MAX {
                            Ok(offset)
                        } else {
                            Err("offset out of range in '"@ + s + "'"@)
                        }
                    },
                },
            }
        } else {
            match small_integer(rest) {
                None => Err("invalid offset '"@ + s + "'"@),
                Some(hours) => {
                    let offset = sign * hours * 3600;
                    if i32::MIN <= offset <= i32::MAX {
                        Ok(offset)
                    } else {
                        Err("offset out of range in '"@ + s + "'"@)
                    }
                },
            }
        }
    } else {
        match abbreviation_hours(upper) {
            Some(hours) => Ok(hours * 3600),
            None => Err(
                "unknown timezone '"@ + s
                    + "'. Use UTC, numeric offset (+05:30), or common abbreviations (EST, PST, etc.)"@,
            ),
        }
    }
}

/// `v` with its lower case letters in upper case.
pub fn to_upper(v: &Vec<char>) -> (r: Vec<char>)
    ensures
        r@ == uppered(v@),
{
    let mut r: Vec<char> = Vec::new();
    let mut i: usize = 0;
    while i < v.len()
        invariant
            i <= v.len(),
            r.len() == i,
            forall|j: int| 0 <= j < i ==> #[trigger] r[j] == upper_char(v[j]),
        decreases v.len() - i,
    {
        let c = v[i];
        if 'a' <= c && c <= 'z' {
            r.push(((c as u8) - 32) as char);
        } else {
            r.push(c);
        }
        i = i + 1;
    }
    assert(r@ =~= uppered(v@));
    r
}

/// The offset in hours of a timezone abbreviation, in upper case.
fn abbreviation(name: &Vec<char>) -> (r: Option<i32>)
    ensures
        match r {
            Some(hours) => abbreviation_hours(name@) == Some(hours as int),
            None => abbreviation_hours(name@) is None,
        },
        r matches Some(hours) ==> -12 <= hours <= 12,
{
    if is_word(name, "UTC") || is_word(name, "GMT") {
        Some(0)
    } else if is_word(name, "EST") {
        Some(-5)
    } else if is_word(name, "EDT") {
        Some(-4)
    } else if is_word(name, "CST") {
        Some(-6)
    } else if is_word(name, "CDT") {
        Some(-5)
    } else if is_word(name, "MST") {
        Some(-7)
    } else if is_word(name, "MDT") {
        Some(-6)
    } else if is_word(name, "PST") {
        Some(-8)
    } else if is_word(name, "PDT") {
        Some(-7)
    } else if is_word(name, "CET") {
        Some(1)
    } else if is_word(name, "CEST") {
        Some(2)
    } else if is_word(name, "EET") {
        Some(2)
    } else if is_word(name, "EEST") {
        Some(3)
    } else if is_word(name, "IST") {
        Some(5)
    } else if is_word(name, "JST") {
        Some(9)
    } else if is_word(name, "KST") {
        Some(9)
    } else if is_word(name, "SGT") {
        Some(8)
    } else if is_word(name, "HKT") {
        Some(8)
    } else if is_word(name, "AEST") {
        Some(10)
    } else if is_word(name, "ACST") {
        Some(9)
    } else if is_word(name, "AWST") {
        Some(8)
    } else if is_word(name, "AEDT") {
        Some(11)
    } else if is_word(name, "ACDT") {
        Some(10)
    } else {
        None
    }
}

/// An integer that fits 32 bits, from its text.
fn parse_small(v: &Vec<char>) -> (r: Option<i64>)
    ensures
        match r {
            Some(x) => small_integer(v@) == Some(x as int),
            None => small_integer(v@) is None,
        },
{
    match parse_i64(v) {
        Some(x) => if -2147483648 <= x && x <= 2147483647 {
            Some(x)
        } else {
            None
        },
        None => None,
    }
}

/// The offset in seconds east of UTC that `s` names.
pub fn parse_timezone(s: &str) -> (r: Result<i32, ClockError>)
    ensures
        match timezone_offset(s@) {
            Ok(offset) => r == Ok::<i32, ClockError>(offset as i32) && i32::MIN <= offset
                <= i32::MAX,
            Err(message) => r matches Err(ClockError::InvalidTimezone(m)) && m@ == message,
        },
{
    let trimmed = from_chars(&trim_chars(&to_chars(s)));
    let upper = upper_case(trimmed.as_str());
    timezone_from(s, upper.as_str())
}

/// The offset in seconds east of UTC that `s` names, where `upper` is
/// how `s`, with white space at its ends taken off, reads in upper case.
pub fn timezone_from(s: &str, upper: &str) -> (r: Result<i32, ClockError>)
    ensures
        match timezone_given(s@, upper@) {
            Ok(offset) => r == Ok::<i32, ClockError>(offset as i32) && i32::MIN <= offset
                <= i32::MAX,
            Err(message) => r matches Err(ClockError::InvalidTimezone(m)) && m@ == message,
        },
{
    let raw = to_chars(s);
    let t = trim_chars(&raw);
    let text = from_chars(&t);
    let ascii_upper = to_upper(&t);
    let upper = to_chars(upper);
    if is_word(&ascii_upper, "UTC") || is_word(&t, "Z") {
        return Ok(0);
    }
    if t.len() > 0 && (t[0] == '+' || t[0] == '-') {
        let sign: i64 = if t[0] == '-' {
            -1
        } else {
            1
        };
        let rest = slice_chars(&t, 1, t.len());
        assert(rest@ == t@.skip(1));
        let parts = split_chars(&rest, ':');
        if parts.len() >= 2 {
            proof {
                lemma_first_piece(rest@, ':');
            }
            let minutes_text = slice_chars(&rest, parts[0].len() + 1, rest.len());
            assert(minutes_text@ == rest@.skip(parts[0].len() + 1));
            let hours = match parse_small(&parts[0]) {
                Some(h) => h,
                None => {
                    return Err(
                        ClockError::InvalidTimezone(join3("invalid hours in '", text.as_str(), "'")),
                    );
                },
            };
            let minutes = match parse_small(&minutes_text) {
                Some(m) => m,
                None => {
                    return Err(
                        ClockError::InvalidTimezone(
                            join3("invalid minutes in '", text.as_str(), "'"),
                        ),
                    );
                },
            };
            let offset = sign * (hours * 3600 + minutes * 60);
            if -2147483648 <= offset && offset <= 2147483647 {
                Ok(offset as i32)
            } else {
                Err(
                    ClockError::InvalidTimezone(
                        join3("offset out of range in '", text.as_str(), "'"),
                    ),
                )
            }
        } else {
            let hours = match parse_small(&rest) {
                Some(h) => h,
                None => {
                    return Err(
                        ClockError::InvalidTimezone(join3("invalid offset '", text.as_str(), "'")),
                    );
                },
            };
            let offset = sign * hours * 3600;
            if -2147483648 <= offset && offset <= 2147483647 {
                Ok(offset as i32)
            } else {
                Err(
                    ClockError::InvalidTimezone(
                        join3("offset out of range in '", text.as_str(), "'"),
                    ),
                )
            }
        }
    } else {
        match abbreviation(&upper) {
            Some(hours) => Ok(hours * 3600),
            None => Err(
                ClockError::InvalidTimezone(
                    join3(
                        "unknown timezone '",
                        text.as_str(),
                        "'. Use UTC, numeric offset (+05:30), or common abbreviations (EST, PST, etc.)",
                    ),
                ),
            ),
        }
    }
}

/// The instant that `text` names given what reading it as RFC 3339 gave,
/// or why it names none. `text`, with white space at its ends taken off,
/// is an RFC 3339 date and time; or an integer, which counts seconds since
/// the epoch, or milliseconds where its magnitude is more than 10^12.
pub open spec fn time_value(text: Seq<char>, reading: Option<(int, int)>) -> Result<
    int,
    Seq<char>,
> {
    let s = trim_text(text);
    let fault = Err::<int, Seq<char>>(
        "could not parse '"@ + s + "' as ISO 8601 or Unix timestamp"@,
    );
    match reading {
        Some((secs, nanos)) => if 0 <= nanos < 2_000_000_000 && Instant::holds(
            secs * 1_000_000_000 + nanos,
        ) {
            Ok(secs * 1_000_000_000 + nanos)
        } else {
            fault
        },
        None => match integer_value(s) {
            Some(x) => if -1_000_000_000_000 <= x <= 1_000_000_000_000 {
                Ok(x * 1_000_000_000)
            } else if i64::MIN <= x <= i64::MAX && Instant::holds(x * 1_000_000) {
                Ok(x * 1_000_000)
            } else {
                fault
            },
            None => fault,
        },
    }
}

/// The instant that `s` names, given what reading it, trimmed, as RFC 3339
/// gave.
pub fn time_from_reading(s: &str, reading: Option<(i64, u32)>) -> (r: Result<Instant, ClockError>)
    ensures
        match time_value(
            s@,
            match reading {
                Some(p) => Some((p.0 as int, p.1 as int)),
                None => None,
            },
        ) {
            Ok(t) => r matches Ok(instant) && instant@ == t,
            Err(message) => r matches Err(ClockError::InvalidTimeFormat(m)) && m@ == message,
        },
{
    let raw = to_chars(s);
    let t = trim_chars(&raw);
    let text = from_chars(&t);
    let found: Option<Instant> = match reading {
        Some((secs, nanos)) => {
            if nanos < NANOS_PER_SEC {
                Instant::new(secs, nanos)
            } else if nanos < 2_000_000_000 && secs < MAX_SECS {
                Instant::new(secs + 1, nanos - NANOS_PER_SEC)
            } else {
                None
            }
        },
        None => match parse_i64(&t) {
            Some(x) => {
                if -1_000_000_000_000 <= x && x <= 1_000_000_000_000 {
                    Instant::new(x, 0)
                } else {
                    Instant::from_millis(x)
                }
            },
            None => None,
        },
    };
    match found {
        Some(instant) => Ok(instant),
        None => Err(
            ClockError::InvalidTimeFormat(
                join3("could not parse '", text.as_str(), "' as ISO 8601 or Unix timestamp"),
            ),
        ),
    }
}

/// The instant that `s` names.
pub fn parse_time(s: &str) -> (r: Result<Instant, ClockError>)
    ensures
        match time_value(s@, rfc3339_reading(trim_text(s@))) {
            Ok(t) => r matches Ok(instant) && instant@ == t,
            Err(message) => r matches Err(ClockError::InvalidTimeFormat(m)) && m@ == message,
        },
{
    let raw = to_chars(s);
    let t = trim_chars(&raw);
    let text = from_chars(&t);
    let reading = read_rfc3339(text.as_str());
    time_from_reading(s, reading)
}

/// The state of reading a duration: the nanoseconds counted so far, and
/// the characters of the number that is being read.
pub struct DurationScan {
    pub total: nat,
    pub number: Seq<char>,
}

/// How many times `c` stands in `s`.
pub open spec fn count_of(s: Seq<char>, c: char) -> nat
    decreases s.len(),
{
    if s.len() == 0 {
        0
    } else {
        count_of(s.drop_last(), c) + if s.last() == c {
            1nat
        } else {
            0nat
        }
    }
}

/// Whether the characters of a number, digits and points, write a number:
/// there is a digit, and no more than one point.
pub open spec fn number_ok(number: Seq<char>) -> bool {
    count_of(number, '.') <= 1 && count_of(number, '.') < number.len()
}

/// The digits of a number before its point.
pub open spec fn whole_digits(number: Seq<char>) -> Seq<char> {
    split_text(number, '.')[0]
}

/// The digits of a number after its point: nine of them, the ninth place
/// being the last that counts.
pub open spec fn fraction_digits(number: Seq<char>) -> Seq<char> {
    let parts = split_text(number, '.');
    let given = if parts.len() >= 2 {
        parts[1]
    } else {
        Seq::empty()
    };
    Seq::new(
        9,
        |i: int|
            if i < given.len() {
                given[i]
            } else {
                '0'
            },
    )
}

/// The nanoseconds of `number` units of `unit_millis` milliseconds each,
/// parts of a millisecond dropped.
pub open spec fn amount_nanos(number: Seq<char>, unit_millis: nat) -> nat {
    let whole = digits_value(whole_digits(number));
    let fraction = digits_value(fraction_digits(number));
    ((whole * unit_millis + (fraction * unit_millis) / 1_000_000_000) * 1_000_000) as nat
}

/// The nanoseconds of `number` seconds.
pub open spec fn seconds_nanos(number: Seq<char>) -> nat {
    digits_value(whole_digits(number)) * 1_000_000_000 + digits_value(fraction_digits(number))
}

/// The milliseconds of the unit `c`: days, hours, minutes or seconds.
pub open spec fn unit_millis(c: char) -> Option<nat> {
    if c == 'd' {
        Some(86_400_000)
    } else if c == 'h' {
        Some(3_600_000)
    } else if c == 'm' {
        Some(60_000)
    } else if c == 's' {
        Some(1_000)
    } else {
        None
    }
}

/// The state after the character `c`. A digit or a point goes to the
/// number; any other character must be a unit, and ends a number that
/// must be there and be well written.
pub open spec fn scan_step(state: DurationScan, c: char) -> Result<DurationScan, Seq<char>> {
    if is_digit(c) || c == '.' {
        Ok(DurationScan { total: state.total, number: state.number.push(c) })
    } else if state.number.len() == 0 {
        Err("expected number before unit '"@ + seq![c] + "'"@)
    } else if !number_ok(state.number) {
        Err("invalid number: "@ + state.number)
    } else {
        match unit_millis(c) {
            None => Err("unknown unit '"@ + seq![c] + "'"@),
            Some(unit) => {
                let total = state.total + amount_nanos(state.number, unit);
                if Duration::holds(total) {
                    Ok(DurationScan { total, number: Seq::empty() })
                } else {
                    Err("duration out of range"@)
                }
            },
        }
    }
}

/// The state after the characters of `s`, read from the left.
pub open spec fn scanned(s: Seq<char>) -> Result<DurationScan, Seq<char>>
    decreases s.len(),
{
    if s.len() == 0 {
        Ok(DurationScan { total: 0, number: Seq::empty() })
    } else {
        match scanned(s.drop_last()) {
            Err(message) => Err(message),
            Ok(state) => scan_step(state, s.last()),
        }
    }
}

/// The nanoseconds that `text` names, or why it names none. `text`, with
/// white space at its ends taken off, is a row of numbers, each followed
/// by its unit `d`, `h`, `m` or `s`; a last number may stand without a
/// unit and then counts seconds. A number is digits, with a point among
/// them or before or after them. There is no unit `ms`: `m` is minutes,
/// and an `s` that follows it has no number before it.
pub open spec fn duration_nanos(text: Seq<char>) -> Result<nat, Seq<char>> {
    let s = trim_text(text);
    if s.len() == 0 {
        Err("empty string"@)
    } else {
        match scanned(s) {
            Err(message) => Err(message),
            Ok(state) => if state.number.len() == 0 {
                Ok(state.total)
            } else if !number_ok(state.number) {
                Err("invalid number: "@ + state.number)
            } else if Duration::holds(state.total + seconds_nanos(state.number)) {
                Ok(state.total + seconds_nanos(state.number))
            } else {
                Err("duration out of range"@)
            },
        }
    }
}

/// How many times `c` stands in `v`.
fn count_char(v: &Vec<char>, c: char) -> (n: usize)
    ensures
        n == count_of(v@, c),
{
    let mut n: usize = 0;
    let mut i: usize = 0;
    assert(v@.take(0) =~= Seq::<char>::empty());
    while i < v.len()
        invariant
            i <= v.len(),
            n <= i,
            n == count_of(v@.take(i as int), c),
        decreases v.len() - i,
    {
        proof {
            let part = v@.take(i + 1);
            assert(part.drop_last() == v@.take(i as int));
            assert(part.last() == v[i as int]);
        }
        if v[i] == c {
            n = n + 1;
        }
        i = i + 1;
    }
    assert(v@.take(v.len() as int) == v@);
    n
}

/// The two parts of a well written number: the value of the digits before
/// the point, where it is at most `u64::MAX`, and the value of the nine
/// digits after it.
fn number_parts(number: &Vec<char>) -> (r: (Option<u64>, u64))
    requires
        number_ok(number@),
        forall|i: int| 0 <= i < number.len() ==> is_digit(#[trigger] number[i]) || number[i] == '.',
    ensures
        r.0 == if digits_value(whole_digits(number@)) <= u64::MAX {
            Some(digits_value(whole_digits(number@)) as u64)
        } else {
            None
        },
        r.1 == digits_value(fraction_digits(number@)),
        r.1 < 1_000_000_000,
{
    let parts = split_chars(number, '.');
    let whole: Option<u64> = if parts[0].len() == 0 {
        assert(parts[0]@ =~= Seq::<char>::empty());
        Some(0)
    } else {
        proof {
            lemma_pieces_digits(number@, '.');
            assert(parts[0]@.skip(0) == parts[0]@);
        }
        parse_digits(&parts[0], 0, u64::MAX)
    };
    let mut fraction: u64 = 0;
    let mut i: usize = 0;
    let ghost digits = fraction_digits(number@);
    assert(digits.take(0) =~= Seq::<char>::empty());
    proof {
        reveal_with_fuel(pow10, 2);
    }
    while i < 9
        invariant
            i <= 9,
            parts.len() == split_text(number@, '.').len(),
            forall|k: int| 0 <= k < parts.len() ==> (#[trigger] parts[k])@ == split_text(number@, '.')[k],
            forall|k: int| 0 <= k < number.len() ==> is_digit(#[trigger] number[k]) || number[k] == '.',
            digits == fraction_digits(number@),
            fraction == digits_value(digits.take(i as int)),
            fraction < pow10(i as nat),
            pow10(i as nat) <= 1_000_000_000,
        decreases 9 - i,
    {
        let c = if parts.len() >= 2 && i < parts[1].len() {
            parts[1][i]
        } else {
            '0'
        };
        proof {
            assert(digits[i as int] == c);
            if parts.len() >= 2 && i < parts[1].len() {
                lemma_pieces_digits(number@, '.');
                let pieces = split_text(number@, '.');
                assert(number@.contains(pieces[1][i as int]));
                let j = choose|j: int| 0 <= j < number.len() && number[j] == c;
                assert(is_digit(number[j]) || number[j] == '.');
            }
            assert(is_digit(c));
            let part = digits.take(i + 1);
            assert(part.drop_last() == digits.take(i as int));
            assert(part.last() == c);
            reveal_with_fuel(pow10, 2);
            lemma_pow10_bound(i as nat);
        }
        fraction = fraction * 10 + ((c as u8) - 48) as u64;
        i = i + 1;
    }
    proof {
        assert(digits.take(9) == digits);
        lemma_pow10_nine();
    }
    (whole, fraction)
}

/// Ten to the power of `n`.
pub open spec fn pow10(n: nat) -> nat
    decreases n,
{
    if n == 0 {
        1
    } else {
        10 * pow10((n - 1) as nat)
    }
}

proof fn lemma_pow10_bound(n: nat)
    requires
        n < 9,
    ensures
        pow10(n) <= 100_000_000,
        pow10(n + 1) == 10 * pow10(n),
{
    reveal_with_fuel(pow10, 10);
}

proof fn lemma_pow10_nine()
    ensures
        pow10(9) == 1_000_000_000,
{
    reveal_with_fuel(pow10, 10);
}

/// Every character of a piece is a character of the text other than the
/// separator.
pub proof fn lemma_pieces_digits(s: Seq<char>, sep: char)
    ensures
        forall|k: int, i: int|
            0 <= k < split_text(s, sep).len() && 0 <= i < split_text(s, sep)[k].len() ==> s.contains(
                #[trigger] split_text(s, sep)[k][i],
            ) && split_text(s, sep)[k][i] != sep,
    decreases s.len(),
{
    if s.len() > 0 {
        let front = s.drop_last();
        lemma_pieces_digits(front, sep);
        crate::text::lemma_split_nonempty(front, sep);
        let before = split_text(front, sep);
        let now = split_text(s, sep);
        assert forall|k: int, i: int| 0 <= k < now.len() && 0 <= i < now[k].len() implies s.contains(
            #[trigger] now[k][i],
        ) && now[k][i] != sep by {
            if s.last() != sep && k == now.len() - 1 && i == now[k].len() - 1 {
                assert(now[k][i] == s.last());
                assert(s[s.len() - 1] == s.last());
            } else {
                assert(now[k][i] == before[k][i]);
                assert(front.contains(before[k][i]));
                let j = choose|j: int| 0 <= j < front.len() && front[j] == before[k][i];
                assert(s[j] == before[k][i]);
            }
        }
    }
}

/// Reads a duration such as `1h30m`, `500s` or `2d`.
pub fn parse_duration(s: &str) -> (r: Result<Duration, ClockError>)
    ensures
        match duration_nanos(s@) {
            Ok(nanos) => r matches Ok(d) && d@ == nanos,
            Err(message) => r matches Err(ClockError::InvalidDurationFormat(m)) && m@ == message,
        },
{
    let raw = to_chars(s);
    let t = trim_chars(&raw);
    if t.len() == 0 {
        return Err(ClockError::InvalidDurationFormat("empty string".to_string()));
    }
    let limit: u128 = 18_446_744_073_709_551_616u128 * 1_000_000_000u128;
    let mut total: u128 = 0;
    let mut number: Vec<char> = Vec::new();
    let mut i: usize = 0;
    assert(t@.take(0) =~= Seq::<char>::empty());
    while i < t.len()
        invariant
            i <= t.len(),
            limit == (u64::MAX + 1) * 1_000_000_000,
            total < limit,
            t@ == trim_text(s@),
            t.len() > 0,
            scanned(t@.take(i as int)) == Ok::<DurationScan, Seq<char>>(
                DurationScan { total: total as nat, number: number@ },
            ),
            forall|k: int| 0 <= k < number.len() ==> is_digit(#[trigger] number[k]) || number[k] == '.',
        decreases t.len() - i,
    {
        let c = t[i];
        let ghost state = DurationScan { total: total as nat, number: number@ };
        proof {
            let part = t@.take(i + 1);
            assert(part.drop_last() == t@.take(i as int));
            assert(part.last() == c);
            assert(scanned(part) == scan_step(state, c));
            lemma_scan_error_stays(t@, i + 1);
        }
        if ('0' <= c && c <= '9') || c == '.' {
            number.push(c);
        } else {
            if number.len() == 0 {
                let mut unit: Vec<char> = Vec::new();
                unit.push(c);
                let shown = from_chars(&unit);
                assert(shown@ =~= seq![c]);
                return Err(
                    ClockError::InvalidDurationFormat(
                        join3("expected number before unit '", shown.as_str(), "'"),
                    ),
                );
            }
            let dots = count_char(&number, '.');
            if dots > 1 || dots >= number.len() {
                let shown = from_chars(&number);
                return Err(
                    ClockError::InvalidDurationFormat(join2("invalid number: ", shown.as_str())),
                );
            }
            let unit: u64 = if c == 'd' {
                86_400_000
            } else if c == 'h' {
                3_600_000
            } else if c == 'm' {
                60_000
            } else if c == 's' {
                1_000
            } else {
                let mut unit: Vec<char> = Vec::new();
                unit.push(c);
                let shown = from_chars(&unit);
                assert(shown@ =~= seq![c]);
                return Err(
                    ClockError::InvalidDurationFormat(join3("unknown unit '", shown.as_str(), "'")),
                );
            };
            let (whole, fraction) = number_parts(&number);
            let amount: Option<u128> = match whole {
                None => None,
                Some(w) => {
                    assert((w as u128) * (unit as u128) <= 18_446_744_073_709_551_615u128
                        * 86_400_000u128) by (nonlinear_arith)
                        requires
                            w <= 18_446_744_073_709_551_615u128,
                            unit <= 86_400_000u128,
                    ;
                    assert((fraction as u128) * (unit as u128) <= 1_000_000_000u128
                        * 86_400_000u128) by (nonlinear_arith)
                        requires
                            fraction <= 1_000_000_000u128,
                            unit <= 86_400_000u128,
                    ;
                    let millis: u128 = (w as u128) * (unit as u128) + ((fraction as u128) * (
                    unit as u128)) / 1_000_000_000u128;
                    Some(millis * 1_000_000u128)
                },
            };
            let next: Option<u128> = match amount {
                Some(a) => if a < limit - total {
                    Some(total + a)
                } else {
                    None
                },
                None => None,
            };
            proof {
                if whole is None {
                    let w = digits_value(whole_digits(number@));
                    assert(w * (unit as nat) >= w) by (nonlinear_arith)
                        requires
                            unit >= 1,
                    ;
                    assert(w * (unit as nat) >= w * 1000) by (nonlinear_arith)
                        requires
                            unit >= 1000,
                    ;
                    assert(amount_nanos(number@, unit as nat) >= w * 1_000_000) by (nonlinear_arith)
                        requires
                            amount_nanos(number@, unit as nat) == (w * (unit as nat) + (
                            digits_value(fraction_digits(number@)) * (unit as nat)) / 1_000_000_000)
                                * 1_000_000,
                            w * (unit as nat) >= w,
                            unit >= 1000,
                            w * (unit as nat) >= w * 1000,
                    ;
                }
            }
            match next {
                Some(n) => {
                    total = n;
                    number = Vec::new();
                },
                None => {
                    return Err(
                        ClockError::InvalidDurationFormat("duration out of range".to_string()),
                    );
                },
            }
        }
        i = i + 1;
    }
    assert(t@.take(t.len() as int) == t@);
    if number.len() == 0 {
        match Duration::from_nanos(total) {
            Some(d) => Ok(d),
            None => Err(ClockError::InvalidDurationFormat("duration out of range".to_string())),
        }
    } else {
        let dots = count_char(&number, '.');
        if dots > 1 || dots >= number.len() {
            let shown = from_chars(&number);
            return Err(ClockError::InvalidDurationFormat(join2("invalid number: ", shown.as_str())));
        }
        let (whole, fraction) = number_parts(&number);
        let sum: Option<u128> = match whole {
            None => None,
            Some(w) => {
                let a: u128 = (w as u128) * 1_000_000_000u128 + fraction as u128;
                if a < limit - total {
                    Some(total + a)
                } else {
                    None
                }
            },
        };
        match sum {
            Some(n) => match Duration::from_nanos(n) {
                Some(d) => Ok(d),
                None => Err(ClockError::InvalidDurationFormat("duration out of range".to_string())),
            },
            None => Err(ClockError::InvalidDurationFormat("duration out of range".to_string())),
        }
    }
}

/// Once reading has failed it stays failed with the same message.
proof fn lemma_scan_error_stays(s: Seq<char>, k: int)
    requires
        0 <= k <= s.len(),
    ensures
        scanned(s.take(k)) matches Err(message) ==> scanned(s) == Err::<DurationScan, Seq<char>>(
            message,
        ),
    decreases s.len() - k,
{
    if k < s.len() {
        lemma_scan_error_stays(s, k + 1);
        assert(s.take(k + 1).drop_last() == s.take(k));
    } else {
        assert(s.take(k) == s);
    }
}

} // verus!
