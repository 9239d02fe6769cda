//! Small millisecond time helpers for platform-driven code.
//!
//! The platform owns the hardware clock; this module gives the rest of the
//! crate a millisecond-based `Instant` and `Duration`. All arithmetic on them
//! saturates at the bounds of `u64` (or has a checked form that reports the
//! overflow), so time values never wrap.
use vstd::prelude::*;

use core::cmp::Ordering;
use vstd::std_specs::cmp::{PartialOrdSpec, PartialOrdSpecImpl};

verus! {

/// `a + b`, clamped to `u64::MAX`.
pub open spec fn sat_add(a: u64, b: u64) -> u64 {
    if a + b > u64::MAX {
        u64::MAX
    } else {
        (a + b) as u64
    }
}

/// `a - b`, clamped to zero.
pub open spec fn sat_sub(a: u64, b: u64) -> u64 {
    if a >= b {
        (a - b) as u64
    } else {
        0
    }
}

/// `a + b` when it fits in a `u64`.
pub open spec fn opt_add(a: u64, b: u64) -> Option<u64> {
    if a + b > u64::MAX {
        None
    } else {
        Some((a + b) as u64)
    }
}

/// `a - b` when it is not negative.
pub open spec fn opt_sub(a: u64, b: u64) -> Option<u64> {
    if a >= b {
        Some((a - b) as u64)
    } else {
        None
    }
}

/// How two millisecond counts compare.
pub open spec fn millis_order(a: u64, b: u64) -> Ordering {
    if a < b {
        Ordering::Less
    } else if a == b {
        Ordering::Equal
    } else {
        Ordering::Greater
    }
}

/// A span of time, counted in whole milliseconds.
#[derive(Clone, Copy, Debug, Default, PartialEq, Eq, Structural, Ord, Hash)]
pub struct Duration {
    millis: u64,
}

impl View for Duration {
    type V = u64;

    /// The number of milliseconds the duration spans.
    closed spec fn view(&self) -> u64 {
        self.millis
    }
}

/// The duration of the given number of milliseconds.
pub open spec fn duration_of(millis: u64) -> Duration {
    Duration::spec_from_millis(millis)
}

impl Duration {
    pub closed spec fn spec_from_millis(millis: u64) -> Duration {
        Duration { millis }
    }

    /// A duration is determined by its number of milliseconds.
    pub broadcast proof fn lemma_view_determines(a: Duration, b: Duration)
        ensures
            #![trigger a@, b@]
            a@ == b@ <==> a == b,
    {
    }

    /// The duration made from a number of milliseconds spans that many.
    pub broadcast proof fn lemma_from_millis(millis: u64)
        ensures
            #[trigger] Duration::spec_from_millis(millis)@ == millis,
    {
    }

    pub fn from_millis(millis: u64) -> (d: Self)
        ensures
            d@ == millis,
            d == Duration::spec_from_millis(millis),
    {
        Duration { millis }
    }

    pub fn as_millis(self) -> (m: u64)
        ensures
            m == self@,
    {
        self.millis
    }

    pub fn is_zero(self) -> (b: bool)
        ensures
            b == (self@ == 0),
    {
        self.millis == 0
    }

    /// The sum of both durations, clamped to the largest duration.
    pub fn saturating_add(self, other: Self) -> (d: Self)
        ensures
            d@ == sat_add(self@, other@),
    {
        Self::from_millis(self.millis.saturating_add(other.millis))
    }

    /// The difference of both durations, clamped to zero.
    pub fn saturating_sub(self, other: Self) -> (d: Self)
        ensures
            d@ == sat_sub(self@, other@),
    {
        Self::from_millis(self.millis.saturating_sub(other.millis))
    }

    /// The sum of both durations, or `None` where it does not fit.
    pub fn checked_add(self, other: Self) -> (d: Option<Self>)
        ensures
            match opt_add(self@, other@) {
                Some(m) => d == Some(Duration::spec_from_millis(m)),
                None => d is None,
            },
    {
        match self.millis.checked_add(other.millis) {
            Some(millis) => Some(Self::from_millis(millis)),
            None => None,
        }
    }

    /// The difference of both durations, or `None` where it is negative.
    pub fn checked_sub(self, other: Self) -> (d: Option<Self>)
        ensures
            match opt_sub(self@, other@) {
                Some(m) => d == Some(Duration::spec_from_millis(m)),
                None => d is None,
            },
    {
        match self.millis.checked_sub(other.millis) {
            Some(millis) => Some(Self::from_millis(millis)),
            None => None,
        }
    }
}

impl PartialOrdSpecImpl for Duration {
    open spec fn obeys_partial_cmp_spec() -> bool {
        true
    }

    open spec fn partial_cmp_spec(&self, other: &Duration) -> Option<Ordering> {
        Some(millis_order(self@, other@))
    }
}

/// Durations are ordered by their milliseconds.
impl PartialOrd for Duration {
    fn partial_cmp(&self, other: &Duration) -> (r: Option<Ordering>) {
        if self.millis < other.millis {
            Some(Ordering::Less)
        } else if self.millis == other.millis {
            Some(Ordering::Equal)
        } else {
            Some(Ordering::Greater)
        }
    }
}

impl vstd::std_specs::convert::FromSpecImpl<u64> for Duration {
    open spec fn obeys_from_spec() -> bool {
        true
    }

    open spec fn from_spec(millis: u64) -> Duration {
        Duration::spec_from_millis(millis)
    }
}

impl From<u64> for Duration {
    fn from(millis: u64) -> (d: Self) {
        Self::from_millis(millis)
    }
}

impl vstd::std_specs::convert::FromSpecImpl<Duration> for u64 {
    open spec fn obeys_from_spec() -> bool {
        true
    }

    open spec fn from_spec(duration: Duration) -> u64 {
        duration@
    }
}

impl From<Duration> for u64 {
    fn from(duration: Duration) -> (m: Self) {
        duration.as_millis()
    }
}

impl vstd::std_specs::ops::AddSpecImpl for Duration {
    open spec fn obeys_add_spec() -> bool {
        true
    }

    open spec fn add_req(self, rhs: Duration) -> bool {
        true
    }

    open spec fn add_spec(self, rhs: Duration) -> Duration {
        Duration::spec_from_millis(sat_add(self@, rhs@))
    }
}

/// `+` saturates.
impl core::ops::Add for Duration {
    type Output = Self;

    fn add(self, rhs: Self) -> (d: Self::Output) {
        self.saturating_add(rhs)
    }
}

impl core::ops::AddAssign for Duration {
    fn add_assign(&mut self, rhs: Self)
        ensures
            final(self)@ == sat_add(old(self)@, rhs@),
    {
        *self = self.saturating_add(rhs);
    }
}

impl vstd::std_specs::ops::SubSpecImpl for Duration {
    open spec fn obeys_sub_spec() -> bool {
        true
    }

    open spec fn sub_req(self, rhs: Duration) -> bool {
        true
    }

    open spec fn sub_spec(self, rhs: Duration) -> Duration {
        Duration::spec_from_millis(sat_sub(self@, rhs@))
    }
}

/// `-` saturates at zero.
impl core::ops::Sub for Duration {
    type Output = Self;

    fn sub(self, rhs: Self) -> (d: Self::Output) {
        self.saturating_sub(rhs)
    }
}

impl core::ops::SubAssign for Duration {
    fn sub_assign(&mut self, rhs: Self)
        ensures
            final(self)@ == sat_sub(old(self)@, rhs@),
    {
        *self = self.saturating_sub(rhs);
    }
}

/// A point in time, counted in milliseconds since the platform's epoch.
#[derive(Clone, Copy, Debug, Default, PartialEq, Eq, Structural, Ord, Hash)]
pub struct Instant {
    millis: u64,
}

impl View for Instant {
    type V = u64;

    /// The number of milliseconds since the epoch.
    closed spec fn view(&self) -> u64 {
        self.millis
    }
}

impl Instant {
    pub closed spec fn spec_from_millis(millis: u64) -> Instant {
        Instant { millis }
    }

    /// An instant is determined by its number of milliseconds.
    pub broadcast proof fn lemma_view_determines(a: Instant, b: Instant)
        ensures
            #![trigger a@, b@]
            a@ == b@ <==> a == b,
    {
    }

    /// The instant made from a number of milliseconds lies that many after
    /// the epoch.
    pub broadcast proof fn lemma_from_millis(millis: u64)
        ensures
            #[trigger] Instant::spec_from_millis(millis)@ == millis,
    {
    }

    pub fn from_millis(millis: u64) -> (i: Self)
        ensures
            i@ == millis,
            i == Instant::spec_from_millis(millis),
    {
        Instant { millis }
    }

    pub fn as_millis(self) -> (m: u64)
        ensures
            m == self@,
    {
        self.millis
    }

    /// The time from `earlier` to `self`, zero where `earlier` is later.
    pub fn saturating_duration_since(self, earlier: Self) -> (d: Duration)
        ensures
            d@ == sat_sub(self@, earlier@),
    {
        Duration::from_millis(self.millis.saturating_sub(earlier.millis))
    }

    /// The time from `earlier` to `self`, or `None` where `earlier` is later.
    pub fn checked_duration_since(self, earlier: Self) -> (d: Option<Duration>)
        ensures
            match opt_sub(self@, earlier@) {
                Some(m) => d == Some(Duration::spec_from_millis(m)),
                None => d is None,
            },
    {
        match self.millis.checked_sub(earlier.millis) {
            Some(millis) => Some(Duration::from_millis(millis)),
            None => None,
        }
    }

    /// The time from `self` until `deadline`, zero where it has passed.
    pub fn duration_until(self, deadline: Self) -> (d: Duration)
        ensures
            d@ == sat_sub(deadline@, self@),
    {
        deadline.saturating_duration_since(self)
    }

    pub fn saturating_add(self, duration: Duration) -> (i: Self)
        ensures
            i@ == sat_add(self@, duration@),
    {
        Self::from_millis(self.millis.saturating_add(duration.as_millis()))
    }

    pub fn saturating_sub(self, duration: Duration) -> (i: Self)
        ensures
            i@ == sat_sub(self@, duration@),
    {
        Self::from_millis(self.millis.saturating_sub(duration.as_millis()))
    }

    pub fn checked_add(self, duration: Duration) -> (i: Option<Self>)
        ensures
            match opt_add(self@, duration@) {
                Some(m) => i == Some(Instant::spec_from_millis(m)),
                None => i is None,
            },
    {
        match self.millis.checked_add(duration.as_millis()) {
            Some(millis) => Some(Self::from_millis(millis)),
            None => None,
        }
    }

    pub fn checked_sub(self, duration: Duration) -> (i: Option<Self>)
        ensures
            match opt_sub(self@, duration@) {
                Some(m) => i == Some(Instant::spec_from_millis(m)),
                None => i is None,
            },
    {
        match self.millis.checked_sub(duration.as_millis()) {
            Some(millis) => Some(Self::from_millis(millis)),
            None => None,
        }
    }
}

impl PartialOrdSpecImpl for Instant {
    open spec fn obeys_partial_cmp_spec() -> bool {
        true
    }

    open spec fn partial_cmp_spec(&self, other: &Instant) -> Option<Ordering> {
        Some(millis_order(self@, other@))
    }
}

/// Instants are ordered by their milliseconds.
impl PartialOrd for Instant {
    fn partial_cmp(&self, other: &Instant) -> (r: Option<Ordering>) {
        if self.millis < other.millis {
            Some(Ordering::Less)
        } else if self.millis == other.millis {
            Some(Ordering::Equal)
        } else {
            Some(Ordering::Greater)
        }
    }
}

impl vstd::std_specs::convert::FromSpecImpl<u64> for Instant {
    open spec fn obeys_from_spec() -> bool {
        true
    }

    open spec fn from_spec(millis: u64) -> Instant {
        Instant::spec_from_millis(millis)
    }
}

impl From<u64> for Instant {
    fn from(millis: u64) -> (i: Self) {
        Self::from_millis(millis)
    }
}

impl vstd::std_specs::convert::FromSpecImpl<Instant> for u64 {
    open spec fn obeys_from_spec() -> bool {
        true
    }

    open spec fn from_spec(instant: Instant) -> u64 {
        instant@
    }
}

impl From<Instant> for u64 {
    fn from(instant: Instant) -> (m: Self) {
        instant.as_millis()
    }
}

impl vstd::std_specs::ops::AddSpecImpl<Duration> for Instant {
    open spec fn obeys_add_spec() -> bool {
        true
    }

    open spec fn add_req(self, rhs: Duration) -> bool {
        true
    }

    open spec fn add_spec(self, rhs: Duration) -> Instant {
        Instant::spec_from_millis(sat_add(self@, rhs@))
    }
}

/// `instant + duration` saturates.
impl core::ops::Add<Duration> for Instant {
    type Output = Self;

    fn add(self, rhs: Duration) -> (i: Self::Output) {
        self.saturating_add(rhs)
    }
}

impl core::ops::AddAssign<Duration> for Instant {
    fn add_assign(&mut self, rhs: Duration)
        ensures
            final(self)@ == sat_add(old(self)@, rhs@),
    {
        *self = self.saturating_add(rhs);
    }
}

impl vstd::std_specs::ops::SubSpecImpl<Duration> for Instant {
    open spec fn obeys_sub_spec() -> bool {
        true
    }

    open spec fn sub_req(self, rhs: Duration) -> bool {
        true
    }

    open spec fn sub_spec(self, rhs: Duration) -> Instant {
        Instant::spec_from_millis(sat_sub(self@, rhs@))
    }
}

/// `instant - duration` saturates at the epoch.
impl core::ops::Sub<Duration> for Instant {
    type Output = Self;

    fn sub(self, rhs: Duration) -> (i: Self::Output) {
        self.saturating_sub(rhs)
    }
}

impl core::ops::SubAssign<Duration> for Instant {
    fn sub_assign(&mut self, rhs: Duration)
        ensures
            final(self)@ == sat_sub(old(self)@, rhs@),
    {
        *self = self.saturating_sub(rhs);
    }
}

impl vstd::std_specs::ops::SubSpecImpl for Instant {
    open spec fn obeys_sub_spec() -> bool {
        true
    }

    open spec fn sub_req(self, rhs: Instant) -> bool {
        true
    }

    open spec fn sub_spec(self, rhs: Instant) -> Duration {
        Duration::spec_from_millis(sat_sub(self@, rhs@))
    }
}

/// `later - earlier` is the time between them, zero where they are the
/// other way round.
impl core::ops::Sub for Instant {
    type Output = Duration;

    fn sub(self, rhs: Self) -> (d: Self::Output) {
        self.saturating_duration_since(rhs)
    }
}

/// What the time types' views tell of them.
pub broadcast group group_time_views {
    Duration::lemma_view_determines,
    Duration::lemma_from_millis,
    Instant::lemma_view_determines,
    Instant::lemma_from_millis,
}

/// Adding a duration to an instant and measuring back from the start gives
/// the duration again, as long as the sum does not saturate.
pub proof fn law_add_then_measure_back(start: u64, duration: u64)
    requires
        start + duration <= u64::MAX,
    ensures
        sat_sub(sat_add(start, duration), start) == duration,
        opt_sub(sat_add(start, duration), start) == Some(duration),
{
}

/// Measuring from a later instant to an earlier one saturates at zero,
/// and the checked form reports it.
pub proof fn law_measure_backwards_is_zero(earlier: u64, later: u64)
    requires
        earlier <= later,
    ensures
        sat_sub(earlier, later) == 0,
        earlier < later ==> opt_sub(earlier, later) is None,
{
}

/// The checked forms agree with the saturating ones wherever they answer.
pub proof fn law_checked_agrees_with_saturating(a: u64, b: u64)
    ensures
        opt_add(a, b) matches Some(s) ==> s == sat_add(a, b),
        opt_add(a, b) is None ==> sat_add(a, b) == u64::MAX,
        opt_sub(a, b) matches Some(d) ==> d == sat_sub(a, b),
        opt_sub(a, b) is None ==> sat_sub(a, b) == 0,
{
}

/// Durations and instants are ordered as their milliseconds are, and are
/// equal exactly when their milliseconds are.
pub proof fn law_order_follows_millis(a: Duration, b: Duration, x: Instant, y: Instant)
    ensures
        PartialOrdSpec::partial_cmp_spec(&a, &b) == Some(millis_order(a@, b@)),
        (PartialOrdSpec::partial_cmp_spec(&a, &b) == Some(Ordering::Less)) <==> a@ < b@,
        (PartialOrdSpec::partial_cmp_spec(&a, &b) == Some(Ordering::Equal)) <==> a == b,
        PartialOrdSpec::partial_cmp_spec(&x, &y) == Some(millis_order(x@, y@)),
        (PartialOrdSpec::partial_cmp_spec(&x, &y) == Some(Ordering::Less)) <==> x@ < y@,
        (PartialOrdSpec::partial_cmp_spec(&x, &y) == Some(Ordering::Equal)) <==> x == y,
{
}

/// A source of the current time, implemented by each platform.
pub trait Clock {
    /// Reading the clock in the state `self` can answer `now` and leave it
    /// in the state `after`. A clock that does not say leaves every instant
    /// and every state possible.
    open spec fn reading(&self, after: &Self, now: Instant) -> bool {
        true
    }

    fn now(&mut self) -> (now: Instant)
        ensures
            old(self).reading(final(self), now),
    ;

    /// The clock's current instant in milliseconds: one reading of the clock.
    fn now_ms(&mut self) -> (ms: u64)
        ensures
            exists|now: Instant| #[trigger] old(self).reading(final(self), now) && ms == now@,
    {
        let now = self.now();
        now.as_millis()
    }
}

/// A clock that moves only when it is told to; for tests and platform shims.
#[derive(Clone, Copy, Debug, Default, PartialEq, Eq, Structural)]
pub struct ManualClock {
    now: Instant,
}

impl View for ManualClock {
    type V = Instant;

    /// The instant the clock shows.
    closed spec fn view(&self) -> Instant {
        self.now
    }
}

impl ManualClock {
    pub fn new(now: Instant) -> (c: Self)
        ensures
            c@ == now,
    {
        ManualClock { now }
    }

    pub fn zero() -> (c: Self)
        ensures
            c@@ == 0,
    {
        Self::new(Instant::from_millis(0))
    }

    pub fn current(self) -> (i: Instant)
        ensures
            i == self@,
    {
        self.now
    }

    pub fn current_ms(self) -> (m: u64)
        ensures
            m == self@@,
    {
        self.now.as_millis()
    }

    pub fn set(&mut self, now: Instant)
        ensures
            final(self)@ == now,
    {
        self.now = now;
    }

    /// Moves the clock forward, stopping at the last representable instant.
    pub fn advance(&mut self, duration: Duration)
        ensures
            final(self)@@ == sat_add(old(self)@@, duration@),
    {
        self.now = self.now.saturating_add(duration);
    }

    pub fn advance_millis(&mut self, millis: u64)
        ensures
            final(self)@@ == sat_add(old(self)@@, millis),
    {
        self.advance(Duration::from_millis(millis));
    }
}

impl Clock for ManualClock {
    /// A manual clock shows its instant and is not moved by reading it.
    open spec fn reading(&self, after: &Self, now: Instant) -> bool {
        now == self@ && *after == *self
    }

    fn now(&mut self) -> (i: Instant)
        ensures
            i == old(self)@,
            *final(self) == *old(self),
    {
        self.now
    }
}

} // verus!
