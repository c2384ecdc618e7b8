//! Duration values: a numeric value paired with a unit, resolvable to an
//! absolute number of milliseconds, and the anchor position from which a
//! selection window is reckoned.

use vstd::prelude::*;

verus! {

/// Unit of a [`Duration`] value.
#[derive(Clone, Copy, Debug)]
pub enum DurationUnit {
    Millisecond,
    Second,
    Percent,
}

impl Default for DurationUnit {
    /// The unit a caller gets when none was given: seconds.
    fn default() -> (r: DurationUnit)
        ensures
            r == DurationUnit::Second,
    {
        DurationUnit::Second
    }
}

/// Anchor for a selection window: reckon it from the start or from the end
/// of the full media duration.
#[derive(Clone, Copy, Debug)]
pub enum DurationPosition {
    Start,
    End,
}

impl Default for DurationPosition {
    /// Windows are reckoned from the start unless asked otherwise.
    fn default() -> (r: DurationPosition)
        ensures
            r == DurationPosition::Start,
    {
        DurationPosition::Start
    }
}

/// The value a [`Duration`] field takes when a caller omits it.
pub fn default_duration() -> (r: u64)
    ensures
        r == 1,
{
    1
}

/// A duration as a value and a unit. Percent values are relative to a
/// reference duration; the other units stand on their own.
#[derive(Clone, Copy, Debug)]
pub struct Duration {
    pub value: u64,
    pub unit: DurationUnit,
}

impl Default for Duration {
    /// One second: the default value with the default unit.
    fn default() -> (r: Duration)
        ensures
            r == (Duration { value: 1, unit: DurationUnit::Second }),
    {
        Duration { value: default_duration(), unit: DurationUnit::default() }
    }
}

impl Duration {
    /// The millisecond count this duration resolves to, relative to
    /// `reference` (used only by `Percent`). Percent conversion truncates
    /// toward zero.
    pub open spec fn to_millis_spec(self, reference: int) -> int {
        match self.unit {
            DurationUnit::Millisecond => self.value as int,
            DurationUnit::Second => self.value * 1000,
            DurationUnit::Percent => reference * self.value / 100,
        }
    }

    /// Whether resolving this duration against `reference` stays within
    /// `u64` range, so that [`Duration::to_millis`] cannot overflow.
    pub open spec fn millis_fits(self, reference: int) -> bool {
        match self.unit {
            DurationUnit::Millisecond => true,
            DurationUnit::Second => self.value * 1000 <= u64::MAX,
            DurationUnit::Percent => reference * self.value <= u64::MAX,
        }
    }

    /// Resolve this duration to milliseconds. `media_duration` is the
    /// reference a percent value is taken of; the other units ignore it.
    pub fn to_millis(&self, media_duration: u64) -> (r: u64)
        requires
            self.millis_fits(media_duration as int),
        ensures
            r == self.to_millis_spec(media_duration as int),
    {
        match self.unit {
            DurationUnit::Millisecond => self.value,
            DurationUnit::Second => self.value * 1000,
            DurationUnit::Percent => media_duration * self.value / 100,
        }
    }
}

/// A duration of a non-negative value never resolves to a negative
/// millisecond count, whatever its unit.
pub proof fn lemma_to_millis_nonneg(d: Duration, reference: int)
    by (nonlinear_arith)
    requires
        0 <= reference,
    ensures
        0 <= d.to_millis_spec(reference),
{
}

/// Taking the whole of a reference changes nothing: a duration of 100
/// percent resolves to exactly the reference duration, whatever it is.
pub proof fn lemma_full_percent_round_trip(reference: int)
    by (nonlinear_arith)
    requires
        0 <= reference,
    ensures
        (Duration { value: 100, unit: DurationUnit::Percent }).to_millis_spec(reference)
            == reference,
{
}

/// Resolvability is monotonic in the reference: a duration that fits
/// against a reference also fits against any smaller one.
pub proof fn lemma_millis_fits_monotonic(d: Duration, larger: int, smaller: int)
    by (nonlinear_arith)
    requires
        0 <= smaller <= larger,
        d.millis_fits(larger),
    ensures
        d.millis_fits(smaller),
{
}

} // verus!
