//! Elapsed whole seconds since a start instant, never decreasing.
use std::time::{Duration, Instant};
use vstd::prelude::*;

verus! {

#[verifier::external_type_specification]
#[verifier::external_body]
pub struct ExInstant(Instant);

/// Relies on `Instant::now`: a reading of the monotonic clock.
pub assume_specification[ Instant::now ]() -> Instant;

/// Relies on `Instant::elapsed`: the time since the instant, zero rather than
/// negative.
pub assume_specification[ Instant::elapsed ](this: &Instant) -> Duration;

/// Relies on `Duration::as_secs`: the whole seconds of a duration.
pub assume_specification[ Duration::as_secs ](this: &Duration) -> u64;

/// The reading kept after `previous` when the clock now reports `reading`:
/// the larger of the two, so that what is shown never goes back.
pub open spec fn next_reading(previous: nat, reading: nat) -> nat {
    if reading < previous {
        previous
    } else {
        reading
    }
}

/// A stopwatch clock: the instant it was started and the last whole-second
/// reading it handed out.
pub struct Clock {
    start: Instant,
    latest: u64,
}

impl Clock {
    /// The last reading handed out, zero before the first.
    pub closed spec fn latest(&self) -> nat {
        self.latest as nat
    }

    /// Captures the start instant.
    pub fn start() -> (c: Clock)
        ensures
            c.latest() == 0,
    {
        Clock { start: Instant::now(), latest: 0 }
    }

    /// Whole seconds elapsed since the start; never less than any earlier
    /// reading of this clock.
    pub fn elapsed_seconds(&mut self) -> (r: u64)
        ensures
            r >= old(self).latest(),
            final(self).latest() == r,
    {
        let elapsed = self.start.elapsed();
        let reading = elapsed.as_secs();
        let r = later_reading(self.latest, reading);
        self.latest = r;
        r
    }
}

/// The reading to hand out after `previous` when the clock reports `reading`.
pub fn later_reading(previous: u64, reading: u64) -> (r: u64)
    ensures
        r == next_reading(previous as nat, reading as nat),
{
    if reading < previous {
        previous
    } else {
        reading
    }
}

/// The readings handed out, in order, when the clock reports `reported` one
/// after another, starting from the reading `previous`.
pub open spec fn readings_shown(previous: nat, reported: Seq<nat>) -> Seq<nat>
    decreases reported.len(),
{
    if reported.len() == 0 {
        seq![]
    } else {
        let first = next_reading(previous, reported[0]);
        seq![first] + readings_shown(first, reported.drop_first())
    }
}

/// Successive readings never decrease, whatever the clock reports in between:
/// each is at least the one before it and at least the starting reading.
pub proof fn lemma_readings_never_decrease(previous: nat, reported: Seq<nat>)
    ensures
        readings_shown(previous, reported).len() == reported.len(),
        forall|i: int|
            0 <= i < reported.len() ==> previous <= #[trigger] readings_shown(previous, reported)[i],
        forall|i: int, j: int|
            0 <= i <= j < reported.len() ==> readings_shown(previous, reported)[i]
                <= readings_shown(previous, reported)[j],
    decreases reported.len(),
{
    if reported.len() > 0 {
        let first = next_reading(previous, reported[0]);
        let rest = reported.drop_first();
        lemma_readings_never_decrease(first, rest);
        let shown = readings_shown(previous, reported);
        assert(shown == seq![first] + readings_shown(first, rest));
        assert forall|i: int| 0 <= i < reported.len() implies previous <= #[trigger] shown[i] by {
            if i > 0 {
                assert(shown[i] == readings_shown(first, rest)[i - 1]);
            }
        }
        assert forall|i: int, j: int| 0 <= i <= j < reported.len() implies shown[i] <= shown[j] by {
            if i > 0 {
                assert(shown[i] == readings_shown(first, rest)[i - 1]);
            }
            if j > 0 {
                assert(shown[j] == readings_shown(first, rest)[j - 1]);
            }
        }
    }
}

} // verus!
