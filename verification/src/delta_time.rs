use vstd::prelude::*;

verus! {

/// Declares `std::time::Instant` so a last-observed instant can live in a
/// field; the value is opaque to the verifier.
#[verifier::external_type_specification]
#[verifier::external_body]
pub struct ExInstant(std::time::Instant);

/// Relies on `std::time::Instant::now`; what instant comes back is left
/// entirely open.
pub assume_specification[ std::time::Instant::now ]() -> std::time::Instant;

/// Relies on `std::time::Instant::saturating_duration_since`; the resulting
/// duration is left entirely open.
pub assume_specification[ std::time::Instant::saturating_duration_since ](
    this: &std::time::Instant,
    earlier: std::time::Instant,
) -> std::time::Duration;

/// Relies on `std::time::Duration::as_millis`; the count is left entirely
/// open.
pub assume_specification[ std::time::Duration::as_millis ](
    d: &std::time::Duration,
) -> u128;

/// The elapsed time a tick is allowed to integrate over, in fixed-point
/// seconds (= milliseconds): long stalls are clamped to one second so a
/// single tick never teleports agents across the arena.
pub const MAX_DELTA: i64 = 1000;

/// The wall-clock instant of the previous tick and the elapsed time since
/// it, in fixed-point seconds.
#[derive(Debug, Clone, Copy)]
pub struct DeltaTime {
    pub last_time: std::time::Instant,
    pub delta: i64,
}

impl DeltaTime {
    /// Measure the time since the previous call (clamped to `MAX_DELTA`) and
    /// remember the present instant for the next one.
    pub fn calc(&mut self)
        ensures
            0 <= final(self).delta <= MAX_DELTA,
    {
        let now = std::time::Instant::now();
        let elapsed: u128 = now.saturating_duration_since(self.last_time).as_millis();
        self.delta = if elapsed > 1000 {
            1000
        } else {
            elapsed as i64
        };
        self.last_time = now;
    }
}

impl Default for DeltaTime {
    fn default() -> (r: Self)
        ensures
            r.delta == 0,
    {
        DeltaTime { last_time: std::time::Instant::now(), delta: 0 }
    }
}

} // verus!
