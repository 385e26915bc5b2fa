//! Waiting for input to settle before acting on it.
use std::time::Instant;
use vstd::prelude::*;

verus! {

#[verifier::external_type_specification]
#[verifier::external_body]
pub struct ExInstant(Instant);

/// `Instant::now`: a reading of the monotonic clock. Nothing is claimed of its value.
#[verifier::external_body]
fn instant_now() -> Instant {
    Instant::now()
}

/// `Instant::elapsed` of `since`, in whole milliseconds (`Duration::as_millis`). It
/// depends on the clock, so nothing is claimed of its value.
#[verifier::external_body]
fn elapsed_millis(since: &Instant) -> u128 {
    since.elapsed().as_millis()
}

/// Input triggered `elapsed_ms` whole milliseconds ago has settled once the delay has
/// passed; input never triggered has not.
pub open spec fn settled(triggered: bool, elapsed_ms: int, delay_ms: int) -> bool {
    triggered && elapsed_ms >= delay_ms
}

/// Whether input triggered `elapsed_ms` milliseconds ago (if `triggered`) has settled.
pub fn settled_after(triggered: bool, elapsed_ms: u128, delay_ms: u64) -> (res: bool)
    ensures
        res == settled(triggered, elapsed_ms as int, delay_ms as int),
{
    triggered && elapsed_ms >= delay_ms as u128
}

/// Remembers when input last arrived.
pub struct Debouncer {
    last_trigger: Option<Instant>,
    delay_ms: u64,
}

impl Debouncer {
    /// Whether input has arrived since the debouncer was made or last reset.
    pub closed spec fn triggered(&self) -> bool {
        self.last_trigger is Some
    }

    /// The delay, in milliseconds, after which input has settled.
    pub closed spec fn delay(&self) -> nat {
        self.delay_ms as nat
    }

    pub fn new(delay_ms: u64) -> (d: Self)
        ensures
            !d.triggered(),
            d.delay() == delay_ms,
    {
        Debouncer { last_trigger: None, delay_ms }
    }

    /// Notes that input arrived now.
    pub fn trigger(&mut self)
        ensures
            final(self).triggered(),
            final(self).delay() == old(self).delay(),
    {
        self.last_trigger = Some(instant_now());
    }

    /// Whether the delay has passed since input last arrived; never before any input.
    pub fn is_settled(&self) -> (res: bool)
        ensures
            res ==> self.triggered(),
            !self.triggered() ==> !res,
            self.delay() == 0 ==> res == self.triggered(),
    {
        match &self.last_trigger {
            Some(t) => settled_after(true, elapsed_millis(t), self.delay_ms),
            None => false,
        }
    }

    /// Forgets any input.
    pub fn reset(&mut self)
        ensures
            !final(self).triggered(),
            final(self).delay() == old(self).delay(),
    {
        self.last_trigger = None;
    }
}

} // verus!
