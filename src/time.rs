use vstd::arithmetic::div_mod::{
    lemma_fundamental_div_mod,
    lemma_fundamental_div_mod_converse_div,
    lemma_fundamental_div_mod_converse_mod,
};
use vstd::prelude::*;

use std::time::Duration;
use std::time::Instant;

verus! {

#[verifier::external_type_specification]
#[verifier::external_body]
pub struct ExInstant(std::time::Instant);

/// Relies on std::time::Instant::now for a reading of the monotonic clock; nothing is
/// known of its value.
pub assume_specification[ std::time::Instant::now ]() -> std::time::Instant;

/// Relies on std::time::Instant::duration_since for the time between two clock
/// readings; it saturates at zero rather than panicking.
pub assume_specification[ std::time::Instant::duration_since ](
    this: &std::time::Instant,
    earlier: std::time::Instant,
) -> std::time::Duration;

/// Relies on core::time::Duration::as_millis for the whole milliseconds of a duration.
pub assume_specification[ core::time::Duration::as_millis ](d: &core::time::Duration) -> u128;

/// Thousandths of a tick in one tick: elapsed milliseconds times the rate in hertz
/// counts thousandths of a tick.
pub const TICK_PARTS: u64 = 1000;

/// The default tick rate, in ticks per second.
pub const DEFAULT_RATE: u64 = 60;

/// Whole ticks in `elapsed_ms` milliseconds at `rate` ticks a second, counting the
/// `carried` thousandths of a tick left over from before.
pub open spec fn tick_count(carried: nat, rate: nat, elapsed_ms: nat) -> nat {
    (carried + elapsed_ms * rate) / 1000
}

/// The thousandths of a tick left over after `tick_count(carried, rate, elapsed_ms)`.
pub open spec fn carried_after(carried: nat, rate: nat, elapsed_ms: nat) -> nat {
    (carried + elapsed_ms * rate) % 1000
}

/// A counter after `ticks` decrements, stopping at zero.
pub open spec fn count_down(value: nat, ticks: nat) -> nat {
    if value > ticks {
        (value - ticks) as nat
    } else {
        0
    }
}

/// The delay and sound counters, which count down at a fixed rate in real time.
#[derive(Debug)]
pub struct Timers {
    pub delay: usize,
    pub sound: usize,
    prev_tick: Instant,
    remainder: u64,
    rate: u64,
}

impl Timers {
    /// The delay counter.
    pub closed spec fn spec_delay(&self) -> nat {
        self.delay as nat
    }

    /// The sound counter.
    pub closed spec fn spec_sound(&self) -> nat {
        self.sound as nat
    }

    /// Thousandths of a tick carried to the next advance.
    pub closed spec fn spec_remainder(&self) -> nat {
        self.remainder as nat
    }

    /// Ticks per second.
    pub closed spec fn spec_rate(&self) -> nat {
        self.rate as nat
    }

    /// The clock reading of the last advance.
    pub closed spec fn spec_prev_tick(&self) -> Instant {
        self.prev_tick
    }

    /// Less than a whole tick is carried, and the rate is at most a million ticks a second.
    pub closed spec fn wf(&self) -> bool {
        self.remainder < 1000 && self.rate <= 1_000_000
    }

    /// Both counters at zero, 60 ticks a second, starting from the clock reading now.
    pub fn new() -> (r: Self)
        ensures
            r.wf(),
            r.spec_delay() == 0,
            r.spec_sound() == 0,
            r.spec_remainder() == 0,
            r.spec_rate() == DEFAULT_RATE,
    {
        Timers { delay: 0, sound: 0, prev_tick: Instant::now(), remainder: 0, rate: DEFAULT_RATE }
    }

    pub fn delay(&self) -> (r: usize)
        ensures
            r == self.spec_delay(),
    {
        self.delay
    }

    pub fn sound(&self) -> (r: usize)
        ensures
            r == self.spec_sound(),
    {
        self.sound
    }

    /// Sets the delay counter, leaving the rest as it was.
    pub fn set_delay(&mut self, value: usize)
        ensures
            final(self).spec_delay() == value,
            final(self).spec_sound() == old(self).spec_sound(),
            final(self).spec_remainder() == old(self).spec_remainder(),
            final(self).spec_rate() == old(self).spec_rate(),
            final(self).spec_prev_tick() == old(self).spec_prev_tick(),
            final(self).wf() == old(self).wf(),
    {
        self.delay = value;
    }

    /// Sets the sound counter, leaving the rest as it was.
    pub fn set_sound(&mut self, value: usize)
        ensures
            final(self).spec_sound() == value,
            final(self).spec_delay() == old(self).spec_delay(),
            final(self).spec_remainder() == old(self).spec_remainder(),
            final(self).spec_rate() == old(self).spec_rate(),
            final(self).spec_prev_tick() == old(self).spec_prev_tick(),
            final(self).wf() == old(self).wf(),
    {
        self.sound = value;
    }

    /// The sound counter is running, so a tone plays.
    pub fn is_sound_on(&self) -> (r: bool)
        ensures
            r == (self.spec_sound() > 0),
    {
        self.sound > 0
    }

    fn single_tick(&mut self)
        ensures
            final(self).delay == count_down(old(self).delay as nat, 1),
            final(self).sound == count_down(old(self).sound as nat, 1),
            final(self).prev_tick == old(self).prev_tick,
            final(self).remainder == old(self).remainder,
            final(self).rate == old(self).rate,
    {
        if self.delay > 0 {
            self.delay -= 1;
        }
        if self.sound > 0 {
            self.sound -= 1;
        }
    }

    /// Counts `elapsed_ms` milliseconds of real time: each counter goes down by one for
    /// each whole tick in that time and what was carried, stopping at zero, and the part
    /// of a tick left over is carried to the next call.
    pub fn advance_millis(&mut self, elapsed_ms: u64)
        requires
            old(self).wf(),
        ensures
            final(self).wf(),
            final(self).spec_delay() == count_down(
                old(self).spec_delay(),
                tick_count(old(self).spec_remainder(), old(self).spec_rate(), elapsed_ms as nat),
            ),
            final(self).spec_sound() == count_down(
                old(self).spec_sound(),
                tick_count(old(self).spec_remainder(), old(self).spec_rate(), elapsed_ms as nat),
            ),
            final(self).spec_remainder() == carried_after(
                old(self).spec_remainder(),
                old(self).spec_rate(),
                elapsed_ms as nat,
            ),
            final(self).spec_rate() == old(self).spec_rate(),
            final(self).spec_prev_tick() == old(self).spec_prev_tick(),
    {
        assert(elapsed_ms as u128 * self.rate as u128 <= 0x1_0000_0000_0000_0000 * 1_000_000)
            by (nonlinear_arith)
            requires
                self.rate <= 1_000_000,
        ;
        let total: u128 = self.remainder as u128 + elapsed_ms as u128 * self.rate as u128;
        let ticks: u128 = total / TICK_PARTS as u128;
        self.remainder = (total % TICK_PARTS as u128) as u64;
        let ghost delay0 = self.delay as nat;
        let ghost sound0 = self.sound as nat;
        let mut done: u128 = 0;
        while done < ticks
            invariant
                done <= ticks,
                self.delay == count_down(delay0, done as nat),
                self.sound == count_down(sound0, done as nat),
                self.remainder < 1000,
                self.rate == old(self).rate,
                self.remainder == (total % 1000) as u64,
                self.prev_tick == old(self).prev_tick,
            ensures
                self.delay == count_down(delay0, ticks as nat),
                self.sound == count_down(sound0, ticks as nat),
                self.remainder == (total % 1000) as u64,
                self.rate == old(self).rate,
                self.prev_tick == old(self).prev_tick,
            decreases ticks - done,
        {
            if self.delay == 0 && self.sound == 0 {
                break;
            }
            self.single_tick();
            done += 1;
        }
    }

    /// Counts the real time since the last advance, as `advance_millis` does, and makes
    /// the clock reading now the start of the next interval.
    pub fn do_ticks(&mut self)
        requires
            old(self).wf(),
        ensures
            final(self).wf(),
            final(self).spec_rate() == old(self).spec_rate(),
            exists|elapsed_ms: nat|
                {
                    &&& final(self).spec_delay() == count_down(
                        old(self).spec_delay(),
                        #[trigger] tick_count(
                            old(self).spec_remainder(),
                            old(self).spec_rate(),
                            elapsed_ms,
                        ),
                    )
                    &&& final(self).spec_sound() == count_down(
                        old(self).spec_sound(),
                        tick_count(old(self).spec_remainder(), old(self).spec_rate(), elapsed_ms),
                    )
                    &&& final(self).spec_remainder() == carried_after(
                        old(self).spec_remainder(),
                        old(self).spec_rate(),
                        elapsed_ms,
                    )
                },
    {
        let now = Instant::now();
        let elapsed: Duration = now.duration_since(self.prev_tick);
        let millis: u128 = elapsed.as_millis();
        let elapsed_ms: u64 = if millis > u64::MAX as u128 {
            u64::MAX
        } else {
            millis as u64
        };
        self.advance_millis(elapsed_ms);
        self.prev_tick = now;
    }
}

impl Default for Timers {
    fn default() -> (r: Self)
        ensures
            r.wf(),
            r.spec_delay() == 0,
            r.spec_sound() == 0,
            r.spec_remainder() == 0,
            r.spec_rate() == DEFAULT_RATE,
    {
        Timers::new()
    }
}

/// One second of real time at 60 ticks a second is exactly 60 ticks, whatever part of
/// a tick was carried in.
pub proof fn lemma_one_second_is_sixty_ticks(carried: nat)
    requires
        carried < 1000,
    ensures
        tick_count(carried, 60, 1000) == 60,
        carried_after(carried, 60, 1000) == carried,
{
    lemma_fundamental_div_mod_converse_div((carried + 1000 * 60) as int, 1000, 60, carried as int);
    lemma_fundamental_div_mod_converse_mod((carried + 1000 * 60) as int, 1000, 60, carried as int);
}

/// Time is never lost or gained between calls: advancing by `a` and then by `b`
/// milliseconds ticks as often, and carries as much, as advancing once by `a + b`.
pub proof fn lemma_no_drift(carried: nat, rate: nat, a: nat, b: nat)
    requires
        carried < 1000,
    ensures
        tick_count(carried, rate, a) + tick_count(carried_after(carried, rate, a), rate, b)
            == tick_count(carried, rate, a + b),
        carried_after(carried_after(carried, rate, a), rate, b) == carried_after(
            carried,
            rate,
            a + b,
        ),
{
    let first = carried + a * rate;
    let t1 = first / 1000;
    let c1 = first % 1000;
    lemma_fundamental_div_mod(first as int, 1000);
    let second = c1 + b * rate;
    let t2 = second / 1000;
    let c2 = second % 1000;
    lemma_fundamental_div_mod(second as int, 1000);
    assert((a + b) * rate == a * rate + b * rate) by (nonlinear_arith);
    let total = carried + (a + b) * rate;
    assert(total == (t1 + t2) * 1000 + c2) by (nonlinear_arith)
        requires
            total == carried + a * rate + b * rate,
            first == carried + a * rate,
            first == 1000 * t1 + c1,
            second == c1 + b * rate,
            second == 1000 * t2 + c2,
    ;
    lemma_fundamental_div_mod_converse_div(total as int, 1000, (t1 + t2) as int, c2 as int);
    lemma_fundamental_div_mod_converse_mod(total as int, 1000, (t1 + t2) as int, c2 as int);
}

/// Counting down by `s` ticks and then by `t` ticks is counting down by `s + t`.
pub proof fn lemma_count_down_adds(value: nat, s: nat, t: nat)
    ensures
        count_down(count_down(value, s), t) == count_down(value, s + t),
{
}

} // verus!
