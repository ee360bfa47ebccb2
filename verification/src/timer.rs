//! The state of the timer that makes the square wave, as far as the player
//! sets it: the divider fields, the counting mode and the output gate.

use crate::divider::{
    compute_divider, divider_for, lemma_divider_brackets_ticks, lemma_period_fits, ticks_per_cycle,
    Divider, DividerError,
};
use vstd::prelude::*;

verus! {

/// How the counter of a timer runs.
#[derive(Clone, Copy, Debug, PartialEq, Eq, Structural)]
pub enum CountMode {
    /// From zero up to the period, then again from zero.
    Up,
    /// From the period down to zero, then again from the period.
    Down,
    /// Up and down in turn.
    CenterAligned,
}

/// The programmed state of a timer.
#[derive(Clone, Copy, Debug, PartialEq, Eq, Structural)]
pub struct Timer {
    /// The input clock is divided by `prescaler + 1`.
    pub prescaler: u16,
    /// The counter starts a new cycle when it reaches `period`.
    pub period: u16,
    /// The direction of counting.
    pub mode: CountMode,
    /// Whether the counter stops at the end of its first cycle.
    pub one_shot: bool,
    /// Whether the counter is running.
    pub counting: bool,
    /// Whether the square wave reaches the output pin.
    pub output_enabled: bool,
}

impl Timer {
    /// The timer after `divider` was programmed: the two fields are written
    /// and the counter runs upwards, cycle after cycle. The output gate is
    /// left as it was.
    pub open spec fn programmed(self, divider: Divider) -> Timer {
        Timer {
            prescaler: divider.prescaler,
            period: divider.period,
            mode: CountMode::Up,
            one_shot: false,
            counting: true,
            output_enabled: self.output_enabled,
        }
    }

    /// The timer with its output gate set to `on`.
    pub open spec fn gated(self, on: bool) -> Timer {
        Timer { output_enabled: on, ..self }
    }

    /// The divider fields of the timer.
    pub open spec fn divider(self) -> Divider {
        Divider { prescaler: self.prescaler, period: self.period }
    }

    /// Input clock ticks in one output cycle.
    pub open spec fn cycle_ticks(self) -> nat {
        ((self.prescaler + 1) * (self.period + 1)) as nat
    }

    /// The frequency of the square wave at an input clock, in whole hertz,
    /// 0 while the counter is stopped.
    pub open spec fn output_frequency(self, input_clock_hz: nat) -> nat {
        if self.counting {
            input_clock_hz / self.cycle_ticks()
        } else {
            0
        }
    }

    /// A stopped timer with both fields zero and the output off.
    pub open spec fn new_spec() -> Timer {
        Timer {
            prescaler: 0,
            period: 0,
            mode: CountMode::Up,
            one_shot: false,
            counting: false,
            output_enabled: false,
        }
    }

    /// A stopped timer with both fields zero and the output off.
    #[verifier::when_used_as_spec(new_spec)]
    pub fn new() -> (t: Timer)
        ensures
            t == Timer::new_spec(),
    {
        Timer {
            prescaler: 0,
            period: 0,
            mode: CountMode::Up,
            one_shot: false,
            counting: false,
            output_enabled: false,
        }
    }

    /// Writes the prescaler and the period and starts the counter, counting
    /// up and without end, whatever the timer did before.
    pub fn program_timer(&mut self, prescaler: u16, period: u16)
        ensures
            *final(self) == old(self).programmed((Divider { prescaler, period })),
    {
        self.prescaler = prescaler;
        self.period = period;
        self.mode = CountMode::Up;
        self.one_shot = false;
        self.counting = true;
    }

    /// Lets the square wave reach the output pin.
    pub fn enable(&mut self)
        ensures
            *final(self) == old(self).gated(true),
    {
        self.output_enabled = true;
    }

    /// Keeps the square wave from the output pin.
    pub fn disable(&mut self)
        ensures
            *final(self) == old(self).gated(false),
    {
        self.output_enabled = false;
    }
}

/// Programming a timer twice with the same divider leaves it as programming
/// it once does, and so at the same output frequency.
pub proof fn lemma_program_idempotent(timer: Timer, divider: Divider, input_clock_hz: nat)
    ensures
        timer.programmed(divider).programmed(divider) == timer.programmed(divider),
        timer.programmed(divider).programmed(divider).output_frequency(input_clock_hz)
            == timer.programmed(divider).output_frequency(input_clock_hz),
{
}

/// Programming a timer leaves no trace of what was programmed before.
pub proof fn lemma_program_overrides(timer: Timer, earlier: Divider, later: Divider)
    ensures
        timer.programmed(earlier).programmed(later) == timer.programmed(later),
{
}

/// A programmed timer counts out cycles of `(prescaler + 1) * (period + 1)`
/// input clock ticks, whatever it did before.
pub proof fn lemma_programmed_frequency(timer: Timer, divider: Divider, input_clock_hz: nat)
    ensures
        timer.programmed(divider).output_frequency(input_clock_hz) == input_clock_hz / (((
        divider.prescaler + 1) * (divider.period + 1)) as nat),
{
}

/// A timer that was programmed with the divider of a target frequency
/// counts out a cycle that is longer than the cycle asked for, by one input
/// clock tick at least and by `prescaler + 1` ticks at most. So the square
/// wave is slower than the target, by less than one step of the period.
pub proof fn lemma_programmed_cycle_exceeds_ticks(
    timer: Timer,
    input_clock_hz: nat,
    target_freq_hz: nat,
)
    requires
        target_freq_hz > 0,
        divider_for(input_clock_hz, target_freq_hz) is Ok,
    ensures
        ({
            let divider = divider_for(input_clock_hz, target_freq_hz)->Ok_0;
            let ticks = ticks_per_cycle(input_clock_hz, target_freq_hz);
            let programmed = timer.programmed(divider);
            &&& ticks < programmed.cycle_ticks() <= ticks + divider.prescaler + 1
            &&& programmed.output_frequency(input_clock_hz) < target_freq_hz
        }),
{
    let divider = divider_for(input_clock_hz, target_freq_hz)->Ok_0;
    let ticks = ticks_per_cycle(input_clock_hz, target_freq_hz);
    let cycle = timer.programmed(divider).cycle_ticks();
    lemma_period_fits(ticks);
    lemma_divider_brackets_ticks(ticks);
    let step = divider.prescaler + 1;
    let period = divider.period as int;
    assert(step * (period + 1) == step * period + step) by (nonlinear_arith);
    assert(input_clock_hz / cycle < target_freq_hz) by (nonlinear_arith)
        requires
            target_freq_hz > 0,
            ticks == input_clock_hz / target_freq_hz,
            cycle > ticks,
    ;
}

/// Sets the timer to a frequency: computes the divider for `freq_hz` at
/// `input_clock_hz` and programs it. Where there is no divider the timer is
/// left as it was.
pub fn set_pwn_freq(timer: &mut Timer, input_clock_hz: u64, freq_hz: u64) -> (r: Result<
    (),
    DividerError,
>)
    requires
        freq_hz > 0,
    ensures
        match divider_for(input_clock_hz as nat, freq_hz as nat) {
            Ok(divider) => r is Ok && *final(timer) == old(timer).programmed(divider),
            Err(e) => r is Err && r->Err_0 == e && *final(timer) == *old(timer),
        },
{
    match compute_divider(input_clock_hz, freq_hz) {
        Ok(divider) => {
            timer.program_timer(divider.prescaler, divider.period);
            Ok(())
        },
        Err(e) => Err(e),
    }
}

} // verus!
