//! From an input clock and a target frequency to the two 16-bit fields of a
//! timer: the prescaler and the auto-reload period.

use vstd::prelude::*;

verus! {

/// The number of values of a 16-bit timer field.
pub const FIELD_RANGE: u64 = 65536;

/// The two divider fields of a timer. The timer divides its input clock by
/// `prescaler + 1` and starts a new output cycle when its counter reaches
/// `period`.
#[derive(Clone, Copy, Debug, PartialEq, Eq, Structural)]
pub struct Divider {
    pub prescaler: u16,
    pub period: u16,
}

/// Why no divider could be computed.
#[derive(Clone, Copy, Debug, PartialEq, Eq, Structural)]
pub enum DividerError {
    /// The target frequency is too low for the input clock: one output cycle
    /// takes more input clock ticks than two 16-bit fields can count.
    FrequencyTooLow,
}

/// `cast::Error`, the reason why `cast` refuses a number. Nothing is said of
/// what it holds.
#[verifier::external_type_specification]
#[verifier::external_body]
pub struct ExCastError(cast::Error);

/// Input clock ticks in one cycle of the target frequency, rounded down.
pub open spec fn ticks_per_cycle(input_clock_hz: nat, target_freq_hz: nat) -> nat
    recommends
        target_freq_hz > 0,
{
    input_clock_hz / target_freq_hz
}

/// The prescaler for a cycle of `ticks` input clock ticks.
pub open spec fn prescaler_for(ticks: nat) -> nat {
    ticks / (FIELD_RANGE as nat)
}

/// The period for a cycle of `ticks` input clock ticks.
pub open spec fn period_for(ticks: nat) -> nat {
    ticks / (prescaler_for(ticks) + 1)
}

/// Whether a cycle of `ticks` input clock ticks can be split into two 16-bit
/// fields.
pub open spec fn splits(ticks: nat) -> bool {
    prescaler_for(ticks) <= u16::MAX
}

/// The divider for a target frequency at an input clock, or the reason why
/// there is none.
pub open spec fn divider_for(input_clock_hz: nat, target_freq_hz: nat) -> Result<
    Divider,
    DividerError,
>
    recommends
        target_freq_hz > 0,
{
    let ticks = ticks_per_cycle(input_clock_hz, target_freq_hz);
    if splits(ticks) {
        Ok(Divider { prescaler: prescaler_for(ticks) as u16, period: period_for(ticks) as u16 })
    } else {
        Err(DividerError::FrequencyTooLow)
    }
}

/// `cast::u16` on a `u64`. Believed, not proved: the result is the same
/// number as a `u16` where `x` is at most `u16::MAX`, and an error where it
/// is greater.
#[verifier::external_body]
fn narrow_to_u16(x: u64) -> (r: Result<u16, cast::Error>)
    ensures
        r is Ok <==> x <= u16::MAX,
        r is Ok ==> r->Ok_0 == x,
{
    cast::u16(x)
}

/// `cast::u64` on a `u16`. Believed, not proved: the result is the same
/// number as a `u64`.
#[verifier::external_body]
fn widen_to_u64(x: u16) -> (r: u64)
    ensures
        r == x,
{
    cast::u64(x)
}

/// A period never needs more than 16 bits once the prescaler fits in 16.
pub proof fn lemma_period_fits(ticks: nat)
    requires
        splits(ticks),
    ensures
        period_for(ticks) <= u16::MAX,
{
    let p = prescaler_for(ticks);
    assert(ticks < 65536 * (p + 1)) by (nonlinear_arith)
        requires
            p == ticks / 65536,
    ;
    assert(ticks / (p + 1) < 65536) by (nonlinear_arith)
        requires
            ticks < 65536 * (p + 1),
    ;
}

/// A cycle splits into two 16-bit fields exactly when it is shorter than
/// 2^32 input clock ticks.
pub proof fn lemma_splits_iff_below_two_to_32(ticks: nat)
    ensures
        splits(ticks) <==> ticks < 0x1_0000_0000,
{
}

/// Every target frequency above zero has a divider at every input clock that
/// fits in 32 bits.
pub proof fn lemma_divider_exists_for_32_bit_clock(input_clock_hz: nat, target_freq_hz: nat)
    requires
        target_freq_hz > 0,
        input_clock_hz <= u32::MAX,
    ensures
        divider_for(input_clock_hz, target_freq_hz) is Ok,
{
    assert(input_clock_hz / target_freq_hz <= input_clock_hz) by (nonlinear_arith)
        requires
            target_freq_hz > 0,
    ;
}

/// The cycle that a divider counts out is the longest multiple of
/// `prescaler + 1` that does not exceed the cycle asked for: `period` steps
/// of `prescaler + 1` ticks fit into `ticks`, one step more does not.
pub proof fn lemma_divider_brackets_ticks(ticks: nat)
    ensures
        (prescaler_for(ticks) + 1) * period_for(ticks) <= ticks,
        ticks < (prescaler_for(ticks) + 1) * (period_for(ticks) + 1),
        ticks - (prescaler_for(ticks) + 1) * period_for(ticks) <= prescaler_for(ticks),
{
    let step = prescaler_for(ticks) + 1;
    let a = period_for(ticks);
    assert(step * a <= ticks && ticks < step * (a + 1) && ticks - step * a <= step - 1)
        by (nonlinear_arith)
        requires
            step > 0,
            a == ticks / step,
    ;
}

/// The target frequency lies between the frequencies of the two cycle
/// lengths next to it: a cycle of `period` prescaled steps is not slower
/// than the target, a cycle of `period + 1` steps is slower.
pub proof fn lemma_divider_brackets_frequency(input_clock_hz: nat, target_freq_hz: nat)
    requires
        target_freq_hz > 0,
    ensures
        ({
            let ticks = ticks_per_cycle(input_clock_hz, target_freq_hz);
            let step = prescaler_for(ticks) + 1;
            &&& target_freq_hz * (step * period_for(ticks)) <= input_clock_hz
            &&& input_clock_hz < target_freq_hz * (step * (period_for(ticks) + 1))
        }),
{
    let ticks = ticks_per_cycle(input_clock_hz, target_freq_hz);
    let low = (prescaler_for(ticks) + 1) * period_for(ticks);
    let high = (prescaler_for(ticks) + 1) * (period_for(ticks) + 1);
    lemma_divider_brackets_ticks(ticks);
    assert(target_freq_hz * low <= input_clock_hz && input_clock_hz < target_freq_hz * high)
        by (nonlinear_arith)
        requires
            target_freq_hz > 0,
            ticks == input_clock_hz / target_freq_hz,
            low <= ticks,
            ticks < high,
    ;
}

/// Computes the divider that makes a timer with input clock `input_clock_hz`
/// run at `target_freq_hz`, as closely as two truncating divisions allow.
pub fn compute_divider(input_clock_hz: u64, target_freq_hz: u64) -> (r: Result<
    Divider,
    DividerError,
>)
    requires
        target_freq_hz > 0,
    ensures
        r == divider_for(input_clock_hz as nat, target_freq_hz as nat),
{
    let ticks: u64 = input_clock_hz / target_freq_hz;
    let prescaler: u16 = match narrow_to_u16(ticks / FIELD_RANGE) {
        Ok(p) => p,
        Err(_) => {
            return Err(DividerError::FrequencyTooLow);
        },
    };
    proof {
        lemma_period_fits(ticks as nat);
    }
    let cycles: u64 = ticks / (widen_to_u64(prescaler) + 1);
    match narrow_to_u16(cycles) {
        Ok(period) => Ok(Divider { prescaler, period }),
        Err(_) => Err(DividerError::FrequencyTooLow),
    }
}

} // verus!
