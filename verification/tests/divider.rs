use tone_player::divider::{compute_divider, Divider, DividerError, FIELD_RANGE};

fn pair(input_clock_hz: u64, target_freq_hz: u64) -> (u16, u16) {
    let d = compute_divider(input_clock_hz, target_freq_hz).unwrap();
    (d.prescaler, d.period)
}

#[test]
fn concert_pitch_at_72_mhz() {
    assert_eq!(72_000_000u64 / 440, 163636);
    assert_eq!(
        compute_divider(72_000_000, 440),
        Ok(Divider { prescaler: 2, period: 54545 })
    );
}

#[test]
fn exact_pairs_for_given_clocks() {
    assert_eq!(pair(36_000_000, 440), (1, 40909));
    assert_eq!(pair(72_000_000, 622), (1, 57877));
    assert_eq!(pair(72_000_000, 493), (2, 48681));
    assert_eq!(pair(8_000_000, 220), (0, 36363));
    assert_eq!(pair(72_000_000, 16), (68, 65217));
}

#[test]
fn corners_of_the_audio_range() {
    assert_eq!(pair(72_000_000, 20), (54, 65454));
    assert_eq!(pair(1_000_000, 20_000), (0, 50));
    assert_eq!(pair(200_000_000, 20), (152, 65359));
}

#[test]
fn target_above_the_clock_gives_zero_fields() {
    assert_eq!(pair(100, 440), (0, 0));
    assert_eq!(pair(0, 1), (0, 0));
}

#[test]
fn prescaler_steps_in_at_65536_ticks() {
    assert_eq!(FIELD_RANGE, 65536);
    assert_eq!(pair(65535, 1), (0, 65535));
    assert_eq!(pair(65536, 1), (1, 32768));
    assert_eq!(pair(131071, 1), (1, 65535));
}

#[test]
fn longest_cycle_that_splits() {
    assert_eq!(pair(0xffff_ffff, 1), (65535, 65535));
    assert_eq!(pair(0x1_ffff_fffe, 2), (65535, 65535));
}

#[test]
fn cycle_of_two_to_32_ticks_is_too_long() {
    assert_eq!(
        compute_divider(0x1_0000_0000, 1),
        Err(DividerError::FrequencyTooLow)
    );
    assert_eq!(
        compute_divider(u64::MAX, 1),
        Err(DividerError::FrequencyTooLow)
    );
    assert_eq!(
        compute_divider(1_000_000_000_000, 100),
        Err(DividerError::FrequencyTooLow)
    );
}

#[test]
fn prescaler_is_narrowed_not_wrapped() {
    // 65536 * 65536 ticks: the prescaler would be 65536, which wraps to 0.
    assert!(compute_divider(65536 * 65536, 1).is_err());
    // 300 * 65536 ticks: the prescaler is 300, not 300 modulo 256.
    assert_eq!(pair(300 * 65536, 1).0, 300);
}

#[test]
fn period_counts_in_steps_of_prescaler_plus_one() {
    // The widened prescaler enters the second division.
    let (prescaler, period) = pair(10_000_000, 1);
    assert_eq!(prescaler, 152);
    assert_eq!(period, (10_000_000u64 / 153) as u16);
    assert_eq!(period, 65359);
}

#[test]
fn divider_brackets_the_cycle_over_the_audio_range() {
    let clocks: [u64; 6] = [1_000_000, 8_000_000, 36_000_000, 72_000_000, 168_000_000, 200_000_000];
    for &clock in clocks.iter() {
        let mut freq: u64 = 20;
        while freq <= 20_000 {
            let ticks = clock / freq;
            let d = compute_divider(clock, freq).unwrap();
            let step = d.prescaler as u64 + 1;
            let period = d.period as u64;
            assert_eq!(d.prescaler as u64, ticks / 65536);
            assert_eq!(period, ticks / step);
            assert!(step * period <= ticks);
            assert!(ticks < step * (period + 1));
            assert!(ticks - step * period <= d.prescaler as u64);
            assert!(freq * step * period <= clock);
            assert!(clock < freq * step * (period + 1));
            assert!(clock / (step * (period + 1)) < freq);
            freq += 37;
        }
    }
}

#[test]
fn every_32_bit_clock_has_a_divider() {
    let clocks: [u64; 5] = [0, 1, 65535, 4_000_000_000, 0xffff_ffff];
    let freqs: [u64; 5] = [1, 2, 16, 440, 0xffff_ffff];
    for &clock in clocks.iter() {
        for &freq in freqs.iter() {
            assert!(compute_divider(clock, freq).is_ok());
        }
    }
}
