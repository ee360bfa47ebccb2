use tone_player::divider::DividerError;
use tone_player::timer::{set_pwn_freq, CountMode, Timer};

#[test]
fn new_timer_is_stopped_and_closed() {
    let t = Timer::new();
    assert_eq!(
        t,
        Timer {
            prescaler: 0,
            period: 0,
            mode: CountMode::Up,
            one_shot: false,
            counting: false,
            output_enabled: false,
        }
    );
}

#[test]
fn program_timer_writes_fields_and_starts_counter() {
    let mut t = Timer::new();
    t.program_timer(2, 54545);
    assert_eq!(t.prescaler, 2);
    assert_eq!(t.period, 54545);
    assert_eq!(t.mode, CountMode::Up);
    assert!(!t.one_shot);
    assert!(t.counting);
    assert!(!t.output_enabled);
}

#[test]
fn program_timer_resets_the_counting_mode() {
    let mut t = Timer {
        prescaler: 7,
        period: 9,
        mode: CountMode::CenterAligned,
        one_shot: true,
        counting: false,
        output_enabled: true,
    };
    t.program_timer(1, 40909);
    assert_eq!(
        t,
        Timer {
            prescaler: 1,
            period: 40909,
            mode: CountMode::Up,
            one_shot: false,
            counting: true,
            output_enabled: true,
        }
    );
}

#[test]
fn program_timer_twice_is_program_timer_once() {
    let mut once = Timer::new();
    once.program_timer(2, 54545);
    let mut twice = Timer::new();
    twice.program_timer(2, 54545);
    twice.program_timer(2, 54545);
    assert_eq!(once, twice);
}

#[test]
fn later_program_overrides_earlier() {
    let mut t = Timer::new();
    t.program_timer(2, 54545);
    t.program_timer(1, 45918);
    let mut direct = Timer::new();
    direct.program_timer(1, 45918);
    assert_eq!(t, direct);
}

#[test]
fn gate_leaves_the_divider_alone() {
    let mut t = Timer::new();
    t.program_timer(2, 54545);
    t.enable();
    assert!(t.output_enabled);
    assert_eq!((t.prescaler, t.period, t.counting), (2, 54545, true));
    t.enable();
    assert!(t.output_enabled);
    t.disable();
    assert!(!t.output_enabled);
    assert_eq!((t.prescaler, t.period, t.counting), (2, 54545, true));
}

#[test]
fn set_pwn_freq_programs_the_computed_divider() {
    let mut t = Timer::new();
    t.enable();
    assert_eq!(set_pwn_freq(&mut t, 72_000_000, 440), Ok(()));
    assert_eq!(
        t,
        Timer {
            prescaler: 2,
            period: 54545,
            mode: CountMode::Up,
            one_shot: false,
            counting: true,
            output_enabled: true,
        }
    );
}

#[test]
fn set_pwn_freq_leaves_timer_alone_on_error() {
    let mut t = Timer::new();
    t.program_timer(2, 54545);
    let before = t;
    assert_eq!(
        set_pwn_freq(&mut t, 0x1_0000_0000, 1),
        Err(DividerError::FrequencyTooLow)
    );
    assert_eq!(t, before);
}
