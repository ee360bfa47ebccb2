use tone_player::divider::{Divider, DividerError};
use tone_player::note::Note;
use tone_player::sequencer::{
    play_cycle, play_repeated, play_song, play_tone, Command, MELODY_REPEATS, PAUSE_MS,
    TIME_UNIT_MS,
};
use tone_player::tone::Tone;

const CLOCK: u64 = 72_000_000;

fn program(prescaler: u16, period: u16) -> Command {
    Command::Program(Divider { prescaler, period })
}

fn count_programs(trace: &[Command]) -> usize {
    trace.iter().filter(|c| matches!(c, Command::Program(_))).count()
}

fn count_pauses(trace: &[Command]) -> usize {
    trace.iter().filter(|c| matches!(c, Command::Pause(_))).count()
}

#[test]
fn fixed_times() {
    assert_eq!(TIME_UNIT_MS, 100);
    assert_eq!(PAUSE_MS, 10);
    assert_eq!(MELODY_REPEATS, 3);
}

#[test]
fn pitched_tone_programs_opens_holds_closes_pauses() {
    let trace = play_tone(CLOCK, &Tone::new(Note::A, 4, 1)).unwrap();
    assert_eq!(
        trace,
        vec![
            program(2, 54545),
            Command::Enable,
            Command::Hold(100),
            Command::Disable,
            Command::Pause(10),
        ]
    );
}

#[test]
fn silence_holds_closes_pauses() {
    let trace = play_tone(CLOCK, &Tone::new(Note::S, 0, 2)).unwrap();
    assert_eq!(
        trace,
        vec![Command::Hold(200), Command::Disable, Command::Pause(10)]
    );
}

#[test]
fn hold_scales_the_duration_without_wrapping() {
    let trace = play_tone(CLOCK, &Tone::new(Note::S, 0, 0)).unwrap();
    assert_eq!(trace[0], Command::Hold(0));
    let trace = play_tone(CLOCK, &Tone::new(Note::S, 0, 656)).unwrap();
    assert_eq!(trace[0], Command::Hold(65_600));
    let trace = play_tone(CLOCK, &Tone::new(Note::A, 4, u16::MAX)).unwrap();
    assert_eq!(trace[2], Command::Hold(6_553_500));
}

#[test]
fn divider_follows_the_input_clock() {
    let trace = play_tone(36_000_000, &Tone::new(Note::C, 5, 1)).unwrap();
    assert_eq!(trace[0], program(1, 34416));
    let trace = play_tone(CLOCK, &Tone::new(Note::C, 5, 1)).unwrap();
    assert_eq!(trace[0], program(2, 45889));
}

#[test]
fn song_of_c_rest_g() {
    let song = [
        Tone::new(Note::C, 5, 1),
        Tone::new(Note::S, 0, 1),
        Tone::new(Note::G, 5, 2),
    ];
    let trace = play_song(CLOCK, &song).unwrap();
    assert_eq!(
        trace,
        vec![
            program(2, 45889),
            Command::Enable,
            Command::Hold(100),
            Command::Disable,
            Command::Pause(10),
            Command::Hold(100),
            Command::Disable,
            Command::Pause(10),
            program(1, 45918),
            Command::Enable,
            Command::Hold(200),
            Command::Disable,
            Command::Pause(10),
        ]
    );
}

#[test]
fn empty_song_has_no_commands() {
    assert_eq!(play_song(CLOCK, &[]), Ok(vec![]));
    assert_eq!(play_repeated(CLOCK, &[], 3), Ok(vec![]));
    assert_eq!(play_cycle(CLOCK, &[], &[], 3), Ok(vec![]));
}

#[test]
fn silent_song_pauses_once_per_tone_and_never_programs() {
    for n in [0usize, 1, 2, 7, 50] {
        let song: Vec<Tone> = (0..n).map(|i| Tone::new(Note::S, i as u32, 1 + i as u16)).collect();
        for clock in [0u64, CLOCK, u64::MAX] {
            let trace = play_song(clock, &song).unwrap();
            assert_eq!(count_programs(&trace), 0);
            assert_eq!(count_pauses(&trace), n);
            assert_eq!(trace.len(), 3 * n);
            assert!(!trace.contains(&Command::Enable));
        }
    }
}

#[test]
fn song_programs_once_per_pitched_tone() {
    let song = [
        Tone::new(Note::FS, 5, 2),
        Tone::new(Note::S, 0, 1),
        Tone::new(Note::B, 4, 1),
        Tone::new(Note::S, 0, 1),
        Tone::new(Note::D, 5, 1),
    ];
    let trace = play_song(CLOCK, &song).unwrap();
    assert_eq!(count_programs(&trace), 3);
    assert_eq!(count_pauses(&trace), 5);
    assert_eq!(trace.len(), 3 * 5 + 2 * 3);
}

#[test]
fn program_stands_between_pause_and_enable() {
    let song = [
        Tone::new(Note::DS, 5, 1),
        Tone::new(Note::E, 5, 1),
        Tone::new(Note::S, 0, 1),
        Tone::new(Note::FS, 5, 2),
    ];
    let trace = play_song(CLOCK, &song).unwrap();
    for (i, c) in trace.iter().enumerate() {
        if matches!(c, Command::Program(_)) {
            assert_eq!(trace[i + 1], Command::Enable);
            if i > 0 {
                assert_eq!(trace[i - 1], Command::Pause(10));
            }
        }
    }
    assert_eq!(*trace.last().unwrap(), Command::Pause(10));
}

#[test]
fn repeats_are_copies_of_one_pass() {
    let melody = [
        Tone::new(Note::FS, 5, 2),
        Tone::new(Note::GS, 5, 2),
        Tone::new(Note::DS, 5, 1),
        Tone::new(Note::S, 0, 1),
        Tone::new(Note::B, 4, 1),
    ];
    let once = play_song(CLOCK, &melody).unwrap();
    for k in 0..5u32 {
        let mut expected: Vec<Command> = Vec::new();
        for _ in 0..k {
            expected.extend_from_slice(&once);
        }
        assert_eq!(play_repeated(CLOCK, &melody, k), Ok(expected));
    }
}

#[test]
fn repeats_are_the_song_written_out() {
    let melody = [Tone::new(Note::D, 5, 1), Tone::new(Note::S, 0, 2)];
    let mut written_out: Vec<Tone> = Vec::new();
    for _ in 0..3 {
        written_out.extend_from_slice(&melody);
    }
    assert_eq!(
        play_repeated(CLOCK, &melody, 3),
        play_song(CLOCK, &written_out)
    );
}

#[test]
fn cycle_is_intro_then_melody_repeated() {
    let intro = [Tone::new(Note::DS, 5, 1), Tone::new(Note::E, 5, 1)];
    let melody = [Tone::new(Note::FS, 5, 2), Tone::new(Note::S, 0, 1)];
    let mut expected = play_song(CLOCK, &intro).unwrap();
    let pass = play_song(CLOCK, &melody).unwrap();
    for _ in 0..MELODY_REPEATS {
        expected.extend_from_slice(&pass);
    }
    let cycle = play_cycle(CLOCK, &intro, &melody, MELODY_REPEATS).unwrap();
    assert_eq!(cycle, expected);
    assert_eq!(cycle.len(), 2 * 5 + 3 * (5 + 3));
    assert_eq!(play_cycle(CLOCK, &intro, &melody, 0).unwrap(), play_song(CLOCK, &intro).unwrap());
}

#[test]
fn tone_too_low_for_the_clock_is_an_error() {
    let clock: u64 = 1 << 40;
    let low = Tone::new(Note::C, 0, 1);
    let high = Tone::new(Note::C, 30, 1);
    let rest = Tone::new(Note::S, 0, 1);
    assert_eq!(play_tone(clock, &low), Err(DividerError::FrequencyTooLow));
    assert_eq!(play_tone(clock, &high).unwrap()[0], program(0, 256));
    assert!(play_tone(clock, &rest).is_ok());
}

#[test]
fn one_unplayable_tone_stops_the_whole_song() {
    let clock: u64 = 1 << 40;
    let low = Tone::new(Note::C, 0, 1);
    let high = Tone::new(Note::C, 30, 1);
    let rest = Tone::new(Note::S, 0, 1);
    assert!(play_song(clock, &[high, rest, high]).is_ok());
    assert_eq!(
        play_song(clock, &[high, rest, low]),
        Err(DividerError::FrequencyTooLow)
    );
    assert_eq!(
        play_song(clock, &[low, high]),
        Err(DividerError::FrequencyTooLow)
    );
    assert_eq!(
        play_repeated(clock, &[high, low], 2),
        Err(DividerError::FrequencyTooLow)
    );
    assert_eq!(play_repeated(clock, &[high, low], 0), Ok(vec![]));
    assert_eq!(
        play_cycle(clock, &[low], &[high], 1),
        Err(DividerError::FrequencyTooLow)
    );
    assert_eq!(
        play_cycle(clock, &[high], &[low], 1),
        Err(DividerError::FrequencyTooLow)
    );
    assert!(play_cycle(clock, &[high], &[low], 0).is_ok());
}

#[test]
fn every_tone_is_playable_at_a_32_bit_clock() {
    let notes = [Note::C, Note::FS, Note::B, Note::S];
    for clock in [0u64, 1, 1_000_000, CLOCK, 0xffff_ffff] {
        for &note in notes.iter() {
            for octave in [0u32, 4, 8, 27, 28, 99] {
                assert!(play_tone(clock, &Tone::new(note, octave, 1)).is_ok());
            }
        }
    }
}
