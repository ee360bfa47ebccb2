//! From a song to the commands that play it: for every tone the timer is
//! programmed and gated, and the caller waits in between.

use crate::divider::{compute_divider, divider_for, Divider, DividerError};
use crate::tone::Tone;
use vstd::prelude::*;

verus! {

/// The time unit of a tone's duration, in milliseconds.
pub const TIME_UNIT_MS: u32 = 100;

/// The pause after every tone, in milliseconds.
pub const PAUSE_MS: u32 = 10;

/// How often the melody is played in one cycle.
pub const MELODY_REPEATS: u32 = 3;

/// One thing for the caller to do. The commands of a song are performed in
/// order, each one after the one before it is done.
#[derive(Clone, Copy, Debug, PartialEq, Eq, Structural)]
pub enum Command {
    /// Program the timer with this divider and restart its counter.
    Program(Divider),
    /// Let the square wave reach the output pin.
    Enable,
    /// Wait this many milliseconds while the tone lasts.
    Hold(u32),
    /// Keep the square wave from the output pin.
    Disable,
    /// Wait this many milliseconds before the next tone.
    Pause(u32),
}

/// How long a tone lasts, in milliseconds.
pub open spec fn hold_ms(tone: Tone) -> nat {
    tone@.duration * (TIME_UNIT_MS as nat)
}

/// Whether a tone can be played at an input clock: it is silence, or its
/// frequency has a divider.
pub open spec fn playable(input_clock_hz: nat, tone: Tone) -> bool {
    tone@.note.is_silence() || divider_for(input_clock_hz, tone@.frequency) is Ok
}

/// The commands that play one tone. A pitched tone programs the timer and
/// opens the output; silence does neither. Both wait for the duration of the
/// tone, close the output and pause.
pub open spec fn tone_trace(input_clock_hz: nat, tone: Tone) -> Seq<Command>
    recommends
        playable(input_clock_hz, tone),
{
    let rest = seq![
        Command::Hold(hold_ms(tone) as u32),
        Command::Disable,
        Command::Pause(PAUSE_MS),
    ];
    if tone@.note.is_silence() {
        rest
    } else {
        seq![
            Command::Program(divider_for(input_clock_hz, tone@.frequency)->Ok_0),
            Command::Enable,
        ] + rest
    }
}

/// Whether every tone of a song can be played at an input clock.
pub open spec fn song_playable(input_clock_hz: nat, song: Seq<Tone>) -> bool {
    forall|i: int| 0 <= i < song.len() ==> playable(input_clock_hz, #[trigger] song[i])
}

/// The commands that play a song: those of its tones, one tone after the
/// other.
pub open spec fn song_trace(input_clock_hz: nat, song: Seq<Tone>) -> Seq<Command>
    recommends
        song_playable(input_clock_hz, song),
    decreases song.len(),
{
    if song.len() == 0 {
        Seq::empty()
    } else {
        song_trace(input_clock_hz, song.drop_last()) + tone_trace(input_clock_hz, song.last())
    }
}

/// Appends the commands of one tone to `out`. Where the tone cannot be
/// played, `out` is left as it was.
fn push_tone(out: &mut Vec<Command>, input_clock_hz: u64, tone: &Tone) -> (r: Result<
    (),
    DividerError,
>)
    ensures
        playable(input_clock_hz as nat, *tone) ==> r is Ok && final(out)@ == old(out)@
            + tone_trace(input_clock_hz as nat, *tone),
        !playable(input_clock_hz as nat, *tone) ==> r is Err && r->Err_0
            == DividerError::FrequencyTooLow && final(out)@ == old(out)@,
{
    let freq: u32 = tone.frequency();
    if !tone.note().is_rest() {
        proof {
            crate::tone::lemma_pitched_frequency_positive(tone@.note, tone@.octave);
        }
        match compute_divider(input_clock_hz, freq as u64) {
            Ok(divider) => {
                out.push(Command::Program(divider));
                out.push(Command::Enable);
            },
            Err(e) => {
                return Err(e);
            },
        }
    }
    let hold: u32 = (tone.duration() as u32) * TIME_UNIT_MS;
    out.push(Command::Hold(hold));
    out.push(Command::Disable);
    out.push(Command::Pause(PAUSE_MS));
    assert(final(out)@ =~= old(out)@ + tone_trace(input_clock_hz as nat, *tone));
    Ok(())
}

/// The commands that play one tone at an input clock.
pub fn play_tone(input_clock_hz: u64, tone: &Tone) -> (r: Result<Vec<Command>, DividerError>)
    ensures
        playable(input_clock_hz as nat, *tone) ==> r is Ok && r->Ok_0@ == tone_trace(
            input_clock_hz as nat,
            *tone,
        ),
        !playable(input_clock_hz as nat, *tone) ==> r is Err && r->Err_0
            == DividerError::FrequencyTooLow,
{
    let mut out: Vec<Command> = Vec::new();
    match push_tone(&mut out, input_clock_hz, tone) {
        Ok(()) => Ok(out),
        Err(e) => Err(e),
    }
}

/// The commands of `repeats` passes over a song: as many copies of the
/// commands of one pass, one after the other.
pub open spec fn repeated_trace(input_clock_hz: nat, song: Seq<Tone>, repeats: nat) -> Seq<
    Command,
>
    decreases repeats,
{
    if repeats == 0 {
        Seq::empty()
    } else {
        repeated_trace(input_clock_hz, song, (repeats - 1) as nat) + song_trace(
            input_clock_hz,
            song,
        )
    }
}

/// Whether one cycle can be played: the intro, and the melody if it is
/// played at all.
pub open spec fn cycle_playable(
    input_clock_hz: nat,
    intro: Seq<Tone>,
    melody: Seq<Tone>,
    repeats: nat,
) -> bool {
    song_playable(input_clock_hz, intro) && (repeats == 0 || song_playable(
        input_clock_hz,
        melody,
    ))
}

/// The commands of one cycle: the intro once, then the melody `repeats`
/// times.
pub open spec fn cycle_trace(
    input_clock_hz: nat,
    intro: Seq<Tone>,
    melody: Seq<Tone>,
    repeats: nat,
) -> Seq<Command> {
    song_trace(input_clock_hz, intro) + repeated_trace(input_clock_hz, melody, repeats)
}

/// Appends the commands of a song to `out`.
fn push_song(out: &mut Vec<Command>, input_clock_hz: u64, song: &[Tone]) -> (r: Result<
    (),
    DividerError,
>)
    ensures
        song_playable(input_clock_hz as nat, song@) ==> r is Ok && final(out)@ == old(out)@
            + song_trace(input_clock_hz as nat, song@),
        !song_playable(input_clock_hz as nat, song@) ==> r is Err && r->Err_0
            == DividerError::FrequencyTooLow,
{
    let ghost before = out@;
    let mut i: usize = 0;
    while i < song.len()
        invariant
            i <= song.len(),
            song_playable(input_clock_hz as nat, song@.take(i as int)),
            out@ == before + song_trace(input_clock_hz as nat, song@.take(i as int)),
        decreases song.len() - i,
    {
        let ghost head = song@.take(i as int);
        let ghost next = song@.take(i + 1);
        match push_tone(out, input_clock_hz, &song[i]) {
            Ok(()) => {},
            Err(e) => {
                return Err(e);
            },
        }
        proof {
            assert(next.drop_last() =~= head);
            assert(next.last() == song@[i as int]);
            assert forall|j: int| 0 <= j < next.len() implies playable(
                input_clock_hz as nat,
                #[trigger] next[j],
            ) by {
                if j < i {
                    assert(next[j] == head[j]);
                }
            }
            assert(out@ =~= before + song_trace(input_clock_hz as nat, next));
        }
        i = i + 1;
    }
    proof {
        assert(song@.take(i as int) =~= song@);
    }
    Ok(())
}

/// Appends the commands of `repeats` passes over a song to `out`.
fn push_repeated(out: &mut Vec<Command>, input_clock_hz: u64, song: &[Tone], repeats: u32) -> (r:
    Result<(), DividerError>)
    ensures
        repeats == 0 || song_playable(input_clock_hz as nat, song@) ==> r is Ok && final(out)@
            == old(out)@ + repeated_trace(input_clock_hz as nat, song@, repeats as nat),
        !(repeats == 0 || song_playable(input_clock_hz as nat, song@)) ==> r is Err && r->Err_0
            == DividerError::FrequencyTooLow,
{
    let ghost before = out@;
    let mut pass: u32 = 0;
    while pass < repeats
        invariant
            pass <= repeats,
            pass == 0 || song_playable(input_clock_hz as nat, song@),
            out@ == before + repeated_trace(input_clock_hz as nat, song@, pass as nat),
        decreases repeats - pass,
    {
        match push_song(out, input_clock_hz, song) {
            Ok(()) => {},
            Err(e) => {
                return Err(e);
            },
        }
        proof {
            assert(out@ =~= before + repeated_trace(
                input_clock_hz as nat,
                song@,
                (pass + 1) as nat,
            ));
        }
        pass = pass + 1;
    }
    Ok(())
}

/// The commands that play a song at an input clock. There are none unless
/// every tone of the song can be played.
pub fn play_song(input_clock_hz: u64, song: &[Tone]) -> (r: Result<Vec<Command>, DividerError>)
    ensures
        song_playable(input_clock_hz as nat, song@) ==> r is Ok && r->Ok_0@ == song_trace(
            input_clock_hz as nat,
            song@,
        ),
        !song_playable(input_clock_hz as nat, song@) ==> r is Err && r->Err_0
            == DividerError::FrequencyTooLow,
{
    let mut out: Vec<Command> = Vec::new();
    match push_song(&mut out, input_clock_hz, song) {
        Ok(()) => Ok(out),
        Err(e) => Err(e),
    }
}

/// The commands that play a song `repeats` times over. Every pass starts
/// from the song alone, so every pass gives the same commands.
pub fn play_repeated(input_clock_hz: u64, song: &[Tone], repeats: u32) -> (r: Result<
    Vec<Command>,
    DividerError,
>)
    ensures
        repeats == 0 || song_playable(input_clock_hz as nat, song@) ==> r is Ok && r->Ok_0@
            == repeated_trace(input_clock_hz as nat, song@, repeats as nat),
        !(repeats == 0 || song_playable(input_clock_hz as nat, song@)) ==> r is Err && r->Err_0
            == DividerError::FrequencyTooLow,
{
    let mut out: Vec<Command> = Vec::new();
    match push_repeated(&mut out, input_clock_hz, song, repeats) {
        Ok(()) => Ok(out),
        Err(e) => Err(e),
    }
}

/// The commands of one cycle of playback: the intro once, then the melody
/// `repeats` times. The caller performs them again and again.
pub fn play_cycle(input_clock_hz: u64, intro: &[Tone], melody: &[Tone], repeats: u32) -> (r:
    Result<Vec<Command>, DividerError>)
    ensures
        cycle_playable(input_clock_hz as nat, intro@, melody@, repeats as nat) ==> r is Ok
            && r->Ok_0@ == cycle_trace(input_clock_hz as nat, intro@, melody@, repeats as nat),
        !cycle_playable(input_clock_hz as nat, intro@, melody@, repeats as nat) ==> r is Err
            && r->Err_0 == DividerError::FrequencyTooLow,
{
    let mut out: Vec<Command> = Vec::new();
    match push_song(&mut out, input_clock_hz, intro) {
        Ok(()) => {},
        Err(e) => {
            return Err(e);
        },
    }
    match push_repeated(&mut out, input_clock_hz, melody, repeats) {
        Ok(()) => Ok(out),
        Err(e) => Err(e),
    }
}

/// A song written out `repeats` times in a row.
pub open spec fn repeat_song(song: Seq<Tone>, repeats: nat) -> Seq<Tone>
    decreases repeats,
{
    if repeats == 0 {
        Seq::empty()
    } else {
        repeat_song(song, (repeats - 1) as nat) + song
    }
}

/// How many commands of a trace program the timer.
pub open spec fn count_programs(trace: Seq<Command>) -> nat
    decreases trace.len(),
{
    if trace.len() == 0 {
        0
    } else {
        count_programs(trace.drop_last()) + if trace.last() is Program {
            1nat
        } else {
            0nat
        }
    }
}

/// How many commands of a trace are pauses between tones.
pub open spec fn count_pauses(trace: Seq<Command>) -> nat
    decreases trace.len(),
{
    if trace.len() == 0 {
        0
    } else {
        count_pauses(trace.drop_last()) + if trace.last() is Pause {
            1nat
        } else {
            0nat
        }
    }
}

/// How many tones of a song are pitched.
pub open spec fn count_pitched(song: Seq<Tone>) -> nat
    decreases song.len(),
{
    if song.len() == 0 {
        0
    } else {
        count_pitched(song.drop_last()) + if song.last()@.note.is_silence() {
            0nat
        } else {
            1nat
        }
    }
}

/// The commands of two songs played in a row are those of the first, then
/// those of the second.
pub proof fn lemma_song_trace_concat(input_clock_hz: nat, first: Seq<Tone>, second: Seq<Tone>)
    ensures
        song_trace(input_clock_hz, first + second) == song_trace(input_clock_hz, first)
            + song_trace(input_clock_hz, second),
    decreases second.len(),
{
    if second.len() == 0 {
        assert(first + second =~= first);
        assert(song_trace(input_clock_hz, first) + Seq::<Command>::empty() =~= song_trace(
            input_clock_hz,
            first,
        ));
    } else {
        assert((first + second).drop_last() =~= first + second.drop_last());
        assert((first + second).last() == second.last());
        lemma_song_trace_concat(input_clock_hz, first, second.drop_last());
        assert(song_trace(input_clock_hz, first + second) =~= song_trace(input_clock_hz, first)
            + song_trace(input_clock_hz, second));
    }
}

/// Playing a song `repeats` times gives what playing the song written out
/// `repeats` times gives: the passes do not differ, and nothing stands
/// between them.
pub proof fn lemma_repeated_trace_is_trace_of_repeats(
    input_clock_hz: nat,
    song: Seq<Tone>,
    repeats: nat,
)
    ensures
        repeated_trace(input_clock_hz, song, repeats) == song_trace(
            input_clock_hz,
            repeat_song(song, repeats),
        ),
    decreases repeats,
{
    if repeats > 0 {
        lemma_repeated_trace_is_trace_of_repeats(input_clock_hz, song, (repeats - 1) as nat);
        lemma_song_trace_concat(input_clock_hz, repeat_song(song, (repeats - 1) as nat), song);
    }
}

/// The counts of a trace made of two parts are the sums of the counts of
/// the parts.
pub proof fn lemma_counts_concat(first: Seq<Command>, second: Seq<Command>)
    ensures
        count_programs(first + second) == count_programs(first) + count_programs(second),
        count_pauses(first + second) == count_pauses(first) + count_pauses(second),
    decreases second.len(),
{
    if second.len() == 0 {
        assert(first + second =~= first);
    } else {
        assert((first + second).drop_last() =~= first + second.drop_last());
        assert((first + second).last() == second.last());
        lemma_counts_concat(first, second.drop_last());
    }
}

/// One tone programs the timer once if it is pitched and never if it is
/// silence, and it is followed by one pause.
pub proof fn lemma_tone_counts(input_clock_hz: nat, tone: Tone)
    ensures
        count_programs(tone_trace(input_clock_hz, tone)) == if tone@.note.is_silence() {
            0nat
        } else {
            1nat
        },
        count_pauses(tone_trace(input_clock_hz, tone)) == 1,
{
    let trace = tone_trace(input_clock_hz, tone);
    reveal_with_fuel(count_programs, 6);
    reveal_with_fuel(count_pauses, 6);
    if tone@.note.is_silence() {
        assert(trace.drop_last() =~= seq![Command::Hold(hold_ms(tone) as u32), Command::Disable]);
        assert(trace.drop_last().drop_last() =~= seq![Command::Hold(hold_ms(tone) as u32)]);
        assert(trace.drop_last().drop_last().drop_last() =~= Seq::<Command>::empty());
    } else {
        let program = Command::Program(divider_for(input_clock_hz, tone@.frequency)->Ok_0);
        let hold = Command::Hold(hold_ms(tone) as u32);
        let t4 = trace.drop_last();
        let t3 = t4.drop_last();
        let t2 = t3.drop_last();
        let t1 = t2.drop_last();
        assert(t4 =~= seq![program, Command::Enable, hold, Command::Disable]);
        assert(t3 =~= seq![program, Command::Enable, hold]);
        assert(t2 =~= seq![program, Command::Enable]);
        assert(t1 =~= seq![program]);
        assert(t1.drop_last() =~= Seq::<Command>::empty());
    }
}

/// A song programs the timer once for each of its pitched tones and pauses
/// once after each of its tones.
pub proof fn lemma_song_counts(input_clock_hz: nat, song: Seq<Tone>)
    ensures
        count_programs(song_trace(input_clock_hz, song)) == count_pitched(song),
        count_pauses(song_trace(input_clock_hz, song)) == song.len(),
    decreases song.len(),
{
    if song.len() > 0 {
        lemma_song_counts(input_clock_hz, song.drop_last());
        lemma_tone_counts(input_clock_hz, song.last());
        lemma_counts_concat(
            song_trace(input_clock_hz, song.drop_last()),
            tone_trace(input_clock_hz, song.last()),
        );
    }
}

/// A song of silence alone can be played at every input clock. It never
/// programs the timer, and it pauses once for each of its tones.
pub proof fn lemma_silent_song(input_clock_hz: nat, song: Seq<Tone>)
    requires
        forall|i: int| 0 <= i < song.len() ==> (#[trigger] song[i])@.note.is_silence(),
    ensures
        song_playable(input_clock_hz, song),
        count_programs(song_trace(input_clock_hz, song)) == 0,
        count_pauses(song_trace(input_clock_hz, song)) == song.len(),
{
    lemma_song_counts(input_clock_hz, song);
    lemma_silent_song_has_no_pitch(song);
}

proof fn lemma_silent_song_has_no_pitch(song: Seq<Tone>)
    requires
        forall|i: int| 0 <= i < song.len() ==> (#[trigger] song[i])@.note.is_silence(),
    ensures
        count_pitched(song) == 0,
    decreases song.len(),
{
    if song.len() > 0 {
        assert forall|i: int| 0 <= i < song.drop_last().len() implies (
        #[trigger] song.drop_last()[i])@.note.is_silence() by {
            assert(song.drop_last()[i] == song[i]);
        }
        lemma_silent_song_has_no_pitch(song.drop_last());
        assert(song.last() == song[song.len() - 1]);
    }
}

/// Every well-formed tone can be played at an input clock that fits in 32
/// bits, and so can every song of such tones.
pub proof fn lemma_playable_at_32_bit_clock(input_clock_hz: nat, song: Seq<Tone>)
    requires
        input_clock_hz <= u32::MAX,
        forall|i: int| 0 <= i < song.len() ==> (#[trigger] song[i]).wf(),
    ensures
        song_playable(input_clock_hz, song),
{
    assert forall|i: int| 0 <= i < song.len() implies playable(
        input_clock_hz,
        #[trigger] song[i],
    ) by {
        let tone = song[i];
        assert(tone.wf());
        if !tone@.note.is_silence() {
            crate::tone::lemma_pitched_frequency_positive(tone@.note, tone@.octave);
            crate::divider::lemma_divider_exists_for_32_bit_clock(
                input_clock_hz,
                tone@.frequency,
            );
        }
    }
}

/// The commands of a song that is not empty end with the pause after its
/// last tone.
pub proof fn lemma_song_trace_ends_with_pause(input_clock_hz: nat, song: Seq<Tone>)
    requires
        song.len() > 0,
    ensures
        song_trace(input_clock_hz, song).len() > 0,
        song_trace(input_clock_hz, song).last() == Command::Pause(PAUSE_MS),
{
}

/// The timer is programmed only between tones: whatever programs the timer
/// is the first command of the song or comes right after a pause, and the
/// output is opened right after it.
pub proof fn lemma_program_between_pause_and_enable(
    input_clock_hz: nat,
    song: Seq<Tone>,
    at: int,
)
    requires
        0 <= at < song_trace(input_clock_hz, song).len(),
        song_trace(input_clock_hz, song)[at] is Program,
    ensures
        at > 0 ==> song_trace(input_clock_hz, song)[at - 1] is Pause,
        at + 1 < song_trace(input_clock_hz, song).len(),
        song_trace(input_clock_hz, song)[at + 1] is Enable,
    decreases song.len(),
{
    let head = song_trace(input_clock_hz, song.drop_last());
    let tail = tone_trace(input_clock_hz, song.last());
    if at < head.len() {
        lemma_program_between_pause_and_enable(input_clock_hz, song.drop_last(), at);
    } else {
        assert(tail[at - head.len()] is Program);
        assert(at == head.len());
        if at > 0 {
            lemma_song_trace_ends_with_pause(input_clock_hz, song.drop_last());
        }
    }
}

} // verus!
