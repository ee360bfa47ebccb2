//! One scheduled event of a song: a note, its octave and its duration.

use crate::note::{Note, FRACTION_BITS, ONE_HERTZ};
use vstd::arithmetic::power2::{lemma2_to64, lemma_pow2_strictly_increases, lemma_pow2_unfold, pow2};
use vstd::prelude::*;

verus! {

/// The octave from which every pitch saturates a 32-bit frequency.
pub const SATURATING_OCTAVE: u32 = 28;

/// A base frequency moved up by `octave` octaves, in whole hertz: the
/// fraction is cut off, and what does not fit in 32 bits becomes `u32::MAX`.
pub open spec fn scaled_frequency(base: nat, octave: nat) -> nat {
    let exact = base * pow2(octave) / pow2(FRACTION_BITS as nat);
    if exact <= u32::MAX {
        exact
    } else {
        u32::MAX as nat
    }
}

/// The frequency of a note in an octave, in whole hertz. Silence has
/// frequency 0 in every octave.
pub open spec fn tone_frequency(note: Note, octave: nat) -> nat {
    match note.base_frequency() {
        Some(base) => scaled_frequency(base as nat, octave),
        None => 0,
    }
}

/// What a tone is: its note, octave and duration, and the frequency that
/// was derived from them.
pub struct ToneView {
    pub note: Note,
    pub octave: nat,
    pub duration: nat,
    pub frequency: nat,
}

/// One event of a song. The frequency is computed once, when the tone is
/// made.
#[derive(Clone, Copy, Debug, PartialEq, Eq, Structural)]
pub struct Tone {
    note: Note,
    octave: u32,
    duration: u16,
    freq: u32,
}

impl View for Tone {
    type V = ToneView;

    closed spec fn view(&self) -> ToneView {
        ToneView {
            note: self.note,
            octave: self.octave as nat,
            duration: self.duration as nat,
            frequency: self.freq as nat,
        }
    }
}

/// A pitched note sounds at 16 Hz or above, whatever its octave.
pub proof fn lemma_pitched_frequency_positive(note: Note, octave: nat)
    requires
        !note.is_silence(),
    ensures
        16 <= tone_frequency(note, octave) <= u32::MAX,
{
    let base = note.base_frequency().unwrap() as nat;
    lemma2_to64();
    vstd::arithmetic::power2::lemma_pow2_pos(octave);
    assert(base * pow2(octave) / 524288 >= 16) by (nonlinear_arith)
        requires
            base >= 0x80_0000,
            pow2(octave) >= 1,
    ;
}

/// Moves a base frequency between 16 Hz and 32 Hz up by `octave` octaves and
/// cuts the fraction off.
fn scale(base: u32, octave: u32) -> (r: u32)
    requires
        0x80_0000 <= base < 0x100_0000,
    ensures
        r == scaled_frequency(base as nat, octave as nat),
{
    proof {
        lemma2_to64();
    }
    if octave >= SATURATING_OCTAVE {
        proof {
            if octave > 28 {
                lemma_pow2_strictly_increases(28, octave as nat);
            }
            assert(base * pow2(octave as nat) / 524288 >= 0x1_0000_0000) by (nonlinear_arith)
                requires
                    base >= 0x80_0000,
                    pow2(octave as nat) >= 0x1000_0000,
            ;
        }
        return u32::MAX;
    }
    let mut factor: u64 = 1;
    let mut i: u32 = 0;
    while i < octave
        invariant
            i <= octave < 28,
            factor == pow2(i as nat),
            factor <= pow2(27),
            pow2(27) == 0x800_0000,
        decreases octave - i,
    {
        proof {
            lemma_pow2_unfold((i + 1) as nat);
            if i + 1 < 27 {
                lemma_pow2_strictly_increases((i + 1) as nat, 27);
            }
        }
        factor = factor * 2;
        i = i + 1;
    }
    assert(base * factor < 0x8_0000_0000_0000) by (nonlinear_arith)
        requires
            base < 0x100_0000,
            factor <= 0x800_0000,
    ;
    let scaled: u64 = (base as u64) * factor;
    (scaled / ONE_HERTZ) as u32
}

impl Tone {
    #[verifier::type_invariant]
    spec fn derived(self) -> bool {
        self.freq == tone_frequency(self.note, self.octave as nat)
    }

    /// Whether the frequency of the tone is the one that its note and octave
    /// give. Every tone that `new` has made is well formed.
    pub open spec fn wf(self) -> bool {
        self@.frequency == tone_frequency(self@.note, self@.octave)
    }

    /// Makes a tone and derives its frequency.
    pub fn new(note: Note, octave: u32, duration: u16) -> (t: Tone)
        ensures
            t@.note == note,
            t@.octave == octave,
            t@.duration == duration,
            t@.frequency == tone_frequency(note, octave as nat),
    {
        let freq: u32 = match note.freq0() {
            Some(base) => scale(base, octave),
            None => 0,
        };
        Tone { note, octave, duration, freq }
    }

    /// The note of the tone.
    pub fn note(&self) -> (r: Note)
        ensures
            r == self@.note,
    {
        self.note
    }

    /// The octave of the tone.
    pub fn octave(&self) -> (r: u32)
        ensures
            r == self@.octave,
    {
        self.octave
    }

    /// The duration of the tone, in time units.
    pub fn duration(&self) -> (r: u16)
        ensures
            r == self@.duration,
    {
        self.duration
    }

    /// The frequency of the tone in hertz, 0 for silence.
    pub fn frequency(&self) -> (r: u32)
        ensures
            r == self@.frequency,
            self.wf(),
    {
        proof {
            use_type_invariant(self);
        }
        self.freq
    }
}

} // verus!
