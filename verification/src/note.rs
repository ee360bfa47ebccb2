//! The twelve pitch classes of the chromatic scale, and silence.

use vstd::prelude::*;

verus! {

/// The number of fraction bits in a base frequency: base frequencies count
/// in steps of 2^-19 Hz.
pub const FRACTION_BITS: u32 = 19;

/// One hertz in steps of a base frequency: 2^19.
pub const ONE_HERTZ: u64 = 524288;

/// A pitch class, or `S` for silence.
#[derive(Clone, Copy, Debug, PartialEq, Eq, Structural)]
pub enum Note {
    C,
    CS,
    D,
    DS,
    E,
    F,
    FS,
    G,
    GS,
    A,
    AS,
    B,
    /// Silence: no tone for the duration of the event.
    S,
}

impl Note {
    /// The frequency of the pitch class in octave 0, as a fixed-point number
    /// with `FRACTION_BITS` fraction bits. Each value is the single-precision
    /// number nearest to the pitch in hertz (16.35 Hz for `C`, 27.5 Hz for
    /// `A`), so all of them lie between 16 Hz and 32 Hz. Silence has none.
    pub open spec fn base_frequency(self) -> Option<u32> {
        match self {
            Note::C => Some(8572109u32),
            Note::CS => Some(9080668u32),
            Note::D => Some(9620685u32),
            Note::DS => Some(10197402u32),
            Note::E => Some(10800333u32),
            Note::F => Some(11445207u32),
            Note::FS => Some(12121539u32),
            Note::G => Some(12845056u32),
            Note::GS => Some(13610516u32),
            Note::A => Some(14417920u32),
            Note::AS => Some(15277752u32),
            Note::B => Some(16184771u32),
            Note::S => None,
        }
    }

    /// Whether the note is the silence marker.
    pub open spec fn is_silence(self) -> bool {
        self == Note::S
    }

    /// Whether the note is the silence marker.
    pub fn is_rest(&self) -> (r: bool)
        ensures
            r == self.is_silence(),
    {
        matches!(self, Note::S)
    }

    /// The base frequency of the note, see `base_frequency`.
    pub fn freq0(&self) -> (r: Option<u32>)
        ensures
            r == self.base_frequency(),
            r is None <==> self.is_silence(),
            r matches Some(base) ==> 0x80_0000 <= base < 0x100_0000,
    {
        match self {
            Note::C => Some(8572109),
            Note::CS => Some(9080668),
            Note::D => Some(9620685),
            Note::DS => Some(10197402),
            Note::E => Some(10800333),
            Note::F => Some(11445207),
            Note::FS => Some(12121539),
            Note::G => Some(12845056),
            Note::GS => Some(13610516),
            Note::A => Some(14417920),
            Note::AS => Some(15277752),
            Note::B => Some(16184771),
            Note::S => None,
        }
    }
}

} // verus!
