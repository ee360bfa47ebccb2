//! A tone player for a hardware timer.
//!
//! The library turns a table of musical notes into what a 16-bit timer needs
//! to sound them: a prescaler and an auto-reload period for every pitch, and
//! the order of timer commands and delays that plays a song. It owns no
//! hardware. The caller performs the commands it hands out.

pub mod divider;
pub mod note;
pub mod player;
pub mod sequencer;
pub mod timer;
pub mod tone;
pub mod write_to;
