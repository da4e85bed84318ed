//! A piano that is played from the terminal.
//!
//! The library decides what every key press and every timer tick does to the instrument, which
//! notes are sounding, what chord they form, and what the screen shows. Sound output, terminal
//! input and output, clocks and threads are left to the program around it.
//!
//! Quantities that the audio side treats as fractions are kept here as whole numbers: mix and
//! feedback in the units of [`fraction`], modulation rates in half hertz, pitches in hundredths of a hertz, and the
//! oscillator state of a note as the bit pattern of a single-precision number.

#![allow(unused_imports)]

pub mod active_notes;
pub mod arp;
pub mod arpeggiator;
pub mod chord;
pub mod command;
pub mod controls;
pub mod delay;
pub mod fraction;
pub mod keyboard;
pub mod note;
pub mod scale;
pub mod screen;
pub mod session;
pub mod tape;
pub mod text;
pub mod waveform;
