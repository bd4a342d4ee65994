//! Verified core of a line-oriented SCPI-style driver for a programmable
//! power supply reached over a serial byte stream.
//!
//! The crate contains the protocol logic alone: framing of outbound commands,
//! accumulation and trimming of response lines, parsing of comma-separated
//! numeric replies into fixed-point readings, regulation-mode classification,
//! the connect/disconnect session state machine, the polling history ring and
//! the waveform set-point loop.  The byte stream itself (opening a port,
//! reading, writing, timers) is left to the surrounding application, which
//! feeds plain values in and carries plain values out.

pub mod chart;
pub mod codec;
pub mod commands;
pub mod driver;
pub mod measure;
pub mod numbers;
pub mod ring;
pub mod session;
