//! Waveform image library: streams decoded audio frames into a fixed number
//! of per-column peaks, renders them onto a 2-bit-per-pixel packed canvas,
//! and serializes the canvas as an indexed-palette PNG.

pub mod audio;
pub mod chars;
pub mod cli;
pub mod color;
pub mod error;
pub mod image;
