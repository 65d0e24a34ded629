//! An 8-bit-per-channel RGBA color value, with the integer side of its
//! conversions: packed and byte constructors, the named palette, the
//! truncation of scaled intensities to channel bytes, and the rule that
//! picks the reference band of a black-body estimate.

pub mod band;
pub mod binary64;
pub mod color;

pub use band::Band;
pub use color::Channels;
pub use color::Color;
