//! Random string generation from selected character classes, with an
//! operating-system entropy source and an optional pointer-motion mixer.
mod charset;
mod entropy;
mod generator;
mod mixer;

pub use charset::{
    bytes_to_utfchars, build_alphabet, map_byte, CharClass, ClassSelection, MapError,
};
pub use entropy::{acquire, motion_seconds, settle, Acquired};
pub use generator::{Generation, GenerationConfig, GenerationError};
pub use mixer::{MotionError, MotionMixer, Pause};
