//! Streaming UTF-8 validation: a byte-at-a-time automaton with an ASCII fast
//! path, whose verdict does not depend on how the stream is cut into chunks.

pub mod chunks;
pub mod dfa;
pub mod validator;
pub mod wellformed;

pub use dfa::State;
pub use validator::{Utf8Validator, ValidationError};
