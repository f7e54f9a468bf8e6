//! Chunk-based audio container probing.
//!
//! This crate discovers elementary audio streams inside chunk-based
//! containers (RIFF/WAVE, and a stub MPEG-audio reader) without decoding
//! any audio. The heart of the crate is a region-scoped chunk reader that
//! is generic over a vocabulary of recognized chunk identifiers, together
//! with payload parsers that merge chunk contents into one accumulating
//! codec-parameter record. All parsing works over an in-memory forward
//! byte cursor; reading bytes from a file or a socket is a caller concern.

pub mod errors;
pub mod io;
pub mod meta;
pub mod codec;
pub mod chunks;
pub mod wave;
pub mod mp3;
pub mod laws;
