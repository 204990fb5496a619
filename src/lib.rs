//! Decoding of the chunked RIFX/XFIR container: primitive values, chunk
//! frames, and the memory-map driven chunk table.
pub mod chunk;
pub mod frame;
pub mod movie;
pub mod value;
