//! Buffering arbitrary streamed values.
pub mod part;
pub mod parts;
pub mod frame;
pub mod model;
pub mod buf;
pub mod decode;
pub mod laws;
pub mod array_vec;
pub mod owning;
pub mod primitives;
