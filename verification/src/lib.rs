//! Buffering for streamed, structured values.
//!
//! A value is streamed as a sequence of [`token::Token`]s. [`TextBuf`] and
//! [`BinaryBuf`] join the fragments of a single text or binary value;
//! [`ValueBuf`] buffers any value into a flat sequence of parts that
//! can be streamed back out. [`stream`] declares recursive streams and
//! writes flat tokens into them, buffering what it can't write yet, and
//! [`bench_data`] holds sample data to measure buffering with.
use vstd::prelude::*;

pub mod error;
pub mod data;
pub mod token;
pub mod number;
pub mod fragments;
pub mod fragment_laws;
pub mod value;
pub mod stream;
pub mod bench_data;

pub use error::Error;
pub use fragments::{BinaryBuf, TextBuf};
pub use value::buf::{stream_to_value, stream_to_value_owned, Value, ValueBuf};
pub use stream::Unsupported;

verus! {
}
