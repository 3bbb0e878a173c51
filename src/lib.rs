//! A bounded byte sink: a writer that fills a fixed-size region, owned or
//! borrowed, never writes past its end, and keeps a sticky flag once a write
//! did not fit.

pub mod region;
pub mod model;
pub mod writer;
pub mod laws;

pub use region::{ByteRegion, ReadableByteRegion};
pub use model::{joined, WriterState};
pub use writer::SizedWriter;
