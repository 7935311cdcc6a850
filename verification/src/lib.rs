//! Streaming access to the payload of single entries of a zip archive.
//!
//! The crate performs no I/O. A caller owns the storage handle, feeds the
//! bytes it reads to a [`Reader`] and moves its cursor by what the reader
//! reports back. Entries are either stored verbatim or deflated; deflated
//! entries are inflated through a [`Decompressor`] that one archive session
//! shares among all of its entries.

pub mod engine;
pub mod error;
pub mod header;
pub mod model;
pub mod reader;

pub use engine::{Decompressor, Engine, InflateBuffer, WINDOW_SIZE};
pub use error::{MethodNotSupported, NotAnArchive, Truncated};
pub use header::FileHeader;
pub use model::ReaderState;
pub use reader::{Progress, Reader, ReaderBuilder};
