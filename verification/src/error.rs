//! The ways in which opening or reading an entry fails.

use vstd::prelude::*;

verus! {

/// The entry is packed with a method other than stored or deflate.
#[derive(Debug, Clone, Copy, PartialEq, Eq)]
pub struct MethodNotSupported;

/// The bytes at the entry's offset are not a local file header.
#[derive(Debug, Clone, Copy, PartialEq, Eq)]
pub struct NotAnArchive;

/// The storage ended before a stored entry delivered its declared length.
#[derive(Debug, Clone, Copy, PartialEq, Eq)]
pub struct Truncated;

} // verus!
