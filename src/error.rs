//! The library's error taxonomy.
use vstd::prelude::*;

verus! {

/// Why an issue could not be processed.
#[derive(Debug, Clone, Copy, PartialEq, Eq, Structural)]
pub enum ScrapeError {
    /// The address names no identifier.
    InvalidLocator,
    /// The landing page lacks the metadata container.
    MetadataUnavailable,
    /// A numeric field or a discovery response is malformed.
    ParseError,
    /// A network fetch failed after all attempts.
    NetworkError,
    /// A file-system operation failed.
    IoError,
    /// An image could not be decoded.
    ImageDecodeError,
}

} // verus!
