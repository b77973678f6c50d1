//! Retrieval and assembly of paginated documents from an online book viewer.
//!
//! The library holds the logic of a download, each function with a verified
//! contract: resolving a locator to a document identifier, extracting
//! metadata and the outline from the landing page, the page-discovery state
//! machine, the tile order of reconstructed pages, and the planning of the
//! output documents. Fetching, image decoding and file writing are left to
//! the caller, which hands the results back as plain values.

pub mod error;
pub mod text;
pub mod html;
pub mod locator;
pub mod types;
pub mod metadata;
pub mod toc;
pub mod pagination;
pub mod tiles;
pub mod output;
pub mod pdf;
pub mod batch;
