//! Decoder for the SLP indexed-bitmap container format: a file header, a
//! table of per-shape headers, and for each shape a compressed per-row
//! command stream that is interpreted into a raster of palette indices
//! together with a parallel provenance-tag buffer.
//!
//! The decoder works over an in-memory byte buffer; reading the bytes from
//! disk is left to the caller.

pub mod bytes;
pub mod error;
pub mod laws;
pub mod model;
pub mod slp;

pub use error::SlpError;
pub use error::boundary_code;
pub use model::DrawCommand;
pub use model::SlpEncodedLength;
pub use slp::SlpDrawCommands;
pub use slp::SlpFile;
pub use slp::SlpHeader;
pub use slp::SlpLogicalShape;
pub use slp::SlpPixels;
pub use slp::SlpShapeHeader;
