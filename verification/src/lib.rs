//! Verified core of a HEIC-to-JPEG batch converter.
//!
//! The pipeline decodes an HEIC primary image into a tightly packed RGB
//! raster, re-encodes it as a baseline JPEG at quality 95, and splices the
//! container's EXIF payload into the JPEG as an APP1 segment.  The byte-level
//! logic (raster compaction, JPEG segment handling, EXIF framing) is verified;
//! the HEIF decoder and the JPEG encoder are called through trusted wrappers.

pub mod cli;
pub mod convert;
pub mod errors;
pub mod exif;
pub mod jpeg;
pub mod raster;
