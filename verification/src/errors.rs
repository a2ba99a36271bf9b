//! Structured conversion errors: the failing stage plus a detail string.

use vstd::prelude::*;

verus! {

/// The stage at which a conversion failed.  Every error of the pipeline
/// carries exactly one of these kinds.
#[derive(Clone, Copy, Debug, PartialEq, Eq, Structural)]
pub enum ErrorKind {
    /// The source file could not be opened or parsed as an HEIC container.
    InputOpen,
    /// The container holds no primary image.
    NoPrimaryImage,
    /// The decoder failed on the primary image.
    DecodeFailed,
    /// The decoder produced planar output instead of an interleaved plane.
    NoInterleavedPlane,
    /// The decoded plane does not cover `width * height` pixels.
    RasterMalformed,
    /// JPEG encoding failed.
    EncodeFailed,
    /// The JPEG byte stream handed to the EXIF injector is malformed.
    InvalidJpeg,
    /// The EXIF payload does not fit in a single APP1 segment.
    ExifTooLarge,
    /// The output file could not be written.
    OutputWrite,
}

/// The stable name of each error kind.
pub open spec fn kind_name(k: ErrorKind) -> Seq<char> {
    match k {
        ErrorKind::InputOpen => "input-open"@,
        ErrorKind::NoPrimaryImage => "no-primary-image"@,
        ErrorKind::DecodeFailed => "decode-failed"@,
        ErrorKind::NoInterleavedPlane => "no-interleaved-plane"@,
        ErrorKind::RasterMalformed => "raster-malformed"@,
        ErrorKind::EncodeFailed => "encode-failed"@,
        ErrorKind::InvalidJpeg => "invalid-jpeg"@,
        ErrorKind::ExifTooLarge => "exif-too-large"@,
        ErrorKind::OutputWrite => "output-write"@,
    }
}

impl ErrorKind {
    /// The stable name of this error kind.
    pub fn name(&self) -> (r: &'static str)
        ensures
            r@ == kind_name(*self),
    {
        match self {
            ErrorKind::InputOpen => "input-open",
            ErrorKind::NoPrimaryImage => "no-primary-image",
            ErrorKind::DecodeFailed => "decode-failed",
            ErrorKind::NoInterleavedPlane => "no-interleaved-plane",
            ErrorKind::RasterMalformed => "raster-malformed",
            ErrorKind::EncodeFailed => "encode-failed",
            ErrorKind::InvalidJpeg => "invalid-jpeg",
            ErrorKind::ExifTooLarge => "exif-too-large",
            ErrorKind::OutputWrite => "output-write",
        }
    }
}

/// A conversion failure: the failing stage and a human-readable detail.
#[derive(Debug)]
pub struct ConvertError {
    pub kind: ErrorKind,
    pub detail: String,
}

impl ConvertError {
    /// Build an error of the given kind with a detail message.
    pub fn new(kind: ErrorKind, detail: &str) -> (r: ConvertError)
        ensures
            r.kind == kind,
            r.detail@ == detail@,
    {
        ConvertError { kind, detail: String::from_str(detail) }
    }

    /// Render the error as `<kind-name>: <detail>`.
    pub fn message(&self) -> (r: String)
        ensures
            r@ == kind_name(self.kind) + ": "@ + self.detail@,
    {
        let mut s = String::from_str(self.kind.name());
        s.append(": ");
        s.append(self.detail.as_str());
        s
    }
}

} // verus!
