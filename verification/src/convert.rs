//! The single-image conversion pipeline: compact the decoded plane into a
//! packed RGB raster, encode it as a baseline JPEG at quality 95, and splice
//! the EXIF payload in as an APP1 segment.

use vstd::prelude::*;

use crate::errors::ConvertError;
use crate::errors::ErrorKind;
use crate::exif::select_exif_payload;
use crate::exif::stripped_exif;
use crate::jpeg::MAX_EXIF_PAYLOAD;
use crate::jpeg::ends_with_eoi;
use crate::jpeg::inject_exif;
use crate::jpeg::inject_exif_spec;
use crate::jpeg::lemma_inject_scan;
use crate::jpeg::lemma_scan_header_tail;
use crate::jpeg::scan_header;
use crate::jpeg::starts_with_soi;
use crate::raster::RgbRaster;
use crate::raster::compact_plane;
use crate::raster::compact_rows;
use crate::raster::plane_geometry_ok;

verus! {

/// JPEG quality of the re-encoded image on the 1-100 scale: a fixed design
/// choice, not configuration.
pub const JPEG_QUALITY: u8 = 95;

/// Largest width or height a baseline JPEG can carry (16-bit frame fields).
pub const MAX_JPEG_DIMENSION: u32 = 65535;

/// What the JPEG encoder returns for a tightly packed `width x height` RGB
/// raster at quality 95.  The encoding is a function of the raster alone.
pub uninterp spec fn jpeg_encode_of(width: u32, height: u32, raster: Seq<u8>) -> Seq<u8>;

/// The encoder's output is a well-formed JPEG: it opens with SOI, its marker
/// segments parse up to the scan, none of them is an APP1-EXIF segment, and
/// it ends with EOI.
pub open spec fn encoder_output_ok(b: Seq<u8>) -> bool {
    &&& starts_with_soi(b)
    &&& ends_with_eoi(b)
    &&& (scan_header(b, 2) matches Some(rest) && rest.1 == Seq::<Seq<u8>>::empty())
}

/// Relies on image's RgbImage::from_raw and JpegEncoder, called through
/// write_with_encoder: encodes a packed RGB raster as a baseline JPEG,
/// writing SOI, a JFIF APP0 segment, tables, frame and scan headers,
/// entropy-coded data and EOI -- and no APP1 segment, since no EXIF metadata
/// is set on the encoder.  It fails exactly when a dimension is outside
/// 1..=65535; writes to a byte vector cannot fail.
#[verifier::external_body]
fn encode_jpeg(raster: &RgbRaster) -> (r: Result<Vec<u8>, ConvertError>)
    requires
        raster.wf(),
    ensures
        match r {
            Ok(b) => b@ == jpeg_encode_of(raster.width, raster.height, raster.data@)
                && encoder_output_ok(b@)
                && raster.width <= MAX_JPEG_DIMENSION && raster.height <= MAX_JPEG_DIMENSION,
            Err(er) => er.kind == ErrorKind::EncodeFailed
                && (raster.width > MAX_JPEG_DIMENSION || raster.height > MAX_JPEG_DIMENSION),
        },
{
    let img = match image::RgbImage::from_raw(raster.width, raster.height, raster.data.clone()) {
        Some(img) => img,
        None => return Err(ConvertError::new(ErrorKind::EncodeFailed, "raster does not match its dimensions")),
    };
    let mut bytes: Vec<u8> = Vec::new();
    let encoder = image::codecs::jpeg::JpegEncoder::new_with_quality(&mut bytes, JPEG_QUALITY);
    match img.write_with_encoder(encoder) {
        Ok(()) => Ok(bytes),
        Err(e) => Err(ConvertError::new(ErrorKind::EncodeFailed, &e.to_string())),
    }
}

/// The optional EXIF payload as a mathematical value.
pub open spec fn meta_view(m: Option<Vec<u8>>) -> Option<Seq<u8>> {
    match m {
        Option::Some(v) => Option::Some(v@),
        Option::None => Option::None,
    }
}

/// The bytes the pipeline produces for a decoded plane and an optional EXIF
/// payload: the compacted raster, JPEG-encoded, with the payload spliced in
/// when present.
pub open spec fn converted_bytes(width: u32, height: u32, stride: int, plane: Seq<u8>, exif: Option<Seq<u8>>) -> Seq<u8> {
    let encoded = jpeg_encode_of(width, height, compact_rows(plane, stride, 3 * width as int, height as int));
    match exif {
        Option::Some(e) => inject_exif_spec(encoded, e).unwrap(),
        Option::None => encoded,
    }
}

/// Every input the pipeline converts: positive dimensions within JPEG's
/// limit, a plane that covers the raster, and an EXIF payload (if any) that
/// fits one APP1 segment.
pub open spec fn convertible(width: u32, height: u32, stride: int, plane_len: int, exif: Option<Seq<u8>>) -> bool {
    &&& 0 < width <= MAX_JPEG_DIMENSION
    &&& 0 < height <= MAX_JPEG_DIMENSION
    &&& plane_geometry_ok(width, height, stride, plane_len)
    &&& match exif {
        Option::Some(e) => e.len() <= MAX_EXIF_PAYLOAD,
        Option::None => true,
    }
}

/// The stage a rejected input fails at, checked in pipeline order.
pub open spec fn failing_kind(width: u32, height: u32, stride: int, plane_len: int) -> ErrorKind {
    if width == 0 || height == 0 {
        ErrorKind::DecodeFailed
    } else if !plane_geometry_ok(width, height, stride, plane_len) {
        ErrorKind::RasterMalformed
    } else if width > MAX_JPEG_DIMENSION || height > MAX_JPEG_DIMENSION {
        ErrorKind::EncodeFailed
    } else {
        ErrorKind::ExifTooLarge
    }
}

/// The EXIF payloads the output's header is expected to hold: exactly the
/// given one, or none.
pub open spec fn expected_exifs(exif: Option<Seq<u8>>) -> Seq<Seq<u8>> {
    match exif {
        Option::Some(e) => seq![e],
        Option::None => Seq::empty(),
    }
}

/// Convert one decoded image: compact the interleaved plane (dropping row
/// padding), encode it as a baseline JPEG at quality 95, and splice in the
/// EXIF payload when one is given.
///
/// On success the output opens with SOI, ends with EOI, and holds exactly
/// one APP1-EXIF segment carrying `exif` when a payload was given and no
/// APP1-EXIF segment otherwise.
pub fn convert_decoded(width: u32, height: u32, stride: usize, plane: &Vec<u8>, exif: &Option<Vec<u8>>) -> (r: Result<Vec<u8>, ConvertError>)
    ensures
        r is Ok <==> convertible(width, height, stride as int, plane@.len() as int, meta_view(*exif)),
        r matches Ok(o) ==> {
            &&& o@ == converted_bytes(width, height, stride as int, plane@, meta_view(*exif))
            &&& starts_with_soi(o@)
            &&& ends_with_eoi(o@)
            &&& (scan_header(o@, 2) matches Some(rest) && rest.1 == expected_exifs(meta_view(*exif)))
        },
        r matches Err(er) ==> er.kind == failing_kind(width, height, stride as int, plane@.len() as int),
{
    let raster = match compact_plane(width, height, stride, plane) {
        Ok(ra) => ra,
        Err(er) => {
            return Err(er);
        },
    };
    let encoded = match encode_jpeg(&raster) {
        Ok(b) => b,
        Err(er) => {
            return Err(er);
        },
    };
    match exif {
        Option::None => Ok(encoded),
        Option::Some(payload) => {
            match inject_exif(&encoded, payload) {
                Ok(o) => {
                    proof {
                        lemma_inject_scan(encoded@, payload@);
                        lemma_scan_header_tail(encoded@, 2);
                        let kept = scan_header(encoded@, 2).unwrap().0;
                        assert(o@[o@.len() - 1] == kept[kept.len() - 1]);
                        assert(o@[o@.len() - 2] == kept[kept.len() - 2]);
                    }
                    Ok(o)
                },
                Err(er) => {
                    return Err(er);
                },
            }
        },
    }
}

/// The EXIF payload a conversion keeps, given the container's EXIF-typed
/// metadata blocks in enumeration order: the first block with its 4-byte
/// offset prefix stripped, or none.
pub open spec fn exif_of_blocks(blocks: Seq<Seq<u8>>) -> Option<Seq<u8>> {
    if blocks.len() == 0 {
        Option::None
    } else {
        Option::Some(stripped_exif(blocks[0]))
    }
}

/// Convert one decoded image together with its container's EXIF metadata
/// blocks: pick the EXIF payload (first block, offset prefix stripped) and
/// run the pipeline on it.
///
/// On success the output is a JPEG stream that holds exactly one APP1-EXIF
/// segment, whose payload is the first block minus its first 4 bytes, when
/// the container had an EXIF block -- and no APP1-EXIF segment otherwise.
pub fn convert_image(width: u32, height: u32, stride: usize, plane: &Vec<u8>, exif_blocks: Vec<Vec<u8>>) -> (r: Result<Vec<u8>, ConvertError>)
    ensures
        r is Ok <==> convertible(width, height, stride as int, plane@.len() as int,
            exif_of_blocks(exif_blocks.deep_view())),
        r matches Ok(o) ==> {
            &&& o@ == converted_bytes(width, height, stride as int, plane@,
                exif_of_blocks(exif_blocks.deep_view()))
            &&& starts_with_soi(o@)
            &&& ends_with_eoi(o@)
            &&& (scan_header(o@, 2) matches Some(rest)
                && rest.1 == expected_exifs(exif_of_blocks(exif_blocks.deep_view())))
        },
        r matches Err(er) ==> er.kind == failing_kind(width, height, stride as int, plane@.len() as int),
{
    let ghost blocks = exif_blocks.deep_view();
    proof {
        if blocks.len() > 0 {
            assert(blocks[0] == exif_blocks[0].deep_view());
            assert(exif_blocks[0].deep_view() =~= exif_blocks[0]@);
        }
    }
    let exif = select_exif_payload(exif_blocks);
    convert_decoded(width, height, stride, plane, &exif)
}

/// The pipeline is a function of its inputs: two conversions of the same
/// decoded plane with the same metadata yield byte-identical JPEG streams,
/// whichever order they run in.
pub proof fn lemma_convert_deterministic(width: u32, height: u32, stride: int, plane: Seq<u8>, exif_meta: Option<Seq<u8>>, o1: Seq<u8>, o2: Seq<u8>)
    requires
        o1 == converted_bytes(width, height, stride, plane, exif_meta),
        o2 == converted_bytes(width, height, stride, plane, exif_meta),
    ensures
        o1 == o2,
{
}

} // verus!
