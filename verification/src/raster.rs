//! Tightly packed RGB rasters and the compaction of stride-padded planes.

use vstd::prelude::*;

use crate::errors::ConvertError;
use crate::errors::ErrorKind;

verus! {

/// A width x height interleaved 8-bit RGB raster with no row padding:
/// pixel (x, y) sits at offset `(y * width + x) * 3`.
#[derive(Debug)]
pub struct RgbRaster {
    pub width: u32,
    pub height: u32,
    pub data: Vec<u8>,
}

impl RgbRaster {
    /// Well-formedness: positive dimensions and a tightly packed buffer.
    pub open spec fn wf(self) -> bool {
        &&& self.width > 0
        &&& self.height > 0
        &&& self.data@.len() == self.width as int * self.height as int * 3
    }
}

/// Row `y` of a plane whose rows are `stride` bytes apart, truncated to its
/// first `w3` bytes of pixel content.
pub open spec fn plane_row(data: Seq<u8>, stride: int, w3: int, y: int) -> Seq<u8> {
    data.subrange(y * stride, y * stride + w3)
}

/// The first `h` rows of the plane, compacted: row padding dropped.
pub open spec fn compact_rows(data: Seq<u8>, stride: int, w3: int, h: int) -> Seq<u8>
    decreases h,
{
    if h <= 0 {
        Seq::empty()
    } else {
        compact_rows(data, stride, w3, h - 1) + plane_row(data, stride, w3, h - 1)
    }
}

/// The plane's geometry covers `height` rows of `3 * width` pixel bytes.
pub open spec fn plane_geometry_ok(width: u32, height: u32, stride: int, len: int) -> bool {
    &&& stride >= 3 * width as int
    &&& (height as int - 1) * stride + 3 * width as int <= len
}

/// A compacted sequence of `h` rows of `w3` bytes holds exactly `h * w3` bytes.
pub proof fn lemma_compact_rows_len(data: Seq<u8>, stride: int, w3: int, h: int)
    requires
        0 <= w3 <= stride,
        0 <= h,
        (h - 1) * stride + w3 <= data.len(),
    ensures
        compact_rows(data, stride, w3, h).len() == h * w3,
    decreases h,
{
    if h > 0 {
        assert((h - 2) * stride + w3 <= (h - 1) * stride + w3) by (nonlinear_arith)
            requires 0 <= stride;
        lemma_compact_rows_len(data, stride, w3, h - 1);
        assert(0 <= (h - 1) * stride) by (nonlinear_arith)
            requires 0 <= stride, 1 <= h;
        assert(plane_row(data, stride, w3, h - 1).len() == w3);
        assert(compact_rows(data, stride, w3, h)
            == compact_rows(data, stride, w3, h - 1) + plane_row(data, stride, w3, h - 1));
        assert(compact_rows(data, stride, w3, h).len()
            == compact_rows(data, stride, w3, h - 1).len()
                + plane_row(data, stride, w3, h - 1).len());
        assert(h * w3 == (h - 1) * w3 + w3) by (nonlinear_arith);
        assert(compact_rows(data, stride, w3, h).len() == h * w3);
    } else {
        assert(compact_rows(data, stride, w3, h) == Seq::<u8>::empty());
        assert(compact_rows(data, stride, w3, h).len() == h * w3);
    }
}

/// Every byte of the compacted raster comes from the pixel content of its
/// row: offset `y * w3 + x` of the raster equals offset `y * stride + x` of
/// the plane.  In particular no padding byte of the plane is kept.
pub proof fn lemma_compact_rows_index(data: Seq<u8>, stride: int, w3: int, h: int, y: int, x: int)
    requires
        0 <= w3 <= stride,
        0 <= y < h,
        0 <= x < w3,
        (h - 1) * stride + w3 <= data.len(),
    ensures
        compact_rows(data, stride, w3, h).len() == h * w3,
        compact_rows(data, stride, w3, h)[y * w3 + x] == data[y * stride + x],
    decreases h,
{
    lemma_compact_rows_len(data, stride, w3, h);
    assert(0 <= (h - 1) * stride) by (nonlinear_arith)
        requires 0 <= stride, 1 <= h;
    assert(y * stride <= (h - 1) * stride) by (nonlinear_arith)
        requires y <= h - 1, 0 <= stride;
    if y == h - 1 {
        assert((h - 2) * stride + w3 <= (h - 1) * stride + w3) by (nonlinear_arith)
            requires 0 <= stride;
        lemma_compact_rows_len(data, stride, w3, h - 1);
        assert(0 <= y * w3 && y * w3 + x < h * w3) by (nonlinear_arith)
            requires 0 <= y, 0 <= x < w3, y == h - 1;
        assert(compact_rows(data, stride, w3, h)[y * w3 + x]
            == plane_row(data, stride, w3, h - 1)[x]);
        assert(plane_row(data, stride, w3, h - 1)[x] == data[y * stride + x]);
    } else {
        assert((h - 2) * stride + w3 <= (h - 1) * stride + w3) by (nonlinear_arith)
            requires 0 <= stride;
        lemma_compact_rows_index(data, stride, w3, h - 1, y, x);
        assert(y * w3 + x < (h - 1) * w3) by (nonlinear_arith)
            requires 0 <= x < w3, 0 <= y < h - 1;
    }
}

/// Compact a decoded interleaved plane into a tightly packed RGB raster,
/// dropping the `stride - 3 * width` padding bytes of each row.
///
/// Fails with `decode-failed` when a dimension is zero and with
/// `raster-malformed` when the plane is too small for its stated geometry.
pub fn compact_plane(width: u32, height: u32, stride: usize, data: &Vec<u8>)
    -> (r: Result<RgbRaster, ConvertError>)
    ensures
        match r {
            Ok(ra) => {
                &&& width > 0 && height > 0
                &&& plane_geometry_ok(width, height, stride as int, data@.len() as int)
                &&& ra.wf()
                &&& ra.width == width
                &&& ra.height == height
                &&& ra.data@ == compact_rows(data@, stride as int, 3 * width as int, height as int)
            },
            Err(er) => {
                &&& (width == 0 || height == 0 || !plane_geometry_ok(width, height, stride as int, data@.len() as int))
                &&& if width == 0 || height == 0 {
                        er.kind == ErrorKind::DecodeFailed
                    } else {
                        er.kind == ErrorKind::RasterMalformed
                    }
            },
        },
{
    if width == 0 || height == 0 {
        return Err(ConvertError::new(ErrorKind::DecodeFailed, "decoded image has a zero dimension"));
    }
    // Check the geometry in 128-bit arithmetic: no overflow at any plane size.
    let w3_wide: u128 = 3 * (width as u128);
    let hm1: u128 = (height - 1) as u128;
    let st: u128 = stride as u128;
    proof {
        assert(hm1 * st <= 0xffffffffu128 * 0xffffffffffffffffu128) by (nonlinear_arith)
            requires hm1 <= 0xffffffffu128, st <= 0xffffffffffffffffu128;
    }
    let need: u128 = hm1 * st + w3_wide;
    if st < w3_wide || (data.len() as u128) < need {
        return Err(ConvertError::new(ErrorKind::RasterMalformed, "plane is smaller than its stated geometry"));
    }
    let w3: usize = 3 * (width as usize);

    let ghost gw3: int = 3 * width as int;
    let ghost gstride: int = stride as int;
    let mut out: Vec<u8> = Vec::new();
    let mut y: usize = 0;
    while y < height as usize
        invariant
            0 <= y <= height,
            gw3 == 3 * width as int,
            gstride == stride as int,
            w3 == gw3,
            width > 0,
            height > 0,
            plane_geometry_ok(width, height, gstride, data@.len() as int),
            data@.len() <= usize::MAX,
            out@ == compact_rows(data@, gstride, gw3, y as int),
            out@.len() == y as int * gw3,
        decreases height - y,
    {
        proof {
            assert(y as int * gstride + gw3 <= (height as int - 1) * gstride + gw3)
                by (nonlinear_arith)
                requires y as int <= height as int - 1, 0 <= gstride;
            assert(0 <= y as int * gstride) by (nonlinear_arith)
                requires 0 <= y as int, 0 <= gstride;
            assert(y as int * gstride + gw3 <= data@.len());
        }
        let start: usize = y * stride;
        let row = vstd::slice::slice_subrange(data.as_slice(), start, start + w3);
        out.extend_from_slice(row);
        proof {
            assert(out@ =~= compact_rows(data@, gstride, gw3, y as int + 1));
            assert((y as int + 1) * gw3 == y as int * gw3 + gw3) by (nonlinear_arith);
        }
        y = y + 1;
    }
    proof {
        assert(width as int * height as int * 3 == height as int * (3 * width as int))
            by (nonlinear_arith);
    }
    Ok(RgbRaster { width, height, data: out })
}

} // verus!
