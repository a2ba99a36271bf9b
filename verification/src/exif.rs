//! Selection and unframing of the EXIF payload of an HEIC container.
//!
//! HEIF stores EXIF as item data prefixed by a 4-byte big-endian offset that
//! points at the TIFF header inside the item.  The offset prefix is not part
//! of the EXIF stream and is stripped before the payload is spliced into a
//! JPEG.

use vstd::prelude::*;

verus! {

/// An HEIF EXIF item with its 4-byte offset prefix removed.  A payload of at
/// most 4 bytes is degenerate and kept unchanged.
pub open spec fn stripped_exif(meta: Seq<u8>) -> Seq<u8> {
    if meta.len() > 4 {
        meta.skip(4)
    } else {
        meta
    }
}

/// Drop the 4-byte offset prefix of an HEIF EXIF item.
pub fn strip_exif_prefix(meta: Vec<u8>) -> (r: Vec<u8>)
    ensures
        r@ == stripped_exif(meta@),
{
    if meta.len() > 4 {
        let r = vstd::slice::slice_to_vec(vstd::slice::slice_subrange(meta.as_slice(), 4, meta.len()));
        assert(r@ =~= stripped_exif(meta@));
        r
    } else {
        meta
    }
}

/// Pick the EXIF payload of a container from the EXIF-typed metadata blocks,
/// in enumeration order: absent when there is none, otherwise the first
/// block with its offset prefix stripped.  Later blocks are ignored by
/// design: multiple EXIF items are not standardized.
pub fn select_exif_payload(blocks: Vec<Vec<u8>>) -> (r: Option<Vec<u8>>)
    ensures
        blocks@.len() == 0 ==> r is None,
        blocks@.len() > 0 ==> (r matches Some(p) && p@ == stripped_exif(blocks@[0]@)),
{
    let mut blocks = blocks;
    if blocks.len() == 0 {
        None
    } else {
        let first = blocks.remove(0);
        Some(strip_exif_prefix(first))
    }
}

} // verus!
