use heictojpeg::convert::convert_decoded;
use heictojpeg::convert::convert_image;
use heictojpeg::raster::compact_plane;

/// A plane of `height` rows, `stride` bytes apart, whose pixel area is a
/// solid color and whose padding bytes are a loud sentinel.
fn solid_plane(width: u32, height: u32, stride: usize, rgb: [u8; 3]) -> Vec<u8> {
    let mut plane = vec![0xee_u8; stride * height as usize];
    for y in 0..height as usize {
        for x in 0..width as usize {
            let off = y * stride + x * 3;
            plane[off] = rgb[0];
            plane[off + 1] = rgb[1];
            plane[off + 2] = rgb[2];
        }
    }
    plane
}

#[test]
fn test_compact_plane_drops_padding() {
    // width 2, stride 8: two padding bytes per row must not survive
    let plane: Vec<u8> = vec![
        1, 2, 3, 4, 5, 6, 0xee, 0xee, // row 0
        7, 8, 9, 10, 11, 12, 0xee, 0xee, // row 1
    ];
    let raster = compact_plane(2, 2, 8, &plane).unwrap();
    assert_eq!(raster.width, 2);
    assert_eq!(raster.height, 2);
    assert_eq!(raster.data, vec![1, 2, 3, 4, 5, 6, 7, 8, 9, 10, 11, 12]);
    // the raster holds exactly width * height * 3 bytes
    assert_eq!(raster.data.len(), 2 * 2 * 3);
}

#[test]
fn test_compact_plane_rejects_bad_geometry() {
    let err = compact_plane(0, 2, 8, &vec![0u8; 16]).unwrap_err();
    assert_eq!(err.kind.name(), "decode-failed");
    let err = compact_plane(2, 0, 8, &vec![0u8; 16]).unwrap_err();
    assert_eq!(err.kind.name(), "decode-failed");
    // stride smaller than a pixel row
    let err = compact_plane(4, 2, 8, &vec![0u8; 16]).unwrap_err();
    assert_eq!(err.kind.name(), "raster-malformed");
    // plane shorter than its stated geometry
    let err = compact_plane(2, 3, 8, &vec![0u8; 16]).unwrap_err();
    assert_eq!(err.kind.name(), "raster-malformed");
}

#[test]
fn test_convert_solid_red_no_exif() {
    let width = 16u32;
    let height = 16u32;
    let stride = 48usize;
    let plane = solid_plane(width, height, stride, [255, 0, 0]);
    let out = convert_decoded(width, height, stride, &plane, &None).unwrap();

    // a JPEG byte stream: SOI first, EOI last
    assert_eq!(&out[0..2], &[0xff, 0xd8]);
    assert_eq!(&out[out.len() - 2..], &[0xff, 0xd9]);

    // no APP1-EXIF segment
    let parsed = img_parts::jpeg::Jpeg::from_bytes(out.clone().into()).unwrap();
    assert!(img_parts::ImageEXIF::exif(&parsed).is_none());

    // the pixels survive the round trip within the quality-95 error
    let decoded = image::load_from_memory(&out).unwrap().to_rgb8();
    assert_eq!(decoded.dimensions(), (16, 16));
    for p in decoded.pixels() {
        assert!(p.0[0] >= 253, "red channel off: {:?}", p.0);
        assert!(p.0[1] <= 2 && p.0[2] <= 2, "color bled: {:?}", p.0);
    }
}

#[test]
fn test_convert_one_pixel() {
    // a 1x1 image converts to a 1x1 JPEG
    let out = convert_decoded(1, 1, 3, &vec![10, 200, 30], &None).unwrap();
    assert_eq!(&out[0..2], &[0xff, 0xd8]);
    assert_eq!(&out[out.len() - 2..], &[0xff, 0xd9]);
    let decoded = image::load_from_memory(&out).unwrap().to_rgb8();
    assert_eq!(decoded.dimensions(), (1, 1));
}

#[test]
fn test_convert_padded_stride_leaves_no_stripes() {
    // width 13 and a stride well past width * 3: the sentinel padding must
    // not show up as pixels anywhere, in particular not at the right edge
    let width = 13u32;
    let height = 8u32;
    let stride = 64usize;
    let plane = solid_plane(width, height, stride, [100, 150, 200]);
    let out = convert_decoded(width, height, stride, &plane, &None).unwrap();

    let decoded = image::load_from_memory(&out).unwrap().to_rgb8();
    assert_eq!(decoded.dimensions(), (13, 8));
    for p in decoded.pixels() {
        assert!(
            (p.0[0] as i32 - 100).abs() <= 8
                && (p.0[1] as i32 - 150).abs() <= 8
                && (p.0[2] as i32 - 200).abs() <= 8,
            "padding leaked into the raster: {:?}",
            p.0
        );
    }
}

#[test]
fn test_convert_with_exif() {
    let width = 8u32;
    let height = 8u32;
    let stride = 24usize;
    let plane = solid_plane(width, height, stride, [0, 255, 0]);

    // an HEIF metadata block: 4-byte offset prefix, then the TIFF stream
    let tiff = vec![0x49, 0x49, 0x2a, 0x00, 0x08, 0x00, 0x00, 0x00];
    let mut block = vec![0, 0, 0, 0];
    block.extend_from_slice(&tiff);

    let out = convert_image(width, height, stride, &plane, vec![block]).unwrap();
    assert_eq!(&out[0..2], &[0xff, 0xd8]);
    assert_eq!(&out[out.len() - 2..], &[0xff, 0xd9]);

    // the output holds the stripped payload as its APP1-EXIF segment,
    // spliced immediately after SOI
    assert_eq!(&out[2..4], &[0xff, 0xe1]);
    let parsed = img_parts::jpeg::Jpeg::from_bytes(out.clone().into()).unwrap();
    let exif = img_parts::ImageEXIF::exif(&parsed).expect("an APP1-EXIF segment");
    assert_eq!(exif.as_ref(), tiff.as_slice());

    // and it still decodes to the same image
    let decoded = image::load_from_memory(&out).unwrap().to_rgb8();
    assert_eq!(decoded.dimensions(), (8, 8));
}

#[test]
fn test_convert_exif_too_large() {
    let plane = solid_plane(4, 4, 12, [1, 2, 3]);
    // stripped payload of 65528 bytes: one over the APP1 capacity
    let block = vec![0u8; 4 + 65528];
    let err = convert_image(4, 4, 12, &plane, vec![block]).unwrap_err();
    assert_eq!(err.kind.name(), "exif-too-large");
    // one byte less fits
    let block = vec![0u8; 4 + 65527];
    assert!(convert_image(4, 4, 12, &plane, vec![block]).is_ok());
}

#[test]
fn test_convert_deterministic() {
    let plane = solid_plane(5, 7, 16, [33, 66, 99]);
    let payload = vec![0x49, 0x49, 0x2a, 0x00];
    let a = convert_decoded(5, 7, 16, &plane, &Some(payload.clone())).unwrap();
    let b = convert_decoded(5, 7, 16, &plane, &Some(payload)).unwrap();
    assert_eq!(a, b, "the pipeline is a pure function of its inputs");
}

#[test]
fn test_convert_two_exif_blocks_first_wins() {
    let plane = solid_plane(4, 4, 12, [9, 9, 9]);
    let first = vec![0, 0, 0, 0, 0x49, 0x49, 0x2a, 0x00];
    let second = vec![0, 0, 0, 0, 0x4d, 0x4d, 0x00, 0x2a];
    let out = convert_image(4, 4, 12, &plane, vec![first, second]).unwrap();
    let parsed = img_parts::jpeg::Jpeg::from_bytes(out.into()).unwrap();
    let exif = img_parts::ImageEXIF::exif(&parsed).expect("an APP1-EXIF segment");
    assert_eq!(exif.as_ref(), &[0x49, 0x49, 0x2a, 0x00]);
}
