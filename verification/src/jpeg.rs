//! JPEG marker-segment model and the EXIF injector.
//!
//! A JPEG byte stream opens with the SOI marker `FF D8`, followed by marker
//! segments, each `FF <marker> <16-bit big-endian length> <payload>` where the
//! length field covers itself and the payload.  The header region ends at the
//! SOS marker (`FF DA`, entropy-coded data follows) or at EOI (`FF D9`).
//! EXIF metadata lives in an APP1 segment (`FF E1`) whose payload opens with
//! the identifier `Exif\0\0`.

use vstd::prelude::*;

use crate::errors::ConvertError;
use crate::errors::ErrorKind;

verus! {

/// Largest EXIF payload that fits one APP1 segment: the 16-bit length field
/// covers itself (2 bytes) and the `Exif\0\0` identifier (6 bytes).
pub const MAX_EXIF_PAYLOAD: usize = 65527;

/// The `Exif\0\0` identifier that opens an APP1-EXIF segment payload.
pub open spec fn exif_identifier() -> Seq<u8> {
    seq![0x45u8, 0x78u8, 0x69u8, 0x66u8, 0x00u8, 0x00u8]
}

/// `s` begins with the SOI marker `FF D8`.
pub open spec fn starts_with_soi(s: Seq<u8>) -> bool {
    s.len() >= 2 && s[0] == 0xffu8 && s[1] == 0xd8u8
}

/// `s` ends with the EOI marker `FF D9`.
pub open spec fn ends_with_eoi(s: Seq<u8>) -> bool {
    s.len() >= 2 && s[s.len() - 2] == 0xffu8 && s[s.len() - 1] == 0xd9u8
}

/// The value of the 16-bit big-endian length field of the segment at `i`.
pub open spec fn seg_len_field(s: Seq<u8>, i: int) -> int {
    256 * (s[i + 2] as int) + (s[i + 3] as int)
}

/// A well-formed marker segment with a length field begins at `i`.
pub open spec fn valid_seg_at(s: Seq<u8>, i: int) -> bool {
    &&& 0 <= i
    &&& i + 4 <= s.len()
    &&& s[i] == 0xffu8
    &&& 2 <= seg_len_field(s, i)
    &&& i + 2 + seg_len_field(s, i) <= s.len()
}

/// The segment at `i` is an APP1 segment whose payload opens with `Exif\0\0`.
pub open spec fn is_exif_app1_at(s: Seq<u8>, i: int) -> bool {
    &&& valid_seg_at(s, i)
    &&& s[i + 1] == 0xe1u8
    &&& seg_len_field(s, i) >= 8
    &&& s.subrange(i + 4, i + 10) == exif_identifier()
}

/// The EXIF payload (after the identifier) of the APP1-EXIF segment at `i`.
pub open spec fn exif_payload_at(s: Seq<u8>, i: int) -> Seq<u8> {
    s.subrange(i + 10, i + 2 + seg_len_field(s, i))
}

/// Walk the marker segments of `s` from `i` up to the first SOS or EOI
/// marker.  `None` when the header region is malformed; otherwise
/// `Some((kept, exifs))`: the bytes of `s` from `i` on with every APP1-EXIF
/// segment removed (the region at and after the SOS or EOI marker is kept
/// verbatim), and the payloads of the removed segments, in order.
pub open spec fn scan_header(s: Seq<u8>, i: int) -> Option<(Seq<u8>, Seq<Seq<u8>>)>
    decreases s.len() - i,
{
    if i < 0 || i + 2 > s.len() {
        None
    } else if s[i] != 0xffu8 {
        None
    } else if s[i + 1] == 0xdau8 || s[i + 1] == 0xd9u8 {
        Some((s.subrange(i, s.len() as int), Seq::empty()))
    } else if i + 4 > s.len() {
        None
    } else if !(2 <= seg_len_field(s, i) && i + 2 + seg_len_field(s, i) <= s.len()) {
        None
    } else {
        match scan_header(s, i + 2 + seg_len_field(s, i)) {
            None => None,
            Some(rest) => {
                if is_exif_app1_at(s, i) {
                    Some((rest.0, seq![exif_payload_at(s, i)] + rest.1))
                } else {
                    Some((s.subrange(i, i + 2 + seg_len_field(s, i)) + rest.0, rest.1))
                }
            },
        }
    }
}

/// The APP1-EXIF segment framing payload `e`: marker, big-endian length
/// covering length field, identifier and payload, then `Exif\0\0` and `e`.
pub open spec fn app1_exif_segment(e: Seq<u8>) -> Seq<u8> {
    seq![0xffu8, 0xe1u8, (((e.len() + 8) / 256) as u8), (((e.len() + 8) % 256) as u8)]
        + exif_identifier() + e
}

/// What the EXIF injector returns on success: the input with any APP1-EXIF
/// segment removed and a fresh APP1-EXIF segment carrying `e` spliced in
/// immediately after SOI.
pub open spec fn inject_exif_spec(j: Seq<u8>, e: Seq<u8>) -> Option<Seq<u8>> {
    if !starts_with_soi(j) {
        None
    } else {
        match scan_header(j, 2) {
            None => None,
            Some(rest) => Some(seq![0xffu8, 0xd8u8] + app1_exif_segment(e) + rest.0),
        }
    }
}

/// The kept bytes of a successful scan are nonempty and end with the last
/// two bytes of the scanned stream: the region from the SOS or EOI marker on
/// is kept verbatim.
pub proof fn lemma_scan_header_tail(s: Seq<u8>, i: int)
    requires
        scan_header(s, i) is Some,
    ensures
        ({
            let kept = scan_header(s, i).unwrap().0;
            &&& kept.len() >= 2
            &&& s.len() >= 2
            &&& kept[kept.len() - 1] == s[s.len() - 1]
            &&& kept[kept.len() - 2] == s[s.len() - 2]
        }),
    decreases s.len() - i,
{
    let kept = scan_header(s, i).unwrap().0;
    if s[i + 1] == 0xdau8 || s[i + 1] == 0xd9u8 {
        assert(kept == s.subrange(i, s.len() as int));
    } else {
        let next = i + 2 + seg_len_field(s, i);
        lemma_scan_header_tail(s, next);
        let rest = scan_header(s, next).unwrap().0;
        if !is_exif_app1_at(s, i) {
            assert(kept == s.subrange(i, next) + rest);
            assert(kept[kept.len() - 1] == rest[rest.len() - 1]);
            assert(kept[kept.len() - 2] == rest[rest.len() - 2]);
        }
    }
}

/// Scanning a concatenation past its prefix is scanning the suffix: header
/// scanning reads nothing before its start index.
pub proof fn lemma_scan_header_shift(p: Seq<u8>, s: Seq<u8>, i: int)
    requires
        0 <= i,
    ensures
        scan_header(p + s, p.len() + i) == scan_header(s, i),
    decreases s.len() - i,
{
    let ps = p + s;
    let j = p.len() + i;
    if i + 2 > s.len() {
    } else if s[i] != 0xffu8 {
        assert(ps[j] == s[i]);
    } else if s[i + 1] == 0xdau8 || s[i + 1] == 0xd9u8 {
        assert(ps.subrange(j, ps.len() as int) =~= s.subrange(i, s.len() as int));
    } else if i + 4 > s.len() {
    } else {
        assert(seg_len_field(ps, j) == seg_len_field(s, i));
        let len_field = seg_len_field(s, i);
        if 2 <= len_field && i + 2 + len_field <= s.len() {
            lemma_scan_header_shift(p, s, i + 2 + len_field);
            if len_field >= 8 {
                assert(ps.subrange(j + 4, j + 10) =~= s.subrange(i + 4, i + 10));
            }
            assert(is_exif_app1_at(ps, j) == is_exif_app1_at(s, i));
            match scan_header(s, i + 2 + len_field) {
                None => {},
                Some(rest) => {
                    if is_exif_app1_at(s, i) {
                        assert(exif_payload_at(ps, j) =~= exif_payload_at(s, i));
                        assert(seq![exif_payload_at(ps, j)] + rest.1
                            =~~= seq![exif_payload_at(s, i)] + rest.1);
                    } else {
                        assert(ps.subrange(j, j + 2 + len_field)
                            =~= s.subrange(i, i + 2 + len_field));
                    }
                },
            }
        }
    }
}

/// The kept bytes of a successful scan scan cleanly on their own: every
/// segment of them is kept again, and no APP1-EXIF segment remains.
pub proof fn lemma_scan_header_kept(s: Seq<u8>, i: int)
    requires
        scan_header(s, i) is Some,
    ensures
        ({
            let kept = scan_header(s, i).unwrap().0;
            scan_header(kept, 0) == Some((kept, Seq::<Seq<u8>>::empty()))
        }),
    decreases s.len() - i,
{
    let kept = scan_header(s, i).unwrap().0;
    if s[i + 1] == 0xdau8 || s[i + 1] == 0xd9u8 {
        assert(kept == s.subrange(i, s.len() as int));
        assert(kept.subrange(0, kept.len() as int) =~= kept);
    } else {
        let len_field = seg_len_field(s, i);
        let next = i + 2 + len_field;
        lemma_scan_header_kept(s, next);
        let rest = scan_header(s, next).unwrap().0;
        if is_exif_app1_at(s, i) {
            assert(kept == rest);
        } else {
            let seg = s.subrange(i, next);
            assert(kept == seg + rest);
            lemma_scan_header_tail(s, next);
            assert(kept[0] == s[i]);
            assert(kept[1] == s[i + 1]);
            assert(kept[2] == s[i + 2]);
            assert(kept[3] == s[i + 3]);
            assert(seg_len_field(kept, 0) == len_field);
            assert(valid_seg_at(kept, 0));
            if len_field >= 8 {
                assert(kept[4] == s[i + 4] && kept[5] == s[i + 5] && kept[6] == s[i + 6]
                    && kept[7] == s[i + 7] && kept[8] == s[i + 8] && kept[9] == s[i + 9]);
                assert(kept.subrange(4, 10) =~= s.subrange(i + 4, i + 10));
            }
            assert(!is_exif_app1_at(kept, 0));
            lemma_scan_header_shift(seg, rest, 0);
            assert(seg.len() == 2 + len_field);
            assert(scan_header(kept, 2 + len_field) == Some((rest, Seq::<Seq<u8>>::empty())));
            assert(kept.subrange(0, 2 + len_field) =~= seg);
            assert(scan_header(kept, 0) == Some((kept, Seq::<Seq<u8>>::empty())));
        }
    }
}

/// Splicing a fresh APP1-EXIF segment immediately after SOI yields a stream
/// whose header holds exactly that one EXIF payload, with the kept bytes of
/// the original stream unchanged behind it.
pub proof fn lemma_inject_scan(j: Seq<u8>, e: Seq<u8>)
    requires
        e.len() <= MAX_EXIF_PAYLOAD,
        starts_with_soi(j),
        scan_header(j, 2) is Some,
    ensures
        ({
            let kept = scan_header(j, 2).unwrap().0;
            let o = seq![0xffu8, 0xd8u8] + app1_exif_segment(e) + kept;
            &&& scan_header(o, 2) == Some((kept, seq![e]))
            &&& starts_with_soi(o)
        }),
{
    let kept = scan_header(j, 2).unwrap().0;
    let prefix = seq![0xffu8, 0xd8u8] + app1_exif_segment(e);
    let o = prefix + kept;
    let len_field = e.len() + 8;
    lemma_scan_header_tail(j, 2);
    vstd::arithmetic::div_mod::lemma_fundamental_div_mod(len_field as int, 256);
    assert(len_field / 256 < 256 && len_field % 256 < 256);
    assert(o[2] == 0xffu8 && o[3] == 0xe1u8);
    assert(o[4] == ((len_field / 256) as u8) && o[5] == ((len_field % 256) as u8));
    assert(seg_len_field(o, 2) == len_field);
    assert(prefix.len() == 12 + e.len());
    assert(2 + 2 + len_field == prefix.len());
    assert(valid_seg_at(o, 2));
    assert(o.subrange(6, 12) =~= exif_identifier());
    assert(is_exif_app1_at(o, 2));
    assert(exif_payload_at(o, 2) =~= e);
    lemma_scan_header_kept(j, 2);
    lemma_scan_header_shift(prefix, kept, 0);
    assert(scan_header(o, prefix.len() as int) == Some((kept, Seq::<Seq<u8>>::empty())));
    assert(seq![exif_payload_at(o, 2)] + Seq::<Seq<u8>>::empty() =~~= seq![e]);
    assert(scan_header(o, 2) == Some((kept, seq![e])));
}

/// Splice `exif` into `jpeg` as the APP1 segment immediately after SOI,
/// removing any APP1-EXIF segment already present.
///
/// Fails with `exif-too-large` when the payload cannot fit one APP1 segment,
/// and with `invalid-jpeg` when `jpeg` does not open with SOI or its header
/// region is not a well-formed run of marker segments.
pub fn inject_exif(jpeg: &Vec<u8>, exif: &Vec<u8>) -> (r: Result<Vec<u8>, ConvertError>)
    ensures
        exif@.len() > MAX_EXIF_PAYLOAD ==> (r matches Err(er) && er.kind == ErrorKind::ExifTooLarge),
        exif@.len() <= MAX_EXIF_PAYLOAD ==> match r {
            Ok(o) => Some(o@) == inject_exif_spec(jpeg@, exif@),
            Err(er) => inject_exif_spec(jpeg@, exif@) is None && er.kind == ErrorKind::InvalidJpeg,
        },
{
    if exif.len() > MAX_EXIF_PAYLOAD {
        return Err(ConvertError::new(ErrorKind::ExifTooLarge, "EXIF payload exceeds the APP1 segment capacity"));
    }
    if jpeg.len() < 2 || jpeg[0] != 0xff || jpeg[1] != 0xd8 {
        return Err(ConvertError::new(ErrorKind::InvalidJpeg, "missing SOI marker"));
    }

    let seg_len: usize = exif.len() + 8;
    let mut out: Vec<u8> = Vec::new();
    out.push(0xff);
    out.push(0xd8);
    out.push(0xff);
    out.push(0xe1);
    out.push((seg_len / 256) as u8);
    out.push((seg_len % 256) as u8);
    out.push(0x45);
    out.push(0x78);
    out.push(0x69);
    out.push(0x66);
    out.push(0x00);
    out.push(0x00);
    out.extend_from_slice(exif.as_slice());
    let base: usize = out.len();
    assert(out@ =~= seq![0xffu8, 0xd8u8] + app1_exif_segment(exif@));

    let mut i: usize = 2;
    loop
        invariant
            2 <= i <= jpeg@.len(),
            exif@.len() <= MAX_EXIF_PAYLOAD,
            base == 12 + exif@.len(),
            out@.len() >= base,
            out@.subrange(0, base as int) == seq![0xffu8, 0xd8u8] + app1_exif_segment(exif@),
            starts_with_soi(jpeg@),
            match scan_header(jpeg@, i as int) {
                None => scan_header(jpeg@, 2) is None,
                Some(rest) => scan_header(jpeg@, 2) matches Some(whole)
                    && whole.0 == out@.subrange(base as int, out@.len() as int) + rest.0,
            },
        decreases jpeg@.len() - i,
    {
        if jpeg.len() - i < 2 {
            return Err(ConvertError::new(ErrorKind::InvalidJpeg, "header region runs past the end"));
        }
        if jpeg[i] != 0xff {
            return Err(ConvertError::new(ErrorKind::InvalidJpeg, "expected a marker"));
        }
        let marker = jpeg[i + 1];
        if marker == 0xda || marker == 0xd9 {
            // End of the header region: keep the rest verbatim.
            let tail = vstd::slice::slice_subrange(jpeg.as_slice(), i, jpeg.len());
            out.extend_from_slice(tail);
            proof {
                assert(scan_header(jpeg@, i as int)
                    == Some::<(Seq<u8>, Seq<Seq<u8>>)>((jpeg@.subrange(i as int, jpeg@.len() as int), Seq::empty())));
                let whole = scan_header(jpeg@, 2)->Some_0;
                assert(out@ =~= seq![0xffu8, 0xd8u8] + app1_exif_segment(exif@) + whole.0);
            }
            return Ok(out);
        }
        if jpeg.len() - i < 4 {
            return Err(ConvertError::new(ErrorKind::InvalidJpeg, "segment header is truncated"));
        }
        let len_field: usize = 256 * (jpeg[i + 2] as usize) + (jpeg[i + 3] as usize);
        if len_field < 2 || len_field > jpeg.len() - (i + 2) {
            return Err(ConvertError::new(ErrorKind::InvalidJpeg, "segment length field is out of range"));
        }
        let seg_end: usize = i + 2 + len_field;
        let is_exif = marker == 0xe1 && len_field >= 8
            && jpeg[i + 4] == 0x45 && jpeg[i + 5] == 0x78 && jpeg[i + 6] == 0x69
            && jpeg[i + 7] == 0x66 && jpeg[i + 8] == 0x00 && jpeg[i + 9] == 0x00;
        proof {
            assert(valid_seg_at(jpeg@, i as int));
            if is_exif {
                assert(jpeg@.subrange(i + 4, i + 10) =~= exif_identifier());
                assert(is_exif_app1_at(jpeg@, i as int));
            } else {
                assert(!is_exif_app1_at(jpeg@, i as int)) by {
                    if jpeg@[i + 1] == 0xe1u8 && seg_len_field(jpeg@, i as int) >= 8
                        && jpeg@.subrange(i + 4, i + 10) == exif_identifier() {
                        assert(jpeg@[i + 4] == exif_identifier()[0]);
                        assert(jpeg@[i + 5] == exif_identifier()[1]);
                        assert(jpeg@[i + 6] == exif_identifier()[2]);
                        assert(jpeg@[i + 7] == exif_identifier()[3]);
                        assert(jpeg@[i + 8] == exif_identifier()[4]);
                        assert(jpeg@[i + 9] == exif_identifier()[5]);
                    }
                }
            }
        }
        if !is_exif {
            let seg = vstd::slice::slice_subrange(jpeg.as_slice(), i, seg_end);
            out.extend_from_slice(seg);
            proof {
                assert(out@.subrange(0, base as int)
                    =~= seq![0xffu8, 0xd8u8] + app1_exif_segment(exif@));
                match scan_header(jpeg@, seg_end as int) {
                    None => {},
                    Some(rest) => {
                        let whole = scan_header(jpeg@, 2)->Some_0;
                        assert(out@.subrange(base as int, out@.len() as int) + rest.0
                            =~= whole.0);
                    },
                }
            }
        }
        i = seg_end;
    }
}

} // verus!
