//! The grammar of the JFIF header region, stated mathematically over byte
//! sequences. Each specification function says exactly what the matching
//! executable parser returns: the decoded value and the cursor after it on
//! success, or the kind and byte offset of the first failure.

use vstd::prelude::*;

use crate::model::ErrorKind;
use crate::model::FrameHeaderV;
use crate::model::HuffTableV;
use crate::model::JfifHeaderV;
use crate::model::JpegV;
use crate::model::TablesMiscV;
use crate::model::Units;

verus! {

/// Result of one grammar rule: the parsed value and the cursor after it,
/// or the kind and offset of the failure.
pub type SpecResult<T> = Result<(T, int), (ErrorKind, int)>;

/// The big-endian 16-bit value of two bytes.
pub open spec fn be16(hi: u8, lo: u8) -> u16 {
    (256 * (hi as int) + (lo as int)) as u16
}

pub open spec fn soi_tag() -> Seq<u8> {
    seq![0xFFu8, 0xD8u8]
}

pub open spec fn eoi_tag() -> Seq<u8> {
    seq![0xFFu8, 0xD9u8]
}

pub open spec fn app0_tag() -> Seq<u8> {
    seq![0xFFu8, 0xE0u8]
}

pub open spec fn com_tag() -> Seq<u8> {
    seq![0xFFu8, 0xFEu8]
}

pub open spec fn dri_tag() -> Seq<u8> {
    seq![0xFFu8, 0xDDu8]
}

pub open spec fn dnl_tag() -> Seq<u8> {
    seq![0xFFu8, 0xDCu8]
}

pub open spec fn dht_tag() -> Seq<u8> {
    seq![0xFFu8, 0xC4u8]
}

pub open spec fn dqt_tag() -> Seq<u8> {
    seq![0xFFu8, 0xDBu8]
}

pub open spec fn sof0_tag() -> Seq<u8> {
    seq![0xFFu8, 0xC0u8]
}

/// The five-byte identifier `"JFIF\0"` that opens an APP0 payload.
pub open spec fn jfif_id() -> Seq<u8> {
    seq![0x4Au8, 0x46u8, 0x49u8, 0x46u8, 0x00u8]
}

/// One byte, consumed; `Truncated` at the cursor if none remains.
pub open spec fn spec_read_u8(s: Seq<u8>, pos: int) -> SpecResult<u8> {
    if pos + 1 <= s.len() {
        Ok((s[pos], pos + 1))
    } else {
        Err((ErrorKind::Truncated, pos))
    }
}

/// Two bytes read big-endian; `Truncated` at the cursor if fewer remain.
pub open spec fn spec_read_u16(s: Seq<u8>, pos: int) -> SpecResult<u16> {
    if pos + 2 <= s.len() {
        Ok((be16(s[pos], s[pos + 1]), pos + 2))
    } else {
        Err((ErrorKind::Truncated, pos))
    }
}

/// An exact byte sequence, consumed; `Truncated` at the cursor if fewer
/// bytes remain than the tag is long, `UnexpectedMarker` at the cursor if
/// the bytes differ.
pub open spec fn spec_match_tag(s: Seq<u8>, pos: int, tag: Seq<u8>) -> SpecResult<()> {
    if pos + tag.len() > s.len() {
        Err((ErrorKind::Truncated, pos))
    } else if s.subrange(pos, pos + tag.len()) == tag {
        Ok(((), pos + tag.len()))
    } else {
        Err((ErrorKind::UnexpectedMarker, pos))
    }
}

/// Exactly `n` bytes, consumed uninterpreted; `Truncated` at the cursor if
/// fewer remain.
pub open spec fn spec_take(s: Seq<u8>, pos: int, n: int) -> SpecResult<Seq<u8>> {
    if pos + n <= s.len() {
        Ok((s.subrange(pos, pos + n), pos + n))
    } else {
        Err((ErrorKind::Truncated, pos))
    }
}

/// A segment-length field followed by its payload: a 16-bit big-endian
/// length that counts itself, so it must be at least 2 (`InvalidLength` at
/// the length field otherwise), followed by `length - 2` payload bytes.
pub open spec fn spec_read_framed(s: Seq<u8>, pos: int) -> SpecResult<Seq<u8>> {
    match spec_read_u16(s, pos) {
        Err(e) => Err(e),
        Ok((len, p1)) => if len < 2 {
            Err((ErrorKind::InvalidLength, pos))
        } else {
            spec_take(s, p1, len - 2)
        },
    }
}

/// The fixed fields of an APP0 payload after the identifier: major and
/// minor version, density-unit byte, horizontal and vertical density, and
/// the thumbnail dimensions. Nine bytes; `Truncated` names the first field
/// that does not fit.
pub ghost struct JfifFixed {
    pub maj_ver: u8,
    pub min_ver: u8,
    pub unit_byte: u8,
    pub hor_dens: u16,
    pub ver_dens: u16,
    pub thumb_width: u8,
    pub thumb_height: u8,
}

pub open spec fn spec_read_jfif_fields(s: Seq<u8>, pos: int) -> SpecResult<JfifFixed> {
    if s.len() < pos + 1 {
        Err((ErrorKind::Truncated, pos))
    } else if s.len() < pos + 2 {
        Err((ErrorKind::Truncated, pos + 1))
    } else if s.len() < pos + 3 {
        Err((ErrorKind::Truncated, pos + 2))
    } else if s.len() < pos + 5 {
        Err((ErrorKind::Truncated, pos + 3))
    } else if s.len() < pos + 7 {
        Err((ErrorKind::Truncated, pos + 5))
    } else if s.len() < pos + 8 {
        Err((ErrorKind::Truncated, pos + 7))
    } else if s.len() < pos + 9 {
        Err((ErrorKind::Truncated, pos + 8))
    } else {
        Ok((
            (JfifFixed {
                maj_ver: s[pos],
                min_ver: s[pos + 1],
                unit_byte: s[pos + 2],
                hor_dens: be16(s[pos + 3], s[pos + 4]),
                ver_dens: be16(s[pos + 5], s[pos + 6]),
                thumb_width: s[pos + 7],
                thumb_height: s[pos + 8],
            }),
            pos + 9,
        ))
    }
}

/// The mandatory JFIF header segment: the APP0 marker, the segment length,
/// the `"JFIF\0"` identifier, the fixed fields, and the thumbnail. The
/// declared length must equal 16 plus the thumbnail byte length
/// `width * height * 3`; `ThumbnailSizeMismatch` at the length field
/// otherwise.
pub open spec fn spec_parse_jfif(s: Seq<u8>, pos: int) -> SpecResult<JfifHeaderV> {
    match spec_match_tag(s, pos, app0_tag()) {
        Err(e) => Err(e),
        Ok((_, p1)) => match spec_read_u16(s, p1) {
            Err(e) => Err(e),
            Ok((len, p2)) => match spec_match_tag(s, p2, jfif_id()) {
                Err(e) => Err(e),
                Ok((_, p3)) => match spec_read_jfif_fields(s, p3) {
                    Err(e) => Err(e),
                    Ok((f, p4)) => if 3 * f.thumb_width * f.thumb_height + 16 != len {
                        Err((ErrorKind::ThumbnailSizeMismatch, p1))
                    } else {
                        match spec_take(s, p4, 3 * f.thumb_width * f.thumb_height) {
                            Err(e) => Err(e),
                            Ok((thumb, p5)) => Ok((
                                (JfifHeaderV {
                                    maj_ver: f.maj_ver,
                                    min_ver: f.min_ver,
                                    units: Units::spec_from_u8(f.unit_byte),
                                    hor_dens: f.hor_dens,
                                    ver_dens: f.ver_dens,
                                    thumb_width: f.thumb_width,
                                    thumb_height: f.thumb_height,
                                    thumbnail: thumb,
                                }),
                                p5,
                            )),
                        }
                    },
                },
            },
        },
    }
}

/// A comment segment: the COM marker and a framed payload, kept verbatim.
pub open spec fn spec_parse_com(s: Seq<u8>, pos: int) -> SpecResult<TablesMiscV> {
    match spec_match_tag(s, pos, com_tag()) {
        Err(e) => Err(e),
        Ok((_, p1)) => match spec_read_framed(s, p1) {
            Err(e) => Err(e),
            Ok((d, p2)) => Ok((TablesMiscV::COM(d), p2)),
        },
    }
}

/// An application-data segment: `0xFF` then a marker byte in
/// `0xE0 ..= 0xEF` (its low nibble is the application-segment index), then
/// a framed payload, kept verbatim.
pub open spec fn spec_parse_appn(s: Seq<u8>, pos: int) -> SpecResult<TablesMiscV> {
    if pos + 2 > s.len() {
        Err((ErrorKind::Truncated, pos))
    } else if s[pos] != 0xFF {
        Err((ErrorKind::UnexpectedMarker, pos))
    } else if !(0xE0 <= s[pos + 1] && s[pos + 1] <= 0xEF) {
        Err((ErrorKind::UnexpectedMarker, pos + 1))
    } else {
        match spec_read_framed(s, pos + 2) {
            Err(e) => Err(e),
            Ok((d, p2)) => Ok((TablesMiscV::APP((s[pos + 1] - 0xE0) as u8, d), p2)),
        }
    }
}

/// A restart-interval segment: the DRI marker, a length field that must be
/// exactly 4 (`InvalidLength` at the length field otherwise), and the
/// 16-bit interval value.
pub open spec fn spec_parse_dri(s: Seq<u8>, pos: int) -> SpecResult<TablesMiscV> {
    match spec_match_tag(s, pos, dri_tag()) {
        Err(e) => Err(e),
        Ok((_, p1)) => match spec_read_u16(s, p1) {
            Err(e) => Err(e),
            Ok((len, p2)) => if len != 4 {
                Err((ErrorKind::InvalidLength, p1))
            } else {
                match spec_read_u16(s, p2) {
                    Err(e) => Err(e),
                    Ok((v, p3)) => Ok((TablesMiscV::DRI(v), p3)),
                }
            },
        },
    }
}

/// A number-of-lines (DNL) segment: the DNL marker, a length field that
/// must be exactly 4 (`InvalidLength` at the length field otherwise), and
/// a strictly positive 16-bit line count (`InvalidRestartCount` at the
/// count otherwise).
pub open spec fn spec_parse_dnl(s: Seq<u8>, pos: int) -> SpecResult<u16> {
    match spec_match_tag(s, pos, dnl_tag()) {
        Err(e) => Err(e),
        Ok((_, p1)) => match spec_read_u16(s, p1) {
            Err(e) => Err(e),
            Ok((len, p2)) => if len != 4 {
                Err((ErrorKind::InvalidLength, p1))
            } else {
                match spec_read_u16(s, p2) {
                    Err(e) => Err(e),
                    Ok((v, p3)) => if v == 0 {
                        Err((ErrorKind::InvalidRestartCount, p2))
                    } else {
                        Ok((v, p3))
                    },
                }
            },
        },
    }
}

/// A Huffman table container: the DHT marker and a framed payload, kept
/// undecoded (a container may hold several tables whose boundaries only
/// full decoding reveals; see `spec_parse_hufftable`).
pub open spec fn spec_parse_dht(s: Seq<u8>, pos: int) -> SpecResult<TablesMiscV> {
    match spec_match_tag(s, pos, dht_tag()) {
        Err(e) => Err(e),
        Ok((_, p1)) => match spec_read_framed(s, p1) {
            Err(e) => Err(e),
            Ok((d, p2)) => Ok((TablesMiscV::DHT(d), p2)),
        },
    }
}

/// A quantization table container: the DQT marker and a framed payload,
/// kept undecoded.
pub open spec fn spec_parse_dqt(s: Seq<u8>, pos: int) -> SpecResult<TablesMiscV> {
    match spec_match_tag(s, pos, dqt_tag()) {
        Err(e) => Err(e),
        Ok((_, p1)) => match spec_read_framed(s, p1) {
            Err(e) => Err(e),
            Ok((d, p2)) => Ok((TablesMiscV::DQT(d), p2)),
        },
    }
}

/// The sum of a sequence of bytes.
pub open spec fn spec_sum(s: Seq<u8>) -> int
    decreases s.len(),
{
    if s.len() == 0 {
        0
    } else {
        spec_sum(s.drop_last()) + s.last()
    }
}

/// One Huffman table header inside a DHT payload: a class/destination byte
/// whose high nibble must be 0 or 1 and whose low nibble must be below 4
/// (`MalformedHuffmanHeader` at that byte otherwise), then the 16 symbol
/// counts, whose sum must not exceed 256 (`MalformedHuffmanHeader` at the
/// first count otherwise). Yields class, destination, the counts, and
/// their sum.
pub open spec fn spec_parse_huffhead(s: Seq<u8>, pos: int) -> SpecResult<(u8, u8, Seq<u8>, u16)> {
    match spec_read_u8(s, pos) {
        Err(e) => Err(e),
        Ok((cd, p1)) => if !((cd >> 4) < 2 && (cd & 0x0F) < 4) {
            Err((ErrorKind::MalformedHuffmanHeader, pos))
        } else {
            match spec_take(s, p1, 16) {
                Err(e) => Err(e),
                Ok((counts, p2)) => if spec_sum(counts) > 256 {
                    Err((ErrorKind::MalformedHuffmanHeader, p1))
                } else {
                    Ok(((cd >> 4, cd & 0x0F, counts, spec_sum(counts) as u16), p2))
                },
            }
        },
    }
}

/// One full Huffman table inside a DHT payload: its header followed by as
/// many symbol values as the counts sum to.
pub open spec fn spec_parse_hufftable(s: Seq<u8>, pos: int) -> SpecResult<HuffTableV> {
    match spec_parse_huffhead(s, pos) {
        Err(e) => Err(e),
        Ok((head, p1)) => match spec_take(s, p1, head.3 as int) {
            Err(e) => Err(e),
            Ok((vals, p2)) => Ok((
                (HuffTableV { class: head.0, dest: head.1, cnt_len: head.2, huff_val: vals }),
                p2,
            )),
        },
    }
}

/// One component descriptor of a frame header: identifier, a sampling byte
/// split into its high (horizontal) and low (vertical) nibble, and the
/// quantization-table selector.
pub open spec fn spec_parse_comp_param(s: Seq<u8>, pos: int) -> SpecResult<crate::model::CompParam> {
    if s.len() < pos + 1 {
        Err((ErrorKind::Truncated, pos))
    } else if s.len() < pos + 2 {
        Err((ErrorKind::Truncated, pos + 1))
    } else if s.len() < pos + 3 {
        Err((ErrorKind::Truncated, pos + 2))
    } else {
        Ok((
            (crate::model::CompParam {
                id: s[pos],
                hor_sampling: s[pos + 1] >> 4,
                ver_sampling: s[pos + 1] & 0x0F,
                quant_selector: s[pos + 2],
            }),
            pos + 3,
        ))
    }
}

/// Exactly `n` component descriptors, in stream order.
pub open spec fn spec_parse_comp_params(s: Seq<u8>, pos: int, n: int) -> SpecResult<
    Seq<crate::model::CompParam>,
>
    decreases n,
{
    if n <= 0 {
        Ok((Seq::empty(), pos))
    } else {
        match spec_parse_comp_param(s, pos) {
            Err(e) => Err(e),
            Ok((c, p1)) => match spec_parse_comp_params(s, p1, n - 1) {
                Err(e) => Err(e),
                Ok((cs, p2)) => Ok((seq![c] + cs, p2)),
            },
        }
    }
}

/// A baseline frame header: the SOF0 marker, a segment length of at least
/// 2 (`InvalidLength` at the length field otherwise; the declared length
/// is not otherwise checked against the bytes consumed), precision, image
/// height and width, the component count, and that many component
/// descriptors.
pub open spec fn spec_parse_sof0(s: Seq<u8>, pos: int) -> SpecResult<FrameHeaderV> {
    match spec_match_tag(s, pos, sof0_tag()) {
        Err(e) => Err(e),
        Ok((_, p1)) => match spec_read_u16(s, p1) {
            Err(e) => Err(e),
            Ok((len, p2)) => if len < 2 {
                Err((ErrorKind::InvalidLength, p1))
            } else {
                match spec_read_u8(s, p2) {
                    Err(e) => Err(e),
                    Ok((prec, p3)) => match spec_read_u16(s, p3) {
                        Err(e) => Err(e),
                        Ok((height, p4)) => match spec_read_u16(s, p4) {
                            Err(e) => Err(e),
                            Ok((width, p5)) => match spec_read_u8(s, p5) {
                                Err(e) => Err(e),
                                Ok((n, p6)) => match spec_parse_comp_params(s, p6, n as int) {
                                    Err(e) => Err(e),
                                    Ok((cs, p7)) => Ok((
                                        (FrameHeaderV {
                                            precision: prec,
                                            height: height,
                                            width: width,
                                            comp_params: cs,
                                        }),
                                        p7,
                                    )),
                                },
                            },
                        },
                    },
                }
            },
        },
    }
}

/// The optional-segment dispatcher: the marker at the cursor picks the
/// segment grammar, among restart-interval, application-data, comment,
/// Huffman container and quantization container (their markers are
/// disjoint, so this equals trying them in that fixed order). A marker
/// that belongs to none of them — the end-of-image or frame-header marker
/// among others — yields `NoMatchingSegment`, which ends the
/// optional-segment region; a failure after a recognized marker is a
/// failure of the whole parse. An APP0 marker here is generic application
/// data: only immediately after the start-of-image marker does the JFIF
/// header grammar claim it.
pub open spec fn spec_parse_tab_misc(s: Seq<u8>, pos: int) -> SpecResult<TablesMiscV> {
    if pos + 2 > s.len() {
        Err((ErrorKind::NoMatchingSegment, pos))
    } else if s[pos] != 0xFF {
        Err((ErrorKind::NoMatchingSegment, pos))
    } else if s[pos + 1] == 0xDD {
        spec_parse_dri(s, pos)
    } else if 0xE0 <= s[pos + 1] && s[pos + 1] <= 0xEF {
        spec_parse_appn(s, pos)
    } else if s[pos + 1] == 0xFE {
        spec_parse_com(s, pos)
    } else if s[pos + 1] == 0xC4 {
        spec_parse_dht(s, pos)
    } else if s[pos + 1] == 0xDB {
        spec_parse_dqt(s, pos)
    } else {
        Err((ErrorKind::NoMatchingSegment, pos))
    }
}

/// On success the dispatcher consumes at least a marker and a length field
/// and stays inside the buffer.
pub proof fn lemma_tab_misc_advances(s: Seq<u8>, pos: int)
    ensures
        spec_parse_tab_misc(s, pos) matches Ok((t, p)) ==> pos + 4 <= p <= s.len(),
{
}

/// Zero or more optional segments: the dispatcher is applied until it
/// reports `NoMatchingSegment`, whose position ends the region; any other
/// failure is a failure of the whole parse. Stream order is preserved.
pub open spec fn spec_parse_tables(s: Seq<u8>, pos: int) -> SpecResult<Seq<TablesMiscV>>
    decreases s.len() - pos,
{
    match spec_parse_tab_misc(s, pos) {
        Err((kind, off)) => if kind == ErrorKind::NoMatchingSegment {
            Ok((Seq::empty(), pos))
        } else {
            Err((kind, off))
        },
        Ok((t, p)) => {
            proof {
                lemma_tab_misc_advances(s, pos);
            }
            match spec_parse_tables(s, p) {
                Err(e) => Err(e),
                Ok((ts, q)) => Ok((seq![t] + ts, q)),
            }
        },
    }
}

/// A whole image region: the start-of-image marker, the mandatory JFIF
/// header, zero or more optional segments, an optional baseline frame
/// header (a frame header that fails to parse is treated as absent), and
/// the end-of-image marker. Bytes after the end-of-image marker are left
/// unread.
pub open spec fn spec_parse_jpeg(s: Seq<u8>) -> SpecResult<JpegV> {
    match spec_match_tag(s, 0, soi_tag()) {
        Err(e) => Err(e),
        Ok((_, p0)) => match spec_parse_jfif(s, p0) {
            Err(e) => Err(e),
            Ok((h, p1)) => match spec_parse_tables(s, p1) {
                Err(e) => Err(e),
                Ok((ts, p2)) => {
                    let p3 = match spec_parse_sof0(s, p2) {
                        Ok((_, q)) => q,
                        Err(_) => p2,
                    };
                    match spec_match_tag(s, p3, eoi_tag()) {
                        Err(e) => Err(e),
                        Ok((_, p4)) => Ok((JpegV { jfif_header: h, tables: ts }, p4)),
                    }
                },
            },
        },
    }
}

} // verus!
