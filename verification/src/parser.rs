//! Executable parsers for the JFIF header region. Every function is proved
//! to return exactly what the grammar of `crate::grammar` says of its input:
//! the same decoded value and cursor on success, and the same failure kind
//! and byte offset otherwise. None of them panics or reads out of bounds.

use vstd::prelude::*;

use crate::grammar::jfif_id;
use crate::grammar::lemma_tab_misc_advances;
use crate::grammar::spec_match_tag;
use crate::grammar::spec_parse_appn;
use crate::grammar::spec_parse_com;
use crate::grammar::spec_parse_comp_param;
use crate::grammar::spec_parse_comp_params;
use crate::grammar::spec_parse_dht;
use crate::grammar::spec_parse_dnl;
use crate::grammar::spec_parse_dqt;
use crate::grammar::spec_parse_dri;
use crate::grammar::spec_parse_huffhead;
use crate::grammar::spec_parse_hufftable;
use crate::grammar::spec_parse_jfif;
use crate::grammar::spec_parse_jpeg;
use crate::grammar::spec_parse_sof0;
use crate::grammar::spec_parse_tab_misc;
use crate::grammar::spec_parse_tables;
use crate::grammar::spec_read_framed;
use crate::grammar::spec_read_jfif_fields;
use crate::grammar::spec_read_u16;
use crate::grammar::spec_read_u8;
use crate::grammar::spec_sum;
use crate::grammar::spec_take;
use crate::model::CompParam;
use crate::model::ErrorKind;
use crate::model::FrameHeader;
use crate::model::HuffTable;
use crate::model::JfifHeader;
use crate::model::Jpeg;
use crate::model::ParseError;
use crate::model::TablesMisc;
use crate::model::Units;
use crate::model::tables_view;

verus! {

/// Reads one byte and advances the cursor past it.
pub fn read_u8(buf: &[u8], pos: usize) -> (r: Result<(u8, usize), ParseError>)
    ensures
        (match r {
            Ok((v, p)) => spec_read_u8(buf@, pos as int) == Ok::<_, (ErrorKind, int)>((
                v,
                p as int,
            )),
            Err(e) => spec_read_u8(buf@, pos as int) == Err::<(u8, int), _>((
                e.kind,
                e.offset as int,
            )),
        }),
{
    if pos < buf.len() {
        Ok((buf[pos], pos + 1))
    } else {
        Err(ParseError { kind: ErrorKind::Truncated, offset: pos })
    }
}

/// Reads a big-endian 16-bit value and advances the cursor past it.
pub fn read_u16(buf: &[u8], pos: usize) -> (r: Result<(u16, usize), ParseError>)
    ensures
        (match r {
            Ok((v, p)) => spec_read_u16(buf@, pos as int) == Ok::<_, (ErrorKind, int)>((
                v,
                p as int,
            )),
            Err(e) => spec_read_u16(buf@, pos as int) == Err::<(u16, int), _>((
                e.kind,
                e.offset as int,
            )),
        }),
{
    if pos < buf.len() && buf.len() - pos >= 2 {
        let v: u16 = (buf[pos] as u16) * 256 + (buf[pos + 1] as u16);
        Ok((v, pos + 2))
    } else {
        Err(ParseError { kind: ErrorKind::Truncated, offset: pos })
    }
}

/// Consumes an exact two-byte tag and advances the cursor past it.
pub fn match_tag2(buf: &[u8], pos: usize, b0: u8, b1: u8) -> (r: Result<usize, ParseError>)
    ensures
        (match r {
            Ok(p) => spec_match_tag(buf@, pos as int, seq![b0, b1]) == Ok::<_, (ErrorKind, int)>((
                (),
                p as int,
            )),
            Err(e) => spec_match_tag(buf@, pos as int, seq![b0, b1]) == Err::<((), int), _>((
                e.kind,
                e.offset as int,
            )),
        }),
{
    if pos < buf.len() && buf.len() - pos >= 2 {
        if buf[pos] == b0 && buf[pos + 1] == b1 {
            proof {
                assert(buf@.subrange(pos as int, pos as int + 2) =~= seq![b0, b1]);
            }
            Ok(pos + 2)
        } else {
            proof {
                assert(buf@.subrange(pos as int, pos as int + 2)[0] == buf@[pos as int]);
                assert(buf@.subrange(pos as int, pos as int + 2)[1] == buf@[pos as int + 1]);
            }
            Err(ParseError { kind: ErrorKind::UnexpectedMarker, offset: pos })
        }
    } else {
        Err(ParseError { kind: ErrorKind::Truncated, offset: pos })
    }
}

/// Consumes the five-byte identifier `"JFIF\0"` and advances the cursor
/// past it.
fn match_jfif_id(buf: &[u8], pos: usize) -> (r: Result<usize, ParseError>)
    ensures
        (match r {
            Ok(p) => spec_match_tag(buf@, pos as int, jfif_id()) == Ok::<_, (ErrorKind, int)>((
                (),
                p as int,
            )),
            Err(e) => spec_match_tag(buf@, pos as int, jfif_id()) == Err::<((), int), _>((
                e.kind,
                e.offset as int,
            )),
        }),
{
    if pos < buf.len() && buf.len() - pos >= 5 {
        if buf[pos] == 0x4A && buf[pos + 1] == 0x46 && buf[pos + 2] == 0x49 && buf[pos + 3] == 0x46
            && buf[pos + 4] == 0x00 {
            proof {
                assert(buf@.subrange(pos as int, pos as int + 5) =~= jfif_id());
            }
            Ok(pos + 5)
        } else {
            proof {
                let sub = buf@.subrange(pos as int, pos as int + 5);
                assert(sub[0] == buf@[pos as int]);
                assert(sub[1] == buf@[pos as int + 1]);
                assert(sub[2] == buf@[pos as int + 2]);
                assert(sub[3] == buf@[pos as int + 3]);
                assert(sub[4] == buf@[pos as int + 4]);
            }
            Err(ParseError { kind: ErrorKind::UnexpectedMarker, offset: pos })
        }
    } else {
        Err(ParseError { kind: ErrorKind::Truncated, offset: pos })
    }
}

/// Consumes exactly `n` bytes uninterpreted, returning them as an owned
/// vector, and advances the cursor past them.
pub fn take_bytes(buf: &[u8], pos: usize, n: usize) -> (r: Result<(Vec<u8>, usize), ParseError>)
    ensures
        (match r {
            Ok((v, p)) => spec_take(buf@, pos as int, n as int) == Ok::<_, (ErrorKind, int)>((
                v@,
                p as int,
            )),
            Err(e) => spec_take(buf@, pos as int, n as int) == Err::<(Seq<u8>, int), _>((
                e.kind,
                e.offset as int,
            )),
        }),
{
    let avail: usize = buf.len();
    if pos <= avail && avail - pos >= n {
        let mut v: Vec<u8> = Vec::new();
        let mut i: usize = 0;
        while i < n
            invariant
                avail == buf@.len(),
                pos + n <= avail,
                i <= n,
                v@ == buf@.subrange(pos as int, pos as int + i as int),
            decreases n - i,
        {
            v.push(buf[pos + i]);
            i = i + 1;
            proof {
                assert(v@ =~= buf@.subrange(pos as int, pos as int + i as int));
            }
        }
        Ok((v, pos + n))
    } else {
        Err(ParseError { kind: ErrorKind::Truncated, offset: pos })
    }
}

/// Reads a segment-length field of at least 2 and then the `length - 2`
/// payload bytes it frames.
pub fn read_framed(buf: &[u8], pos: usize) -> (r: Result<(Vec<u8>, usize), ParseError>)
    ensures
        (match r {
            Ok((v, p)) => spec_read_framed(buf@, pos as int) == Ok::<_, (ErrorKind, int)>((
                v@,
                p as int,
            )),
            Err(e) => spec_read_framed(buf@, pos as int) == Err::<(Seq<u8>, int), _>((
                e.kind,
                e.offset as int,
            )),
        }),
{
    match read_u16(buf, pos) {
        Err(e) => Err(e),
        Ok((len, p1)) => {
            if len < 2 {
                Err(ParseError { kind: ErrorKind::InvalidLength, offset: pos })
            } else {
                take_bytes(buf, p1, (len - 2) as usize)
            }
        },
    }
}

/// Parses the mandatory JFIF header segment: APP0 marker, segment length,
/// `"JFIF\0"` identifier, version, density unit and densities, thumbnail
/// dimensions, and the thumbnail itself, whose byte length
/// `width * height * 3` must account for the declared length.
pub fn parse_jfif(buf: &[u8], pos: usize) -> (r: Result<(JfifHeader, usize), ParseError>)
    ensures
        (match r {
            Ok((h, p)) => spec_parse_jfif(buf@, pos as int) == Ok::<_, (ErrorKind, int)>((
                h@,
                p as int,
            )),
            Err(e) => spec_parse_jfif(buf@, pos as int) == Err::<
                (crate::model::JfifHeaderV, int),
                _,
            >((e.kind, e.offset as int)),
        }),
{
    let p1 = match match_tag2(buf, pos, 0xFF, 0xE0) {
        Ok(p) => p,
        Err(e) => {
            return Err(e);
        },
    };
    let (len, p2) = match read_u16(buf, p1) {
        Ok(x) => x,
        Err(e) => {
            return Err(e);
        },
    };
    let p3 = match match_jfif_id(buf, p2) {
        Ok(p) => p,
        Err(e) => {
            return Err(e);
        },
    };
    let (maj_ver, p4) = match read_u8(buf, p3) {
        Ok(x) => x,
        Err(e) => {
            return Err(e);
        },
    };
    let (min_ver, p5) = match read_u8(buf, p4) {
        Ok(x) => x,
        Err(e) => {
            return Err(e);
        },
    };
    let (unit_byte, p6) = match read_u8(buf, p5) {
        Ok(x) => x,
        Err(e) => {
            return Err(e);
        },
    };
    let (hor_dens, p7) = match read_u16(buf, p6) {
        Ok(x) => x,
        Err(e) => {
            return Err(e);
        },
    };
    let (ver_dens, p8) = match read_u16(buf, p7) {
        Ok(x) => x,
        Err(e) => {
            return Err(e);
        },
    };
    let (thumb_width, p9) = match read_u8(buf, p8) {
        Ok(x) => x,
        Err(e) => {
            return Err(e);
        },
    };
    let (thumb_height, p10) = match read_u8(buf, p9) {
        Ok(x) => x,
        Err(e) => {
            return Err(e);
        },
    };
    proof {
        assert(spec_read_jfif_fields(buf@, p3 as int) matches Ok((f, q)) && q == p10 as int
            && f.maj_ver == maj_ver && f.min_ver == min_ver && f.unit_byte == unit_byte
            && f.hor_dens == hor_dens && f.ver_dens == ver_dens && f.thumb_width == thumb_width
            && f.thumb_height == thumb_height);
        assert(3 * (thumb_width as int) * (thumb_height as int) <= 195075) by (nonlinear_arith)
            requires
                thumb_width <= 255,
                thumb_height <= 255;
    }
    let tsize: usize = 3 * (thumb_width as usize) * (thumb_height as usize);
    if tsize + 16 != len as usize {
        return Err(ParseError { kind: ErrorKind::ThumbnailSizeMismatch, offset: p1 });
    }
    let (thumbnail, p11) = match take_bytes(buf, p10, tsize) {
        Ok(x) => x,
        Err(e) => {
            return Err(e);
        },
    };
    Ok((
        JfifHeader {
            maj_ver,
            min_ver,
            units: Units::from_u8(unit_byte),
            hor_dens,
            ver_dens,
            thumb_width,
            thumb_height,
            thumbnail,
        },
        p11,
    ))
}

/// Parses a comment segment: COM marker and framed payload.
pub fn parse_com(buf: &[u8], pos: usize) -> (r: Result<(TablesMisc, usize), ParseError>)
    ensures
        (match r {
            Ok((t, p)) => spec_parse_com(buf@, pos as int) == Ok::<_, (ErrorKind, int)>((
                t@,
                p as int,
            )),
            Err(e) => spec_parse_com(buf@, pos as int) == Err::<
                (crate::model::TablesMiscV, int),
                _,
            >((e.kind, e.offset as int)),
        }),
{
    let p1 = match match_tag2(buf, pos, 0xFF, 0xFE) {
        Ok(p) => p,
        Err(e) => {
            return Err(e);
        },
    };
    match read_framed(buf, p1) {
        Err(e) => Err(e),
        Ok((d, p2)) => Ok((TablesMisc::COM(d), p2)),
    }
}

/// Parses an application-data segment: `0xFF`, a marker byte in
/// `0xE0 ..= 0xEF`, and a framed payload. The application-segment index is
/// the marker byte minus `0xE0`.
pub fn parse_appn(buf: &[u8], pos: usize) -> (r: Result<(TablesMisc, usize), ParseError>)
    ensures
        (match r {
            Ok((t, p)) => spec_parse_appn(buf@, pos as int) == Ok::<_, (ErrorKind, int)>((
                t@,
                p as int,
            )),
            Err(e) => spec_parse_appn(buf@, pos as int) == Err::<
                (crate::model::TablesMiscV, int),
                _,
            >((e.kind, e.offset as int)),
        }),
{
    if pos < buf.len() && buf.len() - pos >= 2 {
        if buf[pos] != 0xFF {
            Err(ParseError { kind: ErrorKind::UnexpectedMarker, offset: pos })
        } else {
            let m: u8 = buf[pos + 1];
            if 0xE0 <= m && m <= 0xEF {
                match read_framed(buf, pos + 2) {
                    Err(e) => Err(e),
                    Ok((d, p2)) => Ok((TablesMisc::APP(m - 0xE0, d), p2)),
                }
            } else {
                Err(ParseError { kind: ErrorKind::UnexpectedMarker, offset: pos + 1 })
            }
        }
    } else {
        Err(ParseError { kind: ErrorKind::Truncated, offset: pos })
    }
}

/// Parses a restart-interval segment: DRI marker, a length field that must
/// be exactly 4, and the interval value.
pub fn parse_dri(buf: &[u8], pos: usize) -> (r: Result<(TablesMisc, usize), ParseError>)
    ensures
        (match r {
            Ok((t, p)) => spec_parse_dri(buf@, pos as int) == Ok::<_, (ErrorKind, int)>((
                t@,
                p as int,
            )),
            Err(e) => spec_parse_dri(buf@, pos as int) == Err::<
                (crate::model::TablesMiscV, int),
                _,
            >((e.kind, e.offset as int)),
        }),
{
    let p1 = match match_tag2(buf, pos, 0xFF, 0xDD) {
        Ok(p) => p,
        Err(e) => {
            return Err(e);
        },
    };
    let (len, p2) = match read_u16(buf, p1) {
        Ok(x) => x,
        Err(e) => {
            return Err(e);
        },
    };
    if len != 4 {
        return Err(ParseError { kind: ErrorKind::InvalidLength, offset: p1 });
    }
    match read_u16(buf, p2) {
        Err(e) => Err(e),
        Ok((v, p3)) => Ok((TablesMisc::DRI(v), p3)),
    }
}

/// Parses a number-of-lines (DNL) segment: DNL marker, a length field that
/// must be exactly 4, and a strictly positive line count.
pub fn parse_dnl(buf: &[u8], pos: usize) -> (r: Result<(u16, usize), ParseError>)
    ensures
        (match r {
            Ok((v, p)) => spec_parse_dnl(buf@, pos as int) == Ok::<_, (ErrorKind, int)>((
                v,
                p as int,
            )),
            Err(e) => spec_parse_dnl(buf@, pos as int) == Err::<(u16, int), _>((
                e.kind,
                e.offset as int,
            )),
        }),
{
    let p1 = match match_tag2(buf, pos, 0xFF, 0xDC) {
        Ok(p) => p,
        Err(e) => {
            return Err(e);
        },
    };
    let (len, p2) = match read_u16(buf, p1) {
        Ok(x) => x,
        Err(e) => {
            return Err(e);
        },
    };
    if len != 4 {
        return Err(ParseError { kind: ErrorKind::InvalidLength, offset: p1 });
    }
    match read_u16(buf, p2) {
        Err(e) => Err(e),
        Ok((v, p3)) => {
            if v == 0 {
                Err(ParseError { kind: ErrorKind::InvalidRestartCount, offset: p2 })
            } else {
                Ok((v, p3))
            }
        },
    }
}

/// Parses a Huffman table container: DHT marker and framed payload, kept
/// undecoded.
pub fn parse_dht(buf: &[u8], pos: usize) -> (r: Result<(TablesMisc, usize), ParseError>)
    ensures
        (match r {
            Ok((t, p)) => spec_parse_dht(buf@, pos as int) == Ok::<_, (ErrorKind, int)>((
                t@,
                p as int,
            )),
            Err(e) => spec_parse_dht(buf@, pos as int) == Err::<
                (crate::model::TablesMiscV, int),
                _,
            >((e.kind, e.offset as int)),
        }),
{
    let p1 = match match_tag2(buf, pos, 0xFF, 0xC4) {
        Ok(p) => p,
        Err(e) => {
            return Err(e);
        },
    };
    match read_framed(buf, p1) {
        Err(e) => Err(e),
        Ok((d, p2)) => Ok((TablesMisc::DHT(d), p2)),
    }
}

/// Parses a quantization table container: DQT marker and framed payload,
/// kept undecoded.
pub fn parse_dqt(buf: &[u8], pos: usize) -> (r: Result<(TablesMisc, usize), ParseError>)
    ensures
        (match r {
            Ok((t, p)) => spec_parse_dqt(buf@, pos as int) == Ok::<_, (ErrorKind, int)>((
                t@,
                p as int,
            )),
            Err(e) => spec_parse_dqt(buf@, pos as int) == Err::<
                (crate::model::TablesMiscV, int),
                _,
            >((e.kind, e.offset as int)),
        }),
{
    let p1 = match match_tag2(buf, pos, 0xFF, 0xDB) {
        Ok(p) => p,
        Err(e) => {
            return Err(e);
        },
    };
    match read_framed(buf, p1) {
        Err(e) => Err(e),
        Ok((d, p2)) => Ok((TablesMisc::DQT(d), p2)),
    }
}

/// Sums a vector of bytes; used for the Huffman symbol-count check.
pub fn sum(arr: &Vec<u8>) -> (r: u16)
    requires
        arr@.len() <= 256,
    ensures
        r as int == spec_sum(arr@),
{
    let mut acc: u16 = 0;
    let mut i: usize = 0;
    while i < arr.len()
        invariant
            arr@.len() <= 256,
            i <= arr@.len(),
            acc as int == spec_sum(arr@.subrange(0, i as int)),
            acc <= 255 * i,
        decreases arr@.len() - i,
    {
        proof {
            assert(arr@.subrange(0, i as int + 1).drop_last() =~= arr@.subrange(0, i as int));
            assert(arr@.subrange(0, i as int + 1).last() == arr@[i as int]);
        }
        acc = acc + arr[i] as u16;
        i = i + 1;
    }
    proof {
        assert(arr@.subrange(0, arr@.len() as int) =~= arr@);
    }
    acc
}

/// Parses one Huffman table header inside a DHT payload: the
/// class/destination byte (class nibble below 2, destination nibble below
/// 4) and the 16 symbol counts, whose sum must not exceed 256. Returns
/// class, destination, the counts, and their sum.
pub fn parse_huffhead(buf: &[u8], pos: usize) -> (r: Result<
    ((u8, u8, Vec<u8>, u16), usize),
    ParseError,
>)
    ensures
        (match r {
            Ok((head, p)) => spec_parse_huffhead(buf@, pos as int) == Ok::<_, (ErrorKind, int)>((
                (head.0, head.1, head.2@, head.3),
                p as int,
            )),
            Err(e) => spec_parse_huffhead(buf@, pos as int) == Err::<
                ((u8, u8, Seq<u8>, u16), int),
                _,
            >((e.kind, e.offset as int)),
        }),
{
    let (cd, p1) = match read_u8(buf, pos) {
        Ok(x) => x,
        Err(e) => {
            return Err(e);
        },
    };
    if !((cd >> 4) < 2 && (cd & 0x0F) < 4) {
        return Err(ParseError { kind: ErrorKind::MalformedHuffmanHeader, offset: pos });
    }
    let (counts, p2) = match take_bytes(buf, p1, 16) {
        Ok(x) => x,
        Err(e) => {
            return Err(e);
        },
    };
    let s: u16 = sum(&counts);
    if s > 256 {
        return Err(ParseError { kind: ErrorKind::MalformedHuffmanHeader, offset: p1 });
    }
    Ok(((cd >> 4, cd & 0x0F, counts, s), p2))
}

/// Parses one full Huffman table inside a DHT payload: its header followed
/// by as many symbol values as the counts sum to.
pub fn parse_hufftable(buf: &[u8], pos: usize) -> (r: Result<(HuffTable, usize), ParseError>)
    ensures
        (match r {
            Ok((t, p)) => spec_parse_hufftable(buf@, pos as int) == Ok::<_, (ErrorKind, int)>((
                t@,
                p as int,
            )),
            Err(e) => spec_parse_hufftable(buf@, pos as int) == Err::<
                (crate::model::HuffTableV, int),
                _,
            >((e.kind, e.offset as int)),
        }),
{
    let (head, p1) = match parse_huffhead(buf, pos) {
        Ok(x) => x,
        Err(e) => {
            return Err(e);
        },
    };
    let (class, dest, cnt_len, total) = head;
    match take_bytes(buf, p1, total as usize) {
        Err(e) => Err(e),
        Ok((vals, p2)) => Ok((HuffTable { class, dest, cnt_len, huff_val: vals }, p2)),
    }
}

/// Parses one component descriptor of a frame header.
pub fn parse_comp_param(buf: &[u8], pos: usize) -> (r: Result<(CompParam, usize), ParseError>)
    ensures
        (match r {
            Ok((c, p)) => spec_parse_comp_param(buf@, pos as int) == Ok::<_, (ErrorKind, int)>((
                c,
                p as int,
            )),
            Err(e) => spec_parse_comp_param(buf@, pos as int) == Err::<(CompParam, int), _>((
                e.kind,
                e.offset as int,
            )),
        }),
{
    let (id, p1) = match read_u8(buf, pos) {
        Ok(x) => x,
        Err(e) => {
            return Err(e);
        },
    };
    let (sampling, p2) = match read_u8(buf, p1) {
        Ok(x) => x,
        Err(e) => {
            return Err(e);
        },
    };
    let (selector, p3) = match read_u8(buf, p2) {
        Ok(x) => x,
        Err(e) => {
            return Err(e);
        },
    };
    Ok((
        CompParam {
            id,
            hor_sampling: sampling >> 4,
            ver_sampling: sampling & 0x0F,
            quant_selector: selector,
        },
        p3,
    ))
}

/// Parses exactly `n` component descriptors, in stream order.
pub fn parse_comp_params(buf: &[u8], pos: usize, n: u8) -> (r: Result<
    (Vec<CompParam>, usize),
    ParseError,
>)
    ensures
        (match r {
            Ok((cs, p)) => spec_parse_comp_params(buf@, pos as int, n as int) == Ok::<
                _,
                (ErrorKind, int),
            >((cs@, p as int)),
            Err(e) => spec_parse_comp_params(buf@, pos as int, n as int) == Err::<
                (Seq<CompParam>, int),
                _,
            >((e.kind, e.offset as int)),
        }),
{
    let mut cs: Vec<CompParam> = Vec::new();
    let mut cur: usize = pos;
    let mut i: usize = 0;
    proof {
        match spec_parse_comp_params(buf@, pos as int, n as int) {
            Ok((rest, q)) => {
                assert(Seq::<CompParam>::empty() + rest =~= rest);
            },
            Err(_) => {},
        }
    }
    while i < n as usize
        invariant
            i <= n,
            (match spec_parse_comp_params(buf@, cur as int, n as int - i as int) {
                Ok((rest, q)) => spec_parse_comp_params(buf@, pos as int, n as int) == Ok::<
                    _,
                    (ErrorKind, int),
                >((cs@ + rest, q)),
                Err(e) => spec_parse_comp_params(buf@, pos as int, n as int) == Err::<
                    (Seq<CompParam>, int),
                    _,
                >(e),
            }),
        decreases n as int - i as int,
    {
        match parse_comp_param(buf, cur) {
            Err(e) => {
                return Err(e);
            },
            Ok((c, p)) => {
                proof {
                    match spec_parse_comp_params(buf@, p as int, n as int - i as int - 1) {
                        Ok((rest, q)) => {
                            assert(cs@.push(c) + rest =~= cs@ + (seq![c] + rest));
                        },
                        Err(_) => {},
                    }
                }
                cs.push(c);
                cur = p;
                i = i + 1;
            },
        }
    }
    proof {
        assert(cs@ + Seq::<CompParam>::empty() =~= cs@);
    }
    Ok((cs, cur))
}

/// Parses a baseline frame header: SOF0 marker, segment length (at least
/// 2; not otherwise checked against the bytes consumed), precision, image
/// height and width, component count, and the component descriptors.
pub fn parse_sof0(buf: &[u8], pos: usize) -> (r: Result<(FrameHeader, usize), ParseError>)
    ensures
        (match r {
            Ok((h, p)) => spec_parse_sof0(buf@, pos as int) == Ok::<_, (ErrorKind, int)>((
                h@,
                p as int,
            )),
            Err(e) => spec_parse_sof0(buf@, pos as int) == Err::<
                (crate::model::FrameHeaderV, int),
                _,
            >((e.kind, e.offset as int)),
        }),
{
    let p1 = match match_tag2(buf, pos, 0xFF, 0xC0) {
        Ok(p) => p,
        Err(e) => {
            return Err(e);
        },
    };
    let (len, p2) = match read_u16(buf, p1) {
        Ok(x) => x,
        Err(e) => {
            return Err(e);
        },
    };
    if len < 2 {
        return Err(ParseError { kind: ErrorKind::InvalidLength, offset: p1 });
    }
    let (precision, p3) = match read_u8(buf, p2) {
        Ok(x) => x,
        Err(e) => {
            return Err(e);
        },
    };
    let (height, p4) = match read_u16(buf, p3) {
        Ok(x) => x,
        Err(e) => {
            return Err(e);
        },
    };
    let (width, p5) = match read_u16(buf, p4) {
        Ok(x) => x,
        Err(e) => {
            return Err(e);
        },
    };
    let (num_comp, p6) = match read_u8(buf, p5) {
        Ok(x) => x,
        Err(e) => {
            return Err(e);
        },
    };
    match parse_comp_params(buf, p6, num_comp) {
        Err(e) => Err(e),
        Ok((comp_params, p7)) => Ok((FrameHeader { precision, height, width, comp_params }, p7)),
    }
}

/// The optional-segment dispatcher: the marker at the cursor picks the
/// segment parser, among restart-interval, application-data, comment,
/// Huffman container and quantization container; any other marker (or too
/// few bytes for one) yields `NoMatchingSegment`.
pub fn parse_tab_misc(buf: &[u8], pos: usize) -> (r: Result<(TablesMisc, usize), ParseError>)
    ensures
        (match r {
            Ok((t, p)) => spec_parse_tab_misc(buf@, pos as int) == Ok::<_, (ErrorKind, int)>((
                t@,
                p as int,
            )) && pos < p <= buf@.len(),
            Err(e) => spec_parse_tab_misc(buf@, pos as int) == Err::<
                (crate::model::TablesMiscV, int),
                _,
            >((e.kind, e.offset as int)),
        }),
{
    proof {
        lemma_tab_misc_advances(buf@, pos as int);
    }
    if pos < buf.len() && buf.len() - pos >= 2 {
        if buf[pos] != 0xFF {
            Err(ParseError { kind: ErrorKind::NoMatchingSegment, offset: pos })
        } else {
            let m: u8 = buf[pos + 1];
            if m == 0xDD {
                parse_dri(buf, pos)
            } else if 0xE0 <= m && m <= 0xEF {
                parse_appn(buf, pos)
            } else if m == 0xFE {
                parse_com(buf, pos)
            } else if m == 0xC4 {
                parse_dht(buf, pos)
            } else if m == 0xDB {
                parse_dqt(buf, pos)
            } else {
                Err(ParseError { kind: ErrorKind::NoMatchingSegment, offset: pos })
            }
        }
    } else {
        Err(ParseError { kind: ErrorKind::NoMatchingSegment, offset: pos })
    }
}

/// Parses zero or more optional segments, applying the dispatcher until it
/// reports `NoMatchingSegment`; any other failure fails the whole region.
/// Stream order is preserved in the returned vector.
pub fn parse_tables(buf: &[u8], pos: usize) -> (r: Result<(Vec<TablesMisc>, usize), ParseError>)
    ensures
        (match r {
            Ok((ts, p)) => spec_parse_tables(buf@, pos as int) == Ok::<_, (ErrorKind, int)>((
                tables_view(ts@),
                p as int,
            )),
            Err(e) => spec_parse_tables(buf@, pos as int) == Err::<
                (Seq<crate::model::TablesMiscV>, int),
                _,
            >((e.kind, e.offset as int)),
        }),
{
    let mut tables: Vec<TablesMisc> = Vec::new();
    let mut cur: usize = pos;
    proof {
        match spec_parse_tables(buf@, pos as int) {
            Ok((rest, q)) => {
                assert(Seq::<crate::model::TablesMiscV>::empty() + rest =~= rest);
            },
            Err(_) => {},
        }
    }
    loop
        invariant
            (match spec_parse_tables(buf@, cur as int) {
                Ok((rest, q)) => spec_parse_tables(buf@, pos as int) == Ok::<_, (ErrorKind, int)>((
                    tables_view(tables@) + rest,
                    q,
                )),
                Err(e) => spec_parse_tables(buf@, pos as int) == Err::<
                    (Seq<crate::model::TablesMiscV>, int),
                    _,
                >(e),
            }),
        decreases buf@.len() - cur + 1,
    {
        match parse_tab_misc(buf, cur) {
            Err(e) => {
                if e.kind == ErrorKind::NoMatchingSegment {
                    proof {
                        assert(tables_view(tables@) + Seq::<crate::model::TablesMiscV>::empty()
                            =~= tables_view(tables@));
                    }
                    return Ok((tables, cur));
                } else {
                    return Err(e);
                }
            },
            Ok((t, p)) => {
                proof {
                    assert(tables_view(tables@.push(t)) =~= tables_view(tables@).push(t@));
                    match spec_parse_tables(buf@, p as int) {
                        Ok((rest, q)) => {
                            assert(tables_view(tables@).push(t@) + rest =~= tables_view(tables@)
                                + (seq![t@] + rest));
                        },
                        Err(_) => {},
                    }
                }
                tables.push(t);
                cur = p;
            },
        }
    }
}

/// Parses a whole image region from the start of the buffer: start-of-image
/// marker, mandatory JFIF header, zero or more optional segments, an
/// optional baseline frame header (one that fails to parse is treated as
/// absent), and the end-of-image marker. Trailing bytes are left unread; on
/// success the number of bytes consumed is returned beside the image.
pub fn parse_jpeg(buf: &[u8]) -> (r: Result<(Jpeg, usize), ParseError>)
    ensures
        (match r {
            Ok((j, p)) => spec_parse_jpeg(buf@) == Ok::<_, (ErrorKind, int)>((j@, p as int)),
            Err(e) => spec_parse_jpeg(buf@) == Err::<(crate::model::JpegV, int), _>((
                e.kind,
                e.offset as int,
            )),
        }),
{
    let p0 = match match_tag2(buf, 0, 0xFF, 0xD8) {
        Ok(p) => p,
        Err(e) => {
            return Err(e);
        },
    };
    let (jfif_header, p1) = match parse_jfif(buf, p0) {
        Ok(x) => x,
        Err(e) => {
            return Err(e);
        },
    };
    let (tables, p2) = match parse_tables(buf, p1) {
        Ok(x) => x,
        Err(e) => {
            return Err(e);
        },
    };
    let p3 = match parse_sof0(buf, p2) {
        Ok((_, q)) => q,
        Err(_) => p2,
    };
    match match_tag2(buf, p3, 0xFF, 0xD9) {
        Err(e) => Err(e),
        Ok(p4) => Ok((Jpeg { jfif_header, tables }, p4)),
    }
}

} // verus!
