//! The laws of the grammar: how a well-formed image serializes, and proofs
//! that parsing the serialization gives the original values back — so no
//! payload byte, segment order or header field is lost or changed — together
//! with the laws that decide acceptance of the APP0 length field and the
//! JFIF identifier, and determinism of the whole parse.

use vstd::prelude::*;

use crate::grammar::app0_tag;
use crate::grammar::be16;
use crate::grammar::com_tag;
use crate::grammar::dht_tag;
use crate::grammar::dqt_tag;
use crate::grammar::dri_tag;
use crate::grammar::eoi_tag;
use crate::grammar::jfif_id;
use crate::grammar::soi_tag;
use crate::grammar::sof0_tag;
use crate::grammar::spec_match_tag;
use crate::grammar::spec_parse_jfif;
use crate::grammar::spec_parse_jpeg;
use crate::grammar::spec_parse_sof0;
use crate::grammar::spec_parse_tab_misc;
use crate::grammar::spec_parse_tables;
use crate::grammar::spec_read_framed;
use crate::grammar::spec_read_jfif_fields;
use crate::grammar::spec_read_u16;
use crate::grammar::spec_take;
use crate::model::ErrorKind;
use crate::model::JfifHeaderV;
use crate::model::JpegV;
use crate::model::TablesMiscV;
use crate::model::Units;
use crate::model::jfif_wf;
use crate::model::jpeg_wf;
use crate::model::seg_wf;

verus! {

/// The canonical density-unit byte of a unit: the defined units take their
/// defined values, `Unknown` takes 3 (one of the values the grammar maps to
/// `Unknown`).
pub open spec fn unit_byte(u: Units) -> u8 {
    match u {
        Units::Pixel => 0,
        Units::DotsPerInch => 1,
        Units::DotsPerCm => 2,
        Units::Unknown => 3,
    }
}

/// The two big-endian bytes of a 16-bit value.
pub open spec fn be_bytes(v: int) -> Seq<u8> {
    seq![(v / 256) as u8, (v % 256) as u8]
}

/// `s` holds exactly the bytes `w` at offset `pos`.
pub open spec fn bytes_at(s: Seq<u8>, pos: int, w: Seq<u8>) -> bool {
    &&& 0 <= pos
    &&& pos + w.len() <= s.len()
    &&& s.subrange(pos, pos + w.len()) == w
}

/// The bytes of a JFIF header segment carrying an arbitrary declared
/// length: APP0 marker, the length field, the identifier, the fixed fields,
/// and the thumbnail bytes.
pub open spec fn ser_jfif_with_len(h: JfifHeaderV, len: int) -> Seq<u8> {
    app0_tag() + be_bytes(len) + jfif_id() + seq![h.maj_ver, h.min_ver, unit_byte(h.units)]
        + be_bytes(h.hor_dens as int) + be_bytes(h.ver_dens as int) + seq![
        h.thumb_width,
        h.thumb_height,
    ] + h.thumbnail
}

/// The bytes of a well-formed JFIF header segment: the declared length is
/// 16 plus the thumbnail byte length.
pub open spec fn ser_jfif(h: JfifHeaderV) -> Seq<u8> {
    ser_jfif_with_len(h, 16 + 3 * h.thumb_width * h.thumb_height)
}

/// The bytes of one optional segment: its marker, its length field
/// (counting itself), and its payload.
pub open spec fn ser_seg(t: TablesMiscV) -> Seq<u8> {
    match t {
        TablesMiscV::DRI(v) => dri_tag() + be_bytes(4) + be_bytes(v as int),
        TablesMiscV::APP(n, d) => seq![0xFFu8, (0xE0 + n) as u8] + be_bytes(d.len() as int + 2) + d,
        TablesMiscV::COM(d) => com_tag() + be_bytes(d.len() as int + 2) + d,
        TablesMiscV::DHT(d) => dht_tag() + be_bytes(d.len() as int + 2) + d,
        TablesMiscV::DQT(d) => dqt_tag() + be_bytes(d.len() as int + 2) + d,
    }
}

/// The concatenated bytes of a sequence of optional segments, in order.
pub open spec fn ser_segs(ts: Seq<TablesMiscV>) -> Seq<u8>
    decreases ts.len(),
{
    if ts.len() == 0 {
        Seq::empty()
    } else {
        ser_seg(ts[0]) + ser_segs(ts.drop_first())
    }
}

/// The bytes of a whole image region: start-of-image, the JFIF header, the
/// optional segments, and end-of-image.
pub open spec fn ser_jpeg(j: JpegV) -> Seq<u8> {
    soi_tag() + ser_jfif(j.jfif_header) + ser_segs(j.tables) + eoi_tag()
}

/// Bytes held at an offset are indexable there.
proof fn lemma_bytes_at_index(s: Seq<u8>, pos: int, w: Seq<u8>)
    requires
        bytes_at(s, pos, w),
    ensures
        forall|i: int| 0 <= i < w.len() ==> s[pos + i] == w[i],
{
    assert forall|i: int| 0 <= i < w.len() implies s[pos + i] == w[i] by {
        assert(s.subrange(pos, pos + w.len())[i] == s[pos + i]);
    }
}

/// Bytes held at an offset split at any concatenation boundary.
proof fn lemma_bytes_at_split(s: Seq<u8>, pos: int, a: Seq<u8>, b: Seq<u8>)
    requires
        bytes_at(s, pos, a + b),
    ensures
        bytes_at(s, pos, a),
        bytes_at(s, pos + a.len(), b),
{
    let w = a + b;
    assert forall|i: int| 0 <= i < a.len() implies s.subrange(pos, pos + a.len())[i] == a[i] by {
        assert(s.subrange(pos, pos + w.len())[i] == w[i]);
    }
    assert(s.subrange(pos, pos + a.len()) =~= a);
    assert forall|i: int|
        0 <= i < b.len() implies s.subrange(pos + a.len(), pos + a.len() + b.len())[i] == b[i] by {
        assert(s.subrange(pos, pos + w.len())[a.len() + i] == w[a.len() + i]);
    }
    assert(s.subrange(pos + a.len(), pos + a.len() + b.len()) =~= b);
}

/// A tag whose bytes are held at the cursor matches there.
proof fn lemma_match_tag_at(s: Seq<u8>, pos: int, t: Seq<u8>)
    requires
        bytes_at(s, pos, t),
    ensures
        spec_match_tag(s, pos, t) == Ok::<_, (ErrorKind, int)>(((), pos + t.len())),
{
}

/// Taking exactly the bytes held at the cursor yields them.
proof fn lemma_take_at(s: Seq<u8>, pos: int, d: Seq<u8>)
    requires
        bytes_at(s, pos, d),
    ensures
        spec_take(s, pos, d.len() as int) == Ok::<_, (ErrorKind, int)>((d, pos + d.len())),
{
}

/// The big-endian bytes of a 16-bit value read back as that value.
proof fn lemma_be16_at(s: Seq<u8>, pos: int, v: int)
    requires
        bytes_at(s, pos, be_bytes(v)),
        0 <= v < 65536,
    ensures
        pos + 2 <= s.len(),
        be16(s[pos], s[pos + 1]) == v,
        spec_read_u16(s, pos) == Ok::<_, (ErrorKind, int)>(((v as u16), pos + 2)),
{
    lemma_bytes_at_index(s, pos, be_bytes(v));
    assert(s[pos] == (v / 256) as u8);
    assert(s[pos + 1] == (v % 256) as u8);
}

/// A framed payload whose length field and bytes are held at the cursor
/// reads back as that payload.
proof fn lemma_read_framed_at(s: Seq<u8>, pos: int, d: Seq<u8>)
    requires
        bytes_at(s, pos, be_bytes(d.len() as int + 2) + d),
        d.len() + 2 <= 0xFFFF,
    ensures
        spec_read_framed(s, pos) == Ok::<_, (ErrorKind, int)>((d, pos + 2 + d.len())),
{
    lemma_bytes_at_split(s, pos, be_bytes(d.len() as int + 2), d);
    lemma_be16_at(s, pos, d.len() as int + 2);
    lemma_take_at(s, pos + 2, d);
}

/// The canonical density-unit byte decodes to the unit it encodes.
proof fn lemma_unit_byte_round(u: Units)
    ensures
        Units::spec_from_u8(unit_byte(u)) == u,
{
}

/// LAW — the APP0 length field decides acceptance: a buffer holding at
/// `pos` a JFIF header segment whose thumbnail bytes match its declared
/// dimensions but whose declared length is arbitrary parses to exactly that
/// header when the declared length equals 16 plus the thumbnail byte
/// length `width * height * 3`, and is rejected with
/// `ThumbnailSizeMismatch` at the length field for every other declared
/// length.
pub proof fn lemma_jfif_length_decides(s: Seq<u8>, pos: int, h: JfifHeaderV, len: int)
    requires
        bytes_at(s, pos, ser_jfif_with_len(h, len)),
        h.thumbnail.len() == 3 * h.thumb_width * h.thumb_height,
        0 <= len <= 0xFFFF,
    ensures
        len == 16 + 3 * h.thumb_width * h.thumb_height ==> spec_parse_jfif(s, pos) == Ok::<
            _,
            (ErrorKind, int),
        >((h, pos + 18 + h.thumbnail.len())),
        len != 16 + 3 * h.thumb_width * h.thumb_height ==> spec_parse_jfif(s, pos) == Err::<
            (JfifHeaderV, int),
            _,
        >((ErrorKind::ThumbnailSizeMismatch, pos + 2)),
{
    let a1 = app0_tag();
    let a2 = be_bytes(len);
    let a3 = jfif_id();
    let a4 = seq![h.maj_ver, h.min_ver, unit_byte(h.units)];
    let a5 = be_bytes(h.hor_dens as int);
    let a6 = be_bytes(h.ver_dens as int);
    let a7 = seq![h.thumb_width, h.thumb_height];
    let a8 = h.thumbnail;
    lemma_bytes_at_split(s, pos, a1 + a2 + a3 + a4 + a5 + a6 + a7, a8);
    lemma_bytes_at_split(s, pos, a1 + a2 + a3 + a4 + a5 + a6, a7);
    lemma_bytes_at_split(s, pos, a1 + a2 + a3 + a4 + a5, a6);
    lemma_bytes_at_split(s, pos, a1 + a2 + a3 + a4, a5);
    lemma_bytes_at_split(s, pos, a1 + a2 + a3, a4);
    lemma_bytes_at_split(s, pos, a1 + a2, a3);
    lemma_bytes_at_split(s, pos, a1, a2);
    lemma_match_tag_at(s, pos, a1);
    lemma_be16_at(s, pos + 2, len);
    lemma_match_tag_at(s, pos + 4, a3);
    lemma_bytes_at_index(s, pos + 9, a4);
    lemma_be16_at(s, pos + 12, h.hor_dens as int);
    lemma_be16_at(s, pos + 14, h.ver_dens as int);
    lemma_bytes_at_index(s, pos + 16, a7);
    assert(spec_read_jfif_fields(s, pos + 9) == Ok::<_, (ErrorKind, int)>((
        (crate::grammar::JfifFixed {
            maj_ver: h.maj_ver,
            min_ver: h.min_ver,
            unit_byte: unit_byte(h.units),
            hor_dens: h.hor_dens,
            ver_dens: h.ver_dens,
            thumb_width: h.thumb_width,
            thumb_height: h.thumb_height,
        }),
        pos + 18,
    )));
    lemma_unit_byte_round(h.units);
    if len == 16 + 3 * h.thumb_width * h.thumb_height {
        lemma_take_at(s, pos + 18, a8);
        assert(spec_parse_jfif(s, pos) matches Ok((g, q)) && g =~= h && q == pos + 18
            + h.thumbnail.len());
    }
}

/// The bytes of a well-formed optional segment parse back, through the
/// dispatcher, as exactly that segment.
proof fn lemma_parse_seg_at(s: Seq<u8>, pos: int, t: TablesMiscV)
    requires
        bytes_at(s, pos, ser_seg(t)),
        seg_wf(t),
    ensures
        spec_parse_tab_misc(s, pos) == Ok::<_, (ErrorKind, int)>((t, pos + ser_seg(t).len())),
{
    match t {
        TablesMiscV::DRI(v) => {
            lemma_bytes_at_split(s, pos, dri_tag() + be_bytes(4), be_bytes(v as int));
            lemma_bytes_at_split(s, pos, dri_tag(), be_bytes(4));
            lemma_bytes_at_index(s, pos, dri_tag());
            lemma_match_tag_at(s, pos, dri_tag());
            lemma_be16_at(s, pos + 2, 4);
            lemma_be16_at(s, pos + 4, v as int);
        },
        TablesMiscV::APP(n, d) => {
            let m = seq![0xFFu8, (0xE0 + n) as u8];
            let lp = be_bytes(d.len() as int + 2) + d;
            assert(m + be_bytes(d.len() as int + 2) + d =~= m + lp);
            lemma_bytes_at_split(s, pos, m, lp);
            lemma_bytes_at_index(s, pos, m);
            lemma_read_framed_at(s, pos + 2, d);
            assert(s[pos + 1] == 0xE0 + n);
        },
        TablesMiscV::COM(d) => {
            let lp = be_bytes(d.len() as int + 2) + d;
            assert(com_tag() + be_bytes(d.len() as int + 2) + d =~= com_tag() + lp);
            lemma_bytes_at_split(s, pos, com_tag(), lp);
            lemma_bytes_at_index(s, pos, com_tag());
            lemma_match_tag_at(s, pos, com_tag());
            lemma_read_framed_at(s, pos + 2, d);
        },
        TablesMiscV::DHT(d) => {
            let lp = be_bytes(d.len() as int + 2) + d;
            assert(dht_tag() + be_bytes(d.len() as int + 2) + d =~= dht_tag() + lp);
            lemma_bytes_at_split(s, pos, dht_tag(), lp);
            lemma_bytes_at_index(s, pos, dht_tag());
            lemma_match_tag_at(s, pos, dht_tag());
            lemma_read_framed_at(s, pos + 2, d);
        },
        TablesMiscV::DQT(d) => {
            let lp = be_bytes(d.len() as int + 2) + d;
            assert(dqt_tag() + be_bytes(d.len() as int + 2) + d =~= dqt_tag() + lp);
            lemma_bytes_at_split(s, pos, dqt_tag(), lp);
            lemma_bytes_at_index(s, pos, dqt_tag());
            lemma_match_tag_at(s, pos, dqt_tag());
            lemma_read_framed_at(s, pos + 2, d);
        },
    }
}

/// The bytes of a sequence of well-formed optional segments, followed by a
/// position where the dispatcher recognizes no segment, parse back as
/// exactly that sequence, in order.
proof fn lemma_parse_segs_at(s: Seq<u8>, pos: int, ts: Seq<TablesMiscV>)
    requires
        bytes_at(s, pos, ser_segs(ts)),
        forall|i: int| 0 <= i < ts.len() ==> seg_wf(#[trigger] ts[i]),
        spec_parse_tab_misc(s, pos + ser_segs(ts).len()) matches Err((
            ErrorKind::NoMatchingSegment,
            _,
        )),
    ensures
        spec_parse_tables(s, pos) == Ok::<_, (ErrorKind, int)>((ts, pos + ser_segs(ts).len())),
    decreases ts.len(),
{
    if ts.len() == 0 {
        assert(ts =~= Seq::<TablesMiscV>::empty());
    } else {
        let rest = ts.drop_first();
        lemma_bytes_at_split(s, pos, ser_seg(ts[0]), ser_segs(rest));
        lemma_parse_seg_at(s, pos, ts[0]);
        let p1 = pos + ser_seg(ts[0]).len();
        assert forall|i: int| 0 <= i < rest.len() implies seg_wf(#[trigger] rest[i]) by {
            assert(rest[i] == ts[i + 1]);
        }
        lemma_parse_segs_at(s, p1, rest);
        assert(seq![ts[0]] + rest =~= ts);
    }
}

/// Where the end-of-image marker sits at the cursor, the dispatcher
/// recognizes no optional segment, and the frame-header grammar fails (so
/// an optional frame header is treated as absent).
proof fn lemma_eoi_stops(s: Seq<u8>, pos: int)
    requires
        bytes_at(s, pos, eoi_tag()),
    ensures
        spec_parse_tab_misc(s, pos) matches Err((ErrorKind::NoMatchingSegment, _)),
        spec_parse_sof0(s, pos) matches Err(_),
{
    lemma_bytes_at_index(s, pos, eoi_tag());
    assert(s[pos] == 0xFF && s[pos + 1] == 0xD9);
    if s.subrange(pos, pos + 2) == sof0_tag() {
        assert(s.subrange(pos, pos + 2)[1] == s[pos + 1]);
    }
}

/// A prefix of a concatenation is held at its start.
proof fn lemma_prefix_bytes_at(w: Seq<u8>, rest: Seq<u8>)
    ensures
        bytes_at(w + rest, 0, w),
{
    assert((w + rest).subrange(0, w.len() as int) =~= w);
}

/// Assembles a whole-image parse from the results of its five stages.
proof fn lemma_parse_jpeg_parts(s: Seq<u8>, h: JfifHeaderV, ts: Seq<TablesMiscV>, p1: int, p2: int)
    requires
        spec_match_tag(s, 0, soi_tag()) == Ok::<_, (ErrorKind, int)>(((), 2int)),
        spec_parse_jfif(s, 2) == Ok::<_, (ErrorKind, int)>((h, p1)),
        spec_parse_tables(s, p1) == Ok::<_, (ErrorKind, int)>((ts, p2)),
        spec_parse_sof0(s, p2) matches Err(_),
        spec_match_tag(s, p2, eoi_tag()) == Ok::<_, (ErrorKind, int)>(((), p2 + 2)),
    ensures
        spec_parse_jpeg(s) == Ok::<_, (ErrorKind, int)>((
            (JpegV { jfif_header: h, tables: ts }),
            p2 + 2,
        )),
{
}

/// The length of a serialized JFIF header.
proof fn lemma_ser_jfif_len(h: JfifHeaderV, len: int)
    ensures
        ser_jfif_with_len(h, len).len() == 18 + h.thumbnail.len(),
        ser_jfif(h).len() == 18 + h.thumbnail.len(),
{
}

/// Where the pieces of a serialized image sit inside the buffer that
/// carries it followed by arbitrary trailing bytes.
proof fn lemma_jpeg_layout(j: JpegV, rest: Seq<u8>)
    ensures
        bytes_at(ser_jpeg(j) + rest, 0, soi_tag()),
        bytes_at(ser_jpeg(j) + rest, 2, ser_jfif(j.jfif_header)),
        bytes_at(
            ser_jpeg(j) + rest,
            2 + ser_jfif(j.jfif_header).len() as int,
            ser_segs(j.tables),
        ),
        bytes_at(
            ser_jpeg(j) + rest,
            2 + ser_jfif(j.jfif_header).len() as int + ser_segs(j.tables).len() as int,
            eoi_tag(),
        ),
        ser_jpeg(j).len() == 2 + ser_jfif(j.jfif_header).len() + ser_segs(j.tables).len() + 2,
{
    let s = ser_jpeg(j) + rest;
    let b1 = soi_tag();
    let b2 = ser_jfif(j.jfif_header);
    let b3 = ser_segs(j.tables);
    let b4 = eoi_tag();
    lemma_prefix_bytes_at(ser_jpeg(j), rest);
    lemma_bytes_at_split(s, 0, b1 + b2 + b3, b4);
    lemma_bytes_at_split(s, 0, b1 + b2, b3);
    lemma_bytes_at_split(s, 0, b1, b2);
}

/// The bytes of a well-formed JFIF header parse back as exactly that
/// header.
proof fn lemma_parse_jfif_at(s: Seq<u8>, pos: int, h: JfifHeaderV)
    requires
        bytes_at(s, pos, ser_jfif(h)),
        jfif_wf(h),
    ensures
        spec_parse_jfif(s, pos) == Ok::<_, (ErrorKind, int)>((h, pos + ser_jfif(h).len() as int)),
{
    lemma_ser_jfif_len(h, 16 + 3 * h.thumb_width * h.thumb_height);
    lemma_jfif_length_decides(s, pos, h, 16 + 3 * h.thumb_width * h.thumb_height);
}

/// The first stages of parsing a serialized well-formed image: the
/// start-of-image marker matches and the JFIF header parses back exactly,
/// leaving the cursor after the serialized header.
#[verifier::rlimit(100)]
#[verifier::spinoff_prover]
proof fn lemma_round_trip_head(j: JpegV, rest: Seq<u8>)
    requires
        jpeg_wf(j),
    ensures
        ({
            let s = ser_jpeg(j) + rest;
            &&& spec_match_tag(s, 0, soi_tag()) == Ok::<_, (ErrorKind, int)>(((), 2int))
            &&& spec_parse_jfif(s, 2) == Ok::<_, (ErrorKind, int)>((
                j.jfif_header,
                2 + ser_jfif(j.jfif_header).len() as int,
            ))
        }),
{
    let h = j.jfif_header;
    let s = ser_jpeg(j) + rest;
    lemma_jpeg_layout(j, rest);
    lemma_match_tag_at(s, 0, soi_tag());
    lemma_parse_jfif_at(s, 2, h);
}

/// The later stages of parsing a serialized well-formed image: from the
/// cursor after the JFIF header, the optional segments parse back exactly,
/// the frame-header grammar fails at the end-of-image marker, and the
/// end-of-image marker matches, consuming the whole serialization.
#[verifier::rlimit(100)]
#[verifier::spinoff_prover]
proof fn lemma_round_trip_tail(j: JpegV, rest: Seq<u8>)
    requires
        jpeg_wf(j),
    ensures
        ({
            let s = ser_jpeg(j) + rest;
            let p1 = 2 + ser_jfif(j.jfif_header).len() as int;
            let p2 = p1 + ser_segs(j.tables).len() as int;
            &&& spec_parse_tables(s, p1) == Ok::<_, (ErrorKind, int)>((j.tables, p2))
            &&& spec_parse_sof0(s, p2) matches Err(_)
            &&& spec_match_tag(s, p2, eoi_tag()) == Ok::<_, (ErrorKind, int)>(((), p2 + 2))
            &&& p2 + 2 == ser_jpeg(j).len()
        }),
{
    let h = j.jfif_header;
    let s = ser_jpeg(j) + rest;
    lemma_jpeg_layout(j, rest);
    let p1 = 2 + ser_jfif(h).len() as int;
    let p2 = p1 + ser_segs(j.tables).len() as int;
    lemma_eoi_stops(s, p2);
    lemma_parse_segs_at(s, p1, j.tables);
    lemma_match_tag_at(s, p2, eoi_tag());
}

/// LAW — round trip: concatenating the bytes of the start-of-image marker,
/// a well-formed JFIF header, any sequence of well-formed optional
/// segments, and the end-of-image marker, and parsing the result (with any
/// trailing bytes after the end-of-image marker), reproduces the original
/// structured values exactly: every header field, the segment order, and
/// every payload byte.
pub proof fn lemma_round_trip(j: JpegV, rest: Seq<u8>)
    requires
        jpeg_wf(j),
    ensures
        spec_parse_jpeg(ser_jpeg(j) + rest) == Ok::<_, (ErrorKind, int)>((
            j,
            ser_jpeg(j).len() as int,
        )),
{
    lemma_round_trip_head(j, rest);
    lemma_round_trip_tail(j, rest);
    lemma_parse_jpeg_parts(
        ser_jpeg(j) + rest,
        j.jfif_header,
        j.tables,
        2 + ser_jfif(j.jfif_header).len() as int,
        2 + ser_jfif(j.jfif_header).len() as int + ser_segs(j.tables).len() as int,
    );
    assert(JpegV { jfif_header: j.jfif_header, tables: j.tables } =~= j);
}

/// LAW — the JFIF identifier guards the header: wherever an APP0 marker is
/// followed by a length field but the five bytes after it are not exactly
/// `"JFIF\0"`, the JFIF header grammar rejects with `UnexpectedMarker` at
/// the identifier, before reading any further field.
pub proof fn lemma_jfif_identifier_guards(s: Seq<u8>, pos: int)
    requires
        bytes_at(s, pos, app0_tag()),
        pos + 9 <= s.len(),
        s.subrange(pos + 4, pos + 9) != jfif_id(),
    ensures
        spec_parse_jfif(s, pos) == Err::<(JfifHeaderV, int), _>((
            ErrorKind::UnexpectedMarker,
            pos + 4,
        )),
{
    lemma_match_tag_at(s, pos, app0_tag());
}

/// LAW — determinism: what a parse returns is a function of the buffer's
/// bytes alone, so parsing the same buffer twice yields equal results; the
/// executable parser's contract ties its result to `spec_parse_jpeg` of
/// the buffer's contents and to nothing else.
pub proof fn lemma_parse_deterministic(b1: Seq<u8>, b2: Seq<u8>)
    requires
        b1 == b2,
    ensures
        spec_parse_jpeg(b1) == spec_parse_jpeg(b2),
{
}

} // verus!
