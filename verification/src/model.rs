//! Data model of the metadata a JFIF header region carries, together with
//! the mathematical view of each type and its well-formedness predicate.

use vstd::prelude::*;

verus! {

/// Resolution unit of the pixel-density fields of a JFIF header.
/// The density-unit byte maps 0, 1 and 2 to the three defined units;
/// every other value maps to `Unknown`.
#[derive(Debug, Clone, Copy, PartialEq, Eq, Structural)]
pub enum Units {
    Pixel,
    DotsPerInch,
    DotsPerCm,
    Unknown,
}

impl Units {
    /// Meaning of the density-unit byte.
    pub open spec fn spec_from_u8(units: u8) -> Units {
        if units == 0 {
            Units::Pixel
        } else if units == 1 {
            Units::DotsPerInch
        } else if units == 2 {
            Units::DotsPerCm
        } else {
            Units::Unknown
        }
    }

    /// Decodes the density-unit byte of an APP0 segment.
    pub fn from_u8(units: u8) -> (r: Units)
        ensures
            r == Units::spec_from_u8(units),
    {
        match units {
            0 => Units::Pixel,
            1 => Units::DotsPerInch,
            2 => Units::DotsPerCm,
            _ => Units::Unknown,
        }
    }
}

/// The kind of a parse failure.
#[derive(Debug, Clone, Copy, PartialEq, Eq, Structural)]
pub enum ErrorKind {
    /// Fewer bytes remain than a rule requires.
    Truncated,
    /// A required fixed tag does not match the bytes at the cursor.
    UnexpectedMarker,
    /// A segment-length field is semantically impossible (less than 2, or a
    /// fixed-length segment declares another value).
    InvalidLength,
    /// The declared APP0 length disagrees with the computed thumbnail size.
    ThumbnailSizeMismatch,
    /// A DNL segment carries a line count of zero.
    InvalidRestartCount,
    /// A Huffman table header has a class or destination nibble out of range,
    /// or its symbol counts sum to more than 256.
    MalformedHuffmanHeader,
    /// No optional-segment alternative matches at the cursor; signals the end
    /// of the optional-segment region.
    NoMatchingSegment,
}

/// A parse failure: its kind and the byte offset at which it occurred.
/// The offset names the first byte of the field or tag whose read or
/// validation failed.
#[derive(Debug, Clone, Copy, PartialEq, Eq, Structural)]
pub struct ParseError {
    pub kind: ErrorKind,
    pub offset: usize,
}

/// The mandatory JFIF application segment (APP0), decoded.
#[derive(Debug, PartialEq, Eq)]
pub struct JfifHeader {
    pub maj_ver: u8,
    pub min_ver: u8,
    pub units: Units,
    pub hor_dens: u16,
    pub ver_dens: u16,
    pub thumb_width: u8,
    pub thumb_height: u8,
    /// Raw RGB triplets; length is `thumb_width * thumb_height * 3`.
    pub thumbnail: Vec<u8>,
}

/// Mathematical view of a `JfifHeader`.
#[verifier::ext_equal]
pub ghost struct JfifHeaderV {
    pub maj_ver: u8,
    pub min_ver: u8,
    pub units: Units,
    pub hor_dens: u16,
    pub ver_dens: u16,
    pub thumb_width: u8,
    pub thumb_height: u8,
    pub thumbnail: Seq<u8>,
}

impl View for JfifHeader {
    type V = JfifHeaderV;

    open spec fn view(&self) -> JfifHeaderV {
        JfifHeaderV {
            maj_ver: self.maj_ver,
            min_ver: self.min_ver,
            units: self.units,
            hor_dens: self.hor_dens,
            ver_dens: self.ver_dens,
            thumb_width: self.thumb_width,
            thumb_height: self.thumb_height,
            thumbnail: self.thumbnail@,
        }
    }
}

/// One decoded Huffman table: class (0 = DC, 1 = AC), destination slot,
/// the 16 per-code-length symbol counts, and the symbol values.
#[derive(Debug, PartialEq, Eq)]
pub struct HuffTable {
    pub class: u8,
    pub dest: u8,
    /// Always 16 bytes: the number of codes of each length 1..=16.
    pub cnt_len: Vec<u8>,
    pub huff_val: Vec<u8>,
}

/// Mathematical view of a `HuffTable`.
#[verifier::ext_equal]
pub ghost struct HuffTableV {
    pub class: u8,
    pub dest: u8,
    pub cnt_len: Seq<u8>,
    pub huff_val: Seq<u8>,
}

impl View for HuffTable {
    type V = HuffTableV;

    open spec fn view(&self) -> HuffTableV {
        HuffTableV {
            class: self.class,
            dest: self.dest,
            cnt_len: self.cnt_len@,
            huff_val: self.huff_val@,
        }
    }
}

/// One optional table or miscellaneous marker segment, as found between the
/// JFIF header and the frame header: a restart interval, application data
/// with its application-segment index, a comment, or an (undecoded) Huffman
/// or quantization table container.
#[derive(Debug, PartialEq, Eq)]
pub enum TablesMisc {
    DRI(u16),
    APP(u8, Vec<u8>),
    COM(Vec<u8>),
    DHT(Vec<u8>),
    DQT(Vec<u8>),
}

/// Mathematical view of a `TablesMisc`.
#[verifier::ext_equal]
pub ghost enum TablesMiscV {
    DRI(u16),
    APP(u8, Seq<u8>),
    COM(Seq<u8>),
    DHT(Seq<u8>),
    DQT(Seq<u8>),
}

impl View for TablesMisc {
    type V = TablesMiscV;

    open spec fn view(&self) -> TablesMiscV {
        match self {
            TablesMisc::DRI(v) => TablesMiscV::DRI(*v),
            TablesMisc::APP(n, d) => TablesMiscV::APP(*n, d@),
            TablesMisc::COM(d) => TablesMiscV::COM(d@),
            TablesMisc::DHT(d) => TablesMiscV::DHT(d@),
            TablesMisc::DQT(d) => TablesMiscV::DQT(d@),
        }
    }
}

/// View of a sequence of optional segments.
pub open spec fn tables_view(ts: Seq<TablesMisc>) -> Seq<TablesMiscV> {
    ts.map_values(|t: TablesMisc| t@)
}

/// One component descriptor of a baseline frame header: component
/// identifier, horizontal and vertical sampling factors (the two nibbles of
/// one byte), and the quantization-table selector.
#[derive(Debug, Clone, Copy, PartialEq, Eq, Structural)]
pub struct CompParam {
    pub id: u8,
    pub hor_sampling: u8,
    pub ver_sampling: u8,
    pub quant_selector: u8,
}

/// A baseline (SOF0) frame header: sample precision, image height and
/// width, and one `CompParam` per component, in stream order.
#[derive(Debug, PartialEq, Eq)]
pub struct FrameHeader {
    pub precision: u8,
    pub height: u16,
    pub width: u16,
    pub comp_params: Vec<CompParam>,
}

/// Mathematical view of a `FrameHeader`.
#[verifier::ext_equal]
pub ghost struct FrameHeaderV {
    pub precision: u8,
    pub height: u16,
    pub width: u16,
    pub comp_params: Seq<CompParam>,
}

impl View for FrameHeader {
    type V = FrameHeaderV;

    open spec fn view(&self) -> FrameHeaderV {
        FrameHeaderV {
            precision: self.precision,
            height: self.height,
            width: self.width,
            comp_params: self.comp_params@,
        }
    }
}

/// The result of a successful parse: the mandatory JFIF header and the
/// optional segments that preceded the frame header, in stream order.
#[derive(Debug, PartialEq, Eq)]
pub struct Jpeg {
    pub jfif_header: JfifHeader,
    pub tables: Vec<TablesMisc>,
}

/// Mathematical view of a `Jpeg`.
#[verifier::ext_equal]
pub ghost struct JpegV {
    pub jfif_header: JfifHeaderV,
    pub tables: Seq<TablesMiscV>,
}

impl View for Jpeg {
    type V = JpegV;

    open spec fn view(&self) -> JpegV {
        JpegV { jfif_header: self.jfif_header@, tables: tables_view(self.tables@) }
    }
}

/// A JFIF header is well formed when its thumbnail holds exactly
/// `width * height` RGB triplets and the whole segment is encodable, that
/// is, its declared length `16 + thumbnail length` fits the 16-bit length
/// field.
pub open spec fn jfif_wf(h: JfifHeaderV) -> bool {
    &&& h.thumbnail.len() == 3 * h.thumb_width * h.thumb_height
    &&& 16 + h.thumbnail.len() <= 0xFFFF
}

/// An optional segment is well formed when it is encodable: its payload
/// plus the length field fits the 16-bit length field, and an application
/// segment's index is a nibble.
pub open spec fn seg_wf(t: TablesMiscV) -> bool {
    match t {
        TablesMiscV::DRI(_) => true,
        TablesMiscV::APP(n, d) => n <= 15 && d.len() + 2 <= 0xFFFF,
        TablesMiscV::COM(d) => d.len() + 2 <= 0xFFFF,
        TablesMiscV::DHT(d) => d.len() + 2 <= 0xFFFF,
        TablesMiscV::DQT(d) => d.len() + 2 <= 0xFFFF,
    }
}

/// A parsed image is well formed when its JFIF header and every optional
/// segment are.
pub open spec fn jpeg_wf(j: JpegV) -> bool {
    &&& jfif_wf(j.jfif_header)
    &&& forall|i: int| 0 <= i < j.tables.len() ==> seg_wf(#[trigger] j.tables[i])
}

} // verus!
