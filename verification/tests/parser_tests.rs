use jfif::model::ErrorKind;
use jfif::model::JfifHeader;
use jfif::model::Jpeg;
use jfif::model::TablesMisc;
use jfif::model::Units;
use jfif::parser::parse_dnl;
use jfif::parser::parse_hufftable;
use jfif::parser::parse_jpeg;
use jfif::parser::parse_sof0;

/// A minimal valid image: SOI, an APP0 with version 1.2, unit pixel,
/// density 1x1 and an empty thumbnail (declared length 16), then EOI.
fn minimal_image() -> Vec<u8> {
    vec![
        0xFF, 0xD8, // SOI
        0xFF, 0xE0, // APP0
        0x00, 0x10, // length 16
        0x4A, 0x46, 0x49, 0x46, 0x00, // "JFIF\0"
        0x01, 0x02, // version 1.2
        0x00, // unit: pixel
        0x00, 0x01, // horizontal density 1
        0x00, 0x01, // vertical density 1
        0x00, 0x00, // thumbnail 0 x 0
        0xFF, 0xD9, // EOI
    ]
}

/// Splices extra segments into the minimal image just before EOI.
fn with_segments(segs: &[u8]) -> Vec<u8> {
    let mut buf = minimal_image();
    buf.truncate(20);
    buf.extend_from_slice(segs);
    buf.push(0xFF);
    buf.push(0xD9);
    buf
}

#[test]
fn empty() {
    let img = minimal_image();
    assert!(parse_jpeg(&img).is_ok());
}

#[test]
fn ign_appn() {
    let img = with_segments(&[0xFF, 0xE1, 0x00, 0x04, 0x01, 0x02]);
    assert!(parse_jpeg(&img).is_ok());
}

#[test]
fn comment() {
    let img = with_segments(&[0xFF, 0xFE, 0x00, 0x07, b'h', b'e', b'l', b'l', b'o']);
    assert!(parse_jpeg(&img).is_ok());
}

#[test]
fn broken_jfif() {
    let mut img = minimal_image();
    img[9] = 0x47; // identifier reads "JFIG\0"
    assert!(parse_jpeg(&img).is_err());
}

#[test]
fn empty_dht_dqt() {
    let img = with_segments(&[0xFF, 0xC4, 0x00, 0x02, 0xFF, 0xDB, 0x00, 0x02]);
    assert!(parse_jpeg(&img).is_ok());
}

#[test]
fn minimal_fields() {
    let img = minimal_image();
    let (jpeg, consumed) = parse_jpeg(&img).unwrap();
    assert_eq!(consumed, img.len());
    let h = &jpeg.jfif_header;
    assert_eq!(h.maj_ver, 1);
    assert_eq!(h.min_ver, 2);
    assert_eq!(h.units, Units::Pixel);
    assert_eq!(h.hor_dens, 1);
    assert_eq!(h.ver_dens, 1);
    assert_eq!(h.thumb_width, 0);
    assert_eq!(h.thumb_height, 0);
    assert_eq!(h.thumbnail, Vec::<u8>::new());
    assert_eq!(jpeg.tables, Vec::<TablesMisc>::new());
}

#[test]
fn segment_order_and_payloads() {
    let img = with_segments(&[
        0xFF, 0xE1, 0x00, 0x05, 0x0A, 0x0B, 0x0C, // APP1, payload [0A 0B 0C]
        0xFF, 0xFE, 0x00, 0x04, 0x01, 0x02, // COM, payload [01 02]
        0xFF, 0xDD, 0x00, 0x04, 0x12, 0x34, // DRI, interval 0x1234
        0xFF, 0xC4, 0x00, 0x03, 0x7F, // DHT, payload [7F]
        0xFF, 0xDB, 0x00, 0x03, 0x55, // DQT, payload [55]
    ]);
    let (jpeg, _) = parse_jpeg(&img).unwrap();
    let expected = vec![
        TablesMisc::APP(1, vec![0x0A, 0x0B, 0x0C]),
        TablesMisc::COM(vec![0x01, 0x02]),
        TablesMisc::DRI(0x1234),
        TablesMisc::DHT(vec![0x7F]),
        TablesMisc::DQT(vec![0x55]),
    ];
    assert_eq!(jpeg.tables, expected);
}

#[test]
fn later_app0_is_generic() {
    let img = with_segments(&[0xFF, 0xE0, 0x00, 0x04, 0x09, 0x08]);
    let (jpeg, _) = parse_jpeg(&img).unwrap();
    assert_eq!(jpeg.tables, vec![TablesMisc::APP(0, vec![0x09, 0x08])]);
}

#[test]
fn thumbnail_bytes_kept() {
    let img = vec![
        0xFF, 0xD8, // SOI
        0xFF, 0xE0, // APP0
        0x00, 0x13, // length 19 = 16 + 1*1*3
        0x4A, 0x46, 0x49, 0x46, 0x00, // "JFIF\0"
        0x01, 0x00, // version 1.0
        0x01, // unit: dots per inch
        0x00, 0x48, 0x00, 0x48, // density 72 x 72
        0x01, 0x01, // thumbnail 1 x 1
        0xAA, 0xBB, 0xCC, // one RGB triplet
        0xFF, 0xD9, // EOI
    ];
    let (jpeg, consumed) = parse_jpeg(&img).unwrap();
    assert_eq!(consumed, img.len());
    let h = &jpeg.jfif_header;
    assert_eq!(h.units, Units::DotsPerInch);
    assert_eq!(h.hor_dens, 72);
    assert_eq!(h.thumb_width, 1);
    assert_eq!(h.thumb_height, 1);
    assert_eq!(h.thumbnail, vec![0xAA, 0xBB, 0xCC]);
}

#[test]
fn thumbnail_size_mismatch() {
    let mut img = minimal_image();
    img[5] = 0x11; // declared length 17, but 16 + 0*0*3 == 16
    let err = parse_jpeg(&img).unwrap_err();
    assert_eq!(err.kind, ErrorKind::ThumbnailSizeMismatch);
    assert_eq!(err.offset, 4);
}

#[test]
fn wrong_identifier_offset() {
    let mut img = minimal_image();
    img[6] = 0x4B; // identifier no longer "JFIF\0"
    let err = parse_jpeg(&img).unwrap_err();
    assert_eq!(err.kind, ErrorKind::UnexpectedMarker);
    assert_eq!(err.offset, 6);
}

#[test]
fn truncated_app0() {
    // The APP0 declares a 1 x 1 thumbnail (length 19) but the buffer ends
    // after a single thumbnail byte.
    let img = vec![
        0xFF, 0xD8, 0xFF, 0xE0, 0x00, 0x13, 0x4A, 0x46, 0x49, 0x46, 0x00, 0x01, 0x02, 0x00, 0x00,
        0x01, 0x00, 0x01, 0x01, 0x01, 0xAA,
    ];
    let err = parse_jpeg(&img).unwrap_err();
    assert_eq!(err.kind, ErrorKind::Truncated);
    assert_eq!(err.offset, 20);
}

#[test]
fn dri_bad_length() {
    let img = with_segments(&[0xFF, 0xDD, 0x00, 0x05, 0x12, 0x34, 0x00]);
    let err = parse_jpeg(&img).unwrap_err();
    assert_eq!(err.kind, ErrorKind::InvalidLength);
    assert_eq!(err.offset, 22);
}

#[test]
fn com_length_below_two() {
    let img = with_segments(&[0xFF, 0xFE, 0x00, 0x01]);
    let err = parse_jpeg(&img).unwrap_err();
    assert_eq!(err.kind, ErrorKind::InvalidLength);
    assert_eq!(err.offset, 22);
}

#[test]
fn empty_buffer() {
    let img: Vec<u8> = Vec::new();
    let err = parse_jpeg(&img).unwrap_err();
    assert_eq!(err.kind, ErrorKind::Truncated);
    assert_eq!(err.offset, 0);
}

#[test]
fn missing_soi() {
    let img = vec![0x00, 0xD8, 0xFF, 0xD9];
    let err = parse_jpeg(&img).unwrap_err();
    assert_eq!(err.kind, ErrorKind::UnexpectedMarker);
    assert_eq!(err.offset, 0);
}

#[test]
fn trailing_bytes_ignored() {
    let mut img = minimal_image();
    let end = img.len();
    img.extend_from_slice(&[0x00, 0x01, 0x02, 0x03]);
    let (_, consumed) = parse_jpeg(&img).unwrap();
    assert_eq!(consumed, end);
}

#[test]
fn parse_twice_equal() {
    let img = with_segments(&[0xFF, 0xE3, 0x00, 0x05, 0x01, 0x02, 0x03]);
    let first = parse_jpeg(&img);
    let second = parse_jpeg(&img);
    assert_eq!(first, second);
}

#[test]
fn rebuilt_bytes_reparse_equal() {
    // Concatenating SOI + APP0 + segments + EOI by hand and parsing it
    // yields exactly the structured values the bytes encode.
    let img = with_segments(&[
        0xFF, 0xFE, 0x00, 0x05, 0x61, 0x62, 0x63, // COM "abc"
        0xFF, 0xDD, 0x00, 0x04, 0x00, 0x08, // DRI 8
    ]);
    let (jpeg, consumed) = parse_jpeg(&img).unwrap();
    assert_eq!(consumed, img.len());
    let expected = Jpeg {
        jfif_header: JfifHeader {
            maj_ver: 1,
            min_ver: 2,
            units: Units::Pixel,
            hor_dens: 1,
            ver_dens: 1,
            thumb_width: 0,
            thumb_height: 0,
            thumbnail: Vec::new(),
        },
        tables: vec![TablesMisc::COM(vec![0x61, 0x62, 0x63]), TablesMisc::DRI(8)],
    };
    assert_eq!(jpeg, expected);
}

#[test]
fn frame_header_consumed() {
    let img = with_segments(&[
        0xFF, 0xC0, 0x00, 0x0B, // SOF0, declared length 11
        0x08, // precision 8
        0x00, 0x10, // height 16
        0x00, 0x20, // width 32
        0x01, // one component
        0x01, 0x22, 0x00, // id 1, sampling 2x2, quantization selector 0
    ]);
    let (jpeg, consumed) = parse_jpeg(&img).unwrap();
    assert_eq!(consumed, img.len());
    assert_eq!(jpeg.tables, Vec::<TablesMisc>::new());
}

#[test]
fn frame_header_fields() {
    let buf = vec![
        0xFF, 0xC0, 0x00, 0x11, 0x08, 0x00, 0x10, 0x00, 0x20, 0x02, // two components
        0x01, 0x22, 0x00, // component 1
        0x02, 0x11, 0x01, // component 2
    ];
    let (fh, consumed) = parse_sof0(&buf, 0).unwrap();
    assert_eq!(consumed, buf.len());
    assert_eq!(fh.precision, 8);
    assert_eq!(fh.height, 16);
    assert_eq!(fh.width, 32);
    assert_eq!(fh.comp_params.len(), 2);
    assert_eq!(fh.comp_params[0].id, 1);
    assert_eq!(fh.comp_params[0].hor_sampling, 2);
    assert_eq!(fh.comp_params[0].ver_sampling, 2);
    assert_eq!(fh.comp_params[0].quant_selector, 0);
    assert_eq!(fh.comp_params[1].id, 2);
    assert_eq!(fh.comp_params[1].hor_sampling, 1);
    assert_eq!(fh.comp_params[1].ver_sampling, 1);
    assert_eq!(fh.comp_params[1].quant_selector, 1);
}

#[test]
fn dnl_reads_count() {
    let buf = vec![0xFF, 0xDC, 0x00, 0x04, 0x00, 0x05];
    let (count, consumed) = parse_dnl(&buf, 0).unwrap();
    assert_eq!(count, 5);
    assert_eq!(consumed, 6);
}

#[test]
fn dnl_zero_count() {
    let buf = vec![0xFF, 0xDC, 0x00, 0x04, 0x00, 0x00];
    let err = parse_dnl(&buf, 0).unwrap_err();
    assert_eq!(err.kind, ErrorKind::InvalidRestartCount);
    assert_eq!(err.offset, 4);
}

#[test]
fn dnl_bad_length() {
    let buf = vec![0xFF, 0xDC, 0x00, 0x06, 0x00, 0x05];
    let err = parse_dnl(&buf, 0).unwrap_err();
    assert_eq!(err.kind, ErrorKind::InvalidLength);
    assert_eq!(err.offset, 2);
}

#[test]
fn hufftable_decoded() {
    let mut buf = vec![0x10]; // class 1 (AC), destination 0
    let mut counts = vec![0u8; 16];
    counts[0] = 1;
    counts[1] = 2;
    buf.extend_from_slice(&counts);
    buf.extend_from_slice(&[0x0A, 0x0B, 0x0C]); // three symbol values
    let (table, consumed) = parse_hufftable(&buf, 0).unwrap();
    assert_eq!(consumed, buf.len());
    assert_eq!(table.class, 1);
    assert_eq!(table.dest, 0);
    assert_eq!(table.cnt_len, counts);
    assert_eq!(table.huff_val, vec![0x0A, 0x0B, 0x0C]);
}

#[test]
fn hufftable_bad_class() {
    let mut buf = vec![0x20]; // class 2 is out of range
    buf.extend_from_slice(&[0u8; 16]);
    let err = parse_hufftable(&buf, 0).unwrap_err();
    assert_eq!(err.kind, ErrorKind::MalformedHuffmanHeader);
    assert_eq!(err.offset, 0);
}

#[test]
fn hufftable_sum_too_large() {
    let mut buf = vec![0x00];
    buf.extend_from_slice(&[17u8; 16]); // counts sum to 272 > 256
    let err = parse_hufftable(&buf, 0).unwrap_err();
    assert_eq!(err.kind, ErrorKind::MalformedHuffmanHeader);
    assert_eq!(err.offset, 1);
}

#[test]
fn dispatcher_stops_at_eoi() {
    let buf = vec![0xFF, 0xD9];
    let err = jfif::parser::parse_tab_misc(&buf, 0).unwrap_err();
    assert_eq!(err.kind, ErrorKind::NoMatchingSegment);
    assert_eq!(err.offset, 0);
}

#[test]
fn primitive_reads() {
    let buf = vec![0x12, 0x34, 0x56];
    assert_eq!(jfif::parser::read_u8(&buf, 2).unwrap(), (0x56, 3));
    assert_eq!(jfif::parser::read_u16(&buf, 0).unwrap(), (0x1234, 2));
    let (taken, end) = jfif::parser::take_bytes(&buf, 1, 2).unwrap();
    assert_eq!(taken, vec![0x34, 0x56]);
    assert_eq!(end, 3);
    let err = jfif::parser::read_u16(&buf, 2).unwrap_err();
    assert_eq!(err.kind, ErrorKind::Truncated);
    assert_eq!(err.offset, 2);
}

#[test]
fn unit_byte_mapping() {
    assert_eq!(Units::from_u8(0), Units::Pixel);
    assert_eq!(Units::from_u8(1), Units::DotsPerInch);
    assert_eq!(Units::from_u8(2), Units::DotsPerCm);
    assert_eq!(Units::from_u8(3), Units::Unknown);
    assert_eq!(Units::from_u8(200), Units::Unknown);
}
