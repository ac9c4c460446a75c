//! Parser for the header and metadata region of a JFIF (JPEG File
//! Interchange Format) image: the start-of-image marker, the mandatory
//! JFIF application segment, optional marker segments (application data,
//! comments, restart intervals, Huffman and quantization table containers),
//! an optional baseline frame header, and the end-of-image marker.
//!
//! Pixel data is not decoded; the library extracts and validates structural
//! metadata only. Every parser is specified against a mathematical grammar
//! over byte sequences (`grammar`), and the executable code (`parser`) is
//! proved to return exactly what that grammar says, for every input buffer.

pub mod grammar;
pub mod laws;
pub mod model;
pub mod parser;
