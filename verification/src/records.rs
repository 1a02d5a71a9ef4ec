//! The encoded record reader: bytes in the legacy 8-bit encoding become
//! text, and text becomes delimited records.
//!
//! Transcoding is done by `encoding_rs_io` with `encoding_rs`, field
//! splitting by `csv`. This module names what they deliver and chains them.

use vstd::prelude::*;

verus! {

/// One record of a delimited source: its fields, or `None` where the reader
/// found the record malformed and delivered no fields for it.
pub type Record = Option<Vec<String>>;

/// A record as plain values.
pub type RecordView = Option<Seq<Seq<char>>>;

/// The text that `encoding_rs_io`'s reader, set to ISO-8859-10, delivers for
/// a source that holds `bytes`; `None` where reading that text to its end
/// fails.
pub uninterp spec fn iso_8859_10_text(bytes: Seq<u8>) -> Option<Seq<char>>;

/// The records that a `csv` reader with the given field delimiter, and
/// otherwise as `csv::ReaderBuilder::new` sets it up, yields for `text`, in
/// order. The reader takes the first row for the header and does not yield
/// it; a record for which it reports an error stands as `None`.
pub uninterp spec fn csv_records(text: Seq<char>, delimiter: u8) -> Seq<RecordView>;

/// Reads `bytes` to the end through
/// `encoding_rs_io::DecodeReaderBytesBuilder` with the encoding set to
/// `encoding_rs::ISO_8859_10`. The result is the text so read.
#[verifier::external_body]
fn decode_iso_8859_10(bytes: &[u8]) -> (out: Option<String>)
    ensures
        out.deep_view() == iso_8859_10_text(bytes@),
{
    let mut reader = encoding_rs_io::DecodeReaderBytesBuilder::new()
        .encoding(Some(encoding_rs::ISO_8859_10))
        .build(bytes);
    let mut text = String::new();
    std::io::Read::read_to_string(&mut reader, &mut text).ok().map(|_| text)
}

/// Runs a `csv::Reader`, built by `csv::ReaderBuilder` with the given
/// delimiter, over `text` and collects what `records` yields: the fields of
/// each record as owned strings, `None` for a record that came as an error.
#[verifier::external_body]
fn split_csv(text: &str, delimiter: u8) -> (out: Vec<Record>)
    ensures
        out.deep_view() == csv_records(text@, delimiter),
{
    let mut reader = csv::ReaderBuilder::new().delimiter(delimiter).from_reader(text.as_bytes());
    reader.records().map(|r| r.ok().map(|rec| rec.iter().map(|f| f.to_string()).collect())).collect()
}

/// The records of a source in the legacy encoding: its bytes transcoded,
/// then split. `None` where transcoding yields no text.
pub open spec fn encoded_records(bytes: Seq<u8>, delimiter: u8) -> Option<Seq<RecordView>> {
    match iso_8859_10_text(bytes) {
        Some(text) => Some(csv_records(text, delimiter)),
        None => None,
    }
}

/// Transcodes a source from ISO-8859-10 and splits it into records.
pub fn read_encoded_records(bytes: &[u8], delimiter: u8) -> (out: Option<Vec<Record>>)
    ensures
        out.deep_view() == encoded_records(bytes@, delimiter),
{
    match decode_iso_8859_10(bytes) {
        Some(text) => Some(split_csv(text.as_str(), delimiter)),
        None => None,
    }
}

} // verus!
