//! Comma-separated text through the csv crate: one record to bytes, and
//! bytes to a header and its data records.

use crate::person::{header_fields, records_bytes};
use vstd::prelude::*;

verus! {

/// The bytes that the csv writer (default settings) writes for one record:
/// its fields, quoted where needed, separated by commas and ended by a
/// newline.
pub uninterp spec fn csv_record(fields: Seq<Seq<char>>) -> Seq<u8>;

/// What the csv reader (default settings: the first record is the header)
/// reads from a text: its header and data records, or `None` where it
/// refuses the text.
pub uninterp spec fn csv_table(data: Seq<u8>) -> Option<(Seq<Seq<char>>, Seq<Seq<Seq<char>>>)>;

#[verifier::external_type_specification]
#[verifier::external_body]
pub struct ExCsvError(csv::Error);

/// Relies on `csv::Writer::from_writer`, `write_record` and `into_inner`
/// over a `Vec<u8>`: one record's bytes. Writing into memory cannot fail,
/// and a fresh writer has no earlier record to hold the field count to.
#[verifier::external_body]
pub(crate) fn encode_record(fields: &Vec<String>) -> (r: Vec<u8>)
    ensures
        r@ == csv_record(fields.deep_view()),
{
    let mut writer = csv::Writer::from_writer(Vec::new());
    writer.write_record(fields).expect("writing to memory");
    writer.into_inner().expect("flushing to memory")
}

/// Relies on `csv::Reader::from_reader`, `headers` and `records`: the
/// header and the data records of a text, or the reader's error. By default
/// the reader is not flexible: a record whose field count differs from the
/// header's is an error. With the default settings on both sides it reads
/// back what the writer writes: the writer quotes every field holding a
/// comma, a quote, a CR or an LF and doubles its quotes, and the reader
/// undoes that. This is stated for the header of a file of records, whose
/// first field does not start with a byte-order mark, and rows of its width,
/// which never encode as an empty line.
#[verifier::external_body]
pub(crate) fn decode_table(data: &[u8]) -> (r: Result<(Vec<String>, Vec<Vec<String>>), csv::Error>)
    ensures
        r is Ok <==> csv_table(data@) is Some,
        r is Ok ==> csv_table(data@) == Some((r->Ok_0.0.deep_view(), r->Ok_0.1.deep_view())),
        r is Ok ==> forall|i: int| 0 <= i < r->Ok_0.1.len() ==> (#[trigger] r->Ok_0.1[i]).len() == r->Ok_0.0.len(),
        forall|rows: Seq<Seq<Seq<char>>>|
            #![trigger records_bytes(rows)]
            (forall|i: int| 0 <= i < rows.len() ==> (#[trigger] rows[i]).len() == header_fields().len())
                && data@ == csv_record(header_fields()) + records_bytes(rows) ==> (r is Ok
                && r->Ok_0.0.deep_view() == header_fields() && r->Ok_0.1.deep_view() == rows),
{
    let mut reader = csv::Reader::from_reader(data);
    let header: Vec<String> = reader.headers()?.iter().map(String::from).collect();
    let rows = reader
        .records()
        .map(|record| record.map(|fields| fields.iter().map(String::from).collect()))
        .collect::<Result<Vec<Vec<String>>, csv::Error>>()?;
    Ok((header, rows))
}

/// Relies on `csv::Error`'s `Display`: a message for the reader's error.
#[verifier::external_body]
pub(crate) fn error_message(e: &csv::Error) -> (r: String) {
    e.to_string()
}

} // verus!
