//! The waveform as a table: a header line and one line for each sample, in
//! CSV as the `csv` crate writes it.

use vstd::prelude::*;
use vstd::string::*;
use vstd::utf8::*;

verus! {

/// Title of the first column.
pub const TIME_TITLE: &'static str = "time";

/// Title of the second column.
pub const DATA_TITLE: &'static str = "data";

/// Whether a byte makes the CSV writer put its field in quotes: the comma,
/// the quote, carriage return and line feed.
pub open spec fn is_special(b: u8) -> bool {
    b == 0x2C || b == 0x22 || b == 0x0D || b == 0x0A
}

/// Whether a field holds a byte that needs quotes.
pub open spec fn needs_quotes(field: Seq<u8>) -> bool {
    exists|i: int| 0 <= i < field.len() && is_special(#[trigger] field[i])
}

/// A field with each of its quotes written twice.
pub open spec fn quotes_doubled(field: Seq<u8>) -> Seq<u8>
    decreases field.len(),
{
    if field.len() == 0 {
        Seq::empty()
    } else if field.last() == 0x22 {
        quotes_doubled(field.drop_last()) + seq![0x22u8, 0x22u8]
    } else {
        quotes_doubled(field.drop_last()).push(field.last())
    }
}

/// A field as it stands in a line: as it is, or, where it needs quotes,
/// between quotes and with its own quotes doubled.
pub open spec fn csv_field(field: Seq<u8>) -> Seq<u8> {
    if needs_quotes(field) {
        seq![0x22u8] + quotes_doubled(field) + seq![0x22u8]
    } else {
        field
    }
}

/// The line of a record of two fields: the fields with a comma between them
/// and a line feed behind them.
pub open spec fn csv_line(first: Seq<u8>, second: Seq<u8>) -> Seq<u8> {
    csv_field(first) + seq![0x2Cu8] + csv_field(second) + seq![0x0Au8]
}

/// The line of one sample: its time and its voltage as texts.
pub open spec fn row_line(row: (Seq<char>, Seq<char>)) -> Seq<u8> {
    csv_line(encode_utf8(row.0), encode_utf8(row.1))
}

/// The lines of `rows`, one behind the other.
pub open spec fn row_lines(rows: Seq<(Seq<char>, Seq<char>)>) -> Seq<u8>
    decreases rows.len(),
{
    if rows.len() == 0 {
        Seq::empty()
    } else {
        row_lines(rows.drop_last()) + row_line(rows.last())
    }
}

/// The table of `rows`: the header line `time,data`, then the lines of the
/// rows.
pub open spec fn table_bytes(rows: Seq<(Seq<char>, Seq<char>)>) -> Seq<u8> {
    row_line((TIME_TITLE@, DATA_TITLE@)) + row_lines(rows)
}

/// The texts of rows of strings.
pub open spec fn rows_of(rows: Seq<(String, String)>) -> Seq<(Seq<char>, Seq<char>)> {
    Seq::new(rows.len(), |i: int| (rows[i].0@, rows[i].1@))
}

/// `csv::Error`, the error of the `csv` crate. What it holds is not seen
/// here.
#[verifier::external_type_specification]
#[verifier::external_body]
pub struct ExCsvError(csv::Error);

/// A CSV writer of the `csv` crate, in its default configuration, that
/// writes into a byte vector. What it holds is not seen here.
#[verifier::external_body]
pub struct CsvWriter {
    inner: csv::Writer<Vec<u8>>,
}

/// Every byte that a CSV writer has been made to write: what its vector
/// holds, followed by what the writer still keeps in its buffer.
pub uninterp spec fn csv_written(writer: CsvWriter) -> Seq<u8>;

/// Whether a CSV writer is ready for a record of two fields: it stands
/// between two records, having written no part of a record that it has not
/// ended, and every record that it has written had two fields.
pub uninterp spec fn csv_ready_for_pair(writer: CsvWriter) -> bool;

/// Makes a CSV writer over `sink` with `csv::Writer::from_writer`. The
/// writer is taken to be ready for a record of two fields, with nothing
/// written but what `sink` holds.
#[verifier::external_body]
fn csv_writer(sink: Vec<u8>) -> (writer: CsvWriter)
    ensures
        csv_written(writer) == sink@,
        csv_ready_for_pair(writer),
{
    CsvWriter { inner: csv::Writer::from_writer(sink) }
}

/// Writes a record of two fields with `csv::Writer::write_record`, on a
/// writer that is ready for one. The call is taken to succeed: the writer
/// fails only where its sink fails or where a record has another number of
/// fields than the first, and a byte vector takes every write. The writer is
/// taken to have written the line of the two fields behind what it had
/// written, and to be ready for the next record.
#[verifier::external_body]
fn csv_write_pair(writer: &mut CsvWriter, first: &str, second: &str) -> (r: Result<(), csv::Error>)
    requires
        csv_ready_for_pair(*old(writer)),
    ensures
        r is Ok,
        csv_written(*final(writer)) == csv_written(*old(writer)) + csv_line(
            first.spec_bytes(),
            second.spec_bytes(),
        ),
        csv_ready_for_pair(*final(writer)),
{
    writer.inner.write_record([first, second])
}

/// Ends a CSV writer with `csv::Writer::into_inner`, which flushes it into
/// its vector and hands the vector back. The call is taken to succeed, a
/// byte vector taking every write, and the vector to hold every byte that
/// the writer had been made to write.
#[verifier::external_body]
fn csv_finish(writer: CsvWriter) -> (r: Option<Vec<u8>>)
    ensures
        r is Some,
        r matches Some(bytes) ==> bytes@ == csv_written(writer),
{
    writer.inner.into_inner().ok()
}

/// Writes the table of `rows`: the header line, then one line for each row,
/// in order.
pub fn render_table(rows: &[(String, String)]) -> (table: Vec<u8>)
    ensures
        table@ == table_bytes(rows_of(rows@)),
{
    let mut writer = csv_writer(Vec::new());
    csv_write_pair(&mut writer, TIME_TITLE, DATA_TITLE).unwrap();
    let mut i: usize = 0;
    while i < rows.len()
        invariant
            i <= rows@.len(),
            csv_ready_for_pair(writer),
            csv_written(writer) == table_bytes(rows_of(rows@).take(i as int)),
        decreases rows@.len() - i,
    {
        let row = &rows[i];
        csv_write_pair(&mut writer, row.0.as_str(), row.1.as_str()).unwrap();
        proof {
            let all = rows_of(rows@);
            assert(all.take(i as int + 1).drop_last() =~= all.take(i as int));
            assert(all.take(i as int + 1).last() == (row.0@, row.1@));
        }
        i = i + 1;
    }
    assert(rows_of(rows@).take(i as int) =~= rows_of(rows@));
    csv_finish(writer).unwrap()
}

/// A table holds the header and a line for each row: the table of rows with
/// one more is the table of those rows followed by the line of the last,
/// and a line of fields that need no quotes is the fields themselves, a
/// comma between them and a line feed behind.
pub proof fn lemma_table_grows(rows: Seq<(Seq<char>, Seq<char>)>, row: (Seq<char>, Seq<char>))
    ensures
        table_bytes(rows.push(row)) == table_bytes(rows) + row_line(row),
        !needs_quotes(encode_utf8(row.0)) && !needs_quotes(encode_utf8(row.1)) ==> row_line(row)
            == encode_utf8(row.0) + seq![0x2Cu8] + encode_utf8(row.1) + seq![0x0Au8],
{
    assert(rows.push(row).drop_last() =~= rows);
    assert(table_bytes(rows.push(row)) =~= table_bytes(rows) + row_line(row));
}

} // verus!
