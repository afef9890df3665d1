//! The tabular sink that the reports are written to: a CSV writer over any
//! byte sink, seen by the verifier as the sequence of rows it has accepted.

use vstd::prelude::*;

verus! {

/// The error type of the CSV writer.
#[verifier::external_type_specification]
#[verifier::external_body]
pub struct ExCsvError(csv::Error);

/// An open two-column CSV sink over a byte sink of the caller's choice.
///
/// The CSV writer is generic over the byte sink, which the verifier cannot
/// express; it is held behind a boxed writer, and its state is opaque.
#[verifier::external_body]
pub struct CsvSink<'a> {
    writer: csv::Writer<Box<dyn std::io::Write + 'a>>,
}

/// The rows that a sink has accepted since it was opened, oldest first. The
/// writer buffers: an accepted row may still wait in the buffer, which is
/// written out when it is full and when the sink is dropped. A failure of
/// that last write is not reported, so an accepted row may never arrive.
pub uninterp spec fn sink_rows(sink: CsvSink) -> Seq<(Seq<char>, Seq<char>)>;

/// Whether every write to the sink has succeeded so far. After a failed
/// write a part of a row may stay in the writer's buffer and precede what is
/// written next.
pub uninterp spec fn sink_intact(sink: CsvSink) -> bool;

/// Calls [`csv::Writer::from_writer`] on the boxed byte sink. A new writer
/// has accepted no row and has not failed.
#[verifier::external_body]
fn open_sink<'a, W: std::io::Write + 'a>(out: W) -> (sink: CsvSink<'a>)
    ensures
        sink_intact(sink),
        sink_rows(sink) == Seq::<(Seq<char>, Seq<char>)>::empty(),
{
    CsvSink { writer: csv::Writer::from_writer(Box::new(out)) }
}

/// Calls [`csv::Writer::write_record`] with the two fields. The sink is
/// intact after the call exactly when it was before and the call succeeded.
/// When the call succeeds on an intact sink, the writer has accepted exactly
/// this row after the earlier ones. When it fails (the byte sink refused a
/// write) nothing is known of the row.
#[verifier::external_body]
pub(crate) fn write_row(sink: &mut CsvSink, first: &str, second: &str) -> (written: Result<
    (),
    csv::Error,
>)
    ensures
        sink_intact(*final(sink)) == (sink_intact(*old(sink)) && written is Ok),
        written is Ok && sink_intact(*old(sink)) ==> sink_rows(*final(sink)) == sink_rows(
            *old(sink),
        ).push((first@, second@)),
{
    sink.writer.write_record([first, second])
}

impl<'a> CsvSink<'a> {
    /// The rows accepted so far.
    pub open spec fn rows(&self) -> Seq<(Seq<char>, Seq<char>)> {
        sink_rows(*self)
    }

    /// Whether no write to the sink has failed.
    pub open spec fn intact(&self) -> bool {
        sink_intact(*self)
    }

    /// Opens a sink that writes CSV to `out`.
    pub fn from_writer<W: std::io::Write + 'a>(out: W) -> (sink: CsvSink<'a>)
        ensures
            sink.intact(),
            sink.rows() == Seq::<(Seq<char>, Seq<char>)>::empty(),
    {
        open_sink(out)
    }
}

} // verus!
