use vstd::prelude::*;

verus! {

#[verifier::external_type_specification]
#[verifier::external_body]
pub struct ExCsvWriterBuilder(csv::WriterBuilder);

/// A CSV encoder whose records collect in memory, for the caller to send
/// wherever they go.
///
/// It is opaque to the verifier: `csv::Writer` is generic over an
/// `io::Write` bound that the verifier cannot take in a type.
#[verifier::external_body]
struct Encoder {
    inner: csv::Writer<Vec<u8>>,
}

/// One operation handed to a record sink, with its outcome.
pub ghost enum SinkEvent<A> {
    /// A record holding these values, accepted.
    Record(Seq<A>),
    /// A flush of everything written so far, accepted.
    Flush,
    /// A record holding these values, refused with this error.
    RecordRefused(Seq<A>, csv::Error),
    /// A flush, refused with this error.
    FlushRefused(csv::Error),
}

/// A CSV record sink for rows of `A`, with a ghost log of every operation
/// handed to it. Only the calls that reach the encoder advance the log.
pub struct RecordSink<A> {
    encoder: Encoder,
    log: Ghost<Seq<SinkEvent<A>>>,
}

/// Relies on `csv::WriterBuilder::from_writer`: an encoder with the
/// builder's settings over an empty buffer.
#[verifier::external_body]
fn open_encoder(builder: &csv::WriterBuilder) -> Encoder {
    Encoder { inner: builder.from_writer(Vec::new()) }
}

/// Relies on `csv::Writer::get_ref`: the bytes flushed so far.
#[verifier::external_body]
fn flushed_bytes(encoder: &Encoder) -> &[u8] {
    encoder.inner.get_ref().as_slice()
}

impl<A> RecordSink<A> {
    /// Every operation handed to the sink so far, in order.
    pub closed spec fn log(&self) -> Seq<SinkEvent<A>> {
        self.log@
    }

    /// A sink with the settings of `builder` (delimiter, quoting, headers,
    /// terminator) that has been handed nothing yet.
    pub fn new(builder: &csv::WriterBuilder) -> (r: Self)
        ensures
            r.log() == Seq::<SinkEvent<A>>::empty(),
    {
        RecordSink { encoder: open_encoder(builder), log: Ghost(Seq::empty()) }
    }

    /// The CSV text that the encoder has moved into its buffer so far. It
    /// may move records before a flush; after a successful flush it holds
    /// every record written.
    pub fn output(&self) -> &[u8] {
        flushed_bytes(&self.encoder)
    }
}

/// Relies on `csv::Writer::serialize`: encodes `row` as one record, its
/// values in order. `Ok` means the whole record, terminator included, went
/// into the encoder; whether it succeeds depends on how the values
/// serialize and on the widths of earlier records.
#[verifier::external_body]
pub(crate) fn write_record<A: serde::Serialize>(sink: &mut RecordSink<A>, row: &[A]) -> (r: Result<
    (),
    csv::Error,
>)
    ensures
        r is Ok ==> final(sink).log() == old(sink).log().push(SinkEvent::Record(row@)),
        r matches Err(e) ==> final(sink).log() == old(sink).log().push(
            SinkEvent::RecordRefused(row@, e),
        ),
{
    sink.encoder.inner.serialize(row)
}

/// Relies on `csv::Writer::flush`: moves the encoded records into the
/// buffer; its `io::Error` becomes a `csv::Error` through csv's own `From`.
#[verifier::external_body]
pub(crate) fn flush_records<A>(sink: &mut RecordSink<A>) -> (r: Result<(), csv::Error>)
    ensures
        r is Ok ==> final(sink).log() == old(sink).log().push(SinkEvent::Flush),
        r matches Err(e) ==> final(sink).log() == old(sink).log().push(SinkEvent::FlushRefused(e)),
{
    sink.encoder.inner.flush().map_err(csv::Error::from)
}

} // verus!
