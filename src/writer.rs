use vstd::prelude::*;

use crate::array::{ArrayView, DenseArray};
use crate::error::ReadError;
use crate::sink::{flush_records, write_record, RecordSink, SinkEvent};

verus! {

/// The events that writing these rows, one record each, produces.
pub open spec fn record_events<A>(rows: Seq<Seq<A>>) -> Seq<SinkEvent<A>> {
    rows.map_values(|row: Seq<A>| SinkEvent::Record(row))
}

/// What a successful write of `a` hands to the sink: its rows in order,
/// then one flush.
pub open spec fn write_events<A>(a: ArrayView<A>) -> Seq<SinkEvent<A>> {
    record_events(a.records()).push(SinkEvent::Flush)
}

/// What a write of `a` that fails at step `k` with `e` hands to the sink:
/// its first `k` rows, accepted, then the refused row `k`, or the refused
/// flush when `k` is past the last row.
pub open spec fn failed_write_events<A>(a: ArrayView<A>, k: int, e: csv::Error) -> Seq<SinkEvent<A>> {
    record_events(a.records().take(k)).push(
        if k < a.rows {
            SinkEvent::RecordRefused(a.records()[k], e)
        } else {
            SinkEvent::FlushRefused(e)
        },
    )
}

/// Writes arrays of `A` as CSV, one record per row.
///
/// Each write is stated over the log of its record sink: the operations
/// handed to the encoder, with their outcomes.
pub struct Array2Writer<A> {
    sink: RecordSink<A>,
}

impl<A> Array2Writer<A> {
    /// Every operation handed to the sink so far, in order.
    pub closed spec fn sent(&self) -> Seq<SinkEvent<A>> {
        self.sink.log()
    }

    /// Encodes with the settings of `builder` (delimiter, quoting,
    /// headers, terminator).
    pub fn new(builder: &csv::WriterBuilder) -> (r: Self)
        ensures
            r.sent() == Seq::<SinkEvent<A>>::empty(),
    {
        Array2Writer { sink: RecordSink::new(builder) }
    }

    /// The CSV text that the encoder has moved into its buffer so far. It
    /// may move records before a flush; after a successful write it holds
    /// every record written.
    pub fn output(&self) -> &[u8] {
        self.sink.output()
    }
}

impl<A: serde::Serialize> Array2Writer<A> {
    /// Writes `array` as one record per row, rows in index order and each
    /// row's values in column order, then flushes the sink once.
    ///
    /// A refused record or flush ends the write with `Sink`, carrying the
    /// error that the sink gave; the records accepted before it stay with
    /// the sink. A refused record may also
    /// leave its leading fields in the encoder's buffer, to come out at the
    /// next flush, so a writer that has failed should not be used again.
    pub fn serialize_array2(&mut self, array: &DenseArray<A>) -> (r: Result<(), ReadError>)
        ensures
            r is Ok ==> final(self).sent() == old(self).sent() + write_events(array@),
            r is Err ==> r->Err_0 is Sink,
            r matches Err(ReadError::Sink(inner)) ==> exists|k: int|
                0 <= k <= array@.rows && final(self).sent() == old(self).sent()
                    + #[trigger] failed_write_events(array@, k, inner),
    {
        let ghost before = self.sent();
        let ghost records = array@.records();
        let (rows, _cols) = array.dim();
        let mut i: usize = 0;
        while i < rows
            invariant
                i <= rows,
                rows == array@.rows,
                records == array@.records(),
                before == old(self).sent(),
                self.sent() == before + record_events(records.take(i as int)),
            decreases rows - i,
        {
            let row = array.row(i);
            match write_record(&mut self.sink, row) {
                Ok(()) => {
                    proof {
                        assert(records.take(i + 1) =~= records.take(i as int).push(row@));
                        assert(record_events(records.take(i + 1)) =~= record_events(
                            records.take(i as int),
                        ).push(SinkEvent::Record(row@)));
                        assert(self.sent() =~= before + record_events(records.take(i + 1)));
                    }
                    i = i + 1;
                },
                Err(e) => {
                    proof {
                        assert(row@ == records[i as int]);
                        assert(self.sent() =~= before + failed_write_events(array@, i as int, e));
                    }
                    let ghost refused = e;
                    let r = Err(ReadError::Sink(e));
                    proof {
                        assert(r matches Err(ReadError::Sink(inner)) && inner == refused);
                    }
                    return r;
                },
            }
        }
        match flush_records(&mut self.sink) {
            Ok(()) => {
                proof {
                    assert(records.take(rows as int) =~= records);
                    assert(self.sent() =~= before + write_events(array@));
                }
                Ok(())
            },
            Err(e) => {
                proof {
                    assert(records.take(rows as int) =~= records);
                    assert(self.sent() =~= before + failed_write_events(array@, rows as int, e));
                }
                let ghost refused = e;
                let r = Err(ReadError::Sink(e));
                proof {
                    assert(r matches Err(ReadError::Sink(inner)) && inner == refused);
                }
                r
            },
        }
    }
}

} // verus!
