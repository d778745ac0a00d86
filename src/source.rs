use vstd::prelude::*;

use crate::rules::{item_view, RowItem};

verus! {

#[verifier::external_type_specification]
#[verifier::external_body]
#[verifier::reject_recursive_types(R)]
pub struct ExCsvReader<R>(csv::Reader<R>);

/// A CSV record source that decodes rows of `A`, with a ghost log of every
/// item it has handed out and of how many times it reported its end. Only
/// the call that reads the source advances them.
#[verifier::reject_recursive_types(R)]
pub struct RecordSource<R, A> {
    reader: csv::Reader<R>,
    taken: Ghost<Seq<RowItem<A>>>,
    ends: Ghost<nat>,
}

impl<R, A> RecordSource<R, A> {
    /// Every item handed out so far, in order.
    pub closed spec fn taken(&self) -> Seq<RowItem<A>> {
        self.taken@
    }

    /// How many times the source has reported that it is exhausted.
    pub closed spec fn ends(&self) -> nat {
        self.ends@
    }

    /// Reads from `reader`, which is positioned at its first record.
    pub fn new(reader: csv::Reader<R>) -> (r: Self)
        ensures
            r.taken() == Seq::<RowItem<A>>::empty(),
            r.ends() == 0,
    {
        RecordSource { reader, taken: Ghost(Seq::empty()), ends: Ghost(0) }
    }

    /// Gives the reader back.
    pub fn into_inner(self) -> csv::Reader<R> {
        self.reader
    }
}

/// Relies on `csv::Reader::deserialize` and the `next` of the iterator it
/// returns: reads the next record and decodes it as a row of values, or
/// gives `None` once the source is exhausted. What comes back depends on
/// the stream; the log records it, and counts each `None`.
#[verifier::external_body]
pub(crate) fn next_item<R: std::io::Read, A: serde::de::DeserializeOwned>(
    source: &mut RecordSource<R, A>,
) -> (r: Option<Result<Vec<A>, csv::Error>>)
    ensures
        r matches Some(item) ==> final(source).taken() == old(source).taken().push(item_view(item))
            && final(source).ends() == old(source).ends(),
        r is None ==> final(source).taken() == old(source).taken() && final(source).ends()
            == old(source).ends() + 1,
{
    source.reader.deserialize::<Vec<A>>().next()
}

} // verus!
