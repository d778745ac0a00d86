use vstd::prelude::*;

use crate::array::DenseArray;
use crate::error::ReadError;
use crate::fill::{DynamicFill, FixedFill};
use crate::source::{next_item, RecordSource};
use crate::rules::{
    dynamic_read,
    dynamic_step,
    first_width,
    fixed_read,
    fixed_step,
    item_view,
    lemma_dynamic_scan_passes,
    lemma_fixed_scan_passes,
    read_view,
    RowItem,
};

verus! {

/// Reads arrays of `A` from a CSV record source, one row per record.
///
/// Each read is stated over the log of its record source: the items that
/// the source handed out during the read.
#[verifier::reject_recursive_types(R)]
pub struct Array2Reader<R, A> {
    source: RecordSource<R, A>,
}

impl<R, A> Array2Reader<R, A> {
    /// Every item taken from the source so far, in order.
    pub closed spec fn taken(&self) -> Seq<RowItem<A>> {
        self.source.taken()
    }

    /// How many times the source has reported that it is exhausted.
    pub closed spec fn ends(&self) -> nat {
        self.source.ends()
    }

    /// Reads from `source`, which is positioned at its first record.
    pub fn new(source: csv::Reader<R>) -> (r: Self)
        ensures
            r.taken() == Seq::<RowItem<A>>::empty(),
            r.ends() == 0,
    {
        Array2Reader { source: RecordSource::new(source) }
    }

    /// Gives the record source back.
    pub fn into_inner(self) -> csv::Reader<R> {
        self.source.into_inner()
    }
}

impl<R: std::io::Read, A: serde::de::DeserializeOwned> Array2Reader<R, A> {
    /// Reads an array of `shape` = (rows, columns).
    ///
    /// The result is what the rows taken by this call give, and the call
    /// takes no row after the first that fails: at most `rows + 1` items
    /// are taken, so an oversized source is never drained. The call reads
    /// on to the source's end exactly when it takes every row it meets.
    pub fn deserialize_array2(&mut self, shape: (usize, usize)) -> (r: Result<DenseArray<A>, ReadError>)
        ensures
            final(self).taken().len() >= old(self).taken().len(),
            final(self).taken().take(old(self).taken().len() as int) == old(self).taken(),
            ({
                let seen = final(self).taken().skip(old(self).taken().len() as int);
                &&& seen.len() <= shape.0 + 1
                &&& read_view(r) == fixed_read(shape.0, shape.1, seen)
                &&& old(self).ends() <= final(self).ends() <= old(self).ends() + 1
                &&& (final(self).ends() == old(self).ends() + 1 <==> forall|k: int|
                    0 <= k < seen.len() ==> #[trigger] fixed_step(
                        shape.0,
                        shape.1,
                        k as nat,
                        seen[k],
                    ) is None)
                &&& forall|k: int|
                    0 <= k < seen.len() - 1 ==> #[trigger] fixed_step(
                        shape.0,
                        shape.1,
                        k as nat,
                        seen[k],
                    ) is None
            }),
    {
        let ghost before = self.taken();
        let mut fill = FixedFill::new(shape);
        loop
            invariant
                fill.shape() == shape,
                before == old(self).taken(),
                self.ends() == old(self).ends(),
                self.taken() == before + fill.items(),
                fill.items().len() <= shape.0,
                forall|k: int|
                    0 <= k < fill.items().len() ==> #[trigger] fixed_step(
                        shape.0,
                        shape.1,
                        k as nat,
                        fill.items()[k],
                    ) is None,
            decreases shape.0 + 1 - fill.items().len(),
        {
            let ghost seen = fill.items();
            match next_item(&mut self.source) {
                None => {
                    let r = fill.finish();
                    proof {
                        assert(self.taken().skip(before.len() as int) =~= seen);
                        assert(self.taken().take(before.len() as int) =~= before);
                        lemma_fixed_scan_passes(shape.0, shape.1, seen, 0, seen.len());
                    }
                    return r;
                },
                Some(item) => {
                    let ghost iv = item_view(item);
                    match fill.push_row(item) {
                        Ok(next) => {
                            fill = next;
                            proof {
                                assert(self.taken() =~= before + fill.items());
                            }
                        },
                        Err(e) => {
                            proof {
                                let all = seen.push(iv);
                                assert(self.taken() =~= before + all);
                                assert(self.taken().skip(before.len() as int) =~= all);
                                assert(self.taken().take(before.len() as int) =~= before);
                                assert forall|k: int| 0 <= k < seen.len() implies #[trigger] fixed_step(
                                    shape.0,
                                    shape.1,
                                    k as nat,
                                    all[k],
                                ) is None by {
                                    assert(all[k] == seen[k]);
                                }
                                lemma_fixed_scan_passes(shape.0, shape.1, all, 0, seen.len());
                                let j = seen.len() as int;
                                assert(all[j] == iv);
                                assert(fixed_step(shape.0, shape.1, j as nat, all[j]) is Some);
                            }
                            return Err(e);
                        },
                    }
                },
            }
        }
    }

    /// Reads an array whose shape the source gives: one row per record,
    /// as wide as the first record.
    ///
    /// The result is what the rows taken by this call give, and the call
    /// takes no row after the first that fails. It reads on to the source's
    /// end exactly when it takes every row it meets, so an unbounded source
    /// needs a bound of its own.
    pub fn deserialize_array2_dynamic(&mut self) -> (r: Result<DenseArray<A>, ReadError>)
        ensures
            final(self).taken().len() >= old(self).taken().len(),
            final(self).taken().take(old(self).taken().len() as int) == old(self).taken(),
            ({
                let seen = final(self).taken().skip(old(self).taken().len() as int);
                &&& read_view(r) == dynamic_read(seen)
                &&& old(self).ends() <= final(self).ends() <= old(self).ends() + 1
                &&& (final(self).ends() == old(self).ends() + 1 <==> forall|k: int|
                    0 <= k < seen.len() ==> #[trigger] dynamic_step(
                        first_width(seen),
                        k as nat,
                        seen[k],
                    ) is None)
                &&& forall|k: int|
                    0 <= k < seen.len() - 1 ==> #[trigger] dynamic_step(
                        first_width(seen),
                        k as nat,
                        seen[k],
                    ) is None
            }),
    {
        let ghost before = self.taken();
        let mut fill = DynamicFill::new();
        loop
            invariant
                before == old(self).taken(),
                self.ends() == old(self).ends(),
                self.taken() == before + fill.items(),
                fill.items().len() <= usize::MAX,
                forall|k: int|
                    0 <= k < fill.items().len() ==> #[trigger] dynamic_step(
                        first_width(fill.items()),
                        k as nat,
                        fill.items()[k],
                    ) is None,
            decreases usize::MAX - fill.items().len(),
        {
            let ghost seen = fill.items();
            match next_item(&mut self.source) {
                None => {
                    let a = fill.finish();
                    proof {
                        assert(self.taken().skip(before.len() as int) =~= seen);
                        assert(self.taken().take(before.len() as int) =~= before);
                        lemma_dynamic_scan_passes(seen, 0, seen.len());
                    }
                    return Ok(a);
                },
                Some(item) => {
                    let ghost iv = item_view(item);
                    let ghost all = seen.push(iv);
                    proof {
                        assert(self.taken() =~= before + all);
                        if seen.len() > 0 {
                            assert(all[0] == seen[0]);
                        }
                        assert forall|k: int| 0 <= k < seen.len() implies #[trigger] dynamic_step(
                            first_width(all),
                            k as nat,
                            all[k],
                        ) is None by {
                            assert(all[k] == seen[k]);
                            assert(dynamic_step(first_width(seen), k as nat, seen[k]) is None);
                        }
                    }
                    match fill.push_row(item) {
                        Ok(next) => {
                            fill = next;
                            proof {
                                assert forall|k: int| 0 <= k < all.len() implies #[trigger] dynamic_step(
                                    first_width(fill.items()),
                                    k as nat,
                                    fill.items()[k],
                                ) is None by {
                                    if k < seen.len() {
                                        assert(dynamic_step(first_width(all), k as nat, all[k]) is None);
                                    } else {
                                        assert(all[k] == iv);
                                    }
                                }
                            }
                        },
                        Err(e) => {
                            proof {
                                assert(self.taken().skip(before.len() as int) =~= all);
                                assert(self.taken().take(before.len() as int) =~= before);
                                lemma_dynamic_scan_passes(all, 0, seen.len());
                                let j = seen.len() as int;
                                assert(all[j] == iv);
                                assert(dynamic_step(first_width(all), j as nat, all[j]) is Some);
                            }
                            return Err(e);
                        },
                    }
                },
            }
        }
    }
}

} // verus!
