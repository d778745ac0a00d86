use vstd::prelude::*;

use crate::array::{ArrayView, DenseArray};
use crate::error::ReadError;
use crate::rules::{
    dynamic_step,
    first_width,
    fixed_end,
    fixed_step,
    item_rows,
    item_view,
    lemma_flatten_rect,
    RowItem,
};

verus! {

/// An array of a given shape under construction, one row at a time.
///
/// Each row is checked as it arrives; a rejected row ends the fill, so no
/// partly filled array is ever handed out.
pub struct FixedFill<A> {
    rows: usize,
    cols: usize,
    taken: usize,
    data: Vec<A>,
    items: Ghost<Seq<RowItem<A>>>,
}

impl<A> FixedFill<A> {
    #[verifier::type_invariant]
    spec fn pending(self) -> bool {
        &&& self.taken == self.items@.len()
        &&& self.taken <= self.rows
        &&& forall|k: int|
            0 <= k < self.items@.len() ==> fixed_step(
                self.rows,
                self.cols,
                k as nat,
                #[trigger] self.items@[k],
            ) is None
        &&& self.data@ == item_rows(self.items@).flatten()
    }

    /// The shape that the rows must fill.
    pub closed spec fn shape(&self) -> (usize, usize) {
        (self.rows, self.cols)
    }

    /// The items taken so far.
    pub closed spec fn items(&self) -> Seq<RowItem<A>> {
        self.items@
    }

    /// Starts filling an array of `shape` = (rows, columns).
    pub fn new(shape: (usize, usize)) -> (r: Self)
        ensures
            r.shape() == shape,
            r.items() == Seq::<RowItem<A>>::empty(),
    {
        let r = FixedFill {
            rows: shape.0,
            cols: shape.1,
            taken: 0,
            data: Vec::new(),
            items: Ghost(Seq::empty()),
        };
        assert(item_rows(r.items@) =~= Seq::<Seq<A>>::empty());
        r
    }

    /// Takes the next item of the source: the fill goes on when the row
    /// fits, and ends with the error that the item causes otherwise.
    pub fn push_row(self, item: Result<Vec<A>, csv::Error>) -> (r: Result<Self, ReadError>)
        ensures
            match r {
                Ok(next) => {
                    &&& fixed_step(self.shape().0, self.shape().1, self.items().len(), item_view(item)) is None
                    &&& next.shape() == self.shape()
                    &&& next.items() == self.items().push(item_view(item))
                },
                Err(e) => fixed_step(self.shape().0, self.shape().1, self.items().len(), item_view(item))
                    == Some(e),
            },
    {
        proof {
            use_type_invariant(&self);
        }
        let ghost iv = item_view(item);
        let FixedFill { rows, cols, taken, mut data, items } = self;
        if taken >= rows {
            return Err(ReadError::TooManyRows { expected: rows });
        }
        match item {
            Err(e) => Err(ReadError::Decode(e)),
            Ok(mut row) => {
                let width = row.len();
                if width > cols {
                    Err(ReadError::TooManyColumns { at_row_index: taken, expected: cols })
                } else if width < cols {
                    Err(ReadError::TooFewColumns { at_row_index: taken, expected: cols, actual: width })
                } else {
                    let ghost old_data = data@;
                    data.append(&mut row);
                    let ghost new_items = items@.push(iv);
                    proof {
                        assert(item_rows(new_items) =~= item_rows(items@).push(iv->Ok_0));
                        item_rows(items@).lemma_flatten_push(iv->Ok_0);
                        assert forall|k: int| 0 <= k < new_items.len() implies fixed_step(
                            rows,
                            cols,
                            k as nat,
                            #[trigger] new_items[k],
                        ) is None by {
                            if k < items@.len() {
                                assert(new_items[k] == items@[k]);
                            }
                        }
                    }
                    Ok(FixedFill { rows, cols, taken: taken + 1, data, items: Ghost(new_items) })
                }
            },
        }
    }

    /// Ends the fill when the source is exhausted: the array, or the error
    /// for the rows that are missing.
    pub fn finish(self) -> (r: Result<DenseArray<A>, ReadError>)
        ensures
            match r {
                Ok(a) => {
                    &&& fixed_end(self.shape().0, self.items().len()) is None
                    &&& a@ == (ArrayView {
                        rows: self.shape().0 as nat,
                        cols: self.shape().1 as nat,
                        cells: item_rows(self.items()).flatten(),
                    })
                },
                Err(e) => fixed_end(self.shape().0, self.items().len()) == Some(e),
            },
    {
        proof {
            use_type_invariant(&self);
        }
        let FixedFill { rows, cols, taken, data, items } = self;
        if taken < rows {
            return Err(ReadError::TooFewRows { expected: rows, actual: taken });
        }
        proof {
            let rs = item_rows(items@);
            assert forall|r: int| 0 <= r < rs.len() implies #[trigger] rs[r].len() == cols by {
                assert(fixed_step(rows, cols, r as nat, items@[r]) is None);
            }
            lemma_flatten_rect(rs, cols as nat);
        }
        Ok(DenseArray::assemble(rows, cols, data))
    }
}

/// An array of unknown shape under construction, one row at a time: the
/// first row fixes the width that every later row must have. The row count
/// is bounded only by `usize::MAX`.
pub struct DynamicFill<A> {
    width: usize,
    taken: usize,
    data: Vec<A>,
    items: Ghost<Seq<RowItem<A>>>,
}

impl<A> DynamicFill<A> {
    #[verifier::type_invariant]
    spec fn pending(self) -> bool {
        &&& self.taken == self.items@.len()
        &&& self.width == first_width(self.items@)
        &&& forall|k: int|
            0 <= k < self.items@.len() ==> dynamic_step(
                self.width as nat,
                k as nat,
                #[trigger] self.items@[k],
            ) is None
        &&& self.data@ == item_rows(self.items@).flatten()
    }

    /// The items taken so far.
    pub closed spec fn items(&self) -> Seq<RowItem<A>> {
        self.items@
    }

    /// Starts filling an array whose shape the rows will give.
    pub fn new() -> (r: Self)
        ensures
            r.items() == Seq::<RowItem<A>>::empty(),
    {
        let r = DynamicFill { width: 0, taken: 0, data: Vec::new(), items: Ghost(Seq::empty()) };
        assert(item_rows(r.items@) =~= Seq::<Seq<A>>::empty());
        r
    }

    /// The number of rows taken so far.
    pub fn row_count(&self) -> (r: usize)
        ensures
            r == self.items().len(),
    {
        proof {
            use_type_invariant(self);
        }
        self.taken
    }

    /// Takes the next item of the source: the fill goes on when the row
    /// has the width of the first one, and ends with the error that the
    /// item causes otherwise.
    pub fn push_row(self, item: Result<Vec<A>, csv::Error>) -> (r: Result<Self, ReadError>)
        ensures
            match r {
                Ok(next) => {
                    &&& dynamic_step(
                        first_width(self.items().push(item_view(item))),
                        self.items().len(),
                        item_view(item),
                    ) is None
                    &&& next.items() == self.items().push(item_view(item))
                },
                Err(e) => dynamic_step(
                    first_width(self.items().push(item_view(item))),
                    self.items().len(),
                    item_view(item),
                ) == Some(e),
            },
    {
        proof {
            use_type_invariant(&self);
        }
        let ghost iv = item_view(item);
        let ghost new_items = self.items@.push(iv);
        let DynamicFill { width, taken, mut data, items } = self;
        if taken == usize::MAX {
            return Err(ReadError::TooManyRows { expected: usize::MAX });
        }
        match item {
            Err(e) => Err(ReadError::Decode(e)),
            Ok(mut row) => {
                let len = row.len();
                if taken > 0 && len != width {
                    assert(first_width(new_items) == first_width(items@)) by {
                        assert(new_items[0] == items@[0]);
                    }
                    Err(ReadError::NColumns { at_row_index: taken, expected: width, actual: len })
                } else {
                    let new_width = if taken == 0 {
                        len
                    } else {
                        width
                    };
                    data.append(&mut row);
                    proof {
                        assert(new_items[0] == if taken == 0 {
                            iv
                        } else {
                            items@[0]
                        });
                        assert(first_width(new_items) == new_width);
                        assert(item_rows(new_items) =~= item_rows(items@).push(iv->Ok_0));
                        item_rows(items@).lemma_flatten_push(iv->Ok_0);
                        assert forall|k: int| 0 <= k < new_items.len() implies dynamic_step(
                            new_width as nat,
                            k as nat,
                            #[trigger] new_items[k],
                        ) is None by {
                            if k < items@.len() {
                                assert(new_items[k] == items@[k]);
                            }
                        }
                    }
                    Ok(DynamicFill { width: new_width, taken: taken + 1, data, items: Ghost(new_items) })
                }
            },
        }
    }

    /// Ends the fill when the source is exhausted: an array with one row
    /// per item and the width of the first row (0 x 0 when there was none).
    pub fn finish(self) -> (r: DenseArray<A>)
        ensures
            r@ == (ArrayView {
                rows: self.items().len(),
                cols: first_width(self.items()),
                cells: item_rows(self.items()).flatten(),
            }),
    {
        proof {
            use_type_invariant(&self);
        }
        let DynamicFill { width, taken, data, items } = self;
        proof {
            let rs = item_rows(items@);
            assert forall|r: int| 0 <= r < rs.len() implies #[trigger] rs[r].len() == width by {
                assert(dynamic_step(width as nat, r as nat, items@[r]) is None);
                if r > 0 {
                    assert(dynamic_step(width as nat, 0, items@[0]) is None);
                }
            }
            lemma_flatten_rect(rs, width as nat);
        }
        DenseArray::assemble(taken, width, data)
    }
}

} // verus!
