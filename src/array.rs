use vstd::prelude::*;
use vstd::slice::slice_subrange;

verus! {

/// The mathematical value of a dense array: its shape and its cells in
/// row-major order.
pub ghost struct ArrayView<A> {
    pub rows: nat,
    pub cols: nat,
    pub cells: Seq<A>,
}

impl<A> ArrayView<A> {
    /// The cells fill the shape exactly.
    pub open spec fn is_rect(self) -> bool {
        self.cells.len() == self.rows * self.cols
    }

    /// The cells of row `r`.
    pub open spec fn row(self, r: int) -> Seq<A> {
        self.cells.subrange(r * self.cols, r * self.cols + self.cols)
    }

    /// The rows, in order: what a sink receives when the array is written out.
    pub open spec fn records(self) -> Seq<Seq<A>> {
        Seq::new(self.rows, |r: int| self.row(r))
    }
}

/// A rectangular, row-major array that owns its cells.
#[derive(Debug, PartialEq)]
pub struct DenseArray<A> {
    rows: usize,
    cols: usize,
    data: Vec<A>,
}

impl<A> View for DenseArray<A> {
    type V = ArrayView<A>;

    closed spec fn view(&self) -> ArrayView<A> {
        ArrayView { rows: self.rows as nat, cols: self.cols as nat, cells: self.data@ }
    }
}

impl<A> DenseArray<A> {
    #[verifier::type_invariant]
    spec fn fills_shape(self) -> bool {
        self.data@.len() == self.rows * self.cols
    }

    /// Builds an array of the given shape from cells in row-major order;
    /// `None` when their number is not `rows * cols`.
    pub fn from_shape_vec(shape: (usize, usize), data: Vec<A>) -> (r: Option<Self>)
        ensures
            r is Some <==> data@.len() == shape.0 * shape.1,
            r matches Some(a) ==> a@ == (ArrayView { rows: shape.0 as nat, cols: shape.1 as nat, cells: data@ }),
    {
        let (rows, cols) = shape;
        let len = data.len();
        let fits = match rows.checked_mul(cols) {
            Some(n) => n == len,
            None => false,
        };
        if fits {
            Some(DenseArray { rows, cols, data })
        } else {
            None
        }
    }

    /// Wraps cells that are known to fill the shape.
    pub(crate) fn assemble(rows: usize, cols: usize, data: Vec<A>) -> (r: Self)
        requires
            data@.len() == rows * cols,
        ensures
            r@ == (ArrayView { rows: rows as nat, cols: cols as nat, cells: data@ }),
    {
        DenseArray { rows, cols, data }
    }

    /// The shape, as (rows, columns).
    pub fn dim(&self) -> (r: (usize, usize))
        ensures
            r.0 == self@.rows,
            r.1 == self@.cols,
            self@.is_rect(),
    {
        proof {
            use_type_invariant(self);
        }
        (self.rows, self.cols)
    }

    /// The number of rows.
    pub fn nrows(&self) -> (r: usize)
        ensures
            r == self@.rows,
    {
        self.rows
    }

    /// The number of columns.
    pub fn ncols(&self) -> (r: usize)
        ensures
            r == self@.cols,
    {
        self.cols
    }

    /// All cells, in row-major order.
    pub fn as_slice(&self) -> (r: &[A])
        ensures
            r@ == self@.cells,
    {
        self.data.as_slice()
    }

    /// The cells, in row-major order, without the shape.
    pub fn into_raw_vec(self) -> (r: Vec<A>)
        ensures
            r@ == self@.cells,
    {
        self.data
    }

    /// The cells of row `r`, in column order.
    pub fn row(&self, r: usize) -> (s: &[A])
        requires
            r < self@.rows,
        ensures
            s@ == self@.row(r as int),
    {
        proof {
            use_type_invariant(self);
            assert(r * self.cols + self.cols <= self.rows * self.cols) by (nonlinear_arith)
                requires
                    r < self.rows,
            ;
            assert(self.data@.len() == self.data.len());
        }
        let start = r * self.cols;
        slice_subrange(self.data.as_slice(), start, start + self.cols)
    }

    /// The cell at row `r`, column `c`.
    pub fn get(&self, r: usize, c: usize) -> (v: &A)
        requires
            r < self@.rows,
            c < self@.cols,
        ensures
            *v == self@.cells[r * self@.cols + c],
    {
        proof {
            use_type_invariant(self);
            assert(r * self.cols + c < self.rows * self.cols) by (nonlinear_arith)
                requires
                    r < self.rows,
                    c < self.cols,
            ;
            assert(self.data@.len() == self.data.len());
        }
        &self.data[r * self.cols + c]
    }
}

} // verus!
