use vstd::prelude::*;

use crate::array::{ArrayView, DenseArray};
use crate::error::ReadError;

verus! {

/// What a record source hands over at one step: a decoded row, or the
/// decoder's error.
pub type RowItem<A> = Result<Seq<A>, csv::Error>;

/// The value of an item as the executable code holds it.
pub open spec fn item_view<A>(item: Result<Vec<A>, csv::Error>) -> RowItem<A> {
    match item {
        Ok(row) => Ok(row@),
        Err(e) => Err(e),
    }
}

/// The rows that the items carry; an error stands for no values.
pub open spec fn item_rows<A>(items: Seq<RowItem<A>>) -> Seq<Seq<A>> {
    items.map_values(
        |item: RowItem<A>|
            match item {
                Ok(row) => row,
                Err(_) => Seq::empty(),
            },
    )
}

/// The fixed-shape reader's verdict on the item at row index `k`, when
/// reading `rows` rows of `cols` values: `None` when the row is taken.
pub open spec fn fixed_step<A>(rows: usize, cols: usize, k: nat, item: RowItem<A>) -> Option<
    ReadError,
> {
    if k >= rows {
        Some(ReadError::TooManyRows { expected: rows })
    } else {
        match item {
            Err(e) => Some(ReadError::Decode(e)),
            Ok(row) => if row.len() > cols {
                Some(ReadError::TooManyColumns { at_row_index: k as usize, expected: cols })
            } else if row.len() < cols {
                Some(
                    ReadError::TooFewColumns {
                        at_row_index: k as usize,
                        expected: cols,
                        actual: row.len() as usize,
                    },
                )
            } else {
                None
            },
        }
    }
}

/// The fixed-shape reader's verdict when the source ends after `k` rows.
pub open spec fn fixed_end(rows: usize, k: nat) -> Option<ReadError> {
    if k < rows {
        Some(ReadError::TooFewRows { expected: rows, actual: k as usize })
    } else {
        None
    }
}

/// The first failure met when the items from index `k` on are read and the
/// source then ends.
pub open spec fn fixed_scan<A>(rows: usize, cols: usize, items: Seq<RowItem<A>>, k: nat) -> Option<
    ReadError,
>
    decreases items.len() - k,
{
    if k < items.len() {
        match fixed_step(rows, cols, k, items[k as int]) {
            Some(e) => Some(e),
            None => fixed_scan(rows, cols, items, k + 1),
        }
    } else {
        fixed_end(rows, k)
    }
}

/// The result of reading a `rows` x `cols` array from a source that yields
/// `items` and then ends.
pub open spec fn fixed_read<A>(rows: usize, cols: usize, items: Seq<RowItem<A>>) -> Result<
    ArrayView<A>,
    ReadError,
> {
    match fixed_scan(rows, cols, items, 0) {
        Some(e) => Err(e),
        None => Ok(ArrayView { rows: rows as nat, cols: cols as nat, cells: item_rows(items).flatten() }),
    }
}

/// The width that the dynamic-shape reader takes from the first row.
pub open spec fn first_width<A>(items: Seq<RowItem<A>>) -> nat {
    if items.len() > 0 {
        match items[0] {
            Ok(row) => row.len(),
            Err(_) => 0,
        }
    } else {
        0
    }
}

/// The dynamic-shape reader's verdict on the item at row index `k`, the
/// first row having held `width` values: `None` when the row is taken. A
/// row whose index no longer fits in `usize` is one too many.
pub open spec fn dynamic_step<A>(width: nat, k: nat, item: RowItem<A>) -> Option<ReadError> {
    if k >= usize::MAX {
        Some(ReadError::TooManyRows { expected: usize::MAX })
    } else {
        match item {
        Err(e) => Some(ReadError::Decode(e)),
        Ok(row) => if k > 0 && row.len() != width {
            Some(
                ReadError::NColumns {
                    at_row_index: k as usize,
                    expected: width as usize,
                    actual: row.len() as usize,
                },
            )
        } else {
            None
        },
        }
    }
}

/// The first failure met when the items from index `k` on are read.
pub open spec fn dynamic_scan<A>(items: Seq<RowItem<A>>, k: nat) -> Option<ReadError>
    decreases items.len() - k,
{
    if k < items.len() {
        match dynamic_step(first_width(items), k, items[k as int]) {
            Some(e) => Some(e),
            None => dynamic_scan(items, k + 1),
        }
    } else {
        None
    }
}

/// The result of reading an array of unknown shape from a source that
/// yields `items` and then ends.
pub open spec fn dynamic_read<A>(items: Seq<RowItem<A>>) -> Result<ArrayView<A>, ReadError> {
    match dynamic_scan(items, 0) {
        Some(e) => Err(e),
        None => Ok(
            ArrayView {
                rows: items.len(),
                cols: first_width(items),
                cells: item_rows(items).flatten(),
            },
        ),
    }
}

/// The value of a read's result: the array's view in place of the array.
pub open spec fn read_view<A>(r: Result<DenseArray<A>, ReadError>) -> Result<ArrayView<A>, ReadError> {
    match r {
        Ok(a) => Ok(a@),
        Err(e) => Err(e),
    }
}

/// Items that the fixed-shape reader takes leave its verdict to the items
/// after them.
pub proof fn lemma_fixed_scan_passes<A>(
    rows: usize,
    cols: usize,
    items: Seq<RowItem<A>>,
    k: nat,
    m: nat,
)
    requires
        k <= m <= items.len(),
        forall|j: int| k <= j < m ==> #[trigger] fixed_step(rows, cols, j as nat, items[j]) is None,
    ensures
        fixed_scan(rows, cols, items, k) == fixed_scan(rows, cols, items, m),
    decreases m - k,
{
    if k < m {
        let j = k as int;
        assert(fixed_step(rows, cols, j as nat, items[j]) is None);
        lemma_fixed_scan_passes(rows, cols, items, k + 1, m);
    }
}

/// Items that the dynamic-shape reader takes leave its verdict to the items
/// after them.
pub proof fn lemma_dynamic_scan_passes<A>(items: Seq<RowItem<A>>, k: nat, m: nat)
    requires
        k <= m <= items.len(),
        forall|j: int|
            k <= j < m ==> #[trigger] dynamic_step(first_width(items), j as nat, items[j]) is None,
    ensures
        dynamic_scan(items, k) == dynamic_scan(items, m),
    decreases m - k,
{
    if k < m {
        let j = k as int;
        assert(dynamic_step(first_width(items), j as nat, items[j]) is None);
        lemma_dynamic_scan_passes(items, k + 1, m);
    }
}

/// Rows of one width, flattened, fill the shape, and each row comes back
/// out of its place.
pub proof fn lemma_flatten_rect<A>(rows: Seq<Seq<A>>, cols: nat)
    requires
        forall|r: int| 0 <= r < rows.len() ==> #[trigger] rows[r].len() == cols,
    ensures
        rows.flatten().len() == rows.len() * cols,
        forall|r: int|
            0 <= r < rows.len() ==> #[trigger] rows.flatten().subrange(r * cols, r * cols + cols)
                == rows[r],
    decreases rows.len(),
{
    if rows.len() > 0 {
        let init = rows.drop_last();
        let n = rows.len() - 1;
        lemma_flatten_rect(init, cols);
        assert(rows == init.push(rows.last()));
        init.lemma_flatten_push(rows.last());
        let flat = rows.flatten();
        assert(flat =~= init.flatten() + rows.last());
        assert(init.flatten().len() == n * cols);
        assert(flat.len() == rows.len() * cols) by (nonlinear_arith)
            requires
                flat.len() == n * cols + cols,
                n == rows.len() - 1,
        ;
        assert forall|r: int| 0 <= r < rows.len() implies #[trigger] flat.subrange(
            r * cols,
            r * cols + cols,
        ) == rows[r] by {
            if r < n {
                assert(r * cols + cols <= n * cols) by (nonlinear_arith)
                    requires
                        r < n,
                ;
                assert(flat.subrange(r * cols, r * cols + cols) =~= init.flatten().subrange(
                    r * cols,
                    r * cols + cols,
                ));
                assert(init[r] == rows[r]);
            } else {
                assert(flat.subrange(r * cols, r * cols + cols) =~= rows.last());
            }
        }
    }
}

} // verus!
