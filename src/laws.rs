use vstd::prelude::*;

use crate::array::ArrayView;
use crate::error::ReadError;
use crate::rules::{
    dynamic_read,
    dynamic_step,
    first_width,
    fixed_read,
    fixed_scan,
    fixed_step,
    item_rows,
    lemma_dynamic_scan_passes,
    lemma_fixed_scan_passes,
    lemma_flatten_rect,
    RowItem,
};
use crate::sink::SinkEvent;
use crate::writer::{record_events, write_events};

verus! {

/// The items of a source that decodes every one of `rows` without error.
pub open spec fn ok_items<A>(rows: Seq<Seq<A>>) -> Seq<RowItem<A>> {
    rows.map_values(|row: Seq<A>| Ok(row))
}

/// Every row holds `cols` values.
pub open spec fn all_of_width<A>(rows: Seq<Seq<A>>, cols: nat) -> bool {
    forall|r: int| 0 <= r < rows.len() ==> #[trigger] rows[r].len() == cols
}

proof fn lemma_ok_items<A>(rows: Seq<Seq<A>>)
    ensures
        ok_items(rows).len() == rows.len(),
        item_rows(ok_items(rows)) == rows,
        forall|r: int| 0 <= r < rows.len() ==> #[trigger] ok_items(rows)[r] == Ok::<Seq<A>, csv::Error>(rows[r]),
{
    assert(item_rows(ok_items(rows)) =~= rows);
}

/// The rows of a rectangular array, flattened, are its cells.
proof fn lemma_records_flatten<A>(v: ArrayView<A>)
    requires
        v.is_rect(),
    ensures
        v.records().flatten() == v.cells,
        all_of_width(v.records(), v.cols),
    decreases v.rows,
{
    let recs = v.records();
    assert forall|r: int| 0 <= r < recs.len() implies #[trigger] recs[r].len() == v.cols by {
        assert(r * v.cols + v.cols <= v.rows * v.cols) by (nonlinear_arith)
            requires
                r < v.rows,
        ;
    }
    if v.rows > 0 {
        let n = (v.rows - 1) as nat;
        assert(n * v.cols + v.cols == v.rows * v.cols) by (nonlinear_arith)
            requires
                n == v.rows - 1,
        ;
        let init = ArrayView { rows: n, cols: v.cols, cells: v.cells.take((n * v.cols) as int) };
        lemma_records_flatten(init);
        assert forall|r: int| 0 <= r < n implies #[trigger] init.records()[r] == recs[r] by {
            assert(r * v.cols + v.cols <= n * v.cols) by (nonlinear_arith)
                requires
                    r < n,
            ;
            assert(init.row(r) =~= v.row(r));
        }
        assert(recs =~= init.records().push(v.row(n as int)));
        init.records().lemma_flatten_push(v.row(n as int));
        assert(v.cells =~= init.cells + v.row(n as int));
    } else {
        assert(recs =~= Seq::<Seq<A>>::empty());
        assert(v.cells =~= Seq::<A>::empty());
    }
}

/// Reading `rows` x `cols` from a source of exactly that many rows of that
/// width gives the array whose records are those rows; writing it back
/// hands the sink the same rows, in order, and a flush.
pub proof fn law_read_then_write<A>(rows: usize, cols: usize, data: Seq<Seq<A>>)
    requires
        data.len() == rows,
        all_of_width(data, cols as nat),
    ensures
        fixed_read(rows, cols, ok_items(data)) matches Ok(v) && v.records() == data
            && write_events(v) == record_events(data).push(SinkEvent::Flush),
{
    let items = ok_items(data);
    lemma_ok_items(data);
    assert forall|j: int| 0 <= j < items.len() implies #[trigger] fixed_step(
        rows,
        cols,
        j as nat,
        items[j],
    ) is None by {
        assert(items[j] == Ok::<Seq<A>, csv::Error>(data[j]));
    }
    lemma_fixed_scan_passes(rows, cols, items, 0, items.len());
    lemma_flatten_rect(data, cols as nat);
    let v = ArrayView { rows: rows as nat, cols: cols as nat, cells: data.flatten() };
    assert(fixed_read(rows, cols, items) == Ok::<ArrayView<A>, ReadError>(v));
    assert forall|r: int| 0 <= r < data.len() implies #[trigger] v.records()[r] == data[r] by {
        assert(v.row(r) == data.flatten().subrange(r * cols, r * cols + cols));
    }
    assert(v.records() =~= data);
}

/// Writing a rectangular array and reading the records back with its own
/// shape gives the array again.
pub proof fn law_write_then_read<A>(v: ArrayView<A>)
    requires
        v.is_rect(),
        v.rows <= usize::MAX,
        v.cols <= usize::MAX,
    ensures
        fixed_read(v.rows as usize, v.cols as usize, ok_items(v.records())) == Ok::<
            ArrayView<A>,
            ReadError,
        >(v),
{
    lemma_records_flatten(v);
    lemma_ok_items(v.records());
    law_read_then_write(v.rows as usize, v.cols as usize, v.records());
}

/// A source that ends after `data.len()` < `rows` good rows leaves the read
/// short by the missing rows.
pub proof fn law_too_few_rows<A>(rows: usize, cols: usize, data: Seq<Seq<A>>)
    requires
        data.len() < rows,
        all_of_width(data, cols as nat),
    ensures
        fixed_read(rows, cols, ok_items(data)) == Err::<ArrayView<A>, ReadError>(
            ReadError::TooFewRows { expected: rows, actual: data.len() as usize },
        ),
{
    let items = ok_items(data);
    lemma_ok_items(data);
    assert forall|j: int| 0 <= j < items.len() implies #[trigger] fixed_step(
        rows,
        cols,
        j as nat,
        items[j],
    ) is None by {
        assert(items[j] == Ok::<Seq<A>, csv::Error>(data[j]));
    }
    lemma_fixed_scan_passes(rows, cols, items, 0, items.len());
}

/// A source with more than `rows` rows, the first `rows` of them good,
/// overruns the read, whatever follows them.
pub proof fn law_too_many_rows<A>(rows: usize, cols: usize, items: Seq<RowItem<A>>)
    requires
        items.len() > rows,
        forall|j: int| 0 <= j < rows ==> (#[trigger] items[j] matches Ok(row) && row.len() == cols),
    ensures
        fixed_read(rows, cols, items) == Err::<ArrayView<A>, ReadError>(
            ReadError::TooManyRows { expected: rows },
        ),
{
    assert forall|j: int| 0 <= j < rows implies #[trigger] fixed_step(
        rows,
        cols,
        j as nat,
        items[j],
    ) is None by {
        assert(items[j] matches Ok(row) && row.len() == cols);
    }
    lemma_fixed_scan_passes(rows, cols, items, 0, rows as nat);
}

/// A first row with fewer than `cols` values ends the read there, when the
/// shape asks for at least one row.
pub proof fn law_too_few_columns<A>(rows: usize, cols: usize, items: Seq<RowItem<A>>)
    requires
        rows > 0,
        items.len() > 0,
        items[0] matches Ok(row) && row.len() < cols,
    ensures
        fixed_read(rows, cols, items) == Err::<ArrayView<A>, ReadError>(
            ReadError::TooFewColumns {
                at_row_index: 0,
                expected: cols,
                actual: items[0]->Ok_0.len() as usize,
            },
        ),
{
    assert(fixed_scan(rows, cols, items, 0) == fixed_step(rows, cols, 0, items[0]));
}

/// A first row with more than `cols` values ends the read there, when the
/// shape asks for at least one row.
pub proof fn law_too_many_columns<A>(rows: usize, cols: usize, items: Seq<RowItem<A>>)
    requires
        rows > 0,
        items.len() > 0,
        items[0] matches Ok(row) && row.len() > cols,
    ensures
        fixed_read(rows, cols, items) == Err::<ArrayView<A>, ReadError>(
            ReadError::TooManyColumns { at_row_index: 0, expected: cols },
        ),
{
    assert(fixed_scan(rows, cols, items, 0) == fixed_step(rows, cols, 0, items[0]));
}

/// Rows of one width give an array with a row for each and that width; no
/// rows give the 0 x 0 array.
pub proof fn law_dynamic_shape<A>(data: Seq<Seq<A>>, cols: nat)
    requires
        data.len() <= usize::MAX,
        all_of_width(data, cols),
    ensures
        dynamic_read(ok_items(data)) matches Ok(v) && v.rows == data.len() && v.cols == (if data.len()
            == 0 {
            0
        } else {
            cols
        }) && v.records() == data && v.is_rect(),
{
    let items = ok_items(data);
    lemma_ok_items(data);
    let w = if data.len() == 0 {
        0
    } else {
        cols
    };
    assert(first_width(items) == w) by {
        if data.len() > 0 {
            assert(items[0] == Ok::<Seq<A>, csv::Error>(data[0]));
        }
    }
    assert forall|j: int| 0 <= j < items.len() implies #[trigger] dynamic_step(
        first_width(items),
        j as nat,
        items[j],
    ) is None by {
        assert(items[j] == Ok::<Seq<A>, csv::Error>(data[j]));
    }
    lemma_dynamic_scan_passes(items, 0, items.len());
    lemma_flatten_rect(data, w);
    let v = ArrayView { rows: data.len(), cols: w, cells: data.flatten() };
    assert(dynamic_read(items) == Ok::<ArrayView<A>, ReadError>(v));
    assert forall|r: int| 0 <= r < data.len() implies #[trigger] v.records()[r] == data[r] by {
        assert(v.row(r) == data.flatten().subrange(r * w, r * w + w));
    }
    assert(v.records() =~= data);
}

/// The first row, at index `i` > 0, whose width `k` differs from the width
/// `cols` of row 0 ends the dynamic read with both widths.
pub proof fn law_dynamic_width_mismatch<A>(items: Seq<RowItem<A>>, cols: nat, i: int)
    requires
        0 < i < items.len(),
        i < usize::MAX,
        forall|j: int| 0 <= j < i ==> (#[trigger] items[j] matches Ok(row) && row.len() == cols),
        items[i] matches Ok(row) && row.len() != cols,
    ensures
        dynamic_read(items) == Err::<ArrayView<A>, ReadError>(
            ReadError::NColumns {
                at_row_index: i as usize,
                expected: cols as usize,
                actual: items[i]->Ok_0.len() as usize,
            },
        ),
{
    assert(items[0] matches Ok(row) && row.len() == cols);
    assert(first_width(items) == cols);
    assert forall|j: int| 0 <= j < i implies #[trigger] dynamic_step(
        first_width(items),
        j as nat,
        items[j],
    ) is None by {
        assert(items[j] matches Ok(row) && row.len() == cols);
    }
    lemma_dynamic_scan_passes(items, 0, i as nat);
}

} // verus!
