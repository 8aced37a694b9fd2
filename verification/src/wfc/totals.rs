//! Sums over the cells of a grid, and how they move when cells change.
use vstd::prelude::*;

verus! {

/// The sum of `weight` over the entries of one row.
pub open spec fn row_total<A>(row: Seq<A>, weight: spec_fn(A) -> nat) -> nat
    decreases row.len(),
{
    if row.len() == 0 {
        0
    } else {
        row_total(row.drop_last(), weight) + weight(row.last())
    }
}

/// The sum of `weight` over every entry of every row.
pub open spec fn grid_total<A>(rows: Seq<Seq<A>>, weight: spec_fn(A) -> nat) -> nat
    decreases rows.len(),
{
    if rows.len() == 0 {
        0
    } else {
        grid_total(rows.drop_last(), weight) + row_total(rows.last(), weight)
    }
}

/// Replacing one entry of a row moves the row's total by the difference of
/// the two weights.
pub proof fn lemma_row_total_update<A>(
    row: Seq<A>,
    weight: spec_fn(A) -> nat,
    index: int,
    entry: A,
)
    requires
        0 <= index < row.len(),
    ensures
        row_total(row.update(index, entry), weight) + weight(row[index]) == row_total(
            row,
            weight,
        ) + weight(entry),
    decreases row.len(),
{
    let updated = row.update(index, entry);
    if index == row.len() - 1 {
        assert(updated.drop_last() =~= row.drop_last());
    } else {
        lemma_row_total_update(row.drop_last(), weight, index, entry);
        assert(updated.drop_last() =~= row.drop_last().update(index, entry));
    }
}

/// Replacing one entry of a grid moves the grid's total by the difference of
/// the two weights.
pub proof fn lemma_grid_total_update<A>(
    rows: Seq<Seq<A>>,
    weight: spec_fn(A) -> nat,
    row: int,
    col: int,
    entry: A,
)
    requires
        0 <= row < rows.len(),
        0 <= col < rows[row].len(),
    ensures
        grid_total(rows.update(row, rows[row].update(col, entry)), weight) + weight(
            rows[row][col],
        ) == grid_total(rows, weight) + weight(entry),
    decreases rows.len(),
{
    let updated = rows.update(row, rows[row].update(col, entry));
    if row == rows.len() - 1 {
        assert(updated.drop_last() =~= rows.drop_last());
        lemma_row_total_update(rows[row], weight, col, entry);
    } else {
        lemma_grid_total_update(rows.drop_last(), weight, row, col, entry);
        assert(updated.drop_last() =~= rows.drop_last().update(
            row,
            rows[row].update(col, entry),
        ));
    }
}

/// A row whose entries all weigh no more than the matching entries of
/// another row has no greater total.
pub proof fn lemma_row_total_pointwise<A>(
    lighter: Seq<A>,
    heavier: Seq<A>,
    weight: spec_fn(A) -> nat,
)
    requires
        lighter.len() == heavier.len(),
        forall|index: int|
            0 <= index < lighter.len() ==> weight(#[trigger] lighter[index]) <= weight(
                heavier[index],
            ),
    ensures
        row_total(lighter, weight) <= row_total(heavier, weight),
    decreases lighter.len(),
{
    if lighter.len() > 0 {
        assert(weight(lighter[lighter.len() - 1]) <= weight(heavier[lighter.len() - 1]));
        assert forall|index: int| 0 <= index < lighter.drop_last().len() implies weight(
            #[trigger] lighter.drop_last()[index],
        ) <= weight(heavier.drop_last()[index]) by {
            assert(weight(lighter[index]) <= weight(heavier[index]));
        }
        lemma_row_total_pointwise(lighter.drop_last(), heavier.drop_last(), weight);
    }
}

/// A grid whose entries all weigh no more than the matching entries of
/// another grid of the same shape has no greater total.
pub proof fn lemma_grid_total_pointwise<A>(
    lighter: Seq<Seq<A>>,
    heavier: Seq<Seq<A>>,
    weight: spec_fn(A) -> nat,
)
    requires
        lighter.len() == heavier.len(),
        forall|row: int|
            0 <= row < lighter.len() ==> (#[trigger] lighter[row]).len() == heavier[row].len(),
        forall|row: int, col: int|
            0 <= row < lighter.len() && 0 <= col < lighter[row].len() ==> weight(
                #[trigger] lighter[row][col],
            ) <= weight(heavier[row][col]),
    ensures
        grid_total(lighter, weight) <= grid_total(heavier, weight),
    decreases lighter.len(),
{
    if lighter.len() > 0 {
        let last = lighter.len() - 1;
        assert(lighter[last].len() == heavier[last].len());
        assert forall|col: int| 0 <= col < lighter[last].len() implies weight(
            #[trigger] lighter[last][col],
        ) <= weight(heavier[last][col]) by {}
        lemma_row_total_pointwise(lighter[last], heavier[last], weight);
        assert forall|row: int| 0 <= row < lighter.drop_last().len() implies (
        #[trigger] lighter.drop_last()[row]).len() == heavier.drop_last()[row].len() by {
            assert(lighter[row].len() == heavier[row].len());
        }
        assert forall|row: int, col: int|
            0 <= row < lighter.drop_last().len() && 0 <= col
                < lighter.drop_last()[row].len() implies weight(
            #[trigger] lighter.drop_last()[row][col],
        ) <= weight(heavier.drop_last()[row][col]) by {
            assert(weight(lighter[row][col]) <= weight(heavier[row][col]));
        }
        lemma_grid_total_pointwise(lighter.drop_last(), heavier.drop_last(), weight);
    }
}

} // verus!
