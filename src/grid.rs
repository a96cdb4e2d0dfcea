use vstd::prelude::*;
use vstd::arithmetic::div_mod::lemma_fundamental_div_mod_converse;

verus! {

/// The cell that the `k`-th sample of a row-major grid with `n_cols` columns
/// falls on, as (column, row).
pub open spec fn grid_cell(n_cols: nat, k: nat) -> (nat, nat) {
    ((k % n_cols) as nat, (k / n_cols) as nat)
}

/// Whether `cells` lists the cells of an `n_cols` by `n_rows` grid, row by
/// row, each row from column 0 up.
pub open spec fn is_row_major_grid(cells: Seq<(usize, usize)>, n_cols: nat, n_rows: nat) -> bool {
    &&& cells.len() == n_cols * n_rows
    &&& forall|k: int|
        0 <= k < cells.len() ==> (#[trigger] cells[k]).0 as nat == grid_cell(n_cols, k as nat).0
            && cells[k].1 as nat == grid_cell(n_cols, k as nat).1
}

/// Lists the cells of an `n_cols` by `n_rows` grid in row-major order: the
/// `k`-th entry is (`k % n_cols`, `k / n_cols`). Rendering asks the camera
/// for one ray per entry; slice sampling evaluates the field once per entry.
pub fn grid_cells(n_cols: usize, n_rows: usize) -> (cells: Vec<(usize, usize)>)
    requires
        n_cols * n_rows <= usize::MAX,
    ensures
        is_row_major_grid(cells@, n_cols as nat, n_rows as nat),
{
    let total: usize = n_cols * n_rows;
    let mut cells: Vec<(usize, usize)> = Vec::new();
    let mut k: usize = 0;
    while k < total
        invariant
            total == n_cols * n_rows,
            k <= total,
            cells.len() == k,
            forall|j: int|
                0 <= j < k ==> (#[trigger] cells@[j]).0 as nat == grid_cell(n_cols as nat, j as nat).0
                    && cells@[j].1 as nat == grid_cell(n_cols as nat, j as nat).1,
        decreases total - k,
    {
        assert(n_cols > 0) by (nonlinear_arith)
            requires
                k < total,
                total == n_cols * n_rows,
        ;
        cells.push((k % n_cols, k / n_cols));
        k = k + 1;
    }
    cells
}

/// Every cell of the grid is listed exactly where row-major order puts it,
/// and every listed cell lies inside the grid.
pub proof fn lemma_grid_covers(cells: Seq<(usize, usize)>, n_cols: nat, n_rows: nat)
    requires
        is_row_major_grid(cells, n_cols, n_rows),
    ensures
        forall|col: int, row: int|
            0 <= col < n_cols && 0 <= row < n_rows ==> #[trigger] cells[row * n_cols + col] == (
            col as usize,
            row as usize,
        ),
        forall|k: int|
            0 <= k < cells.len() ==> (#[trigger] cells[k]).0 < n_cols && cells[k].1 < n_rows,
{
    assert forall|col: int, row: int|
        0 <= col < n_cols && 0 <= row < n_rows implies #[trigger] cells[row * n_cols + col] == (
        col as usize,
        row as usize,
    ) by {
        let k = row * n_cols + col;
        assert(k < n_cols * n_rows) by (nonlinear_arith)
            requires
                k == row * n_cols + col,
                0 <= col < n_cols,
                0 <= row < n_rows,
        ;
        assert(k >= 0) by (nonlinear_arith)
            requires
                k == row * n_cols + col,
                0 <= col,
                0 <= row,
        ;
        lemma_fundamental_div_mod_converse(k, n_cols as int, row, col);
        assert(cells[k].0 as int == col);
        assert(cells[k].1 as int == row);
    }
    assert forall|k: int| 0 <= k < cells.len() implies (#[trigger] cells[k]).0 < n_cols
        && cells[k].1 < n_rows by {
        assert(n_cols > 0) by (nonlinear_arith)
            requires
                0 <= k < n_cols * n_rows,
        ;
        assert((k / n_cols as int) < n_rows) by (nonlinear_arith)
            requires
                0 <= k < n_cols * n_rows,
                n_cols > 0,
        ;
        assert(cells[k].0 as nat == k % (n_cols as int));
    }
}

} // verus!
