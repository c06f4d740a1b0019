//! Specifications and proofs about nested row data: a grid built from rows
//! flattens them in order, and every cell of the flat buffer comes from the
//! row and column that address it.

use vstd::prelude::*;

verus! {

/// The mathematical value of nested row data: each row as a sequence.
pub open spec fn rows_seq<T>(rows: Seq<Vec<T>>) -> Seq<Seq<T>> {
    rows.map_values(|r: Vec<T>| r@)
}

/// Every row has length `w`.
pub open spec fn uniform_width<T>(rs: Seq<Seq<T>>, w: int) -> bool {
    forall|k: int| 0 <= k < rs.len() ==> (#[trigger] rs[k]).len() == w
}

/// The length of the first row, or zero when there are no rows.
pub open spec fn first_width<T>(rs: Seq<Seq<T>>) -> int {
    if rs.len() == 0 {
        0
    } else {
        rs[0].len() as int
    }
}

/// Checks that every row has the same length as the first row; trivially
/// true of an empty row set.  Construction from rows demands this: rows of
/// unequal length never form a grid.
pub fn rows_uniform<T>(rows: &Vec<Vec<T>>) -> (r: bool)
    ensures
        r <==> uniform_width(rows_seq(rows@), first_width(rows_seq(rows@))),
{
    if rows.len() == 0 {
        return true;
    }
    let w = rows[0].len();
    let mut k: usize = 1;
    while k < rows.len()
        invariant
            rows@.len() > 0,
            w == rows@[0]@.len(),
            1 <= k <= rows@.len(),
            forall|j: int| 0 <= j < k ==> (#[trigger] rows@[j])@.len() == w,
        decreases rows@.len() - k,
    {
        if rows[k].len() != w {
            assert(rows_seq(rows@)[k as int].len() != w);
            return false;
        }
        k = k + 1;
    }
    true
}

/// Flattening rows of uniform width `w` yields `rs.len() * w` elements.
pub proof fn lemma_flatten_len<T>(rs: Seq<Seq<T>>, w: int)
    requires
        w >= 0,
        uniform_width(rs, w),
    ensures
        rs.flatten().len() == rs.len() * w,
    decreases rs.len(),
{
    if rs.len() == 0 {
    } else {
        assert(uniform_width(rs.drop_first(), w));
        lemma_flatten_len(rs.drop_first(), w);
        assert(rs.flatten() == rs.first() + rs.drop_first().flatten());
        assert(rs.len() * w == w + (rs.len() - 1) * w) by (nonlinear_arith);
    }
}

/// Reading the flattened buffer at linear index `row * w + col` gives back
/// row `row`, column `col` of the nested rows: flattening in order keeps
/// every cell at the position that addresses it.
pub proof fn lemma_flatten_index<T>(rs: Seq<Seq<T>>, w: int, row: int, col: int)
    requires
        uniform_width(rs, w),
        0 <= row < rs.len(),
        0 <= col < w,
    ensures
        rs.flatten().len() == rs.len() * w,
        rs.flatten()[row * w + col] == rs[row][col],
    decreases row,
{
    lemma_flatten_len(rs, w);
    assert(rs.flatten() == rs.first() + rs.drop_first().flatten());
    assert(rs.first().len() == w);
    if row == 0 {
        assert(row * w + col == col) by (nonlinear_arith)
            requires
                row == 0,
        ;
        assert(rs.flatten()[col] == rs.first()[col]);
        assert(rs.first() == rs[0]);
    } else {
        let rest = rs.drop_first();
        assert(uniform_width(rest, w));
        lemma_flatten_index(rest, w, row - 1, col);
        assert(row * w + col - w == (row - 1) * w + col) by (nonlinear_arith);
        assert(w <= row * w + col && row * w + col < rs.len() * w) by (nonlinear_arith)
            requires
                1 <= row < rs.len(),
                0 <= col < w,
        ;
        assert((rs.first() + rest.flatten())[row * w + col] == rest.flatten()[
            row * w + col - w
        ]);
        assert(rest[row - 1] == rs[row]);
    }
    assert(rs.flatten()[row * w + col] == rs[row][col]);
}

} // verus!
