//! Rows of equal length, laid end to end: where an entry of a row lands.

use vstd::prelude::*;

verus! {

/// Whether every row of `rows` has `width` entries.
pub open spec fn all_of_width<A>(rows: Seq<Seq<A>>, width: nat) -> bool {
    forall|k: int| 0 <= k < rows.len() ==> (#[trigger] rows[k]).len() == width
}

/// Rows of one width, laid end to end, fill `rows.len() * width` places.
pub proof fn lemma_flatten_len<A>(rows: Seq<Seq<A>>, width: nat)
    requires
        all_of_width(rows, width),
    ensures
        rows.flatten().len() == rows.len() * width,
    decreases rows.len(),
{
    if rows.len() > 0 {
        let rest = rows.drop_first();
        lemma_flatten_len(rest, width);
        assert(rows.len() * width == rest.len() * width + width) by (nonlinear_arith)
            requires
                rows.len() == rest.len() + 1,
        ;
    }
}

/// Entry `x` of row `y` lands at place `y * width + x`.
pub proof fn lemma_flatten_index<A>(rows: Seq<Seq<A>>, width: nat, y: int, x: int)
    requires
        all_of_width(rows, width),
        0 <= y < rows.len(),
        0 <= x < width,
    ensures
        0 <= y * width + x < rows.flatten().len(),
        rows.flatten()[y * width + x] == rows[y][x],
    decreases rows.len(),
{
    let rest = rows.drop_first();
    lemma_flatten_len(rest, width);
    if y > 0 {
        lemma_flatten_index(rest, width, y - 1, x);
        assert(y * width + x == width + ((y - 1) * width + x)) by (nonlinear_arith);
    }
}

} // verus!
