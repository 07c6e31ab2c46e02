//! How the rows of a wrapped text follow one another.

use vstd::prelude::*;
use crate::lines::{lemma_line_end, line_end};
use crate::wrap::{line_rows, row_text, view_rows, wrap_rows};

verus! {

/// The rows of a line show its characters in order, as many to a row as fit: behind the first row's
/// number, and behind four spaces in the others.
pub proof fn law_rows_show_the_line(line: Seq<char>, number: int, r: int, w: int)
    requires
        w >= 1,
        0 <= r,
        r * w <= line.len(),
    ensures
        ({
            let row = row_text(line, number, r, w);
            let shown = if line.len() - r * w < w { line.len() - r * w } else { w };
            &&& shown <= row.len()
            &&& row.skip(row.len() - shown) == line.subrange(r * w, r * w + shown)
            &&& r > 0 ==> row.len() == shown + 4 && forall|i: int|
                0 <= i < 4 ==> #[trigger] row[i] == ' '
            &&& r == 0 ==> row[row.len() - shown - 1] == ' '
        }),
{
    assert(r * w >= 0) by (nonlinear_arith)
        requires
            r >= 0,
            w >= 1,
    ;
    let row = row_text(line, number, r, w);
    let shown = if line.len() - r * w < w { line.len() - r * w } else { w };
    assert(row.skip(row.len() - shown) =~= line.subrange(r * w, r * w + shown));
}

/// Every line of a text is drawn below the one before, under the next number.
pub proof fn law_lines_are_drawn_in_order(t: Seq<char>, start: int, number: int, w: int)
    requires
        w >= 1,
        0 <= start <= t.len(),
    ensures
        ({
            let end = line_end(t, start);
            let first = line_rows(t.subrange(start, end), number, w);
            let rows = view_rows(t, start, number, w);
            &&& first.len() == wrap_rows(end - start, w)
            &&& first.is_prefix_of(rows)
            &&& end < t.len() ==> rows.skip(first.len() as int) == view_rows(
                t,
                end + 1,
                number + 1,
                w,
            )
            &&& end >= t.len() ==> rows == first
        }),
{
    let end = line_end(t, start);
    lemma_line_end(t, start);
    let first = line_rows(t.subrange(start, end), number, w);
    let rows = view_rows(t, start, number, w);
    assert(wrap_rows(end - start, w) >= 0) by (nonlinear_arith)
        requires
            w >= 1,
            start <= end,
    ;
    if end < t.len() {
        assert(rows.skip(first.len() as int) =~= view_rows(t, end + 1, number + 1, w));
    } else {
        assert(rows =~= first);
    }
}

} // verus!
