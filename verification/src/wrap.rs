//! Wrapped rows: where characters stand in a viewport of a given width.

use vstd::arithmetic::div_mod::{lemma_fundamental_div_mod, lemma_fundamental_div_mod_converse};
use vstd::prelude::*;
use crate::chars::{decimal, decimal_text, pad_left, push_spaces, spaces};
use crate::lines::{
    lemma_line_end, lemma_line_start, line_end, line_end_index, line_start,
};
use crate::text::{boundary, byte_offset, char_index, from_chars, group_points, index, to_chars};

verus! {

broadcast use group_points;

/// How many rows of width `w` a line of `len` characters takes; at least one.
pub open spec fn wrap_rows(len: int, w: int) -> int {
    if len <= 0 {
        1
    } else {
        (len - 1) / w + 1
    }
}

proof fn lemma_wrap_rows(len: int, w: int)
    by (nonlinear_arith)
    requires
        0 <= len,
        1 <= w,
    ensures
        1 <= wrap_rows(len, w),
        wrap_rows(len, w) <= len || len == 0 && wrap_rows(len, w) == 1,
        forall|r: int| 0 <= r < wrap_rows(len, w) ==> 0 <= #[trigger] (r * w) <= len,
{
}

/// Rows of a wrapped line.
pub fn config_editor_wrap_rows(len: usize, w: usize) -> (r: usize)
    requires
        w >= 1,
    ensures
        r == wrap_rows(len as int, w as int),
{
    proof {
        lemma_wrap_rows(len as int, w as int);
    }
    if len == 0 {
        1
    } else {
        (len - 1) / w + 1
    }
}

/// Rows of the lines that start before the line start `start`.
pub open spec fn rows_above(t: Seq<char>, start: int, w: int) -> int
    decreases start,
    when start <= t.len()
    via rows_above_decreases
{
    if start <= 0 {
        0
    } else {
        rows_above(t, line_start(t, start - 1), w) + wrap_rows(
            start - 1 - line_start(t, start - 1),
            w,
        )
    }
}

#[via_fn]
proof fn rows_above_decreases(t: Seq<char>, start: int, w: int) {
    if start > 0 {
        lemma_line_start(t, start - 1);
    }
}

/// Rows of the lines from the line start `start` on.
pub open spec fn rows_from(t: Seq<char>, start: int, w: int) -> int
    decreases t.len() - start,
    when 0 <= start <= t.len()
    via rows_from_decreases
{
    wrap_rows(line_end(t, start) - start, w) + if line_end(t, start) < t.len() {
        rows_from(t, line_end(t, start) + 1, w)
    } else {
        0
    }
}

#[via_fn]
proof fn rows_from_decreases(t: Seq<char>, start: int, w: int) {
    lemma_line_end(t, start);
}

/// Rows of the whole text.
pub open spec fn total_rows(t: Seq<char>, w: int) -> int {
    rows_from(t, 0, w)
}

/// The column at which a cursor stands past the end of a full last row: it is
/// shown on the last character of that row.
pub open spec fn at_wrapped_end(t: Seq<char>, i: int, w: int) -> bool {
    let column = i - line_start(t, i);
    column > 0 && i == line_end(t, i) && column % w == 0
}

/// The row at which character `i` is shown.
pub open spec fn visual_row(t: Seq<char>, i: int, w: int) -> int {
    let start = line_start(t, i);
    let row = rows_above(t, start, w) + (i - start) / w;
    if at_wrapped_end(t, i, w) {
        row - 1
    } else {
        row
    }
}

/// The column at which character `i` is shown.
pub open spec fn visual_column(t: Seq<char>, i: int, w: int) -> int {
    if at_wrapped_end(t, i, w) {
        w - 1
    } else {
        (i - line_start(t, i)) % w
    }
}

/// The index shown at `row` (counted from the line that starts at `start`) and
/// column `goal`, or the last one of that row where the row is shorter; past
/// the last row, the end of the text.
pub open spec fn visual_index(t: Seq<char>, start: int, row: int, goal: int, w: int) -> int
    decreases t.len() - start,
    when 0 <= start <= t.len()
    via visual_index_decreases
{
    let len = line_end(t, start) - start;
    if row < wrap_rows(len, w) {
        let column = if goal < w { goal } else { w - 1 };
        start + row * w + if column <= len - row * w { column } else { len - row * w }
    } else if line_end(t, start) < t.len() {
        visual_index(t, line_end(t, start) + 1, row - wrap_rows(len, w), goal, w)
    } else {
        t.len() as int
    }
}

#[via_fn]
proof fn visual_index_decreases(t: Seq<char>, start: int, row: int, goal: int, w: int) {
    lemma_line_end(t, start);
}

proof fn lemma_same_line(t: Seq<char>, start: int, i: int)
    requires
        0 <= start <= i <= t.len(),
        line_start(t, start) == start,
        i <= line_end(t, start),
    ensures
        line_start(t, i) == start,
        line_end(t, i) == line_end(t, start),
    decreases i - start,
{
    lemma_line_end(t, start);
    if start < i {
        lemma_same_line(t, start, i - 1);
        assert(t[i - 1] != '\n');
    }
}

proof fn lemma_row_in_line(column: int, len: int, w: int)
    by (nonlinear_arith)
    requires
        0 <= column <= len,
        1 <= w,
    ensures
        column > 0 && column == len && column % w == 0 ==> 0 <= column / w - 1 < wrap_rows(len, w)
            && (column / w - 1) * w + w == column,
        !(column > 0 && column == len && column % w == 0) ==> 0 <= column / w < wrap_rows(len, w),
        column / w * w + column % w == column,
        0 <= column % w < w,
{
}

proof fn lemma_rows_above_from(t: Seq<char>, start: int, w: int)
    requires
        0 <= start <= t.len(),
        line_start(t, start) == start,
        1 <= w,
    ensures
        rows_above(t, start, w) + rows_from(t, start, w) == total_rows(t, w),
        0 <= rows_above(t, start, w) <= start,
    decreases start,
{
    if start > 0 {
        let previous = line_start(t, start - 1);
        lemma_line_start(t, start - 1);
        assert(line_start(t, previous) == previous) by {
            if previous > 0 {
                assert(t[previous - 1] == '\n');
            }
        }
        crate::lines::lemma_line_end_from_start(t, start - 1);
        assert(t[start - 1] == '\n') by {
            lemma_line_start(t, start);
        }
        assert(line_end(t, previous) == start - 1);
        lemma_rows_above_from(t, previous, w);
        lemma_wrap_rows(start - 1 - previous, w);
    }
}

/// Every position is shown in one of the rows, inside the width.
pub proof fn law_visual_position_in_range(t: Seq<char>, i: int, w: int)
    requires
        0 <= i <= t.len(),
        1 <= w,
    ensures
        0 <= visual_row(t, i, w) < total_rows(t, w),
        0 <= visual_column(t, i, w) < w,
{
    let start = line_start(t, i);
    lemma_line_start(t, i);
    lemma_line_end(t, i);
    assert(line_start(t, start) == start);
    lemma_rows_above_from(t, start, w);
    crate::lines::lemma_line_end_from_start(t, i);
    lemma_row_in_line(i - start, line_end(t, i) - start, w);
    lemma_rows_from_positive(t, start, w);
}

proof fn lemma_rows_from_positive(t: Seq<char>, start: int, w: int)
    requires
        0 <= start <= t.len(),
        1 <= w,
    ensures
        rows_from(t, start, w) >= wrap_rows(line_end(t, start) - start, w) >= 1,
        rows_from(t, start, w) <= t.len() - start + 1,
    decreases t.len() - start,
{
    lemma_line_end(t, start);
    lemma_wrap_rows(line_end(t, start) - start, w);
    if line_end(t, start) < t.len() {
        lemma_rows_from_positive(t, line_end(t, start) + 1, w);
    }
}

proof fn lemma_visual_index_skips(t: Seq<char>, from: int, start: int, row: int, goal: int, w: int)
    requires
        0 <= from <= start <= t.len(),
        line_start(t, from) == from,
        line_start(t, start) == start,
        1 <= w,
        row >= 0,
    ensures
        rows_above(t, from, w) <= rows_above(t, start, w),
        visual_index(t, from, row + rows_above(t, start, w) - rows_above(t, from, w), goal, w)
            == visual_index(t, start, row, goal, w),
    decreases start - from,
{
    if from < start {
        lemma_line_end(t, from);
        let next = line_end(t, from) + 1;
        if next > start {
            lemma_same_line(t, from, start);
            assert(false);
        }
        assert(t[next - 1] == '\n');
        lemma_same_line(t, from, next - 1);
        lemma_visual_index_skips(t, next, start, row, goal, w);
        lemma_wrap_rows(next - 1 - from, w);
        assert(rows_above(t, next, w) == rows_above(t, from, w) + wrap_rows(next - 1 - from, w));
    }
}

/// The position that a row and column name is shown at that row and column:
/// going to where the cursor is shown does not move it, unless it stands past
/// the end of a full row.
pub proof fn law_visual_round_trip(t: Seq<char>, i: int, w: int)
    requires
        0 <= i <= t.len(),
        1 <= w,
        !at_wrapped_end(t, i, w),
    ensures
        visual_index(t, 0, visual_row(t, i, w), visual_column(t, i, w), w) == i,
{
    let start = line_start(t, i);
    lemma_line_start(t, i);
    lemma_line_end(t, i);
    crate::lines::lemma_line_end_from_start(t, i);
    lemma_row_in_line(i - start, line_end(t, i) - start, w);
    lemma_visual_index_skips(t, 0, start, (i - start) / w, (i - start) % w, w);
}

/// A row and column name a position of the text.
pub proof fn lemma_visual_index_range(t: Seq<char>, start: int, row: int, goal: int, w: int)
    requires
        0 <= start <= t.len(),
        1 <= w,
        0 <= row,
        0 <= goal,
    ensures
        start <= visual_index(t, start, row, goal, w) <= t.len(),
    decreases t.len() - start,
{
    lemma_line_end(t, start);
    let len = line_end(t, start) - start;
    lemma_wrap_rows(len, w);
    if row < wrap_rows(len, w) {
        assert(0 <= row * w <= len);
    } else if line_end(t, start) < t.len() {
        lemma_visual_index_range(t, line_end(t, start) + 1, row - wrap_rows(len, w), goal, w);
    }
}

/// Where the cursor is shown: its row and column.
pub fn cursor_visual_position(text: &str, cursor: usize, w: usize) -> (r: (usize, usize))
    requires
        boundary(text@, cursor as int),
        w >= 1,
    ensures
        r.0 == visual_row(text@, index(text@, cursor as int), w as int),
        r.1 == visual_column(text@, index(text@, cursor as int), w as int),
{
    let t = to_chars(text);
    let i: usize = char_index(text, cursor);
    let mut row: usize = 0;
    let mut start: usize = 0;
    loop
        invariant
            start <= i <= t@.len(),
            w >= 1,
            line_start(t@, start as int) == start,
            row == rows_above(t@, start as int, w as int),
            row <= start,
            t@ == text@,
            i == index(text@, cursor as int),
        decreases t@.len() - start,
    {
        let end: usize = line_end_index(&t, start);
        proof {
            lemma_line_end(t@, start as int);
            lemma_wrap_rows(end - start, w as int);
        }
        if i <= end {
            proof {
                lemma_same_line(t@, start as int, i as int);
                lemma_row_in_line(i - start, end - start, w as int);
                assert((i - start) / (w as int) <= i - start) by (nonlinear_arith)
                    requires
                        w >= 1,
                        i >= start,
                ;
            }
            let column: usize = i - start;
            if column > 0 && i == end && column % w == 0 {
                return (row + column / w - 1, w - 1);
            }
            return (row + column / w, column % w);
        }
        proof {
            lemma_same_line(t@, start as int, end as int);
        }
        row = row + config_editor_wrap_rows(end - start, w);
        start = end + 1;
    }
}

/// How many rows the text takes.
pub fn count_rows(text: &str, w: usize) -> (r: u128)
    requires
        w >= 1,
    ensures
        r == total_rows(text@, w as int),
        r >= 1,
{
    let t = to_chars(text);
    let mut rows: u128 = 0;
    let mut start: usize = 0;
    proof {
        lemma_rows_from_positive(t@, 0, w as int);
    }
    loop
        invariant
            start <= t@.len(),
            w >= 1,
            t@ == text@,
            rows + rows_from(t@, start as int, w as int) == total_rows(t@, w as int),
            total_rows(t@, w as int) >= 1,
            rows <= start,
        decreases t@.len() - start,
    {
        let end: usize = line_end_index(&t, start);
        proof {
            lemma_line_end(t@, start as int);
            lemma_wrap_rows(end - start, w as int);
        }
        rows = rows + config_editor_wrap_rows(end - start, w) as u128;
        if end >= t.len() {
            return rows;
        }
        start = end + 1;
    }
}

/// The offset shown at a row and column.
pub fn cursor_from_visual_position(text: &str, row: usize, column: usize, w: usize) -> (r: usize)
    requires
        w >= 1,
    ensures
        boundary(text@, r as int),
        index(text@, r as int) == visual_index(text@, 0, row as int, column as int, w as int),
{
    let t = to_chars(text);
    let goal: usize = if column < w { column } else { w - 1 };
    let mut left: usize = row;
    let mut start: usize = 0;
    loop
        invariant
            start <= t@.len(),
            w >= 1,
            t@ == text@,
            goal == if column < w { column as int } else { w - 1 },
            visual_index(t@, 0, row as int, column as int, w as int) == visual_index(
                t@,
                start as int,
                left as int,
                column as int,
                w as int,
            ),
        decreases t@.len() - start,
    {
        let end: usize = line_end_index(&t, start);
        let len: usize = end - start;
        proof {
            lemma_line_end(t@, start as int);
            lemma_wrap_rows(len as int, w as int);
        }
        let inside = if len == 0 {
            left == 0
        } else {
            left <= (len - 1) / w
        };
        if inside {
            assert(0 <= left * w <= len);
            let skipped: usize = left * w;
            let rest: usize = len - skipped;
            return byte_offset(
                text,
                start + skipped + if goal <= rest {
                    goal
                } else {
                    rest
                },
            );
        }
        if end >= t.len() {
            return byte_offset(text, t.len());
        }
        left = left - config_editor_wrap_rows(len, w);
        start = end + 1;
    }
}

/// The row `delta` rows from `row`, kept inside `total` rows.
pub open spec fn shifted_row(row: int, delta: int, total: int) -> int {
    if row + delta < 0 {
        0
    } else if row + delta < total {
        row + delta
    } else {
        total - 1
    }
}

/// `direction` pages of `height` rows (at least one), saturating.
pub open spec fn page_delta(direction: int, height: int) -> int {
    let rows = if height < 1 {
        1
    } else if height > isize::MAX {
        isize::MAX as int
    } else {
        height
    };
    if direction * rows > isize::MAX {
        isize::MAX as int
    } else if direction * rows < isize::MIN {
        isize::MIN as int
    } else {
        direction * rows
    }
}

/// Where the cursor comes when it moves by `delta` rows and keeps to the
/// column `goal`.
pub open spec fn moved_by_rows(t: Seq<char>, i: int, w: int, delta: int, goal: int) -> int {
    visual_index(t, 0, shifted_row(visual_row(t, i, w), delta, total_rows(t, w)), goal, w)
}

fn shift_row(row: usize, delta: isize, total: u128) -> (r: usize)
    requires
        1 <= total <= usize::MAX + 1,
        row < total,
    ensures
        r == shifted_row(row as int, delta as int, total as int),
{
    let target: i128 = row as i128 + delta as i128;
    if target < 0 {
        0
    } else {
        let target: u128 = target as u128;
        if target < total {
            target as usize
        } else {
            (total - 1) as usize
        }
    }
}

pub fn page_rows(direction: isize, height: usize) -> (r: isize)
    ensures
        r == page_delta(direction as int, height as int),
{
    let rows: i128 = if height < 1 {
        1
    } else if height as i128 > isize::MAX as i128 {
        isize::MAX as i128
    } else {
        height as i128
    };
    let step: i128 = direction as i128;
    assert(-0x4000_0000_0000_0000_0000_0000_0000_0000 <= step * rows
        <= 0x4000_0000_0000_0000_0000_0000_0000_0000) by (nonlinear_arith)
        requires
            -0x8000_0000_0000_0000 <= step <= 0x7fff_ffff_ffff_ffff,
            1 <= rows <= 0x7fff_ffff_ffff_ffff,
    ;
    let product: i128 = step * rows;
    if product > isize::MAX as i128 {
        isize::MAX
    } else if product < isize::MIN as i128 {
        isize::MIN
    } else {
        product as isize
    }
}

/// The offset of the cursor moved by `delta` rows, keeping to the column
/// `goal`.
pub fn move_by_rows(text: &str, cursor: usize, w: usize, delta: isize, goal: usize) -> (r: usize)
    requires
        boundary(text@, cursor as int),
        w >= 1,
    ensures
        boundary(text@, r as int),
        index(text@, r as int) == moved_by_rows(
            text@,
            index(text@, cursor as int),
            w as int,
            delta as int,
            goal as int,
        ),
{
    let (row, _column) = cursor_visual_position(text, cursor, w);
    let total: u128 = count_rows(text, w);
    let length: usize = to_chars(text).len();
    proof {
        lemma_rows_from_positive(text@, 0, w as int);
        law_visual_position_in_range(text@, index(text@, cursor as int), w as int);
    }
    cursor_from_visual_position(text, shift_row(row, delta, total), goal, w)
}

/// `s` with every tab replaced by spaces up to the next multiple of `tab`.
pub open spec fn expanded(s: Seq<char>, tab: int) -> Seq<char>
    decreases s.len(),
{
    if s.len() == 0 {
        s
    } else {
        let before = expanded(s.drop_last(), tab);
        if s.last() == '\t' {
            let column = before.len() - line_start(before, before.len() as int);
            before + spaces((tab - column % tab) as nat)
        } else {
            before.push(s.last())
        }
    }
}

proof fn lemma_line_start_extends(s: Seq<char>, t: Seq<char>, i: int)
    requires
        0 <= i <= s.len() <= t.len(),
        forall|k: int| 0 <= k < s.len() ==> s[k] == t[k],
    ensures
        line_start(t, i) == line_start(s, i),
    decreases i,
{
    if i > 0 && s[i - 1] != '\n' {
        lemma_line_start_extends(s, t, i - 1);
    }
}

/// Tabs written out as spaces, for display: the text, and the cursor in it.
pub fn expand_tabs_for_editor_view(text: &str, cursor: usize, tab: usize) -> (r: (String, usize))
    requires
        boundary(text@, cursor as int),
        tab >= 1,
    ensures
        r.0@ == expanded(text@, tab as int),
        boundary(r.0@, r.1 as int),
        index(r.0@, r.1 as int) == expanded(
            text@.take(index(text@, cursor as int)),
            tab as int,
        ).len(),
{
    let t = to_chars(text);
    let i: usize = char_index(text, cursor);
    let mut out: Vec<char> = Vec::new();
    let mut line: usize = 0;
    let mut shown: usize = 0;
    let mut k: usize = 0;
    assert(text@.take(0) =~= Seq::<char>::empty());
    while k < t.len()
        invariant
            k <= t@.len(),
            i <= t@.len(),
            tab >= 1,
            t@ == text@,
            out@ == expanded(text@.take(k as int), tab as int),
            line == line_start(out@, out@.len() as int),
            line <= out@.len(),
            k > i ==> shown == expanded(text@.take(i as int), tab as int).len(),
            k > i ==> shown <= out@.len(),
        decreases t.len() - k,
    {
        if k == i {
            shown = out.len();
        }
        let c = t[k];
        let ghost before = out@;
        proof {
            assert(text@.take(k + 1).drop_last() =~= text@.take(k as int));
            assert(text@.take(k + 1).last() == c);
        }
        if c == '\t' {
            let column: usize = out.len() - line;
            let fill: usize = tab - column % tab;
            let mut n: usize = 0;
            assert(out@ =~= before + spaces(0));
            while n < fill
                invariant
                    n <= fill,
                    out@ == before + spaces(n as nat),
                    line == line_start(before, before.len() as int),
                    line == line_start(out@, out@.len() as int),
                    line <= out@.len(),
                decreases fill - n,
            {
                let ghost previous = out@;
                out.push(' ');
                n = n + 1;
                assert(out@ =~= before + spaces(n as nat));
                proof {
                    lemma_line_start_extends(previous, out@, previous.len() as int);
                }
            }
        } else {
            out.push(c);
            if c == '\n' {
                line = out.len();
            }
            proof {
                lemma_line_start_extends(before, out@, before.len() as int);
            }
        }
        k = k + 1;
    }
    if i == t.len() {
        shown = out.len();
    }
    proof {
        assert(text@.take(t@.len() as int) =~= text@);
    }
    let display = from_chars(&out, 0, out.len());
    assert(display@ =~= out@);
    let at: usize = byte_offset(display.as_str(), shown);
    (display, at)
}

/// An editor as it is drawn: its numbered, wrapped rows and the cell of the
/// cursor.
#[derive(Debug)]
pub struct ConfigEditorView {
    pub lines: Vec<String>,
    pub cursor_row: usize,
    pub cursor_col: usize,
}

/// The characters of each of the strings.
pub open spec fn texts(v: Seq<String>) -> Seq<Seq<char>> {
    v.map_values(|s: String| s@)
}

/// Row `r` of line `number`: the line number in front of the first row, space
/// in front of the others.
pub open spec fn row_text(line: Seq<char>, number: int, r: int, w: int) -> Seq<char> {
    let head = if r == 0 {
        pad_left(decimal(number as nat), 3).push(' ')
    } else {
        spaces(4)
    };
    let end = if r * w + w <= line.len() {
        r * w + w
    } else {
        line.len() as int
    };
    head + line.subrange(r * w, end)
}

/// The rows of one line.
pub open spec fn line_rows(line: Seq<char>, number: int, w: int) -> Seq<Seq<char>> {
    Seq::new(wrap_rows(line.len() as int, w) as nat, |r: int| row_text(line, number, r, w))
}

/// The rows of the lines from the line start `start` on, the first of them
/// numbered `number`.
pub open spec fn view_rows(t: Seq<char>, start: int, number: int, w: int) -> Seq<Seq<char>>
    decreases t.len() - start,
    when 0 <= start <= t.len()
    via view_rows_decreases
{
    line_rows(t.subrange(start, line_end(t, start)), number, w) + if line_end(t, start) < t.len() {
        view_rows(t, line_end(t, start) + 1, number + 1, w)
    } else {
        Seq::empty()
    }
}

#[via_fn]
proof fn view_rows_decreases(t: Seq<char>, start: int, number: int, w: int) {
    lemma_line_end(t, start);
}

/// The view has one entry for each row.
pub proof fn lemma_view_rows_len(t: Seq<char>, start: int, number: int, w: int)
    requires
        0 <= start <= t.len(),
        1 <= w,
    ensures
        view_rows(t, start, number, w).len() == rows_from(t, start, w),
    decreases t.len() - start,
{
    lemma_line_end(t, start);
    lemma_wrap_rows(line_end(t, start) - start, w);
    if line_end(t, start) < t.len() {
        lemma_view_rows_len(t, line_end(t, start) + 1, number + 1, w);
    }
}

fn push_row(lines: &mut Vec<String>, t: &Vec<char>, start: usize, end: usize, number: u128, r: usize, w: usize)
    requires
        start <= end <= t@.len(),
        w >= 1,
        r < wrap_rows(end - start, w as int),
    ensures
        texts(final(lines)@) == texts(old(lines)@).push(
            row_text(t@.subrange(start as int, end as int), number as int, r as int, w as int),
        ),
{
    let ghost line = t@.subrange(start as int, end as int);
    proof {
        lemma_wrap_rows(end - start, w as int);
        assert(0 <= r * w <= end - start);
    }
    let mut s = String::new();
    if r == 0 {
        let label = decimal_text(number);
        let digits: usize = to_chars(label.as_str()).len();
        if digits < 3 {
            push_spaces(&mut s, 3 - digits);
        }
        s.append(label.as_str());
        s.push(' ');
        assert(s@ =~= pad_left(decimal(number as nat), 3).push(' '));
    } else {
        push_spaces(&mut s, 4);
        assert(s@ =~= spaces(4));
    }
    let skipped: usize = r * w;
    let from: usize = start + skipped;
    let to: usize = if end - from < w {
        end
    } else {
        from + w
    };
    let segment = from_chars(t, from, to);
    s.append(segment.as_str());
    assert(segment@ =~= line.subrange(from - start, to - start));
    lines.push(s);
    assert(texts(lines@) =~= texts(old(lines)@).push(
        row_text(line, number as int, r as int, w as int),
    ));
}

fn build_rows(text: &str, w: usize) -> (lines: Vec<String>)
    requires
        w >= 1,
    ensures
        texts(lines@) == view_rows(text@, 0, 1, w as int),
{
    let t = to_chars(text);
    let mut lines: Vec<String> = Vec::new();
    let mut start: usize = 0;
    let mut number: u128 = 1;
    assert(texts(lines@) + view_rows(t@, 0, 1, w as int) =~= view_rows(t@, 0, 1, w as int));
    loop
        invariant
            start <= t@.len(),
            number <= start + 1,
            w >= 1,
            t@ == text@,
            texts(lines@) + view_rows(t@, start as int, number as int, w as int) == view_rows(
                t@,
                0,
                1,
                w as int,
            ),
        decreases t@.len() - start,
    {
        let end: usize = line_end_index(&t, start);
        proof {
            lemma_line_end(t@, start as int);
            lemma_wrap_rows(end - start, w as int);
        }
        let ghost line = t@.subrange(start as int, end as int);
        let ghost above = texts(lines@);
        let len: usize = end - start;
        let mut r: usize = 0;
        assert(above + line_rows(line, number as int, w as int).take(0) =~= above);
        while (len == 0 && r == 0) || (len > 0 && r <= (len - 1) / w)
            invariant
                start <= end <= t@.len(),
                len == end - start,
                w >= 1,
                line == t@.subrange(start as int, end as int),
                r <= wrap_rows(len as int, w as int),
                wrap_rows(len as int, w as int) <= if len > 0 { len as int } else { 1 },
                texts(lines@) == above + line_rows(line, number as int, w as int).take(r as int),
            decreases wrap_rows(len as int, w as int) - r,
        {
            push_row(&mut lines, &t, start, end, number, r, w);
            proof {
                let all = line_rows(line, number as int, w as int);
                assert(all.take(r + 1) =~= all.take(r as int).push(all[r as int]));
            }
            r = r + 1;
            assert(texts(lines@) =~= above + line_rows(line, number as int, w as int).take(r as int));
        }
        proof {
            let all = line_rows(line, number as int, w as int);
            assert(r == wrap_rows(len as int, w as int));
            assert(all.take(r as int) =~= all);
        }
        if end >= t.len() {
            assert(texts(lines@) =~= view_rows(t@, 0, 1, w as int));
            return lines;
        }
        start = end + 1;
        number = number + 1;
        assert(texts(lines@) + view_rows(t@, start as int, number as int, w as int) =~= above
            + view_rows(t@, start - 1 - len, number - 1, w as int));
    }
}

/// The scroll position that shows row `row` in `height` rows, as near to
/// `scroll` as possible.
pub open spec fn followed_scroll(scroll: int, row: int, height: int) -> int {
    if row < scroll {
        row
    } else if height > 0 && row >= scroll + height {
        row - height + 1
    } else {
        scroll
    }
}

/// The scroll position that does not run past the last page of `rows` rows.
pub open spec fn bounded_scroll(scroll: int, rows: int, height: int) -> int {
    let page = if height > 1 { height } else { 1 };
    let last = if rows > page { rows - page } else { 0 };
    if scroll < last {
        scroll
    } else {
        last
    }
}

/// The scroll position of an editor view.
pub open spec fn view_scroll(
    scroll: int,
    row: int,
    rows: int,
    height: int,
    follow: bool,
) -> int {
    bounded_scroll(if follow { followed_scroll(scroll, row, height) } else { scroll }, rows, height)
}

/// A view that follows the cursor shows it.
pub proof fn law_followed_cursor_is_visible(scroll: int, row: int, rows: int, height: int)
    requires
        0 <= scroll,
        0 <= row < rows,
        1 <= height,
    ensures
        view_scroll(scroll, row, rows, height, true) <= row < view_scroll(
            scroll,
            row,
            rows,
            height,
            true,
        ) + height,
{
}

/// The rows, cursor cell and scroll position of an editor.
pub fn build_config_editor_view_with_scroll_mode(
    text: &str,
    cursor: usize,
    wrap_width: usize,
    viewport_height: usize,
    scroll: &mut usize,
    follow_cursor: bool,
) -> (view: ConfigEditorView)
    requires
        boundary(text@, cursor as int),
    ensures
        ({
            let w = if wrap_width > 1 { wrap_width as int } else { 1 };
            let shown = expanded(text@, 4);
            let at = expanded(text@.take(index(text@, cursor as int)), 4).len() as int;
            let rows = view_rows(shown, 0, 1, w);
            &&& texts(view.lines@) == rows
            &&& view.cursor_row == visual_row(shown, at, w)
            &&& view.cursor_col == visual_column(shown, at, w)
            &&& *final(scroll) == view_scroll(
                *old(scroll) as int,
                visual_row(shown, at, w),
                rows.len() as int,
                viewport_height as int,
                follow_cursor,
            )
        }),
        follow_cursor && viewport_height > 0 ==> *final(scroll) <= view.cursor_row < *final(scroll)
            + viewport_height,
{
    let w: usize = if wrap_width > 1 { wrap_width } else { 1 };
    let (display, at) = expand_tabs_for_editor_view(text, cursor, 4);
    let (row, column) = cursor_visual_position(display.as_str(), at, w);
    proof {
        law_visual_position_in_range(display@, index(display@, at as int), w as int);
        lemma_view_rows_len(display@, 0, 1, w as int);
    }
    if follow_cursor && row < *scroll {
        *scroll = row;
    } else if follow_cursor && viewport_height > 0 && row >= viewport_height && row
        - viewport_height >= *scroll {
        *scroll = row - viewport_height + 1;
    }
    let lines = build_rows(display.as_str(), w);
    assert(lines@.len() == texts(lines@).len());
    let page: usize = if viewport_height > 1 { viewport_height } else { 1 };
    let last: usize = if lines.len() > page { lines.len() - page } else { 0 };
    if *scroll > last {
        *scroll = last;
    }
    ConfigEditorView { lines, cursor_row: row, cursor_col: column }
}

/// The rows, cursor cell and scroll position of an editor that follows its
/// cursor.
pub fn build_config_editor_view(
    text: &str,
    cursor: usize,
    wrap_width: usize,
    viewport_height: usize,
    scroll: &mut usize,
) -> (view: ConfigEditorView)
    requires
        boundary(text@, cursor as int),
    ensures
        ({
            let w = if wrap_width > 1 { wrap_width as int } else { 1 };
            let shown = expanded(text@, 4);
            let at = expanded(text@.take(index(text@, cursor as int)), 4).len() as int;
            let rows = view_rows(shown, 0, 1, w);
            &&& texts(view.lines@) == rows
            &&& view.cursor_row == visual_row(shown, at, w)
            &&& view.cursor_col == visual_column(shown, at, w)
            &&& *final(scroll) == view_scroll(
                *old(scroll) as int,
                visual_row(shown, at, w),
                rows.len() as int,
                viewport_height as int,
                true,
            )
        }),
        viewport_height > 0 ==> *final(scroll) <= view.cursor_row < *final(scroll)
            + viewport_height,
{
    build_config_editor_view_with_scroll_mode(
        text,
        cursor,
        wrap_width,
        viewport_height,
        scroll,
        true,
    )
}

proof fn lemma_next_column(c: int, w: int)
    requires
        0 <= c,
        1 <= w,
    ensures
        c % w + 1 < w ==> (c + 1) / w == c / w && (c + 1) % w == c % w + 1,
        c % w + 1 == w ==> (c + 1) / w == c / w + 1 && (c + 1) % w == 0,
        0 <= c % w < w,
{
    let (q, r) = (c / w, c % w);
    lemma_fundamental_div_mod(c, w);
    assert(0 <= c % w < w) by (nonlinear_arith)
        requires
            1 <= w,
    ;
    assert(w * q == q * w && (q + 1) * w == q * w + w) by (nonlinear_arith);
    if r + 1 < w {
        lemma_fundamental_div_mod_converse(c + 1, w, q, r + 1);
    } else {
        lemma_fundamental_div_mod_converse(c + 1, w, q + 1, 0);
    }
}

proof fn lemma_rows_of_line(c: int, w: int)
    requires
        0 <= c,
        1 <= w,
    ensures
        c > 0 && c % w == 0 ==> wrap_rows(c, w) == c / w,
        !(c > 0 && c % w == 0) ==> wrap_rows(c, w) == c / w + 1,
{
    if c > 0 {
        lemma_next_column(c - 1, w);
    } else {
        assert(0 * w == 0);
        lemma_fundamental_div_mod_converse(0, w, 0, 0);
    }
}

/// The text is shown from the first cell on: every character stands one column behind the
/// one before it, in the next row where the row is full, and a line feed starts the next row.
/// A cursor behind a full last row of a line is shown on its last cell.
pub proof fn law_characters_follow_one_another(t: Seq<char>, i: int, w: int)
    requires
        0 <= i < t.len(),
        1 <= w,
    ensures
        visual_row(t, 0, w) == 0,
        visual_column(t, 0, w) == 0,
        ({
            let (row, column) = (visual_row(t, i, w), visual_column(t, i, w));
            let (row2, column2) = (visual_row(t, i + 1, w), visual_column(t, i + 1, w));
            let ends = i + 1 == t.len() || t[i + 1] == '\n';
            &&& t[i] == '\n' ==> row2 == row + 1 && column2 == 0
            &&& t[i] != '\n' && column + 1 < w ==> row2 == row && column2 == column + 1
            &&& t[i] != '\n' && column + 1 == w && !ends ==> row2 == row + 1 && column2 == 0
            &&& t[i] != '\n' && column + 1 == w && ends ==> row2 == row && column2 == column
        }),
{
    lemma_line_start(t, i);
    lemma_line_end(t, i);
    lemma_line_end(t, i + 1);
    let s = line_start(t, i);
    let c = i - s;
    lemma_next_column(c, w);
    lemma_rows_of_line(c, w);
    lemma_line_start(t, 0);
    if t[i] == '\n' {
        assert(line_start(t, i + 1) == i + 1);
        assert(line_end(t, i) == i);
        assert(rows_above(t, i + 1, w) == rows_above(t, s, w) + wrap_rows(c, w));
        assert(0int / w == 0 && 0int % w == 0) by (nonlinear_arith)
            requires
                1 <= w,
        ;
    } else {
        assert(line_start(t, i + 1) == s);
        assert(line_end(t, i) > i);
        assert(i + 1 == line_end(t, i + 1) <==> (i + 1 == t.len() || t[i + 1] == '\n'));
    }
    assert(0int / w == 0 && 0int % w == 0) by (nonlinear_arith)
        requires
            1 <= w,
    ;
}

/// A line takes as many rows as its characters fill, and at least one.
pub proof fn law_lines_take_the_rows_they_fill(len: int, w: int)
    by (nonlinear_arith)
    requires
        0 <= len,
        1 <= w,
    ensures
        wrap_rows(0, w) == 1,
        len > 0 ==> (wrap_rows(len, w) - 1) * w < len <= wrap_rows(len, w) * w,
{
}

/// Moving by rows goes by just so many rows, and to the first or last where there are not so
/// many.
pub proof fn law_rows_are_counted(row: int, delta: int, total: int)
    requires
        0 <= row < total,
    ensures
        0 <= row + delta < total ==> shifted_row(row, delta, total) == row + delta,
        row + delta < 0 ==> shifted_row(row, delta, total) == 0,
        row + delta >= total ==> shifted_row(row, delta, total) == total - 1,
{
}

/// A page is as many rows as the view has, one at least.
pub proof fn law_pages_are_as_high_as_the_view(height: int)
    requires
        0 <= height <= isize::MAX,
    ensures
        height >= 1 ==> page_delta(1, height) == height && page_delta(-1, height) == -height,
        height == 0 ==> page_delta(1, height) == 1 && page_delta(-1, height) == -1,
{
}

/// Writing tabs out leaves every other character as it is, and puts spaces in place of a tab
/// up to the next multiple of the tab width, one at least.
pub proof fn law_tabs_fill_up_to_the_next_stop(s: Seq<char>, c: char, tab: int)
    requires
        1 <= tab,
    ensures
        expanded(Seq::<char>::empty(), tab) == Seq::<char>::empty(),
        c != '\t' ==> expanded(s.push(c), tab) == expanded(s, tab).push(c),
        c == '\t' ==> exists|k: nat|
            {
                let before = expanded(s, tab);
                &&& 1 <= k <= tab
                &&& expanded(s.push(c), tab) == before + #[trigger] spaces(k)
                &&& (before.len() - line_start(before, before.len() as int) + k) % tab == 0
            },
{
    let before = expanded(s, tab);
    assert(s.push(c).drop_last() =~= s);
    if c == '\t' {
        let column = before.len() - line_start(before, before.len() as int);
        lemma_line_start(before, before.len() as int);
        assert(1 <= tab - column % tab <= tab && (column + (tab - column % tab)) % tab == 0)
            by (nonlinear_arith)
            requires
                1 <= tab,
                0 <= column,
        ;
        let k = (tab - column % tab) as nat;
        assert(expanded(s.push(c), tab) == before + spaces(k));
    }
}

/// A view scrolls no further than it must: a cursor that is in view leaves it where it is,
/// and it never runs past the last page.
pub proof fn law_views_scroll_no_further_than_needed(scroll: int, row: int, rows: int, height: int)
    requires
        0 <= scroll,
        0 <= row < rows,
        1 <= height,
    ensures
        scroll <= row < scroll + height && scroll + height <= rows ==> view_scroll(
            scroll,
            row,
            rows,
            height,
            true,
        ) == scroll,
        row < scroll && scroll + height <= rows ==> view_scroll(scroll, row, rows, height, true)
            == row,
        row >= scroll + height ==> view_scroll(scroll, row, rows, height, true) == row - height + 1,
        scroll + height <= rows ==> view_scroll(scroll, row, rows, height, false) == scroll,
        view_scroll(scroll, row, rows, height, false) + height <= rows || view_scroll(
            scroll,
            row,
            rows,
            height,
            false,
        ) == 0,
{
}

} // verus!
