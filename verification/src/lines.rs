//! Lines, words, paragraphs and delimiters of a text.

use vstd::prelude::*;
use crate::chars::{char_class, char_whitespace, class_of, is_blank, is_whitespace, CharClass};
use crate::text::{
    boundary, byte_len, byte_offset, char_index, group_points, index, text_len, to_chars,
};

verus! {

broadcast use group_points;

/// Where the line that holds `i` starts.
pub open spec fn line_start(t: Seq<char>, i: int) -> int
    decreases i,
{
    if i <= 0 {
        0
    } else if t[i - 1] == '\n' {
        i
    } else {
        line_start(t, i - 1)
    }
}

/// Where the line that holds `i` ends: at its line feed, or at the end.
pub open spec fn line_end(t: Seq<char>, i: int) -> int
    decreases t.len() - i,
{
    if i >= t.len() {
        t.len() as int
    } else if t[i] == '\n' {
        i
    } else {
        line_end(t, i + 1)
    }
}

/// How many lines end before `i`.
pub open spec fn line_number(t: Seq<char>, i: int) -> int
    decreases i,
{
    if i <= 0 {
        0
    } else {
        line_number(t, i - 1) + if t[i - 1] == '\n' { 1int } else { 0int }
    }
}

/// How many lines the text has; an empty text has one.
pub open spec fn line_count(t: Seq<char>) -> int {
    line_number(t, t.len() as int) + 1
}

/// Where line `n` starts, for `n` below the line count.
pub open spec fn line_begin(t: Seq<char>, n: int) -> int
    decreases n,
{
    if n <= 0 {
        0
    } else {
        line_end(t, line_begin(t, n - 1)) + 1
    }
}

pub proof fn lemma_line_start(t: Seq<char>, i: int)
    requires
        0 <= i <= t.len(),
    ensures
        0 <= line_start(t, i) <= i,
        line_start(t, i) == 0 || t[line_start(t, i) - 1] == '\n',
        forall|k: int| line_start(t, i) <= k < i ==> t[k] != '\n',
        line_number(t, line_start(t, i)) == line_number(t, i),
    decreases i,
{
    if i > 0 && t[i - 1] != '\n' {
        lemma_line_start(t, i - 1);
    }
}

pub proof fn lemma_line_end(t: Seq<char>, i: int)
    requires
        0 <= i <= t.len(),
    ensures
        i <= line_end(t, i) <= t.len(),
        line_end(t, i) < t.len() ==> t[line_end(t, i)] == '\n',
        forall|k: int| i <= k < line_end(t, i) ==> t[k] != '\n',
        line_number(t, line_end(t, i)) == line_number(t, i),
    decreases t.len() - i,
{
    if i < t.len() && t[i] != '\n' {
        lemma_line_end(t, i + 1);
    }
}

pub proof fn lemma_line_number_monotone(t: Seq<char>, i: int, j: int)
    requires
        0 <= i <= j <= t.len(),
    ensures
        0 <= line_number(t, i) <= line_number(t, j),
        line_number(t, j) <= j,
        line_number(t, j) - line_number(t, i) <= j - i,
    decreases j,
{
    if i < j {
        lemma_line_number_monotone(t, i, j - 1);
    } else if i > 0 {
        lemma_line_number_monotone(t, i - 1, i - 1);
    }
}

/// Line `n` starts inside the text and has `n` lines before it.
pub proof fn lemma_line_begin(t: Seq<char>, n: int)
    requires
        0 <= n < line_count(t),
    ensures
        0 <= line_begin(t, n) <= t.len(),
        line_number(t, line_begin(t, n)) == n,
        line_start(t, line_begin(t, n)) == line_begin(t, n),
    decreases n,
{
    if n > 0 {
        lemma_line_begin(t, n - 1);
        let e = line_end(t, line_begin(t, n - 1));
        lemma_line_end(t, line_begin(t, n - 1));
        if e == t.len() {
            assert(false);
        }
    }
}

/// The line that holds `i` is the one its number names.
pub proof fn lemma_line_of(t: Seq<char>, i: int)
    requires
        0 <= i <= t.len(),
    ensures
        0 <= line_number(t, i) < line_count(t),
        line_begin(t, line_number(t, i)) == line_start(t, i),
    decreases i,
{
    lemma_line_number_monotone(t, i, t.len() as int);
    lemma_line_start(t, i);
    let s = line_start(t, i);
    if s > 0 {
        lemma_line_of(t, s - 1);
        lemma_line_start(t, s - 1);
        lemma_line_end_from_start(t, s - 1);
        assert(line_number(t, s) == line_number(t, s - 1) + 1);
        lemma_line_begin(t, line_number(t, s - 1));
    }
}

/// A line ends where any of its positions say it does.
pub proof fn lemma_line_end_from_start(t: Seq<char>, i: int)
    requires
        0 <= i <= t.len(),
    ensures
        line_end(t, line_start(t, i)) == line_end(t, i),
    decreases i,
{
    if i > 0 && t[i - 1] != '\n' {
        lemma_line_end_from_start(t, i - 1);
    }
}

/// Where the run of class `k` that starts at `i` ends.
pub open spec fn run_end(t: Seq<char>, i: int, k: CharClass) -> int
    decreases t.len() - i,
{
    if 0 <= i < t.len() && class_of(t[i]) == k {
        run_end(t, i + 1, k)
    } else {
        i
    }
}

/// Where the run of class `k` that ends at `i` starts.
pub open spec fn run_start(t: Seq<char>, i: int, k: CharClass) -> int
    decreases i,
{
    if 0 < i <= t.len() && class_of(t[i - 1]) == k {
        run_start(t, i - 1, k)
    } else {
        i
    }
}

/// The start of the next word: past the run at `i` and the space after it.
pub open spec fn next_word(t: Seq<char>, i: int) -> int {
    if i >= t.len() {
        t.len() as int
    } else {
        run_end(t, run_end(t, i, class_of(t[i])), CharClass::Space)
    }
}

/// The start of the word before `i`: back over space, then over one run.
pub open spec fn prev_word(t: Seq<char>, i: int) -> int {
    let j = run_start(t, i, CharClass::Space);
    if j <= 0 {
        0
    } else {
        run_start(t, j, class_of(t[j - 1]))
    }
}

pub proof fn lemma_run_end(t: Seq<char>, i: int, k: CharClass)
    requires
        0 <= i <= t.len(),
    ensures
        i <= run_end(t, i, k) <= t.len(),
        i < t.len() && class_of(t[i]) == k ==> run_end(t, i, k) > i,
    decreases t.len() - i,
{
    if i < t.len() && class_of(t[i]) == k {
        lemma_run_end(t, i + 1, k);
    }
}

pub proof fn lemma_run_start(t: Seq<char>, i: int, k: CharClass)
    requires
        0 <= i <= t.len(),
    ensures
        0 <= run_start(t, i, k) <= i,
        0 < i && class_of(t[i - 1]) == k ==> run_start(t, i, k) < i,
    decreases i,
{
    if 0 < i && class_of(t[i - 1]) == k {
        lemma_run_start(t, i - 1, k);
    }
}

/// Word-wise movement stays inside the text and moves unless at an end.
pub proof fn lemma_words(t: Seq<char>, i: int)
    requires
        0 <= i <= t.len(),
    ensures
        i <= next_word(t, i) <= t.len(),
        i < t.len() ==> i < next_word(t, i),
        0 <= prev_word(t, i) <= i,
        0 < i ==> prev_word(t, i) < i,
{
    if i < t.len() {
        lemma_run_end(t, i, class_of(t[i]));
        lemma_run_end(t, run_end(t, i, class_of(t[i])), CharClass::Space);
    }
    lemma_run_start(t, i, CharClass::Space);
    let j = run_start(t, i, CharClass::Space);
    if j > 0 {
        lemma_run_start(t, j, class_of(t[j - 1]));
    }
}

pub fn line_start_index(t: &Vec<char>, i: usize) -> (r: usize)
    requires
        i <= t@.len(),
    ensures
        r == line_start(t@, i as int),
        r <= i,
{
    let mut j: usize = i;
    while j > 0 && t[j - 1] != '\n'
        invariant
            j <= i <= t@.len(),
            line_start(t@, i as int) == line_start(t@, j as int),
        decreases j,
    {
        j = j - 1;
    }
    j
}

pub fn line_end_index(t: &Vec<char>, i: usize) -> (r: usize)
    requires
        i <= t@.len(),
    ensures
        r == line_end(t@, i as int),
        i <= r <= t@.len(),
{
    let mut j: usize = i;
    while j < t.len() && t[j] != '\n'
        invariant
            i <= j <= t@.len(),
            line_end(t@, i as int) == line_end(t@, j as int),
        decreases t.len() - j,
    {
        j = j + 1;
    }
    j
}

fn run_end_index(t: &Vec<char>, i: usize, k: CharClass) -> (r: usize)
    requires
        i <= t@.len(),
    ensures
        r == run_end(t@, i as int, k),
        i <= r <= t@.len(),
{
    let mut j: usize = i;
    while j < t.len() && char_class(t[j]) == k
        invariant
            i <= j <= t@.len(),
            run_end(t@, i as int, k) == run_end(t@, j as int, k),
        decreases t.len() - j,
    {
        j = j + 1;
    }
    j
}

fn run_start_index(t: &Vec<char>, i: usize, k: CharClass) -> (r: usize)
    requires
        i <= t@.len(),
    ensures
        r == run_start(t@, i as int, k),
        r <= i,
{
    let mut j: usize = i;
    while j > 0 && char_class(t[j - 1]) == k
        invariant
            j <= i <= t@.len(),
            run_start(t@, i as int, k) == run_start(t@, j as int, k),
        decreases j,
    {
        j = j - 1;
    }
    j
}

pub fn next_word_index(t: &Vec<char>, i: usize) -> (r: usize)
    requires
        i <= t@.len(),
    ensures
        r == next_word(t@, i as int),
        i <= r <= t@.len(),
{
    if i >= t.len() {
        t.len()
    } else {
        let j: usize = run_end_index(t, i, char_class(t[i]));
        run_end_index(t, j, CharClass::Space)
    }
}

pub fn prev_word_index(t: &Vec<char>, i: usize) -> (r: usize)
    requires
        i <= t@.len(),
    ensures
        r == prev_word(t@, i as int),
        r <= i,
{
    let j: usize = run_start_index(t, i, CharClass::Space);
    if j == 0 {
        0
    } else {
        run_start_index(t, j, char_class(t[j - 1]))
    }
}

/// The boundary one character before `cursor`, or the start.
pub fn prev_char_boundary(text: &str, cursor: usize) -> (r: usize)
    requires
        boundary(text@, cursor as int),
    ensures
        boundary(text@, r as int),
        index(text@, r as int) == if index(text@, cursor as int) > 0 {
            index(text@, cursor as int) - 1
        } else {
            0
        },
{
    let i: usize = char_index(text, cursor);
    if i > 0 {
        byte_offset(text, i - 1)
    } else {
        0
    }
}

/// The boundary one character after `cursor`, or the end.
pub fn next_char_boundary(text: &str, cursor: usize) -> (r: usize)
    requires
        boundary(text@, cursor as int),
    ensures
        boundary(text@, r as int),
        index(text@, r as int) == if index(text@, cursor as int) < text@.len() {
            index(text@, cursor as int) + 1
        } else {
            text@.len() as int
        },
{
    let i: usize = char_index(text, cursor);
    if cursor < text_len(text) {
        assert(i < text@.len());
        let length: usize = to_chars(text).len();
        byte_offset(text, i + 1)
    } else {
        cursor
    }
}

/// The start of the next word, as an offset.
pub fn next_word_boundary(text: &str, cursor: usize) -> (r: usize)
    requires
        boundary(text@, cursor as int),
    ensures
        boundary(text@, r as int),
        index(text@, r as int) == next_word(text@, index(text@, cursor as int)),
{
    let t = to_chars(text);
    byte_offset(text, next_word_index(&t, char_index(text, cursor)))
}

/// The start of the word before `cursor`, as an offset.
pub fn prev_word_boundary(text: &str, cursor: usize) -> (r: usize)
    requires
        boundary(text@, cursor as int),
    ensures
        boundary(text@, r as int),
        index(text@, r as int) == prev_word(text@, index(text@, cursor as int)),
{
    let t = to_chars(text);
    byte_offset(text, prev_word_index(&t, char_index(text, cursor)))
}

/// The start of the line that holds `cursor`, as an offset.
pub fn config_editor_line_start(text: &str, cursor: usize) -> (r: usize)
    requires
        boundary(text@, cursor as int),
    ensures
        boundary(text@, r as int),
        index(text@, r as int) == line_start(text@, index(text@, cursor as int)),
{
    let t = to_chars(text);
    byte_offset(text, line_start_index(&t, char_index(text, cursor)))
}

/// The end of the line that holds `cursor`, as an offset.
pub fn config_editor_line_end(text: &str, cursor: usize) -> (r: usize)
    requires
        boundary(text@, cursor as int),
    ensures
        boundary(text@, r as int),
        index(text@, r as int) == line_end(text@, index(text@, cursor as int)),
{
    let t = to_chars(text);
    byte_offset(text, line_end_index(&t, char_index(text, cursor)))
}

/// The number of the line that holds `cursor`, from zero.
pub fn project_editor_line_at(text: &str, cursor: usize) -> (r: usize)
    requires
        boundary(text@, cursor as int),
    ensures
        r == line_number(text@, index(text@, cursor as int)),
        r < line_count(text@),
{
    let t = to_chars(text);
    let i: usize = char_index(text, cursor);
    let mut n: usize = 0;
    let mut j: usize = 0;
    while j < i
        invariant
            j <= i <= t@.len(),
            n <= j,
            n == line_number(t@, j as int),
        decreases i - j,
    {
        if t[j] == '\n' {
            n = n + 1;
        }
        j = j + 1;
    }
    proof {
        lemma_line_of(text@, i as int);
    }
    n
}

/// The start and end of every line, as character indices.
pub fn line_spans(t: &Vec<char>) -> (spans: Vec<(usize, usize)>)
    ensures
        spans@.len() == line_count(t@),
        forall|n: int|
            0 <= n < spans@.len() ==> {
                &&& (#[trigger] spans@[n]).0 == line_begin(t@, n)
                &&& spans@[n].1 == line_end(t@, line_begin(t@, n))
                &&& spans@[n].0 <= spans@[n].1 <= t@.len()
            },
{
    let mut spans: Vec<(usize, usize)> = Vec::new();
    let mut start: usize = 0;
    loop
        invariant
            start <= t@.len(),
            start == line_begin(t@, spans@.len() as int),
            line_number(t@, start as int) == spans@.len(),
            forall|n: int|
                0 <= n < spans@.len() ==> {
                    &&& (#[trigger] spans@[n]).0 == line_begin(t@, n)
                    &&& spans@[n].1 == line_end(t@, line_begin(t@, n))
                    &&& spans@[n].0 <= spans@[n].1 <= t@.len()
                },
        decreases t@.len() - start,
    {
        let end: usize = line_end_index(t, start);
        proof {
            lemma_line_end(t@, start as int);
        }
        spans.push((start, end));
        if end >= t.len() {
            return spans;
        }
        start = end + 1;
    }
}

/// Where line `line` starts, as an offset; one past the end of the text when
/// there is no such line.
pub fn project_editor_line_start_at(text: &str, line: usize) -> (r: usize)
    requires
        line < line_count(text@) || byte_len(text@) < usize::MAX,
    ensures
        line < line_count(text@) ==> {
            &&& boundary(text@, r as int)
            &&& index(text@, r as int) == line_begin(text@, line as int)
        },
        line >= line_count(text@) ==> r == byte_len(text@) + 1,
{
    let t = to_chars(text);
    let spans = line_spans(&t);
    if line < spans.len() {
        byte_offset(text, spans[line].0)
    } else {
        text_len(text) + 1
    }
}

/// Whether line `n` holds nothing but white space.
pub open spec fn blank_line(t: Seq<char>, n: int) -> bool {
    is_blank(t.subrange(line_begin(t, n), line_end(t, line_begin(t, n))))
}

fn is_blank_span(t: &Vec<char>, from: usize, to: usize) -> (r: bool)
    requires
        from <= to <= t@.len(),
    ensures
        r == is_blank(t@.subrange(from as int, to as int)),
{
    let ghost s = t@.subrange(from as int, to as int);
    let mut i: usize = from;
    while i < to
        invariant
            from <= i <= to <= t@.len(),
            s == t@.subrange(from as int, to as int),
            forall|k: int| 0 <= k < i - from ==> char_whitespace(#[trigger] s[k]),
        decreases to - i,
    {
        assert(s[i - from] == t@[i as int]);
        if !is_whitespace(t[i]) {
            return false;
        }
        i = i + 1;
    }
    true
}

/// Upwards from `n`, over blank lines.
pub open spec fn up_over_blank(t: Seq<char>, n: int) -> int
    decreases n,
{
    if n > 0 && blank_line(t, n) {
        up_over_blank(t, n - 1)
    } else {
        n
    }
}

/// Upwards from `n`, to the first line of its paragraph.
pub open spec fn up_over_text(t: Seq<char>, n: int) -> int
    decreases n,
{
    if n > 0 && !blank_line(t, n - 1) {
        up_over_text(t, n - 1)
    } else {
        n
    }
}

/// Downwards from `n`, over lines that are not blank.
pub open spec fn down_over_text(t: Seq<char>, n: int) -> int
    decreases line_count(t) - n,
{
    if n < line_count(t) && !blank_line(t, n) {
        down_over_text(t, n + 1)
    } else {
        n
    }
}

/// Downwards from `n`, over blank lines.
pub open spec fn down_over_blank(t: Seq<char>, n: int) -> int
    decreases line_count(t) - n,
{
    if n < line_count(t) && blank_line(t, n) {
        down_over_blank(t, n + 1)
    } else {
        n
    }
}

/// The first line of the paragraph above line `n`.
pub open spec fn paragraph_above(t: Seq<char>, n: int) -> int {
    up_over_text(t, up_over_blank(t, if n > 0 { n - 1 } else { 0 }))
}

/// The first line of the paragraph below line `n`, or the last line.
pub open spec fn paragraph_below(t: Seq<char>, n: int) -> int {
    let m = down_over_blank(t, down_over_text(t, n));
    if m < line_count(t) {
        m
    } else {
        line_count(t) - 1
    }
}

/// Where the paragraph above `cursor` starts.
pub fn project_editor_previous_paragraph(text: &str, cursor: usize) -> (r: usize)
    requires
        boundary(text@, cursor as int),
    ensures
        boundary(text@, r as int),
        index(text@, r as int) == line_begin(
            text@,
            paragraph_above(text@, line_number(text@, index(text@, cursor as int))),
        ),
{
    let t = to_chars(text);
    let spans = line_spans(&t);
    let current: usize = project_editor_line_at(text, cursor);
    let mut line: usize = if current > 0 { current - 1 } else { 0 };
    let ghost first = line as int;
    while line > 0 && is_blank_span(&t, spans[line].0, spans[line].1)
        invariant
            line < spans@.len(),
            t@ == text@,
            spans@.len() == line_count(t@),
            forall|n: int|
                0 <= n < spans@.len() ==> {
                    &&& (#[trigger] spans@[n]).0 == line_begin(t@, n)
                    &&& spans@[n].1 == line_end(t@, line_begin(t@, n))
                    &&& spans@[n].0 <= spans@[n].1 <= t@.len()
                },
            up_over_blank(text@, first) == up_over_blank(text@, line as int),
        decreases line,
    {
        assert(blank_line(text@, line as int));
        line = line - 1;
    }
    proof {
        if line > 0 {
            assert(!blank_line(text@, line as int));
        }
    }
    let ghost second = line as int;
    while line > 0 && !is_blank_span(&t, spans[line - 1].0, spans[line - 1].1)
        invariant
            line < spans@.len(),
            t@ == text@,
            spans@.len() == line_count(t@),
            forall|n: int|
                0 <= n < spans@.len() ==> {
                    &&& (#[trigger] spans@[n]).0 == line_begin(t@, n)
                    &&& spans@[n].1 == line_end(t@, line_begin(t@, n))
                    &&& spans@[n].0 <= spans@[n].1 <= t@.len()
                },
            up_over_text(text@, second) == up_over_text(text@, line as int),
        decreases line,
    {
        assert(!blank_line(text@, line - 1));
        line = line - 1;
    }
    proof {
        if line > 0 {
            assert(blank_line(text@, line - 1));
        }
    }
    project_editor_line_start_at(text, line)
}

/// Where the paragraph below `cursor` starts, or the last line where there is
/// none.
pub fn project_editor_next_paragraph(text: &str, cursor: usize) -> (r: usize)
    requires
        boundary(text@, cursor as int),
    ensures
        boundary(text@, r as int),
        index(text@, r as int) == line_begin(
            text@,
            paragraph_below(text@, line_number(text@, index(text@, cursor as int))),
        ),
{
    let t = to_chars(text);
    let spans = line_spans(&t);
    let mut line: usize = project_editor_line_at(text, cursor);
    let ghost first = line as int;
    while line < spans.len() && !is_blank_span(&t, spans[line].0, spans[line].1)
        invariant
            line <= spans@.len(),
            t@ == text@,
            spans@.len() == line_count(t@),
            forall|n: int|
                0 <= n < spans@.len() ==> {
                    &&& (#[trigger] spans@[n]).0 == line_begin(t@, n)
                    &&& spans@[n].1 == line_end(t@, line_begin(t@, n))
                    &&& spans@[n].0 <= spans@[n].1 <= t@.len()
                },
            down_over_text(text@, first) == down_over_text(text@, line as int),
        decreases spans.len() - line,
    {
        assert(!blank_line(text@, line as int));
        line = line + 1;
    }
    proof {
        if line < spans@.len() {
            assert(blank_line(text@, line as int));
        }
    }
    let ghost second = line as int;
    while line < spans.len() && is_blank_span(&t, spans[line].0, spans[line].1)
        invariant
            line <= spans@.len(),
            t@ == text@,
            spans@.len() == line_count(t@),
            forall|n: int|
                0 <= n < spans@.len() ==> {
                    &&& (#[trigger] spans@[n]).0 == line_begin(t@, n)
                    &&& spans@[n].1 == line_end(t@, line_begin(t@, n))
                    &&& spans@[n].0 <= spans@[n].1 <= t@.len()
                },
            down_over_blank(text@, second) == down_over_blank(text@, line as int),
        decreases spans.len() - line,
    {
        assert(blank_line(text@, line as int));
        line = line + 1;
    }
    proof {
        if line < spans@.len() {
            assert(!blank_line(text@, line as int));
        }
    }
    if line >= spans.len() {
        project_editor_line_start_at(text, spans.len() - 1)
    } else {
        project_editor_line_start_at(text, line)
    }
}

/// Openings less closings in `from..to`.
pub open spec fn balance(t: Seq<char>, from: int, to: int, open: char, close: char) -> int
    decreases to - from,
{
    if to <= from {
        0
    } else {
        balance(t, from, to - 1, open, close) + if t[to - 1] == open {
            1int
        } else if t[to - 1] == close {
            -1int
        } else {
            0int
        }
    }
}

/// Whether the opening delimiter at `i` and the closing one at `j` belong
/// together: between them everything that opens closes again.
pub open spec fn delimiters_match(t: Seq<char>, i: int, j: int, open: char, close: char) -> bool {
    &&& 0 <= i < j < t.len()
    &&& t[i] == open
    &&& t[j] == close
    &&& balance(t, i, j + 1, open, close) == 0
    &&& forall|k: int| i < k <= j ==> balance(t, i, k, open, close) > 0
}

/// The pair that a delimiter belongs to: opening, closing, and whether it is
/// the opening one.
pub open spec fn delimiter_pair(c: char) -> Option<(char, char, bool)> {
    if c == '(' {
        Some(('(', ')', true))
    } else if c == '[' {
        Some(('[', ']', true))
    } else if c == '{' {
        Some(('{', '}', true))
    } else if c == ')' {
        Some(('(', ')', false))
    } else if c == ']' {
        Some(('[', ']', false))
    } else if c == '}' {
        Some(('{', '}', false))
    } else {
        None
    }
}

/// Whether the delimiter at `j` is the partner of the one at `i`.
pub open spec fn delimiter_partner(t: Seq<char>, i: int, j: int) -> bool {
    0 <= i < t.len() && match delimiter_pair(t[i]) {
        None => false,
        Some((open, close, true)) => delimiters_match(t, i, j, open, close),
        Some((open, close, false)) => delimiters_match(t, j, i, open, close),
    }
}

/// Partners are mutual: jumping twice comes back.
pub proof fn law_delimiter_partner_symmetric(t: Seq<char>, i: int, j: int)
    requires
        delimiter_partner(t, i, j),
    ensures
        delimiter_partner(t, j, i),
{
}

proof fn lemma_balance_split(t: Seq<char>, a: int, b: int, c: int, open: char, close: char)
    requires
        a <= b <= c,
    ensures
        balance(t, a, c, open, close) == balance(t, a, b, open, close) + balance(
            t,
            b,
            c,
            open,
            close,
        ),
    decreases c - b,
{
    if b < c {
        lemma_balance_split(t, a, b, c - 1, open, close);
    }
}

/// A delimiter has at most one partner.
pub proof fn law_delimiter_partner_unique(t: Seq<char>, i: int, j: int, k: int)
    requires
        delimiter_partner(t, i, j),
        delimiter_partner(t, i, k),
    ensures
        j == k,
{
    let (open, close, forward) = delimiter_pair(t[i]).unwrap();
    if forward {
        if j < k {
            assert(balance(t, i, j + 1, open, close) > 0);
        } else if k < j {
            assert(balance(t, i, k + 1, open, close) > 0);
        }
    } else {
        if j < k {
            lemma_balance_split(t, j, k, i + 1, open, close);
        } else if k < j {
            lemma_balance_split(t, k, j, i + 1, open, close);
        }
    }
}

proof fn lemma_positive_prefixes(
    t: Seq<char>,
    i: int,
    j: int,
    e: int,
    open: char,
    close: char,
)
    requires
        e == j + 1,
        0 <= i < j < t.len(),
        t[j] == close,
        open != close,
        balance(t, i, j + 1, open, close) == 0,
        forall|k: int| i < k <= j ==> #[trigger] balance(t, k, e, open, close) < 0,
    ensures
        t[i] == open,
        delimiters_match(t, i, j, open, close),
{
    lemma_balance_split(t, i, i + 1, j + 1, open, close);
    assert(balance(t, i, i + 1, open, close) == balance(t, i, i, open, close) + if t[i] == open {
        1int
    } else if t[i] == close {
        -1int
    } else {
        0int
    });
    assert(balance(t, i + 1, e, open, close) < 0);
    assert forall|k: int| i < k <= j implies balance(t, i, k, open, close) > 0 by {
        lemma_balance_split(t, i, k, e, open, close);
    }
}

fn delimiter_of(c: char) -> (r: Option<(char, char, bool)>)
    ensures
        r == delimiter_pair(c),
{
    if c == '(' {
        Some(('(', ')', true))
    } else if c == '[' {
        Some(('[', ']', true))
    } else if c == '{' {
        Some(('{', '}', true))
    } else if c == ')' {
        Some(('(', ')', false))
    } else if c == ']' {
        Some(('[', ']', false))
    } else if c == '}' {
        Some(('{', '}', false))
    } else {
        None
    }
}

fn match_forward(t: &Vec<char>, i: usize, open: char, close: char) -> (r: Option<usize>)
    requires
        i < t@.len(),
        t@[i as int] == open,
        open != close,
    ensures
        r matches Some(j) ==> delimiters_match(t@, i as int, j as int, open, close),
        r is None ==> forall|j: int| !delimiters_match(t@, i as int, j, open, close),
{
    let length: usize = t.len();
    let mut depth: usize = 0;
    let mut j: usize = i;
    while j < length
        invariant
            length == t@.len(),
            i <= j <= length,
            t@[i as int] == open,
            open != close,
            depth <= j - i,
            depth == balance(t@, i as int, j as int, open, close),
            j > i ==> depth > 0,
            forall|k: int| i < k <= j ==> balance(t@, i as int, k, open, close) > 0,
        decreases length - j,
    {
        assert(balance(t@, i as int, j + 1, open, close) == depth + if t@[j as int] == open {
            1int
        } else if t@[j as int] == close {
            -1int
        } else {
            0int
        });
        if t[j] == open {
            depth = depth + 1;
        } else if t[j] == close {
            depth = depth - 1;
            if depth == 0 {
                return Some(j);
            }
        }
        j = j + 1;
    }
    assert forall|k: int| !delimiters_match(t@, i as int, k, open, close) by {
        if delimiters_match(t@, i as int, k, open, close) {
            assert(balance(t@, i as int, k + 1, open, close) > 0);
        }
    }
    None
}

fn match_backward(t: &Vec<char>, j: usize, open: char, close: char) -> (r: Option<usize>)
    requires
        j < t@.len(),
        t@[j as int] == close,
        open != close,
    ensures
        r matches Some(i) ==> delimiters_match(t@, i as int, j as int, open, close),
        r is None ==> forall|i: int| !delimiters_match(t@, i, j as int, open, close),
{
    let ghost e: int = j + 1;
    let length: usize = t.len();
    let mut depth: usize = 0;
    let mut i: usize = j + 1;
    while i > 0
        invariant
            i <= j + 1,
            e == j + 1,
            j < length,
            length == t@.len(),
            t@[j as int] == close,
            open != close,
            depth <= j + 1 - i,
            -depth == balance(t@, i as int, e, open, close),
            i <= j ==> depth > 0,
            forall|k: int| i <= k <= j ==> #[trigger] balance(t@, k, e, open, close) < 0,
        decreases i,
    {
        proof {
            lemma_balance_split(t@, i - 1, i as int, e, open, close);
            assert(balance(t@, i - 1, i as int, open, close) == balance(
                t@,
                i - 1,
                i - 1,
                open,
                close,
            ) + if t@[i - 1] == open {
                1int
            } else if t@[i - 1] == close {
                -1int
            } else {
                0int
            });
        }
        i = i - 1;
        if t[i] == close {
            depth = depth + 1;
        } else if t[i] == open {
            depth = depth - 1;
            if depth == 0 {
                proof {
                    lemma_positive_prefixes(t@, i as int, j as int, e, open, close);
                }
                return Some(i);
            }
        }
    }
    assert forall|k: int| !delimiters_match(t@, k, j as int, open, close) by {
        if delimiters_match(t@, k, j as int, open, close) {
            assert(balance(t@, k, e, open, close) < 0);
        }
    }
    None
}

/// The partner of the delimiter at `cursor`, if there is a delimiter there and
/// it has one.
pub fn project_editor_matching_delimiter(text: &str, cursor: usize) -> (r: Option<usize>)
    requires
        boundary(text@, cursor as int) || cursor > byte_len(text@),
    ensures
        r matches Some(b) ==> {
            &&& boundary(text@, cursor as int)
            &&& boundary(text@, b as int)
            &&& delimiter_partner(text@, index(text@, cursor as int), index(text@, b as int))
        },
        r is None ==> cursor >= byte_len(text@) || forall|j: int|
            !delimiter_partner(text@, index(text@, cursor as int), j),
{
    if cursor >= text_len(text) {
        return None;
    }
    let t = to_chars(text);
    let i: usize = char_index(text, cursor);
    assert(i < t@.len());
    match delimiter_of(t[i]) {
        None => None,
        Some((open, close, forward)) => {
            let partner = if forward {
                match_forward(&t, i, open, close)
            } else {
                match_backward(&t, i, open, close)
            };
            match partner {
                Some(j) => Some(byte_offset(text, j)),
                None => None,
            }
        },
    }
}

/// The number of a line counts the line feeds before it.
pub proof fn law_line_number_counts_line_feeds(t: Seq<char>, i: int)
    requires
        0 <= i <= t.len(),
    ensures
        line_number(t, i) == t.take(i).to_multiset().count('\n'),
        line_count(t) == t.to_multiset().count('\n') + 1,
    decreases i,
{
    lemma_line_feeds(t, i);
    lemma_line_feeds(t, t.len() as int);
    assert(t.take(t.len() as int) =~= t);
}

proof fn lemma_line_feeds(t: Seq<char>, i: int)
    requires
        0 <= i <= t.len(),
    ensures
        line_number(t, i) == t.take(i).to_multiset().count('\n'),
    decreases i,
{
    broadcast use vstd::seq_lib::group_to_multiset_ensures;

    if i > 0 {
        lemma_line_feeds(t, i - 1);
        assert(t.take(i) =~= t.take(i - 1).push(t[i - 1]));
    } else {
        assert(t.take(0) =~= Seq::empty());
    }
}

/// The characters from `from` up to `to` are those of the lines from `a` to
/// `b`, both included, in whichever order the two are given.
pub open spec fn covers_lines(t: Seq<char>, from: int, to: int, a: int, b: int) -> bool {
    &&& 0 <= from <= to <= t.len()
    &&& forall|i: int|
        0 <= i < t.len() ==> (from <= i < to <==> (a <= #[trigger] line_number(t, i) <= b || b
            <= line_number(t, i) <= a))
}

/// A position is at or behind the start of a line exactly when its line is that
/// line or a later one.
pub proof fn law_line_begin_divides_the_text(t: Seq<char>, n: int, i: int)
    requires
        0 <= n < line_count(t),
        0 <= i <= t.len(),
    ensures
        0 <= line_begin(t, n) <= t.len(),
        line_begin(t, n) <= i <==> n <= line_number(t, i),
{
    lemma_line_begin(t, n);
    let s = line_begin(t, n);
    if s <= i {
        lemma_line_number_monotone(t, s, i);
    } else {
        lemma_line_start(t, s);
        lemma_line_number_monotone(t, i, s - 1);
    }
}

/// The characters of a line from its start up to its end hold no line feed, and
/// the line is bounded by line feeds or the ends of the text.
pub proof fn law_line_ends(t: Seq<char>, i: int)
    requires
        0 <= i <= t.len(),
    ensures
        0 <= line_start(t, i) <= i <= line_end(t, i) <= t.len(),
        forall|k: int| line_start(t, i) <= k < line_end(t, i) ==> t[k] != '\n',
        line_start(t, i) == 0 || t[line_start(t, i) - 1] == '\n',
        line_end(t, i) == t.len() || t[line_end(t, i)] == '\n',
{
    lemma_line_start(t, i);
    lemma_line_end(t, i);
}

/// A word starts at `p`: the character there is no white space, and the one
/// before it is of another class.
pub open spec fn word_starts(t: Seq<char>, p: int) -> bool {
    &&& 0 <= p < t.len()
    &&& class_of(t[p]) != CharClass::Space
    &&& p == 0 || class_of(t[p - 1]) != class_of(t[p])
}

proof fn lemma_run_end_exact(t: Seq<char>, i: int, k: CharClass)
    requires
        0 <= i <= t.len(),
    ensures
        i <= run_end(t, i, k) <= t.len(),
        forall|q: int| i <= q < run_end(t, i, k) ==> class_of(#[trigger] t[q]) == k,
        run_end(t, i, k) < t.len() ==> class_of(t[run_end(t, i, k)]) != k,
    decreases t.len() - i,
{
    if i < t.len() && class_of(t[i]) == k {
        lemma_run_end_exact(t, i + 1, k);
    }
}

proof fn lemma_run_start_exact(t: Seq<char>, i: int, k: CharClass)
    requires
        0 <= i <= t.len(),
    ensures
        0 <= run_start(t, i, k) <= i,
        forall|q: int| run_start(t, i, k) <= q < i ==> class_of(#[trigger] t[q]) == k,
        run_start(t, i, k) > 0 ==> class_of(t[run_start(t, i, k) - 1]) != k,
    decreases i,
{
    if i > 0 && class_of(t[i - 1]) == k {
        lemma_run_start_exact(t, i - 1, k);
    }
}

/// The next word is the first that starts behind the position, or the end of the
/// text.
pub proof fn law_next_word_is_the_nearest(t: Seq<char>, i: int)
    requires
        0 <= i <= t.len(),
    ensures
        i <= next_word(t, i) <= t.len(),
        i < t.len() ==> i < next_word(t, i),
        next_word(t, i) == t.len() || word_starts(t, next_word(t, i)),
        forall|p: int| i < p < next_word(t, i) ==> !#[trigger] word_starts(t, p),
{
    if i < t.len() {
        let k = class_of(t[i]);
        lemma_run_end(t, i, k);
        lemma_run_end_exact(t, i, k);
        let j = run_end(t, i, k);
        lemma_run_end_exact(t, j, CharClass::Space);
        let e = run_end(t, j, CharClass::Space);
        assert forall|p: int| i < p < e implies !#[trigger] word_starts(t, p) by {
            if p < j {
                assert(class_of(t[p]) == k && class_of(t[p - 1]) == k);
            } else {
                assert(class_of(t[p]) == CharClass::Space);
            }
        }
        if e < t.len() {
            if e > j {
                assert(class_of(t[e - 1]) == CharClass::Space);
            } else {
                assert(class_of(t[e - 1]) == k);
            }
        }
    }
}

/// The word before is the last that starts before the position, or the start of
/// the text.
pub proof fn law_previous_word_is_the_nearest(t: Seq<char>, i: int)
    requires
        0 <= i <= t.len(),
    ensures
        0 <= prev_word(t, i) <= i,
        0 < i ==> prev_word(t, i) < i,
        prev_word(t, i) == 0 || word_starts(t, prev_word(t, i)),
        forall|p: int| prev_word(t, i) < p < i ==> !#[trigger] word_starts(t, p),
{
    lemma_words(t, i);
    lemma_run_start_exact(t, i, CharClass::Space);
    let j = run_start(t, i, CharClass::Space);
    if j > 0 {
        let k = class_of(t[j - 1]);
        lemma_run_start_exact(t, j, k);
        let s = run_start(t, j, k);
        assert(class_of(t[j - 1]) != CharClass::Space);
        lemma_run_start(t, j, k);
        assert(class_of(t[s]) == k);
        assert forall|p: int| s < p < i implies !#[trigger] word_starts(t, p) by {
            if p < j {
                assert(class_of(t[p]) == k && class_of(t[p - 1]) == k);
            } else {
                assert(class_of(t[p]) == CharClass::Space);
            }
        }
    }
}

/// A paragraph starts at line `n`: the line is not blank, and the one before it
/// is, or there is none.
pub open spec fn paragraph_starts(t: Seq<char>, n: int) -> bool {
    &&& 0 <= n < line_count(t)
    &&& !blank_line(t, n)
    &&& n == 0 || blank_line(t, n - 1)
}

proof fn lemma_up_over_blank(t: Seq<char>, n: int)
    requires
        0 <= n,
    ensures
        0 <= up_over_blank(t, n) <= n,
        up_over_blank(t, n) == 0 || !blank_line(t, up_over_blank(t, n)),
        forall|q: int| up_over_blank(t, n) < q <= n ==> #[trigger] blank_line(t, q),
    decreases n,
{
    if n > 0 && blank_line(t, n) {
        lemma_up_over_blank(t, n - 1);
    }
}

proof fn lemma_up_over_text(t: Seq<char>, n: int)
    requires
        0 <= n,
    ensures
        0 <= up_over_text(t, n) <= n,
        up_over_text(t, n) == 0 || blank_line(t, up_over_text(t, n) - 1),
        forall|q: int| up_over_text(t, n) <= q < n ==> !#[trigger] blank_line(t, q),
    decreases n,
{
    if n > 0 && !blank_line(t, n - 1) {
        lemma_up_over_text(t, n - 1);
    }
}

proof fn lemma_down_over_text(t: Seq<char>, n: int)
    requires
        0 <= n <= line_count(t),
    ensures
        n <= down_over_text(t, n) <= line_count(t),
        down_over_text(t, n) == line_count(t) || blank_line(t, down_over_text(t, n)),
        forall|q: int| n <= q < down_over_text(t, n) ==> !#[trigger] blank_line(t, q),
    decreases line_count(t) - n,
{
    if n < line_count(t) && !blank_line(t, n) {
        lemma_down_over_text(t, n + 1);
    }
}

proof fn lemma_down_over_blank(t: Seq<char>, n: int)
    requires
        0 <= n <= line_count(t),
    ensures
        n <= down_over_blank(t, n) <= line_count(t),
        down_over_blank(t, n) == line_count(t) || !blank_line(t, down_over_blank(t, n)),
        forall|q: int| n <= q < down_over_blank(t, n) ==> #[trigger] blank_line(t, q),
    decreases line_count(t) - n,
{
    if n < line_count(t) && blank_line(t, n) {
        lemma_down_over_blank(t, n + 1);
    }
}

/// The paragraph above a line is the last that starts before it, or the first
/// line where none does.
pub proof fn law_paragraph_above_is_the_nearest(t: Seq<char>, n: int)
    requires
        0 <= n < line_count(t),
    ensures
        0 <= paragraph_above(t, n) <= n,
        paragraph_above(t, n) == 0 || paragraph_above(t, n) < n && paragraph_starts(
            t,
            paragraph_above(t, n),
        ),
        forall|q: int| paragraph_above(t, n) < q < n ==> !#[trigger] paragraph_starts(t, q),
{
    let m = if n > 0 {
        n - 1
    } else {
        0
    };
    lemma_up_over_blank(t, m);
    let u = up_over_blank(t, m);
    lemma_up_over_text(t, u);
    let p = up_over_text(t, u);
    assert forall|q: int| p < q < n implies !#[trigger] paragraph_starts(t, q) by {
        if q <= u {
            assert(!blank_line(t, q - 1));
        } else {
            assert(blank_line(t, q));
        }
    }
    if p > 0 {
        if p < u {
            assert(!blank_line(t, p));
        }
    }
}

/// The paragraph below a line is the first that starts behind it, or the last
/// line where none does.
pub proof fn law_paragraph_below_is_the_nearest(t: Seq<char>, n: int)
    requires
        0 <= n < line_count(t),
    ensures
        n <= paragraph_below(t, n) < line_count(t),
        paragraph_below(t, n) == line_count(t) - 1 || paragraph_below(t, n) > n
            && paragraph_starts(t, paragraph_below(t, n)),
        forall|q: int| n < q < paragraph_below(t, n) ==> !#[trigger] paragraph_starts(t, q),
{
    lemma_down_over_text(t, n);
    let d = down_over_text(t, n);
    lemma_down_over_blank(t, d);
    let m = down_over_blank(t, d);
    assert forall|q: int| n < q < m implies !#[trigger] paragraph_starts(t, q) by {
        if q < d {
            assert(!blank_line(t, q - 1));
        } else {
            assert(blank_line(t, q));
        }
    }
    if m < line_count(t) {
        if m > d {
            assert(blank_line(t, m - 1));
        }
    }
}

proof fn lemma_balance_counts(t: Seq<char>, from: int, to: int, open: char, close: char)
    requires
        0 <= from <= to <= t.len(),
        open != close,
    ensures
        balance(t, from, to, open, close) == t.subrange(from, to).to_multiset().count(open)
            - t.subrange(from, to).to_multiset().count(close),
    decreases to - from,
{
    broadcast use vstd::seq_lib::group_to_multiset_ensures;

    if from < to {
        lemma_balance_counts(t, from, to - 1, open, close);
        assert(t.subrange(from, to) =~= t.subrange(from, to - 1).push(t[to - 1]));
    } else {
        assert(t.subrange(from, to) =~= Seq::empty());
    }
}

/// A closing delimiter of the kind that an opening one asks for.
pub open spec fn closes(open: char, close: char) -> bool {
    ||| open == '(' && close == ')'
    ||| open == '[' && close == ']'
    ||| open == '{' && close == '}'
}

/// Partners are an opening and a closing delimiter of one kind, in this order in
/// the text, and from the first to the second as many of the kind open as close,
/// and on the way there more open than close.
pub proof fn law_partners_enclose_a_balanced_text(t: Seq<char>, i: int, j: int)
    requires
        delimiter_partner(t, i, j),
    ensures
        0 <= i < t.len(),
        0 <= j < t.len(),
        ({
            let first = if i < j { i } else { j };
            let second = if i < j { j } else { i };
            let (open, close) = (t[first], t[second]);
            let within = t.subrange(first, second + 1).to_multiset();
            &&& closes(open, close)
            &&& within.count(open) == within.count(close)
            &&& forall|k: int|
                first < k <= second ==> (#[trigger] t.subrange(first, k)).to_multiset().count(open)
                    > t.subrange(first, k).to_multiset().count(close)
        }),
{
    let first = if i < j {
        i
    } else {
        j
    };
    let second = if i < j {
        j
    } else {
        i
    };
    let (open, close) = (t[first], t[second]);
    assert(closes(open, close));
    lemma_balance_counts(t, first, second + 1, open, close);
    assert forall|k: int| first < k <= second implies (#[trigger] t.subrange(
        first,
        k,
    )).to_multiset().count(open) > t.subrange(first, k).to_multiset().count(close) by {
        lemma_balance_counts(t, first, k, open, close);
    }
}

/// A delimiter with a balanced text up to a closing one of its kind has it as
/// its partner, and the other way round.
pub proof fn law_balanced_delimiters_are_partners(t: Seq<char>, i: int, j: int)
    requires
        0 <= i < j < t.len(),
        closes(t[i], t[j]),
        t.subrange(i, j + 1).to_multiset().count(t[i]) == t.subrange(i, j + 1).to_multiset().count(
            t[j],
        ),
        forall|k: int|
            i < k <= j ==> (#[trigger] t.subrange(i, k)).to_multiset().count(t[i]) > t.subrange(
                i,
                k,
            ).to_multiset().count(t[j]),
    ensures
        delimiter_partner(t, i, j),
        delimiter_partner(t, j, i),
{
    lemma_balance_counts(t, i, j + 1, t[i], t[j]);
    assert forall|k: int| i < k <= j implies balance(t, i, k, t[i], t[j]) > 0 by {
        lemma_balance_counts(t, i, k, t[i], t[j]);
        assert(t.subrange(i, k).to_multiset().count(t[i]) > t.subrange(i, k).to_multiset().count(
            t[j],
        ));
    }
}

/// `p` is where the word before position `i` starts: the last start of a word
/// before `i`, or the start of the text.
pub open spec fn is_word_before(t: Seq<char>, i: int, p: int) -> bool {
    &&& 0 <= p <= i
    &&& 0 < i ==> p < i
    &&& p == 0 || word_starts(t, p)
    &&& forall|q: int| p < q < i ==> !#[trigger] word_starts(t, q)
}

/// `p` is where the word behind position `i` starts: the first start of a word
/// behind `i`, or the end of the text.
pub open spec fn is_word_after(t: Seq<char>, i: int, p: int) -> bool {
    &&& i <= p <= t.len()
    &&& i < t.len() ==> i < p
    &&& p == t.len() || word_starts(t, p)
    &&& forall|q: int| i < q < p ==> !#[trigger] word_starts(t, q)
}

} // verus!
