//! Editing keys on a buffer with a cursor.

use vstd::prelude::*;
use crate::chars::utf8_width;
use crate::keys::{KeyCode, KeyEvent};
use crate::lines::{
    is_word_after, is_word_before, law_next_word_is_the_nearest, law_previous_word_is_the_nearest,
    lemma_line_end, lemma_line_end_from_start, lemma_line_number_monotone, lemma_line_of,
    lemma_line_start, lemma_words, line_count, line_end, line_end_index, line_number, line_start,
    line_start_index, next_word, next_word_index, prev_word, prev_word_index,
};
use crate::text::{
    boundary, byte_len, byte_offset, char_index, group_points, index, lemma_offset_monotone,
    lemma_offset_prefix, lemma_offset_step, offset, splice, text_len, to_chars,
};

verus! {

broadcast use group_points;

/// A text and the character index of the cursor in it.
#[verifier::ext_equal]
pub struct Buffer {
    pub text: Seq<char>,
    pub at: int,
}

impl Buffer {
    pub open spec fn valid(self) -> bool {
        0 <= self.at <= self.text.len()
    }

    /// Whether `text` and the byte offset `cursor` hold this buffer.
    pub open spec fn held(self, text: Seq<char>, cursor: int) -> bool {
        text == self.text && cursor == offset(self.text, self.at)
    }
}

/// The buffer that a text and a byte offset into it hold.
pub open spec fn buffer(text: Seq<char>, cursor: int) -> Buffer {
    Buffer { text, at: index(text, cursor) }
}

/// The greatest index in `from..=to` at most `column` bytes after `from`.
pub open spec fn column_index(t: Seq<char>, from: int, to: int, column: int) -> int
    decreases to - from,
{
    if to <= from {
        from
    } else if offset(t, to) - offset(t, from) <= column {
        to
    } else {
        column_index(t, from, to - 1, column)
    }
}

/// The cursor one line up or down, in the same byte column as far as the line
/// goes; where there is no such line it stays.
pub open spec fn vertical(t: Seq<char>, i: int, down: bool) -> int {
    let start = line_start(t, i);
    let column = offset(t, i) - offset(t, start);
    if down {
        let end = line_end(t, i);
        if end >= t.len() {
            i
        } else {
            column_index(t, end + 1, line_end(t, end + 1), column)
        }
    } else if start == 0 {
        i
    } else {
        column_index(t, line_start(t, start - 1), start - 1, column)
    }
}

proof fn lemma_column_index_range(t: Seq<char>, from: int, to: int, column: int)
    requires
        from <= to,
    ensures
        from <= column_index(t, from, to, column) <= to,
    decreases to - from,
{
    if from < to {
        lemma_column_index_range(t, from, to - 1, column);
    }
}

/// Vertical movement stays inside the text.
pub proof fn lemma_vertical(t: Seq<char>, i: int, down: bool)
    requires
        0 <= i <= t.len(),
    ensures
        0 <= vertical(t, i, down) <= t.len(),
{
    let start = line_start(t, i);
    let column = offset(t, i) - offset(t, start);
    lemma_line_start(t, i);
    lemma_line_end(t, i);
    if down {
        let end = line_end(t, i);
        if end < t.len() {
            lemma_line_end(t, end + 1);
            lemma_column_index_range(t, end + 1, line_end(t, end + 1), column);
        }
    } else if start > 0 {
        lemma_line_start(t, start - 1);
        lemma_column_index_range(t, line_start(t, start - 1), start - 1, column);
    }
}

proof fn lemma_column_index_found(t: Seq<char>, from: int, j: int, to: int, column: int)
    requires
        0 <= from <= j <= to <= t.len(),
        j == from || offset(t, j) - offset(t, from) <= column,
        j < to ==> offset(t, j + 1) - offset(t, from) > column,
    ensures
        column_index(t, from, to, column) == j,
    decreases to - j,
{
    if j < to {
        lemma_offset_monotone(t, j + 1, to);
        lemma_column_index_found(t, from, j, to - 1, column);
    }
}

fn find_column(t: &Vec<char>, from: usize, to: usize, column: usize) -> (j: usize)
    requires
        from <= to <= t@.len(),
    ensures
        j == column_index(t@, from as int, to as int, column as int),
        from <= j <= to,
{
    let mut j: usize = from;
    let mut width: usize = 0;
    while j < to
        invariant
            from <= j <= to <= t@.len(),
            width == offset(t@, j as int) - offset(t@, from as int),
            width <= column,
        decreases to - j,
    {
        proof {
            lemma_offset_step(t@, j as int);
        }
        let w: usize = utf8_width(t[j]);
        if w > column - width {
            proof {
                lemma_column_index_found(t@, from as int, j as int, to as int, column as int);
            }
            return j;
        }
        width = width + w;
        j = j + 1;
    }
    proof {
        lemma_column_index_found(t@, from as int, j as int, to as int, column as int);
    }
    j
}

/// Moves the cursor one line up or down, keeping its byte column.
pub fn move_text_cursor_vertical(text: &str, cursor: &mut usize, down: bool)
    requires
        boundary(text@, *old(cursor) as int),
    ensures
        boundary(text@, *final(cursor) as int),
        index(text@, *final(cursor) as int) == vertical(
            text@,
            index(text@, *old(cursor) as int),
            down,
        ),
{
    let t = to_chars(text);
    let i: usize = char_index(text, *cursor);
    let start: usize = line_start_index(&t, i);
    proof {
        lemma_offset_monotone(text@, start as int, i as int);
    }
    let column: usize = *cursor - byte_offset(text, start);
    if down {
        let end: usize = line_end_index(&t, i);
        if end >= t.len() {
            return ;
        }
        let next: usize = end + 1;
        let target: usize = find_column(&t, next, line_end_index(&t, next), column);
        *cursor = byte_offset(text, target);
    } else {
        if start == 0 {
            return ;
        }
        let previous: usize = line_start_index(&t, start - 1);
        let target: usize = find_column(&t, previous, start - 1, column);
        *cursor = byte_offset(text, target);
    }
}

/// The buffer with `inserted` put in at the cursor, which moves past it.
pub open spec fn inserted(b: Buffer, what: Seq<char>) -> Buffer {
    Buffer { text: b.text.take(b.at) + what + b.text.skip(b.at), at: b.at + what.len() }
}

/// The buffer without `from..to`, the cursor at `from`.
pub open spec fn removed(b: Buffer, from: int, to: int) -> Buffer {
    Buffer { text: b.text.take(from) + b.text.skip(to), at: from }
}

/// The buffer with the cursor at `at`.
pub open spec fn moved(b: Buffer, at: int) -> Buffer {
    Buffer { at, ..b }
}

/// Where Backspace starts to delete.
pub open spec fn backspace_from(b: Buffer, by_word: bool) -> int {
    if by_word {
        prev_word(b.text, b.at)
    } else {
        b.at - 1
    }
}

/// Where Delete stops.
pub open spec fn delete_to(b: Buffer, by_word: bool) -> int {
    if by_word {
        next_word(b.text, b.at)
    } else {
        b.at + 1
    }
}

/// What an editing key makes of a buffer.
pub open spec fn edited(b: Buffer, key: KeyEvent) -> Buffer {
    let control = key.modifiers.control;
    match key.code {
        KeyCode::Left => if control {
            moved(b, prev_word(b.text, b.at))
        } else if b.at > 0 {
            moved(b, b.at - 1)
        } else {
            b
        },
        KeyCode::Right => if control {
            moved(b, next_word(b.text, b.at))
        } else if b.at < b.text.len() {
            moved(b, b.at + 1)
        } else {
            b
        },
        KeyCode::Home => moved(b, line_start(b.text, b.at)),
        KeyCode::End => moved(b, line_end(b.text, b.at)),
        KeyCode::Up => moved(b, vertical(b.text, b.at, false)),
        KeyCode::Down => moved(b, vertical(b.text, b.at, true)),
        KeyCode::Backspace => if b.at > 0 {
            removed(b, backspace_from(b, control), b.at)
        } else {
            b
        },
        KeyCode::Delete => if b.at < b.text.len() {
            removed(b, b.at, delete_to(b, control))
        } else {
            b
        },
        KeyCode::Char(c) => if !control {
            inserted(b, seq![c])
        } else {
            b
        },
        _ => b,
    }
}

/// Whether an editing key changes the text (rather than move in it).
pub open spec fn edits(b: Buffer, key: KeyEvent) -> bool {
    match key.code {
        KeyCode::Backspace => b.at > 0,
        KeyCode::Delete => b.at < b.text.len(),
        KeyCode::Char(_) => !key.modifiers.control,
        _ => false,
    }
}

/// An editing key leaves the cursor inside the text.
pub proof fn law_edit_keeps_cursor_valid(b: Buffer, key: KeyEvent)
    requires
        b.valid(),
    ensures
        edited(b, key).valid(),
{
    lemma_words(b.text, b.at);
    lemma_line_start(b.text, b.at);
    lemma_line_end(b.text, b.at);
    lemma_vertical(b.text, b.at, true);
    lemma_vertical(b.text, b.at, false);
}

/// A key that is not reported as an edit leaves the text as it was.
pub proof fn law_navigation_keeps_text(b: Buffer, key: KeyEvent)
    requires
        !edits(b, key),
    ensures
        edited(b, key).text == b.text,
{
}

/// Backspace takes back a typed character.
pub proof fn law_backspace_undoes_typing(b: Buffer, typed: KeyEvent, back: KeyEvent)
    requires
        b.valid(),
        typed.code is Char,
        !typed.modifiers.control,
        back.code == KeyCode::Backspace,
        !back.modifiers.control,
    ensures
        edited(edited(b, typed), back) == b,
{
    let after = edited(edited(b, typed), back);
    assert(after.text =~= b.text);
}

/// Removes the text between two boundaries and puts the cursor at the first.
pub fn remove_range(text: &mut String, cursor: &mut usize, from: usize, to: usize)
    requires
        boundary(old(text)@, from as int),
        boundary(old(text)@, to as int),
        index(old(text)@, from as int) <= index(old(text)@, to as int),
    ensures
        ({
            let b = buffer(old(text)@, *old(cursor) as int);
            removed(
                b,
                index(old(text)@, from as int),
                index(old(text)@, to as int),
            ).held(final(text)@, *final(cursor) as int)
        }),
        boundary(final(text)@, *final(cursor) as int),
        index(final(text)@, *final(cursor) as int) == index(old(text)@, from as int),
        *final(cursor) == from,
{
    let ghost t = text@;
    let ghost i = index(t, from as int);
    let ghost j = index(t, to as int);
    let r = splice(text.as_str(), from, to, "");
    proof {
        reveal_strlit("");
        assert(r@ =~= t.take(i) + t.skip(j));
        assert(t.take(i) =~= r@.take(i));
        lemma_offset_prefix(t, r@, i);
    }
    *text = r;
    *cursor = from;
}

/// Inserts `what` at the cursor, which moves past it.
pub fn insert_at_cursor(text: &mut String, cursor: &mut usize, what: &str)
    requires
        boundary(old(text)@, *old(cursor) as int),
    ensures
        inserted(buffer(old(text)@, *old(cursor) as int), what@).held(
            final(text)@,
            *final(cursor) as int,
        ),
        boundary(final(text)@, *final(cursor) as int),
        index(final(text)@, *final(cursor) as int) == index(old(text)@, *old(cursor) as int)
            + what@.len(),
        *final(cursor) == *old(cursor) + byte_len(what@),
{
    let ghost t = text@;
    let ghost i = index(t, *cursor as int);
    let r = splice(text.as_str(), *cursor, *cursor, what);
    let length: usize = text_len(r.as_str());
    let n: usize = text_len(what);
    proof {
        crate::text::lemma_byte_len_concat(t.take(i), what@);
        assert(r@.take(i + what@.len()) =~= t.take(i) + what@);
        assert(offset(t, i) == byte_len(t.take(i))) by {
            reveal(offset);
        }
        assert(offset(r@, i + what@.len()) == byte_len(t.take(i) + what@)) by {
            reveal(offset);
        }
    }
    *text = r;
    *cursor = *cursor + n;
}

/// Inserts one character at the cursor, which moves past it.
pub fn insert_char(text: &mut String, cursor: &mut usize, c: char)
    requires
        boundary(old(text)@, *old(cursor) as int),
    ensures
        inserted(buffer(old(text)@, *old(cursor) as int), seq![c]).held(
            final(text)@,
            *final(cursor) as int,
        ),
        boundary(final(text)@, *final(cursor) as int),
        index(final(text)@, *final(cursor) as int) == index(old(text)@, *old(cursor) as int) + 1,
{
    let mut what = String::new();
    what.push(c);
    assert(what@ =~= seq![c]);
    insert_at_cursor(text, cursor, what.as_str());
}

/// The character that a key types, if it types one.
pub open spec fn typed_char(key: KeyEvent) -> Option<char> {
    match key.code {
        KeyCode::Char(c) => Some(c),
        _ => None,
    }
}

/// The character that a key types, as the keyboard layout resolved it.
pub fn text_input_char(key: KeyEvent) -> (r: Option<char>)
    ensures
        r == typed_char(key),
{
    match key.code {
        KeyCode::Char(character) => Some(character),
        _ => None,
    }
}

/// Applies an editing key to a text and its cursor and says whether the text
/// changed.
pub fn edit_text(text: &mut String, cursor: &mut usize, key: KeyEvent) -> (changed: bool)
    requires
        boundary(old(text)@, *old(cursor) as int),
    ensures
        edited(buffer(old(text)@, *old(cursor) as int), key).held(
            final(text)@,
            *final(cursor) as int,
        ),
        changed == edits(buffer(old(text)@, *old(cursor) as int), key),
        boundary(final(text)@, *final(cursor) as int),
        buffer(final(text)@, *final(cursor) as int) == edited(
            buffer(old(text)@, *old(cursor) as int),
            key,
        ),
        !changed ==> *final(text) == *old(text),
{
    let ghost b = buffer(text@, *cursor as int);
    proof {
        law_edit_keeps_cursor_valid(b, key);
        lemma_words(b.text, b.at);
    }
    let t = to_chars(text.as_str());
    let i: usize = char_index(text.as_str(), *cursor);
    let length: usize = t.len();
    match key.code {
        KeyCode::Left => {
            if key.modifiers.control {
                *cursor = byte_offset(text.as_str(), prev_word_index(&t, i));
            } else if i > 0 {
                *cursor = byte_offset(text.as_str(), i - 1);
            }
            false
        },
        KeyCode::Right => {
            if key.modifiers.control {
                *cursor = byte_offset(text.as_str(), next_word_index(&t, i));
            } else if i < length {
                *cursor = byte_offset(text.as_str(), i + 1);
            }
            false
        },
        KeyCode::Home => {
            *cursor = byte_offset(text.as_str(), line_start_index(&t, i));
            false
        },
        KeyCode::End => {
            *cursor = byte_offset(text.as_str(), line_end_index(&t, i));
            false
        },
        KeyCode::Backspace => {
            if i > 0 {
                let from: usize = if key.modifiers.control {
                    prev_word_index(&t, i)
                } else {
                    i - 1
                };
                let start: usize = byte_offset(text.as_str(), from);
                let end: usize = *cursor;
                remove_range(text, cursor, start, end);
                true
            } else {
                false
            }
        },
        KeyCode::Delete => {
            if i < length {
                let to: usize = if key.modifiers.control {
                    next_word_index(&t, i)
                } else {
                    i + 1
                };
                let start: usize = *cursor;
                let end: usize = byte_offset(text.as_str(), to);
                remove_range(text, cursor, start, end);
                true
            } else {
                false
            }
        },
        KeyCode::Up => {
            move_text_cursor_vertical(text.as_str(), cursor, false);
            false
        },
        KeyCode::Down => {
            move_text_cursor_vertical(text.as_str(), cursor, true);
            false
        },
        KeyCode::Char(character) => {
            if key.modifiers.control {
                false
            } else {
                insert_char(text, cursor, character);
                true
            }
        },
        _ => false,
    }
}

/// What an Insert-mode key did.
#[derive(Debug, Clone, Copy, PartialEq, Eq, Structural)]
pub enum EditorInsertResult {
    Ignored,
    Moved,
    Changed,
    ExitInsert,
}

/// What an Insert-mode key makes of a buffer: Enter and Tab insert themselves,
/// and a character typed with Control or Alt is left alone.
pub open spec fn insert_edited(b: Buffer, key: KeyEvent) -> Buffer {
    match key.code {
        KeyCode::Esc => b,
        KeyCode::Enter => inserted(b, seq!['\n']),
        KeyCode::Tab => inserted(b, seq!['\t']),
        KeyCode::Char(_) => if key.modifiers.control || key.modifiers.alt {
            b
        } else {
            edited(b, key)
        },
        _ => edited(b, key),
    }
}

/// The result that goes with `insert_edited`.
pub open spec fn insert_result(b: Buffer, key: KeyEvent) -> EditorInsertResult {
    match key.code {
        KeyCode::Esc => EditorInsertResult::ExitInsert,
        KeyCode::Enter => EditorInsertResult::Changed,
        KeyCode::Tab => EditorInsertResult::Changed,
        KeyCode::Backspace => if b.at > 0 {
            EditorInsertResult::Changed
        } else {
            EditorInsertResult::Ignored
        },
        KeyCode::Delete => if b.at < b.text.len() {
            EditorInsertResult::Changed
        } else {
            EditorInsertResult::Ignored
        },
        KeyCode::Left | KeyCode::Right | KeyCode::Up | KeyCode::Down | KeyCode::Home
        | KeyCode::End => EditorInsertResult::Moved,
        KeyCode::Char(_) => if key.modifiers.control || key.modifiers.alt {
            EditorInsertResult::Ignored
        } else {
            EditorInsertResult::Changed
        },
        _ => EditorInsertResult::Ignored,
    }
}

/// Only a key reported as a change touches the text.
pub proof fn law_insert_mode_text_changes_are_reported(b: Buffer, key: KeyEvent)
    requires
        insert_result(b, key) != EditorInsertResult::Changed,
    ensures
        insert_edited(b, key).text == b.text,
{
}

/// Insert-mode input, shared by every embedded editor.
pub fn apply_editor_insert_key(text: &mut String, cursor: &mut usize, key: KeyEvent) -> (result:
    EditorInsertResult)
    requires
        boundary(old(text)@, *old(cursor) as int),
    ensures
        insert_edited(buffer(old(text)@, *old(cursor) as int), key).held(
            final(text)@,
            *final(cursor) as int,
        ),
        result == insert_result(buffer(old(text)@, *old(cursor) as int), key),
        boundary(final(text)@, *final(cursor) as int),
        buffer(final(text)@, *final(cursor) as int) == insert_edited(
            buffer(old(text)@, *old(cursor) as int),
            key,
        ),
        result != EditorInsertResult::Changed ==> *final(text) == *old(text),
        result == EditorInsertResult::Ignored || result == EditorInsertResult::ExitInsert
            ==> *final(cursor) == *old(cursor),
{
    match key.code {
        KeyCode::Esc => EditorInsertResult::ExitInsert,
        KeyCode::Enter => {
            insert_char(text, cursor, '\n');
            EditorInsertResult::Changed
        },
        KeyCode::Tab => {
            insert_char(text, cursor, '\t');
            EditorInsertResult::Changed
        },
        KeyCode::Backspace | KeyCode::Delete => {
            if edit_text(text, cursor, key) {
                EditorInsertResult::Changed
            } else {
                EditorInsertResult::Ignored
            }
        },
        KeyCode::Left | KeyCode::Right | KeyCode::Up | KeyCode::Down | KeyCode::Home
        | KeyCode::End => {
            let _changed = edit_text(text, cursor, key);
            EditorInsertResult::Moved
        },
        KeyCode::Char(_) => {
            if key.modifiers.control || key.modifiers.alt {
                EditorInsertResult::Ignored
            } else {
                let _changed = edit_text(text, cursor, key);
                EditorInsertResult::Changed
            }
        },
        _ => EditorInsertResult::Ignored,
    }
}

/// A character typed with Control or Alt never reaches a text in insert mode.
pub proof fn law_modified_characters_are_not_typed(b: Buffer, key: KeyEvent)
    requires
        key.code is Char,
        key.modifiers.control || key.modifiers.alt,
    ensures
        insert_edited(b, key) == b,
        insert_result(b, key) == EditorInsertResult::Ignored,
{
}

/// How many bytes of its line stand before a position.
pub open spec fn byte_column(t: Seq<char>, i: int) -> int {
    offset(t, i) - offset(t, line_start(t, i))
}

proof fn lemma_column_index(t: Seq<char>, from: int, to: int, column: int)
    requires
        0 <= from <= to <= t.len(),
        0 <= column,
    ensures
        from <= column_index(t, from, to, column) <= to,
        offset(t, column_index(t, from, to, column)) - offset(t, from) <= column,
        forall|j: int|
            column_index(t, from, to, column) < j <= to ==> #[trigger] offset(t, j) - offset(
                t,
                from,
            ) > column,
    decreases to - from,
{
    if to > from && offset(t, to) - offset(t, from) > column {
        lemma_column_index(t, from, to - 1, column);
    }
}

proof fn lemma_same_line(t: Seq<char>, i: int, j: int)
    requires
        0 <= i <= t.len(),
        0 <= j <= t.len(),
        line_number(t, i) == line_number(t, j),
    ensures
        line_start(t, i) == line_start(t, j),
        line_end(t, i) == line_end(t, j),
{
    lemma_line_of(t, i);
    lemma_line_of(t, j);
    lemma_line_end_from_start(t, i);
    lemma_line_end_from_start(t, j);
}

/// Up and Down go to the line before or behind, to the furthest place there that
/// is in no greater byte column; where there is no such line they stay.
pub proof fn law_vertical_movement_keeps_the_column(t: Seq<char>, i: int, down: bool)
    requires
        0 <= i <= t.len(),
    ensures
        ({
            let line = if down { line_number(t, i) + 1 } else { line_number(t, i) - 1 };
            let r = vertical(t, i, down);
            if 0 <= line < line_count(t) {
                &&& 0 <= r <= t.len()
                &&& line_number(t, r) == line
                &&& byte_column(t, r) <= byte_column(t, i)
                &&& forall|j: int|
                    0 <= j <= t.len() && line_number(t, j) == line && #[trigger] byte_column(t, j)
                        <= byte_column(t, i) ==> j <= r
            } else {
                r == i
            }
        }),
{
    let n = line_number(t, i);
    let start = line_start(t, i);
    let end = line_end(t, i);
    lemma_line_start(t, i);
    lemma_line_end(t, i);
    lemma_line_of(t, i);
    lemma_offset_monotone(t, start, i);
    let column = offset(t, i) - offset(t, start);
    let r = vertical(t, i, down);
    if down {
        if end < t.len() {
            assert(line_number(t, end + 1) == n + 1);
            lemma_line_number_monotone(t, end + 1, t.len() as int);
            let from = end + 1;
            let to = line_end(t, from);
            lemma_line_end(t, from);
            lemma_column_index(t, from, to, column);
            lemma_line_number_monotone(t, from, r);
            lemma_line_number_monotone(t, r, to);
            assert(line_start(t, from) == from);
            lemma_same_line(t, r, from);
            assert forall|j: int|
                0 <= j <= t.len() && line_number(t, j) == n + 1 && #[trigger] byte_column(t, j)
                    <= column implies j <= r by {
                lemma_same_line(t, j, from);
                lemma_line_start(t, j);
                lemma_line_end(t, j);
            }
        } else {
            assert(line_number(t, t.len() as int) == n);
        }
    } else if start > 0 {
        assert(t[start - 1] == '\n');
        assert(line_number(t, start) == line_number(t, start - 1) + 1);
        let to = start - 1;
        let from = line_start(t, to);
        lemma_line_start(t, to);
        lemma_line_number_monotone(t, 0, to);
        lemma_column_index(t, from, to, column);
        lemma_line_number_monotone(t, from, r);
        lemma_line_number_monotone(t, r, to);
        lemma_same_line(t, r, to);
        assert(line_end(t, to) == to);
        assert forall|j: int|
            0 <= j <= t.len() && line_number(t, j) == n - 1 && #[trigger] byte_column(t, j)
                <= column implies j <= r by {
            lemma_same_line(t, j, to);
            lemma_line_start(t, j);
            lemma_line_end(t, j);
        }
    }
}

/// A typed character stands where the cursor was and the cursor behind it;
/// Backspace takes the character before the cursor and Delete the one behind it.
/// Nothing else of the text changes.
pub proof fn law_editing_keys_change_one_character(b: Buffer, key: KeyEvent)
    requires
        b.valid(),
        !key.modifiers.control,
    ensures
        key.code matches KeyCode::Char(c) ==> edited(b, key).text == b.text.insert(b.at, c)
            && edited(b, key).at == b.at + 1,
        key.code == KeyCode::Backspace && b.at > 0 ==> edited(b, key).text == b.text.remove(
            b.at - 1,
        ) && edited(b, key).at == b.at - 1,
        key.code == KeyCode::Delete && b.at < b.text.len() ==> edited(b, key).text == b.text.remove(
            b.at,
        ) && edited(b, key).at == b.at,
        key.code == KeyCode::Backspace && b.at == 0 ==> edited(b, key) == b,
        key.code == KeyCode::Delete && b.at == b.text.len() ==> edited(b, key) == b,
{
    if let KeyCode::Char(c) = key.code {
        assert(edited(b, key).text =~= b.text.insert(b.at, c));
    }
    if key.code == KeyCode::Backspace && b.at > 0 {
        assert(edited(b, key).text =~= b.text.remove(b.at - 1));
    }
    if key.code == KeyCode::Delete && b.at < b.text.len() {
        assert(edited(b, key).text =~= b.text.remove(b.at));
    }
}

/// Left and Right move by one character, with Control by one word; Home and End
/// go to the ends of the line. None of them changes the text.
pub proof fn law_arrow_keys_move_the_cursor(b: Buffer, key: KeyEvent)
    requires
        b.valid(),
    ensures
        ({
            let to = edited(b, key).at;
            let control = key.modifiers.control;
            &&& key.code == KeyCode::Left && !control && b.at > 0 ==> to == b.at - 1
            &&& key.code == KeyCode::Left && !control && b.at == 0 ==> to == 0
            &&& key.code == KeyCode::Right && !control && b.at < b.text.len() ==> to == b.at + 1
            &&& key.code == KeyCode::Right && !control && b.at == b.text.len() ==> to == b.at
            &&& key.code == KeyCode::Left && control ==> is_word_before(b.text, b.at, to)
            &&& key.code == KeyCode::Right && control ==> is_word_after(b.text, b.at, to)
            &&& key.code == KeyCode::Home ==> to <= b.at && (to == 0 || b.text[to - 1] == '\n')
                && forall|k: int| to <= k < b.at ==> b.text[k] != '\n'
            &&& key.code == KeyCode::End ==> b.at <= to && (to == b.text.len() || b.text[to]
                == '\n') && forall|k: int| b.at <= k < to ==> b.text[k] != '\n'
        }),
        key.code == KeyCode::Left || key.code == KeyCode::Right || key.code == KeyCode::Home
            || key.code == KeyCode::End || key.code == KeyCode::Up || key.code == KeyCode::Down
            ==> edited(b, key).text == b.text,
{
    law_next_word_is_the_nearest(b.text, b.at);
    law_previous_word_is_the_nearest(b.text, b.at);
    lemma_line_start(b.text, b.at);
    lemma_line_end(b.text, b.at);
}

/// Up and Down change the line by one where there is one, and nothing otherwise.
pub proof fn law_vertical_keys_change_the_line(b: Buffer, key: KeyEvent)
    requires
        b.valid(),
    ensures
        key.code == KeyCode::Up && line_number(b.text, b.at) > 0 ==> line_number(
            b.text,
            edited(b, key).at,
        ) == line_number(b.text, b.at) - 1,
        key.code == KeyCode::Up && line_number(b.text, b.at) == 0 ==> edited(b, key).at == b.at,
        key.code == KeyCode::Down && line_number(b.text, b.at) + 1 < line_count(b.text)
            ==> line_number(b.text, edited(b, key).at) == line_number(b.text, b.at) + 1,
        key.code == KeyCode::Down && line_number(b.text, b.at) + 1 == line_count(b.text) ==> edited(
            b,
            key,
        ).at == b.at,
{
    lemma_line_of(b.text, b.at);
    law_vertical_movement_keeps_the_column(b.text, b.at, false);
    law_vertical_movement_keeps_the_column(b.text, b.at, true);
}

/// With Control, Backspace takes everything from the start of the word before the
/// cursor, and Delete everything up to the word behind it.
pub proof fn law_control_deletes_by_words(b: Buffer, key: KeyEvent)
    requires
        b.valid(),
        key.modifiers.control,
    ensures
        key.code == KeyCode::Backspace ==> {
            let p = edited(b, key).at;
            &&& is_word_before(b.text, b.at, p)
            &&& edited(b, key).text == b.text.take(p) + b.text.skip(b.at)
        },
        key.code == KeyCode::Delete ==> edited(b, key).at == b.at && exists|p: int|
            is_word_after(b.text, b.at, p) && edited(b, key).text == b.text.take(b.at)
                + #[trigger] b.text.skip(p),
        key.code is Char ==> edited(b, key) == b,
{
    law_next_word_is_the_nearest(b.text, b.at);
    law_previous_word_is_the_nearest(b.text, b.at);
    assert(b.text =~= b.text.take(b.at) + b.text.skip(b.at));
    let p = next_word(b.text, b.at);
    assert(is_word_after(b.text, b.at, p));
    if key.code == KeyCode::Delete {
        assert(edited(b, key).text == b.text.take(b.at) + b.text.skip(p));
    }
}

/// In insert mode Enter puts a line feed and Tab a tab at the cursor; Escape leaves
/// the mode and the text alone.
pub proof fn law_insert_mode_keys(b: Buffer, key: KeyEvent)
    requires
        b.valid(),
    ensures
        key.code == KeyCode::Enter ==> insert_edited(b, key).text == b.text.insert(b.at, '\n')
            && insert_edited(b, key).at == b.at + 1,
        key.code == KeyCode::Tab ==> insert_edited(b, key).text == b.text.insert(b.at, '\t')
            && insert_edited(b, key).at == b.at + 1,
        key.code matches KeyCode::Char(c) ==> !key.modifiers.control && !key.modifiers.alt
            ==> insert_edited(b, key).text == b.text.insert(b.at, c) && insert_edited(b, key).at
            == b.at + 1,
        insert_result(b, key) == EditorInsertResult::ExitInsert <==> key.code == KeyCode::Esc,
        key.code == KeyCode::Esc ==> insert_edited(b, key) == b,
        insert_result(b, key) == EditorInsertResult::Changed <==> insert_edited(b, key).text.len()
            != b.text.len(),
{
    assert(insert_edited(b, key).text.len() != b.text.len() <==> insert_result(b, key)
        == EditorInsertResult::Changed) by {
        lemma_words(b.text, b.at);
    }
    if key.code == KeyCode::Enter {
        assert(insert_edited(b, key).text =~= b.text.insert(b.at, '\n'));
    }
    if key.code == KeyCode::Tab {
        assert(insert_edited(b, key).text =~= b.text.insert(b.at, '\t'));
    }
    if let KeyCode::Char(c) = key.code {
        if !key.modifiers.control && !key.modifiers.alt {
            assert(insert_edited(b, key).text =~= b.text.insert(b.at, c));
        }
    }
}

} // verus!
