//! The editor of the configuration file.

use vstd::prelude::*;
use crate::actions::UiAction;
use crate::background::theme_to_restore;
use crate::chars::{trim, trimmed};
use crate::keys::{KeyCode, KeyEvent};
use crate::lines::{
    config_editor_line_end, config_editor_line_start, line_end, line_start, next_word,
    next_word_boundary, prev_word, prev_word_boundary,
};
use crate::model::opt_text;
use crate::navigation::{command_step, help_toggled};
use crate::papers::toasted;
use crate::state::{App, Command, ConfigEditor};
use crate::text::{
    boundary, boundary_before, boundary_below, byte_len, byte_offset, char_index, group_points,
    index, is_boundary, lemma_ends, lemma_index, lemma_offset, lemma_offset_monotone, offset,
    same_text, text_len, to_chars,
};
use crate::text_edit::{
    apply_editor_insert_key, buffer, edit_text, edited, insert_edited, move_text_cursor_vertical,
    law_editing_keys_change_one_character, remove_range, removed, vertical, Buffer,
};
use crate::wrap::{
    cursor_visual_position, move_by_rows, moved_by_rows, page_delta, page_rows, visual_column,
};

verus! {

broadcast use group_points;

/// How many states of the text the history keeps.
pub const CONFIG_HISTORY_LIMIT: usize = 50;

/// The text and cursor of the editor.
pub open spec fn config_buf(c: ConfigEditor) -> Buffer {
    buffer(c.text@, c.cursor as int)
}

/// The history has the entry that its index names, or none at all.
pub open spec fn history_wf(c: ConfigEditor) -> bool {
    c.history_idx < c.history@.len() || c.history@.len() == 0 && c.history_idx < usize::MAX
}

/// The cursor stands on a character boundary and the history is in order.
pub open spec fn config_wf(c: ConfigEditor) -> bool {
    boundary(c.text@, c.cursor as int) && history_wf(c)
}

/// The cursor is at index `at` of the same text.
pub open spec fn config_moved(c: ConfigEditor, at: int, post: ConfigEditor) -> bool {
    &&& post == ConfigEditor { cursor: post.cursor, ..c }
    &&& post.cursor == offset(c.text@, at)
    &&& boundary(post.text@, post.cursor as int)
}

/// The column that vertical movement keeps to.
pub open spec fn goal_of(c: ConfigEditor, w: int) -> int {
    match c.goal_column {
        Some(goal) => goal as int,
        None => visual_column(c.text@, config_buf(c).at, w),
    }
}

/// The width that lines wrap at.
pub open spec fn config_width(c: ConfigEditor) -> int {
    if c.wrap_width > 1 {
        c.wrap_width as int
    } else {
        1
    }
}

/// The cursor moved by `delta` rows, which remembers its column.
pub open spec fn config_rows_step(c: ConfigEditor, delta: int, post: ConfigEditor) -> bool {
    let w = config_width(c);
    config_moved(
        ConfigEditor { goal_column: Some(goal_of(c, w) as usize), ..c },
        moved_by_rows(c.text@, config_buf(c).at, w, delta, goal_of(c, w)),
        post,
    )
}

fn move_rows(c: &mut ConfigEditor, row_delta: isize)
    requires
        boundary(old(c).text@, old(c).cursor as int),
    ensures
        config_rows_step(*old(c), row_delta as int, *final(c)),
{
    let w: usize = if c.wrap_width > 1 { c.wrap_width } else { 1 };
    let text = c.text.as_str();
    let (_row, column) = cursor_visual_position(text, c.cursor, w);
    let goal: usize = match c.goal_column {
        Some(goal) => goal,
        None => column,
    };
    c.cursor = move_by_rows(text, c.cursor, w, row_delta, goal);
    c.goal_column = Some(goal);
}

fn move_pages(c: &mut ConfigEditor, direction: isize)
    requires
        boundary(old(c).text@, old(c).cursor as int),
    ensures
        config_rows_step(
            *old(c),
            page_delta(direction as int, old(c).viewport_height as int),
            *final(c),
        ),
{
    let delta: isize = page_rows(direction, c.viewport_height);
    move_rows(c, delta);
}

/// Where a move to the line above or below leads.
pub open spec fn logical_line_target(b: Buffer, direction: int) -> int {
    if direction < 0 {
        vertical(b.text, b.at, false)
    } else if direction > 0 {
        vertical(b.text, b.at, true)
    } else {
        b.at
    }
}

fn move_line(c: &mut ConfigEditor, direction: isize)
    requires
        boundary(old(c).text@, old(c).cursor as int),
    ensures
        config_moved(
            *old(c),
            logical_line_target(config_buf(*old(c)), direction as int),
            *final(c),
        ),
{
    if direction < 0 {
        move_text_cursor_vertical(c.text.as_str(), &mut c.cursor, false);
    } else if direction > 0 {
        move_text_cursor_vertical(c.text.as_str(), &mut c.cursor, true);
    }
}

/// The history with the text at its end: what could have been redone goes, and
/// so does the oldest entry when there are too many.
pub open spec fn history_with(history: Seq<String>, idx: int, text: String) -> Seq<String> {
    let kept = if idx + 1 < history.len() { history.take(idx + 1) } else { history };
    let grown = kept.push(text);
    if grown.len() > CONFIG_HISTORY_LIMIT {
        grown.drop_first()
    } else {
        grown
    }
}

/// The text is put into the history unless it is the current entry.
pub open spec fn history_step(c: ConfigEditor, post: ConfigEditor) -> bool {
    if c.history@.len() > 0 && c.history@[c.history_idx as int]@ == c.text@ {
        post == c
    } else {
        &&& post == ConfigEditor { history: post.history, history_idx: post.history_idx, ..c }
        &&& post.history@ == history_with(c.history@, c.history_idx as int, c.text)
        &&& post.history_idx == post.history@.len() - 1
    }
}

fn record_history(c: &mut ConfigEditor)
    requires
        history_wf(*old(c)),
    ensures
        history_step(*old(c), *final(c)),
        history_wf(*final(c)),
        final(c).history@.len() > 0,
        final(c).history@[final(c).history_idx as int]@ == old(c).text@,
{
    let ghost pre = *c;
    if c.history.len() > 0 && same_text(c.history[c.history_idx].as_str(), c.text.as_str()) {
        return ;
    }
    let text = c.text.clone();
    if c.history_idx < c.history.len() && c.history_idx + 1 < c.history.len() {
        c.history.truncate(c.history_idx + 1);
        assert(c.history@ =~= pre.history@.take(pre.history_idx + 1));
    }
    c.history.push(text);
    if c.history.len() > CONFIG_HISTORY_LIMIT {
        let ghost grown = c.history@;
        c.history.remove(0);
        assert(c.history@ =~= grown.drop_first());
    }
    c.history_idx = c.history.len() - 1;
}

/// The history never holds more than its limit once a text was put in.
pub proof fn law_history_is_bounded(history: Seq<String>, idx: int, text: String)
    requires
        history.len() <= CONFIG_HISTORY_LIMIT,
        0 <= idx,
    ensures
        0 < history_with(history, idx, text).len() <= CONFIG_HISTORY_LIMIT,
        history_with(history, idx, text).last() == text,
{
}

/// The editor shows entry `idx` of the history, its cursor not past the end.
pub open spec fn history_shown(c: ConfigEditor, idx: int, post: ConfigEditor) -> bool {
    let text = c.history@[idx];
    post == ConfigEditor {
        text,
        cursor: if c.cursor <= byte_len(text@) { c.cursor } else { byte_len(text@) as usize },
        history_idx: idx as usize,
        ..c
    }
}

fn show_history(c: &mut ConfigEditor, idx: usize)
    requires
        idx < old(c).history@.len(),
    ensures
        history_shown(*old(c), idx as int, *final(c)),
{
    c.history_idx = idx;
    c.text = c.history[idx].clone();
    let length: usize = text_len(c.text.as_str());
    if c.cursor > length {
        c.cursor = length;
    }
}

/// Stepping back in the history and forth again shows the same text.
pub proof fn law_history_back_and_forth(a: ConfigEditor, b: ConfigEditor, c: ConfigEditor)
    requires
        0 < a.history_idx < a.history@.len(),
        a.text@ == a.history@[a.history_idx as int]@,
        history_shown(a, a.history_idx - 1, b),
        history_shown(b, b.history_idx + 1, c),
    ensures
        c.text@ == a.text@,
        c.history == a.history,
        c.history_idx == a.history_idx,
{
}

/// Whether a key of the normal mode finds what it needs: the cursor on a character
/// boundary where the key reads it, and the entry of the history that it asks for.
pub open spec fn normal_takes(c: ConfigEditor, key: KeyEvent) -> bool {
    let placed = boundary(c.text@, c.cursor as int);
    let before_end = c.cursor < byte_len(c.text@);
    let control = key.modifiers.control;
    match key.code {
        KeyCode::Home | KeyCode::End | KeyCode::Up | KeyCode::Down | KeyCode::PageUp
        | KeyCode::PageDown => placed,
        KeyCode::Left => control ==> placed,
        KeyCode::Right => control || before_end ==> placed,
        KeyCode::Char(ch) => if ch == 'h' {
            control ==> placed
        } else if ch == 'l' {
            control || before_end ==> placed
        } else if ch == 'k' || ch == 'j' {
            placed
        } else if ch == 'x' {
            before_end ==> placed && history_wf(c)
        } else if ch == 'u' {
            c.history_idx <= c.history@.len()
        } else if ch == 'r' && control {
            c.history_idx < usize::MAX
        } else {
            true
        },
        _ => true,
    }
}

/// Whether a key of the insert mode reads the cursor.
pub open spec fn insert_reads(c: ConfigEditor, key: KeyEvent) -> bool {
    match key.code {
        KeyCode::Char(_) => !key.modifiers.control && !key.modifiers.alt,
        KeyCode::Delete => c.cursor < byte_len(c.text@),
        KeyCode::Backspace | KeyCode::Enter | KeyCode::Tab | KeyCode::Left | KeyCode::Right
        | KeyCode::Up | KeyCode::Down | KeyCode::Home | KeyCode::End | KeyCode::PageUp
        | KeyCode::PageDown => true,
        _ => false,
    }
}

/// Whether a key of the insert mode finds what it needs.
pub open spec fn insert_takes(c: ConfigEditor, key: KeyEvent) -> bool {
    &&& insert_reads(c, key) ==> boundary(c.text@, c.cursor as int)
    &&& insert_key_recorded(key.code) ==> history_wf(c)
}

/// Whether the editor can take a key: its command line always does.
pub open spec fn config_takes(c: ConfigEditor, key: KeyEvent) -> bool {
    if c.command is Some {
        true
    } else if c.insert_mode {
        insert_takes(c, key)
    } else {
        normal_takes(c, key)
    }
}

/// What a key of the normal mode does; the boolean says that the page loses
/// the focus.
pub open spec fn config_normal_step(
    c: ConfigEditor,
    key: KeyEvent,
    post: ConfigEditor,
    left: bool,
) -> bool {
    let b = config_buf(c);
    let free = ConfigEditor { goal_column: None, ..c };
    let control = key.modifiers.control;
    match key.code {
        KeyCode::Esc => post == ConfigEditor { focused: false, ..c } && !left,
        KeyCode::Char(ch) => if ch == 'i' {
            post == ConfigEditor { insert_mode: true, ..free } && !left
        } else if ch == ':' {
            &&& post == ConfigEditor { command: post.command, ..c }
            &&& post.command matches Some(command) && command@.len() == 0
            &&& !left
        } else if ch == 'h' {
            config_left_step(free, control, post) && !left
        } else if ch == 'l' {
            config_right_step(free, control, post) && !left
        } else if ch == 'k' {
            config_moved(free, vertical(b.text, b.at, false), post) && !left
        } else if ch == 'j' {
            config_moved(free, vertical(b.text, b.at, true), post) && !left
        } else if ch == 'x' {
            config_removed_char(c, post) && !left
        } else if ch == 'u' {
            !left && if c.history_idx > 0 {
                history_shown(free, c.history_idx - 1, post)
            } else {
                post == free
            }
        } else if ch == 'r' && control {
            !left && if c.history_idx + 1 < c.history@.len() {
                history_shown(free, c.history_idx + 1, post)
            } else {
                post == free
            }
        } else if ch == 'q' {
            post == ConfigEditor { focused: false, ..free } && left
        } else {
            post == c && !left
        },
        KeyCode::Left => config_left_step(free, control, post) && !left,
        KeyCode::Right => config_right_step(free, control, post) && !left,
        KeyCode::Home => config_moved(free, line_start(b.text, b.at), post) && !left,
        KeyCode::End => config_moved(free, line_end(b.text, b.at), post) && !left,
        KeyCode::Up => config_moved(free, vertical(b.text, b.at, false), post) && !left,
        KeyCode::Down => config_moved(free, vertical(b.text, b.at, true), post) && !left,
        KeyCode::PageUp => config_rows_step(c, page_delta(-1, c.viewport_height as int), post)
            && !left,
        KeyCode::PageDown => config_rows_step(c, page_delta(1, c.viewport_height as int), post)
            && !left,
        _ => post == c && !left,
    }
}

/// There is a line break at a place of the text.
pub open spec fn breaks_at(text: Seq<char>, at: int) -> bool {
    at < byte_len(text) && text[index(text, at)] == '\n'
}

/// What Left does: it moves by a word, or to the character before, but not past the
/// line start. A cursor within a character moves to the start of that.
pub open spec fn config_left_step(c: ConfigEditor, by_word: bool, post: ConfigEditor) -> bool {
    if by_word {
        config_moved(c, prev_word(c.text@, config_buf(c).at), post)
    } else if c.cursor == 0 {
        post == c
    } else {
        exists|before: int| #[trigger]
            boundary_below(c.text@, c.cursor as int, before) && post == ConfigEditor {
                cursor: if breaks_at(c.text@, before) {
                    c.cursor
                } else {
                    before as usize
                },
                ..c
            }
    }
}

/// What Right does: it moves by a word, or by a character but not past the line end.
pub open spec fn config_right_step(c: ConfigEditor, by_word: bool, post: ConfigEditor) -> bool {
    let b = config_buf(c);
    if by_word {
        config_moved(c, next_word(b.text, b.at), post)
    } else if c.cursor >= byte_len(c.text@) || breaks_at(c.text@, c.cursor as int) {
        post == c
    } else {
        config_moved(c, b.at + 1, post)
    }
}

/// The character after the cursor is gone, and the text before that is in the
/// history.
pub open spec fn config_removed_char(c: ConfigEditor, post: ConfigEditor) -> bool {
    let b = config_buf(c);
    if c.cursor < byte_len(c.text@) {
        &&& post == ConfigEditor {
            text: post.text,
            history: post.history,
            history_idx: post.history_idx,
            goal_column: None,
            ..c
        }
        &&& history_step(
            c,
            ConfigEditor { history: post.history, history_idx: post.history_idx, ..c },
        )
        &&& post.text@ == removed(b, b.at, b.at + 1).text
        &&& boundary(post.text@, post.cursor as int)
    } else {
        post == ConfigEditor { goal_column: None, ..c }
    }
}

fn remove_char(c: &mut ConfigEditor)
    requires
        old(c).cursor < byte_len(old(c).text@) ==> config_wf(*old(c)),
    ensures
        config_removed_char(*old(c), *final(c)),
        history_wf(*old(c)) ==> history_wf(*final(c)),
        config_wf(*old(c)) ==> config_wf(*final(c)),
{
    let ghost b = config_buf(*c);
    if c.cursor < text_len(c.text.as_str()) {
        let i: usize = char_index(c.text.as_str(), c.cursor);
        proof {
            lemma_index_inside(c.text@, c.cursor as int);
        }
        record_history(c);
        let length: usize = to_chars(c.text.as_str()).len();
        assert(i < length);
        let cursor: usize = c.cursor;
        let next: usize = byte_offset(c.text.as_str(), i + 1);
        remove_range(&mut c.text, &mut c.cursor, cursor, next);
    }
    c.goal_column = None;
}

/// A boundary before the end has a character after it.
proof fn lemma_index_inside(s: Seq<char>, b: int)
    requires
        boundary(s, b),
        b < byte_len(s),
    ensures
        0 <= index(s, b) < s.len(),
{
    lemma_ends(s);
    lemma_index(s, b);
}

/// Whether a key shows another entry of the history.
pub open spec fn steps_history(key: KeyEvent) -> bool {
    key.code == KeyCode::Char('u') || key.code == KeyCode::Char('r') && key.modifiers.control
}

fn normal_key(c: &mut ConfigEditor, key: KeyEvent) -> (left: bool)
    requires
        normal_takes(*old(c), key),
    ensures
        config_normal_step(*old(c), key, *final(c), left),
        history_wf(*old(c)) ==> history_wf(*final(c)),
        config_wf(*old(c)) && !steps_history(key) ==> config_wf(*final(c)),
{
    let ghost b = config_buf(*c);
    let control = key.modifiers.control;
    match key.code {
        KeyCode::Esc => {
            c.focused = false;
            false
        },
        KeyCode::Char(ch) => {
            if ch == 'i' {
                c.insert_mode = true;
                c.goal_column = None;
                false
            } else if ch == ':' {
                c.command = Some(String::new());
                false
            } else if ch == 'h' {
                move_left(c, control);
                false
            } else if ch == 'l' {
                move_right(c, control);
                false
            } else if ch == 'k' {
                move_line(c, -1);
                c.goal_column = None;
                false
            } else if ch == 'j' {
                move_line(c, 1);
                c.goal_column = None;
                false
            } else if ch == 'x' {
                remove_char(c);
                false
            } else if ch == 'u' {
                if c.history_idx > 0 {
                    let idx: usize = c.history_idx - 1;
                    show_history(c, idx);
                }
                c.goal_column = None;
                false
            } else if ch == 'r' && control {
                if c.history_idx < c.history.len() && c.history_idx + 1 < c.history.len() {
                    let idx: usize = c.history_idx + 1;
                    show_history(c, idx);
                }
                c.goal_column = None;
                false
            } else if ch == 'q' {
                c.focused = false;
                c.goal_column = None;
                true
            } else {
                false
            }
        },
        KeyCode::Left => {
            move_left(c, control);
            false
        },
        KeyCode::Right => {
            move_right(c, control);
            false
        },
        KeyCode::Home => {
            c.cursor = config_editor_line_start(c.text.as_str(), c.cursor);
            c.goal_column = None;
            false
        },
        KeyCode::End => {
            c.cursor = config_editor_line_end(c.text.as_str(), c.cursor);
            c.goal_column = None;
            false
        },
        KeyCode::Up => {
            move_line(c, -1);
            c.goal_column = None;
            false
        },
        KeyCode::Down => {
            move_line(c, 1);
            c.goal_column = None;
            false
        },
        KeyCode::PageUp => {
            move_pages(c, -1);
            false
        },
        KeyCode::PageDown => {
            move_pages(c, 1);
            false
        },
        _ => false,
    }
}

fn move_left(c: &mut ConfigEditor, by_word: bool)
    requires
        by_word ==> boundary(old(c).text@, old(c).cursor as int),
    ensures
        config_left_step(ConfigEditor { goal_column: None, ..*old(c) }, by_word, *final(c)),
        boundary(old(c).text@, old(c).cursor as int) ==> boundary(
            final(c).text@,
            final(c).cursor as int,
        ),
{
    c.goal_column = None;
    if by_word {
        c.cursor = prev_word_boundary(c.text.as_str(), c.cursor);
    } else if c.cursor > 0 {
        let before: usize = boundary_before(c.text.as_str(), c.cursor);
        if !is_break(c.text.as_str(), before) {
            c.cursor = before;
        }
    }
}

/// Whether there is a line break at a place of the text.
fn is_break(text: &str, at: usize) -> (r: bool)
    requires
        boundary(text@, at as int),
    ensures
        r == breaks_at(text@, at as int),
{
    if at >= text_len(text) {
        return false;
    }
    proof {
        lemma_index_inside(text@, at as int);
    }
    let i: usize = char_index(text, at);
    to_chars(text)[i] == '\n'
}

fn move_right(c: &mut ConfigEditor, by_word: bool)
    requires
        by_word || old(c).cursor < byte_len(old(c).text@) ==> boundary(
            old(c).text@,
            old(c).cursor as int,
        ),
    ensures
        config_right_step(ConfigEditor { goal_column: None, ..*old(c) }, by_word, *final(c)),
        boundary(old(c).text@, old(c).cursor as int) ==> boundary(
            final(c).text@,
            final(c).cursor as int,
        ),
{
    c.goal_column = None;
    if by_word {
        c.cursor = next_word_boundary(c.text.as_str(), c.cursor);
    } else if c.cursor < text_len(c.text.as_str()) {
        proof {
            lemma_index_inside(c.text@, c.cursor as int);
        }
        if !is_break(c.text.as_str(), c.cursor) {
            let i: usize = char_index(c.text.as_str(), c.cursor);
            let length: usize = to_chars(c.text.as_str()).len();
            assert(i < length);
            c.cursor = byte_offset(c.text.as_str(), i + 1);
        }
    }
}

/// Whether a key of the insert mode is put into the history before it acts.
pub open spec fn insert_key_recorded(code: KeyCode) -> bool {
    match code {
        KeyCode::Backspace | KeyCode::Delete | KeyCode::Enter | KeyCode::Tab | KeyCode::Char(_) =>
        true,
        _ => false,
    }
}

/// What a key of the insert mode does.
pub open spec fn config_insert_step(c: ConfigEditor, key: KeyEvent, post: ConfigEditor) -> bool {
    match key.code {
        KeyCode::Up => config_rows_step(c, -1, post),
        KeyCode::Down => config_rows_step(c, 1, post),
        KeyCode::PageUp => config_rows_step(c, page_delta(-1, c.viewport_height as int), post),
        KeyCode::PageDown => config_rows_step(c, page_delta(1, c.viewport_height as int), post),
        _ => {
            let b = config_buf(c);
            &&& post == ConfigEditor {
                text: post.text,
                cursor: post.cursor,
                history: post.history,
                history_idx: post.history_idx,
                goal_column: None,
                insert_mode: c.insert_mode && key.code != KeyCode::Esc,
                ..c
            }
            &&& if insert_key_recorded(key.code) {
                history_step(
                    c,
                    ConfigEditor { history: post.history, history_idx: post.history_idx, ..c },
                )
            } else {
                post.history == c.history && post.history_idx == c.history_idx
            }
            &&& if insert_reads(c, key) {
                &&& insert_edited(b, key).held(post.text@, post.cursor as int)
                &&& boundary(post.text@, post.cursor as int)
            } else {
                post.text == c.text && post.cursor == c.cursor
            }
        },
    }
}

fn reads_cursor(c: &ConfigEditor, key: KeyEvent) -> (r: bool)
    ensures
        r == insert_reads(*c, key),
{
    match key.code {
        KeyCode::Char(_) => !key.modifiers.control && !key.modifiers.alt,
        KeyCode::Delete => c.cursor < text_len(c.text.as_str()),
        KeyCode::Backspace | KeyCode::Enter | KeyCode::Tab | KeyCode::Left | KeyCode::Right
        | KeyCode::Up | KeyCode::Down | KeyCode::Home | KeyCode::End | KeyCode::PageUp
        | KeyCode::PageDown => true,
        _ => false,
    }
}

fn insert_key(c: &mut ConfigEditor, key: KeyEvent)
    requires
        insert_takes(*old(c), key),
    ensures
        config_insert_step(*old(c), key, *final(c)),
        history_wf(*old(c)) ==> history_wf(*final(c)),
        config_wf(*old(c)) ==> config_wf(*final(c)),
{
    match key.code {
        KeyCode::Up => {
            move_rows(c, -1);
            return ;
        },
        KeyCode::Down => {
            move_rows(c, 1);
            return ;
        },
        KeyCode::PageUp => {
            move_pages(c, -1);
            return ;
        },
        KeyCode::PageDown => {
            move_pages(c, 1);
            return ;
        },
        _ => {},
    }
    let recorded = match key.code {
        KeyCode::Backspace | KeyCode::Delete | KeyCode::Enter | KeyCode::Tab | KeyCode::Char(_) =>
        true,
        _ => false,
    };
    if recorded {
        record_history(c);
    }
    if reads_cursor(c, key) {
        let _result = apply_editor_insert_key(&mut c.text, &mut c.cursor, key);
    } else if key.code == KeyCode::Esc {
        c.insert_mode = false;
    }
    c.goal_column = None;
}

/// The editor with a text as it is on disk, and nothing of what was there.
pub open spec fn config_reset(c: ConfigEditor, text: Seq<char>, post: ConfigEditor) -> bool {
    &&& post == ConfigEditor {
        text: post.text,
        cursor: 0,
        scroll: 0,
        history: post.history,
        history_idx: 0,
        command: None,
        insert_mode: false,
        error: None,
        goal_column: None,
        ..c
    }
    &&& post.text@ == text
    &&& post.history@ == seq![post.text]
}

fn reset(c: &mut ConfigEditor, text: String)
    ensures
        config_reset(*old(c), text@, *final(c)),
        config_wf(*final(c)),
{
    c.text = text;
    c.cursor = 0;
    c.scroll = 0;
    let mut history: Vec<String> = Vec::new();
    history.push(c.text.clone());
    assert(history@ =~= seq![c.text]);
    c.history = history;
    c.history_idx = 0;
    c.command = None;
    c.insert_mode = false;
    c.error = None;
    c.goal_column = None;
    proof {
        crate::text::lemma_ends(c.text@);
    }
}

/// Everything but the configuration editor stays.
pub open spec fn only_config(pre: App, post: App) -> bool {
    post == App { config_editor: post.config_editor, ..pre }
}

/// Moves the cursor by visual rows, keeping its column.
pub fn move_config_editor_vertical(app: &mut App, row_delta: isize)
    requires
        boundary(old(app).config_editor.text@, old(app).config_editor.cursor as int),
    ensures
        only_config(*old(app), *final(app)),
        config_rows_step(
            old(app).config_editor,
            row_delta as int,
            final(app).config_editor,
        ),
{
    move_rows(&mut app.config_editor, row_delta);
}

/// Moves the cursor by pages of visible rows.
pub fn move_config_editor_page(app: &mut App, direction: isize)
    requires
        boundary(old(app).config_editor.text@, old(app).config_editor.cursor as int),
    ensures
        only_config(*old(app), *final(app)),
        config_rows_step(
            old(app).config_editor,
            page_delta(direction as int, old(app).config_editor.viewport_height as int),
            final(app).config_editor,
        ),
{
    move_pages(&mut app.config_editor, direction);
}

/// Forgets the column that vertical movement keeps to.
pub fn reset_config_editor_goal_column(app: &mut App)
    ensures
        *final(app) == (App {
            config_editor: ConfigEditor { goal_column: None, ..old(app).config_editor },
            ..*old(app)
        }),
{
    app.config_editor.goal_column = None;
}

/// Moves the cursor to the line above or below.
pub fn move_config_editor_logical_line(app: &mut App, direction: isize)
    requires
        boundary(old(app).config_editor.text@, old(app).config_editor.cursor as int),
    ensures
        only_config(*old(app), *final(app)),
        config_moved(
            old(app).config_editor,
            logical_line_target(config_buf(old(app).config_editor), direction as int),
            final(app).config_editor,
        ),
{
    move_line(&mut app.config_editor, direction);
}

/// Replaces the whole state of the editor by a text as it is on disk.
pub fn reset_config_editor_buffer(app: &mut App, text: String)
    ensures
        only_config(*old(app), *final(app)),
        config_reset(old(app).config_editor, text@, final(app).config_editor),
        config_wf(final(app).config_editor),
{
    reset(&mut app.config_editor, text);
}

/// What reloading from disk leaves: the text, or nothing and the reason.
pub open spec fn config_reload_step(
    c: ConfigEditor,
    loaded: Result<Seq<char>, Seq<char>>,
    post: ConfigEditor,
) -> bool {
    match loaded {
        Ok(text) => config_reset(c, text, post),
        Err(error) => {
            &&& config_reset(c, Seq::empty(), ConfigEditor { error: None, ..post })
            &&& post.error matches Some(message) && message@
                == "Could not reload configuration: "@ + error
        },
    }
}

/// The characters of a result.
pub open spec fn result_text(r: Result<String, String>) -> Result<Seq<char>, Seq<char>> {
    match r {
        Ok(s) => Ok(s@),
        Err(s) => Err(s@),
    }
}

/// Takes over what reading the configuration file gave.
pub fn reload_config_editor_buffer(app: &mut App, loaded: Result<String, String>)
    ensures
        only_config(*old(app), *final(app)),
        config_reload_step(
            old(app).config_editor,
            result_text(loaded),
            final(app).config_editor,
        ),
        config_wf(final(app).config_editor),
{
    match loaded {
        Ok(text) => reset(&mut app.config_editor, text),
        Err(error) => {
            reset(&mut app.config_editor, String::new());
            app.config_editor.error = Some(message("Could not reload configuration: ", &error));
        },
    }
}

/// `prefix` followed by `detail`.
pub fn message(prefix: &str, detail: &str) -> (r: String)
    ensures
        r@ == prefix@ + detail@,
{
    let mut r = prefix.to_owned();
    r.append(detail);
    r
}

/// Puts the text into the history unless it is the current entry.
pub fn record_config_history(app: &mut App)
    requires
        history_wf(old(app).config_editor),
    ensures
        only_config(*old(app), *final(app)),
        history_step(old(app).config_editor, final(app).config_editor),
        history_wf(final(app).config_editor),
        final(app).config_editor.history@.len() > 0,
{
    record_history(&mut app.config_editor);
}

/// Handles a key in the editor's normal mode.
pub fn handle_config_editor_normal_key(app: &mut App, key: KeyEvent)
    requires
        normal_takes(old(app).config_editor, key),
    ensures
        ({
            let left = key.code == KeyCode::Char('q');
            &&& *final(app) == (App {
                config_editor: final(app).config_editor,
                content_focused: old(app).content_focused && !left,
                ..*old(app)
            })
            &&& config_normal_step(
                old(app).config_editor,
                key,
                final(app).config_editor,
                left,
            )
        }),
        history_wf(old(app).config_editor) ==> history_wf(final(app).config_editor),
        config_wf(old(app).config_editor) && !steps_history(key) ==> config_wf(
            final(app).config_editor,
        ),
{
    if normal_key(&mut app.config_editor, key) {
        app.content_focused = false;
    }
}

/// Handles a key in the editor's insert mode.
pub fn handle_config_editor_insert_key(app: &mut App, key: KeyEvent)
    requires
        insert_takes(old(app).config_editor, key),
    ensures
        only_config(*old(app), *final(app)),
        config_insert_step(old(app).config_editor, key, final(app).config_editor),
        history_wf(old(app).config_editor) ==> history_wf(final(app).config_editor),
        config_wf(old(app).config_editor) ==> config_wf(final(app).config_editor),
{
    insert_key(&mut app.config_editor, key);
}

/// What a key does to the command line that `:` opened; a command comes back
/// to be executed.
pub open spec fn config_command_key_step(
    c: ConfigEditor,
    key: KeyEvent,
    post: ConfigEditor,
    run: Option<Seq<char>>,
) -> bool {
    let command = c.command->0@;
    match key.code {
        KeyCode::Esc => post == ConfigEditor { command: None, ..c } && run is None,
        KeyCode::Char(ch) => {
            &&& post == ConfigEditor { command: post.command, ..c }
            &&& opt_text(post.command) == Some(command.push(ch))
            &&& run is None
        },
        KeyCode::Backspace | KeyCode::Delete => {
            &&& post == ConfigEditor { command: post.command, ..c }
            &&& opt_text(post.command) == Some(
                edited(Buffer { text: command, at: command.len() as int }, key).text,
            )
            &&& run is None
        },
        KeyCode::Enter => post == c && run == Some(command),
        _ => post == c && run is None,
    }
}

/// Edits the command line; Enter hands the command back.
pub fn handle_config_editor_command(app: &mut App, key: KeyEvent) -> (run: Option<String>)
    ensures
        only_config(*old(app), *final(app)),
        old(app).config_editor.command is None ==> run is None && *final(app) == *old(app),
        old(app).config_editor.command is Some ==> config_command_key_step(
            old(app).config_editor,
            key,
            final(app).config_editor,
            opt_text(run),
        ),
{
    let mut command: String = match &app.config_editor.command {
        None => return None,
        Some(command) => command.clone(),
    };
    match key.code {
        KeyCode::Esc => {
            app.config_editor.command = None;
            None
        },
        KeyCode::Char(character) => {
            command.push(character);
            app.config_editor.command = Some(command);
            None
        },
        KeyCode::Backspace | KeyCode::Delete => {
            let mut cursor: usize = text_len(command.as_str());
            let _changed = edit_text(&mut command, &mut cursor, key);
            app.config_editor.command = Some(command);
            None
        },
        KeyCode::Enter => Some(command),
        _ => None,
    }
}

/// A command of the configuration editor.
#[derive(Debug, Clone, Copy, PartialEq, Eq, Structural)]
pub enum ConfigCommand {
    Write,
    WriteQuit,
    Quit,
    Unknown,
}

/// The command that a command line names.
pub open spec fn config_command_of(line: Seq<char>) -> ConfigCommand {
    let name = trimmed(line);
    if name == "w"@ {
        ConfigCommand::Write
    } else if name == "wq"@ {
        ConfigCommand::WriteQuit
    } else if name == "q"@ {
        ConfigCommand::Quit
    } else {
        ConfigCommand::Unknown
    }
}

/// Closes the command line and says which command it held.
pub fn begin_config_editor_command(app: &mut App, line: &str) -> (command: ConfigCommand)
    ensures
        command == config_command_of(line@),
        *final(app) == (App {
            config_editor: ConfigEditor { command: None, ..old(app).config_editor },
            ..*old(app)
        }),
{
    app.config_editor.command = None;
    let name = trim(line);
    if same_text(name.as_str(), "w") {
        ConfigCommand::Write
    } else if same_text(name.as_str(), "wq") {
        ConfigCommand::WriteQuit
    } else if same_text(name.as_str(), "q") {
        ConfigCommand::Quit
    } else {
        ConfigCommand::Unknown
    }
}

/// How writing the configuration went; a written one comes with its canonical
/// text and the result of applying it.
#[derive(Debug)]
pub enum ConfigWrite {
    InvalidToml(String),
    SerializationFailed(String),
    WriteFailed(String),
    Written { canonical: String, applied: Result<(), String> },
}

/// What a finished write leaves behind.
pub open spec fn config_written_step(
    pre: App,
    quit: bool,
    outcome: ConfigWrite,
    post: App,
    action: Option<UiAction>,
) -> bool {
    let c = pre.config_editor;
    match outcome {
        ConfigWrite::InvalidToml(e) => {
            &&& config_failed(pre, "Invalid TOML: "@ + e@, post)
            &&& action is None
        },
        ConfigWrite::SerializationFailed(e) => {
            &&& config_failed(pre, "Serialization failed: "@ + e@, post)
            &&& action is None
        },
        ConfigWrite::WriteFailed(e) => {
            &&& config_failed(pre, "Write failed: "@ + e@, post)
            &&& action is None
        },
        ConfigWrite::Written { canonical, applied } => {
            let leave = quit && applied is Ok;
            &&& post == App {
                config_editor: post.config_editor,
                toast: post.toast,
                content_focused: pre.content_focused && !leave,
                ..pre
            }
            &&& opt_text(post.toast) == Some("Configuration saved and applied."@)
            &&& config_reset(
                ConfigEditor { focused: c.focused && !leave, ..c },
                canonical@,
                ConfigEditor { error: None, ..post.config_editor },
            )
            &&& match applied {
                Ok(_) => post.config_editor.error is None && action
                    == Some(UiAction::Reindex),
                Err(e) => opt_text(post.config_editor.error) == Some("Apply failed: "@ + e@)
                    && action is None,
            }
        },
    }
}

/// Only the error message of the editor changed.
pub open spec fn config_failed(pre: App, text: Seq<char>, post: App) -> bool {
    &&& post == App {
        config_editor: ConfigEditor { error: post.config_editor.error, ..pre.config_editor },
        ..pre
    }
    &&& opt_text(post.config_editor.error) == Some(text)
}

/// Takes over the result of `:w` or, with `quit`, of `:wq`.
pub fn finish_config_editor_write(app: &mut App, quit: bool, outcome: ConfigWrite) -> (action:
    Option<UiAction>)
    ensures
        config_written_step(*old(app), quit, outcome, *final(app), action),
{
    match outcome {
        ConfigWrite::InvalidToml(error) => {
            app.config_editor.error = Some(message("Invalid TOML: ", &error));
            None
        },
        ConfigWrite::SerializationFailed(error) => {
            app.config_editor.error = Some(message("Serialization failed: ", &error));
            None
        },
        ConfigWrite::WriteFailed(error) => {
            app.config_editor.error = Some(message("Write failed: ", &error));
            None
        },
        ConfigWrite::Written { canonical, applied } => {
            reset(&mut app.config_editor, canonical);
            app.toast = Some("Configuration saved and applied.".to_owned());
            match applied {
                Ok(_) => {
                    if quit {
                        app.config_editor.focused = false;
                        app.content_focused = false;
                    }
                    Some(UiAction::Reindex)
                },
                Err(error) => {
                    app.config_editor.error = Some(message("Apply failed: ", &error));
                    None
                },
            }
        },
    }
}

/// Takes over the result of `:q`: the file as it is on disk, and the focus
/// back to the sidebar.
pub fn finish_config_editor_quit(app: &mut App, loaded: Result<String, String>)
    ensures
        *final(app) == (App {
            config_editor: final(app).config_editor,
            content_focused: false,
            ..*old(app)
        }),
        !final(app).config_editor.focused,
        config_reload_step(
            ConfigEditor { focused: false, ..old(app).config_editor },
            result_text(loaded),
            final(app).config_editor,
        ),
{
    reload_config_editor_buffer(app, loaded);
    app.config_editor.focused = false;
    app.content_focused = false;
}

/// What a key does in the editor of the configuration: the command line takes it,
/// then insert mode; `?` shows the help, and the rest goes to normal mode.
pub open spec fn config_key_step(pre: App, key: KeyEvent, post: App, run: Option<Seq<char>>) -> bool {
    let c = pre.config_editor;
    if c.command is Some {
        only_config(pre, post) && config_command_key_step(c, key, post.config_editor, run)
    } else if c.insert_mode {
        only_config(pre, post) && config_insert_step(c, key, post.config_editor) && run is None
    } else if key.code == KeyCode::Char('?') {
        post == help_toggled(pre) && run is None
    } else {
        let left = key.code == KeyCode::Char('q');
        &&& post == App {
            config_editor: post.config_editor,
            content_focused: pre.content_focused && !left,
            ..pre
        }
        &&& config_normal_step(c, key, post.config_editor, left)
        &&& run is None
    }
}

/// Whether the editor can take a key.
pub fn config_editor_takes(c: &ConfigEditor, key: KeyEvent) -> (r: bool)
    ensures
        r == config_takes(*c, key),
{
    let placed = is_boundary(c.text.as_str(), c.cursor);
    let before_end = c.cursor < text_len(c.text.as_str());
    let in_history = c.history_idx < c.history.len() || c.history.len() == 0 && c.history_idx
        < usize::MAX;
    let control = key.modifiers.control;
    if c.command.is_some() {
        return true;
    }
    if c.insert_mode {
        let recorded = match key.code {
            KeyCode::Backspace | KeyCode::Delete | KeyCode::Enter | KeyCode::Tab | KeyCode::Char(
                _,
            ) => true,
            _ => false,
        };
        return (placed || !reads_cursor(c, key)) && (in_history || !recorded);
    }
    match key.code {
        KeyCode::Home | KeyCode::End | KeyCode::Up | KeyCode::Down | KeyCode::PageUp
        | KeyCode::PageDown => placed,
        KeyCode::Left => placed || !control,
        KeyCode::Right => placed || !control && !before_end,
        KeyCode::Char(ch) => if ch == 'h' {
            placed || !control
        } else if ch == 'l' {
            placed || !control && !before_end
        } else if ch == 'k' || ch == 'j' {
            placed
        } else if ch == 'x' {
            placed && in_history || !before_end
        } else if ch == 'u' {
            c.history_idx <= c.history.len()
        } else if ch == 'r' && control {
            c.history_idx < usize::MAX
        } else {
            true
        },
        _ => true,
    }
}

/// Handles a key of the configuration editor; a command comes back to be
/// executed.
pub fn handle_config_editor_key(app: &mut App, key: KeyEvent) -> (run: Option<String>)
    requires
        old(app).wf(),
        config_takes(old(app).config_editor, key),
    ensures
        history_wf(old(app).config_editor) ==> history_wf(final(app).config_editor),
        config_key_step(*old(app), key, *final(app), opt_text(run)),
        final(app).wf(),
{
    if app.config_editor.command.is_some() {
        return handle_config_editor_command(app, key);
    }
    if app.config_editor.insert_mode {
        handle_config_editor_insert_key(app, key);
        return None;
    }
    if key.code == KeyCode::Char('?') {
        app.dispatch(Command::ToggleHelp);
        return None;
    }
    handle_config_editor_normal_key(app, key);
    None
}

/// How saving the settings went; saved ones come with their text and the result of
/// applying them.
#[derive(Debug)]
pub enum SettingsWrite {
    SerializationFailed(String),
    WriteFailed(String),
    Written { text: String, applied: Result<(), String> },
}

/// What saving the settings does: a toast says how it went, and the editor of the
/// configuration takes over the text.
pub open spec fn settings_written_step(
    pre: App,
    outcome: SettingsWrite,
    post: App,
    action: Option<UiAction>,
) -> bool {
    match outcome {
        SettingsWrite::SerializationFailed(error) => {
            toasted(pre, "Serialization failed: "@ + error@, post) && action is None
        },
        SettingsWrite::WriteFailed(error) => {
            toasted(pre, "Write failed: "@ + error@, post) && action is None
        },
        SettingsWrite::Written { text, applied } => {
            &&& post == App {
                toast: post.toast,
                config_editor: ConfigEditor {
                    text,
                    history: post.config_editor.history,
                    history_idx: 0,
                    error: None,
                    ..pre.config_editor
                },
                ..pre
            }
            &&& post.config_editor.history@ == seq![text]
            &&& match applied {
                Ok(_) => opt_text(post.toast) == Some("Settings saved and applied."@) && action
                    == Some(UiAction::Reindex),
                Err(error) => opt_text(post.toast) == Some("Apply failed: "@ + error@) && action
                    is None,
            }
        },
    }
}

/// Takes over the result of saving the settings.
pub fn finish_settings_apply(app: &mut App, outcome: SettingsWrite) -> (action: Option<UiAction>)
    ensures
        settings_written_step(*old(app), outcome, *final(app), action),
        old(app).wf() ==> final(app).wf(),
{
    match outcome {
        SettingsWrite::SerializationFailed(error) => {
            app.toast = Some(message("Serialization failed: ", error.as_str()));
            None
        },
        SettingsWrite::WriteFailed(error) => {
            app.toast = Some(message("Write failed: ", error.as_str()));
            None
        },
        SettingsWrite::Written { text, applied } => {
            app.config_editor.history = vec![text.clone()];
            assert(app.config_editor.history@ =~= seq![text]);
            app.config_editor.text = text;
            app.config_editor.history_idx = 0;
            app.config_editor.error = None;
            match applied {
                Ok(_) => {
                    app.toast = Some("Settings saved and applied.".to_owned());
                    Some(UiAction::Reindex)
                },
                Err(error) => {
                    app.toast = Some(message("Apply failed: ", error.as_str()));
                    None
                },
            }
        },
    }
}

/// What a key came to in the form of the settings.
#[derive(Debug)]
pub enum SettingsKeyResult {
    Handled,
    Apply,
    ReturnToSidebar,
    Quit,
    PreviewTheme(String),
}

/// The theme to go back to when the settings are left: the one in use before, unless
/// it still is.
pub open spec fn restored_theme(original: Seq<char>, current: Seq<char>) -> Option<Seq<char>> {
    if original.len() > 0 && current != original {
        Some(original)
    } else {
        None
    }
}

/// What a key in the form of the settings leads to, with the theme that was in use
/// before and the one that is shown; `load` is the theme to be shown next. Applying
/// the settings is left to those who can write them.
pub open spec fn settings_key_step(
    pre: App,
    result: SettingsKeyResult,
    original: Seq<char>,
    current: Seq<char>,
    post: App,
    load: Option<Seq<char>>,
) -> bool {
    match result {
        SettingsKeyResult::Handled | SettingsKeyResult::Apply => post == pre && load is None,
        SettingsKeyResult::ReturnToSidebar => {
            &&& post == App { content_focused: false, ..pre }
            &&& load == restored_theme(original, current)
        },
        SettingsKeyResult::Quit => {
            &&& command_step(pre, Command::Quit, post)
            &&& load == restored_theme(original, current)
        },
        SettingsKeyResult::PreviewTheme(name) => post == pre && load == Some(name@),
    }
}

/// Takes over what a key came to in the form of the settings; a theme comes back to
/// be shown.
pub fn finish_settings_key(
    app: &mut App,
    result: SettingsKeyResult,
    original: &str,
    current: &str,
) -> (load: Option<String>)
    ensures
        settings_key_step(*old(app), result, original@, current@, *final(app), opt_text(load)),
        old(app).wf() ==> final(app).wf(),
{
    match result {
        SettingsKeyResult::Handled | SettingsKeyResult::Apply => {
            return None;
        },
        SettingsKeyResult::ReturnToSidebar => {
            app.content_focused = false;
        },
        SettingsKeyResult::Quit => {
            app.should_quit = true;
        },
        SettingsKeyResult::PreviewTheme(name) => {
            return Some(name);
        },
    }
    if theme_to_restore(original, current) {
        Some(original.to_owned())
    } else {
        None
    }
}

/// What was undone comes back: the history keeps every state up to the current one, in order, and
/// puts the text behind them; only the oldest goes, and only where there are too many.
pub proof fn law_history_keeps_the_states(history: Seq<String>, idx: int, text: String)
    requires
        0 <= idx < history.len() <= CONFIG_HISTORY_LIMIT,
    ensures
        ({
            let grown = history_with(history, idx, text);
            let gone = if idx + 2 > CONFIG_HISTORY_LIMIT { 1int } else { 0int };
            &&& grown.len() == idx + 2 - gone
            &&& grown.last() == text
            &&& forall|i: int| 0 <= i < grown.len() - 1 ==> #[trigger] grown[i] == history[i + gone]
        }),
{
}

/// `x` takes out the one character behind the cursor, leaves every other and the cursor in place,
/// and puts the text before that into the history.
pub proof fn law_x_removes_one_character(
    c: ConfigEditor,
    key: KeyEvent,
    post: ConfigEditor,
    left: bool,
)
    requires
        config_wf(c),
        key.code == KeyCode::Char('x'),
        config_normal_step(c, key, post, left),
    ensures
        !left,
        post.cursor == c.cursor,
        c.cursor >= byte_len(c.text@) ==> post.text == c.text && post.history == c.history,
        c.cursor < byte_len(c.text@) ==> {
            let at = config_buf(c).at;
            &&& 0 <= at < c.text@.len()
            &&& post.text@ == c.text@.remove(at)
            &&& post.history@.len() > 0
            &&& post.history_idx < post.history@.len()
            &&& post.history@[post.history_idx as int]@ == c.text@
        },
{
    if c.cursor < byte_len(c.text@) {
        lemma_index_inside(c.text@, c.cursor as int);
        let at = config_buf(c).at;
        assert(post.text@ =~= c.text@.remove(at));
    }
}

/// Undoing and redoing show the neighbouring states of the history, and nothing at its ends.
pub proof fn law_undo_and_redo_step_through_the_history(
    c: ConfigEditor,
    key: KeyEvent,
    post: ConfigEditor,
    left: bool,
)
    requires
        history_wf(c),
        steps_history(key),
        config_normal_step(c, key, post, left),
    ensures
        post.history == c.history,
        key.code == KeyCode::Char('u') && c.history_idx > 0 ==> post.history_idx == c.history_idx
            - 1,
        key.code == KeyCode::Char('r') && c.history_idx + 1 < c.history@.len()
            ==> post.history_idx == c.history_idx + 1,
        key.code == KeyCode::Char('u') && c.history_idx == 0 ==> post.text == c.text,
        key.code == KeyCode::Char('r') && c.history_idx + 1 >= c.history@.len() ==> post.text
            == c.text,
        post.history_idx != c.history_idx ==> post.text == c.history@[post.history_idx as int],
        post.cursor <= c.cursor,
        post.history_idx != c.history_idx ==> post.cursor == c.cursor || post.cursor == byte_len(
            post.text@,
        ),
{
    assert(c.history.len() == c.history@.len());
}

/// In insert mode a typed character stands where the cursor was, which moves behind it, and Esc
/// ends the mode without a change of the text.
pub proof fn law_typing_inserts_into_the_configuration(
    c: ConfigEditor,
    key: KeyEvent,
    post: ConfigEditor,
)
    requires
        config_wf(c),
        !key.modifiers.control,
        !key.modifiers.alt,
        config_insert_step(c, key, post),
    ensures
        key.code matches KeyCode::Char(ch) ==> post.text@ == c.text@.insert(config_buf(c).at, ch)
            && config_buf(post).at == config_buf(c).at + 1,
        key.code == KeyCode::Enter ==> post.text@ == c.text@.insert(config_buf(c).at, '\n')
            && config_buf(post).at == config_buf(c).at + 1,
        key.code == KeyCode::Backspace && c.cursor > 0 ==> post.text@ == c.text@.remove(
            config_buf(c).at - 1,
        ) && config_buf(post).at == config_buf(c).at - 1,
        key.code == KeyCode::Backspace && c.cursor == 0 ==> post.text@ == c.text@,
        key.code == KeyCode::Delete && c.cursor < byte_len(c.text@) ==> post.text@
            == c.text@.remove(config_buf(c).at) && config_buf(post).at == config_buf(c).at,
        key.code == KeyCode::Delete && c.cursor >= byte_len(c.text@) ==> post.text@ == c.text@,
        key.code == KeyCode::Esc ==> !post.insert_mode && post.text == c.text && post.cursor
            == c.cursor,
        key.code != KeyCode::Esc ==> post.insert_mode == c.insert_mode,
{
    let b = config_buf(c);
    lemma_ends(c.text@);
    lemma_index(c.text@, c.cursor as int);
    law_editing_keys_change_one_character(b, key);
    assert(b.text.take(b.at) + seq!['\n'] + b.text.skip(b.at) =~= b.text.insert(b.at, '\n'));
}

/// `i` starts to insert, `:` opens an empty command line, and neither touches the text; `q` and
/// Esc give up the focus, and only `q` that of the page.
pub proof fn law_normal_keys_of_the_configuration(
    pre: App,
    key: KeyEvent,
    post: App,
    run: Option<Seq<char>>,
)
    requires
        pre.config_editor.command is None,
        !pre.config_editor.insert_mode,
        config_key_step(pre, key, post, run),
    ensures
        run is None,
        key.code == KeyCode::Char('i') ==> post.config_editor.insert_mode
            && post.config_editor.text == pre.config_editor.text && post.config_editor.cursor
            == pre.config_editor.cursor,
        key.code == KeyCode::Char(':') ==> post.config_editor.command is Some
            && post.config_editor.command->0@.len() == 0 && post.config_editor.text
            == pre.config_editor.text,
        key.code == KeyCode::Char('q') ==> !post.config_editor.focused && !post.content_focused
            && post.config_editor.text == pre.config_editor.text,
        key.code == KeyCode::Esc ==> !post.config_editor.focused && post.content_focused
            == pre.content_focused && post.config_editor.text == pre.config_editor.text,
        key.code != KeyCode::Char('i') ==> !post.config_editor.insert_mode,
        key.code != KeyCode::Char('x') && !steps_history(key) ==> post.config_editor.text
            == pre.config_editor.text && post.config_editor.history == pre.config_editor.history,
{
}

/// The command line takes what is typed, gives up its last character to Backspace, hands the
/// command over on Enter and is gone on Esc; the text stays as it is.
pub proof fn law_the_command_line_is_edited(
    pre: App,
    key: KeyEvent,
    post: App,
    run: Option<Seq<char>>,
)
    requires
        pre.config_editor.command is Some,
        config_key_step(pre, key, post, run),
    ensures
        post.config_editor.text == pre.config_editor.text,
        post.config_editor.cursor == pre.config_editor.cursor,
        key.code matches KeyCode::Char(ch) ==> post.config_editor.command is Some
            && post.config_editor.command->0@ == pre.config_editor.command->0@.push(ch),
        key.code == KeyCode::Backspace && pre.config_editor.command->0@.len() > 0 && !(
        key.modifiers.control) ==> post.config_editor.command is Some
            && post.config_editor.command->0@ == pre.config_editor.command->0@.drop_last(),
        key.code == KeyCode::Enter ==> run == Some(pre.config_editor.command->0@),
        key.code != KeyCode::Enter ==> run is None,
        key.code == KeyCode::Esc ==> post.config_editor.command is None,
        key.code != KeyCode::Esc ==> post.config_editor.command is Some,
{
    if key.code == KeyCode::Backspace && pre.config_editor.command->0@.len() > 0 {
        let command = pre.config_editor.command->0@;
        assert(command.take(command.len() - 1) + command.skip(command.len() as int)
            =~= command.drop_last());
    }
}

/// A failed write keeps the text and says why; a written configuration is shown as it is on disk,
/// and the editor is left only where it was asked for and the configuration could be applied.
pub proof fn law_only_applied_configurations_close_the_editor(
    pre: App,
    quit: bool,
    outcome: ConfigWrite,
    post: App,
    action: Option<UiAction>,
)
    requires
        config_written_step(pre, quit, outcome, post, action),
    ensures
        outcome !is Written ==> post.config_editor.text == pre.config_editor.text
            && post.config_editor.error is Some && post.content_focused == pre.content_focused
            && post.config_editor.focused == pre.config_editor.focused && post.toast == pre.toast
            && action is None,
        outcome matches ConfigWrite::Written { canonical, applied } ==> {
            &&& post.config_editor.text@ == canonical@
            &&& post.config_editor.history@ == seq![post.config_editor.text]
            &&& applied is Ok ==> action == Some(UiAction::Reindex) && post.config_editor.error
                is None
            &&& applied is Err ==> action is None && post.config_editor.error is Some
            &&& quit && applied is Ok ==> !post.content_focused && !post.config_editor.focused
            &&& !quit || applied is Err ==> post.content_focused == pre.content_focused
                && post.config_editor.focused == pre.config_editor.focused
        },
{
}

/// What is read from disk replaces the text and its history; where nothing could be read, the
/// editor is empty and names the reason.
pub proof fn law_reloading_starts_anew(
    c: ConfigEditor,
    loaded: Result<Seq<char>, Seq<char>>,
    post: ConfigEditor,
)
    requires
        config_reload_step(c, loaded, post),
    ensures
        post.cursor == 0,
        post.command is None,
        !post.insert_mode,
        post.history@.len() == 1,
        post.history@[0] == post.text,
        post.history_idx == 0,
        post.focused == c.focused,
        loaded matches Ok(text) ==> post.text@ == text && post.error is None,
        loaded matches Err(error) ==> post.text@.len() == 0 && post.error is Some
            && error.is_suffix_of(post.error->0@),
{
    if let Err(error) = loaded {
        let prefix = "Could not reload configuration: "@;
        assert((prefix + error).skip(prefix.len() as int) =~= error);
    }
}

/// The theme in use before comes back when the settings are left, unless it still is in use;
/// leaving them gives up the focus, and only a preview shows another theme meanwhile.
pub proof fn law_left_settings_restore_the_theme(
    pre: App,
    result: SettingsKeyResult,
    original: Seq<char>,
    current: Seq<char>,
    post: App,
    load: Option<Seq<char>>,
)
    requires
        settings_key_step(pre, result, original, current, post, load),
    ensures
        (result is ReturnToSidebar || result is Quit) && original.len() > 0 && original != current
            ==> load == Some(original),
        (result is ReturnToSidebar || result is Quit) && (original.len() == 0 || original
            == current) ==> load is None,
        result matches SettingsKeyResult::PreviewTheme(name) ==> load == Some(name@),
        result is Handled || result is Apply ==> load is None && post == pre,
        result is ReturnToSidebar ==> !post.content_focused,
{
}

/// The plain arrows stay in their line and move by one character.
pub proof fn law_arrows_stay_in_the_line(
    c: ConfigEditor,
    key: KeyEvent,
    post: ConfigEditor,
    left: bool,
)
    requires
        config_wf(c),
        !key.modifiers.control,
        config_normal_step(c, key, post, left),
    ensures
        key.code == KeyCode::Right || key.code == KeyCode::Char('l') ==> {
            let at = config_buf(c).at;
            &&& at < c.text@.len() && c.text@[at] != '\n' ==> config_buf(post).at == at + 1
            &&& at >= c.text@.len() || c.text@[at] == '\n' ==> post.cursor == c.cursor
            &&& post.text == c.text
        },
{
    if key.code == KeyCode::Right || key.code == KeyCode::Char('l') {
        if c.cursor < byte_len(c.text@) {
            lemma_index_inside(c.text@, c.cursor as int);
        }
    }
}

/// Left moves by one character, but never across a line break nor before the text.
pub proof fn law_left_stays_in_the_line(
    c: ConfigEditor,
    key: KeyEvent,
    post: ConfigEditor,
    left: bool,
)
    requires
        config_wf(c),
        !key.modifiers.control,
        key.code == KeyCode::Left || key.code == KeyCode::Char('h'),
        config_normal_step(c, key, post, left),
    ensures
        ({
            let at = config_buf(c).at;
            &&& at > 0 && c.text@[at - 1] != '\n' ==> config_buf(post).at == at - 1
            &&& at == 0 || c.text@[at - 1] == '\n' ==> post.cursor == c.cursor
            &&& post.text == c.text
        }),
{
    let at = config_buf(c).at;
    lemma_ends(c.text@);
    lemma_index(c.text@, c.cursor as int);
    if c.cursor > 0 {
        let free = ConfigEditor { goal_column: None, ..c };
        let before = choose|before: int| #[trigger]
            boundary_below(c.text@, c.cursor as int, before) && post == (ConfigEditor {
                cursor: if breaks_at(c.text@, before) {
                    c.cursor
                } else {
                    before as usize
                },
                ..free
            });
        lemma_index(c.text@, before);
        let k = index(c.text@, before);
        if k >= at {
            lemma_offset_monotone(c.text@, at, k);
        }
        lemma_offset(c.text@, at - 1);
        lemma_offset_monotone(c.text@, at - 1, at);
        if k < at - 1 {
            lemma_offset_monotone(c.text@, k, at - 1);
            assert(!boundary(c.text@, offset(c.text@, at - 1)));
        }
        assert(k == at - 1);
        lemma_offset_monotone(c.text@, at, c.text@.len() as int);
    }
}

/// A command of the editor is its one name, whatever white space stands round it.
pub proof fn law_commands_are_known_by_name(line: Seq<char>)
    ensures
        trimmed(line) == seq!['w'] <==> config_command_of(line) == ConfigCommand::Write,
        trimmed(line) == seq!['w', 'q'] <==> config_command_of(line) == ConfigCommand::WriteQuit,
        trimmed(line) == seq!['q'] <==> config_command_of(line) == ConfigCommand::Quit,
{
    reveal_strlit("w");
    reveal_strlit("wq");
    reveal_strlit("q");
    assert("w"@ =~= seq!['w']);
    assert("wq"@ =~= seq!['w', 'q']);
    assert("q"@ =~= seq!['q']);
    assert("w"@[0] != "q"@[0]);
    assert("w"@.len() != "wq"@.len());
}

/// Saved settings are shown as the configuration, and the library is read anew only where they
/// could be applied; settings that were not saved change nothing but the message.
pub proof fn law_saved_settings_are_shown(
    pre: App,
    outcome: SettingsWrite,
    post: App,
    action: Option<UiAction>,
)
    requires
        settings_written_step(pre, outcome, post, action),
    ensures
        post.toast is Some,
        action is Some <==> (outcome matches SettingsWrite::Written { text, applied }
            && applied is Ok),
        action is Some ==> action == Some(UiAction::Reindex),
        outcome matches SettingsWrite::Written { text, applied } ==> post.config_editor.text == text
            && post.config_editor.history@ == seq![text] && post.config_editor.error is None,
        outcome !is Written ==> post.config_editor == pre.config_editor,
        post.page == pre.page,
        post.content_focused == pre.content_focused,
{
}

} // verus!
