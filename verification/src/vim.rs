//! The Vim-like keys of an editor, on the state of the editor alone.

use vstd::prelude::*;
use crate::keys::{KeyCode, KeyEvent};
use crate::chars::ends_with_text;
use crate::model::opt_text;
use crate::select::{next_selection, previous_selection, select_next, select_previous};
use crate::lines::{
    config_editor_line_end, config_editor_line_start, covers_lines, delimiter_partner,
    is_word_after, is_word_before, law_line_begin_divides_the_text, law_line_ends,
    law_line_number_counts_line_feeds, law_next_word_is_the_nearest,
    law_paragraph_above_is_the_nearest, law_paragraph_below_is_the_nearest,
    law_previous_word_is_the_nearest, lemma_line_begin, lemma_line_end, lemma_line_number_monotone,
    lemma_line_of, lemma_line_start, lemma_words, line_begin, line_count, line_end, line_number,
    line_spans, line_start, next_word, next_word_boundary, paragraph_above, paragraph_below,
    paragraph_starts, prev_char_boundary, prev_word, prev_word_boundary, project_editor_line_at,
    project_editor_matching_delimiter, project_editor_next_paragraph,
    project_editor_previous_paragraph,
};
use crate::state::{ProjectEditor, ProjectEditorPendingSequence};
use crate::text::{
    boundary, byte_len, byte_offset, char_index, group_points, index, lemma_byte_len_concat,
    lemma_offset, lemma_offset_monotone, lemma_offset_prefix, lemma_offset_step, offset, same_text,
    text_len, to_chars,
};
use crate::text_edit::{
    apply_editor_insert_key, buffer, delete_to, edit_text, edited, insert_at_cursor,
    insert_edited, insert_result, inserted, law_arrow_keys_move_the_cursor,
    law_edit_keeps_cursor_valid, law_editing_keys_change_one_character, law_insert_mode_keys,
    law_vertical_keys_change_the_line, move_text_cursor_vertical, moved, remove_range, removed,
    vertical, Buffer, EditorInsertResult,
};
use crate::wrap::{move_by_rows, moved_by_rows, page_delta, page_rows, visual_column,
    cursor_visual_position};

verus! {

broadcast use group_points;

/// How long the first key of a two-key command waits for the second.
pub const PROJECT_EDITOR_PENDING_SEQUENCE_TIMEOUT_MS: u64 = 1000;

/// How many changes can be undone.
pub const PROJECT_EDITOR_UNDO_LIMIT: usize = 512;

/// The text and cursor of the editor.
pub open spec fn buf(e: ProjectEditor) -> Buffer {
    buffer(e.text@, e.cursor as int)
}

/// The undo stack after a snapshot: a snapshot equal to the last one is not
/// repeated, and the oldest one goes when there are too many.
pub open spec fn recorded(undo: Seq<(String, usize)>, snapshot: (String, usize)) -> Seq<
    (String, usize),
> {
    if undo.len() > 0 && undo.last().0@ == snapshot.0@ && undo.last().1 == snapshot.1 {
        undo
    } else if undo.len() + 1 > PROJECT_EDITOR_UNDO_LIMIT {
        undo.push(snapshot).drop_first()
    } else {
        undo.push(snapshot)
    }
}

/// The editor with a snapshot on its undo stack and nothing to redo.
pub open spec fn snapshot_step(
    pre: ProjectEditor,
    snapshot: (String, usize),
    post: ProjectEditor,
) -> bool {
    &&& post == ProjectEditor { undo: post.undo, redo: post.redo, ..pre }
    &&& post.undo@ == recorded(pre.undo@, snapshot)
    &&& post.redo@ == Seq::<(String, usize)>::empty()
}

/// The editor with the buffer `b`, the state before on its undo stack.
pub open spec fn change_step(pre: ProjectEditor, b: Buffer, post: ProjectEditor) -> bool {
    &&& post == ProjectEditor {
        text: post.text,
        cursor: post.cursor,
        undo: post.undo,
        redo: post.redo,
        dirty: true,
        ..pre
    }
    &&& b.held(post.text@, post.cursor as int)
    &&& boundary(post.text@, post.cursor as int)
    &&& post.undo@ == recorded(pre.undo@, (pre.text, pre.cursor))
    &&& post.redo@ == Seq::<(String, usize)>::empty()
}

/// The editor with the cursor at index `at`.
pub open spec fn move_step(pre: ProjectEditor, at: int, post: ProjectEditor) -> bool {
    &&& post == ProjectEditor { cursor: post.cursor, ..pre }
    &&& post.cursor == offset(pre.text@, at)
    &&& boundary(post.text@, post.cursor as int)
}

/// The editor after undo: the last snapshot back, what was there to redo.
pub open spec fn undo_step(pre: ProjectEditor, post: ProjectEditor) -> bool {
    if pre.undo@.len() == 0 {
        post == pre
    } else {
        &&& post == ProjectEditor {
            text: pre.undo@.last().0,
            cursor: pre.undo@.last().1,
            undo: post.undo,
            redo: post.redo,
            dirty: true,
            visual_line_anchor: None,
            ..pre
        }
        &&& post.undo@ == pre.undo@.drop_last()
        &&& post.redo@ == pre.redo@.push((pre.text, pre.cursor))
    }
}

/// The editor after redo.
pub open spec fn redo_step(pre: ProjectEditor, post: ProjectEditor) -> bool {
    if pre.redo@.len() == 0 {
        post == pre
    } else {
        &&& post == ProjectEditor {
            text: pre.redo@.last().0,
            cursor: pre.redo@.last().1,
            undo: post.undo,
            redo: post.redo,
            dirty: true,
            visual_line_anchor: None,
            ..pre
        }
        &&& post.redo@ == pre.redo@.drop_last()
        &&& post.undo@ == pre.undo@.push((pre.text, pre.cursor))
    }
}

/// Redo gives back what undo took away.
pub proof fn law_redo_reverts_undo(a: ProjectEditor, b: ProjectEditor, c: ProjectEditor)
    requires
        a.undo@.len() > 0,
        undo_step(a, b),
        redo_step(b, c),
    ensures
        c.text == a.text,
        c.cursor == a.cursor,
        c.undo@ == a.undo@,
        c.redo@ == a.redo@,
{
    assert(c.undo@ =~= a.undo@);
    assert(c.redo@ =~= a.redo@);
}

/// Undo gives back what redo took away.
pub proof fn law_undo_reverts_redo(a: ProjectEditor, b: ProjectEditor, c: ProjectEditor)
    requires
        a.redo@.len() > 0,
        redo_step(a, b),
        undo_step(b, c),
    ensures
        c.text == a.text,
        c.cursor == a.cursor,
        c.undo@ == a.undo@,
        c.redo@ == a.redo@,
{
    assert(c.undo@ =~= a.undo@);
    assert(c.redo@ =~= a.redo@);
}

/// Undo takes back a recorded change, text and cursor.
pub proof fn law_undo_reverts_change(a: ProjectEditor, b: ProjectEditor, c: ProjectEditor, m: Buffer)
    requires
        change_step(a, m, b),
        undo_step(b, c),
    ensures
        c.text@ == a.text@,
        c.cursor == a.cursor,
{
    let snapshot = (a.text, a.cursor);
    let pushed = a.undo@.push(snapshot);
    if a.undo@.len() > 0 && a.undo@.last().0@ == a.text@ && a.undo@.last().1 == a.cursor {
    } else if a.undo@.len() + 1 > PROJECT_EDITOR_UNDO_LIMIT {
        assert(pushed.drop_first().last() == snapshot);
    } else {
        assert(pushed.last() == snapshot);
    }
}

/// A snapshot never makes the undo stack longer than its limit.
pub proof fn law_undo_stack_is_bounded(undo: Seq<(String, usize)>, snapshot: (String, usize))
    requires
        undo.len() <= PROJECT_EDITOR_UNDO_LIMIT,
    ensures
        recorded(undo, snapshot).len() <= PROJECT_EDITOR_UNDO_LIMIT,
{
}

/// Puts a snapshot on the undo stack.
pub fn record_snapshot(e: &mut ProjectEditor, snapshot: (String, usize))
    requires
        boundary(snapshot.0@, snapshot.1 as int),
    ensures
        snapshot_step(*old(e), snapshot, *final(e)),
        old(e).wf() ==> final(e).wf(),
{
    let ghost pre = *e;
    let n: usize = e.undo.len();
    let repeated = n > 0 && e.undo[n - 1].1 == snapshot.1 && same_text(
        e.undo[n - 1].0.as_str(),
        snapshot.0.as_str(),
    );
    if !repeated {
        e.undo.push(snapshot);
        if e.undo.len() > PROJECT_EDITOR_UNDO_LIMIT {
            e.undo.remove(0);
            assert(e.undo@ =~= pre.undo@.push(snapshot).drop_first());
        }
    }
    e.redo.clear();
}

/// Puts the current text and cursor on the undo stack.
pub fn record_change(e: &mut ProjectEditor)
    requires
        boundary(old(e).text@, old(e).cursor as int),
    ensures
        snapshot_step(
            *old(e),
            (old(e).text, old(e).cursor),
            *final(e),
        ),
        old(e).wf() ==> final(e).wf(),
{
    let snapshot = (e.text.clone(), e.cursor);
    record_snapshot(e, snapshot);
}

/// Takes back the last change.
pub fn undo_change(e: &mut ProjectEditor)
    ensures
        undo_step(*old(e), *final(e)),
        old(e).wf() ==> final(e).wf(),
{
    let ghost pre = *e;
    if e.undo.len() == 0 {
        return ;
    }
    if let Some(snapshot) = e.undo.pop() {
        let current = (e.text.clone(), e.cursor);
        e.redo.push(current);
        e.text = snapshot.0;
        e.cursor = snapshot.1;
        e.dirty = true;
        e.visual_line_anchor = None;
        assert(e.undo@ =~= pre.undo@.drop_last());
        assert(pre.wf() ==> boundary(pre.undo@.last().0@, pre.undo@.last().1 as int));
    }
}

/// Does the last undone change again.
pub fn redo_change(e: &mut ProjectEditor)
    ensures
        redo_step(*old(e), *final(e)),
        old(e).wf() ==> final(e).wf(),
{
    let ghost pre = *e;
    if e.redo.len() == 0 {
        return ;
    }
    if let Some(snapshot) = e.redo.pop() {
        let current = (e.text.clone(), e.cursor);
        e.undo.push(current);
        e.text = snapshot.0;
        e.cursor = snapshot.1;
        e.dirty = true;
        e.visual_line_anchor = None;
        assert(e.redo@ =~= pre.redo@.drop_last());
        assert(pre.wf() ==> boundary(pre.redo@.last().0@, pre.redo@.last().1 as int));
    }
}

/// Removes the text between two boundaries as an undoable change.
fn delete_range(e: &mut ProjectEditor, from: usize, to: usize)
    requires
        old(e).wf(),
        boundary(old(e).text@, from as int),
        boundary(old(e).text@, to as int),
        index(old(e).text@, from as int) <= index(
            old(e).text@,
            to as int,
        ),
    ensures
        change_step(
            *old(e),
            removed(
                buf(*old(e)),
                index(old(e).text@, from as int),
                index(old(e).text@, to as int),
            ),
            *final(e),
        ),
        final(e).wf(),
{
    record_change(e);
    remove_range(&mut e.text, &mut e.cursor, from, to);
    e.dirty = true;
}

/// The first and the last line of a selection from line `anchor` to the line
/// of the cursor, as a range of characters.
pub open spec fn visual_range(b: Buffer, anchor: int) -> (int, int) {
    let current = line_number(b.text, b.at);
    let first = if anchor < current { anchor } else { current };
    let last = if anchor < current { current } else { anchor };
    (
        line_begin(b.text, first),
        if last + 1 < line_count(b.text) {
            line_begin(b.text, last + 1)
        } else {
            b.text.len() as int
        },
    )
}

proof fn lemma_visual_range(b: Buffer, anchor: int)
    requires
        b.valid(),
        anchor >= 0,
    ensures
        0 <= visual_range(b, anchor).0 <= visual_range(b, anchor).1 <= b.text.len(),
{
    let t = b.text;
    let current = line_number(t, b.at);
    let first = if anchor < current { anchor } else { current };
    let last = if anchor < current { current } else { anchor };
    lemma_line_of(t, b.at);
    lemma_line_begin(t, first);
    if last + 1 < line_count(t) {
        lemma_line_begin(t, last + 1);
        if line_begin(t, first) > line_begin(t, last + 1) {
            lemma_line_number_monotone(t, line_begin(t, last + 1), line_begin(t, first));
        }
    }
}

/// The bytes of the selected lines: the start of the first one and the end of
/// the last one with its line feed.
pub fn visual_byte_range(e: &ProjectEditor, anchor: usize) -> (r: (usize, usize))
    requires
        e.wf(),
    ensures
        boundary(e.text@, r.0 as int),
        boundary(e.text@, r.1 as int),
        (
            index(e.text@, r.0 as int),
            index(e.text@, r.1 as int),
        ) == visual_range(buf(*e), anchor as int),
{
    let text = e.text.as_str();
    let t = to_chars(text);
    let spans = line_spans(&t);
    let current: usize = project_editor_line_at(text, e.cursor);
    let first: usize = if anchor < current { anchor } else { current };
    let last: usize = if anchor < current { current } else { anchor };
    let end: usize = if last < spans.len() - 1 {
        spans[last + 1].0
    } else {
        t.len()
    };
    (byte_offset(text, spans[first].0), byte_offset(text, end))
}

/// The line of the cursor as a range of characters, with its line feed; the
/// empty line after a final line feed takes that line feed with it.
pub open spec fn current_line_range(b: Buffer) -> (int, int) {
    let start = line_start(b.text, b.at);
    let stop = line_end(b.text, b.at);
    let end = if stop < b.text.len() { stop + 1 } else { stop };
    if start == end && start == b.text.len() && start > 0 {
        (start - 1, end)
    } else {
        (start, end)
    }
}

/// The editor without the line of the cursor.
pub open spec fn delete_line_step(pre: ProjectEditor, post: ProjectEditor) -> bool {
    let b = buf(pre);
    if b.text.len() == 0 {
        post == pre
    } else {
        let (from, to) = current_line_range(b);
        &&& change_step(
            ProjectEditor { manual_scroll: false, completions: post.completions, ..pre },
            removed(b, from, to),
            post,
        )
        &&& post.completions@.len() == 0
    }
}

/// Deletes the line of the cursor.
pub fn delete_current_line(e: &mut ProjectEditor)
    requires
        old(e).wf(),
    ensures
        delete_line_step(*old(e), *final(e)),
        final(e).wf(),
{
    let t = to_chars(e.text.as_str());
    if t.len() == 0 {
        return ;
    }
    let i: usize = char_index(e.text.as_str(), e.cursor);
    let start: usize = crate::lines::line_start_index(&t, i);
    let stop: usize = crate::lines::line_end_index(&t, i);
    let end: usize = if stop < t.len() { stop + 1 } else { stop };
    let from: usize = if start == end && start == t.len() && start > 0 { start - 1 } else { start };
    let from_byte: usize = byte_offset(e.text.as_str(), from);
    let to_byte: usize = byte_offset(e.text.as_str(), end);
    delete_range(e, from_byte, to_byte);
    e.manual_scroll = false;
    e.completions.clear();
}

/// The first key of a two-key command: `g`, and outside a selection `d`.
pub open spec fn sequence_starter(e: ProjectEditor, key: KeyEvent) -> Option<char> {
    if key.modifiers.control || key.modifiers.alt {
        None
    } else if key.code == KeyCode::Char('g') {
        Some('g')
    } else if key.code == KeyCode::Char('d') && e.visual_line_anchor is None {
        Some('d')
    } else {
        None
    }
}

pub fn starts_sequence(e: &ProjectEditor, key: KeyEvent) -> (r: Option<char>)
    ensures
        r == sequence_starter(*e, key),
{
    if key.modifiers.control || key.modifiers.alt {
        return None;
    }
    if key.code == KeyCode::Char('g') {
        Some('g')
    } else if key.code == KeyCode::Char('d') && e.visual_line_anchor.is_none() {
        Some('d')
    } else {
        None
    }
}

/// Waits for the second key of a two-key command, from the time `now`.
pub fn begin_pending_sequence(e: &mut ProjectEditor, first_key: char, now: u64)
    ensures
        *final(e) == (ProjectEditor {
            pending_sequence: Some(ProjectEditorPendingSequence { first_key, started_at: now }),
            ..*old(e)
        }),
{
    e.pending_sequence = Some(ProjectEditorPendingSequence { first_key, started_at: now });
}

/// Whether the wait for a second key is over at time `now`.
pub open spec fn sequence_expired(pending: Option<ProjectEditorPendingSequence>, now: u64) -> bool {
    pending matches Some(seq) && now - seq.started_at
        >= PROJECT_EDITOR_PENDING_SEQUENCE_TIMEOUT_MS
}

/// Gives up the wait for a second key when its time is over.
pub fn expire_pending_sequence(e: &mut ProjectEditor, now: u64) -> (expired: bool)
    ensures
        expired == sequence_expired(old(e).pending_sequence, now),
        *final(e) == if expired {
            ProjectEditor { pending_sequence: None, ..*old(e) }
        } else {
            *old(e)
        },
{
    let expired = match e.pending_sequence {
        Some(sequence) => now >= sequence.started_at && now - sequence.started_at
            >= PROJECT_EDITOR_PENDING_SEQUENCE_TIMEOUT_MS,
        None => false,
    };
    if expired {
        e.pending_sequence = None;
    }
    expired
}

/// Whether the pending two-key command takes the key.
pub open spec fn sequence_takes(seq: ProjectEditorPendingSequence, key: KeyEvent) -> bool {
    ||| key.code == KeyCode::Esc
    ||| seq.first_key == 'g' && key.code == KeyCode::Char('g')
    ||| seq.first_key == 'd' && key.code == KeyCode::Char('d')
}

/// What the second key of a two-key command does: `gg` goes to the top, `dd`
/// deletes the line, Escape cancels.
pub open spec fn sequence_step(
    e: ProjectEditor,
    seq: ProjectEditorPendingSequence,
    key: KeyEvent,
    post: ProjectEditor,
) -> bool {
    let e1 = ProjectEditor { pending_sequence: None, ..e };
    if key.code == KeyCode::Esc {
        post == e1
    } else if seq.first_key == 'g' && key.code == KeyCode::Char('g') {
        post == ProjectEditor { cursor: 0, scroll: 0, manual_scroll: false, ..e1 }
    } else {
        delete_line_step(e1, post)
    }
}

/// Finishes or cancels a two-key command. `false` says that the key belongs to
/// no such command and is to be taken afresh.
pub fn resolve_pending_sequence(e: &mut ProjectEditor, key: KeyEvent) -> (taken: bool)
    requires
        old(e).wf(),
    ensures
        taken == (old(e).pending_sequence matches Some(seq) && sequence_takes(
            seq,
            key,
        )),
        taken ==> sequence_step(
            *old(e),
            old(e).pending_sequence->0,
            key,
            *final(e),
        ),
        !taken ==> *final(e) == (ProjectEditor { pending_sequence: None, ..*old(e) }),
        final(e).wf(),
{
    let pending = e.pending_sequence;
    e.pending_sequence = None;
    match pending {
        None => false,
        Some(sequence) => {
            if key.code == KeyCode::Esc {
                true
            } else if sequence.first_key == 'g' && key.code == KeyCode::Char('g') {
                proof {
                    crate::text::lemma_ends(e.text@);
                }
                e.cursor = 0;
                e.scroll = 0;
                e.manual_scroll = false;
                true
            } else if sequence.first_key == 'd' && key.code == KeyCode::Char('d') {
                delete_current_line(e);
                true
            } else {
                false
            }
        },
    }
}

/// The partner of the delimiter at `i`, if it has one.
pub open spec fn partner_of(t: Seq<char>, i: int) -> Option<int> {
    if exists|j: int| delimiter_partner(t, i, j) {
        Some(choose|j: int| delimiter_partner(t, i, j))
    } else {
        None
    }
}

/// Where a motion key leads: `G` to the last line, `{` and `}` to the
/// paragraph above and below, `%` to the partner of a delimiter.
pub open spec fn motion_target(b: Buffer, code: KeyCode) -> Option<int> {
    if code == KeyCode::Char('G') {
        Some(line_start(b.text, b.text.len() as int))
    } else if code == KeyCode::Char('{') {
        Some(line_begin(b.text, paragraph_above(b.text, line_number(b.text, b.at))))
    } else if code == KeyCode::Char('}') {
        Some(line_begin(b.text, paragraph_below(b.text, line_number(b.text, b.at))))
    } else if code == KeyCode::Char('%') {
        partner_of(b.text, b.at)
    } else {
        None
    }
}

/// Motions that work alike with and without a selection.
pub fn handle_motion(e: &mut ProjectEditor, key: KeyEvent) -> (handled: bool)
    requires
        old(e).wf(),
    ensures
        handled == motion_target(buf(*old(e)), key.code) is Some,
        handled ==> move_step(
            ProjectEditor { manual_scroll: false, ..*old(e) },
            motion_target(buf(*old(e)), key.code)->0,
            *final(e),
        ),
        !handled ==> *final(e) == *old(e),
        final(e).wf(),
{
    let ghost b = buf(*e);
    let target: Option<usize> = {
        let text = e.text.as_str();
        let cursor: usize = e.cursor;
        if key.code == KeyCode::Char('G') {
            Some(config_editor_line_start(text, text_len(text)))
        } else if key.code == KeyCode::Char('{') {
            Some(project_editor_previous_paragraph(text, cursor))
        } else if key.code == KeyCode::Char('}') {
            Some(project_editor_next_paragraph(text, cursor))
        } else if key.code == KeyCode::Char('%') {
            let partner = project_editor_matching_delimiter(text, cursor);
            proof {
                match partner {
                    Some(p) => {
                        let j = index(text@, p as int);
                        let k = choose|k: int| delimiter_partner(b.text, b.at, k);
                        crate::lines::law_delimiter_partner_unique(b.text, b.at, j, k);
                    },
                    None => {
                        if exists|j: int| delimiter_partner(b.text, b.at, j) {
                            let j = choose|j: int| delimiter_partner(b.text, b.at, j);
                            assert(b.at < b.text.len());
                            crate::text::lemma_offset_monotone(b.text, b.at, b.text.len() as int);
                        }
                    },
                }
            }
            partner
        } else {
            None
        }
    };
    match target {
        None => false,
        Some(target) => {
            e.cursor = target;
            e.manual_scroll = false;
            true
        },
    }
}

/// Keys of a selection of lines: Escape and `V` end it, `y` copies, `d`
/// deletes; any other key is swallowed.
pub open spec fn visual_key_step(
    e: ProjectEditor,
    anchor: int,
    key: KeyEvent,
    post: ProjectEditor,
    copied: Option<Seq<char>>,
) -> bool {
    let b = buf(e);
    let (from, to) = visual_range(b, anchor);
    let done = ProjectEditor { visual_line_anchor: None, ..e };
    if key.code == KeyCode::Esc || key.code == KeyCode::Char('V') {
        post == done && copied is None
    } else if key.code == KeyCode::Char('y') {
        post == done && copied == Some(b.text.subrange(from, to))
    } else if key.code == KeyCode::Char('d') {
        change_step(done, removed(b, from, to), post) && copied is None
    } else {
        post == e && copied is None
    }
}

/// Applies a key to the selection of lines that starts at `anchor`; a text
/// comes back to be copied.
pub fn handle_visual_key(e: &mut ProjectEditor, anchor: usize, key: KeyEvent) -> (copied: Option<
    String,
>)
    requires
        old(e).wf(),
    ensures
        visual_key_step(*old(e), anchor as int, key, *final(e), opt_text(copied)),
        final(e).wf(),
{
    let ghost b = buf(*e);
    proof {
        lemma_visual_range(b, anchor as int);
    }
    if key.code == KeyCode::Esc || key.code == KeyCode::Char('V') {
        e.visual_line_anchor = None;
        None
    } else if key.code == KeyCode::Char('y') {
        let (start, end) = visual_byte_range(e, anchor);
        let t = to_chars(e.text.as_str());
        let from: usize = char_index(e.text.as_str(), start);
        let to: usize = char_index(e.text.as_str(), end);
        e.visual_line_anchor = None;
        Some(crate::text::from_chars(&t, from, to))
    } else if key.code == KeyCode::Char('d') {
        let (start, end) = visual_byte_range(e, anchor);
        delete_range(e, start, end);
        e.visual_line_anchor = None;
        None
    } else {
        None
    }
}

/// The arrow key that a movement key stands for.
pub open spec fn movement_code(code: KeyCode) -> Option<KeyCode> {
    match code {
        KeyCode::Left => Some(KeyCode::Left),
        KeyCode::Right => Some(KeyCode::Right),
        KeyCode::Up => Some(KeyCode::Up),
        KeyCode::Down => Some(KeyCode::Down),
        KeyCode::Char(c) => if c == 'h' {
            Some(KeyCode::Left)
        } else if c == 'l' {
            Some(KeyCode::Right)
        } else if c == 'k' {
            Some(KeyCode::Up)
        } else if c == 'j' {
            Some(KeyCode::Down)
        } else {
            None
        },
        _ => None,
    }
}

fn movement_of(code: KeyCode) -> (r: Option<KeyCode>)
    ensures
        r == movement_code(code),
{
    match code {
        KeyCode::Left => Some(KeyCode::Left),
        KeyCode::Right => Some(KeyCode::Right),
        KeyCode::Up => Some(KeyCode::Up),
        KeyCode::Down => Some(KeyCode::Down),
        KeyCode::Char(c) => if c == 'h' {
            Some(KeyCode::Left)
        } else if c == 'l' {
            Some(KeyCode::Right)
        } else if c == 'k' {
            Some(KeyCode::Up)
        } else if c == 'j' {
            Some(KeyCode::Down)
        } else {
            None
        },
        _ => None,
    }
}

/// Where a page key takes the cursor.
pub open spec fn page_target(e: ProjectEditor, direction: int) -> int {
    let w = if e.wrap_width > 1 { e.wrap_width as int } else { 1 };
    let b = buf(e);
    moved_by_rows(
        b.text,
        b.at,
        w,
        page_delta(direction, e.viewport_height as int),
        visual_column(b.text, b.at, w),
    )
}

/// Moves the cursor by pages of visible rows.
pub fn move_page(e: &mut ProjectEditor, direction: isize)
    requires
        old(e).wf(),
    ensures
        move_step(
            *old(e),
            page_target(*old(e), direction as int),
            *final(e),
        ),
        final(e).wf(),
{
    let w: usize = if e.wrap_width > 1 { e.wrap_width } else { 1 };
    let text = e.text.as_str();
    let (_row, column) = cursor_visual_position(text, e.cursor, w);
    let delta: isize = page_rows(direction, e.viewport_height);
    e.cursor = move_by_rows(text, e.cursor, w, delta, column);
}

/// What a key of the normal mode does outside a selection.
pub open spec fn command_key_step(e: ProjectEditor, key: KeyEvent, post: ProjectEditor) -> bool {
    let b = buf(e);
    let control = key.modifiers.control;
    match key.code {
        KeyCode::Char(c) => if c == 'i' {
            post == ProjectEditor { insert_mode: true, ..e }
        } else if c == 'V' {
            post == ProjectEditor {
                visual_line_anchor: Some(line_number(b.text, b.at) as usize),
                ..e
            }
        } else if c == 'u' {
            undo_step(e, post)
        } else if c == 'w' {
            move_step(e, next_word(b.text, b.at), post)
        } else if c == 'b' {
            move_step(e, prev_word(b.text, b.at), post)
        } else if c == '0' {
            move_step(e, line_start(b.text, b.at), post)
        } else if c == '$' {
            move_step(e, line_end(b.text, b.at), post)
        } else if c == 'x' && b.at < b.text.len() {
            change_step(e, removed(b, b.at, b.at + 1), post)
        } else {
            post == e
        },
        KeyCode::Home => move_step(e, line_start(b.text, b.at), post),
        KeyCode::End => move_step(e, line_end(b.text, b.at), post),
        KeyCode::Backspace => if !control {
            move_step(e, if b.at > 0 { b.at - 1 } else { 0 }, post)
        } else if prev_word(b.text, b.at) != b.at {
            change_step(e, removed(b, prev_word(b.text, b.at), b.at), post)
        } else {
            post == e
        },
        KeyCode::Delete => if b.at < b.text.len() {
            change_step(e, removed(b, b.at, delete_to(b, control)), post)
        } else {
            post == e
        },
        KeyCode::PageUp => move_step(e, page_target(e, -1), post),
        KeyCode::PageDown => move_step(e, page_target(e, 1), post),
        _ => post == e,
    }
}

fn handle_command_key(e: &mut ProjectEditor, key: KeyEvent)
    requires
        old(e).wf(),
    ensures
        command_key_step(*old(e), key, *final(e)),
        final(e).wf(),
{
    let ghost b = buf(*e);
    proof {
        lemma_words(b.text, b.at);
    }
    let cursor: usize = e.cursor;
    match key.code {
        KeyCode::Char(c) => {
            if c == 'i' {
                e.insert_mode = true;
            } else if c == 'V' {
                e.visual_line_anchor = Some(
                    project_editor_line_at(e.text.as_str(), cursor),
                );
            } else if c == 'u' {
                undo_change(e);
            } else if c == 'w' {
                e.cursor = next_word_boundary(
                    e.text.as_str(),
                    cursor,
                );
            } else if c == 'b' {
                e.cursor = prev_word_boundary(
                    e.text.as_str(),
                    cursor,
                );
            } else if c == '0' {
                e.cursor = config_editor_line_start(
                    e.text.as_str(),
                    cursor,
                );
            } else if c == '$' {
                e.cursor = config_editor_line_end(
                    e.text.as_str(),
                    cursor,
                );
            } else if c == 'x' {
                delete_forward(e, false);
            }
        },
        KeyCode::Home => {
            e.cursor = config_editor_line_start(
                e.text.as_str(),
                cursor,
            );
        },
        KeyCode::End => {
            e.cursor = config_editor_line_end(
                e.text.as_str(),
                cursor,
            );
        },
        KeyCode::Backspace => {
            if key.modifiers.control {
                let previous: usize = prev_word_boundary(
                    e.text.as_str(),
                    cursor,
                );
                if previous != cursor {
                    delete_range(e, previous, cursor);
                }
            } else {
                e.cursor = prev_char_boundary(
                    e.text.as_str(),
                    cursor,
                );
            }
        },
        KeyCode::Delete => {
            delete_forward(e, key.modifiers.control);
        },
        KeyCode::PageUp => move_page(e, -1),
        KeyCode::PageDown => move_page(e, 1),
        _ => {},
    }
}

/// Deletes the character or word after the cursor, if there is one.
fn delete_forward(e: &mut ProjectEditor, by_word: bool)
    requires
        old(e).wf(),
    ensures
        ({
            let b = buf(*old(e));
            if b.at < b.text.len() {
                change_step(*old(e), removed(b, b.at, delete_to(b, by_word)), *final(e))
            } else {
                *final(e) == *old(e)
            }
        }),
        final(e).wf(),
{
    let ghost b = buf(*e);
    proof {
        lemma_words(b.text, b.at);
    }
    let cursor: usize = e.cursor;
    let next: usize = if by_word {
        next_word_boundary(e.text.as_str(), cursor)
    } else {
        crate::lines::next_char_boundary(e.text.as_str(), cursor)
    };
    if next != cursor {
        delete_range(e, cursor, next);
    }
}

/// What a key of the normal mode does at time `now` when no two-key command
/// waits.
pub open spec fn fresh_key_step(
    e: ProjectEditor,
    key: KeyEvent,
    now: u64,
    post: ProjectEditor,
    copied: Option<Seq<char>>,
) -> bool {
    let b = buf(e);
    let steady = ProjectEditor { manual_scroll: false, ..e };
    if sequence_starter(e, key) is Some {
        &&& copied is None
        &&& post == ProjectEditor {
            pending_sequence: Some(
                ProjectEditorPendingSequence {
                    first_key: sequence_starter(e, key)->0,
                    started_at: now,
                },
            ),
            ..e
        }
    } else if movement_code(key.code) is Some {
        &&& copied is None
        &&& move_step(
            steady,
            edited(b, KeyEvent { code: movement_code(key.code)->0, ..key }).at,
            post,
        )
    } else if motion_target(b, key.code) is Some {
        copied is None && move_step(steady, motion_target(b, key.code)->0, post)
    } else if key.modifiers.control && key.code == KeyCode::Char('r') {
        copied is None && redo_step(e, post)
    } else if e.visual_line_anchor is Some {
        visual_key_step(e, e.visual_line_anchor->0 as int, key, post, copied)
    } else {
        copied is None && command_key_step(e, key, post)
    }
}

/// What a key of the normal mode does at time `now`.
pub open spec fn normal_key_step(
    e: ProjectEditor,
    key: KeyEvent,
    now: u64,
    post: ProjectEditor,
    copied: Option<Seq<char>>,
) -> bool {
    if e.pending_sequence is Some && sequence_takes(e.pending_sequence->0, key) {
        copied is None && sequence_step(e, e.pending_sequence->0, key, post)
    } else {
        fresh_key_step(ProjectEditor { pending_sequence: None, ..e }, key, now, post, copied)
    }
}

/// Handles a key in the normal mode; a text comes back to be copied.
pub fn handle_normal_key(e: &mut ProjectEditor, key: KeyEvent, now: u64) -> (copied: Option<String>)
    requires
        old(e).wf(),
    ensures
        normal_key_step(*old(e), key, now, *final(e), opt_text(copied)),
        final(e).wf(),
{
    if resolve_pending_sequence(e, key) {
        return None;
    }
    if let Some(first_key) = starts_sequence(e, key) {
        begin_pending_sequence(e, first_key, now);
        return None;
    }
    if let Some(code) = movement_of(key.code) {
        e.manual_scroll = false;
        let movement_key = KeyEvent { code, modifiers: key.modifiers, kind: key.kind };
        let _changed = edit_text(&mut e.text, &mut e.cursor, movement_key);
        return None;
    }
    if handle_motion(e, key) {
        return None;
    }
    if key.modifiers.control && key.code == KeyCode::Char('r') {
        redo_change(e);
        return None;
    }
    if let Some(anchor) = e.visual_line_anchor {
        return handle_visual_key(e, anchor, key);
    }
    handle_command_key(e, key);
    None
}

/// What the selected completion inserts.
pub open spec fn completion_offered(e: ProjectEditor) -> Option<Seq<char>> {
    if e.completion_selected < e.completions@.len() {
        Some(e.completions@[e.completion_selected as int].insert_text@)
    } else {
        None
    }
}

/// Where the citation key `query` starts that is being typed at the cursor: as many
/// bytes before it as the key has.
pub open spec fn query_start(e: ProjectEditor, query: Seq<char>) -> int {
    if e.cursor >= byte_len(query) {
        e.cursor - byte_len(query)
    } else {
        0
    }
}

/// The citation key, if there is one, starts between two characters.
pub open spec fn query_fits(e: ProjectEditor, query: Option<Seq<char>>) -> bool {
    completion_offered(e) is Some && query is Some ==> boundary(e.text@, query_start(e, query->0))
}

/// The buffer with `insert` in place of what stands from `from` up to the cursor.
pub open spec fn completed(b: Buffer, from: int, insert: Seq<char>) -> Buffer {
    Buffer { text: b.text.take(from) + insert + b.text.skip(b.at), at: from + insert.len() }
}

/// The editor after the completion of `query` was accepted.
pub open spec fn completion_step(
    pre: ProjectEditor,
    query: Seq<char>,
    post: ProjectEditor,
) -> bool {
    &&& post == ProjectEditor {
        text: post.text,
        cursor: post.cursor,
        dirty: true,
        completions: post.completions,
        ..pre
    }
    &&& post.completions@.len() == 0
    &&& completed(
        buf(pre),
        index(pre.text@, query_start(pre, query)),
        completion_offered(pre)->0,
    ).held(post.text@, post.cursor as int)
    &&& boundary(post.text@, post.cursor as int)
}

/// Replaces the citation key `query`, which is being typed at the cursor, by the
/// selected completion.
pub fn accept_completion(e: &mut ProjectEditor, query: Option<String>) -> (accepted: bool)
    requires
        old(e).wf(),
        query_fits(*old(e), opt_text(query)),
    ensures
        accepted == (completion_offered(*old(e)) is Some && query is Some),
        accepted ==> completion_step(*old(e), query->0@, *final(e)),
        !accepted ==> *final(e) == *old(e),
        final(e).wf(),
{
    let ghost b = buf(*e);
    if e.completion_selected >= e.completions.len() {
        return false;
    }
    let query: String = match query {
        None => return false,
        Some(query) => query,
    };
    let length: usize = text_len(query.as_str());
    let cursor: usize = e.cursor;
    let start: usize = if cursor >= length {
        cursor - length
    } else {
        0
    };
    let ghost from = index(e.text@, start as int);
    proof {
        lemma_index_order(e.text@, start as int, cursor as int);
    }
    let insert = e.completions[e.completion_selected].insert_text.clone();
    remove_range(&mut e.text, &mut e.cursor, start, cursor);
    proof {
        assert(e.text@.take(from) =~= b.text.take(from));
        assert(e.text@.skip(from) =~= b.text.skip(b.at));
    }
    insert_at_cursor(&mut e.text, &mut e.cursor, insert.as_str());
    e.dirty = true;
    e.completions.clear();
    true
}

proof fn lemma_index_order(s: Seq<char>, a: int, b: int)
    requires
        boundary(s, a),
        boundary(s, b),
        a <= b,
    ensures
        index(s, a) <= index(s, b),
{
    if index(s, b) < index(s, a) {
        lemma_offset_monotone(s, index(s, b), index(s, a));
    }
}

/// A completion replaces the citation key that is being typed, and nothing else of
/// the text.
pub proof fn law_completion_replaces_only_the_key(
    pre: ProjectEditor,
    query: Seq<char>,
    post: ProjectEditor,
)
    requires
        pre.wf(),
        completion_step(pre, query, post),
        ends_with_text(pre.text@.take(buf(pre).at), query),
    ensures
        query_fits(pre, Some(query)),
        post.text@ == pre.text@.take(buf(pre).at - query.len()) + completion_offered(pre)->0
            + pre.text@.skip(buf(pre).at),
{
    let b = buf(pre);
    let from = b.at - query.len();
    let before = b.text.take(b.at);
    assert(before =~= b.text.take(from) + query);
    lemma_byte_len_concat(b.text.take(from), query);
    reveal(offset);
    assert(offset(b.text, b.at) == offset(b.text, from) + byte_len(query));
    lemma_offset(b.text, from);
}

/// The editor with a text pasted at the cursor, and no completions.
pub open spec fn paste_step(pre: ProjectEditor, what: Seq<char>, post: ProjectEditor) -> bool {
    &&& change_step(
        ProjectEditor { completions: post.completions, ..pre },
        inserted(buf(pre), what),
        post,
    )
    &&& post.completions@.len() == 0
}

/// Inserts a text at the cursor, character by character as it is.
pub fn paste_text(e: &mut ProjectEditor, text: &str)
    requires
        old(e).wf(),
    ensures
        paste_step(*old(e), text@, *final(e)),
        final(e).wf(),
{
    record_change(e);
    insert_at_cursor(&mut e.text, &mut e.cursor, text);
    e.dirty = true;
    e.completions.clear();
}

/// Whether a key accepts the selected completion, once the citation key that is
/// being typed is known.
pub open spec fn completion_wanted(e: ProjectEditor, key: KeyEvent) -> bool {
    (key.code == KeyCode::Tab || key.code == KeyCode::Enter) && completion_offered(e) is Some
}

/// What a key of the insert mode does to the text.
pub open spec fn typing_step(e: ProjectEditor, key: KeyEvent, post: ProjectEditor) -> bool {
    let b = buf(e);
    let steady = ProjectEditor { manual_scroll: false, ..e };
    match insert_result(b, key) {
        EditorInsertResult::ExitInsert => post == ProjectEditor { insert_mode: false, ..e },
        EditorInsertResult::Changed => change_step(steady, insert_edited(b, key), post),
        EditorInsertResult::Moved => move_step(steady, insert_edited(b, key).at, post),
        EditorInsertResult::Ignored => post == e,
    }
}

/// What a key of the insert mode does that belongs to no completion.
pub open spec fn plain_key_step(e: ProjectEditor, key: KeyEvent, post: ProjectEditor) -> bool {
    if key.code == KeyCode::PageUp {
        move_step(e, page_target(e, -1), post)
    } else if key.code == KeyCode::PageDown {
        move_step(e, page_target(e, 1), post)
    } else {
        typing_step(e, key, post)
    }
}

/// What a key of the insert mode does; `asks` says that the citation key at the
/// cursor has to be known first.
pub open spec fn insert_key_step(
    e: ProjectEditor,
    key: KeyEvent,
    post: ProjectEditor,
    asks: bool,
) -> bool {
    &&& asks == completion_wanted(e, key)
    &&& if asks {
        post == e
    } else if e.completions@.len() > 0 && key.code == KeyCode::Up {
        post == ProjectEditor {
            completion_selected: previous_selection(e.completion_selected as int) as usize,
            ..e
        }
    } else if e.completions@.len() > 0 && key.code == KeyCode::Down {
        post == ProjectEditor {
            completion_selected: next_selection(
                e.completion_selected as int,
                e.completions@.len() as int,
            ) as usize,
            ..e
        }
    } else if e.completions@.len() > 0 && key.code == KeyCode::Esc {
        &&& post == ProjectEditor { completions: post.completions, ..e }
        &&& post.completions@.len() == 0
    } else {
        plain_key_step(e, key, post)
    }
}

/// What a key does that accepts a completion, once it is known which citation key
/// is being typed: where there is none, the key is typed.
pub open spec fn completion_key_step(
    e: ProjectEditor,
    key: KeyEvent,
    query: Option<Seq<char>>,
    post: ProjectEditor,
) -> bool {
    if completion_offered(e) is Some && query is Some {
        completion_step(e, query->0, post)
    } else {
        plain_key_step(e, key, post)
    }
}

fn type_key(e: &mut ProjectEditor, key: KeyEvent)
    requires
        old(e).wf(),
    ensures
        typing_step(*old(e), key, *final(e)),
        final(e).wf(),
{
    let before = (e.text.clone(), e.cursor);
    match apply_editor_insert_key(&mut e.text, &mut e.cursor, key) {
        EditorInsertResult::ExitInsert => {
            e.insert_mode = false;
        },
        EditorInsertResult::Changed => {
            record_snapshot(e, before);
            e.dirty = true;
            e.manual_scroll = false;
        },
        EditorInsertResult::Moved => {
            e.manual_scroll = false;
        },
        EditorInsertResult::Ignored => {},
    }
}

fn handle_plain_key(e: &mut ProjectEditor, key: KeyEvent)
    requires
        old(e).wf(),
    ensures
        plain_key_step(*old(e), key, *final(e)),
        final(e).wf(),
{
    match key.code {
        KeyCode::PageUp => move_page(e, -1),
        KeyCode::PageDown => move_page(e, 1),
        _ => type_key(e, key),
    }
}

/// Handles a key in the insert mode; the result says whether the citation key at
/// the cursor has to be known first.
pub fn handle_insert_key(e: &mut ProjectEditor, key: KeyEvent) -> (asks: bool)
    requires
        old(e).wf(),
    ensures
        insert_key_step(*old(e), key, *final(e), asks),
        final(e).wf(),
{
    if e.completions.len() > 0 {
        match key.code {
            KeyCode::Up => {
                e.completion_selected = select_previous(e.completion_selected);
                return false;
            },
            KeyCode::Down => {
                e.completion_selected = select_next(e.completion_selected, e.completions.len());
                return false;
            },
            KeyCode::Tab | KeyCode::Enter => {
                if e.completion_selected < e.completions.len() {
                    return true;
                }
            },
            KeyCode::Esc => {
                e.completions.clear();
                return false;
            },
            _ => {},
        }
    }
    handle_plain_key(e, key);
    false
}

/// Goes on with a key that accepts a completion: `query` is the citation key that is
/// being typed at the cursor.
pub fn finish_completion_key(e: &mut ProjectEditor, key: KeyEvent, query: Option<String>)
    requires
        old(e).wf(),
        query_fits(*old(e), opt_text(query)),
    ensures
        completion_key_step(*old(e), key, opt_text(query), *final(e)),
        final(e).wf(),
{
    if !accept_completion(e, query) {
        handle_plain_key(e, key);
    }
}

/// The buffer with the cursor `n` lines up or down.
pub open spec fn scrolled(b: Buffer, down: bool, n: nat) -> Buffer
    decreases n,
{
    if n == 0 {
        b
    } else {
        let before = scrolled(b, down, (n - 1) as nat);
        moved(before, vertical(before.text, before.at, down))
    }
}

/// Moves the cursor `n` lines up or down.
pub fn scroll_lines(e: &mut ProjectEditor, down: bool, n: usize)
    requires
        old(e).wf(),
    ensures
        move_step(
            ProjectEditor { manual_scroll: false, ..*old(e) },
            scrolled(buf(*old(e)), down, n as nat).at,
            *final(e),
        ),
        final(e).wf(),
{
    let ghost pre = *e;
    let mut i: usize = 0;
    while i < n
        invariant
            i <= n,
            pre == *old(e),
            pre.wf(),
            *e == (ProjectEditor { cursor: e.cursor, ..pre }),
            buf(*e) == scrolled(buf(pre), down, i as nat),
            boundary(e.text@, e.cursor as int),
        decreases n - i,
    {
        move_text_cursor_vertical(e.text.as_str(), &mut e.cursor, down);
        i = i + 1;
    }
    e.manual_scroll = false;
}

/// Motions extend a selection of lines: they keep where it starts, and the text.
pub proof fn law_motions_extend_the_selection(
    e: ProjectEditor,
    key: KeyEvent,
    now: u64,
    post: ProjectEditor,
    copied: Option<Seq<char>>,
)
    requires
        normal_key_step(e, key, now, post, copied),
        e.pending_sequence is None,
        e.visual_line_anchor is Some,
        motion_target(buf(e), key.code) is Some || movement_code(key.code) is Some,
    ensures
        post.visual_line_anchor == e.visual_line_anchor,
        post.text == e.text,
        copied is None,
{
}

/// A selection of lines covers exactly the characters whose line lies between the
/// line where it starts and the line of the cursor, both included, whichever of
/// the two comes first.
pub proof fn law_selection_covers_its_lines(b: Buffer, anchor: int)
    requires
        b.valid(),
        0 <= anchor,
    ensures
        covers_lines(
            b.text,
            visual_range(b, anchor).0,
            visual_range(b, anchor).1,
            anchor,
            line_number(b.text, b.at),
        ),
{
    let t = b.text;
    let current = line_number(t, b.at);
    lemma_line_of(t, b.at);
    let first = if anchor < current {
        anchor
    } else {
        current
    };
    let last = if anchor < current {
        current
    } else {
        anchor
    };
    let (from, to) = visual_range(b, anchor);
    law_line_begin_divides_the_text(t, first, 0);
    if last + 1 < line_count(t) {
        law_line_begin_divides_the_text(t, last + 1, 0);
        lemma_line_begin(t, last + 1);
        law_line_begin_divides_the_text(t, first, to);
    }
    assert forall|i: int| 0 <= i < t.len() implies (from <= i < to <==> (anchor
        <= #[trigger] line_number(t, i) <= current || current <= line_number(t, i) <= anchor)) by {
        law_line_begin_divides_the_text(t, first, i);
        lemma_line_of(t, i);
        if last + 1 < line_count(t) {
            law_line_begin_divides_the_text(t, last + 1, i);
        }
    }
}

/// A selection of lines is the same whichever of its ends it starts at.
pub proof fn law_selection_is_symmetric(a: Buffer, b: Buffer)
    requires
        a.valid(),
        b.valid(),
        a.text == b.text,
    ensures
        visual_range(a, line_number(b.text, b.at)) == visual_range(b, line_number(a.text, a.at)),
{
}

/// `d` takes the selected lines out of the text, all of them and nothing else, as
/// one change that can be undone, and `y` hands them over to be copied and leaves
/// the text alone. Either ends the selection.
pub proof fn law_selected_lines_are_deleted_or_copied(
    e: ProjectEditor,
    key: KeyEvent,
    now: u64,
    post: ProjectEditor,
    copied: Option<Seq<char>>,
)
    requires
        e.wf(),
        normal_key_step(e, key, now, post, copied),
        e.pending_sequence is None,
        e.visual_line_anchor is Some,
        key.code == KeyCode::Char('d') || key.code == KeyCode::Char('y'),
    ensures
        post.visual_line_anchor is None,
        exists|from: int, to: int|
            {
                &&& #[trigger] covers_lines(
                    e.text@,
                    from,
                    to,
                    e.visual_line_anchor->0 as int,
                    line_number(e.text@, index(e.text@, e.cursor as int)),
                )
                &&& if key.code == KeyCode::Char('d') {
                    &&& post.text@ == e.text@.take(from) + e.text@.skip(to)
                    &&& index(post.text@, post.cursor as int) == from
                    &&& post.dirty
                    &&& copied is None
                    &&& post.undo@.last().0@ == e.text@
                    &&& post.undo@.last().1 == e.cursor
                    &&& post.redo@.len() == 0
                } else {
                    &&& copied == Some(e.text@.subrange(from, to))
                    &&& post.text == e.text
                    &&& post.cursor == e.cursor
                    &&& post.dirty == e.dirty
                    &&& post.undo == e.undo
                }
            },
{
    let b = buf(e);
    let anchor = e.visual_line_anchor->0 as int;
    law_selection_covers_its_lines(b, anchor);
    let (from, to) = visual_range(b, anchor);
    assert(covers_lines(e.text@, from, to, anchor, line_number(e.text@, b.at)));
}

/// Escape and `V` end a selection of lines and change nothing else.
pub proof fn law_escape_ends_the_selection(
    e: ProjectEditor,
    key: KeyEvent,
    now: u64,
    post: ProjectEditor,
    copied: Option<Seq<char>>,
)
    requires
        normal_key_step(e, key, now, post, copied),
        e.pending_sequence is None,
        e.visual_line_anchor is Some,
        key.code == KeyCode::Esc || key.code == KeyCode::Char('V'),
    ensures
        post == (ProjectEditor { visual_line_anchor: None, ..e }),
        copied is None,
{
}

/// The editor stands in its normal mode with neither a selection nor the first key
/// of a two-key command, and takes a key without Control and Alt.
pub open spec fn plain_normal_key(e: ProjectEditor, key: KeyEvent) -> bool {
    &&& e.wf()
    &&& e.pending_sequence is None
    &&& e.visual_line_anchor is None
    &&& !key.modifiers.control
    &&& !key.modifiers.alt
}

/// `h`, `j`, `k` and `l` move like the arrows: by one character, or by one line as
/// far as there is one, and never change the text.
pub proof fn law_letter_keys_move_like_arrows(
    e: ProjectEditor,
    key: KeyEvent,
    now: u64,
    post: ProjectEditor,
    copied: Option<Seq<char>>,
)
    requires
        plain_normal_key(e, key),
        normal_key_step(e, key, now, post, copied),
    ensures
        ({
            let t = e.text@;
            let at = index(t, e.cursor as int);
            let to = index(t, post.cursor as int);
            let left = key.code == KeyCode::Char('h') || key.code == KeyCode::Left;
            let right = key.code == KeyCode::Char('l') || key.code == KeyCode::Right;
            let up = key.code == KeyCode::Char('k') || key.code == KeyCode::Up;
            let down = key.code == KeyCode::Char('j') || key.code == KeyCode::Down;
            &&& left || right || up || down ==> post == ProjectEditor {
                cursor: post.cursor,
                manual_scroll: false,
                ..e
            } && copied is None
            &&& left && at > 0 ==> to == at - 1
            &&& left && at == 0 ==> to == 0
            &&& right && at < t.len() ==> to == at + 1
            &&& right && at == t.len() ==> to == at
            &&& up && line_number(t, at) > 0 ==> line_number(t, to) == line_number(t, at) - 1
            &&& up && line_number(t, at) == 0 ==> to == at
            &&& down && line_number(t, at) + 1 < line_count(t) ==> line_number(t, to)
                == line_number(t, at) + 1
            &&& down && line_number(t, at) + 1 == line_count(t) ==> to == at
        }),
{
    let b = buf(e);
    if movement_code(key.code) is Some {
        let arrow = KeyEvent { code: movement_code(key.code)->0, ..key };
        law_edit_keeps_cursor_valid(b, arrow);
        law_arrow_keys_move_the_cursor(b, arrow);
        law_vertical_keys_change_the_line(b, arrow);
    }
}

/// `w` goes to the next word and `b` to the word before; `0` and Home go to the
/// start of the line, `$` and End to its end; Backspace goes back by one character.
/// The text stays.
pub proof fn law_motion_keys_move_the_cursor(
    e: ProjectEditor,
    key: KeyEvent,
    now: u64,
    post: ProjectEditor,
    copied: Option<Seq<char>>,
)
    requires
        plain_normal_key(e, key),
        normal_key_step(e, key, now, post, copied),
        key.code == KeyCode::Char('w') || key.code == KeyCode::Char('b') || key.code
            == KeyCode::Char('0') || key.code == KeyCode::Char('$') || key.code == KeyCode::Home
            || key.code == KeyCode::End || key.code == KeyCode::Backspace,
    ensures
        post == (ProjectEditor { cursor: post.cursor, ..e }),
        copied is None,
        ({
            let t = e.text@;
            let at = index(t, e.cursor as int);
            let to = index(t, post.cursor as int);
            let start = key.code == KeyCode::Char('0') || key.code == KeyCode::Home;
            let end = key.code == KeyCode::Char('$') || key.code == KeyCode::End;
            &&& key.code == KeyCode::Char('w') ==> is_word_after(t, at, to)
            &&& key.code == KeyCode::Char('b') ==> is_word_before(t, at, to)
            &&& start ==> to <= at && (to == 0 || t[to - 1] == '\n') && forall|k: int|
                to <= k < at ==> t[k] != '\n'
            &&& end ==> at <= to && (to == t.len() || t[to] == '\n') && forall|k: int|
                at <= k < to ==> t[k] != '\n'
            &&& key.code == KeyCode::Backspace && at > 0 ==> to == at - 1
            &&& key.code == KeyCode::Backspace && at == 0 ==> to == 0
        }),
{
    let b = buf(e);
    law_next_word_is_the_nearest(b.text, b.at);
    law_previous_word_is_the_nearest(b.text, b.at);
    law_line_ends(b.text, b.at);
}

/// `G` goes to the start of the last line; `{` and `}` go to the paragraph above
/// and below, and `%` to the partner of the delimiter at the cursor where it has
/// one. With and without a selection, the text stays and a selection goes on.
pub proof fn law_far_motions_move_the_cursor(
    e: ProjectEditor,
    key: KeyEvent,
    now: u64,
    post: ProjectEditor,
    copied: Option<Seq<char>>,
)
    requires
        e.wf(),
        e.pending_sequence is None,
        normal_key_step(e, key, now, post, copied),
    ensures
        ({
            let t = e.text@;
            let at = index(t, e.cursor as int);
            let to = index(t, post.cursor as int);
            let line = line_number(t, at);
            let far = key.code == KeyCode::Char('G') || key.code == KeyCode::Char('{') || key.code
                == KeyCode::Char('}');
            &&& far ==> post == ProjectEditor {
                cursor: post.cursor,
                manual_scroll: false,
                ..e
            } && copied is None
            &&& far ==> to == 0 || t[to - 1] == '\n'
            &&& key.code == KeyCode::Char('G') ==> line_number(t, to) == line_count(t) - 1
            &&& key.code == KeyCode::Char('{') ==> {
                let p = line_number(t, to);
                &&& p == 0 || p < line && paragraph_starts(t, p)
                &&& forall|q: int| p < q < line ==> !#[trigger] paragraph_starts(t, q)
            }
            &&& key.code == KeyCode::Char('}') ==> {
                let p = line_number(t, to);
                &&& p == line_count(t) - 1 || p > line && paragraph_starts(t, p)
                &&& forall|q: int| line < q < p ==> !#[trigger] paragraph_starts(t, q)
            }
            &&& key.code == KeyCode::Char('%') && (exists|j: int| delimiter_partner(t, at, j))
                ==> delimiter_partner(t, at, to) && post == ProjectEditor {
                cursor: post.cursor,
                manual_scroll: false,
                ..e
            }
        }),
{
    let b = buf(e);
    let t = b.text;
    lemma_line_of(t, b.at);
    law_line_ends(t, t.len() as int);
    lemma_line_start(t, t.len() as int);
    law_paragraph_above_is_the_nearest(t, line_number(t, b.at));
    law_paragraph_below_is_the_nearest(t, line_number(t, b.at));
    let above = paragraph_above(t, line_number(t, b.at));
    let below = paragraph_below(t, line_number(t, b.at));
    lemma_line_begin(t, above);
    lemma_line_begin(t, below);
    lemma_line_start(t, line_begin(t, above));
    lemma_line_start(t, line_begin(t, below));
    if key.code == KeyCode::Char('%') && exists|j: int| delimiter_partner(t, b.at, j) {
        let j = choose|j: int| delimiter_partner(t, b.at, j);
        assert(delimiter_partner(t, b.at, j));
    }
}

/// `x` and Delete take the character at the cursor, which stays where it is; `i`
/// starts the insert mode; `V` starts a selection at the line of the cursor.
pub proof fn law_command_keys(
    e: ProjectEditor,
    key: KeyEvent,
    now: u64,
    post: ProjectEditor,
    copied: Option<Seq<char>>,
)
    requires
        plain_normal_key(e, key),
        normal_key_step(e, key, now, post, copied),
    ensures
        ({
            let t = e.text@;
            let at = index(t, e.cursor as int);
            let deletes = key.code == KeyCode::Char('x') || key.code == KeyCode::Delete;
            &&& deletes && at < t.len() ==> post.text@ == t.remove(at) && post.cursor == e.cursor
                && post.dirty && post.undo@.last().0@ == t
            &&& deletes && at == t.len() ==> post == e
            &&& key.code == KeyCode::Char('i') ==> post == ProjectEditor { insert_mode: true, ..e }
            &&& key.code == KeyCode::Char('V') ==> post == ProjectEditor {
                visual_line_anchor: post.visual_line_anchor,
                ..e
            } && post.visual_line_anchor is Some && post.visual_line_anchor->0
                == t.take(at).to_multiset().count('\n')
        }),
{
    let b = buf(e);
    let t = b.text;
    law_line_number_counts_line_feeds(t, b.at);
    lemma_line_number_monotone(t, 0, b.at);
    lemma_line_number_fits(e);
    if b.at < t.len() {
        assert(t.take(b.at) + t.skip(b.at + 1) =~= t.remove(b.at));
        assert(t.remove(b.at).take(b.at) =~= t.take(b.at));
        lemma_offset_prefix(t, t.remove(b.at), b.at);
    }
}

/// A line number is at most the byte offset of its position.
proof fn lemma_line_number_fits(e: ProjectEditor)
    requires
        e.wf(),
    ensures
        line_number(e.text@, buf(e).at) <= e.cursor,
{
    let t = e.text@;
    lemma_line_number_monotone(t, 0, buf(e).at);
    lemma_index_within_offset(t, buf(e).at);
}

proof fn lemma_index_within_offset(t: Seq<char>, i: int)
    requires
        0 <= i <= t.len(),
    ensures
        i <= offset(t, i),
    decreases i,
{
    if i > 0 {
        lemma_index_within_offset(t, i - 1);
        lemma_offset_step(t, i - 1);
    }
}

/// `u` brings the text and cursor of the last snapshot back, and Control with `r`
/// those that undo took away; with nothing there, nothing changes.
pub proof fn law_undo_and_redo_keys(
    e: ProjectEditor,
    key: KeyEvent,
    now: u64,
    post: ProjectEditor,
    copied: Option<Seq<char>>,
)
    requires
        e.pending_sequence is None,
        e.visual_line_anchor is None,
        normal_key_step(e, key, now, post, copied),
        key.code == KeyCode::Char('u') && !key.modifiers.control || key.code == KeyCode::Char('r')
            && key.modifiers.control,
    ensures
        ({
            let stack = if key.code == KeyCode::Char('u') { e.undo@ } else { e.redo@ };
            let other = if key.code == KeyCode::Char('u') { post.redo@ } else { post.undo@ };
            if stack.len() == 0 {
                post == e
            } else {
                &&& post.text == stack.last().0
                &&& post.cursor == stack.last().1
                &&& post.dirty
                &&& other.last() == (e.text, e.cursor)
            }
        }),
        copied is None,
{
}

/// `g` twice goes to the start of the text; `d` twice takes the line of the cursor
/// out of it: the characters of that line and its line feed, or, of an empty last
/// line, the line feed before it.
pub proof fn law_two_key_commands(
    e: ProjectEditor,
    key: KeyEvent,
    now: u64,
    mid: ProjectEditor,
    later: u64,
    post: ProjectEditor,
    copied: (Option<Seq<char>>, Option<Seq<char>>),
)
    requires
        plain_normal_key(e, key),
        key.code == KeyCode::Char('g') || key.code == KeyCode::Char('d'),
        normal_key_step(e, key, now, mid, copied.0),
        normal_key_step(mid, key, later, post, copied.1),
    ensures
        mid.text == e.text,
        mid.cursor == e.cursor,
        copied == (None::<Seq<char>>, None::<Seq<char>>),
        post.pending_sequence is None,
        key.code == KeyCode::Char('g') ==> post.text == e.text && post.cursor == 0,
        key.code == KeyCode::Char('d') && e.text@.len() > 0 ==> ({
            let t = e.text@;
            let at = index(t, e.cursor as int);
            let n = line_number(t, at);
            if at == t.len() && t.last() == '\n' {
                post.text@ == t.drop_last()
            } else {
                exists|from: int, to: int| #[trigger]
                    covers_lines(t, from, to, n, n) && post.text@ == t.take(from) + t.skip(to)
                        && index(post.text@, post.cursor as int) == from
            }
        }),
        key.code == KeyCode::Char('d') && e.text@.len() == 0 ==> post.text == e.text,
{
    if key.code == KeyCode::Char('d') && e.text@.len() > 0 {
        let b = buf(e);
        let t = b.text;
        let n = line_number(t, b.at);
        let (from, to) = current_line_range(b);
        law_line_ends(t, b.at);
        lemma_line_start(t, b.at);
        lemma_line_end(t, b.at);
        if b.at == t.len() && t.last() == '\n' {
            assert(line_start(t, b.at) == b.at);
            assert(t.take(t.len() - 1) + t.skip(t.len() as int) =~= t.drop_last());
        } else {
            assert(from == line_start(t, b.at));
            assert forall|i: int| 0 <= i < t.len() implies (from <= i < to <==> n
                <= #[trigger] line_number(t, i) <= n) by {
                lemma_line_of(t, b.at);
                law_line_begin_divides_the_text(t, n, i);
                if line_end(t, b.at) < t.len() {
                    lemma_line_number_monotone(t, to, t.len() as int);
                    if i < to {
                        lemma_line_number_monotone(t, i, to - 1);
                    } else {
                        lemma_line_number_monotone(t, to, i);
                    }
                } else {
                    lemma_line_number_monotone(t, i, t.len() as int);
                }
            }
            assert(covers_lines(t, from, to, n, n));
        }
    }
}

/// Escape takes back the first key of a two-key command and does nothing else.
pub proof fn law_escape_cancels_a_two_key_command(
    e: ProjectEditor,
    key: KeyEvent,
    now: u64,
    post: ProjectEditor,
    copied: Option<Seq<char>>,
)
    requires
        normal_key_step(e, key, now, post, copied),
        e.pending_sequence is Some,
        key.code == KeyCode::Esc,
    ensures
        post == (ProjectEditor { pending_sequence: None, ..e }),
        copied is None,
{
}

/// In the insert mode a typed character, Enter and Tab stand at the cursor, which
/// moves behind them; Backspace takes the character before it. Each is a change
/// that can be undone. Escape goes back to the normal mode.
pub proof fn law_insert_mode_types(e: ProjectEditor, key: KeyEvent, post: ProjectEditor, asks: bool)
    requires
        e.wf(),
        e.completions@.len() == 0,
        !key.modifiers.control,
        !key.modifiers.alt,
        insert_key_step(e, key, post, asks),
    ensures
        ({
            let t = e.text@;
            let at = index(t, e.cursor as int);
            let to = index(post.text@, post.cursor as int);
            let typed = match key.code {
                KeyCode::Char(c) => Some(c),
                KeyCode::Enter => Some('\n'),
                KeyCode::Tab => Some('\t'),
                _ => None,
            };
            &&& typed is Some ==> post.text@ == t.insert(at, typed->0) && to == at + 1
                && post.undo@.last().0@ == t && post.dirty
            &&& key.code == KeyCode::Backspace && at > 0 ==> post.text@ == t.remove(at - 1) && to
                == at - 1 && post.dirty
            &&& key.code == KeyCode::Esc ==> post == ProjectEditor { insert_mode: false, ..e }
        }),
        post.insert_mode == (e.insert_mode && key.code != KeyCode::Esc),
        !asks,
{
    let b = buf(e);
    law_insert_mode_keys(b, key);
    law_editing_keys_change_one_character(b, key);
}

/// While completions are offered, Tab and Enter ask for the selected one, Up and
/// Down select another, and Escape sends them away; none of them touches the text.
pub proof fn law_completions_take_their_keys(
    e: ProjectEditor,
    key: KeyEvent,
    post: ProjectEditor,
    asks: bool,
)
    requires
        insert_key_step(e, key, post, asks),
        e.completion_selected < e.completions@.len(),
        key.code == KeyCode::Tab || key.code == KeyCode::Enter || key.code == KeyCode::Up || key.code
            == KeyCode::Down || key.code == KeyCode::Esc,
    ensures
        post.text == e.text,
        post.cursor == e.cursor,
        post.insert_mode == e.insert_mode,
        asks == (key.code == KeyCode::Tab || key.code == KeyCode::Enter),
        key.code == KeyCode::Esc ==> post.completions@.len() == 0,
        key.code == KeyCode::Up && e.completion_selected > 0 ==> post.completion_selected
            == e.completion_selected - 1,
        key.code == KeyCode::Up && e.completion_selected == 0 ==> post.completion_selected == 0,
        key.code == KeyCode::Down && e.completion_selected + 1 < e.completions@.len()
            ==> post.completion_selected == e.completion_selected + 1,
        key.code == KeyCode::Down && e.completion_selected + 1 == e.completions@.len()
            ==> post.completion_selected == e.completion_selected,
{
    assert(e.completions.len() == e.completions@.len());
}

/// A change is put on the undo stack: the state before is its last entry, what was
/// there before stays below it, but for the oldest entry of a full stack.
pub proof fn law_changes_are_recorded(undo: Seq<(String, usize)>, snapshot: (String, usize))
    ensures
        recorded(undo, snapshot).len() > 0,
        recorded(undo, snapshot).last().0@ == snapshot.0@,
        recorded(undo, snapshot).last().1 == snapshot.1,
        undo.len() < PROJECT_EDITOR_UNDO_LIMIT ==> recorded(undo, snapshot) == undo || recorded(
            undo,
            snapshot,
        ).drop_last() == undo,
        undo.len() == PROJECT_EDITOR_UNDO_LIMIT ==> recorded(undo, snapshot) == undo || recorded(
            undo,
            snapshot,
        ).drop_last() == undo.drop_first(),
        recorded(undo, snapshot) == undo ==> undo.len() > 0 && undo.last().0@ == snapshot.0@
            && undo.last().1 == snapshot.1,
{
    assert(undo.push(snapshot).drop_last() =~= undo);
    if undo.len() > 0 {
        assert(undo.push(snapshot).drop_first().drop_last() =~= undo.drop_first());
    }
}

/// The first key of a two-key command is forgotten exactly when its time is over.
pub proof fn law_two_key_commands_expire(e: ProjectEditor, now: u64)
    ensures
        e.pending_sequence matches Some(p) ==> (sequence_expired(e.pending_sequence, now) <==> now
            >= p.started_at + 1000),
        e.pending_sequence is None ==> !sequence_expired(e.pending_sequence, now),
{
}

/// A pasted text stands at the cursor, which moves behind it; the text around it
/// stays, and the change can be undone.
pub proof fn law_paste_inserts_at_the_cursor(e: ProjectEditor, what: Seq<char>, post: ProjectEditor)
    requires
        e.wf(),
        paste_step(e, what, post),
    ensures
        ({
            let t = e.text@;
            let at = index(t, e.cursor as int);
            &&& post.text@.len() == t.len() + what.len()
            &&& post.text@.take(at) == t.take(at)
            &&& post.text@.subrange(at, at + what.len()) == what
            &&& post.text@.skip(at + what.len()) == t.skip(at)
            &&& index(post.text@, post.cursor as int) == at + what.len()
        }),
        post.undo@.last().0@ == e.text@,
        post.undo@.last().1 == e.cursor,
{
    let t = e.text@;
    let at = buf(e).at;
    assert(post.text@.take(at) =~= t.take(at));
    assert(post.text@.subrange(at, at + what.len()) =~= what);
    assert(post.text@.skip(at + what.len()) =~= t.skip(at));
}

/// A recorded state is what undoing brings back next, and nothing is left to redo.
pub proof fn law_recorded_states_are_undone_next(
    pre: ProjectEditor,
    snapshot: (String, usize),
    post: ProjectEditor,
)
    requires
        snapshot_step(pre, snapshot, post),
    ensures
        post.undo@.len() > 0,
        post.undo@.last().0@ == snapshot.0@,
        post.undo@.last().1 == snapshot.1,
        post.redo@.len() == 0,
        post.text == pre.text,
        post.cursor == pre.cursor,
{
}

/// A key that accepts a completion does so where one is offered for the key of a citation, and is
/// typed otherwise.
pub proof fn law_completions_need_a_citation(
    e: ProjectEditor,
    key: KeyEvent,
    query: Option<Seq<char>>,
    post: ProjectEditor,
)
    requires
        completion_key_step(e, key, query, post),
    ensures
        query is None ==> plain_key_step(e, key, post),
        completion_offered(e) is None ==> plain_key_step(e, key, post),
        query is Some && completion_offered(e) is Some ==> completion_step(e, query->0, post),
{
}

} // verus!
