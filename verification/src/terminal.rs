//! The terminal palette: its command line, completions and output.

use vstd::prelude::*;
use crate::actions::{CandidateKind, UiAction};
use crate::chars::{
    blank, char_whitespace, decimal, decimal_text, is_blank, is_whitespace,
    lemma_blank_is_trimmed_empty, starts_with, starts_with_text, trim, trimmed, utf8_width,
};
use crate::config_editor::message;
use crate::keys::{KeyCode, KeyEvent};
use crate::model::opt_text;
use crate::order::{
    has_prefix_ignoring_case, has_text, insert_sorted, sorted_texts, starts_with_ignoring_case,
};
use crate::paths::{joined, last_position, lemma_last_position, path_join};
use crate::state::{App, AppMode, TerminalPalette};
use crate::text::{
    boundary, byte_len, byte_offset, char_index, from_chars, group_points, index,
    lemma_offset_monotone, offset, same_text, text_before, text_len, to_chars,
};
use crate::text_edit::{
    buffer, edit_text, edited, insert_at_cursor, law_edit_keeps_cursor_valid,
    law_editing_keys_change_one_character, remove_range, Buffer,
};
use crate::viewer::Platform;

verus! {

broadcast use group_points;

/// How much output the palette keeps, in bytes.
pub const MAX_TERMINAL_SCROLLBACK_BYTES: usize = 65536;

/// Control characters.
pub open spec fn is_control(c: char) -> bool {
    c as u32 <= 0x1f || 0x7f <= c as u32 <= 0x9f
}

/// Whether output may hold the character: line feeds and tabs, and whatever is
/// no control character.
pub open spec fn printable(c: char) -> bool {
    c == '\n' || c == '\t' || !is_control(c)
}

/// Output without its control characters.
pub open spec fn sanitized(s: Seq<char>) -> Seq<char> {
    s.filter(|c: char| printable(c))
}

/// Output without its control characters, so that it cannot steer the terminal.
pub fn sanitize_terminal_output(text: &str) -> (r: String)
    ensures
        r@ == sanitized(text@),
{
    let t = to_chars(text);
    let mut r = String::new();
    let mut i: usize = 0;
    let ghost keep = |c: char| printable(c);
    proof {
        reveal(Seq::filter);
        assert(t@.take(0) =~= Seq::<char>::empty());
    }
    while i < t.len()
        invariant
            i <= t@.len(),
            t@ == text@,
            keep == (|c: char| printable(c)),
            r@ == t@.take(i as int).filter(keep),
        decreases t.len() - i,
    {
        let c = t[i];
        let code: u32 = c as u32;
        proof {
            reveal(Seq::filter);
            assert(t@.take(i + 1).drop_last() =~= t@.take(i as int));
            assert(t@.take(i + 1).last() == c);
        }
        if c == '\n' || c == '\t' || !(code <= 0x1f || (0x7f <= code && code <= 0x9f)) {
            r.push(c);
        }
        i = i + 1;
    }
    assert(t@.take(t@.len() as int) =~= t@);
    r
}

/// Sanitized output holds nothing that a terminal obeys, and sanitizing it
/// again changes nothing.
pub proof fn law_sanitized_output_is_printable(s: Seq<char>)
    ensures
        forall|i: int| 0 <= i < sanitized(s).len() ==> printable(#[trigger] sanitized(s)[i]),
        sanitized(sanitized(s)) == sanitized(s),
    decreases s.len(),
{
    reveal(Seq::filter);
    let keep = |c: char| printable(c);
    if s.len() > 0 {
        law_sanitized_output_is_printable(s.drop_last());
        let rest = sanitized(s.drop_last());
        if printable(s.last()) {
            assert(sanitized(s) =~= rest.push(s.last()));
            assert(rest.push(s.last()).drop_last() =~= rest);
        }
    }
}

/// The longest end of `s` of fewer than `max` bytes.
pub open spec fn tail_below(s: Seq<char>, max: int) -> Seq<char>
    decreases s.len(),
{
    if s.len() == 0 || byte_len(s) < max {
        s
    } else {
        tail_below(s.drop_first(), max)
    }
}

/// What the palette keeps of an output.
pub open spec fn kept_output(s: Seq<char>) -> Seq<char> {
    if byte_len(s) > MAX_TERMINAL_SCROLLBACK_BYTES {
        tail_below(s, MAX_TERMINAL_SCROLLBACK_BYTES as int)
    } else {
        s
    }
}

/// The kept output never takes more than its limit.
pub proof fn law_output_is_bounded(s: Seq<char>)
    ensures
        byte_len(kept_output(s)) <= MAX_TERMINAL_SCROLLBACK_BYTES,
{
    lemma_tail_below(s, MAX_TERMINAL_SCROLLBACK_BYTES as int);
}

proof fn lemma_tail_below(s: Seq<char>, max: int)
    requires
        max > 0,
    ensures
        byte_len(tail_below(s, max)) < max,
    decreases s.len(),
{
    if s.len() == 0 {
        reveal(byte_len);
    } else if byte_len(s) >= max {
        lemma_tail_below(s.drop_first(), max);
    }
}

fn keep_tail(s: &str, max: usize) -> (r: String)
    requires
        max > 0,
    ensures
        r@ == tail_below(s@, max as int),
{
    let t = to_chars(s);
    let length: usize = t.len();
    let mut left: usize = text_len(s);
    let mut i: usize = 0;
    assert(t@.skip(0) =~= s@);
    while left >= max
        invariant
            i <= t@.len(),
            length == t@.len(),
            max > 0,
            left == byte_len(t@.skip(i as int)),
            tail_below(s@, max as int) == tail_below(t@.skip(i as int), max as int),
        decreases t@.len() - i,
    {
        let ghost rest = t@.skip(i as int);
        proof {
            if i == t@.len() {
                assert(rest =~= Seq::<char>::empty());
                reveal(byte_len);
                assert(false);
            }
            assert(rest =~= seq![rest[0]] + rest.drop_first());
            crate::text::lemma_byte_len_concat(seq![rest[0]], rest.drop_first());
            crate::text::lemma_byte_len_push(Seq::empty(), rest[0]);
            assert(rest.drop_first() =~= t@.skip(i + 1));
        }
        left = left - utf8_width(t[i]);
        i = i + 1;
    }
    assert(t@.subrange(i as int, t@.len() as int) =~= t@.skip(i as int));
    from_chars(&t, i, t.len())
}

/// The output after a command: the command on a line of its own behind a
/// prompt, then what it printed, without control characters.
pub open spec fn with_output(before: Seq<char>, command: Seq<char>, output: Seq<char>) -> Seq<char> {
    let head = if before.len() > 0 { before.push('\n') } else { before };
    kept_output(head + "$ "@ + command.push('\n') + sanitized(output))
}

fn append_output(t: &mut TerminalPalette, command: &str, output: &str)
    ensures
        *final(t) == (TerminalPalette { output: final(t).output, ..*old(t) }),
        final(t).output@ == with_output(old(t).output@, command@, output@),
{
    let mut text = t.output.clone();
    if !text.as_str().is_empty() {
        text.push('\n');
    }
    text.append("$ ");
    text.append(command);
    text.push('\n');
    text.append(sanitize_terminal_output(output).as_str());
    proof {
        let head = if t.output@.len() > 0 { t.output@.push('\n') } else { t.output@ };
        assert(text@ =~= head + "$ "@ + command@.push('\n') + sanitized(output@));
    }
    if text_len(text.as_str()) > MAX_TERMINAL_SCROLLBACK_BYTES {
        t.output = keep_tail(text.as_str(), MAX_TERMINAL_SCROLLBACK_BYTES);
    } else {
        t.output = text;
    }
}

/// The palette without completions.
pub open spec fn completion_reset(pre: TerminalPalette, post: TerminalPalette) -> bool {
    &&& post == TerminalPalette {
        completions: post.completions,
        completion_selected: None,
        completion_token_start: 0,
        completion_applied: false,
        ..pre
    }
    &&& post.completions@.len() == 0
}

fn reset_completion(t: &mut TerminalPalette)
    ensures
        completion_reset(*old(t), *final(t)),
        old(t).wf() ==> final(t).wf(),
{
    t.completions.clear();
    t.completion_selected = None;
    t.completion_token_start = 0;
    t.completion_applied = false;
    proof {
        crate::text::lemma_ends(t.command@);
    }
}

/// The selected completion.
pub open spec fn selected_completion(t: TerminalPalette) -> Option<Seq<char>> {
    match t.completion_selected {
        Some(i) => if i < t.completions@.len() {
            Some(t.completions@[i as int]@)
        } else {
            None
        },
        None => None,
    }
}

/// The command line with the token under completion replaced.
pub open spec fn completed_line(t: TerminalPalette, candidate: Seq<char>) -> Buffer {
    let start = index(t.command@, t.completion_token_start as int);
    let end = index(t.command@, t.cursor as int);
    Buffer {
        text: t.command@.take(start) + candidate + t.command@.skip(end),
        at: start + candidate.len(),
    }
}

/// The palette with the selected completion in its command line; a token that
/// starts behind the cursor ends the completion.
pub open spec fn completion_applied(pre: TerminalPalette, post: TerminalPalette) -> bool {
    match selected_completion(pre) {
        None => post == pre,
        Some(candidate) => if pre.completion_token_start > pre.cursor {
            completion_reset(pre, post)
        } else {
            &&& post == TerminalPalette {
                command: post.command,
                cursor: post.cursor,
                completion_applied: true,
                ..pre
            }
            &&& completed_line(pre, candidate).held(post.command@, post.cursor as int)
            &&& post.wf()
        },
    }
}

fn apply_completion(t: &mut TerminalPalette)
    requires
        old(t).wf(),
    ensures
        completion_applied(*old(t), *final(t)),
        final(t).wf(),
{
    let ghost pre = *t;
    let selected: usize = match t.completion_selected {
        None => return ,
        Some(selected) => selected,
    };
    if selected >= t.completions.len() {
        return ;
    }
    let candidate = t.completions[selected].clone();
    let start: usize = t.completion_token_start;
    let end: usize = t.cursor;
    if start > end {
        reset_completion(t);
        return ;
    }
    let ghost text = t.command@;
    let ghost i = index(text, start as int);
    let ghost j = index(text, end as int);
    proof {
        if i > j {
            lemma_offset_monotone(text, j, i);
        }
    }
    remove_range(&mut t.command, &mut t.cursor, start, end);
    proof {
        assert(t.command@.take(i) =~= text.take(i));
        assert(t.command@.skip(i) =~= text.skip(j));
    }
    insert_at_cursor(&mut t.command, &mut t.cursor, candidate.as_str());
    proof {
        assert(t.command@.take(i) =~= text.take(i));
        crate::text::lemma_offset_prefix(text, t.command@, i);
    }
    t.completion_applied = true;
}

/// The candidate that the next Tab selects: the first Tab takes the current
/// one (backwards, the last), every further one its neighbour, round and round.
pub open spec fn cycled(selected: int, count: int, applied: bool, backwards: bool) -> int {
    if !applied {
        if backwards {
            if count > 0 {
                count - 1
            } else {
                0
            }
        } else {
            selected
        }
    } else if backwards {
        if selected > 0 {
            selected - 1
        } else if count > 0 {
            count - 1
        } else {
            0
        }
    } else {
        (selected + 1) % count
    }
}

/// Going through the candidates stays among them, and going back undoes going
/// forth.
pub proof fn law_cycling_stays_and_reverts(selected: int, count: int)
    requires
        0 <= selected < count,
    ensures
        0 <= cycled(selected, count, true, false) < count,
        0 <= cycled(selected, count, true, true) < count,
        cycled(cycled(selected, count, true, false), count, true, true) == selected,
        cycled(cycled(selected, count, true, true), count, true, false) == selected,
{
    assert((selected + 1) % count == if selected + 1 < count { selected + 1 } else { 0 })
        by (nonlinear_arith)
        requires
            0 <= selected < count,
    ;
    if selected > 0 {
        assert(selected % count == selected) by (nonlinear_arith)
            requires
                0 <= selected < count,
        ;
    } else {
        assert(count % count == 0) by (nonlinear_arith)
            requires
                0 < count,
        ;
    }
}

/// The palette with the next candidate selected and in its command line.
pub open spec fn completion_cycled(
    pre: TerminalPalette,
    backwards: bool,
    post: TerminalPalette,
) -> bool {
    match pre.completion_selected {
        None => post == pre,
        Some(selected) => completion_applied(
            TerminalPalette {
                completion_selected: Some(
                    cycled(
                        selected as int,
                        pre.completions@.len() as int,
                        pre.completion_applied,
                        backwards,
                    ) as usize,
                ),
                ..pre
            },
            post,
        ),
    }
}

/// There is a candidate to go to, or none has to be looked for.
pub open spec fn can_cycle(t: TerminalPalette, backwards: bool) -> bool {
    t.completions@.len() > 0 || t.completion_selected is None || !t.completion_applied || backwards
}

fn cycle(t: &mut TerminalPalette, backwards: bool)
    requires
        old(t).wf(),
        can_cycle(*old(t), backwards),
    ensures
        completion_cycled(*old(t), backwards, *final(t)),
        final(t).wf(),
{
    let count: usize = t.completions.len();
    let selected: usize = match t.completion_selected {
        None => return ,
        Some(selected) => selected,
    };
    let last: usize = if count > 0 {
        count - 1
    } else {
        0
    };
    let next: usize = if !t.completion_applied {
        if backwards {
            last
        } else {
            selected
        }
    } else if backwards {
        if selected > 0 {
            selected - 1
        } else {
            last
        }
    } else {
        (selected + 1) % count
    };
    t.completion_selected = Some(next);
    apply_completion(t);
}

/// Where the token that ends at `i` starts: behind the last white space.
pub open spec fn token_begin(s: Seq<char>, i: int) -> int
    decreases i,
{
    if i <= 0 || char_whitespace(s[i - 1]) {
        i
    } else {
        token_begin(s, i - 1)
    }
}

/// What Tab asks for when there are no candidates: those for the token before
/// the cursor, which is a command when nothing stands before it.
pub open spec fn completion_request(t: TerminalPalette, action: Option<UiAction>) -> bool {
    let b = buffer(t.command@, t.cursor as int);
    let start = token_begin(b.text, b.at);
    action matches Some(UiAction::CompleteTerminal { token, token_start, kind }) && {
        &&& token@ == b.text.subrange(start, b.at)
        &&& token_start == offset(b.text, start)
        &&& boundary(b.text, token_start as int)
        &&& kind == if is_blank(b.text.take(start)) {
            CandidateKind::Commands
        } else {
            CandidateKind::Paths
        }
    }
}

proof fn lemma_token_begin(s: Seq<char>, i: int)
    requires
        0 <= i <= s.len(),
    ensures
        0 <= token_begin(s, i) <= i,
    decreases i,
{
    if i > 0 && !char_whitespace(s[i - 1]) {
        lemma_token_begin(s, i - 1);
    }
}

/// Every Tab: goes through the candidates, or asks for them.
pub open spec fn completion_step(
    pre: TerminalPalette,
    backwards: bool,
    post: TerminalPalette,
    action: Option<UiAction>,
) -> bool {
    if pre.completions@.len() > 0 {
        completion_cycled(pre, backwards, post) && action is None
    } else {
        post == pre && completion_request(pre, action)
    }
}

fn complete(t: &mut TerminalPalette, backwards: bool) -> (action: Option<UiAction>)
    requires
        old(t).wf(),
    ensures
        completion_step(*old(t), backwards, *final(t), action),
        final(t).wf(),
{
    if t.completions.len() > 0 {
        cycle(t, backwards);
        return None;
    }
    let line = to_chars(t.command.as_str());
    let at: usize = char_index(t.command.as_str(), t.cursor);
    let mut start: usize = at;
    while start > 0 && !is_whitespace(line[start - 1])
        invariant
            start <= at <= line@.len(),
            token_begin(line@, at as int) == token_begin(line@, start as int),
        decreases start,
    {
        start = start - 1;
    }
    let token = from_chars(&line, start, at);
    let token_start: usize = byte_offset(t.command.as_str(), start);
    let before = text_before(t.command.as_str(), token_start);
    let kind = if blank(before) {
        CandidateKind::Commands
    } else {
        CandidateKind::Paths
    };
    Some(UiAction::CompleteTerminal { token, token_start, kind })
}

/// The palette once candidates for the token at `token_start` came: one of
/// them is taken at once, several are listed with the first selected.
pub open spec fn candidates_taken(
    pre: TerminalPalette,
    token_start: usize,
    candidates: Seq<String>,
    post: TerminalPalette,
) -> bool {
    if candidates.len() == 0 {
        post == pre
    } else if candidates.len() == 1 {
        let line = completed_line(
            TerminalPalette { completion_token_start: token_start, ..pre },
            candidates[0]@,
        );
        &&& post == TerminalPalette {
            command: post.command,
            cursor: post.cursor,
            completions: post.completions,
            completion_selected: None,
            completion_token_start: 0,
            completion_applied: false,
            ..pre
        }
        &&& post.completions@.len() == 0
        &&& line.held(post.command@, post.cursor as int)
    } else {
        &&& post == TerminalPalette {
            completions: post.completions,
            completion_selected: Some(0),
            completion_token_start: token_start,
            completion_applied: false,
            ..pre
        }
        &&& post.completions@ == candidates
    }
}

fn take_candidates(t: &mut TerminalPalette, token_start: usize, candidates: Vec<String>)
    requires
        old(t).wf(),
        boundary(old(t).command@, token_start as int),
        token_start <= old(t).cursor,
    ensures
        candidates_taken(*old(t), token_start, candidates@, *final(t)),
        final(t).wf(),
{
    if candidates.len() == 0 {
        return ;
    }
    t.completions = candidates;
    t.completion_token_start = token_start;
    t.completion_selected = Some(0);
    t.completion_applied = false;
    if t.completions.len() == 1 {
        apply_completion(t);
        reset_completion(t);
    }
}

/// The palette with an empty command line and without completions.
pub open spec fn line_cleared(pre: TerminalPalette, post: TerminalPalette) -> bool {
    &&& post == TerminalPalette {
        command: post.command,
        cursor: 0,
        completions: post.completions,
        completion_selected: None,
        completion_token_start: 0,
        completion_applied: false,
        ..pre
    }
    &&& post.command@.len() == 0
    &&& post.completions@.len() == 0
}

/// What Enter does with the command line: nothing when it is blank, `clear`
/// and `cd` itself, anything else is to be run.
pub open spec fn run_step(
    pre: TerminalPalette,
    post: TerminalPalette,
    action: Option<UiAction>,
) -> bool {
    let line = trimmed(pre.command@);
    if line.len() == 0 {
        completion_reset(pre, post) && action is None
    } else if line == "clear"@ {
        &&& line_cleared(TerminalPalette { output: post.output, ..pre }, post)
        &&& post.output@.len() == 0
        &&& action is None
    } else if line == "cd"@ || starts_with_text(line, "cd "@) {
        &&& line_cleared(pre, post)
        &&& action matches Some(UiAction::ChangeTerminalDirectory(path)) && path@ == trimmed(
            line.skip(2),
        )
    } else {
        &&& completion_reset(pre, post)
        &&& action matches Some(UiAction::RunTerminalCommand(command)) && command@ == line
    }
}

fn run(t: &mut TerminalPalette) -> (action: Option<UiAction>)
    requires
        old(t).wf(),
    ensures
        run_step(*old(t), *final(t), action),
        final(t).wf(),
{
    let line = trim(t.command.as_str());
    reset_completion(t);
    if line.as_str().is_empty() {
        return None;
    }
    proof {
        crate::text::lemma_ends(Seq::<char>::empty());
        reveal_strlit("cd");
        reveal_strlit("cd ");
    }
    if same_text(line.as_str(), "clear") {
        t.output = String::new();
        t.command = String::new();
        t.cursor = 0;
        return None;
    }
    if same_text(line.as_str(), "cd") || starts_with(line.as_str(), "cd ") {
        let v = to_chars(line.as_str());
        let rest = from_chars(&v, 2, v.len());
        assert(rest@ =~= line@.skip(2));
        let path = trim(rest.as_str());
        t.command = String::new();
        t.cursor = 0;
        return Some(UiAction::ChangeTerminalDirectory(path));
    }
    Some(UiAction::RunTerminalCommand(line))
}

/// How a shell command ended.
#[derive(Debug)]
pub enum TerminalOutcome {
    Finished { stdout: String, stderr: String, success: bool, code: Option<i32> },
    NotRun(String),
}

/// A number in decimal, with its sign.
pub open spec fn signed_decimal(n: int) -> Seq<char> {
    if n < 0 {
        seq!['-'] + decimal((-n) as nat)
    } else {
        decimal(n as nat)
    }
}

fn signed_decimal_text(n: i32) -> (s: String)
    ensures
        s@ == signed_decimal(n as int),
{
    let wide: i64 = n as i64;
    if wide < 0 {
        let mut s = String::new();
        s.push('-');
        s.append(decimal_text((-wide) as u128).as_str());
        assert(s@ =~= signed_decimal(n as int));
        s
    } else {
        decimal_text(wide as u128)
    }
}

/// What a command printed: its output, then its errors on lines of their own.
pub open spec fn joined_output(stdout: Seq<char>, stderr: Seq<char>) -> Seq<char> {
    if stderr.len() == 0 {
        stdout
    } else if stdout.len() > 0 && stdout.last() != '\n' {
        stdout.push('\n') + stderr
    } else {
        stdout + stderr
    }
}

/// The text shown for the end of a command: what it printed, behind its exit
/// code when it failed.
pub open spec fn outcome_text(outcome: TerminalOutcome) -> Seq<char> {
    match outcome {
        TerminalOutcome::NotRun(error) => "Could not run command: "@ + error@,
        TerminalOutcome::Finished { stdout, stderr, success, code } => if success {
            joined_output(stdout@, stderr@)
        } else {
            "[exit "@ + (match code {
                Some(code) => signed_decimal(code as int),
                None => "signal"@,
            }) + "]\n"@ + joined_output(stdout@, stderr@)
        },
    }
}

fn describe_outcome(outcome: &TerminalOutcome) -> (r: String)
    ensures
        r@ == outcome_text(*outcome),
{
    match outcome {
        TerminalOutcome::NotRun(error) => message("Could not run command: ", error.as_str()),
        TerminalOutcome::Finished { stdout, stderr, success, code } => {
            let mut text = stdout.clone();
            let out = to_chars(stdout.as_str());
            if !stderr.as_str().is_empty() {
                if out.len() > 0 && out[out.len() - 1] != '\n' {
                    text.push('\n');
                }
                text.append(stderr.as_str());
            }
            assert(text@ =~= joined_output(stdout@, stderr@));
            if *success {
                text
            } else {
                let mut r = "[exit ".to_owned();
                match code {
                    Some(code) => {
                        r.append(signed_decimal_text(*code).as_str());
                    },
                    None => {
                        r.append("signal");
                    },
                }
                r.append("]\n");
                r.append(text.as_str());
                r
            }
        },
    }
}

/// Everything but the terminal palette stays.
pub open spec fn only_terminal(pre: App, post: App) -> bool {
    post == App { terminal: post.terminal, ..pre }
}

/// Forgets the completions of the command line.
pub fn reset_terminal_completion(app: &mut App)
    ensures
        only_terminal(*old(app), *final(app)),
        completion_reset(old(app).terminal, final(app).terminal),
        old(app).terminal.wf() ==> final(app).terminal.wf(),
{
    reset_completion(&mut app.terminal);
}

/// Puts the selected completion into the command line.
pub fn apply_selected_terminal_completion(app: &mut App)
    requires
        old(app).terminal.wf(),
    ensures
        only_terminal(*old(app), *final(app)),
        completion_applied(old(app).terminal, final(app).terminal),
        final(app).terminal.wf(),
{
    apply_completion(&mut app.terminal);
}

/// Selects the next candidate and puts it into the command line.
pub fn cycle_terminal_completion(app: &mut App, backwards: bool)
    requires
        old(app).terminal.wf(),
        can_cycle(old(app).terminal, backwards),
    ensures
        only_terminal(*old(app), *final(app)),
        completion_cycled(old(app).terminal, backwards, final(app).terminal),
        final(app).terminal.wf(),
{
    cycle(&mut app.terminal, backwards);
}

/// Goes through the candidates, or asks for those of the token before the
/// cursor.
pub fn complete_terminal_command(app: &mut App, backwards: bool) -> (action: Option<UiAction>)
    requires
        old(app).terminal.wf(),
    ensures
        only_terminal(*old(app), *final(app)),
        completion_step(old(app).terminal, backwards, final(app).terminal, action),
        final(app).terminal.wf(),
{
    complete(&mut app.terminal, backwards)
}

/// Takes over the candidates for the token at `token_start`.
pub fn finish_terminal_completion(app: &mut App, token_start: usize, candidates: Vec<String>)
    requires
        old(app).terminal.wf(),
        boundary(old(app).terminal.command@, token_start as int),
        token_start <= old(app).terminal.cursor,
    ensures
        only_terminal(*old(app), *final(app)),
        candidates_taken(old(app).terminal, token_start, candidates@, final(app).terminal),
        final(app).terminal.wf(),
{
    take_candidates(&mut app.terminal, token_start, candidates);
}

/// Shows a command and what it printed.
pub fn append_terminal_output(app: &mut App, command: &str, output: &str)
    ensures
        only_terminal(*old(app), *final(app)),
        final(app).terminal == (TerminalPalette {
            output: final(app).terminal.output,
            ..old(app).terminal
        }),
        final(app).terminal.output@ == with_output(old(app).terminal.output@, command@, output@),
{
    append_output(&mut app.terminal, command, output);
}

/// Takes the command line as a command: does it, or asks for it to be done.
pub fn run_terminal_command(app: &mut App) -> (action: Option<UiAction>)
    requires
        old(app).terminal.wf(),
    ensures
        only_terminal(*old(app), *final(app)),
        run_step(old(app).terminal, final(app).terminal, action),
        final(app).terminal.wf(),
{
    run(&mut app.terminal)
}

/// Shows how a shell command ended and clears the command line.
pub fn finish_terminal_command(app: &mut App, command: &str, outcome: TerminalOutcome)
    ensures
        only_terminal(*old(app), *final(app)),
        final(app).terminal == (TerminalPalette {
            output: final(app).terminal.output,
            command: final(app).terminal.command,
            cursor: 0,
            ..old(app).terminal
        }),
        final(app).terminal.command@.len() == 0,
        final(app).terminal.output@ == with_output(
            old(app).terminal.output@,
            command@,
            outcome_text(outcome),
        ),
{
    let text = describe_outcome(&outcome);
    append_output(&mut app.terminal, command, text.as_str());
    app.terminal.command = String::new();
    app.terminal.cursor = 0;
}

/// The directory that `cd` names: `path` below the directory of the palette,
/// or below the working directory where the palette has none.
pub open spec fn directory_target(
    os: Platform,
    directory: Option<Seq<char>>,
    working: Option<Seq<char>>,
    path: Seq<char>,
) -> Seq<char> {
    match directory {
        Some(base) => joined(os, base, path),
        None => match working {
            Some(base) => joined(os, base, path),
            None => path,
        },
    }
}

/// The directory that `cd` names, before links are resolved.
pub fn terminal_directory_target(app: &App, working: Option<String>, path: &str) -> (r: String)
    ensures
        r@ == directory_target(
            app.platform,
            opt_text(app.terminal.directory),
            opt_text(working),
            path@,
        ),
{
    match &app.terminal.directory {
        Some(base) => path_join(app.platform, base.as_str(), path),
        None => match working {
            Some(base) => path_join(app.platform, base.as_str(), path),
            None => path.to_owned(),
        },
    }
}

/// What `cd` found.
#[derive(Debug)]
pub enum DirectoryLookup {
    Directory(String),
    NotDirectory,
    Failed(String),
}

/// Takes over what `cd path` found: a directory becomes the one of the
/// palette, anything else is only reported.
pub fn change_terminal_directory(app: &mut App, path: &str, lookup: DirectoryLookup)
    ensures
        only_terminal(*old(app), *final(app)),
        final(app).terminal == (TerminalPalette {
            output: final(app).terminal.output,
            directory: final(app).terminal.directory,
            ..old(app).terminal
        }),
        opt_text(final(app).terminal.directory) == match lookup {
            DirectoryLookup::Directory(directory) => Some(directory@),
            _ => opt_text(old(app).terminal.directory),
        },
        final(app).terminal.output@ == with_output(
            old(app).terminal.output@,
            "cd "@ + path@,
            match lookup {
                DirectoryLookup::Directory(directory) => directory@,
                DirectoryLookup::NotDirectory => "Not a directory."@,
                DirectoryLookup::Failed(error) => "cd: "@ + error@,
            },
        ),
{
    let command = message("cd ", path);
    match lookup {
        DirectoryLookup::Directory(directory) => {
            append_output(&mut app.terminal, command.as_str(), directory.as_str());
            app.terminal.directory = Some(directory);
        },
        DirectoryLookup::NotDirectory => {
            append_output(&mut app.terminal, command.as_str(), "Not a directory.");
        },
        DirectoryLookup::Failed(error) => {
            let text = message("cd: ", error.as_str());
            append_output(&mut app.terminal, command.as_str(), text.as_str());
        },
    }
}

/// Whether `t` is a command that completes `prefix`: one of the palette's own,
/// or one of `names`.
pub open spec fn command_candidate(prefix: Seq<char>, names: Seq<String>, t: Seq<char>) -> bool {
    &&& has_prefix_ignoring_case(t, prefix)
    &&& t == "cd"@ || t == "clear"@ || has_text(names, t)
}

/// The commands that complete `prefix`, sorted, each once. `names` are the
/// programs that can be run.
pub fn terminal_command_candidates(prefix: &str, names: Vec<String>) -> (r: Vec<String>)
    ensures
        sorted_texts(r@),
        forall|t: Seq<char>|
            #[trigger] has_text(r@, t) == command_candidate(prefix@, names@, t),
{
    let mut r: Vec<String> = Vec::new();
    if starts_with_ignoring_case("cd", prefix) {
        insert_sorted(&mut r, "cd".to_owned());
    }
    if starts_with_ignoring_case("clear", prefix) {
        insert_sorted(&mut r, "clear".to_owned());
    }
    let ghost own = r@;
    let mut i: usize = 0;
    assert(forall|t: Seq<char>| !has_text(names@.take(0), t));
    while i < names.len()
        invariant
            i <= names@.len(),
            sorted_texts(r@),
            forall|t: Seq<char>|
                has_text(own, t) == (has_prefix_ignoring_case(t, prefix@) && (t == "cd"@ || t
                    == "clear"@)),
            forall|t: Seq<char>|
                #[trigger] has_text(r@, t) == (has_text(own, t) || has_prefix_ignoring_case(
                    t,
                    prefix@,
                ) && has_text(names@.take(i as int), t)),
        decreases names.len() - i,
    {
        let name = names[i].clone();
        proof {
            lemma_has_text_step(names@, i as int);
        }
        if starts_with_ignoring_case(name.as_str(), prefix) {
            insert_sorted(&mut r, name);
        }
        i = i + 1;
    }
    assert(names@.take(names@.len() as int) =~= names@);
    r
}

/// An entry of a directory.
#[derive(Debug)]
pub struct DirectoryEntry {
    pub name: String,
    pub is_dir: bool,
}

/// The part of a path being typed that names its directory, with the slash.
pub open spec fn typed_directory(token: Seq<char>) -> Seq<char> {
    token.take(last_position(token, '/') + 1)
}

/// The part of a path being typed that names an entry.
pub open spec fn typed_name(token: Seq<char>) -> Seq<char> {
    token.skip(last_position(token, '/') + 1)
}

/// Splits a path being typed at its last slash.
pub fn split_typed_path(token: &str) -> (r: (String, String))
    ensures
        r.0@ == typed_directory(token@),
        r.1@ == typed_name(token@),
{
    let v = to_chars(token);
    let mut from: usize = v.len();
    assert(v@.take(from as int) =~= v@);
    while from > 0 && v[from - 1] != '/'
        invariant
            from <= v@.len(),
            v@ == token@,
            last_position(v@, '/') == last_position(v@.take(from as int), '/'),
        decreases from,
    {
        assert(v@.take(from as int).drop_last() =~= v@.take(from - 1));
        from = from - 1;
    }
    assert(from == last_position(v@, '/') + 1) by {
        if from > 0 {
            assert(v@.take(from as int).last() == '/');
        }
    }
    let directory = from_chars(&v, 0, from);
    let name = from_chars(&v, from, v.len());
    assert(directory@ =~= typed_directory(token@));
    assert(name@ =~= typed_name(token@));
    (directory, name)
}

/// The text that stands for an entry: a directory ends in a slash.
pub open spec fn entry_text(directory: Seq<char>, entry: DirectoryEntry) -> Seq<char> {
    if entry.is_dir {
        directory + entry.name@ + "/"@
    } else {
        directory + entry.name@
    }
}

/// Whether `t` stands for an entry that completes the path being typed.
pub open spec fn path_candidate(token: Seq<char>, entries: Seq<DirectoryEntry>, t: Seq<char>) -> bool {
    exists|i: int|
        0 <= i < entries.len() && has_prefix_ignoring_case(
            (#[trigger] entries[i]).name@,
            typed_name(token),
        ) && t == entry_text(typed_directory(token), entries[i])
}

/// The entries that complete a path being typed, sorted, each once. `entries` are
/// those of the directory that the path names so far.
pub fn terminal_path_candidates(token: &str, entries: &Vec<DirectoryEntry>) -> (r: Vec<String>)
    ensures
        sorted_texts(r@),
        forall|t: Seq<char>| #[trigger] has_text(r@, t) == path_candidate(token@, entries@, t),
{
    let (directory, name) = split_typed_path(token);
    let mut r: Vec<String> = Vec::new();
    let mut i: usize = 0;
    while i < entries.len()
        invariant
            i <= entries@.len(),
            directory@ == typed_directory(token@),
            name@ == typed_name(token@),
            sorted_texts(r@),
            forall|t: Seq<char>| #[trigger]
                has_text(r@, t) == path_candidate(token@, entries@.take(i as int), t),
        decreases entries.len() - i,
    {
        let ghost before = r@;
        let ghost shorter = entries@.take(i as int);
        let ghost longer = entries@.take(i + 1);
        let ghost passes = has_prefix_ignoring_case(entries@[i as int].name@, name@);
        let ghost text = entry_text(directory@, entries@[i as int]);
        if starts_with_ignoring_case(entries[i].name.as_str(), name.as_str()) {
            let mut candidate = message(directory.as_str(), entries[i].name.as_str());
            if entries[i].is_dir {
                candidate.append("/");
            }
            insert_sorted(&mut r, candidate);
        }
        assert forall|t: Seq<char>| #[trigger] has_text(r@, t) == path_candidate(
            token@,
            longer,
            t,
        ) by {
            assert(has_text(r@, t) == (has_text(before, t) || passes && t == text));
            assert(has_text(before, t) == path_candidate(token@, shorter, t));
            if path_candidate(token@, shorter, t) {
                let k = choose|k: int|
                    0 <= k < shorter.len() && has_prefix_ignoring_case(
                        (#[trigger] shorter[k]).name@,
                        name@,
                    ) && t == entry_text(directory@, shorter[k]);
                assert(longer[k] == shorter[k]);
            }
            assert(longer[i as int] == entries@[i as int]);
            if path_candidate(token@, longer, t) && !(passes && t == text) {
                let k = choose|k: int|
                    0 <= k < longer.len() && has_prefix_ignoring_case(
                        (#[trigger] longer[k]).name@,
                        name@,
                    ) && t == entry_text(directory@, longer[k]);
                assert(shorter[k] == longer[k]);
            }
        }
        i = i + 1;
    }
    assert(entries@.take(entries@.len() as int) =~= entries@);
    r
}

proof fn lemma_has_text_step(v: Seq<String>, i: int)
    requires
        0 <= i < v.len(),
    ensures
        forall|t: Seq<char>|
            #[trigger] has_text(v.take(i + 1), t) == (has_text(v.take(i), t) || t == v[i]@),
{
    assert forall|t: Seq<char>|
        #[trigger] has_text(v.take(i + 1), t) == (has_text(v.take(i), t) || t == v[i]@) by {
        if has_text(v.take(i), t) {
            let k = choose|k: int| 0 <= k < i && #[trigger] v.take(i)[k]@ == t;
            assert(v.take(i + 1)[k]@ == t);
        }
        if t == v[i]@ {
            assert(v.take(i + 1)[i]@ == t);
        }
        if has_text(v.take(i + 1), t) && t != v[i]@ {
            let k = choose|k: int| 0 <= k < i + 1 && #[trigger] v.take(i + 1)[k]@ == t;
            assert(v.take(i)[k]@ == t);
        }
    }
}

/// The palette closes.
pub open spec fn terminal_key_step(
    pre: TerminalPalette,
    key: KeyEvent,
    post: TerminalPalette,
    action: Option<UiAction>,
) -> bool {
    match key.code {
        KeyCode::Esc => post == pre && action is None,
        KeyCode::Enter => match pre.completion_selected {
            Some(_) => accepted(pre, post) && action is None,
            None => run_step(pre, post, action),
        },
        KeyCode::Tab => completion_step(pre, key.modifiers.shift, post, action),
        KeyCode::BackTab => completion_step(pre, true, post, action),
        _ => {
            &&& post == TerminalPalette {
                command: post.command,
                cursor: post.cursor,
                completions: post.completions,
                completion_selected: None,
                completion_token_start: 0,
                completion_applied: false,
                ..pre
            }
            &&& post.completions@.len() == 0
            &&& edited(buffer(pre.command@, pre.cursor as int), key).held(
                post.command@,
                post.cursor as int,
            )
            &&& action is None
        },
    }
}

/// The selected completion is in the command line and the completion is over.
pub open spec fn accepted(pre: TerminalPalette, post: TerminalPalette) -> bool {
    &&& post == TerminalPalette {
        command: post.command,
        cursor: post.cursor,
        completions: post.completions,
        completion_selected: None,
        completion_token_start: 0,
        completion_applied: false,
        ..pre
    }
    &&& post.completions@.len() == 0
    &&& match selected_completion(pre) {
        Some(candidate) => if pre.completion_token_start <= pre.cursor {
            completed_line(pre, candidate).held(post.command@, post.cursor as int)
        } else {
            post.command == pre.command && post.cursor == pre.cursor
        },
        None => post.command == pre.command && post.cursor == pre.cursor,
    }
}

fn terminal_key(t: &mut TerminalPalette, key: KeyEvent) -> (action: Option<UiAction>)
    requires
        old(t).wf(),
    ensures
        terminal_key_step(*old(t), key, *final(t), action),
        final(t).wf(),
{
    match key.code {
        KeyCode::Esc => None,
        KeyCode::Enter => {
            if t.completion_selected.is_some() {
                apply_completion(t);
                reset_completion(t);
                None
            } else {
                run(t)
            }
        },
        KeyCode::Tab => complete(t, key.modifiers.shift),
        KeyCode::BackTab => complete(t, true),
        _ => {
            reset_completion(t);
            let _changed = edit_text(&mut t.command, &mut t.cursor, key);
            proof {
                crate::text::lemma_ends(t.command@);
            }
            None
        },
    }
}

/// Handles a key of the terminal palette; Escape closes it.
pub fn handle_terminal_palette_key(app: &mut App, key: KeyEvent) -> (action: Option<UiAction>)
    requires
        old(app).terminal.wf(),
    ensures
        *final(app) == (App {
            terminal: final(app).terminal,
            mode: if key.code == KeyCode::Esc { AppMode::Normal } else { old(app).mode },
            ..*old(app)
        }),
        terminal_key_step(old(app).terminal, key, final(app).terminal, action),
        final(app).terminal.wf(),
{
    if key.code == KeyCode::Esc {
        app.mode = AppMode::Normal;
    }
    terminal_key(&mut app.terminal, key)
}

/// Enter runs the command line without the white space round it: a blank one does nothing,
/// `clear` empties the output, `cd` asks for another directory, and anything else is handed
/// on as it stands.
pub proof fn law_enter_runs_the_command(
    pre: TerminalPalette,
    key: KeyEvent,
    post: TerminalPalette,
    action: Option<UiAction>,
)
    requires
        key.code == KeyCode::Enter,
        pre.completion_selected is None,
        terminal_key_step(pre, key, post, action),
    ensures
        ({
            let line = trimmed(pre.command@);
            let moves = line == "cd"@ || starts_with_text(line, "cd "@);
            &&& is_blank(pre.command@) ==> action is None && post.command == pre.command
                && post.output == pre.output
            &&& !is_blank(pre.command@) && line == "clear"@ ==> action is None
                && post.output@.len() == 0 && post.command@.len() == 0
            &&& line != "clear"@ && moves && !is_blank(pre.command@) ==> (action matches Some(
                UiAction::ChangeTerminalDirectory(path),
            ) && path@ == trimmed(line.skip(2))) && post.output == pre.output
            &&& !is_blank(pre.command@) && line != "clear"@ && !moves ==> (action matches Some(
                UiAction::RunTerminalCommand(command),
            ) && command@ == line) && post.command == pre.command
        }),
        post.directory == pre.directory,
{
    lemma_blank_is_trimmed_empty(pre.command@);
}

/// A typed character stands at the cursor of the command line and ends a completion.
pub proof fn law_typing_edits_the_command(
    pre: TerminalPalette,
    key: KeyEvent,
    post: TerminalPalette,
    action: Option<UiAction>,
)
    requires
        pre.wf(),
        key.code is Char,
        !key.modifiers.control,
        terminal_key_step(pre, key, post, action),
    ensures
        ({
            let t = pre.command@;
            let at = index(t, pre.cursor as int);
            &&& post.command@ == t.insert(at, key.code->Char_0)
            &&& index(post.command@, post.cursor as int) == at + 1
        }),
        post.completions@.len() == 0,
        post.completion_selected is None,
        action is None,
{
    let b = buffer(pre.command@, pre.cursor as int);
    law_editing_keys_change_one_character(b, key);
    law_edit_keeps_cursor_valid(b, key);
}

/// Putting a completion into the command line replaces the token before the cursor by it and
/// nothing else: what stands before the token and behind the cursor stays.
pub proof fn law_completion_replaces_the_token(pre: TerminalPalette, post: TerminalPalette)
    requires
        pre.wf(),
        completion_applied(pre, post),
        pre.completion_token_start <= pre.cursor,
        pre.completion_selected matches Some(i) && i < pre.completions@.len(),
    ensures
        ({
            let t = pre.command@;
            let start = index(t, pre.completion_token_start as int);
            let end = index(t, pre.cursor as int);
            let put = pre.completions@[pre.completion_selected->0 as int]@;
            &&& post.command@ == t.take(start) + put + t.skip(end)
            &&& index(post.command@, post.cursor as int) == start + put.len()
        }),
        post.completions == pre.completions,
        post.completion_selected == pre.completion_selected,
{
    let t = pre.command@;
    let start = index(t, pre.completion_token_start as int);
    let put = pre.completions@[pre.completion_selected->0 as int]@;
    let end = index(t, pre.cursor as int);
    let u = t.take(start) + put + t.skip(end);
    assert(start + put.len() <= u.len());
}

/// Tab goes to the next candidate and back to the first from the last; Shift with Tab goes
/// the other way. The first Tab takes the candidate that is selected.
pub proof fn law_tab_goes_round_the_candidates(selected: int, count: int)
    requires
        0 <= selected < count,
    ensures
        selected + 1 < count ==> cycled(selected, count, true, false) == selected + 1,
        selected + 1 == count ==> cycled(selected, count, true, false) == 0,
        selected > 0 ==> cycled(selected, count, true, true) == selected - 1,
        selected == 0 ==> cycled(selected, count, true, true) == count - 1,
        cycled(selected, count, false, false) == selected,
        cycled(selected, count, false, true) == count - 1,
{
    assert(selected + 1 < count ==> (selected + 1) % count == selected + 1) by (nonlinear_arith)
        requires
            0 <= selected < count,
    ;
    assert(count % count == 0) by (nonlinear_arith)
        requires
            0 < count,
    ;
}

/// The token before a position starts behind the last white space before it.
pub proof fn law_tokens_start_behind_white_space(s: Seq<char>, i: int)
    requires
        0 <= i <= s.len(),
    ensures
        0 <= token_begin(s, i) <= i,
        token_begin(s, i) == 0 || char_whitespace(s[token_begin(s, i) - 1]),
        forall|k: int| token_begin(s, i) <= k < i ==> !char_whitespace(#[trigger] s[k]),
    decreases i,
{
    if i > 0 && !char_whitespace(s[i - 1]) {
        law_tokens_start_behind_white_space(s, i - 1);
    }
}

/// Tab without candidates asks for those of the token before the cursor: commands where
/// nothing but white space stands before it, and paths otherwise.
pub proof fn law_tab_asks_for_candidates(
    pre: TerminalPalette,
    key: KeyEvent,
    post: TerminalPalette,
    action: Option<UiAction>,
)
    requires
        pre.wf(),
        key.code == KeyCode::Tab,
        pre.completions@.len() == 0,
        terminal_key_step(pre, key, post, action),
    ensures
        post == pre,
        action matches Some(UiAction::CompleteTerminal { token, token_start, kind }) && {
            let t = pre.command@;
            let at = index(t, pre.cursor as int);
            let start = index(t, token_start as int);
            &&& 0 <= start <= at
            &&& token@ == t.subrange(start, at)
            &&& forall|k: int| start <= k < at ==> !char_whitespace(#[trigger] t[k])
            &&& start == 0 || char_whitespace(t[start - 1])
            &&& kind == CandidateKind::Commands <==> is_blank(t.take(start))
        },
{
    let b = buffer(pre.command@, pre.cursor as int);
    law_tokens_start_behind_white_space(b.text, b.at);
}

/// One candidate is taken at once; several are listed with the first selected and leave the
/// command line alone; none changes nothing.
pub proof fn law_candidates_are_taken_or_listed(
    pre: TerminalPalette,
    token_start: usize,
    candidates: Seq<String>,
    post: TerminalPalette,
)
    requires
        candidates_taken(pre, token_start, candidates, post),
        boundary(pre.command@, token_start as int),
    ensures
        candidates.len() == 0 ==> post == pre,
        candidates.len() == 1 ==> post.command@ == pre.command@.take(
            index(pre.command@, token_start as int),
        ) + candidates[0]@ + pre.command@.skip(index(pre.command@, pre.cursor as int))
            && post.completions@.len() == 0 && post.completion_selected is None,
        candidates.len() > 1 ==> post.command == pre.command && post.cursor == pre.cursor
            && post.completions@ == candidates && post.completion_selected == Some(0usize),
{
}

/// What is kept of an output is its end: all of it up to the limit, and of a longer one as
/// much as fits.
pub proof fn law_the_end_of_the_output_is_kept(s: Seq<char>)
    ensures
        byte_len(s) <= 65536 ==> kept_output(s) == s,
        exists|k: int|
            0 <= k <= s.len() && kept_output(s) == #[trigger] s.skip(k) && (k > 0 ==> byte_len(
                s.skip(k - 1),
            ) >= 65536),
{
    assert(s.skip(0) =~= s);
    if byte_len(s) > 65536 {
        let k = lemma_tail_is_an_end(s, 65536);
        assert(kept_output(s) == s.skip(k));
    }
}

proof fn lemma_tail_is_an_end(s: Seq<char>, max: int) -> (k: int)
    ensures
        0 <= k <= s.len(),
        tail_below(s, max) == s.skip(k),
        k > 0 ==> byte_len(s.skip(k - 1)) >= max,
    decreases s.len(),
{
    assert(s.skip(0) =~= s);
    if s.len() == 0 || byte_len(s) < max {
        0
    } else {
        let less = s.drop_first();
        let k = lemma_tail_is_an_end(less, max);
        assert(less.skip(k) =~= s.skip(k + 1));
        if k > 0 {
            assert(less.skip(k - 1) =~= s.skip(k));
        }
        k + 1
    }
}

/// What a command printed is shown behind the command itself: the errors behind the output,
/// and the exit code in front of them where the command failed.
pub proof fn law_outcomes_are_shown(outcome: TerminalOutcome)
    ensures
        outcome matches TerminalOutcome::Finished { stdout, stderr, success, code } ==> {
            let shown = outcome_text(outcome);
            &&& success && stderr@.len() == 0 ==> shown == stdout@
            &&& success && stdout@.len() == 0 ==> shown == stderr@
            &&& success && stdout@.len() > 0 && stderr@.len() > 0 && stdout@.last() == '\n'
                ==> shown == stdout@ + stderr@
            &&& success && stdout@.len() > 0 && stderr@.len() > 0 && stdout@.last() != '\n'
                ==> shown == stdout@ + seq!['\n'] + stderr@
            &&& !success && code is Some && stderr@.len() == 0 ==> shown == "[exit "@
                + signed_decimal(code->0 as int) + "]\n"@ + stdout@
            &&& !success && code is None && stderr@.len() == 0 ==> shown == "[exit "@ + "signal"@
                + "]\n"@ + stdout@
        },
        outcome matches TerminalOutcome::NotRun(error) ==> outcome_text(outcome)
            == "Could not run command: "@ + error@,
{
    if let TerminalOutcome::Finished { stdout, stderr, success, code } = outcome {
        assert(stdout@ + seq!['\n'] =~= stdout@.push('\n'));
        if stdout@.len() == 0 {
            assert(stdout@ + stderr@ =~= stderr@);
        }
    }
}

/// `cd` starts from the directory of the palette, or from the working directory where it has
/// none.
pub proof fn law_directories_start_from_the_palette(
    os: Platform,
    directory: Option<Seq<char>>,
    working: Option<Seq<char>>,
    path: Seq<char>,
)
    ensures
        directory matches Some(base) ==> directory_target(os, directory, working, path) == joined(
            os,
            base,
            path,
        ),
        directory is None && working is Some ==> directory_target(os, directory, working, path)
            == joined(os, working->0, path),
        directory is None && working is None ==> directory_target(os, directory, working, path)
            == path,
{
}

/// A path being typed is cut behind its last slash.
pub proof fn law_typed_paths_are_cut_at_the_last_slash(token: Seq<char>)
    ensures
        typed_directory(token) + typed_name(token) == token,
        !typed_name(token).contains('/'),
        typed_directory(token).len() == 0 || typed_directory(token).last() == '/',
{
    lemma_last_position(token, '/');
    let k = last_position(token, '/');
    assert(typed_directory(token) + typed_name(token) =~= token);
    assert forall|i: int| 0 <= i < typed_name(token).len() implies typed_name(token)[i] != '/' by {
        assert(typed_name(token)[i] == token[k + 1 + i]);
    }
}

/// What a terminal may be shown: every character from the space on up to the delete
/// character, and of those below it only the line feed and the tab.
pub proof fn law_printable_ascii(c: char)
    requires
        c as u32 <= 0x7f,
    ensures
        printable(c) <==> c == '\n' || c == '\t' || ' ' <= c <= '~',
{
}

} // verus!
