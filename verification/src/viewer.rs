//! PDF files: the embedded viewer and the programs that stand in for it.

use vstd::prelude::*;
use crate::actions::UiAction;
use crate::chars::{
    contains, contains_text, eq_ignore_ascii_case, is_whitespace, char_whitespace, occurs_at,
    same_ignoring_ascii_case,
};
use crate::config_editor::message;
use crate::keys::{KeyCode, KeyEvent, KeyEventKind};
use crate::model::opt_text;
use crate::navigation::help_toggled;
use crate::paths::{file_name, last_position, path_file_name};
use crate::state::{App, AppMode, Command, PdfViewerState};
use crate::text::{from_chars, same_text, to_chars};
use crate::wrap::texts;

verus! {

/// The system that the application runs on.
#[derive(Debug, Clone, Copy, PartialEq, Eq, Structural)]
pub enum Platform {
    MacOs,
    Windows,
    Other,
}

/// The program that shows PDF files unless another is configured.
pub open spec fn default_viewer(platform: Platform) -> Seq<char> {
    match platform {
        Platform::MacOs => "open"@,
        Platform::Windows => "cmd /C start msedge \"\""@,
        Platform::Other => "xdg-open"@,
    }
}

/// The program that shows PDF files unless another is configured.
pub fn default_pdf_viewer(platform: Platform) -> (r: String)
    ensures
        r@ == default_viewer(platform),
{
    match platform {
        Platform::MacOs => "open".to_owned(),
        Platform::Windows => "cmd /C start msedge \"\"".to_owned(),
        Platform::Other => "xdg-open".to_owned(),
    }
}

/// A generated PDF is handed to an external viewer once.
pub fn should_open_generated_pdf(viewer: &str, already_opened: bool) -> (r: bool)
    ensures
        r == (viewer@ != "internal"@ && !already_opened),
{
    !same_text(viewer, "internal") && !already_opened
}

/// The quotes round a character of a command line.
#[derive(Debug, Clone, Copy, PartialEq, Eq, Structural)]
pub enum Quote {
    Plain,
    Single,
    Double,
}

/// A command line as far as it has been read: the finished words, the word
/// being read if one has begun, and the quotes that are open.
#[verifier::ext_equal]
pub struct Parsed {
    pub words: Seq<Seq<char>>,
    pub word: Option<Seq<char>>,
    pub quote: Quote,
}

/// The word being read with one more character.
pub open spec fn grown(p: Parsed, c: char) -> Parsed {
    Parsed {
        word: Some(
            match p.word {
                Some(word) => word.push(c),
                None => seq![c],
            },
        ),
        ..p
    }
}

/// The word being read as far as it has come; none has begun with nothing.
pub open spec fn begun(p: Parsed) -> Seq<char> {
    match p.word {
        Some(word) => word,
        None => Seq::empty(),
    }
}

/// The finished words, once the word being read has ended.
pub open spec fn finished(p: Parsed) -> Seq<Seq<char>> {
    match p.word {
        Some(word) => p.words.push(word),
        None => p.words,
    }
}

/// Reads a command line from position `i` on. White space separates words;
/// quotes keep it; between double quotes a backslash stands before a quote or
/// a backslash.
pub open spec fn parse_from(s: Seq<char>, i: int, p: Parsed) -> Parsed
    decreases s.len() - i,
{
    if i < 0 || i >= s.len() {
        p
    } else {
        let c = s[i];
        match p.quote {
            Quote::Single => if c == '\'' {
                parse_from(s, i + 1, Parsed { quote: Quote::Plain, ..p })
            } else {
                parse_from(s, i + 1, grown(p, c))
            },
            Quote::Double => if c == '"' {
                parse_from(s, i + 1, Parsed { quote: Quote::Plain, ..p })
            } else if c == '\\' && i + 1 < s.len() && (s[i + 1] == '"' || s[i + 1] == '\\') {
                parse_from(s, i + 2, grown(p, s[i + 1]))
            } else {
                parse_from(s, i + 1, grown(p, c))
            },
            Quote::Plain => if c == '\'' {
                parse_from(s, i + 1, Parsed { quote: Quote::Single, word: Some(begun(p)), ..p })
            } else if c == '"' {
                parse_from(s, i + 1, Parsed { quote: Quote::Double, word: Some(begun(p)), ..p })
            } else if char_whitespace(c) {
                parse_from(s, i + 1, Parsed { words: finished(p), word: None, ..p })
            } else {
                parse_from(s, i + 1, grown(p, c))
            },
        }
    }
}

/// The words of a command line; none when a quote stays open.
pub open spec fn command_words(s: Seq<char>) -> Option<Seq<Seq<char>>> {
    let p = parse_from(
        s,
        0,
        Parsed { words: Seq::empty(), word: None, quote: Quote::Plain },
    );
    if p.quote == Quote::Plain {
        Some(finished(p))
    } else {
        None
    }
}

/// What has been read, by its views.
pub open spec fn parsed_view(words: Seq<String>, word: Option<String>, quote: Quote) -> Parsed {
    Parsed { words: texts(words), word: opt_text(word), quote }
}

fn grow(word: Option<String>, c: char) -> (r: Option<String>)
    ensures
        r is Some,
        r->0@ == match word {
            Some(w) => w@.push(c),
            None => seq![c],
        },
{
    let mut w = match word {
        Some(w) => w,
        None => String::new(),
    };
    w.push(c);
    assert(word is None ==> w@ =~= seq![c]);
    Some(w)
}

fn begin(word: Option<String>) -> (r: Option<String>)
    ensures
        r is Some,
        r->0@ == match word {
            Some(w) => w@,
            None => Seq::empty(),
        },
{
    match word {
        Some(w) => Some(w),
        None => {
            let w = String::new();
            assert(w@ =~= Seq::empty());
            Some(w)
        },
    }
}

/// Splits a command line into words.
pub fn parse_command(text: &str) -> (r: Result<Vec<String>, String>)
    ensures
        r is Ok == command_words(text@) is Some,
        r matches Ok(words) ==> texts(words@) == command_words(text@)->0,
        r matches Err(error) ==> error@ == "unterminated quote in command"@,
{
    let s = to_chars(text);
    let length: usize = s.len();
    let mut words: Vec<String> = Vec::new();
    let mut word: Option<String> = None;
    let mut quote = Quote::Plain;
    let mut i: usize = 0;
    let ghost start = Parsed { words: Seq::empty(), word: None, quote: Quote::Plain };
    assert(parsed_view(words@, word, quote) =~= start);
    while i < length
        invariant
            i <= length == s@.len(),
            s@ == text@,
            parse_from(text@, 0, start) == parse_from(
                text@,
                i as int,
                parsed_view(words@, word, quote),
            ),
        decreases length - i,
    {
        let ghost p = parsed_view(words@, word, quote);
        let c = s[i];
        match quote {
            Quote::Single => {
                if c == '\'' {
                    quote = Quote::Plain;
                } else {
                    word = grow(word, c);
                    assert(parsed_view(words@, word, quote) =~= grown(p, c));
                }
            },
            Quote::Double => {
                if c == '"' {
                    quote = Quote::Plain;
                } else if c == '\\' && length - i > 1 && (s[i + 1] == '"' || s[i + 1] == '\\') {
                    let escaped = s[i + 1];
                    word = grow(word, escaped);
                    assert(parsed_view(words@, word, quote) =~= grown(p, escaped));
                    i = i + 1;
                } else {
                    word = grow(word, c);
                    assert(parsed_view(words@, word, quote) =~= grown(p, c));
                }
            },
            Quote::Plain => {
                if c == '\'' {
                    word = begin(word);
                    quote = Quote::Single;
                    assert(parsed_view(words@, word, quote) =~= (Parsed {
                        quote: Quote::Single,
                        word: Some(begun(p)),
                        ..p
                    }));
                } else if c == '"' {
                    word = begin(word);
                    quote = Quote::Double;
                    assert(parsed_view(words@, word, quote) =~= (Parsed {
                        quote: Quote::Double,
                        word: Some(begun(p)),
                        ..p
                    }));
                } else if is_whitespace(c) {
                    if let Some(w) = word {
                        words.push(w);
                    }
                    word = None;
                    assert(texts(words@) =~= finished(p));
                } else {
                    word = grow(word, c);
                    assert(parsed_view(words@, word, quote) =~= grown(p, c));
                }
            },
        }
        i = i + 1;
    }
    let ghost p = parsed_view(words@, word, quote);
    assert(parse_from(text@, 0, start) == p);
    if quote != Quote::Plain {
        return Err("unterminated quote in command".to_owned());
    }
    if let Some(w) = word {
        words.push(w);
    }
    assert(texts(words@) =~= finished(p));
    Ok(words)
}

/// The placeholder for the path of the file.
pub open spec fn placeholder() -> Seq<char> {
    seq!['{', 'p', 'a', 't', 'h', '}']
}

/// `s` from position `i` on with every placeholder replaced by `path`.
pub open spec fn filled(s: Seq<char>, i: int, path: Seq<char>) -> Seq<char>
    decreases s.len() - i,
{
    if i < 0 || i >= s.len() {
        Seq::empty()
    } else if occurs_at(s, placeholder(), i) {
        path + filled(s, i + 6, path)
    } else {
        seq![s[i]] + filled(s, i + 1, path)
    }
}

fn fill(s: &str, path: &str) -> (r: String)
    ensures
        r@ == filled(s@, 0, path@),
{
    let v = to_chars(s);
    let length: usize = v.len();
    let mut r = String::new();
    let mut i: usize = 0;
    assert(r@ + filled(s@, 0, path@) =~= filled(s@, 0, path@));
    while i < length
        invariant
            i <= length == v@.len(),
            v@ == s@,
            r@ + filled(s@, i as int, path@) == filled(s@, 0, path@),
        decreases length - i,
    {
        let found = length - i >= 6 && v[i] == '{' && v[i + 1] == 'p' && v[i + 2] == 'a' && v[i + 3]
            == 't' && v[i + 4] == 'h' && v[i + 5] == '}';
        proof {
            if i + 6 <= length {
                let part = s@.subrange(i as int, i + 6);
                if found {
                    assert(part =~= placeholder());
                }
                if part == placeholder() {
                    assert(part[0] == v@[i as int] && part[1] == v@[i + 1] && part[2] == v@[i + 2]
                        && part[3] == v@[i + 3] && part[4] == v@[i + 4] && part[5] == v@[i + 5]);
                }
            }
            assert(found == occurs_at(s@, placeholder(), i as int));
        }
        let ghost before = r@;
        if found {
            r.append(path);
            assert(before + (path@ + filled(s@, i + 6, path@)) =~= before + path@ + filled(
                s@,
                i + 6,
                path@,
            ));
            i = i + 6;
        } else {
            r.push(v[i]);
            assert(before + (seq![s@[i as int]] + filled(s@, i + 1, path@)) =~= before.push(
                s@[i as int],
            ) + filled(s@, i + 1, path@));
            i = i + 1;
        }
    }
    assert(r@ + Seq::<char>::empty() =~= r@);
    r
}

/// Whether one of the words holds the placeholder.
pub open spec fn has_placeholder(words: Seq<Seq<char>>) -> bool {
    exists|i: int| 0 <= i < words.len() && contains_text(#[trigger] words[i], placeholder())
}

/// The words of a viewer's command line; an empty one names the default.
pub open spec fn viewer_words(viewer: Seq<char>, platform: Platform) -> Option<Seq<Seq<char>>> {
    match command_words(viewer) {
        Some(words) => Some(
            if words.len() == 0 {
                seq![default_viewer(platform)]
            } else {
                words
            },
        ),
        None => None,
    }
}

/// The words with every placeholder replaced by `path`; without one the path
/// comes last.
pub open spec fn words_with_path(words: Seq<Seq<char>>, path: Seq<char>) -> Seq<Seq<char>> {
    if has_placeholder(words) {
        words.map_values(|w: Seq<char>| filled(w, 0, path))
    } else {
        words
    }
}

/// The program and arguments that show the file at `path`: the viewer's words,
/// the file in place of the placeholder or at the end. On Windows `start` is a
/// command of the shell, which takes its first argument for a window title.
pub open spec fn invocation(viewer: Seq<char>, path: Seq<char>, platform: Platform) -> Option<
    (Seq<char>, Seq<Seq<char>>),
> {
    match viewer_words(viewer, platform) {
        None => None,
        Some(words) => {
            let filled_words = words_with_path(words, path);
            let program = filled_words[0];
            let rest = filled_words.drop_first();
            let shell = platform == Platform::Windows && same_ignoring_ascii_case(
                program,
                "start"@,
            );
            let args = if !shell {
                rest
            } else if rest.len() == 0 {
                seq!["/C"@, program, Seq::empty()]
            } else {
                seq!["/C"@, program] + rest
            };
            Some(
                (
                    if shell { "cmd"@ } else { program },
                    if has_placeholder(words) { args } else { args.push(path) },
                ),
            )
        },
    }
}

fn any_placeholder(words: &Vec<String>) -> (r: bool)
    ensures
        r == has_placeholder(texts(words@)),
{
    proof {
        reveal_strlit("{path}");
        assert("{path}"@ =~= placeholder());
    }
    let mut i: usize = 0;
    while i < words.len()
        invariant
            i <= words@.len(),
            "{path}"@ == placeholder(),
            forall|k: int|
                0 <= k < i ==> !contains_text(#[trigger] texts(words@)[k], placeholder()),
        decreases words.len() - i,
    {
        if contains(words[i].as_str(), "{path}") {
            assert(texts(words@)[i as int] == words@[i as int]@);
            return true;
        }
        i = i + 1;
    }
    false
}

fn fill_all(words: &Vec<String>, path: &str) -> (r: Vec<String>)
    ensures
        texts(r@) == texts(words@).map_values(|w: Seq<char>| filled(w, 0, path@)),
{
    let mut r: Vec<String> = Vec::new();
    let mut i: usize = 0;
    while i < words.len()
        invariant
            i <= words@.len(),
            r@.len() == i,
            forall|k: int| 0 <= k < i ==> (#[trigger] r@[k])@ == filled(words@[k]@, 0, path@),
        decreases words.len() - i,
    {
        r.push(fill(words[i].as_str(), path));
        i = i + 1;
    }
    assert(texts(r@) =~= texts(words@).map_values(|w: Seq<char>| filled(w, 0, path@)));
    r
}

/// The program and arguments that show a PDF file, run without a shell.
pub fn pdf_viewer_invocation(viewer: &str, path: &str, platform: Platform) -> (r: Result<
    (String, Vec<String>),
    String,
>)
    ensures
        r is Ok == invocation(viewer@, path@, platform) is Some,
        r matches Ok((program, args)) ==> (program@, texts(args@)) == invocation(
            viewer@,
            path@,
            platform,
        )->0,
        r matches Err(error) ==> error@ == "unterminated quote in command"@,
{
    let mut words = parse_command(viewer)?;
    assert(words@.len() == texts(words@).len());
    if words.len() == 0 {
        words.push(default_pdf_viewer(platform));
        assert(texts(words@) =~= seq![default_viewer(platform)]);
    }
    let has_path = any_placeholder(&words);
    let ghost given = texts(words@);
    let mut argv = if has_path {
        fill_all(&words, path)
    } else {
        words
    };
    assert(texts(argv@) == words_with_path(given, path@));
    let ghost filled_words = texts(argv@);
    assert(argv@.len() == filled_words.len());
    let program = argv.remove(0);
    let ghost rest = filled_words.drop_first();
    assert(texts(argv@) =~= rest);
    assert(program@ == filled_words[0]);
    let shell = platform == Platform::Windows && eq_ignore_ascii_case(program.as_str(), "start");
    let mut args: Vec<String> = Vec::new();
    let name = if shell {
        args.push("/C".to_owned());
        args.push(program);
        if argv.len() == 0 {
            args.push(String::new());
            assert(texts(args@) =~= seq!["/C"@, program@, Seq::empty()]);
        } else {
            let ghost head = args@;
            args.append(&mut argv);
            assert(texts(args@) =~= seq!["/C"@, program@] + rest);
        }
        "cmd".to_owned()
    } else {
        args.append(&mut argv);
        assert(texts(args@) =~= rest);
        program
    };
    if !has_path {
        let ghost before = args@;
        args.push(path.to_owned());
        assert(texts(args@) =~= texts(before).push(path@));
    }
    Ok((name, args))
}

/// The page `page`, kept among those that the document has.
pub open spec fn page_shown(v: PdfViewerState, page: int) -> PdfViewerState {
    let last = if v.total_pages > 1 { v.total_pages as int } else { 1 };
    PdfViewerState {
        page: (if page < 1 {
            1
        } else if page > last {
            last
        } else {
            page
        }) as usize,
        scroll_y: 0,
        ..v
    }
}

/// The page shown is one that the document has.
pub proof fn law_shown_page_exists(v: PdfViewerState, page: int)
    ensures
        1 <= page_shown(v, page).page,
        page_shown(v, page).page <= v.total_pages || page_shown(v, page).page == 1,
{
}

/// Shows a page from its top.
pub fn jump_to_page(v: &mut PdfViewerState, page: usize)
    ensures
        *final(v) == page_shown(*old(v), page as int),
{
    let last: usize = if v.total_pages > 1 { v.total_pages } else { 1 };
    v.page = if page < 1 {
        1
    } else if page > last {
        last
    } else {
        page
    };
    v.scroll_y = 0;
}

/// Shows the page after the current one.
pub fn page_down(v: &mut PdfViewerState)
    ensures
        *final(v) == page_shown(*old(v), old(v).page + 1),
{
    let next: usize = v.page.saturating_add(1);
    jump_to_page(v, next);
}

/// Shows the page before the current one.
pub fn page_up(v: &mut PdfViewerState)
    ensures
        *final(v) == page_shown(*old(v), old(v).page - 1),
{
    let previous: usize = v.page.saturating_sub(1);
    jump_to_page(v, previous);
}

/// The view `delta` rows further down the page, kept on the page.
pub open spec fn scrolled_rows(v: PdfViewerState, delta: int) -> PdfViewerState {
    let target = v.scroll_y + delta * v.row_pixel_h;
    PdfViewerState {
        scroll_y: (if target < 0 {
            0
        } else if target > v.max_scroll_y {
            v.max_scroll_y as int
        } else {
            target
        }) as u64,
        ..v
    }
}

fn scroll_rows(v: &mut PdfViewerState, delta: i64)
    ensures
        *final(v) == scrolled_rows(*old(v), delta as int),
{
    let d: i128 = delta as i128;
    let h: i128 = v.row_pixel_h as i128;
    assert(-0x8000_0000_0000_0000_0000_0000 <= d * h <= 0x8000_0000_0000_0000_0000_0000)
        by (nonlinear_arith)
        requires
            -0x8000_0000_0000_0000 <= d <= 0x7fff_ffff_ffff_ffff,
            0 <= h <= 0xffff_ffff,
    ;
    let target: i128 = v.scroll_y as i128 + d * h;
    if target < 0 {
        v.scroll_y = 0;
    } else if target > v.max_scroll_y as i128 {
        v.scroll_y = v.max_scroll_y;
    } else {
        v.scroll_y = target as u64;
    }
}

/// Scrolls the embedded viewer by rows.
pub fn pdf_scroll(app: &mut App, delta: i64)
    ensures
        *final(app) == (App {
            pdf_viewer: scrolled_rows(old(app).pdf_viewer, delta as int),
            ..*old(app)
        }),
        old(app).wf() ==> final(app).wf(),
{
    scroll_rows(&mut app.pdf_viewer, delta);
}

/// What a key of the embedded viewer does. Keys that repeat scroll; anything
/// else is done once for a press.
pub open spec fn pdf_key_step(pre: App, key: KeyEvent, post: App, action: Option<UiAction>) -> bool {
    let press = key.kind == KeyEventKind::Press;
    let turns = press || key.kind == KeyEventKind::Repeat;
    let v = pre.pdf_viewer;
    match key.code {
        KeyCode::Esc => post == pre && action == if press {
            Some(UiAction::ClosePdf)
        } else {
            None
        },
        KeyCode::Up => action is None && post == if turns {
            App { pdf_viewer: scrolled_rows(v, -1), ..pre }
        } else {
            pre
        },
        KeyCode::Down => action is None && post == if turns {
            App { pdf_viewer: scrolled_rows(v, 1), ..pre }
        } else {
            pre
        },
        KeyCode::PageUp => action is None && post == if press {
            App { pdf_viewer: page_shown(v, v.page - 1), ..pre }
        } else {
            pre
        },
        KeyCode::PageDown => action is None && post == if press {
            App { pdf_viewer: page_shown(v, v.page + 1), ..pre }
        } else {
            pre
        },
        KeyCode::Char(c) => if c == '?' {
            post == help_toggled(pre) && action is None
        } else if c == 'q' {
            post == pre && action == if press {
                Some(UiAction::ClosePdf)
            } else {
                None
            }
        } else if c == 'k' {
            action is None && post == if turns {
                App { pdf_viewer: scrolled_rows(v, -1), ..pre }
            } else {
                pre
            }
        } else if c == 'j' {
            action is None && post == if turns {
                App { pdf_viewer: scrolled_rows(v, 1), ..pre }
            } else {
                pre
            }
        } else {
            post == pre && action is None
        },
        _ => post == pre && action is None,
    }
}

/// Handles a key of the embedded viewer.
pub fn handle_pdf_viewer_key(app: &mut App, key: KeyEvent) -> (action: Option<UiAction>)
    requires
        old(app).wf(),
    ensures
        pdf_key_step(*old(app), key, *final(app), action),
        final(app).wf(),
{
    let press = key.kind == KeyEventKind::Press;
    let turns = press || key.kind == KeyEventKind::Repeat;
    match key.code {
        KeyCode::Esc => {
            if press {
                return Some(UiAction::ClosePdf);
            }
        },
        KeyCode::Up => {
            if turns {
                pdf_scroll(app, -1);
            }
        },
        KeyCode::Down => {
            if turns {
                pdf_scroll(app, 1);
            }
        },
        KeyCode::PageUp => {
            if press {
                page_up(&mut app.pdf_viewer);
            }
        },
        KeyCode::PageDown => {
            if press {
                page_down(&mut app.pdf_viewer);
            }
        },
        KeyCode::Char(c) => {
            if c == '?' {
                app.dispatch(Command::ToggleHelp);
            } else if c == 'q' {
                if press {
                    return Some(UiAction::ClosePdf);
                }
            } else if c == 'k' {
                if turns {
                    pdf_scroll(app, -1);
                }
            } else if c == 'j' {
                if turns {
                    pdf_scroll(app, 1);
                }
            }
        },
        _ => {},
    }
    None
}

/// How many characters of a file name the application shows.
pub const DISPLAY_NAME_LIMIT: usize = 100;

/// A file name without its extension.
pub open spec fn name_stem(name: Seq<char>) -> Seq<char> {
    if last_position(name, '.') <= 0 {
        name
    } else {
        name.take(last_position(name, '.'))
    }
}

/// A file name's extension; empty where it has none.
pub open spec fn name_suffix(name: Seq<char>) -> Seq<char> {
    if last_position(name, '.') <= 0 {
        Seq::empty()
    } else {
        name.skip(last_position(name, '.') + 1)
    }
}

/// The first `n` characters.
pub open spec fn first_chars(s: Seq<char>, n: int) -> Seq<char> {
    if n < s.len() {
        s.take(n)
    } else {
        s
    }
}

/// A file name as it is shown: a long one is cut short before its extension.
pub open spec fn shown_name(name: Seq<char>) -> Seq<char> {
    let suffix = name_suffix(name);
    let tail = if suffix.len() == 0 { 0 } else { suffix.len() + 1 };
    let room = if tail < DISPLAY_NAME_LIMIT { DISPLAY_NAME_LIMIT - tail - 1 } else { 0 };
    if name.len() <= DISPLAY_NAME_LIMIT {
        name
    } else if suffix.len() == 0 {
        first_chars(name_stem(name), room) + "…"@
    } else {
        first_chars(name_stem(name), room) + "…."@ + suffix
    }
}

/// The name under which a PDF file is shown.
pub fn display_name(os: Platform, path: &str) -> (r: String)
    ensures
        r@ == match file_name(os, path@) {
            Some(name) => shown_name(name),
            None => Seq::empty(),
        },
{
    let name = match path_file_name(os, path) {
        Some(name) => name,
        None => {
            let r = String::new();
            assert(r@ =~= Seq::empty());
            return r;
        },
    };
    let v = to_chars(name.as_str());
    let length: usize = v.len();
    if length <= DISPLAY_NAME_LIMIT {
        return name;
    }
    let mut dot: usize = length;
    assert(v@.take(length as int) =~= name@);
    while dot > 0 && v[dot - 1] != '.'
        invariant
            dot <= length == v@.len(),
            v@ == name@,
            last_position(name@, '.') == last_position(v@.take(dot as int), '.'),
        decreases dot,
    {
        assert(v@.take(dot as int).drop_last() =~= v@.take(dot - 1));
        assert(v@.take(dot as int).last() == v@[dot - 1]);
        dot = dot - 1;
    }
    proof {
        if dot > 0 {
            assert(v@.take(dot as int).last() == v@[dot - 1]);
        }
        assert(last_position(name@, '.') == dot - 1);
    }
    let stem: usize = if dot <= 1 { length } else { dot - 1 };
    let suffix_len: usize = if dot <= 1 { 0 } else { length - dot };
    let tail: usize = if suffix_len == 0 {
        0
    } else if suffix_len < DISPLAY_NAME_LIMIT {
        suffix_len + 1
    } else {
        DISPLAY_NAME_LIMIT
    };
    let room: usize = if tail < DISPLAY_NAME_LIMIT { DISPLAY_NAME_LIMIT - tail - 1 } else { 0 };
    let shown: usize = if room < stem { room } else { stem };
    let mut r = from_chars(&v, 0, shown);
    proof {
        assert(r@ =~= first_chars(name_stem(name@), room as int));
    }
    if suffix_len == 0 {
        r.append("…");
    } else {
        r.append("….");
        let suffix = from_chars(&v, dot, length);
        assert(suffix@ =~= name_suffix(name@));
        r.append(suffix.as_str());
    }
    r
}

/// A shown name is never longer than the limit, unless its extension is.
pub proof fn law_shown_name_is_short(name: Seq<char>)
    requires
        name_suffix(name).len() + 2 <= DISPLAY_NAME_LIMIT,
    ensures
        shown_name(name).len() <= DISPLAY_NAME_LIMIT,
{
    reveal_strlit("…");
    reveal_strlit("….");
}

/// What is known of a PDF file that is to be opened: its absolute path and how
/// many pages it has, where that could be told.
#[derive(Debug)]
pub struct PdfFile {
    pub path: String,
    pub pages: Option<usize>,
}

/// The embedded viewer shows a file from its first page on.
pub open spec fn pdf_shown(pre: App, file: PdfFile, session_id: Option<i64>, post: App) -> bool {
    &&& post == App {
        mode: AppMode::PdfView,
        toast: post.toast,
        pdf_viewer: PdfViewerState {
            path: Some(file.path),
            page: 1,
            scroll_y: 0,
            page_pixel_h: 0,
            max_scroll_y: 0,
            total_pages: match file.pages {
                Some(n) => n,
                None => 1,
            },
            session_id,
            session_start: Some(pre.clock_ms),
            ..pre.pdf_viewer
        },
        ..pre
    }
    &&& opt_text(post.toast) == Some(
        "Viewing PDF: "@ + match file_name(pre.platform, file.path@) {
            Some(name) => name,
            None => Seq::empty(),
        },
    )
}

fn show_pdf(app: &mut App, file: PdfFile, session_id: Option<i64>)
    ensures
        pdf_shown(*old(app), file, session_id, *final(app)),
        old(app).wf() ==> final(app).wf(),
{
    let name = match path_file_name(app.platform, file.path.as_str()) {
        Some(name) => name,
        None => {
            let r = String::new();
            assert(r@ =~= Seq::empty());
            r
        },
    };
    app.toast = Some(message("Viewing PDF: ", name.as_str()));
    app.mode = AppMode::PdfView;
    app.pdf_viewer.page = 1;
    app.pdf_viewer.scroll_y = 0;
    app.pdf_viewer.page_pixel_h = 0;
    app.pdf_viewer.max_scroll_y = 0;
    app.pdf_viewer.total_pages = match file.pages {
        Some(n) => n,
        None => 1,
    };
    app.pdf_viewer.session_id = session_id;
    app.pdf_viewer.session_start = Some(app.clock_ms);
    app.pdf_viewer.path = Some(file.path);
}

/// What opening a PDF file comes to: a missing one is reported, the embedded
/// viewer shows it, and for another viewer a program is to be run.
pub open spec fn open_pdf_step(
    pre: App,
    viewer: Seq<char>,
    path: Seq<char>,
    file: Option<PdfFile>,
    session_id: Option<i64>,
    post: App,
    run: Result<Option<(Seq<char>, Seq<Seq<char>>)>, Seq<char>>,
) -> bool {
    match file {
        None => {
            &&& post == App { toast: post.toast, ..pre }
            &&& opt_text(post.toast) == Some("PDF not found: "@ + path)
            &&& run == Ok::<Option<(Seq<char>, Seq<Seq<char>>)>, Seq<char>>(None)
        },
        Some(file) => if viewer == "internal"@ {
            pdf_shown(pre, file, session_id, post) && run == Ok::<
                Option<(Seq<char>, Seq<Seq<char>>)>,
                Seq<char>,
            >(None)
        } else {
            &&& post == pre
            &&& run == match invocation(viewer, file.path@, pre.platform) {
                Some(program) => Ok::<Option<(Seq<char>, Seq<Seq<char>>)>, Seq<char>>(
                    Some(program),
                ),
                None => Err("unterminated quote in command"@),
            }
        },
    }
}

/// The program to run, by its views.
pub open spec fn run_view(r: Result<Option<(String, Vec<String>)>, String>) -> Result<
    Option<(Seq<char>, Seq<Seq<char>>)>,
    Seq<char>,
> {
    match r {
        Ok(Some((program, args))) => Ok(Some((program@, texts(args@)))),
        Ok(None) => Ok(None),
        Err(error) => Err(error@),
    }
}

/// Opens a PDF file, or says which program is to do so. `file` is what is known
/// of the file, nothing where there is none at `path`.
pub fn open_pdf(
    app: &mut App,
    viewer: &str,
    path: &str,
    file: Option<PdfFile>,
    session_id: Option<i64>,
) -> (run: Result<Option<(String, Vec<String>)>, String>)
    ensures
        open_pdf_step(
            *old(app),
            viewer@,
            path@,
            file,
            session_id,
            *final(app),
            run_view(run),
        ),
        old(app).wf() ==> final(app).wf(),
{
    match file {
        None => {
            app.toast = Some(message("PDF not found: ", path));
            Ok(None)
        },
        Some(file) => {
            if same_text(viewer, "internal") {
                show_pdf(app, file, session_id);
                Ok(None)
            } else {
                match pdf_viewer_invocation(viewer, file.path.as_str(), app.platform) {
                    Ok(program) => Ok(Some(program)),
                    Err(error) => Err(error),
                }
            }
        },
    }
}

/// Reports whether the program that shows a PDF file could be started.
pub fn report_pdf_opened(app: &mut App, path: &str, program: &str, started: Result<(), String>)
    ensures
        *final(app) == (App { toast: final(app).toast, ..*old(app) }),
        opt_text(final(app).toast) == Some(
            match started {
                Ok(_) => "Opened PDF: "@ + match file_name(old(app).platform, path@) {
                    Some(name) => shown_name(name),
                    None => Seq::empty(),
                },
                Err(error) => "Could not open PDF with "@ + program@ + ": "@ + error@,
            },
        ),
        old(app).wf() ==> final(app).wf(),
{
    match started {
        Ok(_) => {
            let name = display_name(app.platform, path);
            app.toast = Some(message("Opened PDF: ", name.as_str()));
        },
        Err(error) => {
            let mut text = message("Could not open PDF with ", program);
            text.append(": ");
            text.append(error.as_str());
            app.toast = Some(text);
        },
    }
}

/// The program that opens an address in the browser, with its arguments.
pub open spec fn browser_invocation(url: Seq<char>, platform: Platform) -> (
    Seq<char>,
    Seq<Seq<char>>,
) {
    match platform {
        Platform::MacOs => ("open"@, seq![url]),
        Platform::Windows => ("cmd"@, seq!["/C"@, "start"@, ""@, url]),
        Platform::Other => ("xdg-open"@, seq![url]),
    }
}

/// The program that opens an address in the browser, with its arguments.
pub fn browser_command(url: &str, platform: Platform) -> (r: (String, Vec<String>))
    ensures
        (r.0@, texts(r.1@)) == browser_invocation(url@, platform),
{
    let r = match platform {
        Platform::MacOs => ("open".to_owned(), vec![url.to_owned()]),
        Platform::Windows => (
            "cmd".to_owned(),
            vec!["/C".to_owned(), "start".to_owned(), "".to_owned(), url.to_owned()],
        ),
        Platform::Other => ("xdg-open".to_owned(), vec![url.to_owned()]),
    };
    assert(texts(r.1@) =~= browser_invocation(url@, platform).1);
    r
}

/// Reports whether the browser could be started.
pub fn report_browser_opened(app: &mut App, started: Result<(), String>)
    ensures
        *final(app) == (App { toast: final(app).toast, ..*old(app) }),
        opt_text(final(app).toast) == Some(
            match started {
                Ok(_) => "Opened paper in browser"@,
                Err(error) => "Could not open browser: "@ + error@,
            },
        ),
        old(app).wf() ==> final(app).wf(),
{
    app.toast = Some(
        match started {
            Ok(_) => "Opened paper in browser".to_owned(),
            Err(error) => message("Could not open browser: ", error.as_str()),
        },
    );
}

/// A viewer without a placeholder gets the file as one argument, the last one,
/// whatever its path holds; nothing else depends on the path.
pub proof fn law_path_is_one_argument(
    viewer: Seq<char>,
    path: Seq<char>,
    other: Seq<char>,
    platform: Platform,
)
    requires
        viewer_words(viewer, platform) matches Some(words) && !has_placeholder(words),
    ensures
        invocation(viewer, path, platform) matches Some((program, args)) && args.len() > 0
            && args.last() == path && invocation(viewer, other, platform) == Some(
            (program, args.drop_last().push(other)),
        ),
{
    let (program, args) = invocation(viewer, path, platform)->0;
    let (program2, args2) = invocation(viewer, other, platform)->0;
    assert(args2 =~= args.drop_last().push(other));
}

/// The keys of the embedded viewer: PageDown and PageUp show the page behind and before
/// from its top, as far as there is one; Down and `j`, Up and `k` scroll by one row and
/// stay on the page; Escape and `q` close the viewer.
pub proof fn law_viewer_keys(pre: App, key: KeyEvent, post: App, action: Option<UiAction>)
    requires
        key.kind == KeyEventKind::Press,
        1 <= pre.pdf_viewer.page <= pre.pdf_viewer.total_pages,
        pre.pdf_viewer.scroll_y <= pre.pdf_viewer.max_scroll_y,
        pdf_key_step(pre, key, post, action),
    ensures
        ({
            let (v, w) = (pre.pdf_viewer, post.pdf_viewer);
            let down = key.code == KeyCode::Down || key.code == KeyCode::Char('j');
            let up = key.code == KeyCode::Up || key.code == KeyCode::Char('k');
            let closes = key.code == KeyCode::Esc || key.code == KeyCode::Char('q');
            &&& key.code == KeyCode::PageDown && v.page < v.total_pages ==> w.page == v.page + 1
                && w.scroll_y == 0
            &&& key.code == KeyCode::PageDown && v.page == v.total_pages ==> w.page == v.page
            &&& key.code == KeyCode::PageUp && v.page > 1 ==> w.page == v.page - 1 && w.scroll_y
                == 0
            &&& key.code == KeyCode::PageUp && v.page == 1 ==> w.page == 1
            &&& key.code != KeyCode::PageUp && key.code != KeyCode::PageDown ==> w.page == v.page
            &&& down && v.scroll_y + v.row_pixel_h <= v.max_scroll_y ==> w.scroll_y == v.scroll_y
                + v.row_pixel_h
            &&& down && v.scroll_y + v.row_pixel_h > v.max_scroll_y ==> w.scroll_y
                == v.max_scroll_y
            &&& up && v.scroll_y >= v.row_pixel_h ==> w.scroll_y == v.scroll_y - v.row_pixel_h
            &&& up && v.scroll_y < v.row_pixel_h ==> w.scroll_y == 0
            &&& closes ==> action == Some(UiAction::ClosePdf) && post == pre
            &&& !closes ==> action is None
            &&& w.path == v.path && w.total_pages == v.total_pages
        }),
{
    let h = pre.pdf_viewer.row_pixel_h as int;
    assert(1 * h == h && (-1) * h == -h);
}

/// A page that the document has is shown when it is asked for, from its top; one that it
/// lacks gives way to the nearest.
pub proof fn law_jumps_show_the_page(v: PdfViewerState, page: int)
    requires
        v.total_pages >= 1,
    ensures
        1 <= page <= v.total_pages ==> page_shown(v, page).page == page,
        page < 1 ==> page_shown(v, page).page == 1,
        page > v.total_pages ==> page_shown(v, page).page == v.total_pages,
        page_shown(v, page).scroll_y == 0,
        page_shown(v, page).path == v.path,
        page_shown(v, page).total_pages == v.total_pages,
{
}

proof fn lemma_parse_splits(a: Seq<char>, b: Seq<char>, i: int, p: Parsed)
    requires
        0 <= i <= a.len(),
        parse_from(a, i, p).quote == Quote::Plain,
    ensures
        parse_from(a + b, i, p) == parse_from(b, 0, parse_from(a, i, p)),
    decreases a.len() - i,
{
    let s = a + b;
    if i < a.len() {
        let c = a[i];
        assert(s[i] == c);
        match p.quote {
            Quote::Single => if c == '\'' {
                lemma_parse_splits(a, b, i + 1, Parsed { quote: Quote::Plain, ..p });
            } else {
                lemma_parse_splits(a, b, i + 1, grown(p, c));
            },
            Quote::Double => if c == '"' {
                lemma_parse_splits(a, b, i + 1, Parsed { quote: Quote::Plain, ..p });
            } else if c == '\\' && i + 1 < a.len() && (a[i + 1] == '"' || a[i + 1] == '\\') {
                assert(s[i + 1] == a[i + 1]);
                lemma_parse_splits(a, b, i + 2, grown(p, a[i + 1]));
            } else {
                if c == '\\' && i + 1 < a.len() {
                    assert(s[i + 1] == a[i + 1]);
                }
                if i + 1 == a.len() {
                    assert(parse_from(a, i + 1, grown(p, c)) == grown(p, c));
                }
                lemma_parse_splits(a, b, i + 1, grown(p, c));
            },
            Quote::Plain => if c == '\'' {
                lemma_parse_splits(
                    a,
                    b,
                    i + 1,
                    Parsed { quote: Quote::Single, word: Some(begun(p)), ..p },
                );
            } else if c == '"' {
                lemma_parse_splits(
                    a,
                    b,
                    i + 1,
                    Parsed { quote: Quote::Double, word: Some(begun(p)), ..p },
                );
            } else if char_whitespace(c) {
                lemma_parse_splits(
                    a,
                    b,
                    i + 1,
                    Parsed { words: finished(p), word: None, ..p },
                );
            } else {
                lemma_parse_splits(a, b, i + 1, grown(p, c));
            },
        }
    } else {
        lemma_parse_shift(a, b, 0, p);
    }
}

proof fn lemma_parse_shift(a: Seq<char>, b: Seq<char>, i: int, p: Parsed)
    requires
        0 <= i <= b.len(),
    ensures
        parse_from(a + b, a.len() + i, p) == parse_from(b, i, p),
    decreases b.len() - i,
{
    let s = a + b;
    if i < b.len() {
        let c = b[i];
        assert(s[a.len() + i] == c);
        if i + 1 < b.len() {
            assert(s[a.len() + i + 1] == b[i + 1]);
        }
        match p.quote {
            Quote::Single => if c == '\'' {
                lemma_parse_shift(a, b, i + 1, Parsed { quote: Quote::Plain, ..p });
            } else {
                lemma_parse_shift(a, b, i + 1, grown(p, c));
            },
            Quote::Double => if c == '"' {
                lemma_parse_shift(a, b, i + 1, Parsed { quote: Quote::Plain, ..p });
            } else if c == '\\' && i + 1 < b.len() && (b[i + 1] == '"' || b[i + 1] == '\\') {
                lemma_parse_shift(a, b, i + 2, grown(p, b[i + 1]));
            } else {
                lemma_parse_shift(a, b, i + 1, grown(p, c));
            },
            Quote::Plain => if c == '\'' {
                lemma_parse_shift(
                    a,
                    b,
                    i + 1,
                    Parsed { quote: Quote::Single, word: Some(begun(p)), ..p },
                );
            } else if c == '"' {
                lemma_parse_shift(
                    a,
                    b,
                    i + 1,
                    Parsed { quote: Quote::Double, word: Some(begun(p)), ..p },
                );
            } else if char_whitespace(c) {
                lemma_parse_shift(a, b, i + 1, Parsed { words: finished(p), word: None, ..p });
            } else {
                lemma_parse_shift(a, b, i + 1, grown(p, c));
            },
        }
    }
}

/// What was read before does not change how the rest is read.
proof fn lemma_parse_keeps_words(s: Seq<char>, i: int, p: Parsed, before: Seq<Seq<char>>)
    requires
        0 <= i <= s.len(),
    ensures
        ({
            let q = parse_from(s, i, p);
            parse_from(s, i, Parsed { words: before + p.words, ..p }) == Parsed {
                words: before + q.words,
                ..q
            }
        }),
    decreases s.len() - i,
{
    let pre = Parsed { words: before + p.words, ..p };
    if i < s.len() {
        let c = s[i];
        match p.quote {
            Quote::Single => if c == '\'' {
                lemma_parse_keeps_words(s, i + 1, Parsed { quote: Quote::Plain, ..p }, before);
            } else {
                lemma_parse_keeps_words(s, i + 1, grown(p, c), before);
            },
            Quote::Double => if c == '"' {
                lemma_parse_keeps_words(s, i + 1, Parsed { quote: Quote::Plain, ..p }, before);
            } else if c == '\\' && i + 1 < s.len() && (s[i + 1] == '"' || s[i + 1] == '\\') {
                lemma_parse_keeps_words(s, i + 2, grown(p, s[i + 1]), before);
            } else {
                lemma_parse_keeps_words(s, i + 1, grown(p, c), before);
            },
            Quote::Plain => if c == '\'' {
                lemma_parse_keeps_words(
                    s,
                    i + 1,
                    Parsed { quote: Quote::Single, word: Some(begun(p)), ..p },
                    before,
                );
            } else if c == '"' {
                lemma_parse_keeps_words(
                    s,
                    i + 1,
                    Parsed { quote: Quote::Double, word: Some(begun(p)), ..p },
                    before,
                );
            } else if char_whitespace(c) {
                lemma_parse_keeps_words(
                    s,
                    i + 1,
                    Parsed { words: finished(p), word: None, ..p },
                    before,
                );
                assert(finished(pre) =~= before + finished(p));
            } else {
                lemma_parse_keeps_words(s, i + 1, grown(p, c), before);
            },
        }
    }
}

/// White space separates the words of a command line: two lines with white space between
/// them have the words of the first and then those of the second.
pub proof fn law_white_space_separates_words(a: Seq<char>, space: char, b: Seq<char>)
    requires
        command_words(a) is Some,
        command_words(b) is Some,
        char_whitespace(space),
        space != '\'' && space != '"',
    ensures
        command_words(a.push(space) + b) == Some(command_words(a)->0 + command_words(b)->0),
{
    let none = Parsed { words: Seq::empty(), word: None, quote: Quote::Plain };
    let p = parse_from(a, 0, none);
    let gap = seq![space];
    lemma_parse_splits(a, gap + b, 0, none);
    assert(a.push(space) + b =~= a + (gap + b));
    let rest = gap + b;
    assert(rest[0] == space);
    let q = Parsed { words: finished(p), word: None, quote: Quote::Plain };
    assert(parse_from(rest, 0, p) == parse_from(rest, 1, q));
    lemma_parse_shift(gap, b, 0, q);
    lemma_parse_keeps_words(b, 0, none, finished(p));
    assert(finished(p) + Seq::<Seq<char>>::empty() =~= finished(p));
    let r = parse_from(b, 0, none);
    assert(parse_from(b, 0, q) == Parsed { words: finished(p) + r.words, ..r });
    assert(finished(Parsed { words: finished(p) + r.words, ..r }) =~= finished(p) + finished(r));
}

proof fn lemma_plain_word(w: Seq<char>, i: int, p: Parsed)
    requires
        0 <= i <= w.len(),
        p.quote == Quote::Plain,
        forall|k: int|
            0 <= k < w.len() ==> !char_whitespace(#[trigger] w[k]) && w[k] != '\'' && w[k] != '"',
        begun(p) == w.take(i),
        i > 0 ==> p.word is Some,
    ensures
        ({
            let q = parse_from(w, i, p);
            q.words == p.words && q.quote == Quote::Plain && begun(q) == w && (w.len() > 0 ==> q.word
                is Some)
        }),
    decreases w.len() - i,
{
    if i < w.len() {
        assert(w.take(i).push(w[i]) =~= w.take(i + 1));
        assert(seq![w[i]] =~= Seq::<char>::empty().push(w[i]));
        lemma_plain_word(w, i + 1, grown(p, w[i]));
    } else {
        assert(w.take(i) =~= w);
    }
}

/// A text without white space and quotes is one word, as it stands.
pub proof fn law_plain_text_is_one_word(w: Seq<char>)
    requires
        w.len() > 0,
        forall|k: int|
            0 <= k < w.len() ==> !char_whitespace(#[trigger] w[k]) && w[k] != '\'' && w[k] != '"',
    ensures
        command_words(w) == Some(seq![w]),
{
    let none = Parsed { words: Seq::empty(), word: None, quote: Quote::Plain };
    assert(w.take(0) =~= Seq::<char>::empty());
    lemma_plain_word(w, 0, none);
    assert(Seq::<Seq<char>>::empty().push(w) =~= seq![w]);
}

proof fn lemma_quoted_word(w: Seq<char>, quote: char, i: int, p: Parsed)
    requires
        1 <= i <= w.len() + 1,
        quote == '\'' && p.quote == Quote::Single || quote == '"' && p.quote == Quote::Double,
        forall|k: int| 0 <= k < w.len() ==> (#[trigger] w[k]) != quote && w[k] != '\\',
        p.word == Some(w.take(i - 1)),
    ensures
        parse_from(seq![quote] + w + seq![quote], i, p) == (Parsed {
            word: Some(w),
            quote: Quote::Plain,
            ..p
        }),
        parse_from(seq![quote] + w, i, p).quote != Quote::Plain,
    decreases w.len() + 1 - i,
{
    let s = seq![quote] + w + seq![quote];
    let open = seq![quote] + w;
    if i <= w.len() {
        assert(s[i] == w[i - 1]);
        assert(open[i] == w[i - 1]);
        assert(w.take(i - 1).push(w[i - 1]) =~= w.take(i));
        lemma_quoted_word(w, quote, i + 1, grown(p, w[i - 1]));
    } else {
        assert(s[i] == quote);
        assert(w.take(i - 1) =~= w);
        assert(parse_from(s, i + 1, Parsed { quote: Quote::Plain, ..p }) == (Parsed {
            quote: Quote::Plain,
            ..p
        }));
    }
}

/// Quotes make one word of what they enclose, white space and all; a quote that is not
/// closed makes the command line unreadable.
pub proof fn law_quotes_keep_a_word_together(w: Seq<char>, quote: char)
    requires
        quote == '\'' || quote == '"',
        forall|k: int| 0 <= k < w.len() ==> (#[trigger] w[k]) != quote && w[k] != '\\',
    ensures
        command_words(seq![quote] + w + seq![quote]) == Some(seq![w]),
        command_words(seq![quote] + w) is None,
{
    let none = Parsed { words: Seq::empty(), word: None, quote: Quote::Plain };
    let p = Parsed {
        words: Seq::empty(),
        word: Some(Seq::empty()),
        quote: if quote == '\'' {
            Quote::Single
        } else {
            Quote::Double
        },
    };
    let s = seq![quote] + w + seq![quote];
    let open = seq![quote] + w;
    assert(s[0] == quote && open[0] == quote);
    assert(w.take(0) =~= Seq::<char>::empty());
    lemma_quoted_word(w, quote, 1, p);
    assert(parse_from(s, 0, none) == parse_from(s, 1, p));
    assert(parse_from(open, 0, none) == parse_from(open, 1, p));
    assert(Seq::<Seq<char>>::empty().push(w) =~= seq![w]);
}

/// Filling puts the path in place of the placeholder and leaves everything else: a text
/// without one stays, and the first one gives way to the path before the rest is filled.
pub proof fn law_filling_replaces_the_placeholder(a: Seq<char>, b: Seq<char>, path: Seq<char>)
    requires
        forall|i: int| 0 <= i < a.len() ==> !occurs_at(a + placeholder() + b, placeholder(), i),
    ensures
        filled(a + placeholder() + b, 0, path) == a + path + filled(b, 0, path),
{
    lemma_filled_before(a + placeholder() + b, a.len() as int, 0, path);
    let s = a + placeholder() + b;
    assert(s.subrange(0, a.len() as int) =~= a);
    assert(s.subrange(a.len() as int, a.len() + 6int) =~= placeholder());
    assert(occurs_at(s, placeholder(), a.len() as int));
    lemma_filled_shift(a + placeholder(), b, 0, path);
    assert(filled(s, a.len() as int, path) == path + filled(s, a.len() + 6int, path));
    assert(filled(s, 0, path) =~= a + path + filled(b, 0, path));
}

/// A text that does not hold the placeholder is left as it is.
pub proof fn law_filling_leaves_other_texts(s: Seq<char>, path: Seq<char>)
    requires
        !contains_text(s, placeholder()),
    ensures
        filled(s, 0, path) == s,
{
    assert forall|i: int| 0 <= i < s.len() implies !occurs_at(s, placeholder(), i) by {
        if occurs_at(s, placeholder(), i) {
            assert(contains_text(s, placeholder()));
        }
    }
    lemma_filled_before(s, s.len() as int, 0, path);
    assert(s.subrange(0, s.len() as int) =~= s);
    assert(filled(s, 0, path) =~= s);
}

proof fn lemma_filled_before(s: Seq<char>, end: int, i: int, path: Seq<char>)
    requires
        0 <= i <= end <= s.len(),
        forall|k: int| 0 <= k < end ==> !occurs_at(s, placeholder(), k),
    ensures
        filled(s, i, path) == s.subrange(i, end) + filled(s, end, path),
    decreases end - i,
{
    if i < end {
        lemma_filled_before(s, end, i + 1, path);
        assert(s.subrange(i, end) =~= seq![s[i]] + s.subrange(i + 1, end));
        assert(filled(s, i, path) =~= s.subrange(i, end) + filled(s, end, path));
    } else {
        assert(s.subrange(i, end) + filled(s, end, path) =~= filled(s, end, path));
    }
}

proof fn lemma_filled_shift(a: Seq<char>, b: Seq<char>, i: int, path: Seq<char>)
    requires
        0 <= i,
    ensures
        filled(a + b, a.len() + i, path) == filled(b, i, path),
    decreases b.len() - i,
{
    let s = a + b;
    if i < b.len() {
        assert(s[a.len() + i] == b[i]);
        if i + 6 <= b.len() {
            assert(s.subrange(a.len() + i, a.len() + i + 6) =~= b.subrange(i, i + 6));
        }
        assert(occurs_at(s, placeholder(), a.len() + i) == occurs_at(b, placeholder(), i));
        lemma_filled_shift(a, b, i + 1, path);
        if i + 6 <= b.len() {
            lemma_filled_shift(a, b, i + 6, path);
        }
    }
}

/// Away from Windows the viewer's first word is the program and its other words are the
/// arguments, with the file behind them where no word names its place.
pub proof fn law_viewer_words_are_the_command(
    viewer: Seq<char>,
    path: Seq<char>,
    platform: Platform,
)
    requires
        platform != Platform::Windows,
        command_words(viewer) is Some,
        !has_placeholder(command_words(viewer)->0),
    ensures
        ({
            let words = command_words(viewer)->0;
            &&& words.len() > 0 ==> invocation(viewer, path, platform) == Some(
                (words[0], words.skip(1).push(path)),
            )
            &&& words.len() == 0 && !contains_text(default_viewer(platform), placeholder())
                ==> invocation(viewer, path, platform) == Some(
                (default_viewer(platform), seq![path]),
            )
        }),
{
    let words = command_words(viewer)->0;
    if words.len() > 0 {
        assert(words.drop_first() =~= words.skip(1));
    } else {
        let named = seq![default_viewer(platform)];
        if !contains_text(default_viewer(platform), placeholder()) {
            assert(!has_placeholder(named));
            assert(named.drop_first().push(path) =~= seq![path]);
        }
    }
}

/// The embedded viewer is used exactly where it is set; a file that is not there is only
/// reported, and another program is only named.
pub proof fn law_pdf_files_open_where_they_are_set(
    pre: App,
    viewer: Seq<char>,
    path: Seq<char>,
    file: Option<PdfFile>,
    session_id: Option<i64>,
    post: App,
    run: Result<Option<(Seq<char>, Seq<Seq<char>>)>, Seq<char>>,
)
    requires
        open_pdf_step(pre, viewer, path, file, session_id, post, run),
        pre.mode != AppMode::PdfView,
    ensures
        post.mode == AppMode::PdfView <==> file is Some && viewer == "internal"@,
        post.mode == AppMode::PdfView ==> post.pdf_viewer.page == 1 && post.pdf_viewer.scroll_y == 0
            && post.pdf_viewer.path == Some(file->0.path) && post.pdf_viewer.session_id
            == session_id,
        file is None || viewer != "internal"@ ==> post.pdf_viewer == pre.pdf_viewer,
        file is None || viewer == "internal"@ ==> run == Ok::<
            Option<(Seq<char>, Seq<Seq<char>>)>,
            Seq<char>,
        >(None),
        file is Some && viewer != "internal"@ ==> post == pre && !(run matches Ok(None)),
{
}

/// A name of up to a hundred characters is shown whole; a longer one starts as the name
/// does and keeps its extension.
pub proof fn law_short_names_are_shown_whole(name: Seq<char>)
    ensures
        name.len() <= 100 ==> shown_name(name) == name,
        name.len() > 100 && name_suffix(name).len() > 0 ==> shown_name(name).skip(
            shown_name(name).len() - name_suffix(name).len(),
        ) == name_suffix(name),
{
    let suffix = name_suffix(name);
    if name.len() > 100 && suffix.len() > 0 {
        assert(shown_name(name).skip(shown_name(name).len() - suffix.len()) =~= suffix);
    }
}

/// The browser is handed the address, whole and as the last argument.
pub proof fn law_browsers_get_the_address(url: Seq<char>, platform: Platform)
    ensures
        browser_invocation(url, platform).1.len() > 0,
        browser_invocation(url, platform).1.last() == url,
        platform != Platform::Windows ==> browser_invocation(url, platform).1 == seq![url],
{
}

} // verus!
