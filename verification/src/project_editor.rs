//! The editor of a project within the application, and pasting into whatever
//! field has the focus.

use vstd::prelude::*;
use crate::actions::{AfterSave, UiAction};
use crate::citations::{renew_search, search_renewed};
use crate::keys::{KeyCode, KeyEvent, MouseEventKind};
use crate::model::{opt_text, CompletionItem, LibraryPaper, MetadataPrompt, PaperNote};
use crate::papers::toasted;
use crate::paths::{extension_is_ignoring_case, has_extension_ignoring_case};
use crate::select::{clamp_selection, clamped_selection};
use crate::state::{
    App, AppMode, CitationSearch, DiscoveryState, NotesState, Page, Palette, ProjectEditor,
    ProjectPane, ProjectState, TerminalPalette, WorkspaceSearch,
};
use crate::terminal::completion_reset;
use crate::text::{boundary, group_points, index};
use crate::text_edit::{buffer, insert_at_cursor, inserted};
use crate::viewer::{pdf_scroll, scrolled_rows};
use crate::vim::{
    accept_completion, begin_pending_sequence, buf, completion_key_step, completion_offered,
    completion_step, delete_current_line, delete_line_step, expire_pending_sequence,
    finish_completion_key, move_page, move_step, page_target, paste_step, paste_text, query_fits,
    record_change, record_snapshot, redo_change, redo_step, scroll_lines, scrolled,
    sequence_expired, snapshot_step, undo_change, undo_step, visual_byte_range, visual_range,
};

verus! {

broadcast use group_points;

/// Everything but the editor stays.
pub open spec fn only_editor(pre: App, post: App) -> bool {
    post == App { project_editor: post.project_editor, ..pre }
}

/// Puts a snapshot on the undo stack.
pub fn record_project_editor_snapshot(app: &mut App, snapshot: (String, usize))
    requires
        boundary(snapshot.0@, snapshot.1 as int),
    ensures
        only_editor(*old(app), *final(app)),
        snapshot_step(old(app).project_editor, snapshot, final(app).project_editor),
        old(app).wf() ==> final(app).wf(),
{
    record_snapshot(&mut app.project_editor, snapshot);
}

/// Puts the current text and cursor on the undo stack.
pub fn record_project_editor_change(app: &mut App)
    requires
        old(app).project_editor.wf(),
    ensures
        only_editor(*old(app), *final(app)),
        snapshot_step(
            old(app).project_editor,
            (old(app).project_editor.text, old(app).project_editor.cursor),
            final(app).project_editor,
        ),
        old(app).wf() ==> final(app).wf(),
{
    record_change(&mut app.project_editor);
}

/// Takes back the last change.
pub fn undo_project_editor_change(app: &mut App)
    ensures
        only_editor(*old(app), *final(app)),
        undo_step(old(app).project_editor, final(app).project_editor),
        old(app).wf() ==> final(app).wf(),
{
    undo_change(&mut app.project_editor);
}

/// Does the last undone change again.
pub fn redo_project_editor_change(app: &mut App)
    ensures
        only_editor(*old(app), *final(app)),
        redo_step(old(app).project_editor, final(app).project_editor),
        old(app).wf() ==> final(app).wf(),
{
    redo_change(&mut app.project_editor);
}

/// Waits for the second key of a two-key command.
pub fn begin_project_editor_pending_sequence(app: &mut App, first_key: char)
    ensures
        only_editor(*old(app), *final(app)),
        final(app).project_editor == (ProjectEditor {
            pending_sequence: Some(
                crate::state::ProjectEditorPendingSequence {
                    first_key,
                    started_at: old(app).clock_ms,
                },
            ),
            ..old(app).project_editor
        }),
        old(app).wf() ==> final(app).wf(),
{
    let now: u64 = app.clock_ms;
    begin_pending_sequence(&mut app.project_editor, first_key, now);
}

/// Gives up the wait for a second key when its time is over.
pub fn expire_project_editor_pending_sequence(app: &mut App) -> (expired: bool)
    ensures
        expired == sequence_expired(old(app).project_editor.pending_sequence, old(app).clock_ms),
        *final(app) == if expired {
            App {
                project_editor: ProjectEditor {
                    pending_sequence: None,
                    ..old(app).project_editor
                },
                ..*old(app)
            }
        } else {
            *old(app)
        },
        old(app).wf() ==> final(app).wf(),
{
    let now: u64 = app.clock_ms;
    expire_pending_sequence(&mut app.project_editor, now)
}

/// Deletes the line of the cursor.
pub fn delete_project_editor_current_line(app: &mut App)
    requires
        old(app).project_editor.wf(),
    ensures
        only_editor(*old(app), *final(app)),
        delete_line_step(old(app).project_editor, final(app).project_editor),
        old(app).wf() ==> final(app).wf(),
{
    delete_current_line(&mut app.project_editor);
}

/// The bytes of the selected lines.
pub fn project_editor_visual_byte_range(app: &App, anchor: usize) -> (r: (usize, usize))
    requires
        app.project_editor.wf(),
    ensures
        boundary(app.project_editor.text@, r.0 as int),
        boundary(app.project_editor.text@, r.1 as int),
        (
            index(app.project_editor.text@, r.0 as int),
            index(app.project_editor.text@, r.1 as int),
        ) == visual_range(buf(app.project_editor), anchor as int),
{
    visual_byte_range(&app.project_editor, anchor)
}

/// Moves the cursor by pages of visible rows.
pub fn move_project_editor_page(app: &mut App, direction: isize)
    requires
        old(app).project_editor.wf(),
    ensures
        only_editor(*old(app), *final(app)),
        move_step(
            old(app).project_editor,
            page_target(old(app).project_editor, direction as int),
            final(app).project_editor,
        ),
        old(app).wf() ==> final(app).wf(),
{
    move_page(&mut app.project_editor, direction);
}

/// Offers completions for the citation key that is being typed at the cursor.
pub fn update_project_completions(app: &mut App, items: Vec<CompletionItem>)
    ensures
        only_editor(*old(app), *final(app)),
        final(app).project_editor == (ProjectEditor {
            completions: items,
            completion_selected: clamped_selection(
                old(app).project_editor.completion_selected as int,
                items@.len() as int,
            ) as usize,
            ..old(app).project_editor
        }),
        old(app).wf() ==> final(app).wf(),
{
    let len: usize = items.len();
    app.project_editor.completions = items;
    app.project_editor.completion_selected = clamp_selection(
        app.project_editor.completion_selected,
        len,
    );
}

/// Replaces the citation key `query`, which is being typed at the cursor, by the
/// selected completion.
pub fn accept_project_completion(app: &mut App, query: Option<String>) -> (accepted: bool)
    requires
        old(app).project_editor.wf(),
        query_fits(old(app).project_editor, opt_text(query)),
    ensures
        only_editor(*old(app), *final(app)),
        accepted == (completion_offered(old(app).project_editor) is Some && query is Some),
        accepted ==> completion_step(
            old(app).project_editor,
            query->0@,
            final(app).project_editor,
        ),
        !accepted ==> *final(app) == *old(app),
        old(app).wf() ==> final(app).wf(),
{
    accept_completion(&mut app.project_editor, query)
}

/// Goes on with a key that accepts a completion, once it is known which citation key
/// is being typed at the cursor.
pub fn finish_project_completion(app: &mut App, key: KeyEvent, query: Option<String>)
    requires
        old(app).project_editor.wf(),
        query_fits(old(app).project_editor, opt_text(query)),
    ensures
        only_editor(*old(app), *final(app)),
        completion_key_step(
            old(app).project_editor,
            key,
            opt_text(query),
            final(app).project_editor,
        ),
        old(app).wf() ==> final(app).wf(),
{
    finish_completion_key(&mut app.project_editor, key, query);
}

/// The wheel over the editor moves the cursor by lines.
pub fn scroll_project_editor(app: &mut App, delta: isize)
    requires
        old(app).project_editor.wf(),
    ensures
        only_editor(*old(app), *final(app)),
        move_step(
            ProjectEditor { manual_scroll: false, ..old(app).project_editor },
            scrolled(
                buf(old(app).project_editor),
                delta >= 0,
                (if delta < 0 { -delta as int } else { delta as int }) as nat,
            ).at,
            final(app).project_editor,
        ),
        old(app).wf() ==> final(app).wf(),
{
    let lines: usize = if delta < 0 {
        (-(delta as i128)) as usize
    } else {
        delta as usize
    };
    scroll_lines(&mut app.project_editor, delta >= 0, lines);
}

/// What the mouse wheel does: it scrolls the embedded viewer, or moves through
/// the editor that has the focus.
pub open spec fn mouse_step(pre: App, kind: MouseEventKind, post: App) -> bool {
    let down = kind == MouseEventKind::ScrollDown;
    if kind == MouseEventKind::Other {
        post == pre
    } else if pre.mode == AppMode::PdfView {
        post == App {
            pdf_viewer: scrolled_rows(pre.pdf_viewer, if down { 3 } else { -3 }),
            ..pre
        }
    } else if editor_active(pre) {
        &&& only_editor(pre, post)
        &&& move_step(
            ProjectEditor { manual_scroll: false, ..pre.project_editor },
            scrolled(buf(pre.project_editor), down, 3).at,
            post.project_editor,
        )
    } else {
        post == pre
    }
}

/// Handles the mouse wheel.
pub fn handle_mouse(app: &mut App, kind: MouseEventKind) -> (action: Option<UiAction>)
    requires
        old(app).wf(),
    ensures
        action is None,
        mouse_step(*old(app), kind, *final(app)),
        final(app).wf(),
{
    match kind {
        MouseEventKind::Other => {},
        MouseEventKind::ScrollUp => {
            if app.mode == AppMode::PdfView {
                pdf_scroll(app, -3);
            } else if is_project_editor_active(app) {
                scroll_project_editor(app, -3);
            }
        },
        MouseEventKind::ScrollDown => {
            if app.mode == AppMode::PdfView {
                pdf_scroll(app, 3);
            } else if is_project_editor_active(app) {
                scroll_project_editor(app, 3);
            }
        },
    }
    None
}

/// Whether the editor of a project has the focus.
pub open spec fn editor_active(app: App) -> bool {
    app.page == Page::Projects && app.content_focused && app.project.pane == ProjectPane::Editor
}

/// Whether the editor of a project has the focus.
pub fn is_project_editor_active(app: &App) -> (r: bool)
    ensures
        r == editor_active(*app),
{
    app.page == Page::Projects && app.content_focused && app.project.pane == ProjectPane::Editor
}

/// Whether a mode types into a field.
pub open spec fn typing_mode(mode: AppMode) -> bool {
    match mode {
        AppMode::ProjectRename | AppMode::ProjectCreate | AppMode::ProjectFileCreate
        | AppMode::ProjectEntryRename | AppMode::CommandPalette | AppMode::TerminalCommand
        | AppMode::NoteEdit | AppMode::Prompt | AppMode::Search | AppMode::DiscoverFilter
        | AppMode::WorkspaceSearch | AppMode::ProjectCitationSearch => true,
        _ => false,
    }
}

fn types_into_field(mode: AppMode) -> (r: bool)
    ensures
        r == typing_mode(mode),
{
    match mode {
        AppMode::ProjectRename | AppMode::ProjectCreate | AppMode::ProjectFileCreate
        | AppMode::ProjectEntryRename | AppMode::CommandPalette | AppMode::TerminalCommand
        | AppMode::NoteEdit | AppMode::Prompt | AppMode::Search | AppMode::DiscoverFilter
        | AppMode::WorkspaceSearch | AppMode::ProjectCitationSearch => true,
        _ => false,
    }
}

/// Whether the editor of a project has the focus and nothing stands over it: no
/// field, and nothing else that takes the keys.
pub open spec fn editor_uncovered(app: App) -> bool {
    &&& editor_active(app)
    &&& !typing_mode(app.mode)
    &&& app.mode != AppMode::Help
    &&& app.mode != AppMode::ConfirmDelete
    &&& app.mode != AppMode::PdfView
}

fn is_editor_uncovered(app: &App) -> (r: bool)
    ensures
        r == editor_uncovered(*app),
{
    is_project_editor_active(app) && !types_into_field(app.mode) && app.mode != AppMode::Help
        && app.mode != AppMode::ConfirmDelete && app.mode != AppMode::PdfView
}

/// Whether what is typed goes into a text.
pub open spec fn text_input_active(app: App) -> bool {
    typing_mode(app.mode) || editor_active(app) && app.project_editor.insert_mode
}

/// Whether what is typed goes into a text.
pub fn has_active_text_input(app: &App) -> (r: bool)
    ensures
        r == text_input_active(*app),
{
    types_into_field(app.mode) || is_project_editor_active(app) && app.project_editor.insert_mode
}

/// Whether the edited file takes pastes as they are: LaTeX and BibTeX sources.
pub open spec fn exact_paste_editor(app: App) -> bool {
    editor_active(app) && (app.project_editor.path matches Some(path)
        && (has_extension_ignoring_case(app.platform, path@, "bib"@) || has_extension_ignoring_case(
        app.platform,
        path@,
        "tex"@,
    )))
}

/// Whether the edited file is a bibliography.
pub open spec fn bib_editor(app: App) -> bool {
    app.project_editor.path matches Some(path) && has_extension_ignoring_case(
        app.platform,
        path@,
        "bib"@,
    )
}

/// Whether the edited file takes pastes as they are.
pub fn is_project_exact_paste_editor(app: &App) -> (r: bool)
    ensures
        r == exact_paste_editor(*app),
{
    is_project_editor_active(app) && match &app.project_editor.path {
        Some(path) => extension_is_ignoring_case(app.platform, path.as_str(), "bib")
            || extension_is_ignoring_case(app.platform, path.as_str(), "tex"),
        None => false,
    }
}

fn edits_bibliography(app: &App) -> (r: bool)
    ensures
        r == bib_editor(*app),
{
    match &app.project_editor.path {
        Some(path) => extension_is_ignoring_case(app.platform, path.as_str(), "bib"),
        None => false,
    }
}

/// Inserts a text into the edited file, character by character.
pub fn insert_project_bibtex_text(app: &mut App, text: &str)
    requires
        old(app).project_editor.wf(),
    ensures
        only_editor(*old(app), *final(app)),
        paste_step(old(app).project_editor, text@, final(app).project_editor),
        old(app).wf() ==> final(app).wf(),
{
    paste_text(&mut app.project_editor, text);
}

/// What pasting into a source does: the text goes in as it is, and a
/// bibliography is written at once.
pub open spec fn exact_paste_step(
    pre: App,
    text: Seq<char>,
    post: App,
    r: (bool, Option<UiAction>),
) -> bool {
    if exact_paste_editor(pre) && text.len() > 0 {
        &&& only_editor(pre, post)
        &&& paste_step(pre.project_editor, text, post.project_editor)
        &&& r.0
        &&& r.1 == if bib_editor(pre) {
            Some(UiAction::SaveProjectEditor(AfterSave::Stay))
        } else {
            None
        }
    } else {
        post == pre && !r.0 && r.1 is None
    }
}

/// Pastes into a LaTeX or BibTeX source without touching white space; `r.0`
/// says whether the paste was taken.
pub fn handle_project_exact_paste(app: &mut App, text: &str) -> (r: (bool, Option<UiAction>))
    requires
        old(app).project_editor.wf(),
    ensures
        exact_paste_step(*old(app), text@, *final(app), r),
        old(app).wf() ==> final(app).wf(),
{
    if !is_project_exact_paste_editor(app) || text.is_empty() {
        return (false, None);
    }
    insert_project_bibtex_text(app, text);
    if edits_bibliography(app) {
        (true, Some(UiAction::SaveProjectEditor(AfterSave::Stay)))
    } else {
        (true, None)
    }
}

/// Whether the settings page has the focus, which takes pastes by itself.
pub open spec fn settings_active(app: App) -> bool {
    app.page == Page::Settings && app.content_focused && app.mode == AppMode::Normal
}

fn is_settings_active(app: &App) -> (r: bool)
    ensures
        r == settings_active(*app),
{
    app.page == Page::Settings && app.content_focused && app.mode == AppMode::Normal
}

/// Pasting is a request to edit: the editor goes into its insert mode first.
pub open spec fn paste_ready(app: App) -> App {
    if editor_uncovered(app) && !app.project_editor.insert_mode {
        App {
            project_editor: ProjectEditor {
                insert_mode: true,
                visual_line_anchor: None,
                pending_sequence: None,
                ..app.project_editor
            },
            ..app
        }
    } else {
        app
    }
}

/// The field with `text` put in at its cursor.
pub open spec fn pasted_field(
    field: Seq<char>,
    cursor: int,
    text: Seq<char>,
    post: Seq<char>,
    post_cursor: int,
) -> bool {
    inserted(buffer(field, cursor), text).held(post, post_cursor)
}

/// What pasting into the field of the mode does; `false` says that there is no
/// such field.
pub open spec fn mode_paste_step(pre: App, text: Seq<char>, post: App, taken: bool) -> bool {
    match pre.mode {
        AppMode::ProjectRename | AppMode::ProjectCreate | AppMode::ProjectFileCreate
        | AppMode::ProjectEntryRename => {
            let p = pre.project;
            let q = post.project;
            &&& taken
            &&& post == App {
                project: ProjectState {
                    rename_input: q.rename_input,
                    rename_cursor: q.rename_cursor,
                    ..p
                },
                ..pre
            }
            &&& pasted_field(
                p.rename_input@,
                p.rename_cursor as int,
                text,
                q.rename_input@,
                q.rename_cursor as int,
            )
        },
        AppMode::CommandPalette => {
            let p = pre.palette;
            let q = post.palette;
            &&& taken
            &&& post == App { palette: Palette { selected: 0, ..q }, ..pre }
            &&& pasted_field(
                p.query@,
                p.query_cursor as int,
                text,
                q.query@,
                q.query_cursor as int,
            )
        },
        AppMode::TerminalCommand => {
            let p = pre.terminal;
            let q = post.terminal;
            &&& taken
            &&& post == App { terminal: q, ..pre }
            &&& completion_reset(
                TerminalPalette { command: q.command, cursor: q.cursor, ..p },
                q,
            )
            &&& pasted_field(p.command@, p.cursor as int, text, q.command@, q.cursor as int)
        },
        AppMode::Search => {
            let p = pre.discovery;
            let q = post.discovery;
            &&& taken
            &&& post == App {
                discovery: DiscoveryState { query: q.query, query_cursor: q.query_cursor, ..p },
                ..pre
            }
            &&& pasted_field(
                p.query@,
                p.query_cursor as int,
                text,
                q.query@,
                q.query_cursor as int,
            )
        },
        AppMode::DiscoverFilter => {
            let p = pre.discovery;
            let q = post.discovery;
            &&& taken
            &&& post == App {
                discovery: DiscoveryState {
                    filter: q.filter,
                    filter_cursor: q.filter_cursor,
                    page: 0,
                    selected: 0,
                    scroll: 0,
                    ..p
                },
                ..pre
            }
            &&& pasted_field(
                p.filter@,
                p.filter_cursor as int,
                text,
                q.filter@,
                q.filter_cursor as int,
            )
        },
        AppMode::WorkspaceSearch => {
            let p = pre.workspace_search;
            let q = post.workspace_search;
            &&& taken
            &&& post == App {
                workspace_search: WorkspaceSearch { query: q.query, cursor: q.cursor, ..p },
                ..pre
            }
            &&& pasted_field(p.query@, p.cursor as int, text, q.query@, q.cursor as int)
        },
        AppMode::Prompt => match (pre.metadata_prompt, post.metadata_prompt) {
            (Some(p), Some(q)) => {
                &&& taken
                &&& post == App { metadata_prompt: post.metadata_prompt, ..pre }
                &&& q == MetadataPrompt { value: q.value, cursor: q.cursor, ..p }
                &&& pasted_field(p.value@, p.cursor as int, text, q.value@, q.cursor as int)
            },
            (None, None) => !taken && post == pre,
            _ => false,
        },
        AppMode::ProjectCitationSearch => {
            let p = pre.citation_search;
            let q = post.citation_search;
            &&& taken
            &&& post == App { citation_search: q, ..pre }
            &&& pasted_field(p.query@, p.cursor as int, text, q.query@, q.cursor as int)
            &&& search_renewed(
                CitationSearch { query: q.query, cursor: q.cursor, ..p },
                pre.library.papers@,
                q,
            )
        },
        AppMode::NoteEdit => match (pre.notes.editor, post.notes.editor) {
            (Some(p), Some(q)) => if pre.notes.preview {
                !taken && post == pre
            } else {
                &&& taken
                &&& post == App {
                    notes: NotesState { editor: post.notes.editor, ..pre.notes },
                    ..pre
                }
                &&& q == PaperNote { body: q.body, cursor: q.cursor, ..p }
                &&& pasted_field(p.body@, p.cursor as int, text, q.body@, q.cursor as int)
            },
            (None, None) => !taken && post == pre,
            _ => false,
        },
        _ => !taken && post == pre,
    }
}

/// What pasting into the editor of a project does: a LaTeX or BibTeX source takes
/// the text as it is, and so does any other file.
pub open spec fn editor_paste_step(
    pre: App,
    text: Seq<char>,
    post: App,
    r: (bool, Option<UiAction>),
) -> bool {
    if exact_paste_editor(pre) {
        exact_paste_step(pre, text, post, r)
    } else {
        &&& only_editor(pre, post)
        &&& paste_step(pre.project_editor, text, post.project_editor)
        &&& r.0
        &&& r.1 is None
    }
}

/// What pasting a text does; `r.0` says whether a field took it.
pub open spec fn paste_text_step(
    pre: App,
    text: Seq<char>,
    post: App,
    r: (bool, Option<UiAction>),
) -> bool {
    if settings_active(pre) {
        post == pre && !r.0 && r.1 is None
    } else if typing_mode(pre.mode) {
        if text.len() == 0 {
            post == pre && r.0 && r.1 is None
        } else {
            &&& mode_paste_step(pre, text, post, r.0)
            &&& r.1 is None
            &&& post.project_editor == pre.project_editor
        }
    } else if editor_uncovered(pre) {
        if text.len() == 0 {
            post == paste_ready(pre) && r.0 && r.1 is None
        } else {
            editor_paste_step(paste_ready(pre), text, post, r)
        }
    } else {
        post == pre && !r.0 && r.1 is None
    }
}

/// A paste changes the field that has the focus and no other text: where a field
/// stands over the editor of a project, the editor stays as it is.
pub proof fn law_paste_changes_the_focused_field_only(
    pre: App,
    text: Seq<char>,
    post: App,
    r: (bool, Option<UiAction>),
)
    requires
        paste_text_step(pre, text, post, r),
    ensures
        post == (App {
            project: post.project,
            palette: post.palette,
            terminal: post.terminal,
            discovery: post.discovery,
            workspace_search: post.workspace_search,
            metadata_prompt: post.metadata_prompt,
            citation_search: post.citation_search,
            notes: post.notes,
            project_editor: post.project_editor,
            ..pre
        }),
        !editor_uncovered(pre) ==> post.project_editor == pre.project_editor,
        !(pre.mode == AppMode::ProjectRename || pre.mode == AppMode::ProjectCreate || pre.mode
            == AppMode::ProjectFileCreate || pre.mode == AppMode::ProjectEntryRename)
            ==> post.project == pre.project,
        pre.mode != AppMode::CommandPalette ==> post.palette == pre.palette,
        pre.mode != AppMode::TerminalCommand ==> post.terminal == pre.terminal,
        pre.mode != AppMode::Search && pre.mode != AppMode::DiscoverFilter ==> post.discovery
            == pre.discovery,
        pre.mode == AppMode::Search ==> post.discovery.filter == pre.discovery.filter,
        pre.mode == AppMode::DiscoverFilter ==> post.discovery.query == pre.discovery.query,
        pre.mode != AppMode::WorkspaceSearch ==> post.workspace_search == pre.workspace_search,
        pre.mode != AppMode::Prompt ==> post.metadata_prompt == pre.metadata_prompt,
        pre.mode != AppMode::ProjectCitationSearch ==> post.citation_search == pre.citation_search,
        pre.mode != AppMode::NoteEdit ==> post.notes == pre.notes,
{
}

/// A paste reaches the field over the editor: the command line of the terminal
/// palette and the query of the citation search take the text at their cursors.
pub proof fn law_paste_reaches_the_field_over_the_editor(
    pre: App,
    text: Seq<char>,
    post: App,
    r: (bool, Option<UiAction>),
)
    requires
        paste_text_step(pre, text, post, r),
        text.len() > 0,
        pre.mode == AppMode::TerminalCommand || pre.mode == AppMode::ProjectCitationSearch,
    ensures
        r.0,
        r.1 is None,
        post.project_editor == pre.project_editor,
        pre.mode == AppMode::TerminalCommand ==> pasted_field(
            pre.terminal.command@,
            pre.terminal.cursor as int,
            text,
            post.terminal.command@,
            post.terminal.cursor as int,
        ),
        pre.mode == AppMode::ProjectCitationSearch ==> pasted_field(
            pre.citation_search.query@,
            pre.citation_search.cursor as int,
            text,
            post.citation_search.query@,
            post.citation_search.cursor as int,
        ),
{
}

fn make_paste_ready(app: &mut App)
    ensures
        *final(app) == paste_ready(*old(app)),
        old(app).wf() ==> final(app).wf(),
{
    if is_editor_uncovered(app) && !app.project_editor.insert_mode {
        app.project_editor.insert_mode = true;
        app.project_editor.visual_line_anchor = None;
        app.project_editor.pending_sequence = None;
    }
}

fn paste_name(p: &mut ProjectState, text: &str)
    requires
        boundary(old(p).rename_input@, old(p).rename_cursor as int),
    ensures
        *final(p) == (ProjectState {
            rename_input: final(p).rename_input,
            rename_cursor: final(p).rename_cursor,
            ..*old(p)
        }),
        pasted_field(
            old(p).rename_input@,
            old(p).rename_cursor as int,
            text@,
            final(p).rename_input@,
            final(p).rename_cursor as int,
        ),
        boundary(final(p).rename_input@, final(p).rename_cursor as int),
{
    insert_at_cursor(&mut p.rename_input, &mut p.rename_cursor, text);
}

fn paste_palette(p: &mut Palette, text: &str)
    requires
        boundary(old(p).query@, old(p).query_cursor as int),
    ensures
        final(p).selected == 0,
        pasted_field(
            old(p).query@,
            old(p).query_cursor as int,
            text@,
            final(p).query@,
            final(p).query_cursor as int,
        ),
        boundary(final(p).query@, final(p).query_cursor as int),
{
    insert_at_cursor(&mut p.query, &mut p.query_cursor, text);
    p.selected = 0;
}

fn paste_command(t: &mut TerminalPalette, text: &str)
    requires
        old(t).wf(),
    ensures
        completion_reset(
            TerminalPalette { command: final(t).command, cursor: final(t).cursor, ..*old(t) },
            *final(t),
        ),
        pasted_field(
            old(t).command@,
            old(t).cursor as int,
            text@,
            final(t).command@,
            final(t).cursor as int,
        ),
        final(t).wf(),
{
    insert_at_cursor(&mut t.command, &mut t.cursor, text);
    t.completions.clear();
    t.completion_selected = None;
    t.completion_token_start = 0;
    t.completion_applied = false;
    proof {
        crate::text::lemma_ends(t.command@);
    }
}

fn paste_query(d: &mut DiscoveryState, text: &str)
    requires
        boundary(old(d).query@, old(d).query_cursor as int),
    ensures
        *final(d) == (DiscoveryState {
            query: final(d).query,
            query_cursor: final(d).query_cursor,
            ..*old(d)
        }),
        pasted_field(
            old(d).query@,
            old(d).query_cursor as int,
            text@,
            final(d).query@,
            final(d).query_cursor as int,
        ),
{
    insert_at_cursor(&mut d.query, &mut d.query_cursor, text);
}

fn paste_filter(d: &mut DiscoveryState, text: &str)
    requires
        boundary(old(d).filter@, old(d).filter_cursor as int),
    ensures
        *final(d) == (DiscoveryState {
            filter: final(d).filter,
            filter_cursor: final(d).filter_cursor,
            page: 0,
            selected: 0,
            scroll: 0,
            ..*old(d)
        }),
        pasted_field(
            old(d).filter@,
            old(d).filter_cursor as int,
            text@,
            final(d).filter@,
            final(d).filter_cursor as int,
        ),
        boundary(final(d).filter@, final(d).filter_cursor as int),
{
    insert_at_cursor(&mut d.filter, &mut d.filter_cursor, text);
    d.rebuild_filter();
}

fn paste_bar(w: &mut WorkspaceSearch, text: &str)
    requires
        boundary(old(w).query@, old(w).cursor as int),
    ensures
        *final(w) == (WorkspaceSearch {
            query: final(w).query,
            cursor: final(w).cursor,
            ..*old(w)
        }),
        pasted_field(
            old(w).query@,
            old(w).cursor as int,
            text@,
            final(w).query@,
            final(w).cursor as int,
        ),
        boundary(final(w).query@, final(w).cursor as int),
{
    insert_at_cursor(&mut w.query, &mut w.cursor, text);
}

fn paste_citation_query(search: &mut CitationSearch, papers: &Vec<LibraryPaper>, text: &str)
    requires
        boundary(old(search).query@, old(search).cursor as int),
    ensures
        pasted_field(
            old(search).query@,
            old(search).cursor as int,
            text@,
            final(search).query@,
            final(search).cursor as int,
        ),
        search_renewed(
            CitationSearch {
                query: final(search).query,
                cursor: final(search).cursor,
                ..*old(search)
            },
            papers@,
            *final(search),
        ),
        boundary(final(search).query@, final(search).cursor as int),
{
    insert_at_cursor(&mut search.query, &mut search.cursor, text);
    renew_search(search, papers);
}

fn paste_into_mode(app: &mut App, text: &str) -> (taken: bool)
    requires
        old(app).wf(),
        old(app).mode == AppMode::Search ==> old(app).search_cursor_ok(),
    ensures
        mode_paste_step(*old(app), text@, *final(app), taken),
        final(app).wf(),
{
    match app.mode {
        AppMode::ProjectRename | AppMode::ProjectCreate | AppMode::ProjectFileCreate
        | AppMode::ProjectEntryRename => {
            paste_name(&mut app.project, text);
            true
        },
        AppMode::CommandPalette => {
            paste_palette(&mut app.palette, text);
            true
        },
        AppMode::TerminalCommand => {
            paste_command(&mut app.terminal, text);
            true
        },
        AppMode::Search => {
            paste_query(&mut app.discovery, text);
            true
        },
        AppMode::DiscoverFilter => {
            paste_filter(&mut app.discovery, text);
            true
        },
        AppMode::WorkspaceSearch => {
            paste_bar(&mut app.workspace_search, text);
            true
        },
        AppMode::Prompt => {
            match app.metadata_prompt.take() {
                None => false,
                Some(p) => {
                    let mut p = p;
                    insert_at_cursor(&mut p.value, &mut p.cursor, text);
                    app.metadata_prompt = Some(p);
                    true
                },
            }
        },
        AppMode::ProjectCitationSearch => {
            paste_citation_query(&mut app.citation_search, &app.library.papers, text);
            true
        },
        AppMode::NoteEdit => {
            if app.notes.preview {
                return false;
            }
            match app.notes.editor.take() {
                None => false,
                Some(n) => {
                    let mut n = n;
                    insert_at_cursor(&mut n.body, &mut n.cursor, text);
                    app.notes.editor = Some(n);
                    true
                },
            }
        },
        _ => false,
    }
}

/// Pastes a text into the field that has the focus; `r.0` says whether there
/// is one.
pub fn paste_text_into_active_input(app: &mut App, text: &str) -> (r: (bool, Option<UiAction>))
    requires
        old(app).wf(),
        old(app).mode == AppMode::Search ==> old(app).search_cursor_ok(),
    ensures
        paste_text_step(*old(app), text@, *final(app), r),
        final(app).wf(),
        old(app).search_cursor_ok() ==> final(app).search_cursor_ok(),
{
    if is_settings_active(app) {
        return (false, None);
    }
    if types_into_field(app.mode) {
        if text.is_empty() {
            return (true, None);
        }
        return (paste_into_mode(app, text), None);
    }
    if !is_editor_uncovered(app) {
        return (false, None);
    }
    make_paste_ready(app);
    if text.is_empty() {
        return (true, None);
    }
    if is_project_exact_paste_editor(app) {
        return handle_project_exact_paste(app, text);
    }
    insert_project_bibtex_text(app, text);
    (true, None)
}

/// Whether a key is the paste shortcut; terminals may drop the Shift.
pub open spec fn paste_shortcut(key: KeyEvent) -> bool {
    key.modifiers.control && (key.code == KeyCode::Char('v') || key.code == KeyCode::Char('V'))
}

/// Whether a key is the paste shortcut.
pub fn is_text_paste_shortcut(key: KeyEvent) -> (r: bool)
    ensures
        r == paste_shortcut(key),
{
    key.modifiers.control && (key.code == KeyCode::Char('v') || key.code == KeyCode::Char('V'))
}

/// Whether pasting means anything where the focus is.
pub open spec fn paste_wanted(app: App) -> bool {
    settings_active(app) || typing_mode(app.mode) || editor_uncovered(app)
}

/// Whether pasting means anything where the focus is.
pub fn wants_paste(app: &App) -> (r: bool)
    ensures
        r == paste_wanted(*app),
{
    is_settings_active(app) || types_into_field(app.mode) || is_editor_uncovered(app)
}

/// What pasting the clipboard does; `r.0` says whether the paste is over. An
/// empty clipboard is reported.
pub open spec fn paste_clipboard_step(
    pre: App,
    clipboard: Option<Seq<char>>,
    post: App,
    r: (bool, Option<UiAction>),
) -> bool {
    if !paste_wanted(pre) {
        post == pre && !r.0 && r.1 is None
    } else if clipboard is None || clipboard->0.len() == 0 {
        toasted(pre, "Clipboard does not contain text to paste."@, post) && r.0 && r.1 is None
    } else {
        paste_text_step(pre, clipboard->0, post, r)
    }
}

/// Pastes what the clipboard holds into the field that has the focus.
pub fn paste_clipboard_into_active_input(app: &mut App, clipboard: Option<String>) -> (r: (
    bool,
    Option<UiAction>,
))
    requires
        old(app).wf(),
        old(app).mode == AppMode::Search ==> old(app).search_cursor_ok(),
    ensures
        paste_clipboard_step(*old(app), opt_text(clipboard), *final(app), r),
        final(app).wf(),
        old(app).search_cursor_ok() ==> final(app).search_cursor_ok(),
{
    if !wants_paste(app) {
        return (false, None);
    }
    match clipboard {
        Some(text) => {
            if !text.as_str().is_empty() {
                return paste_text_into_active_input(app, text.as_str());
            }
        },
        None => {},
    }
    app.toast = Some("Clipboard does not contain text to paste.".to_owned());
    (true, None)
}

/// The text stands in the field behind where the cursor was, what was there before stays
/// before and behind it, and the cursor moves behind it.
pub open spec fn stands_at_cursor(
    field: Seq<char>,
    cursor: int,
    text: Seq<char>,
    post: Seq<char>,
    post_cursor: int,
) -> bool {
    let at = index(field, cursor);
    &&& post.len() == field.len() + text.len()
    &&& post.take(at) == field.take(at)
    &&& post.subrange(at, at + text.len()) == text
    &&& post.skip(at + text.len()) == field.skip(at)
    &&& index(post, post_cursor) == at + text.len()
}

proof fn lemma_pasted(
    field: Seq<char>,
    cursor: int,
    text: Seq<char>,
    post: Seq<char>,
    post_cursor: int,
)
    requires
        boundary(field, cursor),
        pasted_field(field, cursor, text, post, post_cursor),
    ensures
        stands_at_cursor(field, cursor, text, post, post_cursor),
{
    let at = index(field, cursor);
    assert(post.take(at) =~= field.take(at));
    assert(post.subrange(at, at + text.len()) =~= text);
    assert(post.skip(at + text.len()) =~= field.skip(at));
    assert(at + text.len() <= post.len());
}

/// A paste puts the text at the cursor of the field that has the focus, whichever that is,
/// and is over with it.
pub proof fn law_pasted_text_stands_at_the_cursor(
    pre: App,
    text: Seq<char>,
    post: App,
    r: (bool, Option<UiAction>),
)
    requires
        pre.wf(),
        pre.mode == AppMode::Search ==> pre.search_cursor_ok(),
        text.len() > 0,
        paste_text_step(pre, text, post, r),
    ensures
        pre.mode == AppMode::ProjectRename || pre.mode == AppMode::ProjectCreate || pre.mode
            == AppMode::ProjectFileCreate || pre.mode == AppMode::ProjectEntryRename ==> r.0
            && stands_at_cursor(
            pre.project.rename_input@,
            pre.project.rename_cursor as int,
            text,
            post.project.rename_input@,
            post.project.rename_cursor as int,
        ),
        pre.mode == AppMode::CommandPalette ==> r.0 && stands_at_cursor(
            pre.palette.query@,
            pre.palette.query_cursor as int,
            text,
            post.palette.query@,
            post.palette.query_cursor as int,
        ),
        pre.mode == AppMode::TerminalCommand ==> r.0 && stands_at_cursor(
            pre.terminal.command@,
            pre.terminal.cursor as int,
            text,
            post.terminal.command@,
            post.terminal.cursor as int,
        ),
        pre.mode == AppMode::Search ==> r.0 && stands_at_cursor(
            pre.discovery.query@,
            pre.discovery.query_cursor as int,
            text,
            post.discovery.query@,
            post.discovery.query_cursor as int,
        ),
        pre.mode == AppMode::DiscoverFilter ==> r.0 && post.discovery.page == 0 && stands_at_cursor(
            pre.discovery.filter@,
            pre.discovery.filter_cursor as int,
            text,
            post.discovery.filter@,
            post.discovery.filter_cursor as int,
        ),
        pre.mode == AppMode::WorkspaceSearch ==> r.0 && stands_at_cursor(
            pre.workspace_search.query@,
            pre.workspace_search.cursor as int,
            text,
            post.workspace_search.query@,
            post.workspace_search.cursor as int,
        ),
        r.1 is None || editor_uncovered(pre),
{
    if typing_mode(pre.mode) {
        match pre.mode {
            AppMode::ProjectRename | AppMode::ProjectCreate | AppMode::ProjectFileCreate
            | AppMode::ProjectEntryRename => {
                lemma_pasted(
                    pre.project.rename_input@,
                    pre.project.rename_cursor as int,
                    text,
                    post.project.rename_input@,
                    post.project.rename_cursor as int,
                );
            },
            AppMode::CommandPalette => {
                lemma_pasted(
                    pre.palette.query@,
                    pre.palette.query_cursor as int,
                    text,
                    post.palette.query@,
                    post.palette.query_cursor as int,
                );
            },
            AppMode::TerminalCommand => {
                lemma_pasted(
                    pre.terminal.command@,
                    pre.terminal.cursor as int,
                    text,
                    post.terminal.command@,
                    post.terminal.cursor as int,
                );
            },
            AppMode::Search => {
                lemma_pasted(
                    pre.discovery.query@,
                    pre.discovery.query_cursor as int,
                    text,
                    post.discovery.query@,
                    post.discovery.query_cursor as int,
                );
            },
            AppMode::DiscoverFilter => {
                lemma_pasted(
                    pre.discovery.filter@,
                    pre.discovery.filter_cursor as int,
                    text,
                    post.discovery.filter@,
                    post.discovery.filter_cursor as int,
                );
            },
            AppMode::WorkspaceSearch => {
                lemma_pasted(
                    pre.workspace_search.query@,
                    pre.workspace_search.cursor as int,
                    text,
                    post.workspace_search.query@,
                    post.workspace_search.cursor as int,
                );
            },
            _ => {},
        }
    }
}

/// A paste into the editor of a project goes into its text at the cursor as one change that
/// can be undone, and leaves it in the insert mode; a bibliography is written at once, and no
/// other file is.
pub proof fn law_pastes_reach_the_editor(
    pre: App,
    text: Seq<char>,
    post: App,
    r: (bool, Option<UiAction>),
)
    requires
        pre.wf(),
        text.len() > 0,
        pre.page == Page::Projects,
        pre.content_focused,
        pre.project.pane == ProjectPane::Editor,
        pre.mode == AppMode::Normal,
        paste_text_step(pre, text, post, r),
    ensures
        r.0,
        stands_at_cursor(
            pre.project_editor.text@,
            pre.project_editor.cursor as int,
            text,
            post.project_editor.text@,
            post.project_editor.cursor as int,
        ),
        post.project_editor.insert_mode,
        post.project_editor.dirty,
        post.project_editor.undo@.last().0@ == pre.project_editor.text@,
        r.1 is Some ==> r.1 == Some(UiAction::SaveProjectEditor(AfterSave::Stay)) && (
        pre.project_editor.path matches Some(path) && has_extension_ignoring_case(
            pre.platform,
            path@,
            "bib"@,
        )),
        pre.project_editor.path matches Some(path) && has_extension_ignoring_case(
            pre.platform,
            path@,
            "bib"@,
        ) ==> r.1 == Some(UiAction::SaveProjectEditor(AfterSave::Stay)),
{
    lemma_pasted(
        pre.project_editor.text@,
        pre.project_editor.cursor as int,
        text,
        post.project_editor.text@,
        post.project_editor.cursor as int,
    );
}

/// The mouse wheel scrolls the embedded viewer by three rows and moves through the focused
/// editor; anywhere else, and for anything but the wheel, nothing happens.
pub proof fn law_the_wheel_scrolls(pre: App, kind: MouseEventKind, post: App)
    requires
        mouse_step(pre, kind, post),
    ensures
        ({
            let (v, w) = (pre.pdf_viewer, post.pdf_viewer);
            let view = pre.mode == AppMode::PdfView;
            let down = v.scroll_y + 3 * v.row_pixel_h;
            let up = v.scroll_y - 3 * v.row_pixel_h;
            &&& view && kind == MouseEventKind::ScrollDown && down <= v.max_scroll_y ==> w.scroll_y
                == down
            &&& view && kind == MouseEventKind::ScrollDown && down > v.max_scroll_y ==> w.scroll_y
                == v.max_scroll_y
            &&& view && kind == MouseEventKind::ScrollUp && 0 <= up <= v.max_scroll_y ==> w.scroll_y
                == up
            &&& view && kind == MouseEventKind::ScrollUp && up < 0 ==> w.scroll_y == 0
            &&& w.page == v.page
        }),
        kind == MouseEventKind::Other ==> post == pre,
        pre.mode != AppMode::PdfView && pre.page != Page::Projects ==> post == pre,
        post.project_editor.text == pre.project_editor.text,
{
    let h = pre.pdf_viewer.row_pixel_h as int;
    assert(3 * h == h * 3 && (-3) * h == -(3 * h));
}

/// Pasting means something in the fields, on the settings page and in an uncovered editor; an
/// empty clipboard is only reported.
pub proof fn law_empty_clipboards_paste_nothing(
    pre: App,
    clipboard: Option<Seq<char>>,
    post: App,
    r: (bool, Option<UiAction>),
)
    requires
        paste_clipboard_step(pre, clipboard, post, r),
        clipboard is None || clipboard->0.len() == 0,
    ensures
        post == (App { toast: post.toast, ..pre }),
        r.1 is None,
        typing_mode(pre.mode) ==> r.0 && post.toast is Some,
{
}

} // verus!
