use papr::actions::UiAction;
use papr::background::{process_terminal_event, EventOutcome, TerminalEvent};
use papr::citations::open_citation_search;
use papr::keymap::{finish_paste, handle_key};
use papr::keys::{KeyCode, KeyEvent, KeyModifiers};
use papr::model::{MetadataPrompt, PaperNote};
use papr::project_editor::{
    has_active_text_input, paste_clipboard_into_active_input, paste_text_into_active_input,
};
use papr::state::{App, AppMode, Page, ProjectCitationSearchMode, ProjectPane};

/// A project whose editor shows `path`, in its normal mode.
fn editing(path: &str) -> App {
    let mut app = App::default();
    app.page = Page::Projects;
    app.content_focused = true;
    app.project.pane = ProjectPane::Editor;
    app.project_editor.path = Some(path.into());
    app.project_editor.text = "x".into();
    app
}

fn assert_untouched(app: &App) {
    assert_eq!(app.project_editor.text, "x");
    assert_eq!(app.project_editor.cursor, 0);
    assert!(!app.project_editor.insert_mode);
    assert!(!app.project_editor.dirty);
    assert!(app.project_editor.undo.is_empty());
}

fn plain(c: char) -> KeyEvent {
    KeyEvent::new(KeyCode::Char(c), KeyModifiers::none())
}

fn shortcut() -> KeyEvent {
    KeyEvent::new(
        KeyCode::Char('v'),
        KeyModifiers { control: true, shift: true, alt: false },
    )
}

#[test]
fn the_clipboard_goes_to_the_command_line_over_the_editor() {
    let mut app = editing("main.tex");
    app.mode = AppMode::TerminalCommand;
    let (taken, action) = paste_clipboard_into_active_input(&mut app, Some("ls".into()));
    assert!(taken);
    assert!(action.is_none());
    assert_eq!(app.terminal.command, "ls");
    assert_eq!(app.terminal.cursor, 2);
    assert_untouched(&app);
}

#[test]
fn the_shortcut_and_the_terminal_paste_into_the_same_field() {
    let mut app = editing("refs.bib");
    app.mode = AppMode::TerminalCommand;
    assert!(matches!(handle_key(&mut app, shortcut()), Some(UiAction::PasteClipboard)));
    assert!(finish_paste(&mut app, shortcut(), Some("l".into())).is_none());
    let outcome = process_terminal_event(&mut app, TerminalEvent::Paste("s".into()));
    assert!(matches!(outcome, EventOutcome::Action(None)));
    assert_eq!(app.terminal.command, "ls");
    assert_eq!(app.terminal.cursor, 2);
    assert_untouched(&app);
}

#[test]
fn the_editor_below_a_field_that_types_stays_in_its_insert_mode() {
    let mut app = editing("main.tex");
    app.project_editor.insert_mode = true;
    app.mode = AppMode::ProjectFileCreate;
    assert!(paste_text_into_active_input(&mut app, "a.tex").0);
    assert_eq!(app.project.rename_input, "a.tex");
    assert_eq!(app.project.rename_cursor, 5);
    assert_eq!(app.project_editor.text, "x");
    assert!(app.project_editor.insert_mode);
}

#[test]
fn a_dialog_over_any_file_keeps_the_editor_in_its_normal_mode() {
    let mut app = editing("notes.txt");
    app.mode = AppMode::CommandPalette;
    app.palette.selected = 2;
    assert!(paste_text_into_active_input(&mut app, "lib").0);
    assert_eq!(app.palette.query, "lib");
    assert_eq!(app.palette.query_cursor, 3);
    assert_eq!(app.palette.selected, 0);
    assert_untouched(&app);
    assert!(paste_text_into_active_input(&mut app, "").0);
    assert_eq!(app.palette.query, "lib");
    assert_untouched(&app);
}

#[test]
fn the_citation_search_takes_pastes_into_its_query() {
    let mut app = editing("main.tex");
    open_citation_search(&mut app);
    app.citation_search.query = "aé".into();
    app.citation_search.cursor = 1;
    app.citation_search.search_mode = ProjectCitationSearchMode::Online;
    app.citation_search.selected = 3;
    let (taken, action) = paste_clipboard_into_active_input(&mut app, Some("über ".into()));
    assert!(taken);
    assert!(action.is_none());
    assert_eq!(app.mode, AppMode::ProjectCitationSearch);
    assert_eq!(app.citation_search.query, "aüber é");
    assert_eq!(app.citation_search.cursor, 7);
    assert_eq!(app.citation_search.selected, 0);
    assert_eq!(app.citation_search.status.as_deref(), Some("Press Enter to search online."));
    assert_untouched(&app);
}

#[test]
fn the_citation_search_keeps_the_question_mark() {
    let mut app = editing("main.tex");
    open_citation_search(&mut app);
    assert!(has_active_text_input(&app));
    assert!(handle_key(&mut app, plain('?')).is_none());
    assert_eq!(app.mode, AppMode::ProjectCitationSearch);
    assert_eq!(app.citation_search.query, "?");
    assert_eq!(app.citation_search.cursor, 1);
    assert_untouched(&app);
}

#[test]
fn nothing_is_pasted_below_the_help_or_a_question() {
    for mode in [AppMode::Help, AppMode::ConfirmDelete, AppMode::PdfView] {
        let mut app = editing("main.tex");
        app.mode = mode;
        let (taken, action) = paste_clipboard_into_active_input(&mut app, Some("y".into()));
        assert!(!taken);
        assert!(action.is_none());
        assert!(app.toast.is_none());
        assert_untouched(&app);
    }
}

#[test]
fn fields_without_anything_to_edit_take_no_paste() {
    let mut app = editing("main.tex");
    app.mode = AppMode::Prompt;
    assert!(!paste_text_into_active_input(&mut app, "y").0);
    assert_untouched(&app);
    app.metadata_prompt = Some(MetadataPrompt {
        paper_id: None,
        rename_collection_id: None,
        rename_paper_id: None,
        value: "ab".into(),
        cursor: 1,
        selected: 0,
        current_collection: None,
    });
    assert!(paste_text_into_active_input(&mut app, "y").0);
    let prompt = app.metadata_prompt.as_ref().map(|p| (p.value.as_str(), p.cursor));
    assert_eq!(prompt, Some(("ayb", 2)));
    app.mode = AppMode::NoteEdit;
    app.notes.editor =
        Some(PaperNote { paper_id: 1, title: "t".into(), body: String::new(), cursor: 0 });
    app.notes.preview = true;
    assert!(!paste_text_into_active_input(&mut app, "n").0);
    app.notes.preview = false;
    assert!(paste_text_into_active_input(&mut app, "n").0);
    assert_eq!(app.notes.editor.as_ref().map(|n| (n.body.as_str(), n.cursor)), Some(("n", 1)));
    assert_untouched(&app);
}

#[test]
fn an_uncovered_editor_takes_the_paste() {
    let mut app = editing("refs.bib");
    app.project_editor.visual_line_anchor = Some(0);
    let (taken, action) = paste_clipboard_into_active_input(&mut app, Some("@a".into()));
    assert!(taken);
    assert!(matches!(action, Some(UiAction::SaveProjectEditor(_))));
    assert_eq!(app.project_editor.text, "@ax");
    assert_eq!(app.project_editor.cursor, 2);
    assert!(app.project_editor.insert_mode);
    assert!(app.project_editor.visual_line_anchor.is_none());
    let mut empty = editing("main.tex");
    let (taken, _) = paste_clipboard_into_active_input(&mut empty, None);
    assert!(taken);
    assert_eq!(empty.toast.as_deref(), Some("Clipboard does not contain text to paste."));
    assert_untouched(&empty);
}
