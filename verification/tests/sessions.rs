use papr::actions::{AfterSave, UiAction};
use papr::citations::{
    apply_project_citation_ready, apply_project_citation_search_result, is_new_citation,
    open_citation_search, set_bib_titles, CitationAdded,
};
use papr::config_editor::{
    begin_config_editor_command, finish_config_editor_quit, finish_config_editor_write,
    finish_settings_apply, handle_config_editor_key, record_config_history, ConfigCommand,
    ConfigWrite, SettingsWrite, CONFIG_HISTORY_LIMIT,
};
use papr::dialogs::handle_confirm_delete_key;
use papr::discovery::{
    apply_search_response, process_search_updates, search_takes, SearchResponse, SearchUpdate,
};
use papr::keymap::handle_key;
use papr::keys::{KeyCode, KeyEvent, KeyEventKind, KeyModifiers};
use papr::model::{
    DeletionTarget, LibraryPaper, Project, ProjectBuildDiagnostic, ProjectDiagnosticSeverity,
    RemotePaper,
};
use papr::projects::{jump_to_project_diagnostic, save_project_editor};
use papr::state::{
    App, AppMode, Command, DiscoveryStatus, Page, ProjectCitationSearchMode, ProjectPane,
};
use papr::terminal::{
    append_terminal_output, change_terminal_directory, finish_terminal_command,
    sanitize_terminal_output, terminal_command_candidates, terminal_directory_target,
    DirectoryLookup, TerminalOutcome, MAX_TERMINAL_SCROLLBACK_BYTES,
};
use papr::viewer::{
    browser_command, default_pdf_viewer, display_name, jump_to_page, open_pdf, parse_command,
    pdf_scroll, pdf_viewer_invocation, report_browser_opened, report_pdf_opened, PdfFile, Platform,
};

fn key(code: KeyCode) -> KeyEvent {
    KeyEvent::new(code, KeyModifiers::none())
}

fn remote(id: &str) -> RemotePaper {
    RemotePaper {
        id: id.into(),
        title: format!("Paper {id}"),
        authors: Vec::new(),
        abstract_text: String::new(),
        published: 0,
        updated: 0,
        categories: Vec::new(),
        pdf_url: None,
        doi: None,
        journal_ref: None,
    }
}

fn response(query: &str, request_id: u64, update: SearchUpdate) -> SearchResponse {
    SearchResponse { query: query.into(), request_id, update }
}

#[test]
fn stale_answers_change_nothing() {
    let mut app = App::default();
    app.discovery.query = "graphs".into();
    let id = app.discovery.begin_search();
    let stale = vec![
        response("graphs", id + 1, SearchUpdate::Complete(vec![remote("1")])),
        response("trees", id, SearchUpdate::Complete(vec![remote("2")])),
    ];
    assert!(process_search_updates(&mut app, stale));
    assert!(app.discovery.results.is_empty());
    assert!(matches!(app.discovery.status, DiscoveryStatus::Loading));
    assert!(!process_search_updates(&mut app, Vec::new()));
}

#[test]
fn answers_are_shown_as_they_come() {
    let mut app = App::default();
    app.discovery.query = "graphs".into();
    let id = app.discovery.begin_search();
    let partial = SearchUpdate::Partial { papers: vec![remote("1")], next_start: Some(100) };
    apply_search_response(&mut app, response("graphs", id, partial));
    assert_eq!(app.discovery.results.len(), 1);
    assert_eq!(app.discovery.progress_message.as_deref(), Some("Loading more results..."));
    let retrying = SearchUpdate::Retrying { attempt: 2, max_attempts: 3 };
    apply_search_response(&mut app, response("graphs", id, retrying));
    assert_eq!(
        app.discovery.progress_message.as_deref(),
        Some("Retrying more results (2/3)...")
    );
    let failed = SearchUpdate::PartialFailure { next_start: 100 };
    apply_search_response(&mut app, response("graphs", id, failed));
    assert_eq!(app.discovery.next_batch_start, Some(100));
    assert_eq!(
        app.discovery.progress_message.as_deref(),
        Some("More results could not be loaded. Press r to retry.")
    );
    let first = SearchUpdate::InitialFailure("offline".into());
    apply_search_response(&mut app, response("graphs", id, first));
    assert!(matches!(&app.discovery.status, DiscoveryStatus::Error(error) if error == "offline"));
    let complete = SearchUpdate::Complete(vec![remote("1"), remote("2")]);
    apply_search_response(&mut app, response("graphs", id, complete));
    assert_eq!(app.discovery.results.len(), 2);
    assert!(app.discovery.next_batch_start.is_none());
    assert!(matches!(app.discovery.status, DiscoveryStatus::Ready));
}

#[test]
fn released_keys_do_nothing() {
    let mut app = App::default();
    let release =
        KeyEvent::with_kind(KeyCode::Char('q'), KeyModifiers::none(), KeyEventKind::Release);
    assert!(handle_key(&mut app, release).is_none());
    assert!(!app.should_quit);
    let repeat =
        KeyEvent::with_kind(KeyCode::Char('q'), KeyModifiers::none(), KeyEventKind::Repeat);
    assert!(handle_key(&mut app, repeat).is_none());
    assert!(!app.should_quit);
}

#[test]
fn help_returns_to_where_it_was_opened() {
    let mut app = App::default();
    app.page = Page::Library;
    app.mode = AppMode::PaperDetail;
    let _ = handle_key(&mut app, key(KeyCode::Char('?')));
    assert_eq!(app.mode, AppMode::Help);
    let _ = handle_key(&mut app, key(KeyCode::Char('?')));
    assert_eq!(app.mode, AppMode::PaperDetail);
}

#[test]
fn back_and_open_show_the_page_again() {
    let mut app = App::default();
    app.page = Page::Library;
    app.sidebar_index = 2;
    app.content_focused = true;
    app.library.selected = 4;
    app.dispatch(Command::Back);
    assert!(!app.content_focused);
    app.dispatch(Command::Open);
    assert!(app.content_focused);
    assert_eq!((app.page, app.library.selected), (Page::Library, 4));
}

#[test]
fn deletions_are_confirmed() {
    let mut app = App::default();
    app.mode = AppMode::ConfirmDelete;
    let target = || Some(DeletionTarget::Paper { id: 3, title: "t".into(), path: None });
    app.delete_confirmation = target();
    assert!(handle_confirm_delete_key(&mut app, key(KeyCode::Char('x'))).is_none());
    assert!(app.delete_confirmation.is_some());
    assert!(handle_confirm_delete_key(&mut app, key(KeyCode::Char('n'))).is_none());
    assert!(app.delete_confirmation.is_none());
    app.delete_confirmation = target();
    assert!(matches!(
        handle_confirm_delete_key(&mut app, key(KeyCode::Char('y'))),
        Some(UiAction::DeletePaper { paper_id: 3, path: None })
    ));
}

#[test]
fn a_failed_save_keeps_the_changes() {
    let mut app = App::default();
    app.project.active = Some(Project { name: "a".into(), path: "/a".into(), opened_at: 0 });
    app.project.pane = ProjectPane::Editor;
    app.project_editor.path = Some("/a/x.tex".into());
    app.project_editor.text = "text".into();
    app.project_editor.dirty = true;
    let action = save_project_editor(&mut app, Err("full".into()), AfterSave::CloseProject);
    assert!(action.is_none());
    assert!(app.project_editor.dirty);
    assert_eq!(app.toast.as_deref(), Some("Could not save file: full"));
    assert!(save_project_editor(&mut app, Ok(()), AfterSave::Stay).is_none());
    assert!(!app.project_editor.dirty);
    assert_eq!(app.toast.as_deref(), Some("Saved"));
    assert!(matches!(
        save_project_editor(&mut app, Ok(()), AfterSave::CloseProject),
        Some(UiAction::CloseProject)
    ));
}

#[test]
fn saving_without_a_file_goes_on() {
    let mut app = App::default();
    app.project.active = Some(Project { name: "a".into(), path: "/a".into(), opened_at: 0 });
    app.project.pane = ProjectPane::Editor;
    app.project_editor.dirty = true;
    assert!(save_project_editor(&mut app, Ok(()), AfterSave::Stay).is_none());
    assert!(app.project_editor.dirty);
    assert!(app.toast.is_none());
    assert!(save_project_editor(&mut app, Ok(()), AfterSave::ReturnToFileTree).is_none());
    assert_eq!(app.project.pane, ProjectPane::FileTree);
    assert!(app.toast.is_none());
}

#[test]
fn diagnostics_point_to_their_source() {
    let mut app = App::default();
    app.project.active = Some(Project { name: "a".into(), path: "/a".into(), opened_at: 0 });
    assert!(jump_to_project_diagnostic(&app).is_none());
    app.project_build.diagnostics = vec![ProjectBuildDiagnostic {
        severity: ProjectDiagnosticSeverity::Error,
        title: "t".into(),
        description: "d".into(),
        file: Some("b.tex".into()),
        line: Some(17),
        col: None,
        code: None,
        hint: None,
    }];
    assert!(matches!(
        jump_to_project_diagnostic(&app),
        Some(UiAction::OpenDiagnostic { path, line: 17 }) if path == "/a/b.tex"
    ));
}

#[test]
fn the_config_editor_keeps_a_bounded_history() {
    let mut app = App::default();
    app.config_editor.history = vec![String::new()];
    for n in 0..CONFIG_HISTORY_LIMIT + 10 {
        app.config_editor.text = format!("version = {n}");
        record_config_history(&mut app);
    }
    assert!(app.config_editor.history.len() <= CONFIG_HISTORY_LIMIT);
    let newest = app.config_editor.text.clone();
    let _ = handle_config_editor_key(&mut app, key(KeyCode::Char('u')));
    assert_ne!(app.config_editor.text, newest);
    let redo = KeyEvent::new(KeyCode::Char('r'), KeyModifiers::control());
    let _ = handle_config_editor_key(&mut app, redo);
    assert_eq!(app.config_editor.text, newest);
}

#[test]
fn the_config_editor_takes_commands() {
    let mut app = App::default();
    app.content_focused = true;
    app.config_editor.focused = true;
    app.config_editor.history = vec![String::new()];
    for code in [KeyCode::Char(':'), KeyCode::Char('w'), KeyCode::Char('x'), KeyCode::Backspace] {
        assert!(handle_config_editor_key(&mut app, key(code)).is_none());
    }
    let line = handle_config_editor_key(&mut app, key(KeyCode::Enter)).unwrap();
    assert_eq!(line, "w");
    assert_eq!(begin_config_editor_command(&mut app, " wq "), ConfigCommand::WriteQuit);
    assert_eq!(begin_config_editor_command(&mut app, "q"), ConfigCommand::Quit);
    assert_eq!(begin_config_editor_command(&mut app, "x"), ConfigCommand::Unknown);
    assert!(app.config_editor.command.is_none());

    for (outcome, error) in [
        (ConfigWrite::InvalidToml("e".into()), "Invalid TOML: e"),
        (ConfigWrite::SerializationFailed("e".into()), "Serialization failed: e"),
        (ConfigWrite::WriteFailed("e".into()), "Write failed: e"),
        (
            ConfigWrite::Written { canonical: "a = 1".into(), applied: Err("e".into()) },
            "Apply failed: e",
        ),
    ] {
        assert!(finish_config_editor_write(&mut app, true, outcome).is_none());
        assert_eq!(app.config_editor.error.as_deref(), Some(error));
        assert!(app.config_editor.focused);
    }
    let written = ConfigWrite::Written { canonical: "a = 2".into(), applied: Ok(()) };
    assert!(matches!(
        finish_config_editor_write(&mut app, true, written),
        Some(UiAction::Reindex)
    ));
    assert_eq!(app.config_editor.text, "a = 2");
    assert!(!app.config_editor.focused && !app.content_focused);
    finish_config_editor_quit(&mut app, Err("gone".into()));
    assert_eq!(
        app.config_editor.error.as_deref(),
        Some("Could not reload configuration: gone")
    );
}

#[test]
fn saved_settings_reach_the_config_editor() {
    let mut app = App::default();
    app.config_editor.error = Some("old".into());
    let failed = SettingsWrite::WriteFailed("full".into());
    assert!(finish_settings_apply(&mut app, failed).is_none());
    assert_eq!(app.toast.as_deref(), Some("Write failed: full"));
    let failed = SettingsWrite::SerializationFailed("x".into());
    assert!(finish_settings_apply(&mut app, failed).is_none());
    assert_eq!(app.toast.as_deref(), Some("Serialization failed: x"));
    let failed = SettingsWrite::Written { text: "a".into(), applied: Err("theme".into()) };
    assert!(finish_settings_apply(&mut app, failed).is_none());
    assert_eq!(app.toast.as_deref(), Some("Apply failed: theme"));
    let saved = SettingsWrite::Written { text: "b".into(), applied: Ok(()) };
    assert!(matches!(finish_settings_apply(&mut app, saved), Some(UiAction::Reindex)));
    assert_eq!(app.config_editor.text, "b");
    assert_eq!(app.config_editor.history, vec!["b"]);
    assert!(app.config_editor.error.is_none());
    assert_eq!(app.toast.as_deref(), Some("Settings saved and applied."));
}

#[test]
fn terminal_output_is_bounded_and_printable() {
    assert_eq!(sanitize_terminal_output("a\u{7}\tb\nc\u{9b}"), "a\tb\nc");
    let mut app = App::default();
    append_terminal_output(&mut app, "yes", &"é".repeat(MAX_TERMINAL_SCROLLBACK_BYTES));
    assert!(app.terminal.output.len() <= MAX_TERMINAL_SCROLLBACK_BYTES);
    assert!(app.terminal.output.ends_with('é'));
    app.terminal.output = String::new();
    finish_terminal_command(
        &mut app,
        "false",
        TerminalOutcome::Finished {
            stdout: "out".into(),
            stderr: "err".into(),
            success: false,
            code: Some(-1),
        },
    );
    assert_eq!(app.terminal.output, "$ false\n[exit -1]\nout\nerr");
    finish_terminal_command(&mut app, "nope", TerminalOutcome::NotRun("missing".into()));
    assert!(app.terminal.output.ends_with("$ nope\nCould not run command: missing"));
}

#[test]
fn the_terminal_changes_its_directory() {
    let mut app = App::default();
    app.terminal.directory = Some("/a".into());
    assert_eq!(terminal_directory_target(&app, None, "b"), "/a/b");
    assert_eq!(terminal_directory_target(&app, None, "/b"), "/b");
    change_terminal_directory(&mut app, "b", DirectoryLookup::Directory("/a/b".into()));
    assert_eq!(app.terminal.directory.as_deref(), Some("/a/b"));
    assert_eq!(app.terminal.output, "$ cd b\n/a/b");
    change_terminal_directory(&mut app, "f", DirectoryLookup::NotDirectory);
    assert!(app.terminal.output.ends_with("$ cd f\nNot a directory."));
    change_terminal_directory(&mut app, "g", DirectoryLookup::Failed("no".into()));
    assert!(app.terminal.output.ends_with("$ cd g\ncd: no"));
    assert_eq!(app.terminal.directory.as_deref(), Some("/a/b"));
    assert_eq!(
        terminal_command_candidates("C", vec!["cat".into(), "ls".into(), "Cargo".into(), "cat".into()]),
        vec!["Cargo", "cat", "cd", "clear"]
    );
}

#[test]
fn viewers_and_browsers_are_run_by_platform() {
    assert_eq!(default_pdf_viewer(Platform::MacOs), "open");
    assert_eq!(default_pdf_viewer(Platform::Windows), "cmd /C start msedge \"\"");
    assert_eq!(
        browser_command("https://x", Platform::Windows),
        (
            "cmd".to_owned(),
            vec!["/C".to_owned(), "start".to_owned(), String::new(), "https://x".to_owned()]
        )
    );
    assert_eq!(
        browser_command("https://x", Platform::Other),
        ("xdg-open".to_owned(), vec!["https://x".to_owned()])
    );
    assert!(parse_command("'open").is_err());
    assert!(pdf_viewer_invocation("\"open", "/a.pdf", Platform::Other).is_err());
    let mut app = App::default();
    report_browser_opened(&mut app, Ok(()));
    assert_eq!(app.toast.as_deref(), Some("Opened paper in browser"));
    report_browser_opened(&mut app, Err("no".into()));
    assert_eq!(app.toast.as_deref(), Some("Could not open browser: no"));
}

#[test]
fn documents_open_in_the_configured_viewer() {
    let mut app = App::default();
    app.clock_ms = 9;
    let run = open_pdf(&mut app, "internal", "/a.pdf", None, None);
    assert_eq!(run, Ok(None));
    assert_eq!(app.toast.as_deref(), Some("PDF not found: /a.pdf"));
    let file = || Some(PdfFile { path: "/real/a.pdf".into(), pages: Some(3) });
    let run = open_pdf(&mut app, "internal", "/a.pdf", file(), Some(5));
    assert_eq!(run, Ok(None));
    assert_eq!(app.mode, AppMode::PdfView);
    assert_eq!(app.pdf_viewer.session_id, Some(5));
    assert_eq!(app.pdf_viewer.session_start, Some(9));
    assert_eq!(app.toast.as_deref(), Some("Viewing PDF: a.pdf"));
    let run = open_pdf(&mut app, "evince", "/a.pdf", file(), None);
    assert_eq!(run, Ok(Some(("evince".to_owned(), vec!["/real/a.pdf".to_owned()]))));
    report_pdf_opened(&mut app, "/real/a.pdf", "evince", Ok(()));
    assert_eq!(app.toast.as_deref(), Some("Opened PDF: a.pdf"));
    report_pdf_opened(&mut app, "/real/a.pdf", "evince", Err("no".into()));
    assert_eq!(app.toast.as_deref(), Some("Could not open PDF with evince: no"));
    assert!(open_pdf(&mut app, "'evince", "/a.pdf", file(), None).is_err());
}

#[test]
fn pages_and_rows_stay_in_the_document() {
    let mut app = App::default();
    app.pdf_viewer.total_pages = 4;
    jump_to_page(&mut app.pdf_viewer, 9);
    assert_eq!(app.pdf_viewer.page, 4);
    jump_to_page(&mut app.pdf_viewer, 0);
    assert_eq!(app.pdf_viewer.page, 1);
    app.pdf_viewer.max_scroll_y = 10;
    app.pdf_viewer.row_pixel_h = 4;
    pdf_scroll(&mut app, 2);
    assert_eq!(app.pdf_viewer.scroll_y, 8);
    pdf_scroll(&mut app, 2);
    assert_eq!(app.pdf_viewer.scroll_y, 10);
    pdf_scroll(&mut app, -9);
    assert_eq!(app.pdf_viewer.scroll_y, 0);
    let long = format!("/x/{}.pdf", "n".repeat(200));
    let shown = display_name(Platform::Other, &long);
    assert_eq!(shown.chars().count(), 100);
    assert!(shown.ends_with("….pdf"));
    assert_eq!(display_name(Platform::Other, "/x/short.pdf"), "short.pdf");
}

#[test]
fn citations_are_added_once() {
    let mut app = App::default();
    assert!(is_new_citation("@article{a}", "b2024"));
    assert!(!is_new_citation("@article{b2024}", "b2024"));
    apply_project_citation_ready(&mut app, "b2024", " A Title ", CitationAdded::Added);
    assert_eq!(app.toast.as_deref(), Some("Added citation b2024 to references.bib"));
    assert_eq!(app.citation_search.bib_titles, vec!["a title"]);
    apply_project_citation_ready(&mut app, "b2024", "A Title", CitationAdded::AlreadyThere);
    assert_eq!(
        app.toast.as_deref(),
        Some("Citation b2024 already exists in references.bib")
    );
    apply_project_citation_ready(&mut app, "c", "C", CitationAdded::WriteFailed);
    assert_eq!(app.toast.as_deref(), Some("Failed to write references.bib"));
    set_bib_titles(&mut app, vec![" Über ".into(), "  ".into()]);
    assert_eq!(app.citation_search.bib_titles, vec!["über"]);
}

#[test]
fn online_citations_answer_the_shown_query() {
    let mut app = App::default();
    app.library.papers = vec![LibraryPaper {
        id: 1,
        title: "Graph Learning".into(),
        authors: String::new(),
        doi: None,
        arxiv_id: None,
        pdf_path: None,
        canonical_path: None,
        file_size: None,
        reading_status: "unread".into(),
        is_favorite: false,
    }];
    open_citation_search(&mut app);
    assert_eq!(app.mode, AppMode::ProjectCitationSearch);
    assert_eq!(app.citation_search.results.len(), 1);
    app.citation_search.search_mode = ProjectCitationSearchMode::Online;
    app.citation_search.query = "graphs".into();
    apply_project_citation_search_result(&mut app, "trees", Ok(Vec::new()));
    assert_eq!(app.citation_search.results.len(), 1);
    apply_project_citation_search_result(&mut app, "graphs", Ok(vec![remote("1"), remote("2")]));
    assert_eq!(app.citation_search.status.as_deref(), Some("2 online papers found"));
    apply_project_citation_search_result(&mut app, "graphs", Ok(Vec::new()));
    assert_eq!(app.citation_search.status.as_deref(), Some("No online papers found."));
    apply_project_citation_search_result(&mut app, "graphs", Err("offline".into()));
    assert_eq!(
        app.citation_search.status.as_deref(),
        Some("Online search failed: offline")
    );
}

#[test]
fn shortcuts_never_reach_the_text() {
    let mut app = App::default();
    app.page = Page::Projects;
    app.content_focused = true;
    app.project.active = Some(Project { name: "a".into(), path: "/a".into(), opened_at: 0 });
    app.project.pane = ProjectPane::Editor;
    app.project_editor.path = Some("/a/x.tex".into());
    app.project_editor.text = "text".into();
    for insert_mode in [true, false] {
        app.project_editor.insert_mode = insert_mode;
        app.project_editor.dirty = true;
        let save = KeyEvent::new(KeyCode::Char('s'), KeyModifiers::control());
        assert!(matches!(
            handle_key(&mut app, save),
            Some(UiAction::SaveProjectEditor(AfterSave::Stay))
        ));
        for (code, modifiers) in [
            (KeyCode::Char('2'), KeyModifiers::alt()),
            (KeyCode::Char('x'), KeyModifiers::alt()),
        ] {
            if insert_mode {
                assert!(handle_key(&mut app, KeyEvent::new(code, modifiers)).is_none());
            }
        }
        assert_eq!(app.project_editor.text, "text");
    }
    app.project.pane = ProjectPane::FileTree;
    assert!(matches!(
        handle_key(&mut app, key(KeyCode::Esc)),
        Some(UiAction::SaveProjectEditor(AfterSave::CloseProject))
    ));
    assert!(app.project.active.is_some());
}

#[test]
fn motions_extend_a_selection() {
    let mut app = App::default();
    app.page = Page::Projects;
    app.content_focused = true;
    app.project.active = Some(Project { name: "a".into(), path: "/a".into(), opened_at: 0 });
    app.project.pane = ProjectPane::Editor;
    app.project_editor.text = "one\ntwo\nthree".into();
    let _ = handle_key(&mut app, key(KeyCode::Char('V')));
    let _ = handle_key(&mut app, key(KeyCode::Char('j')));
    let _ = handle_key(&mut app, key(KeyCode::Char('G')));
    assert_eq!(app.project_editor.visual_line_anchor, Some(0));
    assert_eq!(app.project_editor.cursor, 8);
    let action = handle_key(&mut app, key(KeyCode::Char('y')));
    assert!(matches!(action, Some(UiAction::CopyText(text)) if text == "one\ntwo\nthree"));
    assert_eq!(app.toast.as_deref(), Some("Yanked selected line(s)"));
}

#[test]
fn a_path_is_one_argument() {
    for path in ["/a b/c d.pdf", "/a\"b'.pdf", "/plain.pdf"] {
        let (program, args) =
            pdf_viewer_invocation("viewer --page 1", path, Platform::Other).unwrap();
        assert_eq!(program, "viewer");
        assert_eq!(args, vec!["--page", "1", path]);
        let (_, args) =
            pdf_viewer_invocation("viewer {path} --page 1", path, Platform::Other).unwrap();
        assert_eq!(args, vec![path, "--page", "1"]);
    }
}

#[test]
fn a_stray_search_cursor_can_be_brought_back() {
    let mut app = App::default();
    app.page = Page::Discover;
    app.content_focused = true;
    app.mode = AppMode::Search;
    app.discovery.query = " é  ".into();
    app.discovery.query_cursor = app.discovery.query.len();
    assert!(matches!(
        handle_key(&mut app, key(KeyCode::Enter)),
        Some(UiAction::Search(query)) if query == "é"
    ));
    assert_eq!(app.discovery.query_cursor, 5);
    // With no results, Up leads back to the field and leaves the cursor alone.
    let _ = handle_key(&mut app, key(KeyCode::Up));
    assert_eq!(app.mode, AppMode::Search);
    assert_eq!(app.discovery.query_cursor, 5);
    assert!(!search_takes(&app.discovery, key(KeyCode::Char('x'))));
    assert!(!search_takes(&app.discovery, key(KeyCode::Backspace)));
    assert!(search_takes(&app.discovery, key(KeyCode::Left)));
    let _ = handle_key(&mut app, key(KeyCode::Right));
    assert_eq!(app.discovery.query_cursor, 5);
    let _ = handle_key(&mut app, key(KeyCode::Left));
    assert_eq!(app.discovery.query_cursor, 2);
    assert!(search_takes(&app.discovery, key(KeyCode::Char('x'))));
    app.discovery.query_cursor = 1;
    let _ = handle_key(&mut app, key(KeyCode::Right));
    assert_eq!(app.discovery.query_cursor, 2);
    app.discovery.query_cursor = 1;
    let _ = handle_key(&mut app, key(KeyCode::Left));
    assert_eq!(app.discovery.query_cursor, 0);
}
