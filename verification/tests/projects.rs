use papr::actions::{AfterSave, UiAction};
use papr::citations::handle_project_citation_search_key;
use papr::compile::{show_build_for_failed_compilation, show_preview_after_successful_compilation};
use papr::config_editor::message;
use papr::enrichment::merge_enriched_remote_paper;
use papr::entries::{creation_error, project_file_target, project_tree_entries};
use papr::keymap::handle_key;
use papr::keys::{KeyCode, KeyEvent, KeyEventKind, KeyModifiers, MouseEventKind};
use papr::model::{
    CollectionSummary, CompletionItem, Project, ProjectCitationResult, ProjectEntry, RemotePaper,
};
use papr::paths::is_project_text_file;
use papr::project_editor::{
    accept_project_completion, expire_project_editor_pending_sequence, finish_project_completion,
    handle_mouse,
    handle_project_exact_paste, insert_project_bibtex_text, paste_text_into_active_input,
    update_project_completions,
};
use papr::projects::show_project_folder;
use papr::state::{
    App, AppMode, Page, ProjectCitationSearchMode, ProjectEditorPendingSequence, ProjectPane,
};
use papr::viewer::{Platform, parse_command, pdf_viewer_invocation, should_open_generated_pdf};
use papr::vim::PROJECT_EDITOR_PENDING_SEQUENCE_TIMEOUT_MS;

fn project_editor_app(text: &str, cursor: usize) -> App {
    let mut app = App::default();
    app.page = Page::Projects;
    app.content_focused = true;
    app.project.active = Some(Project {
        name: "keyboard-test".into(),
        path: "keyboard-test".into(),
        opened_at: 0,
    });
    app.project.pane = ProjectPane::Editor;
    app.project_editor.text = text.into();
    app.project_editor.cursor = cursor;
    app.project_editor.insert_mode = true;
    app.project_editor.wrap_width = 80;
    app.project_editor.viewport_height = 20;
    app
}

/// A paper of the first of January 2026.
fn remote_paper(id: &str, title: &str) -> RemotePaper {
    RemotePaper {
        id: id.into(),
        title: title.into(),
        authors: vec!["Researcher".into()],
        abstract_text: String::new(),
        published: 1_767_225_600,
        updated: 1_767_225_600,
        categories: vec!["cs.DL".into()],
        pdf_url: None,
        doi: None,
        journal_ref: None,
    }
}

#[test]
fn project_citation_search_toggles_online_and_selects_remote_results() {
    let mut app = App::default();
    app.mode = AppMode::ProjectCitationSearch;
    app.citation_search.query = "graph learning".into();
    app.citation_search.cursor = "graph learning".len();

    assert!(
        handle_project_citation_search_key(
            &mut app,
            KeyEvent::new(KeyCode::Tab, KeyModifiers::none()),
        )
            .is_none()
    );
    assert_eq!(
        app.citation_search.search_mode,
        ProjectCitationSearchMode::Online
    );
    assert_eq!(
        app.citation_search.status.as_deref(),
        Some("Press Enter to search online.")
    );

    assert!(matches!(
            handle_project_citation_search_key(
                &mut app,
                KeyEvent::new(KeyCode::Enter, KeyModifiers::none()),
            ),
            Some(UiAction::SearchProjectCitationsOnline(query)) if query == "graph learning"
    ));

    app.citation_search.results = vec![ProjectCitationResult::Online(RemotePaper {
                id: "2401.00001".into(),
                title: "Graph Learning".into(),
                authors: vec!["Ada Researcher".into()],
                abstract_text: String::new(),
                published: 0,
                updated: 0,
                categories: Vec::new(),
                pdf_url: None,
                doi: None,
                journal_ref: None,
    })];
    assert!(matches!(
            handle_project_citation_search_key(
                &mut app,
                KeyEvent::new(KeyCode::Enter, KeyModifiers::none()),
            ),
            Some(UiAction::InsertProjectRemoteCitation(paper)) if paper.id == "2401.00001"
    ));
}

#[test]
fn enrichment_projection_keeps_the_displayed_abstract_when_provider_has_none() {
    let mut displayed = remote_paper("https://arxiv.org/abs/2602.00004", "Original title");
    displayed.abstract_text = "Abstract fetched from arXiv.".into();
    let mut provider = displayed.clone();
    provider.title = "Enriched title".into();
    provider.abstract_text = "  ".into();

    let merged = merge_enriched_remote_paper(&displayed, &provider);

    assert_eq!(merged.title, "Enriched title");
    assert_eq!(merged.abstract_text, "Abstract fetched from arXiv.");
}

#[test]
fn left_and_h_preserve_the_nested_collection_cursor() {
    for back in [KeyCode::Char('h'), KeyCode::Left] {
        let mut app = App::default();
        app.page = Page::Collections;
        app.sidebar_index = 4;
        app.content_focused = true;
        app.collections.selected = 3;
        app.collections.active = Some(CollectionSummary {
                id: 9,
                name: "Selected collection".into(),
                paper_count: 2,
                folder_path: Some("/tmp/Selected collection".into()),
        });
        app.collections.paper_selected = 1;
        app.collections.last_opened_id = Some(9);
        let action = handle_key(&mut app, KeyEvent::new(back, KeyModifiers::none()));
        assert!(action.is_none());
        assert!(app.collections.active.is_none());
        assert_eq!(app.collections.selected, 3);
        assert_eq!(app.collections.paper_selected, 1);
        assert_eq!(app.collections.last_opened_id, Some(9));
        assert!(app.content_focused);
    }
}

#[test]
fn citation_completion_replaces_only_the_current_key() {
    let mut app = project_editor_app("\\cite{newton1687, eins}", 22);
    let items = vec![CompletionItem {
            label: "einstein1905".into(),
            insert_text: "einstein1905".into(),
    }];
    update_project_completions(&mut app, items);
    assert!(accept_project_completion(&mut app, Some("eins".into())));
    assert_eq!(app.project_editor.text, "\\cite{newton1687, einstein1905}");
}

fn completing(text: &str, cursor: usize, insert: &str) -> App {
    let mut app = project_editor_app(text, cursor);
    let items = vec![CompletionItem { label: insert.into(), insert_text: insert.into() }];
    update_project_completions(&mut app, items);
    app
}

#[test]
fn accepting_a_completion_asks_for_the_key_of_that_moment() {
    let mut app = completing("\\cite{e}", 7, "einstein1905");
    let _ = handle_key(&mut app, KeyEvent::new(KeyCode::Char('i'), KeyModifiers::none()));
    assert_eq!(app.project_editor.text, "\\cite{ei}");
    let tab = KeyEvent::new(KeyCode::Tab, KeyModifiers::none());
    let action = handle_key(&mut app, tab);
    assert!(matches!(action, Some(UiAction::AcceptProjectCompletion)));
    assert_eq!(app.project_editor.text, "\\cite{ei}");
    finish_project_completion(&mut app, tab, Some("ei".into()));
    assert_eq!(app.project_editor.text, "\\cite{einstein1905}");
    assert_eq!(app.project_editor.cursor, 18);
    assert!(app.project_editor.completions.is_empty());
    assert!(app.project_editor.dirty);
}

#[test]
fn keys_without_a_citation_key_are_typed() {
    let mut app = completing("ab", 1, "x");
    let enter = KeyEvent::new(KeyCode::Enter, KeyModifiers::none());
    assert!(matches!(handle_key(&mut app, enter), Some(UiAction::AcceptProjectCompletion)));
    finish_project_completion(&mut app, enter, None);
    assert_eq!(app.project_editor.text, "a\nb");
    assert_eq!(app.project_editor.completions.len(), 1);
    app.project_editor.completion_selected = 5;
    assert!(handle_key(&mut app, enter).is_none());
    assert_eq!(app.project_editor.text, "a\n\nb");
    let mut long = completing("ab", 1, "x");
    assert!(accept_project_completion(&mut long, Some("longer".into())));
    assert_eq!(long.project_editor.text, "xb");
    assert_eq!(long.project_editor.cursor, 1);
}

#[test]
fn project_editor_insert_mode_handles_editing_keys_without_workspace_interception() {
    let mut app = project_editor_app("ab", 1);

    let _ = handle_key(&mut app, KeyEvent::new(KeyCode::Tab, KeyModifiers::none()));
    assert_eq!(app.project_editor.text, "a\tb");
    assert_eq!(app.project_editor.cursor, 2);
    assert!(app.project_editor.dirty);

    let _ = handle_key(
        &mut app,
        KeyEvent::new(KeyCode::Backspace, KeyModifiers::none()),
    );
    assert_eq!(app.project_editor.text, "ab");
    assert_eq!(app.project_editor.cursor, 1);

    let _ = handle_key(&mut app, KeyEvent::new(KeyCode::Enter, KeyModifiers::none()));
    let _ = handle_key(
        &mut app,
        KeyEvent::new(KeyCode::Char('q'), KeyModifiers::none()),
    );
    assert_eq!(app.project_editor.text, "a\nqb");
    assert_eq!(app.project_editor.cursor, 3);
    assert!(app.project_editor.insert_mode);
    assert!(!app.should_quit);
}

#[test]
fn bibtex_paste_preserves_the_clipboard_text_exactly() {
    let citation = "@article{doe2026,\n  title = {Exact {BibTeX} Formatting},\n  author = {Doe, Jane},\n}\n";
    let mut app = project_editor_app("before\nafter", "before\n".len());

    insert_project_bibtex_text(&mut app, citation);

    assert_eq!(app.project_editor.text, format!("before\n{citation}after"));
    assert_eq!(app.project_editor.cursor, "before\n".len() + citation.len());
    assert!(app.project_editor.dirty);
}

#[test]
fn project_editor_paste_from_normal_mode_enters_insert_and_matches_insert_mode() {
    let mut normal = project_editor_app("before", 3);
    normal.project_editor.insert_mode = false;
    let mut insert = project_editor_app("before", 3);

    assert!(paste_text_into_active_input(&mut normal, " pasted").0);
    assert!(paste_text_into_active_input(&mut insert, " pasted").0);

    assert_eq!(normal.project_editor.text, insert.project_editor.text);
    assert_eq!(normal.project_editor.cursor, insert.project_editor.cursor);
    assert!(normal.project_editor.insert_mode);
    assert!(normal.project_editor.dirty);
}

#[test]
fn project_tex_paste_uses_the_same_exact_text_path() {
    let pasted = "\\section{Exact}\n  text   stays\n";
    let mut app = project_editor_app("before", 6);
    app.project_editor.path = Some("/tmp/papr-exact.tex".into());

    let (taken, action) = handle_project_exact_paste(&mut app, pasted);
    assert!(taken);

    assert_eq!(app.project_editor.text, format!("before{pasted}"));
    assert!(action.is_none());
    assert!(app.project_editor.dirty);
}

#[test]
fn help_shortcut_is_global_and_editor_insert_mode_keeps_question_mark() {
    let mut library = App::default();
    library.page = Page::Library;
    library.content_focused = true;
    let _ = handle_key(
        &mut library,
        KeyEvent::new(KeyCode::Char('?'), KeyModifiers::none()),
    );
    assert_eq!(library.mode, AppMode::Help);

    let mut projects = project_editor_app("", 0);
    projects.project_editor.insert_mode = false;
    let _ = handle_key(
        &mut projects,
        KeyEvent::new(KeyCode::Char('?'), KeyModifiers::none()),
    );
    assert_eq!(projects.mode, AppMode::Help);

    let mut insert = project_editor_app("", 0);
    let _ = handle_key(
        &mut insert,
        KeyEvent::new(KeyCode::Char('?'), KeyModifiers::none()),
    );
    assert_eq!(insert.mode, AppMode::Normal);
    assert_eq!(insert.project_editor.text, "?");

    let mut pdf = App::default();
    pdf.mode = AppMode::PdfView;
    let _ = handle_key(
        &mut pdf,
        KeyEvent::new(KeyCode::Char('?'), KeyModifiers::shift()),
    );
    assert_eq!(pdf.mode, AppMode::Help);
    assert_eq!(pdf.help_return_mode, AppMode::PdfView);
}

#[test]
fn slash_opens_discover_search_from_projects_but_inserts_in_editor_insert_mode() {
    let mut projects = project_editor_app("", 0);
    projects.project_editor.insert_mode = false;
    let _ = handle_key(
        &mut projects,
        KeyEvent::new(KeyCode::Char('/'), KeyModifiers::none()),
    );
    assert_eq!(projects.page, Page::Discover);
    assert_eq!(projects.mode, AppMode::Search);

    let mut insert = project_editor_app("", 0);
    let _ = handle_key(
        &mut insert,
        KeyEvent::new(KeyCode::Char('/'), KeyModifiers::none()),
    );
    assert_eq!(insert.page, Page::Projects);
    assert_eq!(insert.mode, AppMode::Normal);
    assert_eq!(insert.project_editor.text, "/");
}

#[test]
fn project_editor_backspace_and_delete_remove_complete_unicode_characters() {
    let mut backspace = project_editor_app("aéb", 3);
    let _ = handle_key(
        &mut backspace,
        KeyEvent::new(KeyCode::Backspace, KeyModifiers::none()),
    );
    assert_eq!(backspace.project_editor.text, "ab");
    assert_eq!(backspace.project_editor.cursor, 1);

    let mut delete = project_editor_app("aéb", 1);
    let _ = handle_key(
        &mut delete,
        KeyEvent::new(KeyCode::Delete, KeyModifiers::none()),
    );
    assert_eq!(delete.project_editor.text, "ab");
    assert_eq!(delete.project_editor.cursor, 1);
}

#[test]
fn project_editor_visual_line_delete_undo_redo_and_word_deletion_work() {
    let mut app = project_editor_app("one\ntwo\nthree", 0);
    app.project_editor.insert_mode = false;
    let _ = handle_key(
        &mut app,
        KeyEvent::new(KeyCode::Char('V'), KeyModifiers::shift()),
    );
    let _ = handle_key(
        &mut app,
        KeyEvent::new(KeyCode::Char('j'), KeyModifiers::none()),
    );
    assert_eq!(app.project_editor.visual_line_anchor, Some(0));
    let _ = handle_key(
        &mut app,
        KeyEvent::new(KeyCode::Char('d'), KeyModifiers::none()),
    );
    assert_eq!(app.project_editor.text, "three");
    let _ = handle_key(
        &mut app,
        KeyEvent::new(KeyCode::Char('u'), KeyModifiers::none()),
    );
    assert_eq!(app.project_editor.text, "one\ntwo\nthree");
    let _ = handle_key(
        &mut app,
        KeyEvent::new(KeyCode::Char('r'), KeyModifiers::control()),
    );
    assert_eq!(app.project_editor.text, "three");

    app.project_editor.text = "alpha beta".into();
    app.project_editor.cursor = app.project_editor.text.len();
    app.project_editor.insert_mode = true;
    let _ = handle_key(
        &mut app,
        KeyEvent::new(KeyCode::Backspace, KeyModifiers::control()),
    );
    assert_eq!(app.project_editor.text, "alpha ");
    app.project_editor.cursor = 0;
    let _ = handle_key(
        &mut app,
        KeyEvent::new(KeyCode::Delete, KeyModifiers::control()),
    );
    assert_eq!(app.project_editor.text, "");

    app.project_editor.text = "alpha, beta".into();
    app.project_editor.cursor = app.project_editor.text.len();
    let _ = handle_key(
        &mut app,
        KeyEvent::new(KeyCode::Backspace, KeyModifiers::control()),
    );
    assert_eq!(app.project_editor.text, "alpha, ");
    app.project_editor.cursor = 0;
    let _ = handle_key(
        &mut app,
        KeyEvent::new(KeyCode::Delete, KeyModifiers::control()),
    );
    assert_eq!(app.project_editor.text, ", ");
}

#[test]
fn project_editor_navigation_keys_move_without_mutating_the_buffer() {
    let mut app = project_editor_app("abc\ndef", 2);

    let _ = handle_key(&mut app, KeyEvent::new(KeyCode::Left, KeyModifiers::none()));
    assert_eq!(app.project_editor.cursor, 1);
    let _ = handle_key(&mut app, KeyEvent::new(KeyCode::End, KeyModifiers::none()));
    assert_eq!(app.project_editor.cursor, 3);
    let _ = handle_key(&mut app, KeyEvent::new(KeyCode::Down, KeyModifiers::none()));
    assert_eq!(app.project_editor.cursor, 7);
    let _ = handle_key(&mut app, KeyEvent::new(KeyCode::Home, KeyModifiers::none()));
    assert_eq!(app.project_editor.cursor, 4);
    assert_eq!(app.project_editor.text, "abc\ndef");
    assert!(!app.project_editor.dirty);
}

#[test]
fn project_editor_supports_gg_g_and_mouse_wheel_scrolling() {
    let mut app = project_editor_app("one\ntwo\nthree\nfour", 5);
    app.project_editor.insert_mode = false;
    app.project_editor.viewport_height = 1;
    app.project_editor.wrap_width = 80;

    let _ = handle_mouse(
        &mut app,
        MouseEventKind::ScrollDown,
    );
    assert_eq!(app.project_editor.cursor, "one\ntwo\nthree\n".len() + 1);
    assert!(!app.project_editor.manual_scroll);

    let _ = handle_key(
        &mut app,
        KeyEvent::new(KeyCode::Char('g'), KeyModifiers::none()),
    );
    assert_eq!(
        app.project_editor.pending_sequence
            .map(|sequence| sequence.first_key),
        Some('g')
    );
    let _ = handle_key(
        &mut app,
        KeyEvent::new(KeyCode::Char('g'), KeyModifiers::none()),
    );
    assert_eq!(app.project_editor.cursor, 0);
    let _ = handle_key(
        &mut app,
        KeyEvent::new(KeyCode::Char('G'), KeyModifiers::shift()),
    );
    assert_eq!(app.project_editor.cursor, "one\ntwo\nthree\n".len());

    // An invalid second key cancels `g` and is then handled normally.
    app.project_editor.cursor += 2;
    let _ = handle_key(
        &mut app,
        KeyEvent::new(KeyCode::Char('g'), KeyModifiers::none()),
    );
    let _ = handle_key(
        &mut app,
        KeyEvent::new(KeyCode::Char('0'), KeyModifiers::none()),
    );
    assert!(app.project_editor.pending_sequence.is_none());
    assert_eq!(app.project_editor.cursor, "one\ntwo\nthree\n".len());
}

#[test]
fn project_editor_visual_line_motions_extend_the_selection() {
    let mut app = project_editor_app(
        "first\n\nsecond\n\n(third)\nlast",
        "first\n\nsecond\n".len(),
    );
    app.project_editor.insert_mode = false;

    let _ = handle_key(
        &mut app,
        KeyEvent::new(KeyCode::Char('V'), KeyModifiers::shift()),
    );
    assert_eq!(app.project_editor.visual_line_anchor, Some(3));

    // `gg` and `G` are motions while Visual Line mode is active; neither
    // should leave the mode or reset its anchor.
    let _ = handle_key(
        &mut app,
        KeyEvent::new(KeyCode::Char('g'), KeyModifiers::none()),
    );
    let _ = handle_key(
        &mut app,
        KeyEvent::new(KeyCode::Char('g'), KeyModifiers::none()),
    );
    assert_eq!(app.project_editor.cursor, 0);
    assert_eq!(app.project_editor.visual_line_anchor, Some(3));
    let _ = handle_key(
        &mut app,
        KeyEvent::new(KeyCode::Char('G'), KeyModifiers::shift()),
    );
    assert_eq!(
        app.project_editor.cursor,
        "first\n\nsecond\n\n(third)\n".len()
    );
    assert_eq!(app.project_editor.visual_line_anchor, Some(3));

    // Paragraph and delimiter motions use the same cursor path in Visual
    // Line and Normal mode, so they also extend the selection.
    app.project_editor.cursor = "first\n\nsecond\n".len();
    let _ = handle_key(
        &mut app,
        KeyEvent::new(KeyCode::Char('}'), KeyModifiers::shift()),
    );
    assert_eq!(app.project_editor.cursor, "first\n\nsecond\n\n".len());
    let _ = handle_key(
        &mut app,
        KeyEvent::new(KeyCode::Char('{'), KeyModifiers::shift()),
    );
    assert_eq!(app.project_editor.cursor, "first\n\n".len());
    app.project_editor.cursor = "first\n\nsecond\n\n".len();
    let _ = handle_key(
        &mut app,
        KeyEvent::new(KeyCode::Char('%'), KeyModifiers::shift()),
    );
    assert_eq!(app.project_editor.cursor, "first\n\nsecond\n\n(third".len());
    assert_eq!(app.project_editor.visual_line_anchor, Some(3));
}

#[test]
fn project_editor_dd_deletes_lines_and_cancels_pending_operator() {
    let mut app = project_editor_app("one\ntwo\nthree", "one\n".len());
    app.project_editor.insert_mode = false;

    let _ = handle_key(
        &mut app,
        KeyEvent::new(KeyCode::Char('d'), KeyModifiers::none()),
    );
    assert_eq!(
        app.project_editor.pending_sequence
            .map(|sequence| sequence.first_key),
        Some('d')
    );
    assert_eq!(app.project_editor.text, "one\ntwo\nthree");
    let _ = handle_key(
        &mut app,
        KeyEvent::new(KeyCode::Char('d'), KeyModifiers::none()),
    );
    assert_eq!(app.project_editor.text, "one\nthree");
    assert_eq!(app.project_editor.cursor, "one\n".len());
    assert!(app.project_editor.pending_sequence.is_none());
    assert!(app.project_editor.dirty);

    // A non-`d` second key cancels the operator and retains that key's
    // ordinary Normal-mode behavior.
    let _ = handle_key(
        &mut app,
        KeyEvent::new(KeyCode::Char('d'), KeyModifiers::none()),
    );
    let _ = handle_key(
        &mut app,
        KeyEvent::new(KeyCode::Char('x'), KeyModifiers::none()),
    );
    assert_eq!(app.project_editor.text, "one\nhree");
    assert!(app.project_editor.pending_sequence.is_none());

    let _ = handle_key(
        &mut app,
        KeyEvent::new(KeyCode::Char('d'), KeyModifiers::none()),
    );
    let _ = handle_key(&mut app, KeyEvent::new(KeyCode::Esc, KeyModifiers::none()));
    assert!(app.project_editor.pending_sequence.is_none());

    app.project_editor.pending_sequence = Some(ProjectEditorPendingSequence {
            first_key: 'd',
            started_at: 0,
    });
    app.clock_ms = PROJECT_EDITOR_PENDING_SEQUENCE_TIMEOUT_MS;
    assert!(expire_project_editor_pending_sequence(&mut app));
    assert!(app.project_editor.pending_sequence.is_none());
}

#[test]
fn project_editor_dd_removes_a_final_trailing_newline_line() {
    let mut app = project_editor_app("one\n", 4);
    app.project_editor.insert_mode = false;
    let _ = handle_key(
        &mut app,
        KeyEvent::new(KeyCode::Char('d'), KeyModifiers::none()),
    );
    let _ = handle_key(
        &mut app,
        KeyEvent::new(KeyCode::Char('d'), KeyModifiers::none()),
    );
    assert_eq!(app.project_editor.text, "one");
    assert_eq!(app.project_editor.cursor, 3);
}

#[test]
fn project_alt_number_shortcuts_select_available_panes_directly() {
    let mut app = project_editor_app("unchanged", 4);
    app.project_editor.path = Some(String::from("keyboard-test/main.tex"));
    app.project_editor.insert_mode = false;
    app.pdf_viewer.path =
    Some("Cargo.toml".into());

    for (number, expected) in [
        ('1', ProjectPane::FileTree),
        ('2', ProjectPane::Editor),
        ('3', ProjectPane::Preview),
        ('4', ProjectPane::Build),
    ] {
        let _ = handle_key(
            &mut app,
            KeyEvent::new(KeyCode::Char(number), KeyModifiers::alt()),
        );
        assert_eq!(app.project.pane, expected);
    }
}

#[test]
fn project_alt_shortcuts_work_in_insert_mode_and_unavailable_panes_are_safe() {
    let mut app = project_editor_app("abc", 1);
    app.project_editor.path = Some(String::from("keyboard-test/main.tex"));
    app.project_editor.dirty = true;

    let _ = handle_key(
        &mut app,
        KeyEvent::new(KeyCode::Char('4'), KeyModifiers::alt()),
    );
    assert_eq!(app.project.pane, ProjectPane::Build);
    assert_eq!(app.project_editor.text, "abc");
    assert_eq!(app.project_editor.cursor, 1);
    assert!(app.project_editor.insert_mode);
    assert!(app.project_editor.dirty);

    app.project.active = None;
    app.project.pane = ProjectPane::ProjectList;
    let _ = handle_key(
        &mut app,
        KeyEvent::new(KeyCode::Char('1'), KeyModifiers::alt()),
    );
    assert_eq!(app.project.pane, ProjectPane::ProjectList);
    assert!(
        app.toast
            .as_deref()
            .is_some_and(|message| message.contains("Open a project"))
    );
}

#[test]
fn project_right_panel_tab_switches_preview_and_build_views() {
    let mut app = project_editor_app("abc", 1);
    app.project_editor.insert_mode = false;
    app.project.pane = ProjectPane::Preview;

    let _ = handle_key(&mut app, KeyEvent::new(KeyCode::Tab, KeyModifiers::none()));
    assert_eq!(app.project.pane, ProjectPane::Build);
    assert!(app.project_build.visible);

    let _ = handle_key(&mut app, KeyEvent::new(KeyCode::Tab, KeyModifiers::none()));
    assert_eq!(app.project.pane, ProjectPane::Preview);
    assert!(!app.project_build.visible);
}

#[test]
fn focusing_file_tree_or_editor_keeps_the_visible_build_pane() {
    let mut app = project_editor_app("abc", 1);
    app.project_editor.insert_mode = false;
    app.project_editor.path = Some(String::from("keyboard-test/main.tex"));
    app.project_build.visible = true;
    app.project.pane = ProjectPane::Build;

    let _ = handle_key(
        &mut app,
        KeyEvent::new(KeyCode::Char('1'), KeyModifiers::alt()),
    );
    assert_eq!(app.project.pane, ProjectPane::FileTree);
    assert!(app.project_build.visible);

    let _ = handle_key(
        &mut app,
        KeyEvent::new(KeyCode::Char('2'), KeyModifiers::alt()),
    );
    assert_eq!(app.project.pane, ProjectPane::Editor);
    assert!(app.project_build.visible);
}

#[test]
fn successful_compilation_restores_preview_without_changing_focus() {
    let mut app = project_editor_app("abc", 1);
    app.project_editor.insert_mode = false;

    show_build_for_failed_compilation(&mut app);
    assert_eq!(app.project.pane, ProjectPane::Editor);
    assert!(app.project_build.visible);

    show_preview_after_successful_compilation(&mut app);
    assert_eq!(app.project.pane, ProjectPane::Editor);
    assert!(!app.project_build.visible);

    app.project_build.visible = true;
    show_preview_after_successful_compilation(&mut app);
    assert!(!app.project_build.visible);
}

#[test]
fn project_list_right_opens_and_x_requests_confirmed_deletion() {
    let mut app = project_editor_app("", 0);
    app.project.pane = ProjectPane::ProjectList;
    assert!(app.project.active.is_some());
    let project = app.project.active.clone().unwrap_or(Project {
            name: "missing".into(),
            path: String::new(),
            opened_at: 0,
    });
    app.project.projects = vec![project.clone()];

    let action = handle_key(&mut app, KeyEvent::new(KeyCode::Right, KeyModifiers::none()));
    assert!(matches!(action, Some(UiAction::OpenProject(opened)) if opened == project));

    let action = handle_key(
        &mut app,
        KeyEvent::new(KeyCode::Char('x'), KeyModifiers::none()),
    );
    assert!(
        matches!(action, Some(UiAction::ConfirmDeleteProject(selected)) if selected == project)
    );
}

#[test]
fn project_creation_uses_a_named_modal_with_standard_text_editing() {
    let mut app = App::default();
    app.page = Page::Projects;
    app.content_focused = true;
    app.project.pane = ProjectPane::ProjectList;

    let _ = handle_key(
        &mut app,
        KeyEvent::new(KeyCode::Char('n'), KeyModifiers::none()),
    );
    assert_eq!(app.mode, AppMode::ProjectCreate);
    for character in ['p', 'a', 'p', 'r'] {
        let _ = handle_key(
            &mut app,
            KeyEvent::new(KeyCode::Char(character), KeyModifiers::none()),
        );
    }
    let _ = handle_key(&mut app, KeyEvent::new(KeyCode::Left, KeyModifiers::none()));
    let _ = handle_key(&mut app, KeyEvent::new(KeyCode::Delete, KeyModifiers::none()));
    assert_eq!(app.project.rename_input, "pap");

    let action = handle_key(&mut app, KeyEvent::new(KeyCode::Enter, KeyModifiers::none()));
    assert!(matches!(action, Some(UiAction::CreateProject { name, .. }) if name == "pap"));
    assert_eq!(app.mode, AppMode::Normal);
}

#[test]
fn project_creation_preselects_configured_default_compiler() {
    let mut app = App::default();
    app.page = Page::Projects;
    app.content_focused = true;
    app.project.pane = ProjectPane::ProjectList;
    app.project.default_compiler = "typst".to_string();

    let _ = handle_key(
        &mut app,
        KeyEvent::new(KeyCode::Char('n'), KeyModifiers::none()),
    );
    assert_eq!(app.mode, AppMode::ProjectCreate);
    assert_eq!(app.project.create_compiler, "typst");
}

#[test]
fn file_tree_new_file_modal_uses_standard_text_editing() {
    let mut app = project_editor_app("", 0);
    app.project.pane = ProjectPane::FileTree;

    let _ = handle_key(
        &mut app,
        KeyEvent::new(KeyCode::Char('n'), KeyModifiers::none()),
    );
    assert_eq!(app.mode, AppMode::ProjectFileCreate);
    for character in ['n', 'o', 't', 'e', 's', '.', 'm', 'd'] {
        let _ = handle_key(
            &mut app,
            KeyEvent::new(KeyCode::Char(character), KeyModifiers::none()),
        );
    }
    let _ = handle_key(&mut app, KeyEvent::new(KeyCode::Left, KeyModifiers::none()));
    let _ = handle_key(&mut app, KeyEvent::new(KeyCode::Delete, KeyModifiers::none()));
    assert_eq!(app.project.rename_input, "notes.m");

    let action = handle_key(&mut app, KeyEvent::new(KeyCode::Enter, KeyModifiers::none()));
    assert!(matches!(action, Some(UiAction::CreateProjectFile(name)) if name == "notes.m"));
    assert_eq!(app.mode, AppMode::Normal);
}

#[test]
fn creates_nested_project_files_without_overwriting() {
    let root = "/projects/paper";

    let created = project_file_target(Platform::Other, root, "chapters/introduction.tex").unwrap();
    assert_eq!(created.path, "/projects/paper/chapters/introduction.tex");
    assert!(!created.is_directory);
    assert!(is_project_text_file(Platform::Other, &created.path));
    let folder = project_file_target(Platform::Other, root, "assets/").unwrap();
    assert_eq!(folder.path, "/projects/paper/assets");
    assert!(folder.is_directory);
    let listing: Vec<ProjectEntry> = [("chapters", true), ("figure.webp", false), ("assets", true)]
        .into_iter()
        .map(|(name, is_dir)| ProjectEntry { path: format!("{root}/{name}"), is_dir })
        .collect();
    let shown: Vec<String> = project_tree_entries(Platform::Other, &listing)
        .into_iter()
        .map(|entry| entry.path)
        .collect();
    assert!(shown.contains(&format!("{root}/chapters")));
    assert!(shown.contains(&folder.path));
    assert!(shown.contains(&format!("{root}/figure.webp")));
    assert!(creation_error(false, true, "exists".into()).contains("already exists"));
    assert!(project_file_target(Platform::Other, root, "../outside.tex").is_err());
    assert!(project_file_target(Platform::Other, root, "/tmp/outside.tex").is_err());
}

#[test]
fn file_tree_enters_folders_and_left_returns_to_the_parent() {
    let root = "/tmp/papr-tree";
    let folder = "/tmp/papr-tree/assets";
    let logo = "/tmp/papr-tree/assets/logo.tex";

    let mut app = project_editor_app("", 0);
    app.project.active = Some(Project {
            name: "tree".into(),
            path: root.into(),
            opened_at: 0,
    });
    app.project.pane = ProjectPane::FileTree;
    app.project.tree_dir = Some(root.into());
    app.project.files = project_tree_entries(Platform::Other, &vec![ProjectEntry {
                path: folder.into(),
                is_dir: true,
    }]);

    let action = handle_key(&mut app, KeyEvent::new(KeyCode::Right, KeyModifiers::none()));
    let Some(UiAction::ListProjectFolder { path, previous }) = action else {
        panic!("the folder is not listed");
    };
    assert_eq!(path, folder);
    let inside = vec![ProjectEntry { path: logo.into(), is_dir: false }];
    show_project_folder(&mut app, path, previous, project_tree_entries(Platform::Other, &inside));
    assert_eq!(app.project.tree_dir.as_deref(), Some(folder));
    assert_eq!(app.project.files.len(), 1);
    assert_eq!(app.project.files[0].path, logo);

    let action = handle_key(&mut app, KeyEvent::new(KeyCode::Left, KeyModifiers::none()));
    let Some(UiAction::ListProjectFolder { path, previous }) = action else {
        panic!("the parent is not listed");
    };
    assert_eq!(path, root);
    let above = vec![ProjectEntry { path: folder.into(), is_dir: true }];
    show_project_folder(&mut app, path, previous, project_tree_entries(Platform::Other, &above));
    assert_eq!(app.project.tree_dir.as_deref(), Some(root));
    assert_eq!(app.project.files.len(), 1);
    assert_eq!(app.project.files[0].path, folder);
    assert_eq!(app.project.file_selected, 0);
}

#[test]
fn file_tree_x_requests_confirmation_for_the_selected_entry() {
    let mut app = project_editor_app("", 0);
    let folder = String::from("keyboard-test/assets");
    app.project.pane = ProjectPane::FileTree;
    app.project.files = vec![ProjectEntry { path: folder.clone(), is_dir: true }];

    let action = handle_key(
        &mut app,
        KeyEvent::new(KeyCode::Char('x'), KeyModifiers::none()),
    );

    assert!(
        matches!(action, Some(UiAction::ConfirmDeleteProjectEntry(path)) if path == folder)
    );
}

#[test]
fn file_tree_r_opens_the_entry_rename_prompt() {
    let mut app = project_editor_app("", 0);
    let folder = String::from("keyboard-test/assets");
    app.project.pane = ProjectPane::FileTree;
    app.project.files = vec![ProjectEntry { path: folder.clone(), is_dir: true }];

    let _ = handle_key(
        &mut app,
        KeyEvent::new(KeyCode::Char('R'), KeyModifiers::none()),
    );

    assert_eq!(app.mode, AppMode::ProjectEntryRename);
    assert_eq!(app.project.rename_input, "assets");
    assert_eq!(app.project.entry_rename_path, Some(folder));
}

#[test]
fn project_left_navigation_follows_file_tree_then_project_list_hierarchy() {
    let mut app = project_editor_app("", 0);
    assert!(app.project.active.is_some());
    let active = app.project.active.clone().unwrap_or(Project {
            name: "missing".into(),
            path: String::new(),
            opened_at: 0,
    });
    app.project.projects = vec![
        Project {
            name: "other".into(),
            path: "other".into(),
            opened_at: 0,
        },
        active,
    ];
    app.project.selected = 0;
    app.project.pane = ProjectPane::FileTree;

    let action = handle_key(&mut app, KeyEvent::new(KeyCode::Left, KeyModifiers::none()));
    assert!(app.content_focused);
    assert!(matches!(action, Some(UiAction::CloseProject)));
    assert_eq!(app.project.selected, 1);
    assert!(app.project.active.is_some());
}

#[test]
fn escape_returns_to_file_tree_before_exiting_the_project() {
    let mut app = project_editor_app("abc", 1);
    assert!(app.project.active.is_some());
    let active = app.project.active.clone().unwrap_or(Project {
            name: "missing".into(),
            path: String::new(),
            opened_at: 0,
    });
    app.project.projects = vec![
        Project {
            name: "other".into(),
            path: "other".into(),
            opened_at: 0,
        },
        active,
    ];
    app.project.selected = 0;

    app.project.pane = ProjectPane::Editor;
    app.project_editor.insert_mode = true;
    let _ = handle_key(&mut app, KeyEvent::new(KeyCode::Esc, KeyModifiers::none()));
    assert_eq!(app.project.pane, ProjectPane::Editor);
    assert!(!app.project_editor.insert_mode);
    let _ = handle_key(&mut app, KeyEvent::new(KeyCode::Esc, KeyModifiers::none()));
    assert_eq!(app.project.pane, ProjectPane::FileTree);

    for pane in [ProjectPane::Build, ProjectPane::Preview] {
        app.project.pane = pane;

        let _ = handle_key(&mut app, KeyEvent::new(KeyCode::Esc, KeyModifiers::none()));

        assert_eq!(app.project.pane, ProjectPane::FileTree);
        assert!(app.content_focused);
        assert!(!app.project_editor.insert_mode);
    }

    app.project.pane = ProjectPane::Editor;
    app.project_editor.visual_line_anchor = Some(0);
    let _ = handle_key(&mut app, KeyEvent::new(KeyCode::Esc, KeyModifiers::none()));
    assert_eq!(app.project.pane, ProjectPane::Editor);
    assert!(app.project_editor.visual_line_anchor.is_none());
    let _ = handle_key(&mut app, KeyEvent::new(KeyCode::Esc, KeyModifiers::none()));
    assert_eq!(app.project.pane, ProjectPane::FileTree);

    let action = handle_key(&mut app, KeyEvent::new(KeyCode::Esc, KeyModifiers::none()));
    assert!(matches!(action, Some(UiAction::CloseProject)));
    assert!(app.content_focused);
    assert_eq!(app.project.selected, 1);
}

#[test]
fn editor_escape_cycles_ignore_release_and_leave_no_text() {
    let mut app = project_editor_app("stable", 2);
    for _ in 0..3 {
        app.project.pane = ProjectPane::Editor;
        app.project_editor.insert_mode = true;
        let mut release = KeyEvent::new(KeyCode::Char('x'), KeyModifiers::none());
        release.kind = KeyEventKind::Release;
        let _ = handle_key(&mut app, release);
        let _ = handle_key(&mut app, KeyEvent::new(KeyCode::Esc, KeyModifiers::none()));
        assert_eq!(app.project_editor.text, "stable");
        assert!(!app.project_editor.insert_mode);
        assert_eq!(app.project.pane, ProjectPane::Editor);

        let _ = handle_key(&mut app, KeyEvent::new(KeyCode::Esc, KeyModifiers::none()));
        assert_eq!(app.project.pane, ProjectPane::FileTree);
        assert_eq!(app.project_editor.text, "stable");
    }
}

#[test]
fn file_tree_right_arrow_opens_the_selected_file() {
    let mut app = project_editor_app("", 0);
    let file = String::from("keyboard-test/references.bib");
    app.project.pane = ProjectPane::FileTree;
    app.project.files = vec![ProjectEntry { path: file.clone(), is_dir: false }];

    let action = handle_key(&mut app, KeyEvent::new(KeyCode::Right, KeyModifiers::none()));

    assert!(matches!(action, Some(UiAction::OpenProjectFile(path)) if path == file));
}

#[test]
fn project_build_and_preview_arrows_only_navigate_their_content() {
    let mut app = project_editor_app("abc", 1);
    app.project_editor.insert_mode = false;
    app.project_build.show_raw = true;
    app.project_build.raw_log = (0..8).map(|line| format!("output {line}")).collect();
    app.project_build.viewport_height = 2;
    app.project.pane = ProjectPane::Build;

    let _ = handle_key(&mut app, KeyEvent::new(KeyCode::Down, KeyModifiers::none()));
    assert_eq!(app.project_build.scroll, 1);
    let _ = handle_key(
        &mut app,
        KeyEvent::new(KeyCode::PageDown, KeyModifiers::none()),
    );
    assert_eq!(app.project_build.scroll, 3);
    let _ = handle_key(&mut app, KeyEvent::new(KeyCode::Home, KeyModifiers::none()));
    assert_eq!(app.project_build.scroll, 0);

    app.project.pane = ProjectPane::Preview;
    app.pdf_viewer.total_pages = 5;
    app.pdf_viewer.page = 3;
    let _ = handle_key(&mut app, KeyEvent::new(KeyCode::Up, KeyModifiers::none()));
    assert_eq!(app.pdf_viewer.page, 2);
    let _ = handle_key(&mut app, KeyEvent::new(KeyCode::Down, KeyModifiers::none()));
    assert_eq!(app.pdf_viewer.page, 3);
    let _ = handle_key(
        &mut app,
        KeyEvent::new(KeyCode::PageDown, KeyModifiers::none()),
    );
    assert_eq!(app.pdf_viewer.page, 4);
    let _ = handle_key(&mut app, KeyEvent::new(KeyCode::PageUp, KeyModifiers::none()));
    assert_eq!(app.pdf_viewer.page, 3);
    let _ = handle_key(&mut app, KeyEvent::new(KeyCode::End, KeyModifiers::none()));
    assert_eq!(app.pdf_viewer.page, 5);
    let _ = handle_key(&mut app, KeyEvent::new(KeyCode::Left, KeyModifiers::none()));
    assert_eq!(app.pdf_viewer.page, 5);
}

#[test]
fn parses_pdf_viewer_command_with_arguments() -> Result<(), Box<dyn std::error::Error>> {
    assert_eq!(parse_command("xdg-open")?, vec!["xdg-open"]);
    assert_eq!(
        parse_command("'tdf viewer' --flag {path}")?,
        vec!["tdf viewer", "--flag", "{path}"]
    );
    assert_eq!(
        parse_command(r#""C:\\Program Files\\Viewer.exe" --flag"#)?,
        vec![r"C:\Program Files\Viewer.exe", "--flag"]
    );
    Ok(())
}

#[test]
fn external_pdf_viewers_receive_the_pdf_as_one_native_argument()
-> Result<(), Box<dyn std::error::Error>> {
    let path = "/tmp/Papr Papers/first build.pdf";
    let (program, args) = pdf_viewer_invocation("xdg-open", path, Platform::Other)?;
    assert_eq!(program, "xdg-open");
    assert_eq!(args, vec![path]);

    let (program, args) = pdf_viewer_invocation("viewer --open={path}", path, Platform::Other)?;
    assert_eq!(program, "viewer");
    assert_eq!(args, vec![format!("--open={path}")]);
    Ok(())
}

#[test]
fn generated_pdf_external_launch_is_one_shot_and_skips_embedded_viewers() {
    assert!(should_open_generated_pdf("xdg-open", false));
    assert!(!should_open_generated_pdf("xdg-open", true));
    assert!(!should_open_generated_pdf("internal", false));
}

#[test]
fn control_s_is_consumed_before_editor_text_handling() {
    let mut app = project_editor_app("after", 5);
    app.project_editor.path = Some("/tmp/papr-save-shortcut/main.tex".into());
    for code in [KeyCode::Char('s'), KeyCode::Char('S')] {
        let action = handle_key(&mut app, KeyEvent::new(code, KeyModifiers::control()));
        assert_eq!(app.project_editor.text, "after");
        assert!(matches!(
                action,
                Some(UiAction::SaveProjectEditor(AfterSave::Stay))
        ));
    }
}
