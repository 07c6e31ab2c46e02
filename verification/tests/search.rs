use papr::actions::UiAction;
use papr::keymap::handle_key;
use papr::keys::{KeyCode, KeyEvent, KeyModifiers};
use papr::model::{AuthorSummary, CollectionSummary, PaperTarget, RemotePaper};
use papr::project_editor::paste_text_into_active_input;
use papr::state::{
    App, AppMode, Command, DiscoveryState, DiscoveryStatus, LibraryState, Page, PageSet,
    WorkspaceSearch,
};

/// A paper of the first of January 2026.
fn remote_paper(id: &str, title: &str) -> RemotePaper {
    RemotePaper {
        id: id.into(),
        title: title.into(),
        authors: vec!["Researcher".into()],
        abstract_text: String::new(),
        published: 1_767_225_600,
        updated: 1_767_225_600,
        categories: vec!["cs.DL".into()],
        pdf_url: None,
        doi: None,
        journal_ref: None,
    }
}

#[test]
fn slash_opens_discovery_search() {
    let mut app = App::default();
    let action = handle_key(
        &mut app,
        KeyEvent::new(KeyCode::Char('/'), KeyModifiers::none()),
    );
    assert!(action.is_none());
    assert_eq!(app.mode, AppMode::Search);
    assert_eq!(app.page, Page::Discover);
}

#[test]
fn test_workspace_search_navigation_and_restore() {
    for page in [
        Page::Library,
        Page::Downloads,
        Page::Collections,
        Page::Authors,
        Page::Bookmarks,
        Page::Notes,
        Page::ReadingQueue,
    ] {
        let mut app = App::default();
        app.page = page;
        app.content_focused = true;
        app.mode = AppMode::WorkspaceSearch;
        app.workspace_search.query = "test query".to_string();
        app.workspace_search.cursor = 10;
        app.workspace_search.active = {
            let mut active = PageSet::new();
            active.insert(page);
            active
        };

        // Pressing Left Arrow in WorkspaceSearch mode when cursor > 0 should move cursor left
        let action = handle_key(&mut app, KeyEvent::new(KeyCode::Left, KeyModifiers::none()));
        assert!(action.is_none());
        assert!(app.content_focused);
        assert_eq!(app.mode, AppMode::WorkspaceSearch);
        assert_eq!(app.workspace_search.cursor, 9);

        // Pressing Left Arrow when cursor == 0 should transfer focus to navigation pane
        app.workspace_search.cursor = 0;
        let action = handle_key(&mut app, KeyEvent::new(KeyCode::Left, KeyModifiers::none()));
        assert!(action.is_none());
        assert!(!app.content_focused);
        assert_eq!(app.mode, AppMode::Normal);
        assert_eq!(app.workspace_search.query, "test query");
        assert!(app.workspace_search.active.contains(&page));

        // Move to another page
        app.sidebar_index = 0; // Dashboard
        app.page = Page::Dashboard;

        // Enter Dashboard - should not restore search mode since it's not active
        app.dispatch(Command::Open);
        assert!(app.content_focused);
        assert_eq!(app.mode, AppMode::Normal);

        // Go back to sidebar, select original page, and enter it
        app.content_focused = false;
        if let Some(index) = Page::all().iter().position(|&p| p == page) {
            app.sidebar_index = index;
        }
        app.dispatch(Command::Open);

        // It should enter the workspace and restore search mode and its state!
        assert!(app.content_focused);
        assert_eq!(app.mode, AppMode::WorkspaceSearch);
        assert_eq!(app.workspace_search.query, "test query");
        assert_eq!(app.workspace_search.cursor, 0);
    }
}

#[test]
fn test_discover_search_navigation() {
    let mut app = App::default();
    app.page = Page::Discover;
    app.content_focused = true;
    app.mode = AppMode::Search;
    app.discovery = DiscoveryState {
        query: "test query".to_string(),
        query_cursor: 10,
        ..DiscoveryState::default()
    };

    // Pressing Left Arrow when cursor > 0 should move cursor left
    let action = handle_key(&mut app, KeyEvent::new(KeyCode::Left, KeyModifiers::none()));
    assert!(action.is_none());
    assert!(app.content_focused);
    assert_eq!(app.mode, AppMode::Search);
    assert_eq!(app.discovery.query_cursor, 9);

    // Pressing Left Arrow when cursor == 0 should transfer focus to navigation pane
    app.discovery.query_cursor = 0;
    let action = handle_key(&mut app, KeyEvent::new(KeyCode::Left, KeyModifiers::none()));
    assert!(action.is_none());
    assert!(!app.content_focused);
    assert_eq!(app.mode, AppMode::Normal);
}

#[test]
fn discover_results_left_returns_to_navigation_and_preserves_state() {
    for from_filter in [false, true] {
        let mut app = App::default();
        app.page = Page::Discover;
        app.sidebar_index = Page::all()
            .iter()
            .position(|&page| page == Page::Discover)
            .unwrap_or_default();
        app.content_focused = true;
        app.mode = if from_filter {
            AppMode::DiscoverFilter
        } else {
            AppMode::Search
        };
        app.discovery = DiscoveryState {
            query: "quantum search".into(),
            query_cursor: 14,
            filter: "paper".into(),
            filter_cursor: 5,
            ..DiscoveryState::default()
        };
        app.discovery.set_results(vec![
                remote_paper("first", "First paper"),
                remote_paper("second", "Second paper"),
        ]);
        app.discovery.filter = "paper".into();
        app.discovery.filter_cursor = app.discovery.filter.len();
        app.discovery.rebuild_filter();

        // Both inputs move into the same results pane.
        assert!(
            handle_key(&mut app, KeyEvent::new(KeyCode::Down, KeyModifiers::none())).is_none()
        );
        assert_eq!(app.mode, AppMode::Normal);
        assert_eq!(app.discovery.selected, 0);
        app.discovery.scroll = 1;

        // Left leaves the results pane for navigation without entering either input.
        assert!(
            handle_key(&mut app, KeyEvent::new(KeyCode::Left, KeyModifiers::none())).is_none()
        );
        assert!(!app.content_focused);
        assert_eq!(app.mode, AppMode::Normal);
        assert_eq!(app.discovery.query, "quantum search");
        assert_eq!(app.discovery.filter, "paper");
        assert_eq!(app.discovery.selected, 0);
        assert_eq!(app.discovery.scroll, 1);

        // Leaving Discover and returning restores the existing results-pane state.
        app.dispatch(Command::MoveDown);
        app.dispatch(Command::MoveUp);
        app.dispatch(Command::Open);
        assert!(app.content_focused);
        assert_eq!(app.page, Page::Discover);
        assert_eq!(app.mode, AppMode::Normal);
        assert_eq!(app.discovery.query, "quantum search");
        assert_eq!(app.discovery.filter, "paper");
        assert_eq!(app.discovery.selected, 0);
        assert_eq!(app.discovery.scroll, 1);
    }
}

#[test]
fn discover_control_arrows_switch_cached_result_pages() {
    let mut app = App::default();
    app.page = Page::Discover;
    app.content_focused = true;
    app.discovery.set_results(
        (0..51)
            .map(|index| {
                remote_paper(
                    &format!("https://arxiv.org/abs/{index}"),
                    &format!("Paper {index}"),
                )
        })
            .collect(),
    );

    assert!(
        handle_key(
            &mut app,
            KeyEvent::new(KeyCode::Right, KeyModifiers::control())
        )
            .is_none()
    );
    assert_eq!(app.discovery.page, 1);
    assert_eq!(app.discovery.results[app.discovery.current_page_results()[0]].title, "Paper 50");
    assert!(
        handle_key(
            &mut app,
            KeyEvent::new(KeyCode::Left, KeyModifiers::control())
        )
            .is_none()
    );
    assert_eq!(app.discovery.page, 0);
    assert_eq!(app.discovery.results[app.discovery.current_page_results()[0]].title, "Paper 0");
}

#[test]
fn test_workspace_search_greater_than_and_arrow_keys() {
    for page in [
        Page::Library,
        Page::Downloads,
        Page::Collections,
        Page::Authors,
        Page::Bookmarks,
        Page::Notes,
        Page::ReadingQueue,
    ] {
        let mut app = App::default();
        app.page = page;
        app.content_focused = true;
        app.mode = AppMode::Normal;
        app.workspace_search.query = "some query".to_string();
        app.workspace_search.cursor = 10;
        app.library = LibraryState {
            selected: 5,
            ..LibraryState::default()
        };
        app.downloads.selected = 5;
        app.collections.selected = 5;
        app.collections.paper_selected = 5;
        app.authors.selected = 5;
        app.authors.paper_selected = 5;
        app.bookmarks.selected = 5;
        app.notes.selected = 5;
        app.reading_queue.selected = 5;
        app.collections.active = Some(CollectionSummary {
                id: 1,
                name: "Collection".into(),
                paper_count: 5,
                folder_path: None,
        });
        app.authors.active = Some(AuthorSummary {
                id: 2,
                name: "Author".into(),
                paper_count: 5,
        });

        // 1. When workspace has focus, pressing '>' should return focus to search bar
        let action = handle_key(
            &mut app,
            KeyEvent::new(KeyCode::Char('>'), KeyModifiers::none()),
        );
        assert!(action.is_none());
        assert!(app.content_focused);
        assert_eq!(app.mode, AppMode::WorkspaceSearch);
        assert!(app.workspace_search.active.contains(&page));

        // 2. Pressing '>' again in search mode should return focus to workspace
        let action = handle_key(
            &mut app,
            KeyEvent::new(KeyCode::Char('>'), KeyModifiers::none()),
        );
        assert!(action.is_none());
        assert!(app.content_focused);
        assert_eq!(app.mode, AppMode::Normal);
        assert_eq!(app.workspace_search.query, "some query");
        assert!(!app.workspace_search.active.contains(&page));

        // 3. Enter search mode again and test Down Arrow
        handle_key(
            &mut app,
            KeyEvent::new(KeyCode::Char('>'), KeyModifiers::none()),
        );
        assert_eq!(app.mode, AppMode::WorkspaceSearch);

        // Pressing Down Arrow should move focus to first visible paper in filtered list (index 0)
        let action = handle_key(&mut app, KeyEvent::new(KeyCode::Down, KeyModifiers::none()));
        assert!(action.is_none());
        assert!(app.content_focused);
        assert_eq!(app.mode, AppMode::Normal);
        assert!(!app.workspace_search.active.contains(&page));

        match page {
            Page::Library => assert_eq!(app.library.selected, 0),
            Page::Downloads => assert_eq!(app.downloads.selected, 0),
            Page::Collections => assert_eq!(app.collections.paper_selected, 0),
            Page::Authors => assert_eq!(app.authors.paper_selected, 0),
            Page::Bookmarks => assert_eq!(app.bookmarks.selected, 0),
            Page::Notes => assert_eq!(app.notes.selected, 0),
            Page::ReadingQueue => assert_eq!(app.reading_queue.selected, 0),
            _ => {}
        }

        // 4. Enter search mode and test Esc
        handle_key(
            &mut app,
            KeyEvent::new(KeyCode::Char('>'), KeyModifiers::none()),
        );
        assert_eq!(app.mode, AppMode::WorkspaceSearch);

        let action = handle_key(&mut app, KeyEvent::new(KeyCode::Esc, KeyModifiers::none()));
        assert!(action.is_none());
        assert!(app.content_focused);
        assert_eq!(app.mode, AppMode::Normal);
        assert_eq!(app.workspace_search.query, "some query");
        assert!(!app.workspace_search.active.contains(&page));
    }
}

#[test]
fn workspace_search_accepts_printable_shift_period_key_events() {
    let mut app = App::default();
    app.page = Page::Library;
    app.content_focused = true;
    let key = KeyEvent::new(KeyCode::Char('>'), KeyModifiers::shift());

    let _ = handle_key(&mut app, key);
    assert_eq!(app.mode, AppMode::WorkspaceSearch);

    let _ = handle_key(&mut app, key);
    assert_eq!(app.mode, AppMode::Normal);
}

#[test]
fn paste_text_reaches_discovery_and_workspace_search_fields() {
    let mut discovery = App::default();
    discovery.page = Page::Discover;
    discovery.content_focused = true;
    discovery.mode = AppMode::Search;
    discovery.discovery = DiscoveryState {
        query: "ac".into(),
        query_cursor: 1,
        ..DiscoveryState::default()
    };
    assert!(paste_text_into_active_input(&mut discovery, "β").0);
    assert_eq!(discovery.discovery.query, "aβc");
    assert_eq!(discovery.discovery.query_cursor, "aβ".len());

    let mut library = App::default();
    library.page = Page::Library;
    library.content_focused = true;
    library.mode = AppMode::WorkspaceSearch;
    library.workspace_search.query = "paper".into();
    library.workspace_search.cursor = 2;
    assert!(paste_text_into_active_input(&mut library, " new").0);
    assert_eq!(library.workspace_search.query, "pa newper");
    assert_eq!(library.workspace_search.cursor, 6);
}

#[test]
fn help_opens_without_navigating_from_dashboard_or_discover() {
    let mut dashboard = App::default();
    dashboard.page = Page::Dashboard;
    dashboard.content_focused = false;
    dashboard.sidebar_index = 0;
    let _ = handle_key(
        &mut dashboard,
        KeyEvent::new(KeyCode::Char('?'), KeyModifiers::none()),
    );
    assert_eq!(dashboard.mode, AppMode::Help);
    assert_eq!(dashboard.page, Page::Dashboard);
    assert!(!dashboard.content_focused);
    assert_eq!(dashboard.sidebar_index, 0);

    let mut discover = App::default();
    discover.page = Page::Discover;
    discover.content_focused = true;
    discover.sidebar_index = 1;
    discover.discovery.selected = 3;
    let _ = handle_key(
        &mut discover,
        KeyEvent::new(KeyCode::Char('?'), KeyModifiers::none()),
    );
    assert_eq!(discover.mode, AppMode::Help);
    assert_eq!(discover.page, Page::Discover);
    assert_eq!(discover.discovery.selected, 3);
    assert_eq!(discover.sidebar_index, 1);
}

#[test]
fn help_preserves_dashboard_and_discover_paper_detail_views() {
    for page in [Page::Dashboard, Page::Discover] {
        let mut app = App::default();
        app.page = page;
        app.content_focused = true;
        app.mode = AppMode::PaperDetail;
        app.paper_detail_scroll = 9;

        let _ = handle_key(
            &mut app,
            KeyEvent::new(KeyCode::Char('?'), KeyModifiers::none()),
        );
        assert_eq!(app.mode, AppMode::Help);
        assert_eq!(app.page, page);
        assert_eq!(app.paper_detail_scroll, 9);

        let _ = handle_key(&mut app, KeyEvent::new(KeyCode::Esc, KeyModifiers::none()));
        assert_eq!(app.mode, AppMode::PaperDetail);
        assert_eq!(app.page, page);
        assert_eq!(app.paper_detail_scroll, 9);
    }
}

#[test]
fn discover_filter_refines_results_without_starting_a_search() {
    let mut title_match = remote_paper("title", "Genome assembly");
    title_match.authors = vec!["Ada Author".into()];
    let mut author_match = remote_paper("author", "Other paper");
    author_match.authors = vec!["Genome Researcher".into()];
    let mut abstract_match = remote_paper("abstract", "Third genome paper");
    abstract_match.abstract_text = "A genome-scale analysis.".into();
    let mut app = App::default();
    app.page = Page::Discover;
    app.content_focused = true;
    app.discovery
        .set_results(vec![author_match, abstract_match, title_match]);

    let action = handle_key(
        &mut app,
        KeyEvent::new(KeyCode::Char('>'), KeyModifiers::none()),
    );
    assert!(action.is_none());
    assert_eq!(app.mode, AppMode::DiscoverFilter);
    for character in "genome".chars() {
        assert!(
            handle_key(
                &mut app,
                KeyEvent::new(KeyCode::Char(character), KeyModifiers::none())
            )
                .is_none()
        );
    }
    assert_eq!(app.discovery.filtered_result_count(), 3);
    assert_eq!(
        app.discovery
            .selected_paper()
            .map(|paper| paper.id.as_str()),
        Some("author")
    );

    let _ = handle_key(&mut app, KeyEvent::new(KeyCode::Esc, KeyModifiers::none()));
    assert_eq!(app.mode, AppMode::Normal);
    assert_eq!(app.discovery.filter, "genome");
    let _ = handle_key(
        &mut app,
        KeyEvent::new(KeyCode::Char('>'), KeyModifiers::none()),
    );
    assert_eq!(app.mode, AppMode::DiscoverFilter);
    for _ in 0.."genome".len() {
        let _ = handle_key(
            &mut app,
            KeyEvent::new(KeyCode::Backspace, KeyModifiers::none()),
        );
    }
    assert!(app.discovery.filter.is_empty());
    assert_eq!(app.discovery.filtered_result_count(), 3);
}

#[test]
fn browser_shortcut_uses_selected_dashboard_and_search_urls() {
    let dashboard_paper = remote_paper("https://arxiv.org/abs/dashboard", "Dashboard");
    let search_paper = remote_paper("https://arxiv.org/abs/search", "Search");
    let mut app = App::default();
    app.page = Page::Dashboard;
    app.content_focused = true;
    app.today.papers = vec![dashboard_paper];
    let dashboard = handle_key(
        &mut app,
        KeyEvent::new(KeyCode::Char('o'), KeyModifiers::none()),
    );
    assert!(matches!(
            dashboard,
            Some(UiAction::OpenBrowser(url)) if url.ends_with("/dashboard")
    ));

    app.page = Page::Discover;
    app.discovery.results = vec![search_paper];
    let search = handle_key(
        &mut app,
        KeyEvent::new(KeyCode::Char('o'), KeyModifiers::none()),
    );
    assert!(matches!(
            search,
            Some(UiAction::OpenBrowser(url)) if url.ends_with("/search")
    ));
}

#[test]
fn dashboard_and_discover_paper_rows_support_citation_and_download_shortcuts() {
    for page in [Page::Dashboard, Page::Discover] {
        let paper = remote_paper("https://arxiv.org/abs/2607.12345", "Paper");
        let mut app = App::default();
        app.page = page;
        app.content_focused = true;
        app.today.papers = (page == Page::Dashboard)
            .then_some(paper.clone())
            .into_iter()
            .collect();
        app.discovery = DiscoveryState {
            results: (page == Page::Discover)
                .then_some(paper)
                .into_iter()
                .collect(),
            ..DiscoveryState::default()
        };
        assert!(matches!(
                handle_key(
                    &mut app,
                    KeyEvent::new(KeyCode::Char('c'), KeyModifiers::none())
                ),
                Some(UiAction::CopyCitation(PaperTarget::Remote(_)))
        ));
        assert!(matches!(
                handle_key(
                    &mut app,
                    KeyEvent::new(KeyCode::Char('d'), KeyModifiers::none())
                ),
                Some(UiAction::Download(_))
        ));
    }
}

#[test]
fn dashboard_open_keeps_discover_results_independent() {
    let dashboard_paper = remote_paper("https://arxiv.org/abs/dashboard", "Dashboard Paper");
    let discover_paper = remote_paper("https://arxiv.org/abs/discover", "Discover Paper");
    let mut app = App::default();
    app.page = Page::Dashboard;
    app.content_focused = true;
    app.today.papers = vec![dashboard_paper];
    app.discovery = DiscoveryState {
        query: "search".into(),
        query_cursor: 6,
        results: vec![discover_paper],
        selected: 0,
        scroll: 3,
        status: DiscoveryStatus::Ready,
        detail_scroll: 11,
        ..DiscoveryState::default()
    };

    app.dispatch(Command::Open);

    assert_eq!(app.mode, AppMode::PaperDetail);
    assert_eq!(app.paper_detail_scroll, 0);
    assert_eq!(app.discovery.query, "search");
    assert_eq!(app.discovery.query_cursor, 6);
    assert_eq!(app.discovery.scroll, 3);
    assert_eq!(app.discovery.selected, 0);
    assert_eq!(app.discovery.detail_scroll, 11);
    assert_eq!(app.discovery.results.len(), 1);
    assert_eq!(app.discovery.results[0].title, "Discover Paper");
}
