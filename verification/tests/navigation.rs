use papr::actions::UiAction;
use papr::dialogs::handle_paper_detail_key;
use papr::keymap::handle_key;
use papr::keys::{KeyCode, KeyEvent, KeyModifiers};
use papr::state::{App, AppMode, Command, DiscoveryState, LibraryState, Page};

#[test]
fn control_b_opens_browse_papr() {
    let mut app = App::default();
    let _ = handle_key(
        &mut app,
        KeyEvent::new(KeyCode::Char('b'), KeyModifiers::control()),
    );
    assert_eq!(app.mode, AppMode::CommandPalette);
}

#[test]
fn test_startup_page_config_initializes_app_page_and_sidebar_index() {
    let startup_page = "reading_queue";

    let initial_page = Page::from_config_str(startup_page).unwrap_or(Page::Dashboard);
    let initial_sidebar_index = Page::all()
        .iter()
        .position(|&p| p == initial_page)
        .unwrap_or(0);

    let mut app = App::default();
    app.page = initial_page;
    app.sidebar_index = initial_sidebar_index;

    assert_eq!(app.page, Page::ReadingQueue);
    assert_eq!(app.sidebar_index, 3);
}

#[test]
fn palette_navigates_options() {
    let mut app = App::default();
    app.mode = AppMode::CommandPalette;
    let _ = handle_key(&mut app, KeyEvent::new(KeyCode::Down, KeyModifiers::none()));
    let _ = handle_key(&mut app, KeyEvent::new(KeyCode::Down, KeyModifiers::none()));
    assert_eq!(app.palette.selected, 2);
}

#[test]
fn palette_filtering_and_typing() {
    let mut app = App::default();
    app.mode = AppMode::CommandPalette;

    // Type 'l' to filter (should match Library, etc.)
    let _ = handle_key(
        &mut app,
        KeyEvent::new(KeyCode::Char('l'), KeyModifiers::none()),
    );
    assert_eq!(app.palette.query, "l");
    let items = app.filtered_palette_items();
    assert!(items.contains(&Page::Library));

    // Down arrow should move selection
    let _ = handle_key(&mut app, KeyEvent::new(KeyCode::Down, KeyModifiers::none()));
    // Press Enter to activate
    let action = handle_key(&mut app, KeyEvent::new(KeyCode::Enter, KeyModifiers::none()));
    assert!(action.is_none());
    assert_eq!(app.mode, AppMode::Normal);
}

#[test]
fn enter_and_right_open_every_navigation_section() {
    for (index, page) in Page::all().into_iter().enumerate() {
        for key in [KeyCode::Enter, KeyCode::Right] {
            let mut app = App::default();
            app.sidebar_index = index;
            let action = handle_key(&mut app, KeyEvent::new(key, KeyModifiers::none()));
            assert!(action.is_none());
            assert_eq!(app.page, page);
            assert!(app.content_focused);
        }
    }
}

#[test]
fn left_returns_to_navigation_without_changing_selection() {
    for (index, page) in Page::all()
        .into_iter()
        .enumerate()
        .filter(|(_, page)| *page != Page::Projects)
    {
        let mut app = App::default();
        app.page = page;
        app.sidebar_index = index;
        app.content_focused = true;
        let action = handle_key(&mut app, KeyEvent::new(KeyCode::Left, KeyModifiers::none()));
        assert!(action.is_none());
        assert_eq!(app.page, page);
        assert_eq!(app.sidebar_index, index);
        assert!(!app.content_focused);
    }
}

#[test]
fn arrow_and_vim_panel_navigation_preserve_the_same_selection() {
    for (back, open) in [
        (KeyCode::Char('h'), KeyCode::Char('l')),
        (KeyCode::Left, KeyCode::Right),
    ] {
        let mut app = App::default();
        app.page = Page::Library;
        app.sidebar_index = 2;
        app.content_focused = true;
        app.library = LibraryState {
            selected: 7,
            ..LibraryState::default()
        };
        let _ = handle_key(&mut app, KeyEvent::new(back, KeyModifiers::none()));
        assert!(!app.content_focused);
        assert_eq!(app.sidebar_index, 2);
        assert_eq!(app.library.selected, 7);

        let _ = handle_key(&mut app, KeyEvent::new(open, KeyModifiers::none()));
        assert!(app.content_focused);
        assert_eq!(app.page, Page::Library);
        assert_eq!(app.sidebar_index, 2);
        assert_eq!(app.library.selected, 7);
    }
}

#[test]
fn paper_detail_handler_never_routes_help_to_back_navigation() {
    let mut app = App::default();
    app.page = Page::Discover;
    app.content_focused = true;
    app.mode = AppMode::PaperDetail;
    app.paper_detail_scroll = 4;
    app.discovery = DiscoveryState {
        selected: 2,
        ..DiscoveryState::default()
    };

    let action = handle_paper_detail_key(
        &mut app,
        KeyEvent::new(KeyCode::Char('?'), KeyModifiers::shift()),
    );
    assert!(action.is_none());
    assert_eq!(app.mode, AppMode::Help);
    assert_eq!(app.help_return_mode, AppMode::PaperDetail);
    assert_eq!(app.paper_detail_scroll, 4);
    assert_eq!(app.discovery.selected, 2);
}

#[test]
fn credits_workspace_keybinds_and_actions() {
    let mut app = App::default();
    app.page = Page::Credits;
    app.content_focused = true;

    // MoveDown command should navigate down
    app.dispatch(Command::MoveDown);
    assert_eq!(app.credits_selected, 1);

    app.dispatch(Command::MoveUp);
    assert_eq!(app.credits_selected, 0);

    // Enter key should trigger UiAction::OpenBrowser(url)
    let action = handle_key(&mut app, KeyEvent::new(KeyCode::Enter, KeyModifiers::none()));
    assert!(
        matches!(action, Some(UiAction::OpenBrowser(ref url)) if url == "https://github.com/AfrozSaqlain/Papr")
    );
}
