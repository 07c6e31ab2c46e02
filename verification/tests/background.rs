use papr::background::{
    command_cursor_active, is_slow_draw, preview_active, process_page_change,
    process_terminal_event, project_files_changed, settings_follow_config, terminal_poll_timeout,
    theme_to_restore, update_toast_and_download_cleanup, ConfigReload, ConfigReloadOutcome,
    EventOutcome, Interval, Redraw, TerminalEvent,
};
use papr::config::{
    apply_compiler_change, apply_config_update, apply_viewer_change, config_changes,
    configured_folder, initial_app, show_projects, Config, LibraryLocations,
};
use papr::feed::prepare_dashboard_feed;
use papr::keys::{KeyCode, KeyEvent, KeyEventKind, KeyModifiers, MouseEventKind};
use papr::model::Project;
use papr::state::{App, AppMode, Page, ProjectPane};
use papr::viewer::Platform;

fn config() -> Config {
    Config {
        theme: "nord".into(),
        startup_page: "library".into(),
        pdf_viewer: None,
        projects_directory: None,
        download_path: None,
        library_folders: vec!["/papers".into()],
        dashboard_keywords: Vec::new(),
        enabled_plugins: Vec::new(),
        default_project_compiler: "typst".into(),
    }
}

#[test]
fn a_toast_is_shown_for_seven_seconds() {
    let mut app = App::default();
    let mut last = None;
    app.clock_ms = 1_000;
    app.toast = Some("hello".into());
    assert!(update_toast_and_download_cleanup(&mut app, &mut last));
    assert_eq!(app.toast_timestamp, Some(1_000));
    app.clock_ms = 7_999;
    assert!(!update_toast_and_download_cleanup(&mut app, &mut last));
    assert_eq!(app.toast.as_deref(), Some("hello"));
    app.clock_ms = 8_000;
    assert!(update_toast_and_download_cleanup(&mut app, &mut last));
    assert!(app.toast.is_none() && app.toast_timestamp.is_none() && last.is_none());
    assert!(!update_toast_and_download_cleanup(&mut app, &mut last));
}

#[test]
fn a_new_toast_starts_its_own_time() {
    let mut app = App::default();
    let mut last = None;
    app.toast = Some("first".into());
    let _ = update_toast_and_download_cleanup(&mut app, &mut last);
    app.clock_ms = 6_999;
    app.toast = Some("second".into());
    assert!(update_toast_and_download_cleanup(&mut app, &mut last));
    app.clock_ms = 13_000;
    assert!(!update_toast_and_download_cleanup(&mut app, &mut last));
    assert_eq!(app.toast.as_deref(), Some("second"));
    app.toast = None;
    assert!(update_toast_and_download_cleanup(&mut app, &mut last));
}

#[test]
fn keys_are_awaited_as_long_as_the_view_allows() {
    assert_eq!(terminal_poll_timeout(false, true, true), 100);
    assert_eq!(terminal_poll_timeout(true, true, true), 8);
    assert_eq!(terminal_poll_timeout(true, false, true), 250);
    assert_eq!(terminal_poll_timeout(true, false, false), 50);
    assert!(!is_slow_draw(16_000_000));
    assert!(is_slow_draw(16_000_001));
    let mut app = App::default();
    assert!(!preview_active(&app));
    app.mode = AppMode::PdfView;
    assert!(preview_active(&app));
    app.mode = AppMode::TerminalCommand;
    assert!(command_cursor_active(&app));
}

#[test]
fn the_configuration_is_read_once_it_settled() {
    let mut reload = ConfigReload::new();
    assert!(!reload.poll(0, false));
    assert!(!reload.poll(1_000, true));
    assert!(!reload.poll(1_100, true));
    assert!(!reload.poll(1_249, false));
    assert!(reload.poll(1_250, false));
    assert_eq!(reload.loaded(true), ConfigReloadOutcome::SkipIteration);
    assert!(!reload.poll(2_000, false));
    assert_eq!(reload.loaded(false), ConfigReloadOutcome::Changed);
}

#[test]
fn an_unreadable_configuration_is_tried_ten_times() {
    let mut app = App::default();
    let mut reload = ConfigReload::new();
    app.clock_ms = 500;
    for attempt in 1..=10 {
        assert_eq!(reload.failed(&mut app, "bad"), ConfigReloadOutcome::Unchanged);
        assert_eq!(reload.attempts, attempt);
        assert_eq!(reload.deadline, Some(600));
    }
    assert_eq!(reload.failed(&mut app, "bad"), ConfigReloadOutcome::Changed);
    assert!(reload.deadline.is_none());
    assert_eq!(app.toast.as_deref(), Some("Configuration reload failed: bad"));
}

#[test]
fn another_page_has_an_empty_search() {
    let mut app = App::default();
    let mut last = Some(Page::Settings);
    app.page = Page::History;
    app.workspace_search.query = "x".into();
    app.workspace_search.cursor = 1;
    let change = process_page_change(&mut app, &mut last);
    assert!(change.changed && change.left_settings && change.refresh_dashboard);
    assert!(!change.entered_settings);
    assert!(app.workspace_search.query.is_empty());
    assert_eq!(app.workspace_search.cursor, 0);
    assert!(!process_page_change(&mut app, &mut last).changed);
    app.page = Page::Settings;
    assert!(process_page_change(&mut app, &mut last).entered_settings);
    assert!(settings_follow_config(&app, false));
    assert!(!settings_follow_config(&app, true));
    assert!(theme_to_restore("nord", "light"));
    assert!(!theme_to_restore("nord", "nord"));
    assert!(!theme_to_restore("", "light"));
}

#[test]
fn the_registry_of_projects_is_no_change() {
    assert!(!project_files_changed(Platform::Other, &vec!["/p/.papr-projects.toml".into()]));
    assert!(project_files_changed(
        Platform::Other,
        &vec!["/p/.papr-projects.toml".into(), "/p/a".into()],
    ));
    assert!(!project_files_changed(Platform::Other, &Vec::new()));
}

#[test]
fn settings_take_their_keys() {
    let mut app = App::default();
    app.page = Page::Settings;
    app.content_focused = true;
    let key = KeyEvent::new(KeyCode::Char('x'), KeyModifiers::none());
    assert!(matches!(
        process_terminal_event(&mut app, TerminalEvent::Key(key)),
        EventOutcome::Settings(taken) if taken == key
    ));
    let release =
        KeyEvent::with_kind(KeyCode::Char('q'), KeyModifiers::none(), KeyEventKind::Release);
    assert!(matches!(
        process_terminal_event(&mut app, TerminalEvent::Key(release)),
        EventOutcome::Action(None)
    ));
    app.page = Page::Library;
    app.mode = AppMode::WorkspaceSearch;
    let _ = process_terminal_event(&mut app, TerminalEvent::Paste("abc".into()));
    assert_eq!(app.workspace_search.query, "abc");
    let _ = process_terminal_event(&mut app, TerminalEvent::Mouse(MouseEventKind::Other));
    let _ = process_terminal_event(&mut app, TerminalEvent::Other);
    assert_eq!(app.workspace_search.query, "abc");
}

#[test]
fn intervals_and_drawings() {
    let mut interval = Interval { last: 0, period: 1_000 };
    assert!(!interval.due(999));
    assert!(interval.due(1_000));
    assert!(!interval.due(1_999));
    let mut redraw = Redraw::new();
    redraw.begin();
    assert!(redraw.take());
    redraw.begin();
    assert!(!redraw.take());
    redraw.note(true);
    assert!(redraw.take());
    redraw.begin();
    redraw.force(true);
    assert!(redraw.take());
    redraw.begin();
    assert!(!redraw.take());
}

#[test]
fn the_configuration_shapes_the_start() {
    let app = initial_app(&config(), Platform::Other);
    assert_eq!(app.page, Page::Library);
    assert_eq!(app.sidebar_index, 2);
    assert_eq!(app.project.create_compiler, "typst");
    assert_eq!(app.pdf_viewer.program, "xdg-open");
    assert_eq!(app.mode, AppMode::Normal);
    assert_eq!(app.help_return_mode, AppMode::Normal);
    assert!(app.project.active.is_none());
    assert!(app.project_editor.path.is_none());
    assert!(app.discovery.query.is_empty());
    assert_eq!(app.pdf_viewer.page, 1);
    assert!(!app.content_focused && !app.should_quit);
    let mut other = config();
    other.startup_page = "nowhere".into();
    other.pdf_viewer = Some("internal".into());
    let app = initial_app(&other, Platform::MacOs);
    assert_eq!(app.page, Page::Dashboard);
    assert_eq!(app.pdf_viewer.program, "internal");
}

#[test]
fn configurations_are_compared_part_by_part() {
    let mut other = config();
    other.download_path = Some("/d".into());
    other.enabled_plugins = vec!["tagger".into()];
    let changes = config_changes(Platform::Other, &config(), &other);
    assert!(changes.paths && changes.plugins);
    assert!(!changes.theme && !changes.viewer && !changes.projects_directory);
    let mut same = config();
    same.library_folders = vec!["/papers/".into()];
    assert!(!config_changes(Platform::Other, &config(), &same).paths);
    same.library_folders.push("/more".into());
    assert!(config_changes(Platform::Other, &config(), &same).paths);
}

#[test]
fn an_external_viewer_takes_the_focus_off_the_preview() {
    let mut app = App::default();
    app.project.pane = ProjectPane::Preview;
    let mut chosen = config();
    chosen.pdf_viewer = Some("internal".into());
    apply_viewer_change(&mut app, &chosen);
    assert_eq!(app.project.pane, ProjectPane::Preview);
    apply_viewer_change(&mut app, &config());
    assert_eq!(app.project.pane, ProjectPane::FileTree);
    assert_eq!(app.pdf_viewer.program, "xdg-open");
    apply_compiler_change(&mut app, &config());
    assert_eq!(app.project.default_compiler, "typst");
    app.project.selected = 3;
    let project = Project { name: "a".into(), path: "/a".into(), opened_at: 0 };
    show_projects(&mut app.project, vec![project]);
    assert_eq!(app.project.selected, 0);
}

#[test]
fn downloads_belong_to_the_library() {
    let inside = LibraryLocations::resolve(
        Platform::Other,
        "/papers/new".into(),
        vec!["/papers".into()],
    );
    assert_eq!(inside.library_roots, vec!["/papers"]);
    let outside = LibraryLocations::resolve(
        Platform::Other,
        "/downloads".into(),
        vec!["/papers".into()],
    );
    assert_eq!(outside.library_roots, vec!["/papers", "/downloads"]);
    assert_eq!(outside.primary_root(), "/papers");
    let alone = LibraryLocations::resolve(Platform::Other, "/downloads".into(), Vec::new());
    assert_eq!(alone.primary_root(), "/downloads");
    assert_eq!(configured_folder(&None, &"/usual".to_owned()), "/usual");
    assert_eq!(configured_folder(&Some("/own".into()), &"/usual".to_owned()), "/own");
}

#[test]
fn another_configuration_is_followed() {
    let mut app = initial_app(&config(), Platform::Other);
    let mut feed = prepare_dashboard_feed(Vec::new(), "2026-01-01".into(), true);
    let same = apply_config_update(&mut app, &mut feed, &config(), &config());
    assert!(!same.feed && !same.changes.viewer && !same.changes.paths);
    app.project.pane = ProjectPane::Preview;
    let mut other = config();
    other.pdf_viewer = Some("evince".into());
    other.dashboard_keywords = vec!["proofs".into()];
    other.default_project_compiler = "latex".into();
    let update = apply_config_update(&mut app, &mut feed, &config(), &other);
    assert!(update.feed && update.changes.viewer);
    assert_eq!(app.pdf_viewer.program, "evince");
    assert_eq!(app.project.pane, ProjectPane::FileTree);
    assert_eq!(app.project.create_compiler, "latex");
    assert_eq!(feed.keyword_signature, "balanced-v3:proofs");
}
