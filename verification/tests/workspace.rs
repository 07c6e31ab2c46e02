use papr::model::{Project, ProjectEntry};
use papr::state::{App, ProjectPane, ProjectState};
use papr::viewer::{PdfFile, Platform};
use papr::workspace::{
    close_project_workspace, line_offset, open_project_file, open_project_workspace,
    refresh_preview, refresh_project_editor, refresh_project_list, refresh_project_tree,
    refresh_projects, refreshed_folder, show_diagnostic_source, show_main_source, FileOnDisk,
    ProjectOnDisk,
};

fn project(name: &str) -> Project {
    Project { name: name.into(), path: format!("/projects/{name}"), opened_at: 0 }
}

fn file(path: &str) -> ProjectEntry {
    ProjectEntry { path: path.into(), is_dir: false }
}

fn opened() -> App {
    let mut app = App::default();
    let entries = vec![file("/projects/a/intro.tex"), file("/projects/a/main.tex")];
    let r = open_project_workspace(&mut app, project("a"), entries, false, None);
    assert_eq!(r.main_source.as_deref(), Some("/projects/a/main.tex"));
    assert!(r.run.is_none());
    show_main_source(&mut app, "/projects/a/main.tex".into(), Some("\\begin".into()));
    app
}

#[test]
fn opening_a_project_selects_its_main_source() {
    let app = opened();
    assert_eq!(app.project.file_selected, 1);
    assert_eq!(app.project.pane, ProjectPane::FileTree);
    assert_eq!(app.project.tree_dir.as_deref(), Some("/projects/a"));
    assert_eq!(app.project_build.status, "Starting latexmk…");
    assert_eq!(app.project_editor.text, "\\begin");
    assert_eq!(app.project_editor.path.as_deref(), Some("/projects/a/main.tex"));
}

#[test]
fn opening_a_project_shows_its_document() {
    let mut app = App::default();
    app.pdf_viewer.program = "viewer --page 1".into();
    let pdf = Some(PdfFile { path: "/real/main.pdf".into(), pages: Some(3) });
    let r = open_project_workspace(&mut app, project("a"), Vec::new(), true, pdf);
    assert!(r.main_source.is_none());
    assert_eq!(
        r.run,
        Some((
            "viewer".to_owned(),
            vec!["--page".to_owned(), "1".to_owned(), "/real/main.pdf".to_owned()]
        ))
    );
    assert_eq!(app.pdf_viewer.path.as_deref(), Some("/projects/a/main.pdf"));
    assert_eq!(app.pdf_viewer.total_pages, 3);
    assert_eq!(app.project_build.status, "Starting embedded Typst…");
}

#[test]
fn closing_a_project_leaves_nothing_behind() {
    let mut app = opened();
    app.pdf_viewer.path = Some("/projects/a/main.pdf".into());
    app.pdf_viewer.page = 7;
    app.project_editor.completion_selected = 2;
    app.citation_search.query = "graph".into();
    let released = close_project_workspace(&mut app);
    assert_eq!(released.as_deref(), Some("/projects/a/main.pdf"));
    assert!(app.project.active.is_none());
    assert!(app.project.files.is_empty());
    assert_eq!(app.project.pane, ProjectPane::ProjectList);
    assert!(app.project_editor.text.is_empty());
    assert!(app.project_editor.path.is_none());
    assert_eq!(app.project_editor.completion_selected, 0);
    assert!(app.citation_search.query.is_empty());
    assert_eq!(app.project_build.status, "Idle");
    assert!(app.pdf_viewer.path.is_none());
    assert_eq!(app.pdf_viewer.page, 1);
}

#[test]
fn closing_a_project_keeps_another_document() {
    let mut app = opened();
    app.pdf_viewer.path = Some("/library/paper.pdf".into());
    app.pdf_viewer.page = 7;
    let _ = close_project_workspace(&mut app);
    assert_eq!(app.pdf_viewer.path.as_deref(), Some("/library/paper.pdf"));
    assert_eq!(app.pdf_viewer.page, 7);
}

#[test]
fn opening_a_file_forgets_the_history() {
    let mut app = opened();
    app.project_editor.undo = vec![("x".into(), 0)];
    app.project_editor.dirty = true;
    open_project_file(&mut app, "/projects/a/b.tex".into(), Ok("text".into()));
    assert_eq!(app.project.pane, ProjectPane::Editor);
    assert_eq!(app.project_editor.text, "text");
    assert!(app.project_editor.undo.is_empty());
    assert!(!app.project_editor.dirty);

    open_project_file(&mut app, "/projects/a/c.tex".into(), Err("denied".into()));
    assert_eq!(app.toast.as_deref(), Some("Could not open file: denied"));
    assert_eq!(app.project_editor.text, "text");
}

#[test]
fn lines_are_found_by_number() {
    let text = "né\nzwei\n\ndrei";
    assert_eq!(line_offset(text, 0), 0);
    assert_eq!(line_offset(text, 1), 0);
    assert_eq!(line_offset(text, 2), 4);
    assert_eq!(line_offset(text, 3), 9);
    assert_eq!(line_offset(text, 4), 10);
    assert_eq!(line_offset(text, 5), text.len());
    assert_eq!(line_offset(text, 99), text.len());
    assert_eq!(line_offset("", 3), 0);
    // The carriage return before a line feed does not count.
    assert_eq!(line_offset("ab\r\ncd", 2), 3);
    assert_eq!(line_offset("ab\rcd", 2), 5);
}

#[test]
fn a_diagnostic_opens_its_source() {
    let mut app = opened();
    app.project.pane = ProjectPane::Build;
    show_diagnostic_source(&mut app, "/projects/a/b.tex".into(), 2, None);
    assert_eq!(app.project.pane, ProjectPane::Build);
    show_diagnostic_source(&mut app, "/projects/a/b.tex".into(), 2, Some("one\ntwo".into()));
    assert_eq!(app.project.pane, ProjectPane::Editor);
    assert_eq!(app.project_editor.cursor, 4);
    assert_eq!(app.project_editor.path.as_deref(), Some("/projects/a/b.tex"));
}

#[test]
fn the_project_list_keeps_its_selection() {
    let mut p = ProjectState::default();
    p.projects = vec![project("a"), project("b")];
    p.selected = 1;
    refresh_project_list(Platform::Other, &mut p, vec![project("b"), project("c"), project("a")]);
    assert_eq!(p.selected, 0);
    refresh_project_list(Platform::Other, &mut p, vec![project("c")]);
    assert_eq!(p.selected, 0);
    p.selected = 5;
    refresh_project_list(Platform::Other, &mut p, vec![project("c"), project("d")]);
    assert_eq!(p.selected, 1);
}

#[test]
fn a_removed_project_closes() {
    let mut app = opened();
    assert_eq!(
        refresh_projects(&mut app, Vec::new(), true).0,
        ProjectOnDisk::Present
    );
    let (disk, released) = refresh_projects(&mut app, Vec::new(), false);
    assert_eq!(disk, ProjectOnDisk::Removed);
    assert_eq!(released.as_deref(), Some("/projects/a/main.pdf"));
    assert_eq!(
        app.toast.as_deref(),
        Some("The open project was removed from disk.")
    );
    assert_eq!(
        refresh_projects(&mut app, Vec::new(), false).0,
        ProjectOnDisk::NotOpen
    );
}

#[test]
fn the_tree_returns_to_the_project() {
    let mut app = opened();
    app.project.tree_dir = Some("/projects/a/figures".into());
    assert_eq!(
        refreshed_folder(Platform::Other, &app.project, true).as_deref(),
        Some("/projects/a/figures")
    );
    assert_eq!(
        refreshed_folder(Platform::Other, &app.project, false).as_deref(),
        Some("/projects/a"),
    );
    app.project.tree_dir = Some("/projects/ab".into());
    assert_eq!(
        refreshed_folder(Platform::Other, &app.project, true).as_deref(),
        Some("/projects/a"),
    );

    app.project.file_selected = 1;
    refresh_project_tree(
        Platform::Other,
        &mut app.project,
        "/projects/a".into(),
        vec![file("/projects/a/main.tex"), file("/projects/a/new.tex")],
    );
    assert_eq!(app.project.file_selected, 0);
    refresh_project_tree(Platform::Other, &mut app.project, "/projects/a".into(), Vec::new());
    assert_eq!(app.project.file_selected, 0);
}

#[test]
fn unsaved_text_survives_a_change_on_disk() {
    let mut app = opened();
    app.project_editor.cursor = 6;
    refresh_project_editor(&mut app, FileOnDisk::Text("abc".into()));
    assert_eq!(app.project_editor.text, "abc");
    assert_eq!(app.project_editor.cursor, 3);
    app.project_editor.dirty = true;
    refresh_project_editor(&mut app, FileOnDisk::Text("other".into()));
    assert_eq!(app.project_editor.text, "abc");
    refresh_project_editor(&mut app, FileOnDisk::Unreadable);
    assert_eq!(app.project_editor.text, "abc");
    app.project.pane = ProjectPane::Editor;
    refresh_project_editor(&mut app, FileOnDisk::Missing);
    assert!(app.project_editor.path.is_none());
    assert_eq!(app.project.pane, ProjectPane::FileTree);
}

#[test]
fn the_preview_follows_the_disk() {
    let mut app = App::default();
    app.pdf_viewer.path = Some("/old.pdf".into());
    app.pdf_viewer.page = 5;
    let (released, reset) = refresh_preview(
        Platform::Other,
        &mut app.pdf_viewer,
        "/projects/a/main.pdf".into(),
        false,
        Some(PdfFile { path: "/projects/a/main.pdf".into(), pages: None }),
    );
    assert_eq!(released.as_deref(), Some("/old.pdf"));
    assert!(reset);
    assert_eq!(app.pdf_viewer.path.as_deref(), Some("/projects/a/main.pdf"));
    assert_eq!((app.pdf_viewer.page, app.pdf_viewer.total_pages), (1, 1));
    let again = refresh_preview(
        Platform::Other,
        &mut app.pdf_viewer,
        "/projects/a/main.pdf".into(),
        true,
        Some(PdfFile { path: "/projects/a/main.pdf".into(), pages: Some(3) }),
    );
    assert_eq!(again, (None, false));
}
