use papr::entries::{
    ancestor_above, check_inside, confirm_entry_deletion, confirm_project_deletion,
    create_project_entry, creation_folder, delete_project_entry, finish_entry_deletion,
    finish_entry_rename, finish_project_creation, finish_project_deletion, finish_project_rename,
    is_active_project, path_after_move, project_file_target, project_tree_entries,
    rename_project_entry, restore_project_editor, CreatedEntry,
};
use papr::model::{DeletionTarget, Project, ProjectEntry};
use papr::state::{App, AppMode, ProjectPane};
use papr::viewer::Platform;

fn entry(path: &str, is_dir: bool) -> ProjectEntry {
    ProjectEntry { path: path.into(), is_dir }
}

fn project(name: &str) -> Project {
    Project { name: name.into(), path: format!("/p/{name}"), opened_at: 0 }
}

fn open_app() -> App {
    let mut app = App::default();
    app.project.active = Some(project("a"));
    app.project.tree_dir = Some("/p/a".into());
    app
}

#[test]
fn folders_come_first_and_names_decide() {
    let listing = vec![
        entry("/p/a/zeta.tex", false),
        entry("/p/a/.git", true),
        entry("/p/a/notes.docx", false),
        entry("/p/a/Alpha.bib", false),
        entry("/p/a/sections", true),
        entry("/p/a/figure.PNG", false),
        entry("/p/a/assets", true),
        entry("/p/a/beta.typ", false),
    ];
    let shown: Vec<String> =
        project_tree_entries(
            Platform::Other,
            &listing,
        ).into_iter().map(|entry| entry.path).collect();
    assert_eq!(
        shown,
        vec![
            "/p/a/assets",
            "/p/a/sections",
            "/p/a/Alpha.bib",
            "/p/a/beta.typ",
            "/p/a/figure.PNG",
            "/p/a/zeta.tex",
        ]
    );
}

#[test]
fn only_names_below_the_project_can_be_created() {
    for name in ["", "  ", "/", "../x.tex", "a/../x.tex", "/etc/x.tex", ".", "./x.tex", ".."] {
        assert_eq!(
            project_file_target(Platform::Other, "/p/a", name).unwrap_err(),
            "enter a relative file path inside the project",
            "{name:?}"
        );
    }
    let target = project_file_target(Platform::Other, "/p/a/", " deep/./x.tex ").unwrap();
    assert_eq!(target.path, "/p/a/deep/./x.tex");
    assert!(!target.is_directory);
    let folder = project_file_target(Platform::Other, "/p/a", "figures//").unwrap();
    assert_eq!(folder.path, "/p/a/figures");
    assert!(folder.is_directory);
}

#[test]
fn folders_outside_of_the_project_are_refused() {
    assert!(check_inside(Platform::Other, "/p/a", "/p/a").is_ok());
    assert!(check_inside(Platform::Other, "/p/a/deep", "/p/a").is_ok());
    assert_eq!(
        check_inside(Platform::Other, "/p/ab", "/p/a").unwrap_err(),
        "file path must stay inside the project"
    );
    assert_eq!(ancestor_above(Platform::Other, "/p/a/deep").unwrap(), "/p/a");
    assert!(ancestor_above(Platform::Other, "/").is_err());
}

#[test]
fn a_created_text_opens_in_the_editor() {
    let mut app = open_app();
    assert_eq!(creation_folder(&app.project).as_deref(), Some("/p/a"));
    create_project_entry(
        &mut app,
        "b.tex",
        Ok(CreatedEntry {
            path: "/p/a/b.tex".into(),
            is_file: true,
            entries: vec![entry("/p/a/a.tex", false), entry("/p/a/b.tex", false)],
            text: Ok(String::new()),
        }),
    );
    assert_eq!(app.project.file_selected, 1);
    assert_eq!(app.project.pane, ProjectPane::Editor);
    assert_eq!(app.project_editor.path.as_deref(), Some("/p/a/b.tex"));
    assert_eq!(app.toast.as_deref(), Some("Created file"));

    create_project_entry(
        &mut app,
        "figures/",
        Ok(CreatedEntry {
            path: "/p/a/figures".into(),
            is_file: false,
            entries: vec![entry("/p/a/figures", true)],
            text: Err("not a file".into()),
        }),
    );
    assert_eq!(app.project.pane, ProjectPane::FileTree);
    assert_eq!(app.project_editor.path.as_deref(), Some("/p/a/b.tex"));
    assert_eq!(app.toast.as_deref(), Some("Created folder"));

    create_project_entry(&mut app, "x", Err("already exists".into()));
    assert_eq!(app.toast.as_deref(), Some("Could not create file: already exists"));
    app.project.active = None;
    create_project_entry(&mut app, "x", Err(String::new()));
    assert_eq!(
        app.toast.as_deref(),
        Some("Could not create file: no project is open.")
    );
    assert!(creation_folder(&app.project).is_none());
}

#[test]
fn renaming_asks_for_a_single_name_in_the_project() {
    let mut app = open_app();
    assert_eq!(
        rename_project_entry(&mut app, "/p/a/old.tex", " new.tex ").as_deref(),
        Some("/p/a/new.tex")
    );
    assert!(app.toast.is_none());
    for name in ["", " ", ".", "..", "x/y", "x\\y"] {
        assert!(rename_project_entry(&mut app, "/p/a/old.tex", name).is_none());
        assert_eq!(
            app.toast.as_deref(),
            Some("Could not rename entry: enter a single file or folder name.")
        );
    }
    assert!(rename_project_entry(&mut app, "/", "x").is_none());
    assert_eq!(app.toast.as_deref(), Some("Could not rename entry: invalid path."));
    assert!(rename_project_entry(&mut app, "/q/old.tex", "x").is_none());
    assert_eq!(
        app.toast.as_deref(),
        Some("Could not rename entry outside the project.")
    );
    app.project.active = None;
    assert!(rename_project_entry(&mut app, "/p/a/old.tex", "x").is_none());
    assert_eq!(
        app.toast.as_deref(),
        Some("Could not rename entry: no project is open.")
    );
}

#[test]
fn the_editor_follows_a_renamed_folder() {
    let mut app = open_app();
    app.project_editor.path = Some("/p/a/old/deep/x.tex".into());
    finish_entry_rename(
        &mut app,
        "/p/a/old",
        "/p/a/new",
        Ok(vec![entry("/p/a/figures", true), entry("/p/a/new", true)]),
    );
    assert_eq!(app.project_editor.path.as_deref(), Some("/p/a/new/deep/x.tex"));
    assert_eq!(app.project.file_selected, 1);
    assert_eq!(app.toast.as_deref(), Some("Renamed"));
    finish_entry_rename(&mut app, "/p/a/else", "/p/a/other", Err("busy".into()));
    assert_eq!(app.toast.as_deref(), Some("Could not rename entry: busy"));
    assert_eq!(path_after_move(Platform::Other, "/p/a", "/p/a", "/p/b").as_deref(), Some("/p/b"));
    assert!(path_after_move(Platform::Other, "/p/ab", "/p/a", "/p/b").is_none());
}

#[test]
fn deletion_stays_below_the_project() {
    let mut app = open_app();
    assert!(delete_project_entry(&mut app, "/p/a/x.tex"));
    assert!(app.toast.is_none());
    for path in ["/p/a", "/p/a/", "/p/b/x.tex"] {
        assert!(!delete_project_entry(&mut app, path));
        assert_eq!(
            app.toast.as_deref(),
            Some("Could not delete entry outside the project.")
        );
    }
    app.project.active = None;
    assert!(!delete_project_entry(&mut app, "/p/a/x.tex"));
    assert_eq!(
        app.toast.as_deref(),
        Some("Could not delete entry: no project is open.")
    );
}

#[test]
fn deleting_the_edited_file_closes_it() {
    let mut app = open_app();
    app.project.pane = ProjectPane::Editor;
    app.project.file_selected = 4;
    app.project_editor.path = Some("/p/a/x.tex".into());
    app.project_editor.text = "unsaved".into();
    app.project_editor.dirty = true;
    finish_entry_deletion(&mut app, "/p/a/y.tex", Err("busy".into()));
    assert_eq!(app.toast.as_deref(), Some("Could not delete entry: busy"));
    finish_entry_deletion(&mut app, "/p/a/x.tex", Ok(vec![entry("/p/a/z.tex", false)]));
    assert!(app.project_editor.path.is_none());
    assert!(app.project_editor.text.is_empty());
    assert!(!app.project_editor.dirty);
    assert_eq!(app.project.pane, ProjectPane::FileTree);
    assert_eq!(app.project.file_selected, 0);
    assert_eq!(app.toast.as_deref(), Some("Deleted"));
}

#[test]
fn deletions_are_asked_for_by_name() {
    let mut app = open_app();
    confirm_entry_deletion(&mut app, "/p/a/figures".into(), true);
    assert_eq!(app.mode, AppMode::ConfirmDelete);
    assert!(matches!(
        &app.delete_confirmation,
        Some(DeletionTarget::ProjectEntry { name, is_directory: true, .. }) if name == "figures"
    ));
    confirm_entry_deletion(&mut app, "/".into(), true);
    assert!(matches!(
        &app.delete_confirmation,
        Some(DeletionTarget::ProjectEntry { name, .. }) if name == "entry"
    ));
    confirm_project_deletion(&mut app, project("b"));
    assert!(matches!(
        &app.delete_confirmation,
        Some(DeletionTarget::Project { project }) if project.name == "b"
    ));
}

#[test]
fn the_project_list_selects_what_was_done() {
    let mut app = open_app();
    finish_project_creation(&mut app, &project("b"), vec![project("a"), project("b")]);
    assert_eq!(app.project.selected, 1);
    assert_eq!(app.toast.as_deref(), Some("Created project b"));
    finish_project_rename(&mut app, &project("c"), vec![project("c"), project("b")]);
    assert_eq!(app.project.selected, 0);
    assert_eq!(app.toast.as_deref(), Some("Renamed project to c"));
    app.project.selected = 1;
    finish_project_deletion(&mut app, &project("b"), vec![project("c")]);
    assert_eq!(app.project.selected, 0);
    assert_eq!(app.project.pane, ProjectPane::ProjectList);
    assert_eq!(app.toast.as_deref(), Some("Deleted project b"));
    assert!(is_active_project(Platform::Other, &app.project, &project("a")));
    assert!(!is_active_project(Platform::Other, &app.project, &project("b")));
    restore_project_editor(&mut app, "/p/c/x.tex".into(), Some("text".into()));
    assert_eq!(app.project.pane, ProjectPane::Editor);
    assert_eq!(app.project_editor.text, "text");
}
