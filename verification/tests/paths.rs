use papr::entries::{check_inside, path_after_move, project_file_target, rename_project_entry};
use papr::model::Project;
use papr::path_parts::{path_components, PathPart, PrefixKind};
use papr::paths::{
    is_project_text_file, path_eq, path_extension, path_file_name, path_join, path_parent,
    path_starts_with, path_with_extension, path_with_file_name,
};
use papr::project_editor::is_project_exact_paste_editor;
use papr::state::{App, Page, ProjectPane};
use papr::viewer::Platform;

const WINDOWS: Platform = Platform::Windows;
const UNIX: Platform = Platform::Other;

fn parent(path: &str) -> Option<String> {
    path_parent(WINDOWS, path)
}

fn kind(path: &str) -> PrefixKind {
    match path_components(WINDOWS, path).first() {
        Some(PathPart::Prefix(kind, _)) => *kind,
        _ => PrefixKind::Nothing,
    }
}

#[test]
fn prefixes_are_told_apart() {
    assert_eq!(kind(r"C:\a"), PrefixKind::Disk);
    assert_eq!(kind(r"c:a"), PrefixKind::Disk);
    assert_eq!(kind(r"\\server\share\a"), PrefixKind::Unc);
    assert_eq!(kind(r"//server/share/a"), PrefixKind::Unc);
    assert_eq!(kind(r"\\server"), PrefixKind::Nothing);
    assert_eq!(kind(r"\\.\COM42"), PrefixKind::Device);
    assert_eq!(kind(r"\\?\pictures\a"), PrefixKind::Verbatim);
    assert_eq!(kind(r"\\?\C:\a"), PrefixKind::VerbatimDisk);
    assert_eq!(kind(r"\\?\C:a"), PrefixKind::Verbatim);
    assert_eq!(kind(r"\\?\UNC\server\share"), PrefixKind::VerbatimUnc);
    assert_eq!(kind(r"\a"), PrefixKind::Nothing);
    assert_eq!(kind("a"), PrefixKind::Nothing);
    assert!(matches!(path_components(UNIX, r"C:\a").as_slice(), [PathPart::Name(_)]));
}

#[test]
fn components_are_read_from_either_separator() {
    let parts = path_components(WINDOWS, r"C:\a/.\b//..");
    assert_eq!(parts.len(), 5);
    assert!(matches!(&parts[1], PathPart::Root));
    assert!(matches!(&parts[4], PathPart::Name(name) if name == ".."));
    let verbatim = path_components(WINDOWS, r"\\?\C:\a/b\.\c");
    assert_eq!(verbatim.len(), 5);
    assert!(matches!(&verbatim[2], PathPart::Name(name) if name == "a/b"));
    assert!(matches!(&verbatim[3], PathPart::Name(name) if name == "."));
    assert_eq!(path_components(WINDOWS, r".\a").len(), 2);
    assert_eq!(path_components(WINDOWS, r"C:.\a").len(), 2);
    assert_eq!(path_components(WINDOWS, "").len(), 0);
}

#[test]
fn drives_are_the_same_in_any_case() {
    assert!(path_eq(WINDOWS, r"c:/A/b", r"C:\A\b\"));
    assert!(!path_eq(WINDOWS, r"C:\a", r"C:\A"));
    assert!(!path_eq(WINDOWS, r"C:a", r"C:\a"));
    assert!(path_eq(WINDOWS, r"\\server\share", r"\\server\share\"));
    assert!(!path_eq(WINDOWS, r"\\?\C:\a", r"C:\a"));
    assert!(!path_eq(UNIX, r"c:\a", r"C:\a"));
}

#[test]
fn folders_of_windows_hold_what_lies_below() {
    assert!(path_starts_with(WINDOWS, r"C:\p\x.tex", r"C:/p"));
    assert!(path_starts_with(WINDOWS, r"\\?\C:\p\x", r"\\?\C:\p"));
    assert!(!path_starts_with(WINDOWS, r"C:\px", r"C:\p"));
    assert!(!path_starts_with(WINDOWS, r"D:\p\x", r"C:\p"));
    assert!(!path_starts_with(WINDOWS, r"C:\p\x", r"\p"));
    assert!(path_starts_with(WINDOWS, r"C:\p", ""));
    assert!(!path_starts_with(UNIX, r"C:\p\x", r"C:\p"));
    assert!(check_inside(WINDOWS, r"C:\p\sub", r"C:\p").is_ok());
    assert_eq!(
        check_inside(WINDOWS, r"C:\q", r"C:\p"),
        Err("file path must stay inside the project".to_owned())
    );
}

#[test]
fn parents_keep_the_prefix() {
    assert_eq!(parent(r"C:\a\b").as_deref(), Some(r"C:\a"));
    assert_eq!(parent(r"C:\a\\.\b\").as_deref(), Some(r"C:\a"));
    assert_eq!(parent(r"C:\a").as_deref(), Some(r"C:\"));
    assert_eq!(parent(r"C:\"), None);
    assert_eq!(parent("C:a").as_deref(), Some("C:"));
    assert_eq!(parent(r"C:.\a").as_deref(), Some("C:."));
    assert_eq!(parent(r"\\server\share\a").as_deref(), Some(r"\\server\share\"));
    assert_eq!(parent(r"\\server\share"), None);
    assert_eq!(parent(r"\\?\C:\a\b").as_deref(), Some(r"\\?\C:\a"));
    assert_eq!(parent("a").as_deref(), Some(""));
    assert_eq!(parent(".").as_deref(), Some(""));
    assert_eq!(parent(""), None);
    assert_eq!(path_parent(UNIX, "a//b").as_deref(), Some("a"));
    assert_eq!(path_parent(UNIX, "/./a").as_deref(), Some("/"));
    assert_eq!(path_parent(UNIX, r"C:\a").as_deref(), Some(""));
}

#[test]
fn joining_follows_prefixes_and_roots() {
    assert_eq!(path_join(WINDOWS, r"C:\a", "b"), r"C:\a\b");
    assert_eq!(path_join(WINDOWS, r"C:\a\", "b/c"), r"C:\a\b/c");
    assert_eq!(path_join(WINDOWS, "C:/a/", "b"), "C:/a/b");
    assert_eq!(path_join(WINDOWS, "C:", "a"), "C:a");
    assert_eq!(path_join(WINDOWS, r"C:\a", r"\b"), r"C:\b");
    assert_eq!(path_join(WINDOWS, r"C:\a", "D:x"), "D:x");
    assert_eq!(path_join(WINDOWS, r"C:\a", r"\\s\h\x"), r"\\s\h\x");
    assert_eq!(path_join(WINDOWS, r"\\server\share", "a"), r"\\server\share\a");
    assert_eq!(path_join(WINDOWS, "", "a"), "a");
    assert_eq!(path_join(WINDOWS, r"C:\a", ""), r"C:\a\");
    assert_eq!(path_join(UNIX, "/a", r"\b"), r"/a/\b");
}

#[test]
fn joining_below_a_verbatim_prefix_resolves_dots() {
    assert_eq!(path_join(WINDOWS, r"\\?\C:\a", r"..\b\.\c/d"), r"\\?\C:\b\c\d");
    assert_eq!(path_join(WINDOWS, r"\\?\C:\a", r"..\..\.."), r"\\?\C:\");
    assert_eq!(path_join(WINDOWS, r"\\?\C:\a", r"\x"), r"\\?\C:\x");
    assert_eq!(path_join(WINDOWS, r"\\?\C:", "x"), r"\\?\C:\x");
    assert_eq!(path_join(WINDOWS, r"\\?\C:\a", ""), r"\\?\C:\a\");
}

#[test]
fn names_and_extensions_of_windows_paths() {
    assert_eq!(path_file_name(WINDOWS, r"C:\a\b.tex").as_deref(), Some("b.tex"));
    assert_eq!(path_file_name(WINDOWS, "C:"), None);
    assert_eq!(path_file_name(WINDOWS, r"C:\a\.."), None);
    assert_eq!(path_extension(WINDOWS, r"C:\a.b\c"), None);
    assert_eq!(path_with_extension(WINDOWS, r"C:\d\x.pdf.part", ""), r"C:\d\x.pdf");
    assert_eq!(path_with_extension(WINDOWS, r"C:\d\x\", "pdf"), r"C:\d\x.pdf");
    assert_eq!(path_with_file_name(WINDOWS, r"C:\d\x.pdf", "y.pdf"), r"C:\d\y.pdf");
    assert!(is_project_text_file(WINDOWS, r"C:\p\main.tex"));
    assert!(!is_project_text_file(WINDOWS, r"C:\p\main.tex\image.png"));
}

#[test]
fn names_of_new_entries_go_down_on_windows() {
    let target = |name: &str| project_file_target(WINDOWS, r"C:\p", name).map(|entry| entry.path);
    assert_eq!(target(r"sub\a.tex").as_deref(), Ok(r"C:\p\sub\a.tex"));
    assert_eq!(target("sub/a.tex/").as_deref(), Ok(r"C:\p\sub/a.tex"));
    for name in ["C:x", r"\x", r"..\x", r"a\..\x", r"D:\x", ".", r".\x", r"\\server\share\x"] {
        assert!(target(name).is_err(), "{name}");
    }
    let unix = project_file_target(UNIX, "/p", r"..\x").map(|entry| entry.path);
    assert_eq!(unix.as_deref(), Ok(r"/p/..\x"));
}

#[test]
fn entries_are_renamed_in_their_folder_on_windows() {
    let mut app = App::default();
    app.platform = WINDOWS;
    app.project.active =
        Some(Project { name: "p".into(), path: r"C:\p".into(), opened_at: 0 });
    let renamed = rename_project_entry(&mut app, r"c:\p\sub\a.tex", " b.tex ");
    assert_eq!(renamed.as_deref(), Some(r"c:\p\sub\b.tex"));
    assert!(rename_project_entry(&mut app, r"C:\q\a.tex", "b.tex").is_none());
    assert_eq!(app.toast.as_deref(), Some("Could not rename entry outside the project."));
    assert_eq!(
        path_after_move(WINDOWS, r"C:\p\sub\x\a.tex", r"c:/p/sub", r"C:\p\other").as_deref(),
        Some(r"C:\p\other\x\a.tex")
    );
    assert_eq!(
        path_after_move(WINDOWS, r"C:\p\sub", r"C:\p\sub", r"C:\p\other").as_deref(),
        Some(r"C:\p\other")
    );
    assert_eq!(path_after_move(WINDOWS, r"D:\p\sub\x", r"C:\p\sub", r"C:\p\other"), None);
}

#[test]
fn the_state_knows_its_system() {
    let mut app = App::default();
    app.page = Page::Projects;
    app.content_focused = true;
    app.project.pane = ProjectPane::Editor;
    app.project_editor.path = Some(r"C:\p.d\refs.BIB\".into());
    assert!(!is_project_exact_paste_editor(&app));
    app.platform = WINDOWS;
    assert!(is_project_exact_paste_editor(&app));
}
