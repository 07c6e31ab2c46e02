//! The projects page: its list, file tree, editor, preview and build pane.

use vstd::prelude::*;
use crate::actions::{AfterSave, UiAction};
use crate::chars::{ascii_lower, same_letter};
use crate::citations::{citation_search_opened, open_citation_search};
use crate::config_editor::message;
use crate::keys::{KeyCode, KeyEvent};
use crate::model::{clone_text, opt_text, Project, ProjectEntry};
use crate::navigation::less;
use crate::papers::toasted;
use crate::paths::{
    extension_is, file_name, has_extension, is_below, joined, parent, path_eq, path_file_name,
    path_join, path_parent, path_starts_with, same_path,
};
use crate::select::{next_selection, previous_selection, select_next, select_previous};
use crate::state::{
    App, AppMode, PdfViewerState, ProjectBuild, ProjectEditor, ProjectPane, ProjectState,
};
use crate::text::{boundary, byte_len, group_points, same_text, text_len};
use crate::viewer::{jump_to_page, page_shown};
use crate::vim::{handle_insert_key, handle_normal_key, insert_key_step, normal_key_step};
use crate::viewer::Platform;

verus! {

broadcast use group_points;

/// Whether a key is a character typed with Control, in either case.
pub open spec fn control_char(key: KeyEvent, expected: char) -> bool {
    key.modifiers.control && (key.code matches KeyCode::Char(c) && ascii_lower(c) == ascii_lower(
        expected,
    ))
}

/// Whether a key is a character typed with Control, in either case.
pub fn is_control_character_shortcut(key: KeyEvent, expected: char) -> (r: bool)
    ensures
        r == control_char(key, expected),
{
    match key.code {
        KeyCode::Char(c) => key.modifiers.control && same_letter(c, expected),
        _ => false,
    }
}

/// The pane that Alt and a digit name.
pub open spec fn pane_for(key: KeyEvent) -> Option<ProjectPane> {
    if !key.modifiers.alt {
        None
    } else if key.code == KeyCode::Char('1') {
        Some(ProjectPane::FileTree)
    } else if key.code == KeyCode::Char('2') {
        Some(ProjectPane::Editor)
    } else if key.code == KeyCode::Char('3') {
        Some(ProjectPane::Preview)
    } else if key.code == KeyCode::Char('4') {
        Some(ProjectPane::Build)
    } else {
        None
    }
}

fn shortcut_pane(key: KeyEvent) -> (r: Option<ProjectPane>)
    ensures
        r == pane_for(key),
{
    if !key.modifiers.alt {
        return None;
    }
    match key.code {
        KeyCode::Char(c) => if c == '1' {
            Some(ProjectPane::FileTree)
        } else if c == '2' {
            Some(ProjectPane::Editor)
        } else if c == '3' {
            Some(ProjectPane::Preview)
        } else if c == '4' {
            Some(ProjectPane::Build)
        } else {
            None
        },
        _ => None,
    }
}

/// Whether a pane can take the focus.
pub open spec fn pane_available(app: App, pane: ProjectPane) -> bool {
    match pane {
        ProjectPane::ProjectList => true,
        ProjectPane::FileTree | ProjectPane::Build => app.project.active is Some,
        ProjectPane::Editor => app.project.active is Some && app.project_editor.path is Some,
        ProjectPane::Preview => app.pdf_viewer.program@ == "internal"@ && app.project.active
            is Some,
    }
}

/// Why a pane cannot take the focus.
pub open spec fn pane_refusal(app: App, pane: ProjectPane) -> Seq<char> {
    if pane == ProjectPane::Editor {
        "Open a source file before focusing the editor."@
    } else if pane == ProjectPane::Preview && app.pdf_viewer.program@ != "internal"@ {
        "PDF preview is disabled when using an external viewer."@
    } else {
        "Open a project before focusing this pane."@
    }
}

/// The focus is on `pane`; the right side shows the build or the preview when
/// one of them takes it.
pub open spec fn pane_focused(app: App, pane: ProjectPane) -> App {
    App {
        project: ProjectState { pane, ..app.project },
        project_build: ProjectBuild {
            visible: if pane == ProjectPane::Build {
                true
            } else if pane == ProjectPane::Preview {
                false
            } else {
                app.project_build.visible
            },
            ..app.project_build
        },
        ..app
    }
}

/// Alt and a digit put the focus on a pane, or a toast says why not.
pub open spec fn pane_shortcut_step(pre: App, pane: ProjectPane, post: App) -> bool {
    if pane_available(pre, pane) {
        post == pane_focused(pre, pane)
    } else {
        toasted(pre, pane_refusal(pre, pane), post)
    }
}

/// Handles Alt and a digit, before any pane sees them.
pub fn handle_project_pane_shortcut(app: &mut App, key: KeyEvent) -> (taken: bool)
    ensures
        taken == pane_for(key) is Some,
        taken ==> pane_shortcut_step(*old(app), pane_for(key)->0, *final(app)),
        !taken ==> *final(app) == *old(app),
        old(app).wf() ==> final(app).wf(),
{
    let pane = match shortcut_pane(key) {
        None => return false,
        Some(pane) => pane,
    };
    let internal = same_text(app.pdf_viewer.program.as_str(), "internal");
    let open = app.project.active.is_some();
    let available = match pane {
        ProjectPane::ProjectList => true,
        ProjectPane::FileTree | ProjectPane::Build => open,
        ProjectPane::Editor => open && app.project_editor.path.is_some(),
        ProjectPane::Preview => internal && open,
    };
    if available {
        app.project.pane = pane;
        if pane == ProjectPane::Build {
            app.project_build.visible = true;
        } else if pane == ProjectPane::Preview {
            app.project_build.visible = false;
        }
    } else if pane == ProjectPane::Editor {
        app.toast = Some("Open a source file before focusing the editor.".to_owned());
    } else if pane == ProjectPane::Preview && !internal {
        app.toast = Some("PDF preview is disabled when using an external viewer.".to_owned());
    } else {
        app.toast = Some("Open a project before focusing this pane.".to_owned());
    }
    true
}

/// The selected project.
pub open spec fn selected_project(p: ProjectState) -> Option<Project> {
    if p.selected < p.projects@.len() {
        Some(p.projects@[p.selected as int])
    } else {
        None
    }
}

/// The field for the name of a new project opens, with the configured
/// compiler.
pub open spec fn creation_opened(p: ProjectState, post: ProjectState) -> bool {
    &&& post == ProjectState {
        rename_input: post.rename_input,
        rename_cursor: 0,
        create_compiler: post.create_compiler,
        ..p
    }
    &&& post.rename_input@.len() == 0
    &&& post.create_compiler@ == if p.default_compiler@.len() == 0 {
        "latex"@
    } else {
        p.default_compiler@
    }
}

/// The name field holds `name`, its cursor at the end.
pub open spec fn name_offered(p: ProjectState, name: Seq<char>, post: ProjectState) -> bool {
    &&& post == ProjectState {
        rename_input: post.rename_input,
        rename_cursor: byte_len(name) as usize,
        ..p
    }
    &&& post.rename_input@ == name
    &&& boundary(post.rename_input@, post.rename_cursor as int)
}

fn open_creation(p: &mut ProjectState)
    ensures
        creation_opened(*old(p), *final(p)),
        boundary(final(p).rename_input@, final(p).rename_cursor as int),
{
    p.rename_input = String::new();
    p.rename_cursor = 0;
    p.create_compiler = if p.default_compiler.as_str().is_empty() {
        "latex".to_owned()
    } else {
        p.default_compiler.clone()
    };
    proof {
        crate::text::lemma_ends(p.rename_input@);
    }
}

fn offer_name(p: &mut ProjectState, name: String)
    ensures
        name_offered(*old(p), name@, *final(p)),
{
    p.rename_cursor = text_len(name.as_str());
    p.rename_input = name;
}

/// What a key of the project list does.
pub open spec fn list_key_step(pre: App, key: KeyEvent, post: App, action: Option<UiAction>) -> bool {
    let p = pre.project;
    let only_project = post == App { project: post.project, mode: post.mode, ..pre };
    match key.code {
        KeyCode::Left => post == App { content_focused: false, ..pre } && action is None,
        KeyCode::Up => list_selected(pre, previous_selection(p.selected as int), post) && action
            is None,
        KeyCode::Down => list_selected(
            pre,
            next_selection(p.selected as int, p.projects@.len() as int),
            post,
        ) && action is None,
        KeyCode::Enter | KeyCode::Right => post == pre && action == open_project_of(p),
        KeyCode::Char(c) => if c == 'q' {
            post == App { should_quit: true, ..pre } && action is None
        } else if c == 'n' {
            &&& only_project
            &&& post.mode == AppMode::ProjectCreate
            &&& creation_opened(p, post.project)
            &&& action is None
        } else if c == 'r' {
            post == pre && action == Some(UiAction::RefreshProjects)
        } else if c == 'R' {
            &&& action is None
            &&& match selected_project(p) {
                Some(project) => {
                    &&& only_project
                    &&& post.mode == AppMode::ProjectRename
                    &&& name_offered(p, project.name@, post.project)
                },
                None => post == pre,
            }
        } else if c == 'x' {
            post == pre && action == match selected_project(p) {
                Some(project) => Some(UiAction::ConfirmDeleteProject(project)),
                None => None,
            }
        } else if c == 'k' {
            list_selected(pre, previous_selection(p.selected as int), post) && action is None
        } else if c == 'j' {
            list_selected(
                pre,
                next_selection(p.selected as int, p.projects@.len() as int),
                post,
            ) && action is None
        } else if c == 'l' {
            post == pre && action == open_project_of(p)
        } else {
            post == pre && action is None
        },
        _ => post == pre && action is None,
    }
}

/// Only the selection of the project list changed.
pub open spec fn list_selected(pre: App, selected: int, post: App) -> bool {
    post == App { project: ProjectState { selected: selected as usize, ..pre.project }, ..pre }
}

/// The selected project is to be opened.
pub open spec fn open_project_of(p: ProjectState) -> Option<UiAction> {
    match selected_project(p) {
        Some(project) => Some(UiAction::OpenProject(project)),
        None => None,
    }
}

fn current_project(p: &ProjectState) -> (r: Option<Project>)
    ensures
        r == selected_project(*p),
{
    if p.selected < p.projects.len() {
        Some(p.projects[p.selected].clone())
    } else {
        None
    }
}

fn open_current_project(p: &ProjectState) -> (r: Option<UiAction>)
    ensures
        r == open_project_of(*p),
{
    match current_project(p) {
        Some(project) => Some(UiAction::OpenProject(project)),
        None => None,
    }
}

/// Handles a key of the project list.
pub fn handle_project_list_key(app: &mut App, key: KeyEvent) -> (action: Option<UiAction>)
    ensures
        list_key_step(*old(app), key, *final(app), action),
        old(app).wf() ==> final(app).wf(),
{
    match key.code {
        KeyCode::Left => {
            app.content_focused = false;
            None
        },
        KeyCode::Up => {
            app.project.selected = select_previous(app.project.selected);
            None
        },
        KeyCode::Down => {
            app.project.selected = select_next(app.project.selected, app.project.projects.len());
            None
        },
        KeyCode::Enter | KeyCode::Right => open_current_project(&app.project),
        KeyCode::Char(c) => {
            if c == 'q' {
                app.should_quit = true;
                None
            } else if c == 'n' {
                open_creation(&mut app.project);
                app.mode = AppMode::ProjectCreate;
                None
            } else if c == 'r' {
                Some(UiAction::RefreshProjects)
            } else if c == 'R' {
                if let Some(project) = current_project(&app.project) {
                    offer_name(&mut app.project, project.name);
                    app.mode = AppMode::ProjectRename;
                }
                None
            } else if c == 'x' {
                match current_project(&app.project) {
                    Some(project) => Some(UiAction::ConfirmDeleteProject(project)),
                    None => None,
                }
            } else if c == 'k' {
                app.project.selected = select_previous(app.project.selected);
                None
            } else if c == 'j' {
                app.project.selected = select_next(
                    app.project.selected,
                    app.project.projects.len(),
                );
                None
            } else if c == 'l' {
                open_current_project(&app.project)
            } else {
                None
            }
        },
        _ => None,
    }
}

/// Whether the edited file has to be written before the editor may be left.
pub open spec fn must_save(e: ProjectEditor) -> bool {
    e.dirty && e.path is Some
}

fn needs_save(e: &ProjectEditor) -> (r: bool)
    ensures
        r == must_save(*e),
{
    e.dirty && e.path.is_some()
}

/// The editor is left: no insert mode, no completions, no waiting command.
pub open spec fn editor_left(e: ProjectEditor, post: ProjectEditor) -> bool {
    &&& post == ProjectEditor {
        insert_mode: false,
        completions: post.completions,
        pending_sequence: None,
        ..e
    }
    &&& post.completions@.len() == 0
}

fn leave_editor(e: &mut ProjectEditor)
    ensures
        editor_left(*old(e), *final(e)),
        old(e).wf() ==> final(e).wf(),
{
    e.insert_mode = false;
    e.completions.clear();
    e.pending_sequence = None;
}

/// The first project from index `i` on that has the path.
pub open spec fn project_at(
    os: Platform,
    projects: Seq<Project>,
    path: Seq<char>,
    i: int,
) -> Option<int>
    decreases projects.len() - i,
{
    if i < 0 || i >= projects.len() {
        None
    } else if same_path(os, projects[i].path@, path) {
        Some(i)
    } else {
        project_at(os, projects, path, i + 1)
    }
}

pub fn find_project(os: Platform, projects: &Vec<Project>, path: &str) -> (r: Option<usize>)
    ensures
        r is Some == project_at(os, projects@, path@, 0) is Some,
        r matches Some(i) ==> i == project_at(os, projects@, path@, 0)->0 && i < projects@.len(),
{
    let mut i: usize = 0;
    while i < projects.len()
        invariant
            i <= projects@.len(),
            project_at(os, projects@, path@, 0) == project_at(os, projects@, path@, i as int),
        decreases projects.len() - i,
    {
        if path_eq(os, projects[i].path.as_str(), path) {
            return Some(i);
        }
        i = i + 1;
    }
    None
}

/// The selection of the project list once the open project closes: that
/// project, where the list has it.
pub open spec fn selection_on_close(os: Platform, p: ProjectState) -> usize {
    match p.active {
        Some(active) => match project_at(os, p.projects@, active.path@, 0) {
            Some(i) => i as usize,
            None => p.selected,
        },
        None => p.selected,
    }
}

/// The open project is ready to be closed.
pub open spec fn project_left(pre: App, post: App) -> bool {
    &&& post == App {
        project: ProjectState { selected: selection_on_close(
            pre.platform,
            pre.project,
        ), ..pre.project },
        project_editor: post.project_editor,
        ..pre
    }
    &&& editor_left(pre.project_editor, post.project_editor)
}

/// The open project is to be closed: at once, or after the edited file has been
/// written.
pub open spec fn project_close_step(pre: App, post: App, action: Option<UiAction>) -> bool {
    if must_save(pre.project_editor) {
        post == pre && action == Some(UiAction::SaveProjectEditor(AfterSave::CloseProject))
    } else {
        project_left(pre, post) && action == Some(UiAction::CloseProject)
    }
}

fn leave_project(app: &mut App)
    ensures
        project_left(*old(app), *final(app)),
        old(app).wf() ==> final(app).wf(),
{
    let selected: usize = match &app.project.active {
        Some(active) => match find_project(
            app.platform,
            &app.project.projects,
            active.path.as_str(),
        ) {
            Some(i) => i,
            None => app.project.selected,
        },
        None => app.project.selected,
    };
    app.project.selected = selected;
    leave_editor(&mut app.project_editor);
}

/// Asks for the open project to be closed, keeping it selected in the list; a
/// changed file is written first.
pub fn prepare_project_close(app: &mut App) -> (action: Option<UiAction>)
    ensures
        project_close_step(*old(app), *final(app), action),
        old(app).wf() ==> final(app).wf(),
{
    if needs_save(&app.project_editor) {
        return Some(UiAction::SaveProjectEditor(AfterSave::CloseProject));
    }
    leave_project(app);
    Some(UiAction::CloseProject)
}

/// The file tree has the focus and the editor is left.
pub open spec fn tree_focused(pre: App, post: App) -> bool {
    &&& post == App {
        project: ProjectState { pane: ProjectPane::FileTree, ..pre.project },
        project_editor: post.project_editor,
        ..pre
    }
    &&& editor_left(pre.project_editor, post.project_editor)
}

/// The focus goes back to the file tree: at once, or after the edited file has
/// been written.
pub open spec fn tree_return_step(pre: App, post: App, action: Option<UiAction>) -> bool {
    if pre.project.pane == ProjectPane::Editor && must_save(pre.project_editor) {
        post == pre && action == Some(UiAction::SaveProjectEditor(AfterSave::ReturnToFileTree))
    } else {
        tree_focused(pre, post) && action is None
    }
}

fn focus_tree(app: &mut App)
    ensures
        tree_focused(*old(app), *final(app)),
        old(app).wf() ==> final(app).wf(),
{
    leave_editor(&mut app.project_editor);
    app.project.pane = ProjectPane::FileTree;
}

/// Puts the focus back on the file tree; a changed file is written first.
pub fn return_to_project_file_tree(app: &mut App) -> (action: Option<UiAction>)
    ensures
        tree_return_step(*old(app), *final(app), action),
        old(app).wf() ==> final(app).wf(),
{
    if app.project.pane == ProjectPane::Editor && needs_save(&app.project_editor) {
        return Some(UiAction::SaveProjectEditor(AfterSave::ReturnToFileTree));
    }
    focus_tree(app);
    None
}

/// The editor and the messages after the edited file has been written; where no
/// file is open there was nothing to write.
pub open spec fn file_saved(pre: App, post: App) -> bool {
    match pre.project_editor.path {
        None => post == pre,
        Some(path) => {
            &&& post == App {
                project_editor: ProjectEditor { dirty: false, ..pre.project_editor },
                project_build: ProjectBuild {
                    status: post.project_build.status,
                    ..pre.project_build
                },
                toast: post.toast,
                ..pre
            }
            &&& opt_text(post.toast) == Some("Saved"@)
            &&& post.project_build.status@ == if has_extension(pre.platform, path@, "typ"@) {
                "Saved; embedded Typst watching…"@
            } else {
                "Saved; latexmk watching…"@
            }
        },
    }
}

fn mark_saved(app: &mut App)
    ensures
        file_saved(*old(app), *final(app)),
        old(app).wf() ==> final(app).wf(),
{
    let typst = match &app.project_editor.path {
        Some(path) => extension_is(app.platform, path.as_str(), "typ"),
        None => {
            return;
        },
    };
    app.project_editor.dirty = false;
    app.project_build.status = if typst {
        "Saved; embedded Typst watching…".to_owned()
    } else {
        "Saved; latexmk watching…".to_owned()
    };
    app.toast = Some("Saved".to_owned());
}

/// What follows once writing the edited file has ended. A failure is reported
/// and nothing else happens: the editor keeps the changes.
pub open spec fn save_step(
    pre: App,
    result: Result<(), String>,
    after: AfterSave,
    post: App,
    action: Option<UiAction>,
) -> bool {
    match result {
        Err(error) => toasted(pre, "Could not save file: "@ + error@, post) && action is None,
        Ok(_) => exists|saved: App| #[trigger]
            file_saved(pre, saved) && match after {
                AfterSave::Stay => post == saved && action is None,
                AfterSave::CloseProject => project_left(saved, post) && action == Some(
                    UiAction::CloseProject,
                ),
                AfterSave::ReturnToFileTree => tree_focused(saved, post) && action is None,
            },
    }
}

/// Takes over the result of writing the edited file and goes on from there.
pub fn save_project_editor(app: &mut App, result: Result<(), String>, after: AfterSave) -> (action:
    Option<UiAction>)
    ensures
        save_step(*old(app), result, after, *final(app), action),
        old(app).wf() ==> final(app).wf(),
{
    match result {
        Err(error) => {
            app.toast = Some(message("Could not save file: ", error.as_str()));
            None
        },
        Ok(_) => {
            mark_saved(app);
            match after {
                AfterSave::Stay => None,
                AfterSave::CloseProject => {
                    leave_project(app);
                    Some(UiAction::CloseProject)
                },
                AfterSave::ReturnToFileTree => {
                    focus_tree(app);
                    None
                },
            }
        },
    }
}

/// A file that could not be written loses no edit, and its project stays open.
pub proof fn law_failed_save_keeps_everything(
    pre: App,
    error: String,
    after: AfterSave,
    post: App,
    action: Option<UiAction>,
)
    requires
        save_step(pre, Err(error), after, post, action),
    ensures
        post.project_editor == pre.project_editor,
        post.project == pre.project,
        action is None,
{
}

/// The folder above the shown one, as far as that lies in the project.
pub open spec fn tree_parent(os: Platform, p: ProjectState) -> Option<Seq<char>> {
    match (p.active, p.tree_dir) {
        (Some(project), Some(current)) => if same_path(os, current@, project.path@) {
            None
        } else {
            match parent(os, current@) {
                Some(up) => if is_below(os, up, project.path@) {
                    Some(up)
                } else {
                    None
                },
                None => None,
            }
        },
        _ => None,
    }
}

/// The file tree never leaves the project.
pub proof fn law_tree_stays_in_project(os: Platform, p: ProjectState)
    ensures
        tree_parent(os, p) matches Some(up) ==> is_below(os, up, p.active->0.path@),
{
}

/// Asks for the folder above the shown one, as far as that lies in the project;
/// the folder that is left is to be selected there.
pub fn move_project_tree_to_parent(app: &App) -> (action: Option<UiAction>)
    ensures
        action is Some == tree_parent(app.platform, app.project) is Some,
        action matches Some(a) ==> (a matches UiAction::ListProjectFolder { path, previous }
            && path@ == tree_parent(
                app.platform,
                app.project,
            )->0 && previous == app.project.tree_dir),
{
    match (&app.project.active, &app.project.tree_dir) {
        (Some(project), Some(current)) => {
            if path_eq(app.platform, current.as_str(), project.path.as_str()) {
                return None;
            }
            match path_parent(app.platform, current.as_str()) {
                None => None,
                Some(up) => {
                    if path_starts_with(app.platform, up.as_str(), project.path.as_str()) {
                        Some(
                            UiAction::ListProjectFolder {
                                path: up,
                                previous: clone_text(&app.project.tree_dir),
                            },
                        )
                    } else {
                        None
                    }
                },
            }
        },
        _ => None,
    }
}

/// The first entry from index `i` on that has the path.
pub open spec fn entry_at(
    os: Platform,
    entries: Seq<ProjectEntry>,
    path: Seq<char>,
    i: int,
) -> Option<int>
    decreases entries.len() - i,
{
    if i < 0 || i >= entries.len() {
        None
    } else if same_path(os, entries[i].path@, path) {
        Some(i)
    } else {
        entry_at(os, entries, path, i + 1)
    }
}

pub fn find_entry(os: Platform, entries: &Vec<ProjectEntry>, path: &str) -> (r: Option<usize>)
    ensures
        r is Some == entry_at(os, entries@, path@, 0) is Some,
        r matches Some(i) ==> i == entry_at(os, entries@, path@, 0)->0 && i < entries@.len(),
{
    let mut i: usize = 0;
    while i < entries.len()
        invariant
            i <= entries@.len(),
            entry_at(os, entries@, path@, 0) == entry_at(os, entries@, path@, i as int),
        decreases entries.len() - i,
    {
        if path_eq(os, entries[i].path.as_str(), path) {
            return Some(i);
        }
        i = i + 1;
    }
    None
}

/// The file tree shows a folder, with the entry `previous` selected where the
/// folder has it, and its first entry otherwise.
pub open spec fn folder_listed(
    os: Platform,
    p: ProjectState,
    path: Seq<char>,
    previous: Option<Seq<char>>,
    entries: Seq<ProjectEntry>,
    post: ProjectState,
) -> bool {
    &&& post == ProjectState {
        tree_dir: post.tree_dir,
        files: post.files,
        file_selected: (match previous {
            Some(entry) => match entry_at(os, entries, entry, 0) {
                Some(i) => i,
                None => 0,
            },
            None => 0,
        }) as usize,
        ..p
    }
    &&& opt_text(post.tree_dir) == Some(path)
    &&& post.files@ == entries
}

/// Takes over the entries of a folder of the project.
pub fn show_project_folder(
    app: &mut App,
    path: String,
    previous: Option<String>,
    entries: Vec<ProjectEntry>,
)
    ensures
        *final(app) == (App { project: final(app).project, ..*old(app) }),
        folder_listed(
            old(app).platform,
            old(app).project,
            path@,
            opt_text(previous),
            entries@,
            final(app).project,
        ),
        old(app).wf() ==> final(app).wf(),
{
    let selected: usize = match &previous {
        Some(entry) => match find_entry(app.platform, &entries, entry.as_str()) {
            Some(i) => i,
            None => 0,
        },
        None => 0,
    };
    app.project.tree_dir = Some(path);
    app.project.files = entries;
    app.project.file_selected = selected;
}

/// Whether a key leads out of the pane that has the focus.
pub open spec fn back_takes(app: App, key: KeyEvent) -> bool {
    key.code == KeyCode::Esc || app.project.pane == ProjectPane::FileTree && key.code
        == KeyCode::Left
}

/// What a key that leads back does. Escape ends, in this order, the insert
/// mode, a waiting command and a selection of the editor; then it leads from
/// any pane to the file tree, and from there out of the project. Left leads up
/// the file tree and then out.
pub open spec fn back_step(pre: App, key: KeyEvent, post: App, action: Option<UiAction>) -> bool {
    let e = pre.project_editor;
    let pane = pre.project.pane;
    if key.code == KeyCode::Esc && pane == ProjectPane::Editor && (e.insert_mode
        || e.pending_sequence is Some || e.visual_line_anchor is Some) {
        &&& action is None
        &&& post == App { project_editor: post.project_editor, ..pre }
        &&& if e.insert_mode {
            &&& post.project_editor == ProjectEditor {
                insert_mode: false,
                completions: post.project_editor.completions,
                ..e
            }
            &&& post.project_editor.completions@.len() == 0
        } else if e.pending_sequence is Some {
            post.project_editor == ProjectEditor { pending_sequence: None, ..e }
        } else {
            post.project_editor == ProjectEditor { visual_line_anchor: None, ..e }
        }
    } else if key.code == KeyCode::Esc && pane != ProjectPane::FileTree {
        tree_return_step(pre, post, action)
    } else if key.code == KeyCode::Left && tree_parent(pre.platform, pre.project) is Some {
        &&& post == pre
        &&& action matches Some(UiAction::ListProjectFolder { path, previous }) && path@
            == tree_parent(pre.platform, pre.project)->0 && previous == pre.project.tree_dir
    } else {
        project_close_step(pre, post, action)
    }
}

fn end_editor_state(e: &mut ProjectEditor)
    ensures
        ({
            let pre = *old(e);
            let post = *final(e);
            if pre.insert_mode {
                &&& post == ProjectEditor {
                    insert_mode: false,
                    completions: post.completions,
                    ..pre
                }
                &&& post.completions@.len() == 0
            } else if pre.pending_sequence is Some {
                post == ProjectEditor { pending_sequence: None, ..pre }
            } else {
                post == ProjectEditor { visual_line_anchor: None, ..pre }
            }
        }),
        old(e).wf() ==> final(e).wf(),
{
    if e.insert_mode {
        e.insert_mode = false;
        e.completions.clear();
    } else if e.pending_sequence.is_some() {
        e.pending_sequence = None;
    } else {
        e.visual_line_anchor = None;
    }
}

/// Handles a key that leads back; `r.0` says whether the key is one.
pub fn handle_project_back_navigation(app: &mut App, key: KeyEvent) -> (r: (
    bool,
    Option<UiAction>,
))
    ensures
        r.0 == back_takes(*old(app), key),
        r.0 ==> back_step(*old(app), key, *final(app), r.1),
        !r.0 ==> *final(app) == *old(app) && r.1 is None,
        old(app).wf() ==> final(app).wf(),
{
    if key.code == KeyCode::Esc {
        if app.project.pane == ProjectPane::Editor && (app.project_editor.insert_mode
            || app.project_editor.pending_sequence.is_some()
            || app.project_editor.visual_line_anchor.is_some()) {
            end_editor_state(&mut app.project_editor);
            return (true, None);
        }
        if app.project.pane != ProjectPane::FileTree {
            return (true, return_to_project_file_tree(app));
        }
        return (true, prepare_project_close(app));
    }
    if app.project.pane == ProjectPane::FileTree && key.code == KeyCode::Left {
        let up = move_project_tree_to_parent(app);
        if up.is_some() {
            return (true, up);
        }
        return (true, prepare_project_close(app));
    }
    (false, None)
}

/// The selected entry of the file tree.
pub open spec fn selected_entry(p: ProjectState) -> Option<ProjectEntry> {
    if p.file_selected < p.files@.len() {
        Some(p.files@[p.file_selected as int])
    } else {
        None
    }
}

fn current_entry(p: &ProjectState) -> (r: Option<ProjectEntry>)
    ensures
        r == selected_entry(*p),
{
    if p.file_selected < p.files.len() {
        Some(p.files[p.file_selected].clone())
    } else {
        None
    }
}

/// The name that a rename starts from.
pub open spec fn entry_name(os: Platform, path: Seq<char>) -> Seq<char> {
    match file_name(os, path) {
        Some(name) => name,
        None => Seq::empty(),
    }
}

fn name_of_entry(os: Platform, path: &str) -> (r: String)
    ensures
        r@ == entry_name(os, path@),
{
    match path_file_name(os, path) {
        Some(name) => name,
        None => {
            let r = String::new();
            assert(r@ =~= Seq::empty());
            r
        },
    }
}

/// What a key of the file tree does to it.
pub open spec fn tree_key_step(
    os: Platform,
    p: ProjectState,
    mode: AppMode,
    key: KeyEvent,
    post: ProjectState,
    post_mode: AppMode,
    action: Option<UiAction>,
) -> bool {
    match key.code {
        KeyCode::Up => post == tree_selected(p, previous_selection(p.file_selected as int))
            && post_mode == mode && action is None,
        KeyCode::Down => post == tree_selected(
            p,
            next_selection(p.file_selected as int, p.files@.len() as int),
        ) && post_mode == mode && action is None,
        KeyCode::Enter | KeyCode::Right => {
            &&& post == p
            &&& post_mode == mode
            &&& action == match selected_entry(p) {
                Some(entry) => Some(
                    if entry.is_dir {
                        UiAction::ListProjectFolder { path: entry.path, previous: None }
                    } else {
                        UiAction::OpenProjectFile(entry.path)
                    },
                ),
                None => None,
            }
        },
        KeyCode::Char(c) => if c == 'n' {
            &&& post == ProjectState { rename_input: post.rename_input, rename_cursor: 0, ..p }
            &&& post.rename_input@.len() == 0
            &&& post_mode == AppMode::ProjectFileCreate
            &&& action is None
        } else if c == 'R' {
            &&& action is None
            &&& match selected_entry(p) {
                Some(entry) => {
                    &&& post_mode == AppMode::ProjectEntryRename
                    &&& name_offered(
                        ProjectState { entry_rename_path: Some(entry.path), ..p },
                        entry_name(os, entry.path@),
                        post,
                    )
                },
                None => post == p && post_mode == mode,
            }
        } else if c == 'k' {
            post == tree_selected(p, previous_selection(p.file_selected as int)) && post_mode
                == mode && action is None
        } else if c == 'j' {
            post == tree_selected(
                p,
                next_selection(p.file_selected as int, p.files@.len() as int),
            ) && post_mode == mode && action is None
        } else if c == 'x' {
            &&& post == p
            &&& post_mode == mode
            &&& action == match selected_entry(p) {
                Some(entry) => Some(UiAction::ConfirmDeleteProjectEntry(entry.path)),
                None => None,
            }
        } else {
            post == p && post_mode == mode && action is None
        },
        _ => post == p && post_mode == mode && action is None,
    }
}

/// Another entry of the file tree is selected.
pub open spec fn tree_selected(p: ProjectState, selected: int) -> ProjectState {
    ProjectState { file_selected: selected as usize, ..p }
}

fn tree_key(
    os: Platform,
    p: &mut ProjectState,
    mode: AppMode,
    key: KeyEvent,
) -> (r: (AppMode, Option<UiAction>))
    ensures
        tree_key_step(os, *old(p), mode, key, *final(p), r.0, r.1),
        boundary(old(p).rename_input@, old(p).rename_cursor as int) ==> boundary(
            final(p).rename_input@,
            final(p).rename_cursor as int,
        ),
        r.0 == mode || r.0 == AppMode::ProjectFileCreate || r.0 == AppMode::ProjectEntryRename,
{
    match key.code {
        KeyCode::Up => {
            p.file_selected = select_previous(p.file_selected);
            (mode, None)
        },
        KeyCode::Down => {
            p.file_selected = select_next(p.file_selected, p.files.len());
            (mode, None)
        },
        KeyCode::Enter | KeyCode::Right => match current_entry(p) {
            Some(entry) => {
                if entry.is_dir {
                    (
                        mode,
                        Some(UiAction::ListProjectFolder { path: entry.path, previous: None }),
                    )
                } else {
                    (mode, Some(UiAction::OpenProjectFile(entry.path)))
                }
            },
            None => (mode, None),
        },
        KeyCode::Char(c) => {
            if c == 'n' {
                p.rename_input = String::new();
                p.rename_cursor = 0;
                proof {
                    crate::text::lemma_ends(p.rename_input@);
                }
                (AppMode::ProjectFileCreate, None)
            } else if c == 'R' {
                match current_entry(p) {
                    Some(entry) => {
                        let name = name_of_entry(os, entry.path.as_str());
                        p.entry_rename_path = Some(entry.path);
                        offer_name(p, name);
                        (AppMode::ProjectEntryRename, None)
                    },
                    None => (mode, None),
                }
            } else if c == 'k' {
                p.file_selected = select_previous(p.file_selected);
                (mode, None)
            } else if c == 'j' {
                p.file_selected = select_next(p.file_selected, p.files.len());
                (mode, None)
            } else if c == 'x' {
                match current_entry(p) {
                    Some(entry) => (
                        mode,
                        Some(UiAction::ConfirmDeleteProjectEntry(entry.path)),
                    ),
                    None => (mode, None),
                }
            } else {
                (mode, None)
            }
        },
        _ => (mode, None),
    }
}

/// How many lines the build pane shows, and how far it can scroll.
pub open spec fn build_max_scroll(b: ProjectBuild) -> int {
    let shown = if b.show_raw { b.raw_log@.len() } else { b.diagnostics@.len() };
    let lines = if shown > 1 { shown as int } else { 1 };
    let height = if b.viewport_height > 1 { b.viewport_height as int } else { 1 };
    if lines > height {
        lines - height
    } else {
        0
    }
}

/// The rows of a page of the build pane.
pub open spec fn build_page(b: ProjectBuild) -> int {
    if b.viewport_height > 1 {
        b.viewport_height as int
    } else {
        1
    }
}

/// The build pane scrolled to `scroll`, not past its end.
pub open spec fn build_scrolled(b: ProjectBuild, scroll: int) -> ProjectBuild {
    ProjectBuild {
        scroll: (if scroll < build_max_scroll(b) { scroll } else { build_max_scroll(b) }) as usize,
        ..b
    }
}

/// One line up in the build pane: the raw log scrolls, diagnostics are
/// selected.
pub open spec fn build_up(b: ProjectBuild) -> ProjectBuild {
    if b.show_raw {
        ProjectBuild { scroll: less(b.scroll, 1), ..b }
    } else {
        ProjectBuild { selected: previous_selection(b.selected as int) as usize, ..b }
    }
}

/// One line down in the build pane.
pub open spec fn build_down(b: ProjectBuild) -> ProjectBuild {
    if b.show_raw {
        build_scrolled(b, b.scroll + 1)
    } else {
        ProjectBuild {
            selected: next_selection(b.selected as int, b.diagnostics@.len() as int) as usize,
            ..b
        }
    }
}

/// What a key of the build pane does to it; Tab and Enter are taken elsewhere.
pub open spec fn build_key_step(b: ProjectBuild, key: KeyEvent) -> ProjectBuild {
    match key.code {
        KeyCode::Up => build_up(b),
        KeyCode::Down => build_down(b),
        KeyCode::PageUp => ProjectBuild { scroll: less(b.scroll, build_page(b) as usize), ..b },
        KeyCode::PageDown => build_scrolled(b, b.scroll + build_page(b)),
        KeyCode::Home => ProjectBuild { scroll: 0, ..b },
        KeyCode::End => ProjectBuild { scroll: build_max_scroll(b) as usize, ..b },
        KeyCode::Char(c) => if c == 'r' {
            ProjectBuild { show_raw: !b.show_raw, scroll: 0, ..b }
        } else if c == 'k' {
            build_up(b)
        } else if c == 'j' {
            build_down(b)
        } else {
            b
        },
        _ => b,
    }
}

fn max_scroll(b: &ProjectBuild) -> (r: usize)
    ensures
        r == build_max_scroll(*b),
{
    let shown: usize = if b.show_raw { b.raw_log.len() } else { b.diagnostics.len() };
    let lines: usize = if shown > 1 { shown } else { 1 };
    let height: usize = if b.viewport_height > 1 { b.viewport_height } else { 1 };
    if lines > height {
        lines - height
    } else {
        0
    }
}

fn scroll_build(b: &mut ProjectBuild, by: usize)
    ensures
        *final(b) == build_scrolled(*old(b), old(b).scroll + by),
{
    let max: usize = max_scroll(b);
    if b.scroll < max && by < max - b.scroll {
        b.scroll = b.scroll + by;
    } else {
        b.scroll = max;
    }
}

fn build_line(b: &mut ProjectBuild, down: bool)
    ensures
        *final(b) == if down { build_down(*old(b)) } else { build_up(*old(b)) },
{
    if b.show_raw {
        if down {
            scroll_build(b, 1);
        } else {
            b.scroll = b.scroll.saturating_sub(1);
        }
    } else if down {
        b.selected = select_next(b.selected, b.diagnostics.len());
    } else {
        b.selected = select_previous(b.selected);
    }
}

fn build_key(b: &mut ProjectBuild, key: KeyEvent)
    ensures
        *final(b) == build_key_step(*old(b), key),
{
    let page: usize = if b.viewport_height > 1 { b.viewport_height } else { 1 };
    match key.code {
        KeyCode::Up => build_line(b, false),
        KeyCode::Down => build_line(b, true),
        KeyCode::PageUp => {
            b.scroll = b.scroll.saturating_sub(page);
        },
        KeyCode::PageDown => scroll_build(b, page),
        KeyCode::Home => {
            b.scroll = 0;
        },
        KeyCode::End => {
            b.scroll = max_scroll(b);
        },
        KeyCode::Char(c) => {
            if c == 'r' {
                b.show_raw = !b.show_raw;
                b.scroll = 0;
            } else if c == 'k' {
                build_line(b, false);
            } else if c == 'j' {
                build_line(b, true);
            }
        },
        _ => {},
    }
}

/// The build pane never scrolls past its last page.
pub proof fn law_build_scroll_is_bounded(b: ProjectBuild, by: int)
    requires
        0 <= by,
    ensures
        build_scrolled(b, b.scroll + by).scroll <= build_max_scroll(b),
{
}

/// The source that the selected diagnostic points to, and the line.
pub open spec fn diagnostic_source(app: App) -> Option<(Seq<char>, usize)> {
    let b = app.project_build;
    if b.selected < b.diagnostics@.len() {
        let d = b.diagnostics@[b.selected as int];
        match (d.file, d.line, app.project.active) {
            (Some(file), Some(line), Some(project)) => Some(
                (joined(app.platform, project.path@, file@), line),
            ),
            _ => None,
        }
    } else {
        None
    }
}

/// Asks for the source that the selected diagnostic points to.
pub fn jump_to_project_diagnostic(app: &App) -> (action: Option<UiAction>)
    ensures
        action is Some == diagnostic_source(*app) is Some,
        action matches Some(a) ==> (a matches UiAction::OpenDiagnostic { path, line } && (
            path@,
            line,
        ) == diagnostic_source(*app)->0),
{
    let b = &app.project_build;
    if b.selected >= b.diagnostics.len() {
        return None;
    }
    let d = &b.diagnostics[b.selected];
    match (&d.file, d.line, &app.project.active) {
        (Some(file), Some(line), Some(project)) => Some(
            UiAction::OpenDiagnostic {
                path: path_join(app.platform, project.path.as_str(), file.as_str()),
                line,
            },
        ),
        _ => None,
    }
}

/// What a key of the build pane does: Tab goes to the preview, and Enter to the
/// source of the selected diagnostic.
pub open spec fn build_pane_step(pre: App, key: KeyEvent, post: App, action: Option<UiAction>) -> bool {
    if key.code == KeyCode::Tab {
        post == pane_focused(pre, ProjectPane::Preview) && action is None
    } else if key.code == KeyCode::Enter && !pre.project_build.show_raw {
        &&& post == pre
        &&& action is Some == diagnostic_source(pre) is Some
        &&& action matches Some(a) ==> (a matches UiAction::OpenDiagnostic { path, line } && (
            path@,
            line,
        ) == diagnostic_source(pre)->0)
    } else {
        post == (App { project_build: build_key_step(pre.project_build, key), ..pre }) && action
            is None
    }
}

/// Handles a key of the build pane.
pub fn handle_project_build_key(app: &mut App, key: KeyEvent) -> (action: Option<UiAction>)
    ensures
        build_pane_step(*old(app), key, *final(app), action),
        old(app).wf() ==> final(app).wf(),
{
    if key.code == KeyCode::Tab {
        app.project.pane = ProjectPane::Preview;
        app.project_build.visible = false;
        return None;
    }
    if key.code == KeyCode::Enter && !app.project_build.show_raw {
        return jump_to_project_diagnostic(app);
    }
    build_key(&mut app.project_build, key);
    None
}

/// What a key of the preview does: Tab goes to the build pane, the others turn
/// pages.
pub open spec fn preview_key_step(pre: App, key: KeyEvent) -> App {
    let v = pre.pdf_viewer;
    match key.code {
        KeyCode::Tab => pane_focused(pre, ProjectPane::Build),
        KeyCode::Up | KeyCode::PageUp => App { pdf_viewer: page_shown(v, v.page - 1), ..pre },
        KeyCode::Down | KeyCode::PageDown => App { pdf_viewer: page_shown(v, v.page + 1), ..pre },
        KeyCode::Home => App { pdf_viewer: page_shown(v, 1), ..pre },
        KeyCode::End => App { pdf_viewer: page_shown(v, v.total_pages as int), ..pre },
        _ => pre,
    }
}

fn preview_page(v: &mut PdfViewerState, code: KeyCode)
    ensures
        *final(v) == match code {
            KeyCode::Up | KeyCode::PageUp => page_shown(*old(v), old(v).page - 1),
            KeyCode::Down | KeyCode::PageDown => page_shown(*old(v), old(v).page + 1),
            KeyCode::Home => page_shown(*old(v), 1),
            KeyCode::End => page_shown(*old(v), old(v).total_pages as int),
            _ => *old(v),
        },
{
    match code {
        KeyCode::Up | KeyCode::PageUp => crate::viewer::page_up(v),
        KeyCode::Down | KeyCode::PageDown => crate::viewer::page_down(v),
        KeyCode::Home => jump_to_page(v, 1),
        KeyCode::End => {
            let last: usize = v.total_pages;
            jump_to_page(v, last);
        },
        _ => {},
    }
}

/// Handles a key of the preview.
pub fn handle_project_preview_key(app: &mut App, key: KeyEvent)
    ensures
        *final(app) == preview_key_step(*old(app), key),
        old(app).wf() ==> final(app).wf(),
{
    if key.code == KeyCode::Tab {
        app.project.pane = ProjectPane::Build;
        app.project_build.visible = true;
    } else {
        preview_page(&mut app.pdf_viewer, key.code);
    }
}

/// What a key of a pane other than the editor does.
pub open spec fn pane_key_step(pre: App, key: KeyEvent, post: App, action: Option<UiAction>) -> bool {
    match pre.project.pane {
        ProjectPane::FileTree => {
            &&& post == App { project: post.project, mode: post.mode, ..pre }
            &&& tree_key_step(
                pre.platform,
                pre.project,
                pre.mode,
                key,
                post.project,
                post.mode,
                action,
            )
        },
        ProjectPane::Build => build_pane_step(pre, key, post, action),
        ProjectPane::Preview => post == preview_key_step(pre, key) && action is None,
        _ => post == pre && action is None,
    }
}

/// Handles a key of a pane other than the editor.
pub fn handle_project_workspace_pane_key(app: &mut App, key: KeyEvent) -> (action: Option<UiAction>)
    ensures
        pane_key_step(*old(app), key, *final(app), action),
        old(app).wf() ==> final(app).wf(),
{
    match app.project.pane {
        ProjectPane::FileTree => {
            let (mode, action) = tree_key(app.platform, &mut app.project, app.mode, key);
            app.mode = mode;
            action
        },
        ProjectPane::Build => handle_project_build_key(app, key),
        ProjectPane::Preview => {
            handle_project_preview_key(app, key);
            None
        },
        _ => None,
    }
}

/// What a key of the editor does: in the insert mode it types; otherwise `q`
/// quits the application, and the rest are editor commands.
pub open spec fn editor_key_step(
    pre: App,
    key: KeyEvent,
    post: App,
    action: Option<UiAction>,
) -> bool {
    if pre.project_editor.insert_mode {
        &&& post == App { project_editor: post.project_editor, ..pre }
        &&& insert_key_step(pre.project_editor, key, post.project_editor, action is Some)
        &&& action is Some ==> action == Some(UiAction::AcceptProjectCompletion)
    } else if key.code == KeyCode::Char('q') {
        post == App { should_quit: true, ..pre } && action is None
    } else {
        command_step_of_editor(pre, key, post, action)
    }
}

/// What a command key of the editor does; copied lines are reported.
pub open spec fn command_step_of_editor(
    pre: App,
    key: KeyEvent,
    post: App,
    action: Option<UiAction>,
) -> bool {
    let copied = match action {
        Some(UiAction::CopyText(text)) => Some(text@),
        _ => None,
    };
    &&& normal_key_step(pre.project_editor, key, pre.clock_ms, post.project_editor, copied)
    &&& copied is None ==> action is None && post == App {
        project_editor: post.project_editor,
        ..pre
    }
    &&& copied is Some ==> {
        &&& post == App { project_editor: post.project_editor, toast: post.toast, ..pre }
        &&& opt_text(post.toast) == Some("Yanked selected line(s)"@)
    }
}

/// Handles a key in the editor's normal mode; copied lines are reported.
pub fn handle_project_editor_normal_key(app: &mut App, key: KeyEvent) -> (action: Option<UiAction>)
    requires
        old(app).project_editor.wf(),
    ensures
        command_step_of_editor(*old(app), key, *final(app), action),
        old(app).wf() ==> final(app).wf(),
{
    let now: u64 = app.clock_ms;
    match handle_normal_key(&mut app.project_editor, key, now) {
        None => None,
        Some(text) => {
            app.toast = Some("Yanked selected line(s)".to_owned());
            Some(UiAction::CopyText(text))
        },
    }
}

/// Handles a key in the editor's insert mode.
pub fn handle_project_insert_key(app: &mut App, key: KeyEvent) -> (action: Option<UiAction>)
    requires
        old(app).project_editor.wf(),
    ensures
        *final(app) == (App { project_editor: final(app).project_editor, ..*old(app) }),
        insert_key_step(
            old(app).project_editor,
            key,
            final(app).project_editor,
            action is Some,
        ),
        action is Some ==> action == Some(UiAction::AcceptProjectCompletion),
        old(app).wf() ==> final(app).wf(),
{
    if handle_insert_key(&mut app.project_editor, key) {
        Some(UiAction::AcceptProjectCompletion)
    } else {
        None
    }
}

/// What a key of the projects page does.
pub open spec fn projects_key_step(
    pre: App,
    key: KeyEvent,
    post: App,
    action: Option<UiAction>,
) -> bool {
    let pane = pre.project.pane;
    if pane_for(key) is Some {
        pane_shortcut_step(pre, pane_for(key)->0, post) && action is None
    } else if pre.project.active is None || pane == ProjectPane::ProjectList {
        list_key_step(pre, key, post, action)
    } else if back_takes(pre, key) {
        back_step(pre, key, post, action)
    } else if control_char(key, 'f') {
        citation_search_opened(pre, post) && action is None
    } else if control_char(key, 's') && pane == ProjectPane::Editor && pre.project_editor.path
        is Some {
        post == pre && action == Some(UiAction::SaveProjectEditor(AfterSave::Stay))
    } else if pane == ProjectPane::Editor {
        editor_key_step(pre, key, post, action)
    } else if key.code == KeyCode::Char('q') {
        post == App { should_quit: true, ..pre } && action is None
    } else {
        pane_key_step(pre, key, post, action)
    }
}

fn handle_editor_key(app: &mut App, key: KeyEvent) -> (action: Option<UiAction>)
    requires
        old(app).project_editor.wf(),
    ensures
        editor_key_step(*old(app), key, *final(app), action),
        old(app).wf() ==> final(app).wf(),
{
    if app.project_editor.insert_mode {
        handle_project_insert_key(app, key)
    } else if key.code == KeyCode::Char('q') {
        app.should_quit = true;
        None
    } else {
        handle_project_editor_normal_key(app, key)
    }
}

/// Handles a key of the projects page.
pub fn handle_projects_key(app: &mut App, key: KeyEvent) -> (action: Option<UiAction>)
    requires
        old(app).wf(),
    ensures
        projects_key_step(*old(app), key, *final(app), action),
        final(app).wf(),
{
    if handle_project_pane_shortcut(app, key) {
        return None;
    }
    if app.project.active.is_none() || app.project.pane == ProjectPane::ProjectList {
        return handle_project_list_key(app, key);
    }
    let (handled, action) = handle_project_back_navigation(app, key);
    if handled {
        return action;
    }
    if is_control_character_shortcut(key, 'f') {
        open_citation_search(app);
        return None;
    }
    if is_control_character_shortcut(key, 's') && app.project.pane == ProjectPane::Editor
        && app.project_editor.path.is_some() {
        return Some(UiAction::SaveProjectEditor(AfterSave::Stay));
    }
    if app.project.pane == ProjectPane::Editor {
        return handle_editor_key(app, key);
    }
    if key.code == KeyCode::Char('q') {
        app.should_quit = true;
        return None;
    }
    handle_project_workspace_pane_key(app, key)
}

/// Alt and a digit never reach the editor, whatever mode it is in.
pub proof fn law_pane_shortcuts_never_reach_the_editor(
    pre: App,
    key: KeyEvent,
    post: App,
    action: Option<UiAction>,
)
    requires
        projects_key_step(pre, key, post, action),
        pane_for(key) is Some,
    ensures
        post.project_editor == pre.project_editor,
        action is None,
{
}

/// Control and `s` write the edited file in every mode of the editor, and leave
/// its text alone.
pub proof fn law_saving_works_in_every_mode(
    pre: App,
    key: KeyEvent,
    post: App,
    action: Option<UiAction>,
)
    requires
        projects_key_step(pre, key, post, action),
        control_char(key, 's'),
        pre.project.active is Some,
        pre.project.pane == ProjectPane::Editor,
        pre.project_editor.path is Some,
    ensures
        post == pre,
        action == Some(UiAction::SaveProjectEditor(AfterSave::Stay)),
{
}

/// A project with unsaved changes is not closed before they are written.
pub proof fn law_changes_are_saved_before_closing(
    pre: App,
    post: App,
    action: Option<UiAction>,
)
    requires
        project_close_step(pre, post, action),
        pre.project_editor.dirty,
        pre.project_editor.path is Some,
    ensures
        action == Some(UiAction::SaveProjectEditor(AfterSave::CloseProject)),
        post == pre,
{
}

/// Alt with 1, 2, 3 and 4 puts the focus on the file tree, the editor, the preview and the
/// build pane; one that is not there is refused with a word and keeps the focus where it is.
pub proof fn law_alt_digits_focus_their_pane(
    pre: App,
    key: KeyEvent,
    post: App,
    action: Option<UiAction>,
)
    requires
        projects_key_step(pre, key, post, action),
        key.modifiers.alt,
    ensures
        ({
            let open = pre.project.active is Some;
            let internal = pre.pdf_viewer.program@ == "internal"@;
            let editor = open && pre.project_editor.path is Some;
            &&& key.code == KeyCode::Char('1') && open ==> post.project.pane
                == ProjectPane::FileTree
            &&& key.code == KeyCode::Char('2') && editor ==> post.project.pane
                == ProjectPane::Editor
            &&& key.code == KeyCode::Char('3') && open && internal ==> post.project.pane
                == ProjectPane::Preview && !post.project_build.visible
            &&& key.code == KeyCode::Char('4') && open ==> post.project.pane == ProjectPane::Build
                && post.project_build.visible
            &&& key.code == KeyCode::Char('1') && !open ==> post.project == pre.project
            &&& key.code == KeyCode::Char('2') && !editor ==> post.project == pre.project
                && post.toast is Some
            &&& key.code == KeyCode::Char('3') && !(open && internal) ==> post.project
                == pre.project && post.toast is Some
            &&& key.code == KeyCode::Char('4') && !open ==> post.project == pre.project
        }),
{
}

/// In the list of projects Enter, Right and `l` open the selected one, `x` asks whether to
/// delete it, `R` offers its name to be changed, `n` asks for the name of a new one and `r`
/// reads the list anew; the arrows and `j` and `k` select another, and Left leaves the page.
pub proof fn law_project_list_keys(pre: App, key: KeyEvent, post: App, action: Option<UiAction>)
    requires
        list_key_step(pre, key, post, action),
        pre.project.selected < pre.project.projects@.len(),
    ensures
        ({
            let project = pre.project.projects@[pre.project.selected as int];
            let count = pre.project.projects@.len();
            let open = key.code == KeyCode::Enter || key.code == KeyCode::Right || key.code
                == KeyCode::Char('l');
            let down = key.code == KeyCode::Down || key.code == KeyCode::Char('j');
            let up = key.code == KeyCode::Up || key.code == KeyCode::Char('k');
            &&& open ==> action == Some(UiAction::OpenProject(project)) && post == pre
            &&& key.code == KeyCode::Char('x') ==> action == Some(
                UiAction::ConfirmDeleteProject(project),
            ) && post == pre
            &&& key.code == KeyCode::Char('R') ==> post.mode == AppMode::ProjectRename
                && post.project.rename_input@ == project.name@ && action is None
            &&& key.code == KeyCode::Char('n') ==> post.mode == AppMode::ProjectCreate
                && post.project.rename_input@.len() == 0 && action is None
            &&& key.code == KeyCode::Char('r') ==> action == Some(UiAction::RefreshProjects)
            &&& key.code == KeyCode::Char('q') ==> post.should_quit
            &&& key.code == KeyCode::Left ==> !post.content_focused
            &&& down && pre.project.selected + 1 < count ==> post.project.selected
                == pre.project.selected + 1
            &&& down && pre.project.selected + 1 == count ==> post.project.selected
                == pre.project.selected
            &&& up && pre.project.selected > 0 ==> post.project.selected == pre.project.selected
                - 1
            &&& up && pre.project.selected == 0 ==> post.project.selected == 0
            &&& !down && !up ==> post.project.selected == pre.project.selected
        }),
        post.project.projects == pre.project.projects,
{
    assert(pre.project.projects.len() == pre.project.projects@.len());
}

/// A new project starts with the configured compiler, and with LaTeX where none is set.
pub proof fn law_new_projects_take_the_configured_compiler(p: ProjectState, post: ProjectState)
    requires
        creation_opened(p, post),
    ensures
        p.default_compiler@.len() > 0 ==> post.create_compiler@ == p.default_compiler@,
        p.default_compiler@.len() == 0 ==> post.create_compiler@ == "latex"@,
        post.rename_input@.len() == 0,
        post.projects == p.projects,
{
}

/// In the file tree Enter and Right show the selected folder or open the selected file, `x`
/// asks whether to delete the entry, `R` offers its name to be changed and `n` asks for the
/// name of a new file; the arrows and `j` and `k` select another entry.
pub proof fn law_file_tree_keys(
    os: Platform,
    p: ProjectState,
    mode: AppMode,
    key: KeyEvent,
    post: ProjectState,
    post_mode: AppMode,
    action: Option<UiAction>,
)
    requires
        tree_key_step(os, p, mode, key, post, post_mode, action),
        p.file_selected < p.files@.len(),
    ensures
        ({
            let entry = p.files@[p.file_selected as int];
            let count = p.files@.len();
            let open = key.code == KeyCode::Enter || key.code == KeyCode::Right;
            let down = key.code == KeyCode::Down || key.code == KeyCode::Char('j');
            let up = key.code == KeyCode::Up || key.code == KeyCode::Char('k');
            &&& open && entry.is_dir ==> (action matches Some(
                UiAction::ListProjectFolder { path, previous },
            ) && path == entry.path && previous is None)
            &&& open && !entry.is_dir ==> action == Some(UiAction::OpenProjectFile(entry.path))
            &&& key.code == KeyCode::Char('x') ==> action == Some(
                UiAction::ConfirmDeleteProjectEntry(entry.path),
            )
            &&& key.code == KeyCode::Char('R') ==> post_mode == AppMode::ProjectEntryRename
                && post.entry_rename_path == Some(entry.path)
            &&& key.code == KeyCode::Char('n') ==> post_mode == AppMode::ProjectFileCreate
                && post.rename_input@.len() == 0
            &&& down && p.file_selected + 1 < count ==> post.file_selected == p.file_selected + 1
            &&& down && p.file_selected + 1 == count ==> post.file_selected == p.file_selected
            &&& up && p.file_selected > 0 ==> post.file_selected == p.file_selected - 1
            &&& up && p.file_selected == 0 ==> post.file_selected == 0
            &&& !open && key.code != KeyCode::Char('x') ==> action is None
        }),
        post.files == p.files,
        post.active == p.active,
{
    assert(p.files.len() == p.files@.len());
}

/// Escape in the editor first ends the insert mode, then a waiting command, then a selection;
/// none of these changes the text or leaves the editor.
pub proof fn law_escape_ends_what_the_editor_is_doing(
    pre: App,
    key: KeyEvent,
    post: App,
    action: Option<UiAction>,
)
    requires
        projects_key_step(pre, key, post, action),
        key.code == KeyCode::Esc,
        pre.project.active is Some,
        pre.project.pane == ProjectPane::Editor,
        pre.project_editor.insert_mode || pre.project_editor.pending_sequence is Some
            || pre.project_editor.visual_line_anchor is Some,
    ensures
        ({
            let (e, f) = (pre.project_editor, post.project_editor);
            &&& f.text == e.text && f.cursor == e.cursor && f.dirty == e.dirty
            &&& !f.insert_mode
            &&& e.insert_mode ==> f.pending_sequence == e.pending_sequence && f.visual_line_anchor
                == e.visual_line_anchor
            &&& !e.insert_mode && e.pending_sequence is Some ==> f.pending_sequence is None
                && f.visual_line_anchor == e.visual_line_anchor
            &&& !e.insert_mode && e.pending_sequence is None ==> f.visual_line_anchor is None
        }),
        post.project == pre.project,
        action is None,
{
}

/// Escape leads from a pane to the file tree, from the file tree out of the project, and
/// writes a changed file before it leaves the editor or the project.
pub proof fn law_escape_leads_out_of_the_project(
    pre: App,
    key: KeyEvent,
    post: App,
    action: Option<UiAction>,
)
    requires
        projects_key_step(pre, key, post, action),
        key.code == KeyCode::Esc,
        pre.project.active is Some,
        pre.project.pane != ProjectPane::ProjectList,
        !pre.project_editor.insert_mode,
        pre.project_editor.pending_sequence is None,
        pre.project_editor.visual_line_anchor is None,
    ensures
        ({
            let unsaved = pre.project_editor.dirty && pre.project_editor.path is Some;
            let pane = pre.project.pane;
            &&& pane == ProjectPane::Editor && unsaved ==> post == pre && action == Some(
                UiAction::SaveProjectEditor(AfterSave::ReturnToFileTree),
            )
            &&& pane == ProjectPane::Preview || pane == ProjectPane::Build || pane
                == ProjectPane::Editor && !unsaved ==> post.project.pane == ProjectPane::FileTree
                && action is None
            &&& pane == ProjectPane::FileTree && unsaved ==> post == pre && action == Some(
                UiAction::SaveProjectEditor(AfterSave::CloseProject),
            )
            &&& pane == ProjectPane::FileTree && !unsaved ==> action == Some(UiAction::CloseProject)
        }),
        post.project_editor.text == pre.project_editor.text,
{
}

/// A file that was written is no longer changed; what follows is what was asked for: the
/// editor stays, the file tree takes the focus, or the project closes.
pub proof fn law_saving_goes_on_as_asked(
    pre: App,
    after: AfterSave,
    post: App,
    action: Option<UiAction>,
)
    requires
        save_step(pre, Ok(()), after, post, action),
        pre.project_editor.path is Some,
    ensures
        !post.project_editor.dirty,
        post.project_editor.text == pre.project_editor.text,
        post.project_editor.cursor == pre.project_editor.cursor,
        after == AfterSave::Stay ==> action is None && post.project == pre.project,
        after == AfterSave::ReturnToFileTree ==> action is None && post.project.pane
            == ProjectPane::FileTree,
        after == AfterSave::CloseProject ==> action == Some(UiAction::CloseProject),
{
}

/// A project or an entry is found by its path: the first one that has it, and none only where
/// none has it.
pub proof fn law_projects_are_found_by_path(
    os: Platform,
    projects: Seq<Project>,
    path: Seq<char>,
    i: int,
)
    requires
        0 <= i <= projects.len(),
    ensures
        match project_at(os, projects, path, i) {
            Some(k) => i <= k < projects.len() && same_path(os, projects[k].path@, path)
                && forall|j: int|
                i <= j < k ==> !same_path(os, (#[trigger] projects[j]).path@, path),
            None => forall|j: int|
                i <= j < projects.len() ==> !same_path(os, (#[trigger] projects[j]).path@, path),
        },
    decreases projects.len() - i,
{
    if i < projects.len() && !same_path(os, projects[i].path@, path) {
        law_projects_are_found_by_path(os, projects, path, i + 1);
    }
}

/// An entry is found by its path: the first one that has it, and none only where none has it.
pub proof fn law_entries_are_found_by_path(
    os: Platform,
    entries: Seq<ProjectEntry>,
    path: Seq<char>,
    i: int,
)
    requires
        0 <= i <= entries.len(),
    ensures
        match entry_at(os, entries, path, i) {
            Some(k) => i <= k < entries.len() && same_path(os, entries[k].path@, path) && forall|
                j: int,
            |
                i <= j < k ==> !same_path(os, (#[trigger] entries[j]).path@, path),
            None => forall|j: int|
                i <= j < entries.len() ==> !same_path(os, (#[trigger] entries[j]).path@, path),
        },
    decreases entries.len() - i,
{
    if i < entries.len() && !same_path(os, entries[i].path@, path) {
        law_entries_are_found_by_path(os, entries, path, i + 1);
    }
}

/// A folder that is shown has its own entries, and the entry that was left is selected in it
/// where it is there.
pub proof fn law_folders_select_where_they_were_left(
    os: Platform,
    p: ProjectState,
    path: Seq<char>,
    previous: Option<Seq<char>>,
    entries: Seq<ProjectEntry>,
    post: ProjectState,
)
    requires
        folder_listed(os, p, path, previous, entries, post),
    ensures
        post.files@ == entries,
        post.tree_dir is Some && post.tree_dir->0@ == path,
        previous is None ==> post.file_selected == 0,
        previous matches Some(entry) ==> (exists|i: int|
            0 <= i < entries.len() && same_path(os, (#[trigger] entries[i]).path@, entry))
            ==> post.file_selected < entries.len() && same_path(
            os,
            entries[post.file_selected as int].path@,
            entry,
        ),
        post.active == p.active,
{
    assert(post.files.len() == post.files@.len());
    if let Some(entry) = previous {
        law_entries_are_found_by_path(os, entries, entry, 0);
    }
}

/// In the build pane the arrows and `j` and `k` select another diagnostic, or scroll the log
/// where that is shown; `r` switches between the two and Tab goes to the preview.
pub proof fn law_build_pane_keys(pre: App, key: KeyEvent, post: App, action: Option<UiAction>)
    requires
        build_pane_step(pre, key, post, action),
    ensures
        ({
            let (b, c) = (pre.project_build, post.project_build);
            let count = b.diagnostics@.len();
            let down = key.code == KeyCode::Down || key.code == KeyCode::Char('j');
            let up = key.code == KeyCode::Up || key.code == KeyCode::Char('k');
            &&& down && !b.show_raw && b.selected + 1 < count ==> c.selected == b.selected + 1
            &&& down && !b.show_raw && b.selected + 1 == count ==> c.selected == b.selected
            &&& up && !b.show_raw && b.selected > 0 ==> c.selected == b.selected - 1
            &&& up && b.show_raw && b.scroll > 0 ==> c.scroll == b.scroll - 1
            &&& down && b.show_raw && b.scroll + (if b.viewport_height > 1 {
                b.viewport_height as int
            } else {
                1
            }) < b.raw_log@.len() ==> c.scroll == b.scroll + 1
            &&& (down || up) && b.show_raw ==> c.selected == b.selected
            &&& key.code == KeyCode::Char('r') ==> c.show_raw == !b.show_raw && c.scroll == 0
            &&& key.code != KeyCode::Char('r') ==> c.show_raw == b.show_raw
            &&& key.code == KeyCode::Home ==> c.scroll == 0
            &&& key.code == KeyCode::Tab ==> post.project.pane == ProjectPane::Preview
            &&& c.diagnostics == b.diagnostics && c.raw_log == b.raw_log
        }),
{
    assert(pre.project_build.diagnostics.len() == pre.project_build.diagnostics@.len());
    assert(pre.project_build.raw_log.len() == pre.project_build.raw_log@.len());
}

/// Enter on a diagnostic asks for its line of its file in the open project.
pub proof fn law_enter_jumps_to_the_diagnostic(
    pre: App,
    key: KeyEvent,
    post: App,
    action: Option<UiAction>,
)
    requires
        build_pane_step(pre, key, post, action),
        key.code == KeyCode::Enter,
        !pre.project_build.show_raw,
        pre.project_build.selected < pre.project_build.diagnostics@.len(),
    ensures
        ({
            let d = pre.project_build.diagnostics@[pre.project_build.selected as int];
            let known = d.file is Some && d.line is Some && pre.project.active is Some;
            &&& known ==> (action matches Some(UiAction::OpenDiagnostic { path, line }) && line
                == d.line->0 && path@ == joined(
                pre.platform,
                pre.project.active->0.path@,
                d.file->0@,
            ))
            &&& !known ==> action is None
        }),
        post == pre,
{
}

/// In the preview Down and PageDown show the next page and Up and PageUp the one before, as
/// far as there is one; Home and End show the first and the last, and Tab goes to the build
/// pane.
pub proof fn law_preview_keys(pre: App, key: KeyEvent)
    requires
        1 <= pre.pdf_viewer.page <= pre.pdf_viewer.total_pages,
    ensures
        ({
            let (v, w) = (pre.pdf_viewer, preview_key_step(pre, key).pdf_viewer);
            let down = key.code == KeyCode::Down || key.code == KeyCode::PageDown;
            let up = key.code == KeyCode::Up || key.code == KeyCode::PageUp;
            &&& down && v.page < v.total_pages ==> w.page == v.page + 1
            &&& down && v.page == v.total_pages ==> w.page == v.page
            &&& up && v.page > 1 ==> w.page == v.page - 1
            &&& up && v.page == 1 ==> w.page == 1
            &&& key.code == KeyCode::Home ==> w.page == 1
            &&& key.code == KeyCode::End ==> w.page == v.total_pages
            &&& w.path == v.path && w.total_pages == v.total_pages
            &&& key.code == KeyCode::Tab ==> preview_key_step(pre, key).project.pane
                == ProjectPane::Build && w == v
        }),
        preview_key_step(pre, key).project_editor == pre.project_editor,
{
}

/// Going back from a folder shows the one above it, and never leaves the project.
pub proof fn law_left_shows_the_folder_above(
    pre: App,
    key: KeyEvent,
    post: App,
    action: Option<UiAction>,
)
    requires
        back_step(pre, key, post, action),
        pre.project.pane == ProjectPane::FileTree,
        key.code == KeyCode::Left,
        pre.project.active is Some,
        pre.project.tree_dir is Some,
    ensures
        action matches Some(UiAction::ListProjectFolder { path, previous }) ==> {
            &&& parent(pre.platform, pre.project.tree_dir->0@) == Some(path@)
            &&& is_below(pre.platform, path@, pre.project.active->0.path@)
            &&& previous == pre.project.tree_dir
            &&& post == pre
        },
        same_path(pre.platform, pre.project.tree_dir->0@, pre.project.active->0.path@) ==> !(
        action matches Some(UiAction::ListProjectFolder { path, previous })),
{
}

} // verus!
