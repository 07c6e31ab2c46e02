//! Which part of the application a key belongs to.

use vstd::prelude::*;
use crate::actions::UiAction;
use crate::chars::{blank, is_blank, trimmed};
use crate::citations::{citation_key_step, handle_project_citation_search_key};
use crate::dialogs::{
    confirm_key_step, detail_key_step, handle_confirm_delete_key, handle_modal_key,
    handle_paper_detail_key, handle_project_name_modal_key, modal_key_step, name_key_step,
};
use crate::discovery::{
    filter_focused, filter_key_step, focus_filter, focus_search, handle_discover_filter_key,
    handle_search_key, last_page, law_last_page_holds_the_last_result, query_takes, remote_matches,
    request_search, retry_message, search_focused, search_key_step, search_requested,
    shown_results,
};
use crate::filters::{visible_bookmarks, visible_papers};
use crate::keys::{KeyCode, KeyEvent, KeyEventKind};
use crate::model::{clone_text, opt_text, PaperTarget};
use crate::navigation::{
    command_for, command_step, handle_command_palette_key, handle_help_key, handle_sidebar_key,
    handle_workspace_search_key, help_key_step, help_toggled,
    law_move_commands_move_the_shown_selection, moves_by_one, navigation_command,
    normalize_panel_navigation, normalized_key, palette_key_step, palette_toggled,
    search_bar_key_step, sidebar_key_step,
};
use crate::papers::{
    author_key_step, author_takes, bookmark_action, bookmark_key_action, collection_key_step,
    collection_takes, credits_key_action, dashboard_takes, download_menu_shown, download_takes,
    downloads_key_action, handle_author_key, handle_collection_key, handle_credits_key,
    handle_dashboard_key, handle_downloads_key, handle_notes_key, handle_reading_queue_key,
    handle_selected_paper_shortcut, is_open_key, library_action, library_key_action,
    law_open_keys_open_the_selected_paper, law_paper_keys_ask_for_the_selected_paper,
    law_shortcuts_ask_for_the_selected_paper, library_metadata_key, local_selection,
    notes_key_action, opens, opens_remote, paper_selected, queue_key_action,
    selected_remote_paper, shortcut_step, shortcut_takes,
};
use crate::project_editor::{
    editor_active, has_active_text_input, is_project_editor_active, is_text_paste_shortcut,
    paste_clipboard_into_active_input, paste_clipboard_step, paste_shortcut, paste_text_step,
    paste_wanted, pasted_field, text_input_active, typing_mode, wants_paste,
};
use crate::projects::{handle_projects_key, projects_key_step};
use crate::select::law_picked;
use crate::state::{
    pages, App, AppMode, Command, DiscoveryState, Page, ProjectPane, TerminalPalette,
};
use crate::terminal::{handle_terminal_palette_key, terminal_key_step};
use crate::text::{group_points, same_text};
use crate::viewer::{handle_pdf_viewer_key, pdf_key_step};

verus! {

broadcast use group_points;

/// The terminal palette opens empty, in the folder of the open project or at
/// home.
pub open spec fn terminal_opened(pre: App, post: App) -> bool {
    let t = post.terminal;
    &&& post == App { mode: AppMode::TerminalCommand, terminal: t, ..pre }
    &&& t == TerminalPalette {
        command: t.command,
        cursor: 0,
        output: t.output,
        directory: if pre.page == Page::Projects && pre.project.pane != ProjectPane::ProjectList {
            match pre.project.active {
                Some(project) => Some(project.path),
                None => None,
            }
        } else {
            pre.home_directory
        },
        completions: t.completions,
        completion_selected: None,
        completion_token_start: 0,
        completion_applied: false,
    }
    &&& t.command@.len() == 0
    &&& t.output@.len() == 0
    &&& t.completions@.len() == 0
}

fn terminal_directory(app: &App) -> (r: Option<String>)
    ensures
        r == if app.page == Page::Projects && app.project.pane != ProjectPane::ProjectList {
            match app.project.active {
                Some(project) => Some(project.path),
                None => None,
            }
        } else {
            app.home_directory
        },
{
    if app.page == Page::Projects && app.project.pane != ProjectPane::ProjectList {
        match &app.project.active {
            Some(project) => Some(project.path.clone()),
            None => None,
        }
    } else {
        clone_text(&app.home_directory)
    }
}

fn open_terminal(app: &mut App)
    ensures
        terminal_opened(*old(app), *final(app)),
        old(app).wf() ==> final(app).wf(),
{
    let directory = terminal_directory(app);
    app.mode = AppMode::TerminalCommand;
    app.terminal = TerminalPalette {
        command: String::new(),
        cursor: 0,
        output: String::new(),
        directory,
        completions: Vec::new(),
        completion_selected: None,
        completion_token_start: 0,
        completion_applied: false,
    };
    proof {
        crate::text::lemma_ends(app.terminal.command@);
    }
}

/// Whether a mode takes every key by itself.
pub open spec fn mode_takes(mode: AppMode) -> bool {
    match mode {
        AppMode::Normal | AppMode::PaperDetail | AppMode::PdfView => false,
        _ => true,
    }
}

/// What a key does in a mode that takes every key.
pub open spec fn mode_key_step(pre: App, key: KeyEvent, post: App, action: Option<UiAction>) -> bool {
    match pre.mode {
        AppMode::ProjectRename | AppMode::ProjectCreate | AppMode::ProjectFileCreate
        | AppMode::ProjectEntryRename => {
            &&& post == App {
                project: post.project,
                mode: if key.code == KeyCode::Esc || key.code == KeyCode::Enter {
                    AppMode::Normal
                } else {
                    pre.mode
                },
                ..pre
            }
            &&& name_key_step(pre.project, pre.mode, key, post.project, action)
        },
        AppMode::CommandPalette => palette_key_step(pre, key, post) && action is None,
        AppMode::TerminalCommand => {
            &&& post == App {
                terminal: post.terminal,
                mode: if key.code == KeyCode::Esc { AppMode::Normal } else { pre.mode },
                ..pre
            }
            &&& terminal_key_step(pre.terminal, key, post.terminal, action)
        },
        AppMode::Help => post == help_key_step(pre, key) && action is None,
        AppMode::NoteEdit | AppMode::Prompt => modal_key_step(pre, key, post, action),
        AppMode::ConfirmDelete => confirm_key_step(pre, key, post, action),
        AppMode::Search => search_key_step(pre, key, post, action),
        AppMode::DiscoverFilter => filter_key_step(pre, key, post) && action is None,
        AppMode::WorkspaceSearch => search_bar_key_step(pre, key, post) && action is None,
        AppMode::ProjectCitationSearch => {
            &&& post == App {
                citation_search: post.citation_search,
                mode: if key.code == KeyCode::Esc { AppMode::Normal } else { pre.mode },
                ..pre
            }
            &&& citation_key_step(
                pre.citation_search,
                pre.library.papers@,
                key,
                post.citation_search,
                action,
            )
        },
        _ => false,
    }
}

/// The cursor of the online search stays on a character boundary, except that a
/// search which is started cuts the query short.
pub open spec fn search_cursor_kept(pre: App, post: App, action: Option<UiAction>) -> bool {
    pre.search_cursor_ok() && !(action is Some && action->0 is Search) ==> post.search_cursor_ok()
}

/// Gives a key to the mode, where that takes every key; `r.0` says whether it
/// does.
pub fn handle_active_mode_key(app: &mut App, key: KeyEvent) -> (r: (bool, Option<UiAction>))
    requires
        old(app).wf(),
        old(app).mode == AppMode::Search ==> query_takes(old(app).discovery, key),
    ensures
        r.0 == mode_takes(old(app).mode),
        r.0 ==> mode_key_step(*old(app), key, *final(app), r.1),
        !r.0 ==> *final(app) == *old(app) && r.1 is None,
        final(app).wf(),
        search_cursor_kept(*old(app), *final(app), r.1),
{
    match app.mode {
        AppMode::ProjectRename | AppMode::ProjectCreate | AppMode::ProjectFileCreate
        | AppMode::ProjectEntryRename => (true, handle_project_name_modal_key(app, key)),
        AppMode::CommandPalette => {
            handle_command_palette_key(app, key);
            (true, None)
        },
        AppMode::TerminalCommand => (true, handle_terminal_palette_key(app, key)),
        AppMode::Help => {
            handle_help_key(app, key);
            (true, None)
        },
        AppMode::NoteEdit | AppMode::Prompt => (true, handle_modal_key(app, key)),
        AppMode::ConfirmDelete => (true, handle_confirm_delete_key(app, key)),
        AppMode::Search => (true, handle_search_key(app, key)),
        AppMode::DiscoverFilter => (true, handle_discover_filter_key(app, key)),
        AppMode::WorkspaceSearch => (true, handle_workspace_search_key(app, key)),
        AppMode::ProjectCitationSearch => (true, handle_project_citation_search_key(app, key)),
        _ => (false, None),
    }
}

/// The online search opens with its field focused.
pub open spec fn discover_opened(app: App) -> App {
    search_focused(App { page: Page::Discover, sidebar_index: 1, content_focused: true, ..app })
}

/// Whether a key is taken before the arrows are read as panel navigation.
pub open spec fn raw_takes(app: App, key: KeyEvent) -> bool {
    let control = key.modifiers.control;
    ||| app.page == Page::Discover && control && (key.code == KeyCode::Right || key.code
        == KeyCode::Left)
    ||| control && key.code == KeyCode::Char('b')
    ||| key.code == KeyCode::Char('/') && !(editor_active(app) && app.project_editor.insert_mode)
    ||| app.page == Page::Projects && app.content_focused
    ||| leaves_results(app, key)
}

/// Whether a key leads from the results of the online search to the sidebar.
pub open spec fn leaves_results(app: App, key: KeyEvent) -> bool {
    app.page == Page::Discover && app.content_focused && app.mode == AppMode::Normal
        && app.discovery.results@.len() > 0 && key.code == KeyCode::Left
}

/// What such a key does: it turns pages of results, opens the palette or the
/// online search, belongs to the projects page or leaves the results.
pub open spec fn raw_key_step(pre: App, key: KeyEvent, post: App, action: Option<UiAction>) -> bool {
    let control = key.modifiers.control;
    let d = pre.discovery;
    if pre.page == Page::Discover && control && key.code == KeyCode::Right {
        &&& post == App { discovery: post.discovery, ..pre }
        &&& post.discovery == if d.page < last_page(shown_results(d).len() as int) {
            DiscoveryState { page: (d.page + 1) as usize, selected: 0, scroll: 0, ..d }
        } else {
            d
        }
        &&& action is None
    } else if pre.page == Page::Discover && control && key.code == KeyCode::Left {
        &&& post == App { discovery: post.discovery, ..pre }
        &&& post.discovery == if d.page > 0 {
            DiscoveryState { page: (d.page - 1) as usize, selected: 0, scroll: 0, ..d }
        } else {
            d
        }
        &&& action is None
    } else if control && key.code == KeyCode::Char('b') {
        palette_toggled(pre, post) && action is None
    } else if key.code == KeyCode::Char('/') && !(editor_active(pre)
        && pre.project_editor.insert_mode) {
        post == discover_opened(pre) && action is None
    } else if pre.page == Page::Projects && pre.content_focused {
        projects_key_step(pre, key, post, action)
    } else {
        post == App { content_focused: false, ..pre } && action is None
    }
}

/// Handles the keys that are taken before the arrows are read as panel
/// navigation; `r.0` says whether the key is one.
pub fn handle_raw_workspace_key(app: &mut App, key: KeyEvent) -> (r: (bool, Option<UiAction>))
    requires
        old(app).wf(),
    ensures
        r.0 == raw_takes(*old(app), key),
        r.0 ==> raw_key_step(*old(app), key, *final(app), r.1),
        !r.0 ==> *final(app) == *old(app) && r.1 is None,
        final(app).wf(),
        search_cursor_kept(*old(app), *final(app), r.1),
{
    let control = key.modifiers.control;
    if app.page == Page::Discover && control && key.code == KeyCode::Right {
        app.discovery.next_page();
        return (true, None);
    }
    if app.page == Page::Discover && control && key.code == KeyCode::Left {
        app.discovery.previous_page();
        return (true, None);
    }
    if control && key.code == KeyCode::Char('b') {
        app.dispatch(Command::TogglePalette);
        return (true, None);
    }
    if key.code == KeyCode::Char('/') && !(is_project_editor_active(app)
        && app.project_editor.insert_mode) {
        app.page = Page::Discover;
        app.sidebar_index = 1;
        app.content_focused = true;
        focus_search(app);
        return (true, None);
    }
    if app.page == Page::Projects && app.content_focused {
        return (true, handle_projects_key(app, key));
    }
    if app.page == Page::Discover && app.content_focused && app.mode == AppMode::Normal
        && app.discovery.results.len() > 0 && key.code == KeyCode::Left {
        app.content_focused = false;
        return (true, None);
    }
    (false, None)
}

/// Whether a key is taken before the focused page sees it.
pub open spec fn navigation_takes(app: App, key: KeyEvent) -> bool {
    ||| key.modifiers.control && command_for(key) is Some
    ||| app.mode == AppMode::PaperDetail
    ||| !app.content_focused
}

/// What such a key does: a command with Control, a key of the details of a
/// paper, or a key of the sidebar.
pub open spec fn navigation_key_step(
    pre: App,
    key: KeyEvent,
    post: App,
    action: Option<UiAction>,
) -> bool {
    if key.modifiers.control && command_for(key) is Some {
        command_step(pre, command_for(key)->0, post) && action is None
    } else if pre.mode == AppMode::PaperDetail {
        detail_key_step(pre, key, post, action)
    } else {
        sidebar_key_step(pre, key, post) && action is None
    }
}

/// Handles the keys that are taken before the focused page sees them; `r.0`
/// says whether the key is one.
pub fn handle_navigation_key(app: &mut App, key: KeyEvent) -> (r: (bool, Option<UiAction>))
    requires
        old(app).wf(),
    ensures
        r.0 == navigation_takes(*old(app), key),
        r.0 ==> navigation_key_step(*old(app), key, *final(app), r.1),
        !r.0 ==> *final(app) == *old(app) && r.1 is None,
        final(app).wf(),
{
    if key.modifiers.control {
        if let Some(command) = navigation_command(key) {
            app.dispatch(command);
            return (true, None);
        }
    }
    if app.mode == AppMode::PaperDetail {
        return (true, handle_paper_detail_key(app, key));
    }
    if !app.content_focused {
        handle_sidebar_key(app, key);
        return (true, None);
    }
    (false, None)
}

/// Whether `r` repeats what filled the page.
pub open spec fn refresh_takes(app: App, key: KeyEvent) -> bool {
    key.code == KeyCode::Char('r') && (app.page == Page::Library || app.page == Page::Discover
        && !is_blank(app.discovery.query@))
}

/// Whether the rest of the results is still to be loaded after a failure.
pub open spec fn rest_failed(d: DiscoveryState) -> bool {
    d.next_batch_start is Some && opt_text(d.progress_message) == Some(retry_message())
}

/// `r` indexes the library again, loads the rest of the results where that
/// failed, and otherwise repeats the search.
pub open spec fn refresh_step(pre: App, post: App, action: Option<UiAction>) -> bool {
    if pre.page == Page::Library {
        post == pre && action == Some(UiAction::Reindex)
    } else if rest_failed(pre.discovery) {
        post == pre && action == Some(UiAction::RetryDiscoverMore)
    } else {
        search_requested(pre, post, action)
    }
}

fn has_failed_rest(d: &DiscoveryState) -> (r: bool)
    ensures
        r == rest_failed(*d),
{
    if d.next_batch_start.is_none() {
        return false;
    }
    match &d.progress_message {
        Some(message) => same_text(
            message.as_str(),
            "More results could not be loaded. Press r to retry.",
        ),
        None => false,
    }
}

fn refresh(app: &mut App, key: KeyEvent) -> (r: (bool, Option<UiAction>))
    ensures
        r.0 == refresh_takes(*old(app), key),
        r.0 ==> refresh_step(*old(app), *final(app), r.1),
        !r.0 ==> *final(app) == *old(app) && r.1 is None,
        old(app).wf() ==> final(app).wf(),
        search_cursor_kept(*old(app), *final(app), r.1),
{
    if key.code != KeyCode::Char('r') {
        return (false, None);
    }
    if app.page == Page::Library {
        return (true, Some(UiAction::Reindex));
    }
    if app.page == Page::Discover && !blank(app.discovery.query.as_str()) {
        if has_failed_rest(&app.discovery) {
            return (true, Some(UiAction::RetryDiscoverMore));
        }
        return (true, request_search(app));
    }
    (false, None)
}

/// Whether a page of papers answers a key with what its selection offers.
pub open spec fn page_answers(app: App, key: KeyEvent) -> bool {
    ||| app.page == Page::Collections && collection_takes(app, key.code)
    ||| app.page == Page::Authors && author_takes(app, key.code)
    ||| bookmark_key_action(app, key.code) is Some
    ||| notes_key_action(app, key.code) is Some
    ||| queue_key_action(app, key) is Some
    ||| credits_key_action(app, key.code) is Some
    ||| app.page == Page::Discover && (key.code == KeyCode::Char('>')
        && app.discovery.results@.len() > 0 || opens(key.code))
}

/// What a page of papers answers.
pub open spec fn page_answer_step(
    pre: App,
    key: KeyEvent,
    post: App,
    action: Option<UiAction>,
) -> bool {
    match pre.page {
        Page::Collections => collection_key_step(pre, key.code, post, (true, action)),
        Page::Authors => author_key_step(pre, key.code, post, (true, action)),
        Page::Bookmarks => post == pre && action == bookmark_key_action(pre, key.code),
        Page::Notes => post == pre && action == notes_key_action(pre, key.code),
        Page::ReadingQueue => post == pre && action == queue_key_action(pre, key),
        Page::Credits => {
            &&& post == pre
            &&& action matches Some(UiAction::OpenBrowser(url)) && Some(url@)
                == credits_key_action(pre, key.code)
        },
        _ => if key.code == KeyCode::Char('>') {
            post == filter_focused(pre) && action is None
        } else {
            post == pre && opens_remote(pre, action)
        },
    }
}

fn answer_on_page(app: &mut App, key: KeyEvent) -> (r: (bool, Option<UiAction>))
    ensures
        r.0 == page_answers(*old(app), key),
        r.0 ==> page_answer_step(*old(app), key, *final(app), r.1),
        !r.0 ==> *final(app) == *old(app) && r.1 is None,
        old(app).wf() ==> final(app).wf(),
{
    match app.page {
        Page::Collections => handle_collection_key(app, key),
        Page::Authors => handle_author_key(app, key),
        Page::Bookmarks => {
            let action = bookmark_action(app, key);
            (action.is_some(), action)
        },
        Page::Notes => {
            let action = handle_notes_key(app, key);
            (action.is_some(), action)
        },
        Page::ReadingQueue => {
            let action = handle_reading_queue_key(app, key);
            (action.is_some(), action)
        },
        Page::Credits => {
            let action = handle_credits_key(app, key);
            (action.is_some(), action)
        },
        Page::Discover => {
            if key.code == KeyCode::Char('>') && app.discovery.results.len() > 0 {
                focus_filter(app);
                (true, None)
            } else if is_open_key(key.code) {
                match selected_remote_paper(app) {
                    Some(paper) => (true, Some(UiAction::OpenPaper(paper.clone()))),
                    None => (true, None),
                }
            } else {
                (false, None)
            }
        },
        _ => (false, None),
    }
}

/// What a key does that nothing else took: it is a command; Up at the first
/// result of the online search leads to its filter, or to its field when there
/// are no results.
pub open spec fn last_command_step(pre: App, key: KeyEvent, post: App) -> bool {
    match command_for(key) {
        None => post == pre,
        Some(command) => if pre.page == Page::Discover && command == Command::MoveUp
            && pre.discovery.selected == 0 {
            post == if pre.discovery.results@.len() == 0 {
                App { mode: AppMode::Search, ..pre }
            } else {
                filter_focused(pre)
            }
        } else {
            command_step(pre, command, post)
        },
    }
}

fn last_command(app: &mut App, key: KeyEvent)
    requires
        old(app).wf(),
    ensures
        last_command_step(*old(app), key, *final(app)),
        final(app).wf(),
{
    if let Some(command) = navigation_command(key) {
        if app.page == Page::Discover && command == Command::MoveUp && app.discovery.selected
            == 0 {
            if app.discovery.results.len() == 0 {
                app.mode = AppMode::Search;
            } else {
                focus_filter(app);
            }
        } else {
            app.dispatch(command);
        }
    }
}

/// What a key does on the library and downloads pages, and what it does as a
/// command otherwise.
pub open spec fn file_page_step(pre: App, key: KeyEvent, post: App, action: Option<UiAction>) -> bool {
    if download_takes(pre, key.code) {
        &&& downloads_key_action(pre, key.code, action)
        &&& post == App {
            modal_return: if download_menu_shown(pre, key.code) {
                AppMode::Normal
            } else {
                pre.modal_return
            },
            ..pre
        }
    } else {
        let ready = App {
            modal_return: if library_metadata_key(pre, key.code) {
                AppMode::Normal
            } else {
                pre.modal_return
            },
            ..pre
        };
        if library_key_action(pre, key.code) is Some {
            post == ready && action == library_key_action(pre, key.code)
        } else {
            last_command_step(ready, key, post) && action is None
        }
    }
}

fn handle_file_page_key(app: &mut App, key: KeyEvent) -> (action: Option<UiAction>)
    requires
        old(app).wf(),
    ensures
        file_page_step(*old(app), key, *final(app), action),
        final(app).wf(),
{
    let action = handle_downloads_key(app, key);
    if action.is_some() {
        return action;
    }
    let action = library_action(app, key);
    if action.is_some() {
        return action;
    }
    last_command(app, key);
    None
}

/// What a key does on a page that has the focus.
pub open spec fn focused_key_step(
    pre: App,
    key: KeyEvent,
    post: App,
    action: Option<UiAction>,
) -> bool {
    if refresh_takes(pre, key) {
        refresh_step(pre, post, action)
    } else if shortcut_takes(pre, key.code) {
        shortcut_step(pre, key.code, post, action)
    } else if dashboard_takes(pre, key.code) {
        post == pre && opens_remote(pre, action)
    } else if page_answers(pre, key) {
        page_answer_step(pre, key, post, action)
    } else {
        file_page_step(pre, key, post, action)
    }
}

/// Handles a key on a page that has the focus.
pub fn handle_focused_workspace_key(app: &mut App, key: KeyEvent) -> (action: Option<UiAction>)
    requires
        old(app).wf(),
    ensures
        focused_key_step(*old(app), key, *final(app), action),
        final(app).wf(),
        search_cursor_kept(*old(app), *final(app), action),
{
    let (handled, action) = refresh(app, key);
    if handled {
        return action;
    }
    let (handled, action) = handle_selected_paper_shortcut(app, key);
    if handled {
        return action;
    }
    let (handled, action) = handle_dashboard_key(app, key);
    if handled {
        return action;
    }
    let (handled, action) = answer_on_page(app, key);
    if handled {
        return action;
    }
    handle_file_page_key(app, key)
}

/// What a key does once it is known to be neither a shortcut that works
/// everywhere nor a paste.
pub open spec fn routed_key_step(
    pre: App,
    key: KeyEvent,
    post: App,
    action: Option<UiAction>,
) -> bool {
    let panel_key = normalized_key(key);
    if mode_takes(pre.mode) {
        mode_key_step(pre, key, post, action)
    } else if raw_takes(pre, key) {
        raw_key_step(pre, key, post, action)
    } else if navigation_takes(pre, panel_key) {
        navigation_key_step(pre, panel_key, post, action)
    } else {
        focused_key_step(pre, panel_key, post, action)
    }
}

/// Hands a key to the mode, the sidebar or the page that it belongs to.
pub fn route_key(app: &mut App, key: KeyEvent) -> (action: Option<UiAction>)
    requires
        old(app).wf(),
        old(app).mode == AppMode::Search ==> query_takes(old(app).discovery, key),
    ensures
        routed_key_step(*old(app), key, *final(app), action),
        final(app).wf(),
        search_cursor_kept(*old(app), *final(app), action),
{
    let (handled, action) = handle_active_mode_key(app, key);
    if handled {
        return action;
    }
    let (handled, action) = handle_raw_workspace_key(app, key);
    if handled {
        return action;
    }
    let panel_key = normalize_panel_navigation(key);
    let (handled, action) = handle_navigation_key(app, panel_key);
    if handled {
        return action;
    }
    handle_focused_workspace_key(app, panel_key)
}

/// Whether a key event counts: presses do, and repeats in the embedded viewer.
pub open spec fn key_counts(app: App, key: KeyEvent) -> bool {
    key.kind == KeyEventKind::Press || key.kind == KeyEventKind::Repeat && app.mode
        == AppMode::PdfView
}

/// What a key does.
pub open spec fn key_step(pre: App, key: KeyEvent, post: App, action: Option<UiAction>) -> bool {
    if !key_counts(pre, key) {
        post == pre && action is None
    } else if pre.mode == AppMode::PdfView {
        pdf_key_step(pre, key, post, action)
    } else if key.modifiers.control && key.code == KeyCode::Char('t') {
        terminal_opened(pre, post) && action is None
    } else if key.code == KeyCode::Char('?') && !text_input_active(pre) {
        post == help_toggled(pre) && action is None
    } else if paste_shortcut(key) && paste_wanted(pre) {
        post == pre && action == Some(UiAction::PasteClipboard)
    } else {
        routed_key_step(pre, key, post, action)
    }
}

/// Handles a key: changes the state, and says what is to be done outside it.
pub fn handle_key(app: &mut App, key: KeyEvent) -> (action: Option<UiAction>)
    requires
        old(app).wf(),
        old(app).mode == AppMode::Search && key_counts(*old(app), key) ==> query_takes(
            old(app).discovery,
            key,
        ),
    ensures
        key_step(*old(app), key, *final(app), action),
        final(app).wf(),
        search_cursor_kept(*old(app), *final(app), action),
{
    if key.kind == KeyEventKind::Release {
        return None;
    }
    if key.kind == KeyEventKind::Repeat && app.mode != AppMode::PdfView {
        return None;
    }
    if app.mode == AppMode::PdfView {
        return handle_pdf_viewer_key(app, key);
    }
    if key.modifiers.control && key.code == KeyCode::Char('t') {
        open_terminal(app);
        return None;
    }
    if key.code == KeyCode::Char('?') && !has_active_text_input(app) {
        app.dispatch(Command::ToggleHelp);
        return None;
    }
    if is_text_paste_shortcut(key) && wants_paste(app) {
        return Some(UiAction::PasteClipboard);
    }
    route_key(app, key)
}

/// What the paste shortcut does once the clipboard has been read: it pastes,
/// and where no field takes the text the key is taken like any other.
pub open spec fn paste_key_step(
    pre: App,
    key: KeyEvent,
    clipboard: Option<Seq<char>>,
    post: App,
    action: Option<UiAction>,
) -> bool {
    exists|pasted: App, r: (bool, Option<UiAction>)| #[trigger]
        paste_clipboard_step(pre, clipboard, pasted, r) && if r.0 {
            post == pasted && action == r.1
        } else {
            routed_key_step(pasted, key, post, action)
        }
}

/// Goes on with the paste shortcut once the clipboard has been read.
pub fn finish_paste(app: &mut App, key: KeyEvent, clipboard: Option<String>) -> (action: Option<
    UiAction,
>)
    requires
        old(app).wf(),
        old(app).mode == AppMode::Search ==> old(app).search_cursor_ok(),
    ensures
        paste_key_step(*old(app), key, opt_text(clipboard), *final(app), action),
        final(app).wf(),
        search_cursor_kept(*old(app), *final(app), action),
{
    let (over, action) = paste_clipboard_into_active_input(app, clipboard);
    if over {
        return action;
    }
    route_key(app, key)
}

/// Released keys, and repeated ones outside the embedded viewer, do nothing.
pub proof fn law_only_presses_count(pre: App, key: KeyEvent, post: App, action: Option<UiAction>)
    requires
        key_step(pre, key, post, action),
        key.kind == KeyEventKind::Release || key.kind == KeyEventKind::Repeat && pre.mode
            != AppMode::PdfView,
    ensures
        post == pre,
        action is None,
{
}

/// `?` opens the help from everywhere but a text field, and from there leads
/// back to where it was pressed.
pub proof fn law_help_is_global(pre: App, key: KeyEvent, post: App, action: Option<UiAction>)
    requires
        key_step(pre, key, post, action),
        key.kind == KeyEventKind::Press,
        key.code == KeyCode::Char('?'),
        !key.modifiers.control,
        !text_input_active(pre),
        pre.mode != AppMode::Help,
    ensures
        action is None,
        post.mode == AppMode::Help,
        post.help_return_mode == pre.mode,
        post == (App {
            mode: AppMode::Help,
            help_return_mode: pre.mode,
            help_scroll: 0,
            ..pre
        }),
{
}

/// A text field keeps `?` as a character: the help does not open over it, and
/// the query of the citation search takes the character at its cursor.
pub proof fn law_text_fields_keep_the_question_mark(
    pre: App,
    key: KeyEvent,
    post: App,
    action: Option<UiAction>,
)
    requires
        key_step(pre, key, post, action),
        key.kind == KeyEventKind::Press,
        key.code == KeyCode::Char('?'),
        !key.modifiers.control,
        text_input_active(pre),
        pre.mode != AppMode::PdfView,
    ensures
        routed_key_step(pre, key, post, action),
        typing_mode(pre.mode) ==> post.mode != AppMode::Help,
        pre.mode == AppMode::ProjectCitationSearch ==> post.mode == pre.mode && pasted_field(
            pre.citation_search.query@,
            pre.citation_search.cursor as int,
            seq!['?'],
            post.citation_search.query@,
            post.citation_search.cursor as int,
        ),
{
}

/// Once the clipboard has been read, its text goes into the field that has the
/// focus, and the editor of a project below that field stays as it is.
pub proof fn law_paste_shortcut_reaches_the_focused_field(
    pre: App,
    key: KeyEvent,
    clipboard: Seq<char>,
    post: App,
    action: Option<UiAction>,
)
    requires
        paste_key_step(pre, key, Some(clipboard), post, action),
        clipboard.len() > 0,
        typing_mode(pre.mode),
    ensures
        post.project_editor == pre.project_editor,
        pre.mode != AppMode::NoteEdit && pre.mode != AppMode::Prompt ==> paste_text_step(
            pre,
            clipboard,
            post,
            (true, None),
        ) && action is None,
        pre.mode == AppMode::Prompt && pre.metadata_prompt is Some ==> paste_text_step(
            pre,
            clipboard,
            post,
            (true, None),
        ) && action is None,
        pre.mode == AppMode::NoteEdit && pre.notes.editor is Some && !pre.notes.preview
            ==> paste_text_step(pre, clipboard, post, (true, None)) && action is None,
{
}

/// A key without Control is pressed while a page has the focus and nothing lies over it.
pub open spec fn pressed_on_page(pre: App, key: KeyEvent) -> bool {
    &&& key.kind == KeyEventKind::Press
    &&& !key.modifiers.control
    &&& pre.mode == AppMode::Normal
    &&& pre.content_focused
    &&& pre.page != Page::Projects
}

/// Pressed on a page of papers, `c` copies the citation of the selected paper, `n` opens
/// its note, `B` bookmarks it, `g` asks for its group, `R` renames its file and `x` asks
/// whether to delete it.
pub proof fn law_pressed_keys_reach_the_selected_paper(
    pre: App,
    key: KeyEvent,
    post: App,
    action: Option<UiAction>,
    id: i64,
    title: String,
    path: Option<String>,
)
    requires
        key_step(pre, key, post, action),
        pressed_on_page(pre, key),
        paper_selected(pre, id, title, path),
    ensures
        key.code == KeyCode::Char('c') ==> action == Some(
            UiAction::CopyCitation(PaperTarget::Local(id)),
        ),
        key.code == KeyCode::Char('n') ==> action == Some(
            UiAction::OpenNote(PaperTarget::Local(id)),
        ),
        key.code == KeyCode::Char('B') ==> action == Some(
            UiAction::Bookmark(PaperTarget::Local(id)),
        ),
        key.code == KeyCode::Char('g') ==> action == Some(UiAction::Prompt(PaperTarget::Local(id))),
        key.code == KeyCode::Char('R') ==> action == Some(UiAction::RenamePdf(id)),
        key.code == KeyCode::Char('x') ==> action == Some(
            UiAction::ConfirmDeletePaper { paper_id: id, title, path },
        ),
{
    if key.code is Char {
        let c = key.code->Char_0;
        if c == 'c' || c == 'n' || c == 'B' || c == 'g' || c == 'R' || c == 'x' {
            assert(focused_key_step(pre, key, post, action));
            law_paper_keys_ask_for_the_selected_paper(pre, key, post, action, id, title, path);
        }
    }
}

/// Pressed on a page of papers, Enter, Right and `l` open the file of the selected paper.
pub proof fn law_pressed_keys_open_the_selected_paper(
    pre: App,
    key: KeyEvent,
    post: App,
    action: Option<UiAction>,
    id: i64,
    title: String,
    path: String,
)
    requires
        key_step(pre, key, post, action),
        pressed_on_page(pre, key),
        paper_selected(pre, id, title, Some(path)),
        pre.page != Page::Downloads,
        key.code == KeyCode::Enter || key.code == KeyCode::Right || key.code == KeyCode::Char('l'),
    ensures
        action == Some(UiAction::OpenPdf { paper_id: id, path }),
{
    let panel_key = normalized_key(key);
    assert(focused_key_step(pre, panel_key, post, action));
    law_open_keys_open_the_selected_paper(pre, panel_key, post, action, id, title, Some(path));
}

/// Pressed on a page of papers, `u` marks the selected paper unread, and `a` puts it on the
/// reading queue or, where it is there, takes it off.
pub proof fn law_pressed_shortcuts_reach_the_selected_paper(
    pre: App,
    key: KeyEvent,
    post: App,
    action: Option<UiAction>,
    id: i64,
    title: String,
    path: Option<String>,
)
    requires
        key_step(pre, key, post, action),
        pressed_on_page(pre, key),
        paper_selected(pre, id, title, path),
        key.code == KeyCode::Char('u') || key.code == KeyCode::Char('a'),
    ensures
        post == pre,
        ({
            let queued = exists|i: int|
                0 <= i < pre.reading_queue.papers@.len()
                    && (#[trigger] pre.reading_queue.papers@[i]).id == id;
            &&& key.code == KeyCode::Char('u') ==> action == Some(UiAction::MarkUnread(id))
            &&& key.code == KeyCode::Char('a') && queued ==> action == Some(
                UiAction::RemoveFromQueue(id),
            )
            &&& key.code == KeyCode::Char('a') && !queued ==> action == Some(
                UiAction::AddToQueue(id),
            )
        }),
{
    assert(local_selection(pre) == Some(id));
    assert(focused_key_step(pre, key, post, action));
    law_shortcuts_ask_for_the_selected_paper(pre, key.code, post, action);
}

/// `r` indexes the library again; in the online search it asks for the same query once more,
/// or for the rest of the results where only these failed.
pub proof fn law_pressed_refresh(pre: App, key: KeyEvent, post: App, action: Option<UiAction>)
    requires
        key_step(pre, key, post, action),
        pressed_on_page(pre, key),
        key.code == KeyCode::Char('r'),
    ensures
        pre.page == Page::Library ==> post == pre && action == Some(UiAction::Reindex),
        pre.page == Page::Discover && !is_blank(pre.discovery.query@) ==> action is Some && (action
            == Some(UiAction::RetryDiscoverMore) || (action matches Some(UiAction::Search(q)) && q@
            == trimmed(pre.discovery.query@))),
        pre.page == Page::Discover && !is_blank(pre.discovery.query@) ==> (action == Some(
            UiAction::RetryDiscoverMore,
        ) <==> pre.discovery.next_batch_start is Some && pre.discovery.progress_message is Some
            && pre.discovery.progress_message->0@
            == "More results could not be loaded. Press r to retry."@),
{
    assert(focused_key_step(pre, key, post, action) || pre.page != Page::Library && pre.page
        != Page::Discover);
}

/// `q` quits from the sidebar and from the pages, and from nothing that takes every key.
pub proof fn law_pressed_quit(pre: App, key: KeyEvent, post: App, action: Option<UiAction>)
    requires
        key_step(pre, key, post, action),
        key.kind == KeyEventKind::Press,
        !key.modifiers.control,
        key.code == KeyCode::Char('q'),
        pre.mode == AppMode::Normal,
        !pre.content_focused || pre.page == Page::Library || pre.page == Page::Discover || pre.page
            == Page::Dashboard || pre.page == Page::Notes || pre.page == Page::ReadingQueue
            || pre.page == Page::Credits,
    ensures
        post.should_quit,
        action is None,
        post.page == pre.page,
        post.mode == pre.mode,
{
}

/// Down and `j` select the next entry of the page that has the focus, Up and `k` the one
/// before.
pub proof fn law_pressed_arrows_move_the_selection(
    pre: App,
    key: KeyEvent,
    post: App,
    action: Option<UiAction>,
)
    requires
        key_step(pre, key, post, action),
        pressed_on_page(pre, key),
        !key.modifiers.shift,
        pre.page == Page::Notes || pre.page == Page::ReadingQueue || pre.page == Page::Bookmarks
            || pre.page == Page::Dashboard,
        key.code == KeyCode::Down || key.code == KeyCode::Char('j') || key.code == KeyCode::Up
            || key.code == KeyCode::Char('k'),
    ensures
        ({
            let down = key.code == KeyCode::Down || key.code == KeyCode::Char('j');
            let query = pre.workspace_search.query@;
            &&& pre.page == Page::Notes ==> moves_by_one(
                pre.notes.selected,
                post.notes.selected,
                visible_papers(query, pre.notes.papers@).len() as int,
                down,
            )
            &&& pre.page == Page::ReadingQueue ==> moves_by_one(
                pre.reading_queue.selected,
                post.reading_queue.selected,
                visible_papers(query, pre.reading_queue.papers@).len() as int,
                down,
            )
            &&& pre.page == Page::Bookmarks ==> moves_by_one(
                pre.bookmarks.selected,
                post.bookmarks.selected,
                visible_bookmarks(query, pre.bookmarks.items@).len() as int,
                down,
            )
            &&& pre.page == Page::Dashboard ==> moves_by_one(
                pre.today.selected,
                post.today.selected,
                pre.today.papers@.len() as int,
                down,
            )
        }),
        action is None,
        post.page == pre.page,
{
    let down = key.code == KeyCode::Down || key.code == KeyCode::Char('j');
    let command = if down {
        Command::MoveDown
    } else {
        Command::MoveUp
    };
    assert(focused_key_step(pre, key, post, action));
    assert(last_command_step(pre, key, post));
    law_move_commands_move_the_shown_selection(pre, command, post);
}

/// Control with `t` opens the terminal over everything but the embedded viewer, with an
/// empty command.
pub proof fn law_terminal_opens_everywhere(
    pre: App,
    key: KeyEvent,
    post: App,
    action: Option<UiAction>,
)
    requires
        key_step(pre, key, post, action),
        key.kind == KeyEventKind::Press,
        key.modifiers.control,
        key.code == KeyCode::Char('t'),
        pre.mode != AppMode::PdfView,
    ensures
        post.mode == AppMode::TerminalCommand,
        post.terminal.command@.len() == 0,
        post.terminal.output@.len() == 0,
        pre.page != Page::Projects ==> post.terminal.directory == pre.home_directory,
        post.page == pre.page,
        post.project_editor == pre.project_editor,
        action is None,
{
}

/// Outside the texts that take every key, Control with `b` opens the palette, and `/` opens
/// the online search with the cursor at the end of its query.
pub proof fn law_palette_and_search_open_everywhere(
    pre: App,
    key: KeyEvent,
    post: App,
    action: Option<UiAction>,
)
    requires
        key_step(pre, key, post, action),
        key.kind == KeyEventKind::Press,
        pre.mode == AppMode::Normal,
    ensures
        key.modifiers.control && key.code == KeyCode::Char('b') ==> post.mode
            == AppMode::CommandPalette && post.palette.query@.len() == 0 && action is None,
        !key.modifiers.control && key.code == KeyCode::Char('/') && !pre.project_editor.insert_mode
            ==> post.page == Page::Discover && post.mode == AppMode::Search && post.content_focused
            && pages()[post.sidebar_index as int] == Page::Discover && post.discovery.query
            == pre.discovery.query && action is None,
{
}

/// Control with Right and Left turn the pages of the results, one at a time, as far as
/// there are results, and select the first of the page.
pub proof fn law_control_turns_the_pages_of_results(
    pre: App,
    key: KeyEvent,
    post: App,
    action: Option<UiAction>,
)
    requires
        key_step(pre, key, post, action),
        key.kind == KeyEventKind::Press,
        key.modifiers.control,
        pre.mode == AppMode::Normal,
        pre.page == Page::Discover,
        key.code == KeyCode::Right || key.code == KeyCode::Left,
    ensures
        ({
            let count = shown_results(pre.discovery).len();
            let page = pre.discovery.page;
            let more = 50 * (page + 1) < count;
            &&& key.code == KeyCode::Right && more ==> post.discovery.page == page + 1
            &&& key.code == KeyCode::Right && !more ==> post == pre
            &&& key.code == KeyCode::Left && page > 0 ==> post.discovery.page == page - 1
            &&& key.code == KeyCode::Left && page == 0 ==> post == pre
            &&& post.discovery.page != page ==> post.discovery.selected == 0
        }),
        post.discovery.results == pre.discovery.results,
        action is None,
{
    let count = shown_results(pre.discovery).len() as int;
    law_last_page_holds_the_last_result(count);
    let mask = Seq::new(
        pre.discovery.results@.len(),
        |i: int| remote_matches(pre.discovery.filter@, pre.discovery.results@[i]),
    );
    assert(pre.discovery.results.len() == pre.discovery.results@.len());
    law_picked(mask);
}

/// On the Credits page Enter asks for the selected address in the browser.
pub proof fn law_credits_open_in_the_browser(
    pre: App,
    key: KeyEvent,
    post: App,
    action: Option<UiAction>,
)
    requires
        key_step(pre, key, post, action),
        pressed_on_page(pre, key),
        pre.page == Page::Credits,
        key.code == KeyCode::Enter,
        pre.credits_selected < 2,
    ensures
        post == pre,
        action matches Some(UiAction::OpenBrowser(url)) && url@ == if pre.credits_selected == 0 {
            "https://github.com/AfrozSaqlain/Papr"@
        } else {
            "https://arxiv.org"@
        },
{
}

} // verus!
