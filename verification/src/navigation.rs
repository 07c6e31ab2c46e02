//! The sidebar, the command map and the overlays that every page shares.

use vstd::prelude::*;
use crate::actions::UiAction;
use crate::discovery::{page_len, selected_result, shown_results};
use crate::filters::{
    author_matches, bookmark_matches, collection_items, download_matches, page_matches,
    paper_matches, query_of, visible_authors, visible_bookmarks, visible_downloads, visible_pages,
    visible_papers,
};
use crate::keys::{KeyCode, KeyEvent};
use crate::model::CreditsItem;
use crate::select::{
    law_picked, next_selection, previous_selection, select_next, select_previous,
};
use crate::state::{
    pages, App, AppMode, AuthorsState, BookmarksState, CollectionsState, Command, DiscoveryState,
    DownloadsState, LibraryState, NotesState, Page, Palette, ReadingQueueState, TodayState,
    WorkspaceSearch, PAGE_COUNT,
};
use crate::text::{boundary, group_points, index};
use crate::text_edit::{
    buffer, edit_text, edited, edits, law_edit_keeps_cursor_valid,
    law_editing_keys_change_one_character,
};

verus! {

broadcast use group_points;

/// How many pages the Credits page links to.
pub const CREDITS_COUNT: usize = 2;

/// The address that entry `i` of the Credits page links to.
pub open spec fn credits_url(i: int) -> Seq<char> {
    if i == 0 {
        "https://github.com/AfrozSaqlain/Papr"@
    } else {
        "https://arxiv.org"@
    }
}

/// The entries of the Credits page.
pub fn credits_items() -> (r: Vec<CreditsItem>)
    ensures
        r@.len() == CREDITS_COUNT,
        forall|i: int| 0 <= i < r@.len() ==> (#[trigger] r@[i]).url@ == credits_url(i),
{
    let mut r: Vec<CreditsItem> = Vec::new();
    r.push(
        CreditsItem {
            label: "Papr".to_owned(),
            url: "https://github.com/AfrozSaqlain/Papr".to_owned(),
        },
    );
    r.push(CreditsItem { label: "arXiv".to_owned(), url: "https://arxiv.org".to_owned() });
    r
}

/// The command that a key stands for in the shared command map.
pub open spec fn command_for(key: KeyEvent) -> Option<Command> {
    match key.code {
        KeyCode::Down => Some(Command::MoveDown),
        KeyCode::Up => Some(Command::MoveUp),
        KeyCode::Enter | KeyCode::Right => Some(Command::Open),
        KeyCode::Left => Some(Command::Back),
        KeyCode::Char(c) => if c == 'b' && key.modifiers.control {
            Some(Command::TogglePalette)
        } else if c == '>' {
            Some(Command::ToggleWorkspaceSearch)
        } else if c == 'j' {
            Some(Command::MoveDown)
        } else if c == 'k' {
            Some(Command::MoveUp)
        } else if c == 'l' {
            Some(Command::Open)
        } else if c == 'h' {
            Some(Command::Back)
        } else if c == '?' {
            Some(Command::ToggleHelp)
        } else if c == 'q' {
            Some(Command::Quit)
        } else {
            None
        },
        _ => None,
    }
}

/// The command that a key stands for in the shared command map.
pub fn navigation_command(key: KeyEvent) -> (r: Option<Command>)
    ensures
        r == command_for(key),
{
    match key.code {
        KeyCode::Down => Some(Command::MoveDown),
        KeyCode::Up => Some(Command::MoveUp),
        KeyCode::Enter | KeyCode::Right => Some(Command::Open),
        KeyCode::Left => Some(Command::Back),
        KeyCode::Char(c) => if c == 'b' && key.modifiers.control {
            Some(Command::TogglePalette)
        } else if c == '>' {
            Some(Command::ToggleWorkspaceSearch)
        } else if c == 'j' {
            Some(Command::MoveDown)
        } else if c == 'k' {
            Some(Command::MoveUp)
        } else if c == 'l' {
            Some(Command::Open)
        } else if c == 'h' {
            Some(Command::Back)
        } else if c == '?' {
            Some(Command::ToggleHelp)
        } else if c == 'q' {
            Some(Command::Quit)
        } else {
            None
        },
        _ => None,
    }
}

/// The key with the horizontal arrows written as `h` and `l`.
pub open spec fn normalized_key(key: KeyEvent) -> KeyEvent {
    KeyEvent {
        code: match key.code {
            KeyCode::Left => KeyCode::Char('h'),
            KeyCode::Right => KeyCode::Char('l'),
            code => code,
        },
        ..key
    }
}

/// The key with the horizontal arrows written as `h` and `l`.
pub fn normalize_panel_navigation(key: KeyEvent) -> (r: KeyEvent)
    ensures
        r == normalized_key(key),
{
    let code = match key.code {
        KeyCode::Left => KeyCode::Char('h'),
        KeyCode::Right => KeyCode::Char('l'),
        code => code,
    };
    KeyEvent { code, modifiers: key.modifiers, kind: key.kind }
}

/// Arrows and letters move between panels alike.
pub proof fn law_normalized_keys_command_alike(key: KeyEvent)
    ensures
        command_for(normalized_key(key)) == command_for(key),
{
}

/// Help opens over any mode and remembers it; toggling again goes back to it.
pub open spec fn help_toggled(app: App) -> App {
    if app.mode == AppMode::Help {
        App { mode: app.help_return_mode, ..app }
    } else {
        App { mode: AppMode::Help, help_return_mode: app.mode, help_scroll: 0, ..app }
    }
}

/// Opening and closing the help brings everything back but its own state.
pub proof fn law_help_returns_to_the_mode(app: App)
    requires
        app.mode != AppMode::Help,
    ensures
        help_toggled(help_toggled(app)) == (App {
            help_return_mode: app.mode,
            help_scroll: 0,
            ..app
        }),
{
}

/// The command palette opens empty; toggling again closes it.
pub open spec fn palette_toggled(pre: App, post: App) -> bool {
    if pre.mode == AppMode::CommandPalette {
        post == App { mode: AppMode::Normal, ..pre }
    } else {
        &&& post == App {
            mode: AppMode::CommandPalette,
            palette: post.palette,
            ..pre
        }
        &&& post.palette.is_initial()
    }
}

/// Whether a page has a search bar of its own.
pub open spec fn has_search_bar(page: Page) -> bool {
    match page {
        Page::Library | Page::Downloads | Page::Collections | Page::Authors | Page::Bookmarks
        | Page::Notes | Page::ReadingQueue => true,
        _ => false,
    }
}

/// The search bar of the page takes the focus.
pub open spec fn search_bar_opened(pre: App, post: App) -> bool {
    if has_search_bar(pre.page) {
        &&& post == App {
            mode: AppMode::WorkspaceSearch,
            content_focused: true,
            workspace_search: WorkspaceSearch {
                active: post.workspace_search.active,
                ..pre.workspace_search
            },
            ..pre
        }
        &&& post.workspace_search.active.wf()
        &&& post.workspace_search.active@ == pre.workspace_search.active@.insert(pre.page)
    } else {
        post == pre
    }
}

/// The selection `selected` of a list of `len` entries, one up or down.
pub open spec fn stepped(selected: usize, len: int, down: bool) -> usize {
    if down {
        next_selection(selected as int, len) as usize
    } else {
        previous_selection(selected as int) as usize
    }
}

/// The selection of the shown page, one up or down.
pub open spec fn page_selection_moved(app: App, down: bool) -> App {
    let query = query_of(app);
    match app.page {
        Page::Dashboard => App {
            today: TodayState {
                selected: stepped(app.today.selected, app.today.papers@.len() as int, down),
                ..app.today
            },
            ..app
        },
        Page::Discover => App {
            discovery: DiscoveryState {
                selected: stepped(
                    app.discovery.selected,
                    page_len(shown_results(app.discovery).len() as int, app.discovery.page as int),
                    down,
                ),
                ..app.discovery
            },
            ..app
        },
        Page::Library => App {
            library: LibraryState {
                selected: stepped(
                    app.library.selected,
                    visible_papers(query, app.library.papers@).len() as int,
                    down,
                ),
                ..app.library
            },
            ..app
        },
        Page::ReadingQueue => App {
            reading_queue: ReadingQueueState {
                selected: stepped(
                    app.reading_queue.selected,
                    visible_papers(query, app.reading_queue.papers@).len() as int,
                    down,
                ),
                ..app.reading_queue
            },
            ..app
        },
        Page::Collections => if app.collections.active is Some {
            App {
                collections: CollectionsState {
                    paper_selected: stepped(
                        app.collections.paper_selected,
                        visible_papers(query, app.collections.papers@).len() as int,
                        down,
                    ),
                    ..app.collections
                },
                ..app
            }
        } else {
            App {
                collections: CollectionsState {
                    selected: stepped(
                        app.collections.selected,
                        collection_items(app).len() as int,
                        down,
                    ),
                    ..app.collections
                },
                ..app
            }
        },
        Page::Downloads => App {
            downloads: DownloadsState {
                selected: stepped(
                    app.downloads.selected,
                    visible_downloads(query, app.downloads.items@).len() as int,
                    down,
                ),
                ..app.downloads
            },
            ..app
        },
        Page::Bookmarks => App {
            bookmarks: BookmarksState {
                selected: stepped(
                    app.bookmarks.selected,
                    visible_bookmarks(query, app.bookmarks.items@).len() as int,
                    down,
                ),
                ..app.bookmarks
            },
            ..app
        },
        Page::Authors => if app.authors.active is Some {
            App {
                authors: AuthorsState {
                    paper_selected: stepped(
                        app.authors.paper_selected,
                        visible_papers(query, app.authors.papers@).len() as int,
                        down,
                    ),
                    ..app.authors
                },
                ..app
            }
        } else {
            App {
                authors: AuthorsState {
                    selected: stepped(
                        app.authors.selected,
                        visible_authors(query, app.authors.items@).len() as int,
                        down,
                    ),
                    ..app.authors
                },
                ..app
            }
        },
        Page::Notes => App {
            notes: NotesState {
                selected: stepped(
                    app.notes.selected,
                    visible_papers(query, app.notes.papers@).len() as int,
                    down,
                ),
                ..app.notes
            },
            ..app
        },
        Page::Credits => App {
            credits_selected: stepped(app.credits_selected, CREDITS_COUNT as int, down),
            ..app
        },
        _ => app,
    }
}

/// The selection one up or down: in the sidebar, whose page is shown at once,
/// or in the page that has the focus.
pub open spec fn selection_moved(app: App, down: bool) -> App {
    if app.content_focused {
        page_selection_moved(app, down)
    } else {
        let index = stepped(app.sidebar_index, PAGE_COUNT as int, down);
        App { sidebar_index: index, page: pages()[index as int], ..app }
    }
}

/// Whether the page shows a paper whose details can be opened.
pub open spec fn has_remote_selection(app: App) -> bool {
    match app.page {
        Page::Dashboard => app.today.selected < app.today.papers@.len(),
        Page::Discover => selected_result(app.discovery) is Some,
        _ => false,
    }
}

/// Open: from the sidebar into the selected page, with its search bar where
/// that was left open; in a page of remote papers into the details.
pub open spec fn opened(app: App) -> App {
    if !app.content_focused {
        let page = pages()[app.sidebar_index as int];
        App {
            page,
            content_focused: true,
            mode: if app.workspace_search.active@.contains(page) {
                AppMode::WorkspaceSearch
            } else {
                AppMode::Normal
            },
            ..app
        }
    } else if has_remote_selection(app) {
        App { mode: AppMode::PaperDetail, paper_detail_scroll: 0, ..app }
    } else {
        app
    }
}

/// Back: out of the details, or out of the page into the sidebar.
pub open spec fn gone_back(app: App) -> App {
    if app.mode == AppMode::PaperDetail {
        App { mode: AppMode::Normal, ..app }
    } else {
        App { content_focused: false, ..app }
    }
}

/// What a command does.
pub open spec fn command_step(pre: App, command: Command, post: App) -> bool {
    match command {
        Command::Quit => post == App { should_quit: true, ..pre },
        Command::MoveUp => post == selection_moved(pre, false),
        Command::MoveDown => post == selection_moved(pre, true),
        Command::Open => post == opened(pre),
        Command::Back => post == gone_back(pre),
        Command::TogglePalette => palette_toggled(pre, post),
        Command::ToggleHelp => post == help_toggled(pre),
        Command::ToggleWorkspaceSearch => search_bar_opened(pre, post),
    }
}

/// Going back to the sidebar and opening again shows the same page with
/// everything that it showed.
pub proof fn law_back_and_open_return_to_the_page(app: App)
    requires
        app.sidebar_index < PAGE_COUNT,
        app.page == pages()[app.sidebar_index as int],
        app.content_focused,
        app.mode == AppMode::Normal,
        !app.workspace_search.active@.contains(app.page),
    ensures
        opened(gone_back(app)) == app,
{
}

fn step(selected: usize, len: usize, down: bool) -> (r: usize)
    ensures
        r == stepped(selected, len as int, down),
{
    if down {
        select_next(selected, len)
    } else {
        select_previous(selected)
    }
}

fn move_page_selection(app: &mut App, down: bool)
    ensures
        *final(app) == page_selection_moved(*old(app), down),
        old(app).wf() ==> final(app).wf(),
{
    match app.page {
        Page::Dashboard => {
            app.today.selected = step(app.today.selected, app.today.papers.len(), down);
        },
        Page::Discover => {
            let len: usize = app.discovery.visible_page_len();
            app.discovery.selected = step(app.discovery.selected, len, down);
        },
        Page::Library => {
            let len: usize = app.filtered_library_papers().len();
            app.library.selected = step(app.library.selected, len, down);
        },
        Page::ReadingQueue => {
            let len: usize = app.filtered_reading_queue_papers().len();
            app.reading_queue.selected = step(app.reading_queue.selected, len, down);
        },
        Page::Collections => {
            if app.collections.active.is_some() {
                let len: usize = app.filtered_collection_papers().len();
                app.collections.paper_selected = step(app.collections.paper_selected, len, down);
            } else {
                let len: usize = app.filtered_collections().len();
                app.collections.selected = step(app.collections.selected, len, down);
            }
        },
        Page::Downloads => {
            let len: usize = app.filtered_downloads().len();
            app.downloads.selected = step(app.downloads.selected, len, down);
        },
        Page::Bookmarks => {
            let len: usize = app.filtered_bookmarks().len();
            app.bookmarks.selected = step(app.bookmarks.selected, len, down);
        },
        Page::Authors => {
            if app.authors.active.is_some() {
                let len: usize = app.filtered_author_papers().len();
                app.authors.paper_selected = step(app.authors.paper_selected, len, down);
            } else {
                let len: usize = app.filtered_authors().len();
                app.authors.selected = step(app.authors.selected, len, down);
            }
        },
        Page::Notes => {
            let len: usize = app.filtered_notes_papers().len();
            app.notes.selected = step(app.notes.selected, len, down);
        },
        Page::Credits => {
            app.credits_selected = step(app.credits_selected, CREDITS_COUNT, down);
        },
        _ => {},
    }
}

fn move_selection(app: &mut App, down: bool)
    requires
        old(app).sidebar_index < PAGE_COUNT,
    ensures
        *final(app) == selection_moved(*old(app), down),
        old(app).wf() ==> final(app).wf(),
{
    if app.content_focused {
        move_page_selection(app, down);
    } else {
        let index: usize = step(app.sidebar_index, PAGE_COUNT, down);
        let all = Page::all();
        app.sidebar_index = index;
        app.page = all[index];
    }
}

fn toggle_palette(app: &mut App)
    ensures
        palette_toggled(*old(app), *final(app)),
        old(app).wf() ==> final(app).wf(),
{
    if app.mode == AppMode::CommandPalette {
        app.mode = AppMode::Normal;
    } else {
        app.mode = AppMode::CommandPalette;
        app.palette.query = String::new();
        app.palette.query_cursor = 0;
        app.palette.selected = 0;
        proof {
            crate::text::lemma_ends(app.palette.query@);
        }
    }
}

fn toggle_help(app: &mut App)
    ensures
        *final(app) == help_toggled(*old(app)),
        old(app).wf() ==> final(app).wf(),
{
    if app.mode == AppMode::Help {
        app.mode = app.help_return_mode;
    } else {
        app.help_return_mode = app.mode;
        app.help_scroll = 0;
        app.mode = AppMode::Help;
    }
}

fn open_search_bar(app: &mut App)
    requires
        old(app).workspace_search.active.wf(),
    ensures
        search_bar_opened(*old(app), *final(app)),
        old(app).wf() ==> final(app).wf(),
{
    let shown = match app.page {
        Page::Library | Page::Downloads | Page::Collections | Page::Authors | Page::Bookmarks
        | Page::Notes | Page::ReadingQueue => true,
        _ => false,
    };
    if shown {
        app.mode = AppMode::WorkspaceSearch;
        app.content_focused = true;
        app.workspace_search.active.insert(app.page);
    }
}

fn open_selection(app: &mut App)
    requires
        old(app).sidebar_index < PAGE_COUNT,
    ensures
        *final(app) == opened(*old(app)),
        old(app).wf() ==> final(app).wf(),
{
    if !app.content_focused {
        let all = Page::all();
        let page = all[app.sidebar_index];
        app.page = page;
        app.content_focused = true;
        app.mode = if app.workspace_search.active.contains(&page) {
            AppMode::WorkspaceSearch
        } else {
            AppMode::Normal
        };
    } else {
        let shown = match app.page {
            Page::Dashboard => app.today.selected < app.today.papers.len(),
            Page::Discover => app.discovery.selected_paper().is_some(),
            _ => false,
        };
        if shown {
            app.mode = AppMode::PaperDetail;
            app.paper_detail_scroll = 0;
        }
    }
}

impl App {
    /// Carries out a command of the shared command map.
    pub fn dispatch(&mut self, command: Command)
        requires
            old(self).wf(),
        ensures
            command_step(*old(self), command, *final(self)),
            final(self).wf(),
    {
        match command {
            Command::Quit => {
                self.should_quit = true;
            },
            Command::MoveUp => move_selection(self, false),
            Command::MoveDown => move_selection(self, true),
            Command::Open => open_selection(self),
            Command::Back => {
                if self.mode == AppMode::PaperDetail {
                    self.mode = AppMode::Normal;
                } else {
                    self.content_focused = false;
                }
            },
            Command::TogglePalette => toggle_palette(self),
            Command::ToggleHelp => toggle_help(self),
            Command::ToggleWorkspaceSearch => open_search_bar(self),
        }
    }
}

/// What a key of the help does.
pub open spec fn help_key_step(pre: App, key: KeyEvent) -> App {
    let scroll = pre.help_scroll;
    match key.code {
        KeyCode::Esc => help_toggled(pre),
        KeyCode::Up => App { help_scroll: less(scroll, 1), ..pre },
        KeyCode::Down => App { help_scroll: more(scroll, 1), ..pre },
        KeyCode::PageUp => App { help_scroll: less(scroll, 10), ..pre },
        KeyCode::PageDown => App { help_scroll: more(scroll, 10), ..pre },
        KeyCode::Home => App { help_scroll: 0, ..pre },
        KeyCode::End => App { help_scroll: usize::MAX, ..pre },
        KeyCode::Char(c) => if c == '?' || c == 'q' {
            help_toggled(pre)
        } else if c == 'k' {
            App { help_scroll: less(scroll, 1), ..pre }
        } else if c == 'j' {
            App { help_scroll: more(scroll, 1), ..pre }
        } else {
            pre
        },
        _ => pre,
    }
}

/// `a + b`, or the greatest number.
pub open spec fn more(a: usize, b: usize) -> usize {
    if a + b > usize::MAX {
        usize::MAX
    } else {
        (a + b) as usize
    }
}

/// `a - b`, or zero.
pub open spec fn less(a: usize, b: usize) -> usize {
    if a < b {
        0
    } else {
        (a - b) as usize
    }
}

/// Handles a key of the help.
pub fn handle_help_key(app: &mut App, key: KeyEvent)
    requires
        old(app).wf(),
    ensures
        *final(app) == help_key_step(*old(app), key),
        final(app).wf(),
{
    match key.code {
        KeyCode::Esc => toggle_help(app),
        KeyCode::Up => {
            app.help_scroll = app.help_scroll.saturating_sub(1);
        },
        KeyCode::Down => {
            app.help_scroll = app.help_scroll.saturating_add(1);
        },
        KeyCode::PageUp => {
            app.help_scroll = app.help_scroll.saturating_sub(10);
        },
        KeyCode::PageDown => {
            app.help_scroll = app.help_scroll.saturating_add(10);
        },
        KeyCode::Home => {
            app.help_scroll = 0;
        },
        KeyCode::End => {
            app.help_scroll = usize::MAX;
        },
        KeyCode::Char(c) => {
            if c == '?' || c == 'q' {
                toggle_help(app);
            } else if c == 'k' {
                app.help_scroll = app.help_scroll.saturating_sub(1);
            } else if c == 'j' {
                app.help_scroll = app.help_scroll.saturating_add(1);
            }
        },
        _ => {},
    }
}

/// What a key of the command palette does.
pub open spec fn palette_key_step(pre: App, key: KeyEvent, post: App) -> bool {
    let p = pre.palette;
    let shown = visible_pages(p.query@);
    match key.code {
        KeyCode::Esc => palette_toggled(pre, post),
        KeyCode::Up => post == App {
            palette: Palette { selected: stepped(p.selected, shown.len() as int, false), ..p },
            ..pre
        },
        KeyCode::Down => post == App {
            palette: Palette { selected: stepped(p.selected, shown.len() as int, true), ..p },
            ..pre
        },
        KeyCode::Enter => if p.selected < shown.len() {
            let page = pages()[shown[p.selected as int] as int];
            &&& post == App {
                page,
                sidebar_index: page.position_spec() as usize,
                content_focused: true,
                mode: if pre.workspace_search.active@.contains(page) {
                    AppMode::WorkspaceSearch
                } else {
                    AppMode::Normal
                },
                palette: post.palette,
                ..pre
            }
            &&& if pre.mode == AppMode::CommandPalette {
                post.palette == p
            } else {
                post.palette.is_initial()
            }
        } else {
            post == pre
        },
        _ => post == (App { palette: post.palette, ..pre }) && palette_edited(
            p,
            key,
            post.palette,
        ),
    }
}

/// The query of the palette was edited; a change selects the first page.
pub open spec fn palette_edited(p: Palette, key: KeyEvent, post: Palette) -> bool {
    let b = buffer(p.query@, p.query_cursor as int);
    let changed = edits(b, key) && edited(b, key).text != b.text;
    &&& post == Palette {
        query: post.query,
        query_cursor: post.query_cursor,
        selected: if changed { 0 } else { p.selected },
    }
    &&& edited(b, key).held(post.query@, post.query_cursor as int)
    &&& boundary(post.query@, post.query_cursor as int)
}

fn edit_palette(p: &mut Palette, key: KeyEvent)
    requires
        boundary(old(p).query@, old(p).query_cursor as int),
    ensures
        palette_edited(*old(p), key, *final(p)),
{
    let before = p.query.clone();
    if edit_text(&mut p.query, &mut p.query_cursor, key) && !crate::text::same_text(
        p.query.as_str(),
        before.as_str(),
    ) {
        p.selected = 0;
    }
}

/// Handles a key of the command palette.
pub fn handle_command_palette_key(app: &mut App, key: KeyEvent)
    requires
        old(app).wf(),
    ensures
        palette_key_step(*old(app), key, *final(app)),
        final(app).wf(),
{
    match key.code {
        KeyCode::Esc => toggle_palette(app),
        KeyCode::Up => {
            app.palette.selected = select_previous(app.palette.selected);
        },
        KeyCode::Down => {
            let len: usize = app.filtered_palette_items().len();
            app.palette.selected = select_next(app.palette.selected, len);
        },
        KeyCode::Enter => {
            let items = app.filtered_palette_items();
            if app.palette.selected < items.len() {
                let page = items[app.palette.selected];
                toggle_palette(app);
                app.mode = if app.workspace_search.active.contains(&page) {
                    AppMode::WorkspaceSearch
                } else {
                    AppMode::Normal
                };
                app.sidebar_index = page.position();
                app.page = page;
                app.content_focused = true;
            }
        },
        _ => {
            edit_palette(&mut app.palette, key);
        },
    }
}

/// The search bar closes and its page no longer reopens it.
pub open spec fn search_bar_closed(pre: App, post: App) -> bool {
    &&& post == App {
        mode: AppMode::Normal,
        workspace_search: WorkspaceSearch {
            active: post.workspace_search.active,
            ..pre.workspace_search
        },
        ..pre
    }
    &&& post.workspace_search.active.wf()
    &&& post.workspace_search.active@ == pre.workspace_search.active@.remove(pre.page)
}

/// The page with its first entry selected.
pub open spec fn first_selected(app: App) -> App {
    match app.page {
        Page::Library => App { library: LibraryState { selected: 0, ..app.library }, ..app },
        Page::Downloads => App {
            downloads: DownloadsState { selected: 0, ..app.downloads },
            ..app
        },
        Page::Collections => if app.collections.active is Some {
            App { collections: CollectionsState { paper_selected: 0, ..app.collections }, ..app }
        } else {
            App { collections: CollectionsState { selected: 0, ..app.collections }, ..app }
        },
        Page::Authors => if app.authors.active is Some {
            App { authors: AuthorsState { paper_selected: 0, ..app.authors }, ..app }
        } else {
            App { authors: AuthorsState { selected: 0, ..app.authors }, ..app }
        },
        Page::Bookmarks => App {
            bookmarks: BookmarksState { selected: 0, ..app.bookmarks },
            ..app
        },
        Page::Notes => App { notes: NotesState { selected: 0, ..app.notes }, ..app },
        Page::ReadingQueue => App {
            reading_queue: ReadingQueueState { selected: 0, ..app.reading_queue },
            ..app
        },
        _ => app,
    }
}

/// What a key of the search bar does.
pub open spec fn search_bar_key_step(pre: App, key: KeyEvent, post: App) -> bool {
    let focused = App { content_focused: true, ..pre };
    match key.code {
        KeyCode::Esc => search_bar_closed(pre, post),
        KeyCode::Enter => search_bar_closed(focused, post),
        KeyCode::Down => search_bar_closed(first_selected(focused), post),
        KeyCode::Left => if !key.modifiers.control && pre.workspace_search.cursor == 0 {
            post == App { mode: AppMode::Normal, content_focused: false, ..pre }
        } else {
            search_bar_edited(pre, key, post)
        },
        _ => if key.code == KeyCode::Char('>') {
            search_bar_closed(focused, post)
        } else {
            search_bar_edited(pre, key, post)
        },
    }
}

/// Only the query of the search bar changed, by an editing key.
pub open spec fn search_bar_edited(pre: App, key: KeyEvent, post: App) -> bool {
    &&& post == App { workspace_search: post.workspace_search, ..pre }
    &&& bar_edited(pre.workspace_search, key, post.workspace_search)
}

pub open spec fn bar_edited(w: WorkspaceSearch, key: KeyEvent, post: WorkspaceSearch) -> bool {
    &&& post == WorkspaceSearch { query: post.query, cursor: post.cursor, ..w }
    &&& edited(buffer(w.query@, w.cursor as int), key).held(post.query@, post.cursor as int)
    &&& boundary(post.query@, post.cursor as int)
}

fn edit_bar(w: &mut WorkspaceSearch, key: KeyEvent)
    requires
        boundary(old(w).query@, old(w).cursor as int),
    ensures
        bar_edited(*old(w), key, *final(w)),
{
    let _changed = edit_text(&mut w.query, &mut w.cursor, key);
}

fn close_search_bar(app: &mut App)
    requires
        old(app).workspace_search.active.wf(),
    ensures
        search_bar_closed(*old(app), *final(app)),
        old(app).wf() ==> final(app).wf(),
{
    app.mode = AppMode::Normal;
    let page = app.page;
    app.workspace_search.active.remove(&page);
}

fn select_first(app: &mut App)
    ensures
        *final(app) == first_selected(*old(app)),
        old(app).wf() ==> final(app).wf(),
{
    match app.page {
        Page::Library => {
            app.library.selected = 0;
        },
        Page::Downloads => {
            app.downloads.selected = 0;
        },
        Page::Collections => {
            if app.collections.active.is_some() {
                app.collections.paper_selected = 0;
            } else {
                app.collections.selected = 0;
            }
        },
        Page::Authors => {
            if app.authors.active.is_some() {
                app.authors.paper_selected = 0;
            } else {
                app.authors.selected = 0;
            }
        },
        Page::Bookmarks => {
            app.bookmarks.selected = 0;
        },
        Page::Notes => {
            app.notes.selected = 0;
        },
        Page::ReadingQueue => {
            app.reading_queue.selected = 0;
        },
        _ => {},
    }
}

/// Handles a key of the search bar.
pub fn handle_workspace_search_key(app: &mut App, key: KeyEvent) -> (action: Option<UiAction>)
    requires
        old(app).wf(),
    ensures
        action is None,
        search_bar_key_step(*old(app), key, *final(app)),
        final(app).wf(),
{
    match key.code {
        KeyCode::Esc => close_search_bar(app),
        KeyCode::Enter => {
            app.content_focused = true;
            close_search_bar(app);
        },
        KeyCode::Down => {
            app.content_focused = true;
            select_first(app);
            close_search_bar(app);
        },
        KeyCode::Left => {
            if !key.modifiers.control && app.workspace_search.cursor == 0 {
                app.mode = AppMode::Normal;
                app.content_focused = false;
            } else {
                edit_bar(&mut app.workspace_search, key);
            }
        },
        _ => {
            if key.code == KeyCode::Char('>') {
                app.content_focused = true;
                close_search_bar(app);
            } else {
                edit_bar(&mut app.workspace_search, key);
            }
        },
    }
    None
}

/// What a key does while the sidebar has the focus.
pub open spec fn sidebar_key_step(pre: App, key: KeyEvent, post: App) -> bool {
    if pre.page == Page::Settings && command_for(key) == Some(Command::Open) {
        post == App { content_focused: true, ..pre }
    } else {
        match command_for(key) {
            Some(command) => command_step(pre, command, post),
            None => post == pre,
        }
    }
}

/// Handles a key while the sidebar has the focus.
pub fn handle_sidebar_key(app: &mut App, key: KeyEvent)
    requires
        old(app).wf(),
    ensures
        sidebar_key_step(*old(app), key, *final(app)),
        final(app).wf(),
{
    if let Some(command) = navigation_command(key) {
        if app.page == Page::Settings && command == Command::Open {
            app.content_focused = true;
        } else {
            app.dispatch(command);
        }
    }
}

/// A selection went from `before` to `after` by one entry of a list of `len`, down or
/// up, as far as the list goes.
pub open spec fn moves_by_one(before: usize, after: usize, len: int, down: bool) -> bool {
    &&& down && before + 1 < len ==> after == before + 1
    &&& down && before + 1 == len ==> after == before
    &&& down && before >= len && len > 0 ==> after == len - 1
    &&& down && len == 0 ==> after == 0
    &&& !down && before > 0 ==> after == before - 1
    &&& !down && before == 0 ==> after == 0
}

/// Down and Up move the selection of the list that the focused page shows by one entry,
/// counting the entries that pass its search, and move nothing on any other page.
pub proof fn law_move_commands_move_the_shown_selection(pre: App, command: Command, post: App)
    requires
        pre.content_focused,
        command == Command::MoveDown || command == Command::MoveUp,
        command_step(pre, command, post),
    ensures
        ({
            let down = command == Command::MoveDown;
            let query = pre.workspace_search.query@;
            &&& pre.page == Page::Dashboard ==> moves_by_one(
                pre.today.selected,
                post.today.selected,
                pre.today.papers@.len() as int,
                down,
            )
            &&& pre.page == Page::Library ==> moves_by_one(
                pre.library.selected,
                post.library.selected,
                visible_papers(query, pre.library.papers@).len() as int,
                down,
            )
            &&& pre.page == Page::ReadingQueue ==> moves_by_one(
                pre.reading_queue.selected,
                post.reading_queue.selected,
                visible_papers(query, pre.reading_queue.papers@).len() as int,
                down,
            )
            &&& pre.page == Page::Notes ==> moves_by_one(
                pre.notes.selected,
                post.notes.selected,
                visible_papers(query, pre.notes.papers@).len() as int,
                down,
            )
            &&& pre.page == Page::Downloads ==> moves_by_one(
                pre.downloads.selected,
                post.downloads.selected,
                visible_downloads(query, pre.downloads.items@).len() as int,
                down,
            )
            &&& pre.page == Page::Bookmarks ==> moves_by_one(
                pre.bookmarks.selected,
                post.bookmarks.selected,
                visible_bookmarks(query, pre.bookmarks.items@).len() as int,
                down,
            )
            &&& pre.page == Page::Collections && pre.collections.active is Some ==> moves_by_one(
                pre.collections.paper_selected,
                post.collections.paper_selected,
                visible_papers(query, pre.collections.papers@).len() as int,
                down,
            ) && post.collections.selected == pre.collections.selected
            &&& pre.page == Page::Collections && pre.collections.active is None
                && collection_items(pre).len() <= usize::MAX ==> moves_by_one(
                pre.collections.selected,
                post.collections.selected,
                collection_items(pre).len() as int,
                down,
            ) && post.collections.paper_selected == pre.collections.paper_selected
            &&& pre.page == Page::Authors && pre.authors.active is Some ==> moves_by_one(
                pre.authors.paper_selected,
                post.authors.paper_selected,
                visible_papers(query, pre.authors.papers@).len() as int,
                down,
            ) && post.authors.selected == pre.authors.selected
            &&& pre.page == Page::Authors && pre.authors.active is None ==> moves_by_one(
                pre.authors.selected,
                post.authors.selected,
                visible_authors(query, pre.authors.items@).len() as int,
                down,
            ) && post.authors.paper_selected == pre.authors.paper_selected
            &&& pre.page == Page::Credits ==> moves_by_one(
                pre.credits_selected,
                post.credits_selected,
                2,
                down,
            )
        }),
        pre.page != Page::Library ==> post.library == pre.library,
        pre.page != Page::Notes ==> post.notes == pre.notes,
        pre.page != Page::ReadingQueue ==> post.reading_queue == pre.reading_queue,
        pre.page != Page::Downloads ==> post.downloads == pre.downloads,
        pre.page != Page::Bookmarks ==> post.bookmarks == pre.bookmarks,
        pre.page != Page::Collections ==> post.collections == pre.collections,
        pre.page != Page::Authors ==> post.authors == pre.authors,
        pre.page != Page::Discover ==> post.discovery == pre.discovery,
        post.page == pre.page,
        post.mode == pre.mode,
        post.sidebar_index == pre.sidebar_index,
        post.content_focused,
{
    assert(pre.today.papers.len() == pre.today.papers@.len());
    lemma_shown_fits(pre);
}

/// No list shows more entries than can be counted.
proof fn lemma_shown_fits(app: App)
    ensures
        ({
            let query = app.workspace_search.query@;
            &&& visible_papers(query, app.library.papers@).len() <= usize::MAX
            &&& visible_papers(query, app.reading_queue.papers@).len() <= usize::MAX
            &&& visible_papers(query, app.notes.papers@).len() <= usize::MAX
            &&& visible_papers(query, app.collections.papers@).len() <= usize::MAX
            &&& visible_papers(query, app.authors.papers@).len() <= usize::MAX
            &&& visible_downloads(query, app.downloads.items@).len() <= usize::MAX
            &&& visible_bookmarks(query, app.bookmarks.items@).len() <= usize::MAX
            &&& visible_authors(query, app.authors.items@).len() <= usize::MAX
        }),
{
    let query = app.workspace_search.query@;
    assert(app.library.papers.len() == app.library.papers@.len());
    assert(app.notes.papers.len() == app.notes.papers@.len());
    assert(app.reading_queue.papers.len() == app.reading_queue.papers@.len());
    assert(app.collections.papers.len() == app.collections.papers@.len());
    assert(app.authors.papers.len() == app.authors.papers@.len());
    assert(app.downloads.items.len() == app.downloads.items@.len());
    assert(app.bookmarks.items.len() == app.bookmarks.items@.len());
    assert(app.authors.items.len() == app.authors.items@.len());
    law_picked(
        Seq::new(app.library.papers@.len(), |i: int| paper_matches(query, app.library.papers@[i])),
    );
    law_picked(
        Seq::new(app.notes.papers@.len(), |i: int| paper_matches(query, app.notes.papers@[i])),
    );
    law_picked(
        Seq::new(
            app.reading_queue.papers@.len(),
            |i: int| paper_matches(query, app.reading_queue.papers@[i]),
        ),
    );
    law_picked(
        Seq::new(
            app.collections.papers@.len(),
            |i: int| paper_matches(query, app.collections.papers@[i]),
        ),
    );
    law_picked(
        Seq::new(app.authors.papers@.len(), |i: int| paper_matches(query, app.authors.papers@[i])),
    );
    law_picked(
        Seq::new(
            app.downloads.items@.len(),
            |i: int| download_matches(query, app.downloads.items@[i]),
        ),
    );
    law_picked(
        Seq::new(
            app.bookmarks.items@.len(),
            |i: int| bookmark_matches(query, app.bookmarks.items@[i]),
        ),
    );
    law_picked(
        Seq::new(app.authors.items@.len(), |i: int| author_matches(query, app.authors.items@[i])),
    );
}

/// In the results of the online search, Down and Up move the selection by one result of
/// the shown page.
pub proof fn law_move_commands_move_in_the_results(pre: App, command: Command, post: App)
    requires
        pre.content_focused,
        pre.page == Page::Discover,
        command == Command::MoveDown || command == Command::MoveUp,
        command_step(pre, command, post),
    ensures
        moves_by_one(
            pre.discovery.selected,
            post.discovery.selected,
            page_len(shown_results(pre.discovery).len() as int, pre.discovery.page as int),
            command == Command::MoveDown,
        ),
        post == (App {
            discovery: DiscoveryState { selected: post.discovery.selected, ..pre.discovery },
            ..pre
        }),
{
}

/// The keys of the sidebar: Down and `j` show the next page and Up and `k` the one
/// before, as far as there is one; Enter, Right and `l` go into the page; `q` quits.
pub proof fn law_sidebar_keys(pre: App, key: KeyEvent, post: App)
    requires
        pre.sidebar_index < 14,
        !pre.content_focused,
        !key.modifiers.control,
        sidebar_key_step(pre, key, post),
    ensures
        ({
            let down = key.code == KeyCode::Down || key.code == KeyCode::Char('j');
            let up = key.code == KeyCode::Up || key.code == KeyCode::Char('k');
            let open = key.code == KeyCode::Enter || key.code == KeyCode::Right || key.code
                == KeyCode::Char('l');
            &&& down || up ==> moves_by_one(pre.sidebar_index, post.sidebar_index, 14, down)
                && post.page == pages()[post.sidebar_index as int] && !post.content_focused
                && post.mode == pre.mode
            &&& open ==> post.content_focused && post.sidebar_index == pre.sidebar_index
            &&& open && pre.page != Page::Settings ==> post.page
                == pages()[pre.sidebar_index as int]
            &&& key.code == KeyCode::Char('q') ==> post == App { should_quit: true, ..pre }
            &&& key.code != KeyCode::Char('q') ==> post.should_quit == pre.should_quit
        }),
{
}

/// Back leaves the details of a paper for the list, and a page for the sidebar, and
/// changes nothing else.
pub proof fn law_back_leads_out(pre: App, post: App)
    requires
        command_step(pre, Command::Back, post),
    ensures
        pre.mode == AppMode::PaperDetail ==> post == (App { mode: AppMode::Normal, ..pre }),
        pre.mode != AppMode::PaperDetail ==> post == (App { content_focused: false, ..pre }),
{
}

/// Open shows the details of the selected paper of the dashboard and of the online
/// search, and nothing where none is selected or on other pages.
pub proof fn law_open_shows_the_details(pre: App, post: App)
    requires
        pre.content_focused,
        command_step(pre, Command::Open, post),
    ensures
        pre.page == Page::Dashboard ==> (post.mode == AppMode::PaperDetail || pre.mode
            == AppMode::PaperDetail <==> pre.today.selected < pre.today.papers@.len() || pre.mode
            == AppMode::PaperDetail),
        pre.page == Page::Dashboard && pre.today.selected < pre.today.papers@.len() ==> post.mode
            == AppMode::PaperDetail && post.paper_detail_scroll == 0,
        pre.page != Page::Dashboard && pre.page != Page::Discover ==> post == pre,
        post.page == pre.page,
        post.content_focused,
{
}

/// The command palette: Enter shows the page that is selected among the offered ones and
/// marks it in the sidebar; Up and Down select among them; Escape closes the palette.
pub proof fn law_palette_keys(pre: App, key: KeyEvent, post: App)
    requires
        pre.mode == AppMode::CommandPalette,
        palette_key_step(pre, key, post),
    ensures
        ({
            let shown = visible_pages(pre.palette.query@);
            let selected = pre.palette.selected;
            &&& key.code == KeyCode::Enter && selected < shown.len() ==> {
                &&& post.page == pages()[shown[selected as int] as int]
                &&& post.sidebar_index < 14
                &&& pages()[post.sidebar_index as int] == post.page
                &&& post.content_focused
                &&& post.mode == AppMode::Normal || post.mode == AppMode::WorkspaceSearch
            }
            &&& key.code == KeyCode::Enter && selected >= shown.len() ==> post == pre
            &&& key.code == KeyCode::Up ==> moves_by_one(
                selected,
                post.palette.selected,
                shown.len() as int,
                false,
            )
            &&& key.code == KeyCode::Down && selected < shown.len() ==> moves_by_one(
                selected,
                post.palette.selected,
                shown.len() as int,
                true,
            )
            &&& key.code == KeyCode::Esc ==> post == App { mode: AppMode::Normal, ..pre }
            &&& key.code != KeyCode::Enter ==> post.page == pre.page && post.content_focused
                == pre.content_focused
        }),
{
    let shown = visible_pages(pre.palette.query@);
    law_picked(Seq::new(pages().len(), |i: int| page_matches(pre.palette.query@, pages()[i])));
    if key.code == KeyCode::Enter && pre.palette.selected < shown.len() {
        let i = shown[pre.palette.selected as int] as int;
        assert(0 <= i < 14);
    }
}

/// A character typed into the palette stands at the cursor of its query, and the first
/// page that is offered is selected.
pub proof fn law_typing_filters_the_palette(pre: App, key: KeyEvent, post: App)
    requires
        palette_key_step(pre, key, post),
        boundary(pre.palette.query@, pre.palette.query_cursor as int),
        key.code is Char,
        !key.modifiers.control,
    ensures
        ({
            let t = pre.palette.query@;
            let at = index(t, pre.palette.query_cursor as int);
            &&& post.palette.query@ == t.insert(at, key.code->Char_0)
            &&& index(post.palette.query@, post.palette.query_cursor as int) == at + 1
        }),
        post.palette.selected == 0,
        post.mode == pre.mode,
{
    let b = buffer(pre.palette.query@, pre.palette.query_cursor as int);
    law_editing_keys_change_one_character(b, key);
    law_edit_keeps_cursor_valid(b, key);
    assert(edited(b, key).text.len() != b.text.len());
}

/// `>` opens the search bar on the pages that have one, which stays with the page until it
/// is closed there.
pub proof fn law_search_bar_opens_on_lists(pre: App, post: App)
    requires
        command_step(pre, Command::ToggleWorkspaceSearch, post),
    ensures
        ({
            let bar = pre.page == Page::Library || pre.page == Page::Downloads || pre.page
                == Page::Collections || pre.page == Page::Authors || pre.page == Page::Bookmarks
                || pre.page == Page::Notes || pre.page == Page::ReadingQueue;
            &&& bar ==> post.mode == AppMode::WorkspaceSearch && post.content_focused
                && post.workspace_search.active@.contains(pre.page)
            &&& !bar ==> post == pre
        }),
        post.workspace_search.query == pre.workspace_search.query,
        post.page == pre.page,
{
}

/// The keys of the search bar: Escape, Enter, `>` and Down close it, Down with the first
/// entry of the list selected; the query stays. Left at its start leads to the sidebar.
pub proof fn law_search_bar_keys(pre: App, key: KeyEvent, post: App)
    requires
        search_bar_key_step(pre, key, post),
    ensures
        key.code == KeyCode::Esc || key.code == KeyCode::Enter || key.code == KeyCode::Down
            || key.code == KeyCode::Char('>') ==> {
            &&& post.mode == AppMode::Normal
            &&& !post.workspace_search.active@.contains(pre.page)
            &&& post.workspace_search.query == pre.workspace_search.query
            &&& key.code != KeyCode::Esc ==> post.content_focused
        },
        key.code == KeyCode::Down ==> {
            &&& pre.page == Page::Library ==> post.library.selected == 0
            &&& pre.page == Page::Notes ==> post.notes.selected == 0
            &&& pre.page == Page::ReadingQueue ==> post.reading_queue.selected == 0
            &&& pre.page == Page::Downloads ==> post.downloads.selected == 0
            &&& pre.page == Page::Bookmarks ==> post.bookmarks.selected == 0
            &&& pre.page == Page::Collections && pre.collections.active is Some
                ==> post.collections.paper_selected == 0
            &&& pre.page == Page::Collections && pre.collections.active is None
                ==> post.collections.selected == 0
            &&& pre.page == Page::Authors && pre.authors.active is Some
                ==> post.authors.paper_selected == 0
            &&& pre.page == Page::Authors && pre.authors.active is None ==> post.authors.selected
                == 0
        },
        key.code != KeyCode::Down ==> post.library == pre.library && post.notes == pre.notes
            && post.collections == pre.collections,
        key.code == KeyCode::Left && !key.modifiers.control && pre.workspace_search.cursor == 0
            ==> post.mode == AppMode::Normal && !post.content_focused && post.workspace_search
            == pre.workspace_search,
        post.page == pre.page,
{
}

/// A character typed into the search bar stands at the cursor of its query.
pub proof fn law_typing_edits_the_search_bar(pre: App, key: KeyEvent, post: App)
    requires
        search_bar_key_step(pre, key, post),
        boundary(pre.workspace_search.query@, pre.workspace_search.cursor as int),
        key.code is Char,
        key.code != KeyCode::Char('>'),
        !key.modifiers.control,
    ensures
        ({
            let t = pre.workspace_search.query@;
            let at = index(t, pre.workspace_search.cursor as int);
            &&& post.workspace_search.query@ == t.insert(at, key.code->Char_0)
            &&& index(post.workspace_search.query@, post.workspace_search.cursor as int) == at + 1
        }),
        post.mode == pre.mode,
{
    let b = buffer(pre.workspace_search.query@, pre.workspace_search.cursor as int);
    law_editing_keys_change_one_character(b, key);
    law_edit_keeps_cursor_valid(b, key);
}

/// The keys of the help scroll it, by one line or by ten, and never above its start;
/// Escape, `?` and `q` close it and give back the mode below it.
pub proof fn law_help_keys(pre: App, key: KeyEvent)
    requires
        pre.mode == AppMode::Help,
    ensures
        ({
            let post = help_key_step(pre, key);
            let s = pre.help_scroll;
            let closes = key.code == KeyCode::Esc || key.code == KeyCode::Char('?') || key.code
                == KeyCode::Char('q');
            let up = key.code == KeyCode::Up || key.code == KeyCode::Char('k');
            let down = key.code == KeyCode::Down || key.code == KeyCode::Char('j');
            &&& closes ==> post.mode == pre.help_return_mode
            &&& !closes ==> post == App { help_scroll: post.help_scroll, ..pre }
            &&& up && s > 0 ==> post.help_scroll == s - 1
            &&& up && s == 0 ==> post.help_scroll == 0
            &&& down && s < usize::MAX ==> post.help_scroll == s + 1
            &&& key.code == KeyCode::PageUp && s >= 10 ==> post.help_scroll == s - 10
            &&& key.code == KeyCode::PageUp && s < 10 ==> post.help_scroll == 0
            &&& key.code == KeyCode::PageDown && s <= usize::MAX - 10 ==> post.help_scroll == s + 10
            &&& key.code == KeyCode::Home ==> post.help_scroll == 0
            &&& key.code == KeyCode::End ==> post.help_scroll == usize::MAX
        }),
{
}

/// Ctrl-B opens the palette empty and closes it again.
pub proof fn law_palette_opens_empty(pre: App, post: App)
    requires
        palette_toggled(pre, post),
    ensures
        pre.mode == AppMode::CommandPalette ==> post == (App { mode: AppMode::Normal, ..pre }),
        pre.mode != AppMode::CommandPalette ==> post.mode == AppMode::CommandPalette
            && post.palette.query@.len() == 0 && post.palette.selected == 0,
        post.page == pre.page,
        post.content_focused == pre.content_focused,
{
}

} // verus!
