//! The state of the application.

use vstd::prelude::*;
use crate::chars::ascii_lower;
use crate::model::{
    AuthorSummary, BookmarkSummary, CollectionSummary, CompletionItem, DeletionTarget,
    DownloadTask, LibraryPaper, MetadataPrompt, PaperNote, Project, ProjectBuildDiagnostic,
    ProjectCitationResult, ProjectEntry, RemotePaper,
};
use crate::text::{boundary, group_points};
use crate::viewer::Platform;

verus! {

broadcast use group_points;

/// The pages of the navigation sidebar.
#[derive(Debug, Clone, Copy, PartialEq, Eq, Structural)]
pub enum Page {
    Dashboard,
    Discover,
    Library,
    ReadingQueue,
    Collections,
    Downloads,
    Bookmarks,
    Authors,
    Notes,
    Projects,
    History,
    Statistics,
    Settings,
    Credits,
}

/// How many pages there are.
pub const PAGE_COUNT: usize = 14;

/// The pages in the order of the sidebar.
pub open spec fn pages() -> Seq<Page> {
    seq![
        Page::Dashboard,
        Page::Discover,
        Page::Library,
        Page::ReadingQueue,
        Page::Collections,
        Page::Downloads,
        Page::Bookmarks,
        Page::Authors,
        Page::Notes,
        Page::Projects,
        Page::History,
        Page::Statistics,
        Page::Settings,
        Page::Credits,
    ]
}

impl Page {
    /// The pages in the order of the sidebar.
    pub fn all() -> (r: Vec<Page>)
        ensures
            r@ == pages(),
    {
        let r = vec![
            Page::Dashboard,
            Page::Discover,
            Page::Library,
            Page::ReadingQueue,
            Page::Collections,
            Page::Downloads,
            Page::Bookmarks,
            Page::Authors,
            Page::Notes,
            Page::Projects,
            Page::History,
            Page::Statistics,
            Page::Settings,
            Page::Credits,
        ];
        assert(r@ =~= pages());
        r
    }

    /// Where the page stands in the sidebar.
    pub open spec fn position_spec(self) -> int {
        match self {
            Page::Dashboard => 0,
            Page::Discover => 1,
            Page::Library => 2,
            Page::ReadingQueue => 3,
            Page::Collections => 4,
            Page::Downloads => 5,
            Page::Bookmarks => 6,
            Page::Authors => 7,
            Page::Notes => 8,
            Page::Projects => 9,
            Page::History => 10,
            Page::Statistics => 11,
            Page::Settings => 12,
            Page::Credits => 13,
        }
    }

    /// Where the page stands in the sidebar.
    pub fn position(self) -> (r: usize)
        ensures
            r == self.position_spec(),
            r < PAGE_COUNT,
            pages()[r as int] == self,
    {
        match self {
            Page::Dashboard => 0,
            Page::Discover => 1,
            Page::Library => 2,
            Page::ReadingQueue => 3,
            Page::Collections => 4,
            Page::Downloads => 5,
            Page::Bookmarks => 6,
            Page::Authors => 7,
            Page::Notes => 8,
            Page::Projects => 9,
            Page::History => 10,
            Page::Statistics => 11,
            Page::Settings => 12,
            Page::Credits => 13,
        }
    }

    /// The page's name in the configuration.
    pub open spec fn name_spec(self) -> Seq<char> {
        match self {
            Page::Dashboard => "dashboard"@,
            Page::Discover => "discover"@,
            Page::Library => "library"@,
            Page::ReadingQueue => "reading_queue"@,
            Page::Collections => "collections"@,
            Page::Downloads => "downloads"@,
            Page::Bookmarks => "bookmarks"@,
            Page::Authors => "authors"@,
            Page::Notes => "notes"@,
            Page::Projects => "projects"@,
            Page::History => "history"@,
            Page::Statistics => "statistics"@,
            Page::Settings => "settings"@,
            Page::Credits => "credits"@,
        }
    }

    pub fn name(self) -> (r: &'static str)
        ensures
            r@ == self.name_spec(),
    {
        match self {
            Page::Dashboard => "dashboard",
            Page::Discover => "discover",
            Page::Library => "library",
            Page::ReadingQueue => "reading_queue",
            Page::Collections => "collections",
            Page::Downloads => "downloads",
            Page::Bookmarks => "bookmarks",
            Page::Authors => "authors",
            Page::Notes => "notes",
            Page::Projects => "projects",
            Page::History => "history",
            Page::Statistics => "statistics",
            Page::Settings => "settings",
            Page::Credits => "credits",
        }
    }

    /// The page's title.
    pub open spec fn title_spec(self) -> Seq<char> {
        match self {
            Page::Dashboard => "Dashboard"@,
            Page::Discover => "Discover"@,
            Page::Library => "Library"@,
            Page::ReadingQueue => "Reading Queue"@,
            Page::Collections => "Collections"@,
            Page::Downloads => "Downloads"@,
            Page::Bookmarks => "Bookmarks"@,
            Page::Authors => "Authors"@,
            Page::Notes => "Notes"@,
            Page::Projects => "Projects"@,
            Page::History => "History"@,
            Page::Statistics => "Statistics"@,
            Page::Settings => "Settings"@,
            Page::Credits => "Credits"@,
        }
    }

    pub fn title(self) -> (r: &'static str)
        ensures
            r@ == self.title_spec(),
    {
        match self {
            Page::Dashboard => "Dashboard",
            Page::Discover => "Discover",
            Page::Library => "Library",
            Page::ReadingQueue => "Reading Queue",
            Page::Collections => "Collections",
            Page::Downloads => "Downloads",
            Page::Bookmarks => "Bookmarks",
            Page::Authors => "Authors",
            Page::Notes => "Notes",
            Page::Projects => "Projects",
            Page::History => "History",
            Page::Statistics => "Statistics",
            Page::Settings => "Settings",
            Page::Credits => "Credits",
        }
    }

    /// The page that the configuration names.
    pub fn from_config_str(name: &str) -> (r: Option<Page>)
        ensures
            r matches Some(page) ==> page.name_spec() == name@,
            r is None ==> forall|page: Page| #[trigger] page.name_spec() != name@,
    {
        let all = Page::all();
        let mut i: usize = 0;
        while i < all.len()
            invariant
                i <= all@.len(),
                all@ == pages(),
                forall|k: int| 0 <= k < i ==> (#[trigger] pages()[k]).name_spec() != name@,
            decreases all.len() - i,
        {
            if crate::text::same_text(all[i].name(), name) {
                return Some(all[i]);
            }
            i = i + 1;
        }
        assert forall|page: Page| #[trigger] page.name_spec() != name@ by {
            let k = page.position_spec();
            assert(pages()[k] == page);
        }
        None
    }
}

#[derive(Debug, Clone, Copy, PartialEq, Eq, Structural)]
pub enum AppMode {
    Normal,
    CommandPalette,
    TerminalCommand,
    Help,
    Search,
    DiscoverFilter,
    WorkspaceSearch,
    PaperDetail,
    NoteEdit,
    Prompt,
    ConfirmDelete,
    PdfView,
    ProjectRename,
    ProjectCreate,
    ProjectFileCreate,
    ProjectEntryRename,
    ProjectCitationSearch,
}

#[derive(Debug, Clone, Copy, PartialEq, Eq, Structural)]
pub enum ProjectPane {
    ProjectList,
    FileTree,
    Editor,
    Preview,
    Build,
}

#[derive(Debug, Clone, Copy, PartialEq, Eq, Structural)]
pub enum ProjectCitationSearchMode {
    Local,
    Online,
}

/// How far an online request is.
#[derive(Debug)]
pub enum DiscoveryStatus {
    Idle,
    Loading,
    Ready,
    Error(String),
}

/// A command of the shared command map.
#[derive(Debug, Clone, Copy, PartialEq, Eq, Structural)]
pub enum Command {
    Quit,
    MoveUp,
    MoveDown,
    Open,
    Back,
    TogglePalette,
    ToggleHelp,
    ToggleWorkspaceSearch,
}

/// The first key of a two-key editor command and when it was pressed, in
/// milliseconds of the application's clock.
#[derive(Debug, Clone, Copy, PartialEq, Eq, Structural)]
pub struct ProjectEditorPendingSequence {
    pub first_key: char,
    pub started_at: u64,
}

/// The editor of a project.
#[derive(Debug)]
pub struct ProjectEditor {
    pub text: String,
    pub cursor: usize,
    pub path: Option<String>,
    pub dirty: bool,
    pub insert_mode: bool,
    pub visual_line_anchor: Option<usize>,
    pub undo: Vec<(String, usize)>,
    pub redo: Vec<(String, usize)>,
    pub scroll: usize,
    pub manual_scroll: bool,
    pub pending_sequence: Option<ProjectEditorPendingSequence>,
    pub wrap_width: usize,
    pub viewport_height: usize,
    pub completions: Vec<CompletionItem>,
    pub completion_selected: usize,
}

/// Whether every snapshot has its cursor on a character boundary.
pub open spec fn snapshots_wf(v: Seq<(String, usize)>) -> bool {
    forall|i: int| 0 <= i < v.len() ==> boundary((#[trigger] v[i]).0@, v[i].1 as int)
}

impl ProjectEditor {
    pub open spec fn wf(self) -> bool {
        &&& boundary(self.text@, self.cursor as int)
        &&& snapshots_wf(self.undo@)
        &&& snapshots_wf(self.redo@)
    }
}

impl ProjectEditor {
    /// As it is at the start.
    pub open spec fn is_initial(self) -> bool {
        &&& self.text@ == Seq::<char>::empty()
        &&& self.cursor == 0
        &&& self.path is None
        &&& !self.dirty
        &&& !self.insert_mode
        &&& self.visual_line_anchor is None
        &&& self.undo@ == Seq::<(String, usize)>::empty()
        &&& self.redo@ == Seq::<(String, usize)>::empty()
        &&& self.scroll == 0
        &&& !self.manual_scroll
        &&& self.pending_sequence is None
        &&& self.wrap_width == 80
        &&& self.viewport_height == 20
        &&& self.completions@ == Seq::<CompletionItem>::empty()
        &&& self.completion_selected == 0
    }
}

impl Default for ProjectEditor {
    fn default() -> (r: ProjectEditor)
        ensures
            r.is_initial(),
            r.wf(),
    {
        let text = String::new();
        proof {
            crate::text::lemma_ends(text@);
        }
        ProjectEditor {
            text,
            cursor: 0,
            path: None,
            dirty: false,
            insert_mode: false,
            visual_line_anchor: None,
            undo: Vec::new(),
            redo: Vec::new(),
            scroll: 0,
            manual_scroll: false,
            pending_sequence: None,
            wrap_width: 80,
            viewport_height: 20,
            completions: Vec::new(),
            completion_selected: 0,
        }
    }
}

/// The build pane of a project.
#[derive(Debug)]
pub struct ProjectBuild {
    pub status: String,
    pub diagnostics: Vec<ProjectBuildDiagnostic>,
    pub selected: usize,
    pub raw_log: Vec<String>,
    pub scroll: usize,
    pub viewport_height: usize,
    pub visible: bool,
    pub show_raw: bool,
}

impl ProjectBuild {
    /// As it is at the start.
    pub open spec fn is_initial(self) -> bool {
        &&& self.status@ == Seq::<char>::empty()
        &&& self.diagnostics@ == Seq::<ProjectBuildDiagnostic>::empty()
        &&& self.selected == 0
        &&& self.raw_log@ == Seq::<String>::empty()
        &&& self.scroll == 0
        &&& self.viewport_height == 0
        &&& !self.visible
        &&& !self.show_raw
    }
}

impl Default for ProjectBuild {
    fn default() -> (r: ProjectBuild)
        ensures
            r.is_initial(),
    {
        ProjectBuild {
            status: String::new(),
            diagnostics: Vec::new(),
            selected: 0,
            raw_log: Vec::new(),
            scroll: 0,
            viewport_height: 0,
            visible: false,
            show_raw: false,
        }
    }
}

/// The project list, the open project and its file tree.
#[derive(Debug)]
pub struct ProjectState {
    pub projects: Vec<Project>,
    pub selected: usize,
    pub active: Option<Project>,
    pub pane: ProjectPane,
    pub files: Vec<ProjectEntry>,
    pub file_selected: usize,
    pub tree_dir: Option<String>,
    pub rename_input: String,
    pub rename_cursor: usize,
    pub entry_rename_path: Option<String>,
    pub create_compiler: String,
    pub default_compiler: String,
}

impl ProjectState {
    /// No project is known yet; whatever the compilers are.
    pub open spec fn is_unopened(self) -> bool {
        &&& self.projects@ == Seq::<Project>::empty()
        &&& self.selected == 0
        &&& self.active is None
        &&& self.pane == ProjectPane::ProjectList
        &&& self.files@ == Seq::<ProjectEntry>::empty()
        &&& self.file_selected == 0
        &&& self.tree_dir is None
        &&& self.rename_input@ == Seq::<char>::empty()
        &&& self.rename_cursor == 0
        &&& self.entry_rename_path is None
    }

    /// As it is at the start.
    pub open spec fn is_initial(self) -> bool {
        &&& self.is_unopened()
        &&& self.create_compiler@ == "latex"@
        &&& self.default_compiler@ == "latex"@
    }
}

impl Default for ProjectState {
    fn default() -> (r: ProjectState)
        ensures
            r.is_initial(),
    {
        ProjectState {
            projects: Vec::new(),
            selected: 0,
            active: None,
            pane: ProjectPane::ProjectList,
            files: Vec::new(),
            file_selected: 0,
            tree_dir: None,
            rename_input: String::new(),
            rename_cursor: 0,
            entry_rename_path: None,
            create_compiler: "latex".to_owned(),
            default_compiler: "latex".to_owned(),
        }
    }
}

/// The citation search of a project.
#[derive(Debug)]
pub struct CitationSearch {
    pub query: String,
    pub cursor: usize,
    pub results: Vec<ProjectCitationResult>,
    pub selected: usize,
    pub scroll: usize,
    pub search_mode: ProjectCitationSearchMode,
    pub status: Option<String>,
    /// The titles that the bibliography of the project holds, in lower case.
    pub bib_titles: Vec<String>,
}

impl CitationSearch {
    /// As it is at the start.
    pub open spec fn is_initial(self) -> bool {
        &&& self.query@ == Seq::<char>::empty()
        &&& self.cursor == 0
        &&& self.results@ == Seq::<ProjectCitationResult>::empty()
        &&& self.selected == 0
        &&& self.scroll == 0
        &&& self.search_mode == ProjectCitationSearchMode::Local
        &&& self.status is None
        &&& self.bib_titles@ == Seq::<String>::empty()
    }
}

impl Default for CitationSearch {
    fn default() -> (r: CitationSearch)
        ensures
            r.is_initial(),
    {
        CitationSearch {
            query: String::new(),
            cursor: 0,
            results: Vec::new(),
            selected: 0,
            scroll: 0,
            search_mode: ProjectCitationSearchMode::Local,
            status: None,
            bib_titles: Vec::new(),
        }
    }
}

/// The editor of the configuration file.
#[derive(Debug)]
pub struct ConfigEditor {
    pub text: String,
    pub cursor: usize,
    pub scroll: usize,
    pub wrap_width: usize,
    pub viewport_height: usize,
    pub goal_column: Option<usize>,
    pub history: Vec<String>,
    pub history_idx: usize,
    pub command: Option<String>,
    pub error: Option<String>,
    pub insert_mode: bool,
    pub focused: bool,
}

impl ConfigEditor {
    /// As it is at the start.
    pub open spec fn is_initial(self) -> bool {
        &&& self.text@ == Seq::<char>::empty()
        &&& self.cursor == 0
        &&& self.scroll == 0
        &&& self.wrap_width == 0
        &&& self.viewport_height == 0
        &&& self.goal_column is None
        &&& self.history@ == Seq::<String>::empty()
        &&& self.history_idx == 0
        &&& self.command is None
        &&& self.error is None
        &&& !self.insert_mode
        &&& !self.focused
    }
}

impl Default for ConfigEditor {
    fn default() -> (r: ConfigEditor)
        ensures
            r.is_initial(),
    {
        ConfigEditor {
            text: String::new(),
            cursor: 0,
            scroll: 0,
            wrap_width: 0,
            viewport_height: 0,
            goal_column: None,
            history: Vec::new(),
            history_idx: 0,
            command: None,
            error: None,
            insert_mode: false,
            focused: false,
        }
    }
}

/// The command palette.
#[derive(Debug)]
pub struct Palette {
    pub query: String,
    pub query_cursor: usize,
    pub selected: usize,
}

impl Palette {
    /// As it is at the start.
    pub open spec fn is_initial(self) -> bool {
        &&& self.query@ == Seq::<char>::empty()
        &&& self.query_cursor == 0
        &&& self.selected == 0
    }
}

impl Default for Palette {
    fn default() -> (r: Palette)
        ensures
            r.is_initial(),
    {
        Palette { query: String::new(), query_cursor: 0, selected: 0 }
    }
}

/// The terminal palette: a command line, its output and its completions.
#[derive(Debug)]
pub struct TerminalPalette {
    pub command: String,
    pub cursor: usize,
    pub output: String,
    pub directory: Option<String>,
    pub completions: Vec<String>,
    pub completion_selected: Option<usize>,
    pub completion_token_start: usize,
    pub completion_applied: bool,
}

impl TerminalPalette {
    pub open spec fn wf(self) -> bool {
        &&& boundary(self.command@, self.cursor as int)
        &&& boundary(self.command@, self.completion_token_start as int)
        &&& self.completion_selected matches Some(i) ==> i < usize::MAX
    }
}

impl TerminalPalette {
    /// As it is at the start.
    pub open spec fn is_initial(self) -> bool {
        &&& self.command@ == Seq::<char>::empty()
        &&& self.cursor == 0
        &&& self.output@ == Seq::<char>::empty()
        &&& self.directory is None
        &&& self.completions@ == Seq::<String>::empty()
        &&& self.completion_selected is None
        &&& self.completion_token_start == 0
        &&& !self.completion_applied
    }
}

impl Default for TerminalPalette {
    fn default() -> (r: TerminalPalette)
        ensures
            r.is_initial(),
    {
        TerminalPalette {
            command: String::new(),
            cursor: 0,
            output: String::new(),
            directory: None,
            completions: Vec::new(),
            completion_selected: None,
            completion_token_start: 0,
            completion_applied: false,
        }
    }
}

/// The pages in which the workspace search is open: a set kept in a list
/// without repetitions.
#[derive(Debug)]
pub struct PageSet {
    pub pages: Vec<Page>,
}

impl PageSet {
    pub open spec fn wf(self) -> bool {
        self.pages@.no_duplicates()
    }

    pub open spec fn view(self) -> Set<Page> {
        self.pages@.to_set()
    }

    pub fn new() -> (r: PageSet)
        ensures
            r.wf(),
            r@ == Set::<Page>::empty(),
    {
        let r = PageSet { pages: Vec::new() };
        assert(r@ =~= Set::<Page>::empty());
        r
    }

    pub fn contains(&self, page: &Page) -> (r: bool)
        ensures
            r == self@.contains(*page),
    {
        let mut i: usize = 0;
        while i < self.pages.len()
            invariant
                i <= self.pages@.len(),
                forall|k: int| 0 <= k < i ==> self.pages@[k] != *page,
            decreases self.pages.len() - i,
        {
            if self.pages[i] == *page {
                assert(self.pages@[i as int] == *page);
                return true;
            }
            i = i + 1;
        }
        false
    }

    pub fn insert(&mut self, page: Page)
        requires
            old(self).wf(),
        ensures
            final(self).wf(),
            final(self)@ == old(self)@.insert(page),
    {
        let ghost before = self.pages@;
        if !self.contains(&page) {
            self.pages.push(page);
            assert(self.pages@.to_set() =~= before.to_set().insert(page)) by {
                assert forall|p: Page| self.pages@.contains(p) <==> before.contains(p) || p
                    == page by {
                    if before.contains(p) {
                        let k = before.index_of(p);
                        assert(self.pages@[k] == p);
                    }
                    if p == page {
                        assert(self.pages@[before.len() as int] == p);
                    }
                }
            }
            assert(self.pages@.no_duplicates()) by {
                assert(!before.contains(page));
            }
        } else {
            assert(before.to_set() =~= before.to_set().insert(page));
        }
    }

    pub fn remove(&mut self, page: &Page)
        requires
            old(self).wf(),
        ensures
            final(self).wf(),
            final(self)@ == old(self)@.remove(*page),
    {
        let ghost before = self.pages@;
        let mut i: usize = 0;
        while i < self.pages.len()
            invariant
                i <= self.pages@.len(),
                self.pages@ == before,
                before == old(self).pages@,
                before.no_duplicates(),
                forall|k: int| 0 <= k < i ==> before[k] != *page,
            decreases self.pages.len() - i,
        {
            if self.pages[i] == *page {
                self.pages.remove(i);
                let ghost after = self.pages@;
                assert(after =~= before.remove(i as int));
                assert(after.to_set() =~= before.to_set().remove(*page)) by {
                    assert forall|p: Page| after.contains(p) <==> before.contains(p) && p
                        != *page by {
                        if after.contains(p) {
                            let k = after.index_of(p);
                            if k < i {
                                assert(before[k] == p);
                            } else {
                                assert(before[k + 1] == p);
                            }
                        }
                        if before.contains(p) && p != *page {
                            let k = before.index_of(p);
                            if k < i {
                                assert(after[k] == p);
                            } else {
                                assert(after[k - 1] == p);
                            }
                        }
                    }
                }
                assert(after.no_duplicates()) by {
                    assert forall|a: int, b: int|
                        0 <= a < after.len() && 0 <= b < after.len() && a != b implies after[a]
                        != after[b] by {
                        let x = if a < i { a } else { a + 1 };
                        let y = if b < i { b } else { b + 1 };
                        assert(before[x] != before[y]);
                    }
                }
                return ;
            }
            i = i + 1;
        }
        assert(before.to_set() =~= before.to_set().remove(*page)) by {
            assert(!before.contains(*page));
        }
    }
}

/// The search bar shared by the local workspaces.
#[derive(Debug)]
pub struct WorkspaceSearch {
    pub query: String,
    pub cursor: usize,
    pub active: PageSet,
}

impl WorkspaceSearch {
    /// As it is at the start.
    pub open spec fn is_initial(self) -> bool {
        &&& self.query@ == Seq::<char>::empty()
        &&& self.cursor == 0
        &&& self.active.wf()
        &&& self.active@ == Set::<Page>::empty()
    }
}

impl Default for WorkspaceSearch {
    fn default() -> (r: WorkspaceSearch)
        ensures
            r.is_initial(),
    {
        WorkspaceSearch { query: String::new(), cursor: 0, active: PageSet::new() }
    }
}

/// The online search.
#[derive(Debug)]
pub struct DiscoveryState {
    pub query: String,
    pub query_cursor: usize,
    pub results: Vec<RemotePaper>,
    pub selected: usize,
    pub scroll: usize,
    pub page: usize,
    pub filter: String,
    pub filter_cursor: usize,
    pub status: DiscoveryStatus,
    pub progress_message: Option<String>,
    pub next_batch_start: Option<u16>,
    pub request_id: u64,
    pub detail_scroll: usize,
}

impl DiscoveryState {
    /// As it is at the start.
    pub open spec fn is_initial(self) -> bool {
        &&& self.query@ == Seq::<char>::empty()
        &&& self.query_cursor == 0
        &&& self.results@ == Seq::<RemotePaper>::empty()
        &&& self.selected == 0
        &&& self.scroll == 0
        &&& self.page == 0
        &&& self.filter@ == Seq::<char>::empty()
        &&& self.filter_cursor == 0
        &&& self.status == DiscoveryStatus::Idle
        &&& self.progress_message is None
        &&& self.next_batch_start is None
        &&& self.request_id == 0
        &&& self.detail_scroll == 0
    }
}

impl Default for DiscoveryState {
    fn default() -> (r: DiscoveryState)
        ensures
            r.is_initial(),
    {
        DiscoveryState {
            query: String::new(),
            query_cursor: 0,
            results: Vec::new(),
            selected: 0,
            scroll: 0,
            page: 0,
            filter: String::new(),
            filter_cursor: 0,
            status: DiscoveryStatus::Idle,
            progress_message: None,
            next_batch_start: None,
            request_id: 0,
            detail_scroll: 0,
        }
    }
}

/// The library page.
#[derive(Debug)]
pub struct LibraryState {
    pub papers: Vec<LibraryPaper>,
    pub selected: usize,
    pub indexing: bool,
    pub message: Option<String>,
}

impl LibraryState {
    /// As it is at the start.
    pub open spec fn is_initial(self) -> bool {
        &&& self.papers@ == Seq::<LibraryPaper>::empty()
        &&& self.selected == 0
        &&& !self.indexing
        &&& self.message is None
    }
}

impl Default for LibraryState {
    fn default() -> (r: LibraryState)
        ensures
            r.is_initial(),
    {
        LibraryState { papers: Vec::new(), selected: 0, indexing: false, message: None }
    }
}

/// The daily feed on the dashboard.
#[derive(Debug)]
pub struct TodayState {
    pub papers: Vec<RemotePaper>,
    pub selected: usize,
    pub status: DiscoveryStatus,
}

impl TodayState {
    /// As it is at the start.
    pub open spec fn is_initial(self) -> bool {
        &&& self.papers@ == Seq::<RemotePaper>::empty()
        &&& self.selected == 0
        &&& self.status == DiscoveryStatus::Idle
    }
}

impl Default for TodayState {
    fn default() -> (r: TodayState)
        ensures
            r.is_initial(),
    {
        TodayState { papers: Vec::new(), selected: 0, status: DiscoveryStatus::Idle }
    }
}

/// The collections page.
#[derive(Debug)]
pub struct CollectionsState {
    pub items: Vec<CollectionSummary>,
    pub selected: usize,
    pub active: Option<CollectionSummary>,
    pub papers: Vec<LibraryPaper>,
    pub paper_selected: usize,
    pub last_opened_id: Option<i64>,
    /// The papers of all collections, each with the collection it is in.
    pub members: Vec<(i64, LibraryPaper)>,
}

impl CollectionsState {
    /// As it is at the start.
    pub open spec fn is_initial(self) -> bool {
        &&& self.items@ == Seq::<CollectionSummary>::empty()
        &&& self.selected == 0
        &&& self.active is None
        &&& self.papers@ == Seq::<LibraryPaper>::empty()
        &&& self.paper_selected == 0
        &&& self.last_opened_id is None
        &&& self.members@ == Seq::<(i64, LibraryPaper)>::empty()
    }
}

impl Default for CollectionsState {
    fn default() -> (r: CollectionsState)
        ensures
            r.is_initial(),
    {
        CollectionsState {
            items: Vec::new(),
            selected: 0,
            active: None,
            papers: Vec::new(),
            paper_selected: 0,
            last_opened_id: None,
            members: Vec::new(),
        }
    }
}

/// The authors page.
#[derive(Debug)]
pub struct AuthorsState {
    pub items: Vec<AuthorSummary>,
    pub selected: usize,
    pub active: Option<AuthorSummary>,
    pub papers: Vec<LibraryPaper>,
    pub paper_selected: usize,
    pub last_opened_id: Option<i64>,
}

impl AuthorsState {
    /// As it is at the start.
    pub open spec fn is_initial(self) -> bool {
        &&& self.items@ == Seq::<AuthorSummary>::empty()
        &&& self.selected == 0
        &&& self.active is None
        &&& self.papers@ == Seq::<LibraryPaper>::empty()
        &&& self.paper_selected == 0
        &&& self.last_opened_id is None
    }
}

impl Default for AuthorsState {
    fn default() -> (r: AuthorsState)
        ensures
            r.is_initial(),
    {
        AuthorsState {
            items: Vec::new(),
            selected: 0,
            active: None,
            papers: Vec::new(),
            paper_selected: 0,
            last_opened_id: None,
        }
    }
}

/// The bookmarks page.
#[derive(Debug)]
pub struct BookmarksState {
    pub items: Vec<BookmarkSummary>,
    pub selected: usize,
}

impl BookmarksState {
    /// As it is at the start.
    pub open spec fn is_initial(self) -> bool {
        &&& self.items@ == Seq::<BookmarkSummary>::empty()
        &&& self.selected == 0
    }
}

impl Default for BookmarksState {
    fn default() -> (r: BookmarksState)
        ensures
            r.is_initial(),
    {
        BookmarksState { items: Vec::new(), selected: 0 }
    }
}

/// The notes page and the note editor.
#[derive(Debug)]
pub struct NotesState {
    pub papers: Vec<LibraryPaper>,
    pub selected: usize,
    pub editor: Option<PaperNote>,
    pub scroll: usize,
    pub preview: bool,
}

impl NotesState {
    /// As it is at the start.
    pub open spec fn is_initial(self) -> bool {
        &&& self.papers@ == Seq::<LibraryPaper>::empty()
        &&& self.selected == 0
        &&& self.editor is None
        &&& self.scroll == 0
        &&& !self.preview
    }
}

impl Default for NotesState {
    fn default() -> (r: NotesState)
        ensures
            r.is_initial(),
    {
        NotesState { papers: Vec::new(), selected: 0, editor: None, scroll: 0, preview: false }
    }
}

/// The reading queue page.
#[derive(Debug)]
pub struct ReadingQueueState {
    pub papers: Vec<LibraryPaper>,
    pub selected: usize,
}

impl ReadingQueueState {
    /// As it is at the start.
    pub open spec fn is_initial(self) -> bool {
        &&& self.papers@ == Seq::<LibraryPaper>::empty()
        &&& self.selected == 0
    }
}

impl Default for ReadingQueueState {
    fn default() -> (r: ReadingQueueState)
        ensures
            r.is_initial(),
    {
        ReadingQueueState { papers: Vec::new(), selected: 0 }
    }
}

/// The downloads page.
#[derive(Debug)]
pub struct DownloadsState {
    pub items: Vec<DownloadTask>,
    pub selected: usize,
}

impl DownloadsState {
    /// As it is at the start.
    pub open spec fn is_initial(self) -> bool {
        &&& self.items@ == Seq::<DownloadTask>::empty()
        &&& self.selected == 0
    }
}

impl Default for DownloadsState {
    fn default() -> (r: DownloadsState)
        ensures
            r.is_initial(),
    {
        DownloadsState { items: Vec::new(), selected: 0 }
    }
}

/// The embedded PDF viewer; `program` is the configured viewer.
#[derive(Debug)]
pub struct PdfViewerState {
    pub program: String,
    pub path: Option<String>,
    pub page: usize,
    pub total_pages: usize,
    pub scroll_y: u64,
    pub max_scroll_y: u64,
    pub page_pixel_h: u64,
    pub row_pixel_h: u32,
    pub session_id: Option<i64>,
    pub session_start: Option<u64>,
}

impl PdfViewerState {
    /// No document is shown yet; whatever the program is.
    pub open spec fn is_unopened(self) -> bool {
        &&& self.path is None
        &&& self.page == 1
        &&& self.total_pages == 0
        &&& self.scroll_y == 0
        &&& self.max_scroll_y == 0
        &&& self.page_pixel_h == 0
        &&& self.row_pixel_h == 1
        &&& self.session_id is None
        &&& self.session_start is None
    }

    /// As it is at the start.
    pub open spec fn is_initial(self) -> bool {
        &&& self.is_unopened()
        &&& self.program@ == "internal"@
    }
}

impl Default for PdfViewerState {
    fn default() -> (r: PdfViewerState)
        ensures
            r.is_initial(),
    {
        PdfViewerState {
            program: "internal".to_owned(),
            path: None,
            page: 1,
            total_pages: 0,
            scroll_y: 0,
            max_scroll_y: 0,
            page_pixel_h: 0,
            row_pixel_h: 1,
            session_id: None,
            session_start: None,
        }
    }
}

/// The whole state of the application.
#[derive(Debug)]
pub struct App {
    pub page: Page,
    pub sidebar_index: usize,
    pub content_focused: bool,
    pub mode: AppMode,
    pub modal_return: AppMode,
    pub help_return_mode: AppMode,
    pub help_scroll: usize,
    pub toast: Option<String>,
    /// When the toast was first drawn, by the clock below.
    pub toast_timestamp: Option<u64>,
    /// Milliseconds since the application started.
    pub clock_ms: u64,
    /// The system that the application runs on.
    pub platform: Platform,
    pub should_quit: bool,
    pub enrichment_pending: bool,
    pub home_directory: Option<String>,
    pub paper_detail_scroll: usize,
    pub credits_selected: usize,
    pub delete_confirmation: Option<DeletionTarget>,
    pub metadata_prompt: Option<MetadataPrompt>,
    pub discovery: DiscoveryState,
    pub library: LibraryState,
    pub today: TodayState,
    pub collections: CollectionsState,
    pub authors: AuthorsState,
    pub bookmarks: BookmarksState,
    pub notes: NotesState,
    pub reading_queue: ReadingQueueState,
    pub downloads: DownloadsState,
    pub palette: Palette,
    pub terminal: TerminalPalette,
    pub workspace_search: WorkspaceSearch,
    pub project: ProjectState,
    pub project_editor: ProjectEditor,
    pub project_build: ProjectBuild,
    pub citation_search: CitationSearch,
    pub config_editor: ConfigEditor,
    pub pdf_viewer: PdfViewerState,
}

impl App {
    /// Every cursor that a key can move next stands on a character boundary.
    pub open spec fn wf(self) -> bool {
        &&& self.project_editor.wf()
        &&& boundary(self.discovery.filter@, self.discovery.filter_cursor as int)
        &&& boundary(self.palette.query@, self.palette.query_cursor as int)
        &&& self.terminal.wf()
        &&& boundary(self.workspace_search.query@, self.workspace_search.cursor as int)
        &&& boundary(self.project.rename_input@, self.project.rename_cursor as int)
        &&& self.workspace_search.active.wf()
        &&& self.sidebar_index < PAGE_COUNT
        &&& self.modal_return == AppMode::Normal || self.modal_return == AppMode::PaperDetail
        &&& self.citation_search_wf()
        &&& self.prompt_wf()
        &&& self.note_wf()
    }

    pub open spec fn citation_search_wf(self) -> bool {
        self.mode == AppMode::ProjectCitationSearch || self.mode == AppMode::Help
            && self.help_return_mode == AppMode::ProjectCitationSearch ==> boundary(
            self.citation_search.query@,
            self.citation_search.cursor as int,
        )
    }

    pub open spec fn prompt_wf(self) -> bool {
        self.metadata_prompt matches Some(p) ==> boundary(p.value@, p.cursor as int)
    }

    pub open spec fn note_wf(self) -> bool {
        self.notes.editor matches Some(n) ==> boundary(n.body@, n.cursor as int)
    }

    /// Nothing has been done yet: every field that no configuration names is as it
    /// is at the start.
    pub open spec fn is_unused(self) -> bool {
        &&& !self.content_focused
        &&& self.mode == AppMode::Normal
        &&& self.modal_return == AppMode::Normal
        &&& self.help_return_mode == AppMode::Normal
        &&& self.help_scroll == 0
        &&& self.toast is None
        &&& self.toast_timestamp is None
        &&& self.clock_ms == 0
        &&& !self.should_quit
        &&& !self.enrichment_pending
        &&& self.home_directory is None
        &&& self.paper_detail_scroll == 0
        &&& self.credits_selected == 0
        &&& self.delete_confirmation is None
        &&& self.metadata_prompt is None
        &&& self.discovery.is_initial()
        &&& self.library.is_initial()
        &&& self.today.is_initial()
        &&& self.collections.is_initial()
        &&& self.authors.is_initial()
        &&& self.bookmarks.is_initial()
        &&& self.notes.is_initial()
        &&& self.reading_queue.is_initial()
        &&& self.downloads.is_initial()
        &&& self.palette.is_initial()
        &&& self.terminal.is_initial()
        &&& self.workspace_search.is_initial()
        &&& self.project.is_unopened()
        &&& self.project_editor.is_initial()
        &&& self.project_build.is_initial()
        &&& self.citation_search.is_initial()
        &&& self.config_editor.is_initial()
        &&& self.pdf_viewer.is_unopened()
    }

    /// The cursor of the online search stands on a character boundary.
    pub open spec fn search_cursor_ok(self) -> bool {
        boundary(self.discovery.query@, self.discovery.query_cursor as int)
    }
}

impl Default for App {
    fn default() -> (r: App)
        ensures
            r.wf(),
            r.search_cursor_ok(),
            r.page == Page::Dashboard,
            r.sidebar_index == 0,
            r.is_unused(),
            r.platform == Platform::Other,
            r.project.is_initial(),
            r.pdf_viewer.is_initial(),
    {
        let app = App {
            page: Page::Dashboard,
            sidebar_index: 0,
            content_focused: false,
            mode: AppMode::Normal,
            modal_return: AppMode::Normal,
            help_return_mode: AppMode::Normal,
            help_scroll: 0,
            toast: None,
            toast_timestamp: None,
            clock_ms: 0,
            platform: Platform::Other,
            should_quit: false,
            enrichment_pending: false,
            home_directory: None,
            paper_detail_scroll: 0,
            credits_selected: 0,
            delete_confirmation: None,
            metadata_prompt: None,
            discovery: DiscoveryState::default(),
            library: LibraryState::default(),
            today: TodayState::default(),
            collections: CollectionsState::default(),
            authors: AuthorsState::default(),
            bookmarks: BookmarksState::default(),
            notes: NotesState::default(),
            reading_queue: ReadingQueueState::default(),
            downloads: DownloadsState::default(),
            palette: Palette::default(),
            terminal: TerminalPalette::default(),
            workspace_search: WorkspaceSearch::default(),
            project: ProjectState::default(),
            project_editor: ProjectEditor::default(),
            project_build: ProjectBuild::default(),
            citation_search: CitationSearch::default(),
            config_editor: ConfigEditor::default(),
            pdf_viewer: PdfViewerState::default(),
        };
        proof {
            crate::text::lemma_ends(Seq::<char>::empty());
        }
        app
    }
}

/// The configuration names a page by its title, in lower case and with an underscore for each
/// space.
pub proof fn law_pages_are_named_after_their_titles(page: Page)
    ensures
        page.name_spec().len() == page.title_spec().len(),
        forall|i: int|
            0 <= i < page.title_spec().len() ==> #[trigger] page.name_spec()[i] == if page.title_spec()[i]
                == ' ' {
                '_'
            } else {
                ascii_lower(page.title_spec()[i])
            },
{
    reveal_strlit("dashboard");
    reveal_strlit("Dashboard");
    reveal_strlit("discover");
    reveal_strlit("Discover");
    reveal_strlit("library");
    reveal_strlit("Library");
    reveal_strlit("reading_queue");
    reveal_strlit("Reading Queue");
    reveal_strlit("collections");
    reveal_strlit("Collections");
    reveal_strlit("downloads");
    reveal_strlit("Downloads");
    reveal_strlit("bookmarks");
    reveal_strlit("Bookmarks");
    reveal_strlit("authors");
    reveal_strlit("Authors");
    reveal_strlit("notes");
    reveal_strlit("Notes");
    reveal_strlit("projects");
    reveal_strlit("Projects");
    reveal_strlit("history");
    reveal_strlit("History");
    reveal_strlit("statistics");
    reveal_strlit("Statistics");
    reveal_strlit("settings");
    reveal_strlit("Settings");
    reveal_strlit("credits");
    reveal_strlit("Credits");
}

/// The sidebar shows every page once: a page stands where its position says, and no other page
/// stands there.
pub proof fn law_every_page_has_its_place(page: Page, other: Page)
    ensures
        0 <= page.position_spec() < pages().len(),
        pages()[page.position_spec()] == page,
        page.position_spec() == other.position_spec() ==> page == other,
        forall|i: int| 0 <= i < pages().len() ==> (#[trigger] pages()[i]).position_spec() == i,
{
}

} // verus!
