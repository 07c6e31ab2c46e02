//! The configuration, and what follows from a change of it.

use vstd::prelude::*;
use crate::feed::Feed;
use crate::model::{clone_texts, opt_text, Project};
use crate::paths::{is_below, path_eq, path_starts_with, same_path, same_texts_upto};
use crate::select::{clamp_selection, clamped_selection};
use crate::state::{App, Page, PdfViewerState, ProjectPane, ProjectState};
use crate::text::same_text;
use crate::viewer::{default_pdf_viewer, default_viewer, Platform};
use crate::wrap::texts;

verus! {

/// The part of the configuration that the application works with.
#[derive(Debug)]
pub struct Config {
    pub theme: String,
    pub startup_page: String,
    pub pdf_viewer: Option<String>,
    pub projects_directory: Option<String>,
    pub download_path: Option<String>,
    pub library_folders: Vec<String>,
    pub dashboard_keywords: Vec<String>,
    pub enabled_plugins: Vec<String>,
    pub default_project_compiler: String,
}

/// The viewer that the configuration names, or the one of the platform.
pub open spec fn viewer_of(config: Config, platform: Platform) -> Seq<char> {
    match config.pdf_viewer {
        Some(viewer) => viewer@,
        None => default_viewer(platform),
    }
}

fn configured_viewer(config: &Config, platform: Platform) -> (r: String)
    ensures
        r@ == viewer_of(*config, platform),
{
    match &config.pdf_viewer {
        Some(viewer) => viewer.clone(),
        None => default_pdf_viewer(platform),
    }
}

/// The page that the application starts on: the one that the configuration names,
/// or the dashboard.
pub open spec fn is_startup_page(config: Config, page: Page) -> bool {
    if exists|p: Page| #[trigger] p.name_spec() == config.startup_page@ {
        page.name_spec() == config.startup_page@
    } else {
        page == Page::Dashboard
    }
}

/// The state of the application at the start.
pub fn initial_app(config: &Config, platform: Platform) -> (app: App)
    ensures
        app.wf(),
        app.search_cursor_ok(),
        is_startup_page(*config, app.page),
        app.sidebar_index == app.page.position_spec(),
        app.project.create_compiler@ == config.default_project_compiler@,
        app.project.default_compiler@ == config.default_project_compiler@,
        app.pdf_viewer.program@ == viewer_of(*config, platform),
        app.is_unused(),
        app.platform == platform,
{
    let page = match Page::from_config_str(config.startup_page.as_str()) {
        Some(page) => page,
        None => Page::Dashboard,
    };
    let mut app = App::default();
    app.platform = platform;
    app.page = page;
    app.sidebar_index = page.position();
    app.project.create_compiler = config.default_project_compiler.clone();
    app.project.default_compiler = config.default_project_compiler.clone();
    app.pdf_viewer.program = configured_viewer(config, platform);
    app
}

/// What two configurations differ in.
#[derive(Debug, Clone, Copy, PartialEq, Eq, Structural)]
pub struct ConfigChanges {
    pub theme: bool,
    pub viewer: bool,
    pub projects_directory: bool,
    /// The folders of the library or that of the downloads.
    pub paths: bool,
    pub plugins: bool,
}

/// Two optional paths are the same.
pub open spec fn same_optional_path(os: Platform, a: Option<String>, b: Option<String>) -> bool {
    match (a, b) {
        (Some(x), Some(y)) => same_path(os, x@, y@),
        (None, None) => true,
        _ => false,
    }
}

fn optional_path_eq(os: Platform, a: &Option<String>, b: &Option<String>) -> (r: bool)
    ensures
        r == same_optional_path(os, *a, *b),
{
    match (a, b) {
        (Some(x), Some(y)) => path_eq(os, x.as_str(), y.as_str()),
        (None, None) => true,
        _ => false,
    }
}

/// Two lists of paths are the same.
pub open spec fn same_paths(os: Platform, a: Seq<String>, b: Seq<String>) -> bool {
    &&& a.len() == b.len()
    &&& forall|i: int| 0 <= i < a.len() ==> same_path(os, (#[trigger] a[i])@, b[i]@)
}

fn paths_eq(os: Platform, a: &Vec<String>, b: &Vec<String>) -> (r: bool)
    ensures
        r == same_paths(os, a@, b@),
{
    if a.len() != b.len() {
        return false;
    }
    let mut i: usize = 0;
    while i < a.len()
        invariant
            i <= a@.len(),
            a@.len() == b@.len(),
            forall|k: int| 0 <= k < i ==> same_path(os, (#[trigger] a@[k])@, b@[k]@),
        decreases a.len() - i,
    {
        if !path_eq(os, a[i].as_str(), b[i].as_str()) {
            return false;
        }
        i = i + 1;
    }
    true
}

fn texts_eq(a: &Vec<String>, b: &Vec<String>) -> (r: bool)
    ensures
        r == (texts(a@) == texts(b@)),
{
    assert(a@.len() == texts(a@).len() && b@.len() == texts(b@).len());
    if a.len() != b.len() {
        return false;
    }
    assert(texts(a@).take(a@.len() as int) =~= texts(a@));
    assert(texts(b@).take(b@.len() as int) =~= texts(b@));
    same_texts_upto(a, b, a.len())
}

fn optional_text_eq(a: &Option<String>, b: &Option<String>) -> (r: bool)
    ensures
        r == (opt_text(*a) == opt_text(*b)),
{
    match (a, b) {
        (Some(x), Some(y)) => same_text(x.as_str(), y.as_str()),
        (None, None) => true,
        _ => false,
    }
}

/// What two configurations differ in.
pub open spec fn changes_between(os: Platform, previous: Config, config: Config) -> ConfigChanges {
    ConfigChanges {
        theme: config.theme@ != previous.theme@,
        viewer: opt_text(config.pdf_viewer) != opt_text(previous.pdf_viewer),
        projects_directory: !same_optional_path(
            os,
            config.projects_directory,
            previous.projects_directory,
        ),
        paths: !same_optional_path(os, config.download_path, previous.download_path) || !same_paths(
            os,
            config.library_folders@,
            previous.library_folders@,
        ),
        plugins: texts(config.enabled_plugins@) != texts(previous.enabled_plugins@),
    }
}

/// What two configurations differ in.
pub fn config_changes(os: Platform, previous: &Config, config: &Config) -> (r: ConfigChanges)
    ensures
        r == changes_between(os, *previous, *config),
{
    ConfigChanges {
        theme: !same_text(config.theme.as_str(), previous.theme.as_str()),
        viewer: !optional_text_eq(&config.pdf_viewer, &previous.pdf_viewer),
        projects_directory: !optional_path_eq(
            os,
            &config.projects_directory,
            &previous.projects_directory,
        ),
        paths: !optional_path_eq(os, &config.download_path, &previous.download_path) || !paths_eq(
            os,
            &config.library_folders,
            &previous.library_folders,
        ),
        plugins: !texts_eq(&config.enabled_plugins, &previous.enabled_plugins),
    }
}

/// Takes over the viewer that the configuration names. The preview cannot keep
/// the focus beside an external viewer.
pub fn apply_viewer_change(app: &mut App, config: &Config)
    ensures
        *final(app) == (App {
            pdf_viewer: PdfViewerState {
                program: final(app).pdf_viewer.program,
                ..old(app).pdf_viewer
            },
            project: ProjectState {
                pane: if viewer_of(
                    *config,
                    old(app).platform,
                ) != "internal"@ && old(app).project.pane
                    == ProjectPane::Preview {
                    ProjectPane::FileTree
                } else {
                    old(app).project.pane
                },
                ..old(app).project
            },
            ..*old(app)
        }),
        final(app).pdf_viewer.program@ == viewer_of(*config, old(app).platform),
        old(app).wf() ==> final(app).wf(),
{
    app.pdf_viewer.program = configured_viewer(config, app.platform);
    if !same_text(app.pdf_viewer.program.as_str(), "internal") && app.project.pane
        == ProjectPane::Preview {
        app.project.pane = ProjectPane::FileTree;
    }
}

/// Takes over the compiler that new projects start with.
pub fn apply_compiler_change(app: &mut App, config: &Config)
    ensures
        *final(app) == (App {
            project: ProjectState {
                create_compiler: config.default_project_compiler,
                default_compiler: config.default_project_compiler,
                ..old(app).project
            },
            ..*old(app)
        }),
        old(app).wf() ==> final(app).wf(),
{
    app.project.create_compiler = config.default_project_compiler.clone();
    app.project.default_compiler = config.default_project_compiler.clone();
}

/// What is left to do once the state follows another configuration.
#[derive(Debug, Clone, Copy, PartialEq, Eq, Structural)]
pub struct ConfigUpdate {
    pub changes: ConfigChanges,
    /// The daily feed is another one.
    pub feed: bool,
}

/// The state and the feed follow another configuration.
pub open spec fn config_applied(
    pre: App,
    feed: Feed,
    previous: Config,
    config: Config,
    post: App,
    feed2: Feed,
    update: ConfigUpdate,
) -> bool {
    let changes = changes_between(pre.platform, previous, config);
    let external = viewer_of(config, pre.platform) != "internal"@;
    &&& update.changes == changes
    &&& update.feed == (feed2.keyword_signature@ != feed.keyword_signature@)
    &&& post == App {
        project: ProjectState {
            create_compiler: config.default_project_compiler,
            default_compiler: config.default_project_compiler,
            pane: if changes.viewer && external && pre.project.pane == ProjectPane::Preview {
                ProjectPane::FileTree
            } else {
                pre.project.pane
            },
            ..pre.project
        },
        pdf_viewer: PdfViewerState { program: post.pdf_viewer.program, ..pre.pdf_viewer },
        ..pre
    }
    &&& post.pdf_viewer.program@ == if changes.viewer {
        viewer_of(config, pre.platform)
    } else {
        pre.pdf_viewer.program@
    }
    &&& feed2 == Feed {
        keywords: feed2.keywords,
        keyword_signature: feed2.keyword_signature,
        ..feed
    }
    &&& feed2.keywords@ == config.dashboard_keywords@
    &&& feed2.wf()
}

/// Takes another configuration into use, as far as the state goes. The result says
/// what else has to follow it.
pub fn apply_config_update(
    app: &mut App,
    feed: &mut Feed,
    previous: &Config,
    config: &Config,
) -> (update: ConfigUpdate)
    ensures
        config_applied(
            *old(app),
            *old(feed),
            *previous,
            *config,
            *final(app),
            *final(feed),
            update,
        ),
        old(app).wf() ==> final(app).wf(),
{
    let changes = config_changes(app.platform, previous, config);
    if changes.viewer {
        apply_viewer_change(app, config);
    }
    apply_compiler_change(app, config);
    let changed = feed.set_keywords(clone_texts(&config.dashboard_keywords));
    ConfigUpdate { changes, feed: changed }
}

/// A configuration that says the same changes nothing but what it names again: the
/// viewer stays, and so does the pane that has the focus.
pub proof fn law_same_configuration_changes_nothing(
    pre: App,
    feed: Feed,
    config: Config,
    post: App,
    feed2: Feed,
    update: ConfigUpdate,
)
    requires
        config_applied(pre, feed, config, config, post, feed2, update),
        feed.wf(),
        feed.keywords@ == config.dashboard_keywords@,
    ensures
        update == (ConfigUpdate {
            changes: ConfigChanges {
                theme: false,
                viewer: false,
                projects_directory: false,
                paths: false,
                plugins: false,
            },
            feed: false,
        }),
        post.pdf_viewer.program@ == pre.pdf_viewer.program@,
        post.project.pane == pre.project.pane,
{
}

/// Takes over another list of projects.
pub fn show_projects(p: &mut ProjectState, projects: Vec<Project>)
    ensures
        *final(p) == (ProjectState {
            projects,
            selected: clamped_selection(
                old(p).selected as int,
                projects@.len() as int,
            ) as usize,
            ..*old(p)
        }),
{
    p.selected = clamp_selection(p.selected, projects.len());
    p.projects = projects;
}

/// Where the papers are: the folders with the collections, and with them the
/// folder of the downloads.
#[derive(Debug)]
pub struct LibraryLocations {
    pub platform: Platform,
    pub download_dir: String,
    pub collection_roots: Vec<String>,
    pub library_roots: Vec<String>,
}

/// The folder lies in one of the roots.
pub open spec fn lies_in_one(os: Platform, folder: Seq<char>, roots: Seq<String>) -> bool {
    exists|i: int| 0 <= i < roots.len() && is_below(os, folder, (#[trigger] roots[i])@)
}

fn is_covered(os: Platform, folder: &str, roots: &Vec<String>) -> (r: bool)
    ensures
        r == lies_in_one(os, folder@, roots@),
{
    let mut i: usize = 0;
    while i < roots.len()
        invariant
            i <= roots@.len(),
            forall|k: int| 0 <= k < i ==> !is_below(os, folder@, (#[trigger] roots@[k])@),
        decreases roots.len() - i,
    {
        if path_starts_with(os, folder, roots[i].as_str()) {
            assert(is_below(os, folder@, roots@[i as int]@));
            return true;
        }
        i = i + 1;
    }
    false
}

impl LibraryLocations {
    /// The folders of the library, and the folder of the downloads unless it lies in
    /// one of them.
    pub open spec fn wf(self) -> bool {
        self.library_roots@ == if lies_in_one(
            self.platform,
            self.download_dir@,
            self.collection_roots@,
        ) {
            self.collection_roots@
        } else {
            self.collection_roots@.push(self.download_dir)
        }
    }

    /// Where the papers are. Both arguments have every link resolved.
    pub fn resolve(os: Platform, download_dir: String, collection_roots: Vec<String>) -> (r:
        LibraryLocations)
        ensures
            r.wf(),
            r.platform == os,
            r.download_dir == download_dir,
            r.collection_roots == collection_roots,
    {
        let mut library_roots = clone_texts(&collection_roots);
        if !is_covered(os, download_dir.as_str(), &collection_roots) {
            library_roots.push(download_dir.clone());
        }
        LibraryLocations { platform: os, download_dir, collection_roots, library_roots }
    }

    /// The folder that new collections go to.
    pub fn primary_root(&self) -> (r: &String)
        requires
            self.wf(),
        ensures
            *r == self.library_roots@[0],
    {
        proof {
            law_downloads_are_in_the_library(*self);
        }
        &self.library_roots[0]
    }
}

/// The library has at least one folder, and the downloads lie in it.
pub proof fn law_downloads_are_in_the_library(locations: LibraryLocations)
    requires
        locations.wf(),
    ensures
        locations.library_roots@.len() > 0,
        lies_in_one(locations.platform, locations.download_dir@, locations.library_roots@),
{
    if !lies_in_one(locations.platform, locations.download_dir@, locations.collection_roots@) {
        let last = locations.library_roots@.len() - 1;
        crate::paths::law_below_is_a_preorder(
            locations.platform,
            locations.download_dir@,
            locations.download_dir@,
            locations.download_dir@,
        );
        assert(is_below(
            locations.platform,
            locations.download_dir@,
            locations.library_roots@[last]@,
        ));
    }
}

/// The folder that the configuration names, or the usual one.
pub fn configured_folder(folder: &Option<String>, usual: &String) -> (r: String)
    ensures
        r == match *folder {
            Some(folder) => folder,
            None => *usual,
        },
{
    match folder {
        Some(folder) => folder.clone(),
        None => usual.clone(),
    }
}

/// A change of the configuration is what it says: each part counts as changed exactly where it
/// differs, and on no account of another part.
pub proof fn law_changes_are_those_of_the_parts(os: Platform, previous: Config, config: Config)
    ensures
        ({
            let c = changes_between(os, previous, config);
            &&& c.theme <==> config.theme@ != previous.theme@
            &&& c.viewer <==> opt_text(config.pdf_viewer) != opt_text(previous.pdf_viewer)
            &&& config.enabled_plugins@.len() != previous.enabled_plugins@.len() ==> c.plugins
            &&& c.plugins ==> config.enabled_plugins@.len() != previous.enabled_plugins@.len()
                || exists|i: int|
                0 <= i < config.enabled_plugins@.len() && (#[trigger] config.enabled_plugins@[i])@
                    != previous.enabled_plugins@[i]@
            &&& config.library_folders@.len() != previous.library_folders@.len() ==> c.paths
            &&& forall|i: int|
                0 <= i < config.library_folders@.len() && i < previous.library_folders@.len()
                    && !same_path(
                    os,
                    (#[trigger] config.library_folders@[i])@,
                    previous.library_folders@[i]@,
                ) ==> c.paths
            &&& config.download_path is Some != previous.download_path is Some ==> c.paths
            &&& config.projects_directory is Some != previous.projects_directory is Some
                ==> c.projects_directory
            &&& config.projects_directory is Some && previous.projects_directory is Some ==> (
            c.projects_directory <==> !same_path(
                os,
                config.projects_directory->0@,
                previous.projects_directory->0@,
            ))
        }),
{
    let (a, b) = (texts(config.enabled_plugins@), texts(previous.enabled_plugins@));
    assert(a.len() == config.enabled_plugins@.len() && b.len() == previous.enabled_plugins@.len());
    if a != b && a.len() == b.len() {
        assert(!(a =~= b));
        let i = choose|i: int| 0 <= i < a.len() && a[i] != b[i];
        assert(config.enabled_plugins@[i]@ != previous.enabled_plugins@[i]@);
    }
}

/// Another configuration is followed: the viewer where it changed, the compiler for new projects
/// and the keywords of the feed; the preview gives up the focus to an external viewer, and
/// nothing else of the state changes.
pub proof fn law_configurations_are_followed(
    pre: App,
    feed: Feed,
    previous: Config,
    config: Config,
    post: App,
    feed2: Feed,
    update: ConfigUpdate,
)
    requires
        config_applied(pre, feed, previous, config, post, feed2, update),
    ensures
        post.project.create_compiler == config.default_project_compiler,
        post.project.default_compiler == config.default_project_compiler,
        ({
            let changed = opt_text(config.pdf_viewer) != opt_text(previous.pdf_viewer);
            &&& changed && config.pdf_viewer is Some ==> post.pdf_viewer.program@
                == config.pdf_viewer->0@
            &&& changed && config.pdf_viewer is None ==> post.pdf_viewer.program@
                == default_viewer(pre.platform)
            &&& !changed ==> post.pdf_viewer.program@ == pre.pdf_viewer.program@
                && post.project.pane == pre.project.pane
            &&& changed && pre.project.pane == ProjectPane::Preview && post.pdf_viewer.program@
                != "internal"@ ==> post.project.pane == ProjectPane::FileTree
            &&& post.project.pane != pre.project.pane ==> pre.project.pane == ProjectPane::Preview
        }),
        feed2.keywords@ == config.dashboard_keywords@,
        feed2.date == feed.date,
        update.feed <==> feed2.keyword_signature@ != feed.keyword_signature@,
        post.project_editor == pre.project_editor,
        post.library == pre.library,
        post.page == pre.page,
{
}

/// The application starts on the page that the configuration names, and on the dashboard where it
/// names none.
pub proof fn law_the_application_starts_where_it_is_told(config: Config, page: Page, named: Page)
    requires
        is_startup_page(config, page),
    ensures
        named.name_spec() == config.startup_page@ ==> page.name_spec() == named.name_spec(),
        (forall|p: Page| #[trigger] p.name_spec() != config.startup_page@) ==> page
            == Page::Dashboard,
{
}

/// The library holds every folder with collections, and the folder of the downloads where it lies
/// in none of them.
pub proof fn law_library_folders(locations: LibraryLocations)
    requires
        locations.wf(),
    ensures
        forall|i: int|
            0 <= i < locations.collection_roots@.len() ==> locations.library_roots@[i]
                == #[trigger] locations.collection_roots@[i],
        ({
            let covered = exists|i: int|
                0 <= i < locations.collection_roots@.len() && is_below(
                    locations.platform,
                    locations.download_dir@,
                    (#[trigger] locations.collection_roots@[i])@,
                );
            &&& covered ==> locations.library_roots@.len() == locations.collection_roots@.len()
            &&& !covered ==> locations.library_roots@.len() == locations.collection_roots@.len() + 1
                && locations.library_roots@.last() == locations.download_dir
        }),
{
}

} // verus!
