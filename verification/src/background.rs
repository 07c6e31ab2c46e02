//! What the main loop does between two drawings.

use vstd::prelude::*;
use crate::actions::UiAction;
use crate::config_editor::message;
use crate::discovery::query_takes;
use crate::downloads::{downloads_expired, expire_downloads};
use crate::keymap::{handle_key, key_counts, key_step, search_cursor_kept};
use crate::keys::{KeyEvent, KeyEventKind, MouseEventKind};
use crate::model::{clone_text, opt_text};
use crate::papers::toasted;
use crate::paths::{file_name, path_file_name};
use crate::project_editor::{
    handle_mouse, mouse_step, paste_text_into_active_input, paste_text_step,
};
use crate::state::{App, AppMode, Page, WorkspaceSearch};
use crate::text::{group_points, same_text};
use crate::viewer::Platform;

verus! {

broadcast use group_points;

/// How long a toast is shown, in milliseconds.
pub const TOAST_MS: u64 = 7_000;

fn same_toast(a: &Option<String>, b: &Option<String>) -> (r: bool)
    ensures
        r == (opt_text(*a) == opt_text(*b)),
{
    match (a, b) {
        (Some(x), Some(y)) => same_text(x.as_str(), y.as_str()),
        (None, None) => true,
        _ => false,
    }
}

/// When the toast appeared: now, where it is another than the last one.
pub open spec fn toast_since(pre: App, last: Option<Seq<char>>) -> Option<u64> {
    if opt_text(pre.toast) != last {
        Some(pre.clock_ms)
    } else {
        pre.toast_timestamp
    }
}

/// The toast has been shown long enough.
pub open spec fn toast_is_over(pre: App, last: Option<Seq<char>>) -> bool {
    toast_since(pre, last) matches Some(since) && pre.clock_ms - since >= TOAST_MS
}

/// What happens to the toast between two drawings: a new one is timed, and one
/// whose time is over goes.
pub open spec fn toast_step(
    pre: App,
    last: Option<Seq<char>>,
    toast: Option<String>,
    since: Option<u64>,
    last2: Option<Seq<char>>,
    changed: bool,
) -> bool {
    if pre.toast is None {
        toast is None && since is None && last2 is None && changed == last is Some
    } else if toast_is_over(pre, last) {
        toast is None && since is None && last2 is None && changed
    } else {
        &&& toast == pre.toast
        &&& since == toast_since(pre, last)
        &&& last2 == opt_text(pre.toast)
        &&& changed == (opt_text(pre.toast) != last)
    }
}

/// Times the toast and drops failed downloads whose time is over. `last_toast` is
/// the toast of the last drawing; the result says whether to draw again.
pub fn update_toast_and_download_cleanup(app: &mut App, last_toast: &mut Option<String>) -> (changed:
    bool)
    ensures
        *final(app) == (App {
            toast: final(app).toast,
            toast_timestamp: final(app).toast_timestamp,
            downloads: final(app).downloads,
            ..*old(app)
        }),
        downloads_expired(old(app).downloads, old(app).clock_ms, final(app).downloads),
        exists|retoasted: bool| #[trigger]
            toast_step(
                *old(app),
                opt_text(*old(last_toast)),
                final(app).toast,
                final(app).toast_timestamp,
                opt_text(*final(last_toast)),
                retoasted,
            ) && changed == (retoasted || final(app).downloads.items@.len()
                != old(app).downloads.items@.len()),
        old(app).wf() ==> final(app).wf(),
{
    let now: u64 = app.clock_ms;
    let mut changed = false;
    if app.toast.is_some() {
        if !same_toast(&app.toast, last_toast) {
            app.toast_timestamp = Some(now);
            *last_toast = clone_text(&app.toast);
            changed = true;
        }
        let over = match app.toast_timestamp {
            Some(since) => now >= since && now - since >= TOAST_MS,
            None => false,
        };
        if over {
            app.toast = None;
            app.toast_timestamp = None;
            *last_toast = None;
            changed = true;
        }
    } else {
        changed = last_toast.is_some();
        app.toast_timestamp = None;
        *last_toast = None;
    }
    let ghost retoasted = changed;
    assert(toast_step(
        *old(app),
        opt_text(*old(last_toast)),
        app.toast,
        app.toast_timestamp,
        opt_text(*last_toast),
        retoasted,
    ));
    let dropped = expire_downloads(&mut app.downloads, now);
    changed || dropped
}

/// A toast that is shown goes after its time, and a new one is shown for all of
/// it.
pub proof fn law_toasts_are_shown_for_their_time(
    pre: App,
    last: Option<Seq<char>>,
    toast: Option<String>,
    since: Option<u64>,
    last2: Option<Seq<char>>,
    changed: bool,
)
    requires
        toast_step(pre, last, toast, since, last2, changed),
    ensures
        pre.toast is Some && opt_text(pre.toast) != last ==> toast == pre.toast && since == Some(
            pre.clock_ms,
        ),
        pre.toast is Some && opt_text(pre.toast) == last && (pre.toast_timestamp matches Some(at)
            && pre.clock_ms - at >= TOAST_MS) ==> toast is None,
        toast is Some ==> last2 == opt_text(toast),
{
}

/// A document is in view: in the viewer, or in the preview of a project.
pub open spec fn shows_document(app: App) -> bool {
    app.mode == AppMode::PdfView || app.page == Page::Projects && app.project.active is Some
        && app.pdf_viewer.path is Some
}

/// Whether a document is in view.
pub fn preview_active(app: &App) -> (r: bool)
    ensures
        r == shows_document(*app),
{
    app.mode == AppMode::PdfView || app.page == Page::Projects && app.project.active.is_some()
        && app.pdf_viewer.path.is_some()
}

/// How long to wait for a key, in milliseconds: shorter while a document is being
/// rendered or moves.
pub fn terminal_poll_timeout(preview_active: bool, animating: bool, page_cached: bool) -> (r: u64)
    ensures
        r == if !preview_active {
            100u64
        } else if animating {
            8
        } else if page_cached {
            250
        } else {
            50
        },
{
    if !preview_active {
        100
    } else if animating {
        8
    } else if page_cached {
        250
    } else {
        50
    }
}

/// Whether the terminal shows its cursor as that of a command line.
pub fn command_cursor_active(app: &App) -> (r: bool)
    ensures
        r == (app.mode == AppMode::TerminalCommand),
{
    app.mode == AppMode::TerminalCommand
}

/// How long a drawing may take before it is logged, in nanoseconds.
pub const SLOW_DRAW_NS: u128 = 16_000_000;

/// Whether a drawing took so long that it is logged.
pub fn is_slow_draw(elapsed_ns: u128) -> (r: bool)
    ensures
        r == (elapsed_ns > SLOW_DRAW_NS),
{
    elapsed_ns > SLOW_DRAW_NS
}

/// How long changes of the configuration file settle, in milliseconds.
pub const CONFIG_SETTLE_MS: u64 = 150;

/// How long to wait before a configuration that could not be read is read again,
/// in milliseconds.
pub const CONFIG_RETRY_MS: u64 = 100;

/// How often a configuration that could not be read is read again.
pub const CONFIG_RETRIES: u8 = 10;

/// When the configuration is to be read again, and how often that failed.
#[derive(Debug, Clone, Copy, PartialEq, Eq, Structural)]
pub struct ConfigReload {
    pub deadline: Option<u64>,
    pub attempts: u8,
}

/// What reading the configuration again means for the main loop.
#[derive(Debug, Clone, Copy, PartialEq, Eq, Structural)]
pub enum ConfigReloadOutcome {
    Unchanged,
    Changed,
    SkipIteration,
}

impl ConfigReload {
    pub fn new() -> (r: ConfigReload)
        ensures
            r == (ConfigReload { deadline: None, attempts: 0 }),
    {
        ConfigReload { deadline: None, attempts: 0 }
    }

    /// The state once changes of the file were seen, or none.
    pub open spec fn noticed(self, now: u64, file_changed: bool) -> ConfigReload {
        if file_changed {
            ConfigReload { deadline: Some((now + CONFIG_SETTLE_MS) as u64), attempts: 0 }
        } else {
            self
        }
    }

    /// Takes note of changes of the file, and tells whether it is time to read it.
    pub fn poll(&mut self, now: u64, file_changed: bool) -> (due: bool)
        requires
            now + CONFIG_SETTLE_MS <= u64::MAX,
        ensures
            *final(self) == old(self).noticed(now, file_changed),
            due == (final(self).deadline matches Some(deadline) && now >= deadline),
    {
        if file_changed {
            self.deadline = Some(now + CONFIG_SETTLE_MS);
            self.attempts = 0;
        }
        match self.deadline {
            Some(deadline) => now >= deadline,
            None => false,
        }
    }

    /// Takes note that the configuration was read; `same` says that it is the one
    /// in use.
    pub fn loaded(&mut self, same: bool) -> (outcome: ConfigReloadOutcome)
        ensures
            *final(self) == (ConfigReload { deadline: None, attempts: 0 }),
            outcome == if same {
                ConfigReloadOutcome::SkipIteration
            } else {
                ConfigReloadOutcome::Changed
            },
    {
        self.deadline = None;
        self.attempts = 0;
        if same {
            ConfigReloadOutcome::SkipIteration
        } else {
            ConfigReloadOutcome::Changed
        }
    }

    /// Takes note that the configuration could not be read: it is read again, a
    /// few times, before a toast says why not.
    pub fn failed(&mut self, app: &mut App, error: &str) -> (outcome: ConfigReloadOutcome)
        requires
            old(app).clock_ms + CONFIG_RETRY_MS <= u64::MAX,
        ensures
            if old(self).attempts < CONFIG_RETRIES {
                &&& *final(self) == (ConfigReload {
                    deadline: Some((old(app).clock_ms + CONFIG_RETRY_MS) as u64),
                    attempts: (old(self).attempts + 1) as u8,
                })
                &&& *final(app) == *old(app)
                &&& outcome == ConfigReloadOutcome::Unchanged
            } else {
                &&& *final(self) == (ConfigReload { deadline: None, ..*old(self) })
                &&& toasted(*old(app), "Configuration reload failed: "@ + error@, *final(app))
                &&& outcome == ConfigReloadOutcome::Changed
            },
            old(app).wf() ==> final(app).wf(),
    {
        if self.attempts < CONFIG_RETRIES {
            self.attempts = self.attempts + 1;
            self.deadline = Some(app.clock_ms + CONFIG_RETRY_MS);
            ConfigReloadOutcome::Unchanged
        } else {
            self.deadline = None;
            app.toast = Some(message("Configuration reload failed: ", error));
            ConfigReloadOutcome::Changed
        }
    }
}

/// Changes that follow one another closely are read once: as long as they keep
/// coming, it is not time to read.
pub proof fn law_config_changes_settle(reload: ConfigReload, now: u64)
    requires
        now + CONFIG_SETTLE_MS <= u64::MAX,
    ensures
        reload.noticed(now, true).deadline matches Some(deadline) && deadline > now,
        reload.noticed(now, true).attempts == 0,
{
}

/// What has to be done when another page is shown.
#[derive(Debug, Clone, Copy, PartialEq, Eq, Structural)]
pub struct PageChange {
    pub changed: bool,
    /// A theme that was only tried is to be taken back.
    pub left_settings: bool,
    /// The numbers of the dashboard are to be read anew.
    pub refresh_dashboard: bool,
    /// The settings are to be filled in.
    pub entered_settings: bool,
}

/// The pages that show numbers of the dashboard.
pub open spec fn shows_statistics(page: Page) -> bool {
    page == Page::Dashboard || page == Page::History || page == Page::Statistics
}

/// Takes note of the page that is shown. On another one the search bar is empty.
pub fn process_page_change(app: &mut App, last_page: &mut Option<Page>) -> (r: PageChange)
    ensures
        if *old(last_page) == Some(old(app).page) {
            &&& *final(app) == *old(app)
            &&& *final(last_page) == *old(last_page)
            &&& r == (PageChange {
                changed: false,
                left_settings: false,
                refresh_dashboard: false,
                entered_settings: false,
            })
        } else {
            &&& *final(app) == (App {
                workspace_search: WorkspaceSearch {
                    query: final(app).workspace_search.query,
                    cursor: 0,
                    ..old(app).workspace_search
                },
                ..*old(app)
            })
            &&& final(app).workspace_search.query@.len() == 0
            &&& *final(last_page) == Some(old(app).page)
            &&& r == (PageChange {
                changed: true,
                left_settings: *old(last_page) == Some(Page::Settings),
                refresh_dashboard: shows_statistics(old(app).page),
                entered_settings: old(app).page == Page::Settings,
            })
        },
        old(app).wf() ==> final(app).wf(),
{
    let stays = match *last_page {
        Some(page) => page == app.page,
        None => false,
    };
    if stays {
        return PageChange {
            changed: false,
            left_settings: false,
            refresh_dashboard: false,
            entered_settings: false,
        };
    }
    app.workspace_search.query = String::new();
    app.workspace_search.cursor = 0;
    proof {
        crate::text::lemma_ends(app.workspace_search.query@);
    }
    let left_settings = match *last_page {
        Some(page) => page == Page::Settings,
        None => false,
    };
    *last_page = Some(app.page);
    PageChange {
        changed: true,
        left_settings,
        refresh_dashboard: app.page == Page::Dashboard || app.page == Page::History || app.page
            == Page::Statistics,
        entered_settings: app.page == Page::Settings,
    }
}

/// Whether a theme that was only tried is to be taken back to `original`.
pub fn theme_to_restore(original: &str, current: &str) -> (r: bool)
    ensures
        r == (original@.len() > 0 && current@ != original@),
{
    !original.is_empty() && !same_text(current, original)
}

/// Whether the settings page takes over a configuration that changed on disk:
/// where it is shown, and nothing is being typed, `editing` says.
pub fn settings_follow_config(app: &App, editing: bool) -> (r: bool)
    ensures
        r == (app.page == Page::Settings && !app.config_editor.focused && !editing),
{
    app.page == Page::Settings && !app.config_editor.focused && !editing
}

/// A file that users change: any but the list of projects that the application
/// keeps.
pub open spec fn is_users_file(os: Platform, path: Seq<char>) -> bool {
    file_name(os, path) != Some(".papr-projects.toml"@)
}

/// Whether a change of files is one that the project pages show.
pub fn project_files_changed(os: Platform, paths: &Vec<String>) -> (r: bool)
    ensures
        r == exists|i: int| 0 <= i < paths@.len() && is_users_file(os, #[trigger] paths@[i]@),
{
    let mut i: usize = 0;
    while i < paths.len()
        invariant
            i <= paths@.len(),
            forall|k: int| 0 <= k < i ==> !is_users_file(os, #[trigger] paths@[k]@),
        decreases paths.len() - i,
    {
        let registry = match path_file_name(os, paths[i].as_str()) {
            Some(name) => same_text(name.as_str(), ".papr-projects.toml"),
            None => false,
        };
        if !registry {
            assert(is_users_file(os, paths@[i as int]@));
            return true;
        }
        i = i + 1;
    }
    false
}

/// What the terminal reports.
#[derive(Debug)]
pub enum TerminalEvent {
    Key(KeyEvent),
    Mouse(MouseEventKind),
    Paste(String),
    Other,
}

/// What an event of the terminal leads to.
#[derive(Debug)]
pub enum EventOutcome {
    /// The settings page takes the key.
    Settings(KeyEvent),
    Action(Option<UiAction>),
}

/// The settings page takes the keys.
pub open spec fn settings_take_keys(app: App) -> bool {
    app.page == Page::Settings && app.content_focused && app.mode == AppMode::Normal
}

/// What an event of the terminal does.
pub open spec fn terminal_event_step(
    pre: App,
    event: TerminalEvent,
    post: App,
    outcome: EventOutcome,
) -> bool {
    match event {
        TerminalEvent::Key(key) => if !key_counts(pre, key) {
            post == pre && outcome == EventOutcome::Action(None)
        } else if settings_take_keys(pre) {
            post == pre && outcome == EventOutcome::Settings(key)
        } else {
            outcome matches EventOutcome::Action(action) && key_step(pre, key, post, action)
        },
        TerminalEvent::Mouse(kind) => mouse_step(pre, kind, post) && outcome
            == EventOutcome::Action(None),
        TerminalEvent::Paste(text) => {
            &&& (outcome matches EventOutcome::Action(action) && exists|taken: bool| #[trigger]
                paste_text_step(pre, text@, post, (taken, action)))
        },
        TerminalEvent::Other => post == pre && outcome == EventOutcome::Action(None),
    }
}

/// The field of the online search can take the event.
pub open spec fn search_field_takes(app: App, event: TerminalEvent) -> bool {
    match event {
        TerminalEvent::Key(key) => key_counts(app, key) ==> query_takes(app.discovery, key),
        TerminalEvent::Paste(text) => app.search_cursor_ok(),
        _ => true,
    }
}

/// Handles an event of the terminal.
pub fn process_terminal_event(app: &mut App, event: TerminalEvent) -> (outcome: EventOutcome)
    requires
        old(app).wf(),
        old(app).mode == AppMode::Search ==> search_field_takes(*old(app), event),
    ensures
        terminal_event_step(*old(app), event, *final(app), outcome),
        final(app).wf(),
        search_cursor_kept(
            *old(app),
            *final(app),
            match outcome {
                EventOutcome::Action(action) => action,
                EventOutcome::Settings(_) => None,
            },
        ),
{
    match event {
        TerminalEvent::Key(key) => {
            if key.kind != KeyEventKind::Press && !(app.mode == AppMode::PdfView && key.kind
                == KeyEventKind::Repeat) {
                return EventOutcome::Action(None);
            }
            if app.page == Page::Settings && app.content_focused && app.mode == AppMode::Normal {
                return EventOutcome::Settings(key);
            }
            EventOutcome::Action(handle_key(app, key))
        },
        TerminalEvent::Mouse(kind) => EventOutcome::Action(handle_mouse(app, kind)),
        TerminalEvent::Paste(text) => {
            let (taken, action) = paste_text_into_active_input(app, text.as_str());
            assert(paste_text_step(*old(app), text@, *app, (taken, action)));
            EventOutcome::Action(action)
        },
        TerminalEvent::Other => EventOutcome::Action(None),
    }
}

/// Something that the main loop does now and then; `last` is when it was done.
#[derive(Debug, Clone, Copy, PartialEq, Eq, Structural)]
pub struct Interval {
    pub last: u64,
    pub period: u64,
}

/// How often the day is looked at, in milliseconds.
pub const DATE_CHECK_MS: u64 = 1_000;

/// How often papers without metadata are looked for, in milliseconds.
pub const ENRICHMENT_CHECK_MS: u64 = 300_000;

impl Interval {
    /// Whether it is time again; if so, the wait starts anew.
    pub fn due(&mut self, now: u64) -> (r: bool)
        ensures
            r == (now - old(self).last >= old(self).period),
            *final(self) == (Interval {
                last: if r {
                    now
                } else {
                    old(self).last
                },
                ..*old(self)
            }),
    {
        if now >= self.last && now - self.last >= self.period {
            self.last = now;
            true
        } else {
            false
        }
    }
}

/// Whether the main loop has to draw: something changed in this round, or a
/// drawing was asked for before.
#[derive(Debug, Clone, Copy, PartialEq, Eq, Structural)]
pub struct Redraw {
    pub forced: bool,
    pub changed: bool,
}

impl Redraw {
    /// At the start everything is drawn.
    pub fn new() -> (r: Redraw)
        ensures
            r == (Redraw { forced: true, changed: false }),
    {
        Redraw { forced: true, changed: false }
    }

    /// A round begins.
    pub fn begin(&mut self)
        ensures
            *final(self) == (Redraw { changed: old(self).forced, ..*old(self) }),
    {
        self.changed = self.forced;
    }

    /// Something may have changed in this round.
    pub fn note(&mut self, changed: bool)
        ensures
            *final(self) == (Redraw { changed: old(self).changed || changed, ..*old(self) }),
    {
        self.changed = self.changed || changed;
    }

    /// A drawing is asked for: keys came in, or something moves.
    pub fn force(&mut self, needed: bool)
        ensures
            *final(self) == (Redraw { forced: old(self).forced || needed, ..*old(self) }),
    {
        self.forced = self.forced || needed;
    }

    /// Whether to draw at the end of a round. Drawing meets every demand.
    pub fn take(&mut self) -> (draw: bool)
        ensures
            draw == (old(self).changed || old(self).forced),
            *final(self) == (Redraw {
                forced: old(self).forced && !draw,
                ..*old(self)
            }),
    {
        let draw = self.changed || self.forced;
        if draw {
            self.forced = false;
        }
        draw
    }
}

/// A toast is shown for seven seconds from when it appeared and not longer.
pub proof fn law_toasts_last_seven_seconds(
    pre: App,
    last: Option<Seq<char>>,
    toast: Option<String>,
    since: Option<u64>,
    last2: Option<Seq<char>>,
    changed: bool,
)
    requires
        toast_step(pre, last, toast, since, last2, changed),
        pre.toast is Some,
        last == Some(pre.toast->0@),
        pre.toast_timestamp is Some,
    ensures
        pre.clock_ms < pre.toast_timestamp->0 + 7000 ==> toast == pre.toast && since
            == pre.toast_timestamp && !changed,
        pre.clock_ms >= pre.toast_timestamp->0 + 7000 ==> toast is None && since is None && changed,
{
}

/// The settings page takes the keys while it has the focus and nothing lies over it, and no
/// other page ever gives them away.
pub proof fn law_settings_take_their_keys(
    pre: App,
    key: KeyEvent,
    post: App,
    outcome: EventOutcome,
)
    requires
        terminal_event_step(pre, TerminalEvent::Key(key), post, outcome),
        key.kind == KeyEventKind::Press,
    ensures
        outcome is Settings <==> pre.page == Page::Settings && pre.content_focused && pre.mode
            == AppMode::Normal,
        outcome matches EventOutcome::Settings(given) ==> given == key && post == pre,
        outcome matches EventOutcome::Action(action) ==> key_step(pre, key, post, action),
{
}

/// A change of the configuration is read 150 milliseconds after the last one.
pub proof fn law_changes_are_read_after_they_settle(
    reload: ConfigReload,
    now: u64,
    file_changed: bool,
)
    requires
        now + 150 <= u64::MAX,
    ensures
        file_changed ==> reload.noticed(now, file_changed) == (ConfigReload {
            deadline: Some((now + 150) as u64),
            attempts: 0,
        }),
        !file_changed ==> reload.noticed(now, file_changed) == reload,
{
}

/// A document is in view in the viewer, and on the projects page where the open project has
/// one.
pub proof fn law_documents_are_in_view(app: App)
    ensures
        app.mode == AppMode::PdfView ==> shows_document(app),
        app.mode != AppMode::PdfView && app.page != Page::Projects ==> !shows_document(app),
        app.mode != AppMode::PdfView && app.page == Page::Projects ==> (shows_document(app)
            <==> app.project.active is Some && app.pdf_viewer.path is Some),
{
}

} // verus!
