//! What the events of a running compiler do to the build pane and the preview.

use vstd::prelude::*;
use crate::model::{
    clone_texts, opt_text, ProjectBuildDiagnostic, ProjectDiagnosticSeverity,
};
use crate::paths::{file_name, path_eq, path_file_name, same_path};
use crate::state::{App, PdfViewerState, ProjectBuild};
use crate::text::same_text;
use crate::viewer::{
    invocation, open_pdf, should_open_generated_pdf, PdfFile, Platform,
};
use crate::wrap::texts;

verus! {

/// How many lines of a build log are kept.
pub const MAX_BUILD_LOG_LINES: usize = 2000;

/// What has been seen of the current build.
#[derive(Debug, Clone, Copy, PartialEq, Eq, Structural)]
pub struct ProjectBuildSignals {
    pub pdf_changed: bool,
    pub build_succeeded: bool,
}

/// No signal of the build has been seen.
pub open spec fn no_signals() -> ProjectBuildSignals {
    ProjectBuildSignals { pdf_changed: false, build_succeeded: false }
}

/// The running compiler of the open project: its log so far, and whether the
/// PDF file has been handed to an external viewer.
#[derive(Debug)]
pub struct BuildMonitor {
    pub signals: ProjectBuildSignals,
    pub raw_log: Vec<String>,
    pub external_pdf_opened: bool,
}

impl BuildMonitor {
    /// A compiler that was just started. A PDF file that is already there counts
    /// as opened.
    pub fn new(pdf_exists: bool) -> (r: BuildMonitor)
        ensures
            r.signals == no_signals(),
            r.raw_log@.len() == 0,
            r.external_pdf_opened == pdf_exists,
    {
        BuildMonitor {
            signals: ProjectBuildSignals { pdf_changed: false, build_succeeded: false },
            raw_log: Vec::new(),
            external_pdf_opened: pdf_exists,
        }
    }
}

/// What one run of the Typst compiler gave.
#[derive(Debug)]
pub struct TypstCompileResult {
    pub success: bool,
    pub raw_log: Vec<String>,
    pub diagnostics: Vec<ProjectBuildDiagnostic>,
}

/// What a compiler reports.
#[derive(Debug)]
pub enum ProjectBuildEvent {
    Started,
    LogLine(String),
    PdfChanged,
    Succeeded,
    Failed,
    TypstFinished(TypstCompileResult),
    TypstWorkerFailed(String),
}

/// What has to be done outside the state after a compiler event.
#[derive(Debug, Clone, Copy, PartialEq, Eq, Structural)]
pub enum BuildFollowUp {
    Nothing,
    /// Read the diagnostics off the log of a running build.
    DiagnoseLog,
    /// Read the diagnostics off the log of a failed build.
    DiagnoseFailure,
    /// Show the generated PDF file.
    ActivatePdf,
}

/// A log with one more line, and the oldest one gone where it was full.
pub open spec fn log_grown(log: Seq<String>, line: String) -> Seq<String> {
    if log.len() == MAX_BUILD_LOG_LINES {
        log.skip(1).push(line)
    } else {
        log.push(line)
    }
}

/// A bounded log stays bounded, and its newest line is the last one.
pub proof fn law_build_log_is_bounded(log: Seq<String>, line: String)
    requires
        log.len() <= MAX_BUILD_LOG_LINES,
    ensures
        log_grown(log, line).len() <= MAX_BUILD_LOG_LINES,
        log_grown(log, line).last() == line,
{
}

/// A build succeeded, with or without remarks of the compiler.
pub open spec fn success_status(diagnostics: Seq<ProjectBuildDiagnostic>) -> Seq<char> {
    if diagnostics.len() == 0 {
        "Built successfully"@
    } else {
        "Built with warnings"@
    }
}

/// The diagnostic that stands for a compiler that stopped.
pub open spec fn is_failure_notice(
    d: ProjectBuildDiagnostic,
    title: Seq<char>,
    error: Seq<char>,
    hint: Option<Seq<char>>,
) -> bool {
    &&& d.severity == ProjectDiagnosticSeverity::Error
    &&& d.title@ == title
    &&& d.description@ == error
    &&& d.file is None
    &&& d.line is None
    &&& d.col is None
    &&& d.code is None
    &&& opt_text(d.hint) == hint
}

/// The status of the build pane shows that diagnostics may still come in.
pub open spec fn is_diagnosed_live(status: Seq<char>) -> bool {
    status == "Build failed"@ || status == "Compiling…"@
}

/// What a compiler event does to the build pane `b` and the monitor `m`.
pub open spec fn build_event_step(
    m: BuildMonitor,
    b: ProjectBuild,
    event: ProjectBuildEvent,
    m2: BuildMonitor,
    b2: ProjectBuild,
    changed: bool,
    follow_up: BuildFollowUp,
) -> bool {
    match event {
        ProjectBuildEvent::Started => {
            &&& m2 == BuildMonitor { signals: no_signals(), raw_log: m2.raw_log, ..m }
            &&& m2.raw_log@.len() == 0
            &&& b2 == ProjectBuild {
                status: b2.status,
                diagnostics: b2.diagnostics,
                raw_log: b2.raw_log,
                selected: 0,
                scroll: 0,
                ..b
            }
            &&& b2.status@ == "Compiling…"@
            &&& b2.diagnostics@.len() == 0
            &&& b2.raw_log@.len() == 0
            &&& changed
            &&& follow_up == BuildFollowUp::Nothing
        },
        ProjectBuildEvent::LogLine(line) => {
            &&& m2 == BuildMonitor { raw_log: m2.raw_log, ..m }
            &&& m2.raw_log@ == log_grown(m.raw_log@, line)
            &&& b2 == b
            &&& !changed
            &&& follow_up == if is_diagnosed_live(b.status@) {
                BuildFollowUp::DiagnoseLog
            } else {
                BuildFollowUp::Nothing
            }
        },
        ProjectBuildEvent::PdfChanged => {
            &&& m2 == BuildMonitor {
                signals: ProjectBuildSignals { pdf_changed: true, ..m.signals },
                ..m
            }
            &&& b2 == b
            &&& !changed
            &&& follow_up == BuildFollowUp::Nothing
        },
        ProjectBuildEvent::Succeeded => {
            &&& m2 == BuildMonitor {
                signals: ProjectBuildSignals { build_succeeded: true, ..m.signals },
                ..m
            }
            &&& b2 == b
            &&& !changed
            &&& follow_up == BuildFollowUp::Nothing
        },
        ProjectBuildEvent::Failed => {
            &&& m2 == BuildMonitor { signals: no_signals(), ..m }
            &&& b2 == b
            &&& changed
            &&& follow_up == BuildFollowUp::DiagnoseFailure
        },
        ProjectBuildEvent::TypstFinished(result) => {
            &&& m2 == BuildMonitor { signals: no_signals(), raw_log: m2.raw_log, ..m }
            &&& m2.raw_log@ == result.raw_log@
            &&& b2 == ProjectBuild {
                status: b2.status,
                diagnostics: result.diagnostics,
                raw_log: result.raw_log,
                selected: 0,
                visible: !result.success,
                ..b
            }
            &&& b2.status@ == if result.success {
                success_status(result.diagnostics@)
            } else {
                "Build failed"@
            }
            &&& changed == !result.success
            &&& follow_up == if result.success {
                BuildFollowUp::ActivatePdf
            } else {
                BuildFollowUp::Nothing
            }
        },
        ProjectBuildEvent::TypstWorkerFailed(error) => {
            &&& m2 == BuildMonitor { signals: no_signals(), ..m }
            &&& b2 == ProjectBuild {
                status: b2.status,
                diagnostics: b2.diagnostics,
                raw_log: b2.raw_log,
                selected: 0,
                visible: true,
                ..b
            }
            &&& b2.status@ == "Compiler unavailable"@
            &&& b2.raw_log@ == seq![error]
            &&& b2.diagnostics@.len() == 1
            &&& is_failure_notice(
                b2.diagnostics@[0],
                "Typst worker stopped"@,
                error@,
                Some("Close and reopen the Project to restart the compiler."@),
            )
            &&& changed
            &&& follow_up == BuildFollowUp::Nothing
        },
    }
}

/// The build pane takes the right side of the workspace; the focus stays.
pub fn show_build_for_failed_compilation(app: &mut App)
    ensures
        *final(app) == (App {
            project_build: ProjectBuild { visible: true, ..old(app).project_build },
            ..*old(app)
        }),
        old(app).wf() ==> final(app).wf(),
{
    app.project_build.visible = true;
}

/// The preview takes the right side of the workspace; the focus stays.
pub fn show_preview_after_successful_compilation(app: &mut App)
    ensures
        *final(app) == (App {
            project_build: ProjectBuild { visible: false, ..old(app).project_build },
            ..*old(app)
        }),
        old(app).wf() ==> final(app).wf(),
{
    app.project_build.visible = false;
}

/// The words for a build that succeeded.
fn success_text(diagnostics: &Vec<ProjectBuildDiagnostic>) -> (r: String)
    ensures
        r@ == success_status(diagnostics@),
{
    if diagnostics.len() == 0 {
        "Built successfully".to_owned()
    } else {
        "Built with warnings".to_owned()
    }
}

/// The diagnostic that stands for a compiler that stopped.
fn failure_notice(title: &str, error: String, hint: Option<String>) -> (r: ProjectBuildDiagnostic)
    ensures
        is_failure_notice(r, title@, error@, opt_text(hint)),
{
    ProjectBuildDiagnostic {
        severity: ProjectDiagnosticSeverity::Error,
        title: title.to_owned(),
        description: error,
        file: None,
        line: None,
        col: None,
        code: None,
        hint,
    }
}

/// Takes one event of the compiler: the monitor and the build pane, whether the
/// pane changed, and what is to be done next.
pub fn apply_build_event(m: &mut BuildMonitor, b: &mut ProjectBuild, event: ProjectBuildEvent) -> (r:
    (bool, BuildFollowUp))
    ensures
        build_event_step(*old(m), *old(b), event, *final(m), *final(b), r.0, r.1),
{
    match event {
        ProjectBuildEvent::Started => {
            m.signals = ProjectBuildSignals { pdf_changed: false, build_succeeded: false };
            m.raw_log = Vec::new();
            b.status = "Compiling…".to_owned();
            b.diagnostics = Vec::new();
            b.raw_log = Vec::new();
            b.selected = 0;
            b.scroll = 0;
            (true, BuildFollowUp::Nothing)
        },
        ProjectBuildEvent::LogLine(line) => {
            if m.raw_log.len() == MAX_BUILD_LOG_LINES {
                m.raw_log.remove(0);
                assert(m.raw_log@ =~= old(m).raw_log@.skip(1));
            }
            m.raw_log.push(line);
            if same_text(b.status.as_str(), "Build failed") || same_text(
                b.status.as_str(),
                "Compiling…",
            ) {
                (false, BuildFollowUp::DiagnoseLog)
            } else {
                (false, BuildFollowUp::Nothing)
            }
        },
        ProjectBuildEvent::PdfChanged => {
            m.signals.pdf_changed = true;
            (false, BuildFollowUp::Nothing)
        },
        ProjectBuildEvent::Succeeded => {
            m.signals.build_succeeded = true;
            (false, BuildFollowUp::Nothing)
        },
        ProjectBuildEvent::Failed => {
            m.signals = ProjectBuildSignals { pdf_changed: false, build_succeeded: false };
            (true, BuildFollowUp::DiagnoseFailure)
        },
        ProjectBuildEvent::TypstFinished(result) => {
            m.signals = ProjectBuildSignals { pdf_changed: false, build_succeeded: false };
            m.raw_log = clone_texts(&result.raw_log);
            b.status = if result.success {
                success_text(&result.diagnostics)
            } else {
                "Build failed".to_owned()
            };
            b.raw_log = result.raw_log;
            b.diagnostics = result.diagnostics;
            b.selected = 0;
            b.visible = !result.success;
            if result.success {
                (false, BuildFollowUp::ActivatePdf)
            } else {
                (true, BuildFollowUp::Nothing)
            }
        },
        ProjectBuildEvent::TypstWorkerFailed(error) => {
            m.signals = ProjectBuildSignals { pdf_changed: false, build_succeeded: false };
            b.status = "Compiler unavailable".to_owned();
            b.raw_log = vec![error.clone()];
            assert(b.raw_log@ =~= seq![error]);
            b.diagnostics = vec![
                failure_notice(
                    "Typst worker stopped",
                    error,
                    Some("Close and reopen the Project to restart the compiler.".to_owned()),
                ),
            ];
            b.selected = 0;
            b.visible = true;
            (true, BuildFollowUp::Nothing)
        },
    }
}

/// Takes the diagnostics read off the log of a running build. Nothing changes
/// where there were none and are none.
pub fn finish_log_diagnosis(
    m: &BuildMonitor,
    b: &mut ProjectBuild,
    diagnostics: Vec<ProjectBuildDiagnostic>,
) -> (changed: bool)
    ensures
        changed == (diagnostics@.len() > 0 || old(b).diagnostics@.len() > 0),
        !changed ==> *final(b) == *old(b),
        changed ==> *final(b) == (ProjectBuild {
            diagnostics,
            raw_log: final(b).raw_log,
            ..*old(b)
        }) && final(b).raw_log@ == m.raw_log@,
{
    if diagnostics.len() > 0 || b.diagnostics.len() > 0 {
        b.diagnostics = diagnostics;
        b.raw_log = clone_texts(&m.raw_log);
        true
    } else {
        false
    }
}

/// Takes the diagnostics read off the log of a build that failed, and shows
/// them.
pub fn finish_failure_diagnosis(
    m: &BuildMonitor,
    b: &mut ProjectBuild,
    diagnostics: Vec<ProjectBuildDiagnostic>,
)
    ensures
        *final(b) == (ProjectBuild {
            status: final(b).status,
            diagnostics,
            raw_log: final(b).raw_log,
            selected: 0,
            visible: true,
            ..*old(b)
        }),
        final(b).status@ == "Build failed"@,
        final(b).raw_log@ == m.raw_log@,
{
    b.raw_log = clone_texts(&m.raw_log);
    b.diagnostics = diagnostics;
    b.status = "Build failed".to_owned();
    b.selected = 0;
    b.visible = true;
}

/// The build pane says that no compiler could be started.
pub fn report_compiler_unavailable(b: &mut ProjectBuild, error: String)
    ensures
        *final(b) == (ProjectBuild {
            status: final(b).status,
            diagnostics: final(b).diagnostics,
            visible: true,
            ..*old(b)
        }),
        final(b).status@ == "Compiler unavailable"@,
        final(b).diagnostics@.len() == 1,
        is_failure_notice(final(b).diagnostics@[0], "Compiler unavailable"@, error@, None),
{
    b.status = "Compiler unavailable".to_owned();
    b.diagnostics = vec![failure_notice("Compiler unavailable", error, None)];
    b.visible = true;
}

/// The marker that ends a PDF file.
pub open spec fn end_marker() -> Seq<u8> {
    seq![37u8, 37u8, 69u8, 79u8, 70u8]
}

/// How many bytes at the end of a file are searched for the marker.
pub const PDF_TAIL_LEN: u64 = 1024;

/// How many bytes at the end of a file of `len` bytes are to be read.
pub fn pdf_tail_len(len: u64) -> (r: u64)
    ensures
        r == if len < PDF_TAIL_LEN {
            len
        } else {
            PDF_TAIL_LEN
        },
{
    if len < PDF_TAIL_LEN {
        len
    } else {
        PDF_TAIL_LEN
    }
}

/// Whether the end of a PDF file holds the marker, so that the file was written
/// to the end.
pub fn pdf_is_complete(tail: &[u8]) -> (r: bool)
    ensures
        r == exists|i: int|
            0 <= i && i + 5 <= tail@.len() && #[trigger] tail@.subrange(i, i + 5) == end_marker(),
{
    let length: usize = tail.len();
    if length < 5 {
        return false;
    }
    let mut i: usize = 0;
    while i <= length - 5
        invariant
            length == tail@.len(),
            length >= 5,
            i <= length - 4,
            forall|k: int|
                0 <= k < i ==> #[trigger] tail@.subrange(k, k + 5) != end_marker(),
        decreases length - i,
    {
        let ghost window = tail@.subrange(i as int, i + 5);
        assert(forall|j: int| 0 <= j < 5 ==> window[j] == tail@[i + j]);
        if tail[i] == 37 && tail[i + 1] == 37 && tail[i + 2] == 69 && tail[i + 3] == 79 && tail[i
            + 4] == 70 {
            assert(window =~= end_marker());
            return true;
        }
        assert(window != end_marker()) by {
            if window == end_marker() {
                assert(window[0] == 37 && window[1] == 37 && window[2] == 69 && window[3] == 79
                    && window[4] == 70);
            }
        }
        i = i + 1;
    }
    false
}

/// Takes note of the PDF file that a LaTeX build has written. `complete` says
/// that the file is there, written to the end; `diagnostics` are those of the
/// log. The preview is to show the file where the result says so.
pub fn activate_completed_latex_pdf(
    m: &mut BuildMonitor,
    b: &mut ProjectBuild,
    complete: bool,
    diagnostics: Vec<ProjectBuildDiagnostic>,
) -> (activate: bool)
    ensures
        activate == (old(m).signals.pdf_changed && complete),
        !activate ==> *final(m) == *old(m) && *final(b) == *old(b),
        activate ==> {
            &&& *final(m) == (BuildMonitor {
                signals: no_signals(),
                raw_log: final(m).raw_log,
                ..*old(m)
            })
            &&& final(m).raw_log@.len() == 0
            &&& *final(b) == (ProjectBuild {
                status: final(b).status,
                diagnostics,
                raw_log: final(b).raw_log,
                selected: 0,
                visible: false,
                ..*old(b)
            })
            &&& final(b).status@ == success_status(diagnostics@)
            &&& final(b).raw_log@ == old(m).raw_log@
        },
{
    if !m.signals.pdf_changed || !complete {
        return false;
    }
    m.signals = ProjectBuildSignals { pdf_changed: false, build_succeeded: false };
    b.raw_log = clone_texts(&m.raw_log);
    b.selected = 0;
    b.status = success_text(&diagnostics);
    b.diagnostics = diagnostics;
    b.visible = false;
    m.raw_log = Vec::new();
    true
}

/// What the cache of rendered pages has to forget.
#[derive(Debug, Clone, Copy, PartialEq, Eq, Structural)]
pub enum PdfCache {
    /// The pages of the document, which was written anew.
    Invalidate,
    /// Everything: another document is shown.
    Reset,
}

/// The path that the viewer shows is `pdf`.
pub open spec fn shows(os: Platform, v: PdfViewerState, pdf: Seq<char>) -> bool {
    v.path matches Some(path) && same_path(os, path@, pdf)
}

/// The preview shows `pdf`, on the page it was on as far as there is one.
pub open spec fn preview_updated(
    os: Platform,
    v: PdfViewerState,
    pdf: Seq<char>,
    pages: Option<usize>,
    post: PdfViewerState,
) -> bool {
    let total = match pages {
        Some(n) => n,
        None => v.total_pages,
    };
    let last: usize = if total > 1 {
        total
    } else {
        1
    };
    &&& post == PdfViewerState {
        path: post.path,
        total_pages: total,
        page: if v.page < last {
            v.page
        } else {
            last
        },
        ..v
    }
    &&& if shows(os, v, pdf) {
        post.path == v.path
    } else {
        opt_text(post.path) == Some(pdf)
    }
}

/// Shows the PDF file `pdf` in the preview, and tells what the cache of rendered
/// pages has to forget.
pub fn update_preview(
    os: Platform,
    v: &mut PdfViewerState,
    pdf: &str,
    pages: Option<usize>,
) -> (cache: PdfCache)
    ensures
        preview_updated(os, *old(v), pdf@, pages, *final(v)),
        cache == if shows(os, *old(v), pdf@) {
            PdfCache::Invalidate
        } else {
            PdfCache::Reset
        },
{
    let shown = match &v.path {
        Some(path) => path_eq(os, path.as_str(), pdf),
        None => false,
    };
    if !shown {
        v.path = Some(pdf.to_owned());
    }
    if let Some(n) = pages {
        v.total_pages = n;
    }
    let last: usize = if v.total_pages > 1 {
        v.total_pages
    } else {
        1
    };
    if v.page >= last {
        v.page = last;
    }
    if shown {
        PdfCache::Invalidate
    } else {
        PdfCache::Reset
    }
}

/// What follows from showing a generated PDF file.
#[derive(Debug)]
pub struct ActivatedPdf {
    pub cache: PdfCache,
    /// The program that is to open the file, with its arguments.
    pub run: Option<(String, Vec<String>)>,
}

/// The generated PDF file is handed to an external viewer.
pub open spec fn opens_generated(m: BuildMonitor, app: App) -> bool {
    app.pdf_viewer.program@ != "internal"@ && !m.external_pdf_opened
}

/// What showing the generated PDF file `pdf` comes to, where it is there.
pub open spec fn pdf_activated(
    m: BuildMonitor,
    app: App,
    pdf: Seq<char>,
    file: PdfFile,
    m2: BuildMonitor,
    app2: App,
    r: ActivatedPdf,
) -> bool {
    &&& m2 == BuildMonitor {
        external_pdf_opened: m.external_pdf_opened || opens_generated(m, app),
        ..m
    }
    &&& app2 == App { pdf_viewer: app2.pdf_viewer, ..app }
    &&& preview_updated(app.platform, app.pdf_viewer, pdf, file.pages, app2.pdf_viewer)
    &&& r.cache == if shows(app.platform, app.pdf_viewer, pdf) {
        PdfCache::Invalidate
    } else {
        PdfCache::Reset
    }
    &&& program_view(r.run) == if opens_generated(m, app) {
        invocation(app.pdf_viewer.program@, file.path@, app.platform)
    } else {
        None
    }
}

/// The program to run, by its views.
pub open spec fn program_view(run: Option<(String, Vec<String>)>) -> Option<
    (Seq<char>, Seq<Seq<char>>),
> {
    match run {
        Some((program, args)) => Some((program@, texts(args@))),
        None => None,
    }
}

/// Shows the PDF file that a build has written, `pdf`, and says which program is
/// to open it: an external viewer, the first time. `file` is what is known of the
/// file, nothing where it is not there.
pub fn activate_pdf(
    m: &mut BuildMonitor,
    app: &mut App,
    pdf: &str,
    file: Option<PdfFile>,
) -> (r: Option<ActivatedPdf>)
    ensures
        r is Some == file is Some,
        file is None ==> *final(m) == *old(m) && *final(app) == *old(app),
        file matches Some(found) ==> (r matches Some(activated) && pdf_activated(
            *old(m),
            *old(app),
            pdf@,
            found,
            *final(m),
            *final(app),
            activated,
        )),
        old(app).wf() ==> final(app).wf(),
{
    let found = match file {
        None => return None,
        Some(found) => found,
    };
    let cache = update_preview(app.platform, &mut app.pdf_viewer, pdf, found.pages);
    if should_open_generated_pdf(app.pdf_viewer.program.as_str(), m.external_pdf_opened) {
        let viewer = app.pdf_viewer.program.clone();
        let run = open_pdf(app, viewer.as_str(), pdf, Some(found), None);
        m.external_pdf_opened = true;
        match run {
            Ok(run) => Some(ActivatedPdf { cache, run }),
            Err(_) => Some(ActivatedPdf { cache, run: None }),
        }
    } else {
        Some(ActivatedPdf { cache, run: None })
    }
}

/// A generated PDF file is handed to an external viewer once: of two builds in a
/// row the second starts no program, whatever the first one did.
pub proof fn law_generated_pdf_opens_once(
    m: BuildMonitor,
    app: App,
    pdf: Seq<char>,
    first: PdfFile,
    second: PdfFile,
    m1: BuildMonitor,
    app1: App,
    r1: ActivatedPdf,
    m2: BuildMonitor,
    app2: App,
    r2: ActivatedPdf,
)
    requires
        pdf_activated(m, app, pdf, first, m1, app1, r1),
        pdf_activated(m1, app1, pdf, second, m2, app2, r2),
    ensures
        r2.run is None,
        r2.cache == PdfCache::Invalidate,
{
}

/// What a file watcher reports.
#[derive(Debug, Clone, Copy, PartialEq, Eq, Structural)]
pub enum WatchEventKind {
    Access,
    Create,
    Modify,
    Other,
}

/// A file that the Typst compiler does not write itself.
pub open spec fn typst_input(os: Platform, path: Seq<char>) -> bool {
    match file_name(os, path) {
        None => true,
        Some(name) => name != "main.pdf"@ && name != ".papr-main.pdf.tmp"@ && name
            != ".papr-projects.toml"@,
    }
}

fn is_typst_input(os: Platform, path: &str) -> (r: bool)
    ensures
        r == typst_input(os, path@),
{
    match path_file_name(os, path) {
        None => true,
        Some(name) => !same_text(name.as_str(), "main.pdf") && !same_text(
            name.as_str(),
            ".papr-main.pdf.tmp",
        ) && !same_text(name.as_str(), ".papr-projects.toml"),
    }
}

/// Whether a change of files asks for another Typst run: one that touches a file
/// which the compiler does not write itself.
pub fn typst_sources_changed(os: Platform, kind: WatchEventKind, paths: &Vec<String>) -> (r: bool)
    ensures
        r == (kind != WatchEventKind::Access && exists|i: int|
            0 <= i < paths@.len() && typst_input(os, #[trigger] paths@[i]@)),
{
    if kind == WatchEventKind::Access {
        return false;
    }
    let mut i: usize = 0;
    while i < paths.len()
        invariant
            i <= paths@.len(),
            kind != WatchEventKind::Access,
            forall|k: int| 0 <= k < i ==> !typst_input(os, #[trigger] paths@[k]@),
        decreases paths.len() - i,
    {
        if is_typst_input(os, paths[i].as_str()) {
            assert(typst_input(os, paths@[i as int]@));
            return true;
        }
        i = i + 1;
    }
    false
}

/// Whether a change of files means that LaTeX has written its PDF file.
pub fn latex_pdf_changed(os: Platform, kind: WatchEventKind, paths: &Vec<String>) -> (r: bool)
    ensures
        r == ((kind == WatchEventKind::Modify || kind == WatchEventKind::Create) && exists|i: int|
            0 <= i < paths@.len() && file_name(os, #[trigger] paths@[i]@) == Some("main.pdf"@)),
{
    if kind != WatchEventKind::Modify && kind != WatchEventKind::Create {
        return false;
    }
    let mut i: usize = 0;
    while i < paths.len()
        invariant
            i <= paths@.len(),
            kind == WatchEventKind::Modify || kind == WatchEventKind::Create,
            forall|k: int|
                0 <= k < i ==> file_name(os, #[trigger] paths@[k]@) != Some("main.pdf"@),
        decreases paths.len() - i,
    {
        if let Some(name) = path_file_name(os, paths[i].as_str()) {
            if same_text(name.as_str(), "main.pdf") {
                assert(file_name(os, paths@[i as int]@) == Some("main.pdf"@));
                return true;
            }
        }
        i = i + 1;
    }
    false
}

/// Where the Typst worker stands between two compilations.
#[derive(Debug, Clone, Copy, PartialEq, Eq, Structural)]
pub enum WorkerState {
    /// It waits for a request.
    Waiting,
    /// It was asked to compile and waits for the requests to cease.
    Settling,
    /// It compiles next.
    Compile,
    Stopped,
}

/// What the Typst worker hears while it waits.
#[derive(Debug, Clone, Copy, PartialEq, Eq, Structural)]
pub enum WorkerEvent {
    Compile,
    Shutdown,
    Disconnected,
    /// Nothing came for a while.
    Quiet,
}

/// Where the worker stands after an event. Requests that follow one another
/// closely lead to one compilation.
pub open spec fn worker_after(state: WorkerState, event: WorkerEvent) -> WorkerState {
    match state {
        WorkerState::Compile | WorkerState::Stopped => state,
        WorkerState::Waiting | WorkerState::Settling => match event {
            WorkerEvent::Compile => WorkerState::Settling,
            WorkerEvent::Shutdown | WorkerEvent::Disconnected => WorkerState::Stopped,
            WorkerEvent::Quiet => if state == WorkerState::Settling {
                WorkerState::Compile
            } else {
                WorkerState::Waiting
            },
        },
    }
}

/// Takes one event while the Typst worker waits.
pub fn worker_step(state: WorkerState, event: WorkerEvent) -> (r: WorkerState)
    ensures
        r == worker_after(state, event),
{
    match state {
        WorkerState::Compile | WorkerState::Stopped => state,
        WorkerState::Waiting | WorkerState::Settling => match event {
            WorkerEvent::Compile => WorkerState::Settling,
            WorkerEvent::Shutdown | WorkerEvent::Disconnected => WorkerState::Stopped,
            WorkerEvent::Quiet => if state == WorkerState::Settling {
                WorkerState::Compile
            } else {
                WorkerState::Waiting
            },
        },
    }
}

/// A build never takes the focus: showing its PDF file changes nothing but the
/// viewer, and not which program that is.
pub proof fn law_builds_keep_the_focus(
    m: BuildMonitor,
    app: App,
    pdf: Seq<char>,
    file: PdfFile,
    m2: BuildMonitor,
    app2: App,
    r: ActivatedPdf,
)
    requires
        pdf_activated(m, app, pdf, file, m2, app2, r),
    ensures
        app2.project == app.project,
        app2.project_editor == app.project_editor,
        app2.content_focused == app.content_focused,
        app2.page == app.page,
        app2.mode == app.mode,
        app2.pdf_viewer.program == app.pdf_viewer.program,
{
}

/// A build keeps the place in the preview: the page shown before is shown after it
/// where the new document has it; only a page behind the end gives way, to the last
/// one. The document has as many pages as its file, or as it had where that is not
/// known.
pub proof fn law_builds_keep_the_page(
    m: BuildMonitor,
    app: App,
    pdf: Seq<char>,
    file: PdfFile,
    m2: BuildMonitor,
    app2: App,
    r: ActivatedPdf,
)
    requires
        pdf_activated(m, app, pdf, file, m2, app2, r),
    ensures
        file.pages matches Some(n) ==> app2.pdf_viewer.total_pages == n,
        file.pages is None ==> app2.pdf_viewer.total_pages == app.pdf_viewer.total_pages,
        ({
            let before = app.pdf_viewer.page;
            let after = app2.pdf_viewer.page;
            let total = app2.pdf_viewer.total_pages;
            &&& 1 <= before <= total ==> after == before
            &&& before > total && total >= 1 ==> after == total
            &&& total == 0 ==> after <= 1
        }),
{
}

/// A build changes of the viewer the file, the number of its pages and the page, and
/// nothing else: the size, the place on the page and the program stay.
pub proof fn law_builds_keep_the_rest_of_the_viewer(
    os: Platform,
    v: PdfViewerState,
    pdf: Seq<char>,
    pages: Option<usize>,
    post: PdfViewerState,
)
    requires
        preview_updated(os, v, pdf, pages, post),
    ensures
        post == (PdfViewerState {
            path: post.path,
            total_pages: post.total_pages,
            page: post.page,
            ..v
        }),
        post.path is Some,
        v.path is None ==> post.path->0@ == pdf,
        v.path matches Some(old_path) ==> (same_path(os, old_path@, pdf) ==> post.path == v.path)
            && (!same_path(os, old_path@, pdf) ==> post.path->0@ == pdf),
{
}

/// The preview of a document that is already shown keeps its cached pages only in so
/// far as they are drawn anew; another document takes their place.
pub proof fn law_cache_follows_the_document(
    m: BuildMonitor,
    app: App,
    pdf: Seq<char>,
    file: PdfFile,
    m2: BuildMonitor,
    app2: App,
    r: ActivatedPdf,
)
    requires
        pdf_activated(m, app, pdf, file, m2, app2, r),
    ensures
        r.cache == PdfCache::Invalidate <==> (app.pdf_viewer.path matches Some(path) && same_path(
            app.platform,
            path@,
            pdf,
        )),
        r.cache == PdfCache::Reset <==> app.pdf_viewer.path is None || !same_path(
            app.platform,
            app.pdf_viewer.path->0@,
            pdf,
        ),
{
}

/// An external viewer is started by the first build that it has not been started for,
/// and only where the program is not the built-in one.
pub proof fn law_external_viewer_is_started_when_set(
    m: BuildMonitor,
    app: App,
    pdf: Seq<char>,
    file: PdfFile,
    m2: BuildMonitor,
    app2: App,
    r: ActivatedPdf,
)
    requires
        pdf_activated(m, app, pdf, file, m2, app2, r),
    ensures
        r.run is Some ==> app.pdf_viewer.program@ != "internal"@ && !m.external_pdf_opened,
        app.pdf_viewer.program@ != "internal"@ ==> m2.external_pdf_opened,
        m.external_pdf_opened ==> m2.external_pdf_opened && r.run is None,
        app.pdf_viewer.program@ == "internal"@ ==> r.run is None && m2 == m,
        m2.signals == m.signals,
        m2.raw_log == m.raw_log,
{
}

/// A line of output never loses another line until the log is full: then exactly the
/// oldest one goes.
pub proof fn law_build_log_drops_the_oldest(log: Seq<String>, line: String)
    requires
        log.len() <= MAX_BUILD_LOG_LINES,
    ensures
        log.len() < 2000 ==> log_grown(log, line).drop_last() == log,
        log.len() == 2000 ==> log_grown(log, line).drop_last() == log.drop_first(),
{
    assert(log.push(line).drop_last() =~= log);
    assert(log.skip(1).push(line).drop_last() =~= log.skip(1));
    if log.len() > 0 {
        assert(log.skip(1) =~= log.drop_first());
    }
}

/// A build that starts forgets the one before: its log, its diagnostics and what was
/// seen of it.
pub proof fn law_builds_start_afresh(
    m: BuildMonitor,
    b: ProjectBuild,
    event: ProjectBuildEvent,
    m2: BuildMonitor,
    b2: ProjectBuild,
    changed: bool,
    follow_up: BuildFollowUp,
)
    requires
        build_event_step(m, b, event, m2, b2, changed, follow_up),
        event is Started,
    ensures
        m2.raw_log@.len() == 0,
        !m2.signals.pdf_changed,
        !m2.signals.build_succeeded,
        b2.diagnostics@.len() == 0,
        b2.raw_log@.len() == 0,
        b2.selected == 0,
        b2.visible == b.visible,
        changed,
{
}

/// The end of a Typst run: the log and the diagnostics are those of the run; the pane
/// is shown exactly when the run failed, and the file exactly when it did not.
pub proof fn law_typst_results_are_shown(
    m: BuildMonitor,
    b: ProjectBuild,
    event: ProjectBuildEvent,
    m2: BuildMonitor,
    b2: ProjectBuild,
    changed: bool,
    follow_up: BuildFollowUp,
)
    requires
        build_event_step(m, b, event, m2, b2, changed, follow_up),
    ensures
        event matches ProjectBuildEvent::TypstFinished(result) ==> {
            &&& b2.diagnostics == result.diagnostics
            &&& b2.raw_log == result.raw_log
            &&& b2.visible == !result.success
            &&& (follow_up == BuildFollowUp::ActivatePdf <==> result.success)
            &&& !result.success ==> b2.status@ == "Build failed"@
            &&& result.success && result.diagnostics@.len() == 0 ==> b2.status@
                == "Built successfully"@
            &&& result.success && result.diagnostics@.len() > 0 ==> b2.status@
                == "Built with warnings"@
        },
        event matches ProjectBuildEvent::TypstWorkerFailed(error) ==> {
            &&& b2.visible
            &&& b2.diagnostics@.len() == 1
            &&& b2.diagnostics@[0].description@ == error@
            &&& b2.diagnostics@[0].severity == ProjectDiagnosticSeverity::Error
            &&& follow_up == BuildFollowUp::Nothing
        },
        event is Failed ==> follow_up == BuildFollowUp::DiagnoseFailure,
        event is PdfChanged ==> m2.signals.pdf_changed && m2.signals.build_succeeded
            == m.signals.build_succeeded && b2 == b,
        event is Succeeded ==> m2.signals.build_succeeded && m2.signals.pdf_changed
            == m.signals.pdf_changed && b2 == b,
        event is LogLine ==> b2 == b && m2.signals == m.signals && !changed,
        m2.external_pdf_opened == m.external_pdf_opened,
{
}

/// However many requests come while the worker waits, one compilation follows once
/// they cease, and none without a request; a worker that was stopped stays stopped.
pub proof fn law_requests_lead_to_one_compilation(state: WorkerState, event: WorkerEvent)
    ensures
        worker_after(state, event) == WorkerState::Compile && state != WorkerState::Compile
            ==> state == WorkerState::Settling && event == WorkerEvent::Quiet,
        state == WorkerState::Settling && event == WorkerEvent::Quiet ==> worker_after(state, event)
            == WorkerState::Compile,
        state == WorkerState::Waiting && event == WorkerEvent::Quiet ==> worker_after(state, event)
            == WorkerState::Waiting,
        (state == WorkerState::Waiting || state == WorkerState::Settling) && event
            == WorkerEvent::Compile ==> worker_after(state, event) == WorkerState::Settling,
        (state == WorkerState::Waiting || state == WorkerState::Settling) && (event
            == WorkerEvent::Shutdown || event == WorkerEvent::Disconnected) ==> worker_after(
            state,
            event,
        ) == WorkerState::Stopped,
        state == WorkerState::Stopped ==> worker_after(state, event) == WorkerState::Stopped,
{
}

/// The marker of a complete file is the five characters `%%EOF`.
pub proof fn law_end_marker_is_the_text()
    ensures
        end_marker().len() == 5,
        end_marker().map_values(|b: u8| b as char) == "%%EOF"@,
{
    reveal_strlit("%%EOF");
    assert(end_marker().map_values(|b: u8| b as char) =~= "%%EOF"@);
}

/// What the compiler writes itself, its PDF file above all, never asks for another
/// run, and every other file does.
pub proof fn law_typst_ignores_its_own_files(os: Platform, path: Seq<char>)
    ensures
        file_name(os, path) == Some("main.pdf"@) ==> !typst_input(os, path),
        file_name(os, path) == Some(".papr-main.pdf.tmp"@) ==> !typst_input(os, path),
        file_name(os, path) == Some(".papr-projects.toml"@) ==> !typst_input(os, path),
        typst_input(os, path) || file_name(os, path) == Some("main.pdf"@) || file_name(os, path)
            == Some(".papr-main.pdf.tmp"@) || file_name(os, path) == Some(".papr-projects.toml"@),
{
}

} // verus!
