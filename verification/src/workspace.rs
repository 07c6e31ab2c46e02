//! Opening, closing and refreshing the workspace of a project.

use vstd::prelude::*;
use crate::chars::utf8_width;
use crate::compile::{program_view, shows};
use crate::config_editor::message;
use crate::lines::{
    lemma_line_begin, lemma_line_end, lemma_line_number_monotone, line_begin, line_count, line_end,
    line_number,
};
use crate::model::{clone_text, opt_text, Project, ProjectEntry};
use crate::papers::toasted;
use crate::paths::{
    file_name, is_below, joined, path_eq, path_file_name, path_join, path_starts_with, same_path,
};
use crate::projects::{
    entry_at, find_entry, find_project, law_entries_are_found_by_path,
    law_projects_are_found_by_path, project_at, selected_entry, selected_project,
};
use crate::select::{clamp_selection, clamped_selection};
use crate::state::{
    App, CitationSearch, PdfViewerState, ProjectBuild, ProjectCitationSearchMode, ProjectEditor,
    ProjectPane, ProjectState,
};
use crate::text::{
    boundary, byte_len, char_width, group_points, lemma_byte_len_concat, lemma_byte_len_push,
    lemma_char_width, lemma_offset_step, offset, same_text, text_len, to_chars,
};
use crate::viewer::{invocation, open_pdf, PdfFile, Platform};

verus! {

broadcast use group_points;

/// The editor holds nothing; the size of its view and its completions stay.
pub open spec fn editor_cleared(e: ProjectEditor, post: ProjectEditor) -> bool {
    &&& file_shown(e, post)
    &&& post.path is None
    &&& post.text@.len() == 0
}

/// The editor holds a text at its start, outside insert mode and with nothing to
/// undo.
pub open spec fn file_shown(e: ProjectEditor, post: ProjectEditor) -> bool {
    &&& post == ProjectEditor {
        text: post.text,
        path: post.path,
        dirty: false,
        cursor: 0,
        insert_mode: false,
        visual_line_anchor: None,
        undo: post.undo,
        redo: post.redo,
        scroll: 0,
        manual_scroll: false,
        pending_sequence: None,
        ..e
    }
    &&& post.undo@.len() == 0
    &&& post.redo@.len() == 0
}

/// Puts a text into the editor.
fn show_text(e: &mut ProjectEditor, path: Option<String>, text: String)
    ensures
        file_shown(*old(e), *final(e)),
        final(e).path == path,
        final(e).text == text,
        final(e).wf(),
{
    e.text = text;
    e.path = path;
    e.dirty = false;
    e.cursor = 0;
    e.insert_mode = false;
    e.visual_line_anchor = None;
    e.undo = Vec::new();
    e.redo = Vec::new();
    e.scroll = 0;
    e.manual_scroll = false;
    e.pending_sequence = None;
    proof {
        crate::text::lemma_ends(e.text@);
    }
}

/// Opens a file in the editor. `result` is its text, or why it could not be
/// read.
pub fn open_project_file(app: &mut App, path: String, result: Result<String, String>)
    ensures
        match result {
            Ok(text) => {
                &&& *final(app) == (App {
                    project: ProjectState { pane: ProjectPane::Editor, ..old(app).project },
                    project_editor: final(app).project_editor,
                    ..*old(app)
                })
                &&& file_shown(old(app).project_editor, final(app).project_editor)
                &&& final(app).project_editor.path == Some(path)
                &&& final(app).project_editor.text == text
            },
            Err(error) => toasted(*old(app), "Could not open file: "@ + error@, *final(app)),
        },
        old(app).wf() ==> final(app).wf(),
{
    match result {
        Ok(text) => {
            show_text(&mut app.project_editor, Some(path), text);
            app.project.pane = ProjectPane::Editor;
        },
        Err(error) => {
            app.toast = Some(message("Could not open file: ", error.as_str()));
        },
    }
}

/// The bytes of the first `n` lines from index `i` on, each with one byte for its
/// end; a carriage return before the line feed does not count.
pub open spec fn lines_len(t: Seq<char>, i: int, n: int) -> int
    decreases n,
{
    if n <= 0 || i >= t.len() {
        0
    } else {
        let k = line_end(t, i);
        let end = if k < t.len() && k > i && t[k - 1] == '\r' {
            k - 1
        } else {
            k
        };
        byte_len(t.subrange(i, end)) + 1 + lines_len(t, k + 1, n - 1)
    }
}

/// Where the cursor stands when line `line` is shown: after the lines before it,
/// and never past the end.
pub open spec fn line_cursor(t: Seq<char>, line: int) -> int {
    let at = lines_len(t, 0, line - 1);
    if at < byte_len(t) {
        at
    } else {
        byte_len(t)
    }
}

/// The byte offset at which the cursor shows line `line`, counted from one.
pub fn line_offset(text: &str, line: usize) -> (r: usize)
    ensures
        r == line_cursor(text@, line as int),
{
    let v = to_chars(text);
    let length: usize = v.len();
    let total: usize = text_len(text);
    let mut left: usize = if line > 0 {
        line - 1
    } else {
        0
    };
    let mut i: usize = 0;
    let mut sum: u128 = 0;
    while left > 0 && i < length
        invariant
            v@ == text@,
            length == v@.len(),
            i <= length,
            sum <= 5 * i,
            left <= usize::MAX,
            sum + lines_len(v@, i as int, left as int) == lines_len(v@, 0, line - 1),
        decreases left,
    {
        let ghost start = i as int;
        let mut k: usize = i;
        let mut bytes: u128 = 0;
        let mut last: usize = 0;
        proof {
            assert(v@.subrange(start, start) =~= Seq::<char>::empty());
            reveal(byte_len);
            assert(byte_len(Seq::<char>::empty()) == 0);
        }
        while k < length && v[k] != '\n'
            invariant
                length == v@.len(),
                start <= k <= length,
                i == start,
                line_end(v@, start) == line_end(v@, k as int),
                bytes == byte_len(v@.subrange(start, k as int)),
                bytes <= 4 * (k - start),
                k > start ==> last == char_width(v@[k - 1]) && last >= 1 && byte_len(
                    v@.subrange(start, k - 1),
                ) == bytes - last,
            decreases length - k,
        {
            last = utf8_width(v[k]);
            proof {
                lemma_byte_len_push(v@.subrange(start, k as int), v@[k as int]);
                assert(v@.subrange(start, k + 1) =~= v@.subrange(start, k as int).push(
                    v@[k as int],
                ));
            }
            bytes = bytes + last as u128;
            k = k + 1;
        }
        assert(line_end(v@, start) == k);
        if k < length && k > i && v[k - 1] == '\r' {
            bytes = bytes - last as u128;
        }
        sum = sum + bytes + 1;
        left = left - 1;
        if k == length {
            i = k;
            assert(lines_len(v@, k + 1, left as int) == 0);
            assert(lines_len(v@, k as int, left as int) == 0);
        } else {
            i = k + 1;
        }
    }
    if sum < total as u128 {
        sum as usize
    } else {
        total
    }
}

/// Shows the source that a diagnostic points to. `contents` is the text of the
/// file at `path`, nothing where it could not be read.
pub fn show_diagnostic_source(
    app: &mut App,
    path: String,
    line: usize,
    contents: Option<String>,
)
    ensures
        match contents {
            Some(text) => *final(app) == (App {
                project: ProjectState { pane: ProjectPane::Editor, ..old(app).project },
                project_editor: ProjectEditor {
                    path: Some(path),
                    text,
                    cursor: line_cursor(text@, line as int) as usize,
                    manual_scroll: false,
                    ..old(app).project_editor
                },
                ..*old(app)
            }),
            None => *final(app) == *old(app),
        },
        old(app).wf() && boundary(
            final(app).project_editor.text@,
            final(app).project_editor.cursor as int,
        ) ==> final(app).wf(),
{
    if let Some(text) = contents {
        let cursor: usize = line_offset(text.as_str(), line);
        app.project_editor.path = Some(path);
        app.project_editor.text = text;
        app.project_editor.cursor = cursor;
        app.project_editor.manual_scroll = false;
        app.project.pane = ProjectPane::Editor;
    }
}

/// No line of the text ends in a carriage return and a line feed.
pub open spec fn has_plain_line_ends(t: Seq<char>) -> bool {
    forall|k: int| 0 < k < t.len() && #[trigger] t[k] == '\n' ==> t[k - 1] != '\r'
}

/// Every character of the text is an ASCII one.
pub open spec fn is_ascii(t: Seq<char>) -> bool {
    forall|k: int| 0 <= k < t.len() ==> (#[trigger] t[k]) as u32 <= 0x7f
}

/// The cursor that shows a line stands between two characters, in every text whose
/// lines end in a line feed alone and in every ASCII text.
pub proof fn law_line_cursor_is_valid(t: Seq<char>, line: int)
    requires
        has_plain_line_ends(t) || is_ascii(t),
    ensures
        boundary(t, line_cursor(t, line)),
{
    crate::text::lemma_ends(t);
    lemma_lines_len_positive(t, 0, line - 1);
    if is_ascii(t) {
        crate::text::lemma_ascii_offset(t, t.len() as int);
        crate::text::lemma_ascii_offset(t, line_cursor(t, line));
    } else {
        lemma_lines_len(t, 0, line - 1);
        assert(t.take(0) =~= Seq::<char>::empty());
    }
}

proof fn lemma_lines_len_positive(t: Seq<char>, i: int, n: int)
    ensures
        lines_len(t, i, n) >= 0,
    decreases n,
{
    if n > 0 && i < t.len() {
        lemma_lines_len_positive(t, line_end(t, i) + 1, n - 1);
        reveal(byte_len);
    }
}

/// One line of a text without carriage returns before its line feeds.
proof fn lemma_plain_line(t: Seq<char>, i: int)
    requires
        has_plain_line_ends(t),
        0 <= i < t.len(),
    ensures
        ({
            let k = line_end(t, i);
            &&& i <= k <= t.len()
            &&& !(k < t.len() && k > i && t[k - 1] == '\r')
            &&& byte_len(t.take(k)) == byte_len(t.take(i)) + byte_len(t.subrange(i, k))
            &&& k < t.len() ==> byte_len(t.take(k + 1)) == byte_len(t.take(k)) + 1
        }),
{
    let k = line_end(t, i);
    crate::lines::lemma_line_end(t, i);
    assert(t.take(k) =~= t.take(i) + t.subrange(i, k));
    crate::text::lemma_byte_len_concat(t.take(i), t.subrange(i, k));
    if k < t.len() {
        assert(t[k] == '\n');
        assert(t.take(k + 1) =~= t.take(k).push(t[k]));
        lemma_byte_len_push(t.take(k), t[k]);
        crate::text::lemma_char_width(t[k]);
    }
}

proof fn lemma_lines_len(t: Seq<char>, i: int, n: int)
    requires
        has_plain_line_ends(t),
        0 <= i <= t.len(),
    ensures
        ({
            let at = byte_len(t.take(i)) + lines_len(t, i, n);
            at >= byte_len(t) || boundary(t, at)
        }),
    decreases n,
{
    if n <= 0 || i >= t.len() {
        assert(byte_len(t.take(i)) == crate::text::offset(t, i)) by {
            reveal(crate::text::offset);
        }
        crate::text::lemma_offset(t, i);
    } else {
        let k = line_end(t, i);
        lemma_plain_line(t, i);
        assert(lines_len(t, i, n) == byte_len(t.subrange(i, k)) + 1 + lines_len(t, k + 1, n - 1));
        if k < t.len() {
            lemma_lines_len(t, k + 1, n - 1);
        } else {
            assert(t.take(k) =~= t);
            assert(lines_len(t, k + 1, n - 1) == 0);
        }
    }
}

/// The main source of a project.
pub open spec fn is_main_source(os: Platform, path: Seq<char>) -> bool {
    file_name(os, path) == Some("main.tex"@) || file_name(os, path) == Some("main.typ"@)
}

/// The first main source among the entries, from index `i` on.
pub open spec fn main_source_at(os: Platform, entries: Seq<ProjectEntry>, i: int) -> Option<int>
    decreases entries.len() - i,
{
    if i < 0 || i >= entries.len() {
        None
    } else if is_main_source(os, entries[i].path@) {
        Some(i)
    } else {
        main_source_at(os, entries, i + 1)
    }
}

fn find_main_source(os: Platform, entries: &Vec<ProjectEntry>) -> (r: Option<usize>)
    ensures
        r is Some == main_source_at(os, entries@, 0) is Some,
        r matches Some(i) ==> i == main_source_at(os, entries@, 0)->0 && i < entries@.len(),
{
    let mut i: usize = 0;
    while i < entries.len()
        invariant
            i <= entries@.len(),
            main_source_at(os, entries@, 0) == main_source_at(os, entries@, i as int),
        decreases entries.len() - i,
    {
        if let Some(name) = path_file_name(os, entries[i].path.as_str()) {
            if same_text(name.as_str(), "main.tex") || same_text(name.as_str(), "main.typ") {
                return Some(i);
            }
        }
        i = i + 1;
    }
    None
}

/// The build pane of a project that was just opened.
pub open spec fn build_cleared(b: ProjectBuild, status: Seq<char>, post: ProjectBuild) -> bool {
    &&& post == ProjectBuild {
        status: post.status,
        diagnostics: post.diagnostics,
        raw_log: post.raw_log,
        show_raw: false,
        selected: 0,
        scroll: 0,
        visible: false,
        viewport_height: post.viewport_height,
        ..b
    }
    &&& post.status@ == status
    &&& post.diagnostics@.len() == 0
    &&& post.raw_log@.len() == 0
}

fn clear_build(b: &mut ProjectBuild, status: &str)
    ensures
        build_cleared(*old(b), status@, *final(b)),
        final(b).viewport_height == old(b).viewport_height,
{
    b.status = status.to_owned();
    b.diagnostics = Vec::new();
    b.raw_log = Vec::new();
    b.show_raw = false;
    b.selected = 0;
    b.scroll = 0;
    b.visible = false;
}

/// The preview shows the PDF file `pdf` from its first page on.
pub open spec fn preview_opened(
    v: PdfViewerState,
    pdf: Seq<char>,
    pages: Option<usize>,
    post: PdfViewerState,
) -> bool {
    &&& post == PdfViewerState {
        path: post.path,
        total_pages: match pages {
            Some(n) => n,
            None => 1,
        },
        page: 1,
        scroll_y: 0,
        ..v
    }
    &&& opt_text(post.path) == Some(pdf)
}

fn open_preview(v: &mut PdfViewerState, pdf: String, pages: Option<usize>)
    ensures
        preview_opened(*old(v), pdf@, pages, *final(v)),
{
    v.path = Some(pdf);
    v.total_pages = match pages {
        Some(n) => n,
        None => 1,
    };
    v.page = 1;
    v.scroll_y = 0;
}

/// What has to be done outside the state once a project is open.
#[derive(Debug)]
pub struct WorkspaceOpened {
    /// The main source, which is to be read into the editor.
    pub main_source: Option<String>,
    /// The program that is to open the PDF file of the project.
    pub run: Option<(String, Vec<String>)>,
}

/// The project is open at its file tree, with its main source selected and its
/// PDF file, where there is one, in the preview.
pub open spec fn workspace_opened(
    pre: App,
    project: Project,
    entries: Vec<ProjectEntry>,
    typst: bool,
    pdf: Option<PdfFile>,
    post: App,
    r: WorkspaceOpened,
) -> bool {
    let main = main_source_at(pre.platform, entries@, 0);
    &&& post == App {
        project: post.project,
        project_editor: post.project_editor,
        project_build: post.project_build,
        pdf_viewer: post.pdf_viewer,
        ..pre
    }
    &&& post.project == ProjectState {
        tree_dir: post.project.tree_dir,
        files: entries,
        file_selected: match main {
            Some(i) => i as usize,
            None => 0,
        },
        pane: ProjectPane::FileTree,
        active: Some(project),
        ..pre.project
    }
    &&& opt_text(post.project.tree_dir) == Some(project.path@)
    &&& editor_cleared(pre.project_editor, post.project_editor)
    &&& build_cleared(
        pre.project_build,
        if typst {
            "Starting embedded Typst…"@
        } else {
            "Starting latexmk…"@
        },
        post.project_build,
    )
    &&& post.project_build.viewport_height == pre.project_build.viewport_height
    &&& match pdf {
        Some(file) => preview_opened(
            pre.pdf_viewer,
            joined(pre.platform, project.path@, "main.pdf"@),
            file.pages,
            post.pdf_viewer,
        ),
        None => post.pdf_viewer == pre.pdf_viewer,
    }
    &&& opt_text(r.main_source) == match main {
        Some(i) => Some(entries@[i].path@),
        None => None,
    }
    &&& program_view(r.run) == match pdf {
        Some(file) => if pre.pdf_viewer.program@ != "internal"@ {
            invocation(pre.pdf_viewer.program@, file.path@, pre.platform)
        } else {
            None
        },
        None => None,
    }
}

/// Opens a project. `entries` are those of its folder, `typst` says that its main
/// source is a Typst file, and `pdf` is its generated PDF file, where it has one.
pub fn open_project_workspace(
    app: &mut App,
    project: Project,
    entries: Vec<ProjectEntry>,
    typst: bool,
    pdf: Option<PdfFile>,
) -> (r: WorkspaceOpened)
    ensures
        workspace_opened(*old(app), project, entries, typst, pdf, *final(app), r),
        old(app).wf() ==> final(app).wf(),
{
    let main = find_main_source(app.platform, &entries);
    let main_source = match main {
        Some(i) => Some(entries[i].path.clone()),
        None => None,
    };
    let document = path_join(app.platform, project.path.as_str(), "main.pdf");
    show_project(&mut app.project, project, entries, main);
    show_text(&mut app.project_editor, None, String::new());
    clear_build(
        &mut app.project_build,
        if typst {
            "Starting embedded Typst…"
        } else {
            "Starting latexmk…"
        },
    );
    let run = match pdf {
        None => None,
        Some(file) => {
            let path = document.clone();
            open_preview(&mut app.pdf_viewer, document, file.pages);
            if same_text(app.pdf_viewer.program.as_str(), "internal") {
                None
            } else {
                let viewer = app.pdf_viewer.program.clone();
                match open_pdf(app, viewer.as_str(), path.as_str(), Some(file), None) {
                    Ok(run) => run,
                    Err(_) => None,
                }
            }
        },
    };
    WorkspaceOpened { main_source, run }
}

fn show_project(
    p: &mut ProjectState,
    project: Project,
    entries: Vec<ProjectEntry>,
    selected: Option<usize>,
)
    ensures
        *final(p) == (ProjectState {
            tree_dir: final(p).tree_dir,
            files: entries,
            file_selected: match selected {
                Some(i) => i,
                None => 0,
            },
            pane: ProjectPane::FileTree,
            active: Some(project),
            ..*old(p)
        }),
        opt_text(final(p).tree_dir) == Some(project.path@),
{
    p.tree_dir = Some(project.path.clone());
    p.files = entries;
    p.file_selected = match selected {
        Some(i) => i,
        None => 0,
    };
    p.pane = ProjectPane::FileTree;
    p.active = Some(project);
}

/// Puts the main source of the open project into the editor. `text` is what was
/// read of it, nothing where that failed.
pub fn show_main_source(app: &mut App, path: String, text: Option<String>)
    ensures
        *final(app) == match text {
            Some(text) => (App {
                project_editor: ProjectEditor {
                    text,
                    path: Some(path),
                    cursor: 0,
                    ..old(app).project_editor
                },
                ..*old(app)
            }),
            None => *old(app),
        },
        old(app).wf() ==> final(app).wf(),
{
    if let Some(text) = text {
        proof {
            crate::text::lemma_ends(text@);
        }
        app.project_editor.text = text;
        app.project_editor.path = Some(path);
        app.project_editor.cursor = 0;
    }
}

/// Nothing of a project is left in its state.
pub open spec fn project_closed(p: ProjectState, post: ProjectState) -> bool {
    &&& post == ProjectState {
        active: None,
        files: post.files,
        tree_dir: None,
        file_selected: 0,
        entry_rename_path: None,
        pane: ProjectPane::ProjectList,
        ..p
    }
    &&& post.files@.len() == 0
}

/// The citation search is empty.
pub open spec fn citations_closed(post: CitationSearch) -> bool {
    &&& post.query@.len() == 0
    &&& post.cursor == 0
    &&& post.results@.len() == 0
    &&& post.selected == 0
    &&& post.scroll == 0
    &&& post.search_mode == ProjectCitationSearchMode::Local
    &&& post.status is None
    &&& post.bib_titles@.len() == 0
}

/// The editor of a closed project: as of one just opened, and it offers no
/// completions.
pub open spec fn editor_closed(e: ProjectEditor, post: ProjectEditor) -> bool {
    &&& editor_cleared(
        ProjectEditor { completions: post.completions, completion_selected: 0, ..e },
        post,
    )
    &&& post.completions@.len() == 0
}

/// The viewer shows no document.
pub open spec fn viewer_closed(v: PdfViewerState) -> PdfViewerState {
    PdfViewerState {
        path: None,
        page: 1,
        total_pages: 1,
        scroll_y: 0,
        page_pixel_h: 0,
        max_scroll_y: 0,
        ..v
    }
}

/// The PDF file of the open project.
pub open spec fn project_pdf(os: Platform, p: ProjectState) -> Option<Seq<char>> {
    match p.active {
        Some(project) => Some(joined(os, project.path@, "main.pdf"@)),
        None => None,
    }
}

/// The viewer shows what the project generated: its PDF file, or nothing where
/// no project is open.
pub open spec fn shows_project_pdf(pre: App) -> bool {
    match project_pdf(pre.platform, pre.project) {
        Some(pdf) => shows(pre.platform, pre.pdf_viewer, pdf),
        None => pre.pdf_viewer.path is None,
    }
}

/// Everything that belonged to the open project is gone, its PDF file from the
/// viewer too.
pub open spec fn workspace_closed(pre: App, post: App) -> bool {
    &&& post == App {
        project: post.project,
        project_editor: post.project_editor,
        project_build: post.project_build,
        citation_search: post.citation_search,
        pdf_viewer: if shows_project_pdf(pre) {
            viewer_closed(pre.pdf_viewer)
        } else {
            pre.pdf_viewer
        },
        ..pre
    }
    &&& project_closed(pre.project, post.project)
    &&& editor_closed(pre.project_editor, post.project_editor)
    &&& build_cleared(pre.project_build, "Idle"@, post.project_build)
    &&& post.project_build.viewport_height == 0
    &&& citations_closed(post.citation_search)
}

fn close_project(p: &mut ProjectState)
    ensures
        project_closed(*old(p), *final(p)),
{
    p.active = None;
    p.files = Vec::new();
    p.tree_dir = None;
    p.file_selected = 0;
    p.entry_rename_path = None;
    p.pane = ProjectPane::ProjectList;
}

fn close_editor(e: &mut ProjectEditor)
    ensures
        editor_closed(*old(e), *final(e)),
        final(e).wf(),
{
    e.completions = Vec::new();
    e.completion_selected = 0;
    show_text(e, None, String::new());
}

fn close_viewer(v: &mut PdfViewerState)
    ensures
        *final(v) == viewer_closed(*old(v)),
{
    v.path = None;
    v.page = 1;
    v.total_pages = 1;
    v.scroll_y = 0;
    v.page_pixel_h = 0;
    v.max_scroll_y = 0;
}

/// Closes the open project. The result is its PDF file, whose rendered pages are
/// to be released.
pub fn close_project_workspace(app: &mut App) -> (released: Option<String>)
    ensures
        workspace_closed(*old(app), *final(app)),
        opt_text(released) == project_pdf(old(app).platform, old(app).project),
        old(app).wf() ==> final(app).wf(),
{
    let released = match &app.project.active {
        Some(project) => Some(path_join(app.platform, project.path.as_str(), "main.pdf")),
        None => None,
    };
    let shown = match &released {
        Some(pdf) => match &app.pdf_viewer.path {
            Some(path) => path_eq(app.platform, path.as_str(), pdf.as_str()),
            None => false,
        },
        None => app.pdf_viewer.path.is_none(),
    };
    close_project(&mut app.project);
    close_editor(&mut app.project_editor);
    clear_build(&mut app.project_build, "Idle");
    app.project_build.viewport_height = 0;
    app.citation_search = CitationSearch::default();
    proof {
        crate::text::lemma_ends(app.citation_search.query@);
    }
    if shown {
        close_viewer(&mut app.pdf_viewer);
    }
    released
}

/// Closing leaves nothing of the project behind that a later project could show.
pub proof fn law_closing_leaves_nothing(pre: App, post: App)
    requires
        workspace_closed(pre, post),
    ensures
        post.project.active is None,
        post.project.files@.len() == 0,
        post.project_editor.path is None,
        post.project_editor.text@.len() == 0,
        post.project_editor.undo@.len() == 0,
        post.project_editor.redo@.len() == 0,
        post.project_build.diagnostics@.len() == 0,
        post.project_build.raw_log@.len() == 0,
        post.citation_search.results@.len() == 0,
        project_pdf(
            pre.platform,
            pre.project,
        ) matches Some(pdf) ==> !shows(pre.platform, post.pdf_viewer, pdf),
{
}

/// The selection after the list of projects was read anew: the same project,
/// where it is still there.
pub open spec fn project_reselected(os: Platform, p: ProjectState, projects: Seq<Project>) -> int {
    let stays = clamped_selection(p.selected as int, projects.len() as int);
    match selected_project(p) {
        Some(project) => match project_at(os, projects, project.path@, 0) {
            Some(i) => i,
            None => stays,
        },
        None => stays,
    }
}

/// Takes over the list of projects on disk.
pub fn refresh_project_list(os: Platform, p: &mut ProjectState, projects: Vec<Project>)
    ensures
        *final(p) == (ProjectState {
            projects,
            selected: project_reselected(os, *old(p), projects@) as usize,
            ..*old(p)
        }),
{
    let found: Option<usize> = if p.selected < p.projects.len() {
        find_project(os, &projects, p.projects[p.selected].path.as_str())
    } else {
        None
    };
    p.selected = match found {
        Some(i) => i,
        None => clamp_selection(p.selected, projects.len()),
    };
    p.projects = projects;
}

/// What is left of the open project on disk.
#[derive(Debug, Clone, Copy, PartialEq, Eq, Structural)]
pub enum ProjectOnDisk {
    /// No project is open.
    NotOpen,
    /// Its folder is gone.
    Removed,
    Present,
}

/// Takes over the list of projects on disk and closes the open project where its
/// folder is gone, which `root_exists` tells. The second result is the PDF file of
/// a project that was closed.
pub fn refresh_projects(app: &mut App, projects: Vec<Project>, root_exists: bool) -> (r: (
    ProjectOnDisk,
    Option<String>,
))
    ensures
        ({
            let listed = App {
                project: ProjectState {
                    projects,
                    selected: project_reselected(
                        old(app).platform,
                        old(app).project,
                        projects@,
                    ) as usize,
                    ..old(app).project
                },
                ..*old(app)
            };
            if old(app).project.active is None {
                *final(app) == listed && r == (ProjectOnDisk::NotOpen, None::<String>)
            } else if root_exists {
                *final(app) == listed && r == (ProjectOnDisk::Present, None::<String>)
            } else {
                &&& r.0 == ProjectOnDisk::Removed
                &&& opt_text(r.1) == project_pdf(old(app).platform, old(app).project)
                &&& opt_text(final(app).toast) == Some("The open project was removed from disk."@)
                &&& workspace_closed(App { toast: final(app).toast, ..listed }, *final(app))
            }
        }),
        old(app).wf() ==> final(app).wf(),
{
    refresh_project_list(app.platform, &mut app.project, projects);
    if app.project.active.is_none() {
        (ProjectOnDisk::NotOpen, None)
    } else if root_exists {
        (ProjectOnDisk::Present, None)
    } else {
        let released = close_project_workspace(app);
        app.toast = Some("The open project was removed from disk.".to_owned());
        (ProjectOnDisk::Removed, released)
    }
}

/// The folder that the file tree shows after a change on disk: the same one,
/// where it is still a folder of the project, and the project's own otherwise.
pub open spec fn kept_folder(
    os: Platform,
    p: ProjectState,
    folder_exists: bool,
) -> Option<Seq<char>> {
    match p.active {
        None => None,
        Some(project) => match p.tree_dir {
            Some(dir) => if folder_exists && is_below(os, dir@, project.path@) {
                Some(dir@)
            } else {
                Some(project.path@)
            },
            None => Some(project.path@),
        },
    }
}

/// The folder that the file tree is to show; `folder_exists` says that the folder
/// which it shows now is still there.
pub fn refreshed_folder(os: Platform, p: &ProjectState, folder_exists: bool) -> (r: Option<String>)
    ensures
        opt_text(r) == kept_folder(os, *p, folder_exists),
{
    match &p.active {
        None => None,
        Some(project) => match &p.tree_dir {
            Some(dir) => if folder_exists && path_starts_with(
                os,
                dir.as_str(),
                project.path.as_str(),
            ) {
                Some(dir.clone())
            } else {
                Some(project.path.clone())
            },
            None => Some(project.path.clone()),
        },
    }
}

/// The file tree always shows a folder of the open project.
pub proof fn law_tree_folder_stays_in_project(os: Platform, p: ProjectState, folder_exists: bool)
    requires
        p.active is Some,
    ensures
        kept_folder(os, p, folder_exists) matches Some(dir) && is_below(os, dir, p.active->0.path@),
{
    let root = p.active->0.path@;
    crate::paths::law_below_is_a_preorder(os, root, root, root);
}

/// The selection after a folder was read anew: the same entry, where it is still
/// there.
pub open spec fn entry_reselected(
    os: Platform,
    p: ProjectState,
    entries: Seq<ProjectEntry>,
) -> int {
    let stays = clamped_selection(p.file_selected as int, entries.len() as int);
    match selected_entry(p) {
        Some(entry) => match entry_at(os, entries, entry.path@, 0) {
            Some(i) => i,
            None => stays,
        },
        None => stays,
    }
}

/// Takes over the entries of the folder that the file tree shows.
pub fn refresh_project_tree(
    os: Platform,
    p: &mut ProjectState,
    folder: String,
    entries: Vec<ProjectEntry>,
)
    ensures
        *final(p) == (ProjectState {
            tree_dir: Some(folder),
            files: entries,
            file_selected: entry_reselected(os, *old(p), entries@) as usize,
            ..*old(p)
        }),
{
    let found: Option<usize> = if p.file_selected < p.files.len() {
        find_entry(os, &entries, p.files[p.file_selected].path.as_str())
    } else {
        None
    };
    p.file_selected = match found {
        Some(i) => i,
        None => clamp_selection(p.file_selected, entries.len()),
    };
    p.tree_dir = Some(folder);
    p.files = entries;
}

/// The file in the editor, as it is on disk.
#[derive(Debug)]
pub enum FileOnDisk {
    Missing,
    Unreadable,
    Text(String),
}

/// The editor after its file changed on disk: it closes with the file, keeps what
/// was not saved, and otherwise takes over the text.
pub open spec fn editor_refreshed(
    e: ProjectEditor,
    disk: FileOnDisk,
    post: ProjectEditor,
) -> bool {
    if e.path is None {
        post == e
    } else {
        match disk {
            FileOnDisk::Missing => {
                &&& post == ProjectEditor {
                    path: None,
                    text: post.text,
                    dirty: false,
                    cursor: 0,
                    insert_mode: false,
                    ..e
                }
                &&& post.text@.len() == 0
            },
            FileOnDisk::Unreadable => post == e,
            FileOnDisk::Text(text) => if e.dirty || text@ == e.text@ {
                post == e
            } else {
                post == ProjectEditor {
                    text,
                    cursor: (if e.cursor < byte_len(text@) {
                        e.cursor as int
                    } else {
                        byte_len(text@)
                    }) as usize,
                    ..e
                }
            },
        }
    }
}

/// Takes over what became of the file in the editor.
pub fn refresh_project_editor(app: &mut App, disk: FileOnDisk)
    ensures
        *final(app) == (App {
            project: final(app).project,
            project_editor: final(app).project_editor,
            ..*old(app)
        }),
        editor_refreshed(old(app).project_editor, disk, final(app).project_editor),
        final(app).project == (ProjectState {
            pane: if old(app).project_editor.path is Some && disk is Missing {
                ProjectPane::FileTree
            } else {
                old(app).project.pane
            },
            ..old(app).project
        }),
        old(app).wf() && boundary(
            final(app).project_editor.text@,
            final(app).project_editor.cursor as int,
        ) ==> final(app).wf(),
{
    if app.project_editor.path.is_none() {
        return ;
    }
    match disk {
        FileOnDisk::Missing => {
            app.project_editor.path = None;
            app.project_editor.text = String::new();
            app.project_editor.dirty = false;
            app.project_editor.cursor = 0;
            app.project_editor.insert_mode = false;
            app.project.pane = ProjectPane::FileTree;
        },
        FileOnDisk::Unreadable => {},
        FileOnDisk::Text(text) => {
            if !app.project_editor.dirty && !same_text(
                text.as_str(),
                app.project_editor.text.as_str(),
            ) {
                let length: usize = text_len(text.as_str());
                if app.project_editor.cursor >= length {
                    app.project_editor.cursor = length;
                }
                app.project_editor.text = text;
            }
        },
    }
}

/// What was not saved is never replaced by what is on disk.
pub proof fn law_unsaved_text_is_kept(e: ProjectEditor, disk: FileOnDisk, post: ProjectEditor)
    requires
        editor_refreshed(e, disk, post),
        e.dirty,
        !(disk is Missing),
    ensures
        post == e,
{
}

/// The preview after a change on disk: a document that is gone is closed, and the
/// PDF file of the project is shown where another one, or none, was.
pub open spec fn preview_refreshed(
    os: Platform,
    v: PdfViewerState,
    pdf: Seq<char>,
    shown_exists: bool,
    file: Option<PdfFile>,
    post: PdfViewerState,
    released: Option<Seq<char>>,
    reset: bool,
) -> bool {
    let kept = PdfViewerState {
        path: if shown_exists {
            v.path
        } else {
            None
        },
        ..v
    };
    &&& released == if shown_exists {
        None
    } else {
        opt_text(v.path)
    }
    &&& reset == (file is Some && !shows(os, kept, pdf))
    &&& if reset {
        preview_opened(kept, pdf, file->0.pages, post)
    } else {
        post == kept
    }
}

/// Takes over what became of the documents on disk. `shown_exists` says that the
/// document in the viewer is still there, `file` is the PDF file of the project.
/// The results are the document to release and whether another one is shown.
pub fn refresh_preview(
    os: Platform,
    v: &mut PdfViewerState,
    pdf: String,
    shown_exists: bool,
    file: Option<PdfFile>,
) -> (r: (Option<String>, bool))
    ensures
        preview_refreshed(
            os,
            *old(v),
            pdf@,
            shown_exists,
            file,
            *final(v),
            opt_text(r.0),
            r.1,
        ),
{
    let mut released: Option<String> = None;
    if !shown_exists {
        released = clone_text(&v.path);
        v.path = None;
    }
    let shown = match &v.path {
        Some(path) => path_eq(os, path.as_str(), pdf.as_str()),
        None => false,
    };
    match file {
        Some(file) => if shown {
            (released, false)
        } else {
            open_preview(v, pdf, file.pages);
            (released, true)
        },
        None => (released, false),
    }
}

/// A project opens at its file tree, with its own folder and entries, an empty editor and an
/// empty build pane; the first main source is selected and is to be read.
pub proof fn law_projects_open_at_their_main_source(
    pre: App,
    project: Project,
    entries: Vec<ProjectEntry>,
    typst: bool,
    pdf: Option<PdfFile>,
    post: App,
    r: WorkspaceOpened,
)
    requires
        workspace_opened(pre, project, entries, typst, pdf, post, r),
    ensures
        post.project.active == Some(project),
        post.project.pane == ProjectPane::FileTree,
        post.project.files == entries,
        post.project.tree_dir is Some && post.project.tree_dir->0@ == project.path@,
        post.project_editor.text@.len() == 0,
        post.project_editor.path is None,
        !post.project_editor.dirty,
        post.project_build.diagnostics@.len() == 0,
        !post.project_build.visible,
        r.main_source matches Some(path) ==> post.project.file_selected < entries@.len() && path@
            == entries@[post.project.file_selected as int].path@ && (file_name(pre.platform, path@)
            == Some("main.tex"@) || file_name(pre.platform, path@) == Some("main.typ"@)),
        r.main_source is None ==> post.project.file_selected == 0 && forall|i: int|
            0 <= i < entries@.len() ==> file_name(pre.platform, (#[trigger] entries@[i]).path@)
                != Some("main.tex"@) && file_name(pre.platform, entries@[i].path@) != Some(
                "main.typ"@,
            ),
        pdf matches Some(file) ==> post.pdf_viewer.page == 1 && (file.pages is Some
            ==> post.pdf_viewer.total_pages == file.pages->0) && post.pdf_viewer.path is Some
            && post.pdf_viewer.path->0@ == joined(pre.platform, project.path@, "main.pdf"@),
        pdf is None ==> post.pdf_viewer == pre.pdf_viewer && r.run is None,
        pre.pdf_viewer.program@ == "internal"@ ==> r.run is None,
{
    lemma_main_source_at(pre.platform, entries@, 0);
    assert(entries.len() == entries@.len());
}

proof fn lemma_main_source_at(os: Platform, entries: Seq<ProjectEntry>, i: int)
    requires
        0 <= i <= entries.len(),
    ensures
        match main_source_at(os, entries, i) {
            Some(k) => i <= k < entries.len() && is_main_source(os, entries[k].path@),
            None => forall|j: int|
                i <= j < entries.len() ==> !is_main_source(os, (#[trigger] entries[j]).path@),
        },
    decreases entries.len() - i,
{
    if i < entries.len() && !is_main_source(os, entries[i].path@) {
        lemma_main_source_at(os, entries, i + 1);
    }
}

/// After the projects were read anew the same project is selected where it is still there;
/// otherwise the selection stays as far as the list goes.
pub proof fn law_reading_anew_keeps_the_selected_project(
    os: Platform,
    p: ProjectState,
    projects: Seq<Project>,
)
    ensures
        ({
            let k = project_reselected(os, p, projects);
            let is_there = p.selected < p.projects@.len() && exists|i: int|
                0 <= i < projects.len() && same_path(
                    os,
                    (#[trigger] projects[i]).path@,
                    p.projects@[p.selected as int].path@,
                );
            &&& is_there ==> 0 <= k < projects.len() && same_path(
                os,
                projects[k].path@,
                p.projects@[p.selected as int].path@,
            )
            &&& !is_there && p.selected < projects.len() ==> k == p.selected
            &&& !is_there && p.selected >= projects.len() > 0 ==> k == projects.len() - 1
        }),
{
    if p.selected < p.projects@.len() {
        law_projects_are_found_by_path(os, projects, p.projects@[p.selected as int].path@, 0);
    }
}

/// After a folder was read anew the same entry is selected where it is still there; otherwise
/// the selection stays as far as the list goes.
pub proof fn law_reading_anew_keeps_the_selected_entry(
    os: Platform,
    p: ProjectState,
    entries: Seq<ProjectEntry>,
)
    ensures
        ({
            let k = entry_reselected(os, p, entries);
            let is_there = p.file_selected < p.files@.len() && exists|i: int|
                0 <= i < entries.len() && same_path(
                    os,
                    (#[trigger] entries[i]).path@,
                    p.files@[p.file_selected as int].path@,
                );
            &&& is_there ==> 0 <= k < entries.len() && same_path(
                os,
                entries[k].path@,
                p.files@[p.file_selected as int].path@,
            )
            &&& !is_there && p.file_selected < entries.len() ==> k == p.file_selected
            &&& !is_there && p.file_selected >= entries.len() > 0 ==> k == entries.len() - 1
        }),
{
    if p.file_selected < p.files@.len() {
        law_entries_are_found_by_path(os, entries, p.files@[p.file_selected as int].path@, 0);
    }
}

/// A file that changed on disk is taken over where nothing of it was changed in the editor,
/// with the cursor as near to its place as the text goes; a file that is gone leaves the
/// editor empty.
pub proof fn law_files_are_taken_over_from_disk(
    e: ProjectEditor,
    disk: FileOnDisk,
    post: ProjectEditor,
)
    requires
        editor_refreshed(e, disk, post),
        e.path is Some,
    ensures
        disk matches FileOnDisk::Text(text) ==> {
            &&& !e.dirty ==> post.text@ == text@
            &&& e.dirty ==> post.text == e.text
            &&& e.cursor <= byte_len(text@) ==> post.cursor == e.cursor
            &&& post.path == e.path
        },
        disk is Missing ==> post.path is None && post.text@.len() == 0 && !post.dirty,
        disk is Unreadable ==> post == e,
{
}

/// The preview keeps a document that is still there and is the project's own; one that is
/// gone is released, and the project's file is shown from its first page where it was not
/// shown before.
pub proof fn law_previews_follow_the_files(
    os: Platform,
    v: PdfViewerState,
    pdf: Seq<char>,
    shown_exists: bool,
    file: Option<PdfFile>,
    post: PdfViewerState,
    released: Option<Seq<char>>,
    reset: bool,
)
    requires
        preview_refreshed(os, v, pdf, shown_exists, file, post, released, reset),
    ensures
        shown_exists && v.path is Some && same_path(os, v.path->0@, pdf) ==> post == v && !reset
            && released is None,
        !shown_exists && v.path is Some ==> released == Some(v.path->0@),
        shown_exists ==> released is None,
        file is None ==> !reset && post.page == v.page && (shown_exists ==> post == v),
        reset ==> post.page == 1 && post.path is Some && post.path->0@ == pdf,
        file is Some && (!shown_exists || v.path is None || !same_path(os, v.path->0@, pdf))
            ==> reset,
{
}

/// The file tree keeps its folder where that is still there and in the project, and shows the
/// project's own folder otherwise.
pub proof fn law_kept_folders_are_those_that_exist(
    os: Platform,
    p: ProjectState,
    folder_exists: bool,
)
    requires
        p.active is Some,
    ensures
        p.tree_dir is Some && folder_exists && is_below(os, p.tree_dir->0@, p.active->0.path@)
            ==> kept_folder(os, p, folder_exists) == Some(p.tree_dir->0@),
        p.tree_dir is None || !folder_exists || !is_below(os, p.tree_dir->0@, p.active->0.path@)
            ==> kept_folder(os, p, folder_exists) == Some(p.active->0.path@),
{
}

/// In a text whose lines end in a line feed alone, the cursor that shows a line stands at its
/// first character, and one that shows a line behind the last stands at the end.
pub proof fn law_line_cursor_stands_at_the_line(t: Seq<char>, line: int)
    requires
        has_plain_line_ends(t),
        1 <= line,
    ensures
        line <= line_count(t) ==> line_cursor(t, line) == offset(t, line_begin(t, line - 1)),
        line > line_count(t) ==> line_cursor(t, line) == byte_len(t),
{
    lemma_line_number_monotone(t, 0, t.len() as int);
    lemma_lines_before(t, 0, line - 1);
    if line <= line_count(t) {
        lemma_line_begin(t, line - 1);
    }
}

proof fn lemma_lines_before(t: Seq<char>, m: int, n: int)
    requires
        has_plain_line_ends(t),
        0 <= m < line_count(t),
        0 <= n,
    ensures
        m + n < line_count(t) ==> lines_len(t, line_begin(t, m), n) == offset(
            t,
            line_begin(t, m + n),
        ) - offset(t, line_begin(t, m)),
        m + n >= line_count(t) ==> lines_len(t, line_begin(t, m), n) >= byte_len(t) - offset(
            t,
            line_begin(t, m),
        ),
    decreases n,
{
    let b = line_begin(t, m);
    lemma_line_begin(t, m);
    lemma_line_end(t, b);
    let k = line_end(t, b);
    let len = t.len() as int;
    if n > 0 && b < len {
        lemma_span_len(t, b, k);
        if k < len {
            lemma_offset_step(t, k);
            lemma_char_width('\n');
            assert(line_number(t, k + 1) == m + 1);
            lemma_line_number_monotone(t, k + 1, len);
            lemma_lines_before(t, m + 1, n - 1);
        } else {
            assert(line_number(t, len) == m);
            assert(lines_len(t, k + 1, n - 1) == 0);
        }
    } else if n > 0 {
        assert(line_number(t, len) == m);
    }
}

proof fn lemma_span_len(t: Seq<char>, from: int, to: int)
    requires
        0 <= from <= to <= t.len(),
    ensures
        byte_len(t.subrange(from, to)) == offset(t, to) - offset(t, from),
{
    reveal(offset);
    assert(t.take(to) =~= t.take(from) + t.subrange(from, to));
    lemma_byte_len_concat(t.take(from), t.subrange(from, to));
}

} // verus!
