//! The dialogs: prompts, the note editor, confirmations and the details of a
//! paper.

use vstd::prelude::*;
use crate::actions::UiAction;
use crate::chars::{blank, is_blank, trim, trimmed};
use crate::keys::{KeyCode, KeyEvent};
use crate::model::{
    CollectionSummary, DeletionTarget, LibraryPaper, MetadataPrompt, PaperNote, PaperTarget,
    Project, RemotePaper,
};
use crate::navigation::{gone_back, help_toggled, less, more};
use crate::papers::{
    arxiv_page_step, open_arxiv_page, open_pdf_of, remote_selection, selected_remote_paper,
    selected_remote_target, targets_remote,
};
use crate::select::{next_selection, previous_selection, select_next, select_previous};
use crate::state::{App, AppMode, Command, NotesState, Page, ProjectState};
use crate::text::{boundary, group_points, index, same_text};
use crate::text_edit::{
    buffer, edit_text, edited, edits, insert_char, inserted, law_edit_keeps_cursor_valid,
    law_editing_keys_change_one_character,
};

verus! {

broadcast use group_points;

/// The prompt as it is submitted: left blank, the prompt for the group of a
/// paper takes the selected collection.
pub open spec fn submitted(p: MetadataPrompt, collections: Seq<CollectionSummary>) -> MetadataPrompt {
    if is_blank(p.value@) && p.rename_collection_id is None && p.paper_id is Some && p.selected
        < collections.len() {
        MetadataPrompt { value: collections[p.selected as int].name, ..p }
    } else {
        p
    }
}

fn submit(p: &mut MetadataPrompt, collections: &Vec<CollectionSummary>)
    ensures
        *final(p) == submitted(*old(p), collections@),
{
    if blank(p.value.as_str()) && p.rename_collection_id.is_none() && p.paper_id.is_some()
        && p.selected < collections.len() {
        p.value = collections[p.selected].name.clone();
    }
}

/// What a key other than Enter and Escape does to a prompt.
pub open spec fn prompt_edited(
    p: MetadataPrompt,
    count: int,
    key: KeyEvent,
    post: MetadataPrompt,
) -> bool {
    match key.code {
        KeyCode::Down => post == MetadataPrompt {
            selected: next_selection(p.selected as int, count) as usize,
            ..p
        },
        KeyCode::Up => post == MetadataPrompt {
            selected: previous_selection(p.selected as int) as usize,
            ..p
        },
        _ => {
            &&& post == MetadataPrompt { value: post.value, cursor: post.cursor, ..p }
            &&& edited(buffer(p.value@, p.cursor as int), key).held(
                post.value@,
                post.cursor as int,
            )
        },
    }
}

fn edit_prompt(p: &mut MetadataPrompt, count: usize, key: KeyEvent)
    requires
        boundary(old(p).value@, old(p).cursor as int),
    ensures
        prompt_edited(*old(p), count as int, key, *final(p)),
        boundary(final(p).value@, final(p).cursor as int),
{
    match key.code {
        KeyCode::Down => {
            p.selected = select_next(p.selected, count);
        },
        KeyCode::Up => {
            p.selected = select_previous(p.selected);
        },
        _ => {
            let _changed = edit_text(&mut p.value, &mut p.cursor, key);
        },
    }
}

/// What a key of a prompt does.
pub open spec fn prompt_key_step(
    pre: App,
    key: KeyEvent,
    post: App,
    action: Option<UiAction>,
) -> bool {
    let done = App { metadata_prompt: None, mode: pre.modal_return, ..pre };
    match key.code {
        KeyCode::Esc => post == done && action is None,
        KeyCode::Enter => post == done && action == match pre.metadata_prompt {
            Some(p) => Some(UiAction::SubmitPrompt(submitted(p, pre.collections.items@))),
            None => None,
        },
        _ => {
            &&& action is None
            &&& post == App { metadata_prompt: post.metadata_prompt, ..pre }
            &&& match (pre.metadata_prompt, post.metadata_prompt) {
                (Some(p), Some(q)) => prompt_edited(
                    p,
                    pre.collections.items@.len() as int,
                    key,
                    q,
                ),
                (None, None) => true,
                _ => false,
            }
        },
    }
}

fn handle_prompt_key(app: &mut App, key: KeyEvent) -> (action: Option<UiAction>)
    requires
        old(app).prompt_wf(),
    ensures
        prompt_key_step(*old(app), key, *final(app), action),
        old(app).wf() ==> final(app).wf(),
{
    let prompt = app.metadata_prompt.take();
    match key.code {
        KeyCode::Esc => {
            app.mode = app.modal_return;
            None
        },
        KeyCode::Enter => {
            app.mode = app.modal_return;
            match prompt {
                None => None,
                Some(p) => {
                    let mut p = p;
                    submit(&mut p, &app.collections.items);
                    Some(UiAction::SubmitPrompt(p))
                },
            }
        },
        _ => {
            if let Some(p) = prompt {
                let mut p = p;
                edit_prompt(&mut p, app.collections.items.len(), key);
                app.metadata_prompt = Some(p);
            }
            None
        },
    }
}

/// A note after an editing key, Enter among them.
pub open spec fn note_edited(n: PaperNote, key: KeyEvent, post: PaperNote) -> bool {
    let b = buffer(n.body@, n.cursor as int);
    &&& post == PaperNote { body: post.body, cursor: post.cursor, ..n }
    &&& (if key.code == KeyCode::Enter { inserted(b, seq!['\n']) } else { edited(b, key) }).held(
        post.body@,
        post.cursor as int,
    )
}

/// Whether a key changes the text of a note.
pub open spec fn note_changed(n: PaperNote, key: KeyEvent) -> bool {
    key.code == KeyCode::Enter || edits(buffer(n.body@, n.cursor as int), key)
}

fn edit_note(n: &mut PaperNote, key: KeyEvent) -> (changed: bool)
    requires
        boundary(old(n).body@, old(n).cursor as int),
    ensures
        note_edited(*old(n), key, *final(n)),
        changed == note_changed(*old(n), key),
        boundary(final(n).body@, final(n).cursor as int),
{
    if key.code == KeyCode::Enter {
        insert_char(&mut n.body, &mut n.cursor, '\n');
        true
    } else {
        edit_text(&mut n.body, &mut n.cursor, key)
    }
}

/// The note is to be saved, if there is one.
pub open spec fn save_note_of(note: Option<PaperNote>) -> Option<UiAction> {
    match note {
        Some(n) => Some(UiAction::SaveNote(n)),
        None => None,
    }
}

fn save_note(note: &Option<PaperNote>) -> (r: Option<UiAction>)
    ensures
        r == save_note_of(*note),
{
    match note {
        Some(n) => Some(UiAction::SaveNote(n.clone())),
        None => None,
    }
}

/// What a key of the note editor does: Tab switches to the preview and back,
/// Escape leaves and saves, and every change is saved.
pub open spec fn note_key_step(
    pre: App,
    key: KeyEvent,
    post: App,
    action: Option<UiAction>,
) -> bool {
    let n = pre.notes;
    if key.code == KeyCode::Tab {
        post == App { notes: NotesState { preview: !n.preview, scroll: 0, ..n }, ..pre } && action
            is None
    } else if key.code == KeyCode::Esc {
        post == App { mode: pre.modal_return, ..pre } && action == save_note_of(n.editor)
    } else if n.preview {
        action is None && post == if key.code == KeyCode::Down || key.code == KeyCode::Char('j') {
            App { notes: NotesState { scroll: more(n.scroll, 1), ..n }, ..pre }
        } else if key.code == KeyCode::Up || key.code == KeyCode::Char('k') {
            App { notes: NotesState { scroll: less(n.scroll, 1), ..n }, ..pre }
        } else {
            pre
        }
    } else {
        &&& post == App { notes: NotesState { editor: post.notes.editor, ..n }, ..pre }
        &&& match (n.editor, post.notes.editor) {
            (Some(a), Some(b)) => {
                &&& note_edited(a, key, b)
                &&& action == if note_changed(a, key) {
                    Some(UiAction::SaveNote(b))
                } else {
                    None
                }
            },
            (None, None) => action is None,
            _ => false,
        }
    }
}

fn handle_note_key(app: &mut App, key: KeyEvent) -> (action: Option<UiAction>)
    requires
        old(app).note_wf(),
    ensures
        note_key_step(*old(app), key, *final(app), action),
        old(app).wf() ==> final(app).wf(),
{
    if key.code == KeyCode::Tab {
        app.notes.preview = !app.notes.preview;
        app.notes.scroll = 0;
        return None;
    }
    if key.code == KeyCode::Esc {
        app.mode = app.modal_return;
        return save_note(&app.notes.editor);
    }
    if app.notes.preview {
        if key.code == KeyCode::Down || key.code == KeyCode::Char('j') {
            app.notes.scroll = app.notes.scroll.saturating_add(1);
        } else if key.code == KeyCode::Up || key.code == KeyCode::Char('k') {
            app.notes.scroll = app.notes.scroll.saturating_sub(1);
        }
        return None;
    }
    match app.notes.editor.take() {
        None => None,
        Some(n) => {
            let mut n = n;
            let changed = edit_note(&mut n, key);
            let action = if changed {
                Some(UiAction::SaveNote(n.clone()))
            } else {
                None
            };
            app.notes.editor = Some(n);
            action
        },
    }
}

/// What a key of the prompt or of the note editor does.
pub open spec fn modal_key_step(
    pre: App,
    key: KeyEvent,
    post: App,
    action: Option<UiAction>,
) -> bool {
    if pre.mode == AppMode::Prompt {
        prompt_key_step(pre, key, post, action)
    } else {
        note_key_step(pre, key, post, action)
    }
}

/// Handles a key of the prompt or of the note editor.
pub fn handle_modal_key(app: &mut App, key: KeyEvent) -> (action: Option<UiAction>)
    requires
        old(app).prompt_wf(),
        old(app).note_wf(),
    ensures
        modal_key_step(*old(app), key, *final(app), action),
        old(app).wf() ==> final(app).wf(),
{
    if app.mode == AppMode::Prompt {
        handle_prompt_key(app, key)
    } else {
        handle_note_key(app, key)
    }
}

/// Every change of a note is saved as it stands: what is asked to be saved is
/// what the editor then holds.
pub proof fn law_note_changes_are_saved(pre: App, key: KeyEvent, post: App, action: Option<UiAction>)
    requires
        pre.mode == AppMode::NoteEdit,
        modal_key_step(pre, key, post, action),
        pre.notes.editor is Some,
        post.notes.editor is Some,
        post.notes.editor->0.body@ != pre.notes.editor->0.body@,
    ensures
        action == Some(UiAction::SaveNote(post.notes.editor->0)),
{
}

/// The deletion that a confirmation asked about.
pub open spec fn deletion_of(target: DeletionTarget) -> UiAction {
    match target {
        DeletionTarget::Project { project } => UiAction::DeleteProject(project),
        DeletionTarget::Paper { id, title, path } => UiAction::DeletePaper { paper_id: id, path },
        DeletionTarget::Collection { id, name, path } => UiAction::DeleteCollection {
            collection_id: id,
            path,
        },
        DeletionTarget::ProjectEntry { path, name, is_directory } => UiAction::DeleteProjectEntry(path),
    }
}

/// What a key of a confirmation does: `y` and Enter confirm, `n`, `q` and
/// Escape decline, and nothing else is taken for an answer.
pub open spec fn confirm_key_step(
    pre: App,
    key: KeyEvent,
    post: App,
    action: Option<UiAction>,
) -> bool {
    let done = App { delete_confirmation: None, mode: AppMode::Normal, ..pre };
    if confirms(key.code) {
        match pre.delete_confirmation {
            Some(target) => post == done && action == Some(deletion_of(target)),
            None => post == pre && action is None,
        }
    } else if declines(key.code) {
        post == done && action is None
    } else {
        post == pre && action is None
    }
}

pub open spec fn confirms(code: KeyCode) -> bool {
    code == KeyCode::Enter || code == KeyCode::Char('y') || code == KeyCode::Char('Y')
}

pub open spec fn declines(code: KeyCode) -> bool {
    code == KeyCode::Esc || code == KeyCode::Char('n') || code == KeyCode::Char('N') || code
        == KeyCode::Char('q')
}

/// Nothing is deleted without a confirming key and a question that was asked.
pub proof fn law_deletion_needs_confirmation(
    pre: App,
    key: KeyEvent,
    post: App,
    action: Option<UiAction>,
)
    requires
        confirm_key_step(pre, key, post, action),
        action is Some,
    ensures
        confirms(key.code),
        pre.delete_confirmation is Some,
        action == Some(deletion_of(pre.delete_confirmation->0)),
        post.delete_confirmation is None,
{
}

/// Handles a key of a confirmation.
pub fn handle_confirm_delete_key(app: &mut App, key: KeyEvent) -> (action: Option<UiAction>)
    ensures
        confirm_key_step(*old(app), key, *final(app), action),
        old(app).wf() ==> final(app).wf(),
{
    if key.code == KeyCode::Enter || key.code == KeyCode::Char('y') || key.code == KeyCode::Char(
        'Y',
    ) {
        match app.delete_confirmation.take() {
            None => None,
            Some(target) => {
                app.mode = AppMode::Normal;
                Some(
                    match target {
                        DeletionTarget::Project { project } => UiAction::DeleteProject(project),
                        DeletionTarget::Paper { id, title: _, path } => UiAction::DeletePaper {
                            paper_id: id,
                            path,
                        },
                        DeletionTarget::Collection { id, name: _, path } =>
                        UiAction::DeleteCollection { collection_id: id, path },
                        DeletionTarget::ProjectEntry { path, name: _, is_directory: _ } =>
                        UiAction::DeleteProjectEntry(path),
                    },
                )
            },
        }
    } else if key.code == KeyCode::Esc || key.code == KeyCode::Char('n') || key.code
        == KeyCode::Char('N') || key.code == KeyCode::Char('q') {
        app.delete_confirmation = None;
        app.mode = AppMode::Normal;
        None
    } else {
        None
    }
}

/// The project state with an empty name field.
pub open spec fn name_cleared(p: ProjectState, post: ProjectState) -> bool {
    &&& post == ProjectState { rename_input: post.rename_input, rename_cursor: 0, ..p }
    &&& post.rename_input@.len() == 0
}

/// The compiler that Tab switches to.
pub open spec fn other_compiler(compiler: Seq<char>) -> Seq<char> {
    if compiler == "typst"@ {
        "latex"@
    } else {
        "typst"@
    }
}

/// The project that a rename is about: the open one, or the selected one.
pub open spec fn project_to_rename(p: ProjectState) -> Option<Project> {
    match p.active {
        Some(project) => Some(project),
        None => if p.selected < p.projects@.len() {
            Some(p.projects@[p.selected as int])
        } else {
            None
        },
    }
}

/// What Enter in the name field asks for.
pub open spec fn name_submitted(p: ProjectState, mode: AppMode, action: Option<UiAction>) -> bool {
    let typed = trimmed(p.rename_input@);
    match mode {
        AppMode::ProjectCreate => action matches Some(UiAction::CreateProject { name, compiler })
            && name@ == typed && compiler == p.create_compiler,
        AppMode::ProjectFileCreate => action matches Some(UiAction::CreateProjectFile(name))
            && name@ == typed,
        AppMode::ProjectEntryRename => match p.entry_rename_path {
            Some(entry) => action matches Some(UiAction::RenameProjectEntry { path, name }) && path
                == entry && name@ == typed,
            None => action is None,
        },
        _ => match project_to_rename(p) {
            Some(chosen) => action matches Some(UiAction::RenameProject { project, name })
                && project == chosen && name@ == typed,
            None => action is None,
        },
    }
}

/// What a key of the name field does; it closes with Escape and Enter.
pub open spec fn name_key_step(
    p: ProjectState,
    mode: AppMode,
    key: KeyEvent,
    post: ProjectState,
    action: Option<UiAction>,
) -> bool {
    match key.code {
        KeyCode::Esc => name_cleared(ProjectState { entry_rename_path: None, ..p }, post) && action
            is None,
        KeyCode::Enter => {
            &&& name_cleared(
                ProjectState {
                    entry_rename_path: if mode == AppMode::ProjectEntryRename {
                        None
                    } else {
                        p.entry_rename_path
                    },
                    ..p
                },
                post,
            )
            &&& name_submitted(p, mode, action)
        },
        _ => if mode == AppMode::ProjectCreate && (key.code == KeyCode::Tab || key.code
            == KeyCode::BackTab) {
            &&& post == ProjectState { create_compiler: post.create_compiler, ..p }
            &&& post.create_compiler@ == other_compiler(p.create_compiler@)
            &&& action is None
        } else {
            &&& post == ProjectState {
                rename_input: post.rename_input,
                rename_cursor: post.rename_cursor,
                ..p
            }
            &&& edited(buffer(p.rename_input@, p.rename_cursor as int), key).held(
                post.rename_input@,
                post.rename_cursor as int,
            )
            &&& action is None
        },
    }
}

fn submit_name(p: &mut ProjectState, mode: AppMode) -> (action: Option<UiAction>)
    ensures
        name_submitted(*old(p), mode, action),
        *final(p) == (ProjectState {
            entry_rename_path: if mode == AppMode::ProjectEntryRename {
                None
            } else {
                old(p).entry_rename_path
            },
            ..*old(p)
        }),
{
    let name = trim(p.rename_input.as_str());
    match mode {
        AppMode::ProjectCreate => Some(
            UiAction::CreateProject { name, compiler: p.create_compiler.clone() },
        ),
        AppMode::ProjectFileCreate => Some(UiAction::CreateProjectFile(name)),
        AppMode::ProjectEntryRename => {
            match p.entry_rename_path.take() {
                Some(path) => Some(UiAction::RenameProjectEntry { path, name }),
                None => None,
            }
        },
        _ => {
            match &p.active {
                Some(project) => Some(UiAction::RenameProject { project: project.clone(), name }),
                None => {
                    if p.selected < p.projects.len() {
                        let project = p.projects[p.selected].clone();
                        Some(UiAction::RenameProject { project, name })
                    } else {
                        None
                    }
                },
            }
        },
    }
}

fn name_key(p: &mut ProjectState, mode: AppMode, key: KeyEvent) -> (action: Option<UiAction>)
    requires
        boundary(old(p).rename_input@, old(p).rename_cursor as int),
    ensures
        name_key_step(*old(p), mode, key, *final(p), action),
        boundary(final(p).rename_input@, final(p).rename_cursor as int),
{
    proof {
        crate::text::lemma_ends(Seq::<char>::empty());
    }
    match key.code {
        KeyCode::Esc => {
            p.rename_input = String::new();
            p.rename_cursor = 0;
            p.entry_rename_path = None;
            None
        },
        KeyCode::Enter => {
            let action = submit_name(p, mode);
            p.rename_input = String::new();
            p.rename_cursor = 0;
            action
        },
        _ => {
            if mode == AppMode::ProjectCreate && (key.code == KeyCode::Tab || key.code
                == KeyCode::BackTab) {
                p.create_compiler = if same_text(p.create_compiler.as_str(), "typst") {
                    "latex".to_owned()
                } else {
                    "typst".to_owned()
                };
            } else {
                let _changed = edit_text(&mut p.rename_input, &mut p.rename_cursor, key);
            }
            None
        },
    }
}

/// Handles a key of the field that names a project, a file or a folder.
pub fn handle_project_name_modal_key(app: &mut App, key: KeyEvent) -> (action: Option<UiAction>)
    requires
        boundary(old(app).project.rename_input@, old(app).project.rename_cursor as int),
    ensures
        *final(app) == (App {
            project: final(app).project,
            mode: if key.code == KeyCode::Esc || key.code == KeyCode::Enter {
                AppMode::Normal
            } else {
                old(app).mode
            },
            ..*old(app)
        }),
        name_key_step(old(app).project, old(app).mode, key, final(app).project, action),
        old(app).wf() ==> final(app).wf(),
{
    let mode = app.mode;
    let action = name_key(&mut app.project, mode, key);
    if key.code == KeyCode::Esc || key.code == KeyCode::Enter {
        app.mode = AppMode::Normal;
    }
    action
}

/// Whether a library paper is the downloaded form of a remote one: it has the
/// same reference or DOI, and its file is there.
pub open spec fn is_download_of(local: LibraryPaper, remote: RemotePaper) -> bool {
    &&& local.pdf_path is Some
    &&& local.canonical_path is Some
    &&& (local.arxiv_id matches Some(a) && a@ == remote.id@) || match (local.doi, remote.doi) {
        (Some(a), Some(b)) => a@ == b@,
        _ => false,
    }
}

/// The first library paper from index `i` on that is the downloaded form of a
/// remote one.
pub open spec fn download_of(papers: Seq<LibraryPaper>, remote: RemotePaper, i: int) -> Option<
    LibraryPaper,
>
    decreases papers.len() - i,
{
    if i < 0 || i >= papers.len() {
        None
    } else if is_download_of(papers[i], remote) {
        Some(papers[i])
    } else {
        download_of(papers, remote, i + 1)
    }
}

fn downloaded(local: &LibraryPaper, remote: &RemotePaper) -> (r: bool)
    ensures
        r == is_download_of(*local, *remote),
{
    if local.pdf_path.is_none() || local.canonical_path.is_none() {
        return false;
    }
    if let Some(a) = &local.arxiv_id {
        if same_text(a.as_str(), remote.id.as_str()) {
            return true;
        }
    }
    match (&local.doi, &remote.doi) {
        (Some(a), Some(b)) => same_text(a.as_str(), b.as_str()),
        _ => false,
    }
}

impl App {
    /// The library paper that is the downloaded form of a remote one.
    pub fn downloaded_remote_paper(&self, remote: &RemotePaper) -> (r: Option<&LibraryPaper>)
        ensures
            r is Some == download_of(self.library.papers@, *remote, 0) is Some,
            r matches Some(paper) ==> *paper == download_of(
                self.library.papers@,
                *remote,
                0,
            )->0,
    {
        let papers = &self.library.papers;
        let mut i: usize = 0;
        while i < papers.len()
            invariant
                i <= papers@.len(),
                papers == self.library.papers,
                download_of(papers@, *remote, 0) == download_of(papers@, *remote, i as int),
            decreases papers.len() - i,
        {
            if downloaded(&papers[i], remote) {
                return Some(&papers[i]);
            }
            i = i + 1;
        }
        None
    }
}

/// The file of the downloaded form of the selected remote paper is to be shown.
pub open spec fn open_download_of(app: App) -> Option<UiAction> {
    match remote_selection(app) {
        None => None,
        Some(remote) => match download_of(app.library.papers@, remote, 0) {
            None => None,
            Some(local) => open_pdf_of(local),
        },
    }
}

/// What a key of the details of a paper does.
pub open spec fn detail_key_step(
    pre: App,
    key: KeyEvent,
    post: App,
    action: Option<UiAction>,
) -> bool {
    let remote_page = pre.page == Page::Dashboard || pre.page == Page::Discover;
    let scroll = pre.paper_detail_scroll;
    match key.code {
        KeyCode::Esc | KeyCode::Left => post == gone_back(pre) && action is None,
        KeyCode::Down => post == App { paper_detail_scroll: more(scroll, 1), ..pre } && action
            is None,
        KeyCode::Up => post == App { paper_detail_scroll: less(scroll, 1), ..pre } && action
            is None,
        KeyCode::Enter => post == pre && action == open_download_of(pre),
        KeyCode::Char(c) => if c == '?' {
            post == help_toggled(pre) && action is None
        } else if c == 'h' || c == 'q' {
            post == gone_back(pre) && action is None
        } else if c == 'j' {
            post == App { paper_detail_scroll: more(scroll, 1), ..pre } && action is None
        } else if c == 'k' {
            post == App { paper_detail_scroll: less(scroll, 1), ..pre } && action is None
        } else if c == 'o' {
            arxiv_page_step(
                pre,
                match remote_selection(pre) {
                    Some(paper) => Some(paper.id@),
                    None => None,
                },
                post,
                action,
            )
        } else if c == 'd' || c == 'c' {
            post == pre && remote_asked(pre, c, action)
        } else if remote_page {
            post == pre && action is None
        } else if c == 'n' || c == 'g' {
            post == App { modal_return: AppMode::PaperDetail, ..pre } && remote_asked(
                pre,
                c,
                action,
            )
        } else if c == 'B' {
            post == pre && remote_asked(pre, c, action)
        } else {
            post == pre && action is None
        },
        _ => post == pre && action is None,
    }
}

/// What a letter asks for of the selected remote paper, if one is selected.
pub open spec fn remote_asked(app: App, c: char, action: Option<UiAction>) -> bool {
    match remote_selection(app) {
        None => action is None,
        Some(paper) => if c == 'd' {
            action matches Some(UiAction::Download(p)) && p@ == paper@
        } else if c == 'c' {
            action matches Some(UiAction::CopyCitation(t)) && targets_remote(t, paper)
        } else if c == 'n' {
            action matches Some(UiAction::OpenNote(t)) && targets_remote(t, paper)
        } else if c == 'g' {
            action matches Some(UiAction::Prompt(t)) && targets_remote(t, paper)
        } else {
            action matches Some(UiAction::Bookmark(t)) && targets_remote(t, paper)
        },
    }
}

fn ask_remote(app: &App, c: char) -> (action: Option<UiAction>)
    ensures
        remote_asked(*app, c, action),
{
    if c == 'd' {
        return match selected_remote_paper(app) {
            Some(paper) => Some(UiAction::Download(paper.clone())),
            None => None,
        };
    }
    match selected_remote_target(app) {
        None => None,
        Some(target) => Some(
            if c == 'c' {
                UiAction::CopyCitation(target)
            } else if c == 'n' {
                UiAction::OpenNote(target)
            } else if c == 'g' {
                UiAction::Prompt(target)
            } else {
                UiAction::Bookmark(target)
            },
        ),
    }
}

fn open_download(app: &App) -> (action: Option<UiAction>)
    ensures
        action == open_download_of(*app),
{
    match selected_remote_paper(app) {
        None => None,
        Some(remote) => match app.downloaded_remote_paper(remote) {
            None => None,
            Some(local) => match &local.pdf_path {
                Some(path) => Some(
                    UiAction::OpenPdf { paper_id: local.id, path: path.clone() },
                ),
                None => None,
            },
        },
    }
}

/// Handles a key of the details of a paper.
pub fn handle_paper_detail_key(app: &mut App, key: KeyEvent) -> (action: Option<UiAction>)
    requires
        old(app).wf(),
    ensures
        detail_key_step(*old(app), key, *final(app), action),
        final(app).wf(),
{
    match key.code {
        KeyCode::Esc | KeyCode::Left => {
            app.dispatch(Command::Back);
            None
        },
        KeyCode::Down => {
            app.paper_detail_scroll = app.paper_detail_scroll.saturating_add(1);
            None
        },
        KeyCode::Up => {
            app.paper_detail_scroll = app.paper_detail_scroll.saturating_sub(1);
            None
        },
        KeyCode::Enter => open_download(app),
        KeyCode::Char(c) => {
            if c == '?' {
                app.dispatch(Command::ToggleHelp);
                None
            } else if c == 'h' || c == 'q' {
                app.dispatch(Command::Back);
                None
            } else if c == 'j' {
                app.paper_detail_scroll = app.paper_detail_scroll.saturating_add(1);
                None
            } else if c == 'k' {
                app.paper_detail_scroll = app.paper_detail_scroll.saturating_sub(1);
                None
            } else if c == 'o' {
                let reference = match selected_remote_paper(app) {
                    Some(paper) => Some(paper.id.clone()),
                    None => None,
                };
                open_arxiv_page(app, reference)
            } else if c == 'd' || c == 'c' {
                ask_remote(app, c)
            } else if app.page == Page::Dashboard || app.page == Page::Discover {
                None
            } else if c == 'n' || c == 'g' {
                let action = ask_remote(app, c);
                app.modal_return = AppMode::PaperDetail;
                action
            } else if c == 'B' {
                ask_remote(app, c)
            } else {
                None
            }
        },
        _ => None,
    }
}

/// `y`, `Y` and Enter carry out exactly the deletion that was asked about; `n`, `N`, `q`
/// and Escape carry out none and close the question; any other key leaves it open.
pub proof fn law_confirmation_keys(pre: App, key: KeyEvent, post: App, action: Option<UiAction>)
    requires
        confirm_key_step(pre, key, post, action),
        pre.delete_confirmation is Some,
    ensures
        ({
            let yes = key.code == KeyCode::Enter || key.code == KeyCode::Char('y') || key.code
                == KeyCode::Char('Y');
            let no = key.code == KeyCode::Esc || key.code == KeyCode::Char('n') || key.code
                == KeyCode::Char('N') || key.code == KeyCode::Char('q');
            &&& yes ==> match pre.delete_confirmation->0 {
                DeletionTarget::Project { project } => action == Some(
                    UiAction::DeleteProject(project),
                ),
                DeletionTarget::Paper { id, title, path } => action == Some(
                    UiAction::DeletePaper { paper_id: id, path },
                ),
                DeletionTarget::Collection { id, name, path } => action == Some(
                    UiAction::DeleteCollection { collection_id: id, path },
                ),
                DeletionTarget::ProjectEntry { path, name, is_directory } => action == Some(
                    UiAction::DeleteProjectEntry(path),
                ),
            }
            &&& !yes ==> action is None
            &&& yes || no ==> post.mode == AppMode::Normal && post.delete_confirmation is None
            &&& !yes && !no ==> post == pre
        }),
{
}

/// Enter submits a prompt as it stands, except that the prompt for the group of a paper,
/// left blank, takes the selected collection; Escape submits nothing. Either closes it.
pub proof fn law_prompts_are_submitted(pre: App, key: KeyEvent, post: App, action: Option<UiAction>)
    requires
        prompt_key_step(pre, key, post, action),
        pre.metadata_prompt is Some,
    ensures
        key.code == KeyCode::Enter || key.code == KeyCode::Esc ==> post.metadata_prompt is None
            && post.mode == pre.modal_return,
        key.code != KeyCode::Enter ==> action is None,
        key.code == KeyCode::Enter ==> (action matches Some(UiAction::SubmitPrompt(sent)) && {
            let p = pre.metadata_prompt->0;
            let groups = pre.collections.items@;
            let chosen = is_blank(p.value@) && p.paper_id is Some && p.rename_collection_id is None
                && p.selected < groups.len();
            &&& chosen ==> sent.value == groups[p.selected as int].name
            &&& !chosen ==> sent.value == p.value
            &&& sent.paper_id == p.paper_id
            &&& sent.rename_collection_id == p.rename_collection_id
        }),
        key.code != KeyCode::Enter && key.code != KeyCode::Esc ==> post.mode == pre.mode
            && post.metadata_prompt is Some,
{
}

/// In a prompt a typed character stands at the cursor; Up and Down select among the
/// collections and leave the text.
pub proof fn law_prompts_are_edited(pre: App, key: KeyEvent, post: App, action: Option<UiAction>)
    requires
        prompt_key_step(pre, key, post, action),
        pre.metadata_prompt matches Some(p) && boundary(p.value@, p.cursor as int),
        !key.modifiers.control,
    ensures
        ({
            let p = pre.metadata_prompt->0;
            let q = post.metadata_prompt->0;
            let t = p.value@;
            let at = index(t, p.cursor as int);
            let count = pre.collections.items@.len();
            &&& key.code is Char ==> q.value@ == t.insert(at, key.code->Char_0) && index(
                q.value@,
                q.cursor as int,
            ) == at + 1
            &&& key.code == KeyCode::Backspace && at > 0 ==> q.value@ == t.remove(at - 1)
            &&& key.code == KeyCode::Down ==> q.value == p.value && (p.selected + 1 < count
                ==> q.selected == p.selected + 1)
            &&& key.code == KeyCode::Up ==> q.value == p.value && (p.selected > 0 ==> q.selected
                == p.selected - 1)
        }),
{
    let p = pre.metadata_prompt->0;
    let b = buffer(p.value@, p.cursor as int);
    law_editing_keys_change_one_character(b, key);
    law_edit_keeps_cursor_valid(b, key);
    assert(pre.collections.items.len() == pre.collections.items@.len());
}

/// In the note editor a typed character and Enter change the note at its cursor and save it;
/// Escape saves the note and leaves; Tab switches the preview and changes nothing of it.
pub proof fn law_note_keys(pre: App, key: KeyEvent, post: App, action: Option<UiAction>)
    requires
        note_key_step(pre, key, post, action),
        pre.notes.editor matches Some(n) && boundary(n.body@, n.cursor as int),
        !key.modifiers.control,
    ensures
        ({
            let n = pre.notes.editor->0;
            let t = n.body@;
            let at = index(t, n.cursor as int);
            let typed = match key.code {
                KeyCode::Char(c) => Some(c),
                KeyCode::Enter => Some('\n'),
                _ => None,
            };
            &&& !pre.notes.preview && typed is Some ==> (post.notes.editor matches Some(m) && m.body@
                == t.insert(at, typed->0) && index(m.body@, m.cursor as int) == at + 1 && action
                == Some(UiAction::SaveNote(m)))
            &&& key.code == KeyCode::Esc ==> post.mode == pre.modal_return && action == Some(
                UiAction::SaveNote(n),
            )
            &&& key.code == KeyCode::Tab ==> post.notes.preview == !pre.notes.preview
                && post.notes.editor == pre.notes.editor && action is None
            &&& key.code != KeyCode::Tab ==> post.notes.preview == pre.notes.preview
            &&& pre.notes.preview ==> post.notes.editor == pre.notes.editor
        }),
{
    let n = pre.notes.editor->0;
    let b = buffer(n.body@, n.cursor as int);
    law_editing_keys_change_one_character(b, key);
    law_edit_keeps_cursor_valid(b, key);
    if key.code == KeyCode::Enter {
        assert(inserted(b, seq!['\n']).text =~= b.text.insert(b.at, '\n'));
    }
}

/// Enter in the name field asks for what the field was opened for, with the name without the
/// white space round it; Escape asks for nothing; either empties the field.
pub proof fn law_names_are_submitted(
    p: ProjectState,
    mode: AppMode,
    key: KeyEvent,
    post: ProjectState,
    action: Option<UiAction>,
)
    requires
        name_key_step(p, mode, key, post, action),
    ensures
        key.code == KeyCode::Enter || key.code == KeyCode::Esc ==> post.rename_input@.len() == 0
            && post.rename_cursor == 0,
        key.code != KeyCode::Enter ==> action is None,
        key.code == KeyCode::Enter && mode == AppMode::ProjectCreate ==> (action matches Some(
            UiAction::CreateProject { name, compiler },
        ) && name@ == trimmed(p.rename_input@) && compiler == p.create_compiler),
        key.code == KeyCode::Enter && mode == AppMode::ProjectFileCreate ==> (action matches Some(
            UiAction::CreateProjectFile(name),
        ) && name@ == trimmed(p.rename_input@)),
        key.code == KeyCode::Enter && mode == AppMode::ProjectEntryRename && p.entry_rename_path
            is Some ==> (action matches Some(UiAction::RenameProjectEntry { path, name }) && Some(
            path,
        ) == p.entry_rename_path && name@ == trimmed(p.rename_input@)),
        key.code == KeyCode::Enter && mode == AppMode::ProjectRename && p.active is Some ==> (
        action matches Some(UiAction::RenameProject { project, name }) && Some(project) == p.active
            && name@ == trimmed(p.rename_input@)),
        key.code == KeyCode::Enter && mode == AppMode::ProjectRename && p.active is None
            && p.selected < p.projects@.len() ==> (action matches Some(
            UiAction::RenameProject { project, name },
        ) && project == p.projects@[p.selected as int] && name@ == trimmed(p.rename_input@)),
        post.projects == p.projects,
        post.active == p.active,
{
}

/// While a project is created, Tab switches its compiler between Typst and LaTeX: two of
/// them lead back.
pub proof fn law_tab_switches_the_compiler(
    p: ProjectState,
    key: KeyEvent,
    mid: ProjectState,
    post: ProjectState,
    first: Option<UiAction>,
    second: Option<UiAction>,
)
    requires
        key.code == KeyCode::Tab || key.code == KeyCode::BackTab,
        p.create_compiler@ == "typst"@ || p.create_compiler@ == "latex"@,
        name_key_step(p, AppMode::ProjectCreate, key, mid, first),
        name_key_step(mid, AppMode::ProjectCreate, key, post, second),
    ensures
        mid.create_compiler@ != p.create_compiler@,
        mid.create_compiler@ == "typst"@ || mid.create_compiler@ == "latex"@,
        post.create_compiler@ == p.create_compiler@,
        post.rename_input == p.rename_input,
{
    reveal_strlit("typst");
    reveal_strlit("latex");
    assert("typst"@[0] != "latex"@[0]);
}

/// The downloaded form of a remote paper is the first library paper with a file that is
/// there and the same reference or DOI.
pub proof fn law_downloaded_form_is_the_first(
    papers: Seq<LibraryPaper>,
    remote: RemotePaper,
    i: int,
)
    requires
        0 <= i <= papers.len(),
    ensures
        match download_of(papers, remote, i) {
            Some(p) => exists|k: int|
                i <= k < papers.len() && #[trigger] papers[k] == p && is_download_of(p, remote)
                    && forall|j: int| i <= j < k ==> !is_download_of(#[trigger] papers[j], remote),
            None => forall|j: int|
                i <= j < papers.len() ==> !is_download_of(#[trigger] papers[j], remote),
        },
    decreases papers.len() - i,
{
    if i < papers.len() {
        if is_download_of(papers[i], remote) {
            assert(papers[i] == download_of(papers, remote, i)->0);
        } else {
            law_downloaded_form_is_the_first(papers, remote, i + 1);
        }
    }
}

/// A library paper without a file, or whose file is gone, is no downloaded form; one with
/// its file is, exactly by the same reference or the same DOI.
pub proof fn law_downloads_are_known_by_reference_or_doi(local: LibraryPaper, remote: RemotePaper)
    ensures
        local.pdf_path is None || local.canonical_path is None ==> !is_download_of(local, remote),
        local.pdf_path is Some && local.canonical_path is Some ==> (is_download_of(local, remote)
            <==> (local.arxiv_id is Some && local.arxiv_id->0@ == remote.id@) || (local.doi is Some
            && remote.doi is Some && local.doi->0@ == remote.doi->0@)),
{
}

/// In the details of a paper `d` downloads it and `c` copies its citation, Enter opens the
/// file of its downloaded form, Down and Up scroll by one line, and Escape, Left, `h` and
/// `q` go back to the list.
pub proof fn law_detail_keys(
    pre: App,
    key: KeyEvent,
    post: App,
    action: Option<UiAction>,
    paper: RemotePaper,
)
    requires
        pre.mode == AppMode::PaperDetail,
        remote_selection(pre) == Some(paper),
        detail_key_step(pre, key, post, action),
    ensures
        ({
            let down = key.code == KeyCode::Down || key.code == KeyCode::Char('j');
            let up = key.code == KeyCode::Up || key.code == KeyCode::Char('k');
            let back = key.code == KeyCode::Esc || key.code == KeyCode::Left || key.code
                == KeyCode::Char('h') || key.code == KeyCode::Char('q');
            let local = download_of(pre.library.papers@, paper, 0);
            &&& key.code == KeyCode::Char('d') ==> post == pre && (action matches Some(
                UiAction::Download(p),
            ) && p@ == paper@)
            &&& key.code == KeyCode::Char('c') ==> post == pre && (action matches Some(
                UiAction::CopyCitation(PaperTarget::Remote(p)),
            ) && p@ == paper@)
            &&& key.code == KeyCode::Enter && local is Some && local->0.pdf_path is Some ==> action
                == Some(
                UiAction::OpenPdf { paper_id: local->0.id, path: local->0.pdf_path->0 },
            )
            &&& key.code == KeyCode::Enter && local is None ==> action is None
            &&& back ==> post == App { mode: AppMode::Normal, ..pre } && action is None
            &&& down && pre.paper_detail_scroll < usize::MAX ==> post.paper_detail_scroll
                == pre.paper_detail_scroll + 1
            &&& up && pre.paper_detail_scroll > 0 ==> post.paper_detail_scroll
                == pre.paper_detail_scroll - 1
            &&& down || up ==> post == App {
                paper_detail_scroll: post.paper_detail_scroll,
                ..pre
            } && action is None
        }),
{
}

} // verus!
