//! The pages that list papers: what is selected there, and what its keys ask
//! for.

use vstd::prelude::*;
use crate::actions::UiAction;
use crate::arxiv::{arxiv_page_url, page_url};
use crate::chars::{contains_text, is_blank, lowercase, trimmed};
use crate::discovery::selected_result;
use crate::filters::{
    author_matches, bookmark_matches, collection_items, collection_matches, download_matches,
    filter_papers, law_blank_query_shows_all, law_papers_are_found_by_title_and_authors, query_of,
    visible_authors, visible_bookmarks, visible_downloads, visible_papers, CollectionSearchItem,
};
use crate::keys::{KeyCode, KeyEvent};
use crate::model::{
    clone_text, opt_text, BookmarkSummary, CollectionSummary, DownloadStatus, DownloadTask,
    LibraryPaper, PaperTarget, RemotePaper,
};
use crate::navigation::{credits_items, credits_url, CREDITS_COUNT};
use crate::select::lemma_full_mask;
use crate::state::{App, AppMode, AuthorsState, CollectionsState, Page};
use crate::text::same_text;

verus! {

/// Whether a key opens what is selected.
pub open spec fn opens(code: KeyCode) -> bool {
    code == KeyCode::Enter || code == KeyCode::Right || code == KeyCode::Char('l')
}

pub fn is_open_key(code: KeyCode) -> (r: bool)
    ensures
        r == opens(code),
{
    match code {
        KeyCode::Enter | KeyCode::Right => true,
        KeyCode::Char(c) => c == 'l',
        _ => false,
    }
}

/// What a key asks for of a paper of the library: `B` bookmarks it, `c` copies
/// its citation, `n` opens its note, `g` asks for its group, `R` renames its
/// file and `x` asks whether to delete it.
pub open spec fn paper_menu(id: i64, title: String, path: Option<String>, code: KeyCode) -> Option<
    UiAction,
> {
    match code {
        KeyCode::Char(c) => if c == 'B' {
            Some(UiAction::Bookmark(PaperTarget::Local(id)))
        } else if c == 'c' {
            Some(UiAction::CopyCitation(PaperTarget::Local(id)))
        } else if c == 'n' {
            Some(UiAction::OpenNote(PaperTarget::Local(id)))
        } else if c == 'g' {
            Some(UiAction::Prompt(PaperTarget::Local(id)))
        } else if c == 'R' {
            Some(UiAction::RenamePdf(id))
        } else if c == 'x' {
            Some(UiAction::ConfirmDeletePaper { paper_id: id, title, path })
        } else {
            None
        },
        _ => None,
    }
}

fn menu_action(id: i64, title: &String, path: &Option<String>, code: KeyCode) -> (r: Option<
    UiAction,
>)
    ensures
        r == paper_menu(id, *title, *path, code),
{
    match code {
        KeyCode::Char(c) => if c == 'B' {
            Some(UiAction::Bookmark(PaperTarget::Local(id)))
        } else if c == 'c' {
            Some(UiAction::CopyCitation(PaperTarget::Local(id)))
        } else if c == 'n' {
            Some(UiAction::OpenNote(PaperTarget::Local(id)))
        } else if c == 'g' {
            Some(UiAction::Prompt(PaperTarget::Local(id)))
        } else if c == 'R' {
            Some(UiAction::RenamePdf(id))
        } else if c == 'x' {
            Some(
                UiAction::ConfirmDeletePaper {
                    paper_id: id,
                    title: title.clone(),
                    path: clone_text(path),
                },
            )
        } else {
            None
        },
        _ => None,
    }
}

/// The file of a paper is to be shown, if it has one.
pub open spec fn open_pdf_of(paper: LibraryPaper) -> Option<UiAction> {
    match paper.pdf_path {
        Some(path) => Some(UiAction::OpenPdf { paper_id: paper.id, path }),
        None => None,
    }
}

fn open_pdf_action(paper: &LibraryPaper) -> (r: Option<UiAction>)
    ensures
        r == open_pdf_of(*paper),
{
    match &paper.pdf_path {
        Some(path) => Some(UiAction::OpenPdf { paper_id: paper.id, path: path.clone() }),
        None => None,
    }
}

/// What a key asks for of a listed paper: to open it, or one of its menu.
pub open spec fn listed_paper_action(paper: LibraryPaper, code: KeyCode) -> Option<UiAction> {
    if opens(code) {
        open_pdf_of(paper)
    } else {
        paper_menu(paper.id, paper.title, paper.pdf_path, code)
    }
}

fn listed_action(paper: &LibraryPaper, code: KeyCode) -> (r: Option<UiAction>)
    ensures
        r == listed_paper_action(*paper, code),
{
    if is_open_key(code) {
        open_pdf_action(paper)
    } else {
        menu_action(paper.id, &paper.title, &paper.pdf_path, code)
    }
}

/// The paper that is selected in a filtered list.
pub open spec fn selected_of(query: Seq<char>, papers: Seq<LibraryPaper>, selected: usize) -> Option<
    LibraryPaper,
> {
    let shown = visible_papers(query, papers);
    if selected < shown.len() {
        Some(papers[shown[selected as int] as int])
    } else {
        None
    }
}

fn find_selected<'a>(query: &str, papers: &'a Vec<LibraryPaper>, selected: usize) -> (r: Option<
    &'a LibraryPaper,
>)
    ensures
        r is Some == selected_of(query@, papers@, selected) is Some,
        r matches Some(paper) ==> *paper == selected_of(query@, papers@, selected)->0,
{
    let shown = filter_papers(query, papers);
    if selected < shown.len() {
        Some(&papers[shown[selected]])
    } else {
        None
    }
}

/// The selected paper of the library.
pub open spec fn library_selection(app: App) -> Option<LibraryPaper> {
    selected_of(query_of(app), app.library.papers@, app.library.selected)
}

/// The selected paper of the notes page.
pub open spec fn notes_selection(app: App) -> Option<LibraryPaper> {
    selected_of(query_of(app), app.notes.papers@, app.notes.selected)
}

/// The selected paper of the reading queue.
pub open spec fn queue_selection(app: App) -> Option<LibraryPaper> {
    selected_of(query_of(app), app.reading_queue.papers@, app.reading_queue.selected)
}

/// The selected paper of the open collection.
pub open spec fn collection_selection(app: App) -> Option<LibraryPaper> {
    selected_of(query_of(app), app.collections.papers@, app.collections.paper_selected)
}

/// The selected paper of the open author.
pub open spec fn author_selection(app: App) -> Option<LibraryPaper> {
    selected_of(query_of(app), app.authors.papers@, app.authors.paper_selected)
}

/// The selected download.
pub open spec fn download_selection(app: App) -> Option<DownloadTask> {
    let shown = visible_downloads(query_of(app), app.downloads.items@);
    if app.downloads.selected < shown.len() {
        Some(app.downloads.items@[shown[app.downloads.selected as int] as int])
    } else {
        None
    }
}

/// The selected bookmark.
pub open spec fn bookmark_selection(app: App) -> Option<BookmarkSummary> {
    let shown = visible_bookmarks(query_of(app), app.bookmarks.items@);
    if app.bookmarks.selected < shown.len() {
        Some(app.bookmarks.items@[shown[app.bookmarks.selected as int] as int])
    } else {
        None
    }
}

/// The selected entry of the collections page while no collection is open.
pub open spec fn collection_entry(app: App) -> Option<CollectionSearchItem> {
    if app.collections.selected < collection_items(app).len() {
        Some(collection_items(app)[app.collections.selected as int])
    } else {
        None
    }
}

fn selected_download<'a>(app: &'a App) -> (r: Option<&'a DownloadTask>)
    ensures
        r is Some == download_selection(*app) is Some,
        r matches Some(task) ==> *task == download_selection(*app)->0,
{
    let shown = app.filtered_downloads();
    if app.downloads.selected < shown.len() {
        Some(&app.downloads.items[shown[app.downloads.selected]])
    } else {
        None
    }
}

/// The first paper from index `i` on that has the id.
pub open spec fn paper_with_id(papers: Seq<LibraryPaper>, id: i64, i: int) -> Option<LibraryPaper>
    decreases papers.len() - i,
{
    if i < 0 || i >= papers.len() {
        None
    } else if papers[i].id == id {
        Some(papers[i])
    } else {
        paper_with_id(papers, id, i + 1)
    }
}

/// The arXiv reference of the library paper with an id.
pub open spec fn reference_of(papers: Seq<LibraryPaper>, id: i64) -> Option<String> {
    match paper_with_id(papers, id, 0) {
        Some(paper) => paper.arxiv_id,
        None => None,
    }
}

fn find_reference(papers: &Vec<LibraryPaper>, id: i64) -> (r: Option<String>)
    ensures
        r == reference_of(papers@, id),
{
    let mut i: usize = 0;
    while i < papers.len()
        invariant
            i <= papers@.len(),
            paper_with_id(papers@, id, 0) == paper_with_id(papers@, id, i as int),
        decreases papers.len() - i,
    {
        if papers[i].id == id {
            return clone_text(&papers[i].arxiv_id);
        }
        i = i + 1;
    }
    None
}

/// Whether a paper's file is the one at `path`: by its text, or by what both
/// lead to once links are resolved.
pub open spec fn same_file(paper: LibraryPaper, path: String, canonical: Option<String>) -> bool {
    &&& paper.pdf_path is Some
    &&& paper.pdf_path->0@ == path@ || match (paper.canonical_path, canonical) {
        (Some(a), Some(b)) => a@ == b@,
        _ => false,
    }
}

fn is_same_file(paper: &LibraryPaper, path: &String, canonical: &Option<String>) -> (r: bool)
    ensures
        r == same_file(*paper, *path, *canonical),
{
    match &paper.pdf_path {
        None => false,
        Some(p) => {
            if same_text(p.as_str(), path.as_str()) {
                return true;
            }
            match (&paper.canonical_path, canonical) {
                (Some(a), Some(b)) => same_text(a.as_str(), b.as_str()),
                _ => false,
            }
        },
    }
}

/// The first paper from index `i` on whose file is the one at `path`.
pub open spec fn id_of_file(
    papers: Seq<LibraryPaper>,
    path: String,
    canonical: Option<String>,
    i: int,
) -> Option<i64>
    decreases papers.len() - i,
{
    if i < 0 || i >= papers.len() {
        None
    } else if same_file(papers[i], path, canonical) {
        Some(papers[i].id)
    } else {
        id_of_file(papers, path, canonical, i + 1)
    }
}

/// The paper that a download belongs to: the one it was made for, or the one
/// of the library that has its file.
pub open spec fn paper_of_download(papers: Seq<LibraryPaper>, task: DownloadTask) -> Option<i64> {
    match task.paper_id {
        Some(id) => Some(id),
        None => match task.pdf_path {
            Some(path) => id_of_file(papers, path, task.canonical_path, 0),
            None => None,
        },
    }
}

fn download_paper_id(papers: &Vec<LibraryPaper>, task: &DownloadTask) -> (r: Option<i64>)
    ensures
        r == paper_of_download(papers@, *task),
{
    if let Some(id) = task.paper_id {
        return Some(id);
    }
    match &task.pdf_path {
        None => None,
        Some(path) => {
            let mut i: usize = 0;
            while i < papers.len()
                invariant
                    i <= papers@.len(),
                    task.paper_id is None,
                    task.pdf_path == Some(*path),
                    id_of_file(papers@, *path, task.canonical_path, 0) == id_of_file(
                        papers@,
                        *path,
                        task.canonical_path,
                        i as int,
                    ),
                decreases papers.len() - i,
            {
                if is_same_file(&papers[i], path, &task.canonical_path) {
                    return Some(papers[i].id);
                }
                i = i + 1;
            }
            None
        },
    }
}

/// The library paper that is selected on the shown page.
pub open spec fn local_selection(app: App) -> Option<i64> {
    match app.page {
        Page::Library => id_of(library_selection(app)),
        Page::Downloads => match download_selection(app) {
            Some(task) => paper_of_download(app.library.papers@, task),
            None => None,
        },
        Page::Collections => if app.collections.active is Some {
            id_of(collection_selection(app))
        } else {
            match collection_entry(app) {
                Some(CollectionSearchItem::Paper(i)) => Some(
                    app.collections.members@[i as int].1.id,
                ),
                _ => None,
            }
        },
        Page::Authors => if app.authors.active is Some {
            id_of(author_selection(app))
        } else {
            None
        },
        Page::Bookmarks => match bookmark_selection(app) {
            Some(bookmark) => Some(bookmark.paper_id),
            None => None,
        },
        Page::Notes => id_of(notes_selection(app)),
        Page::ReadingQueue => id_of(queue_selection(app)),
        _ => None,
    }
}

/// The id of an optional paper.
pub open spec fn id_of(paper: Option<LibraryPaper>) -> Option<i64> {
    match paper {
        Some(paper) => Some(paper.id),
        None => None,
    }
}

fn found_id(paper: Option<&LibraryPaper>) -> (r: Option<i64>)
    ensures
        r == match paper {
            Some(p) => Some(p.id),
            None => None,
        },
{
    match paper {
        Some(p) => Some(p.id),
        None => None,
    }
}

/// The library paper that is selected on the shown page.
pub fn selected_local_paper_id(app: &App) -> (r: Option<i64>)
    ensures
        r == local_selection(*app),
{
    let query = app.workspace_search.query.as_str();
    match app.page {
        Page::Library => found_id(find_selected(query, &app.library.papers, app.library.selected)),
        Page::Downloads => match selected_download(app) {
            Some(task) => download_paper_id(&app.library.papers, task),
            None => None,
        },
        Page::Collections => {
            if app.collections.active.is_some() {
                found_id(
                    find_selected(query, &app.collections.papers, app.collections.paper_selected),
                )
            } else {
                let items = app.filtered_collections();
                if app.collections.selected < items.len() {
                    match items[app.collections.selected] {
                        CollectionSearchItem::Paper(i) => Some(app.collections.members[i].1.id),
                        CollectionSearchItem::Collection(_) => None,
                    }
                } else {
                    None
                }
            }
        },
        Page::Authors => {
            if app.authors.active.is_some() {
                found_id(find_selected(query, &app.authors.papers, app.authors.paper_selected))
            } else {
                None
            }
        },
        Page::Bookmarks => {
            let shown = app.filtered_bookmarks();
            if app.bookmarks.selected < shown.len() {
                Some(app.bookmarks.items[shown[app.bookmarks.selected]].paper_id)
            } else {
                None
            }
        },
        Page::Notes => found_id(find_selected(query, &app.notes.papers, app.notes.selected)),
        Page::ReadingQueue => found_id(
            find_selected(query, &app.reading_queue.papers, app.reading_queue.selected),
        ),
        _ => None,
    }
}

/// The remote paper that is selected on the shown page.
pub open spec fn remote_selection(app: App) -> Option<RemotePaper> {
    if app.page == Page::Dashboard {
        if app.today.selected < app.today.papers@.len() {
            Some(app.today.papers@[app.today.selected as int])
        } else {
            None
        }
    } else {
        match selected_result(app.discovery) {
            Some(i) => Some(app.discovery.results@[i]),
            None => None,
        }
    }
}

/// The remote paper that is selected on the shown page.
pub fn selected_remote_paper(app: &App) -> (r: Option<&RemotePaper>)
    ensures
        r is Some == remote_selection(*app) is Some,
        r matches Some(paper) ==> *paper == remote_selection(*app)->0,
{
    match app.page {
        Page::Dashboard => {
            if app.today.selected < app.today.papers.len() {
                Some(&app.today.papers[app.today.selected])
            } else {
                None
            }
        },
        _ => app.discovery.selected_paper(),
    }
}

/// Whether a target is the remote paper `paper`.
pub open spec fn targets_remote(target: PaperTarget, paper: RemotePaper) -> bool {
    target matches PaperTarget::Remote(p) && p@ == paper@
}

/// The remote paper that is selected on the shown page, as a target.
pub fn selected_remote_target(app: &App) -> (r: Option<PaperTarget>)
    ensures
        r is Some == remote_selection(*app) is Some,
        r matches Some(target) ==> targets_remote(target, remote_selection(*app)->0),
{
    match selected_remote_paper(app) {
        Some(paper) => Some(PaperTarget::Remote(paper.clone())),
        None => None,
    }
}

/// The file of the selected paper of the library, with the paper's id.
pub fn selected_library_pdf(app: &App) -> (r: Option<(i64, String)>)
    ensures
        r == match library_selection(*app) {
            Some(paper) => match paper.pdf_path {
                Some(path) => Some((paper.id, path)),
                None => None,
            },
            None => None,
        },
{
    match find_selected(
        app.workspace_search.query.as_str(),
        &app.library.papers,
        app.library.selected,
    ) {
        Some(paper) => match &paper.pdf_path {
            Some(path) => Some((paper.id, path.clone())),
            None => None,
        },
        None => None,
    }
}

/// Whether a paper is selected, and its arXiv reference where it has one.
#[derive(Debug)]
pub enum PaperArxivSelection {
    NoPaper,
    Selected(Option<String>),
}

/// The arXiv reference of the paper that is selected on the shown page.
pub open spec fn arxiv_selection(app: App) -> PaperArxivSelection {
    match app.page {
        Page::Dashboard | Page::Discover => match remote_selection(app) {
            Some(paper) => PaperArxivSelection::Selected(Some(paper.id)),
            None => PaperArxivSelection::NoPaper,
        },
        Page::Downloads => match download_selection(app) {
            Some(task) => PaperArxivSelection::Selected(
                match task.remote_paper {
                    Some(paper) => Some(paper.id),
                    None => match local_selection(app) {
                        Some(id) => reference_of(app.library.papers@, id),
                        None => None,
                    },
                },
            ),
            None => PaperArxivSelection::NoPaper,
        },
        Page::Library | Page::ReadingQueue | Page::Collections | Page::Bookmarks | Page::Authors
        | Page::Notes => match local_selection(app) {
            Some(id) => PaperArxivSelection::Selected(reference_of(app.library.papers@, id)),
            None => PaperArxivSelection::NoPaper,
        },
        _ => PaperArxivSelection::NoPaper,
    }
}

/// The arXiv reference of the paper that is selected on the shown page.
pub fn selected_paper_arxiv_reference(app: &App) -> (r: PaperArxivSelection)
    ensures
        r == arxiv_selection(*app),
{
    match app.page {
        Page::Dashboard | Page::Discover => match selected_remote_paper(app) {
            Some(paper) => PaperArxivSelection::Selected(Some(paper.id.clone())),
            None => PaperArxivSelection::NoPaper,
        },
        Page::Downloads => match selected_download(app) {
            Some(task) => PaperArxivSelection::Selected(
                match &task.remote_paper {
                    Some(paper) => Some(paper.id.clone()),
                    None => match selected_local_paper_id(app) {
                        Some(id) => find_reference(&app.library.papers, id),
                        None => None,
                    },
                },
            ),
            None => PaperArxivSelection::NoPaper,
        },
        Page::Library | Page::ReadingQueue | Page::Collections | Page::Bookmarks | Page::Authors
        | Page::Notes => match selected_local_paper_id(app) {
            Some(id) => PaperArxivSelection::Selected(find_reference(&app.library.papers, id)),
            None => PaperArxivSelection::NoPaper,
        },
        _ => PaperArxivSelection::NoPaper,
    }
}

/// Only the toast changed, to `text`.
pub open spec fn toasted(pre: App, text: Seq<char>, post: App) -> bool {
    post == App { toast: post.toast, ..pre } && opt_text(post.toast) == Some(text)
}

/// The page of an arXiv reference is to be opened in the browser; a toast says
/// when there is none.
pub open spec fn arxiv_page_step(
    pre: App,
    reference: Option<Seq<char>>,
    post: App,
    action: Option<UiAction>,
) -> bool {
    let url = match reference {
        Some(text) => page_url(text),
        None => None,
    };
    match url {
        Some(url) => post == pre && (action matches Some(UiAction::OpenBrowser(u)) && u@ == url),
        None => toasted(pre, "No valid arXiv page is available for this paper"@, post) && action
            is None,
    }
}

/// Asks for the page of an arXiv reference to be opened in the browser.
pub fn open_arxiv_page(app: &mut App, reference: Option<String>) -> (action: Option<UiAction>)
    ensures
        arxiv_page_step(*old(app), opt_text(reference), *final(app), action),
        old(app).wf() ==> final(app).wf(),
{
    let url = match reference {
        Some(text) => arxiv_page_url(text.as_str()),
        None => None,
    };
    match url {
        Some(url) => Some(UiAction::OpenBrowser(url)),
        None => {
            app.toast = Some("No valid arXiv page is available for this paper".to_owned());
            None
        },
    }
}

/// Whether the paper is in the reading queue.
pub open spec fn is_queued(app: App, id: i64) -> bool {
    exists|i: int|
        0 <= i < app.reading_queue.papers@.len() && (#[trigger] app.reading_queue.papers@[i]).id
            == id
}

fn queued(app: &App, id: i64) -> (r: bool)
    ensures
        r == is_queued(*app, id),
{
    let mut i: usize = 0;
    while i < app.reading_queue.papers.len()
        invariant
            i <= app.reading_queue.papers@.len(),
            forall|k: int| 0 <= k < i ==> (#[trigger] app.reading_queue.papers@[k]).id != id,
        decreases app.reading_queue.papers.len() - i,
    {
        if app.reading_queue.papers[i].id == id {
            return true;
        }
        i = i + 1;
    }
    false
}

/// Whether a key is a shortcut on the selected paper of any page.
pub open spec fn shortcut_takes(app: App, code: KeyCode) -> bool {
    if code == KeyCode::Char('o') && arxiv_selection(app) is Selected {
        true
    } else if app.page == Page::Dashboard || app.page == Page::Discover {
        code == KeyCode::Char('c') || code == KeyCode::Char('d')
    } else {
        local_selection(app) is Some && (code == KeyCode::Char('u') || code == KeyCode::Char('a'))
    }
}

/// What a shortcut on the selected paper does: `o` opens its page; a remote
/// paper is cited with `c` and downloaded with `d`; a local one is marked
/// unread with `u` and put on or taken off the reading queue with `a`.
pub open spec fn shortcut_step(
    pre: App,
    code: KeyCode,
    post: App,
    action: Option<UiAction>,
) -> bool {
    if code == KeyCode::Char('o') {
        arxiv_page_step(pre, opt_text(arxiv_selection(pre)->Selected_0), post, action)
    } else if pre.page == Page::Dashboard || pre.page == Page::Discover {
        &&& post == pre
        &&& match remote_selection(pre) {
            None => action is None,
            Some(paper) => if code == KeyCode::Char('c') {
                action matches Some(UiAction::CopyCitation(t)) && targets_remote(t, paper)
            } else {
                action matches Some(UiAction::Download(p)) && p@ == paper@
            },
        }
    } else {
        let id = local_selection(pre)->0;
        &&& post == pre
        &&& action == Some(
            if code == KeyCode::Char('u') {
                UiAction::MarkUnread(id)
            } else if is_queued(pre, id) {
                UiAction::RemoveFromQueue(id)
            } else {
                UiAction::AddToQueue(id)
            },
        )
    }
}

/// Handles a shortcut on the selected paper.
pub fn handle_selected_paper_shortcut(app: &mut App, key: KeyEvent) -> (r: (
    bool,
    Option<UiAction>,
))
    ensures
        r.0 == shortcut_takes(*old(app), key.code),
        r.0 ==> shortcut_step(*old(app), key.code, *final(app), r.1),
        !r.0 ==> *final(app) == *old(app) && r.1 is None,
        old(app).wf() ==> final(app).wf(),
{
    let c = match key.code {
        KeyCode::Char(c) => c,
        _ => return (false, None),
    };
    if c == 'o' {
        if let PaperArxivSelection::Selected(reference) = selected_paper_arxiv_reference(app) {
            return (true, open_arxiv_page(app, reference));
        }
    }
    if app.page == Page::Dashboard || app.page == Page::Discover {
        if c == 'c' {
            return match selected_remote_target(app) {
                Some(target) => (true, Some(UiAction::CopyCitation(target))),
                None => (true, None),
            };
        }
        if c == 'd' {
            return match selected_remote_paper(app) {
                Some(paper) => (true, Some(UiAction::Download(paper.clone()))),
                None => (true, None),
            };
        }
        return (false, None);
    }
    if c != 'u' && c != 'a' {
        return (false, None);
    }
    match selected_local_paper_id(app) {
        None => (false, None),
        Some(id) => {
            if c == 'u' {
                (true, Some(UiAction::MarkUnread(id)))
            } else if queued(app, id) {
                (true, Some(UiAction::RemoveFromQueue(id)))
            } else {
                (true, Some(UiAction::AddToQueue(id)))
            }
        },
    }
}

/// What a key asks for on the bookmarks page.
pub open spec fn bookmark_key_action(app: App, code: KeyCode) -> Option<UiAction> {
    if app.page != Page::Bookmarks {
        None
    } else {
        match bookmark_selection(app) {
            None => None,
            Some(bookmark) => if opens(code) {
                Some(UiAction::OpenPdf { paper_id: bookmark.paper_id, path: bookmark.pdf_path })
            } else {
                paper_menu(
                    bookmark.paper_id,
                    bookmark.paper_title,
                    Some(bookmark.pdf_path),
                    code,
                )
            },
        }
    }
}

/// What a key asks for on the bookmarks page.
pub fn bookmark_action(app: &App, key: KeyEvent) -> (r: Option<UiAction>)
    ensures
        r == bookmark_key_action(*app, key.code),
{
    if app.page != Page::Bookmarks {
        return None;
    }
    let shown = app.filtered_bookmarks();
    if app.bookmarks.selected >= shown.len() {
        return None;
    }
    let bookmark = &app.bookmarks.items[shown[app.bookmarks.selected]];
    if is_open_key(key.code) {
        Some(
            UiAction::OpenPdf { paper_id: bookmark.paper_id, path: bookmark.pdf_path.clone() },
        )
    } else {
        let path = Some(bookmark.pdf_path.clone());
        menu_action(bookmark.paper_id, &bookmark.paper_title, &path, key.code)
    }
}

/// What a key asks for on the notes page.
pub open spec fn notes_key_action(app: App, code: KeyCode) -> Option<UiAction> {
    if app.page != Page::Notes {
        None
    } else {
        match notes_selection(app) {
            None => None,
            Some(paper) => listed_paper_action(paper, code),
        }
    }
}

/// What a key asks for on the notes page.
pub fn handle_notes_key(app: &App, key: KeyEvent) -> (r: Option<UiAction>)
    ensures
        r == notes_key_action(*app, key.code),
{
    if app.page != Page::Notes {
        return None;
    }
    match find_selected(
        app.workspace_search.query.as_str(),
        &app.notes.papers,
        app.notes.selected,
    ) {
        None => None,
        Some(paper) => listed_action(paper, key.code),
    }
}

/// What a key asks for in the reading queue: with Shift or Control the
/// vertical arrows move the selected paper.
pub open spec fn queue_key_action(app: App, key: KeyEvent) -> Option<UiAction> {
    if app.page != Page::ReadingQueue {
        None
    } else {
        match queue_selection(app) {
            None => None,
            Some(paper) => {
                let moving = key.modifiers.shift || key.modifiers.control;
                if moving && key.code == KeyCode::Up {
                    Some(UiAction::MoveQueueItemUp(paper.id))
                } else if moving && key.code == KeyCode::Down {
                    Some(UiAction::MoveQueueItemDown(paper.id))
                } else {
                    listed_paper_action(paper, key.code)
                }
            },
        }
    }
}

/// What a key asks for in the reading queue.
pub fn handle_reading_queue_key(app: &App, key: KeyEvent) -> (r: Option<UiAction>)
    ensures
        r == queue_key_action(*app, key),
{
    if app.page != Page::ReadingQueue {
        return None;
    }
    match find_selected(
        app.workspace_search.query.as_str(),
        &app.reading_queue.papers,
        app.reading_queue.selected,
    ) {
        None => None,
        Some(paper) => {
            let moving = key.modifiers.shift || key.modifiers.control;
            if moving && key.code == KeyCode::Up {
                Some(UiAction::MoveQueueItemUp(paper.id))
            } else if moving && key.code == KeyCode::Down {
                Some(UiAction::MoveQueueItemDown(paper.id))
            } else {
                listed_action(paper, key.code)
            }
        },
    }
}

/// What a key asks for on the Credits page: Enter opens the selected address.
pub open spec fn credits_key_action(app: App, code: KeyCode) -> Option<Seq<char>> {
    if app.page == Page::Credits && code == KeyCode::Enter && app.credits_selected
        < CREDITS_COUNT {
        Some(credits_url(app.credits_selected as int))
    } else {
        None
    }
}

/// What a key asks for on the Credits page.
pub fn handle_credits_key(app: &App, key: KeyEvent) -> (r: Option<UiAction>)
    ensures
        r is Some == credits_key_action(*app, key.code) is Some,
        r matches Some(action) ==> (action matches UiAction::OpenBrowser(url) && Some(url@)
            == credits_key_action(*app, key.code)),
{
    if app.page != Page::Credits || key.code != KeyCode::Enter {
        return None;
    }
    let items = credits_items();
    if app.credits_selected < items.len() {
        Some(UiAction::OpenBrowser(items[app.credits_selected].url.clone()))
    } else {
        None
    }
}

/// Whether a key is one of the menu of a paper.
pub open spec fn menu_key(code: KeyCode) -> bool {
    match code {
        KeyCode::Char(c) => c == 'B' || c == 'c' || c == 'n' || c == 'g' || c == 'R' || c == 'x',
        _ => false,
    }
}

/// What a key asks for on the downloads page: `r` tries a failed download
/// again, a finished one is opened or offers the menu of its paper.
pub open spec fn downloads_key_action(app: App, code: KeyCode, action: Option<UiAction>) -> bool {
    match download_selection(app) {
        None => action is None,
        Some(task) => if app.page != Page::Downloads {
            action is None
        } else if code == KeyCode::Char('r') {
            if task.status is Failed && task.remote_paper is Some {
                action matches Some(UiAction::RetryDownload { id, paper }) && id == task.id
                    && paper@ == task.remote_paper->0@
            } else {
                action is None
            }
        } else if task.status !is Completed {
            action is None
        } else if opens(code) {
            action == Some(UiAction::OpenDownload(task.id))
        } else {
            match paper_of_download(app.library.papers@, task) {
                Some(id) => action == paper_menu(id, task.title, task.pdf_path, code),
                None => action is None,
            }
        },
    }
}

/// Whether the downloads page answers a key.
pub open spec fn download_takes(app: App, code: KeyCode) -> bool {
    &&& app.page == Page::Downloads
    &&& download_selection(app) matches Some(task) && if code == KeyCode::Char('r') {
        task.status is Failed && task.remote_paper is Some
    } else {
        task.status is Completed && (opens(code) || menu_key(code) && paper_of_download(
            app.library.papers@,
            task,
        ) is Some)
    }
}

/// Whether the downloads page answers a key with a menu of the paper.
pub open spec fn download_menu_shown(app: App, code: KeyCode) -> bool {
    &&& app.page == Page::Downloads
    &&& menu_key(code)
    &&& download_selection(app) matches Some(task) && task.status is Completed
        && paper_of_download(app.library.papers@, task) is Some
}

fn is_menu_key(code: KeyCode) -> (r: bool)
    ensures
        r == menu_key(code),
{
    match code {
        KeyCode::Char(c) => c == 'B' || c == 'c' || c == 'n' || c == 'g' || c == 'R' || c == 'x',
        _ => false,
    }
}

fn download_action(app: &App, code: KeyCode) -> (r: Option<UiAction>)
    requires
        app.page == Page::Downloads,
    ensures
        downloads_key_action(*app, code, r),
        r is Some == download_takes(*app, code),
        r is Some && menu_key(code) <==> download_menu_shown(*app, code),
{
    let task = match selected_download(app) {
        None => return None,
        Some(task) => task,
    };
    let completed = match task.status {
        DownloadStatus::Completed => true,
        _ => false,
    };
    if code == KeyCode::Char('r') {
        let failed = match task.status {
            DownloadStatus::Failed(_) => true,
            _ => false,
        };
        if failed {
            if let Some(paper) = &task.remote_paper {
                return Some(
                    UiAction::RetryDownload { id: task.id.clone(), paper: paper.clone() },
                );
            }
        }
        return None;
    }
    if !completed {
        return None;
    }
    if is_open_key(code) {
        return Some(UiAction::OpenDownload(task.id.clone()));
    }
    match download_paper_id(&app.library.papers, task) {
        Some(id) => menu_action(id, &task.title, &task.pdf_path, code),
        None => None,
    }
}

/// Handles a key of the downloads page; a menu comes back to the normal mode.
pub fn handle_downloads_key(app: &mut App, key: KeyEvent) -> (action: Option<UiAction>)
    ensures
        downloads_key_action(*old(app), key.code, action),
        action is Some == download_takes(*old(app), key.code),
        *final(app) == (App {
            modal_return: if download_menu_shown(*old(app), key.code) {
                AppMode::Normal
            } else {
                old(app).modal_return
            },
            ..*old(app)
        }),
        old(app).wf() ==> final(app).wf(),
{
    if app.page != Page::Downloads {
        return None;
    }
    let action = download_action(app, key.code);
    if action.is_some() && is_menu_key(key.code) {
        app.modal_return = AppMode::Normal;
    }
    action
}

/// What a key asks for on the library page.
pub open spec fn library_key_action(app: App, code: KeyCode) -> Option<UiAction> {
    if app.page != Page::Library {
        None
    } else {
        match library_selection(app) {
            Some(paper) => listed_paper_action(paper, code),
            None => None,
        }
    }
}

/// Whether a key goes through the metadata keys of the library, whose dialogs
/// come back to the normal mode.
pub open spec fn library_metadata_key(app: App, code: KeyCode) -> bool {
    app.page == Page::Library && library_selection(app) is Some && !opens(code) && code
        != KeyCode::Char('x')
}

/// Handles a key of the library page.
pub fn library_action(app: &mut App, key: KeyEvent) -> (action: Option<UiAction>)
    ensures
        action == library_key_action(*old(app), key.code),
        *final(app) == (App {
            modal_return: if library_metadata_key(*old(app), key.code) {
                AppMode::Normal
            } else {
                old(app).modal_return
            },
            ..*old(app)
        }),
        old(app).wf() ==> final(app).wf(),
{
    if app.page != Page::Library {
        return None;
    }
    let action = match find_selected(
        app.workspace_search.query.as_str(),
        &app.library.papers,
        app.library.selected,
    ) {
        None => return None,
        Some(paper) => listed_action(paper, key.code),
    };
    if !is_open_key(key.code) && key.code != KeyCode::Char('x') {
        app.modal_return = AppMode::Normal;
    }
    action
}

/// Whether the dashboard takes a key.
pub open spec fn dashboard_takes(app: App, code: KeyCode) -> bool {
    app.page == Page::Dashboard && opens(code)
}

/// Opens the selected paper of the dashboard.
pub fn handle_dashboard_key(app: &App, key: KeyEvent) -> (r: (bool, Option<UiAction>))
    ensures
        r.0 == dashboard_takes(*app, key.code),
        !r.0 ==> r.1 is None,
        r.0 ==> opens_remote(*app, r.1),
{
    if app.page != Page::Dashboard || !is_open_key(key.code) {
        return (false, None);
    }
    match selected_remote_paper(app) {
        Some(paper) => (true, Some(UiAction::OpenPaper(paper.clone()))),
        None => (true, None),
    }
}

/// The details of the selected remote paper are asked for, if one is selected.
pub open spec fn opens_remote(app: App, action: Option<UiAction>) -> bool {
    match remote_selection(app) {
        Some(paper) => action matches Some(UiAction::OpenPaper(p)) && p@ == paper@,
        None => action is None,
    }
}

/// The message about a paper without a file.
pub open spec fn no_pdf_message() -> Seq<char> {
    "This paper has no local PDF to open"@
}

/// What a key asks for of an entry of the collections page.
pub open spec fn collection_item_action(
    app: App,
    item: CollectionSearchItem,
    code: KeyCode,
) -> Option<UiAction> {
    match item {
        CollectionSearchItem::Collection(i) => {
            let c = app.collections.items@[i as int];
            if opens(code) {
                Some(UiAction::OpenCollection(c.id))
            } else if code == KeyCode::Char('R') {
                Some(UiAction::RenameCollection(c.id))
            } else if code == KeyCode::Char('x') {
                Some(
                    UiAction::ConfirmDeleteCollection {
                        collection_id: c.id,
                        name: c.name,
                        path: c.folder_path,
                    },
                )
            } else {
                None
            }
        },
        CollectionSearchItem::Paper(i) => listed_paper_action(
            app.collections.members@[i as int].1,
            code,
        ),
    }
}

fn collection_action(c: &CollectionSummary, code: KeyCode) -> (r: Option<UiAction>)
    ensures
        r == if opens(code) {
            Some(UiAction::OpenCollection(c.id))
        } else if code == KeyCode::Char('R') {
            Some(UiAction::RenameCollection(c.id))
        } else if code == KeyCode::Char('x') {
            Some(
                UiAction::ConfirmDeleteCollection {
                    collection_id: c.id,
                    name: c.name,
                    path: c.folder_path,
                },
            )
        } else {
            None
        },
{
    if is_open_key(code) {
        Some(UiAction::OpenCollection(c.id))
    } else if code == KeyCode::Char('R') {
        Some(UiAction::RenameCollection(c.id))
    } else if code == KeyCode::Char('x') {
        Some(
            UiAction::ConfirmDeleteCollection {
                collection_id: c.id,
                name: c.name.clone(),
                path: clone_text(&c.folder_path),
            },
        )
    } else {
        None
    }
}

/// What a key asks for of an entry of the collections page.
pub fn collection_search_item_action(app: &App, item: CollectionSearchItem, key: KeyEvent) -> (r:
    Option<UiAction>)
    requires
        crate::filters::item_in_range(*app, item),
    ensures
        r == collection_item_action(*app, item, key.code),
{
    match item {
        CollectionSearchItem::Collection(i) => collection_action(
            &app.collections.items[i],
            key.code,
        ),
        CollectionSearchItem::Paper(i) => listed_action(&app.collections.members[i].1, key.code),
    }
}

/// Whether the key opens an entry that is a paper without a file.
pub open spec fn opens_missing_file(app: App, code: KeyCode) -> bool {
    opens(code) && (collection_entry(app) matches Some(CollectionSearchItem::Paper(i))
        && app.collections.members@[i as int].1.pdf_path is None)
}

/// What a key does on the collections page while no collection is open: `r.0`
/// says whether the page takes it.
pub open spec fn collection_list_step(
    pre: App,
    code: KeyCode,
    post: App,
    r: (bool, Option<UiAction>),
) -> bool {
    let answer = match collection_entry(pre) {
        Some(item) => collection_item_action(pre, item, code),
        None => None,
    };
    if opens_missing_file(pre, code) {
        toasted(pre, no_pdf_message(), post) && r.0 && r.1 is None
    } else if answer is Some {
        post == pre && r.0 && r.1 == answer
    } else if code == KeyCode::Char('g') {
        post == pre && r.0 && r.1 == Some(UiAction::CreateCollection)
    } else {
        post == pre && !r.0 && r.1 is None
    }
}

/// Whether the collections page takes a key.
pub open spec fn collection_takes(app: App, code: KeyCode) -> bool {
    if app.collections.active is Some {
        open_list_takes(code)
    } else {
        ||| opens_missing_file(app, code)
        ||| collection_entry(app) matches Some(item) && collection_item_action(app, item, code)
            is Some
        ||| code == KeyCode::Char('g')
    }
}

/// Whether the authors page takes a key.
pub open spec fn author_takes(app: App, code: KeyCode) -> bool {
    if app.authors.active is Some {
        open_list_takes(code)
    } else {
        opens(code)
    }
}

/// Whether a list of papers that was opened from a list takes a key.
pub open spec fn open_list_takes(code: KeyCode) -> bool {
    code == KeyCode::Esc || code == KeyCode::Char('h') || opens(code) || menu_key(code)
}

/// What a key does in a list of papers that was opened from a list: it closes
/// the list, or asks for something of the selected paper.
pub open spec fn open_list_step(
    pre: App,
    closed: App,
    selection: Option<LibraryPaper>,
    code: KeyCode,
    post: App,
    r: (bool, Option<UiAction>),
) -> bool {
    if code == KeyCode::Esc || code == KeyCode::Char('h') {
        post == closed && r.0 && r.1 is None
    } else if !opens(code) && !menu_key(code) {
        post == pre && !r.0 && r.1 is None
    } else {
        &&& r.0
        &&& match selection {
            None => post == pre && r.1 is None,
            Some(paper) => if opens(code) && paper.pdf_path is None {
                toasted(pre, no_pdf_message(), post) && r.1 is None
            } else {
                post == pre && r.1 == listed_paper_action(paper, code)
            },
        }
    }
}

/// What a key does on the collections page.
pub open spec fn collection_key_step(
    pre: App,
    code: KeyCode,
    post: App,
    r: (bool, Option<UiAction>),
) -> bool {
    if pre.collections.active is Some {
        let closed = App {
            collections: CollectionsState {
                active: None,
                papers: post.collections.papers,
                ..pre.collections
            },
            ..pre
        };
        &&& open_list_step(pre, closed, collection_selection(pre), code, post, r)
        &&& post.collections.active is None ==> post.collections.papers@.len() == 0
    } else {
        collection_list_step(pre, code, post, r)
    }
}

fn handle_active_collection_key(app: &mut App, key: KeyEvent) -> (r: (bool, Option<UiAction>))
    requires
        old(app).collections.active is Some,
    ensures
        r.0 == collection_takes(*old(app), key.code),
        collection_key_step(*old(app), key.code, *final(app), r),
        old(app).wf() ==> final(app).wf(),
{
    if key.code == KeyCode::Esc || key.code == KeyCode::Char('h') {
        app.collections.active = None;
        app.collections.papers.clear();
        return (true, None);
    }
    if !is_open_key(key.code) && !is_menu_key(key.code) {
        return (false, None);
    }
    let missing = match find_selected(
        app.workspace_search.query.as_str(),
        &app.collections.papers,
        app.collections.paper_selected,
    ) {
        None => return (true, None),
        Some(paper) => {
            if is_open_key(key.code) && paper.pdf_path.is_none() {
                true
            } else {
                return (true, listed_action(paper, key.code));
            }
        },
    };
    if missing {
        app.toast = Some("This paper has no local PDF to open".to_owned());
    }
    (true, None)
}

/// Handles a key of the collections page; `r.0` says whether the page took it.
pub fn handle_collection_key(app: &mut App, key: KeyEvent) -> (r: (bool, Option<UiAction>))
    ensures
        r.0 == collection_takes(*old(app), key.code),
        collection_key_step(*old(app), key.code, *final(app), r),
        old(app).wf() ==> final(app).wf(),
{
    if app.collections.active.is_some() {
        return handle_active_collection_key(app, key);
    }
    let items = app.filtered_collections();
    if app.collections.selected < items.len() {
        let item = items[app.collections.selected];
        let missing = match item {
            CollectionSearchItem::Paper(i) => is_open_key(key.code)
                && app.collections.members[i].1.pdf_path.is_none(),
            CollectionSearchItem::Collection(_) => false,
        };
        if missing {
            app.toast = Some("This paper has no local PDF to open".to_owned());
            return (true, None);
        }
        let answer = collection_search_item_action(app, item, key);
        if answer.is_some() {
            return (true, answer);
        }
    }
    if key.code == KeyCode::Char('g') {
        return (true, Some(UiAction::CreateCollection));
    }
    (false, None)
}

/// The id of the selected author.
pub open spec fn selected_author(app: App) -> Option<i64> {
    let shown = visible_authors(query_of(app), app.authors.items@);
    if app.authors.selected < shown.len() {
        Some(app.authors.items@[shown[app.authors.selected as int] as int].id)
    } else {
        None
    }
}

/// What a key does on the authors page.
pub open spec fn author_key_step(
    pre: App,
    code: KeyCode,
    post: App,
    r: (bool, Option<UiAction>),
) -> bool {
    if pre.authors.active is Some {
        let closed = App {
            authors: AuthorsState {
                active: None,
                papers: post.authors.papers,
                ..pre.authors
            },
            ..pre
        };
        &&& open_list_step(pre, closed, author_selection(pre), code, post, r)
        &&& post.authors.active is None ==> post.authors.papers@.len() == 0
    } else if opens(code) {
        &&& post == pre
        &&& r.0
        &&& r.1 == match selected_author(pre) {
            Some(id) => Some(UiAction::OpenAuthor(id)),
            None => None,
        }
    } else {
        post == pre && !r.0 && r.1 is None
    }
}

/// Handles a key of the authors page; `r.0` says whether the page took it.
pub fn handle_author_key(app: &mut App, key: KeyEvent) -> (r: (bool, Option<UiAction>))
    ensures
        r.0 == author_takes(*old(app), key.code),
        author_key_step(*old(app), key.code, *final(app), r),
        old(app).wf() ==> final(app).wf(),
{
    if app.authors.active.is_none() {
        if !is_open_key(key.code) {
            return (false, None);
        }
        let shown = app.filtered_authors();
        if app.authors.selected < shown.len() {
            let id: i64 = app.authors.items[shown[app.authors.selected]].id;
            return (true, Some(UiAction::OpenAuthor(id)));
        }
        return (true, None);
    }
    if key.code == KeyCode::Esc || key.code == KeyCode::Char('h') {
        app.authors.active = None;
        app.authors.papers.clear();
        return (true, None);
    }
    if !is_open_key(key.code) && !is_menu_key(key.code) {
        return (false, None);
    }
    let missing = match find_selected(
        app.workspace_search.query.as_str(),
        &app.authors.papers,
        app.authors.paper_selected,
    ) {
        None => return (true, None),
        Some(paper) => {
            if is_open_key(key.code) && paper.pdf_path.is_none() {
                true
            } else {
                return (true, listed_action(paper, key.code));
            }
        },
    };
    if missing {
        app.toast = Some("This paper has no local PDF to open".to_owned());
    }
    (true, None)
}

/// A key of a paper list never changes what the lists hold, except that an open
/// list closes.
pub proof fn law_paper_keys_keep_the_library(
    pre: App,
    code: KeyCode,
    post: App,
    r: (bool, Option<UiAction>),
)
    requires
        collection_key_step(pre, code, post, r) || author_key_step(pre, code, post, r),
    ensures
        post.library == pre.library,
        post.collections.items == pre.collections.items,
        post.collections.selected == pre.collections.selected,
        post.collections.paper_selected == pre.collections.paper_selected,
        post.authors.items == pre.authors.items,
        post.authors.selected == pre.authors.selected,
        post.authors.paper_selected == pre.authors.paper_selected,
        post.content_focused == pre.content_focused,
        post.page == pre.page,
{
}

/// The paper that is selected on the shown page has the id, the title and the file
/// given.
pub open spec fn paper_selected(app: App, id: i64, title: String, path: Option<String>) -> bool {
    match app.page {
        Page::Library => library_selection(app) matches Some(p) && p.id == id && p.title == title
            && p.pdf_path == path,
        Page::Notes => notes_selection(app) matches Some(p) && p.id == id && p.title == title
            && p.pdf_path == path,
        Page::ReadingQueue => queue_selection(app) matches Some(p) && p.id == id && p.title == title
            && p.pdf_path == path,
        Page::Bookmarks => bookmark_selection(app) matches Some(b) && b.paper_id == id
            && b.paper_title == title && Some(b.pdf_path) == path,
        Page::Downloads => download_selection(app) matches Some(task) && task.status is Completed
            && paper_of_download(app.library.papers@, task) == Some(id) && task.title == title
            && task.pdf_path == path,
        Page::Collections => if app.collections.active is Some {
            collection_selection(app) matches Some(p) && p.id == id && p.title == title
                && p.pdf_path == path
        } else {
            collection_entry(app) matches Some(CollectionSearchItem::Paper(i)) && {
                let p = app.collections.members@[i as int].1;
                p.id == id && p.title == title && p.pdf_path == path
            }
        },
        Page::Authors => app.authors.active is Some && (author_selection(app) matches Some(p)
            && p.id == id && p.title == title && p.pdf_path == path),
        _ => false,
    }
}

/// A key of a page of papers is answered by `action`, and the paper that is selected
/// there has the id, the title and the file given.
pub open spec fn answered_on_a_paper(
    pre: App,
    key: KeyEvent,
    post: App,
    action: Option<UiAction>,
    id: i64,
    title: String,
    path: Option<String>,
) -> bool {
    &&& paper_selected(pre, id, title, path)
    &&& match pre.page {
        Page::Library => action == library_key_action(pre, key.code),
        Page::Notes => action == notes_key_action(pre, key.code),
        Page::ReadingQueue => action == queue_key_action(pre, key),
        Page::Bookmarks => action == bookmark_key_action(pre, key.code),
        Page::Downloads => downloads_key_action(pre, key.code, action),
        Page::Collections => collection_key_step(pre, key.code, post, (true, action)),
        Page::Authors => author_key_step(pre, key.code, post, (true, action)),
        _ => false,
    }
}

/// On every page that lists papers, the keys of a paper ask for the same of the one
/// that is selected: `c` copies its citation, `n` opens its note, `B` bookmarks it,
/// `g` asks for its group, `R` renames its file and `x` asks whether to delete it.
pub proof fn law_paper_keys_ask_for_the_selected_paper(
    pre: App,
    key: KeyEvent,
    post: App,
    action: Option<UiAction>,
    id: i64,
    title: String,
    path: Option<String>,
)
    requires
        answered_on_a_paper(pre, key, post, action, id, title, path),
    ensures
        key.code == KeyCode::Char('c') ==> action == Some(
            UiAction::CopyCitation(PaperTarget::Local(id)),
        ),
        key.code == KeyCode::Char('n') ==> action == Some(
            UiAction::OpenNote(PaperTarget::Local(id)),
        ),
        key.code == KeyCode::Char('B') ==> action == Some(
            UiAction::Bookmark(PaperTarget::Local(id)),
        ),
        key.code == KeyCode::Char('g') ==> action == Some(UiAction::Prompt(PaperTarget::Local(id))),
        key.code == KeyCode::Char('R') ==> action == Some(UiAction::RenamePdf(id)),
        key.code == KeyCode::Char('x') ==> action == Some(
            UiAction::ConfirmDeletePaper { paper_id: id, title, path },
        ),
        key.code == KeyCode::Char('c') || key.code == KeyCode::Char('n') ==> (pre.page
            == Page::Collections || pre.page == Page::Authors ==> post == pre),
{
}

/// Enter, Right and `l` open the file of the selected paper; one without a file is not
/// opened. A finished download is opened as such.
pub proof fn law_open_keys_open_the_selected_paper(
    pre: App,
    key: KeyEvent,
    post: App,
    action: Option<UiAction>,
    id: i64,
    title: String,
    path: Option<String>,
)
    requires
        answered_on_a_paper(pre, key, post, action, id, title, path),
        key.code == KeyCode::Enter || key.code == KeyCode::Right || key.code == KeyCode::Char('l'),
    ensures
        pre.page != Page::Downloads ==> match path {
            Some(file) => action == Some(UiAction::OpenPdf { paper_id: id, path: file }),
            None => action is None,
        },
        pre.page == Page::Downloads ==> action == Some(
            UiAction::OpenDownload(download_selection(pre)->0.id),
        ),
{
}

/// Any other key asks for nothing of the selected paper, but that the reading queue
/// moves it up and down with Shift or Control and the arrows.
pub proof fn law_other_keys_leave_the_paper_alone(
    pre: App,
    key: KeyEvent,
    post: App,
    action: Option<UiAction>,
    id: i64,
    title: String,
    path: Option<String>,
)
    requires
        answered_on_a_paper(pre, key, post, action, id, title, path),
        action is Some,
    ensures
        ({
            ||| key.code == KeyCode::Enter || key.code == KeyCode::Right
            ||| key.code is Char && (key.code->Char_0 == 'l' || key.code->Char_0 == 'c'
                || key.code->Char_0 == 'n' || key.code->Char_0 == 'B' || key.code->Char_0 == 'g'
                || key.code->Char_0 == 'R' || key.code->Char_0 == 'x')
            ||| pre.page == Page::ReadingQueue && (key.modifiers.shift || key.modifiers.control) && (
            key.code == KeyCode::Up || key.code == KeyCode::Down)
        }),
{
}

/// In the reading queue, Shift or Control with Up moves the selected paper up and with
/// Down down.
pub proof fn law_queue_keys_move_the_selected_paper(app: App, key: KeyEvent, paper: LibraryPaper)
    requires
        app.page == Page::ReadingQueue,
        queue_selection(app) == Some(paper),
        key.modifiers.shift || key.modifiers.control,
    ensures
        key.code == KeyCode::Up ==> queue_key_action(app, key) == Some(
            UiAction::MoveQueueItemUp(paper.id),
        ),
        key.code == KeyCode::Down ==> queue_key_action(app, key) == Some(
            UiAction::MoveQueueItemDown(paper.id),
        ),
{
}

/// The selection of a filtered list counts the papers that pass: it names one of them, and
/// there is one exactly while that many pass.
pub proof fn law_selection_counts_what_is_shown(
    query: Seq<char>,
    papers: Seq<LibraryPaper>,
    selected: usize,
)
    requires
        papers.len() <= usize::MAX,
    ensures
        ({
            let shown = visible_papers(query, papers);
            &&& selected_of(query, papers, selected) is Some <==> selected < shown.len()
            &&& selected_of(query, papers, selected) matches Some(p) ==> papers.contains(p) && p
                == papers[shown[selected as int] as int] && (is_blank(query) || contains_text(
                lowercase(p.title@),
                lowercase(trimmed(query)),
            ) || contains_text(lowercase(p.authors@), lowercase(trimmed(query))))
            &&& is_blank(query) ==> selected_of(query, papers, selected) == if selected
                < papers.len() {
                Some(papers[selected as int])
            } else {
                None
            }
        }),
{
    law_papers_are_found_by_title_and_authors(query, papers);
    if is_blank(query) {
        law_blank_query_shows_all(query, papers);
    }
}

/// What is selected on a page of papers is an entry of the list of that page; without a
/// search it is the entry that the page's own selection counts to.
pub proof fn law_pages_select_from_their_own_list(app: App)
    requires
        is_blank(app.workspace_search.query@),
    ensures
        app.library.selected < app.library.papers@.len() ==> library_selection(app) == Some(
            app.library.papers@[app.library.selected as int],
        ),
        app.notes.selected < app.notes.papers@.len() ==> notes_selection(app) == Some(
            app.notes.papers@[app.notes.selected as int],
        ),
        app.reading_queue.selected < app.reading_queue.papers@.len() ==> queue_selection(app)
            == Some(app.reading_queue.papers@[app.reading_queue.selected as int]),
        app.collections.paper_selected < app.collections.papers@.len() ==> collection_selection(app)
            == Some(app.collections.papers@[app.collections.paper_selected as int]),
        app.authors.paper_selected < app.authors.papers@.len() ==> author_selection(app) == Some(
            app.authors.papers@[app.authors.paper_selected as int],
        ),
        app.downloads.selected < app.downloads.items@.len() ==> download_selection(app) == Some(
            app.downloads.items@[app.downloads.selected as int],
        ),
        app.bookmarks.selected < app.bookmarks.items@.len() ==> bookmark_selection(app) == Some(
            app.bookmarks.items@[app.bookmarks.selected as int],
        ),
        app.authors.selected < app.authors.items@.len() ==> selected_author(app) == Some(
            app.authors.items@[app.authors.selected as int].id,
        ),
        app.collections.selected < app.collections.items@.len() ==> collection_entry(app) == Some(
            CollectionSearchItem::Collection(app.collections.selected),
        ),
{
    let query = app.workspace_search.query@;
    assert(app.library.papers.len() == app.library.papers@.len());
    assert(app.notes.papers.len() == app.notes.papers@.len());
    assert(app.reading_queue.papers.len() == app.reading_queue.papers@.len());
    assert(app.collections.papers.len() == app.collections.papers@.len());
    assert(app.authors.papers.len() == app.authors.papers@.len());
    assert(app.downloads.items.len() == app.downloads.items@.len());
    assert(app.bookmarks.items.len() == app.bookmarks.items@.len());
    assert(app.authors.items.len() == app.authors.items@.len());
    assert(app.collections.items.len() == app.collections.items@.len());
    law_blank_query_shows_all(query, app.library.papers@);
    law_blank_query_shows_all(query, app.notes.papers@);
    law_blank_query_shows_all(query, app.reading_queue.papers@);
    law_blank_query_shows_all(query, app.collections.papers@);
    law_blank_query_shows_all(query, app.authors.papers@);
    lemma_full_mask(
        app.downloads.items@.len(),
        |i: int| download_matches(query, app.downloads.items@[i]),
    );
    lemma_full_mask(
        app.bookmarks.items@.len(),
        |i: int| bookmark_matches(query, app.bookmarks.items@[i]),
    );
    lemma_full_mask(app.authors.items@.len(), |i: int| author_matches(query, app.authors.items@[i]));
    lemma_full_mask(
        app.collections.items@.len(),
        |i: int| collection_matches(query, app.collections.items@[i]),
    );
}

/// The paper that is selected on the shown page is that of the page's own list.
pub proof fn law_local_selection_follows_the_page(app: App)
    ensures
        app.page == Page::Library ==> (local_selection(app) matches Some(id) ==> library_selection(
            app,
        ) matches Some(p) && p.id == id),
        app.page == Page::Notes ==> (local_selection(app) matches Some(id) ==> notes_selection(app)
            matches Some(p) && p.id == id),
        app.page == Page::ReadingQueue ==> (local_selection(app) matches Some(id)
            ==> queue_selection(app) matches Some(p) && p.id == id),
        app.page == Page::Bookmarks ==> (local_selection(app) matches Some(id)
            ==> bookmark_selection(app) matches Some(b) && b.paper_id == id),
        app.page == Page::Library ==> local_selection(app) is Some == library_selection(app)
            is Some,
        app.page == Page::Notes ==> local_selection(app) is Some == notes_selection(app) is Some,
        app.page == Page::ReadingQueue ==> local_selection(app) is Some == queue_selection(app)
            is Some,
        app.page == Page::Bookmarks ==> local_selection(app) is Some == bookmark_selection(app)
            is Some,
        app.page == Page::Dashboard || app.page == Page::Discover || app.page == Page::Projects
            ==> local_selection(app) is None,
{
}

/// A shortcut on the selected paper: `u` marks a local paper unread; `a` puts it on the
/// reading queue or, where it is there, takes it off; `c` copies the citation of a
/// remote paper and `d` downloads it. None of them changes the state.
pub proof fn law_shortcuts_ask_for_the_selected_paper(
    pre: App,
    code: KeyCode,
    post: App,
    action: Option<UiAction>,
)
    requires
        shortcut_takes(pre, code),
        shortcut_step(pre, code, post, action),
        code != KeyCode::Char('o'),
    ensures
        post == pre,
        pre.page != Page::Dashboard && pre.page != Page::Discover ==> (local_selection(pre) matches Some(
            id,
        ) && {
            let queued = exists|i: int|
                0 <= i < pre.reading_queue.papers@.len()
                    && (#[trigger] pre.reading_queue.papers@[i]).id == id;
            &&& code == KeyCode::Char('u') ==> action == Some(UiAction::MarkUnread(id))
            &&& code == KeyCode::Char('a') && queued ==> action == Some(
                UiAction::RemoveFromQueue(id),
            )
            &&& code == KeyCode::Char('a') && !queued ==> action == Some(UiAction::AddToQueue(id))
        }),
        pre.page == Page::Dashboard && pre.today.selected < pre.today.papers@.len() ==> ({
            let paper = pre.today.papers@[pre.today.selected as int];
            &&& code == KeyCode::Char('c') ==> (action matches Some(
                UiAction::CopyCitation(PaperTarget::Remote(p)),
            ) && p@ == paper@)
            &&& code == KeyCode::Char('d') ==> (action matches Some(UiAction::Download(p)) && p@
                == paper@)
        }),
{
}

/// The first paper that has an id is found, wherever it stands; none is found only
/// where none has it.
pub proof fn law_first_paper_with_the_id_is_found(papers: Seq<LibraryPaper>, id: i64, i: int)
    requires
        0 <= i <= papers.len(),
    ensures
        match paper_with_id(papers, id, i) {
            Some(p) => exists|k: int|
                i <= k < papers.len() && #[trigger] papers[k] == p && p.id == id && forall|j: int|
                    i <= j < k ==> (#[trigger] papers[j]).id != id,
            None => forall|j: int| i <= j < papers.len() ==> (#[trigger] papers[j]).id != id,
        },
    decreases papers.len() - i,
{
    if i < papers.len() {
        if papers[i].id == id {
            assert(papers[i] == paper_with_id(papers, id, i)->0);
        } else {
            law_first_paper_with_the_id_is_found(papers, id, i + 1);
        }
    }
}

/// A download belongs to the paper it was made for, or else to the first paper of the
/// library whose file is its file.
pub proof fn law_downloads_belong_to_their_paper(papers: Seq<LibraryPaper>, task: DownloadTask)
    ensures
        task.paper_id matches Some(id) ==> paper_of_download(papers, task) == Some(id),
        task.paper_id is None && task.pdf_path is None ==> paper_of_download(papers, task) is None,
        task.paper_id is None ==> (paper_of_download(papers, task) matches Some(id) ==> exists|k: int|
            0 <= k < papers.len() && (#[trigger] papers[k]).id == id && same_file(
                papers[k],
                task.pdf_path->0,
                task.canonical_path,
            )),
        task.paper_id is None && task.pdf_path is Some && paper_of_download(papers, task) is None
            ==> forall|k: int|
            0 <= k < papers.len() ==> !same_file(
                #[trigger] papers[k],
                task.pdf_path->0,
                task.canonical_path,
            ),
{
    if task.paper_id is None && task.pdf_path is Some {
        lemma_id_of_file(papers, task.pdf_path->0, task.canonical_path, 0);
    }
}

proof fn lemma_id_of_file(
    papers: Seq<LibraryPaper>,
    path: String,
    canonical: Option<String>,
    i: int,
)
    requires
        0 <= i <= papers.len(),
    ensures
        id_of_file(papers, path, canonical, i) matches Some(id) ==> exists|k: int|
            i <= k < papers.len() && (#[trigger] papers[k]).id == id && same_file(
                papers[k],
                path,
                canonical,
            ),
        id_of_file(papers, path, canonical, i) is None ==> forall|k: int|
            i <= k < papers.len() ==> !same_file(#[trigger] papers[k], path, canonical),
    decreases papers.len() - i,
{
    if i < papers.len() && !same_file(papers[i], path, canonical) {
        lemma_id_of_file(papers, path, canonical, i + 1);
    }
}

/// Two files are the same where their paths have the same text or lead to the same
/// place; a paper without a file has no file in common with anything.
pub proof fn law_same_file_by_text_or_place(
    paper: LibraryPaper,
    path: String,
    canonical: Option<String>,
)
    ensures
        paper.pdf_path is None ==> !same_file(paper, path, canonical),
        paper.pdf_path matches Some(own) ==> (same_file(paper, path, canonical) <==> own@ == path@
            || (paper.canonical_path is Some && canonical is Some && paper.canonical_path->0@
            == canonical->0@)),
{
}

/// A failed download is tried again with `r`, as the same download of the same paper; no
/// other download answers to it, and an unfinished one answers to nothing else.
pub proof fn law_downloads_are_retried(app: App, code: KeyCode, action: Option<UiAction>)
    requires
        app.page == Page::Downloads,
        downloads_key_action(app, code, action),
    ensures
        action matches Some(UiAction::RetryDownload { id, paper }) ==> download_selection(
            app,
        ) matches Some(task) && task.id == id && task.status is Failed && (task.remote_paper matches Some(
            remote,
        ) && paper@ == remote@),
        code == KeyCode::Char('r') ==> (action is Some <==> (download_selection(app) matches Some(task)
            && task.status is Failed && task.remote_paper is Some)),
        code != KeyCode::Char('r') && action is Some ==> (download_selection(app) matches Some(task)
            && task.status is Completed),
{
}

/// In the list of collections, Enter opens the selected one, `R` renames it and `x` asks
/// whether to delete it; `g` asks for a new one.
pub proof fn law_collection_keys_ask_for_the_selected_one(
    pre: App,
    code: KeyCode,
    post: App,
    r: (bool, Option<UiAction>),
    i: usize,
)
    requires
        pre.collections.active is None,
        collection_entry(pre) == Some(CollectionSearchItem::Collection(i)),
        collection_key_step(pre, code, post, r),
    ensures
        post == pre,
        ({
            let c = pre.collections.items@[i as int];
            &&& code == KeyCode::Enter || code == KeyCode::Right || code == KeyCode::Char('l')
                ==> r.1 == Some(UiAction::OpenCollection(c.id))
            &&& code == KeyCode::Char('R') ==> r.1 == Some(UiAction::RenameCollection(c.id))
            &&& code == KeyCode::Char('x') ==> r.1 == Some(
                UiAction::ConfirmDeleteCollection {
                    collection_id: c.id,
                    name: c.name,
                    path: c.folder_path,
                },
            )
            &&& code == KeyCode::Char('g') ==> r.1 == Some(UiAction::CreateCollection)
        }),
{
}

/// Escape and `h` close an open list of papers: the list of collections or authors is
/// shown again, with the selection it had.
pub proof fn law_escape_closes_an_open_list(
    pre: App,
    code: KeyCode,
    post: App,
    r: (bool, Option<UiAction>),
)
    requires
        code == KeyCode::Esc || code == KeyCode::Char('h'),
    ensures
        pre.collections.active is Some && collection_key_step(pre, code, post, r)
            ==> post.collections.active is None && post.collections.papers@.len() == 0
            && post.collections.selected == pre.collections.selected && r == (
            true,
            None::<UiAction>,
        ),
        pre.authors.active is Some && author_key_step(pre, code, post, r) ==> post.authors.active
            is None && post.authors.papers@.len() == 0 && post.authors.selected
            == pre.authors.selected && r == (true, None::<UiAction>),
{
}

/// On the list of authors, Enter, Right and `l` open the selected author and every other
/// key is left to others.
pub proof fn law_author_keys_open_the_selected_author(
    pre: App,
    code: KeyCode,
    post: App,
    r: (bool, Option<UiAction>),
)
    requires
        pre.authors.active is None,
        author_key_step(pre, code, post, r),
    ensures
        post == pre,
        r.0 <==> code == KeyCode::Enter || code == KeyCode::Right || code == KeyCode::Char('l'),
        r.0 ==> (selected_author(pre) matches Some(id) ==> r.1 == Some(UiAction::OpenAuthor(id))),
        !r.0 || selected_author(pre) is None ==> r.1 is None,
{
}

} // verus!
