//! The library: scans of its folders, the lists read from it, and the papers
//! opened from it.

use vstd::prelude::*;
use crate::chars::{decimal, decimal_text};
use crate::config_editor::message;
use crate::downloads::{find_task, task_at};
use crate::model::{
    clone_text, opt_text, AuthorSummary, BookmarkSummary, CollectionSummary, DeletionTarget,
    DownloadStatus, DownloadTask, LibraryPaper, PaperNote,
};
use crate::papers::paper_with_id;
use crate::paths::{joined, path_join};
use crate::select::{clamp_selection, clamped_selection, select_previous, previous_selection};
use crate::state::{
    App, AppMode, AuthorsState, BookmarksState, CollectionsState, LibraryState, NotesState,
    PdfViewerState, ReadingQueueState,
};
use crate::text::{boundary, same_text};
use crate::workspace::viewer_closed;
use crate::viewer::Platform;

verus! {

/// How many PDF files a scan found, and how many of them were new.
pub open spec fn index_summary(indexed: nat, imported: nat) -> Seq<char> {
    "Indexed "@ + decimal(indexed) + " PDFs, imported "@ + decimal(imported) + " new"@
}

/// Says how many PDF files a scan found, and how many of them were new.
pub fn library_index_summary(indexed: usize, imported: usize) -> (r: String)
    ensures
        r@ == index_summary(indexed as nat, imported as nat),
{
    let found = decimal_text(indexed as u128);
    let new = decimal_text(imported as u128);
    let mut r = message("Indexed ", found.as_str());
    r.append(" PDFs, imported ");
    r.append(new.as_str());
    r.append(" new");
    r
}

/// Starts a scan of the folders unless one is shown already. A silent scan is not
/// shown. The result says whether to scan.
pub fn start_scan(library: &mut LibraryState, silent: bool) -> (scan: bool)
    ensures
        scan == !old(library).indexing,
        !scan || silent ==> *final(library) == *old(library),
        scan && !silent ==> *final(library) == (LibraryState {
            indexing: true,
            message: final(library).message,
            ..*old(library)
        }) && opt_text(final(library).message) == Some("Indexing library folders..."@),
{
    if library.indexing {
        return false;
    }
    if !silent {
        library.indexing = true;
        library.message = Some("Indexing library folders...".to_owned());
    }
    true
}

/// How many of the papers are new, among the first `n`.
pub open spec fn count_new(new: Seq<bool>) -> nat
    decreases new.len(),
{
    if new.len() == 0 {
        0
    } else {
        count_new(new.drop_last()) + if new.last() {
            1nat
        } else {
            0nat
        }
    }
}

/// Ends a scan that found `found` files; `new` says of every paper whether it is
/// new.
pub fn finish_scan(library: &mut LibraryState, found: usize, new: &Vec<bool>)
    ensures
        *final(library) == (LibraryState {
            indexing: false,
            message: final(library).message,
            ..*old(library)
        }),
        opt_text(final(library).message) == Some(index_summary(found as nat, count_new(new@))),
{
    let mut imported: usize = 0;
    let mut i: usize = 0;
    while i < new.len()
        invariant
            imported <= i <= new@.len(),
            imported == count_new(new@.take(i as int)),
        decreases new.len() - i,
    {
        assert(new@.take(i + 1).drop_last() =~= new@.take(i as int));
        assert(new@.take(i + 1).last() == new@[i as int]);
        if new[i] {
            imported = imported + 1;
        }
        i = i + 1;
    }
    assert(new@.take(new@.len() as int) =~= new@);
    library.indexing = false;
    library.message = Some(library_index_summary(found, imported));
}

/// Says what became of a single file that was found.
pub fn report_indexed_file(library: &mut LibraryState, new: bool, title: &str)
    ensures
        *final(library) == (LibraryState { message: final(library).message, ..*old(library) }),
        opt_text(final(library).message) == Some(
            if new {
                "Imported "@ + title@
            } else {
                "Ignored duplicate PDF"@
            },
        ),
{
    library.message = Some(
        if new {
            message("Imported ", title)
        } else {
            "Ignored duplicate PDF".to_owned()
        },
    );
}

/// A download that is under way: neither complete nor failed.
pub open spec fn is_under_way(task: DownloadTask) -> bool {
    !(task.status is Completed) && !(task.status is Failed)
}

/// Whether any download is under way; the folders are not scanned meanwhile.
pub fn has_active_downloads(tasks: &Vec<DownloadTask>) -> (r: bool)
    ensures
        r == exists|i: int| 0 <= i < tasks@.len() && is_under_way(#[trigger] tasks@[i]),
{
    let mut i: usize = 0;
    while i < tasks.len()
        invariant
            i <= tasks@.len(),
            forall|k: int| 0 <= k < i ==> !is_under_way(#[trigger] tasks@[k]),
        decreases tasks.len() - i,
    {
        let over = match &tasks[i].status {
            DownloadStatus::Completed => true,
            DownloadStatus::Failed(_) => true,
            _ => false,
        };
        if !over {
            assert(is_under_way(tasks@[i as int]));
            return true;
        }
        i = i + 1;
    }
    false
}

/// How many of the papers have been read.
pub open spec fn read_count(papers: Seq<LibraryPaper>) -> nat
    decreases papers.len(),
{
    if papers.len() == 0 {
        0
    } else {
        read_count(papers.drop_last()) + if papers.last().reading_status@ == "read"@ {
            1nat
        } else {
            0nat
        }
    }
}

/// How many of the papers have been read.
pub fn count_read(papers: &Vec<LibraryPaper>) -> (r: usize)
    ensures
        r == read_count(papers@),
{
    let mut count: usize = 0;
    let mut i: usize = 0;
    while i < papers.len()
        invariant
            count <= i <= papers@.len(),
            count == read_count(papers@.take(i as int)),
        decreases papers.len() - i,
    {
        assert(papers@.take(i + 1).drop_last() =~= papers@.take(i as int));
        assert(papers@.take(i + 1).last() == papers@[i as int]);
        if same_text(papers[i].reading_status.as_str(), "read") {
            count = count + 1;
        }
        i = i + 1;
    }
    assert(papers@.take(papers@.len() as int) =~= papers@);
    count
}

/// Takes over the papers of the library; the selection stays among them.
pub fn refresh_library(library: &mut LibraryState, papers: Vec<LibraryPaper>)
    ensures
        *final(library) == (LibraryState {
            papers,
            selected: clamped_selection(
                old(library).selected as int,
                papers@.len() as int,
            ) as usize,
            ..*old(library)
        }),
{
    library.selected = clamp_selection(library.selected, papers.len());
    library.papers = papers;
}

/// The first collection from index `i` on with the identifier.
pub open spec fn collection_at(items: Seq<CollectionSummary>, id: i64, i: int) -> Option<int>
    decreases items.len() - i,
{
    if i < 0 || i >= items.len() {
        None
    } else if items[i].id == id {
        Some(i)
    } else {
        collection_at(items, id, i + 1)
    }
}

pub fn find_collection(items: &Vec<CollectionSummary>, id: i64) -> (r: Option<usize>)
    ensures
        r is Some == collection_at(items@, id, 0) is Some,
        r matches Some(i) ==> i == collection_at(items@, id, 0)->0 && i < items@.len(),
{
    let mut i: usize = 0;
    while i < items.len()
        invariant
            i <= items@.len(),
            collection_at(items@, id, 0) == collection_at(items@, id, i as int),
        decreases items.len() - i,
    {
        if items[i].id == id {
            return Some(i);
        }
        i = i + 1;
    }
    None
}

/// The first author from index `i` on with the identifier.
pub open spec fn author_at(items: Seq<AuthorSummary>, id: i64, i: int) -> Option<int>
    decreases items.len() - i,
{
    if i < 0 || i >= items.len() {
        None
    } else if items[i].id == id {
        Some(i)
    } else {
        author_at(items, id, i + 1)
    }
}

pub fn find_author(items: &Vec<AuthorSummary>, id: i64) -> (r: Option<usize>)
    ensures
        r is Some == author_at(items@, id, 0) is Some,
        r matches Some(i) ==> i == author_at(items@, id, 0)->0 && i < items@.len(),
{
    let mut i: usize = 0;
    while i < items.len()
        invariant
            i <= items@.len(),
            author_at(items@, id, 0) == author_at(items@, id, i as int),
        decreases items.len() - i,
    {
        if items[i].id == id {
            return Some(i);
        }
        i = i + 1;
    }
    None
}

/// The collection with the identifier.
pub open spec fn collection_with(items: Seq<CollectionSummary>, id: i64) -> Option<
    CollectionSummary,
> {
    match collection_at(items, id, 0) {
        Some(i) => Some(items[i]),
        None => None,
    }
}

fn get_collection(items: &Vec<CollectionSummary>, id: i64) -> (r: Option<CollectionSummary>)
    ensures
        r == collection_with(items@, id),
{
    match find_collection(items, id) {
        Some(i) => Some(items[i].clone()),
        None => None,
    }
}

/// The author with the identifier.
pub open spec fn author_with(items: Seq<AuthorSummary>, id: i64) -> Option<AuthorSummary> {
    match author_at(items, id, 0) {
        Some(i) => Some(items[i]),
        None => None,
    }
}

fn get_author(items: &Vec<AuthorSummary>, id: i64) -> (r: Option<AuthorSummary>)
    ensures
        r == author_with(items@, id),
{
    match find_author(items, id) {
        Some(i) => Some(items[i].clone()),
        None => None,
    }
}

/// What the library holds besides its papers. The papers of the open collection
/// and of the open author come with it, where there is one.
#[derive(Debug)]
pub struct Organization {
    pub collections: Vec<CollectionSummary>,
    pub members: Vec<(i64, LibraryPaper)>,
    pub collection_papers: Vec<LibraryPaper>,
    pub bookmarks: Vec<BookmarkSummary>,
    pub authors: Vec<AuthorSummary>,
    pub author_papers: Vec<LibraryPaper>,
    pub notes: Vec<LibraryPaper>,
    pub reading_queue: Vec<LibraryPaper>,
}

/// The collections page after its list was read anew: the open collection stays
/// open where it is still there, and every selection stays in its list.
pub open spec fn collections_refreshed(
    c: CollectionsState,
    items: Vec<CollectionSummary>,
    members: Vec<(i64, LibraryPaper)>,
    papers: Vec<LibraryPaper>,
) -> CollectionsState {
    let listed = CollectionsState {
        items,
        members,
        selected: clamped_selection(c.selected as int, items@.len() as int) as usize,
        ..c
    };
    match c.active {
        Some(active) => CollectionsState {
            active: collection_with(items@, active.id),
            papers,
            paper_selected: clamped_selection(
                c.paper_selected as int,
                papers@.len() as int,
            ) as usize,
            ..listed
        },
        None => listed,
    }
}

fn refresh_collections(
    c: &mut CollectionsState,
    items: Vec<CollectionSummary>,
    members: Vec<(i64, LibraryPaper)>,
    papers: Vec<LibraryPaper>,
)
    ensures
        *final(c) == collections_refreshed(*old(c), items, members, papers),
{
    c.selected = clamp_selection(c.selected, items.len());
    c.members = members;
    let open: Option<i64> = match &c.active {
        Some(active) => Some(active.id),
        None => None,
    };
    if let Some(id) = open {
        c.active = get_collection(&items, id);
        c.paper_selected = clamp_selection(c.paper_selected, papers.len());
        c.papers = papers;
    }
    c.items = items;
}

/// The authors page after its list was read anew: an author who is gone leaves no
/// papers behind.
pub open spec fn authors_refreshed(
    a: AuthorsState,
    items: Vec<AuthorSummary>,
    papers: Vec<LibraryPaper>,
    post: AuthorsState,
) -> bool {
    let listed = AuthorsState {
        items,
        selected: clamped_selection(a.selected as int, items@.len() as int) as usize,
        ..a
    };
    match a.active {
        Some(active) => match author_with(items@, active.id) {
            Some(author) => post == AuthorsState {
                active: Some(author),
                papers,
                paper_selected: clamped_selection(
                    a.paper_selected as int,
                    papers@.len() as int,
                ) as usize,
                ..listed
            },
            None => post == AuthorsState {
                active: None,
                papers: post.papers,
                paper_selected: 0,
                ..listed
            } && post.papers@.len() == 0,
        },
        None => post == listed,
    }
}

fn refresh_authors(a: &mut AuthorsState, items: Vec<AuthorSummary>, papers: Vec<LibraryPaper>)
    ensures
        authors_refreshed(*old(a), items, papers, *final(a)),
{
    a.selected = clamp_selection(a.selected, items.len());
    let open: Option<i64> = match &a.active {
        Some(active) => Some(active.id),
        None => None,
    };
    if let Some(id) = open {
        a.active = get_author(&items, id);
        if a.active.is_some() {
            a.paper_selected = clamp_selection(a.paper_selected, papers.len());
            a.papers = papers;
        } else {
            a.papers = Vec::new();
            a.paper_selected = 0;
        }
    }
    a.items = items;
}

/// Takes over what the library holds besides its papers.
pub fn refresh_organization(app: &mut App, o: Organization)
    ensures
        *final(app) == (App {
            collections: collections_refreshed(
                old(app).collections,
                o.collections,
                o.members,
                o.collection_papers,
            ),
            bookmarks: BookmarksState {
                items: o.bookmarks,
                selected: clamped_selection(
                    old(app).bookmarks.selected as int,
                    o.bookmarks@.len() as int,
                ) as usize,
            },
            authors: final(app).authors,
            notes: NotesState {
                papers: o.notes,
                selected: clamped_selection(
                    old(app).notes.selected as int,
                    o.notes@.len() as int,
                ) as usize,
                ..old(app).notes
            },
            reading_queue: ReadingQueueState {
                papers: o.reading_queue,
                selected: clamped_selection(
                    old(app).reading_queue.selected as int,
                    o.reading_queue@.len() as int,
                ) as usize,
            },
            ..*old(app)
        }),
        authors_refreshed(old(app).authors, o.authors, o.author_papers, final(app).authors),
        old(app).wf() ==> final(app).wf(),
{
    refresh_collections(&mut app.collections, o.collections, o.members, o.collection_papers);
    app.bookmarks.selected = clamp_selection(app.bookmarks.selected, o.bookmarks.len());
    app.bookmarks.items = o.bookmarks;
    refresh_authors(&mut app.authors, o.authors, o.author_papers);
    app.notes.selected = clamp_selection(app.notes.selected, o.notes.len());
    app.notes.papers = o.notes;
    app.reading_queue.selected = clamp_selection(
        app.reading_queue.selected,
        o.reading_queue.len(),
    );
    app.reading_queue.papers = o.reading_queue;
}

/// After a refresh every selection is in its list, wherever the list is not empty.
pub proof fn law_refreshed_selections_exist(
    c: CollectionsState,
    a: AuthorsState,
    o: Organization,
    post: AuthorsState,
)
    requires
        authors_refreshed(a, o.authors, o.author_papers, post),
    ensures
        ({
            let shown = collections_refreshed(c, o.collections, o.members, o.collection_papers);
            &&& shown.items@.len() > 0 ==> shown.selected < shown.items@.len()
            &&& c.active is Some && shown.papers@.len() > 0 ==> shown.paper_selected
                < shown.papers@.len()
        }),
        post.items@.len() > 0 ==> post.selected < post.items@.len(),
        post.active is Some && post.papers@.len() > 0 ==> post.paper_selected < post.papers@.len(),
{
}

/// A collection that is opened: the selection stays on the one that was open last.
pub open spec fn collection_opened(
    c: CollectionsState,
    id: i64,
    papers: Vec<LibraryPaper>,
) -> CollectionsState {
    CollectionsState {
        active: collection_with(c.items@, id),
        papers,
        paper_selected: (if c.last_opened_id == Some(id) {
            clamped_selection(c.paper_selected as int, papers@.len() as int)
        } else {
            0
        }) as usize,
        last_opened_id: Some(id),
        ..c
    }
}

/// Opens a collection with its papers.
pub fn open_collection(c: &mut CollectionsState, id: i64, papers: Vec<LibraryPaper>)
    ensures
        *final(c) == collection_opened(*old(c), id, papers),
{
    let again = match c.last_opened_id {
        Some(last) => last == id,
        None => false,
    };
    c.active = get_collection(&c.items, id);
    c.paper_selected = if again {
        clamp_selection(c.paper_selected, papers.len())
    } else {
        0
    };
    c.papers = papers;
    c.last_opened_id = Some(id);
}

/// An author who is opened: the selection stays on the one that was open last.
pub open spec fn author_opened(
    a: AuthorsState,
    id: i64,
    papers: Vec<LibraryPaper>,
) -> AuthorsState {
    AuthorsState {
        active: author_with(a.items@, id),
        papers,
        paper_selected: (if a.last_opened_id == Some(id) {
            clamped_selection(a.paper_selected as int, papers@.len() as int)
        } else {
            0
        }) as usize,
        last_opened_id: Some(id),
        ..a
    }
}

/// Opens an author with their papers.
pub fn open_author(a: &mut AuthorsState, id: i64, papers: Vec<LibraryPaper>)
    ensures
        *final(a) == author_opened(*old(a), id, papers),
{
    let again = match a.last_opened_id {
        Some(last) => last == id,
        None => false,
    };
    a.active = get_author(&a.items, id);
    a.paper_selected = if again {
        clamp_selection(a.paper_selected, papers.len())
    } else {
        0
    };
    a.papers = papers;
    a.last_opened_id = Some(id);
}

/// Opening again what was open last finds the same paper selected, as long as the
/// list is as long.
pub proof fn law_reopening_restores_the_selection(
    c: CollectionsState,
    id: i64,
    papers: Vec<LibraryPaper>,
)
    requires
        c.last_opened_id == Some(id),
        c.paper_selected < papers@.len(),
    ensures
        collection_opened(c, id, papers).paper_selected == c.paper_selected,
        collection_opened(collection_opened(c, id, papers), id, papers) == collection_opened(
            c,
            id,
            papers,
        ),
{
}

/// Selects a collection that was renamed; the last one, where it is gone.
pub fn select_renamed_collection(c: &mut CollectionsState, id: i64)
    ensures
        *final(c) == (CollectionsState {
            selected: match collection_at(old(c).items@, id, 0) {
                Some(i) => i as usize,
                None => (if old(c).items@.len() > 0 {
                    old(c).items@.len() - 1
                } else {
                    0
                }) as usize,
            },
            ..*old(c)
        }),
{
    c.selected = match find_collection(&c.items, id) {
        Some(i) => i,
        None => if c.items.len() > 0 {
            c.items.len() - 1
        } else {
            0
        },
    };
}

/// Closes a collection that was deleted, where it is open.
pub fn forget_collection(c: &mut CollectionsState, id: i64)
    ensures
        if old(c).active matches Some(active) && active.id == id {
            *final(c) == (CollectionsState {
                active: None,
                papers: final(c).papers,
                ..*old(c)
            }) && final(c).papers@.len() == 0
        } else {
            *final(c) == *old(c)
        },
{
    let open = match &c.active {
        Some(active) => active.id == id,
        None => false,
    };
    if open {
        c.active = None;
        c.papers = Vec::new();
    }
}

/// The selection follows a paper of the reading queue that was moved by one.
pub fn follow_queue_move(q: &mut ReadingQueueState, up: bool)
    requires
        old(q).selected < usize::MAX,
    ensures
        *final(q) == (ReadingQueueState {
            selected: (if up {
                previous_selection(old(q).selected as int)
            } else {
                clamped_selection(old(q).selected + 1, old(q).papers@.len() as int)
            }) as usize,
            ..*old(q)
        }),
{
    q.selected = if up {
        select_previous(q.selected)
    } else {
        clamp_selection(q.selected + 1, q.papers.len())
    };
}

/// Closes the viewer. The results are the reading session that ends, with its
/// length in seconds, and the document whose rendered pages are to be released.
pub fn close_pdf_viewer(app: &mut App) -> (r: (Option<(i64, u64)>, Option<String>))
    ensures
        *final(app) == (App {
            mode: AppMode::Normal,
            pdf_viewer: PdfViewerState {
                session_id: None,
                session_start: None,
                ..viewer_closed(old(app).pdf_viewer)
            },
            ..*old(app)
        }),
        r.0 == match (old(app).pdf_viewer.session_id, old(app).pdf_viewer.session_start) {
            (Some(id), Some(start)) => Some(
                (
                    id,
                    (if old(app).clock_ms >= start {
                        (old(app).clock_ms - start) / 1000
                    } else {
                        0
                    }) as u64,
                ),
            ),
            _ => None,
        },
        r.1 == old(app).pdf_viewer.path,
        old(app).wf() ==> final(app).wf(),
{
    let session: Option<(i64, u64)> = match (
        app.pdf_viewer.session_id,
        app.pdf_viewer.session_start,
    ) {
        (Some(id), Some(start)) => {
            let seconds: u64 = if app.clock_ms >= start {
                (app.clock_ms - start) / 1000
            } else {
                0
            };
            Some((id, seconds))
        },
        _ => None,
    };
    let document = clone_text(&app.pdf_viewer.path);
    app.pdf_viewer.session_id = None;
    app.pdf_viewer.session_start = None;
    app.mode = AppMode::Normal;
    app.pdf_viewer.path = None;
    app.pdf_viewer.page = 1;
    app.pdf_viewer.total_pages = 1;
    app.pdf_viewer.scroll_y = 0;
    app.pdf_viewer.page_pixel_h = 0;
    app.pdf_viewer.max_scroll_y = 0;
    (session, document)
}

/// The file of a download: that of its paper in the library, else its own, else
/// the one named after it.
pub open spec fn download_file(
    os: Platform,
    papers: Seq<LibraryPaper>,
    task: Option<DownloadTask>,
    id: Seq<char>,
    directory: Seq<char>,
) -> Seq<char> {
    let usual = joined(os, directory, id + ".pdf"@);
    match task {
        None => usual,
        Some(task) => {
            let own = match task.pdf_path {
                Some(path) => path@,
                None => usual,
            };
            match task.paper_id {
                None => own,
                Some(paper_id) => match paper_with_id(papers, paper_id, 0) {
                    Some(paper) => match paper.pdf_path {
                        Some(path) => path@,
                        None => own,
                    },
                    None => own,
                },
            }
        },
    }
}

/// The task of a download.
pub open spec fn task_with(tasks: Seq<DownloadTask>, id: Seq<char>) -> Option<DownloadTask> {
    match task_at(tasks, id, 0) {
        Some(i) => Some(tasks[i]),
        None => None,
    }
}

/// Which file to open for a download, and of which paper it is.
pub fn open_download(app: &App, id: &str, directory: &str) -> (r: (Option<i64>, String))
    ensures
        r.0 == match task_with(app.downloads.items@, id@) {
            Some(task) => task.paper_id,
            None => None,
        },
        r.1@ == download_file(
            app.platform,
            app.library.papers@,
            task_with(app.downloads.items@, id@),
            id@,
            directory@,
        ),
{
    let mut paper_id: Option<i64> = None;
    let mut path: Option<String> = None;
    if let Some(i) = find_task(&app.downloads.items, id) {
        paper_id = app.downloads.items[i].paper_id;
        if let Some(paper) = paper_id {
            path = find_pdf(&app.library.papers, paper);
        }
        if path.is_none() {
            path = clone_text(&app.downloads.items[i].pdf_path);
        }
    }
    match path {
        Some(path) => (paper_id, path),
        None => {
            let name = message(id, ".pdf");
            (paper_id, path_join(app.platform, directory, name.as_str()))
        },
    }
}

/// The file of the paper with the identifier.
pub fn find_pdf(papers: &Vec<LibraryPaper>, id: i64) -> (r: Option<String>)
    ensures
        r == match paper_with_id(papers@, id, 0) {
            Some(paper) => paper.pdf_path,
            None => None,
        },
{
    let mut i: usize = 0;
    while i < papers.len()
        invariant
            i <= papers@.len(),
            paper_with_id(papers@, id, 0) == paper_with_id(papers@, id, i as int),
        decreases papers.len() - i,
    {
        if papers[i].id == id {
            return clone_text(&papers[i].pdf_path);
        }
        i = i + 1;
    }
    None
}

/// Shows the details of a paper from their start.
pub fn show_paper_detail(app: &mut App)
    ensures
        *final(app) == (App { mode: AppMode::PaperDetail, paper_detail_scroll: 0, ..*old(app) }),
        old(app).wf() ==> final(app).wf(),
{
    app.mode = AppMode::PaperDetail;
    app.paper_detail_scroll = 0;
}

/// Opens the editor on a note.
pub fn open_note_editor(app: &mut App, note: PaperNote)
    ensures
        *final(app) == (App {
            mode: AppMode::NoteEdit,
            notes: NotesState {
                editor: Some(note),
                preview: false,
                scroll: 0,
                ..old(app).notes
            },
            ..*old(app)
        }),
        old(app).wf() && boundary(note.body@, note.cursor as int) ==> final(app).wf(),
{
    app.notes.editor = Some(note);
    app.notes.preview = false;
    app.notes.scroll = 0;
    app.mode = AppMode::NoteEdit;
}

/// Asks whether a paper is to be deleted.
pub fn confirm_paper_deletion(app: &mut App, id: i64, title: String, path: Option<String>)
    ensures
        *final(app) == (App {
            mode: AppMode::ConfirmDelete,
            delete_confirmation: Some(DeletionTarget::Paper { id, title, path }),
            ..*old(app)
        }),
        old(app).wf() ==> final(app).wf(),
{
    app.delete_confirmation = Some(DeletionTarget::Paper { id, title, path });
    app.mode = AppMode::ConfirmDelete;
}

/// Asks whether a collection is to be deleted.
pub fn confirm_collection_deletion(app: &mut App, id: i64, name: String, path: Option<String>)
    ensures
        *final(app) == (App {
            mode: AppMode::ConfirmDelete,
            delete_confirmation: Some(DeletionTarget::Collection { id, name, path }),
            ..*old(app)
        }),
        old(app).wf() ==> final(app).wf(),
{
    app.delete_confirmation = Some(DeletionTarget::Collection { id, name, path });
    app.mode = AppMode::ConfirmDelete;
}

/// Says what became of a bookmark.
pub fn report_bookmark(app: &mut App, added: bool)
    ensures
        crate::papers::toasted(
            *old(app),
            if added {
                "Paper bookmarked"@
            } else {
                "Bookmark removed"@
            },
            *final(app),
        ),
        old(app).wf() ==> final(app).wf(),
{
    app.toast = Some(
        if added {
            "Paper bookmarked".to_owned()
        } else {
            "Bookmark removed".to_owned()
        },
    );
}

/// The count of the new papers is that of the marks that say so.
pub proof fn law_new_papers_are_counted(new: Seq<bool>)
    ensures
        count_new(new) == new.to_multiset().count(true),
    decreases new.len(),
{
    broadcast use vstd::seq_lib::group_to_multiset_ensures;

    if new.len() > 0 {
        law_new_papers_are_counted(new.drop_last());
        assert(new =~= new.drop_last().push(new.last()));
    } else {
        assert(new =~= Seq::empty());
    }
}

/// The count of the papers that were read leaves out every other: it grows by one with a
/// paper marked `read` and by nothing with any other, wherever in the list it stands.
pub proof fn law_read_papers_are_counted(a: Seq<LibraryPaper>, b: Seq<LibraryPaper>)
    ensures
        read_count(a + b) == read_count(a) + read_count(b),
        read_count(a) <= a.len(),
        a.len() == 1 ==> read_count(a) == if a[0].reading_status@ == "read"@ {
            1nat
        } else {
            0nat
        },
    decreases a.len() + b.len(),
{
    if b.len() > 0 {
        law_read_papers_are_counted(a, b.drop_last());
        assert((a + b).drop_last() =~= a + b.drop_last());
    } else {
        assert(a + b =~= a);
        if a.len() > 0 {
            law_read_papers_are_counted(a.drop_last(), b);
            if a.len() == 1 {
                assert(a.drop_last().len() == 0);
            }
        }
    }
}

/// A collection is found by its identifier: the first that has it, and none only where none
/// has it.
pub proof fn law_collections_are_found_by_identifier(
    items: Seq<CollectionSummary>,
    id: i64,
    i: int,
)
    requires
        0 <= i <= items.len(),
    ensures
        match collection_at(items, id, i) {
            Some(k) => i <= k < items.len() && items[k].id == id && forall|j: int|
                i <= j < k ==> (#[trigger] items[j]).id != id,
            None => forall|j: int| i <= j < items.len() ==> (#[trigger] items[j]).id != id,
        },
    decreases items.len() - i,
{
    if i < items.len() && items[i].id != id {
        law_collections_are_found_by_identifier(items, id, i + 1);
    }
}

/// An author is found by their identifier: the first that has it, and none only where none
/// has it.
pub proof fn law_authors_are_found_by_identifier(items: Seq<AuthorSummary>, id: i64, i: int)
    requires
        0 <= i <= items.len(),
    ensures
        match author_at(items, id, i) {
            Some(k) => i <= k < items.len() && items[k].id == id && forall|j: int|
                i <= j < k ==> (#[trigger] items[j]).id != id,
            None => forall|j: int| i <= j < items.len() ==> (#[trigger] items[j]).id != id,
        },
    decreases items.len() - i,
{
    if i < items.len() && items[i].id != id {
        law_authors_are_found_by_identifier(items, id, i + 1);
    }
}

/// Reading the collections anew shows the lists that came and keeps every selection that is
/// still in its list; the open collection stays open exactly while it is there.
pub proof fn law_refreshed_collections_keep_their_place(
    c: CollectionsState,
    items: Vec<CollectionSummary>,
    members: Vec<(i64, LibraryPaper)>,
    papers: Vec<LibraryPaper>,
)
    ensures
        ({
            let post = collections_refreshed(c, items, members, papers);
            &&& post.items == items
            &&& post.members == members
            &&& c.selected < items@.len() ==> post.selected == c.selected
            &&& c.active is None ==> post.active is None && post.paper_selected == c.paper_selected
            &&& c.active matches Some(active) ==> {
                &&& post.papers == papers
                &&& c.paper_selected < papers@.len() ==> post.paper_selected == c.paper_selected
                &&& post.active is Some <==> exists|i: int|
                    0 <= i < items@.len() && (#[trigger] items@[i]).id == active.id
                &&& post.active matches Some(now) ==> now.id == active.id && items@.contains(now)
            }
        }),
{
    if let Some(active) = c.active {
        law_collections_are_found_by_identifier(items@, active.id, 0);
    }
}

/// Reading the authors anew shows the list that came and keeps every selection that is still
/// in its list; the open author stays open exactly while they are there.
pub proof fn law_refreshed_authors_keep_their_place(
    a: AuthorsState,
    items: Vec<AuthorSummary>,
    papers: Vec<LibraryPaper>,
    post: AuthorsState,
)
    requires
        authors_refreshed(a, items, papers, post),
    ensures
        post.items == items,
        a.selected < items@.len() ==> post.selected == a.selected,
        a.active is None ==> post.active is None && post.paper_selected == a.paper_selected,
        a.active matches Some(active) ==> {
            &&& post.active is Some <==> exists|i: int|
                0 <= i < items@.len() && (#[trigger] items@[i]).id == active.id
            &&& post.active is Some ==> post.active->0.id == active.id && post.papers == papers
            &&& post.active is None ==> post.papers@.len() == 0
            &&& post.active is Some && a.paper_selected < papers@.len() ==> post.paper_selected
                == a.paper_selected
        },
{
    if let Some(active) = a.active {
        law_authors_are_found_by_identifier(items@, active.id, 0);
    }
}

/// Opening a collection or an author shows the papers that came with it; another one than
/// before starts at its first paper.
pub proof fn law_opened_lists_show_their_papers(
    c: CollectionsState,
    a: AuthorsState,
    id: i64,
    papers: Vec<LibraryPaper>,
)
    ensures
        ({
            let d = collection_opened(c, id, papers);
            &&& d.papers == papers
            &&& d.active matches Some(now) ==> now.id == id && c.items@.contains(now)
            &&& d.active is None ==> forall|i: int|
                0 <= i < c.items@.len() ==> (#[trigger] c.items@[i]).id != id
            &&& c.last_opened_id != Some(id) ==> d.paper_selected == 0
            &&& d.last_opened_id == Some(id)
            &&& d.selected == c.selected
        }),
        ({
            let b = author_opened(a, id, papers);
            &&& b.papers == papers
            &&& b.active matches Some(now) ==> now.id == id && a.items@.contains(now)
            &&& b.active is None ==> forall|i: int|
                0 <= i < a.items@.len() ==> (#[trigger] a.items@[i]).id != id
            &&& a.last_opened_id != Some(id) ==> b.paper_selected == 0
            &&& a.last_opened_id == Some(id) && a.paper_selected < papers@.len()
                ==> b.paper_selected == a.paper_selected
            &&& b.selected == a.selected
        }),
{
    law_collections_are_found_by_identifier(c.items@, id, 0);
    law_authors_are_found_by_identifier(a.items@, id, 0);
}

/// The file of a download is that of its paper in the library where that has one, else the
/// download's own, else the one named after the download in the folder.
pub proof fn law_downloads_open_the_file_of_their_paper(
    os: Platform,
    papers: Seq<LibraryPaper>,
    task: DownloadTask,
    id: Seq<char>,
    directory: Seq<char>,
    paper: LibraryPaper,
)
    requires
        task.paper_id == Some(paper.id),
        paper_with_id(papers, paper.id, 0) == Some(paper),
    ensures
        paper.pdf_path is Some ==> download_file(os, papers, Some(task), id, directory)
            == paper.pdf_path->0@,
        paper.pdf_path is None && task.pdf_path is Some ==> download_file(
            os,
            papers,
            Some(task),
            id,
            directory,
        ) == task.pdf_path->0@,
        paper.pdf_path is None && task.pdf_path is None ==> download_file(
            os,
            papers,
            Some(task),
            id,
            directory,
        ) == joined(os, directory, id + ".pdf"@),
        download_file(os, papers, None, id, directory) == joined(os, directory, id + ".pdf"@),
{
}

/// A download counts as under way in every state but the two in which it has ended.
pub proof fn law_downloads_end_complete_or_failed(task: DownloadTask)
    ensures
        task.status is Completed || task.status is Failed ==> !is_under_way(task),
        task.status is Starting || task.status is Running || task.status is ExtractingMetadata
            || task.status is Enriching || task.status is Renaming ==> is_under_way(task),
{
}

} // verus!
