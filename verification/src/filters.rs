//! What the search bars and the command palette let through.

use vstd::prelude::*;
use crate::chars::{
    blank, contains, contains_text, is_blank, lowercase, to_lowercase, trim, trimmed,
};
use crate::model::{AuthorSummary, BookmarkSummary, CollectionSummary, DownloadTask, LibraryPaper};
use crate::select::{lemma_picked_lists_exactly, lists_exactly, pick, picked};
use crate::state::{pages, App, Page};

verus! {

/// Whether `field` holds the query, when neither case nor white space round the
/// query counts.
pub open spec fn field_matches(query: Seq<char>, field: Seq<char>) -> bool {
    contains_text(lowercase(field), lowercase(trimmed(query)))
}

pub fn matches_field(query: &str, field: &str) -> (r: bool)
    ensures
        r == field_matches(query@, field@),
{
    contains(to_lowercase(field).as_str(), to_lowercase(trim(query).as_str()).as_str())
}

/// A paper passes when the query is blank or occurs in its title or authors.
pub open spec fn paper_matches(query: Seq<char>, paper: LibraryPaper) -> bool {
    is_blank(query) || field_matches(query, paper.title@) || field_matches(query, paper.authors@)
}

/// A download passes when the query is blank or occurs in its title.
pub open spec fn download_matches(query: Seq<char>, task: DownloadTask) -> bool {
    is_blank(query) || field_matches(query, task.title@)
}

/// A bookmark passes when the query is blank or occurs in its title or authors.
pub open spec fn bookmark_matches(query: Seq<char>, bookmark: BookmarkSummary) -> bool {
    is_blank(query) || field_matches(query, bookmark.paper_title@) || field_matches(
        query,
        bookmark.authors@,
    )
}

/// An author passes when the query is blank or occurs in their name.
pub open spec fn author_matches(query: Seq<char>, author: AuthorSummary) -> bool {
    is_blank(query) || field_matches(query, author.name@)
}

/// A collection passes when the query is blank or occurs in its name.
pub open spec fn collection_matches(query: Seq<char>, collection: CollectionSummary) -> bool {
    is_blank(query) || field_matches(query, collection.name@)
}

/// A page passes when the query is blank or occurs in its title.
pub open spec fn page_matches(query: Seq<char>, page: Page) -> bool {
    is_blank(query) || field_matches(query, page.title_spec())
}

/// The papers that pass, by index.
pub open spec fn visible_papers(query: Seq<char>, papers: Seq<LibraryPaper>) -> Seq<usize> {
    picked(Seq::new(papers.len(), |i: int| paper_matches(query, papers[i])))
}

/// The downloads that pass, by index.
pub open spec fn visible_downloads(query: Seq<char>, tasks: Seq<DownloadTask>) -> Seq<usize> {
    picked(Seq::new(tasks.len(), |i: int| download_matches(query, tasks[i])))
}

/// The bookmarks that pass, by index.
pub open spec fn visible_bookmarks(query: Seq<char>, items: Seq<BookmarkSummary>) -> Seq<usize> {
    picked(Seq::new(items.len(), |i: int| bookmark_matches(query, items[i])))
}

/// The authors that pass, by index.
pub open spec fn visible_authors(query: Seq<char>, items: Seq<AuthorSummary>) -> Seq<usize> {
    picked(Seq::new(items.len(), |i: int| author_matches(query, items[i])))
}

/// The collections that pass, by index.
pub open spec fn visible_collections(query: Seq<char>, items: Seq<CollectionSummary>) -> Seq<
    usize,
> {
    picked(Seq::new(items.len(), |i: int| collection_matches(query, items[i])))
}

/// The papers of all collections that pass, by index; none while nothing is
/// searched for.
pub open spec fn visible_members(query: Seq<char>, members: Seq<(i64, LibraryPaper)>) -> Seq<
    usize,
> {
    picked(
        Seq::new(
            members.len(),
            |i: int| !is_blank(query) && paper_matches(query, members[i].1),
        ),
    )
}

/// The pages that pass, in the order of the sidebar.
pub open spec fn visible_pages(query: Seq<char>) -> Seq<usize> {
    picked(Seq::new(pages().len(), |i: int| page_matches(query, pages()[i])))
}

/// With a blank query every paper is visible.
pub proof fn law_blank_query_shows_all(query: Seq<char>, papers: Seq<LibraryPaper>)
    requires
        is_blank(query),
        papers.len() <= usize::MAX,
    ensures
        visible_papers(query, papers) == Seq::new(papers.len(), |i: int| i as usize),
{
    let mask = Seq::new(papers.len(), |i: int| paper_matches(query, papers[i]));
    lemma_all_picked(mask);
    assert(visible_papers(query, papers) =~= Seq::new(papers.len(), |i: int| i as usize));
}

proof fn lemma_all_picked(mask: Seq<bool>)
    requires
        forall|i: int| 0 <= i < mask.len() ==> mask[i],
    ensures
        picked(mask) == Seq::new(mask.len(), |i: int| i as usize),
    decreases mask.len(),
{
    if mask.len() > 0 {
        lemma_all_picked(mask.drop_last());
    }
    assert(picked(mask) =~= Seq::new(mask.len(), |i: int| i as usize));
}

/// Whether a paper passes.
fn passes(query: &str, paper: &LibraryPaper) -> (r: bool)
    ensures
        r == paper_matches(query@, *paper),
{
    blank(query) || matches_field(query, paper.title.as_str()) || matches_field(
        query,
        paper.authors.as_str(),
    )
}

pub fn filter_papers(query: &str, papers: &Vec<LibraryPaper>) -> (r: Vec<usize>)
    ensures
        r@ == visible_papers(query@, papers@),
        forall|k: int| 0 <= k < r@.len() ==> (#[trigger] r@[k]) < papers@.len(),
{
    let mut mask: Vec<bool> = Vec::new();
    let mut i: usize = 0;
    while i < papers.len()
        invariant
            i <= papers@.len(),
            mask@.len() == i,
            forall|k: int| 0 <= k < i ==> mask@[k] == paper_matches(query@, papers@[k]),
        decreases papers.len() - i,
    {
        mask.push(passes(query, &papers[i]));
        i = i + 1;
    }
    assert(mask@ =~= Seq::new(papers@.len(), |i: int| paper_matches(query@, papers@[i])));
    pick(&mask)
}

pub fn filter_downloads(query: &str, tasks: &Vec<DownloadTask>) -> (r: Vec<usize>)
    ensures
        r@ == visible_downloads(query@, tasks@),
        forall|k: int| 0 <= k < r@.len() ==> (#[trigger] r@[k]) < tasks@.len(),
{
    let mut mask: Vec<bool> = Vec::new();
    let mut i: usize = 0;
    while i < tasks.len()
        invariant
            i <= tasks@.len(),
            mask@.len() == i,
            forall|k: int| 0 <= k < i ==> mask@[k] == download_matches(query@, tasks@[k]),
        decreases tasks.len() - i,
    {
        mask.push(blank(query) || matches_field(query, tasks[i].title.as_str()));
        i = i + 1;
    }
    assert(mask@ =~= Seq::new(tasks@.len(), |i: int| download_matches(query@, tasks@[i])));
    pick(&mask)
}

pub fn filter_bookmarks(query: &str, items: &Vec<BookmarkSummary>) -> (r: Vec<usize>)
    ensures
        r@ == visible_bookmarks(query@, items@),
        forall|k: int| 0 <= k < r@.len() ==> (#[trigger] r@[k]) < items@.len(),
{
    let mut mask: Vec<bool> = Vec::new();
    let mut i: usize = 0;
    while i < items.len()
        invariant
            i <= items@.len(),
            mask@.len() == i,
            forall|k: int| 0 <= k < i ==> mask@[k] == bookmark_matches(query@, items@[k]),
        decreases items.len() - i,
    {
        mask.push(
            blank(query) || matches_field(query, items[i].paper_title.as_str()) || matches_field(
                query,
                items[i].authors.as_str(),
            ),
        );
        i = i + 1;
    }
    assert(mask@ =~= Seq::new(items@.len(), |i: int| bookmark_matches(query@, items@[i])));
    pick(&mask)
}

pub fn filter_authors(query: &str, items: &Vec<AuthorSummary>) -> (r: Vec<usize>)
    ensures
        r@ == visible_authors(query@, items@),
        forall|k: int| 0 <= k < r@.len() ==> (#[trigger] r@[k]) < items@.len(),
{
    let mut mask: Vec<bool> = Vec::new();
    let mut i: usize = 0;
    while i < items.len()
        invariant
            i <= items@.len(),
            mask@.len() == i,
            forall|k: int| 0 <= k < i ==> mask@[k] == author_matches(query@, items@[k]),
        decreases items.len() - i,
    {
        mask.push(blank(query) || matches_field(query, items[i].name.as_str()));
        i = i + 1;
    }
    assert(mask@ =~= Seq::new(items@.len(), |i: int| author_matches(query@, items@[i])));
    pick(&mask)
}

pub fn filter_collections(query: &str, items: &Vec<CollectionSummary>) -> (r: Vec<usize>)
    ensures
        r@ == visible_collections(query@, items@),
        forall|k: int| 0 <= k < r@.len() ==> (#[trigger] r@[k]) < items@.len(),
{
    let mut mask: Vec<bool> = Vec::new();
    let mut i: usize = 0;
    while i < items.len()
        invariant
            i <= items@.len(),
            mask@.len() == i,
            forall|k: int| 0 <= k < i ==> mask@[k] == collection_matches(query@, items@[k]),
        decreases items.len() - i,
    {
        mask.push(blank(query) || matches_field(query, items[i].name.as_str()));
        i = i + 1;
    }
    assert(mask@ =~= Seq::new(items@.len(), |i: int| collection_matches(query@, items@[i])));
    pick(&mask)
}

pub fn filter_members(query: &str, members: &Vec<(i64, LibraryPaper)>) -> (r: Vec<usize>)
    ensures
        r@ == visible_members(query@, members@),
        forall|k: int| 0 <= k < r@.len() ==> (#[trigger] r@[k]) < members@.len(),
{
    let searching = !blank(query);
    let mut mask: Vec<bool> = Vec::new();
    let mut i: usize = 0;
    while i < members.len()
        invariant
            i <= members@.len(),
            mask@.len() == i,
            searching == !is_blank(query@),
            forall|k: int|
                0 <= k < i ==> mask@[k] == (!is_blank(query@) && paper_matches(
                    query@,
                    members@[k].1,
                )),
        decreases members.len() - i,
    {
        mask.push(searching && passes(query, &members[i].1));
        i = i + 1;
    }
    assert(mask@ =~= Seq::new(
        members@.len(),
        |i: int| !is_blank(query@) && paper_matches(query@, members@[i].1),
    ));
    pick(&mask)
}

pub fn filter_pages(query: &str) -> (r: Vec<usize>)
    ensures
        r@ == visible_pages(query@),
        forall|k: int| 0 <= k < r@.len() ==> (#[trigger] r@[k]) < pages().len(),
{
    let all = Page::all();
    let mut mask: Vec<bool> = Vec::new();
    let mut i: usize = 0;
    while i < all.len()
        invariant
            i <= all@.len(),
            all@ == pages(),
            mask@.len() == i,
            forall|k: int| 0 <= k < i ==> mask@[k] == page_matches(query@, pages()[k]),
        decreases all.len() - i,
    {
        mask.push(blank(query) || matches_field(query, all[i].title()));
        i = i + 1;
    }
    assert(mask@ =~= Seq::new(pages().len(), |i: int| page_matches(query@, pages()[i])));
    pick(&mask)
}

/// The query that filters the page that is shown.
pub open spec fn query_of(app: App) -> Seq<char> {
    app.workspace_search.query@
}

/// An entry of the collections page while no collection is open: a collection,
/// or a paper of one that the search found.
#[derive(Debug, Clone, Copy, PartialEq, Eq, Structural)]
pub enum CollectionSearchItem {
    Collection(usize),
    Paper(usize),
}

/// The entries of the collections page: the collections that pass, then the
/// papers that the search found.
pub open spec fn collection_items(app: App) -> Seq<CollectionSearchItem> {
    let shown = visible_collections(query_of(app), app.collections.items@);
    let found = visible_members(query_of(app), app.collections.members@);
    Seq::new(
        shown.len() + found.len(),
        |i: int|
            if i < shown.len() {
                CollectionSearchItem::Collection(shown[i])
            } else {
                CollectionSearchItem::Paper(found[i - shown.len()])
            },
    )
}

/// Whether an entry of the collections page names something that is there.
pub open spec fn item_in_range(app: App, item: CollectionSearchItem) -> bool {
    match item {
        CollectionSearchItem::Collection(i) => i < app.collections.items@.len(),
        CollectionSearchItem::Paper(i) => i < app.collections.members@.len(),
    }
}

impl App {
    /// The papers of the library that the search bar lets through, by index.
    pub fn filtered_library_papers(&self) -> (r: Vec<usize>)
        ensures
            r@ == visible_papers(query_of(*self), self.library.papers@),
            forall|k: int| 0 <= k < r@.len() ==> (#[trigger] r@[k]) < self.library.papers@.len(),
    {
        filter_papers(self.workspace_search.query.as_str(), &self.library.papers)
    }

    pub fn filtered_notes_papers(&self) -> (r: Vec<usize>)
        ensures
            r@ == visible_papers(query_of(*self), self.notes.papers@),
            forall|k: int| 0 <= k < r@.len() ==> (#[trigger] r@[k]) < self.notes.papers@.len(),
    {
        filter_papers(self.workspace_search.query.as_str(), &self.notes.papers)
    }

    pub fn filtered_reading_queue_papers(&self) -> (r: Vec<usize>)
        ensures
            r@ == visible_papers(query_of(*self), self.reading_queue.papers@),
            forall|k: int|
                0 <= k < r@.len() ==> (#[trigger] r@[k]) < self.reading_queue.papers@.len(),
    {
        filter_papers(self.workspace_search.query.as_str(), &self.reading_queue.papers)
    }

    pub fn filtered_collection_papers(&self) -> (r: Vec<usize>)
        ensures
            r@ == visible_papers(query_of(*self), self.collections.papers@),
            forall|k: int|
                0 <= k < r@.len() ==> (#[trigger] r@[k]) < self.collections.papers@.len(),
    {
        filter_papers(self.workspace_search.query.as_str(), &self.collections.papers)
    }

    pub fn filtered_author_papers(&self) -> (r: Vec<usize>)
        ensures
            r@ == visible_papers(query_of(*self), self.authors.papers@),
            forall|k: int| 0 <= k < r@.len() ==> (#[trigger] r@[k]) < self.authors.papers@.len(),
    {
        filter_papers(self.workspace_search.query.as_str(), &self.authors.papers)
    }

    pub fn filtered_authors(&self) -> (r: Vec<usize>)
        ensures
            r@ == visible_authors(query_of(*self), self.authors.items@),
            forall|k: int| 0 <= k < r@.len() ==> (#[trigger] r@[k]) < self.authors.items@.len(),
    {
        filter_authors(self.workspace_search.query.as_str(), &self.authors.items)
    }

    pub fn filtered_bookmarks(&self) -> (r: Vec<usize>)
        ensures
            r@ == visible_bookmarks(query_of(*self), self.bookmarks.items@),
            forall|k: int| 0 <= k < r@.len() ==> (#[trigger] r@[k]) < self.bookmarks.items@.len(),
    {
        filter_bookmarks(self.workspace_search.query.as_str(), &self.bookmarks.items)
    }

    pub fn filtered_downloads(&self) -> (r: Vec<usize>)
        ensures
            r@ == visible_downloads(query_of(*self), self.downloads.items@),
            forall|k: int| 0 <= k < r@.len() ==> (#[trigger] r@[k]) < self.downloads.items@.len(),
    {
        filter_downloads(self.workspace_search.query.as_str(), &self.downloads.items)
    }

    /// The pages that the command palette offers.
    pub fn filtered_palette_items(&self) -> (r: Vec<Page>)
        ensures
            r@ == visible_pages(self.palette.query@).map_values(|i: usize| pages()[i as int]),
    {
        let shown = filter_pages(self.palette.query.as_str());
        let all = Page::all();
        let mut r: Vec<Page> = Vec::new();
        let mut i: usize = 0;
        while i < shown.len()
            invariant
                i <= shown@.len(),
                all@ == pages(),
                r@.len() == i,
                forall|k: int| 0 <= k < shown@.len() ==> (#[trigger] shown@[k]) < pages().len(),
                forall|k: int| 0 <= k < i ==> r@[k] == pages()[shown@[k] as int],
            decreases shown.len() - i,
        {
            r.push(all[shown[i]]);
            i = i + 1;
        }
        assert(r@ =~= visible_pages(self.palette.query@).map_values(|i: usize| pages()[i as int]));
        r
    }

    /// The entries of the collections page while no collection is open.
    pub fn filtered_collections(&self) -> (r: Vec<CollectionSearchItem>)
        ensures
            r@ == collection_items(*self),
            forall|k: int| 0 <= k < r@.len() ==> item_in_range(*self, #[trigger] r@[k]),
    {
        let query = self.workspace_search.query.as_str();
        let shown = filter_collections(query, &self.collections.items);
        let found = filter_members(query, &self.collections.members);
        let mut r: Vec<CollectionSearchItem> = Vec::new();
        let mut i: usize = 0;
        while i < shown.len()
            invariant
                i <= shown@.len(),
                r@.len() == i,
                forall|k: int|
                    0 <= k < shown@.len() ==> (#[trigger] shown@[k]) < self.collections.items@.len(),
                forall|k: int|
                    0 <= k < i ==> #[trigger] r@[k] == CollectionSearchItem::Collection(shown@[k]),
            decreases shown.len() - i,
        {
            r.push(CollectionSearchItem::Collection(shown[i]));
            i = i + 1;
        }
        let mut j: usize = 0;
        while j < found.len()
            invariant
                j <= found@.len(),
                r@.len() == shown@.len() + j,
                forall|k: int|
                    0 <= k < shown@.len() ==> #[trigger] r@[k] == CollectionSearchItem::Collection(
                        shown@[k],
                    ),
                forall|k: int|
                    shown@.len() <= k < r@.len() ==> #[trigger] r@[k]
                        == CollectionSearchItem::Paper(found@[k - shown@.len()]),
            decreases found.len() - j,
        {
            r.push(CollectionSearchItem::Paper(found[j]));
            j = j + 1;
        }
        assert(r@ =~= collection_items(*self));
        r
    }
}

/// A list of papers shows exactly those whose title or authors hold the query,
/// without regard to case and to white space round the query; all of them while
/// the query is blank.
pub proof fn law_papers_are_found_by_title_and_authors(query: Seq<char>, papers: Seq<LibraryPaper>)
    requires
        papers.len() <= usize::MAX,
    ensures
        lists_exactly(
            visible_papers(query, papers),
            papers.len() as int,
            |i: int|
                is_blank(query) || contains_text(
                    lowercase(papers[i].title@),
                    lowercase(trimmed(query)),
                ) || contains_text(lowercase(papers[i].authors@), lowercase(trimmed(query))),
        ),
{
    lemma_picked_lists_exactly(
        Seq::new(papers.len(), |i: int| paper_matches(query, papers[i])),
        |i: int|
            is_blank(query) || contains_text(
                lowercase(papers[i].title@),
                lowercase(trimmed(query)),
            ) || contains_text(lowercase(papers[i].authors@), lowercase(trimmed(query))),
    );
}

/// The downloads page shows exactly the downloads whose title holds the query.
pub proof fn law_downloads_are_found_by_title(query: Seq<char>, tasks: Seq<DownloadTask>)
    requires
        tasks.len() <= usize::MAX,
    ensures
        lists_exactly(
            visible_downloads(query, tasks),
            tasks.len() as int,
            |i: int|
                is_blank(query) || contains_text(
                    lowercase(tasks[i].title@),
                    lowercase(trimmed(query)),
                ),
        ),
{
    lemma_picked_lists_exactly(
        Seq::new(tasks.len(), |i: int| download_matches(query, tasks[i])),
        |i: int|
            is_blank(query) || contains_text(lowercase(tasks[i].title@), lowercase(trimmed(query))),
    );
}

/// The bookmarks page shows exactly the bookmarks whose title or authors hold the
/// query.
pub proof fn law_bookmarks_are_found_by_title_and_authors(
    query: Seq<char>,
    items: Seq<BookmarkSummary>,
)
    requires
        items.len() <= usize::MAX,
    ensures
        lists_exactly(
            visible_bookmarks(query, items),
            items.len() as int,
            |i: int|
                is_blank(query) || contains_text(
                    lowercase(items[i].paper_title@),
                    lowercase(trimmed(query)),
                ) || contains_text(lowercase(items[i].authors@), lowercase(trimmed(query))),
        ),
{
    lemma_picked_lists_exactly(
        Seq::new(items.len(), |i: int| bookmark_matches(query, items[i])),
        |i: int|
            is_blank(query) || contains_text(
                lowercase(items[i].paper_title@),
                lowercase(trimmed(query)),
            ) || contains_text(lowercase(items[i].authors@), lowercase(trimmed(query))),
    );
}

/// The authors page shows exactly the authors whose name holds the query.
pub proof fn law_authors_are_found_by_name(query: Seq<char>, items: Seq<AuthorSummary>)
    requires
        items.len() <= usize::MAX,
    ensures
        lists_exactly(
            visible_authors(query, items),
            items.len() as int,
            |i: int|
                is_blank(query) || contains_text(
                    lowercase(items[i].name@),
                    lowercase(trimmed(query)),
                ),
        ),
{
    lemma_picked_lists_exactly(
        Seq::new(items.len(), |i: int| author_matches(query, items[i])),
        |i: int|
            is_blank(query) || contains_text(lowercase(items[i].name@), lowercase(trimmed(query))),
    );
}

/// The collections page shows exactly the collections whose name holds the query
/// and, while something is searched for, behind them the papers of collections
/// whose title or authors hold it.
pub proof fn law_collections_are_found_by_name(app: App)
    ensures
        ({
            let query = app.workspace_search.query@;
            let (items, members) = (app.collections.items@, app.collections.members@);
            let shown = visible_collections(query, items);
            let found = visible_members(query, members);
            &&& lists_exactly(
                shown,
                items.len() as int,
                |i: int|
                    is_blank(query) || contains_text(
                        lowercase(items[i].name@),
                        lowercase(trimmed(query)),
                    ),
            )
            &&& lists_exactly(
                found,
                members.len() as int,
                |i: int|
                    !is_blank(query) && (contains_text(
                        lowercase(members[i].1.title@),
                        lowercase(trimmed(query)),
                    ) || contains_text(
                        lowercase(members[i].1.authors@),
                        lowercase(trimmed(query)),
                    )),
            )
            &&& collection_items(app).len() == shown.len() + found.len()
            &&& forall|k: int|
                0 <= k < shown.len() ==> collection_items(app)[k]
                    == CollectionSearchItem::Collection(shown[k])
            &&& forall|k: int|
                0 <= k < found.len() ==> collection_items(app)[shown.len() + k]
                    == CollectionSearchItem::Paper(found[k])
        }),
{
    let query = app.workspace_search.query@;
    let (items, members) = (app.collections.items@, app.collections.members@);
    assert(app.collections.items.len() == items.len());
    assert(app.collections.members.len() == members.len());
    lemma_picked_lists_exactly(
        Seq::new(items.len(), |i: int| collection_matches(query, items[i])),
        |i: int|
            is_blank(query) || contains_text(lowercase(items[i].name@), lowercase(trimmed(query))),
    );
    lemma_picked_lists_exactly(
        Seq::new(
            members.len(),
            |i: int| !is_blank(query) && paper_matches(query, members[i].1),
        ),
        |i: int|
            !is_blank(query) && (contains_text(
                lowercase(members[i].1.title@),
                lowercase(trimmed(query)),
            ) || contains_text(lowercase(members[i].1.authors@), lowercase(trimmed(query)))),
    );
}

/// The command palette offers exactly the pages whose title holds the query.
pub proof fn law_pages_are_found_by_title(query: Seq<char>)
    ensures
        lists_exactly(
            visible_pages(query),
            pages().len() as int,
            |i: int|
                is_blank(query) || contains_text(
                    lowercase(pages()[i].title_spec()),
                    lowercase(trimmed(query)),
                ),
        ),
{
    lemma_picked_lists_exactly(
        Seq::new(pages().len(), |i: int| page_matches(query, pages()[i])),
        |i: int|
            is_blank(query) || contains_text(
                lowercase(pages()[i].title_spec()),
                lowercase(trimmed(query)),
            ),
    );
}

} // verus!
