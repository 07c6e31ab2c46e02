//! Fetching the pages of an online search, one after the other.

use vstd::prelude::*;
use crate::discovery::SearchUpdate;
use crate::model::{RemotePaper, RemotePaperView};
use crate::state::{App, DiscoveryState, DiscoveryStatus};

verus! {

/// How many candidates a search looks at.
pub const DISCOVERY_CANDIDATE_LIMIT: u16 = 250;

/// How many results one request asks for.
pub const DISCOVERY_FETCH_BATCH_SIZE: u16 = 100;

/// How often a request is tried.
pub const DISCOVERY_PAGE_RETRY_ATTEMPTS: u8 = 3;

/// How long the first wait between two tries is, in milliseconds.
pub const DISCOVERY_PAGE_RETRY_BASE_DELAY_MS: u64 = 500;

/// What a list of papers holds.
pub open spec fn paper_views(papers: Seq<RemotePaper>) -> Seq<RemotePaperView> {
    papers.map_values(|p: RemotePaper| p@)
}

/// A copy of a list of papers.
pub fn clone_papers(papers: &Vec<RemotePaper>) -> (r: Vec<RemotePaper>)
    ensures
        paper_views(r@) == paper_views(papers@),
        r@.len() == papers@.len(),
{
    let mut r: Vec<RemotePaper> = Vec::new();
    let mut i: usize = 0;
    while i < papers.len()
        invariant
            i <= papers@.len(),
            r@.len() == i,
            forall|k: int| 0 <= k < i ==> (#[trigger] r@[k])@ == papers@[k]@,
        decreases papers.len() - i,
    {
        r.push(papers[i].clone());
        i = i + 1;
    }
    assert(paper_views(r@) =~= paper_views(papers@));
    r
}

/// How far a search has come: the results so far, and where the next page starts.
#[derive(Debug)]
pub struct FetchState {
    pub papers: Vec<RemotePaper>,
    pub start: u16,
}

/// The results up to the end of a page, and where the next one starts.
#[derive(Debug)]
pub struct FetchedPage {
    pub papers: Vec<RemotePaper>,
    pub next_start: Option<u16>,
}

/// What a page of a search leads to: the news for the page of results, and how
/// the search goes on.
pub open spec fn fetch_after(
    state: FetchState,
    page: Result<FetchedPage, String>,
    update: SearchUpdate,
    next: Option<FetchState>,
) -> bool {
    match page {
        Err(error) => {
            &&& update == if state.papers@.len() == 0 {
                SearchUpdate::InitialFailure(error)
            } else {
                SearchUpdate::PartialFailure { next_start: state.start }
            }
            &&& next is None
        },
        Ok(page) => match page.next_start {
            Some(start) => {
                &&& (update matches SearchUpdate::Partial { papers, next_start } && paper_views(
                    papers@,
                ) == paper_views(page.papers@) && next_start == Some(start))
                &&& next == Some(FetchState { papers: page.papers, start })
            },
            None => update == SearchUpdate::Complete(page.papers) && next is None,
        },
    }
}

/// Takes one page of a search, or why it could not be had.
pub fn fetch_step(state: FetchState, page: Result<FetchedPage, String>) -> (r: (
    SearchUpdate,
    Option<FetchState>,
))
    ensures
        fetch_after(state, page, r.0, r.1),
{
    match page {
        Err(error) => if state.papers.len() == 0 {
            (SearchUpdate::InitialFailure(error), None)
        } else {
            (SearchUpdate::PartialFailure { next_start: state.start }, None)
        },
        Ok(page) => match page.next_start {
            Some(start) => {
                let papers = clone_papers(&page.papers);
                (
                    SearchUpdate::Partial { papers, next_start: Some(start) },
                    Some(FetchState { papers: page.papers, start }),
                )
            },
            None => (SearchUpdate::Complete(page.papers), None),
        },
    }
}

/// A search that failed once it had results keeps them: the failure says where to
/// go on.
pub proof fn law_later_failures_keep_the_results(
    state: FetchState,
    error: String,
    update: SearchUpdate,
    next: Option<FetchState>,
)
    requires
        fetch_after(state, Err(error), update, next),
        state.papers@.len() > 0,
    ensures
        update == (SearchUpdate::PartialFailure { next_start: state.start }),
        next is None,
{
}

/// What a page of a search for citations leads to: the next page, or the result of
/// the whole search.
#[derive(Debug)]
pub enum CitationFetch {
    Next(FetchState),
    Done(Result<Vec<RemotePaper>, String>),
}

/// Takes one page of a search for citations, or why it could not be had.
pub fn citation_fetch_step(page: Result<FetchedPage, String>) -> (r: CitationFetch)
    ensures
        r == match page {
            Err(error) => CitationFetch::Done(Err(error)),
            Ok(page) => match page.next_start {
                Some(start) => CitationFetch::Next(FetchState { papers: page.papers, start }),
                None => CitationFetch::Done(Ok(page.papers)),
            },
        },
{
    match page {
        Err(error) => CitationFetch::Done(Err(error)),
        Ok(page) => match page.next_start {
            Some(start) => CitationFetch::Next(FetchState { papers: page.papers, start }),
            None => CitationFetch::Done(Ok(page.papers)),
        },
    }
}

/// A search that goes on where it failed.
#[derive(Debug)]
pub struct SearchContinuation {
    pub query: String,
    pub request_id: u64,
    pub state: FetchState,
}

/// Goes on with a search whose later pages could not be had.
pub fn retry_discover_more(app: &mut App) -> (r: Option<SearchContinuation>)
    ensures
        match old(app).discovery.next_batch_start {
            None => r is None && *final(app) == *old(app),
            Some(start) => {
                &&& *final(app) == (App {
                    discovery: DiscoveryState {
                        status: DiscoveryStatus::Loading,
                        progress_message: final(app).discovery.progress_message,
                        ..old(app).discovery
                    },
                    ..*old(app)
                })
                &&& crate::model::opt_text(final(app).discovery.progress_message) == Some(
                    "Loading more results..."@,
                )
                &&& r is Some
                &&& r->0.query@ == old(app).discovery.query@
                &&& r->0.request_id == old(app).discovery.request_id
                &&& r->0.state.start == start
                &&& paper_views(r->0.state.papers@) == paper_views(old(app).discovery.results@)
            },
        },
        old(app).wf() ==> final(app).wf(),
{
    let start: u16 = match app.discovery.next_batch_start {
        None => return None,
        Some(start) => start,
    };
    app.discovery.status = DiscoveryStatus::Loading;
    app.discovery.progress_message = Some("Loading more results...".to_owned());
    Some(
        SearchContinuation {
            query: app.discovery.query.clone(),
            request_id: app.discovery.request_id,
            state: FetchState { papers: clone_papers(&app.discovery.results), start },
        },
    )
}

/// A page that is not the last is shown as far as the results go, and the search goes on with
/// these results where the page says; the last one ends the search with all of them; a failure
/// ends it, and the first one says why.
pub proof fn law_searches_go_on_page_by_page(
    state: FetchState,
    page: Result<FetchedPage, String>,
    update: SearchUpdate,
    next: Option<FetchState>,
)
    requires
        fetch_after(state, page, update, next),
    ensures
        page matches Ok(fetched) ==> {
            &&& fetched.next_start matches Some(start) ==> next is Some && next->0.start == start
                && next->0.papers == fetched.papers && update is Partial
            &&& fetched.next_start is None ==> next is None && update == SearchUpdate::Complete(
                fetched.papers,
            )
        },
        page matches Err(error) ==> {
            &&& next is None
            &&& state.papers@.len() == 0 ==> update == SearchUpdate::InitialFailure(error)
            &&& state.papers@.len() > 0 ==> update == (SearchUpdate::PartialFailure {
                next_start: state.start,
            })
        },
        update matches SearchUpdate::Partial { papers, next_start } ==> (page matches Ok(fetched)
            && papers@.len() == fetched.papers@.len() && next_start == fetched.next_start && forall|
            i: int,
        |
            0 <= i < papers@.len() ==> (#[trigger] papers@[i])@ == fetched.papers@[i]@),
{
    if let Ok(fetched) = page {
        if let SearchUpdate::Partial { papers, next_start } = update {
            let (a, b) = (paper_views(papers@), paper_views(fetched.papers@));
            assert(a.len() == papers@.len() && b.len() == fetched.papers@.len());
            assert forall|i: int| 0 <= i < papers@.len() implies (#[trigger] papers@[i])@
                == fetched.papers@[i]@ by {
                assert(a[i] == b[i]);
            }
        }
    }
}

} // verus!
