//! The citation search of a project.

use vstd::prelude::*;
use crate::actions::UiAction;
use crate::chars::{
    blank, contains, contains_text, decimal, decimal_text, is_blank, lowercase, occurs_at,
    to_lowercase, trim, trimmed,
};
use crate::config_editor::message;
use crate::keys::{KeyCode, KeyEvent};
use crate::model::{opt_text, LibraryPaper, ProjectCitationResult, RemotePaper};
use crate::order::has_text;
use crate::select::{next_selection, previous_selection, select_next, select_previous};
use crate::state::{App, AppMode, CitationSearch, ProjectCitationSearchMode};
use crate::text::{boundary, group_points, same_text, to_chars};
use crate::text_edit::{buffer, edit_text, edited, edits, law_navigation_keeps_text};

verus! {

broadcast use group_points;

/// Whether the characters of `q` occur in `t` in their order.
pub open spec fn is_subsequence(q: Seq<char>, t: Seq<char>) -> bool
    decreases t.len(),
{
    if q.len() == 0 {
        true
    } else if t.len() == 0 {
        false
    } else if q[0] == t[0] {
        is_subsequence(q.drop_first(), t.drop_first())
    } else {
        is_subsequence(q, t.drop_first())
    }
}

fn subsequence(q: &str, t: &str) -> (r: bool)
    ensures
        r == is_subsequence(q@, t@),
{
    let a = to_chars(q);
    let b = to_chars(t);
    let mut i: usize = 0;
    let mut j: usize = 0;
    assert(a@.skip(0) =~= q@ && b@.skip(0) =~= t@);
    while i < a.len()
        invariant
            i <= a@.len(),
            j <= b@.len(),
            is_subsequence(q@, t@) == is_subsequence(a@.skip(i as int), b@.skip(j as int)),
        decreases b@.len() - j,
    {
        assert(a@.skip(i as int)[0] == a@[i as int]);
        if j >= b.len() {
            return false;
        }
        assert(b@.skip(j as int)[0] == b@[j as int]);
        assert(b@.skip(j as int).drop_first() =~= b@.skip(j + 1));
        if a[i] == b[j] {
            assert(a@.skip(i as int).drop_first() =~= a@.skip(i + 1));
            i = i + 1;
        }
        j = j + 1;
    }
    true
}

/// How well a paper matches a query in lower case: 2 for its title, 1 for its
/// authors, 0 for the query's letters in order, and nothing otherwise. An
/// empty query matches everything.
pub open spec fn citation_score(query: Seq<char>, paper: LibraryPaper) -> Option<int> {
    if query.len() == 0 {
        Some(0)
    } else if contains_text(lowercase(paper.title@), query) {
        Some(2)
    } else if contains_text(lowercase(paper.authors@), query) {
        Some(1)
    } else if is_subsequence(query, lowercase(paper.title@.push(' ') + paper.authors@)) {
        Some(0)
    } else {
        None
    }
}

fn score(query: &str, paper: &LibraryPaper) -> (r: Option<u8>)
    ensures
        r is Some == citation_score(query@, *paper) is Some,
        r matches Some(n) ==> n == citation_score(query@, *paper)->0 && n <= 2,
{
    if query.is_empty() {
        return Some(0);
    }
    if contains(to_lowercase(paper.title.as_str()).as_str(), query) {
        return Some(2);
    }
    if contains(to_lowercase(paper.authors.as_str()).as_str(), query) {
        return Some(1);
    }
    let mut both = paper.title.clone();
    both.push(' ');
    both.append(paper.authors.as_str());
    if subsequence(query, to_lowercase(both.as_str()).as_str()) {
        Some(0)
    } else {
        None
    }
}

/// The papers of one score, in their order.
pub open spec fn scored(papers: Seq<LibraryPaper>, query: Seq<char>, score: int) -> Seq<
    ProjectCitationResult,
>
    decreases papers.len(),
{
    if papers.len() == 0 {
        Seq::empty()
    } else {
        let before = scored(papers.drop_last(), query, score);
        if citation_score(query, papers.last()) == Some(score) {
            before.push(ProjectCitationResult::Local(papers.last()))
        } else {
            before
        }
    }
}

/// The results of a local search: the better matches first, papers of one
/// score in the order of the library.
pub open spec fn local_results(papers: Seq<LibraryPaper>, query: Seq<char>) -> Seq<
    ProjectCitationResult,
> {
    scored(papers, query, 2) + scored(papers, query, 1) + scored(papers, query, 0)
}

fn push_scored(
    results: &mut Vec<ProjectCitationResult>,
    papers: &Vec<LibraryPaper>,
    query: &str,
    wanted: u8,
)
    ensures
        final(results)@ == old(results)@ + scored(papers@, query@, wanted as int),
{
    let ghost before = results@;
    let mut i: usize = 0;
    assert(papers@.take(0) =~= Seq::<LibraryPaper>::empty());
    assert(before + Seq::<ProjectCitationResult>::empty() =~= before);
    while i < papers.len()
        invariant
            i <= papers@.len(),
            results@ == before + scored(papers@.take(i as int), query@, wanted as int),
        decreases papers.len() - i,
    {
        assert(papers@.take(i + 1).drop_last() =~= papers@.take(i as int));
        assert(papers@.take(i + 1).last() == papers@[i as int]);
        let found = match score(query, &papers[i]) {
            Some(n) => n == wanted,
            None => false,
        };
        if found {
            results.push(ProjectCitationResult::Local(papers[i].clone()));
        }
        i = i + 1;
        assert(results@ =~= before + scored(papers@.take(i as int), query@, wanted as int));
    }
    assert(papers@.take(papers@.len() as int) =~= papers@);
}

/// The search with the results of its query in the library.
pub open spec fn local_search_step(
    pre: CitationSearch,
    papers: Seq<LibraryPaper>,
    post: CitationSearch,
) -> bool {
    &&& post == CitationSearch {
        results: post.results,
        status: None,
        selected: 0,
        scroll: 0,
        ..pre
    }
    &&& post.results@ == local_results(papers, lowercase(pre.query@))
}

fn search_locally(search: &mut CitationSearch, papers: &Vec<LibraryPaper>)
    ensures
        local_search_step(*old(search), papers@, *final(search)),
{
    let query = to_lowercase(search.query.as_str());
    let mut results: Vec<ProjectCitationResult> = Vec::new();
    push_scored(&mut results, papers, query.as_str(), 2);
    push_scored(&mut results, papers, query.as_str(), 1);
    push_scored(&mut results, papers, query.as_str(), 0);
    assert(results@ =~= local_results(papers@, query@));
    search.results = results;
    search.status = None;
    search.selected = 0;
    search.scroll = 0;
}

/// Looks the query up in the library.
pub fn update_project_local_citation_results(app: &mut App)
    ensures
        *final(app) == (App { citation_search: final(app).citation_search, ..*old(app) }),
        local_search_step(
            old(app).citation_search,
            old(app).library.papers@,
            final(app).citation_search,
        ),
        old(app).wf() ==> final(app).wf(),
{
    search_locally(&mut app.citation_search, &app.library.papers);
}

/// The search after its query or its mode has changed: a local one has its
/// results at once, an online one waits for Enter.
pub open spec fn search_renewed(
    pre: CitationSearch,
    papers: Seq<LibraryPaper>,
    post: CitationSearch,
) -> bool {
    if pre.search_mode == ProjectCitationSearchMode::Local {
        local_search_step(pre, papers, post)
    } else {
        &&& post == CitationSearch {
            results: post.results,
            status: post.status,
            selected: 0,
            scroll: 0,
            ..pre
        }
        &&& post.results@.len() == 0
        &&& opt_text(post.status) == Some("Press Enter to search online."@)
    }
}

/// Renews the search after its query or its mode has changed.
pub fn renew_search(search: &mut CitationSearch, papers: &Vec<LibraryPaper>)
    ensures
        search_renewed(*old(search), papers@, *final(search)),
{
    if search.search_mode == ProjectCitationSearchMode::Local {
        search_locally(search, papers);
    } else {
        search.results.clear();
        search.selected = 0;
        search.scroll = 0;
        search.status = Some("Press Enter to search online.".to_owned());
    }
}

/// The query was edited; a change renews the search.
pub open spec fn citation_query_edited(
    pre: CitationSearch,
    papers: Seq<LibraryPaper>,
    key: KeyEvent,
    post: CitationSearch,
) -> bool {
    let b = buffer(pre.query@, pre.cursor as int);
    let typed = CitationSearch { query: post.query, cursor: post.cursor, ..pre };
    &&& edited(b, key).held(post.query@, post.cursor as int)
    &&& boundary(post.query@, post.cursor as int)
    &&& if edits(b, key) && edited(b, key).text != b.text {
        search_renewed(typed, papers, post)
    } else {
        post == typed
    }
}

fn edit_citation_query(search: &mut CitationSearch, papers: &Vec<LibraryPaper>, key: KeyEvent)
    requires
        boundary(old(search).query@, old(search).cursor as int),
    ensures
        citation_query_edited(*old(search), papers@, key, *final(search)),
{
    let before = search.query.clone();
    if edit_text(&mut search.query, &mut search.cursor, key) && !same_text(
        search.query.as_str(),
        before.as_str(),
    ) {
        renew_search(search, papers);
    }
}

/// What Enter asks for: the selected result to be inserted, or else an online
/// search to be made.
pub open spec fn citation_enter_step(
    pre: CitationSearch,
    post: CitationSearch,
    action: Option<UiAction>,
) -> bool {
    if pre.selected < pre.results@.len() {
        &&& post == pre
        &&& match pre.results@[pre.selected as int] {
            ProjectCitationResult::Local(paper) => action == Some(
                UiAction::InsertProjectCitation(paper),
            ),
            ProjectCitationResult::Online(paper) => action matches Some(
                UiAction::InsertProjectRemoteCitation(p),
            ) && p@ == paper@,
        }
    } else if pre.search_mode == ProjectCitationSearchMode::Local {
        post == pre && action is None
    } else {
        &&& post == CitationSearch { status: post.status, ..pre }
        &&& if is_blank(pre.query@) {
            opt_text(post.status) == Some("Enter keywords before searching online."@) && action
                is None
        } else {
            opt_text(post.status) == Some("Searching online…"@) && (action matches Some(
                UiAction::SearchProjectCitationsOnline(query),
            ) && query@ == trimmed(pre.query@))
        }
    }
}

fn enter(search: &mut CitationSearch) -> (action: Option<UiAction>)
    ensures
        citation_enter_step(*old(search), *final(search), action),
{
    if search.selected < search.results.len() {
        return match &search.results[search.selected] {
            ProjectCitationResult::Local(paper) => Some(
                UiAction::InsertProjectCitation(paper.clone()),
            ),
            ProjectCitationResult::Online(paper) => Some(
                UiAction::InsertProjectRemoteCitation(paper.clone()),
            ),
        };
    }
    if search.search_mode == ProjectCitationSearchMode::Online {
        if blank(search.query.as_str()) {
            search.status = Some("Enter keywords before searching online.".to_owned());
        } else {
            search.status = Some("Searching online…".to_owned());
            return Some(UiAction::SearchProjectCitationsOnline(trim(search.query.as_str())));
        }
    }
    None
}

/// The other mode of the search.
pub open spec fn other_mode(mode: ProjectCitationSearchMode) -> ProjectCitationSearchMode {
    match mode {
        ProjectCitationSearchMode::Local => ProjectCitationSearchMode::Online,
        ProjectCitationSearchMode::Online => ProjectCitationSearchMode::Local,
    }
}

/// What a key of the citation search does to it.
pub open spec fn citation_key_step(
    pre: CitationSearch,
    papers: Seq<LibraryPaper>,
    key: KeyEvent,
    post: CitationSearch,
    action: Option<UiAction>,
) -> bool {
    match key.code {
        KeyCode::Esc => {
            &&& post == CitationSearch {
                query: post.query,
                results: post.results,
                status: None,
                ..pre
            }
            &&& post.query@.len() == 0
            &&& post.results@.len() == 0
            &&& action is None
        },
        KeyCode::Tab => search_renewed(
            CitationSearch { search_mode: other_mode(pre.search_mode), ..pre },
            papers,
            post,
        ) && action is None,
        KeyCode::Up => post == CitationSearch {
            selected: previous_selection(pre.selected as int) as usize,
            ..pre
        } && action is None,
        KeyCode::Down => post == CitationSearch {
            selected: next_selection(pre.selected as int, pre.results@.len() as int) as usize,
            ..pre
        } && action is None,
        KeyCode::Enter => citation_enter_step(pre, post, action),
        _ => citation_query_edited(pre, papers, key, post) && action is None,
    }
}

fn citation_key(search: &mut CitationSearch, papers: &Vec<LibraryPaper>, key: KeyEvent) -> (action:
    Option<UiAction>)
    requires
        boundary(old(search).query@, old(search).cursor as int),
    ensures
        citation_key_step(*old(search), papers@, key, *final(search), action),
        key.code != KeyCode::Esc ==> boundary(final(search).query@, final(search).cursor as int),
{
    match key.code {
        KeyCode::Esc => {
            search.query = String::new();
            search.results.clear();
            search.status = None;
            None
        },
        KeyCode::Tab => {
            search.search_mode = match search.search_mode {
                ProjectCitationSearchMode::Local => ProjectCitationSearchMode::Online,
                ProjectCitationSearchMode::Online => ProjectCitationSearchMode::Local,
            };
            renew_search(search, papers);
            None
        },
        KeyCode::Up => {
            search.selected = select_previous(search.selected);
            None
        },
        KeyCode::Down => {
            search.selected = select_next(search.selected, search.results.len());
            None
        },
        KeyCode::Enter => enter(search),
        _ => {
            edit_citation_query(search, papers, key);
            None
        },
    }
}

/// Handles a key of the citation search; Escape closes it.
pub fn handle_project_citation_search_key(app: &mut App, key: KeyEvent) -> (action: Option<
    UiAction,
>)
    requires
        boundary(old(app).citation_search.query@, old(app).citation_search.cursor as int),
    ensures
        *final(app) == (App {
            citation_search: final(app).citation_search,
            mode: if key.code == KeyCode::Esc { AppMode::Normal } else { old(app).mode },
            ..*old(app)
        }),
        citation_key_step(
            old(app).citation_search,
            old(app).library.papers@,
            key,
            final(app).citation_search,
            action,
        ),
        old(app).wf() ==> final(app).wf(),
{
    if key.code == KeyCode::Esc {
        app.mode = AppMode::Normal;
    }
    citation_key(&mut app.citation_search, &app.library.papers, key)
}

/// The search as it opens: empty, in the library.
pub open spec fn citation_search_opened(pre: App, post: App) -> bool {
    &&& post == App {
        mode: AppMode::ProjectCitationSearch,
        citation_search: post.citation_search,
        ..pre
    }
    &&& post.citation_search.query@.len() == 0
    &&& local_search_step(
        CitationSearch {
            query: post.citation_search.query,
            cursor: 0,
            search_mode: ProjectCitationSearchMode::Local,
            ..pre.citation_search
        },
        pre.library.papers@,
        post.citation_search,
    )
}

/// Opens the citation search.
pub fn open_citation_search(app: &mut App)
    ensures
        citation_search_opened(*old(app), *final(app)),
        old(app).wf() ==> final(app).wf(),
{
    app.citation_search.query = String::new();
    app.citation_search.cursor = 0;
    app.citation_search.search_mode = ProjectCitationSearchMode::Local;
    proof {
        crate::text::lemma_ends(app.citation_search.query@);
    }
    search_locally(&mut app.citation_search, &app.library.papers);
    app.mode = AppMode::ProjectCitationSearch;
}

/// Whether the results of an online search are still wanted: the search is
/// open, online, and for the same query.
pub open spec fn online_answer_wanted(app: App, query: Seq<char>) -> bool {
    &&& app.mode == AppMode::ProjectCitationSearch
    &&& app.citation_search.search_mode == ProjectCitationSearchMode::Online
    &&& app.citation_search.query@ == query
}

/// The search with the results of an online search.
pub open spec fn online_answer_step(
    pre: CitationSearch,
    result: Result<Vec<RemotePaper>, String>,
    post: CitationSearch,
) -> bool {
    &&& post == CitationSearch {
        results: post.results,
        status: post.status,
        selected: 0,
        scroll: 0,
        ..pre
    }
    &&& match result {
        Ok(papers) => {
            &&& post.results@ == papers@.map_values(|p: RemotePaper| ProjectCitationResult::Online(p))
            &&& opt_text(post.status) == Some(
                if papers@.len() == 0 {
                    "No online papers found."@
                } else {
                    decimal(papers@.len()) + " online papers found"@
                },
            )
        },
        Err(error) => {
            &&& post.results@.len() == 0
            &&& opt_text(post.status) == Some("Online search failed: "@ + error@)
        },
    }
}

fn online_results(papers: Vec<RemotePaper>) -> (r: Vec<ProjectCitationResult>)
    ensures
        r@ == papers@.map_values(|p: RemotePaper| ProjectCitationResult::Online(p)),
{
    let ghost all = papers@;
    let mut rest = papers;
    let mut r: Vec<ProjectCitationResult> = Vec::new();
    while rest.len() > 0
        invariant
            r@.len() + rest@.len() == all.len(),
            rest@ == all.skip(r@.len() as int),
            forall|k: int| 0 <= k < r@.len() ==> r@[k] == ProjectCitationResult::Online(all[k]),
        decreases rest.len(),
    {
        let ghost n = r@.len() as int;
        let paper = rest.remove(0);
        assert(paper == all[n]);
        r.push(ProjectCitationResult::Online(paper));
        assert(rest@ =~= all.skip(r@.len() as int));
    }
    assert(r@ =~= all.map_values(|p: RemotePaper| ProjectCitationResult::Online(p)));
    r
}

fn take_online_answer(search: &mut CitationSearch, result: Result<Vec<RemotePaper>, String>)
    ensures
        online_answer_step(*old(search), result, *final(search)),
{
    match result {
        Ok(papers) => {
            let n: usize = papers.len();
            search.results = online_results(papers);
            search.status = Some(
                if n == 0 {
                    "No online papers found.".to_owned()
                } else {
                    let mut text = decimal_text(n as u128);
                    text.append(" online papers found");
                    text
                },
            );
        },
        Err(error) => {
            search.results.clear();
            search.status = Some(message("Online search failed: ", error.as_str()));
        },
    }
    search.selected = 0;
    search.scroll = 0;
}

/// Takes over the results of an online search, unless they are no longer
/// wanted.
pub fn apply_project_citation_search_result(
    app: &mut App,
    query: &str,
    result: Result<Vec<RemotePaper>, String>,
)
    ensures
        *final(app) == (App { citation_search: final(app).citation_search, ..*old(app) }),
        online_answer_wanted(*old(app), query@) ==> online_answer_step(
            old(app).citation_search,
            result,
            final(app).citation_search,
        ),
        !online_answer_wanted(*old(app), query@) ==> *final(app) == *old(app),
        old(app).wf() ==> final(app).wf(),
{
    if app.mode == AppMode::ProjectCitationSearch && app.citation_search.search_mode
        == ProjectCitationSearchMode::Online && same_text(
        app.citation_search.query.as_str(),
        query,
    ) {
        take_online_answer(&mut app.citation_search, result);
    }
}

/// Whether a citation is new to a bibliography: its key does not occur there.
pub fn is_new_citation(existing: &str, key: &str) -> (r: bool)
    ensures
        r == !contains_text(existing@, key@),
{
    !contains(existing, key)
}

/// How adding a citation to the bibliography went.
#[derive(Debug, Clone, Copy, PartialEq, Eq, Structural)]
pub enum CitationAdded {
    AlreadyThere,
    WriteFailed,
    Added,
}

/// The message about a citation.
pub open spec fn citation_message(key: Seq<char>, added: CitationAdded) -> Seq<char> {
    match added {
        CitationAdded::AlreadyThere => "Citation "@ + key + " already exists in references.bib"@,
        CitationAdded::WriteFailed => "Failed to write references.bib"@,
        CitationAdded::Added => "Added citation "@ + key + " to references.bib"@,
    }
}

/// The titles of the bibliography after a citation was added: its title in
/// lower case is among them, unless it is blank.
pub open spec fn titles_after(
    pre: Seq<String>,
    title: Seq<char>,
    added: CitationAdded,
    post: Seq<String>,
) -> bool {
    let name = lowercase(trimmed(title));
    if added == CitationAdded::Added && name.len() > 0 && !has_text(pre, name) {
        &&& post.len() == pre.len() + 1
        &&& post.drop_last() == pre
        &&& post.last()@ == name
    } else {
        post == pre
    }
}

fn holds_text(v: &Vec<String>, text: &str) -> (r: bool)
    ensures
        r == has_text(v@, text@),
{
    let mut i: usize = 0;
    while i < v.len()
        invariant
            i <= v@.len(),
            forall|k: int| 0 <= k < i ==> (#[trigger] v@[k])@ != text@,
        decreases v.len() - i,
    {
        if same_text(v[i].as_str(), text) {
            assert(v@[i as int]@ == text@);
            return true;
        }
        i = i + 1;
    }
    false
}

fn add_title(titles: &mut Vec<String>, title: &str)
    ensures
        titles_after(old(titles)@, title@, CitationAdded::Added, final(titles)@),
{
    let name = to_lowercase(trim(title).as_str());
    if !name.as_str().is_empty() && !holds_text(titles, name.as_str()) {
        let ghost before = titles@;
        titles.push(name);
        assert(titles@.drop_last() =~= before);
    }
}

/// Reports how adding a citation went and remembers its title.
pub fn apply_project_citation_ready(app: &mut App, key: &str, title: &str, added: CitationAdded)
    ensures
        *final(app) == (App {
            toast: final(app).toast,
            citation_search: CitationSearch {
                bib_titles: final(app).citation_search.bib_titles,
                ..old(app).citation_search
            },
            ..*old(app)
        }),
        opt_text(final(app).toast) == Some(citation_message(key@, added)),
        titles_after(
            old(app).citation_search.bib_titles@,
            title@,
            added,
            final(app).citation_search.bib_titles@,
        ),
        old(app).wf() ==> final(app).wf(),
{
    match added {
        CitationAdded::AlreadyThere => {
            let mut text = message("Citation ", key);
            text.append(" already exists in references.bib");
            app.toast = Some(text);
        },
        CitationAdded::WriteFailed => {
            app.toast = Some("Failed to write references.bib".to_owned());
        },
        CitationAdded::Added => {
            let mut text = message("Added citation ", key);
            text.append(" to references.bib");
            app.toast = Some(text);
            add_title(&mut app.citation_search.bib_titles, title);
        },
    }
}

/// The titles of a bibliography in lower case, without the blank ones.
pub open spec fn known_titles(titles: Seq<String>) -> Set<Seq<char>> {
    Set::new(
        |t: Seq<char>|
            t.len() > 0 && exists|i: int|
                0 <= i < titles.len() && t == lowercase(trimmed((#[trigger] titles[i])@)),
    )
}

/// The texts of a list.
pub open spec fn text_set(v: Seq<String>) -> Set<Seq<char>> {
    Set::new(|t: Seq<char>| has_text(v, t))
}

/// Remembers the titles that the bibliography of the project holds.
pub fn set_bib_titles(app: &mut App, titles: Vec<String>)
    ensures
        *final(app) == (App {
            citation_search: CitationSearch {
                bib_titles: final(app).citation_search.bib_titles,
                ..old(app).citation_search
            },
            ..*old(app)
        }),
        text_set(final(app).citation_search.bib_titles@) == known_titles(titles@),
        old(app).wf() ==> final(app).wf(),
{
    let mut known: Vec<String> = Vec::new();
    let mut i: usize = 0;
    while i < titles.len()
        invariant
            i <= titles@.len(),
            forall|t: Seq<char>|
                #[trigger] has_text(known@, t) == known_titles(titles@.take(i as int)).contains(t),
        decreases titles.len() - i,
    {
        let ghost before = known@;
        let ghost name = lowercase(trimmed(titles@[i as int]@));
        add_title(&mut known, titles[i].as_str());
        proof {
            let now = titles@.take(i + 1);
            let old_titles = titles@.take(i as int);
            assert forall|t: Seq<char>|
                #[trigger] has_text(known@, t) == known_titles(now).contains(t) by {
                lemma_title_added(before, titles@[i as int]@, known@, t);
                if known_titles(old_titles).contains(t) {
                    let k = choose|k: int|
                        0 <= k < old_titles.len() && t == lowercase(
                            trimmed((#[trigger] old_titles[k])@),
                        );
                    assert(now[k] == old_titles[k]);
                }
                if t.len() > 0 && t == name {
                    assert(now[i as int] == titles@[i as int]);
                }
                if known_titles(now).contains(t) {
                    let k = choose|k: int|
                        0 <= k < now.len() && t == lowercase(trimmed((#[trigger] now[k])@));
                    if k < i {
                        assert(old_titles[k] == now[k]);
                    }
                }
                assert(has_text(before, t) == known_titles(old_titles).contains(t));
            }
        }
        i = i + 1;
    }
    assert(titles@.take(titles@.len() as int) =~= titles@);
    assert(text_set(known@) =~= known_titles(titles@));
    app.citation_search.bib_titles = known;
}

proof fn lemma_title_added(pre: Seq<String>, title: Seq<char>, post: Seq<String>, t: Seq<char>)
    requires
        titles_after(pre, title, CitationAdded::Added, post),
    ensures
        has_text(post, t) == (has_text(pre, t) || t.len() > 0 && t == lowercase(trimmed(title))),
{
    let name = lowercase(trimmed(title));
    if name.len() > 0 && !has_text(pre, name) {
        assert(post =~= post.drop_last().push(post.last()));
        if has_text(pre, t) {
            let k = choose|k: int| 0 <= k < pre.len() && (#[trigger] pre[k])@ == t;
            assert(post[k] == pre[k]);
        }
        if t == name {
            assert(post[pre.len() as int]@ == t);
        }
        if has_text(post, t) {
            let k = choose|k: int| 0 <= k < post.len() && (#[trigger] post[k])@ == t;
            if k < pre.len() {
                assert(pre[k] == post[k]);
            }
        }
    }
}

/// The positions `at` name, in ascending order, the characters of `q` in `t`.
pub open spec fn embeds(at: Seq<int>, q: Seq<char>, t: Seq<char>) -> bool {
    &&& at.len() == q.len()
    &&& forall|k: int| 0 <= k < at.len() ==> 0 <= #[trigger] at[k] < t.len() && t[at[k]] == q[k]
    &&& forall|j: int, k: int| 0 <= j < k < at.len() ==> #[trigger] at[j] < #[trigger] at[k]
}

/// A text is found letter by letter exactly when its characters stand in the other
/// text in their order, with anything between them.
pub proof fn law_subsequence_keeps_the_order(q: Seq<char>, t: Seq<char>)
    ensures
        is_subsequence(q, t) <==> exists|at: Seq<int>| embeds(at, q, t),
    decreases t.len(),
{
    if q.len() == 0 {
        assert(embeds(Seq::empty(), q, t));
    } else if t.len() == 0 {
        assert forall|at: Seq<int>| !embeds(at, q, t) by {
            if embeds(at, q, t) {
                assert(0 <= at[0] < t.len());
            }
        }
    } else if q[0] == t[0] {
        let (q1, t1) = (q.drop_first(), t.drop_first());
        law_subsequence_keeps_the_order(q1, t1);
        if is_subsequence(q, t) {
            let at1 = choose|at: Seq<int>| embeds(at, q1, t1);
            let at = Seq::new(
                q.len(),
                |k: int|
                    if k == 0 {
                        0
                    } else {
                        at1[k - 1] + 1
                    },
            );
            assert forall|k: int| 0 <= k < at.len() implies 0 <= #[trigger] at[k] < t.len() && t[at[k]]
                == q[k] by {
                if k > 0 {
                    assert(0 <= at1[k - 1] < t1.len() && t1[at1[k - 1]] == q1[k - 1]);
                }
            }
            assert forall|j: int, k: int| 0 <= j < k < at.len() implies #[trigger] at[j]
                < #[trigger] at[k] by {
                assert(0 <= at1[k - 1]);
                if j > 0 {
                    assert(at1[j - 1] < at1[k - 1]);
                }
            }
            assert(embeds(at, q, t));
        }
        if exists|at: Seq<int>| embeds(at, q, t) {
            let at = choose|at: Seq<int>| embeds(at, q, t);
            let at1 = Seq::new(q1.len(), |k: int| at[k + 1] - 1);
            assert forall|k: int| 0 <= k < at1.len() implies 0 <= #[trigger] at1[k] < t1.len()
                && t1[at1[k]] == q1[k] by {
                assert(at[0] < at[k + 1]);
                assert(0 <= at[0]);
                assert(t[at[k + 1]] == q[k + 1]);
            }
            assert forall|j: int, k: int| 0 <= j < k < at1.len() implies #[trigger] at1[j]
                < #[trigger] at1[k] by {
                assert(at[j + 1] < at[k + 1]);
            }
            assert(embeds(at1, q1, t1));
        }
    } else {
        let t1 = t.drop_first();
        law_subsequence_keeps_the_order(q, t1);
        if is_subsequence(q, t) {
            let at1 = choose|at: Seq<int>| embeds(at, q, t1);
            let at = Seq::new(q.len(), |k: int| at1[k] + 1);
            assert forall|k: int| 0 <= k < at.len() implies 0 <= #[trigger] at[k] < t.len() && t[at[k]]
                == q[k] by {
                assert(0 <= at1[k] < t1.len() && t1[at1[k]] == q[k]);
            }
            assert forall|j: int, k: int| 0 <= j < k < at.len() implies #[trigger] at[j]
                < #[trigger] at[k] by {
                assert(at1[j] < at1[k]);
            }
            assert(embeds(at, q, t));
        }
        if exists|at: Seq<int>| embeds(at, q, t) {
            let at = choose|at: Seq<int>| embeds(at, q, t);
            let at1 = Seq::new(q.len(), |k: int| at[k] - 1);
            assert(t[at[0]] == q[0]);
            assert(0 <= at[0]);
            assert forall|k: int| 0 <= k < at1.len() implies 0 <= #[trigger] at1[k] < t1.len()
                && t1[at1[k]] == q[k] by {
                assert(t[at[k]] == q[k]);
                if k > 0 {
                    assert(at[0] < at[k]);
                }
            }
            assert forall|j: int, k: int| 0 <= j < k < at1.len() implies #[trigger] at1[j]
                < #[trigger] at1[k] by {
                assert(at[j] < at[k]);
            }
            assert(embeds(at1, q, t1));
        }
    }
}

/// The title of a paper holds the text, without regard to the case of the title.
pub open spec fn in_title(q: Seq<char>, paper: LibraryPaper) -> bool {
    contains_text(lowercase(paper.title@), q)
}

/// The authors of a paper hold the text, without regard to their case.
pub open spec fn in_authors(q: Seq<char>, paper: LibraryPaper) -> bool {
    contains_text(lowercase(paper.authors@), q)
}

/// The characters of the text stand in their order in the title and the authors.
pub open spec fn spread_over(q: Seq<char>, paper: LibraryPaper) -> bool {
    exists|at: Seq<int>| embeds(at, q, lowercase(paper.title@.push(' ') + paper.authors@))
}

/// Paper `a` of the library comes before paper `b` in the results: the title counts
/// more than the authors, these more than anything else, and between equals the
/// order of the library stays.
pub open spec fn comes_before(q: Seq<char>, papers: Seq<LibraryPaper>, a: int, b: int) -> bool {
    if in_title(q, papers[a]) != in_title(q, papers[b]) {
        in_title(q, papers[a])
    } else if !in_title(q, papers[a]) && in_authors(q, papers[a]) != in_authors(q, papers[b]) {
        in_authors(q, papers[a])
    } else {
        a < b
    }
}

/// The results are the papers that `order` names: every one that is found, no other,
/// each once, the better ones first.
pub open spec fn ranked(
    papers: Seq<LibraryPaper>,
    q: Seq<char>,
    order: Seq<int>,
    results: Seq<ProjectCitationResult>,
) -> bool {
    &&& results.len() == order.len()
    &&& forall|k: int|
        0 <= k < order.len() ==> 0 <= #[trigger] order[k] < papers.len() && results[k]
            == ProjectCitationResult::Local(papers[order[k]]) && (in_title(q, papers[order[k]])
            || in_authors(q, papers[order[k]]) || spread_over(q, papers[order[k]]))
    &&& forall|i: int|
        0 <= i < papers.len() && (in_title(q, #[trigger] papers[i]) || in_authors(q, papers[i])
            || spread_over(q, papers[i])) ==> order.contains(i)
    &&& forall|j: int, k: int|
        0 <= j < k < order.len() ==> comes_before(q, papers, #[trigger] order[j], #[trigger] order[k])
}

/// Where the papers of one score stand in the library.
spec fn scored_at(papers: Seq<LibraryPaper>, query: Seq<char>, score: int) -> Seq<int>
    decreases papers.len(),
{
    if papers.len() == 0 {
        Seq::empty()
    } else {
        let before = scored_at(papers.drop_last(), query, score);
        if citation_score(query, papers.last()) == Some(score) {
            before.push(papers.len() - 1)
        } else {
            before
        }
    }
}

proof fn lemma_scored_at(papers: Seq<LibraryPaper>, query: Seq<char>, score: int)
    ensures
        ({
            let at = scored_at(papers, query, score);
            let found = scored(papers, query, score);
            &&& found.len() == at.len()
            &&& forall|k: int|
                0 <= k < at.len() ==> 0 <= #[trigger] at[k] < papers.len() && found[k]
                    == ProjectCitationResult::Local(papers[at[k]]) && citation_score(
                    query,
                    papers[at[k]],
                ) == Some(score)
            &&& forall|i: int|
                0 <= i < papers.len() && citation_score(query, #[trigger] papers[i]) == Some(score)
                    ==> at.contains(i)
            &&& forall|j: int, k: int| 0 <= j < k < at.len() ==> #[trigger] at[j] < #[trigger] at[k]
        }),
    decreases papers.len(),
{
    if papers.len() > 0 {
        let less = papers.drop_last();
        lemma_scored_at(less, query, score);
        let before = scored_at(less, query, score);
        let at = scored_at(papers, query, score);
        let found = scored(papers, query, score);
        assert forall|k: int| 0 <= k < at.len() implies 0 <= #[trigger] at[k] < papers.len()
            && found[k] == ProjectCitationResult::Local(papers[at[k]]) && citation_score(
            query,
            papers[at[k]],
        ) == Some(score) by {
            if k < before.len() {
                assert(at[k] == before[k]);
                assert(less[before[k]] == papers[at[k]]);
            }
        }
        assert forall|i: int|
            0 <= i < papers.len() && citation_score(query, #[trigger] papers[i]) == Some(
                score,
            ) implies at.contains(i) by {
            if i < less.len() {
                assert(less[i] == papers[i]);
                assert(before.contains(i));
                let k = choose|k: int| 0 <= k < before.len() && before[k] == i;
                assert(at[k] == i);
            } else {
                assert(at.last() == i);
            }
        }
        assert forall|j: int, k: int| 0 <= j < k < at.len() implies #[trigger] at[j]
            < #[trigger] at[k] by {
            assert(at[j] == before[j]);
            if k < before.len() {
                assert(at[k] == before[k]);
            }
        }
    }
}

/// A score says where the text was found.
proof fn lemma_score(q: Seq<char>, paper: LibraryPaper)
    ensures
        citation_score(q, paper) is Some <==> in_title(q, paper) || in_authors(q, paper)
            || spread_over(q, paper),
        q.len() > 0 ==> (citation_score(q, paper) == Some(2int) <==> in_title(q, paper)),
        q.len() > 0 ==> (citation_score(q, paper) == Some(1int) <==> !in_title(q, paper)
            && in_authors(q, paper)),
        citation_score(q, paper) matches Some(n) ==> 0 <= n <= 2,
        q.len() == 0 ==> in_title(q, paper) && citation_score(q, paper) == Some(0int),
{
    law_subsequence_keeps_the_order(q, lowercase(paper.title@.push(' ') + paper.authors@));
    if q.len() == 0 {
        assert(lowercase(paper.title@).subrange(0, 0) =~= q);
        assert(occurs_at(lowercase(paper.title@), q, 0));
    }
}

/// The local search gives every paper of the library whose title or authors hold the
/// query, or whose title and authors hold its letters in order, and no other; the
/// papers found in their title come first, then those found in their authors, then
/// the rest, and among equals the order of the library stays.
pub proof fn law_local_search_ranks_the_papers(
    pre: CitationSearch,
    papers: Seq<LibraryPaper>,
    post: CitationSearch,
)
    requires
        local_search_step(pre, papers, post),
    ensures
        exists|order: Seq<int>| #[trigger]
            ranked(papers, lowercase(pre.query@), order, post.results@),
{
    let q = lowercase(pre.query@);
    lemma_scored_at(papers, q, 2);
    lemma_scored_at(papers, q, 1);
    lemma_scored_at(papers, q, 0);
    let (a2, a1, a0) = (scored_at(papers, q, 2), scored_at(papers, q, 1), scored_at(papers, q, 0));
    let order = a2 + a1 + a0;
    let results = post.results@;
    assert forall|k: int| 0 <= k < order.len() implies 0 <= #[trigger] order[k] < papers.len()
        && results[k] == ProjectCitationResult::Local(papers[order[k]]) && (in_title(
        q,
        papers[order[k]],
    ) || in_authors(q, papers[order[k]]) || spread_over(q, papers[order[k]])) by {
        if k < a2.len() {
            assert(order[k] == a2[k]);
        } else if k < a2.len() + a1.len() {
            assert(order[k] == a1[k - a2.len()]);
        } else {
            assert(order[k] == a0[k - a2.len() - a1.len()]);
        }
        lemma_score(q, papers[order[k]]);
    }
    assert forall|i: int|
        0 <= i < papers.len() && (in_title(q, #[trigger] papers[i]) || in_authors(q, papers[i])
            || spread_over(q, papers[i])) implies order.contains(i) by {
        lemma_score(q, papers[i]);
        let score = citation_score(q, papers[i])->0;
        if score == 2 {
            assert(a2.contains(i));
            let k = choose|k: int| 0 <= k < a2.len() && a2[k] == i;
            assert(order[k] == i);
        } else if score == 1 {
            assert(a1.contains(i));
            let k = choose|k: int| 0 <= k < a1.len() && a1[k] == i;
            assert(order[a2.len() + k] == i);
        } else {
            assert(a0.contains(i));
            let k = choose|k: int| 0 <= k < a0.len() && a0[k] == i;
            assert(order[a2.len() + a1.len() + k] == i);
        }
    }
    assert forall|j: int, k: int| 0 <= j < k < order.len() implies comes_before(
        q,
        papers,
        #[trigger] order[j],
        #[trigger] order[k],
    ) by {
        lemma_score(q, papers[order[j]]);
        lemma_score(q, papers[order[k]]);
        let (m2, m1) = (a2.len() as int, (a2.len() + a1.len()) as int);
        let sj: int = if j < m2 { 2 } else if j < m1 { 1 } else { 0 };
        let sk: int = if k < m2 { 2 } else if k < m1 { 1 } else { 0 };
        if j < m2 {
            assert(order[j] == a2[j]);
        } else if j < m1 {
            assert(order[j] == a1[j - m2]);
        } else {
            assert(order[j] == a0[j - m1]);
        }
        if k < m2 {
            assert(order[k] == a2[k]);
        } else if k < m1 {
            assert(order[k] == a1[k - m2]);
        } else {
            assert(order[k] == a0[k - m1]);
        }
        assert(citation_score(q, papers[order[j]]) == Some(sj));
        assert(citation_score(q, papers[order[k]]) == Some(sk));
    }
    assert(ranked(papers, q, order, results));
}

/// Every paper whose title or authors hold the query is among the results; one found
/// in its title stands before one that is not, and one found in its authors before
/// one found in neither.
pub proof fn law_local_search_finds_titles_and_authors(
    pre: CitationSearch,
    papers: Seq<LibraryPaper>,
    post: CitationSearch,
)
    requires
        local_search_step(pre, papers, post),
    ensures
        ({
            let q = lowercase(pre.query@);
            &&& forall|i: int|
                0 <= i < papers.len() && (contains_text(
                    lowercase((#[trigger] papers[i]).title@),
                    q,
                ) || contains_text(lowercase(papers[i].authors@), q)) ==> post.results@.contains(
                    ProjectCitationResult::Local(papers[i]),
                )
            &&& forall|j: int, k: int|
                0 <= j < k < post.results@.len() ==> match (
                    #[trigger] post.results@[j],
                    #[trigger] post.results@[k],
                ) {
                    (ProjectCitationResult::Local(a), ProjectCitationResult::Local(b)) => {
                        &&& contains_text(lowercase(b.title@), q) ==> contains_text(
                            lowercase(a.title@),
                            q,
                        )
                        &&& contains_text(lowercase(b.authors@), q) ==> contains_text(
                            lowercase(a.title@),
                            q,
                        ) || contains_text(lowercase(a.authors@), q)
                    },
                    _ => false,
                }
        }),
{
    let q = lowercase(pre.query@);
    law_local_search_ranks_the_papers(pre, papers, post);
    let order = choose|order: Seq<int>| #[trigger] ranked(papers, q, order, post.results@);
    assert forall|i: int|
        0 <= i < papers.len() && (contains_text(lowercase((#[trigger] papers[i]).title@), q)
            || contains_text(lowercase(papers[i].authors@), q)) implies post.results@.contains(
        ProjectCitationResult::Local(papers[i]),
    ) by {
        assert(in_title(q, papers[i]) || in_authors(q, papers[i]));
        assert(order.contains(i));
        let k = choose|k: int| 0 <= k < order.len() && order[k] == i;
        assert(post.results@[k] == ProjectCitationResult::Local(papers[order[k]]));
    }
    assert forall|j: int, k: int| 0 <= j < k < post.results@.len() implies match (
        #[trigger] post.results@[j],
        #[trigger] post.results@[k],
    ) {
        (ProjectCitationResult::Local(a), ProjectCitationResult::Local(b)) => {
            &&& contains_text(lowercase(b.title@), q) ==> contains_text(lowercase(a.title@), q)
            &&& contains_text(lowercase(b.authors@), q) ==> contains_text(lowercase(a.title@), q)
                || contains_text(lowercase(a.authors@), q)
        },
        _ => false,
    } by {
        assert(comes_before(q, papers, order[j], order[k]));
    }
}

/// A local search starts at its first result and says nothing.
pub proof fn law_local_search_starts_at_the_top(
    pre: CitationSearch,
    papers: Seq<LibraryPaper>,
    post: CitationSearch,
)
    requires
        local_search_step(pre, papers, post),
    ensures
        post.selected == 0,
        post.scroll == 0,
        post.status is None,
        post.query == pre.query,
        post.cursor == pre.cursor,
        post.search_mode == pre.search_mode,
{
}

/// Enter asks for the selected result to be inserted; with none selected, an online
/// search asks for the query, without the white space round it, and a local one for
/// nothing. The query and the results stay.
pub proof fn law_enter_inserts_the_selected_citation(
    pre: CitationSearch,
    papers: Seq<LibraryPaper>,
    key: KeyEvent,
    post: CitationSearch,
    action: Option<UiAction>,
)
    requires
        citation_key_step(pre, papers, key, post, action),
        key.code == KeyCode::Enter,
    ensures
        post.query == pre.query,
        post.results == pre.results,
        post.selected == pre.selected,
        pre.selected < pre.results@.len() ==> match pre.results@[pre.selected as int] {
            ProjectCitationResult::Local(paper) => action == Some(
                UiAction::InsertProjectCitation(paper),
            ),
            ProjectCitationResult::Online(paper) => action matches Some(
                UiAction::InsertProjectRemoteCitation(p),
            ) && p@ == paper@,
        },
        pre.selected >= pre.results@.len() && pre.search_mode == ProjectCitationSearchMode::Local
            ==> action is None,
        pre.selected >= pre.results@.len() && pre.search_mode == ProjectCitationSearchMode::Online
            ==> (action is Some <==> !is_blank(pre.query@)),
        action matches Some(UiAction::SearchProjectCitationsOnline(q)) ==> q@ == trimmed(pre.query@)
            && pre.search_mode == ProjectCitationSearchMode::Online,
{
}

/// Up and Down move the selection of the citation search by one result as far as
/// there is one; Tab changes between the library and the online search; no key but
/// Enter asks for anything.
pub proof fn law_citation_search_keys(
    pre: CitationSearch,
    papers: Seq<LibraryPaper>,
    key: KeyEvent,
    post: CitationSearch,
    action: Option<UiAction>,
)
    requires
        citation_key_step(pre, papers, key, post, action),
    ensures
        key.code != KeyCode::Enter ==> action is None,
        key.code == KeyCode::Up ==> post == (CitationSearch { selected: post.selected, ..pre }),
        key.code == KeyCode::Up && pre.selected > 0 ==> post.selected == pre.selected - 1,
        key.code == KeyCode::Up && pre.selected == 0 ==> post.selected == 0,
        key.code == KeyCode::Down ==> post == (CitationSearch { selected: post.selected, ..pre }),
        key.code == KeyCode::Down && pre.selected + 1 < pre.results@.len() ==> post.selected
            == pre.selected + 1,
        key.code == KeyCode::Down && pre.selected + 1 == pre.results@.len() ==> post.selected
            == pre.selected,
        key.code == KeyCode::Tab ==> post.search_mode != pre.search_mode && post.query == pre.query,
        key.code != KeyCode::Tab ==> post.search_mode == pre.search_mode,
        key.code == KeyCode::Esc ==> post.query@.len() == 0 && post.results@.len() == 0
            && post.status is None,
{
    assert(pre.results.len() == pre.results@.len());
}

/// A key that changes the query of a local search looks the new query up at once, and
/// one of an online search drops the results, which are no longer those of the query.
pub proof fn law_typing_renews_the_search(
    pre: CitationSearch,
    papers: Seq<LibraryPaper>,
    key: KeyEvent,
    post: CitationSearch,
)
    requires
        boundary(pre.query@, pre.cursor as int),
        citation_query_edited(pre, papers, key, post),
        post.query@ != pre.query@,
    ensures
        pre.search_mode == ProjectCitationSearchMode::Local ==> exists|order: Seq<int>| #[trigger]
            ranked(papers, lowercase(post.query@), order, post.results@),
        pre.search_mode == ProjectCitationSearchMode::Online ==> post.results@.len() == 0,
        post.selected == 0,
{
    let typed = CitationSearch { query: post.query, cursor: post.cursor, ..pre };
    let b = buffer(pre.query@, pre.cursor as int);
    if !edits(b, key) {
        law_navigation_keeps_text(b, key);
    }
    if pre.search_mode == ProjectCitationSearchMode::Local {
        law_local_search_ranks_the_papers(typed, papers, post);
    }
}

/// The results of an online search are the papers that came, in their order.
pub proof fn law_online_results_keep_their_order(
    pre: CitationSearch,
    result: Result<Vec<RemotePaper>, String>,
    post: CitationSearch,
)
    requires
        online_answer_step(pre, result, post),
    ensures
        result matches Ok(papers) ==> post.results@.len() == papers@.len() && forall|i: int|
            0 <= i < papers@.len() ==> post.results@[i] == ProjectCitationResult::Online(
                #[trigger] papers@[i],
            ),
        result is Err ==> post.results@.len() == 0,
        post.status is Some,
        post.selected == 0,
        post.query == pre.query,
{
}

/// The titles of the bibliography only ever grow, by the title of a citation that was
/// added and is neither blank nor there already.
pub proof fn law_bibliography_titles_grow(
    pre: Seq<String>,
    title: Seq<char>,
    added: CitationAdded,
    post: Seq<String>,
)
    requires
        titles_after(pre, title, added, post),
    ensures
        forall|t: Seq<char>| has_text(pre, t) ==> #[trigger] has_text(post, t),
        forall|t: Seq<char>| #[trigger]
            has_text(post, t) ==> has_text(pre, t) || added == CitationAdded::Added && t
                == lowercase(trimmed(title)),
        added == CitationAdded::Added && lowercase(trimmed(title)).len() > 0 ==> has_text(
            post,
            lowercase(trimmed(title)),
        ),
        added != CitationAdded::Added ==> post == pre,
{
    let name = lowercase(trimmed(title));
    if added == CitationAdded::Added && name.len() > 0 && !has_text(pre, name) {
        assert forall|t: Seq<char>| has_text(pre, t) implies #[trigger] has_text(post, t) by {
            let i = choose|i: int| 0 <= i < pre.len() && pre[i]@ == t;
            assert(post.drop_last()[i] == post[i]);
        }
        assert forall|t: Seq<char>| #[trigger] has_text(post, t) implies has_text(pre, t) || t
            == name by {
            let i = choose|i: int| 0 <= i < post.len() && post[i]@ == t;
            if i < pre.len() {
                assert(post.drop_last()[i] == post[i]);
            }
        }
        assert(post[post.len() - 1]@ == name);
    }
}

} // verus!
