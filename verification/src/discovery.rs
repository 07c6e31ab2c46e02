//! The online search: its results, their filter and pages, and its keys.

use vstd::prelude::*;
use crate::actions::UiAction;
use crate::chars::{
    blank, contains_text, decimal, decimal_text, is_blank, lowercase, trim, trimmed,
};
use crate::filters::{field_matches, matches_field};
use crate::keys::{KeyCode, KeyEvent};
use crate::model::{opt_text, RemotePaper};
use crate::select::{
    clamp_selection, clamped_selection, law_picked, lemma_picked_lists_exactly, lists_exactly, pick,
    picked,
};
use crate::state::{App, AppMode, DiscoveryState, DiscoveryStatus};
use crate::text::{
    boundary, boundary_above, boundary_after, boundary_before, boundary_below, byte_len,
    group_points, index, is_boundary, same_text, text_len,
};
use crate::text_edit::{
    buffer, edit_text, edited, edits, law_edit_keeps_cursor_valid,
    law_editing_keys_change_one_character,
};

verus! {

broadcast use group_points;

/// How many results a page of the results list shows.
pub const DISCOVERY_PAGE_SIZE: usize = 50;

/// A result passes the filter when that is blank or occurs in the title, the
/// abstract or the name of an author.
pub open spec fn remote_matches(filter: Seq<char>, paper: RemotePaper) -> bool {
    ||| is_blank(filter)
    ||| field_matches(filter, paper.title@)
    ||| field_matches(filter, paper.abstract_text@)
    ||| exists|i: int|
        0 <= i < paper.authors@.len() && field_matches(filter, #[trigger] paper.authors@[i]@)
}

/// The results that pass a filter, by index.
pub open spec fn visible_results(filter: Seq<char>, papers: Seq<RemotePaper>) -> Seq<usize> {
    picked(Seq::new(papers.len(), |i: int| remote_matches(filter, papers[i])))
}

/// The results that are shown, over all pages.
pub open spec fn shown_results(d: DiscoveryState) -> Seq<usize> {
    visible_results(d.filter@, d.results@)
}

/// How many results page `page` shows.
pub open spec fn page_len(count: int, page: int) -> int {
    let left = count - page * DISCOVERY_PAGE_SIZE;
    if left <= 0 {
        0
    } else if left < DISCOVERY_PAGE_SIZE {
        left
    } else {
        DISCOVERY_PAGE_SIZE as int
    }
}

/// The last page of `count` results.
pub open spec fn last_page(count: int) -> int {
    if count <= 0 {
        0
    } else {
        (count - 1) / (DISCOVERY_PAGE_SIZE as int)
    }
}

/// The selected result, by index.
pub open spec fn selected_result(d: DiscoveryState) -> Option<int> {
    let shown = shown_results(d);
    if d.selected < page_len(shown.len() as int, d.page as int) {
        Some(shown[d.page * DISCOVERY_PAGE_SIZE + d.selected] as int)
    } else {
        None
    }
}

/// The selected result is one of the results and passes the filter.
pub proof fn law_selected_result_is_visible(d: DiscoveryState)
    requires
        d.results@.len() <= usize::MAX,
    ensures
        selected_result(d) matches Some(i) ==> 0 <= i < d.results@.len() && remote_matches(
            d.filter@,
            d.results@[i],
        ),
{
    let mask = Seq::new(d.results@.len(), |i: int| remote_matches(d.filter@, d.results@[i]));
    law_picked(mask);
    if selected_result(d) is Some {
        let k = d.page * DISCOVERY_PAGE_SIZE + d.selected;
        assert(0 <= k < picked(mask).len());
        assert(mask[picked(mask)[k] as int]);
    }
}

fn passes_filter(filter: &str, paper: &RemotePaper) -> (r: bool)
    ensures
        r == remote_matches(filter@, *paper),
{
    if blank(filter) || matches_field(filter, paper.title.as_str()) || matches_field(
        filter,
        paper.abstract_text.as_str(),
    ) {
        return true;
    }
    let mut i: usize = 0;
    while i < paper.authors.len()
        invariant
            i <= paper.authors@.len(),
            forall|k: int| 0 <= k < i ==> !field_matches(filter@, #[trigger] paper.authors@[k]@),
        decreases paper.authors.len() - i,
    {
        if matches_field(filter, paper.authors[i].as_str()) {
            return true;
        }
        i = i + 1;
    }
    false
}

/// The state of a search that has just begun.
pub open spec fn search_begun(d: DiscoveryState, post: DiscoveryState) -> bool {
    &&& post == DiscoveryState {
        results: post.results,
        selected: 0,
        scroll: 0,
        page: 0,
        filter: post.filter,
        filter_cursor: 0,
        status: DiscoveryStatus::Loading,
        progress_message: None,
        next_batch_start: None,
        request_id: if d.request_id == u64::MAX { 0 } else { (d.request_id + 1) as u64 },
        ..d
    }
    &&& post.results@.len() == 0
    &&& post.filter@.len() == 0
}

/// The state with other results, on its first page and without a filter.
pub open spec fn results_set(
    d: DiscoveryState,
    papers: Seq<RemotePaper>,
    post: DiscoveryState,
) -> bool {
    &&& post == DiscoveryState {
        results: post.results,
        selected: 0,
        scroll: 0,
        page: 0,
        filter: post.filter,
        filter_cursor: 0,
        ..d
    }
    &&& post.results@ == papers
    &&& post.filter@.len() == 0
}

/// The state with other results, its filter kept and its selection kept as far
/// as the results go.
pub open spec fn results_updated(
    d: DiscoveryState,
    papers: Seq<RemotePaper>,
    post: DiscoveryState,
) -> bool {
    let count = visible_results(d.filter@, papers).len() as int;
    let page = if d.page <= last_page(count) { d.page as int } else { last_page(count) };
    &&& post == DiscoveryState {
        results: post.results,
        page: page as usize,
        selected: clamped_selection(d.selected as int, page_len(count, page)) as usize,
        ..d
    }
    &&& post.results@ == papers
}

impl DiscoveryState {
    /// The results that pass the filter, by index.
    pub fn filtered_results(&self) -> (r: Vec<usize>)
        ensures
            r@ == shown_results(*self),
            r@.len() <= self.results@.len(),
            forall|k: int| 0 <= k < r@.len() ==> (#[trigger] r@[k]) < self.results@.len(),
    {
        let mut mask: Vec<bool> = Vec::new();
        let mut i: usize = 0;
        while i < self.results.len()
            invariant
                i <= self.results@.len(),
                mask@.len() == i,
                forall|k: int|
                    0 <= k < i ==> mask@[k] == remote_matches(self.filter@, self.results@[k]),
            decreases self.results.len() - i,
        {
            mask.push(passes_filter(self.filter.as_str(), &self.results[i]));
            i = i + 1;
        }
        assert(mask@ =~= Seq::new(
            self.results@.len(),
            |i: int| remote_matches(self.filter@, self.results@[i]),
        ));
        pick(&mask)
    }

    /// How many results pass the filter.
    pub fn filtered_result_count(&self) -> (r: usize)
        ensures
            r == shown_results(*self).len(),
    {
        self.filtered_results().len()
    }

    /// How many results the current page shows.
    pub fn visible_page_len(&self) -> (r: usize)
        ensures
            r == page_len(shown_results(*self).len() as int, self.page as int),
            r <= DISCOVERY_PAGE_SIZE,
    {
        len_of_page(self.filtered_result_count(), self.page)
    }

    /// The results that the current page shows, by index.
    pub fn current_page_results(&self) -> (r: Vec<usize>)
        ensures
            ({
                let shown = shown_results(*self);
                let from = self.page * DISCOVERY_PAGE_SIZE;
                let len = page_len(shown.len() as int, self.page as int);
                r@ == if len == 0 {
                    Seq::empty()
                } else {
                    shown.subrange(from, from + len)
                }
            }),
            forall|k: int| 0 <= k < r@.len() ==> (#[trigger] r@[k]) < self.results@.len(),
    {
        let shown = self.filtered_results();
        let len: usize = len_of_page(shown.len(), self.page);
        let mut r: Vec<usize> = Vec::new();
        if len == 0 {
            assert(r@ =~= Seq::empty());
            return r;
        }
        let from: usize = self.page * DISCOVERY_PAGE_SIZE;
        let ghost part = shown@.subrange(from as int, from + len);
        let mut i: usize = 0;
        while i < len
            invariant
                i <= len,
                from + len <= shown@.len() <= usize::MAX,
                part == shown@.subrange(from as int, from + len),
                r@ == part.take(i as int),
            decreases len - i,
        {
            r.push(shown[from + i]);
            i = i + 1;
            assert(r@ =~= part.take(i as int));
        }
        assert(part.take(len as int) =~= part);
        r
    }

    /// The selected result.
    pub fn selected_paper(&self) -> (r: Option<&RemotePaper>)
        ensures
            r is Some == selected_result(*self) is Some,
            r matches Some(paper) ==> *paper == self.results@[selected_result(*self)->0],
    {
        let shown = self.filtered_results();
        let len: usize = len_of_page(shown.len(), self.page);
        if self.selected < len {
            let from: usize = self.page * DISCOVERY_PAGE_SIZE;
            Some(&self.results[shown[from + self.selected]])
        } else {
            None
        }
    }

    /// Shows the next page of results, if there is one.
    pub fn next_page(&mut self)
        ensures
            ({
                let count = shown_results(*old(self)).len() as int;
                *final(self) == if old(self).page < last_page(count) {
                    DiscoveryState {
                        page: (old(self).page + 1) as usize,
                        selected: 0,
                        scroll: 0,
                        ..*old(self)
                    }
                } else {
                    *old(self)
                }
            }),
    {
        let count: usize = self.filtered_result_count();
        if self.page < page_of_last(count) {
            self.page = self.page + 1;
            self.selected = 0;
            self.scroll = 0;
        }
    }

    /// Shows the page of results before, if there is one.
    pub fn previous_page(&mut self)
        ensures
            *final(self) == if old(self).page > 0 {
                DiscoveryState {
                    page: (old(self).page - 1) as usize,
                    selected: 0,
                    scroll: 0,
                    ..*old(self)
                }
            } else {
                *old(self)
            },
    {
        if self.page > 0 {
            self.page = self.page - 1;
            self.selected = 0;
            self.scroll = 0;
        }
    }

    /// Goes back to the first of the results after the filter has changed.
    pub fn rebuild_filter(&mut self)
        ensures
            *final(self) == (DiscoveryState { page: 0, selected: 0, scroll: 0, ..*old(self) }),
    {
        self.page = 0;
        self.selected = 0;
        self.scroll = 0;
    }

    /// Shows other results from their start, without a filter.
    pub fn set_results(&mut self, papers: Vec<RemotePaper>)
        ensures
            results_set(*old(self), papers@, *final(self)),
            boundary(final(self).filter@, final(self).filter_cursor as int),
    {
        self.results = papers;
        self.filter = String::new();
        self.filter_cursor = 0;
        self.rebuild_filter();
        proof {
            crate::text::lemma_ends(self.filter@);
        }
    }

    /// Shows other results, keeping the filter and the place in the list.
    pub fn update_results(&mut self, papers: Vec<RemotePaper>)
        ensures
            results_updated(*old(self), papers@, *final(self)),
    {
        self.results = papers;
        let count: usize = self.filtered_result_count();
        let last: usize = page_of_last(count);
        if self.page > last {
            self.page = last;
        }
        self.selected = clamp_selection(self.selected, len_of_page(count, self.page));
    }

    /// Begins a new search and gives it a number by which its answers are known.
    pub fn begin_search(&mut self) -> (request_id: u64)
        ensures
            search_begun(*old(self), *final(self)),
            request_id == final(self).request_id,
            boundary(final(self).filter@, final(self).filter_cursor as int),
    {
        self.request_id = self.request_id.wrapping_add(1);
        self.results = Vec::new();
        self.filter = String::new();
        self.filter_cursor = 0;
        self.rebuild_filter();
        self.status = DiscoveryStatus::Loading;
        self.progress_message = None;
        self.next_batch_start = None;
        proof {
            crate::text::lemma_ends(self.filter@);
        }
        self.request_id
    }
}

fn len_of_page(count: usize, page: usize) -> (r: usize)
    ensures
        r == page_len(count as int, page as int),
        r <= DISCOVERY_PAGE_SIZE,
        r > 0 ==> page * DISCOVERY_PAGE_SIZE + r <= count,
{
    let from: u128 = page as u128 * 50;
    if from >= count as u128 {
        return 0;
    }
    let left: usize = count - from as usize;
    if left < DISCOVERY_PAGE_SIZE {
        left
    } else {
        DISCOVERY_PAGE_SIZE
    }
}

fn page_of_last(count: usize) -> (r: usize)
    ensures
        r == last_page(count as int),
{
    if count == 0 {
        0
    } else {
        (count - 1) / DISCOVERY_PAGE_SIZE
    }
}

/// Only the query and its cursor changed, by an editing key.
pub open spec fn query_edited(pre: App, key: KeyEvent, post: App) -> bool {
    &&& post == App { discovery: post.discovery, ..pre }
    &&& query_edit_step(pre.discovery, key, post.discovery)
}

pub open spec fn query_edit_step(d: DiscoveryState, key: KeyEvent, post: DiscoveryState) -> bool {
    if boundary(d.query@, d.query_cursor as int) {
        &&& post == DiscoveryState { query: post.query, query_cursor: post.query_cursor, ..d }
        &&& edited(buffer(d.query@, d.query_cursor as int), key).held(
            post.query@,
            post.query_cursor as int,
        )
        &&& boundary(post.query@, post.query_cursor as int)
    } else {
        stray_cursor_step(d, key, post)
    }
}

/// A key that the search field takes even where its cursor is not between two
/// characters, as it can be once a search has cut the query short.
pub open spec fn works_anywhere(key: KeyEvent) -> bool {
    match key.code {
        KeyCode::Left | KeyCode::Right => !key.modifiers.control,
        KeyCode::Char(_) => key.modifiers.control,
        KeyCode::Backspace | KeyCode::Delete | KeyCode::Home | KeyCode::End | KeyCode::Up => false,
        _ => true,
    }
}

/// The search field can take the key.
pub open spec fn query_takes(d: DiscoveryState, key: KeyEvent) -> bool {
    boundary(d.query@, d.query_cursor as int) || works_anywhere(key)
}

/// What a key does where the cursor is not between two characters: Left and Right
/// bring it to the next place that is, as far as there is one.
pub open spec fn stray_cursor_step(d: DiscoveryState, key: KeyEvent, post: DiscoveryState) -> bool {
    &&& post == DiscoveryState { query_cursor: post.query_cursor, ..d }
    &&& match key.code {
        KeyCode::Left => boundary_below(d.query@, d.query_cursor as int, post.query_cursor as int),
        KeyCode::Right => if d.query_cursor < byte_len(d.query@) {
            boundary_above(d.query@, d.query_cursor as int, post.query_cursor as int)
        } else {
            post.query_cursor == d.query_cursor
        },
        _ => post.query_cursor == d.query_cursor,
    }
}

/// Whether the search field can take a key.
pub fn search_takes(d: &DiscoveryState, key: KeyEvent) -> (r: bool)
    ensures
        r == query_takes(*d, key),
{
    if is_boundary(d.query.as_str(), d.query_cursor) {
        return true;
    }
    match key.code {
        KeyCode::Left | KeyCode::Right => !key.modifiers.control,
        KeyCode::Char(_) => key.modifiers.control,
        KeyCode::Backspace | KeyCode::Delete | KeyCode::Home | KeyCode::End | KeyCode::Up => false,
        _ => true,
    }
}

/// What a key of the search field does.
pub open spec fn search_key_step(
    pre: App,
    key: KeyEvent,
    post: App,
    action: Option<UiAction>,
) -> bool {
    let d = pre.discovery;
    let control = key.modifiers.control;
    match key.code {
        KeyCode::Esc => post == App { mode: AppMode::Normal, ..pre } && action is None,
        KeyCode::Down => action is None && post == if d.results@.len() > 0 {
            App {
                mode: AppMode::Normal,
                discovery: DiscoveryState { selected: 0, ..d },
                ..pre
            }
        } else {
            pre
        },
        KeyCode::Right => if !control && d.query_cursor == byte_len(d.query@) && d.results@.len()
            > 0 {
            post == App {
                mode: AppMode::DiscoverFilter,
                discovery: DiscoveryState { filter_cursor: byte_len(d.filter@) as usize, ..d },
                ..pre
            } && action is None
        } else {
            query_edited(pre, key, post) && action is None
        },
        KeyCode::Left => if !control && d.query_cursor == 0 {
            post == App { mode: AppMode::Normal, content_focused: false, ..pre } && action is None
        } else {
            query_edited(pre, key, post) && action is None
        },
        KeyCode::Enter => if !is_blank(d.query@) {
            search_requested(App { mode: AppMode::Normal, ..pre }, post, action)
        } else {
            query_edited(pre, key, post) && action is None
        },
        _ => query_edited(pre, key, post) && action is None,
    }
}

/// The trimmed query is to be searched for, and stands in the search field.
pub open spec fn search_requested(pre: App, post: App, action: Option<UiAction>) -> bool {
    &&& post == App {
        discovery: DiscoveryState { query: post.discovery.query, ..pre.discovery },
        ..pre
    }
    &&& post.discovery.query@ == trimmed(pre.discovery.query@)
    &&& action matches Some(UiAction::Search(query)) && query@ == trimmed(pre.discovery.query@)
}

/// Asks for the trimmed query to be searched for.
pub fn request_search(app: &mut App) -> (action: Option<UiAction>)
    ensures
        search_requested(*old(app), *final(app), action),
{
    let query = trim(app.discovery.query.as_str());
    app.discovery.query = query.clone();
    Some(UiAction::Search(query))
}

fn edit_query(d: &mut DiscoveryState, key: KeyEvent)
    requires
        query_takes(*old(d), key),
    ensures
        query_edit_step(*old(d), key, *final(d)),
{
    if is_boundary(d.query.as_str(), d.query_cursor) {
        let _changed = edit_text(&mut d.query, &mut d.query_cursor, key);
        return ;
    }
    proof {
        crate::text::lemma_ends(d.query@);
    }
    if key.code == KeyCode::Left {
        d.query_cursor = boundary_before(d.query.as_str(), d.query_cursor);
    } else if key.code == KeyCode::Right && d.query_cursor < text_len(d.query.as_str()) {
        d.query_cursor = boundary_after(d.query.as_str(), d.query_cursor);
    }
}

/// Handles a key of the search field.
pub fn handle_search_key(app: &mut App, key: KeyEvent) -> (action: Option<UiAction>)
    requires
        query_takes(old(app).discovery, key),
    ensures
        search_key_step(*old(app), key, *final(app), action),
        old(app).wf() ==> final(app).wf(),
{
    let control = key.modifiers.control;
    match key.code {
        KeyCode::Esc => {
            app.mode = AppMode::Normal;
        },
        KeyCode::Down => {
            if app.discovery.results.len() > 0 {
                app.mode = AppMode::Normal;
                app.discovery.selected = 0;
            }
        },
        KeyCode::Right => {
            if !control && app.discovery.query_cursor == text_len(app.discovery.query.as_str())
                && app.discovery.results.len() > 0 {
                app.mode = AppMode::DiscoverFilter;
                app.discovery.filter_cursor = text_len(app.discovery.filter.as_str());
            } else {
                edit_query(&mut app.discovery, key);
            }
        },
        KeyCode::Left => {
            if !control && app.discovery.query_cursor == 0 {
                app.content_focused = false;
                app.mode = AppMode::Normal;
            } else {
                edit_query(&mut app.discovery, key);
            }
        },
        KeyCode::Enter => {
            if !blank(app.discovery.query.as_str()) {
                app.mode = AppMode::Normal;
                return request_search(app);
            } else {
                edit_query(&mut app.discovery, key);
            }
        },
        _ => edit_query(&mut app.discovery, key),
    }
    None
}

/// The filter was edited; a change goes back to the first of the results.
pub open spec fn filter_edited(pre: App, key: KeyEvent, post: App) -> bool {
    &&& post == App { discovery: post.discovery, ..pre }
    &&& filter_edit_step(pre.discovery, key, post.discovery)
}

pub open spec fn filter_edit_step(d: DiscoveryState, key: KeyEvent, post: DiscoveryState) -> bool {
    let b = buffer(d.filter@, d.filter_cursor as int);
    let changed = edits(b, key);
    &&& post == DiscoveryState {
        filter: post.filter,
        filter_cursor: post.filter_cursor,
        page: if changed { 0 } else { d.page },
        selected: if changed { 0 } else { d.selected },
        scroll: if changed { 0 } else { d.scroll },
        ..d
    }
    &&& edited(b, key).held(post.filter@, post.filter_cursor as int)
    &&& boundary(post.filter@, post.filter_cursor as int)
}

/// The focus is on the search field, its cursor at the end.
pub open spec fn search_focused(pre: App) -> App {
    App {
        mode: AppMode::Search,
        discovery: DiscoveryState {
            query_cursor: byte_len(pre.discovery.query@) as usize,
            ..pre.discovery
        },
        ..pre
    }
}

/// The focus is on the filter of the results, its cursor at the end.
pub open spec fn filter_focused(pre: App) -> App {
    App {
        mode: AppMode::DiscoverFilter,
        discovery: DiscoveryState {
            filter_cursor: byte_len(pre.discovery.filter@) as usize,
            ..pre.discovery
        },
        ..pre
    }
}

/// Puts the focus on the search field.
pub fn focus_search(app: &mut App)
    ensures
        *final(app) == search_focused(*old(app)),
        final(app).search_cursor_ok(),
        old(app).wf() ==> final(app).wf(),
{
    app.mode = AppMode::Search;
    app.discovery.query_cursor = text_len(app.discovery.query.as_str());
}

/// Puts the focus on the filter of the results.
pub fn focus_filter(app: &mut App)
    ensures
        *final(app) == filter_focused(*old(app)),
        old(app).wf() ==> final(app).wf(),
{
    app.mode = AppMode::DiscoverFilter;
    app.discovery.filter_cursor = text_len(app.discovery.filter.as_str());
}

/// What a key of the results' filter does.
pub open spec fn filter_key_step(pre: App, key: KeyEvent, post: App) -> bool {
    let d = pre.discovery;
    let control = key.modifiers.control;
    let normal = App { mode: AppMode::Normal, ..pre };
    if d.results@.len() == 0 || key.code == KeyCode::Char('>') {
        post == normal
    } else {
        match key.code {
            KeyCode::Esc => post == normal,
            KeyCode::Up => post == search_focused(pre),
            KeyCode::Down | KeyCode::Enter => post == App {
                discovery: DiscoveryState {
                    selected: clamped_selection(
                        d.selected as int,
                        page_len(shown_results(d).len() as int, d.page as int),
                    ) as usize,
                    ..d
                },
                ..normal
            },
            KeyCode::Left => if !control && d.filter_cursor == 0 {
                post == search_focused(pre)
            } else {
                filter_edited(pre, key, post)
            },
            KeyCode::Right => if !control && d.filter_cursor == byte_len(d.filter@) {
                post == normal
            } else {
                filter_edited(pre, key, post)
            },
            _ => filter_edited(pre, key, post),
        }
    }
}

fn edit_filter(d: &mut DiscoveryState, key: KeyEvent)
    requires
        boundary(old(d).filter@, old(d).filter_cursor as int),
    ensures
        filter_edit_step(*old(d), key, *final(d)),
{
    if edit_text(&mut d.filter, &mut d.filter_cursor, key) {
        d.rebuild_filter();
    }
}

/// Handles a key of the results' filter.
pub fn handle_discover_filter_key(app: &mut App, key: KeyEvent) -> (action: Option<UiAction>)
    requires
        boundary(old(app).discovery.filter@, old(app).discovery.filter_cursor as int),
    ensures
        action is None,
        filter_key_step(*old(app), key, *final(app)),
        old(app).wf() ==> final(app).wf(),
        old(app).search_cursor_ok() ==> final(app).search_cursor_ok(),
{
    if app.discovery.results.len() == 0 || key.code == KeyCode::Char('>') {
        app.mode = AppMode::Normal;
        return None;
    }
    let control = key.modifiers.control;
    match key.code {
        KeyCode::Esc => {
            app.mode = AppMode::Normal;
        },
        KeyCode::Up => focus_search(app),
        KeyCode::Down | KeyCode::Enter => {
            app.mode = AppMode::Normal;
            let len: usize = app.discovery.visible_page_len();
            app.discovery.selected = clamp_selection(app.discovery.selected, len);
        },
        KeyCode::Left => {
            if !control && app.discovery.filter_cursor == 0 {
                focus_search(app);
            } else {
                edit_filter(&mut app.discovery, key);
            }
        },
        KeyCode::Right => {
            if !control && app.discovery.filter_cursor == text_len(app.discovery.filter.as_str()) {
                app.mode = AppMode::Normal;
            } else {
                edit_filter(&mut app.discovery, key);
            }
        },
        _ => edit_filter(&mut app.discovery, key),
    }
    None
}

/// News of a running search.
#[allow(inconsistent_fields)]
#[derive(Debug)]
pub enum SearchUpdate {
    Partial { papers: Vec<RemotePaper>, next_start: Option<u16> },
    Retrying { attempt: u8, max_attempts: u8 },
    Complete(Vec<RemotePaper>),
    InitialFailure(String),
    PartialFailure { next_start: u16 },
}

/// An answer to a search, with the query and the number it was asked under.
#[derive(Debug)]
pub struct SearchResponse {
    pub query: String,
    pub request_id: u64,
    pub update: SearchUpdate,
}

/// Whether an answer belongs to the search that is shown.
pub open spec fn answers(d: DiscoveryState, query: Seq<char>, request_id: u64) -> bool {
    query == d.query@ && request_id == d.request_id
}

/// What an answer to the shown search makes of it.
pub open spec fn update_step(d: DiscoveryState, update: SearchUpdate, post: DiscoveryState) -> bool {
    match update {
        SearchUpdate::Partial { papers, next_start } => {
            &&& results_updated(
                DiscoveryState {
                    next_batch_start: next_start,
                    progress_message: post.progress_message,
                    status: DiscoveryStatus::Loading,
                    ..d
                },
                papers@,
                post,
            )
            &&& opt_text(post.progress_message) == if next_start is Some {
                Some("Loading more results..."@)
            } else {
                None
            }
        },
        SearchUpdate::Retrying { attempt, max_attempts } => {
            &&& post == DiscoveryState {
                progress_message: post.progress_message,
                status: DiscoveryStatus::Loading,
                ..d
            }
            &&& opt_text(post.progress_message) == Some(
                "Retrying more results ("@ + decimal(attempt as nat) + "/"@ + decimal(
                    max_attempts as nat,
                ) + ")..."@,
            )
        },
        SearchUpdate::Complete(papers) => results_updated(
            DiscoveryState {
                next_batch_start: None,
                progress_message: None,
                status: DiscoveryStatus::Ready,
                ..d
            },
            papers@,
            post,
        ),
        SearchUpdate::InitialFailure(error) => post == DiscoveryState {
            status: DiscoveryStatus::Error(error),
            ..d
        },
        SearchUpdate::PartialFailure { next_start } => {
            &&& post == DiscoveryState {
                next_batch_start: Some(next_start),
                progress_message: post.progress_message,
                status: DiscoveryStatus::Ready,
                ..d
            }
            &&& opt_text(post.progress_message) == Some(retry_message())
        },
    }
}

/// The message that offers to load the rest of the results again.
pub open spec fn retry_message() -> Seq<char> {
    "More results could not be loaded. Press r to retry."@
}

fn apply_update(d: &mut DiscoveryState, update: SearchUpdate)
    ensures
        update_step(*old(d), update, *final(d)),
{
    match update {
        SearchUpdate::Partial { papers, next_start } => {
            d.update_results(papers);
            d.next_batch_start = next_start;
            d.progress_message = match next_start {
                Some(_) => Some("Loading more results...".to_owned()),
                None => None,
            };
            d.status = DiscoveryStatus::Loading;
        },
        SearchUpdate::Retrying { attempt, max_attempts } => {
            let mut text = "Retrying more results (".to_owned();
            text.append(decimal_text(attempt as u128).as_str());
            text.append("/");
            text.append(decimal_text(max_attempts as u128).as_str());
            text.append(")...");
            d.progress_message = Some(text);
            d.status = DiscoveryStatus::Loading;
        },
        SearchUpdate::Complete(papers) => {
            d.update_results(papers);
            d.next_batch_start = None;
            d.progress_message = None;
            d.status = DiscoveryStatus::Ready;
        },
        SearchUpdate::InitialFailure(error) => {
            d.status = DiscoveryStatus::Error(error);
        },
        SearchUpdate::PartialFailure { next_start } => {
            d.next_batch_start = Some(next_start);
            d.progress_message = Some(
                "More results could not be loaded. Press r to retry.".to_owned(),
            );
            d.status = DiscoveryStatus::Ready;
        },
    }
}

/// Takes over an answer to a search; one that belongs to an earlier search is
/// dropped.
pub fn apply_search_response(app: &mut App, response: SearchResponse)
    ensures
        *final(app) == (App { discovery: final(app).discovery, ..*old(app) }),
        answers(old(app).discovery, response.query@, response.request_id) ==> update_step(
            old(app).discovery,
            response.update,
            final(app).discovery,
        ),
        !answers(old(app).discovery, response.query@, response.request_id) ==> *final(app)
            == *old(app),
{
    if same_text(response.query.as_str(), app.discovery.query.as_str()) && response.request_id
        == app.discovery.request_id {
        apply_update(&mut app.discovery, response.update);
    }
}

/// Takes over the answers that have come, in their order, and says whether
/// there were any.
pub fn process_search_updates(app: &mut App, responses: Vec<SearchResponse>) -> (changed: bool)
    ensures
        changed == (responses@.len() > 0),
        exists|states: Seq<App>| #[trigger]
            responses_applied(states, responses@) && states.first() == *old(app) && states.last()
                == *final(app),
{
    let ghost all = responses@;
    let ghost mut states: Seq<App> = seq![*app];
    let changed = responses.len() > 0;
    let mut rest = responses;
    while rest.len() > 0
        invariant
            states.len() >= 1,
            states.len() + rest@.len() == all.len() + 1,
            rest@ == all.skip(states.len() - 1),
            states.first() == *old(app),
            states.last() == *app,
            forall|k: int|
                0 <= k < states.len() - 1 ==> response_applied(
                    #[trigger] states[k],
                    all[k],
                    states[k + 1],
                ),
        decreases rest.len(),
    {
        let ghost before = states;
        let response = rest.remove(0);
        apply_search_response(app, response);
        proof {
            states = states.push(*app);
            assert(rest@ =~= all.skip(states.len() - 1));
            assert forall|k: int| 0 <= k < states.len() - 1 implies response_applied(
                #[trigger] states[k],
                all[k],
                states[k + 1],
            ) by {
                if k < before.len() - 1 {
                    assert(states[k] == before[k] && states[k + 1] == before[k + 1]);
                } else {
                    assert(states[k] == before.last());
                }
            }
        }
    }
    assert(responses_applied(states, all));
    changed
}

/// One answer was taken over or dropped.
pub open spec fn response_applied(pre: App, response: SearchResponse, post: App) -> bool {
    &&& post == App { discovery: post.discovery, ..pre }
    &&& if answers(pre.discovery, response.query@, response.request_id) {
        update_step(pre.discovery, response.update, post.discovery)
    } else {
        post == pre
    }
}

/// The states that the answers lead through, one after the other.
pub open spec fn responses_applied(states: Seq<App>, responses: Seq<SearchResponse>) -> bool {
    &&& states.len() == responses.len() + 1
    &&& forall|k: int|
        0 <= k < responses.len() ==> response_applied(
            #[trigger] states[k],
            responses[k],
            states[k + 1],
        )
}

/// An answer to an earlier search changes nothing.
pub proof fn law_stale_answers_are_dropped(pre: App, response: SearchResponse, post: App)
    requires
        response_applied(pre, response, post),
        response.request_id != pre.discovery.request_id || response.query@ != pre.discovery.query@,
    ensures
        post == pre,
{
}

/// No answer changes what was asked: the query, its number and the filter.
pub proof fn law_answers_keep_the_question(pre: App, response: SearchResponse, post: App)
    requires
        response_applied(pre, response, post),
    ensures
        post.discovery.query == pre.discovery.query,
        post.discovery.request_id == pre.discovery.request_id,
        post.discovery.filter == pre.discovery.filter,
{
}

/// The list of results shows exactly those that hold the filter, without regard to
/// case and to white space round the filter, in their title, their abstract or the
/// name of an author; all of them while the filter is blank.
pub proof fn law_results_are_found_in_title_abstract_and_authors(d: DiscoveryState)
    ensures
        ({
            let results = d.results@;
            let filter = lowercase(trimmed(d.filter@));
            lists_exactly(
                shown_results(d),
                results.len() as int,
                |i: int|
                    {
                        ||| is_blank(d.filter@)
                        ||| contains_text(lowercase(results[i].title@), filter)
                        ||| contains_text(lowercase(results[i].abstract_text@), filter)
                        ||| exists|a: int|
                            0 <= a < results[i].authors@.len() && contains_text(
                                lowercase((#[trigger] results[i].authors@[a])@),
                                filter,
                            )
                    },
            )
        }),
{
    let results = d.results@;
    let filter = lowercase(trimmed(d.filter@));
    assert(d.results.len() == results.len());
    lemma_picked_lists_exactly(
        Seq::new(results.len(), |i: int| remote_matches(d.filter@, results[i])),
        |i: int|
            {
                ||| is_blank(d.filter@)
                ||| contains_text(lowercase(results[i].title@), filter)
                ||| contains_text(lowercase(results[i].abstract_text@), filter)
                ||| exists|a: int|
                    0 <= a < results[i].authors@.len() && contains_text(
                        lowercase((#[trigger] results[i].authors@[a])@),
                        filter,
                    )
            },
    );
}

/// With a filter that is not blank, a result that lacks it in title, abstract and all
/// author names is never shown, and one that holds it in any of them always is.
pub proof fn law_filter_decides_what_is_shown(d: DiscoveryState, i: int)
    requires
        !is_blank(d.filter@),
        0 <= i < d.results@.len(),
    ensures
        ({
            let paper = d.results@[i];
            let filter = lowercase(trimmed(d.filter@));
            let held = contains_text(lowercase(paper.title@), filter) || contains_text(
                lowercase(paper.abstract_text@),
                filter,
            ) || exists|a: int|
                0 <= a < paper.authors@.len() && contains_text(
                    lowercase((#[trigger] paper.authors@[a])@),
                    filter,
                );
            shown_results(d).contains(i as usize) <==> held
        }),
{
    law_results_are_found_in_title_abstract_and_authors(d);
    assert(d.results.len() == d.results@.len());
    let mask = Seq::new(d.results@.len(), |k: int| remote_matches(d.filter@, d.results@[k]));
    law_picked(mask);
    if shown_results(d).contains(i as usize) {
        let k = choose|k: int| 0 <= k < shown_results(d).len() && shown_results(d)[k] == i as usize;
        assert(mask[picked(mask)[k] as int]);
    }
    if remote_matches(d.filter@, d.results@[i]) {
        assert(mask[i]);
    }
}

/// Page `page` shows the results from fifty times its number on, up to fifty of them,
/// as many as there are.
pub proof fn law_pages_hold_fifty_results(count: int, page: int, i: int)
    requires
        0 <= count,
        0 <= page,
    ensures
        0 <= page_len(count, page) <= 50,
        50 * page <= i < 50 * page + page_len(count, page) <==> 50 * page <= i < count && i < 50
            * page + 50,
{
}

/// The last page is the one that holds the last result: there is no other behind it.
pub proof fn law_last_page_holds_the_last_result(count: int)
    requires
        0 <= count,
    ensures
        0 <= last_page(count),
        count > 0 ==> 50 * last_page(count) <= count - 1 < 50 * last_page(count) + 50,
        count == 0 ==> last_page(count) == 0,
{
}

/// The selected result is the entry of the shown ones at its place on the page, and
/// there is one exactly while the selection is on the page.
pub proof fn law_selected_result_counts_from_the_page(d: DiscoveryState)
    ensures
        selected_result(d) is Some <==> d.selected < 50 && 50 * d.page + d.selected < shown_results(
            d,
        ).len(),
        selected_result(d) matches Some(i) ==> i == shown_results(d)[50 * d.page + d.selected],
{
}

/// A new search forgets the results, filter and place of the one before, keeps the
/// query, and never has the number of the one before.
pub proof fn law_searches_begin_afresh(d: DiscoveryState, post: DiscoveryState)
    requires
        search_begun(d, post),
    ensures
        post.results@.len() == 0,
        post.filter@.len() == 0,
        post.page == 0,
        post.selected == 0,
        post.query == d.query,
        post.query_cursor == d.query_cursor,
        post.next_batch_start is None,
        post.request_id != d.request_id,
        d.request_id < u64::MAX ==> post.request_id == d.request_id + 1,
{
}

/// Results that come in keep the place in the list where there is one still: the page
/// and the selection on it stay, or go to the last that there is.
pub proof fn law_more_results_keep_the_place(
    d: DiscoveryState,
    papers: Seq<RemotePaper>,
    post: DiscoveryState,
)
    requires
        results_updated(d, papers, post),
    ensures
        post.results@ == papers,
        post.filter == d.filter,
        post.query == d.query,
        ({
            let count = shown_results(post).len() as int;
            &&& 50 * d.page < count ==> post.page == d.page
            &&& 50 * d.page + d.selected < count && d.selected < 50 ==> post.selected == d.selected
            &&& count > 0 ==> 50 * post.page < count && post.selected < 50 && 50 * post.page
                + post.selected < count
            &&& count == 0 ==> post.page == 0 && post.selected == 0
        }),
{
    assert(post.results.len() == post.results@.len());
    law_picked(Seq::new(papers.len(), |k: int| remote_matches(d.filter@, papers[k])));
    let count = shown_results(post).len() as int;
    law_last_page_holds_the_last_result(count);
    if d.page > last_page(count) {
        assert(50 * d.page >= count);
    }
}

/// Other results are shown from their start, without a filter.
pub proof fn law_new_results_are_shown_from_the_start(
    d: DiscoveryState,
    papers: Seq<RemotePaper>,
    post: DiscoveryState,
)
    requires
        results_set(d, papers, post),
    ensures
        post.results@ == papers,
        is_blank(post.filter@),
        post.page == 0,
        post.selected == 0,
        post.scroll == 0,
        post.status == d.status,
{
}

/// Enter searches for the query, without the white space round it, exactly where there
/// is one, and leaves the field; Escape leaves it and asks for nothing.
pub proof fn law_enter_searches(pre: App, key: KeyEvent, post: App, action: Option<UiAction>)
    requires
        search_key_step(pre, key, post, action),
    ensures
        action is Some <==> key.code == KeyCode::Enter && !is_blank(pre.discovery.query@),
        action matches Some(a) ==> (a matches UiAction::Search(q) && q@ == trimmed(
            pre.discovery.query@,
        )) && post.mode == AppMode::Normal,
        key.code == KeyCode::Esc ==> post == (App { mode: AppMode::Normal, ..pre }),
        key.code == KeyCode::Down && pre.discovery.results@.len() > 0 ==> post.mode
            == AppMode::Normal && post.discovery.selected == 0,
        key.code == KeyCode::Down && pre.discovery.results@.len() == 0 ==> post == pre,
        post.discovery.results == pre.discovery.results,
        post.page == pre.page,
{
}

/// A character typed into the search field stands at its cursor, which moves behind it.
pub proof fn law_typing_edits_the_query(pre: App, key: KeyEvent, post: App, action: Option<UiAction>)
    requires
        search_key_step(pre, key, post, action),
        boundary(pre.discovery.query@, pre.discovery.query_cursor as int),
        key.code is Char || key.code == KeyCode::Backspace || key.code == KeyCode::Delete,
        !key.modifiers.control,
    ensures
        ({
            let t = pre.discovery.query@;
            let at = index(t, pre.discovery.query_cursor as int);
            let (u, to) = (
                post.discovery.query@,
                index(post.discovery.query@, post.discovery.query_cursor as int),
            );
            &&& key.code matches KeyCode::Char(c) ==> u == t.insert(at, c) && to == at + 1
            &&& key.code == KeyCode::Backspace && at > 0 ==> u == t.remove(at - 1) && to == at - 1
            &&& key.code == KeyCode::Delete && at < t.len() ==> u == t.remove(at) && to == at
        }),
        post.mode == pre.mode,
        action is None,
{
    let b = buffer(pre.discovery.query@, pre.discovery.query_cursor as int);
    law_editing_keys_change_one_character(b, key);
    law_edit_keeps_cursor_valid(b, key);
}

/// A character typed into the filter stands at its cursor, and the list goes back to
/// its start.
pub proof fn law_typing_edits_the_filter(pre: App, key: KeyEvent, post: App)
    requires
        filter_key_step(pre, key, post),
        pre.discovery.results@.len() > 0,
        boundary(pre.discovery.filter@, pre.discovery.filter_cursor as int),
        key.code is Char,
        key.code != KeyCode::Char('>'),
        !key.modifiers.control,
    ensures
        ({
            let t = pre.discovery.filter@;
            let at = index(t, pre.discovery.filter_cursor as int);
            &&& post.discovery.filter@ == t.insert(at, key.code->Char_0)
            &&& index(post.discovery.filter@, post.discovery.filter_cursor as int) == at + 1
        }),
        post.discovery.page == 0,
        post.discovery.selected == 0,
        post.mode == pre.mode,
        post.discovery.results == pre.discovery.results,
{
    let b = buffer(pre.discovery.filter@, pre.discovery.filter_cursor as int);
    law_editing_keys_change_one_character(b, key);
    law_edit_keeps_cursor_valid(b, key);
}

/// The keys round the filter: Up goes to the search field, Down, Enter and Escape to
/// the list, and `>` leaves the filter without being typed.
pub proof fn law_keys_leave_the_filter(pre: App, key: KeyEvent, post: App)
    requires
        filter_key_step(pre, key, post),
        pre.discovery.results@.len() > 0,
    ensures
        key.code == KeyCode::Up ==> post.mode == AppMode::Search && post.discovery.query_cursor
            == byte_len(pre.discovery.query@) as usize,
        key.code == KeyCode::Esc || key.code == KeyCode::Char('>') ==> post == (App {
            mode: AppMode::Normal,
            ..pre
        }),
        key.code == KeyCode::Down || key.code == KeyCode::Enter ==> post.mode == AppMode::Normal,
        post.discovery.query == pre.discovery.query,
        key.code == KeyCode::Up || key.code == KeyCode::Down || key.code == KeyCode::Enter
            || key.code == KeyCode::Esc || key.code == KeyCode::Char('>') ==> post.discovery.filter
            == pre.discovery.filter,
{
}

/// What an answer to the shown search brings: its results are shown, and the search is
/// over or goes on as the answer says; a failure keeps the results there are.
pub proof fn law_answers_bring_their_results(pre: App, response: SearchResponse, post: App)
    requires
        response_applied(pre, response, post),
        response.query@ == pre.discovery.query@,
        response.request_id == pre.discovery.request_id,
    ensures
        response.update matches SearchUpdate::Complete(papers) ==> post.discovery.results@
            == papers@ && post.discovery.status == DiscoveryStatus::Ready
            && post.discovery.next_batch_start is None && post.discovery.progress_message is None,
        response.update matches SearchUpdate::Partial { papers, next_start } ==> {
            &&& post.discovery.results@ == papers@
            &&& post.discovery.status == DiscoveryStatus::Loading
            &&& post.discovery.next_batch_start == next_start
        },
        response.update matches SearchUpdate::InitialFailure(error) ==> post.discovery.status
            == DiscoveryStatus::Error(error) && post.discovery.results == pre.discovery.results,
        response.update matches SearchUpdate::PartialFailure { next_start } ==> {
            &&& post.discovery.results == pre.discovery.results
            &&& post.discovery.status == DiscoveryStatus::Ready
            &&& post.discovery.next_batch_start == Some(next_start)
        },
        response.update is Retrying ==> post.discovery.results == pre.discovery.results
            && post.discovery.status == DiscoveryStatus::Loading,
{
}

} // verus!
