//! The daily feed of the dashboard.

use vstd::prelude::*;
use chrono::Datelike;
use crate::chars::{join, joined_with};
use crate::config_editor::message;
use crate::model::{opt_text, RemotePaper};
use crate::select::{clamp_selection, clamped_selection};
use crate::state::{App, DiscoveryStatus, TodayState};
use crate::text::same_text;

verus! {

/// How many candidates are fetched for each keyword.
pub const DASHBOARD_CANDIDATE_LIMIT: u16 = 30;

/// How many papers the feed shows.
pub const DASHBOARD_DISPLAY_LIMIT: usize = 10;

/// For how many days a paper of the feed is not shown again.
pub const DASHBOARD_REPEAT_EXCLUSION_DAYS: i32 = 7;

/// What identifies a feed made for some keywords, in the way feeds are made now.
pub open spec fn keyword_signature(keywords: Seq<String>) -> Seq<char> {
    "balanced-v3:"@ + joined_with(keywords, ","@)
}

/// What identifies a feed made for some keywords, in the way feeds are made now.
pub fn dashboard_keyword_signature(keywords: &Vec<String>) -> (r: String)
    ensures
        r@ == keyword_signature(keywords@),
{
    let list = join(keywords, ",");
    message("balanced-v3:", list.as_str())
}

/// The day that a text names in a format, as the number of days since the first of
/// January of the year 1, which is day 1; nothing where the text names none.
pub uninterp spec fn parsed_day(text: Seq<char>, format: Seq<char>) -> Option<i32>;

/// `chrono::NaiveDate::parse_from_str`: the day depends on the text and the format
/// alone. It is handed on as its number in the calendar.
#[verifier::external_body]
fn parse_day(text: &str, format: &str) -> (r: Option<i32>)
    ensures
        r == parsed_day(text@, format@),
{
    match chrono::NaiveDate::parse_from_str(text, format) {
        Ok(date) => Some(date.num_days_from_ce()),
        Err(_) => None,
    }
}

/// The text of a day, year first; nothing where the calendar does not reach.
pub uninterp spec fn day_text(day: i32) -> Option<Seq<char>>;

/// `chrono::NaiveDate::from_num_days_from_ce_opt`, written with `to_string`: the
/// text of the day with that number, which depends on the number alone. Parsing the
/// text as year, month and day gives the number back.
#[verifier::external_body]
fn write_day(day: i32) -> (r: Option<String>)
    ensures
        opt_text(r) == day_text(day),
        r matches Some(text) ==> parsed_day(text@, "%Y-%m-%d"@) == Some(day),
{
    chrono::NaiveDate::from_num_days_from_ce_opt(day).map(|date| date.to_string())
}

/// The first day whose papers are not shown again on `day`.
pub open spec fn cutoff_of(day: int) -> Option<Seq<char>> {
    if day - DASHBOARD_REPEAT_EXCLUSION_DAYS < i32::MIN {
        None
    } else {
        day_text((day - DASHBOARD_REPEAT_EXCLUSION_DAYS) as i32)
    }
}

/// The first day whose papers are not shown again on `day`; nothing where the
/// calendar does not reach.
pub fn repeat_cutoff(day: i32) -> (r: Option<String>)
    ensures
        opt_text(r) == cutoff_of(day as int),
        r matches Some(text) ==> parsed_day(text@, "%Y-%m-%d"@) == Some(
            (day - DASHBOARD_REPEAT_EXCLUSION_DAYS) as i32,
        ),
{
    if day < i32::MIN + DASHBOARD_REPEAT_EXCLUSION_DAYS {
        None
    } else {
        write_day(day - DASHBOARD_REPEAT_EXCLUSION_DAYS)
    }
}

/// The first day whose papers are not shown again in the feed of `feed_date`, or
/// of `today` where that is no date.
pub fn dashboard_cutoff(feed_date: &str, today: i32) -> (r: Option<String>)
    ensures
        opt_text(r) == cutoff_of(
            match parsed_day(feed_date@, "%Y-%m-%d"@) {
                Some(day) => day as int,
                None => today as int,
            },
        ),
        r matches Some(text) ==> parsed_day(text@, "%Y-%m-%d"@) == Some(
            (match parsed_day(feed_date@, "%Y-%m-%d"@) {
                Some(day) => day as int,
                None => today as int,
            } - DASHBOARD_REPEAT_EXCLUSION_DAYS) as i32,
        ),
{
    match parse_day(feed_date, "%Y-%m-%d") {
        Some(day) => repeat_cutoff(day),
        None => repeat_cutoff(today),
    }
}

/// Identifies one request for a feed. An answer counts only while both the day
/// and the keywords are still the same.
#[derive(Debug)]
pub struct DashboardFeedKey {
    pub feed_date: String,
    pub keyword_signature: String,
}

impl View for DashboardFeedKey {
    type V = (Seq<char>, Seq<char>);

    open spec fn view(&self) -> (Seq<char>, Seq<char>) {
        (self.feed_date@, self.keyword_signature@)
    }
}

impl DashboardFeedKey {
    fn same(&self, other: &DashboardFeedKey) -> (r: bool)
        ensures
            r == (self@ == other@),
    {
        same_text(self.feed_date.as_str(), other.feed_date.as_str()) && same_text(
            self.keyword_signature.as_str(),
            other.keyword_signature.as_str(),
        )
    }
}

/// The feed that the dashboard shows, and the request that is under way.
#[derive(Debug)]
pub struct Feed {
    pub keywords: Vec<String>,
    pub keyword_signature: String,
    pub date: String,
    pub active_fetch: Option<DashboardFeedKey>,
}

/// The request that is under way, by its view.
pub open spec fn fetch_view(key: Option<DashboardFeedKey>) -> Option<(Seq<char>, Seq<char>)> {
    match key {
        Some(key) => Some(key@),
        None => None,
    }
}

impl Feed {
    /// What identifies the feed.
    pub open spec fn key_view(self) -> (Seq<char>, Seq<char>) {
        (self.date@, self.keyword_signature@)
    }

    /// The signature is that of the keywords.
    pub open spec fn wf(self) -> bool {
        self.keyword_signature@ == keyword_signature(self.keywords@)
    }

    pub fn key(&self) -> (r: DashboardFeedKey)
        ensures
            r@ == self.key_view(),
    {
        DashboardFeedKey {
            feed_date: self.date.clone(),
            keyword_signature: self.keyword_signature.clone(),
        }
    }

    /// Whether an answer to a request still counts.
    pub fn accepts(&self, key: &DashboardFeedKey) -> (r: bool)
        ensures
            r == (key@ == self.key_view()),
    {
        same_text(key.feed_date.as_str(), self.date.as_str()) && same_text(
            key.keyword_signature.as_str(),
            self.keyword_signature.as_str(),
        )
    }

    /// Takes over other keywords, and tells whether they make another feed.
    pub fn set_keywords(&mut self, keywords: Vec<String>) -> (changed: bool)
        ensures
            final(self).wf(),
            *final(self) == (Feed {
                keywords,
                keyword_signature: final(self).keyword_signature,
                ..*old(self)
            }),
            changed == (final(self).keyword_signature@ != old(self).keyword_signature@),
    {
        let signature = dashboard_keyword_signature(&keywords);
        let changed = !same_text(signature.as_str(), self.keyword_signature.as_str());
        self.keywords = keywords;
        self.keyword_signature = signature;
        changed
    }

    /// Takes over another day, and tells whether it is one.
    pub fn set_date(&mut self, date: String) -> (changed: bool)
        ensures
            changed == (date@ != old(self).date@),
            !changed ==> *final(self) == *old(self),
            changed ==> *final(self) == (Feed { date, ..*old(self) }),
    {
        if same_text(date.as_str(), self.date.as_str()) {
            false
        } else {
            self.date = date;
            true
        }
    }
}

/// The feed at the start. A request is under way unless the feed of the day is
/// cached.
pub fn prepare_dashboard_feed(keywords: Vec<String>, date: String, cached: bool) -> (r: Feed)
    ensures
        r.wf(),
        r.keywords == keywords,
        r.date == date,
        fetch_view(r.active_fetch) == if cached {
            None
        } else {
            Some(r.key_view())
        },
{
    let keyword_signature = dashboard_keyword_signature(&keywords);
    let mut feed = Feed { keywords, keyword_signature, date, active_fetch: None };
    if !cached {
        feed.active_fetch = Some(feed.key());
    }
    feed
}

/// The feed shows `papers`, and the selection stays in it.
pub open spec fn feed_shown(t: TodayState, papers: Vec<RemotePaper>) -> TodayState {
    TodayState {
        papers,
        selected: clamped_selection(t.selected as int, papers@.len() as int) as usize,
        status: DiscoveryStatus::Ready,
    }
}

fn show_feed(t: &mut TodayState, papers: Vec<RemotePaper>)
    ensures
        *final(t) == feed_shown(*old(t), papers),
{
    t.selected = clamp_selection(t.selected, papers.len());
    t.papers = papers;
    t.status = DiscoveryStatus::Ready;
}

/// The answer to a request for a feed.
#[derive(Debug)]
pub struct TodayResponse {
    pub key: DashboardFeedKey,
    pub result: Result<Vec<RemotePaper>, String>,
}

/// What an answer does: one to another day or other keywords is dropped.
pub open spec fn feed_step(
    pre: App,
    feed: Feed,
    response: TodayResponse,
    post: App,
    feed2: Feed,
) -> bool {
    if response.key@ != feed.key_view() {
        post == pre && feed2 == feed
    } else {
        &&& feed2 == Feed { active_fetch: None, ..feed }
        &&& post == App {
            today: match response.result {
                Ok(papers) => feed_shown(pre.today, papers),
                Err(error) => TodayState { status: DiscoveryStatus::Error(error), ..pre.today },
            },
            ..pre
        }
    }
}

/// Takes an answer to a request for a feed.
pub fn apply_feed_response(app: &mut App, feed: &mut Feed, response: TodayResponse)
    ensures
        feed_step(*old(app), *old(feed), response, *final(app), *final(feed)),
        old(app).wf() ==> final(app).wf(),
{
    if !feed.accepts(&response.key) {
        return ;
    }
    feed.active_fetch = None;
    match response.result {
        Ok(papers) => show_feed(&mut app.today, papers),
        Err(error) => {
            app.today.status = DiscoveryStatus::Error(error);
        },
    }
}

/// An answer that was asked for on another day or with other keywords changes
/// nothing.
pub proof fn law_stale_feeds_are_dropped(
    pre: App,
    feed: Feed,
    response: TodayResponse,
    post: App,
    feed2: Feed,
)
    requires
        feed_step(pre, feed, response, post, feed2),
        response.key.feed_date@ != feed.date@ || response.key.keyword_signature@
            != feed.keyword_signature@,
    ensures
        post == pre,
        feed2 == feed,
{
}

/// What showing the feed anew does: a cached feed is shown, and otherwise one is
/// requested unless it is on its way.
pub open spec fn feed_refresh_step(
    pre: App,
    feed: Feed,
    cached: Option<Vec<RemotePaper>>,
    post: App,
    feed2: Feed,
    fetch: Option<DashboardFeedKey>,
) -> bool {
    match cached {
        Some(papers) => {
            &&& post == App { today: feed_shown(pre.today, papers), ..pre }
            &&& feed2 == Feed { active_fetch: None, ..feed }
            &&& fetch is None
        },
        None => {
            let under_way = fetch_view(feed.active_fetch) == Some(feed.key_view());
            &&& post == App {
                today: TodayState { status: DiscoveryStatus::Loading, ..pre.today },
                ..pre
            }
            &&& feed2 == Feed { active_fetch: feed2.active_fetch, ..feed }
            &&& fetch_view(feed2.active_fetch) == Some(feed.key_view())
            &&& fetch_view(fetch) == if under_way {
                None
            } else {
                Some(feed.key_view())
            }
        },
    }
}

/// Shows the feed anew. `cached` is the feed of the day and the keywords, where
/// there is one. The result is a request to be made.
pub fn refresh_dashboard_papers(
    app: &mut App,
    feed: &mut Feed,
    cached: Option<Vec<RemotePaper>>,
) -> (fetch: Option<DashboardFeedKey>)
    ensures
        feed_refresh_step(*old(app), *old(feed), cached, *final(app), *final(feed), fetch),
        old(app).wf() ==> final(app).wf(),
{
    match cached {
        Some(papers) => {
            show_feed(&mut app.today, papers);
            feed.active_fetch = None;
            None
        },
        None => {
            app.today.status = DiscoveryStatus::Loading;
            let key = feed.key();
            let under_way = match &feed.active_fetch {
                Some(active) => active.same(&key),
                None => false,
            };
            if under_way {
                None
            } else {
                feed.active_fetch = Some(feed.key());
                Some(key)
            }
        },
    }
}

/// A feed is not requested again while it is on its way.
pub proof fn law_feeds_are_requested_once(
    app0: App,
    feed0: Feed,
    app1: App,
    feed1: Feed,
    fetch1: Option<DashboardFeedKey>,
    app2: App,
    feed2: Feed,
    fetch2: Option<DashboardFeedKey>,
)
    requires
        feed_refresh_step(app0, feed0, None, app1, feed1, fetch1),
        feed_refresh_step(app1, feed1, None, app2, feed2, fetch2),
    ensures
        fetch2 is None,
{
}

/// Shows what the feed holds at the start: the cached papers, or that they are on
/// their way.
pub fn show_initial_feed(app: &mut App, cached: Option<Vec<RemotePaper>>)
    ensures
        *final(app) == (App {
            today: match cached {
                Some(papers) => TodayState {
                    papers,
                    status: DiscoveryStatus::Ready,
                    ..old(app).today
                },
                None => TodayState { status: DiscoveryStatus::Loading, ..old(app).today },
            },
            ..*old(app)
        }),
        old(app).wf() ==> final(app).wf(),
{
    match cached {
        Some(papers) => {
            app.today.papers = papers;
            app.today.status = DiscoveryStatus::Ready;
        },
        None => {
            app.today.status = DiscoveryStatus::Loading;
        },
    }
}

/// An answer to the request of the shown day and keywords shows its papers, with the selection
/// kept as far as they go, or says why there are none; the request is over either way.
pub proof fn law_feeds_show_their_answer(
    pre: App,
    feed: Feed,
    response: TodayResponse,
    post: App,
    feed2: Feed,
)
    requires
        feed_step(pre, feed, response, post, feed2),
        response.key.feed_date@ == feed.date@,
        response.key.keyword_signature@ == feed.keyword_signature@,
    ensures
        feed2.active_fetch is None,
        feed2.keywords == feed.keywords,
        feed2.date == feed.date,
        response.result matches Ok(papers) ==> {
            &&& post.today.papers == papers
            &&& post.today.status == DiscoveryStatus::Ready
            &&& pre.today.selected < papers@.len() ==> post.today.selected == pre.today.selected
            &&& pre.today.selected >= papers@.len() > 0 ==> post.today.selected == papers@.len() - 1
        },
        response.result matches Err(error) ==> {
            &&& post.today.papers == pre.today.papers
            &&& post.today.status == DiscoveryStatus::Error(error)
            &&& post.today.selected == pre.today.selected
        },
{
}

/// A cached feed is shown and nothing is requested; without one a request for the shown day
/// and keywords is made unless that very one is on its way.
pub proof fn law_feeds_are_requested_when_not_cached(
    pre: App,
    feed: Feed,
    cached: Option<Vec<RemotePaper>>,
    post: App,
    feed2: Feed,
    fetch: Option<DashboardFeedKey>,
)
    requires
        feed_refresh_step(pre, feed, cached, post, feed2, fetch),
    ensures
        cached matches Some(papers) ==> post.today.papers == papers && fetch is None
            && feed2.active_fetch is None && post.today.status == DiscoveryStatus::Ready,
        cached is None ==> post.today.papers == pre.today.papers && post.today.status
            == DiscoveryStatus::Loading,
        ({
            let under_way = feed.active_fetch is Some && feed.active_fetch->0.feed_date@
                == feed.date@ && feed.active_fetch->0.keyword_signature@ == feed.keyword_signature@;
            cached is None ==> (fetch is Some <==> !under_way)
        }),
        fetch matches Some(key) ==> key.feed_date@ == feed.date@ && key.keyword_signature@
            == feed.keyword_signature@,
{
}

/// Feeds for other keywords are other feeds: two lists with the same signature join to the
/// same text.
pub proof fn law_signatures_tell_keywords_apart(a: Seq<String>, b: Seq<String>)
    ensures
        keyword_signature(a) == keyword_signature(b) <==> joined_with(a, ","@) == joined_with(
            b,
            ","@,
        ),
{
    let head = "balanced-v3:"@;
    let (x, y) = (joined_with(a, ","@), joined_with(b, ","@));
    if keyword_signature(a) == keyword_signature(b) {
        assert((head + x).skip(head.len() as int) =~= x);
        assert((head + y).skip(head.len() as int) =~= y);
    }
}

/// Papers are not shown again for a week: the first day that counts is seven days back.
pub proof fn law_papers_are_not_repeated_for_a_week(day: int)
    requires
        i32::MIN + 7 <= day <= i32::MAX,
    ensures
        cutoff_of(day) == day_text((day - 7) as i32),
{
}

} // verus!
