use papr::feed::{
    apply_feed_response, dashboard_cutoff, dashboard_keyword_signature, prepare_dashboard_feed,
    refresh_dashboard_papers, repeat_cutoff, show_initial_feed, DashboardFeedKey, TodayResponse,
};
use papr::fetch::{
    citation_fetch_step, fetch_step, retry_discover_more, CitationFetch, FetchState, FetchedPage,
};
use papr::discovery::SearchUpdate;
use papr::model::RemotePaper;
use papr::state::{App, DiscoveryStatus};

fn paper(id: &str) -> RemotePaper {
    RemotePaper {
        id: id.into(),
        title: id.into(),
        authors: Vec::new(),
        abstract_text: String::new(),
        published: 0,
        updated: 0,
        categories: Vec::new(),
        pdf_url: None,
        doi: None,
        journal_ref: None,
    }
}

#[test]
fn the_signature_names_the_keywords() {
    assert_eq!(dashboard_keyword_signature(&Vec::new()), "balanced-v3:");
    assert_eq!(
        dashboard_keyword_signature(&vec!["graphs".into(), "proofs".into()]),
        "balanced-v3:graphs,proofs"
    );
}

#[test]
fn papers_of_the_last_week_are_not_repeated() {
    assert_eq!(dashboard_cutoff("2026-03-05", 0).as_deref(), Some("2026-02-26"));
    assert_eq!(dashboard_cutoff("2024-03-01", 0).as_deref(), Some("2024-02-23"));
    // Day 730000 is the third of September 1999.
    assert_eq!(dashboard_cutoff("today", 730_000).as_deref(), Some("1999-08-27"));
    assert_eq!(repeat_cutoff(730_000).as_deref(), Some("1999-08-27"));
    assert!(repeat_cutoff(i32::MIN).is_none());
    assert!(repeat_cutoff(100_000_008).is_none());
}

#[test]
fn a_feed_is_requested_unless_it_is_cached() {
    let feed = prepare_dashboard_feed(vec!["a".into()], "2026-01-01".into(), false);
    let key = feed.active_fetch.unwrap();
    assert_eq!(key.feed_date, "2026-01-01");
    assert_eq!(key.keyword_signature, "balanced-v3:a");
    let cached = prepare_dashboard_feed(vec!["a".into()], "2026-01-01".into(), true);
    assert!(cached.active_fetch.is_none());
}

#[test]
fn answers_of_another_day_are_dropped() {
    let mut app = App::default();
    let mut feed = prepare_dashboard_feed(vec!["a".into()], "2026-01-02".into(), false);
    let stale = TodayResponse {
        key: DashboardFeedKey {
            feed_date: "2026-01-01".into(),
            keyword_signature: "balanced-v3:a".into(),
        },
        result: Ok(vec![paper("1")]),
    };
    apply_feed_response(&mut app, &mut feed, stale);
    assert!(app.today.papers.is_empty());
    assert!(feed.active_fetch.is_some());

    app.today.selected = 4;
    let key = feed.key();
    apply_feed_response(
        &mut app,
        &mut feed,
        TodayResponse { key, result: Ok(vec![paper("1"), paper("2")]) },
    );
    assert_eq!(app.today.papers.len(), 2);
    assert_eq!(app.today.selected, 1);
    assert!(matches!(app.today.status, DiscoveryStatus::Ready));
    assert!(feed.active_fetch.is_none());

    let key = feed.key();
    apply_feed_response(
        &mut app,
        &mut feed,
        TodayResponse { key, result: Err("offline".into()) },
    );
    assert!(matches!(&app.today.status, DiscoveryStatus::Error(error) if error == "offline"));
    assert_eq!(app.today.papers.len(), 2);
}

#[test]
fn a_feed_is_requested_once() {
    let mut app = App::default();
    let mut feed = prepare_dashboard_feed(Vec::new(), "2026-01-01".into(), true);
    assert!(feed.set_keywords(vec!["b".into()]));
    assert!(!feed.set_keywords(vec!["b".into()]));
    let fetch = refresh_dashboard_papers(&mut app, &mut feed, None).unwrap();
    assert_eq!(fetch.keyword_signature, "balanced-v3:b");
    assert!(matches!(app.today.status, DiscoveryStatus::Loading));
    assert!(refresh_dashboard_papers(&mut app, &mut feed, None).is_none());
    assert!(feed.set_date("2026-01-02".into()));
    assert!(!feed.set_date("2026-01-02".into()));
    assert!(refresh_dashboard_papers(&mut app, &mut feed, None).is_some());
    assert!(refresh_dashboard_papers(&mut app, &mut feed, Some(vec![paper("1")])).is_none());
    assert!(feed.active_fetch.is_none());
    assert_eq!(app.today.papers.len(), 1);
}

#[test]
fn the_first_feed_is_shown_as_it_is() {
    let mut app = App::default();
    show_initial_feed(&mut app, None);
    assert!(matches!(app.today.status, DiscoveryStatus::Loading));
    show_initial_feed(&mut app, Some(vec![paper("1")]));
    assert!(matches!(app.today.status, DiscoveryStatus::Ready));
}

#[test]
fn a_search_goes_from_page_to_page() {
    let start = FetchState { papers: Vec::new(), start: 0 };
    let page = FetchedPage { papers: vec![paper("1")], next_start: Some(100) };
    let (update, next) = fetch_step(start, Ok(page));
    assert!(matches!(
        update,
        SearchUpdate::Partial { papers, next_start: Some(100) } if papers.len() == 1
    ));
    let next = next.unwrap();
    assert_eq!(next.start, 100);
    let (update, next) = fetch_step(next, Err("timeout".into()));
    assert!(matches!(update, SearchUpdate::PartialFailure { next_start: 100 }));
    assert!(next.is_none());

    let empty = FetchState { papers: Vec::new(), start: 0 };
    let (update, _) = fetch_step(empty, Err("timeout".into()));
    assert!(matches!(update, SearchUpdate::InitialFailure(error) if error == "timeout"));

    let last = FetchState { papers: vec![paper("1")], start: 100 };
    let page = FetchedPage { papers: vec![paper("1"), paper("2")], next_start: None };
    let (update, next) = fetch_step(last, Ok(page));
    assert!(matches!(update, SearchUpdate::Complete(papers) if papers.len() == 2));
    assert!(next.is_none());
}

#[test]
fn a_citation_search_reports_its_end_only() {
    let page = FetchedPage { papers: vec![paper("1")], next_start: Some(100) };
    assert!(matches!(
        citation_fetch_step(Ok(page)),
        CitationFetch::Next(FetchState { start: 100, .. })
    ));
    let page = FetchedPage { papers: vec![paper("1")], next_start: None };
    assert!(matches!(citation_fetch_step(Ok(page)), CitationFetch::Done(Ok(papers)) if papers.len() == 1));
    assert!(matches!(citation_fetch_step(Err("x".into())), CitationFetch::Done(Err(_))));
}

#[test]
fn a_search_goes_on_where_it_failed() {
    let mut app = App::default();
    assert!(retry_discover_more(&mut app).is_none());
    app.discovery.query = "graphs".into();
    app.discovery.request_id = 3;
    app.discovery.results = vec![paper("1")];
    app.discovery.next_batch_start = Some(200);
    let search = retry_discover_more(&mut app).unwrap();
    assert_eq!(search.query, "graphs");
    assert_eq!(search.request_id, 3);
    assert_eq!(search.state.start, 200);
    assert_eq!(search.state.papers.len(), 1);
    assert_eq!(app.discovery.progress_message.as_deref(), Some("Loading more results..."));
    assert!(matches!(app.discovery.status, DiscoveryStatus::Loading));
}
