use govscout::api::{ApiResponse, FetchError, Opportunity, SearchParams, WindowResult, PAGE_SIZE};
use govscout::pager::{page_of, Outcome, Page, Pager, PagerMode};

fn blank_opportunity() -> Opportunity {
    Opportunity {
        notice_id: None,
        title: None,
        solicitation_number: None,
        department: None,
        sub_tier: None,
        office: None,
        full_parent_path_name: None,
        organization_type: None,
        opp_type: None,
        base_type: None,
        posted_date: None,
        response_deadline: None,
        archive_date: None,
        naics_code: None,
        classification_code: None,
        set_aside: None,
        set_aside_description: None,
        description: None,
        ui_link: None,
        resource_links: None,
        award: None,
        point_of_contact: None,
        place_of_performance: None,
        active: None,
    }
}

fn page(count: usize, total: u64) -> Result<Page, FetchError> {
    Ok(Page { count, total: Some(total) })
}

fn next(outcome: Outcome) -> Pager {
    match outcome {
        Outcome::Continue(pager) => pager,
        other => panic!("the pagination does not go on: {:?}", other),
    }
}

fn done(outcome: Outcome) -> WindowResult {
    match outcome {
        Outcome::Done(result) => result,
        other => panic!("the pagination is not over: {:?}", other),
    }
}

#[test]
fn page_of_counts_the_records() {
    let none = ApiResponse { total_records: None, opportunities_data: None };
    assert_eq!(page_of(&none), Page { count: 0, total: None });
    let two = ApiResponse {
        total_records: Some(7),
        opportunities_data: Some(vec![blank_opportunity(), blank_opportunity()]),
    };
    assert_eq!(page_of(&two), Page { count: 2, total: Some(7) });
}

#[test]
fn window_pager_asks_for_full_pages_of_the_window() {
    let pager = Pager::for_window("01/12/2025", "01/15/2025");
    assert_eq!(PAGE_SIZE, 1000);
    assert_eq!(pager.mode, PagerMode::Window);
    assert_eq!(pager.calls, 1);
    assert_eq!(pager.fetched, 0);
    assert_eq!(pager.request.limit, 1000);
    assert_eq!(pager.request.offset, 0);
    assert_eq!(pager.request.posted_from, "01/12/2025");
    assert_eq!(pager.request.posted_to, "01/15/2025");
    assert!(pager.request.title.is_none());
    assert!(pager.request.notice_id.is_none());
}

#[test]
fn pagination_stops_when_the_total_is_reached() {
    let pager = Pager::for_window("a", "b");
    let pager = next(pager.advance(page(1000, 3000)));
    assert_eq!((pager.request.offset, pager.fetched, pager.calls), (1000, 1000, 2));
    assert_eq!(pager.request.posted_from, "a");
    let pager = next(pager.advance(page(1000, 3000)));
    assert_eq!((pager.request.offset, pager.fetched, pager.calls), (2000, 2000, 3));
    let result = done(pager.advance(page(1000, 3000)));
    assert_eq!(
        result,
        WindowResult { records_fetched: 3000, api_calls: 3, rate_limited: false }
    );
}

#[test]
fn pagination_stops_at_a_short_page() {
    let pager = Pager::for_window("a", "b");
    let pager = next(pager.advance(page(1000, 5000)));
    let result = done(pager.advance(page(999, 5000)));
    assert_eq!(
        result,
        WindowResult { records_fetched: 1999, api_calls: 2, rate_limited: false }
    );
    // The first page may be the short one, and an empty page is short.
    let result = done(Pager::for_window("a", "b").advance(page(500, 5000)));
    assert_eq!(result, WindowResult { records_fetched: 500, api_calls: 1, rate_limited: false });
    let result = done(Pager::for_window("a", "b").advance(Ok(Page { count: 0, total: None })));
    assert_eq!(result, WindowResult { records_fetched: 0, api_calls: 1, rate_limited: false });
}

#[test]
fn window_reads_the_total_of_every_page() {
    let pager = Pager::for_window("a", "b");
    let pager = next(pager.advance(page(1000, 5000)));
    // The upstream now advertises less than was fetched.
    let result = done(pager.advance(page(1000, 1500)));
    assert_eq!(result.records_fetched, 2000);
    // A page that names no total counts as a total of zero.
    let result = done(Pager::for_window("a", "b").advance(Ok(Page { count: 1000, total: None })));
    assert_eq!(result.records_fetched, 1000);
}

#[test]
fn rate_limited_window_keeps_what_was_fetched() {
    let pager = Pager::for_window("a", "b");
    let pager = next(pager.advance(page(1000, 5000)));
    let pager = next(pager.advance(page(1000, 5000)));
    let result = done(pager.advance(Err(FetchError::RateLimited)));
    assert_eq!(
        result,
        WindowResult { records_fetched: 2000, api_calls: 3, rate_limited: true }
    );
    let result = done(Pager::for_window("a", "b").advance(Err(FetchError::RateLimited)));
    assert_eq!(result, WindowResult { records_fetched: 0, api_calls: 1, rate_limited: true });
}

#[test]
fn other_failures_are_handed_back() {
    let pager = next(Pager::for_window("a", "b").advance(page(1000, 5000)));
    match pager.advance(Err(FetchError::Transport { detail: "timed out".to_string() })) {
        Outcome::Failed(FetchError::Transport { detail }) => assert_eq!(detail, "timed out"),
        other => panic!("{:?}", other),
    }
}

#[test]
fn search_pager_keeps_the_filters_and_the_first_total() {
    let params = SearchParams {
        limit: 25,
        offset: 50,
        posted_from: "01/01/2025".to_string(),
        posted_to: "01/31/2025".to_string(),
        title: Some("cloud".to_string()),
        ptype: Some("o".to_string()),
        naics: None,
        state: Some("VA".to_string()),
        set_aside: None,
        notice_id: None,
    };
    let pager = Pager::for_search(&params);
    assert_eq!(pager.mode, PagerMode::Search);
    assert_eq!((pager.request.limit, pager.request.offset), (1000, 0));
    assert_eq!(pager.request.title.as_deref(), Some("cloud"));
    assert_eq!(pager.request.state.as_deref(), Some("VA"));
    let pager = next(pager.advance(page(1000, 2500)));
    assert_eq!(pager.advertised, Some(2500));
    assert_eq!(pager.request.offset, 1000);
    assert_eq!(pager.request.ptype.as_deref(), Some("o"));
    // A later page that advertises less does not end the search early.
    let pager = next(pager.advance(page(1000, 10)));
    let result = done(pager.advance(page(500, 2500)));
    assert_eq!(result.records_fetched, 2500);
}

#[test]
fn search_pager_hands_the_rate_limit_back() {
    let params = SearchParams {
        limit: 1,
        offset: 0,
        posted_from: String::new(),
        posted_to: String::new(),
        title: None,
        ptype: None,
        naics: None,
        state: None,
        set_aside: None,
        notice_id: None,
    };
    let pager = next(Pager::for_search(&params).advance(page(1000, 2500)));
    assert!(matches!(
        pager.advance(Err(FetchError::RateLimited)),
        Outcome::Failed(FetchError::RateLimited)
    ));
}

#[test]
fn pager_reports_what_its_counters_cannot_hold() {
    let mut pager = Pager::for_window("a", "b");
    pager.fetched = usize::MAX - 10;
    assert!(matches!(pager.advance(page(1000, u64::MAX)), Outcome::Overflow));
    let mut pager = Pager::for_window("a", "b");
    pager.request.offset = u32::MAX - 999;
    assert!(matches!(pager.advance(page(1000, u64::MAX)), Outcome::Overflow));
    let mut pager = Pager::for_window("a", "b");
    pager.request.offset = u32::MAX - 1000;
    let pager = next(pager.advance(page(1000, u64::MAX)));
    assert_eq!(pager.request.offset, u32::MAX);
}
