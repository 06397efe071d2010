//! Pagination: which pages of a result set are fetched, and when fetching
//! stops.
//!
//! A [`Pager`] holds the request that is due and the running counts. Whoever
//! talks to the network sends that request and hands the reply to
//! [`Pager::advance`], which says whether another page is due.

use vstd::prelude::*;
use crate::api::{ApiResponse, FetchError, SearchParams, SearchParamsView, WindowResult, PAGE_SIZE};
use crate::text::copy_opt;

verus! {

/// What the pager reads of one page: how many records it holds and the total
/// that the upstream advertises with it.
#[derive(Debug, Clone, Copy, PartialEq, Eq, Structural)]
pub struct Page {
    pub count: usize,
    pub total: Option<u64>,
}

/// The number of records a response holds: none where it has no record array.
pub open spec fn record_count(response: ApiResponse) -> nat {
    match response.opportunities_data {
        Some(records) => records@.len(),
        None => 0,
    }
}

/// Reads the counts of one response.
pub fn page_of(response: &ApiResponse) -> (page: Page)
    ensures
        page.count == record_count(*response),
        page.total == response.total_records,
{
    let count = match &response.opportunities_data {
        Some(records) => records.len(),
        None => 0,
    };
    Page { count, total: response.total_records }
}

/// The two pagination operations.
#[derive(Debug, Clone, Copy, PartialEq, Eq, Structural)]
pub enum PagerMode {
    /// Fetch one date window. The rate limit ends the window with what was
    /// fetched so far; the advertised total is read from every page.
    Window,
    /// Fetch all results of a search. The rate limit is a failure like any
    /// other; the advertised total is that of the first page.
    Search,
}

/// A pagination in progress.
#[derive(Debug, Clone)]
pub struct Pager {
    pub mode: PagerMode,
    /// The request that is due.
    pub request: SearchParams,
    /// Records received so far.
    pub fetched: usize,
    /// Requests issued so far, the one that is due included.
    pub calls: u32,
    /// In a search, the total advertised by the first page, once it is in.
    pub advertised: Option<u64>,
}

/// What a reply means for a pagination.
#[derive(Debug, Clone)]
pub enum Outcome {
    /// Another page is due: the pager holds its request.
    Continue(Pager),
    /// The pagination is over.
    Done(WindowResult),
    /// The pagination failed.
    Failed(FetchError),
    /// The pagination would go on, or the page would be counted, beyond what
    /// the pager's machine integers can hold.
    Overflow,
}

/// The total that counts for a page: in a window the page's own, in a search
/// the first page's; zero where the upstream names none.
pub open spec fn total_in_force(mode: PagerMode, advertised: Option<u64>, page: Page) -> u64 {
    let named = match (mode, advertised) {
        (PagerMode::Search, Some(first)) => Some(first),
        _ => page.total,
    };
    match named {
        Some(total) => total,
        None => 0,
    }
}

/// The stopping rule: fetching stops with the first page after which the
/// records received reach the advertised total, or which is not full.
pub open spec fn stops(fetched: int, total: u64, page_count: usize) -> bool {
    fetched >= total || page_count < PAGE_SIZE
}

impl Pager {
    /// Starts the pagination of the date window `from`..`to`: the first
    /// request asks for a full page at offset 0 with no other filter.
    pub fn for_window(from: &str, to: &str) -> (pager: Pager)
        ensures
            pager.mode == PagerMode::Window,
            pager.fetched == 0,
            pager.calls == 1,
            pager.advertised is None,
            pager.request@ == (SearchParamsView {
                limit: PAGE_SIZE,
                offset: 0,
                posted_from: from@,
                posted_to: to@,
                title: None,
                ptype: None,
                naics: None,
                state: None,
                set_aside: None,
                notice_id: None,
            }),
    {
        Pager {
            mode: PagerMode::Window,
            request: SearchParams {
                limit: PAGE_SIZE,
                offset: 0,
                posted_from: String::from_str(from),
                posted_to: String::from_str(to),
                title: None,
                ptype: None,
                naics: None,
                state: None,
                set_aside: None,
                notice_id: None,
            },
            fetched: 0,
            calls: 1,
            advertised: None,
        }
    }

    /// Starts the pagination of all results of a search: the first request is
    /// `params` with a full page asked for at offset 0.
    pub fn for_search(params: &SearchParams) -> (pager: Pager)
        ensures
            pager.mode == PagerMode::Search,
            pager.fetched == 0,
            pager.calls == 1,
            pager.advertised is None,
            pager.request@ == (SearchParamsView { limit: PAGE_SIZE, offset: 0, ..params@ }),
    {
        Pager {
            mode: PagerMode::Search,
            request: SearchParams {
                limit: PAGE_SIZE,
                offset: 0,
                posted_from: params.posted_from.clone(),
                posted_to: params.posted_to.clone(),
                title: copy_opt(&params.title),
                ptype: copy_opt(&params.ptype),
                naics: copy_opt(&params.naics),
                state: copy_opt(&params.state),
                set_aside: copy_opt(&params.set_aside),
                notice_id: copy_opt(&params.notice_id),
            },
            fetched: 0,
            calls: 1,
            advertised: None,
        }
    }

    /// What a reply to the request that was due means.
    ///
    /// A page is counted, and the pagination is over exactly where [`stops`]
    /// says so; otherwise the next request is the same one, a page further.
    /// In a window the rate limit ends the pagination with a result that says
    /// so and holds the counts reached; every other failure, and in a search
    /// the rate limit too, is handed back as it came.
    pub open spec fn outcome_of(self, reply: Result<Page, FetchError>) -> Outcome {
        match reply {
            Err(failure) => if failure is RateLimited && self.mode == PagerMode::Window {
                Outcome::Done(
                    WindowResult {
                        records_fetched: self.fetched,
                        api_calls: self.calls,
                        rate_limited: true,
                    },
                )
            } else {
                Outcome::Failed(failure)
            },
            Ok(page) => {
                let fetched = self.fetched + page.count;
                let total = total_in_force(self.mode, self.advertised, page);
                if fetched > usize::MAX {
                    Outcome::Overflow
                } else if stops(fetched, total, page.count) {
                    Outcome::Done(
                        WindowResult {
                            records_fetched: fetched as usize,
                            api_calls: self.calls,
                            rate_limited: false,
                        },
                    )
                } else if self.request.offset + PAGE_SIZE > u32::MAX || self.calls + 1
                    > u32::MAX {
                    Outcome::Overflow
                } else {
                    Outcome::Continue(
                        Pager {
                            mode: self.mode,
                            request: SearchParams {
                                offset: (self.request.offset + PAGE_SIZE) as u32,
                                ..self.request
                            },
                            fetched: fetched as usize,
                            calls: (self.calls + 1) as u32,
                            advertised: if self.mode == PagerMode::Search {
                                Some(total)
                            } else {
                                self.advertised
                            },
                        },
                    )
                }
            },
        }
    }

    /// Takes the reply to the request that was due. See [`Pager::outcome_of`].
    pub fn advance(self, reply: Result<Page, FetchError>) -> (outcome: Outcome)
        ensures
            outcome == self.outcome_of(reply),
    {
        match reply {
            Err(failure) => {
                let intercept = match self.mode {
                    PagerMode::Window => failure.is_rate_limited(),
                    PagerMode::Search => false,
                };
                if intercept {
                    Outcome::Done(
                        WindowResult {
                            records_fetched: self.fetched,
                            api_calls: self.calls,
                            rate_limited: true,
                        },
                    )
                } else {
                    Outcome::Failed(failure)
                }
            },
            Ok(page) => {
                let first = match self.mode {
                    PagerMode::Search => self.advertised,
                    PagerMode::Window => None,
                };
                let named = match first {
                    Some(total) => Some(total),
                    None => page.total,
                };
                let total: u64 = match named {
                    Some(total) => total,
                    None => 0,
                };
                if page.count > usize::MAX - self.fetched {
                    return Outcome::Overflow;
                }
                let fetched = self.fetched + page.count;
                if fetched as u64 >= total || page.count < PAGE_SIZE as usize {
                    return Outcome::Done(
                        WindowResult {
                            records_fetched: fetched,
                            api_calls: self.calls,
                            rate_limited: false,
                        },
                    );
                }
                if self.request.offset > u32::MAX - PAGE_SIZE || self.calls == u32::MAX {
                    return Outcome::Overflow;
                }
                let advertised = match self.mode {
                    PagerMode::Search => Some(total),
                    PagerMode::Window => self.advertised,
                };
                let mut request = self.request;
                request.offset = request.offset + PAGE_SIZE;
                Outcome::Continue(
                    Pager {
                        mode: self.mode,
                        request,
                        fetched,
                        calls: self.calls + 1,
                        advertised,
                    },
                )
            },
        }
    }
}

/// The outcome of a pagination that is handed the replies one after the
/// other. It goes on as long as the pager asks for another page; what is
/// replied after it is over counts for nothing.
pub open spec fn run(pager: Pager, replies: Seq<Result<Page, FetchError>>) -> Outcome
    decreases replies.len(),
{
    if replies.len() == 0 {
        Outcome::Continue(pager)
    } else {
        match pager.outcome_of(replies[0]) {
            Outcome::Continue(next) => run(next, replies.drop_first()),
            over => over,
        }
    }
}

/// The pages as replies that each brought a page.
pub open spec fn delivered(pages: Seq<Page>) -> Seq<Result<Page, FetchError>> {
    pages.map_values(|page: Page| Ok::<Page, FetchError>(page))
}

/// The records in the first `n` of the pages.
pub open spec fn records_in(pages: Seq<Page>, n: int) -> int
    decreases n,
{
    if n <= 0 {
        0
    } else {
        records_in(pages, n - 1) + pages[n - 1].count
    }
}

/// The total that counts for page `i` of the pages that a pager is handed.
pub open spec fn total_at(pager: Pager, pages: Seq<Page>, i: int) -> u64 {
    total_in_force(
        pager.mode,
        if i == 0 {
            pager.advertised
        } else {
            Some(total_in_force(pager.mode, pager.advertised, pages[0]))
        },
        pages[i],
    )
}

/// Whether a pager that is handed the pages stops with page `i`, should it
/// get that far.
pub open spec fn stops_with(pager: Pager, pages: Seq<Page>, i: int) -> bool {
    stops(pager.fetched + records_in(pages, i + 1), total_at(pager, pages, i), pages[i].count)
}

/// The records in the first pages are those of the first page and those in
/// the pages behind it.
proof fn lemma_records_in_shift(pages: Seq<Page>, n: int)
    requires
        0 <= n < pages.len(),
    ensures
        records_in(pages, n + 1) == pages[0].count + records_in(pages.drop_first(), n),
    decreases n,
{
    let rest = pages.drop_first();
    if n > 0 {
        lemma_records_in_shift(pages, n - 1);
        assert(rest[n - 1] == pages[n]);
        assert(records_in(pages, n + 1) == records_in(pages, n) + pages[n].count);
        assert(records_in(rest, n) == records_in(rest, n - 1) + rest[n - 1].count);
    } else {
        assert(records_in(pages, 0) == 0);
        assert(records_in(rest, 0) == 0);
        assert(records_in(pages, 1) == records_in(pages, 0) + pages[0].count);
    }
}

/// After a page that does not end it, a pagination stands as if it had begun
/// one page further.
proof fn lemma_next_page(pager: Pager, pages: Seq<Page>, i: int)
    requires
        0 <= i,
        i + 1 < pages.len(),
        pager.outcome_of(Ok(pages[0])) is Continue,
    ensures
        stops_with(pager.outcome_of(Ok(pages[0]))->Continue_0, pages.drop_first(), i)
            == stops_with(pager, pages, i + 1),
{
    let next = pager.outcome_of(Ok(pages[0]))->Continue_0;
    let rest = pages.drop_first();
    lemma_records_in_shift(pages, i + 1);
    assert(rest[i] == pages[i + 1]);
    assert(rest[0] == pages[1]);
    assert(total_at(next, rest, i) == total_at(pager, pages, i + 1));
}

/// A pagination stops exactly with the first page after which the records
/// received reach the advertised total, or which is not full, whichever comes
/// first: it asks for every page before that one, counts that one, and asks
/// for none after it. The bounds say that the counts fit their machine
/// integers.
pub proof fn law_pagination_stops_with_first_stopping_page(
    pager: Pager,
    pages: Seq<Page>,
    k: int,
)
    requires
        0 <= k < pages.len(),
        forall|i: int| 0 <= i < k ==> !stops_with(pager, pages, i),
        stops_with(pager, pages, k),
        pager.fetched + records_in(pages, k + 1) <= usize::MAX,
        pager.request.offset + PAGE_SIZE * k <= u32::MAX,
        pager.calls + k <= u32::MAX,
    ensures
        run(pager, delivered(pages)) == Outcome::Done(
            WindowResult {
                records_fetched: (pager.fetched + records_in(pages, k + 1)) as usize,
                api_calls: (pager.calls + k) as u32,
                rate_limited: false,
            },
        ),
        forall|j: int| 0 <= j <= k ==> run(pager, delivered(pages.take(j))) is Continue,
    decreases k,
{
    let replies = delivered(pages);
    assert(replies[0] == Ok::<Page, FetchError>(pages[0]));
    assert(replies.drop_first() =~= delivered(pages.drop_first()));
    assert(records_in(pages, 1) == records_in(pages, 0) + pages[0].count);
    assert(delivered(pages.take(0)) =~= Seq::empty());
    if k == 0 {
    } else {
        assert(!stops_with(pager, pages, 0));
        lemma_records_in_shift(pages, k);
        assert(records_in(pages, k + 1) >= records_in(pages, 1)) by {
            lemma_records_in_grows(pages.drop_first(), k);
        }
        let next = pager.outcome_of(Ok(pages[0]))->Continue_0;
        let rest = pages.drop_first();
        assert forall|i: int| 0 <= i < k - 1 implies !stops_with(next, rest, i) by {
            lemma_next_page(pager, pages, i);
        }
        lemma_next_page(pager, pages, k - 1);
        law_pagination_stops_with_first_stopping_page(next, rest, k - 1);
        assert forall|j: int| 0 <= j <= k implies run(pager, delivered(pages.take(j)))
            is Continue by {
            if j > 0 {
                let some = delivered(pages.take(j));
                assert(some[0] == Ok::<Page, FetchError>(pages[0]));
                assert(some.drop_first() =~= delivered(rest.take(j - 1)));
            }
        }
    }
}

/// The records in the first pages are no fewer than none.
proof fn lemma_records_in_grows(pages: Seq<Page>, n: int)
    ensures
        records_in(pages, n) >= 0,
    decreases n,
{
    if n > 0 {
        lemma_records_in_grows(pages, n - 1);
    }
}

/// A window whose fetch runs into the rate limit ends with a result, not a
/// failure: one that says so and that holds the records of every page that
/// came before, and the calls made, the rate-limited one included.
pub proof fn law_rate_limited_window_keeps_its_count(pager: Pager, pages: Seq<Page>)
    requires
        pager.mode == PagerMode::Window,
        forall|i: int| 0 <= i < pages.len() ==> !stops_with(pager, pages, i),
        pager.fetched + records_in(pages, pages.len() as int) <= usize::MAX,
        pager.request.offset + PAGE_SIZE * pages.len() <= u32::MAX,
        pager.calls + pages.len() <= u32::MAX,
    ensures
        run(pager, delivered(pages).push(Err(FetchError::RateLimited))) == Outcome::Done(
            WindowResult {
                records_fetched: (pager.fetched + records_in(pages, pages.len() as int)) as usize,
                api_calls: (pager.calls + pages.len()) as u32,
                rate_limited: true,
            },
        ),
    decreases pages.len(),
{
    let replies = delivered(pages).push(Err(FetchError::RateLimited));
    if pages.len() == 0 {
        assert(replies[0] == Err::<Page, FetchError>(FetchError::RateLimited));
    } else {
        let k = pages.len() as int;
        assert(replies[0] == Ok::<Page, FetchError>(pages[0]));
        assert(records_in(pages, 1) == records_in(pages, 0) + pages[0].count);
        assert(!stops_with(pager, pages, 0));
        lemma_records_in_shift(pages, k - 1);
        lemma_records_in_grows(pages.drop_first(), k - 1);
        let next = pager.outcome_of(Ok(pages[0]))->Continue_0;
        let rest = pages.drop_first();
        assert(replies.drop_first() =~= delivered(rest).push(Err(FetchError::RateLimited)));
        assert forall|i: int| 0 <= i < rest.len() implies !stops_with(next, rest, i) by {
            lemma_next_page(pager, pages, i);
        }
        law_rate_limited_window_keeps_its_count(next, rest);
    }
}

} // verus!
