//! The wire-shaped records of the upstream search API, the request that
//! fetches them, and the classification of what a request can come back with.

use vstd::prelude::*;
use crate::text::{
    copy_opt, decimal, decimal_string, law_replaced_hides_pattern, opt_text, opt_texts,
    replace_text, replaced, shares_no_char, stands_in,
};

verus! {

/// A coded place: a state, a city or a country.
#[derive(Debug, Clone)]
pub struct PlaceValue {
    pub code: Option<String>,
    pub name: Option<String>,
}

/// What a [`PlaceValue`] holds, as plain mathematical values.
pub struct PlaceValueView {
    pub code: Option<Seq<char>>,
    pub name: Option<Seq<char>>,
}

impl View for PlaceValue {
    type V = PlaceValueView;

    open spec fn view(&self) -> PlaceValueView {
        PlaceValueView {
            code: opt_text(self.code),
            name: opt_text(self.name),
        }
    }
}

/// The view of an optional [`PlaceValue`].
pub open spec fn opt_place_value(value: Option<PlaceValue>) -> Option<PlaceValueView> {
    match value {
        Some(inner) => Some(inner@),
        None => None,
    }
}

/// Where the work of an opportunity is to be performed.
#[derive(Debug, Clone)]
pub struct PlaceOfPerformance {
    pub state: Option<PlaceValue>,
    pub city: Option<PlaceValue>,
    pub country: Option<PlaceValue>,
    pub zip: Option<String>,
}

/// What a [`PlaceOfPerformance`] holds, as plain mathematical values.
pub struct PlaceOfPerformanceView {
    pub state: Option<PlaceValueView>,
    pub city: Option<PlaceValueView>,
    pub country: Option<PlaceValueView>,
    pub zip: Option<Seq<char>>,
}

impl View for PlaceOfPerformance {
    type V = PlaceOfPerformanceView;

    open spec fn view(&self) -> PlaceOfPerformanceView {
        PlaceOfPerformanceView {
            state: opt_place_value(self.state),
            city: opt_place_value(self.city),
            country: opt_place_value(self.country),
            zip: opt_text(self.zip),
        }
    }
}

/// The view of an optional [`PlaceOfPerformance`].
pub open spec fn opt_place(value: Option<PlaceOfPerformance>) -> Option<PlaceOfPerformanceView> {
    match value {
        Some(inner) => Some(inner@),
        None => None,
    }
}

/// The party an award went to.
#[derive(Debug, Clone)]
pub struct Awardee {
    pub name: Option<String>,
    pub duns: Option<String>,
    pub uei_sam: Option<String>,
}

/// What a [`Awardee`] holds, as plain mathematical values.
pub struct AwardeeView {
    pub name: Option<Seq<char>>,
    pub duns: Option<Seq<char>>,
    pub uei_sam: Option<Seq<char>>,
}

impl View for Awardee {
    type V = AwardeeView;

    open spec fn view(&self) -> AwardeeView {
        AwardeeView {
            name: opt_text(self.name),
            duns: opt_text(self.duns),
            uei_sam: opt_text(self.uei_sam),
        }
    }
}

/// The view of an optional [`Awardee`].
pub open spec fn opt_awardee(value: Option<Awardee>) -> Option<AwardeeView> {
    match value {
        Some(inner) => Some(inner@),
        None => None,
    }
}

/// The award made on an opportunity.
#[derive(Debug, Clone)]
pub struct Award {
    pub amount: Option<String>,
    pub date: Option<String>,
    pub number: Option<String>,
    pub awardee: Option<Awardee>,
}

/// What a [`Award`] holds, as plain mathematical values.
pub struct AwardView {
    pub amount: Option<Seq<char>>,
    pub date: Option<Seq<char>>,
    pub number: Option<Seq<char>>,
    pub awardee: Option<AwardeeView>,
}

impl View for Award {
    type V = AwardView;

    open spec fn view(&self) -> AwardView {
        AwardView {
            amount: opt_text(self.amount),
            date: opt_text(self.date),
            number: opt_text(self.number),
            awardee: opt_awardee(self.awardee),
        }
    }
}

/// The view of an optional [`Award`].
pub open spec fn opt_award(value: Option<Award>) -> Option<AwardView> {
    match value {
        Some(inner) => Some(inner@),
        None => None,
    }
}

/// One contact of an opportunity. It has no identity of its own across fetches.
#[derive(Debug, Clone)]
pub struct PointOfContact {
    pub contact_type: Option<String>,
    pub full_name: Option<String>,
    pub email: Option<String>,
    pub phone: Option<String>,
    pub title: Option<String>,
}

/// What a [`PointOfContact`] holds, as plain mathematical values.
pub struct PointOfContactView {
    pub contact_type: Option<Seq<char>>,
    pub full_name: Option<Seq<char>>,
    pub email: Option<Seq<char>>,
    pub phone: Option<Seq<char>>,
    pub title: Option<Seq<char>>,
}

impl View for PointOfContact {
    type V = PointOfContactView;

    open spec fn view(&self) -> PointOfContactView {
        PointOfContactView {
            contact_type: opt_text(self.contact_type),
            full_name: opt_text(self.full_name),
            email: opt_text(self.email),
            phone: opt_text(self.phone),
            title: opt_text(self.title),
        }
    }
}

/// The views of an optional list of contacts, in order.
pub open spec fn opt_contacts(value: Option<Vec<PointOfContact>>) -> Option<Seq<PointOfContactView>> {
    match value {
        Some(items) => Some(items@.map_values(|item: PointOfContact| item@)),
        None => None,
    }
}

/// One contracting notice as the upstream source sends it. Dates stay the
/// fixed-width `MM/DD/YYYY` strings of the source.
#[derive(Debug, Clone)]
pub struct Opportunity {
    pub notice_id: Option<String>,
    pub title: Option<String>,
    pub solicitation_number: Option<String>,
    pub department: Option<String>,
    pub sub_tier: Option<String>,
    pub office: Option<String>,
    pub full_parent_path_name: Option<String>,
    pub organization_type: Option<String>,
    pub opp_type: Option<String>,
    pub base_type: Option<String>,
    pub posted_date: Option<String>,
    pub response_deadline: Option<String>,
    pub archive_date: Option<String>,
    pub naics_code: Option<String>,
    pub classification_code: Option<String>,
    pub set_aside: Option<String>,
    pub set_aside_description: Option<String>,
    pub description: Option<String>,
    pub ui_link: Option<String>,
    pub resource_links: Option<Vec<String>>,
    pub award: Option<Award>,
    pub point_of_contact: Option<Vec<PointOfContact>>,
    pub place_of_performance: Option<PlaceOfPerformance>,
    pub active: Option<String>,
}

/// What a [`Opportunity`] holds, as plain mathematical values.
pub struct OpportunityView {
    pub notice_id: Option<Seq<char>>,
    pub title: Option<Seq<char>>,
    pub solicitation_number: Option<Seq<char>>,
    pub department: Option<Seq<char>>,
    pub sub_tier: Option<Seq<char>>,
    pub office: Option<Seq<char>>,
    pub full_parent_path_name: Option<Seq<char>>,
    pub organization_type: Option<Seq<char>>,
    pub opp_type: Option<Seq<char>>,
    pub base_type: Option<Seq<char>>,
    pub posted_date: Option<Seq<char>>,
    pub response_deadline: Option<Seq<char>>,
    pub archive_date: Option<Seq<char>>,
    pub naics_code: Option<Seq<char>>,
    pub classification_code: Option<Seq<char>>,
    pub set_aside: Option<Seq<char>>,
    pub set_aside_description: Option<Seq<char>>,
    pub description: Option<Seq<char>>,
    pub ui_link: Option<Seq<char>>,
    pub resource_links: Option<Seq<Seq<char>>>,
    pub award: Option<AwardView>,
    pub point_of_contact: Option<Seq<PointOfContactView>>,
    pub place_of_performance: Option<PlaceOfPerformanceView>,
    pub active: Option<Seq<char>>,
}

impl View for Opportunity {
    type V = OpportunityView;

    open spec fn view(&self) -> OpportunityView {
        OpportunityView {
            notice_id: opt_text(self.notice_id),
            title: opt_text(self.title),
            solicitation_number: opt_text(self.solicitation_number),
            department: opt_text(self.department),
            sub_tier: opt_text(self.sub_tier),
            office: opt_text(self.office),
            full_parent_path_name: opt_text(self.full_parent_path_name),
            organization_type: opt_text(self.organization_type),
            opp_type: opt_text(self.opp_type),
            base_type: opt_text(self.base_type),
            posted_date: opt_text(self.posted_date),
            response_deadline: opt_text(self.response_deadline),
            archive_date: opt_text(self.archive_date),
            naics_code: opt_text(self.naics_code),
            classification_code: opt_text(self.classification_code),
            set_aside: opt_text(self.set_aside),
            set_aside_description: opt_text(self.set_aside_description),
            description: opt_text(self.description),
            ui_link: opt_text(self.ui_link),
            resource_links: opt_texts(self.resource_links),
            award: opt_award(self.award),
            point_of_contact: opt_contacts(self.point_of_contact),
            place_of_performance: opt_place(self.place_of_performance),
            active: opt_text(self.active),
        }
    }
}

/// The views of an optional list of opportunities, in order.
pub open spec fn opt_opportunities(value: Option<Vec<Opportunity>>) -> Option<Seq<OpportunityView>> {
    match value {
        Some(items) => Some(items@.map_values(|item: Opportunity| item@)),
        None => None,
    }
}

/// One page of search results: the advertised total and the page's records.
#[derive(Debug, Clone)]
pub struct ApiResponse {
    pub total_records: Option<u64>,
    pub opportunities_data: Option<Vec<Opportunity>>,
}

/// What a [`ApiResponse`] holds, as plain mathematical values.
pub struct ApiResponseView {
    pub total_records: Option<u64>,
    pub opportunities_data: Option<Seq<OpportunityView>>,
}

impl View for ApiResponse {
    type V = ApiResponseView;

    open spec fn view(&self) -> ApiResponseView {
        ApiResponseView {
            total_records: self.total_records,
            opportunities_data: opt_opportunities(self.opportunities_data),
        }
    }
}

/// The filters of one search request.
#[derive(Debug, Clone)]
pub struct SearchParams {
    pub limit: u32,
    pub offset: u32,
    pub posted_from: String,
    pub posted_to: String,
    pub title: Option<String>,
    pub ptype: Option<String>,
    pub naics: Option<String>,
    pub state: Option<String>,
    pub set_aside: Option<String>,
    pub notice_id: Option<String>,
}

/// What a [`SearchParams`] holds, as plain mathematical values.
pub struct SearchParamsView {
    pub limit: u32,
    pub offset: u32,
    pub posted_from: Seq<char>,
    pub posted_to: Seq<char>,
    pub title: Option<Seq<char>>,
    pub ptype: Option<Seq<char>>,
    pub naics: Option<Seq<char>>,
    pub state: Option<Seq<char>>,
    pub set_aside: Option<Seq<char>>,
    pub notice_id: Option<Seq<char>>,
}

impl View for SearchParams {
    type V = SearchParamsView;

    open spec fn view(&self) -> SearchParamsView {
        SearchParamsView {
            limit: self.limit,
            offset: self.offset,
            posted_from: self.posted_from@,
            posted_to: self.posted_to@,
            title: opt_text(self.title),
            ptype: opt_text(self.ptype),
            naics: opt_text(self.naics),
            state: opt_text(self.state),
            set_aside: opt_text(self.set_aside),
            notice_id: opt_text(self.notice_id),
        }
    }
}

/// What fetching one date window came to.
#[derive(Debug, Clone, Copy, PartialEq, Eq, Structural)]
pub struct WindowResult {
    /// Records received over all pages of the window.
    pub records_fetched: usize,
    /// Requests issued for the window, the rate-limited one included.
    pub api_calls: u32,
    /// Whether the upstream quota ran out before the window was covered.
    pub rate_limited: bool,
}

/// The address of the upstream search endpoint.
pub const BASE_URL: &'static str = "https://api.sam.gov/opportunities/v2/search";

/// Number of records asked for in every automated page request.
pub const PAGE_SIZE: u32 = 1000;

/// The text that stands in for the caller's credential in any message.
pub const REDACTED: &'static str = "[REDACTED]";

/// The upstream source reported that the request quota is used up.
///
/// This is the one failure a caller is expected to pause on rather than abort.
#[derive(Debug, Clone, Copy, PartialEq, Eq, Structural)]
pub struct RateLimited;

impl RateLimited {
    /// The message shown for a rate-limited request.
    pub fn message(&self) -> (text: String)
        ensures
            text@ == "SAM.gov API rate limit exceeded (429)"@,
    {
        String::from_str("SAM.gov API rate limit exceeded (429)")
    }
}

/// Why one request brought no page.
#[derive(Debug, Clone)]
pub enum FetchError {
    /// The upstream quota is used up (status 429).
    RateLimited,
    /// The request never completed. `detail` is what the transport says of
    /// it, with the credential taken out.
    Transport { detail: String },
    /// The upstream answered with a status outside 2xx other than 429.
    /// `body` is what it answered, with the credential taken out.
    Upstream { status: u16, status_line: String, body: String },
    /// The body of a successful answer is not a page of results.
    Decode { detail: String },
}

impl FetchError {
    /// The message of this failure as it is shown to an operator.
    pub open spec fn message_text(self) -> Seq<char> {
        match self {
            FetchError::RateLimited => "SAM.gov API rate limit exceeded (429)"@,
            FetchError::Transport { detail } => "Failed to connect to SAM.gov API: "@ + detail@,
            FetchError::Upstream { status, status_line, body } => "SAM.gov API returned "@
                + status_line@ + ": "@ + body@,
            FetchError::Decode { detail } => "Failed to parse SAM.gov API response"@,
        }
    }

    /// The message of this failure as it is shown to an operator.
    pub fn message(&self) -> (text: String)
        ensures
            text@ == self.message_text(),
    {
        match self {
            FetchError::RateLimited => RateLimited.message(),
            FetchError::Transport { detail } => {
                let mut text = String::from_str("Failed to connect to SAM.gov API: ");
                text.append(detail.as_str());
                text
            },
            FetchError::Upstream { status, status_line, body } => {
                let mut text = String::from_str("SAM.gov API returned ");
                text.append(status_line.as_str());
                text.append(": ");
                text.append(body.as_str());
                text
            },
            FetchError::Decode { detail } => String::from_str(
                "Failed to parse SAM.gov API response",
            ),
        }
    }

    /// Tells whether this failure is the rate limit.
    pub fn is_rate_limited(&self) -> (yes: bool)
        ensures
            yes == (*self is RateLimited),
    {
        match self {
            FetchError::RateLimited => true,
            _ => false,
        }
    }
}

/// `text` with every occurrence of `secret` replaced by [`REDACTED`].
pub fn redact(text: &str, secret: &str) -> (clean: String)
    ensures
        clean@ == replaced(text@, secret@, REDACTED@),
{
    replace_text(text, secret, REDACTED)
}

/// The three ways this client reads an HTTP status.
#[derive(Debug, Clone, Copy, PartialEq, Eq, Structural)]
pub enum StatusClass {
    /// 2xx: the body is a page of results.
    Success,
    /// 429: the quota is used up.
    RateLimited,
    /// Anything else.
    Failure,
}

/// How a status code is read. The rate limit is looked for first.
pub open spec fn status_class(code: u16) -> StatusClass {
    if code == 429 {
        StatusClass::RateLimited
    } else if 200 <= code < 300 {
        StatusClass::Success
    } else {
        StatusClass::Failure
    }
}

/// Reads an HTTP status code.
pub fn classify_status(code: u16) -> (class: StatusClass)
    ensures
        class == status_class(code),
{
    if code == 429 {
        StatusClass::RateLimited
    } else if 200 <= code && code < 300 {
        StatusClass::Success
    } else {
        StatusClass::Failure
    }
}

/// The failure for a request that never completed: the transport's own
/// message, with the credential taken out.
pub fn transport_failure(message: &str, api_key: &str) -> (failure: FetchError)
    ensures
        failure matches FetchError::Transport { detail } && detail@ == replaced(
            message@,
            api_key@,
            REDACTED@,
        ),
{
    FetchError::Transport { detail: redact(message, api_key) }
}

/// The failure for a body that does not decode as a page of results.
pub fn decode_failure(message: &str) -> (failure: FetchError)
    ensures
        failure matches FetchError::Decode { detail } && detail@ == message@,
{
    FetchError::Decode { detail: String::from_str(message) }
}

/// Decides what a completed request means, from its status alone where that
/// settles it: `Ok` exactly for a 2xx status, whose body is then to be decoded;
/// the rate limit for 429; and for any other status an upstream failure that
/// carries the status and the body with the credential taken out.
pub fn check_reply(status: u16, status_line: &str, body: &str, api_key: &str) -> (verdict: Result<
    (),
    FetchError,
>)
    ensures
        status_class(status) == StatusClass::Success <==> verdict is Ok,
        status_class(status) == StatusClass::RateLimited <==> verdict == Err::<(), FetchError>(
            FetchError::RateLimited,
        ),
        status_class(status) == StatusClass::Failure <==> (verdict matches Err(
            FetchError::Upstream { status: code, status_line: line, body: text },
        ) && code == status && line@ == status_line@ && text@ == replaced(
            body@,
            api_key@,
            REDACTED@,
        )),
{
    match classify_status(status) {
        StatusClass::Success => Ok(()),
        StatusClass::RateLimited => Err(FetchError::RateLimited),
        StatusClass::Failure => Err(
            FetchError::Upstream {
                status,
                status_line: String::from_str(status_line),
                body: redact(body, api_key),
            },
        ),
    }
}

/// The name and value of each query parameter, as plain values.
pub open spec fn pair_views(pairs: Seq<(&'static str, String)>) -> Seq<(Seq<char>, Seq<char>)> {
    pairs.map_values(|pair: (&'static str, String)| (pair.0@, pair.1@))
}

/// The query parameter `name`, present only where a value is.
pub open spec fn optional_pair(name: Seq<char>, value: Option<Seq<char>>) -> Seq<
    (Seq<char>, Seq<char>),
> {
    match value {
        Some(text) => seq![(name, text)],
        None => seq![],
    }
}

/// The query of one search request, in the order it is sent: the credential
/// and the paging, the posting window unless one notice is looked up by its
/// identifier, then each filter that is set.
pub open spec fn query_model(api_key: Seq<char>, params: SearchParamsView) -> Seq<
    (Seq<char>, Seq<char>),
> {
    seq![
        ("api_key"@, api_key),
        ("limit"@, decimal(params.limit as nat)),
        ("offset"@, decimal(params.offset as nat)),
    ] + (if params.notice_id is None {
        seq![("postedFrom"@, params.posted_from), ("postedTo"@, params.posted_to)]
    } else {
        seq![]
    }) + optional_pair("title"@, params.title) + optional_pair("ptype"@, params.ptype)
        + optional_pair("ncode"@, params.naics) + optional_pair("state"@, params.state)
        + optional_pair("typeOfSetAside"@, params.set_aside) + optional_pair(
        "noticeid"@,
        params.notice_id,
    )
}

fn push_pair(pairs: &mut Vec<(&'static str, String)>, name: &'static str, value: String)
    ensures
        pair_views(final(pairs)@) == pair_views(old(pairs)@).push((name@, value@)),
{
    pairs.push((name, value));
    proof {
        assert(pair_views(pairs@) =~= pair_views(old(pairs)@).push((name@, value@)));
    }
}

fn push_optional_pair(
    pairs: &mut Vec<(&'static str, String)>,
    name: &'static str,
    value: &Option<String>,
)
    ensures
        pair_views(final(pairs)@) == pair_views(old(pairs)@) + optional_pair(
            name@,
            opt_text(*value),
        ),
{
    match value {
        Some(text) => {
            push_pair(pairs, name, text.clone());
            proof {
                assert(pair_views(old(pairs)@).push((name@, text@)) =~= pair_views(old(pairs)@)
                    + optional_pair(name@, opt_text(*value)));
            }
        },
        None => {
            proof {
                assert(pair_views(old(pairs)@) =~= pair_views(old(pairs)@) + optional_pair(
                    name@,
                    opt_text(*value),
                ));
            }
        },
    }
}

/// Builds the query of one search request.
pub fn query_pairs(api_key: &str, params: &SearchParams) -> (pairs: Vec<(&'static str, String)>)
    ensures
        pair_views(pairs@) == query_model(api_key@, params@),
{
    let mut pairs: Vec<(&'static str, String)> = Vec::new();
    proof {
        assert(pair_views(pairs@) =~= Seq::empty());
    }
    push_pair(&mut pairs, "api_key", String::from_str(api_key));
    push_pair(&mut pairs, "limit", decimal_string(params.limit as u64));
    push_pair(&mut pairs, "offset", decimal_string(params.offset as u64));
    let ghost head = pair_views(pairs@);
    proof {
        assert(head =~= seq![
            ("api_key"@, api_key@),
            ("limit"@, decimal(params.limit as nat)),
            ("offset"@, decimal(params.offset as nat)),
        ]);
    }
    if params.notice_id.is_none() {
        push_pair(&mut pairs, "postedFrom", params.posted_from.clone());
        push_pair(&mut pairs, "postedTo", params.posted_to.clone());
    }
    let ghost window = pair_views(pairs@);
    proof {
        assert(window =~= head + (if params@.notice_id is None {
            seq![("postedFrom"@, params@.posted_from), ("postedTo"@, params@.posted_to)]
        } else {
            seq![]
        }));
    }
    push_optional_pair(&mut pairs, "title", &params.title);
    push_optional_pair(&mut pairs, "ptype", &params.ptype);
    push_optional_pair(&mut pairs, "ncode", &params.naics);
    push_optional_pair(&mut pairs, "state", &params.state);
    push_optional_pair(&mut pairs, "typeOfSetAside", &params.set_aside);
    push_optional_pair(&mut pairs, "noticeid", &params.notice_id);
    pairs
}

/// The request that looks one notice up by its identifier: one record, no
/// posting window, no other filter.
pub fn lookup_params(notice_id: &str) -> (params: SearchParams)
    ensures
        params.limit == 1,
        params.offset == 0,
        params.posted_from@.len() == 0,
        params.posted_to@.len() == 0,
        params.title is None,
        params.ptype is None,
        params.naics is None,
        params.state is None,
        params.set_aside is None,
        params@.notice_id == Some(notice_id@),
{
    SearchParams {
        limit: 1,
        offset: 0,
        posted_from: String::new(),
        posted_to: String::new(),
        title: None,
        ptype: None,
        naics: None,
        state: None,
        set_aside: None,
        notice_id: Some(String::from_str(notice_id)),
    }
}

/// No record came back for a notice identifier.
#[derive(Debug, Clone)]
pub struct NotFound {
    pub notice_id: String,
}

impl NotFound {
    /// The message shown when a looked-up notice does not exist.
    pub fn message(&self) -> (text: String)
        ensures
            text@ == "No opportunity found with notice ID: "@ + self.notice_id@,
    {
        let mut text = String::from_str("No opportunity found with notice ID: ");
        text.append(self.notice_id.as_str());
        text
    }
}

/// Picks the looked-up notice out of the answer to a lookup: the first record
/// of the page, and `NotFound` exactly where the page has no record.
pub fn first_opportunity(response: ApiResponse, notice_id: &str) -> (found: Result<
    Opportunity,
    NotFound,
>)
    ensures
        match response.opportunities_data {
            Some(records) if records@.len() > 0 => found == Ok::<Opportunity, NotFound>(
                records@[0],
            ),
            _ => found matches Err(missing) && missing.notice_id@ == notice_id@,
        },
{
    match response.opportunities_data {
        Some(mut records) => {
            if records.len() > 0 {
                Ok(records.remove(0))
            } else {
                Err(NotFound { notice_id: String::from_str(notice_id) })
            }
        },
        None => Err(NotFound { notice_id: String::from_str(notice_id) }),
    }
}

/// A redacted text does not hold the credential: not where it stood, and not
/// where taking it out might have put it together anew. This holds of every
/// credential that is not empty and has none of the characters of
/// [`REDACTED`].
pub proof fn law_redaction_hides_credential(text: Seq<char>, secret: Seq<char>)
    requires
        secret.len() > 0,
        shares_no_char(secret, REDACTED@),
    ensures
        !stands_in(replaced(text, secret, REDACTED@), secret),
{
    reveal_strlit("[REDACTED]");
    law_replaced_hides_pattern(text, secret, REDACTED@);
}

} // verus!
