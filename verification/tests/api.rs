use govscout::api::{
    check_reply, classify_status, decode_failure, first_opportunity, lookup_params, query_pairs,
    redact, transport_failure, ApiResponse, FetchError, Opportunity, RateLimited, SearchParams,
    StatusClass, BASE_URL,
};

fn params() -> SearchParams {
    SearchParams {
        limit: 1000,
        offset: 2000,
        posted_from: "01/01/2025".to_string(),
        posted_to: "01/31/2025".to_string(),
        title: None,
        ptype: None,
        naics: None,
        state: None,
        set_aside: None,
        notice_id: None,
    }
}

fn titled(notice_id: &str, title: &str) -> Opportunity {
    Opportunity {
        notice_id: Some(notice_id.into()),
        title: Some(title.into()),
        solicitation_number: None,
        department: None,
        sub_tier: None,
        office: None,
        full_parent_path_name: None,
        organization_type: None,
        opp_type: None,
        base_type: None,
        posted_date: None,
        response_deadline: None,
        archive_date: None,
        naics_code: None,
        classification_code: None,
        set_aside: None,
        set_aside_description: None,
        description: None,
        ui_link: None,
        resource_links: None,
        award: None,
        point_of_contact: None,
        place_of_performance: None,
        active: None,
    }
}

fn owned(pairs: Vec<(&'static str, String)>) -> Vec<(String, String)> {
    pairs.into_iter().map(|(name, value)| (name.to_string(), value)).collect()
}

fn pair(name: &str, value: &str) -> (String, String) {
    (name.to_string(), value.to_string())
}

#[test]
fn query_of_a_window_search() {
    assert_eq!(BASE_URL, "https://api.sam.gov/opportunities/v2/search");
    assert_eq!(
        owned(query_pairs("KEY", &params())),
        vec![
            pair("api_key", "KEY"),
            pair("limit", "1000"),
            pair("offset", "2000"),
            pair("postedFrom", "01/01/2025"),
            pair("postedTo", "01/31/2025"),
        ]
    );
}

#[test]
fn query_with_every_filter() {
    let all = SearchParams {
        title: Some("cloud".into()),
        ptype: Some("o".into()),
        naics: Some("541512".into()),
        state: Some("VA".into()),
        set_aside: Some("SBA".into()),
        ..params()
    };
    assert_eq!(
        owned(query_pairs("KEY", &all)),
        vec![
            pair("api_key", "KEY"),
            pair("limit", "1000"),
            pair("offset", "2000"),
            pair("postedFrom", "01/01/2025"),
            pair("postedTo", "01/31/2025"),
            pair("title", "cloud"),
            pair("ptype", "o"),
            pair("ncode", "541512"),
            pair("state", "VA"),
            pair("typeOfSetAside", "SBA"),
        ]
    );
}

#[test]
fn query_of_a_lookup_has_no_window() {
    let lookup = lookup_params("ABC123");
    assert_eq!(lookup.limit, 1);
    assert_eq!(lookup.offset, 0);
    assert_eq!(lookup.posted_from, "");
    assert_eq!(lookup.notice_id.as_deref(), Some("ABC123"));
    assert_eq!(
        owned(query_pairs("KEY", &lookup)),
        vec![
            pair("api_key", "KEY"),
            pair("limit", "1"),
            pair("offset", "0"),
            pair("noticeid", "ABC123"),
        ]
    );
}

#[test]
fn status_is_read_rate_limit_first() {
    assert_eq!(classify_status(429), StatusClass::RateLimited);
    assert_eq!(classify_status(200), StatusClass::Success);
    assert_eq!(classify_status(204), StatusClass::Success);
    assert_eq!(classify_status(299), StatusClass::Success);
    assert_eq!(classify_status(199), StatusClass::Failure);
    assert_eq!(classify_status(300), StatusClass::Failure);
    assert_eq!(classify_status(404), StatusClass::Failure);
    assert_eq!(classify_status(500), StatusClass::Failure);
    assert_eq!(classify_status(0), StatusClass::Failure);
}

#[test]
fn reply_is_classified() {
    assert!(check_reply(200, "200 OK", "{}", "KEY").is_ok());
    assert!(matches!(
        check_reply(429, "429 Too Many Requests", "slow down KEY", "KEY"),
        Err(FetchError::RateLimited)
    ));
    match check_reply(403, "403 Forbidden", "bad api_key=KEY for KEY", "KEY") {
        Err(FetchError::Upstream { status, status_line, body }) => {
            assert_eq!(status, 403);
            assert_eq!(status_line, "403 Forbidden");
            assert_eq!(body, "bad api_key=[REDACTED] for [REDACTED]");
        }
        other => panic!("{:?}", other),
    }
}

#[test]
fn failures_carry_no_credential() {
    assert_eq!(redact("https://x/?api_key=s3cr3t&limit=1", "s3cr3t"), "https://x/?api_key=[REDACTED]&limit=1");
    assert_eq!(redact("nothing to hide", "s3cr3t"), "nothing to hide");
    let failure =
        transport_failure("error sending request for url (https://x/?api_key=s3cr3t)", "s3cr3t");
    assert_eq!(
        failure.message(),
        "Failed to connect to SAM.gov API: error sending request for url (https://x/?api_key=[REDACTED])"
    );
    assert!(!failure.is_rate_limited());
}

#[test]
fn failures_have_their_messages() {
    assert_eq!(RateLimited.message(), "SAM.gov API rate limit exceeded (429)");
    assert_eq!(FetchError::RateLimited.message(), "SAM.gov API rate limit exceeded (429)");
    assert!(FetchError::RateLimited.is_rate_limited());
    let upstream = check_reply(500, "500 Internal Server Error", "boom", "KEY").unwrap_err();
    assert_eq!(upstream.message(), "SAM.gov API returned 500 Internal Server Error: boom");
    let decode = decode_failure("missing field at line 1");
    assert_eq!(decode.message(), "Failed to parse SAM.gov API response");
    assert!(matches!(decode, FetchError::Decode { detail } if detail == "missing field at line 1"));
}

#[test]
fn lookup_takes_the_first_record() {
    let response = ApiResponse {
        total_records: Some(2),
        opportunities_data: Some(vec![titled("A1", "First"), titled("A2", "Second")]),
    };
    let found = first_opportunity(response, "A1").unwrap();
    assert_eq!(found.notice_id.as_deref(), Some("A1"));
    assert_eq!(found.title.as_deref(), Some("First"));
}

#[test]
fn lookup_without_a_record_is_not_found() {
    let empty = ApiResponse { total_records: Some(0), opportunities_data: Some(vec![]) };
    let missing = first_opportunity(empty, "ABC123").unwrap_err();
    assert_eq!(missing.notice_id, "ABC123");
    assert_eq!(missing.message(), "No opportunity found with notice ID: ABC123");
    let none = ApiResponse { total_records: None, opportunities_data: None };
    assert!(first_opportunity(none, "ABC123").is_err());
}

#[test]
fn redaction_leaves_no_occurrence_of_a_credential_of_other_characters() {
    let secret = "k3y9";
    let texts = [
        "",
        "k3y9",
        "k3k3y9y9",
        "k3y9k3y9k3y",
        "url?api_key=k3y9&x=k3y9k3y9 [REDACTED] k3y",
        "kk33yy99k3y9",
    ];
    for text in texts {
        let clean = redact(text, secret);
        assert!(!clean.contains(secret), "{:?} -> {:?}", text, clean);
    }
    // A credential made of the characters of the stand-in is another matter.
    assert!(redact("][][", "][").contains("]["));
}
