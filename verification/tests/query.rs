use govscout::query::{cap, distinct_counts_sql, list_query, list_where, ListFilter, QueryBuilder};

#[test]
fn test_query_builder_empty() {
    let qb = QueryBuilder::new();
    assert_eq!(qb.where_sql(), "");
    assert!(qb.params.is_empty());
    assert_eq!(qb.next_param_idx(), 1);
}

#[test]
fn test_query_builder_add_eq() {
    let mut qb = QueryBuilder::new();
    qb.add_eq("opp_type", "Solicitation");
    assert_eq!(qb.where_sql(), "WHERE opp_type = ?1");
    assert_eq!(qb.params.len(), 1);
    assert_eq!(qb.params[0], "Solicitation");
}

#[test]
fn test_query_builder_multiple_clauses() {
    let mut qb = QueryBuilder::new();
    qb.add_eq("opp_type", "Solicitation");
    qb.add_eq("naics_code", "541512");
    assert_eq!(qb.where_sql(), "WHERE opp_type = ?1 AND naics_code = ?2");
    assert_eq!(qb.params.len(), 2);
}

#[test]
fn test_query_builder_like_search() {
    let mut qb = QueryBuilder::new();
    qb.add_like_search("cloud");
    let sql = qb.where_sql();
    assert!(sql.contains("title LIKE ?1"));
    assert!(sql.contains("solicitation_number LIKE ?2"));
    assert!(sql.contains("department LIKE ?3"));
    assert_eq!(qb.params.len(), 3);
    assert_eq!(qb.params[0], "%cloud%");
}

#[test]
fn test_query_builder_add_in() {
    let mut qb = QueryBuilder::new();
    qb.add_in("naics_code", &["541512", "541511"]);
    assert_eq!(qb.where_sql(), "WHERE naics_code IN (?1, ?2)");
    assert_eq!(qb.params.len(), 2);
}

#[test]
fn test_query_builder_add_gte_lte() {
    let mut qb = QueryBuilder::new();
    qb.add_gte("posted_date", "2025-01-01");
    qb.add_lte("posted_date", "2025-12-31");
    assert_eq!(
        qb.where_sql(),
        "WHERE posted_date >= ?1 AND posted_date <= ?2"
    );
}

#[test]
fn test_query_builder_add_literal() {
    let mut qb = QueryBuilder::new();
    qb.add_literal("active = 'Yes'");
    assert_eq!(qb.where_sql(), "WHERE active = 'Yes'");
    assert!(qb.params.is_empty());
}

#[test]
fn test_query_builder_next_param_idx() {
    let mut qb = QueryBuilder::new();
    assert_eq!(qb.next_param_idx(), 1);
    qb.add_eq("a", "1");
    assert_eq!(qb.next_param_idx(), 2);
    qb.add_eq("b", "2");
    assert_eq!(qb.next_param_idx(), 3);
}

#[test]
fn test_query_builder_combined() {
    let mut qb = QueryBuilder::new();
    qb.add_like_search("test");
    qb.add_eq("opp_type", "Solicitation");
    qb.add_literal("active = 'Yes'");
    let sql = qb.where_sql();
    assert!(sql.starts_with("WHERE "));
    assert!(sql.contains("title LIKE"));
    assert!(sql.contains("opp_type = ?4"));
    assert!(sql.contains("active = 'Yes'"));
    assert_eq!(qb.params.len(), 4);
}

#[test]
fn like_search_writes_the_whole_clause() {
    let mut qb = QueryBuilder::new();
    qb.add_eq("a", "x");
    qb.add_like_search("50%_off\\now");
    assert_eq!(
        qb.where_sql(),
        "WHERE a = ?1 AND (title LIKE ?2 ESCAPE '\\' OR solicitation_number LIKE ?3 ESCAPE '\\' OR department LIKE ?4 ESCAPE '\\')"
    );
    assert_eq!(qb.params.len(), 4);
    assert_eq!(qb.params[1], "%50\\%\\_off\\\\now%");
    assert_eq!(qb.params[2], qb.params[1]);
    assert_eq!(qb.params[3], qb.params[1]);
}

#[test]
fn add_in_with_no_value_adds_nothing() {
    let mut qb = QueryBuilder::new();
    qb.add_in("naics_code", &[]);
    assert_eq!(qb.where_sql(), "");
    assert!(qb.params.is_empty());
    assert!(qb.clauses.is_empty());
}

#[test]
fn add_in_numbers_its_parameters_after_those_before() {
    let mut qb = QueryBuilder::new();
    for i in 0..9 {
        qb.add_eq("c", &i.to_string());
    }
    qb.add_in("state", &["VA", "MD", "DC"]);
    assert_eq!(qb.clauses[9], "state IN (?10, ?11, ?12)");
    assert_eq!(qb.params[9..], ["VA", "MD", "DC"]);
    assert_eq!(qb.next_param_idx(), 13);
}

fn no_filter() -> ListFilter {
    ListFilter {
        search: None,
        naics_code: None,
        opp_type: None,
        set_aside: None,
        state: None,
        department: None,
        date_from: None,
        date_to: None,
        active_only: None,
        limit: None,
        offset: None,
    }
}

#[test]
fn listing_without_a_filter_has_no_clause() {
    let query = list_query(&no_filter());
    assert_eq!(query.limit, 25);
    assert_eq!(query.offset, 0);
    assert_eq!(query.count_sql, "SELECT COUNT(*) FROM opportunities ");
    assert!(query.count_params.is_empty());
    assert!(query.data_sql.starts_with("SELECT notice_id, title, solicitation_number"));
    assert!(query.data_sql.ends_with("FROM opportunities  ORDER BY posted_date DESC LIMIT ?1 OFFSET ?2"));
    assert_eq!(query.data_params, vec!["25", "0"]);
}

#[test]
fn listing_with_every_filter() {
    let filter = ListFilter {
        search: Some("cloud".into()),
        naics_code: Some("541512, 541511".into()),
        opp_type: Some("Solicitation".into()),
        set_aside: Some(" SBA ".into()),
        state: Some("VA,MD,".into()),
        department: Some("DOD".into()),
        date_from: Some("2025-01-01".into()),
        date_to: Some("2025-12-31".into()),
        active_only: Some(true),
        limit: Some(500),
        offset: Some(40),
    };
    let builder = list_where(&filter);
    assert_eq!(
        builder.clauses,
        vec![
            "(title LIKE ?1 ESCAPE '\\' OR solicitation_number LIKE ?2 ESCAPE '\\' OR department LIKE ?3 ESCAPE '\\')",
            "naics_code IN (?4, ?5)",
            "opp_type = ?6",
            "set_aside = ?7",
            "pop_state_code IN (?8, ?9, ?10)",
            "department = ?11",
            "posted_date >= ?12",
            "posted_date <= ?13",
            "active = 'Yes'",
        ]
    );
    assert_eq!(
        builder.params,
        vec![
            "%cloud%", "%cloud%", "%cloud%", "541512", "541511", "Solicitation", " SBA ", "VA",
            "MD", "", "DOD", "2025-01-01", "2025-12-31",
        ]
    );
    let query = list_query(&filter);
    assert_eq!(query.limit, 100);
    assert_eq!(query.offset, 40);
    assert_eq!(query.count_params, builder.params);
    assert_eq!(query.count_sql, format!("SELECT COUNT(*) FROM opportunities {}", builder.where_sql()));
    assert!(query.data_sql.ends_with(" AND active = 'Yes' ORDER BY posted_date DESC LIMIT ?14 OFFSET ?15"));
    assert_eq!(query.data_params.len(), 15);
    assert_eq!(query.data_params[13], "100");
    assert_eq!(query.data_params[14], "40");
}

#[test]
fn listing_skips_an_empty_search_and_inactive_only() {
    let filter = ListFilter {
        search: Some(String::new()),
        active_only: Some(false),
        ..no_filter()
    };
    let builder = list_where(&filter);
    assert!(builder.clauses.is_empty());
    assert!(builder.params.is_empty());
}

#[test]
fn rows_handed_out_are_capped() {
    assert_eq!(cap(None, 25, 100), 25);
    assert_eq!(cap(Some(10), 25, 100), 10);
    assert_eq!(cap(Some(100), 25, 100), 100);
    assert_eq!(cap(Some(101), 25, 100), 100);
    assert_eq!(cap(Some(0), 50, 200), 0);
    assert_eq!(cap(None, 50, 200), 50);
}

#[test]
fn distinct_counts_query_names_the_column() {
    assert_eq!(
        distinct_counts_sql("naics_code"),
        "SELECT naics_code, COUNT(*) as cnt FROM opportunities WHERE naics_code IS NOT NULL AND naics_code != '' GROUP BY naics_code ORDER BY cnt DESC"
    );
}
