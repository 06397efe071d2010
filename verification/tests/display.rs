use govscout::api::{
    ApiResponse, Award, Awardee, Opportunity, PlaceOfPerformance, PlaceValue, PointOfContact,
};
use govscout::display::{
    collapse_lines, detail_lines, search_row, search_rows, split_lines, strip_html, strip_tags,
    truncate,
};

#[test]
fn test_truncate_short_string() {
    assert_eq!(truncate("hello", 10), "hello");
}

#[test]
fn test_truncate_exact_length() {
    assert_eq!(truncate("hello", 5), "hello");
}

#[test]
fn test_truncate_long_string() {
    let result = truncate("hello world", 5);
    assert_eq!(result, "hell…");
}

#[test]
fn test_truncate_empty() {
    assert_eq!(truncate("", 10), "");
}

#[test]
fn test_strip_html_tags() {
    let input = "<p>Hello <b>world</b></p>";
    let result = strip_html(input);
    assert_eq!(result.trim(), "Hello world");
}

#[test]
fn test_strip_html_entities() {
    let input = "&amp; &lt; &gt; &nbsp; &#39; &quot;";
    let result = strip_html(input);
    assert_eq!(result.trim(), "& < >   ' \"");
}

#[test]
fn test_strip_html_collapses_blank_lines() {
    let input = "line1\n\n\n\nline2";
    let result = strip_html(input);
    assert_eq!(result, "line1\n\nline2\n");
}

#[test]
fn truncate_counts_characters_not_bytes() {
    assert_eq!(truncate("äöüß", 4), "äöüß");
    assert_eq!(truncate("äöüßx", 4), "äöü…");
    assert_eq!(truncate("ab", 1), "…");
    assert_eq!(truncate("", 0), "");
}

#[test]
fn strip_tags_drops_what_stands_inside_a_tag() {
    assert_eq!(strip_tags("a<b c=\"d\">e</b>f"), "aef");
    assert_eq!(strip_tags("x > y"), "x  y");
    assert_eq!(strip_tags("cut <off"), "cut ");
    assert_eq!(strip_tags("a<<b>c>d"), "acd");
    assert_eq!(strip_tags(""), "");
}

#[test]
fn strip_html_decodes_entities_in_order() {
    // "&amp;lt;" becomes "&lt;" first and "<" after that.
    assert_eq!(strip_html("&amp;lt;"), "<\n");
    assert_eq!(strip_html("a&nbsp;b"), "a b\n");
    assert_eq!(strip_html("&unknown;"), "&unknown;\n");
}

#[test]
fn collapse_lines_matches_lines_and_trim() {
    let cases = [
        "",
        "\n",
        "a",
        "a\n",
        "a\n\n",
        "\n\na\n\n\nb\n\n",
        "  a  \r\n\t\r\n  \r\n b\r",
        "x\u{a0}\n\u{2003}\n\u{3000}y\u{85}",
        "one\rtwo\n \u{1680} \nthree",
    ];
    for case in cases {
        let mut expected = String::new();
        let mut prev_blank = false;
        for line in case.lines() {
            let t = line.trim();
            if t.is_empty() {
                if !prev_blank {
                    expected.push('\n');
                }
                prev_blank = true;
            } else {
                expected.push_str(t);
                expected.push('\n');
                prev_blank = false;
            }
        }
        assert_eq!(collapse_lines(case), expected, "case {:?}", case);
    }
}

fn shown_notice() -> Opportunity {
    Opportunity {
        notice_id: Some("ABC123".into()),
        title: Some("Cloud Services".into()),
        solicitation_number: Some("SOL-001".into()),
        department: Some("DOD".into()),
        sub_tier: Some("Army".into()),
        office: Some("ACC".into()),
        full_parent_path_name: Some("DOD.Army.ACC".into()),
        organization_type: Some("DEPT/AGENCY".into()),
        opp_type: Some("Solicitation".into()),
        base_type: Some("Presolicitation".into()),
        posted_date: Some("01/15/2026".into()),
        response_deadline: Some("02/15/2026".into()),
        archive_date: None,
        naics_code: Some("541512".into()),
        classification_code: Some("D302".into()),
        set_aside: Some("SBA".into()),
        set_aside_description: Some("Total Small Business".into()),
        description: Some("<p>Need cloud</p>\n\n\n<ul><li>fast &amp; cheap</li></ul>".into()),
        ui_link: Some("https://sam.gov/opp/abc".into()),
        resource_links: Some(vec!["https://example.com/a.pdf".into(), "https://example.com/b".into()]),
        award: Some(Award {
            amount: Some("1000000".into()),
            date: None,
            number: Some("AWD-001".into()),
            awardee: Some(Awardee {
                name: Some("Acme Corp".into()),
                duns: Some("123456789".into()),
                uei_sam: Some("UEI123".into()),
            }),
        }),
        point_of_contact: Some(vec![
            PointOfContact {
                contact_type: Some("Primary".into()),
                full_name: Some("Jane Doe".into()),
                email: Some("jane@gov.gov".into()),
                phone: Some("555-1234".into()),
                title: Some("Contracting Officer".into()),
            },
            PointOfContact {
                contact_type: None,
                full_name: Some("John Roe".into()),
                email: None,
                phone: Some("555-9999".into()),
                title: None,
            },
            PointOfContact {
                contact_type: Some("Secondary".into()),
                full_name: None,
                email: Some("nobody@gov.gov".into()),
                phone: None,
                title: None,
            },
        ]),
        place_of_performance: Some(PlaceOfPerformance {
            state: Some(PlaceValue { code: Some("VA".into()), name: Some("Virginia".into()) }),
            city: Some(PlaceValue { code: Some("001".into()), name: None }),
            country: None,
            zip: Some("22201".into()),
        }),
        active: Some("Yes".into()),
    }
}

fn bare_notice() -> Opportunity {
    Opportunity {
        notice_id: None,
        title: None,
        solicitation_number: None,
        department: None,
        sub_tier: None,
        office: None,
        full_parent_path_name: None,
        organization_type: None,
        opp_type: None,
        base_type: None,
        posted_date: None,
        response_deadline: None,
        archive_date: None,
        naics_code: None,
        classification_code: None,
        set_aside: None,
        set_aside_description: None,
        description: None,
        ui_link: None,
        resource_links: None,
        award: None,
        point_of_contact: None,
        place_of_performance: None,
        active: None,
    }
}

/// The detail view as the formatting machinery of the standard library writes it.
fn expected_detail(opp: &Opportunity) -> Vec<String> {
    let mut out: Vec<String> = Vec::new();
    let mut field = |out: &mut Vec<String>, label: &str, value: Option<&str>| {
        if let Some(v) = value {
            out.push(format!("  {:<22} {}", label, v));
        }
    };
    out.push(String::new());
    out.push(format!("  ═══ {} ═══", opp.title.as_deref().unwrap_or("Untitled")));
    out.push(String::new());
    field(&mut out, "Notice ID:", opp.notice_id.as_deref());
    field(&mut out, "Solicitation #:", opp.solicitation_number.as_deref());
    field(&mut out, "Type:", opp.opp_type.as_deref());
    field(&mut out, "Base Type:", opp.base_type.as_deref());
    field(&mut out, "Active:", opp.active.as_deref());
    out.push(String::new());
    out.push("  ── Organization ──".to_string());
    field(&mut out, "Organization:", opp.full_parent_path_name.as_deref());
    field(&mut out, "Department:", opp.department.as_deref());
    field(&mut out, "Sub-tier:", opp.sub_tier.as_deref());
    field(&mut out, "Office:", opp.office.as_deref());
    out.push(String::new());
    out.push("  ── Dates ──".to_string());
    field(&mut out, "Posted:", opp.posted_date.as_deref());
    field(&mut out, "Response Deadline:", opp.response_deadline.as_deref());
    field(&mut out, "Archive Date:", opp.archive_date.as_deref());
    out.push(String::new());
    out.push("  ── Classification ──".to_string());
    field(&mut out, "NAICS Code:", opp.naics_code.as_deref());
    field(&mut out, "Classification Code:", opp.classification_code.as_deref());
    field(&mut out, "Set-Aside:", opp.set_aside.as_deref());
    field(&mut out, "Set-Aside Desc:", opp.set_aside_description.as_deref());
    out.push(String::new());
    if let Some(ref pop) = opp.place_of_performance {
        out.push("  ── Place of Performance ──".to_string());
        if let Some(ref city) = pop.city {
            field(&mut out, "City:", city.name.as_deref());
        }
        if let Some(ref state) = pop.state {
            field(&mut out, "State:", state.name.as_deref());
        }
        if let Some(ref country) = pop.country {
            field(&mut out, "Country:", country.name.as_deref());
        }
        field(&mut out, "ZIP:", pop.zip.as_deref());
        out.push(String::new());
    }
    if let Some(ref contacts) = opp.point_of_contact {
        if !contacts.is_empty() {
            out.push("  ── Point(s) of Contact ──".to_string());
            for poc in contacts {
                if let Some(ref name) = poc.full_name {
                    out.push(format!("    {} {}", poc.contact_type.as_deref().unwrap_or(""), name));
                }
                if let Some(ref email) = poc.email {
                    out.push(format!("      Email: {email}"));
                }
                if let Some(ref phone) = poc.phone {
                    out.push(format!("      Phone: {phone}"));
                }
            }
            out.push(String::new());
        }
    }
    if let Some(ref award) = opp.award {
        out.push("  ── Award ──".to_string());
        field(&mut out, "Amount:", award.amount.as_deref());
        field(&mut out, "Date:", award.date.as_deref());
        field(&mut out, "Number:", award.number.as_deref());
        if let Some(ref awardee) = award.awardee {
            field(&mut out, "Awardee:", awardee.name.as_deref());
            field(&mut out, "UEI:", awardee.uei_sam.as_deref());
        }
        out.push(String::new());
    }
    if let Some(ref link) = opp.ui_link {
        out.push("  ── Links ──".to_string());
        out.push(format!("  SAM.gov:  {link}"));
    }
    if let Some(ref links) = opp.resource_links {
        for l in links {
            out.push(format!("  Resource: {l}"));
        }
    }
    if let Some(ref desc) = opp.description {
        out.push(String::new());
        out.push("  ── Description ──".to_string());
        let clean = strip_html(desc);
        let lines: Vec<&str> = clean.lines().collect();
        for line in lines.iter().take(30) {
            out.push(format!("  {line}"));
        }
        if lines.len() > 30 {
            out.push("  ... (truncated)".to_string());
        }
    }
    out.push(String::new());
    out
}

#[test]
fn detail_view_of_a_full_notice() {
    let opp = shown_notice();
    let lines = detail_lines(&opp);
    assert_eq!(lines, expected_detail(&opp));
    assert!(lines.contains(&"  Notice ID:             ABC123".to_string()));
    assert!(lines.contains(&"  Classification Code:   D302".to_string()));
    assert!(lines.contains(&"     John Roe".to_string()));
    assert!(lines.contains(&"  fast & cheap".to_string()));
}

#[test]
fn detail_view_of_a_bare_notice() {
    let opp = bare_notice();
    assert_eq!(detail_lines(&opp), expected_detail(&opp));
    let mut empty_lists = bare_notice();
    empty_lists.point_of_contact = Some(vec![]);
    empty_lists.resource_links = Some(vec![]);
    empty_lists.description = Some(String::new());
    assert_eq!(detail_lines(&empty_lists), expected_detail(&empty_lists));
}

#[test]
fn detail_view_cuts_a_long_description() {
    let mut opp = bare_notice();
    let text: Vec<String> = (0..45).map(|i| format!("<p>line {i}</p>")).collect();
    opp.description = Some(text.join("\n"));
    let lines = detail_lines(&opp);
    assert_eq!(lines, expected_detail(&opp));
    assert_eq!(lines[lines.len() - 2], "  ... (truncated)");
    assert_eq!(lines[lines.len() - 3], "  line 29");
    opp.description = Some(text[..30].join("\n"));
    let lines = detail_lines(&opp);
    assert_eq!(lines, expected_detail(&opp));
    assert_eq!(lines[lines.len() - 2], "  line 29");
}

#[test]
fn split_lines_agrees_with_the_standard_library() {
    for case in ["", "\n", "a", "a\n", "a\n\nb", "\n\n", "x\ny\nz\n"] {
        let expected: Vec<String> = case.lines().map(|l| l.to_string()).collect();
        assert_eq!(split_lines(case), expected, "case {:?}", case);
    }
}

#[test]
fn search_row_shortens_and_fills_in() {
    let mut opp = shown_notice();
    opp.title = Some("x".repeat(51));
    let row = search_row(&opp);
    assert_eq!(row.notice_id, "ABC123");
    assert_eq!(row.title, format!("{}…", "x".repeat(49)));
    assert_eq!(row.opp_type, "Presolicitation");
    assert_eq!(row.posted, "01/15/2026");
    assert_eq!(row.org, "DOD.Army.ACC");
    opp.full_parent_path_name = None;
    assert_eq!(search_row(&opp).org, "DOD");
    opp.department = None;
    assert_eq!(search_row(&opp).org, "Army");
    opp.sub_tier = Some("y".repeat(41));
    assert_eq!(search_row(&opp).org, format!("{}…", "y".repeat(39)));
    let row = search_row(&bare_notice());
    assert_eq!(
        (row.notice_id, row.title, row.opp_type, row.posted, row.org),
        ("—".to_string(), "—".to_string(), "—".to_string(), "—".to_string(), "—".to_string())
    );
}

#[test]
fn search_rows_follow_the_records() {
    let none = ApiResponse { total_records: None, opportunities_data: None };
    assert!(search_rows(&none).is_empty());
    let two = ApiResponse {
        total_records: Some(2),
        opportunities_data: Some(vec![shown_notice(), bare_notice()]),
    };
    let rows = search_rows(&two);
    assert_eq!(rows.len(), 2);
    assert_eq!(rows[0].title, "Cloud Services");
    assert_eq!(rows[1].title, "—");
}
