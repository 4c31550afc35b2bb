use frogolio::clicks::{
    clicks_for, count_clicks_on, get_clicks_by_link, get_frogol_click_stats, link_belongs, Click,
    NewClick,
};
use frogolio::errors::AppError;
use frogolio::leads::{
    check_email, parse_i64, parse_score, score_for_source, Lead, LeadSummary, NewLead,
};
use frogolio::links::Link;

fn link(id: &str, frogol_id: &str, is_active: bool) -> Link {
    Link {
        id: id.to_string(),
        frogol_id: frogol_id.to_string(),
        url: "https://example.com".to_string(),
        label: id.to_string(),
        sort_order: 0,
        is_active,
        kind: "link".to_string(),
    }
}

fn click(id: &str, link_id: &str, ip: Option<&str>) -> Click {
    Click {
        id: id.to_string(),
        link_id: link_id.to_string(),
        ip_address: ip.map(|s| s.to_string()),
        user_agent: None,
    }
}

#[test]
fn profile_with_two_links_and_two_clicks_from_one_address() {
    let links = vec![link("L1", "p", true), link("L2", "p", true)];
    let clicks = vec![click("c1", "L1", Some("10.0.0.1")), click("c2", "L1", Some("10.0.0.1"))];
    let stats = get_frogol_click_stats(&links, &clicks, "p");
    assert_eq!(stats.total_clicks, 2);
    assert_eq!(stats.unique_clicks, 1);
    let per_link = get_clicks_by_link(&links, &clicks, "p");
    assert_eq!(per_link, vec![("L1".to_string(), 2), ("L2".to_string(), 0)]);
}

#[test]
fn clicks_of_other_profiles_and_unknown_links_are_not_counted() {
    let links = vec![link("L1", "p", true), link("M1", "q", true), link("L2", "p", false)];
    let clicks = vec![
        click("c1", "L1", Some("a")),
        click("c2", "M1", Some("b")),
        click("c3", "L2", Some("c")),
        click("c4", "gone", Some("d")),
        click("c5", "L2", None),
        click("c6", "L1", Some("c")),
        click("c7", "L1", Some("")),
    ];
    let stats = get_frogol_click_stats(&links, &clicks, "p");
    assert_eq!(stats.total_clicks, 5);
    assert_eq!(stats.unique_clicks, 3);
    let other = get_frogol_click_stats(&links, &clicks, "q");
    assert_eq!((other.total_clicks, other.unique_clicks), (1, 1));
    let none = get_frogol_click_stats(&links, &clicks, "nobody");
    assert_eq!((none.total_clicks, none.unique_clicks), (0, 0));
    assert_eq!(
        get_clicks_by_link(&links, &clicks, "p"),
        vec![("L1".to_string(), 3), ("L2".to_string(), 2)]
    );
    assert_eq!(get_clicks_by_link(&links, &clicks, "nobody"), vec![]);
}

#[test]
fn per_link_counts_sum_to_the_total() {
    let links = vec![link("a", "p", true), link("b", "p", true), link("c", "p", false)];
    let clicks: Vec<Click> = ["a", "b", "a", "c", "x", "a", "b"]
        .iter()
        .enumerate()
        .map(|(i, l)| click(&format!("c{}", i), l, None))
        .collect();
    let stats = get_frogol_click_stats(&links, &clicks, "p");
    let per_link = get_clicks_by_link(&links, &clicks, "p");
    assert_eq!(per_link.iter().map(|(_, n)| n).sum::<i64>(), stats.total_clicks);
    assert_eq!(stats.total_clicks, 6);
    assert_eq!(stats.unique_clicks, 0);
}

#[test]
fn a_link_listed_twice_is_counted_once() {
    let links = vec![link("a", "p", true), link("a", "p", true)];
    let clicks = vec![click("c", "a", None)];
    assert_eq!(get_clicks_by_link(&links, &clicks, "p"), vec![("a".to_string(), 1)]);
    assert_eq!(get_frogol_click_stats(&links, &clicks, "p").total_clicks, 1);
}

#[test]
fn lookup_of_a_count_defaults_to_zero() {
    let counts = vec![("a".to_string(), 4), ("b".to_string(), 0), ("a".to_string(), 9)];
    assert_eq!(clicks_for(&counts, &"a".to_string()), 4);
    assert_eq!(clicks_for(&counts, &"b".to_string()), 0);
    assert_eq!(clicks_for(&counts, &"zz".to_string()), 0);
    assert_eq!(clicks_for(&vec![], &"a".to_string()), 0);
}

#[test]
fn clicks_on_one_link_and_membership() {
    let links = vec![link("L1", "p", true)];
    let clicks = vec![click("1", "L1", None), click("2", "L2", None), click("3", "L1", None)];
    assert_eq!(count_clicks_on(&clicks, &"L1".to_string()), 2);
    assert_eq!(count_clicks_on(&clicks, &"L3".to_string()), 0);
    assert!(link_belongs(&links, &"p".to_string(), &"L1".to_string()));
    assert!(!link_belongs(&links, &"q".to_string(), &"L1".to_string()));
    assert!(!link_belongs(&links, &"p".to_string(), &"L2".to_string()));
}

#[test]
fn tracked_click_carries_what_was_seen() {
    let c = NewClick::with_id("k".to_string(), "L1", None, Some("agent".to_string()));
    assert_eq!((c.id.as_str(), c.link_id.as_str()), ("k", "L1"));
    assert_eq!(c.ip_address, None);
    assert_eq!(c.user_agent.as_deref(), Some("agent"));
    let p = NewClick::prepare("L1", Some("ip".to_string()), None);
    assert_eq!(p.id.len(), 36);
    assert_eq!(p.ip_address.as_deref(), Some("ip"));
}

#[test]
fn social_scores_eighty_and_no_source_seventy() {
    assert_eq!(score_for_source(Some("social")), 80);
    assert_eq!(score_for_source(None), 70);
}

#[test]
fn every_source_has_its_score() {
    assert_eq!(score_for_source(Some("direct")), 100);
    assert_eq!(score_for_source(Some("referral")), 90);
    assert_eq!(score_for_source(Some("")), 70);
    assert_eq!(score_for_source(Some("Direct")), 70);
    assert_eq!(score_for_source(Some("social ")), 70);
    assert_eq!(score_for_source(Some("newsletter")), 70);
}

#[test]
fn address_needs_an_at_sign() {
    assert!(check_email("a@b").is_ok());
    assert!(check_email("@").is_ok());
    for bad in ["", "nobody", "a.b.c"] {
        match check_email(bad) {
            Err(AppError::InvalidInput(m)) => assert_eq!(m, "Invalid email format"),
            other => panic!("unexpected {:?}", other),
        }
    }
}

#[test]
fn captured_lead_is_scored_by_its_source() {
    let lead =
        NewLead::with_id("id".to_string(), "f", "v@x.org", Some("referral"), Some("hi")).unwrap();
    assert_eq!(lead.id, "id");
    assert_eq!(lead.frogol_id, "f");
    assert_eq!(lead.email, "v@x.org");
    assert_eq!(lead.source.as_deref(), Some("referral"));
    assert_eq!(lead.score, Some(90));
    assert_eq!(lead.message.as_deref(), Some("hi"));
    let plain = NewLead::prepare("f", "v@x.org", None, None).unwrap();
    assert_eq!(plain.score, Some(70));
    assert_eq!(plain.source, None);
    assert_eq!(plain.id.len(), 36);
    assert!(matches!(
        NewLead::prepare("f", "nobody", Some("direct"), None),
        Err(AppError::InvalidInput(m)) if m == "Invalid email format"
    ));
}

#[test]
fn score_field_is_read_as_the_standard_library_reads_it() {
    let fields = [
        "", "0", "7", "-7", "+7", "007", "-0", "+", "-", "--1", "+-1", "1 ", " 1", "1.5", "1e3",
        "abc", "12a", "9223372036854775807", "9223372036854775808", "-9223372036854775808",
        "-9223372036854775809", "99999999999999999999999999", "\u{661}\u{662}", "1_000",
    ];
    for field in fields {
        assert_eq!(parse_score(Some(field)), field.parse::<i64>().ok(), "field {:?}", field);
    }
    assert_eq!(parse_score(None), None);
    assert_eq!(parse_score(Some("85")), Some(85));
    assert_eq!(parse_i64(&"-12".chars().collect()), Some(-12));
}

#[test]
fn stored_leads_show_their_date() {
    let lead = Lead::from_row(
        "i".into(),
        "f".into(),
        "e@x".into(),
        None,
        Some(70),
        None,
        "2024-03-05T21:07:09+00:00".into(),
    );
    assert_eq!(lead.formatted_date, "Mar 05, 2024 at 09:07 PM");
    assert_eq!(lead.created_at, "2024-03-05T21:07:09+00:00");
    let summary =
        LeadSummary::from_row("i".into(), "e@x".into(), None, None, None, "yesterday".into());
    assert_eq!(summary.formatted_date, "yesterday");
}
