use frogolio::link_order::{plan_link_order, resolve_order, scoping_link};
use frogolio::links::{hides_link, link_change, next_sort_order, Link, NewLink};
use frogolio::url::normalize_url;

fn ids(names: &[&str]) -> Vec<String> {
    names.iter().map(|n| n.to_string()).collect()
}

fn link(id: &str, url: &str, label: &str) -> Link {
    Link {
        id: id.to_string(),
        frogol_id: "f1".to_string(),
        url: url.to_string(),
        label: label.to_string(),
        sort_order: 0,
        is_active: true,
        kind: "link".to_string(),
    }
}

#[test]
fn bare_host_gets_https() {
    assert_eq!(normalize_url("example.com"), "https://example.com");
}

#[test]
fn address_with_scheme_is_unchanged() {
    assert_eq!(normalize_url("http://x"), "http://x");
    assert_eq!(normalize_url("https://x/y?z"), "https://x/y?z");
}

#[test]
fn address_is_trimmed_and_otherwise_taken_as_it_is() {
    assert_eq!(normalize_url("  example.com \n"), "https://example.com");
    assert_eq!(normalize_url(" http://x "), "http://x");
    assert_eq!(normalize_url(""), "https://");
    assert_eq!(normalize_url("HTTP://X"), "https://HTTP://X");
    assert_eq!(normalize_url("not a host"), "https://not a host");
    assert_eq!(normalize_url("\u{a0}ftp://x\u{a0}"), "https://ftp://x");
}

#[test]
fn normalising_an_address_twice_changes_nothing() {
    for raw in ["example.com", " http://x ", "", "  a b  ", "https://"] {
        let once = normalize_url(raw);
        assert_eq!(normalize_url(&once), once);
    }
}

#[test]
fn requested_links_come_first() {
    let order = resolve_order(&ids(&["C", "A"]), &ids(&["A", "B", "C"]));
    assert_eq!(order, ids(&["C", "A", "B"]));
}

#[test]
fn empty_request_keeps_the_stored_order() {
    let order = resolve_order(&ids(&[]), &ids(&["A", "B", "C"]));
    assert_eq!(order, ids(&["A", "B", "C"]));
}

#[test]
fn duplicate_in_request_is_collapsed() {
    let order = resolve_order(&ids(&["A", "A", "B"]), &ids(&["A", "B", "C"]));
    assert_eq!(order, ids(&["A", "B", "C"]));
}

#[test]
fn ids_that_are_no_active_link_are_ignored() {
    let order = resolve_order(&ids(&["X", "C", "Y", "X"]), &ids(&["A", "B", "C"]));
    assert_eq!(order, ids(&["C", "A", "B"]));
    let order = resolve_order(&ids(&["X"]), &ids(&["A", "B"]));
    assert_eq!(order, ids(&["A", "B"]));
    let order = resolve_order(&ids(&["X"]), &ids(&[]));
    assert_eq!(order, ids(&[]));
}

#[test]
fn complete_request_is_obeyed() {
    let order = resolve_order(&ids(&["B", "C", "A"]), &ids(&["A", "B", "C"]));
    assert_eq!(order, ids(&["B", "C", "A"]));
}

#[test]
fn resolved_order_is_a_rearrangement_of_the_stored_links() {
    let existing = ids(&["l1", "l2", "l3", "l4", "l5"]);
    let order = resolve_order(&ids(&["l4", "zz", "l2", "l4"]), &existing);
    assert_eq!(order, ids(&["l4", "l2", "l1", "l3", "l5"]));
    let mut sorted = order.clone();
    sorted.sort();
    assert_eq!(sorted, existing);
}

#[test]
fn plan_assigns_dense_positions() {
    let plan = plan_link_order(&ids(&["C", "A"]), &ids(&["A", "B", "C"]));
    let got: Vec<(String, i64)> = plan.into_iter().map(|a| (a.link_id, a.sort_order)).collect();
    assert_eq!(
        got,
        vec![("C".to_string(), 0), ("A".to_string(), 1), ("B".to_string(), 2)]
    );
}

#[test]
fn empty_request_plans_no_write() {
    assert!(plan_link_order(&ids(&[]), &ids(&["A", "B"])).is_empty());
    assert!(scoping_link(&ids(&[])).is_none());
}

#[test]
fn first_requested_link_scopes_the_reorder() {
    let requested = ids(&["C", "A"]);
    assert_eq!(scoping_link(&requested), Some(&"C".to_string()));
}

#[test]
fn added_link_is_normalised_active_and_plain() {
    let new = NewLink::with_id("id-1".to_string(), "f1", " example.com ", "Home", 3);
    assert_eq!(new.id, "id-1");
    assert_eq!(new.frogol_id, "f1");
    assert_eq!(new.url, "https://example.com");
    assert_eq!(new.label, "Home");
    assert_eq!(new.sort_order, 3);
    assert!(new.is_active);
    assert_eq!(new.kind, "link");
}

#[test]
fn prepared_links_get_different_identifiers() {
    let a = NewLink::prepare("f1", "http://a", "A", 0);
    let b = NewLink::prepare("f1", "http://a", "A", 0);
    assert_eq!(a.id.len(), 36);
    assert_ne!(a.id, b.id);
    assert_eq!(a.url, "http://a");
}

#[test]
fn position_behind_the_last_link() {
    assert_eq!(next_sort_order(None), 0);
    assert_eq!(next_sort_order(Some(0)), 1);
    assert_eq!(next_sort_order(Some(41)), 42);
    assert_eq!(next_sort_order(Some(-1)), 0);
}

#[test]
fn link_is_shown_by_its_label() {
    assert_eq!(link("l1", "https://x", "My site").display_text(), "My site");
}

#[test]
fn change_takes_missing_parts_from_the_stored_link() {
    let stored = link("l1", "https://old.example", "Old");
    assert!(link_change(&stored, None, None).is_none());
    let c = link_change(&stored, Some("new.example"), None).unwrap();
    assert_eq!((c.url.as_str(), c.label.as_str()), ("https://new.example", "Old"));
    let c = link_change(&stored, None, Some("New")).unwrap();
    assert_eq!((c.url.as_str(), c.label.as_str()), ("https://old.example", "New"));
    let c = link_change(&stored, Some("http://n"), Some("N")).unwrap();
    assert_eq!((c.url.as_str(), c.label.as_str()), ("http://n", "N"));
}

#[test]
fn only_deactivation_hides_a_link() {
    assert!(hides_link(Some(false)));
    assert!(!hides_link(Some(true)));
    assert!(!hides_link(None));
}

#[test]
fn stored_row_defaults_to_an_active_plain_link() {
    let row = |is_active: Option<i64>, kind: Option<&str>| {
        Link::from_row(
            "l".into(),
            "f".into(),
            "https://x".into(),
            "X".into(),
            4,
            is_active,
            kind.map(|k| k.to_string()),
        )
    };
    let l = row(None, None);
    assert!(l.is_active);
    assert_eq!(l.kind, "link");
    assert_eq!((l.id.as_str(), l.frogol_id.as_str(), l.sort_order), ("l", "f", 4));
    assert!(!row(Some(0), Some("header")).is_active);
    assert!(row(Some(1), None).is_active);
    assert!(row(Some(-3), None).is_active);
    assert_eq!(row(Some(0), Some("header")).kind, "header");
}
