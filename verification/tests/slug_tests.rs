use frogolio::errors::AppError;
use frogolio::slug::normalize_slug;

fn slug(raw: &str) -> String {
    normalize_slug(raw).expect("a slug")
}

fn refusal(raw: &str) -> String {
    match normalize_slug(raw) {
        Err(AppError::InvalidInput(message)) => message,
        other => panic!("expected InvalidInput, got {:?}", other),
    }
}

#[test]
fn address_becomes_host_slug() {
    assert_eq!(slug("HTTPS://WWW.Example.com/abc"), "example-com");
}

#[test]
fn underscores_alone_leave_nothing() {
    assert_eq!(refusal("___"), "Invalid slug");
}

#[test]
fn reserved_word_is_refused_in_any_case() {
    assert_eq!(refusal("Login"), "Slug is reserved");
}

#[test]
fn every_reserved_path_is_refused() {
    for word in ["login", "logout", "register", "dashboard", "api", "static"] {
        assert_eq!(refusal(word), "Slug is reserved");
        assert_eq!(refusal(&format!("  {}  ", word.to_uppercase())), "Slug is reserved");
    }
}

#[test]
fn dotted_reserved_name_is_dashed_and_kept() {
    assert_eq!(slug("favicon.ico"), "favicon-ico");
}

#[test]
fn empty_and_blank_input_is_invalid() {
    assert_eq!(refusal(""), "Invalid slug");
    assert_eq!(refusal("   \t\n"), "Invalid slug");
    assert_eq!(refusal("!!!"), "Invalid slug");
    assert_eq!(refusal("https://"), "Invalid slug");
    assert_eq!(refusal("/path"), "Invalid slug");
}

#[test]
fn only_one_protocol_is_stripped() {
    assert_eq!(slug("http://https://x"), "https");
    assert_eq!(slug("https://http://x"), "http");
    assert_eq!(slug("http://example.org"), "example-org");
}

#[test]
fn www_is_stripped_after_the_protocol_only_once() {
    assert_eq!(slug("www.www.site.io"), "www-site-io");
    assert_eq!(slug("https://www.site.io"), "site-io");
    assert_eq!(slug("wwwx.io"), "wwwx-io");
}

#[test]
fn only_the_first_path_segment_is_kept() {
    assert_eq!(slug("my page/about/team"), "my-page");
    assert_eq!(slug("shop.example.com/cart?id=1"), "shop-example-com");
}

#[test]
fn whitespace_runs_become_single_dashes() {
    assert_eq!(slug("  my   cool \t page  "), "my-cool-page");
    assert_eq!(slug("a \n b"), "a-b");
    assert_eq!(slug("https:// spaced"), "spaced");
    assert_eq!(slug("front /back"), "front");
}

#[test]
fn underscores_map_to_dashes_and_other_characters_are_dropped() {
    assert_eq!(slug("my_page"), "my-page");
    assert_eq!(slug("caf\u{e9}!"), "caf");
    assert_eq!(slug("a@b#c$1"), "abc1");
    assert_eq!(slug("a-!-b"), "a-b");
}

#[test]
fn dashes_are_collapsed_and_trimmed() {
    assert_eq!(slug("--a---b--"), "a-b");
    assert_eq!(slug("_.-a.-_b-._"), "a-b");
    assert_eq!(refusal("..."), "Invalid slug");
    assert_eq!(refusal("-_-"), "Invalid slug");
}

#[test]
fn unicode_case_and_space_follow_the_standard_library() {
    // The Kelvin sign lowers to an ASCII k; a no-break space separates words.
    assert_eq!(slug("\u{212a}elvin"), "kelvin");
    assert_eq!(slug("a\u{a0}b"), "a-b");
    assert_eq!(slug("\u{3000}Wide\u{3000}"), "wide");
    assert_eq!(slug("\u{130}stanbul"), "istanbul");
}

#[test]
fn normalising_twice_changes_nothing() {
    let inputs = [
        "HTTPS://WWW.Example.com/abc",
        "  My  Cool_Page ",
        "a--b__c..d",
        "x",
        "\u{212a}elvin \u{a0} scale",
        "favicon.ico",
        "007",
    ];
    for raw in inputs {
        let once = slug(raw);
        assert_eq!(slug(&once), once, "input {:?}", raw);
    }
}

#[test]
fn slugs_are_well_formed() {
    let inputs = ["--A b_c..D//e", "HTTP://WWW.a-.-b.COM", " 9 lives ", "x_y-z"];
    for raw in inputs {
        let s = slug(raw);
        assert!(!s.is_empty());
        assert!(s.chars().all(|c| c.is_ascii_lowercase() || c.is_ascii_digit() || c == '-'));
        assert!(!s.starts_with('-') && !s.ends_with('-') && !s.contains("--"));
    }
}
