use broken_links::html::find_links;
use broken_links::html::is_denied_link;
use broken_links::scope::ScopeRule;
use broken_links::text::contains_str;
use broken_links::text::starts_with;
use broken_links::text::str_eq;

#[test]
fn string_equality_is_character_for_character() {
    assert!(str_eq("ex.com", "ex.com"));
    assert!(!str_eq("ex.com", "ex.org"));
    assert!(!str_eq("ex.com", "ex.com."));
    assert!(str_eq("", ""));
}

#[test]
fn prefix_test_matches_literal_prefixes() {
    assert!(starts_with("mailto:someone", "mailto:"));
    assert!(!starts_with("mail", "mailto:"));
    assert!(!starts_with("xmailto:", "mailto:"));
    assert!(starts_with("anything", ""));
}

#[test]
fn substring_search_finds_inner_runs() {
    assert!(contains_str("mirror-ex.com", "ex"));
    assert!(contains_str("ex.com", "ex"));
    assert!(!contains_str("sample.org", "ex"));
    assert!(contains_str("abc", ""));
    assert!(!contains_str("ab", "abc"));
}

#[test]
fn scope_rule_is_exact_or_fuzzy() {
    let exact = ScopeRule { root_domain: String::from("ex.com"), fuzzy: None };
    assert!(exact.admits("ex.com"));
    assert!(!exact.admits("mirror-ex.com"));
    // case-sensitive on the literal strings
    assert!(!exact.admits("EX.com"));

    let fuzzy = ScopeRule { root_domain: String::from("ex.com"), fuzzy: Some(String::from("ex")) };
    assert!(fuzzy.admits("ex.com"));
    assert!(fuzzy.admits("mirror-ex.com"));
    assert!(!fuzzy.admits("sample.org"));
}

#[test]
fn denied_targets_are_schemes_and_placeholders() {
    assert!(is_denied_link("mailto:a@ex.com"));
    assert!(is_denied_link("ftp://ex.com/f"));
    assert!(is_denied_link("tel:12345"));
    assert!(is_denied_link("#"));
    assert!(is_denied_link("javascript:void(0)"));
    assert!(!is_denied_link("/page"));
    assert!(!is_denied_link("https://ex.com/"));
    // only the exact placeholder and the exact scheme prefixes count
    assert!(!is_denied_link("#fragment"));
    assert!(!is_denied_link("telephone"));
}

#[test]
fn find_links_extracts_anchor_hrefs_in_order() {
    let html = "<html><body>\
        <a href=\"/one\">1</a>\
        <link href=\"style.css\">\
        <a>no target</a>\
        <a href=\"/two\">2</a>\
        </body></html>";
    let links = find_links(html);
    assert_eq!(links, vec![String::from("/one"), String::from("/two")]);
}

#[test]
fn find_links_drops_denied_targets() {
    let html = "<a href=\"mailto:a@ex.com\">m</a>\
        <a href=\"/keep\">k</a>\
        <a href=\"#\">p</a>\
        <a href=\"javascript:void(0)\">j</a>";
    let links = find_links(html);
    assert_eq!(links, vec![String::from("/keep")]);
}

#[test]
fn find_links_on_plain_text_is_empty() {
    assert!(find_links("no anchors here").is_empty());
}
