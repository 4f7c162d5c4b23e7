use zephyr::{collect_bangs, parse_duckduckgo_bangs, DuckDuckGoBang, ParseError};

fn s(v: &str) -> Option<String> {
    Some(v.to_string())
}

fn record(t: &str, name: &str) -> DuckDuckGoBang {
    DuckDuckGoBang {
        category: s("Tech"),
        domain: s("www.example.com"),
        name: s(name),
        subcategory: s("Search"),
        trigger: s(t),
        url: s("https://www.example.com/?q={{{s}}}"),
        rank: Some(3),
    }
}

#[test]
fn to_bang_builds_home_url_and_category() {
    let (key, bang) = record("ex", "Example").to_bang().unwrap();
    assert_eq!(key, "ex");
    assert_eq!(bang.id, "ex");
    assert_eq!(bang.name, "Example");
    assert_eq!(bang.home_url, "https://www.example.com");
    assert_eq!(bang.category, "Tech - Search");
    assert_eq!(bang.search_url, "https://www.example.com/?q={{{s}}}");
    assert!(!bang.is_custom);
}

#[test]
fn element_missing_a_field_is_invalid() {
    let mut r = record("ex", "Example");
    assert!(r.is_valid());
    r.subcategory = None;
    assert!(!r.is_valid());
    assert!(r.to_bang().is_none());
}

#[test]
fn rank_is_not_required() {
    let mut r = record("ex", "Example");
    r.rank = None;
    assert!(r.is_valid());
}

#[test]
fn valid_elements_become_entries_and_invalid_are_counted() {
    let mut broken = record("zz", "Broken");
    broken.url = None;
    let recs = vec![record("a", "A"), broken, record("b", "B")];
    let (dir, report) = collect_bangs(&recs);
    assert_eq!(dir.len(), 2);
    assert!(dir.contains_key("a"));
    assert!(dir.contains_key("b"));
    assert!(!dir.contains_key("zz"));
    assert_eq!(report.total, 3);
    assert_eq!(report.valid, 2);
    assert_eq!(report.invalid, 1);
    assert_eq!(report.duplicates, 0);
}

#[test]
fn first_duplicate_trigger_wins() {
    let recs = vec![record("a", "First"), record("b", "B"), record("a", "Second"), record("a", "Third")];
    let (dir, report) = collect_bangs(&recs);
    assert_eq!(dir.len(), 2);
    assert_eq!(dir.get("a").unwrap().name, "First");
    assert_eq!(report.duplicates, 2);
    assert_eq!(report.valid, 2);
    assert_eq!(report.total, report.valid + report.duplicates + report.invalid);
}

#[test]
fn payload_that_is_not_an_array_is_rejected() {
    let r = parse_duckduckgo_bangs("{\"t\":\"a\"}", Some(vec![record("a", "A")]), None);
    assert!(matches!(r, Err(ParseError::InvalidFormat)));
    let r = parse_duckduckgo_bangs("   ", None, None);
    assert!(matches!(r, Err(ParseError::InvalidFormat)));
    let r = parse_duckduckgo_bangs("[", Some(vec![record("a", "A")]), None);
    assert!(matches!(r, Err(ParseError::InvalidFormat)));
}

#[test]
fn array_that_neither_decoding_reads_is_rejected() {
    let r = parse_duckduckgo_bangs("[1, 2", None, None);
    assert!(matches!(r, Err(ParseError::InvalidFormat)));
    let r = parse_duckduckgo_bangs("[garbage]", None, None);
    assert!(matches!(r, Err(ParseError::InvalidFormat)));
}

#[test]
fn array_without_valid_elements_is_empty() {
    let mut broken = record("a", "A");
    broken.trigger = None;
    let r = parse_duckduckgo_bangs("[{}]", Some(vec![broken]), None);
    assert!(matches!(r, Err(ParseError::Empty)));
    let r = parse_duckduckgo_bangs("[]", Some(vec![]), None);
    assert!(matches!(r, Err(ParseError::Empty)));
}

#[test]
fn strict_decoding_is_preferred_and_lenient_is_the_fallback() {
    let text = " \n[{\"t\":\"a\"}]\t";
    let parsed = parse_duckduckgo_bangs(text, Some(vec![record("a", "Strict")]), Some(vec![record("a", "Lenient")])).ok().unwrap();
    assert_eq!(parsed.bangs.get("a").unwrap().name, "Strict");
    let parsed = parse_duckduckgo_bangs(text, None, Some(vec![record("a", "Lenient"), record("b", "B")])).ok().unwrap();
    assert_eq!(parsed.bangs.get("a").unwrap().name, "Lenient");
    assert_eq!(parsed.bangs.len(), 2);
    assert_eq!(parsed.report.valid, 2);
}

#[test]
fn invalid_elements_anywhere_change_nothing() {
    let mut broken = record("a", "Broken");
    broken.domain = None;
    let plain = vec![record("a", "A"), record("b", "B"), record("a", "A2")];
    let mixed = vec![
        DuckDuckGoBang { category: None, domain: None, name: None, subcategory: None, trigger: None, url: None, rank: None },
        record("a", "A"),
        broken,
        record("b", "B"),
        record("a", "A2"),
    ];
    let (d1, r1) = collect_bangs(&plain);
    let (d2, r2) = collect_bangs(&mixed);
    assert_eq!(d1.len(), d2.len());
    assert_eq!(d2.get("a").unwrap().name, "A");
    assert_eq!(d1.get("a").unwrap().name, "A");
    assert_eq!(r1.duplicates, r2.duplicates);
    assert_eq!(r2.invalid, 2);
}
