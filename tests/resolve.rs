use zephyr::{
    default_search_url, ensure_url_scheme, get_bang_redirect_url, get_bang_url, is_url, resolve,
    split_bang, substitute_placeholder, trim, Bang, BangDirectory, BangState,
};

fn bang(id: &str, url: &str) -> Bang {
    Bang {
        id: id.to_string(),
        name: id.to_uppercase(),
        search_url: url.to_string(),
        home_url: String::new(),
        category: String::new(),
        is_custom: false,
    }
}

fn directory(entries: &[(&str, &str)]) -> BangDirectory {
    let mut d = BangDirectory::new();
    for (id, url) in entries {
        d.insert(id.to_string(), bang(id, url));
    }
    d
}

#[test]
fn bang_query_goes_to_the_bang() {
    let d = directory(&[("yt", "https://youtube.com/results?search_query={{{s}}}")]);
    assert_eq!(resolve(&d, "cats !yt"), "https://youtube.com/results?search_query=cats");
}

#[test]
fn bare_domain_gets_a_scheme() {
    let d = BangDirectory::new();
    assert_eq!(resolve(&d, "example.com"), "https://example.com");
}

#[test]
fn full_url_is_kept() {
    let d = BangDirectory::new();
    assert_eq!(resolve(&d, "  https://example.com/a?b=c  "), "https://example.com/a?b=c");
}

#[test]
fn plain_phrase_goes_to_default_engine() {
    let d = BangDirectory::new();
    assert_eq!(resolve(&d, "hello world"), "https://www.google.com/search?q=hello%20world");
}

#[test]
fn unknown_bang_searches_the_whole_query() {
    let d = directory(&[("g", "https://www.google.com/search?q={{{s}}}")]);
    assert_eq!(
        resolve(&d, "foo !unknownbang"),
        "https://www.google.com/search?q=foo%20%21unknownbang"
    );
}

#[test]
fn last_bang_mark_is_the_trigger() {
    let d = directory(&[("w", "https://en.wikipedia.org/wiki/Special:Search?search={{{s}}}")]);
    assert_eq!(
        get_bang_redirect_url("wow! such !w", &d),
        "https://en.wikipedia.org/wiki/Special:Search?search=wow%21%20such"
    );
}

#[test]
fn bang_alone_gives_empty_term() {
    let d = directory(&[("yt", "https://youtube.com/results?search_query={{{s}}}")]);
    assert_eq!(resolve(&d, "!yt"), "https://youtube.com/results?search_query=");
}

#[test]
fn split_at_last_mark() {
    let (term, trigger) = split_bang("  a!b !c").unwrap();
    assert_eq!(term, "a!b");
    assert_eq!(trigger, "c");
    assert!(split_bang("no mark").is_none());
}

#[test]
fn placeholder_spellings() {
    assert_eq!(substitute_placeholder("x?q={{{s}}}", "a%20b", "a b"), "x?q=a%20b");
    assert_eq!(substitute_placeholder("x?q={{{qe}}}", "a%20b", "a b"), "x?q=a%20b");
    assert_eq!(substitute_placeholder("x?q={{qe}}", "a%20b", "a b"), "x?q=a%20b");
    assert_eq!(substitute_placeholder("x?q={{q}}", "a%20b", "a b"), "x?q=a b");
    assert_eq!(substitute_placeholder("x?q=", "a%20b", "a b"), "x?q=");
    assert_eq!(substitute_placeholder("{{{s}}}/{{{s}}}", "e", "r"), "e/e");
}

#[test]
fn first_present_spelling_is_the_one_replaced() {
    assert_eq!(substitute_placeholder("{{q}}-{{{s}}}", "e", "r"), "{{q}}-e");
}

#[test]
fn get_bang_url_encodes_the_term() {
    let d = directory(&[("gh", "https://github.com/search?q={{qe}}")]);
    assert_eq!(get_bang_url(&d, "gh", "a&b c").unwrap(), "https://github.com/search?q=a%26b%20c");
    assert!(get_bang_url(&d, "GH", "x").is_none());
}

#[test]
fn raw_placeholder_is_not_encoded() {
    let d = directory(&[("r", "https://r.example/{{q}}")]);
    assert_eq!(get_bang_url(&d, "r", "a b").unwrap(), "https://r.example/a b");
}

#[test]
fn url_detection() {
    assert!(is_url("https://example.com"));
    assert!(is_url(" example.com "));
    assert!(!is_url("hello world"));
    assert!(!is_url("hello"));
    assert_eq!(ensure_url_scheme(" example.com "), "https://example.com");
    assert_eq!(ensure_url_scheme("http://a.b"), "http://a.b");
}

#[test]
fn default_search_prefix() {
    assert_eq!(default_search_url("x%20y"), "https://www.google.com/search?q=x%20y");
}

#[test]
fn trim_removes_unicode_white_space() {
    assert_eq!(trim("\u{3000} x y\t\n"), "x y");
    assert_eq!(trim("   "), "");
}

#[test]
fn state_search_uses_its_directory() {
    let mut state = BangState::new();
    assert_eq!(state.search("cats !yt"), "https://www.google.com/search?q=cats%20%21yt");
    state.replace(directory(&[("yt", "https://youtube.com/results?search_query={{{s}}}")]));
    assert_eq!(state.search("cats !yt"), "https://youtube.com/results?search_query=cats");
}

#[test]
fn query_is_trimmed_before_the_bang_is_split() {
    let d = directory(&[("yt", "https://youtube.com/results?search_query={{{s}}}")]);
    assert_eq!(resolve(&d, "cats !yt "), "https://youtube.com/results?search_query=cats");
    assert_eq!(resolve(&d, "  hello world \t"), "https://www.google.com/search?q=hello%20world");
}

#[test]
fn unreserved_ascii_is_kept_and_the_rest_is_percent_encoded() {
    let d = directory(&[("x", "https://x.example/?q={{{s}}}")]);
    assert_eq!(get_bang_url(&d, "x", "a-b_c.d~e").unwrap(), "https://x.example/?q=a-b_c.d~e");
    assert_eq!(get_bang_url(&d, "x", "a/b?c").unwrap(), "https://x.example/?q=a%2Fb%3Fc");
    assert_eq!(get_bang_url(&d, "x", "\u{e9}").unwrap(), "https://x.example/?q=%C3%A9");
}
