use crate::directory::BangDirectory;
use crate::model::BangView;
use crate::text::{
    contains_char, contains_spec, contains_str, lemma_replace_single, occurs_at, replace_all,
    replace_spec, rfind_char, trim, trim_spec,
};
use vstd::prelude::*;

verus! {

/// The percent-encoding of `s` that `urlencoding::encode` gives.
pub uninterp spec fn url_encoded(s: Seq<char>) -> Seq<char>;

/// Whether `url::Url::parse` accepts `s` as an absolute URL.
pub uninterp spec fn parses_as_url(s: Seq<char>) -> bool;

/// ASCII letters, digits and `-_.~`, which percent-encoding leaves alone.
pub open spec fn unreserved(c: char) -> bool {
    ('a' <= c && c <= 'z') || ('A' <= c && c <= 'Z') || ('0' <= c && c <= '9') || c == '-' || c
        == '_' || c == '.' || c == '~'
}

/// The uppercase hexadecimal digit of `n`, for `n < 16`.
pub open spec fn hex_digit(n: u32) -> char {
    if n < 10 {
        (('0' as u32) + n) as char
    } else {
        (('A' as u32) + n - 10) as char
    }
}

/// The percent-encoding of an ASCII string: each unreserved character as it
/// is, every other one as `%` and two uppercase hexadecimal digits.
pub open spec fn ascii_percent_encoded(s: Seq<char>) -> Seq<char>
    decreases s.len(),
{
    if s.len() == 0 {
        Seq::empty()
    } else {
        let c = s[0];
        let head = if unreserved(c) {
            seq![c]
        } else {
            seq!['%', hex_digit((c as u32) / 16), hex_digit((c as u32) % 16)]
        };
        head + ascii_percent_encoded(s.drop_first())
    }
}

/// Relies on `urlencoding::encode`: every byte of the UTF-8 encoding but
/// ASCII letters, digits and `-_.~` becomes `%` and two uppercase
/// hexadecimal digits; the result depends on `s` alone, and for an ASCII
/// string is written out in full.
#[verifier::external_body]
fn encode(s: &str) -> (r: String)
    ensures
        r@ == url_encoded(s@),
        (forall|i: int| 0 <= i < s@.len() ==> (s@[i] as u32) < 128) ==> r@
            == ascii_percent_encoded(s@),
{
    urlencoding::encode(s).into_owned()
}

/// Relies on `url::Url::parse`: whether `s` is an absolute URL; the answer
/// depends on `s` alone.
#[verifier::external_body]
fn url_parses(s: &str) -> (r: bool)
    ensures
        r == parses_as_url(s@),
{
    url::Url::parse(s).is_ok()
}

/// The template with its placeholder filled: the first spelling present of
/// `{{{s}}}`, `{{{qe}}}` and `{{qe}}` takes the encoded term, `{{q}}` the
/// raw one; a template with none of them is left as it is.
pub open spec fn substituted(template: Seq<char>, encoded: Seq<char>, raw: Seq<char>) -> Seq<
    char,
> {
    if contains_spec(template, "{{{s}}}"@) {
        replace_spec(template, "{{{s}}}"@, encoded)
    } else if contains_spec(template, "{{{qe}}}"@) {
        replace_spec(template, "{{{qe}}}"@, encoded)
    } else if contains_spec(template, "{{qe}}"@) {
        replace_spec(template, "{{qe}}"@, encoded)
    } else if contains_spec(template, "{{q}}"@) {
        replace_spec(template, "{{q}}"@, raw)
    } else {
        template
    }
}

/// `i` is the position of the last `!` in `q`.
pub open spec fn last_bang_at(q: Seq<char>, i: int) -> bool {
    0 <= i < q.len() && q[i] == '!' && forall|j: int| i < j < q.len() ==> q[j] != '!'
}

/// A query split at its last `!`: the search term before it, trimmed, and
/// the trigger after it; `None` where the query has no `!`.
pub open spec fn bang_split(q: Seq<char>) -> Option<(Seq<char>, Seq<char>)> {
    if q.contains('!') {
        let i = choose|i: int| last_bang_at(q, i);
        Some((trim_spec(q.subrange(0, i)), q.subrange(i + 1, q.len() as int)))
    } else {
        None
    }
}

/// The URL of the bang `id` for the search term `raw`, whose encoding is
/// `encoded`.
pub open spec fn bang_url(
    m: Map<Seq<char>, BangView>,
    id: Seq<char>,
    raw: Seq<char>,
    encoded: Seq<char>,
) -> Option<Seq<char>> {
    if m.contains_key(id) {
        Some(substituted(m[id].search_url, encoded, raw))
    } else {
        None
    }
}

/// The default engine's search URL for an encoded query.
pub open spec fn default_search(encoded: Seq<char>) -> Seq<char> {
    "https://www.google.com/search?q="@ + encoded
}

/// Where a search query goes: the bang named after its last `!` where the
/// directory has it, else the default engine with the whole query.
pub open spec fn redirect(m: Map<Seq<char>, BangView>, q: Seq<char>) -> Seq<char> {
    match bang_split(q) {
        Some((term, trigger)) => if m.contains_key(trigger) {
            substituted(m[trigger].search_url, url_encoded(term), term)
        } else {
            default_search(url_encoded(q))
        },
        None => default_search(url_encoded(q)),
    }
}

/// The query names a URL: as it stands once trimmed, or as a bare domain
/// with a dot once `https://` is put in front.
pub open spec fn is_url_spec(q: Seq<char>) -> bool {
    let t = trim_spec(q);
    parses_as_url(t) || (parses_as_url("https://"@ + t) && t.contains('.'))
}

/// The trimmed query, with `https://` in front unless it parses as it is.
pub open spec fn with_scheme(q: Seq<char>) -> Seq<char> {
    let t = trim_spec(q);
    if parses_as_url(t) {
        t
    } else {
        "https://"@ + t
    }
}

/// The URL a query resolves to: the query is trimmed first, then taken as
/// a URL or as a search.
pub open spec fn resolved(m: Map<Seq<char>, BangView>, q: Seq<char>) -> Seq<char> {
    if is_url_spec(q) {
        with_scheme(q)
    } else {
        redirect(m, trim_spec(q))
    }
}

/// Fills the placeholder of a search URL template.
pub fn substitute_placeholder(template: &str, encoded: &str, raw: &str) -> (r: String)
    ensures
        r@ == substituted(template@, encoded@, raw@),
{
    proof {
        reveal_strlit("{{{s}}}");
        reveal_strlit("{{{qe}}}");
        reveal_strlit("{{qe}}");
        reveal_strlit("{{q}}");
    }
    if contains_str(template, "{{{s}}}") {
        replace_all(template, "{{{s}}}", encoded)
    } else if contains_str(template, "{{{qe}}}") {
        replace_all(template, "{{{qe}}}", encoded)
    } else if contains_str(template, "{{qe}}") {
        replace_all(template, "{{qe}}", encoded)
    } else if contains_str(template, "{{q}}") {
        replace_all(template, "{{q}}", raw)
    } else {
        String::from_str(template)
    }
}

/// Splits a query at its last `!` into the trimmed search term and the
/// trigger.
pub fn split_bang(query: &str) -> (r: Option<(String, String)>)
    ensures
        match r {
            Some(p) => bang_split(query@) == Some((p.0@, p.1@)),
            None => bang_split(query@) is None,
        },
{
    match rfind_char(query, '!') {
        Some(i) => {
            let n = query.unicode_len();
            let term = trim(query.substring_char(0, i));
            let trigger = String::from_str(query.substring_char(i + 1, n));
            proof {
                assert(last_bang_at(query@, i as int));
                assert(query@.contains('!'));
                let c = choose|c: int| last_bang_at(query@, c);
                assert(c == i) by {
                    if c < i {
                        assert(query@[i as int] == '!');
                    } else if c > i {
                        assert(query@[c] == '!');
                    }
                }
            }
            Some((term, trigger))
        },
        None => {
            proof {
                if query@.contains('!') {
                    let k = choose|k: int| 0 <= k < query@.len() && query@[k] == '!';
                    assert(query@[k] != '!');
                }
            }
            None
        },
    }
}

/// The URL of the bang `bang_id` for `query`, given the encoding of
/// `query`; `None` where the directory has no such bang.
pub fn bang_url_with(bangs: &BangDirectory, bang_id: &str, query: &str, encoded: &str) -> (r:
    Option<String>)
    requires
        bangs.wf(),
    ensures
        match r {
            Some(u) => bang_url(bangs@, bang_id@, query@, encoded@) == Some(u@),
            None => bang_url(bangs@, bang_id@, query@, encoded@) is None,
        },
{
    match bangs.get(bang_id) {
        Some(bang) => Some(substitute_placeholder(bang.search_url.as_str(), encoded, query)),
        None => None,
    }
}

/// The URL of the bang `bang_id` for `query`; `None` where the directory has
/// no such bang.
pub fn get_bang_url(bangs: &BangDirectory, bang_id: &str, query: &str) -> (r: Option<String>)
    requires
        bangs.wf(),
    ensures
        match r {
            Some(u) => bang_url(bangs@, bang_id@, query@, url_encoded(query@)) == Some(u@),
            None => !bangs@.contains_key(bang_id@),
        },
{
    let encoded = encode(query);
    bang_url_with(bangs, bang_id, query, encoded.as_str())
}

/// The default engine's search URL for an already encoded query.
pub fn default_search_url(encoded: &str) -> (r: String)
    ensures
        r@ == default_search(encoded@),
{
    let mut url = String::from_str("https://www.google.com/search?q=");
    url.append(encoded);
    url
}

/// Where a search query goes: the bang after its last `!`, or the default
/// engine with the whole query.
pub fn get_bang_redirect_url(query: &str, bangs: &BangDirectory) -> (r: String)
    requires
        bangs.wf(),
    ensures
        r@ == redirect(bangs@, query@),
{
    match split_bang(query) {
        Some((term, trigger)) => {
            match get_bang_url(bangs, trigger.as_str(), term.as_str()) {
                Some(url) => {
                    return url;
                },
                None => {},
            }
        },
        None => {},
    }
    default_search_url(encode(query).as_str())
}

/// Whether the query names a URL rather than a search.
pub fn is_url(input: &str) -> (r: bool)
    ensures
        r == is_url_spec(input@),
{
    let t = trim(input);
    if url_parses(t.as_str()) {
        return true;
    }
    let mut with_https = String::from_str("https://");
    with_https.append(t.as_str());
    url_parses(with_https.as_str()) && contains_char(t.as_str(), '.')
}

/// The trimmed URL, with `https://` in front unless it parses as it is.
pub fn ensure_url_scheme(url: &str) -> (r: String)
    ensures
        r@ == with_scheme(url@),
{
    let t = trim(url);
    if url_parses(t.as_str()) {
        return t;
    }
    let mut with_https = String::from_str("https://");
    with_https.append(t.as_str());
    with_https
}

/// The URL to open for a typed query: the query itself where it names a
/// URL, else the bang or default search it asks for. Every query gives one.
pub fn resolve(bangs: &BangDirectory, query: &str) -> (r: String)
    requires
        bangs.wf(),
    ensures
        r@ == resolved(bangs@, query@),
{
    if is_url(query) {
        ensure_url_scheme(query)
    } else {
        let trimmed = trim(query);
        get_bang_redirect_url(trimmed.as_str(), bangs)
    }
}

} // verus!

verus! {

/// A template whose one placeholder is `{{{s}}}`, standing between `a` and
/// `b`, gives `a`, then the encoded term, then `b`.
pub proof fn lemma_single_placeholder(
    a: Seq<char>,
    b: Seq<char>,
    encoded: Seq<char>,
    raw: Seq<char>,
)
    requires
        forall|i: int| occurs_at(a + "{{{s}}}"@ + b, "{{{s}}}"@, i) ==> i == a.len(),
    ensures
        substituted(a + "{{{s}}}"@ + b, encoded, raw) == a + encoded + b,
{
    reveal_strlit("{{{s}}}");
    let p = "{{{s}}}"@;
    let t = a + p + b;
    assert(t.subrange(a.len() as int, (a.len() + p.len()) as int) =~= p);
    assert(occurs_at(t, p, a.len() as int));
    lemma_replace_single(a, p, b, encoded);
}

} // verus!
