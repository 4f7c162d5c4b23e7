use crate::directory::BangDirectory;
use crate::model::{BangView, DuckDuckGoBang};
use crate::text::{trim, trim_spec};
use vstd::prelude::*;

verus! {

/// Why a feed gave no directory.
#[derive(Debug, Clone, Copy, PartialEq, Eq, Structural)]
pub enum ParseError {
    /// The payload is not a JSON array, or no decoding of it succeeded.
    InvalidFormat,
    /// The array held no valid element.
    Empty,
}

/// Counts over the elements of one feed, for diagnostics.
#[derive(Debug, Clone, Copy, PartialEq, Eq, Structural)]
pub struct ParseReport {
    pub total: usize,
    pub valid: usize,
    pub duplicates: usize,
    pub invalid: usize,
}

/// A parsed feed: the directory and the counts behind it.
pub struct ParsedFeed {
    pub bangs: BangDirectory,
    pub report: ParseReport,
}

/// The directory that a run of feed elements gives: each valid element is
/// keyed by its trigger, and the first element with a trigger wins.
pub open spec fn collected(recs: Seq<DuckDuckGoBang>) -> Map<Seq<char>, BangView>
    decreases recs.len(),
{
    if recs.len() == 0 {
        Map::empty()
    } else {
        let m = collected(recs.drop_last());
        let r = recs.last()@;
        if r.is_valid() && !m.contains_key(r.trigger->0) {
            m.insert(r.trigger->0, r.to_bang())
        } else {
            m
        }
    }
}

/// How many elements lack a required field.
pub open spec fn invalid_count(recs: Seq<DuckDuckGoBang>) -> nat
    decreases recs.len(),
{
    if recs.len() == 0 {
        0
    } else {
        invalid_count(recs.drop_last()) + if recs.last()@.is_valid() {
            0nat
        } else {
            1nat
        }
    }
}

/// How many valid elements repeat a trigger of an earlier valid element.
pub open spec fn duplicate_count(recs: Seq<DuckDuckGoBang>) -> nat
    decreases recs.len(),
{
    if recs.len() == 0 {
        0
    } else {
        let r = recs.last()@;
        duplicate_count(recs.drop_last()) + if r.is_valid() && collected(
            recs.drop_last(),
        ).contains_key(r.trigger->0) {
            1nat
        } else {
            0nat
        }
    }
}

/// The triggers of the valid elements.
pub open spec fn valid_triggers(recs: Seq<DuckDuckGoBang>) -> Set<Seq<char>> {
    Set::new(|t: Seq<char>| exists|i: int| 0 <= i < recs.len() && #[trigger] recs[i]@.is_valid() && recs[i]@.trigger->0 == t)
}

/// `i` is the first valid element with trigger `t`.
pub open spec fn first_with_trigger(recs: Seq<DuckDuckGoBang>, i: int, t: Seq<char>) -> bool {
    &&& 0 <= i < recs.len()
    &&& recs[i]@.is_valid()
    &&& recs[i]@.trigger->0 == t
    &&& forall|j: int| 0 <= j < i ==> !(#[trigger] recs[j]@.is_valid() && recs[j]@.trigger->0 == t)
}

/// The trimmed payload is bracketed as a JSON array.
pub open spec fn framed_as_array(text: Seq<char>) -> bool {
    let t = trim_spec(text);
    t.len() > 0 && t[0] == '[' && t.last() == ']'
}

/// Elements of a feed turned into a directory: invalid elements are
/// skipped, and of several valid elements with one trigger the first is
/// kept.
pub fn collect_bangs(records: &Vec<DuckDuckGoBang>) -> (r: (BangDirectory, ParseReport))
    ensures
        r.0.wf(),
        r.0@ == collected(records@),
        r.1.total == records@.len(),
        r.1.valid == collected(records@).len(),
        r.1.duplicates == duplicate_count(records@),
        r.1.invalid == invalid_count(records@),
{
    let mut bangs = BangDirectory::new();
    let mut duplicates: usize = 0;
    let mut invalid: usize = 0;
    let mut i: usize = 0;
    while i < records.len()
        invariant
            i <= records@.len(),
            bangs.wf(),
            bangs@ == collected(records@.take(i as int)),
            duplicates == duplicate_count(records@.take(i as int)),
            invalid == invalid_count(records@.take(i as int)),
            duplicates <= i,
            invalid <= i,
        decreases records@.len() - i,
    {
        let ghost prev = records@.take(i as int);
        assert(records@.take(i + 1).drop_last() =~= prev);
        let rec = &records[i];
        match rec.to_bang() {
            None => {
                invalid = invalid + 1;
            },
            Some((key, bang)) => {
                if !bangs.insert_new(key, bang) {
                    duplicates = duplicates + 1;
                }
            },
        }
        i = i + 1;
    }
    assert(records@.take(records@.len() as int) =~= records@);
    let valid = bangs.len();
    let report = ParseReport { total: records.len(), valid, duplicates, invalid };
    (bangs, report)
}

/// Turns a fetched feed into a directory. `strict` is the feed decoded
/// field by field as a whole array, `None` where that decoding failed;
/// `lenient` is the feed decoded element by element as generic objects,
/// `None` where even that failed. The strict decoding is used when there is
/// one, the lenient one otherwise.
pub fn parse_duckduckgo_bangs(
    js_content: &str,
    strict: Option<Vec<DuckDuckGoBang>>,
    lenient: Option<Vec<DuckDuckGoBang>>,
) -> (r: Result<ParsedFeed, ParseError>)
    ensures
        !framed_as_array(js_content@) ==> r == Err::<ParsedFeed, ParseError>(
            ParseError::InvalidFormat,
        ),
        framed_as_array(js_content@) && strict is None && lenient is None ==> r == Err::<
            ParsedFeed,
            ParseError,
        >(ParseError::InvalidFormat),
        framed_as_array(js_content@) && (strict is Some || lenient is Some) ==> {
            let recs = if strict is Some {
                strict->0@
            } else {
                lenient->0@
            };
            &&& collected(recs).len() == 0 ==> r == Err::<ParsedFeed, ParseError>(
                ParseError::Empty,
            )
            &&& collected(recs).len() > 0 ==> r is Ok && r->Ok_0.bangs.wf() && r->Ok_0.bangs@
                == collected(recs) && r->Ok_0.report.total == recs.len()
                && r->Ok_0.report.valid == collected(recs).len()
                && r->Ok_0.report.duplicates == duplicate_count(recs)
                && r->Ok_0.report.invalid == invalid_count(recs)
        },
{
    let trimmed = trim(js_content);
    let n = trimmed.as_str().unicode_len();
    if n == 0 || trimmed.as_str().get_char(0) != '[' || trimmed.as_str().get_char(n - 1) != ']' {
        return Err(ParseError::InvalidFormat);
    }
    let records = match strict {
        Some(recs) => recs,
        None => match lenient {
            Some(recs) => recs,
            None => {
                return Err(ParseError::InvalidFormat);
            },
        },
    };
    let (bangs, report) = collect_bangs(&records);
    if bangs.is_empty() {
        return Err(ParseError::Empty);
    }
    Ok(ParsedFeed { bangs, report })
}

} // verus!

verus! {

/// The elements that lack a required field.
pub open spec fn invalid_elements(recs: Seq<DuckDuckGoBang>) -> Seq<DuckDuckGoBang> {
    recs.filter(|r: DuckDuckGoBang| !r@.is_valid())
}

proof fn lemma_collected_shape(recs: Seq<DuckDuckGoBang>)
    ensures
        collected(recs).dom().finite(),
        forall|t: Seq<char>|
            collected(recs).contains_key(t) <==> exists|i: int|
                0 <= i < recs.len() && #[trigger] recs[i]@.is_valid() && recs[i]@.trigger->0 == t,
        forall|t: Seq<char>| #[trigger]
            collected(recs).contains_key(t) ==> exists|i: int| first_with_trigger(recs, i, t),
        forall|i: int, t: Seq<char>| #[trigger]
            first_with_trigger(recs, i, t) ==> collected(recs)[t] == recs[i]@.to_bang(),
        invalid_count(recs) == invalid_elements(recs).len(),
        recs.len() == collected(recs).len() + duplicate_count(recs) + invalid_count(recs),
    decreases recs.len(),
{
    reveal(Seq::filter);
    if recs.len() > 0 {
        let p = recs.drop_last();
        let n = recs.len() - 1;
        lemma_collected_shape(p);
        assert(forall|i: int| 0 <= i < n ==> p[i] == recs[i]);
        let r = recs.last()@;
        let m = collected(p);
        assert forall|t: Seq<char>|
            collected(recs).contains_key(t) <==> exists|i: int|
                0 <= i < recs.len() && #[trigger] recs[i]@.is_valid() && recs[i]@.trigger->0
                    == t by {
            if m.contains_key(t) {
                let i = choose|i: int|
                    0 <= i < p.len() && #[trigger] p[i]@.is_valid() && p[i]@.trigger->0 == t;
                assert(recs[i]@.is_valid());
            }
            if exists|i: int|
                0 <= i < recs.len() && #[trigger] recs[i]@.is_valid() && recs[i]@.trigger->0
                    == t {
                let i = choose|i: int|
                    0 <= i < recs.len() && #[trigger] recs[i]@.is_valid() && recs[i]@.trigger->0
                        == t;
                if i < n {
                    assert(p[i]@.is_valid());
                }
            }
        }
        assert forall|t: Seq<char>| #[trigger]
            collected(recs).contains_key(t) implies exists|i: int|
                first_with_trigger(recs, i, t) by {
            if m.contains_key(t) {
                let i = choose|i: int| first_with_trigger(p, i, t);
                assert forall|j: int| 0 <= j < i implies !(#[trigger] recs[j]@.is_valid()
                    && recs[j]@.trigger->0 == t) by {
                    assert(p[j] == recs[j]);
                }
                assert(first_with_trigger(recs, i, t));
            } else {
                assert forall|j: int| 0 <= j < n implies !(#[trigger] recs[j]@.is_valid()
                    && recs[j]@.trigger->0 == t) by {
                    if recs[j]@.is_valid() && recs[j]@.trigger->0 == t {
                        assert(p[j]@.is_valid());
                    }
                }
                assert(first_with_trigger(recs, n, t));
            }
        }
        assert forall|i: int, t: Seq<char>| #[trigger]
            first_with_trigger(recs, i, t) implies collected(recs)[t] == recs[i]@.to_bang() by {
            if i < n {
                assert forall|j: int| 0 <= j < i implies !(#[trigger] p[j]@.is_valid()
                    && p[j]@.trigger->0 == t) by {
                    assert(p[j] == recs[j]);
                }
                assert(first_with_trigger(p, i, t));
                assert(p[i]@.is_valid());
            } else {
                if m.contains_key(t) {
                    let k = choose|k: int|
                        0 <= k < p.len() && #[trigger] p[k]@.is_valid() && p[k]@.trigger->0 == t;
                    assert(recs[k]@.is_valid());
                }
            }
        }
        let pred = |x: DuckDuckGoBang| !x@.is_valid();
        assert(invalid_elements(recs) == if pred(recs.last()) {
            invalid_elements(p).push(recs.last())
        } else {
            invalid_elements(p)
        });
        if r.is_valid() && !m.contains_key(r.trigger->0) {
            assert(collected(recs).len() == m.len() + 1);
        }
    }
}

/// Each element with all six required fields gives the entry of its
/// trigger, every entry comes from such an element, and the elements that
/// lack a field are exactly the ones counted as invalid.
pub proof fn lemma_valid_elements_are_entered(recs: Seq<DuckDuckGoBang>)
    ensures
        forall|i: int|
            0 <= i < recs.len() && #[trigger] recs[i]@.is_valid() ==> collected(
                recs,
            ).contains_key(recs[i]@.trigger->0),
        forall|t: Seq<char>| #[trigger]
            collected(recs).contains_key(t) ==> exists|i: int|
                0 <= i < recs.len() && recs[i]@.is_valid() && recs[i]@.trigger->0 == t
                    && collected(recs)[t] == recs[i]@.to_bang(),
        invalid_count(recs) == invalid_elements(recs).len(),
{
    lemma_collected_shape(recs);
    assert forall|i: int| 0 <= i < recs.len() && #[trigger] recs[i]@.is_valid() implies collected(
        recs,
    ).contains_key(recs[i]@.trigger->0) by {
        let t = recs[i]@.trigger->0;
        assert(exists|k: int|
            0 <= k < recs.len() && #[trigger] recs[k]@.is_valid() && recs[k]@.trigger->0 == t);
    }
    assert forall|t: Seq<char>| #[trigger] collected(recs).contains_key(t) implies exists|i: int|
        0 <= i < recs.len() && recs[i]@.is_valid() && recs[i]@.trigger->0 == t
            && collected(recs)[t] == recs[i]@.to_bang() by {
        let i = choose|i: int| first_with_trigger(recs, i, t);
        assert(collected(recs)[t] == recs[i]@.to_bang());
    }
}

/// Of several valid elements with one trigger, the first is the one
/// entered; the directory has one entry per distinct trigger among the
/// valid elements, and every element is counted once as entered,
/// duplicate or invalid.
pub proof fn lemma_first_duplicate_wins(recs: Seq<DuckDuckGoBang>)
    ensures
        forall|i: int, t: Seq<char>| #[trigger]
            first_with_trigger(recs, i, t) ==> collected(recs).contains_key(t) && collected(
                recs,
            )[t] == recs[i]@.to_bang(),
        collected(recs).dom() == valid_triggers(recs),
        collected(recs).len() == valid_triggers(recs).len(),
        recs.len() == collected(recs).len() + duplicate_count(recs) + invalid_count(recs),
{
    lemma_collected_shape(recs);
    assert forall|i: int, t: Seq<char>| #[trigger]
        first_with_trigger(recs, i, t) implies collected(recs).contains_key(t) && collected(
        recs,
    )[t] == recs[i]@.to_bang() by {
        assert(recs[i]@.is_valid());
    }
    assert(collected(recs).dom() =~= valid_triggers(recs));
}

} // verus!

verus! {

/// The elements that have all six required fields, in order.
pub open spec fn valid_elements(recs: Seq<DuckDuckGoBang>) -> Seq<DuckDuckGoBang> {
    recs.filter(|r: DuckDuckGoBang| r@.is_valid())
}

proof fn lemma_only_valid_elements_count(recs: Seq<DuckDuckGoBang>)
    ensures
        collected(recs) == collected(valid_elements(recs)),
        duplicate_count(recs) == duplicate_count(valid_elements(recs)),
    decreases recs.len(),
{
    reveal(Seq::filter);
    if recs.len() > 0 {
        let p = recs.drop_last();
        lemma_only_valid_elements_count(p);
        let v = valid_elements(recs);
        let vp = valid_elements(p);
        if recs.last()@.is_valid() {
            assert(v == vp.push(recs.last()));
            assert(v.drop_last() =~= vp);
            assert(v.last() == recs.last());
        } else {
            assert(v == vp);
        }
    }
}

/// Elements without all six required fields never matter: two feeds with
/// the same valid elements in the same order, wherever invalid ones stand
/// among them, give the same directory and the same duplicate count.
pub proof fn lemma_invalid_elements_ignored(
    recs: Seq<DuckDuckGoBang>,
    other: Seq<DuckDuckGoBang>,
)
    requires
        valid_elements(recs) == valid_elements(other),
    ensures
        collected(recs) == collected(other),
        duplicate_count(recs) == duplicate_count(other),
{
    lemma_only_valid_elements_count(recs);
    lemma_only_valid_elements_count(other);
}

} // verus!
