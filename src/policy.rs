use crate::directory::BangDirectory;
use crate::model::{Bang, BangView};
use vstd::prelude::*;

verus! {

/// Seven days, in seconds: how old a cache may be and still be used.
pub const CACHE_MAX_AGE_SECS: i64 = 604800;

/// A fetch with at most this many entries does not replace a non-empty
/// working set.
pub const MIN_REPLACE_COUNT: usize = 100;

/// The two numbers that the refresh rules go by.
pub struct RefreshPolicy {
    pub max_age_secs: i64,
    pub min_replace_count: usize,
}

impl Default for RefreshPolicy {
    fn default() -> (r: Self)
        ensures
            r.max_age_secs == CACHE_MAX_AGE_SECS,
            r.min_replace_count == MIN_REPLACE_COUNT,
    {
        RefreshPolicy { max_age_secs: CACHE_MAX_AGE_SECS, min_replace_count: MIN_REPLACE_COUNT }
    }
}

/// The cache as stored: the directory and when it was written, in Unix
/// seconds.
pub struct BangCache {
    pub bangs: BangDirectory,
    pub last_updated: i64,
}

/// Why a fetch gave no feed.
pub enum FetchError {
    /// The request failed or timed out.
    Request(String),
    /// The server answered with a status other than success.
    Status(u16),
    /// The body was not a usable feed.
    Parse(crate::parser::ParseError),
}

/// Why a bang could not be deleted.
#[derive(Debug, Clone, Copy, PartialEq, Eq, Structural)]
pub enum BangError {
    NotFound,
    CannotDeleteBuiltin,
}

/// A cache written at `last_updated` is too old at `now`.
pub open spec fn is_stale(max_age: int, now: int, last_updated: int) -> bool {
    now - last_updated > max_age
}

/// Whether startup fetches the feed: with no cache, an empty one, or a
/// stale one.
pub open spec fn needs_fetch(cache: Option<BangCache>, now: int, max_age: int) -> bool {
    match cache {
        Some(c) => c.bangs@.len() == 0 || is_stale(max_age, now, c.last_updated as int),
        None => true,
    }
}

/// The working set at the end of startup, before the user's bangs: the
/// cache where no fetch is needed, else what the fetch (or its failure)
/// leaves.
pub open spec fn startup_set(
    cache: Option<BangCache>,
    now: int,
    max_age: int,
    fetched: Option<Map<Seq<char>, BangView>>,
    min_count: nat,
) -> Map<Seq<char>, BangView> {
    let working = match cache {
        Some(c) => c.bangs@,
        None => Map::empty(),
    };
    if needs_fetch(cache, now, max_age) {
        after_fetch(working, fetched, min_count)
    } else {
        working
    }
}

/// The working set after a fetch at startup: a fetched set replaces it if
/// it is large enough or the working set is empty; a failed fetch leaves it,
/// or gives the built-in set where it is empty.
pub open spec fn after_fetch(
    working: Map<Seq<char>, BangView>,
    fetched: Option<Map<Seq<char>, BangView>>,
    min_count: nat,
) -> Map<Seq<char>, BangView> {
    match fetched {
        Some(f) => if f.len() > min_count || working.len() == 0 {
            f
        } else {
            working
        },
        None => if working.len() == 0 {
            fallback_spec()
        } else {
            working
        },
    }
}

/// Whether the fetched set is taken, and so written to the cache.
pub open spec fn takes_fetch(
    working: Map<Seq<char>, BangView>,
    fetched: Option<Map<Seq<char>, BangView>>,
    min_count: nat,
) -> bool {
    match fetched {
        Some(f) => f.len() > min_count || working.len() == 0,
        None => false,
    }
}

pub open spec fn fetched_view(fetched: Result<BangDirectory, FetchError>) -> Option<
    Map<Seq<char>, BangView>,
> {
    match fetched {
        Ok(f) => Some(f@),
        Err(_) => None,
    }
}

pub open spec fn builtin(id: Seq<char>, name: Seq<char>, search_url: Seq<char>, home_url: Seq<char>, category: Seq<char>) -> BangView {
    BangView { id, name, search_url, home_url, category, is_custom: false }
}

/// The built-in set used when there is neither cache nor feed.
pub open spec fn fallback_spec() -> Map<Seq<char>, BangView> {
    Map::empty().insert(
        "g"@,
        builtin("g"@, "Google"@, "https://www.google.com/search?q={{{s}}}"@, "https://www.google.com"@, "Web - Search"@),
    ).insert(
        "w"@,
        builtin("w"@, "Wikipedia"@, "https://en.wikipedia.org/wiki/Special:Search?search={{{s}}}"@, "https://en.wikipedia.org"@, "Reference - Encyclopedia"@),
    ).insert(
        "yt"@,
        builtin("yt"@, "YouTube"@, "https://www.youtube.com/results?search_query={{{s}}}"@, "https://www.youtube.com"@, "Entertainment - Video"@),
    ).insert(
        "gh"@,
        builtin("gh"@, "GitHub"@, "https://github.com/search?q={{{s}}}"@, "https://github.com"@, "Tech - Programming"@),
    ).insert(
        "a"@,
        builtin("a"@, "Amazon"@, "https://www.amazon.com/s?k={{{s}}}"@, "https://www.amazon.com"@, "Shopping - General"@),
    )
}

/// The record with its user-defined mark set.
pub open spec fn as_custom(b: BangView) -> BangView {
    BangView { is_custom: true, ..b }
}

/// What startup begins with: the working set and whether to fetch.
pub struct LoadPlan {
    pub working: BangDirectory,
    pub should_fetch: bool,
}

/// The working set after a startup fetch, and whether to write it to the
/// cache.
pub struct FetchOutcome {
    pub bangs: BangDirectory,
    pub save_cache: bool,
}

fn make_builtin(id: &str, name: &str, search_url: &str, home_url: &str, category: &str) -> (r: Bang)
    ensures
        r@ == builtin(id@, name@, search_url@, home_url@, category@),
{
    Bang {
        id: String::from_str(id),
        name: String::from_str(name),
        search_url: String::from_str(search_url),
        home_url: String::from_str(home_url),
        category: String::from_str(category),
        is_custom: false,
    }
}

/// The built-in set: a few well-known engines.
pub fn fallback_bangs() -> (r: BangDirectory)
    ensures
        r.wf(),
        r@ == fallback_spec(),
        r@.len() == 5,
{
    proof {
        lemma_fallback_size();
    }
    let mut m = BangDirectory::new();
    m.insert(String::from_str("g"), make_builtin("g", "Google", "https://www.google.com/search?q={{{s}}}", "https://www.google.com", "Web - Search"));
    m.insert(String::from_str("w"), make_builtin("w", "Wikipedia", "https://en.wikipedia.org/wiki/Special:Search?search={{{s}}}", "https://en.wikipedia.org", "Reference - Encyclopedia"));
    m.insert(String::from_str("yt"), make_builtin("yt", "YouTube", "https://www.youtube.com/results?search_query={{{s}}}", "https://www.youtube.com", "Entertainment - Video"));
    m.insert(String::from_str("gh"), make_builtin("gh", "GitHub", "https://github.com/search?q={{{s}}}", "https://github.com", "Tech - Programming"));
    m.insert(String::from_str("a"), make_builtin("a", "Amazon", "https://www.amazon.com/s?k={{{s}}}", "https://www.amazon.com", "Shopping - General"));
    m
}

/// Whether a cache written at `last_updated` is too old at `now`.
pub fn cache_is_stale(policy: &RefreshPolicy, now: i64, last_updated: i64) -> (r: bool)
    ensures
        r == is_stale(policy.max_age_secs as int, now as int, last_updated as int),
{
    (now as i128) - (last_updated as i128) > policy.max_age_secs as i128
}

/// Startup's first step: the cache's entries, if there is a cache, and
/// whether the feed must be fetched.
pub fn plan_load(cache: Option<BangCache>, now: i64, policy: &RefreshPolicy) -> (r: LoadPlan)
    requires
        cache is Some ==> cache->0.bangs.wf(),
    ensures
        r.working.wf(),
        r.should_fetch == needs_fetch(cache, now as int, policy.max_age_secs as int),
        r.working@ == match cache {
            Some(c) => c.bangs@,
            None => Map::empty(),
        },
{
    match cache {
        Some(c) => {
            let should_fetch = c.bangs.is_empty() || cache_is_stale(policy, now, c.last_updated);
            LoadPlan { working: c.bangs, should_fetch }
        },
        None => LoadPlan { working: BangDirectory::new(), should_fetch: true },
    }
}

/// Startup's second step: takes the fetched set where it is large enough or
/// nothing is there yet, keeps the working set otherwise, and falls back to
/// the built-in set where a fetch failed and nothing is there.
pub fn apply_fetch(
    working: BangDirectory,
    fetched: Result<BangDirectory, FetchError>,
    policy: &RefreshPolicy,
) -> (r: FetchOutcome)
    requires
        working.wf(),
        fetched is Ok ==> fetched->Ok_0.wf(),
    ensures
        r.bangs.wf(),
        r.bangs@ == after_fetch(
            working@,
            fetched_view(fetched),
            policy.min_replace_count as nat,
        ),
        r.save_cache == takes_fetch(
            working@,
            fetched_view(fetched),
            policy.min_replace_count as nat,
        ),
{
    match fetched {
        Ok(f) => {
            if f.len() > policy.min_replace_count || working.is_empty() {
                FetchOutcome { bangs: f, save_cache: true }
            } else {
                FetchOutcome { bangs: working, save_cache: false }
            }
        },
        Err(_) => {
            if working.is_empty() {
                FetchOutcome { bangs: fallback_bangs(), save_cache: false }
            } else {
                FetchOutcome { bangs: working, save_cache: false }
            }
        },
    }
}

/// Puts the user's entries over the working set: on a shared trigger the
/// user's entry wins.
pub fn merge_user_bangs(bangs: BangDirectory, user: &BangDirectory) -> (r: BangDirectory)
    requires
        bangs.wf(),
        user.wf(),
    ensures
        r.wf(),
        r@ == bangs@.union_prefer_right(user@),
{
    let mut merged = bangs;
    merged.merge_from(user);
    merged
}

/// The end of an explicit refresh: the fetched set with the user's entries
/// over it, or the fetch's error.
pub fn finish_refresh(fetched: Result<BangDirectory, FetchError>, user: &BangDirectory) -> (r:
    Result<BangDirectory, FetchError>)
    requires
        fetched is Ok ==> fetched->Ok_0.wf(),
        user.wf(),
    ensures
        fetched is Err <==> r is Err,
        fetched is Err ==> r == fetched,
        fetched is Ok ==> r->Ok_0.wf() && r->Ok_0@ == fetched->Ok_0@.union_prefer_right(user@),
{
    match fetched {
        Ok(f) => Ok(merge_user_bangs(f, user)),
        Err(e) => Err(e),
    }
}

/// Adds or replaces a user-defined bang, in the live directory and in the
/// user's set alike, marked as user-defined.
pub fn add_custom_bang(all_bangs: &mut BangDirectory, user_bangs: &mut BangDirectory, bang: Bang)
    requires
        old(all_bangs).wf(),
        old(user_bangs).wf(),
    ensures
        final(all_bangs).wf(),
        final(user_bangs).wf(),
        final(all_bangs)@ == old(all_bangs)@.insert(bang.id@, as_custom(bang@)),
        final(user_bangs)@ == old(user_bangs)@.insert(bang.id@, as_custom(bang@)),
{
    let mut custom_bang = bang;
    custom_bang.is_custom = true;
    user_bangs.insert(custom_bang.id.clone(), custom_bang.clone());
    all_bangs.insert(custom_bang.id.clone(), custom_bang);
}

/// Deletes a user-defined bang from the live directory and the user's set.
/// A trigger the directory lacks, or whose entry is not user-defined, is
/// refused and nothing changes.
pub fn delete_custom_bang(
    all_bangs: &mut BangDirectory,
    user_bangs: &mut BangDirectory,
    bang_id: &str,
) -> (r: Result<(), BangError>)
    requires
        old(all_bangs).wf(),
        old(user_bangs).wf(),
    ensures
        final(all_bangs).wf(),
        final(user_bangs).wf(),
        !old(all_bangs)@.contains_key(bang_id@) <==> r == Err::<(), BangError>(
            BangError::NotFound,
        ),
        old(all_bangs)@.contains_key(bang_id@) && !old(all_bangs)@[bang_id@].is_custom <==> r
            == Err::<(), BangError>(BangError::CannotDeleteBuiltin),
        r is Err ==> final(all_bangs)@ == old(all_bangs)@ && final(user_bangs)@ == old(
            user_bangs,
        )@,
        r is Ok ==> final(all_bangs)@ == old(all_bangs)@.remove(bang_id@) && final(user_bangs)@
            == old(user_bangs)@.remove(bang_id@),
{
    match all_bangs.get(bang_id) {
        Some(bang) => {
            if !bang.is_custom {
                return Err(BangError::CannotDeleteBuiltin);
            }
        },
        None => {
            return Err(BangError::NotFound);
        },
    }
    user_bangs.remove(bang_id);
    all_bangs.remove(bang_id);
    Ok(())
}

} // verus!

verus! {

proof fn lemma_fallback_size()
    ensures
        fallback_spec().dom().finite(),
        fallback_spec().len() == 5,
{
    reveal_strlit("g");
    reveal_strlit("w");
    reveal_strlit("yt");
    reveal_strlit("gh");
    reveal_strlit("a");
    assert("g"@[0] != "w"@[0]);
    assert("g"@.len() != "yt"@.len() && "w"@.len() != "yt"@.len());
    assert("g"@.len() != "gh"@.len() && "w"@.len() != "gh"@.len() && "yt"@[0] != "gh"@[0]);
    assert("a"@[0] != "g"@[0] && "a"@[0] != "w"@[0] && "a"@.len() != "yt"@.len() && "a"@.len()
        != "gh"@.len());
    let m0 = Map::<Seq<char>, BangView>::empty();
    let m1 = m0.insert("g"@, fallback_spec()["g"@]);
    let m2 = m1.insert("w"@, fallback_spec()["w"@]);
    let m3 = m2.insert("yt"@, fallback_spec()["yt"@]);
    let m4 = m3.insert("gh"@, fallback_spec()["gh"@]);
    assert(!m0.contains_key("g"@));
    assert(!m1.contains_key("w"@));
    assert(!m2.contains_key("yt"@));
    assert(!m3.contains_key("gh"@));
    assert(!m4.contains_key("a"@));
    assert(m4.len() == 4);
}

/// On a trigger held both by a feed entry and by a user-defined entry, the
/// merged directory holds the user's entry: marked user-defined, and equal
/// to it in every other field.
pub proof fn lemma_user_entry_wins(
    feed: Map<Seq<char>, BangView>,
    user: Map<Seq<char>, BangView>,
    trigger: Seq<char>,
)
    requires
        feed.contains_key(trigger),
        !feed[trigger].is_custom,
        user.contains_key(trigger),
        user[trigger].is_custom,
    ensures
        feed.union_prefer_right(user).contains_key(trigger),
        feed.union_prefer_right(user)[trigger] == user[trigger],
        feed.union_prefer_right(user)[trigger].is_custom,
{
}

/// With the standard week, a cache written eight days before `now` makes
/// startup fetch, and one written a day before does not.
pub proof fn lemma_staleness_window(week_old: BangCache, day_old: BangCache, now: int)
    requires
        week_old.last_updated == now - 8 * 86400,
        day_old.last_updated == now - 86400,
        day_old.bangs@.len() > 0,
    ensures
        needs_fetch(Some(week_old), now, CACHE_MAX_AGE_SECS as int),
        !needs_fetch(Some(day_old), now, CACHE_MAX_AGE_SECS as int),
{
}

/// A fetch no larger than the threshold leaves a non-empty working set as
/// it is and is not cached; against an empty working set any fetch is
/// taken whole.
pub proof fn lemma_refresh_guard(
    working: Map<Seq<char>, BangView>,
    fetched: Map<Seq<char>, BangView>,
    min_count: nat,
)
    ensures
        fetched.len() <= min_count && working.len() > 0 ==> after_fetch(
            working,
            Some(fetched),
            min_count,
        ) == working && !takes_fetch(working, Some(fetched), min_count),
        working.len() == 0 ==> after_fetch(working, Some(fetched), min_count) == fetched
            && takes_fetch(working, Some(fetched), min_count),
{
}

/// Startup never ends with an empty directory: whatever the cache, the
/// fetch either fails or (having parsed) gives a non-empty set, and the
/// user's bangs only add to what is there.
pub proof fn lemma_never_empty(
    cache: Option<BangCache>,
    now: int,
    max_age: int,
    fetched: Option<Map<Seq<char>, BangView>>,
    min_count: nat,
    user: Map<Seq<char>, BangView>,
)
    requires
        cache is Some ==> cache->0.bangs.wf(),
        fetched is Some ==> fetched->0.dom().finite() && fetched->0.len() > 0,
    ensures
        startup_set(cache, now, max_age, fetched, min_count).len() > 0,
        exists|k: Seq<char>|
            startup_set(cache, now, max_age, fetched, min_count).union_prefer_right(
                user,
            ).contains_key(k),
{
    lemma_fallback_size();
    if cache is Some {
        cache->0.bangs.lemma_view_finite();
    }
    let m = startup_set(cache, now, max_age, fetched, min_count);
    assert(m.dom().finite());
    assert(m.dom().len() > 0);
    let k = m.dom().choose();
    assert(m.union_prefer_right(user).contains_key(k));
}

} // verus!
