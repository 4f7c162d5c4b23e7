use zephyr::{
    add_custom_bang, apply_fetch, cache_is_stale, delete_custom_bang, fallback_bangs,
    finish_refresh, get_all_bangs, merge_user_bangs, plan_load, Bang, BangCache, BangDirectory,
    BangError, BangState, FetchError, ParseError, RefreshPolicy, CACHE_MAX_AGE_SECS,
    MIN_REPLACE_COUNT,
};

fn bang(id: &str, name: &str, custom: bool) -> Bang {
    Bang {
        id: id.to_string(),
        name: name.to_string(),
        search_url: format!("https://{}.example/?q={{{{{{s}}}}}}", id),
        home_url: format!("https://{}.example", id),
        category: "Test - Test".to_string(),
        is_custom: custom,
    }
}

fn sized(n: usize, prefix: &str) -> BangDirectory {
    let mut d = BangDirectory::new();
    for i in 0..n {
        let id = format!("{}{}", prefix, i);
        d.insert(id.clone(), bang(&id, "Feed", false));
    }
    d
}

const DAY: i64 = 86400;

#[test]
fn standard_policy_numbers() {
    let p = RefreshPolicy::default();
    assert_eq!(p.max_age_secs, 7 * DAY);
    assert_eq!(p.min_replace_count, 100);
    assert_eq!(CACHE_MAX_AGE_SECS, 604800);
    assert_eq!(MIN_REPLACE_COUNT, 100);
}

#[test]
fn week_old_cache_is_refetched_and_day_old_is_not() {
    let p = RefreshPolicy::default();
    let now: i64 = 1_700_000_000;
    let plan = plan_load(Some(BangCache { bangs: sized(3, "c"), last_updated: now - 8 * DAY }), now, &p);
    assert!(plan.should_fetch);
    assert_eq!(plan.working.len(), 3);
    let plan = plan_load(Some(BangCache { bangs: sized(3, "c"), last_updated: now - DAY }), now, &p);
    assert!(!plan.should_fetch);
    assert_eq!(plan.working.len(), 3);
}

#[test]
fn exactly_seven_days_is_still_fresh() {
    let p = RefreshPolicy::default();
    assert!(!cache_is_stale(&p, 10 * DAY, 3 * DAY));
    assert!(cache_is_stale(&p, 10 * DAY + 1, 3 * DAY));
    assert!(cache_is_stale(&p, i64::MAX, i64::MIN));
}

#[test]
fn no_cache_means_fetch_from_empty() {
    let plan = plan_load(None, 0, &RefreshPolicy::default());
    assert!(plan.should_fetch);
    assert!(plan.working.is_empty());
}

#[test]
fn small_fetch_does_not_replace_a_large_cache() {
    let out = apply_fetch(sized(500, "c"), Ok(sized(5, "f")), &RefreshPolicy::default());
    assert_eq!(out.bangs.len(), 500);
    assert!(out.bangs.contains_key("c0"));
    assert!(!out.save_cache);
}

#[test]
fn small_fetch_fills_an_empty_working_set() {
    let out = apply_fetch(BangDirectory::new(), Ok(sized(5, "f")), &RefreshPolicy::default());
    assert_eq!(out.bangs.len(), 5);
    assert!(out.bangs.contains_key("f4"));
    assert!(out.save_cache);
}

#[test]
fn large_fetch_replaces_the_cache() {
    let out = apply_fetch(sized(500, "c"), Ok(sized(101, "f")), &RefreshPolicy::default());
    assert_eq!(out.bangs.len(), 101);
    assert!(!out.bangs.contains_key("c0"));
    assert!(out.save_cache);
    let out = apply_fetch(sized(500, "c"), Ok(sized(100, "f")), &RefreshPolicy::default());
    assert_eq!(out.bangs.len(), 500);
}

#[test]
fn failed_fetch_keeps_cache_or_falls_back() {
    let out = apply_fetch(sized(2, "c"), Err(FetchError::Status(503)), &RefreshPolicy::default());
    assert_eq!(out.bangs.len(), 2);
    assert!(!out.save_cache);
    let out = apply_fetch(BangDirectory::new(), Err(FetchError::Request("timeout".to_string())), &RefreshPolicy::default());
    assert_eq!(out.bangs.len(), 5);
    assert!(out.bangs.contains_key("g"));
    assert!(!out.save_cache);
}

#[test]
fn fallback_set_has_well_known_engines() {
    let f = fallback_bangs();
    assert_eq!(f.len(), 5);
    for id in ["g", "w", "yt", "gh", "a"] {
        let b = f.get(id).unwrap();
        assert_eq!(b.id, id);
        assert!(!b.is_custom);
        assert!(b.search_url.contains("{{{s}}}"));
    }
    assert_eq!(f.get("g").unwrap().name, "Google");
}

#[test]
fn user_entry_wins_the_merge() {
    let mut feed = sized(3, "f");
    feed.insert("yt".to_string(), bang("yt", "YouTube", false));
    let mut user = BangDirectory::new();
    user.insert("yt".to_string(), bang("yt", "My Tube", true));
    let merged = merge_user_bangs(feed, &user);
    let b = merged.get("yt").unwrap();
    assert!(b.is_custom);
    assert_eq!(b.name, "My Tube");
    assert_eq!(merged.len(), 4);
}

#[test]
fn refresh_merges_or_reports_the_error() {
    let mut user = BangDirectory::new();
    user.insert("mine".to_string(), bang("mine", "Mine", true));
    let r = finish_refresh(Ok(sized(2, "f")), &user).ok().unwrap();
    assert_eq!(r.len(), 3);
    let r = finish_refresh(Err(FetchError::Parse(ParseError::Empty)), &user);
    assert!(matches!(r, Err(FetchError::Parse(ParseError::Empty))));
}

#[test]
fn added_bang_is_marked_custom_in_both_sets() {
    let mut all = sized(2, "f");
    let mut user = BangDirectory::new();
    add_custom_bang(&mut all, &mut user, bang("f0", "Mine", false));
    assert!(all.get("f0").unwrap().is_custom);
    assert_eq!(all.get("f0").unwrap().name, "Mine");
    assert!(user.get("f0").unwrap().is_custom);
    assert_eq!(all.len(), 2);
    assert_eq!(user.len(), 1);
}

#[test]
fn deleting_builtin_or_absent_bang_fails() {
    let mut all = sized(2, "f");
    let mut user = BangDirectory::new();
    assert_eq!(delete_custom_bang(&mut all, &mut user, "f1"), Err(BangError::CannotDeleteBuiltin));
    assert_eq!(delete_custom_bang(&mut all, &mut user, "nope"), Err(BangError::NotFound));
    assert_eq!(all.len(), 2);
}

#[test]
fn deleting_custom_bang_removes_it_everywhere() {
    let mut all = sized(2, "f");
    let mut user = BangDirectory::new();
    add_custom_bang(&mut all, &mut user, bang("mine", "Mine", true));
    assert_eq!(delete_custom_bang(&mut all, &mut user, "mine"), Ok(()));
    assert!(!all.contains_key("mine"));
    assert!(user.is_empty());
    assert_eq!(all.len(), 2);
}

#[test]
fn state_commands() {
    let mut state = BangState::new();
    state.replace(sized(2, "f"));
    let mut user = BangDirectory::new();
    state.add_custom_bang(&mut user, bang("mine", "Mine", false));
    assert_eq!(state.available_bangs().len(), 3);
    assert_eq!(state.delete_custom_bang(&mut user, "f0"), Err(BangError::CannotDeleteBuiltin));
    assert_eq!(state.delete_custom_bang(&mut user, "mine"), Ok(()));
    assert_eq!(state.bangs().len(), 2);
}

#[test]
fn all_bangs_lists_trigger_and_name() {
    let mut d = BangDirectory::new();
    d.insert("a".to_string(), bang("a", "Alpha", false));
    d.insert("b".to_string(), bang("b", "Beta", false));
    d.insert("a".to_string(), bang("a", "Alpha2", false));
    let mut list = get_all_bangs(&d);
    list.sort();
    assert_eq!(list, vec![("a".to_string(), "Alpha2".to_string()), ("b".to_string(), "Beta".to_string())]);
}

#[test]
fn directory_insert_remove_and_entries() {
    let mut d = BangDirectory::new();
    d.insert("x".to_string(), bang("x", "X", false));
    d.insert("y".to_string(), bang("y", "Y", false));
    assert_eq!(d.len(), 2);
    let removed = d.remove("x").unwrap();
    assert_eq!(removed.name, "X");
    assert!(d.remove("x").is_none());
    assert_eq!(d.len(), 1);
    let entries = d.entries();
    assert_eq!(entries.len(), 1);
    assert_eq!(entries[0].0, "y");
    let mut other = BangDirectory::new();
    other.insert("y".to_string(), bang("y", "Y2", true));
    other.insert("z".to_string(), bang("z", "Z", true));
    d.merge_from(&other);
    assert_eq!(d.len(), 2);
    assert_eq!(d.get("y").unwrap().name, "Y2");
}

#[test]
fn directory_rebuilt_from_its_entries_is_the_same() {
    let mut d = sized(4, "k");
    d.insert("mine".to_string(), bang("mine", "Mine", true));
    let rebuilt = BangDirectory::from_entries(d.entries());
    assert_eq!(rebuilt.len(), d.len());
    for (key, b) in d.entries() {
        let r = rebuilt.get(&key).unwrap();
        assert_eq!(r.name, b.name);
        assert_eq!(r.search_url, b.search_url);
        assert_eq!(r.is_custom, b.is_custom);
    }
}

#[test]
fn later_entry_overwrites_earlier_in_from_entries() {
    let d = BangDirectory::from_entries(vec![
        ("a".to_string(), bang("a", "First", false)),
        ("a".to_string(), bang("a", "Second", false)),
    ]);
    assert_eq!(d.len(), 1);
    assert_eq!(d.get("a").unwrap().name, "Second");
}

#[test]
fn fresh_but_empty_cache_is_refetched() {
    let now: i64 = 1_700_000_000;
    let plan = plan_load(Some(BangCache { bangs: BangDirectory::new(), last_updated: now - DAY }), now, &RefreshPolicy::default());
    assert!(plan.should_fetch);
    let out = apply_fetch(plan.working, Err(FetchError::Status(500)), &RefreshPolicy::default());
    assert_eq!(out.bangs.len(), 5);
}

#[test]
fn failed_refresh_returns_the_fetch_error_itself() {
    let user = BangDirectory::new();
    let r = finish_refresh(Err(FetchError::Status(503)), &user);
    assert!(matches!(r, Err(FetchError::Status(503))));
    let r = finish_refresh(Err(FetchError::Request("timed out".to_string())), &user);
    assert!(matches!(r, Err(FetchError::Request(ref m)) if m == "timed out"));
}

#[test]
fn insert_new_keeps_an_existing_entry() {
    let mut d = BangDirectory::new();
    assert!(d.insert_new("a".to_string(), bang("a", "First", false)));
    assert!(!d.insert_new("a".to_string(), bang("a", "Second", false)));
    assert_eq!(d.len(), 1);
    assert_eq!(d.get("a").unwrap().name, "First");
}
