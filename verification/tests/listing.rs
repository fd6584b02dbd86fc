use airs::config::Config;
use airs::io::list_profiles;
use airs::profile::{profile_current_text, profile_list};

fn names(list: &[&str]) -> Vec<String> {
    list.iter().map(|s| s.to_string()).collect()
}

#[test]
fn listing_sorts_alphabetically() {
    let r = list_profiles(names(&["zeta", "alpha", "mid"]));
    assert_eq!(r, names(&["alpha", "mid", "zeta"]));
}

#[test]
fn listing_excludes_config_entry() {
    let r = list_profiles(names(&["zeta", "config", "alpha"]));
    assert_eq!(r, names(&["alpha", "zeta"]));
}

#[test]
fn listing_is_idempotent() {
    let once = list_profiles(names(&["b", "config", "a", "c"]));
    let twice = list_profiles(once.clone());
    assert_eq!(once, twice);
}

#[test]
fn listing_of_nothing_is_empty() {
    let r = list_profiles(Vec::new());
    assert!(r.is_empty());
}

#[test]
fn listing_keeps_duplicates() {
    let r = list_profiles(names(&["b", "a", "b"]));
    assert_eq!(r, names(&["a", "b", "b"]));
}

#[test]
fn listing_orders_prefixes_first() {
    let r = list_profiles(names(&["ab", "a", "abc"]));
    assert_eq!(r, names(&["a", "ab", "abc"]));
}

#[test]
fn current_profile_falls_back_to_default() {
    let config = Config {
        default_profile: None,
    };
    assert_eq!(profile_current_text(&config), "default");
}

#[test]
fn current_profile_reads_the_setting() {
    let config = Config {
        default_profile: Some("mine".to_string()),
    };
    assert_eq!(profile_current_text(&config), "mine");
}

#[test]
fn profile_list_marks_the_current_profile() {
    let config = Config {
        default_profile: Some("mid".to_string()),
    };
    let lines = profile_list(names(&["zeta", "mid", "config", "alpha"]), &config);
    assert_eq!(lines, names(&["  alpha", "* mid", "  zeta"]));
}

#[test]
fn profile_list_marks_nothing_when_current_is_absent() {
    let config = Config {
        default_profile: None,
    };
    let lines = profile_list(names(&["b", "a"]), &config);
    assert_eq!(lines, names(&["  a", "  b"]));
}
