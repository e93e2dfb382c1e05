use cot::tags::{latest_tag, TagError};

fn strings(v: &[&str]) -> Vec<String> {
    v.iter().map(|s| s.to_string()).collect()
}

#[test]
fn latest_of_three() {
    let tags = strings(&["0.1.0", "0.2.0", "0.1.5"]);
    assert_eq!(latest_tag(&tags), Ok("0.2.0".to_string()));
}

#[test]
fn latest_of_empty_list() {
    let tags: Vec<String> = Vec::new();
    assert_eq!(latest_tag(&tags), Ok("0.0.0".to_string()));
}

#[test]
fn latest_of_single_empty_string() {
    let tags = strings(&[""]);
    assert_eq!(latest_tag(&tags), Ok("0.0.0".to_string()));
}

#[test]
fn latest_keeps_v_prefix() {
    let tags = strings(&["v1.0.0", "v1.2.0"]);
    assert_eq!(latest_tag(&tags), Ok("v1.2.0".to_string()));
}

#[test]
fn unparsable_entries_are_discarded() {
    let tags = strings(&["nightly", "0.3.0", "0.10.0", "also-not-a-version"]);
    assert_eq!(latest_tag(&tags), Ok("0.10.0".to_string()));
}

#[test]
fn nothing_parsable_is_an_error() {
    let tags = strings(&["nightly", "also-not-a-version"]);
    assert_eq!(latest_tag(&tags), Err(TagError::NoParsableTag));
}

#[test]
fn release_beats_prerelease() {
    let tags = strings(&["1.0.0-rc.1", "1.0.0", "1.0.0-alpha"]);
    assert_eq!(latest_tag(&tags), Ok("1.0.0".to_string()));
}

#[test]
fn prerelease_counters_compare_numerically() {
    let tags = strings(&["1.0.0-alpha.9", "1.0.0-alpha.10"]);
    assert_eq!(latest_tag(&tags), Ok("1.0.0-alpha.10".to_string()));
}

#[test]
fn numeric_parts_compare_numerically() {
    let tags = strings(&["1.9.0", "1.10.0", "1.2.0"]);
    assert_eq!(latest_tag(&tags), Ok("1.10.0".to_string()));
}

#[test]
fn prefix_follows_first_entry_only() {
    let tags = strings(&["not-semver", "0.2.0"]);
    assert_eq!(latest_tag(&tags), Ok("0.2.0".to_string()));
    let tags = strings(&["v0.1.0", "0.2.0"]);
    assert_eq!(latest_tag(&tags), Ok("v0.2.0".to_string()));
}
