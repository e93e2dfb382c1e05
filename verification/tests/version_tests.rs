use cot::version::SemanticVersion;

fn ver(major: u64, minor: u64, patch: u64, pre: Option<&str>) -> SemanticVersion {
    SemanticVersion { major, minor, patch, pre: pre.map(|p| p.to_string()) }
}

#[test]
fn test_next_phase() {
    let v = ver(0, 0, 0, None);
    let v = v.next_phase();
    assert_eq!(v.to_string(), "0.0.1-alpha.0");
    let v = v.next_phase();
    assert_eq!(v.to_string(), "0.0.1-beta.0");
    let v = v.next_phase();
    assert_eq!(v.to_string(), "0.0.1-rc.0");
    let v = v.next_phase();
    assert_eq!(v.to_string(), "0.0.1");
}

#[test]
fn test_next_pre() {
    let v = ver(0, 0, 1, Some("alpha.0"));
    let v = v.next_pre();
    assert_eq!(v.to_string(), "0.0.1-alpha.1");
    let v = v.next_pre();
    assert_eq!(v.to_string(), "0.0.1-alpha.2");
    let v = v.next_pre();
    assert_eq!(v.to_string(), "0.0.1-alpha.3");
    let v = v.next_phase();
    assert_eq!(v.to_string(), "0.0.1-beta.0");
    let v = ver(0, 0, 1, None);
    let v = v.next_pre();
    assert_eq!(v.to_string(), "0.0.2-alpha.0");
}

#[test]
fn test_next_patch() {
    let v = ver(0, 0, 0, None);
    let v = v.next_patch();
    assert_eq!(v.to_string(), "0.0.1");
    let v = ver(0, 0, 1, Some("alpha.0"));
    let v = v.next_patch();
    assert_eq!(v.to_string(), "0.0.2");
}

#[test]
fn test_next_minor() {
    let v = ver(0, 0, 0, None);
    let v = v.next_minor();
    assert_eq!(v.to_string(), "0.1.0");
    let v = ver(0, 1, 0, Some("beta.1"));
    let v = v.next_minor();
    assert_eq!(v.to_string(), "0.2.0");
}

#[test]
fn test_next_major() {
    let v = ver(0, 0, 0, None);
    let v = v.next_major();
    assert_eq!(v.to_string(), "1.0.0");
    let v = ver(1, 0, 0, Some("rc.1"));
    let v = v.next_major();
    assert_eq!(v.to_string(), "2.0.0");
}

#[test]
fn next_major_resets_all() {
    let v = ver(2, 7, 9, Some("beta.3"));
    let v = v.next_major();
    assert_eq!(v.major, 3);
    assert_eq!(v.minor, 0);
    assert_eq!(v.patch, 0);
    assert!(v.pre.is_none());
}

#[test]
fn next_minor_keeps_major() {
    let v = ver(2, 7, 9, Some("rc.0"));
    let v = v.next_minor();
    assert_eq!(v.to_string(), "2.8.0");
}

#[test]
fn phase_of_unknown_label_releases() {
    let v = ver(1, 2, 3, Some("nightly.7"));
    let v = v.next_phase();
    assert_eq!(v.to_string(), "1.2.3");
}

#[test]
fn pre_without_counter_starts_at_one() {
    let v = ver(0, 0, 1, Some("alpha"));
    let v = v.next_pre();
    assert_eq!(v.to_string(), "0.0.1-alpha.1");
}

#[test]
fn pre_with_nonnumeric_counter_defaults() {
    let v = ver(0, 0, 1, Some("alpha.x"));
    let v = v.next_pre();
    assert_eq!(v.to_string(), "0.0.1-alpha.1");
}

#[test]
fn pre_with_extra_segments_defaults() {
    let v = ver(0, 0, 1, Some("alpha.1.2"));
    let v = v.next_pre();
    assert_eq!(v.to_string(), "0.0.1-alpha.1");
}

#[test]
fn pre_with_oversized_counter_defaults() {
    let v = ver(0, 0, 1, Some("alpha.99999999999999999999"));
    assert_eq!(v.pre_counter(), 0);
    let v = v.next_pre();
    assert_eq!(v.to_string(), "0.0.1-alpha.1");
}

#[test]
fn pre_counter_reads_the_counter() {
    assert_eq!(ver(0, 0, 1, Some("alpha.41")).pre_counter(), 41);
    assert_eq!(ver(0, 0, 1, Some("alpha")).pre_counter(), 0);
    assert_eq!(ver(0, 0, 1, None).pre_counter(), 0);
}

#[test]
fn to_string_exact_forms() {
    assert_eq!(ver(12, 345, 6789, None).to_string(), "12.345.6789");
    assert_eq!(ver(1, 0, 0, Some("rc.2")).to_string(), "1.0.0-rc.2");
    assert_eq!(
        ver(18446744073709551615, 0, 0, None).to_string(),
        "18446744073709551615.0.0"
    );
}

#[test]
fn phase_cycle_bumps_patch_once() {
    let v = ver(4, 5, 6, None);
    let w = v.next_phase().next_phase().next_phase().next_phase();
    assert_eq!(w.to_string(), "4.5.7");
}
