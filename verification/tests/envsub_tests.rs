use cot::envsub::replace_envs;

fn env(pairs: &[(&str, &str)]) -> Vec<(String, String)> {
    pairs.iter().map(|(k, v)| (k.to_string(), v.to_string())).collect()
}

#[test]
fn test_one_env() {
    let e = env(&[("TEST_ENV", "test")]);
    assert_eq!(replace_envs("This is a $TEST_ENV", &e), "This is a test");
}

#[test]
fn test_multiple_envs() {
    let e = env(&[
        ("TEST_ENV", "test"),
        ("ANOTHER_ENV", "another"),
        ("YET_ANOTHER_ENV", "yet another"),
    ]);
    assert_eq!(
        replace_envs("This is a ${TEST_ENV} and $ANOTHER_ENV and %YET_ANOTHER_ENV%", &e),
        "This is a test and another and yet another"
    );
}

#[test]
fn unbound_names_vanish() {
    let e = env(&[]);
    assert_eq!(replace_envs("a ${MISSING} b $GONE c", &e), "a  b  c");
}

#[test]
fn unclosed_brace_is_literal() {
    let e = env(&[("X", "y")]);
    assert_eq!(replace_envs("a ${X", &e), "a ${X");
}

#[test]
fn unclosed_percent_is_literal() {
    let e = env(&[("X", "y")]);
    assert_eq!(replace_envs("100% sure", &e), "100% sure");
}

#[test]
fn percent_name_is_uppercased() {
    let e = env(&[("PATHISH", "v")]);
    assert_eq!(replace_envs("%pathish%", &e), "v");
}

#[test]
fn dollar_name_stops_at_separators() {
    let e = env(&[("HOME", "/home/u")]);
    assert_eq!(replace_envs("$HOME/sub.txt", &e), "/home/u/sub.txt");
}

#[test]
fn lone_dollar_is_kept() {
    let e = env(&[]);
    assert_eq!(replace_envs("cost: $ 5", &e), "cost: $ 5");
}

#[test]
fn trailing_percent_is_kept() {
    let e = env(&[]);
    assert_eq!(replace_envs("50%", &e), "50%");
}
