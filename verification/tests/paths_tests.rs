use cot::fspath::{classify, join_path_exec, parent_of_exec, rfind_char};
use cot::hf::{
    dir_with_env, expand_tilde, hf_datasets_cache, hf_datasets_path, hf_home, hf_model_path,
    huggingface_hub_cache, xdg_cache_home,
};

#[test]
fn test_expand_tilde() {
    let home = dirs::home_dir().unwrap().to_string_lossy().to_string();
    assert_eq!(expand_tilde("~/", Some(home.clone())), Some(home.clone()));
    assert_eq!(expand_tilde("~", Some(home.clone())), Some(home.clone()));
    assert_eq!(expand_tilde("~/foo", Some(home.clone())), Some(format!("{}/foo", home)));
    assert_eq!(expand_tilde("~/.config", Some(home.clone())), Some(format!("{}/.config", home)));
    assert_eq!(expand_tilde("/foo/bar", Some(home.clone())), Some("/foo/bar".to_string()));
}

#[test]
fn expand_tilde_without_home() {
    assert_eq!(expand_tilde("~/x", None), None);
    assert_eq!(expand_tilde("/abs", None), Some("/abs".to_string()));
}

#[test]
fn env_override_wins() {
    assert_eq!(
        dir_with_env(Some("/custom".to_string()), Some("/home/u".to_string()), "~/.cache"),
        Some("/custom".to_string())
    );
    assert_eq!(
        dir_with_env(None, Some("/home/u".to_string()), "~/.cache"),
        Some("/home/u/.cache".to_string())
    );
}

#[test]
fn cache_defaults() {
    let home = Some("/home/u".to_string());
    assert_eq!(xdg_cache_home(None, home.clone()), Some("/home/u/.cache".to_string()));
    assert_eq!(
        hf_home(None, home.clone()),
        Some("/home/u/.cache/huggingface".to_string())
    );
    assert_eq!(
        huggingface_hub_cache(None, None, home.clone()),
        Some("/home/u/.cache/huggingface/hub".to_string())
    );
    assert_eq!(
        hf_datasets_cache(None, None, None, home.clone()),
        Some("/home/u/.cache/huggingface/datasets".to_string())
    );
}

#[test]
fn datasets_cache_follows_hub_override() {
    assert_eq!(
        hf_datasets_cache(
            Some("/hub".to_string()),
            Some("/ds".to_string()),
            None,
            Some("/home/u".to_string())
        ),
        Some("/ds".to_string())
    );
    assert_eq!(
        hf_datasets_cache(Some("/hub".to_string()), None, None, Some("/home/u".to_string())),
        Some("/home/u/.cache/huggingface/datasets".to_string())
    );
}

#[test]
fn model_and_dataset_paths() {
    assert_eq!(
        hf_model_path("/c/hub", "baai/bge-large-zh-v1.5", "abc123"),
        "/c/hub/models--baai--bge-large-zh-v1.5/snapshots/abc123"
    );
    assert_eq!(
        hf_datasets_path("/c/hub", "sentence-transformers/all-nli", "deadbeef"),
        "/c/hub/datasets--sentence-transformers--all-nli/snapshots/deadbeef"
    );
}

#[test]
fn join_path_cases() {
    assert_eq!(join_path_exec("dest", "a/b"), "dest/a/b");
    assert_eq!(join_path_exec("dest/", "a"), "dest/a");
    assert_eq!(join_path_exec("dest", "/abs"), "/abs");
    assert_eq!(join_path_exec("", "rel"), "rel");
}

#[test]
fn parent_of_cases() {
    assert_eq!(parent_of_exec("a/b/c"), Some("a/b".to_string()));
    assert_eq!(parent_of_exec("a/b/"), Some("a".to_string()));
    assert_eq!(parent_of_exec("plain"), Some("".to_string()));
    assert_eq!(parent_of_exec("/top"), Some("/".to_string()));
    assert_eq!(parent_of_exec("/"), None);
    assert_eq!(parent_of_exec(""), None);
}

#[test]
fn rfind_char_finds_the_last() {
    assert_eq!(rfind_char("a.b.c", '.'), Some(3));
    assert_eq!(rfind_char("abc", '.'), None);
}

#[test]
fn classification_ignores_directories() {
    assert_eq!(classify("some/dir/x.tar"), cot::fspath::ArchiveClass::Tar);
}
