//! Cache-directory path computation: tilde expansion, the
//! environment-override convention of cache directories, and model and
//! dataset snapshot paths.
//!
//! Environment variables and the filesystem are read by the caller, which
//! hands the values in; whether a computed directory actually exists is
//! likewise the caller's check.

use vstd::prelude::*;

use crate::fspath::join_path;
use crate::strutil::str_eq;

verus! {

/// The value of an optional string.
pub open spec fn opt_view(o: Option<String>) -> Option<Seq<char>> {
    match o {
        Some(s) => Some(s@),
        None => None,
    }
}

/// A path with a leading `~` expanded to the home directory: `~` and `~/`
/// are the home directory itself, `~/rest` goes below it, anything else is
/// kept; `None` when expansion is wanted and no home directory is known.
pub open spec fn spec_expand_tilde(path: Seq<char>, home: Option<Seq<char>>) -> Option<Seq<char>> {
    if path == "~"@ || path == "~/"@ {
        home
    } else if path.len() >= 2 && path[0] == '~' && path[1] == '/' {
        match home {
            Some(h) => Some(h + seq!['/'] + path.subrange(2, path.len() as int)),
            None => None,
        }
    } else {
        Some(path)
    }
}

/// Expands a leading `~` to the home directory.
pub fn expand_tilde(path: &str, home: Option<String>) -> (r: Option<String>)
    ensures
        opt_view(r) == spec_expand_tilde(path@, opt_view(home)),
{
    if str_eq(path, "~") || str_eq(path, "~/") {
        return home;
    }
    let n: usize = path.unicode_len();
    if n >= 2 && path.get_char(0) == '~' && path.get_char(1) == '/' {
        match home {
            Some(h) => {
                let mut s = h;
                s.append("/");
                s.append(path.substring_char(2, n));
                proof {
                    reveal_strlit("/");
                    assert(s@ =~= spec_expand_tilde(path@, opt_view(home)).unwrap());
                }
                Some(s)
            },
            None => None,
        }
    } else {
        Some(String::from_str(path))
    }
}

/// A directory from an environment override, or the default with `~`
/// expanded.
pub open spec fn spec_dir_with_env(
    env_value: Option<Seq<char>>,
    home: Option<Seq<char>>,
    default_dir: Seq<char>,
) -> Option<Seq<char>> {
    match env_value {
        Some(v) => Some(v),
        None => spec_expand_tilde(default_dir, home),
    }
}

/// The directory named by an environment override, or the default with `~`
/// expanded to the home directory.
pub fn dir_with_env(env_value: Option<String>, home: Option<String>, default_dir: &str) -> (r:
    Option<String>)
    ensures
        opt_view(r) == spec_dir_with_env(opt_view(env_value), opt_view(home), default_dir@),
{
    match env_value {
        Some(v) => Some(v),
        None => expand_tilde(default_dir, home),
    }
}

/// The XDG cache directory: the `XDG_CACHE_HOME` value when set, else
/// `~/.cache`.
pub fn xdg_cache_home(env_value: Option<String>, home: Option<String>) -> (r: Option<String>)
    ensures
        opt_view(r) == spec_dir_with_env(opt_view(env_value), opt_view(home), "~/.cache"@),
{
    dir_with_env(env_value, home, "~/.cache")
}

/// The Hugging Face home directory: the `HF_HOME` value when set, else
/// `~/.cache/huggingface`.
pub fn hf_home(env_value: Option<String>, home: Option<String>) -> (r: Option<String>)
    ensures
        opt_view(r) == spec_dir_with_env(
            opt_view(env_value),
            opt_view(home),
            "~/.cache/huggingface"@,
        ),
{
    dir_with_env(env_value, home, "~/.cache/huggingface")
}

/// The hub cache: the `HUGGINGFACE_HUB_CACHE` value when set, else `hub`
/// under the Hugging Face home.
pub open spec fn spec_hub_cache(
    hub_env: Option<Seq<char>>,
    hf_home_env: Option<Seq<char>>,
    home: Option<Seq<char>>,
) -> Option<Seq<char>> {
    match hub_env {
        Some(v) => Some(v),
        None => match spec_dir_with_env(hf_home_env, home, "~/.cache/huggingface"@) {
            Some(h) => Some(join_path(h, "hub"@)),
            None => None,
        },
    }
}

/// The Hugging Face hub cache directory.
pub fn huggingface_hub_cache(
    hub_env: Option<String>,
    hf_home_env: Option<String>,
    home: Option<String>,
) -> (r: Option<String>)
    ensures
        opt_view(r) == spec_hub_cache(opt_view(hub_env), opt_view(hf_home_env), opt_view(home)),
{
    match hub_env {
        Some(v) => Some(v),
        None => match hf_home(hf_home_env, home) {
            Some(h) => Some(crate::fspath::join_path_exec(h.as_str(), "hub")),
            None => None,
        },
    }
}

/// The datasets cache: with the hub override set, the `HF_DATASETS_CACHE`
/// value or its default; otherwise `datasets` under the Hugging Face home.
pub open spec fn spec_datasets_cache(
    hub_env: Option<Seq<char>>,
    ds_env: Option<Seq<char>>,
    hf_home_env: Option<Seq<char>>,
    home: Option<Seq<char>>,
) -> Option<Seq<char>> {
    if hub_env is Some {
        spec_dir_with_env(ds_env, home, "~/.cache/huggingface/datasets"@)
    } else {
        match spec_dir_with_env(hf_home_env, home, "~/.cache/huggingface"@) {
            Some(h) => Some(join_path(h, "datasets"@)),
            None => None,
        }
    }
}

/// The Hugging Face datasets cache directory.
pub fn hf_datasets_cache(
    hub_env: Option<String>,
    ds_env: Option<String>,
    hf_home_env: Option<String>,
    home: Option<String>,
) -> (r: Option<String>)
    ensures
        opt_view(r) == spec_datasets_cache(
            opt_view(hub_env),
            opt_view(ds_env),
            opt_view(hf_home_env),
            opt_view(home),
        ),
{
    if hub_env.is_some() {
        dir_with_env(ds_env, home, "~/.cache/huggingface/datasets")
    } else {
        match hf_home(hf_home_env, home) {
            Some(h) => Some(crate::fspath::join_path_exec(h.as_str(), "datasets")),
            None => None,
        }
    }
}

/// `s` with every `/` replaced by `--`.
pub open spec fn dashed(s: Seq<char>) -> Seq<char>
    decreases s.len(),
{
    if s.len() == 0 {
        s
    } else {
        (if s[0] == '/' {
            seq!['-', '-']
        } else {
            seq![s[0]]
        }) + dashed(s.subrange(1, s.len() as int))
    }
}

/// Extending the input by one character appends that character's
/// replacement.
proof fn lemma_dashed_snoc(s: Seq<char>, i: int)
    requires
        0 <= i < s.len(),
    ensures
        dashed(s.subrange(0, i + 1)) == dashed(s.subrange(0, i)) + (if s[i] == '/' {
            seq!['-', '-']
        } else {
            seq![s[i]]
        }),
    decreases i,
{
    let a = s.subrange(0, i + 1);
    let piece = if s[i] == '/' {
        seq!['-', '-']
    } else {
        seq![s[i]]
    };
    if i == 0 {
        assert(a.subrange(1, a.len() as int) =~= s.subrange(0, 0));
        assert(dashed(s.subrange(0, 0)) =~= Seq::<char>::empty());
        assert(dashed(a) =~= piece);
        assert(dashed(s.subrange(0, 0)) + piece =~= piece);
    } else {
        let rest = s.subrange(1, s.len() as int);
        lemma_dashed_snoc(rest, i - 1);
        let b = s.subrange(0, i);
        assert(a[0] == s[0]);
        assert(b[0] == s[0]);
        assert(a.subrange(1, a.len() as int) =~= rest.subrange(0, i));
        assert(b.subrange(1, b.len() as int) =~= rest.subrange(0, i - 1));
        assert(rest[i - 1] == s[i]);
        let head = if s[0] == '/' {
            seq!['-', '-']
        } else {
            seq![s[0]]
        };
        assert(dashed(a) == head + dashed(rest.subrange(0, i)));
        assert(dashed(b) == head + dashed(rest.subrange(0, i - 1)));
        assert(head + (dashed(rest.subrange(0, i - 1)) + piece) =~= (head + dashed(
            rest.subrange(0, i - 1),
        )) + piece);
    }
}

/// Replaces every `/` with `--`, the naming convention of cache
/// subdirectories.
fn dashed_exec(s: &str) -> (r: String)
    ensures
        r@ == dashed(s@),
{
    let n: usize = s.unicode_len();
    let mut out = String::new();
    let mut i: usize = 0;
    proof {
        assert(s@.subrange(0, 0) =~= Seq::<char>::empty());
    }
    while i < n
        invariant
            0 <= i <= n,
            n == s@.len(),
            out@ == dashed(s@.subrange(0, i as int)),
        decreases n - i,
    {
        if s.get_char(i) == '/' {
            out.append("--");
        } else {
            out.append(s.substring_char(i, i + 1));
        }
        proof {
            reveal_strlit("--");
            lemma_dashed_snoc(s@, i as int);
            assert(s@.subrange(i as int, i as int + 1) =~= seq![s@[i as int]]);
        }
        i = i + 1;
    }
    proof {
        assert(s@.subrange(0, n as int) =~= s@);
    }
    out
}

/// The directory of a model under the hub cache: `models--<id with / as
/// -->`.
pub open spec fn spec_model_dir(cache: Seq<char>, model: Seq<char>) -> Seq<char> {
    join_path(cache, "models--"@ + dashed(model))
}

/// The directory of a model under the hub cache.
pub fn hf_model_dir(cache: &str, model: &str) -> (r: String)
    ensures
        r@ == spec_model_dir(cache@, model@),
{
    let mut name = String::from_str("models--");
    let dm = dashed_exec(model);
    name.append(dm.as_str());
    crate::fspath::join_path_exec(cache, name.as_str())
}

/// The directory of a dataset under the hub cache: `datasets--<id with / as
/// -->`.
pub open spec fn spec_datasets_dir(cache: Seq<char>, ds: Seq<char>) -> Seq<char> {
    join_path(cache, "datasets--"@ + dashed(ds))
}

/// The directory of a dataset under the hub cache.
pub fn hf_datasets_dir(cache: &str, ds: &str) -> (r: String)
    ensures
        r@ == spec_datasets_dir(cache@, ds@),
{
    let mut name = String::from_str("datasets--");
    let dd = dashed_exec(ds);
    name.append(dd.as_str());
    crate::fspath::join_path_exec(cache, name.as_str())
}

/// The snapshot path of a model: its directory, then `snapshots`, then the
/// snapshot's commit.
pub open spec fn spec_model_path(cache: Seq<char>, model: Seq<char>, oid: Seq<char>) -> Seq<char> {
    join_path(join_path(spec_model_dir(cache, model), "snapshots"@), oid)
}

/// The snapshot directory of a model under the hub cache.
pub fn hf_model_path(cache: &str, model: &str, oid: &str) -> (r: String)
    ensures
        r@ == spec_model_path(cache@, model@, oid@),
{
    let p1 = hf_model_dir(cache, model);
    let p2 = crate::fspath::join_path_exec(p1.as_str(), "snapshots");
    crate::fspath::join_path_exec(p2.as_str(), oid)
}

/// The snapshot path of a dataset: as for models, under `datasets--`.
pub open spec fn spec_datasets_path(cache: Seq<char>, ds: Seq<char>, oid: Seq<char>) -> Seq<char> {
    join_path(join_path(spec_datasets_dir(cache, ds), "snapshots"@), oid)
}

/// The snapshot directory of a dataset under the hub cache.
pub fn hf_datasets_path(cache: &str, ds: &str, oid: &str) -> (r: String)
    ensures
        r@ == spec_datasets_path(cache@, ds@, oid@),
{
    let p1 = hf_datasets_dir(cache, ds);
    let p2 = crate::fspath::join_path_exec(p1.as_str(), "snapshots");
    crate::fspath::join_path_exec(p2.as_str(), oid)
}

} // verus!
