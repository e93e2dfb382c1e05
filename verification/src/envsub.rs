//! Environment-variable substitution in strings: `$NAME`, `${NAME}` and
//! `%NAME%` forms, resolved against an explicit list of bindings.
//!
//! The caller snapshots the process environment (or anything else) into the
//! binding list; the scan itself is pure. An unbraced `$NAME` ends at
//! whitespace, `/` or `.`; an unclosed `${` or `%` is kept literally; a
//! `%NAME%` name is uppercased first; an unbound name is replaced by
//! nothing.

use vstd::prelude::*;

use crate::strutil::str_eq;

verus! {

/// The values of a binding list.
pub open spec fn env_views(e: Seq<(String, String)>) -> Seq<(Seq<char>, Seq<char>)> {
    Seq::new(e.len(), |i: int| (e[i].0@, e[i].1@))
}

/// The first binding of `name`, if any.
pub open spec fn lookup(env: Seq<(Seq<char>, Seq<char>)>, name: Seq<char>) -> Option<Seq<char>>
    decreases env.len(),
{
    if env.len() == 0 {
        None
    } else if env[0].0 == name {
        Some(env[0].1)
    } else {
        lookup(env.subrange(1, env.len() as int), name)
    }
}

/// The first binding of `name`, or the empty string.
pub open spec fn lookup_or_empty(env: Seq<(Seq<char>, Seq<char>)>, name: Seq<char>) -> Seq<char> {
    match lookup(env, name) {
        Some(v) => v,
        None => Seq::<char>::empty(),
    }
}

/// ASCII whitespace, which ends an unbraced name.
pub open spec fn is_space_char(c: char) -> bool {
    c == ' ' || c == '\t' || c == '\n' || c == '\r'
}

/// An ASCII lowercase letter raised to uppercase; anything else unchanged.
pub open spec fn upper_char(c: char) -> char {
    if 'a' <= c && c <= 'z' {
        ((c as u8) - 32) as char
    } else {
        c
    }
}

/// Every character raised to uppercase.
pub open spec fn to_upper(s: Seq<char>) -> Seq<char> {
    s.map_values(|c: char| upper_char(c))
}

/// The first index at or after `j` holding `c`, or the length of `s`.
pub open spec fn char_from(s: Seq<char>, j: int, c: char) -> int
    decreases s.len() - j,
{
    if j < 0 || j >= s.len() {
        s.len() as int
    } else if s[j] == c {
        j
    } else {
        char_from(s, j + 1, c)
    }
}

/// `char_from` stays within `[j, s.len()]`, skips only non-`c` characters,
/// and lands on `c` when it lands inside.
pub proof fn lemma_char_from(s: Seq<char>, j: int, c: char)
    requires
        0 <= j <= s.len(),
    ensures
        j <= char_from(s, j, c) <= s.len(),
        forall|k: int| j <= k < char_from(s, j, c) ==> s[k] != c,
        char_from(s, j, c) < s.len() ==> s[char_from(s, j, c)] == c,
    decreases s.len() - j,
{
    if j < s.len() && s[j] != c {
        lemma_char_from(s, j + 1, c);
    }
}

/// Any position at or after `j` that is preceded (from `j`) only by non-`c`
/// characters and holds `c`, or is the length, equals `char_from`.
proof fn lemma_char_from_unique(s: Seq<char>, j: int, c: char, i: int)
    requires
        0 <= j <= i <= s.len(),
        forall|k: int| j <= k < i ==> s[k] != c,
        i < s.len() ==> s[i] == c,
    ensures
        i == char_from(s, j, c),
{
    lemma_char_from(s, j, c);
    let f = char_from(s, j, c);
    if i < f {
        assert(s[i] != c);
    }
    if f < i {
        assert(s[f] != c);
    }
}

/// Finds the first occurrence of `c` at or after `j`.
fn find_from(s: &str, j: usize, c: char) -> (r: usize)
    requires
        j <= s@.len(),
    ensures
        r == char_from(s@, j as int, c),
        j <= r <= s@.len(),
        r < s@.len() ==> s@[r as int] == c,
        forall|k: int| j <= k < r ==> s@[k] != c,
{
    let n: usize = s.unicode_len();
    let mut i: usize = j;
    while i < n
        invariant
            j <= i <= n,
            n == s@.len(),
            forall|k: int| j <= k < i ==> s@[k] != c,
        decreases n - i,
    {
        if s.get_char(i) == c {
            proof {
                lemma_char_from_unique(s@, j as int, c, i as int);
            }
            return i;
        }
        i = i + 1;
    }
    proof {
        lemma_char_from_unique(s@, j as int, c, n as int);
    }
    n
}

/// Whether `c` ends an unbraced name.
pub open spec fn ends_name(c: char) -> bool {
    is_space_char(c) || c == '/' || c == '.'
}

/// The first index at or after `j` that ends an unbraced name, or the
/// length of `s`.
pub open spec fn name_end(s: Seq<char>, j: int) -> int
    decreases s.len() - j,
{
    if j < 0 || j >= s.len() {
        s.len() as int
    } else if ends_name(s[j]) {
        j
    } else {
        name_end(s, j + 1)
    }
}

proof fn lemma_name_end(s: Seq<char>, j: int)
    requires
        0 <= j <= s.len(),
    ensures
        j <= name_end(s, j) <= s.len(),
        forall|k: int| j <= k < name_end(s, j) ==> !ends_name(s[k]),
        name_end(s, j) < s.len() ==> ends_name(s[name_end(s, j)]),
    decreases s.len() - j,
{
    if j < s.len() && !ends_name(s[j]) {
        lemma_name_end(s, j + 1);
    }
}

proof fn lemma_name_end_unique(s: Seq<char>, j: int, i: int)
    requires
        0 <= j <= i <= s.len(),
        forall|k: int| j <= k < i ==> !ends_name(s[k]),
        i < s.len() ==> ends_name(s[i]),
    ensures
        i == name_end(s, j),
{
    lemma_name_end(s, j);
    let f = name_end(s, j);
    if i < f {
        assert(!ends_name(s[i]));
    }
    if f < i {
        assert(!ends_name(s[f]));
    }
}

/// Finds the end of an unbraced name starting at `j`.
fn scan_name_end(s: &str, j: usize) -> (r: usize)
    requires
        j <= s@.len(),
    ensures
        r == name_end(s@, j as int),
        j <= r <= s@.len(),
{
    let n: usize = s.unicode_len();
    let mut i: usize = j;
    while i < n
        invariant
            j <= i <= n,
            n == s@.len(),
            forall|k: int| j <= k < i ==> !ends_name(s@[k]),
        decreases n - i,
    {
        let c = s.get_char(i);
        if c == ' ' || c == '\t' || c == '\n' || c == '\r' || c == '/' || c == '.' {
            proof {
                lemma_name_end_unique(s@, j as int, i as int);
            }
            return i;
        }
        i = i + 1;
    }
    proof {
        lemma_name_end_unique(s@, j as int, n as int);
    }
    n
}

/// The substitution of `s` from position `i` on.
pub open spec fn subst_from(s: Seq<char>, i: int, env: Seq<(Seq<char>, Seq<char>)>) -> Seq<char>
    decreases s.len() - i,
{
    if i < 0 || i >= s.len() {
        Seq::<char>::empty()
    } else if s[i] == '$' {
        if i + 1 < s.len() && s[i + 1] == '{' {
            let j = vstd::math::max(char_from(s, i + 2, '}'), i + 2);
            if j >= s.len() {
                seq!['$', '{'] + subst_from(s, i + 2, env)
            } else {
                lookup_or_empty(env, s.subrange(i + 2, j)) + subst_from(s, j + 1, env)
            }
        } else {
            let j = vstd::math::min(vstd::math::max(name_end(s, i + 1), i + 1), s.len() as int);
            if j == i + 1 {
                seq!['$'] + subst_from(s, i + 1, env)
            } else {
                lookup_or_empty(env, s.subrange(i + 1, j)) + subst_from(s, j, env)
            }
        }
    } else if s[i] == '%' && i + 1 < s.len() {
        let j = vstd::math::max(char_from(s, i + 1, '%'), i + 1);
        if j >= s.len() {
            seq!['%'] + subst_from(s, i + 1, env)
        } else {
            (match lookup(env, to_upper(s.subrange(i + 1, j))) {
                Some(v) => v,
                None => Seq::<char>::empty(),
            }) + subst_from(s, j + 1, env)
        }
    } else {
        seq![s[i]] + subst_from(s, i + 1, env)
    }
}

/// The whole substitution of `s`.
pub open spec fn spec_replace_envs(s: Seq<char>, env: Seq<(Seq<char>, Seq<char>)>) -> Seq<char> {
    subst_from(s, 0, env)
}

/// The first binding of `name`, or the empty string.
fn lookup_exec(env: &Vec<(String, String)>, name: &str) -> (r: String)
    ensures
        r@ == lookup_or_empty(env_views(env@), name@),
{
    let ghost ev = env_views(env@);
    let n: usize = env.len();
    let mut k: usize = 0;
    proof {
        assert(ev.subrange(0, n as int) =~= ev);
    }
    while k < n
        invariant
            0 <= k <= n,
            n == env@.len(),
            ev == env_views(env@),
            lookup(ev, name@) == lookup(ev.subrange(k as int, n as int), name@),
        decreases n - k,
    {
        let pair = &env[k];
        if str_eq(pair.0.as_str(), name) {
            proof {
                let tail = ev.subrange(k as int, n as int);
                assert(tail[0] == ev[k as int]);
                assert(lookup(tail, name@) == Some(ev[k as int].1));
            }
            return pair.1.clone();
        }
        proof {
            let tail = ev.subrange(k as int, n as int);
            assert(tail[0] == ev[k as int]);
            assert(tail.subrange(1, tail.len() as int) =~= ev.subrange(k + 1, n as int));
        }
        k = k + 1;
    }
    proof {
        assert(ev.subrange(n as int, n as int) =~= Seq::<(Seq<char>, Seq<char>)>::empty());
    }
    String::new()
}

/// Raises every character to ASCII uppercase.
fn upper_exec(s: &str) -> (r: String)
    ensures
        r@ == to_upper(s@),
{
    let n: usize = s.unicode_len();
    let mut out = String::new();
    let mut i: usize = 0;
    proof {
        assert(out@ =~= to_upper(s@.subrange(0, 0)));
    }
    while i < n
        invariant
            0 <= i <= n,
            n == s@.len(),
            out@ == to_upper(s@.subrange(0, i as int)),
        decreases n - i,
    {
        let c = s.get_char(i);
        if 'a' <= c && c <= 'z' {
            let u: char = ((c as u8) - 32) as char;
            let one = char_str(u);
            out.append(one.as_str());
        } else {
            out.append(s.substring_char(i, i + 1));
        }
        proof {
            assert(to_upper(s@.subrange(0, i + 1)) =~= to_upper(s@.subrange(0, i as int)) + seq![
                upper_char(s@[i as int]),
            ]);
        }
        i = i + 1;
    }
    proof {
        assert(s@.subrange(0, n as int) =~= s@);
    }
    out
}

/// Relies on `String::from(char)`: the string of exactly that character.
#[verifier::external_body]
fn char_str(c: char) -> (r: String)
    ensures
        r@ == seq![c],
{
    String::from(c)
}

/// Replaces `$NAME`, `${NAME}` and `%NAME%` references in `input` by the
/// bound values in `env`.
pub fn replace_envs(input: &str, env: &Vec<(String, String)>) -> (r: String)
    ensures
        r@ == spec_replace_envs(input@, env_views(env@)),
{
    let ghost ev = env_views(env@);
    let n: usize = input.unicode_len();
    let mut out = String::new();
    let mut i: usize = 0;
    proof {
        assert(out@ + subst_from(input@, 0, ev) =~= subst_from(input@, 0, ev));
    }
    while i < n
        invariant
            0 <= i <= n,
            n == input@.len(),
            ev == env_views(env@),
            out@ + subst_from(input@, i as int, ev) == subst_from(input@, 0, ev),
        decreases n - i,
    {
        let ghost out0 = out@;
        let ghost old_i = i as int;
        let c = input.get_char(i);
        if c == '$' {
            if i + 1 < n && input.get_char(i + 1) == '{' {
                let j = find_from(input, i + 2, '}');
                if j >= n {
                    out.append("${");
                    proof {
                        reveal_strlit("${");
                    }
                    i = i + 2;
                } else {
                    let name: &str = input.substring_char(i + 2, j);
                    let v = lookup_exec(env, name);
                    out.append(v.as_str());
                    i = j + 1;
                }
            } else {
                let j = scan_name_end(input, i + 1);
                if j == i + 1 {
                    out.append("$");
                    proof {
                        reveal_strlit("$");
                    }
                    i = i + 1;
                } else {
                    let name: &str = input.substring_char(i + 1, j);
                    let v = lookup_exec(env, name);
                    out.append(v.as_str());
                    i = j;
                }
            }
        } else if c == '%' && i + 1 < n {
            let j = find_from(input, i + 1, '%');
            if j >= n {
                out.append("%");
                proof {
                    reveal_strlit("%");
                }
                i = i + 1;
            } else {
                let name: &str = input.substring_char(i + 1, j);
                let un = upper_exec(name);
                let v = lookup_exec(env, un.as_str());
                out.append(v.as_str());
                i = j + 1;
            }
        } else {
            out.append(input.substring_char(i, i + 1));
            proof {
                assert(input@.subrange(old_i, old_i + 1) =~= seq![input@[old_i]]);
            }
            i = i + 1;
        }
        proof {
            assert(out@ + subst_from(input@, i as int, ev) =~= out0 + subst_from(
                input@,
                old_i,
                ev,
            ));
        }
    }
    proof {
        assert(out@ + subst_from(input@, n as int, ev) =~= out@);
    }
    out
}

} // verus!
