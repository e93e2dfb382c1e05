//! Verified path text handling for the archive extractor: joining a
//! destination with an entry name, taking a parent directory, checking entry
//! names for traversal, and classifying an archive file by its extension.
//!
//! Paths are treated as text: components are not normalised beyond what the
//! definitions here state.

use vstd::prelude::*;

use crate::strutil::str_eq;

verus! {

/// Index of the last occurrence of `c` in `s`, or `-1` if `c` does not
/// occur.
pub open spec fn last_ix(s: Seq<char>, c: char) -> int
    decreases s.len(),
{
    if s.len() == 0 {
        -1
    } else if s[s.len() - 1] == c {
        s.len() - 1
    } else {
        last_ix(s.subrange(0, s.len() - 1), c)
    }
}

/// `last_ix` is the greatest index holding `c`, and is `-1` exactly when `c`
/// is absent.
pub proof fn lemma_last_ix(s: Seq<char>, c: char)
    ensures
        -1 <= last_ix(s, c) < s.len(),
        forall|j: int| last_ix(s, c) < j < s.len() ==> s[j] != c,
        last_ix(s, c) >= 0 ==> s[last_ix(s, c)] == c,
    decreases s.len(),
{
    if s.len() > 0 && s[s.len() - 1] != c {
        let t = s.subrange(0, s.len() - 1);
        lemma_last_ix(t, c);
        assert forall|j: int| last_ix(s, c) < j < s.len() implies s[j] != c by {
            if j < s.len() - 1 {
                assert(t[j] != c);
            }
        }
    }
}

/// Any index holding `c` and followed only by non-`c` characters equals
/// `last_ix`; `-1` qualifies when nothing holds `c` at all.
pub proof fn lemma_last_ix_unique(s: Seq<char>, c: char, i: int)
    requires
        -1 <= i < s.len(),
        i >= 0 ==> s[i] == c,
        forall|j: int| i < j < s.len() ==> s[j] != c,
    ensures
        i == last_ix(s, c),
{
    lemma_last_ix(s, c);
    let l = last_ix(s, c);
    if i < l {
        assert(s[l] != c);
    }
    if l < i {
        assert(s[i] != c);
    }
}

/// Finds the last occurrence of `c` in `s`.
pub fn rfind_char(s: &str, c: char) -> (r: Option<usize>)
    ensures
        match r {
            Some(i) => {
                &&& i == last_ix(s@, c)
                &&& i < s@.len()
                &&& s@[i as int] == c
                &&& forall|j: int| i < j < s@.len() ==> s@[j] != c
            },
            None => last_ix(s@, c) == -1 && forall|j: int| 0 <= j < s@.len() ==> s@[j] != c,
        },
{
    let n: usize = s.unicode_len();
    let mut j: usize = n;
    while j > 0
        invariant
            0 <= j <= n,
            n == s@.len(),
            forall|k: int| j <= k < n ==> s@[k] != c,
        decreases j,
    {
        if s.get_char(j - 1) == c {
            proof {
                lemma_last_ix_unique(s@, c, j - 1);
            }
            return Some(j - 1);
        }
        j = j - 1;
    }
    proof {
        lemma_last_ix_unique(s@, c, -1);
    }
    None
}

/// A destination joined with an entry name: the name itself when it is
/// absolute or the destination is empty, otherwise the two with exactly one
/// `/` between them.
pub open spec fn join_path(dest: Seq<char>, name: Seq<char>) -> Seq<char> {
    if name.len() > 0 && name[0] == '/' {
        name
    } else if dest.len() == 0 {
        name
    } else if dest[dest.len() - 1] == '/' {
        dest + name
    } else {
        dest + seq!['/'] + name
    }
}

/// Joins a destination directory and an entry name.
pub fn join_path_exec(dest: &str, name: &str) -> (r: String)
    ensures
        r@ == join_path(dest@, name@),
{
    let nn: usize = name.unicode_len();
    if nn > 0 && name.get_char(0) == '/' {
        return String::from_str(name);
    }
    let dn: usize = dest.unicode_len();
    if dn == 0 {
        return String::from_str(name);
    }
    let mut r = String::from_str(dest);
    if !(dest.get_char(dn - 1) == '/') {
        r.append("/");
    }
    r.append(name);
    proof {
        reveal_strlit("/");
        assert(r@ =~= join_path(dest@, name@));
    }
    r
}

/// `s` with every trailing `/` removed.
pub open spec fn trim_slashes(s: Seq<char>) -> Seq<char>
    decreases s.len(),
{
    if s.len() > 0 && s[s.len() - 1] == '/' {
        trim_slashes(s.subrange(0, s.len() - 1))
    } else {
        s
    }
}

/// The parent directory of a path, textually: trailing slashes are dropped,
/// then everything after the final `/` is cut. A name with no `/` has the
/// empty parent; a root of slashes has none.
pub open spec fn parent_of(p: Seq<char>) -> Option<Seq<char>> {
    let t = trim_slashes(p);
    if t.len() == 0 {
        None
    } else if last_ix(t, '/') < 0 {
        Some(Seq::<char>::empty())
    } else {
        let q = trim_slashes(t.subrange(0, last_ix(t, '/')));
        if q.len() == 0 {
            Some(seq!['/'])
        } else {
            Some(q)
        }
    }
}

/// The length after trimming trailing slashes, found by scanning `s` from
/// position `e0` leftwards.
fn trim_end(s: &str, e0: usize) -> (r: usize)
    requires
        e0 <= s@.len(),
        trim_slashes(s@.subrange(0, e0 as int)) == trim_slashes(s@),
    ensures
        r <= e0,
        s@.subrange(0, r as int) == trim_slashes(s@),
{
    let mut e: usize = e0;
    while e > 0
        invariant
            0 <= e <= e0 <= s@.len(),
            trim_slashes(s@.subrange(0, e as int)) == trim_slashes(s@),
        ensures
            0 <= e <= e0 <= s@.len(),
            trim_slashes(s@.subrange(0, e as int)) == trim_slashes(s@),
            e > 0 ==> s@[e - 1] != '/',
        decreases e,
    {
        if s.get_char(e - 1) != '/' {
            break;
        }
        proof {
            let t = s@.subrange(0, e as int);
            assert(t.subrange(0, t.len() - 1) =~= s@.subrange(0, e - 1));
        }
        e = e - 1;
    }
    proof {
        let t = s@.subrange(0, e as int);
        if e > 0 {
            assert(t[t.len() - 1] == s@[e - 1]);
        }
        assert(trim_slashes(t) == t);
    }
    e
}

/// The parent directory of a path.
pub fn parent_of_exec(p: &str) -> (r: Option<String>)
    ensures
        match r {
            Some(q) => parent_of(p@) matches Some(v) && q@ == v,
            None => parent_of(p@) is None,
        },
{
    let n: usize = p.unicode_len();
    proof {
        assert(p@.subrange(0, n as int) =~= p@);
    }
    let e: usize = trim_end(p, n);
    if e == 0 {
        return None;
    }
    let t: &str = p.substring_char(0, e);
    proof {
        assert(t@ == trim_slashes(p@));
    }
    match rfind_char(t, '/') {
        None => Some(String::new()),
        Some(i) => {
            let head: &str = t.substring_char(0, i);
            proof {
                assert(head@.subrange(0, i as int) =~= head@);
            }
            let q: usize = trim_end(head, i);
            if q == 0 {
                proof {
                    reveal_strlit("/");
                }
                Some(String::from_str("/"))
            } else {
                Some(String::from_str(head.substring_char(0, q)))
            }
        },
    }
}

/// A `..` path component at position `p` of `s`.
pub open spec fn is_dotdot_at(s: Seq<char>, p: int) -> bool {
    &&& 0 <= p
    &&& p + 2 <= s.len()
    &&& s[p] == '.'
    &&& s[p + 1] == '.'
    &&& (p == 0 || s[p - 1] == '/')
    &&& (p + 2 == s.len() || s[p + 2] == '/')
}

/// Whether `s` holds a `..` component.
pub open spec fn has_dotdot(s: Seq<char>) -> bool {
    exists|p: int| is_dotdot_at(s, p)
}

/// An archive entry name that stays below the extraction directory: not
/// empty, not absolute, and without `..` components.
pub open spec fn safe_entry_name(s: Seq<char>) -> bool {
    s.len() > 0 && s[0] != '/' && !has_dotdot(s)
}

/// Whether an entry name is safe to extract.
pub fn is_safe_entry_name(s: &str) -> (r: bool)
    ensures
        r == safe_entry_name(s@),
{
    let n: usize = s.unicode_len();
    if n == 0 {
        return false;
    }
    if s.get_char(0) == '/' {
        return false;
    }
    if n < 2 {
        proof {
            assert(forall|q: int| !is_dotdot_at(s@, q));
        }
        return true;
    }
    let mut p: usize = 0;
    while p <= n - 2
        invariant
            0 <= p,
            p <= n,
            2 <= n,
            n == s@.len(),
            forall|q: int| 0 <= q < p ==> !is_dotdot_at(s@, q),
        decreases n - p,
    {
        let two_dots = s.get_char(p) == '.' && s.get_char(p + 1) == '.';
        let pre_ok = p == 0 || s.get_char(p - 1) == '/';
        let post_ok = p + 2 == n || s.get_char(p + 2) == '/';
        if two_dots && pre_ok && post_ok {
            proof {
                assert(is_dotdot_at(s@, p as int));
            }
            return false;
        }
        p = p + 1;
    }
    proof {
        assert forall|q: int| !is_dotdot_at(s@, q) by {
            if 0 <= q < p {
            } else if q >= p {
                assert(q + 2 > n ==> !is_dotdot_at(s@, q));
            }
        }
    }
    true
}

/// How a file is handled, by its name.
#[derive(Clone, Copy, PartialEq, Eq, Structural, Debug)]
pub enum ArchiveClass {
    /// A gzip-compressed tar stream: `.tar.gz` or `.tgz`.
    TarGz,
    /// A bare tar archive: `.tar`.
    Tar,
    /// A zip archive: `.zip`.
    Zip,
    /// A `.gz` file whose stem does not end in `.tar`: refused untouched.
    GzNotTar,
    /// Anything else, an unknown or missing extension: left untouched.
    Unsupported,
}

/// The file-name part of a path: everything after the last `/`.
pub open spec fn base_name(s: Seq<char>) -> Seq<char> {
    s.subrange(last_ix(s, '/') + 1, s.len() as int)
}

/// The extension of a file name: what follows the last `.` of the base
/// name, provided that dot is not its first character.
pub open spec fn extension_of(s: Seq<char>) -> Option<Seq<char>> {
    let b = base_name(s);
    if last_ix(b, '.') <= 0 {
        None
    } else {
        Some(b.subrange(last_ix(b, '.') + 1, b.len() as int))
    }
}

/// The stem of a file name: the base name up to the dot that starts the
/// extension, or whole when there is no extension.
pub open spec fn stem_of(s: Seq<char>) -> Seq<char> {
    let b = base_name(s);
    if last_ix(b, '.') <= 0 {
        b
    } else {
        b.subrange(0, last_ix(b, '.'))
    }
}

/// Whether `s` ends with `suffix`.
pub open spec fn ends_with(s: Seq<char>, suffix: Seq<char>) -> bool {
    s.len() >= suffix.len() && s.subrange(s.len() - suffix.len(), s.len() as int) == suffix
}

/// How a file name is dispatched: by extension, with `.gz` demanding a stem
/// that ends in `.tar`.
pub open spec fn classify_spec(name: Seq<char>) -> ArchiveClass {
    match extension_of(name) {
        None => ArchiveClass::Unsupported,
        Some(e) => {
            if e == "gz"@ {
                if ends_with(stem_of(name), ".tar"@) {
                    ArchiveClass::TarGz
                } else {
                    ArchiveClass::GzNotTar
                }
            } else if e == "tgz"@ {
                ArchiveClass::TarGz
            } else if e == "tar"@ {
                ArchiveClass::Tar
            } else if e == "zip"@ {
                ArchiveClass::Zip
            } else {
                ArchiveClass::Unsupported
            }
        },
    }
}

/// Classifies a file name for extraction.
pub fn classify(name: &str) -> (r: ArchiveClass)
    ensures
        r == classify_spec(name@),
{
    let n: usize = name.unicode_len();
    let base_start: usize = match rfind_char(name, '/') {
        Some(i) => i + 1,
        None => 0,
    };
    let base: &str = name.substring_char(base_start, n);
    proof {
        assert(base@ == base_name(name@));
    }
    let bn: usize = base.unicode_len();
    let d: usize = match rfind_char(base, '.') {
        Some(i) => i,
        None => {
            return ArchiveClass::Unsupported;
        },
    };
    if d == 0 {
        return ArchiveClass::Unsupported;
    }
    let ext: &str = base.substring_char(d + 1, bn);
    if str_eq(ext, "gz") {
        let stem: &str = base.substring_char(0, d);
        let sl: usize = stem.unicode_len();
        let tar_ok: bool = if sl >= 4 {
            str_eq(stem.substring_char(sl - 4, sl), ".tar")
        } else {
            false
        };
        proof {
            reveal_strlit(".tar");
            assert(stem@ == stem_of(name@));
        }
        if tar_ok {
            ArchiveClass::TarGz
        } else {
            ArchiveClass::GzNotTar
        }
    } else if str_eq(ext, "tgz") {
        ArchiveClass::TarGz
    } else if str_eq(ext, "tar") {
        ArchiveClass::Tar
    } else if str_eq(ext, "zip") {
        ArchiveClass::Zip
    } else {
        ArchiveClass::Unsupported
    }
}

} // verus!
