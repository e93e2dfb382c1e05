//! Latest-tag resolution: parse a list of raw tag strings as semantic
//! versions, discard what does not parse, and pick the maximum by
//! precedence, keeping an optional leading-`v` convention from the first
//! entry.

use vstd::prelude::*;

use crate::precedence::{
    lemma_prec_flip, lemma_prec_refl, lemma_prec_trans_le, prec_cmp, VerOrder,
};
use crate::version::{canonical, SemanticVersion, VersionView};

verus! {

/// What `semver::Version::parse` yields on a string: `None` when the string
/// is not a valid semantic version, and otherwise the parsed numeric parts
/// and prerelease. The result depends on the characters alone.
pub uninterp spec fn parse_spec(s: Seq<char>) -> Option<VersionView>;

/// Relies on `semver::Version::parse`: accepts exactly the semver grammar
/// `major.minor.patch[-pre][+build]` and returns its parts. Build metadata,
/// which takes no part in precedence, is dropped from the model; semver's
/// empty prerelease stands for "no prerelease" and becomes `None`.
#[verifier::external_body]
fn parse_version(s: &str) -> (r: Option<SemanticVersion>)
    ensures
        r is Some <==> parse_spec(s@) is Some,
        r matches Some(v) ==> v@ == parse_spec(s@).unwrap(),
{
    match semver::Version::parse(s) {
        Ok(v) => Some(
            SemanticVersion {
                major: v.major,
                minor: v.minor,
                patch: v.patch,
                pre: if v.pre.is_empty() {
                    None
                } else {
                    Some(v.pre.as_str().to_string())
                },
            },
        ),
        Err(_) => None,
    }
}

/// Relies on `semver::Version::parse` and `semver::Version::cmp_precedence`:
/// precedence compares major, minor and patch numerically, then the
/// prerelease identifiers as `prec_cmp` states; build metadata has no effect
/// on it.
#[verifier::external_body]
fn compare_parsed(a: &str, b: &str) -> (r: Option<VerOrder>)
    ensures
        r is Some <==> (parse_spec(a@) is Some && parse_spec(b@) is Some),
        r matches Some(o) ==> o == prec_cmp(parse_spec(a@).unwrap(), parse_spec(b@).unwrap()),
{
    match (semver::Version::parse(a), semver::Version::parse(b)) {
        (Ok(x), Ok(y)) => Some(
            match x.cmp_precedence(&y) {
                core::cmp::Ordering::Less => VerOrder::Lt,
                core::cmp::Ordering::Equal => VerOrder::Eq,
                core::cmp::Ordering::Greater => VerOrder::Gt,
            },
        ),
        _ => None,
    }
}

/// A tag string with one leading `v` removed, when present.
pub open spec fn strip_v(s: Seq<char>) -> Seq<char> {
    if s.len() > 0 && s[0] == 'v' {
        s.subrange(1, s.len() as int)
    } else {
        s
    }
}

/// The version a tag stands for: its text, less an optional leading `v`,
/// parsed as a semantic version.
pub open spec fn tag_version(s: Seq<char>) -> Option<VersionView> {
    parse_spec(strip_v(s))
}

/// An empty tag list, or the single empty string a tag lister hands back
/// when no tags exist.
pub open spec fn no_tags(tags: Seq<String>) -> bool {
    tags.len() == 0 || (tags.len() == 1 && tags[0]@.len() == 0)
}

/// Whether the first entry starts with `v`, the convention the resolver
/// keeps on output.
pub open spec fn v_prefixed(tags: Seq<String>) -> bool {
    tags.len() > 0 && tags[0]@.len() > 0 && tags[0]@[0] == 'v'
}

/// The resolver's output for the winning version `w`.
pub open spec fn rendered(tags: Seq<String>, w: VersionView) -> Seq<char> {
    if v_prefixed(tags) {
        seq!['v'] + canonical(w)
    } else {
        canonical(w)
    }
}

/// Entry `k` parses, and no entry that parses is above it.
pub open spec fn is_latest(tags: Seq<String>, k: int) -> bool {
    &&& 0 <= k < tags.len()
    &&& tag_version(tags[k]@) is Some
    &&& forall|j: int|
        0 <= j < tags.len() && tag_version(tags[j]@) is Some ==> prec_cmp(
            tag_version(tags[j]@).unwrap(),
            tag_version(tags[k]@).unwrap(),
        ) != VerOrder::Gt
}

/// Resolution failure.
#[derive(Clone, Copy, PartialEq, Eq, Structural, Debug)]
pub enum TagError {
    /// The list was not empty, yet no entry parsed as a semantic version.
    NoParsableTag,
}

/// One leading `v` removed, when present.
fn strip_v_str(s: &str) -> (r: &str)
    ensures
        r@ == strip_v(s@),
{
    let n: usize = s.unicode_len();
    if n > 0 && s.get_char(0) == 'v' {
        s.substring_char(1, n)
    } else {
        s
    }
}

/// The latest tag: `0.0.0` when no tags exist, otherwise the maximum of the
/// entries that parse as semantic versions (an optional leading `v` is
/// stripped before parsing and restored on output when the first entry
/// carries one). When nothing parses, resolution fails rather than guess.
pub fn latest_tag(tags: &Vec<String>) -> (r: Result<String, TagError>)
    ensures
        no_tags(tags@) ==> (r matches Ok(s) && s@ == "0.0.0"@),
        !no_tags(tags@) ==> match r {
            Ok(s) => exists|k: int|
                is_latest(tags@, k) && s@ == rendered(tags@, tag_version(tags@[k]@).unwrap()),
            Err(e) => {
                &&& e == TagError::NoParsableTag
                &&& forall|j: int| 0 <= j < tags@.len() ==> tag_version(tags@[j]@) is None
            },
        },
{
    let n: usize = tags.len();
    if n == 0 {
        return Ok(String::from_str("0.0.0"));
    }
    if n == 1 && tags[0].as_str().unicode_len() == 0 {
        return Ok(String::from_str("0.0.0"));
    }
    let mut best: Option<SemanticVersion> = None;
    let mut best_i: usize = 0;
    let mut i: usize = 0;
    while i < n
        invariant
            0 <= i <= n,
            n == tags@.len(),
            best matches Some(bv) ==> {
                &&& 0 <= best_i < i
                &&& tag_version(tags@[best_i as int]@) == Some(bv@)
                &&& forall|j: int|
                    0 <= j < i && tag_version(tags@[j]@) is Some ==> prec_cmp(
                        tag_version(tags@[j]@).unwrap(),
                        bv@,
                    ) != VerOrder::Gt
            },
            best is None ==> forall|j: int| 0 <= j < i ==> tag_version(tags@[j]@) is None,
        decreases n - i,
    {
        let st: &str = strip_v_str(tags[i].as_str());
        let parsed = parse_version(st);
        match parsed {
            None => {},
            Some(pv) => {
                let take_it: bool = match &best {
                    None => true,
                    Some(_) => {
                        let bst: &str = strip_v_str(tags[best_i].as_str());
                        let c = compare_parsed(st, bst);
                        proof {
                            assert(c is Some);
                        }
                        match c {
                            Some(VerOrder::Gt) => true,
                            _ => false,
                        }
                    },
                };
                if take_it {
                    proof {
                        lemma_prec_refl(pv@);
                        if best is Some {
                            let bv = best.unwrap();
                            lemma_prec_flip(pv@, bv@);
                            assert forall|j: int|
                                0 <= j < i + 1 && tag_version(tags@[j]@) is Some implies prec_cmp(
                                tag_version(tags@[j]@).unwrap(),
                                pv@,
                            ) != VerOrder::Gt by {
                                if j < i {
                                    lemma_prec_trans_le(tag_version(tags@[j]@).unwrap(), bv@, pv@);
                                }
                            }
                        }
                    }
                    best = Some(pv);
                    best_i = i;
                }
            },
        }
        i = i + 1;
    }
    match best {
        None => Err(TagError::NoParsableTag),
        Some(b) => {
            let core = b.to_string();
            let first = tags[0].as_str();
            if first.unicode_len() > 0 && first.get_char(0) == 'v' {
                let mut s = String::from_str("v");
                s.append(core.as_str());
                proof {
                    reveal_strlit("v");
                    assert(s@ =~= seq!['v'] + canonical(b@));
                    assert(is_latest(tags@, best_i as int));
                }
                Ok(s)
            } else {
                proof {
                    assert(is_latest(tags@, best_i as int));
                }
                Ok(core)
            }
        },
    }
}

} // verus!
