//! Semantic-version precedence, as a specification: numeric comparison of
//! major, minor and patch, then prerelease precedence (a release above any
//! prerelease; numeric identifiers numerically and below alphanumeric ones;
//! alphanumeric identifiers in ASCII order; a shorter identifier list below
//! an extension of it).
//!
//! The library does not re-implement this order at run time; it delegates
//! comparison to the semver crate (see `tags`). These definitions say what
//! that comparison returns, and the lemmas below give the order the shape
//! (reflexive, antisymmetric, transitive) that picking a maximum needs.

use vstd::prelude::*;

use crate::strutil::{digits_val, first_ix, is_digits};
use crate::version::VersionView;

verus! {

/// Result of a comparison.
#[derive(Clone, Copy, PartialEq, Eq, Structural, Debug)]
pub enum VerOrder {
    Lt,
    Eq,
    Gt,
}

/// Numeric order.
pub open spec fn int_cmp(a: int, b: int) -> VerOrder {
    if a < b {
        VerOrder::Lt
    } else if a == b {
        VerOrder::Eq
    } else {
        VerOrder::Gt
    }
}

/// ASCII-lexicographic order on character sequences.
pub open spec fn lex_cmp(a: Seq<char>, b: Seq<char>) -> VerOrder
    decreases a.len(),
{
    if a.len() == 0 && b.len() == 0 {
        VerOrder::Eq
    } else if a.len() == 0 {
        VerOrder::Lt
    } else if b.len() == 0 {
        VerOrder::Gt
    } else if (a[0] as int) < (b[0] as int) {
        VerOrder::Lt
    } else if (a[0] as int) > (b[0] as int) {
        VerOrder::Gt
    } else {
        lex_cmp(a.subrange(1, a.len() as int), b.subrange(1, b.len() as int))
    }
}

/// Order on single prerelease identifiers: numeric ones numerically, below
/// any alphanumeric one; alphanumeric ones lexicographically.
pub open spec fn ident_cmp(a: Seq<char>, b: Seq<char>) -> VerOrder {
    if is_digits(a) && is_digits(b) {
        int_cmp(digits_val(a) as int, digits_val(b) as int)
    } else if is_digits(a) {
        VerOrder::Lt
    } else if is_digits(b) {
        VerOrder::Gt
    } else {
        lex_cmp(a, b)
    }
}

/// Order on identifier lists: identifier by identifier, a shorter list below
/// any extension of it.
pub open spec fn idents_cmp(a: Seq<Seq<char>>, b: Seq<Seq<char>>) -> VerOrder
    decreases a.len(),
{
    if a.len() == 0 && b.len() == 0 {
        VerOrder::Eq
    } else if a.len() == 0 {
        VerOrder::Lt
    } else if b.len() == 0 {
        VerOrder::Gt
    } else {
        match ident_cmp(a[0], b[0]) {
            VerOrder::Eq => idents_cmp(
                a.subrange(1, a.len() as int),
                b.subrange(1, b.len() as int),
            ),
            o => o,
        }
    }
}

/// The dot-separated identifiers of a prerelease.
pub open spec fn split_dots(s: Seq<char>) -> Seq<Seq<char>>
    decreases s.len(),
{
    if first_ix(s, '.') >= s.len() {
        seq![s]
    } else {
        seq![s.subrange(0, first_ix(s, '.') as int)] + split_dots(
            s.subrange(first_ix(s, '.') as int + 1, s.len() as int),
        )
    }
}

/// Order on optional prereleases: a release is above any prerelease.
pub open spec fn pre_cmp(a: Option<Seq<char>>, b: Option<Seq<char>>) -> VerOrder {
    match (a, b) {
        (Option::None, Option::None) => VerOrder::Eq,
        (Option::None, Option::Some(_)) => VerOrder::Gt,
        (Option::Some(_), Option::None) => VerOrder::Lt,
        (Option::Some(x), Option::Some(y)) => idents_cmp(split_dots(x), split_dots(y)),
    }
}

/// Semantic-version precedence.
pub open spec fn prec_cmp(a: VersionView, b: VersionView) -> VerOrder {
    if a.major != b.major {
        int_cmp(a.major, b.major)
    } else if a.minor != b.minor {
        int_cmp(a.minor, b.minor)
    } else if a.patch != b.patch {
        int_cmp(a.patch, b.patch)
    } else {
        pre_cmp(a.pre, b.pre)
    }
}

proof fn lemma_lex_refl(a: Seq<char>)
    ensures
        lex_cmp(a, a) == VerOrder::Eq,
    decreases a.len(),
{
    if a.len() > 0 {
        lemma_lex_refl(a.subrange(1, a.len() as int));
    }
}

proof fn lemma_idents_refl(a: Seq<Seq<char>>)
    ensures
        idents_cmp(a, a) == VerOrder::Eq,
    decreases a.len(),
{
    if a.len() > 0 {
        lemma_lex_refl(a[0]);
        lemma_idents_refl(a.subrange(1, a.len() as int));
    }
}

/// Every version compares equal to itself.
pub proof fn lemma_prec_refl(a: VersionView)
    ensures
        prec_cmp(a, a) == VerOrder::Eq,
{
    if a.pre is Some {
        lemma_idents_refl(split_dots(a.pre.unwrap()));
    }
}

/// The inverse of an order.
pub open spec fn flip(o: VerOrder) -> VerOrder {
    match o {
        VerOrder::Lt => VerOrder::Gt,
        VerOrder::Eq => VerOrder::Eq,
        VerOrder::Gt => VerOrder::Lt,
    }
}

proof fn lemma_lex_flip(a: Seq<char>, b: Seq<char>)
    ensures
        lex_cmp(b, a) == flip(lex_cmp(a, b)),
    decreases a.len(),
{
    if a.len() > 0 && b.len() > 0 && a[0] == b[0] {
        lemma_lex_flip(a.subrange(1, a.len() as int), b.subrange(1, b.len() as int));
    }
}

proof fn lemma_ident_flip(a: Seq<char>, b: Seq<char>)
    ensures
        ident_cmp(b, a) == flip(ident_cmp(a, b)),
{
    lemma_lex_flip(a, b);
}

proof fn lemma_idents_flip(a: Seq<Seq<char>>, b: Seq<Seq<char>>)
    ensures
        idents_cmp(b, a) == flip(idents_cmp(a, b)),
    decreases a.len(),
{
    if a.len() > 0 && b.len() > 0 {
        lemma_ident_flip(a[0], b[0]);
        if ident_cmp(a[0], b[0]) == VerOrder::Eq {
            lemma_idents_flip(a.subrange(1, a.len() as int), b.subrange(1, b.len() as int));
        }
    }
}

/// Exchanging the arguments inverts the comparison.
pub proof fn lemma_prec_flip(a: VersionView, b: VersionView)
    ensures
        prec_cmp(b, a) == flip(prec_cmp(a, b)),
{
    if a.pre is Some && b.pre is Some {
        lemma_idents_flip(split_dots(a.pre.unwrap()), split_dots(b.pre.unwrap()));
    }
}

proof fn lemma_lex_eq(a: Seq<char>, b: Seq<char>)
    requires
        lex_cmp(a, b) == VerOrder::Eq,
    ensures
        a == b,
    decreases a.len(),
{
    if a.len() == 0 || b.len() == 0 {
        assert(a =~= b);
    } else {
        let ta = a.subrange(1, a.len() as int);
        let tb = b.subrange(1, b.len() as int);
        lemma_lex_eq(ta, tb);
        assert forall|i: int| 0 <= i < a.len() implies a[i] == b[i] by {
            if i > 0 {
                assert(a[i] == ta[i - 1]);
                assert(b[i] == tb[i - 1]);
            }
        }
        assert(a =~= b);
    }
}

proof fn lemma_lex_lt_trans(a: Seq<char>, b: Seq<char>, c: Seq<char>)
    requires
        lex_cmp(a, b) == VerOrder::Lt,
        lex_cmp(b, c) == VerOrder::Lt,
    ensures
        lex_cmp(a, c) == VerOrder::Lt,
    decreases a.len(),
{
    if a.len() > 0 && b.len() > 0 && c.len() > 0 {
        if a[0] == b[0] && b[0] == c[0] {
            lemma_lex_lt_trans(
                a.subrange(1, a.len() as int),
                b.subrange(1, b.len() as int),
                c.subrange(1, c.len() as int),
            );
        }
    }
}

/// Identifiers comparing equal behave the same against any third identifier.
proof fn lemma_ident_congr(a: Seq<char>, b: Seq<char>, c: Seq<char>)
    requires
        ident_cmp(a, b) == VerOrder::Eq,
    ensures
        ident_cmp(a, c) == ident_cmp(b, c),
        ident_cmp(c, a) == ident_cmp(c, b),
{
    if is_digits(a) && is_digits(b) {
    } else {
        lemma_lex_eq(a, b);
    }
}

proof fn lemma_ident_lt_trans(a: Seq<char>, b: Seq<char>, c: Seq<char>)
    requires
        ident_cmp(a, b) == VerOrder::Lt,
        ident_cmp(b, c) == VerOrder::Lt,
    ensures
        ident_cmp(a, c) == VerOrder::Lt,
{
    if !is_digits(a) && !is_digits(b) && !is_digits(c) {
        lemma_lex_lt_trans(a, b, c);
    }
}

proof fn lemma_idents_trans_le(a: Seq<Seq<char>>, b: Seq<Seq<char>>, c: Seq<Seq<char>>)
    requires
        idents_cmp(a, b) != VerOrder::Gt,
        idents_cmp(b, c) != VerOrder::Gt,
    ensures
        idents_cmp(a, c) != VerOrder::Gt,
    decreases a.len() + b.len() + c.len(),
{
    if a.len() == 0 {
    } else if b.len() == 0 {
    } else if c.len() == 0 {
    } else {
        let x = ident_cmp(a[0], b[0]);
        let y = ident_cmp(b[0], c[0]);
        if x == VerOrder::Eq && y == VerOrder::Eq {
            lemma_ident_congr(a[0], b[0], c[0]);
            lemma_idents_trans_le(
                a.subrange(1, a.len() as int),
                b.subrange(1, b.len() as int),
                c.subrange(1, c.len() as int),
            );
        } else if x == VerOrder::Eq && y == VerOrder::Lt {
            lemma_ident_congr(a[0], b[0], c[0]);
        } else if x == VerOrder::Lt && y == VerOrder::Eq {
            lemma_ident_congr(b[0], c[0], a[0]);
        } else if x == VerOrder::Lt && y == VerOrder::Lt {
            lemma_ident_lt_trans(a[0], b[0], c[0]);
        }
    }
}

/// The order is transitive in its non-strict form: whatever is not above `b`
/// and whatever `b` is not above line up.
pub proof fn lemma_prec_trans_le(a: VersionView, b: VersionView, c: VersionView)
    requires
        prec_cmp(a, b) != VerOrder::Gt,
        prec_cmp(b, c) != VerOrder::Gt,
    ensures
        prec_cmp(a, c) != VerOrder::Gt,
{
    if a.major == b.major && b.major == c.major && a.minor == b.minor && b.minor == c.minor
        && a.patch == b.patch && b.patch == c.patch {
        if a.pre is Some && b.pre is Some && c.pre is Some {
            lemma_idents_trans_le(
                split_dots(a.pre.unwrap()),
                split_dots(b.pre.unwrap()),
                split_dots(c.pre.unwrap()),
            );
        }
    }
}

} // verus!
