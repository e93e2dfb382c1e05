//! The semantic-version model and the transition engine: pure functions
//! computing the next major, minor, patch, phase and prerelease version.

use vstd::prelude::*;

use crate::strutil::{
    dec_digits, digits_val, find_char, first_ix, has_char, is_digits, parse_u64_digits, str_eq,
    u64_to_string,
};

verus! {

/// A semantic version `major.minor.patch[-pre]`.
///
/// `pre` holds the prerelease identifiers joined by dots (for example
/// `alpha.0`), without the leading `-`; `None` means a full release.
#[derive(Clone, Debug)]
pub struct SemanticVersion {
    pub major: u64,
    pub minor: u64,
    pub patch: u64,
    pub pre: Option<String>,
}

/// The mathematical value of a `SemanticVersion`.
pub struct VersionView {
    pub major: int,
    pub minor: int,
    pub patch: int,
    pub pre: Option<Seq<char>>,
}

impl View for SemanticVersion {
    type V = VersionView;

    open spec fn view(&self) -> VersionView {
        VersionView {
            major: self.major as int,
            minor: self.minor as int,
            patch: self.patch as int,
            pre: match self.pre {
                Some(p) => Some(p@),
                None => None,
            },
        }
    }
}

/// The prerelease phase: the identifiers before the first dot, or the whole
/// prerelease when it has no dot.
pub open spec fn phase_of(p: Seq<char>) -> Seq<char> {
    p.subrange(0, first_ix(p, '.') as int)
}

/// The prerelease counter: the value of everything after the first dot, when
/// that part is all digits (so in particular holds no further dot) and fits
/// in a `u64`; `0` in every other case.
pub open spec fn counter_of(p: Seq<char>) -> nat {
    if has_char(p, '.') {
        let rest = p.subrange(first_ix(p, '.') as int + 1, p.len() as int);
        if is_digits(rest) && digits_val(rest) <= u64::MAX {
            digits_val(rest)
        } else {
            0
        }
    } else {
        0
    }
}

/// `major + 1`, with minor and patch reset and the prerelease cleared.
pub open spec fn spec_next_major(v: VersionView) -> VersionView {
    VersionView { major: v.major + 1, minor: 0, patch: 0, pre: None }
}

/// `minor + 1`, with patch reset and the prerelease cleared.
pub open spec fn spec_next_minor(v: VersionView) -> VersionView {
    VersionView { major: v.major, minor: v.minor + 1, patch: 0, pre: None }
}

/// `patch + 1`, with the prerelease cleared.
pub open spec fn spec_next_patch(v: VersionView) -> VersionView {
    VersionView { major: v.major, minor: v.minor, patch: v.patch + 1, pre: None }
}

/// The next release-readiness phase: a release starts a new `alpha.0` cycle
/// on the next patch; `alpha` moves to `beta.0`; `beta` moves to `rc.0`; `rc`
/// and any other phase become the full release.
pub open spec fn spec_next_phase(v: VersionView) -> VersionView {
    match v.pre {
        None => VersionView {
            major: v.major,
            minor: v.minor,
            patch: v.patch + 1,
            pre: Some("alpha.0"@),
        },
        Some(p) => {
            if phase_of(p) == "alpha"@ {
                VersionView { major: v.major, minor: v.minor, patch: v.patch, pre: Some("beta.0"@) }
            } else if phase_of(p) == "beta"@ {
                VersionView { major: v.major, minor: v.minor, patch: v.patch, pre: Some("rc.0"@) }
            } else {
                VersionView { major: v.major, minor: v.minor, patch: v.patch, pre: None }
            }
        },
    }
}

/// The next prerelease: keep the phase and advance the counter; with no
/// prerelease present, behave as `spec_next_phase`.
pub open spec fn spec_next_pre(v: VersionView) -> VersionView {
    match v.pre {
        None => spec_next_phase(v),
        Some(p) => VersionView {
            major: v.major,
            minor: v.minor,
            patch: v.patch,
            pre: Some(phase_of(p) + seq!['.'] + dec_digits(counter_of(p) + 1)),
        },
    }
}

impl SemanticVersion {
    /// The next major version.
    pub fn next_major(self) -> (r: SemanticVersion)
        requires
            self.major < u64::MAX,
        ensures
            r@ == spec_next_major(self@),
    {
        SemanticVersion { major: self.major + 1, minor: 0, patch: 0, pre: None }
    }

    /// The next minor version.
    pub fn next_minor(self) -> (r: SemanticVersion)
        requires
            self.minor < u64::MAX,
        ensures
            r@ == spec_next_minor(self@),
    {
        SemanticVersion { major: self.major, minor: self.minor + 1, patch: 0, pre: None }
    }

    /// The next patch version.
    pub fn next_patch(self) -> (r: SemanticVersion)
        requires
            self.patch < u64::MAX,
        ensures
            r@ == spec_next_patch(self@),
    {
        SemanticVersion { major: self.major, minor: self.minor, patch: self.patch + 1, pre: None }
    }

    /// The next release-readiness phase.
    pub fn next_phase(self) -> (r: SemanticVersion)
        requires
            self@.pre is None ==> self.patch < u64::MAX,
        ensures
            r@ == spec_next_phase(self@),
    {
        match self.pre {
            None => SemanticVersion {
                major: self.major,
                minor: self.minor,
                patch: self.patch + 1,
                pre: Some(String::from_str("alpha.0")),
            },
            Some(p) => {
                let d: usize = find_char(p.as_str(), '.');
                let phase: &str = p.as_str().substring_char(0, d);
                let next: Option<String> = if str_eq(phase, "alpha") {
                    Some(String::from_str("beta.0"))
                } else if str_eq(phase, "beta") {
                    Some(String::from_str("rc.0"))
                } else {
                    None
                };
                SemanticVersion {
                    major: self.major,
                    minor: self.minor,
                    patch: self.patch,
                    pre: next,
                }
            },
        }
    }

    /// The next prerelease: the counter advances within the current phase; a
    /// full release starts a new cycle exactly as `next_phase` does.
    pub fn next_pre(self) -> (r: SemanticVersion)
        requires
            self@.pre is None ==> self.patch < u64::MAX,
            self@.pre matches Some(p) ==> counter_of(p) < u64::MAX,
        ensures
            r@ == spec_next_pre(self@),
    {
        match self.pre {
            None => SemanticVersion {
                major: self.major,
                minor: self.minor,
                patch: self.patch + 1,
                pre: Some(String::from_str("alpha.0")),
            },
            Some(p) => {
                let ps: &str = p.as_str();
                let n: usize = ps.unicode_len();
                let d: usize = find_char(ps, '.');
                let mut counter: u64 = 0;
                if d < n {
                    let rest: &str = ps.substring_char(d + 1, n);
                    counter = parse_u64_digits(rest);
                }
                proof {
                    assert(counter as nat == counter_of(p@));
                }
                let phase: &str = ps.substring_char(0, d);
                let mut out = String::from_str(phase);
                out.append(".");
                let cstr = u64_to_string(counter + 1);
                out.append(cstr.as_str());
                proof {
                    reveal_strlit(".");
                    assert(out@ =~= phase_of(p@) + seq!['.'] + dec_digits(
                        counter_of(p@) + 1,
                    ));
                }
                SemanticVersion {
                    major: self.major,
                    minor: self.minor,
                    patch: self.patch,
                    pre: Some(out),
                }
            },
        }
    }

    /// The prerelease counter: what `next_pre` would advance, `0` for a
    /// release.
    pub fn pre_counter(&self) -> (c: u64)
        ensures
            c as nat == (match self@.pre {
                Some(p) => counter_of(p),
                None => 0nat,
            }),
    {
        match &self.pre {
            None => 0,
            Some(p) => {
                let ps: &str = p.as_str();
                let n: usize = ps.unicode_len();
                let d: usize = find_char(ps, '.');
                if d < n {
                    let rest: &str = ps.substring_char(d + 1, n);
                    parse_u64_digits(rest)
                } else {
                    0
                }
            },
        }
    }

    /// The canonical `major.minor.patch[-pre]` form.
    pub fn to_string(&self) -> (r: String)
        ensures
            r@ == canonical(self@),
    {
        let mut s = u64_to_string(self.major);
        s.append(".");
        let minor_s = u64_to_string(self.minor);
        s.append(minor_s.as_str());
        s.append(".");
        let patch_s = u64_to_string(self.patch);
        s.append(patch_s.as_str());
        match &self.pre {
            Some(p) => {
                s.append("-");
                s.append(p.as_str());
            },
            None => {},
        }
        proof {
            reveal_strlit(".");
            reveal_strlit("-");
            assert(s@ =~= canonical(self@));
        }
        s
    }
}

/// The canonical string form of a version: `major.minor.patch`, and the
/// prerelease after a `-` when present.
pub open spec fn canonical(v: VersionView) -> Seq<char> {
    dec_digits(v.major as nat) + seq!['.'] + dec_digits(v.minor as nat) + seq!['.'] + dec_digits(
        v.patch as nat,
    ) + (match v.pre {
        None => Seq::<char>::empty(),
        Some(p) => seq!['-'] + p,
    })
}

/// Law: starting from a full release, four phase transitions walk
/// `alpha`, `beta`, `rc` and arrive back at a full release, with the patch
/// bumped exactly once, on the first step.
pub proof fn lemma_next_phase_cycle(v: VersionView)
    requires
        v.pre is None,
    ensures
        spec_next_phase(v).pre == Some("alpha.0"@),
        spec_next_phase(spec_next_phase(v)).pre == Some("beta.0"@),
        spec_next_phase(spec_next_phase(spec_next_phase(v))).pre == Some("rc.0"@),
        spec_next_phase(spec_next_phase(spec_next_phase(spec_next_phase(v))))
            == (VersionView { major: v.major, minor: v.minor, patch: v.patch + 1, pre: None }),
{
    reveal_strlit("alpha.0");
    reveal_strlit("beta.0");
    reveal_strlit("rc.0");
    reveal_strlit("alpha");
    reveal_strlit("beta");
    reveal_strlit("rc");
    lemma_phase_of_literal("alpha.0"@, "alpha"@);
    lemma_phase_of_literal("beta.0"@, "beta"@);
    lemma_phase_of_literal("rc.0"@, "rc"@);
    assert("alpha"@.len() == 5 && "beta"@.len() == 4 && "rc"@.len() == 2);
    assert("beta"@ != "alpha"@);
    assert("rc"@ != "alpha"@);
    assert("rc"@ != "beta"@);
}

/// Law: within a prerelease, a prerelease step keeps the numeric parts and
/// the phase, and advances the counter by exactly one.
pub proof fn lemma_next_pre_in_phase(v: VersionView)
    requires
        v.pre is Some,
        counter_of(v.pre.unwrap()) < u64::MAX,
    ensures
        spec_next_pre(v).major == v.major,
        spec_next_pre(v).minor == v.minor,
        spec_next_pre(v).patch == v.patch,
        spec_next_pre(v).pre is Some,
        phase_of(spec_next_pre(v).pre.unwrap()) == phase_of(v.pre.unwrap()),
        counter_of(spec_next_pre(v).pre.unwrap()) == counter_of(v.pre.unwrap()) + 1,
{
    let p = v.pre.unwrap();
    let ph = phase_of(p);
    let c = counter_of(p);
    let digits = dec_digits(c + 1);
    let q = ph + seq!['.'] + digits;
    crate::strutil::lemma_first_ix(p, '.');
    crate::strutil::lemma_dec_digits_are_digits(c + 1);
    crate::strutil::lemma_dec_digits_val(c + 1);
    assert forall|j: int| 0 <= j < ph.len() implies q[j] != '.' by {
        assert(q[j] == p[j]);
    }
    assert(q[ph.len() as int] == '.');
    crate::strutil::lemma_first_ix_unique(q, '.', ph.len() as nat);
    assert(q.subrange(0, ph.len() as int) =~= ph);
    let rest = q.subrange(ph.len() as int + 1, q.len() as int);
    assert(rest =~= digits);
}

/// For a prerelease of the shape `label.0` (with no dot inside the label),
/// the phase is the label.
proof fn lemma_phase_of_literal(p: Seq<char>, label: Seq<char>)
    requires
        p.len() == label.len() + 2,
        forall|j: int| 0 <= j < label.len() ==> p[j] == label[j] && label[j] != '.',
        p[label.len() as int] == '.',
    ensures
        phase_of(p) == label,
{
    crate::strutil::lemma_first_ix_unique(p, '.', label.len() as nat);
    assert(p.subrange(0, label.len() as int) =~= label);
}

} // verus!
