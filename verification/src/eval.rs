//! Whether a version satisfies a comparator or a version requirement.

use vstd::prelude::*;
use crate::identifier::compare_prerelease;
use crate::order::Comparison;
use crate::version::{Comparator, ComparatorModel, Op, Version, VersionModel, VersionReq};

verus! {

/// `=`: every number the comparator gives is equal, and so is the
/// pre-release identifier.
pub open spec fn matches_exact(c: ComparatorModel, v: VersionModel) -> bool {
    &&& v.major == c.major
    &&& (c.minor matches Some(m) ==> v.minor == m)
    &&& (c.patch matches Some(p) ==> v.patch == p)
    &&& v.pre == c.pre
}

/// `>`: the first number that differs is greater; with all given numbers
/// equal, a missing minor or patch number fails, and a full one compares
/// the pre-release identifiers.
pub open spec fn matches_greater(c: ComparatorModel, v: VersionModel) -> bool {
    if v.major != c.major {
        v.major > c.major
    } else {
        match c.minor {
            None => false,
            Some(m) => if v.minor != m {
                v.minor > m
            } else {
                match c.patch {
                    None => false,
                    Some(p) => if v.patch != p {
                        v.patch > p
                    } else {
                        compare_prerelease(v.pre, c.pre) == Comparison::Greater
                    },
                }
            },
        }
    }
}

/// `<`: the mirror image of `>`.
pub open spec fn matches_less(c: ComparatorModel, v: VersionModel) -> bool {
    if v.major != c.major {
        v.major < c.major
    } else {
        match c.minor {
            None => false,
            Some(m) => if v.minor != m {
                v.minor < m
            } else {
                match c.patch {
                    None => false,
                    Some(p) => if v.patch != p {
                        v.patch < p
                    } else {
                        compare_prerelease(v.pre, c.pre) == Comparison::Less
                    },
                }
            },
        }
    }
}

/// `~`: same major and (if given) minor; a given patch may only go up.
pub open spec fn matches_tilde(c: ComparatorModel, v: VersionModel) -> bool {
    &&& v.major == c.major
    &&& (c.minor matches Some(m) ==> v.minor == m)
    &&& match c.patch {
        Some(p) => if v.patch != p {
            v.patch > p
        } else {
            compare_prerelease(v.pre, c.pre) != Comparison::Less
        },
        None => compare_prerelease(v.pre, c.pre) != Comparison::Less,
    }
}

/// `^`: same major; the numbers right of the first non-zero one may go up.
pub open spec fn matches_caret(c: ComparatorModel, v: VersionModel) -> bool {
    if v.major != c.major {
        false
    } else {
        match c.minor {
            None => true,
            Some(m) => match c.patch {
                None => if c.major > 0 {
                    v.minor >= m
                } else {
                    v.minor == m
                },
                Some(p) => if c.major > 0 {
                    if v.minor != m {
                        v.minor > m
                    } else if v.patch != p {
                        v.patch > p
                    } else {
                        compare_prerelease(v.pre, c.pre) != Comparison::Less
                    }
                } else if m > 0 {
                    if v.minor != m {
                        false
                    } else if v.patch != p {
                        v.patch > p
                    } else {
                        compare_prerelease(v.pre, c.pre) != Comparison::Less
                    }
                } else if v.minor != m || v.patch != p {
                    false
                } else {
                    compare_prerelease(v.pre, c.pre) != Comparison::Less
                },
            },
        }
    }
}

/// The comparator's operator holds of the version (pre-release gate aside).
pub open spec fn matches_op(c: ComparatorModel, v: VersionModel) -> bool {
    match c.op {
        Op::Exact | Op::Wildcard => matches_exact(c, v),
        Op::Greater => matches_greater(c, v),
        Op::GreaterEq => matches_exact(c, v) || matches_greater(c, v),
        Op::Less => matches_less(c, v),
        Op::LessEq => matches_exact(c, v) || matches_less(c, v),
        Op::Tilde => matches_tilde(c, v),
        Op::Caret => matches_caret(c, v),
    }
}

/// The comparator names the version's exact `major.minor.patch` and has a
/// pre-release identifier of its own, which opts in to pre-releases there.
pub open spec fn pre_is_compatible(c: ComparatorModel, v: VersionModel) -> bool {
    &&& c.major == v.major
    &&& c.minor == Some(v.minor)
    &&& c.patch == Some(v.patch)
    &&& c.pre.len() > 0
}

/// A comparator matches a version when its operator holds and, for a
/// pre-release version, the comparator opts in to that pre-release.
pub open spec fn comparator_matches(c: ComparatorModel, v: VersionModel) -> bool {
    matches_op(c, v) && (v.pre.len() == 0 || pre_is_compatible(c, v))
}

/// A requirement matches a version when every comparator's operator holds
/// and, for a pre-release version, at least one comparator opts in to it.
pub open spec fn req_matches(cs: Seq<ComparatorModel>, v: VersionModel) -> bool {
    &&& forall|i: int| 0 <= i < cs.len() ==> matches_op(#[trigger] cs[i], v)
    &&& (v.pre.len() == 0 || exists|i: int| 0 <= i < cs.len() && pre_is_compatible(#[trigger] cs[i], v))
}

fn exact(c: &Comparator, v: &Version) -> (r: bool)
    ensures
        r == matches_exact(c@, v@),
{
    if v.major != c.major {
        return false;
    }
    if let Some(minor) = c.minor {
        if v.minor != minor {
            return false;
        }
    }
    if let Some(patch) = c.patch {
        if v.patch != patch {
            return false;
        }
    }
    v.pre == c.pre
}

fn greater(c: &Comparator, v: &Version) -> (r: bool)
    ensures
        r == matches_greater(c@, v@),
{
    if v.major != c.major {
        return v.major > c.major;
    }
    match c.minor {
        None => return false,
        Some(minor) => {
            if v.minor != minor {
                return v.minor > minor;
            }
        },
    }
    match c.patch {
        None => return false,
        Some(patch) => {
            if v.patch != patch {
                return v.patch > patch;
            }
        },
    }
    v.pre.compare(&c.pre) == Comparison::Greater
}

fn less(c: &Comparator, v: &Version) -> (r: bool)
    ensures
        r == matches_less(c@, v@),
{
    if v.major != c.major {
        return v.major < c.major;
    }
    match c.minor {
        None => return false,
        Some(minor) => {
            if v.minor != minor {
                return v.minor < minor;
            }
        },
    }
    match c.patch {
        None => return false,
        Some(patch) => {
            if v.patch != patch {
                return v.patch < patch;
            }
        },
    }
    v.pre.compare(&c.pre) == Comparison::Less
}

fn tilde(c: &Comparator, v: &Version) -> (r: bool)
    ensures
        r == matches_tilde(c@, v@),
{
    if v.major != c.major {
        return false;
    }
    if let Some(minor) = c.minor {
        if v.minor != minor {
            return false;
        }
    }
    if let Some(patch) = c.patch {
        if v.patch != patch {
            return v.patch > patch;
        }
    }
    v.pre.compare(&c.pre) != Comparison::Less
}

fn caret(c: &Comparator, v: &Version) -> (r: bool)
    ensures
        r == matches_caret(c@, v@),
{
    if v.major != c.major {
        return false;
    }
    let minor = match c.minor {
        None => return true,
        Some(minor) => minor,
    };
    let patch = match c.patch {
        None => {
            if c.major > 0 {
                return v.minor >= minor;
            } else {
                return v.minor == minor;
            }
        },
        Some(patch) => patch,
    };
    if c.major > 0 {
        if v.minor != minor {
            return v.minor > minor;
        } else if v.patch != patch {
            return v.patch > patch;
        }
    } else if minor > 0 {
        if v.minor != minor {
            return false;
        } else if v.patch != patch {
            return v.patch > patch;
        }
    } else if v.minor != minor || v.patch != patch {
        return false;
    }
    v.pre.compare(&c.pre) != Comparison::Less
}

fn op_matches(c: &Comparator, v: &Version) -> (r: bool)
    ensures
        r == matches_op(c@, v@),
{
    match c.op {
        Op::Exact | Op::Wildcard => exact(c, v),
        Op::Greater => greater(c, v),
        Op::GreaterEq => exact(c, v) || greater(c, v),
        Op::Less => less(c, v),
        Op::LessEq => exact(c, v) || less(c, v),
        Op::Tilde => tilde(c, v),
        Op::Caret => caret(c, v),
    }
}

fn pre_compatible(c: &Comparator, v: &Version) -> (r: bool)
    ensures
        r == pre_is_compatible(c@, v@),
{
    c.major == v.major && c.minor == Some(v.minor) && c.patch == Some(v.patch) && !c.pre.is_empty()
}

impl Comparator {
    /// Whether `version` satisfies this comparator on its own.
    pub fn matches(&self, version: &Version) -> (r: bool)
        ensures
            r == comparator_matches(self@, version@),
    {
        op_matches(self, version) && (version.pre.is_empty() || pre_compatible(self, version))
    }
}

impl VersionReq {
    /// Whether `version` satisfies the requirement.
    pub fn matches(&self, version: &Version) -> (r: bool)
        ensures
            r == req_matches(self@, version@),
    {
        let n = self.comparators.len();
        let mut i: usize = 0;
        while i < n
            invariant
                n == self.comparators.len(),
                n == self@.len(),
                i <= n,
                forall|k: int| 0 <= k < i ==> matches_op(#[trigger] self@[k], version@),
            decreases n - i,
        {
            if !op_matches(&self.comparators[i], version) {
                assert(!matches_op(self@[i as int], version@));
                return false;
            }
            i = i + 1;
        }
        if version.pre.is_empty() {
            return true;
        }
        let mut j: usize = 0;
        while j < n
            invariant
                n == self.comparators.len(),
                n == self@.len(),
                j <= n,
                forall|k: int| 0 <= k < n ==> matches_op(#[trigger] self@[k], version@),
                forall|k: int| 0 <= k < j ==> !pre_is_compatible(#[trigger] self@[k], version@),
            decreases n - j,
        {
            if pre_compatible(&self.comparators[j], version) {
                assert(pre_is_compatible(self@[j as int], version@));
                return true;
            }
            j = j + 1;
        }
        false
    }
}

} // verus!
