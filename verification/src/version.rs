//! Versions, comparators and version requirements, with their abstract models,
//! equality and orders.

use vstd::prelude::*;
use std::cmp::Ordering;
use crate::identifier::{BuildMetadata, Prerelease, compare_build, compare_prerelease};
use crate::order::{Comparison, compare_int, compare_u64, ordering_of, to_ordering};

verus! {

/// A semantic version: `major.minor.patch`, an optional pre-release
/// identifier and optional build metadata.
#[derive(Clone, Debug, Hash)]
pub struct Version {
    pub major: u64,
    pub minor: u64,
    pub patch: u64,
    pub pre: Prerelease,
    pub build: BuildMetadata,
}

/// The abstract value of a `Version`.
pub struct VersionModel {
    pub major: u64,
    pub minor: u64,
    pub patch: u64,
    pub pre: Seq<char>,
    pub build: Seq<char>,
}

/// The operator of a comparator.
#[derive(Copy, Clone, Debug, PartialEq, Eq, Structural, Hash)]
pub enum Op {
    Exact,
    Greater,
    GreaterEq,
    Less,
    LessEq,
    Tilde,
    Caret,
    Wildcard,
}

/// One comparator of a version requirement, such as `>=1.2.3-alpha` or
/// `1.*`. Missing minor and patch numbers are `None`.
#[derive(Clone, Debug, Hash)]
pub struct Comparator {
    pub op: Op,
    pub major: u64,
    pub minor: Option<u64>,
    pub patch: Option<u64>,
    pub pre: Prerelease,
}

/// The abstract value of a `Comparator`.
pub struct ComparatorModel {
    pub op: Op,
    pub major: u64,
    pub minor: Option<u64>,
    pub patch: Option<u64>,
    pub pre: Seq<char>,
}

/// A version requirement: the conjunction of its comparators, in order. No
/// comparators means "any version" (`*`).
#[derive(Clone, Debug, Hash)]
pub struct VersionReq {
    pub comparators: Vec<Comparator>,
}

impl View for Version {
    type V = VersionModel;

    open spec fn view(&self) -> VersionModel {
        VersionModel {
            major: self.major,
            minor: self.minor,
            patch: self.patch,
            pre: self.pre@,
            build: self.build@,
        }
    }
}

impl View for Comparator {
    type V = ComparatorModel;

    open spec fn view(&self) -> ComparatorModel {
        ComparatorModel {
            op: self.op,
            major: self.major,
            minor: self.minor,
            patch: self.patch,
            pre: self.pre@,
        }
    }
}

impl View for VersionReq {
    type V = Seq<ComparatorModel>;

    open spec fn view(&self) -> Seq<ComparatorModel> {
        self.comparators@.map_values(|c: Comparator| c@)
    }
}

/// SemVer precedence: major, minor and patch numerically, then the
/// pre-release identifier. Build metadata plays no part.
pub open spec fn compare_precedence(a: VersionModel, b: VersionModel) -> Comparison {
    if a.major != b.major {
        compare_int(a.major as int, b.major as int)
    } else if a.minor != b.minor {
        compare_int(a.minor as int, b.minor as int)
    } else if a.patch != b.patch {
        compare_int(a.patch as int, b.patch as int)
    } else {
        compare_prerelease(a.pre, b.pre)
    }
}

/// The total order of versions: precedence, then build metadata.
pub open spec fn compare_version(a: VersionModel, b: VersionModel) -> Comparison {
    if compare_precedence(a, b) != Comparison::Equal {
        compare_precedence(a, b)
    } else {
        compare_build(a.build, b.build)
    }
}

impl Version {
    /// The release version `major.minor.patch`.
    pub fn new(major: u64, minor: u64, patch: u64) -> (v: Version)
        ensures
            v@ == (VersionModel {
                major,
                minor,
                patch,
                pre: Seq::<char>::empty(),
                build: Seq::<char>::empty(),
            }),
    {
        Version { major, minor, patch, pre: Prerelease::empty(), build: BuildMetadata::empty() }
    }

    pub fn compare_precedence(&self, other: &Version) -> (r: Comparison)
        ensures
            r == compare_precedence(self@, other@),
    {
        if self.major != other.major {
            compare_u64(self.major, other.major)
        } else if self.minor != other.minor {
            compare_u64(self.minor, other.minor)
        } else if self.patch != other.patch {
            compare_u64(self.patch, other.patch)
        } else {
            self.pre.compare(&other.pre)
        }
    }

    pub fn compare(&self, other: &Version) -> (r: Comparison)
        ensures
            r == compare_version(self@, other@),
    {
        let c = self.compare_precedence(other);
        if c != Comparison::Equal {
            c
        } else {
            self.build.compare(&other.build)
        }
    }

    /// SemVer precedence, which ignores build metadata.
    pub fn cmp_precedence(&self, other: &Version) -> (r: Ordering)
        ensures
            r == ordering_of(compare_precedence(self@, other@)),
    {
        to_ordering(self.compare_precedence(other))
    }

    /// The total order of versions, which breaks precedence ties by build
    /// metadata.
    pub fn cmp(&self, other: &Version) -> (r: Ordering)
        ensures
            r == ordering_of(compare_version(self@, other@)),
    {
        to_ordering(self.compare(other))
    }
}

impl VersionReq {
    /// The requirement `*`, which has no comparators.
    pub fn star() -> (r: VersionReq)
        ensures
            r@ == Seq::<ComparatorModel>::empty(),
    {
        let r = VersionReq { comparators: Vec::new() };
        assert(r@ =~= Seq::<ComparatorModel>::empty());
        r
    }
}

impl Default for VersionReq {
    /// The requirement `*`.
    fn default() -> (r: VersionReq)
        ensures
            r@ == Seq::<ComparatorModel>::empty(),
    {
        VersionReq::star()
    }
}

impl PartialEq for Version {
    fn eq(&self, other: &Self) -> (r: bool) {
        self.major == other.major && self.minor == other.minor && self.patch == other.patch
            && self.pre == other.pre && self.build == other.build
    }
}

impl Eq for Version {}

impl vstd::std_specs::cmp::PartialEqSpecImpl for Version {
    open spec fn obeys_eq_spec() -> bool {
        true
    }

    open spec fn eq_spec(&self, other: &Version) -> bool {
        self@ == other@
    }
}

impl PartialOrd for Version {
    fn partial_cmp(&self, other: &Self) -> (r: Option<Ordering>) {
        Some(self.cmp(other))
    }
}

impl vstd::std_specs::cmp::PartialOrdSpecImpl for Version {
    open spec fn obeys_partial_cmp_spec() -> bool {
        true
    }

    open spec fn partial_cmp_spec(&self, other: &Version) -> Option<Ordering> {
        Some(ordering_of(compare_version(self@, other@)))
    }
}

impl PartialEq for Comparator {
    fn eq(&self, other: &Self) -> (r: bool) {
        self.op == other.op && self.major == other.major && self.minor == other.minor
            && self.patch == other.patch && self.pre == other.pre
    }
}

impl Eq for Comparator {}

impl vstd::std_specs::cmp::PartialEqSpecImpl for Comparator {
    open spec fn obeys_eq_spec() -> bool {
        true
    }

    open spec fn eq_spec(&self, other: &Comparator) -> bool {
        self@ == other@
    }
}

impl PartialEq for VersionReq {
    fn eq(&self, other: &Self) -> (r: bool) {
        let n = self.comparators.len();
        if n != other.comparators.len() {
            assert(self@.len() != other@.len());
            return false;
        }
        let mut i: usize = 0;
        while i < n
            invariant
                n == self.comparators.len(),
                n == other.comparators.len(),
                i <= n,
                forall|k: int| 0 <= k < i ==> self@[k] == other@[k],
            decreases n - i,
        {
            if self.comparators[i] != other.comparators[i] {
                assert(self@[i as int] != other@[i as int]);
                return false;
            }
            i = i + 1;
        }
        assert(self@ =~= other@);
        true
    }
}

impl Eq for VersionReq {}

impl vstd::std_specs::cmp::PartialEqSpecImpl for VersionReq {
    open spec fn obeys_eq_spec() -> bool {
        true
    }

    open spec fn eq_spec(&self, other: &VersionReq) -> bool {
        self@ == other@
    }
}

} // verus!
