//! Properties of matching versions against comparators and requirements.

use vstd::prelude::*;
use crate::eval::{comparator_matches, matches_op, pre_is_compatible, req_matches};
use crate::identifier::compare_prerelease;
use crate::order::Comparison;
use crate::order_laws::{law_prerelease_total_order, law_release_above_prerelease};
use crate::version::{ComparatorModel, Op, VersionModel};

verus! {

/// `v` with its build metadata replaced by `build`.
pub open spec fn with_build(v: VersionModel, build: Seq<char>) -> VersionModel {
    VersionModel { build, ..v }
}

/// Matching never looks at the candidate version's build metadata, for a
/// single comparator and for a requirement alike.
pub proof fn law_matches_ignore_build(cs: Seq<ComparatorModel>, c: ComparatorModel, v: VersionModel, build: Seq<char>)
    ensures
        req_matches(cs, with_build(v, build)) == req_matches(cs, v),
        comparator_matches(c, with_build(v, build)) == comparator_matches(c, v),
{
    let w = with_build(v, build);
    assert forall|i: int| 0 <= i < cs.len() implies matches_op(#[trigger] cs[i], w) == matches_op(cs[i], v) by {}
    assert forall|i: int| 0 <= i < cs.len() implies pre_is_compatible(#[trigger] cs[i], w) == pre_is_compatible(cs[i], v) by {}
}

/// The requirement `*` (no comparators) matches exactly the versions
/// without a pre-release identifier.
pub proof fn law_star_matches(v: VersionModel)
    ensures
        req_matches(Seq::<ComparatorModel>::empty(), v) <==> v.pre.len() == 0,
{
}

/// A requirement of one comparator matches exactly what the comparator
/// matches on its own.
pub proof fn law_single_comparator(c: ComparatorModel, v: VersionModel)
    ensures
        req_matches(seq![c], v) == comparator_matches(c, v),
{
    let cs = seq![c];
    if comparator_matches(c, v) {
        assert(cs[0] == c);
    }
    if req_matches(cs, v) {
        assert(matches_op(cs[0], v));
        if v.pre.len() > 0 {
            let i = choose|i: int| 0 <= i < cs.len() && pre_is_compatible(#[trigger] cs[i], v);
            assert(i == 0);
        }
    }
}

/// A version without a pre-release identifier matches a requirement exactly
/// when it matches every comparator of it.
pub proof fn law_release_matches_each(cs: Seq<ComparatorModel>, v: VersionModel)
    requires
        v.pre.len() == 0,
    ensures
        req_matches(cs, v) <==> forall|i: int| 0 <= i < cs.len() ==> comparator_matches(#[trigger] cs[i], v),
{
    if req_matches(cs, v) {
        assert forall|i: int| 0 <= i < cs.len() implies comparator_matches(#[trigger] cs[i], v) by {
            assert(matches_op(cs[i], v));
        }
    }
    if forall|i: int| 0 <= i < cs.len() ==> comparator_matches(#[trigger] cs[i], v) {
        assert forall|i: int| 0 <= i < cs.len() implies matches_op(#[trigger] cs[i], v) by {
            assert(comparator_matches(cs[i], v));
        }
    }
}

/// A version with a pre-release identifier matches a requirement only if
/// some comparator names the version's exact `major.minor.patch` and carries
/// a pre-release identifier itself.
pub proof fn law_prerelease_gate(cs: Seq<ComparatorModel>, v: VersionModel)
    requires
        v.pre.len() > 0,
        req_matches(cs, v),
    ensures
        exists|i: int|
            0 <= i < cs.len() && (#[trigger] cs[i]).major == v.major && cs[i].minor == Some(v.minor)
                && cs[i].patch == Some(v.patch) && cs[i].pre.len() > 0,
{
    let i = choose|i: int| 0 <= i < cs.len() && pre_is_compatible(#[trigger] cs[i], v);
    assert(cs[i].major == v.major);
}

/// Matching depends on which comparators a requirement holds, not on their
/// order or repetition.
pub proof fn law_matches_ignore_order(cs1: Seq<ComparatorModel>, cs2: Seq<ComparatorModel>, v: VersionModel)
    requires
        forall|c: ComparatorModel| cs1.contains(c) <==> cs2.contains(c),
    ensures
        req_matches(cs1, v) == req_matches(cs2, v),
{
    if req_matches(cs1, v) {
        lemma_matches_subset(cs1, cs2, v);
    }
    if req_matches(cs2, v) {
        lemma_matches_subset(cs2, cs1, v);
    }
}

proof fn lemma_matches_subset(cs1: Seq<ComparatorModel>, cs2: Seq<ComparatorModel>, v: VersionModel)
    requires
        forall|c: ComparatorModel| cs1.contains(c) <==> cs2.contains(c),
        req_matches(cs1, v),
    ensures
        req_matches(cs2, v),
{
    assert forall|i: int| 0 <= i < cs2.len() implies matches_op(#[trigger] cs2[i], v) by {
        assert(cs2.contains(cs2[i]));
        assert(cs1.contains(cs2[i]));
        let j = choose|j: int| 0 <= j < cs1.len() && cs1[j] == cs2[i];
        assert(matches_op(cs1[j], v));
    }
    if v.pre.len() > 0 {
        let j = choose|j: int| 0 <= j < cs1.len() && pre_is_compatible(#[trigger] cs1[j], v);
        assert(cs1.contains(cs1[j]));
        assert(cs2.contains(cs1[j]));
        let i = choose|i: int| 0 <= i < cs2.len() && cs2[i] == cs1[j];
        assert(pre_is_compatible(cs2[i], v));
    }
}

/// The comparator `op M` with only a major number and no pre-release.
pub open spec fn major_only(op: Op, major: u64) -> ComparatorModel {
    ComparatorModel { op, major, minor: None, patch: None, pre: Seq::<char>::empty() }
}

/// `^M`, `M.*`, `=M` and `~M` are different comparators that match the same
/// versions: the releases with major number `M`.
pub proof fn law_major_only_spellings(major: u64, v: VersionModel)
    ensures
        comparator_matches(major_only(Op::Caret, major), v) <==> (v.major == major && v.pre.len() == 0),
        comparator_matches(major_only(Op::Wildcard, major), v) <==> (v.major == major && v.pre.len()
            == 0),
        comparator_matches(major_only(Op::Exact, major), v) <==> (v.major == major && v.pre.len() == 0),
        comparator_matches(major_only(Op::Tilde, major), v) <==> (v.major == major && v.pre.len() == 0),
{
    if v.pre.len() == 0 {
        assert(v.pre =~= Seq::<char>::empty());
    } else {
        assert(v.pre != Seq::<char>::empty());
    }
}

/// `>=0.0.0` matches exactly what `*` matches: every release.
pub proof fn law_star_is_at_least_zero(v: VersionModel)
    ensures
        req_matches(
            seq![ComparatorModel { op: Op::GreaterEq, major: 0, minor: Some(0), patch: Some(0), pre: Seq::<char>::empty() }],
            v,
        ) == req_matches(Seq::<ComparatorModel>::empty(), v),
{
    let c = ComparatorModel { op: Op::GreaterEq, major: 0, minor: Some(0), patch: Some(0), pre: Seq::<char>::empty() };
    law_single_comparator(c, v);
    if v.pre.len() == 0 {
        assert(v.pre =~= Seq::<char>::empty());
    }
}

/// The comparator `op major.minor.patch-pre` with every number given.
pub open spec fn full_comparator(op: Op, major: u64, minor: u64, patch: u64, pre: Seq<char>) -> ComparatorModel {
    ComparatorModel { op, major, minor: Some(minor), patch: Some(patch), pre }
}

/// The requirement `>=major.minor.patch-pre, <upper_major.upper_minor.0`.
pub open spec fn half_open(
    major: u64,
    minor: u64,
    patch: u64,
    pre: Seq<char>,
    upper_major: u64,
    upper_minor: u64,
) -> Seq<ComparatorModel> {
    seq![
        full_comparator(Op::GreaterEq, major, minor, patch, pre),
        full_comparator(Op::Less, upper_major, upper_minor, 0, Seq::<char>::empty()),
    ]
}

/// A requirement of two comparators matches when both operators hold and, for
/// a pre-release version, one of them opts in to it.
proof fn lemma_two_comparators(a: ComparatorModel, b: ComparatorModel, v: VersionModel)
    ensures
        req_matches(seq![a, b], v) == (matches_op(a, v) && matches_op(b, v) && (v.pre.len() == 0
            || pre_is_compatible(a, v) || pre_is_compatible(b, v))),
{
    let cs = seq![a, b];
    assert(cs[0] == a && cs[1] == b);
    if matches_op(a, v) && matches_op(b, v) {
        assert forall|i: int| 0 <= i < cs.len() implies matches_op(#[trigger] cs[i], v) by {}
    }
    if req_matches(cs, v) && v.pre.len() > 0 {
        let i = choose|i: int| 0 <= i < cs.len() && pre_is_compatible(#[trigger] cs[i], v);
        assert(i == 0 || i == 1);
    }
}

/// The facts about pre-release precedence that the range laws rest on.
proof fn lemma_pre_facts(p: Seq<char>, pre: Seq<char>)
    ensures
        (compare_prerelease(p, pre) == Comparison::Equal) == (p == pre),
        compare_prerelease(p, pre) != Comparison::Less <==> (compare_prerelease(p, pre)
            == Comparison::Greater || p == pre),
        (compare_prerelease(p, Seq::<char>::empty()) == Comparison::Less) == (p.len() > 0),
{
    law_prerelease_total_order(p, pre, pre);
    let e = Seq::<char>::empty();
    law_prerelease_total_order(p, e, e);
    if p.len() > 0 {
        law_release_above_prerelease(p);
        law_prerelease_total_order(e, p, p);
    } else {
        assert(p =~= e);
    }
}

/// `^M.m.p` with `M > 0` matches exactly what `>=M.m.p, <(M+1).0.0`
/// matches, pre-release identifier of the lower bound included.
pub proof fn law_caret_range(major: u64, minor: u64, patch: u64, pre: Seq<char>, v: VersionModel)
    requires
        0 < major < u64::MAX,
    ensures
        req_matches(seq![full_comparator(Op::Caret, major, minor, patch, pre)], v) == req_matches(
            half_open(major, minor, patch, pre, (major + 1) as u64, 0),
            v,
        ),
{
    let c = full_comparator(Op::Caret, major, minor, patch, pre);
    let r = half_open(major, minor, patch, pre, (major + 1) as u64, 0);
    law_single_comparator(c, v);
    lemma_two_comparators(r[0], r[1], v);
    assert(r =~= seq![r[0], r[1]]);
    lemma_pre_facts(v.pre, pre);
}

/// `^0.m.p` with `m > 0` matches exactly what `>=0.m.p, <0.(m+1).0`
/// matches.
pub proof fn law_caret_zero_range(minor: u64, patch: u64, pre: Seq<char>, v: VersionModel)
    requires
        0 < minor < u64::MAX,
    ensures
        req_matches(seq![full_comparator(Op::Caret, 0, minor, patch, pre)], v) == req_matches(
            half_open(0, minor, patch, pre, 0, (minor + 1) as u64),
            v,
        ),
{
    let c = full_comparator(Op::Caret, 0, minor, patch, pre);
    let r = half_open(0, minor, patch, pre, 0, (minor + 1) as u64);
    law_single_comparator(c, v);
    lemma_two_comparators(r[0], r[1], v);
    assert(r =~= seq![r[0], r[1]]);
    lemma_pre_facts(v.pre, pre);
}

/// `~M.m.p` matches exactly what `>=M.m.p, <M.(m+1).0` matches.
pub proof fn law_tilde_range(major: u64, minor: u64, patch: u64, pre: Seq<char>, v: VersionModel)
    requires
        minor < u64::MAX,
    ensures
        req_matches(seq![full_comparator(Op::Tilde, major, minor, patch, pre)], v) == req_matches(
            half_open(major, minor, patch, pre, major, (minor + 1) as u64),
            v,
        ),
{
    let c = full_comparator(Op::Tilde, major, minor, patch, pre);
    let r = half_open(major, minor, patch, pre, major, (minor + 1) as u64);
    law_single_comparator(c, v);
    lemma_two_comparators(r[0], r[1], v);
    assert(r =~= seq![r[0], r[1]]);
    lemma_pre_facts(v.pre, pre);
}

} // verus!
