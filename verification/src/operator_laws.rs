//! What each operator of a comparator means, stated through precedence and
//! the version numbers, and how the pre-release gate decides a requirement.

use vstd::prelude::*;
use crate::eval::{comparator_matches, matches_op, pre_is_compatible, req_matches};
use crate::identifier::compare_prerelease;
use crate::match_laws::full_comparator;
use crate::order::Comparison;
use crate::order_laws::{law_precedence_numeric, law_prerelease_total_order};
use crate::version::{ComparatorModel, Op, VersionModel, compare_precedence};

verus! {

/// The version `major.minor.patch-pre` without build metadata: the bound
/// that a comparator with every number given names.
pub open spec fn bound_version(major: u64, minor: u64, patch: u64, pre: Seq<char>) -> VersionModel {
    VersionModel { major, minor, patch, pre, build: Seq::<char>::empty() }
}

/// For a comparator that gives all three numbers, each operator compares the
/// candidate with the named version by precedence: `=` holds on equal
/// precedence, `>` and `<` on greater and lower, `>=` and `<=` on either
/// that or equality. `~` further keeps major and minor, and `^` keeps the
/// leftmost non-zero number (all three for `^0.0.p`).
pub proof fn law_full_comparator_precedence(
    major: u64,
    minor: u64,
    patch: u64,
    pre: Seq<char>,
    v: VersionModel,
)
    ensures
        ({
            let b = bound_version(major, minor, patch, pre);
            let ord = compare_precedence(v, b);
            &&& matches_op(full_comparator(Op::Exact, major, minor, patch, pre), v) == (ord
                == Comparison::Equal)
            &&& matches_op(full_comparator(Op::Greater, major, minor, patch, pre), v) == (ord
                == Comparison::Greater)
            &&& matches_op(full_comparator(Op::GreaterEq, major, minor, patch, pre), v) == (ord
                != Comparison::Less)
            &&& matches_op(full_comparator(Op::Less, major, minor, patch, pre), v) == (ord
                == Comparison::Less)
            &&& matches_op(full_comparator(Op::LessEq, major, minor, patch, pre), v) == (ord
                != Comparison::Greater)
            &&& matches_op(full_comparator(Op::Tilde, major, minor, patch, pre), v) == (v.major == major
                && v.minor == minor && ord != Comparison::Less)
            &&& major > 0 ==> matches_op(full_comparator(Op::Caret, major, minor, patch, pre), v) == (
            v.major == major && ord != Comparison::Less)
            &&& major == 0 && minor > 0 ==> matches_op(full_comparator(Op::Caret, major, minor, patch, pre), v)
                == (v.major == 0 && v.minor == minor && ord != Comparison::Less)
            &&& major == 0 && minor == 0 ==> matches_op(full_comparator(Op::Caret, major, minor, patch, pre), v)
                == (v.major == 0 && v.minor == 0 && v.patch == patch && ord != Comparison::Less)
        }),
{
    let b = bound_version(major, minor, patch, pre);
    law_precedence_numeric(v, b);
    law_prerelease_total_order(v.pre, pre, pre);
}

/// For a comparator that gives major and minor but no patch number (`op M.m`),
/// each operator compares the candidate's `(major, minor)` with `(M, m)`
/// lexicographically; `=` also needs the comparator's pre-release identifier.
pub proof fn law_minor_comparator(op: Op, major: u64, minor: u64, pre: Seq<char>, v: VersionModel)
    ensures
        ({
            let c = ComparatorModel { op, major, minor: Some(minor), patch: None, pre };
            let same = v.major == major && v.minor == minor;
            let above = v.major > major || (v.major == major && v.minor > minor);
            let below = v.major < major || (v.major == major && v.minor < minor);
            &&& (op == Op::Exact || op == Op::Wildcard) ==> matches_op(c, v) == (same && v.pre == pre)
            &&& op == Op::Greater ==> matches_op(c, v) == above
            &&& op == Op::GreaterEq ==> matches_op(c, v) == (above || (same && v.pre == pre))
            &&& op == Op::Less ==> matches_op(c, v) == below
            &&& op == Op::LessEq ==> matches_op(c, v) == (below || (same && v.pre == pre))
            &&& op == Op::Tilde ==> matches_op(c, v) == (same && compare_prerelease(v.pre, pre)
                != Comparison::Less)
            &&& op == Op::Caret && major > 0 ==> matches_op(c, v) == (v.major == major && v.minor
                >= minor)
            &&& op == Op::Caret && major == 0 ==> matches_op(c, v) == same
        }),
{
}

/// For a comparator that gives only a major number (`op M`), each operator
/// compares the candidate's major number with `M`; `=` also needs the
/// comparator's pre-release identifier.
pub proof fn law_major_comparator(op: Op, major: u64, pre: Seq<char>, v: VersionModel)
    ensures
        ({
            let c = ComparatorModel { op, major, minor: None, patch: None, pre };
            &&& (op == Op::Exact || op == Op::Wildcard) ==> matches_op(c, v) == (v.major == major
                && v.pre == pre)
            &&& op == Op::Greater ==> matches_op(c, v) == (v.major > major)
            &&& op == Op::GreaterEq ==> matches_op(c, v) == (v.major > major || (v.major == major
                && v.pre == pre))
            &&& op == Op::Less ==> matches_op(c, v) == (v.major < major)
            &&& op == Op::LessEq ==> matches_op(c, v) == (v.major < major || (v.major == major
                && v.pre == pre))
            &&& op == Op::Tilde ==> matches_op(c, v) == (v.major == major && compare_prerelease(
                v.pre,
                pre,
            ) != Comparison::Less)
            &&& op == Op::Caret ==> matches_op(c, v) == (v.major == major)
        }),
{
}

/// An `=` comparator `=M.m.p-pre` matches exactly the versions with its own
/// three numbers and its own pre-release identifier (build metadata aside).
pub proof fn law_exact_comparator(c: ComparatorModel, v: VersionModel)
    requires
        c.op == Op::Exact,
        c.minor is Some,
        c.patch is Some,
    ensures
        comparator_matches(c, v) == (v.major == c.major && Some(v.minor) == c.minor && Some(v.patch)
            == c.patch && v.pre == c.pre),
{
}

/// A comparator on its own matches a version when its operator holds and,
/// if the version is a pre-release, the comparator names the version's exact
/// `major.minor.patch` and carries a pre-release identifier.
pub proof fn law_comparator_gate(c: ComparatorModel, v: VersionModel)
    ensures
        comparator_matches(c, v) == (matches_op(c, v) && (v.pre.len() == 0 || (c.major == v.major
            && c.minor == Some(v.minor) && c.patch == Some(v.patch) && c.pre.len() > 0))),
{
}

/// A requirement matches a version exactly when every comparator's operator
/// holds and, if the version is a pre-release, some comparator names the
/// version's exact `major.minor.patch` and carries a pre-release identifier.
pub proof fn law_requirement_gate(cs: Seq<ComparatorModel>, v: VersionModel)
    ensures
        req_matches(cs, v) == ((forall|i: int| 0 <= i < cs.len() ==> matches_op(#[trigger] cs[i], v))
            && (v.pre.len() == 0 || exists|j: int|
            0 <= j < cs.len() && (#[trigger] cs[j]).major == v.major && cs[j].minor == Some(v.minor)
                && cs[j].patch == Some(v.patch) && cs[j].pre.len() > 0)),
{
    if v.pre.len() > 0 {
        if exists|j: int|
            0 <= j < cs.len() && (#[trigger] cs[j]).major == v.major && cs[j].minor == Some(v.minor)
                && cs[j].patch == Some(v.patch) && cs[j].pre.len() > 0 {
            let j = choose|j: int|
                0 <= j < cs.len() && (#[trigger] cs[j]).major == v.major && cs[j].minor == Some(
                    v.minor,
                ) && cs[j].patch == Some(v.patch) && cs[j].pre.len() > 0;
            assert(pre_is_compatible(cs[j], v));
        }
        if exists|j: int| 0 <= j < cs.len() && pre_is_compatible(#[trigger] cs[j], v) {
            let j = choose|j: int| 0 <= j < cs.len() && pre_is_compatible(#[trigger] cs[j], v);
            assert(cs[j].major == v.major);
        }
    }
}

} // verus!
