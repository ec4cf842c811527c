//! Parsing of versions, comparators and version requirements.
//!
//! Each parser is stated as a spec function over the input's characters that
//! fixes the result, including which error is reported for a rejected input;
//! the executable parsers are proved to compute exactly that.

use vstd::prelude::*;
use crate::chars::{
    chars_of, digit_value, digits_end, digits_value, find_digits_end, is_digit, lemma_digits_end_bounds,
    lemma_digits_value_prefix, lemma_digits_value_push, lemma_spaces_end_bounds, skip_spaces,
    spaces_end,
};
use crate::error::{Error, ErrorKind, Position};
use crate::identifier::{
    BuildMetadata, Prerelease, lemma_scanned_is_identifier, scan_identifier, scan_identifier_exec,
};
use crate::version::{Comparator, ComparatorModel, Op, Version, VersionModel, VersionReq};

verus! {

/// Most comparators a version requirement may hold.
pub const MAX_COMPARATORS: usize = 32;

// ---------------------------------------------------------------------------
// Specification
// ---------------------------------------------------------------------------

pub open spec fn char_is(s: Seq<char>, i: int, c: char) -> bool {
    0 <= i < s.len() && s[i] == c
}

/// A wildcard character (`*`, `x` or `X`) at `i`.
pub open spec fn wildcard_at(s: Seq<char>, i: int) -> bool {
    char_is(s, i, '*') || char_is(s, i, 'x') || char_is(s, i, 'X')
}

/// Reads a major, minor or patch number at `i`: a non-empty run of digits
/// without a leading zero whose value fits in a `u64`. On success, the value
/// and the index just past the digits.
pub open spec fn scan_numeric(s: Seq<char>, i: int, pos: Position) -> Result<(u64, int), ErrorKind> {
    let j = digits_end(s, i);
    if j <= i {
        if 0 <= i < s.len() {
            Err(ErrorKind::UnexpectedChar(pos, s[i]))
        } else {
            Err(ErrorKind::UnexpectedEnd(pos))
        }
    } else if s[i] == '0' && j > i + 1 {
        Err(ErrorKind::LeadingZero(pos))
    } else if digits_value(s.subrange(i, j)) > u64::MAX {
        Err(ErrorKind::Overflow(pos))
    } else {
        Ok((digits_value(s.subrange(i, j)) as u64, j))
    }
}

/// Reads the `.` that must follow the number at `pos`.
pub open spec fn scan_dot(s: Seq<char>, i: int, pos: Position) -> Result<int, ErrorKind> {
    if char_is(s, i, '.') {
        Ok(i + 1)
    } else if 0 <= i < s.len() {
        Err(ErrorKind::UnexpectedCharAfter(pos, s[i]))
    } else {
        Err(ErrorKind::UnexpectedEnd(pos))
    }
}

/// Reads an optional `-` and pre-release identifier at `i`. On success, the
/// identifier (empty when absent), the position reached and the next index.
pub open spec fn scan_pre_suffix(s: Seq<char>, i: int, pos: Position) -> Result<
    (Seq<char>, Position, int),
    ErrorKind,
> {
    if char_is(s, i, '-') {
        match scan_identifier(s, i + 1, i + 1, Position::Pre) {
            Err(e) => Err(e),
            Ok(e) => if e <= i + 1 {
                Err(ErrorKind::EmptySegment(Position::Pre))
            } else {
                Ok((s.subrange(i + 1, e), Position::Pre, e))
            },
        }
    } else {
        Ok((Seq::<char>::empty(), pos, i))
    }
}

/// Reads optional `+` and build metadata at `i`.
pub open spec fn scan_build_suffix(s: Seq<char>, i: int, pos: Position) -> Result<
    (Seq<char>, Position, int),
    ErrorKind,
> {
    if char_is(s, i, '+') {
        match scan_identifier(s, i + 1, i + 1, Position::Build) {
            Err(e) => Err(e),
            Ok(e) => if e <= i + 1 {
                Err(ErrorKind::EmptySegment(Position::Build))
            } else {
                Ok((s.subrange(i + 1, e), Position::Build, e))
            },
        }
    } else {
        Ok((Seq::<char>::empty(), pos, i))
    }
}

/// The result of parsing `s` as a version `major.minor.patch[-pre][+build]`.
pub open spec fn parse_version(s: Seq<char>) -> Result<VersionModel, ErrorKind> {
    if s.len() == 0 {
        Err(ErrorKind::Empty)
    } else {
        match scan_numeric(s, 0, Position::Major) {
            Err(e) => Err(e),
            Ok((major, a)) => match scan_dot(s, a, Position::Major) {
                Err(e) => Err(e),
                Ok(a1) => match scan_numeric(s, a1, Position::Minor) {
                    Err(e) => Err(e),
                    Ok((minor, b)) => match scan_dot(s, b, Position::Minor) {
                        Err(e) => Err(e),
                        Ok(b1) => match scan_numeric(s, b1, Position::Patch) {
                            Err(e) => Err(e),
                            Ok((patch, c)) => match scan_pre_suffix(s, c, Position::Patch) {
                                Err(e) => Err(e),
                                Ok((pre, pos1, d)) => match scan_build_suffix(s, d, pos1) {
                                    Err(e) => Err(e),
                                    Ok((build, pos2, f)) => if 0 <= f < s.len() {
                                        Err(ErrorKind::UnexpectedCharAfter(pos2, s[f]))
                                    } else {
                                        Ok(VersionModel { major, minor, patch, pre, build })
                                    },
                                },
                            },
                        },
                    },
                },
            },
        }
    }
}

/// Reads an optional operator at `i`; without one the operator is `^`.
pub open spec fn scan_op(s: Seq<char>, i: int) -> (Op, int) {
    if char_is(s, i, '=') {
        (Op::Exact, i + 1)
    } else if char_is(s, i, '>') {
        if char_is(s, i + 1, '=') {
            (Op::GreaterEq, i + 2)
        } else {
            (Op::Greater, i + 1)
        }
    } else if char_is(s, i, '<') {
        if char_is(s, i + 1, '=') {
            (Op::LessEq, i + 2)
        } else {
            (Op::Less, i + 1)
        }
    } else if char_is(s, i, '~') {
        (Op::Tilde, i + 1)
    } else if char_is(s, i, '^') {
        (Op::Caret, i + 1)
    } else {
        (Op::Caret, i)
    }
}

/// Reads the optional `.minor` (a number or a wildcard) after the major
/// number. On success: the minor number, whether it was a wildcard, the
/// position reached and the next index.
pub open spec fn scan_minor(s: Seq<char>, a: int) -> Result<(Option<u64>, bool, Position, int), ErrorKind> {
    if char_is(s, a, '.') {
        if wildcard_at(s, a + 1) {
            Ok((None, true, Position::Minor, a + 2))
        } else {
            match scan_numeric(s, a + 1, Position::Minor) {
                Err(e) => Err(e),
                Ok((m, b)) => Ok((Some(m), false, Position::Minor, b)),
            }
        }
    } else {
        Ok((None, false, Position::Major, a))
    }
}

/// Reads the optional `.patch` (a number or a wildcard); a number may not
/// follow a wildcard minor.
pub open spec fn scan_patch(s: Seq<char>, b: int, minor_wildcard: bool, pos: Position) -> Result<
    (Option<u64>, bool, Position, int),
    ErrorKind,
> {
    if char_is(s, b, '.') {
        if wildcard_at(s, b + 1) {
            Ok((None, true, Position::Patch, b + 2))
        } else if minor_wildcard {
            Err(ErrorKind::UnexpectedAfterWildcard)
        } else {
            match scan_numeric(s, b + 1, Position::Patch) {
                Err(e) => Err(e),
                Ok((p, c)) => Ok((Some(p), false, Position::Patch, c)),
            }
        }
    } else {
        Ok((None, false, pos, b))
    }
}

/// Reads one comparator at `i`: an optional operator, spaces, the major
/// number, optional minor and patch (numbers or wildcards), and, after a
/// patch number, an optional pre-release identifier and optional build
/// metadata, which is dropped. A wildcard with no explicit operator makes
/// the operator `Op::Wildcard`. Trailing spaces are skipped. On success: the
/// comparator, the position reached and the next index.
pub open spec fn scan_comparator(s: Seq<char>, i: int) -> Result<(ComparatorModel, Position, int), ErrorKind> {
    let (op0, j) = scan_op(s, i);
    match scan_numeric(s, spaces_end(s, j), Position::Major) {
        Err(e) => Err(e),
        Ok((major, a)) => match scan_minor(s, a) {
            Err(e) => Err(e),
            Ok((minor, minor_wildcard, pos1, b)) => match scan_patch(s, b, minor_wildcard, pos1) {
                Err(e) => Err(e),
                Ok((patch, patch_wildcard, pos2, c)) => {
                    let op = if j == i && (minor_wildcard || patch_wildcard) {
                        Op::Wildcard
                    } else {
                        op0
                    };
                    let pre_part = if patch is Some {
                        scan_pre_suffix(s, c, pos2)
                    } else {
                        Ok((Seq::<char>::empty(), pos2, c))
                    };
                    match pre_part {
                        Err(e) => Err(e),
                        Ok((pre, pos3, d)) => {
                            let build_part = if patch is Some {
                                scan_build_suffix(s, d, pos3)
                            } else {
                                Ok((Seq::<char>::empty(), pos3, d))
                            };
                            match build_part {
                                Err(e) => Err(e),
                                Ok((_build, pos4, f)) => Ok(
                                    (ComparatorModel { op, major, minor, patch, pre }, pos4, spaces_end(s, f)),
                                ),
                            }
                        },
                    }
                },
            },
        },
    }
}

/// The result of parsing `s` as a single comparator (leading spaces allowed).
pub open spec fn parse_comparator(s: Seq<char>) -> Result<ComparatorModel, ErrorKind> {
    match scan_comparator(s, spaces_end(s, 0)) {
        Err(e) => Err(e),
        Ok((c, pos, r)) => if 0 <= r < s.len() {
            Err(ErrorKind::UnexpectedCharAfter(pos, s[r]))
        } else {
            Ok(c)
        },
    }
}

/// Reads the comma-separated comparators from `i` on; `depth` comparators
/// came before. A failed comparator that starts with a wildcard followed by
/// the end or a comma is reported as a misplaced `*`.
pub open spec fn scan_req(s: Seq<char>, i: int, depth: int) -> Result<Seq<ComparatorModel>, ErrorKind>
    decreases MAX_COMPARATORS - depth,
{
    match scan_comparator(s, i) {
        Err(e) => if wildcard_at(s, i) && (spaces_end(s, i + 1) >= s.len() || s[spaces_end(s, i + 1)] == ',') {
            Err(ErrorKind::WildcardNotTheOnlyComparator(s[i]))
        } else {
            Err(e)
        },
        Ok((c, pos, t)) => if t >= s.len() {
            Ok(seq![c])
        } else if s[t] != ',' {
            Err(ErrorKind::ExpectedCommaFound(pos, s[t]))
        } else if depth + 1 >= MAX_COMPARATORS {
            Err(ErrorKind::ExcessiveComparators)
        } else {
            match scan_req(s, spaces_end(s, t + 1), depth + 1) {
                Err(e) => Err(e),
                Ok(rest) => Ok(seq![c] + rest),
            }
        },
    }
}

/// The result of parsing `s` as a version requirement. A lone wildcard
/// (with surrounding spaces) is the requirement with no comparators.
pub open spec fn parse_req(s: Seq<char>) -> Result<Seq<ComparatorModel>, ErrorKind> {
    let i = spaces_end(s, 0);
    if wildcard_at(s, i) {
        let r = spaces_end(s, i + 1);
        if r >= s.len() {
            Ok(Seq::<ComparatorModel>::empty())
        } else if s[r] == ',' {
            Err(ErrorKind::WildcardNotTheOnlyComparator(s[i]))
        } else {
            Err(ErrorKind::UnexpectedAfterWildcard)
        }
    } else {
        scan_req(s, i, 0)
    }
}

/// `acc` followed by the comparators of `r`, or the error of `r`.
pub open spec fn prefixed(acc: Seq<ComparatorModel>, r: Result<Seq<ComparatorModel>, ErrorKind>) -> Result<
    Seq<ComparatorModel>,
    ErrorKind,
> {
    match r {
        Ok(rest) => Ok(acc + rest),
        Err(e) => Err(e),
    }
}

// ---------------------------------------------------------------------------
// Implementation
// ---------------------------------------------------------------------------

fn char_at_is(s: &Vec<char>, i: usize, c: char) -> (r: bool)
    ensures
        r == char_is(s@, i as int, c),
{
    i < s.len() && s[i] == c
}

fn is_wildcard(s: &Vec<char>, i: usize) -> (r: bool)
    ensures
        r == wildcard_at(s@, i as int),
{
    char_at_is(s, i, '*') || char_at_is(s, i, 'x') || char_at_is(s, i, 'X')
}

fn numeric_identifier(s: &Vec<char>, i: usize, pos: Position) -> (r: Result<(u64, usize), ErrorKind>)
    requires
        i <= s.len(),
    ensures
        match r {
            Ok((v, j)) => i < j <= s.len() && scan_numeric(s@, i as int, pos) == Ok::<
                (u64, int),
                ErrorKind,
            >((v, j as int)),
            Err(e) => scan_numeric(s@, i as int, pos) == Err::<(u64, int), ErrorKind>(e),
        },
{
    let j = find_digits_end(s, i);
    proof {
        lemma_digits_end_bounds(s@, i as int);
    }
    if j == i {
        if i < s.len() {
            return Err(ErrorKind::UnexpectedChar(pos, s[i]));
        } else {
            return Err(ErrorKind::UnexpectedEnd(pos));
        }
    }
    if s[i] == '0' && j > i + 1 {
        return Err(ErrorKind::LeadingZero(pos));
    }
    let ghost d = s@.subrange(i as int, j as int);
    let mut value: u64 = 0;
    let mut k = i;
    assert(s@.subrange(i as int, i as int) =~= Seq::<char>::empty());
    while k < j
        invariant
            i <= k <= j <= s.len(),
            i < j,
            j == digits_end(s@, i as int),
            !(s@[i as int] == '0' && j > i + 1),
            d == s@.subrange(i as int, j as int),
            value == digits_value(s@.subrange(i as int, k as int)),
            forall|m: int| i <= m < j ==> is_digit(#[trigger] s@[m]),
        decreases j - k,
    {
        let dv = digit_value(s[k]);
        proof {
            lemma_digits_value_push(s@.subrange(i as int, k as int), s@[k as int]);
            assert(s@.subrange(i as int, k as int).push(s@[k as int]) =~= s@.subrange(
                i as int,
                k + 1,
            ));
            assert(d.subrange(0, k + 1 - i) =~= s@.subrange(i as int, k + 1));
            lemma_digits_value_prefix(d, k + 1 - i);
        }
        match value.checked_mul(10) {
            None => {
                proof {
                    assert(digits_value(s@.subrange(i as int, k + 1)) > u64::MAX);
                    assert(digits_value(d) > u64::MAX);
                }
                return Err(ErrorKind::Overflow(pos));
            },
            Some(m) => match m.checked_add(dv) {
                None => {
                    proof {
                        assert(digits_value(s@.subrange(i as int, k + 1)) > u64::MAX);
                        assert(digits_value(d) > u64::MAX);
                    }
                    return Err(ErrorKind::Overflow(pos));
                },
                Some(v) => {
                    value = v;
                },
            },
        }
        k = k + 1;
    }
    Ok((value, j))
}

fn dot(s: &Vec<char>, i: usize, pos: Position) -> (r: Result<usize, ErrorKind>)
    requires
        i <= s.len(),
    ensures
        match r {
            Ok(j) => j <= s.len() && scan_dot(s@, i as int, pos) == Ok::<int, ErrorKind>(j as int),
            Err(e) => scan_dot(s@, i as int, pos) == Err::<int, ErrorKind>(e),
        },
{
    if i < s.len() && s[i] == '.' {
        Ok(i + 1)
    } else if i < s.len() {
        Err(ErrorKind::UnexpectedCharAfter(pos, s[i]))
    } else {
        Err(ErrorKind::UnexpectedEnd(pos))
    }
}

fn pre_suffix(s: &Vec<char>, i: usize, pos: Position) -> (r: Result<(Prerelease, Position, usize), ErrorKind>)
    requires
        i <= s.len(),
    ensures
        match r {
            Ok((p, pos2, j)) => i <= j <= s.len() && scan_pre_suffix(s@, i as int, pos) == Ok::<
                (Seq<char>, Position, int),
                ErrorKind,
            >((p@, pos2, j as int)),
            Err(e) => scan_pre_suffix(s@, i as int, pos) == Err::<(Seq<char>, Position, int), ErrorKind>(e),
        },
{
    if i < s.len() && s[i] == '-' {
        match scan_identifier_exec(s, i + 1, Position::Pre) {
            Err(e) => Err(e),
            Ok(e) => {
                if e <= i + 1 {
                    Err(ErrorKind::EmptySegment(Position::Pre))
                } else {
                    proof {
                        lemma_scanned_is_identifier(s@, i + 1, Position::Pre);
                    }
                    Ok((Prerelease::from_range(s, i + 1, e), Position::Pre, e))
                }
            },
        }
    } else {
        Ok((Prerelease::empty(), pos, i))
    }
}

fn build_suffix(s: &Vec<char>, i: usize, pos: Position) -> (r: Result<(BuildMetadata, Position, usize), ErrorKind>)
    requires
        i <= s.len(),
    ensures
        match r {
            Ok((b, pos2, j)) => i <= j <= s.len() && scan_build_suffix(s@, i as int, pos) == Ok::<
                (Seq<char>, Position, int),
                ErrorKind,
            >((b@, pos2, j as int)),
            Err(e) => scan_build_suffix(s@, i as int, pos) == Err::<(Seq<char>, Position, int), ErrorKind>(e),
        },
{
    if i < s.len() && s[i] == '+' {
        match scan_identifier_exec(s, i + 1, Position::Build) {
            Err(e) => Err(e),
            Ok(e) => {
                if e <= i + 1 {
                    Err(ErrorKind::EmptySegment(Position::Build))
                } else {
                    proof {
                        lemma_scanned_is_identifier(s@, i + 1, Position::Build);
                    }
                    Ok((BuildMetadata::from_range(s, i + 1, e), Position::Build, e))
                }
            },
        }
    } else {
        Ok((BuildMetadata::empty(), pos, i))
    }
}

fn parse_version_chars(s: &Vec<char>) -> (r: Result<Version, ErrorKind>)
    ensures
        match r {
            Ok(v) => parse_version(s@) == Ok::<VersionModel, ErrorKind>(v@),
            Err(e) => parse_version(s@) == Err::<VersionModel, ErrorKind>(e),
        },
{
    if s.len() == 0 {
        return Err(ErrorKind::Empty);
    }
    let (major, a) = numeric_identifier(s, 0, Position::Major)?;
    let a1 = dot(s, a, Position::Major)?;
    let (minor, b) = numeric_identifier(s, a1, Position::Minor)?;
    let b1 = dot(s, b, Position::Minor)?;
    let (patch, c) = numeric_identifier(s, b1, Position::Patch)?;
    let (pre, pos1, d) = pre_suffix(s, c, Position::Patch)?;
    let (build, pos2, f) = build_suffix(s, d, pos1)?;
    if f < s.len() {
        return Err(ErrorKind::UnexpectedCharAfter(pos2, s[f]));
    }
    Ok(Version { major, minor, patch, pre, build })
}

impl Version {
    /// Parses a version such as `1.2.3-alpha.1+build.5`.
    pub fn parse(text: &str) -> (r: Result<Version, Error>)
        ensures
            match r {
                Ok(v) => parse_version(text@) == Ok::<VersionModel, ErrorKind>(v@),
                Err(e) => parse_version(text@) == Err::<VersionModel, ErrorKind>(e.kind_of()),
            },
    {
        let s = chars_of(text);
        match parse_version_chars(&s) {
            Ok(v) => Ok(v),
            Err(k) => Err(Error::new(k)),
        }
    }
}

fn op_at(s: &Vec<char>, i: usize) -> (r: (Op, usize))
    requires
        i <= s.len(),
    ensures
        scan_op(s@, i as int) == (r.0, r.1 as int),
        i <= r.1 <= s.len(),
{
    if char_at_is(s, i, '=') {
        (Op::Exact, i + 1)
    } else if char_at_is(s, i, '>') {
        if char_at_is(s, i + 1, '=') {
            (Op::GreaterEq, i + 2)
        } else {
            (Op::Greater, i + 1)
        }
    } else if char_at_is(s, i, '<') {
        if char_at_is(s, i + 1, '=') {
            (Op::LessEq, i + 2)
        } else {
            (Op::Less, i + 1)
        }
    } else if char_at_is(s, i, '~') {
        (Op::Tilde, i + 1)
    } else if char_at_is(s, i, '^') {
        (Op::Caret, i + 1)
    } else {
        (Op::Caret, i)
    }
}

fn minor_part(s: &Vec<char>, a: usize) -> (r: Result<(Option<u64>, bool, Position, usize), ErrorKind>)
    requires
        a <= s.len(),
    ensures
        match r {
            Ok((m, w, p, b)) => a <= b <= s.len() && scan_minor(s@, a as int) == Ok::<
                (Option<u64>, bool, Position, int),
                ErrorKind,
            >((m, w, p, b as int)),
            Err(e) => scan_minor(s@, a as int) == Err::<(Option<u64>, bool, Position, int), ErrorKind>(e),
        },
{
    if char_at_is(s, a, '.') {
        if is_wildcard(s, a + 1) {
            Ok((None, true, Position::Minor, a + 2))
        } else {
            let (m, b) = numeric_identifier(s, a + 1, Position::Minor)?;
            Ok((Some(m), false, Position::Minor, b))
        }
    } else {
        Ok((None, false, Position::Major, a))
    }
}

fn patch_part(s: &Vec<char>, b: usize, minor_wildcard: bool, pos: Position) -> (r: Result<
    (Option<u64>, bool, Position, usize),
    ErrorKind,
>)
    requires
        b <= s.len(),
    ensures
        match r {
            Ok((p, w, q, c)) => b <= c <= s.len() && scan_patch(s@, b as int, minor_wildcard, pos)
                == Ok::<(Option<u64>, bool, Position, int), ErrorKind>((p, w, q, c as int)),
            Err(e) => scan_patch(s@, b as int, minor_wildcard, pos) == Err::<
                (Option<u64>, bool, Position, int),
                ErrorKind,
            >(e),
        },
{
    if char_at_is(s, b, '.') {
        if is_wildcard(s, b + 1) {
            Ok((None, true, Position::Patch, b + 2))
        } else if minor_wildcard {
            Err(ErrorKind::UnexpectedAfterWildcard)
        } else {
            let (p, c) = numeric_identifier(s, b + 1, Position::Patch)?;
            Ok((Some(p), false, Position::Patch, c))
        }
    } else {
        Ok((None, false, pos, b))
    }
}

fn comparator_at(s: &Vec<char>, i: usize) -> (r: Result<(Comparator, Position, usize), ErrorKind>)
    requires
        i <= s.len(),
    ensures
        match r {
            Ok((c, pos, t)) => i < t <= s.len() && scan_comparator(s@, i as int) == Ok::<
                (ComparatorModel, Position, int),
                ErrorKind,
            >((c@, pos, t as int)),
            Err(e) => scan_comparator(s@, i as int) == Err::<(ComparatorModel, Position, int), ErrorKind>(e),
        },
{
    let (op0, j) = op_at(s, i);
    let t = skip_spaces(s, j);
    proof {
        lemma_spaces_end_bounds(s@, j as int);
    }
    let (major, a) = numeric_identifier(s, t, Position::Major)?;
    let (minor, minor_wildcard, pos1, b) = minor_part(s, a)?;
    let (patch, patch_wildcard, pos2, c) = patch_part(s, b, minor_wildcard, pos1)?;
    let op = if j == i && (minor_wildcard || patch_wildcard) {
        Op::Wildcard
    } else {
        op0
    };
    let (pre, pos3, d) = if patch.is_some() {
        pre_suffix(s, c, pos2)?
    } else {
        (Prerelease::empty(), pos2, c)
    };
    let (pos4, f) = if patch.is_some() {
        let (_build, pos4, f) = build_suffix(s, d, pos3)?;
        (pos4, f)
    } else {
        (pos3, d)
    };
    let end = skip_spaces(s, f);
    proof {
        lemma_spaces_end_bounds(s@, f as int);
    }
    Ok((Comparator { op, major, minor, patch, pre }, pos4, end))
}

fn parse_comparator_chars(s: &Vec<char>) -> (r: Result<Comparator, ErrorKind>)
    ensures
        match r {
            Ok(c) => parse_comparator(s@) == Ok::<ComparatorModel, ErrorKind>(c@),
            Err(e) => parse_comparator(s@) == Err::<ComparatorModel, ErrorKind>(e),
        },
{
    let i = skip_spaces(s, 0);
    proof {
        lemma_spaces_end_bounds(s@, 0);
    }
    let (c, pos, r) = comparator_at(s, i)?;
    if r < s.len() {
        return Err(ErrorKind::UnexpectedCharAfter(pos, s[r]));
    }
    Ok(c)
}

impl Comparator {
    /// Parses a single comparator such as `>=1.2.3` or `1.*`.
    pub fn parse(text: &str) -> (r: Result<Comparator, Error>)
        ensures
            match r {
                Ok(c) => parse_comparator(text@) == Ok::<ComparatorModel, ErrorKind>(c@),
                Err(e) => parse_comparator(text@) == Err::<ComparatorModel, ErrorKind>(e.kind_of()),
            },
    {
        let s = chars_of(text);
        match parse_comparator_chars(&s) {
            Ok(c) => Ok(c),
            Err(k) => Err(Error::new(k)),
        }
    }
}

fn parse_req_chars(s: &Vec<char>) -> (r: Result<Vec<Comparator>, ErrorKind>)
    ensures
        match r {
            Ok(cs) => parse_req(s@) == Ok::<Seq<ComparatorModel>, ErrorKind>(
                cs@.map_values(|c: Comparator| c@),
            ),
            Err(e) => parse_req(s@) == Err::<Seq<ComparatorModel>, ErrorKind>(e),
        },
{
    let start = skip_spaces(s, 0);
    proof {
        lemma_spaces_end_bounds(s@, 0);
    }
    if is_wildcard(s, start) {
        assert(start < s.len());
        let r = skip_spaces(s, start + 1);
        if r >= s.len() {
            let out: Vec<Comparator> = Vec::new();
            assert(out@.map_values(|c: Comparator| c@) =~= Seq::<ComparatorModel>::empty());
            return Ok(out);
        } else if s[r] == ',' {
            return Err(ErrorKind::WildcardNotTheOnlyComparator(s[start]));
        } else {
            return Err(ErrorKind::UnexpectedAfterWildcard);
        }
    }
    let mut out: Vec<Comparator> = Vec::new();
    let mut i = start;
    let mut depth: usize = 0;
    assert(Seq::<ComparatorModel>::empty() + scan_req(s@, i as int, 0)->Ok_0 =~= scan_req(
        s@,
        i as int,
        0,
    )->Ok_0);
    loop
        invariant
            i <= s.len(),
            depth < MAX_COMPARATORS,
            depth == out.len(),
            parse_req(s@) == prefixed(
                out@.map_values(|c: Comparator| c@),
                scan_req(s@, i as int, depth as int),
            ),
        decreases MAX_COMPARATORS - depth,
    {
        let ghost acc = out@.map_values(|c: Comparator| c@);
        match comparator_at(s, i) {
            Err(e) => {
                if is_wildcard(s, i) {
                    let r = skip_spaces(s, i + 1);
                    if r >= s.len() || s[r] == ',' {
                        return Err(ErrorKind::WildcardNotTheOnlyComparator(s[i]));
                    }
                }
                return Err(e);
            },
            Ok((c, pos, t)) => {
                if t == s.len() {
                    out.push(c);
                    proof {
                        assert(out@.map_values(|c: Comparator| c@) =~= acc + seq![c@]);
                    }
                    return Ok(out);
                }
                if s[t] != ',' {
                    return Err(ErrorKind::ExpectedCommaFound(pos, s[t]));
                }
                if depth + 1 >= MAX_COMPARATORS {
                    return Err(ErrorKind::ExcessiveComparators);
                }
                out.push(c);
                let next = skip_spaces(s, t + 1);
                proof {
                    lemma_spaces_end_bounds(s@, t + 1);
                    let rest = scan_req(s@, next as int, depth + 1);
                    assert(out@.map_values(|c: Comparator| c@) =~= acc + seq![c@]);
                    if rest is Ok {
                        assert(acc + (seq![c@] + rest->Ok_0) =~= (acc + seq![c@]) + rest->Ok_0);
                    }
                }
                i = next;
                depth = depth + 1;
            },
        }
    }
}

impl VersionReq {
    /// Parses a version requirement such as `>=1.0.0, <2.0.0`.
    pub fn parse(text: &str) -> (r: Result<VersionReq, Error>)
        ensures
            match r {
                Ok(req) => parse_req(text@) == Ok::<Seq<ComparatorModel>, ErrorKind>(req@),
                Err(e) => parse_req(text@) == Err::<Seq<ComparatorModel>, ErrorKind>(e.kind_of()),
            },
    {
        let s = chars_of(text);
        match parse_req_chars(&s) {
            Ok(cs) => Ok(VersionReq { comparators: cs }),
            Err(k) => Err(Error::new(k)),
        }
    }
}

impl std::str::FromStr for Version {
    type Err = Error;

    fn from_str(text: &str) -> (r: Result<Version, Error>)
        ensures
            match r {
                Ok(v) => parse_version(text@) == Ok::<VersionModel, ErrorKind>(v@),
                Err(e) => parse_version(text@) == Err::<VersionModel, ErrorKind>(e.kind_of()),
            },
    {
        Version::parse(text)
    }
}

impl std::str::FromStr for Comparator {
    type Err = Error;

    fn from_str(text: &str) -> (r: Result<Comparator, Error>)
        ensures
            match r {
                Ok(c) => parse_comparator(text@) == Ok::<ComparatorModel, ErrorKind>(c@),
                Err(e) => parse_comparator(text@) == Err::<ComparatorModel, ErrorKind>(e.kind_of()),
            },
    {
        Comparator::parse(text)
    }
}

impl std::str::FromStr for VersionReq {
    type Err = Error;

    fn from_str(text: &str) -> (r: Result<VersionReq, Error>)
        ensures
            match r {
                Ok(req) => parse_req(text@) == Ok::<Seq<ComparatorModel>, ErrorKind>(req@),
                Err(e) => parse_req(text@) == Err::<Seq<ComparatorModel>, ErrorKind>(e.kind_of()),
            },
    {
        VersionReq::parse(text)
    }
}

} // verus!
