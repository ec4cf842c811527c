//! Pre-release identifiers and build metadata: their syntax, their storage
//! and their precedence orders.

use vstd::prelude::*;
use std::cmp::Ordering;
use crate::chars::{
    all_digits, chars_of, digits_end, find_digits_end, find_ident_end, ident_end, is_digit,
    is_ident_char, lemma_ident_end_bounds, string_chars, string_from_range,
};
use crate::error::{Error, ErrorKind, Position};
use crate::order::{Comparison, compare_int, compare_usize, ordering_of, to_ordering};

verus! {

// ---------------------------------------------------------------------------
// Syntax
// ---------------------------------------------------------------------------

/// Scans a dot-separated identifier that starts at `start`; `k` is the start
/// of the segment being scanned. On success the result is the index just
/// past the identifier, which is `start` itself for an empty identifier
/// (allowed only when the input there does not continue with `.`). Segments
/// are non-empty runs of ASCII alphanumerics and `-`; in a pre-release
/// identifier a numeric segment may not have a leading zero.
pub open spec fn scan_identifier(s: Seq<char>, start: int, k: int, pos: Position) -> Result<int, ErrorKind>
    decreases s.len() - k,
{
    let e = ident_end(s, k);
    if e <= k {
        if k == start && !(0 <= k < s.len() && s[k] == '.') {
            Ok(start)
        } else {
            Err(ErrorKind::EmptySegment(pos))
        }
    } else if pos == Position::Pre && e - k > 1 && digits_end(s, k) >= e && s[k] == '0' {
        Err(ErrorKind::LeadingZero(pos))
    } else if e < s.len() && s[e] == '.' {
        scan_identifier(s, start, e + 1, pos)
    } else {
        Ok(e)
    }
}

/// The result of reading the whole of `s` as an identifier for `pos`.
pub open spec fn parse_identifier(s: Seq<char>, pos: Position) -> Result<Seq<char>, ErrorKind> {
    match scan_identifier(s, 0, 0, pos) {
        Ok(e) => if e < s.len() {
            Err(ErrorKind::IllegalCharacter(pos))
        } else {
            Ok(s)
        },
        Err(err) => Err(err),
    }
}

pub(crate) fn scan_identifier_exec(s: &Vec<char>, start: usize, pos: Position) -> (r: Result<usize, ErrorKind>)
    requires
        start <= s.len(),
    ensures
        match r {
            Ok(e) => start <= e <= s.len() && scan_identifier(s@, start as int, start as int, pos)
                == Ok::<int, ErrorKind>(e as int),
            Err(x) => scan_identifier(s@, start as int, start as int, pos) == Err::<int, ErrorKind>(x),
        },
{
    let mut k = start;
    loop
        invariant
            start <= k <= s.len(),
            scan_identifier(s@, start as int, start as int, pos) == scan_identifier(
                s@,
                start as int,
                k as int,
                pos,
            ),
        decreases s.len() - k,
    {
        let e = find_ident_end(s, k);
        proof {
            lemma_ident_end_bounds(s@, k as int);
        }
        if e == k {
            if k == start && !(k < s.len() && s[k] == '.') {
                return Ok(start);
            }
            return Err(ErrorKind::EmptySegment(pos));
        }
        if pos == Position::Pre && e - k > 1 && s[k] == '0' {
            let d = find_digits_end(s, k);
            if d >= e {
                return Err(ErrorKind::LeadingZero(pos));
            }
        }
        if e < s.len() && s[e] == '.' {
            k = e + 1;
        } else {
            return Ok(e);
        }
    }
}

fn parse_identifier_exec(text: &str, pos: Position) -> (r: Result<String, Error>)
    ensures
        match r {
            Ok(t) => parse_identifier(text@, pos) == Ok::<Seq<char>, ErrorKind>(t@),
            Err(e) => parse_identifier(text@, pos) == Err::<Seq<char>, ErrorKind>(e.kind_of()),
        },
{
    let s = chars_of(text);
    match scan_identifier_exec(&s, 0, pos) {
        Err(k) => Err(Error::new(k)),
        Ok(e) => {
            if e < s.len() {
                Err(Error::new(ErrorKind::IllegalCharacter(pos)))
            } else {
                Ok(String::from_str(text))
            }
        },
    }
}

/// `t` stands at index `i` of `s` and is followed there by the end of `s` or
/// by a character that can neither continue a segment nor start a new one.
pub open spec fn embedded_at(s: Seq<char>, i: int, t: Seq<char>) -> bool {
    &&& 0 <= i
    &&& i + t.len() <= s.len()
    &&& s.subrange(i, i + t.len()) == t
    &&& (i + t.len() == s.len() || (!is_ident_char(s[i + t.len()]) && s[i + t.len()] != '.'))
}

/// `r` with its index moved by `i`.
pub open spec fn shifted(r: Result<int, ErrorKind>, i: int) -> Result<int, ErrorKind> {
    match r {
        Ok(e) => Ok(e + i),
        Err(x) => Err(x),
    }
}

/// `t` is, on its own, an identifier for `pos`: the text that
/// `Prerelease::new` (for `Position::Pre`) or `BuildMetadata::new` (for
/// `Position::Build`) accepts.
pub open spec fn is_identifier(t: Seq<char>, pos: Position) -> bool {
    parse_identifier(t, pos) == Ok::<Seq<char>, ErrorKind>(t)
}

pub proof fn lemma_ident_end_shift(s: Seq<char>, i: int, t: Seq<char>, k: int)
    requires
        embedded_at(s, i, t),
        0 <= k <= t.len(),
    ensures
        ident_end(s, i + k) == i + ident_end(t, k),
        digits_end(s, i + k) == i + digits_end(t, k),
    decreases t.len() - k,
{
    if k < t.len() {
        assert(s[i + k] == s.subrange(i, i + t.len())[k]);
        lemma_ident_end_shift(s, i, t, k + 1);
    }
}

/// Scanning an identifier inside a longer input gives the same result as
/// scanning it on its own, moved by its offset.
pub proof fn lemma_scan_identifier_shift(s: Seq<char>, i: int, t: Seq<char>, k: int, pos: Position)
    requires
        embedded_at(s, i, t),
        0 <= k <= t.len(),
    ensures
        scan_identifier(s, i, i + k, pos) == shifted(scan_identifier(t, 0, k, pos), i),
    decreases t.len() - k,
{
    lemma_ident_end_shift(s, i, t, k);
    lemma_ident_end_bounds(t, k);
    let e = ident_end(t, k);
    if k < t.len() {
        assert(s[i + k] == s.subrange(i, i + t.len())[k]);
    }
    if e < t.len() {
        assert(s[i + e] == s.subrange(i, i + t.len())[e]);
    }
    if e > k && e < t.len() && t[e] == '.' {
        lemma_scan_identifier_shift(s, i, t, e + 1, pos);
    }
}

/// Where a successful scan stops, the input ends or holds a character that
/// neither continues a segment nor starts a new one.
pub proof fn lemma_scan_identifier_stop(s: Seq<char>, start: int, k: int, pos: Position)
    requires
        0 <= start <= k <= s.len(),
    ensures
        scan_identifier(s, start, k, pos) matches Ok(e) ==> {
            &&& start <= e <= s.len()
            &&& (e == s.len() || (!is_ident_char(s[e]) && s[e] != '.'))
        },
    decreases s.len() - k,
{
    lemma_ident_end_bounds(s, k);
    let e = ident_end(s, k);
    if e > k && e < s.len() && s[e] == '.' {
        lemma_scan_identifier_stop(s, start, e + 1, pos);
    }
}

/// What a scan at `i` accepts is an identifier on its own.
pub proof fn lemma_scanned_is_identifier(s: Seq<char>, i: int, pos: Position)
    requires
        0 <= i <= s.len(),
        scan_identifier(s, i, i, pos) is Ok,
    ensures
        is_identifier(s.subrange(i, scan_identifier(s, i, i, pos)->Ok_0), pos),
{
    lemma_scan_identifier_stop(s, i, i, pos);
    let e = scan_identifier(s, i, i, pos)->Ok_0;
    let t = s.subrange(i, e);
    assert(s.subrange(i, i + t.len()) =~= t);
    lemma_scan_identifier_shift(s, i, t, 0, pos);
}

/// An identifier embedded in a longer input is scanned to its end.
pub proof fn lemma_scan_embedded_identifier(s: Seq<char>, i: int, t: Seq<char>, pos: Position)
    requires
        embedded_at(s, i, t),
        is_identifier(t, pos),
    ensures
        scan_identifier(s, i, i, pos) == Ok::<int, ErrorKind>(i + t.len()),
{
    lemma_scan_identifier_stop(t, 0, 0, pos);
    lemma_scan_identifier_shift(s, i, t, 0, pos);
}

/// What a successful scan passes over is made of segment characters and dots.
proof fn lemma_scan_identifier_chars(s: Seq<char>, start: int, k: int, pos: Position)
    requires
        0 <= start <= k <= s.len(),
        scan_identifier(s, start, k, pos) is Ok,
    ensures
        forall|j: int|
            k <= j < scan_identifier(s, start, k, pos)->Ok_0 ==> is_ident_char(#[trigger] s[j]) || s[j]
                == '.',
    decreases s.len() - k,
{
    lemma_ident_end_bounds(s, k);
    let e = ident_end(s, k);
    if e > k && e < s.len() && s[e] == '.' {
        lemma_scan_identifier_chars(s, start, e + 1, pos);
    }
}

/// An identifier is made of ASCII alphanumerics, hyphens and dots only.
pub proof fn lemma_identifier_chars(t: Seq<char>, pos: Position)
    requires
        is_identifier(t, pos),
    ensures
        forall|j: int| 0 <= j < t.len() ==> is_ident_char(#[trigger] t[j]) || t[j] == '.',
{
    lemma_scan_identifier_stop(t, 0, 0, pos);
    lemma_scan_identifier_chars(t, 0, 0, pos);
}

/// The empty text is an identifier.
pub proof fn lemma_empty_is_identifier(pos: Position)
    ensures
        is_identifier(Seq::<char>::empty(), pos),
{
    assert(ident_end(Seq::<char>::empty(), 0) == 0);
}

// ---------------------------------------------------------------------------
// Precedence
// ---------------------------------------------------------------------------

/// Index of the first `.` at or after `k`, or the end of `s`.
pub open spec fn segment_end(s: Seq<char>, k: int) -> int
    decreases s.len() - k,
{
    if 0 <= k < s.len() && s[k] != '.' {
        segment_end(s, k + 1)
    } else {
        k
    }
}

/// The dot-separated segments of `s` from index `k` on.
pub open spec fn segments_from(s: Seq<char>, k: int) -> Seq<Seq<char>>
    decreases s.len() - k,
{
    let e = segment_end(s, k);
    if k <= e < s.len() {
        seq![s.subrange(k, e)] + segments_from(s, e + 1)
    } else {
        seq![s.subrange(k, e)]
    }
}

/// The dot-separated segments of `s` (one empty segment when `s` is empty).
pub open spec fn segments(s: Seq<char>) -> Seq<Seq<char>> {
    segments_from(s, 0)
}

/// Lexicographic order of character strings (a proper prefix comes first).
pub open spec fn compare_chars(a: Seq<char>, b: Seq<char>) -> Comparison
    decreases a.len(),
{
    if a.len() == 0 {
        if b.len() == 0 {
            Comparison::Equal
        } else {
            Comparison::Less
        }
    } else if b.len() == 0 {
        Comparison::Greater
    } else if a[0] < b[0] {
        Comparison::Less
    } else if b[0] < a[0] {
        Comparison::Greater
    } else {
        compare_chars(a.drop_first(), b.drop_first())
    }
}

/// Number of leading `0` characters.
pub open spec fn leading_zeros(d: Seq<char>) -> nat
    decreases d.len(),
{
    if d.len() > 0 && d[0] == '0' {
        1 + leading_zeros(d.drop_first())
    } else {
        0
    }
}

/// Order of two pre-release segments: numeric segments compare numerically
/// (by length, then by digits, as they carry no leading zeros) and come
/// before alphanumeric ones, which compare in ASCII order.
pub open spec fn compare_pre_segment(a: Seq<char>, b: Seq<char>) -> Comparison {
    if all_digits(a) && all_digits(b) {
        if a.len() != b.len() {
            compare_int(a.len() as int, b.len() as int)
        } else {
            compare_chars(a, b)
        }
    } else if all_digits(a) {
        Comparison::Less
    } else if all_digits(b) {
        Comparison::Greater
    } else {
        compare_chars(a, b)
    }
}

/// Order of two build-metadata segments: as for pre-release segments, except
/// that numeric segments compare by value first and, for equal values, the
/// one with fewer leading zeros comes first (0 < 00 < 1 < 01).
pub open spec fn compare_build_segment(a: Seq<char>, b: Seq<char>) -> Comparison {
    if all_digits(a) && all_digits(b) {
        let av = a.skip(leading_zeros(a) as int);
        let bv = b.skip(leading_zeros(b) as int);
        if av.len() != bv.len() {
            compare_int(av.len() as int, bv.len() as int)
        } else if compare_chars(av, bv) != Comparison::Equal {
            compare_chars(av, bv)
        } else {
            compare_int(a.len() as int, b.len() as int)
        }
    } else if all_digits(a) {
        Comparison::Less
    } else if all_digits(b) {
        Comparison::Greater
    } else {
        compare_chars(a, b)
    }
}

pub open spec fn pre_segment_order() -> spec_fn(Seq<char>, Seq<char>) -> Comparison {
    |a: Seq<char>, b: Seq<char>| compare_pre_segment(a, b)
}

pub open spec fn build_segment_order() -> spec_fn(Seq<char>, Seq<char>) -> Comparison {
    |a: Seq<char>, b: Seq<char>| compare_build_segment(a, b)
}

/// Lexicographic order of segment lists under the segment order `seg`; when
/// one list is a prefix of the other, the longer list is greater.
pub open spec fn compare_segment_lists(
    a: Seq<Seq<char>>,
    b: Seq<Seq<char>>,
    seg: spec_fn(Seq<char>, Seq<char>) -> Comparison,
) -> Comparison
    decreases a.len(),
{
    if a.len() == 0 {
        if b.len() == 0 {
            Comparison::Equal
        } else {
            Comparison::Less
        }
    } else if b.len() == 0 {
        Comparison::Greater
    } else if seg(a[0], b[0]) != Comparison::Equal {
        seg(a[0], b[0])
    } else {
        compare_segment_lists(a.drop_first(), b.drop_first(), seg)
    }
}

/// Precedence of pre-release identifiers. The empty identifier (a release)
/// is greater than every non-empty one.
pub open spec fn compare_prerelease(a: Seq<char>, b: Seq<char>) -> Comparison {
    if a.len() == 0 && b.len() == 0 {
        Comparison::Equal
    } else if a.len() == 0 {
        Comparison::Greater
    } else if b.len() == 0 {
        Comparison::Less
    } else {
        compare_segment_lists(segments(a), segments(b), pre_segment_order())
    }
}

/// Order of build metadata.
pub open spec fn compare_build(a: Seq<char>, b: Seq<char>) -> Comparison {
    compare_segment_lists(segments(a), segments(b), build_segment_order())
}

pub proof fn lemma_segment_end_bounds(s: Seq<char>, k: int)
    requires
        0 <= k <= s.len(),
    ensures
        k <= segment_end(s, k) <= s.len(),
        forall|i: int| k <= i < segment_end(s, k) ==> #[trigger] s[i] != '.',
        segment_end(s, k) < s.len() ==> s[segment_end(s, k)] == '.',
    decreases s.len() - k,
{
    if k < s.len() && s[k] != '.' {
        lemma_segment_end_bounds(s, k + 1);
    }
}

fn find_segment_end(s: &Vec<char>, k: usize) -> (e: usize)
    requires
        k <= s.len(),
    ensures
        e == segment_end(s@, k as int),
        k <= e <= s.len(),
{
    proof {
        lemma_segment_end_bounds(s@, k as int);
    }
    let mut e = k;
    while e < s.len() && s[e] != '.'
        invariant
            k <= e <= s.len(),
            segment_end(s@, k as int) == segment_end(s@, e as int),
        decreases s.len() - e,
    {
        e = e + 1;
    }
    e
}

fn range_chars_compare(a: &Vec<char>, a0: usize, a1: usize, b: &Vec<char>, b0: usize, b1: usize) -> (r: Comparison)
    requires
        a0 <= a1 <= a.len(),
        b0 <= b1 <= b.len(),
    ensures
        r == compare_chars(a@.subrange(a0 as int, a1 as int), b@.subrange(b0 as int, b1 as int)),
{
    let mut i = a0;
    let mut j = b0;
    loop
        invariant
            a0 <= i <= a1 <= a.len(),
            b0 <= j <= b1 <= b.len(),
            compare_chars(a@.subrange(a0 as int, a1 as int), b@.subrange(b0 as int, b1 as int))
                == compare_chars(a@.subrange(i as int, a1 as int), b@.subrange(j as int, b1 as int)),
        decreases a1 - i,
    {
        if i == a1 {
            if j == b1 {
                return Comparison::Equal;
            } else {
                return Comparison::Less;
            }
        }
        if j == b1 {
            return Comparison::Greater;
        }
        if a[i] < b[j] {
            return Comparison::Less;
        }
        if b[j] < a[i] {
            return Comparison::Greater;
        }
        proof {
            assert(a@.subrange(i as int, a1 as int).drop_first() =~= a@.subrange(i + 1, a1 as int));
            assert(b@.subrange(j as int, b1 as int).drop_first() =~= b@.subrange(j + 1, b1 as int));
        }
        i = i + 1;
        j = j + 1;
    }
}

fn range_all_digits(a: &Vec<char>, a0: usize, a1: usize) -> (r: bool)
    requires
        a0 <= a1 <= a.len(),
    ensures
        r == all_digits(a@.subrange(a0 as int, a1 as int)),
{
    let mut i = a0;
    while i < a1
        invariant
            a0 <= i <= a1 <= a.len(),
            forall|k: int| a0 <= k < i ==> is_digit(#[trigger] a@[k]),
        decreases a1 - i,
    {
        if !('0' <= a[i] && a[i] <= '9') {
            proof {
                let d = a@.subrange(a0 as int, a1 as int);
                assert(!is_digit(d[i - a0]));
            }
            return false;
        }
        i = i + 1;
    }
    proof {
        let d = a@.subrange(a0 as int, a1 as int);
        assert forall|k: int| 0 <= k < d.len() implies is_digit(#[trigger] d[k]) by {
            assert(d[k] == a@[a0 + k]);
        }
    }
    true
}

/// Index of the first non-`0` character in `a[a0..a1]`, or `a1`.
fn range_zeros_end(a: &Vec<char>, a0: usize, a1: usize) -> (z: usize)
    requires
        a0 <= a1 <= a.len(),
    ensures
        a0 <= z <= a1,
        z - a0 == leading_zeros(a@.subrange(a0 as int, a1 as int)),
{
    let mut z = a0;
    while z < a1 && a[z] == '0'
        invariant
            a0 <= z <= a1 <= a.len(),
            leading_zeros(a@.subrange(a0 as int, a1 as int)) == (z - a0) + leading_zeros(
                a@.subrange(z as int, a1 as int),
            ),
        decreases a1 - z,
    {
        proof {
            assert(a@.subrange(z as int, a1 as int).drop_first() =~= a@.subrange(z + 1, a1 as int));
        }
        z = z + 1;
    }
    z
}

fn range_pre_segment_compare(a: &Vec<char>, a0: usize, a1: usize, b: &Vec<char>, b0: usize, b1: usize) -> (r: Comparison)
    requires
        a0 <= a1 <= a.len(),
        b0 <= b1 <= b.len(),
    ensures
        r == compare_pre_segment(a@.subrange(a0 as int, a1 as int), b@.subrange(b0 as int, b1 as int)),
{
    let da = range_all_digits(a, a0, a1);
    let db = range_all_digits(b, b0, b1);
    if da && db {
        if a1 - a0 != b1 - b0 {
            compare_usize(a1 - a0, b1 - b0)
        } else {
            range_chars_compare(a, a0, a1, b, b0, b1)
        }
    } else if da {
        Comparison::Less
    } else if db {
        Comparison::Greater
    } else {
        range_chars_compare(a, a0, a1, b, b0, b1)
    }
}

fn range_build_segment_compare(a: &Vec<char>, a0: usize, a1: usize, b: &Vec<char>, b0: usize, b1: usize) -> (r: Comparison)
    requires
        a0 <= a1 <= a.len(),
        b0 <= b1 <= b.len(),
    ensures
        r == compare_build_segment(a@.subrange(a0 as int, a1 as int), b@.subrange(b0 as int, b1 as int)),
{
    let da = range_all_digits(a, a0, a1);
    let db = range_all_digits(b, b0, b1);
    if da && db {
        let za = range_zeros_end(a, a0, a1);
        let zb = range_zeros_end(b, b0, b1);
        proof {
            assert(a@.subrange(a0 as int, a1 as int).skip(za - a0) =~= a@.subrange(za as int, a1 as int));
            assert(b@.subrange(b0 as int, b1 as int).skip(zb - b0) =~= b@.subrange(zb as int, b1 as int));
        }
        if a1 - za != b1 - zb {
            compare_usize(a1 - za, b1 - zb)
        } else {
            let c = range_chars_compare(a, za, a1, b, zb, b1);
            if c != Comparison::Equal {
                c
            } else {
                compare_usize(a1 - a0, b1 - b0)
            }
        }
    } else if da {
        Comparison::Less
    } else if db {
        Comparison::Greater
    } else {
        range_chars_compare(a, a0, a1, b, b0, b1)
    }
}

/// Compares two identifiers segment by segment.
fn compare_identifier_chars(a: &Vec<char>, b: &Vec<char>, build: bool) -> (r: Comparison)
    ensures
        r == compare_segment_lists(
            segments(a@),
            segments(b@),
            if build {
                build_segment_order()
            } else {
                pre_segment_order()
            },
        ),
{
    let ghost seg = if build {
        build_segment_order()
    } else {
        pre_segment_order()
    };
    let mut i: usize = 0;
    let mut j: usize = 0;
    loop
        invariant
            i <= a.len(),
            j <= b.len(),
            seg == (if build {
                build_segment_order()
            } else {
                pre_segment_order()
            }),
            compare_segment_lists(segments(a@), segments(b@), seg) == compare_segment_lists(
                segments_from(a@, i as int),
                segments_from(b@, j as int),
                seg,
            ),
        decreases a.len() - i,
    {
        let ea = find_segment_end(a, i);
        let eb = find_segment_end(b, j);
        let c = if build {
            range_build_segment_compare(a, i, ea, b, j, eb)
        } else {
            range_pre_segment_compare(a, i, ea, b, j, eb)
        };
        let ghost la = segments_from(a@, i as int);
        let ghost lb = segments_from(b@, j as int);
        proof {
            assert(la[0] == a@.subrange(i as int, ea as int));
            assert(lb[0] == b@.subrange(j as int, eb as int));
            assert(seg(la[0], lb[0]) == c);
        }
        if c != Comparison::Equal {
            return c;
        }
        if ea < a.len() {
            if eb < b.len() {
                proof {
                    assert(la.drop_first() =~= segments_from(a@, ea + 1));
                    assert(lb.drop_first() =~= segments_from(b@, eb + 1));
                }
                i = ea + 1;
                j = eb + 1;
            } else {
                proof {
                    assert(lb.drop_first().len() == 0);
                    assert(la.drop_first() =~= segments_from(a@, ea + 1));
                    assert(segments_from(a@, ea + 1).len() >= 1);
                    assert(compare_segment_lists(la.drop_first(), lb.drop_first(), seg)
                        == Comparison::Greater);
                }
                return Comparison::Greater;
            }
        } else {
            proof {
                assert(la.drop_first().len() == 0);
            }
            if eb < b.len() {
                proof {
                    assert(lb.drop_first() =~= segments_from(b@, eb + 1));
                    assert(segments_from(b@, eb + 1).len() >= 1);
                    assert(compare_segment_lists(la.drop_first(), lb.drop_first(), seg)
                        == Comparison::Less);
                }
                return Comparison::Less;
            } else {
                proof {
                    assert(lb.drop_first().len() == 0);
                    assert(compare_segment_lists(la.drop_first(), lb.drop_first(), seg)
                        == Comparison::Equal);
                }
                return Comparison::Equal;
            }
        }
    }
}

// ---------------------------------------------------------------------------
// The identifier types
// ---------------------------------------------------------------------------

/// Optional pre-release identifier of a version, such as `alpha.1`. Its text
/// is always a valid pre-release identifier (possibly empty).
#[derive(Debug, Hash)]
pub struct Prerelease {
    identifier: String,
}

/// Optional build metadata of a version, such as `build.42`. Its text is
/// always valid build metadata (possibly empty).
#[derive(Debug, Hash)]
pub struct BuildMetadata {
    identifier: String,
}

impl View for Prerelease {
    type V = Seq<char>;

    closed spec fn view(&self) -> Seq<char> {
        self.identifier@
    }
}

impl View for BuildMetadata {
    type V = Seq<char>;

    closed spec fn view(&self) -> Seq<char> {
        self.identifier@
    }
}

impl Prerelease {
    /// The text is always a valid identifier.
    #[verifier::type_invariant]
    spec fn text_is_identifier(self) -> bool {
        is_identifier(self.identifier@, Position::Pre)
    }

    /// Parses a pre-release identifier (without the leading `-`).
    pub fn new(text: &str) -> (r: Result<Prerelease, Error>)
        ensures
            match r {
                Ok(p) => parse_identifier(text@, Position::Pre) == Ok::<Seq<char>, ErrorKind>(p@),
                Err(e) => parse_identifier(text@, Position::Pre) == Err::<Seq<char>, ErrorKind>(
                    e.kind_of(),
                ),
            },
    {
        match parse_identifier_exec(text, Position::Pre) {
            Ok(t) => {
                assert(is_identifier(t@, Position::Pre));
                Ok(Prerelease { identifier: t })
            },
            Err(e) => Err(e),
        }
    }

    /// The empty pre-release identifier, which a release version carries.
    pub fn empty() -> (p: Prerelease)
        ensures
            p@ == Seq::<char>::empty(),
    {
        proof {
            lemma_empty_is_identifier(Position::Pre);
        }
        let t = String::new();
        assert(t@ =~= Seq::<char>::empty());
        Prerelease { identifier: t }
    }

    pub(crate) fn from_range(s: &Vec<char>, from: usize, to: usize) -> (p: Prerelease)
        requires
            from <= to <= s.len(),
            is_identifier(s@.subrange(from as int, to as int), Position::Pre),
        ensures
            p@ == s@.subrange(from as int, to as int),
    {
        Prerelease { identifier: string_from_range(s, from, to) }
    }

    /// The text, which is always a valid identifier.
    pub fn as_str(&self) -> (r: &str)
        ensures
            r@ == self@,
            is_identifier(self@, Position::Pre),
    {
        proof {
            use_type_invariant(self);
        }
        self.identifier.as_str()
    }

    pub fn is_empty(&self) -> (r: bool)
        ensures
            r == (self@.len() == 0),
    {
        self.identifier.as_str().is_empty()
    }

    /// The identifier's text, as written.
    pub fn to_string(&self) -> (r: String)
        ensures
            r@ == self@,
    {
        String::from_str(self.identifier.as_str())
    }

    /// Precedence comparison.
    pub fn compare(&self, other: &Prerelease) -> (r: Comparison)
        ensures
            r == compare_prerelease(self@, other@),
    {
        let a = string_chars(&self.identifier);
        let b = string_chars(&other.identifier);
        if a.len() == 0 && b.len() == 0 {
            Comparison::Equal
        } else if a.len() == 0 {
            Comparison::Greater
        } else if b.len() == 0 {
            Comparison::Less
        } else {
            compare_identifier_chars(&a, &b, false)
        }
    }

    /// Precedence comparison, as a std `Ordering`.
    pub fn cmp(&self, other: &Prerelease) -> (r: Ordering)
        ensures
            r == ordering_of(compare_prerelease(self@, other@)),
    {
        to_ordering(self.compare(other))
    }
}

impl BuildMetadata {
    /// The text is always a valid identifier.
    #[verifier::type_invariant]
    spec fn text_is_identifier(self) -> bool {
        is_identifier(self.identifier@, Position::Build)
    }

    /// Parses build metadata (without the leading `+`).
    pub fn new(text: &str) -> (r: Result<BuildMetadata, Error>)
        ensures
            match r {
                Ok(b) => parse_identifier(text@, Position::Build) == Ok::<Seq<char>, ErrorKind>(b@),
                Err(e) => parse_identifier(text@, Position::Build) == Err::<Seq<char>, ErrorKind>(
                    e.kind_of(),
                ),
            },
    {
        match parse_identifier_exec(text, Position::Build) {
            Ok(t) => {
                assert(is_identifier(t@, Position::Build));
                Ok(BuildMetadata { identifier: t })
            },
            Err(e) => Err(e),
        }
    }

    /// Empty build metadata.
    pub fn empty() -> (b: BuildMetadata)
        ensures
            b@ == Seq::<char>::empty(),
    {
        proof {
            lemma_empty_is_identifier(Position::Build);
        }
        let t = String::new();
        assert(t@ =~= Seq::<char>::empty());
        BuildMetadata { identifier: t }
    }

    pub(crate) fn from_range(s: &Vec<char>, from: usize, to: usize) -> (b: BuildMetadata)
        requires
            from <= to <= s.len(),
            is_identifier(s@.subrange(from as int, to as int), Position::Build),
        ensures
            b@ == s@.subrange(from as int, to as int),
    {
        BuildMetadata { identifier: string_from_range(s, from, to) }
    }

    /// The text, which is always a valid identifier.
    pub fn as_str(&self) -> (r: &str)
        ensures
            r@ == self@,
            is_identifier(self@, Position::Build),
    {
        proof {
            use_type_invariant(self);
        }
        self.identifier.as_str()
    }

    pub fn is_empty(&self) -> (r: bool)
        ensures
            r == (self@.len() == 0),
    {
        self.identifier.as_str().is_empty()
    }

    /// The metadata's text, as written.
    pub fn to_string(&self) -> (r: String)
        ensures
            r@ == self@,
    {
        String::from_str(self.identifier.as_str())
    }

    /// Order of build metadata.
    pub fn compare(&self, other: &BuildMetadata) -> (r: Comparison)
        ensures
            r == compare_build(self@, other@),
    {
        let a = string_chars(&self.identifier);
        let b = string_chars(&other.identifier);
        compare_identifier_chars(&a, &b, true)
    }

    /// Order of build metadata, as a std `Ordering`.
    pub fn cmp(&self, other: &BuildMetadata) -> (r: Ordering)
        ensures
            r == ordering_of(compare_build(self@, other@)),
    {
        to_ordering(self.compare(other))
    }
}

impl Clone for Prerelease {
    fn clone(&self) -> (r: Self)
        ensures
            r@ == self@,
    {
        proof {
            use_type_invariant(self);
        }
        Prerelease { identifier: self.identifier.clone() }
    }
}

impl PartialEq for Prerelease {
    fn eq(&self, other: &Self) -> (r: bool) {
        self.identifier == other.identifier
    }
}

impl Eq for Prerelease {}

impl vstd::std_specs::cmp::PartialEqSpecImpl for Prerelease {
    open spec fn obeys_eq_spec() -> bool {
        true
    }

    open spec fn eq_spec(&self, other: &Prerelease) -> bool {
        self@ == other@
    }
}

impl PartialOrd for Prerelease {
    fn partial_cmp(&self, other: &Self) -> (r: Option<Ordering>) {
        Some(self.cmp(other))
    }
}

impl vstd::std_specs::cmp::PartialOrdSpecImpl for Prerelease {
    open spec fn obeys_partial_cmp_spec() -> bool {
        true
    }

    open spec fn partial_cmp_spec(&self, other: &Prerelease) -> Option<Ordering> {
        Some(ordering_of(compare_prerelease(self@, other@)))
    }
}

impl Clone for BuildMetadata {
    fn clone(&self) -> (r: Self)
        ensures
            r@ == self@,
    {
        proof {
            use_type_invariant(self);
        }
        BuildMetadata { identifier: self.identifier.clone() }
    }
}

impl PartialEq for BuildMetadata {
    fn eq(&self, other: &Self) -> (r: bool) {
        self.identifier == other.identifier
    }
}

impl Eq for BuildMetadata {}

impl vstd::std_specs::cmp::PartialEqSpecImpl for BuildMetadata {
    open spec fn obeys_eq_spec() -> bool {
        true
    }

    open spec fn eq_spec(&self, other: &BuildMetadata) -> bool {
        self@ == other@
    }
}

impl PartialOrd for BuildMetadata {
    fn partial_cmp(&self, other: &Self) -> (r: Option<Ordering>) {
        Some(self.cmp(other))
    }
}

impl vstd::std_specs::cmp::PartialOrdSpecImpl for BuildMetadata {
    open spec fn obeys_partial_cmp_spec() -> bool {
        true
    }

    open spec fn partial_cmp_spec(&self, other: &BuildMetadata) -> Option<Ordering> {
        Some(ordering_of(compare_build(self@, other@)))
    }
}

impl Default for Prerelease {
    /// The empty pre-release identifier.
    fn default() -> (p: Prerelease)
        ensures
            p@ == Seq::<char>::empty(),
    {
        Prerelease::empty()
    }
}

impl Default for BuildMetadata {
    /// Empty build metadata.
    fn default() -> (b: BuildMetadata)
        ensures
            b@ == Seq::<char>::empty(),
    {
        BuildMetadata::empty()
    }
}

impl std::str::FromStr for Prerelease {
    type Err = Error;

    fn from_str(text: &str) -> (r: Result<Prerelease, Error>)
        ensures
            match r {
                Ok(p) => parse_identifier(text@, Position::Pre) == Ok::<Seq<char>, ErrorKind>(p@),
                Err(e) => parse_identifier(text@, Position::Pre) == Err::<Seq<char>, ErrorKind>(
                    e.kind_of(),
                ),
            },
    {
        Prerelease::new(text)
    }
}

impl std::str::FromStr for BuildMetadata {
    type Err = Error;

    fn from_str(text: &str) -> (r: Result<BuildMetadata, Error>)
        ensures
            match r {
                Ok(p) => parse_identifier(text@, Position::Build) == Ok::<Seq<char>, ErrorKind>(p@),
                Err(e) => parse_identifier(text@, Position::Build) == Err::<Seq<char>, ErrorKind>(
                    e.kind_of(),
                ),
            },
    {
        BuildMetadata::new(text)
    }
}

} // verus!
