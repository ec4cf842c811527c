//! Order properties of precedence and of the total order of versions.

use vstd::prelude::*;
use crate::chars::{all_digits, digit_char, is_digit, lemma_digit_char, lemma_nat_text, nat_text};
use crate::identifier::{
    build_segment_order, compare_build, compare_build_segment, compare_chars, compare_pre_segment,
    compare_prerelease, compare_segment_lists, leading_zeros, lemma_segment_end_bounds,
    pre_segment_order, segment_end, segments, segments_from,
};
use crate::match_laws::with_build;
use crate::order::{Comparison, compare_int, ordering_of};
use std::cmp::Ordering;
use crate::version::{VersionModel, compare_precedence, compare_version};

verus! {

/// `seg` is a total order: swapping the operands reverses the outcome, only
/// equal values compare equal, and `Less` is transitive.
pub open spec fn is_total_order(seg: spec_fn(Seq<char>, Seq<char>) -> Comparison) -> bool {
    &&& forall|x: Seq<char>, y: Seq<char>| #[trigger] seg(x, y) == seg(y, x).reversed()
    &&& forall|x: Seq<char>, y: Seq<char>| (#[trigger] seg(x, y) == Comparison::Equal) == (x == y)
    &&& forall|x: Seq<char>, y: Seq<char>, z: Seq<char>|
        #![trigger seg(x, y), seg(y, z)]
        seg(x, y) == Comparison::Less && seg(y, z) == Comparison::Less ==> seg(x, z) == Comparison::Less
}

// ---------------------------------------------------------------------------
// Character strings
// ---------------------------------------------------------------------------

proof fn lemma_compare_chars_reverse(a: Seq<char>, b: Seq<char>)
    ensures
        compare_chars(b, a) == compare_chars(a, b).reversed(),
    decreases a.len(),
{
    if a.len() > 0 && b.len() > 0 && a[0] == b[0] {
        lemma_compare_chars_reverse(a.drop_first(), b.drop_first());
    }
}

proof fn lemma_compare_chars_equal(a: Seq<char>, b: Seq<char>)
    ensures
        (compare_chars(a, b) == Comparison::Equal) == (a == b),
    decreases a.len(),
{
    if a.len() == 0 && b.len() == 0 {
        assert(a =~= b);
    } else if a.len() > 0 && b.len() > 0 && a[0] == b[0] {
        lemma_compare_chars_equal(a.drop_first(), b.drop_first());
        if a.drop_first() == b.drop_first() {
            assert(a =~= seq![a[0]] + a.drop_first());
            assert(b =~= seq![b[0]] + b.drop_first());
        }
    }
}

proof fn lemma_compare_chars_trans(a: Seq<char>, b: Seq<char>, c: Seq<char>)
    requires
        compare_chars(a, b) == Comparison::Less,
        compare_chars(b, c) == Comparison::Less,
    ensures
        compare_chars(a, c) == Comparison::Less,
    decreases a.len(),
{
    if a.len() > 0 && b.len() > 0 && c.len() > 0 && a[0] == b[0] && b[0] == c[0] {
        lemma_compare_chars_trans(a.drop_first(), b.drop_first(), c.drop_first());
    }
}

proof fn lemma_compare_int(m: int, n: int, k: int)
    ensures
        compare_int(n, m) == compare_int(m, n).reversed(),
        (compare_int(m, n) == Comparison::Equal) == (m == n),
        compare_int(m, n) == Comparison::Less && compare_int(n, k) == Comparison::Less ==> compare_int(
            m,
            k,
        ) == Comparison::Less,
{
}

// ---------------------------------------------------------------------------
// Segment lists
// ---------------------------------------------------------------------------

proof fn lemma_lists_reverse(a: Seq<Seq<char>>, b: Seq<Seq<char>>, seg: spec_fn(Seq<char>, Seq<char>) -> Comparison)
    requires
        is_total_order(seg),
    ensures
        compare_segment_lists(b, a, seg) == compare_segment_lists(a, b, seg).reversed(),
    decreases a.len(),
{
    if a.len() > 0 && b.len() > 0 {
        assert(seg(a[0], b[0]) == seg(b[0], a[0]).reversed());
        lemma_lists_reverse(a.drop_first(), b.drop_first(), seg);
    }
}

proof fn lemma_lists_equal(a: Seq<Seq<char>>, b: Seq<Seq<char>>, seg: spec_fn(Seq<char>, Seq<char>) -> Comparison)
    requires
        is_total_order(seg),
    ensures
        (compare_segment_lists(a, b, seg) == Comparison::Equal) == (a == b),
    decreases a.len(),
{
    if a.len() == 0 && b.len() == 0 {
        assert(a =~= b);
    } else if a.len() > 0 && b.len() > 0 {
        assert((seg(a[0], b[0]) == Comparison::Equal) == (a[0] == b[0]));
        lemma_lists_equal(a.drop_first(), b.drop_first(), seg);
        if a[0] == b[0] && a.drop_first() == b.drop_first() {
            assert(a =~= seq![a[0]] + a.drop_first());
            assert(b =~= seq![b[0]] + b.drop_first());
        }
        if a == b {
            assert(a.drop_first() == b.drop_first());
        }
    }
}

proof fn lemma_lists_trans(
    a: Seq<Seq<char>>,
    b: Seq<Seq<char>>,
    c: Seq<Seq<char>>,
    seg: spec_fn(Seq<char>, Seq<char>) -> Comparison,
)
    requires
        is_total_order(seg),
        compare_segment_lists(a, b, seg) == Comparison::Less,
        compare_segment_lists(b, c, seg) == Comparison::Less,
    ensures
        compare_segment_lists(a, c, seg) == Comparison::Less,
    decreases a.len(),
{
    if a.len() > 0 && b.len() > 0 && c.len() > 0 {
        let sab = seg(a[0], b[0]);
        let sbc = seg(b[0], c[0]);
        assert((sab == Comparison::Equal) == (a[0] == b[0]));
        assert((sbc == Comparison::Equal) == (b[0] == c[0]));
        if sab == Comparison::Less && sbc == Comparison::Less {
            assert(seg(a[0], c[0]) == Comparison::Less);
        } else if sab == Comparison::Equal && sbc == Comparison::Equal {
            lemma_lists_trans(a.drop_first(), b.drop_first(), c.drop_first(), seg);
        }
    }
}

// ---------------------------------------------------------------------------
// Segments
// ---------------------------------------------------------------------------

proof fn lemma_pre_segment(a: Seq<char>, b: Seq<char>, c: Seq<char>)
    ensures
        compare_pre_segment(b, a) == compare_pre_segment(a, b).reversed(),
        (compare_pre_segment(a, b) == Comparison::Equal) == (a == b),
        compare_pre_segment(a, b) == Comparison::Less && compare_pre_segment(b, c) == Comparison::Less
            ==> compare_pre_segment(a, c) == Comparison::Less,
{
    lemma_compare_chars_reverse(a, b);
    lemma_compare_chars_equal(a, b);
    lemma_compare_chars_equal(b, c);
    lemma_compare_chars_equal(a, c);
    lemma_compare_int(a.len() as int, b.len() as int, c.len() as int);
    if compare_pre_segment(a, b) == Comparison::Less && compare_pre_segment(b, c) == Comparison::Less {
        if compare_chars(a, b) == Comparison::Less && compare_chars(b, c) == Comparison::Less {
            lemma_compare_chars_trans(a, b, c);
        }
    }
}

proof fn lemma_leading_zeros(d: Seq<char>)
    ensures
        leading_zeros(d) <= d.len(),
        forall|k: int| 0 <= k < leading_zeros(d) ==> d[k] == '0',
    decreases d.len(),
{
    if d.len() > 0 && d[0] == '0' {
        lemma_leading_zeros(d.drop_first());
        assert forall|k: int| 0 <= k < leading_zeros(d) implies d[k] == '0' by {
            if k > 0 {
                assert(d[k] == d.drop_first()[k - 1]);
            }
        }
    }
}

proof fn lemma_build_segment(a: Seq<char>, b: Seq<char>, c: Seq<char>)
    ensures
        compare_build_segment(b, a) == compare_build_segment(a, b).reversed(),
        (compare_build_segment(a, b) == Comparison::Equal) == (a == b),
        compare_build_segment(a, b) == Comparison::Less && compare_build_segment(b, c) == Comparison::Less
            ==> compare_build_segment(a, c) == Comparison::Less,
{
    lemma_compare_chars_reverse(a, b);
    lemma_compare_chars_equal(a, b);
    lemma_compare_chars_equal(b, c);
    lemma_compare_chars_equal(a, c);
    lemma_leading_zeros(a);
    lemma_leading_zeros(b);
    lemma_leading_zeros(c);
    let av = a.skip(leading_zeros(a) as int);
    let bv = b.skip(leading_zeros(b) as int);
    let cv = c.skip(leading_zeros(c) as int);
    lemma_compare_chars_reverse(av, bv);
    lemma_compare_chars_equal(av, bv);
    lemma_compare_chars_equal(bv, cv);
    lemma_compare_chars_equal(av, cv);
    lemma_compare_int(a.len() as int, b.len() as int, c.len() as int);
    lemma_compare_int(av.len() as int, bv.len() as int, cv.len() as int);
    if all_digits(a) && all_digits(b) && av.len() == bv.len() && av == bv && a.len() == b.len() {
        assert forall|k: int| 0 <= k < a.len() implies a[k] == b[k] by {
            if k >= leading_zeros(a) {
                assert(a[k] == av[k - leading_zeros(a)]);
                assert(b[k] == bv[k - leading_zeros(b)]);
            }
        }
        assert(a =~= b);
    }
    if compare_build_segment(a, b) == Comparison::Less && compare_build_segment(b, c) == Comparison::Less {
        if compare_chars(a, b) == Comparison::Less && compare_chars(b, c) == Comparison::Less {
            lemma_compare_chars_trans(a, b, c);
        }
        if compare_chars(av, bv) == Comparison::Less && compare_chars(bv, cv) == Comparison::Less {
            lemma_compare_chars_trans(av, bv, cv);
        }
    }
}

proof fn lemma_pre_segment_order_total()
    ensures
        is_total_order(pre_segment_order()),
{
    let seg = pre_segment_order();
    assert forall|x: Seq<char>, y: Seq<char>| #[trigger] seg(x, y) == seg(y, x).reversed() by {
        lemma_pre_segment(y, x, x);
    }
    assert forall|x: Seq<char>, y: Seq<char>| (#[trigger] seg(x, y) == Comparison::Equal) == (x == y) by {
        lemma_pre_segment(x, y, y);
    }
    assert forall|x: Seq<char>, y: Seq<char>, z: Seq<char>|
        #![trigger seg(x, y), seg(y, z)]
        seg(x, y) == Comparison::Less && seg(y, z) == Comparison::Less implies seg(x, z)
            == Comparison::Less by {
        lemma_pre_segment(x, y, z);
    }
}

proof fn lemma_build_segment_order_total()
    ensures
        is_total_order(build_segment_order()),
{
    let seg = build_segment_order();
    assert forall|x: Seq<char>, y: Seq<char>| #[trigger] seg(x, y) == seg(y, x).reversed() by {
        lemma_build_segment(y, x, x);
    }
    assert forall|x: Seq<char>, y: Seq<char>| (#[trigger] seg(x, y) == Comparison::Equal) == (x == y) by {
        lemma_build_segment(x, y, y);
    }
    assert forall|x: Seq<char>, y: Seq<char>, z: Seq<char>|
        #![trigger seg(x, y), seg(y, z)]
        seg(x, y) == Comparison::Less && seg(y, z) == Comparison::Less implies seg(x, z)
            == Comparison::Less by {
        lemma_build_segment(x, y, z);
    }
}

// ---------------------------------------------------------------------------
// Splitting at dots loses nothing
// ---------------------------------------------------------------------------

proof fn lemma_segments_from_len(s: Seq<char>, k: int)
    requires
        0 <= k <= s.len(),
    ensures
        segments_from(s, k).len() >= 1,
        (segments_from(s, k).len() == 1) == (segment_end(s, k) == s.len()),
        segments_from(s, k)[0] == s.subrange(k, segment_end(s, k)),
        segment_end(s, k) < s.len() ==> segments_from(s, k).drop_first() == segments_from(s, segment_end(s, k) + 1),
{
    lemma_segment_end_bounds(s, k);
    let e = segment_end(s, k);
    if e < s.len() {
        assert(segments_from(s, e + 1).len() >= 1);
        assert(segments_from(s, k).drop_first() =~= segments_from(s, e + 1));
    }
}

proof fn lemma_segments_injective(s1: Seq<char>, k1: int, s2: Seq<char>, k2: int)
    requires
        0 <= k1 <= s1.len(),
        0 <= k2 <= s2.len(),
        segments_from(s1, k1) == segments_from(s2, k2),
    ensures
        s1.subrange(k1, s1.len() as int) == s2.subrange(k2, s2.len() as int),
    decreases s1.len() - k1,
{
    lemma_segments_from_len(s1, k1);
    lemma_segments_from_len(s2, k2);
    lemma_segment_end_bounds(s1, k1);
    lemma_segment_end_bounds(s2, k2);
    let e1 = segment_end(s1, k1);
    let e2 = segment_end(s2, k2);
    let x = s1.subrange(k1, e1);
    assert(x == s2.subrange(k2, e2));
    if e1 < s1.len() {
        assert(e2 < s2.len());
        lemma_segments_injective(s1, e1 + 1, s2, e2 + 1);
        assert(s1.subrange(k1, s1.len() as int) =~= x + seq!['.'] + s1.subrange(e1 + 1, s1.len() as int));
        assert(s2.subrange(k2, s2.len() as int) =~= x + seq!['.'] + s2.subrange(e2 + 1, s2.len() as int));
    } else {
        assert(e2 == s2.len());
    }
}

proof fn lemma_segments_equal(a: Seq<char>, b: Seq<char>)
    requires
        segments(a) == segments(b),
    ensures
        a == b,
{
    lemma_segments_injective(a, 0, b, 0);
    assert(a.subrange(0, a.len() as int) =~= a);
    assert(b.subrange(0, b.len() as int) =~= b);
}

// ---------------------------------------------------------------------------
// Laws
// ---------------------------------------------------------------------------

/// Precedence of pre-release identifiers is a total order: swapping the
/// operands reverses the outcome, only identical identifiers compare equal,
/// and `Less` is transitive.
pub proof fn law_prerelease_total_order(a: Seq<char>, b: Seq<char>, c: Seq<char>)
    ensures
        compare_prerelease(b, a) == compare_prerelease(a, b).reversed(),
        (compare_prerelease(a, b) == Comparison::Equal) == (a == b),
        compare_prerelease(a, b) == Comparison::Less && compare_prerelease(b, c) == Comparison::Less
            ==> compare_prerelease(a, c) == Comparison::Less,
{
    lemma_pre_segment_order_total();
    let seg = pre_segment_order();
    lemma_lists_reverse(segments(a), segments(b), seg);
    lemma_lists_equal(segments(a), segments(b), seg);
    if segments(a) == segments(b) {
        lemma_segments_equal(a, b);
    }
    if a.len() == 0 && b.len() == 0 {
        assert(a =~= b);
    }
    if compare_prerelease(a, b) == Comparison::Less && compare_prerelease(b, c) == Comparison::Less {
        if a.len() > 0 && b.len() > 0 && c.len() > 0 {
            lemma_lists_trans(segments(a), segments(b), segments(c), seg);
        }
    }
}

/// The order of build metadata is a total order.
pub proof fn law_build_total_order(a: Seq<char>, b: Seq<char>, c: Seq<char>)
    ensures
        compare_build(b, a) == compare_build(a, b).reversed(),
        (compare_build(a, b) == Comparison::Equal) == (a == b),
        compare_build(a, b) == Comparison::Less && compare_build(b, c) == Comparison::Less ==> compare_build(
            a,
            c,
        ) == Comparison::Less,
{
    lemma_build_segment_order_total();
    let seg = build_segment_order();
    lemma_lists_reverse(segments(a), segments(b), seg);
    lemma_lists_equal(segments(a), segments(b), seg);
    if segments(a) == segments(b) {
        lemma_segments_equal(a, b);
    }
    if compare_build(a, b) == Comparison::Less && compare_build(b, c) == Comparison::Less {
        lemma_lists_trans(segments(a), segments(b), segments(c), seg);
    }
}

/// A release (empty pre-release identifier) has higher precedence than any
/// pre-release of it.
pub proof fn law_release_above_prerelease(p: Seq<char>)
    requires
        p.len() > 0,
    ensures
        compare_prerelease(Seq::<char>::empty(), p) == Comparison::Greater,
{
}

/// SemVer precedence of versions is a total preorder that identifies exactly
/// the versions that differ at most in build metadata.
pub proof fn law_precedence_total_preorder(a: VersionModel, b: VersionModel, c: VersionModel)
    ensures
        compare_precedence(b, a) == compare_precedence(a, b).reversed(),
        (compare_precedence(a, b) == Comparison::Equal) == (a.major == b.major && a.minor == b.minor
            && a.patch == b.patch && a.pre == b.pre),
        compare_precedence(a, b) == Comparison::Less && compare_precedence(b, c) == Comparison::Less
            ==> compare_precedence(a, c) == Comparison::Less,
{
    law_prerelease_total_order(a.pre, b.pre, c.pre);
    law_prerelease_total_order(b.pre, c.pre, a.pre);
    law_prerelease_total_order(a.pre, c.pre, b.pre);
    lemma_compare_int(a.major as int, b.major as int, c.major as int);
    lemma_compare_int(a.minor as int, b.minor as int, c.minor as int);
    lemma_compare_int(a.patch as int, b.patch as int, c.patch as int);
}

/// The order of versions (precedence, then build metadata) is a total order
/// whose equality is equality of versions.
pub proof fn law_version_total_order(a: VersionModel, b: VersionModel, c: VersionModel)
    ensures
        compare_version(b, a) == compare_version(a, b).reversed(),
        (compare_version(a, b) == Comparison::Equal) == (a == b),
        compare_version(a, b) == Comparison::Less && compare_version(b, c) == Comparison::Less
            ==> compare_version(a, c) == Comparison::Less,
{
    law_precedence_total_preorder(a, b, c);
    law_precedence_total_preorder(b, c, a);
    law_precedence_total_preorder(a, c, b);
    law_build_total_order(a.build, b.build, c.build);
    law_build_total_order(b.build, c.build, a.build);
    law_build_total_order(a.build, c.build, b.build);
}

/// Precedence ignores build metadata, and the order of versions consults
/// build metadata only where precedence ties.
pub proof fn law_build_breaks_precedence_ties(a: VersionModel, b: VersionModel, ba: Seq<char>, bb: Seq<char>)
    ensures
        compare_precedence(with_build(a, ba), with_build(b, bb)) == compare_precedence(a, b),
        compare_precedence(a, b) != Comparison::Equal ==> compare_version(a, b) == compare_precedence(a, b),
        compare_precedence(a, b) == Comparison::Equal ==> compare_version(a, b) == compare_build(a.build, b.build),
{
}

/// Precedence compares the version numbers numerically: the first of major,
/// minor and patch that differs decides, the smaller number giving the lower
/// version. Only versions with the same three numbers are ordered by their
/// pre-release identifiers.
pub proof fn law_precedence_numeric(a: VersionModel, b: VersionModel)
    ensures
        a.major < b.major ==> compare_precedence(a, b) == Comparison::Less,
        a.major > b.major ==> compare_precedence(a, b) == Comparison::Greater,
        a.major == b.major && a.minor < b.minor ==> compare_precedence(a, b) == Comparison::Less,
        a.major == b.major && a.minor > b.minor ==> compare_precedence(a, b) == Comparison::Greater,
        a.major == b.major && a.minor == b.minor && a.patch < b.patch ==> compare_precedence(a, b)
            == Comparison::Less,
        a.major == b.major && a.minor == b.minor && a.patch > b.patch ==> compare_precedence(a, b)
            == Comparison::Greater,
        a.major == b.major && a.minor == b.minor && a.patch == b.patch ==> compare_precedence(a, b)
            == compare_prerelease(a.pre, b.pre),
{
}

/// The order of versions is precedence first; build metadata only orders
/// versions of equal precedence. In particular it is numeric on the version
/// numbers as precedence is.
pub proof fn law_version_order_numeric(a: VersionModel, b: VersionModel)
    ensures
        a.major < b.major ==> compare_version(a, b) == Comparison::Less,
        a.major == b.major && a.minor < b.minor ==> compare_version(a, b) == Comparison::Less,
        a.major == b.major && a.minor == b.minor && a.patch < b.patch ==> compare_version(a, b)
            == Comparison::Less,
        a.major == b.major && a.minor == b.minor && a.patch == b.patch && compare_prerelease(a.pre, b.pre)
            == Comparison::Less ==> compare_version(a, b) == Comparison::Less,
        a.major == b.major && a.minor == b.minor && a.patch == b.patch && a.pre == b.pre ==> compare_version(a, b)
            == compare_build(a.build, b.build),
{
    law_precedence_numeric(a, b);
    law_prerelease_total_order(a.pre, b.pre, b.pre);
}

/// `Ordering` values answer exactly the comparison outcomes they name.
pub proof fn law_ordering_of(c: Comparison)
    ensures
        (ordering_of(c) == Ordering::Less) == (c == Comparison::Less),
        (ordering_of(c) == Ordering::Equal) == (c == Comparison::Equal),
        (ordering_of(c) == Ordering::Greater) == (c == Comparison::Greater),
{
}

/// Numeric comparison answers `Less`, `Equal` or `Greater` exactly as the
/// first number is below, equal to or above the second.
pub proof fn law_compare_int(m: int, n: int)
    ensures
        (compare_int(m, n) == Comparison::Less) == (m < n),
        (compare_int(m, n) == Comparison::Equal) == (m == n),
        (compare_int(m, n) == Comparison::Greater) == (m > n),
{
}

// ---------------------------------------------------------------------------
// How pre-release identifiers are ordered
// ---------------------------------------------------------------------------

/// Character strings are ordered lexicographically by character: where two
/// strings first differ the smaller character comes first, and a proper
/// prefix comes before the longer string.
pub proof fn law_compare_chars_lexicographic(a: Seq<char>, b: Seq<char>, i: int)
    requires
        0 <= i <= a.len(),
        i <= b.len(),
        a.subrange(0, i) == b.subrange(0, i),
    ensures
        i < a.len() && i < b.len() && a[i] < b[i] ==> compare_chars(a, b) == Comparison::Less,
        i < a.len() && i < b.len() && b[i] < a[i] ==> compare_chars(a, b) == Comparison::Greater,
        i == a.len() && i < b.len() ==> compare_chars(a, b) == Comparison::Less,
        i == a.len() && i == b.len() ==> compare_chars(a, b) == Comparison::Equal,
    decreases i,
{
    if i > 0 {
        assert(a[0] == a.subrange(0, i)[0]);
        assert(b[0] == b.subrange(0, i)[0]);
        let a1 = a.drop_first();
        let b1 = b.drop_first();
        assert(a1.subrange(0, i - 1) =~= b1.subrange(0, i - 1)) by {
            assert forall|k: int| 0 <= k < i - 1 implies #[trigger] a1.subrange(0, i - 1)[k] == b1.subrange(0, i - 1)[k] by {
                assert(a1.subrange(0, i - 1)[k] == a.subrange(0, i)[k + 1]);
                assert(b1.subrange(0, i - 1)[k] == b.subrange(0, i)[k + 1]);
            }
        }
        law_compare_chars_lexicographic(a1, b1, i - 1);
        if i < a.len() {
            assert(a1[i - 1] == a[i]);
        }
        if i < b.len() {
            assert(b1[i - 1] == b[i]);
        }
    }
}

/// `s` has no `.` from index `k` on.
spec fn dot_free_from(s: Seq<char>, k: int) -> bool {
    forall|j: int| k <= j < s.len() ==> #[trigger] s[j] != '.'
}

proof fn lemma_segment_end_dot_free(s: Seq<char>, k: int)
    requires
        0 <= k <= s.len(),
        dot_free_from(s, k),
    ensures
        segment_end(s, k) == s.len(),
    decreases s.len() - k,
{
    if k < s.len() {
        lemma_segment_end_dot_free(s, k + 1);
    }
}

proof fn lemma_segment_end_shift(p: Seq<char>, y: Seq<char>, k: int)
    requires
        0 <= k <= y.len(),
    ensures
        segment_end(p + y, p.len() + k) == p.len() + segment_end(y, k),
    decreases y.len() - k,
{
    if k < y.len() {
        assert((p + y)[p.len() + k] == y[k]);
        lemma_segment_end_shift(p, y, k + 1);
    }
}

proof fn lemma_segments_from_shift(p: Seq<char>, y: Seq<char>, k: int)
    requires
        0 <= k <= y.len(),
    ensures
        segments_from(p + y, p.len() + k) == segments_from(y, k),
    decreases y.len() - k,
{
    let s = p + y;
    lemma_segment_end_shift(p, y, k);
    lemma_segment_end_bounds(y, k);
    let e = segment_end(y, k);
    assert(s.subrange(p.len() + k, p.len() + e) =~= y.subrange(k, e));
    if e < y.len() {
        lemma_segments_from_shift(p, y, e + 1);
    }
}

/// A dot-free non-empty segment followed by `.` and the rest: its segments
/// are that segment and then the segments of the rest.
proof fn lemma_segments_cons(a: Seq<char>, y: Seq<char>)
    requires
        a.len() > 0,
        dot_free_from(a, 0),
    ensures
        segments(a + seq!['.'] + y) == seq![a] + segments(y),
{
    let s = a + seq!['.'] + y;
    let p = a + seq!['.'];
    assert(s == p + y);
    assert(dot_free_from(s.subrange(0, a.len() as int), 0)) by {
        assert(s.subrange(0, a.len() as int) =~= a);
    }
    lemma_segment_end_shift(Seq::<char>::empty(), s, 0);
    assert forall|j: int| 0 <= j < a.len() implies #[trigger] s[j] != '.' by {
        assert(s[j] == a[j]);
    }
    lemma_segment_end_prefix(s, 0, a.len() as int);
    assert(s.subrange(0, a.len() as int) =~= a);
    lemma_segments_from_shift(p, y, 0);
}

proof fn lemma_segment_end_prefix(s: Seq<char>, k: int, e: int)
    requires
        0 <= k <= e < s.len(),
        s[e] == '.',
        forall|j: int| k <= j < e ==> #[trigger] s[j] != '.',
    ensures
        segment_end(s, k) == e,
    decreases e - k,
{
    if k < e {
        lemma_segment_end_prefix(s, k + 1, e);
    }
}

proof fn lemma_segments_single(a: Seq<char>)
    requires
        dot_free_from(a, 0),
    ensures
        segments(a) == seq![a],
{
    lemma_segment_end_dot_free(a, 0);
    assert(a.subrange(0, a.len() as int) =~= a);
}

/// Pre-release identifiers of one segment each are ordered as SemVer asks:
/// a numeric segment comes before an alphanumeric one; numeric segments
/// (which carry no leading zeros) are ordered by their number of digits and
/// then digit by digit; alphanumeric segments are ordered character by
/// character.
pub proof fn law_prerelease_segment_order(a: Seq<char>, b: Seq<char>)
    requires
        a.len() > 0,
        b.len() > 0,
        forall|j: int| 0 <= j < a.len() ==> #[trigger] a[j] != '.',
        forall|j: int| 0 <= j < b.len() ==> #[trigger] b[j] != '.',
    ensures
        all_digits(a) && !all_digits(b) ==> compare_prerelease(a, b) == Comparison::Less,
        all_digits(a) && all_digits(b) && a.len() < b.len() ==> compare_prerelease(a, b)
            == Comparison::Less,
        all_digits(a) && all_digits(b) && a.len() == b.len() ==> compare_prerelease(a, b)
            == compare_chars(a, b),
        !all_digits(a) && !all_digits(b) ==> compare_prerelease(a, b) == compare_chars(a, b),
{
    lemma_segments_single(a);
    lemma_segments_single(b);
    lemma_pre_segment(a, b, b);
    let la = seq![a];
    let lb = seq![b];
    let seg = pre_segment_order();
    assert(la.drop_first() =~= Seq::<Seq<char>>::empty());
    assert(lb.drop_first() =~= Seq::<Seq<char>>::empty());
    assert(la[0] == a && lb[0] == b);
    assert(seg(a, b) == compare_pre_segment(a, b));
    assert(compare_segment_lists(la.drop_first(), lb.drop_first(), seg) == Comparison::Equal);
    assert(compare_prerelease(a, b) == compare_segment_lists(la, lb, seg));
    lemma_compare_chars_equal(a, b);
}

/// Pre-release identifiers are compared segment by segment: the first
/// segments decide when they differ; equal first segments pass the decision
/// to the rest; and an identifier comes before any longer one that it
/// starts, segment for segment.
pub proof fn law_prerelease_segments(a: Seq<char>, b: Seq<char>, y: Seq<char>, z: Seq<char>)
    requires
        a.len() > 0,
        b.len() > 0,
        forall|j: int| 0 <= j < a.len() ==> #[trigger] a[j] != '.',
        forall|j: int| 0 <= j < b.len() ==> #[trigger] b[j] != '.',
    ensures
        a != b ==> compare_prerelease(a + seq!['.'] + y, b + seq!['.'] + z) == compare_prerelease(a, b),
        y.len() > 0 && z.len() > 0 ==> compare_prerelease(a + seq!['.'] + y, a + seq!['.'] + z)
            == compare_prerelease(y, z),
        compare_prerelease(a, a + seq!['.'] + y) == Comparison::Less,
{
    lemma_segments_single(a);
    lemma_segments_single(b);
    lemma_segments_cons(a, y);
    lemma_segments_cons(b, z);
    lemma_segments_cons(a, z);
    lemma_pre_segment(a, b, b);
    lemma_pre_segment(a, a, a);
    let seg = pre_segment_order();
    let ly = seq![a] + segments(y);
    let lz = seq![b] + segments(z);
    let laz = seq![a] + segments(z);
    assert(ly[0] == a && ly.drop_first() =~= segments(y));
    assert(lz[0] == b && lz.drop_first() =~= segments(z));
    assert(laz[0] == a && laz.drop_first() =~= segments(z));
    assert(seq![a].drop_first() =~= Seq::<Seq<char>>::empty());
    assert(seq![b].drop_first() =~= Seq::<Seq<char>>::empty());
    lemma_segments_from_len(y, 0);
    let s1 = a + seq!['.'] + y;
    let s2 = b + seq!['.'] + z;
    let s3 = a + seq!['.'] + z;
    assert(s1.len() > 0 && s2.len() > 0 && s3.len() > 0);
    assert(seg(a, a) == compare_pre_segment(a, a));
    assert(seg(a, b) == compare_pre_segment(a, b));
    assert(compare_segment_lists(Seq::<Seq<char>>::empty(), segments(y), seg) == Comparison::Less);
    assert(compare_prerelease(a, s1) == compare_segment_lists(seq![a], ly, seg));
}

/// Build metadata of one segment each is ordered like pre-release segments,
/// except that numeric segments compare by value ignoring leading zeros
/// (number of significant digits, then digit by digit), and of equal values
/// the one with fewer leading zeros comes first.
pub proof fn law_build_segment_order(a: Seq<char>, b: Seq<char>)
    requires
        a.len() > 0,
        b.len() > 0,
        forall|j: int| 0 <= j < a.len() ==> #[trigger] a[j] != '.',
        forall|j: int| 0 <= j < b.len() ==> #[trigger] b[j] != '.',
    ensures
        all_digits(a) && !all_digits(b) ==> compare_build(a, b) == Comparison::Less,
        ({
            let av = a.skip(leading_zeros(a) as int);
            let bv = b.skip(leading_zeros(b) as int);
            &&& all_digits(a) && all_digits(b) && av.len() < bv.len() ==> compare_build(a, b)
                == Comparison::Less
            &&& all_digits(a) && all_digits(b) && av.len() == bv.len() && av != bv ==> compare_build(a, b)
                == compare_chars(av, bv)
            &&& all_digits(a) && all_digits(b) && av == bv && a.len() < b.len() ==> compare_build(a, b)
                == Comparison::Less
        }),
        !all_digits(a) && !all_digits(b) ==> compare_build(a, b) == compare_chars(a, b),
{
    lemma_segments_single(a);
    lemma_segments_single(b);
    lemma_build_segment(a, b, b);
    let la = seq![a];
    let lb = seq![b];
    let seg = build_segment_order();
    assert(la.drop_first() =~= Seq::<Seq<char>>::empty());
    assert(lb.drop_first() =~= Seq::<Seq<char>>::empty());
    assert(la[0] == a && lb[0] == b);
    assert(seg(a, b) == compare_build_segment(a, b));
    assert(compare_segment_lists(la.drop_first(), lb.drop_first(), seg) == Comparison::Equal);
    assert(compare_build(a, b) == compare_segment_lists(la, lb, seg));
    lemma_compare_chars_equal(a, b);
    lemma_compare_chars_equal(a.skip(leading_zeros(a) as int), b.skip(leading_zeros(b) as int));
}

/// Build metadata is compared segment by segment, as pre-release
/// identifiers are.
pub proof fn law_build_segments(a: Seq<char>, b: Seq<char>, y: Seq<char>, z: Seq<char>)
    requires
        a.len() > 0,
        b.len() > 0,
        forall|j: int| 0 <= j < a.len() ==> #[trigger] a[j] != '.',
        forall|j: int| 0 <= j < b.len() ==> #[trigger] b[j] != '.',
    ensures
        a != b ==> compare_build(a + seq!['.'] + y, b + seq!['.'] + z) == compare_build(a, b),
        compare_build(a + seq!['.'] + y, a + seq!['.'] + z) == compare_build(y, z),
        compare_build(a, a + seq!['.'] + y) == Comparison::Less,
{
    lemma_segments_single(a);
    lemma_segments_single(b);
    lemma_segments_cons(a, y);
    lemma_segments_cons(b, z);
    lemma_segments_cons(a, z);
    lemma_build_segment(a, b, b);
    lemma_build_segment(a, a, a);
    let seg = build_segment_order();
    let ly = seq![a] + segments(y);
    let lz = seq![b] + segments(z);
    let laz = seq![a] + segments(z);
    assert(ly[0] == a && ly.drop_first() =~= segments(y));
    assert(lz[0] == b && lz.drop_first() =~= segments(z));
    assert(laz[0] == a && laz.drop_first() =~= segments(z));
    assert(seq![a].drop_first() =~= Seq::<Seq<char>>::empty());
    assert(seq![b].drop_first() =~= Seq::<Seq<char>>::empty());
    lemma_segments_from_len(y, 0);
    assert(seg(a, a) == compare_build_segment(a, a));
    assert(seg(a, b) == compare_build_segment(a, b));
    assert(compare_segment_lists(Seq::<Seq<char>>::empty(), segments(y), seg) == Comparison::Less);
    assert(compare_build(a, a + seq!['.'] + y) == compare_segment_lists(seq![a], ly, seg));
}

/// The decimal texts of two numbers: the smaller number has fewer digits, or
/// as many and a smaller digit where they first differ.
proof fn lemma_nat_text_order(m: nat, n: nat)
    requires
        m < n,
    ensures
        nat_text(m).len() < nat_text(n).len() || (nat_text(m).len() == nat_text(n).len() && exists|i: int|
            0 <= i < nat_text(m).len() && nat_text(m).subrange(0, i) == nat_text(n).subrange(0, i)
                && #[trigger] nat_text(m)[i] < nat_text(n)[i]),
    decreases n,
{
    if n < 10 {
        lemma_digit_char(m);
        lemma_digit_char(n);
        let tm = nat_text(m);
        let tn = nat_text(n);
        assert(tm.subrange(0, 0) =~= tn.subrange(0, 0));
        assert(tm[0] < tn[0]);
    } else if m < 10 {
        lemma_nat_text(n / 10);
    } else {
        let q1 = m / 10;
        let q2 = n / 10;
        let tq1 = nat_text(q1);
        let tq2 = nat_text(q2);
        let tm = nat_text(m);
        let tn = nat_text(n);
        lemma_digit_char(m % 10);
        lemma_digit_char(n % 10);
        assert(tm == tq1 + seq![digit_char(m % 10)]);
        assert(tn == tq2 + seq![digit_char(n % 10)]);
        if q1 == q2 {
            let i = tq1.len() as int;
            assert(tm.subrange(0, i) =~= tq1);
            assert(tn.subrange(0, i) =~= tq2);
            assert(tm[i] < tn[i]);
        } else {
            lemma_nat_text_order(q1, q2);
            if tq1.len() == tq2.len() {
                let i = choose|i: int|
                    0 <= i < tq1.len() && tq1.subrange(0, i) == tq2.subrange(0, i) && #[trigger] tq1[i]
                        < tq2[i];
                assert(tm.subrange(0, i) =~= tq1.subrange(0, i));
                assert(tn.subrange(0, i) =~= tq2.subrange(0, i));
                assert(tm[i] == tq1[i] && tn[i] == tq2[i]);
                assert(tm[i] < tn[i]);
            }
        }
    }
}

proof fn lemma_prerelease_numeric_less(m: nat, n: nat)
    requires
        m < n,
    ensures
        compare_prerelease(nat_text(m), nat_text(n)) == Comparison::Less,
{
    let tm = nat_text(m);
    let tn = nat_text(n);
    lemma_nat_text(m);
    lemma_nat_text(n);
    assert forall|j: int| 0 <= j < tm.len() implies #[trigger] tm[j] != '.' by {
        assert(is_digit(tm[j]));
    }
    assert forall|j: int| 0 <= j < tn.len() implies #[trigger] tn[j] != '.' by {
        assert(is_digit(tn[j]));
    }
    law_prerelease_segment_order(tm, tn);
    lemma_nat_text_order(m, n);
    if tm.len() == tn.len() {
        let i = choose|i: int|
            0 <= i < tm.len() && tm.subrange(0, i) == tn.subrange(0, i) && #[trigger] tm[i] < tn[i];
        law_compare_chars_lexicographic(tm, tn, i);
    }
}

/// Numeric pre-release identifiers are ordered by their values: the texts of
/// two numbers compare as the numbers do, however many digits they have.
pub proof fn law_prerelease_numeric(m: nat, n: nat)
    ensures
        (compare_prerelease(nat_text(m), nat_text(n)) == Comparison::Less) == (m < n),
        (compare_prerelease(nat_text(m), nat_text(n)) == Comparison::Equal) == (m == n),
        (compare_prerelease(nat_text(m), nat_text(n)) == Comparison::Greater) == (m > n),
{
    law_prerelease_total_order(nat_text(m), nat_text(n), nat_text(n));
    if m < n {
        lemma_prerelease_numeric_less(m, n);
    } else if n < m {
        lemma_prerelease_numeric_less(n, m);
    } else {
    }
    if nat_text(m) == nat_text(n) {
        lemma_nat_text(m);
        lemma_nat_text(n);
    }
}

} // verus!
