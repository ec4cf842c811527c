//! Character classes, decimal digit strings, and the small string-building
//! helpers that the parser and the printers share.

use vstd::prelude::*;

verus! {

/// An ASCII decimal digit.
pub open spec fn is_digit(c: char) -> bool {
    '0' <= c && c <= '9'
}

/// A character that may appear inside one dot-separated identifier segment:
/// ASCII alphanumerics and the hyphen.
pub open spec fn is_ident_char(c: char) -> bool {
    ('A' <= c && c <= 'Z') || ('a' <= c && c <= 'z') || is_digit(c) || c == '-'
}

pub open spec fn all_digits(d: Seq<char>) -> bool {
    forall|i: int| 0 <= i < d.len() ==> is_digit(#[trigger] d[i])
}

/// The numeric value of one decimal digit character.
pub open spec fn digit_of(c: char) -> nat {
    (c as int - '0' as int) as nat
}

/// The decimal digit character for a value below ten.
pub open spec fn digit_char(d: nat) -> char {
    ((d + '0' as int) as u32) as char
}

/// The value of a string of decimal digits, most significant digit first.
pub open spec fn digits_value(d: Seq<char>) -> nat
    decreases d.len(),
{
    if d.len() == 0 {
        0
    } else {
        digits_value(d.drop_last()) * 10 + digit_of(d.last())
    }
}

/// The decimal spelling of a natural number, without leading zeros.
pub open spec fn nat_text(n: nat) -> Seq<char>
    decreases n,
{
    if n < 10 {
        seq![digit_char(n)]
    } else {
        nat_text(n / 10) + seq![digit_char(n % 10)]
    }
}

/// A non-empty digit string that is either `0` or does not start with `0`.
pub open spec fn canonical_digits(d: Seq<char>) -> bool {
    &&& d.len() > 0
    &&& all_digits(d)
    &&& (d.len() == 1 || d[0] != '0')
}

/// First index at or after `i` that does not hold a digit.
pub open spec fn digits_end(s: Seq<char>, i: int) -> int
    decreases s.len() - i,
{
    if 0 <= i < s.len() && is_digit(s[i]) {
        digits_end(s, i + 1)
    } else {
        i
    }
}

/// First index at or after `i` that does not hold an identifier character.
pub open spec fn ident_end(s: Seq<char>, i: int) -> int
    decreases s.len() - i,
{
    if 0 <= i < s.len() && is_ident_char(s[i]) {
        ident_end(s, i + 1)
    } else {
        i
    }
}

/// First index at or after `i` that does not hold an ASCII space.
pub open spec fn spaces_end(s: Seq<char>, i: int) -> int
    decreases s.len() - i,
{
    if 0 <= i < s.len() && s[i] == ' ' {
        spaces_end(s, i + 1)
    } else {
        i
    }
}

pub proof fn lemma_digit_roundtrip(c: char)
    requires
        is_digit(c),
    ensures
        digit_of(c) < 10,
        digit_char(digit_of(c)) == c,
{
}

pub proof fn lemma_digit_char(d: nat)
    requires
        d < 10,
    ensures
        is_digit(digit_char(d)),
        digit_of(digit_char(d)) == d,
        (digit_char(d) == '0') <==> d == 0,
{
}

pub proof fn lemma_digits_end_bounds(s: Seq<char>, i: int)
    requires
        0 <= i <= s.len(),
    ensures
        i <= digits_end(s, i) <= s.len(),
        forall|k: int| i <= k < digits_end(s, i) ==> is_digit(#[trigger] s[k]),
        digits_end(s, i) < s.len() ==> !is_digit(s[digits_end(s, i)]),
    decreases s.len() - i,
{
    if i < s.len() && is_digit(s[i]) {
        lemma_digits_end_bounds(s, i + 1);
    }
}

pub proof fn lemma_ident_end_bounds(s: Seq<char>, i: int)
    requires
        0 <= i <= s.len(),
    ensures
        i <= ident_end(s, i) <= s.len(),
        forall|k: int| i <= k < ident_end(s, i) ==> is_ident_char(#[trigger] s[k]),
        ident_end(s, i) < s.len() ==> !is_ident_char(s[ident_end(s, i)]),
    decreases s.len() - i,
{
    if i < s.len() && is_ident_char(s[i]) {
        lemma_ident_end_bounds(s, i + 1);
    }
}

pub proof fn lemma_spaces_end_bounds(s: Seq<char>, i: int)
    requires
        0 <= i <= s.len(),
    ensures
        i <= spaces_end(s, i) <= s.len(),
        forall|k: int| i <= k < spaces_end(s, i) ==> #[trigger] s[k] == ' ',
        spaces_end(s, i) < s.len() ==> s[spaces_end(s, i)] != ' ',
    decreases s.len() - i,
{
    if i < s.len() && s[i] == ' ' {
        lemma_spaces_end_bounds(s, i + 1);
    }
}

/// `digits_end` is determined by the run itself: if `[i, j)` are digits and
/// `j` is not, the run ends at `j`.
pub proof fn lemma_digits_end_at(s: Seq<char>, i: int, j: int)
    requires
        0 <= i <= j <= s.len(),
        forall|k: int| i <= k < j ==> is_digit(#[trigger] s[k]),
        j < s.len() ==> !is_digit(s[j]),
    ensures
        digits_end(s, i) == j,
    decreases j - i,
{
    if i < j {
        lemma_digits_end_at(s, i + 1, j);
    }
}

pub proof fn lemma_spaces_end_at(s: Seq<char>, i: int, j: int)
    requires
        0 <= i <= j <= s.len(),
        forall|k: int| i <= k < j ==> #[trigger] s[k] == ' ',
        j < s.len() ==> s[j] != ' ',
    ensures
        spaces_end(s, i) == j,
    decreases j - i,
{
    if i < j {
        lemma_spaces_end_at(s, i + 1, j);
    }
}

/// Appending one digit multiplies the value by ten and adds the digit.
pub proof fn lemma_digits_value_push(d: Seq<char>, c: char)
    ensures
        digits_value(d.push(c)) == digits_value(d) * 10 + digit_of(c),
{
    assert(d.push(c).drop_last() =~= d);
}

/// A digit string is worth at least as much as any of its prefixes.
pub proof fn lemma_digits_value_prefix(d: Seq<char>, k: int)
    requires
        0 <= k <= d.len(),
    ensures
        digits_value(d.subrange(0, k)) <= digits_value(d),
    decreases d.len() - k,
{
    if k < d.len() {
        lemma_digits_value_prefix(d, k + 1);
        assert(d.subrange(0, k + 1).drop_last() =~= d.subrange(0, k));
    } else {
        assert(d.subrange(0, k) =~= d);
    }
}

/// A canonical digit string that does not start with `0` is worth at least one.
pub proof fn lemma_digits_value_positive(d: Seq<char>)
    requires
        d.len() > 0,
        all_digits(d),
        d[0] != '0',
    ensures
        digits_value(d) >= 1,
    decreases d.len(),
{
    if d.len() > 1 {
        let p = d.drop_last();
        assert(p[0] == d[0]);
        assert(all_digits(p)) by {
            assert forall|i: int| 0 <= i < p.len() implies is_digit(#[trigger] p[i]) by {
                assert(p[i] == d[i]);
            }
        }
        lemma_digits_value_positive(p);
    } else {
        assert(d.drop_last().len() == 0);
        assert(is_digit(d[0]));
    }
}

/// The spelling of `n` is canonical and is worth `n`.
pub proof fn lemma_nat_text(n: nat)
    ensures
        canonical_digits(nat_text(n)),
        digits_value(nat_text(n)) == n,
        n > 0 ==> nat_text(n)[0] != '0',
    decreases n,
{
    if n < 10 {
        lemma_digit_char(n);
        let t = seq![digit_char(n)];
        assert(t.drop_last() =~= Seq::<char>::empty());
        assert(digits_value(Seq::<char>::empty()) == 0);
        assert(digits_value(t) == digits_value(t.drop_last()) * 10 + digit_of(t.last()));
    } else {
        let q = n / 10;
        let r = n % 10;
        lemma_nat_text(q);
        lemma_digit_char(r);
        let t = nat_text(q);
        assert(nat_text(n) == t.push(digit_char(r))) by {
            assert(t + seq![digit_char(r)] =~= t.push(digit_char(r)));
        }
        lemma_digits_value_push(t, digit_char(r));
        assert(n == q * 10 + r);
        assert(all_digits(t.push(digit_char(r)))) by {
            assert forall|i: int| 0 <= i < t.len() + 1 implies is_digit(#[trigger] t.push(digit_char(r))[i]) by {
                if i < t.len() {
                    assert(t.push(digit_char(r))[i] == t[i]);
                }
            }
        }
    }
}

/// A canonical digit string is the spelling of its own value.
pub proof fn lemma_canonical_digits_text(d: Seq<char>)
    requires
        canonical_digits(d),
    ensures
        nat_text(digits_value(d)) == d,
    decreases d.len(),
{
    if d.len() == 1 {
        lemma_digit_roundtrip(d[0]);
        assert(d.drop_last() =~= Seq::<char>::empty());
        assert(digits_value(Seq::<char>::empty()) == 0);
        assert(digits_value(d) == digits_value(d.drop_last()) * 10 + digit_of(d.last()));
        assert(digits_value(d) == digit_of(d[0]));
        assert(nat_text(digits_value(d)) =~= d);
    } else {
        let p = d.drop_last();
        let c = d.last();
        assert(p[0] == d[0]);
        assert(all_digits(p)) by {
            assert forall|i: int| 0 <= i < p.len() implies is_digit(#[trigger] p[i]) by {
                assert(p[i] == d[i]);
            }
        }
        lemma_canonical_digits_text(p);
        lemma_digits_value_positive(p);
        assert(is_digit(c)) by {
            assert(c == d[d.len() - 1]);
        }
        lemma_digit_roundtrip(c);
        let v = digits_value(d);
        let vp = digits_value(p);
        assert(v == vp * 10 + digit_of(c));
        assert(v / 10 == vp && v % 10 == digit_of(c));
        assert(v >= 10);
        assert(nat_text(v) == nat_text(vp) + seq![digit_char(digit_of(c))]);
        assert(nat_text(v) =~= d);
    }
}

/// Appends one character to a string (std's `String::push`).
#[verifier::external_body]
pub(crate) fn push_char(s: &mut String, c: char)
    ensures
        final(s)@ == old(s)@.push(c),
{
    s.push(c)
}

/// The characters of `text`, in order.
pub(crate) fn chars_of(text: &str) -> (v: Vec<char>)
    ensures
        v@ == text@,
{
    broadcast use vstd::string::group_string_axioms;

    let mut v: Vec<char> = Vec::new();
    for c in it: text.chars()
        invariant
            v@ == it.seq().take(it.index() as int),
            it.seq() == text@,
    {
        v.push(c);
    }
    v
}

/// The characters of `s`, in order.
pub(crate) fn string_chars(s: &String) -> (v: Vec<char>)
    ensures
        v@ == s@,
{
    chars_of(s.as_str())
}

/// A new string holding `s[from..to]`.
pub(crate) fn string_from_range(s: &Vec<char>, from: usize, to: usize) -> (r: String)
    requires
        from <= to <= s.len(),
    ensures
        r@ == s@.subrange(from as int, to as int),
{
    let mut r = String::new();
    let mut k = from;
    while k < to
        invariant
            from <= k <= to <= s.len(),
            r@ == s@.subrange(from as int, k as int),
        decreases to - k,
    {
        push_char(&mut r, s[k]);
        assert(r@ =~= s@.subrange(from as int, k + 1));
        k = k + 1;
    }
    r
}

/// The value of a digit character.
pub(crate) fn digit_value(c: char) -> (r: u64)
    requires
        is_digit(c),
    ensures
        r == digit_of(c),
        r < 10,
{
    (c as u32 - '0' as u32) as u64
}

/// The character for a digit value.
pub(crate) fn digit_to_char(d: u64) -> (c: char)
    requires
        d < 10,
    ensures
        c == digit_char(d as nat),
{
    ((d as u8) + 48u8) as char
}

/// Appends the decimal spelling of `n`.
pub(crate) fn push_decimal(s: &mut String, n: u64)
    ensures
        final(s)@ == old(s)@ + nat_text(n as nat),
    decreases n,
{
    if n >= 10 {
        push_decimal(s, n / 10);
    }
    let c = digit_to_char(n % 10);
    push_char(s, c);
    assert(final(s)@ =~= old(s)@ + nat_text(n as nat));
}

/// Index of the first non-digit at or after `i`.
pub(crate) fn find_digits_end(s: &Vec<char>, i: usize) -> (j: usize)
    requires
        i <= s.len(),
    ensures
        j == digits_end(s@, i as int),
{
    let mut j = i;
    while j < s.len() && '0' <= s[j] && s[j] <= '9'
        invariant
            i <= j <= s.len(),
            digits_end(s@, i as int) == digits_end(s@, j as int),
        decreases s.len() - j,
    {
        j = j + 1;
    }
    j
}

/// Index of the first non-identifier character at or after `i`.
pub(crate) fn find_ident_end(s: &Vec<char>, i: usize) -> (j: usize)
    requires
        i <= s.len(),
    ensures
        j == ident_end(s@, i as int),
{
    let mut j = i;
    while j < s.len() && (('A' <= s[j] && s[j] <= 'Z') || ('a' <= s[j] && s[j] <= 'z') || ('0'
        <= s[j] && s[j] <= '9') || s[j] == '-')
        invariant
            i <= j <= s.len(),
            ident_end(s@, i as int) == ident_end(s@, j as int),
        decreases s.len() - j,
    {
        j = j + 1;
    }
    j
}

/// Index of the first non-space at or after `i`.
pub(crate) fn skip_spaces(s: &Vec<char>, i: usize) -> (j: usize)
    requires
        i <= s.len(),
    ensures
        j == spaces_end(s@, i as int),
{
    let mut j = i;
    while j < s.len() && s[j] == ' '
        invariant
            i <= j <= s.len(),
            spaces_end(s@, i as int) == spaces_end(s@, j as int),
        decreases s.len() - j,
    {
        j = j + 1;
    }
    j
}

} // verus!
