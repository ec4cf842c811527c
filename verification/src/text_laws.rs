//! Properties of parsing and printing: what each undoes of the other.

use vstd::prelude::*;
use crate::chars::{
    all_digits, canonical_digits, digits_end, digits_value, ident_end, is_digit, is_ident_char,
    lemma_canonical_digits_text, lemma_ident_end_bounds,
    lemma_digits_end_at, lemma_digits_end_bounds, lemma_nat_text, lemma_spaces_end_at, nat_text,
    spaces_end,
};
use crate::display::{comparator_text, joined_text, op_text, req_text, version_text, wildcard_tail};
use crate::error::{ErrorKind, Position};
use crate::identifier::{
    embedded_at, is_identifier, lemma_empty_is_identifier, lemma_scan_embedded_identifier,
    lemma_segment_end_bounds, segment_end, segments, segments_from,
    lemma_scan_identifier_stop, lemma_scanned_is_identifier, scan_identifier, lemma_identifier_chars,
};
use crate::parse::{
    MAX_COMPARATORS, parse_comparator, parse_req, parse_version, scan_build_suffix, scan_comparator,
    char_is, scan_dot, scan_minor, scan_numeric, scan_op, scan_patch, scan_pre_suffix, scan_req,
    wildcard_at,
};
use crate::version::{ComparatorModel, Op, VersionModel};

verus! {

/// A version whose pre-release identifier and build metadata are valid on
/// their own. Every `Version` value is such a version: the identifier types
/// keep their text valid, and `Version::to_string` states it.
pub open spec fn valid_version_model(v: VersionModel) -> bool {
    is_identifier(v.pre, Position::Pre) && is_identifier(v.build, Position::Build)
}

proof fn lemma_scan_numeric_text(s: Seq<char>, i: int, n: u64, pos: Position)
    requires
        0 <= i,
        i + nat_text(n as nat).len() <= s.len(),
        s.subrange(i, i + nat_text(n as nat).len()) == nat_text(n as nat),
        i + nat_text(n as nat).len() == s.len() || !is_digit(s[i + nat_text(n as nat).len()]),
    ensures
        scan_numeric(s, i, pos) == Ok::<(u64, int), ErrorKind>((n, i + nat_text(n as nat).len())),
{
    let t = nat_text(n as nat);
    lemma_nat_text(n as nat);
    let j = i + t.len();
    assert forall|k: int| i <= k < j implies is_digit(#[trigger] s[k]) by {
        assert(s[k] == s.subrange(i, j)[k - i]);
    }
    lemma_digits_end_at(s, i, j);
    assert(s[i] == s.subrange(i, j)[0]);
    if t.len() > 1 {
        assert(s[i] != '0');
    }
}

proof fn lemma_scan_numeric_ok(s: Seq<char>, i: int, pos: Position)
    requires
        0 <= i <= s.len(),
        scan_numeric(s, i, pos) is Ok,
    ensures
        ({
            let (n, j) = scan_numeric(s, i, pos)->Ok_0;
            &&& j == i + nat_text(n as nat).len()
            &&& j <= s.len()
            &&& s.subrange(i, j) == nat_text(n as nat)
            &&& (j == s.len() || !is_digit(s[j]))
        }),
{
    lemma_digits_end_bounds(s, i);
    let j = digits_end(s, i);
    let d = s.subrange(i, j);
    assert(d[0] == s[i]);
    assert forall|k: int| 0 <= k < d.len() implies is_digit(#[trigger] d[k]) by {
        assert(d[k] == s[i + k]);
    }
    assert(canonical_digits(d));
    lemma_canonical_digits_text(d);
}

proof fn lemma_parse_version_text(v: VersionModel)
    requires
        valid_version_model(v),
    ensures
        parse_version(version_text(v)) == Ok::<VersionModel, ErrorKind>(v),
{
    let ta = nat_text(v.major as nat);
    let tb = nat_text(v.minor as nat);
    let tc = nat_text(v.patch as nat);
    lemma_nat_text(v.major as nat);
    lemma_nat_text(v.minor as nat);
    lemma_nat_text(v.patch as nat);
    let p = if v.pre.len() > 0 {
        seq!['-'] + v.pre
    } else {
        Seq::<char>::empty()
    };
    let q = if v.build.len() > 0 {
        seq!['+'] + v.build
    } else {
        Seq::<char>::empty()
    };
    let s = version_text(v);
    let a = ta.len() as int;
    let b = a + 1 + tb.len();
    let c = b + 1 + tc.len();
    let d = c + p.len();
    assert(s =~= ta + seq!['.'] + tb + seq!['.'] + tc + p + q);
    assert(s.subrange(0, a) =~= ta);
    assert(s[a] == '.');
    assert(s.subrange(a + 1, b) =~= tb);
    assert(s[b] == '.');
    assert(s.subrange(b + 1, c) =~= tc);
    assert(s.subrange(c, d) =~= p);
    assert(s.subrange(d, s.len() as int) =~= q);
    lemma_scan_numeric_text(s, 0, v.major, Position::Major);
    lemma_scan_numeric_text(s, a + 1, v.minor, Position::Minor);
    if c < s.len() {
        if p.len() > 0 {
            assert(s[c] == p[0]);
        } else {
            assert(s[c] == q[0]);
        }
    }
    lemma_scan_numeric_text(s, b + 1, v.patch, Position::Patch);
    if v.pre.len() > 0 {
        assert(s[c] == '-');
        assert(s.subrange(c + 1, d) =~= v.pre);
        if d < s.len() {
            assert(s[d] == q[0]);
        }
        assert(embedded_at(s, c + 1, v.pre));
        lemma_scan_embedded_identifier(s, c + 1, v.pre, Position::Pre);
        assert(scan_identifier(s, c + 1, c + 1, Position::Pre) == Ok::<int, ErrorKind>(d));
        assert(scan_pre_suffix(s, c, Position::Patch) == Ok::<(Seq<char>, Position, int), ErrorKind>(
            (v.pre, Position::Pre, d),
        ));
    } else {
        assert(d == c);
        assert(v.pre =~= Seq::<char>::empty());
        assert(!(c < s.len() && s[c] == '-'));
        assert(scan_pre_suffix(s, c, Position::Patch) == Ok::<(Seq<char>, Position, int), ErrorKind>(
            (v.pre, Position::Patch, d),
        ));
    }
    if v.build.len() > 0 {
        assert(s.subrange(d + 1, s.len() as int) =~= v.build);
        assert(embedded_at(s, d + 1, v.build));
        lemma_scan_embedded_identifier(s, d + 1, v.build, Position::Build);
    } else {
        assert(v.build =~= Seq::<char>::empty());
        assert(d == s.len());
    }
}

proof fn lemma_version_text_of_parse(s: Seq<char>)
    requires
        parse_version(s) is Ok,
    ensures
        valid_version_model(parse_version(s)->Ok_0),
        s == version_text(parse_version(s)->Ok_0),
{
    let v = parse_version(s)->Ok_0;
    lemma_scan_numeric_ok(s, 0, Position::Major);
    let a = scan_numeric(s, 0, Position::Major)->Ok_0.1;
    let a1 = scan_dot(s, a, Position::Major)->Ok_0;
    lemma_scan_numeric_ok(s, a1, Position::Minor);
    let b = scan_numeric(s, a1, Position::Minor)->Ok_0.1;
    let b1 = scan_dot(s, b, Position::Minor)->Ok_0;
    lemma_scan_numeric_ok(s, b1, Position::Patch);
    let c = scan_numeric(s, b1, Position::Patch)->Ok_0.1;
    let pre_part = scan_pre_suffix(s, c, Position::Patch)->Ok_0;
    let d = pre_part.2;
    let build_part = scan_build_suffix(s, d, pre_part.1)->Ok_0;
    let f = build_part.2;
    if c < s.len() && s[c] == '-' {
        lemma_scanned_is_identifier(s, c + 1, Position::Pre);
        lemma_scan_identifier_stop(s, c + 1, c + 1, Position::Pre);
    } else {
        lemma_empty_is_identifier(Position::Pre);
    }
    if 0 <= d < s.len() && s[d] == '+' {
        lemma_scanned_is_identifier(s, d + 1, Position::Build);
        lemma_scan_identifier_stop(s, d + 1, d + 1, Position::Build);
    } else {
        lemma_empty_is_identifier(Position::Build);
    }
    assert(f == s.len());
    let p = if v.pre.len() > 0 {
        seq!['-'] + v.pre
    } else {
        Seq::<char>::empty()
    };
    let q = if v.build.len() > 0 {
        seq!['+'] + v.build
    } else {
        Seq::<char>::empty()
    };
    assert(s.subrange(c, d) =~= p);
    assert(s.subrange(d, f) =~= q);
    assert(s =~= s.subrange(0, a) + seq!['.'] + s.subrange(a1, b) + seq!['.'] + s.subrange(b1, c)
        + s.subrange(c, d) + s.subrange(d, f));
}

/// A text parses as a version exactly when it is the canonical text of a
/// valid version, and it then parses to that version: printing a version and
/// parsing the text gives the version back, and a parsed text is reproduced
/// character for character.
pub proof fn law_version_text(s: Seq<char>, v: VersionModel)
    ensures
        parse_version(s) == Ok::<VersionModel, ErrorKind>(v) <==> (valid_version_model(v) && s
            == version_text(v)),
{
    if parse_version(s) == Ok::<VersionModel, ErrorKind>(v) {
        lemma_version_text_of_parse(s);
    }
    if valid_version_model(v) && s == version_text(v) {
        lemma_parse_version_text(v);
    }
}


/// A comparator that this library's parser can produce: a patch number only
/// after a minor number, a pre-release identifier only after a patch number,
/// no patch number with the wildcard operator, and a valid pre-release
/// identifier.
pub open spec fn valid_comparator_model(c: ComparatorModel) -> bool {
    &&& (c.patch is Some ==> c.minor is Some)
    &&& (c.pre.len() > 0 ==> c.patch is Some)
    &&& (c.op == Op::Wildcard ==> c.patch is None)
    &&& is_identifier(c.pre, Position::Pre)
}

/// A requirement that this library's parser can produce: at most
/// `MAX_COMPARATORS` valid comparators.
pub open spec fn valid_req_model(cs: Seq<ComparatorModel>) -> bool {
    &&& cs.len() <= MAX_COMPARATORS
    &&& forall|k: int| 0 <= k < cs.len() ==> valid_comparator_model(#[trigger] cs[k])
}

/// `+` and the build metadata, or nothing for empty metadata.
pub open spec fn build_tail(b: Seq<char>) -> Seq<char> {
    if b.len() > 0 {
        seq!['+'] + b
    } else {
        Seq::<char>::empty()
    }
}

proof fn lemma_scan_op_text(s: Seq<char>, i: int, op: Op)
    requires
        0 <= i,
        i + op_text(op).len() < s.len(),
        s.subrange(i, i + op_text(op).len()) == op_text(op),
        is_digit(s[i + op_text(op).len()]),
    ensures
        scan_op(s, i) == (if op == Op::Wildcard {
            Op::Caret
        } else {
            op
        }, i + op_text(op).len()),
{
    let n = op_text(op).len();
    if n > 0 {
        assert(s[i] == s.subrange(i, i + n)[0]);
    }
    if n > 1 {
        assert(s[i + 1] == s.subrange(i, i + n)[1]);
    }
}

/// The first character of a comparator's text is an operator character or
/// a digit.
proof fn lemma_comparator_text_first(c: ComparatorModel)
    ensures
        comparator_text(c).len() > 0,
        comparator_text(c)[0] != ' ',
        comparator_text(c)[0] != ',',
        !wildcard_at(comparator_text(c), 0),
{
    lemma_nat_text(c.major as nat);
    let t = comparator_text(c);
    let o = op_text(c.op);
    let n = nat_text(c.major as nat);
    assert(is_digit(n[0]));
    assert(t[0] == (o + n)[0]);
}

/// A valid comparator's text, followed by the end of the input or by a
/// comma, is read back as that comparator, up to the end of its text.
#[verifier::rlimit(50)]
proof fn lemma_scan_comparator_text(s: Seq<char>, i: int, c: ComparatorModel, build: Seq<char>)
    requires
        valid_comparator_model(c),
        build.len() > 0 ==> c.patch is Some && is_identifier(build, Position::Build),
        0 <= i,
        i + comparator_text(c).len() + build_tail(build).len() <= s.len(),
        s.subrange(i, i + comparator_text(c).len()) == comparator_text(c),
        s.subrange(i + comparator_text(c).len(), i + comparator_text(c).len() + build_tail(build).len())
            == build_tail(build),
        i + comparator_text(c).len() + build_tail(build).len() == s.len() || s[i + comparator_text(c).len()
            + build_tail(build).len()] == ',',
    ensures
        scan_comparator(s, i) is Ok,
        scan_comparator(s, i)->Ok_0.0 == c,
        scan_comparator(s, i)->Ok_0.2 == i + comparator_text(c).len() + build_tail(build).len(),
{
    let t = comparator_text(c);
    let e0 = i + t.len();
    let bt = build_tail(build);
    let e = e0 + bt.len();
    if build.len() > 0 {
        assert(s[e0] == bt[0]);
        assert(s.subrange(e0 + 1, e) =~= build) by {
            assert forall|k: int| 0 <= k < build.len() implies s.subrange(e0 + 1, e)[k] == build[k] by {
                assert(s.subrange(e0 + 1, e)[k] == s.subrange(e0, e)[1 + k]);
            }
        }
    } else {
        assert(e == e0);
    }
    let o = op_text(c.op);
    let nm = nat_text(c.major as nat);
    lemma_nat_text(c.major as nat);
    let j = i + o.len();
    let a = j + nm.len();
    let rest = match c.minor {
        Some(m) => seq!['.'] + nat_text(m as nat) + match c.patch {
            Some(p) => seq!['.'] + nat_text(p as nat) + (if c.pre.len() > 0 {
                seq!['-'] + c.pre
            } else {
                Seq::<char>::empty()
            }),
            None => wildcard_tail(c.op),
        },
        None => wildcard_tail(c.op),
    };
    assert(t =~= o + nm + rest);
    assert forall|k: int| 0 <= k < t.len() implies s[i + k] == #[trigger] t[k] by {
        assert(s[i + k] == s.subrange(i, e0)[k]);
    }
    assert(s.subrange(i, j) =~= o);
    assert(s.subrange(j, a) =~= nm) by {
        assert forall|k: int| 0 <= k < nm.len() implies s.subrange(j, a)[k] == nm[k] by {
            assert(s.subrange(j, a)[k] == s[j + k]);
            assert(s[j + k] == t[o.len() + k]);
            assert(t[o.len() + k] == (o + nm)[o.len() + k]);
        }
    }
    assert(is_digit(s[j])) by {
        assert(s[j] == t[o.len() as int]);
        assert(t[o.len() as int] == nm[0]);
    }
    lemma_scan_op_text(s, i, c.op);
    lemma_spaces_end_at(s, j, j);
    // What follows the major number.
    if a < e0 {
        assert(s[a] == t[a - i]);
        assert(t[a - i] == rest[0]);
        assert(s[a] == '.');
    }
    lemma_scan_numeric_text(s, j, c.major, Position::Major);
    match c.minor {
        Some(m) => {
            let nmi = nat_text(m as nat);
            lemma_nat_text(m as nat);
            let b = a + 1 + nmi.len();
            assert(s[a + 1] == t[a + 1 - i]);
            assert(t[a + 1 - i] == rest[1]);
            assert(rest[1] == nmi[0]);
            assert(s.subrange(a + 1, b) =~= nmi) by {
                assert forall|k: int| 0 <= k < nmi.len() implies s.subrange(a + 1, b)[k] == nmi[k] by {
                    assert(s.subrange(a + 1, b)[k] == t[a + 1 + k - i]);
                    assert(t[a + 1 + k - i] == rest[1 + k]);
                }
            }
            let rest2 = match c.patch {
                Some(p) => seq!['.'] + nat_text(p as nat) + (if c.pre.len() > 0 {
                    seq!['-'] + c.pre
                } else {
                    Seq::<char>::empty()
                }),
                None => wildcard_tail(c.op),
            };
            assert(rest =~= seq!['.'] + nmi + rest2);
            assert(b + rest2.len() == e0);
            assert forall|k: int| 0 <= k < rest2.len() implies s[b + k] == #[trigger] rest2[k] by {
                assert(s[b + k] == t[b + k - i]);
                assert(t[b + k - i] == rest[1 + nmi.len() as int + k]);
            }
            if b < e0 {
                assert(s[b + 0] == rest2[0]);
                assert(rest2[0] == '.');
            }
            lemma_scan_numeric_text(s, a + 1, m, Position::Minor);
            assert(!wildcard_at(s, a + 1));
            match c.patch {
                Some(p) => {
                    let np = nat_text(p as nat);
                    lemma_nat_text(p as nat);
                    let cc = b + 1 + np.len();
                    let pp = if c.pre.len() > 0 {
                        seq!['-'] + c.pre
                    } else {
                        Seq::<char>::empty()
                    };
                    assert(rest2 =~= seq!['.'] + np + pp);
                    assert(s[b + 1] == rest2[1]);
                    assert(rest2[1] == np[0]);
                    assert(s.subrange(b + 1, cc) =~= np) by {
                        assert forall|k: int| 0 <= k < np.len() implies s.subrange(b + 1, cc)[k] == np[k] by {
                            assert(s.subrange(b + 1, cc)[k] == s[b + 1 + k]);
                            assert(s[b + 1 + k] == rest2[1 + k]);
                        }
                    }
                    assert(cc + pp.len() == e0);
                    if cc < e0 {
                        assert(s[cc] == rest2[1 + np.len() as int]);
                        assert(s[cc] == '-');
                    }
                    lemma_scan_numeric_text(s, b + 1, p, Position::Patch);
                    assert(!wildcard_at(s, b + 1));
                    if c.pre.len() > 0 {
                        assert(s.subrange(cc + 1, e0) =~= c.pre) by {
                            assert forall|k: int| 0 <= k < c.pre.len() implies s.subrange(cc + 1, e0)[k]
                                == c.pre[k] by {
                                assert(s.subrange(cc + 1, e0)[k] == s[cc + 1 + k]);
                                assert(s[cc + 1 + k] == rest2[1 + np.len() as int + 1 + k]);
                            }
                        }
                        assert(embedded_at(s, cc + 1, c.pre));
                        lemma_scan_embedded_identifier(s, cc + 1, c.pre, Position::Pre);
                    } else {
                        assert(c.pre =~= Seq::<char>::empty());
                    }
                    if build.len() > 0 {
                        assert(embedded_at(s, e0 + 1, build));
                        lemma_scan_embedded_identifier(s, e0 + 1, build, Position::Build);
                    }
                    lemma_spaces_end_at(s, e, e);
                },
                None => {
                    assert(c.pre =~= Seq::<char>::empty());
                    if c.op == Op::Wildcard {
                        assert(s[b + 1] == '*');
                        assert(b + 2 == e0);
                    } else {
                        assert(b == e0);
                    }
                    lemma_spaces_end_at(s, e, e);
                },
            }
        },
        None => {
            assert(c.patch is None);
            assert(c.pre =~= Seq::<char>::empty());
            if c.op == Op::Wildcard {
                assert(s[a + 1] == t[a + 1 - i]);
                assert(s[a + 1] == '*');
                assert(a + 2 == e0);
            } else {
                assert(a == e0);
            }
            lemma_spaces_end_at(s, e, e);
        },
    }
}


proof fn lemma_joined_front(cs: Seq<ComparatorModel>)
    requires
        cs.len() >= 2,
    ensures
        joined_text(cs) == comparator_text(cs[0]) + seq![',', ' '] + joined_text(cs.drop_first()),
    decreases cs.len(),
{
    if cs.len() == 2 {
        assert(cs.drop_last().len() == 1);
        assert(cs.drop_first().len() == 1);
        assert(joined_text(cs.drop_last()) == comparator_text(cs[0]));
        assert(joined_text(cs.drop_first()) == comparator_text(cs[1]));
    } else {
        lemma_joined_front(cs.drop_last());
        assert(cs.drop_last().drop_first() =~= cs.drop_first().drop_last());
        assert(cs.drop_first().last() == cs.last());
        assert(joined_text(cs.drop_first()) == joined_text(cs.drop_first().drop_last()) + seq![',', ' ']
            + comparator_text(cs.drop_first().last()));
        assert(joined_text(cs) =~= comparator_text(cs[0]) + seq![',', ' '] + joined_text(
            cs.drop_first(),
        ));
    }
}

proof fn lemma_scan_req_text(s: Seq<char>, i: int, cs: Seq<ComparatorModel>, depth: int)
    requires
        cs.len() >= 1,
        0 <= depth,
        depth + cs.len() <= MAX_COMPARATORS,
        forall|k: int| 0 <= k < cs.len() ==> valid_comparator_model(#[trigger] cs[k]),
        0 <= i,
        i + joined_text(cs).len() == s.len(),
        s.subrange(i, s.len() as int) == joined_text(cs),
    ensures
        scan_req(s, i, depth) == Ok::<Seq<ComparatorModel>, ErrorKind>(cs),
    decreases cs.len(),
{
    let t0 = comparator_text(cs[0]);
    assert(valid_comparator_model(cs[0]));
    if cs.len() == 1 {
        assert(joined_text(cs) == t0);
        assert(s.subrange(i + t0.len(), i + t0.len()) =~= build_tail(Seq::<char>::empty()));
        lemma_scan_comparator_text(s, i, cs[0], Seq::<char>::empty());
        assert(seq![cs[0]] =~= cs);
    } else {
        lemma_joined_front(cs);
        let rest = cs.drop_first();
        let e = i + t0.len();
        let j = joined_text(cs);
        assert(j =~= t0 + seq![',', ' '] + joined_text(rest));
        assert(s.subrange(i, e) =~= t0) by {
            assert forall|k: int| 0 <= k < t0.len() implies s.subrange(i, e)[k] == t0[k] by {
                assert(s.subrange(i, e)[k] == s.subrange(i, s.len() as int)[k]);
                assert(j[k] == t0[k]);
            }
        }
        assert(s[e] == s.subrange(i, s.len() as int)[t0.len() as int]);
        assert(s[e] == ',');
        assert(s[e + 1] == s.subrange(i, s.len() as int)[t0.len() as int + 1]);
        assert(s[e + 1] == ' ');
        assert(s.subrange(i + t0.len(), i + t0.len()) =~= build_tail(Seq::<char>::empty()));
        lemma_scan_comparator_text(s, i, cs[0], Seq::<char>::empty());
        lemma_comparator_text_first(rest[0]);
        lemma_joined_nonempty(rest);
        assert(s[e + 2] == s.subrange(i, s.len() as int)[t0.len() as int + 2]);
        assert(s[e + 2] == joined_text(rest)[0]);
        assert(s.subrange(e + 2, s.len() as int) =~= joined_text(rest)) by {
            assert forall|k: int| 0 <= k < joined_text(rest).len() implies s.subrange(e + 2, s.len() as int)[k]
                == joined_text(rest)[k] by {
                assert(s.subrange(e + 2, s.len() as int)[k] == s.subrange(i, s.len() as int)[t0.len() + 2 + k]);
            }
        }
        lemma_spaces_end_at(s, e + 1, e + 2);
        assert forall|k: int| 0 <= k < rest.len() implies valid_comparator_model(#[trigger] rest[k]) by {
            assert(rest[k] == cs[k + 1]);
        }
        lemma_scan_req_text(s, e + 2, rest, depth + 1);
        assert(seq![cs[0]] + rest =~= cs);
    }
}

/// A non-empty list of comparators has a text that starts with the first
/// comparator's text.
proof fn lemma_joined_nonempty(cs: Seq<ComparatorModel>)
    requires
        cs.len() >= 1,
    ensures
        joined_text(cs).len() >= comparator_text(cs[0]).len(),
        joined_text(cs).len() > 0,
        joined_text(cs)[0] == comparator_text(cs[0])[0],
{
    lemma_comparator_text_first(cs[0]);
    if cs.len() >= 2 {
        lemma_joined_front(cs);
    }
}

/// Printing a valid comparator and parsing the text gives the comparator
/// back.
pub proof fn law_comparator_text(c: ComparatorModel)
    requires
        valid_comparator_model(c),
    ensures
        parse_comparator(comparator_text(c)) == Ok::<ComparatorModel, ErrorKind>(c),
{
    let s = comparator_text(c);
    lemma_comparator_text_first(c);
    lemma_spaces_end_at(s, 0, 0);
    assert(s.subrange(0, s.len() as int) =~= s);
    assert(s.subrange(s.len() as int, s.len() as int) =~= build_tail(Seq::<char>::empty()));
    lemma_scan_comparator_text(s, 0, c, Seq::<char>::empty());
}

/// Build metadata written on a comparator is read and dropped: a valid
/// comparator with a patch number, followed by `+` and valid build metadata,
/// parses to the comparator itself.
pub proof fn law_comparator_drops_build(c: ComparatorModel, b: Seq<char>)
    requires
        valid_comparator_model(c),
        c.patch is Some,
        b.len() > 0,
        is_identifier(b, Position::Build),
    ensures
        parse_comparator(comparator_text(c) + seq!['+'] + b) == Ok::<ComparatorModel, ErrorKind>(c),
{
    let t = comparator_text(c);
    let s = t + seq!['+'] + b;
    lemma_comparator_text_first(c);
    lemma_spaces_end_at(s, 0, 0);
    assert(s.subrange(0, t.len() as int) =~= t);
    assert(s.subrange(t.len() as int, s.len() as int) =~= build_tail(b));
    assert(s[0] == t[0]);
    lemma_scan_comparator_text(s, 0, c, b);
}

/// Printing a valid requirement and parsing the text gives the requirement
/// back, comparator for comparator and in order.
pub proof fn law_req_text(cs: Seq<ComparatorModel>)
    requires
        valid_req_model(cs),
    ensures
        parse_req(req_text(cs)) == Ok::<Seq<ComparatorModel>, ErrorKind>(cs),
{
    let s = req_text(cs);
    if cs.len() == 0 {
        assert(s[0] == '*');
        lemma_spaces_end_at(s, 0, 0);
        lemma_spaces_end_at(s, 1, 1);
        assert(cs =~= Seq::<ComparatorModel>::empty());
    } else {
        lemma_joined_nonempty(cs);
        lemma_comparator_text_first(cs[0]);
        lemma_spaces_end_at(s, 0, 0);
        assert(s.subrange(0, s.len() as int) =~= s);
        lemma_scan_req_text(s, 0, cs, 0);
    }
}


proof fn lemma_scan_comparator_valid(s: Seq<char>, i: int)
    requires
        scan_comparator(s, i) is Ok,
    ensures
        valid_comparator_model(scan_comparator(s, i)->Ok_0.0),
{
    let c = scan_comparator(s, i)->Ok_0.0;
    let j = scan_op(s, i).1;
    let a = scan_numeric(s, spaces_end(s, j), Position::Major)->Ok_0.1;
    let mi = scan_minor(s, a)->Ok_0;
    let pa = scan_patch(s, mi.3, mi.1, mi.2)->Ok_0;
    if pa.0 is Some && char_is(s, pa.3, '-') {
        lemma_scanned_is_identifier(s, pa.3 + 1, Position::Pre);
    } else {
        lemma_empty_is_identifier(Position::Pre);
    }
}

proof fn lemma_scan_req_valid(s: Seq<char>, i: int, depth: int)
    requires
        0 <= depth < MAX_COMPARATORS,
        scan_req(s, i, depth) is Ok,
    ensures
        scan_req(s, i, depth)->Ok_0.len() + depth <= MAX_COMPARATORS,
        forall|k: int|
            0 <= k < scan_req(s, i, depth)->Ok_0.len() ==> valid_comparator_model(
                #[trigger] scan_req(s, i, depth)->Ok_0[k],
            ),
    decreases MAX_COMPARATORS - depth,
{
    let cs = scan_req(s, i, depth)->Ok_0;
    lemma_scan_comparator_valid(s, i);
    let (c, pos, t) = scan_comparator(s, i)->Ok_0;
    if t < s.len() {
        let next = spaces_end(s, t + 1);
        lemma_scan_req_valid(s, next, depth + 1);
        let rest = scan_req(s, next, depth + 1)->Ok_0;
        assert(cs =~= seq![c] + rest);
        assert forall|k: int| 0 <= k < cs.len() implies valid_comparator_model(#[trigger] cs[k]) by {
            if k > 0 {
                assert(cs[k] == rest[k - 1]);
            }
        }
    }
}

/// Every comparator that parsing produces is valid.
pub proof fn law_parsed_comparator_valid(s: Seq<char>)
    requires
        parse_comparator(s) is Ok,
    ensures
        valid_comparator_model(parse_comparator(s)->Ok_0),
{
    lemma_scan_comparator_valid(s, spaces_end(s, 0));
}

/// Every requirement that parsing produces is valid; in particular it holds
/// at most `MAX_COMPARATORS` comparators.
pub proof fn law_parsed_req_valid(s: Seq<char>)
    requires
        parse_req(s) is Ok,
    ensures
        valid_req_model(parse_req(s)->Ok_0),
{
    let i = spaces_end(s, 0);
    if !wildcard_at(s, i) {
        lemma_scan_req_valid(s, i, 0);
    }
}

/// Printing a parsed comparator and parsing the text again gives the same
/// comparator: the canonical text is a fixed point of normalization.
pub proof fn law_comparator_reparse(s: Seq<char>)
    requires
        parse_comparator(s) is Ok,
    ensures
        parse_comparator(comparator_text(parse_comparator(s)->Ok_0)) == parse_comparator(s),
{
    law_parsed_comparator_valid(s);
    law_comparator_text(parse_comparator(s)->Ok_0);
}

/// Printing a parsed requirement and parsing the text again gives the same
/// requirement: the canonical text is a fixed point of normalization.
pub proof fn law_req_reparse(s: Seq<char>)
    requires
        parse_req(s) is Ok,
    ensures
        parse_req(req_text(parse_req(s)->Ok_0)) == parse_req(s),
{
    law_parsed_req_valid(s);
    law_req_text(parse_req(s)->Ok_0);
}

/// One segment of an identifier for `pos`: non-empty, made of ASCII
/// alphanumerics and `-`, and, in a pre-release identifier, a numeric
/// segment other than `0` does not start with `0`.
pub open spec fn valid_segment(g: Seq<char>, pos: Position) -> bool {
    &&& g.len() > 0
    &&& forall|i: int| 0 <= i < g.len() ==> is_ident_char(#[trigger] g[i])
    &&& (pos == Position::Pre && all_digits(g) && g.len() > 1 ==> g[0] != '0')
}

/// An identifier for `pos`: empty, or dot-separated valid segments.
pub open spec fn well_formed_identifier(t: Seq<char>, pos: Position) -> bool {
    t.len() == 0 || forall|k: int| 0 <= k < segments(t).len() ==> valid_segment(#[trigger] segments(t)[k], pos)
}

proof fn lemma_scan_segments(t: Seq<char>, k: int, pos: Position)
    requires
        0 <= k <= t.len(),
        k > 0 || t.len() > 0,
    ensures
        (scan_identifier(t, 0, k, pos) == Ok::<int, ErrorKind>(t.len() as int)) == (forall|j: int|
            0 <= j < segments_from(t, k).len() ==> valid_segment(#[trigger] segments_from(t, k)[j], pos)),
    decreases t.len() - k,
{
    lemma_ident_end_bounds(t, k);
    lemma_segment_end_bounds(t, k);
    lemma_digits_end_bounds(t, k);
    let e = ident_end(t, k);
    let se = segment_end(t, k);
    let segs = segments_from(t, k);
    assert(segs[0] == t.subrange(k, se));
    let g = t.subrange(k, se);
    // The identifier characters at `k` contain no dot.
    assert forall|i: int| k <= i < e implies t[i] != '.' by {
        assert(is_ident_char(t[i]));
    }
    if se < e {
        assert(t[se] == '.');
        assert(is_ident_char(t[se]));
    }
    assert(se >= e);
    lemma_scan_identifier_stop(t, 0, k, pos);
    if e == k {
        if se > k {
            assert(g[0] == t[k]);
            assert(!is_ident_char(g[0]));
        }
        assert(!valid_segment(g, pos));
        assert(!valid_segment(segs[0], pos));
    } else if e < se {
        assert(g[e - k] == t[e]);
        assert(!is_ident_char(g[e - k]));
        assert(!valid_segment(segs[0], pos));
        assert(scan_identifier(t, 0, k, pos) != Ok::<int, ErrorKind>(t.len() as int)) by {
            if pos == Position::Pre && e - k > 1 && digits_end(t, k) >= e && t[k] == '0' {
            } else {
                assert(t[e] != '.');
            }
        }
    } else {
        assert(se == e);
        assert forall|i: int| 0 <= i < g.len() implies is_ident_char(#[trigger] g[i]) by {
            assert(g[i] == t[k + i]);
        }
        assert((digits_end(t, k) >= e) == all_digits(g)) by {
            if digits_end(t, k) >= e {
                assert forall|i: int| 0 <= i < g.len() implies is_digit(#[trigger] g[i]) by {
                    assert(g[i] == t[k + i]);
                }
            }
            if all_digits(g) {
                assert forall|i: int| k <= i < e implies is_digit(#[trigger] t[i]) by {
                    assert(t[i] == g[i - k]);
                }
                lemma_digits_end_at(t, k, e);
            }
        }
        assert(g[0] == t[k]);
        if e < t.len() {
            assert(t[e] == '.');
            lemma_scan_segments(t, e + 1, pos);
            lemma_segments_from_split(t, k);
            assert forall|j: int| 0 <= j < segments_from(t, e + 1).len() implies segments_from(t, e + 1)[j]
                == #[trigger] segs[j + 1] by {}
            if forall|j: int| 0 <= j < segs.len() ==> valid_segment(#[trigger] segs[j], pos) {
                assert forall|j: int| 0 <= j < segments_from(t, e + 1).len() implies valid_segment(
                    #[trigger] segments_from(t, e + 1)[j],
                    pos,
                ) by {
                    assert(segments_from(t, e + 1)[j] == segs[j + 1]);
                }
            }
            if valid_segment(g, pos) && forall|j: int|
                0 <= j < segments_from(t, e + 1).len() ==> valid_segment(#[trigger] segments_from(t, e + 1)[j], pos) {
                assert forall|j: int| 0 <= j < segs.len() implies valid_segment(#[trigger] segs[j], pos) by {
                    if j > 0 {
                        assert(segs[j] == segments_from(t, e + 1)[j - 1]);
                    }
                }
            }
        } else {
            assert(segs.len() == 1);
        }
    }
}

proof fn lemma_segments_from_split(t: Seq<char>, k: int)
    requires
        0 <= k <= t.len(),
        segment_end(t, k) < t.len(),
    ensures
        segments_from(t, k) == seq![t.subrange(k, segment_end(t, k))] + segments_from(t, segment_end(t, k) + 1),
{
    lemma_segment_end_bounds(t, k);
}

/// The identifiers that `Prerelease::new` and `BuildMetadata::new` accept
/// are exactly the well-formed ones: empty, or dot-separated non-empty
/// segments of ASCII alphanumerics and `-`, where a pre-release identifier
/// may not give a numeric segment a leading zero.
pub proof fn law_identifier_syntax(t: Seq<char>, pos: Position)
    ensures
        is_identifier(t, pos) == well_formed_identifier(t, pos),
{
    if t.len() == 0 {
        lemma_empty_is_identifier(pos);
        assert(t =~= Seq::<char>::empty());
    } else {
        lemma_scan_segments(t, 0, pos);
        lemma_scan_identifier_stop(t, 0, 0, pos);
        assert(segments(t) == segments_from(t, 0));
        assert(is_identifier(t, pos) == (scan_identifier(t, 0, 0, pos) == Ok::<int, ErrorKind>(
            t.len() as int,
        )));
    }
}

/// Two valid versions (every `Version` value is one) are printed alike
/// exactly when they are equal: every field, build metadata included, shows
/// in the text.
pub proof fn law_version_text_injective(a: VersionModel, b: VersionModel)
    requires
        valid_version_model(a),
        valid_version_model(b),
    ensures
        (version_text(a) == version_text(b)) == (a == b),
{
    law_version_text(version_text(a), a);
    law_version_text(version_text(b), b);
}

/// No character of `s` is `+`.
spec fn plus_free(s: Seq<char>) -> bool {
    forall|i: int| 0 <= i < s.len() ==> #[trigger] s[i] != '+'
}

proof fn lemma_plus_free_concat(a: Seq<char>, b: Seq<char>)
    requires
        plus_free(a),
        plus_free(b),
    ensures
        plus_free(a + b),
{
    assert forall|i: int| 0 <= i < (a + b).len() implies #[trigger] (a + b)[i] != '+' by {
        if i < a.len() {
            assert((a + b)[i] == a[i]);
        } else {
            assert((a + b)[i] == b[i - a.len()]);
        }
    }
}

proof fn lemma_nat_text_plus_free(n: nat)
    ensures
        plus_free(nat_text(n)),
{
    lemma_nat_text(n);
    let t = nat_text(n);
    assert forall|i: int| 0 <= i < t.len() implies #[trigger] t[i] != '+' by {
        assert(is_digit(t[i]));
    }
}

proof fn lemma_comparator_text_plus_free(c: ComparatorModel)
    requires
        is_identifier(c.pre, Position::Pre),
    ensures
        plus_free(comparator_text(c)),
{
    lemma_identifier_chars(c.pre, Position::Pre);
    assert(plus_free(c.pre));
    assert(plus_free(op_text(c.op)));
    assert(plus_free(wildcard_tail(c.op)));
    assert(plus_free(seq!['.']));
    assert(plus_free(seq!['-']));
    assert(plus_free(Seq::<char>::empty()));
    lemma_nat_text_plus_free(c.major as nat);
    lemma_plus_free_concat(op_text(c.op), nat_text(c.major as nat));
    let tail = match c.minor {
        Some(m) => seq!['.'] + nat_text(m as nat) + match c.patch {
            Some(p) => seq!['.'] + nat_text(p as nat) + (if c.pre.len() > 0 {
                seq!['-'] + c.pre
            } else {
                Seq::<char>::empty()
            }),
            None => wildcard_tail(c.op),
        },
        None => wildcard_tail(c.op),
    };
    if let Some(m) = c.minor {
        lemma_nat_text_plus_free(m as nat);
        lemma_plus_free_concat(seq!['.'], nat_text(m as nat));
        let ptail = match c.patch {
            Some(p) => seq!['.'] + nat_text(p as nat) + (if c.pre.len() > 0 {
                seq!['-'] + c.pre
            } else {
                Seq::<char>::empty()
            }),
            None => wildcard_tail(c.op),
        };
        if let Some(p) = c.patch {
            lemma_nat_text_plus_free(p as nat);
            lemma_plus_free_concat(seq!['.'], nat_text(p as nat));
            lemma_plus_free_concat(seq!['-'], c.pre);
            let pre_tail = if c.pre.len() > 0 {
                seq!['-'] + c.pre
            } else {
                Seq::<char>::empty()
            };
            lemma_plus_free_concat(seq!['.'] + nat_text(p as nat), pre_tail);
        }
        lemma_plus_free_concat(seq!['.'] + nat_text(m as nat), ptail);
    }
    lemma_plus_free_concat(op_text(c.op) + nat_text(c.major as nat), tail);
}

proof fn lemma_joined_text_plus_free(cs: Seq<ComparatorModel>)
    requires
        forall|k: int| 0 <= k < cs.len() ==> is_identifier(#[trigger] cs[k].pre, Position::Pre),
    ensures
        plus_free(joined_text(cs)),
    decreases cs.len(),
{
    if cs.len() == 1 {
        lemma_comparator_text_plus_free(cs[0]);
    } else if cs.len() > 1 {
        assert forall|k: int| 0 <= k < cs.drop_last().len() implies is_identifier(
            #[trigger] cs.drop_last()[k].pre,
            Position::Pre,
        ) by {
            assert(cs.drop_last()[k] == cs[k]);
        }
        lemma_joined_text_plus_free(cs.drop_last());
        assert(cs.last() == cs[cs.len() - 1]);
        lemma_comparator_text_plus_free(cs.last());
        assert(plus_free(seq![',', ' ']));
        lemma_plus_free_concat(joined_text(cs.drop_last()), seq![',', ' ']);
        lemma_plus_free_concat(joined_text(cs.drop_last()) + seq![',', ' '], comparator_text(cs.last()));
    }
}

/// The text of a comparator never holds `+`: a comparator keeps no build
/// metadata, whatever its pre-release identifier.
pub proof fn law_comparator_text_has_no_plus(c: ComparatorModel)
    requires
        is_identifier(c.pre, Position::Pre),
    ensures
        !comparator_text(c).contains('+'),
{
    lemma_comparator_text_plus_free(c);
}

/// The text of a requirement never holds `+`: no comparator of it keeps
/// build metadata.
pub proof fn law_req_text_has_no_plus(cs: Seq<ComparatorModel>)
    requires
        forall|k: int| 0 <= k < cs.len() ==> is_identifier(#[trigger] cs[k].pre, Position::Pre),
    ensures
        !req_text(cs).contains('+'),
{
    if cs.len() == 0 {
        assert(plus_free(seq!['*']));
    } else {
        lemma_joined_text_plus_free(cs);
    }
}

} // verus!
