//! Canonical text of versions, comparators and version requirements.

use vstd::prelude::*;
use crate::chars::{nat_text, push_char, push_decimal};
use crate::error::{ErrorKind, Position};
use crate::identifier::is_identifier;
use crate::parse::parse_version;
use crate::text_laws::{
    law_comparator_text_has_no_plus, law_req_text_has_no_plus, law_version_text,
    valid_version_model,
};
use crate::version::{Comparator, ComparatorModel, Op, Version, VersionModel, VersionReq};

verus! {

/// `major.minor.patch`, then `-pre` and `+build` when they are not empty.
pub open spec fn version_text(v: VersionModel) -> Seq<char> {
    nat_text(v.major as nat) + seq!['.'] + nat_text(v.minor as nat) + seq!['.'] + nat_text(
        v.patch as nat,
    ) + (if v.pre.len() > 0 {
        seq!['-'] + v.pre
    } else {
        Seq::<char>::empty()
    }) + (if v.build.len() > 0 {
        seq!['+'] + v.build
    } else {
        Seq::<char>::empty()
    })
}

/// The spelling of an operator; the wildcard operator has none.
pub open spec fn op_text(op: Op) -> Seq<char> {
    match op {
        Op::Exact => seq!['='],
        Op::Greater => seq!['>'],
        Op::GreaterEq => seq!['>', '='],
        Op::Less => seq!['<'],
        Op::LessEq => seq!['<', '='],
        Op::Tilde => seq!['~'],
        Op::Caret => seq!['^'],
        Op::Wildcard => Seq::<char>::empty(),
    }
}

/// `.*` where a wildcard comparator stops, nothing for other operators.
pub open spec fn wildcard_tail(op: Op) -> Seq<char> {
    if op == Op::Wildcard {
        seq!['.', '*']
    } else {
        Seq::<char>::empty()
    }
}

/// Operator and major number, then `.minor`, `.patch` and `-pre` as far as
/// they are present (the pre-release identifier only after a patch number).
pub open spec fn comparator_text(c: ComparatorModel) -> Seq<char> {
    op_text(c.op) + nat_text(c.major as nat) + match c.minor {
        Some(m) => seq!['.'] + nat_text(m as nat) + match c.patch {
            Some(p) => seq!['.'] + nat_text(p as nat) + (if c.pre.len() > 0 {
                seq!['-'] + c.pre
            } else {
                Seq::<char>::empty()
            }),
            None => wildcard_tail(c.op),
        },
        None => wildcard_tail(c.op),
    }
}

/// The comparators' texts joined by `, `.
pub open spec fn joined_text(cs: Seq<ComparatorModel>) -> Seq<char>
    decreases cs.len(),
{
    if cs.len() == 0 {
        Seq::<char>::empty()
    } else if cs.len() == 1 {
        comparator_text(cs[0])
    } else {
        joined_text(cs.drop_last()) + seq![',', ' '] + comparator_text(cs.last())
    }
}

/// `*` for the requirement without comparators, else the joined comparators.
pub open spec fn req_text(cs: Seq<ComparatorModel>) -> Seq<char> {
    if cs.len() == 0 {
        seq!['*']
    } else {
        joined_text(cs)
    }
}

impl Version {
    /// The canonical text of the version. Every version is valid, and its
    /// text parses back to the version itself, build metadata included.
    pub fn to_string(&self) -> (r: String)
        ensures
            r@ == version_text(self@),
            valid_version_model(self@),
            parse_version(r@) == Ok::<VersionModel, ErrorKind>(self@),
    {
        let pre = self.pre.as_str();
        let build = self.build.as_str();
        let mut s = String::new();
        push_decimal(&mut s, self.major);
        push_char(&mut s, '.');
        push_decimal(&mut s, self.minor);
        push_char(&mut s, '.');
        push_decimal(&mut s, self.patch);
        if !self.pre.is_empty() {
            push_char(&mut s, '-');
            s.append(pre);
        }
        if !self.build.is_empty() {
            push_char(&mut s, '+');
            s.append(build);
        }
        assert(s@ =~= version_text(self@));
        proof {
            law_version_text(s@, self@);
        }
        s
    }
}

fn push_op(s: &mut String, op: Op)
    ensures
        final(s)@ == old(s)@ + op_text(op),
{
    match op {
        Op::Exact => push_char(s, '='),
        Op::Greater => push_char(s, '>'),
        Op::GreaterEq => {
            push_char(s, '>');
            push_char(s, '=');
        },
        Op::Less => push_char(s, '<'),
        Op::LessEq => {
            push_char(s, '<');
            push_char(s, '=');
        },
        Op::Tilde => push_char(s, '~'),
        Op::Caret => push_char(s, '^'),
        Op::Wildcard => {},
    }
    assert(final(s)@ =~= old(s)@ + op_text(op));
}

fn push_wildcard_tail(s: &mut String, op: Op)
    ensures
        final(s)@ == old(s)@ + wildcard_tail(op),
{
    if op == Op::Wildcard {
        push_char(s, '.');
        push_char(s, '*');
    }
    assert(final(s)@ =~= old(s)@ + wildcard_tail(op));
}

fn push_comparator(s: &mut String, c: &Comparator)
    ensures
        final(s)@ == old(s)@ + comparator_text(c@),
        is_identifier(c@.pre, Position::Pre),
{
    let pre = c.pre.as_str();
    push_op(s, c.op);
    push_decimal(s, c.major);
    match c.minor {
        Some(m) => {
            push_char(s, '.');
            push_decimal(s, m);
            match c.patch {
                Some(p) => {
                    push_char(s, '.');
                    push_decimal(s, p);
                    if !c.pre.is_empty() {
                        push_char(s, '-');
                        s.append(pre);
                    }
                },
                None => push_wildcard_tail(s, c.op),
            }
        },
        None => push_wildcard_tail(s, c.op),
    }
    assert(final(s)@ =~= old(s)@ + comparator_text(c@));
}

impl Comparator {
    /// The canonical text of the comparator, which never holds build
    /// metadata.
    pub fn to_string(&self) -> (r: String)
        ensures
            r@ == comparator_text(self@),
            !r@.contains('+'),
    {
        let mut s = String::new();
        push_comparator(&mut s, self);
        assert(s@ =~= comparator_text(self@));
        proof {
            law_comparator_text_has_no_plus(self@);
        }
        s
    }
}

impl VersionReq {
    /// The canonical text of the requirement, which never holds build
    /// metadata.
    pub fn to_string(&self) -> (r: String)
        ensures
            r@ == req_text(self@),
            !r@.contains('+'),
    {
        let mut s = String::new();
        let n = self.comparators.len();
        if n == 0 {
            push_char(&mut s, '*');
            assert(s@ =~= req_text(self@));
            proof {
                law_req_text_has_no_plus(self@);
            }
            return s;
        }
        let mut i: usize = 0;
        while i < n
            invariant
                n == self.comparators.len(),
                n == self@.len(),
                i <= n,
                s@ == joined_text(self@.take(i as int)),
                forall|k: int| 0 <= k < i ==> is_identifier(#[trigger] self@[k].pre, Position::Pre),
            decreases n - i,
        {
            if i > 0 {
                push_char(&mut s, ',');
                push_char(&mut s, ' ');
            }
            push_comparator(&mut s, &self.comparators[i]);
            proof {
                let t = self@.take(i + 1);
                assert(t.drop_last() =~= self@.take(i as int));
                assert(t.last() == self.comparators[i as int]@);
                if i == 0 {
                    assert(joined_text(self@.take(0)) =~= Seq::<char>::empty());
                }
            }
            assert(s@ =~= joined_text(self@.take(i + 1)));
            i = i + 1;
        }
        assert(self@.take(n as int) =~= self@);
        proof {
            law_req_text_has_no_plus(self@);
        }
        s
    }
}

} // verus!
