//! Three-way comparison results.

use vstd::prelude::*;
use std::cmp::Ordering;

verus! {

/// The outcome of comparing two values.
#[derive(Copy, Clone, Debug, PartialEq, Eq, Structural, Hash)]
pub enum Comparison {
    Less,
    Equal,
    Greater,
}

impl Comparison {
    /// The outcome of the same comparison with the operands swapped.
    pub open spec fn reversed(self) -> Comparison {
        match self {
            Comparison::Less => Comparison::Greater,
            Comparison::Equal => Comparison::Equal,
            Comparison::Greater => Comparison::Less,
        }
    }
}

/// Numeric comparison of two integers.
pub open spec fn compare_int(m: int, n: int) -> Comparison {
    if m < n {
        Comparison::Less
    } else if n < m {
        Comparison::Greater
    } else {
        Comparison::Equal
    }
}

/// The std `Ordering` that corresponds to a comparison outcome.
pub open spec fn ordering_of(c: Comparison) -> Ordering {
    match c {
        Comparison::Less => Ordering::Less,
        Comparison::Equal => Ordering::Equal,
        Comparison::Greater => Ordering::Greater,
    }
}

pub(crate) fn to_ordering(c: Comparison) -> (r: Ordering)
    ensures
        r == ordering_of(c),
{
    match c {
        Comparison::Less => Ordering::Less,
        Comparison::Equal => Ordering::Equal,
        Comparison::Greater => Ordering::Greater,
    }
}

pub(crate) fn compare_u64(m: u64, n: u64) -> (r: Comparison)
    ensures
        r == compare_int(m as int, n as int),
{
    if m < n {
        Comparison::Less
    } else if n < m {
        Comparison::Greater
    } else {
        Comparison::Equal
    }
}

pub(crate) fn compare_usize(m: usize, n: usize) -> (r: Comparison)
    ensures
        r == compare_int(m as int, n as int),
{
    if m < n {
        Comparison::Less
    } else if n < m {
        Comparison::Greater
    } else {
        Comparison::Equal
    }
}

} // verus!
