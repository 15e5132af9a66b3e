//! A fixed-width set of diagnostic flags.
//!
//! Each flag is one bit of a 64-bit word; which condition a bit stands for
//! is the caller's choice. The library only needs the empty set, union,
//! intersection, and a non-empty-intersection test.

use vstd::prelude::*;

verus! {

/// A set of up to 64 caller-defined flags, one bit per flag.
#[derive(Clone, Copy, Debug, PartialEq, Eq, Structural)]
pub struct FlagSet {
    pub bits: u64,
}

/// The union of two flag sets, as a value.
pub open spec fn union_spec(a: FlagSet, b: FlagSet) -> FlagSet {
    FlagSet { bits: a.bits | b.bits }
}

/// The intersection of two flag sets, as a value.
pub open spec fn intersection_spec(a: FlagSet, b: FlagSet) -> FlagSet {
    FlagSet { bits: a.bits & b.bits }
}

impl FlagSet {
    /// The set with no flag raised.
    pub fn empty() -> (r: FlagSet)
        ensures
            r.bits == 0,
    {
        FlagSet { bits: 0 }
    }

    /// Whether no flag is raised.
    pub fn is_empty(self) -> (r: bool)
        ensures
            r == (self.bits == 0),
    {
        self.bits == 0
    }

    /// The union of `self` and `other`: every flag raised in either.
    pub fn union(self, other: FlagSet) -> (r: FlagSet)
        ensures
            r == union_spec(self, other),
    {
        FlagSet { bits: self.bits | other.bits }
    }

    /// The intersection of `self` and `other`: the flags raised in both.
    pub fn intersection(self, other: FlagSet) -> (r: FlagSet)
        ensures
            r == intersection_spec(self, other),
    {
        FlagSet { bits: self.bits & other.bits }
    }

    /// Whether `self` and `other` share at least one raised flag.
    pub fn intersects(self, other: FlagSet) -> (r: bool)
        ensures
            r == (intersection_spec(self, other).bits != 0),
    {
        self.bits & other.bits != 0
    }
}

/// The flags accumulated by a chain of steps: the initial set merged, in
/// order, with every flag set the steps introduced.
pub open spec fn union_fold(initial: FlagSet, introduced: Seq<FlagSet>) -> FlagSet
    decreases introduced.len(),
{
    if introduced.len() == 0 {
        initial
    } else {
        union_spec(union_fold(initial, introduced.drop_last()), introduced.last())
    }
}

/// Every flag set introduced along a chain is absorbed by the accumulated
/// union: merging it in again changes nothing.
pub proof fn lemma_fold_absorbs(initial: FlagSet, introduced: Seq<FlagSet>, i: int)
    requires
        0 <= i < introduced.len(),
    ensures
        union_spec(union_fold(initial, introduced), introduced[i]) == union_fold(
            initial,
            introduced,
        ),
    decreases introduced.len(),
{
    let f: u64 = union_fold(initial, introduced.drop_last()).bits;
    let l: u64 = introduced.last().bits;
    let x: u64 = introduced[i].bits;
    if i == introduced.len() - 1 {
        assert((f | l) | l == f | l) by (bit_vector);
    } else {
        lemma_fold_absorbs(initial, introduced.drop_last(), i);
        assert(f | x == f ==> (f | l) | x == f | l) by (bit_vector);
    }
    assert(FlagSet { bits: union_fold(initial, introduced).bits } == union_fold(
        initial,
        introduced,
    ));
}

/// A step that introduces flags some earlier step already introduced
/// leaves the accumulated union unchanged, however often it is repeated.
pub proof fn lemma_fold_duplicate_step(initial: FlagSet, introduced: Seq<FlagSet>, i: int)
    requires
        0 <= i < introduced.len(),
    ensures
        union_fold(initial, introduced.push(introduced[i])) == union_fold(initial, introduced),
{
    let extended = introduced.push(introduced[i]);
    assert(extended.drop_last() =~= introduced);
    assert(extended.last() == introduced[i]);
    lemma_fold_absorbs(initial, introduced, i);
}

/// Union of flag sets is commutative: merging flags from two sides gives
/// the same set whichever side contributes first.
pub proof fn lemma_union_commutative(a: FlagSet, b: FlagSet)
    ensures
        union_spec(a, b) == union_spec(b, a),
{
    let x: u64 = a.bits;
    let y: u64 = b.bits;
    assert(x | y == y | x) by (bit_vector);
}

/// Union of flag sets is associative: a chain of merges may be grouped
/// in any way.
pub proof fn lemma_union_associative(a: FlagSet, b: FlagSet, c: FlagSet)
    ensures
        union_spec(union_spec(a, b), c) == union_spec(a, union_spec(b, c)),
{
    let x: u64 = a.bits;
    let y: u64 = b.bits;
    let z: u64 = c.bits;
    assert((x | y) | z == x | (y | z)) by (bit_vector);
}

/// Union of flag sets is idempotent: a step that raises flags already
/// present changes nothing, however often it is repeated.
pub proof fn lemma_union_idempotent(a: FlagSet, b: FlagSet)
    ensures
        union_spec(union_spec(a, b), b) == union_spec(a, b),
{
    let x: u64 = a.bits;
    let y: u64 = b.bits;
    assert((x | y) | y == x | y) by (bit_vector);
}

/// The empty set is the identity of union: a step that raises no flag
/// leaves the accumulated set unchanged.
pub proof fn lemma_union_empty_identity(a: FlagSet)
    ensures
        union_spec(a, (FlagSet { bits: 0 })) == a,
        union_spec((FlagSet { bits: 0 }), a) == a,
{
    let x: u64 = a.bits;
    assert(x | 0 == x) by (bit_vector);
    assert(0 | x == x) by (bit_vector);
}

} // verus!
