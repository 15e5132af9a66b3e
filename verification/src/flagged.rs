//! A value paired with the diagnostic flags accumulated while computing it.
//!
//! Every operation builds a new instance; flags are only ever added by
//! union, never dropped, until one of the two terminal conversions turns
//! them into a success-or-failure outcome.

use vstd::prelude::*;
use crate::flag_set::FlagSet;
use crate::flag_set::union_spec;
use crate::flag_set::intersection_spec;

verus! {

/// A computed value together with every flag raised while computing it.
///
/// The value is always present: flags stand for soft conditions, never
/// for an absent value.
#[derive(Clone, Copy, Debug)]
pub struct Flagged<T> {
    pub value: T,
    pub flags: FlagSet,
}

/// A bare value wrapped with the empty flag set.
pub open spec fn wrap_spec<T>(value: T) -> Flagged<T> {
    Flagged { value, flags: FlagSet { bits: 0 } }
}

/// The strict outcome: the value when no flag is raised, otherwise the
/// whole accumulated flag set.
pub open spec fn into_result_spec<T>(fl: Flagged<T>) -> Result<T, FlagSet> {
    if fl.flags.bits == 0 {
        Ok(fl.value)
    } else {
        Err(fl.flags)
    }
}

/// The filtered outcome against a set of fatal flags: the value when no
/// fatal flag is raised, otherwise exactly the raised fatal flags.
pub open spec fn into_result_against_spec<T>(fl: Flagged<T>, fatal: FlagSet) -> Result<
    T,
    FlagSet,
> {
    if intersection_spec(fl.flags, fatal).bits != 0 {
        Err(intersection_spec(fl.flags, fatal))
    } else {
        Ok(fl.value)
    }
}

impl<T> Flagged<T> {
    /// Wraps a bare value with the empty flag set.
    pub fn wrap(value: T) -> (r: Flagged<T>)
        ensures
            r == wrap_spec(value),
    {
        Flagged { value, flags: FlagSet { bits: 0 } }
    }

    /// Chains a step: calls `f` once on the value, and merges the step's
    /// flags into the accumulated set by union, losing none of either side.
    pub fn and_then<U, G>(self, f: G) -> (r: Flagged<U>) where G: FnOnce(T) -> Flagged<U>,
        requires
            f.requires((self.value,)),
        ensures
            exists|inner: Flagged<U>|
                #[trigger] f.ensures((self.value,), inner) && r.value == inner.value && r.flags
                    == union_spec(self.flags, inner.flags),
    {
        let Flagged { value, flags } = self;
        let Flagged { value: new_value, flags: new_flags } = f(value);
        Flagged { value: new_value, flags: flags.union(new_flags) }
    }

    /// The strict terminal conversion: succeeds with the value exactly
    /// when no flag is accumulated; fails with the entire accumulated set
    /// otherwise.
    pub fn into_result(self) -> (r: Result<T, FlagSet>)
        ensures
            r == into_result_spec(self),
    {
        if self.flags.is_empty() {
            Ok(self.value)
        } else {
            Err(self.flags)
        }
    }

    /// The filtered terminal conversion: succeeds with the value exactly
    /// when no flag of the fatal subset is accumulated; fails with the
    /// intersection otherwise. Flags outside the fatal subset are dropped
    /// either way.
    pub fn into_result_against(self, flags: FlagSet) -> (r: Result<T, FlagSet>)
        ensures
            r == into_result_against_spec(self, flags),
    {
        if self.flags.intersects(flags) {
            Err(self.flags.intersection(flags))
        } else {
            Ok(self.value)
        }
    }
}

impl<T> From<T> for Flagged<T> {
    /// Wraps a bare value with the empty flag set, as `wrap` does.
    fn from(value: T) -> (r: Self) {
        Flagged { value, flags: FlagSet { bits: 0 } }
    }
}

impl<T> vstd::std_specs::convert::FromSpecImpl<T> for Flagged<T> {
    open spec fn obeys_from_spec() -> bool {
        true
    }

    open spec fn from_spec(value: T) -> Self {
        wrap_spec(value)
    }
}

/// The union of every flag set accumulated by the elements of `s`, folded
/// left to right from the empty set.
pub open spec fn collected_flags<T>(s: Seq<Flagged<T>>) -> FlagSet
    decreases s.len(),
{
    if s.len() == 0 {
        FlagSet { bits: 0 }
    } else {
        union_spec(collected_flags(s.drop_last()), s.last().flags)
    }
}

/// Extending a prefix by one element merges that element's flags into the
/// folded union.
proof fn lemma_collected_flags_take_step<T>(s: Seq<Flagged<T>>, k: int)
    requires
        0 <= k < s.len(),
    ensures
        collected_flags(s.take(k + 1)) == union_spec(collected_flags(s.take(k)), s[k].flags),
{
    let t = s.take(k + 1);
    assert(t.drop_last() =~= s.take(k));
    assert(t.last() == s[k]);
}

impl<T> Flagged<T> {
    /// Aggregates a sequence of flagged values into one flagged sequence:
    /// the values in their input order, under the union of every
    /// element's flags.
    pub fn collect(items: Vec<Flagged<T>>) -> (r: Flagged<Vec<T>>)
        ensures
            r.value@.len() == items@.len(),
            forall|i: int| 0 <= i < items@.len() ==> r.value@[i] == items@[i].value,
            r.flags == collected_flags(items@),
    {
        let ghost orig: Seq<Flagged<T>> = items@;
        let mut rest = items;
        let mut values: Vec<T> = Vec::new();
        let mut flags = FlagSet::empty();
        while rest.len() > 0
            invariant
                values@.len() + rest@.len() == orig.len(),
                forall|i: int| 0 <= i < values@.len() ==> values@[i] == orig[i].value,
                forall|i: int| 0 <= i < rest@.len() ==> rest@[i] == orig[values@.len() + i],
                flags == collected_flags(orig.take(values@.len() as int)),
            decreases rest.len(),
        {
            let ghost k: int = values@.len() as int;
            let Flagged { value, flags: step_flags } = rest.remove(0);
            values.push(value);
            flags = flags.union(step_flags);
            proof {
                lemma_collected_flags_take_step(orig, k);
            }
        }
        proof {
            assert(orig.take(orig.len() as int) =~= orig);
        }
        Flagged { value: values, flags }
    }
}

/// Wrapping a bare value yields empty flags and the value unchanged.
pub proof fn lemma_wrap_bare<T>(value: T)
    ensures
        wrap_spec(value).flags.bits == 0,
        wrap_spec(value).value == value,
{
}

/// With no flag fatal, the filtered conversion always succeeds with the
/// value, whatever flags are accumulated.
pub proof fn lemma_against_empty<T>(fl: Flagged<T>)
    ensures
        into_result_against_spec(fl, (FlagSet { bits: 0 })) == Ok::<T, FlagSet>(fl.value),
{
    let x: u64 = fl.flags.bits;
    assert(x & 0 == 0) by (bit_vector);
}

/// With every flag fatal, the filtered conversion agrees with the strict
/// one: its failure payload is the entire accumulated set.
pub proof fn lemma_against_full<T>(fl: Flagged<T>)
    ensures
        into_result_against_spec(fl, (FlagSet { bits: 0xffff_ffff_ffff_ffff }))
            == into_result_spec(fl),
{
    let x: u64 = fl.flags.bits;
    assert(x & 0xffff_ffff_ffff_ffffu64 == x) by (bit_vector);
    assert(FlagSet { bits: x } == fl.flags);
}

} // verus!
