//! Small shared pieces.
pub mod chunk_set;
pub mod collector_laws;
pub mod data_collection;
pub mod messages;
pub mod random;
pub mod table;

use vstd::prelude::*;

verus! {

/// The opposite of `b`.
pub fn not(b: bool) -> (r: bool)
    ensures
        r == !b,
{
    !b
}

/// A set of flags kept in the bits of an integer.
pub trait Flags: Sized {
    /// One flag.
    type FlagType;

    /// The bits that are set.
    spec fn bits(&self) -> u32;

    /// The bit of a flag.
    spec fn mask(flag: Self::FlagType) -> u32;

    /// The union of the bits of `flags`.
    spec fn union_of(flags: Seq<Self::FlagType>) -> u32;

    /// The set of exactly the given flags.
    fn construct(flags: &[Self::FlagType]) -> (r: Self)
        ensures
            r.bits() == Self::union_of(flags@),
    ;

    /// The known flags that are set, in the order in which they are declared.
    fn deconstruct(self) -> (r: Vec<Self::FlagType>)
        ensures
            forall|f: Self::FlagType| r@.contains(f) <==> self.bits() & Self::mask(f) != 0,
            r@.no_duplicates(),
    ;

    /// No flag.
    fn none() -> (r: Self)
        ensures
            r.bits() == 0,
    ;

    /// `self` and `flag`.
    fn set(self, flag: Self::FlagType) -> (r: Self)
        ensures
            r.bits() == self.bits() | Self::mask(flag),
    ;

    /// `self` without `flag`.
    fn unset(self, flag: Self::FlagType) -> (r: Self)
        ensures
            r.bits() == self.bits() & !Self::mask(flag),
    ;

    /// Whether `flag` is set.
    fn contains(&self, flag: Self::FlagType) -> (r: bool)
        ensures
            r == (self.bits() & Self::mask(flag) != 0),
    ;
}

/// Setting a flag sets it and no other; unsetting it clears it and no other.
pub proof fn flags_are_independent(bits: u32, flag: u32, other: u32)
    requires
        flag != 0,
        flag & other == 0,
    ensures
        (bits | flag) & flag != 0,
        (bits & !flag) & flag == 0,
        (bits | flag) & other == bits & other,
        (bits & !flag) & other == bits & other,
{
    assert((bits | flag) & flag != 0) by (bit_vector)
        requires
            flag != 0,
    ;
    assert((bits & !flag) & flag == 0) by (bit_vector);
    assert((bits | flag) & other == bits & other && (bits & !flag) & other == bits & other)
        by (bit_vector)
        requires
            flag & other == 0,
    ;
}

} // verus!
