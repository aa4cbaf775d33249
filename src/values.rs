use vstd::prelude::*;

verus! {

/// A type with no fields and a single value.
#[derive(Debug, Clone, Copy, PartialEq, Eq, Structural)]
pub struct Unit;

/// A pair of two values of any types.
#[derive(Debug)]
pub struct Pair<T1, T2>(pub T1, pub T2);

/// Three named values, in order.
#[derive(Debug, Clone, Copy, PartialEq, Eq, Structural)]
pub enum Number {
    Zero,
    One,
    Two,
}

} // verus!
