use vstd::prelude::*;

verus! {

/// The arithmetic that elimination needs from a coefficient type.
///
/// Each operation is tied to a spec function of the same meaning, so that
/// the contracts of the matrix and of the solver can say which values every
/// entry ends up holding, whatever the arithmetic of the type is (exact,
/// or rounded as with IEEE floats).
///
/// An implementation outside verified code defines each `spec_*` function
/// as the exec method of the same name computes it; the contracts of this
/// crate then describe the values that the code actually produces.
pub trait Scalar: Sized + Copy {
    /// Whether the value compares equal to zero.
    spec fn spec_is_zero(&self) -> bool;

    /// `self + o`.
    spec fn spec_plus(&self, o: &Self) -> Self;

    /// `self * o`.
    spec fn spec_times(&self, o: &Self) -> Self;

    /// `-self`.
    spec fn spec_negated(&self) -> Self;

    /// `1 / self`.
    spec fn spec_reciprocal(&self) -> Self;

    fn is_zero(&self) -> (r: bool)
        ensures
            r == self.spec_is_zero(),
    ;

    fn plus(&self, o: &Self) -> (r: Self)
        ensures
            r == self.spec_plus(o),
    ;

    fn times(&self, o: &Self) -> (r: Self)
        ensures
            r == self.spec_times(o),
    ;

    fn negated(&self) -> (r: Self)
        ensures
            r == self.spec_negated(),
    ;

    fn reciprocal(&self) -> (r: Self)
        ensures
            r == self.spec_reciprocal(),
    ;
}

} // verus!
