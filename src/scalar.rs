use vstd::prelude::*;

verus! {

/// The real number type that the boundary element computation runs on.
///
/// The library never looks inside a value of this type: it moves values
/// around and asks this trait for arithmetic, elementary functions and the
/// comparison that partial pivoting needs. Each operation is modelled by a
/// spec function of the same name, and an implementation must return exactly
/// that model's value, that is, behave as a function of its arguments alone.
/// IEEE-754 `f64`, as Rust computes it, is the intended implementation; it
/// meets this up to the sign and payload bits of a NaN result, which Rust
/// leaves unspecified.
pub trait MyNum: Copy {
    spec fn spec_from_usize(k: usize) -> Self;

    spec fn spec_tau() -> Self;

    spec fn spec_plus(self, o: Self) -> Self;

    spec fn spec_minus(self, o: Self) -> Self;

    spec fn spec_times(self, o: Self) -> Self;

    spec fn spec_over(self, o: Self) -> Self;

    spec fn spec_sqrt(self) -> Self;

    spec fn spec_ln(self) -> Self;

    spec fn spec_sin(self) -> Self;

    spec fn spec_cos(self) -> Self;

    spec fn spec_atan2(self, x: Self) -> Self;

    spec fn spec_magnitude(self) -> Self;

    spec fn spec_exceeds(self, o: Self) -> bool;

    /// The integer `k` as a number.
    fn from_usize(k: usize) -> (r: Self)
        ensures
            r == Self::spec_from_usize(k),
    ;

    /// The full turn, `2 pi`.
    fn tau() -> (r: Self)
        ensures
            r == Self::spec_tau(),
    ;

    /// `self + o`.
    fn plus(&self, o: &Self) -> (r: Self)
        ensures
            r == self.spec_plus(*o),
    ;

    /// `self - o`.
    fn minus(&self, o: &Self) -> (r: Self)
        ensures
            r == self.spec_minus(*o),
    ;

    /// `self * o`.
    fn times(&self, o: &Self) -> (r: Self)
        ensures
            r == self.spec_times(*o),
    ;

    /// `self / o`.
    fn over(&self, o: &Self) -> (r: Self)
        ensures
            r == self.spec_over(*o),
    ;

    /// The square root.
    fn sqrt(&self) -> (r: Self)
        ensures
            r == self.spec_sqrt(),
    ;

    /// The natural logarithm.
    fn ln(&self) -> (r: Self)
        ensures
            r == self.spec_ln(),
    ;

    /// The sine of an angle in radians.
    fn sin(&self) -> (r: Self)
        ensures
            r == self.spec_sin(),
    ;

    /// The cosine of an angle in radians.
    fn cos(&self) -> (r: Self)
        ensures
            r == self.spec_cos(),
    ;

    /// The angle of the vector `(x, self)`, as `atan2(self, x)`.
    fn atan2(&self, x: &Self) -> (r: Self)
        ensures
            r == self.spec_atan2(*x),
    ;

    /// The absolute value.
    fn magnitude(&self) -> (r: Self)
        ensures
            r == self.spec_magnitude(),
    ;

    /// `self > o`.
    fn exceeds(&self, o: &Self) -> (r: bool)
        ensures
            r == self.spec_exceeds(*o),
    ;
}

/// `0`.
pub open spec fn zero<T: MyNum>() -> T {
    T::spec_from_usize(0)
}

/// `1`.
pub open spec fn one<T: MyNum>() -> T {
    T::spec_from_usize(1)
}

/// `1 / 2`, exact in binary floating point.
pub open spec fn half<T: MyNum>() -> T {
    one::<T>().spec_over(T::spec_from_usize(2))
}

} // verus!
