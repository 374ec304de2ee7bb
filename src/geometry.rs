use vstd::prelude::*;

use crate::scalar::MyNum;

verus! {

/// A point, or a vector, of the plane.
#[derive(Clone, Copy)]
pub struct Point<T> {
    pub x: T,
    pub y: T,
}

/// `p - q`, by components.
pub open spec fn spec_diff<T: MyNum>(p: Point<T>, q: Point<T>) -> Point<T> {
    Point { x: p.x.spec_minus(q.x), y: p.y.spec_minus(q.y) }
}

/// The scalar product `p . q`.
pub open spec fn spec_dot<T: MyNum>(p: Point<T>, q: Point<T>) -> T {
    p.x.spec_times(q.x).spec_plus(p.y.spec_times(q.y))
}

/// The Euclidean length of `p`.
pub open spec fn spec_norm<T: MyNum>(p: Point<T>) -> T {
    spec_dot(p, p).spec_sqrt()
}

/// The midpoint of the segment `p -> q`.
pub open spec fn spec_midpoint<T: MyNum>(p: Point<T>, q: Point<T>) -> Point<T> {
    let two = T::spec_from_usize(2);
    Point { x: p.x.spec_plus(q.x).spec_over(two), y: p.y.spec_plus(q.y).spec_over(two) }
}

impl<T: MyNum> Point<T> {
    /// The point `(x, y)`.
    pub fn new(x: T, y: T) -> (r: Self)
        ensures
            r.x == x,
            r.y == y,
    {
        Point { x, y }
    }

    /// `self - o`, by components.
    pub fn diff(&self, o: &Self) -> (r: Self)
        ensures
            r == spec_diff(*self, *o),
    {
        Point { x: self.x.minus(&o.x), y: self.y.minus(&o.y) }
    }

    /// The scalar product `self . o`.
    pub fn dot(&self, o: &Self) -> (r: T)
        ensures
            r == spec_dot(*self, *o),
    {
        self.x.times(&o.x).plus(&self.y.times(&o.y))
    }

    /// The Euclidean length of `self`.
    pub fn norm(&self) -> (r: T)
        ensures
            r == spec_norm(*self),
    {
        self.dot(self).sqrt()
    }

    /// The midpoint of the segment `self -> o`.
    pub fn midpoint(&self, o: &Self) -> (r: Self)
        ensures
            r == spec_midpoint(*self, *o),
    {
        let two = T::from_usize(2);
        Point { x: self.x.plus(&o.x).over(&two), y: self.y.plus(&o.y).over(&two) }
    }
}

} // verus!
