use vstd::prelude::*;

use crate::geometry::{spec_diff, spec_dot, spec_norm, Point};
use crate::scalar::{zero, MyNum};

verus! {

/// Local geometry of a collocation point `mid` against a straight element
/// `x -> y`: the projections of `mid - x` and `mid - y` on the element's unit
/// tangent (`l_x*`) and unit normal (`l_y*`), the distances `r1 = |mid - x|`,
/// `r2 = |mid - y|`, the element length `h` and the angle `theta` that the
/// element subtends at `mid`.
#[derive(Clone, Copy)]
pub struct ComponentValues<T> {
    pub l_x1: T,
    pub l_x2: T,
    pub l_y1: T,
    pub l_y2: T,
    pub r1: T,
    pub r2: T,
    pub h: T,
    pub theta: T,
}

/// The element's unit tangent `(y - x) / h`.
pub open spec fn spec_tangent<T: MyNum>(x: Point<T>, y: Point<T>) -> Point<T> {
    let h = spec_norm(spec_diff(x, y));
    let d = spec_diff(y, x);
    Point { x: d.x.spec_over(h), y: d.y.spec_over(h) }
}

/// The element's unit normal `(x2 - y2, y1 - x1) / h`: the tangent turned by
/// minus a quarter turn, which points out of a counter-clockwise curve.
pub open spec fn spec_normal<T: MyNum>(x: Point<T>, y: Point<T>) -> Point<T> {
    let h = spec_norm(spec_diff(x, y));
    Point { x: x.y.spec_minus(y.y).spec_over(h), y: y.x.spec_minus(x.x).spec_over(h) }
}

/// The local geometry of `mid` against the element `x -> y`.
pub open spec fn spec_component_values<T: MyNum>(
    mid: Point<T>,
    x: Point<T>,
    y: Point<T>,
) -> ComponentValues<T> {
    let t = spec_tangent(x, y);
    let n = spec_normal(x, y);
    let l_x1 = spec_dot(spec_diff(mid, x), t);
    let l_x2 = spec_dot(spec_diff(mid, y), t);
    let l_y1 = spec_dot(spec_diff(mid, x), n);
    let l_y2 = spec_dot(spec_diff(mid, y), n);
    ComponentValues {
        l_x1,
        l_x2,
        l_y1,
        l_y2,
        r1: spec_norm(spec_diff(mid, x)),
        r2: spec_norm(spec_diff(mid, y)),
        h: spec_norm(spec_diff(x, y)),
        theta: l_y2.spec_atan2(l_x2).spec_minus(l_y1.spec_atan2(l_x1)),
    }
}

impl<T: MyNum> ComponentValues<T> {
    /// The local geometry of the collocation point `mid` against the element
    /// `x -> y`. Meaningful only when `x != y`.
    pub fn new(mid: &Point<T>, x: &Point<T>, y: &Point<T>) -> (r: Self)
        ensures
            r == spec_component_values(*mid, *x, *y),
    {
        let h = x.diff(y).norm();
        let d = y.diff(x);
        let t_vec = Point::new(d.x.over(&h), d.y.over(&h));
        let n_vec = Point::new(x.y.minus(&y.y).over(&h), y.x.minus(&x.x).over(&h));
        let mid_x = mid.diff(x);
        let mid_y = mid.diff(y);
        let l_x1 = mid_x.dot(&t_vec);
        let l_x2 = mid_y.dot(&t_vec);
        let l_y1 = mid_x.dot(&n_vec);
        let l_y2 = mid_y.dot(&n_vec);
        let r1 = mid_x.norm();
        let r2 = mid_y.norm();
        let theta = l_y2.atan2(&l_x2).minus(&l_y1.atan2(&l_x1));
        ComponentValues { l_x1, l_x2, l_y1, l_y2, r1, r2, h, theta }
    }
}

/// `-ln|x - y| / (2 pi)`, the free-space Green's function of the 2-D Laplace
/// operator.
pub open spec fn spec_fund_gamma<T: MyNum>(x: Point<T>, y: Point<T>) -> T {
    zero::<T>().spec_minus(spec_norm(spec_diff(x, y)).spec_ln()).spec_over(T::spec_tau())
}

/// The derivative of the Green's function at `x` along the radial direction
/// of `x` (the outward normal of a circle about the origin), over `2 pi`,
/// normalised by `|x - y|^2`.
pub open spec fn spec_fund_gamma_normal_dv<T: MyNum>(x: Point<T>, y: Point<T>) -> T {
    let theta = x.y.spec_atan2(x.x);
    let normal = Point { x: theta.spec_cos(), y: theta.spec_sin() };
    let d = spec_diff(x, y);
    spec_dot(d, normal).spec_over(T::spec_tau()).spec_over(spec_dot(d, d))
}

/// The fundamental solution between `x` and `y`; callers keep `x != y`.
pub fn fund_gamma<T: MyNum>(x: &Point<T>, y: &Point<T>) -> (r: T)
    ensures
        r == spec_fund_gamma(*x, *y),
{
    let l = x.diff(y).norm().ln();
    T::from_usize(0).minus(&l).over(&T::tau())
}

/// The normal derivative of the fundamental solution, with the normal at `x`
/// taken radial; callers keep `x != y`.
pub fn fund_gamma_normal_dv<T: MyNum>(x: &Point<T>, y: &Point<T>) -> (r: T)
    ensures
        r == spec_fund_gamma_normal_dv(*x, *y),
{
    let theta = x.y.atan2(&x.x);
    let normal = Point::new(theta.cos(), theta.sin());
    let d = x.diff(y);
    d.dot(&normal).over(&T::tau()).over(&d.dot(&d))
}

/// The boundary condition of the reference problem, the harmonic polynomial
/// `x^3 - 3 x y^2`.
pub open spec fn spec_exact_u<T: MyNum>(p: Point<T>) -> T {
    let three = T::spec_from_usize(3);
    p.x.spec_times(p.x).spec_times(p.x).spec_minus(three.spec_times(p.x).spec_times(p.y.spec_times(p.y)))
}

/// The normal derivative of `x^3 - 3 x y^2` on a circle about the origin:
/// `3 (x^2 - y^2) cos t - 6 x y sin t` with `t` the angle of the point.
pub open spec fn spec_exact_u_normal_dv<T: MyNum>(p: Point<T>) -> T {
    let theta = p.y.spec_atan2(p.x);
    let three = T::spec_from_usize(3);
    let six = T::spec_from_usize(6);
    let a = three.spec_times(p.x.spec_times(p.x).spec_minus(p.y.spec_times(p.y))).spec_times(theta.spec_cos());
    let b = six.spec_times(p.x).spec_times(p.y).spec_times(theta.spec_sin());
    a.spec_minus(b)
}

/// The reference boundary value `x^3 - 3 x y^2` at `p`.
pub fn exact_u<T: MyNum>(p: &Point<T>) -> (r: T)
    ensures
        r == spec_exact_u(*p),
{
    let three = T::from_usize(3);
    p.x.times(&p.x).times(&p.x).minus(&three.times(&p.x).times(&p.y.times(&p.y)))
}

/// The exact normal derivative of the reference problem at a point of a circle
/// about the origin.
pub fn exact_u_normal_dv<T: MyNum>(p: &Point<T>) -> (r: T)
    ensures
        r == spec_exact_u_normal_dv(*p),
{
    let theta = p.y.atan2(&p.x);
    let three = T::from_usize(3);
    let six = T::from_usize(6);
    let a = three.times(&p.x.times(&p.x).minus(&p.y.times(&p.y))).times(&theta.cos());
    let b = six.times(&p.x).times(&p.y).times(&theta.sin());
    a.minus(&b)
}

} // verus!
