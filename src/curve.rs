use vstd::prelude::*;

use crate::elements::{element_pair, spec_next_node};
use crate::geometry::{spec_midpoint, Point};
use crate::kernel::{spec_component_values, ComponentValues};
use crate::scalar::{half, one, MyNum};

verus! {

/// A circle cut into `div_num` straight boundary elements.
///
/// `points[k]` is the node at angle `2 pi k / div_num`; element `k` runs from
/// `points[k]` to `points[(k + 1) mod div_num]`, so the nodes go round
/// counter-clockwise and the last element closes the polygon.
pub struct CircleCurve<T> {
    pub center: Point<T>,
    pub radius: T,
    pub div_num: u32,
    pub points: Vec<Point<T>>,
}

/// The angle `2 pi k / div_num` of node `k`.
pub open spec fn spec_node_angle<T: MyNum>(k: nat, div_num: nat) -> T {
    T::spec_tau().spec_times(T::spec_from_usize(k as usize)).spec_over(T::spec_from_usize(div_num as usize))
}

/// Node `k` of a circle about `center` of radius `radius` cut into `div_num`
/// elements: `center + radius (cos t, sin t)` with `t` the node's angle.
pub open spec fn spec_node<T: MyNum>(center: Point<T>, radius: T, k: nat, div_num: nat) -> Point<T> {
    let theta = spec_node_angle::<T>(k, div_num);
    Point {
        x: radius.spec_times(theta.spec_cos()).spec_plus(center.x),
        y: radius.spec_times(theta.spec_sin()).spec_plus(center.y),
    }
}

/// The single-layer entry `U[m, n]`, from the local geometry of the midpoint of
/// element `m` against element `n`: `(1 - ln(h / 2)) h / (2 pi)` on the
/// diagonal, `(l_x2 ln r2 - l_x1 ln r1 + h - l_y1 theta) / (2 pi)` elsewhere.
pub open spec fn spec_u_component<T: MyNum>(points: Seq<Point<T>>, m: nat, n: nat) -> T {
    let d = points.len();
    let mid = spec_midpoint(points[m as int], points[spec_next_node(m, d) as int]);
    let c = spec_component_values(mid, points[n as int], points[spec_next_node(n, d) as int]);
    let tau = T::spec_tau();
    if m == n {
        one::<T>().spec_minus(c.h.spec_over(T::spec_from_usize(2)).spec_ln()).spec_times(c.h).spec_over(
            tau,
        )
    } else {
        c.l_x2.spec_times(c.r2.spec_ln()).spec_minus(c.l_x1.spec_times(c.r1.spec_ln())).spec_plus(
            c.h,
        ).spec_minus(c.l_y1.spec_times(c.theta)).spec_over(tau)
    }
}

/// The double-layer entry `W[m, n]`: the jump term `1 / 2` on the diagonal,
/// the angle that element `n` subtends at the midpoint of element `m` over
/// `2 pi` elsewhere.
pub open spec fn spec_w_component<T: MyNum>(points: Seq<Point<T>>, m: nat, n: nat) -> T {
    let d = points.len();
    if m == n {
        half::<T>()
    } else {
        let mid = spec_midpoint(points[m as int], points[spec_next_node(m, d) as int]);
        let c = spec_component_values(mid, points[n as int], points[spec_next_node(n, d) as int]);
        c.theta.spec_over(T::spec_tau())
    }
}

impl<T: MyNum> CircleCurve<T> {
    /// `points` holds exactly the `div_num` nodes of the circle.
    pub open spec fn wf(&self) -> bool {
        &&& self.points@.len() == self.div_num
        &&& forall|k: int|
            0 <= k < self.div_num ==> #[trigger] self.points@[k] == spec_node(
                self.center,
                self.radius,
                k as nat,
                self.div_num as nat,
            )
    }

    /// The circle about `center` of radius `radius`, cut into `div_num`
    /// elements. With `div_num == 0` it has no nodes.
    pub fn new(center: Point<T>, radius: T, div_num: u32) -> (r: Self)
        ensures
            r.wf(),
            r.center == center,
            r.radius == radius,
            r.div_num == div_num,
    {
        let mut curve = CircleCurve { center, radius, div_num, points: Vec::new() };
        curve.make_points();
        curve
    }

    /// Replaces `points` by the `div_num` nodes of the circle.
    fn make_points(&mut self)
        ensures
            final(self).wf(),
            final(self).center == old(self).center,
            final(self).radius == old(self).radius,
            final(self).div_num == old(self).div_num,
    {
        let tau = T::tau();
        self.points.clear();
        let n = self.div_num;
        let mut k: u32 = 0;
        while k < n
            invariant
                n == self.div_num,
                n == old(self).div_num,
                self.center == old(self).center,
                self.radius == old(self).radius,
                tau == T::spec_tau(),
                k <= n,
                self.points@.len() == k,
                forall|i: int|
                    0 <= i < k ==> #[trigger] self.points@[i] == spec_node(
                        self.center,
                        self.radius,
                        i as nat,
                        self.div_num as nat,
                    ),
            decreases n - k,
        {
            let theta = tau.times(&T::from_usize(k as usize)).over(&T::from_usize(n as usize));
            let p = Point::new(
                self.radius.times(&theta.cos()).plus(&self.center.x),
                self.radius.times(&theta.sin()).plus(&self.center.y),
            );
            self.points.push(p);
            k = k + 1;
        }
    }

    /// The single-layer influence `U[m, n]` of element `n` on the midpoint of
    /// element `m`.
    pub fn u_components(&self, m: usize, n: usize) -> (r: T)
        requires
            self.wf(),
            m < self.div_num,
            n < self.div_num,
        ensures
            r == spec_u_component(self.points@, m as nat, n as nat),
    {
        let tau = T::tau();
        let pair = element_pair(m, n, self.div_num as usize);
        let mid = self.points[pair.mid_start].midpoint(&self.points[pair.mid_end]);
        let comp_val = ComponentValues::new(&mid, &self.points[pair.src_start], &self.points[pair.src_end]);
        if pair.self_influence {
            let h = comp_val.h;
            T::from_usize(1).minus(&h.over(&T::from_usize(2)).ln()).times(&h).over(&tau)
        } else {
            let c = comp_val;
            c.l_x2.times(&c.r2.ln()).minus(&c.l_x1.times(&c.r1.ln())).plus(&c.h).minus(
                &c.l_y1.times(&c.theta),
            ).over(&tau)
        }
    }

    /// The double-layer influence `W[m, n]` of element `n` on the midpoint of
    /// element `m`; every diagonal entry is exactly `1 / 2`.
    pub fn w_components(&self, m: usize, n: usize) -> (r: T)
        requires
            self.wf(),
            m < self.div_num,
            n < self.div_num,
        ensures
            r == spec_w_component(self.points@, m as nat, n as nat),
            m == n ==> r == half::<T>(),
    {
        let pair = element_pair(m, n, self.div_num as usize);
        if pair.self_influence {
            return T::from_usize(1).over(&T::from_usize(2));
        }
        let mid = self.points[pair.mid_start].midpoint(&self.points[pair.mid_end]);
        let comp_val = ComponentValues::new(&mid, &self.points[pair.src_start], &self.points[pair.src_end]);
        comp_val.theta.over(&T::tau())
    }
}

} // verus!
