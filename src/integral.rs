use vstd::prelude::*;

use crate::curve::CircleCurve;
use crate::scalar::{zero, MyNum};

verus! {

/// `s[0] + s[1] + ... + s[len - 1]`, added from the left starting at zero.
pub open spec fn spec_sum<T: MyNum>(s: Seq<T>) -> T
    decreases s.len(),
{
    if s.len() == 0 {
        zero::<T>()
    } else {
        spec_sum(s.drop_last()).spec_plus(s.last())
    }
}

/// The arc length per element, `2 pi radius / div_num`.
pub open spec fn spec_arc_step<T: MyNum>(radius: T, div_num: nat) -> T {
    T::spec_tau().spec_times(radius).spec_over(T::spec_from_usize(div_num as usize))
}

/// The periodic trapezoidal rule: every sample gets the same weight, the arc
/// length per element.
pub open spec fn spec_trapez<T: MyNum>(vals: Seq<T>, radius: T) -> T {
    spec_sum(vals).spec_times(spec_arc_step(radius, vals.len()))
}

/// Integrates over the curve the function whose value at node `i` is
/// `func(i)`, by the periodic trapezoidal rule: `h * (func(0) + ... +
/// func(div_num - 1))` with `h = 2 pi radius / div_num`. The first and last
/// quadrature points coincide on a closed curve, so no end point gets half
/// weight.
pub fn circ_integral_trapez<T: MyNum, F: Fn(usize) -> T>(func: F, curve: &CircleCurve<T>) -> (r: T)
    requires
        forall|i: usize| i < curve.div_num ==> call_requires(func, (i,)),
    ensures
        exists|vals: Seq<T>|
            {
                &&& vals.len() == curve.div_num
                &&& forall|i: int| 0 <= i < vals.len() ==> call_ensures(func, (i as usize,), #[trigger] vals[i])
                &&& r == spec_trapez(vals, curve.radius)
            },
{
    let n = curve.div_num as usize;
    let h = T::tau().times(&curve.radius).over(&T::from_usize(n));
    let mut result = T::from_usize(0);
    let ghost mut vals: Seq<T> = Seq::empty();
    let mut i: usize = 0;
    while i < n
        invariant
            n == curve.div_num,
            i <= n,
            forall|j: usize| j < curve.div_num ==> call_requires(func, (j,)),
            vals.len() == i,
            forall|j: int| 0 <= j < vals.len() ==> call_ensures(func, (j as usize,), #[trigger] vals[j]),
            result == spec_sum(vals),
        decreases n - i,
    {
        let v = func(i);
        proof {
            let old_vals = vals;
            vals = vals.push(v);
            assert(vals.drop_last() =~= old_vals);
        }
        result = result.plus(&v);
        i = i + 1;
    }
    result = result.times(&h);
    assert(spec_trapez(vals, curve.radius) == result);
    result
}

} // verus!
