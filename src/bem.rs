use vstd::prelude::*;

use crate::curve::{spec_node, spec_u_component, spec_w_component, CircleCurve};
use crate::error::MyLinalgError;
use crate::geometry::Point;
use crate::integral::{circ_integral_trapez, spec_sum, spec_trapez};
use crate::kernel::{
    exact_u, fund_gamma, fund_gamma_normal_dv, spec_exact_u, spec_fund_gamma,
    spec_fund_gamma_normal_dv,
};
use crate::linalg::{gauss, is_square, result_view, rows_view, spec_gauss};
use crate::scalar::{half, MyNum};

verus! {

/// The single-layer matrix `U` of a curve with nodes `points`.
pub open spec fn spec_u_matrix<T: MyNum>(points: Seq<Point<T>>) -> Seq<Seq<T>> {
    Seq::new(points.len(), |m: int| Seq::new(points.len(), |n: int| spec_u_component(points, m as nat, n as nat)))
}

/// The double-layer matrix `W` of a curve with nodes `points`.
pub open spec fn spec_w_matrix<T: MyNum>(points: Seq<Point<T>>) -> Seq<Seq<T>> {
    Seq::new(points.len(), |m: int| Seq::new(points.len(), |n: int| spec_w_component(points, m as nat, n as nat)))
}

/// The Dirichlet data: the reference boundary value at every node.
pub open spec fn spec_boundary_values<T: MyNum>(points: Seq<Point<T>>) -> Seq<T> {
    Seq::new(points.len(), |i: int| spec_exact_u(points[i]))
}

/// `row . v` over the first `row.len()` entries, added from the left.
pub open spec fn spec_row_dot<T: MyNum>(row: Seq<T>, v: Seq<T>) -> T {
    spec_sum(Seq::new(row.len(), |j: int| row[j].spec_times(v[j])))
}

/// The product `a v` of a matrix given by its rows and a vector.
pub open spec fn spec_mat_vec<T: MyNum>(a: Seq<Seq<T>>, v: Seq<T>) -> Seq<T> {
    Seq::new(a.len(), |m: int| spec_row_dot(a[m], v))
}

/// The representation integrand at node `i`:
/// `G(x, p_i) q_i - dG/dn(x, p_i) u_i`.
pub open spec fn spec_integrand<T: MyNum>(x: Point<T>, points: Seq<Point<T>>, q: Seq<T>, u: Seq<T>, i: int) -> T {
    spec_fund_gamma(x, points[i]).spec_times(q[i]).spec_minus(
        spec_fund_gamma_normal_dv(x, points[i]).spec_times(u[i]),
    )
}

/// The field value at `x` that the boundary data `u` and `q` give on a curve
/// with nodes `points` and radius `radius`.
pub open spec fn spec_field_value<T: MyNum>(x: Point<T>, points: Seq<Point<T>>, radius: T, q: Seq<T>, u: Seq<T>) -> T {
    spec_trapez(Seq::new(points.len(), |i: int| spec_integrand(x, points, q, u, i)), radius)
}

/// The outcome of solving `U q = W u` for the curve with nodes `points`, with
/// `u` the reference boundary values at the nodes.
pub open spec fn spec_conjugate_values<T: MyNum>(points: Seq<Point<T>>) -> Result<Seq<T>, MyLinalgError> {
    spec_gauss(
        spec_u_matrix(points),
        spec_mat_vec(spec_w_matrix(points), spec_boundary_values(points)),
    )
}

/// The field value at `x` for the curve with nodes `points` and radius
/// `radius`, or the solver's failure.
pub open spec fn spec_bem_calc<T: MyNum>(x: Point<T>, points: Seq<Point<T>>, radius: T) -> Result<T, MyLinalgError> {
    match spec_conjugate_values(points) {
        Ok(q) => Ok(spec_field_value(x, points, radius, q, spec_boundary_values(points))),
        Err(e) => Err(e),
    }
}

/// The matrix of the entries `U[m, n]` (`single == true`) or `W[m, n]`.
fn assemble<T: MyNum>(curve: &CircleCurve<T>, single: bool) -> (r: Vec<Vec<T>>)
    requires
        curve.wf(),
    ensures
        rows_view(r@) == if single {
            spec_u_matrix(curve.points@)
        } else {
            spec_w_matrix(curve.points@)
        },
        is_square(r@),
        r@.len() == curve.div_num,
        forall|m: int| 0 <= m < r@.len() ==> (#[trigger] r@[m])@.len() == curve.div_num,
{
    let d = curve.div_num as usize;
    let ghost target = if single {
        spec_u_matrix(curve.points@)
    } else {
        spec_w_matrix(curve.points@)
    };
    let mut mat: Vec<Vec<T>> = Vec::new();
    let mut m: usize = 0;
    while m < d
        invariant
            curve.wf(),
            d == curve.div_num,
            m <= d,
            target == if single {
                spec_u_matrix(curve.points@)
            } else {
                spec_w_matrix(curve.points@)
            },
            mat@.len() == m,
            forall|i: int| 0 <= i < m ==> #[trigger] mat@[i]@ == target[i],
        decreases d - m,
    {
        let mut row: Vec<T> = Vec::new();
        let mut n: usize = 0;
        while n < d
            invariant
                curve.wf(),
                d == curve.div_num,
                m < d,
                n <= d,
                target == if single {
                    spec_u_matrix(curve.points@)
                } else {
                    spec_w_matrix(curve.points@)
                },
                row@.len() == n,
                forall|j: int| 0 <= j < n ==> #[trigger] row@[j] == target[m as int][j],
            decreases d - n,
        {
            let v = if single {
                curve.u_components(m, n)
            } else {
                curve.w_components(m, n)
            };
            row.push(v);
            n = n + 1;
        }
        assert(row@ =~= target[m as int]);
        mat.push(row);
        m = m + 1;
    }
    assert(rows_view(mat@) =~= target);
    assert forall|i: int| 0 <= i < mat@.len() implies #[trigger] mat@[i]@.len() == mat@.len() by {
        assert(mat@[i]@ == rows_view(mat@)[i]);
    }
    mat
}

/// The reference boundary value at every node of the curve.
fn boundary_values<T: MyNum>(curve: &CircleCurve<T>) -> (r: Vec<T>)
    requires
        curve.wf(),
    ensures
        r@ == spec_boundary_values(curve.points@),
{
    let d = curve.div_num as usize;
    let mut u: Vec<T> = Vec::new();
    let mut i: usize = 0;
    while i < d
        invariant
            curve.wf(),
            d == curve.div_num,
            i <= d,
            u@.len() == i,
            forall|j: int| 0 <= j < i ==> #[trigger] u@[j] == spec_exact_u(curve.points@[j]),
        decreases d - i,
    {
        u.push(exact_u(&curve.points[i]));
        i = i + 1;
    }
    assert(u@ =~= spec_boundary_values(curve.points@));
    u
}

/// The product `a v`, each entry summed from the left.
fn mat_vec<T: MyNum>(a: &Vec<Vec<T>>, v: &Vec<T>) -> (r: Vec<T>)
    requires
        forall|m: int| 0 <= m < a@.len() ==> (#[trigger] a@[m])@.len() == v@.len(),
    ensures
        r@ == spec_mat_vec(rows_view(a@), v@),
{
    let mut r: Vec<T> = Vec::new();
    let mut m: usize = 0;
    while m < a.len()
        invariant
            m <= a@.len(),
            forall|mm: int| 0 <= mm < a@.len() ==> (#[trigger] a@[mm])@.len() == v@.len(),
            r@.len() == m,
            forall|j: int| 0 <= j < m ==> #[trigger] r@[j] == spec_row_dot(a@[j]@, v@),
        decreases a@.len() - m,
    {
        let row = &a[m];
        let mut acc = T::from_usize(0);
        let mut n: usize = 0;
        while n < row.len()
            invariant
                row@.len() == v@.len(),
                n <= row@.len(),
                acc == spec_sum(Seq::new(n as nat, |j: int| row@[j].spec_times(v@[j]))),
            decreases row@.len() - n,
        {
            let ghost before = Seq::new(n as nat, |j: int| row@[j].spec_times(v@[j]));
            let ghost after = Seq::new((n + 1) as nat, |j: int| row@[j].spec_times(v@[j]));
            assert(after.drop_last() =~= before);
            acc = acc.plus(&row[n].times(&v[n]));
            n = n + 1;
        }
        assert(Seq::new(n as nat, |j: int| row@[j].spec_times(v@[j])) =~= Seq::new(
            row@.len(),
            |j: int| row@[j].spec_times(v@[j]),
        ));
        r.push(acc);
        m = m + 1;
    }
    assert(r@ =~= spec_mat_vec(rows_view(a@), v@));
    r
}

/// The representation integrand at node `i`.
fn integrand<T: MyNum>(x: &Point<T>, points: &Vec<Point<T>>, q: &Vec<T>, u: &Vec<T>, i: usize) -> (r: T)
    requires
        i < points@.len(),
        q@.len() == points@.len(),
        u@.len() == points@.len(),
    ensures
        r == spec_integrand(*x, points@, q@, u@, i as int),
{
    fund_gamma(x, &points[i]).times(&q[i]).minus(&fund_gamma_normal_dv(x, &points[i]).times(&u[i]))
}

/// Assembles `U` and `W` for `curve`, samples the reference boundary value at
/// the nodes into `u_vec`, and solves `U q = W u_vec` for the boundary normal
/// derivative `q`. Returns `u_vec` with the outcome of the solve.
///
/// The assembled matrices are square, so the solve can only fail with
/// `SingularMatrix`.
pub fn calc_conjugate_values<T: MyNum>(div_num: usize, curve: &CircleCurve<T>) -> (r: (
    Vec<T>,
    Result<Vec<T>, MyLinalgError>,
))
    requires
        curve.wf(),
        div_num == curve.div_num,
        div_num * div_num <= usize::MAX,
    ensures
        r.0@ == spec_boundary_values(curve.points@),
        result_view(r.1) == spec_conjugate_values(curve.points@),
        r.1 is Err ==> r.1 == Err::<Vec<T>, MyLinalgError>(MyLinalgError::SingularMatrix),
        r.1 matches Ok(q) ==> q@.len() == div_num,
{
    let u_mat = assemble(curve, true);
    let w_mat = assemble(curve, false);
    let u_vec = boundary_values(curve);
    let b_vec = mat_vec(&w_mat, &u_vec);
    let solved = gauss(&u_mat, &b_vec);
    (u_vec, solved)
}

/// The field value at the interior point `calc_point`: solves for the
/// boundary normal derivative, then integrates the representation formula
/// over the curve. A failed solve is handed on unchanged.
pub fn bem_calc<T: MyNum>(div_num: usize, calc_point: &Point<T>, curve: &CircleCurve<T>) -> (r: Result<
    T,
    MyLinalgError,
>)
    requires
        curve.wf(),
        div_num == curve.div_num,
        div_num * div_num <= usize::MAX,
    ensures
        r == spec_bem_calc(*calc_point, curve.points@, curve.radius),
        r is Err ==> r == Err::<T, MyLinalgError>(MyLinalgError::SingularMatrix),
{
    let vectors = calc_conjugate_values(div_num, curve);
    let u_vec = vectors.0;
    let q_vec = match vectors.1 {
        Ok(q) => q,
        Err(e) => {
            return Err(e);
        },
    };
    let x = calc_point;
    let points = &curve.points;
    let func = |i: usize| -> (v: T)
        requires
            i < points@.len(),
            q_vec@.len() == points@.len(),
            u_vec@.len() == points@.len(),
        ensures
            v == spec_integrand(*x, points@, q_vec@, u_vec@, i as int),
        { integrand(x, points, &q_vec, &u_vec, i) };
    let result = circ_integral_trapez(func, curve);
    proof {
        let vals = choose|vals: Seq<T>|
            {
                &&& vals.len() == curve.div_num
                &&& forall|i: int| 0 <= i < vals.len() ==> call_ensures(func, (i as usize,), #[trigger] vals[i])
                &&& result == spec_trapez(vals, curve.radius)
            };
        let target = Seq::new(curve.points@.len(), |i: int| spec_integrand(*x, curve.points@, q_vec@, u_vec@, i));
        assert forall|i: int| 0 <= i < vals.len() implies #[trigger] vals[i] == target[i] by {
            assert(call_ensures(func, (i as usize,), vals[i]));
        }
        assert(vals =~= target);
    }
    Ok(result)
}

/// Every diagonal entry of the double-layer matrix is exactly one half,
/// whatever the number of elements or the radius.
pub proof fn lemma_w_diagonal_is_half<T: MyNum>(curve: CircleCurve<T>, m: int)
    requires
        curve.wf(),
        0 <= m < curve.div_num,
    ensures
        spec_w_matrix(curve.points@)[m][m] == half::<T>(),
{
}

/// The boundary solve and the field value depend on the evaluation point and
/// on the curve's center, radius and element count alone: two curves built
/// from the same values give the same results, and so do repeated
/// evaluations. For `f64` this means bit for bit wherever no NaN arises.
pub proof fn lemma_bem_calc_deterministic<T: MyNum>(
    c1: CircleCurve<T>,
    c2: CircleCurve<T>,
    x1: Point<T>,
    x2: Point<T>,
)
    requires
        c1.wf(),
        c2.wf(),
        c1.center == c2.center,
        c1.radius == c2.radius,
        c1.div_num == c2.div_num,
        x1 == x2,
    ensures
        spec_conjugate_values(c1.points@) == spec_conjugate_values(c2.points@),
        spec_bem_calc(x1, c1.points@, c1.radius) == spec_bem_calc(x2, c2.points@, c2.radius),
{
    assert forall|k: int| 0 <= k < c1.points@.len() implies c1.points@[k] == c2.points@[k] by {
        assert(c1.points@[k] == spec_node(c1.center, c1.radius, k as nat, c1.div_num as nat));
        assert(c2.points@[k] == spec_node(c2.center, c2.radius, k as nat, c2.div_num as nat));
    }
    assert(c1.points@ =~= c2.points@);
}

} // verus!
