use bem_laplace::bem::{bem_calc, calc_conjugate_values};
use bem_laplace::curve::CircleCurve;
use bem_laplace::error::MyLinalgError;
use bem_laplace::geometry::Point;
use bem_laplace::integral::circ_integral_trapez;
use bem_laplace::kernel::{exact_u, exact_u_normal_dv, fund_gamma, fund_gamma_normal_dv, ComponentValues};
use bem_laplace::linalg::gauss;
use bem_laplace::scalar::MyNum;

const ELEMENT_NUM: usize = 32;

#[derive(Clone, Copy, Debug, PartialEq)]
struct F(f64);

impl MyNum for F {
    fn spec_from_usize(k: usize) -> F {
        F::from_usize(k)
    }
    fn spec_tau() -> F {
        F::tau()
    }
    fn spec_plus(self, o: F) -> F {
        self.plus(&o)
    }
    fn spec_minus(self, o: F) -> F {
        self.minus(&o)
    }
    fn spec_times(self, o: F) -> F {
        self.times(&o)
    }
    fn spec_over(self, o: F) -> F {
        self.over(&o)
    }
    fn spec_sqrt(self) -> F {
        MyNum::sqrt(&self)
    }
    fn spec_ln(self) -> F {
        MyNum::ln(&self)
    }
    fn spec_sin(self) -> F {
        MyNum::sin(&self)
    }
    fn spec_cos(self) -> F {
        MyNum::cos(&self)
    }
    fn spec_atan2(self, x: F) -> F {
        MyNum::atan2(&self, &x)
    }
    fn spec_magnitude(self) -> F {
        self.magnitude()
    }
    fn spec_exceeds(self, o: F) -> bool {
        self.exceeds(&o)
    }
    fn from_usize(k: usize) -> F {
        F(k as f64)
    }
    fn tau() -> F {
        F(std::f64::consts::TAU)
    }
    fn plus(&self, o: &F) -> F {
        F(self.0 + o.0)
    }
    fn minus(&self, o: &F) -> F {
        F(self.0 - o.0)
    }
    fn times(&self, o: &F) -> F {
        F(self.0 * o.0)
    }
    fn over(&self, o: &F) -> F {
        F(self.0 / o.0)
    }
    fn sqrt(&self) -> F {
        F(self.0.sqrt())
    }
    fn ln(&self) -> F {
        F(self.0.ln())
    }
    fn sin(&self) -> F {
        F(self.0.sin())
    }
    fn cos(&self) -> F {
        F(self.0.cos())
    }
    fn atan2(&self, x: &F) -> F {
        F(self.0.atan2(x.0))
    }
    fn magnitude(&self) -> F {
        F(self.0.abs())
    }
    fn exceeds(&self, o: &F) -> bool {
        self.0 > o.0
    }
}

fn matrix(rows: &[&[f64]]) -> Vec<Vec<F>> {
    rows.iter().map(|r| r.iter().map(|&v| F(v)).collect()).collect()
}

fn vector(v: &[f64]) -> Vec<F> {
    v.iter().map(|&x| F(x)).collect()
}

fn plain(v: &[F]) -> Vec<f64> {
    v.iter().map(|x| x.0).collect()
}

fn origin() -> Point<F> {
    Point::new(F(0.0), F(0.0))
}

fn unit_circle(div_num: usize) -> CircleCurve<F> {
    CircleCurve::new(origin(), F(1.0), div_num as u32)
}

// This matrix is singular (its determinant is 0): after eliminating the first
// two columns the last pivot is below the tolerance, so the solver reports
// the singular failure rather than one of the system's many solutions.
#[test]
fn gauss_solve_sample() {
    let a = matrix(&[&[1., 3., 1.], &[1., 1., -1.], &[3., 11., 5.]]);
    let b = vector(&[9., 1., 35.]);
    assert_eq!(gauss(&a, &b), Err(MyLinalgError::SingularMatrix))
}

#[test]
fn gauss_solves_coupled_lower_rows() {
    let a = matrix(&[&[4., 0., 0.], &[0., 2., 0.], &[0., 1., 2.]]);
    let b = vector(&[4., 2., 3.]);
    assert_eq!(plain(&gauss(&a, &b).unwrap()), vec![1., 1., 1.]);
}

#[test]
fn gauss_solves_full_system() {
    let a = matrix(&[&[2., 1., -1.], &[-3., -1., 2.], &[-2., 1., 2.]]);
    let b = vector(&[8., -11., -3.]);
    let sol = plain(&gauss(&a, &b).unwrap());
    for (x, e) in sol.iter().zip([2., 3., -1.].iter()) {
        assert!((x - e).abs() < 1.0e-12);
    }
}

#[test]
fn gauss_reports_zero_last_row_as_singular() {
    let a = matrix(&[&[1., 0.], &[0., 0.]]);
    let b = vector(&[1., 1.]);
    assert_eq!(gauss(&a, &b), Err(MyLinalgError::SingularMatrix));
}

#[test]
fn gauss_reports_zero_last_column_as_singular() {
    let a = matrix(&[&[1., 0.], &[1., 0.]]);
    let b = vector(&[1., 1.]);
    assert_eq!(gauss(&a, &b), Err(MyLinalgError::SingularMatrix));
}

#[test]
fn gauss_rejects_non_square_whatever_the_right_hand_side() {
    let a = matrix(&[&[1., 2., 3.], &[4., 5., 6.]]);
    let b = vector(&[f64::NAN]);
    assert_eq!(gauss(&a, &b), Err(MyLinalgError::NonSquareMatrix));
}

fn boundary_error(div_num: usize) -> f64 {
    let curve = unit_circle(div_num);
    let q_vec = calc_conjugate_values(div_num, &curve).1.unwrap();
    q_vec
        .iter()
        .zip(curve.points.iter())
        .map(|(q, p)| {
            let d = q.0 - exact_u_normal_dv(p).0;
            d * d
        })
        .sum()
}

#[test]
fn boundary_unknown_converges() {
    let e16 = boundary_error(16);
    let e32 = boundary_error(32);
    let e64 = boundary_error(64);
    assert!(e32 < e16 && e64 < e32, "{} {} {}", e16, e32, e64);
    assert!(e32 < 1.0e-3, "{}", e32);
}

#[test]
fn circular_integral_sample() {
    #[allow(unused_variables)]
    let func = |x: usize| F(1.);
    let curve = unit_circle(ELEMENT_NUM);
    let integral_val = circ_integral_trapez(func, &curve);
    let exact_val = 2. * std::f64::consts::PI;
    assert!((integral_val.0 - exact_val).abs() < 1.0e-9)
}

#[test]
fn dot_test() {
    let v = Point::new(F(2.), F(3.));
    let diff: f64 = v.dot(&v).0 - 13.;
    assert!(diff.abs() < 1.0e-10)
}

#[test]
fn bem_solve_accuracy() -> Result<(), MyLinalgError> {
    let curve = unit_circle(ELEMENT_NUM);
    let div_num = ELEMENT_NUM;
    let vectors = calc_conjugate_values(div_num, &curve);
    let q_vec = vectors.1?;
    let exact_q_vec: Vec<F> = curve.points.iter().map(exact_u_normal_dv).collect();
    let mut error = 0.0;
    for (q, e) in q_vec.iter().zip(exact_q_vec.iter()) {
        let el = q.0 - e.0;
        error += el * el;
    }
    println!("{}", error);
    Ok(())
}

#[test]
fn interior_point_calc_test() {
    let curve = unit_circle(ELEMENT_NUM);
    let p = Point::new(F(0.5), F(0.0));
    let val = bem_calc(ELEMENT_NUM, &p, &curve).unwrap();
    println!("{}", val.0);
}

#[test]
fn gauss_solves_regular_system() {
    let a = matrix(&[&[2., 1.], &[1., 3.]]);
    let b = vector(&[3., 5.]);
    let sol = plain(&gauss(&a, &b).unwrap());
    assert!((sol[0] - 0.8).abs() < 1.0e-12);
    assert!((sol[1] - 1.4).abs() < 1.0e-12);
}

#[test]
fn gauss_swaps_rows_for_a_zero_pivot() {
    let a = matrix(&[&[0., 1.], &[1., 0.]]);
    let b = vector(&[2., 3.]);
    assert_eq!(plain(&gauss(&a, &b).unwrap()), vec![3., 2.]);
}

#[test]
fn gauss_leaves_inputs_untouched() {
    let a = matrix(&[&[0., 1.], &[1., 0.]]);
    let b = vector(&[2., 3.]);
    let _ = gauss(&a, &b);
    assert_eq!(a, matrix(&[&[0., 1.], &[1., 0.]]));
    assert_eq!(b, vector(&[2., 3.]));
}

#[test]
fn gauss_reports_zero_column_as_singular() {
    let a = matrix(&[&[0., 1., 2.], &[0., 3., 4.], &[0., 5., 7.]]);
    let b = vector(&[1., 2., 3.]);
    assert_eq!(gauss(&a, &b), Err(MyLinalgError::SingularMatrix));
}

#[test]
fn gauss_reports_negligible_first_column_as_singular() {
    let a = matrix(&[&[1.0e-12, 1.], &[-1.0e-11, 2.]]);
    let b = vector(&[1., 2.]);
    assert_eq!(gauss(&a, &b), Err(MyLinalgError::SingularMatrix));
}

#[test]
fn gauss_reports_tiny_pivot_as_singular() {
    let a = matrix(&[&[1.0e-11]]);
    let b = vector(&[1.]);
    assert_eq!(gauss(&a, &b), Err(MyLinalgError::SingularMatrix));
}

#[test]
fn gauss_rejects_wide_matrix() {
    let a = matrix(&[&[1., 2., 3.], &[4., 5., 6.]]);
    let b = vector(&[1., 2.]);
    assert_eq!(gauss(&a, &b), Err(MyLinalgError::NonSquareMatrix));
}

#[test]
fn gauss_rejects_ragged_rows() {
    let a = matrix(&[&[0., 0.], &[0.]]);
    let b = vector(&[1., 2.]);
    assert_eq!(gauss(&a, &b), Err(MyLinalgError::NonSquareMatrix));
}

#[test]
fn gauss_of_empty_system_is_empty() {
    let a: Vec<Vec<F>> = Vec::new();
    let b: Vec<F> = Vec::new();
    assert_eq!(gauss(&a, &b), Ok(Vec::new()));
}

#[test]
fn circle_nodes_start_on_the_x_axis() {
    let center = Point::new(F(1.0), F(-2.0));
    let curve = CircleCurve::new(center, F(3.0), 4);
    assert_eq!(curve.points.len(), 4);
    assert_eq!(curve.points[0].x.0, 4.0);
    assert_eq!(curve.points[0].y.0, -2.0);
    assert!((curve.points[1].x.0 - 1.0).abs() < 1.0e-12);
    assert!((curve.points[1].y.0 - 1.0).abs() < 1.0e-12);
    assert!((curve.points[2].x.0 + 2.0).abs() < 1.0e-12);
}

#[test]
fn circle_without_elements_has_no_nodes() {
    let curve = CircleCurve::new(origin(), F(1.0), 0);
    assert!(curve.points.is_empty());
}

#[test]
fn integral_of_one_is_circumference() {
    for &(radius, div_num) in &[(1.0, 16usize), (2.5, 16), (0.3, 64)] {
        let curve = CircleCurve::new(origin(), F(radius), div_num as u32);
        let val = circ_integral_trapez(|_i: usize| F(1.), &curve);
        assert!((val.0 - std::f64::consts::TAU * radius).abs() < 1.0e-9);
    }
}

#[test]
fn integral_weights_every_node_equally() {
    let curve = unit_circle(4);
    let val = circ_integral_trapez(|i: usize| F(i as f64), &curve);
    let expected = (0. + 1. + 2. + 3.) * std::f64::consts::TAU / 4.;
    assert!((val.0 - expected).abs() < 1.0e-12);
}

#[test]
fn diagonal_of_w_is_one_half() {
    for &(radius, div_num) in &[(1.0, 3usize), (2.0, 7), (0.5, 32)] {
        let curve = CircleCurve::new(origin(), F(radius), div_num as u32);
        for m in 0..div_num {
            assert_eq!(curve.w_components(m, m).0, 0.5);
        }
    }
}

#[test]
fn w_rows_sum_to_one() {
    let curve = unit_circle(16);
    for m in 0..16 {
        let total: f64 = (0..16).map(|n| curve.w_components(m, n).0).sum();
        assert!((total - 1.0).abs() < 1.0e-9, "{}", total);
    }
}

#[test]
fn u_diagonal_closed_form() {
    let curve = unit_circle(8);
    let h = (2.0f64 - 2.0 * (std::f64::consts::TAU / 8.).cos()).sqrt();
    let expected = (1. - (h / 2.).ln()) * h / std::f64::consts::TAU;
    assert!((curve.u_components(3, 3).0 - expected).abs() < 1.0e-12);
}

#[test]
fn component_values_of_a_unit_element() {
    let mid = Point::new(F(0.5), F(1.0));
    let x = Point::new(F(0.0), F(0.0));
    let y = Point::new(F(1.0), F(0.0));
    let c = ComponentValues::new(&mid, &x, &y);
    assert_eq!(c.h.0, 1.0);
    assert_eq!(c.l_x1.0, 0.5);
    assert_eq!(c.l_x2.0, -0.5);
    assert_eq!(c.l_y1.0, 1.0);
    assert_eq!(c.l_y2.0, 1.0);
    assert!((c.r1.0 - 1.25f64.sqrt()).abs() < 1.0e-12);
    let expected_theta = 1.0f64.atan2(-0.5) - 1.0f64.atan2(0.5);
    assert!((c.theta.0 - expected_theta).abs() < 1.0e-12);
}

#[test]
fn fundamental_solution_values() {
    let x = Point::new(F(0.0), F(0.0));
    let y = Point::new(F(std::f64::consts::E), F(0.0));
    assert!((fund_gamma(&x, &y).0 + 1.0 / std::f64::consts::TAU).abs() < 1.0e-12);
    let x = Point::new(F(0.5), F(0.0));
    let y = Point::new(F(1.0), F(0.0));
    let expected = -0.5 / std::f64::consts::TAU / 0.25;
    assert!((fund_gamma_normal_dv(&x, &y).0 - expected).abs() < 1.0e-12);
}

#[test]
fn reference_boundary_values() {
    let p = Point::new(F(2.0), F(1.0));
    assert_eq!(exact_u(&p).0, 8.0 - 6.0);
    let q = Point::new(F(1.0), F(0.0));
    assert!((exact_u_normal_dv(&q).0 - 3.0).abs() < 1.0e-12);
}

#[test]
fn conjugate_values_sample_the_boundary() {
    let curve = unit_circle(8);
    let (u_vec, q) = calc_conjugate_values(8, &curve);
    assert_eq!(u_vec.len(), 8);
    assert_eq!(u_vec[0].0, 1.0);
    assert_eq!(q.unwrap().len(), 8);
}

#[test]
fn repeated_solves_are_bit_identical() {
    let curve = unit_circle(ELEMENT_NUM);
    let p = Point::new(F(0.25), F(-0.3));
    let first = bem_calc(ELEMENT_NUM, &p, &curve).unwrap().0;
    let second = bem_calc(ELEMENT_NUM, &p, &curve).unwrap().0;
    assert_eq!(first.to_bits(), second.to_bits());
}
