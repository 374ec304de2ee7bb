use vstd::prelude::*;

use vstd::arithmetic::div_mod::lemma_fundamental_div_mod_converse;

use crate::error::MyLinalgError;
use crate::scalar::{one, zero, MyNum};

verus! {

/// Every row of `a` has as many entries as `a` has rows.
pub open spec fn is_square<T>(a: Seq<Vec<T>>) -> bool {
    forall|i: int| 0 <= i < a.len() ==> #[trigger] a[i]@.len() == a.len()
}

/// The rows of `a` as sequences.
pub open spec fn rows_view<T>(a: Seq<Vec<T>>) -> Seq<Seq<T>> {
    Seq::new(a.len(), |m: int| a[m]@)
}

/// Every row of `a` has as many entries as `a` has rows.
pub open spec fn rows_square<T>(a: Seq<Seq<T>>) -> bool {
    forall|i: int| 0 <= i < a.len() ==> #[trigger] a[i].len() == a.len()
}

/// The square matrix `a`, given by its rows, stored row by row.
pub open spec fn spec_row_major<T>(a: Seq<Seq<T>>) -> Seq<T> {
    let n = a.len() as int;
    Seq::new((n * n) as nat, |x: int| a[x / n][x % n])
}

/// Position of entry `[i, j]` in an `n x n` matrix stored row by row.
pub open spec fn flat(i: int, j: int, n: int) -> int {
    i * n + j
}

proof fn lemma_flat_in_bounds(i: int, j: int, n: int)
    requires
        0 <= i < n,
        0 <= j < n,
    ensures
        0 <= flat(i, j, n) < n * n,
{
    assert(0 <= i * n + j < n * n) by (nonlinear_arith)
        requires
            0 <= i < n,
            0 <= j < n,
    ;
}

proof fn lemma_flat_before_row(ii: int, jj: int, i: int, n: int)
    requires
        0 <= ii < i,
        0 <= jj < n,
    ensures
        0 <= flat(ii, jj, n) < i * n,
{
    assert(0 <= ii * n + jj < i * n) by (nonlinear_arith)
        requires
            0 <= ii < i,
            0 <= jj < n,
    ;
}

proof fn lemma_split(x: int, n: int)
    requires
        0 <= n,
        0 <= x < n * n,
    ensures
        0 <= x / n < n,
        0 <= x % n < n,
        x == flat(x / n, x % n, n),
{
    assert(n > 0) by (nonlinear_arith)
        requires
            0 <= n,
            0 <= x < n * n,
    ;
    vstd::arithmetic::div_mod::lemma_fundamental_div_mod(x, n);
    vstd::arithmetic::mul::lemma_mul_is_commutative(n, x / n);
    let r = x / n;
    let c = x % n;
    assert(0 <= r < n) by (nonlinear_arith)
        requires
            x == r * n + c,
            0 <= c < n,
            0 <= x < n * n,
    ;
}

fn flat_index(i: usize, j: usize, n: usize) -> (r: usize)
    requires
        i < n,
        j < n,
        n * n <= usize::MAX,
    ensures
        r == flat(i as int, j as int, n as int),
        r < n * n,
{
    proof {
        lemma_flat_in_bounds(i as int, j as int, n as int);
    }
    i * n + j
}


/// The entries of the square matrix `a`, row by row.
fn row_major<T: MyNum>(a: &Vec<Vec<T>>) -> (r: Vec<T>)
    requires
        is_square(a@),
        a@.len() * a@.len() <= usize::MAX,
    ensures
        r@.len() == a@.len() * a@.len(),
        forall|i: int, j: int|
            0 <= i < a@.len() && 0 <= j < a@.len() ==> #[trigger] r@[flat(i, j, a@.len() as int)]
                == a@[i]@[j],
        r@ == spec_row_major(rows_view(a@)),
{
    let n = a.len();
    let mut r: Vec<T> = Vec::new();
    let mut i: usize = 0;
    while i < n
        invariant
            n == a@.len(),
            is_square(a@),
            n * n <= usize::MAX,
            i <= n,
            r@.len() == i * n,
            forall|ii: int, j: int|
                0 <= ii < i && 0 <= j < n ==> #[trigger] r@[flat(ii, j, n as int)] == a@[ii]@[j],
        decreases n - i,
    {
        let row = &a[i];
        let mut j: usize = 0;
        while j < n
            invariant
                n == a@.len(),
                is_square(a@),
                n * n <= usize::MAX,
                i < n,
                j <= n,
                row@ == a@[i as int]@,
                r@.len() == i * n + j,
                forall|ii: int, jj: int|
                    0 <= ii < i && 0 <= jj < n ==> #[trigger] r@[flat(ii, jj, n as int)] == a@[ii]@[jj],
                forall|jj: int| 0 <= jj < j ==> #[trigger] r@[flat(i as int, jj, n as int)] == a@[i as int]@[jj],
            decreases n - j,
        {
            proof {
                lemma_flat_in_bounds(i as int, j as int, n as int);
                assert forall|ii: int, jj: int| 0 <= ii < i && 0 <= jj < n implies flat(ii, jj, n as int)
                    < i * n by {
                    lemma_flat_before_row(ii, jj, i as int, n as int);
                }
            }
            r.push(row[j]);
            j = j + 1;
        }
        proof {
            assert((i + 1) * n == i * n + n) by (nonlinear_arith);
        }
        i = i + 1;
    }
    proof {
        let t = spec_row_major(rows_view(a@));
        assert forall|x: int| 0 <= x < r@.len() implies r@[x] == t[x] by {
            lemma_split(x, n as int);
            assert(r@[flat(x / n as int, x % n as int, n as int)] == a@[x / n as int]@[x % n as int]);
        }
        assert(r@ =~= t);
    }
    r
}

/// A copy of `v`.
fn copy_vec<T: MyNum>(v: &Vec<T>) -> (r: Vec<T>)
    ensures
        r@ == v@,
{
    let mut r: Vec<T> = Vec::new();
    let mut i: usize = 0;
    while i < v.len()
        invariant
            i <= v@.len(),
            r@ == v@.subrange(0, i as int),
        decreases v@.len() - i,
    {
        r.push(v[i]);
        i = i + 1;
        assert(r@ =~= v@.subrange(0, i as int));
    }
    assert(r@ =~= v@);
    r
}

/// The row whose entries land in row `r` when rows `i` and `j` are exchanged.
pub open spec fn swapped_row(r: int, i: int, j: int) -> int {
    if r == i {
        j
    } else if r == j {
        i
    } else {
        r
    }
}

proof fn lemma_flat_injective(r1: int, c1: int, r2: int, c2: int, n: int)
    requires
        0 <= c1 < n,
        0 <= c2 < n,
        flat(r1, c1, n) == flat(r2, c2, n),
    ensures
        r1 == r2,
        c1 == c2,
{
    let x = flat(r1, c1, n);
    lemma_fundamental_div_mod_converse(x, n, r1, c1);
    lemma_fundamental_div_mod_converse(x, n, r2, c2);
}

/// `a`, an `n x n` matrix stored row by row, with rows `i` and `j` exchanged.
pub open spec fn spec_swap_rows<T>(a: Seq<T>, n: int, i: int, j: int) -> Seq<T> {
    Seq::new(a.len(), |x: int| a[flat(swapped_row(x / n, i, j), x % n, n)])
}

/// `b` with entries `i` and `j` exchanged.
pub open spec fn spec_swap_entries<T>(b: Seq<T>, i: int, j: int) -> Seq<T> {
    Seq::new(b.len(), |x: int| b[swapped_row(x, i, j)])
}

/// Exchanges rows `i` and `j` of the `n x n` matrix `a` (stored row by row) and
/// entries `i` and `j` of `b`.
fn swap_rows<T: MyNum>(a: &mut Vec<T>, b: &mut Vec<T>, n: usize, i: usize, j: usize)
    requires
        old(a)@.len() == n * n,
        old(b)@.len() == n,
        n * n <= usize::MAX,
        i < n,
        j < n,
    ensures
        final(a)@.len() == n * n,
        forall|r: int, c: int|
            0 <= r < n && 0 <= c < n ==> #[trigger] final(a)@[flat(r, c, n as int)] == old(a)@[flat(
                swapped_row(r, i as int, j as int),
                c,
                n as int,
            )],
        final(b)@.len() == n,
        forall|r: int| 0 <= r < n ==> #[trigger] final(b)@[r] == old(b)@[swapped_row(r, i as int, j as int)],
        final(a)@ == spec_swap_rows(old(a)@, n as int, i as int, j as int),
        final(b)@ == spec_swap_entries(old(b)@, i as int, j as int),
{
    let ghost a0 = a@;
    let mut c: usize = 0;
    while c < n
        invariant
            a@.len() == n * n,
            a0.len() == n * n,
            n * n <= usize::MAX,
            i < n,
            j < n,
            c <= n,
            forall|r: int, cc: int|
                0 <= r < n && 0 <= cc < n ==> #[trigger] a@[flat(r, cc, n as int)] == if cc < c {
                    a0[flat(swapped_row(r, i as int, j as int), cc, n as int)]
                } else {
                    a0[flat(r, cc, n as int)]
                },
        decreases n - c,
    {
        let ki = flat_index(i, c, n);
        let kj = flat_index(j, c, n);
        let vi = a[ki];
        let vj = a[kj];
        a.set(ki, vj);
        a.set(kj, vi);
        proof {
            assert forall|r: int, cc: int| 0 <= r < n && 0 <= cc < n implies #[trigger] a@[flat(
                r,
                cc,
                n as int,
            )] == if cc < c + 1 {
                a0[flat(swapped_row(r, i as int, j as int), cc, n as int)]
            } else {
                a0[flat(r, cc, n as int)]
            } by {
                lemma_flat_in_bounds(r, cc, n as int);
                if flat(r, cc, n as int) == ki {
                    lemma_flat_injective(r, cc, i as int, c as int, n as int);
                } else if flat(r, cc, n as int) == kj {
                    lemma_flat_injective(r, cc, j as int, c as int, n as int);
                }
            }
        }
        c = c + 1;
    }
    let bi = b[i];
    let bj = b[j];
    b.set(i, bj);
    b.set(j, bi);
    proof {
        let target = spec_swap_rows(a0, n as int, i as int, j as int);
        assert forall|x: int| 0 <= x < a@.len() implies a@[x] == target[x] by {
            lemma_split(x, n as int);
            assert(a@[flat(x / n as int, x % n as int, n as int)] == target[x]);
        }
        assert(a@ =~= target);
        assert(b@ =~= spec_swap_entries(old(b)@, i as int, j as int));
    }
}

/// Whether every row of `a` has as many entries as `a` has rows.
pub fn check_square<T>(a: &Vec<Vec<T>>) -> (r: bool)
    ensures
        r == is_square(a@),
{
    let n = a.len();
    let mut i: usize = 0;
    while i < n
        invariant
            n == a@.len(),
            i <= n,
            forall|ii: int| 0 <= ii < i ==> #[trigger] a@[ii]@.len() == n,
        decreases n - i,
    {
        if a[i].len() != n {
            return false;
        }
        i = i + 1;
    }
    true
}

/// The candidate pivot of column `k` after looking at rows `k .. upto - 1`:
/// its row and magnitude. A later row replaces it only if its magnitude
/// exceeds the current one, so ties keep the first row.
pub open spec fn spec_pivot<T: MyNum>(a: Seq<T>, n: int, k: int, upto: int) -> (int, T)
    decreases upto - k,
{
    if upto <= k + 1 {
        (k, a[flat(k, k, n)].spec_magnitude())
    } else {
        let (p, pmax) = spec_pivot(a, n, k, upto - 1);
        let el = a[flat(upto - 1, k, n)].spec_magnitude();
        if el.spec_exceeds(pmax) {
            (upto - 1, el)
        } else {
            (p, pmax)
        }
    }
}

/// Partial pivoting: the row `p >= k` whose entry in column `k` has the largest
/// magnitude (the first such row on ties), with that magnitude.
fn select_pivot<T: MyNum>(a: &Vec<T>, n: usize, k: usize) -> (r: (usize, T))
    requires
        a@.len() == n * n,
        n * n <= usize::MAX,
        k < n,
    ensures
        k <= r.0 < n,
        r.1 == a@[flat(r.0 as int, k as int, n as int)].spec_magnitude(),
        (r.0 as int, r.1) == spec_pivot(a@, n as int, k as int, n as int),
{
    let mut p = k;
    let mut pmax = a[flat_index(k, k, n)].magnitude();
    let mut i = k + 1;
    while i < n
        invariant
            a@.len() == n * n,
            n * n <= usize::MAX,
            k < i <= n,
            k <= p < n,
            pmax == a@[flat(p as int, k as int, n as int)].spec_magnitude(),
            (p as int, pmax) == spec_pivot(a@, n as int, k as int, i as int),
        decreases n - i,
    {
        let el_abs = a[flat_index(i, k, n)].magnitude();
        if el_abs.exceeds(&pmax) {
            p = i;
            pmax = el_abs;
        }
        i = i + 1;
    }
    (p, pmax)
}

/// The multiplier of row `r` when column `k` is eliminated.
pub open spec fn spec_ratio<T: MyNum>(a: Seq<T>, n: int, k: int, r: int) -> T {
    a[flat(r, k, n)].spec_over(a[flat(k, k, n)])
}

/// Entry `[r, c]` after column `k` is eliminated below the pivot.
pub open spec fn spec_eliminated_entry<T: MyNum>(a: Seq<T>, n: int, k: int, r: int, c: int) -> T {
    if r > k && c == k {
        zero::<T>()
    } else if r > k && c > k {
        a[flat(r, c, n)].spec_minus(a[flat(k, c, n)].spec_times(spec_ratio(a, n, k, r)))
    } else {
        a[flat(r, c, n)]
    }
}

/// The matrix after column `k` is eliminated below the pivot.
pub open spec fn spec_eliminate<T: MyNum>(a: Seq<T>, n: int, k: int) -> Seq<T> {
    Seq::new(a.len(), |x: int| spec_eliminated_entry(a, n, k, x / n, x % n))
}

/// The right-hand side after column `k` of `a` is eliminated below the pivot.
pub open spec fn spec_eliminate_rhs<T: MyNum>(a: Seq<T>, b: Seq<T>, n: int, k: int) -> Seq<T> {
    Seq::new(
        b.len(),
        |r: int|
            if r > k {
                b[r].spec_minus(b[k].spec_times(spec_ratio(a, n, k, r)))
            } else {
                b[r]
            },
    )
}

/// Forward elimination of column `k`: subtracts multiples of row `k` from every
/// row below it, so that column `k` is zero under the pivot.
fn eliminate_below<T: MyNum>(a: &mut Vec<T>, b: &mut Vec<T>, n: usize, k: usize)
    requires
        old(a)@.len() == n * n,
        old(b)@.len() == n,
        n * n <= usize::MAX,
        k < n,
    ensures
        final(a)@ == spec_eliminate(old(a)@, n as int, k as int),
        final(b)@ == spec_eliminate_rhs(old(a)@, old(b)@, n as int, k as int),
{
    let ghost a0 = a@;
    let ghost b0 = b@;
    let ghost ni = n as int;
    let ghost ki = k as int;
    let mut i = k + 1;
    while i < n
        invariant
            a@.len() == n * n,
            b@.len() == n,
            a0.len() == n * n,
            b0.len() == n,
            ni == n,
            ki == k,
            n * n <= usize::MAX,
            k < i <= n,
            forall|r: int, c: int|
                0 <= r < n && 0 <= c < n ==> #[trigger] a@[flat(r, c, ni)] == if r < i {
                    spec_eliminated_entry(a0, ni, ki, r, c)
                } else {
                    a0[flat(r, c, ni)]
                },
            forall|r: int|
                0 <= r < n ==> #[trigger] b@[r] == if r < i {
                    spec_eliminate_rhs(a0, b0, ni, ki)[r]
                } else {
                    b0[r]
                },
        decreases n - i,
    {
        let ik = flat_index(i, k, n);
        let kk = flat_index(k, k, n);
        let ratio = a[ik].over(&a[kk]);
        proof {
            assert(a@[flat(i as int, ki, ni)] == a0[flat(i as int, ki, ni)]);
            assert(a@[flat(ki, ki, ni)] == a0[flat(ki, ki, ni)]);
        }
        a.set(ik, T::from_usize(0));
        proof {
            assert forall|r: int, c: int| 0 <= r < n && 0 <= c < n implies #[trigger] a@[flat(r, c, ni)]
                == if r < i || (r == i && ki <= c < k + 1) {
                spec_eliminated_entry(a0, ni, ki, r, c)
            } else {
                a0[flat(r, c, ni)]
            } by {
                lemma_flat_in_bounds(r, c, ni);
                if flat(r, c, ni) == ik {
                    lemma_flat_injective(r, c, i as int, ki, ni);
                }
            }
        }
        let mut j = k + 1;
        while j < n
            invariant
                a@.len() == n * n,
                a0.len() == n * n,
                ni == n,
                ki == k,
                n * n <= usize::MAX,
                k < i < n,
                k < j <= n,
                ratio == spec_ratio(a0, ni, ki, i as int),
                forall|r: int, c: int|
                    0 <= r < n && 0 <= c < n ==> #[trigger] a@[flat(r, c, ni)] == if r < i || (r == i
                        && ki <= c < j) {
                        spec_eliminated_entry(a0, ni, ki, r, c)
                    } else {
                        a0[flat(r, c, ni)]
                    },
            decreases n - j,
        {
            let kj = flat_index(k, j, n);
            let val = a[kj];
            let ij = flat_index(i, j, n);
            proof {
                assert(a@[flat(ki, j as int, ni)] == a0[flat(ki, j as int, ni)]);
                assert(a@[flat(i as int, j as int, ni)] == a0[flat(i as int, j as int, ni)]);
            }
            let reduced = a[ij].minus(&val.times(&ratio));
            a.set(ij, reduced);
            proof {
                assert forall|r: int, c: int| 0 <= r < n && 0 <= c < n implies #[trigger] a@[flat(r, c, ni)]
                    == if r < i || (r == i && ki <= c < j + 1) {
                    spec_eliminated_entry(a0, ni, ki, r, c)
                } else {
                    a0[flat(r, c, ni)]
                } by {
                    lemma_flat_in_bounds(r, c, ni);
                    if flat(r, c, ni) == ij {
                        lemma_flat_injective(r, c, i as int, j as int, ni);
                    }
                }
            }
            j = j + 1;
        }
        let val = b[k];
        let reduced = b[i].minus(&val.times(&ratio));
        b.set(i, reduced);
        i = i + 1;
    }
    proof {
        let ta = spec_eliminate(a0, ni, ki);
        assert forall|x: int| 0 <= x < a@.len() implies a@[x] == ta[x] by {
            lemma_split(x, ni);
            assert(a@[flat(x / ni, x % ni, ni)] == ta[x]);
        }
        assert(a@ =~= ta);
        let tb = spec_eliminate_rhs(a0, b0, ni, ki);
        assert forall|x: int| 0 <= x < b@.len() implies b@[x] == tb[x] by {
            assert(b@[x] == tb[x]);
        }
        assert(b@ =~= tb);
    }
}

/// Entry `[r, c]` after back substitution: zero right of the diagonal, one on
/// it, unchanged left of it.
pub open spec fn spec_substituted_entry<T: MyNum>(a: Seq<T>, n: int, r: int, c: int) -> T {
    if c > r {
        zero::<T>()
    } else if c == r {
        one::<T>()
    } else {
        a[flat(r, c, n)]
    }
}

/// The matrix after back substitution.
pub open spec fn spec_substitute<T: MyNum>(a: Seq<T>, n: int) -> Seq<T> {
    Seq::new(a.len(), |x: int| spec_substituted_entry(a, n, x / n, x % n))
}

/// `b[i]` less `a[i, j'] x[j']` for `j' = i + 1 .. j - 1` in that order, where
/// `x[j']` is the solved value of row `j'`.
pub open spec fn spec_reduced<T: MyNum>(a: Seq<T>, b: Seq<T>, n: int, i: int, j: int) -> T
    decreases n - i, j,
{
    if i < 0 || i >= n || j <= i + 1 || j > n {
        b[i]
    } else {
        spec_reduced(a, b, n, i, j - 1).spec_minus(
            a[flat(i, j - 1, n)].spec_times(
                spec_reduced(a, b, n, j - 1, n).spec_over(a[flat(j - 1, j - 1, n)]),
            ),
        )
    }
}

/// The solved value of row `i` after back substitution.
pub open spec fn spec_solved<T: MyNum>(a: Seq<T>, b: Seq<T>, n: int, i: int) -> T {
    spec_reduced(a, b, n, i, n).spec_over(a[flat(i, i, n)])
}

/// The right-hand side after back substitution.
pub open spec fn spec_substitute_rhs<T: MyNum>(a: Seq<T>, b: Seq<T>, n: int) -> Seq<T> {
    Seq::new(b.len(), |i: int| spec_solved(a, b, n, i))
}

/// Back substitution from the bottom row upward: clears the entries right of
/// the diagonal into `b` and normalizes each row by its diagonal entry.
fn back_substitute<T: MyNum>(a: &mut Vec<T>, b: &mut Vec<T>, n: usize)
    requires
        old(a)@.len() == n * n,
        old(b)@.len() == n,
        n * n <= usize::MAX,
    ensures
        final(a)@ == spec_substitute(old(a)@, n as int),
        final(b)@ == spec_substitute_rhs(old(a)@, old(b)@, n as int),
{
    let ghost a0 = a@;
    let ghost b0 = b@;
    let ghost ni = n as int;
    let mut row = n;
    while row > 0
        invariant
            a@.len() == n * n,
            b@.len() == n,
            a0.len() == n * n,
            b0.len() == n,
            ni == n,
            n * n <= usize::MAX,
            row <= n,
            forall|r: int, c: int|
                0 <= r < n && 0 <= c < n ==> #[trigger] a@[flat(r, c, ni)] == if r >= row {
                    spec_substituted_entry(a0, ni, r, c)
                } else {
                    a0[flat(r, c, ni)]
                },
            forall|r: int|
                0 <= r < n ==> #[trigger] b@[r] == if r >= row {
                    spec_solved(a0, b0, ni, r)
                } else {
                    b0[r]
                },
        decreases row,
    {
        let i = row - 1;
        let mut j = i + 1;
        while j < n
            invariant
                a@.len() == n * n,
                b@.len() == n,
                a0.len() == n * n,
                b0.len() == n,
                ni == n,
                n * n <= usize::MAX,
                i < j <= n,
                i < n,
                row == i + 1,
                forall|r: int, c: int|
                    0 <= r < n && 0 <= c < n ==> #[trigger] a@[flat(r, c, ni)] == if r >= row {
                        spec_substituted_entry(a0, ni, r, c)
                    } else if r == i && i < c < j {
                        zero::<T>()
                    } else {
                        a0[flat(r, c, ni)]
                    },
                forall|r: int|
                    0 <= r < n && r != i ==> #[trigger] b@[r] == if r >= row {
                        spec_solved(a0, b0, ni, r)
                    } else {
                        b0[r]
                    },
                b@[i as int] == spec_reduced(a0, b0, ni, i as int, j as int),
            decreases n - j,
        {
            let ij = flat_index(i, j, n);
            proof {
                assert(a@[flat(i as int, j as int, ni)] == a0[flat(i as int, j as int, ni)]);
                assert(b@[j as int] == spec_solved(a0, b0, ni, j as int));
            }
            let val = a[ij].times(&b[j]);
            let reduced = b[i].minus(&val);
            b.set(i, reduced);
            a.set(ij, T::from_usize(0));
            proof {
                assert forall|r: int, c: int| 0 <= r < n && 0 <= c < n implies #[trigger] a@[flat(r, c, ni)]
                    == if r >= row {
                    spec_substituted_entry(a0, ni, r, c)
                } else if r == i && i < c < j + 1 {
                    zero::<T>()
                } else {
                    a0[flat(r, c, ni)]
                } by {
                    lemma_flat_in_bounds(r, c, ni);
                    if flat(r, c, ni) == ij {
                        lemma_flat_injective(r, c, i as int, j as int, ni);
                    }
                }
            }
            j = j + 1;
        }
        let ii = flat_index(i, i, n);
        proof {
            assert(a@[flat(i as int, i as int, ni)] == a0[flat(i as int, i as int, ni)]);
        }
        let normalized = b[i].over(&a[ii]);
        b.set(i, normalized);
        a.set(ii, T::from_usize(1));
        proof {
            assert forall|r: int, c: int| 0 <= r < n && 0 <= c < n implies #[trigger] a@[flat(r, c, ni)]
                == if r >= i {
                spec_substituted_entry(a0, ni, r, c)
            } else {
                a0[flat(r, c, ni)]
            } by {
                lemma_flat_in_bounds(r, c, ni);
                if flat(r, c, ni) == ii {
                    lemma_flat_injective(r, c, i as int, i as int, ni);
                }
            }
        }
        row = i;
    }
    proof {
        let ta = spec_substitute(a0, ni);
        assert forall|x: int| 0 <= x < a@.len() implies a@[x] == ta[x] by {
            lemma_split(x, ni);
            assert(a@[flat(x / ni, x % ni, ni)] == ta[x]);
        }
        assert(a@ =~= ta);
        let tb = spec_substitute_rhs(a0, b0, ni);
        assert forall|x: int| 0 <= x < b@.len() implies b@[x] == tb[x] by {
            assert(b@[x] == tb[x]);
        }
        assert(b@ =~= tb);
    }
}

/// The solver's absolute pivot tolerance, `1 / (100000 * 100000)`, that is
/// `1e-10`.
pub open spec fn spec_pivot_tolerance<T: MyNum>() -> T {
    let e5 = T::spec_from_usize(100000);
    one::<T>().spec_over(e5.spec_times(e5))
}

/// A pivot of magnitude `m` counts as zero: `m` is below the tolerance.
pub open spec fn spec_negligible<T: MyNum>(m: T) -> bool {
    spec_pivot_tolerance::<T>().spec_exceeds(m)
}

/// Forward elimination from pivot column `k` on, on the working matrix `a`
/// (stored row by row) and right-hand side `b`: for each column, partial
/// pivoting, the tolerance test, the row exchange and the elimination below
/// the pivot. Gives the upper triangular system, or `SingularMatrix` at the
/// first column whose largest candidate pivot is negligible.
pub open spec fn spec_forward<T: MyNum>(a: Seq<T>, b: Seq<T>, n: int, k: int) -> Result<
    (Seq<T>, Seq<T>),
    MyLinalgError,
>
    decreases n - k,
{
    if k < 0 || k >= n {
        Ok((a, b))
    } else {
        let (p, pmax) = spec_pivot(a, n, k, n);
        if spec_negligible(pmax) {
            Err(MyLinalgError::SingularMatrix)
        } else {
            let a1 = if p != k {
                spec_swap_rows(a, n, k, p)
            } else {
                a
            };
            let b1 = if p != k {
                spec_swap_entries(b, k, p)
            } else {
                b
            };
            spec_forward(spec_eliminate(a1, n, k), spec_eliminate_rhs(a1, b1, n, k), n, k + 1)
        }
    }
}

/// Forward elimination of the whole square matrix given by the rows `a`.
pub open spec fn spec_triangulate<T: MyNum>(a: Seq<Seq<T>>, b: Seq<T>) -> Result<(Seq<T>, Seq<T>), MyLinalgError> {
    spec_forward(spec_row_major(a), b, a.len() as int, 0)
}

/// What `gauss` returns for the matrix given by the rows `a` and the
/// right-hand side `b`: forward elimination with partial pivoting, then one
/// back substitution on the triangular system.
pub open spec fn spec_gauss<T: MyNum>(a: Seq<Seq<T>>, b: Seq<T>) -> Result<Seq<T>, MyLinalgError> {
    if !rows_square(a) {
        Err(MyLinalgError::NonSquareMatrix)
    } else {
        match spec_triangulate(a, b) {
            Ok((u, c)) => Ok(spec_substitute_rhs(u, c, a.len() as int)),
            Err(e) => Err(e),
        }
    }
}

/// A solver result with the solution seen as a sequence.
pub open spec fn result_view<T>(r: Result<Vec<T>, MyLinalgError>) -> Result<Seq<T>, MyLinalgError> {
    match r {
        Ok(x) => Ok(x@),
        Err(e) => Err(e),
    }
}

/// Every entry of the first column of `a` counts as a zero pivot.
pub open spec fn first_column_negligible<T: MyNum>(a: Seq<Vec<T>>) -> bool {
    forall|i: int| 0 <= i < a.len() ==> spec_negligible((#[trigger] a[i]@[0]).spec_magnitude())
}

/// Solves `a x = b` by Gaussian elimination with partial pivoting, on a working
/// copy of `a` and `b`: forward elimination column by column, then back
/// substitution from the bottom row upward.
///
/// A matrix that is not square (some row's length differs from the number of
/// rows) is refused with `NonSquareMatrix` before any elimination, whatever
/// `b` holds. When the largest candidate pivot of some column, in the matrix
/// as eliminated so far, is below the absolute tolerance `1e-10`, the solve
/// stops with `SingularMatrix` and returns no vector.
pub fn gauss<T: MyNum>(a: &Vec<Vec<T>>, b: &Vec<T>) -> (r: Result<Vec<T>, MyLinalgError>)
    requires
        is_square(a@) ==> b@.len() == a@.len(),
        is_square(a@) ==> a@.len() * a@.len() <= usize::MAX,
    ensures
        !is_square(a@) <==> r == Err::<Vec<T>, MyLinalgError>(MyLinalgError::NonSquareMatrix),
        is_square(a@) ==> (r == Err::<Vec<T>, MyLinalgError>(MyLinalgError::SingularMatrix)
            <==> spec_triangulate(rows_view(a@), b@) is Err),
        r matches Ok(x) ==> x@.len() == a@.len(),
        a@.len() == 0 ==> (r matches Ok(x) && x@.len() == 0),
        is_square(a@) && a@.len() > 0 && first_column_negligible(a@) ==> r == Err::<Vec<T>, MyLinalgError>(
            MyLinalgError::SingularMatrix,
        ),
        result_view(r) == spec_gauss(rows_view(a@), b@),
{
    let size = a.len();
    proof {
        let rv = rows_view(a@);
        if is_square(a@) {
            assert forall|i: int| 0 <= i < rv.len() implies #[trigger] rv[i].len() == rv.len() by {
                assert(a@[i]@.len() == a@.len());
            }
        }
        if rows_square(rv) {
            assert forall|i: int| 0 <= i < a@.len() implies #[trigger] a@[i]@.len() == a@.len() by {
                assert(rv[i].len() == rv.len());
            }
        }
    }
    if !check_square(a) {
        return Err(MyLinalgError::NonSquareMatrix);
    }
    let mut acopy = row_major(a);
    let mut bcopy = copy_vec(b);
    let e5 = T::from_usize(100000);
    let tol = T::from_usize(1).over(&e5.times(&e5));
    let mut k: usize = 0;
    while k < size
        invariant
            size == a@.len(),
            is_square(a@),
            size * size <= usize::MAX,
            acopy@.len() == size * size,
            bcopy@.len() == size,
            k <= size,
            k == 0 ==> forall|i: int, j: int|
                0 <= i < size && 0 <= j < size ==> #[trigger] acopy@[flat(i, j, size as int)] == a@[i]@[j],
            k > 0 ==> !first_column_negligible(a@),
            rows_square(rows_view(a@)),
            spec_forward(acopy@, bcopy@, size as int, k as int) == spec_triangulate(rows_view(a@), b@),
            tol == spec_pivot_tolerance::<T>(),
        decreases size - k,
    {
        let (p, pmax) = select_pivot(&acopy, size, k);
        if tol.exceeds(&pmax) {
            return Err(MyLinalgError::SingularMatrix);
        }
        proof {
            if k == 0 {
                assert(acopy@[flat(p as int, 0, size as int)] == a@[p as int]@[0]);
            }
        }
        if p != k {
            swap_rows(&mut acopy, &mut bcopy, size, k, p);
        }
        eliminate_below(&mut acopy, &mut bcopy, size, k);
        k = k + 1;
    }
    back_substitute(&mut acopy, &mut bcopy, size);
    Ok(bcopy)
}

/// The solver's outcome depends on the matrix and the right-hand side alone:
/// equal inputs give the same variant, and on success the same solution.
pub proof fn lemma_gauss_deterministic<T: MyNum>(
    a1: Seq<Seq<T>>,
    b1: Seq<T>,
    a2: Seq<Seq<T>>,
    b2: Seq<T>,
)
    requires
        a1 == a2,
        b1 == b2,
    ensures
        spec_gauss(a1, b1) == spec_gauss(a2, b2),
{
}

} // verus!
