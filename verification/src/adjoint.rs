//! The difference operators as adjoint pairs.
//!
//! Under arithmetic without rounding, the inner product of a gradient with a
//! field equals the inner product of the image with the field's divergence,
//! and likewise for the symmetrised pair.
use vstd::prelude::*;
use crate::exact::exact_arithmetic;
use crate::exact::lemma_difference_times;
use crate::exact::lemma_negated_scale;
use crate::exact::lemma_negation_of_sum;
use crate::exact::lemma_product_distributes;
use crate::exact::lemma_scaled_sum_times;
use crate::exact::lemma_sum_interchange;
use crate::exact::lemma_sum_swap;
use crate::exact::lemma_sum_zero;
use crate::exact::lemma_times_negated_difference;
use crate::grid::rectangular;
use crate::operators::divergence_of;
use crate::operators::gradient_of;
use crate::operators::sym_divergence_of;
use crate::operators::sym_gradient_of;
use crate::scalar::half_value;
use crate::scalar::Scalar;

verus! {

/// The sum `f(0) + f(1) + ... + f(n - 1)`, added up from the left; zero when
/// `n` is not positive.
pub open spec fn total<S: Scalar>(f: spec_fn(int) -> S, n: int) -> S
    decreases n,
{
    if n <= 0 {
        S::zero_value()
    } else {
        total(f, n - 1).sum(f(n - 1))
    }
}

/// The sum of `f(i, j)` over `0 <= i < height` and `0 <= j < width`: the sum
/// over the rows of the sum along each row.
pub open spec fn grid_total<S: Scalar>(f: spec_fn(int, int) -> S, height: int, width: int) -> S {
    total(|i: int| total(|j: int| f(i, j), width), height)
}

/// Sums of terms that agree on the range agree.
proof fn lemma_total_ext<S: Scalar>(f: spec_fn(int) -> S, g: spec_fn(int) -> S, n: int)
    requires
        forall|k: int| 0 <= k < n ==> #[trigger] f(k) == g(k),
    ensures
        total(f, n) == total(g, n),
    decreases n,
{
    if n > 0 {
        lemma_total_ext(f, g, n - 1);
    }
}

/// The sum of `f(k) + g(k)` is the sum of the `f(k)` plus the sum of the `g(k)`.
proof fn lemma_total_of_sums<S: Scalar>(
    f: spec_fn(int) -> S,
    g: spec_fn(int) -> S,
    both: spec_fn(int) -> S,
    n: int,
)
    requires
        exact_arithmetic::<S>(),
        forall|k: int| 0 <= k < n ==> #[trigger] both(k) == f(k).sum(g(k)),
    ensures
        total(both, n) == total(f, n).sum(total(g, n)),
    decreases n,
{
    if n > 0 {
        lemma_total_of_sums(f, g, both, n - 1);
        lemma_sum_interchange(total(f, n - 1), total(g, n - 1), f(n - 1), g(n - 1));
    } else {
        lemma_sum_zero(S::zero_value());
    }
}

/// `f(1) + ... + f(m)`, then `f(0)`, is `f(0) + ... + f(m)`.
proof fn lemma_total_first_last<S: Scalar>(
    f: spec_fn(int) -> S,
    later: spec_fn(int) -> S,
    m: int,
)
    requires
        exact_arithmetic::<S>(),
        0 <= m,
        forall|k: int| 0 <= k < m ==> #[trigger] later(k) == f(k + 1),
    ensures
        total(later, m).sum(f(0)) == total(f, m + 1),
    decreases m,
{
    if m > 0 {
        lemma_total_first_last(f, later, m - 1);
        lemma_sum_swap(total(later, m - 1), later(m - 1), f(0));
        assert(total(f, m + 1) == total(f, m).sum(f(m)));
    } else {
        assert(total(f, 1) == total(f, 0).sum(f(0)));
    }
}

/// A sum over a whole period does not change when the terms are taken one
/// place further on, wrapping around.
proof fn lemma_total_rotated<S: Scalar>(f: spec_fn(int) -> S, turned: spec_fn(int) -> S, n: int)
    requires
        exact_arithmetic::<S>(),
        0 < n,
        forall|k: int| 0 <= k < n ==> #[trigger] turned(k) == f((k + 1) % n),
    ensures
        total(turned, n) == total(f, n),
{
    assert forall|k: int| 0 <= k < n - 1 implies #[trigger] turned(k) == f(k + 1) by {
        vstd::arithmetic::div_mod::lemma_small_mod((k + 1) as nat, n as nat);
    }
    assert(turned(n - 1) == f(0)) by {
        vstd::arithmetic::div_mod::lemma_mod_self_0(n);
    }
    lemma_total_first_last(f, turned, n - 1);
}

/// Sums over a grid of terms that agree on the grid agree.
proof fn lemma_grid_total_ext<S: Scalar>(
    f: spec_fn(int, int) -> S,
    g: spec_fn(int, int) -> S,
    height: int,
    width: int,
)
    requires
        forall|i: int, j: int|
            0 <= i < height && 0 <= j < width ==> #[trigger] f(i, j) == g(i, j),
    ensures
        grid_total(f, height, width) == grid_total(g, height, width),
{
    let rows_f = |i: int| total(|j: int| f(i, j), width);
    let rows_g = |i: int| total(|j: int| g(i, j), width);
    assert forall|i: int| 0 <= i < height implies #[trigger] rows_f(i) == rows_g(i) by {
        lemma_total_ext(|j: int| f(i, j), |j: int| g(i, j), width);
    }
    lemma_total_ext(rows_f, rows_g, height);
}

/// The sum over a grid of `f(i, j) + g(i, j)` is the sum of the `f(i, j)`
/// plus the sum of the `g(i, j)`.
proof fn lemma_grid_total_of_sums<S: Scalar>(
    f: spec_fn(int, int) -> S,
    g: spec_fn(int, int) -> S,
    both: spec_fn(int, int) -> S,
    height: int,
    width: int,
)
    requires
        exact_arithmetic::<S>(),
        forall|i: int, j: int|
            0 <= i < height && 0 <= j < width ==> #[trigger] both(i, j) == f(i, j).sum(g(i, j)),
    ensures
        grid_total(both, height, width) == grid_total(f, height, width).sum(
            grid_total(g, height, width),
        ),
{
    let rows_f = |i: int| total(|j: int| f(i, j), width);
    let rows_g = |i: int| total(|j: int| g(i, j), width);
    let rows_both = |i: int| total(|j: int| both(i, j), width);
    assert forall|i: int| 0 <= i < height implies #[trigger] rows_both(i) == rows_f(i).sum(
        rows_g(i),
    ) by {
        lemma_total_of_sums(|j: int| f(i, j), |j: int| g(i, j), |j: int| both(i, j), width);
    }
    lemma_total_of_sums(rows_f, rows_g, rows_both, height);
}

/// A sum over a grid does not change when every row is read one column
/// further on, wrapping around.
proof fn lemma_grid_total_columns_rotated<S: Scalar>(
    f: spec_fn(int, int) -> S,
    turned: spec_fn(int, int) -> S,
    height: int,
    width: int,
)
    requires
        exact_arithmetic::<S>(),
        0 < width,
        forall|i: int, j: int|
            0 <= i < height && 0 <= j < width ==> #[trigger] turned(i, j) == f(
                i,
                (j + 1) % width,
            ),
    ensures
        grid_total(turned, height, width) == grid_total(f, height, width),
{
    let rows_f = |i: int| total(|j: int| f(i, j), width);
    let rows_t = |i: int| total(|j: int| turned(i, j), width);
    assert forall|i: int| 0 <= i < height implies #[trigger] rows_t(i) == rows_f(i) by {
        lemma_total_rotated(|j: int| f(i, j), |j: int| turned(i, j), width);
    }
    lemma_total_ext(rows_t, rows_f, height);
}

/// A sum over a grid does not change when the rows are read one row further
/// on, wrapping around.
proof fn lemma_grid_total_rows_rotated<S: Scalar>(
    f: spec_fn(int, int) -> S,
    turned: spec_fn(int, int) -> S,
    height: int,
    width: int,
)
    requires
        exact_arithmetic::<S>(),
        0 < height,
        forall|i: int, j: int|
            0 <= i < height && 0 <= j < width ==> #[trigger] turned(i, j) == f(
                (i + 1) % height,
                j,
            ),
    ensures
        grid_total(turned, height, width) == grid_total(f, height, width),
{
    let rows_f = |i: int| total(|j: int| f(i, j), width);
    let rows_t = |i: int| total(|j: int| turned(i, j), width);
    assert forall|i: int| 0 <= i < height implies #[trigger] rows_t(i) == rows_f(
        (i + 1) % height,
    ) by {
        let up = (i + 1) % height;
        vstd::arithmetic::div_mod::lemma_mod_bound(i + 1, height);
        lemma_total_ext(|j: int| turned(i, j), |j: int| f(up, j), width);
    }
    lemma_total_rotated(rows_f, rows_t, height);
}

/// The index one place further on along a period of `n`.
pub open spec fn next(k: int, n: int) -> int {
    (k + 1) % n
}

/// The index one place further back along a period of `n`.
pub open spec fn previous(k: int, n: int) -> int {
    (k - 1) % n
}

proof fn lemma_previous_of_next(k: int, n: int)
    requires
        0 <= k < n,
    ensures
        0 <= next(k, n) < n,
        previous(next(k, n), n) == k,
{
    vstd::arithmetic::div_mod::lemma_mod_bound(k + 1, n);
    vstd::arithmetic::div_mod::lemma_add_mod_noop_right(-1, k + 1, n);
    vstd::arithmetic::div_mod::lemma_small_mod(k as nat, n as nat);
}

/// Summation by parts along the rows of a periodic grid: the forward column
/// difference of `f` against `g` sums to `f` against the negated backward
/// column difference of `g`.
proof fn lemma_columns_by_parts<S: Scalar>(
    f: spec_fn(int, int) -> S,
    g: spec_fn(int, int) -> S,
    left: spec_fn(int, int) -> S,
    right: spec_fn(int, int) -> S,
    height: int,
    width: int,
)
    requires
        exact_arithmetic::<S>(),
        0 < width,
        forall|i: int, j: int|
            0 <= i < height && 0 <= j < width ==> #[trigger] left(i, j) == f(
                i,
                next(j, width),
            ).difference(f(i, j)).product(g(i, j)),
        forall|i: int, j: int|
            0 <= i < height && 0 <= j < width ==> #[trigger] right(i, j) == f(i, j).product(
                g(i, j).difference(g(i, previous(j, width))).negation(),
            ),
    ensures
        grid_total(left, height, width) == grid_total(right, height, width),
{
    let moved = |i: int, j: int| f(i, j).product(g(i, previous(j, width)));
    let turned = |i: int, j: int| moved(i, next(j, width));
    let same = |i: int, j: int| f(i, j).product(g(i, j)).negation();
    assert forall|i: int, j: int| 0 <= i < height && 0 <= j < width implies #[trigger] left(i, j)
        == turned(i, j).sum(same(i, j)) by {
        lemma_previous_of_next(j, width);
        lemma_difference_times(f(i, next(j, width)), f(i, j), g(i, j));
    }
    assert forall|i: int, j: int| 0 <= i < height && 0 <= j < width implies #[trigger] right(i, j)
        == moved(i, j).sum(same(i, j)) by {
        lemma_times_negated_difference(f(i, j), g(i, j), g(i, previous(j, width)));
    }
    lemma_grid_total_of_sums(turned, same, left, height, width);
    lemma_grid_total_of_sums(moved, same, right, height, width);
    lemma_grid_total_columns_rotated(moved, turned, height, width);
}

/// Summation by parts down the columns of a periodic grid: the forward row
/// difference of `f` against `g` sums to `f` against the negated backward row
/// difference of `g`.
proof fn lemma_rows_by_parts<S: Scalar>(
    f: spec_fn(int, int) -> S,
    g: spec_fn(int, int) -> S,
    left: spec_fn(int, int) -> S,
    right: spec_fn(int, int) -> S,
    height: int,
    width: int,
)
    requires
        exact_arithmetic::<S>(),
        0 < height,
        forall|i: int, j: int|
            0 <= i < height && 0 <= j < width ==> #[trigger] left(i, j) == f(
                next(i, height),
                j,
            ).difference(f(i, j)).product(g(i, j)),
        forall|i: int, j: int|
            0 <= i < height && 0 <= j < width ==> #[trigger] right(i, j) == f(i, j).product(
                g(i, j).difference(g(previous(i, height), j)).negation(),
            ),
    ensures
        grid_total(left, height, width) == grid_total(right, height, width),
{
    let moved = |i: int, j: int| f(i, j).product(g(previous(i, height), j));
    let turned = |i: int, j: int| moved(next(i, height), j);
    let same = |i: int, j: int| f(i, j).product(g(i, j)).negation();
    assert forall|i: int, j: int| 0 <= i < height && 0 <= j < width implies #[trigger] left(i, j)
        == turned(i, j).sum(same(i, j)) by {
        lemma_previous_of_next(i, height);
        lemma_difference_times(f(next(i, height), j), f(i, j), g(i, j));
    }
    assert forall|i: int, j: int| 0 <= i < height && 0 <= j < width implies #[trigger] right(i, j)
        == moved(i, j).sum(same(i, j)) by {
        lemma_times_negated_difference(f(i, j), g(i, j), g(previous(i, height), j));
    }
    lemma_grid_total_of_sums(turned, same, left, height, width);
    lemma_grid_total_of_sums(moved, same, right, height, width);
    lemma_grid_total_rows_rotated(moved, turned, height, width);
}

/// The length of the first row of `cells`; zero when there is no row.
pub open spec fn width_of<T>(cells: Seq<Seq<T>>) -> int {
    if cells.len() > 0 {
        cells[0].len() as int
    } else {
        0
    }
}

/// The inner product of two scalar images: the sum of the products of their
/// cells.
pub open spec fn inner_1<S: Scalar>(a: Seq<Seq<S>>, b: Seq<Seq<S>>) -> S {
    grid_total(|i: int, j: int| a[i][j].product(b[i][j]), a.len() as int, width_of(a))
}

/// The inner product of two two-channel fields.
pub open spec fn inner_2<S: Scalar>(x: Seq<Seq<(S, S)>>, y: Seq<Seq<(S, S)>>) -> S {
    grid_total(
        |i: int, j: int| x[i][j].0.product(y[i][j].0).sum(x[i][j].1.product(y[i][j].1)),
        x.len() as int,
        width_of(x),
    )
}

/// The inner product of two three-channel fields.
pub open spec fn inner_3<S: Scalar>(x: Seq<Seq<(S, S, S)>>, y: Seq<Seq<(S, S, S)>>) -> S {
    grid_total(
        |i: int, j: int|
            x[i][j].0.product(y[i][j].0).sum(x[i][j].1.product(y[i][j].1)).sum(
                x[i][j].2.product(y[i][j].2),
            ),
        x.len() as int,
        width_of(x),
    )
}

/// Under exact arithmetic the gradient and the divergence are adjoint: the
/// inner product of the gradient of `a` with the field `b` equals the inner
/// product of `a` with the divergence of `b`.
pub proof fn lemma_gradient_adjoint<S: Scalar>(a: Seq<Seq<S>>, b: Seq<Seq<(S, S)>>, width: nat)
    requires
        exact_arithmetic::<S>(),
        a.len() == b.len(),
        rectangular(a, width),
        rectangular(b, width),
    ensures
        inner_2(gradient_of(a), b) == inner_1(a, divergence_of(b)),
{
    let h = a.len() as int;
    let w = width as int;
    let grad = gradient_of(a);
    let div = divergence_of(b);
    let left = |i: int, j: int|
        grad[i][j].0.product(b[i][j].0).sum(grad[i][j].1.product(b[i][j].1));
    let right = |i: int, j: int| a[i][j].product(div[i][j]);
    if h > 0 {
        assert(width_of(grad) == w);
        assert(width_of(a) == w);
        if w > 0 {
            let plane = |i: int, j: int| a[i][j];
            let b0 = |i: int, j: int| b[i][j].0;
            let b1 = |i: int, j: int| b[i][j].1;
            let lx = |i: int, j: int| a[i][next(j, w)].difference(a[i][j]).product(b[i][j].0);
            let ly = |i: int, j: int| a[next(i, h)][j].difference(a[i][j]).product(b[i][j].1);
            let rx = |i: int, j: int|
                a[i][j].product(b[i][j].0.difference(b[i][previous(j, w)].0).negation());
            let ry = |i: int, j: int|
                a[i][j].product(b[i][j].1.difference(b[previous(i, h)][j].1).negation());
            assert forall|i: int, j: int| 0 <= i < h && 0 <= j < w implies #[trigger] left(i, j)
                == lx(i, j).sum(ly(i, j)) by {
                lemma_previous_of_next(i, h);
                lemma_previous_of_next(j, w);
            }
            assert forall|i: int, j: int| 0 <= i < h && 0 <= j < w implies #[trigger] right(i, j)
                == rx(i, j).sum(ry(i, j)) by {
                vstd::arithmetic::div_mod::lemma_mod_bound(i - 1, h);
                vstd::arithmetic::div_mod::lemma_mod_bound(j - 1, w);
                let dx = b[i][j].0.difference(b[i][previous(j, w)].0);
                let dy = b[i][j].1.difference(b[previous(i, h)][j].1);
                assert(div[i][j] == dx.sum(dy).negation());
                lemma_negation_of_sum(dx, dy);
                lemma_product_distributes(a[i][j], dx.negation(), dy.negation());
            }
            lemma_grid_total_of_sums(lx, ly, left, h, w);
            lemma_grid_total_of_sums(rx, ry, right, h, w);
            lemma_columns_by_parts(plane, b0, lx, rx, h, w);
            lemma_rows_by_parts(plane, b1, ly, ry, h, w);
        } else {
            lemma_grid_total_ext(left, right, h, w);
        }
    }
}

/// Under exact arithmetic the symmetrised gradient and the symmetrised
/// divergence are adjoint: the inner product of the symmetrised gradient of
/// `v` with the tensor field `q` equals the inner product of `v` with the
/// symmetrised divergence of `q`.
pub proof fn lemma_sym_gradient_adjoint<S: Scalar>(
    v: Seq<Seq<(S, S)>>,
    q: Seq<Seq<(S, S, S)>>,
    width: nat,
)
    requires
        exact_arithmetic::<S>(),
        v.len() == q.len(),
        rectangular(v, width),
        rectangular(q, width),
    ensures
        inner_3(sym_gradient_of(v), q) == inner_2(v, sym_divergence_of(q)),
{
    let h = v.len() as int;
    let w = width as int;
    let e = sym_gradient_of(v);
    let sd = sym_divergence_of(q);
    let hv = half_value::<S>();
    let left = |i: int, j: int|
        e[i][j].0.product(q[i][j].0).sum(e[i][j].1.product(q[i][j].1)).sum(
            e[i][j].2.product(q[i][j].2),
        );
    let right = |i: int, j: int|
        v[i][j].0.product(sd[i][j].0).sum(v[i][j].1.product(sd[i][j].1));
    if h > 0 {
        assert(width_of(e) == w);
        assert(width_of(v) == w);
        if w > 0 {
            let v0 = |i: int, j: int| v[i][j].0;
            let v1 = |i: int, j: int| v[i][j].1;
            let q0 = |i: int, j: int| q[i][j].0;
            let q1 = |i: int, j: int| q[i][j].1;
            let hq = |i: int, j: int| hv.product(q[i][j].2);
            let l0 = |i: int, j: int| v0(i, next(j, w)).difference(v0(i, j)).product(q0(i, j));
            let r0 = |i: int, j: int|
                v0(i, j).product(q0(i, j).difference(q0(i, previous(j, w))).negation());
            let l1 = |i: int, j: int| v1(next(i, h), j).difference(v1(i, j)).product(q1(i, j));
            let r1 = |i: int, j: int|
                v1(i, j).product(q1(i, j).difference(q1(previous(i, h), j)).negation());
            let l2a = |i: int, j: int| v0(next(i, h), j).difference(v0(i, j)).product(hq(i, j));
            let r2a = |i: int, j: int|
                v0(i, j).product(hq(i, j).difference(hq(previous(i, h), j)).negation());
            let l2b = |i: int, j: int| v1(i, next(j, w)).difference(v1(i, j)).product(hq(i, j));
            let r2b = |i: int, j: int|
                v1(i, j).product(hq(i, j).difference(hq(i, previous(j, w))).negation());
            let l01 = |i: int, j: int| l0(i, j).sum(l1(i, j));
            let l2 = |i: int, j: int| l2a(i, j).sum(l2b(i, j));
            let r02 = |i: int, j: int| r0(i, j).sum(r2a(i, j));
            let r12 = |i: int, j: int| r1(i, j).sum(r2b(i, j));
            assert forall|i: int, j: int| 0 <= i < h && 0 <= j < w implies #[trigger] left(i, j)
                == l01(i, j).sum(l2(i, j)) by {
                lemma_previous_of_next(i, h);
                lemma_previous_of_next(j, w);
                let c = v[next(i, h)][j].0.difference(v[i][j].0);
                let d = v[i][next(j, w)].1.difference(v[i][j].1);
                assert(e[i][j].2 == hv.product(c.sum(d)));
                lemma_scaled_sum_times(hv, c, d, q[i][j].2);
            }
            assert forall|i: int, j: int| 0 <= i < h && 0 <= j < w implies #[trigger] right(i, j)
                == r02(i, j).sum(r12(i, j)) by {
                vstd::arithmetic::div_mod::lemma_mod_bound(i - 1, h);
                vstd::arithmetic::div_mod::lemma_mod_bound(j - 1, w);
                let here = q[i][j];
                let before = q[i][previous(j, w)];
                let above = q[previous(i, h)][j];
                assert(sd[i][j].0 == here.0.difference(before.0).negation().sum(
                    hv.negation().product(here.2.difference(above.2)),
                ));
                assert(sd[i][j].1 == here.1.difference(above.1).negation().sum(
                    hv.negation().product(here.2.difference(before.2)),
                ));
                lemma_negated_scale(hv, here.2, above.2);
                lemma_negated_scale(hv, here.2, before.2);
                lemma_product_distributes(
                    v[i][j].0,
                    here.0.difference(before.0).negation(),
                    hv.negation().product(here.2.difference(above.2)),
                );
                lemma_product_distributes(
                    v[i][j].1,
                    here.1.difference(above.1).negation(),
                    hv.negation().product(here.2.difference(before.2)),
                );
            }
            lemma_grid_total_of_sums(l01, l2, left, h, w);
            lemma_grid_total_of_sums(l0, l1, l01, h, w);
            lemma_grid_total_of_sums(l2a, l2b, l2, h, w);
            lemma_grid_total_of_sums(r02, r12, right, h, w);
            lemma_grid_total_of_sums(r0, r2a, r02, h, w);
            lemma_grid_total_of_sums(r1, r2b, r12, h, w);
            lemma_columns_by_parts(v0, q0, l0, r0, h, w);
            lemma_rows_by_parts(v1, q1, l1, r1, h, w);
            lemma_rows_by_parts(v0, hq, l2a, r2a, h, w);
            lemma_columns_by_parts(v1, hq, l2b, r2b, h, w);
            lemma_sum_interchange(
                grid_total(r0, h, w),
                grid_total(r1, h, w),
                grid_total(r2a, h, w),
                grid_total(r2b, h, w),
            );
        } else {
            lemma_grid_total_ext(left, right, h, w);
        }
    }
}

} // verus!
