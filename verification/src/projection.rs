//! Pointwise projections of the dual variables onto Euclidean balls.
use vstd::prelude::*;
use crate::exact::exact_arithmetic;
use crate::exact::exact_division;
use crate::exact::exact_order;
use crate::exact::exact_square_root;
use crate::exact::lemma_order;
use crate::exact::lemma_product_commutes;
use crate::exact::lemma_product_distributes;
use crate::exact::lemma_quotient_basics;
use crate::exact::lemma_quotient_undoes_product;
use crate::exact::lemma_square_of_product;
use crate::exact::lemma_square_root;
use crate::exact::lemma_sum_of_squares;
use crate::exact::lemma_sum_with_square;
use crate::grid::cellwise;
use crate::grid::Grid;
use crate::scalar::Scalar;

verus! {

/// The Euclidean norm of a two-channel cell.
pub open spec fn norm_2<S: Scalar>(v: (S, S)) -> S {
    v.0.product(v.0).sum(v.1.product(v.1)).square_root()
}

/// The Euclidean norm of a three-channel cell.
pub open spec fn norm_3<S: Scalar>(v: (S, S, S)) -> S {
    v.0.product(v.0).sum(v.1.product(v.1)).sum(v.2.product(v.2)).square_root()
}

/// Whether a cell of the given norm lies outside the ball of the given radius:
/// the norm divided by the radius is greater than one.
pub open spec fn outside_ball<S: Scalar>(norm: S, radius: S) -> bool {
    norm.quotient(radius).exceeds(S::one_value())
}

/// A two-channel cell projected onto the ball of radius `radius`: a cell
/// outside the ball has both channels scaled by `radius / norm`, a cell inside
/// it stays as it is.
pub open spec fn projected_2<S: Scalar>(v: (S, S), radius: S) -> (S, S) {
    let norm = norm_2(v);
    if outside_ball(norm, radius) {
        let scale = radius.quotient(norm);
        (v.0.product(scale), v.1.product(scale))
    } else {
        v
    }
}

/// A three-channel cell projected onto the ball of radius `radius`.
pub open spec fn projected_3<S: Scalar>(v: (S, S, S), radius: S) -> (S, S, S) {
    let norm = norm_3(v);
    if outside_ball(norm, radius) {
        let scale = radius.quotient(norm);
        (v.0.product(scale), v.1.product(scale), v.2.product(scale))
    } else {
        v
    }
}

/// The field `f` with every cell projected by [`projected_2`].
pub open spec fn ball_2_of<S: Scalar>(f: Seq<Seq<(S, S)>>, radius: S) -> Seq<Seq<(S, S)>> {
    cellwise(f, |i: int, j: int| projected_2(f[i][j], radius))
}

/// The field `f` with every cell projected by [`projected_3`].
pub open spec fn ball_3_of<S: Scalar>(f: Seq<Seq<(S, S, S)>>, radius: S) -> Seq<Seq<(S, S, S)>> {
    cellwise(f, |i: int, j: int| projected_3(f[i][j], radius))
}

/// Whether no cell of the two-channel field `f` lies outside the ball.
pub open spec fn within_ball_2<S: Scalar>(f: Seq<Seq<(S, S)>>, radius: S) -> bool {
    forall|i: int, j: int|
        0 <= i < f.len() && 0 <= j < f[i].len() ==> !outside_ball(
            norm_2(#[trigger] f[i][j]),
            radius,
        )
}

/// Whether no cell of the three-channel field `f` lies outside the ball.
pub open spec fn within_ball_3<S: Scalar>(f: Seq<Seq<(S, S, S)>>, radius: S) -> bool {
    forall|i: int, j: int|
        0 <= i < f.len() && 0 <= j < f[i].len() ==> !outside_ball(
            norm_3(#[trigger] f[i][j]),
            radius,
        )
}

/// Projects one two-channel cell onto the ball of radius `radius`.
pub fn project_cell_2<S: Scalar>(v: (S, S), radius: S) -> (r: (S, S))
    ensures
        r == projected_2(v, radius),
{
    let norm = v.0.mul(v.0).add(v.1.mul(v.1)).sqrt();
    if norm.div(radius).gt(S::one()) {
        let scale = radius.div(norm);
        (v.0.mul(scale), v.1.mul(scale))
    } else {
        v
    }
}

/// Projects one three-channel cell onto the ball of radius `radius`.
pub fn project_cell_3<S: Scalar>(v: (S, S, S), radius: S) -> (r: (S, S, S))
    ensures
        r == projected_3(v, radius),
{
    let norm = v.0.mul(v.0).add(v.1.mul(v.1)).add(v.2.mul(v.2)).sqrt();
    if norm.div(radius).gt(S::one()) {
        let scale = radius.div(norm);
        (v.0.mul(scale), v.1.mul(scale), v.2.mul(scale))
    } else {
        v
    }
}

/// Projects every cell of the two-channel field onto the ball of radius
/// `radius`. Cells are treated independently of one another.
pub fn project_ball_2<S: Scalar>(field: &Grid<(S, S)>, radius: S) -> (r: Grid<(S, S)>)
    requires
        field.wf(),
    ensures
        r.wf(),
        r.same_shape(field),
        r@ == ball_2_of(field@, radius),
{
    let h = field.height();
    let w = field.width();
    let r = Grid::tabulate(h, w, |i: usize, j: usize| -> (c: (S, S))
        requires i < h, j < w,
        ensures c == projected_2(field@[i as int][j as int], radius),
        { project_cell_2(field.get(i, j), radius) });
    assert(r@ =~~= ball_2_of(field@, radius));
    r
}

/// Projects every cell of the three-channel field onto the ball of radius
/// `radius`. Cells are treated independently of one another.
pub fn project_ball_3<S: Scalar>(field: &Grid<(S, S, S)>, radius: S) -> (r: Grid<(S, S, S)>)
    requires
        field.wf(),
    ensures
        r.wf(),
        r.same_shape(field),
        r@ == ball_3_of(field@, radius),
{
    let h = field.height();
    let w = field.width();
    let r = Grid::tabulate(h, w, |i: usize, j: usize| -> (c: (S, S, S))
        requires i < h, j < w,
        ensures c == projected_3(field@[i as int][j as int], radius),
        { project_cell_3(field.get(i, j), radius) });
    assert(r@ =~~= ball_3_of(field@, radius));
    r
}

/// A two-channel field that lies within the ball is left unchanged by the
/// projection.
pub proof fn lemma_ball_2_keeps_interior<S: Scalar>(f: Seq<Seq<(S, S)>>, radius: S)
    requires
        within_ball_2(f, radius),
    ensures
        ball_2_of(f, radius) == f,
{
    assert(ball_2_of(f, radius) =~~= f);
}

/// A three-channel field that lies within the ball is left unchanged by the
/// projection.
pub proof fn lemma_ball_3_keeps_interior<S: Scalar>(f: Seq<Seq<(S, S, S)>>, radius: S)
    requires
        within_ball_3(f, radius),
    ensures
        ball_3_of(f, radius) == f,
{
    assert(ball_3_of(f, radius) =~~= f);
}

/// Projecting twice is the same as projecting once, for every field whose
/// projection lies within the ball as the scalar's own arithmetic measures it.
pub proof fn lemma_ball_2_idempotent<S: Scalar>(f: Seq<Seq<(S, S)>>, radius: S)
    requires
        within_ball_2(ball_2_of(f, radius), radius),
    ensures
        ball_2_of(ball_2_of(f, radius), radius) == ball_2_of(f, radius),
{
    lemma_ball_2_keeps_interior(ball_2_of(f, radius), radius);
}

/// Projecting twice is the same as projecting once, for every field whose
/// projection lies within the ball as the scalar's own arithmetic measures it.
pub proof fn lemma_ball_3_idempotent<S: Scalar>(f: Seq<Seq<(S, S, S)>>, radius: S)
    requires
        within_ball_3(ball_3_of(f, radius), radius),
    ensures
        ball_3_of(ball_3_of(f, radius), radius) == ball_3_of(f, radius),
{
    lemma_ball_3_keeps_interior(ball_3_of(f, radius), radius);
}

/// For a norm `n` outside the ball of a positive radius `r`: scaling by
/// `r / n` turns the norm into `r`, which is the square root of its own
/// square and not outside the ball.
proof fn lemma_scale_of_outside<S: Scalar>(n: S, r: S)
    requires
        exact_arithmetic::<S>(),
        exact_division::<S>(),
        exact_order::<S>(),
        exact_square_root::<S>(),
        r.exceeds(S::zero_value()),
        outside_ball(n, r),
    ensures
        n.product(r.quotient(n)) == r,
        r.product(r).square_root() == r,
        !outside_ball(r, r),
{
    lemma_order(r, S::zero_value());
    lemma_order(S::zero_value(), S::one_value());
    lemma_order(S::one_value(), S::one_value());
    lemma_quotient_basics(r);
    lemma_quotient_undoes_product(r, n);
    lemma_product_commutes(n, r.quotient(n));
    lemma_square_root(r);
}

/// Under exact arithmetic, a projected two-channel cell lies within the ball.
proof fn lemma_projected_2_within<S: Scalar>(v: (S, S), r: S)
    requires
        exact_arithmetic::<S>(),
        exact_division::<S>(),
        exact_order::<S>(),
        exact_square_root::<S>(),
        r.exceeds(S::zero_value()),
    ensures
        !outside_ball(norm_2(projected_2(v, r)), r),
{
    let n = norm_2(v);
    if outside_ball(n, r) {
        let k = r.quotient(n);
        let m = v.0.product(v.0).sum(v.1.product(v.1));
        lemma_scale_of_outside(n, r);
        lemma_sum_of_squares(v.0, v.1);
        lemma_square_root(m);
        lemma_square_of_product(v.0, k);
        lemma_square_of_product(v.1, k);
        lemma_product_distributes(k.product(k), v.0.product(v.0), v.1.product(v.1));
        lemma_square_of_product(n, k);
    }
}

/// Under exact arithmetic, a projected three-channel cell lies within the
/// ball.
proof fn lemma_projected_3_within<S: Scalar>(v: (S, S, S), r: S)
    requires
        exact_arithmetic::<S>(),
        exact_division::<S>(),
        exact_order::<S>(),
        exact_square_root::<S>(),
        r.exceeds(S::zero_value()),
    ensures
        !outside_ball(norm_3(projected_3(v, r)), r),
{
    let n = norm_3(v);
    if outside_ball(n, r) {
        let k = r.quotient(n);
        let m2 = v.0.product(v.0).sum(v.1.product(v.1));
        let m = m2.sum(v.2.product(v.2));
        lemma_scale_of_outside(n, r);
        lemma_sum_of_squares(v.0, v.1);
        lemma_sum_with_square(m2, v.2);
        lemma_square_root(m);
        lemma_square_of_product(v.0, k);
        lemma_square_of_product(v.1, k);
        lemma_square_of_product(v.2, k);
        lemma_product_distributes(k.product(k), v.0.product(v.0), v.1.product(v.1));
        lemma_product_distributes(k.product(k), m2, v.2.product(v.2));
        lemma_square_of_product(n, k);
    }
}

/// Under exact arithmetic and for a positive radius, every cell of a
/// projected two-channel field lies within the ball.
pub proof fn lemma_ball_2_bounded<S: Scalar>(f: Seq<Seq<(S, S)>>, radius: S)
    requires
        exact_arithmetic::<S>(),
        exact_division::<S>(),
        exact_order::<S>(),
        exact_square_root::<S>(),
        radius.exceeds(S::zero_value()),
    ensures
        within_ball_2(ball_2_of(f, radius), radius),
{
    let g = ball_2_of(f, radius);
    assert forall|i: int, j: int| 0 <= i < g.len() && 0 <= j < g[i].len() implies !outside_ball(
        norm_2(#[trigger] g[i][j]),
        radius,
    ) by {
        lemma_projected_2_within(f[i][j], radius);
    }
}

/// Under exact arithmetic and for a positive radius, every cell of a
/// projected three-channel field lies within the ball.
pub proof fn lemma_ball_3_bounded<S: Scalar>(f: Seq<Seq<(S, S, S)>>, radius: S)
    requires
        exact_arithmetic::<S>(),
        exact_division::<S>(),
        exact_order::<S>(),
        exact_square_root::<S>(),
        radius.exceeds(S::zero_value()),
    ensures
        within_ball_3(ball_3_of(f, radius), radius),
{
    let g = ball_3_of(f, radius);
    assert forall|i: int, j: int| 0 <= i < g.len() && 0 <= j < g[i].len() implies !outside_ball(
        norm_3(#[trigger] g[i][j]),
        radius,
    ) by {
        lemma_projected_3_within(f[i][j], radius);
    }
}

/// Under exact arithmetic and for a positive radius, projecting a
/// two-channel field twice is the same as projecting it once.
pub proof fn lemma_ball_2_idempotent_when_exact<S: Scalar>(f: Seq<Seq<(S, S)>>, radius: S)
    requires
        exact_arithmetic::<S>(),
        exact_division::<S>(),
        exact_order::<S>(),
        exact_square_root::<S>(),
        radius.exceeds(S::zero_value()),
    ensures
        ball_2_of(ball_2_of(f, radius), radius) == ball_2_of(f, radius),
{
    lemma_ball_2_bounded(f, radius);
    lemma_ball_2_idempotent(f, radius);
}

/// Under exact arithmetic and for a positive radius, projecting a
/// three-channel field twice is the same as projecting it once.
pub proof fn lemma_ball_3_idempotent_when_exact<S: Scalar>(f: Seq<Seq<(S, S, S)>>, radius: S)
    requires
        exact_arithmetic::<S>(),
        exact_division::<S>(),
        exact_order::<S>(),
        exact_square_root::<S>(),
        radius.exceeds(S::zero_value()),
    ensures
        ball_3_of(ball_3_of(f, radius), radius) == ball_3_of(f, radius),
{
    lemma_ball_3_bounded(f, radius);
    lemma_ball_3_idempotent(f, radius);
}

} // verus!
