//! Finite-difference operators with periodic boundaries.
//!
//! Forward differences read the next cell along an axis, backward differences
//! the previous one; in both cases the neighbour of an edge cell is the cell at
//! the opposite edge.
use vstd::prelude::*;
use crate::grid::cellwise;
use crate::grid::rectangular;
use crate::grid::Grid;
use crate::scalar::half;
use crate::scalar::half_value;
use crate::scalar::Scalar;
use crate::shift::circular_shift;
use crate::shift::lemma_source_index_bounds;
use crate::shift::shifted;

verus! {

/// The forward differences of `u` at `(i, j)`: along the columns first, then
/// along the rows. Each is the next cell, wrapped, minus the cell itself.
pub open spec fn gradient_at<S: Scalar>(u: Seq<Seq<S>>, i: int, j: int) -> (S, S) {
    (
        shifted(u, 1, -1)[i][j].difference(u[i][j]),
        shifted(u, 0, -1)[i][j].difference(u[i][j]),
    )
}

/// The two-channel field of forward differences of `u`.
pub open spec fn gradient_of<S: Scalar>(u: Seq<Seq<S>>) -> Seq<Seq<(S, S)>> {
    cellwise(u, |i: int, j: int| gradient_at(u, i, j))
}

/// The value at `(i, j)` of the operator paired with the gradient: the
/// backward difference of channel 0 along the columns plus that of channel 1
/// along the rows, negated.
pub open spec fn divergence_at<S: Scalar>(p: Seq<Seq<(S, S)>>, i: int, j: int) -> S {
    let along_x = p[i][j].0.difference(shifted(p, 1, 1)[i][j].0);
    let along_y = p[i][j].1.difference(shifted(p, 0, 1)[i][j].1);
    along_x.sum(along_y).negation()
}

/// The scalar image that [`divergence_at`] gives at every cell.
pub open spec fn divergence_of<S: Scalar>(p: Seq<Seq<(S, S)>>) -> Seq<Seq<S>> {
    cellwise(p, |i: int, j: int| divergence_at(p, i, j))
}

/// The symmetrised Jacobian of the vector field `w` at `(i, j)`.
///
/// Channel 0 is the forward column difference of `w`'s channel 0, channel 1 the
/// forward row difference of its channel 1, and channel 2 one half of the sum
/// of the two cross differences.
pub open spec fn sym_gradient_at<S: Scalar>(w: Seq<Seq<(S, S)>>, i: int, j: int) -> (S, S, S) {
    let right = shifted(w, 1, -1)[i][j];
    let below = shifted(w, 0, -1)[i][j];
    let here = w[i][j];
    let cross = below.0.difference(here.0).sum(right.1.difference(here.1));
    (right.0.difference(here.0), below.1.difference(here.1), half_value::<S>().product(cross))
}

/// The three-channel field of symmetrised Jacobians of `w`.
pub open spec fn sym_gradient_of<S: Scalar>(w: Seq<Seq<(S, S)>>) -> Seq<Seq<(S, S, S)>> {
    cellwise(w, |i: int, j: int| sym_gradient_at(w, i, j))
}

/// The value at `(i, j)` of the operator paired with the symmetrised gradient.
///
/// Channel 0 is the negated backward column difference of `q`'s channel 0 plus
/// minus one half of the backward row difference of its channel 2; channel 1
/// is the negated backward row difference of channel 1 plus minus one half of
/// the backward column difference of channel 2.
pub open spec fn sym_divergence_at<S: Scalar>(q: Seq<Seq<(S, S, S)>>, i: int, j: int) -> (S, S) {
    let left = shifted(q, 1, 1)[i][j];
    let above = shifted(q, 0, 1)[i][j];
    let here = q[i][j];
    let minus_half = half_value::<S>().negation();
    (
        here.0.difference(left.0).negation().sum(minus_half.product(here.2.difference(above.2))),
        here.1.difference(above.1).negation().sum(minus_half.product(here.2.difference(left.2))),
    )
}

/// The two-channel field that [`sym_divergence_at`] gives at every cell.
pub open spec fn sym_divergence_of<S: Scalar>(q: Seq<Seq<(S, S, S)>>) -> Seq<Seq<(S, S)>> {
    cellwise(q, |i: int, j: int| sym_divergence_at(q, i, j))
}

/// Forward differences of the image `u` along both axes, stacked as two
/// channels: the column direction first, the row direction second.
pub fn gradient<S: Scalar>(u: &Grid<S>) -> (g: Grid<(S, S)>)
    requires
        u.wf(),
    ensures
        g.wf(),
        g.same_shape(u),
        g@ == gradient_of(u@),
{
    let h = u.height();
    let w = u.width();
    let right = circular_shift(u, 1, -1);
    let below = circular_shift(u, 0, -1);
    let g = Grid::tabulate(h, w, |i: usize, j: usize| -> (c: (S, S))
        requires i < h, j < w,
        ensures c == gradient_at(u@, i as int, j as int),
        {
            let here = u.get(i, j);
            (right.get(i, j).sub(here), below.get(i, j).sub(here))
        });
    assert(g@ =~~= gradient_of(u@));
    g
}

/// The backward-difference operator paired with [`gradient`], applied to the
/// two-channel field `p`.
pub fn divergence<S: Scalar>(p: &Grid<(S, S)>) -> (d: Grid<S>)
    requires
        p.wf(),
    ensures
        d.wf(),
        d.same_shape(p),
        d@ == divergence_of(p@),
{
    let h = p.height();
    let w = p.width();
    let left = circular_shift(p, 1, 1);
    let above = circular_shift(p, 0, 1);
    let d = Grid::tabulate(h, w, |i: usize, j: usize| -> (c: S)
        requires i < h, j < w,
        ensures c == divergence_at(p@, i as int, j as int),
        {
            let here = p.get(i, j);
            let along_x = here.0.sub(left.get(i, j).0);
            let along_y = here.1.sub(above.get(i, j).1);
            along_x.add(along_y).neg()
        });
    assert(d@ =~~= divergence_of(p@));
    d
}

/// The symmetrised Jacobian of the two-channel vector field `w`: two diagonal
/// channels and the averaged off-diagonal channel.
pub fn sym_gradient<S: Scalar>(w: &Grid<(S, S)>) -> (e: Grid<(S, S, S)>)
    requires
        w.wf(),
    ensures
        e.wf(),
        e.same_shape(w),
        e@ == sym_gradient_of(w@),
{
    let rows = w.height();
    let cols = w.width();
    let right = circular_shift(w, 1, -1);
    let below = circular_shift(w, 0, -1);
    let one_half = half::<S>();
    let e = Grid::tabulate(rows, cols, |i: usize, j: usize| -> (c: (S, S, S))
        requires i < rows, j < cols,
        ensures c == sym_gradient_at(w@, i as int, j as int),
        {
            let here = w.get(i, j);
            let r = right.get(i, j);
            let b = below.get(i, j);
            let cross = b.0.sub(here.0).add(r.1.sub(here.1));
            (r.0.sub(here.0), b.1.sub(here.1), one_half.mul(cross))
        });
    assert(e@ =~~= sym_gradient_of(w@));
    e
}

/// The backward-difference operator paired with [`sym_gradient`], applied to
/// the three-channel tensor field `q`.
pub fn sym_divergence<S: Scalar>(q: &Grid<(S, S, S)>) -> (v: Grid<(S, S)>)
    requires
        q.wf(),
    ensures
        v.wf(),
        v.same_shape(q),
        v@ == sym_divergence_of(q@),
{
    let h = q.height();
    let w = q.width();
    let left = circular_shift(q, 1, 1);
    let above = circular_shift(q, 0, 1);
    let minus_half = half::<S>().neg();
    let v = Grid::tabulate(h, w, |i: usize, j: usize| -> (c: (S, S))
        requires i < h, j < w,
        ensures c == sym_divergence_at(q@, i as int, j as int),
        {
            let here = q.get(i, j);
            let l = left.get(i, j);
            let a = above.get(i, j);
            (
                here.0.sub(l.0).neg().add(minus_half.mul(here.2.sub(a.2))),
                here.1.sub(a.1).neg().add(minus_half.mul(here.2.sub(l.2))),
            )
        });
    assert(v@ =~~= sym_divergence_of(q@));
    v
}

/// Whether every cell of `cells` equals `value`.
pub open spec fn constant<T>(cells: Seq<Seq<T>>, value: T) -> bool {
    forall|i: int, j: int|
        0 <= i < cells.len() && 0 <= j < cells[i].len() ==> #[trigger] cells[i][j] == value
}

/// The gradient of a constant image is zero at every cell, for every constant
/// whose difference with itself is zero.
pub proof fn lemma_gradient_of_constant<S: Scalar>(u: Seq<Seq<S>>, width: nat, c: S)
    requires
        rectangular(u, width),
        constant(u, c),
        c.difference(c) == S::zero_value(),
    ensures
        constant(gradient_of(u), (S::zero_value(), S::zero_value())),
{
    let g = gradient_of(u);
    assert forall|i: int, j: int| 0 <= i < g.len() && 0 <= j < g[i].len() implies #[trigger] g[i][j]
        == (S::zero_value(), S::zero_value()) by {
        lemma_source_index_bounds(i, u.len() as int, -1);
        lemma_source_index_bounds(j, u[i].len() as int, -1);
        let above = crate::shift::source_index(i, u.len() as int, -1);
        let left = crate::shift::source_index(j, u[i].len() as int, -1);
        assert(u[above][j] == c);
        assert(u[i][left] == c);
        assert(u[i][j] == c);
    }
}

} // verus!
