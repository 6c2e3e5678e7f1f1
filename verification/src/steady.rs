//! Constant images under arithmetic without rounding.
//!
//! A constant image has no gradient, so the dual variables never leave zero
//! and the data term holds the image where it is: the solver returns it
//! unchanged, whatever the number of iterations.
use vstd::prelude::*;
use crate::exact::exact_arithmetic;
use crate::exact::exact_division;
use crate::exact::lemma_difference_basics;
use crate::exact::lemma_negation_of_zero;
use crate::exact::lemma_one_plus;
use crate::exact::lemma_product_zero;
use crate::exact::lemma_quotient_undoes_product;
use crate::exact::lemma_sum_zero;
use crate::exact::lemma_twice_less_once;
use crate::exact::lemma_zero_product;
use crate::grid::cellwise;
use crate::grid::rectangular;
use crate::operators::constant;
use crate::operators::divergence_at;
use crate::operators::divergence_of;
use crate::operators::gradient_of;
use crate::operators::lemma_gradient_of_constant;
use crate::operators::sym_divergence_at;
use crate::operators::sym_divergence_of;
use crate::operators::sym_gradient_at;
use crate::operators::sym_gradient_of;
use crate::projection::projected_2;
use crate::projection::projected_3;
use crate::scalar::Scalar;
use crate::shift::lemma_source_index_bounds;
use crate::shift::source_index;
use crate::solver::ascent_p;
use crate::solver::ascent_q;
use crate::solver::denoised;
use crate::solver::descent_u;
use crate::solver::descent_w;
use crate::solver::initial_of;
use crate::solver::iterate;
use crate::solver::next_p;
use crate::solver::next_q;
use crate::solver::next_u;
use crate::solver::next_w;
use crate::solver::relaxed;
use crate::solver::step_of;
use crate::solver::zeros_1;
use crate::solver::zeros_2;
use crate::solver::zeros_3;
use crate::solver::Params;

verus! {

/// The two-channel cell of zeros.
pub open spec fn zero_2<S: Scalar>() -> (S, S) {
    (S::zero_value(), S::zero_value())
}

/// The three-channel cell of zeros.
pub open spec fn zero_3<S: Scalar>() -> (S, S, S) {
    (S::zero_value(), S::zero_value(), S::zero_value())
}

/// The arithmetic facts about zero that the dual updates rest on.
proof fn lemma_zero_cells<S: Scalar>(sigma: S, tau: S, radius: S)
    requires
        exact_arithmetic::<S>(),
    ensures
        ascent_p(zero_2::<S>(), zero_2::<S>(), zero_2::<S>(), sigma) == zero_2::<S>(),
        ascent_q(zero_3::<S>(), zero_3::<S>(), sigma) == zero_3::<S>(),
        projected_2(zero_2::<S>(), radius) == zero_2::<S>(),
        projected_3(zero_3::<S>(), radius) == zero_3::<S>(),
        descent_w(zero_2::<S>(), zero_2::<S>(), zero_2::<S>(), tau) == zero_2::<S>(),
        relaxed(S::zero_value(), S::zero_value()) == S::zero_value(),
{
    let z = S::zero_value();
    lemma_difference_basics(z);
    lemma_product_zero(sigma);
    lemma_product_zero(tau);
    lemma_sum_zero(z);
    lemma_twice_less_once(z);
    let n2 = crate::projection::norm_2(zero_2::<S>());
    let n3 = crate::projection::norm_3(zero_3::<S>());
    lemma_zero_product(radius.quotient(n2));
    lemma_zero_product(radius.quotient(n3));
}

/// The primal update leaves a cell that equals its anchor where it is when
/// the divergence there is zero.
proof fn lemma_anchored_cell<S: Scalar>(c: S, tau: S)
    requires
        exact_arithmetic::<S>(),
        exact_division::<S>(),
        S::one_value().sum(tau) != S::zero_value(),
    ensures
        descent_u(c, S::zero_value(), c, tau) == c,
        relaxed(c, c) == c,
{
    lemma_product_zero(tau);
    lemma_difference_basics(c);
    lemma_one_plus(c, tau);
    lemma_quotient_undoes_product(c, S::one_value().sum(tau));
    lemma_twice_less_once(c);
}

/// The divergence of a field of zeros is zero.
proof fn lemma_divergence_of_zeros<S: Scalar>(like: Seq<Seq<S>>, width: nat)
    requires
        exact_arithmetic::<S>(),
        rectangular(like, width),
    ensures
        divergence_of(zeros_2(like)) == zeros_1(like),
{
    let z = S::zero_value();
    let f2 = zeros_2(like);
    let h = like.len() as int;
    let w = width as int;
    lemma_difference_basics(z);
    lemma_sum_zero(z);
    lemma_negation_of_zero::<S>();
    assert forall|i: int, j: int| 0 <= i < h && 0 <= j < w implies divergence_at(f2, i, j)
        == z by {
        lemma_source_index_bounds(i, h, 1);
        lemma_source_index_bounds(j, w, 1);
        let up = source_index(i, h, 1);
        let left = source_index(j, w, 1);
        assert(f2[i][j] == zero_2::<S>());
        assert(f2[up][j] == zero_2::<S>());
        assert(f2[i][left] == zero_2::<S>());
    }
    assert(divergence_of(f2) =~~= zeros_1(like));
}

/// The symmetrised gradient of a field of zeros is zero.
proof fn lemma_sym_gradient_of_zeros<S: Scalar>(like: Seq<Seq<S>>, width: nat)
    requires
        exact_arithmetic::<S>(),
        rectangular(like, width),
    ensures
        sym_gradient_of(zeros_2(like)) == zeros_3(like),
{
    let z = S::zero_value();
    let f2 = zeros_2(like);
    let h = like.len() as int;
    let w = width as int;
    lemma_difference_basics(z);
    lemma_sum_zero(z);
    lemma_product_zero(crate::scalar::half_value::<S>());
    assert forall|i: int, j: int| 0 <= i < h && 0 <= j < w implies sym_gradient_at(f2, i, j)
        == zero_3::<S>() by {
        lemma_source_index_bounds(i, h, -1);
        lemma_source_index_bounds(j, w, -1);
        let down = source_index(i, h, -1);
        let right = source_index(j, w, -1);
        assert(f2[i][j] == zero_2::<S>());
        assert(f2[down][j] == zero_2::<S>());
        assert(f2[i][right] == zero_2::<S>());
    }
    assert(sym_gradient_of(f2) =~~= zeros_3(like));
}

/// The symmetrised divergence of a field of zeros is zero.
proof fn lemma_sym_divergence_of_zeros<S: Scalar>(like: Seq<Seq<S>>, width: nat)
    requires
        exact_arithmetic::<S>(),
        rectangular(like, width),
    ensures
        sym_divergence_of(zeros_3(like)) == zeros_2(like),
{
    let z = S::zero_value();
    let f3 = zeros_3(like);
    let h = like.len() as int;
    let w = width as int;
    lemma_difference_basics(z);
    lemma_sum_zero(z);
    lemma_negation_of_zero::<S>();
    lemma_product_zero(crate::scalar::half_value::<S>().negation());
    assert forall|i: int, j: int| 0 <= i < h && 0 <= j < w implies sym_divergence_at(f3, i, j)
        == zero_2::<S>() by {
        lemma_source_index_bounds(i, h, 1);
        lemma_source_index_bounds(j, w, 1);
        let up = source_index(i, h, 1);
        let left = source_index(j, w, 1);
        assert(f3[i][j] == zero_3::<S>());
        assert(f3[up][j] == zero_3::<S>());
        assert(f3[i][left] == zero_3::<S>());
    }
    assert(sym_divergence_of(f3) =~~= zeros_2(like));
}

/// From the starting state of a constant image the dual variable `p` stays
/// zero.
proof fn lemma_next_p_of_constant<S: Scalar>(u0: Seq<Seq<S>>, width: nat, c: S, params: Params<S>)
    requires
        exact_arithmetic::<S>(),
        rectangular(u0, width),
        constant(u0, c),
    ensures
        next_p(params, initial_of(u0)) == zeros_2(u0),
{
    let s = initial_of(u0);
    let grad = gradient_of(u0);
    lemma_difference_basics(c);
    lemma_gradient_of_constant(u0, width, c);
    lemma_zero_cells(params.sigma, params.tau, crate::solver::radius_p(params));
    let moved = cellwise(
        s.p,
        |i: int, j: int| ascent_p(s.p[i][j], grad[i][j], s.w_bar[i][j], params.sigma),
    );
    assert forall|i: int, j: int| 0 <= i < u0.len() && 0 <= j < u0[i].len() implies #[trigger] moved[i][j]
        == zero_2::<S>() by {
        assert(s.p[i][j] == zero_2::<S>());
        assert(s.w_bar[i][j] == zero_2::<S>());
        assert(grad[i][j] == zero_2::<S>());
    }
    assert(moved =~~= zeros_2(u0));
    assert(next_p(params, s) =~~= zeros_2(u0));
}

/// From the starting state of a constant image the dual variable `q` stays
/// zero.
proof fn lemma_next_q_of_constant<S: Scalar>(u0: Seq<Seq<S>>, width: nat, params: Params<S>)
    requires
        exact_arithmetic::<S>(),
        rectangular(u0, width),
    ensures
        next_q(params, initial_of(u0)) == zeros_3(u0),
{
    let s = initial_of(u0);
    lemma_sym_gradient_of_zeros(u0, width);
    lemma_zero_cells(params.sigma, params.tau, crate::solver::radius_q(params));
    let e = sym_gradient_of(s.w_bar);
    let moved = cellwise(s.q, |i: int, j: int| ascent_q(s.q[i][j], e[i][j], params.sigma));
    assert forall|i: int, j: int| 0 <= i < u0.len() && 0 <= j < u0[i].len() implies #[trigger] moved[i][j]
        == zero_3::<S>() by {
        assert(s.q[i][j] == zero_3::<S>());
        assert(e[i][j] == zero_3::<S>());
    }
    assert(moved =~~= zeros_3(u0));
    assert(next_q(params, s) =~~= zeros_3(u0));
}

/// From the starting state of a constant image the image stays where it is.
proof fn lemma_next_u_of_constant<S: Scalar>(u0: Seq<Seq<S>>, width: nat, c: S, params: Params<S>)
    requires
        exact_arithmetic::<S>(),
        exact_division::<S>(),
        S::one_value().sum(params.tau) != S::zero_value(),
        rectangular(u0, width),
        constant(u0, c),
    ensures
        next_u(params, u0, initial_of(u0)) == u0,
{
    let s = initial_of(u0);
    lemma_next_p_of_constant(u0, width, c, params);
    lemma_divergence_of_zeros(u0, width);
    lemma_anchored_cell(c, params.tau);
    let div = divergence_of(next_p(params, s));
    let u = next_u(params, u0, s);
    assert forall|i: int, j: int| 0 <= i < u0.len() && 0 <= j < u0[i].len() implies #[trigger] u[i][j]
        == u0[i][j] by {
        assert(s.u[i][j] == c);
        assert(div[i][j] == S::zero_value());
        assert(u0[i][j] == c);
    }
    assert(u =~~= u0);
}

/// From the starting state of a constant image the vector field stays zero.
proof fn lemma_next_w_of_constant<S: Scalar>(u0: Seq<Seq<S>>, width: nat, c: S, params: Params<S>)
    requires
        exact_arithmetic::<S>(),
        rectangular(u0, width),
        constant(u0, c),
    ensures
        next_w(params, initial_of(u0)) == zeros_2(u0),
{
    let s = initial_of(u0);
    lemma_next_p_of_constant(u0, width, c, params);
    lemma_next_q_of_constant(u0, width, params);
    lemma_sym_divergence_of_zeros(u0, width);
    lemma_zero_cells(params.sigma, params.tau, crate::solver::radius_p(params));
    let p = next_p(params, s);
    let sdiv = sym_divergence_of(next_q(params, s));
    let w = next_w(params, s);
    assert forall|i: int, j: int| 0 <= i < u0.len() && 0 <= j < u0[i].len() implies #[trigger] w[i][j]
        == zero_2::<S>() by {
        assert(s.w[i][j] == zero_2::<S>());
        assert(sdiv[i][j] == zero_2::<S>());
        assert(p[i][j] == zero_2::<S>());
    }
    assert(w =~~= zeros_2(u0));
}

/// Under exact arithmetic, one iteration from the starting state of a
/// constant image ends on that starting state.
proof fn lemma_step_keeps_constant<S: Scalar>(
    u0: Seq<Seq<S>>,
    width: nat,
    c: S,
    params: Params<S>,
)
    requires
        exact_arithmetic::<S>(),
        exact_division::<S>(),
        S::one_value().sum(params.tau) != S::zero_value(),
        rectangular(u0, width),
        constant(u0, c),
    ensures
        step_of(params, u0, initial_of(u0)) == initial_of(u0),
{
    let s = initial_of(u0);
    lemma_next_p_of_constant(u0, width, c, params);
    lemma_next_q_of_constant(u0, width, params);
    lemma_next_u_of_constant(u0, width, c, params);
    lemma_next_w_of_constant(u0, width, c, params);
    lemma_zero_cells(params.sigma, params.tau, crate::solver::radius_p(params));
    lemma_anchored_cell(c, params.tau);
    let after = step_of(params, u0, s);
    assert forall|i: int, j: int| 0 <= i < u0.len() && 0 <= j < u0[i].len() implies #[trigger] after.u_bar[i][j]
        == u0[i][j] by {
        assert(s.u[i][j] == c);
        assert(u0[i][j] == c);
    }
    assert(after.u_bar =~~= u0);
    assert forall|i: int, j: int| 0 <= i < u0.len() && 0 <= j < u0[i].len() implies #[trigger] after.w_bar[i][j]
        == zero_2::<S>() by {
        assert(s.w[i][j] == zero_2::<S>());
        assert(zeros_2(u0)[i][j] == zero_2::<S>());
    }
    assert(after.w_bar =~~= zeros_2(u0));
}

/// Under exact arithmetic a constant image is a fixed point of the solver:
/// whatever the number of iterations, the image comes back unchanged. The
/// step size `tau` must not make `1 + tau` zero.
pub proof fn lemma_constant_image_is_kept<S: Scalar>(
    u0: Seq<Seq<S>>,
    width: nat,
    c: S,
    params: Params<S>,
    n: int,
)
    requires
        exact_arithmetic::<S>(),
        exact_division::<S>(),
        S::one_value().sum(params.tau) != S::zero_value(),
        rectangular(u0, width),
        constant(u0, c),
    ensures
        iterate(params, u0, initial_of(u0), n) == initial_of(u0),
        denoised(u0, params, n) == u0,
    decreases n,
{
    if n > 0 {
        lemma_constant_image_is_kept(u0, width, c, params, n - 1);
        lemma_step_keeps_constant(u0, width, c, params);
    }
}

} // verus!
