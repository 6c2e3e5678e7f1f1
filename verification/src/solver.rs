//! The primal-dual iteration that denoises one image.
use vstd::prelude::*;
use crate::grid::cellwise;
use crate::grid::Grid;
use crate::operators::divergence;
use crate::operators::divergence_of;
use crate::operators::gradient;
use crate::operators::gradient_of;
use crate::operators::sym_divergence;
use crate::operators::sym_divergence_of;
use crate::operators::sym_gradient;
use crate::operators::sym_gradient_of;
use crate::projection::ball_2_of;
use crate::projection::ball_3_of;
use crate::projection::project_ball_2;
use crate::projection::project_ball_3;
use crate::scalar::two;
use crate::scalar::two_value;
use crate::scalar::Scalar;

verus! {

/// The scalar parameters of the scheme, fixed for the whole run.
pub struct Params<S> {
    /// Weight of the regularisation against the data term.
    pub lam: S,
    /// Weight of the second-order term.
    pub alpha0: S,
    /// Weight of the first-order term.
    pub alpha1: S,
    /// Primal step size.
    pub tau: S,
    /// Dual step size.
    pub sigma: S,
}

/// The arrays that one iteration reads and replaces.
pub struct State<S> {
    /// The current estimate of the denoised image.
    pub u: Grid<S>,
    /// The auxiliary vector field.
    pub w: Grid<(S, S)>,
    /// The dual variable of the first-order term.
    pub p: Grid<(S, S)>,
    /// The dual variable of the second-order term.
    pub q: Grid<(S, S, S)>,
    /// The over-relaxed image.
    pub u_bar: Grid<S>,
    /// The over-relaxed vector field.
    pub w_bar: Grid<(S, S)>,
}

/// The cells of a [`State`].
pub struct Iterate<S> {
    pub u: Seq<Seq<S>>,
    pub w: Seq<Seq<(S, S)>>,
    pub p: Seq<Seq<(S, S)>>,
    pub q: Seq<Seq<(S, S, S)>>,
    pub u_bar: Seq<Seq<S>>,
    pub w_bar: Seq<Seq<(S, S)>>,
}

impl<S> View for State<S> {
    type V = Iterate<S>;

    open spec fn view(&self) -> Iterate<S> {
        Iterate {
            u: self.u@,
            w: self.w@,
            p: self.p@,
            q: self.q@,
            u_bar: self.u_bar@,
            w_bar: self.w_bar@,
        }
    }
}

impl<S> State<S> {
    /// Every array of the state is well formed and has the shape of `u0`.
    pub open spec fn wf_for(&self, u0: &Grid<S>) -> bool {
        &&& self.u.wf() && self.u.same_shape(u0)
        &&& self.w.wf() && self.w.same_shape(u0)
        &&& self.p.wf() && self.p.same_shape(u0)
        &&& self.q.wf() && self.q.same_shape(u0)
        &&& self.u_bar.wf() && self.u_bar.same_shape(u0)
        &&& self.w_bar.wf() && self.w_bar.same_shape(u0)
    }
}

/// Radius of the ball that holds `p`.
pub open spec fn radius_p<S: Scalar>(params: Params<S>) -> S {
    params.alpha1.product(params.lam)
}

/// Radius of the ball that holds `q`.
pub open spec fn radius_q<S: Scalar>(params: Params<S>) -> S {
    params.alpha0.product(params.lam)
}

/// One cell of `p` after the ascent step and before the projection:
/// `p + sigma * (grad - w_bar)`, channel by channel.
pub open spec fn ascent_p<S: Scalar>(p: (S, S), grad: (S, S), w_bar: (S, S), sigma: S) -> (S, S) {
    (
        p.0.sum(sigma.product(grad.0.difference(w_bar.0))),
        p.1.sum(sigma.product(grad.1.difference(w_bar.1))),
    )
}

/// One cell of `q` after the ascent step and before the projection:
/// `q + sigma * e`, channel by channel.
pub open spec fn ascent_q<S: Scalar>(q: (S, S, S), e: (S, S, S), sigma: S) -> (S, S, S) {
    (q.0.sum(sigma.product(e.0)), q.1.sum(sigma.product(e.1)), q.2.sum(sigma.product(e.2)))
}

/// One cell of the image after the primal step:
/// `(u - tau * div + tau * u0) / (1 + tau)`.
pub open spec fn descent_u<S: Scalar>(u: S, div: S, u0: S, tau: S) -> S {
    u.difference(tau.product(div)).sum(tau.product(u0)).quotient(S::one_value().sum(tau))
}

/// One cell of the vector field after the primal step:
/// `w - tau * (sdiv - p)`, channel by channel.
pub open spec fn descent_w<S: Scalar>(w: (S, S), sdiv: (S, S), p: (S, S), tau: S) -> (S, S) {
    (
        w.0.difference(tau.product(sdiv.0.difference(p.0))),
        w.1.difference(tau.product(sdiv.1.difference(p.1))),
    )
}

/// The over-relaxed value `2 * new - old`.
pub open spec fn relaxed<S: Scalar>(new: S, old: S) -> S {
    two_value::<S>().product(new).difference(old)
}

/// The dual variable `p` after one iteration from `s`.
pub open spec fn next_p<S: Scalar>(params: Params<S>, s: Iterate<S>) -> Seq<Seq<(S, S)>> {
    let grad = gradient_of(s.u_bar);
    ball_2_of(
        cellwise(
            s.p,
            |i: int, j: int| ascent_p(s.p[i][j], grad[i][j], s.w_bar[i][j], params.sigma),
        ),
        radius_p(params),
    )
}

/// The dual variable `q` after one iteration from `s`.
pub open spec fn next_q<S: Scalar>(params: Params<S>, s: Iterate<S>) -> Seq<Seq<(S, S, S)>> {
    let e = sym_gradient_of(s.w_bar);
    ball_3_of(
        cellwise(s.q, |i: int, j: int| ascent_q(s.q[i][j], e[i][j], params.sigma)),
        radius_q(params),
    )
}

/// The image after one iteration from `s`, anchored at `u0`.
pub open spec fn next_u<S: Scalar>(params: Params<S>, u0: Seq<Seq<S>>, s: Iterate<S>) -> Seq<
    Seq<S>,
> {
    let div = divergence_of(next_p(params, s));
    cellwise(s.u, |i: int, j: int| descent_u(s.u[i][j], div[i][j], u0[i][j], params.tau))
}

/// The vector field after one iteration from `s`.
pub open spec fn next_w<S: Scalar>(params: Params<S>, s: Iterate<S>) -> Seq<Seq<(S, S)>> {
    let p = next_p(params, s);
    let sdiv = sym_divergence_of(next_q(params, s));
    cellwise(s.w, |i: int, j: int| descent_w(s.w[i][j], sdiv[i][j], p[i][j], params.tau))
}

/// The state after one iteration from `s`: both dual updates with their
/// projections, both primal updates, and the over-relaxation of the new
/// primal variables against the old ones.
pub open spec fn step_of<S: Scalar>(params: Params<S>, u0: Seq<Seq<S>>, s: Iterate<S>) -> Iterate<
    S,
> {
    let u = next_u(params, u0, s);
    let w = next_w(params, s);
    Iterate {
        u,
        w,
        p: next_p(params, s),
        q: next_q(params, s),
        u_bar: cellwise(s.u, |i: int, j: int| relaxed(u[i][j], s.u[i][j])),
        w_bar: cellwise(
            s.w,
            |i: int, j: int|
                (relaxed(w[i][j].0, s.w[i][j].0), relaxed(w[i][j].1, s.w[i][j].1)),
        ),
    }
}

/// The scalar image of zeros in the shape of `like`.
pub open spec fn zeros_1<S: Scalar>(like: Seq<Seq<S>>) -> Seq<Seq<S>> {
    cellwise(like, |i: int, j: int| S::zero_value())
}

/// The two-channel field of zeros in the shape of `like`.
pub open spec fn zeros_2<S: Scalar>(like: Seq<Seq<S>>) -> Seq<Seq<(S, S)>> {
    cellwise(like, |i: int, j: int| (S::zero_value(), S::zero_value()))
}

/// The three-channel field of zeros in the shape of `like`.
pub open spec fn zeros_3<S: Scalar>(like: Seq<Seq<S>>) -> Seq<Seq<(S, S, S)>> {
    cellwise(like, |i: int, j: int| (S::zero_value(), S::zero_value(), S::zero_value()))
}

/// The state the solver starts from: the image and its over-relaxed copy are
/// `u0`, every other array is zero.
pub open spec fn initial_of<S: Scalar>(u0: Seq<Seq<S>>) -> Iterate<S> {
    Iterate {
        u: u0,
        w: zeros_2(u0),
        p: zeros_2(u0),
        q: zeros_3(u0),
        u_bar: u0,
        w_bar: zeros_2(u0),
    }
}

/// The state after `n` iterations from `start`; `start` itself when `n` is not
/// positive.
pub open spec fn iterate<S: Scalar>(
    params: Params<S>,
    u0: Seq<Seq<S>>,
    start: Iterate<S>,
    n: int,
) -> Iterate<S>
    decreases n,
{
    if n <= 0 {
        start
    } else {
        step_of(params, u0, iterate(params, u0, start, n - 1))
    }
}

/// The image that `n` iterations of the scheme make of `u0`.
pub open spec fn denoised<S: Scalar>(u0: Seq<Seq<S>>, params: Params<S>, n: int) -> Seq<Seq<S>> {
    iterate(params, u0, initial_of(u0), n).u
}

/// The state every run starts from.
pub fn initial_state<S: Scalar>(u0: &Grid<S>) -> (s: State<S>)
    requires
        u0.wf(),
    ensures
        s.wf_for(u0),
        s@ == initial_of(u0@),
{
    let h = u0.height();
    let w = u0.width();
    let zero = S::zero();
    let s = State {
        u: u0.duplicate(),
        w: Grid::filled(h, w, (zero, zero)),
        p: Grid::filled(h, w, (zero, zero)),
        q: Grid::filled(h, w, (zero, zero, zero)),
        u_bar: u0.duplicate(),
        w_bar: Grid::filled(h, w, (zero, zero)),
    };
    proof {
        let want = initial_of(u0@);
        assert(s.w@ =~~= want.w);
        assert(s.p@ =~~= want.p);
        assert(s.q@ =~~= want.q);
        assert(s.w_bar@ =~~= want.w_bar);
    }
    s
}

/// Performs one iteration: the dual ascent on `p` and `q` with their
/// projections, the primal descent on `u` and `w`, and the over-relaxation.
pub fn step<S: Scalar>(params: &Params<S>, u0: &Grid<S>, s: State<S>) -> (next: State<S>)
    requires
        u0.wf(),
        s.wf_for(u0),
    ensures
        next.wf_for(u0),
        next@ == step_of(*params, u0@, s@),
{
    let h = u0.height();
    let w = u0.width();
    let sigma = params.sigma;
    let tau = params.tau;
    let ghost before = s@;

    let grad = gradient(&s.u_bar);
    let p_moved = Grid::tabulate(h, w, |i: usize, j: usize| -> (c: (S, S))
        requires i < h, j < w,
        ensures c == ascent_p(
            before.p[i as int][j as int],
            grad@[i as int][j as int],
            before.w_bar[i as int][j as int],
            sigma,
        ),
        {
            let old = s.p.get(i, j);
            let g = grad.get(i, j);
            let wb = s.w_bar.get(i, j);
            (old.0.add(sigma.mul(g.0.sub(wb.0))), old.1.add(sigma.mul(g.1.sub(wb.1))))
        });
    assert(p_moved@ =~~= cellwise(
        before.p,
        |i: int, j: int| ascent_p(before.p[i][j], grad@[i][j], before.w_bar[i][j], sigma),
    ));
    let p = project_ball_2(&p_moved, params.alpha1.mul(params.lam));

    let e = sym_gradient(&s.w_bar);
    let q_moved = Grid::tabulate(h, w, |i: usize, j: usize| -> (c: (S, S, S))
        requires i < h, j < w,
        ensures c == ascent_q(before.q[i as int][j as int], e@[i as int][j as int], sigma),
        {
            let old = s.q.get(i, j);
            let d = e.get(i, j);
            (old.0.add(sigma.mul(d.0)), old.1.add(sigma.mul(d.1)), old.2.add(sigma.mul(d.2)))
        });
    assert(q_moved@ =~~= cellwise(
        before.q,
        |i: int, j: int| ascent_q(before.q[i][j], e@[i][j], sigma),
    ));
    let q = project_ball_3(&q_moved, params.alpha0.mul(params.lam));

    let div = divergence(&p);
    let u = Grid::tabulate(h, w, |i: usize, j: usize| -> (c: S)
        requires i < h, j < w,
        ensures c == descent_u(
            before.u[i as int][j as int],
            div@[i as int][j as int],
            u0@[i as int][j as int],
            tau,
        ),
        {
            let old = s.u.get(i, j);
            old.sub(tau.mul(div.get(i, j))).add(tau.mul(u0.get(i, j))).div(S::one().add(tau))
        });
    assert(u@ =~~= next_u(*params, u0@, before));

    let sdiv = sym_divergence(&q);
    let w_new = Grid::tabulate(h, w, |i: usize, j: usize| -> (c: (S, S))
        requires i < h, j < w,
        ensures c == descent_w(
            before.w[i as int][j as int],
            sdiv@[i as int][j as int],
            p@[i as int][j as int],
            tau,
        ),
        {
            let old = s.w.get(i, j);
            let d = sdiv.get(i, j);
            let dual = p.get(i, j);
            (old.0.sub(tau.mul(d.0.sub(dual.0))), old.1.sub(tau.mul(d.1.sub(dual.1))))
        });
    assert(w_new@ =~~= next_w(*params, before));

    let twice = two::<S>();
    let u_bar = Grid::tabulate(h, w, |i: usize, j: usize| -> (c: S)
        requires i < h, j < w,
        ensures c == relaxed(u@[i as int][j as int], before.u[i as int][j as int]),
        { twice.mul(u.get(i, j)).sub(s.u.get(i, j)) });
    let w_bar = Grid::tabulate(h, w, |i: usize, j: usize| -> (c: (S, S))
        requires i < h, j < w,
        ensures c == (
            relaxed(w_new@[i as int][j as int].0, before.w[i as int][j as int].0),
            relaxed(w_new@[i as int][j as int].1, before.w[i as int][j as int].1),
        ),
        {
            let new = w_new.get(i, j);
            let old = s.w.get(i, j);
            (twice.mul(new.0).sub(old.0), twice.mul(new.1).sub(old.1))
        });
    proof {
        let want = step_of(*params, u0@, before);
        assert(u_bar@ =~~= want.u_bar);
        assert(w_bar@ =~~= want.w_bar);
    }
    State { u, w: w_new, p, q, u_bar, w_bar }
}

/// Denoises the image `u0` by `n_iter` iterations of the primal-dual scheme
/// and returns the final image estimate.
///
/// The radii of the two dual balls are `alpha1 * lam` and `alpha0 * lam`;
/// `tau` and `sigma` are the primal and the dual step size. The loop always
/// runs its full count: nothing is tested for convergence, and a count that is
/// not positive returns a copy of `u0`.
pub fn tgv_denoise<S: Scalar>(
    u0: &Grid<S>,
    lam: S,
    alpha0: S,
    alpha1: S,
    tau: S,
    sigma: S,
    n_iter: i32,
) -> (u: Grid<S>)
    requires
        u0.wf(),
    ensures
        u.wf(),
        u.same_shape(u0),
        u@ == denoised(u0@, (Params { lam, alpha0, alpha1, tau, sigma }), n_iter as int),
{
    let params = Params { lam, alpha0, alpha1, tau, sigma };
    let mut state = initial_state(u0);
    let mut k: i32 = 0;
    while k < n_iter
        invariant
            u0.wf(),
            state.wf_for(u0),
            0 <= k,
            k <= n_iter || k == 0,
            state@ == iterate(params, u0@, initial_of(u0@), k as int),
        decreases n_iter - k,
    {
        state = step(&params, u0, state);
        k += 1;
    }
    state.u
}

/// Two runs on the same image with the same parameters and the same count
/// of iterations end on the same image, cell for cell.
pub proof fn lemma_denoise_deterministic<S: Scalar>(
    u0: Seq<Seq<S>>,
    params: Params<S>,
    n: int,
    first: Seq<Seq<S>>,
    second: Seq<Seq<S>>,
)
    requires
        first == denoised(u0, params, n),
        second == denoised(u0, params, n),
    ensures
        first == second,
{
}

} // verus!
