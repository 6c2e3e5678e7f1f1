use tgv::grid::Grid;
use tgv::operators::{divergence, gradient, sym_divergence, sym_gradient};
use tgv::projection::{project_ball_2, project_ball_3, project_cell_2, project_cell_3};
use tgv::scalar::{half, two, Scalar};
use tgv::solver::{initial_state, step, tgv_denoise, Params};
use tgv::tiling::parallel_tgv_denoise;

/// Single-precision pixels. Each model function is the operation itself.
#[derive(Clone, Copy, Debug, PartialEq)]
struct F(f32);

impl Scalar for F {
    fn zero_value() -> Self {
        F(0.0)
    }
    fn one_value() -> Self {
        F(1.0)
    }
    fn sum(self, rhs: Self) -> Self {
        F(self.0 + rhs.0)
    }
    fn difference(self, rhs: Self) -> Self {
        F(self.0 - rhs.0)
    }
    fn product(self, rhs: Self) -> Self {
        F(self.0 * rhs.0)
    }
    fn quotient(self, rhs: Self) -> Self {
        F(self.0 / rhs.0)
    }
    fn negation(self) -> Self {
        F(-self.0)
    }
    fn square_root(self) -> Self {
        F(self.0.sqrt())
    }
    fn exceeds(self, rhs: Self) -> bool {
        self.0 > rhs.0
    }
    fn zero() -> Self {
        F(0.0)
    }
    fn one() -> Self {
        F(1.0)
    }
    fn add(self, rhs: Self) -> Self {
        F(self.0 + rhs.0)
    }
    fn sub(self, rhs: Self) -> Self {
        F(self.0 - rhs.0)
    }
    fn mul(self, rhs: Self) -> Self {
        F(self.0 * rhs.0)
    }
    fn div(self, rhs: Self) -> Self {
        F(self.0 / rhs.0)
    }
    fn neg(self) -> Self {
        F(-self.0)
    }
    fn sqrt(self) -> Self {
        F(self.0.sqrt())
    }
    fn gt(self, rhs: Self) -> bool {
        self.0 > rhs.0
    }
}

fn image(rows: Vec<Vec<f32>>) -> Grid<F> {
    let width = rows.first().map_or(0, |r| r.len());
    Grid::from_rows(width, rows.into_iter().map(|r| r.into_iter().map(F).collect()).collect())
        .unwrap()
}

fn pixels(g: Grid<F>) -> Vec<Vec<f32>> {
    g.into_rows().into_iter().map(|r| r.into_iter().map(|c| c.0).collect()).collect()
}

fn field_2(c0: Vec<Vec<f32>>, c1: Vec<Vec<f32>>) -> Grid<(F, F)> {
    let h = c0.len();
    let w = c0.first().map_or(0, |r| r.len());
    Grid::tabulate(h, w, |i: usize, j: usize| (F(c0[i][j]), F(c1[i][j])))
}

fn field_3(c0: Vec<Vec<f32>>, c1: Vec<Vec<f32>>, c2: Vec<Vec<f32>>) -> Grid<(F, F, F)> {
    let h = c0.len();
    let w = c0.first().map_or(0, |r| r.len());
    Grid::tabulate(h, w, |i: usize, j: usize| (F(c0[i][j]), F(c1[i][j]), F(c2[i][j])))
}

fn channels_2(g: Grid<(F, F)>) -> (Vec<Vec<f32>>, Vec<Vec<f32>>) {
    let rows = g.into_rows();
    (
        rows.iter().map(|r| r.iter().map(|c| c.0 .0).collect()).collect(),
        rows.iter().map(|r| r.iter().map(|c| c.1 .0).collect()).collect(),
    )
}

fn channels_3(g: Grid<(F, F, F)>) -> (Vec<Vec<f32>>, Vec<Vec<f32>>, Vec<Vec<f32>>) {
    let rows = g.into_rows();
    (
        rows.iter().map(|r| r.iter().map(|c| c.0 .0).collect()).collect(),
        rows.iter().map(|r| r.iter().map(|c| c.1 .0).collect()).collect(),
        rows.iter().map(|r| r.iter().map(|c| c.2 .0).collect()).collect(),
    )
}

/// A repeatable stream of values in `[0, 1)`.
struct Stream(u64);

impl Stream {
    fn next(&mut self) -> f32 {
        self.0 = self.0.wrapping_mul(6364136223846793005).wrapping_add(1442695040888963407);
        ((self.0 >> 40) as f32) / ((1u64 << 24) as f32)
    }

    fn plane(&mut self, h: usize, w: usize) -> Vec<Vec<f32>> {
        (0..h).map(|_| (0..w).map(|_| self.next() * 2.0 - 1.0).collect()).collect()
    }
}

fn noisy_step(h: usize, w: usize, seed: u64) -> Vec<Vec<f32>> {
    let mut s = Stream(seed);
    (0..h)
        .map(|_| {
            (0..w)
                .map(|j| (if j < w / 2 { 60.0 } else { 180.0 }) + 40.0 * (s.next() - 0.5))
                .collect()
        })
        .collect()
}

fn mean_gradient_magnitude(u: &Grid<F>) -> f64 {
    let (gx, gy) = channels_2(gradient(u));
    let mut total = 0.0f64;
    let mut count = 0.0f64;
    for i in 0..gx.len() {
        for j in 0..gx[i].len() {
            let x = gx[i][j] as f64;
            let y = gy[i][j] as f64;
            total += (x * x + y * y).sqrt();
            count += 1.0;
        }
    }
    total / count
}

fn close(a: f64, b: f64, tolerance: f64) -> bool {
    (a - b).abs() <= tolerance * (1.0 + a.abs().max(b.abs()))
}

#[test]
fn scalar_constants_two_and_half() {
    assert_eq!(two::<F>(), F(2.0));
    assert_eq!(half::<F>(), F(0.5));
}

#[test]
fn gradient_takes_next_minus_current_with_wrap() {
    let u = image(vec![vec![1.0, 2.0, 4.0], vec![8.0, 16.0, 32.0]]);
    let g = gradient(&u);
    assert_eq!(g.height(), 2);
    assert_eq!(g.width(), 3);
    let (gx, gy) = channels_2(g);
    assert_eq!(gx, vec![vec![1.0, 2.0, -3.0], vec![8.0, 16.0, -24.0]]);
    assert_eq!(gy, vec![vec![7.0, 14.0, 28.0], vec![-7.0, -14.0, -28.0]]);
}

#[test]
fn divergence_negates_the_backward_differences() {
    let p = field_2(
        vec![vec![1.0, 2.0, 4.0], vec![8.0, 16.0, 32.0]],
        vec![vec![1.0, 1.0, 1.0], vec![2.0, 2.0, 2.0]],
    );
    let d = divergence(&p);
    assert_eq!(d.height(), 2);
    assert_eq!(d.width(), 3);
    assert_eq!(pixels(d), vec![vec![4.0, 0.0, -1.0], vec![23.0, -9.0, -17.0]]);
}

#[test]
fn sym_gradient_has_two_diagonals_and_the_averaged_cross_term() {
    let w = field_2(
        vec![vec![1.0, 2.0, 4.0], vec![8.0, 16.0, 32.0]],
        vec![vec![1.0, 1.0, 1.0], vec![2.0, 2.0, 2.0]],
    );
    let e = sym_gradient(&w);
    assert_eq!(e.height(), 2);
    assert_eq!(e.width(), 3);
    let (e0, e1, e2) = channels_3(e);
    assert_eq!(e0, vec![vec![1.0, 2.0, -3.0], vec![8.0, 16.0, -24.0]]);
    assert_eq!(e1, vec![vec![1.0, 1.0, 1.0], vec![-1.0, -1.0, -1.0]]);
    assert_eq!(e2, vec![vec![3.5, 7.0, 14.0], vec![-3.5, -7.0, -14.0]]);
}

#[test]
fn sym_gradient_cross_term_uses_both_channels() {
    let w = field_2(vec![vec![0.0, 0.0], vec![0.0, 0.0]], vec![vec![1.0, 5.0], vec![1.0, 5.0]]);
    let (_, _, e2) = channels_3(sym_gradient(&w));
    assert_eq!(e2, vec![vec![2.0, -2.0], vec![2.0, -2.0]]);
}

#[test]
fn sym_divergence_combines_backward_differences() {
    let q = field_3(
        vec![vec![1.0, 2.0, 4.0], vec![8.0, 16.0, 32.0]],
        vec![vec![1.0, 1.0, 1.0], vec![2.0, 2.0, 2.0]],
        vec![vec![2.0, 4.0, 6.0], vec![8.0, 10.0, 12.0]],
    );
    let v = sym_divergence(&q);
    assert_eq!(v.height(), 2);
    assert_eq!(v.width(), 3);
    let (v0, v1) = channels_2(v);
    assert_eq!(v0, vec![vec![6.0, 2.0, 1.0], vec![21.0, -11.0, -19.0]]);
    assert_eq!(v1, vec![vec![3.0, 0.0, 0.0], vec![1.0, -2.0, -2.0]]);
}

#[test]
fn gradient_of_a_constant_image_is_zero() {
    let u = image(vec![vec![42.5; 5]; 4]);
    let (gx, gy) = channels_2(gradient(&u));
    assert_eq!(gx, vec![vec![0.0; 5]; 4]);
    assert_eq!(gy, vec![vec![0.0; 5]; 4]);
}

#[test]
fn gradient_and_divergence_are_adjoint() {
    let mut s = Stream(7);
    let (h, w) = (9, 13);
    let a = s.plane(h, w);
    let b0 = s.plane(h, w);
    let b1 = s.plane(h, w);
    let (gx, gy) = channels_2(gradient(&image(a.clone())));
    let d = pixels(divergence(&field_2(b0.clone(), b1.clone())));
    let mut left = 0.0f64;
    let mut right = 0.0f64;
    for i in 0..h {
        for j in 0..w {
            left += (gx[i][j] * b0[i][j]) as f64 + (gy[i][j] * b1[i][j]) as f64;
            right += (a[i][j] * d[i][j]) as f64;
        }
    }
    assert!(left.abs() > 1e-3);
    assert!(close(left, right, 1e-4), "{left} against {right}");
}

#[test]
fn sym_gradient_and_sym_divergence_are_adjoint() {
    let mut s = Stream(11);
    let (h, w) = (8, 10);
    let w0 = s.plane(h, w);
    let w1 = s.plane(h, w);
    let q0 = s.plane(h, w);
    let q1 = s.plane(h, w);
    let q2 = s.plane(h, w);
    let (e0, e1, e2) = channels_3(sym_gradient(&field_2(w0.clone(), w1.clone())));
    let (v0, v1) = channels_2(sym_divergence(&field_3(q0.clone(), q1.clone(), q2.clone())));
    let mut left = 0.0f64;
    let mut right = 0.0f64;
    for i in 0..h {
        for j in 0..w {
            left += (e0[i][j] * q0[i][j]) as f64
                + (e1[i][j] * q1[i][j]) as f64
                + (e2[i][j] * q2[i][j]) as f64;
            right += (w0[i][j] * v0[i][j]) as f64 + (w1[i][j] * v1[i][j]) as f64;
        }
    }
    assert!(left.abs() > 1e-3);
    assert!(close(left, right, 1e-4), "{left} against {right}");
}

#[test]
fn projection_leaves_interior_cells_unchanged() {
    assert_eq!(project_cell_2((F(0.3), F(0.4)), F(1.0)), (F(0.3), F(0.4)));
    assert_eq!(project_cell_2((F(3.0), F(4.0)), F(5.0)), (F(3.0), F(4.0)));
    assert_eq!(project_cell_3((F(2.0), F(3.0), F(6.0)), F(7.0)), (F(2.0), F(3.0), F(6.0)));
    assert_eq!(project_cell_2((F(0.0), F(0.0)), F(1.0)), (F(0.0), F(0.0)));
}

#[test]
fn projection_scales_outside_cells_by_radius_over_norm() {
    assert_eq!(project_cell_2((F(6.0), F(8.0)), F(5.0)), (F(3.0), F(4.0)));
    assert_eq!(project_cell_2((F(-6.0), F(8.0)), F(5.0)), (F(-3.0), F(4.0)));
    assert_eq!(project_cell_3((F(2.0), F(3.0), F(6.0)), F(3.5)), (F(1.0), F(1.5), F(3.0)));
    let scale = 1.0f32 / 5.0f32;
    assert_eq!(project_cell_2((F(3.0), F(4.0)), F(1.0)), (F(3.0 * scale), F(4.0 * scale)));
}

#[test]
fn projection_with_zero_radius_clips_to_zero() {
    assert_eq!(project_cell_2((F(3.0), F(4.0)), F(0.0)), (F(0.0), F(0.0)));
    assert_eq!(project_cell_3((F(2.0), F(3.0), F(6.0)), F(0.0)), (F(0.0), F(0.0), F(0.0)));
}

#[test]
fn project_ball_2_treats_each_cell_on_its_own() {
    let f = field_2(vec![vec![6.0, 0.3], vec![0.0, -30.0]], vec![vec![8.0, 0.4], vec![0.0, 40.0]]);
    let r = project_ball_2(&f, F(5.0));
    assert_eq!(r.height(), 2);
    assert_eq!(r.width(), 2);
    let (c0, c1) = channels_2(r);
    assert_eq!(c0, vec![vec![3.0, 0.3], vec![0.0, -3.0]]);
    assert_eq!(c1, vec![vec![4.0, 0.4], vec![0.0, 4.0]]);
}

#[test]
fn project_ball_3_treats_each_cell_on_its_own() {
    let f = field_3(vec![vec![2.0, 0.1]], vec![vec![3.0, 0.2]], vec![vec![6.0, 0.2]]);
    let (c0, c1, c2) = channels_3(project_ball_3(&f, F(3.5)));
    assert_eq!(c0, vec![vec![1.0, 0.1]]);
    assert_eq!(c1, vec![vec![1.5, 0.2]]);
    assert_eq!(c2, vec![vec![3.0, 0.2]]);
}

#[test]
fn projected_cells_lie_within_the_ball() {
    let mut s = Stream(3);
    let (h, w) = (12, 12);
    let scale = |p: Vec<Vec<f32>>| -> Vec<Vec<f32>> {
        p.into_iter().map(|r| r.into_iter().map(|x| 10.0 * x).collect()).collect()
    };
    let f2 = field_2(scale(s.plane(h, w)), scale(s.plane(h, w)));
    let f3 = field_3(scale(s.plane(h, w)), scale(s.plane(h, w)), scale(s.plane(h, w)));
    let radius = 2.5f32;
    let (a, b) = channels_2(project_ball_2(&f2, F(radius)));
    let (c, d, e) = channels_3(project_ball_3(&f3, F(radius)));
    let mut clipped = 0;
    for i in 0..h {
        for j in 0..w {
            let n2 = (a[i][j] * a[i][j] + b[i][j] * b[i][j]).sqrt();
            let n3 = (c[i][j] * c[i][j] + d[i][j] * d[i][j] + e[i][j] * e[i][j]).sqrt();
            assert!(n2 <= radius * (1.0 + 1e-5));
            assert!(n3 <= radius * (1.0 + 1e-5));
            if n2 > radius * (1.0 - 1e-5) {
                clipped += 1;
            }
        }
    }
    assert!(clipped > 0);
}

#[test]
fn projecting_twice_is_projecting_once() {
    let f = field_2(
        vec![vec![6.0, 0.3, -30.0], vec![0.0, 12.0, 1.0]],
        vec![vec![8.0, 0.4, 40.0], vec![0.0, -5.0, 1.0]],
    );
    let once = project_ball_2(&f, F(5.0));
    let twice = project_ball_2(&once, F(5.0));
    assert_eq!(channels_2(twice), channels_2(once));
    let f = field_3(vec![vec![2.0, 0.1]], vec![vec![3.0, 0.2]], vec![vec![6.0, 0.2]]);
    let once = project_ball_3(&f, F(3.5));
    let twice = project_ball_3(&once, F(3.5));
    assert_eq!(channels_3(twice), channels_3(once));
}

#[test]
fn initial_state_copies_the_image_and_zeroes_the_rest() {
    let u0 = image(vec![vec![1.0, 2.0], vec![3.0, 4.0]]);
    let s = initial_state(&u0);
    assert_eq!(pixels(s.u), vec![vec![1.0, 2.0], vec![3.0, 4.0]]);
    assert_eq!(pixels(s.u_bar), vec![vec![1.0, 2.0], vec![3.0, 4.0]]);
    assert_eq!(channels_2(s.w), (vec![vec![0.0; 2]; 2], vec![vec![0.0; 2]; 2]));
    assert_eq!(channels_2(s.p), (vec![vec![0.0; 2]; 2], vec![vec![0.0; 2]; 2]));
    assert_eq!(channels_2(s.w_bar), (vec![vec![0.0; 2]; 2], vec![vec![0.0; 2]; 2]));
    assert_eq!(
        channels_3(s.q),
        (vec![vec![0.0; 2]; 2], vec![vec![0.0; 2]; 2], vec![vec![0.0; 2]; 2])
    );
}

#[test]
fn first_step_on_two_pixels() {
    let u0 = image(vec![vec![0.0, 1.0]]);
    let params =
        Params { lam: F(1.0), alpha0: F(2.0), alpha1: F(1.0), tau: F(0.125), sigma: F(0.125) };
    let s = step(&params, &u0, initial_state(&u0));
    assert_eq!(channels_2(s.p.duplicate()), (vec![vec![0.125, -0.125]], vec![vec![0.0, 0.0]]));
    assert_eq!(
        channels_3(s.q.duplicate()),
        (vec![vec![0.0, 0.0]], vec![vec![0.0, 0.0]], vec![vec![0.0, 0.0]])
    );
    let left = (0.0f32 - 0.125 * -0.25 + 0.125 * 0.0) / (1.0 + 0.125);
    let right = (1.0f32 - 0.125 * 0.25 + 0.125 * 1.0) / (1.0 + 0.125);
    assert_eq!(pixels(s.u.duplicate()), vec![vec![left, right]]);
    assert_eq!(
        channels_2(s.w.duplicate()),
        (vec![vec![0.0 - 0.125 * (0.0 - 0.125), 0.0 - 0.125 * (0.0 + 0.125)]], vec![vec![0.0, 0.0]])
    );
    assert_eq!(pixels(s.u_bar), vec![vec![2.0 * left - 0.0, 2.0 * right - 1.0]]);
    assert_eq!(
        channels_2(s.w_bar),
        (vec![vec![2.0 * 0.015625, 2.0 * -0.015625]], vec![vec![0.0, 0.0]])
    );
}

#[test]
fn first_step_projects_large_dual_cells() {
    let u0 = image(vec![vec![0.0, 100.0]]);
    let params =
        Params { lam: F(1.0), alpha0: F(2.0), alpha1: F(1.0), tau: F(0.125), sigma: F(0.125) };
    let s = step(&params, &u0, initial_state(&u0));
    let (p0, p1) = channels_2(s.p);
    assert_eq!(p0, vec![vec![1.0, -1.0]]);
    assert_eq!(p1, vec![vec![0.0, 0.0]]);
}

#[test]
fn one_iteration_matches_one_step() {
    let u0 = image(vec![vec![0.0, 1.0], vec![5.0, 2.0]]);
    let params =
        Params { lam: F(1.5), alpha0: F(2.0), alpha1: F(1.0), tau: F(0.125), sigma: F(0.125) };
    let by_step = step(&params, &u0, initial_state(&u0)).u;
    let by_run = tgv_denoise(&u0, F(1.5), F(2.0), F(1.0), F(0.125), F(0.125), 1);
    assert_eq!(pixels(by_run), pixels(by_step));
}

#[test]
fn three_iterations_match_three_steps() {
    let u0 = image(noisy_step(4, 6, 5));
    let params =
        Params { lam: F(1.5), alpha0: F(2.0), alpha1: F(1.0), tau: F(0.125), sigma: F(0.125) };
    let mut s = initial_state(&u0);
    for _ in 0..3 {
        s = step(&params, &u0, s);
    }
    let by_run = tgv_denoise(&u0, F(1.5), F(2.0), F(1.0), F(0.125), F(0.125), 3);
    assert_eq!(pixels(by_run), pixels(s.u));
}

#[test]
fn no_iterations_return_the_image() {
    let rows = vec![vec![3.0, 1.0, 4.0], vec![1.0, 5.0, 9.0]];
    let u0 = image(rows.clone());
    assert_eq!(pixels(tgv_denoise(&u0, F(1.0), F(2.0), F(1.0), F(0.125), F(0.125), 0)), rows);
    assert_eq!(pixels(tgv_denoise(&u0, F(1.0), F(2.0), F(1.0), F(0.125), F(0.125), -4)), rows);
}

#[test]
fn denoising_preserves_the_shape() {
    for (h, w) in [(1usize, 1usize), (1, 7), (5, 1), (3, 8), (6, 4)] {
        let u0 = image(noisy_step(h, w, 1));
        let u = tgv_denoise(&u0, F(1.6), F(2.0), F(1.0), F(0.125), F(0.125), 4);
        assert_eq!((u.height(), u.width()), (h, w));
        let rows = u.into_rows();
        assert_eq!(rows.len(), h);
        assert!(rows.iter().all(|r| r.len() == w));
    }
    let empty: Grid<F> = Grid::from_rows(5, Vec::new()).unwrap();
    let u = tgv_denoise(&empty, F(1.6), F(2.0), F(1.0), F(0.125), F(0.125), 3);
    assert_eq!((u.height(), u.width()), (0, 5));
}

#[test]
fn constant_image_stays_constant() {
    let u0 = image(vec![vec![100.0; 8]; 8]);
    for n in [1, 10, 60] {
        let u = tgv_denoise(&u0, F(1.6), F(2.0), F(1.0), F(0.125), F(0.125), n);
        for row in pixels(u) {
            for x in row {
                assert!((x - 100.0).abs() < 1e-3, "{x}");
            }
        }
    }
}

#[test]
fn denoising_changes_a_noisy_image() {
    let rows = noisy_step(8, 8, 2);
    let u = tgv_denoise(&image(rows.clone()), F(1.6), F(2.0), F(1.0), F(0.125), F(0.125), 20);
    assert_ne!(pixels(u), rows);
}

#[test]
fn stronger_regularisation_gives_a_smoother_image() {
    let u0 = image(noisy_step(16, 16, 9));
    let mut last = mean_gradient_magnitude(&u0);
    for lam in [0.5f32, 2.0, 8.0] {
        let u = tgv_denoise(&u0, F(lam), F(2.0), F(1.0), F(0.125), F(0.125), 150);
        let now = mean_gradient_magnitude(&u);
        assert!(now < last, "{now} is not below {last} at lam {lam}");
        last = now;
    }
}

#[test]
fn two_runs_give_identical_bits() {
    let u0 = image(noisy_step(10, 12, 4));
    let a = pixels(tgv_denoise(&u0, F(1.6), F(2.0), F(1.0), F(0.125), F(0.125), 25));
    let b = pixels(tgv_denoise(&u0, F(1.6), F(2.0), F(1.0), F(0.125), F(0.125), 25));
    for (ra, rb) in a.iter().zip(b.iter()) {
        for (x, y) in ra.iter().zip(rb.iter()) {
            assert_eq!(x.to_bits(), y.to_bits());
        }
    }
}

fn quadrant(rows: &[Vec<f32>], top: usize, left: usize, side: usize) -> Vec<Vec<f32>> {
    (top..top + side).map(|i| rows[i][left..left + side].to_vec()).collect()
}

#[test]
fn tiled_run_equals_four_runs_on_the_quadrants() {
    let rows = noisy_step(64, 64, 6);
    let out = pixels(parallel_tgv_denoise(
        &image(rows.clone()),
        F(1.6),
        F(2.0),
        F(1.0),
        F(0.125),
        F(0.125),
        8,
        32,
    ));
    assert_eq!(out.len(), 64);
    assert!(out.iter().all(|r| r.len() == 64));
    assert_ne!(out, rows);
    for (top, left) in [(0usize, 0usize), (0, 32), (32, 0), (32, 32)] {
        let tile = image(quadrant(&rows, top, left, 32));
        let alone = pixels(tgv_denoise(&tile, F(1.6), F(2.0), F(1.0), F(0.125), F(0.125), 8));
        assert_eq!(quadrant(&out, top, left, 32), alone);
    }
}

#[test]
fn tiled_run_leaves_leftover_rows_at_zero() {
    let mut rows = noisy_step(65, 64, 8);
    for x in rows[64].iter_mut() {
        *x = 77.0;
    }
    let out = pixels(parallel_tgv_denoise(
        &image(rows.clone()),
        F(1.6),
        F(2.0),
        F(1.0),
        F(0.125),
        F(0.125),
        3,
        32,
    ));
    assert_eq!(out.len(), 65);
    assert!(out.iter().all(|r| r.len() == 64));
    assert_eq!(out[64], vec![0.0; 64]);
    let tile = image(quadrant(&rows, 32, 32, 32));
    let alone = pixels(tgv_denoise(&tile, F(1.6), F(2.0), F(1.0), F(0.125), F(0.125), 3));
    assert_eq!(quadrant(&out, 32, 32, 32), alone);
}

#[test]
fn tiled_run_leaves_leftover_columns_at_zero() {
    let rows = noisy_step(8, 11, 12);
    let out = pixels(parallel_tgv_denoise(
        &image(rows.clone()),
        F(1.6),
        F(2.0),
        F(1.0),
        F(0.125),
        F(0.125),
        3,
        4,
    ));
    for (i, row) in out.iter().enumerate() {
        assert_eq!(row.len(), 11);
        assert_eq!(row[8..], [0.0, 0.0, 0.0]);
        assert!(row[..8].iter().any(|x| *x != 0.0), "row {i}");
    }
    let tile = image(quadrant(&rows, 4, 4, 4));
    let alone = pixels(tgv_denoise(&tile, F(1.6), F(2.0), F(1.0), F(0.125), F(0.125), 3));
    assert_eq!(quadrant(&out, 4, 4, 4), alone);
}

#[test]
fn tiled_run_without_a_complete_tile_is_all_zero() {
    let rows = noisy_step(5, 9, 13);
    let too_large = parallel_tgv_denoise(
        &image(rows.clone()),
        F(1.6),
        F(2.0),
        F(1.0),
        F(0.125),
        F(0.125),
        3,
        6,
    );
    assert_eq!(pixels(too_large), vec![vec![0.0; 9]; 5]);
    let no_size =
        parallel_tgv_denoise(&image(rows), F(1.6), F(2.0), F(1.0), F(0.125), F(0.125), 3, 0);
    assert_eq!(pixels(no_size), vec![vec![0.0; 9]; 5]);
}

#[test]
fn tiled_run_with_one_pixel_tiles_denoises_each_pixel_alone() {
    let rows = vec![vec![1.0, 2.0, 3.0], vec![4.0, 5.0, 6.0]];
    let out = pixels(parallel_tgv_denoise(
        &image(rows.clone()),
        F(1.6),
        F(2.0),
        F(1.0),
        F(0.125),
        F(0.125),
        2,
        1,
    ));
    for i in 0..2 {
        for j in 0..3 {
            let alone = pixels(tgv_denoise(
                &image(vec![vec![rows[i][j]]]),
                F(1.6),
                F(2.0),
                F(1.0),
                F(0.125),
                F(0.125),
                2,
            ));
            assert_eq!(out[i][j], alone[0][0]);
        }
    }
}
