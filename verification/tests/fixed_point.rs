use tgv::fixed::{Fixed, SCALE};
use tgv::grid::Grid;
use tgv::operators::{divergence, gradient, sym_divergence, sym_gradient};
use tgv::projection::{project_cell_2, project_cell_3};
use tgv::scalar::{half, two, Scalar};
use tgv::solver::tgv_denoise;
use tgv::tiling::parallel_tgv_denoise;

fn fx(v: f64) -> Fixed {
    Fixed::from_raw((v * SCALE as f64) as i64)
}

fn plane(h: usize, w: usize, seed: u64) -> Vec<Vec<i64>> {
    let mut state = seed;
    (0..h)
        .map(|_| {
            (0..w)
                .map(|_| {
                    state = state
                        .wrapping_mul(6364136223846793005)
                        .wrapping_add(1442695040888963407);
                    ((state >> 48) as i64 - 32768) << 20
                })
                .collect()
        })
        .collect()
}

fn image(rows: &[Vec<i64>]) -> Grid<Fixed> {
    let h = rows.len();
    let w = rows.first().map_or(0, |r| r.len());
    Grid::tabulate(h, w, |i: usize, j: usize| Fixed::from_raw(rows[i][j]))
}

fn raws(g: Grid<Fixed>) -> Vec<Vec<i64>> {
    g.into_rows().into_iter().map(|r| r.into_iter().map(|c| c.raw()).collect()).collect()
}

fn times(a: i64, b: i64) -> i128 {
    (a as i128 * b as i128) >> 32
}

#[test]
fn fixed_whole_numbers_are_scaled() {
    assert_eq!(SCALE, 1i64 << 32);
    assert_eq!(Fixed::from_int(3).raw(), 3 << 32);
    assert_eq!(Fixed::from_int(-3).raw(), -(3 << 32));
    assert_eq!(Fixed::from_int(i32::MIN).raw(), i64::MIN);
    assert_eq!(Fixed::from_int(i32::MAX).raw(), (i32::MAX as i64) << 32);
    assert_eq!(Fixed::from_raw(17).raw(), 17);
}

#[test]
fn fixed_constants() {
    assert_eq!(Fixed::zero(), Fixed::from_int(0));
    assert_eq!(Fixed::one(), Fixed::from_int(1));
    assert_eq!(two::<Fixed>(), Fixed::from_int(2));
    assert_eq!(half::<Fixed>(), fx(0.5));
}

#[test]
fn fixed_sum_and_difference_are_exact_and_saturate() {
    assert_eq!(fx(1.5).add(fx(2.25)), fx(3.75));
    assert_eq!(fx(1.5).sub(fx(2.25)), fx(-0.75));
    assert_eq!(Fixed::from_raw(i64::MAX).add(Fixed::from_raw(1)), Fixed::from_raw(i64::MAX));
    assert_eq!(Fixed::from_raw(i64::MIN).add(Fixed::from_raw(-1)), Fixed::from_raw(i64::MIN));
    assert_eq!(Fixed::from_raw(i64::MIN).sub(Fixed::from_raw(1)), Fixed::from_raw(i64::MIN));
    assert_eq!(Fixed::from_raw(i64::MAX).sub(Fixed::from_raw(-1)), Fixed::from_raw(i64::MAX));
    assert_eq!(fx(12.5).sub(fx(12.5)), Fixed::zero());
}

#[test]
fn fixed_negation_saturates_at_the_lowest_value() {
    assert_eq!(fx(2.5).neg(), fx(-2.5));
    assert_eq!(fx(-2.5).neg(), fx(2.5));
    assert_eq!(Fixed::zero().neg(), Fixed::zero());
    assert_eq!(Fixed::from_raw(i64::MIN).neg(), Fixed::from_raw(i64::MAX));
}

#[test]
fn fixed_product_rounds_towards_zero_and_saturates() {
    assert_eq!(fx(1.5).mul(fx(2.5)), fx(3.75));
    assert_eq!(fx(-1.5).mul(fx(2.5)), fx(-3.75));
    assert_eq!(fx(-1.5).mul(fx(-2.5)), fx(3.75));
    assert_eq!(Fixed::from_raw(1).mul(Fixed::from_raw(1)), Fixed::zero());
    assert_eq!(Fixed::from_raw(3).mul(fx(0.5)), Fixed::from_raw(1));
    assert_eq!(Fixed::from_raw(-3).mul(fx(0.5)), Fixed::from_raw(-1));
    assert_eq!(Fixed::from_raw(i64::MAX).mul(fx(2.0)), Fixed::from_raw(i64::MAX));
    assert_eq!(Fixed::from_raw(i64::MAX).mul(fx(-2.0)), Fixed::from_raw(i64::MIN));
    assert_eq!(Fixed::from_raw(i64::MIN).mul(Fixed::from_raw(i64::MIN)), Fixed::from_raw(i64::MAX));
}

#[test]
fn fixed_quotient_rounds_towards_zero_and_saturates() {
    assert_eq!(fx(1.0).div(fx(2.0)), fx(0.5));
    assert_eq!(fx(-7.5).div(fx(2.5)), fx(-3.0));
    assert_eq!(fx(7.5).div(fx(-2.5)), fx(-3.0));
    assert_eq!(fx(-7.5).div(fx(-2.5)), fx(3.0));
    assert_eq!(Fixed::from_raw(1).div(fx(3.0)), Fixed::zero());
    assert_eq!(Fixed::from_raw(-1).div(fx(3.0)), Fixed::zero());
    assert_eq!(fx(1.0).div(fx(3.0)), Fixed::from_raw(SCALE / 3));
    assert_eq!(fx(-1.0).div(fx(3.0)), Fixed::from_raw(-(SCALE / 3)));
    assert_eq!(Fixed::from_raw(i64::MAX).div(fx(0.5)), Fixed::from_raw(i64::MAX));
    assert_eq!(Fixed::from_raw(i64::MIN).div(fx(0.5)), Fixed::from_raw(i64::MIN));
}

#[test]
fn fixed_quotient_by_zero() {
    assert_eq!(fx(3.0).div(Fixed::zero()), Fixed::from_raw(i64::MAX));
    assert_eq!(fx(-3.0).div(Fixed::zero()), Fixed::from_raw(i64::MIN));
    assert_eq!(Fixed::zero().div(Fixed::zero()), Fixed::zero());
}

#[test]
fn fixed_square_root_rounds_down() {
    assert_eq!(fx(4.0).sqrt(), fx(2.0));
    assert_eq!(fx(6.25).sqrt(), fx(2.5));
    assert_eq!(Fixed::zero().sqrt(), Fixed::zero());
    assert_eq!(fx(-4.0).sqrt(), Fixed::zero());
    let root = fx(2.0).sqrt().raw() as i128;
    let n = (2i128 << 32) << 32;
    assert!(root * root <= n && n < (root + 1) * (root + 1));
    assert_eq!(root, 6074000999);
    let top = Fixed::from_raw(i64::MAX).sqrt().raw() as i128;
    let n = (i64::MAX as i128) << 32;
    assert!(top * top <= n && n < (top + 1) * (top + 1));
    assert_eq!(Fixed::from_raw(1).sqrt(), Fixed::from_raw(1 << 16));
}

#[test]
fn fixed_comparison_is_strict() {
    assert!(fx(1.5).gt(fx(1.25)));
    assert!(!fx(1.5).gt(fx(1.5)));
    assert!(!fx(-1.5).gt(fx(1.5)));
}

#[test]
fn fixed_projection_halves_a_cell_of_twice_the_radius() {
    assert_eq!(project_cell_2((fx(6.0), fx(8.0)), fx(5.0)), (fx(3.0), fx(4.0)));
    assert_eq!(project_cell_2((fx(3.0), fx(4.0)), fx(5.0)), (fx(3.0), fx(4.0)));
    assert_eq!(
        project_cell_3((fx(2.0), fx(3.0), fx(6.0)), fx(3.5)),
        (fx(1.0), fx(1.5), fx(3.0))
    );
    assert_eq!(project_cell_2((fx(3.0), fx(4.0)), Fixed::zero()), (Fixed::zero(), Fixed::zero()));
}

#[test]
fn fixed_gradient_and_divergence_are_exactly_adjoint() {
    let (h, w) = (7, 9);
    let a = plane(h, w, 21);
    let b0 = plane(h, w, 22);
    let b1 = plane(h, w, 23);
    let g = gradient(&image(&a)).into_rows();
    let b = Grid::tabulate(h, w, |i: usize, j: usize| {
        (Fixed::from_raw(b0[i][j]), Fixed::from_raw(b1[i][j]))
    });
    let d = raws(divergence(&b));
    let mut left = 0i128;
    let mut right = 0i128;
    for i in 0..h {
        for j in 0..w {
            left += times(g[i][j].0.raw(), b0[i][j]) + times(g[i][j].1.raw(), b1[i][j]);
            right += times(a[i][j], d[i][j]);
        }
    }
    assert_ne!(left, 0);
    assert_eq!(left, right);
}

#[test]
fn fixed_sym_gradient_and_sym_divergence_are_exactly_adjoint() {
    let (h, w) = (6, 5);
    let w0 = plane(h, w, 31);
    let w1 = plane(h, w, 32);
    let q0 = plane(h, w, 33);
    let q1 = plane(h, w, 34);
    let q2 = plane(h, w, 35);
    let field = Grid::tabulate(h, w, |i: usize, j: usize| {
        (Fixed::from_raw(w0[i][j]), Fixed::from_raw(w1[i][j]))
    });
    let tensor = Grid::tabulate(h, w, |i: usize, j: usize| {
        (Fixed::from_raw(q0[i][j]), Fixed::from_raw(q1[i][j]), Fixed::from_raw(q2[i][j]))
    });
    let e = sym_gradient(&field).into_rows();
    let v = sym_divergence(&tensor).into_rows();
    let mut left = 0i128;
    let mut right = 0i128;
    for i in 0..h {
        for j in 0..w {
            left += times(e[i][j].0.raw(), q0[i][j])
                + times(e[i][j].1.raw(), q1[i][j])
                + times(e[i][j].2.raw(), q2[i][j]);
            right += times(w0[i][j], v[i][j].0.raw()) + times(w1[i][j], v[i][j].1.raw());
        }
    }
    assert_ne!(left, 0);
    assert_eq!(left, right);
}

#[test]
fn fixed_constant_image_is_a_fixed_point() {
    let rows = vec![vec![100i64 << 32; 6]; 5];
    let u = tgv_denoise(&image(&rows), fx(1.5), fx(2.0), fx(1.0), fx(0.125), fx(0.125), 40);
    assert_eq!(raws(u), rows);
}

#[test]
fn fixed_denoising_smooths_a_step() {
    let rows: Vec<Vec<i64>> =
        (0..4).map(|_| (0..8).map(|j| if j < 4 { 0 } else { 64i64 << 32 }).collect()).collect();
    let u = raws(tgv_denoise(&image(&rows), fx(4.0), fx(2.0), fx(1.0), fx(0.125), fx(0.125), 60));
    assert_eq!(u.len(), 4);
    for row in &u {
        assert_eq!(row.len(), 8);
        assert!(row[3] > 0 && row[4] < 64i64 << 32);
        assert!(row[4] - row[3] < 64i64 << 32);
    }
}

#[test]
fn fixed_tiled_run_equals_runs_on_the_tiles() {
    let rows = plane(9, 8, 41);
    let out = raws(parallel_tgv_denoise(
        &image(&rows),
        fx(1.5),
        fx(2.0),
        fx(1.0),
        fx(0.125),
        fx(0.125),
        5,
        4,
    ));
    assert_eq!(out.len(), 9);
    assert_eq!(out[8], vec![0i64; 8]);
    for (top, left) in [(0usize, 0usize), (0, 4), (4, 0), (4, 4)] {
        let tile: Vec<Vec<i64>> =
            (top..top + 4).map(|i| rows[i][left..left + 4].to_vec()).collect();
        let alone =
            raws(tgv_denoise(&image(&tile), fx(1.5), fx(2.0), fx(1.0), fx(0.125), fx(0.125), 5));
        let got: Vec<Vec<i64>> = (top..top + 4).map(|i| out[i][left..left + 4].to_vec()).collect();
        assert_eq!(got, alone);
        assert_ne!(got, tile);
    }
}
