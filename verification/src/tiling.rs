//! Denoising an image tile by tile.
//!
//! The image is cut into square tiles that do not overlap. Each tile is
//! denoised on its own, with periodic boundaries of its own, so nothing
//! crosses a seam; rows and columns left over beyond the last complete tile
//! are not denoised at all.
use vstd::prelude::*;
use vstd::arithmetic::div_mod::lemma_fundamental_div_mod;
use vstd::arithmetic::div_mod::lemma_fundamental_div_mod_converse;
use rayon::iter::IntoParallelRefIterator;
use rayon::iter::ParallelIterator;
use crate::grid::cellwise;
use crate::grid::Grid;
use crate::scalar::Scalar;
use crate::solver::denoised;
use crate::solver::tgv_denoise;
use crate::solver::Params;

verus! {

/// The number of complete tiles of side `patch` along an axis of length `n`.
pub open spec fn tiles_along(n: int, patch: int) -> int {
    if patch > 0 {
        n / patch
    } else {
        0
    }
}

/// The tile in row `bi` and column `bj` of the tiling of `cells` by squares of
/// side `patch`.
pub open spec fn tile_of<T>(cells: Seq<Seq<T>>, bi: int, bj: int, patch: int) -> Seq<Seq<T>> {
    Seq::new(
        patch as nat,
        |a: int| Seq::new(patch as nat, |b: int| cells[bi * patch + a][bj * patch + b]),
    )
}

/// Whether cell `(i, j)` of a `height` by `width` image lies in a complete
/// tile of side `patch`.
pub open spec fn covered(height: int, width: int, patch: int, i: int, j: int) -> bool {
    &&& patch > 0
    &&& 0 <= i && i / patch < tiles_along(height, patch)
    &&& 0 <= j && j / patch < tiles_along(width, patch)
}

/// Cell `(i, j)` of the tiled result: inside a complete tile, the cell at the
/// same place of that tile denoised on its own; zero anywhere else.
pub open spec fn tiled_at<S: Scalar>(
    u0: Seq<Seq<S>>,
    params: Params<S>,
    n: int,
    patch: int,
    i: int,
    j: int,
) -> S {
    if covered(u0.len() as int, u0[i].len() as int, patch, i, j) {
        denoised(tile_of(u0, i / patch, j / patch, patch), params, n)[i % patch][j % patch]
    } else {
        S::zero_value()
    }
}

/// The image that tile-wise denoising makes of `u0`.
pub open spec fn tiled_of<S: Scalar>(u0: Seq<Seq<S>>, params: Params<S>, n: int, patch: int) -> Seq<
    Seq<S>,
> {
    cellwise(u0, |i: int, j: int| tiled_at(u0, params, n, patch, i, j))
}

proof fn lemma_tile_cell(block: int, patch: int, a: int, count: int, n: int)
    requires
        0 <= block < count,
        0 <= a < patch,
        count == n / patch,
        0 <= n,
    ensures
        0 <= block * patch,
        0 <= block * patch + a < n,
        (block * patch + a) / patch == block,
        (block * patch + a) % patch == a,
{
    lemma_fundamental_div_mod(n, patch);
    assert(0 <= block * patch && block * patch + patch <= count * patch) by (nonlinear_arith)
        requires
            0 <= block < count,
            0 < patch,
    ;
    assert(patch * count == count * patch) by (nonlinear_arith);
    lemma_fundamental_div_mod_converse(block * patch + a, patch, block, a);
}

proof fn lemma_flat_index(bi: int, bj: int, rows: int, cols: int)
    requires
        0 <= bi < rows,
        0 <= bj < cols,
    ensures
        0 <= bi * cols,
        0 <= bi * cols + bj < rows * cols,
        (bi * cols + bj) / cols == bi,
        (bi * cols + bj) % cols == bj,
{
    assert(0 <= bi * cols && bi * cols + cols <= rows * cols) by (nonlinear_arith)
        requires
            0 <= bi < rows,
            0 < cols,
    ;
    lemma_fundamental_div_mod_converse(bi * cols + bj, cols, bi, bj);
}

/// Copies the tile in row `bi` and column `bj` of the tiling out of `g`.
fn extract_tile<T: Copy>(g: &Grid<T>, bi: usize, bj: usize, patch: usize) -> (t: Grid<T>)
    requires
        g.wf(),
        0 < patch,
        bi < g.height() / patch,
        bj < g.width() / patch,
    ensures
        t.wf(),
        t.height() == patch,
        t.width() == patch,
        t@ == tile_of(g@, bi as int, bj as int, patch as int),
{
    let ghost h = g.height() as int;
    let ghost w = g.width() as int;
    let t = Grid::tabulate(patch, patch, |a: usize, b: usize| -> (c: T)
        requires a < patch, b < patch,
        ensures c == g@[bi * patch + a][bj * patch + b],
        {
            proof {
                lemma_tile_cell(bi as int, patch as int, a as int, h / patch as int, h);
                lemma_tile_cell(bj as int, patch as int, b as int, w / patch as int, w);
            }
            g.get(bi * patch + a, bj * patch + b)
        });
    assert(t@ =~~= tile_of(g@, bi as int, bj as int, patch as int));
    t
}

/// Cuts `g` into its complete tiles, listed row of tiles by row of tiles.
fn split_tiles<T: Copy>(g: &Grid<T>, patch: usize) -> (tiles: Vec<Grid<T>>)
    requires
        g.wf(),
        0 < patch,
    ensures
        tiles.len() == (g.height() / patch) * (g.width() / patch),
        forall|k: int|
            0 <= k < tiles.len() ==> {
                &&& (#[trigger] tiles[k]).wf()
                &&& tiles[k].height() == patch
                &&& tiles[k].width() == patch
                &&& tiles[k]@ == tile_of(
                    g@,
                    k / (g.width() / patch) as int,
                    k % (g.width() / patch) as int,
                    patch as int,
                )
            },
{
    let rows = g.height() / patch;
    let cols = g.width() / patch;
    let mut tiles: Vec<Grid<T>> = Vec::new();
    let mut bi: usize = 0;
    while bi < rows
        invariant
            g.wf(),
            0 < patch,
            rows == g.height() / patch,
            cols == g.width() / patch,
            bi <= rows,
            tiles.len() == bi * cols,
            forall|k: int|
                0 <= k < tiles.len() ==> {
                    &&& (#[trigger] tiles[k]).wf()
                    &&& tiles[k].height() == patch
                    &&& tiles[k].width() == patch
                    &&& tiles[k]@ == tile_of(g@, k / cols as int, k % cols as int, patch as int)
                },
        decreases rows - bi,
    {
        let mut bj: usize = 0;
        while bj < cols
            invariant
                g.wf(),
                0 < patch,
                rows == g.height() / patch,
                cols == g.width() / patch,
                bi < rows,
                bj <= cols,
                tiles.len() == bi * cols + bj,
                forall|k: int|
                    0 <= k < tiles.len() ==> {
                        &&& (#[trigger] tiles[k]).wf()
                        &&& tiles[k].height() == patch
                        &&& tiles[k].width() == patch
                        &&& tiles[k]@ == tile_of(
                            g@,
                            k / cols as int,
                            k % cols as int,
                            patch as int,
                        )
                    },
            decreases cols - bj,
        {
            proof {
                lemma_flat_index(bi as int, bj as int, rows as int, cols as int);
            }
            let tile = extract_tile(g, bi, bj, patch);
            tiles.push(tile);
            bj += 1;
        }
        assert(bi * cols + cols == (bi + 1) * cols) by (nonlinear_arith);
        bi += 1;
    }
    tiles
}

/// Denoises every tile on its own and returns the results in the order of
/// the tiles.
///
/// The work is handed to rayon: `par_iter` on the vector, `map` with a call of
/// [`tgv_denoise`] for each tile, and `collect` into a vector. Nothing here is
/// proved of rayon; the contract takes from it that `map` calls the function
/// once for every item and that `collect` into a vector puts each result at
/// the place of its source, so that entry `k` of the result is what
/// [`tgv_denoise`] returns for tile `k`.
#[verifier::external_body]
fn denoise_tiles<S: Scalar>(
    tiles: &Vec<Grid<S>>,
    lam: S,
    alpha0: S,
    alpha1: S,
    tau: S,
    sigma: S,
    n_iter: i32,
) -> (out: Vec<Grid<S>>)
    requires
        forall|k: int| 0 <= k < tiles.len() ==> (#[trigger] tiles[k]).wf(),
    ensures
        out.len() == tiles.len(),
        forall|k: int|
            0 <= k < out.len() ==> {
                &&& (#[trigger] out[k]).wf()
                &&& out[k].same_shape(&tiles[k])
                &&& out[k]@ == denoised(
                    tiles[k]@,
                    (Params { lam, alpha0, alpha1, tau, sigma }),
                    n_iter as int,
                )
            },
{
    tiles.par_iter().map(|tile| tgv_denoise(tile, lam, alpha0, alpha1, tau, sigma, n_iter)).collect()
}

/// Denoises `u0` tile by tile: every complete `patch_size` by `patch_size`
/// tile is denoised by [`tgv_denoise`] independently of the others, the tiles
/// being worked on in parallel, and written back at its own place.
///
/// The result has the shape of `u0`. Cells outside every complete tile are
/// zero, whatever `u0` holds there; with a `patch_size` of zero there is no
/// tile and the whole result is zero. The tiles are handed to rayon's thread
/// pool, so the platform must be able to start threads.
pub fn parallel_tgv_denoise<S: Scalar>(
    u0: &Grid<S>,
    lam: S,
    alpha0: S,
    alpha1: S,
    tau: S,
    sigma: S,
    n_iter: i32,
    patch_size: usize,
) -> (out: Grid<S>)
    requires
        u0.wf(),
    ensures
        out.wf(),
        out.same_shape(u0),
        out@ == tiled_of(
            u0@,
            (Params { lam, alpha0, alpha1, tau, sigma }),
            n_iter as int,
            patch_size as int,
        ),
{
    let h = u0.height();
    let w = u0.width();
    let zero = S::zero();
    let ghost params = Params { lam, alpha0, alpha1, tau, sigma };
    if patch_size == 0 {
        let out = Grid::filled(h, w, zero);
        assert(out@ =~~= tiled_of(u0@, params, n_iter as int, patch_size as int));
        return out;
    }
    let rows = h / patch_size;
    let cols = w / patch_size;
    let tiles = split_tiles(u0, patch_size);
    let solved = denoise_tiles(&tiles, lam, alpha0, alpha1, tau, sigma, n_iter);
    let out = Grid::tabulate(h, w, |i: usize, j: usize| -> (c: S)
        requires i < h, j < w,
        ensures c == tiled_at(u0@, params, n_iter as int, patch_size as int, i as int, j as int),
        {
            let bi = i / patch_size;
            let bj = j / patch_size;
            if bi < rows && bj < cols {
                proof {
                    lemma_flat_index(bi as int, bj as int, rows as int, cols as int);
                    lemma_fundamental_div_mod(i as int, patch_size as int);
                    lemma_fundamental_div_mod(j as int, patch_size as int);
                }
                solved[bi * cols + bj].get(i % patch_size, j % patch_size)
            } else {
                zero
            }
        });
    assert(out@ =~~= tiled_of(u0@, params, n_iter as int, patch_size as int));
    out
}

} // verus!
