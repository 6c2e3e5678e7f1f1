//! Circular shifts: the periodic boundary on which every difference operator
//! of this crate rests.
use vstd::prelude::*;
use vstd::arithmetic::div_mod::lemma_fundamental_div_mod;
use vstd::arithmetic::div_mod::lemma_fundamental_div_mod_converse;
use vstd::arithmetic::div_mod::lemma_add_mod_noop_right;
use vstd::arithmetic::div_mod::lemma_mod_bound;
use vstd::arithmetic::div_mod::lemma_small_mod;
use crate::grid::Grid;

verus! {

/// The position that lands on `i` when an axis of length `n` is rotated by
/// `amount`: the position `amount` steps before `i`, wrapped around.
pub open spec fn source_index(i: int, n: int, amount: int) -> int {
    (i - amount) % n
}

/// The cells of a grid rotated by `amount` positions along `axis`.
///
/// Along axis 0 whole rows move down by `amount` (up for a negative amount);
/// along axis 1 the cells of each row move right by `amount`. What leaves one
/// end comes back at the other. Any other axis leaves the cells where they are.
pub open spec fn shifted<T>(cells: Seq<Seq<T>>, axis: usize, amount: int) -> Seq<Seq<T>> {
    if axis == 0 {
        Seq::new(cells.len(), |i: int| cells[source_index(i, cells.len() as int, amount)])
    } else if axis == 1 {
        Seq::new(
            cells.len(),
            |i: int|
                Seq::new(
                    cells[i].len(),
                    |j: int| cells[i][source_index(j, cells[i].len() as int, amount)],
                ),
        )
    } else {
        cells
    }
}

proof fn lemma_wrapped(x: int, n: int, q: int, r: int)
    requires
        0 < n,
        0 <= r < n,
        x == q * n + r,
    ensures
        x % n == r,
{
    lemma_fundamental_div_mod_converse(x, n, q, r);
}

/// Computes [`source_index`] without leaving the machine integers.
pub fn wrap_index(i: usize, n: usize, amount: i32) -> (k: usize)
    requires
        i < n,
    ensures
        k == source_index(i as int, n as int, amount as int),
        k < n,
{
    if amount >= 0 {
        let steps: usize = amount as usize;
        let m: usize = steps % n;
        proof {
            lemma_fundamental_div_mod(steps as int, n as int);
        }
        let ghost q: int = steps as int / n as int;
        if i >= m {
            proof {
                assert(i - amount == (-q) * n + (i - m)) by (nonlinear_arith)
                    requires
                        amount == n * q + m,
                ;
                lemma_wrapped(i - amount, n as int, -q, i - m);
            }
            i - m
        } else {
            proof {
                assert(i - amount == (-q - 1) * n + (i + n - m)) by (nonlinear_arith)
                    requires
                        amount == n * q + m,
                ;
                lemma_wrapped(i - amount, n as int, -q - 1, i + n - m);
            }
            i + (n - m)
        }
    } else {
        let steps: usize = (-(amount as i64)) as usize;
        let m: usize = steps % n;
        proof {
            lemma_fundamental_div_mod(steps as int, n as int);
        }
        let ghost q: int = steps as int / n as int;
        if i < n - m {
            proof {
                assert(i - amount == q * n + (i + m)) by (nonlinear_arith)
                    requires
                        -amount == n * q + m,
                ;
                lemma_wrapped(i - amount, n as int, q, i + m);
            }
            i + m
        } else {
            proof {
                assert(i - amount == (q + 1) * n + (i + m - n)) by (nonlinear_arith)
                    requires
                        -amount == n * q + m,
                ;
                lemma_wrapped(i - amount, n as int, q + 1, i + m - n);
            }
            i - (n - m)
        }
    }
}

/// Rotates the cells of `g` by `amount` positions along `axis`, wrapping the
/// cells that fall off one end onto the other.
///
/// Axis 0 runs down the rows and axis 1 along the columns; for any other axis
/// the result is a copy of `g`. A positive amount moves cells towards higher
/// indices. The amount may exceed the length of the axis.
pub fn circular_shift<T: Copy>(g: &Grid<T>, axis: usize, amount: i32) -> (r: Grid<T>)
    requires
        g.wf(),
        amount != 0,
    ensures
        r.wf(),
        r.same_shape(g),
        r@ == shifted(g@, axis, amount as int),
{
    let h = g.height();
    let w = g.width();
    let r = if axis == 0 {
        Grid::tabulate(h, w, |i: usize, j: usize| -> (c: T)
            requires i < h, j < w,
            ensures c == g@[source_index(i as int, h as int, amount as int)][j as int],
            { g.get(wrap_index(i, h, amount), j) })
    } else if axis == 1 {
        Grid::tabulate(h, w, |i: usize, j: usize| -> (c: T)
            requires i < h, j < w,
            ensures c == g@[i as int][source_index(j as int, w as int, amount as int)],
            { g.get(i, wrap_index(j, w, amount)) })
    } else {
        Grid::tabulate(h, w, |i: usize, j: usize| -> (c: T)
            requires i < h, j < w,
            ensures c == g@[i as int][j as int],
            { g.get(i, j) })
    };
    proof {
        if axis == 0 {
            assert forall|i: int| 0 <= i < h implies 0 <= #[trigger] source_index(
                i,
                h as int,
                amount as int,
            ) < h by {
                lemma_mod_bound(i - amount as int, h as int);
            }
        }
        assert(r@ =~~= shifted(g@, axis, amount as int));
    }
    r
}

/// The position that a rotation reads lies on the axis.
pub proof fn lemma_source_index_bounds(i: int, n: int, amount: int)
    requires
        0 < n,
    ensures
        0 <= source_index(i, n, amount) < n,
{
    lemma_mod_bound(i - amount, n);
}

/// Reading through a rotation by `b` and then through one by `a` is reading
/// through one by `a + b`.
pub proof fn lemma_source_index_compose(i: int, n: int, a: int, b: int)
    requires
        0 < n,
    ensures
        source_index(source_index(i, n, b), n, a) == source_index(i, n, a + b),
{
    lemma_add_mod_noop_right(-a, i - b, n);
}

/// Rotating by `a` and then by `b` along the same axis is rotating by `a + b`.
pub proof fn lemma_shift_compose<T>(cells: Seq<Seq<T>>, axis: usize, a: int, b: int)
    ensures
        shifted(shifted(cells, axis, a), axis, b) == shifted(cells, axis, a + b),
{
    let once = shifted(cells, axis, a);
    let twice = shifted(once, axis, b);
    let direct = shifted(cells, axis, a + b);
    if axis == 0 {
        let n = cells.len() as int;
        assert forall|i: int| 0 <= i < n implies #[trigger] twice[i] == direct[i] by {
            lemma_source_index_bounds(i, n, b);
            lemma_source_index_compose(i, n, a, b);
        }
        assert(twice =~= direct);
    } else if axis == 1 {
        assert forall|i: int| 0 <= i < cells.len() implies #[trigger] twice[i] =~= direct[i] by {
            let m = cells[i].len() as int;
            assert forall|j: int| 0 <= j < m implies twice[i][j] == direct[i][j] by {
                lemma_source_index_bounds(j, m, b);
                lemma_source_index_compose(j, m, a, b);
            }
        }
        assert(twice =~= direct);
    }
}

/// Rotating by zero positions changes nothing.
pub proof fn lemma_shift_none<T>(cells: Seq<Seq<T>>, axis: usize)
    ensures
        shifted(cells, axis, 0) == cells,
{
    let same = shifted(cells, axis, 0);
    if axis == 0 {
        let n = cells.len() as int;
        assert forall|i: int| 0 <= i < n implies #[trigger] same[i] == cells[i] by {
            lemma_small_mod(i as nat, n as nat);
        }
        assert(same =~= cells);
    } else if axis == 1 {
        assert forall|i: int| 0 <= i < cells.len() implies #[trigger] same[i] =~= cells[i] by {
            let m = cells[i].len() as int;
            assert forall|j: int| 0 <= j < m implies same[i][j] == cells[i][j] by {
                lemma_small_mod(j as nat, m as nat);
            }
        }
        assert(same =~= cells);
    }
}

/// A rotation is undone by the rotation of the opposite amount: the backward
/// neighbour of a cell's forward neighbour is the cell itself.
pub proof fn lemma_shift_back<T>(cells: Seq<Seq<T>>, axis: usize, amount: int)
    ensures
        shifted(shifted(cells, axis, amount), axis, -amount) == cells,
{
    lemma_shift_compose(cells, axis, amount, -amount);
    lemma_shift_none(cells, axis);
}

} // verus!
