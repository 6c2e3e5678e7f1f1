//! Row-major two-dimensional arrays.
use vstd::prelude::*;

verus! {

/// A `height` by `width` array of cells, indexed by row and then by column.
///
/// The view of a grid is the sequence of its rows. A grid with no rows still
/// has a width, so the shape is reported by `height()` and `width()`.
pub struct Grid<T> {
    height: usize,
    width: usize,
    rows: Vec<Vec<T>>,
}

impl<T> View for Grid<T> {
    type V = Seq<Seq<T>>;

    closed spec fn view(&self) -> Seq<Seq<T>> {
        Seq::new(self.rows@.len(), |i: int| self.rows@[i]@)
    }
}

/// Whether every row of `cells` has length `width`.
pub open spec fn rectangular<T>(cells: Seq<Seq<T>>, width: nat) -> bool {
    forall|i: int| 0 <= i < cells.len() ==> (#[trigger] cells[i]).len() == width
}

/// The cells `f(i, j)`, laid out in the shape of `like`.
pub open spec fn cellwise<A, B>(like: Seq<Seq<A>>, f: spec_fn(int, int) -> B) -> Seq<Seq<B>> {
    Seq::new(like.len(), |i: int| Seq::new(like[i].len(), |j: int| f(i, j)))
}

impl<T> Grid<T> {
    /// The number of rows.
    pub closed spec fn spec_height(&self) -> usize {
        self.height
    }

    /// The number of columns.
    pub closed spec fn spec_width(&self) -> usize {
        self.width
    }

    /// The grid is well formed: it has `height()` rows of `width()` cells each.
    pub open spec fn wf(&self) -> bool {
        &&& self@.len() == self.height()
        &&& rectangular(self@, self.width() as nat)
    }

    /// Whether two grids have the same number of rows and of columns.
    pub open spec fn same_shape<U>(&self, other: &Grid<U>) -> bool {
        self.height() == other.height() && self.width() == other.width()
    }

    /// The number of rows.
    #[verifier::when_used_as_spec(spec_height)]
    pub fn height(&self) -> (h: usize)
        ensures
            h == self.height(),
    {
        self.height
    }

    /// The number of columns.
    #[verifier::when_used_as_spec(spec_width)]
    pub fn width(&self) -> (w: usize)
        ensures
            w == self.width(),
    {
        self.width
    }

    /// Makes a grid of the given rows, each of which must hold `width` cells.
    /// Returns `None` exactly when some row has another length.
    pub fn from_rows(width: usize, rows: Vec<Vec<T>>) -> (r: Option<Grid<T>>)
        ensures
            r.is_some() <==> forall|i: int| 0 <= i < rows.len() ==> (#[trigger] rows[i]).len() == width,
            r matches Some(g) ==> {
                &&& g.wf()
                &&& g.height() == rows.len()
                &&& g.width() == width
                &&& forall|i: int| 0 <= i < rows.len() ==> #[trigger] g@[i] == rows[i]@
            },
    {
        let height = rows.len();
        let mut i: usize = 0;
        while i < height
            invariant
                height == rows.len(),
                i <= height,
                forall|k: int| 0 <= k < i ==> (#[trigger] rows[k]).len() == width,
            decreases height - i,
        {
            if rows[i].len() != width {
                return None;
            }
            i += 1;
        }
        Some(Grid { height, width, rows })
    }

    /// Gives the rows of the grid back, in order.
    pub fn into_rows(self) -> (rows: Vec<Vec<T>>)
        ensures
            rows.len() == self@.len(),
            forall|i: int| 0 <= i < rows.len() ==> (#[trigger] rows[i])@ == self@[i],
    {
        self.rows
    }

    /// Builds the grid whose cell `(i, j)` is the value `f` returns for `(i, j)`.
    /// The cells are computed row by row, each row from left to right.
    pub fn tabulate<F: Fn(usize, usize) -> T>(height: usize, width: usize, f: F) -> (g: Grid<T>)
        requires
            forall|i: usize, j: usize| i < height && j < width ==> f.requires((i, j)),
        ensures
            g.wf(),
            g.height() == height,
            g.width() == width,
            forall|i: int, j: int|
                0 <= i < height && 0 <= j < width ==> f.ensures(
                    (i as usize, j as usize),
                    #[trigger] g@[i][j],
                ),
    {
        let mut rows: Vec<Vec<T>> = Vec::new();
        let mut i: usize = 0;
        while i < height
            invariant
                i <= height,
                rows.len() == i,
                forall|a: usize, b: usize| a < height && b < width ==> f.requires((a, b)),
                forall|a: int| 0 <= a < i ==> (#[trigger] rows@[a]).len() == width,
                forall|a: int, b: int|
                    0 <= a < i && 0 <= b < width ==> f.ensures(
                        (a as usize, b as usize),
                        #[trigger] rows@[a]@[b],
                    ),
            decreases height - i,
        {
            let mut row: Vec<T> = Vec::new();
            let mut j: usize = 0;
            while j < width
                invariant
                    i < height,
                    j <= width,
                    row.len() == j,
                    forall|a: usize, b: usize| a < height && b < width ==> f.requires((a, b)),
                    forall|b: int| 0 <= b < j ==> f.ensures((i, b as usize), #[trigger] row@[b]),
                decreases width - j,
            {
                row.push(f(i, j));
                j += 1;
            }
            rows.push(row);
            i += 1;
        }
        Grid { height, width, rows }
    }
}

impl<T: Copy> Grid<T> {
    /// The cell in row `i`, column `j`.
    pub fn get(&self, i: usize, j: usize) -> (cell: T)
        requires
            self.wf(),
            i < self.height(),
            j < self.width(),
        ensures
            cell == self@[i as int][j as int],
    {
        assert(self@[i as int] == self.rows@[i as int]@);
        self.rows[i][j]
    }

    /// A copy of the grid.
    pub fn duplicate(&self) -> (g: Grid<T>)
        requires
            self.wf(),
        ensures
            g.wf(),
            g.same_shape(self),
            g@ == self@,
    {
        let h = self.height;
        let w = self.width;
        let g = Grid::tabulate(h, w, |i: usize, j: usize| -> (cell: T)
            requires i < h, j < w,
            ensures cell == self@[i as int][j as int],
            { self.get(i, j) });
        assert(g@ =~~= self@);
        g
    }

    /// A grid of the given shape with every cell equal to `value`.
    pub fn filled(height: usize, width: usize, value: T) -> (g: Grid<T>)
        ensures
            g.wf(),
            g.height() == height,
            g.width() == width,
            forall|i: int, j: int|
                0 <= i < height && 0 <= j < width ==> #[trigger] g@[i][j] == value,
    {
        Grid::tabulate(height, width, |i: usize, j: usize| -> (cell: T)
            ensures cell == value,
            { value })
    }
}

} // verus!
