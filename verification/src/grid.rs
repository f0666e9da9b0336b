//! Rectangular two-dimensional grids: construction, neighbour lookup,
//! coordinate search, transposition, rotation, and element-wise addition.
//!
//! A grid is a `Vec<Vec<T>>` in row-major order. Every operation that depends
//! on the grid's shape requires the grid to be rectangular: all rows have the
//! same length.

use vstd::prelude::*;
use vstd::std_specs::cmp::PartialEqSpec;
use vstd::std_specs::ops::AddSpec;

verus! {

/// The mathematical view of a grid: the sequence of its rows' views.
pub open spec fn grid_view<T>(g: &Vec<Vec<T>>) -> Seq<Seq<T>> {
    Seq::new(g@.len(), |i: int| g@[i]@)
}

/// A grid is rectangular when every row has the length of the first row.
pub open spec fn is_rectangular<T>(g: Seq<Seq<T>>) -> bool {
    forall|i: int| 0 <= i < g.len() ==> (#[trigger] g[i]).len() == g[0].len()
}

/// A cell holds a default value: either a result of `T::default()` or a
/// clone of one.
pub open spec fn is_default_cell<T: Default + Clone>(c: T) -> bool {
    exists|d: T| #[trigger] call_ensures(T::default, (), d) && cloned(d, c)
}

/// Allocates a grid with `ni` rows and `nj` columns, every cell set to `T`'s
/// default value. Zero rows yield an empty grid; zero columns yield `ni`
/// empty rows.
pub fn new_grid<T: Default + Clone>(ni: usize, nj: usize) -> (g: Vec<Vec<T>>)
    ensures
        g@.len() == ni,
        forall|i: int| 0 <= i < ni ==> (#[trigger] g@[i])@.len() == nj,
        forall|i: int, j: int|
            0 <= i < ni && 0 <= j < nj ==> is_default_cell(#[trigger] g@[i]@[j]),
{
    let mut g: Vec<Vec<T>> = Vec::new();
    let mut i: usize = 0;
    while i < ni
        invariant
            i <= ni,
            g@.len() == i,
            forall|r: int| 0 <= r < i ==> (#[trigger] g@[r])@.len() == nj,
            forall|r: int, c: int|
                0 <= r < i && 0 <= c < nj ==> is_default_cell(#[trigger] g@[r]@[c]),
        decreases ni - i,
    {
        let d = T::default();
        let row: Vec<T> = vec![d; nj];
        proof {
            assert forall|c: int| 0 <= c < nj implies is_default_cell(#[trigger] row@[c]) by {
                assert(cloned(d, row@[c]));
            }
        }
        g.push(row);
        i += 1;
    }
    g
}

/// The values of the up to eight cells adjacent to a reference cell, tagged
/// by compass direction. A direction is `None` exactly when that neighbour
/// would fall outside the grid's bounds.
#[derive(Debug)]
pub struct GridNeighbours<T: Default + Copy> {
    pub n: Option<T>,
    pub ne: Option<T>,
    pub e: Option<T>,
    pub se: Option<T>,
    pub s: Option<T>,
    pub sw: Option<T>,
    pub w: Option<T>,
    pub nw: Option<T>,
}

/// The neighbour set of cell `(i, j)` of grid `g`: for each compass
/// direction, the adjacent cell's value if it lies within bounds, else
/// `None`.
pub open spec fn neighbours_spec<T: Default + Copy>(g: Seq<Seq<T>>, i: int, j: int) -> GridNeighbours<T> {
    let ni: int = g.len() as int;
    let nj: int = g[0].len() as int;
    GridNeighbours {
        n: if i > 0 { Some(g[i - 1][j]) } else { None },
        ne: if i > 0 && j + 1 < nj { Some(g[i - 1][j + 1]) } else { None },
        e: if j + 1 < nj { Some(g[i][j + 1]) } else { None },
        se: if i + 1 < ni && j + 1 < nj { Some(g[i + 1][j + 1]) } else { None },
        s: if i + 1 < ni { Some(g[i + 1][j]) } else { None },
        sw: if i + 1 < ni && j > 0 { Some(g[i + 1][j - 1]) } else { None },
        w: if j > 0 { Some(g[i][j - 1]) } else { None },
        nw: if i > 0 && j > 0 { Some(g[i - 1][j - 1]) } else { None },
    }
}

impl<T: Default + Copy> Default for GridNeighbours<T> {
    /// The empty neighbour set: every direction absent.
    fn default() -> (r: Self)
        ensures
            r.n is None,
            r.ne is None,
            r.e is None,
            r.se is None,
            r.s is None,
            r.sw is None,
            r.w is None,
            r.nw is None,
    {
        GridNeighbours {
            n: None,
            ne: None,
            e: None,
            se: None,
            s: None,
            sw: None,
            w: None,
            nw: None,
        }
    }
}

impl<T: Default + Copy> GridNeighbours<T> {
    /// Returns the neighbour set of cell `(i, j)` of `grid`. The coordinate
    /// must be valid and the grid rectangular.
    pub fn get_neighbours_for_coord(grid: &Vec<Vec<T>>, i: usize, j: usize) -> (r: Self)
        requires
            is_rectangular(grid_view(grid)),
            i < grid@.len(),
            j < grid@[0]@.len(),
        ensures
            r == neighbours_spec(grid_view(grid), i as int, j as int),
    {
        let mut neighbours = GridNeighbours::<T>::default();
        let ni: usize = grid.len();
        let nj: usize = grid[0].len();

        neighbours.w = if j > 0 { Some(grid[i][j - 1]) } else { None };
        neighbours.e = if j < nj - 1 { Some(grid[i][j + 1]) } else { None };
        if i > 0 {
            neighbours.nw = if j > 0 { Some(grid[i - 1][j - 1]) } else { None };
            neighbours.n = Some(grid[i - 1][j]);
            neighbours.ne = if j < nj - 1 { Some(grid[i - 1][j + 1]) } else { None };
        }
        if i < ni - 1 {
            neighbours.sw = if j > 0 { Some(grid[i + 1][j - 1]) } else { None };
            neighbours.s = Some(grid[i + 1][j]);
            neighbours.se = if j < nj - 1 { Some(grid[i + 1][j + 1]) } else { None };
        }
        neighbours
    }

    /// Returns the neighbouring cells as a vector of eight entries, moving
    /// clockwise from north: N, NE, E, SE, S, SW, W, NW.
    pub fn into_vec(self) -> (r: Vec<Option<T>>)
        ensures
            r@ == seq![self.n, self.ne, self.e, self.se, self.s, self.sw, self.w, self.nw],
    {
        vec![self.n, self.ne, self.e, self.se, self.s, self.sw, self.w, self.nw]
    }
}

/// How many of the eight directions of a neighbour set are present.
pub open spec fn present_count<T: Default + Copy>(ns: GridNeighbours<T>) -> int {
    (if ns.n is Some { 1int } else { 0int }) + (if ns.ne is Some { 1int } else { 0int })
        + (if ns.e is Some { 1int } else { 0int }) + (if ns.se is Some { 1int } else { 0int })
        + (if ns.s is Some { 1int } else { 0int }) + (if ns.sw is Some { 1int } else { 0int })
        + (if ns.w is Some { 1int } else { 0int }) + (if ns.nw is Some { 1int } else { 0int })
}

/// `(i, j)` lies on the grid's boundary row and boundary column at once.
pub open spec fn is_corner<T>(g: Seq<Seq<T>>, i: int, j: int) -> bool {
    (i == 0 || i == g.len() - 1) && (j == 0 || j == g[0].len() - 1)
}

/// `(i, j)` touches no boundary row or column.
pub open spec fn is_interior<T>(g: Seq<Seq<T>>, i: int, j: int) -> bool {
    0 < i < g.len() - 1 && 0 < j < g[0].len() - 1
}

/// In a grid with at least two rows and two columns, a corner cell has
/// exactly three neighbours, a non-corner edge cell exactly five, and an
/// interior cell exactly eight.
pub proof fn lemma_neighbour_counts<T: Default + Copy>(g: Seq<Seq<T>>, i: int, j: int)
    requires
        is_rectangular(g),
        2 <= g.len(),
        2 <= g[0].len(),
        0 <= i < g.len(),
        0 <= j < g[0].len(),
    ensures
        is_corner(g, i, j) ==> present_count(neighbours_spec(g, i, j)) == 3,
        !is_corner(g, i, j) && !is_interior(g, i, j) ==> present_count(
            neighbours_spec(g, i, j),
        ) == 5,
        is_interior(g, i, j) ==> present_count(neighbours_spec(g, i, j)) == 8,
{
}

/// `c` names a cell of `g`.
pub open spec fn valid_coord<T>(g: Seq<Seq<T>>, c: (usize, usize)) -> bool {
    c.0 < g.len() && c.1 < g[c.0 as int].len()
}

/// Strict row-major order on coordinates.
pub open spec fn coord_lt(a: (usize, usize), b: (usize, usize)) -> bool {
    a.0 < b.0 || (a.0 == b.0 && a.1 < b.1)
}

/// The cell named by `c` equals `needle` under `T`'s equality.
pub open spec fn cell_matches<T: PartialEq>(g: Seq<Seq<T>>, needle: T, c: (usize, usize)) -> bool {
    valid_coord(g, c) && g[c.0 as int][c.1 as int].eq_spec(&needle)
}

/// Scans the grid row by row, and each row left to right, and returns the
/// coordinates of every cell equal to `needle`, in strict row-major order.
/// No match is not an error: the result is then empty.
pub fn find_coords_for<T: Eq + PartialEq>(haystack: &Vec<Vec<T>>, needle: T) -> (r: Vec<
    (usize, usize),
>)
    ensures
        forall|k: int| 0 <= k < r@.len() ==> valid_coord(grid_view(haystack), #[trigger] r@[k]),
        forall|k: int, l: int| 0 <= k < l < r@.len() ==> coord_lt(r@[k], r@[l]),
        T::obeys_eq_spec() ==> forall|k: int|
            0 <= k < r@.len() ==> cell_matches(grid_view(haystack), needle, #[trigger] r@[k]),
        T::obeys_eq_spec() ==> forall|c: (usize, usize)|
            cell_matches(grid_view(haystack), needle, c) ==> r@.contains(c),
{
    let ghost g = grid_view(haystack);
    let mut r: Vec<(usize, usize)> = Vec::new();
    let mut i: usize = 0;
    while i < haystack.len()
        invariant
            i <= haystack@.len(),
            g == grid_view(haystack),
            forall|k: int| 0 <= k < r@.len() ==> valid_coord(g, #[trigger] r@[k]),
            forall|k: int, l: int| 0 <= k < l < r@.len() ==> coord_lt(r@[k], r@[l]),
            forall|k: int| 0 <= k < r@.len() ==> (#[trigger] r@[k]).0 < i,
            T::obeys_eq_spec() ==> forall|k: int|
                0 <= k < r@.len() ==> cell_matches(g, needle, #[trigger] r@[k]),
            T::obeys_eq_spec() ==> forall|c: (usize, usize)|
                cell_matches(g, needle, c) && c.0 < i ==> r@.contains(c),
        decreases haystack@.len() - i,
    {
        let row_len: usize = haystack[i].len();
        let mut j: usize = 0;
        while j < row_len
            invariant
                i < haystack@.len(),
                j <= row_len,
                row_len == g[i as int].len(),
                g == grid_view(haystack),
                forall|k: int| 0 <= k < r@.len() ==> valid_coord(g, #[trigger] r@[k]),
                forall|k: int, l: int| 0 <= k < l < r@.len() ==> coord_lt(r@[k], r@[l]),
                forall|k: int| 0 <= k < r@.len() ==> coord_lt(#[trigger] r@[k], (i, j)),
                forall|k: int| 0 <= k < r@.len() ==> (#[trigger] r@[k]).0 <= i,
                T::obeys_eq_spec() ==> forall|k: int|
                    0 <= k < r@.len() ==> cell_matches(g, needle, #[trigger] r@[k]),
                T::obeys_eq_spec() ==> forall|c: (usize, usize)|
                    cell_matches(g, needle, c) && (c.0 < i || (c.0 == i && c.1 < j))
                        ==> r@.contains(c),
            decreases row_len - j,
        {
            let ghost old_r = r@;
            if haystack[i][j] == needle {
                r.push((i, j));
            }
            proof {
                if T::obeys_eq_spec() {
                    assert forall|c: (usize, usize)|
                        cell_matches(g, needle, c) && (c.0 < i || (c.0 == i && c.1 < j
                            + 1)) implies r@.contains(c) by {
                        if c.0 < i || (c.0 == i && c.1 < j) {
                            assert(old_r.contains(c));
                            let k = choose|k: int| 0 <= k < old_r.len() && old_r[k] == c;
                            assert(r@[k] == c);
                            assert(r@.contains(c));
                        } else {
                            assert(c == (i, j));
                            assert(r@[r@.len() - 1] == c);
                            assert(r@.contains(c));
                        }
                    }
                }
            }
            j += 1;
        }
        i += 1;
    }
    r
}

/// The transpose of a grid: row `j`, column `i` of the result is row `i`,
/// column `j` of the input.
pub open spec fn transpose_spec<T>(g: Seq<Seq<T>>) -> Seq<Seq<T>> {
    Seq::new(g[0].len(), |j: int| Seq::new(g.len(), |i: int| g[i][j]))
}

/// Transposes the grid: the result has one row per input column, and its row
/// `j`, column `i` holds the input's row `i`, column `j`. The input must be
/// non-empty and rectangular.
#[verifier::loop_isolation(false)]
pub fn transpose<T>(v: Vec<Vec<T>>) -> (r: Vec<Vec<T>>)
    requires
        v@.len() > 0,
        is_rectangular(grid_view(&v)),
    ensures
        grid_view(&r) == transpose_spec(grid_view(&v)),
        r@.len() == grid_view(&v)[0].len(),
        forall|j: int| 0 <= j < r@.len() ==> (#[trigger] r@[j])@.len() == v@.len(),
{
    let ghost gv = grid_view(&v);
    let rows: usize = v.len();
    let cols: usize = v[0].len();
    let mut out: Vec<Vec<T>> = Vec::new();
    let mut j: usize = 0;
    while j < cols
        invariant
            j <= cols,
            out@.len() == j,
            forall|b: int| 0 <= b < j ==> (#[trigger] out@[b])@.len() == 0,
        decreases cols - j,
    {
        out.push(Vec::new());
        j += 1;
    }
    let mut v = v;
    let mut i: usize = 0;
    while i < rows
        invariant
            i <= rows,
            v@.len() == rows - i,
            forall|a: int| 0 <= a < rows - i ==> (#[trigger] v@[a])@ == gv[i + a],
            out@.len() == cols,
            forall|b: int| 0 <= b < cols ==> (#[trigger] out@[b])@.len() == i,
            forall|b: int, a: int|
                0 <= b < cols && 0 <= a < i ==> out@[b]@[a] == gv[a][b],
        decreases rows - i,
    {
        let mut row = v.remove(0);
        assert(row@ == gv[i as int]);
        assert(row@.len() == cols);
        let mut jj: usize = cols;
        while jj > 0
            invariant
                jj <= cols,
                row@ == gv[i as int].subrange(0, jj as int),
                out@.len() == cols,
                forall|b: int| 0 <= b < jj ==> (#[trigger] out@[b])@.len() == i,
                forall|b: int| jj <= b < cols ==> (#[trigger] out@[b])@.len() == i + 1,
                forall|b: int, a: int|
                    0 <= b < cols && 0 <= a < i ==> out@[b]@[a] == gv[a][b],
                forall|b: int| jj <= b < cols ==> out@[b]@[i as int] == gv[i as int][b],
        decreases jj,
        {
            let x = row.pop().unwrap();
            assert(x == gv[i as int][jj - 1]);
            out[jj - 1].push(x);
            jj -= 1;
        }
        i += 1;
    }
    proof {
        assert(grid_view(&out) =~~= transpose_spec(gv));
    }
    out
}

/// Transposing a non-empty rectangular grid twice gives the grid back.
pub proof fn lemma_transpose_involutive<T>(g: Seq<Seq<T>>)
    requires
        is_rectangular(g),
        g.len() > 0,
        g[0].len() > 0,
    ensures
        transpose_spec(transpose_spec(g)) == g,
{
    assert(transpose_spec(transpose_spec(g)) =~~= g);
}

/// The grid turned a quarter turn clockwise: the input's first column, read
/// top to bottom, becomes the result's first row, read left to right.
pub open spec fn rotate_spec<T>(g: Seq<Seq<T>>) -> Seq<Seq<T>> {
    Seq::new(g[0].len(), |j: int| Seq::new(g.len(), |k: int| g[g.len() - 1 - k][j]))
}

/// Rotates the grid 90 degrees clockwise: the result's row `j` holds the
/// input's column `j` read bottom to top. Equivalent to transposing and then
/// reversing each row. The input must be non-empty and rectangular.
#[verifier::loop_isolation(false)]
pub fn rotate_clockwise_90<T: Default + Copy>(grid: &Vec<Vec<T>>) -> (r: Vec<Vec<T>>)
    requires
        grid@.len() > 0,
        is_rectangular(grid_view(grid)),
    ensures
        grid_view(&r) == rotate_spec(grid_view(grid)),
        r@.len() == grid@[0]@.len(),
        forall|j: int| 0 <= j < r@.len() ==> (#[trigger] r@[j])@.len() == grid@.len(),
{
    let ghost gv = grid_view(grid);
    let rows: usize = grid.len();
    let cols: usize = grid[0].len();
    let mut out: Vec<Vec<T>> = Vec::new();
    let mut j: usize = 0;
    while j < cols
        invariant
            j <= cols,
            out@.len() == j,
            forall|b: int| 0 <= b < j ==> (#[trigger] out@[b])@.len() == rows,
            forall|b: int, k: int|
                0 <= b < j && 0 <= k < rows ==> out@[b]@[k] == gv[rows - 1 - k][b],
        decreases cols - j,
    {
        let mut newrow: Vec<T> = Vec::new();
        let mut k: usize = 0;
        while k < rows
            invariant
                k <= rows,
                newrow@.len() == k,
                forall|a: int| 0 <= a < k ==> newrow@[a] == gv[rows - 1 - a][j as int],
            decreases rows - k,
        {
            proof {
                assert(gv[rows - 1 - k as int] == grid@[rows - 1 - k as int]@);
                assert(gv[rows - 1 - k as int].len() == cols);
            }
            newrow.push(grid[rows - 1 - k][j]);
            k += 1;
        }
        out.push(newrow);
        j += 1;
    }
    proof {
        assert(grid_view(&out) =~~= rotate_spec(gv));
    }
    out
}

/// A clockwise quarter turn is a transposition followed by reversing each
/// row.
pub proof fn lemma_rotate_is_reversed_transpose<T>(g: Seq<Seq<T>>)
    requires
        is_rectangular(g),
        g.len() > 0,
    ensures
        rotate_spec(g).len() == transpose_spec(g).len(),
        forall|j: int|
            0 <= j < rotate_spec(g).len() ==> #[trigger] rotate_spec(g)[j] == transpose_spec(
                g,
            )[j].reverse(),
{
    assert forall|j: int|
        0 <= j < rotate_spec(g).len() implies #[trigger] rotate_spec(g)[j] == transpose_spec(
        g,
    )[j].reverse() by {
        assert(rotate_spec(g)[j] =~= transpose_spec(g)[j].reverse());
    }
}

/// Rotating a non-empty rectangular grid clockwise four times gives the grid
/// back.
pub proof fn lemma_rotate_four_times<T>(g: Seq<Seq<T>>)
    requires
        is_rectangular(g),
        g.len() > 0,
        g[0].len() > 0,
    ensures
        rotate_spec(rotate_spec(rotate_spec(rotate_spec(g)))) == g,
{
    let r1 = rotate_spec(g);
    let r2 = rotate_spec(r1);
    let r3 = rotate_spec(r2);
    assert(rotate_spec(r3) =~~= g);
}

/// Adds two identically shaped grids cell by cell: the result's row `i`,
/// column `j` is `grid1[i][j] + grid2[i][j]` under `T`'s addition. The
/// shapes must agree, and each addition must satisfy `T`'s precondition
/// (for integers: it must not overflow).
#[verifier::loop_isolation(false)]
pub fn add_grids<T: core::ops::Add<Output = T> + Copy>(
    grid1: Vec<Vec<T>>,
    grid2: Vec<Vec<T>>,
) -> (r: Vec<Vec<T>>)
    requires
        grid1@.len() == grid2@.len(),
        forall|i: int|
            0 <= i < grid1@.len() ==> (#[trigger] grid1@[i])@.len() == grid2@[i]@.len(),
        forall|i: int, j: int|
            0 <= i < grid1@.len() && 0 <= j < grid1@[i]@.len() ==> (#[trigger] grid1@[i]@[j]).add_req(
                grid2@[i]@[j],
            ),
    ensures
        r@.len() == grid1@.len(),
        forall|i: int| 0 <= i < r@.len() ==> (#[trigger] r@[i])@.len() == grid1@[i]@.len(),
        forall|i: int, j: int|
            0 <= i < r@.len() && 0 <= j < r@[i]@.len() ==> call_ensures(
                T::add,
                (grid1@[i]@[j], grid2@[i]@[j]),
                #[trigger] r@[i]@[j],
            ),
        T::obeys_add_spec() ==> forall|i: int, j: int|
            0 <= i < r@.len() && 0 <= j < r@[i]@.len() ==> #[trigger] r@[i]@[j]
                == grid1@[i]@[j].add_spec(grid2@[i]@[j]),
{
    let mut out: Vec<Vec<T>> = Vec::new();
    let mut i: usize = 0;
    while i < grid1.len()
        invariant
            i <= grid1@.len(),
            out@.len() == i,
            forall|a: int| 0 <= a < i ==> (#[trigger] out@[a])@.len() == grid1@[a]@.len(),
            forall|a: int, b: int|
                0 <= a < i && 0 <= b < out@[a]@.len() ==> call_ensures(
                    T::add,
                    (grid1@[a]@[b], grid2@[a]@[b]),
                    #[trigger] out@[a]@[b],
                ),
            T::obeys_add_spec() ==> forall|a: int, b: int|
                0 <= a < i && 0 <= b < out@[a]@.len() ==> #[trigger] out@[a]@[b]
                    == grid1@[a]@[b].add_spec(grid2@[a]@[b]),
        decreases grid1@.len() - i,
    {
        let mut newrow: Vec<T> = Vec::new();
        let mut j: usize = 0;
        while j < grid1[i].len()
            invariant
                i < grid1@.len(),
                j <= grid1@[i as int]@.len(),
                newrow@.len() == j,
                forall|b: int|
                    0 <= b < j ==> call_ensures(
                        T::add,
                        (grid1@[i as int]@[b], grid2@[i as int]@[b]),
                        #[trigger] newrow@[b],
                    ),
                T::obeys_add_spec() ==> forall|b: int|
                    0 <= b < j ==> #[trigger] newrow@[b] == grid1@[i as int]@[b].add_spec(
                        grid2@[i as int]@[b],
                    ),
            decreases grid1@[i as int]@.len() - j,
        {
            let sum = grid1[i][j] + grid2[i][j];
            newrow.push(sum);
            j += 1;
        }
        out.push(newrow);
        i += 1;
    }
    out
}

} // verus!
