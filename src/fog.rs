//! Fog of war: the set of landscape cells that the character has ever come
//! near. The set only grows.

use vstd::prelude::*;

verus! {

/// Half-width of the square box around the character in which landscape
/// cells are revealed.
pub const REVEAL_RADIUS: i64 = 6;

/// Whether cell `(row, col)` lies in the reveal box of a character standing
/// on cell `(char_x, char_y)`: both `|row - char_y| <= 6` and
/// `|col - char_x| <= 6` (a Chebyshev box, not a disk).
pub open spec fn in_reveal_box(row: int, col: int, char_x: int, char_y: int) -> bool {
    -REVEAL_RADIUS <= row - char_y <= REVEAL_RADIUS && -REVEAL_RADIUS <= col - char_x
        <= REVEAL_RADIUS
}

/// Whether `(row, col)` is a cell of a grid of `rows` by `cols` cells.
pub open spec fn in_grid(rows: int, cols: int, row: int, col: int) -> bool {
    0 <= row < rows && 0 <= col < cols
}

/// The cells of a `rows` by `cols` grid that one update with the character on
/// `(char_x, char_y)` reveals.
pub open spec fn reveal_box(rows: int, cols: int, char_x: int, char_y: int) -> Set<(int, int)> {
    Set::new(
        |p: (int, int)| in_grid(rows, cols, p.0, p.1) && in_reveal_box(p.0, p.1, char_x, char_y),
    )
}

/// The cells revealed on a `rows` by `cols` grid, starting from nothing, by
/// updates at each of `positions` in turn (each an `(x, y)` cell position).
pub open spec fn revealed_by(rows: int, cols: int, positions: Seq<(int, int)>) -> Set<(int, int)>
    decreases positions.len(),
{
    if positions.len() == 0 {
        Set::empty()
    } else {
        let last = positions.last();
        revealed_by(rows, cols, positions.drop_last()).union(
            reveal_box(rows, cols, last.0, last.1),
        )
    }
}

/// Reveal never shrinks: for any sequence of character positions, the cells
/// revealed after the first `j` updates include those revealed after the
/// first `i`, for every earlier `i`.
pub proof fn lemma_reveal_monotonic(rows: int, cols: int, positions: Seq<(int, int)>, i: int, j: int)
    requires
        0 <= i <= j <= positions.len(),
    ensures
        revealed_by(rows, cols, positions.take(i)).subset_of(
            revealed_by(rows, cols, positions.take(j)),
        ),
    decreases j - i,
{
    if i < j {
        lemma_reveal_monotonic(rows, cols, positions, i, j - 1);
        assert(positions.take(j).drop_last() =~= positions.take(j - 1));
    }
}

/// Reveal is exact: after one update from nothing with the character on
/// `(char_x, char_y)`, a cell `(row, col)` of the grid is revealed if and
/// only if `|row - char_y| <= 6` and `|col - char_x| <= 6`.
pub proof fn lemma_reveal_exact(rows: int, cols: int, char_x: int, char_y: int, row: int, col: int)
    requires
        in_grid(rows, cols, row, col),
    ensures
        revealed_by(rows, cols, seq![(char_x, char_y)]).contains((row, col)) <==> (-REVEAL_RADIUS
            <= row - char_y <= REVEAL_RADIUS && -REVEAL_RADIUS <= col - char_x <= REVEAL_RADIUS),
{
    let single = seq![(char_x, char_y)];
    assert(single.len() == 1);
    assert(single.last() == (char_x, char_y));
    assert(single.drop_last() =~= Seq::<(int, int)>::empty());
    assert(revealed_by(rows, cols, Seq::<(int, int)>::empty()) == Set::<(int, int)>::empty());
    assert(revealed_by(rows, cols, single) == Set::<(int, int)>::empty().union(
        reveal_box(rows, cols, char_x, char_y),
    ));
}

/// The landscape cells revealed so far, as `(row, col)` pairs, over a grid of
/// fixed size.
pub struct RevealTracker {
    rows: usize,
    cols: usize,
    /// Row-major: cell `(row, col)` is at `row * cols + col`.
    revealed: Vec<bool>,
}

proof fn lemma_cell_index_bound(row: int, col: int, rows: int, cols: int)
    requires
        0 <= row < rows,
        0 <= col < cols,
    ensures
        0 <= row * cols + col < rows * cols,
{
    assert(0 <= row * cols + col < rows * cols) by (nonlinear_arith)
        requires 0 <= row < rows, 0 <= col < cols;
}

proof fn lemma_cell_index_unique(r1: int, c1: int, r2: int, c2: int, cols: int)
    requires
        0 <= r1,
        0 <= r2,
        0 <= c1 < cols,
        0 <= c2 < cols,
        r1 * cols + c1 == r2 * cols + c2,
    ensures
        r1 == r2,
        c1 == c2,
{
    assert(r1 == r2) by (nonlinear_arith)
        requires 0 <= r1, 0 <= r2, 0 <= c1 < cols, 0 <= c2 < cols, r1 * cols + c1 == r2 * cols + c2;
}

impl View for RevealTracker {
    type V = Set<(int, int)>;

    closed spec fn view(&self) -> Set<(int, int)> {
        Set::new(
            |p: (int, int)|
                in_grid(self.rows as int, self.cols as int, p.0, p.1)
                    && self.revealed@[p.0 * self.cols + p.1],
        )
    }
}

impl RevealTracker {
    #[verifier::type_invariant]
    spec fn inv(self) -> bool {
        &&& self.revealed@.len() == self.rows * self.cols
        &&& self.rows * self.cols <= usize::MAX
    }

    /// Number of rows of the tracked grid.
    pub closed spec fn spec_rows(&self) -> nat {
        self.rows as nat
    }

    /// Number of columns of the tracked grid.
    pub closed spec fn spec_cols(&self) -> nat {
        self.cols as nat
    }

    /// A tracker for a grid of `rows` by `cols` cells with nothing revealed.
    pub fn new(rows: usize, cols: usize) -> (r: RevealTracker)
        requires
            rows * cols <= usize::MAX,
        ensures
            r@ == Set::<(int, int)>::empty(),
            r.spec_rows() == rows,
            r.spec_cols() == cols,
    {
        let n = rows * cols;
        let mut revealed: Vec<bool> = Vec::new();
        let mut i: usize = 0;
        while i < n
            invariant
                i <= n,
                revealed@.len() == i,
                forall|k: int| 0 <= k < i ==> !revealed@[k],
            decreases n - i,
        {
            revealed.push(false);
            i = i + 1;
        }
        let r = RevealTracker { rows, cols, revealed };
        assert(r@ =~= Set::<(int, int)>::empty()) by {
            assert forall|p: (int, int)| !r@.contains(p) by {
                if in_grid(rows as int, cols as int, p.0, p.1) {
                    lemma_cell_index_bound(p.0, p.1, rows as int, cols as int);
                }
            }
        }
        r
    }

    /// Number of rows of the tracked grid.
    pub fn rows(&self) -> (r: usize)
        ensures
            r == self.spec_rows(),
    {
        self.rows
    }

    /// Number of columns of the tracked grid.
    pub fn cols(&self) -> (r: usize)
        ensures
            r == self.spec_cols(),
    {
        self.cols
    }

    /// Reveals every grid cell within the reveal box of a character on cell
    /// `(char_x, char_y)`; cells revealed before stay revealed.
    pub fn update(&mut self, char_x: i64, char_y: i64)
        ensures
            old(self)@.subset_of(final(self)@),
            final(self)@ == old(self)@.union(
                reveal_box(
                    old(self).spec_rows() as int,
                    old(self).spec_cols() as int,
                    char_x as int,
                    char_y as int,
                ),
            ),
            final(self).spec_rows() == old(self).spec_rows(),
            final(self).spec_cols() == old(self).spec_cols(),
    {
        proof {
            use_type_invariant(&*self);
        }
        let rows = self.rows;
        let cols = self.cols;
        let mut cells = self.revealed.clone();
        let ghost before = self.revealed@;
        assert(cells@ =~= before);
        let n = cells.len();
        let mut row: usize = 0;
        while row < rows
            invariant
                n == rows * cols,
                cells@.len() == n,
                row <= rows,
                forall|r: int, c: int|
                    #![trigger cells@[r * cols + c]]
                    in_grid(rows as int, cols as int, r, c) ==> cells@[r * cols + c] == (
                    before[r * cols + c] || (r < row && in_reveal_box(
                        r,
                        c,
                        char_x as int,
                        char_y as int,
                    ))),
            decreases rows - row,
        {
            let mut col: usize = 0;
            while col < cols
                invariant
                            n == rows * cols,
                cells@.len() == n,
                    row < rows,
                    col <= cols,
                    forall|r: int, c: int|
                        #![trigger cells@[r * cols + c]]
                        in_grid(rows as int, cols as int, r, c) ==> cells@[r * cols + c]
                            == (before[r * cols + c] || ((r < row || (r == row && c < col))
                            && in_reveal_box(r, c, char_x as int, char_y as int))),
                decreases cols - col,
            {
                let dr: i128 = row as i128 - char_y as i128;
                let dc: i128 = col as i128 - char_x as i128;
                let radius = REVEAL_RADIUS as i128;
                if -radius <= dr && dr <= radius && -radius <= dc && dc <= radius {
                    proof {
                        lemma_cell_index_bound(row as int, col as int, rows as int, cols as int);
                    }
                    let idx = row * cols + col;
                    let ghost prev = cells@;
                    cells.set(idx, true);
                    proof {
                        assert forall|r: int, c: int|
                            #![trigger cells@[r * cols + c]]
                            in_grid(rows as int, cols as int, r, c) implies cells@[r
                                * cols + c] == (before[r * cols + c] || ((r < row || (r == row
                                && c < col + 1)) && in_reveal_box(
                                r,
                                c,
                                char_x as int,
                                char_y as int,
                            ))) by {
                            lemma_cell_index_bound(r, c, rows as int, cols as int);
                            if r * cols + c == idx as int {
                                lemma_cell_index_unique(r, c, row as int, col as int, cols as int);
                            } else {
                                assert(cells@[r * cols + c] == prev[r * cols + c]);
                            }
                        }
                    }
                }
                col = col + 1;
            }
            row = row + 1;
        }
        self.revealed = cells;
        proof {
            assert(self@ =~= old(self)@.union(
                reveal_box(rows as int, cols as int, char_x as int, char_y as int),
            )) by {
                assert forall|p: (int, int)|
                    #![trigger self@.contains(p)]
                    self@.contains(p) == old(self)@.union(
                        reveal_box(rows as int, cols as int, char_x as int, char_y as int),
                    ).contains(p) by {
                    if in_grid(rows as int, cols as int, p.0, p.1) {
                        assert(cells@[p.0 * cols + p.1] == (before[p.0 * cols + p.1]
                            || in_reveal_box(p.0, p.1, char_x as int, char_y as int)));
                    }
                }
            }
        }
    }

    /// Whether cell `(row, col)` has been revealed; cells outside the grid
    /// never are.
    pub fn is_revealed(&self, row: usize, col: usize) -> (r: bool)
        ensures
            r == self@.contains((row as int, col as int)),
    {
        proof {
            use_type_invariant(self);
        }
        if row < self.rows && col < self.cols {
            proof {
                lemma_cell_index_bound(row as int, col as int, self.rows as int, self.cols as int);
            }
            self.revealed[row * self.cols + col]
        } else {
            false
        }
    }
}

} // verus!
