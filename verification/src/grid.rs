//! The board: a square of cells.

use vstd::prelude::*;

verus! {

/// What a cell of the board holds.
#[derive(Copy, Clone, Debug, PartialEq, Eq, Structural)]
pub enum Cell {
    /// Nothing: a unit may step here.
    Empty,
    /// Terrain: impassable, and there for good.
    Terrain,
    /// The unit with the given id.
    Occupied(u64),
}

/// A square board, held row after row in one flat array.
#[derive(Debug)]
pub struct Grid {
    size: usize,
    cells: Vec<Cell>,
}

/// The rows `rows` with the cell of row `x`, column `y` replaced by `cell`.
pub open spec fn with_cell(rows: Seq<Seq<Cell>>, x: int, y: int, cell: Cell) -> Seq<Seq<Cell>> {
    rows.update(x, rows[x].update(y, cell))
}

/// Whether `rows` are `n` rows of `n` cells each.
pub open spec fn is_square(rows: Seq<Seq<Cell>>, n: nat) -> bool {
    &&& rows.len() == n
    &&& forall|x: int| 0 <= x < n ==> (#[trigger] rows[x]).len() == n
}

/// Replacing one cell of a square board leaves it a square and changes no other
/// cell.
pub proof fn lemma_with_cell(rows: Seq<Seq<Cell>>, n: nat, x: int, y: int, cell: Cell)
    requires
        is_square(rows, n),
        0 <= x < n,
        0 <= y < n,
    ensures
        is_square(with_cell(rows, x, y, cell), n),
        forall|a: int, b: int|
            0 <= a < n && 0 <= b < n ==> (#[trigger] with_cell(rows, x, y, cell)[a][b]) == (if a == x
                && b == y {
                cell
            } else {
                rows[a][b]
            }),
{
}

/// A cell inside a board of side `n` has a place of its own in the flat array.
proof fn lemma_flat_index(n: int, x: int, y: int)
    requires
        0 <= x < n,
        0 <= y < n,
    ensures
        0 <= x * n + y < n * n,
{
    assert(x * n + y < n * n) by (nonlinear_arith)
        requires
            0 <= x < n,
            0 <= y < n,
    ;
    assert(0 <= x * n) by (nonlinear_arith)
        requires
            0 <= x < n,
    ;
}

/// Two cells inside a board of side `n` on the same place of the flat array are
/// one cell.
proof fn lemma_flat_index_injective(n: int, x1: int, y1: int, x2: int, y2: int)
    requires
        0 <= x1 < n,
        0 <= y1 < n,
        0 <= x2 < n,
        0 <= y2 < n,
        x1 * n + y1 == x2 * n + y2,
    ensures
        x1 == x2,
        y1 == y2,
{
    assert(x1 == x2) by (nonlinear_arith)
        requires
            0 <= x1 < n,
            0 <= y1 < n,
            0 <= x2 < n,
            0 <= y2 < n,
            x1 * n + y1 == x2 * n + y2,
    ;
}

impl View for Grid {
    type V = Seq<Seq<Cell>>;

    /// The board as rows of cells: `self@[x][y]` is the cell of row `x`, column `y`.
    closed spec fn view(&self) -> Seq<Seq<Cell>> {
        Seq::new(
            self.size as nat,
            |x: int| Seq::new(self.size as nat, |y: int| self.cells@[x * self.size + y]),
        )
    }
}

impl Grid {
    #[verifier::type_invariant]
    spec fn well_formed(self) -> bool {
        self.cells.len() == self.size * self.size
    }

    /// The view of every board is a square whose side a `usize` holds.
    pub proof fn lemma_view_is_square(self)
        ensures
            is_square(self@, self@.len()),
            self@.len() <= usize::MAX,
    {
    }

    /// Whether row `x`, column `y` lies on the board.
    pub open spec fn contains(&self, x: int, y: int) -> bool {
        0 <= x < self@.len() && 0 <= y < self@.len()
    }

    /// Creates a board of `size` rows and columns, all cells empty, or `None`
    /// where the number of cells exceeds what a `usize` holds.
    pub fn new(size: usize) -> (g: Option<Grid>)
        ensures
            g is Some <==> size * size <= usize::MAX,
            g matches Some(grid) ==> {
                &&& grid@.len() == size
                &&& forall|x: int, y: int|
                    0 <= x < size && 0 <= y < size ==> (#[trigger] grid@[x][y]) == Cell::Empty
            },
    {
        let count = match size.checked_mul(size) {
            Some(n) => n,
            None => {
                return None;
            },
        };
        let mut cells: Vec<Cell> = Vec::new();
        let mut i: usize = 0;
        while i < count
            invariant
                i <= count,
                cells.len() == i,
                forall|j: int| 0 <= j < i ==> cells[j] == Cell::Empty,
            decreases count - i,
        {
            cells.push(Cell::Empty);
            i += 1;
        }
        let grid = Grid { size, cells };
        assert forall|x: int, y: int| 0 <= x < size && 0 <= y < size implies (#[trigger] grid@[x][y])
            == Cell::Empty by {
            lemma_flat_index(size as int, x, y);
        }
        Some(grid)
    }

    /// Returns the number of rows, which is the number of columns.
    pub fn size(&self) -> (n: usize)
        ensures
            n == self@.len(),
    {
        self.size
    }

    /// Returns the cell of row `x`, column `y`, or `None` where that lies off the
    /// board.
    pub fn get(&self, x: usize, y: usize) -> (c: Option<Cell>)
        ensures
            c == (if self.contains(x as int, y as int) {
                Some(self@[x as int][y as int])
            } else {
                None
            }),
    {
        if x >= self.size || y >= self.size {
            return None;
        }
        proof {
            use_type_invariant(self);
            lemma_flat_index(self.size as int, x as int, y as int);
        }
        Some(self.cells[x * self.size + y])
    }

    /// Puts `cell` into row `x`, column `y` and tells whether that lies on the
    /// board. Off the board nothing changes.
    pub fn set(&mut self, x: usize, y: usize, cell: Cell) -> (done: bool)
        ensures
            done == old(self).contains(x as int, y as int),
            done ==> final(self)@ == with_cell(old(self)@, x as int, y as int, cell),
            !done ==> final(self)@ == old(self)@,
    {
        if x >= self.size || y >= self.size {
            return false;
        }
        proof {
            use_type_invariant(&*self);
            lemma_flat_index(self.size as int, x as int, y as int);
        }
        let index = x * self.size + y;
        self.cells[index] = cell;
        proof {
            let n = self.size as int;
            let want = with_cell(old(self)@, x as int, y as int, cell);
            assert forall|r: int| 0 <= r < n implies (#[trigger] self@[r]) =~= want[r] by {
                assert forall|c: int| 0 <= c < n implies (#[trigger] self@[r][c]) == want[r][c] by {
                    lemma_flat_index(n, r, c);
                    if r * n + c == index {
                        lemma_flat_index_injective(n, r, c, x as int, y as int);
                    }
                }
            }
        }
        true
    }
}

} // verus!
