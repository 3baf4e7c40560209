//! The map: an immutable square grid of occupancy cells.
//!
//! A grid is built once from a literal layout of integers (1 is a wall,
//! anything else is open) together with the screen height; the world-space
//! edge length of one cell is `screen_height / side`, so the map exactly
//! tiles the vertical screen extent. Cells never change after construction.

use vstd::prelude::*;

verus! {

/// Largest accepted grid side.
pub const MAX_GRID_SIDE: usize = 1024;

/// Largest accepted screen height, in pixels.
pub const MAX_SCREEN: i64 = 1048576;

/// One occupancy cell of the map.
#[derive(Clone, Copy, PartialEq, Eq, Structural, Debug)]
pub enum Cell {
    Wall,
    Open,
}

/// A square grid of cells with a fixed world-units-per-cell scale.
pub struct Grid {
    pub cells: Vec<Cell>,
    pub side: usize,
    pub tile_size: i64,
}

/// A layout is accepted when it is non-empty, square, not larger than
/// `MAX_GRID_SIDE`, and each cell spans at least one world unit of the
/// given screen height.
pub open spec fn layout_ok(layout: Seq<Vec<i32>>, screen_height: int) -> bool {
    &&& 1 <= layout.len() <= MAX_GRID_SIDE
    &&& forall|i: int| 0 <= i < layout.len() ==> (#[trigger] layout[i])@.len() == layout.len()
    &&& layout.len() <= screen_height <= MAX_SCREEN
}

/// The cell a layout value stands for: 1 is a wall, anything else open.
pub open spec fn cell_of_value(v: i32) -> Cell {
    if v == 1 {
        Cell::Wall
    } else {
        Cell::Open
    }
}

impl Grid {
    /// Row and column count of the square grid.
    pub open spec fn spec_side(self) -> int {
        self.side as int
    }

    /// World units per cell.
    pub open spec fn spec_tile_size(self) -> int {
        self.tile_size as int
    }

    /// Structural invariant: one cell per grid position, positive scale.
    pub open spec fn wf(self) -> bool {
        &&& 1 <= self.side <= MAX_GRID_SIDE
        &&& self.cells.len() == self.side * self.side
        &&& 1 <= self.tile_size <= MAX_SCREEN
    }

    /// The cell tag at a grid position.
    pub open spec fn cell(self, row: int, col: int) -> Cell
        recommends
            0 <= row < self.spec_side(),
            0 <= col < self.spec_side(),
    {
        self.cells@[row * self.side + col]
    }

    /// Builds a grid from a literal layout, or refuses it.
    ///
    /// Returns a grid exactly when `layout_ok` holds of the inputs; the
    /// resulting tile size is `screen_height / side`, rounded down.
    pub fn new(layout: &Vec<Vec<i32>>, screen_height: i64) -> (r: Option<Grid>)
        ensures
            r is Some <==> layout_ok(layout@, screen_height as int),
            match r {
                Some(g) => {
                    &&& g.wf()
                    &&& g.spec_side() == layout@.len()
                    &&& g.spec_tile_size() == screen_height as int / layout@.len() as int
                    &&& forall|row: int, col: int|
                        0 <= row < g.spec_side() && 0 <= col < g.spec_side() ==> #[trigger] g.cell(
                            row,
                            col,
                        ) == cell_of_value(layout@[row]@[col])
                },
                None => true,
            },
    {
        let side = layout.len();
        if side < 1 || side > MAX_GRID_SIDE {
            return None;
        }
        if screen_height < side as i64 || screen_height > MAX_SCREEN {
            return None;
        }
        let mut row: usize = 0;
        while row < side
            invariant
                side == layout@.len(),
                forall|i: int| 0 <= i < row ==> (#[trigger] layout@[i])@.len() == side,
            decreases side - row,
        {
            if layout[row].len() != side {
                return None;
            }
            row = row + 1;
        }
        let tile_size = screen_height / (side as i64);
        proof {
            vstd::arithmetic::div_mod::lemma_div_is_ordered(
                side as int,
                screen_height as int,
                side as int,
            );
            vstd::arithmetic::div_mod::lemma_div_by_self(side as int);
            vstd::arithmetic::div_mod::lemma_div_nonincreasing(screen_height as int, side as int);
        }
        let mut cells: Vec<Cell> = Vec::new();
        let mut r: usize = 0;
        while r < side
            invariant
                side == layout@.len(),
                1 <= side <= MAX_GRID_SIDE,
                r <= side,
                forall|i: int| 0 <= i < side ==> (#[trigger] layout@[i])@.len() == side,
                cells.len() == r * side,
                forall|i: int, j: int|
                    0 <= i < r && 0 <= j < side ==> #[trigger] cells@[i * side + j]
                        == cell_of_value(layout@[i]@[j]),
            decreases side - r,
        {
            let mut c: usize = 0;
            proof {
                assert(r * side + side == (r + 1) * side) by (nonlinear_arith);
                assert((r + 1) * side <= MAX_GRID_SIDE * MAX_GRID_SIDE) by (nonlinear_arith)
                    requires
                        0 <= r < side <= MAX_GRID_SIDE,
                ;
            }
            while c < side
                invariant
                    side == layout@.len(),
                    1 <= side <= MAX_GRID_SIDE,
                    r < side,
                    c <= side,
                    forall|i: int| 0 <= i < side ==> (#[trigger] layout@[i])@.len() == side,
                    cells.len() == r * side + c,
                    r * side + side == (r + 1) * side,
                    (r + 1) * side <= MAX_GRID_SIDE * MAX_GRID_SIDE,
                    forall|i: int, j: int|
                        0 <= i < r && 0 <= j < side ==> #[trigger] cells@[i * side + j]
                            == cell_of_value(layout@[i]@[j]),
                    forall|j: int|
                        0 <= j < c ==> #[trigger] cells@[r * side + j] == cell_of_value(
                            layout@[r as int]@[j],
                        ),
                decreases side - c,
            {
                let v = layout[r][c];
                if v == 1 {
                    cells.push(Cell::Wall);
                } else {
                    cells.push(Cell::Open);
                }
                proof {
                    assert forall|i: int, j: int| 0 <= i < r && 0 <= j < side implies #[trigger] cells@[i
                        * side + j] == cell_of_value(layout@[i]@[j]) by {
                        assert(0 <= i * side + j < r * side) by (nonlinear_arith)
                            requires
                                0 <= i < r,
                                0 <= j < (side as int),
                        ;
                    }
                }
                c = c + 1;
            }
            r = r + 1;
        }
        proof {
            assert(cells.len() == side * side) by (nonlinear_arith)
                requires
            cells.len() == r * side && r == side,
            ;
        }
        let g = Grid { cells, side, tile_size };
        proof {
            assert forall|row: int, col: int|
                0 <= row < g.spec_side() && 0 <= col < g.spec_side() implies #[trigger] g.cell(
                row,
                col,
            ) == cell_of_value(layout@[row]@[col]) by {
                assert(g.cells@[row * side + col] == cell_of_value(layout@[row]@[col]));
            }
        }
        Some(g)
    }

    /// Number of rows (and of columns).
    pub fn side(&self) -> (n: usize)
        ensures
            n == self.spec_side(),
    {
        self.side
    }

    /// World units per cell.
    pub fn tile_size(&self) -> (t: i64)
        ensures
            t == self.spec_tile_size(),
    {
        self.tile_size
    }

    /// The cell tag at a grid position, defined only inside the grid.
    pub fn cell_at(&self, row: usize, col: usize) -> (c: Cell)
        requires
            self.wf(),
            row < self.spec_side(),
            col < self.spec_side(),
        ensures
            c == self.cell(row as int, col as int),
    {
        proof {
            assert(row * self.side + col < self.side * self.side) by (nonlinear_arith)
                requires
                    0 <= row < self.side,
                    0 <= col < self.side,
            ;
        }
        self.cells[row * self.side + col]
    }

    /// Whether the cell at a grid position is a wall.
    pub fn is_wall(&self, row: usize, col: usize) -> (b: bool)
        requires
            self.wf(),
            row < self.spec_side(),
            col < self.spec_side(),
        ensures
            b == (self.cell(row as int, col as int) == Cell::Wall),
    {
        match self.cell_at(row, col) {
            Cell::Wall => true,
            Cell::Open => false,
        }
    }

    /// Every cell on the outer border is a wall.
    pub open spec fn border_walled(self) -> bool {
        forall|row: int, col: int|
            0 <= row < self.spec_side() && 0 <= col < self.spec_side() && (row == 0 || col == 0
                || row == self.spec_side() - 1 || col == self.spec_side() - 1) ==> #[trigger] self.cell(
                row,
                col,
            ) == Cell::Wall
    }

    /// Checks that the outer border consists of walls only.
    pub fn check_border_walled(&self) -> (b: bool)
        requires
            self.wf(),
        ensures
            b == self.border_walled(),
    {
        let side = self.side;
        let mut r: usize = 0;
        while r < side
            invariant
                self.wf(),
                side == self.spec_side(),
                r <= side,
                forall|i: int, j: int|
                    0 <= i < r && 0 <= j < side && (i == 0 || j == 0 || i == side - 1 || j == side
                        - 1) ==> #[trigger] self.cell(i, j) == Cell::Wall,
            decreases side - r,
        {
            let mut c: usize = 0;
            while c < side
                invariant
                    self.wf(),
                    side == self.spec_side(),
                    r < side,
                    c <= side,
                    forall|i: int, j: int|
                        0 <= i < r && 0 <= j < side && (i == 0 || j == 0 || i == side - 1 || j
                            == side - 1) ==> #[trigger] self.cell(i, j) == Cell::Wall,
                    forall|j: int|
                        0 <= j < c && (r == 0 || j == 0 || r == side - 1 || j == side - 1)
                            ==> #[trigger] self.cell(r as int, j) == Cell::Wall,
                decreases side - c,
            {
                let on_border = r == 0 || c == 0 || r == side - 1 || c == side - 1;
                if on_border && !self.is_wall(r, c) {
                    return false;
                }
                c = c + 1;
            }
            r = r + 1;
        }
        true
    }
}

} // verus!
