//! The maze grid: cell kinds, bounds checks and cell lookup.

use vstd::prelude::*;

verus! {

/// One grid unit's traversal kind.
#[derive(Debug, Clone, Copy, PartialEq, Eq, Structural)]
pub enum Cell {
    /// A wall: opaque and blocking.
    Filled,
    /// Floor.
    Empty,
    /// The win marker; it can be walked on like floor.
    Goal,
}

impl Cell {
    /// True for floor and goal cells, false for walls.
    pub open spec fn traversable(self) -> bool {
        self == Cell::Empty || self == Cell::Goal
    }

    /// Whether the avatar may stand on this cell.
    pub fn is_traversable(&self) -> (r: bool)
        ensures
            r == self.traversable(),
    {
        match self {
            Cell::Filled => false,
            Cell::Empty => true,
            Cell::Goal => true,
        }
    }
}

/// Why a maze could not be built.
#[derive(Debug)]
pub enum MazeError {
    /// The text is not a maze; the payload says what is wrong with it.
    MazeParsingFailed(String),
}

impl MazeError {
    /// What is wrong with the text.
    pub open spec fn detail(self) -> Seq<char> {
        match self {
            MazeError::MazeParsingFailed(detail) => detail@,
        }
    }

    /// The text of `message`.
    pub open spec fn message_text(self) -> Seq<char> {
        "failed to parse maze format: "@ + self.detail()
    }

    /// The error as a line for a person to read.
    pub fn message(&self) -> (text: String)
        ensures
            text@ == self.message_text(),
    {
        let mut text = "failed to parse maze format: ".to_owned();
        match self {
            MazeError::MazeParsingFailed(detail) => {
                text.append(detail.as_str());
            },
        }
        text
    }
}

/// A maze as mathematics: its dimensions and its cells in row-major order.
pub ghost struct MazeModel {
    pub width: nat,
    pub height: nat,
    pub cells: Seq<Cell>,
}

impl MazeModel {
    /// Both dimensions are positive, and the height is the number of whole
    /// rows that the cells fill.
    pub open spec fn wf(self) -> bool {
        &&& 0 < self.width
        &&& 0 < self.height
        &&& self.height == self.cells.len() / self.width
    }

    /// Whether `(x, y)` names a column and a row of the grid. Coordinates
    /// are signed machine integers, so nothing beyond `isize::MAX` is in
    /// bounds.
    pub open spec fn in_bounds(self, x: int, y: int) -> bool {
        &&& 0 <= x < self.width
        &&& 0 <= y < self.height
        &&& x <= isize::MAX
        &&& y <= isize::MAX
    }

    /// The row-major offset of `(x, y)`.
    pub open spec fn offset(self, x: int, y: int) -> int {
        y * self.width + x
    }

    /// The cell at the row-major offset of `(x, y)`, where the grid has one.
    pub open spec fn cell_at(self, x: int, y: int) -> Option<Cell> {
        if 0 <= x && 0 <= y && self.offset(x, y) < self.cells.len() {
            Some(self.cells[self.offset(x, y)])
        } else {
            None
        }
    }
}

/// A well-formed maze has a cell at every coordinate that is in bounds,
/// the one at the row-major offset.
pub proof fn lemma_in_bounds_has_cell(maze: MazeModel, x: int, y: int)
    requires
        maze.wf(),
        maze.in_bounds(x, y),
    ensures
        0 <= maze.offset(x, y) < maze.cells.len(),
        maze.cell_at(x, y) == Some(maze.cells[maze.offset(x, y)]),
{
    let w = maze.width as int;
    let h = maze.height as int;
    let n = maze.cells.len() as int;
    assert(h * w <= n) by (nonlinear_arith)
        requires
            0 < w,
            0 <= n,
            h == n / w,
    ;
    assert(0 <= y * w && y * w + w <= h * w) by (nonlinear_arith)
        requires
            0 <= y < h,
            0 < w,
    ;
}

/// An immutable rectangular grid of cells.
pub struct Maze {
    width: usize,
    height: usize,
    cells: Vec<Cell>,
}

impl View for Maze {
    type V = MazeModel;

    closed spec fn view(&self) -> MazeModel {
        MazeModel { width: self.width as nat, height: self.height as nat, cells: self.cells@ }
    }
}

impl Maze {
    #[verifier::type_invariant]
    spec fn well_formed(self) -> bool {
        self@.wf()
    }

    /// Puts a maze together from its dimensions and its cells.
    pub(crate) fn from_parts(width: usize, height: usize, cells: Vec<Cell>) -> (maze: Maze)
        requires
            (MazeModel { width: width as nat, height: height as nat, cells: cells@ }).wf(),
        ensures
            maze@ == (MazeModel { width: width as nat, height: height as nat, cells: cells@ }),
    {
        Maze { width, height, cells }
    }

    /// The number of columns.
    pub fn width(&self) -> (w: usize)
        ensures
            w == self@.width,
            self@.wf(),
    {
        proof {
            use_type_invariant(self);
        }
        self.width
    }

    /// The number of rows.
    pub fn height(&self) -> (h: usize)
        ensures
            h == self@.height,
            self@.wf(),
    {
        proof {
            use_type_invariant(self);
        }
        self.height
    }

    /// True iff `0 <= x < width` and `0 <= y < height`.
    pub fn in_bounds(&self, x: isize, y: isize) -> (r: bool)
        ensures
            r == self@.in_bounds(x as int, y as int),
            r == (0 <= x < self@.width && 0 <= y < self@.height),
            self@.wf(),
    {
        proof {
            use_type_invariant(self);
        }
        x >= 0 && (x as usize) < self.width && y >= 0 && (y as usize) < self.height
    }

    /// The cell at the row-major offset `y * width + x`, or `None` where
    /// that offset lies beyond the last cell.
    pub fn get_cell(&self, x: usize, y: usize) -> (r: Option<&Cell>)
        ensures
            match r {
                Some(cell) => self@.cell_at(x as int, y as int) == Some(*cell),
                None => self@.cell_at(x as int, y as int) is None,
            },
            self@.in_bounds(x as int, y as int) ==> r is Some,
            self@.wf(),
    {
        proof {
            use_type_invariant(self);
            if self@.in_bounds(x as int, y as int) {
                lemma_in_bounds_has_cell(self@, x as int, y as int);
            }
        }
        let len: usize = self.cells.len();
        let row_start = match y.checked_mul(self.width) {
            Some(n) => n,
            None => { return None; },
        };
        let offset = match row_start.checked_add(x) {
            Some(n) => n,
            None => { return None; },
        };
        if offset < len {
            Some(&self.cells[offset])
        } else {
            None
        }
    }
}

/// The side of the default maze.
pub const DEFAULT_SIDE: usize = 21;

/// The default maze as mathematics: a square of walls.
pub open spec fn default_maze() -> MazeModel {
    MazeModel {
        width: DEFAULT_SIDE as nat,
        height: DEFAULT_SIDE as nat,
        cells: Seq::new((DEFAULT_SIDE * DEFAULT_SIDE) as nat, |i: int| Cell::Filled),
    }
}

impl Default for Maze {
    /// A grid of 21 by 21 walls.
    fn default() -> (maze: Maze)
        ensures
            maze@ == default_maze(),
            maze@.wf(),
    {
        let width: usize = DEFAULT_SIDE;
        let height: usize = DEFAULT_SIDE;
        let cells = vec![Cell::Filled; width * height];
        assert(cells@ =~= default_maze().cells);
        Maze { width, height, cells }
    }
}

} // verus!
