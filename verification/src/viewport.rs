//! The viewport: a square of glyphs around the avatar, clipped to a circle.

use vstd::prelude::*;
use crate::maze::Cell;
use crate::maze::Maze;
use crate::maze::MazeModel;
use crate::row_major::lemma_flatten_index;
use crate::row_major::lemma_flatten_len;

verus! {

/// The glyph that stands for the avatar.
pub const AVATAR_GLYPH: char = '@';

/// The glyph for everything outside the circle or outside the grid.
pub const VOID_GLYPH: char = '.';

/// How a cell looks inside the viewport.
pub open spec fn cell_glyph(cell: Cell) -> char {
    match cell {
        Cell::Filled => '#',
        Cell::Goal => '*',
        Cell::Empty => ' ',
    }
}

/// Whether the offset `(col, row)` lies at a Euclidean distance below
/// `radius` from the centre.
pub open spec fn in_circle(col: int, row: int, radius: int) -> bool {
    row * row + col * col < radius * radius
}

/// The glyph shown at offset `(col, row)` from `center`.
pub open spec fn view_glyph(
    maze: MazeModel,
    center: (int, int),
    radius: int,
    col: int,
    row: int,
) -> char {
    let x = center.0 + col;
    let y = center.1 + row;
    if row == 0 && col == 0 {
        AVATAR_GLYPH
    } else if in_circle(col, row, radius) && maze.in_bounds(x, y) {
        match maze.cell_at(x, y) {
            Some(cell) => cell_glyph(cell),
            None => ' ',
        }
    } else {
        VOID_GLYPH
    }
}

/// The first `n` glyphs of the viewport row at offset `row`.
pub open spec fn view_row_prefix(
    maze: MazeModel,
    center: (int, int),
    radius: int,
    row: int,
    n: nat,
) -> Seq<char> {
    Seq::new(n, |i: int| view_glyph(maze, center, radius, i - radius, row))
}

/// One viewport row, `2 * radius + 1` glyphs and a line feed.
pub open spec fn view_row(maze: MazeModel, center: (int, int), radius: int, row: int) -> Seq<char> {
    view_row_prefix(maze, center, radius, row, (2 * radius + 1) as nat).push('\n')
}

/// The first `n` rows of the viewport, from the top.
pub open spec fn view_rows(maze: MazeModel, center: (int, int), radius: int, n: nat) -> Seq<
    Seq<char>,
> {
    Seq::new(n, |i: int| view_row(maze, center, radius, i - radius))
}

/// The whole viewport: `2 * radius + 1` rows, top to bottom, each ended by
/// a line feed.
pub open spec fn view_text(maze: MazeModel, center: (int, int), radius: int) -> Seq<char> {
    view_rows(maze, center, radius, (2 * radius + 1) as nat).flatten()
}

/// The line above the viewport.
pub open spec fn title_line() -> Seq<char> {
    "~~ MAZE MASTER ~~\n"@
}

/// The line below the viewport.
pub open spec fn help_line() -> Seq<char> {
    "available commands: up, down, left, right (or use WASD)\n"@
}

/// The whole screen: the title, an empty line, the viewport, an empty
/// line, the help and an empty line.
pub open spec fn interface_text(maze: MazeModel, center: (int, int), radius: int) -> Seq<char> {
    title_line() + "\n"@ + view_text(maze, center, radius) + "\n"@ + help_line() + "\n"@
}

/// The viewport is a square of `2 * radius + 1` rows, each of
/// `2 * radius + 1` glyphs and a line feed: the glyph of offset
/// `(col, row)` stands in line `row + radius` at place `col + radius`.
pub proof fn lemma_view_text_layout(
    maze: MazeModel,
    center: (int, int),
    radius: int,
    col: int,
    row: int,
)
    requires
        0 <= radius,
        -radius <= col <= radius,
        -radius <= row <= radius,
    ensures
        view_text(maze, center, radius).len() == (2 * radius + 1) * (2 * radius + 2),
        0 <= (row + radius) * (2 * radius + 2) + (col + radius) < view_text(
            maze,
            center,
            radius,
        ).len(),
        view_text(maze, center, radius)[(row + radius) * (2 * radius + 2) + (col + radius)]
            == view_glyph(maze, center, radius, col, row),
        view_text(maze, center, radius)[(row + radius) * (2 * radius + 2) + (2 * radius + 1)]
            == '\n',
{
    let side = (2 * radius + 1) as nat;
    let width = (2 * radius + 2) as nat;
    let rows = view_rows(maze, center, radius, side);
    lemma_flatten_len(rows, width);
    lemma_flatten_index(rows, width, row + radius, col + radius);
    lemma_flatten_index(rows, width, row + radius, 2 * radius + 1);
}

/// The viewport depends on nothing but the maze, the centre and the
/// radius: equal dimensions, equal cells, an equal centre and an equal
/// radius give the same text, character for character.
pub proof fn lemma_render_is_deterministic(
    maze1: MazeModel,
    maze2: MazeModel,
    center1: (int, int),
    center2: (int, int),
    radius1: int,
    radius2: int,
)
    requires
        maze1.width == maze2.width,
        maze1.height == maze2.height,
        maze1.cells.len() == maze2.cells.len(),
        forall|i: int| 0 <= i < maze1.cells.len() ==> maze1.cells[i] == maze2.cells[i],
        center1 == center2,
        radius1 == radius2,
    ensures
        view_text(maze1, center1, radius1) == view_text(maze2, center2, radius2),
{
    assert(maze1.cells =~= maze2.cells);
}

/// The glyph at offset `(0, 0)` is the avatar's, whatever cell lies
/// under it and wherever the centre is. In the text it is the middle
/// character of the middle line.
pub proof fn lemma_avatar_at_center(maze: MazeModel, center: (int, int), radius: int)
    ensures
        view_glyph(maze, center, radius, 0, 0) == '@',
        0 <= radius ==> view_text(maze, center, radius)[radius * (2 * radius + 2) + radius] == '@',
{
    if 0 <= radius {
        lemma_view_text_layout(maze, center, radius, 0, 0);
    }
}

/// Away from the centre, an offset at a distance of `radius` or more, or
/// one that points outside the grid, shows the void glyph.
pub proof fn lemma_void_outside(
    maze: MazeModel,
    center: (int, int),
    radius: int,
    col: int,
    row: int,
)
    requires
        col != 0 || row != 0,
        row * row + col * col >= radius * radius || !maze.in_bounds(center.0 + col, center.1 + row),
    ensures
        view_glyph(maze, center, radius, col, row) == '.',
        0 <= radius && -radius <= col <= radius && -radius <= row <= radius ==> view_text(
            maze,
            center,
            radius,
        )[(row + radius) * (2 * radius + 2) + (col + radius)] == '.',
{
    if 0 <= radius && -radius <= col <= radius && -radius <= row <= radius {
        lemma_view_text_layout(maze, center, radius, col, row);
    }
}

/// Decides `in_circle` without overflow for offsets inside the square.
fn within_circle(col: i128, row: i128, radius: usize) -> (b: bool)
    requires
        -radius <= col <= radius,
        -radius <= row <= radius,
    ensures
        b == in_circle(col as int, row as int, radius as int),
{
    let r: u128 = radius as u128;
    let c: u128 = if col < 0 { (-col) as u128 } else { col as u128 };
    let w: u128 = if row < 0 { (-row) as u128 } else { row as u128 };
    assert(r * r <= u128::MAX && c * c <= r * r && w * w <= r * r) by (nonlinear_arith)
        requires
            r <= 0xffff_ffff_ffff_ffff,
            c <= r,
            w <= r,
    ;
    assert(c * c == col * col && w * w == row * row) by (nonlinear_arith)
        requires
            c == col || c == -col,
            w == row || w == -row,
    ;
    c * c < r * r - w * w
}

/// The glyph at one offset of the square.
fn glyph_at(maze: &Maze, center: (isize, isize), radius: usize, col: i128, row: i128) -> (g: char)
    requires
        -radius <= col <= radius,
        -radius <= row <= radius,
    ensures
        g == view_glyph(
            maze@,
            (center.0 as int, center.1 as int),
            radius as int,
            col as int,
            row as int,
        ),
{
    if row == 0 && col == 0 {
        return AVATAR_GLYPH;
    }
    let x: i128 = center.0 as i128 + col;
    let y: i128 = center.1 as i128 + row;
    let representable = 0 <= x && x <= isize::MAX as i128 && 0 <= y && y <= isize::MAX as i128;
    if within_circle(col, row, radius) && representable && maze.in_bounds(x as isize, y as isize) {
        match maze.get_cell(x as usize, y as usize) {
            Some(Cell::Filled) => '#',
            Some(Cell::Goal) => '*',
            Some(Cell::Empty) => ' ',
            None => ' ',
        }
    } else {
        VOID_GLYPH
    }
}

/// Renders the circular window of `maze` around `center`: for every offset
/// of the square `[-radius, radius] x [-radius, radius]` one glyph, row by
/// row, each row followed by a line feed.
pub fn render(maze: &Maze, center: (isize, isize), radius: usize) -> (text: String)
    ensures
        text@ == view_text(maze@, (center.0 as int, center.1 as int), radius as int),
{
    let ghost m = maze@;
    let ghost c = (center.0 as int, center.1 as int);
    let ghost rad = radius as int;
    let r: i128 = radius as i128;
    let mut text = String::new();
    let mut row: i128 = -r;
    while row <= r
        invariant
            r == radius,
            rad == radius,
            m == maze@,
            c == (center.0 as int, center.1 as int),
            -r <= row <= r + 1,
            text@ == view_rows(m, c, rad, (row + r) as nat).flatten(),
        decreases r + 1 - row,
    {
        let ghost done = text@;
        let mut col: i128 = -r;
        while col <= r
            invariant
                r == radius,
                rad == radius,
                m == maze@,
                c == (center.0 as int, center.1 as int),
                -r <= row <= r,
                -r <= col <= r + 1,
                text@ == done + view_row_prefix(m, c, rad, row as int, (col + r) as nat),
            decreases r + 1 - col,
        {
            let g = glyph_at(maze, center, radius, col, row);
            text.push(g);
            col = col + 1;
        }
        text.push('\n');
        proof {
            let before = view_rows(m, c, rad, (row + r) as nat);
            let line = view_row(m, c, rad, row as int);
            assert(view_rows(m, c, rad, (row + r + 1) as nat) =~= before.push(line));
            before.lemma_flatten_push(line);
        }
        row = row + 1;
    }
    text
}

/// Renders the whole screen around `center`: the viewport between the
/// title and the help.
pub fn render_interface(maze: &Maze, center: (isize, isize), radius: usize) -> (text: String)
    ensures
        text@ == interface_text(maze@, (center.0 as int, center.1 as int), radius as int),
{
    let mut text = "~~ MAZE MASTER ~~\n".to_owned();
    text.append("\n");
    let view: String = render(maze, center, radius);
    text.append(view.as_str());
    text.append("\n");
    text.append("available commands: up, down, left, right (or use WASD)\n");
    text.append("\n");
    text
}

} // verus!
