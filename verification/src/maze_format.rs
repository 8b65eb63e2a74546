//! The maze text format: one glyph per cell, one line per row.
//!
//! Lines end at a line feed, and a carriage return just before that line
//! feed belongs to the line ending. The last line needs no line ending.
//! Empty lines carry no cells and are passed over; the first line that is
//! not empty gives the width.

use std::str::FromStr;
use vstd::prelude::*;
use vstd::seq_lib::lemma_flatten_concat;
use vstd::std_specs::convert::TryFromSpecImpl;
use crate::maze::Cell;
use crate::maze::Maze;
use crate::maze::MazeError;
use crate::maze::MazeModel;
use crate::maze::lemma_in_bounds_has_cell;
use crate::row_major::all_of_width;
use crate::row_major::lemma_flatten_index;
use crate::row_major::lemma_flatten_len;

verus! {

/// The glyph table, read from text to cell.
pub open spec fn cell_of_glyph(c: char) -> Option<Cell> {
    if c == '#' {
        Some(Cell::Filled)
    } else if c == '.' {
        Some(Cell::Empty)
    } else if c == '*' {
        Some(Cell::Goal)
    } else {
        None
    }
}

/// The glyph table, read from cell to text.
pub open spec fn glyph_of_cell(cell: Cell) -> char {
    match cell {
        Cell::Filled => '#',
        Cell::Empty => '.',
        Cell::Goal => '*',
    }
}

/// The detail of the error for a text without any row.
pub open spec fn no_first_line() -> Seq<char> {
    "no first line"@
}

/// The detail of the error for a character that is no glyph.
pub open spec fn unknown_character(c: char) -> Seq<char> {
    "unknown character: "@.push(c)
}

impl TryFrom<char> for Cell {
    type Error = MazeError;

    /// Reads one glyph: `#` is a wall, `.` is floor, `*` is the goal. Any
    /// other character is refused, and the error names it.
    fn try_from(value: char) -> (r: Result<Cell, MazeError>)
        ensures
            match r {
                Ok(cell) => cell_of_glyph(value) == Some(cell),
                Err(e) => cell_of_glyph(value) is None && e.detail() == unknown_character(value),
            },
    {
        match value {
            '#' => Ok(Cell::Filled),
            '.' => Ok(Cell::Empty),
            '*' => Ok(Cell::Goal),
            c => {
                let mut detail = "unknown character: ".to_owned();
                detail.push(c);
                Err(MazeError::MazeParsingFailed(detail))
            },
        }
    }
}

/// The error of `try_from` owns a fresh `String`, which no spec function
/// can produce: `try_from` states its result in its own `ensures`.
impl TryFromSpecImpl<char> for Cell {
    open spec fn obeys_try_from_spec() -> bool {
        false
    }

    open spec fn try_from_spec(value: char) -> Result<Cell, MazeError> {
        arbitrary()
    }
}

impl Cell {
    /// The character that stands for this cell in maze text.
    pub fn glyph(&self) -> (c: char)
        ensures
            c == glyph_of_cell(*self),
    {
        match self {
            Cell::Filled => '#',
            Cell::Empty => '.',
            Cell::Goal => '*',
        }
    }
}

/// The number of characters of `s` before its first line feed; all of
/// them where it has none.
pub open spec fn first_line_len(s: Seq<char>) -> nat
    decreases s.len(),
{
    if s.len() == 0 || s[0] == '\n' {
        0
    } else {
        1 + first_line_len(s.drop_first())
    }
}

/// A line without the carriage return that stood before its line feed.
pub open spec fn without_cr(line: Seq<char>) -> Seq<char> {
    if line.len() > 0 && line.last() == '\r' {
        line.drop_last()
    } else {
        line
    }
}

/// The rows of a maze text: its lines, top to bottom, without their line
/// endings and without the empty ones.
pub open spec fn rows(text: Seq<char>) -> Seq<Seq<char>>
    decreases text.len(),
{
    let n = first_line_len(text);
    if text.len() == 0 {
        Seq::empty()
    } else if n >= text.len() {
        seq![text]
    } else {
        let line = without_cr(text.take(n as int));
        let rest = rows(text.skip(n as int + 1));
        if line.len() > 0 {
            seq![line] + rest
        } else {
            rest
        }
    }
}

/// The first character of `glyphs` that the glyph table does not hold.
pub open spec fn first_unknown(glyphs: Seq<char>) -> Option<char>
    decreases glyphs.len(),
{
    if glyphs.len() == 0 {
        None
    } else if cell_of_glyph(glyphs[0]) is None {
        Some(glyphs[0])
    } else {
        first_unknown(glyphs.drop_first())
    }
}

/// The cells that a run of glyphs stands for.
pub open spec fn cells_of_glyphs(glyphs: Seq<char>) -> Seq<Cell> {
    Seq::new(glyphs.len(), |i: int| cell_of_glyph(glyphs[i]).unwrap())
}

/// The glyphs that stand for a run of cells.
pub open spec fn glyphs_of_cells(cells: Seq<Cell>) -> Seq<char> {
    Seq::new(cells.len(), |i: int| glyph_of_cell(cells[i]))
}

/// What a maze text means: the maze, or the detail of the error.
///
/// A text without rows is refused, and so is one that holds a character
/// outside the glyph table; the first such character is reported. The
/// first row gives the width. The cells are all the glyphs in reading
/// order, and the height is the number of whole rows they fill: rows of
/// unequal length are not refused, they shift the cells that follow.
pub open spec fn maze_of_text(text: Seq<char>) -> Result<MazeModel, Seq<char>> {
    let rows = rows(text);
    let glyphs = rows.flatten();
    if rows.len() == 0 {
        Err(no_first_line())
    } else {
        match first_unknown(glyphs) {
            Some(c) => Err(unknown_character(c)),
            None => Ok(
                MazeModel {
                    width: rows[0].len(),
                    height: glyphs.len() / rows[0].len(),
                    cells: cells_of_glyphs(glyphs),
                },
            ),
        }
    }
}

/// `first_line_len` is the place of the first line feed.
pub proof fn lemma_first_line_len(s: Seq<char>, k: int)
    requires
        0 <= k <= s.len(),
        forall|j: int| 0 <= j < k ==> s[j] != '\n',
        k == s.len() || s[k] == '\n',
    ensures
        first_line_len(s) == k,
    decreases s.len(),
{
    if k > 0 {
        lemma_first_line_len(s.drop_first(), k - 1);
    }
}

/// A run of glyphs has no unknown character.
pub proof fn lemma_first_unknown_none(glyphs: Seq<char>)
    requires
        forall|j: int| 0 <= j < glyphs.len() ==> cell_of_glyph(glyphs[j]) is Some,
    ensures
        first_unknown(glyphs) is None,
    decreases glyphs.len(),
{
    if glyphs.len() > 0 {
        lemma_first_unknown_none(glyphs.drop_first());
    }
}

/// The first unknown character is the one that only glyphs come before.
pub proof fn lemma_first_unknown_at(glyphs: Seq<char>, k: int)
    requires
        0 <= k < glyphs.len(),
        forall|j: int| 0 <= j < k ==> cell_of_glyph(glyphs[j]) is Some,
        cell_of_glyph(glyphs[k]) is None,
    ensures
        first_unknown(glyphs) == Some(glyphs[k]),
    decreases glyphs.len(),
{
    if k > 0 {
        lemma_first_unknown_at(glyphs.drop_first(), k - 1);
    }
}

/// The characters of `s`, in order.
fn chars_of(s: &str) -> (chars: Vec<char>)
    ensures
        chars@ == s@,
{
    let mut chars: Vec<char> = Vec::new();
    for c in iter: s.chars()
        invariant
            chars@ == iter.seq().take(iter.index() as int),
    {
        chars.push(c);
    }
    chars
}

impl FromStr for Maze {
    type Err = MazeError;

    /// Reads a maze from its text, as `maze_of_text` says.
    fn from_str(s: &str) -> (r: Result<Maze, MazeError>)
        ensures
            match r {
                Ok(maze) => maze_of_text(s@) == Ok::<MazeModel, Seq<char>>(maze@) && maze@.wf(),
                Err(e) => maze_of_text(s@) == Err::<MazeModel, Seq<char>>(e.detail()),
            },
    {
        let chars = chars_of(s);
        let n: usize = chars.len();
        let ghost text = s@;
        let ghost mut done: Seq<Seq<char>> = Seq::empty();
        let mut cells: Vec<Cell> = Vec::new();
        let mut width: usize = 0;
        let mut pos: usize = 0;
        assert(text.skip(0) =~= text);
        while pos < n
            invariant
                text == s@,
                chars@ == text,
                n == text.len(),
                pos <= n,
                rows(text) == done + rows(text.skip(pos as int)),
                forall|k: int| 0 <= k < done.len() ==> (#[trigger] done[k]).len() > 0,
                done.len() == 0 ==> width == 0,
                done.len() > 0 ==> width == done[0].len() && width <= cells.len(),
                cells.len() == done.flatten().len(),
                forall|j: int|
                    0 <= j < cells.len() ==> cell_of_glyph(#[trigger] done.flatten()[j]) == Some(
                        cells[j],
                    ),
            decreases n - pos,
        {
            // the line runs from `pos` to `end`, its glyphs from `pos` to `stop`
            let ghost tail = text.skip(pos as int);
            let mut end: usize = pos;
            while end < n && chars[end] != '\n'
                invariant
                    chars@ == text,
                    n == text.len(),
                    pos <= end <= n,
                    forall|j: int| pos <= j < end ==> text[j] != '\n',
                decreases n - end,
            {
                end = end + 1;
            }
            let stop: usize = if end < n && end > pos && chars[end - 1] == '\r' {
                (end - 1) as usize
            } else {
                end
            };
            let next: usize = if end < n {
                (end + 1) as usize
            } else {
                end
            };
            let ghost line = text.subrange(pos as int, stop as int);
            let ghost rest = rows(text.skip(next as int));
            proof {
                // one unfolding of `rows(tail)`: the line, then the rows after it
                lemma_first_line_len(tail, end - pos);
                if end < n {
                    assert(without_cr(tail.take(end - pos)) =~= line);
                    assert(tail.skip(end - pos + 1) =~= text.skip(next as int));
                }
            }
            if stop > pos && width == 0 {
                width = stop - pos;
            }
            let mut i: usize = pos;
            while i < stop
                invariant
                    text == s@,
                    chars@ == text,
                    n == text.len(),
                    pos <= i <= stop <= n,
                    line == text.subrange(pos as int, stop as int),
                    stop > pos ==> rows(text) == done + (seq![line] + rest),
                    cells.len() == done.flatten().len() + (i - pos),
                    forall|j: int|
                        0 <= j < cells.len() ==> cell_of_glyph(
                            #[trigger] (done.flatten() + text.subrange(pos as int, i as int))[j],
                        ) == Some(cells[j]),
                decreases stop - i,
            {
                let ghost seen = done.flatten() + text.subrange(pos as int, i as int);
                match Cell::try_from(chars[i]) {
                    Ok(cell) => {
                        cells.push(cell);
                    },
                    Err(e) => {
                        proof {
                            // only glyphs come before this character
                            let glyphs = rows(text).flatten();
                            lemma_flatten_concat(done, seq![line] + rest);
                            lemma_flatten_concat(seq![line], rest);
                            assert(seq![line].flatten() =~= line) by {
                                seq![line].lemma_flatten_one_element();
                            }
                            let k = done.flatten().len() + (i - pos);
                            assert forall|j: int| 0 <= j < k implies cell_of_glyph(
                                glyphs[j],
                            ) is Some by {
                                assert(glyphs[j] == seen[j]);
                            }
                            lemma_first_unknown_at(glyphs, k);
                        }
                        return Err(e);
                    },
                }
                proof {
                    let now = done.flatten() + text.subrange(pos as int, i + 1);
                    assert forall|j: int| 0 <= j < cells.len() implies cell_of_glyph(
                        #[trigger] now[j],
                    ) == Some(cells[j]) by {
                        if j < cells.len() - 1 {
                            assert(now[j] == seen[j]);
                        }
                    }
                }
                i = i + 1;
            }
            proof {
                if stop > pos {
                    done.lemma_flatten_push(line);
                    done = done.push(line);
                }
            }
            pos = next;
        }
        if width == 0 {
            return Err(MazeError::MazeParsingFailed("no first line".to_owned()));
        }
        let height: usize = cells.len() / width;
        proof {
            let glyphs = rows(text).flatten();
            lemma_first_unknown_none(glyphs);
            assert(cells@ =~= cells_of_glyphs(glyphs));
            assert(cells.len() / width >= 1) by (nonlinear_arith)
                requires
                    0 < width <= cells.len(),
            ;
        }
        Ok(Maze::from_parts(width, height, cells))
    }
}

/// The glyph table reads the same in both directions.
pub proof fn lemma_glyph_table_round_trip(c: char, cell: Cell)
    ensures
        cell_of_glyph(c) == Some(cell) <==> glyph_of_cell(cell) == c,
{
}

/// A maze that a text gives is well formed.
pub proof fn lemma_maze_of_text_wf(text: Seq<char>)
    requires
        maze_of_text(text) is Ok,
    ensures
        maze_of_text(text)->Ok_0.wf(),
{
    let rows = rows(text);
    lemma_rows_not_empty(text, 0);
    let width = rows[0].len() as int;
    let n = rows.flatten().len() as int;
    assert(n / width >= 1) by (nonlinear_arith)
        requires
            0 < width <= n,
    ;
}

/// No row is empty.
pub proof fn lemma_rows_not_empty(text: Seq<char>, k: int)
    requires
        0 <= k < rows(text).len(),
    ensures
        rows(text)[k].len() > 0,
    decreases text.len(),
{
    let n = first_line_len(text);
    if text.len() > 0 && n < text.len() {
        let line = without_cr(text.take(n as int));
        let rest = text.skip(n as int + 1);
        if line.len() > 0 {
            if k > 0 {
                lemma_rows_not_empty(rest, k - 1);
            }
        } else {
            lemma_rows_not_empty(rest, k);
        }
    }
}

/// Reading a maze and writing each cell as its glyph gives back the
/// glyphs of the text, in reading order: the cell at `(x, y)` is the one
/// that glyph number `y * width + x` stands for.
pub proof fn lemma_text_round_trip(text: Seq<char>, x: int, y: int)
    requires
        maze_of_text(text) is Ok,
        maze_of_text(text)->Ok_0.in_bounds(x, y),
    ensures
        ({
            let maze = maze_of_text(text)->Ok_0;
            let glyphs = rows(text).flatten();
            &&& glyphs_of_cells(maze.cells) == glyphs
            &&& 0 <= y * maze.width + x < glyphs.len()
            &&& maze.cell_at(x, y) is Some
            &&& glyph_of_cell(maze.cell_at(x, y)->Some_0) == glyphs[y * maze.width + x]
        }),
{
    let maze = maze_of_text(text)->Ok_0;
    let glyphs = rows(text).flatten();
    lemma_maze_of_text_wf(text);
    lemma_in_bounds_has_cell(maze, x, y);
    assert forall|i: int| 0 <= i < glyphs.len() implies cell_of_glyph(glyphs[i]) is Some by {
        lemma_first_unknown_is_first(glyphs, i);
    }
}

/// Where `first_unknown` finds nothing, every character is a glyph.
pub proof fn lemma_first_unknown_is_first(glyphs: Seq<char>, i: int)
    requires
        first_unknown(glyphs) is None,
        0 <= i < glyphs.len(),
    ensures
        cell_of_glyph(glyphs[i]) is Some,
    decreases glyphs.len(),
{
    if i > 0 {
        lemma_first_unknown_is_first(glyphs.drop_first(), i - 1);
    }
}

/// For a text whose rows all have the length of the first, reading the
/// maze and writing the cell at `(x, y)` as its glyph gives back
/// character `x` of row `y`, and the maze has as many rows as the text.
pub proof fn lemma_rectangular_round_trip(text: Seq<char>, x: int, y: int)
    requires
        maze_of_text(text) is Ok,
        all_of_width(rows(text), maze_of_text(text)->Ok_0.width),
        maze_of_text(text)->Ok_0.in_bounds(x, y),
    ensures
        ({
            let maze = maze_of_text(text)->Ok_0;
            &&& maze.height == rows(text).len()
            &&& maze.cells.len() == maze.width * maze.height
            &&& maze.cell_at(x, y) is Some
            &&& glyph_of_cell(maze.cell_at(x, y)->Some_0) == rows(text)[y][x]
        }),
{
    let maze = maze_of_text(text)->Ok_0;
    let rows = rows(text);
    let w = maze.width as int;
    let k = rows.len() as int;
    lemma_text_round_trip(text, x, y);
    lemma_flatten_len(rows, maze.width);
    assert((k * w) / w == k && k * w == w * k) by (nonlinear_arith)
        requires
            0 < w,
    ;
    lemma_flatten_index(rows, maze.width, y, x);
}

} // verus!
