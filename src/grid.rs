use vstd::prelude::*;

verus! {

/// Largest number of cells a grid may hold: a cell takes more than eight bytes
/// and one allocation holds at most `isize::MAX` bytes.
pub const MAX_CELLS: usize = usize::MAX / 16;

/// A terminal colour: the terminal's own default, or an entry of the
/// 256-colour palette.
#[derive(Clone, Copy, PartialEq, Eq, Debug, Structural)]
pub enum Color {
    Default,
    Byte(u8),
}

/// A text attribute of a cell.
#[derive(Clone, Copy, PartialEq, Eq, Debug, Structural)]
pub enum Attr {
    Default,
    Bold,
}

/// One character cell: a glyph with its foreground and background colours.
#[derive(Clone, Copy, PartialEq, Eq, Debug, Structural)]
pub struct Cell {
    pub ch: char,
    pub fg: Color,
    pub bg: Color,
    pub attr: Attr,
}

impl Cell {
    /// A blank cell: a space in the default colours.
    pub fn blank() -> (r: Cell)
        ensures
            r == blank_cell(),
    {
        Cell { ch: ' ', fg: Color::Default, bg: Color::Default, attr: Attr::Default }
    }
}

pub open spec fn blank_cell() -> Cell {
    Cell { ch: ' ', fg: Color::Default, bg: Color::Default, attr: Attr::Default }
}

/// A rectangle of cells, `cols` wide and `rows` high, stored row by row.
pub struct Grid {
    cols: usize,
    rows: usize,
    cells: Vec<Cell>,
}

proof fn lemma_cell_index(cols: int, rows: int, col: int, row: int)
    requires
        0 <= col < cols,
        0 <= row < rows,
    ensures
        0 <= row * cols + col < cols * rows,
{
    assert(row * cols + col < cols * rows) by (nonlinear_arith)
        requires
            0 <= col < cols,
            0 <= row < rows,
    ;
    assert(0 <= row * cols) by (nonlinear_arith)
        requires
            0 <= col < cols,
            0 <= row < rows,
    ;
}

proof fn lemma_cell_index_injective(cols: int, c1: int, r1: int, c2: int, r2: int)
    requires
        0 <= c1 < cols,
        0 <= c2 < cols,
        0 <= r1,
        0 <= r2,
        r1 * cols + c1 == r2 * cols + c2,
    ensures
        c1 == c2 && r1 == r2,
{
    if r1 < r2 {
        assert(r1 * cols + cols <= r2 * cols) by (nonlinear_arith)
            requires
                r1 < r2,
                0 <= cols,
        ;
    } else if r2 < r1 {
        assert(r2 * cols + cols <= r1 * cols) by (nonlinear_arith)
            requires
                r2 < r1,
                0 <= cols,
        ;
    }
}

impl Grid {
    pub closed spec fn width(&self) -> nat {
        self.cols as nat
    }

    pub closed spec fn height(&self) -> nat {
        self.rows as nat
    }

    /// The cell in column `col` and row `row` (row 0 is the top).
    pub closed spec fn cell_at(&self, col: int, row: int) -> Cell {
        self.cells@[row * self.cols + col]
    }

    pub closed spec fn wf(&self) -> bool {
        &&& self.cells@.len() == self.cols * self.rows
        &&& self.cols * self.rows <= MAX_CELLS
    }

    /// A well-formed grid holds no more than `MAX_CELLS` cells.
    pub proof fn lemma_size_bound(&self)
        requires
            self.wf(),
        ensures
            self.width() * self.height() <= MAX_CELLS,
    {
    }

    /// A grid of `cols` by `rows` blank cells.
    pub fn new(cols: usize, rows: usize) -> (g: Grid)
        requires
            cols * rows <= MAX_CELLS,
        ensures
            g.wf(),
            g.width() == cols,
            g.height() == rows,
            forall|c: int, r: int|
                0 <= c < cols && 0 <= r < rows ==> #[trigger] g.cell_at(c, r) == blank_cell(),
    {
        let n: usize = cols * rows;
        let mut cells: Vec<Cell> = Vec::with_capacity(n);
        let mut i: usize = 0;
        while i < n
            invariant
                i <= n,
                cells@.len() == i,
                forall|k: int| 0 <= k < i ==> cells@[k] == blank_cell(),
            decreases n - i,
        {
            cells.push(Cell::blank());
            i = i + 1;
        }
        let g = Grid { cols, rows, cells };
        assert forall|c: int, r: int| 0 <= c < cols && 0 <= r < rows implies #[trigger] g.cell_at(
            c,
            r,
        ) == blank_cell() by {
            lemma_cell_index(cols as int, rows as int, c, r);
        }
        g
    }

    /// The grid's size as (columns, rows).
    pub fn size(&self) -> (r: (usize, usize))
        ensures
            r.0 == self.width(),
            r.1 == self.height(),
    {
        (self.cols, self.rows)
    }

    pub fn cols(&self) -> (r: usize)
        ensures
            r == self.width(),
    {
        self.cols
    }

    pub fn rows(&self) -> (r: usize)
        ensures
            r == self.height(),
    {
        self.rows
    }

    /// The cell in column `col` and row `row`.
    pub fn get(&self, col: usize, row: usize) -> (r: Cell)
        requires
            self.wf(),
            col < self.width(),
            row < self.height(),
        ensures
            r == self.cell_at(col as int, row as int),
    {
        proof {
            lemma_cell_index(self.cols as int, self.rows as int, col as int, row as int);
        }
        self.cells[row * self.cols + col]
    }

    /// Overwrites the cell in column `col` and row `row`.
    pub fn set(&mut self, col: usize, row: usize, cell: Cell)
        requires
            old(self).wf(),
            col < old(self).width(),
            row < old(self).height(),
        ensures
            final(self).wf(),
            final(self).width() == old(self).width(),
            final(self).height() == old(self).height(),
            forall|c: int, r: int|
                0 <= c < old(self).width() && 0 <= r < old(self).height() ==> #[trigger] final(self).cell_at(c, r) == if c == col && r == row {
                    cell
                } else {
                    old(self).cell_at(c, r)
                },
    {
        proof {
            lemma_cell_index(self.cols as int, self.rows as int, col as int, row as int);
        }
        let idx: usize = row * self.cols + col;
        self.cells.set(idx, cell);
        proof {
            assert forall|c: int, r: int|
                0 <= c < self.cols && 0 <= r < self.rows implies #[trigger] self.cell_at(c, r)
                == if c == col && r == row {
                cell
            } else {
                old(self).cell_at(c, r)
            } by {
                lemma_cell_index(self.cols as int, self.rows as int, c, r);
                if r * self.cols + c == idx {
                    lemma_cell_index_injective(self.cols as int, c, r, col as int, row as int);
                }
            }
        }
    }

    /// Sets every cell to `cell`.
    pub fn clear(&mut self, cell: Cell)
        requires
            old(self).wf(),
        ensures
            final(self).wf(),
            final(self).width() == old(self).width(),
            final(self).height() == old(self).height(),
            forall|c: int, r: int|
                0 <= c < old(self).width() && 0 <= r < old(self).height() ==> #[trigger] final(self).cell_at(c, r) == cell,
    {
        let n: usize = self.cells.len();
        let mut i: usize = 0;
        while i < n
            invariant
                i <= n,
                n == self.cells@.len(),
                self.cols == old(self).cols,
                self.rows == old(self).rows,
                self.wf(),
                forall|k: int| 0 <= k < i ==> self.cells@[k] == cell,
            decreases n - i,
        {
            self.cells.set(i, cell);
            i = i + 1;
        }
        proof {
            assert forall|c: int, r: int|
                0 <= c < self.cols && 0 <= r < self.rows implies #[trigger] self.cell_at(c, r)
                == cell by {
                lemma_cell_index(self.cols as int, self.rows as int, c, r);
            }
        }
    }
}

} // verus!
