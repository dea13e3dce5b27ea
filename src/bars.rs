use vstd::prelude::*;
use crate::glyph::{pixel_nums_to_braille, braille_bits, BRAILLE_BASE};
use crate::grid::{Attr, Cell, Color, Grid, MAX_CELLS, blank_cell};

verus! {

/// A bar height clamped to the `4 * rows` sub-pixel rows of the widget.
pub open spec fn clamp_height(p: int, rows: int) -> int {
    if p >= 4 * rows {
        4 * rows - 1
    } else {
        p
    }
}

/// Sub-pixel row of the top of a bar of height `p`, counted from the top of
/// the widget (terminal rows grow downwards, bar heights upwards).
pub open spec fn top_pixel(p: int, rows: int) -> int {
    4 * rows - 1 - clamp_height(p, rows)
}

/// How a bar whose top is at sub-pixel row `top` fills cell row `row`: fully
/// below its top cell, from `top % 4` down within its top cell, not above it.
pub open spec fn sub_row(top: int, row: int) -> Option<u8> {
    if top / 4 < row {
        Some(0u8)
    } else if top / 4 == row {
        Some((top % 4) as u8)
    } else {
        None
    }
}

/// First cell row that a pair of bars of heights `p1` and `p2` touches.
pub open spec fn first_bar_row(p1: int, p2: int, rows: int) -> int {
    let c1 = top_pixel(p1, rows) / 4;
    let c2 = top_pixel(p2, rows) / 4;
    if c1 < c2 {
        c1
    } else {
        c2
    }
}

/// `cell` is the bold Braille glyph that the bars of heights `p1` (left) and
/// `p2` (right) show in cell row `row` of a widget `rows` high.
pub open spec fn is_bar_cell(cell: Cell, p1: int, p2: int, rows: int, row: int) -> bool {
    &&& cell.ch as u32 == BRAILLE_BASE + braille_bits(
        sub_row(top_pixel(p1, rows), row),
        sub_row(top_pixel(p2, rows), row),
    )
    &&& cell.fg == Color::Default
    &&& cell.bg == Color::Default
    &&& cell.attr == Attr::Bold
}

/// A bold cell holding `c` in the default colours.
pub fn char_to_cell(c: char) -> (r: Cell)
    ensures
        r == (Cell { ch: c, fg: Color::Default, bg: Color::Default, attr: Attr::Bold }),
{
    Cell { ch: c, fg: Color::Default, bg: Color::Default, attr: Attr::Bold }
}

fn cell_fill(top: usize, row: usize) -> (r: Option<u8>)
    ensures
        r == sub_row(top as int, row as int),
{
    let c = top / 4;
    if c < row {
        Some(0)
    } else if c == row {
        Some((top % 4) as u8)
    } else {
        None
    }
}

proof fn lemma_rows_bounded(cols: int, rows: int)
    requires
        1 <= cols,
        0 <= rows,
        cols * rows <= MAX_CELLS,
    ensures
        rows <= MAX_CELLS,
{
    assert(rows <= cols * rows) by (nonlinear_arith)
        requires
            1 <= cols,
            0 <= rows,
    ;
}

/// Draws, in column `col_idx`, two bars side by side: the left one `p1` and
/// the right one `p2` sub-pixels high, each sub-pixel a quarter of a cell.
/// Heights are clamped to the widget. Cells above both bars are left as they
/// were; so is everything when the column lies outside the grid.
pub fn draw_pixel_pair(canvas: &mut Grid, col_idx: usize, p1: usize, p2: usize)
    requires
        old(canvas).wf(),
    ensures
        final(canvas).wf(),
        final(canvas).width() == old(canvas).width(),
        final(canvas).height() == old(canvas).height(),
        forall|c: int, r: int|
            0 <= c < old(canvas).width() && 0 <= r < old(canvas).height() ==> {
                let drawn = c == col_idx && r >= first_bar_row(
                    p1 as int,
                    p2 as int,
                    old(canvas).height() as int,
                );
                &&& drawn ==> is_bar_cell(
                    #[trigger] final(canvas).cell_at(c, r),
                    p1 as int,
                    p2 as int,
                    old(canvas).height() as int,
                    r,
                )
                &&& !drawn ==> final(canvas).cell_at(c, r) == old(canvas).cell_at(c, r)
            },
{
    let (cols, rows) = canvas.size();
    if col_idx >= cols || rows == 0 {
        return;
    }
    proof {
        canvas.lemma_size_bound();
        lemma_rows_bounded(cols as int, rows as int);
    }
    let max_pixel_height = 4 * rows;

    // clamp heights
    let h1 = if p1 >= max_pixel_height { max_pixel_height - 1 } else { p1 };
    let h2 = if p2 >= max_pixel_height { max_pixel_height - 1 } else { p2 };

    // terminal rows count from the top
    let t1 = max_pixel_height - h1 - 1;
    let t2 = max_pixel_height - h2 - 1;
    assert(t1 == top_pixel(p1 as int, rows as int));
    assert(t2 == top_pixel(p2 as int, rows as int));

    let c1 = t1 / 4;
    let c2 = t2 / 4;
    let first = if c1 < c2 { c1 } else { c2 };

    let ghost before = *canvas;
    let mut row = first;
    while row < rows
        invariant
            first <= row <= rows,
            first == first_bar_row(p1 as int, p2 as int, rows as int),
            t1 == top_pixel(p1 as int, rows as int),
            t2 == top_pixel(p2 as int, rows as int),
            canvas.wf(),
            canvas.width() == cols,
            canvas.height() == rows,
            before.width() == cols,
            before.height() == rows,
            col_idx < cols,
            forall|c: int, r: int|
                0 <= c < cols && 0 <= r < rows ==> {
                    let drawn = c == col_idx && first <= r < row;
                    &&& drawn ==> is_bar_cell(
                        #[trigger] canvas.cell_at(c, r),
                        p1 as int,
                        p2 as int,
                        rows as int,
                        r,
                    )
                    &&& !drawn ==> canvas.cell_at(c, r) == before.cell_at(c, r)
                },
        decreases rows - row,
    {
        let glyph = pixel_nums_to_braille(cell_fill(t1, row), cell_fill(t2, row));
        canvas.set(col_idx, row, char_to_cell(glyph));
        row = row + 1;
    }
}

/// Number of bar pairs that a trace of `len` heights draws on `cols` columns.
pub open spec fn drawn_pairs(len: int, cols: int) -> int {
    if len / 2 < cols {
        len / 2
    } else {
        cols
    }
}

/// `g` shows the trace `heights` and nothing else: column `c` shows the bars
/// `heights[2c]` and `heights[2c + 1]`, every other cell is blank.
pub open spec fn shows_spectrum(g: Grid, heights: Seq<usize>) -> bool {
    forall|c: int, r: int|
        0 <= c < g.width() && 0 <= r < g.height() ==> {
            let drawn = c < drawn_pairs(heights.len() as int, g.width() as int) && r
                >= first_bar_row(heights[2 * c] as int, heights[2 * c + 1] as int, g.height() as int);
            &&& drawn ==> is_bar_cell(
                #[trigger] g.cell_at(c, r),
                heights[2 * c] as int,
                heights[2 * c + 1] as int,
                g.height() as int,
                r,
            )
            &&& !drawn ==> g.cell_at(c, r) == blank_cell()
        }
}

/// Clears the widget and draws the trace `heights`, two heights per column:
/// column `c` shows the bars `heights[2c]` and `heights[2c + 1]`. Columns past
/// the trace, and an unpaired last height, stay blank.
pub fn draw_spectrum(canvas: &mut Grid, heights: &Vec<usize>)
    requires
        old(canvas).wf(),
    ensures
        final(canvas).wf(),
        final(canvas).width() == old(canvas).width(),
        final(canvas).height() == old(canvas).height(),
        shows_spectrum(*final(canvas), heights@),
{
    canvas.clear(Cell::blank());
    let (num_cols, num_rows) = canvas.size();
    let len = heights.len();
    let n = len / 2;
    let n = if n < num_cols { n } else { num_cols };
    let mut col_idx: usize = 0;
    while col_idx < n
        invariant
            col_idx <= n,
            n == drawn_pairs(heights@.len() as int, num_cols as int),
            2 * n <= len,
            len == heights@.len(),
            canvas.wf(),
            canvas.width() == num_cols,
            canvas.height() == num_rows,
            forall|c: int, r: int|
                0 <= c < num_cols && 0 <= r < num_rows ==> {
                    let drawn = c < col_idx && r >= first_bar_row(
                        heights@[2 * c] as int,
                        heights@[2 * c + 1] as int,
                        num_rows as int,
                    );
                    &&& drawn ==> is_bar_cell(
                        #[trigger] canvas.cell_at(c, r),
                        heights@[2 * c] as int,
                        heights@[2 * c + 1] as int,
                        num_rows as int,
                        r,
                    )
                    &&& !drawn ==> canvas.cell_at(c, r) == blank_cell()
                },
        decreases n - col_idx,
    {
        assert(2 * col_idx + 1 < heights@.len());
        draw_pixel_pair(canvas, col_idx, heights[2 * col_idx], heights[2 * col_idx + 1]);
        col_idx = col_idx + 1;
    }
}

} // verus!
