use vstd::prelude::*;
use crate::grid::{Attr, Cell, Color, Grid};
use crate::history::WaterfallHistory;

verus! {

/// Number of entries in the waterfall palette. An intensity `f` in [0, 1]
/// has level `f * PALETTE_LEN`, truncated.
pub const PALETTE_LEN: usize = 20;

/// The palette, dark blue through cyan and green to yellow, by rising level.
pub open spec fn palette() -> Seq<u8> {
    seq![16u8, 17, 18, 19, 21, 27, 33, 39, 45, 51, 50, 49, 48, 47, 46, 82, 118, 154, 190, 226]
}

/// Palette index of a level: the level itself, clamped to the palette.
pub open spec fn palette_index(level: int) -> int {
    if level < 0 {
        0
    } else if level >= PALETTE_LEN {
        PALETTE_LEN - 1
    } else {
        level
    }
}

/// Terminal colour of a quantized intensity level.
pub open spec fn level_color(level: int) -> u8 {
    palette()[palette_index(level)]
}

/// The colour of intensity level `level`; levels below the palette take its
/// first colour, levels past it its last.
pub fn color_mapping(level: i32) -> (r: u8)
    ensures
        r == level_color(level as int),
{
    let mapping: [u8; 20] = [
        16,
        17,
        18,
        19,
        21,
        27,
        33,
        39,
        45,
        51,
        50,
        49,
        48,
        47,
        46,
        82,
        118,
        154,
        190,
        226,
    ];
    assert(mapping@ =~= palette());
    if level < 0 {
        mapping[0]
    } else if level >= PALETTE_LEN as i32 {
        mapping[PALETTE_LEN - 1]
    } else {
        mapping[level as usize]
    }
}

/// The waterfall glyph: an upper half block.
pub const UPPER_HALF_BLOCK: char = '\u{2580}';

/// A waterfall cell whose upper half shows level `upper` and lower half level
/// `lower`.
pub open spec fn waterfall_cell(upper: int, lower: int) -> Cell {
    Cell {
        ch: UPPER_HALF_BLOCK,
        fg: Color::Byte(level_color(upper)),
        bg: Color::Byte(level_color(lower)),
        attr: Attr::Default,
    }
}

pub fn spectrum_heights_to_waterfall_cell(upper: i32, lower: i32) -> (r: Cell)
    ensures
        r == waterfall_cell(upper as int, lower as int),
{
    Cell {
        ch: UPPER_HALF_BLOCK,
        fg: Color::Byte(color_mapping(upper)),
        bg: Color::Byte(color_mapping(lower)),
        attr: Attr::Default,
    }
}

/// Level at position `c` of a trace; positions past its end count as zero.
pub open spec fn level_at(s: Seq<i32>, c: int) -> int {
    if 0 <= c < s.len() {
        s[c] as int
    } else {
        0
    }
}

/// The trace shown in the upper half of waterfall row `row`.
pub open spec fn upper_trace(h: Seq<Vec<i32>>, row: int) -> Seq<i32> {
    h[2 * row]@
}

/// The trace shown in the lower half of waterfall row `row`: empty when the
/// history ends with the upper one.
pub open spec fn lower_trace(h: Seq<Vec<i32>>, row: int) -> Seq<i32> {
    if 2 * row + 1 < h.len() {
        h[2 * row + 1]@
    } else {
        Seq::empty()
    }
}

/// Number of waterfall rows that a history of `n` entries fills.
pub open spec fn filled_rows(n: int, rows: int) -> int {
    if (n + 1) / 2 < rows {
        (n + 1) / 2
    } else {
        rows
    }
}

/// Number of columns that row `row` fills: as many as the longer of its two
/// traces has positions, within the widget.
pub open spec fn filled_cols(h: Seq<Vec<i32>>, row: int, cols: int) -> int {
    let u = upper_trace(h, row).len() as int;
    let l = lower_trace(h, row).len() as int;
    let w = if u < l {
        l
    } else {
        u
    };
    if w < cols {
        w
    } else {
        cols
    }
}

/// Whether the waterfall drawn from `h` covers the cell at column `c`, row `r`.
pub open spec fn waterfall_covers(h: Seq<Vec<i32>>, cols: int, rows: int, c: int, r: int) -> bool {
    r < filled_rows(h.len() as int, rows) && c < filled_cols(h, r, cols)
}

/// The cell that the waterfall drawn from `h` puts at column `c`, row `r`.
pub open spec fn waterfall_cell_at(h: Seq<Vec<i32>>, c: int, r: int) -> Cell {
    waterfall_cell(level_at(upper_trace(h, r), c), level_at(lower_trace(h, r), c))
}

/// `after` is `before` with the waterfall of history `h` drawn over it: the
/// cells that it covers show it, the others are unchanged.
pub open spec fn shows_waterfall(after: Grid, before: Grid, h: Seq<Vec<i32>>) -> bool {
    forall|c: int, r: int|
        0 <= c < before.width() && 0 <= r < before.height() ==> {
            let covered = waterfall_covers(h, before.width() as int, before.height() as int, c, r);
            &&& covered ==> #[trigger] after.cell_at(c, r) == waterfall_cell_at(h, c, r)
            &&& !covered ==> after.cell_at(c, r) == before.cell_at(c, r)
        }
}

/// Draws the history two entries per row, newest at the top: row `r` shows
/// entry `2r` in the upper half of its cells and entry `2r + 1` in the lower
/// half. Positions past the end of one of the two traces show level zero
/// there; cells past both traces, or below the last entry, are left as they were.
pub fn draw_waterfall(canvas: &mut Grid, spectra: &WaterfallHistory<Vec<i32>>)
    requires
        old(canvas).wf(),
    ensures
        final(canvas).wf(),
        final(canvas).width() == old(canvas).width(),
        final(canvas).height() == old(canvas).height(),
        shows_waterfall(*final(canvas), *old(canvas), spectra.view()),
{
    let ghost h = spectra.view();
    let ghost before = *canvas;
    let (cols, rows) = canvas.size();
    let n = spectra.len();
    let pairs = n / 2 + n % 2;
    let mut row: usize = 0;
    while row < rows && row < pairs
        invariant
            row <= rows,
            row <= pairs,
            pairs == (n + 1) / 2,
            n == h.len(),
            h == spectra.view(),
            canvas.wf(),
            canvas.width() == cols,
            canvas.height() == rows,
            before.width() == cols,
            before.height() == rows,
            forall|c: int, r: int|
                0 <= c < cols && 0 <= r < rows ==> {
                    let covered = r < row && c < filled_cols(h, r, cols as int);
                    &&& covered ==> #[trigger] canvas.cell_at(c, r) == waterfall_cell_at(h, c, r)
                    &&& !covered ==> canvas.cell_at(c, r) == before.cell_at(c, r)
                },
        decreases rows - row,
    {
        let upper: &Vec<i32> = spectra.get(2 * row);
        let empty: Vec<i32> = Vec::new();
        let lower: &Vec<i32> = if 2 * row + 1 < n {
            spectra.get(2 * row + 1)
        } else {
            &empty
        };
        assert(upper@ == upper_trace(h, row as int));
        assert(lower@ == lower_trace(h, row as int));
        let width = if upper.len() < lower.len() { lower.len() } else { upper.len() };
        let width = if width < cols { width } else { cols };
        let ghost mid = *canvas;
        let mut c: usize = 0;
        while c < width
            invariant
                c <= width,
                width == filled_cols(h, row as int, cols as int),
                row < rows,
                upper@ == upper_trace(h, row as int),
                lower@ == lower_trace(h, row as int),
                canvas.wf(),
                canvas.width() == cols,
                canvas.height() == rows,
                mid.width() == cols,
                mid.height() == rows,
                forall|c2: int, r: int|
                    0 <= c2 < cols && 0 <= r < rows ==> {
                        let done = r == row && c2 < c;
                        &&& done ==> #[trigger] canvas.cell_at(c2, r) == waterfall_cell_at(
                            h,
                            c2,
                            r,
                        )
                        &&& !done ==> canvas.cell_at(c2, r) == mid.cell_at(c2, r)
                    },
            decreases width - c,
        {
            let u: i32 = if c < upper.len() { upper[c] } else { 0 };
            let l: i32 = if c < lower.len() { lower[c] } else { 0 };
            canvas.set(c, row, spectrum_heights_to_waterfall_cell(u, l));
            c = c + 1;
        }
        row = row + 1;
    }
}

} // verus!
