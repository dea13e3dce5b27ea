use vstd::prelude::*;
use crate::bars::{draw_spectrum, shows_spectrum};
use crate::grid::{Grid, MAX_CELLS, blank_cell};
use crate::history::{WaterfallHistory, at_most, pushed};
use crate::waterfall::{draw_waterfall, shows_waterfall};

verus! {

/// Whether a terminal of `cols` by `rows` cells can be laid out.
pub open spec fn fits(cols: int, rows: int) -> bool {
    &&& 0 <= cols <= MAX_CELLS
    &&& 0 <= rows <= MAX_CELLS
    &&& cols * rows <= MAX_CELLS
}

/// Height of the spectrum widget on a terminal `rows` high: the top half.
pub open spec fn spectrum_height(rows: int) -> int {
    rows / 2
}

/// Height of the waterfall widget: the rows below the spectrum.
pub open spec fn waterfall_height(rows: int) -> int {
    rows - rows / 2
}

/// The two widgets of the display, spectrum above waterfall, and the history
/// of traces that the waterfall shows.
pub struct Canvas {
    spectrum: Grid,
    waterfall: Grid,
    history: WaterfallHistory<Vec<i32>>,
}

impl Canvas {
    pub closed spec fn spectrum_view(&self) -> Grid {
        self.spectrum
    }

    pub closed spec fn waterfall_view(&self) -> Grid {
        self.waterfall
    }

    pub closed spec fn history_view(&self) -> WaterfallHistory<Vec<i32>> {
        self.history
    }

    /// The widgets fill a terminal of `cols` by `rows` cells, and the history
    /// keeps two traces per waterfall row.
    pub open spec fn laid_out_for(&self, cols: int, rows: int) -> bool {
        &&& self.spectrum_view().width() == cols
        &&& self.waterfall_view().width() == cols
        &&& self.spectrum_view().height() == spectrum_height(rows)
        &&& self.waterfall_view().height() == waterfall_height(rows)
        &&& self.history_view().cap() == 2 * waterfall_height(rows)
    }

    pub open spec fn wf(&self) -> bool {
        &&& self.spectrum_view().wf()
        &&& self.waterfall_view().wf()
        &&& self.history_view().wf()
        &&& fits(
            self.spectrum_view().width() as int,
            (self.spectrum_view().height() + self.waterfall_view().height()) as int,
        )
        &&& self.laid_out_for(
            self.spectrum_view().width() as int,
            (self.spectrum_view().height() + self.waterfall_view().height()) as int,
        )
    }

    fn layout(cols: usize, rows: usize) -> (r: (Grid, Grid))
        requires
            fits(cols as int, rows as int),
        ensures
            r.0.wf(),
            r.1.wf(),
            r.0.width() == cols,
            r.1.width() == cols,
            r.0.height() == spectrum_height(rows as int),
            r.1.height() == waterfall_height(rows as int),
            forall|c: int, w: int|
                0 <= c < cols && 0 <= w < r.0.height() ==> #[trigger] r.0.cell_at(c, w)
                    == blank_cell(),
            forall|c: int, w: int|
                0 <= c < cols && 0 <= w < r.1.height() ==> #[trigger] r.1.cell_at(c, w)
                    == blank_cell(),
    {
        let spectrum_height = rows / 2;
        let waterfall_height = if rows % 2 == 0 { rows / 2 } else { rows / 2 + 1 };
        assert(cols * spectrum_height <= cols * rows) by (nonlinear_arith)
            requires
                spectrum_height <= rows,
                cols >= 0,
        ;
        assert(cols * waterfall_height <= cols * rows) by (nonlinear_arith)
            requires
                waterfall_height <= rows,
                cols >= 0,
        ;
        (Grid::new(cols, spectrum_height), Grid::new(cols, waterfall_height))
    }

    /// Blank widgets for a terminal of `cols` by `rows` cells and an empty history.
    pub fn new(cols: usize, rows: usize) -> (r: Canvas)
        requires
            fits(cols as int, rows as int),
        ensures
            r.wf(),
            r.laid_out_for(cols as int, rows as int),
            r.history_view().view() == Seq::<Vec<i32>>::empty(),
    {
        let (spectrum, waterfall) = Canvas::layout(cols, rows);
        let history = WaterfallHistory::new(2 * waterfall.rows());
        Canvas { spectrum, waterfall, history }
    }

    /// Lays the widgets out anew, blank, for a terminal of `cols` by `rows`
    /// cells. The history keeps its newest traces that still fit.
    pub fn resize(&mut self, cols: usize, rows: usize)
        requires
            old(self).wf(),
            fits(cols as int, rows as int),
        ensures
            final(self).wf(),
            final(self).laid_out_for(cols as int, rows as int),
            final(self).history_view().view() == at_most(
                old(self).history_view().view(),
                2 * waterfall_height(rows as int) as nat,
            ),
            forall|c: int, w: int|
                0 <= c < cols && 0 <= w < spectrum_height(rows as int) ==> #[trigger] final(self).spectrum_view().cell_at(c, w) == blank_cell(),
            forall|c: int, w: int|
                0 <= c < cols && 0 <= w < waterfall_height(rows as int) ==> #[trigger] final(self).waterfall_view().cell_at(c, w) == blank_cell(),
    {
        let (spectrum, waterfall) = Canvas::layout(cols, rows);
        self.spectrum = spectrum;
        self.waterfall = waterfall;
        self.history.set_capacity(2 * self.waterfall.rows());
    }

    /// Lays the widgets out anew if they no longer fill a terminal of `cols`
    /// by `rows` cells; returns whether it did.
    pub fn check_and_resize(&mut self, cols: usize, rows: usize) -> (r: bool)
        requires
            old(self).wf(),
            fits(cols as int, rows as int),
        ensures
            final(self).wf(),
            final(self).laid_out_for(cols as int, rows as int),
            r == !old(self).laid_out_for(cols as int, rows as int),
            !r ==> *final(self) == *old(self),
            r ==> final(self).history_view().view() == at_most(
                old(self).history_view().view(),
                2 * waterfall_height(rows as int) as nat,
            ),
    {
        let (spectrum_cols, spectrum_rows) = self.spectrum.size();
        let (waterfall_cols, waterfall_rows) = self.waterfall.size();
        if cols != spectrum_cols || cols != waterfall_cols || rows != spectrum_rows
            + waterfall_rows {
            self.resize(cols, rows);
            true
        } else {
            false
        }
    }

    /// Draws a new trace: `heights` on the spectrum widget, two bars per
    /// column, and `levels`, put in front of the history, on the waterfall.
    pub fn add_spectrum(&mut self, heights: &Vec<usize>, levels: Vec<i32>)
        requires
            old(self).wf(),
        ensures
            final(self).wf(),
            final(self).spectrum_view().width() == old(self).spectrum_view().width(),
            final(self).spectrum_view().height() == old(self).spectrum_view().height(),
            final(self).waterfall_view().width() == old(self).waterfall_view().width(),
            final(self).waterfall_view().height() == old(self).waterfall_view().height(),
            final(self).history_view().cap() == old(self).history_view().cap(),
            final(self).history_view().view() == pushed(
                old(self).history_view().view(),
                levels,
                old(self).history_view().cap(),
            ),
            shows_spectrum(final(self).spectrum_view(), heights@),
            shows_waterfall(
                final(self).waterfall_view(),
                old(self).waterfall_view(),
                final(self).history_view().view(),
            ),
    {
        draw_spectrum(&mut self.spectrum, heights);
        self.history.push_front(levels);
        draw_waterfall(&mut self.waterfall, &self.history);
    }

    /// Width in bars of the spectrum widget, two per column: the frame length
    /// that fills it.
    pub fn get_spectrum_width(&self) -> (r: usize)
        requires
            self.wf(),
        ensures
            r == 2 * self.spectrum_view().width(),
    {
        2 * self.spectrum.cols()
    }

    /// Size of the spectrum widget as (columns, rows).
    pub fn spectrum_size(&self) -> (r: (usize, usize))
        ensures
            r.0 == self.spectrum_view().width(),
            r.1 == self.spectrum_view().height(),
    {
        self.spectrum.size()
    }

    /// The spectrum widget, at the top of the terminal.
    pub fn spectrum(&self) -> (r: &Grid)
        ensures
            *r == self.spectrum_view(),
    {
        &self.spectrum
    }

    /// The waterfall widget, below the spectrum widget.
    pub fn waterfall(&self) -> (r: &Grid)
        ensures
            *r == self.waterfall_view(),
    {
        &self.waterfall
    }

    /// The traces that the waterfall shows, newest first.
    pub fn history(&self) -> (r: &WaterfallHistory<Vec<i32>>)
        ensures
            *r == self.history_view(),
    {
        &self.history
    }
}

} // verus!
