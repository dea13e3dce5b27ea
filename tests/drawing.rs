use terminal_spectrograph::bars::char_to_cell;
use terminal_spectrograph::canvas::Canvas;
use terminal_spectrograph::grid::{Attr, Cell, Color, Grid};
use terminal_spectrograph::history::WaterfallHistory;
use terminal_spectrograph::waterfall::{
    color_mapping, draw_waterfall, spectrum_heights_to_waterfall_cell, PALETTE_LEN,
};
use terminal_spectrograph::{draw_pixel_pair, draw_spectrum, pixel_nums_to_braille};

#[test]
fn test_pixel_nums() {
    assert_eq!(pixel_nums_to_braille(Some(0), Some(0)), '⣿');
    assert_eq!(pixel_nums_to_braille(Some(1), Some(2)), '⣦');
    assert_eq!(pixel_nums_to_braille(None, Some(3)), '⢀');
    assert_eq!(pixel_nums_to_braille(Some(2), None), '⡄');
    assert_eq!(pixel_nums_to_braille(None, None), '⠀');
}

#[test]
fn test_draw_pixel_pair() {
    let mut term = Grid::new(4, 12);

    // Test drawing with the same top cell
    draw_pixel_pair(&mut term, 0, 4, 6);
    assert_eq!(term.get(0, term.rows() - 3).ch, ' ');
    assert_eq!(term.get(0, term.rows() - 2).ch, '⣰');
    assert_eq!(term.get(0, term.rows() - 1).ch, '⣿');
    term.clear(Cell::blank());

    // Test drawing with the top pixel in each column being in
    // different cells
    draw_pixel_pair(&mut term, 0, 4, 8);
    assert_eq!(term.get(0, term.rows() - 4).ch, ' ');
    assert_eq!(term.get(0, term.rows() - 3).ch, '⢀');
    assert_eq!(term.get(0, term.rows() - 2).ch, '⣸');
    assert_eq!(term.get(0, term.rows() - 1).ch, '⣿');
    term.clear(Cell::blank());

    draw_pixel_pair(&mut term, 1, 13, 2);
    assert_eq!(term.get(1, term.rows() - 5).ch, ' ');
    assert_eq!(term.get(1, term.rows() - 4).ch, '⡄');
    assert_eq!(term.get(1, term.rows() - 3).ch, '⡇');
    assert_eq!(term.get(1, term.rows() - 2).ch, '⡇');
    assert_eq!(term.get(1, term.rows() - 1).ch, '⣷');
    term.clear(Cell::blank());
}

fn left_dots(c: char) -> u32 {
    let bits = c as u32 - 0x2800;
    [0x01u32, 0x02, 0x04, 0x40].iter().filter(|&&b| bits & b != 0).count() as u32
}

#[test]
fn braille_full_and_blank_glyphs() {
    assert_eq!(pixel_nums_to_braille(Some(0), Some(0)) as u32, 0x28FF);
    assert_eq!(pixel_nums_to_braille(None, None) as u32, 0x2800);
    // indices past the cell light nothing
    assert_eq!(pixel_nums_to_braille(Some(4), Some(200)) as u32, 0x2800);
}

#[test]
fn braille_left_fill_shrinks_as_index_grows() {
    for right in [None, Some(0u8), Some(2), Some(3)] {
        let counts: Vec<u32> =
            (0u8..6).map(|p| left_dots(pixel_nums_to_braille(Some(p), right))).collect();
        assert_eq!(counts, vec![4, 3, 2, 1, 0, 0]);
    }
}

#[test]
fn bar_cells_are_bold_in_default_colours() {
    let mut g = Grid::new(1, 2);
    draw_pixel_pair(&mut g, 0, 0, 0);
    let c = g.get(0, 1);
    assert_eq!(c, char_to_cell('⣀'));
    assert_eq!(c.attr, Attr::Bold);
    assert_eq!(c.fg, Color::Default);
    assert_eq!(g.get(0, 0), Cell::blank());
}

#[test]
fn draw_pixel_pair_clamps_tall_bars() {
    let mut g = Grid::new(1, 3);
    draw_pixel_pair(&mut g, 0, 1000, 11);
    for row in 0..3 {
        assert_eq!(g.get(0, row).ch, '⣿');
    }
}

#[test]
fn draw_pixel_pair_outside_grid_changes_nothing() {
    let mut g = Grid::new(2, 3);
    draw_pixel_pair(&mut g, 2, 5, 5);
    for col in 0..2 {
        for row in 0..3 {
            assert_eq!(g.get(col, row), Cell::blank());
        }
    }
    let mut empty = Grid::new(2, 0);
    draw_pixel_pair(&mut empty, 0, 5, 5);
    assert_eq!(empty.size(), (2, 0));
}

#[test]
fn draw_spectrum_pairs_heights_per_column() {
    let mut g = Grid::new(3, 2);
    g.set(2, 0, char_to_cell('x'));
    // two columns of bars, an unpaired last height that is not drawn
    draw_spectrum(&mut g, &vec![3, 7, 0, 4, 9]);
    assert_eq!(g.get(0, 0).ch, '⢸');
    assert_eq!(g.get(0, 1).ch, '⣿');
    assert_eq!(g.get(1, 0).ch, '⢀');
    assert_eq!(g.get(1, 1).ch, '⣸');
    // the widget was cleared first
    assert_eq!(g.get(2, 0), Cell::blank());
    assert_eq!(g.get(2, 1), Cell::blank());
}

#[test]
fn color_mapping_clamps_to_palette() {
    assert_eq!(PALETTE_LEN, 20);
    assert_eq!(color_mapping(-3), 16);
    assert_eq!(color_mapping(0), 16);
    assert_eq!(color_mapping(4), 21);
    assert_eq!(color_mapping(10), 50);
    assert_eq!(color_mapping(19), 226);
    assert_eq!(color_mapping(20), 226);
    assert_eq!(color_mapping(i32::MAX), 226);
}

#[test]
fn waterfall_cell_colours_both_halves() {
    let c = spectrum_heights_to_waterfall_cell(15, 2);
    assert_eq!(c.ch, '▀');
    assert_eq!(c.fg, Color::Byte(82));
    assert_eq!(c.bg, Color::Byte(18));
    assert_eq!(c.attr, Attr::Default);
}

#[test]
fn waterfall_pairs_entries_and_handles_ragged_traces() {
    let mut h: WaterfallHistory<Vec<i32>> = WaterfallHistory::new(6);
    h.push_front(vec![1, 2, 3]); // oldest
    h.push_front(vec![4]);
    h.push_front(vec![5, 6]); // newest
    let mut g = Grid::new(4, 3);
    g.set(3, 0, char_to_cell('x'));
    draw_waterfall(&mut g, &h);
    // row 0: newest above, next-newest below; past its end the lower half is zero
    assert_eq!(g.get(0, 0), spectrum_heights_to_waterfall_cell(5, 4));
    assert_eq!(g.get(1, 0), spectrum_heights_to_waterfall_cell(6, 0));
    assert_eq!(g.get(2, 0), Cell::blank());
    assert_eq!(g.get(3, 0).ch, 'x');
    // row 1: the last entry alone, with level zero below
    assert_eq!(g.get(0, 1), spectrum_heights_to_waterfall_cell(1, 0));
    assert_eq!(g.get(2, 1), spectrum_heights_to_waterfall_cell(3, 0));
    assert_eq!(g.get(3, 1), Cell::blank());
    // no entries left for row 2
    assert_eq!(g.get(0, 2), Cell::blank());
}

#[test]
fn history_never_exceeds_capacity() {
    let mut h: WaterfallHistory<u32> = WaterfallHistory::new(4);
    for x in 0..5u32 {
        h.push_front(x);
        assert!(h.len() <= h.capacity());
    }
    assert_eq!(h.len(), 4);
    let kept: Vec<u32> = (0..h.len()).map(|i| *h.get(i)).collect();
    assert_eq!(kept, vec![4, 3, 2, 1]);
    assert!(!kept.contains(&0));
}

#[test]
fn history_shrinks_to_new_capacity_keeping_newest() {
    let mut h: WaterfallHistory<u32> = WaterfallHistory::new(5);
    for x in 0..5u32 {
        h.push_front(x);
    }
    h.set_capacity(2);
    assert_eq!(h.capacity(), 2);
    assert_eq!((h.len(), *h.get(0), *h.get(1)), (2, 4, 3));
    let mut z: WaterfallHistory<u32> = WaterfallHistory::new(0);
    z.push_front(9);
    assert_eq!(z.len(), 0);
}

#[test]
fn canvas_splits_rows_between_widgets() {
    let c = Canvas::new(40, 25);
    assert_eq!(c.spectrum().size(), (40, 12));
    assert_eq!(c.waterfall().size(), (40, 13));
    assert_eq!(c.history().capacity(), 26);
    assert_eq!(c.get_spectrum_width(), 80);
    let even = Canvas::new(10, 8);
    assert_eq!(even.spectrum_size(), (10, 4));
    assert_eq!(even.waterfall().size(), (10, 4));
}

#[test]
fn canvas_resizes_only_on_change() {
    let mut c = Canvas::new(6, 4);
    let levels = vec![1, 2, 3];
    for _ in 0..4 {
        c.add_spectrum(&vec![1, 2, 3, 4], levels.clone());
    }
    assert_eq!(c.history().len(), 4);
    assert!(!c.check_and_resize(6, 4));
    assert_eq!(c.spectrum().get(0, 1).ch, '⣴');
    assert!(c.check_and_resize(6, 2));
    assert_eq!(c.spectrum().size(), (6, 1));
    assert_eq!(c.waterfall().size(), (6, 1));
    assert_eq!(c.history().len(), 2);
    assert_eq!(c.spectrum().get(0, 0), Cell::blank());
}

#[test]
fn canvas_add_spectrum_draws_both_widgets() {
    let mut c = Canvas::new(2, 2);
    c.add_spectrum(&vec![3, 0, 1, 2], vec![7, 12]);
    assert_eq!(c.spectrum().get(0, 0).ch, '⣇');
    assert_eq!(c.spectrum().get(1, 0).ch, '⣴');
    assert_eq!(c.waterfall().get(0, 0), spectrum_heights_to_waterfall_cell(7, 0));
    assert_eq!(c.waterfall().get(1, 0), spectrum_heights_to_waterfall_cell(12, 0));
    c.add_spectrum(&vec![0, 0, 0, 0], vec![19]);
    assert_eq!(c.waterfall().get(0, 0), spectrum_heights_to_waterfall_cell(19, 7));
    assert_eq!(c.waterfall().get(1, 0), spectrum_heights_to_waterfall_cell(0, 12));
}
