//! Terminal spectrograph core: a framer that cuts a stream of radio samples
//! into fixed-length frames at a target rate, and the rendering engine that
//! turns each spectrum into Braille bars and a scrolling colour waterfall.

pub mod bars;
pub mod canvas;
pub mod delivery;
pub mod framer;
pub mod glyph;
pub mod grid;
pub mod history;
pub mod radio;
pub mod shift;
pub mod waterfall;

pub use bars::{draw_pixel_pair, draw_spectrum};
pub use canvas::Canvas;
pub use delivery::{Delivery, LatestSlot};
pub use framer::{Sample, SignalProcessor, discard_per_frame};
pub use glyph::pixel_nums_to_braille;
pub use grid::{Attr, Cell, Color, Grid};
pub use history::WaterfallHistory;
pub use radio::{Return, samples_from_bytes};
pub use shift::fft_shift;
pub use waterfall::{color_mapping, draw_waterfall, spectrum_heights_to_waterfall_cell};
