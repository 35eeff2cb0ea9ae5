use vstd::prelude::*;

pub mod canvas;
pub mod color;
pub mod event;
pub mod gfx;

pub use crate::canvas::Canvas;
pub use crate::color::Color;
pub use crate::event::Event;

use crate::canvas::{CustomGlyph, GlyphLibrary};

verus! {

/// What an event handler tells the wait loop.
#[derive(Debug, Clone, Copy, PartialEq, Eq, Hash, Structural)]
pub enum ControlFlow {
    Continue,
    Break,
}

/// A backend that shows canvases and reports input.
pub trait Console {
    /// What the backend needs to draw one glyph.
    type GlyphDef;

    /// Blocks, handing each input event to `event_handler`, until the handler answers
    /// `Break` or the host asks to quit.
    fn wait_for_events_forever<F>(&mut self, event_handler: F) where F: FnMut(Event) -> ControlFlow;

    /// Draws one frame of `canvas` with the glyphs of `glyph_lib` and shows it.
    fn present<G, C>(&mut self, canvas: &C, glyph_lib: &GlyphLibrary<G, Self::GlyphDef>) where
        G: CustomGlyph,
        C: Canvas<G>,
    ;
}

/// What a backend needs to open its surface.
#[derive(Debug, Clone)]
pub struct Settings {
    /// The label of the display surface.
    pub title: String,
    /// Atlas width in pixels.
    pub texture_width: u32,
    /// Atlas height in pixels.
    pub texture_height: u32,
    /// Atlas pixels: 8-bit RGBA, row-major, no padding.
    pub texture_data: Vec<u8>,
    /// Pixel width of one cell.
    pub cell_width: u32,
    /// Pixel height of one cell.
    pub cell_height: u32,
}

} // verus!
