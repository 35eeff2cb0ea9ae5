use tcrab_console::canvas::{Cell, CellBuffer, CustomGlyph, Glyph, GlyphLibrary};
use tcrab_console::{Canvas, Color};

#[derive(Debug, Clone, Copy, PartialEq, Eq, Hash)]
enum Sym {
    Happy,
    Sad,
}

impl CustomGlyph for Sym {
    fn same_glyph(&self, other: &Self) -> bool {
        self == other
    }
}

fn cell(c: char, fg: [u8; 4]) -> Cell<Sym> {
    Cell { glyph: Glyph::Char(c), foreground_color: Color::from_rgba_u8(fg), background_color: Color::black() }
}

#[test]
fn new_buffer_holds_fill_cell_everywhere() {
    let fill = cell('.', [25, 25, 25, 255]);
    let buf = CellBuffer::new(4, 3, fill);
    assert_eq!(buf.size(), (4, 3));
    for y in 0..3 {
        for x in 0..4 {
            assert_eq!(buf.get_cell(x, y), fill);
        }
    }
}

#[test]
fn set_then_get_returns_written_cell() {
    let mut buf = CellBuffer::new(5, 4, Cell::<Sym>::default());
    let c = Cell { glyph: Glyph::Custom(Sym::Happy), foreground_color: Color::white(), background_color: Color::from_rgba_u8([53, 35, 156, 255]) };
    buf.set_cell(4, 3, c);
    buf.set_cell(0, 0, cell('@', [255, 0, 0, 255]));
    assert_eq!(buf.get_cell(4, 3), c);
    assert_eq!(buf.get_cell(0, 0), cell('@', [255, 0, 0, 255]));
    assert_eq!(buf.get_cell(3, 3), Cell::default());
    assert_eq!(buf.get_cell(4, 2), Cell::default());
}

#[test]
fn fill_overwrites_every_cell() {
    let mut buf = CellBuffer::new(3, 2, Cell::<Sym>::default());
    buf.set_cell(1, 1, cell('x', [1, 2, 3, 4]));
    let c = cell('#', [9, 9, 9, 255]);
    buf.fill(c);
    for y in 0..2 {
        for x in 0..3 {
            assert_eq!(buf.get_cell(x, y), c);
        }
    }
    assert_eq!(buf.size(), (3, 2));
}

#[test]
fn fill_on_empty_canvas_is_harmless() {
    let mut buf = CellBuffer::new(0, 7, Cell::<Sym>::default());
    buf.fill(cell('#', [9, 9, 9, 255]));
    assert_eq!(buf.size(), (0, 7));
}

#[test]
fn default_cell_is_white_space_on_black() {
    let c = Cell::<Sym>::default();
    assert_eq!(c.glyph, Glyph::Char(' '));
    assert_eq!(c.foreground_color, Color::from_rgba_u8([255, 255, 255, 255]));
    assert_eq!(c.background_color, Color::from_rgba_u8([0, 0, 0, 255]));
}

#[test]
fn glyph_from_char_and_custom() {
    let a: Glyph<Sym> = 'a'.into();
    let h: Glyph<Sym> = Sym::Happy.into();
    assert_eq!(a, Glyph::Char('a'));
    assert_eq!(h, Glyph::Custom(Sym::Happy));
    assert!(a.same_glyph(&Glyph::Char('a')));
    assert!(!a.same_glyph(&Glyph::Char('b')));
    assert!(!h.same_glyph(&Glyph::Custom(Sym::Sad)));
    assert!(!h.same_glyph(&a));
}

#[test]
fn redefining_a_glyph_keeps_the_last_definition() {
    let mut lib: GlyphLibrary<Sym, u32> = GlyphLibrary::new();
    lib.define_glyph('@'.into(), 1);
    lib.define_glyph('@'.into(), 2);
    assert_eq!(*lib.get_glyph_def('@'.into()), 2);
}

#[test]
fn distinct_glyphs_keep_their_own_definitions() {
    let mut lib: GlyphLibrary<Sym, u32> = GlyphLibrary::new();
    lib.define_glyph('@'.into(), 10);
    lib.define_glyph(Sym::Happy.into(), 20);
    lib.define_glyph(Sym::Sad.into(), 30);
    lib.define_glyph(Sym::Happy.into(), 21);
    assert_eq!(*lib.get_glyph_def('@'.into()), 10);
    assert_eq!(*lib.get_glyph_def(Glyph::Custom(Sym::Happy)), 21);
    assert_eq!(*lib.get_glyph_def(Glyph::Custom(Sym::Sad)), 30);
}

#[test]
fn is_defined_reports_registration() {
    let mut lib: GlyphLibrary<Sym, u32> = GlyphLibrary::new();
    assert!(!lib.is_defined(&Glyph::Char('a')));
    lib.define_glyph('a'.into(), 0);
    assert!(lib.is_defined(&Glyph::Char('a')));
    assert!(!lib.is_defined(&Glyph::Char('b')));
    assert!(!lib.is_defined(&Glyph::Custom(Sym::Happy)));
}

#[test]
fn color_channels() {
    let c = Color::from_rgba_u8([25, 35, 45, 128]);
    assert_eq!(c.to_rgba_u8(), [25, 35, 45, 128]);
    assert_eq!(c.to_rgb_u8(), [25, 35, 45]);
    assert_eq!(Color::white().to_rgba_u8(), [255, 255, 255, 255]);
    assert_eq!(Color::black().to_rgba_u8(), [0, 0, 0, 255]);
}
