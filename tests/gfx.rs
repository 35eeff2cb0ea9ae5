use tcrab_console::canvas::{Cell, CellBuffer, CustomGlyph, Glyph, GlyphLibrary};
use tcrab_console::gfx::{gen_canvas_geometry, missing_glyph, prepare_frame, surface_size, FrameError, TextureRegion, Vertex};
use tcrab_console::{Canvas, Color};

#[derive(Debug, Clone, Copy, PartialEq, Eq, Hash)]
enum Sym {
    Happy,
}

impl CustomGlyph for Sym {
    fn same_glyph(&self, other: &Self) -> bool {
        self == other
    }
}

fn region(x: u32, y: u32) -> TextureRegion {
    TextureRegion { x, y, width: 8, height: 8 }
}

fn library() -> GlyphLibrary<Sym, TextureRegion> {
    let mut lib = GlyphLibrary::new();
    lib.define_glyph(' '.into(), region(0, 0));
    lib.define_glyph('@'.into(), region(8, 0));
    lib.define_glyph(Sym::Happy.into(), region(0, 8));
    lib
}

#[test]
fn tessellation_counts_and_index_groups() {
    let lib = library();
    let mut canvas = CellBuffer::new(3, 2, Cell::<Sym>::default());
    canvas.set_cell(2, 1, Cell { glyph: Glyph::Custom(Sym::Happy), ..Cell::default() });
    let g = gen_canvas_geometry(&canvas, 8, 8, 64, 64, &lib);
    assert_eq!(g.vertices.len(), 3 * 2 * 4);
    assert_eq!(g.indices.len(), 3 * 2 * 6);
    for (k, group) in g.indices.chunks(6).enumerate() {
        let base = (4 * k) as u32;
        assert_eq!(group, &[base, base + 1, base + 2, base, base + 3, base + 1]);
        for &i in group {
            assert!((i as usize) < g.vertices.len());
        }
    }
}

#[test]
fn quad_corners_of_first_cell() {
    let lib = library();
    let fg = Color::from_rgba_u8([255, 0, 0, 255]);
    let bg = Color::from_rgba_u8([0, 0, 255, 255]);
    let mut canvas = CellBuffer::new(2, 1, Cell::<Sym>::default());
    canvas.set_cell(1, 0, Cell { glyph: '@'.into(), foreground_color: fg, background_color: bg });
    let g = gen_canvas_geometry(&canvas, 8, 12, 64, 64, &lib);
    let v = |position, tex_coord| Vertex { position, tex_coord, foreground_color: fg, background_color: bg };
    assert_eq!(
        &g.vertices[4..8],
        &[v((8, 12), (8, 0)), v((16, 0), (16, 8)), v((8, 0), (8, 8)), v((16, 12), (16, 0))]
    );
    assert_eq!(g.vertices[0].foreground_color, Color::white());
    assert_eq!(g.vertices[0].background_color, Color::black());
    assert_eq!(g.texture_width, 64);
    assert_eq!(g.texture_height, 64);
}

#[test]
fn top_row_renders_above_bottom_row() {
    let lib = library();
    let canvas = CellBuffer::new(1, 2, Cell::<Sym>::default());
    let g = gen_canvas_geometry(&canvas, 8, 8, 64, 64, &lib);
    let min_y = |k: usize| g.vertices[4 * k..4 * k + 4].iter().map(|v| v.position.1).min().unwrap();
    let max_y = |k: usize| g.vertices[4 * k..4 * k + 4].iter().map(|v| v.position.1).max().unwrap();
    assert_eq!(min_y(0), 8);
    assert_eq!(max_y(0), 16);
    assert_eq!(min_y(1), 0);
    assert_eq!(max_y(1), 8);
}

#[test]
fn texture_coordinates_fall_inside_the_glyph_region() {
    let lib = library();
    let canvas = CellBuffer::new(1, 1, Cell::<Sym> { glyph: '@'.into(), ..Cell::default() });
    let g = gen_canvas_geometry(&canvas, 8, 8, 64, 64, &lib);
    let mut us = Vec::new();
    let mut vs = Vec::new();
    for v in &g.vertices {
        let u = v.tex_coord.0 as f64 / g.texture_width as f64;
        let w = v.tex_coord.1 as f64 / g.texture_height as f64;
        assert!((0.125..=0.25).contains(&u));
        assert!((0.0..=0.125).contains(&w));
        us.push(u);
        vs.push(w);
    }
    assert!(us.contains(&0.125) && us.contains(&0.25));
    assert!(vs.contains(&0.0) && vs.contains(&0.125));
}

#[test]
fn empty_canvas_gives_empty_mesh() {
    let lib = library();
    let canvas = CellBuffer::new(0, 5, Cell::<Sym>::default());
    let g = gen_canvas_geometry(&canvas, 8, 8, 64, 64, &lib);
    assert!(g.vertices.is_empty());
    assert!(g.indices.is_empty());
}

#[test]
fn undefined_glyph_is_reported_not_substituted() {
    let lib = library();
    let mut canvas = CellBuffer::new(4, 3, Cell::<Sym>::default());
    assert_eq!(missing_glyph(&canvas, &lib), None);
    canvas.set_cell(2, 1, Cell { glyph: 'z'.into(), ..Cell::default() });
    canvas.set_cell(0, 2, Cell { glyph: 'q'.into(), ..Cell::default() });
    assert_eq!(missing_glyph(&canvas, &lib), Some((2, 1)));
    match prepare_frame(&canvas, 8, 8, 64, 64, &lib) {
        Err(e) => assert_eq!(e, FrameError::MissingGlyph { x: 2, y: 1 }),
        Ok(_) => panic!("a frame was prepared with an undefined glyph"),
    }
}

#[test]
fn prepare_frame_sizes_the_surface() {
    let lib = library();
    let canvas = CellBuffer::new(80, 50, Cell::<Sym>::default());
    let frame = prepare_frame(&canvas, 8, 12, 128, 64, &lib).ok().unwrap();
    assert_eq!((frame.surface_width, frame.surface_height), (640, 600));
    assert_eq!(frame.geometry.vertices.len(), 80 * 50 * 4);
    assert_eq!(frame.geometry.indices.len(), 80 * 50 * 6);
    assert_eq!(*frame.geometry.indices.last().unwrap(), 80 * 50 * 4 - 3);
}

#[test]
fn prepare_frame_rejects_oversized_surface() {
    let lib = library();
    let canvas = CellBuffer::new(2, 2, Cell::<Sym>::default());
    match prepare_frame(&canvas, u32::MAX, 1, 64, 64, &lib) {
        Err(e) => assert_eq!(e, FrameError::TooLarge),
        Ok(_) => panic!("oversized surface accepted"),
    }
}

#[test]
fn surface_size_multiplies_or_refuses() {
    assert_eq!(surface_size(80, 50, 8, 8), Some((640, 400)));
    assert_eq!(surface_size(0, 0, 8, 8), Some((0, 0)));
    assert_eq!(surface_size(1, 1, u32::MAX, u32::MAX), Some((u32::MAX, u32::MAX)));
    assert_eq!(surface_size(2, 1, u32::MAX, 1), None);
    assert_eq!(surface_size(1, 1 << 20, 1, 1 << 12), None);
}
