use vstd::prelude::*;

use crate::canvas::{Canvas, Cell, CustomGlyph, GlyphLibrary};
use crate::color::Color;

verus! {

/// A rectangle of the glyph atlas, in atlas pixels.
#[derive(Debug, Clone, Copy, PartialEq, Eq, Hash, Structural)]
pub struct TextureRegion {
    pub x: u32,
    pub y: u32,
    pub width: u32,
    pub height: u32,
}

/// One corner of a cell's quad.
///
/// `position` is in render-space pixels, origin bottom-left, y upward. `tex_coord` is in
/// atlas pixels; dividing it by the atlas size gives the normalized texture coordinate.
#[derive(Debug, Clone, Copy, PartialEq, Eq, Hash)]
pub struct Vertex {
    pub position: (u32, u32),
    pub tex_coord: (u64, u64),
    pub foreground_color: Color,
    pub background_color: Color,
}

pub type Index = u32;

/// The mesh of one frame: four vertices and six indices (two triangles) per cell.
pub struct CanvasGeometry {
    pub vertices: Vec<Vertex>,
    pub indices: Vec<Index>,
    pub texture_width: u32,
    pub texture_height: u32,
}

/// Horizontal offset, in cells, of corner `m` of a quad.
pub open spec fn corner_dx(m: int) -> int {
    if m == 1 || m == 3 {
        1
    } else {
        0
    }
}

/// Vertical offset, in cells and upward, of corner `m` of a quad.
pub open spec fn corner_dy(m: int) -> int {
    if m == 0 || m == 3 {
        1
    } else {
        0
    }
}

/// The corner that index `m` of a quad's six refers to: triangles (0, 1, 2) and (0, 3, 1).
pub open spec fn quad_index(m: int) -> int {
    if m == 0 || m == 3 {
        0
    } else if m == 1 || m == 5 {
        1
    } else if m == 2 {
        2
    } else {
        3
    }
}

/// Corner `m` of the quad of the cell at column `cx`, row `cy` of a grid with `rows` rows.
///
/// Row 0 is the top row, so it lies highest in render space.
pub open spec fn quad_corner<G: CustomGlyph>(
    cx: int,
    cy: int,
    rows: int,
    cell_width: int,
    cell_height: int,
    cell: Cell<G>,
    region: TextureRegion,
    m: int,
) -> Vertex {
    Vertex {
        position: (
            ((cx + corner_dx(m)) * cell_width) as u32,
            ((rows - cy - 1 + corner_dy(m)) * cell_height) as u32,
        ),
        tex_coord: (
            if corner_dx(m) == 1 {
                (region.x + region.width) as u64
            } else {
                region.x as u64
            },
            if corner_dy(m) == 1 {
                region.y as u64
            } else {
                (region.y + region.height) as u64
            },
        ),
        foreground_color: cell.foreground_color,
        background_color: cell.background_color,
    }
}

/// Corner `m` of the quad of the `k`-th cell in row-major order.
pub open spec fn canvas_corner<G: CustomGlyph, C: Canvas<G>>(
    canvas: &C,
    glyph_lib: &GlyphLibrary<G, TextureRegion>,
    cell_width: int,
    cell_height: int,
    k: int,
    m: int,
) -> Vertex {
    let cx = k % (canvas.width() as int);
    let cy = k / (canvas.width() as int);
    let cell = canvas.cell_at(cx, cy);
    quad_corner(
        cx,
        cy,
        canvas.height() as int,
        cell_width,
        cell_height,
        cell,
        glyph_lib@[cell.glyph],
        m,
    )
}

/// Every cell of the canvas shows a glyph that the library defines.
pub open spec fn all_glyphs_defined<G: CustomGlyph, C: Canvas<G>>(
    canvas: &C,
    glyph_lib: &GlyphLibrary<G, TextureRegion>,
) -> bool {
    forall|x: int, y: int|
        0 <= x < canvas.width() && 0 <= y < canvas.height() ==> glyph_lib@.contains_key(
            #[trigger] canvas.cell_at(x, y).glyph,
        )
}

proof fn lemma_quad_bounds(c: int, n: int, size: int)
    requires
        0 <= c < n,
        0 <= size,
    ensures
        c * size + size == (c + 1) * size,
        (c + 1) * size <= n * size,
        0 <= c * size,
{
    assert((c + 1) * size <= n * size) by (nonlinear_arith)
        requires
            0 <= c < n,
            0 <= size,
    ;
    assert(c * size + size == (c + 1) * size) by (nonlinear_arith);
    assert(0 <= c * size) by (nonlinear_arith)
        requires
            0 <= c,
            0 <= size,
    ;
}

proof fn lemma_row_major(cx: int, cy: int, w: int, h: int)
    requires
        0 <= cx < w,
        0 <= cy < h,
    ensures
        0 <= cy * w + cx < w * h,
        (cy * w + cx) % w == cx,
        (cy * w + cx) / w == cy,
        cy * w + w == (cy + 1) * w,
{
    assert(0 <= cy * w + cx < w * h) by (nonlinear_arith)
        requires
            0 <= cx < w,
            0 <= cy < h,
    ;
    assert(cy * w + w == (cy + 1) * w) by (nonlinear_arith);
    vstd::arithmetic::div_mod::lemma_fundamental_div_mod_converse(cy * w + cx, w, cy, cx);
}

/// Tessellates `canvas` into one textured quad per cell, cells in row-major order.
///
/// Cell `k` (column `k % width`, row `k / width`) owns vertices `4k .. 4k + 4` and
/// indices `6k .. 6k + 6`, which all point into its own four vertices.
pub fn gen_canvas_geometry<G: CustomGlyph, C: Canvas<G>>(
    canvas: &C,
    cell_width: u32,
    cell_height: u32,
    texture_width: u32,
    texture_height: u32,
    glyph_lib: &GlyphLibrary<G, TextureRegion>,
) -> (g: CanvasGeometry)
    requires
        canvas.wf(),
        glyph_lib.wf(),
        all_glyphs_defined(canvas, glyph_lib),
        canvas.width() * cell_width <= u32::MAX,
        canvas.height() * cell_height <= u32::MAX,
        canvas.width() * canvas.height() * 4 <= u32::MAX + 1,
        canvas.width() * canvas.height() * 6 <= usize::MAX,
    ensures
        g.texture_width == texture_width,
        g.texture_height == texture_height,
        g.vertices@.len() == canvas.width() * canvas.height() * 4,
        g.indices@.len() == canvas.width() * canvas.height() * 6,
        forall|i: int| 0 <= i < g.indices@.len() ==> #[trigger] g.indices@[i] < g.vertices@.len(),
        forall|k: int, m: int|
            #![trigger canvas_corner(canvas, glyph_lib, cell_width as int, cell_height as int, k, m)]
            0 <= k < canvas.width() * canvas.height() && 0 <= m < 4 ==> g.vertices@[4 * k + m]
                == canvas_corner(canvas, glyph_lib, cell_width as int, cell_height as int, k, m),
        forall|k: int, m: int|
            #![trigger quad_index(m), g.indices@[6 * k + m]]
            0 <= k < canvas.width() * canvas.height() && 0 <= m < 6 ==> g.indices@[6 * k + m] == 4
                * k + quad_index(m),
        forall|k: int, m: int|
            #![trigger g.indices@[6 * k + m]]
            0 <= k < canvas.width() * canvas.height() && 0 <= m < 6 ==> 4 * k <= g.indices@[6 * k
                + m] < 4 * k + 4,
{
    let (width_cells, height_cells) = canvas.size();
    let ghost w = width_cells as int;
    let ghost h = height_cells as int;
    let n = width_cells * height_cells;
    let mut vertices: Vec<Vertex> = Vec::with_capacity(n * 4);
    let mut indices: Vec<Index> = Vec::with_capacity(n * 6);
    let ghost cw = cell_width as int;
    let ghost ch = cell_height as int;
    let mut cell_y: usize = 0;
    while cell_y < height_cells
        invariant
            canvas.wf(),
            glyph_lib.wf(),
            all_glyphs_defined(canvas, glyph_lib),
            w == canvas.width(),
            h == canvas.height(),
            w == width_cells,
            h == height_cells,
            cw == cell_width,
            ch == cell_height,
            n == w * h,
            w * cw <= u32::MAX,
            h * ch <= u32::MAX,
            n * 4 <= u32::MAX + 1,
            cell_y <= h,
            vertices@.len() == 4 * (cell_y * w),
            indices@.len() == 6 * (cell_y * w),
            forall|k: int, m: int|
                #![trigger canvas_corner(canvas, glyph_lib, cw, ch, k, m)]
                0 <= k < cell_y * w && 0 <= m < 4 ==> vertices@[4 * k + m] == canvas_corner(
                    canvas,
                    glyph_lib,
                    cw,
                    ch,
                    k,
                    m,
                ),
            forall|k: int, m: int|
                #![trigger quad_index(m), indices@[6 * k + m]]
                0 <= k < cell_y * w && 0 <= m < 6 ==> indices@[6 * k + m] == 4 * k + quad_index(m),
        decreases h - cell_y,
    {
        let mut cell_x: usize = 0;
        while cell_x < width_cells
            invariant
                canvas.wf(),
                glyph_lib.wf(),
                all_glyphs_defined(canvas, glyph_lib),
                w == canvas.width(),
                h == canvas.height(),
                w == width_cells,
                h == height_cells,
                cw == cell_width,
                ch == cell_height,
                n == w * h,
                w * cw <= u32::MAX,
                h * ch <= u32::MAX,
                n * 4 <= u32::MAX + 1,
                cell_y < h,
                cell_x <= w,
                vertices@.len() == 4 * (cell_y * w + cell_x),
                indices@.len() == 6 * (cell_y * w + cell_x),
                forall|k: int, m: int|
                    #![trigger canvas_corner(canvas, glyph_lib, cw, ch, k, m)]
                    0 <= k < cell_y * w + cell_x && 0 <= m < 4 ==> vertices@[4 * k + m]
                        == canvas_corner(canvas, glyph_lib, cw, ch, k, m),
                forall|k: int, m: int|
                    #![trigger quad_index(m), indices@[6 * k + m]]
                    0 <= k < cell_y * w + cell_x && 0 <= m < 6 ==> indices@[6 * k + m] == 4 * k
                        + quad_index(m),
            decreases w - cell_x,
        {
            let ghost k = cell_y * w + cell_x;
            proof {
                lemma_row_major(cell_x as int, cell_y as int, w, h);
                lemma_quad_bounds(cell_x as int, w, cw);
                lemma_quad_bounds(h - cell_y - 1, h, ch);
                assert(w <= n && h <= n) by (nonlinear_arith)
                    requires
                        0 <= cell_x < w,
                        0 <= cell_y < h,
                        n == w * h,
                ;
            }
            let x: u32 = cell_x as u32 * cell_width;
            let y: u32 = (height_cells - cell_y - 1) as u32 * cell_height;
            let cell = canvas.get_cell(cell_x, cell_y);
            let region = glyph_lib.get_glyph_def(cell.glyph);
            let i: u32 = vertices.len() as u32;
            let tex_x: u64 = region.x as u64;
            let tex_y: u64 = region.y as u64;
            let tex_x2: u64 = tex_x + region.width as u64;
            let tex_y2: u64 = tex_y + region.height as u64;
            let fg = cell.foreground_color;
            let bg = cell.background_color;
            let ghost old_indices = indices@;
            let ghost old_vertices = vertices@;
            indices.push(i);
            indices.push(i + 1);
            indices.push(i + 2);
            indices.push(i);
            indices.push(i + 3);
            indices.push(i + 1);
            vertices.push(
                Vertex {
                    position: (x, y + cell_height),
                    tex_coord: (tex_x, tex_y),
                    foreground_color: fg,
                    background_color: bg,
                },
            );
            vertices.push(
                Vertex {
                    position: (x + cell_width, y),
                    tex_coord: (tex_x2, tex_y2),
                    foreground_color: fg,
                    background_color: bg,
                },
            );
            vertices.push(
                Vertex {
                    position: (x, y),
                    tex_coord: (tex_x, tex_y2),
                    foreground_color: fg,
                    background_color: bg,
                },
            );
            vertices.push(
                Vertex {
                    position: (x + cell_width, y + cell_height),
                    tex_coord: (tex_x2, tex_y),
                    foreground_color: fg,
                    background_color: bg,
                },
            );
            proof {
                assert(canvas.cell_at(cell_x as int, cell_y as int) == cell);
                assert forall|kk: int, m: int|
                    0 <= kk < k + 1 && 0 <= m < 4 implies vertices@[4 * kk + m] == canvas_corner(
                    canvas,
                    glyph_lib,
                    cw,
                    ch,
                    kk,
                    m,
                ) by {
                    if kk < k {
                        assert(vertices@[4 * kk + m] == old_vertices[4 * kk + m]);
                    } else {
                        assert(kk % w == cell_x);
                        assert(kk / w == cell_y);
                        let r = glyph_lib@[cell.glyph];
                        assert(*region == r);
                        if m == 0 {
                            assert(vertices@[4 * kk + m] == vertices@[4 * k]);
                        } else if m == 1 {
                            assert(vertices@[4 * kk + m] == vertices@[4 * k + 1]);
                        } else if m == 2 {
                            assert(vertices@[4 * kk + m] == vertices@[4 * k + 2]);
                        } else {
                            assert(vertices@[4 * kk + m] == vertices@[4 * k + 3]);
                        }
                        assert(vertices@[4 * kk + m] == quad_corner(
                            cell_x as int,
                            cell_y as int,
                            h,
                            cw,
                            ch,
                            cell,
                            r,
                            m,
                        ));
                    }
                }
                assert forall|kk: int, m: int|
                    #![trigger quad_index(m), indices@[6 * kk + m]]
                    0 <= kk < k + 1 && 0 <= m < 6 implies indices@[6 * kk + m] == 4 * kk
                        + quad_index(m) by {
                    if kk < k {
                        assert(indices@[6 * kk + m] == old_indices[6 * kk + m]);
                    }
                }
            }
            cell_x += 1;
        }
        proof {
            assert((cell_y + 1) * w == cell_y * w + w) by (nonlinear_arith);
        }
        cell_y += 1;
    }
    proof {
        assert(cell_y * w == n) by (nonlinear_arith)
            requires
                cell_y == h,
                n == w * h,
        ;
    }
    let g = CanvasGeometry { vertices, indices, texture_width, texture_height };
    assert forall|kk: int, m: int|
        #![trigger g.indices@[6 * kk + m]]
        0 <= kk < n && 0 <= m < 6 implies 4 * kk <= g.indices@[6 * kk + m] < 4 * kk + 4 by {
        assert(g.indices@[6 * kk + m] == 4 * kk + quad_index(m));
    }
    assert forall|i: int| 0 <= i < g.indices@.len() implies #[trigger] g.indices@[i]
        < g.vertices@.len() by {
        let kk = i / 6;
        let m = i % 6;
        vstd::arithmetic::div_mod::lemma_fundamental_div_mod(i, 6);
        vstd::arithmetic::div_mod::lemma_mod_pos_bound(i, 6);
        assert(i == 6 * kk + m);
        assert(0 <= kk < n);
        assert(g.indices@[6 * kk + m] == 4 * kk + quad_index(m));
    }
    g
}

/// The first cell, in row-major order, whose glyph `glyph_lib` does not define.
pub fn missing_glyph<G: CustomGlyph, C: Canvas<G>>(
    canvas: &C,
    glyph_lib: &GlyphLibrary<G, TextureRegion>,
) -> (r: Option<(usize, usize)>)
    requires
        canvas.wf(),
        glyph_lib.wf(),
    ensures
        r is None <==> all_glyphs_defined(canvas, glyph_lib),
        r matches Some((x, y)) ==> x < canvas.width() && y < canvas.height()
            && !glyph_lib@.contains_key(canvas.cell_at(x as int, y as int).glyph),
        r matches Some((x, y)) ==> forall|i: int, j: int|
            0 <= i < canvas.width() && 0 <= j < canvas.height() && (j < y || (j == y && i < x))
                ==> glyph_lib@.contains_key(#[trigger] canvas.cell_at(i, j).glyph),
{
    let (width_cells, height_cells) = canvas.size();
    let mut cell_y: usize = 0;
    while cell_y < height_cells
        invariant
            canvas.wf(),
            glyph_lib.wf(),
            width_cells == canvas.width(),
            height_cells == canvas.height(),
            cell_y <= height_cells,
            forall|x: int, y: int|
                0 <= x < width_cells && 0 <= y < cell_y ==> glyph_lib@.contains_key(
                    #[trigger] canvas.cell_at(x, y).glyph,
                ),
        decreases height_cells - cell_y,
    {
        let mut cell_x: usize = 0;
        while cell_x < width_cells
            invariant
                canvas.wf(),
                glyph_lib.wf(),
                width_cells == canvas.width(),
                height_cells == canvas.height(),
                cell_y < height_cells,
                cell_x <= width_cells,
                forall|x: int, y: int|
                    0 <= x < width_cells && 0 <= y < cell_y ==> glyph_lib@.contains_key(
                        #[trigger] canvas.cell_at(x, y).glyph,
                    ),
                forall|x: int|
                    0 <= x < cell_x ==> glyph_lib@.contains_key(
                        #[trigger] canvas.cell_at(x, cell_y as int).glyph,
                    ),
            decreases width_cells - cell_x,
        {
            let cell = canvas.get_cell(cell_x, cell_y);
            if !glyph_lib.is_defined(&cell.glyph) {
                return Some((cell_x, cell_y));
            }
            cell_x += 1;
        }
        cell_y += 1;
    }
    None
}

proof fn lemma_product_fits(a: int, b: int)
    requires
        0 <= a <= usize::MAX,
        0 <= b <= usize::MAX,
    ensures
        a * b <= u128::MAX,
{
    assert(usize::MAX <= u64::MAX);
    assert(a * b <= u64::MAX * u64::MAX) by (nonlinear_arith)
        requires
            0 <= a <= u64::MAX,
            0 <= b <= u64::MAX,
    ;
}

/// The pixel size of the surface that shows `width_cells` by `height_cells` cells,
/// if both dimensions fit in a `u32`.
pub fn surface_size(width_cells: usize, height_cells: usize, cell_width: u32, cell_height: u32) -> (r:
    Option<(u32, u32)>)
    ensures
        r is Some <==> width_cells * cell_width <= u32::MAX && height_cells * cell_height
            <= u32::MAX,
        r matches Some((w, h)) ==> w == width_cells * cell_width && h == height_cells
            * cell_height,
{
    proof {
        lemma_product_fits(width_cells as int, cell_width as int);
        lemma_product_fits(height_cells as int, cell_height as int);
    }
    let w: u128 = width_cells as u128 * cell_width as u128;
    let h: u128 = height_cells as u128 * cell_height as u128;
    if w <= u32::MAX as u128 && h <= u32::MAX as u128 {
        Some((w as u32, h as u32))
    } else {
        None
    }
}

/// Why a canvas cannot be drawn.
#[derive(Debug, Clone, Copy, PartialEq, Eq)]
pub enum FrameError {
    /// The surface or the mesh would exceed what its pixel or index types can address.
    TooLarge,
    /// The cell at this column and row shows a glyph that the library does not define.
    MissingGlyph { x: usize, y: usize },
}

/// Everything one frame needs from the canvas: the surface size in pixels and the mesh.
pub struct Frame {
    pub surface_width: u32,
    pub surface_height: u32,
    pub geometry: CanvasGeometry,
}

/// The size limits under which a canvas can be tessellated.
pub open spec fn fits_limits(width: int, height: int, cell_width: int, cell_height: int) -> bool {
    &&& width * cell_width <= u32::MAX
    &&& height * cell_height <= u32::MAX
    &&& width * height * 4 <= u32::MAX + 1
    &&& width * height * 6 <= usize::MAX
}

/// Prepares one frame of `canvas`: the surface size and the tessellated mesh.
///
/// A canvas that shows an undefined glyph yields `MissingGlyph` for its first such cell;
/// no glyph is ever substituted.
pub fn prepare_frame<G: CustomGlyph, C: Canvas<G>>(
    canvas: &C,
    cell_width: u32,
    cell_height: u32,
    texture_width: u32,
    texture_height: u32,
    glyph_lib: &GlyphLibrary<G, TextureRegion>,
) -> (r: Result<Frame, FrameError>)
    requires
        canvas.wf(),
        glyph_lib.wf(),
    ensures
        r is Ok <==> fits_limits(
            canvas.width() as int,
            canvas.height() as int,
            cell_width as int,
            cell_height as int,
        ) && all_glyphs_defined(canvas, glyph_lib),
        r matches Err(FrameError::TooLarge) ==> !fits_limits(
            canvas.width() as int,
            canvas.height() as int,
            cell_width as int,
            cell_height as int,
        ),
        r matches Err(FrameError::MissingGlyph { x, y }) ==> fits_limits(
            canvas.width() as int,
            canvas.height() as int,
            cell_width as int,
            cell_height as int,
        ) && x < canvas.width() && y < canvas.height() && !glyph_lib@.contains_key(
            canvas.cell_at(x as int, y as int).glyph,
        ) && forall|i: int, j: int|
            0 <= i < canvas.width() && 0 <= j < canvas.height() && (j < y || (j == y && i < x))
                ==> glyph_lib@.contains_key(#[trigger] canvas.cell_at(i, j).glyph),
        r matches Ok(f) ==> {
            &&& f.surface_width == canvas.width() * cell_width
            &&& f.surface_height == canvas.height() * cell_height
            &&& f.geometry.texture_width == texture_width
            &&& f.geometry.texture_height == texture_height
            &&& f.geometry.vertices@.len() == canvas.width() * canvas.height() * 4
            &&& f.geometry.indices@.len() == canvas.width() * canvas.height() * 6
            &&& forall|k: int, m: int|
                #![trigger canvas_corner(canvas, glyph_lib, cell_width as int, cell_height as int, k, m)]
                0 <= k < canvas.width() * canvas.height() && 0 <= m < 4
                    ==> f.geometry.vertices@[4 * k + m] == canvas_corner(
                    canvas,
                    glyph_lib,
                    cell_width as int,
                    cell_height as int,
                    k,
                    m,
                )
            &&& forall|k: int, m: int|
                #![trigger quad_index(m), f.geometry.indices@[6 * k + m]]
                0 <= k < canvas.width() * canvas.height() && 0 <= m < 6
                    ==> f.geometry.indices@[6 * k + m] == 4 * k + quad_index(m)
        },
{
    let (width_cells, height_cells) = canvas.size();
    let size = surface_size(width_cells, height_cells, cell_width, cell_height);
    let (surface_width, surface_height) = match size {
        Some(wh) => wh,
        None => {
            return Err(FrameError::TooLarge);
        },
    };
    proof {
        lemma_product_fits(width_cells as int, height_cells as int);
    }
    let cells: u128 = width_cells as u128 * height_cells as u128;
    if cells > 0x4000_0000 || cells * 6 > usize::MAX as u128 {
        return Err(FrameError::TooLarge);
    }
    match missing_glyph(canvas, glyph_lib) {
        Some((x, y)) => Err(FrameError::MissingGlyph { x, y }),
        None => {
            let geometry = gen_canvas_geometry(
                canvas,
                cell_width,
                cell_height,
                texture_width,
                texture_height,
                glyph_lib,
            );
            Ok(Frame { surface_width, surface_height, geometry })
        },
    }
}

} // verus!
