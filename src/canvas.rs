use std::hash::Hash;

use vstd::prelude::*;

use crate::color::Color;

verus! {

/// An application-defined set of symbols that cells may show beside characters.
///
/// Implementors provide an executable equality test that agrees with value equality,
/// which is what glyph lookups compare by.
pub trait CustomGlyph: Copy + Eq + Hash {
    fn same_glyph(&self, other: &Self) -> (r: bool)
        ensures
            r == (*self == *other),
    ;
}

/// The visual identity of a cell: a character or an application-defined symbol.
#[derive(Debug, Clone, Copy, PartialEq, Eq, Hash)]
pub enum Glyph<C: CustomGlyph> {
    Char(char),
    Custom(C),
}

impl<C: CustomGlyph> Glyph<C> {
    /// Executable equality of glyph identities.
    pub fn same_glyph(&self, other: &Self) -> (r: bool)
        ensures
            r == (*self == *other),
    {
        match (self, other) {
            (Glyph::Char(a), Glyph::Char(b)) => *a == *b,
            (Glyph::Custom(a), Glyph::Custom(b)) => a.same_glyph(b),
            _ => false,
        }
    }
}

impl<C: CustomGlyph> From<char> for Glyph<C> {
    fn from(c: char) -> Glyph<C> {
        Glyph::Char(c)
    }
}

impl<C: CustomGlyph> vstd::std_specs::convert::FromSpecImpl<char> for Glyph<C> {
    open spec fn obeys_from_spec() -> bool {
        true
    }

    open spec fn from_spec(c: char) -> Glyph<C> {
        Glyph::Char(c)
    }
}

impl<C: CustomGlyph> From<C> for Glyph<C> {
    fn from(c: C) -> Glyph<C> {
        Glyph::Custom(c)
    }
}

impl<C: CustomGlyph> vstd::std_specs::convert::FromSpecImpl<C> for Glyph<C> {
    open spec fn obeys_from_spec() -> bool {
        true
    }

    open spec fn from_spec(c: C) -> Glyph<C> {
        Glyph::Custom(c)
    }
}

/// A registry from glyph identity to a backend-specific definition.
///
/// Keys are unique; registering a glyph again replaces its definition.
#[verifier::reject_recursive_types(C)]
pub struct GlyphLibrary<C: CustomGlyph, D> {
    glyphs: Vec<(Glyph<C>, D)>,
    defs: Ghost<Map<Glyph<C>, D>>,
}

impl<C: CustomGlyph, D> GlyphLibrary<C, D> {
    /// The registered definitions.
    pub closed spec fn view(&self) -> Map<Glyph<C>, D> {
        self.defs@
    }

    pub closed spec fn wf(&self) -> bool {
        &&& forall|i: int, j: int|
            0 <= i < j < self.glyphs@.len() ==> #[trigger] self.glyphs@[i].0
                != #[trigger] self.glyphs@[j].0
        &&& forall|g: Glyph<C>|
            #[trigger] self.defs@.contains_key(g) <==> exists|i: int|
                0 <= i < self.glyphs@.len() && #[trigger] self.glyphs@[i].0 == g
        &&& forall|i: int|
            0 <= i < self.glyphs@.len() ==> self.defs@[#[trigger] self.glyphs@[i].0]
                == self.glyphs@[i].1
    }

    pub fn new() -> (lib: GlyphLibrary<C, D>)
        ensures
            lib.wf(),
            lib@ == Map::<Glyph<C>, D>::empty(),
    {
        GlyphLibrary { glyphs: Vec::new(), defs: Ghost(Map::empty()) }
    }

    /// Registers `def` for `glyph`, replacing any earlier definition of it.
    pub fn define_glyph(&mut self, glyph: Glyph<C>, def: D)
        requires
            old(self).wf(),
        ensures
            final(self).wf(),
            final(self)@ == old(self)@.insert(glyph, def),
    {
        let ghost new_defs = self.defs@.insert(glyph, def);
        let n = self.glyphs.len();
        let mut i: usize = 0;
        while i < n
            invariant
                self.wf(),
                self.defs@ == old(self).defs@,
                new_defs == self.defs@.insert(glyph, def),
                n == self.glyphs@.len(),
                i <= n,
                forall|j: int| 0 <= j < i ==> #[trigger] self.glyphs@[j].0 != glyph,
            decreases n - i,
        {
            if self.glyphs[i].0.same_glyph(&glyph) {
                let ghost before = self.glyphs@;
                self.glyphs[i] = (glyph, def);
                self.defs = Ghost(new_defs);
                assert forall|g: Glyph<C>|
                    #[trigger] self.defs@.contains_key(g) <==> exists|k: int|
                        0 <= k < self.glyphs@.len() && #[trigger] self.glyphs@[k].0 == g by {
                    if self.defs@.contains_key(g) && g != glyph {
                        let k = choose|k: int| 0 <= k < before.len() && #[trigger] before[k].0 == g;
                        assert(self.glyphs@[k].0 == g);
                    }
                    if g == glyph {
                        assert(self.glyphs@[i as int].0 == g);
                    }
                }
                return ;
            }
            i += 1;
        }
        let ghost before = self.glyphs@;
        self.glyphs.push((glyph, def));
        self.defs = Ghost(new_defs);
        assert forall|g: Glyph<C>|
            #[trigger] self.defs@.contains_key(g) <==> exists|k: int|
                0 <= k < self.glyphs@.len() && #[trigger] self.glyphs@[k].0 == g by {
            if self.defs@.contains_key(g) && g != glyph {
                let k = choose|k: int| 0 <= k < before.len() && #[trigger] before[k].0 == g;
                assert(self.glyphs@[k].0 == g);
            }
            if g == glyph {
                assert(self.glyphs@[n as int].0 == g);
            }
        }
    }

    /// Whether `glyph` has a definition.
    pub fn is_defined(&self, glyph: &Glyph<C>) -> (r: bool)
        requires
            self.wf(),
        ensures
            r == self@.contains_key(*glyph),
    {
        let n = self.glyphs.len();
        let mut i: usize = 0;
        while i < n
            invariant
                self.wf(),
                n == self.glyphs@.len(),
                i <= n,
                forall|j: int| 0 <= j < i ==> #[trigger] self.glyphs@[j].0 != *glyph,
            decreases n - i,
        {
            if self.glyphs[i].0.same_glyph(glyph) {
                return true;
            }
            i += 1;
        }
        false
    }

    /// The definition registered for `glyph`, which must have one.
    pub fn get_glyph_def(&self, glyph: Glyph<C>) -> (d: &D)
        requires
            self.wf(),
            self@.contains_key(glyph),
        ensures
            *d == self@[glyph],
    {
        let n = self.glyphs.len();
        let mut i: usize = 0;
        while i < n
            invariant
                self.wf(),
                self@.contains_key(glyph),
                n == self.glyphs@.len(),
                i <= n,
                forall|j: int| 0 <= j < i ==> #[trigger] self.glyphs@[j].0 != glyph,
            decreases n - i,
        {
            if self.glyphs[i].0.same_glyph(&glyph) {
                return &self.glyphs[i].1;
            }
            i += 1;
        }
        vstd::pervasive::unreached()
    }
}

/// Registering a glyph twice keeps the second definition, as if only it had been registered.
pub proof fn lemma_redefine_glyph<C: CustomGlyph, D>(
    lib: GlyphLibrary<C, D>,
    glyph: Glyph<C>,
    first: D,
    second: D,
)
    ensures
        lib@.insert(glyph, first).insert(glyph, second)[glyph] == second,
        lib@.insert(glyph, first).insert(glyph, second) == lib@.insert(glyph, second),
{
    assert(lib@.insert(glyph, first).insert(glyph, second) =~= lib@.insert(glyph, second));
}

/// Registering two distinct glyphs leaves each with its own definition, in either order.
pub proof fn lemma_distinct_glyphs<C: CustomGlyph, D>(
    lib: GlyphLibrary<C, D>,
    a: Glyph<C>,
    def_a: D,
    b: Glyph<C>,
    def_b: D,
)
    requires
        a != b,
    ensures
        lib@.insert(a, def_a).insert(b, def_b)[a] == def_a,
        lib@.insert(a, def_a).insert(b, def_b)[b] == def_b,
        lib@.insert(a, def_a).insert(b, def_b) == lib@.insert(b, def_b).insert(a, def_a),
{
    assert(lib@.insert(a, def_a).insert(b, def_b) =~= lib@.insert(b, def_b).insert(a, def_a));
}

/// One grid element: a glyph drawn in a foreground color over a background color.
#[derive(Debug, Clone, Copy, PartialEq, Eq, Hash)]
pub struct Cell<C: CustomGlyph> {
    pub glyph: Glyph<C>,
    pub foreground_color: Color,
    pub background_color: Color,
}

impl<C: CustomGlyph> Default for Cell<C> {
    /// A space, white on black.
    fn default() -> (c: Cell<C>)
        ensures
            c == (Cell::<C> {
                glyph: Glyph::Char(' '),
                foreground_color: Color { r: 255, g: 255, b: 255, a: 255 },
                background_color: Color { r: 0, g: 0, b: 0, a: 255 },
            }),
    {
        Cell { glyph: Glyph::Char(' '), foreground_color: Color::white(), background_color: Color::black() }
    }
}

/// A fixed-size rectangular grid of cells, addressed by `(x, y)` from the top-left corner.
pub trait Canvas<C: CustomGlyph> {
    /// The storage's own consistency condition.
    spec fn wf(&self) -> bool;

    /// Number of columns.
    spec fn width(&self) -> nat;

    /// Number of rows.
    spec fn height(&self) -> nat;

    /// The cell at column `x`, row `y`.
    spec fn cell_at(&self, x: int, y: int) -> Cell<C>;

    fn size(&self) -> (r: (usize, usize))
        requires
            self.wf(),
        ensures
            r.0 == self.width(),
            r.1 == self.height(),
    ;

    fn get_cell(&self, x: usize, y: usize) -> (c: Cell<C>)
        requires
            self.wf(),
            x < self.width(),
            y < self.height(),
        ensures
            c == self.cell_at(x as int, y as int),
    ;

    fn set_cell(&mut self, x: usize, y: usize, cell: Cell<C>)
        requires
            old(self).wf(),
            x < old(self).width(),
            y < old(self).height(),
        ensures
            final(self).wf(),
            final(self).width() == old(self).width(),
            final(self).height() == old(self).height(),
            final(self).cell_at(x as int, y as int) == cell,
            forall|i: int, j: int|
                0 <= i < old(self).width() && 0 <= j < old(self).height() ==> #[trigger] final(self).cell_at(i, j) == if i == x && j == y {
                    cell
                } else {
                    old(self).cell_at(i, j)
                },
    ;

    /// Overwrites every cell with `cell`.
    fn fill(&mut self, cell: Cell<C>)
        requires
            old(self).wf(),
        ensures
            final(self).wf(),
            final(self).width() == old(self).width(),
            final(self).height() == old(self).height(),
            forall|i: int, j: int|
                0 <= i < old(self).width() && 0 <= j < old(self).height() ==> #[trigger] final(self).cell_at(i, j) == cell,
    {
        let (width, height) = self.size();
        let mut y: usize = 0;
        while y < height
            invariant
                self.wf(),
                self.width() == width,
                self.height() == height,
                y <= height,
                forall|i: int, j: int|
                    0 <= i < width && 0 <= j < y ==> #[trigger] self.cell_at(i, j) == cell,
            decreases height - y,
        {
            let mut x: usize = 0;
            while x < width
                invariant
                    self.wf(),
                    self.width() == width,
                    self.height() == height,
                    y < height,
                    x <= width,
                    forall|i: int, j: int|
                        0 <= i < width && 0 <= j < y ==> #[trigger] self.cell_at(i, j) == cell,
                    forall|i: int| 0 <= i < x ==> #[trigger] self.cell_at(i, y as int) == cell,
                decreases width - x,
            {
                self.set_cell(x, y, cell);
                x += 1;
            }
            y += 1;
        }
    }
}

proof fn lemma_cell_index(x: int, y: int, width: int, height: int)
    requires
        0 <= x < width,
        0 <= y < height,
    ensures
        0 <= y * width + x < width * height,
{
    assert(0 <= y * width + x < width * height) by (nonlinear_arith)
        requires
            0 <= x < width,
            0 <= y < height,
    ;
}

/// The dense canvas: cells stored row by row in one buffer of `width * height`.
#[derive(Debug, Clone, PartialEq, Eq, Hash)]
pub struct CellBuffer<C: CustomGlyph> {
    width: usize,
    height: usize,
    cells: Vec<Cell<C>>,
}

impl<C: CustomGlyph> CellBuffer<C> {
    /// A `width` by `height` canvas whose every cell is `fill_cell`.
    pub fn new(width: usize, height: usize, fill_cell: Cell<C>) -> (b: CellBuffer<C>)
        requires
            width * height <= usize::MAX,
        ensures
            b.wf(),
            b.width() == width,
            b.height() == height,
            forall|i: int, j: int|
                0 <= i < width && 0 <= j < height ==> #[trigger] b.cell_at(i, j) == fill_cell,
    {
        let n = width * height;
        let mut cells: Vec<Cell<C>> = Vec::with_capacity(n);
        let mut k: usize = 0;
        while k < n
            invariant
                k <= n,
                cells@.len() == k,
                forall|m: int| 0 <= m < k ==> #[trigger] cells@[m] == fill_cell,
            decreases n - k,
        {
            cells.push(fill_cell);
            k += 1;
        }
        let b = CellBuffer { width, height, cells };
        assert forall|i: int, j: int| 0 <= i < width && 0 <= j < height implies #[trigger] b.cell_at(
            i,
            j,
        ) == fill_cell by {
            lemma_cell_index(i, j, width as int, height as int);
        }
        b
    }
}

impl<C: CustomGlyph> Canvas<C> for CellBuffer<C> {
    closed spec fn wf(&self) -> bool {
        &&& self.width * self.height <= usize::MAX
        &&& self.cells@.len() == self.width * self.height
    }

    closed spec fn width(&self) -> nat {
        self.width as nat
    }

    closed spec fn height(&self) -> nat {
        self.height as nat
    }

    closed spec fn cell_at(&self, x: int, y: int) -> Cell<C> {
        self.cells@[y * self.width + x]
    }

    fn size(&self) -> (r: (usize, usize)) {
        (self.width, self.height)
    }

    fn get_cell(&self, x: usize, y: usize) -> (c: Cell<C>) {
        proof {
            lemma_cell_index(x as int, y as int, self.width as int, self.height as int);
        }
        self.cells[y * self.width + x]
    }

    fn set_cell(&mut self, x: usize, y: usize, cell: Cell<C>) {
        proof {
            lemma_cell_index(x as int, y as int, self.width as int, self.height as int);
        }
        let k = y * self.width + x;
        self.cells[k] = cell;
        assert forall|i: int, j: int|
            0 <= i < self.width && 0 <= j < self.height implies #[trigger] self.cell_at(i, j) == if i
            == x && j == y {
            cell
        } else {
            old(self).cell_at(i, j)
        } by {
            lemma_cell_index(i, j, self.width as int, self.height as int);
            if j * self.width + i == k {
                lemma_same_index(i, j, x as int, y as int, self.width as int);
            }
        }
    }
}

proof fn lemma_same_index(i: int, j: int, x: int, y: int, width: int)
    requires
        0 <= i < width,
        0 <= x < width,
        0 <= j,
        0 <= y,
        j * width + i == y * width + x,
    ensures
        i == x,
        j == y,
{
    assert(j == y) by (nonlinear_arith)
        requires
            0 <= i < width,
            0 <= x < width,
            0 <= j,
            0 <= y,
            j * width + i == y * width + x,
    ;
}

} // verus!
