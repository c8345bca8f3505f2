//! The cell grid a view is painted into, and the comparison of two grids.
use vstd::arithmetic::div_mod::{
    lemma_fundamental_div_mod, lemma_fundamental_div_mod_converse_div,
    lemma_fundamental_div_mod_converse_mod,
};
use vstd::prelude::*;
use vstd::std_specs::iter::IteratorSpec;

use crate::style::{Color, Style};

verus! {

/// What a cell shows, as a value: two colors and one grapheme cluster.
pub struct CellView {
    pub foreground_color: Color,
    pub background_color: Color,
    pub glyph: Seq<char>,
}

/// One styled cell of the screen.
#[derive(Debug)]
pub struct Character {
    pub foreground_color: Color,
    pub background_color: Color,
    pub character: String,
}

impl View for Character {
    type V = CellView;

    open spec fn view(&self) -> CellView {
        CellView {
            foreground_color: self.foreground_color,
            background_color: self.background_color,
            glyph: self.character@,
        }
    }
}

/// The cell a fresh screen is filled with: a space in the terminal's
/// default colors.
pub open spec fn blank_cell() -> CellView {
    CellView { foreground_color: Color::Reset, background_color: Color::Reset, glyph: seq![' '] }
}

/// A cell after a container has painted over it: each color that the
/// style gives replaces the cell's own, and the glyph becomes a space.
pub open spec fn filled_cell(style: Style, c: CellView) -> CellView {
    CellView {
        foreground_color: match style.color {
            Some(col) => col,
            None => c.foreground_color,
        },
        background_color: match style.background_color {
            Some(col) => col,
            None => c.background_color,
        },
        glyph: seq![' '],
    }
}

/// A cell with its glyph replaced and its colors kept.
pub open spec fn with_glyph(c: CellView, glyph: Seq<char>) -> CellView {
    CellView { glyph, ..c }
}

impl Default for Character {
    fn default() -> (r: Self)
        ensures
            r@ == blank_cell(),
    {
        let character = String::from_str(" ");
        proof {
            reveal_strlit(" ");
        }
        assert(character@ =~= seq![' ']);
        Character { foreground_color: Color::Reset, background_color: Color::Reset, character }
    }
}

impl Clone for Character {
    fn clone(&self) -> (r: Self)
        ensures
            r == *self,
    {
        Character {
            foreground_color: self.foreground_color,
            background_color: self.background_color,
            character: self.character.clone(),
        }
    }
}

impl PartialEq for Character {
    fn eq(&self, other: &Character) -> (r: bool)
        ensures
            r == (self@ == other@),
    {
        self.foreground_color == other.foreground_color && self.background_color
            == other.background_color && self.character == other.character
    }
}

impl vstd::std_specs::cmp::PartialEqSpecImpl for Character {
    open spec fn obeys_eq_spec() -> bool {
        true
    }

    open spec fn eq_spec(&self, other: &Character) -> bool {
        self@ == other@
    }
}

impl Eq for Character {}

/// The flat, row-major index of the cell at column `x`, row `y`.
pub open spec fn cell_index(width: nat, x: int, y: int) -> int {
    y * width + x
}

/// Column and row of a flat index are its remainder and quotient by the
/// width, and they give the index back.
pub proof fn lemma_index_coords(width: nat, x: int, y: int)
    requires
        0 <= x < width,
        0 <= y,
    ensures
        cell_index(width, x, y) % (width as int) == x,
        cell_index(width, x, y) / (width as int) == y,
{
    lemma_fundamental_div_mod_converse_mod(y * width + x, width as int, y, x);
    lemma_fundamental_div_mod_converse_div(y * width + x, width as int, y, x);
}

/// Two flat indices with the same column and row are the same index.
pub proof fn lemma_coords_injective(width: nat, k: int, j: int)
    requires
        width > 0,
        0 <= k,
        0 <= j,
        k % (width as int) == j % (width as int),
        k / (width as int) == j / (width as int),
    ensures
        k == j,
{
    lemma_fundamental_div_mod(k, width as int);
    lemma_fundamental_div_mod(j, width as int);
}

/// A cell inside a `width` by `height` grid has a flat index inside it.
pub proof fn lemma_index_in_grid(width: nat, height: nat, x: int, y: int)
    requires
        0 <= x < width,
        0 <= y < height,
    ensures
        0 <= cell_index(width, x, y) < width * height,
{
    assert(0 <= y * width + x < width * height) by (nonlinear_arith)
        requires
            0 <= x < width,
            0 <= y < height,
    ;
}

/// A flat index inside a `width` by `height` grid has its column below the
/// width and its row below the height.
pub proof fn lemma_coords_in_grid(width: nat, height: nat, k: int)
    requires
        0 <= k < width * height,
    ensures
        0 <= k % (width as int) < width,
        0 <= k / (width as int) < height,
{
    assert(width > 0) by (nonlinear_arith)
        requires
            0 <= k < width * height,
    ;
    lemma_fundamental_div_mod(k, width as int);
    let q = k / (width as int);
    let r = k % (width as int);
    assert(0 <= q < height) by (nonlinear_arith)
        requires
            k == width * q + r,
            0 <= r < width,
            0 <= k < width * height,
    ;
}

/// A grid of `width` by `height` styled cells, stored row by row.
#[derive(Debug)]
pub struct ScreenBuffer {
    width: usize,
    height: usize,
    data: Vec<Character>,
}

impl View for ScreenBuffer {
    type V = Seq<CellView>;

    closed spec fn view(&self) -> Seq<CellView> {
        self.data@.map_values(|c: Character| c@)
    }
}

impl ScreenBuffer {
    pub closed spec fn spec_width(&self) -> usize {
        self.width
    }

    pub closed spec fn spec_height(&self) -> usize {
        self.height
    }

    /// The cells are exactly `width * height`, one per column and row.
    pub open spec fn wf(&self) -> bool {
        self@.len() == self.spec_width() * self.spec_height()
    }

    /// The cell at column `x`, row `y`.
    pub open spec fn cell(&self, x: int, y: int) -> CellView {
        self@[cell_index(self.spec_width() as nat, x, y)]
    }

    /// A grid of the given size, every cell a copy of `default`.
    pub fn new(width: usize, height: usize, default: Character) -> (r: Self)
        requires
            width * height <= usize::MAX,
        ensures
            r.wf(),
            r.spec_width() == width,
            r.spec_height() == height,
            r@ == Seq::new((width * height) as nat, |k: int| default@),
    {
        let n: usize = width * height;
        let mut data: Vec<Character> = Vec::new();
        let mut i: usize = 0;
        while i < n
            invariant
                i <= n,
                data@.len() == i,
                forall|k: int| 0 <= k < i ==> (#[trigger] data@[k])@ == default@,
            decreases n - i,
        {
            data.push(default.clone());
            i = i + 1;
        }
        let r = ScreenBuffer { width, height, data };
        assert(r@ =~= Seq::new((width * height) as nat, |k: int| default@));
        r
    }

    /// The cells in row-major order.
    pub fn iter(&self) -> (r: std::slice::Iter<'_, Character>)
        ensures
            r.remaining().map_values(|c: &Character| c@) == self@,
    {
        let r = self.data.iter();
        assert(r.remaining().map_values(|c: &Character| c@) =~= self@);
        r
    }

    #[verifier::when_used_as_spec(spec_width)]
    pub fn width(&self) -> (r: usize)
        ensures
            r == self.spec_width(),
    {
        self.width
    }

    #[verifier::when_used_as_spec(spec_height)]
    pub fn height(&self) -> (r: usize)
        ensures
            r == self.spec_height(),
    {
        self.height
    }

    fn index_of(&self, x: usize, y: usize) -> (r: usize)
        requires
            self.wf(),
            x < self.spec_width(),
            y < self.spec_height(),
        ensures
            r == cell_index(self.spec_width() as nat, x as int, y as int),
            r < self@.len(),
    {
        proof {
            lemma_index_in_grid(self.width as nat, self.height as nat, x as int, y as int);
            assert(self@.len() == self.data@.len());
            assert(self.data@.len() == self.width * self.height);
            assert(y * self.width + x < self.data@.len());
        }
        let n = self.data.len();
        assert(y * self.width <= n) by (nonlinear_arith)
            requires
                y * self.width + x < n,
        ;
        y * self.width + x
    }

    /// The cell at column `x`, row `y`.
    pub fn get(&self, x: usize, y: usize) -> (r: &Character)
        requires
            self.wf(),
            x < self.spec_width(),
            y < self.spec_height(),
        ensures
            r@ == self.cell(x as int, y as int),
    {
        let i = self.index_of(x, y);
        &self.data[i]
    }

    /// Writes `glyph` into the cell at column `x`, row `y`, keeping its colors.
    pub fn set_glyph(&mut self, x: usize, y: usize, glyph: String)
        requires
            old(self).wf(),
            x < old(self).spec_width(),
            y < old(self).spec_height(),
        ensures
            final(self).wf(),
            final(self).spec_width() == old(self).spec_width(),
            final(self).spec_height() == old(self).spec_height(),
            final(self)@ == old(self)@.update(
                cell_index(old(self).spec_width() as nat, x as int, y as int),
                with_glyph(old(self).cell(x as int, y as int), glyph@),
            ),
    {
        let i = self.index_of(x, y);
        let fg = self.data[i].foreground_color;
        let bg = self.data[i].background_color;
        self.data.set(i, Character { foreground_color: fg, background_color: bg, character: glyph });
        assert(self@ =~= old(self)@.update(
            i as int,
            with_glyph(old(self).cell(x as int, y as int), glyph@),
        ));
    }

    /// Paints `style` over the cell at column `x`, row `y`.
    pub fn fill_cell(&mut self, x: usize, y: usize, style: Style)
        requires
            old(self).wf(),
            x < old(self).spec_width(),
            y < old(self).spec_height(),
        ensures
            final(self).wf(),
            final(self).spec_width() == old(self).spec_width(),
            final(self).spec_height() == old(self).spec_height(),
            final(self)@ == old(self)@.update(
                cell_index(old(self).spec_width() as nat, x as int, y as int),
                filled_cell(style, old(self).cell(x as int, y as int)),
            ),
    {
        let i = self.index_of(x, y);
        let fg = match style.color {
            Some(c) => c,
            None => self.data[i].foreground_color,
        };
        let bg = match style.background_color {
            Some(c) => c,
            None => self.data[i].background_color,
        };
        let character = String::from_str(" ");
        proof {
            reveal_strlit(" ");
        }
        assert(character@ =~= seq![' ']);
        self.data.set(i, Character { foreground_color: fg, background_color: bg, character });
        assert(self@ =~= old(self)@.update(
            i as int,
            filled_cell(style, old(self).cell(x as int, y as int)),
        ));
    }
}

impl Clone for ScreenBuffer {
    fn clone(&self) -> (r: Self)
        ensures
            r@ == self@,
            r.spec_width() == self.spec_width(),
            r.spec_height() == self.spec_height(),
    {
        let mut data: Vec<Character> = Vec::new();
        let mut i: usize = 0;
        while i < self.data.len()
            invariant
                i <= self.data@.len(),
                data@ == self.data@.subrange(0, i as int),
            decreases self.data@.len() - i,
        {
            data.push(self.data[i].clone());
            i = i + 1;
            assert(data@ =~= self.data@.subrange(0, i as int));
        }
        assert(data@ =~= self.data@);
        ScreenBuffer { width: self.width, height: self.height, data }
    }
}

/// A cell that differs between two frames: where it stands and what it
/// shows in the newer one.
#[derive(Debug)]
pub struct CellChange {
    pub x: usize,
    pub y: usize,
    pub cell: Character,
}

impl View for CellChange {
    type V = (int, int, CellView);

    open spec fn view(&self) -> (int, int, CellView) {
        (self.x as int, self.y as int, self.cell@)
    }
}

/// The changes among the first `n` cells of two row-major grids of the
/// given width, in ascending index order: one for each index where the
/// cells differ, with its column, row and the cell of `new`.
pub open spec fn diff_cells(new: Seq<CellView>, old: Seq<CellView>, width: nat, n: nat) -> Seq<
    (int, int, CellView),
>
    decreases n,
{
    if n == 0 {
        Seq::empty()
    } else {
        let k = n - 1;
        let before = diff_cells(new, old, width, (n - 1) as nat);
        if new[k] != old[k] {
            before.push((k % (width as int), k / (width as int), new[k]))
        } else {
            before
        }
    }
}

/// The column and row of each change, in order.
pub open spec fn positions(changes: Seq<(int, int, CellView)>) -> Seq<(int, int)> {
    changes.map_values(|c: (int, int, CellView)| (c.0, c.1))
}

/// Every cell where `new` differs from `old`, in row-major order (top to
/// bottom, left to right), with the cell that `new` holds there.
pub fn diff(new: &ScreenBuffer, old: &ScreenBuffer) -> (r: Vec<CellChange>)
    requires
        new.wf(),
        old.wf(),
        new.spec_width() == old.spec_width(),
        new.spec_height() == old.spec_height(),
    ensures
        r@.map_values(|c: CellChange| c@) == diff_cells(
            new@,
            old@,
            new.spec_width() as nat,
            new@.len(),
        ),
{
    let ghost w = new.width as nat;
    let n = new.data.len();
    let mut changes: Vec<CellChange> = Vec::new();
    let mut k: usize = 0;
    while k < n
        invariant
            n == new.data@.len(),
            n == old.data@.len(),
            new@.len() == n,
            old@.len() == n,
            w == new.width,
            n == new.width * new.height,
            k <= n,
            changes@.map_values(|c: CellChange| c@) == diff_cells(new@, old@, w, k as nat),
        decreases n - k,
    {
        assert(new@[k as int] == new.data@[k as int]@);
        assert(old@[k as int] == old.data@[k as int]@);
        if !new.data[k].eq(&old.data[k]) {
            proof {
                lemma_coords_in_grid(w, new.height as nat, k as int);
            }
            let x = k % new.width;
            let y = k / new.width;
            let ghost before = changes@;
            changes.push(CellChange { x, y, cell: new.data[k].clone() });
            assert(changes@ == before.push(CellChange { x, y, cell: new.data@[k as int] }));
            assert(changes@.map_values(|c: CellChange| c@) =~= before.map_values(
                |c: CellChange| c@,
            ).push((k as int % (w as int), k as int / (w as int), new@[k as int])));
        }
        k = k + 1;
    }
    changes
}

/// Comparing a grid with itself finds no change.
pub proof fn lemma_diff_self(cells: Seq<CellView>, width: nat, n: nat)
    ensures
        diff_cells(cells, cells, width, n) == Seq::<(int, int, CellView)>::empty(),
    decreases n,
{
    if n > 0 {
        lemma_diff_self(cells, width, (n - 1) as nat);
    }
}

/// Two grids differ at the same places whichever of them is taken as new.
pub proof fn lemma_diff_same_positions(a: Seq<CellView>, b: Seq<CellView>, width: nat, n: nat)
    ensures
        positions(diff_cells(a, b, width, n)) == positions(diff_cells(b, a, width, n)),
    decreases n,
{
    if n > 0 {
        let k = n - 1;
        lemma_diff_same_positions(a, b, width, (n - 1) as nat);
        let pa = diff_cells(a, b, width, (n - 1) as nat);
        let pb = diff_cells(b, a, width, (n - 1) as nat);
        if a[k] != b[k] {
            assert(positions(pa.push((k % (width as int), k / (width as int), a[k]))) =~= positions(
                pa,
            ).push((k % (width as int), k / (width as int))));
            assert(positions(pb.push((k % (width as int), k / (width as int), b[k]))) =~= positions(
                pb,
            ).push((k % (width as int), k / (width as int))));
        }
    }
}

/// A buffer compared with itself yields no change.
pub proof fn lemma_diff_of_buffer_with_itself(a: ScreenBuffer)
    requires
        a.wf(),
    ensures
        diff_cells(a@, a@, a.spec_width() as nat, a@.len()) == Seq::<(int, int, CellView)>::empty(),
{
    lemma_diff_self(a@, a.spec_width() as nat, a@.len());
}

/// For two buffers of the same size, `diff(a, b)` and `diff(b, a)` report
/// the same coordinates, in the same order.
pub proof fn lemma_diff_symmetric_positions(a: ScreenBuffer, b: ScreenBuffer)
    requires
        a.wf(),
        b.wf(),
        a.spec_width() == b.spec_width(),
        a.spec_height() == b.spec_height(),
    ensures
        positions(diff_cells(a@, b@, a.spec_width() as nat, a@.len())) == positions(
            diff_cells(b@, a@, b.spec_width() as nat, b@.len()),
        ),
{
    lemma_diff_same_positions(a@, b@, a.spec_width() as nat, a@.len());
}

} // verus!
