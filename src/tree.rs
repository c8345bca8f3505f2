//! The declarative view tree and the pass that paints it into a screen buffer.
use vstd::prelude::*;

use crate::screen::{
    cell_index, filled_cell, lemma_coords_in_grid, lemma_coords_injective, lemma_index_coords,
    lemma_index_in_grid, with_glyph, CellView, ScreenBuffer,
};
use crate::style::{Color, Style};
use crate::text::{grapheme_clusters, graphemes_of};

verus! {

broadcast use vstd::std_specs::vec::group_vec_axioms;

/// A rectangle of cells: its top-left cell and its width and height.
#[derive(Debug, Clone, Copy)]
pub struct Bounds {
    pub origin: (u16, u16),
    pub size: (u16, u16),
}

impl Default for Bounds {
    fn default() -> (r: Self)
        ensures
            r == (Bounds { origin: (0, 0), size: (0, 0) }),
    {
        Bounds { origin: (0, 0), size: (0, 0) }
    }
}

/// What one frame shows. `Handler` is the type of the function that a
/// container maps key presses with.
#[derive(Debug)]
pub enum ViewNode<Handler> {
    /// Reserved for vertical layout; paints nothing.
    Column(Vec<ViewNode<Handler>>),
    /// Fills its region with `style`, then paints `child` over it.
    Container { child: Box<ViewNode<Handler>>, style: Style, on_key_press: Option<Handler> },
    /// Lays its children out side by side.
    Row(Vec<ViewNode<Handler>>),
    /// Grapheme clusters, one per cell, from the region's origin rightwards.
    Text(String),
    /// Paints nothing.
    Empty,
}

/// The width of each slice of a row of `n` children: the region's width
/// divided by `n`, rounded down.
pub open spec fn slice_width(b: Bounds, n: nat) -> int {
    b.size.0 as int / n as int
}

/// The region of child `i` of a row of `n` children. It starts at column
/// `i` slices (counted from the buffer's left edge, not from the row's
/// origin) and reaches from there to the right end of the row's width, so
/// later children overlap the earlier ones' right parts.
pub open spec fn child_bounds(b: Bounds, n: nat, i: nat) -> Bounds {
    Bounds {
        origin: ((slice_width(b, n) * i) as u16, b.origin.1),
        size: ((b.size.0 - slice_width(b, n) * i) as u16, b.size.1),
    }
}

/// Whether column `x`, row `y` lies inside `b`.
pub open spec fn in_region(b: Bounds, x: int, y: int) -> bool {
    &&& b.origin.0 <= x < b.origin.0 + b.size.0
    &&& b.origin.1 <= y < b.origin.1 + b.size.1
}

/// A cell after `glyphs` were written from the origin of `b` rightwards.
pub open spec fn text_cell(glyphs: Seq<Seq<char>>, b: Bounds, x: int, y: int, c: CellView) -> CellView {
    if y == b.origin.1 && b.origin.0 <= x < b.origin.0 + glyphs.len() {
        with_glyph(c, glyphs[x - b.origin.0])
    } else {
        c
    }
}

/// A cell after a container with `style` filled the region `b`.
pub open spec fn region_cell(style: Style, b: Bounds, x: int, y: int, c: CellView) -> CellView {
    if in_region(b, x, y) {
        filled_cell(style, c)
    } else {
        c
    }
}

/// The cell at column `x`, row `y` after `node` was painted into `b` over
/// a cell that was `c`.
pub open spec fn paint_cell<H>(node: ViewNode<H>, b: Bounds, x: int, y: int, c: CellView) -> CellView
    decreases node, 0nat,
{
    match node {
        ViewNode::Text(s) => text_cell(graphemes_of(s@), b, x, y, c),
        ViewNode::Row(children) => paint_children(children, b, children.len() as nat, x, y, c),
        ViewNode::Container { child, style, .. } => paint_cell(
            *child,
            b,
            x,
            y,
            region_cell(style, b, x, y, c),
        ),
        ViewNode::Column(_) => c,
        ViewNode::Empty => c,
    }
}

/// The cell at column `x`, row `y` after the first `k` children of a row
/// in `b` were painted, in order, over a cell that was `c`.
pub open spec fn paint_children<H>(
    children: Vec<ViewNode<H>>,
    b: Bounds,
    k: nat,
    x: int,
    y: int,
    c: CellView,
) -> CellView
    decreases children, k,
{
    if k == 0 || k > children.len() {
        c
    } else {
        paint_cell(
            children[k - 1],
            child_bounds(b, children.len() as nat, (k - 1) as nat),
            x,
            y,
            paint_children(children, b, (k - 1) as nat, x, y, c),
        )
    }
}

/// A row-major grid of the given width after `node` was painted into `b`.
pub open spec fn painted<H>(node: ViewNode<H>, b: Bounds, width: nat, cells: Seq<CellView>) -> Seq<
    CellView,
> {
    Seq::new(
        cells.len(),
        |k: int| paint_cell(node, b, k % (width as int), k / (width as int), cells[k]),
    )
}

/// Whether region `b` lies inside a `width` by `height` grid; an empty
/// region always does, as nothing is painted there.
pub open spec fn region_fits(b: Bounds, width: nat, height: nat) -> bool {
    b.size.0 == 0 || b.size.1 == 0 || (b.origin.0 + b.size.0 <= width && b.origin.1 + b.size.1
        <= height)
}

/// Whether `count` glyphs written from the origin of `b` stay inside a
/// `width` by `height` grid.
pub open spec fn text_fits(count: nat, b: Bounds, width: nat, height: nat) -> bool {
    count == 0 || (b.origin.1 < height && b.origin.0 + count <= width)
}

/// Whether painting `node` into `b` touches only cells of a `width` by
/// `height` grid.
pub open spec fn fits<H>(node: ViewNode<H>, b: Bounds, width: nat, height: nat) -> bool
    decreases node, 0nat,
{
    match node {
        ViewNode::Text(s) => text_fits(graphemes_of(s@).len(), b, width, height),
        ViewNode::Row(children) => fits_children(children, b, children.len() as nat, width, height),
        ViewNode::Container { child, .. } => region_fits(b, width, height) && fits(
            *child,
            b,
            width,
            height,
        ),
        ViewNode::Column(_) => true,
        ViewNode::Empty => true,
    }
}

/// Whether the first `k` children of a row in `b` fit a `width` by
/// `height` grid.
pub open spec fn fits_children<H>(
    children: Vec<ViewNode<H>>,
    b: Bounds,
    k: nat,
    width: nat,
    height: nat,
) -> bool
    decreases children, k,
{
    if k == 0 || k > children.len() {
        true
    } else {
        fits_children(children, b, (k - 1) as nat, width, height) && fits(
            children[k - 1],
            child_bounds(b, children.len() as nat, (k - 1) as nat),
            width,
            height,
        )
    }
}

impl<Handler> ViewNode<Handler> {
    pub fn boxed(self) -> (r: Box<Self>)
        ensures
            *r == self,
    {
        Box::new(self)
    }
}

impl<Handler> Default for ViewNode<Handler> {
    fn default() -> (r: Self)
        ensures
            r is Empty,
    {
        ViewNode::Empty
    }
}

/// The slice offset of child `i` of a row of `n` stays within the row's width.
proof fn lemma_slice_offset_bound(width: int, n: int, i: int)
    requires
        0 <= width,
        0 <= i < n,
    ensures
        0 <= (width / n) * i <= width,
{
    assert(0 <= (width / n) * i <= (width / n) * n) by (nonlinear_arith)
        requires
            0 <= width,
            0 <= i < n,
    ;
    vstd::arithmetic::div_mod::lemma_fundamental_div_mod(width, n);
    assert((width / n) * n == n * (width / n)) by (nonlinear_arith);
}

/// The region of child `index` of a row of `count` children laid out in
/// `bounds`.
pub fn row_child_bounds(bounds: &Bounds, count: usize, index: usize) -> (r: Bounds)
    requires
        index < count,
    ensures
        r == child_bounds(*bounds, count as nat, index as nat),
        r.size.0 + r.origin.0 == bounds.size.0,
{
    let slice: usize = bounds.size.0 as usize / count;
    proof {
        lemma_slice_offset_bound(bounds.size.0 as int, count as int, index as int);
    }
    let offset: usize = slice * index;
    let x = offset as u16;
    Bounds { origin: (x, bounds.origin.1), size: (bounds.size.0 - x, bounds.size.1) }
}

/// Whether painting `node` into `bounds` touches only cells of a `width`
/// by `height` grid.
pub fn fits_within<Handler>(node: &ViewNode<Handler>, bounds: &Bounds, width: usize, height: usize) -> (r:
    bool)
    ensures
        r == fits(*node, *bounds, width as nat, height as nat),
    decreases node, 0nat,
{
    match node {
        ViewNode::Text(text) => {
            let glyphs = grapheme_clusters(text.as_str());
            let n = glyphs.len();
            proof {
                assert(n == graphemes_of(text@).len());
            }
            n == 0 || ((bounds.origin.1 as usize) < height && (bounds.origin.0 as usize) <= width
                && n <= width - bounds.origin.0 as usize)
        },
        ViewNode::Row(children) => children_fit(children, bounds, width, height),
        ViewNode::Container { child, .. } => {
            let region = bounds.size.0 == 0 || bounds.size.1 == 0 || ((bounds.origin.0 as usize)
                + (bounds.size.0 as usize) <= width && (bounds.origin.1 as usize)
                + (bounds.size.1 as usize) <= height);
            region && fits_within(child, bounds, width, height)
        },
        ViewNode::Column(_) => true,
        ViewNode::Empty => true,
    }
}

fn children_fit<Handler>(children: &Vec<ViewNode<Handler>>, bounds: &Bounds, width: usize, height: usize) -> (r:
    bool)
    ensures
        r == fits_children(*children, *bounds, children.len() as nat, width as nat, height as nat),
    decreases children, 0nat,
{
    let n = children.len();
    let mut ok = true;
    let mut i: usize = 0;
    while i < n
        invariant
            n == children.len(),
            i <= n,
            ok == fits_children(*children, *bounds, i as nat, width as nat, height as nat),
        decreases n - i,
    {
        if ok {
            let cb = row_child_bounds(bounds, n, i);
            ok = fits_within(&children[i], &cb, width, height);
        }
        i = i + 1;
    }
    ok
}

/// Writing `glyph` at column `ox + i`, row `oy` over a grid painted with
/// the first `i` glyphs gives the grid painted with the first `i + 1`.
proof fn lemma_text_step(
    glyphs: Seq<Seq<char>>,
    b: Bounds,
    width: nat,
    height: nat,
    old: Seq<CellView>,
    cur: Seq<CellView>,
    i: int,
)
    requires
        0 <= i < glyphs.len(),
        b.origin.0 + glyphs.len() <= width,
        b.origin.1 < height,
        old.len() == width * height,
        cur == Seq::new(
            old.len(),
            |k: int|
                text_cell(glyphs.subrange(0, i), b, k % (width as int), k / (width as int), old[k]),
        ),
    ensures
        ({
            let idx = cell_index(width, b.origin.0 + i, b.origin.1 as int);
            &&& 0 <= idx < cur.len()
            &&& cur.update(idx, with_glyph(cur[idx], glyphs[i])) == Seq::new(
                old.len(),
                |k: int|
                    text_cell(
                        glyphs.subrange(0, i + 1),
                        b,
                        k % (width as int),
                        k / (width as int),
                        old[k],
                    ),
            )
        }),
{
    let x = b.origin.0 + i;
    let y = b.origin.1 as int;
    let idx = cell_index(width, x, y);
    lemma_index_in_grid(width, height, x, y);
    lemma_index_coords(width, x, y);
    let next = Seq::new(
        old.len(),
        |k: int| text_cell(glyphs.subrange(0, i + 1), b, k % (width as int), k / (width as int), old[k]),
    );
    assert forall|k: int| 0 <= k < old.len() implies #[trigger] cur.update(
        idx,
        with_glyph(cur[idx], glyphs[i]),
    )[k] == next[k] by {
        lemma_coords_in_grid(width, height, k);
        if k != idx {
            if k % (width as int) == x && k / (width as int) == y {
                lemma_coords_injective(width, k, idx);
            }
        }
    }
    assert(cur.update(idx, with_glyph(cur[idx], glyphs[i])) =~= next);
}

fn render_text(text: &String, screen: &mut ScreenBuffer, bounds: &Bounds)
    requires
        old(screen).wf(),
        text_fits(
            graphemes_of(text@).len(),
            *bounds,
            old(screen).spec_width() as nat,
            old(screen).spec_height() as nat,
        ),
    ensures
        final(screen).wf(),
        final(screen).spec_width() == old(screen).spec_width(),
        final(screen).spec_height() == old(screen).spec_height(),
        final(screen)@ == Seq::new(
            old(screen)@.len(),
            |k: int|
                text_cell(
                    graphemes_of(text@),
                    *bounds,
                    k % (old(screen).spec_width() as int),
                    k / (old(screen).spec_width() as int),
                    old(screen)@[k],
                ),
        ),
{
    let glyphs = grapheme_clusters(text.as_str());
    let ghost g = graphemes_of(text@);
    let ghost w = screen.spec_width() as nat;
    let ghost h = screen.spec_height() as nat;
    let ghost old_cells = screen@;
    let n = glyphs.len();
    let x0 = bounds.origin.0 as usize;
    let y0 = bounds.origin.1 as usize;
    assert(old_cells =~= Seq::new(
        old_cells.len(),
        |k: int| text_cell(g.subrange(0, 0), *bounds, k % (w as int), k / (w as int), old_cells[k]),
    ));
    let mut i: usize = 0;
    while i < n
        invariant
            n == glyphs@.len(),
            g == glyphs@.map_values(|s: String| s@),
            n == 0 || (y0 < h && x0 + n <= w),
            x0 == bounds.origin.0,
            y0 == bounds.origin.1,
            i <= n,
            screen.wf(),
            screen.spec_width() == w,
            screen.spec_height() == h,
            old_cells.len() == w * h,
            screen@ == Seq::new(
                old_cells.len(),
                |k: int|
                    text_cell(g.subrange(0, i as int), *bounds, k % (w as int), k / (w as int), old_cells[k]),
            ),
        decreases n - i,
    {
        proof {
            lemma_text_step(g, *bounds, w, h, old_cells, screen@, i as int);
        }
        screen.set_glyph(x0 + i, y0, glyphs[i].clone());
        i = i + 1;
    }
    assert(g.subrange(0, n as int) =~= g);
}

/// A cell while a container fills its region row by row: the region's
/// cells before column `cx` of row `cy`, in row-major order, are filled.
spec fn fill_progress(style: Style, b: Bounds, cx: int, cy: int, x: int, y: int, c: CellView) -> CellView {
    if in_region(b, x, y) && (y < cy || (y == cy && x < cx)) {
        filled_cell(style, c)
    } else {
        c
    }
}

spec fn fill_grid(style: Style, b: Bounds, cx: int, cy: int, width: nat, old: Seq<CellView>) -> Seq<
    CellView,
> {
    Seq::new(
        old.len(),
        |k: int| fill_progress(style, b, cx, cy, k % (width as int), k / (width as int), old[k]),
    )
}

/// Filling the cell at column `cx`, row `cy` moves the fill one cell on.
proof fn lemma_fill_step(
    style: Style,
    b: Bounds,
    width: nat,
    height: nat,
    old: Seq<CellView>,
    cx: int,
    cy: int,
)
    requires
        in_region(b, cx, cy),
        cx < width,
        cy < height,
        old.len() == width * height,
    ensures
        ({
            let idx = cell_index(width, cx, cy);
            let cur = fill_grid(style, b, cx, cy, width, old);
            &&& 0 <= idx < cur.len()
            &&& cur[idx] == old[idx]
            &&& cur.update(idx, filled_cell(style, cur[idx])) == fill_grid(
                style,
                b,
                cx + 1,
                cy,
                width,
                old,
            )
        }),
{
    let idx = cell_index(width, cx, cy);
    let cur = fill_grid(style, b, cx, cy, width, old);
    let next = fill_grid(style, b, cx + 1, cy, width, old);
    lemma_index_in_grid(width, height, cx, cy);
    lemma_index_coords(width, cx, cy);
    assert forall|k: int| 0 <= k < old.len() implies #[trigger] cur.update(
        idx,
        filled_cell(style, cur[idx]),
    )[k] == next[k] by {
        lemma_coords_in_grid(width, height, k);
        if k != idx {
            if k % (width as int) == cx && k / (width as int) == cy {
                lemma_coords_injective(width, k, idx);
            }
        }
    }
    assert(cur.update(idx, filled_cell(style, cur[idx])) =~= next);
}

/// Fills the region `bounds` of `screen` with `style`.
fn fill_region(style: Style, screen: &mut ScreenBuffer, bounds: &Bounds)
    requires
        old(screen).wf(),
        region_fits(*bounds, old(screen).spec_width() as nat, old(screen).spec_height() as nat),
    ensures
        final(screen).wf(),
        final(screen).spec_width() == old(screen).spec_width(),
        final(screen).spec_height() == old(screen).spec_height(),
        final(screen)@ == Seq::new(
            old(screen)@.len(),
            |k: int|
                region_cell(
                    style,
                    *bounds,
                    k % (old(screen).spec_width() as int),
                    k / (old(screen).spec_width() as int),
                    old(screen)@[k],
                ),
        ),
{
    let ghost w = screen.spec_width() as nat;
    let ghost h = screen.spec_height() as nat;
    let ghost old_cells = screen@;
    let x0 = bounds.origin.0 as usize;
    let y0 = bounds.origin.1 as usize;
    let x1 = x0 + bounds.size.0 as usize;
    let y1 = y0 + bounds.size.1 as usize;
    assert(screen@ =~= fill_grid(style, *bounds, x0 as int, y0 as int, w, old_cells));
    let mut y = y0;
    while y < y1
        invariant
            x0 == bounds.origin.0,
            y0 == bounds.origin.1,
            x1 == bounds.origin.0 + bounds.size.0,
            y1 == bounds.origin.1 + bounds.size.1,
            region_fits(*bounds, w, h),
            y0 <= y <= y1,
            screen.wf(),
            screen.spec_width() == w,
            screen.spec_height() == h,
            old_cells.len() == w * h,
            screen@ == fill_grid(style, *bounds, x0 as int, y as int, w, old_cells),
        decreases y1 - y,
    {
        let mut x = x0;
        while x < x1
            invariant
                x0 == bounds.origin.0,
                y0 == bounds.origin.1,
                x1 == bounds.origin.0 + bounds.size.0,
                y1 == bounds.origin.1 + bounds.size.1,
                region_fits(*bounds, w, h),
                y0 <= y < y1,
                x0 <= x <= x1,
                screen.wf(),
                screen.spec_width() == w,
                screen.spec_height() == h,
                old_cells.len() == w * h,
                screen@ == fill_grid(style, *bounds, x as int, y as int, w, old_cells),
            decreases x1 - x,
        {
            proof {
                lemma_fill_step(style, *bounds, w, h, old_cells, x as int, y as int);
            }
            screen.fill_cell(x, y, style);
            x = x + 1;
        }
        assert(screen@ =~= fill_grid(style, *bounds, x0 as int, y + 1, w, old_cells));
        y = y + 1;
    }
    assert(screen@ =~= Seq::new(
        old_cells.len(),
        |k: int| region_cell(style, *bounds, k % (w as int), k / (w as int), old_cells[k]),
    ));
}

/// When the first `k` children of a row fit, each of them fits its slice.
proof fn lemma_child_fits<H>(children: Vec<ViewNode<H>>, b: Bounds, k: nat, width: nat, height: nat, i: nat)
    requires
        k <= children.len(),
        i < k,
        fits_children(children, b, k, width, height),
    ensures
        fits(children[i as int], child_bounds(b, children.len() as nat, i), width, height),
    decreases k,
{
    if i + 1 < k {
        lemma_child_fits(children, b, (k - 1) as nat, width, height, i);
    }
}

/// Errors of the paint pass.
#[derive(Debug, Clone, Copy, PartialEq, Eq, Structural)]
pub enum RenderError {
    /// A node would paint a cell outside the buffer.
    LayoutBounds,
}

/// Paints `view` into `bounds` of `screen`, or reports `LayoutBounds`, and
/// leaves `screen` as it was, when that would touch a cell outside it.
pub fn render<Handler>(view: &ViewNode<Handler>, screen: &mut ScreenBuffer, bounds: &Bounds) -> (r:
    Result<(), RenderError>)
    requires
        old(screen).wf(),
    ensures
        final(screen).wf(),
        final(screen).spec_width() == old(screen).spec_width(),
        final(screen).spec_height() == old(screen).spec_height(),
        r is Ok <==> fits(
            *view,
            *bounds,
            old(screen).spec_width() as nat,
            old(screen).spec_height() as nat,
        ),
        r is Ok ==> final(screen)@ == painted(
            *view,
            *bounds,
            old(screen).spec_width() as nat,
            old(screen)@,
        ),
        r is Err ==> r == Err::<(), RenderError>(RenderError::LayoutBounds) && final(screen)@ == old(
            screen,
        )@,
{
    if !fits_within(view, bounds, screen.width(), screen.height()) {
        return Err(RenderError::LayoutBounds);
    }
    paint(view, screen, bounds);
    Ok(())
}

fn paint<Handler>(view: &ViewNode<Handler>, screen: &mut ScreenBuffer, bounds: &Bounds)
    requires
        old(screen).wf(),
        fits(*view, *bounds, old(screen).spec_width() as nat, old(screen).spec_height() as nat),
    ensures
        final(screen).wf(),
        final(screen).spec_width() == old(screen).spec_width(),
        final(screen).spec_height() == old(screen).spec_height(),
        final(screen)@ == painted(*view, *bounds, old(screen).spec_width() as nat, old(screen)@),
    decreases view, 0nat,
{
    let ghost w = screen.spec_width() as nat;
    let ghost old_cells = screen@;
    match view {
        ViewNode::Empty => {
            assert(screen@ =~= painted(*view, *bounds, w, old_cells));
        },
        ViewNode::Text(text) => {
            render_text(text, screen, bounds);
            assert(screen@ =~= painted(*view, *bounds, w, old_cells));
        },
        ViewNode::Column(column) => {
            render_column(column, screen, bounds);
            assert(screen@ =~= painted(*view, *bounds, w, old_cells));
        },
        ViewNode::Row(row) => {
            render_row(row, screen, bounds);
            assert(screen@ =~= painted(*view, *bounds, w, old_cells));
        },
        ViewNode::Container { child, style, .. } => {
            render_container(child, *style, screen, bounds);
            assert(screen@ =~= painted(*view, *bounds, w, old_cells));
        },
    }
}

/// Vertical layout is not provided: a column paints nothing.
fn render_column<Handler>(
    _column: &Vec<ViewNode<Handler>>,
    screen: &mut ScreenBuffer,
    _bounds: &Bounds,
)
    ensures
        *final(screen) == *old(screen),
{
}

fn render_row<Handler>(row: &Vec<ViewNode<Handler>>, screen: &mut ScreenBuffer, bounds: &Bounds)
    requires
        old(screen).wf(),
        fits_children(
            *row,
            *bounds,
            row.len() as nat,
            old(screen).spec_width() as nat,
            old(screen).spec_height() as nat,
        ),
    ensures
        final(screen).wf(),
        final(screen).spec_width() == old(screen).spec_width(),
        final(screen).spec_height() == old(screen).spec_height(),
        final(screen)@ == Seq::new(
            old(screen)@.len(),
            |k: int|
                paint_children(
                    *row,
                    *bounds,
                    row.len() as nat,
                    k % (old(screen).spec_width() as int),
                    k / (old(screen).spec_width() as int),
                    old(screen)@[k],
                ),
        ),
    decreases row, 0nat,
{
    let ghost w = screen.spec_width() as nat;
    let ghost h = screen.spec_height() as nat;
    let ghost old_cells = screen@;
    let n = row.len();
    assert(screen@ =~= Seq::new(
        old_cells.len(),
        |k: int| paint_children(*row, *bounds, 0, k % (w as int), k / (w as int), old_cells[k]),
    ));
    let mut i: usize = 0;
    while i < n
        invariant
            n == row.len(),
            i <= n,
            fits_children(*row, *bounds, n as nat, w, h),
            screen.wf(),
            screen.spec_width() == w,
            screen.spec_height() == h,
            screen@.len() == old_cells.len(),
            screen@ == Seq::new(
                old_cells.len(),
                |k: int|
                    paint_children(*row, *bounds, i as nat, k % (w as int), k / (w as int), old_cells[k]),
            ),
        decreases n - i,
    {
        let child_bounds = row_child_bounds(bounds, n, i);
        proof {
            lemma_child_fits(*row, *bounds, n as nat, w, h, i as nat);
        }
        paint(&row[i], screen, &child_bounds);
        i = i + 1;
        assert(screen@ =~= Seq::new(
            old_cells.len(),
            |k: int|
                paint_children(*row, *bounds, i as nat, k % (w as int), k / (w as int), old_cells[k]),
        ));
    }
}

fn render_container<Handler>(
    child: &ViewNode<Handler>,
    style: Style,
    screen: &mut ScreenBuffer,
    bounds: &Bounds,
)
    requires
        old(screen).wf(),
        region_fits(*bounds, old(screen).spec_width() as nat, old(screen).spec_height() as nat),
        fits(*child, *bounds, old(screen).spec_width() as nat, old(screen).spec_height() as nat),
    ensures
        final(screen).wf(),
        final(screen).spec_width() == old(screen).spec_width(),
        final(screen).spec_height() == old(screen).spec_height(),
        final(screen)@ == Seq::new(
            old(screen)@.len(),
            |k: int|
                paint_cell(
                    *child,
                    *bounds,
                    k % (old(screen).spec_width() as int),
                    k / (old(screen).spec_width() as int),
                    region_cell(
                        style,
                        *bounds,
                        k % (old(screen).spec_width() as int),
                        k / (old(screen).spec_width() as int),
                        old(screen)@[k],
                    ),
                ),
        ),
    decreases child, 1nat,
{
    fill_region(style, screen, bounds);
    paint(child, screen, bounds);
}

/// What painting does to one cell: each field it sets, and the value it
/// sets it to. A field it leaves is `None`.
pub struct CellPatch {
    pub foreground_color: Option<Color>,
    pub background_color: Option<Color>,
    pub glyph: Option<Seq<char>>,
}

pub open spec fn no_patch() -> CellPatch {
    CellPatch { foreground_color: None, background_color: None, glyph: None }
}

pub open spec fn apply_patch(p: CellPatch, c: CellView) -> CellView {
    CellView {
        foreground_color: match p.foreground_color {
            Some(col) => col,
            None => c.foreground_color,
        },
        background_color: match p.background_color {
            Some(col) => col,
            None => c.background_color,
        },
        glyph: match p.glyph {
            Some(g) => g,
            None => c.glyph,
        },
    }
}

/// `first` and then `second`, as one patch.
pub open spec fn then_patch(first: CellPatch, second: CellPatch) -> CellPatch {
    CellPatch {
        foreground_color: if second.foreground_color is Some {
            second.foreground_color
        } else {
            first.foreground_color
        },
        background_color: if second.background_color is Some {
            second.background_color
        } else {
            first.background_color
        },
        glyph: if second.glyph is Some {
            second.glyph
        } else {
            first.glyph
        },
    }
}

/// The patch that painting `node` into `b` applies to column `x`, row `y`.
pub open spec fn node_patch<H>(node: ViewNode<H>, b: Bounds, x: int, y: int) -> CellPatch
    decreases node, 0nat,
{
    match node {
        ViewNode::Text(s) => {
            let g = graphemes_of(s@);
            if y == b.origin.1 && b.origin.0 <= x < b.origin.0 + g.len() {
                CellPatch { glyph: Some(g[x - b.origin.0]), ..no_patch() }
            } else {
                no_patch()
            }
        },
        ViewNode::Row(children) => children_patch(children, b, children.len() as nat, x, y),
        ViewNode::Container { child, style, .. } => {
            let fill = if in_region(b, x, y) {
                CellPatch {
                    foreground_color: style.color,
                    background_color: style.background_color,
                    glyph: Some(seq![' ']),
                }
            } else {
                no_patch()
            };
            then_patch(fill, node_patch(*child, b, x, y))
        },
        ViewNode::Column(_) => no_patch(),
        ViewNode::Empty => no_patch(),
    }
}

pub open spec fn children_patch<H>(children: Vec<ViewNode<H>>, b: Bounds, k: nat, x: int, y: int) -> CellPatch
    decreases children, k,
{
    if k == 0 || k > children.len() {
        no_patch()
    } else {
        then_patch(
            children_patch(children, b, (k - 1) as nat, x, y),
            node_patch(children[k - 1], child_bounds(b, children.len() as nat, (k - 1) as nat), x, y),
        )
    }
}

/// Painting a node sets some fields of each cell to values that do not
/// depend on the cell.
pub proof fn lemma_paint_is_patch<H>(node: ViewNode<H>, b: Bounds, x: int, y: int, c: CellView)
    ensures
        paint_cell(node, b, x, y, c) == apply_patch(node_patch(node, b, x, y), c),
    decreases node, 0nat,
{
    match node {
        ViewNode::Row(children) => {
            lemma_children_are_patch(children, b, children.len() as nat, x, y, c);
        },
        ViewNode::Container { child, style, .. } => {
            lemma_paint_is_patch(*child, b, x, y, region_cell(style, b, x, y, c));
        },
        _ => {},
    }
}

pub proof fn lemma_children_are_patch<H>(
    children: Vec<ViewNode<H>>,
    b: Bounds,
    k: nat,
    x: int,
    y: int,
    c: CellView,
)
    ensures
        paint_children(children, b, k, x, y, c) == apply_patch(children_patch(children, b, k, x, y), c),
    decreases children, k,
{
    if k > 0 && k <= children.len() {
        lemma_children_are_patch(children, b, (k - 1) as nat, x, y, c);
        lemma_paint_is_patch(
            children[k - 1],
            child_bounds(b, children.len() as nat, (k - 1) as nat),
            x,
            y,
            paint_children(children, b, (k - 1) as nat, x, y, c),
        );
    }
}

/// Painting a view over the result of painting that same view changes
/// no cell.
pub proof fn lemma_paint_idempotent<H>(node: ViewNode<H>, b: Bounds, width: nat, cells: Seq<CellView>)
    ensures
        painted(node, b, width, painted(node, b, width, cells)) == painted(node, b, width, cells),
{
    let once = painted(node, b, width, cells);
    assert forall|k: int| 0 <= k < cells.len() implies #[trigger] painted(node, b, width, once)[k]
        == once[k] by {
        let x = k % (width as int);
        let y = k / (width as int);
        lemma_paint_is_patch(node, b, x, y, cells[k]);
        lemma_paint_is_patch(node, b, x, y, once[k]);
    }
    assert(painted(node, b, width, once) =~= once);
}

} // verus!
