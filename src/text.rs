use vstd::prelude::*;

verus! {

/// Cell geometry of a monospaced font, in pixels.
#[derive(Clone, Copy, Debug, PartialEq, Eq, Structural)]
pub struct FontMetrics {
    /// Width of one glyph cell.
    pub width: u32,
    /// Height of one glyph cell.
    pub height: u32,
    /// Gap between two neighbouring cells.
    pub spacing: u32,
    /// Distance from the cell's top row to the baseline.
    pub baseline: u32,
}

/// Relies on `embedded_graphics::mono_font::ascii::FONT_9X18`, whose
/// definition gives a 9 by 18 character size, no character spacing and a
/// baseline at row 13.
#[verifier::external_body]
fn eg_font_9x18() -> (m: FontMetrics)
    ensures
        m == (FontMetrics { width: 9, height: 18, spacing: 0, baseline: 13 }),
{
    let f = &embedded_graphics::mono_font::ascii::FONT_9X18;
    FontMetrics {
        width: f.character_size.width,
        height: f.character_size.height,
        spacing: f.character_spacing,
        baseline: f.baseline,
    }
}

/// The metrics of the 9 by 18 monospaced font used for the text line.
pub fn font_9x18() -> (m: FontMetrics)
    ensures
        m == (FontMetrics { width: 9, height: 18, spacing: 0, baseline: 13 }),
{
    eg_font_9x18()
}

/// The screen rectangle of one glyph.
#[derive(Clone, Copy, Debug, PartialEq, Eq, Structural)]
pub struct GlyphCell {
    pub x: i32,
    pub y: i32,
    pub width: u32,
    pub height: u32,
}

/// Left edge of the `i`-th cell of a line anchored at `anchor_x`.
pub open spec fn cell_x(anchor_x: int, i: int, f: FontMetrics) -> int {
    anchor_x + i * (f.width + f.spacing)
}

/// Top edge of the cells of a line whose baseline anchor is at `anchor_y`.
pub open spec fn cell_top(anchor_y: int, f: FontMetrics) -> int {
    anchor_y - f.baseline
}

/// Right edge (exclusive) of a line of `n` glyphs: the cells and the gaps
/// between them, without a trailing gap.
pub open spec fn line_right(anchor_x: int, n: int, f: FontMetrics) -> int {
    if n == 0 {
        anchor_x
    } else {
        cell_x(anchor_x, n, f) - f.spacing
    }
}

/// Whether the line's coordinates fit the 32-bit screen coordinates.
pub open spec fn line_representable(anchor_x: int, anchor_y: int, n: int, f: FontMetrics) -> bool {
    &&& i32::MIN <= cell_top(anchor_y, f)
    &&& cell_x(anchor_x, n, f) <= i32::MAX
}

/// The cells of a line of `n` glyphs whose first glyph's baseline point is
/// `(anchor_x, anchor_y)`: cell `i` starts `i` cell widths plus gaps to the
/// right of the anchor, and all cells share the top row `anchor_y - baseline`.
pub fn glyph_cells(anchor_x: i32, anchor_y: i32, n: usize, f: &FontMetrics) -> (r: Vec<GlyphCell>)
    requires
        line_representable(anchor_x as int, anchor_y as int, n as int, *f),
    ensures
        r@.len() == n,
        forall|i: int|
            0 <= i < n ==> r@[i] == (GlyphCell {
                x: cell_x(anchor_x as int, i, *f) as i32,
                y: cell_top(anchor_y as int, *f) as i32,
                width: f.width,
                height: f.height,
            }),
{
    let step: i64 = f.width as i64 + f.spacing as i64;
    let top: i32 = (anchor_y as i64 - f.baseline as i64) as i32;
    let mut r: Vec<GlyphCell> = Vec::new();
    let mut x: i64 = anchor_x as i64;
    let mut i: usize = 0;
    while i < n
        invariant
            i <= n,
            step == f.width + f.spacing,
            top == cell_top(anchor_y as int, *f),
            line_representable(anchor_x as int, anchor_y as int, n as int, *f),
            x == cell_x(anchor_x as int, i as int, *f),
            r@.len() == i,
            forall|j: int|
                0 <= j < i ==> r@[j] == (GlyphCell {
                    x: cell_x(anchor_x as int, j, *f) as i32,
                    y: cell_top(anchor_y as int, *f) as i32,
                    width: f.width,
                    height: f.height,
                }),
        decreases n - i,
    {
        proof {
            assert(0 <= step);
            assert(i * step <= n * step) by (nonlinear_arith)
                requires i <= n, 0 <= step;
            assert((i + 1) * step == i * step + step) by (nonlinear_arith);
        }
        r.push(GlyphCell { x: x as i32, y: top, width: f.width, height: f.height });
        x = x + step;
        i = i + 1;
    }
    r
}

/// Right edge (exclusive) of a line of `n` glyphs anchored at `anchor_x`.
pub fn text_right_edge(anchor_x: i32, n: usize, f: &FontMetrics) -> (r: i128)
    requires
        n <= u32::MAX,
    ensures
        r == line_right(anchor_x as int, n as int, *f),
{
    if n == 0 {
        anchor_x as i128
    } else {
        let step: i128 = f.width as i128 + f.spacing as i128;
        proof {
            assert(0 <= n * step <= u32::MAX * (2 * u32::MAX)) by (nonlinear_arith)
                requires n <= u32::MAX, 0 <= step <= 2 * u32::MAX;
        }
        anchor_x as i128 + n as i128 * step - f.spacing as i128
    }
}

/// Whether a line of `n` glyphs anchored at `anchor_x` ends within a panel
/// `panel_width` pixels wide, starting at or right of its left edge.
pub fn line_fits(anchor_x: i32, n: usize, f: &FontMetrics, panel_width: u32) -> (r: bool)
    requires
        n <= u32::MAX,
    ensures
        r == (0 <= anchor_x && line_right(anchor_x as int, n as int, *f) <= panel_width),
{
    anchor_x >= 0 && text_right_edge(anchor_x, n, f) <= panel_width as i128
}

/// With a font without character spacing, a line's cells tile to the right
/// from the anchor: the first starts at the anchor, each starts where the
/// previous ends, so none overlap and none leave a gap. When the line's
/// right edge is within the panel width, every cell lies inside the panel's
/// columns.
pub proof fn lemma_cells_tile(anchor_x: int, n: int, f: FontMetrics, panel_width: int)
    requires
        f.spacing == 0,
        n >= 0,
    ensures
        cell_x(anchor_x, 0, f) == anchor_x,
        forall|i: int| 0 <= i < n - 1 ==> #[trigger] cell_x(anchor_x, i, f) + f.width == cell_x(anchor_x, i + 1, f),
        line_right(anchor_x, n, f) == anchor_x + n * f.width,
        0 <= anchor_x && line_right(anchor_x, n, f) <= panel_width ==> forall|i: int|
            0 <= i < n ==> 0 <= cell_x(anchor_x, i, f) && cell_x(anchor_x, i, f) + f.width <= panel_width,
{
    assert forall|i: int| 0 <= i < n - 1 implies #[trigger] cell_x(anchor_x, i, f) + f.width == cell_x(anchor_x, i + 1, f) by {
        assert((i + 1) * f.width == i * f.width + f.width) by (nonlinear_arith);
    }
    if 0 <= anchor_x && line_right(anchor_x, n, f) <= panel_width {
        assert forall|i: int| 0 <= i < n implies 0 <= cell_x(anchor_x, i, f) && cell_x(anchor_x, i, f) + f.width <= panel_width by {
            assert(0 <= i * f.width) by (nonlinear_arith) requires 0 <= i, 0 <= f.width;
            assert((i + 1) * f.width <= n * f.width) by (nonlinear_arith) requires i + 1 <= n, 0 <= f.width;
            assert((i + 1) * f.width == i * f.width + f.width) by (nonlinear_arith);
        }
    }
}

} // verus!
