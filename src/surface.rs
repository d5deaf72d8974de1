use vstd::prelude::*;

verus! {

/// Rotation of the drawn content relative to the panel's native orientation.
#[derive(Clone, Copy, Debug, PartialEq, Eq, Structural)]
pub enum Rotation {
    Deg0,
    Deg90,
    Deg180,
    Deg270,
}

/// Relies on `mipidsi::options::Rotation::is_horizontal`, which is true for
/// 0° and 180° and false for 90° and 270°.
#[verifier::external_body]
fn mipidsi_is_horizontal(r: Rotation) -> (h: bool)
    ensures
        h == (r is Deg0 || r is Deg180),
{
    let m = match r {
        Rotation::Deg0 => mipidsi::options::Rotation::Deg0,
        Rotation::Deg90 => mipidsi::options::Rotation::Deg90,
        Rotation::Deg180 => mipidsi::options::Rotation::Deg180,
        Rotation::Deg270 => mipidsi::options::Rotation::Deg270,
    };
    m.is_horizontal()
}

/// Fixed geometry of a panel: native resolution before rotation, the
/// rotation of the content and whether the colors are inverted.
#[derive(Clone, Copy, Debug, PartialEq, Eq, Structural)]
pub struct PanelGeometry {
    pub width: u16,
    pub height: u16,
    pub rotation: Rotation,
    pub inverted: bool,
}

/// The panel this system drives: 170 by 135 native pixels, content turned
/// by 90°, colors inverted (an IPS variant).
pub fn modeled_panel() -> (g: PanelGeometry)
    ensures
        g == (PanelGeometry { width: 170, height: 135, rotation: Rotation::Deg90, inverted: true }),
{
    PanelGeometry { width: 170, height: 135, rotation: Rotation::Deg90, inverted: true }
}

impl PanelGeometry {
    /// Width and height of the drawing area after rotation.
    pub open spec fn spec_drawing_size(self) -> (u16, u16) {
        if self.rotation is Deg0 || self.rotation is Deg180 {
            (self.width, self.height)
        } else {
            (self.height, self.width)
        }
    }

    /// Width and height of the drawing area: the native size for 0° and
    /// 180°, swapped for 90° and 270°.
    pub fn drawing_size(&self) -> (r: (u16, u16))
        ensures
            r == self.spec_drawing_size(),
    {
        if mipidsi_is_horizontal(self.rotation) {
            (self.width, self.height)
        } else {
            (self.height, self.width)
        }
    }
}

/// What the panel's memory holds: one RGB565 value per addressable pixel,
/// row by row.
pub struct Surface {
    pub width: usize,
    pub height: usize,
    pub rows: Vec<Vec<u16>>,
}

/// Whether column `px`, row `py` lies in the rectangle at `(x, y)` of size
/// `w` by `h`.
pub open spec fn in_rect(px: int, py: int, x: int, y: int, w: int, h: int) -> bool {
    x <= px < x + w && y <= py < y + h
}

impl Surface {
    pub open spec fn wf(self) -> bool {
        &&& self.rows@.len() == self.height
        &&& forall|y: int| 0 <= y < self.height ==> (#[trigger] self.rows@[y])@.len() == self.width
    }

    pub open spec fn spec_pixel(self, x: int, y: int) -> u16 {
        self.rows@[y]@[x]
    }

    /// A surface of `width` by `height` pixels, all holding `color`.
    pub fn new(width: usize, height: usize, color: u16) -> (s: Surface)
        ensures
            s.wf(),
            s.width == width,
            s.height == height,
            forall|x: int, y: int| 0 <= x < width && 0 <= y < height ==> s.spec_pixel(x, y) == color,
    {
        let mut rows: Vec<Vec<u16>> = Vec::new();
        let mut j: usize = 0;
        while j < height
            invariant
                j <= height,
                rows@.len() == j,
                forall|y: int| 0 <= y < j ==> (#[trigger] rows@[y])@ == Seq::new(width as nat, |i: int| color),
            decreases height - j,
        {
            let row = solid_row(width, color);
            rows.push(row);
            j = j + 1;
        }
        Surface { width, height, rows }
    }

    /// The pixel at column `x`, row `y`.
    pub fn pixel(&self, x: usize, y: usize) -> (c: u16)
        requires
            self.wf(),
            x < self.width,
            y < self.height,
        ensures
            c == self.spec_pixel(x as int, y as int),
    {
        self.rows[y][x]
    }

    /// Fills every addressable pixel with `color`.
    pub fn clear(&mut self, color: u16)
        requires
            old(self).wf(),
        ensures
            final(self).wf(),
            final(self).width == old(self).width,
            final(self).height == old(self).height,
            forall|x: int, y: int|
                0 <= x < final(self).width && 0 <= y < final(self).height ==> final(self).spec_pixel(
                    x,
                    y,
                ) == color,
    {
        let mut j: usize = 0;
        while j < self.height
            invariant
                self.wf(),
                j <= self.height,
                self.width == old(self).width,
                self.height == old(self).height,
                forall|y: int| 0 <= y < j ==> (#[trigger] self.rows@[y])@ == Seq::new(self.width as nat, |i: int| color),
            decreases self.height - j,
        {
            let row = solid_row(self.width, color);
            self.rows.set(j, row);
            j = j + 1;
        }
    }

    /// Fills the part of the rectangle at `(x, y)` of size `w` by `h` that
    /// lies on the surface with `color`; pixels outside it keep their value.
    /// Coordinates off the surface are clipped, not rejected.
    pub fn fill_rect(&mut self, x: i32, y: i32, w: u32, h: u32, color: u16)
        requires
            old(self).wf(),
        ensures
            final(self).wf(),
            final(self).width == old(self).width,
            final(self).height == old(self).height,
            forall|px: int, py: int|
                0 <= px < final(self).width && 0 <= py < final(self).height ==> final(self).spec_pixel(
                    px,
                    py,
                ) == if in_rect(px, py, x as int, y as int, w as int, h as int) {
                    color
                } else {
                    old(self).spec_pixel(px, py)
                },
    {
        let mut j: usize = 0;
        while j < self.height
            invariant
                self.wf(),
                j <= self.height,
                self.width == old(self).width,
                self.height == old(self).height,
                forall|px: int, py: int|
                    0 <= px < self.width && 0 <= py < self.height ==> self.spec_pixel(px, py) == if py
                        < j && in_rect(px, py, x as int, y as int, w as int, h as int) {
                        color
                    } else {
                        old(self).spec_pixel(px, py)
                    },
            decreases self.height - j,
        {
            let row_in = (y as i128) <= (j as i128) && (j as i128) < (y as i128) + (h as i128);
            let ghost prev = *self;
            if row_in {
                let row = fill_span(&self.rows[j], x, w, color);
                self.rows.set(j, row);
            }
            assert forall|px: int, py: int|
                0 <= px < self.width && 0 <= py < self.height implies self.spec_pixel(px, py) == if py
                    < j + 1 && in_rect(px, py, x as int, y as int, w as int, h as int) {
                    color
                } else {
                    old(self).spec_pixel(px, py)
                } by {
                assert(prev.spec_pixel(px, py) == if py < j && in_rect(px, py, x as int, y as int, w as int, h as int) {
                    color
                } else {
                    old(self).spec_pixel(px, py)
                });
                if py != j {
                    assert(self.rows@[py] == prev.rows@[py]);
                    assert(self.spec_pixel(px, py) == prev.spec_pixel(px, py));
                } else {
                    assert(prev.spec_pixel(px, py) == old(self).spec_pixel(px, py));
                    assert(row_in == (y <= py < y + h));
                    if !row_in {
                        assert(self.rows@[py] == prev.rows@[py]);
                    }
                }
            }
            j = j + 1;
        }
    }
}

/// A row of `width` pixels, all `color`.
fn solid_row(width: usize, color: u16) -> (r: Vec<u16>)
    ensures
        r@ == Seq::new(width as nat, |i: int| color),
{
    let mut r: Vec<u16> = Vec::new();
    let mut i: usize = 0;
    while i < width
        invariant
            i <= width,
            r@ == Seq::new(i as nat, |k: int| color),
        decreases width - i,
    {
        r.push(color);
        i = i + 1;
    }
    r
}

/// A copy of `row` in which the columns `x .. x + w` that exist hold
/// `color`.
fn fill_span(row: &Vec<u16>, x: i32, w: u32, color: u16) -> (r: Vec<u16>)
    ensures
        r@.len() == row@.len(),
        forall|px: int|
            0 <= px < row@.len() ==> r@[px] == if x <= px < x + w {
                color
            } else {
                row@[px]
            },
{
    let mut r: Vec<u16> = Vec::new();
    let mut i: usize = 0;
    while i < row.len()
        invariant
            i <= row@.len(),
            r@.len() == i,
            forall|px: int|
                0 <= px < i ==> r@[px] == if x <= px < x + w {
                    color
                } else {
                    row@[px]
                },
        decreases row.len() - i,
    {
        let inside = (x as i128) <= (i as i128) && (i as i128) < (x as i128) + (w as i128);
        if inside {
            r.push(color);
        } else {
            r.push(row[i]);
        }
        i = i + 1;
    }
    r
}

} // verus!
