//! Three side-by-side columns: parent, current and preview, with the
//! widths split by a ratio of the whole.

use vstd::prelude::*;

verus! {

/// A rectangle on the terminal: its top-left cell and its size.
#[derive(Clone, Copy, Debug, PartialEq, Eq, Structural)]
pub struct Coordinates {
    pub x: u16,
    pub y: u16,
    pub xsize: u16,
    pub ysize: u16,
}

impl Coordinates {
    pub fn new() -> (r: Coordinates)
        ensures
            r == (Coordinates { x: 1, y: 1, xsize: 0, ysize: 0 }),
    {
        Coordinates { x: 1, y: 1, xsize: 0, ysize: 0 }
    }
}

/// A stack of widgets shown as columns: the last is the current one, the
/// one before it its parent.
pub struct MillerColumns<T> {
    pub widgets: Vec<T>,
    pub ratio: (u16, u16, u16),
    pub coordinates: Coordinates,
    /// The rectangles last laid out for the parent, current and preview
    /// columns.
    pub columns: (Coordinates, Coordinates, Coordinates),
}

/// Width of a column that takes `percent` of `xsize`.
pub open spec fn share(xsize: u16, percent: u16) -> int {
    (xsize as int * percent as int) / 100
}

impl<T> MillerColumns<T> {
    /// The layout fits: the preview column is at least one cell wide, and
    /// the widths and positions fit in a cell coordinate.
    pub open spec fn layout_fits(self) -> bool {
        let xs = self.coordinates.xsize;
        &&& share(xs, self.ratio.2) >= 1
        &&& share(xs, self.ratio.2) <= u16::MAX + 1
        &&& share(xs, self.ratio.0) + share(xs, self.ratio.1) + 3 <= u16::MAX
    }

    /// The rectangles of the parent, current and preview columns.
    pub open spec fn layout(self) -> (Coordinates, Coordinates, Coordinates) {
        let c = self.coordinates;
        let l = share(c.xsize, self.ratio.0);
        let m = share(c.xsize, self.ratio.1);
        let p = share(c.xsize, self.ratio.2);
        (
            Coordinates { x: c.x, y: c.y, xsize: l as u16, ysize: c.ysize },
            Coordinates { x: (l + 2) as u16, y: c.y, xsize: m as u16, ysize: c.ysize },
            Coordinates { x: (l + m + 3) as u16, y: c.y, xsize: (p - 1) as u16, ysize: c.ysize },
        )
    }

    /// The columns after a layout: recomputed where the layout fits, kept
    /// where it does not.
    pub open spec fn laid_out(self, columns: (Coordinates, Coordinates, Coordinates)) -> bool {
        if self.layout_fits() { columns == self.layout() } else { columns == self.columns }
    }

    /// Lays the columns out again.
    pub fn refresh(&mut self)
        ensures
            old(self).laid_out(final(self).columns),
            final(self).widgets == old(self).widgets,
            final(self).ratio == old(self).ratio,
            final(self).coordinates == old(self).coordinates,
    {
        if self.fits() {
            self.columns = self.calculate_coordinates();
        }
    }

    fn fits(&self) -> (r: bool)
        ensures
            r == self.layout_fits(),
    {
        let xs: u32 = self.coordinates.xsize as u32;
        proof {
            assert(xs * (self.ratio.0 as u32) <= 65535 * 65535) by (nonlinear_arith)
                requires xs <= 65535, self.ratio.0 <= 65535;
            assert(xs * (self.ratio.1 as u32) <= 65535 * 65535) by (nonlinear_arith)
                requires xs <= 65535, self.ratio.1 <= 65535;
            assert(xs * (self.ratio.2 as u32) <= 65535 * 65535) by (nonlinear_arith)
                requires xs <= 65535, self.ratio.2 <= 65535;
        }
        let l: u32 = xs * self.ratio.0 as u32 / 100;
        let m: u32 = xs * self.ratio.1 as u32 / 100;
        let p: u32 = xs * self.ratio.2 as u32 / 100;
        p >= 1 && p <= 65536 && l + m + 3 <= 65535
    }

    pub fn new() -> (r: MillerColumns<T>)
        ensures
            r.widgets@.len() == 0,
            r.ratio == (20u16, 30u16, 50u16),
            r.coordinates == (Coordinates { x: 1, y: 1, xsize: 0, ysize: 0 }),
            r.columns.0 == r.coordinates && r.columns.1 == r.coordinates && r.columns.2 == r.coordinates,
    {
        MillerColumns {
            widgets: Vec::new(),
            ratio: (20, 30, 50),
            coordinates: Coordinates::new(),
            columns: (Coordinates::new(), Coordinates::new(), Coordinates::new()),
        }
    }

    /// Adds a column on the right; it becomes the current one.
    pub fn push_widget(&mut self, widget: T)
        ensures
            final(self).widgets@ == old(self).widgets@.push(widget),
            final(self).ratio == old(self).ratio,
            final(self).coordinates == old(self).coordinates,
            old(self).laid_out(final(self).columns),
    {
        self.widgets.push(widget);
        self.refresh();
    }

    /// Takes the current column away; its parent becomes current.
    pub fn pop_widget(&mut self) -> (r: Option<T>)
        ensures
            old(self).widgets@.len() == 0 ==> r is None && final(self).widgets@ == old(self).widgets@,
            old(self).widgets@.len() > 0 ==> r == Some(old(self).widgets@.last())
                && final(self).widgets@ == old(self).widgets@.drop_last(),
            final(self).ratio == old(self).ratio,
            final(self).coordinates == old(self).coordinates,
            old(self).laid_out(final(self).columns),
    {
        let widget = self.widgets.pop();
        self.refresh();
        widget
    }

    /// Adds a column on the far left.
    pub fn prepend_widget(&mut self, widget: T)
        ensures
            final(self).widgets@ == seq![widget] + old(self).widgets@,
            final(self).ratio == old(self).ratio,
            final(self).coordinates == old(self).coordinates,
    {
        self.widgets.insert(0, widget);
        assert(self.widgets@ =~= seq![widget] + old(self).widgets@);
    }

    /// The rectangles of the parent, current and preview columns.
    pub fn calculate_coordinates(&self) -> (r: (Coordinates, Coordinates, Coordinates))
        requires
            self.layout_fits(),
        ensures
            r == self.layout(),
    {
        let xsize: u32 = self.coordinates.xsize as u32;
        let ysize: u16 = self.coordinates.ysize;
        let top: u16 = self.coordinates.y;
        proof {
            assert(xsize * (self.ratio.0 as u32) <= 65535 * 65535) by (nonlinear_arith)
                requires xsize <= 65535, self.ratio.0 <= 65535;
            assert(xsize * (self.ratio.1 as u32) <= 65535 * 65535) by (nonlinear_arith)
                requires xsize <= 65535, self.ratio.1 <= 65535;
            assert(xsize * (self.ratio.2 as u32) <= 65535 * 65535) by (nonlinear_arith)
                requires xsize <= 65535, self.ratio.2 <= 65535;
        }
        let left_xsize: u16 = (xsize * self.ratio.0 as u32 / 100) as u16;
        let main_xsize: u16 = (xsize * self.ratio.1 as u32 / 100) as u16;
        let preview_xsize: u32 = xsize * self.ratio.2 as u32 / 100;
        let left = Coordinates { x: self.coordinates.x, y: top, xsize: left_xsize, ysize };
        let main = Coordinates { x: left_xsize + 2, y: top, xsize: main_xsize, ysize };
        let preview = Coordinates {
            x: left_xsize + main_xsize + 3,
            y: top,
            xsize: (preview_xsize - 1) as u16,
            ysize,
        };
        (left, main, preview)
    }

    /// The parent column, if there is one.
    pub fn get_left_widget(&self) -> (r: Option<&T>)
        ensures
            self.widgets@.len() < 2 ==> r is None,
            self.widgets@.len() >= 2 ==> r == Some(&self.widgets@[self.widgets@.len() - 2]),
    {
        let len: usize = self.widgets.len();
        if len < 2 {
            return None;
        }
        Some(&self.widgets[len - 2])
    }

    /// The current column.
    pub fn get_main_widget(&self) -> (r: &T)
        requires
            self.widgets@.len() > 0,
        ensures
            *r == self.widgets@.last(),
    {
        let len: usize = self.widgets.len();
        &self.widgets[len - 1]
    }
}

impl<T> MillerColumns<T> {
    /// The parent column, to change it.
    pub fn get_left_widget_mut(&mut self) -> (r: Option<&mut T>)
        ensures
            old(self).widgets@.len() < 2 ==> r is None && *final(self) == *old(self),
            old(self).widgets@.len() >= 2 ==> (r matches Some(w) && *w == old(self).widgets@[old(self).widgets@.len() - 2]
                && final(self).widgets@ == old(self).widgets@.update(old(self).widgets@.len() - 2, *final(w))),
            final(self).ratio == old(self).ratio,
            final(self).coordinates == old(self).coordinates,
    {
        let len: usize = self.widgets.len();
        if len < 2 {
            return None;
        }
        Some(&mut self.widgets[len - 2])
    }

    /// The current column, to change it.
    pub fn get_main_widget_mut(&mut self) -> (r: &mut T)
        requires
            old(self).widgets@.len() > 0,
        ensures
            *r == old(self).widgets@.last(),
            final(self).widgets@ == old(self).widgets@.update(old(self).widgets@.len() - 1, *final(r)),
            final(self).ratio == old(self).ratio,
            final(self).coordinates == old(self).coordinates,
    {
        let len: usize = self.widgets.len();
        &mut self.widgets[len - 1]
    }

    /// Moves and resizes the whole; reports whether anything changed.
    pub fn set_coordinates(&mut self, coordinates: &Coordinates) -> (r: bool)
        ensures
            final(self).coordinates == *coordinates,
            final(self).widgets == old(self).widgets,
            final(self).ratio == old(self).ratio,
            r == (old(self).coordinates != *coordinates),
            r ==> (MillerColumns { columns: old(self).columns, coordinates: *coordinates, ..*old(self) }).laid_out(final(self).columns),
            !r ==> final(self).columns == old(self).columns,
    {
        if self.coordinates == *coordinates {
            return false;
        }
        self.coordinates = *coordinates;
        self.refresh();
        true
    }
}

} // verus!
