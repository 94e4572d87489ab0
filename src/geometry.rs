//! Window rectangles in screen pixels.
use vstd::prelude::*;

verus! {

/// A rectangle by its edges, in pixels.
#[derive(Debug, Clone, Copy, PartialEq, Eq, Structural)]
pub struct Rect {
    pub left: i32,
    pub top: i32,
    pub right: i32,
    pub bottom: i32,
}

/// Extents that fit in `i32`.
pub open spec fn fits_i32(v: int) -> bool {
    i32::MIN <= v <= i32::MAX
}

impl Rect {
    /// The rectangle with all edges at zero.
    pub fn make_empty_rect() -> (r: Rect)
        ensures
            r == (Rect { left: 0, top: 0, right: 0, bottom: 0 }),
    {
        Rect { left: 0, top: 0, right: 0, bottom: 0 }
    }

    pub open spec fn spec_dim(&self) -> (int, int) {
        (self.right - self.left, self.bottom - self.top)
    }

    /// Width and height.
    pub fn dim(&self) -> (r: (i32, i32))
        requires
            fits_i32(self.spec_dim().0),
            fits_i32(self.spec_dim().1),
        ensures
            r.0 == self.spec_dim().0,
            r.1 == self.spec_dim().1,
    {
        (self.right - self.left, self.bottom - self.top)
    }
}

/// Rectangle of size `dim` centred on a screen of size `screen_dim` (halves
/// rounded down).
pub fn compute_client_rect(dim: (i32, i32), screen_dim: (i32, i32)) -> (r: Rect)
    requires
        0 <= dim.0,
        0 <= dim.1,
        0 <= screen_dim.0,
        0 <= screen_dim.1,
    ensures
        r.left == screen_dim.0 / 2 - dim.0 / 2,
        r.top == screen_dim.1 / 2 - dim.1 / 2,
        r.right == r.left + dim.0,
        r.bottom == r.top + dim.1,
{
    let x = screen_dim.0 / 2 - dim.0 / 2;
    let y = screen_dim.1 / 2 - dim.1 / 2;
    Rect { left: x, top: y, right: x + dim.0, bottom: y + dim.1 }
}

/// A client rectangle (relative to its window) moved to screen coordinates,
/// by the top-left corner of the window rectangle.
pub fn client_rect_on_screen(client: Rect, window: Rect) -> (r: Rect)
    requires
        fits_i32(client.left + window.left),
        fits_i32(client.right + window.left),
        fits_i32(client.top + window.top),
        fits_i32(client.bottom + window.top),
    ensures
        r.left == client.left + window.left,
        r.right == client.right + window.left,
        r.top == client.top + window.top,
        r.bottom == client.bottom + window.top,
{
    Rect {
        left: client.left + window.left,
        top: client.top + window.top,
        right: client.right + window.left,
        bottom: client.bottom + window.top,
    }
}

/// The work area of the desktop: from the origin to the size of a maximized window.
pub fn desktop_work_area(maximized_dim: (i32, i32)) -> (r: Rect)
    ensures
        r == (Rect { left: 0, top: 0, right: maximized_dim.0, bottom: maximized_dim.1 }),
{
    Rect { left: 0, top: 0, right: maximized_dim.0, bottom: maximized_dim.1 }
}

/// A window of client size `dim` is shown at that size only where it is
/// smaller than the work area on both axes; otherwise it is maximized.
pub fn fits_work_area(dim: (i32, i32), work_dim: (i32, i32)) -> (r: bool)
    ensures
        r == (dim.0 < work_dim.0 && dim.1 < work_dim.1),
{
    dim.0 < work_dim.0 && dim.1 < work_dim.1
}

} // verus!
