//! The size of a pseudoterminal.

use vstd::prelude::*;

verus! {

/// The size of the visible display area of a pty: in character cells, and
/// in pixels where the other end cares for them.
#[derive(Clone, Copy, Debug, PartialEq, Eq, Structural)]
pub struct PtySize {
    /// The number of lines of text
    pub rows: u16,
    /// The number of columns of text
    pub cols: u16,
    /// The width of a cell in pixels.  Note that some systems never
    /// fill this value and ignore it.
    pub pixel_width: u16,
    /// The height of a cell in pixels.  Note that some systems never
    /// fill this value and ignore it.
    pub pixel_height: u16,
}

impl Default for PtySize {
    fn default() -> (r: Self)
        ensures
            r == (PtySize { rows: 24, cols: 80, pixel_width: 0, pixel_height: 0 }),
    {
        PtySize { rows: 24, cols: 80, pixel_width: 0, pixel_height: 0 }
    }
}

} // verus!
