//! Rectangles of terminal cells.

use vstd::math::*;
use vstd::prelude::*;

verus! {

/// A rectangle of terminal cells. `x` and `y` name its top left cell.
#[derive(Debug, Clone, Copy, PartialEq, Eq, Structural)]
pub struct Rect {
    pub x: u16,
    pub y: u16,
    pub width: u16,
    pub height: u16,
}

impl Rect {
    /// The rectangle without cells in the top left corner.
    pub open spec fn zero() -> Rect {
        Rect { x: 0, y: 0, width: 0, height: 0 }
    }

    /// The rectangle at `(x, y)` whose size is cut back so that neither edge passes
    /// the last coordinate.
    pub open spec fn at(x: u16, y: u16, width: u16, height: u16) -> Rect {
        Rect {
            x,
            y,
            width: min(width as int, u16::MAX - x) as u16,
            height: min(height as int, u16::MAX - y) as u16,
        }
    }

    /// The first column to the right of the rectangle.
    pub open spec fn right(self) -> int {
        self.x + self.width
    }

    /// The rectangle has no cells.
    pub open spec fn is_empty(self) -> bool {
        self.width == 0 || self.height == 0
    }

    /// The right edge is a coordinate.
    pub open spec fn right_fits(self) -> bool {
        self.right() <= u16::MAX
    }

    /// The cell in column `x` of row `y` belongs to the rectangle. The last coordinate is an
    /// edge and has no cell.
    pub open spec fn has_cell(self, x: int, y: int) -> bool {
        &&& self.x <= x < min(self.right(), u16::MAX as int)
        &&& self.y <= y < min(self.y + self.height, u16::MAX as int)
    }

    /// The first column of what a screen shows of the rectangle.
    pub open spec fn left_in(self, screen: Rect) -> int {
        max(self.x as int, screen.x as int)
    }

    /// The first row of what a screen shows of the rectangle.
    pub open spec fn top_in(self, screen: Rect) -> int {
        max(self.y as int, screen.y as int)
    }

    /// The columns of the first row that a screen shows of the rectangle, none where it shows no
    /// row.
    pub open spec fn room_in(self, screen: Rect) -> int {
        let right = min(min(self.right(), screen.right()), u16::MAX as int);
        let bottom = min(
            min(self.y + self.height, screen.y + screen.height),
            u16::MAX as int,
        );
        if bottom <= self.top_in(screen) {
            0
        } else {
            max(right - self.left_in(screen), 0)
        }
    }

    /// `idx` is the first rectangle that has a column.
    pub open spec fn is_first_visible(rects: Seq<Rect>, idx: int) -> bool {
        &&& 0 <= idx < rects.len()
        &&& rects[idx].width > 0
        &&& forall|i: int| 0 <= i < idx ==> (#[trigger] rects[i]).width == 0
    }

    /// `idx` is the last rectangle that has a column.
    pub open spec fn is_last_visible(rects: Seq<Rect>, idx: int) -> bool {
        &&& 0 <= idx < rects.len()
        &&& rects[idx].width > 0
        &&& forall|i: int| idx < i < rects.len() ==> (#[trigger] rects[i]).width == 0
    }

    /// The first rectangle that has a column, if there is one.
    pub open spec fn first_visible(rects: Seq<Rect>) -> Option<int> {
        if exists|idx: int| Rect::is_first_visible(rects, idx) {
            Some(choose|idx: int| Rect::is_first_visible(rects, idx))
        } else {
            None
        }
    }

    /// The last rectangle that has a column, if there is one.
    pub open spec fn last_visible(rects: Seq<Rect>) -> Option<int> {
        if exists|idx: int| Rect::is_last_visible(rects, idx) {
            Some(choose|idx: int| Rect::is_last_visible(rects, idx))
        } else {
            None
        }
    }

    /// The columns of the first row that a screen shows of the rectangle; see [`Rect::room_in`].
    pub(crate) fn room(self, screen: Rect) -> (room: u16)
        ensures
            room == self.room_in(screen),
    {
        let own_right = self.x.saturating_add(self.width);
        let screen_right = screen.x.saturating_add(screen.width);
        let right = if own_right < screen_right { own_right } else { screen_right };
        let own_bottom = self.y.saturating_add(self.height);
        let screen_bottom = screen.y.saturating_add(screen.height);
        let bottom = if own_bottom < screen_bottom { own_bottom } else { screen_bottom };
        let left = if self.x > screen.x { self.x } else { screen.x };
        let top = if self.y > screen.y { self.y } else { screen.y };
        if bottom <= top {
            0
        } else {
            right.saturating_sub(left)
        }
    }

    /// A rectangle at `(x, y)`. Its size is cut back so that its right and bottom edges
    /// stay coordinates.
    pub fn new(x: u16, y: u16, width: u16, height: u16) -> (rect: Rect)
        ensures
            rect == Rect::at(x, y, width, height),
            rect.right_fits(),
    {
        Rect {
            x,
            y,
            width: x.saturating_add(width) - x,
            height: y.saturating_add(height) - y,
        }
    }
}

impl Default for Rect {
    fn default() -> (rect: Rect)
        ensures
            rect == Rect::zero(),
    {
        Rect { x: 0, y: 0, width: 0, height: 0 }
    }
}

/// The index of the first rectangle that has a column.
pub fn first_visible_index(rects: &[Rect]) -> (found: Option<usize>)
    ensures
        match found {
            Some(idx) => {
                &&& Rect::is_first_visible(rects@, idx as int)
                &&& Rect::first_visible(rects@) == Some(idx as int)
            },
            None => Rect::first_visible(rects@) is None && forall|i: int|
                0 <= i < rects@.len() ==> (#[trigger] rects@[i]).width == 0,
        },
{
    let mut idx: usize = 0;
    while idx < rects.len()
        invariant
            idx <= rects@.len(),
            forall|i: int| 0 <= i < idx ==> (#[trigger] rects@[i]).width == 0,
        decreases rects@.len() - idx,
    {
        if rects[idx].width > 0 {
            assert(Rect::is_first_visible(rects@, idx as int));
            return Some(idx);
        }
        idx = idx + 1;
    }
    None
}

/// The index of the last rectangle that has a column.
pub fn last_visible_index(rects: &[Rect]) -> (found: Option<usize>)
    ensures
        match found {
            Some(idx) => {
                &&& Rect::is_last_visible(rects@, idx as int)
                &&& Rect::last_visible(rects@) == Some(idx as int)
            },
            None => Rect::last_visible(rects@) is None && forall|i: int|
                0 <= i < rects@.len() ==> (#[trigger] rects@[i]).width == 0,
        },
{
    let mut end: usize = rects.len();
    while end > 0
        invariant
            end <= rects@.len(),
            forall|i: int| end <= i < rects@.len() ==> (#[trigger] rects@[i]).width == 0,
        decreases end,
    {
        if rects[end - 1].width > 0 {
            assert(Rect::is_last_visible(rects@, end - 1));
            return Some(end - 1);
        }
        end = end - 1;
    }
    None
}

} // verus!
