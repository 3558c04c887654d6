//! Tabs side by side: where each one stands, given how wide it wants to be.

use crate::rect::Rect;
use vstd::math::*;
use vstd::prelude::*;

verus! {

/// Tabs that stand side by side in `area`; tab `idx` wants `widths[idx]` columns.
pub struct Strip {
    pub widths: Seq<u16>,
    pub area: Rect,
}

impl Strip {
    /// Tabs of the given widths in `area`.
    pub open spec fn new(widths: Seq<u16>, area: Rect) -> Strip {
        Strip { widths, area }
    }

    /// The strip has no cells, or its right edge is a coordinate.
    pub open spec fn fits(self) -> bool {
        self.area.is_empty() || self.area.right_fits()
    }

    /// The columns that tab `idx` takes when nothing cuts it off: at least one.
    pub open spec fn full_width(self, idx: int) -> int {
        max(self.widths[idx] as int, 1)
    }

    /// The columns from the left edge of tab `from` to that of tab `to` when every tab between
    /// them has its full width and is followed by one free column.
    pub open spec fn span(self, from: int, to: int) -> int
        decreases to - from,
    {
        if to <= from {
            0
        } else {
            self.span(from, to - 1) + self.full_width(to - 1) + 1
        }
    }

    /// The column at which tab `idx` starts when tab `scroll` is the first one.
    pub open spec fn left(self, scroll: int, idx: int) -> int {
        self.area.x + self.span(scroll, idx)
    }

    /// Some column of tab `idx` shows when tab `scroll` is the first one.
    pub open spec fn shows(self, scroll: int, idx: int) -> bool {
        &&& !self.area.is_empty()
        &&& scroll <= idx < self.widths.len()
        &&& self.left(scroll, idx) < self.area.right()
    }

    /// The cells of tab `idx` when tab `scroll` is the first one: one row at its place, cut off
    /// at the right edge of the strip, or nothing where the tab does not show.
    pub open spec fn hit_area(self, scroll: int, idx: int) -> Rect {
        if self.shows(scroll, idx) {
            let left = self.left(scroll, idx);
            Rect::at(
                left as u16,
                self.area.y,
                min(self.full_width(idx), self.area.right() - left) as u16,
                1,
            )
        } else {
            Rect::zero()
        }
    }

    /// The cells of every tab when tab `scroll` is the first one.
    pub open spec fn hit_areas(self, scroll: int) -> Seq<Rect> {
        Seq::new(self.widths.len(), |idx: int| self.hit_area(scroll, idx))
    }

    /// Twice the column of the middle of a rectangle, as far as it is a coordinate.
    pub open spec fn doubled_center(rect: Rect) -> int {
        min(2 * rect.x + rect.width, u16::MAX as int)
    }

    /// How far tab `idx` is from the middle of the strip when tab `scroll` is the first one.
    pub open spec fn off_center(self, scroll: int, idx: int) -> int {
        let tab = Strip::doubled_center(self.hit_area(scroll, idx));
        let middle = Strip::doubled_center(self.area);
        max(tab - middle, middle - tab)
    }

    /// With tab `scroll` first, tab `active` is as near to the middle as it gets with any tab
    /// up to `limit` first, and nearer than with a later one.
    pub open spec fn best_up_to(self, active: int, limit: int, scroll: int) -> bool {
        &&& 0 <= scroll <= limit
        &&& self.shows(scroll, active)
        &&& forall|other: int|
            0 <= other <= limit && #[trigger] self.shows(other, active) ==> self.off_center(
                scroll,
                active,
            ) <= self.off_center(other, active)
        &&& forall|other: int|
            scroll < other <= limit && #[trigger] self.shows(other, active) ==> self.off_center(
                scroll,
                active,
            ) < self.off_center(other, active)
    }

    /// Tab `scroll` first brings tab `active` nearest to the middle; of two tabs that bring it
    /// equally near it is the later one. Where there is no such tab or the strip has no cells,
    /// it is `active` itself.
    pub open spec fn centers(self, active: int, scroll: int) -> bool {
        if active < self.widths.len() && !self.area.is_empty() {
            self.best_up_to(active, active, scroll)
        } else {
            scroll == active
        }
    }

    /// The first tab with which tab `active` is nearest to the middle.
    pub open spec fn centered_scroll(self, active: int) -> int {
        choose|scroll: int| self.centers(active, scroll)
    }

    /// `scroll` is the earliest first tab with which the last tab shows, or the very first
    /// where there is no tab or the strip has no cells.
    pub open spec fn reaches_end(self, scroll: int) -> bool {
        if self.widths.len() > 0 && !self.area.is_empty() {
            &&& 0 <= scroll < self.widths.len()
            &&& self.shows(scroll, self.widths.len() - 1)
            &&& forall|earlier: int|
                0 <= earlier < scroll ==> !#[trigger] self.shows(earlier, self.widths.len() - 1)
        } else {
            scroll == 0
        }
    }

    /// The furthest that the strip scrolls.
    pub open spec fn max_scroll(self) -> int {
        choose|scroll: int| self.reaches_end(scroll)
    }

    /// The first tab of the strip: the one that brings the active tab to the middle when the
    /// strip follows it, else the one it had, but never past the point where the last tab shows.
    pub open spec fn chosen_scroll(
        self,
        active: int,
        current_scroll: int,
        follow_active: bool,
    ) -> int {
        min(
            if follow_active {
                self.centered_scroll(active)
            } else {
                current_scroll
            },
            self.max_scroll(),
        )
    }

    pub(crate) proof fn lemma_span_bounds(self, from: int, to: int)
        ensures
            self.span(from, to) >= 0,
            self.span(from, to) >= 2 * (to - from),
        decreases to - from,
    {
        if from < to {
            self.lemma_span_bounds(from, to - 1);
        }
    }

    pub(crate) proof fn lemma_span_split(self, from: int, mid: int, to: int)
        requires
            from <= mid <= to,
        ensures
            self.span(from, to) == self.span(from, mid) + self.span(mid, to),
        decreases to - mid,
    {
        if mid < to {
            self.lemma_span_split(from, mid, to - 1);
        }
    }

    /// A tab shows exactly where its cells have a column, and its cells are where it stands.
    pub(crate) proof fn lemma_hit_area(self, scroll: int, idx: int)
        requires
            self.fits(),
        ensures
            self.hit_area(scroll, idx).width > 0 <==> self.shows(scroll, idx),
            self.shows(scroll, idx) ==> {
                let rect = self.hit_area(scroll, idx);
                &&& rect.x == self.left(scroll, idx)
                &&& rect.y == self.area.y
                &&& rect.width == min(self.full_width(idx), self.area.right() - rect.x)
                &&& self.area.x <= rect.x
                &&& rect.right() <= self.area.right()
            },
    {
        self.lemma_span_bounds(scroll, idx);
    }

    pub(crate) proof fn lemma_centers_unique(self, active: int, a: int, b: int)
        requires
            self.centers(active, a),
            self.centers(active, b),
        ensures
            a == b,
    {
    }

    pub(crate) proof fn lemma_reaches_end_unique(self, a: int, b: int)
        requires
            self.reaches_end(a),
            self.reaches_end(b),
        ensures
            a == b,
    {
    }
}

/// The cells of every tab of a strip in `area` whose first tab is `scroll`, when tab `idx`
/// wants `widths[idx]` columns.
pub fn layout_widths(widths: &[u16], area: Rect, scroll: usize) -> (rects: Vec<Rect>)
    requires
        area.is_empty() || area.right_fits(),
    ensures
        rects@ == Strip::new(widths@, area).hit_areas(scroll as int),
{
    let ghost strip = Strip::new(widths@, area);
    let mut rects: Vec<Rect> = Vec::new();
    let mut x: u16 = area.x;
    let mut idx: usize = 0;
    while idx < widths.len()
        invariant
            strip == Strip::new(widths@, area),
            strip.fits(),
            idx <= widths@.len(),
            rects@.len() == idx,
            forall|i: int| 0 <= i < idx ==> rects@[i] == strip.hit_area(scroll as int, i),
            idx <= scroll ==> x == area.x,
            !area.is_empty() ==> {
                ||| x == strip.left(scroll as int, idx as int)
                ||| x >= area.right() && strip.left(scroll as int, idx as int) >= area.right()
            },
        decreases widths@.len() - idx,
    {
        if area.width == 0 || area.height == 0 || idx < scroll || x >= area.x + area.width {
            rects.push(Rect::default());
        } else {
            let remaining = area.x + area.width - x;
            let desired = if widths[idx] < 1 { 1 } else { widths[idx] };
            let width = if desired < remaining { desired } else { remaining };
            rects.push(Rect::new(x, area.y, width, 1));
            x = x.saturating_add(width.saturating_add(1));
        }
        idx = idx + 1;
    }
    assert(rects@ =~= strip.hit_areas(scroll as int));
    rects
}

fn doubled_center_of(rect: Rect) -> (center: u16)
    ensures
        center == Strip::doubled_center(rect),
{
    rect.x.saturating_add(rect.x).saturating_add(rect.width)
}

/// The first tab with which tab `active_tab` is nearest to the middle of `area`.
pub fn centered_scroll_for_widths(
    widths: &[u16],
    active_tab: usize,
    area: Rect,
) -> (scroll: usize)
    requires
        area.is_empty() || area.right_fits(),
    ensures
        Strip::new(widths@, area).centers(active_tab as int, scroll as int),
        scroll == Strip::new(widths@, area).centered_scroll(active_tab as int),
{
    let ghost strip = Strip::new(widths@, area);
    let ghost active = active_tab as int;
    let count = widths.len();
    if active_tab >= count || area.width == 0 || area.height == 0 {
        proof {
            assert(strip.centers(active, active));
            strip.lemma_centers_unique(active, active, strip.centered_scroll(active));
        }
        return active_tab;
    }
    let middle = doubled_center_of(area);
    let mut best_scroll: usize = active_tab;
    let mut best_distance: u16 = u16::MAX;
    let ghost mut found = false;
    let mut scroll: usize = 0;
    while scroll <= active_tab
        invariant
            strip == Strip::new(widths@, area),
            active == active_tab,
            !area.is_empty(),
            area.right_fits(),
            active_tab < count,
            count == widths@.len(),
            scroll <= active_tab + 1,
            middle == Strip::doubled_center(area),
            best_scroll <= active_tab,
            found ==> strip.best_up_to(active, scroll - 1, best_scroll as int),
            found ==> best_distance == strip.off_center(best_scroll as int, active),
            !found ==> best_distance == u16::MAX,
            !found ==> forall|other: int|
                0 <= other < scroll ==> !#[trigger] strip.shows(other, active),
        decreases active_tab + 1 - scroll,
    {
        let rects = layout_widths(widths, area, scroll);
        let active_rect = rects[active_tab];
        proof {
            strip.lemma_hit_area(scroll as int, active);
        }
        if active_rect.width > 0 {
            let center = doubled_center_of(active_rect);
            let distance = if center < middle { middle - center } else { center - middle };
            if distance <= best_distance {
                best_distance = distance;
                best_scroll = scroll;
                proof {
                    found = true;
                }
            }
        }
        scroll = scroll + 1;
    }
    proof {
        assert(strip.span(active, active) == 0);
        assert(strip.shows(active, active));
        assert(strip.centers(active, best_scroll as int));
        strip.lemma_centers_unique(active, best_scroll as int, strip.centered_scroll(active));
    }
    best_scroll
}

/// The furthest that a strip in `area` scrolls: the earliest first tab with which its last tab
/// shows.
pub fn max_scroll_for_widths(widths: &[u16], area: Rect) -> (scroll: usize)
    requires
        widths@.len() == 0 || area.is_empty() || area.right_fits(),
    ensures
        Strip::new(widths@, area).reaches_end(scroll as int),
        scroll == Strip::new(widths@, area).max_scroll(),
{
    let ghost strip = Strip::new(widths@, area);
    let count = widths.len();
    if count == 0 || area.width == 0 || area.height == 0 {
        proof {
            assert(strip.reaches_end(0));
            strip.lemma_reaches_end_unique(0, strip.max_scroll());
        }
        return 0;
    }
    let mut scroll: usize = 0;
    proof {
        assert(strip.span(count - 1, count - 1) == 0);
    }
    while scroll < count - 1
        invariant_except_break
            strip == Strip::new(widths@, area),
            !area.is_empty(),
            area.right_fits(),
            count == widths@.len(),
            count > 0,
            scroll <= count - 1,
            strip.span(count - 1, count - 1) == 0,
            forall|earlier: int|
                0 <= earlier < scroll ==> !#[trigger] strip.shows(earlier, count - 1),
        ensures
            strip.reaches_end(scroll as int),
        decreases count - scroll,
    {
        let rects = layout_widths(widths, area, scroll);
        proof {
            strip.lemma_hit_area(scroll as int, count - 1);
        }
        if rects[count - 1].width > 0 {
            break;
        }
        scroll = scroll + 1;
    }
    proof {
        strip.lemma_reaches_end_unique(scroll as int, strip.max_scroll());
    }
    scroll
}

/// The first tab of a strip in `area`; see [`Strip::chosen_scroll`].
pub fn choose_scroll(
    widths: &[u16],
    active_tab: usize,
    area: Rect,
    current_scroll: usize,
    follow_active: bool,
) -> (scroll: usize)
    requires
        area.is_empty() || area.right_fits(),
    ensures
        scroll == Strip::new(widths@, area).chosen_scroll(
            active_tab as int,
            current_scroll as int,
            follow_active,
        ),
{
    let last = max_scroll_for_widths(widths, area);
    let wanted = if follow_active {
        centered_scroll_for_widths(widths, active_tab, area)
    } else {
        current_scroll
    };
    if wanted < last {
        wanted
    } else {
        last
    }
}

} // verus!
