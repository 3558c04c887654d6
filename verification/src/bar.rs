//! The tab bar: its tabs and the controls beside them.

use crate::rect::{last_visible_index, Rect};
use crate::strip::{choose_scroll, layout_widths, Strip};
use vstd::math::*;
use vstd::prelude::*;

verus! {

/// The columns of the control that opens a tab.
pub const NEW_TAB_WIDTH: u16 = 3;

/// The columns of each control that scrolls the tabs.
pub const TAB_SCROLL_BUTTON_WIDTH: u16 = 3;

/// Where everything that the pointer can hit in a tab bar stands.
#[derive(Debug)]
pub struct TabBarView {
    /// The first tab of the bar.
    pub scroll: usize,
    /// The cells of each tab; no columns for a tab that does not show.
    pub tab_hit_areas: Vec<Rect>,
    pub scroll_left_hit_area: Rect,
    pub scroll_right_hit_area: Rect,
    pub new_tab_hit_area: Rect,
}

/// The contents of a [`TabBarView`].
#[verifier::ext_equal]
pub struct BarPlaces {
    pub scroll: int,
    pub tab_hit_areas: Seq<Rect>,
    pub scroll_left_hit_area: Rect,
    pub scroll_right_hit_area: Rect,
    pub new_tab_hit_area: Rect,
}

impl View for TabBarView {
    type V = BarPlaces;

    open spec fn view(&self) -> BarPlaces {
        BarPlaces {
            scroll: self.scroll as int,
            tab_hit_areas: self.tab_hit_areas@,
            scroll_left_hit_area: self.scroll_left_hit_area,
            scroll_right_hit_area: self.scroll_right_hit_area,
            new_tab_hit_area: self.new_tab_hit_area,
        }
    }
}

impl BarPlaces {
    /// The first tab is `scroll`, the tabs have the given cells, and there is no control.
    pub open spec fn tabs_only(scroll: int, tab_hit_areas: Seq<Rect>) -> BarPlaces {
        BarPlaces {
            scroll,
            tab_hit_areas,
            scroll_left_hit_area: Rect::zero(),
            scroll_right_hit_area: Rect::zero(),
            new_tab_hit_area: Rect::zero(),
        }
    }

    /// The column right of the last tab that shows, or `fallback_x` where none shows.
    pub open spec fn trailing_x(tab_hit_areas: Seq<Rect>, fallback_x: int) -> int {
        match Rect::last_visible(tab_hit_areas) {
            Some(idx) => tab_hit_areas[idx].right(),
            None => fallback_x,
        }
    }
}

impl Default for TabBarView {
    /// A bar with nothing to hit.
    fn default() -> (view: TabBarView)
        ensures
            view@ == BarPlaces::tabs_only(0, Seq::empty()),
    {
        TabBarView::tabs_only(0, Vec::new())
    }
}

impl Clone for TabBarView {
    fn clone(&self) -> (view: TabBarView)
        ensures
            view@ == self@,
    {
        TabBarView {
            scroll: self.scroll,
            tab_hit_areas: self.tab_hit_areas.clone(),
            scroll_left_hit_area: self.scroll_left_hit_area,
            scroll_right_hit_area: self.scroll_right_hit_area,
            new_tab_hit_area: self.new_tab_hit_area,
        }
    }
}

impl TabBarView {
    fn tabs_only(scroll: usize, tab_hit_areas: Vec<Rect>) -> (view: TabBarView)
        ensures
            view@ == BarPlaces::tabs_only(scroll as int, tab_hit_areas@),
    {
        TabBarView {
            scroll,
            tab_hit_areas,
            scroll_left_hit_area: Rect::default(),
            scroll_right_hit_area: Rect::default(),
            new_tab_hit_area: Rect::default(),
        }
    }
}

/// What decides where everything in a tab bar stands.
pub struct Bar {
    /// The columns that each tab wants.
    pub widths: Seq<u16>,
    /// The active tab.
    pub active: int,
    /// The cells of the bar.
    pub area: Rect,
    /// The first tab that the bar had so far.
    pub current_scroll: int,
    /// The bar moves so that the active tab shows.
    pub follow_active: bool,
    /// The bar has controls for the pointer.
    pub mouse_chrome: bool,
}

impl Bar {
    pub open spec fn new(
        widths: Seq<u16>,
        active: int,
        area: Rect,
        current_scroll: int,
        follow_active: bool,
        mouse_chrome: bool,
    ) -> Bar {
        Bar { widths, active, area, current_scroll, follow_active, mouse_chrome }
    }

    /// The bar has no cells, or its right edge is a coordinate.
    pub open spec fn fits(self) -> bool {
        self.area.is_empty() || self.area.right_fits()
    }

    /// The first tab of a strip of the bar's tabs.
    pub open spec fn scroll_in(self, strip: Strip) -> int {
        strip.chosen_scroll(self.active, self.current_scroll, self.follow_active)
    }

    /// A one-row control at column `x`, cut off at the right edge of the bar.
    pub open spec fn control(self, x: int, width: u16) -> Rect {
        Rect::at(
            x as u16,
            self.area.y,
            min(max(self.area.right() - x, 0), width as int) as u16,
            1,
        )
    }

    /// The tabs of a bar without controls: they have all of its cells.
    pub open spec fn bare_tabs(self) -> Strip {
        Strip::new(self.widths, self.area)
    }

    /// The tabs of a bar in which only the control that opens a tab stands beside them.
    pub open spec fn unscrolled_tabs(self) -> Strip {
        Strip::new(
            self.widths,
            Rect::at(
                self.area.x,
                self.area.y,
                max(self.area.width - NEW_TAB_WIDTH, 0) as u16,
                self.area.height,
            ),
        )
    }

    /// All tabs fit beside the control that opens a tab.
    pub open spec fn all_tabs_fit(self) -> bool {
        forall|idx: int|
            0 <= idx < self.widths.len() ==> #[trigger] self.unscrolled_tabs().shows(0, idx)
    }

    /// The control that scrolls to the left: the first columns of the bar.
    pub open spec fn scroll_left_control(self) -> Rect {
        self.control(self.area.x as int, TAB_SCROLL_BUTTON_WIDTH)
    }

    /// The column right of those that the tabs can have where all three controls show.
    pub open spec fn scrolled_tabs_right(self) -> int {
        max(self.area.right() - (NEW_TAB_WIDTH + TAB_SCROLL_BUTTON_WIDTH), 0)
    }

    /// The tabs of a bar in which all three controls show.
    pub open spec fn scrolled_tabs(self) -> Strip {
        let left = self.scroll_left_control().right();
        Strip::new(
            self.widths,
            Rect::at(
                left as u16,
                self.area.y,
                max(self.scrolled_tabs_right() - left, 0) as u16,
                self.area.height,
            ),
        )
    }

    /// The control that scrolls to the right: it follows the last tab that shows.
    pub open spec fn scroll_right_control(self) -> Rect {
        let strip = self.scrolled_tabs();
        let tabs = strip.hit_areas(self.scroll_in(strip));
        self.control(
            min(
                BarPlaces::trailing_x(tabs, strip.area.x as int),
                self.scrolled_tabs_right(),
            ),
            TAB_SCROLL_BUTTON_WIDTH,
        )
    }

    /// Where everything stands in a bar without controls.
    pub open spec fn bare_places(self) -> BarPlaces {
        let strip = self.bare_tabs();
        BarPlaces::tabs_only(self.scroll_in(strip), strip.hit_areas(self.scroll_in(strip)))
    }

    /// Where everything stands in a bar with controls in which all tabs fit: the control that
    /// opens a tab follows the last tab.
    pub open spec fn unscrolled_places(self) -> BarPlaces {
        let tabs = self.unscrolled_tabs().hit_areas(0);
        BarPlaces {
            new_tab_hit_area: self.control(
                BarPlaces::trailing_x(tabs, self.area.x as int),
                NEW_TAB_WIDTH,
            ),
            ..BarPlaces::tabs_only(0, tabs)
        }
    }

    /// Where everything stands in a bar with controls in which not all tabs fit: one control
    /// before the tabs, one behind them, and the control that opens a tab comes last.
    pub open spec fn scrolled_places(self) -> BarPlaces {
        let strip = self.scrolled_tabs();
        BarPlaces {
            scroll: self.scroll_in(strip),
            tab_hit_areas: strip.hit_areas(self.scroll_in(strip)),
            scroll_left_hit_area: self.scroll_left_control(),
            scroll_right_hit_area: self.scroll_right_control(),
            new_tab_hit_area: self.control(self.scroll_right_control().right(), NEW_TAB_WIDTH),
        }
    }

    /// Where everything in the bar stands.
    pub open spec fn places(self) -> BarPlaces {
        if self.area.is_empty() {
            BarPlaces::tabs_only(0, Seq::empty())
        } else if !self.mouse_chrome {
            self.bare_places()
        } else if self.all_tabs_fit() {
            self.unscrolled_places()
        } else {
            self.scrolled_places()
        }
    }

    /// The tabs as they stand in the bar.
    pub open spec fn tabs(self) -> Strip {
        if !self.mouse_chrome {
            self.bare_tabs()
        } else if self.all_tabs_fit() {
            self.unscrolled_tabs()
        } else {
            self.scrolled_tabs()
        }
    }

    /// The tabs of a strip end inside it.
    pub(crate) proof fn lemma_trailing_bounds(strip: Strip, scroll: int)
        requires
            strip.fits(),
        ensures
            strip.area.x <= BarPlaces::trailing_x(strip.hit_areas(scroll), strip.area.x as int)
                <= strip.area.right(),
    {
        if let Some(idx) = Rect::last_visible(strip.hit_areas(scroll)) {
            strip.lemma_hit_area(scroll, idx);
        }
    }
}

/// The column right of the last tab that shows, or `fallback_x` where none shows.
pub fn trailing_tab_controls_x(tab_hit_areas: &[Rect], fallback_x: u16) -> (x: u16)
    requires
        BarPlaces::trailing_x(tab_hit_areas@, fallback_x as int) <= u16::MAX,
    ensures
        x == BarPlaces::trailing_x(tab_hit_areas@, fallback_x as int),
{
    match last_visible_index(tab_hit_areas) {
        Some(idx) => tab_hit_areas[idx].x + tab_hit_areas[idx].width,
        None => fallback_x,
    }
}

fn control(area: Rect, x: u16, width: u16) -> (rect: Rect)
    requires
        area.right_fits(),
    ensures
        forall|bar: Bar| bar.area == area ==> rect == #[trigger] bar.control(x as int, width),
        rect.right() <= max(area.right(), x as int),
{
    let room = (area.x + area.width).saturating_sub(x);
    let width = if room < width { room } else { width };
    Rect::new(x, area.y, width, 1)
}

/// Some rectangle has no column.
fn any_hidden(rects: &[Rect]) -> (found: bool)
    ensures
        found <==> exists|i: int| 0 <= i < rects@.len() && (#[trigger] rects@[i]).width == 0,
{
    let mut idx: usize = 0;
    while idx < rects.len()
        invariant
            idx <= rects@.len(),
            forall|i: int| 0 <= i < idx ==> (#[trigger] rects@[i]).width > 0,
        decreases rects@.len() - idx,
    {
        if rects[idx].width == 0 {
            return true;
        }
        idx = idx + 1;
    }
    false
}

/// Where everything stands in a bar that covers `area`, when tab `idx` wants `widths[idx]`
/// columns.
pub fn bar_view_for_widths(
    widths: &[u16],
    active_tab: usize,
    area: Rect,
    current_scroll: usize,
    follow_active: bool,
    mouse_chrome: bool,
) -> (view: TabBarView)
    requires
        area.is_empty() || area.right_fits(),
    ensures
        view@ == Bar::new(
            widths@,
            active_tab as int,
            area,
            current_scroll as int,
            follow_active,
            mouse_chrome,
        ).places(),
{
    let ghost bar = Bar::new(
        widths@,
        active_tab as int,
        area,
        current_scroll as int,
        follow_active,
        mouse_chrome,
    );
    if area.width == 0 || area.height == 0 {
        return TabBarView::default();
    }
    if !mouse_chrome {
        let scroll = choose_scroll(widths, active_tab, area, current_scroll, follow_active);
        return TabBarView::tabs_only(scroll, layout_widths(widths, area, scroll));
    }
    let all_tabs_area = Rect::new(
        area.x,
        area.y,
        area.width.saturating_sub(NEW_TAB_WIDTH),
        area.height,
    );
    let all_tabs = layout_widths(widths, all_tabs_area, 0);
    let overflow = any_hidden(&all_tabs);
    proof {
        let strip = bar.unscrolled_tabs();
        assert forall|idx: int| 0 <= idx < widths@.len() implies (all_tabs@[idx].width > 0
            <==> #[trigger] strip.shows(0, idx)) by {
            strip.lemma_hit_area(0, idx);
        }
        if overflow {
            let idx = choose|i: int|
                0 <= i < all_tabs@.len() && (#[trigger] all_tabs@[i]).width == 0;
            assert(!strip.shows(0, idx));
        }
        Bar::lemma_trailing_bounds(strip, 0);
    }
    if !overflow {
        let new_tab_x = trailing_tab_controls_x(&all_tabs, area.x);
        return TabBarView {
            new_tab_hit_area: control(area, new_tab_x, NEW_TAB_WIDTH),
            ..TabBarView::tabs_only(0, all_tabs)
        };
    }
    let left_hit_area = control(area, area.x, TAB_SCROLL_BUTTON_WIDTH);
    let tab_area_x = left_hit_area.x + left_hit_area.width;
    let tab_area_right = (area.x + area.width).saturating_sub(
        NEW_TAB_WIDTH + TAB_SCROLL_BUTTON_WIDTH,
    );
    let tab_area = Rect::new(
        tab_area_x,
        area.y,
        tab_area_right.saturating_sub(tab_area_x),
        area.height,
    );
    assert(left_hit_area == bar.scroll_left_control());
    let scroll = choose_scroll(widths, active_tab, tab_area, current_scroll, follow_active);
    let tab_hit_areas = layout_widths(widths, tab_area, scroll);
    proof {
        Bar::lemma_trailing_bounds(bar.scrolled_tabs(), scroll as int);
    }
    let tabs_end = trailing_tab_controls_x(&tab_hit_areas, tab_area_x);
    let trailing_x = if tabs_end < tab_area_right { tabs_end } else { tab_area_right };
    let right_hit_area = control(area, trailing_x, TAB_SCROLL_BUTTON_WIDTH);
    assert(right_hit_area == bar.scroll_right_control());
    let new_tab_x = right_hit_area.x + right_hit_area.width;
    TabBarView {
        scroll,
        tab_hit_areas,
        scroll_left_hit_area: left_hit_area,
        scroll_right_hit_area: right_hit_area,
        new_tab_hit_area: control(area, new_tab_x, NEW_TAB_WIDTH),
    }
}

} // verus!
