//! What holds of every tab bar.

use crate::bar::{Bar, BarPlaces, NEW_TAB_WIDTH, TAB_SCROLL_BUTTON_WIDTH};
use crate::rect::Rect;
use crate::render::PaintLook;
use crate::state::{
    AppState, Palette, Tab, TabAutoNameConfig, TabStatusConfig, TerminalState, ViewState,
    Workspace,
};
use crate::strip::Strip;
use crate::surface::{
    CellLook, Piece, SpanLook, TextRow, TextStyle, Weight, MAX_PAINTED_WIDTH,
};
use ratatui::style::Color;
use crate::tabs::{GlyphLook, LabelLook, TabChromeCtx, MIN_TAB_WIDTH, TAB_PADDING};
use vstd::math::*;
use vstd::prelude::*;

verus! {

/// The tabs that show form one run: no tab is left out between the first one and one that
/// shows.
pub proof fn law_visible_tabs_form_a_run(strip: Strip, scroll: int, idx: int, later: int)
    requires
        strip.shows(scroll, later),
        scroll <= idx <= later,
    ensures
        strip.shows(scroll, idx),
{
    strip.lemma_span_split(scroll, idx, later);
    strip.lemma_span_bounds(idx, later);
}

/// A strip that has cells shows its first tab, at its left edge.
pub proof fn law_first_tab_shows(strip: Strip, scroll: int)
    requires
        strip.fits(),
        !strip.area.is_empty(),
        0 <= scroll < strip.widths.len(),
    ensures
        strip.shows(scroll, scroll),
        strip.hit_area(scroll, scroll).x == strip.area.x,
{
    assert(strip.span(scroll, scroll) == 0);
    strip.lemma_hit_area(scroll, scroll);
}

/// Every tab that shows stays between the edges of the strip and is hit in its first row.
pub proof fn law_tabs_stay_in_the_strip(strip: Strip, scroll: int, idx: int)
    requires
        strip.fits(),
        strip.shows(scroll, idx),
    ensures
        strip.area.x <= strip.hit_area(scroll, idx).x,
        strip.hit_area(scroll, idx).right() <= strip.area.right(),
        strip.hit_area(scroll, idx).y == strip.area.y,
        0 < strip.hit_area(scroll, idx).width <= strip.full_width(idx),
{
    strip.lemma_hit_area(scroll, idx);
}

/// A tab that another one follows is not cut off, and exactly one free column parts it from
/// the next.
pub proof fn law_one_column_between_tabs(strip: Strip, scroll: int, idx: int)
    requires
        strip.fits(),
        scroll <= idx,
        strip.shows(scroll, idx + 1),
    ensures
        strip.shows(scroll, idx),
        strip.hit_area(scroll, idx).width == strip.full_width(idx),
        strip.hit_area(scroll, idx).right() + 1 == strip.hit_area(scroll, idx + 1).x,
{
    law_visible_tabs_form_a_run(strip, scroll, idx, idx + 1);
    strip.lemma_hit_area(scroll, idx);
    strip.lemma_hit_area(scroll, idx + 1);
}

/// No cell belongs to two tabs: of two tabs that show, the earlier one ends before the later
/// one starts.
pub proof fn law_tabs_are_disjoint(strip: Strip, scroll: int, idx: int, later: int)
    requires
        strip.fits(),
        scroll <= idx < later,
        strip.shows(scroll, later),
    ensures
        strip.hit_area(scroll, idx).right() < strip.hit_area(scroll, later).x,
{
    law_visible_tabs_form_a_run(strip, scroll, idx + 1, later);
    law_one_column_between_tabs(strip, scroll, idx);
    strip.lemma_span_split(scroll, idx + 1, later);
    strip.lemma_span_bounds(idx + 1, later);
    strip.lemma_hit_area(scroll, idx + 1);
    strip.lemma_hit_area(scroll, later);
}

/// Scrolling on towards a tab moves it to the left and never hides it.
pub proof fn law_scrolling_on_keeps_a_tab(strip: Strip, scroll: int, further: int, idx: int)
    requires
        strip.shows(scroll, idx),
        scroll <= further <= idx,
    ensures
        strip.shows(further, idx),
        strip.left(further, idx) <= strip.left(scroll, idx),
{
    strip.lemma_span_split(scroll, further, idx);
    strip.lemma_span_bounds(scroll, further);
}

proof fn lemma_earliest_exists(strip: Strip, limit: int)
    requires
        0 <= limit < strip.widths.len(),
        strip.shows(limit, strip.widths.len() - 1),
    ensures
        exists|scroll: int| strip.reaches_end(scroll),
    decreases limit,
{
    if !strip.reaches_end(limit) {
        let earlier = choose|earlier: int|
            0 <= earlier < limit && #[trigger] strip.shows(earlier, strip.widths.len() - 1);
        lemma_earliest_exists(strip, earlier);
    }
}

/// The furthest scroll is the earliest first tab with which the last tab shows.
pub proof fn law_max_scroll(strip: Strip)
    requires
        strip.widths.len() == 0 || strip.fits(),
    ensures
        strip.reaches_end(strip.max_scroll()),
        forall|scroll: int| #[trigger]
            strip.reaches_end(scroll) ==> scroll == strip.max_scroll(),
{
    if strip.widths.len() > 0 && !strip.area.is_empty() {
        law_first_tab_shows(strip, strip.widths.len() - 1);
        lemma_earliest_exists(strip, strip.widths.len() - 1);
    } else {
        assert(strip.reaches_end(0));
    }
    assert forall|scroll: int| #[trigger] strip.reaches_end(scroll) implies scroll
        == strip.max_scroll() by {
        strip.lemma_reaches_end_unique(scroll, strip.max_scroll());
    }
}

/// From the furthest scroll on, the last tab shows with every first tab.
pub proof fn law_last_tab_shows_from_max_scroll(strip: Strip, scroll: int)
    requires
        strip.fits(),
        !strip.area.is_empty(),
        strip.max_scroll() <= scroll < strip.widths.len(),
    ensures
        strip.shows(scroll, strip.widths.len() - 1),
{
    law_max_scroll(strip);
    law_scrolling_on_keeps_a_tab(strip, strip.max_scroll(), scroll, strip.widths.len() - 1);
}

proof fn lemma_best_exists(strip: Strip, active: int, limit: int)
    requires
        0 <= limit,
        exists|s: int| 0 <= s <= limit && #[trigger] strip.shows(s, active),
    ensures
        exists|best: int| strip.best_up_to(active, limit, best),
    decreases limit,
{
    let below = limit - 1;
    if exists|s: int| 0 <= s <= below && #[trigger] strip.shows(s, active) {
        lemma_best_exists(strip, active, below);
        let best = choose|best: int| strip.best_up_to(active, below, best);
        if strip.shows(limit, active) && strip.off_center(limit, active) <= strip.off_center(
            best,
            active,
        ) {
            assert(strip.best_up_to(active, limit, limit));
        } else {
            assert(strip.best_up_to(active, limit, best));
        }
    } else {
        assert(strip.best_up_to(active, limit, limit));
    }
}

/// There is exactly one first tab that brings a tab nearest to the middle, the later of two
/// that bring it equally near.
pub proof fn law_centered_scroll(strip: Strip, active: int)
    requires
        strip.fits(),
        0 <= active,
    ensures
        strip.centers(active, strip.centered_scroll(active)),
        forall|scroll: int| #[trigger]
            strip.centers(active, scroll) ==> scroll == strip.centered_scroll(active),
{
    if active < strip.widths.len() && !strip.area.is_empty() {
        law_first_tab_shows(strip, active);
        lemma_best_exists(strip, active, active);
        let best = choose|best: int| strip.best_up_to(active, active, best);
        assert(strip.centers(active, best));
    } else {
        assert(strip.centers(active, active));
    }
    assert forall|scroll: int| #[trigger] strip.centers(active, scroll) implies scroll
        == strip.centered_scroll(active) by {
        strip.lemma_centers_unique(active, scroll, strip.centered_scroll(active));
    }
}

/// A strip that follows the active tab shows it, whatever it showed before.
pub proof fn law_following_shows_the_active_tab(strip: Strip, active: int, current_scroll: int)
    requires
        strip.fits(),
        !strip.area.is_empty(),
        0 <= active < strip.widths.len(),
    ensures
        strip.shows(strip.chosen_scroll(active, current_scroll, true), active),
{
    law_centered_scroll(strip, active);
    law_max_scroll(strip);
    if strip.max_scroll() < strip.centered_scroll(active) {
        law_visible_tabs_form_a_run(
            strip,
            strip.max_scroll(),
            active,
            strip.widths.len() - 1,
        );
    }
}

/// The tabs of a bar that has cells are those of its strip, and the strip fits.
pub(crate) proof fn lemma_bar_tabs(bar: Bar)
    requires
        bar.fits(),
        !bar.area.is_empty(),
    ensures
        bar.tabs().fits(),
        bar.tabs().widths == bar.widths,
        bar.area.x <= bar.tabs().area.x,
        !bar.tabs().area.is_empty() ==> bar.tabs().area.right() <= bar.area.right(),
        bar.places().tab_hit_areas == bar.tabs().hit_areas(bar.places().scroll),
        !bar.mouse_chrome || !bar.all_tabs_fit() ==> bar.places().scroll == bar.scroll_in(
            bar.tabs(),
        ),
{
}

/// A bar that follows the active tab shows it, wherever its tabs have any cells.
pub proof fn law_bar_follows_the_active_tab(bar: Bar)
    requires
        bar.fits(),
        !bar.area.is_empty(),
        !bar.tabs().area.is_empty(),
        bar.follow_active,
        0 <= bar.active < bar.widths.len(),
    ensures
        bar.places().tab_hit_areas[bar.active].width > 0,
{
    lemma_bar_tabs(bar);
    let strip = bar.tabs();
    if bar.mouse_chrome && bar.all_tabs_fit() {
        assert(strip.shows(0, bar.active));
    } else {
        law_following_shows_the_active_tab(strip, bar.active, bar.current_scroll);
    }
    strip.lemma_hit_area(bar.places().scroll, bar.active);
}

/// The tabs have cells in every bar that has a row and a column more than its controls take.
pub proof fn law_tabs_have_cells(bar: Bar)
    requires
        bar.fits(),
        bar.area.height > 0,
        bar.mouse_chrome ==> bar.area.y < u16::MAX,
        bar.area.width > if !bar.mouse_chrome {
            0
        } else if bar.all_tabs_fit() {
            NEW_TAB_WIDTH as int
        } else {
            2 * TAB_SCROLL_BUTTON_WIDTH + NEW_TAB_WIDTH
        },
    ensures
        !bar.tabs().area.is_empty(),
{
}

/// Every tab has a hit area of its own, and the bar begins with the tab that it scrolled to:
/// that tab shows at the left edge of the tabs, and none before it shows.
pub proof fn law_bar_begins_with_its_scroll(bar: Bar)
    requires
        bar.fits(),
        !bar.area.is_empty(),
        !bar.tabs().area.is_empty(),
        bar.widths.len() > 0,
        0 <= bar.active,
        0 <= bar.current_scroll,
    ensures
        bar.places().tab_hit_areas.len() == bar.widths.len(),
        0 <= bar.places().scroll < bar.widths.len(),
        bar.places().tab_hit_areas[bar.places().scroll].width > 0,
        bar.places().tab_hit_areas[bar.places().scroll].x == bar.tabs().area.x,
        forall|earlier: int|
            0 <= earlier < bar.places().scroll ==> (
            #[trigger] bar.places().tab_hit_areas[earlier]).width == 0,
{
    lemma_bar_tabs(bar);
    let strip = bar.tabs();
    let scroll = bar.places().scroll;
    law_max_scroll(strip);
    law_centered_scroll(strip, bar.active);
    law_first_tab_shows(strip, scroll);
    strip.lemma_hit_area(scroll, scroll);
}

/// Laying the bar out again from the place that it scrolled to changes nothing, whether it
/// followed the active tab before or not.
pub proof fn law_layout_is_stable(bar: Bar)
    ensures
        (Bar { current_scroll: bar.places().scroll, follow_active: false, ..bar }).places()
            == bar.places(),
{
    let again = Bar { current_scroll: bar.places().scroll, follow_active: false, ..bar };
    assert(again.unscrolled_tabs() == bar.unscrolled_tabs());
    assert(again.all_tabs_fit() == bar.all_tabs_fit());
    assert(again.scroll_left_control() == bar.scroll_left_control());
    assert(again.scrolled_tabs() == bar.scrolled_tabs());
    assert(again.bare_tabs() == bar.bare_tabs());
    if bar.mouse_chrome && bar.all_tabs_fit() {
        assert(again.places() =~= bar.places());
    }
}

/// A bar does not scroll past the point where its last tab shows: from there on, asking for
/// more leaves it where it is.
pub proof fn law_scroll_is_bounded(bar: Bar, other: Bar)
    requires
        !bar.follow_active,
        bar.current_scroll >= bar.tabs().max_scroll(),
        other == (Bar { current_scroll: other.current_scroll, ..bar }),
        other.current_scroll >= bar.tabs().max_scroll(),
    ensures
        bar.places() == other.places(),
{
    assert(other.unscrolled_tabs() == bar.unscrolled_tabs());
    assert(other.all_tabs_fit() == bar.all_tabs_fit());
    assert(other.scroll_left_control() == bar.scroll_left_control());
    assert(other.scrolled_tabs() == bar.scrolled_tabs());
    assert(other.bare_tabs() == bar.bare_tabs());
}

/// Where all tabs fit, they all show and nothing scrolls; the control that opens a tab follows
/// the last tab, has all its columns, and stays in the bar.
pub proof fn law_unscrolled_bar(bar: Bar, idx: int)
    requires
        bar.fits(),
        !bar.area.is_empty(),
        bar.mouse_chrome,
        bar.all_tabs_fit(),
        0 <= idx < bar.widths.len(),
    ensures
        bar.places().scroll == 0,
        bar.places().tab_hit_areas[idx].width > 0,
        bar.places().tab_hit_areas[idx].right() <= bar.places().new_tab_hit_area.x,
        bar.places().tab_hit_areas[bar.widths.len() - 1].right()
            == bar.places().new_tab_hit_area.x,
        bar.places().new_tab_hit_area.width == NEW_TAB_WIDTH,
        bar.places().new_tab_hit_area.right() <= bar.area.right(),
        bar.places().scroll_left_hit_area.width == 0,
        bar.places().scroll_right_hit_area.width == 0,
{
    let strip = bar.unscrolled_tabs();
    let tabs = strip.hit_areas(0);
    let last = bar.widths.len() - 1;
    assert(strip.shows(0, idx));
    assert(strip.shows(0, last));
    strip.lemma_hit_area(0, idx);
    strip.lemma_hit_area(0, last);
    assert(Rect::is_last_visible(tabs, last));
    if idx < last {
        law_tabs_are_disjoint(strip, 0, idx, last);
    }
}

/// Where not all tabs fit and the bar has room for its three controls, everything stands side
/// by side inside the bar: the control that scrolls to the left, the tabs, the control that
/// scrolls to the right, and the control that opens a tab, each with all its columns.
pub proof fn law_scrolled_bar(bar: Bar, idx: int)
    requires
        bar.fits(),
        bar.area.height > 0,
        bar.area.width >= 2 * TAB_SCROLL_BUTTON_WIDTH + NEW_TAB_WIDTH,
        bar.mouse_chrome,
        !bar.all_tabs_fit(),
        0 <= idx < bar.widths.len(),
    ensures
        bar.places().scroll_left_hit_area.x == bar.area.x,
        bar.places().scroll_left_hit_area.width == TAB_SCROLL_BUTTON_WIDTH,
        bar.places().tab_hit_areas[idx].width > 0 ==> {
            &&& bar.places().scroll_left_hit_area.right() <= bar.places().tab_hit_areas[idx].x
            &&& bar.places().tab_hit_areas[idx].right() <= bar.places().scroll_right_hit_area.x
        },
        bar.places().scroll_left_hit_area.right() <= bar.places().scroll_right_hit_area.x,
        bar.places().scroll_right_hit_area.width == TAB_SCROLL_BUTTON_WIDTH,
        bar.places().scroll_right_hit_area.right() == bar.places().new_tab_hit_area.x,
        bar.places().new_tab_hit_area.width == NEW_TAB_WIDTH,
        bar.places().new_tab_hit_area.right() <= bar.area.right(),
{
    let strip = bar.scrolled_tabs();
    let scroll = bar.scroll_in(strip);
    let tabs = strip.hit_areas(scroll);
    Bar::lemma_trailing_bounds(strip, scroll);
    strip.lemma_hit_area(scroll, idx);
    if tabs[idx].width > 0 {
        lemma_last_visible(tabs, idx);
        let last = Rect::last_visible(tabs)->0;
        strip.lemma_hit_area(scroll, last);
        if idx < last {
            law_tabs_are_disjoint(strip, scroll, idx, last);
        }
    }
}

/// Where some rectangle has a column, there is a last one that has, not before it, and a first
/// one, not behind it.
pub(crate) proof fn lemma_last_visible(rects: Seq<Rect>, idx: int)
    requires
        0 <= idx < rects.len(),
        rects[idx].width > 0,
    ensures
        Rect::last_visible(rects) is Some,
        Rect::is_last_visible(rects, Rect::last_visible(rects)->0),
        idx <= Rect::last_visible(rects)->0,
    decreases rects.len() - idx,
{
    if !Rect::is_last_visible(rects, idx) {
        let later = choose|i: int| idx < i < rects.len() && (#[trigger] rects[i]).width != 0;
        lemma_last_visible(rects, later);
    }
}

pub(crate) proof fn lemma_first_visible(rects: Seq<Rect>, idx: int)
    requires
        0 <= idx < rects.len(),
        rects[idx].width > 0,
    ensures
        Rect::first_visible(rects) is Some,
        Rect::is_first_visible(rects, Rect::first_visible(rects)->0),
        Rect::first_visible(rects)->0 <= idx,
    decreases idx,
{
    if !Rect::is_first_visible(rects, idx) {
        let earlier = choose|i: int| 0 <= i < idx && (#[trigger] rects[i]).width != 0;
        lemma_first_visible(rects, earlier);
    }
}

/// Dropping a tab between two tabs that show is marked in the free column between them.
pub proof fn law_drop_between_tabs(view: ViewState, strip: Strip, scroll: int, insert_idx: int)
    requires
        strip.fits(),
        view.tab_hit_areas@ == strip.hit_areas(scroll),
        0 <= scroll < insert_idx,
        strip.shows(scroll, insert_idx),
    ensures
        view.drop_indicator_x(strip.widths.len() as int, insert_idx) == Some(
            strip.hit_area(scroll, insert_idx - 1).right(),
        ),
{
    let rects = view.tab_hit_areas@;
    law_one_column_between_tabs(strip, scroll, insert_idx - 1);
    strip.lemma_hit_area(scroll, insert_idx);
    lemma_first_visible(rects, insert_idx);
    lemma_last_visible(rects, insert_idx);
}

/// Dropping a tab behind the last one, where that shows, is marked right behind it.
pub proof fn law_drop_behind_the_last_tab(view: ViewState, strip: Strip, scroll: int)
    requires
        strip.fits(),
        view.tab_hit_areas@ == strip.hit_areas(scroll),
        strip.widths.len() > 0,
        strip.shows(scroll, strip.widths.len() - 1),
    ensures
        view.drop_indicator_x(strip.widths.len() as int, strip.widths.len() as int) == Some(
            strip.hit_area(scroll, strip.widths.len() - 1).right(),
        ),
{
    let rects = view.tab_hit_areas@;
    let last = strip.widths.len() - 1;
    strip.lemma_hit_area(scroll, last);
    lemma_first_visible(rects, last);
    lemma_last_visible(rects, last);
}

/// The view of the application holds the places of a bar.
pub open spec fn view_holds(view: ViewState, places: BarPlaces) -> bool {
    &&& view.tab_hit_areas@ == places.tab_hit_areas
    &&& view.tab_scroll_left_hit_area == places.scroll_left_hit_area
    &&& view.tab_scroll_right_hit_area == places.scroll_right_hit_area
    &&& view.new_tab_hit_area == places.new_tab_hit_area
}

/// The step marks a cell in the first row of the bar, if it marks any.
pub open spec fn marks_in_row(paint: PaintLook, area: Rect) -> bool {
    match paint {
        PaintLook::Line { .. } => true,
        PaintLook::Mark { x, y, .. } => area.x <= x < area.right() && y == area.y,
    }
}

/// Every mark of the given steps goes into the first row of the bar.
pub open spec fn all_mark_in_row(paints: Seq<PaintLook>, area: Rect) -> bool {
    forall|i: int| 0 <= i < paints.len() ==> marks_in_row(#[trigger] paints[i], area)
}

proof fn lemma_paints_in_row(app: AppState, ws: Workspace, area: Rect)
    requires
        !area.is_empty(),
        app.drop_x(ws) matches Some(x) ==> area.x <= x,
        area.x <= app.left_ellipsis_x(area),
    ensures
        all_mark_in_row(app.workspace_paints(ws, area), area),
{
    app.lemma_steps(ws, area);
    let paints = app.workspace_paints(ws, area);
    assert forall|i: int| 0 <= i < paints.len() implies marks_in_row(
        #[trigger] paints[i],
        area,
    ) by {
        assert(app.is_step(paints[i], ws, area));
    }
}

/// The mark for a dragged tab does not stand right of the bar, and in a bar with controls not
/// left of it either.
#[verifier::rlimit(40)]
proof fn lemma_drop_x_in_bar(app: AppState, ws: Workspace, bar: Bar)
    requires
        bar.fits(),
        !bar.area.is_empty(),
        bar.widths.len() == ws.tabs@.len(),
        view_holds(app.view, bar.places()),
    ensures
        app.drop_x(ws) matches Some(x) ==> x <= bar.area.right(),
        bar.mouse_chrome ==> (app.drop_x(ws) matches Some(x) ==> bar.area.x <= x),
{
    lemma_bar_tabs(bar);
    let strip = bar.tabs();
    let scroll = bar.places().scroll;
    let rects = app.view.tab_hit_areas@;
    if app.drop_x(ws) is Some {
        let insert_idx = app.dragged_to()->0;
        let first = Rect::first_visible(rects)->0;
        let last = Rect::last_visible(rects)->0;
        strip.lemma_hit_area(scroll, first);
        strip.lemma_hit_area(scroll, last);
        strip.lemma_hit_area(scroll, insert_idx);
        if !bar.mouse_chrome {
        } else if bar.all_tabs_fit() {
            assert(strip.shows(0, 0));
            strip.lemma_hit_area(0, 0);
            assert(rects[0].width > 0);
            if insert_idx > 0 && insert_idx < rects.len() {
                assert(strip.shows(0, insert_idx));
                law_one_column_between_tabs(strip, 0, insert_idx - 1);
                strip.lemma_hit_area(0, insert_idx - 1);
            }
            let end = bar.widths.len() - 1;
            assert(strip.shows(0, end));
            strip.lemma_hit_area(0, end);
            assert(rects[end].width > 0);
        } else {
            assert(strip.area.x == bar.area.x + TAB_SCROLL_BUTTON_WIDTH);
            Bar::lemma_trailing_bounds(strip, scroll);
        }
    }
}

/// A bar that was laid out for `area` can be painted there: every column is a coordinate and
/// every mark goes into the first row of `area`. Without controls for the pointer there is
/// nothing left of the first tab that shows, so there this is said of a dragged tab only where
/// its mark does not stand left of the bar.
pub proof fn law_laid_out_bar_is_painted_in_its_row(app: AppState, ws: Workspace, bar: Bar)
    requires
        bar.fits(),
        app.active matches Some(i) && i < app.workspaces@.len() && app.workspaces@[i as int] == ws,
        bar.widths.len() == ws.tabs@.len(),
        bar.mouse_chrome == app.mouse_capture,
        view_holds(app.view, bar.places()),
        !app.mouse_capture ==> (app.drop_x(ws) matches Some(x) ==> bar.area.x <= x),
    ensures
        app.columns_fit(bar.area),
        all_mark_in_row(app.tab_bar_paints(bar.area), bar.area),
{
    if !bar.area.is_empty() {
        lemma_drop_x_in_bar(app, ws, bar);
        lemma_paints_in_row(app, ws, bar.area);
    }
}

/// A name that the user gave always wins and is never cut, however the bar is set up.
pub proof fn law_given_name_wins(ctx: TabChromeCtx<'_>, ws: Workspace, idx: int)
    requires
        0 <= idx < ws.tabs@.len(),
        ws.tabs@[idx].given_name() is Some,
    ensures
        ctx.name(ws, idx) == ws.tabs@[idx].given_name()->0,
        ws.display_name(idx) == ws.tabs@[idx].given_name(),
{
}

/// A tab goes by the same name in the bar and outside it, unless the bar calls it by the title
/// of its terminal.
pub proof fn law_names_agree(ctx: TabChromeCtx<'_>, ws: Workspace, idx: int)
    requires
        0 <= idx < ws.tabs@.len(),
        ctx.auto_name == TabAutoNameConfig::Number || ws.tabs@[idx].focused_title(
            ctx.terminals@,
        ) is None,
    ensures
        ws.display_name(idx) == Some(ctx.name(ws, idx)),
{
}

/// Zooming marks a tab without renaming it: between two workspaces in which a tab differs in
/// nothing but that, its names are the same, and the zoomed one says a mark more.
pub proof fn law_zoom_does_not_rename(
    ctx: TabChromeCtx<'_>,
    plain: Workspace,
    zoomed: Workspace,
    idx: int,
)
    requires
        0 <= idx < plain.tabs@.len(),
        plain.tabs@.len() == zoomed.tabs@.len(),
        !plain.tabs@[idx].zoomed,
        zoomed.tabs@[idx] == (Tab { zoomed: true, ..plain.tabs@[idx] }),
    ensures
        ctx.name(zoomed, idx) == ctx.name(plain, idx),
        zoomed.display_name(idx) == plain.display_name(idx),
        ctx.label(plain, idx).body == ctx.name(plain, idx),
        ctx.label(zoomed, idx).body == ctx.name(plain, idx) + seq![' ', 'Z'],
        ctx.label(zoomed, idx).status == ctx.label(plain, idx).status,
{
    let a = plain.tabs@[idx];
    let b = zoomed.tabs@[idx];
    lemma_same_panes(a, b, ctx.terminals@, a.panes@.len() as int);
}

proof fn lemma_same_panes(a: Tab, b: Tab, terminals: Map<u64, TerminalState>, count: int)
    requires
        a.panes@ == b.panes@,
    ensures
        a.most_urgent(terminals, count) == b.most_urgent(terminals, count),
    decreases count,
{
    if count > 0 {
        lemma_same_panes(a, b, terminals, count - 1);
    }
}

/// A title that stands in for a name takes no more columns than it may.
pub proof fn law_title_keeps_to_its_width(title: Seq<char>, max_width: int)
    requires
        0 <= max_width,
    ensures
        crate::text::display_columns(crate::text::truncated(title, max_width)) <= max_width,
{
    if crate::text::display_columns(title) > max_width && crate::text::cut_fits(
        title,
        max_width,
        0,
    ) {
        lemma_cut_len_exists(title, max_width, 0);
        let len = choose|len: int| crate::text::is_cut_len(title, max_width, len);
        assert(crate::text::cut_fits(title, max_width, len));
    }
}

/// A tab that the bar calls by the title of its terminal has a name of no more columns than the
/// bar is set up for.
pub proof fn law_title_as_name_keeps_to_its_width(
    ctx: TabChromeCtx<'_>,
    ws: Workspace,
    idx: int,
)
    requires
        0 <= idx < ws.tabs@.len(),
        ws.tabs@[idx].given_name() is None,
        ctx.auto_name == TabAutoNameConfig::TerminalTitle,
        ws.tabs@[idx].focused_title(ctx.terminals@) is Some,
    ensures
        crate::text::display_columns(ctx.name(ws, idx)) <= ctx.auto_name_max_width,
{
    law_title_keeps_to_its_width(
        ws.tabs@[idx].focused_title(ctx.terminals@)->0,
        ctx.auto_name_max_width as int,
    );
}

pub(crate) proof fn lemma_cut_len_exists(text: Seq<char>, max_width: int, from: int)
    requires
        0 <= from <= text.len(),
        forall|shorter: int|
            0 <= shorter <= from ==> #[trigger] crate::text::cut_fits(text, max_width, shorter),
    ensures
        exists|len: int| crate::text::is_cut_len(text, max_width, len),
    decreases text.len() - from,
{
    if from < text.len() && crate::text::cut_fits(text, max_width, from + 1) {
        lemma_cut_len_exists(text, max_width, from + 1);
    } else {
        assert(crate::text::is_cut_len(text, max_width, from));
    }
}

/// What stands for a title is the title, or its beginning with a mark that the rest is missing,
/// or nothing.
pub proof fn law_title_is_cut_at_its_end(title: Seq<char>, max_width: int)
    ensures
        ({
            let shown = crate::text::truncated(title, max_width);
            ||| shown == title
            ||| shown.len() == 0
            ||| shown.last() == '…' && shown.drop_last().is_prefix_of(title)
        }),
{
    if crate::text::display_columns(title) > max_width && crate::text::cut_fits(
        title,
        max_width,
        0,
    ) {
        lemma_cut_len_exists(title, max_width, 0);
        let len = choose|len: int| crate::text::is_cut_len(title, max_width, len);
        let shown = crate::text::truncated(title, max_width);
        assert(shown.drop_last() =~= title.take(len));
    }
}

/// The animation in front of a title never reaches the name of a tab: the name starts with
/// neither animation nor space, and stays the same from frame to frame.
pub proof fn law_animation_does_not_show(frame: char, next_frame: char, title: Seq<char>)
    requires
        crate::text::is_animation(frame),
        crate::text::is_animation(next_frame),
    ensures
        crate::text::settled(seq![frame, ' '] + title) == crate::text::settled(title),
        crate::text::settled(seq![frame, ' '] + title) == crate::text::settled(
            seq![next_frame, ' '] + title,
        ),
        crate::text::settled(title).len() > 0 ==> !crate::text::is_animation(
            crate::text::settled(title)[0],
        ) && crate::text::settled(title)[0] != ' ',
{
    lemma_settled_prefix(frame, title);
    lemma_settled_prefix(next_frame, title);
    lemma_settled_start(title);
}

proof fn lemma_settled_prefix(frame: char, title: Seq<char>)
    requires
        crate::text::is_animation(frame),
    ensures
        crate::text::settled(seq![frame, ' '] + title) == crate::text::settled(title),
{
    let whole = seq![frame, ' '] + title;
    let rest = seq![' '] + title;
    assert(whole.drop_first() =~= rest);
    assert(rest.drop_first() =~= title);
    assert(rest[0] == ' ');
    assert(crate::text::settled(rest) == crate::text::settled(title));
}

proof fn lemma_settled_start(title: Seq<char>)
    ensures
        crate::text::settled(title).len() > 0 ==> !crate::text::is_animation(
            crate::text::settled(title)[0],
        ) && crate::text::settled(title)[0] != ' ',
    decreases title.len(),
{
    if title.len() > 0 {
        lemma_settled_start(title.drop_first());
    }
}

/// A bar that shows no states has no glyphs, whatever the agents do.
pub proof fn law_status_off_shows_no_glyph(ctx: TabChromeCtx<'_>, ws: Workspace, idx: int)
    requires
        ctx.status == TabStatusConfig::Off,
    ensures
        ctx.label(ws, idx).status is None,
        ctx.label(ws, idx).plain_text() == ctx.label(ws, idx).body,
{
}

/// The state of a tab is that of one of its agents, and no agent in the tab is more urgent; a
/// tab has no state exactly where it has no agent.
pub proof fn law_tab_state_is_the_most_urgent(
    tab: Tab,
    terminals: Map<u64, TerminalState>,
    pane: int,
)
    requires
        0 <= pane < tab.panes@.len(),
    ensures
        tab.panes@[pane].agent(terminals) matches Some(agent) ==> {
            &&& tab.agent(terminals) matches Some(shown)
            &&& agent.0.urgency(agent.1) <= shown.0.urgency(shown.1)
        },
        tab.agent(terminals) is Some ==> exists|i: int|
            0 <= i < tab.panes@.len() && (#[trigger] tab.panes@[i]).agent(terminals)
                == tab.agent(terminals),
{
    lemma_most_urgent(tab, terminals, tab.panes@.len() as int);
}

proof fn lemma_most_urgent(tab: Tab, terminals: Map<u64, TerminalState>, count: int)
    requires
        0 <= count <= tab.panes@.len(),
    ensures
        forall|i: int|
            0 <= i < count ==> ((#[trigger] tab.panes@[i]).agent(terminals) matches Some(agent)
                ==> tab.most_urgent(terminals, count) is Some && agent.0.urgency(agent.1) <= (
            tab.most_urgent(terminals, count)->0).0.urgency(
                (tab.most_urgent(terminals, count)->0).1,
            )),
        tab.most_urgent(terminals, count) is Some ==> exists|i: int|
            0 <= i < count && (#[trigger] tab.panes@[i]).agent(terminals) == tab.most_urgent(
                terminals,
                count,
            ),
    decreases count,
{
    if count > 0 {
        lemma_most_urgent(tab, terminals, count - 1);
        assert(tab.panes@[count - 1].agent(terminals) is Some || tab.panes@[count - 1].agent(
            terminals,
        ) is None);
    }
}

/// A glyph widens a tab by its own columns and the space behind it, as far as a terminal has
/// columns for that and the tab is not widened to the least width anyway.
pub proof fn law_glyph_counts_toward_the_width(glyph: GlyphLook, body: Seq<char>)
    ensures
        ({
            let with = LabelLook { status: Some(glyph), body };
            let without = LabelLook { status: None, body };
            let glyph_columns = crate::text::display_columns(glyph.symbol) + 1;
            &&& with.content_width() == min(
                without.content_width() + glyph_columns,
                u16::MAX as int,
            )
            &&& MIN_TAB_WIDTH - TAB_PADDING <= without.content_width() && with.content_width()
                + TAB_PADDING <= u16::MAX ==> with.tab_width() == without.tab_width()
                + glyph_columns
        }),
{
}

/// A tab has room for everything that it says and never less than the least width.
pub proof fn law_tab_has_room_for_its_label(label: LabelLook)
    ensures
        label.tab_width() >= MIN_TAB_WIDTH,
        label.content_width() + TAB_PADDING <= u16::MAX ==> label.tab_width()
            >= label.content_width() + TAB_PADDING,
{
}

/// The characters of the spans in front of `count`.
pub open spec fn span_chars(spans: Seq<SpanLook>, count: int) -> int
    decreases count,
{
    if count <= 0 {
        0
    } else {
        span_chars(spans, count - 1) + spans[count - 1].text.len()
    }
}

/// The line of a tab fills it: it has a character for every column of the tab, or more where
/// the label is longer.
pub proof fn law_tab_line_fills_the_tab(
    label: LabelLook,
    style: TextStyle,
    palette: Palette,
    width: int,
)
    ensures
        ({
            let spans = label.spans(style, palette, width);
            span_chars(spans, spans.len() as int) == max(
                width,
                label.reserved() + label.body.len(),
            )
        }),
{
    reveal_with_fuel(span_chars, 5);
}

/// A bar that was laid out for `area` can be painted on all cells that hold the first row of
/// `area`, however wide it is, if a buffer over `screen` does not show too much of a single tab;
/// see [`law_laid_out_bar_is_painted_in_its_row`].
#[verifier::rlimit(40)]
pub proof fn law_laid_out_bar_can_be_painted(
    app: AppState,
    ws: Workspace,
    bar: Bar,
    screen: Rect,
    cells: Map<(u16, u16), CellLook>,
)
    requires
        bar.fits(),
        app.active matches Some(i) && i < app.workspaces@.len() && app.workspaces@[i as int] == ws,
        bar.widths.len() == ws.tabs@.len(),
        bar.mouse_chrome == app.mouse_capture,
        view_holds(app.view, bar.places()),
        !app.mouse_capture ==> (app.drop_x(ws) matches Some(x) ==> bar.area.x <= x),
        forall|x: u16|
            bar.area.x <= x < bar.area.right() ==> #[trigger] cells.contains_key((x, bar.area.y)),
        forall|idx: int|
            0 <= idx < app.view.tab_hit_areas@.len() ==> (
            #[trigger] app.view.tab_hit_areas@[idx]).room_in(screen) <= MAX_PAINTED_WIDTH,
    ensures
        app.columns_fit(bar.area),
        PaintLook::all_lines_fit(app.tab_bar_paints(bar.area), screen),
        PaintLook::all_mark_one_of(app.tab_bar_paints(bar.area), cells),
{
    law_laid_out_bar_is_painted_in_its_row(app, ws, bar);
    let paints = app.tab_bar_paints(bar.area);
    app.lemma_steps(ws, bar.area);
    assert forall|i: int| 0 <= i < paints.len() implies (#[trigger] paints[i]).line_fits(
        screen,
    ) by {
        assert(app.is_step(paints[i], ws, bar.area));
        if let PaintLook::Line { spans, rect, .. } = paints[i] {
            let row = TextRow::of(spans, rect.room_in(screen));
            if paints[i] == app.background(bar.area) {
                lemma_plain_pieces(spans, 1);
                reveal_with_fuel(letters_of, 2);
                assert(row.pieces.len() == bar.area.width);
                assert forall|idx: int| 0 <= idx < row.pieces.len() implies
                    #[trigger] row.fits_up_to(idx) by {
                    lemma_plain_column(spans, rect.room_in(screen), idx);
                }
            } else {
                row.lemma_narrow_fits();
            }
        }
    }
    assert forall|i: int| 0 <= i < paints.len() implies (#[trigger] paints[i]).marks_one_of(
        cells,
    ) by {
        assert(marks_in_row(paints[i], bar.area));
        match paints[i] {
            PaintLook::Line { .. } => {},
            PaintLook::Mark { x, y, .. } => {
                assert(cells.contains_key((x as u16, bar.area.y)));
            },
        }
    }
}

/// Every span of the line is printable ASCII.
pub open spec fn all_plain(spans: Seq<SpanLook>) -> bool {
    forall|i: int| 0 <= i < spans.len() ==> crate::surface::is_plain_text(
        (#[trigger] spans[i]).text,
    )
}

/// The characters of the first `count` spans, in order, each in the style of its span.
pub open spec fn letters_of(spans: Seq<SpanLook>, count: int) -> Seq<Piece>
    decreases count,
{
    if count <= 0 {
        Seq::empty()
    } else {
        letters_of(spans, count - 1) + Seq::new(
            spans[count - 1].text.len(),
            |i: int| Piece {
                symbol: seq![spans[count - 1].text[i]],
                style: spans[count - 1].style,
            },
        )
    }
}

proof fn lemma_plain_pieces(spans: Seq<SpanLook>, count: int)
    requires
        all_plain(spans),
        count <= spans.len(),
    ensures
        SpanLook::pieces_of(spans, count) == letters_of(spans, count),
        forall|i: int|
            0 <= i < letters_of(spans, count).len() ==> crate::surface::symbol_columns(
                (#[trigger] letters_of(spans, count)[i]).symbol,
            ) == 1,
    decreases count,
{
    if count > 0 {
        lemma_plain_pieces(spans, count - 1);
        assert(crate::surface::is_plain_text(spans[count - 1].text));
        assert(SpanLook::pieces_of(spans, count) =~= letters_of(spans, count));
        let earlier = letters_of(spans, count - 1);
        assert forall|i: int| 0 <= i < letters_of(spans, count).len() implies
            crate::surface::symbol_columns((#[trigger] letters_of(spans, count)[i]).symbol)
            == 1 by {
            if i < earlier.len() {
                assert(crate::surface::symbol_columns(earlier[i].symbol) == 1);
            } else {
                assert(crate::surface::is_plain(spans[count - 1].text[i - earlier.len()]));
            }
        }
    }
}

proof fn lemma_plain_column(spans: Seq<SpanLook>, room: int, idx: int)
    requires
        all_plain(spans),
        0 <= idx <= letters_of(spans, spans.len() as int).len(),
        0 <= room,
    ensures
        TextRow::of(spans, room).column(idx) == if room > 0 {
            idx
        } else {
            0
        },
    decreases idx,
{
    lemma_plain_pieces(spans, spans.len() as int);
    if idx > 0 {
        lemma_plain_column(spans, room, idx - 1);
        let letters = letters_of(spans, spans.len() as int);
        assert(crate::surface::symbol_columns(letters[idx - 1].symbol) == 1);
    }
}

/// Printable ASCII is drawn as it stands: in column `column` of a row stands that character of
/// the spans, in order, and in the style of its span, as far as there are characters.
pub proof fn law_plain_text_is_drawn_as_it_stands(spans: Seq<SpanLook>, room: int, column: int)
    requires
        all_plain(spans),
        0 <= column < room,
    ensures
        ({
            let letters = letters_of(spans, spans.len() as int);
            TextRow::of(spans, room).at(column) == if column < letters.len() {
                Some(letters[column])
            } else {
                None
            }
        }),
{
    let row = TextRow::of(spans, room);
    let letters = letters_of(spans, spans.len() as int);
    lemma_plain_pieces(spans, spans.len() as int);
    if column < letters.len() {
        lemma_plain_column(spans, room, column);
        assert(crate::surface::symbol_columns(letters[column].symbol) == 1);
        row.lemma_at(column);
    } else if row.at(column) is Some {
        let idx = choose|idx: int| row.stands_at(idx, column);
        lemma_plain_column(spans, room, idx);
    }
}

proof fn lemma_background_concat(
    a: Seq<PaintLook>,
    b: Seq<PaintLook>,
    count: int,
    x: int,
    y: int,
    before: Color,
)
    requires
        0 <= count <= b.len(),
    ensures
        PaintLook::background_after_first(a + b, a.len() + count, x, y, before)
            == PaintLook::background_after_first(
            b,
            count,
            x,
            y,
            PaintLook::background_after_first(a, a.len() as int, x, y, before),
        ),
    decreases count,
{
    if count > 0 {
        lemma_background_concat(a, b, count - 1, x, y, before);
    } else {
        lemma_background_prefix(a, b, a.len() as int, x, y, before);
    }
}

proof fn lemma_background_prefix(
    a: Seq<PaintLook>,
    b: Seq<PaintLook>,
    count: int,
    x: int,
    y: int,
    before: Color,
)
    requires
        0 <= count <= a.len(),
    ensures
        PaintLook::background_after_first(a + b, count, x, y, before)
            == PaintLook::background_after_first(a, count, x, y, before),
    decreases count,
{
    if count > 0 {
        lemma_background_prefix(a, b, count - 1, x, y, before);
    }
}

/// A mark, or a line without a background, leaves the background of every cell as it was.
proof fn lemma_step_keeps_background(
    a: Seq<PaintLook>,
    step: Option<PaintLook>,
    x: int,
    y: int,
    before: Color,
)
    requires
        step matches Some(paint) ==> match paint {
            PaintLook::Line { style, .. } => style.bg is None,
            PaintLook::Mark { .. } => true,
        },
    ensures
        ({
            let all = a + PaintLook::steps(step);
            PaintLook::background_after_first(all, all.len() as int, x, y, before)
                == PaintLook::background_after_first(a, a.len() as int, x, y, before)
        }),
{
    let steps = PaintLook::steps(step);
    lemma_background_concat(a, steps, steps.len() as int, x, y, before);
    reveal_with_fuel(PaintLook::background_after_first, 2);
}

/// A cell of tab `idx` that belongs to no later tab keeps the background of the tab while the
/// later tabs are drawn.
proof fn lemma_tab_lines_background(
    app: AppState,
    ws: Workspace,
    count: int,
    idx: int,
    x: int,
    y: int,
    before: Color,
)
    requires
        0 <= idx < count,
        app.view.tab_hit_areas@[idx].has_cell(x, y),
        forall|later: int|
            idx < later < count ==> !(#[trigger] app.view.tab_hit_areas@[later]).has_cell(x, y),
    ensures
        ({
            let lines = app.tab_lines(ws, count);
            PaintLook::background_after_first(lines, lines.len() as int, x, y, before)
                == app.palette.tab_style(
                idx == ws.active_tab,
                ws.tabs@[idx].given_name() is None,
            ).bg->0
        }),
    decreases count,
{
    let lines = app.tab_lines(ws, count - 1);
    let steps = PaintLook::steps(app.tab_line(ws, count - 1));
    reveal_with_fuel(PaintLook::background_after_first, 2);
    lemma_background_concat(lines, steps, steps.len() as int, x, y, before);
    if idx < count - 1 {
        lemma_tab_lines_background(app, ws, count - 1, idx, x, y, before);
        assert(!app.view.tab_hit_areas@[count - 1].has_cell(x, y));
    }
}

/// In a bar that was laid out, no control and no other tab has a cell of a tab.
#[verifier::rlimit(40)]
proof fn lemma_tab_stands_alone(app: AppState, ws: Workspace, bar: Bar, idx: int, x: int, y: int)
    requires
        bar.fits(),
        !bar.area.is_empty(),
        bar.widths.len() == ws.tabs@.len(),
        view_holds(app.view, bar.places()),
        0 <= idx < ws.tabs@.len(),
        app.view.tab_hit_areas@[idx].has_cell(x, y),
    ensures
        app.view.tab_hit_areas@.len() == ws.tabs@.len(),
        !app.view.tab_scroll_left_hit_area.has_cell(x, y),
        !app.view.tab_scroll_right_hit_area.has_cell(x, y),
        !app.view.new_tab_hit_area.has_cell(x, y),
        forall|other: int|
            0 <= other < ws.tabs@.len() && other != idx ==> !(
            #[trigger] app.view.tab_hit_areas@[other]).has_cell(x, y),
{
    let rects = app.view.tab_hit_areas@;
    let strip = bar.tabs();
    let scroll = bar.places().scroll;
    lemma_bar_tabs(bar);
    strip.lemma_hit_area(scroll, idx);
    if bar.mouse_chrome {
        if bar.all_tabs_fit() {
            law_unscrolled_bar(bar, idx);
        } else {
            law_scrolled_bar(bar, idx);
        }
    }
    assert forall|other: int| 0 <= other < rects.len() && other != idx implies !(
    #[trigger] rects[other]).has_cell(x, y) by {
        strip.lemma_hit_area(scroll, other);
        if strip.shows(scroll, other) {
            law_tabs_are_disjoint(
                strip,
                scroll,
                if idx < other {
                    idx
                } else {
                    other
                },
                if idx < other {
                    other
                } else {
                    idx
                },
            );
        }
    }
}

/// The background of a tab covers all of its cells: when a bar that was laid out has been
/// painted, every cell of a tab that shows has the background of the tab, the accent color
/// where the tab is the active one.
#[verifier::rlimit(40)]
pub proof fn law_tab_background_covers_the_tab(
    app: AppState,
    ws: Workspace,
    bar: Bar,
    idx: int,
    x: int,
    y: int,
    before: Color,
)
    requires
        bar.fits(),
        !bar.area.is_empty(),
        app.active matches Some(i) && i < app.workspaces@.len() && app.workspaces@[i as int] == ws,
        bar.widths.len() == ws.tabs@.len(),
        view_holds(app.view, bar.places()),
        0 <= idx < ws.tabs@.len(),
        app.view.tab_hit_areas@[idx].has_cell(x, y),
    ensures
        ({
            let paints = app.tab_bar_paints(bar.area);
            PaintLook::background_after_first(paints, paints.len() as int, x, y, before) == if idx
                == ws.active_tab {
                app.palette.accent
            } else {
                app.palette.surface0
            }
        }),
{
    let area = bar.area;
    lemma_tab_stands_alone(app, ws, bar, idx, x, y);
    let tabs = app.tab_lines(ws, ws.tabs@.len() as int);
    let p2 = seq![app.background(area)] + PaintLook::steps(app.left_button()) + PaintLook::steps(
        app.right_button(ws),
    );
    let p3 = p2 + tabs;
    let p4 = p3 + PaintLook::steps(app.drop_mark(ws, area));
    let p5 = p4 + PaintLook::steps(app.new_tab_button());
    let p6 = p5 + PaintLook::steps(app.left_ellipsis(area));
    let behind = PaintLook::background_after_first(p2, p2.len() as int, x, y, before);
    lemma_background_concat(p2, tabs, tabs.len() as int, x, y, before);
    lemma_tab_lines_background(app, ws, ws.tabs@.len() as int, idx, x, y, behind);
    lemma_step_keeps_background(p3, app.drop_mark(ws, area), x, y, before);
    lemma_step_keeps_background(p4, app.new_tab_button(), x, y, before);
    lemma_step_keeps_background(p5, app.left_ellipsis(area), x, y, before);
    lemma_step_keeps_background(p6, app.right_ellipsis(ws, area), x, y, before);
}

proof fn lemma_weight_concat(
    a: Seq<PaintLook>,
    b: Seq<PaintLook>,
    weight: Weight,
    x: int,
    y: int,
)
    ensures
        PaintLook::some_gives_weight(a + b, (a + b).len() as int, weight, x, y) <==> (
        PaintLook::some_gives_weight(a, a.len() as int, weight, x, y)
            || PaintLook::some_gives_weight(b, b.len() as int, weight, x, y)),
{
    let all = a + b;
    if PaintLook::some_gives_weight(a, a.len() as int, weight, x, y) {
        let i = choose|i: int|
            0 <= i < a.len() && (#[trigger] a[i]).gives_weight(weight, x, y);
        assert(all[i] == a[i]);
    }
    if PaintLook::some_gives_weight(b, b.len() as int, weight, x, y) {
        let i = choose|i: int|
            0 <= i < b.len() && (#[trigger] b[i]).gives_weight(weight, x, y);
        assert(all[a.len() + i] == b[i]);
    }
    if PaintLook::some_gives_weight(all, all.len() as int, weight, x, y) {
        let i = choose|i: int|
            0 <= i < all.len() && (#[trigger] all[i]).gives_weight(weight, x, y);
        if i < a.len() {
            assert(a[i] == all[i]);
        } else {
            assert(b[i - a.len()] == all[i]);
        }
    }
}

/// A step that does not draw a cell in the given weight leaves that as it was.
proof fn lemma_step_keeps_weight(
    a: Seq<PaintLook>,
    step: Option<PaintLook>,
    weight: Weight,
    x: int,
    y: int,
)
    requires
        step matches Some(paint) ==> !paint.gives_weight(weight, x, y),
    ensures
        ({
            let all = a + PaintLook::steps(step);
            PaintLook::some_gives_weight(all, all.len() as int, weight, x, y)
                == PaintLook::some_gives_weight(a, a.len() as int, weight, x, y)
        }),
{
    lemma_weight_concat(a, PaintLook::steps(step), weight, x, y);
}

/// Of the lines of the tabs, only that of tab `idx` draws a cell that no other tab has.
proof fn lemma_tab_lines_weight(
    app: AppState,
    ws: Workspace,
    count: int,
    idx: int,
    weight: Weight,
    x: int,
    y: int,
)
    requires
        0 <= idx,
        app.view.tab_hit_areas@[idx].has_cell(x, y),
        forall|other: int|
            0 <= other < count && other != idx ==> !(
            #[trigger] app.view.tab_hit_areas@[other]).has_cell(x, y),
    ensures
        ({
            let lines = app.tab_lines(ws, count);
            PaintLook::some_gives_weight(lines, lines.len() as int, weight, x, y) <==> idx < count
                && app.palette.tab_style(
                idx == ws.active_tab,
                ws.tabs@[idx].given_name() is None,
            ).weight == weight
        }),
    decreases count,
{
    if count > 0 {
        let lines = app.tab_lines(ws, count - 1);
        let step = app.tab_line(ws, count - 1);
        lemma_tab_lines_weight(app, ws, count - 1, idx, weight, x, y);
        if idx == count - 1 {
            lemma_weight_concat(lines, PaintLook::steps(step), weight, x, y);
            assert(PaintLook::steps(step)[0] == step->0);
        } else {
            assert(!app.view.tab_hit_areas@[count - 1].has_cell(x, y));
            lemma_step_keeps_weight(lines, step, weight, x, y);
        }
    }
}

/// The weight of a tab tells what it is: when a bar that was laid out has been painted, the
/// cells of the active tab are bold where the user gave it a name, those of another tab are dim
/// where the user did not, and nothing else makes a cell of a tab bold or dim. So an active tab
/// without a given name is neither.
pub proof fn law_weight_tells_tabs_apart(
    app: AppState,
    ws: Workspace,
    bar: Bar,
    idx: int,
    x: int,
    y: int,
)
    requires
        bar.fits(),
        !bar.area.is_empty(),
        app.active matches Some(i) && i < app.workspaces@.len() && app.workspaces@[i as int] == ws,
        bar.widths.len() == ws.tabs@.len(),
        view_holds(app.view, bar.places()),
        0 <= idx < ws.tabs@.len(),
        app.view.tab_hit_areas@[idx].has_cell(x, y),
    ensures
        ({
            let paints = app.tab_bar_paints(bar.area);
            let count = paints.len() as int;
            &&& PaintLook::some_gives_weight(paints, count, Weight::Bold, x, y) <==> idx
                == ws.active_tab && ws.tabs@[idx].given_name() is Some
            &&& PaintLook::some_gives_weight(paints, count, Weight::Dim, x, y) <==> idx
                != ws.active_tab && ws.tabs@[idx].given_name() is None
        }),
{
    lemma_tab_weight(app, ws, bar, idx, Weight::Bold, x, y);
    lemma_tab_weight(app, ws, bar, idx, Weight::Dim, x, y);
}

#[verifier::rlimit(40)]
proof fn lemma_tab_weight(
    app: AppState,
    ws: Workspace,
    bar: Bar,
    idx: int,
    weight: Weight,
    x: int,
    y: int,
)
    requires
        bar.fits(),
        !bar.area.is_empty(),
        app.active matches Some(i) && i < app.workspaces@.len() && app.workspaces@[i as int] == ws,
        bar.widths.len() == ws.tabs@.len(),
        view_holds(app.view, bar.places()),
        0 <= idx < ws.tabs@.len(),
        app.view.tab_hit_areas@[idx].has_cell(x, y),
        weight != Weight::Normal,
    ensures
        ({
            let paints = app.tab_bar_paints(bar.area);
            PaintLook::some_gives_weight(paints, paints.len() as int, weight, x, y)
                <==> app.palette.tab_style(
                idx == ws.active_tab,
                ws.tabs@[idx].given_name() is None,
            ).weight == weight
        }),
{
    let area = bar.area;
    lemma_tab_stands_alone(app, ws, bar, idx, x, y);
    let tabs = app.tab_lines(ws, ws.tabs@.len() as int);
    let p0 = seq![app.background(area)];
    let p1 = p0 + PaintLook::steps(app.left_button());
    let p2 = p1 + PaintLook::steps(app.right_button(ws));
    let p3 = p2 + tabs;
    let p4 = p3 + PaintLook::steps(app.drop_mark(ws, area));
    let p5 = p4 + PaintLook::steps(app.new_tab_button());
    let p6 = p5 + PaintLook::steps(app.left_ellipsis(area));
    assert(!PaintLook::some_gives_weight(p0, 1, weight, x, y));
    lemma_step_keeps_weight(p0, app.left_button(), weight, x, y);
    lemma_step_keeps_weight(p1, app.right_button(ws), weight, x, y);
    lemma_weight_concat(p2, tabs, weight, x, y);
    lemma_tab_lines_weight(app, ws, ws.tabs@.len() as int, idx, weight, x, y);
    lemma_step_keeps_weight(p3, app.drop_mark(ws, area), weight, x, y);
    lemma_step_keeps_weight(p4, app.new_tab_button(), weight, x, y);
    lemma_step_keeps_weight(p5, app.left_ellipsis(area), weight, x, y);
    lemma_step_keeps_weight(p6, app.right_ellipsis(ws, area), weight, x, y);
}

proof fn lemma_foreground_prefix(
    a: Seq<PaintLook>,
    b: Seq<PaintLook>,
    count: int,
    x: int,
    y: int,
    before: Color,
    shown: Color,
)
    requires
        0 <= count <= a.len(),
    ensures
        PaintLook::foreground_can_be(a + b, count, x, y, before, shown)
            == PaintLook::foreground_can_be(a, count, x, y, before, shown),
    decreases count,
{
    if count > 0 {
        lemma_foreground_prefix(a, b, count - 1, x, y, before, shown);
    }
}

/// A step that does not touch a cell leaves its foreground as it was.
proof fn lemma_step_keeps_foreground(
    a: Seq<PaintLook>,
    step: Option<PaintLook>,
    x: int,
    y: int,
    before: Color,
    shown: Color,
)
    requires
        step matches Some(paint) ==> !paint.touches(x, y),
    ensures
        ({
            let all = a + PaintLook::steps(step);
            PaintLook::foreground_can_be(all, all.len() as int, x, y, before, shown)
                == PaintLook::foreground_can_be(a, a.len() as int, x, y, before, shown)
        }),
{
    lemma_foreground_prefix(a, PaintLook::steps(step), a.len() as int, x, y, before, shown);
}

/// After the lines of the tabs, a cell that only tab `idx` has shows a foreground of that tab.
proof fn lemma_tab_lines_foreground(
    app: AppState,
    ws: Workspace,
    ahead: Seq<PaintLook>,
    count: int,
    idx: int,
    x: int,
    y: int,
    before: Color,
    shown: Color,
)
    requires
        0 <= idx < count,
        app.view.tab_hit_areas@[idx].has_cell(x, y),
        forall|other: int|
            0 <= other < count && other != idx ==> !(
            #[trigger] app.view.tab_hit_areas@[other]).has_cell(x, y),
        ({
            let all = ahead + app.tab_lines(ws, count);
            PaintLook::foreground_can_be(all, all.len() as int, x, y, before, shown)
        }),
    ensures
        is_tab_foreground(app, ws, idx, shown),
    decreases count,
{
    let lines = app.tab_lines(ws, count - 1);
    let step = app.tab_line(ws, count - 1);
    let all = ahead + app.tab_lines(ws, count);
    assert(all =~= (ahead + lines) + PaintLook::steps(step));
    if idx < count - 1 {
        assert(!app.view.tab_hit_areas@[count - 1].has_cell(x, y));
        lemma_step_keeps_foreground(ahead + lines, step, x, y, before, shown);
        lemma_tab_lines_foreground(app, ws, ahead, count - 1, idx, x, y, before, shown);
    } else {
        assert(all.last() == step->0);
    }
}

/// The foreground is that of tab `idx`, or that of its glyph.
pub open spec fn is_tab_foreground(app: AppState, ws: Workspace, idx: int, shown: Color) -> bool {
    ||| app.palette.tab_style(idx == ws.active_tab, ws.tabs@[idx].given_name() is None).fg == Some(
        shown,
    )
    ||| app.chrome_ctx().label(ws, idx).status matches Some(glyph) && shown
        == app.palette.state_color(glyph.state, glyph.seen)
}

/// A tab has its own foreground: when a bar that was laid out has been painted, every cell of a
/// tab that shows has the foreground of the tab or, where the tab has a glyph, that of the
/// agent's state. This is said of cells into which no mark goes.
#[verifier::rlimit(40)]
pub proof fn law_tab_has_its_own_foreground(
    app: AppState,
    ws: Workspace,
    bar: Bar,
    idx: int,
    x: int,
    y: int,
    before: Color,
    shown: Color,
)
    requires
        bar.fits(),
        !bar.area.is_empty(),
        app.active matches Some(i) && i < app.workspaces@.len() && app.workspaces@[i as int] == ws,
        bar.widths.len() == ws.tabs@.len(),
        view_holds(app.view, bar.places()),
        0 <= idx < ws.tabs@.len(),
        app.view.tab_hit_areas@[idx].has_cell(x, y),
        is_unmarked(app.tab_bar_paints(bar.area), x, y),
        PaintLook::foreground_can_be(
            app.tab_bar_paints(bar.area),
            app.tab_bar_paints(bar.area).len() as int,
            x,
            y,
            before,
            shown,
        ),
    ensures
        is_tab_foreground(app, ws, idx, shown),
{
    let area = bar.area;
    lemma_tab_stands_alone(app, ws, bar, idx, x, y);
    let count = ws.tabs@.len() as int;
    let p2 = seq![app.background(area)] + PaintLook::steps(app.left_button()) + PaintLook::steps(
        app.right_button(ws),
    );
    let p3 = p2 + app.tab_lines(ws, count);
    let drop = PaintLook::steps(app.drop_mark(ws, area));
    let p4 = p3 + drop;
    let p5 = p4 + PaintLook::steps(app.new_tab_button());
    let left = PaintLook::steps(app.left_ellipsis(area));
    let p6 = p5 + left;
    let right = PaintLook::steps(app.right_ellipsis(ws, area));
    let all = app.tab_bar_paints(area);
    assert(all == p6 + right);
    assert(drop.len() > 0 ==> all[p3.len() as int] == drop[0]);
    assert(left.len() > 0 ==> all[p5.len() as int] == left[0]);
    assert(right.len() > 0 ==> all[p6.len() as int] == right[0]);
    lemma_step_keeps_foreground(p6, app.right_ellipsis(ws, area), x, y, before, shown);
    lemma_step_keeps_foreground(p5, app.left_ellipsis(area), x, y, before, shown);
    lemma_step_keeps_foreground(p4, app.new_tab_button(), x, y, before, shown);
    lemma_step_keeps_foreground(p3, app.drop_mark(ws, area), x, y, before, shown);
    lemma_tab_lines_foreground(app, ws, p2, count, idx, x, y, before, shown);
}

/// A cell that no step from `from` on touches shows what it showed before them.
pub(crate) proof fn lemma_later_steps_keep(
    paints: Seq<PaintLook>,
    from: int,
    count: int,
    screen: Rect,
    cells: Map<(u16, u16), CellLook>,
    x: u16,
    y: u16,
)
    requires
        0 <= from <= count <= paints.len(),
        cells.contains_key((x, y)),
        forall|i: int| 0 <= i < count ==> marks_a_coordinate(#[trigger] paints[i]),
        forall|i: int|
            from <= i < count ==> !(#[trigger] paints[i]).touches(x as int, y as int),
    ensures
        PaintLook::apply_first(paints, count, screen, cells).contains_key((x, y)),
        PaintLook::apply_first(paints, count, screen, cells)[(x, y)] == PaintLook::apply_first(
            paints,
            from,
            screen,
            cells,
        )[(x, y)],
    decreases count,
{
    if count > 0 {
        assert(marks_a_coordinate(paints[count - 1]));
        if from < count {
            lemma_later_steps_keep(paints, from, count - 1, screen, cells, x, y);
            assert(!paints[count - 1].touches(x as int, y as int));
        } else {
            lemma_later_steps_keep(paints, count - 1, count - 1, screen, cells, x, y);
        }
    }
}

/// The column and the row that the step marks, if it marks any, are coordinates.
pub open spec fn marks_a_coordinate(paint: PaintLook) -> bool {
    match paint {
        PaintLook::Line { .. } => true,
        PaintLook::Mark { x, y, .. } => 0 <= x <= u16::MAX && 0 <= y <= u16::MAX,
    }
}

/// No mark of the given steps goes into the cell in column `x` of row `y`.
pub open spec fn is_unmarked(paints: Seq<PaintLook>, x: int, y: int) -> bool {
    forall|i: int|
        0 <= i < paints.len() && (#[trigger] paints[i]) is Mark ==> !paints[i].touches(x, y)
}

/// A cell of the last line over it shows what that line leaves it.
pub(crate) proof fn lemma_last_line_shows(
    app: AppState,
    ws: Workspace,
    area: Rect,
    at: int,
    screen: Rect,
    cells: Map<(u16, u16), CellLook>,
    x: u16,
    y: u16,
)
    requires
        !area.is_empty(),
        app.active matches Some(i) && i < app.workspaces@.len() && app.workspaces@[i as int] == ws,
        app.columns_fit(area),
        cells.contains_key((x, y)),
        0 <= at < app.tab_bar_paints(area).len(),
        app.tab_bar_paints(area)[at] is Line,
        forall|i: int|
            at < i < app.tab_bar_paints(area).len() ==> !(#[trigger] app.tab_bar_paints(
                area,
            )[i]).touches(x as int, y as int),
    ensures
        ({
            let paints = app.tab_bar_paints(area);
            let before = PaintLook::apply_first(paints, at, screen, cells)[(x, y)];
            let after = PaintLook::apply_all(paints, screen, cells)[(x, y)];
            paints[at] matches PaintLook::Line { spans, style, rect } && after
                == crate::surface::drawn_cell(
                before,
                screen,
                spans,
                style,
                rect,
                x as int,
                y as int,
            )
        }),
{
    let paints = app.tab_bar_paints(area);
    app.lemma_steps(ws, area);
    assert forall|i: int| 0 <= i < paints.len() implies marks_a_coordinate(
        #[trigger] paints[i],
    ) by {
        assert(app.is_step(paints[i], ws, area));
    }
    lemma_later_steps_keep(paints, at, at, screen, cells, x, y);
    lemma_later_steps_keep(paints, at + 1, paints.len() as int, screen, cells, x, y);
}

/// The step draws the line of one of the first `count` tabs that comes behind tab `idx`.
pub open spec fn is_later_tab_line(
    app: AppState,
    ws: Workspace,
    count: int,
    idx: int,
    paint: PaintLook,
) -> bool {
    exists|later: int| idx < later < count && (#[trigger] app.tab_line(ws, later)) == Some(paint)
}

/// The line of tab `idx` is among those of the tabs, and only later tabs come behind it.
pub(crate) proof fn lemma_place_of_tab_line(
    app: AppState,
    ws: Workspace,
    count: int,
    idx: int,
) -> (at: int)
    requires
        0 <= idx < count,
        app.tab_line(ws, idx) is Some,
    ensures
        0 <= at < app.tab_lines(ws, count).len(),
        app.tab_line(ws, idx) == Some(app.tab_lines(ws, count)[at]),
        forall|i: int|
            at < i < app.tab_lines(ws, count).len() ==> is_later_tab_line(
                app,
                ws,
                count,
                idx,
                #[trigger] app.tab_lines(ws, count)[i],
            ),
    decreases count,
{
    let earlier = app.tab_lines(ws, count - 1);
    let lines = app.tab_lines(ws, count);
    if idx == count - 1 {
        earlier.len() as int
    } else {
        let at = lemma_place_of_tab_line(app, ws, count - 1, idx);
        assert forall|i: int| at < i < lines.len() implies is_later_tab_line(
            app,
            ws,
            count,
            idx,
            #[trigger] lines[i],
        ) by {
            if i < earlier.len() {
                assert(is_later_tab_line(app, ws, count - 1, idx, earlier[i]));
            } else {
                assert(app.tab_line(ws, count - 1) == Some(lines[i]));
            }
        }
        at
    }
}

/// A tab shows its line: when a bar that was laid out has been painted, a grapheme of the line
/// of a tab stands in its column of the tab, in its own color or that of the tab. This is said
/// of cells into which no mark goes.
pub proof fn law_tab_shows_its_line(
    app: AppState,
    ws: Workspace,
    bar: Bar,
    screen: Rect,
    cells: Map<(u16, u16), CellLook>,
    idx: int,
    x: u16,
    y: u16,
)
    requires
        bar.fits(),
        !bar.area.is_empty(),
        app.active matches Some(i) && i < app.workspaces@.len() && app.workspaces@[i as int] == ws,
        bar.widths.len() == ws.tabs@.len(),
        view_holds(app.view, bar.places()),
        app.columns_fit(bar.area),
        cells.contains_key((x, y)),
        0 <= idx < ws.tabs@.len(),
        app.view.tab_hit_areas@[idx].has_cell(x as int, y as int),
        is_unmarked(app.tab_bar_paints(bar.area), x as int, y as int),
    ensures
        ({
            let rect = app.view.tab_hit_areas@[idx];
            let style = app.palette.tab_style(
                idx == ws.active_tab,
                ws.tabs@[idx].given_name() is None,
            );
            let spans = app.chrome_ctx().label(ws, idx).spans(
                style,
                app.palette,
                rect.width as int,
            );
            let row = TextRow::of(spans, rect.room_in(screen));
            let after = PaintLook::apply_all(app.tab_bar_paints(bar.area), screen, cells)[(x, y)];
            y == rect.top_in(screen) ==> (row.at(x - rect.left_in(screen)) matches Some(piece)
                ==> after.symbol == piece.symbol && after.fg == piece.style.fg_over(style.fg->0))
        }),
{
    let at = lemma_tab_line_comes_last(app, ws, bar, idx, x as int, y as int);
    lemma_last_line_shows(app, ws, bar.area, at, screen, cells, x, y);
}

/// The steps that come before the lines of the tabs.
pub open spec fn steps_ahead(app: AppState, ws: Workspace, area: Rect) -> Seq<PaintLook> {
    seq![app.background(area)] + PaintLook::steps(app.left_button()) + PaintLook::steps(
        app.right_button(ws),
    )
}

/// The order of the steps: the controls that scroll come before the lines of the tabs, and the
/// only line behind those is the control that opens a tab, with nothing but marks behind it.
#[verifier::rlimit(40)]
pub(crate) proof fn lemma_order(app: AppState, ws: Workspace, area: Rect, lines: Seq<PaintLook>)
    requires
        lines == app.tab_lines(
            ws,
            min(ws.tabs@.len() as int, app.view.tab_hit_areas@.len() as int),
        ),
    ensures
        ({
            let paints = app.workspace_paints(ws, area);
            let ahead = steps_ahead(app, ws, area).len();
            let behind = ahead + lines.len();
            &&& behind <= paints.len()
            &&& app.left_button() matches Some(paint) ==> paints[1] == paint
            &&& app.right_button(ws) matches Some(paint) ==> paints[ahead - 1] == paint
            &&& app.right_button(ws) is Some && app.left_button() is Some ==> ahead == 3
            &&& app.right_button(ws) is None && app.left_button() is Some ==> ahead == 2
            &&& forall|j: int| 0 <= j < lines.len() ==> paints[ahead + j] == #[trigger] lines[j]
            &&& forall|i: int|
                behind <= i < paints.len() && (#[trigger] paints[i]) is Line
                    ==> app.new_tab_button() == Some(paints[i])
        }),
{
}

/// The line of a tab is among the steps, and nothing behind it touches a cell of it into which no
/// mark goes.
#[verifier::rlimit(40)]
pub(crate) proof fn lemma_tab_line_comes_last(
    app: AppState,
    ws: Workspace,
    bar: Bar,
    idx: int,
    x: int,
    y: int,
) -> (at: int)
    requires
        bar.fits(),
        !bar.area.is_empty(),
        app.active matches Some(i) && i < app.workspaces@.len() && app.workspaces@[i as int] == ws,
        bar.widths.len() == ws.tabs@.len(),
        view_holds(app.view, bar.places()),
        0 <= idx < ws.tabs@.len(),
        app.view.tab_hit_areas@[idx].has_cell(x, y),
        is_unmarked(app.tab_bar_paints(bar.area), x, y),
    ensures
        0 <= at < app.tab_bar_paints(bar.area).len(),
        app.tab_line(ws, idx) == Some(app.tab_bar_paints(bar.area)[at]),
        forall|i: int|
            at < i < app.tab_bar_paints(bar.area).len() ==> !(#[trigger] app.tab_bar_paints(
                bar.area,
            )[i]).touches(x, y),
{
    let area = bar.area;
    lemma_tab_stands_alone(app, ws, bar, idx, x, y);
    let count = ws.tabs@.len() as int;
    let paints = app.tab_bar_paints(area);
    let lines = app.tab_lines(ws, count);
    let within = lemma_place_of_tab_line(app, ws, count, idx);
    lemma_order(app, ws, area, lines);
    let ahead = steps_ahead(app, ws, area).len() as int;
    let at = ahead + within;
    assert(paints[at] == lines[within]);
    assert forall|i: int| at < i < paints.len() implies !(#[trigger] paints[i]).touches(
        x,
        y,
    ) by {
        if i < ahead + lines.len() {
            assert(paints[ahead + (i - ahead)] == lines[i - ahead]);
            assert(is_later_tab_line(app, ws, count, idx, lines[i - ahead]));
            let later = choose|later: int|
                idx < later < count && (#[trigger] app.tab_line(ws, later)) == Some(paints[i]);
            assert(!app.view.tab_hit_areas@[later].has_cell(x, y));
        }
    }
    at
}

/// A tab says its name: when a bar that was laid out has been painted, each cell of a tab
/// without a glyph whose name is printable ASCII shows the character of the tab's text that
/// stands there, a space in front of the name and spaces behind it. This is said of cells into
/// which no mark goes, on a screen that shows the tab from its first column on.
#[verifier::rlimit(40)]
pub proof fn law_plain_tab_shows_its_name(
    app: AppState,
    ws: Workspace,
    bar: Bar,
    screen: Rect,
    cells: Map<(u16, u16), CellLook>,
    idx: int,
    x: u16,
    y: u16,
)
    requires
        bar.fits(),
        !bar.area.is_empty(),
        app.active matches Some(i) && i < app.workspaces@.len() && app.workspaces@[i as int] == ws,
        bar.widths.len() == ws.tabs@.len(),
        view_holds(app.view, bar.places()),
        app.columns_fit(bar.area),
        cells.contains_key((x, y)),
        0 <= idx < ws.tabs@.len(),
        app.view.tab_hit_areas@[idx].has_cell(x as int, y as int),
        is_unmarked(app.tab_bar_paints(bar.area), x as int, y as int),
        screen.has_cell(x as int, y as int),
        screen.x <= app.view.tab_hit_areas@[idx].x,
        app.chrome_ctx().label(ws, idx).status is None,
        crate::surface::is_plain_text(app.chrome_ctx().label(ws, idx).body),
    ensures
        ({
            let rect = app.view.tab_hit_areas@[idx];
            let text = seq![' '] + crate::text::padded(
                app.chrome_ctx().label(ws, idx).body,
                rect.width - 1,
            );
            let style = app.palette.tab_style(
                idx == ws.active_tab,
                ws.tabs@[idx].given_name() is None,
            );
            let after = PaintLook::apply_all(app.tab_bar_paints(bar.area), screen, cells)[(x, y)];
            &&& 0 <= x - rect.x < text.len()
            &&& after.symbol == seq![text[x - rect.x]]
            &&& Some(after.fg) == style.fg
        }),
{
    let rect = app.view.tab_hit_areas@[idx];
    let label = app.chrome_ctx().label(ws, idx);
    let style = app.palette.tab_style(idx == ws.active_tab, ws.tabs@[idx].given_name() is None);
    let spans = label.spans(style, app.palette, rect.width as int);
    let padded = crate::text::padded(label.body, rect.width - 1);
    lemma_bar_tabs(bar);
    bar.tabs().lemma_hit_area(bar.places().scroll, idx);
    law_tab_shows_its_line(app, ws, bar, screen, cells, idx, x, y);
    assert(crate::surface::is_plain_text(padded)) by {
        assert forall|i: int| 0 <= i < padded.len() implies crate::surface::is_plain(
            #[trigger] padded[i],
        ) by {
            if i < label.body.len() {
                assert(crate::surface::is_plain(label.body[i]));
            }
        }
    }
    assert(spans =~= seq![
        SpanLook { text: seq![' '], style: TextStyle::unchanged() },
        SpanLook { text: padded, style: TextStyle::unchanged() },
    ]);
    assert(all_plain(spans));
    law_plain_text_is_drawn_as_it_stands(spans, rect.room_in(screen), x - rect.x);
    reveal_with_fuel(letters_of, 3);
}

/// The glyph of a tab shows behind the first column of the tab, in the color of the agent's
/// state, when a bar that was laid out has been painted and there is room for the glyph. This is
/// said of a cell into which no mark goes, on a screen that shows the tab from its first column
/// on.
#[verifier::rlimit(40)]
pub proof fn law_glyph_shows_in_the_color_of_its_state(
    app: AppState,
    ws: Workspace,
    bar: Bar,
    screen: Rect,
    cells: Map<(u16, u16), CellLook>,
    idx: int,
    x: u16,
    y: u16,
)
    requires
        bar.fits(),
        !bar.area.is_empty(),
        app.active matches Some(i) && i < app.workspaces@.len() && app.workspaces@[i as int] == ws,
        bar.widths.len() == ws.tabs@.len(),
        view_holds(app.view, bar.places()),
        app.columns_fit(bar.area),
        cells.contains_key((x, y)),
        0 <= idx < ws.tabs@.len(),
        app.view.tab_hit_areas@[idx].has_cell(x as int, y as int),
        is_unmarked(app.tab_bar_paints(bar.area), x as int, y as int),
        screen.has_cell(x as int, y as int),
        screen.x <= app.view.tab_hit_areas@[idx].x,
        x == app.view.tab_hit_areas@[idx].x + 1,
        app.chrome_ctx().label(ws, idx).status matches Some(glyph)
            && 0 < crate::surface::symbol_columns(glyph.symbol)
            < app.view.tab_hit_areas@[idx].room_in(screen),
    ensures
        ({
            let glyph = app.chrome_ctx().label(ws, idx).status->0;
            let after = PaintLook::apply_all(app.tab_bar_paints(bar.area), screen, cells)[(x, y)];
            &&& after.symbol == glyph.symbol
            &&& after.fg == app.palette.state_color(glyph.state, glyph.seen)
        }),
{
    let rect = app.view.tab_hit_areas@[idx];
    let label = app.chrome_ctx().label(ws, idx);
    let style = app.palette.tab_style(idx == ws.active_tab, ws.tabs@[idx].given_name() is None);
    let spans = label.spans(style, app.palette, rect.width as int);
    let row = TextRow::of(spans, rect.room_in(screen));
    lemma_bar_tabs(bar);
    bar.tabs().lemma_hit_area(bar.places().scroll, idx);
    law_tab_shows_its_line(app, ws, bar, screen, cells, idx, x, y);
    reveal_with_fuel(SpanLook::pieces_of, 5);
    assert(crate::surface::has_letters(spans[0].text));
    assert(crate::surface::has_letters(spans[1].text));
    assert(row.pieces[0].symbol =~= seq![' ']);
    assert(row.pieces[1].symbol =~= label.status->0.symbol);
    reveal_with_fuel(TextRow::column, 2);
    assert(row.column(1) == 1);
    row.lemma_at(1);
}

/// A control shows its text: when a bar that was laid out has been painted, each cell of a
/// control that the pointer can use shows the character of the control's text that stands there.
/// This is said of cells into which no mark goes, on a screen that shows the control from its
/// first column on, and of bars that have room for their controls.
#[verifier::rlimit(40)]
pub proof fn law_control_shows_its_text(
    app: AppState,
    ws: Workspace,
    bar: Bar,
    screen: Rect,
    cells: Map<(u16, u16), CellLook>,
    text: Seq<char>,
    style: TextStyle,
    rect: Rect,
    x: u16,
    y: u16,
)
    requires
        bar.fits(),
        bar.area.height > 0,
        bar.area.width >= 2 * TAB_SCROLL_BUTTON_WIDTH + NEW_TAB_WIDTH,
        app.active matches Some(i) && i < app.workspaces@.len() && app.workspaces@[i as int] == ws,
        bar.widths.len() == ws.tabs@.len(),
        view_holds(app.view, bar.places()),
        app.columns_fit(bar.area),
        cells.contains_key((x, y)),
        rect.has_cell(x as int, y as int),
        is_unmarked(app.tab_bar_paints(bar.area), x as int, y as int),
        screen.has_cell(x as int, y as int),
        screen.x <= rect.x,
        app.left_button() == Some(PaintLook::text(text, style, rect)) || app.right_button(ws)
            == Some(PaintLook::text(text, style, rect)) || app.new_tab_button() == Some(
            PaintLook::text(text, style, rect),
        ),
    ensures
        ({
            let after = PaintLook::apply_all(app.tab_bar_paints(bar.area), screen, cells)[(x, y)];
            &&& 0 <= x - rect.x < text.len()
            &&& after.symbol == seq![text[x - rect.x]]
            &&& Some(after.fg) == style.fg
        }),
{
    let control = PaintLook::text(text, style, rect);
    let at = lemma_place_of_control(app, ws, bar, control, x as int, y as int);
    lemma_last_line_shows(app, ws, bar.area, at, screen, cells, x, y);
    let spans = seq![SpanLook { text, style: TextStyle::unchanged() }];
    assert(all_plain(spans));
    law_plain_text_is_drawn_as_it_stands(spans, rect.room_in(screen), x - rect.x);
    reveal_with_fuel(letters_of, 2);
}

/// A control is among the steps, and nothing behind it touches a cell of it into which no mark
/// goes.
#[verifier::rlimit(40)]
proof fn lemma_place_of_control(
    app: AppState,
    ws: Workspace,
    bar: Bar,
    control: PaintLook,
    x: int,
    y: int,
) -> (at: int)
    requires
        bar.fits(),
        bar.area.height > 0,
        bar.area.width >= 2 * TAB_SCROLL_BUTTON_WIDTH + NEW_TAB_WIDTH,
        app.active matches Some(i) && i < app.workspaces@.len() && app.workspaces@[i as int] == ws,
        bar.widths.len() == ws.tabs@.len(),
        view_holds(app.view, bar.places()),
        control.touches(x, y),
        is_unmarked(app.tab_bar_paints(bar.area), x, y),
        app.left_button() == Some(control) || app.right_button(ws) == Some(control)
            || app.new_tab_button() == Some(control),
    ensures
        0 <= at < app.tab_bar_paints(bar.area).len(),
        app.tab_bar_paints(bar.area)[at] == control,
        forall|i: int|
            at < i < app.tab_bar_paints(bar.area).len() ==> !(#[trigger] app.tab_bar_paints(
                bar.area,
            )[i]).touches(x, y),
{
    let area = bar.area;
    let count = ws.tabs@.len() as int;
    let paints = app.tab_bar_paints(area);
    lemma_bar_tabs(bar);
    if app.new_tab_button() == Some(control) {
        lemma_place_of_new_tab_control(app, ws, area)
    } else {
        let lines = app.tab_lines(ws, count);
        lemma_order(app, ws, area, lines);
        app.lemma_tab_lines(ws, count);
        lemma_controls_stand_apart(app, ws, bar, x, y);
        let ahead = steps_ahead(app, ws, area).len() as int;
        let at = if app.right_button(ws) == Some(control) {
            ahead - 1
        } else {
            1
        };
        assert forall|i: int| at < i < paints.len() implies !(#[trigger] paints[i]).touches(
            x,
            y,
        ) by {
            if i < ahead {
                assert(app.right_button(ws) == Some(paints[i]));
            } else if i < ahead + lines.len() {
                assert(paints[ahead + (i - ahead)] == lines[i - ahead]);
                assert(app.is_tab_line(lines[i - ahead], ws, count));
            }
        }
        at
    }
}

/// The control that opens a tab is among the steps, and only marks come behind it.
#[verifier::rlimit(40)]
proof fn lemma_place_of_new_tab_control(app: AppState, ws: Workspace, area: Rect) -> (at: int)
    requires
        app.new_tab_button() is Some,
    ensures
        0 <= at < app.workspace_paints(ws, area).len(),
        app.new_tab_button() == Some(app.workspace_paints(ws, area)[at]),
        forall|i: int|
            at < i < app.workspace_paints(ws, area).len() ==> (#[trigger] app.workspace_paints(
                ws,
                area,
            )[i]) is Mark,
{
    let count = min(ws.tabs@.len() as int, app.view.tab_hit_areas@.len() as int);
    let p4 = steps_ahead(app, ws, area) + app.tab_lines(ws, count) + PaintLook::steps(
        app.drop_mark(ws, area),
    );
    p4.len() as int
}

/// In a bar that was laid out and has room for its controls, no tab and no other control has a
/// cell of a control that scrolls.
proof fn lemma_controls_stand_apart(app: AppState, ws: Workspace, bar: Bar, x: int, y: int)
    requires
        bar.fits(),
        bar.area.height > 0,
        bar.area.width >= 2 * TAB_SCROLL_BUTTON_WIDTH + NEW_TAB_WIDTH,
        bar.widths.len() == ws.tabs@.len(),
        view_holds(app.view, bar.places()),
        app.view.tab_scroll_left_hit_area.has_cell(x, y)
            || app.view.tab_scroll_right_hit_area.has_cell(x, y),
    ensures
        !(app.view.tab_scroll_left_hit_area.has_cell(x, y)
            && app.view.tab_scroll_right_hit_area.has_cell(x, y)),
        !app.view.new_tab_hit_area.has_cell(x, y),
        forall|idx: int|
            0 <= idx < ws.tabs@.len() ==> !(#[trigger] app.view.tab_hit_areas@[idx]).has_cell(
                x,
                y,
            ),
{
    assert(bar.mouse_chrome && !bar.all_tabs_fit());
    assert(bar.widths.len() > 0);
    law_scrolled_bar(bar, 0);
    assert forall|idx: int| 0 <= idx < ws.tabs@.len() implies !(
    #[trigger] app.view.tab_hit_areas@[idx]).has_cell(x, y) by {
        law_scrolled_bar(bar, idx);
    }
}

/// The glyph of a tab has the color of the agent's state on the background of the tab; the rest
/// of the line is drawn as the tab is.
pub proof fn law_glyph_has_the_color_of_its_state(
    glyph: GlyphLook,
    body: Seq<char>,
    style: TextStyle,
    palette: Palette,
    width: int,
)
    ensures
        ({
            let spans = LabelLook { status: Some(glyph), body }.spans(style, palette, width);
            &&& spans.len() == 4
            &&& spans[1].text == glyph.symbol
            &&& spans[1].style == (TextStyle {
                fg: Some(palette.state_color(glyph.state, glyph.seen)),
                ..style
            })
            &&& spans[0].style == TextStyle::unchanged()
            &&& spans[2].style == TextStyle::unchanged()
            &&& spans[3].style == TextStyle::unchanged()
        }),
{
}

} // verus!
