//! What the tab bar does, said of what goes in and what comes out.

use crate::bar::{Bar, BarPlaces, TabBarView};
use crate::rect::Rect;
use crate::render::{Paint, PaintLook};
use crate::state::{
    AgentState, AppState, DragState, DragTarget, Palette, Pane, StatusIndicatorStyle, Tab,
    TabAutoNameConfig, TabStatusConfig, TerminalState, ViewState, Workspace,
};
use crate::strip::Strip;
use crate::surface::{CellLook, SpanLook, TextSpan, TextStyle, Weight};
use crate::tabs::{LabelLook, TabChromeCtx, TabChromeLabel};
use ratatui::style::Color;
use vstd::math::*;
use vstd::prelude::*;

verus! {

/// A bar is laid out for what it is given.
pub proof fn law_bar_is_made_of_its_inputs(
    widths: Seq<u16>,
    active: int,
    area: Rect,
    current_scroll: int,
    follow_active: bool,
    mouse_chrome: bool,
)
    ensures
        ({
            let bar = Bar::new(widths, active, area, current_scroll, follow_active, mouse_chrome);
            &&& bar.widths == widths
            &&& bar.active == active
            &&& bar.area == area
            &&& bar.current_scroll == current_scroll
            &&& bar.follow_active == follow_active
            &&& bar.mouse_chrome == mouse_chrome
        }),
        Strip::new(widths, area).widths == widths,
        Strip::new(widths, area).area == area,
{
}

/// The places of a bar are those that its fields hold.
pub proof fn law_view_holds_its_places(view: TabBarView)
    ensures
        view@.scroll == view.scroll,
        view@.tab_hit_areas == view.tab_hit_areas@,
        view@.scroll_left_hit_area == view.scroll_left_hit_area,
        view@.scroll_right_hit_area == view.scroll_right_hit_area,
        view@.new_tab_hit_area == view.new_tab_hit_area,
{
}

/// The bar has a row, and a column for its tabs whatever controls it shows.
pub open spec fn has_room(bar: Bar) -> bool {
    &&& bar.area.x + bar.area.width <= u16::MAX
    &&& bar.area.height > 0
    &&& if bar.mouse_chrome {
        bar.area.width > 9 && bar.area.y < u16::MAX
    } else {
        bar.area.width > 0
    }
}

/// The same bar, told to begin with tab `scroll`.
pub open spec fn scrolled_to(bar: Bar, scroll: int) -> Bar {
    Bar { current_scroll: scroll, follow_active: false, ..bar }
}

/// A bar without cells has nothing to hit.
pub proof fn law_empty_bar_has_no_places(bar: Bar)
    requires
        bar.area.width == 0 || bar.area.height == 0,
    ensures
        bar.places().scroll == 0,
        bar.places().tab_hit_areas.len() == 0,
        bar.places().scroll_left_hit_area.width == 0,
        bar.places().scroll_right_hit_area.width == 0,
        bar.places().new_tab_hit_area.width == 0,
{
}

/// Moving on through the first tabs moves the middle of a tab to the left.
proof fn lemma_middle_moves_left(strip: Strip, scroll: int, further: int, idx: int)
    requires
        strip.fits(),
        strip.shows(scroll, idx),
        scroll <= further <= idx,
    ensures
        strip.shows(further, idx),
        Strip::doubled_center(strip.hit_area(further, idx)) <= Strip::doubled_center(
            strip.hit_area(scroll, idx),
        ),
{
    crate::laws::law_scrolling_on_keeps_a_tab(strip, scroll, further, idx);
    strip.lemma_hit_area(scroll, idx);
    strip.lemma_hit_area(further, idx);
}

/// Of all first tabs that do not scroll past the last tab, the chosen one brings the active tab
/// nearest to the middle, and it is the last that does.
proof fn lemma_chosen_scroll_is_nearest(strip: Strip, active: int, current: int, other: int)
    requires
        strip.fits(),
        0 <= active < strip.widths.len(),
        0 <= other <= strip.max_scroll(),
        strip.shows(other, active),
    ensures
        ({
            let chosen = strip.chosen_scroll(active, current, true);
            &&& strip.off_center(chosen, active) <= strip.off_center(other, active)
            &&& other > chosen ==> strip.off_center(chosen, active) < strip.off_center(
                other,
                active,
            )
        }),
{
    let best = strip.centered_scroll(active);
    let last = strip.max_scroll();
    crate::laws::law_centered_scroll(strip, active);
    assert(strip.best_up_to(active, active, best));
    if best > last {
        lemma_middle_moves_left(strip, other, last, active);
        lemma_middle_moves_left(strip, last, best, active);
    }
}

/// A bar that follows the active tab shows it as near to the middle of its tabs as it can: however
/// far the bar were scrolled instead, the tab would not be nearer to the middle, and scrolled
/// further it would be farther away. Middles are measured in half columns and end at the last
/// coordinate.
#[verifier::rlimit(40)]
pub proof fn law_following_brings_the_active_tab_to_the_middle(bar: Bar, scroll: int)
    requires
        has_room(bar),
        bar.follow_active,
        0 <= bar.active < bar.widths.len(),
        0 <= scroll,
    ensures
        ({
            let left = if bar.mouse_chrome {
                bar.area.x + 3
            } else {
                bar.area.x as int
            };
            let width = if bar.mouse_chrome {
                bar.area.width - 9
            } else {
                bar.area.width as int
            };
            let middle = min(2 * left + width, 65535);
            let shown = bar.places().tab_hit_areas[bar.active];
            let other = scrolled_to(bar, scroll).places().tab_hit_areas[bar.active];
            let off = min(2 * shown.x + shown.width, 65535) - middle;
            let other_off = min(2 * other.x + other.width, 65535) - middle;
            &&& shown.width > 0
            &&& other.width > 0 ==> max(off, -off) <= max(other_off, -other_off)
            &&& other.width > 0 && scrolled_to(bar, scroll).places().scroll > bar.places().scroll
                ==> max(off, -off) < max(other_off, -other_off)
        }),
{
    let other = scrolled_to(bar, scroll);
    assert(other.unscrolled_tabs() == bar.unscrolled_tabs());
    assert(other.all_tabs_fit() == bar.all_tabs_fit());
    assert(other.scroll_left_control() == bar.scroll_left_control());
    assert(other.scrolled_tabs() == bar.scrolled_tabs());
    crate::laws::lemma_bar_tabs(bar);
    crate::laws::lemma_bar_tabs(other);
    crate::laws::law_bar_follows_the_active_tab(bar);
    if !bar.mouse_chrome || !bar.all_tabs_fit() {
        let strip = bar.tabs();
        crate::laws::law_max_scroll(strip);
        let at = other.places().scroll;
        strip.lemma_hit_area(at, bar.active);
        if strip.shows(at, bar.active) {
            lemma_chosen_scroll_is_nearest(strip, bar.active, bar.current_scroll, at);
        }
    }
}

/// A bar that follows no tab stays where it was, unless that is past the point from which its
/// last tab shows; and no bar scrolls past the first such point: a tab less far, the last tab
/// would be hidden. A bar that follows a tab that is not there goes to that point.
#[verifier::rlimit(40)]
pub proof fn law_bar_stays_where_it_was(bar: Bar)
    requires
        has_room(bar),
        bar.widths.len() > 0,
        0 <= bar.current_scroll,
        0 <= bar.active,
    ensures
        ({
            let last = bar.widths.len() - 1;
            let scroll = bar.places().scroll;
            &&& 0 <= scroll <= last
            &&& !bar.follow_active ==> scroll <= bar.current_scroll
            &&& !bar.follow_active && scroll < bar.current_scroll
                ==> bar.places().tab_hit_areas[last].width > 0
            &&& bar.follow_active && bar.active > last
                ==> bar.places().tab_hit_areas[last].width > 0
            &&& scroll > 0 ==> {
                let before = scrolled_to(bar, scroll - 1).places();
                before.scroll == scroll - 1 && before.tab_hit_areas[last].width == 0
            }
        }),
{
    let last = bar.widths.len() - 1;
    let scroll = bar.places().scroll;
    let before = scrolled_to(bar, scroll - 1);
    assert(before.unscrolled_tabs() == bar.unscrolled_tabs());
    assert(before.all_tabs_fit() == bar.all_tabs_fit());
    assert(before.scroll_left_control() == bar.scroll_left_control());
    assert(before.scrolled_tabs() == bar.scrolled_tabs());
    crate::laws::lemma_bar_tabs(bar);
    crate::laws::lemma_bar_tabs(before);
    let strip = bar.tabs();
    crate::laws::law_max_scroll(strip);
    crate::laws::law_centered_scroll(strip, bar.active);
    strip.lemma_hit_area(scroll, last);
    strip.lemma_hit_area(scroll - 1, last);
    if bar.mouse_chrome && bar.all_tabs_fit() {
        assert(strip.shows(0, last));
    }
}

/// Where the tabs of a bar begin: at its left edge, or behind the control that scrolls to the left
/// where that shows.
pub open spec fn tabs_left(bar: Bar) -> int {
    if bar.places().scroll_left_hit_area.width > 0 {
        bar.area.x + 3
    } else {
        bar.area.x as int
    }
}

/// Where the tabs of a bar end: at its right edge, or so that the controls behind them have their
/// columns.
pub open spec fn tabs_right(bar: Bar) -> int {
    if bar.places().scroll_left_hit_area.width > 0 {
        bar.area.x + bar.area.width - 6
    } else if bar.mouse_chrome {
        bar.area.x + bar.area.width - 3
    } else {
        bar.area.x + bar.area.width
    }
}

/// Every tab stands where it should: the first one at the left edge of the tabs, each other one
/// behind the tab before it with one column between them, with as many columns as it wants, one at
/// least, or as are left. It takes one row. Tabs before the first one do not show, nor do those
/// for which no column is left.
#[verifier::rlimit(40)]
pub proof fn law_every_tab_stands_where_it_should(bar: Bar, idx: int)
    requires
        has_room(bar),
        bar.area.y < u16::MAX,
        0 <= bar.current_scroll,
        0 <= bar.active,
        0 <= idx < bar.widths.len(),
    ensures
        ({
            let tabs = bar.places().tab_hit_areas;
            let scroll = bar.places().scroll;
            let wanted = max(bar.widths[idx] as int, 1);
            let left = if idx == scroll {
                tabs_left(bar)
            } else {
                tabs[idx - 1].x + max(bar.widths[idx - 1] as int, 1) + 1
            };
            &&& tabs.len() == bar.widths.len()
            &&& idx < scroll ==> tabs[idx].width == 0
            &&& idx > scroll && tabs[idx - 1].width == 0 ==> tabs[idx].width == 0
            &&& idx == scroll || idx > scroll && tabs[idx - 1].width > 0 ==> {
                &&& tabs[idx].width == max(min(wanted, tabs_right(bar) - left), 0)
                &&& tabs[idx].width > 0 ==> tabs[idx].x == left && tabs[idx].y == bar.area.y
                    && tabs[idx].height == 1
            }
        }),
{
    crate::laws::lemma_bar_tabs(bar);
    let strip = bar.tabs();
    let scroll = bar.places().scroll;
    strip.lemma_hit_area(scroll, idx);
    strip.lemma_hit_area(scroll, idx - 1);
    if idx > scroll {
        strip.lemma_span_bounds(scroll, idx - 1);
        strip.lemma_span_bounds(scroll, idx);
    }
    crate::laws::law_max_scroll(strip);
    crate::laws::law_centered_scroll(strip, bar.active);
}

/// A bar with controls shows those that scroll exactly where its tabs would not all show in the
/// columns left of the control that opens a tab; a bar without controls shows none.
#[verifier::rlimit(40)]
pub proof fn law_bar_scrolls_only_where_it_must(bar: Bar)
    requires
        bar.area.x + bar.area.width <= u16::MAX,
        bar.area.height > 0,
        bar.area.y < u16::MAX,
        bar.area.width > 3,
    ensures
        ({
            let bare = Bar {
                mouse_chrome: false,
                area: Rect { width: (bar.area.width - 3) as u16, ..bar.area },
                ..scrolled_to(bar, 0)
            };
            let all_show = forall|idx: int|
                0 <= idx < bar.widths.len() ==> (#[trigger] bare.places().tab_hit_areas[idx]).width
                    > 0;
            &&& bar.mouse_chrome ==> (bar.places().scroll_left_hit_area.width > 0 <==> !all_show)
            &&& bar.mouse_chrome ==> (bar.places().scroll_right_hit_area.width > 0 <==> !all_show)
            &&& bar.mouse_chrome && all_show ==> bar.places().scroll == 0
            &&& !bar.mouse_chrome ==> bar.places().scroll_left_hit_area.width == 0
                && bar.places().scroll_right_hit_area.width == 0
                && bar.places().new_tab_hit_area.width == 0
        }),
{
    let bare = Bar {
        mouse_chrome: false,
        area: Rect { width: (bar.area.width - 3) as u16, ..bar.area },
        ..scrolled_to(bar, 0)
    };
    let strip = bar.unscrolled_tabs();
    let bare_strip = bare.bare_tabs();
    crate::laws::law_max_scroll(bare_strip);
    crate::laws::lemma_bar_tabs(bare);
    assert forall|idx: int| 0 <= idx < bar.widths.len() implies (strip.shows(0, idx)
        <==> #[trigger] bare_strip.shows(0, idx)) by {
        lemma_same_span(strip, bare_strip, 0, idx);
    }
    assert forall|idx: int| 0 <= idx < bar.widths.len() implies ((
    #[trigger] bare.places().tab_hit_areas[idx]).width > 0 <==> bare_strip.shows(0, idx)) by {
        bare_strip.lemma_hit_area(bare.places().scroll, idx);
    }
    if bar.all_tabs_fit() {
        assert forall|idx: int| 0 <= idx < bar.widths.len() implies (
        #[trigger] bare.places().tab_hit_areas[idx]).width > 0 by {
            assert(strip.shows(0, idx));
        }
    } else {
        let idx = choose|idx: int|
            0 <= idx < bar.widths.len() && !#[trigger] strip.shows(0, idx);
        assert(!bare_strip.shows(0, idx));
        assert(!(bare.places().tab_hit_areas[idx].width > 0));
    }
    if bar.mouse_chrome && !bar.all_tabs_fit() {
        Bar::lemma_trailing_bounds(bar.scrolled_tabs(), bar.scroll_in(bar.scrolled_tabs()));
    }
}

proof fn lemma_same_span(a: Strip, b: Strip, from: int, to: int)
    requires
        a.widths == b.widths,
    ensures
        a.span(from, to) == b.span(from, to),
    decreases to - from,
{
    if from < to {
        lemma_same_span(a, b, from, to - 1);
    }
}

/// The controls follow the tabs: behind the last tab that shows comes the control that scrolls to
/// the right, if the bar scrolls, and then the control that opens a tab, each with three columns.
#[verifier::rlimit(40)]
pub proof fn law_controls_follow_the_tabs(bar: Bar, idx: int)
    requires
        has_room(bar),
        bar.mouse_chrome,
        0 <= idx < bar.widths.len(),
        bar.places().tab_hit_areas[idx].width > 0,
        forall|later: int|
            idx < later < bar.widths.len() ==> (
            #[trigger] bar.places().tab_hit_areas[later]).width == 0,
    ensures
        ({
            let places = bar.places();
            let end = places.tab_hit_areas[idx].x + places.tab_hit_areas[idx].width;
            &&& places.new_tab_hit_area.width == 3
            &&& places.new_tab_hit_area.y == bar.area.y && places.new_tab_hit_area.height == 1
            &&& if places.scroll_left_hit_area.width > 0 {
                &&& places.scroll_left_hit_area == (Rect {
                    x: bar.area.x,
                    y: bar.area.y,
                    width: 3,
                    height: 1,
                })
                &&& places.scroll_right_hit_area == (Rect {
                    x: end as u16,
                    y: bar.area.y,
                    width: 3,
                    height: 1,
                })
                &&& places.new_tab_hit_area.x == end + 3
            } else {
                places.new_tab_hit_area.x == end
            }
        }),
{
    crate::laws::lemma_bar_tabs(bar);
    let tabs = bar.places().tab_hit_areas;
    assert(Rect::is_last_visible(tabs, idx));
    crate::laws::lemma_last_visible(tabs, idx);
    bar.tabs().lemma_hit_area(bar.places().scroll, idx);
}

/// The workspace of the application that shows is `ws`.
pub open spec fn shows_workspace(app: AppState, ws: Workspace) -> bool {
    app.active matches Some(i) && i < app.workspaces@.len() && app.workspaces@[i as int] == ws
}

/// What is painted is the bar of the active workspace, and of no other; where no workspace is
/// active, or the bar has no cells, nothing is.
pub proof fn law_active_workspace_is_painted(app: AppState, area: Rect)
    ensures
        app.active matches Some(i) ==> i < app.workspaces@.len() ==> {
            &&& app.active_workspace() == Some(app.workspaces@[i as int])
            &&& area.width > 0 && area.height > 0 ==> app.tab_bar_paints(area)
                == app.workspace_paints(app.workspaces@[i as int], area)
        },
        app.active is None || app.active->0 >= app.workspaces@.len() || area.width == 0
            || area.height == 0 ==> app.tab_bar_paints(area).len() == 0,
{
}

/// The step, if there is one, is among the given ones.
pub open spec fn held(paints: Seq<PaintLook>, step: Option<PaintLook>) -> bool {
    step matches Some(paint) ==> paints.contains(paint)
}

proof fn lemma_held_here(ahead: Seq<PaintLook>, step: Option<PaintLook>)
    ensures
        held(ahead + PaintLook::steps(step), step),
{
    if let Some(paint) = step {
        assert((ahead + PaintLook::steps(step))[ahead.len() as int] == paint);
    }
}

proof fn lemma_held_on(ahead: Seq<PaintLook>, more: Seq<PaintLook>, step: Option<PaintLook>)
    requires
        held(ahead, step),
    ensures
        held(ahead + more, step),
{
    if let Some(paint) = step {
        let i = choose|i: int| 0 <= i < ahead.len() && ahead[i] == paint;
        assert((ahead + more)[i] == paint);
    }
}

/// The steps of painting hold everything that makes up the bar.
proof fn lemma_steps_hold(app: AppState, ws: Workspace, area: Rect)
    ensures
        app.workspace_paints(ws, area).len() > 0,
        app.workspace_paints(ws, area)[0] == app.background(area),
        held(app.workspace_paints(ws, area), app.left_button()),
        held(app.workspace_paints(ws, area), app.right_button(ws)),
        held(app.workspace_paints(ws, area), app.drop_mark(ws, area)),
        held(app.workspace_paints(ws, area), app.new_tab_button()),
        held(app.workspace_paints(ws, area), app.left_ellipsis(area)),
        held(app.workspace_paints(ws, area), app.right_ellipsis(ws, area)),
{
    let count = min(ws.tabs@.len() as int, app.view.tab_hit_areas@.len() as int);
    let p0 = seq![app.background(area)];
    let left_button = PaintLook::steps(app.left_button());
    let right_button = PaintLook::steps(app.right_button(ws));
    let lines = app.tab_lines(ws, count);
    let drop_mark = PaintLook::steps(app.drop_mark(ws, area));
    let new_tab = PaintLook::steps(app.new_tab_button());
    let left = PaintLook::steps(app.left_ellipsis(area));
    let right = PaintLook::steps(app.right_ellipsis(ws, area));
    let p1 = p0 + left_button;
    let p2 = p1 + right_button;
    let p3 = p2 + lines;
    let p4 = p3 + drop_mark;
    let p5 = p4 + new_tab;
    let p6 = p5 + left;
    lemma_held_here(p0, app.left_button());
    lemma_held_on(p1, right_button, app.left_button());
    lemma_held_on(p2, lines, app.left_button());
    lemma_held_on(p3, drop_mark, app.left_button());
    lemma_held_on(p4, new_tab, app.left_button());
    lemma_held_on(p5, left, app.left_button());
    lemma_held_on(p6, right, app.left_button());
    lemma_held_here(p1, app.right_button(ws));
    lemma_held_on(p2, lines, app.right_button(ws));
    lemma_held_on(p3, drop_mark, app.right_button(ws));
    lemma_held_on(p4, new_tab, app.right_button(ws));
    lemma_held_on(p5, left, app.right_button(ws));
    lemma_held_on(p6, right, app.right_button(ws));
    lemma_held_here(p3, app.drop_mark(ws, area));
    lemma_held_on(p4, new_tab, app.drop_mark(ws, area));
    lemma_held_on(p5, left, app.drop_mark(ws, area));
    lemma_held_on(p6, right, app.drop_mark(ws, area));
    lemma_held_here(p4, app.new_tab_button());
    lemma_held_on(p5, left, app.new_tab_button());
    lemma_held_on(p6, right, app.new_tab_button());
    lemma_held_here(p5, app.left_ellipsis(area));
    lemma_held_on(p6, right, app.left_ellipsis(area));
    lemma_held_here(p6, app.right_ellipsis(ws, area));
}

/// The lines of the tabs are among the steps of painting.
proof fn lemma_tab_line_held(app: AppState, ws: Workspace, area: Rect, idx: int)
    requires
        0 <= idx < ws.tabs@.len(),
        idx < app.view.tab_hit_areas@.len(),
        app.tab_line(ws, idx) is Some,
    ensures
        app.workspace_paints(ws, area).contains(app.tab_line(ws, idx)->0),
{
    let count = min(ws.tabs@.len() as int, app.view.tab_hit_areas@.len() as int);
    let lines = app.tab_lines(ws, count);
    let at = crate::laws::lemma_place_of_tab_line(app, ws, count, idx);
    crate::laws::lemma_order(app, ws, area, lines);
    let ahead = crate::laws::steps_ahead(app, ws, area).len() as int;
    assert(app.workspace_paints(ws, area)[ahead + at] == lines[at]);
}

/// A tab that is dragged within the active workspace is marked where it would go, whichever tab it
/// would come before: a line in the accent color in the first row of the bar, left of its right
/// edge.
pub proof fn law_drop_is_marked(app: AppState, area: Rect, ws_idx: usize, insert_idx: usize)
    requires
        app.drag == Some(
            DragState { target: DragTarget::TabReorder { ws_idx, insert_idx: Some(insert_idx) } },
        ),
        app.active == Some(ws_idx),
        ws_idx < app.workspaces@.len(),
        area.width > 0,
        area.height > 0,
    ensures
        app.view.drop_indicator_x(
            app.workspaces@[ws_idx as int].tabs@.len() as int,
            insert_idx as int,
        ) matches Some(x) ==> app.tab_bar_paints(area).contains(
            (PaintLook::Mark {
                x: min(x, area.x + area.width - 1),
                y: area.y as int,
                symbol: seq!['│'],
                fg: app.palette.accent,
            }),
        ),
{
    lemma_steps_hold(app, app.workspaces@[ws_idx as int], area);
}

/// Nothing is marked as the place of a dragged tab where no tab of the active workspace is
/// dragged to a place.
pub proof fn law_only_a_drag_is_marked(app: AppState, area: Rect, i: int)
    requires
        !(app.drag matches Some(drag)
            && drag.target matches DragTarget::TabReorder { ws_idx, insert_idx: Some(_) }
            && app.active == Some(ws_idx)),
        0 <= i < app.tab_bar_paints(area).len(),
    ensures
        app.tab_bar_paints(area)[i] matches PaintLook::Mark { symbol, .. } ==> symbol
            != seq!['│'],
{
    let ws = app.workspaces@[app.active->0 as int];
    app.lemma_steps(ws, area);
    assert(app.is_step(app.tab_bar_paints(area)[i], ws, area));
    assert(seq!['…'][0] != seq!['│'][0]);
}

/// The mark of a dragged tab shows in its cell, when the bar has been painted, unless the control
/// that opens a tab covers the cell or a mark for hidden tabs goes into it.
#[verifier::rlimit(40)]
pub proof fn law_drop_mark_shows(
    app: AppState,
    area: Rect,
    ws_idx: usize,
    insert_idx: usize,
    screen: Rect,
    cells: Map<(u16, u16), CellLook>,
    x: u16,
)
    requires
        app.drag == Some(
            DragState { target: DragTarget::TabReorder { ws_idx, insert_idx: Some(insert_idx) } },
        ),
        app.active == Some(ws_idx),
        ws_idx < app.workspaces@.len(),
        area.width > 0,
        area.height > 0,
        app.columns_fit(area),
        cells.contains_key((x, area.y)),
        app.view.drop_indicator_x(
            app.workspaces@[ws_idx as int].tabs@.len() as int,
            insert_idx as int,
        ) matches Some(column) && x == min(column, area.x + area.width - 1),
        !(app.mouse_capture && app.view.new_tab_hit_area.has_cell(x as int, area.y as int)),
        forall|i: int|
            0 <= i < app.tab_bar_paints(area).len() && (#[trigger] app.tab_bar_paints(area)[i]
                matches PaintLook::Mark { symbol, .. } && symbol == seq!['…'])
                ==> !app.tab_bar_paints(area)[i].touches(x as int, area.y as int),
    ensures
        ({
            let after = PaintLook::apply_all(app.tab_bar_paints(area), screen, cells)[(x, area.y)];
            after.symbol == seq!['│'] && after.fg == app.palette.accent
        }),
{
    let ws = app.workspaces@[ws_idx as int];
    let paints = app.tab_bar_paints(area);
    let count = min(ws.tabs@.len() as int, app.view.tab_hit_areas@.len() as int);
    let p3 = seq![app.background(area)] + PaintLook::steps(app.left_button()) + PaintLook::steps(
        app.right_button(ws),
    ) + app.tab_lines(ws, count);
    let at = p3.len() as int;
    assert(paints == p3 + PaintLook::steps(app.drop_mark(ws, area)) + PaintLook::steps(
        app.new_tab_button(),
    ) + PaintLook::steps(app.left_ellipsis(area)) + PaintLook::steps(
        app.right_ellipsis(ws, area),
    ));
    assert(app.drop_mark(ws, area) == Some(paints[at]));
    app.lemma_steps(ws, area);
    assert forall|i: int| 0 <= i < paints.len() implies crate::laws::marks_a_coordinate(
        #[trigger] paints[i],
    ) by {
        assert(app.is_step(paints[i], ws, area));
    }
    assert forall|i: int| at < i < paints.len() implies !(#[trigger] paints[i]).touches(
        x as int,
        area.y as int,
    ) by {
        if paints[i] is Line {
            assert(app.new_tab_button() == Some(paints[i]));
        } else {
            assert(app.left_ellipsis(area) == Some(paints[i]) || app.right_ellipsis(ws, area)
                == Some(paints[i]));
        }
    }
    crate::laws::lemma_later_steps_keep(
        paints,
        at + 1,
        paints.len() as int,
        screen,
        cells,
        x,
        area.y,
    );
}

/// Some tab shows.
pub open spec fn some_show(rects: Seq<Rect>) -> bool {
    exists|v: int| 0 <= v < rects.len() && (#[trigger] rects[v]).width > 0
}

/// Tab `v` shows, and none behind it does.
pub open spec fn is_last_shown(rects: Seq<Rect>, v: int) -> bool {
    &&& 0 <= v < rects.len() && rects[v].width > 0
    &&& forall|later: int| v < later < rects.len() ==> (#[trigger] rects[later]).width == 0
}

proof fn lemma_shown(rects: Seq<Rect>)
    requires
        some_show(rects),
    ensures
        Rect::first_visible(rects) is Some,
        Rect::last_visible(rects) is Some,
        Rect::is_first_visible(rects, Rect::first_visible(rects)->0),
        is_last_shown(rects, Rect::last_visible(rects)->0),
{
    let v = choose|v: int| 0 <= v < rects.len() && (#[trigger] rects[v]).width > 0;
    crate::laws::lemma_first_visible(rects, v);
    crate::laws::lemma_last_visible(rects, v);
}

/// Dropping a tab before the first one is marked at the left edge of that, where it shows, else
/// behind the control that scrolls to the left.
pub proof fn law_drop_before_the_first_tab(view: ViewState, count: int)
    requires
        some_show(view.tab_hit_areas@),
    ensures
        view.drop_indicator_x(count, 0) == Some(
            if view.tab_hit_areas@[0].width > 0 {
                view.tab_hit_areas@[0].x as int
            } else {
                view.tab_scroll_left_hit_area.x + view.tab_scroll_left_hit_area.width
            },
        ),
{
    lemma_shown(view.tab_hit_areas@);
}

/// Dropping a tab before another one that shows is marked in the column left of that.
pub proof fn law_drop_before_a_tab(view: ViewState, count: int, idx: int)
    requires
        0 < idx < view.tab_hit_areas@.len(),
        view.tab_hit_areas@[idx].width > 0,
    ensures
        view.drop_indicator_x(count, idx) == Some(max(view.tab_hit_areas@[idx].x - 1, 0)),
{
    lemma_shown(view.tab_hit_areas@);
}

/// Dropping a tab behind all others is marked right behind the last one where that shows, else
/// left of the control that scrolls to the right.
pub proof fn law_drop_behind_all_tabs(view: ViewState, count: int, insert_idx: int, v: int)
    requires
        0 < insert_idx,
        count <= insert_idx,
        insert_idx < view.tab_hit_areas@.len() ==> view.tab_hit_areas@[insert_idx].width == 0,
        is_last_shown(view.tab_hit_areas@, v),
    ensures
        view.drop_indicator_x(count, insert_idx) == Some(
            if v + 1 >= count {
                view.tab_hit_areas@[v].x + view.tab_hit_areas@[v].width
            } else {
                max(view.tab_scroll_right_hit_area.x - 1, 0)
            },
        ),
{
    lemma_shown(view.tab_hit_areas@);
}

/// Dropping a tab before one that does not show is not marked, nor is any drop where no tab shows.
pub proof fn law_drop_out_of_sight(view: ViewState, count: int, insert_idx: int)
    requires
        !some_show(view.tab_hit_areas@) || 0 < insert_idx < count && (insert_idx
            < view.tab_hit_areas@.len() ==> view.tab_hit_areas@[insert_idx].width == 0),
    ensures
        view.drop_indicator_x(count, insert_idx) is None,
{
    if !some_show(view.tab_hit_areas@) {
        if let Some(v) = Rect::first_visible(view.tab_hit_areas@) {
            assert(view.tab_hit_areas@[v].width > 0);
        }
    }
}

/// Tabs behind the last one that shows are hidden: one of `count` tabs shows, and none of those
/// behind it.
pub open spec fn hides_behind(rects: Seq<Rect>, count: int) -> bool {
    exists|v: int| #[trigger] is_last_shown(rects, v) && v + 1 < count
}

proof fn lemma_hides_behind(app: AppState, ws: Workspace)
    ensures
        app.hides_right(ws) == hides_behind(app.view.tab_hit_areas@, ws.tabs@.len() as int),
        app.hides_left() == (some_show(app.view.tab_hit_areas@)
            && app.view.tab_hit_areas@[0].width == 0),
{
    let rects = app.view.tab_hit_areas@;
    if some_show(rects) {
        lemma_shown(rects);
        if hides_behind(rects, ws.tabs@.len() as int) {
            let v = choose|v: int| #[trigger] is_last_shown(rects, v) && v + 1 < ws.tabs@.len();
            assert(v == Rect::last_visible(rects)->0);
        }
    } else {
        if let Some(v) = Rect::first_visible(rects) {
            assert(rects[v].width > 0);
        }
        if let Some(v) = Rect::last_visible(rects) {
            assert(rects[v].width > 0);
        }
    }
}

/// Hidden tabs are marked: on the left behind the control that scrolls there, or at the left edge
/// of the bar where that cannot be used; on the right in front of the control that scrolls there,
/// or at the right edge.
pub proof fn law_hidden_tabs_are_marked(app: AppState, ws: Workspace, area: Rect)
    requires
        shows_workspace(app, ws),
        area.width > 0,
        area.height > 0,
        some_show(app.view.tab_hit_areas@),
    ensures
        ({
            let left = app.view.tab_scroll_left_hit_area;
            let right = app.view.tab_scroll_right_hit_area;
            let left_x = if app.mouse_capture && left.width > 0 {
                left.x + left.width
            } else {
                area.x as int
            };
            let right_x = if app.mouse_capture && right.width > 0 {
                max(right.x - 1, 0)
            } else {
                area.x + area.width - 1
            };
            &&& app.view.tab_hit_areas@[0].width == 0 && left_x < area.x + area.width
                ==> app.tab_bar_paints(area).contains(
                (PaintLook::Mark {
                    x: left_x,
                    y: area.y as int,
                    symbol: seq!['…'],
                    fg: app.palette.overlay0,
                }),
            )
            &&& hides_behind(app.view.tab_hit_areas@, ws.tabs@.len() as int) && area.x <= right_x
                < area.x + area.width ==> app.tab_bar_paints(area).contains(
                (PaintLook::Mark {
                    x: right_x,
                    y: area.y as int,
                    symbol: seq!['…'],
                    fg: app.palette.overlay0,
                }),
            )
        }),
{
    lemma_hides_behind(app, ws);
    lemma_steps_hold(app, ws, area);
}

/// Nothing is marked as hidden where the first tab shows and no tab behind the last one that shows
/// is hidden.
pub proof fn law_only_hidden_tabs_are_marked(app: AppState, ws: Workspace, area: Rect, i: int)
    requires
        shows_workspace(app, ws),
        app.view.tab_hit_areas@.len() > 0 ==> app.view.tab_hit_areas@[0].width > 0,
        !hides_behind(app.view.tab_hit_areas@, ws.tabs@.len() as int),
        0 <= i < app.tab_bar_paints(area).len(),
    ensures
        app.tab_bar_paints(area)[i] matches PaintLook::Mark { symbol, .. } ==> symbol
            != seq!['…'],
{
    lemma_hides_behind(app, ws);
    app.lemma_steps(ws, area);
    assert(app.is_step(app.tab_bar_paints(area)[i], ws, area));
    assert(seq!['…'][0] != seq!['│'][0]);
}

/// Everything as it was, but for the given colors and weight.
pub open spec fn style_of(fg: Option<Color>, bg: Option<Color>, weight: Weight) -> TextStyle {
    TextStyle { fg, bg, weight }
}

/// A line of one text in one style.
pub open spec fn one_text(text: Seq<char>, style: TextStyle, rect: Rect) -> PaintLook {
    PaintLook::Line {
        spans: seq![SpanLook { text, style: style_of(None, None, Weight::Normal) }],
        style,
        rect,
    }
}

/// The controls that the pointer can use are painted: those that scroll stand out where there is
/// something to scroll to, and are pale and dim otherwise.
pub proof fn law_controls_are_painted(app: AppState, ws: Workspace, area: Rect)
    requires
        shows_workspace(app, ws),
        area.width > 0,
        area.height > 0,
        app.mouse_capture,
    ensures
        ({
            let p = app.palette;
            let lively = style_of(Some(p.overlay1), Some(p.surface0), Weight::Normal);
            let pale = style_of(Some(p.overlay0), Some(p.surface0), Weight::Dim);
            let left = app.view.tab_scroll_left_hit_area;
            let right = app.view.tab_scroll_right_hit_area;
            let new_tab = app.view.new_tab_hit_area;
            let paints = app.tab_bar_paints(area);
            &&& left.width > 0 ==> paints.contains(
                one_text(
                    seq![' ', '<', ' '],
                    if app.tab_scroll > 0 {
                        lively
                    } else {
                        pale
                    },
                    left,
                ),
            )
            &&& right.width > 0 ==> paints.contains(
                one_text(
                    seq![' ', '>', ' '],
                    if hides_behind(app.view.tab_hit_areas@, ws.tabs@.len() as int) {
                        lively
                    } else {
                        pale
                    },
                    right,
                ),
            )
            &&& new_tab.width > 0 ==> paints.contains(
                one_text(
                    seq![' ', '+', ' '],
                    style_of(Some(p.overlay1), None, Weight::Normal),
                    new_tab,
                ),
            )
        }),
{
    lemma_hides_behind(app, ws);
    lemma_steps_hold(app, ws, area);
}

/// Where the pointer cannot be used no control is painted: every line is that of the whole bar, or
/// that of a tab.
pub proof fn law_no_controls_without_pointer(app: AppState, ws: Workspace, area: Rect, i: int)
    requires
        shows_workspace(app, ws),
        !app.mouse_capture,
        0 <= i < app.tab_bar_paints(area).len(),
    ensures
        app.tab_bar_paints(area)[i] matches PaintLook::Line { spans, rect, .. } ==> {
            ||| rect == area && forall|j: int|
                0 <= j < spans[0].text.len() ==> #[trigger] spans[0].text[j] == ' '
            ||| exists|idx: int|
                0 <= idx < ws.tabs@.len() && idx < app.view.tab_hit_areas@.len() && rect == (
                #[trigger] app.view.tab_hit_areas@[idx]) && rect.width > 0
        },
{
    app.lemma_steps(ws, area);
    assert(app.is_step(app.tab_bar_paints(area)[i], ws, area));
}

/// Every tab that shows is painted over its cells, with the line of its label and in its style:
/// the active one on the accent color, bold where the user named it; the others on the surface,
/// pale and dim where the user did not name them.
pub proof fn law_tabs_are_painted(app: AppState, ws: Workspace, area: Rect, idx: int)
    requires
        shows_workspace(app, ws),
        area.width > 0,
        area.height > 0,
        0 <= idx < ws.tabs@.len(),
        idx < app.view.tab_hit_areas@.len(),
        app.view.tab_hit_areas@[idx].width > 0,
    ensures
        ({
            let p = app.palette;
            let named = ws.tabs@[idx].custom_name is Some;
            let rect = app.view.tab_hit_areas@[idx];
            let style = if idx == ws.active_tab {
                style_of(
                    Some(p.panel_contrast_fg),
                    Some(p.accent),
                    if named {
                        Weight::Bold
                    } else {
                        Weight::Normal
                    },
                )
            } else if named {
                style_of(Some(p.overlay1), Some(p.surface0), Weight::Normal)
            } else {
                style_of(Some(p.overlay0), Some(p.surface0), Weight::Dim)
            };
            app.tab_bar_paints(area).contains(
                (PaintLook::Line {
                    spans: app.chrome_ctx().label(ws, idx).spans(style, p, rect.width as int),
                    style,
                    rect,
                }),
            )
        }),
{
    lemma_tab_line_held(app, ws, area, idx);
}

/// Tabs are drawn in these styles.
pub proof fn law_tab_styles(p: Palette, tab: Tab)
    ensures
        tab.given_name() == match tab.custom_name {
            Some(name) => Some(name@),
            None => None,
        },
        p.tab_style(true, false) == style_of(
            Some(p.panel_contrast_fg),
            Some(p.accent),
            Weight::Bold,
        ),
        p.tab_style(true, true) == style_of(
            Some(p.panel_contrast_fg),
            Some(p.accent),
            Weight::Normal,
        ),
        p.tab_style(false, false) == style_of(Some(p.overlay1), Some(p.surface0), Weight::Normal),
        p.tab_style(false, true) == style_of(Some(p.overlay0), Some(p.surface0), Weight::Dim),
{
}

/// The line of a tab is a space, the glyph and a space where there is a glyph, and the body with
/// spaces behind it that fill the tab. The glyph is drawn as the tab is, but in its own color; the
/// rest has no style of its own.
pub proof fn law_line_of_a_tab(label: LabelLook, style: TextStyle, p: Palette, width: int)
    requires
        0 <= width,
    ensures
        ({
            let spans = label.spans(style, p, width);
            let ahead = match label.status {
                Some(glyph) => 2 + glyph.symbol.len() as int,
                None => 1,
            };
            let plain = style_of(None, None, Weight::Normal);
            let last = spans.last();
            &&& spans[0] == (SpanLook { text: seq![' '], style: plain })
            &&& match label.status {
                Some(glyph) => {
                    &&& spans.len() == 4
                    &&& spans[1].text == glyph.symbol
                    &&& spans[1].style.bg == style.bg
                    &&& spans[1].style.weight == style.weight
                    &&& spans[1].style.fg == Some(p.state_color(glyph.state, glyph.seen))
                    &&& spans[2] == (SpanLook { text: seq![' '], style: plain })
                },
                None => spans.len() == 2,
            }
            &&& last.style == plain
            &&& last.text.len() == max(label.body.len() as int, width - ahead)
            &&& label.body.is_prefix_of(last.text)
            &&& forall|j: int|
                label.body.len() <= j < last.text.len() ==> #[trigger] last.text[j] == ' '
        }),
{
}

/// The labels are made for the settings and the terminals of the application.
pub proof fn law_labels_are_made_for_the_application(app: AppState)
    ensures
        *app.chrome_ctx().terminals == app.terminals,
        app.chrome_ctx().auto_name == app.tab_auto_name,
        app.chrome_ctx().auto_name_max_width == app.tab_auto_name_max_width,
        app.chrome_ctx().status == app.show_tab_status,
        app.chrome_ctx().indicators == app.status_indicators,
{
}

/// Only the first step lies behind everything.
#[verifier::rlimit(40)]
proof fn lemma_one_background(app: AppState, ws: Workspace, area: Rect, i: int)
    requires
        1 <= i < app.workspace_paints(ws, area).len(),
    ensures
        ({
            let paint = app.workspace_paints(ws, area)[i];
            ||| app.left_button() == Some(paint)
            ||| app.right_button(ws) == Some(paint)
            ||| app.is_tab_line(paint, ws, app.view.tab_hit_areas@.len() as int)
            ||| app.drop_mark(ws, area) == Some(paint)
            ||| app.new_tab_button() == Some(paint)
            ||| app.left_ellipsis(area) == Some(paint)
            ||| app.right_ellipsis(ws, area) == Some(paint)
        }),
{
    let count = min(ws.tabs@.len() as int, app.view.tab_hit_areas@.len() as int);
    app.lemma_tab_lines(ws, count);
    let p2 = seq![app.background(area)] + PaintLook::steps(app.left_button()) + PaintLook::steps(
        app.right_button(ws),
    );
    let lines = app.tab_lines(ws, count);
    if p2.len() <= i < p2.len() + lines.len() {
        assert(app.workspace_paints(ws, area)[i] == lines[i - p2.len()]);
        assert(app.is_tab_line(lines[i - p2.len()], ws, count));
    }
}

/// What lies between the parts of the bar is blank and has the color of the panel: when the bar
/// has been painted, so has every cell of its first row that no tab, no control and no mark has.
#[verifier::rlimit(40)]
pub proof fn law_rest_of_the_bar_is_blank(
    app: AppState,
    ws: Workspace,
    area: Rect,
    screen: Rect,
    cells: Map<(u16, u16), CellLook>,
    x: u16,
)
    requires
        shows_workspace(app, ws),
        app.columns_fit(area),
        cells.contains_key((x, area.y)),
        area.has_cell(x as int, area.y as int),
        screen.has_cell(x as int, area.y as int),
        screen.x <= area.x,
        forall|idx: int|
            0 <= idx < app.view.tab_hit_areas@.len() ==> !(
            #[trigger] app.view.tab_hit_areas@[idx]).has_cell(x as int, area.y as int),
        app.mouse_capture ==> {
            &&& !app.view.tab_scroll_left_hit_area.has_cell(x as int, area.y as int)
            &&& !app.view.tab_scroll_right_hit_area.has_cell(x as int, area.y as int)
            &&& !app.view.new_tab_hit_area.has_cell(x as int, area.y as int)
        },
        crate::laws::is_unmarked(app.tab_bar_paints(area), x as int, area.y as int),
    ensures
        ({
            let before = cells[(x, area.y)];
            let after = PaintLook::apply_all(app.tab_bar_paints(area), screen, cells)[(x, area.y)];
            &&& after.symbol == seq![' ']
            &&& after.bg == app.palette.panel_bg
            &&& after.fg == before.fg
            &&& after.bold == before.bold
            &&& after.dim == before.dim
        }),
{
    let paints = app.tab_bar_paints(area);
    app.lemma_steps(ws, area);
    lemma_steps_hold(app, ws, area);
    assert forall|i: int| 0 <= i < paints.len() implies crate::laws::marks_a_coordinate(
        #[trigger] paints[i],
    ) by {
        assert(app.is_step(paints[i], ws, area));
    }
    assert forall|i: int| 1 <= i < paints.len() implies !(#[trigger] paints[i]).touches(
        x as int,
        area.y as int,
    ) by {
        lemma_one_background(app, ws, area, i);
        assert(app.is_step(paints[i], ws, area));
    }
    crate::laws::lemma_later_steps_keep(
        paints,
        1,
        paints.len() as int,
        screen,
        cells,
        x,
        area.y,
    );
    let spans = seq![
        SpanLook { text: crate::text::spaces(area.width as int), style: TextStyle::unchanged() },
    ];
    assert(crate::laws::all_plain(spans));
    crate::laws::law_plain_text_is_drawn_as_it_stands(spans, area.room_in(screen), x - area.x);
    reveal_with_fuel(crate::laws::letters_of, 2);
    reveal_with_fuel(PaintLook::apply_first, 2);
}

/// The number that a decimal numeral stands for.
pub open spec fn numeral_value(text: Seq<char>) -> int
    decreases text.len(),
{
    if text.len() == 0 {
        0
    } else {
        10 * numeral_value(text.drop_last()) + (text.last() as int - 48)
    }
}

/// The text is a decimal numeral without zeros in front.
pub open spec fn is_numeral(text: Seq<char>) -> bool {
    &&& text.len() > 0
    &&& forall|i: int| 0 <= i < text.len() ==> 48 <= (#[trigger] text[i]) as int <= 57
    &&& text.len() > 1 ==> text[0] as int != 48
}

/// The numeral of a number stands for that number.
pub proof fn law_numeral_stands_for_its_number(value: nat)
    ensures
        is_numeral(crate::text::decimal(value)),
        numeral_value(crate::text::decimal(value)) == value,
        crate::text::decimal(value)[0] as int == 48 ==> value == 0,
    decreases value,
{
    let text = crate::text::decimal(value);
    if value < 10 {
        assert(text.drop_last() =~= Seq::empty());
        assert(numeral_value(text.drop_last()) == 0);
    } else {
        law_numeral_stands_for_its_number(value / 10);
        assert(text.drop_last() =~= crate::text::decimal(value / 10));
    }
}

/// The title that a program has set for the terminal of the tab's focused pane.
pub open spec fn has_title(tab: Tab, terminals: Map<u64, TerminalState>, title: Seq<char>) -> bool {
    &&& tab.focused_pane < tab.panes@.len()
    &&& terminals.contains_key(tab.panes@[tab.focused_pane as int].terminal)
    &&& terminals[tab.panes@[tab.focused_pane as int].terminal].terminal_title matches Some(set)
        && set@ == title
}

/// A tab that the user gave a name goes by that, all of it, in the bar and outside it.
pub proof fn law_tab_goes_by_its_given_name(
    ctx: TabChromeCtx<'_>,
    ws: Workspace,
    idx: int,
    name: String,
)
    requires
        0 <= idx < ws.tabs@.len(),
        ws.tabs@[idx].custom_name == Some(name),
    ensures
        ctx.name(ws, idx) == name@,
        ws.display_name(idx) == Some(name@),
{
}

/// A tab without a given name goes by the title of the terminal in its focused pane, where the bar
/// is set up so: what is left of the title behind its animation, cut to the width that is set up.
pub proof fn law_tab_goes_by_its_focused_title(
    ctx: TabChromeCtx<'_>,
    ws: Workspace,
    idx: int,
    title: Seq<char>,
)
    requires
        0 <= idx < ws.tabs@.len(),
        ws.tabs@[idx].custom_name is None,
        ctx.auto_name == TabAutoNameConfig::TerminalTitle,
        has_title(ws.tabs@[idx], ctx.terminals@, title),
        crate::text::settled(title).len() > 0,
    ensures
        ws.tabs@[idx].focused_title(ctx.terminals@) == Some(crate::text::settled(title)),
        ctx.name(ws, idx) == crate::text::truncated(
            crate::text::settled(title),
            ctx.auto_name_max_width as int,
        ),
{
}

/// A tab without a given name goes by its number, counted from one, where the bar is not set up
/// for titles or there is none: no pane has the focus, its terminal is not known, has no title, or
/// one of animation alone. Outside the bar it always does.
pub proof fn law_tab_goes_by_its_number(ctx: TabChromeCtx<'_>, ws: Workspace, idx: int)
    requires
        0 <= idx,
        idx < ws.tabs@.len() ==> ws.tabs@[idx].custom_name is None,
    ensures
        idx >= ws.tabs@.len() || ctx.auto_name != TabAutoNameConfig::TerminalTitle || (forall|
            title: Seq<char>,
        | #[trigger]
            has_title(ws.tabs@[idx], ctx.terminals@, title) ==> crate::text::settled(title).len()
                == 0) ==> is_numeral(ctx.name(ws, idx)) && numeral_value(ctx.name(ws, idx)) == idx
            + 1,
        idx < ws.tabs@.len() ==> (ws.display_name(idx) matches Some(name) && is_numeral(name)
            && numeral_value(name) == idx + 1),
        idx >= ws.tabs@.len() ==> ws.display_name(idx) is None,
{
    law_numeral_stands_for_its_number((idx + 1) as nat);
    if idx < ws.tabs@.len() {
        let tab = ws.tabs@[idx];
        if tab.focused_pane < tab.panes@.len() && ctx.terminals@.contains_key(
            tab.panes@[tab.focused_pane as int].terminal,
        ) {
            if let Some(set) =
                ctx.terminals@[tab.panes@[tab.focused_pane as int].terminal].terminal_title {
                assert(has_title(tab, ctx.terminals@, set@));
            }
        }
    }
}

/// Only the focused pane names a tab: two tabs at the same place go by the same name if the user
/// gave neither a name and their focused panes show terminals with the same title, whatever the
/// other panes show.
pub proof fn law_only_the_focused_pane_names_a_tab(
    ctx: TabChromeCtx<'_>,
    ws: Workspace,
    other_ctx: TabChromeCtx<'_>,
    other: Workspace,
    idx: int,
    title: Seq<char>,
)
    requires
        0 <= idx < ws.tabs@.len(),
        idx < other.tabs@.len(),
        ws.tabs@[idx].custom_name is None,
        other.tabs@[idx].custom_name is None,
        ctx.auto_name == other_ctx.auto_name,
        ctx.auto_name_max_width == other_ctx.auto_name_max_width,
        has_title(ws.tabs@[idx], ctx.terminals@, title),
        has_title(other.tabs@[idx], other_ctx.terminals@, title),
    ensures
        ctx.name(ws, idx) == other_ctx.name(other, idx),
{
}

/// Of a title only what stands in front of its first other character is dropped: braille
/// patterns, stars and spaces.
pub proof fn law_only_animation_is_dropped(title: Seq<char>)
    ensures
        exists|from: int|
            {
                &&& 0 <= from <= title.len()
                &&& crate::text::settled(title) == #[trigger] title.skip(from)
                &&& forall|i: int| 0 <= i < from ==> is_dropped(#[trigger] title[i])
                &&& from < title.len() ==> !is_dropped(title[from])
            },
    decreases title.len(),
{
    if title.len() > 0 && is_dropped(title[0]) {
        let rest = title.drop_first();
        law_only_animation_is_dropped(rest);
        let from = choose|from: int|
            {
                &&& 0 <= from <= rest.len()
                &&& crate::text::settled(rest) == #[trigger] rest.skip(from)
                &&& forall|i: int| 0 <= i < from ==> is_dropped(#[trigger] rest[i])
                &&& from < rest.len() ==> !is_dropped(rest[from])
            };
        assert(title.skip(from + 1) =~= rest.skip(from));
        assert(crate::text::settled(title) == title.skip(from + 1));
        assert(from < rest.len() ==> title[from + 1] == rest[from]);
        assert forall|i: int| 0 <= i < from + 1 implies is_dropped(#[trigger] title[i]) by {
            if i > 0 {
                assert(rest[i - 1] == title[i]);
            }
        }
    } else {
        assert(title.skip(0) =~= title);
    }
}

/// The character is a braille pattern, a star, or a space.
pub open spec fn is_dropped(c: char) -> bool {
    0x2800 <= c as u32 <= 0x28ff || 0x2722 <= c as u32 <= 0x274b || c == ' '
}

/// A title that fits is kept. One that does not is cut so that with the mark behind it it fits,
/// and one character more would not; nothing is left where even the mark does not fit.
pub proof fn law_title_is_as_long_as_it_can_be(title: Seq<char>, max_width: int)
    ensures
        ({
            let shown = crate::text::truncated(title, max_width);
            if crate::text::display_columns(title) <= max_width {
                shown == title
            } else if crate::text::display_columns(seq!['…']) > max_width {
                shown.len() == 0
            } else {
                exists|len: int|
                    {
                        &&& 0 <= len <= title.len()
                        &&& shown == #[trigger] title.take(len) + seq!['…']
                        &&& crate::text::display_columns(shown) <= max_width
                        &&& len < title.len() ==> crate::text::display_columns(
                            title.take(len + 1) + seq!['…'],
                        ) > max_width
                    }
            }
        }),
{
    assert(title.take(0) + seq!['…'] =~= seq!['…']);
    if crate::text::display_columns(title) > max_width && crate::text::cut_fits(
        title,
        max_width,
        0,
    ) {
        crate::laws::lemma_cut_len_exists(title, max_width, 0);
        let len = choose|len: int| crate::text::is_cut_len(title, max_width, len);
        assert(crate::text::cut_fits(title, max_width, len));
        assert(crate::text::truncated(title, max_width) == title.take(len) + seq!['…']);
    }
}

/// The columns of a text are those of a span that holds it.
pub proof fn law_columns_are_those_of_a_span(text: Seq<char>)
    ensures
        text.len() > 0 ==> crate::text::display_columns(text) == crate::text::span_columns(text),
        text.len() == 0 ==> crate::text::display_columns(text) == 0,
        crate::text::display_width(text) == min(
            crate::text::display_columns(text) as int,
            65535,
        ),
{
}

/// A tab says its name, with a mark behind it exactly where the tab is zoomed; in one line, a
/// glyph stands in front with a space behind it.
pub proof fn law_tab_says_its_name(ctx: TabChromeCtx<'_>, ws: Workspace, idx: int, label: LabelLook)
    requires
        0 <= idx,
    ensures
        ctx.label(ws, idx).body == if idx < ws.tabs@.len() && ws.tabs@[idx].zoomed {
            ctx.name(ws, idx) + seq![' ', 'Z']
        } else {
            ctx.name(ws, idx)
        },
        idx >= ws.tabs@.len() ==> ctx.label(ws, idx).status is None,
        label.plain_text() == match label.status {
            Some(glyph) => glyph.symbol + seq![' '] + label.body,
            None => label.body,
        },
{
}

/// A tab wants the columns of its glyph, a space behind that, its body and four more, eight at
/// least and no more than there are coordinates; the bar is laid out for what its tabs want.
pub proof fn law_tab_wants_room_for_what_it_says(
    label: LabelLook,
    ctx: TabChromeCtx<'_>,
    ws: Workspace,
    labels: Seq<TabChromeLabel>,
)
    ensures
        ({
            let glyph_columns = match label.status {
                Some(glyph) => crate::text::display_columns(glyph.symbol) + 1,
                None => 0,
            };
            let columns: int = (glyph_columns + crate::text::display_columns(label.body)) as int;
            &&& label.content_width() == min(columns, 65535)
            &&& label.tab_width() == max(8, min(columns + 4, 65535))
        }),
        ctx.tab_widths(ws).len() == ws.tabs@.len(),
        forall|i: int|
            0 <= i < ws.tabs@.len() ==> #[trigger] ctx.tab_widths(ws)[i] == ctx.label(
                ws,
                i,
            ).tab_width(),
        LabelLook::tab_widths(labels).len() == labels.len(),
        forall|i: int|
            0 <= i < labels.len() ==> #[trigger] LabelLook::tab_widths(labels)[i]
                == labels[i]@.tab_width(),
{
}

/// How much an agent asks for attention: most where it waits for an answer that the user has not
/// seen, least where it is done and the user knows.
pub open spec fn rank(state: AgentState, seen: bool) -> int {
    if state == AgentState::Blocked {
        if seen {
            5
        } else {
            6
        }
    } else if state == AgentState::Idle {
        if seen {
            1
        } else {
            4
        }
    } else if seen {
        2
    } else {
        3
    }
}

/// An agent runs in the pane, in the given state.
pub open spec fn runs(pane: Pane, terminals: Map<u64, TerminalState>, state: AgentState) -> bool {
    &&& state != AgentState::Unknown
    &&& terminals.contains_key(pane.terminal)
    &&& terminals[pane.terminal].state == state
}

/// The agent of a tab runs in one of its panes, and none in the tab asks more for attention; a tab
/// in which an agent runs has one.
pub proof fn law_agent_of_a_tab(
    tab: Tab,
    terminals: Map<u64, TerminalState>,
    pane: int,
    state: AgentState,
)
    ensures
        0 <= pane < tab.panes@.len() && runs(tab.panes@[pane], terminals, state) ==> (
        tab.agent(terminals) matches Some(shown) && rank(state, tab.panes@[pane].seen) <= rank(
            shown.0,
            shown.1,
        )),
        tab.agent(terminals) matches Some(shown) ==> exists|i: int|
            0 <= i < tab.panes@.len() && (#[trigger] tab.panes@[i]).seen == shown.1 && runs(
                tab.panes@[i],
                terminals,
                shown.0,
            ),
{
    if tab.panes@.len() > 0 {
        crate::laws::law_tab_state_is_the_most_urgent(tab, terminals, 0);
        if 0 <= pane < tab.panes@.len() {
            crate::laws::law_tab_state_is_the_most_urgent(tab, terminals, pane);
        }
        if tab.agent(terminals) is Some {
            let i = choose|i: int|
                0 <= i < tab.panes@.len() && (#[trigger] tab.panes@[i]).agent(terminals)
                    == tab.agent(terminals);
            assert(tab.panes@[i].seen == (tab.agent(terminals)->0).1);
        }
    }
}

/// The glyph of a tab stands for its agent: it has the state of the agent and says whether the
/// user has seen it, and it is hollow exactly where the agent wants nothing.
pub proof fn law_glyph_stands_for_the_agent(ctx: TabChromeCtx<'_>, ws: Workspace, idx: int)
    requires
        0 <= idx < ws.tabs@.len(),
    ensures
        ctx.label(ws, idx).status matches Some(glyph) ==> {
            &&& ws.tabs@[idx].agent(ctx.terminals@) == Some((glyph.state, glyph.seen))
            &&& glyph.symbol == if glyph.state == AgentState::Idle && glyph.seen {
                seq!['○']
            } else {
                seq!['●']
            }
        },
{
    law_agent_of_a_tab(ws.tabs@[idx], ctx.terminals@, 0, AgentState::Idle);
}

/// Which tabs show a glyph: none, those whose agent is blocked or done and not looked at since, or
/// all that have an agent, as the bar is set up.
pub proof fn law_which_tabs_show_a_glyph(ctx: TabChromeCtx<'_>, ws: Workspace, idx: int)
    requires
        0 <= idx < ws.tabs@.len(),
    ensures
        ctx.label(ws, idx).status is Some <==> {
            &&& ws.tabs@[idx].agent(ctx.terminals@) is Some
            &&& match ctx.status {
                TabStatusConfig::Off => false,
                TabStatusConfig::Attention => {
                    let agent = ws.tabs@[idx].agent(ctx.terminals@)->0;
                    agent.0 == AgentState::Blocked || agent.0 == AgentState::Idle && !agent.1
                },
                TabStatusConfig::All => true,
            }
        },
{
}

/// Every state has its color and its glyph.
pub proof fn law_states_have_their_colors(p: Palette, dots: StatusIndicatorStyle, seen: bool)
    ensures
        p.state_color(AgentState::Blocked, seen) == p.blocked,
        p.state_color(AgentState::Working, seen) == p.working,
        p.state_color(AgentState::Idle, false) == p.done,
        p.state_color(AgentState::Idle, true) == p.idle,
        p.state_color(AgentState::Unknown, seen) == p.overlay0,
        dots.glyph(AgentState::Blocked, seen) == '●',
        dots.glyph(AgentState::Working, seen) == '●',
        dots.glyph(AgentState::Idle, false) == '●',
        dots.glyph(AgentState::Idle, true) == '○',
        dots.glyph(AgentState::Unknown, seen) == '○',
{
}

/// The glyph on the screen has the color of the agent of its tab: when a bar that was laid out has
/// been painted, the cell behind the first one of a tab with a glyph shows the glyph, colored for
/// what the agent is doing. This is said of a cell into which no mark goes, on a screen that shows
/// the tab from its first column on and has room for the glyph.
pub proof fn law_glyph_shows_what_the_agent_is_doing(
    app: AppState,
    ws: Workspace,
    bar: Bar,
    screen: Rect,
    cells: Map<(u16, u16), CellLook>,
    idx: int,
    x: u16,
    y: u16,
)
    requires
        bar.fits(),
        !bar.area.is_empty(),
        shows_workspace(app, ws),
        bar.widths.len() == ws.tabs@.len(),
        crate::laws::view_holds(app.view, bar.places()),
        app.columns_fit(bar.area),
        cells.contains_key((x, y)),
        0 <= idx < ws.tabs@.len(),
        app.view.tab_hit_areas@[idx].has_cell(x as int, y as int),
        crate::laws::is_unmarked(app.tab_bar_paints(bar.area), x as int, y as int),
        screen.has_cell(x as int, y as int),
        screen.x <= app.view.tab_hit_areas@[idx].x,
        x == app.view.tab_hit_areas@[idx].x + 1,
        app.chrome_ctx().label(ws, idx).status matches Some(glyph)
            && 0 < crate::surface::symbol_columns(glyph.symbol)
            < app.view.tab_hit_areas@[idx].room_in(screen),
    ensures
        ({
            let after = PaintLook::apply_all(app.tab_bar_paints(bar.area), screen, cells)[(x, y)];
            &&& ws.tabs@[idx].agent(app.terminals@) matches Some(agent)
            &&& agent.0 == AgentState::Blocked ==> after.fg == app.palette.blocked
            &&& agent.0 == AgentState::Working ==> after.fg == app.palette.working
            &&& agent.0 == AgentState::Idle && !agent.1 ==> after.fg == app.palette.done
            &&& agent.0 == AgentState::Idle && agent.1 ==> after.fg == app.palette.idle
            &&& after.symbol == if agent.0 == AgentState::Idle && agent.1 {
                seq!['○']
            } else {
                seq!['●']
            }
        }),
{
    crate::laws::law_glyph_shows_in_the_color_of_its_state(
        app,
        ws,
        bar,
        screen,
        cells,
        idx,
        x,
        y,
    );
    law_glyph_stands_for_the_agent(app.chrome_ctx(), ws, idx);
}

/// What the views of labels, spans and steps hold is what their fields hold.
pub proof fn law_views_hold_their_fields(
    label: TabChromeLabel,
    span: TextSpan,
    spans: Seq<TextSpan>,
    paint: Paint,
    paints: Seq<Paint>,
)
    ensures
        label@.body == label.body@,
        label.status is Some <==> label@.status is Some,
        label.status matches Some(glyph) ==> label@.status->0.symbol == glyph.symbol@
            && label@.status->0.state == glyph.state && label@.status->0.seen == glyph.seen,
        span@.text == span.text@,
        span@.style == span.style,
        SpanLook::of(spans).len() == spans.len(),
        forall|i: int| 0 <= i < spans.len() ==> #[trigger] SpanLook::of(spans)[i] == spans[i]@,
        PaintLook::of(paints).len() == paints.len(),
        forall|i: int| 0 <= i < paints.len() ==> #[trigger] PaintLook::of(paints)[i] == paints[i]@,
        paint matches Paint::Line { spans: drawn, style, rect } ==> paint@ == (PaintLook::Line {
            spans: SpanLook::of(drawn@),
            style,
            rect,
        }),
        paint matches Paint::Mark { x, y, symbol, fg } ==> paint@ == (PaintLook::Mark {
            x: x as int,
            y: y as int,
            symbol: symbol@,
            fg,
        }),
{
}

/// A rectangle keeps its place, and its size as far as its edges are coordinates; the empty one
/// stands in the corner.
pub proof fn law_rectangle_is_cut_at_the_last_coordinate(x: u16, y: u16, width: u16, height: u16)
    ensures
        ({
            let rect = Rect::at(x, y, width, height);
            &&& rect.x == x
            &&& rect.y == y
            &&& rect.width == min(width as int, 65535 - x)
            &&& rect.height == min(height as int, 65535 - y)
        }),
        Rect::zero() == (Rect { x: 0, y: 0, width: 0, height: 0 }),
{
}

/// The controls behind the tabs begin right of the last tab that shows, or where they are told to
/// where none shows.
pub proof fn law_controls_begin_behind_the_last_tab(rects: Seq<Rect>, fallback_x: int, v: int)
    ensures
        is_last_shown(rects, v) ==> BarPlaces::trailing_x(rects, fallback_x) == rects[v].x
            + rects[v].width,
        !some_show(rects) ==> BarPlaces::trailing_x(rects, fallback_x) == fallback_x,
{
    if is_last_shown(rects, v) {
        lemma_shown(rects);
    } else if !some_show(rects) {
        if let Some(last) = Rect::last_visible(rects) {
            assert(rects[last].width > 0);
        }
    }
}

/// In a strip, the first tab stands at the left edge and each other one behind the tab before it
/// with one column between them, with as many columns as it wants, one at least, or as are left.
pub proof fn law_tabs_of_a_strip_stand_side_by_side(
    widths: Seq<u16>,
    area: Rect,
    scroll: int,
    idx: int,
)
    requires
        area.x + area.width <= u16::MAX,
        area.width > 0,
        area.height > 0,
        0 <= scroll,
        0 <= idx < widths.len(),
    ensures
        ({
            let tabs = Strip::new(widths, area).hit_areas(scroll);
            let wanted = max(widths[idx] as int, 1);
            let left = if idx == scroll {
                area.x as int
            } else {
                tabs[idx - 1].x + max(widths[idx - 1] as int, 1) + 1
            };
            &&& tabs.len() == widths.len()
            &&& idx < scroll ==> tabs[idx].width == 0
            &&& idx > scroll && tabs[idx - 1].width == 0 ==> tabs[idx].width == 0
            &&& idx == scroll || idx > scroll && tabs[idx - 1].width > 0 ==> {
                &&& tabs[idx].width == max(min(wanted, area.x + area.width - left), 0)
                &&& tabs[idx].width > 0 ==> tabs[idx].x == left && tabs[idx].y == area.y
            }
        }),
{
    let strip = Strip::new(widths, area);
    strip.lemma_hit_area(scroll, idx);
    strip.lemma_hit_area(scroll, idx - 1);
    strip.lemma_span_bounds(scroll, idx - 1);
    strip.lemma_span_bounds(scroll, idx);
}

/// Of all first tabs, the centered one brings a tab nearest to the middle of the strip, and it is
/// the last that does.
pub proof fn law_centered_tab_is_nearest_to_the_middle(
    widths: Seq<u16>,
    area: Rect,
    active: int,
    other: int,
)
    requires
        area.x + area.width <= u16::MAX,
        area.width > 0,
        area.height > 0,
        0 <= active < widths.len(),
        0 <= other,
    ensures
        ({
            let strip = Strip::new(widths, area);
            let scroll = strip.centered_scroll(active);
            let shown = strip.hit_areas(scroll)[active];
            let instead = strip.hit_areas(other)[active];
            let middle = min(2 * area.x + area.width, 65535);
            let off = min(2 * shown.x + shown.width, 65535) - middle;
            let other_off = min(2 * instead.x + instead.width, 65535) - middle;
            &&& 0 <= scroll <= active
            &&& shown.width > 0
            &&& instead.width > 0 ==> max(off, -off) <= max(other_off, -other_off)
            &&& instead.width > 0 && other > scroll ==> max(off, -off) < max(
                other_off,
                -other_off,
            )
        }),
{
    let strip = Strip::new(widths, area);
    let scroll = strip.centered_scroll(active);
    crate::laws::law_centered_scroll(strip, active);
    strip.lemma_hit_area(scroll, active);
    strip.lemma_hit_area(other, active);
}

/// The furthest scroll shows the last tab, and no earlier one does.
pub proof fn law_furthest_scroll_is_the_first_that_shows_the_last_tab(
    widths: Seq<u16>,
    area: Rect,
    earlier: int,
)
    requires
        area.x + area.width <= u16::MAX,
        0 <= earlier,
    ensures
        ({
            let strip = Strip::new(widths, area);
            let last = widths.len() - 1;
            if widths.len() > 0 && area.width > 0 && area.height > 0 {
                &&& 0 <= strip.max_scroll() <= last
                &&& strip.hit_areas(strip.max_scroll())[last].width > 0
                &&& earlier < strip.max_scroll() ==> strip.hit_areas(earlier)[last].width == 0
            } else {
                strip.max_scroll() == 0
            }
        }),
{
    let strip = Strip::new(widths, area);
    crate::laws::law_max_scroll(strip);
    strip.lemma_hit_area(strip.max_scroll(), widths.len() - 1);
    strip.lemma_hit_area(earlier, widths.len() - 1);
}

/// A bar with controls that has no column for its tabs shows none; its controls have the columns
/// that there are.
#[verifier::rlimit(40)]
pub proof fn law_narrow_bar(bar: Bar)
    requires
        bar.area.x + bar.area.width <= u16::MAX,
        bar.area.height > 0,
        bar.area.y < u16::MAX,
        0 < bar.area.width <= 9,
        bar.mouse_chrome,
        bar.widths.len() > 0,
        bar.places().scroll_left_hit_area.width > 0,
        0 <= bar.active,
        0 <= bar.current_scroll,
    ensures
        ({
            let places = bar.places();
            let right = bar.area.x + bar.area.width;
            let left_width = min(3, bar.area.width as int);
            let right_x = min(bar.area.x + left_width, max(right - 6, 0));
            let right_width = min(3, right - right_x);
            let new_x = right_x + right_width;
            &&& places.scroll == 0
            &&& places.tab_hit_areas.len() == bar.widths.len()
            &&& forall|idx: int|
                0 <= idx < bar.widths.len() ==> (#[trigger] places.tab_hit_areas[idx]).width == 0
            &&& places.scroll_left_hit_area == (Rect {
                x: bar.area.x,
                y: bar.area.y,
                width: left_width as u16,
                height: 1,
            })
            &&& places.scroll_right_hit_area == (Rect {
                x: right_x as u16,
                y: bar.area.y,
                width: right_width as u16,
                height: 1,
            })
            &&& places.new_tab_hit_area == (Rect {
                x: new_x as u16,
                y: bar.area.y,
                width: min(3, right - new_x) as u16,
                height: 1,
            })
        }),
{
    let strip = bar.scrolled_tabs();
    crate::laws::law_max_scroll(strip);
    crate::laws::law_centered_scroll(strip, bar.active);
    assert forall|idx: int| 0 <= idx < bar.widths.len() implies (
    #[trigger] strip.hit_areas(0)[idx]).width == 0 by {
        strip.lemma_hit_area(0, idx);
    }
    let tabs = strip.hit_areas(0);
    assert(!some_show(tabs));
    law_controls_begin_behind_the_last_tab(tabs, strip.area.x as int, 0);
}

/// In a bar with controls and without tabs, the control that opens a tab stands at its left edge.
pub proof fn law_bar_without_tabs(bar: Bar)
    requires
        bar.area.x + bar.area.width <= u16::MAX,
        bar.area.height > 0,
        bar.area.y < u16::MAX,
        bar.area.width > 0,
        bar.widths.len() == 0,
    ensures
        bar.places().tab_hit_areas.len() == 0,
        bar.places().scroll_left_hit_area.width == 0,
        bar.places().scroll_right_hit_area.width == 0,
        bar.mouse_chrome ==> bar.places().scroll == 0 && bar.places().new_tab_hit_area == (Rect {
            x: bar.area.x,
            y: bar.area.y,
            width: min(3, bar.area.width as int) as u16,
            height: 1,
        }),
        !bar.mouse_chrome ==> bar.places().new_tab_hit_area.width == 0,
{
    let tabs = bar.unscrolled_tabs().hit_areas(0);
    assert(!some_show(tabs));
    law_controls_begin_behind_the_last_tab(tabs, bar.area.x as int, 0);
}

/// A bar whose parts all end at coordinates works with no column that is none.
pub proof fn law_columns_of_an_ordinary_bar_fit(app: AppState, area: Rect)
    requires
        area.x + area.width <= u16::MAX,
        app.view.tab_scroll_left_hit_area.x + app.view.tab_scroll_left_hit_area.width <= u16::MAX,
        forall|idx: int|
            0 <= idx < app.view.tab_hit_areas@.len() ==> (
            #[trigger] app.view.tab_hit_areas@[idx]).x + app.view.tab_hit_areas@[idx].width
                <= u16::MAX,
    ensures
        app.columns_fit(area),
{
    let rects = app.view.tab_hit_areas@;
    if let Some(first) = Rect::first_visible(rects) {
        assert(rects[first].x + rects[first].width <= u16::MAX);
    }
    if let Some(last) = Rect::last_visible(rects) {
        assert(rects[last].x + rects[last].width <= u16::MAX);
    }
    if let Some(insert_idx) = app.dragged_to() {
        if 0 <= insert_idx < rects.len() {
            assert(rects[insert_idx].x + rects[insert_idx].width <= u16::MAX);
        }
    }
}

/// Steps can be carried out on a buffer that has a cell everywhere in its rectangle, if it shows
/// no more than half of the coordinates of each line and has the cells that are marked.
pub proof fn law_steps_can_be_carried_out(
    paints: Seq<PaintLook>,
    buf: ratatui::buffer::Buffer,
)
    requires
        forall|x: u16, y: u16|
            ({
                let area = crate::surface::buffer_area(buf);
                area.x <= x < area.x + area.width && area.y <= y < area.y + area.height && x
                    < u16::MAX && y < u16::MAX
            }) ==> #[trigger] crate::surface::buffer_cells(buf).contains_key((x, y)),
        forall|i: int|
            0 <= i < paints.len() ==> match #[trigger] paints[i] {
                PaintLook::Line { rect, .. } => rect.width <= 0x7fff,
                PaintLook::Mark { x, y, .. } => 0 <= x <= u16::MAX && 0 <= y <= u16::MAX
                    && crate::surface::buffer_cells(buf).contains_key((x as u16, y as u16)),
            },
    ensures
        PaintLook::all_can_be_done(paints, buf),
{
    let screen = crate::surface::buffer_area(buf);
    assert forall|i: int| 0 <= i < paints.len() implies (#[trigger] paints[i]).line_fits(
        screen,
    ) by {
        if let PaintLook::Line { spans, rect, .. } = paints[i] {
            crate::surface::TextRow::of(spans, rect.room_in(screen)).lemma_narrow_fits();
        }
    }
}

/// The marks for hidden tabs always show, when the bar has been painted: nothing is painted over
/// them but another such mark.
#[verifier::rlimit(40)]
pub proof fn law_marks_for_hidden_tabs_show(
    app: AppState,
    ws: Workspace,
    area: Rect,
    screen: Rect,
    cells: Map<(u16, u16), CellLook>,
    x: u16,
)
    requires
        shows_workspace(app, ws),
        area.width > 0,
        area.height > 0,
        app.columns_fit(area),
        some_show(app.view.tab_hit_areas@),
        cells.contains_key((x, area.y)),
        ({
            let left = app.view.tab_scroll_left_hit_area;
            let right = app.view.tab_scroll_right_hit_area;
            let left_x = if app.mouse_capture && left.width > 0 {
                left.x + left.width
            } else {
                area.x as int
            };
            let right_x = if app.mouse_capture && right.width > 0 {
                max(right.x - 1, 0)
            } else {
                area.x + area.width - 1
            };
            ||| x == left_x && app.view.tab_hit_areas@[0].width == 0 && x < area.x + area.width
            ||| x == right_x && hides_behind(app.view.tab_hit_areas@, ws.tabs@.len() as int)
                && area.x <= x < area.x + area.width
        }),
    ensures
        ({
            let after = PaintLook::apply_all(app.tab_bar_paints(area), screen, cells)[(x, area.y)];
            after.symbol == seq!['…'] && after.fg == app.palette.overlay0
        }),
{
    let paints = app.tab_bar_paints(area);
    let count = min(ws.tabs@.len() as int, app.view.tab_hit_areas@.len() as int);
    lemma_hides_behind(app, ws);
    app.lemma_steps(ws, area);
    assert forall|i: int| 0 <= i < paints.len() implies crate::laws::marks_a_coordinate(
        #[trigger] paints[i],
    ) by {
        assert(app.is_step(paints[i], ws, area));
    }
    let left = PaintLook::steps(app.left_ellipsis(area));
    let right = PaintLook::steps(app.right_ellipsis(ws, area));
    let p5 = seq![app.background(area)] + PaintLook::steps(app.left_button()) + PaintLook::steps(
        app.right_button(ws),
    ) + app.tab_lines(ws, count) + PaintLook::steps(app.drop_mark(ws, area)) + PaintLook::steps(
        app.new_tab_button(),
    );
    assert(paints == p5 + left + right);
    let at = if right.len() > 0 && right[0].touches(x as int, area.y as int) {
        assert(paints[(p5 + left).len() as int] == right[0]);
        (p5 + left).len() as int
    } else {
        assert(paints[p5.len() as int] == left[0]);
        p5.len() as int
    };
    assert forall|i: int| at < i < paints.len() implies !(#[trigger] paints[i]).touches(
        x as int,
        area.y as int,
    ) by {
        assert(paints[i] == right[0]);
    }
    crate::laws::lemma_later_steps_keep(
        paints,
        at + 1,
        paints.len() as int,
        screen,
        cells,
        x,
        area.y,
    );
}

/// The control that opens a tab covers what was painted before it, a mark for a dragged tab too:
/// when the bar has been painted, its cells show its text, but for marks for hidden tabs.
#[verifier::rlimit(40)]
pub proof fn law_new_tab_control_shows(
    app: AppState,
    ws: Workspace,
    area: Rect,
    screen: Rect,
    cells: Map<(u16, u16), CellLook>,
    x: u16,
    y: u16,
)
    requires
        shows_workspace(app, ws),
        area.width > 0,
        area.height > 0,
        app.columns_fit(area),
        app.mouse_capture,
        app.view.new_tab_hit_area.width <= 3,
        app.view.new_tab_hit_area.has_cell(x as int, y as int),
        y == app.view.new_tab_hit_area.y,
        screen.has_cell(x as int, y as int),
        screen.x <= app.view.new_tab_hit_area.x,
        cells.contains_key((x, y)),
        forall|i: int|
            0 <= i < app.tab_bar_paints(area).len() && (#[trigger] app.tab_bar_paints(area)[i]
                matches PaintLook::Mark { symbol, .. } && symbol == seq!['…'])
                ==> !app.tab_bar_paints(area)[i].touches(x as int, y as int),
    ensures
        ({
            let after = PaintLook::apply_all(app.tab_bar_paints(area), screen, cells)[(x, y)];
            &&& after.symbol == if x == app.view.new_tab_hit_area.x + 1 {
                seq!['+']
            } else {
                seq![' ']
            }
            &&& after.fg == app.palette.overlay1
        }),
{
    let paints = app.tab_bar_paints(area);
    let count = min(ws.tabs@.len() as int, app.view.tab_hit_areas@.len() as int);
    let rect = app.view.new_tab_hit_area;
    let left = PaintLook::steps(app.left_ellipsis(area));
    let right = PaintLook::steps(app.right_ellipsis(ws, area));
    let p4 = seq![app.background(area)] + PaintLook::steps(app.left_button()) + PaintLook::steps(
        app.right_button(ws),
    ) + app.tab_lines(ws, count) + PaintLook::steps(app.drop_mark(ws, area));
    let new_tab = PaintLook::steps(app.new_tab_button());
    assert(paints == p4 + new_tab + left + right);
    let at = p4.len() as int;
    assert(paints[at] == new_tab[0]);
    assert forall|i: int| at < i < paints.len() implies !(#[trigger] paints[i]).touches(
        x as int,
        y as int,
    ) by {
        assert(app.left_ellipsis(area) == Some(paints[i]) || app.right_ellipsis(ws, area) == Some(
            paints[i],
        ));
    }
    crate::laws::lemma_last_line_shows(app, ws, area, at, screen, cells, x, y);
    let text = seq![' ', '+', ' '];
    let spans = seq![SpanLook { text, style: TextStyle::unchanged() }];
    assert(crate::laws::all_plain(spans));
    crate::laws::law_plain_text_is_drawn_as_it_stands(spans, rect.room_in(screen), x - rect.x);
    reveal_with_fuel(crate::laws::letters_of, 2);
}

} // verus!
