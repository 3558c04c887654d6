//! What each tab of the bar says, and how the bar is laid out for it.

use crate::bar::{bar_view_for_widths, Bar, TabBarView};
use crate::rect::{first_visible_index, last_visible_index, Rect};
use crate::state::{
    state_icon_symbol, AgentState, AppState, StatusIndicatorStyle, TabAutoNameConfig,
    TabStatusConfig, TerminalState, ViewState, Workspace,
};
use crate::strip::{centered_scroll_for_widths, layout_widths, max_scroll_for_widths, Strip};
use crate::text::{decimal_text, display_width_u16, truncate_end};
use std::collections::HashMap;
use vstd::math::*;
use vstd::prelude::*;

verus! {

/// The columns that a tab takes at least.
pub const MIN_TAB_WIDTH: u16 = 8;

/// The columns of a tab that its label does not take.
pub const TAB_PADDING: u16 = 4;

/// What the tab bar needs beyond the workspace: the terminals, where titles and agents live,
/// and how the bar is set up.
#[derive(Clone, Copy)]
pub struct TabChromeCtx<'a> {
    pub terminals: &'a HashMap<u64, TerminalState>,
    pub auto_name: TabAutoNameConfig,
    pub auto_name_max_width: u16,
    pub status: TabStatusConfig,
    pub indicators: StatusIndicatorStyle,
}

/// The glyph in front of a tab's name.
#[derive(Debug, Clone, Copy)]
pub struct TabStatusGlyph {
    pub symbol: &'static str,
    pub state: AgentState,
    pub seen: bool,
}

/// What a tab says: a glyph for its agent, if it shows one, and its name with a mark where the
/// tab is zoomed. The parts are kept apart so that the glyph can have the color of the agent's
/// state and the name that of the tab.
#[derive(Debug)]
pub struct TabChromeLabel {
    pub status: Option<TabStatusGlyph>,
    pub body: String,
}

/// The contents of a [`TabStatusGlyph`].
pub struct GlyphLook {
    pub symbol: Seq<char>,
    pub state: AgentState,
    pub seen: bool,
}

/// The contents of a [`TabChromeLabel`].
pub struct LabelLook {
    pub status: Option<GlyphLook>,
    pub body: Seq<char>,
}

impl View for TabStatusGlyph {
    type V = GlyphLook;

    open spec fn view(&self) -> GlyphLook {
        GlyphLook { symbol: self.symbol@, state: self.state, seen: self.seen }
    }
}

impl View for TabChromeLabel {
    type V = LabelLook;

    open spec fn view(&self) -> LabelLook {
        LabelLook {
            status: match self.status {
                Some(glyph) => Some(glyph@),
                None => None,
            },
            body: self.body@,
        }
    }
}

impl Default for TabChromeLabel {
    fn default() -> (label: TabChromeLabel)
        ensures
            label@ == (LabelLook { status: None, body: Seq::empty() }),
    {
        TabChromeLabel { status: None, body: String::new() }
    }
}

impl Clone for TabChromeLabel {
    fn clone(&self) -> (label: TabChromeLabel)
        ensures
            label@ == self@,
    {
        TabChromeLabel { status: self.status, body: self.body.clone() }
    }
}

impl LabelLook {
    /// The columns of the glyph and the space behind it.
    pub open spec fn status_columns(self) -> int {
        match self.status {
            Some(glyph) => crate::text::display_columns(glyph.symbol) as int + 1,
            None => 0,
        }
    }

    /// The columns of everything that the tab says, at most as many as a terminal can have.
    pub open spec fn content_width(self) -> int {
        min(
            self.status_columns() + crate::text::display_columns(self.body),
            u16::MAX as int,
        )
    }

    /// The columns that the tab wants.
    pub open spec fn tab_width(self) -> u16 {
        max(min(self.content_width() + TAB_PADDING, u16::MAX as int), MIN_TAB_WIDTH as int) as u16
    }

    /// Everything that the tab says, in one line.
    pub open spec fn plain_text(self) -> Seq<char> {
        match self.status {
            Some(glyph) => glyph.symbol + seq![' '] + self.body,
            None => self.body,
        }
    }

    /// The columns that each of the given labels wants.
    pub open spec fn tab_widths(labels: Seq<TabChromeLabel>) -> Seq<u16> {
        Seq::new(labels.len(), |idx: int| labels[idx]@.tab_width())
    }
}

impl<'a> TabChromeCtx<'a> {
    /// What the bar calls tab `idx`: the name that the user gave it; else, where the bar is set
    /// up so, the title of its terminal, cut to the width that a title may have; else its
    /// number, counted from one.
    pub open spec fn name(self, ws: Workspace, idx: int) -> Seq<char> {
        if 0 <= idx < ws.tabs@.len() && ws.tabs@[idx].given_name() is Some {
            ws.tabs@[idx].given_name()->0
        } else if 0 <= idx < ws.tabs@.len() && self.auto_name == TabAutoNameConfig::TerminalTitle
            && ws.tabs@[idx].focused_title(self.terminals@) is Some {
            crate::text::truncated(
                ws.tabs@[idx].focused_title(self.terminals@)->0,
                self.auto_name_max_width as int,
            )
        } else {
            crate::text::decimal((idx + 1) as nat)
        }
    }

    /// The glyph of tab `idx`, if it shows one.
    pub open spec fn status_glyph(self, ws: Workspace, idx: int) -> Option<GlyphLook> {
        if 0 <= idx < ws.tabs@.len() && self.status != TabStatusConfig::Off {
            match ws.tabs@[idx].agent(self.terminals@) {
                Some((state, seen)) => if self.status.wants(state, seen) {
                    Some(
                        GlyphLook {
                            symbol: seq![self.indicators.glyph(state, seen)],
                            state,
                            seen,
                        },
                    )
                } else {
                    None
                },
                None => None,
            }
        } else {
            None
        }
    }

    /// What tab `idx` says.
    pub open spec fn label(self, ws: Workspace, idx: int) -> LabelLook {
        LabelLook {
            status: self.status_glyph(ws, idx),
            body: if 0 <= idx < ws.tabs@.len() && ws.tabs@[idx].zoomed {
                self.name(ws, idx) + seq![' ', 'Z']
            } else {
                self.name(ws, idx)
            },
        }
    }

    /// The columns that each tab of a workspace wants.
    pub open spec fn tab_widths(self, ws: Workspace) -> Seq<u16> {
        Seq::new(ws.tabs@.len(), |idx: int| self.label(ws, idx).tab_width())
    }
}

/// What the tab bar needs of the state of the application beyond the workspace.
pub fn tab_chrome_ctx(app: &AppState) -> (ctx: TabChromeCtx<'_>)
    ensures
        *ctx.terminals == app.terminals,
        ctx.auto_name == app.tab_auto_name,
        ctx.auto_name_max_width == app.tab_auto_name_max_width,
        ctx.status == app.show_tab_status,
        ctx.indicators == app.status_indicators,
{
    TabChromeCtx {
        terminals: &app.terminals,
        auto_name: app.tab_auto_name,
        auto_name_max_width: app.tab_auto_name_max_width,
        status: app.show_tab_status,
        indicators: app.status_indicators,
    }
}

/// The columns of a glyph, a space behind it and a body, at most as many as a terminal can
/// have.
pub fn content_columns(symbol: Option<u16>, body: u16) -> (columns: u16)
    ensures
        columns == min(
            match symbol {
                Some(symbol) => symbol + 1,
                None => 0,
            } + body,
            u16::MAX as int,
        ),
{
    let status = match symbol {
        Some(symbol) => symbol.saturating_add(1),
        None => 0,
    };
    status.saturating_add(body)
}

/// The columns that a tab wants whose content has the given columns.
pub fn tab_columns(content: u16) -> (columns: u16)
    ensures
        columns == max(min(content + TAB_PADDING, u16::MAX as int), MIN_TAB_WIDTH as int),
{
    let padded = content.saturating_add(TAB_PADDING);
    if padded < MIN_TAB_WIDTH {
        MIN_TAB_WIDTH
    } else {
        padded
    }
}

impl TabChromeLabel {
    /// The columns of everything that the tab says, so that hit areas and scrolling account for
    /// the glyph as they do for the rest.
    pub fn content_width(&self) -> (columns: u16)
        ensures
            columns == self@.content_width(),
    {
        let symbol = match self.status {
            Some(glyph) => Some(display_width_u16(glyph.symbol)),
            None => None,
        };
        content_columns(symbol, display_width_u16(self.body.as_str()))
    }

    /// Everything that the tab says, in one line.
    pub fn plain_text(&self) -> (text: String)
        ensures
            text@ == self@.plain_text(),
    {
        match self.status {
            Some(glyph) => {
                let mut text = glyph.symbol.to_owned();
                text.append(" ");
                text.append(self.body.as_str());
                proof {
                    reveal_strlit(" ");
                    assert(" "@ =~= seq![' ']);
                }
                text
            },
            None => self.body.clone(),
        }
    }
}

/// The columns that a tab wants.
pub fn tab_width(label: &TabChromeLabel) -> (columns: u16)
    ensures
        columns == label@.tab_width(),
{
    tab_columns(label.content_width())
}

/// The columns that each tab wants.
pub fn tab_widths(labels: &[TabChromeLabel]) -> (widths: Vec<u16>)
    ensures
        widths@ == LabelLook::tab_widths(labels@),
{
    let mut widths: Vec<u16> = Vec::new();
    while widths.len() < labels.len()
        invariant
            widths@.len() <= labels@.len(),
            forall|i: int| 0 <= i < widths@.len() ==> widths@[i] == labels@[i]@.tab_width(),
        decreases labels@.len() - widths@.len(),
    {
        widths.push(tab_width(&labels[widths.len()]));
    }
    assert(widths@ =~= LabelLook::tab_widths(labels@));
    widths
}

/// What every tab of a workspace says.
pub fn tab_chrome_labels(ws: &Workspace, ctx: TabChromeCtx<'_>) -> (labels: Vec<TabChromeLabel>)
    ensures
        labels@.len() == ws.tabs@.len(),
        forall|idx: int|
            0 <= idx < labels@.len() ==> (#[trigger] labels@[idx])@ == ctx.label(*ws, idx),
        LabelLook::tab_widths(labels@) == ctx.tab_widths(*ws),
{
    let mut labels: Vec<TabChromeLabel> = Vec::new();
    while labels.len() < ws.tabs.len()
        invariant
            labels@.len() <= ws.tabs@.len(),
            forall|idx: int|
                0 <= idx < labels@.len() ==> (#[trigger] labels@[idx])@ == ctx.label(*ws, idx),
        decreases ws.tabs@.len() - labels@.len(),
    {
        labels.push(tab_chrome_label(ws, labels.len(), ctx));
    }
    assert(LabelLook::tab_widths(labels@) =~= ctx.tab_widths(*ws));
    labels
}

/// What tab `tab_idx` says.
pub fn tab_chrome_label(
    ws: &Workspace,
    tab_idx: usize,
    ctx: TabChromeCtx<'_>,
) -> (label: TabChromeLabel)
    requires
        tab_idx < usize::MAX,
    ensures
        label@ == ctx.label(*ws, tab_idx as int),
{
    let mut body = tab_name(ws, tab_idx, ctx);
    if tab_idx >= ws.tabs.len() {
        return TabChromeLabel { status: None, body };
    }
    let tab = &ws.tabs[tab_idx];
    if tab.zoomed {
        body.append(" Z");
        proof {
            reveal_strlit(" Z");
            assert(" Z"@ =~= seq![' ', 'Z']);
        }
    }
    if ctx.status == TabStatusConfig::Off {
        return TabChromeLabel { status: None, body };
    }
    let status = match tab.aggregate_state(ctx.terminals) {
        Some((state, seen)) => if ctx.status.shows(state, seen) {
            let symbol = state_icon_symbol(state, seen, ctx.indicators);
            Some(TabStatusGlyph { symbol, state, seen })
        } else {
            None
        },
        None => None,
    };
    TabChromeLabel { status, body }
}

/// What the bar calls tab `tab_idx`. A name that the user gave always wins; the title of the
/// terminal is only a better default than a bare number.
pub fn tab_name(ws: &Workspace, tab_idx: usize, ctx: TabChromeCtx<'_>) -> (name: String)
    requires
        tab_idx < usize::MAX,
    ensures
        name@ == ctx.name(*ws, tab_idx as int),
{
    if tab_idx < ws.tabs.len() {
        let tab = &ws.tabs[tab_idx];
        if let Some(custom) = &tab.custom_name {
            return custom.clone();
        }
        if ctx.auto_name == TabAutoNameConfig::TerminalTitle {
            if let Some(title) = tab.focused_terminal_title(ctx.terminals) {
                return truncate_end(title.as_str(), ctx.auto_name_max_width as usize);
            }
        }
    }
    match ws.tab_display_name(tab_idx) {
        Some(name) => name,
        None => decimal_text(tab_idx + 1),
    }
}

/// The cells of every tab of a bar that covers `area` and begins with tab `scroll`.
pub fn layout_tab_hit_areas(
    labels: &[TabChromeLabel],
    area: Rect,
    scroll: usize,
) -> (rects: Vec<Rect>)
    requires
        area.is_empty() || area.right_fits(),
    ensures
        rects@ == Strip::new(LabelLook::tab_widths(labels@), area).hit_areas(scroll as int),
{
    layout_widths(&tab_widths(labels), area, scroll)
}

/// The first tab with which tab `active_tab` is nearest to the middle of `area`.
pub fn centered_tab_scroll(
    labels: &[TabChromeLabel],
    active_tab: usize,
    area: Rect,
) -> (scroll: usize)
    requires
        area.is_empty() || area.right_fits(),
    ensures
        Strip::new(LabelLook::tab_widths(labels@), area).centers(
            active_tab as int,
            scroll as int,
        ),
        scroll == Strip::new(LabelLook::tab_widths(labels@), area).centered_scroll(
            active_tab as int,
        ),
{
    centered_scroll_for_widths(&tab_widths(labels), active_tab, area)
}

/// The furthest that the tabs in `area` scroll: the earliest first tab with which the last one
/// shows.
pub fn max_tab_scroll(labels: &[TabChromeLabel], area: Rect) -> (scroll: usize)
    requires
        labels@.len() == 0 || area.is_empty() || area.right_fits(),
    ensures
        Strip::new(LabelLook::tab_widths(labels@), area).reaches_end(scroll as int),
        scroll == Strip::new(LabelLook::tab_widths(labels@), area).max_scroll(),
{
    max_scroll_for_widths(&tab_widths(labels), area)
}

/// Where everything in the tab bar of a workspace stands.
pub fn compute_tab_bar_view(
    ws: &Workspace,
    ctx: TabChromeCtx<'_>,
    area: Rect,
    current_scroll: usize,
    follow_active: bool,
    mouse_chrome: bool,
) -> (view: TabBarView)
    requires
        area.is_empty() || area.right_fits(),
    ensures
        view@ == Bar::new(
            ctx.tab_widths(*ws),
            ws.active_tab as int,
            area,
            current_scroll as int,
            follow_active,
            mouse_chrome,
        ).places(),
{
    let labels = tab_chrome_labels(ws, ctx);
    bar_view_for_widths(
        &tab_widths(&labels),
        ws.active_tab,
        area,
        current_scroll,
        follow_active,
        mouse_chrome,
    )
}

impl ViewState {
    /// The column of the mark that shows where a dragged tab would go if it were dropped before
    /// tab `insert_idx` of `count` tabs; none where no tab shows or that place does not show.
    pub open spec fn drop_indicator_x(self, count: int, insert_idx: int) -> Option<int> {
        let rects = self.tab_hit_areas@;
        match (Rect::first_visible(rects), Rect::last_visible(rects)) {
            (Some(first), Some(last)) => if insert_idx == 0 {
                Some(
                    if first == 0 {
                        rects[0].x as int
                    } else {
                        self.tab_scroll_left_hit_area.right()
                    },
                )
            } else if insert_idx < rects.len() && rects[insert_idx].width > 0 {
                Some(max(rects[insert_idx].x - 1, 0))
            } else if insert_idx >= count {
                Some(
                    if last + 1 >= count {
                        rects[last].right()
                    } else {
                        max(self.tab_scroll_right_hit_area.x - 1, 0)
                    },
                )
            } else {
                None
            },
            _ => None,
        }
    }
}

/// The column of the mark that shows where a dragged tab would go if it were dropped before tab
/// `insert_idx` of `count` tabs, be it a coordinate or not.
pub fn drop_indicator_column(view: &ViewState, count: usize, insert_idx: usize) -> (x: Option<u32>)
    ensures
        match x {
            Some(x) => view.drop_indicator_x(count as int, insert_idx as int) == Some(x as int),
            None => view.drop_indicator_x(count as int, insert_idx as int) is None,
        },
{
    let rects = &view.tab_hit_areas;
    let first = match first_visible_index(rects) {
        Some(first) => first,
        None => return None,
    };
    let last = match last_visible_index(rects) {
        Some(last) => last,
        None => return None,
    };
    if insert_idx == 0 {
        let left = view.tab_scroll_left_hit_area;
        return Some(
            if first == 0 {
                rects[0].x as u32
            } else {
                left.x as u32 + left.width as u32
            },
        );
    }
    if insert_idx < rects.len() && rects[insert_idx].width > 0 {
        return Some(rects[insert_idx].x.saturating_sub(1) as u32);
    }
    if insert_idx >= count {
        return Some(
            if last + 1 >= count {
                rects[last].x as u32 + rects[last].width as u32
            } else {
                view.tab_scroll_right_hit_area.x.saturating_sub(1) as u32
            },
        );
    }
    None
}

/// The column of the mark that shows where a dragged tab would go if it were dropped before tab
/// `insert_idx`.
pub fn tab_drop_indicator_x(app: &AppState, ws: &Workspace, insert_idx: usize) -> (x: Option<u16>)
    requires
        app.view.drop_indicator_x(ws.tabs@.len() as int, insert_idx as int) matches Some(x)
            ==> x <= u16::MAX,
    ensures
        match x {
            Some(x) => app.view.drop_indicator_x(ws.tabs@.len() as int, insert_idx as int)
                == Some(x as int),
            None => app.view.drop_indicator_x(ws.tabs@.len() as int, insert_idx as int) is None,
        },
{
    match drop_indicator_column(&app.view, ws.tabs.len(), insert_idx) {
        Some(x) => Some(x as u16),
        None => None,
    }
}

} // verus!
