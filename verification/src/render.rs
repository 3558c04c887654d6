//! What is painted for a tab bar, and the painting itself.

use crate::rect::{first_visible_index, last_visible_index, Rect};
use crate::state::{
    state_label_color, AppState, DragState, DragTarget, Palette, Workspace,
};
use crate::surface::{
    area_of, draw_line, has_cell, is_paintable, mark_cell, row_fits, CellLook, SpanLook, TextRow,
    TextSpan, TextStyle, Weight,
};
use crate::tabs::{
    drop_indicator_column, tab_chrome_ctx, tab_chrome_labels, tab_drop_indicator_x, LabelLook,
    TabChromeCtx, TabChromeLabel,
};
use crate::text::pad_end;
use ratatui::buffer::Buffer;
use ratatui::style::Color;
use vstd::math::*;
use vstd::prelude::*;

verus! {

/// One step of painting.
#[derive(Debug)]
pub enum Paint {
    /// A line of text over a rectangle.
    Line { spans: Vec<TextSpan>, style: TextStyle, rect: Rect },
    /// A symbol in one cell.
    Mark { x: u16, y: u16, symbol: &'static str, fg: Color },
}

/// The contents of a [`Paint`].
pub enum PaintLook {
    Line { spans: Seq<SpanLook>, style: TextStyle, rect: Rect },
    Mark { x: int, y: int, symbol: Seq<char>, fg: Color },
}

impl View for Paint {
    type V = PaintLook;

    open spec fn view(&self) -> PaintLook {
        match *self {
            Paint::Line { spans, style, rect } => PaintLook::Line {
                spans: SpanLook::of(spans@),
                style,
                rect,
            },
            Paint::Mark { x, y, symbol, fg } => PaintLook::Mark {
                x: x as int,
                y: y as int,
                symbol: symbol@,
                fg,
            },
        }
    }
}

impl PaintLook {
    /// The contents of each of the given steps.
    pub open spec fn of(paints: Seq<Paint>) -> Seq<PaintLook> {
        Seq::new(paints.len(), |idx: int| paints[idx]@)
    }

    /// The contents of an optional step.
    pub open spec fn maybe(paint: Option<Paint>) -> Option<PaintLook> {
        match paint {
            Some(paint) => Some(paint@),
            None => None,
        }
    }

    /// The steps of an optional step.
    pub open spec fn steps(paint: Option<PaintLook>) -> Seq<PaintLook> {
        match paint {
            Some(paint) => seq![paint],
            None => Seq::empty(),
        }
    }

    /// A line of text in one style.
    pub open spec fn text(text: Seq<char>, style: TextStyle, rect: Rect) -> PaintLook {
        PaintLook::Line {
            spans: seq![SpanLook { text, style: TextStyle::unchanged() }],
            style,
            rect,
        }
    }

    /// What the cells of a buffer that covers `screen` show after the step.
    pub open spec fn apply(
        self,
        screen: Rect,
        cells: Map<(u16, u16), CellLook>,
    ) -> Map<(u16, u16), CellLook> {
        match self {
            PaintLook::Line { spans, style, rect } => crate::surface::drawn_cells(
                cells,
                screen,
                spans,
                style,
                rect,
            ),
            PaintLook::Mark { x, y, symbol, fg } => cells.insert(
                (x as u16, y as u16),
                CellLook { symbol, fg, ..cells[(x as u16, y as u16)] },
            ),
        }
    }

    /// What the cells of a buffer that covers `screen` show after the first `count` of the given
    /// steps.
    pub open spec fn apply_first(
        paints: Seq<PaintLook>,
        count: int,
        screen: Rect,
        cells: Map<(u16, u16), CellLook>,
    ) -> Map<(u16, u16), CellLook>
        decreases count,
    {
        if count <= 0 {
            cells
        } else {
            paints[count - 1].apply(
                screen,
                PaintLook::apply_first(paints, count - 1, screen, cells),
            )
        }
    }

    /// What the cells of a buffer that covers `screen` show after all the given steps.
    pub open spec fn apply_all(
        paints: Seq<PaintLook>,
        screen: Rect,
        cells: Map<(u16, u16), CellLook>,
    ) -> Map<(u16, u16), CellLook> {
        PaintLook::apply_first(paints, paints.len() as int, screen, cells)
    }

    /// The step may change what the cell in column `x` of row `y` shows.
    pub open spec fn touches(self, x: int, y: int) -> bool {
        match self {
            PaintLook::Line { rect, .. } => rect.has_cell(x, y),
            PaintLook::Mark { x: mark_x, y: mark_y, .. } => x == mark_x && y == mark_y,
        }
    }

    /// Of the cells that none of the given steps touches, each shows the same before and after.
    pub open spec fn others_keep(
        paints: Seq<PaintLook>,
        before: Map<(u16, u16), CellLook>,
        after: Map<(u16, u16), CellLook>,
    ) -> bool {
        forall|x: u16, y: u16| #[trigger]
            before.contains_key((x, y)) && (forall|idx: int|
                0 <= idx < paints.len() ==> !(#[trigger] paints[idx]).touches(x as int, y as int))
                ==> after[(x, y)] == before[(x, y)]
    }

    /// All text of the step has the background and the weight of its line.
    pub open spec fn text_keeps_to_line(self) -> bool {
        match self {
            PaintLook::Line { spans, style, .. } => {
                &&& SpanLook::share_background(spans, style)
                &&& SpanLook::share_weight(spans, style)
            },
            PaintLook::Mark { .. } => true,
        }
    }

    /// All text of each of the given steps has the background and the weight of its line.
    pub open spec fn all_text_keeps_to_line(paints: Seq<PaintLook>) -> bool {
        forall|idx: int| 0 <= idx < paints.len() ==> (#[trigger] paints[idx]).text_keeps_to_line()
    }

    /// The background of the cell in column `x` of row `y` after the step.
    pub open spec fn background_after(self, x: int, y: int, before: Color) -> Color {
        match self {
            PaintLook::Line { style, rect, .. } => if rect.has_cell(x, y) {
                style.bg_over(before)
            } else {
                before
            },
            PaintLook::Mark { .. } => before,
        }
    }

    /// The background of the cell in column `x` of row `y` after the first `count` of the given
    /// steps: that of the last line over the cell that has one.
    pub open spec fn background_after_first(
        paints: Seq<PaintLook>,
        count: int,
        x: int,
        y: int,
        before: Color,
    ) -> Color
        decreases count,
    {
        if count <= 0 {
            before
        } else {
            paints[count - 1].background_after(
                x,
                y,
                PaintLook::background_after_first(paints, count - 1, x, y, before),
            )
        }
    }

    /// Every cell has the background that the given steps leave it.
    pub open spec fn backgrounds_follow(
        paints: Seq<PaintLook>,
        count: int,
        before: Map<(u16, u16), CellLook>,
        after: Map<(u16, u16), CellLook>,
    ) -> bool {
        forall|x: u16, y: u16| #[trigger]
            before.contains_key((x, y)) ==> after[(x, y)].bg == PaintLook::background_after_first(
                paints,
                count,
                x as int,
                y as int,
                before[(x, y)].bg,
            )
    }

    /// The step draws the cell in column `x` of row `y` in the given weight.
    pub open spec fn gives_weight(self, weight: Weight, x: int, y: int) -> bool {
        match self {
            PaintLook::Line { style, rect, .. } => style.weight == weight && rect.has_cell(x, y),
            PaintLook::Mark { .. } => false,
        }
    }

    /// Some of the first `count` of the given steps draws the cell in column `x` of row `y` in
    /// the given weight.
    pub open spec fn some_gives_weight(
        paints: Seq<PaintLook>,
        count: int,
        weight: Weight,
        x: int,
        y: int,
    ) -> bool {
        exists|idx: int| 0 <= idx < count && (#[trigger] paints[idx]).gives_weight(weight, x, y)
    }

    /// Every cell is bold, or dim, exactly if it was before or one of the given steps draws it
    /// so.
    pub open spec fn weights_follow(
        paints: Seq<PaintLook>,
        count: int,
        before: Map<(u16, u16), CellLook>,
        after: Map<(u16, u16), CellLook>,
    ) -> bool {
        forall|x: u16, y: u16| #[trigger]
            before.contains_key((x, y)) ==> {
                &&& after[(x, y)].bold == (before[(x, y)].bold || PaintLook::some_gives_weight(
                    paints,
                    count,
                    Weight::Bold,
                    x as int,
                    y as int,
                ))
                &&& after[(x, y)].dim == (before[(x, y)].dim || PaintLook::some_gives_weight(
                    paints,
                    count,
                    Weight::Dim,
                    x as int,
                    y as int,
                ))
            }
    }

    /// The cell in column `x` of row `y`, whose foreground was `before`, can have the foreground
    /// `shown` after the first `count` of the given steps. A mark in the cell gives it its color;
    /// a line over the cell gives it the foreground of one of its spans, or its own, or, where it
    /// has none, leaves the cell the foreground that it had.
    pub open spec fn foreground_can_be(
        paints: Seq<PaintLook>,
        count: int,
        x: int,
        y: int,
        before: Color,
        shown: Color,
    ) -> bool
        decreases count,
    {
        if count <= 0 {
            shown == before
        } else {
            let earlier = PaintLook::foreground_can_be(paints, count - 1, x, y, before, shown);
            match paints[count - 1] {
                PaintLook::Line { spans, style, rect } => if rect.has_cell(x, y) {
                    SpanLook::give_foreground(spans, shown) || match style.fg {
                        Some(fg) => shown == fg,
                        None => earlier,
                    }
                } else {
                    earlier
                },
                PaintLook::Mark { x: mark_x, y: mark_y, fg, .. } => if x == mark_x && y
                    == mark_y {
                    shown == fg
                } else {
                    earlier
                },
            }
        }
    }

    /// Every cell has a foreground that the given steps can leave it.
    pub open spec fn foregrounds_follow(
        paints: Seq<PaintLook>,
        count: int,
        before: Map<(u16, u16), CellLook>,
        after: Map<(u16, u16), CellLook>,
    ) -> bool {
        forall|x: u16, y: u16| #[trigger]
            before.contains_key((x, y)) ==> PaintLook::foreground_can_be(
                paints,
                count,
                x as int,
                y as int,
                before[(x, y)].fg,
                after[(x, y)].fg,
            )
    }

    /// The step marks one of the given cells, if it marks any.
    pub open spec fn marks_one_of(self, cells: Map<(u16, u16), CellLook>) -> bool {
        match self {
            PaintLook::Line { .. } => true,
            PaintLook::Mark { x, y, .. } => cells.contains_key((x as u16, y as u16)),
        }
    }

    /// Every mark of the given steps goes into one of the given cells.
    pub open spec fn all_mark_one_of(
        paints: Seq<PaintLook>,
        cells: Map<(u16, u16), CellLook>,
    ) -> bool {
        forall|idx: int| 0 <= idx < paints.len() ==> (#[trigger] paints[idx]).marks_one_of(cells)
    }

    /// The columns of the line that the step draws, if it draws any, add up to coordinates in a
    /// buffer that covers `screen`.
    pub open spec fn line_fits(self, screen: Rect) -> bool {
        match self {
            PaintLook::Line { spans, rect, .. } => TextRow::of(
                spans,
                rect.room_in(screen),
            ).fits(),
            PaintLook::Mark { .. } => true,
        }
    }

    /// The columns of every line of the given steps add up to coordinates in a buffer that covers
    /// `screen`.
    pub open spec fn all_lines_fit(paints: Seq<PaintLook>, screen: Rect) -> bool {
        forall|idx: int| 0 <= idx < paints.len() ==> (#[trigger] paints[idx]).line_fits(screen)
    }

    /// The given steps can be carried out on a buffer: it has all its cells, the columns of every
    /// line add up to coordinates, and every mark goes into one of its cells. Where there is no
    /// step, any buffer will do.
    pub open spec fn all_can_be_done(paints: Seq<PaintLook>, buf: Buffer) -> bool {
        &&& paints.len() > 0 ==> crate::surface::paintable(buf)
        &&& PaintLook::all_lines_fit(paints, crate::surface::buffer_area(buf))
        &&& PaintLook::all_mark_one_of(paints, crate::surface::buffer_cells(buf))
    }
}

impl TextStyle {
    /// Everything as the cell has it.
    pub open spec fn unchanged() -> TextStyle {
        TextStyle { fg: None, bg: None, weight: Weight::Normal }
    }

    /// The given colors and weight.
    pub open spec fn colored(fg: Color, bg: Color, weight: Weight) -> TextStyle {
        TextStyle { fg: Some(fg), bg: Some(bg), weight }
    }
}

impl Palette {
    /// How a control that scrolls the tabs is drawn.
    pub open spec fn scroll_button_style(self, enabled: bool) -> TextStyle {
        if enabled {
            TextStyle::colored(self.overlay1, self.surface0, Weight::Normal)
        } else {
            TextStyle::colored(self.overlay0, self.surface0, Weight::Dim)
        }
    }

    /// How a tab is drawn: the active one on the accent color, the others on the surface; a name
    /// that the user gave stands out.
    pub open spec fn tab_style(self, active: bool, auto_named: bool) -> TextStyle {
        if active {
            TextStyle::colored(
                self.panel_contrast_fg,
                self.accent,
                if auto_named {
                    Weight::Normal
                } else {
                    Weight::Bold
                },
            )
        } else if auto_named {
            TextStyle::colored(self.overlay0, self.surface0, Weight::Dim)
        } else {
            TextStyle::colored(self.overlay1, self.surface0, Weight::Normal)
        }
    }
}

impl LabelLook {
    /// The columns left of the body: a space, and the glyph with a space behind it.
    pub open spec fn reserved(self) -> int {
        match self.status {
            Some(glyph) => 2 + glyph.symbol.len() as int,
            None => 1,
        }
    }

    /// The line of a tab that is drawn in `style` and has `width` columns. The glyph has the
    /// color of the agent's state; spaces behind the body fill the tab.
    pub open spec fn spans(self, style: TextStyle, palette: Palette, width: int) -> Seq<SpanLook> {
        let space = SpanLook { text: seq![' '], style: TextStyle::unchanged() };
        let body = SpanLook {
            text: crate::text::padded(self.body, max(width - self.reserved(), 0)),
            style: TextStyle::unchanged(),
        };
        match self.status {
            Some(glyph) => seq![
                space,
                SpanLook {
                    text: glyph.symbol,
                    style: TextStyle {
                        fg: Some(palette.state_color(glyph.state, glyph.seen)),
                        ..style
                    },
                },
                space,
                body,
            ],
            None => seq![space, body],
        }
    }
}

impl AppState {
    /// The workspace that shows, if there is one.
    pub open spec fn active_workspace(self) -> Option<Workspace> {
        match self.active {
            Some(idx) => if idx < self.workspaces@.len() {
                Some(self.workspaces@[idx as int])
            } else {
                None
            },
            None => None,
        }
    }

    /// What the labels of the tabs depend on beyond the workspace.
    pub open spec fn chrome_ctx(&self) -> TabChromeCtx<'_> {
        TabChromeCtx {
            terminals: &self.terminals,
            auto_name: self.tab_auto_name,
            auto_name_max_width: self.tab_auto_name_max_width,
            status: self.show_tab_status,
            indicators: self.status_indicators,
        }
    }

    /// Tabs before the first one that shows are hidden.
    pub open spec fn hides_left(self) -> bool {
        Rect::first_visible(self.view.tab_hit_areas@) matches Some(first) && first > 0
    }

    /// Tabs of the workspace behind the last one that shows are hidden.
    pub open spec fn hides_right(self, ws: Workspace) -> bool {
        Rect::last_visible(self.view.tab_hit_areas@) matches Some(last) && last + 1
            < ws.tabs@.len()
    }

    /// The pointer can be used on the control that scrolls to the left.
    pub open spec fn has_left_button(self) -> bool {
        self.mouse_capture && self.view.tab_scroll_left_hit_area.width > 0
    }

    /// The pointer can be used on the control that scrolls to the right.
    pub open spec fn has_right_button(self) -> bool {
        self.mouse_capture && self.view.tab_scroll_right_hit_area.width > 0
    }

    /// What lies behind the bar.
    pub open spec fn background(self, area: Rect) -> PaintLook {
        PaintLook::text(
            crate::text::spaces(area.width as int),
            TextStyle { bg: Some(self.palette.panel_bg), ..TextStyle::unchanged() },
            area,
        )
    }

    /// The control that scrolls to the left, pale where there is nothing to scroll to.
    pub open spec fn left_button(self) -> Option<PaintLook> {
        if self.has_left_button() {
            Some(
                PaintLook::text(
                    seq![' ', '<', ' '],
                    self.palette.scroll_button_style(self.tab_scroll > 0),
                    self.view.tab_scroll_left_hit_area,
                ),
            )
        } else {
            None
        }
    }

    /// The control that scrolls to the right, pale where there is nothing to scroll to.
    pub open spec fn right_button(self, ws: Workspace) -> Option<PaintLook> {
        if self.has_right_button() {
            Some(
                PaintLook::text(
                    seq![' ', '>', ' '],
                    self.palette.scroll_button_style(self.hides_right(ws)),
                    self.view.tab_scroll_right_hit_area,
                ),
            )
        } else {
            None
        }
    }

    /// The line of tab `idx`, if it shows.
    pub open spec fn tab_line(self, ws: Workspace, idx: int) -> Option<PaintLook> {
        let rect = self.view.tab_hit_areas@[idx];
        let style = self.palette.tab_style(
            idx == ws.active_tab,
            ws.tabs@[idx].given_name() is None,
        );
        if rect.width > 0 {
            Some(
                PaintLook::Line {
                    spans: self.chrome_ctx().label(ws, idx).spans(
                        style,
                        self.palette,
                        rect.width as int,
                    ),
                    style,
                    rect,
                },
            )
        } else {
            None
        }
    }

    /// The lines of the first `count` tabs, as far as they show.
    pub open spec fn tab_lines(self, ws: Workspace, count: int) -> Seq<PaintLook>
        decreases count,
    {
        if count <= 0 {
            Seq::empty()
        } else {
            self.tab_lines(ws, count - 1) + PaintLook::steps(self.tab_line(ws, count - 1))
        }
    }

    /// The tab before which a tab that is dragged in the active workspace would go.
    pub open spec fn dragged_to(self) -> Option<int> {
        match self.drag {
            Some(
                DragState {
                    target: DragTarget::TabReorder { ws_idx, insert_idx: Some(insert_idx) },
                },
            ) => if self.active == Some(ws_idx) {
                Some(insert_idx as int)
            } else {
                None
            },
            _ => None,
        }
    }

    /// The column at which a dragged tab would go.
    pub open spec fn drop_x(self, ws: Workspace) -> Option<int> {
        match self.dragged_to() {
            Some(insert_idx) => self.view.drop_indicator_x(ws.tabs@.len() as int, insert_idx),
            None => None,
        }
    }

    /// The mark where a dragged tab would go, kept left of the bar's right edge.
    pub open spec fn drop_mark(self, ws: Workspace, area: Rect) -> Option<PaintLook> {
        match self.drop_x(ws) {
            Some(x) => Some(
                PaintLook::Mark {
                    x: min(x, area.right() - 1),
                    y: area.y as int,
                    symbol: seq!['│'],
                    fg: self.palette.accent,
                },
            ),
            None => None,
        }
    }

    /// The control that opens a tab.
    pub open spec fn new_tab_button(self) -> Option<PaintLook> {
        if self.mouse_capture && self.view.new_tab_hit_area.width > 0 {
            Some(
                PaintLook::text(
                    seq![' ', '+', ' '],
                    TextStyle { fg: Some(self.palette.overlay1), ..TextStyle::unchanged() },
                    self.view.new_tab_hit_area,
                ),
            )
        } else {
            None
        }
    }

    /// The column that says that tabs are hidden on the left.
    pub open spec fn left_ellipsis_x(self, area: Rect) -> int {
        if self.has_left_button() {
            self.view.tab_scroll_left_hit_area.right()
        } else {
            area.x as int
        }
    }

    /// The column that says that tabs are hidden on the right.
    pub open spec fn right_ellipsis_x(self, area: Rect) -> int {
        if self.has_right_button() {
            max(self.view.tab_scroll_right_hit_area.x - 1, 0)
        } else {
            area.right() - 1
        }
    }

    /// A mark in the bar's first row that says that tabs are hidden.
    pub open spec fn ellipsis(self, x: int, area: Rect) -> PaintLook {
        PaintLook::Mark { x, y: area.y as int, symbol: seq!['…'], fg: self.palette.overlay0 }
    }

    /// The mark for the tabs that are hidden on the left.
    pub open spec fn left_ellipsis(self, area: Rect) -> Option<PaintLook> {
        if self.hides_left() && self.left_ellipsis_x(area) < area.right() {
            Some(self.ellipsis(self.left_ellipsis_x(area), area))
        } else {
            None
        }
    }

    /// The mark for the tabs that are hidden on the right.
    pub open spec fn right_ellipsis(self, ws: Workspace, area: Rect) -> Option<PaintLook> {
        if self.hides_right(ws) && area.x <= self.right_ellipsis_x(area) < area.right() {
            Some(self.ellipsis(self.right_ellipsis_x(area), area))
        } else {
            None
        }
    }

    /// All steps of painting the bar of a workspace over `area`.
    pub open spec fn workspace_paints(self, ws: Workspace, area: Rect) -> Seq<PaintLook> {
        seq![self.background(area)] + PaintLook::steps(self.left_button()) + PaintLook::steps(
            self.right_button(ws),
        ) + self.tab_lines(
            ws,
            min(ws.tabs@.len() as int, self.view.tab_hit_areas@.len() as int),
        ) + PaintLook::steps(self.drop_mark(ws, area)) + PaintLook::steps(self.new_tab_button())
            + PaintLook::steps(self.left_ellipsis(area)) + PaintLook::steps(
            self.right_ellipsis(ws, area),
        )
    }

    /// All steps of painting the tab bar over `area`: none where the bar has no cells or no
    /// workspace shows.
    pub open spec fn tab_bar_paints(self, area: Rect) -> Seq<PaintLook> {
        match self.active_workspace() {
            Some(ws) => if area.is_empty() {
                Seq::empty()
            } else {
                self.workspace_paints(ws, area)
            },
            None => Seq::empty(),
        }
    }

    /// The step is one of painting the bar of a workspace over `area`.
    pub open spec fn is_step(self, paint: PaintLook, ws: Workspace, area: Rect) -> bool {
        ||| paint == self.background(area)
        ||| self.left_button() == Some(paint)
        ||| self.right_button(ws) == Some(paint)
        ||| self.is_tab_line(paint, ws, self.view.tab_hit_areas@.len() as int)
        ||| self.drop_mark(ws, area) == Some(paint)
        ||| self.new_tab_button() == Some(paint)
        ||| self.left_ellipsis(area) == Some(paint)
        ||| self.right_ellipsis(ws, area) == Some(paint)
    }

    /// The step draws the line of one of the first `count` tabs.
    pub open spec fn is_tab_line(self, paint: PaintLook, ws: Workspace, count: int) -> bool {
        exists|idx: int|
            0 <= idx < count && idx < ws.tabs@.len() && (#[trigger] self.tab_line(ws, idx))
                == Some(paint)
    }

    pub(crate) proof fn lemma_tab_lines(self, ws: Workspace, count: int)
        requires
            count <= ws.tabs@.len(),
        ensures
            forall|i: int|
                0 <= i < self.tab_lines(ws, count).len() ==> self.is_tab_line(
                    #[trigger] self.tab_lines(ws, count)[i],
                    ws,
                    count,
                ),
        decreases count,
    {
        if count > 0 {
            self.lemma_tab_lines(ws, count - 1);
            let earlier = self.tab_lines(ws, count - 1);
            let lines = self.tab_lines(ws, count);
            assert forall|i: int| 0 <= i < lines.len() implies self.is_tab_line(
                #[trigger] lines[i],
                ws,
                count,
            ) by {
                if i < earlier.len() {
                    assert(self.is_tab_line(earlier[i], ws, count - 1));
                } else {
                    assert(self.tab_line(ws, count - 1) == Some(lines[i]));
                }
            }
        }
    }

    /// Every step of painting the bar is one of those that make it up.
    #[verifier::rlimit(40)]
    pub(crate) proof fn lemma_steps(self, ws: Workspace, area: Rect)
        ensures
            forall|i: int|
                0 <= i < self.workspace_paints(ws, area).len() ==> self.is_step(
                    #[trigger] self.workspace_paints(ws, area)[i],
                    ws,
                    area,
                ),
    {
        let count = min(ws.tabs@.len() as int, self.view.tab_hit_areas@.len() as int);
        self.lemma_tab_lines(ws, count);
        let p0 = seq![self.background(area)];
        let p1 = p0 + PaintLook::steps(self.left_button());
        let p2 = p1 + PaintLook::steps(self.right_button(ws));
        let p3 = p2 + self.tab_lines(ws, count);
        let p4 = p3 + PaintLook::steps(self.drop_mark(ws, area));
        let p5 = p4 + PaintLook::steps(self.new_tab_button());
        let p6 = p5 + PaintLook::steps(self.left_ellipsis(area));
        assert forall|i: int| 0 <= i < self.workspace_paints(ws, area).len() implies self.is_step(
            #[trigger] self.workspace_paints(ws, area)[i],
            ws,
            area,
        ) by {
            if p2.len() <= i < p3.len() {
                assert(self.is_tab_line(self.tab_lines(ws, count)[i - p2.len()], ws, count));
            }
        }
    }

    /// All text of the bar has the background and the weight of its line.
    pub(crate) proof fn lemma_text_keeps_to_line(self, area: Rect)
        ensures
            PaintLook::all_text_keeps_to_line(self.tab_bar_paints(area)),
    {
        if let Some(ws) = self.active_workspace() {
            self.lemma_steps(ws, area);
            let paints = self.workspace_paints(ws, area);
            assert forall|i: int| 0 <= i < paints.len() implies (
            #[trigger] paints[i]).text_keeps_to_line() by {
                assert(self.is_step(paints[i], ws, area));
            }
        }
    }

    /// Every column that painting the bar works with is a coordinate: the column of the mark for
    /// a dragged tab and the last column of the bar, where there is such a mark; the column that
    /// says that tabs are hidden and the right edge of the bar, where there are such tabs.
    pub open spec fn columns_fit(self, area: Rect) -> bool {
        match self.active_workspace() {
            Some(ws) => area.is_empty() || {
                &&& self.drop_x(ws) matches Some(x) ==> x <= u16::MAX && area.right() - 1
                    <= u16::MAX
                &&& self.hides_left() ==> self.left_ellipsis_x(area) <= u16::MAX
                    && area.right_fits()
                &&& self.hides_right(ws) && area.x <= self.right_ellipsis_x(area)
                    ==> area.right_fits()
            },
            None => true,
        }
    }
}

fn unchanged() -> (style: TextStyle)
    ensures
        style == TextStyle::unchanged(),
{
    TextStyle { fg: None, bg: None, weight: Weight::Normal }
}

fn push_step(paints: &mut Vec<Paint>, paint: Option<Paint>)
    ensures
        PaintLook::of(final(paints)@) == PaintLook::of(old(paints)@) + PaintLook::steps(
            PaintLook::maybe(paint),
        ),
{
    if let Some(paint) = paint {
        paints.push(paint);
    }
    assert(PaintLook::of(paints@) =~= PaintLook::of(old(paints)@) + PaintLook::steps(
        PaintLook::maybe(paint),
    ));
}

fn text_line(text: String, style: TextStyle, rect: Rect) -> (paint: Paint)
    ensures
        paint@ == PaintLook::text(text@, style, rect),
{
    let span = TextSpan { text, style: unchanged() };
    let mut spans: Vec<TextSpan> = Vec::new();
    spans.push(span);
    assert(SpanLook::of(spans@) =~= seq![span@]);
    Paint::Line { spans, style, rect }
}

fn scroll_button(p: &Palette, text: &str, enabled: bool, rect: Rect) -> (paint: Paint)
    ensures
        paint@ == PaintLook::text(text@, p.scroll_button_style(enabled), rect),
{
    let style = if enabled {
        TextStyle { fg: Some(p.overlay1), bg: Some(p.surface0), weight: Weight::Normal }
    } else {
        TextStyle { fg: Some(p.overlay0), bg: Some(p.surface0), weight: Weight::Dim }
    };
    text_line(text.to_owned(), style, rect)
}

fn tab_text_style(p: &Palette, active: bool, auto_named: bool) -> (style: TextStyle)
    ensures
        style == p.tab_style(active, auto_named),
{
    if active {
        let weight = if auto_named { Weight::Normal } else { Weight::Bold };
        TextStyle { fg: Some(p.panel_contrast_fg), bg: Some(p.accent), weight }
    } else if auto_named {
        TextStyle { fg: Some(p.overlay0), bg: Some(p.surface0), weight: Weight::Dim }
    } else {
        TextStyle { fg: Some(p.overlay1), bg: Some(p.surface0), weight: Weight::Normal }
    }
}

/// The line of a tab that says `label`, is drawn in `style` and has `width` columns.
pub fn tab_spans(
    label: &TabChromeLabel,
    style: TextStyle,
    p: &Palette,
    width: u16,
) -> (spans: Vec<TextSpan>)
    ensures
        SpanLook::of(spans@) == label@.spans(style, *p, width as int),
{
    proof {
        reveal_strlit(" ");
        assert(" "@ =~= seq![' ']);
    }
    let mut spans: Vec<TextSpan> = Vec::new();
    spans.push(TextSpan { text: " ".to_owned(), style: unchanged() });
    let reserved = match label.status {
        Some(glyph) => {
            let fg = Some(state_label_color(glyph.state, glyph.seen, p));
            spans.push(
                TextSpan {
                    text: glyph.symbol.to_owned(),
                    style: TextStyle { fg, bg: style.bg, weight: style.weight },
                },
            );
            spans.push(TextSpan { text: " ".to_owned(), style: unchanged() });
            glyph.symbol.unicode_len().saturating_add(2)
        },
        None => 1,
    };
    let body = pad_end(label.body.as_str(), (width as usize).saturating_sub(reserved));
    spans.push(TextSpan { text: body, style: unchanged() });
    assert(SpanLook::of(spans@) =~= label@.spans(style, *p, width as int));
    spans
}

/// The lines of the tabs, as far as they show.
fn paint_tabs(app: &AppState, ws: &Workspace, paints: &mut Vec<Paint>)
    ensures
        PaintLook::of(final(paints)@) == PaintLook::of(old(paints)@) + app.tab_lines(
            *ws,
            min(ws.tabs@.len() as int, app.view.tab_hit_areas@.len() as int),
        ),
{
    let ctx = tab_chrome_ctx(app);
    assert(ctx == app.chrome_ctx());
    let labels = tab_chrome_labels(ws, ctx);
    let mut idx: usize = 0;
    assert(PaintLook::of(paints@) =~= PaintLook::of(old(paints)@) + app.tab_lines(*ws, 0));
    while idx < ws.tabs.len() && idx < app.view.tab_hit_areas.len()
        invariant
            idx <= ws.tabs@.len(),
            idx <= app.view.tab_hit_areas@.len(),
            labels@.len() == ws.tabs@.len(),
            forall|i: int|
                0 <= i < labels@.len() ==> (#[trigger] labels@[i])@ == app.chrome_ctx().label(
                    *ws,
                    i,
                ),
            PaintLook::of(paints@) == PaintLook::of(old(paints)@) + app.tab_lines(
                *ws,
                idx as int,
            ),
        decreases ws.tabs@.len() - idx,
    {
        let rect = app.view.tab_hit_areas[idx];
        let step = if rect.width > 0 {
            let style = tab_text_style(
                &app.palette,
                idx == ws.active_tab,
                ws.tabs[idx].is_auto_named(),
            );
            let spans = tab_spans(&labels[idx], style, &app.palette, rect.width);
            Some(Paint::Line { spans, style, rect })
        } else {
            None
        };
        assert(PaintLook::maybe(step) == app.tab_line(*ws, idx as int));
        push_step(paints, step);
        idx = idx + 1;
        assert(PaintLook::of(paints@) =~= PaintLook::of(old(paints)@) + app.tab_lines(
            *ws,
            idx as int,
        ));
    }
}

fn hides_left(app: &AppState) -> (hides: bool)
    ensures
        hides == app.hides_left(),
{
    match first_visible_index(&app.view.tab_hit_areas) {
        Some(first) => first > 0,
        None => false,
    }
}

fn hides_right(app: &AppState, ws: &Workspace) -> (hides: bool)
    ensures
        hides == app.hides_right(*ws),
{
    match last_visible_index(&app.view.tab_hit_areas) {
        Some(last) => ws.tabs.len() > 0 && last < ws.tabs.len() - 1,
        None => false,
    }
}

fn dragged_to(app: &AppState) -> (insert_idx: Option<usize>)
    ensures
        match insert_idx {
            Some(insert_idx) => app.dragged_to() == Some(insert_idx as int),
            None => app.dragged_to() is None,
        },
{
    match (app.drag, app.active) {
        (
            Some(
                DragState {
                    target: DragTarget::TabReorder { ws_idx, insert_idx: Some(insert_idx) },
                },
            ),
            Some(active),
        ) => if active == ws_idx {
            Some(insert_idx)
        } else {
            None
        },
        _ => None,
    }
}

/// The mark where a dragged tab would go.
fn drop_mark(app: &AppState, ws: &Workspace, area: Rect) -> (paint: Option<Paint>)
    requires
        !area.is_empty(),
        app.drop_x(*ws) matches Some(x) ==> x <= u16::MAX && area.right() - 1 <= u16::MAX,
    ensures
        PaintLook::maybe(paint) == app.drop_mark(*ws, area),
{
    proof {
        reveal_strlit("│");
        assert("│"@ =~= seq!['│']);
    }
    match dragged_to(app) {
        Some(insert_idx) => match tab_drop_indicator_x(app, ws, insert_idx) {
            Some(x) => {
                let last = area.x + (area.width - 1);
                Some(
                    Paint::Mark {
                        x: if x < last { x } else { last },
                        y: area.y,
                        symbol: "│",
                        fg: app.palette.accent,
                    },
                )
            },
            None => None,
        },
        None => None,
    }
}

fn ellipsis(app: &AppState, x: u16, area: Rect) -> (paint: Paint)
    ensures
        paint@ == app.ellipsis(x as int, area),
{
    proof {
        reveal_strlit("…");
        assert("…"@ =~= seq!['…']);
    }
    Paint::Mark { x, y: area.y, symbol: "…", fg: app.palette.overlay0 }
}

/// All steps of painting the tab bar over `area`, in order.
pub fn tab_bar_paints(app: &AppState, area: Rect) -> (paints: Vec<Paint>)
    requires
        app.columns_fit(area),
    ensures
        PaintLook::of(paints@) == app.tab_bar_paints(area),
{
    let mut paints: Vec<Paint> = Vec::new();
    assert(PaintLook::of(paints@) =~= Seq::empty());
    let active = match app.active {
        Some(active) => active,
        None => return paints,
    };
    if active >= app.workspaces.len() || area.width == 0 || area.height == 0 {
        return paints;
    }
    let ws = &app.workspaces[active];
    let p = &app.palette;
    let hides_left = hides_left(app);
    let hides_right = hides_right(app, ws);
    let left = app.view.tab_scroll_left_hit_area;
    let right = app.view.tab_scroll_right_hit_area;
    let has_left_button = app.mouse_capture && left.width > 0;
    let has_right_button = app.mouse_capture && right.width > 0;
    proof {
        reveal_strlit("");
        reveal_strlit(" < ");
        reveal_strlit(" > ");
        reveal_strlit(" + ");
        assert(" < "@ =~= seq![' ', '<', ' ']);
        assert(" > "@ =~= seq![' ', '>', ' ']);
        assert(" + "@ =~= seq![' ', '+', ' ']);
    }

    let blank = pad_end("", area.width as usize);
    assert(blank@ =~= crate::text::spaces(area.width as int));
    let behind = TextStyle { fg: None, bg: Some(p.panel_bg), weight: Weight::Normal };
    push_step(&mut paints, Some(text_line(blank, behind, area)));
    if has_left_button {
        push_step(&mut paints, Some(scroll_button(p, " < ", app.tab_scroll > 0, left)));
    }
    if has_right_button {
        push_step(&mut paints, Some(scroll_button(p, " > ", hides_right, right)));
    }
    paint_tabs(app, ws, &mut paints);
    push_step(&mut paints, drop_mark(app, ws, area));
    if app.mouse_capture && app.view.new_tab_hit_area.width > 0 {
        let style = TextStyle { fg: Some(p.overlay1), bg: None, weight: Weight::Normal };
        push_step(
            &mut paints,
            Some(text_line(" + ".to_owned(), style, app.view.new_tab_hit_area)),
        );
    }
    if hides_left {
        let x = if has_left_button { left.x + left.width } else { area.x };
        if x < area.x + area.width {
            push_step(&mut paints, Some(ellipsis(app, x, area)));
        }
    }
    if hides_right {
        let x = if has_right_button {
            right.x.saturating_sub(1)
        } else {
            area.x + (area.width - 1)
        };
        if x >= area.x && x < area.x + area.width {
            push_step(&mut paints, Some(ellipsis(app, x, area)));
        }
    }
    assert(PaintLook::of(paints@) =~= app.workspace_paints(*ws, area));
    paints
}

/// Carry out the given steps, in order.
fn paint(paints: &[Paint], buf: &mut Buffer)
    requires
        PaintLook::all_can_be_done(PaintLook::of(paints@), *old(buf)),
    ensures
        crate::surface::buffer_cells(*final(buf)) == PaintLook::apply_all(
            PaintLook::of(paints@),
            crate::surface::buffer_area(*old(buf)),
            crate::surface::buffer_cells(*old(buf)),
        ),
        crate::surface::buffer_area(*final(buf)) == crate::surface::buffer_area(*old(buf)),
        crate::surface::buffer_cells(*final(buf)).dom() == crate::surface::buffer_cells(
            *old(buf),
        ).dom(),
        PaintLook::others_keep(
            PaintLook::of(paints@),
            crate::surface::buffer_cells(*old(buf)),
            crate::surface::buffer_cells(*final(buf)),
        ),
        PaintLook::all_text_keeps_to_line(PaintLook::of(paints@))
            ==> PaintLook::backgrounds_follow(
            PaintLook::of(paints@),
            paints@.len() as int,
            crate::surface::buffer_cells(*old(buf)),
            crate::surface::buffer_cells(*final(buf)),
        ),
        PaintLook::all_text_keeps_to_line(PaintLook::of(paints@)) ==> PaintLook::weights_follow(
            PaintLook::of(paints@),
            paints@.len() as int,
            crate::surface::buffer_cells(*old(buf)),
            crate::surface::buffer_cells(*final(buf)),
        ),
        PaintLook::foregrounds_follow(
            PaintLook::of(paints@),
            paints@.len() as int,
            crate::surface::buffer_cells(*old(buf)),
            crate::surface::buffer_cells(*final(buf)),
        ),
        paints@.len() == 0 ==> *final(buf) == *old(buf),
{
    let ghost steps = PaintLook::of(paints@);
    let ghost before = crate::surface::buffer_cells(*old(buf));
    let mut idx: usize = 0;
    while idx < paints.len()
        invariant
            idx <= paints@.len(),
            steps == PaintLook::of(paints@),
            before == crate::surface::buffer_cells(*old(buf)),
            PaintLook::all_mark_one_of(steps, before),
            PaintLook::all_lines_fit(steps, crate::surface::buffer_area(*old(buf))),
            paints@.len() > 0 ==> crate::surface::paintable(*buf),
            crate::surface::buffer_cells(*buf) == PaintLook::apply_first(
                steps,
                idx as int,
                crate::surface::buffer_area(*old(buf)),
                before,
            ),
            crate::surface::buffer_area(*buf) == crate::surface::buffer_area(*old(buf)),
            crate::surface::buffer_cells(*buf).dom() == before.dom(),
            PaintLook::others_keep(steps, before, crate::surface::buffer_cells(*buf)),
            PaintLook::all_text_keeps_to_line(steps) ==> PaintLook::backgrounds_follow(
                steps,
                idx as int,
                before,
                crate::surface::buffer_cells(*buf),
            ),
            PaintLook::all_text_keeps_to_line(steps) ==> PaintLook::weights_follow(
                steps,
                idx as int,
                before,
                crate::surface::buffer_cells(*buf),
            ),
            PaintLook::foregrounds_follow(
                steps,
                idx as int,
                before,
                crate::surface::buffer_cells(*buf),
            ),
            idx == 0 ==> *buf == *old(buf),
        decreases paints@.len() - idx,
    {
        assert(steps[idx as int].marks_one_of(before));
        assert(steps[idx as int].line_fits(crate::surface::buffer_area(*buf)));
        let ghost cells = crate::surface::buffer_cells(*buf);
        match &paints[idx] {
            Paint::Line { spans, style, rect } => draw_line(buf, spans, *style, *rect),
            Paint::Mark { x, y, symbol, fg } => mark_cell(buf, *x, *y, symbol, *fg),
        }
        assert(crate::surface::buffer_cells(*buf).dom() =~= before.dom());
        proof {
            if let PaintLook::Line { spans, style, rect } = steps[idx as int] {
                let screen = crate::surface::buffer_area(*buf);
                assert forall|x: u16, y: u16| #[trigger]
                    before.contains_key((x, y)) && rect.has_cell(x as int, y as int) implies {
                    let after = crate::surface::buffer_cells(*buf)[(x, y)];
                    &&& SpanLook::share_background(spans, style) ==> after.bg == style.bg_over(
                        cells[(x, y)].bg,
                    )
                    &&& SpanLook::share_weight(spans, style) ==> {
                        &&& after.bold == (cells[(x, y)].bold || style.weight == Weight::Bold)
                        &&& after.dim == (cells[(x, y)].dim || style.weight == Weight::Dim)
                    }
                    &&& after.fg == style.fg_over(cells[(x, y)].fg) || SpanLook::give_foreground(
                        spans,
                        after.fg,
                    )
                } by {
                    assert(cells.contains_key((x, y)));
                    crate::surface::lemma_drawn_cell(
                        cells[(x, y)],
                        screen,
                        spans,
                        style,
                        rect,
                        x as int,
                        y as int,
                    );
                }
            }
        }
        idx = idx + 1;
    }
}

/// Paint the tab bar over `area`.
pub fn render_tab_bar(app: &AppState, buf: &mut Buffer, area: Rect)
    requires
        app.columns_fit(area),
        PaintLook::all_can_be_done(app.tab_bar_paints(area), *old(buf)),
    ensures
        crate::surface::buffer_cells(*final(buf)) == PaintLook::apply_all(
            app.tab_bar_paints(area),
            crate::surface::buffer_area(*old(buf)),
            crate::surface::buffer_cells(*old(buf)),
        ),
        crate::surface::buffer_area(*final(buf)) == crate::surface::buffer_area(*old(buf)),
        crate::surface::buffer_cells(*final(buf)).dom() == crate::surface::buffer_cells(
            *old(buf),
        ).dom(),
        PaintLook::others_keep(
            app.tab_bar_paints(area),
            crate::surface::buffer_cells(*old(buf)),
            crate::surface::buffer_cells(*final(buf)),
        ),
        PaintLook::backgrounds_follow(
            app.tab_bar_paints(area),
            app.tab_bar_paints(area).len() as int,
            crate::surface::buffer_cells(*old(buf)),
            crate::surface::buffer_cells(*final(buf)),
        ),
        PaintLook::weights_follow(
            app.tab_bar_paints(area),
            app.tab_bar_paints(area).len() as int,
            crate::surface::buffer_cells(*old(buf)),
            crate::surface::buffer_cells(*final(buf)),
        ),
        PaintLook::foregrounds_follow(
            app.tab_bar_paints(area),
            app.tab_bar_paints(area).len() as int,
            crate::surface::buffer_cells(*old(buf)),
            crate::surface::buffer_cells(*final(buf)),
        ),
        app.tab_bar_paints(area).len() == 0 ==> *final(buf) == *old(buf),
{
    let paints = tab_bar_paints(app, area);
    proof {
        app.lemma_text_keeps_to_line(area);
    }
    paint(&paints, buf);
}

/// Every column that painting the bar works with is a coordinate; see
/// [`AppState::columns_fit`].
fn check_columns(app: &AppState, area: Rect) -> (fit: bool)
    ensures
        fit == app.columns_fit(area),
{
    let active = match app.active {
        Some(active) => active,
        None => return true,
    };
    if active >= app.workspaces.len() || area.width == 0 || area.height == 0 {
        return true;
    }
    let ws = &app.workspaces[active];
    let last: u32 = u16::MAX as u32;
    let right_edge: u32 = area.x as u32 + area.width as u32;
    if let Some(insert_idx) = dragged_to(app) {
        if let Some(x) = drop_indicator_column(&app.view, ws.tabs.len(), insert_idx) {
            if x > last || right_edge - 1 > last {
                return false;
            }
        }
    }
    let left = app.view.tab_scroll_left_hit_area;
    if hides_left(app) {
        if right_edge > last {
            return false;
        }
        if app.mouse_capture && left.width > 0 && left.x as u32 + left.width as u32 > last {
            return false;
        }
    }
    let right = app.view.tab_scroll_right_hit_area;
    let has_right_button = app.mouse_capture && right.width > 0;
    if hides_right(app, ws) && (!has_right_button || area.x <= right.x.saturating_sub(1)) {
        return right_edge <= last;
    }
    true
}

/// The given steps can be carried out on the buffer; see [`PaintLook::all_can_be_done`].
fn check_steps(paints: &[Paint], buf: &Buffer) -> (ready: bool)
    ensures
        ready == PaintLook::all_can_be_done(PaintLook::of(paints@), *buf),
{
    let ghost steps = PaintLook::of(paints@);
    assert(steps.len() == paints@.len());
    if paints.len() > 0 && !is_paintable(buf) {
        return false;
    }
    let screen = area_of(buf);
    let mut idx: usize = 0;
    while idx < paints.len()
        invariant
            idx <= paints@.len(),
            steps == PaintLook::of(paints@),
            screen == crate::surface::buffer_area(*buf),
            forall|i: int| 0 <= i < idx ==> (#[trigger] steps[i]).line_fits(screen),
            forall|i: int|
                0 <= i < idx ==> (#[trigger] steps[i]).marks_one_of(
                    crate::surface::buffer_cells(*buf),
                ),
        decreases paints@.len() - idx,
    {
        let fits = match &paints[idx] {
            Paint::Line { spans, rect, .. } => row_fits(spans, rect.room(screen)),
            Paint::Mark { x, y, .. } => has_cell(buf, *x, *y),
        };
        if !fits {
            assert(!(steps[idx as int].line_fits(screen) && steps[idx as int].marks_one_of(
                crate::surface::buffer_cells(*buf),
            )));
            return false;
        }
        idx = idx + 1;
    }
    true
}

/// Paint the tab bar over `area`, or leave the buffer alone where that cannot be done: where a
/// column is no coordinate, the buffer lacks cells, the columns of a line do not add up to
/// coordinates, or a mark would go outside the cells of the buffer.
pub fn try_render_tab_bar(app: &AppState, buf: &mut Buffer, area: Rect) -> (painted: bool)
    ensures
        painted <==> app.columns_fit(area) && PaintLook::all_can_be_done(
            app.tab_bar_paints(area),
            *old(buf),
        ),
        painted ==> crate::surface::buffer_cells(*final(buf)) == PaintLook::apply_all(
            app.tab_bar_paints(area),
            crate::surface::buffer_area(*old(buf)),
            crate::surface::buffer_cells(*old(buf)),
        ),
        crate::surface::buffer_area(*final(buf)) == crate::surface::buffer_area(*old(buf)),
        crate::surface::buffer_cells(*final(buf)).dom() == crate::surface::buffer_cells(
            *old(buf),
        ).dom(),
        PaintLook::others_keep(
            app.tab_bar_paints(area),
            crate::surface::buffer_cells(*old(buf)),
            crate::surface::buffer_cells(*final(buf)),
        ),
        painted ==> PaintLook::backgrounds_follow(
            app.tab_bar_paints(area),
            app.tab_bar_paints(area).len() as int,
            crate::surface::buffer_cells(*old(buf)),
            crate::surface::buffer_cells(*final(buf)),
        ),
        painted ==> PaintLook::weights_follow(
            app.tab_bar_paints(area),
            app.tab_bar_paints(area).len() as int,
            crate::surface::buffer_cells(*old(buf)),
            crate::surface::buffer_cells(*final(buf)),
        ),
        painted ==> PaintLook::foregrounds_follow(
            app.tab_bar_paints(area),
            app.tab_bar_paints(area).len() as int,
            crate::surface::buffer_cells(*old(buf)),
            crate::surface::buffer_cells(*final(buf)),
        ),
        !painted || app.tab_bar_paints(area).len() == 0 ==> *final(buf) == *old(buf),
{
    if !check_columns(app, area) {
        return false;
    }
    let paints = tab_bar_paints(app, area);
    if !check_steps(&paints, buf) {
        return false;
    }
    proof {
        app.lemma_text_keeps_to_line(area);
    }
    paint(&paints, buf);
    true
}

} // verus!
