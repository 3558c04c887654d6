//! The terminal cells that the bar is painted on.

use crate::rect::Rect;
use ratatui::buffer::{Buffer, CellWidth};
use ratatui::style::{Color, Modifier, Style};
use ratatui::text::{Line, Span};
use ratatui::widgets::{Paragraph, Widget};
use vstd::math::*;
use vstd::prelude::*;

verus! {

/// `ratatui::style::Color`, carried through without being looked into.
#[verifier::external_type_specification]
#[verifier::external_body]
pub struct ExColor(ratatui::style::Color);

/// `ratatui::buffer::Buffer`, the cells that a terminal will show.
#[verifier::external_type_specification]
#[verifier::external_body]
pub struct ExBuffer(ratatui::buffer::Buffer);

/// How strongly text is drawn.
#[derive(Debug, Clone, Copy, PartialEq, Eq, Structural)]
pub enum Weight {
    /// As the cell has it.
    Normal,
    Bold,
    Dim,
}

/// How text is drawn; a color that is not given stays as the cell has it.
#[derive(Debug, Clone, Copy)]
pub struct TextStyle {
    pub fg: Option<Color>,
    pub bg: Option<Color>,
    pub weight: Weight,
}

/// A piece of text that is drawn in one style.
#[derive(Debug)]
pub struct TextSpan {
    pub text: String,
    pub style: TextStyle,
}

/// The contents of a [`TextSpan`].
pub struct SpanLook {
    pub text: Seq<char>,
    pub style: TextStyle,
}

impl View for TextSpan {
    type V = SpanLook;

    open spec fn view(&self) -> SpanLook {
        SpanLook { text: self.text@, style: self.style }
    }
}

impl SpanLook {
    /// The contents of each of the given spans.
    pub open spec fn of(spans: Seq<TextSpan>) -> Seq<SpanLook> {
        Seq::new(spans.len(), |idx: int| spans[idx]@)
    }

    /// No span has a background of its own, but for that of the given style.
    pub open spec fn share_background(spans: Seq<SpanLook>, style: TextStyle) -> bool {
        forall|idx: int|
            0 <= idx < spans.len() ==> (#[trigger] spans[idx]).style.bg is None
                || spans[idx].style.bg == style.bg
    }

    /// No span has a weight of its own, but for that of the given style.
    pub open spec fn share_weight(spans: Seq<SpanLook>, style: TextStyle) -> bool {
        forall|idx: int|
            0 <= idx < spans.len() ==> (#[trigger] spans[idx]).style.weight == Weight::Normal
                || spans[idx].style.weight == style.weight
    }

    /// Some span has a foreground of its own, in the given color.
    pub open spec fn give_foreground(spans: Seq<SpanLook>, fg: Color) -> bool {
        exists|idx: int|
            0 <= idx < spans.len() && (#[trigger] spans[idx]).style.fg == Some(fg)
    }
}

impl TextStyle {
    /// The foreground of a cell that was drawn over in this style.
    pub open spec fn fg_over(self, before: Color) -> Color {
        match self.fg {
            Some(fg) => fg,
            None => before,
        }
    }

    /// The background of a cell that was drawn over in this style.
    pub open spec fn bg_over(self, before: Color) -> Color {
        match self.bg {
            Some(bg) => bg,
            None => before,
        }
    }
}

/// What one cell shows: the symbol, the colors, and whether the modifier of a
/// `ratatui::buffer::Cell` has `BOLD` and `DIM` in it.
pub struct CellLook {
    pub symbol: Seq<char>,
    pub fg: Color,
    pub bg: Color,
    pub bold: bool,
    pub dim: bool,
}

/// What the cells of a `ratatui::buffer::Buffer` show, by column and row; a position at which
/// the buffer has no cell is no key.
pub uninterp spec fn buffer_cells(buf: Buffer) -> Map<(u16, u16), CellLook>;

/// The rectangle that a `ratatui::buffer::Buffer` covers.
pub uninterp spec fn buffer_area(buf: Buffer) -> Rect;

/// The graphemes of a text that are drawn, as `ratatui::text::Span::styled_graphemes` gives
/// them: those that hold no control character.
pub uninterp spec fn span_graphemes(text: Seq<char>) -> Seq<Seq<char>>;

/// The columns of one grapheme, as `ratatui::buffer::CellWidth::cell_width` counts them.
pub uninterp spec fn cell_columns(symbol: Seq<char>) -> u16;

/// The character is one of printable ASCII.
pub open spec fn is_plain(c: char) -> bool {
    0x20 <= c as u32 <= 0x7e
}

/// The character is a control character.
pub open spec fn is_control(c: char) -> bool {
    c as u32 <= 0x1f || 0x7f <= c as u32 <= 0x9f
}

/// Every character of the text is one of printable ASCII.
pub open spec fn is_plain_text(text: Seq<char>) -> bool {
    forall|i: int| 0 <= i < text.len() ==> is_plain(#[trigger] text[i])
}

/// Each character of the text is a grapheme: the text is printable ASCII, or one character that
/// is no control character.
pub open spec fn has_letters(text: Seq<char>) -> bool {
    is_plain_text(text) || (text.len() == 1 && !is_control(text[0]))
}

/// Each character of the text by itself.
pub open spec fn letters(text: Seq<char>) -> Seq<Seq<char>> {
    Seq::new(text.len(), |i: int| seq![text[i]])
}

/// The graphemes of a text that are drawn.
pub open spec fn graphemes(text: Seq<char>) -> Seq<Seq<char>> {
    if has_letters(text) {
        letters(text)
    } else {
        span_graphemes(text)
    }
}

/// The columns of one grapheme.
pub open spec fn symbol_columns(symbol: Seq<char>) -> int {
    if symbol.len() == 1 && is_plain(symbol[0]) {
        1
    } else {
        cell_columns(symbol) as int
    }
}

/// One grapheme of a line and the style of the span that it belongs to.
pub struct Piece {
    pub symbol: Seq<char>,
    pub style: TextStyle,
}

impl SpanLook {
    /// The graphemes of the span.
    pub open spec fn pieces(self) -> Seq<Piece> {
        Seq::new(
            graphemes(self.text).len(),
            |i: int| Piece { symbol: graphemes(self.text)[i], style: self.style },
        )
    }

    /// The graphemes of the first `count` spans, in order.
    pub open spec fn pieces_of(spans: Seq<SpanLook>, count: int) -> Seq<Piece>
        decreases count,
    {
        if count <= 0 {
            Seq::empty()
        } else {
            SpanLook::pieces_of(spans, count - 1) + spans[count - 1].pieces()
        }
    }

    /// Every piece has the style of its span.
    pub(crate) proof fn lemma_piece_style(spans: Seq<SpanLook>, count: int, idx: int)
        requires
            0 <= idx < SpanLook::pieces_of(spans, count).len(),
            count <= spans.len(),
        ensures
            exists|i: int|
                0 <= i < spans.len() && (#[trigger] spans[i]).style == SpanLook::pieces_of(
                    spans,
                    count,
                )[idx].style,
        decreases count,
    {
        let earlier = SpanLook::pieces_of(spans, count - 1);
        if idx < earlier.len() {
            SpanLook::lemma_piece_style(spans, count - 1, idx);
        } else {
            assert(spans[count - 1].style == SpanLook::pieces_of(spans, count)[idx].style);
        }
    }

    /// The graphemes of the first spans come first.
    proof fn lemma_pieces_prefix(spans: Seq<SpanLook>, count: int, more: int)
        requires
            count <= more,
        ensures
            SpanLook::pieces_of(spans, count).is_prefix_of(SpanLook::pieces_of(spans, more)),
        decreases more - count,
    {
        if count < more {
            SpanLook::lemma_pieces_prefix(spans, count, more - 1);
        }
    }
}

/// A line of text in a row of a terminal. Graphemes that are wider than the row are left out;
/// the others stand side by side, as long as there is room.
pub struct TextRow {
    /// The graphemes of the line.
    pub pieces: Seq<Piece>,
    /// The columns of the row.
    pub room: int,
}

impl TextRow {
    /// The line that the given spans make in a row of `room` columns.
    pub open spec fn of(spans: Seq<SpanLook>, room: int) -> TextRow {
        TextRow { pieces: SpanLook::pieces_of(spans, spans.len() as int), room }
    }

    /// The columns of grapheme `idx`.
    pub open spec fn width(self, idx: int) -> int {
        symbol_columns(self.pieces[idx].symbol)
    }

    /// The columns of the graphemes before `idx` together, without those that are wider than the
    /// row.
    pub open spec fn column(self, idx: int) -> int
        decreases idx,
    {
        if idx <= 0 {
            0
        } else if self.width(idx - 1) <= self.room {
            self.column(idx - 1) + self.width(idx - 1)
        } else {
            self.column(idx - 1)
        }
    }

    /// Grapheme `idx` has columns, and there is room for them.
    pub open spec fn shows(self, idx: int) -> bool {
        &&& 0 <= idx < self.pieces.len()
        &&& 0 < self.width(idx)
        &&& self.column(idx) + self.width(idx) <= self.room
    }

    /// Grapheme `idx` shows and stands at the given column.
    pub open spec fn stands_at(self, idx: int, column: int) -> bool {
        self.shows(idx) && self.column(idx) == column
    }

    /// The grapheme that stands at the given column of the row, if one does.
    pub open spec fn at(self, column: int) -> Option<Piece> {
        if exists|idx: int| self.stands_at(idx, column) {
            Some(self.pieces[choose|idx: int| self.stands_at(idx, column)])
        } else {
            None
        }
    }

    /// With grapheme `idx`, the graphemes that were not left out so far take no more columns than
    /// there are coordinates.
    pub open spec fn fits_up_to(self, idx: int) -> bool {
        self.width(idx) <= self.room && self.column(idx) <= self.room ==> self.column(idx)
            + self.width(idx) <= u16::MAX
    }

    /// Up to the first grapheme for which there is no room, the columns of the line are
    /// coordinates.
    pub open spec fn fits(self) -> bool {
        forall|idx: int| 0 <= idx < self.pieces.len() ==> #[trigger] self.fits_up_to(idx)
    }

    pub(crate) proof fn lemma_column_grows(self, idx: int, later: int)
        requires
            0 <= idx <= later,
        ensures
            0 <= self.column(idx) <= self.column(later),
        decreases later,
    {
        if idx < later {
            self.lemma_column_grows(idx, later - 1);
        } else if idx > 0 {
            self.lemma_column_grows(idx - 1, idx - 1);
        }
    }

    /// At most one grapheme stands at a column.
    pub(crate) proof fn lemma_at(self, idx: int)
        requires
            self.shows(idx),
        ensures
            self.at(self.column(idx)) == Some(self.pieces[idx]),
    {
        let column = self.column(idx);
        assert(self.stands_at(idx, column));
        let other = choose|other: int| self.stands_at(other, column);
        assert(self.stands_at(other, column));
        if idx < other {
            self.lemma_column_grows(idx + 1, other);
        } else if other < idx {
            self.lemma_column_grows(other + 1, idx);
        }
    }

    /// Columns of a row that is not too wide add up to a coordinate whatever the text is.
    pub(crate) proof fn lemma_narrow_fits(self)
        requires
            self.room <= MAX_PAINTED_WIDTH,
        ensures
            self.fits(),
    {
    }
}

/// The most columns of a row in which the columns of any text add up to a coordinate.
pub const MAX_PAINTED_WIDTH: u16 = 0x7fff;

impl CellLook {
    /// The cell after it was drawn over in the given style.
    pub open spec fn restyled(self, style: TextStyle) -> CellLook {
        CellLook {
            symbol: self.symbol,
            fg: style.fg_over(self.fg),
            bg: style.bg_over(self.bg),
            bold: self.bold || style.weight == Weight::Bold,
            dim: self.dim || style.weight == Weight::Dim,
        }
    }

    /// The cell after a grapheme, if any, was drawn into it.
    pub open spec fn with_piece(self, piece: Option<Piece>) -> CellLook {
        match piece {
            Some(piece) => CellLook { symbol: piece.symbol, ..self.restyled(piece.style) },
            None => self,
        }
    }
}

/// What the cell in column `x` of row `y` shows after a line of text was drawn over `rect` in
/// `style`, as far as a buffer that covers `screen` shows it. Every cell of the rectangle gets
/// the style; the text stands in the first row.
pub open spec fn drawn_cell(
    before: CellLook,
    screen: Rect,
    spans: Seq<SpanLook>,
    style: TextStyle,
    rect: Rect,
    x: int,
    y: int,
) -> CellLook {
    if !rect.has_cell(x, y) {
        before
    } else if y == rect.top_in(screen) {
        before.restyled(style).with_piece(
            TextRow::of(spans, rect.room_in(screen)).at(x - rect.left_in(screen)),
        )
    } else {
        before.restyled(style)
    }
}

/// What cells of a buffer that covers `screen` show after a line of text was drawn over `rect`.
pub open spec fn drawn_cells(
    cells: Map<(u16, u16), CellLook>,
    screen: Rect,
    spans: Seq<SpanLook>,
    style: TextStyle,
    rect: Rect,
) -> Map<(u16, u16), CellLook> {
    Map::new(
        |at: (u16, u16)| cells.contains_key(at),
        |at: (u16, u16)|
            drawn_cell(cells[at], screen, spans, style, rect, at.0 as int, at.1 as int),
    )
}

/// What a line leaves a cell: the background, and on top of its own weight the weight, of the
/// line where no span has another; the foreground of the line or of a span.
pub(crate) proof fn lemma_drawn_cell(
    before: CellLook,
    screen: Rect,
    spans: Seq<SpanLook>,
    style: TextStyle,
    rect: Rect,
    x: int,
    y: int,
)
    requires
        rect.has_cell(x, y),
    ensures
        ({
            let after = drawn_cell(before, screen, spans, style, rect, x, y);
            &&& SpanLook::share_background(spans, style) ==> after.bg == style.bg_over(before.bg)
            &&& SpanLook::share_weight(spans, style) ==> {
                &&& after.bold == (before.bold || style.weight == Weight::Bold)
                &&& after.dim == (before.dim || style.weight == Weight::Dim)
            }
            &&& after.fg == style.fg_over(before.fg) || SpanLook::give_foreground(spans, after.fg)
        }),
{
    let row = TextRow::of(spans, rect.room_in(screen));
    let column = x - rect.left_in(screen);
    if y == rect.top_in(screen) && row.at(column) is Some {
        let idx = choose|idx: int| row.stands_at(idx, column);
        SpanLook::lemma_piece_style(spans, spans.len() as int, idx);
    }
}

/// The buffer has a cell everywhere in the rectangle that it covers.
pub open spec fn paintable(buf: Buffer) -> bool {
    forall|x: u16, y: u16|
        buffer_area(buf).has_cell(x as int, y as int) ==> #[trigger] buffer_cells(
            buf,
        ).contains_key((x, y))
}

/// The rectangle that a buffer covers, by `ratatui::buffer::Buffer::area`.
///
/// Trusted: it is a property of the buffer.
#[verifier::external_body]
pub(crate) fn area_of(buf: &Buffer) -> (area: Rect)
    ensures
        area == buffer_area(*buf),
{
    let area = buf.area();
    Rect { x: area.x, y: area.y, width: area.width, height: area.height }
}

/// The buffer has a cell in column `x` of row `y`, by `ratatui::buffer::Buffer::cell`.
///
/// Trusted: there is a cell exactly at the positions whose contents the buffer has.
#[verifier::external_body]
pub(crate) fn has_cell(buf: &Buffer, x: u16, y: u16) -> (found: bool)
    ensures
        found == buffer_cells(*buf).contains_key((x, y)),
{
    buf.cell((x, y)).is_some()
}

/// The graphemes of a text that are drawn, by `ratatui::text::Span::styled_graphemes`.
///
/// Trusted: they are a function of the text and hold no control character; each character of
/// printable ASCII is a grapheme, and so is a single character that is no control character. How
/// other text falls into graphemes comes from the tables of the Unicode standard and is not
/// stated here.
#[verifier::external_body]
fn graphemes_of(text: &str) -> (found: Vec<String>)
    ensures
        Seq::new(found@.len(), |i: int| found@[i]@) == span_graphemes(text@),
        has_letters(text@) ==> Seq::new(found@.len(), |i: int| found@[i]@) == letters(text@),
        forall|i: int, j: int|
            0 <= i < found@.len() && 0 <= j < found@[i]@.len() ==> !is_control(
                #[trigger] found@[i]@[j],
            ),
{
    let span = Span::raw(text);
    span.styled_graphemes(Style::default()).map(|grapheme| grapheme.symbol.to_owned()).collect()
}

/// The columns of one grapheme, by `ratatui::buffer::CellWidth::cell_width`.
///
/// Trusted: they are a function of the grapheme, and printable ASCII has one column. What other
/// graphemes have comes from the tables of the Unicode standard and is not stated here.
#[verifier::external_body]
fn symbol_width(symbol: &str) -> (columns: u16)
    requires
        forall|j: int| 0 <= j < symbol@.len() ==> !is_control(#[trigger] symbol@[j]),
    ensures
        columns == cell_columns(symbol@),
        symbol@.len() == 1 && is_plain(symbol@[0]) ==> columns == 1,
{
    symbol.cell_width()
}

/// Draw one line of text into `rect`, by the `render` of a `ratatui::widgets::Paragraph` that is
/// made of the spans and has the given style.
///
/// Trusted: a paragraph of one line that does not wrap gives its style to every cell of the
/// rectangle that the buffer has, and puts the graphemes of the spans into the first of these
/// rows, each in its own style on top of that; see [`TextRow`] for the place of a grapheme. All
/// other cells stay as they were. The paragraph adds up columns in 16 bits, so the text must not
/// lead it past that.
#[verifier::external_body]
pub(crate) fn draw_line(buf: &mut Buffer, spans: &[TextSpan], style: TextStyle, rect: Rect)
    requires
        paintable(*old(buf)),
        TextRow::of(SpanLook::of(spans@), rect.room_in(buffer_area(*old(buf)))).fits(),
    ensures
        buffer_area(*final(buf)) == buffer_area(*old(buf)),
        buffer_cells(*final(buf)) == drawn_cells(
            buffer_cells(*old(buf)),
            buffer_area(*old(buf)),
            SpanLook::of(spans@),
            style,
            rect,
        ),
{
    let converted = |s: TextStyle| Style {
        fg: s.fg,
        bg: s.bg,
        add_modifier: match s.weight {
            Weight::Normal => Modifier::empty(),
            Weight::Bold => Modifier::BOLD,
            Weight::Dim => Modifier::DIM,
        },
        ..Style::default()
    };
    let line: Vec<Span> = spans.iter().map(|s| Span::styled(&s.text, converted(s.style))).collect();
    let Rect { x, y, width, height } = rect;
    let area = ratatui::layout::Rect { x, y, width, height };
    Paragraph::new(Line::from(line)).style(converted(style)).render(area, buf);
}

/// Put a symbol into one cell and color it, by indexing a `ratatui::buffer::Buffer` and by
/// `set_symbol` and `set_style` of the cell.
///
/// Trusted: the cell then shows the symbol in that color, on the background and with the weight
/// that it had; all other cells stay as they were.
#[verifier::external_body]
pub(crate) fn mark_cell(buf: &mut Buffer, x: u16, y: u16, symbol: &str, fg: Color)
    requires
        buffer_cells(*old(buf)).contains_key((x, y)),
    ensures
        buffer_area(*final(buf)) == buffer_area(*old(buf)),
        buffer_cells(*final(buf)) == buffer_cells(*old(buf)).insert(
            (x, y),
            (CellLook { symbol: symbol@, fg, ..buffer_cells(*old(buf))[(x, y)] }),
        ),
{
    buf[(x, y)].set_symbol(symbol).set_style(Style::default().fg(fg));
}

/// The columns of a line of text add up to coordinates in a row of `room` columns; see
/// [`TextRow::fits`].
pub fn row_fits(spans: &[TextSpan], room: u16) -> (fits: bool)
    ensures
        fits == TextRow::of(SpanLook::of(spans@), room as int).fits(),
{
    let ghost looks = SpanLook::of(spans@);
    let ghost row = TextRow::of(looks, room as int);
    if room <= MAX_PAINTED_WIDTH {
        proof {
            row.lemma_narrow_fits();
        }
        return true;
    }
    let mut column: u32 = 0;
    let mut next: usize = 0;
    while next < spans.len()
        invariant
            looks == SpanLook::of(spans@),
            row == TextRow::of(looks, room as int),
            next <= spans@.len(),
            column <= room,
            column == row.column(SpanLook::pieces_of(looks, next as int).len() as int),
            forall|idx: int|
                0 <= idx < SpanLook::pieces_of(looks, next as int).len()
                    ==> #[trigger] row.fits_up_to(idx),
        decreases spans@.len() - next,
    {
        let found = graphemes_of(spans[next].text.as_str());
        let ghost ahead = SpanLook::pieces_of(looks, next as int);
        let ghost through = SpanLook::pieces_of(looks, next + 1);
        proof {
            SpanLook::lemma_pieces_prefix(looks, next + 1, looks.len() as int);
            assert(Seq::new(found@.len(), |i: int| found@[i]@) =~= graphemes(looks[next as int].text));
        }
        let mut done: usize = 0;
        while done < found.len()
            invariant
                looks == SpanLook::of(spans@),
                row == TextRow::of(looks, room as int),
                next < spans@.len(),
                ahead == SpanLook::pieces_of(looks, next as int),
                through == SpanLook::pieces_of(looks, next + 1),
                through.len() == ahead.len() + found@.len(),
                through.is_prefix_of(row.pieces),
                done <= found@.len(),
                column <= room,
                column == row.column(ahead.len() + done),
                forall|i: int|
                    0 <= i < found@.len() ==> (#[trigger] found@[i])@ == through[ahead.len()
                        + i].symbol,
                forall|i: int, j: int|
                    0 <= i < found@.len() && 0 <= j < found@[i]@.len() ==> !is_control(
                        #[trigger] found@[i]@[j],
                    ),
                forall|idx: int|
                    0 <= idx < ahead.len() + done ==> #[trigger] row.fits_up_to(idx),
            decreases found@.len() - done,
        {
            let width = symbol_width(found[done].as_str());
            let ghost idx = ahead.len() + done;
            assert(row.width(idx) == width);
            if width <= room {
                if column + width as u32 > u16::MAX as u32 {
                    assert(!row.fits_up_to(idx));
                    return false;
                }
                column = column + width as u32;
                if column > room as u32 {
                    proof {
                        assert forall|later: int| 0 <= later < row.pieces.len() implies
                            #[trigger] row.fits_up_to(later) by {
                            if later > idx {
                                row.lemma_column_grows(idx + 1, later);
                            }
                        }
                    }
                    return true;
                }
            }
            done = done + 1;
        }
        next = next + 1;
    }
    true
}

/// The buffer has all its cells; see [`paintable`].
pub fn is_paintable(buf: &Buffer) -> (ready: bool)
    ensures
        ready == paintable(*buf),
{
    let area = area_of(buf);
    let right = area.x.saturating_add(area.width);
    let bottom = area.y.saturating_add(area.height);
    let mut y: u16 = area.y;
    while y < bottom
        invariant
            area == buffer_area(*buf),
            right == area.x.saturating_add(area.width),
            bottom == area.y.saturating_add(area.height),
            area.y <= y <= bottom,
            forall|cx: u16, cy: u16|
                area.has_cell(cx as int, cy as int) && cy < y ==> #[trigger] buffer_cells(
                    *buf,
                ).contains_key((cx, cy)),
        decreases bottom - y,
    {
        let mut x: u16 = area.x;
        while x < right
            invariant
                area == buffer_area(*buf),
                right == area.x.saturating_add(area.width),
                bottom == area.y.saturating_add(area.height),
                area.x <= x <= right,
                area.y <= y < bottom,
                forall|cx: u16|
                    area.has_cell(cx as int, y as int) && cx < x ==> #[trigger] buffer_cells(
                        *buf,
                    ).contains_key((cx, y)),
            decreases right - x,
        {
            if !has_cell(buf, x, y) {
                assert(area.has_cell(x as int, y as int));
                return false;
            }
            x = x + 1;
        }
        y = y + 1;
    }
    true
}

} // verus!
