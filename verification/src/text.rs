//! Text as a terminal shows it: how wide it is, how it is cut, and how it is padded.

use vstd::math::*;
use vstd::prelude::*;
use vstd::string::*;

verus! {

/// What `ratatui::text::Span::width` gives for a span of the given text.
pub uninterp spec fn span_columns(text: Seq<char>) -> nat;

/// The columns of a text, by `ratatui::text::Span::width`.
///
/// Trusted: the width of an unstyled span is a function of its text alone, and a span without
/// text has no columns. The width comes from the tables of the Unicode standard; what they say
/// of a given text is not stated here.
#[verifier::external_body]
fn span_width(text: &str) -> (columns: usize)
    ensures
        columns == span_columns(text@),
        text@.len() == 0 ==> columns == 0,
{
    ratatui::text::Span::raw(text).width()
}

/// The terminal columns that a text takes: none where it is empty, else as many as its span has.
pub open spec fn display_columns(text: Seq<char>) -> nat {
    if text.len() == 0 {
        0
    } else {
        span_columns(text)
    }
}

/// The columns of a text, at most as many as a terminal can have.
pub open spec fn display_width(text: Seq<char>) -> int {
    min(display_columns(text) as int, u16::MAX as int)
}

/// The columns of a text, at most as many as a terminal can have.
pub fn display_width_u16(text: &str) -> (columns: u16)
    ensures
        columns == display_width(text@),
{
    clamp_columns(span_width(text))
}

/// A number of columns, at most as many as a terminal can have.
pub fn clamp_columns(columns: usize) -> (clamped: u16)
    ensures
        clamped == min(columns as int, u16::MAX as int),
{
    if columns < u16::MAX as usize {
        columns as u16
    } else {
        u16::MAX
    }
}

/// The first `len` characters of a text and a mark that the rest is missing.
pub open spec fn cut(text: Seq<char>, len: int) -> Seq<char> {
    text.take(len) + seq!['…']
}

/// The text cut after `len` characters takes at most `max_width` columns.
pub open spec fn cut_fits(text: Seq<char>, max_width: int, len: int) -> bool {
    display_columns(cut(text, len)) <= max_width
}

/// Cut after any number of characters up to `len` the text fits, but not after one more.
pub open spec fn is_cut_len(text: Seq<char>, max_width: int, len: int) -> bool {
    &&& 0 <= len <= text.len()
    &&& forall|shorter: int| 0 <= shorter <= len ==> #[trigger] cut_fits(text, max_width, shorter)
    &&& len < text.len() ==> !cut_fits(text, max_width, len + 1)
}

/// The text as it stands in `max_width` columns: all of it where it fits, else as many of its
/// first characters as fit beside the mark, or nothing where even the mark does not fit.
pub open spec fn truncated(text: Seq<char>, max_width: int) -> Seq<char> {
    if display_columns(text) <= max_width {
        text
    } else if !cut_fits(text, max_width, 0) {
        Seq::empty()
    } else {
        cut(text, choose|len: int| is_cut_len(text, max_width, len))
    }
}

/// The last of the leading entries that are at most `max_width`.
pub fn last_within(columns: &[usize], max_width: usize) -> (last: Option<usize>)
    ensures
        match last {
            Some(last) => {
                &&& last < columns@.len()
                &&& forall|i: int| 0 <= i <= last ==> columns@[i] <= max_width
                &&& last + 1 < columns@.len() ==> columns@[last + 1] > max_width
            },
            None => columns@.len() == 0 || columns@[0] > max_width,
        },
{
    let mut count: usize = 0;
    while count < columns.len() && columns[count] <= max_width
        invariant
            count <= columns@.len(),
            forall|i: int| 0 <= i < count ==> columns@[i] <= max_width,
        decreases columns@.len() - count,
    {
        count = count + 1;
    }
    if count == 0 {
        None
    } else {
        Some(count - 1)
    }
}

fn cut_at(text: &str, len: usize) -> (cut_text: String)
    requires
        len <= text@.len(),
    ensures
        cut_text@ == cut(text@, len as int),
{
    let mut cut_text = text.substring_char(0, len).to_owned();
    cut_text.append("…");
    proof {
        reveal_strlit("…");
        assert("…"@ =~= seq!['…']);
    }
    cut_text
}

/// A text as it stands in `max_width` columns: all of it where it fits, else as many of its
/// first characters as fit beside a mark that the rest is missing.
pub fn truncate_end(text: &str, max_width: usize) -> (shown: String)
    ensures
        shown@ == truncated(text@, max_width as int),
{
    if span_width(text) <= max_width {
        return text.to_owned();
    }
    let len = text.unicode_len();
    let mut columns: Vec<usize> = Vec::new();
    let mut next: usize = 0;
    loop
        invariant_except_break
            len == text@.len(),
            next <= len,
            columns@.len() == next,
            forall|i: int| 0 <= i < next ==> cut_fits(text@, max_width as int, i),
            forall|i: int|
                0 <= i < next ==> #[trigger] columns@[i] == display_columns(cut(text@, i)),
        ensures
            next <= len,
            columns@.len() == next + 1,
            forall|i: int|
                0 <= i <= next ==> #[trigger] columns@[i] == display_columns(cut(text@, i)),
            next < len ==> columns@[next as int] > max_width,
        decreases len - next,
    {
        let measured = span_width(cut_at(text, next).as_str());
        columns.push(measured);
        if measured > max_width || next == len {
            break;
        }
        next = next + 1;
    }
    match last_within(&columns, max_width) {
        Some(last) => {
            proof {
                assert forall|shorter: int| 0 <= shorter <= last implies #[trigger] cut_fits(
                    text@,
                    max_width as int,
                    shorter,
                ) by {
                    assert(columns@[shorter] <= max_width);
                }
                if last < len {
                    assert(columns@[last + 1] > max_width);
                }
                assert(is_cut_len(text@, max_width as int, last as int));
                let other = choose|len: int| is_cut_len(text@, max_width as int, len);
                assert(cut_fits(text@, max_width as int, last as int));
                assert(cut_fits(text@, max_width as int, other));
                assert(other < last ==> cut_fits(text@, max_width as int, other + 1));
                assert(last < other ==> cut_fits(text@, max_width as int, last + 1));
                assert(cut_fits(text@, max_width as int, 0));
            }
            cut_at(text, last)
        },
        None => String::new(),
    }
}

/// The digit `value` in a decimal numeral.
pub open spec fn digit(value: int) -> char {
    if value == 0 {
        '0'
    } else if value == 1 {
        '1'
    } else if value == 2 {
        '2'
    } else if value == 3 {
        '3'
    } else if value == 4 {
        '4'
    } else if value == 5 {
        '5'
    } else if value == 6 {
        '6'
    } else if value == 7 {
        '7'
    } else if value == 8 {
        '8'
    } else {
        '9'
    }
}

/// The decimal numeral of a number.
pub open spec fn decimal(value: nat) -> Seq<char>
    decreases value,
{
    if value < 10 {
        seq![digit(value as int)]
    } else {
        decimal(value / 10).push(digit((value % 10) as int))
    }
}

fn digit_text(value: usize) -> (text: &'static str)
    requires
        value < 10,
    ensures
        text@ == seq![digit(value as int)],
{
    proof {
        reveal_strlit("0");
        reveal_strlit("1");
        reveal_strlit("2");
        reveal_strlit("3");
        reveal_strlit("4");
        reveal_strlit("5");
        reveal_strlit("6");
        reveal_strlit("7");
        reveal_strlit("8");
        reveal_strlit("9");
    }
    match value {
        0 => "0",
        1 => "1",
        2 => "2",
        3 => "3",
        4 => "4",
        5 => "5",
        6 => "6",
        7 => "7",
        8 => "8",
        _ => "9",
    }
}

/// The decimal numeral of a number.
pub fn decimal_text(value: usize) -> (text: String)
    ensures
        text@ == decimal(value as nat),
    decreases value,
{
    if value < 10 {
        digit_text(value).to_owned()
    } else {
        let mut text = decimal_text(value / 10);
        text.append(digit_text(value % 10));
        assert(text@ =~= decimal(value as nat));
        text
    }
}

/// A text of spaces.
pub open spec fn spaces(count: int) -> Seq<char> {
    Seq::new(count as nat, |i: int| ' ')
}

/// A text followed by as many spaces as it takes to have `width` characters.
pub open spec fn padded(text: Seq<char>, width: int) -> Seq<char> {
    text + spaces(max(width - text.len(), 0))
}

/// A text followed by as many spaces as it takes to have `width` characters.
pub fn pad_end(text: &str, width: usize) -> (shown: String)
    ensures
        shown@ == padded(text@, width as int),
{
    let mut shown = text.to_owned();
    let mut count = text.unicode_len();
    proof {
        reveal_strlit(" ");
    }
    while count < width
        invariant
            count == shown@.len(),
            shown@ =~= text@ + spaces(count - text@.len()),
            text@.len() <= count,
            count <= max(width as int, text@.len() as int),
            " "@ =~= seq![' '],
        decreases width - count,
    {
        shown.append(" ");
        count = count + 1;
    }
    shown
}

/// The character belongs to an animation that runs in front of a terminal title: a braille
/// pattern or a star.
pub open spec fn is_animation(c: char) -> bool {
    0x2800 <= c as u32 <= 0x28ff || 0x2722 <= c as u32 <= 0x274b
}

/// The part of a title that does not change from frame to frame: what follows the animation
/// and the spaces at its start.
pub open spec fn settled(title: Seq<char>) -> Seq<char>
    decreases title.len(),
{
    if title.len() > 0 && (is_animation(title[0]) || title[0] == ' ') {
        settled(title.drop_first())
    } else {
        title
    }
}

/// The part of a title that follows the animation and the spaces at its start.
pub fn settled_title(title: &str) -> (text: String)
    ensures
        text@ == settled(title@),
{
    let len = title.unicode_len();
    let mut start: usize = 0;
    assert(title@.skip(0) =~= title@);
    while start < len
        invariant
            len == title@.len(),
            start <= len,
            settled(title@) == settled(title@.skip(start as int)),
        ensures
            start <= len,
            len == title@.len(),
            settled(title@) == title@.skip(start as int),
        decreases len - start,
    {
        let c = title.get_char(start);
        let code = c as u32;
        let animation = 0x2800 <= code && code <= 0x28ff || 0x2722 <= code && code <= 0x274b;
        if !animation && c != ' ' {
            break;
        }
        assert(title@.skip(start as int).drop_first() =~= title@.skip(start + 1));
        start = start + 1;
    }
    assert(title@.subrange(start as int, len as int) =~= title@.skip(start as int));
    title.substring_char(start, len).to_owned()
}

} // verus!
