use tabbar::tabs::{content_columns, tab_columns, tab_width, TabChromeLabel};
use tabbar::text::{
    clamp_columns, decimal_text, display_width_u16, last_within, pad_end, settled_title,
    truncate_end,
};

#[test]
fn display_width_counts_columns() {
    assert_eq!(display_width_u16(""), 0);
    assert_eq!(display_width_u16("abc"), 3);
    assert_eq!(display_width_u16("提交"), 4);
    assert_eq!(display_width_u16("●"), 1);
    assert_eq!(display_width_u16(&"a".repeat(70_000)), 65_535);
}

#[test]
fn columns_are_clamped() {
    assert_eq!(clamp_columns(0), 0);
    assert_eq!(clamp_columns(65_534), 65_534);
    assert_eq!(clamp_columns(65_535), 65_535);
    assert_eq!(clamp_columns(65_536), 65_535);
}

#[test]
fn a_text_that_fits_is_not_cut() {
    assert_eq!(truncate_end("abc", 3), "abc");
    assert_eq!(truncate_end("提交", 4), "提交");
    assert_eq!(truncate_end("", 0), "");
}

#[test]
fn a_text_is_cut_at_its_end() {
    assert_eq!(truncate_end("a very long agent task title", 10), "a very lo…");
    assert_eq!(truncate_end("提交反馈", 5), "提交…");
    assert_eq!(truncate_end("提交反馈", 4), "提…");
    assert_eq!(truncate_end("abc", 1), "…");
    assert_eq!(truncate_end("abc", 0), "");
}

#[test]
fn a_cut_text_keeps_to_its_width() {
    for max in 0..30 {
        let shown = truncate_end("a 提交 very long 反馈 title", max);
        assert!(usize::from(display_width_u16(&shown)) <= max);
    }
}

#[test]
fn the_last_leading_entry_within_a_width_is_found() {
    assert_eq!(last_within(&[1, 2, 3, 4], 3), Some(2));
    assert_eq!(last_within(&[1, 5, 2], 3), Some(0));
    assert_eq!(last_within(&[4], 3), None);
    assert_eq!(last_within(&[], 3), None);
    assert_eq!(last_within(&[0, 0], 3), Some(1));
}

#[test]
fn numbers_are_written_in_decimal() {
    assert_eq!(decimal_text(0), "0");
    assert_eq!(decimal_text(7), "7");
    assert_eq!(decimal_text(10), "10");
    assert_eq!(decimal_text(1_234_567_890), "1234567890");
    assert_eq!(decimal_text(usize::MAX), usize::MAX.to_string());
}

#[test]
fn padding_counts_characters() {
    assert_eq!(pad_end("ab", 4), "ab  ");
    assert_eq!(pad_end("提交", 3), "提交 ");
    assert_eq!(pad_end("abc", 2), "abc");
    assert_eq!(pad_end("", 2), "  ");
}

#[test]
fn the_animation_in_front_of_a_title_is_dropped() {
    assert_eq!(settled_title("✳ Fix the parser"), "Fix the parser");
    assert_eq!(settled_title("⠋ Fix the parser"), "Fix the parser");
    assert_eq!(settled_title("⠙⠹  Fix ✳ it"), "Fix ✳ it");
    assert_eq!(settled_title("plain"), "plain");
    assert_eq!(settled_title("⠋ "), "");
    assert_eq!(settled_title(""), "");
}

#[test]
fn widths_saturate() {
    assert_eq!(content_columns(None, 8), 8);
    assert_eq!(content_columns(Some(1), 8), 10);
    assert_eq!(content_columns(Some(65_535), 8), 65_535);
    assert_eq!(tab_columns(0), 8);
    assert_eq!(tab_columns(4), 8);
    assert_eq!(tab_columns(5), 9);
    assert_eq!(tab_columns(65_534), 65_535);
    let label = TabChromeLabel { status: None, body: "a".repeat(65_533) };
    assert_eq!(label.content_width(), 65_533);
    assert_eq!(tab_width(&label), 65_535);
    assert_eq!(TabChromeLabel::default().plain_text(), "");
    assert_eq!(label.clone().body, label.body);
}
