use tabbar::bar::{bar_view_for_widths, trailing_tab_controls_x, TabBarView};
use tabbar::rect::{first_visible_index, last_visible_index, Rect};
use tabbar::strip::{
    centered_scroll_for_widths, choose_scroll, layout_widths, max_scroll_for_widths,
};
use tabbar::tabs::{
    centered_tab_scroll, layout_tab_hit_areas, max_tab_scroll, tab_widths, TabChromeLabel,
};

fn rect(x: u16, y: u16, width: u16, height: u16) -> Rect {
    Rect { x, y, width, height }
}

fn label(body: &str) -> TabChromeLabel {
    TabChromeLabel { status: None, body: body.to_string() }
}

fn same(a: &TabBarView, b: &TabBarView) -> bool {
    a.scroll == b.scroll
        && a.tab_hit_areas == b.tab_hit_areas
        && a.scroll_left_hit_area == b.scroll_left_hit_area
        && a.scroll_right_hit_area == b.scroll_right_hit_area
        && a.new_tab_hit_area == b.new_tab_hit_area
}

#[test]
fn rect_is_cut_back_at_the_last_coordinate() {
    assert_eq!(Rect::new(1, 2, 3, 4), rect(1, 2, 3, 4));
    assert_eq!(Rect::new(65_530, 65_535, 10, 1), rect(65_530, 65_535, 5, 0));
    assert_eq!(Rect::default(), rect(0, 0, 0, 0));
}

#[test]
fn rect_agrees_with_the_terminal_library() {
    for (x, y, w, h) in [(0, 0, 0, 0), (3, 4, 5, 6), (65_530, 65_535, 10, 1), (9, 65_000, 1, 600)] {
        let ours = Rect::new(x, y, w, h);
        let theirs = ratatui::layout::Rect::new(x, y, w, h);
        assert_eq!(
            (ours.x, ours.y, ours.width, ours.height),
            (theirs.x, theirs.y, theirs.width, theirs.height)
        );
    }
}

#[test]
fn tabs_stand_one_column_apart_and_are_cut_off() {
    assert_eq!(
        layout_widths(&[8, 10, 8, 8], rect(2, 1, 22, 1), 0),
        vec![rect(2, 1, 8, 1), rect(11, 1, 10, 1), rect(22, 1, 2, 1), rect(0, 0, 0, 0)]
    );
}

#[test]
fn a_tab_that_would_start_at_the_edge_does_not_show() {
    assert_eq!(
        layout_widths(&[8, 8], rect(0, 0, 9, 1), 0),
        vec![rect(0, 0, 8, 1), rect(0, 0, 0, 0)]
    );
    assert_eq!(
        layout_widths(&[8, 8], rect(0, 0, 10, 1), 0),
        vec![rect(0, 0, 8, 1), rect(9, 0, 1, 1)]
    );
}

#[test]
fn tabs_before_the_scroll_do_not_show() {
    assert_eq!(
        layout_widths(&[8, 8, 8], rect(0, 0, 30, 1), 1),
        vec![rect(0, 0, 0, 0), rect(0, 0, 8, 1), rect(9, 0, 8, 1)]
    );
    assert_eq!(layout_widths(&[8], rect(0, 0, 30, 1), 5), vec![rect(0, 0, 0, 0)]);
}

#[test]
fn an_area_without_cells_shows_no_tab() {
    assert_eq!(layout_widths(&[8], rect(5, 5, 0, 1), 0), vec![rect(0, 0, 0, 0)]);
    assert_eq!(layout_widths(&[8], rect(5, 5, 9, 0), 0), vec![rect(0, 0, 0, 0)]);
    assert_eq!(layout_widths(&[], rect(0, 0, 9, 1), 0), vec![]);
}

#[test]
fn the_widest_tab_fills_the_widest_area() {
    assert_eq!(
        layout_widths(&[65_535, 8], rect(0, 0, 65_535, 1), 0),
        vec![rect(0, 0, 65_535, 1), rect(0, 0, 0, 0)]
    );
    assert_eq!(layout_widths(&[0], rect(0, 0, 4, 1), 0), vec![rect(0, 0, 1, 1)]);
}

#[test]
fn scrolling_on_never_hides_a_tab() {
    let widths = [8, 12, 9, 30, 8, 8];
    let area = rect(1, 0, 25, 1);
    for idx in 0..widths.len() {
        let mut shown = false;
        for scroll in 0..=idx {
            let shows = layout_widths(&widths, area, scroll)[idx].width > 0;
            assert!(shows || !shown);
            shown = shows;
        }
        assert!(shown);
    }
}

#[test]
fn max_scroll_is_the_first_that_shows_the_last_tab() {
    let widths = [8; 6];
    let area = rect(0, 0, 20, 1);
    assert_eq!(max_scroll_for_widths(&widths, area), 3);
    assert_eq!(layout_widths(&widths, area, 2)[5].width, 0);
    assert_eq!(layout_widths(&widths, area, 3)[5], rect(18, 0, 2, 1));
    assert_eq!(max_scroll_for_widths(&[], area), 0);
    assert_eq!(max_scroll_for_widths(&[], rect(65_530, 0, 30, 1)), 0);
    assert_eq!(max_tab_scroll(&[], rect(65_530, 0, 30, 1)), 0);
    assert_eq!(max_scroll_for_widths(&widths, rect(0, 0, 0, 1)), 0);
    assert_eq!(max_scroll_for_widths(&[8], area), 0);
}

#[test]
fn centered_scroll_brings_the_tab_nearest_to_the_middle() {
    let widths = [8; 6];
    // Tab 3 starts at column 27, 18, 9 or 0; the middle of 26 columns is column 13.
    assert_eq!(centered_scroll_for_widths(&widths, 3, rect(0, 0, 26, 1)), 2);
    assert_eq!(centered_scroll_for_widths(&widths, 0, rect(0, 0, 26, 1)), 0);
}

#[test]
fn of_two_equally_near_the_later_first_tab_wins() {
    // Tab 1 has its middle at column 13 or at column 4; that of 17 columns is halfway between.
    assert_eq!(centered_scroll_for_widths(&[8, 8], 1, rect(0, 0, 17, 1)), 1);
}

#[test]
fn a_missing_tab_is_its_own_centered_scroll() {
    assert_eq!(centered_scroll_for_widths(&[8, 8], 7, rect(0, 0, 30, 1)), 7);
    assert_eq!(centered_scroll_for_widths(&[8, 8], 1, rect(0, 0, 0, 1)), 1);
    assert_eq!(centered_scroll_for_widths(&[8], usize::MAX, rect(0, 0, 30, 1)), usize::MAX);
}

#[test]
fn the_scroll_stops_where_the_last_tab_shows() {
    let widths = [8; 6];
    let area = rect(0, 0, 20, 1);
    assert_eq!(choose_scroll(&widths, 5, area, 0, true), 3);
    assert_eq!(choose_scroll(&widths, 0, area, 5, false), 3);
    assert_eq!(choose_scroll(&widths, 0, area, 2, false), 2);
    assert_eq!(choose_scroll(&widths, 0, area, 2, true), 0);
}

#[test]
fn visible_rects_are_found_from_both_ends() {
    let rects = [rect(0, 0, 0, 1), rect(3, 0, 2, 1), rect(6, 0, 1, 1), rect(0, 0, 0, 0)];
    assert_eq!(first_visible_index(&rects), Some(1));
    assert_eq!(last_visible_index(&rects), Some(2));
    assert_eq!(first_visible_index(&rects[3..]), None);
    assert_eq!(last_visible_index(&[]), None);
    assert_eq!(trailing_tab_controls_x(&rects, 40), 7);
    assert_eq!(trailing_tab_controls_x(&rects[..1], 40), 40);
}

#[test]
fn a_bar_without_cells_has_nothing_to_hit() {
    let view = bar_view_for_widths(&[8, 8], 1, rect(4, 0, 0, 1), 1, true, true);
    assert!(same(&view, &TabBarView::default()));
    assert!(view.tab_hit_areas.is_empty());
}

#[test]
fn a_bar_without_controls_gives_all_cells_to_the_tabs() {
    let view = bar_view_for_widths(&[8, 8, 8], 2, rect(0, 0, 20, 1), 0, true, false);
    assert_eq!(view.scroll, 0);
    assert_eq!(
        view.tab_hit_areas,
        vec![rect(0, 0, 8, 1), rect(9, 0, 8, 1), rect(18, 0, 2, 1)]
    );
    assert_eq!(view.new_tab_hit_area, Rect::default());
    assert_eq!(view.scroll_left_hit_area, Rect::default());
    assert_eq!(view.scroll_right_hit_area, Rect::default());
}

#[test]
fn the_new_tab_control_follows_the_last_tab() {
    let view = bar_view_for_widths(&[8, 8], 0, rect(5, 2, 40, 1), 9, false, true);
    assert_eq!(view.scroll, 0);
    assert_eq!(view.tab_hit_areas, vec![rect(5, 2, 8, 1), rect(14, 2, 8, 1)]);
    assert_eq!(view.new_tab_hit_area, rect(22, 2, 3, 1));
    assert_eq!(view.scroll_left_hit_area.width, 0);
    assert_eq!(view.scroll_right_hit_area.width, 0);
}

#[test]
fn a_bar_without_tabs_begins_with_the_new_tab_control() {
    let view = bar_view_for_widths(&[], 0, rect(5, 2, 40, 1), 0, true, true);
    assert_eq!(view.new_tab_hit_area, rect(5, 2, 3, 1));
    let narrow = bar_view_for_widths(&[], 0, rect(5, 2, 2, 1), 0, true, true);
    assert_eq!(narrow.new_tab_hit_area, rect(5, 2, 2, 1));
}

#[test]
fn a_bar_in_which_not_all_tabs_fit_has_three_controls() {
    let view = bar_view_for_widths(&[8; 6], 0, rect(0, 0, 30, 1), 2, false, true);
    assert_eq!(view.scroll, 2);
    assert_eq!(view.scroll_left_hit_area, rect(0, 0, 3, 1));
    assert_eq!(
        view.tab_hit_areas,
        vec![
            rect(0, 0, 0, 0),
            rect(0, 0, 0, 0),
            rect(3, 0, 8, 1),
            rect(12, 0, 8, 1),
            rect(21, 0, 3, 1),
            rect(0, 0, 0, 0),
        ]
    );
    assert_eq!(view.scroll_right_hit_area, rect(24, 0, 3, 1));
    assert_eq!(view.new_tab_hit_area, rect(27, 0, 3, 1));
}

#[test]
fn the_right_controls_close_up_to_the_last_tab() {
    let view = bar_view_for_widths(&[20, 8], 1, rect(0, 0, 24, 1), 0, true, true);
    assert_eq!(view.scroll, 1);
    assert_eq!(view.tab_hit_areas[1], rect(3, 0, 8, 1));
    assert_eq!(view.scroll_right_hit_area, rect(11, 0, 3, 1));
    assert_eq!(view.new_tab_hit_area, rect(14, 0, 3, 1));
}

#[test]
fn a_bar_too_narrow_for_its_controls_shows_no_tab() {
    let view = bar_view_for_widths(&[8, 8], 0, rect(10, 0, 4, 1), 0, true, true);
    assert_eq!(view.tab_hit_areas, vec![Rect::default(); 2]);
    assert_eq!(view.scroll_left_hit_area, rect(10, 0, 3, 1));
    assert_eq!(view.scroll_right_hit_area, rect(8, 0, 3, 1));
    assert_eq!(view.new_tab_hit_area, rect(11, 0, 3, 1));
}

#[test]
fn following_always_shows_the_active_tab() {
    let widths = [8, 14, 9, 30, 8, 12, 8];
    for mouse in [false, true] {
        for width in if mouse { 10..60 } else { 1..60 } {
            for active in 0..widths.len() {
                let view =
                    bar_view_for_widths(&widths, active, rect(3, 0, width, 1), 0, true, mouse);
                assert!(view.tab_hit_areas[active].width > 0);
            }
        }
    }
}

#[test]
fn laying_out_again_changes_nothing() {
    let widths = [8, 14, 9, 30, 8, 12, 8];
    for mouse in [false, true] {
        for active in 0..widths.len() {
            let area = rect(0, 0, 40, 1);
            let view = bar_view_for_widths(&widths, active, area, 1, true, mouse);
            let again = bar_view_for_widths(&widths, active, area, view.scroll, false, mouse);
            assert!(same(&view, &again));
            assert!(same(&view, &view.clone()));
        }
    }
}

#[test]
fn asking_for_more_than_the_last_scroll_changes_nothing() {
    let area = rect(0, 0, 30, 1);
    let last = bar_view_for_widths(&[8; 6], 0, area, 4, false, true);
    assert_eq!(last.scroll, 3);
    assert!(same(&last, &bar_view_for_widths(&[8; 6], 0, area, 99, false, true)));
}

#[test]
fn nothing_in_the_bar_overlaps() {
    let widths = [8, 14, 9, 30, 8, 12, 8];
    for width in 9..120 {
        for scroll in 0..widths.len() {
            let area = rect(3, 0, width, 1);
            let view = bar_view_for_widths(&widths, 0, area, scroll, false, true);
            let mut all = vec![view.scroll_left_hit_area];
            all.extend(view.tab_hit_areas.iter().copied());
            all.push(view.scroll_right_hit_area);
            all.push(view.new_tab_hit_area);
            all.retain(|r| r.width > 0);
            for pair in all.windows(2) {
                assert!(pair[0].x + pair[0].width <= pair[1].x);
            }
            assert!(all[0].x >= area.x);
            let last = all[all.len() - 1];
            assert!(last.x + last.width <= area.x + area.width);
        }
    }
}

#[test]
fn labels_are_laid_out_by_their_widths() {
    let labels = [label("one"), label("a longer name"), label("x")];
    let area = rect(0, 0, 24, 1);
    assert_eq!(tab_widths(&labels), vec![8, 17, 8]);
    assert_eq!(
        layout_tab_hit_areas(&labels, area, 0),
        vec![rect(0, 0, 8, 1), rect(9, 0, 15, 1), rect(0, 0, 0, 0)]
    );
    assert_eq!(max_tab_scroll(&labels, area), 1);
    assert_eq!(centered_tab_scroll(&labels, 1, area), 1);
}
