use ratatui::buffer::Buffer;
use ratatui::style::{Color, Modifier};
use std::collections::HashMap;
use tabbar::rect::Rect;
use tabbar::render::{render_tab_bar, tab_bar_paints, tab_spans, try_render_tab_bar, Paint};
use tabbar::state::{
    state_icon_symbol, state_label_color, AgentState, AppState, DragState, DragTarget, Palette,
    Pane, StatusIndicatorStyle, Tab, TabAutoNameConfig, TabStatusConfig, TerminalState, ViewState,
    Workspace,
};
use tabbar::surface::{is_paintable, row_fits, TextSpan, TextStyle, Weight};
use tabbar::tabs::{
    compute_tab_bar_view, drop_indicator_column, tab_chrome_ctx, tab_chrome_label,
    tab_chrome_labels, tab_drop_indicator_x, tab_name, TabChromeLabel, TabStatusGlyph,
};

fn rect(x: u16, y: u16, width: u16, height: u16) -> Rect {
    Rect { x, y, width, height }
}

fn palette() -> Palette {
    Palette {
        panel_bg: Color::Black,
        panel_contrast_fg: Color::White,
        accent: Color::Blue,
        overlay0: Color::DarkGray,
        overlay1: Color::Gray,
        surface0: Color::Indexed(236),
        blocked: Color::Red,
        working: Color::Yellow,
        done: Color::Cyan,
        idle: Color::Green,
    }
}

fn tab(name: Option<&str>, panes: Vec<Pane>) -> Tab {
    Tab { custom_name: name.map(str::to_string), panes, focused_pane: 0, zoomed: false }
}

fn app_with(names: &[Option<&str>], active_tab: usize) -> AppState {
    let tabs = names
        .iter()
        .enumerate()
        .map(|(idx, name)| tab(*name, vec![Pane { terminal: idx as u64, seen: true }]))
        .collect();
    AppState {
        workspaces: vec![Workspace { tabs, active_tab }],
        active: Some(0),
        terminals: HashMap::new(),
        view: ViewState {
            tab_bar_rect: Rect::default(),
            tab_hit_areas: vec![],
            tab_scroll_left_hit_area: Rect::default(),
            tab_scroll_right_hit_area: Rect::default(),
            new_tab_hit_area: Rect::default(),
        },
        tab_scroll: 0,
        mouse_capture: true,
        drag: None,
        palette: palette(),
        tab_auto_name: TabAutoNameConfig::Number,
        tab_auto_name_max_width: 24,
        show_tab_status: TabStatusConfig::Off,
        status_indicators: StatusIndicatorStyle::Dots,
    }
}

fn lay_out(app: &mut AppState, area: Rect, scroll: usize, follow: bool) {
    let view = compute_tab_bar_view(
        &app.workspaces[0],
        tab_chrome_ctx(app),
        area,
        scroll,
        follow,
        app.mouse_capture,
    );
    app.tab_scroll = view.scroll;
    app.view.tab_bar_rect = area;
    app.view.tab_hit_areas = view.tab_hit_areas;
    app.view.tab_scroll_left_hit_area = view.scroll_left_hit_area;
    app.view.tab_scroll_right_hit_area = view.scroll_right_hit_area;
    app.view.new_tab_hit_area = view.new_tab_hit_area;
}

fn blank(width: u16, height: u16) -> Buffer {
    Buffer::empty(ratatui::layout::Rect::new(0, 0, width, height))
}

fn painted(app: &AppState, width: u16) -> Buffer {
    let mut buf = blank(width, 1);
    render_tab_bar(app, &mut buf, app.view.tab_bar_rect);
    buf
}

fn row(buf: &Buffer) -> String {
    (0..buf.area.width).map(|x| buf[(x, 0)].symbol()).collect()
}

#[test]
fn the_whole_bar_is_painted() {
    let mut app = app_with(&[None, Some("two"), None], 1);
    lay_out(&mut app, rect(0, 0, 34, 1), 0, true);
    let buf = painted(&app, 34);
    assert_eq!(row(&buf), " 1        two      3       +      ");
    assert_eq!(buf[(30, 0)].bg, Color::Black);
}

#[test]
fn a_scrolled_bar_shows_what_is_hidden() {
    let mut app = app_with(&[None; 6], 3);
    lay_out(&mut app, rect(0, 0, 30, 1), 2, false);
    let buf = painted(&app, 30);
    assert_eq!(row(&buf), " < …3        4        5… >  + ");
    assert_eq!(buf[(1, 0)].fg, Color::Gray);
    assert_eq!(buf[(25, 0)].fg, Color::Gray);
    assert!(!buf[(1, 0)].modifier.contains(Modifier::DIM));
    assert_eq!(buf[(3, 0)].fg, Color::DarkGray);
    assert_eq!(buf[(28, 0)].fg, Color::Gray);
}

#[test]
fn a_control_with_nothing_to_scroll_to_is_pale() {
    let mut app = app_with(&[None; 6], 0);
    lay_out(&mut app, rect(0, 0, 30, 1), 0, false);
    let buf = painted(&app, 30);
    assert_eq!(buf[(1, 0)].fg, Color::DarkGray);
    assert!(buf[(1, 0)].modifier.contains(Modifier::DIM));
    assert!(!buf[(25, 0)].modifier.contains(Modifier::DIM));

    lay_out(&mut app, rect(0, 0, 30, 1), 99, false);
    let buf = painted(&app, 30);
    assert!(!buf[(1, 0)].modifier.contains(Modifier::DIM));
    let right = app.view.tab_scroll_right_hit_area.x;
    assert!(buf[(right, 0)].modifier.contains(Modifier::DIM));
}

#[test]
fn without_pointer_the_marks_stand_at_the_edges() {
    let mut app = app_with(&[None; 6], 2);
    app.mouse_capture = false;
    lay_out(&mut app, rect(0, 0, 20, 1), 2, false);
    let buf = painted(&app, 20);
    assert_eq!(row(&buf), "…3        4        …");
    assert_eq!(buf[(0, 0)].fg, Color::DarkGray);
    assert_eq!(buf[(0, 0)].bg, Color::Blue);
}

#[test]
fn the_background_of_a_tab_covers_it() {
    let mut app = app_with(&[Some("named"), None, Some("last")], 0);
    lay_out(&mut app, rect(0, 0, 40, 1), 0, true);
    let buf = painted(&app, 40);
    for (idx, tab_rect) in app.view.tab_hit_areas.iter().enumerate() {
        let bg = if idx == 0 { Color::Blue } else { Color::Indexed(236) };
        for x in tab_rect.x..tab_rect.x + tab_rect.width {
            assert_eq!(buf[(x, 0)].bg, bg);
        }
    }
}

#[test]
fn tab_styles_tell_names_and_the_active_tab_apart() {
    let mut app = app_with(&[Some("named"), None, Some("last"), None], 0);
    lay_out(&mut app, rect(0, 0, 60, 1), 0, true);
    let buf = painted(&app, 60);
    let at = |idx: usize| &buf[(app.view.tab_hit_areas[idx].x + 1, 0)];
    assert_eq!(at(0).fg, Color::White);
    assert_eq!(at(0).modifier, Modifier::BOLD);
    assert_eq!(at(1).fg, Color::DarkGray);
    assert_eq!(at(1).modifier, Modifier::DIM);
    assert_eq!(at(2).fg, Color::Gray);
    assert_eq!(at(2).modifier, Modifier::empty());
}

#[test]
fn the_glyph_has_the_color_of_the_state() {
    let mut app = app_with(&[Some("agent")], 0);
    app.show_tab_status = TabStatusConfig::All;
    app.terminals.insert(
        0,
        TerminalState { terminal_title: None, state: AgentState::Working },
    );
    lay_out(&mut app, rect(0, 0, 30, 1), 0, true);
    let buf = painted(&app, 30);
    assert_eq!(&row(&buf)[..14], " ● agent    ");
    assert_eq!(buf[(1, 0)].fg, Color::Yellow);
    assert_eq!(buf[(1, 0)].bg, Color::Blue);
    assert_eq!(buf[(1, 0)].modifier, Modifier::BOLD);
    assert_eq!(buf[(3, 0)].fg, Color::White);
}

#[test]
fn the_drop_mark_stands_between_the_tabs() {
    let mut app = app_with(&[None; 3], 0);
    lay_out(&mut app, rect(0, 0, 40, 1), 0, true);
    app.drag = Some(DragState {
        target: DragTarget::TabReorder { ws_idx: 0, insert_idx: Some(1) },
    });
    let buf = painted(&app, 40);
    assert_eq!(buf[(8, 0)].symbol(), "│");
    assert_eq!(buf[(8, 0)].fg, Color::Blue);
    assert_eq!(buf[(8, 0)].bg, Color::Black);

    app.drag = Some(DragState {
        target: DragTarget::TabReorder { ws_idx: 1, insert_idx: Some(1) },
    });
    assert_eq!(painted(&app, 40)[(8, 0)].symbol(), " ");
    app.drag = Some(DragState {
        target: DragTarget::TabReorder { ws_idx: 0, insert_idx: None },
    });
    assert_eq!(painted(&app, 40)[(8, 0)].symbol(), " ");
    app.drag = Some(DragState { target: DragTarget::Other });
    assert_eq!(painted(&app, 40)[(8, 0)].symbol(), " ");
}

#[test]
fn the_drop_mark_stays_left_of_the_right_edge() {
    let mut app = app_with(&[Some("a rather long name for a tab")], 0);
    app.mouse_capture = false;
    lay_out(&mut app, rect(0, 0, 10, 1), 0, true);
    app.drag = Some(DragState {
        target: DragTarget::TabReorder { ws_idx: 0, insert_idx: Some(1) },
    });
    assert_eq!(painted(&app, 10)[(9, 0)].symbol(), "│");
}

#[test]
fn drop_indicator_columns() {
    let mut app = app_with(&[None; 6], 0);
    lay_out(&mut app, rect(0, 0, 60, 1), 0, true);
    let x = |app: &AppState, idx| tab_drop_indicator_x(app, &app.workspaces[0], idx);
    assert_eq!(x(&app, 0), Some(0));
    assert_eq!(x(&app, 1), Some(8));
    assert_eq!(x(&app, 6), Some(53));
    assert_eq!(x(&app, 7), Some(53));

    lay_out(&mut app, rect(0, 0, 30, 1), 2, false);
    assert_eq!(x(&app, 0), Some(3));
    assert_eq!(x(&app, 1), None);
    assert_eq!(x(&app, 2), Some(2));
    assert_eq!(x(&app, 3), Some(11));
    assert_eq!(x(&app, 5), None);
    assert_eq!(x(&app, 6), Some(23));

    app.view.tab_hit_areas = vec![Rect::default(); 6];
    assert_eq!(x(&app, 0), None);
    app.view.tab_hit_areas = vec![rect(65_530, 0, 10, 1)];
    assert_eq!(drop_indicator_column(&app.view, 1, 1), Some(65_540));
}

#[test]
fn nothing_is_painted_without_cells_or_workspace() {
    let mut app = app_with(&[None], 0);
    lay_out(&mut app, rect(0, 0, 20, 1), 0, true);
    assert!(!tab_bar_paints(&app, rect(0, 0, 20, 1)).is_empty());
    assert!(tab_bar_paints(&app, rect(0, 0, 0, 1)).is_empty());
    assert!(tab_bar_paints(&app, rect(0, 0, 20, 0)).is_empty());
    app.active = Some(3);
    assert!(tab_bar_paints(&app, rect(0, 0, 20, 1)).is_empty());
    app.active = None;
    assert!(tab_bar_paints(&app, rect(0, 0, 20, 1)).is_empty());
    let mut buf = blank(20, 1);
    render_tab_bar(&app, &mut buf, rect(0, 0, 20, 1));
    assert_eq!(buf, blank(20, 1));
}

#[test]
fn the_steps_come_in_order() {
    let mut app = app_with(&[None, None], 1);
    lay_out(&mut app, rect(2, 3, 30, 1), 0, true);
    let paints = tab_bar_paints(&app, rect(2, 3, 30, 1));
    assert_eq!(paints.len(), 4);
    let rects: Vec<Rect> = paints
        .iter()
        .map(|paint| match paint {
            Paint::Line { rect, .. } => *rect,
            Paint::Mark { .. } => panic!("no mark is due"),
        })
        .collect();
    assert_eq!(
        rects,
        vec![rect(2, 3, 30, 1), rect(2, 3, 8, 1), rect(11, 3, 8, 1), rect(19, 3, 3, 1)]
    );
}

#[test]
fn cells_outside_the_bar_stay_as_they_were() {
    let mut app = app_with(&[None; 6], 3);
    lay_out(&mut app, rect(2, 1, 30, 1), 2, false);
    let mut buf = blank(40, 3);
    for y in 0..3 {
        for x in 0..40 {
            buf[(x, y)].set_symbol("#");
        }
    }
    render_tab_bar(&app, &mut buf, rect(2, 1, 30, 1));
    for y in 0..3 {
        for x in 0..40 {
            let inside = y == 1 && (2..32).contains(&x);
            assert_eq!(buf[(x, y)].symbol() == "#", !inside);
        }
    }
}

#[test]
fn a_bar_that_was_laid_out_can_always_be_painted() {
    for width in 1..60 {
        for scroll in 0..6 {
            for insert_idx in 0..8 {
                let mut app = app_with(&[None; 6], 3);
                lay_out(&mut app, rect(4, 1, width, 1), scroll, false);
                app.drag = Some(DragState {
                    target: DragTarget::TabReorder { ws_idx: 0, insert_idx: Some(insert_idx) },
                });
                let mut buf = Buffer::empty(ratatui::layout::Rect::new(4, 1, width, 1));
                assert!(try_render_tab_bar(&app, &mut buf, rect(4, 1, width, 1)));
            }
        }
    }
}

#[test]
fn a_bar_that_cannot_be_painted_leaves_the_buffer_alone() {
    let mut app = app_with(&[None; 6], 3);
    lay_out(&mut app, rect(0, 0, 30, 1), 2, false);
    // The mark for the hidden tabs on the right would stand in column 23.
    let mut small = blank(20, 1);
    assert!(!try_render_tab_bar(&app, &mut small, rect(0, 0, 30, 1)));
    assert_eq!(small, blank(20, 1));

    let mut buf = blank(30, 1);
    assert!(!try_render_tab_bar(&app, &mut buf, rect(65_530, 0, 30, 1)));
    app.view.tab_scroll_left_hit_area = rect(65_534, 0, 3, 1);
    assert!(!try_render_tab_bar(&app, &mut buf, rect(0, 0, 30, 1)));
    assert_eq!(buf, blank(30, 1));
    app.active = None;
    assert!(try_render_tab_bar(&app, &mut buf, rect(65_530, 0, 30, 1)));
    assert_eq!(buf, blank(30, 1));

    let mut app = app_with(&[None], 0);
    app.view.tab_hit_areas = vec![rect(65_530, 0, 10, 1)];
    app.drag = Some(DragState {
        target: DragTarget::TabReorder { ws_idx: 0, insert_idx: Some(1) },
    });
    assert!(!try_render_tab_bar(&app, &mut buf, rect(0, 0, 30, 1)));
    app.drag = None;
    assert!(try_render_tab_bar(&app, &mut buf, rect(0, 0, 30, 1)));
}

#[test]
fn a_buffer_without_all_its_cells_is_not_painted_on() {
    assert!(is_paintable(&blank(30, 2)));
    assert!(is_paintable(&blank(0, 0)));
    assert!(is_paintable(&blank(40_000, 1)));
    let mut broken = blank(30, 2);
    broken.content.pop();
    assert!(!is_paintable(&broken));
    let mut app = app_with(&[None], 0);
    lay_out(&mut app, rect(0, 0, 30, 1), 0, true);
    assert!(!try_render_tab_bar(&app, &mut broken, rect(0, 0, 30, 1)));
}

#[test]
fn a_wide_bar_is_painted() {
    for width in [32_768, 40_000, 65_535] {
        let mut app = app_with(&[None, Some("提交")], 1);
        app.show_tab_status = TabStatusConfig::All;
        app.terminals.insert(
            0,
            TerminalState { terminal_title: None, state: AgentState::Working },
        );
        lay_out(&mut app, rect(0, 0, width, 1), 0, true);
        let mut buf = blank(width, 1);
        assert!(try_render_tab_bar(&app, &mut buf, rect(0, 0, width, 1)));
        assert!(row(&buf).starts_with(" ● 1"));
        assert_eq!(buf[(width - 1, 0)].bg, Color::Black);
    }
}

#[test]
fn a_wide_tab_is_painted() {
    let name = "x".repeat(33_000) + &"提".repeat(100);
    let mut app = app_with(&[Some(&name)], 0);
    lay_out(&mut app, rect(0, 0, 40_000, 1), 0, true);
    assert_eq!(app.view.tab_hit_areas[0], rect(0, 0, 33_204, 1));
    let mut buf = blank(40_000, 1);
    assert!(try_render_tab_bar(&app, &mut buf, rect(0, 0, 40_000, 1)));
    assert_eq!(buf[(33_000, 0)].symbol(), "x");
    assert_eq!(buf[(33_001, 0)].symbol(), "提");
    assert_eq!(buf[(33_199, 0)].symbol(), "提");
    assert_eq!(buf[(33_203, 0)].bg, Color::Blue);
}

fn plain_span(text: &str) -> TextSpan {
    TextSpan {
        text: text.to_owned(),
        style: TextStyle { fg: None, bg: None, weight: Weight::Normal },
    }
}

#[test]
fn columns_that_do_not_add_up_are_found() {
    // A sound mark extends the grapheme before it by two columns.
    let wide = String::from("ｶ") + &"ﾞ".repeat(20_000);
    let twice = [plain_span(&wide), plain_span(&wide)];
    assert!(row_fits(&twice[..1], 65_000));
    assert!(!row_fits(&twice, 65_000));
    assert!(!row_fits(&twice, 40_001));
    // Graphemes that are wider than the row are left out.
    assert!(row_fits(&twice, 40_000));
    assert!(row_fits(&twice, 32_767));
    assert!(row_fits(&[], 65_535));

    let long = [plain_span(&"x".repeat(65_536))];
    assert!(!row_fits(&long, 65_535));
    assert!(row_fits(&long, 65_534));
    assert!(row_fits(&[plain_span(&"x".repeat(65_535))], 65_535));
    assert!(row_fits(&[plain_span(&"\n".repeat(70_000))], 65_535));
}

#[test]
fn a_line_whose_columns_do_not_add_up_is_not_painted() {
    let wide = String::from("ｶ") + &"ﾞ".repeat(20_000);
    let mut app = app_with(&[Some(&wide.repeat(2))], 0);
    lay_out(&mut app, rect(0, 0, 65_000, 1), 0, true);
    let mut buf = blank(65_000, 1);
    app.view.tab_hit_areas[0].width = 65_000;
    assert!(!try_render_tab_bar(&app, &mut buf, rect(0, 0, 65_000, 1)));
    assert_eq!(buf, blank(65_000, 1));
    // A buffer shows no more of a line than it has columns and rows.
    let mut narrow = blank(30, 1);
    assert!(try_render_tab_bar(&app, &mut narrow, rect(0, 0, 65_000, 1)));
    app.view.tab_hit_areas[0].y = 1;
    assert!(try_render_tab_bar(&app, &mut buf, rect(0, 0, 65_000, 1)));
}

#[test]
fn text_starts_where_the_buffer_does() {
    let mut app = app_with(&[Some("name")], 0);
    app.view.tab_hit_areas = vec![rect(2, 0, 8, 3)];
    let mut buf = Buffer::empty(ratatui::layout::Rect::new(4, 1, 10, 2));
    assert!(try_render_tab_bar(&app, &mut buf, rect(0, 0, 20, 1)));
    let shown: String = (4..14).map(|x| buf[(x, 1)].symbol()).collect();
    assert_eq!(shown, " name     ");
    assert_eq!(buf[(9, 2)].bg, Color::Blue);
    assert_eq!(buf[(9, 2)].symbol(), " ");
    assert_eq!(buf[(10, 2)].bg, Color::Reset);
}

#[test]
fn the_right_edge_matters_only_where_it_is_used() {
    let beyond = rect(65_530, 0, 30, 1);
    let mut app = app_with(&[None], 0);
    app.view.tab_hit_areas = vec![rect(0, 0, 8, 1)];
    let mut buf = blank(30, 1);
    assert!(try_render_tab_bar(&app, &mut buf, beyond));
    assert_eq!(buf[(1, 0)].symbol(), "1");

    app.drag = Some(DragState {
        target: DragTarget::TabReorder { ws_idx: 0, insert_idx: Some(1) },
    });
    assert!(!try_render_tab_bar(&app, &mut buf, beyond));
    assert!(try_render_tab_bar(&app, &mut buf, rect(65_535, 0, 1, 1)));
    assert_eq!(buf[(8, 0)].symbol(), "│");

    let mut app = app_with(&[None; 2], 0);
    app.view.tab_hit_areas = vec![rect(0, 0, 8, 1), rect(0, 0, 0, 0)];
    assert!(!try_render_tab_bar(&app, &mut buf, beyond));
    // The mark would stand left of the bar, so there is none.
    app.view.tab_scroll_right_hit_area = rect(8, 0, 3, 1);
    assert!(try_render_tab_bar(&app, &mut buf, beyond));
}

#[test]
fn every_cell_of_a_tab_has_its_weight_and_foreground() {
    let mut app = app_with(&[Some("named"), None, Some("last"), None], 1);
    app.show_tab_status = TabStatusConfig::All;
    app.terminals.insert(
        0,
        TerminalState { terminal_title: None, state: AgentState::Working },
    );
    for active in 0..4 {
        app.workspaces[0].active_tab = active;
        lay_out(&mut app, rect(0, 0, 60, 1), 0, true);
        let buf = painted(&app, 60);
        for (idx, tab_rect) in app.view.tab_hit_areas.iter().enumerate() {
            let named = idx % 2 == 0;
            let fg = match (idx == active, named) {
                (true, _) => Color::White,
                (false, true) => Color::Gray,
                (false, false) => Color::DarkGray,
            };
            for x in tab_rect.x..tab_rect.x + tab_rect.width {
                let cell = &buf[(x, 0)];
                assert_eq!(cell.modifier.contains(Modifier::BOLD), idx == active && named);
                assert_eq!(cell.modifier.contains(Modifier::DIM), idx != active && !named);
                assert!(cell.fg == fg || cell.fg == Color::Yellow && cell.symbol() == "●");
            }
        }
    }
}

#[test]
fn the_line_of_a_tab_fills_it() {
    let style = TextStyle { fg: None, bg: Some(Color::Blue), weight: Weight::Bold };
    let label = TabChromeLabel {
        status: Some(TabStatusGlyph { symbol: "●", state: AgentState::Blocked, seen: true }),
        body: "ab".to_string(),
    };
    let spans = tab_spans(&label, style, &palette(), 8);
    let texts: Vec<&str> = spans.iter().map(|span| span.text.as_str()).collect();
    assert_eq!(texts, vec![" ", "●", " ", "ab   "]);
    assert_eq!(spans[1].style.fg, Some(Color::Red));
    assert_eq!(spans[1].style.bg, Some(Color::Blue));
    assert_eq!(spans[1].style.weight, Weight::Bold);
    assert_eq!(spans[3].style.bg, None);
    let plain = TabChromeLabel { status: None, body: "abc".to_string() };
    let spans = tab_spans(&plain, style, &palette(), 2);
    let texts: Vec<&str> = spans.iter().map(|span| span.text.as_str()).collect();
    assert_eq!(texts, vec![" ", "abc"]);
}

#[test]
fn names_fall_back_to_numbers() {
    let mut app = app_with(&[None, Some("two")], 0);
    app.tab_auto_name = TabAutoNameConfig::TerminalTitle;
    let ctx = tab_chrome_ctx(&app);
    let ws = &app.workspaces[0];
    assert_eq!(tab_name(ws, 0, ctx), "1");
    assert_eq!(tab_name(ws, 1, ctx), "two");
    assert_eq!(tab_name(ws, 9, ctx), "10");
    assert_eq!(ws.tab_display_name(9), None);
    assert_eq!(tab_chrome_label(ws, 9, ctx).body, "10");
    assert_eq!(tab_chrome_labels(ws, ctx).len(), 2);
}

#[test]
fn a_title_of_animation_alone_is_no_name() {
    let mut app = app_with(&[None], 0);
    app.tab_auto_name = TabAutoNameConfig::TerminalTitle;
    app.terminals.insert(
        0,
        TerminalState { terminal_title: Some("⠋ ".to_string()), state: AgentState::Idle },
    );
    assert_eq!(tab_name(&app.workspaces[0], 0, tab_chrome_ctx(&app)), "1");
    app.workspaces[0].tabs[0].focused_pane = 5;
    assert_eq!(app.workspaces[0].tabs[0].focused_terminal_title(&app.terminals), None);
}

#[test]
fn the_most_urgent_agent_stands_for_the_tab() {
    let mut terminals = HashMap::new();
    for (id, state) in [
        (0, AgentState::Unknown),
        (1, AgentState::Idle),
        (2, AgentState::Working),
        (3, AgentState::Blocked),
    ] {
        terminals.insert(id, TerminalState { terminal_title: None, state });
    }
    let state = |panes: &[(u64, bool)]| {
        let panes = panes.iter().map(|&(terminal, seen)| Pane { terminal, seen }).collect();
        tab(None, panes).aggregate_state(&terminals)
    };
    assert_eq!(state(&[]), None);
    assert_eq!(state(&[(0, true), (9, true)]), None);
    assert_eq!(state(&[(1, true), (2, true)]), Some((AgentState::Working, true)));
    assert_eq!(state(&[(2, true), (1, false)]), Some((AgentState::Idle, false)));
    assert_eq!(
        state(&[(1, false), (3, true), (2, false)]),
        Some((AgentState::Blocked, true))
    );
    assert_eq!(state(&[(3, true), (3, false)]), Some((AgentState::Blocked, false)));
}

#[test]
fn attention_is_for_blocked_and_finished_agents() {
    let shows = |config: TabStatusConfig, state, seen| config.shows(state, seen);
    assert!(shows(TabStatusConfig::Attention, AgentState::Blocked, true));
    assert!(shows(TabStatusConfig::Attention, AgentState::Idle, false));
    assert!(!shows(TabStatusConfig::Attention, AgentState::Idle, true));
    assert!(!shows(TabStatusConfig::Attention, AgentState::Working, false));
    assert!(shows(TabStatusConfig::All, AgentState::Working, true));
    assert!(!shows(TabStatusConfig::Off, AgentState::Blocked, false));
}

#[test]
fn states_have_glyphs_and_colors() {
    let dots = StatusIndicatorStyle::Dots;
    assert_eq!(state_icon_symbol(AgentState::Blocked, true, dots), "●");
    assert_eq!(state_icon_symbol(AgentState::Idle, true, dots), "○");
    let p = palette();
    assert_eq!(state_label_color(AgentState::Blocked, false, &p), Color::Red);
    assert_eq!(state_label_color(AgentState::Working, true, &p), Color::Yellow);
    assert_eq!(state_label_color(AgentState::Idle, false, &p), Color::Cyan);
    assert_eq!(state_label_color(AgentState::Idle, true, &p), Color::Green);
    assert_eq!(state_label_color(AgentState::Unknown, true, &p), Color::DarkGray);
}
