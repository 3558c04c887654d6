use ratatui::backend::TestBackend;
use ratatui::buffer::Buffer;
use ratatui::style::{Color, Modifier};
use ratatui::Terminal;
use std::collections::HashMap;
use tabbar::rect::Rect;
use tabbar::render::render_tab_bar;
use tabbar::state::{
    AgentState, AppState, Palette, Pane, StatusIndicatorStyle, Tab, TabAutoNameConfig,
    TabStatusConfig, TerminalState, ViewState, Workspace,
};
use tabbar::tabs::{
    compute_tab_bar_view, tab_chrome_ctx, tab_chrome_label, tab_width, TabChromeCtx,
    TabChromeLabel, TabStatusGlyph,
};
use tabbar::text::display_width_u16;

fn new_tab(terminal: u64, name: Option<&str>) -> Tab {
    Tab {
        custom_name: name.map(str::to_string),
        panes: vec![Pane { terminal, seen: true }],
        focused_pane: 0,
        zoomed: false,
    }
}

fn new_workspace() -> Workspace {
    Workspace { tabs: vec![new_tab(1, None)], active_tab: 0 }
}

fn add_tab(ws: &mut Workspace, name: Option<&str>) -> usize {
    let idx = ws.tabs.len();
    ws.tabs.push(new_tab(idx as u64 + 1, name));
    idx
}

fn new_app() -> AppState {
    AppState {
        workspaces: vec![],
        active: None,
        terminals: HashMap::new(),
        view: ViewState {
            tab_bar_rect: Rect::default(),
            tab_hit_areas: vec![],
            tab_scroll_left_hit_area: Rect::default(),
            tab_scroll_right_hit_area: Rect::default(),
            new_tab_hit_area: Rect::default(),
        },
        tab_scroll: 0,
        mouse_capture: false,
        drag: None,
        palette: Palette {
            panel_bg: Color::Black,
            panel_contrast_fg: Color::White,
            accent: Color::Blue,
            overlay0: Color::DarkGray,
            overlay1: Color::Gray,
            surface0: Color::Indexed(236),
            blocked: Color::Red,
            working: Color::Yellow,
            done: Color::Cyan,
            idle: Color::Green,
        },
        tab_auto_name: TabAutoNameConfig::Number,
        tab_auto_name_max_width: 24,
        show_tab_status: TabStatusConfig::Off,
        status_indicators: StatusIndicatorStyle::Dots,
    }
}

fn buffer_row_text(buffer: &Buffer, area: Rect, row: u16) -> String {
    (area.x..area.x + area.width)
        .map(|x| buffer[(x, row)].symbol())
        .collect::<String>()
        .trim_end()
        .to_string()
}

/// Width-only assertions need a context but no live terminals.
fn test_ctx(terminals: &HashMap<u64, TerminalState>) -> TabChromeCtx<'_> {
    TabChromeCtx {
        terminals,
        auto_name: TabAutoNameConfig::Number,
        auto_name_max_width: 24,
        status: TabStatusConfig::Off,
        indicators: StatusIndicatorStyle::Dots,
    }
}

/// Give the terminal in the first tab a title and an agent state.
fn seed_focused_terminal(app: &mut AppState, title: Option<&str>, state: AgentState) {
    let terminal = app.workspaces[0].tabs[0].panes[0].terminal;
    app.terminals.insert(
        terminal,
        TerminalState { terminal_title: title.map(str::to_string), state },
    );
}

fn render_row(app: &AppState) -> String {
    let backend = TestBackend::new(app.view.tab_bar_rect.width, 1);
    let mut terminal = Terminal::new(backend).unwrap();
    terminal
        .draw(|frame| render_tab_bar(app, frame.buffer_mut(), app.view.tab_bar_rect))
        .unwrap();
    buffer_row_text(terminal.backend().buffer(), app.view.tab_bar_rect, 0)
}

fn lay_out(app: &mut AppState) {
    let view = compute_tab_bar_view(
        &app.workspaces[0],
        tab_chrome_ctx(app),
        app.view.tab_bar_rect,
        0,
        true,
        false,
    );
    app.view.tab_hit_areas = view.tab_hit_areas;
}

#[test]
fn tab_bar_marks_zoomed_tabs_without_renaming_them() {
    let mut app = new_app();
    let mut ws = new_workspace();
    ws.tabs[0].zoomed = true;
    let custom_tab = add_tab(&mut ws, Some("test"));
    ws.tabs[custom_tab].zoomed = true;

    app.workspaces = vec![ws];
    app.active = Some(0);
    app.view.tab_bar_rect = Rect::new(0, 0, 30, 1);
    lay_out(&mut app);

    let row = render_row(&app);
    assert!(row.contains(" 1 Z"), "tab row: {row:?}");
    assert!(row.contains(" test Z"), "tab row: {row:?}");
    assert_eq!(app.workspaces[0].tab_display_name(0).as_deref(), Some("1"));
    assert_eq!(
        app.workspaces[0].tab_display_name(custom_tab).as_deref(),
        Some("test")
    );
}

#[test]
fn active_auto_named_tab_keeps_readable_weight() {
    let mut app = new_app();
    let ws = new_workspace();

    app.workspaces = vec![ws];
    app.active = Some(0);
    app.view.tab_bar_rect = Rect::new(0, 0, 30, 1);
    lay_out(&mut app);

    let backend = TestBackend::new(30, 1);
    let mut terminal = Terminal::new(backend).unwrap();
    terminal
        .draw(|frame| render_tab_bar(&app, frame.buffer_mut(), app.view.tab_bar_rect))
        .unwrap();

    let tab_rect = app.view.tab_hit_areas[0];
    let style = terminal.backend().buffer()[(tab_rect.x + 1, tab_rect.y)].style();

    assert_eq!(style.bg, Some(app.palette.accent));
    assert!(!style.add_modifier.contains(Modifier::DIM));
    assert!(!style.add_modifier.contains(Modifier::BOLD));
}

#[test]
fn zoom_marker_counts_toward_tab_width() {
    let mut ws = new_workspace();
    ws.tabs[0].set_custom_name("abcdefgh".into());
    ws.tabs[0].zoomed = true;
    let terminals = HashMap::new();

    assert_eq!(tab_width(&tab_chrome_label(&ws, 0, test_ctx(&terminals))), 14);
}

#[test]
fn tab_width_uses_display_width_for_cjk_labels() {
    let mut ws = new_workspace();
    ws.tabs[0].set_custom_name("提交 herdr 的反馈".into());
    let terminals = HashMap::new();

    assert_eq!(
        tab_width(&tab_chrome_label(&ws, 0, test_ctx(&terminals))),
        display_width_u16("提交 herdr 的反馈") + 4
    );
}

#[test]
fn tab_bar_renders_trailing_cjk_character() {
    let mut app = new_app();
    let mut ws = new_workspace();
    ws.tabs[0].set_custom_name("提交 herdr 的反馈".into());

    app.active = Some(0);
    app.workspaces = vec![ws];
    app.view.tab_bar_rect = Rect::new(0, 0, 30, 1);
    lay_out(&mut app);

    let row = render_row(&app);
    assert!(row.contains('馈'), "tab row: {row:?}");
}

#[test]
fn terminal_title_auto_name_replaces_the_tab_number() {
    let mut app = new_app();
    app.workspaces = vec![new_workspace()];
    app.active = Some(0);
    app.tab_auto_name = TabAutoNameConfig::TerminalTitle;
    app.view.tab_bar_rect = Rect::new(0, 0, 40, 1);
    seed_focused_terminal(&mut app, Some("✳ Fix the parser"), AgentState::Working);
    lay_out(&mut app);

    let row = render_row(&app);
    assert!(row.contains("Fix the parser"), "tab row: {row:?}");
    // The animated prefix must not reach the label; it changes every frame and
    // would reflow the whole bar.
    assert!(!row.contains('✳'), "tab row: {row:?}");
    // Outside the bar the tab keeps its own identity.
    assert_eq!(app.workspaces[0].tab_display_name(0).as_deref(), Some("1"));
}

#[test]
fn explicit_tab_name_wins_over_terminal_title() {
    let mut app = new_app();
    app.workspaces = vec![new_workspace()];
    app.active = Some(0);
    app.tab_auto_name = TabAutoNameConfig::TerminalTitle;
    app.view.tab_bar_rect = Rect::new(0, 0, 40, 1);
    app.workspaces[0].tabs[0].set_custom_name("review".into());
    seed_focused_terminal(&mut app, Some("Fix the parser"), AgentState::Working);
    lay_out(&mut app);

    let row = render_row(&app);
    assert!(row.contains("review"), "tab row: {row:?}");
    assert!(!row.contains("Fix the parser"), "tab row: {row:?}");
}

#[test]
fn terminal_title_auto_name_respects_max_width() {
    let mut app = new_app();
    app.workspaces = vec![new_workspace()];
    app.active = Some(0);
    app.tab_auto_name = TabAutoNameConfig::TerminalTitle;
    app.tab_auto_name_max_width = 10;
    app.view.tab_bar_rect = Rect::new(0, 0, 40, 1);
    seed_focused_terminal(
        &mut app,
        Some("⠋ a very long agent task title"),
        AgentState::Working,
    );
    lay_out(&mut app);

    let row = render_row(&app);
    assert!(row.contains('…'), "tab row: {row:?}");
    assert!(!row.contains("task title"), "tab row: {row:?}");
    // One tab at width 10 must not consume a 40-column bar.
    assert!(app.view.tab_hit_areas[0].width <= 15);
}

#[test]
fn custom_tab_name_is_never_truncated() {
    let mut ws = new_workspace();
    ws.tabs[0].set_custom_name("a very long explicit tab name".into());
    let terminals = HashMap::new();
    let mut ctx = test_ctx(&terminals);
    ctx.auto_name = TabAutoNameConfig::TerminalTitle;
    ctx.auto_name_max_width = 10;

    assert_eq!(
        tab_chrome_label(&ws, 0, ctx).body,
        "a very long explicit tab name"
    );
}

#[test]
fn status_glyph_counts_toward_tab_width() {
    let mut ws = new_workspace();
    ws.tabs[0].set_custom_name("abcdefgh".into());
    let terminals = HashMap::new();
    let ctx = test_ctx(&terminals);

    let without = tab_width(&tab_chrome_label(&ws, 0, ctx));
    let label = TabChromeLabel {
        status: Some(TabStatusGlyph {
            symbol: "●",
            state: AgentState::Blocked,
            seen: true,
        }),
        body: "abcdefgh".into(),
    };

    // Glyph plus its separating space widen the tab by exactly two columns.
    assert_eq!(tab_width(&label), without + 2);
    assert_eq!(label.plain_text(), "● abcdefgh");
}

#[test]
fn attention_status_shows_blocked_and_hides_working() {
    let mut app = new_app();
    app.workspaces = vec![new_workspace()];
    app.active = Some(0);
    app.show_tab_status = TabStatusConfig::Attention;
    app.view.tab_bar_rect = Rect::new(0, 0, 40, 1);

    seed_focused_terminal(&mut app, None, AgentState::Working);
    lay_out(&mut app);
    let working = render_row(&app);
    assert!(!working.contains('●'), "working tab row: {working:?}");

    seed_focused_terminal(&mut app, None, AgentState::Blocked);
    lay_out(&mut app);
    let blocked = render_row(&app);
    assert!(blocked.contains('●'), "blocked tab row: {blocked:?}");
}

#[test]
fn status_off_leaves_the_tab_bar_unchanged() {
    let mut app = new_app();
    app.workspaces = vec![new_workspace()];
    app.active = Some(0);
    app.view.tab_bar_rect = Rect::new(0, 0, 40, 1);
    seed_focused_terminal(&mut app, Some("Fix the parser"), AgentState::Blocked);
    lay_out(&mut app);

    let row = render_row(&app);
    assert_eq!(row, " 1");
}
