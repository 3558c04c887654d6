//! What the multiplexer knows: workspaces with their tabs, the terminals in them, and how the
//! tab bar is set up.

use crate::rect::Rect;
use crate::text::{decimal_text, settled_title};
use ratatui::style::Color;
use std::collections::HashMap;
use vstd::prelude::*;

verus! {

broadcast use vstd::std_specs::hash::group_hash_axioms;

/// What the agent in a terminal is doing.
#[derive(Debug, Clone, Copy, PartialEq, Eq, Structural)]
pub enum AgentState {
    /// No agent runs there.
    Unknown,
    /// The agent has nothing to do.
    Idle,
    /// The agent is busy.
    Working,
    /// The agent waits for an answer.
    Blocked,
}

impl AgentState {
    /// How much a state asks for attention. Two agents that ask for it equally are in the same
    /// state.
    pub open spec fn urgency(self, seen: bool) -> int {
        match (self, seen) {
            (AgentState::Unknown, _) => 0,
            (AgentState::Idle, true) => 1,
            (AgentState::Working, true) => 2,
            (AgentState::Working, false) => 3,
            (AgentState::Idle, false) => 4,
            (AgentState::Blocked, true) => 5,
            (AgentState::Blocked, false) => 6,
        }
    }

    fn urgency_of(self, seen: bool) -> (urgency: u8)
        ensures
            urgency == self.urgency(seen),
    {
        match (self, seen) {
            (AgentState::Unknown, _) => 0,
            (AgentState::Idle, true) => 1,
            (AgentState::Working, true) => 2,
            (AgentState::Working, false) => 3,
            (AgentState::Idle, false) => 4,
            (AgentState::Blocked, true) => 5,
            (AgentState::Blocked, false) => 6,
        }
    }
}

/// One terminal.
#[derive(Debug)]
pub struct TerminalState {
    /// The title that the program in the terminal has set.
    pub terminal_title: Option<String>,
    pub state: AgentState,
}

/// One pane of a tab.
#[derive(Debug, Clone, Copy, PartialEq, Eq, Structural)]
pub struct Pane {
    /// The terminal that the pane shows.
    pub terminal: u64,
    /// The user has looked at the pane since its state changed.
    pub seen: bool,
}

impl Pane {
    /// What the agent in the pane is doing, if there is one.
    pub open spec fn agent(
        self,
        terminals: Map<u64, TerminalState>,
    ) -> Option<(AgentState, bool)> {
        if terminals.contains_key(self.terminal) && terminals[self.terminal].state
            != AgentState::Unknown {
            Some((terminals[self.terminal].state, self.seen))
        } else {
            None
        }
    }
}

/// One tab.
#[derive(Debug)]
pub struct Tab {
    /// The name that the user gave the tab.
    pub custom_name: Option<String>,
    pub panes: Vec<Pane>,
    /// The pane that has the focus, as an index.
    pub focused_pane: usize,
    /// The focused pane covers the others.
    pub zoomed: bool,
}

impl Tab {
    /// The name that the user gave the tab.
    pub open spec fn given_name(self) -> Option<Seq<char>> {
        match self.custom_name {
            Some(name) => Some(name@),
            None => None,
        }
    }

    /// The title of the terminal in the focused pane without the animation in front of it; none
    /// where nothing is left.
    pub open spec fn focused_title(self, terminals: Map<u64, TerminalState>) -> Option<Seq<char>> {
        if self.focused_pane < self.panes@.len() && terminals.contains_key(
            self.panes@[self.focused_pane as int].terminal,
        ) {
            match terminals[self.panes@[self.focused_pane as int].terminal].terminal_title {
                Some(title) => if crate::text::settled(title@).len() > 0 {
                    Some(crate::text::settled(title@))
                } else {
                    None
                },
                None => None,
            }
        } else {
            None
        }
    }

    /// The most urgent of the agents in the first `count` panes.
    pub open spec fn most_urgent(
        self,
        terminals: Map<u64, TerminalState>,
        count: int,
    ) -> Option<(AgentState, bool)>
        decreases count,
    {
        if count <= 0 {
            None
        } else {
            let before = self.most_urgent(terminals, count - 1);
            match (before, self.panes@[count - 1].agent(terminals)) {
                (Some(b), Some(a)) => if a.0.urgency(a.1) > b.0.urgency(b.1) {
                    Some(a)
                } else {
                    Some(b)
                },
                (None, agent) => agent,
                (before, None) => before,
            }
        }
    }

    /// The most urgent agent in the tab, if there is one.
    pub open spec fn agent(self, terminals: Map<u64, TerminalState>) -> Option<(AgentState, bool)> {
        self.most_urgent(terminals, self.panes@.len() as int)
    }

    /// The user has given the tab no name.
    pub fn is_auto_named(&self) -> (auto: bool)
        ensures
            auto <==> self.given_name() is None,
    {
        self.custom_name.is_none()
    }

    /// Give the tab a name.
    pub fn set_custom_name(&mut self, name: String)
        ensures
            *final(self) == (Tab { custom_name: Some(name), ..*old(self) }),
    {
        self.custom_name = Some(name);
    }

    /// The title of the terminal in the focused pane without the animation in front of it; none
    /// where nothing is left.
    pub fn focused_terminal_title(
        &self,
        terminals: &HashMap<u64, TerminalState>,
    ) -> (title: Option<String>)
        ensures
            match title {
                Some(title) => self.focused_title(terminals@) == Some(title@),
                None => self.focused_title(terminals@) is None,
            },
    {
        if self.focused_pane >= self.panes.len() {
            return None;
        }
        match terminals.get(&self.panes[self.focused_pane].terminal) {
            Some(terminal) => match &terminal.terminal_title {
                Some(raw) => {
                    let title = settled_title(raw.as_str());
                    if title.as_str().unicode_len() > 0 {
                        Some(title)
                    } else {
                        None
                    }
                },
                None => None,
            },
            None => None,
        }
    }

    /// The most urgent agent in the tab, if there is one, and whether the user has seen it.
    pub fn aggregate_state(
        &self,
        terminals: &HashMap<u64, TerminalState>,
    ) -> (agent: Option<(AgentState, bool)>)
        ensures
            agent == self.agent(terminals@),
    {
        let mut best: Option<(AgentState, bool)> = None;
        let mut idx: usize = 0;
        while idx < self.panes.len()
            invariant
                idx <= self.panes@.len(),
                best == self.most_urgent(terminals@, idx as int),
            decreases self.panes@.len() - idx,
        {
            let pane = self.panes[idx];
            if let Some(terminal) = terminals.get(&pane.terminal) {
                let state = terminal.state;
                if state != AgentState::Unknown {
                    let more = match best {
                        Some((b, b_seen)) => state.urgency_of(pane.seen) > b.urgency_of(b_seen),
                        None => true,
                    };
                    if more {
                        best = Some((state, pane.seen));
                    }
                }
            }
            idx = idx + 1;
        }
        best
    }
}

/// One workspace.
#[derive(Debug)]
pub struct Workspace {
    pub tabs: Vec<Tab>,
    pub active_tab: usize,
}

impl Workspace {
    /// What a tab is called outside the bar: the name that the user gave it, else its number,
    /// counted from one.
    pub open spec fn display_name(self, idx: int) -> Option<Seq<char>> {
        if 0 <= idx < self.tabs@.len() {
            match self.tabs@[idx].given_name() {
                Some(name) => Some(name),
                None => Some(crate::text::decimal((idx + 1) as nat)),
            }
        } else {
            None
        }
    }

    /// What a tab is called outside the bar: the name that the user gave it, else its number,
    /// counted from one.
    pub fn tab_display_name(&self, tab_idx: usize) -> (name: Option<String>)
        ensures
            match name {
                Some(name) => self.display_name(tab_idx as int) == Some(name@),
                None => self.display_name(tab_idx as int) is None,
            },
    {
        if tab_idx >= self.tabs.len() {
            return None;
        }
        match &self.tabs[tab_idx].custom_name {
            Some(name) => Some(name.clone()),
            None => Some(decimal_text(tab_idx + 1)),
        }
    }
}

/// What a tab is called that the user gave no name.
#[derive(Debug, Clone, Copy, PartialEq, Eq, Structural)]
pub enum TabAutoNameConfig {
    /// Its number.
    Number,
    /// The title of the terminal in its focused pane, or its number where there is no title.
    TerminalTitle,
}

/// Which tabs show what their agents are doing.
#[derive(Debug, Clone, Copy, PartialEq, Eq, Structural)]
pub enum TabStatusConfig {
    /// None.
    Off,
    /// Those whose agents want the user: they are blocked, or done and not looked at since.
    Attention,
    /// All.
    All,
}

impl TabStatusConfig {
    /// A tab in the given state shows it.
    pub open spec fn wants(self, state: AgentState, seen: bool) -> bool {
        match self {
            TabStatusConfig::Off => false,
            TabStatusConfig::Attention => state == AgentState::Blocked || state
                == AgentState::Idle && !seen,
            TabStatusConfig::All => true,
        }
    }

    /// A tab in the given state shows it.
    pub fn shows(self, state: AgentState, seen: bool) -> (shows: bool)
        ensures
            shows == self.wants(state, seen),
    {
        match self {
            TabStatusConfig::Off => false,
            TabStatusConfig::Attention => state == AgentState::Blocked || state
                == AgentState::Idle && !seen,
            TabStatusConfig::All => true,
        }
    }
}

/// How the states of agents are drawn.
#[derive(Debug, Clone, Copy, PartialEq, Eq, Structural)]
pub enum StatusIndicatorStyle {
    /// As dots in the color of the state, hollow where the agent wants nothing.
    Dots,
}

impl StatusIndicatorStyle {
    /// The glyph of a state.
    pub open spec fn glyph(self, state: AgentState, seen: bool) -> char {
        match (state, seen) {
            (AgentState::Unknown, _) | (AgentState::Idle, true) => '○',
            _ => '●',
        }
    }
}

/// The glyph of a state.
pub fn state_icon_symbol(
    state: AgentState,
    seen: bool,
    indicators: StatusIndicatorStyle,
) -> (symbol: &'static str)
    ensures
        symbol@ == seq![indicators.glyph(state, seen)],
{
    proof {
        reveal_strlit("○");
        reveal_strlit("●");
    }
    match (state, seen) {
        (AgentState::Unknown, _) | (AgentState::Idle, true) => "○",
        _ => "●",
    }
}

/// The colors of the interface.
#[derive(Clone, Copy)]
pub struct Palette {
    /// What lies behind the bar.
    pub panel_bg: Color,
    /// Text on the accent color.
    pub panel_contrast_fg: Color,
    pub accent: Color,
    pub overlay0: Color,
    pub overlay1: Color,
    pub surface0: Color,
    /// An agent that waits for an answer.
    pub blocked: Color,
    /// An agent that is busy.
    pub working: Color,
    /// An agent that is done and was not looked at since.
    pub done: Color,
    /// An agent that has nothing to do.
    pub idle: Color,
}

impl Palette {
    /// The color of a state.
    pub open spec fn state_color(self, state: AgentState, seen: bool) -> Color {
        match (state, seen) {
            (AgentState::Blocked, _) => self.blocked,
            (AgentState::Working, _) => self.working,
            (AgentState::Idle, false) => self.done,
            (AgentState::Idle, true) => self.idle,
            (AgentState::Unknown, _) => self.overlay0,
        }
    }
}

/// The color of a state.
pub fn state_label_color(state: AgentState, seen: bool, p: &Palette) -> (color: Color)
    ensures
        color == p.state_color(state, seen),
{
    match (state, seen) {
        (AgentState::Blocked, _) => p.blocked,
        (AgentState::Working, _) => p.working,
        (AgentState::Idle, false) => p.done,
        (AgentState::Idle, true) => p.idle,
        (AgentState::Unknown, _) => p.overlay0,
    }
}

/// What the user is dragging.
#[derive(Debug, Clone, Copy, PartialEq, Eq, Structural)]
pub enum DragTarget {
    /// A tab of workspace `ws_idx`; dropped now it would come before tab `insert_idx`.
    TabReorder { ws_idx: usize, insert_idx: Option<usize> },
    /// Something outside the tab bar.
    Other,
}

/// A drag that is under way.
#[derive(Debug, Clone, Copy, PartialEq, Eq, Structural)]
pub struct DragState {
    pub target: DragTarget,
}

/// Where the parts of the interface stood when it was last laid out.
#[derive(Debug)]
pub struct ViewState {
    pub tab_bar_rect: Rect,
    pub tab_hit_areas: Vec<Rect>,
    pub tab_scroll_left_hit_area: Rect,
    pub tab_scroll_right_hit_area: Rect,
    pub new_tab_hit_area: Rect,
}

/// Everything that the tab bar depends on.
pub struct AppState {
    pub workspaces: Vec<Workspace>,
    /// The workspace that shows, as an index.
    pub active: Option<usize>,
    pub terminals: HashMap<u64, TerminalState>,
    pub view: ViewState,
    /// The first tab of the bar.
    pub tab_scroll: usize,
    /// The pointer can be used.
    pub mouse_capture: bool,
    pub drag: Option<DragState>,
    pub palette: Palette,
    pub tab_auto_name: TabAutoNameConfig,
    /// The columns that a terminal title may take as the name of a tab.
    pub tab_auto_name_max_width: u16,
    pub show_tab_status: TabStatusConfig,
    pub status_indicators: StatusIndicatorStyle,
}

} // verus!
