//! How actions, the palette, the menus and the title bar reach the shell.

use crate::actions::{Action, EntryView, PaletteEntry};
use crate::app;
use crate::app::{AppView, C0pl4ndApp, NoticesView, Spawn, SpawnView, ViewMode};
use crate::close;
use crate::close::{CloseEffects, WindowCmd};
use crate::frame::WindowFlags;
use crate::grid;
use crate::grid::{PaneId, SplitDir, MAX_PANES};
use crate::grid_interaction::Selection;
use crate::palette;
use crate::palette::PaletteView;
use crate::pane_body;
use crate::pane_body::{copy_visible, CopyRange};
use crate::panes;
use crate::panes::{PanesView, Shown, SplitOutcome};
use crate::shells;
use crate::text;
use crate::text::owned;
use crate::tree;
use vstd::prelude::*;

verus! {

/// What an action is told about the world.
#[derive(Clone, Copy, Debug, PartialEq, Eq)]
pub struct ActionInput {
    /// Whether the focused pane is at least as wide as tall, if it was drawn.
    pub wide: Option<bool>,
    /// Whether the system shows the window fullscreen, if it says so.
    pub os_fullscreen: Option<bool>,
}

/// What is left to do for an action.
#[derive(Debug, PartialEq, Eq)]
pub enum ActionEffect {
    /// Nothing.
    Nothing,
    /// Start the terminal of a new pane.
    Start(Spawn),
    /// Draw the window again.
    Repaint,
    /// Save the config.
    SaveConfig,
    /// Open or close the search bar.
    ToggleSearch,
    /// Make the window fullscreen or not.
    Fullscreen(bool),
    /// Step the font size up or down.
    FontStep(i8),
    /// Go back to the default font size.
    FontReset,
    /// Clear what was scrolled away in a pane, if it has a terminal.
    ClearScrollback(Option<PaneId>),
    /// Copy all text of a pane.
    CopyAll(PaneId),
    /// Show the top of a pane.
    ScrollToTop(PaneId),
    /// Show the bottom of a pane.
    ScrollToBottom(PaneId),
}

/// The view of what is left to do.
pub enum EffectView {
    Nothing,
    Start(SpawnView),
    Repaint,
    SaveConfig,
    ToggleSearch,
    Fullscreen(bool),
    FontStep(i8),
    FontReset,
    ClearScrollback(Option<PaneId>),
    CopyAll(PaneId),
    ScrollToTop(PaneId),
    ScrollToBottom(PaneId),
}

impl View for ActionEffect {
    type V = EffectView;

    open spec fn view(&self) -> EffectView {
        match *self {
            ActionEffect::Nothing => EffectView::Nothing,
            ActionEffect::Start(s) => EffectView::Start(s@),
            ActionEffect::Repaint => EffectView::Repaint,
            ActionEffect::SaveConfig => EffectView::SaveConfig,
            ActionEffect::ToggleSearch => EffectView::ToggleSearch,
            ActionEffect::Fullscreen(on) => EffectView::Fullscreen(on),
            ActionEffect::FontStep(d) => EffectView::FontStep(d),
            ActionEffect::FontReset => EffectView::FontReset,
            ActionEffect::ClearScrollback(p) => EffectView::ClearScrollback(p),
            ActionEffect::CopyAll(p) => EffectView::CopyAll(p),
            ActionEffect::ScrollToTop(p) => EffectView::ScrollToTop(p),
            ActionEffect::ScrollToBottom(p) => EffectView::ScrollToBottom(p),
        }
    }
}

/// What is left to do after a pane was asked for.
pub open spec fn start_effect(s: Option<SpawnView>) -> EffectView {
    match s {
        Some(s) => EffectView::Start(s),
        None => EffectView::Nothing,
    }
}

/// The focused pane, where it has a terminal.
pub open spec fn live_focus(v: PanesView) -> Option<PaneId> {
    if panes::term_of(v.terms, v.focused) is Some {
        Some(v.focused)
    } else {
        None
    }
}

/// The other way to show the panes.
pub open spec fn other_mode(m: ViewMode) -> ViewMode {
    match m {
        ViewMode::Grid => ViewMode::Tabs,
        ViewMode::Tabs => ViewMode::Grid,
    }
}

/// The shell after the palette was asked to open or close: opening it forgets
/// the line being typed.
pub open spec fn palette_flipped(v: AppView) -> AppView {
    AppView {
        palette: palette::palette_toggled(v.palette),
        panes: PanesView {
            line: if v.palette.open {
                v.panes.line
            } else {
                Seq::empty()
            },
            ..v.panes
        },
        ..v
    }
}

/// The fullscreen the toggle asks for.
pub open spec fn wanted_fullscreen(v: AppView, input: ActionInput) -> bool {
    match input.os_fullscreen {
        Some(on) => !on,
        None => !v.window.fullscreen,
    }
}

/// The shell after an action, for every action that leaves the tree alone.
pub open spec fn acted(v: AppView, action: Action, input: ActionInput) -> AppView {
    match action {
        Action::FocusNextPane => AppView { panes: panes::focused_next(v.panes), ..v },
        Action::ZoomPane => AppView { panes: panes::zoom_toggled(v.panes), ..v },
        Action::ToggleViewMode => AppView {
            config: app::ConfigView { view_mode: other_mode(v.config.view_mode), ..v.config },
            ..v
        },
        Action::ToggleCommandPalette => palette_flipped(v),
        Action::ToggleHistorySidebar => AppView {
            palette: palette::sidebar_toggled(v.palette),
            ..v
        },
        Action::ToggleSettings => AppView {
            window: WindowFlags { settings_open: !v.window.settings_open, ..v.window },
            ..v
        },
        Action::ToggleFullscreen => AppView {
            window: WindowFlags { fullscreen: wanted_fullscreen(v, input), ..v.window },
            ..v
        },
        _ => v,
    }
}

/// What is left to do after an action.
pub open spec fn action_effect(v: AppView, action: Action, input: ActionInput) -> EffectView {
    match action {
        Action::NewTab | Action::SplitRight | Action::SplitDown => start_effect(
            app::split_spawn(v, None),
        ),
        Action::EqualizePanes => if v.panes.order.len() > 1 {
            EffectView::Repaint
        } else {
            EffectView::Nothing
        },
        Action::ToggleViewMode => if v.window.live_window {
            EffectView::SaveConfig
        } else {
            EffectView::Nothing
        },
        Action::ToggleSearch => EffectView::ToggleSearch,
        Action::ToggleFullscreen => EffectView::Fullscreen(wanted_fullscreen(v, input)),
        Action::IncreaseFont => EffectView::FontStep(1i8),
        Action::DecreaseFont => EffectView::FontStep(-1i8),
        Action::ResetFont => EffectView::FontReset,
        Action::ClearScrollback => EffectView::ClearScrollback(live_focus(v.panes)),
        Action::CopyAll => match live_focus(v.panes) {
            Some(p) => EffectView::CopyAll(p),
            None => EffectView::Nothing,
        },
        Action::ScrollToTop => match live_focus(v.panes) {
            Some(p) => EffectView::ScrollToTop(p),
            None => EffectView::Nothing,
        },
        Action::ScrollToBottom => match live_focus(v.panes) {
            Some(p) => EffectView::ScrollToBottom(p),
            None => EffectView::Nothing,
        },
        _ => EffectView::Nothing,
    }
}

/// Closing `pane` takes the shell from `v` to `w`.
pub open spec fn closes(v: AppView, pane: PaneId, w: AppView) -> bool {
    if panes::closable(v.panes, pane) {
        &&& w == (AppView { panes: panes::after_close(v.panes, pane, w.panes.tree), ..v })
        &&& exists|t: u64| #[trigger]
            tree::tile_shows(v.panes.tree, t, pane.id) && tree::closed_tile(
                v.panes.tree,
                w.panes.tree,
                t,
            )
    } else {
        w == v
    }
}

/// An action takes the shell from `v` to `w`.
pub open spec fn acts(v: AppView, action: Action, input: ActionInput, w: AppView) -> bool {
    match action {
        Action::ClosePane => closes(v, v.panes.focused, w),
        Action::NewTab => app::app_splits(v, app::dir_for(input.wide), None, w),
        Action::SplitRight => app::app_splits(v, SplitDir::Horizontal, None, w),
        Action::SplitDown => app::app_splits(v, SplitDir::Vertical, None, w),
        Action::EqualizePanes => w == (AppView { panes: w.panes, ..v }) && panes::equalizes(
            v.panes,
            w.panes,
        ),
        _ => w == acted(v, action, input),
    }
}

/// A row of the context menu.
#[derive(Clone, Copy, Debug, PartialEq, Eq, Structural)]
pub enum ContextMenuAction {
    SplitRight,
    SplitDown,
    NewTerminal,
    ClosePane(PaneId),
}

/// Which way the pane of a row opens.
pub open spec fn menu_dir(action: ContextMenuAction, wide: Option<bool>) -> SplitDir {
    match action {
        ContextMenuAction::SplitRight => SplitDir::Horizontal,
        ContextMenuAction::SplitDown => SplitDir::Vertical,
        _ => app::dir_for(wide),
    }
}

/// What running the selected row of the palette came to.
#[derive(Debug, PartialEq, Eq)]
pub struct PaletteRun {
    /// The command or the label of the action that ran.
    pub ran: Option<String>,
    /// What to write to the focused terminal.
    pub write: Option<String>,
    /// What is left to do for the action.
    pub effect: ActionEffect,
}

/// What running a command writes to the focused terminal, if it has one.
pub open spec fn command_line(v: PanesView, cmd: Seq<char>) -> Option<Seq<char>> {
    if live_focus(v) is Some {
        Some(cmd + "\r"@)
    } else {
        None
    }
}

/// A command of the title bar, carried out or left to do.
#[derive(Clone, Copy, Debug, PartialEq, Eq, Structural)]
pub enum WindowEffect {
    Minimize,
    ToggleMaximize,
    Close(CloseEffects),
}

impl C0pl4ndApp {
    /// Close a pane. Tells whether it was closed.
    pub fn close_pane(&mut self, pane: PaneId) -> (r: bool)
        ensures
            r == panes::closable(old(self)@.panes, pane),
            closes(old(self)@, pane, final(self)@),
    {
        self.panes.close_pane(pane)
    }

    /// The focused pane, where it has a terminal.
    pub fn focused_terminal(&self) -> (r: Option<PaneId>)
        ensures
            r == live_focus(self@.panes),
    {
        if self.panes.has_term(self.panes.focused_pane) {
            Some(self.panes.focused_pane)
        } else {
            None
        }
    }

    /// Open the palette, or close it.
    pub fn toggle_palette(&mut self)
        ensures
            final(self)@ == palette_flipped(old(self)@),
    {
        self.palette.toggle_palette();
        if self.palette.palette_open {
            self.panes.input_line = String::new();
            assert(self.panes.input_line@ =~= Seq::empty());
        }
    }

    /// Show the panes the other way. Tells whether the config must be saved.
    pub fn toggle_view_mode(&mut self) -> (r: bool)
        ensures
            final(self)@ == acted(
                old(self)@,
                Action::ToggleViewMode,
                ActionInput { wide: None, os_fullscreen: None },
            ),
            r == old(self)@.window.live_window,
    {
        self.config.view_mode = match self.config.view_mode {
            ViewMode::Grid => ViewMode::Tabs,
            ViewMode::Tabs => ViewMode::Grid,
        };
        self.window.live_window
    }

    /// Carry out an action, from whichever surface it comes.
    #[verifier::rlimit(40)]
    pub fn dispatch_action(&mut self, action: Action, input: &ActionInput) -> (r: ActionEffect)
        requires
            old(self)@.panes.next_id < u64::MAX,
        ensures
            acts(old(self)@, action, *input, final(self)@),
            r@ == action_effect(old(self)@, action, *input),
    {
        match action {
            Action::NewTab => opt_effect(self.new_terminal(input.wide)),
            Action::SplitRight => opt_effect(self.split_in(SplitDir::Horizontal, None)),
            Action::SplitDown => opt_effect(self.split_in(SplitDir::Vertical, None)),
            Action::ClosePane => {
                let pane = self.panes.focused_pane;
                self.close_pane(pane);
                ActionEffect::Nothing
            },
            Action::FocusNextPane => {
                self.panes.focus_next_pane();
                ActionEffect::Nothing
            },
            Action::ZoomPane => {
                self.panes.toggle_zoom_pane();
                ActionEffect::Nothing
            },
            Action::EqualizePanes => {
                if self.equalize_panes() {
                    ActionEffect::Repaint
                } else {
                    ActionEffect::Nothing
                }
            },
            Action::ToggleViewMode => {
                if self.toggle_view_mode() {
                    ActionEffect::SaveConfig
                } else {
                    ActionEffect::Nothing
                }
            },
            Action::ToggleSearch => ActionEffect::ToggleSearch,
            Action::ToggleCommandPalette => {
                self.toggle_palette();
                ActionEffect::Nothing
            },
            Action::ToggleHistorySidebar => {
                self.palette.toggle_history_sidebar();
                ActionEffect::Nothing
            },
            Action::ToggleSettings => {
                self.window.settings_open = !self.window.settings_open;
                ActionEffect::Nothing
            },
            Action::ToggleFullscreen => {
                let want = self.window.toggled_fullscreen(input.os_fullscreen);
                self.window.set_fullscreen(want);
                ActionEffect::Fullscreen(want)
            },
            Action::IncreaseFont => ActionEffect::FontStep(1),
            Action::DecreaseFont => ActionEffect::FontStep(-1),
            Action::ResetFont => ActionEffect::FontReset,
            Action::ClearScrollback => ActionEffect::ClearScrollback(self.focused_terminal()),
            Action::CopyAll => match self.focused_terminal() {
                Some(p) => ActionEffect::CopyAll(p),
                None => ActionEffect::Nothing,
            },
            Action::ScrollToTop => match self.focused_terminal() {
                Some(p) => ActionEffect::ScrollToTop(p),
                None => ActionEffect::Nothing,
            },
            Action::ScrollToBottom => match self.focused_terminal() {
                Some(p) => ActionEffect::ScrollToBottom(p),
                None => ActionEffect::Nothing,
            },
        }
    }

    /// Carry out a row of the context menu.
    pub fn apply_context_menu_action(
        &mut self,
        action: ContextMenuAction,
        wide: Option<bool>,
    ) -> (r: Option<Spawn>)
        requires
            old(self)@.panes.next_id < u64::MAX,
        ensures
            action matches ContextMenuAction::ClosePane(p) ==> closes(
                old(self)@,
                p,
                final(self)@,
            ) && r is None,
            !(action is ClosePane) ==> app::app_splits(
                old(self)@,
                menu_dir(action, wide),
                None,
                final(self)@,
            ) && app::opt_spawn(r) == app::split_spawn(old(self)@, None),
    {
        match action {
            ContextMenuAction::ClosePane(pane) => {
                self.close_pane(pane);
                None
            },
            ContextMenuAction::SplitRight => self.split_in(SplitDir::Horizontal, None),
            ContextMenuAction::SplitDown => self.split_in(SplitDir::Vertical, None),
            ContextMenuAction::NewTerminal => self.new_terminal(wide),
        }
    }

    /// Run a command in the focused terminal. Gives what to write to it, where
    /// it is there; `kept` is what the history keeps of the command.
    pub fn run_command_in_focused(&mut self, cmd: &str, kept: &str) -> (r: Option<String>)
        ensures
            text::opt_text(r) == command_line(old(self)@.panes, cmd@),
            final(self)@ == command_ran(old(self)@, kept@),
    {
        let line = self.line_for(cmd);
        self.palette.cmd_history.record(kept);
        line
    }

    /// What running a command writes to the focused terminal.
    fn line_for(&self, cmd: &str) -> (r: Option<String>)
        ensures
            text::opt_text(r) == command_line(self@.panes, cmd@),
    {
        if self.focused_terminal().is_some() {
            let mut line = owned(cmd);
            line.append("\r");
            Some(line)
        } else {
            None
        }
    }

    /// Run the selected row of the palette and close it. `label` is the label of
    /// the row's action, if it is one, and `kept` what the history keeps of the
    /// row's command, if it is one.
    pub fn run_palette_selection(
        &mut self,
        rows: &Vec<PaletteEntry>,
        label: &str,
        kept: &str,
        input: &ActionInput,
    ) -> (r: PaletteRun)
        requires
            old(self)@.panes.next_id < u64::MAX,
        ensures
            selected_row(old(self)@.palette, palette::entry_views(rows@)) is None ==> {
                &&& r.ran is None
                &&& r.write is None
                &&& r.effect is Nothing
                &&& final(self)@ == row_ran(old(self)@, None, kept@)
            },
            selected_row(old(self)@.palette, palette::entry_views(rows@)) matches Some(
                EntryView::History(cmd),
            ) ==> {
                &&& text::opt_text(r.ran) == Some(cmd)
                &&& text::opt_text(r.write) == command_line(old(self)@.panes, cmd)
                &&& r.effect is Nothing
                &&& final(self)@ == row_ran(old(self)@, Some(EntryView::History(cmd)), kept@)
            },
            selected_row(old(self)@.palette, palette::entry_views(rows@)) matches Some(
                EntryView::Action(a),
            ) ==> {
                &&& text::opt_text(r.ran) == Some(label@)
                &&& r.write is None
                &&& r.effect@ == action_effect(old(self)@, a, *input)
                &&& exists|w: AppView| #[trigger]
                    acts(old(self)@, a, *input, w) && final(self)@ == row_ran(
                        w,
                        Some(EntryView::Action(a)),
                        kept@,
                    )
            },
    {
        let ghost views = palette::entry_views(rows@);
        if self.palette.palette_sel >= rows.len() {
            self.palette.note_run(&None, kept);
            return PaletteRun { ran: None, write: None, effect: ActionEffect::Nothing };
        }
        let row = &rows[self.palette.palette_sel];
        assert(views[self.palette.palette_sel as int] == row@);
        match row {
            PaletteEntry::History(cmd) => {
                let write = self.line_for(cmd.as_str());
                self.palette.note_run(&Some(row.copy()), kept);
                PaletteRun { ran: Some(cmd.clone()), write, effect: ActionEffect::Nothing }
            },
            PaletteEntry::Action(a) => {
                let effect = self.dispatch_action(*a, input);
                let ghost w = self@;
                self.palette.note_run(&Some(row.copy()), kept);
                assert(acts(old(self)@, *a, *input, w));
                PaletteRun { ran: Some(owned(label)), write: None, effect }
            },
        }
    }

    /// Run a row of the history sidebar and close it. `kept` is what the history
    /// keeps of it. Gives what to write to the focused terminal.
    pub fn run_history_command(&mut self, cmd: &str, kept: &str) -> (r: Option<String>)
        ensures
            text::opt_text(r) == command_line(old(self)@.panes, cmd@),
            final(self)@ == history_ran(old(self)@, cmd@, kept@),
    {
        let line = self.line_for(cmd);
        self.palette.note_history_run(cmd, kept);
        line
    }

    /// Run the row of the history sidebar at an index, as a click on it does.
    /// `kept` is what the history keeps of it. Gives the command that ran.
    pub fn test_run_history_row(&mut self, hits: &Vec<String>, index: usize, kept: &str) -> (r:
        Option<String>)
        ensures
            ({
                let rows = palette::sidebar_rows(old(self)@.palette, text::texts(hits@));
                if index < rows.len() {
                    text::opt_text(r) == Some(rows[index as int]) && final(self)@ == history_ran(
                        old(self)@,
                        rows[index as int],
                        kept@,
                    )
                } else {
                    r is None && final(self)@ == old(self)@
                }
            }),
    {
        let rows = self.palette.history_sidebar_rows(hits);
        assert(rows@.len() == text::texts(rows@).len());
        if index < rows.len() {
            assert(text::texts(rows@)[index as int] == rows@[index as int]@);
            let _ = self.run_history_command(rows[index].as_str(), kept);
            Some(rows[index].clone())
        } else {
            None
        }
    }

    /// What the tabs of the title bar asked for: a tab to focus, one to pin or
    /// unpin and one to close, in this order.
    pub fn apply_tab_actions(
        &mut self,
        focus: Option<PaneId>,
        pin: Option<PaneId>,
        close: Option<PaneId>,
    )
        ensures
            match close {
                Some(p) => closes(tabs_used(old(self)@, focus, pin), p, final(self)@),
                None => final(self)@ == tabs_used(old(self)@, focus, pin),
            },
    {
        if let Some(p) = focus {
            self.panes.focus_pane(p);
        }
        if let Some(p) = pin {
            self.panes.toggle_pin(p);
        }
        if let Some(p) = close {
            self.close_pane(p);
        }
    }

    /// A command of the title bar.
    pub fn window_command(&mut self, cmd: WindowCmd) -> (r: WindowEffect)
        requires
            old(self)@.close.exit_requests < u32::MAX,
        ensures
            ({
                let v = AppView {
                    window: WindowFlags { last_window_cmd: Some(cmd), ..old(self)@.window },
                    ..old(self)@
                };
                match cmd {
                    WindowCmd::Minimize => r == WindowEffect::Minimize && final(self)@ == v,
                    WindowCmd::ToggleMaximize => r == WindowEffect::ToggleMaximize
                        && final(self)@ == v,
                    WindowCmd::Close => r == WindowEffect::Close(
                        close::request_effects(app::app_outcome(v, false), false),
                    ) && final(self)@ == app::close_requested(v, false),
                }
            }),
    {
        self.window.last_window_cmd = Some(cmd);
        match cmd {
            WindowCmd::Minimize => WindowEffect::Minimize,
            WindowCmd::ToggleMaximize => WindowEffect::ToggleMaximize,
            WindowCmd::Close => WindowEffect::Close(self.handle_close_request(false, false)),
        }
    }
}

/// What is selected, where there is something: its ends differ, and its pane has
/// a terminal.
pub open spec fn live_selection(v: PanesView) -> Option<Selection> {
    match v.selection {
        Some(s) => if s.anchor != s.head && panes::term_of(v.terms, s.pane) is Some {
            Some(s)
        } else {
            None
        },
        None => None,
    }
}

impl C0pl4ndApp {
    /// What is selected, where there is something.
    pub fn live_selection(&self) -> (r: Option<Selection>)
        ensures
            r == live_selection(self@.panes),
    {
        match self.panes.selection {
            Some(s) => {
                let same = s.anchor.0 == s.head.0 && s.anchor.1 == s.head.1;
                if !same && self.panes.has_term(s.pane) {
                    Some(s)
                } else {
                    None
                }
            },
            None => None,
        }
    }

    /// What copying the selection copies: the part of it that is in view in its
    /// pane, whose view begins at `window_start`.
    pub fn selection_copy(&self, window_start: usize) -> (r: Option<CopyRange>)
        requires
            window_start <= usize::MAX - 0xffff,
        ensures
            r == (match live_selection(self@.panes) {
                Some(s) => match panes::term_of(self@.panes.terms, s.pane) {
                    Some(t) => pane_body::visible_copy(s, window_start, t.size.1 as usize),
                    None => None,
                },
                None => None,
            }),
    {
        match self.live_selection() {
            Some(s) => match self.panes.pane_size(s.pane) {
                Some(size) => copy_visible(&s, window_start, size.1 as usize),
                None => None,
            },
            None => None,
        }
    }

    /// Forget the selection.
    pub fn clear_selection(&mut self)
        ensures
            final(self)@ == (AppView {
                panes: PanesView { selection: None, ..old(self)@.panes },
                ..old(self)@
            }),
    {
        self.panes.selection = None;
    }

    /// The keys of the palette: up and down move the selection in its `rows`
    /// rows, Escape closes it.
    pub fn palette_keys(&mut self, up: bool, down: bool, escape: bool, rows: usize)
        ensures
            final(self)@ == (AppView {
                palette: PaletteView {
                    sel: stepped(old(self)@.palette.sel, up, down, rows as int),
                    open: old(self)@.palette.open && !escape,
                    ..old(self)@.palette
                },
                ..old(self)@
            }),
    {
        if up {
            self.palette.palette_move(-1, rows);
        }
        if down {
            self.palette.palette_move(1, rows);
        }
        if escape {
            self.palette.palette_open = false;
        }
    }

    /// Settle what the grid area brought: the link that was opened, the tree as
    /// it was drawn, and the pane that was clicked. The tree counts only where
    /// all panes were shown.
    pub fn settle_grid(
        &mut self,
        opened_url: Option<String>,
        drawn: egui_tiles::Tree<u64>,
        clicked: Option<PaneId>,
    )
        ensures
            final(self)@ == grid_settled(
                old(self)@,
                text::opt_text(opened_url),
                drawn,
                clicked,
            ),
    {
        if let Some(url) = opened_url {
            self.notices.last_opened_url = Some(url);
        }
        match self.panes.shown_panes(self.config.view_mode == ViewMode::Tabs) {
            Shown::All => {
                let _ = self.rearranged(drawn);
            },
            Shown::One(_) => {},
        }
        if let Some(pane) = clicked {
            self.panes.focus_pane(pane);
        }
    }
}

/// The selected row after the arrow keys of a frame.
pub open spec fn stepped(sel: int, up: bool, down: bool, rows: int) -> int {
    let s = if up {
        palette::moved(sel, -1, rows)
    } else {
        sel
    };
    if down {
        palette::moved(s, 1, rows)
    } else {
        s
    }
}

/// Whether the grid area shows all panes: none is shown alone, and the view is
/// not the tabbed one.
pub open spec fn all_shown(v: AppView) -> bool {
    panes::on_display(v.panes, v.config.view_mode is Tabs) is All
}

/// The shell after a frame of the grid area.
pub open spec fn grid_settled(
    v: AppView,
    url: Option<Seq<char>>,
    drawn: egui_tiles::Tree<u64>,
    clicked: Option<PaneId>,
) -> AppView {
    let u = AppView {
        notices: match url {
            Some(u) => NoticesView { url: Some(u), ..v.notices },
            None => v.notices,
        },
        ..v
    };
    let w = if all_shown(v) {
        app::app_dragged(u, drawn)
    } else {
        u
    };
    match clicked {
        Some(p) => AppView { panes: panes::focused_on(w.panes, p), ..w },
        None => w,
    }
}

/// A frame of the grid area never leaves the grid without a pane or with more
/// than fit. A tree with more panes than fit is put back to what it was, and a
/// toast says so; and where one pane is shown alone the tree stays as it is.
pub proof fn the_grid_keeps_its_bounds(
    v: AppView,
    url: Option<Seq<char>>,
    drawn: egui_tiles::Tree<u64>,
    clicked: Option<PaneId>,
)
    requires
        1 <= v.panes.order.len() <= MAX_PANES,
    ensures
        ({
            let w = grid_settled(v, url, drawn, clicked);
            &&& 1 <= w.panes.order.len() <= MAX_PANES
            &&& all_shown(v) && tree::listed(drawn).len() > MAX_PANES ==> w.panes.tree == v.panes.tree
                && w.panes.order == v.panes.order && w.notices.toast == Some(app::cap_text())
            &&& !all_shown(v) ==> w.panes.tree == v.panes.tree && w.panes.order == v.panes.order
        }),
{
}

/// A frame of the grid area keeps the invariant of the panes, where every pane of
/// the tree that was drawn hangs in one place and is shown by one tile, all were
/// numbered, and the one with the focus and the one that was clicked are among
/// them.
pub proof fn a_drag_keeps_the_invariant(
    v: AppView,
    url: Option<Seq<char>>,
    drawn: egui_tiles::Tree<u64>,
    clicked: Option<PaneId>,
)
    requires
        panes::valid(v.panes),
        tree::linked_once(drawn),
        tree::each_shown_once(drawn),
        forall|i: int|
            0 <= i < tree::listed(drawn).len() ==> (#[trigger] tree::listed(drawn)[i]).id
                < v.panes.next_id,
        tree::listed(drawn).contains(v.panes.focused),
        clicked matches Some(p) ==> tree::listed(drawn).contains(p) && v.panes.order.contains(p),
    ensures
        panes::valid(grid_settled(v, url, drawn, clicked).panes),
{
    panes::rearranging_keeps_the_invariant(v.panes, drawn);
}

/// What is left to do after a pane was asked for.
fn opt_effect(s: Option<Spawn>) -> (r: ActionEffect)
    ensures
        r@ == start_effect(app::opt_spawn(s)),
{
    match s {
        Some(s) => ActionEffect::Start(s),
        None => ActionEffect::Nothing,
    }
}

/// The selected row of the palette.
pub open spec fn selected_row(v: PaletteView, rows: Seq<EntryView>) -> Option<EntryView> {
    if v.sel < rows.len() {
        Some(rows[v.sel])
    } else {
        None
    }
}

/// The shell after the selected row of the palette was run.
pub open spec fn row_ran(v: AppView, row: Option<EntryView>, kept: Seq<char>) -> AppView {
    AppView { palette: palette::after_run(v.palette, row, kept), ..v }
}

/// The shell after a command was run: the history keeps it.
pub open spec fn command_ran(v: AppView, kept: Seq<char>) -> AppView {
    AppView {
        palette: PaletteView {
            history: palette::recorded(v.palette.history, kept),
            ..v.palette
        },
        ..v
    }
}

/// The shell after a row of the history sidebar was run.
pub open spec fn history_ran(v: AppView, cmd: Seq<char>, kept: Seq<char>) -> AppView {
    AppView {
        palette: PaletteView {
            history: palette::recorded(v.palette.history, kept),
            last_run: Some(cmd),
            history_open: false,
            ..v.palette
        },
        ..v
    }
}

/// The shell after a tab was focused and one pinned or unpinned.
pub open spec fn tabs_used(v: AppView, focus: Option<PaneId>, pin: Option<PaneId>) -> AppView {
    let f = match focus {
        Some(p) => panes::focused_on(v.panes, p),
        None => v.panes,
    };
    AppView {
        panes: match pin {
            Some(p) => panes::pin_toggled(f, p),
            None => f,
        },
        ..v
    }
}

/// Using the tabs keeps the invariant of the panes, where the tab that was
/// chosen is that of an open pane.
pub proof fn using_tabs_keeps_the_invariant(
    v: AppView,
    focus: Option<PaneId>,
    pin: Option<PaneId>,
    close: Option<PaneId>,
    w: AppView,
)
    requires
        panes::valid(v.panes),
        focus matches Some(p) ==> v.panes.order.contains(p),
        match close {
            Some(p) => closes(tabs_used(v, focus, pin), p, w),
            None => w == tabs_used(v, focus, pin),
        },
    ensures
        panes::valid(w.panes),
{
    let f = match focus {
        Some(p) => panes::focused_on(v.panes, p),
        None => v.panes,
    };
    let u = tabs_used(v, focus, pin);
    if let Some(p) = pin {
        panes::pinning_keeps_the_invariant(f, p);
    }
    if let Some(p) = close {
        if panes::closable(u.panes, p) {
            let t = choose|t: u64| #[trigger]
                tree::tile_shows(u.panes.tree, t, p.id) && tree::closed_tile(
                    u.panes.tree,
                    w.panes.tree,
                    t,
                );
            panes::closing_keeps_the_invariant(u.panes, p, w.panes.tree, t);
        }
    }
}

/// Every action keeps the invariant of the panes: there is always a pane and
/// never more than fit, no two have the same number, and one has the focus.
pub proof fn every_action_keeps_the_invariant(
    v: AppView,
    action: Action,
    input: ActionInput,
    w: AppView,
)
    requires
        panes::valid(v.panes),
        v.panes.next_id < u64::MAX,
        acts(v, action, input, w),
    ensures
        panes::valid(w.panes),
{
    match action {
        Action::ClosePane => {
            if panes::closable(v.panes, v.panes.focused) {
                let p = v.panes.focused;
                let t = choose|t: u64| #[trigger]
                    tree::tile_shows(v.panes.tree, t, p.id) && tree::closed_tile(
                        v.panes.tree,
                        w.panes.tree,
                        t,
                    );
                panes::closing_keeps_the_invariant(v.panes, p, w.panes.tree, t);
            }
        },
        Action::NewTab => {
            panes::splitting_keeps_the_invariant(
                v.panes,
                app::dir_for(input.wide),
                None,
                w.panes.tree,
            );
        },
        Action::SplitRight => {
            panes::splitting_keeps_the_invariant(
                v.panes,
                SplitDir::Horizontal,
                None,
                w.panes.tree,
            );
        },
        Action::SplitDown => {
            panes::splitting_keeps_the_invariant(v.panes, SplitDir::Vertical, None, w.panes.tree);
        },
        Action::EqualizePanes => {
            panes::equalizing_keeps_the_invariant(v.panes, w.panes);
        },
        Action::FocusNextPane => {
            panes::moving_on_keeps_the_invariant(v.panes);
        },
        _ => {},
    }
}

/// The palette and the keys reach an action the same way: what an action does
/// is the same, but for the note the palette keeps and that it is closed after.
pub proof fn the_palette_only_adds_its_note(
    v: AppView,
    a: Action,
    input: ActionInput,
    w: AppView,
    kept: Seq<char>,
)
    requires
        acts(v, a, input, w),
    ensures
        ({
            let r = row_ran(w, Some(EntryView::Action(a)), kept);
            &&& r.panes == w.panes
            &&& r.config == w.config
            &&& r.window == w.window
            &&& r.notices == w.notices
            &&& !r.palette.open
            &&& r.palette.last_action == Some(a)
        }),
{
}

/// Whether a command is run from the palette, from the sidebar or directly, the
/// history keeps the same of it; and the panes are left alone.
pub proof fn every_run_keeps_the_same(v: AppView, cmd: Seq<char>, kept: Seq<char>)
    ensures
        ({
            let p = row_ran(v, Some(EntryView::History(cmd)), kept);
            let h = history_ran(v, cmd, kept);
            let c = command_ran(v, kept);
            &&& p.palette.history == c.palette.history
            &&& h.palette.history == c.palette.history
            &&& p.panes == v.panes && h.panes == v.panes && c.panes == v.panes
            &&& p.palette.last_run == h.palette.last_run
        }),
{
}

/// Opening the palette and closing it again leaves the shell as it was, but for
/// the line being typed, the query and the selection.
pub proof fn the_palette_opens_fresh(v: AppView)
    requires
        !v.palette.open,
    ensures
        palette_flipped(v).palette.open,
        palette_flipped(v).palette.query == Seq::<char>::empty(),
        palette_flipped(v).palette.sel == 0,
        palette_flipped(v).panes.line == Seq::<char>::empty(),
        !palette_flipped(palette_flipped(v)).palette.open,
{
}

/// Showing the panes the other way twice shows them as before.
pub proof fn the_view_flips_back(v: AppView, input: ActionInput)
    ensures
        acted(
            acted(v, Action::ToggleViewMode, input),
            Action::ToggleViewMode,
            input,
        ) == v,
{
}

/// Each action on the focused terminal says what is to be done with that
/// terminal, and nothing where there is none.
pub proof fn actions_on_the_terminal_name_it(v: AppView, input: ActionInput)
    ensures
        panes::term_of(v.panes.terms, v.panes.focused) is Some ==> {
            &&& action_effect(v, Action::ScrollToTop, input) == EffectView::ScrollToTop(
                v.panes.focused,
            )
            &&& action_effect(v, Action::ScrollToBottom, input) == EffectView::ScrollToBottom(
                v.panes.focused,
            )
            &&& action_effect(v, Action::CopyAll, input) == EffectView::CopyAll(v.panes.focused)
            &&& action_effect(v, Action::ClearScrollback, input) == EffectView::ClearScrollback(
                Some(v.panes.focused),
            )
        },
        panes::term_of(v.panes.terms, v.panes.focused) is None ==> {
            &&& action_effect(v, Action::ScrollToTop, input) is Nothing
            &&& action_effect(v, Action::ScrollToBottom, input) is Nothing
            &&& action_effect(v, Action::CopyAll, input) is Nothing
            &&& action_effect(v, Action::ClearScrollback, input) == EffectView::ClearScrollback(
                None,
            )
        },
{
}

/// What is left to do for the other actions: a step of the font up or down, its
/// default size, the search bar, the window's size, the config to save.
pub proof fn actions_leave_their_own_work(v: AppView, input: ActionInput)
    ensures
        action_effect(v, Action::IncreaseFont, input) == EffectView::FontStep(1i8),
        action_effect(v, Action::DecreaseFont, input) == EffectView::FontStep(-1i8),
        action_effect(v, Action::ResetFont, input) is FontReset,
        action_effect(v, Action::ToggleSearch, input) is ToggleSearch,
        input.os_fullscreen == Some(true) ==> action_effect(v, Action::ToggleFullscreen, input)
            == EffectView::Fullscreen(false),
        input.os_fullscreen == Some(false) ==> action_effect(v, Action::ToggleFullscreen, input)
            == EffectView::Fullscreen(true),
        input.os_fullscreen is None ==> action_effect(v, Action::ToggleFullscreen, input)
            == EffectView::Fullscreen(!v.window.fullscreen),
        v.window.live_window ==> action_effect(v, Action::ToggleViewMode, input) is SaveConfig,
        !v.window.live_window ==> action_effect(v, Action::ToggleViewMode, input) is Nothing,
        v.panes.order.len() > 1 ==> action_effect(v, Action::EqualizePanes, input) is Repaint,
        v.panes.order.len() <= 1 ==> action_effect(v, Action::EqualizePanes, input) is Nothing,
        action_effect(v, Action::ClosePane, input) is Nothing,
        action_effect(v, Action::FocusNextPane, input) is Nothing,
        action_effect(v, Action::ZoomPane, input) is Nothing,
        action_effect(v, Action::ToggleCommandPalette, input) is Nothing,
        action_effect(v, Action::ToggleHistorySidebar, input) is Nothing,
        action_effect(v, Action::ToggleSettings, input) is Nothing,
{
}

/// The actions that open a pane leave its terminal to be started, where it opened,
/// in the shell's own directory.
pub proof fn opened_panes_are_to_be_started(v: AppView, action: Action, input: ActionInput)
    requires
        action == Action::NewTab || action == Action::SplitRight || action == Action::SplitDown,
    ensures
        panes::split_outcome(v.panes) matches SplitOutcome::Opened(p) ==> (action_effect(
            v,
            action,
            input,
        ) matches EffectView::Start(s) && s.pane == p && s.plan == shells::shell_plan(
            v.shells,
            80,
            24,
            v.config.term,
            None,
        )),
        !(panes::split_outcome(v.panes) is Opened) ==> action_effect(v, action, input) is Nothing,
{
}

/// Splitting to the right puts the new pane beside the focused one, splitting
/// down below it; a new tab goes beside where the focused pane is wide or was
/// never drawn, and below where it is not. A row of the menu does the same.
pub proof fn panes_open_where_they_are_asked_to(v: AppView, input: ActionInput, w: AppView)
    requires
        panes::split_outcome(v.panes) is Opened,
    ensures
        ({
            let new = panes::split_outcome(v.panes)->0;
            let (old, to) = (v.panes.tree, w.panes.tree);
            let right = tree::splits_tile(old, to, v.panes.focused, new, SplitDir::Horizontal);
            let down = tree::splits_tile(old, to, v.panes.focused, new, SplitDir::Vertical);
            &&& acts(v, Action::SplitRight, input, w) ==> right
            &&& acts(v, Action::SplitDown, input, w) ==> down
            &&& acts(v, Action::NewTab, input, w) && input.wide != Some(false) ==> right
            &&& acts(v, Action::NewTab, input, w) && input.wide == Some(false) ==> down
            &&& acts(v, Action::SplitRight, input, w) || acts(v, Action::SplitDown, input, w)
                || acts(v, Action::NewTab, input, w) ==> w.panes.focused == new
        }),
        menu_dir(ContextMenuAction::SplitRight, input.wide) == SplitDir::Horizontal,
        menu_dir(ContextMenuAction::SplitDown, input.wide) == SplitDir::Vertical,
        input.wide == Some(false) ==> menu_dir(ContextMenuAction::NewTerminal, input.wide)
            == SplitDir::Vertical,
        input.wide != Some(false) ==> menu_dir(ContextMenuAction::NewTerminal, input.wide)
            == SplitDir::Horizontal,
{
}

/// Each toggle turns its own switch and no other.
pub proof fn toggles_turn_their_own_switch(v: AppView, input: ActionInput)
    ensures
        ({
            let mode = acted(v, Action::ToggleViewMode, input);
            let settings = acted(v, Action::ToggleSettings, input);
            let sidebar = acted(v, Action::ToggleHistorySidebar, input);
            let commands = acted(v, Action::ToggleCommandPalette, input);
            let full = acted(v, Action::ToggleFullscreen, input);
            &&& v.config.view_mode == ViewMode::Grid <==> mode.config.view_mode == ViewMode::Tabs
            &&& mode.panes == v.panes && mode.window == v.window && mode.palette == v.palette
            &&& settings.window.settings_open == !v.window.settings_open
            &&& settings.window.fullscreen == v.window.fullscreen && settings.panes == v.panes
                && settings.palette == v.palette && settings.config == v.config
            &&& sidebar.palette.history_open == !v.palette.history_open
            &&& !v.palette.history_open ==> sidebar.palette.filter.len() == 0
            &&& sidebar.palette.open == v.palette.open && sidebar.panes == v.panes
                && sidebar.window == v.window && sidebar.palette.history == v.palette.history
            &&& commands.palette.open == !v.palette.open
            &&& commands.palette.history_open == v.palette.history_open && commands.window
                == v.window && commands.config == v.config
            &&& v.palette.open ==> commands.panes == v.panes
            &&& !v.palette.open ==> commands.panes == (PanesView { line: Seq::empty(), ..v.panes })
            &&& input.os_fullscreen matches Some(on) ==> full.window.fullscreen == !on
            &&& input.os_fullscreen is None ==> full.window.fullscreen == !v.window.fullscreen
            &&& full.window.settings_open == v.window.settings_open && full.panes == v.panes
                && full.palette == v.palette && full.config == v.config
        }),
{
}

/// The actions on the panes change the panes alone, and those whose work is left
/// to do change nothing.
pub proof fn actions_touch_nothing_else(v: AppView, action: Action, input: ActionInput, w: AppView)
    requires
        acts(v, action, input, w),
    ensures
        action == Action::FocusNextPane || action == Action::ZoomPane || action
            == Action::ClosePane || action == Action::EqualizePanes ==> w == (AppView {
            panes: w.panes,
            ..v
        }),
        action == Action::FocusNextPane ==> w.panes == (PanesView {
            focused: w.panes.focused,
            line: w.panes.line,
            ..v.panes
        }),
        action == Action::ZoomPane && v.panes.zoomed is None ==> w.panes.zoomed == Some(
            v.panes.focused,
        ),
        action == Action::ZoomPane && v.panes.zoomed is Some ==> w.panes.zoomed is None,
        action == Action::ZoomPane ==> w.panes == (PanesView { zoomed: w.panes.zoomed, ..v.panes }),
        action == Action::NewTab || action == Action::SplitRight || action == Action::SplitDown
            ==> w == (AppView { panes: w.panes, notices: w.notices, ..v }),
        action == Action::ToggleSearch || action == Action::IncreaseFont || action
            == Action::DecreaseFont || action == Action::ResetFont || action
            == Action::ClearScrollback || action == Action::CopyAll || action
            == Action::ScrollToTop || action == Action::ScrollToBottom ==> w == v,
{
}

/// Closing closes the pane it is asked to close, where there is another; the
/// action closes the focused one.
pub proof fn closing_closes_what_it_is_asked_to(
    v: AppView,
    pane: PaneId,
    input: ActionInput,
    w: AppView,
)
    ensures
        acts(v, Action::ClosePane, input, w) <==> closes(v, v.panes.focused, w),
        closes(v, pane, w) && (v.panes.order.len() <= 1 || !tree::shows(v.panes.tree, pane.id))
            ==> w == v,
        closes(v, pane, w) && v.panes.order.len() > 1 && tree::shows(v.panes.tree, pane.id) ==> {
            &&& w.config == v.config && w.palette == v.palette && w.window == v.window
            &&& w.close == v.close && w.notices == v.notices && w.shells == v.shells
            &&& w.panes.selection is None
            &&& v.panes.zoomed == Some(pane) ==> w.panes.zoomed is None
            &&& v.panes.zoomed != Some(pane) ==> w.panes.zoomed == v.panes.zoomed
            &&& exists|t: u64| #[trigger]
                tree::tile_shows(v.panes.tree, t, pane.id) && tree::closed_tile(
                    v.panes.tree,
                    w.panes.tree,
                    t,
                )
        },
{
}

/// A command goes to the focused terminal with a carriage return behind it, where
/// there is one.
pub proof fn commands_end_in_a_return(v: PanesView, cmd: Seq<char>)
    ensures
        panes::term_of(v.terms, v.focused) is Some ==> command_line(v, cmd) == Some(
            cmd.push('\r'),
        ),
        panes::term_of(v.terms, v.focused) is None ==> command_line(v, cmd) is None,
{
    reveal_strlit("\r");
    assert(cmd + "\r"@ =~= cmd.push('\r'));
}

/// A selection counts where its ends differ and its pane has a terminal.
pub proof fn an_empty_selection_is_none(v: PanesView, s: Selection)
    ensures
        v.selection is None ==> live_selection(v) is None,
        v.selection == Some(s) && s.anchor.0 == s.head.0 && s.anchor.1 == s.head.1
            ==> live_selection(v) is None,
        v.selection == Some(s) && panes::term_of(v.terms, s.pane) is None ==> live_selection(
            v,
        ) is None,
        v.selection == Some(s) && (s.anchor.0 != s.head.0 || s.anchor.1 != s.head.1)
            && panes::term_of(v.terms, s.pane) is Some ==> live_selection(v) == Some(s),
{
}

/// The arrow keys of the palette move its selection one row up or down, and not
/// past its ends; both together move it there and back.
pub proof fn the_arrows_step_through_the_rows(sel: int, rows: int)
    requires
        0 <= sel < rows,
    ensures
        stepped(sel, false, false, rows) == sel,
        sel > 0 ==> stepped(sel, true, false, rows) == sel - 1,
        sel == 0 ==> stepped(sel, true, false, rows) == 0,
        sel < rows - 1 ==> stepped(sel, false, true, rows) == sel + 1,
        sel == rows - 1 ==> stepped(sel, false, true, rows) == sel,
        sel > 0 ==> stepped(sel, true, true, rows) == sel,
        sel == 0 && rows > 1 ==> stepped(sel, true, true, rows) == 1,
{
}

/// A frame of the grid area: the link that was opened is noted, the tree as it
/// was drawn is taken over where all panes were shown and no more than fit, and
/// the pane that was clicked has the focus.
pub proof fn a_frame_of_the_grid_is_settled(
    v: AppView,
    url: Option<Seq<char>>,
    drawn: egui_tiles::Tree<u64>,
    clicked: Option<PaneId>,
)
    ensures
        ({
            let w = grid_settled(v, url, drawn, clicked);
            &&& url is Some ==> w.notices.url == url
            &&& url is None ==> w.notices.url == v.notices.url
            &&& clicked matches Some(p) ==> w.panes.focused == p
            &&& clicked is None ==> w.panes.focused == v.panes.focused
            &&& clicked is None || clicked == Some(v.panes.focused) ==> w.panes.line
                == v.panes.line
            &&& clicked is Some && clicked != Some(v.panes.focused) ==> w.panes.line.len() == 0
            &&& v.config.view_mode == ViewMode::Grid && v.panes.zoomed is None && 1
                <= tree::listed(drawn).len() <= MAX_PANES ==> w.panes.tree == drawn
                && w.panes.order == tree::listed(drawn)
            &&& v.config.view_mode == ViewMode::Tabs ==> w.panes.tree == v.panes.tree
                && w.panes.order == v.panes.order
            &&& w == (AppView { panes: w.panes, notices: w.notices, ..v })
            &&& w.panes == (PanesView {
                tree: w.panes.tree,
                order: w.panes.order,
                focused: w.panes.focused,
                line: w.panes.line,
                ..v.panes
            })
        }),
{
}

/// The row that is run is the selected one; past the last row there is none.
pub proof fn the_selected_row_is_run(v: PaletteView, rows: Seq<EntryView>)
    requires
        0 <= v.sel,
    ensures
        v.sel < rows.len() ==> selected_row(v, rows) == Some(rows[v.sel]),
        v.sel >= rows.len() ==> selected_row(v, rows) is None,
{
}

/// Running a command from anywhere puts it first in the history; from the
/// sidebar it also closes the sidebar and is noted as what ran last.
pub proof fn what_ran_is_first_in_the_history(v: AppView, cmd: Seq<char>, kept: Seq<char>)
    ensures
        ({
            let c = command_ran(v, kept);
            let h = history_ran(v, cmd, kept);
            &&& c.palette.history.len() > 0 && c.palette.history[0] == kept
            &&& h.palette.history.len() > 0 && h.palette.history[0] == kept
            &&& h.palette.last_run == Some(cmd) && !h.palette.history_open
            &&& c.palette.last_run == v.palette.last_run && c.palette.history_open
                == v.palette.history_open
            &&& c.palette.open == v.palette.open && h.palette.open == v.palette.open
            &&& c == (AppView { palette: c.palette, ..v }) && h == (AppView {
                palette: h.palette,
                ..v
            })
        }),
{
}

/// Using the tabs: the tab that was chosen has the focus, the one that was to be
/// pinned is pinned where it was not and unpinned where it was, and what was not
/// asked for stays.
pub proof fn tabs_do_what_they_are_asked(v: AppView, focus: Option<PaneId>, pin: Option<PaneId>)
    ensures
        ({
            let w = tabs_used(v, focus, pin);
            &&& focus matches Some(p) ==> w.panes.focused == p
            &&& focus is None ==> w.panes.focused == v.panes.focused
            &&& pin matches Some(p) ==> (!v.panes.pinned.contains(p) ==> w.panes.pinned
                == v.panes.pinned.push(p))
            &&& pin matches Some(p) ==> (v.panes.pinned.contains(p) ==> !w.panes.pinned.contains(
                p,
            ))
            &&& pin is None ==> w.panes.pinned == v.panes.pinned
            &&& w == (AppView { panes: w.panes, ..v })
            &&& w.panes == (PanesView {
                focused: w.panes.focused,
                line: w.panes.line,
                pinned: w.panes.pinned,
                ..v.panes
            })
        }),
{
    if let Some(p) = pin {
        grid::without_keeps_the_others(v.panes.pinned, p);
    }
}

/// Scrolling goes to the top or the bottom of the focused terminal, as the action
/// says, and copying takes all of it; the shell itself does not change.
pub proof fn scrolling_goes_where_it_is_told(
    app: &mut C0pl4ndApp,
    action: Action,
    input: &ActionInput,
    r: ActionEffect,
    pane: PaneId,
)
    requires
        call_ensures(C0pl4ndApp::dispatch_action, (app, action, input), r),
        live_focus(old(app)@.panes) == Some(pane),
    ensures
        action is ScrollToTop <==> r@ == EffectView::ScrollToTop(pane),
        action is ScrollToBottom <==> r@ == EffectView::ScrollToBottom(pane),
        action is CopyAll <==> r@ == EffectView::CopyAll(pane),
        action is ClearScrollback <==> r@ == EffectView::ClearScrollback(Some(pane)),
        action is ScrollToTop || action is ScrollToBottom || action is CopyAll
            || action is ClearScrollback ==> final(app)@ == old(app)@,
{
}

/// A larger font is a step up, a smaller one a step down, and neither is the
/// default.
pub proof fn font_actions_step_the_font(
    app: &mut C0pl4ndApp,
    action: Action,
    input: &ActionInput,
    r: ActionEffect,
)
    requires
        call_ensures(C0pl4ndApp::dispatch_action, (app, action, input), r),
    ensures
        action is IncreaseFont <==> r@ == EffectView::FontStep(1i8),
        action is DecreaseFont <==> r@ == EffectView::FontStep(-1i8),
        action is ResetFont <==> r@ is FontReset,
        action is ToggleSearch <==> r@ is ToggleSearch,
        action is ToggleFullscreen <==> r@ is Fullscreen,
        action is ToggleSettings ==> final(app)@.window.settings_open == !old(
            app,
        )@.window.settings_open,
        action is ToggleHistorySidebar ==> final(app)@.palette.history_open == !old(
            app,
        )@.palette.history_open,
        action is ToggleFullscreen ==> r@ == EffectView::Fullscreen(final(app)@.window.fullscreen),
{
}

/// The buttons of the title bar do what they show, and are remembered.
pub proof fn title_bar_buttons_do_what_they_show(
    app: &mut C0pl4ndApp,
    cmd: WindowCmd,
    r: WindowEffect,
)
    requires
        call_ensures(C0pl4ndApp::window_command, (app, cmd), r),
    ensures
        cmd is Minimize <==> r is Minimize,
        cmd is ToggleMaximize <==> r is ToggleMaximize,
        cmd is Close <==> r is Close,
        final(app)@.window.last_window_cmd == Some(cmd),
        !(cmd is Close) ==> final(app)@.close == old(app)@.close,
        r matches WindowEffect::Close(e) ==> !e.cancel_close,
        final(app)@.panes == old(app)@.panes && final(app)@.palette == old(app)@.palette,
{
}

/// Escape closes the palette, and the arrows move its selection; nothing else
/// changes.
pub proof fn the_palette_listens_to_its_keys(
    app: &mut C0pl4ndApp,
    up: bool,
    down: bool,
    escape: bool,
    rows: usize,
)
    requires
        call_ensures(C0pl4ndApp::palette_keys, (app, up, down, escape, rows), ()),
    ensures
        final(app)@.palette.open == (old(app)@.palette.open && !escape),
        !up && !down && old(app)@.palette.sel < rows ==> final(app)@.palette.sel == old(
            app,
        )@.palette.sel,
        down && !up && old(app)@.palette.sel + 1 < rows ==> final(app)@.palette.sel == old(
            app,
        )@.palette.sel + 1,
        up && !down && 0 < old(app)@.palette.sel < rows ==> final(app)@.palette.sel == old(
            app,
        )@.palette.sel - 1,
        final(app)@ == (AppView {
            palette: PaletteView {
                sel: final(app)@.palette.sel,
                open: final(app)@.palette.open,
                ..old(app)@.palette
            },
            ..old(app)@
        }),
{
}

/// A row of the context menu closes the pane it was opened on, or opens one on its
/// side.
pub proof fn menu_rows_do_what_they_say(
    app: &mut C0pl4ndApp,
    action: ContextMenuAction,
    wide: Option<bool>,
    r: Option<Spawn>,
)
    requires
        call_ensures(C0pl4ndApp::apply_context_menu_action, (app, action, wide), r),
    ensures
        action matches ContextMenuAction::ClosePane(p) ==> r is None && closes(
            old(app)@,
            p,
            final(app)@,
        ),
        action is SplitRight ==> app::app_splits(
            old(app)@,
            SplitDir::Horizontal,
            None,
            final(app)@,
        ),
        action is SplitDown ==> app::app_splits(old(app)@, SplitDir::Vertical, None, final(app)@),
        action is NewTerminal ==> app::app_splits(
            old(app)@,
            app::dir_for(wide),
            None,
            final(app)@,
        ),
        !(action is ClosePane) ==> app::opt_spawn(r) == app::split_spawn(old(app)@, None),
{
}

/// A click on a row of the history runs that row; past the end nothing runs.
pub proof fn a_clicked_history_row_runs(
    app: &mut C0pl4ndApp,
    hits: &Vec<String>,
    index: usize,
    kept: &str,
    r: Option<String>,
)
    requires
        call_ensures(C0pl4ndApp::test_run_history_row, (app, hits, index, kept), r),
    ensures
        ({
            let rows = palette::sidebar_rows(old(app)@.palette, text::texts(hits@));
            &&& r is Some <==> index < rows.len()
            &&& r matches Some(cmd) ==> cmd@ == rows[index as int]
                && final(app)@.palette.last_run == Some(cmd@)
                && !final(app)@.palette.history_open
            &&& r is None ==> final(app)@ == old(app)@
        }),
{
}

} // verus!
