//! The shell as a whole: its state, and what each request makes of it.

use crate::actions;
use crate::actions::{Action, EntryView, PaletteEntry, ACTION_COUNT};
use crate::close;
use crate::close::{
    take_explicit_quit, CloseEffects, CloseOutcome, CloseState, WindowCmd, WindowConfig,
};
use crate::config_watch::{ConfigWatcher, FileStamp};
use crate::frame;
use crate::frame::{
    frame_policy, idle_repaint_interval, startup_toast, CursorBlinkPhase, GlyphWarmup, WarmupView,
    WindowFlags,
};
use crate::grid::{PaneId, SplitDir, MAX_PANES};
use crate::grid_interaction;
use crate::grid_interaction::{link_url_at_cell, CellSpan, SelectionMode};
use crate::layout;
use crate::layout::LayoutSnapshot;
use crate::palette;
use crate::palette::{matching_actions, palette_results, Palette, PaletteView};
use crate::panes;
use crate::panes::{Panes, PanesView, SplitOutcome};
use crate::paste;
use crate::paste::{PasteConfirmReason, PendingPaste, PendingView};
use crate::shells;
use crate::shells::{
    quote_path_for_shell, PlanView, ShellProfile, Shells, ShellsView, SpawnPlan,
    SPAWN_COLS, SPAWN_ROWS,
};
use crate::text;
use crate::text::{copy_opt, copy_texts, decimal_of, owned};
use crate::tree;
use crate::tree::panes_in_visual_order;
use vstd::prelude::*;

verus! {

/// How the panes are shown.
#[derive(Clone, Copy, Debug, PartialEq, Eq, Structural)]
pub enum ViewMode {
    /// All at once.
    Grid,
    /// One at a time.
    Tabs,
}

/// A side of the window.
#[derive(Clone, Copy, Debug, PartialEq, Eq, Structural)]
pub enum PanelSide {
    Left,
    Right,
}

/// The preferences the shell goes by.
#[derive(Debug, PartialEq, Eq)]
pub struct Config {
    pub window: WindowConfig,
    pub view_mode: ViewMode,
    pub history_sidebar_side: PanelSide,
    /// Typed commands are recorded.
    pub history_capture_enabled: bool,
    /// Look for a newer version at the start.
    pub check_on_launch: bool,
    /// The channel to look in.
    pub channel: String,
    /// The terminal name that is announced to shells.
    pub term: String,
    pub cursor_blink: bool,
    pub crt_scanlines: bool,
    pub animations_enabled: bool,
    pub copy_on_select: bool,
}

/// The view of the preferences.
pub struct ConfigView {
    pub window: WindowConfig,
    pub view_mode: ViewMode,
    pub history_sidebar_side: PanelSide,
    pub history_capture_enabled: bool,
    pub check_on_launch: bool,
    pub channel: Seq<char>,
    pub term: Seq<char>,
    pub cursor_blink: bool,
    pub crt_scanlines: bool,
    pub animations_enabled: bool,
    pub copy_on_select: bool,
}

impl View for Config {
    type V = ConfigView;

    open spec fn view(&self) -> ConfigView {
        ConfigView {
            window: self.window,
            view_mode: self.view_mode,
            history_sidebar_side: self.history_sidebar_side,
            history_capture_enabled: self.history_capture_enabled,
            check_on_launch: self.check_on_launch,
            channel: self.channel@,
            term: self.term@,
            cursor_blink: self.cursor_blink,
            crt_scanlines: self.crt_scanlines,
            animations_enabled: self.animations_enabled,
            copy_on_select: self.copy_on_select,
        }
    }
}

/// What the user is told.
#[derive(Debug, PartialEq, Eq)]
pub struct Notices {
    /// The message of the status bar.
    pub toast: Option<String>,
    /// The last word of a newer version.
    pub last_update_notice: Option<String>,
    /// A look for a newer version is under way.
    pub update_pending: bool,
    /// The link opened last.
    pub last_opened_url: Option<String>,
}

/// The view of what the user is told.
pub struct NoticesView {
    pub toast: Option<Seq<char>>,
    pub update: Option<Seq<char>>,
    pub update_pending: bool,
    pub url: Option<Seq<char>>,
}

impl View for Notices {
    type V = NoticesView;

    open spec fn view(&self) -> NoticesView {
        NoticesView {
            toast: text::opt_text(self.toast),
            update: text::opt_text(self.last_update_notice),
            update_pending: self.update_pending,
            url: text::opt_text(self.last_opened_url),
        }
    }
}

/// The shell.
pub struct C0pl4ndApp {
    pub config: Config,
    pub panes: Panes,
    pub shells: Shells,
    pub paste: PendingPaste,
    pub palette: Palette,
    pub close: CloseState,
    pub window: WindowFlags,
    pub warmup: GlyphWarmup,
    pub notices: Notices,
    pub config_watch: ConfigWatcher,
    /// The composition in progress.
    pub ime_preedit: Option<String>,
    /// The bytes last sent to a terminal.
    pub last_forwarded: Vec<u8>,
}

/// The view of the shell.
pub struct AppView {
    pub config: ConfigView,
    pub panes: PanesView,
    pub shells: ShellsView,
    pub paste: PendingView,
    pub palette: PaletteView,
    pub close: CloseState,
    pub window: WindowFlags,
    pub warmup: WarmupView,
    pub notices: NoticesView,
    pub watch: ConfigWatcher,
    pub preedit: Option<Seq<char>>,
    pub forwarded: Seq<u8>,
}

impl View for C0pl4ndApp {
    type V = AppView;

    open spec fn view(&self) -> AppView {
        AppView {
            config: self.config@,
            panes: self.panes@,
            shells: self.shells@,
            paste: self.paste@,
            palette: self.palette@,
            close: self.close,
            window: self.window,
            warmup: self.warmup@,
            notices: self.notices@,
            watch: self.config_watch,
            preedit: text::opt_text(self.ime_preedit),
            forwarded: self.last_forwarded@,
        }
    }
}

/// What a window starts from.
pub struct Startup {
    pub config: Config,
    pub shell_profiles: Vec<ShellProfile>,
    /// Why the theme could not be used.
    pub theme_notice: Option<String>,
    /// Why the config file could not be used.
    pub config_error: Option<String>,
    pub config_watch: ConfigWatcher,
    /// The layout kept from the last session.
    pub snapshot: Option<LayoutSnapshot>,
    /// There is a place for the config file, but no file.
    pub config_missing: bool,
    pub live_window: bool,
}

/// A terminal to start.
#[derive(Debug, PartialEq, Eq)]
pub struct Spawn {
    pub pane: PaneId,
    pub plan: SpawnPlan,
}

/// The view of a terminal to start.
pub struct SpawnView {
    pub pane: PaneId,
    pub plan: PlanView,
}

impl View for Spawn {
    type V = SpawnView;

    open spec fn view(&self) -> SpawnView {
        SpawnView { pane: self.pane, plan: self.plan@ }
    }
}

/// The view of a terminal to start, if there is one.
pub open spec fn opt_spawn(s: Option<Spawn>) -> Option<SpawnView> {
    match s {
        Some(s) => Some(s@),
        None => None,
    }
}

/// What is said where there is no room for another pane.
pub open spec fn cap_text() -> Seq<char> {
    "You've reached the maximum of "@ + text::decimal(MAX_PANES as nat)
        + " panes. Close one to open another."@
}

/// What is said where there is no room for another pane.
pub fn cap_message() -> (r: String)
    ensures
        r@ == cap_text(),
{
    let mut out = "You've reached the maximum of ".to_owned();
    out.append(decimal_of(MAX_PANES as u64).as_str());
    out.append(" panes. Close one to open another.");
    out
}

/// Which way a new pane opens: beside the focused one where that is at least as
/// wide as tall, below it otherwise. A pane that was never drawn counts as wide.
pub open spec fn dir_for(wide: Option<bool>) -> SplitDir {
    if wide == Some(false) {
        SplitDir::Vertical
    } else {
        SplitDir::Horizontal
    }
}

/// Which way a new pane opens.
pub fn new_pane_dir(wide: Option<bool>) -> (r: SplitDir)
    ensures
        r == dir_for(wide),
{
    match wide {
        Some(false) => SplitDir::Vertical,
        _ => SplitDir::Horizontal,
    }
}

/// The shell after one more pane was asked for, where `tree` is what it made of
/// the tree.
pub open spec fn app_split(
    v: AppView,
    cwd: Option<Seq<char>>,
    tree: egui_tiles::Tree<u64>,
) -> AppView {
    AppView { panes: panes::after_split(v.panes, cwd, tree), notices: split_notice(v), ..v }
}

/// Asking for one more pane takes the shell from `v` to `w`.
pub open spec fn app_splits(
    v: AppView,
    dir: SplitDir,
    cwd: Option<Seq<char>>,
    w: AppView,
) -> bool {
    &&& w == app_split(v, cwd, w.panes.tree)
    &&& panes::tree_splits(v.panes, dir, w.panes.tree)
}

/// What is said after one more pane was asked for: that there is no room, and
/// nothing once it is open.
pub open spec fn split_notice(v: AppView) -> NoticesView {
    match panes::split_outcome(v.panes) {
        SplitOutcome::Full => NoticesView { toast: Some(cap_text()), ..v.notices },
        SplitOutcome::Refused => v.notices,
        SplitOutcome::Opened(_) => NoticesView { toast: None, ..v.notices },
    }
}

/// The terminal to start for the pane that was asked for.
pub open spec fn split_spawn(v: AppView, cwd: Option<Seq<char>>) -> Option<SpawnView> {
    match panes::split_outcome(v.panes) {
        SplitOutcome::Opened(pane) => Some(
            SpawnView {
                pane,
                plan: shells::shell_plan(v.shells, SPAWN_COLS, SPAWN_ROWS, v.config.term, cwd),
            },
        ),
        _ => None,
    }
}

/// The shell after the grid area was drawn with all panes: as it was drawn, or
/// as before, with a toast where there were more panes than fit.
pub open spec fn app_dragged(v: AppView, drawn: egui_tiles::Tree<u64>) -> AppView {
    AppView {
        panes: panes::after_drag(v.panes, drawn),
        notices: if tree::listed(drawn).len() > MAX_PANES {
            NoticesView { toast: Some(cap_text()), ..v.notices }
        } else {
            v.notices
        },
        ..v
    }
}

impl C0pl4ndApp {
    /// The shell at the start of a session.
    pub fn bootstrap_with(
        config: Config,
        shell_profiles: Vec<ShellProfile>,
        theme_notice: Option<String>,
        config_watch: ConfigWatcher,
    ) -> (r: C0pl4ndApp)
        ensures
            r.config == config,
            r.config_watch == config_watch,
            r.shells.shell_profiles == shell_profiles,
            r@.shells.active == 0,
            panes::first_panes(r@.panes),
            panes::valid(r@.panes),
            r@.paste == paste::nothing_waits(),
            r@.palette == palette::first_palette(),
            r@.close == close::nothing_asked(),
            r@.window == frame::first_window(),
            r@.warmup == frame::first_warmup(),
            r@.notices == (NoticesView {
                toast: text::opt_text(theme_notice),
                update: None,
                update_pending: false,
                url: None,
            }),
            r@.preedit is None,
            r@.forwarded == Seq::<u8>::empty(),
    {
        C0pl4ndApp {
            config,
            panes: Panes::new(),
            shells: Shells::new(shell_profiles),
            paste: PendingPaste::new(),
            palette: Palette::new(),
            close: CloseState::new(),
            window: WindowFlags::new(),
            warmup: GlyphWarmup::new(),
            notices: Notices {
                toast: theme_notice,
                last_update_notice: None,
                update_pending: false,
                last_opened_url: None,
            },
            config_watch,
            ime_preedit: None,
            last_forwarded: Vec::new(),
        }
    }

    /// The shell of a window that has just been opened: with the layout kept
    /// from the last session, if there is one, and with what its user must be
    /// told. The fonts of such a window are installed already.
    pub fn new(start: Startup) -> (r: C0pl4ndApp)
        ensures
            r.config == start.config,
            r.config_watch == start.config_watch,
            r.shells.shell_profiles == start.shell_profiles,
            r@.shells.active == 0,
            exists|first: PanesView| #[trigger]
                panes::first_panes(first) && r@.panes == (match start.snapshot {
                    Some(s) => layout::after_restore(first, s@),
                    None => first,
                }),
            r@.paste == paste::nothing_waits(),
            r@.palette == palette::first_palette(),
            r@.close == close::nothing_asked(),
            r@.window == (WindowFlags { live_window: start.live_window, ..frame::first_window() }),
            r@.warmup == (WarmupView { installed: true, ..frame::first_warmup() }),
            r@.notices == (NoticesView {
                toast: match (start.config_error, start.theme_notice) {
                    (Some(e), _) => Some(e@),
                    (None, Some(n)) => Some(n@),
                    (None, None) => if start.config_missing {
                        Some(frame::welcome_text())
                    } else {
                        None
                    },
                },
                update: None,
                update_pending: false,
                url: None,
            }),
            r@.preedit is None,
            r@.forwarded == Seq::<u8>::empty(),
    {
        let Startup {
            config,
            shell_profiles,
            theme_notice,
            config_error,
            config_watch,
            snapshot,
            config_missing,
            live_window,
        } = start;
        let mut app = C0pl4ndApp::bootstrap_with(config, shell_profiles, None, config_watch);
        let ghost first = app@.panes;
        app.notices.toast = startup_toast(config_error, theme_notice, config_missing);
        if let Some(s) = snapshot {
            app.panes.apply_layout_snapshot(s);
        }
        app.warmup.fonts_installed = true;
        app.window.live_window = live_window;
        assert(panes::first_panes(first));
        app
    }

    /// Take over what the settings asked for besides the preferences: to forget
    /// the history, and to turn incognito on or off.
    pub fn apply_settings(&mut self, clear_history: bool, incognito: Option<bool>)
        ensures
            final(self)@ == settings_applied(old(self)@, clear_history, incognito),
    {
        if clear_history {
            self.clear_command_history();
        }
        if let Some(on) = incognito {
            self.set_incognito(on);
        }
    }

    /// Ask for one more pane that starts in `cwd`, behind the focused one. Gives
    /// the terminal to start where the pane is open.
    pub fn split_in(&mut self, dir: SplitDir, cwd: Option<String>) -> (r: Option<Spawn>)
        requires
            old(self)@.panes.next_id < u64::MAX,
        ensures
            app_splits(old(self)@, dir, text::opt_text(cwd), final(self)@),
            opt_spawn(r) == split_spawn(old(self)@, text::opt_text(cwd)),
    {
        let start = copy_opt(&cwd);
        match self.panes.split_in(dir, cwd) {
            SplitOutcome::Full => {
                self.notices.toast = Some(cap_message());
                None
            },
            SplitOutcome::Refused => None,
            SplitOutcome::Opened(pane) => {
                let plan = self.shells.plan_spawn(
                    SPAWN_COLS,
                    SPAWN_ROWS,
                    self.config.term.as_str(),
                    &start,
                );
                self.notices.toast = None;
                Some(Spawn { pane, plan })
            },
        }
    }

    /// Ask for one more pane in the shell's own directory: beside the focused one
    /// where that is `wide`, below it otherwise.
    pub fn new_terminal(&mut self, wide: Option<bool>) -> (r: Option<Spawn>)
        requires
            old(self)@.panes.next_id < u64::MAX,
        ensures
            app_splits(old(self)@, dir_for(wide), None, final(self)@),
            opt_spawn(r) == split_spawn(old(self)@, None),
    {
        self.split_in(new_pane_dir(wide), None)
    }

    /// Open a pane with another shell, which new panes then run too. Nothing
    /// happens where there is no such shell.
    pub fn open_shell(&mut self, idx: usize, wide: Option<bool>) -> (r: Option<Spawn>)
        requires
            old(self)@.panes.next_id < u64::MAX,
        ensures
            idx < old(self)@.shells.profiles.len() ==> {
                let chosen = AppView {
                    shells: ShellsView { active: idx as int, ..old(self)@.shells },
                    ..old(self)@
                };
                &&& app_splits(chosen, dir_for(wide), None, final(self)@)
                &&& opt_spawn(r) == split_spawn(chosen, None)
            },
            idx >= old(self)@.shells.profiles.len() ==> r is None && final(self)@ == old(self)@,
    {
        if self.shells.choose_shell(idx) {
            self.new_terminal(wide)
        } else {
            None
        }
    }

    /// Open the last closed tab again, where it was.
    pub fn reopen_closed_tab(&mut self, wide: Option<bool>) -> (r: Option<Spawn>)
        requires
            old(self)@.panes.next_id < u64::MAX,
        ensures
            old(self)@.panes.closed.len() == 0 ==> r is None && final(self)@ == old(self)@,
            old(self)@.panes.closed.len() > 0 ==> {
                &&& final(self)@ == (AppView {
                    panes: panes::after_reopen(old(self)@.panes, final(self)@.panes.tree),
                    notices: split_notice(old(self)@),
                    ..old(self)@
                })
                &&& panes::tree_splits(old(self)@.panes, dir_for(wide), final(self)@.panes.tree)
                &&& opt_spawn(r) == split_spawn(old(self)@, old(self)@.panes.closed.last())
            },
    {
        let n = self.panes.closed_tab_cwds.len();
        if n == 0 {
            return None;
        }
        let dir = copy_opt(&self.panes.closed_tab_cwds[n - 1]);
        assert(old(self)@.panes.closed.last() == text::opt_text(dir));
        match self.panes.reopen_closed_tab(new_pane_dir(wide)) {
            Some(SplitOutcome::Full) => {
                self.notices.toast = Some(cap_message());
                None
            },
            Some(SplitOutcome::Opened(pane)) => {
                let plan = self.shells.plan_spawn(
                    SPAWN_COLS,
                    SPAWN_ROWS,
                    self.config.term.as_str(),
                    &dir,
                );
                self.notices.toast = None;
                Some(Spawn { pane, plan })
            },
            _ => None,
        }
    }

    /// Take over the tree as it was drawn, which the user may have rearranged,
    /// or say that there is no room. Tells whether it was taken over.
    pub fn rearranged(&mut self, drawn: egui_tiles::Tree<u64>) -> (r: bool)
        ensures
            r == panes::stands(drawn),
            final(self)@ == app_dragged(old(self)@, drawn),
    {
        if panes_in_visual_order(&drawn).len() > MAX_PANES {
            self.notices.toast = Some(cap_message());
        }
        self.panes.rearranged(drawn)
    }

    /// Lay the panes out as a uniform grid. Tells whether they were laid out anew.
    pub fn equalize_panes(&mut self) -> (r: bool)
        ensures
            r == (old(self)@.panes.order.len() > 1),
            final(self)@ == (AppView { panes: final(self)@.panes, ..old(self)@ }),
            panes::equalizes(old(self)@.panes, final(self)@.panes),
    {
        self.panes.equalize()
    }

    /// How many panes are open.
    pub fn pane_count(&self) -> (r: usize)
        ensures
            r == self@.panes.order.len(),
    {
        self.panes.order.len()
    }

    /// Whether the settings are open.
    pub fn settings_is_open(&self) -> (r: bool)
        ensures
            r == self@.window.settings_open,
    {
        self.window.settings_open
    }

    /// How the panes are shown.
    pub fn view_mode(&self) -> (r: ViewMode)
        ensures
            r == self@.config.view_mode,
    {
        self.config.view_mode
    }

    /// How many terminals run.
    pub fn term_count(&self) -> (r: usize)
        ensures
            r == self@.panes.terms.len(),
    {
        self.panes.terms.len()
    }

    /// The pane that has the focus.
    pub fn focused_pane(&self) -> (r: PaneId)
        ensures
            r == self@.panes.focused,
    {
        self.panes.focused_pane
    }

    /// Whether a tab is pinned.
    pub fn is_pinned(&self, pane: PaneId) -> (r: bool)
        ensures
            r == self@.panes.pinned.contains(pane),
    {
        self.panes.is_pinned(pane)
    }

    /// The label of a pane's tab for assistive technology.
    pub fn tab_label_for_pane(&self, pane: PaneId) -> (r: Option<String>)
        ensures
            text::opt_text(r) == (if self@.panes.order.contains(pane) {
                Some(crate::tabs::labelled(pane, panes::tab_text(self@.panes, pane)))
            } else {
                None
            }),
    {
        self.panes.tab_label_for_pane(pane)
    }

    /// The command of the caption buttons last used.
    pub fn last_window_cmd(&self) -> (r: Option<WindowCmd>)
        ensures
            r == self@.window.last_window_cmd,
    {
        self.window.last_window_cmd
    }

    /// The text on the screen of a pane.
    pub fn pane_grid_text(&self, pane: PaneId) -> (r: Option<String>)
        ensures
            text::opt_text(r) == screen_of(self@.panes, pane),
    {
        self.panes.pane_grid_text(pane)
    }

    /// The text on the screen of the focused pane.
    pub fn focused_grid_text(&self) -> (r: Option<String>)
        ensures
            text::opt_text(r) == screen_of(self@.panes, self@.panes.focused),
    {
        self.panes.pane_grid_text(self.panes.focused_pane)
    }

    /// The size of a pane's terminal, in columns and rows.
    pub fn pane_size(&self, pane: PaneId) -> (r: Option<(u16, u16)>)
        ensures
            r == (match panes::term_of(self@.panes.terms, pane) {
                Some(t) => Some(t.size),
                None => None,
            }),
    {
        self.panes.pane_size(pane)
    }

    /// The open panes that have a terminal, in order.
    pub fn pane_ids(&self) -> (r: Vec<PaneId>)
        ensures
            r@ == self@.panes.order.filter(
                |p: PaneId| panes::term_of(self@.panes.terms, p) is Some,
            ),
    {
        self.panes.pane_ids()
    }

    /// All open panes, in order.
    pub fn all_panes(&self) -> (r: Vec<PaneId>)
        ensures
            r@ == self@.panes.order,
    {
        self.panes.all_panes()
    }

    /// The shells on offer.
    pub fn shell_profiles(&self) -> (r: &Vec<ShellProfile>)
        ensures
            r@.map_values(|p: ShellProfile| p@) == self@.shells.profiles,
    {
        &self.shells.shell_profiles
    }

    /// The name of the shell new panes run.
    pub fn active_shell_label(&self) -> (r: &str)
        ensures
            r@ == shells::active_label(self@.shells),
    {
        self.shells.active_shell_label()
    }

    /// The pane shown alone.
    pub fn zoomed_pane(&self) -> (r: Option<PaneId>)
        ensures
            r == self@.panes.zoomed,
    {
        self.panes.zoomed_pane
    }

    /// What is selected: its ends, and whether it is a block.
    pub fn test_selection(&self) -> (r: Option<((usize, usize), (usize, usize), bool)>)
        ensures
            r == (match self@.panes.selection {
                Some(s) => Some((s.anchor, s.head, s.mode == SelectionMode::Block)),
                None => None,
            }),
    {
        match self.panes.selection {
            Some(s) => Some((s.anchor, s.head, s.mode == SelectionMode::Block)),
            None => None,
        }
    }

    /// The bytes last sent to a terminal.
    pub fn test_last_forwarded(&self) -> (r: &Vec<u8>)
        ensures
            r@ == self@.forwarded,
    {
        &self.last_forwarded
    }

    /// Watch another config file, whose contents with the stamp `current` were
    /// just read.
    pub fn watch_config_at(&mut self, path: String, current: Option<FileStamp>)
        ensures
            final(self)@ == (AppView { watch: final(self)@.watch, ..old(self)@ }),
            final(self)@.watch.watched() == Some(path@),
            final(self)@.watch.memory() == (crate::config_watch::WatchState {
                stamp: current,
                last_poll: None,
            }),
    {
        self.config_watch = ConfigWatcher::watching(path, current);
    }

    /// Whether a paste waits for its answer.
    pub fn has_pending_paste(&self) -> (r: bool)
        ensures
            r == (self@.paste.text is Some),
    {
        self.paste.has_pending_paste()
    }

    /// Why a paste waits.
    pub fn pending_paste_reason(&self) -> (r: Option<PasteConfirmReason>)
        ensures
            r == self@.paste.reason,
    {
        self.paste.pending_paste_reason
    }

    /// Answer yes to a waiting paste. Gives its text, to be written to the
    /// focused terminal if there is one.
    pub fn confirm_pending_paste(&mut self) -> (r: Option<String>)
        ensures
            text::opt_text(r) == old(self)@.paste.text,
            final(self)@ == (AppView {
                paste: if old(self)@.paste.text is Some {
                    paste::nothing_waits()
                } else {
                    old(self)@.paste
                },
                ..old(self)@
            }),
    {
        self.paste.confirm_pending_paste()
    }

    /// Answer no to a waiting paste.
    pub fn cancel_pending_paste(&mut self)
        ensures
            final(self)@ == (AppView { paste: paste::nothing_waits(), ..old(self)@ }),
    {
        self.paste.cancel_pending_paste();
    }

    /// The room around the grid, in points.
    pub fn config_window_padding(&self) -> (r: u16)
        ensures
            r == self@.config.window.padding,
    {
        self.config.window.padding
    }

    /// Whether the history sidebar is open.
    pub fn history_sidebar_open(&self) -> (r: bool)
        ensures
            r == self@.palette.history_open,
    {
        self.palette.history_open
    }

    /// The side of the history sidebar.
    pub fn history_sidebar_side(&self) -> (r: PanelSide)
        ensures
            r == self@.config.history_sidebar_side,
    {
        self.config.history_sidebar_side
    }

    /// Whether the palette is open.
    pub fn palette_open(&self) -> (r: bool)
        ensures
            r == self@.palette.open,
    {
        self.palette.palette_open
    }

    /// Whether the window is fullscreen.
    pub fn fullscreen(&self) -> (r: bool)
        ensures
            r == self@.window.fullscreen,
    {
        self.window.fullscreen
    }

    /// The commands that were run, the latest first.
    pub fn command_history_entries(&self) -> (r: Vec<String>)
        ensures
            text::texts(r@) == self@.palette.history,
    {
        copy_texts(&self.palette.cmd_history.cmds)
    }

    /// Forget the commands that were run.
    pub fn clear_command_history(&mut self)
        ensures
            final(self)@ == (AppView {
                palette: PaletteView { history: Seq::empty(), ..old(self)@.palette },
                ..old(self)@
            }),
    {
        self.palette.cmd_history.clear();
    }

    /// Whether the session is incognito.
    pub fn is_incognito(&self) -> (r: bool)
        ensures
            r == self@.palette.incognito,
    {
        self.palette.incognito
    }

    /// Turn incognito on or off. Turning it on forgets the history.
    pub fn set_incognito(&mut self, on: bool)
        ensures
            final(self)@ == (AppView {
                palette: PaletteView {
                    incognito: on,
                    history: if on {
                        Seq::empty()
                    } else {
                        old(self)@.palette.history
                    },
                    ..old(self)@.palette
                },
                ..old(self)@
            }),
    {
        self.palette.set_incognito(on);
    }

    /// The command last run from one of the lists.
    pub fn last_palette_run(&self) -> (r: Option<String>)
        ensures
            text::opt_text(r) == self@.palette.last_run,
    {
        copy_opt(&self.palette.last_palette_run)
    }

    /// The action last run from the palette.
    pub fn last_palette_action(&self) -> (r: Option<Action>)
        ensures
            r == self@.palette.last_action,
    {
        self.palette.last_palette_action
    }

    /// The rows of the palette. `hits` are the commands that match its query,
    /// and `scores` says how well each action matches what is asked of the
    /// actions.
    pub fn palette_results(&self, hits: &Vec<String>, scores: &Vec<Option<i32>>) -> (r: Vec<
        PaletteEntry,
    >)
        requires
            scores@.len() == ACTION_COUNT,
        ensures
            exists|rank: Seq<usize>| #[trigger]
                palette::ranking(scores@, rank) && palette::entry_views(r@)
                    == palette::palette_rows(
                    self@.palette.query,
                    text::texts(hits@),
                    palette::ranked_actions(rank),
                ),
    {
        let found = matching_actions(scores);
        palette_results(self.palette.palette_query.as_str(), hits, &found)
    }

    /// What the rows of the palette say. `labels` and `chords` are the labels
    /// and the bound chords of all actions, in their order.
    pub fn palette_row_labels(
        &self,
        rows: &Vec<PaletteEntry>,
        labels: &Vec<String>,
        chords: &Vec<Option<String>>,
    ) -> (r: Vec<String>)
        requires
            labels@.len() == ACTION_COUNT,
            chords@.len() == ACTION_COUNT,
        ensures
            text::texts(r@) == palette::entry_views(rows@).map_values(
                |e: EntryView| said_row(e, labels@, chords@),
            ),
    {
        let ghost views = palette::entry_views(rows@);
        let ghost want = views.map_values(|e: EntryView| said_row(e, labels@, chords@));
        let mut out: Vec<String> = Vec::new();
        let mut i: usize = 0;
        assert(text::texts(out@) =~= want.take(0));
        while i < rows.len()
            invariant
                i <= rows.len(),
                labels@.len() == ACTION_COUNT,
                chords@.len() == ACTION_COUNT,
                views == palette::entry_views(rows@),
                want == views.map_values(|e: EntryView| said_row(e, labels@, chords@)),
                text::texts(out@) == want.take(i as int),
            decreases rows.len() - i,
        {
            let ghost before = out@;
            let line = match &rows[i] {
                PaletteEntry::Action(a) => {
                    let at = a.position();
                    rows[i].display(labels[at].as_str(), &chords[at])
                },
                PaletteEntry::History(_) => rows[i].display("", &None),
            };
            assert(views[i as int] == rows@[i as int]@);
            assert(line@ == want[i as int]);
            out.push(line);
            assert(text::texts(out@) =~= text::texts(before).push(line@));
            i += 1;
            assert(text::texts(out@) =~= want.take(i as int));
        }
        assert(want.take(rows@.len() as int) =~= want);
        out
    }

    /// The link opened last.
    pub fn last_opened_url(&self) -> (r: Option<String>)
        ensures
            text::opt_text(r) == self@.notices.url,
    {
        copy_opt(&self.notices.last_opened_url)
    }

    /// Open the link at a cell, if there is one there.
    pub fn test_open_url_at_cell(
        &mut self,
        links: &Vec<(CellSpan, String)>,
        row: usize,
        col: usize,
    ) -> (r: Option<String>)
        ensures
            r is Some <==> exists|i: int| grid_interaction::link_at(links@, row, col, i),
            r matches Some(url) ==> {
                &&& exists|i: int| grid_interaction::link_at(links@, row, col, i) && links@[i].1@ == url@
                &&& final(self)@ == (AppView {
                    notices: NoticesView { url: Some(url@), ..old(self)@.notices },
                    ..old(self)@
                })
            },
            r is None ==> final(self)@ == old(self)@,
    {
        match link_url_at_cell(links, row, col) {
            Some(url) => {
                let url = owned(url);
                self.notices.last_opened_url = Some(url.clone());
                Some(url)
            },
            None => None,
        }
    }

    /// Whether to look for a newer version at the start, and in which channel.
    pub fn update_check_config(&self) -> (r: (bool, String))
        ensures
            r.0 == self@.config.check_on_launch,
            r.1@ == self@.config.channel,
    {
        (self.config.check_on_launch, self.config.channel.clone())
    }

    /// A look for a newer version is under way.
    pub fn attach_update_check(&mut self)
        ensures
            final(self)@ == (AppView {
                notices: NoticesView { update_pending: true, ..old(self)@.notices },
                ..old(self)@
            }),
    {
        self.notices.update_pending = true;
    }

    /// Take in what the look for a newer version has to say so far; once it has
    /// said something it is over.
    pub fn poll_update_check(&mut self, said: Option<String>)
        ensures
            final(self)@ == (AppView {
                notices: update_heard(old(self)@.notices, text::opt_text(said)),
                ..old(self)@
            }),
    {
        if self.notices.update_pending {
            if let Some(notice) = said {
                self.notices.toast = Some(notice.clone());
                self.notices.last_update_notice = Some(notice);
                self.notices.update_pending = false;
            }
        }
    }

    /// The last word of a newer version.
    pub fn last_update_notice(&self) -> (r: Option<String>)
        ensures
            text::opt_text(r) == self@.notices.update,
    {
        copy_opt(&self.notices.last_update_notice)
    }

    /// Note whether there is a tray icon.
    pub fn set_tray_available(&mut self, available: bool)
        ensures
            final(self)@ == (AppView {
                close: CloseState { tray_available: available, ..old(self)@.close },
                ..old(self)@
            }),
    {
        self.close.tray_available = available;
    }

    /// Whether there is a tray icon.
    pub fn tray_available(&self) -> (r: bool)
        ensures
            r == self@.close.tray_available,
    {
        self.close.tray_available
    }

    /// Pin the phase of the caret, or let it blink again.
    pub fn set_cursor_blink_phase(&mut self, phase: Option<CursorBlinkPhase>)
        ensures
            final(self)@ == (AppView {
                window: WindowFlags { cursor_blink_phase: phase, ..old(self)@.window },
                ..old(self)@
            }),
    {
        self.window.cursor_blink_phase = phase;
    }

    /// The pinned phase of the caret.
    pub fn cursor_blink_phase(&self) -> (r: Option<CursorBlinkPhase>)
        ensures
            r == self@.window.cursor_blink_phase,
    {
        self.window.cursor_blink_phase
    }

    /// How many panes have a command running.
    pub fn busy_pane_count(&self) -> (r: usize)
        ensures
            r as nat == panes::busy_count(self@.panes.terms),
    {
        self.panes.busy_pane_count()
    }

    /// What the last close request came to.
    pub fn last_close_outcome(&self) -> (r: Option<CloseOutcome>)
        ensures
            r == self@.close.last_close_outcome,
    {
        self.close.last_close_outcome
    }

    /// How many close requests came to an exit.
    pub fn exit_requests(&self) -> (r: u32)
        ensures
            r == self@.close.exit_requests,
    {
        self.close.exit_requests
    }

    /// The number of busy panes the close confirmation names, where it is up.
    pub fn close_confirm_busy_panes(&self) -> (r: Option<usize>)
        ensures
            r == self@.close.close_confirm,
    {
        self.close.close_confirm
    }

    /// When the next frame is drawn where nothing happens, in milliseconds.
    pub fn idle_repaint_interval(&self, reduced_motion: bool) -> (r: u64)
        ensures
            r == idle_pause(self@.config, reduced_motion),
    {
        let policy = frame_policy(
            self.config.crt_scanlines,
            self.config.animations_enabled,
            reduced_motion,
        );
        idle_repaint_interval(policy, self.config.cursor_blink)
    }

    /// The path of a picked script, as a command for the active shell.
    pub fn script_command(&self, path: &str, windows: bool) -> (r: String)
        ensures
            r@ == shells::quoted_path(path@, shells::active_label(self@.shells), windows),
    {
        quote_path_for_shell(path, self.shells.active_shell_label(), windows)
    }

    /// Decide a close request and record the decision.
    pub fn close_decision(&mut self, explicit_quit: bool) -> (r: CloseOutcome)
        ensures
            r == app_outcome(old(self)@, explicit_quit),
            final(self)@ == (AppView {
                close: close::decided(
                    old(self)@.close,
                    old(self)@.config.window,
                    busy_of(old(self)@),
                    explicit_quit,
                ),
                ..old(self)@
            }),
    {
        let busy = self.panes.busy_pane_count();
        let window = self.config.window;
        self.close.close_decision(&window, busy, explicit_quit)
    }

    /// Decide a close request and carry it out.
    pub fn handle_close_request(&mut self, explicit_quit: bool, os_close: bool) -> (r: CloseEffects)
        requires
            old(self)@.close.exit_requests < u32::MAX,
        ensures
            r == close::request_effects(app_outcome(old(self)@, explicit_quit), os_close),
            final(self)@ == close_requested(old(self)@, explicit_quit),
    {
        let busy = self.panes.busy_pane_count();
        let window = self.config.window;
        self.close.handle_close_request(&window, busy, explicit_quit, os_close)
    }

    /// Take in the close requests of a frame: one the system has accepted, and
    /// the key chord. The first of them uses up a quit that was asked for.
    pub fn close_signals(&mut self, close_requested: bool, alt_f4: bool, quit: &mut bool) -> (r: (
        Option<CloseEffects>,
        Option<CloseEffects>,
    ))
        requires
            old(self)@.close.exit_requests < u32::MAX - 1,
        ensures
            ({
                let v = old(self)@;
                let w = if close_requested {
                    self::close_requested(v, *old(quit))
                } else {
                    v
                };
                let left = *old(quit) && !close_requested;
                &&& r.0 == (if close_requested {
                    Some(close::request_effects(app_outcome(v, *old(quit)), true))
                } else {
                    None
                })
                &&& r.1 == (if alt_f4 {
                    Some(close::request_effects(app_outcome(w, left), false))
                } else {
                    None
                })
                &&& final(self)@ == (if alt_f4 {
                    self::close_requested(w, left)
                } else {
                    w
                })
                &&& *final(quit) == (left && !alt_f4)
            }),
    {
        let first = if close_requested {
            let explicit = take_explicit_quit(quit);
            Some(self.handle_close_request(explicit, true))
        } else {
            None
        };
        let second = if alt_f4 {
            let explicit = take_explicit_quit(quit);
            Some(self.handle_close_request(explicit, false))
        } else {
            None
        };
        (first, second)
    }

    /// Answer the close confirmation.
    pub fn answer_close_confirmation(&mut self, yes: bool, no: bool) -> (r: Option<CloseEffects>)
        requires
            old(self)@.close.exit_requests < u32::MAX,
        ensures
            r == (if old(self)@.close.close_confirm is Some && yes {
                Some(
                    close::request_effects(
                        close::outcome(
                            old(self)@.config.window,
                            busy_of(old(self)@),
                            true,
                            old(self)@.close.tray_available,
                            old(self)@.close.held_quit,
                        ),
                        false,
                    ),
                )
            } else {
                None
            }),
            final(self)@ == (AppView {
                close: close::answered(
                    old(self)@.close,
                    yes,
                    no,
                    old(self)@.config.window,
                    busy_of(old(self)@),
                ),
                ..old(self)@
            }),
    {
        let busy = self.panes.busy_pane_count();
        let window = self.config.window;
        self.close.answer_confirmation(yes, no, &window, busy)
    }
}

/// What a row of the palette says.
pub open spec fn said_row(
    e: EntryView,
    labels: Seq<String>,
    chords: Seq<Option<String>>,
) -> Seq<char> {
    match e {
        EntryView::Action(a) => actions::row_text(
            e,
            labels[actions::place_of(a)]@,
            text::opt_text(chords[actions::place_of(a)]),
        ),
        EntryView::History(cmd) => cmd,
    }
}

/// How many panes have a command running.
pub open spec fn busy_of(v: AppView) -> usize {
    panes::busy_count(v.panes.terms) as usize
}

/// What a close request comes to.
pub open spec fn app_outcome(v: AppView, explicit_quit: bool) -> CloseOutcome {
    close::outcome(
        v.config.window,
        busy_of(v),
        v.close.close_confirmed,
        v.close.tray_available,
        explicit_quit,
    )
}

/// The shell after a close request was carried out.
pub open spec fn close_requested(v: AppView, explicit_quit: bool) -> AppView {
    AppView {
        close: close::after_request(v.close, v.config.window, busy_of(v), explicit_quit),
        ..v
    }
}

/// The text on the screen of a pane.
pub open spec fn screen_of(v: PanesView, pane: PaneId) -> Option<Seq<char>> {
    match panes::term_of(v.terms, pane) {
        Some(t) => t.grid_text,
        None => None,
    }
}

/// Without room for another pane the user is told that six is the most.
pub proof fn the_limit_is_named()
    ensures
        cap_text() == "You've reached the maximum of "@ + seq!['6']
            + " panes. Close one to open another."@,
{
    reveal_with_fuel(text::decimal, 2);
    assert(text::decimal(6) =~= seq!['6']);
}

/// A new pane opens beside one that is at least as wide as tall or was never
/// drawn, and below any other.
pub proof fn new_panes_open_along_the_longer_side()
    ensures
        dir_for(Some(true)) == SplitDir::Horizontal,
        dir_for(None) == SplitDir::Horizontal,
        dir_for(Some(false)) == SplitDir::Vertical,
{
}

/// Asking for a pane: one that opens takes the message away and is to be started
/// with the chosen shell, at eighty columns and twenty-four rows, in the
/// directory asked for; without room the user is told; a refusal says nothing.
pub proof fn asking_for_a_pane_is_answered(v: AppView, cwd: Option<Seq<char>>)
    ensures
        panes::split_outcome(v.panes) is Full ==> split_notice(v) == (NoticesView {
            toast: Some(cap_text()),
            ..v.notices
        }) && split_spawn(v, cwd) is None,
        panes::split_outcome(v.panes) is Refused ==> split_notice(v) == v.notices && split_spawn(
            v,
            cwd,
        ) is None,
        panes::split_outcome(v.panes) matches SplitOutcome::Opened(p) ==> split_notice(v) == (
        NoticesView { toast: None, ..v.notices }) && (split_spawn(v, cwd) matches Some(s) && s.pane
            == p && s.plan == shells::shell_plan(v.shells, 80, 24, v.config.term, cwd)),
{
}

/// Asking for a pane changes the panes and the message alone, and splits the tile
/// of the focused pane the way that was asked for.
pub proof fn asking_for_a_pane_touches_nothing_else(
    v: AppView,
    dir: SplitDir,
    cwd: Option<Seq<char>>,
    w: AppView,
)
    requires
        app_splits(v, dir, cwd, w),
    ensures
        w == (AppView { panes: w.panes, notices: w.notices, ..v }),
        w.notices == split_notice(v),
        w.panes == panes::after_split(v.panes, cwd, w.panes.tree),
        panes::split_outcome(v.panes) matches SplitOutcome::Opened(new) ==> tree::splits_tile(
            v.panes.tree,
            w.panes.tree,
            v.panes.focused,
            new,
            dir,
        ),
{
}

/// A tree that was drawn with more than six panes is turned down, and the user is
/// told why; any other is taken over without a word.
pub proof fn a_full_tree_is_turned_down(v: AppView, drawn: egui_tiles::Tree<u64>)
    ensures
        tree::listed(drawn).len() > 6 ==> app_dragged(v, drawn).panes == v.panes && app_dragged(
            v,
            drawn,
        ).notices.toast == Some(cap_text()),
        1 <= tree::listed(drawn).len() <= 6 ==> app_dragged(v, drawn).panes.tree == drawn
            && app_dragged(v, drawn).notices == v.notices,
        tree::listed(drawn).len() == 0 ==> app_dragged(v, drawn) == v,
        app_dragged(v, drawn) == (AppView {
            panes: app_dragged(v, drawn).panes,
            notices: app_dragged(v, drawn).notices,
            ..v
        }),
{
}

/// A row of the palette says the label and the chord of its own action; a command
/// stands for itself.
pub proof fn rows_say_their_own_label(
    a: Action,
    cmd: Seq<char>,
    labels: Seq<String>,
    chords: Seq<Option<String>>,
    i: int,
)
    requires
        0 <= i < 20,
        actions::all_actions()[i] == a,
    ensures
        chords[i] is None ==> said_row(EntryView::Action(a), labels, chords) == labels[i]@,
        chords[i] matches Some(c) ==> said_row(EntryView::Action(a), labels, chords) == labels[i]@
            + seq![' ', ' ', ' ', '('] + c@ + seq![')'],
        said_row(EntryView::History(cmd), labels, chords) == cmd,
{
    actions::the_actions_come_in_their_order();
    actions::the_action_list_is_complete();
    assert(actions::place_of(a) == i);
    if let Some(c) = chords[i] {
        actions::rows_say_what_they_run(a, labels[i]@, c@, cmd);
    }
}

/// The text on the screen of a pane is that of its terminal; a pane without one
/// shows none.
pub proof fn a_pane_shows_its_own_screen(v: PanesView, pane: PaneId)
    ensures
        panes::term_of(v.terms, pane) is None ==> screen_of(v, pane) is None,
        panes::term_of(v.terms, pane) matches Some(t) ==> screen_of(v, pane) == t.grid_text,
{
}

/// A close request is decided by the window's preferences, the panes that are
/// busy, whether the user has said yes and whether there is a tray icon; and
/// changes nothing but where closing stands.
pub proof fn a_close_request_looks_at_the_panes(v: AppView, quit: bool)
    requires
        panes::busy_count(v.panes.terms) <= usize::MAX,
        v.close.exit_requests < u32::MAX,
    ensures
        v.config.window.warn_on_close_running && panes::busy_count(v.panes.terms) > 0
            && !v.close.close_confirmed ==> app_outcome(v, quit) == (CloseOutcome::Confirm {
            busy_panes: panes::busy_count(v.panes.terms) as usize,
        }),
        panes::busy_count(v.panes.terms) == 0 && (quit || !v.config.window.close_to_tray
            || !v.close.tray_available) ==> app_outcome(v, quit) == CloseOutcome::Exit,
        panes::busy_count(v.panes.terms) == 0 && !quit && v.config.window.close_to_tray
            && v.close.tray_available ==> app_outcome(v, quit) == CloseOutcome::HideToTray,
        close_requested(v, quit) == (AppView { close: close_requested(v, quit).close, ..v }),
        close_requested(v, quit).close.last_close_outcome == Some(app_outcome(v, quit)),
{
}

/// The shell after the settings asked to forget the history or to turn incognito
/// on or off.
pub open spec fn settings_applied(
    v: AppView,
    clear_history: bool,
    incognito: Option<bool>,
) -> AppView {
    AppView {
        palette: PaletteView {
            incognito: match incognito {
                Some(on) => on,
                None => v.palette.incognito,
            },
            history: if clear_history || incognito == Some(true) {
                Seq::empty()
            } else {
                v.palette.history
            },
            ..v.palette
        },
        ..v
    }
}

/// What the user is told once the look for a newer version had something to say.
pub open spec fn update_heard(n: NoticesView, said: Option<Seq<char>>) -> NoticesView {
    match said {
        Some(notice) => if n.update_pending {
            NoticesView {
                toast: Some(notice),
                update: Some(notice),
                update_pending: false,
                ..n
            }
        } else {
            n
        },
        None => n,
    }
}

/// When the next frame is drawn where nothing happens, in milliseconds.
pub open spec fn idle_pause(c: ConfigView, reduced_motion: bool) -> u64 {
    if c.crt_scanlines && c.animations_enabled && !reduced_motion {
        0
    } else if c.cursor_blink {
        530
    } else {
        1000
    }
}

/// The settings forget the history where they are asked to, and where they turn
/// incognito on; what they are not asked for stays.
pub proof fn the_settings_do_as_asked(v: AppView, clear: bool, incognito: Option<bool>)
    ensures
        settings_applied(v, false, None) == v,
        settings_applied(v, true, incognito).palette.history.len() == 0,
        settings_applied(v, clear, Some(true)).palette.history.len() == 0 && settings_applied(
            v,
            clear,
            Some(true),
        ).palette.incognito,
        !settings_applied(v, clear, Some(false)).palette.incognito,
        settings_applied(v, false, Some(false)).palette.history == v.palette.history,
        settings_applied(v, clear, None).palette.incognito == v.palette.incognito,
        settings_applied(v, clear, incognito) == (AppView {
            palette: settings_applied(v, clear, incognito).palette,
            ..v
        }),
{
}

/// What a look for a newer version says is shown and remembered once, while it is
/// under way, and ends it; a word from no look under way is not heard.
pub proof fn a_newer_version_is_told_of_once(n: NoticesView, notice: Seq<char>, again: Seq<char>)
    ensures
        update_heard(n, None) == n,
        !n.update_pending ==> update_heard(n, Some(notice)) == n,
        n.update_pending ==> {
            let m = update_heard(n, Some(notice));
            &&& m.toast == Some(notice) && m.update == Some(notice) && !m.update_pending
            &&& m.url == n.url
            &&& update_heard(m, Some(again)) == m
        },
{
}

/// An idle window draws all the time while the scan lines move, every half blink
/// for a blinking caret, and else once a second.
pub proof fn an_idle_window_draws_when_something_moves(c: ConfigView, reduced_motion: bool)
    ensures
        c.crt_scanlines && c.animations_enabled && !reduced_motion ==> idle_pause(
            c,
            reduced_motion,
        ) == 0,
        (!c.crt_scanlines || !c.animations_enabled || reduced_motion) && c.cursor_blink
            ==> idle_pause(c, reduced_motion) == 530,
        (!c.crt_scanlines || !c.animations_enabled || reduced_motion) && !c.cursor_blink
            ==> idle_pause(c, reduced_motion) == 1000,
{
}

/// A shell that is there is chosen, and a pane asked for it; one that is not
/// changes nothing.
pub proof fn an_opened_shell_is_the_chosen_one(
    app: &mut C0pl4ndApp,
    idx: usize,
    wide: Option<bool>,
    r: Option<Spawn>,
)
    requires
        call_ensures(C0pl4ndApp::open_shell, (app, idx, wide), r),
    ensures
        idx >= old(app)@.shells.profiles.len() ==> r is None && final(app)@ == old(app)@,
        idx < old(app)@.shells.profiles.len() ==> final(app)@.shells.active == idx
            && final(app)@.shells.profiles == old(app)@.shells.profiles,
{
}

/// The tab that was closed last is opened again in its directory; with none,
/// nothing changes.
pub proof fn the_last_closed_tab_is_reopened(
    app: &mut C0pl4ndApp,
    wide: Option<bool>,
    r: Option<Spawn>,
)
    requires
        call_ensures(C0pl4ndApp::reopen_closed_tab, (app, wide), r),
    ensures
        old(app)@.panes.closed.len() == 0 ==> r is None && final(app)@ == old(app)@,
        old(app)@.panes.closed.len() > 0 ==> opt_spawn(r) == split_spawn(
            old(app)@,
            old(app)@.panes.closed.last(),
        ),
        final(app)@.shells == old(app)@.shells && final(app)@.config == old(app)@.config
            && final(app)@.palette == old(app)@.palette && final(app)@.window == old(app)@.window,
{
}

/// A confirmed paste is handed over and waits no more.
pub proof fn a_confirmed_paste_waits_no_more(app: &mut C0pl4ndApp, r: Option<String>)
    requires
        call_ensures(C0pl4ndApp::confirm_pending_paste, (app,), r),
    ensures
        text::opt_text(r) == old(app)@.paste.text,
        final(app)@.paste.text is None,
        r is Some ==> final(app)@.paste.reason is None,
        r is None ==> final(app)@ == old(app)@,
        final(app)@ == (AppView { paste: final(app)@.paste, ..old(app)@ }),
{
}

/// Incognito forgets the history when it is turned on, and keeps it when it is
/// turned off.
pub proof fn incognito_is_turned_on_and_off(app: &mut C0pl4ndApp, on: bool)
    requires
        call_ensures(C0pl4ndApp::set_incognito, (app, on), ()),
    ensures
        final(app)@.palette.incognito == on,
        on ==> final(app)@.palette.history.len() == 0,
        !on ==> final(app)@.palette.history == old(app)@.palette.history,
        final(app)@ == (AppView {
            palette: PaletteView {
                incognito: on,
                history: final(app)@.palette.history,
                ..old(app)@.palette
            },
            ..old(app)@
        }),
{
}

/// A look for a newer version is under way once it is attached.
pub proof fn a_look_for_an_update_is_under_way(app: &mut C0pl4ndApp)
    requires
        call_ensures(C0pl4ndApp::attach_update_check, (app,), ()),
    ensures
        final(app)@.notices.update_pending,
        final(app)@.notices.toast == old(app)@.notices.toast,
        final(app)@.notices.update == old(app)@.notices.update,
        final(app)@.notices.url == old(app)@.notices.url,
        final(app)@ == (AppView { notices: final(app)@.notices, ..old(app)@ }),
{
}

/// The look for a newer version is set up as the config says.
pub proof fn the_look_for_an_update_follows_the_config(app: &C0pl4ndApp, r: (bool, String))
    requires
        call_ensures(C0pl4ndApp::update_check_config, (app,), r),
    ensures
        r.0 == app@.config.check_on_launch,
        r.1@ == app@.config.channel,
{
}

/// Each signal to close is answered by its own effects, the system's first; a quit
/// that was asked for is used up by the first of them.
pub proof fn a_quit_is_used_up_by_one_signal(
    app: &mut C0pl4ndApp,
    close_requested: bool,
    alt_f4: bool,
    quit: &mut bool,
    r: (Option<CloseEffects>, Option<CloseEffects>),
)
    requires
        call_ensures(C0pl4ndApp::close_signals, (app, close_requested, alt_f4, quit), r),
    ensures
        r.0 is Some <==> close_requested,
        r.1 is Some <==> alt_f4,
        close_requested || alt_f4 ==> !*final(quit),
        !close_requested && !alt_f4 ==> *final(quit) == *old(quit) && final(app)@ == old(app)@,
        r.1 matches Some(e) ==> !e.cancel_close,
        r.0 matches Some(e) ==> e.cancel_close == !e.shut_down,
        *old(quit) && busy_of(old(app)@) == 0 ==> (r.0 matches Some(e) ==> e.shut_down),
        *old(quit) && busy_of(old(app)@) == 0 && !close_requested ==> (r.1 matches Some(e)
            ==> e.shut_down),
{
}

/// Saying yes to the question closes as it was asked to; nothing else does.
pub proof fn the_question_is_answered_by_yes(
    app: &mut C0pl4ndApp,
    yes: bool,
    no: bool,
    r: Option<CloseEffects>,
)
    requires
        call_ensures(C0pl4ndApp::answer_close_confirmation, (app, yes, no), r),
    ensures
        r is Some <==> yes && old(app)@.close.close_confirm is Some,
        r matches Some(e) ==> !e.cancel_close && e.shut_down == !e.hide,
        r matches Some(e) ==> (e.hide <==> old(app)@.config.window.close_to_tray && old(
            app,
        )@.close.tray_available && !old(app)@.close.held_quit),
        final(app)@ == (AppView { close: final(app)@.close, ..old(app)@ }),
{
}

/// The selection is told by where it starts and ends, and whether it is a block.
pub proof fn the_selection_is_told(
    app: &C0pl4ndApp,
    r: Option<((usize, usize), (usize, usize), bool)>,
)
    requires
        call_ensures(C0pl4ndApp::test_selection, (app,), r),
    ensures
        r is Some <==> app@.panes.selection is Some,
        app@.panes.selection matches Some(s) ==> (r matches Some(t) && t.0 == s.anchor && t.1
            == s.head && (t.2 <==> s.mode == SelectionMode::Block)),
{
}

} // verus!
