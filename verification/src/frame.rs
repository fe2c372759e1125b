//! What one frame decides about the window: the caret and the pace of frames,
//! the start of a session, fullscreen, focus, fonts and who gets the keys.

use crate::close::WindowCmd;
use crate::text;
use crate::text::same_text;
use vstd::prelude::*;

verus! {

/// A caret phase pinned for capture.
#[derive(Clone, Copy, Debug, PartialEq, Eq, Structural)]
pub enum CursorBlinkPhase {
    /// The caret is painted.
    On,
    /// The caret is not painted.
    Off,
}

/// Half a blink of the caret, in milliseconds.
pub const CURSOR_BLINK_HALF_PERIOD_MS: u64 = 530;

/// Whether the caret is painted at `time_ms`: a pinned phase decides alone;
/// else a blinking caret of the focused pane is painted in the first half of
/// each period, and any other caret always.
pub fn cursor_blink_on(
    forced: Option<CursorBlinkPhase>,
    blink: bool,
    focused: bool,
    time_ms: u64,
) -> (r: bool)
    ensures
        r == (match forced {
            Some(p) => p == CursorBlinkPhase::On,
            None => !blink || !focused || time_ms % 1060 < 530,
        }),
{
    match forced {
        Some(p) => p == CursorBlinkPhase::On,
        None => {
            if !(blink && focused) {
                return true;
            }
            time_ms % (2 * CURSOR_BLINK_HALF_PERIOD_MS) < CURSOR_BLINK_HALF_PERIOD_MS
        },
    }
}

/// When the next frame is drawn.
#[derive(Clone, Copy, Debug, PartialEq, Eq, Structural)]
pub enum FramePolicy {
    /// At every refresh of the display.
    Continuous,
    /// When something changed.
    OnDamage,
}

/// The frame policy: continuous only while the scan lines actually move.
pub fn frame_policy(scanlines: bool, animations: bool, reduced_motion: bool) -> (r: FramePolicy)
    ensures
        r == FramePolicy::Continuous <==> scanlines && animations && !reduced_motion,
{
    if scanlines && animations && !reduced_motion {
        FramePolicy::Continuous
    } else {
        FramePolicy::OnDamage
    }
}

/// The longest an idle window waits before it repaints, in milliseconds: not
/// at all while an animation runs, half a blink for a blinking caret, else one
/// second.
pub fn idle_repaint_interval(policy: FramePolicy, cursor_blinks: bool) -> (r: u64)
    ensures
        r == (if policy == FramePolicy::Continuous {
            0
        } else if cursor_blinks {
            CURSOR_BLINK_HALF_PERIOD_MS
        } else {
            1000
        }),
{
    if policy == FramePolicy::Continuous {
        0
    } else if cursor_blinks {
        CURSOR_BLINK_HALF_PERIOD_MS
    } else {
        1000
    }
}

/// The frames the grid stays empty after its glyphs were prepared.
pub const ATLAS_WARMUP_GATE_FRAMES: u8 = 2;

/// The most frames the grid waits for a font that is still loading.
pub const FONT_WAIT_GATE_CAP: u32 = 240;

/// How long a changed font size waits before it is saved, in milliseconds.
pub const FONT_SAVE_DEBOUNCE_MS: u64 = 600;

/// What the prepared glyphs depend on: the fonts, the size and the scale, the
/// last two by their bits.
#[derive(Debug, PartialEq, Eq)]
pub struct AtlasKey {
    pub family: String,
    pub size_bits: u32,
    pub scale_bits: u32,
}

/// The view of what the prepared glyphs depend on.
pub struct AtlasView {
    pub family: Seq<char>,
    pub size_bits: u32,
    pub scale_bits: u32,
}

impl View for AtlasKey {
    type V = AtlasView;

    open spec fn view(&self) -> AtlasView {
        AtlasView { family: self.family@, size_bits: self.size_bits, scale_bits: self.scale_bits }
    }
}

impl AtlasKey {
    /// Whether two keys are the same.
    pub fn same(&self, other: &AtlasKey) -> (r: bool)
        ensures
            r == (self@ == other@),
    {
        same_text(self.family.as_str(), other.family.as_str()) && self.size_bits == other.size_bits
            && self.scale_bits == other.scale_bits
    }
}

/// The glyphs and fonts of the grid.
#[derive(Debug, PartialEq, Eq)]
pub struct GlyphWarmup {
    /// What the glyphs were last prepared for.
    pub warmed_atlas: Option<AtlasKey>,
    /// The frames the grid still stays empty.
    pub warmup_frames_left: u8,
    /// The frames waited for a font so far.
    pub font_wait_frames: u32,
    /// When a changed font size is saved.
    pub pending_font_save_at: Option<u64>,
    /// The fonts are installed.
    pub fonts_installed: bool,
}

/// The view of the glyphs and fonts.
pub struct WarmupView {
    pub warmed: Option<AtlasView>,
    pub left: u8,
    pub waited: u32,
    pub save_at: Option<u64>,
    pub installed: bool,
}

impl View for GlyphWarmup {
    type V = WarmupView;

    open spec fn view(&self) -> WarmupView {
        WarmupView {
            warmed: match self.warmed_atlas {
                Some(k) => Some(k@),
                None => None,
            },
            left: self.warmup_frames_left,
            waited: self.font_wait_frames,
            save_at: self.pending_font_save_at,
            installed: self.fonts_installed,
        }
    }
}

/// The warm-up at the start: nothing was prepared.
pub open spec fn first_warmup() -> WarmupView {
    WarmupView { warmed: None, left: 0, waited: 0, save_at: None, installed: false }
}

/// The warm-up after the glyphs for `key` were asked for: another key prepares
/// them anew, and in a live window the grid then stays empty for a moment.
pub open spec fn prepared(v: WarmupView, key: AtlasView, live: bool) -> WarmupView {
    if v.warmed == Some(key) {
        v
    } else {
        WarmupView {
            warmed: Some(key),
            left: if live {
                ATLAS_WARMUP_GATE_FRAMES
            } else {
                v.left
            },
            ..v
        }
    }
}

/// The warm-up after a frame in which a font was or was not still loading.
pub open spec fn waited(v: WarmupView, live: bool, loading: bool) -> WarmupView {
    if !(live && loading) {
        v
    } else {
        let n: u32 = if v.waited == u32::MAX {
            u32::MAX
        } else {
            (v.waited + 1) as u32
        };
        WarmupView {
            waited: n,
            left: if n < FONT_WAIT_GATE_CAP && v.left == 0 {
                1
            } else {
                v.left
            },
            ..v
        }
    }
}

impl GlyphWarmup {
    /// The warm-up at the start.
    pub fn new() -> (r: GlyphWarmup)
        ensures
            r@ == first_warmup(),
    {
        GlyphWarmup {
            warmed_atlas: None,
            warmup_frames_left: 0,
            font_wait_frames: 0,
            pending_font_save_at: None,
            fonts_installed: false,
        }
    }

    /// Install the fonts if they are not. Tells whether to install them.
    pub fn install_fonts(&mut self) -> (r: bool)
        ensures
            r == !old(self)@.installed,
            final(self)@ == (WarmupView { installed: true, ..old(self)@ }),
    {
        let first = !self.fonts_installed;
        self.fonts_installed = true;
        first
    }

    /// Ask for the glyphs for `key`. Tells whether they must be prepared.
    pub fn check_atlas(&mut self, key: AtlasKey, live: bool) -> (r: bool)
        ensures
            r == (old(self)@.warmed != Some(key@)),
            final(self)@ == prepared(old(self)@, key@, live),
    {
        if let Some(k) = &self.warmed_atlas {
            if k.same(&key) {
                return false;
            }
        }
        self.warmed_atlas = Some(key);
        if live {
            self.warmup_frames_left = ATLAS_WARMUP_GATE_FRAMES;
        }
        true
    }

    /// Count a frame in which a font may still be loading. Tells whether the
    /// grid waits for it.
    pub fn wait_for_fonts(&mut self, live: bool, loading: bool) -> (r: bool)
        ensures
            final(self)@ == waited(old(self)@, live, loading),
            r == (live && loading && final(self)@.waited < FONT_WAIT_GATE_CAP),
    {
        if !(live && loading) {
            return false;
        }
        if self.font_wait_frames < u32::MAX {
            self.font_wait_frames = self.font_wait_frames + 1;
        }
        if self.font_wait_frames < FONT_WAIT_GATE_CAP {
            if self.warmup_frames_left == 0 {
                self.warmup_frames_left = 1;
            }
            true
        } else {
            false
        }
    }

    /// The loaded font is in: the glyphs must be prepared for it.
    pub fn fonts_arrived(&mut self)
        ensures
            final(self)@ == (WarmupView { warmed: None, ..old(self)@ }),
    {
        self.warmed_atlas = None;
    }

    /// Whether the grid stays empty in this frame.
    pub fn warming(&self) -> (r: bool)
        ensures
            r == (self@.left > 0),
    {
        self.warmup_frames_left > 0
    }

    /// A frame is over. Tells whether another one must follow at once.
    pub fn end_frame(&mut self) -> (r: bool)
        ensures
            r == (old(self)@.left > 0),
            final(self)@ == (WarmupView {
                left: if old(self)@.left > 0 {
                    (old(self)@.left - 1) as u8
                } else {
                    0
                },
                ..old(self)@
            }),
    {
        if self.warmup_frames_left > 0 {
            self.warmup_frames_left = self.warmup_frames_left - 1;
            true
        } else {
            false
        }
    }

    /// The font size changed at `now`: it is saved once it has not changed for
    /// a while.
    pub fn schedule_font_save(&mut self, now: u64)
        requires
            now <= u64::MAX - FONT_SAVE_DEBOUNCE_MS,
        ensures
            final(self)@ == (WarmupView {
                save_at: Some((now + FONT_SAVE_DEBOUNCE_MS) as u64),
                ..old(self)@
            }),
    {
        self.pending_font_save_at = Some(now + FONT_SAVE_DEBOUNCE_MS);
    }

    /// Whether the font size is to be saved now.
    pub fn font_save_due(&mut self, now: u64) -> (r: bool)
        ensures
            r == (old(self)@.save_at matches Some(at) && now >= at),
            final(self)@ == (WarmupView {
                save_at: if r {
                    None
                } else {
                    old(self)@.save_at
                },
                ..old(self)@
            }),
    {
        match self.pending_font_save_at {
            Some(at) => {
                if now >= at {
                    self.pending_font_save_at = None;
                    true
                } else {
                    false
                }
            },
            None => false,
        }
    }
}

/// The warm-up after a frame was prepared: fonts are installed, the glyphs are
/// prepared, a font may be waited for, and a settled font size is saved.
pub open spec fn frame_ready(
    v: WarmupView,
    key: AtlasView,
    live: bool,
    loading: bool,
    now: u64,
) -> WarmupView {
    let w = waited(prepared(WarmupView { installed: true, ..v }, key, live), live, loading);
    WarmupView {
        save_at: match w.save_at {
            Some(at) => if now >= at {
                None
            } else {
                Some(at)
            },
            None => None,
        },
        ..w
    }
}

/// What preparing the fonts and glyphs of a frame leaves to do.
#[derive(Clone, Copy, Debug, PartialEq, Eq, Structural)]
pub struct FontsReady {
    /// Install the fonts.
    pub install_fonts: bool,
    /// Prepare the glyphs of the grid.
    pub prepare_glyphs: bool,
    /// The grid waits for a font, so another frame must follow.
    pub wait: bool,
    /// Save the changed font size.
    pub save_font_size: bool,
}

impl GlyphWarmup {
    /// Prepare the fonts and glyphs of a frame.
    pub fn prepare(&mut self, key: AtlasKey, live: bool, loading: bool, now: u64) -> (r: FontsReady)
        ensures
            final(self)@ == frame_ready(old(self)@, key@, live, loading, now),
            r.install_fonts == !old(self)@.installed,
            r.prepare_glyphs == (old(self)@.warmed != Some(key@)),
            r.wait == (live && loading && final(self)@.waited < FONT_WAIT_GATE_CAP),
            r.save_font_size == (old(self)@.save_at matches Some(at) && now >= at),
    {
        let install_fonts = self.install_fonts();
        let prepare_glyphs = self.check_atlas(key, live);
        let wait = self.wait_for_fonts(live, loading);
        let save_font_size = self.font_save_due(now);
        FontsReady { install_fonts, prepare_glyphs, wait, save_font_size }
    }
}

/// The warm-up after `n` frames in each of which a font is still loading.
pub open spec fn waited_frames(v: WarmupView, n: nat) -> WarmupView
    decreases n,
{
    if n == 0 {
        v
    } else {
        let w = waited(waited_frames(v, (n - 1) as nat), true, true);
        WarmupView {
            left: if w.left > 0 {
                (w.left - 1) as u8
            } else {
                0
            },
            ..w
        }
    }
}

/// The frames the grid still stays empty, seen within the frame after `n` such
/// frames.
pub open spec fn left_within(v: WarmupView, n: nat) -> u8 {
    waited(waited_frames(v, n), true, true).left
}

/// A font that never arrives does not hide the grid for ever: once as many
/// frames as the warm-up allows have gone by, every frame shows the grid.
pub proof fn a_missing_font_cannot_hide_the_grid(v: WarmupView, n: nat)
    requires
        v.waited == 0,
        v.left <= ATLAS_WARMUP_GATE_FRAMES,
        n + 1 >= FONT_WAIT_GATE_CAP,
        n < u32::MAX,
    ensures
        left_within(v, n) == 0,
{
    lemma_waited_frames(v, n);
}

/// Until then the grid waits for the font.
pub proof fn the_grid_waits_for_its_font(v: WarmupView, n: nat)
    requires
        v.waited == 0,
        v.left <= ATLAS_WARMUP_GATE_FRAMES,
        n + 1 < FONT_WAIT_GATE_CAP,
    ensures
        left_within(v, n) > 0,
{
    lemma_waited_frames(v, n);
}

/// How far the wait has come after `n` frames.
proof fn lemma_waited_frames(v: WarmupView, n: nat)
    requires
        v.waited == 0,
        v.left <= ATLAS_WARMUP_GATE_FRAMES,
        n <= u32::MAX,
    ensures
        waited_frames(v, n).waited == n,
        waited_frames(v, n).left <= ATLAS_WARMUP_GATE_FRAMES,
        n >= 2 ==> waited_frames(v, n).left == 0,
    decreases n,
{
    reveal_with_fuel(waited_frames, 3);
    if n > 0 {
        lemma_waited_frames(v, (n - 1) as nat);
        if n == 2 {
            lemma_waited_frames(v, 1);
        }
    }
}

/// The lines a terminal keeps, within what is allowed.
pub fn clamp_scrollback(lines: usize) -> (r: usize)
    ensures
        r == (if lines < 100 {
            100
        } else if lines > 1_000_000 {
            1_000_000
        } else {
            lines
        }),
{
    if lines < 100 {
        100
    } else if lines > 1_000_000 {
        1_000_000
    } else {
        lines
    }
}

/// Whether the size of the window is remembered as the one to restore: it is
/// not maximized, and is not too small to be meant. Sizes are whole points.
pub fn keeps_restore_size(maximized: bool, width: u32, height: u32) -> (r: bool)
    ensures
        r == (!maximized && width >= 400 && height >= 300),
{
    !maximized && width >= 400 && height >= 300
}

/// The flags of the window.
#[derive(Clone, Copy, Debug, PartialEq, Eq)]
pub struct WindowFlags {
    /// A real window is on screen.
    pub live_window: bool,
    pub fullscreen: bool,
    /// The window had the focus when last seen.
    pub was_focused: bool,
    pub settings_open: bool,
    /// The settings were open in the last frame.
    pub settings_was_open: bool,
    /// The settings are to be placed when next drawn.
    pub settings_place_pending: bool,
    pub search_open: bool,
    /// The window was brought to the front once.
    pub foreground_done: bool,
    /// When the first frame was drawn.
    pub first_frame_time: Option<u64>,
    pub cursor_blink_phase: Option<CursorBlinkPhase>,
    pub last_window_cmd: Option<WindowCmd>,
}

/// Who gets the keys of a frame.
#[derive(Clone, Copy, Debug, PartialEq, Eq, Structural)]
pub enum KeyRoute {
    /// Nobody: a paste waits for its answer.
    Paste,
    /// The command palette.
    Palette,
    /// The search bar.
    Search,
    /// The focused terminal.
    Terminal,
}

/// Who gets the keys: a waiting paste keeps them from everyone, then the
/// palette, then the search bar, and else the terminal.
pub fn key_route(paste_waits: bool, palette_open: bool, search_open: bool) -> (r: KeyRoute)
    ensures
        r == (if paste_waits {
            KeyRoute::Paste
        } else if palette_open {
            KeyRoute::Palette
        } else if search_open {
            KeyRoute::Search
        } else {
            KeyRoute::Terminal
        }),
{
    if paste_waits {
        KeyRoute::Paste
    } else if palette_open {
        KeyRoute::Palette
    } else if search_open {
        KeyRoute::Search
    } else {
        KeyRoute::Terminal
    }
}

/// What the search bar does with its keys.
#[derive(Clone, Copy, Debug, PartialEq, Eq, Structural)]
pub struct SearchStep {
    /// Go to the next match.
    pub forward: bool,
    /// Go to the match before.
    pub backward: bool,
    /// Look for matches again.
    pub recompute: bool,
}

/// The window before its first frame.
pub open spec fn first_window() -> WindowFlags {
    WindowFlags {
        live_window: false,
        fullscreen: false,
        was_focused: true,
        settings_open: false,
        settings_was_open: false,
        settings_place_pending: false,
        search_open: false,
        foreground_done: false,
        first_frame_time: None,
        cursor_blink_phase: None,
        last_window_cmd: None,
    }
}

impl WindowFlags {
    /// The window before its first frame.
    pub fn new() -> (r: WindowFlags)
        ensures
            r == first_window(),
    {
        WindowFlags {
            live_window: false,
            fullscreen: false,
            was_focused: true,
            settings_open: false,
            settings_was_open: false,
            settings_place_pending: false,
            search_open: false,
            foreground_done: false,
            first_frame_time: None,
            cursor_blink_phase: None,
            last_window_cmd: None,
        }
    }

    /// Note when the first frame was drawn.
    pub fn note_first_frame(&mut self, now: u64)
        ensures
            *final(self) == first_frame_noted(*old(self), now),
    {
        if self.first_frame_time.is_none() {
            self.first_frame_time = Some(now);
        }
    }

    /// Whether to bring the window to the front: once, when it is live.
    pub fn raise_window(&mut self) -> (r: bool)
        ensures
            r == (old(self).live_window && !old(self).foreground_done),
            *final(self) == raised(*old(self)),
    {
        if self.live_window && !self.foreground_done {
            self.foreground_done = true;
            true
        } else {
            false
        }
    }

    /// Enter or leave fullscreen.
    pub fn set_fullscreen(&mut self, want: bool)
        ensures
            *final(self) == (WindowFlags { fullscreen: want, ..*old(self) }),
    {
        self.fullscreen = want;
    }

    /// The fullscreen the toggle asks for, from what the system reports.
    pub fn toggled_fullscreen(&self, os: Option<bool>) -> (r: bool)
        ensures
            r == (match os {
                Some(on) => !on,
                None => !self.fullscreen,
            }),
    {
        match os {
            Some(on) => !on,
            None => !self.fullscreen,
        }
    }

    /// Whether the Escape key is looked at for leaving fullscreen.
    pub fn escape_leaves_fullscreen(&self, palette_open: bool) -> (r: bool)
        ensures
            r == (self.fullscreen && !palette_open && !self.search_open),
    {
        self.fullscreen && !palette_open && !self.search_open
    }

    /// Settle fullscreen for the frame: Escape leaves it where nothing else
    /// wants the key; else the system's state is taken over, unless the toggle
    /// has just been used. Tells whether the system must be told.
    pub fn settle_fullscreen(
        &mut self,
        escape: bool,
        palette_open: bool,
        toggled: bool,
        os: Option<bool>,
    ) -> (r: bool)
        ensures
            r == left_by_escape(*old(self), escape, palette_open),
            *final(self) == fullscreen_settled(*old(self), escape, palette_open, toggled, os),
    {
        if self.escape_leaves_fullscreen(palette_open) && escape {
            self.set_fullscreen(false);
            true
        } else {
            if !toggled {
                if let Some(on) = os {
                    self.fullscreen = on;
                }
            }
            false
        }
    }

    /// Take note of the window's focus. Gives the focus to report to the
    /// terminal where it changed.
    pub fn focus_edge(&mut self, focused: Option<bool>) -> (r: Option<bool>)
        ensures
            r == focus_change(*old(self), focused),
            *final(self) == focus_noted(*old(self), focused),
    {
        match focused {
            Some(now) => {
                if now != self.was_focused {
                    self.was_focused = now;
                    Some(now)
                } else {
                    None
                }
            },
            None => None,
        }
    }

    /// The settings are about to be drawn: whether they are drawn, and whether
    /// they are placed, which they are when they have just been opened. A frame
    /// without them makes the next one that has them place them again.
    pub fn settings_frame(&mut self) -> (r: Option<bool>)
        ensures
            r == settings_placed(*old(self)),
            *final(self) == settings_begun(*old(self)),
    {
        if self.settings_open {
            let place = !self.settings_was_open || self.settings_place_pending;
            self.settings_place_pending = false;
            Some(place)
        } else {
            self.settings_was_open = false;
            None
        }
    }

    /// The settings were drawn, if they were open; `open` is whether they stay
    /// open.
    pub fn settings_done(&mut self, open: bool)
        ensures
            *final(self) == settings_ended(*old(self), open),
    {
        self.settings_open = self.settings_open && open;
        self.settings_was_open = self.settings_open;
    }

    /// What the search bar does with its keys: Escape closes it and nothing
    /// more; else the matches are gone through and looked for again.
    pub fn search_keys(&mut self, enter: bool, escape: bool, f3: bool, shift_f3: bool) -> (r:
        SearchStep)
        ensures
            *final(self) == searched(*old(self), escape),
            r == search_step(enter, escape, f3, shift_f3),
    {
        if escape {
            self.search_open = false;
        }
        SearchStep {
            forward: !escape && (enter || f3),
            backward: !escape && shift_f3,
            recompute: !escape,
        }
    }
}

/// The longest trail of the caret.
pub const MAX_TRAIL: usize = 24;

/// One place the caret was at: its corners by their bits, and when it was there.
#[derive(Clone, Copy, Debug, PartialEq, Eq, Structural)]
pub struct Echo {
    pub left: u32,
    pub top: u32,
    pub right: u32,
    pub bottom: u32,
    pub born: u64,
}

/// The trail of the caret, the oldest place first.
#[derive(Debug, PartialEq, Eq)]
pub struct CursorTrail {
    pub echoes: Vec<Echo>,
}

impl CursorTrail {
    /// Note where the caret is, if the trail is on and the caret moved. A trail
    /// that is off is empty.
    pub fn note(&mut self, on: bool, moved: bool, echo: Echo)
        ensures
            final(self).echoes@ == trailed(old(self).echoes@, on, moved, echo),
            old(self).echoes@.len() <= MAX_TRAIL ==> final(self).echoes@.len() <= MAX_TRAIL,
    {
        if !on {
            self.echoes = Vec::new();
            assert(self.echoes@ =~= Seq::empty());
        } else if moved {
            self.echoes.push(echo);
            let ghost all = self.echoes@;
            assert(all.skip(0) =~= all);
            let ghost mut gone: int = 0;
            while self.echoes.len() > MAX_TRAIL
                invariant
                    0 <= gone <= all.len(),
                    self.echoes@ == all.skip(gone),
                    gone > 0 ==> self.echoes@.len() >= MAX_TRAIL,
                decreases self.echoes.len(),
            {
                let ghost before = self.echoes@;
                self.echoes.remove(0);
                proof {
                    gone = gone + 1;
                    assert(self.echoes@ =~= all.skip(gone));
                }
            }
            assert(all.skip(0) =~= all);
        }
    }

    /// Drop the places at the start of the trail that have faded.
    pub fn fade(&mut self, now: u64, life: u64)
        ensures
            exists|n: int| #[trigger] fades_to(old(self).echoes@, final(self).echoes@, now, life, n),
    {
        let ghost all = self.echoes@;
        let ghost mut n: int = 0;
        assert(all.skip(0) =~= all);
        while self.echoes.len() > 0 && now > self.echoes[0].born && now - self.echoes[0].born > life
            invariant
                0 <= n <= all.len(),
                self.echoes@ == all.skip(n),
                forall|i: int| 0 <= i < n ==> faded(#[trigger] all[i], now, life),
            decreases self.echoes.len(),
        {
            assert(self.echoes@[0] == all[n]);
            self.echoes.remove(0);
            proof {
                n = n + 1;
                assert(self.echoes@ =~= all.skip(n));
            }
        }
        proof {
            if n < all.len() {
                assert(self.echoes@[0] == all[n]);
            }
            assert(fades_to(all, self.echoes@, now, life, n));
        }
    }
}

/// A place of the trail has outlived its fade.
pub open spec fn faded(e: Echo, now: u64, life: u64) -> bool {
    now - e.born > life
}

/// The first `n` places have faded and are gone, and the next has not.
pub open spec fn fades_to(before: Seq<Echo>, after: Seq<Echo>, now: u64, life: u64, n: int) -> bool {
    &&& 0 <= n <= before.len()
    &&& after == before.skip(n)
    &&& forall|i: int| 0 <= i < n ==> faded(#[trigger] before[i], now, life)
    &&& n < before.len() ==> !faded(before[n], now, life)
}

/// What a new user is told.
pub open spec fn welcome_text() -> Seq<char> {
    "Welcome to C0PL4ND — open Settings (the gear) to customise; see TROUBLESHOOTING.md if anything looks off."@
}

/// What the first frame tells the user: that the config could not be read, or
/// else that the theme could not, or else the welcome where there is no config
/// file yet.
pub fn startup_toast(
    config_error: Option<String>,
    theme_notice: Option<String>,
    config_missing: bool,
) -> (r: Option<String>)
    ensures
        config_error is Some ==> r == config_error,
        config_error is None && theme_notice is Some ==> r == theme_notice,
        config_error is None && theme_notice is None ==> text::opt_text(r) == (
        if config_missing {
            Some(welcome_text())
        } else {
            None
        }),
{
    match config_error {
        Some(e) => Some(e),
        None => match theme_notice {
            Some(n) => Some(n),
            None => {
                if config_missing {
                    Some(
                        "Welcome to C0PL4ND — open Settings (the gear) to customise; see TROUBLESHOOTING.md if anything looks off.".to_owned(),
                    )
                } else {
                    None
                }
            },
        },
    }
}

/// The overlays that may be moving.
#[derive(Clone, Copy, Debug, PartialEq, Eq, Structural)]
pub struct Overlays {
    pub live: bool,
    pub animations_enabled: bool,
    pub reduced_motion: bool,
    pub wired_ambient: bool,
    /// The mesh moves at all.
    pub mesh_moves: bool,
    pub vhs_tracking: bool,
    pub flicker: bool,
    pub cursor_trail: bool,
    /// Places of the trail have not faded yet.
    pub trail_left: bool,
    pub boot_glitch: bool,
    /// The sweep at the start is still on.
    pub boot_sweep: bool,
}

/// Whether the overlays need another frame at once.
pub fn animating(o: &Overlays) -> (r: bool)
    ensures
        r == (o.live && o.animations_enabled && !o.reduced_motion && ((o.wired_ambient
            && o.mesh_moves) || o.vhs_tracking || o.flicker || (o.cursor_trail && o.trail_left) || (
        o.boot_glitch && o.boot_sweep))),
{
    o.live && o.animations_enabled && !o.reduced_motion && ((o.wired_ambient && o.mesh_moves)
        || o.vhs_tracking || o.flicker || (o.cursor_trail && o.trail_left) || (o.boot_glitch
        && o.boot_sweep))
}

/// Glyphs are prepared anew exactly where they were prepared for something else;
/// the grid of a live window then stays empty for two frames, and one that is
/// not live keeps its count.
pub proof fn new_glyphs_blank_a_live_grid(v: WarmupView, key: AtlasView, live: bool)
    ensures
        v.warmed == Some(key) ==> prepared(v, key, live) == v,
        prepared(v, key, live).warmed == Some(key),
        v.warmed != Some(key) && live ==> prepared(v, key, live).left == 2,
        v.warmed != Some(key) && !live ==> prepared(v, key, live).left == v.left,
        prepared(v, key, live).waited == v.waited && prepared(v, key, live).save_at == v.save_at
            && prepared(v, key, live).installed == v.installed,
{
}

/// A frame that waits for a font is counted, and keeps the grid empty for one
/// more frame before the two hundred and fortieth; no other frame changes
/// anything.
pub proof fn frames_that_wait_are_counted(v: WarmupView, live: bool, loading: bool)
    ensures
        !live || !loading ==> waited(v, live, loading) == v,
        v.waited < u32::MAX ==> waited(v, true, true).waited == v.waited + 1,
        v.waited == u32::MAX ==> waited(v, true, true).waited == u32::MAX,
        v.waited < 239 && v.left == 0 ==> waited(v, true, true).left == 1,
        v.waited >= 239 || v.left > 0 ==> waited(v, true, true).left == v.left,
        waited(v, live, loading).warmed == v.warmed && waited(v, live, loading).save_at == v.save_at
            && waited(v, live, loading).installed == v.installed,
{
}

/// Once a frame was prepared the fonts are installed and the glyphs are there,
/// and a font size whose time has come is no longer to be saved.
pub proof fn a_frame_finds_its_fonts(
    v: WarmupView,
    key: AtlasView,
    live: bool,
    loading: bool,
    now: u64,
    at: u64,
)
    ensures
        ({
            let w = frame_ready(v, key, live, loading, now);
            &&& w.installed && w.warmed == Some(key)
            &&& v.save_at is None ==> w.save_at is None
            &&& v.save_at == Some(at) && now >= at ==> w.save_at is None
            &&& v.save_at == Some(at) && now < at ==> w.save_at == Some(at)
            &&& !(live && loading) ==> w.waited == v.waited
            &&& !live ==> w.left == v.left
        }),
{
}

/// Before its first frame a window has the focus and nothing else: nothing is
/// open, done or noted; and no glyphs are prepared.
pub proof fn a_window_starts_with_the_focus_alone()
    ensures
        first_window().was_focused,
        !first_window().live_window && !first_window().fullscreen,
        !first_window().settings_open && !first_window().settings_was_open
            && !first_window().settings_place_pending,
        !first_window().search_open && !first_window().foreground_done,
        first_window().first_frame_time is None && first_window().cursor_blink_phase is None
            && first_window().last_window_cmd is None,
        first_warmup().warmed is None && first_warmup().left == 0 && first_warmup().waited == 0,
        first_warmup().save_at is None && !first_warmup().installed,
{
}

/// The trail fades from its oldest place on: what is gone is older than a place
/// lives, what is left is what stood behind it, and the oldest that is left has
/// not lived that long.
pub proof fn the_trail_fades_from_its_end(
    before: Seq<Echo>,
    after: Seq<Echo>,
    now: u64,
    life: u64,
    n: int,
)
    requires
        fades_to(before, after, now, life, n),
    ensures
        after.len() == before.len() - n,
        forall|i: int| 0 <= i < after.len() ==> #[trigger] after[i] == before[n + i],
        forall|i: int| 0 <= i < n ==> (#[trigger] before[i]).born + life < now,
        after.len() > 0 ==> now <= after[0].born + life,
{
    assert forall|i: int| 0 <= i < n implies (#[trigger] before[i]).born + life < now by {
        assert(faded(before[i], now, life));
    }
}

/// A new user is welcomed by the name of the shell.
pub proof fn a_new_user_is_welcomed()
    ensures
        welcome_text()
            == "Welcome to C0PL4ND — open Settings (the gear) to customise; see TROUBLESHOOTING.md if anything looks off."@,
{
}

/// A waiting paste keeps the keys from everyone; else the palette has them while
/// it is open, then the search bar, and else the terminal.
pub proof fn keys_go_to_what_is_on_top(
    paste_waits: bool,
    palette_open: bool,
    search_open: bool,
    r: KeyRoute,
)
    requires
        call_ensures(key_route, (paste_waits, palette_open, search_open), r),
    ensures
        paste_waits ==> r == KeyRoute::Paste,
        !paste_waits && palette_open ==> r == KeyRoute::Palette,
        !paste_waits && !palette_open && search_open ==> r == KeyRoute::Search,
        !paste_waits && !palette_open && !search_open ==> r == KeyRoute::Terminal,
{
}

/// A pinned caret shows its phase; one that does not blink, or whose pane lacks
/// the focus, always shows; any other for the first half of each period.
pub proof fn the_caret_blinks_in_halves(
    blink: bool,
    focused: bool,
    time_ms: u64,
    on: bool,
    off: bool,
    r: bool,
)
    requires
        call_ensures(cursor_blink_on, (Some(CursorBlinkPhase::On), blink, focused, time_ms), on),
        call_ensures(cursor_blink_on, (Some(CursorBlinkPhase::Off), blink, focused, time_ms), off),
        call_ensures(
            cursor_blink_on,
            (None::<CursorBlinkPhase>, blink, focused, time_ms),
            r,
        ),
    ensures
        on && !off,
        !blink ==> r,
        !focused ==> r,
        blink && focused && time_ms < 530 ==> r,
        blink && focused && 530 <= time_ms < 1060 ==> !r,
        blink && focused ==> (r <==> time_ms as int - 1060 * (time_ms as int / 1060) < 530),
{
}

/// Frames follow each other without a pause only while the scan lines move; else
/// the window waits half a blink for a blinking caret, and a second without one.
pub proof fn frames_follow_what_moves(
    scanlines: bool,
    animations: bool,
    reduced_motion: bool,
    blinks: bool,
    p: FramePolicy,
    r: u64,
)
    requires
        call_ensures(frame_policy, (scanlines, animations, reduced_motion), p),
        call_ensures(idle_repaint_interval, (p, blinks), r),
    ensures
        scanlines && animations && !reduced_motion ==> p == FramePolicy::Continuous && r == 0,
        !scanlines || !animations || reduced_motion ==> p == FramePolicy::OnDamage,
        p == FramePolicy::OnDamage && blinks ==> r == 530,
        p == FramePolicy::OnDamage && !blinks ==> r == 1000,
{
}

/// A terminal keeps a hundred lines at least and a million at most, and within
/// that what is asked for.
pub proof fn the_history_has_its_bounds(lines: usize, r: usize)
    requires
        call_ensures(clamp_scrollback, (lines,), r),
    ensures
        100 <= r <= 1_000_000,
        100 <= lines <= 1_000_000 ==> r == lines,
        lines < 100 ==> r == 100,
        lines > 1_000_000 ==> r == 1_000_000,
{
}

/// The size of the window is remembered where it is at least four hundred by
/// three hundred points and not maximized.
pub proof fn a_sensible_size_is_remembered(maximized: bool, width: u32, height: u32, r: bool)
    requires
        call_ensures(keeps_restore_size, (maximized, width, height), r),
    ensures
        maximized ==> !r,
        width < 400 ==> !r,
        height < 300 ==> !r,
        !maximized && width >= 400 && height >= 300 ==> r,
{
}

/// The fullscreen toggle asks for the opposite of what the system reports, and of
/// what the window remembers where the system reports nothing.
pub proof fn the_toggle_asks_for_the_opposite(w: WindowFlags, on: bool, r: bool, s: bool)
    requires
        call_ensures(WindowFlags::toggled_fullscreen, (&w, Some(on)), r),
        call_ensures(WindowFlags::toggled_fullscreen, (&w, None::<bool>), s),
    ensures
        r == !on,
        s == !w.fullscreen,
{
}

/// Escape leaves fullscreen where neither the palette nor the search bar wants
/// the key.
pub proof fn escape_belongs_to_what_is_open(w: WindowFlags, palette_open: bool, r: bool)
    requires
        call_ensures(WindowFlags::escape_leaves_fullscreen, (&w, palette_open), r),
    ensures
        !w.fullscreen ==> !r,
        palette_open ==> !r,
        w.search_open ==> !r,
        w.fullscreen && !palette_open && !w.search_open ==> r,
{
}

/// A config that could not be read is told of first, then a theme that could not,
/// and then a new user is welcomed; else nothing is said.
pub proof fn the_worst_news_come_first(
    config_error: Option<String>,
    theme_notice: Option<String>,
    config_missing: bool,
    r: Option<String>,
)
    requires
        call_ensures(startup_toast, (config_error, theme_notice, config_missing), r),
    ensures
        config_error is Some ==> r == config_error,
        config_error is None && theme_notice is Some ==> r == theme_notice,
        config_error is None && theme_notice is None && config_missing ==> text::opt_text(r) == Some(
            welcome_text(),
        ),
        config_error is None && theme_notice is None && !config_missing ==> r is None,
{
}

/// An overlay that moves asks for another frame where the window is live,
/// animations are on and less motion is not asked for: the mesh while it moves,
/// the tracking and the flicker always, the trail while it lasts, and the glitch
/// while it sweeps.
pub proof fn moving_overlays_ask_for_frames(o: Overlays, r: bool)
    requires
        call_ensures(animating, (&o,), r),
    ensures
        !o.live || !o.animations_enabled || o.reduced_motion ==> !r,
        o.live && o.animations_enabled && !o.reduced_motion ==> {
            &&& o.vhs_tracking ==> r
            &&& o.flicker ==> r
            &&& o.wired_ambient && o.mesh_moves ==> r
            &&& o.cursor_trail && o.trail_left ==> r
            &&& o.boot_glitch && o.boot_sweep ==> r
            &&& r ==> o.vhs_tracking || o.flicker || o.wired_ambient && o.mesh_moves
                || o.cursor_trail && o.trail_left || o.boot_glitch && o.boot_sweep
        },
{
}

/// The window once its first frame was noted.
pub open spec fn first_frame_noted(w: WindowFlags, now: u64) -> WindowFlags {
    WindowFlags {
        first_frame_time: match w.first_frame_time {
            Some(t) => Some(t),
            None => Some(now),
        },
        ..w
    }
}

/// The window once it was brought to the front, if it is live.
pub open spec fn raised(w: WindowFlags) -> WindowFlags {
    WindowFlags { foreground_done: w.foreground_done || w.live_window, ..w }
}

/// Whether Escape leaves fullscreen.
pub open spec fn left_by_escape(w: WindowFlags, escape: bool, palette_open: bool) -> bool {
    w.fullscreen && !palette_open && !w.search_open && escape
}

/// The window once fullscreen was settled.
pub open spec fn fullscreen_settled(
    w: WindowFlags,
    escape: bool,
    palette_open: bool,
    toggled: bool,
    os: Option<bool>,
) -> WindowFlags {
    WindowFlags {
        fullscreen: if left_by_escape(w, escape, palette_open) {
            false
        } else if toggled {
            w.fullscreen
        } else {
            match os {
                Some(on) => on,
                None => w.fullscreen,
            }
        },
        ..w
    }
}

/// The focus to report to the terminal, where it changed.
pub open spec fn focus_change(w: WindowFlags, focused: Option<bool>) -> Option<bool> {
    match focused {
        Some(now) => if now != w.was_focused {
            Some(now)
        } else {
            None
        },
        None => None,
    }
}

/// The window once its focus was noted.
pub open spec fn focus_noted(w: WindowFlags, focused: Option<bool>) -> WindowFlags {
    WindowFlags {
        was_focused: match focused {
            Some(now) => now,
            None => w.was_focused,
        },
        ..w
    }
}

/// Whether the settings are drawn, and whether they are placed.
pub open spec fn settings_placed(w: WindowFlags) -> Option<bool> {
    if w.settings_open {
        Some(!w.settings_was_open || w.settings_place_pending)
    } else {
        None
    }
}

/// The window before its settings are drawn.
pub open spec fn settings_begun(w: WindowFlags) -> WindowFlags {
    WindowFlags {
        settings_place_pending: if w.settings_open {
            false
        } else {
            w.settings_place_pending
        },
        settings_was_open: w.settings_open && w.settings_was_open,
        ..w
    }
}

/// The window once its settings were drawn.
pub open spec fn settings_ended(w: WindowFlags, open: bool) -> WindowFlags {
    WindowFlags {
        settings_open: w.settings_open && open,
        settings_was_open: w.settings_open && open,
        ..w
    }
}

/// The window once the search bar had its keys.
pub open spec fn searched(w: WindowFlags, escape: bool) -> WindowFlags {
    WindowFlags { search_open: w.search_open && !escape, ..w }
}

/// What the search bar does with its keys.
pub open spec fn search_step(enter: bool, escape: bool, f3: bool, shift_f3: bool) -> SearchStep {
    SearchStep {
        forward: !escape && (enter || f3),
        backward: !escape && shift_f3,
        recompute: !escape,
    }
}

/// The trail once the place of the caret was noted.
pub open spec fn trailed(echoes: Seq<Echo>, on: bool, moved: bool, echo: Echo) -> Seq<Echo> {
    if !on {
        Seq::empty()
    } else if !moved {
        echoes
    } else if echoes.len() < MAX_TRAIL {
        echoes.push(echo)
    } else {
        echoes.push(echo).skip(echoes.len() + 1 - MAX_TRAIL)
    }
}

/// The first frame is noted once, and a live window is brought to the front.
pub proof fn the_first_frame_is_noted_once(w: WindowFlags, now: u64, later: u64)
    ensures
        w.first_frame_time is None ==> first_frame_noted(w, now).first_frame_time == Some(now),
        w.first_frame_time is Some ==> first_frame_noted(w, now) == w,
        first_frame_noted(first_frame_noted(w, now), later) == first_frame_noted(w, now),
        w.live_window ==> raised(w).foreground_done,
        !w.live_window ==> raised(w) == w,
        raised(w) == (WindowFlags { foreground_done: raised(w).foreground_done, ..w }),
{
}

/// Escape leaves fullscreen where nothing else wants the key; else the window
/// follows the system, unless the toggle was just used or the system says
/// nothing.
pub proof fn fullscreen_follows_the_system(
    w: WindowFlags,
    palette_open: bool,
    toggled: bool,
    on: bool,
    os: Option<bool>,
)
    ensures
        left_by_escape(w, true, palette_open) <==> w.fullscreen && !palette_open && !w.search_open,
        !left_by_escape(w, false, palette_open),
        w.fullscreen && !palette_open && !w.search_open ==> !fullscreen_settled(
            w,
            true,
            palette_open,
            toggled,
            os,
        ).fullscreen,
        fullscreen_settled(w, false, palette_open, false, Some(on)).fullscreen == on,
        fullscreen_settled(w, false, palette_open, true, os) == w,
        fullscreen_settled(w, false, palette_open, false, None) == w,
        palette_open || w.search_open ==> fullscreen_settled(
            w,
            true,
            palette_open,
            toggled,
            os,
        ) == fullscreen_settled(w, false, palette_open, toggled, os),
        fullscreen_settled(w, true, palette_open, toggled, os) == (WindowFlags {
            fullscreen: fullscreen_settled(w, true, palette_open, toggled, os).fullscreen,
            ..w
        }),
{
}

/// A change of the focus is reported once, and what was last seen is remembered;
/// where nothing is known nothing changes.
pub proof fn a_change_of_focus_is_reported_once(w: WindowFlags, now: bool)
    ensures
        now != w.was_focused ==> focus_change(w, Some(now)) == Some(now),
        now == w.was_focused ==> focus_change(w, Some(now)) is None,
        focus_change(w, None) is None,
        focus_noted(w, None) == w,
        focus_noted(w, Some(now)).was_focused == now,
        focus_change(focus_noted(w, Some(now)), Some(now)) is None,
        focus_noted(w, Some(now)) == (WindowFlags { was_focused: now, ..w }),
{
}

/// The settings are placed when they open, or when that is asked for, and then
/// stay where they are while they are open; a frame without them makes the next
/// one with them place them again.
pub proof fn the_settings_are_placed_when_they_open(w: WindowFlags, open: bool)
    ensures
        !w.settings_open ==> settings_placed(w) is None && !settings_begun(w).settings_was_open
            && settings_begun(w).settings_place_pending == w.settings_place_pending,
        w.settings_open && !w.settings_was_open ==> settings_placed(w) == Some(true),
        w.settings_open && w.settings_place_pending ==> settings_placed(w) == Some(true),
        w.settings_open && w.settings_was_open && !w.settings_place_pending ==> settings_placed(w)
            == Some(false),
        w.settings_open ==> !settings_begun(w).settings_place_pending
            && settings_begun(w).settings_was_open == w.settings_was_open,
        w.settings_open ==> settings_placed(settings_ended(settings_begun(w), true)) == Some(false),
        !settings_ended(w, false).settings_open && !settings_ended(w, false).settings_was_open,
        settings_ended(w, true).settings_open == w.settings_open && settings_ended(
            w,
            true,
        ).settings_was_open == w.settings_open,
        settings_begun(w).settings_open == w.settings_open,
        settings_begun(w).search_open == w.search_open && settings_ended(w, open).search_open
            == w.search_open,
        settings_begun(w).fullscreen == w.fullscreen && settings_ended(w, open).fullscreen
            == w.fullscreen,
{
}

/// Escape closes the search bar and does no more; without it Enter and F3 go to
/// the next match, F3 with Shift to the one before, and matches are looked for
/// again.
pub proof fn the_search_bar_steps_through_matches(
    w: WindowFlags,
    enter: bool,
    f3: bool,
    shift_f3: bool,
)
    ensures
        !searched(w, true).search_open,
        searched(w, false) == w,
        searched(w, true) == (WindowFlags { search_open: false, ..w }),
        !search_step(enter, true, f3, shift_f3).forward && !search_step(
            enter,
            true,
            f3,
            shift_f3,
        ).backward && !search_step(enter, true, f3, shift_f3).recompute,
        search_step(enter, false, f3, shift_f3).recompute,
        search_step(true, false, f3, shift_f3).forward && search_step(
            enter,
            false,
            true,
            shift_f3,
        ).forward && !search_step(false, false, false, shift_f3).forward,
        search_step(enter, false, f3, shift_f3).backward <==> shift_f3,
{
}

/// A trail that is off is empty; one that is on grows by the place the caret moved
/// to, keeps the places before it in order, and is never longer than twenty-four.
pub proof fn the_trail_keeps_its_latest_places(echoes: Seq<Echo>, moved: bool, echo: Echo)
    requires
        echoes.len() <= 24,
    ensures
        trailed(echoes, false, moved, echo).len() == 0,
        trailed(echoes, true, false, echo) == echoes,
        trailed(echoes, true, true, echo).last() == echo,
        echoes.len() < 24 ==> trailed(echoes, true, true, echo).drop_last() == echoes,
        echoes.len() == 24 ==> trailed(echoes, true, true, echo).drop_last() == echoes.skip(1),
        trailed(echoes, true, true, echo).len() <= 24,
{
    let r = trailed(echoes, true, true, echo);
    if echoes.len() < 24 {
        assert(r.drop_last() =~= echoes);
    } else {
        assert(r.drop_last() =~= echoes.skip(1));
    }
}

/// Fonts are installed once.
pub proof fn fonts_are_installed_once(g: &mut GlyphWarmup, h: &mut GlyphWarmup, r: bool, again: bool)
    requires
        call_ensures(GlyphWarmup::install_fonts, (g,), r),
        call_ensures(GlyphWarmup::install_fonts, (h,), again),
        old(h)@ == final(g)@,
    ensures
        r == !old(g)@.installed,
        !again,
        final(g)@.installed,
        final(g)@ == (WarmupView { installed: true, ..old(g)@ }),
{
}

/// A frame takes one from the frames that are left to warm up, and tells whether
/// it was one of them.
pub proof fn a_frame_counts_the_warm_up_down(g: &mut GlyphWarmup, r: bool)
    requires
        call_ensures(GlyphWarmup::end_frame, (g,), r),
    ensures
        r <==> old(g)@.left > 0,
        r ==> final(g)@.left + 1 == old(g)@.left,
        !r ==> final(g)@ == old(g)@,
        final(g)@ == (WarmupView { left: final(g)@.left, ..old(g)@ }),
{
}

/// A changed font size is saved once, six hundred milliseconds after its last
/// change.
pub proof fn a_font_size_is_saved_when_it_settles(
    g: &mut GlyphWarmup,
    h: &mut GlyphWarmup,
    k: &mut GlyphWarmup,
    now: u64,
    later: u64,
    r: bool,
    again: bool,
)
    requires
        call_ensures(GlyphWarmup::schedule_font_save, (g, now), ()),
        call_ensures(GlyphWarmup::font_save_due, (h, later), r),
        call_ensures(GlyphWarmup::font_save_due, (k, later), again),
        old(h)@ == final(g)@,
        old(k)@ == final(h)@,
        now <= u64::MAX - 600,
    ensures
        r <==> later >= now + 600,
        !r ==> final(h)@ == old(h)@,
        r ==> final(h)@.save_at is None,
        r ==> !again,
        final(g)@ == (WarmupView { save_at: final(g)@.save_at, ..old(g)@ }),
        final(h)@ == (WarmupView { save_at: final(h)@.save_at, ..old(h)@ }),
{
}

/// The grid waits for a font that still loads in a live window, for fewer than
/// two hundred and forty frames.
pub proof fn a_loading_font_is_waited_for(g: &mut GlyphWarmup, live: bool, loading: bool, r: bool)
    requires
        call_ensures(GlyphWarmup::wait_for_fonts, (g, live, loading), r),
    ensures
        r ==> live && loading,
        live && loading && old(g)@.waited < 239 ==> r,
        live && loading && old(g)@.waited >= 239 ==> !r,
{
}

/// What a frame prepares is what was not there yet.
pub proof fn a_frame_prepares_what_is_missing(
    g: &mut GlyphWarmup,
    key: AtlasKey,
    live: bool,
    loading: bool,
    now: u64,
    r: FontsReady,
)
    requires
        call_ensures(GlyphWarmup::prepare, (g, key, live, loading, now), r),
    ensures
        r.install_fonts == !old(g)@.installed,
        r.prepare_glyphs == (old(g)@.warmed != Some(key@)),
        r.save_font_size ==> old(g)@.save_at is Some && final(g)@.save_at is None,
        old(g)@.save_at is None ==> !r.save_font_size,
        old(g)@.save_at matches Some(at) ==> r.save_font_size == (at <= now),
        r.wait ==> live && loading,
        live && loading && old(g)@.waited < 239 ==> r.wait,
        live && loading && old(g)@.waited >= 239 ==> !r.wait,
{
}

/// A live window is raised once.
pub proof fn a_window_is_raised_once(w: &mut WindowFlags, x: &mut WindowFlags, r: bool, again: bool)
    requires
        call_ensures(WindowFlags::raise_window, (w,), r),
        call_ensures(WindowFlags::raise_window, (x,), again),
        *old(x) == *final(w),
    ensures
        r == (old(w).live_window && !old(w).foreground_done),
        !again,
{
}

/// A trail whose oldest place has not faded stays whole, and one whose places all
/// have is gone.
pub proof fn a_fresh_trail_stays_whole(before: Seq<Echo>, now: u64, life: u64)
    ensures
        before.len() == 0 || now <= before[0].born + life ==> fades_to(before, before, now, life, 0),
        (forall|i: int| 0 <= i < before.len() ==> (#[trigger] before[i]).born + life < now)
            ==> fades_to(before, Seq::empty(), now, life, before.len() as int),
{
    assert(before.skip(0) =~= before);
    assert(before.skip(before.len() as int) =~= Seq::empty());
}

} // verus!
