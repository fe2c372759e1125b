//! One frame of the shell, from the top: what is prepared, what the window is
//! told, which parts are drawn, and what the terminals ask of the host.

use crate::app::{AppView, C0pl4ndApp};
use crate::colors::ColorSet;
use crate::dispatch;
use crate::frame;
use crate::frame::{AtlasKey, AtlasView, FontsReady, WindowFlags};
use crate::grid::PaneId;
use crate::panes::PanesView;
use crate::text;
use vstd::prelude::*;

verus! {

/// The shell after a frame was prepared.
pub open spec fn frame_prepared(v: AppView, key: AtlasView, loading: bool, now: u64) -> AppView {
    AppView {
        window: WindowFlags {
            first_frame_time: match v.window.first_frame_time {
                Some(t) => Some(t),
                None => Some(now),
            },
            foreground_done: v.window.foreground_done || v.window.live_window,
            ..v.window
        },
        warmup: frame::frame_ready(v.warmup, key, v.window.live_window, loading, now),
        panes: PanesView {
            zoomed: if v.panes.zoomed == Some(v.panes.focused) {
                v.panes.zoomed
            } else {
                None
            },
            ..v.panes
        },
        ..v
    }
}

/// A part of the window that is drawn.
#[derive(Clone, Copy, Debug, PartialEq, Eq, Structural)]
pub enum Part {
    TitleBar,
    StatusBar,
    HistorySidebar,
    Grid,
    Settings,
    Palette,
    Search,
    PasteConfirmation,
    CloseConfirmation,
}

/// One part, where it is shown.
pub open spec fn shown_if(on: bool, part: Part) -> Seq<Part> {
    if on {
        seq![part]
    } else {
        Seq::empty()
    }
}

/// The parts of the window that are drawn, from the bottom up: the bars, which
/// a fullscreen window does not have, the sidebar, the grid, and what floats
/// above it.
pub open spec fn drawn(v: AppView, status_bar: bool) -> Seq<Part> {
    Seq::<Part>::empty() + shown_if(!v.window.fullscreen, Part::TitleBar) + shown_if(
        !v.window.fullscreen && status_bar,
        Part::StatusBar,
    ) + shown_if(v.palette.history_open, Part::HistorySidebar) + shown_if(true, Part::Grid)
        + shown_if(v.window.settings_open, Part::Settings) + shown_if(
        v.palette.open,
        Part::Palette,
    ) + shown_if(v.window.search_open, Part::Search) + shown_if(
        v.paste.text is Some,
        Part::PasteConfirmation,
    ) + shown_if(v.close.close_confirm is Some, Part::CloseConfirmation)
}

/// Add a part where it is shown.
fn push_part(out: &mut Vec<Part>, on: bool, part: Part)
    ensures
        final(out)@ == old(out)@ + shown_if(on, part),
{
    if on {
        out.push(part);
    }
    assert(out@ =~= old(out)@ + shown_if(on, part));
}

impl C0pl4ndApp {
    /// Prepare a frame at `now`: the first one is noted, the window is brought
    /// to the front once, fonts and glyphs are seen to, a settled font size is
    /// saved, and a pane stays zoomed only while it has the focus. Tells whether
    /// to bring the window to the front, and what the fonts need.
    pub fn prepare_frame(&mut self, key: AtlasKey, loading: bool, now: u64) -> (r: (
        bool,
        FontsReady,
    ))
        ensures
            final(self)@ == frame_prepared(old(self)@, key@, loading, now),
            r.0 == (old(self)@.window.live_window && !old(self)@.window.foreground_done),
            r.1.install_fonts == !old(self)@.warmup.installed,
            r.1.prepare_glyphs == (old(self)@.warmup.warmed != Some(key@)),
            r.1.wait == (old(self)@.window.live_window && loading && final(self)@.warmup.waited
                < frame::FONT_WAIT_GATE_CAP),
            r.1.save_font_size == (old(self)@.warmup.save_at matches Some(at) && now >= at),
    {
        self.window.note_first_frame(now);
        let raise = self.window.raise_window();
        let live = self.window.live_window;
        let fonts = self.warmup.prepare(key, live, loading, now);
        self.panes.reconcile_zoom();
        (raise, fonts)
    }

    /// Settle what the window reports: fullscreen, and the focus, which the
    /// focused terminal is told of where it changed.
    pub fn settle_window(
        &mut self,
        escape: bool,
        toggled: bool,
        os_fullscreen: Option<bool>,
        focused: Option<bool>,
    ) -> (r: (bool, Option<(PaneId, bool)>))
        ensures
            ({
                let v = old(self)@;
                let leaves = v.window.fullscreen && !v.palette.open && !v.window.search_open
                    && escape;
                let edge = focused matches Some(now) && now != v.window.was_focused;
                &&& r.0 == leaves
                &&& r.1 == (match (dispatch::live_focus(v.panes), focused) {
                    (Some(pane), Some(now)) => if edge {
                        Some((pane, now))
                    } else {
                        None
                    },
                    _ => None,
                })
                &&& final(self)@ == (AppView {
                    window: WindowFlags {
                        fullscreen: if leaves {
                            false
                        } else if toggled {
                            v.window.fullscreen
                        } else {
                            match os_fullscreen {
                                Some(on) => on,
                                None => v.window.fullscreen,
                            }
                        },
                        was_focused: match focused {
                            Some(now) => now,
                            None => v.window.was_focused,
                        },
                        ..v.window
                    },
                    ..v
                })
            }),
    {
        let leaves = self.window.settle_fullscreen(
            escape,
            self.palette.palette_open,
            toggled,
            os_fullscreen,
        );
        let report = match self.window.focus_edge(focused) {
            Some(now) => match self.focused_terminal() {
                Some(pane) => Some((pane, now)),
                None => None,
            },
            None => None,
        };
        (leaves, report)
    }

    /// The parts of the window that are drawn, from the bottom up.
    pub fn parts(&self, status_bar: bool) -> (r: Vec<Part>)
        ensures
            r@ == drawn(self@, status_bar),
    {
        let full = self.window.fullscreen;
        let mut out: Vec<Part> = Vec::new();
        push_part(&mut out, !full, Part::TitleBar);
        push_part(&mut out, !full && status_bar, Part::StatusBar);
        push_part(&mut out, self.palette.history_open, Part::HistorySidebar);
        push_part(&mut out, true, Part::Grid);
        push_part(&mut out, self.window.settings_open, Part::Settings);
        push_part(&mut out, self.palette.palette_open, Part::Palette);
        push_part(&mut out, self.window.search_open, Part::Search);
        push_part(&mut out, self.paste.has_pending_paste(), Part::PasteConfirmation);
        push_part(&mut out, self.close.close_confirm.is_some(), Part::CloseConfirmation);
        out
    }
}

/// The close confirmation is drawn last, so that nothing covers it.
pub proof fn the_close_confirmation_is_on_top(v: AppView, status_bar: bool)
    requires
        v.close.close_confirm is Some,
    ensures
        drawn(v, status_bar).last() == Part::CloseConfirmation,
{
}

/// A notification a program sent.
#[derive(Debug, PartialEq, Eq)]
pub struct Notification {
    /// Its title, where the program gave one.
    pub title: Option<String>,
    /// What it says.
    pub body: String,
}

/// A program's report of how far it is.
#[derive(Clone, Copy, Debug, PartialEq, Eq, Structural)]
pub struct ProgressReport {
    /// The state, as the program numbered it.
    pub state: u8,
    /// How far it is, in percent.
    pub percent: u8,
}

/// What a terminal asks of the host.
#[derive(Debug, PartialEq, Eq)]
pub struct HostEffects {
    /// Texts for the clipboard.
    pub clipboard_writes: Vec<String>,
    /// Colours to set.
    pub color_sets: Vec<ColorSet>,
    /// Notifications to show.
    pub notifications: Vec<Notification>,
    /// Reports of progress.
    pub progress: Vec<ProgressReport>,
}

/// The lists one behind the other.
pub open spec fn gathered<T>(lists: Seq<Seq<T>>) -> Seq<T>
    decreases lists.len(),
{
    if lists.len() == 0 {
        Seq::empty()
    } else {
        gathered(lists.drop_last()) + lists.last()
    }
}

/// All texts for the clipboard, terminal by terminal.
pub open spec fn all_writes(fx: Seq<HostEffects>) -> Seq<String> {
    gathered(fx.map_values(|h: HostEffects| h.clipboard_writes@))
}

/// All colours to set, terminal by terminal.
pub open spec fn all_colours(fx: Seq<HostEffects>) -> Seq<ColorSet> {
    gathered(fx.map_values(|h: HostEffects| h.color_sets@))
}

/// All notifications, terminal by terminal.
pub open spec fn all_notifications(fx: Seq<HostEffects>) -> Seq<Notification> {
    gathered(fx.map_values(|h: HostEffects| h.notifications@))
}

/// All reports of progress, terminal by terminal.
pub open spec fn all_progress(fx: Seq<HostEffects>) -> Seq<ProgressReport> {
    gathered(fx.map_values(|h: HostEffects| h.progress@))
}

/// What one more terminal adds.
proof fn lemma_one_more(fx: Seq<HostEffects>, h: HostEffects)
    ensures
        all_writes(fx.push(h)) == all_writes(fx) + h.clipboard_writes@,
        all_colours(fx.push(h)) == all_colours(fx) + h.color_sets@,
        all_notifications(fx.push(h)) == all_notifications(fx) + h.notifications@,
        all_progress(fx.push(h)) == all_progress(fx) + h.progress@,
{
    let more = fx.push(h);
    assert(more.map_values(|h: HostEffects| h.clipboard_writes@).drop_last() =~= fx.map_values(
        |h: HostEffects| h.clipboard_writes@,
    ));
    assert(more.map_values(|h: HostEffects| h.color_sets@).drop_last() =~= fx.map_values(
        |h: HostEffects| h.color_sets@,
    ));
    assert(more.map_values(|h: HostEffects| h.notifications@).drop_last() =~= fx.map_values(
        |h: HostEffects| h.notifications@,
    ));
    assert(more.map_values(|h: HostEffects| h.progress@).drop_last() =~= fx.map_values(
        |h: HostEffects| h.progress@,
    ));
}

/// Gather what the terminals ask of the host, terminal by terminal.
pub fn pump_pane_effects(fx: Vec<HostEffects>) -> (r: HostEffects)
    ensures
        r.clipboard_writes@ == all_writes(fx@),
        r.color_sets@ == all_colours(fx@),
        r.notifications@ == all_notifications(fx@),
        r.progress@ == all_progress(fx@),
{
    let ghost all = fx@;
    let ghost mut done = Seq::<HostEffects>::empty();
    let mut left = fx;
    let mut r = HostEffects {
        clipboard_writes: Vec::new(),
        color_sets: Vec::new(),
        notifications: Vec::new(),
        progress: Vec::new(),
    };
    while left.len() > 0
        invariant
            done + left@ == all,
            r.clipboard_writes@ == all_writes(done),
            r.color_sets@ == all_colours(done),
            r.notifications@ == all_notifications(done),
            r.progress@ == all_progress(done),
        decreases left.len(),
    {
        let ghost rest = left@;
        let mut h = left.remove(0);
        proof {
            lemma_one_more(done, h);
            assert(done.push(h) + left@ =~= done + rest);
            done = done.push(h);
        }
        r.clipboard_writes.append(&mut h.clipboard_writes);
        r.color_sets.append(&mut h.color_sets);
        r.notifications.append(&mut h.notifications);
        r.progress.append(&mut h.progress);
    }
    assert(done =~= all);
    r
}

/// The report of progress that shows: the last of a frame. None where there was
/// none, and what showed before stays.
pub fn latest_progress(reports: &Vec<ProgressReport>) -> (r: Option<ProgressReport>)
    ensures
        r == (if reports@.len() > 0 {
            Some(reports@.last())
        } else {
            None
        }),
{
    if reports.len() > 0 {
        Some(reports[reports.len() - 1])
    } else {
        None
    }
}

/// Whether notifications are shown and ask for attention: there are some, and
/// the window is known not to have the focus.
pub fn wants_attention(notifications: &Vec<Notification>, focused: Option<bool>) -> (r: bool)
    ensures
        r == (notifications@.len() > 0 && focused == Some(false)),
{
    match focused {
        Some(on) => !on && notifications.len() > 0,
        None => false,
    }
}

/// A part is drawn exactly where it is shown: the bars outside fullscreen, the
/// grid always, and each of the others while it is open or waits for an answer.
pub proof fn parts_are_drawn_where_they_are_shown(v: AppView, status_bar: bool)
    ensures
        ({
            let d = drawn(v, status_bar);
            &&& d.contains(Part::TitleBar) <==> !v.window.fullscreen
            &&& d.contains(Part::StatusBar) <==> !v.window.fullscreen && status_bar
            &&& d.contains(Part::HistorySidebar) <==> v.palette.history_open
            &&& d.contains(Part::Grid)
            &&& d.contains(Part::Settings) <==> v.window.settings_open
            &&& d.contains(Part::Palette) <==> v.palette.open
            &&& d.contains(Part::Search) <==> v.window.search_open
            &&& d.contains(Part::PasteConfirmation) <==> v.paste.text is Some
            &&& d.contains(Part::CloseConfirmation) <==> v.close.close_confirm is Some
        }),
{
    lemma_drawn(v, status_bar, Part::TitleBar);
    lemma_drawn(v, status_bar, Part::StatusBar);
    lemma_drawn(v, status_bar, Part::HistorySidebar);
    lemma_drawn(v, status_bar, Part::Grid);
    lemma_drawn(v, status_bar, Part::Settings);
    lemma_drawn(v, status_bar, Part::Palette);
    lemma_drawn(v, status_bar, Part::Search);
    lemma_drawn(v, status_bar, Part::PasteConfirmation);
    lemma_drawn(v, status_bar, Part::CloseConfirmation);
}

/// One more part adds itself where it is shown.
proof fn lemma_part(a: Seq<Part>, on: bool, part: Part, p: Part)
    ensures
        (a + shown_if(on, part)).contains(p) <==> a.contains(p) || (on && part == p),
{
    let all = a + shown_if(on, part);
    if a.contains(p) {
        assert(all[a.index_of(p)] == p);
    }
    if on {
        assert(all[a.len() as int] == part);
    }
}

/// Which parts are drawn.
proof fn lemma_drawn(v: AppView, status_bar: bool, p: Part)
    ensures
        drawn(v, status_bar).contains(p) <==> {
            ||| !v.window.fullscreen && p == Part::TitleBar
            ||| !v.window.fullscreen && status_bar && p == Part::StatusBar
            ||| v.palette.history_open && p == Part::HistorySidebar
            ||| p == Part::Grid
            ||| v.window.settings_open && p == Part::Settings
            ||| v.palette.open && p == Part::Palette
            ||| v.window.search_open && p == Part::Search
            ||| v.paste.text is Some && p == Part::PasteConfirmation
            ||| v.close.close_confirm is Some && p == Part::CloseConfirmation
        },
{
    let a = Seq::<Part>::empty();
    lemma_part(a, !v.window.fullscreen, Part::TitleBar, p);
    let a = a + shown_if(!v.window.fullscreen, Part::TitleBar);
    lemma_part(a, !v.window.fullscreen && status_bar, Part::StatusBar, p);
    let a = a + shown_if(!v.window.fullscreen && status_bar, Part::StatusBar);
    lemma_part(a, v.palette.history_open, Part::HistorySidebar, p);
    let a = a + shown_if(v.palette.history_open, Part::HistorySidebar);
    lemma_part(a, true, Part::Grid, p);
    let a = a + shown_if(true, Part::Grid);
    lemma_part(a, v.window.settings_open, Part::Settings, p);
    let a = a + shown_if(v.window.settings_open, Part::Settings);
    lemma_part(a, v.palette.open, Part::Palette, p);
    let a = a + shown_if(v.palette.open, Part::Palette);
    lemma_part(a, v.window.search_open, Part::Search, p);
    let a = a + shown_if(v.window.search_open, Part::Search);
    lemma_part(a, v.paste.text is Some, Part::PasteConfirmation, p);
    let a = a + shown_if(v.paste.text is Some, Part::PasteConfirmation);
    lemma_part(a, v.close.close_confirm is Some, Part::CloseConfirmation, p);
}

/// How far up a part is drawn.
pub open spec fn height_of(p: Part) -> int {
    match p {
        Part::TitleBar => 0,
        Part::StatusBar => 1,
        Part::HistorySidebar => 2,
        Part::Grid => 3,
        Part::Settings => 4,
        Part::Palette => 5,
        Part::Search => 6,
        Part::PasteConfirmation => 7,
        Part::CloseConfirmation => 8,
    }
}

/// The parts are drawn from the bottom up, each once: the bars, the sidebar, the
/// grid, the settings, the palette, the search bar, and the questions on top.
pub proof fn parts_are_drawn_from_the_bottom_up(v: AppView, status_bar: bool, i: int, j: int)
    requires
        0 <= i < j < drawn(v, status_bar).len(),
    ensures
        height_of(drawn(v, status_bar)[i]) < height_of(drawn(v, status_bar)[j]),
{
    let a = Seq::<Part>::empty();
    lemma_higher(a, !v.window.fullscreen, Part::TitleBar);
    let a = a + shown_if(!v.window.fullscreen, Part::TitleBar);
    lemma_higher(a, !v.window.fullscreen && status_bar, Part::StatusBar);
    let a = a + shown_if(!v.window.fullscreen && status_bar, Part::StatusBar);
    lemma_higher(a, v.palette.history_open, Part::HistorySidebar);
    let a = a + shown_if(v.palette.history_open, Part::HistorySidebar);
    lemma_higher(a, true, Part::Grid);
    let a = a + shown_if(true, Part::Grid);
    lemma_higher(a, v.window.settings_open, Part::Settings);
    let a = a + shown_if(v.window.settings_open, Part::Settings);
    lemma_higher(a, v.palette.open, Part::Palette);
    let a = a + shown_if(v.palette.open, Part::Palette);
    lemma_higher(a, v.window.search_open, Part::Search);
    let a = a + shown_if(v.window.search_open, Part::Search);
    lemma_higher(a, v.paste.text is Some, Part::PasteConfirmation);
    let a = a + shown_if(v.paste.text is Some, Part::PasteConfirmation);
    lemma_higher(a, v.close.close_confirm is Some, Part::CloseConfirmation);
}

/// The parts stand in the order of their heights, all below a height.
spec fn rising(a: Seq<Part>, below: int) -> bool {
    &&& forall|i: int| 0 <= i < a.len() ==> height_of(#[trigger] a[i]) < below
    &&& forall|i: int, j: int|
        0 <= i < j < a.len() ==> height_of(#[trigger] a[i]) < height_of(#[trigger] a[j])
}

proof fn lemma_higher(a: Seq<Part>, on: bool, part: Part)
    requires
        rising(a, height_of(part)),
    ensures
        rising(a + shown_if(on, part), height_of(part) + 1),
{
    let all = a + shown_if(on, part);
    assert forall|i: int| 0 <= i < all.len() implies height_of(#[trigger] all[i]) < height_of(part)
        + 1 by {
        if i < a.len() {
            assert(all[i] == a[i]);
        }
    }
    assert forall|i: int, j: int| 0 <= i < j < all.len() implies height_of(#[trigger] all[i])
        < height_of(#[trigger] all[j]) by {
        assert(all[i] == a[i]);
        if j < a.len() {
            assert(all[j] == a[j]);
        }
    }
}

/// Preparing a frame notes when the first one was, brings a live window to the
/// front, and keeps a pane alone only while it has the focus; nothing else of the
/// window and the panes changes.
pub proof fn a_frame_is_prepared(v: AppView, key: AtlasView, loading: bool, now: u64, t: u64)
    ensures
        ({
            let w = frame_prepared(v, key, loading, now);
            &&& v.window.first_frame_time is None ==> w.window.first_frame_time == Some(now)
            &&& v.window.first_frame_time == Some(t) ==> w.window.first_frame_time == Some(t)
            &&& v.window.live_window ==> w.window.foreground_done
            &&& !v.window.live_window ==> w.window.foreground_done == v.window.foreground_done
            &&& v.panes.zoomed == Some(v.panes.focused) ==> w.panes.zoomed == v.panes.zoomed
            &&& v.panes.zoomed != Some(v.panes.focused) ==> w.panes.zoomed is None
            &&& w.warmup.installed && w.warmup.warmed == Some(key)
            &&& w == (AppView { window: w.window, warmup: w.warmup, panes: w.panes, ..v })
            &&& w.panes == (PanesView { zoomed: w.panes.zoomed, ..v.panes })
            &&& w.window == (WindowFlags {
                first_frame_time: w.window.first_frame_time,
                foreground_done: w.window.foreground_done,
                ..v.window
            })
        }),
{
}

/// What the terminals ask for is gathered terminal by terminal, each list in its
/// own order: nothing is asked where there is no terminal, and one more terminal
/// adds its own.
pub proof fn requests_are_gathered_in_turn(fx: Seq<HostEffects>, h: HostEffects)
    ensures
        all_writes(Seq::empty()).len() == 0,
        all_colours(Seq::empty()).len() == 0,
        all_notifications(Seq::empty()).len() == 0,
        all_progress(Seq::empty()).len() == 0,
        all_writes(fx.push(h)) == all_writes(fx) + h.clipboard_writes@,
        all_colours(fx.push(h)) == all_colours(fx) + h.color_sets@,
        all_notifications(fx.push(h)) == all_notifications(fx) + h.notifications@,
        all_progress(fx.push(h)) == all_progress(fx) + h.progress@,
{
    lemma_one_more(fx, h);
}

/// The report that came last is shown.
pub proof fn the_latest_report_is_shown(reports: &Vec<ProgressReport>, r: Option<ProgressReport>)
    requires
        call_ensures(latest_progress, (reports,), r),
    ensures
        reports@.len() == 0 ==> r is None,
        reports@.len() > 0 ==> r == Some(reports@[reports@.len() - 1]),
{
}

/// A window calls for attention where there is news and it has not the focus.
pub proof fn news_call_for_attention(notifications: &Vec<Notification>, focused: Option<bool>, r: bool)
    requires
        call_ensures(wants_attention, (notifications, focused), r),
    ensures
        r ==> notifications@.len() > 0 && focused is Some,
        focused == Some(true) ==> !r,
        focused == Some(false) ==> (r <==> notifications@.len() > 0),
{
}

/// A window follows the system and the focus as its parts do: Escape leaves
/// fullscreen where nothing else wants it, and a change of the focus is told to
/// the terminal that has it.
pub proof fn a_window_is_settled(
    app: &mut C0pl4ndApp,
    escape: bool,
    toggled: bool,
    os: Option<bool>,
    focused: Option<bool>,
    r: (bool, Option<(PaneId, bool)>),
)
    requires
        call_ensures(C0pl4ndApp::settle_window, (app, escape, toggled, os, focused), r),
    ensures
        r.0 <==> escape && old(app)@.window.fullscreen && !old(app)@.palette.open && !old(
            app,
        )@.window.search_open,
        r.0 ==> !final(app)@.window.fullscreen,
        !r.0 && toggled ==> final(app)@.window.fullscreen == old(app)@.window.fullscreen,
        !r.0 && !toggled && os is Some ==> os == Some(final(app)@.window.fullscreen),
        !r.0 && os is None ==> final(app)@.window.fullscreen == old(app)@.window.fullscreen,
        focused is None ==> r.1 is None && final(app)@.window.was_focused == old(
            app,
        )@.window.was_focused,
        focused is Some ==> focused == Some(final(app)@.window.was_focused),
        focused == Some(old(app)@.window.was_focused) ==> r.1 is None,
        r.1 matches Some(told) ==> Some(told.0) == dispatch::live_focus(old(app)@.panes) && Some(
            told.1,
        ) == focused,
        focused is Some && focused != Some(old(app)@.window.was_focused) && dispatch::live_focus(
            old(app)@.panes,
        ) is Some ==> r.1 is Some,
        final(app)@.panes == old(app)@.panes && final(app)@.palette == old(app)@.palette
            && final(app)@.close == old(app)@.close,
{
}

} // verus!
