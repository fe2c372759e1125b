//! The drop-down window: where it goes, what its hotkey does, and when the
//! hotkey is claimed.

use vstd::prelude::*;

verus! {

/// A screen rectangle in physical pixels; right and bottom are exclusive.
#[derive(Clone, Copy, Debug, PartialEq, Eq, Structural)]
pub struct ScreenRect {
    pub left: i32,
    pub top: i32,
    pub right: i32,
    pub bottom: i32,
}

/// The distance from `a` to `b`, 0 where `b` does not lie past `a`, and at most
/// the largest `i32`.
pub open spec fn extent(a: i32, b: i32) -> int {
    if b <= a {
        0
    } else if b - a > i32::MAX {
        i32::MAX as int
    } else {
        b - a
    }
}

/// The distance from `a` to `b`, never negative.
fn span(a: i32, b: i32) -> (r: i32)
    ensures
        r == extent(a, b),
{
    if b <= a {
        0
    } else {
        match b.checked_sub(a) {
            Some(d) => d,
            None => i32::MAX,
        }
    }
}

impl ScreenRect {
    /// The rectangle with these edges.
    pub fn new(left: i32, top: i32, right: i32, bottom: i32) -> (r: ScreenRect)
        ensures
            r == (ScreenRect { left, top, right, bottom }),
    {
        ScreenRect { left, top, right, bottom }
    }

    /// Width in pixels; 0 for an inverted rectangle.
    pub fn width(&self) -> (r: i32)
        ensures
            r == extent(self.left, self.right),
    {
        span(self.left, self.right)
    }

    /// Height in pixels; 0 for an inverted rectangle.
    pub fn height(&self) -> (r: i32)
        ensures
            r == extent(self.top, self.bottom),
    {
        span(self.top, self.bottom)
    }

    /// Whether the rectangle has no area.
    pub fn is_empty(&self) -> (r: bool)
        ensures
            r == (self.right <= self.left || self.bottom <= self.top),
    {
        self.width() == 0 || self.height() == 0
    }
}

/// The drop-down rectangle of a monitor's work area: its full width, from its
/// top, as tall as `wanted` asks, but at least one pixel and at most the whole
/// work area. `None` means the window must not be moved: the work area has no
/// area, or there is no usable height.
pub open spec fn drop_down_rect(work: ScreenRect, wanted: Option<i32>) -> Option<ScreenRect> {
    match wanted {
        Some(h) => if work.right <= work.left || work.bottom <= work.top {
            None
        } else {
            let full = extent(work.top, work.bottom);
            let height = if h < 1 {
                1
            } else if h > full {
                full
            } else {
                h as int
            };
            Some(ScreenRect { bottom: (work.top + height) as i32, ..work })
        },
        None => None,
    }
}

/// The drop-down rectangle for a work area. `wanted` is the configured share
/// of the work area's height, rounded to pixels, or `None` where that share is
/// not a number.
pub fn quake_rect(work: ScreenRect, wanted: Option<i32>) -> (r: Option<ScreenRect>)
    ensures
        r == drop_down_rect(work, wanted),
{
    if work.is_empty() {
        return None;
    }
    match wanted {
        None => None,
        Some(h) => {
            let full: i32 = work.height();
            let height: i32 = if h < 1 {
                1
            } else if h > full {
                full
            } else {
                h
            };
            Some(ScreenRect::new(work.left, work.top, work.right, work.top + height))
        },
    }
}

/// The drop-down rectangle has area, starts at the work area's top, spans its
/// width, and never reaches below it.
pub proof fn drop_down_stays_in_work_area(work: ScreenRect, wanted: Option<i32>)
    ensures
        drop_down_rect(work, wanted) matches Some(r) ==> r.left == work.left && r.right == work.right
            && r.top == work.top && r.top < r.bottom <= work.bottom && r.left < r.right,
{
}

/// What a press of the hotkey does.
#[derive(Clone, Copy, Debug, PartialEq, Eq, Structural)]
pub enum QuakeAction {
    /// Position the window, show it and focus it.
    DropDown,
    /// Hide the window.
    Retract,
}

/// The window is hidden or minimized.
pub open spec fn out_of_view(visible: bool, minimized: bool) -> bool {
    !visible || minimized
}

/// Whether the window is hidden or minimized.
pub fn is_out_of_view(visible: bool, minimized: bool) -> (r: bool)
    ensures
        r == out_of_view(visible, minimized),
{
    !visible || minimized
}

/// The hotkey's decision from the live window state: only a window in view
/// that has the focus is hidden.
pub fn quake_action(visible: bool, minimized: bool, foreground: bool) -> (r: QuakeAction)
    ensures
        r == QuakeAction::Retract <==> !out_of_view(visible, minimized) && foreground,
{
    if is_out_of_view(visible, minimized) || !foreground {
        QuakeAction::DropDown
    } else {
        QuakeAction::Retract
    }
}

/// Remember the main window's handle; a zero handle is ignored.
pub fn prime_hwnd(slot: &mut isize, hwnd: isize)
    ensures
        *final(slot) == (if hwnd != 0 {
            hwnd
        } else {
            *old(slot)
        }),
{
    if hwnd != 0 {
        *slot = hwnd;
    }
}

/// The remembered handle, or `None` before one was.
pub fn cached(slot: isize) -> (r: Option<isize>)
    ensures
        r == (if slot != 0 {
            Some(slot)
        } else {
            None
        }),
{
    if slot != 0 {
        Some(slot)
    } else {
        None
    }
}

/// Where the claim on the hotkey stands.
#[derive(Clone, Copy, Debug, PartialEq, Eq, Structural)]
pub struct QuakeState {
    /// The main window's handle, 0 before it is known.
    pub hwnd: isize,
    /// The hotkey is claimed.
    pub registered: bool,
}

/// What to do next while arming the hotkey.
#[derive(Clone, Copy, Debug, PartialEq, Eq, Structural)]
pub enum ArmStep {
    /// Claim nothing.
    Stop,
    /// Install the message hook on this window.
    InstallHook(isize),
    /// Ask the system for the hotkey on this window.
    ClaimHotkey(isize),
    /// Take the message hook out of this window again.
    RemoveHook(isize),
}

impl QuakeState {
    /// Nothing is known and nothing is claimed.
    pub fn new() -> (r: QuakeState)
        ensures
            r == (QuakeState { hwnd: 0, registered: false }),
    {
        QuakeState { hwnd: 0, registered: false }
    }

    /// Begin to arm the hotkey: only where it is switched on, its combination
    /// is usable, the window is known and nothing is claimed yet.
    pub fn init(&self, enabled: bool, hotkey_usable: bool) -> (r: ArmStep)
        ensures
            r == (if enabled && hotkey_usable && self.hwnd != 0 && !self.registered {
                ArmStep::InstallHook(self.hwnd)
            } else {
                ArmStep::Stop
            }),
    {
        if !enabled || !hotkey_usable {
            return ArmStep::Stop;
        }
        match cached(self.hwnd) {
            None => ArmStep::Stop,
            Some(h) => if self.registered {
                ArmStep::Stop
            } else {
                ArmStep::InstallHook(h)
            },
        }
    }

    /// Go on once the hook was tried.
    pub fn hook_tried(&self, installed: bool) -> (r: ArmStep)
        ensures
            r == (if installed && self.hwnd != 0 {
                ArmStep::ClaimHotkey(self.hwnd)
            } else {
                ArmStep::Stop
            }),
    {
        if installed && self.hwnd != 0 {
            ArmStep::ClaimHotkey(self.hwnd)
        } else {
            ArmStep::Stop
        }
    }

    /// Finish once the hotkey was asked for: a refusal takes the hook out again
    /// and leaves nothing to release.
    pub fn claim_tried(&mut self, claimed: bool) -> (r: ArmStep)
        ensures
            final(self).hwnd == old(self).hwnd,
            final(self).registered == (claimed || old(self).registered),
            r == (if claimed {
                ArmStep::Stop
            } else {
                ArmStep::RemoveHook(old(self).hwnd)
            }),
    {
        if claimed {
            self.registered = true;
            ArmStep::Stop
        } else {
            ArmStep::RemoveHook(self.hwnd)
        }
    }

    /// Give the hotkey up. Tells whether there is one to release.
    pub fn unregister(&mut self) -> (r: bool)
        ensures
            r == old(self).registered,
            *final(self) == (QuakeState { registered: false, ..*old(self) }),
    {
        let had = self.registered;
        self.registered = false;
        had
    }

    /// What a press of the hotkey does, or `None` while the window is unknown.
    pub fn toggle(&self, visible: bool, minimized: bool, foreground: bool) -> (r: Option<QuakeAction>)
        ensures
            r is None <==> self.hwnd == 0,
            r matches Some(a) ==> (a == QuakeAction::Retract <==> !out_of_view(visible, minimized)
                && foreground),
    {
        match cached(self.hwnd) {
            None => None,
            Some(_) => Some(quake_action(visible, minimized, foreground)),
        }
    }
}

/// Whether the drop-down attaches to the thread that holds the foreground: a
/// known one other than its own.
pub fn attaches_to_foreground(foreground_thread: u32, own_thread: u32) -> (r: bool)
    ensures
        r == (foreground_thread != 0 && foreground_thread != own_thread),
{
    foreground_thread != 0 && foreground_thread != own_thread
}

/// What the message hook does with a message.
#[derive(Clone, Copy, Debug, PartialEq, Eq, Structural)]
pub enum HookAction {
    /// Toggle the window; the message goes no further.
    Toggle,
    /// Release the hotkey and the hook, then pass the message on.
    Release,
    /// Pass the message on.
    Pass,
}

/// Sort a message: the hotkey with our own id toggles, the window's end
/// releases, anything else passes.
pub fn hook_message(is_hotkey: bool, is_destroy: bool, id: i32) -> (r: HookAction)
    ensures
        r == (if is_hotkey && id == HOTKEY_ID {
            HookAction::Toggle
        } else if is_destroy {
            HookAction::Release
        } else {
            HookAction::Pass
        }),
{
    if is_hotkey && id == HOTKEY_ID {
        HookAction::Toggle
    } else if is_destroy {
        HookAction::Release
    } else {
        HookAction::Pass
    }
}

/// The id of the message hook on the main window.
pub const SUBCLASS_ID: usize = 0x00c0_0a4e;

/// The id of the hotkey within this process.
pub const HOTKEY_ID: i32 = 0x0a4e;

/// A distance is what lies between two edges, none where they are the wrong way
/// round, and never more than fits.
pub proof fn distances_are_never_negative(a: i32, b: i32)
    ensures
        0 <= extent(a, b) <= i32::MAX,
        b <= a ==> extent(a, b) == 0,
        0 < b - a <= 0x7fff_ffff ==> extent(a, b) == b - a,
        b - a > 0x7fff_ffff ==> extent(a, b) == 0x7fff_ffff,
{
}

/// The drop-down window is as tall as asked, at least one pixel and at most as
/// tall as the work area; there is one exactly where the work area has an area
/// and a height is asked for.
pub proof fn the_drop_down_is_as_tall_as_asked(work: ScreenRect, h: i32)
    requires
        work.left < work.right,
        work.top < work.bottom,
        work.bottom - work.top <= i32::MAX,
    ensures
        drop_down_rect(work, None) is None,
        drop_down_rect(work, Some(h)) matches Some(r) && {
            &&& 1 <= h <= work.bottom - work.top ==> r.bottom - r.top == h
            &&& h < 1 ==> r.bottom - r.top == 1
            &&& h > work.bottom - work.top ==> r.bottom == work.bottom
        },
{
}

/// A work area without an area takes no window.
pub proof fn an_empty_work_area_takes_no_window(work: ScreenRect, wanted: Option<i32>)
    requires
        work.right <= work.left || work.bottom <= work.top,
    ensures
        drop_down_rect(work, wanted) is None,
{
}

/// A window is in view exactly where it is shown and not minimized.
pub proof fn a_minimized_window_is_out_of_view(visible: bool, minimized: bool)
    ensures
        out_of_view(visible, true),
        out_of_view(false, minimized),
        !out_of_view(true, false),
{
}

/// Where a press of the hotkey leads: only a window in view that has the focus is
/// hidden, any other drops down.
pub proof fn the_hotkey_hides_what_is_in_front(
    visible: bool,
    minimized: bool,
    foreground: bool,
    r: QuakeAction,
)
    requires
        call_ensures(quake_action, (visible, minimized, foreground), r),
    ensures
        visible && !minimized && foreground ==> r == QuakeAction::Retract,
        !visible || minimized || !foreground ==> r == QuakeAction::DropDown,
{
}

/// The hotkey does nothing before the window is known, and what a press does
/// afterwards.
pub proof fn the_hotkey_waits_for_its_window(
    s: QuakeState,
    visible: bool,
    minimized: bool,
    foreground: bool,
    r: Option<QuakeAction>,
)
    requires
        call_ensures(QuakeState::toggle, (&s, visible, minimized, foreground), r),
    ensures
        s.hwnd == 0 ==> r is None,
        s.hwnd != 0 && visible && !minimized && foreground ==> r == Some(QuakeAction::Retract),
        s.hwnd != 0 && (!visible || minimized || !foreground) ==> r == Some(QuakeAction::DropDown),
{
}

/// The hotkey is armed once, where it is wanted, usable and has a window: first
/// the hook, then the claim.
pub proof fn the_hotkey_is_armed_in_steps(
    s: QuakeState,
    enabled: bool,
    usable: bool,
    installed: bool,
    first: ArmStep,
    second: ArmStep,
)
    requires
        call_ensures(QuakeState::init, (&s, enabled, usable), first),
        call_ensures(QuakeState::hook_tried, (&s, installed), second),
    ensures
        enabled && usable && s.hwnd != 0 && !s.registered ==> first == ArmStep::InstallHook(s.hwnd),
        !enabled || !usable || s.hwnd == 0 || s.registered ==> first == ArmStep::Stop,
        installed && s.hwnd != 0 ==> second == ArmStep::ClaimHotkey(s.hwnd),
        !installed || s.hwnd == 0 ==> second == ArmStep::Stop,
{
}

/// Of the messages the hook sees, its own hotkey toggles the window and the
/// window's end releases the hook; all others pass.
pub proof fn the_hook_knows_its_own_messages(
    is_hotkey: bool,
    is_destroy: bool,
    id: i32,
    r: HookAction,
)
    requires
        call_ensures(hook_message, (is_hotkey, is_destroy, id), r),
    ensures
        is_hotkey && id == 0x0a4e ==> r == HookAction::Toggle,
        (!is_hotkey || id != 0x0a4e) && is_destroy ==> r == HookAction::Release,
        (!is_hotkey || id != 0x0a4e) && !is_destroy ==> r == HookAction::Pass,
{
}

/// A window handle is known once it is not zero; the drop-down attaches to the
/// thread in front where that is a known one and not its own.
pub proof fn handles_and_threads_are_known_by_number(
    slot: isize,
    front: u32,
    own: u32,
    r: Option<isize>,
    a: bool,
)
    requires
        call_ensures(cached, (slot,), r),
        call_ensures(attaches_to_foreground, (front, own), a),
    ensures
        slot == 0 ==> r is None,
        slot != 0 ==> r == Some(slot),
        front == 0 ==> !a,
        front == own ==> !a,
        front != 0 && front != own ==> a,
{
}

/// A rectangle is as wide and as tall as its edges lie apart, and empty where
/// they do not.
pub proof fn rectangles_are_measured_by_their_edges(s: ScreenRect, w: i32, h: i32, e: bool)
    requires
        call_ensures(ScreenRect::width, (&s,), w),
        call_ensures(ScreenRect::height, (&s,), h),
        call_ensures(ScreenRect::is_empty, (&s,), e),
    ensures
        s.left < s.right && s.right - s.left <= i32::MAX ==> s.left + w == s.right,
        s.top < s.bottom && s.bottom - s.top <= i32::MAX ==> s.top + h == s.bottom,
        s.right <= s.left ==> w == 0 && e,
        s.bottom <= s.top ==> h == 0 && e,
        s.left < s.right && s.top < s.bottom ==> !e,
{
}

/// A claimed hotkey is held; where the system refuses it, the hook is taken out of
/// the window again. The window stays the same.
pub proof fn a_claimed_hotkey_is_held(s: &mut QuakeState, claimed: bool, r: ArmStep)
    requires
        call_ensures(QuakeState::claim_tried, (s, claimed), r),
    ensures
        claimed ==> r == ArmStep::Stop && final(s).registered,
        !claimed ==> r == ArmStep::RemoveHook(old(s).hwnd),
        !claimed ==> final(s).registered == old(s).registered,
        final(s).hwnd == old(s).hwnd,
{
}

/// A hotkey is given up if it was held, and then not a second time.
pub proof fn a_hotkey_is_given_up_once(s: &mut QuakeState, t: &mut QuakeState, r: bool, again: bool)
    requires
        call_ensures(QuakeState::unregister, (s,), r),
        call_ensures(QuakeState::unregister, (t,), again),
        *old(t) == *final(s),
    ensures
        r == old(s).registered,
        !again,
        !final(s).registered,
        final(s).hwnd == old(s).hwnd,
        *final(t) == *final(s),
{
}

/// A window that is known is remembered; an unknown one does not take its place.
pub proof fn a_known_window_is_remembered(slot: &mut isize, hwnd: isize)
    requires
        call_ensures(prime_hwnd, (slot, hwnd), ()),
    ensures
        hwnd != 0 ==> *final(slot) == hwnd,
        hwnd == 0 ==> *final(slot) == *old(slot),
{
}

} // verus!
