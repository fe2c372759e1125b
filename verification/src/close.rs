//! What a request to close the window does.

use crate::text;
use crate::text::decimal_of;
use vstd::prelude::*;

verus! {

/// A command of the window's caption buttons.
#[derive(Clone, Copy, Debug, PartialEq, Eq, Structural)]
pub enum WindowCmd {
    /// Minimize the window.
    Minimize,
    /// Toggle between maximized and restored.
    ToggleMaximize,
    /// Close the window.
    Close,
}

/// What a close request comes to.
#[derive(Clone, Copy, Debug, PartialEq, Eq, Structural)]
pub enum CloseOutcome {
    /// Shut down and exit.
    Exit,
    /// Hold the close and ask first.
    Confirm {
        /// How many panes have a command in flight.
        busy_panes: usize,
    },
    /// Hide the window to the tray.
    HideToTray,
}

/// The preferences of the window.
#[derive(Clone, Copy, Debug, PartialEq, Eq, Structural)]
pub struct WindowConfig {
    /// Ask before closing over a running command.
    pub warn_on_close_running: bool,
    /// Closing hides the window where there is a tray icon.
    pub close_to_tray: bool,
    /// The room around the grid, in points.
    pub padding: u16,
}

/// Record that the next close request is a real quit.
pub fn request_explicit_quit(flag: &mut bool)
    ensures
        *final(flag),
{
    *flag = true;
}

/// Consume the quit request: true once for each request.
pub fn take_explicit_quit(flag: &mut bool) -> (r: bool)
    ensures
        r == *old(flag),
        !*final(flag),
{
    let was = *flag;
    *flag = false;
    was
}

/// What a close request comes to: a running command holds it unless the user
/// has said yes already; then a quit exits, and a plain close hides to the tray
/// where that is wanted and there is a tray icon, and exits otherwise.
pub open spec fn outcome(
    prefs: WindowConfig,
    busy: usize,
    confirmed: bool,
    tray: bool,
    explicit_quit: bool,
) -> CloseOutcome {
    if prefs.warn_on_close_running && busy > 0 && !confirmed {
        CloseOutcome::Confirm { busy_panes: busy }
    } else if !explicit_quit && prefs.close_to_tray && tray {
        CloseOutcome::HideToTray
    } else {
        CloseOutcome::Exit
    }
}

/// Whether the guard holds a close.
pub fn close_guard(prefs: &WindowConfig, busy: usize, confirmed: bool) -> (r: bool)
    ensures
        r == (prefs.warn_on_close_running && busy > 0 && !confirmed),
{
    prefs.warn_on_close_running && busy > 0 && !confirmed
}

/// Whether a close that proceeds hides the window to the tray.
pub fn close_action(prefs: &WindowConfig, tray: bool, explicit_quit: bool) -> (r: bool)
    ensures
        r == (!explicit_quit && prefs.close_to_tray && tray),
{
    !explicit_quit && prefs.close_to_tray && tray
}

/// A quit that the guard lets through exits, whatever the tray preference.
pub proof fn an_explicit_quit_exits(prefs: WindowConfig, busy: usize, confirmed: bool, tray: bool)
    ensures
        outcome(prefs, busy, confirmed, tray, true) is Exit || (outcome(
            prefs,
            busy,
            confirmed,
            tray,
            true,
        ) is Confirm && prefs.warn_on_close_running && busy > 0 && !confirmed),
{
}

/// Without a tray icon the window is never hidden.
pub proof fn no_tray_never_hides(
    prefs: WindowConfig,
    busy: usize,
    confirmed: bool,
    explicit_quit: bool,
)
    ensures
        !(outcome(prefs, busy, confirmed, false, explicit_quit) is HideToTray),
{
}

/// The guard comes first: a running command holds the close even where the
/// window would only be hidden, and carries the number of busy panes.
pub proof fn the_guard_comes_first(
    prefs: WindowConfig,
    busy: usize,
    tray: bool,
    explicit_quit: bool,
)
    requires
        prefs.warn_on_close_running,
        busy > 0,
    ensures
        outcome(prefs, busy, false, tray, explicit_quit) == (CloseOutcome::Confirm {
            busy_panes: busy,
        }),
{
}

/// A confirmed close is never held again.
pub proof fn a_confirmed_close_proceeds(
    prefs: WindowConfig,
    busy: usize,
    tray: bool,
    explicit_quit: bool,
)
    ensures
        !(outcome(prefs, busy, true, tray, explicit_quit) is Confirm),
{
}

/// Where closing stands.
#[derive(Clone, Copy, Debug, PartialEq, Eq)]
pub struct CloseState {
    /// A tray icon exists.
    pub tray_available: bool,
    /// The confirmation is up, with the number of busy panes it names.
    pub close_confirm: Option<usize>,
    /// The request that waits for the confirmation was a quit that was asked
    /// for.
    pub held_quit: bool,
    /// The user has said yes.
    pub close_confirmed: bool,
    /// The last decision.
    pub last_close_outcome: Option<CloseOutcome>,
    /// How many requests came to an exit.
    pub exit_requests: u32,
}

/// What to carry out for a close request.
#[derive(Clone, Copy, Debug, PartialEq, Eq, Structural)]
pub struct CloseEffects {
    /// Cancel the close that the system has already accepted.
    pub cancel_close: bool,
    /// Hide the window.
    pub hide: bool,
    /// Save the config, end every shell, and exit.
    pub shut_down: bool,
}

/// The decision recorded in the state.
pub open spec fn decided(
    s: CloseState,
    prefs: WindowConfig,
    busy: usize,
    explicit_quit: bool,
) -> CloseState {
    CloseState {
        last_close_outcome: Some(
            outcome(prefs, busy, s.close_confirmed, s.tray_available, explicit_quit),
        ),
        ..s
    }
}

/// The state after a close request was carried out.
pub open spec fn after_request(
    s: CloseState,
    prefs: WindowConfig,
    busy: usize,
    explicit_quit: bool,
) -> CloseState {
    let d = decided(s, prefs, busy, explicit_quit);
    match outcome(prefs, busy, s.close_confirmed, s.tray_available, explicit_quit) {
        CloseOutcome::Confirm { busy_panes } => CloseState {
            close_confirm: Some(busy_panes),
            held_quit: explicit_quit || s.held_quit,
            ..d
        },
        CloseOutcome::HideToTray => CloseState {
            close_confirm: None,
            held_quit: false,
            close_confirmed: false,
            ..d
        },
        CloseOutcome::Exit => CloseState {
            close_confirm: None,
            held_quit: false,
            exit_requests: (d.exit_requests + 1) as u32,
            ..d
        },
    }
}

/// What a close request has carried out.
pub open spec fn request_effects(o: CloseOutcome, os_close: bool) -> CloseEffects {
    CloseEffects {
        cancel_close: os_close && !(o is Exit),
        hide: o is HideToTray,
        shut_down: o is Exit,
    }
}

/// Nothing was asked yet, and no tray icon is known.
pub open spec fn nothing_asked() -> CloseState {
    CloseState {
        tray_available: false,
        close_confirm: None,
        held_quit: false,
        close_confirmed: false,
        last_close_outcome: None,
        exit_requests: 0,
    }
}

impl CloseState {
    /// Nothing was asked yet, and no tray icon is known.
    pub fn new() -> (r: CloseState)
        ensures
            r == nothing_asked(),
    {
        CloseState {
            tray_available: false,
            close_confirm: None,
            held_quit: false,
            close_confirmed: false,
            last_close_outcome: None,
            exit_requests: 0,
        }
    }

    /// Decide a close request and record the decision.
    pub fn close_decision(&mut self, prefs: &WindowConfig, busy: usize, explicit_quit: bool) -> (r:
        CloseOutcome)
        ensures
            *final(self) == decided(*old(self), *prefs, busy, explicit_quit),
            r == outcome(
                *prefs,
                busy,
                old(self).close_confirmed,
                old(self).tray_available,
                explicit_quit,
            ),
    {
        let o = if close_guard(prefs, busy, self.close_confirmed) {
            CloseOutcome::Confirm { busy_panes: busy }
        } else if close_action(prefs, self.tray_available, explicit_quit) {
            CloseOutcome::HideToTray
        } else {
            CloseOutcome::Exit
        };
        self.last_close_outcome = Some(o);
        o
    }

    /// Decide a close request and carry it out. `os_close` marks a request the
    /// system has already accepted, which must be cancelled unless the shell
    /// exits.
    pub fn handle_close_request(
        &mut self,
        prefs: &WindowConfig,
        busy: usize,
        explicit_quit: bool,
        os_close: bool,
    ) -> (r: CloseEffects)
        requires
            old(self).exit_requests < u32::MAX,
        ensures
            *final(self) == after_request(*old(self), *prefs, busy, explicit_quit),
            r == request_effects(
                outcome(
                    *prefs,
                    busy,
                    old(self).close_confirmed,
                    old(self).tray_available,
                    explicit_quit,
                ),
                os_close,
            ),
    {
        match self.close_decision(prefs, busy, explicit_quit) {
            CloseOutcome::Confirm { busy_panes } => {
                self.close_confirm = Some(busy_panes);
                self.held_quit = explicit_quit || self.held_quit;
                CloseEffects { cancel_close: os_close, hide: false, shut_down: false }
            },
            CloseOutcome::HideToTray => {
                self.close_confirm = None;
                self.held_quit = false;
                self.close_confirmed = false;
                CloseEffects { cancel_close: os_close, hide: true, shut_down: false }
            },
            CloseOutcome::Exit => {
                self.close_confirm = None;
                self.held_quit = false;
                self.exit_requests = self.exit_requests + 1;
                CloseEffects { cancel_close: false, hide: false, shut_down: true }
            },
        }
    }

    /// Answer the confirmation: yes closes by the same path with the answer
    /// recorded, as a quit where a quit was held; no keeps working and forgets
    /// the answer and what was held; yes wins where both are given. Nothing
    /// happens where no confirmation is up.
    pub fn answer_confirmation(
        &mut self,
        yes: bool,
        no: bool,
        prefs: &WindowConfig,
        busy: usize,
    ) -> (r: Option<CloseEffects>)
        requires
            old(self).exit_requests < u32::MAX,
        ensures
            *final(self) == answered(*old(self), yes, no, *prefs, busy),
            r == (if old(self).close_confirm is Some && yes {
                Some(
                    request_effects(
                        outcome(
                            *prefs,
                            busy,
                            true,
                            old(self).tray_available,
                            old(self).held_quit,
                        ),
                        false,
                    ),
                )
            } else {
                None
            }),
    {
        if self.close_confirm.is_none() {
            return None;
        }
        if yes {
            self.close_confirmed = true;
            self.close_confirm = None;
            let quit = self.held_quit;
            Some(self.handle_close_request(prefs, busy, quit, false))
        } else {
            if no {
                self.close_confirm = None;
                self.held_quit = false;
                self.close_confirmed = false;
            }
            None
        }
    }
}

/// The state after the confirmation was answered.
pub open spec fn answered(
    s: CloseState,
    yes: bool,
    no: bool,
    prefs: WindowConfig,
    busy: usize,
) -> CloseState {
    if s.close_confirm is None {
        s
    } else if yes {
        after_request(
            CloseState { close_confirmed: true, close_confirm: None, ..s },
            prefs,
            busy,
            s.held_quit,
        )
    } else if no {
        CloseState { close_confirm: None, held_quit: false, close_confirmed: false, ..s }
    } else {
        s
    }
}

/// Saying yes always ends in an exit or a hidden window and takes the
/// confirmation down, however many commands still run.
pub proof fn saying_yes_closes(s: CloseState, prefs: WindowConfig, busy: usize, no: bool)
    requires
        s.close_confirm is Some,
    ensures
        ({
            let t = answered(s, true, no, prefs, busy);
            &&& t.close_confirm is None
            &&& t.last_close_outcome == Some(CloseOutcome::Exit) || t.last_close_outcome == Some(
                CloseOutcome::HideToTray,
            )
        }),
{
}

/// A quit that was asked for exits: at once, or once the confirmation that
/// holds it is answered with yes, even where closing the window hides it and
/// whatever other close requests came while it was held.
pub proof fn a_held_quit_exits(
    s: CloseState,
    prefs: WindowConfig,
    busy: usize,
    later: Seq<bool>,
    then_busy: usize,
    no: bool,
)
    requires
        prefs.warn_on_close_running,
        busy > 0,
        !s.close_confirmed,
        s.exit_requests < u32::MAX,
    ensures
        ({
            let held = asked_again(after_request(s, prefs, busy, true), prefs, busy, later);
            let t = answered(held, true, no, prefs, then_busy);
            &&& held.close_confirm == Some(busy)
            &&& t.last_close_outcome == Some(CloseOutcome::Exit)
            &&& t.exit_requests == s.exit_requests + 1
            &&& t.close_confirm is None
            &&& !t.held_quit
        }),
{
    lemma_quit_stays_held(s, prefs, busy, later);
}

/// The state after more close requests came, each a quit or not, over the same
/// busy panes.
pub open spec fn asked_again(
    s: CloseState,
    prefs: WindowConfig,
    busy: usize,
    quits: Seq<bool>,
) -> CloseState
    decreases quits.len(),
{
    if quits.len() == 0 {
        s
    } else {
        after_request(asked_again(s, prefs, busy, quits.drop_last()), prefs, busy, quits.last())
    }
}

/// A held quit stays held while the guard holds every later request.
proof fn lemma_quit_stays_held(
    s: CloseState,
    prefs: WindowConfig,
    busy: usize,
    later: Seq<bool>,
)
    requires
        prefs.warn_on_close_running,
        busy > 0,
        !s.close_confirmed,
    ensures
        ({
            let held = asked_again(after_request(s, prefs, busy, true), prefs, busy, later);
            &&& held.close_confirm == Some(busy)
            &&& held.held_quit
            &&& !held.close_confirmed
            &&& held.exit_requests == s.exit_requests
        }),
    decreases later.len(),
{
    if later.len() > 0 {
        lemma_quit_stays_held(s, prefs, busy, later.drop_last());
    }
}

/// What is held is forgotten with the answer no: a later close of the window is
/// an ordinary one.
pub proof fn saying_no_forgets_the_quit(s: CloseState, prefs: WindowConfig, busy: usize)
    requires
        s.close_confirm is Some,
    ensures
        !answered(s, false, true, prefs, busy).held_quit,
{
}

/// Saying no takes the confirmation down and is not remembered as consent: the
/// next close over a running command asks again.
pub proof fn saying_no_asks_again(
    s: CloseState,
    prefs: WindowConfig,
    busy: usize,
    explicit_quit: bool,
)
    requires
        s.close_confirm is Some,
        prefs.warn_on_close_running,
        busy > 0,
    ensures
        ({
            let t = answered(s, false, true, prefs, busy);
            &&& t.close_confirm is None
            &&& t.exit_requests == s.exit_requests
            &&& after_request(t, prefs, busy, explicit_quit).close_confirm == Some(busy)
        }),
{
}

/// A close that ended in a hidden window forgets the answer, so the next one
/// asks again.
pub proof fn hiding_forgets_the_answer(
    s: CloseState,
    prefs: WindowConfig,
    busy: usize,
    explicit_quit: bool,
)
    requires
        outcome(prefs, busy, s.close_confirmed, s.tray_available, explicit_quit) is HideToTray,
    ensures
        !after_request(s, prefs, busy, explicit_quit).close_confirmed,
{
}

/// The question the confirmation asks.
pub open spec fn confirm_text(busy: usize) -> Seq<char> {
    text::decimal(busy as nat) + (if busy == 1 {
        " pane"@
    } else {
        " panes"@
    }) + " still have a command running. Closing ends them immediately."@
}

/// The question the confirmation asks.
pub fn confirm_message(busy: usize) -> (r: String)
    ensures
        r@ == confirm_text(busy),
{
    let mut out = decimal_of(busy as u64);
    if busy == 1 {
        out.append(" pane");
    } else {
        out.append(" panes");
    }
    out.append(" still have a command running. Closing ends them immediately.");
    out
}

/// What a close request comes to, for every answer there is: it is held only
/// over a running command of which the user wants to be warned and has not said
/// yes; else a plain close hides the window where that is wanted and there is a
/// tray icon, and every other exits.
pub proof fn a_close_request_has_one_outcome(
    prefs: WindowConfig,
    busy: usize,
    confirmed: bool,
    tray: bool,
    quit: bool,
)
    ensures
        outcome(prefs, busy, confirmed, tray, quit) matches CloseOutcome::Confirm { busy_panes }
            ==> busy_panes == busy && busy > 0 && !confirmed && prefs.warn_on_close_running,
        !prefs.warn_on_close_running || busy == 0 || confirmed ==> {
            &&& prefs.close_to_tray && tray && !quit ==> outcome(prefs, busy, confirmed, tray, quit)
                == CloseOutcome::HideToTray
            &&& !prefs.close_to_tray ==> outcome(prefs, busy, confirmed, tray, quit)
                == CloseOutcome::Exit
            &&& !tray ==> outcome(prefs, busy, confirmed, tray, quit) == CloseOutcome::Exit
            &&& quit ==> outcome(prefs, busy, confirmed, tray, quit) == CloseOutcome::Exit
        },
{
}

/// Carrying a close request out: one that is held puts the question up and says
/// no more, a hidden window takes the question down and forgets the answer, an
/// exit is counted. The decision is noted each time, and whether there is a tray
/// icon never changes.
pub proof fn a_close_request_is_carried_out(
    s: CloseState,
    prefs: WindowConfig,
    busy: usize,
    quit: bool,
)
    requires
        s.exit_requests < u32::MAX,
    ensures
        ({
            let o = outcome(prefs, busy, s.close_confirmed, s.tray_available, quit);
            let t = after_request(s, prefs, busy, quit);
            &&& t.last_close_outcome == Some(o)
            &&& t.tray_available == s.tray_available
            &&& decided(s, prefs, busy, quit) == (CloseState { last_close_outcome: Some(o), ..s })
            &&& o is Confirm ==> t.close_confirm == Some(busy) && t.held_quit == (quit
                || s.held_quit) && t.close_confirmed == s.close_confirmed && t.exit_requests
                == s.exit_requests
            &&& o is HideToTray ==> t.close_confirm is None && !t.held_quit && !t.close_confirmed
                && t.exit_requests == s.exit_requests
            &&& o is Exit ==> t.close_confirm is None && !t.held_quit && t.close_confirmed
                == s.close_confirmed && t.exit_requests == s.exit_requests + 1
        }),
{
}

/// What is to be done for each outcome: an exit shuts down, a hidden window is
/// hidden, and a close the system has accepted is cancelled unless the shell
/// exits.
pub proof fn outcomes_have_their_effects(busy_panes: usize, os_close: bool)
    ensures
        request_effects(CloseOutcome::Exit, os_close) == (CloseEffects {
            cancel_close: false,
            hide: false,
            shut_down: true,
        }),
        request_effects(CloseOutcome::HideToTray, os_close) == (CloseEffects {
            cancel_close: os_close,
            hide: true,
            shut_down: false,
        }),
        request_effects(CloseOutcome::Confirm { busy_panes }, os_close) == (CloseEffects {
            cancel_close: os_close,
            hide: false,
            shut_down: false,
        }),
{
}

/// An answer counts only while the question is up; without one it stays up; yes
/// wins over no.
pub proof fn only_a_question_can_be_answered(
    s: CloseState,
    yes: bool,
    no: bool,
    prefs: WindowConfig,
    busy: usize,
)
    ensures
        s.close_confirm is None ==> answered(s, yes, no, prefs, busy) == s,
        answered(s, false, false, prefs, busy) == s,
        answered(s, true, true, prefs, busy) == answered(s, true, false, prefs, busy),
        s.close_confirm is Some ==> answered(s, false, true, prefs, busy) == (CloseState {
            close_confirm: None,
            held_quit: false,
            close_confirmed: false,
            ..s
        }),
{
}

/// At the start nothing was asked, confirmed or decided, and no tray icon is
/// known.
pub proof fn closing_starts_with_nothing_asked()
    ensures
        !nothing_asked().tray_available && !nothing_asked().held_quit
            && !nothing_asked().close_confirmed,
        nothing_asked().close_confirm is None && nothing_asked().last_close_outcome is None,
        nothing_asked().exit_requests == 0,
{
}

/// The question names the number of busy panes, one or several.
pub proof fn the_question_counts_the_panes(busy: usize)
    ensures
        busy == 1 ==> confirm_text(busy) == seq!['1', ' ', 'p', 'a', 'n', 'e']
            + " still have a command running. Closing ends them immediately."@,
        busy != 1 ==> confirm_text(busy) == text::decimal(busy as nat) + seq![
            ' ',
            'p',
            'a',
            'n',
            'e',
            's',
        ] + " still have a command running. Closing ends them immediately."@,
{
    reveal_strlit(" pane");
    reveal_strlit(" panes");
    assert(" panes"@ =~= seq![' ', 'p', 'a', 'n', 'e', 's']);
    assert(text::decimal(1) + " pane"@ =~= seq!['1', ' ', 'p', 'a', 'n', 'e']);
}

/// A close is held where the user wants to be warned, a command runs and they
/// have not said yes; one that proceeds hides the window where that is wanted,
/// there is a tray icon and no quit was asked for.
pub proof fn the_guard_and_the_tray_decide(
    prefs: WindowConfig,
    busy: usize,
    confirmed: bool,
    tray: bool,
    quit: bool,
    held: bool,
    hides: bool,
)
    requires
        call_ensures(close_guard, (&prefs, busy, confirmed), held),
        call_ensures(close_action, (&prefs, tray, quit), hides),
    ensures
        prefs.warn_on_close_running && busy > 0 && !confirmed ==> held,
        !prefs.warn_on_close_running || busy == 0 || confirmed ==> !held,
        prefs.close_to_tray && tray && !quit ==> hides,
        !prefs.close_to_tray || !tray || quit ==> !hides,
{
}

/// Saying yes carries out what was asked, and nothing else does: a quit that was
/// asked for exits, and so does a close where there is no tray to go to.
pub proof fn only_yes_carries_out_the_close(
    s: &mut CloseState,
    yes: bool,
    no: bool,
    prefs: &WindowConfig,
    busy: usize,
    r: Option<CloseEffects>,
)
    requires
        call_ensures(CloseState::answer_confirmation, (s, yes, no, prefs, busy), r),
    ensures
        r is Some <==> yes && old(s).close_confirm is Some,
        r matches Some(e) ==> !e.cancel_close && e.shut_down == !e.hide,
        r matches Some(e) ==> (e.hide <==> prefs.close_to_tray && old(s).tray_available && !old(
            s,
        ).held_quit),
        old(s).close_confirm is Some && (yes || no) ==> final(s).close_confirm is None,
        old(s).close_confirm is None ==> *final(s) == *old(s),
        !yes && !no ==> *final(s) == *old(s),
{
}

/// A close request asks, hides or exits: it asks first where commands run and the
/// user wants to be warned, hides where it may go to the tray, and else exits; a
/// close that the system has accepted is taken back unless it exits.
pub proof fn a_close_request_comes_to_one_end(
    s: &mut CloseState,
    prefs: &WindowConfig,
    busy: usize,
    quit: bool,
    os_close: bool,
    r: CloseEffects,
)
    requires
        call_ensures(CloseState::handle_close_request, (s, prefs, busy, quit, os_close), r),
    ensures
        ({
            let asks = prefs.warn_on_close_running && busy > 0 && !old(s).close_confirmed;
            let hides = !asks && !quit && prefs.close_to_tray && old(s).tray_available;
            &&& asks ==> !r.hide && !r.shut_down && final(s).close_confirm == Some(busy)
            &&& hides ==> r.hide && !r.shut_down
            &&& !asks && !hides ==> !r.hide && r.shut_down
            &&& r.cancel_close <==> os_close && (asks || hides)
        }),
{
}

} // verus!
