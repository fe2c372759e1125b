//! Noticing that the config file changed on disk.

use crate::text;
use crate::text::copy_opt;
use vstd::prelude::*;

verus! {

/// The least time between two looks at the file, in milliseconds.
pub const POLL_INTERVAL_MS: u64 = 400;

/// The identity of the file's contents: its length and, where the file system
/// reports one, its modification time.
#[derive(Clone, Copy, Debug, PartialEq, Eq)]
pub struct FileStamp {
    pub len: u64,
    pub mtime: Option<i128>,
}

fn same_stamp(a: &Option<FileStamp>, b: &Option<FileStamp>) -> (r: bool)
    ensures
        r == (*a == *b),
{
    match (a, b) {
        (Some(x), Some(y)) => x.len == y.len && match (x.mtime, y.mtime) {
            (Some(s), Some(t)) => s == t,
            (None, None) => true,
            _ => false,
        },
        (None, None) => true,
        _ => false,
    }
}

/// What a watcher remembers of its file.
pub struct WatchState {
    /// The stamp whose contents were last accepted, `None` for an absent file.
    pub stamp: Option<FileStamp>,
    /// When the file was last looked at, in milliseconds.
    pub last_poll: Option<u64>,
}

/// A look at the file is due: there was none, or the last one is an interval
/// old.
pub open spec fn due(s: WatchState, now: u64) -> bool {
    match s.last_poll {
        Some(last) => now >= last + POLL_INTERVAL_MS,
        None => true,
    }
}

/// The state after a poll at `now` that found `current`.
pub open spec fn polled(s: WatchState, now: u64, current: Option<FileStamp>) -> WatchState {
    if due(s, now) {
        WatchState { stamp: current, last_poll: Some(now) }
    } else {
        s
    }
}

/// A poll at `now` that found `current` reports a change.
pub open spec fn reported(s: WatchState, now: u64, current: Option<FileStamp>) -> bool {
    due(s, now) && current is Some && current != s.stamp
}

/// A change detector for one file. The default watches nothing.
pub struct ConfigWatcher {
    path: Option<String>,
    state: WatchState,
}

impl ConfigWatcher {
    /// The watched path.
    pub closed spec fn watched(self) -> Option<Seq<char>> {
        text::opt_text(self.path)
    }

    /// What the watcher remembers.
    pub closed spec fn memory(self) -> WatchState {
        self.state
    }

    /// A watcher of nothing.
    pub fn new() -> (r: ConfigWatcher)
        ensures
            r.watched() is None,
            r.memory() == (WatchState { stamp: None, last_poll: None }),
    {
        ConfigWatcher { path: None, state: WatchState { stamp: None, last_poll: None } }
    }

    /// Watch `path`, whose contents with the stamp `current` were just read.
    pub fn watching(path: String, current: Option<FileStamp>) -> (r: ConfigWatcher)
        ensures
            r.watched() == Some(path@),
            r.memory() == (WatchState { stamp: current, last_poll: None }),
    {
        ConfigWatcher { path: Some(path), state: WatchState { stamp: current, last_poll: None } }
    }

    /// The path being watched, if any.
    pub fn path(&self) -> (r: Option<String>)
        ensures
            text::opt_text(r) == self.watched(),
    {
        copy_opt(&self.path)
    }

    /// Accept the file as it is after our own write, without reporting a change.
    pub fn mark_self_written(&mut self, current: Option<FileStamp>)
        ensures
            final(self).watched() == old(self).watched(),
            final(self).memory() == (if old(self).watched() is Some {
                WatchState { stamp: current, ..old(self).memory() }
            } else {
                old(self).memory()
            }),
    {
        if self.path.is_some() {
            self.state = WatchState { stamp: current, last_poll: self.state.last_poll };
        }
    }

    /// Whether a poll at `now` looks at the file at all.
    pub fn stat_due(&self, now: u64) -> (r: bool)
        ensures
            r == (self.watched() is Some && due(self.memory(), now)),
    {
        if self.path.is_none() {
            return false;
        }
        match self.state.last_poll {
            Some(last) => now.saturating_sub(last) >= POLL_INTERVAL_MS,
            None => true,
        }
    }

    /// The watched path where the file changed since it was last accepted.
    /// `current` is the file's stamp, looked at only where [`stat_due`] says so.
    ///
    /// [`stat_due`]: ConfigWatcher::stat_due
    pub fn poll(&mut self, now: u64, current: Option<FileStamp>) -> (r: Option<String>)
        ensures
            final(self).watched() == old(self).watched(),
            old(self).watched() is None ==> r is None && final(self).memory() == old(self).memory(),
            old(self).watched() is Some ==> final(self).memory() == polled(
                old(self).memory(),
                now,
                current,
            ) && text::opt_text(r) == (if reported(old(self).memory(), now, current) {
                old(self).watched()
            } else {
                None
            }),
    {
        if !self.stat_due(now) {
            return None;
        }
        let before = self.state.stamp;
        self.state = WatchState { stamp: current, last_poll: Some(now) };
        if current.is_none() || same_stamp(&current, &before) {
            None
        } else {
            copy_opt(&self.path)
        }
    }
}

/// A file that was not touched since it was read is never reported.
pub proof fn an_unchanged_file_is_not_reported(current: Option<FileStamp>, last: Option<u64>, now: u64)
    ensures
        !reported(WatchState { stamp: current, last_poll: last }, now, current),
{
}

/// An edit is reported once: by the next look at the file, and by no later one
/// that finds the same contents.
pub proof fn an_edit_is_reported_once(s: WatchState, now: u64, later: u64, edited: FileStamp)
    requires
        due(s, now),
        s.stamp != Some(edited),
    ensures
        reported(s, now, Some(edited)),
        !reported(polled(s, now, Some(edited)), later, Some(edited)),
{
}

/// A look inside the interval reports nothing and changes nothing, whatever
/// stands on disk, so the edit is still reported afterwards.
pub proof fn throttled_polls_change_nothing(s: WatchState, now: u64, current: Option<FileStamp>)
    requires
        !due(s, now),
    ensures
        !reported(s, now, current),
        polled(s, now, current) == s,
{
}

/// A file that vanished is not reported; its return is, with whatever contents.
pub proof fn a_vanished_file_is_reported_on_return(
    s: WatchState,
    now: u64,
    later: u64,
    back: FileStamp,
)
    requires
        due(s, now),
        later >= now + POLL_INTERVAL_MS,
    ensures
        !reported(s, now, None),
        reported(polled(s, now, None), later, Some(back)),
{
}

/// A look at the file is due at once and then four hundred milliseconds after the
/// last one; it takes the stamp it found, and reports a file that is there and
/// has another stamp than before.
pub proof fn the_file_is_looked_at_in_intervals(
    s: WatchState,
    now: u64,
    last: u64,
    current: Option<FileStamp>,
)
    ensures
        s.last_poll is None ==> due(s, now),
        s.last_poll == Some(last) ==> (due(s, now) <==> now >= last + 400),
        due(s, now) ==> polled(s, now, current).stamp == current && polled(
            s,
            now,
            current,
        ).last_poll == Some(now),
        due(s, now) && current is Some && current != s.stamp ==> reported(s, now, current),
        reported(s, now, current) ==> due(s, now) && current is Some && current != s.stamp,
{
}

/// What the program has written itself is not reported to it.
pub proof fn own_writes_are_not_reported(
    w: &mut ConfigWatcher,
    u: &mut ConfigWatcher,
    current: Option<FileStamp>,
    now: u64,
    r: Option<String>,
)
    requires
        call_ensures(ConfigWatcher::mark_self_written, (w, current), ()),
        call_ensures(ConfigWatcher::poll, (u, now, current), r),
        old(u).watched() == final(w).watched(),
        old(u).memory() == final(w).memory(),
    ensures
        r is None,
        final(u).watched() == old(w).watched(),
{
}

/// A report names the watched file, and comes where the file is there and differs
/// from what was last seen, if the last look is long enough ago; a watcher of
/// nothing reports nothing.
pub proof fn a_change_names_the_watched_file(
    w: &mut ConfigWatcher,
    now: u64,
    current: Option<FileStamp>,
    r: Option<String>,
)
    requires
        call_ensures(ConfigWatcher::poll, (w, now, current), r),
    ensures
        r is Some ==> text::opt_text(r) == old(w).watched(),
        r is Some ==> current is Some && current != old(w).memory().stamp,
        old(w).watched() is Some && old(w).memory().last_poll is None && current is Some
            && current != old(w).memory().stamp ==> r is Some,
        old(w).watched() is None ==> final(w).memory() == old(w).memory(),
        r is Some ==> final(w).memory().stamp == current && final(w).memory().last_poll == Some(
            now,
        ),
{
}

} // verus!
