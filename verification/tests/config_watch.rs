use c0pl4nd::config_watch::{ConfigWatcher, FileStamp, POLL_INTERVAL_MS};

/// A file as the watcher sees it, counting how often it is looked at.
struct Watched {
    stamp: Option<FileStamp>,
    looks: usize,
}

fn stamp(len: u64, mtime: i128) -> Option<FileStamp> {
    Some(FileStamp { len, mtime: Some(mtime) })
}

fn poll(w: &mut ConfigWatcher, f: &mut Watched, now: u64) -> Option<String> {
    if w.stat_due(now) {
        f.looks += 1;
        w.poll(now, f.stamp)
    } else {
        w.poll(now, None)
    }
}

fn fresh() -> (ConfigWatcher, Watched) {
    let f = Watched { stamp: stamp(22, 1000), looks: 0 };
    (ConfigWatcher::watching("config.toml".to_string(), f.stamp), f)
}

#[test]
fn a_watcher_with_no_path_never_reports_a_change() {
    let mut w = ConfigWatcher::new();
    assert!(
        w.poll(0, stamp(1, 1)).is_none(),
        "a watcher with no resolvable config path must never hot-reload"
    );
    assert!(!w.stat_due(0));
    assert_eq!(w.path(), None);
}

#[test]
fn the_first_poll_of_an_unchanged_file_reports_nothing() {
    let (mut w, mut f) = fresh();
    assert!(poll(&mut w, &mut f, POLL_INTERVAL_MS * 4).is_none());
}

#[test]
fn an_edited_file_is_reported_once_then_settles() {
    let (mut w, mut f) = fresh();
    f.stamp = stamp(39, 61_000);
    let t = POLL_INTERVAL_MS * 4;
    assert_eq!(
        poll(&mut w, &mut f, t),
        Some("config.toml".to_string()),
        "the edit must be reported"
    );
    assert!(
        poll(&mut w, &mut f, t + POLL_INTERVAL_MS * 4).is_none(),
        "the same edit must not be reported twice (no reload loop)"
    );
}

#[test]
fn polls_inside_the_interval_are_throttled() {
    let (mut w, mut f) = fresh();
    let t0 = 1_000_000;
    assert!(poll(&mut w, &mut f, t0).is_none());
    f.stamp = stamp(39, 61_000);

    let before = f.looks;
    assert!(
        poll(&mut w, &mut f, t0 + POLL_INTERVAL_MS / 2).is_none(),
        "a poll inside the interval must report no change"
    );
    assert_eq!(f.looks, before, "a poll inside the interval must not even stat the file");

    assert_eq!(
        poll(&mut w, &mut f, t0 + POLL_INTERVAL_MS * 2),
        Some("config.toml".to_string()),
        "the same edit is reported once the interval has elapsed"
    );
    assert_eq!(f.looks, before + 1, "the poll past the interval must stat the file exactly once");
}

#[test]
fn a_vanished_file_is_not_a_reload_but_its_return_is() {
    let (mut w, mut f) = fresh();
    f.stamp = None;
    let t = POLL_INTERVAL_MS * 4;
    assert!(
        poll(&mut w, &mut f, t).is_none(),
        "a deleted config must never trigger a reload (keep last-known-good)"
    );
    f.stamp = stamp(22, 61_000);
    assert_eq!(
        poll(&mut w, &mut f, t + POLL_INTERVAL_MS * 4),
        Some("config.toml".to_string()),
        "the recreated file is a change and must be reloaded"
    );
}

#[test]
fn mark_self_written_suppresses_our_own_write() {
    let (mut w, mut f) = fresh();
    f.stamp = stamp(40, 61_000);
    w.mark_self_written(f.stamp);
    assert!(
        poll(&mut w, &mut f, POLL_INTERVAL_MS * 4).is_none(),
        "the app's own save must not bounce back as an external edit"
    );
}
