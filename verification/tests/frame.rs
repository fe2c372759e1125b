use c0pl4nd::frame::{
    animating, clamp_scrollback, frame_policy, idle_repaint_interval,
    keeps_restore_size, key_route, startup_toast, AtlasKey, CursorTrail, Echo,
    FramePolicy, GlyphWarmup, KeyRoute, Overlays, WindowFlags,
    ATLAS_WARMUP_GATE_FRAMES, FONT_WAIT_GATE_CAP, MAX_TRAIL,
};
use c0pl4nd::launches::{
    push_forwarded_launch, take_forwarded_launches, MAX_PENDING_FORWARDED_LAUNCHES,
};

fn key(size_bits: u32) -> AtlasKey {
    AtlasKey { family: "mono".to_string(), size_bits, scale_bits: 1 }
}

#[test]
fn glyphs_are_prepared_again_only_for_another_key() {
    let mut w = GlyphWarmup::new();
    assert!(w.install_fonts());
    assert!(!w.install_fonts());
    assert!(w.check_atlas(key(12), true));
    assert_eq!(w.warmup_frames_left, ATLAS_WARMUP_GATE_FRAMES);
    assert!(!w.check_atlas(key(12), true));
    assert!(w.warming());
    assert!(w.end_frame() && w.end_frame() && !w.end_frame());
    assert!(!w.warming());
    assert!(w.check_atlas(key(13), false));
    assert!(!w.warming(), "only a live window waits");
    w.fonts_arrived();
    assert!(w.check_atlas(key(13), true));
}

#[test]
fn a_missing_font_cannot_hide_the_grid() {
    let mut w = GlyphWarmup::new();
    assert!(!w.wait_for_fonts(false, true));
    let mut hidden = 0;
    for _ in 0..(FONT_WAIT_GATE_CAP + 50) {
        w.wait_for_fonts(true, true);
        if w.warming() {
            hidden += 1;
        }
        w.end_frame();
    }
    assert_eq!(hidden, FONT_WAIT_GATE_CAP - 1);
    assert!(!w.warming());
}

#[test]
fn a_font_size_is_saved_once_it_settles() {
    let mut w = GlyphWarmup::new();
    assert!(!w.font_save_due(5));
    w.schedule_font_save(1000);
    w.schedule_font_save(1300);
    assert!(!w.font_save_due(1600));
    assert!(w.font_save_due(1900));
    assert!(!w.font_save_due(9000));
}

#[test]
fn the_window_is_raised_once() {
    let mut f = WindowFlags::new();
    assert!(!f.raise_window());
    f.live_window = true;
    assert!(f.raise_window());
    assert!(!f.raise_window());
    f.note_first_frame(10);
    f.note_first_frame(20);
    assert_eq!(f.first_frame_time, Some(10));
}

#[test]
fn escape_leaves_fullscreen_where_nothing_else_wants_it() {
    let mut f = WindowFlags::new();
    assert!(f.toggled_fullscreen(None));
    assert!(!f.toggled_fullscreen(Some(true)));
    f.set_fullscreen(true);
    assert!(!f.settle_fullscreen(true, true, false, None), "the palette has the key");
    assert!(f.fullscreen);
    assert!(f.settle_fullscreen(true, false, false, Some(true)));
    assert!(!f.fullscreen);
    assert!(!f.settle_fullscreen(false, false, false, Some(true)));
    assert!(f.fullscreen, "the system's state is taken over");
    assert!(!f.settle_fullscreen(false, false, true, Some(false)));
    assert!(f.fullscreen, "but not right after the toggle");
}

#[test]
fn focus_is_reported_when_it_changes() {
    let mut f = WindowFlags::new();
    assert_eq!(f.focus_edge(Some(true)), None);
    assert_eq!(f.focus_edge(Some(false)), Some(false));
    assert_eq!(f.focus_edge(None), None);
    assert_eq!(f.focus_edge(Some(true)), Some(true));
}

#[test]
fn settings_are_placed_when_they_open() {
    let mut f = WindowFlags::new();
    assert_eq!(f.settings_frame(), None);
    f.settings_done(true);
    assert!(!f.settings_open);
    f.settings_open = true;
    assert_eq!(f.settings_frame(), Some(true));
    f.settings_done(true);
    assert_eq!(f.settings_frame(), Some(false));
    f.settings_done(true);
    f.settings_open = false;
    assert_eq!(f.settings_frame(), None);
    f.settings_open = true;
    assert_eq!(f.settings_frame(), Some(true), "settings that were closed are placed anew");
    f.settings_done(false);
    assert!(!f.settings_open);
}

#[test]
fn keys_go_to_one_place() {
    assert_eq!(key_route(true, true, true), KeyRoute::Paste);
    assert_eq!(key_route(false, true, true), KeyRoute::Palette);
    assert_eq!(key_route(false, false, true), KeyRoute::Search);
    assert_eq!(key_route(false, false, false), KeyRoute::Terminal);
    let mut f = WindowFlags::new();
    f.search_open = true;
    let step = f.search_keys(true, false, false, true);
    assert!(step.forward && step.backward && step.recompute && f.search_open);
    let step = f.search_keys(true, true, false, false);
    assert!(!step.forward && !step.recompute && !f.search_open);
}

#[test]
fn the_trail_is_bounded_and_fades() {
    let mut t = CursorTrail { echoes: Vec::new() };
    let echo = |born| Echo { left: 0, top: 0, right: 1, bottom: 1, born };
    for n in 0..40 {
        t.note(true, true, echo(n));
    }
    assert_eq!(t.echoes.len(), MAX_TRAIL);
    assert_eq!(t.echoes[0].born, 16);
    t.note(true, false, echo(99));
    assert_eq!(t.echoes.len(), MAX_TRAIL);
    t.fade(30, 10);
    assert_eq!(t.echoes[0].born, 20, "older than ten are gone");
    t.note(false, true, echo(1));
    assert!(t.echoes.is_empty());
}

#[test]
fn the_pace_of_frames() {
    assert_eq!(frame_policy(true, true, false), FramePolicy::Continuous);
    assert_eq!(frame_policy(true, true, true), FramePolicy::OnDamage);
    assert_eq!(idle_repaint_interval(FramePolicy::Continuous, true), 0);
    assert_eq!(idle_repaint_interval(FramePolicy::OnDamage, true), 530);
    assert_eq!(idle_repaint_interval(FramePolicy::OnDamage, false), 1000);
    let mut o = Overlays {
        live: true,
        animations_enabled: true,
        reduced_motion: false,
        wired_ambient: true,
        mesh_moves: false,
        vhs_tracking: false,
        flicker: false,
        cursor_trail: true,
        trail_left: false,
        boot_glitch: false,
        boot_sweep: true,
    };
    assert!(!animating(&o));
    o.mesh_moves = true;
    assert!(animating(&o));
    o.reduced_motion = true;
    assert!(!animating(&o));
}

#[test]
fn limits_and_messages_of_the_start() {
    assert_eq!(clamp_scrollback(0), 100);
    assert_eq!(clamp_scrollback(5000), 5000);
    assert_eq!(clamp_scrollback(usize::MAX), 1_000_000);
    assert!(keeps_restore_size(false, 400, 300));
    assert!(!keeps_restore_size(true, 800, 600));
    assert!(!keeps_restore_size(false, 399, 600));
    let s = |x: &str| Some(x.to_string());
    assert_eq!(startup_toast(s("bad"), s("theme"), true), s("bad"));
    assert_eq!(startup_toast(None, s("theme"), true), s("theme"));
    assert!(startup_toast(None, None, true).unwrap().starts_with("Welcome to C0PL4ND — open"));
    assert_eq!(startup_toast(None, None, false), None);
}

#[test]
fn launches_wait_in_a_bounded_queue() {
    let mut q: Vec<Option<String>> = Vec::new();
    for n in 0..40 {
        push_forwarded_launch(&mut q, Some(n.to_string()));
    }
    assert_eq!(q.len(), MAX_PENDING_FORWARDED_LAUNCHES);
    let taken = take_forwarded_launches(&mut q);
    assert_eq!(taken.len(), MAX_PENDING_FORWARDED_LAUNCHES);
    assert_eq!(taken[31].as_deref(), Some("31"));
    assert!(take_forwarded_launches(&mut q).is_empty());
}
