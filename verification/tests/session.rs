use pocketbook_host::config::HostConfig;
use pocketbook_host::geometry::Geometry;
use pocketbook_host::input::{Event, Outcome};
use pocketbook_host::orientation::{is_landscape, orient_from_raw, ScreenOrientation};
use pocketbook_host::rect::DirtyRect;
use pocketbook_host::session::{
    apply_outcome, checked_session_geometry, plan_frame, session_geometry, starts_session,
    FramePlan, SessionLoop, Turn, ORIENT_DEBOUNCE_TICKS, TICK_INTERVAL,
};

const PORTRAIT: HostConfig = HostConfig {
    host_abi: 5,
    logical_w: 375,
    logical_h: 500,
    density: 4,
};

fn window(session: &mut SessionLoop, outcomes: &[Outcome], now: u64) -> Turn {
    session.open_window();
    for outcome in outcomes {
        session.on_outcome(*outcome);
    }
    session.close_window(now)
}

#[test]
fn landscape_is_detected_from_inkview_orientations() {
    assert!(!is_landscape(ScreenOrientation::Portrait0Deg));
    assert!(!is_landscape(ScreenOrientation::Portrait180Deg));
    assert!(is_landscape(ScreenOrientation::Landscape90Deg));
    assert!(is_landscape(ScreenOrientation::Landscape270Deg));
}

#[test]
fn raw_orientations_are_decoded() {
    assert_eq!(orient_from_raw(0), ScreenOrientation::Portrait0Deg);
    assert_eq!(orient_from_raw(1), ScreenOrientation::Landscape270Deg);
    assert_eq!(orient_from_raw(2), ScreenOrientation::Landscape90Deg);
    assert_eq!(orient_from_raw(3), ScreenOrientation::Portrait180Deg);
    assert_eq!(orient_from_raw(4), ScreenOrientation::Portrait0Deg);
    assert_eq!(orient_from_raw(-1), ScreenOrientation::Portrait0Deg);
}

#[test]
fn the_viewport_turns_with_the_device() {
    let upright = session_geometry(&PORTRAIT, 1404, 1872, ScreenOrientation::Portrait180Deg, "fit");
    assert_eq!((upright.logical_w, upright.logical_h), (375, 500));
    assert_eq!((upright.disp_w, upright.disp_h), (1404, 1872));
    let turned = session_geometry(&PORTRAIT, 1404, 1872, ScreenOrientation::Landscape90Deg, "fit");
    assert_eq!((turned.logical_w, turned.logical_h), (500, 375));
    assert_eq!((turned.disp_w, turned.disp_h), (1872, 1404));
    // A screen that reports its edges as held makes no difference.
    let held = session_geometry(&PORTRAIT, 1872, 1404, ScreenOrientation::Landscape270Deg, "fit");
    assert_eq!(held, turned);
}

#[test]
fn an_app_authored_sideways_turns_upright() {
    let cfg = HostConfig { host_abi: 5, logical_w: 480, logical_h: 272, density: 2 };
    let geo = session_geometry(&cfg, 758, 1024, ScreenOrientation::Portrait0Deg, "integer-fit");
    assert_eq!((geo.logical_w, geo.logical_h), (272, 480));
    assert_eq!((geo.disp_w, geo.disp_h), (544, 960));
    assert_eq!((geo.ox, geo.oy), (107, 32));
}

#[test]
fn a_session_that_cannot_be_presented_is_refused() {
    let good = checked_session_geometry(&PORTRAIT, 600, 800, ScreenOrientation::Portrait0Deg, "fit");
    assert_eq!(good, Some(Geometry::for_panel(600, 800, 375, 500, 4, "fit")));
    let empty = HostConfig { host_abi: 5, logical_w: 0, logical_h: 0, density: 4 };
    assert_eq!(
        checked_session_geometry(&empty, 600, 800, ScreenOrientation::Portrait0Deg, "fit"),
        None
    );
}

#[test]
fn only_init_starts_a_session() {
    assert!(starts_session(&Event::Init));
    assert!(!starts_session(&Event::Show));
}

#[test]
fn outcomes_set_the_flags() {
    let (mut hidden, mut full) = (true, false);
    assert!(!apply_outcome(Outcome::Continue, &mut hidden, &mut full));
    assert_eq!((hidden, full), (true, false));
    assert!(!apply_outcome(Outcome::Show, &mut hidden, &mut full));
    assert_eq!((hidden, full), (false, true));
    assert!(!apply_outcome(Outcome::Hide, &mut hidden, &mut full));
    assert_eq!((hidden, full), (true, true));
    assert!(apply_outcome(Outcome::Quit, &mut hidden, &mut full));
    assert_eq!((hidden, full), (true, true));
}

#[test]
fn waiting_ends_at_the_tick() {
    let session = SessionLoop::new(ScreenOrientation::Portrait0Deg, 100);
    assert_eq!(session.wait(100), Some(TICK_INTERVAL));
    assert_eq!(session.wait(99 + TICK_INTERVAL), Some(1));
    assert_eq!(session.wait(100 + TICK_INTERVAL), None);
    assert_eq!(session.wait(u64::MAX), None);
}

#[test]
fn waiting_ends_when_the_app_is_asked_to_end() {
    let mut session = SessionLoop::new(ScreenOrientation::Portrait0Deg, 100);
    session.open_window();
    session.on_outcome(Outcome::Show);
    assert_eq!(session.wait(100), Some(TICK_INTERVAL));
    session.on_outcome(Outcome::Quit);
    assert_eq!(session.wait(100), None);
    session.open_window();
    assert_eq!(session.wait(100), Some(TICK_INTERVAL));
    session.on_disconnect();
    assert_eq!(session.wait(100), None);
}

#[test]
fn a_visible_session_ticks() {
    let mut session = SessionLoop::new(ScreenOrientation::Portrait0Deg, 0);
    assert_eq!(window(&mut session, &[Outcome::Continue], 10), Turn::Poll);
    assert_eq!(session.on_gsensor(0, 11), Turn::Tick { full: false });
    assert_eq!(session.last_tick, 11);
    assert_eq!(window(&mut session, &[Outcome::Show], 20), Turn::Poll);
    assert_eq!(session.on_gsensor(0, 21), Turn::Tick { full: true });
    // Hidden and shown again within one window: a full redraw, no reboot.
    assert_eq!(window(&mut session, &[Outcome::Hide, Outcome::Show], 30), Turn::Poll);
    assert_eq!(session.on_gsensor(0, 31), Turn::Tick { full: true });
    assert_eq!(window(&mut session, &[], 40), Turn::Poll);
    assert_eq!(session.on_gsensor(0, 41), Turn::Tick { full: false });
}

#[test]
fn a_hidden_session_idles_and_reboots_when_shown() {
    let mut session = SessionLoop::new(ScreenOrientation::Portrait0Deg, 0);
    assert_eq!(window(&mut session, &[Outcome::Show, Outcome::Hide], 10), Turn::Idle);
    assert_eq!(session.last_tick, 10);
    assert_eq!(window(&mut session, &[Outcome::Continue], 20), Turn::Idle);
    assert_eq!(window(&mut session, &[Outcome::Show, Outcome::Hide], 30), Turn::Idle);
    assert_eq!(window(&mut session, &[Outcome::Show], 40), Turn::Reboot);
    assert_eq!(session.restart(), Turn::Tick { full: true });
    session.painted(50);
    assert_eq!(session.last_tick, 50);
    assert_eq!(session.orientation, ScreenOrientation::Portrait0Deg);
    assert_eq!(window(&mut session, &[], 60), Turn::Poll);
}

#[test]
fn quitting_wins() {
    let mut session = SessionLoop::new(ScreenOrientation::Portrait0Deg, 0);
    assert_eq!(window(&mut session, &[Outcome::Quit, Outcome::Hide], 10), Turn::Quit);
    let mut session = SessionLoop::new(ScreenOrientation::Portrait0Deg, 0);
    session.open_window();
    session.on_disconnect();
    assert_eq!(session.close_window(10), Turn::Quit);
}

#[test]
fn rotation_waits_for_a_steady_reading() {
    let mut session = SessionLoop::new(ScreenOrientation::Portrait0Deg, 0);
    // Transient readings of a turn do not rotate.
    for raw in [2, 2, 2, 2, 2, 1, 2, 2, 2, 2, 2] {
        assert_eq!(session.on_gsensor(raw, 1), Turn::Tick { full: false });
    }
    assert_eq!(session.pending_count, ORIENT_DEBOUNCE_TICKS - 1);
    assert_eq!(session.on_gsensor(2, 1), Turn::Rotate { raw: 2 });
    assert_eq!(session.orientation, ScreenOrientation::Landscape90Deg);
    assert_eq!(session.restart(), Turn::Tick { full: true });
    session.painted(9);
    assert_eq!((session.pending_orient, session.pending_count), (None, 0));
    // Held steady in the session's own orientation, nothing rotates.
    for _ in 0..20 {
        assert_eq!(session.on_gsensor(2, 10), Turn::Tick { full: false });
    }
}

#[test]
fn frames_are_planned() {
    let geo = Geometry::for_panel(1404, 1872, 480, 272, 2, "integer-fit");
    let dirty = vec![DirtyRect { x: 16, y: 0, w: 16, h: 16 }];
    assert!(matches!(plan_frame(true, &dirty, &geo), FramePlan::Full));
    assert!(matches!(plan_frame(true, &[], &geo), FramePlan::Full));
    assert!(matches!(plan_frame(false, &[], &geo), FramePlan::Quiet));
    match plan_frame(false, &dirty, &geo) {
        FramePlan::Damage(shown) => {
            assert_eq!(shown, vec![DirtyRect { x: 238, y: 664, w: 16, h: 16 }]);
        }
        _ => panic!("damage was not planned"),
    }
}
