use pocketbook_host::rect::{can_present_rects, merge, union, DirtyRect, Rect};
use pocketbook_host::refresh::{PanelAction, Refresh, CLEANUP_QUIET, DYNAMIC_MIN_INTERVAL};

const MS: u64 = 1_000_000;

fn dirty(x: usize, y: usize, w: usize, h: usize) -> Vec<DirtyRect> {
    vec![DirtyRect { x, y, w, h }]
}

fn rect(x: i32, y: i32, w: u32, h: u32) -> Rect {
    Rect { x, y, w, h }
}

#[test]
fn merging_gives_the_box_around_all_rects() {
    let rects = [
        DirtyRect { x: 10, y: 40, w: 5, h: 5 },
        DirtyRect { x: 30, y: 20, w: 16, h: 1 },
        DirtyRect { x: 12, y: 60, w: 1, h: 4 },
    ];
    assert_eq!(merge(&rects), rect(10, 20, 36, 44));
    assert_eq!(merge(&rects[..1]), rect(10, 40, 5, 5));
}

#[test]
fn union_gives_the_box_around_both() {
    assert_eq!(union(None, rect(1, 2, 3, 4)), rect(1, 2, 3, 4));
    assert_eq!(union(Some(rect(10, 10, 5, 5)), rect(0, 12, 2, 20)), rect(0, 10, 15, 22));
    assert_eq!(union(Some(rect(-4, -3, 2, 2)), rect(1, 1, 1, 1)), rect(-4, -3, 6, 5));
}

#[test]
fn rects_beyond_the_controller_are_told_apart() {
    assert!(can_present_rects(&[]));
    assert!(can_present_rects(&dirty(0x7fff_fff0, 0, 15, 1)));
    assert!(!can_present_rects(&dirty(0x7fff_fff0, 0, 16, 1)));
    assert!(!can_present_rects(&dirty(0, usize::MAX, 1, 1)));
}

#[test]
fn idle_panel_gets_one_partial_update() {
    let mut refresh = Refresh::new(0);
    assert_eq!(refresh.present(&dirty(1, 2, 3, 4), 5 * MS), PanelAction::AskUpdating);
    assert_eq!(refresh.panel_status(false, 5 * MS), PanelAction::Partial(rect(1, 2, 3, 4)));
    assert_eq!(refresh.drawn(6 * MS), PanelAction::Done);
    // Nothing is left to clean up.
    assert_eq!(refresh.present(&[], 1_000 * MS), PanelAction::Done);
}

#[test]
fn dynamic_updates_are_throttled_and_accumulate() {
    let mut refresh = Refresh::new(0);
    // Too soon after the last drawing: the damage only accumulates.
    refresh.present(&dirty(0, 0, 10, 10), DYNAMIC_MIN_INTERVAL);
    assert_eq!(refresh.panel_status(true, DYNAMIC_MIN_INTERVAL), PanelAction::Done);
    // One nanosecond more is enough, and the box covers both.
    refresh.present(&dirty(20, 20, 10, 10), DYNAMIC_MIN_INTERVAL + 1);
    assert_eq!(
        refresh.panel_status(true, DYNAMIC_MIN_INTERVAL + 1),
        PanelAction::Dynamic(rect(0, 0, 30, 30))
    );
    assert_eq!(refresh.drawn(25 * MS), PanelAction::Done);
    // The next one has to wait again.
    refresh.present(&dirty(5, 5, 1, 1), 45 * MS);
    assert_eq!(refresh.panel_status(true, 45 * MS), PanelAction::Done);
    refresh.present(&dirty(5, 5, 1, 1), 46 * MS);
    assert_eq!(refresh.panel_status(true, 46 * MS), PanelAction::Dynamic(rect(0, 0, 30, 30)));
}

#[test]
fn cleanup_follows_the_quiet_period() {
    let mut refresh = Refresh::new(0);
    refresh.present(&dirty(0, 0, 10, 10), 30 * MS);
    assert_eq!(refresh.panel_status(true, 30 * MS), PanelAction::Dynamic(rect(0, 0, 10, 10)));
    assert_eq!(refresh.drawn(31 * MS), PanelAction::Done);
    let due = 31 * MS + CLEANUP_QUIET;
    assert_eq!(refresh.present(&[], due - 1), PanelAction::Done);
    // The cleanup comes first, then the frame's own damage.
    assert_eq!(refresh.present(&dirty(50, 50, 2, 2), due), PanelAction::Partial(rect(0, 0, 10, 10)));
    assert_eq!(refresh.drawn(due + MS), PanelAction::AskUpdating);
    assert_eq!(refresh.panel_status(false, due + MS), PanelAction::Partial(rect(50, 50, 2, 2)));
    assert_eq!(refresh.drawn(due + 2 * MS), PanelAction::Done);
    assert_eq!(refresh.present(&[], due + 1_000 * MS), PanelAction::Done);
}

#[test]
fn cleanup_runs_on_a_frame_without_damage() {
    let mut refresh = Refresh::new(0);
    refresh.present(&dirty(3, 4, 5, 6), 10 * MS);
    assert_eq!(refresh.panel_status(true, 10 * MS), PanelAction::Done);
    assert_eq!(
        refresh.present(&[], 10 * MS + CLEANUP_QUIET),
        PanelAction::Partial(rect(3, 4, 5, 6))
    );
    assert_eq!(refresh.drawn(211 * MS), PanelAction::Done);
}

#[test]
fn activity_puts_the_cleanup_off() {
    let mut refresh = Refresh::new(0);
    refresh.present(&dirty(0, 0, 1, 1), 10 * MS);
    refresh.panel_status(true, 10 * MS);
    refresh.present(&dirty(1, 1, 1, 1), 15 * MS);
    refresh.panel_status(true, 15 * MS);
    assert_eq!(refresh.present(&[], 10 * MS + CLEANUP_QUIET), PanelAction::Done);
    assert_eq!(
        refresh.present(&[], 15 * MS + CLEANUP_QUIET),
        PanelAction::Partial(rect(0, 0, 2, 2))
    );
}

#[test]
fn a_full_redraw_clears_what_waited() {
    let mut refresh = Refresh::new(0);
    refresh.present(&dirty(0, 0, 1, 1), 10 * MS);
    refresh.panel_status(true, 10 * MS);
    assert_eq!(refresh.full(), PanelAction::Full);
    assert_eq!(refresh.drawn(12 * MS), PanelAction::Done);
    assert_eq!(refresh.present(&[], 5_000 * MS), PanelAction::Done);
}

#[test]
fn resume_primes_the_panel_with_a_partial_update() {
    let mut refresh = Refresh::new(0);
    assert_eq!(refresh.resume(0, 7, 758, 1010), PanelAction::Partial(rect(0, 7, 758, 1010)));
    assert_eq!(refresh.drawn(MS), PanelAction::Done);
    assert_eq!(refresh.present(&[], 2 * MS), PanelAction::Done);
    // Forced: the panel is not asked.
    assert_eq!(refresh.present(&dirty(1, 1, 2, 2), 3 * MS), PanelAction::Partial(rect(1, 1, 2, 2)));
    assert_eq!(refresh.drawn(4 * MS), PanelAction::Done);
    // Only once.
    assert_eq!(refresh.present(&dirty(1, 1, 2, 2), 5 * MS), PanelAction::AskUpdating);
}

#[test]
fn a_clock_that_steps_back_allows_no_dynamic_update() {
    let mut refresh = Refresh::new(100 * MS);
    refresh.present(&dirty(0, 0, 1, 1), 10 * MS);
    assert_eq!(refresh.panel_status(true, 10 * MS), PanelAction::Done);
}

#[test]
fn damage_behind_a_cleanup_is_not_lost() {
    let mut refresh = Refresh::new(0);
    refresh.present(&dirty(0, 0, 10, 10), 10 * MS);
    refresh.panel_status(true, 10 * MS);
    let due = 10 * MS + CLEANUP_QUIET;
    assert_eq!(refresh.present(&dirty(50, 50, 2, 2), due), PanelAction::Partial(rect(0, 0, 10, 10)));
    assert_eq!(refresh.drawn(due + MS), PanelAction::AskUpdating);
    // The cleanup is still in flight and was drawn just now: the damage waits.
    assert_eq!(refresh.panel_status(true, due + 2 * MS), PanelAction::Done);
    assert_eq!(
        refresh.present(&[], due + 2 * MS + CLEANUP_QUIET),
        PanelAction::Partial(rect(50, 50, 2, 2))
    );
}
