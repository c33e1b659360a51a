//! One running session: the viewport that it is laid out for, and the loop that
//! ticks it.
//!
//! A session is bound to one device orientation. Its loop repeats *windows*: it
//! handles events until the tick deadline, then takes its turn. The program
//! around the library receives the events and performs the [`Turn`]; times are
//! nanoseconds on one monotonic clock.

use vstd::prelude::*;

use crate::config::HostConfig;
use crate::geometry;
use crate::geometry::Geometry;
use crate::input::{Event, Outcome};
use crate::orientation;
use crate::orientation::{is_landscape, orient_from_raw, ScreenOrientation};
use crate::rect;
use crate::rect::{offset_rects, DirtyRect};

verus! {

/// Logical tick cadence (33 ms). E-ink does not need 60 fps; about 30 keep
/// animations smooth while sparing CPU and battery.
pub const TICK_INTERVAL: u64 = 33_000_000;

/// How many consecutive ticks the G-sensor must hold a new orientation before
/// the session rotates. A physical turn passes through transient readings.
pub const ORIENT_DEBOUNCE_TICKS: u32 = 6;

/// The panel as it is held: upright it is short by long, sideways long by
/// short, whichever way round its two edges are reported.
pub open spec fn held_panel(orientation: ScreenOrientation, a: int, b: int) -> (int, int) {
    let (short, long) = (rect::least(a, b), rect::greatest(a, b));
    if orientation::sideways(orientation) {
        (long, short)
    } else {
        (short, long)
    }
}

/// The authored viewport, turned where the device is not held as authored.
pub open spec fn held_viewport(orientation: ScreenOrientation, cfg: HostConfig) -> (int, int) {
    let authored_sideways = cfg.logical_w > cfg.logical_h;
    if orientation::sideways(orientation) != authored_sideways {
        (cfg.logical_h as int, cfg.logical_w as int)
    } else {
        (cfg.logical_w as int, cfg.logical_h as int)
    }
}

/// The configured viewport can be presented on a screen with the given edges.
pub open spec fn session_presentable(
    cfg: HostConfig,
    screen_w: int,
    screen_h: int,
    orientation: ScreenOrientation,
    presentation: Seq<char>,
) -> bool {
    let (panel_w, panel_h) = held_panel(orientation, screen_w, screen_h);
    let (logical_w, logical_h) = held_viewport(orientation, cfg);
    geometry::presentable(
        panel_w,
        panel_h,
        logical_w,
        logical_h,
        cfg.density as int,
        presentation,
    )
}

/// The geometry presents the configured viewport on a screen with the given
/// edges.
pub open spec fn session_presented(
    geo: Geometry,
    cfg: HostConfig,
    screen_w: int,
    screen_h: int,
    orientation: ScreenOrientation,
    presentation: Seq<char>,
) -> bool {
    let (panel_w, panel_h) = held_panel(orientation, screen_w, screen_h);
    let (logical_w, logical_h) = held_viewport(orientation, cfg);
    geo.presents(
        panel_w,
        panel_h,
        logical_w,
        logical_h,
        cfg.density as int,
        presentation,
    )
}

/// Picks the viewport that matches the device orientation and places it on the
/// panel. The app authors one viewport; in the other orientation it is
/// presented turned, so that the app still fills the panel.
pub fn session_geometry(
    cfg: &HostConfig,
    screen_w: usize,
    screen_h: usize,
    orientation: ScreenOrientation,
    presentation: &str,
) -> (geo: Geometry)
    requires
        session_presentable(
            *cfg,
            screen_w as int,
            screen_h as int,
            orientation,
            presentation@,
        ),
    ensures
        session_presented(
            geo,
            *cfg,
            screen_w as int,
            screen_h as int,
            orientation,
            presentation@,
        ),
{
    let (panel_w, panel_h, logical_w, logical_h) = held(cfg, screen_w, screen_h, orientation);
    Geometry::for_panel(panel_w, panel_h, logical_w, logical_h, cfg.density, presentation)
}

/// As `session_geometry`; none where the sizes cannot be presented.
pub fn checked_session_geometry(
    cfg: &HostConfig,
    screen_w: usize,
    screen_h: usize,
    orientation: ScreenOrientation,
    presentation: &str,
) -> (geo: Option<Geometry>)
    ensures
        geo is Some <==> session_presentable(
            *cfg,
            screen_w as int,
            screen_h as int,
            orientation,
            presentation@,
        ),
        geo matches Some(geo) ==> session_presented(
            geo,
            *cfg,
            screen_w as int,
            screen_h as int,
            orientation,
            presentation@,
        ),
{
    let (panel_w, panel_h, logical_w, logical_h) = held(cfg, screen_w, screen_h, orientation);
    if Geometry::can_present(panel_w, panel_h, logical_w, logical_h, cfg.density, presentation) {
        Some(session_geometry(cfg, screen_w, screen_h, orientation, presentation))
    } else {
        None
    }
}

fn held(
    cfg: &HostConfig,
    screen_w: usize,
    screen_h: usize,
    orientation: ScreenOrientation,
) -> (sizes: (usize, usize, usize, usize))
    ensures
        (sizes.0 as int, sizes.1 as int) == held_panel(
            orientation,
            screen_w as int,
            screen_h as int,
        ),
        (sizes.2 as int, sizes.3 as int) == held_viewport(orientation, *cfg),
{
    let landscape = is_landscape(orientation);
    let (short, long): (usize, usize) = if screen_w <= screen_h {
        (screen_w, screen_h)
    } else {
        (screen_h, screen_w)
    };
    let (panel_w, panel_h): (usize, usize) = if landscape {
        (long, short)
    } else {
        (short, long)
    };
    let authored_landscape = cfg.logical_w > cfg.logical_h;
    let (logical_w, logical_h): (u32, u32) = if landscape != authored_landscape {
        (cfg.logical_h, cfg.logical_w)
    } else {
        (cfg.logical_w, cfg.logical_h)
    };
    (panel_w, panel_h, logical_w as usize, logical_h as usize)
}

/// It does not matter whether the screen reports its edges as held or as built,
/// and a half turn changes nothing.
pub proof fn law_placement_depends_on_the_hold_alone(
    cfg: HostConfig,
    a: int,
    b: int,
    first: ScreenOrientation,
    second: ScreenOrientation,
)
    requires
        orientation::sideways(first) == orientation::sideways(second),
    ensures
        held_panel(first, a, b) == held_panel(second, b, a),
        held_viewport(first, cfg) == held_viewport(second, cfg),
{
}

/// The presented viewport lies the way the device is held, along with the
/// panel; it is the authored one or that one turned, and it is the authored one
/// where the device is held as authored.
pub proof fn law_viewport_follows_the_device(
    cfg: HostConfig,
    a: int,
    b: int,
    orientation: ScreenOrientation,
)
    ensures
        ({
            let (panel_w, panel_h) = held_panel(orientation, a, b);
            let (w, h) = held_viewport(orientation, cfg);
            &&& if orientation::sideways(orientation) {
                panel_w >= panel_h && w >= h
            } else {
                panel_w <= panel_h && w <= h
            }
            &&& (panel_w, panel_h) == (a, b) || (panel_w, panel_h) == (b, a)
            &&& (w, h) == (cfg.logical_w as int, cfg.logical_h as int) || (w, h) == (
                cfg.logical_h as int,
                cfg.logical_w as int,
            )
            &&& orientation::sideways(orientation) == (cfg.logical_w > cfg.logical_h) ==> w
                == cfg.logical_w && h == cfg.logical_h
        }),
{
}

/// The event that a session has to begin with.
pub fn starts_session(ev: &Event) -> (starts: bool)
    ensures
        starts == (*ev is Init),
{
    match ev {
        Event::Init => true,
        _ => false,
    }
}

/// Applies one event's outcome to the visibility and repaint flags. The answer
/// is whether the app should quit.
pub fn apply_outcome(outcome: Outcome, hidden: &mut bool, full: &mut bool) -> (quit: bool)
    ensures
        quit == (outcome is Quit),
        *final(hidden) == (outcome is Hide || (*old(hidden) && !(outcome is Show))),
        *final(full) == (outcome is Show || *old(full)),
{
    match outcome {
        Outcome::Quit => true,
        Outcome::Show => {
            *hidden = false;
            *full = true;
            false
        },
        Outcome::Hide => {
            *hidden = true;
            false
        },
        Outcome::Continue => false,
    }
}

/// What the loop does at the end of a window.
#[derive(Clone, Copy, Debug, PartialEq, Eq, Structural)]
pub enum Turn {
    /// Leave the loop: the app ends.
    Quit,
    /// Come back from the background: re-acquire the screen and boot a fresh
    /// session in the same orientation.
    Reboot,
    /// Stay hidden: neither the guest nor the panel is driven.
    Idle,
    /// Read the G-sensor and report it.
    Poll,
    /// Apply the raw orientation to the device, re-acquire the screen and boot a
    /// fresh session.
    Rotate { raw: i32 },
    /// Run one frame; redraw the whole panel if `full`.
    Tick { full: bool },
}

/// The state of the loop.
#[derive(Clone, Copy, Debug)]
pub struct SessionLoop {
    pub orientation: ScreenOrientation,
    /// The app is in the background.
    pub hidden: bool,
    /// The app was in the background when the window opened.
    pub was_hidden: bool,
    /// A full redraw was asked for in this window.
    pub full: bool,
    /// The app was asked to end in this window.
    pub quit: bool,
    /// The last G-sensor reading of the session.
    pub pending_orient: Option<i32>,
    /// How many consecutive readings gave it.
    pub pending_count: u32,
    /// When the last tick was.
    pub last_tick: u64,
}

impl SessionLoop {
    /// The loop of a freshly booted session, which starts in the foreground with
    /// no reading taken.
    pub open spec fn fresh(orientation: ScreenOrientation, now: u64) -> SessionLoop {
        SessionLoop {
            orientation,
            hidden: false,
            was_hidden: false,
            full: false,
            quit: false,
            pending_orient: None,
            pending_count: 0,
            last_tick: now,
        }
    }

    /// A window opens.
    pub open spec fn opened(self) -> SessionLoop {
        SessionLoop { was_hidden: self.hidden, full: false, quit: false, ..self }
    }

    /// An event of the window had the outcome.
    pub open spec fn after_outcome(self, outcome: Outcome) -> SessionLoop {
        match outcome {
            Outcome::Quit => SessionLoop { quit: true, ..self },
            Outcome::Show => SessionLoop { hidden: false, full: true, ..self },
            Outcome::Hide => SessionLoop { hidden: true, ..self },
            Outcome::Continue => self,
        }
    }

    /// The events of the window had the outcomes, in this order.
    pub open spec fn after_outcomes(self, outcomes: Seq<Outcome>) -> SessionLoop
        decreases outcomes.len(),
    {
        if outcomes.len() == 0 {
            self
        } else {
            self.after_outcomes(outcomes.drop_last()).after_outcome(outcomes.last())
        }
    }

    /// The window ends.
    pub open spec fn after_window(self, now: u64) -> (SessionLoop, Turn) {
        if self.quit {
            (self, Turn::Quit)
        } else if self.hidden {
            (SessionLoop { last_tick: now, ..self }, Turn::Idle)
        } else if self.was_hidden {
            (self, Turn::Reboot)
        } else {
            (self, Turn::Poll)
        }
    }

    /// How many consecutive readings gave `raw`, this one included.
    pub open spec fn steady(self, raw: i32) -> int {
        if self.pending_orient == Some(raw) {
            self.pending_count + 1
        } else {
            1
        }
    }

    /// The G-sensor gave a reading.
    pub open spec fn after_poll(self, raw: i32, now: u64) -> (SessionLoop, Turn) {
        let counted = SessionLoop {
            pending_orient: Some(raw),
            pending_count: self.steady(raw) as u32,
            ..self
        };
        let held = orientation::orientation_of(raw as int);
        if self.steady(raw) >= ORIENT_DEBOUNCE_TICKS && held != self.orientation {
            (SessionLoop { orientation: held, ..counted }, Turn::Rotate { raw })
        } else {
            (SessionLoop { last_tick: now, ..counted }, Turn::Tick { full: self.full })
        }
    }

    /// The loop of the first session.
    pub fn new(orientation: ScreenOrientation, now: u64) -> (session: SessionLoop)
        ensures
            session == SessionLoop::fresh(orientation, now),
    {
        SessionLoop {
            orientation,
            hidden: false,
            was_hidden: false,
            full: false,
            quit: false,
            pending_orient: None,
            pending_count: 0,
            last_tick: now,
        }
    }

    /// A fresh session was booted in the orientation that the loop holds. It
    /// starts with a full redraw, so that the screen is clean.
    pub fn restart(&mut self) -> (turn: Turn)
        ensures
            *final(self) == SessionLoop::fresh(old(self).orientation, old(self).last_tick),
            turn == (Turn::Tick { full: true }),
    {
        *self = SessionLoop::new(self.orientation, self.last_tick);
        Turn::Tick { full: true }
    }

    /// The first frame of the session was painted: the next tick counts from
    /// here.
    pub fn painted(&mut self, now: u64)
        ensures
            *final(self) == (SessionLoop { last_tick: now, ..*old(self) }),
    {
        self.last_tick = now;
    }

    /// Opens a window.
    pub fn open_window(&mut self)
        ensures
            *final(self) == old(self).opened(),
    {
        self.was_hidden = self.hidden;
        self.full = false;
        self.quit = false;
    }

    /// How long to wait for the next event of the window; none once the tick is
    /// due or the app is asked to end.
    pub fn wait(&self, now: u64) -> (wait: Option<u64>)
        requires
            self.quit || self.last_tick + TICK_INTERVAL <= u64::MAX,
        ensures
            wait is None <==> self.quit || now >= self.last_tick + TICK_INTERVAL,
            wait matches Some(wait) ==> now + wait == self.last_tick + TICK_INTERVAL,
    {
        if self.quit {
            return None;
        }
        let deadline: u64 = self.last_tick + TICK_INTERVAL;
        if now >= deadline {
            None
        } else {
            Some(deadline - now)
        }
    }

    /// An event of the window was handled.
    pub fn on_outcome(&mut self, outcome: Outcome)
        ensures
            *final(self) == old(self).after_outcome(outcome),
    {
        let mut hidden = self.hidden;
        let mut full = self.full;
        if apply_outcome(outcome, &mut hidden, &mut full) {
            self.quit = true;
        }
        self.hidden = hidden;
        self.full = full;
    }

    /// No event can come any more: the app ends with this window.
    pub fn on_disconnect(&mut self)
        ensures
            *final(self) == (SessionLoop { quit: true, ..*old(self) }),
    {
        self.quit = true;
    }

    /// Ends the window.
    pub fn close_window(&mut self, now: u64) -> (turn: Turn)
        ensures
            (*final(self), turn) == old(self).after_window(now),
    {
        if self.quit {
            return Turn::Quit;
        }
        if self.was_hidden && !self.hidden {
            return Turn::Reboot;
        }
        if self.hidden {
            self.last_tick = now;
            return Turn::Idle;
        }
        Turn::Poll
    }

    /// Takes a G-sensor reading: rotate once it has been steady, else tick. The
    /// sensor leads, because the firmware applies only some of its readings by
    /// itself.
    pub fn on_gsensor(&mut self, raw: i32, now: u64) -> (turn: Turn)
        requires
            old(self).steady(raw) <= u32::MAX,
        ensures
            (*final(self), turn) == old(self).after_poll(raw, now),
    {
        let steady: u32 = match self.pending_orient {
            Some(pending) => if pending == raw {
                self.pending_count + 1
            } else {
                1
            },
            None => 1,
        };
        self.pending_orient = Some(raw);
        self.pending_count = steady;
        let held = orient_from_raw(raw);
        if steady >= ORIENT_DEBOUNCE_TICKS && held != self.orientation {
            self.orientation = held;
            return Turn::Rotate { raw };
        }
        self.last_tick = now;
        Turn::Tick { full: self.full }
    }
}

/// What a frame asks of blitting and of the panel.
#[derive(Debug)]
pub enum FramePlan {
    /// Blit the whole frame and redraw the panel fully.
    Full,
    /// Blit the damage and present these panel rects.
    Damage(Vec<DirtyRect>),
    /// Blit nothing; present no damage, which lets a due cleanup run.
    Quiet,
}

/// Plans a frame whose changed render-buffer rects are `dirty`.
pub fn plan_frame(full: bool, dirty: &[DirtyRect], geo: &Geometry) -> (plan: FramePlan)
    requires
        !full ==> rect::maps_all(*geo, dirty@),
    ensures
        plan is Full <==> full,
        plan is Quiet <==> !full && dirty@.len() == 0,
        plan matches FramePlan::Damage(shown) ==> shown@ == dirty@.map_values(
            |r: DirtyRect| rect::shown_rect(*geo, r),
        ),
        plan matches FramePlan::Damage(shown) ==> shown@.len() == dirty@.len() && (forall|i: int|
            0 <= i < dirty@.len() ==> rect::shows_exactly(*geo, dirty@[i], #[trigger] shown@[i])),
{
    if full {
        FramePlan::Full
    } else if dirty.len() > 0 {
        FramePlan::Damage(offset_rects(dirty, geo))
    } else {
        FramePlan::Quiet
    }
}

/// The debounce state after a run of readings in one session.
pub open spec fn debounced(readings: Seq<i32>) -> (Option<i32>, int)
    decreases readings.len(),
{
    if readings.len() == 0 {
        (None, 0)
    } else {
        let (pending, count) = debounced(readings.drop_last());
        if pending == Some(readings.last()) {
            (pending, count + 1)
        } else {
            (Some(readings.last()), 1)
        }
    }
}

/// The last `n` readings all gave `raw`.
pub open spec fn steady_for(readings: Seq<i32>, raw: i32, n: int) -> bool {
    &&& readings.len() >= n
    &&& forall|i: int| readings.len() - n <= i < readings.len() ==> #[trigger] readings[i] == raw
}

/// A session rotates exactly when the last `ORIENT_DEBOUNCE_TICKS` readings of
/// it all gave one orientation code, and that orientation is not the session's
/// own: transient readings of a turn never rotate it.
pub proof fn law_rotation_needs_a_steady_reading(
    session: SessionLoop,
    readings: Seq<i32>,
    raw: i32,
    now: u64,
)
    requires
        (session.pending_orient, session.pending_count as int) == debounced(readings),
        session.steady(raw) <= u32::MAX,
    ensures
        ({
            let (next, turn) = session.after_poll(raw, now);
            &&& turn is Rotate <==> steady_for(
                readings.push(raw),
                raw,
                ORIENT_DEBOUNCE_TICKS as int,
            ) && orientation::orientation_of(raw as int) != session.orientation
            &&& turn is Rotate ==> turn == Turn::Rotate { raw } && next.orientation
                == orientation::orientation_of(raw as int)
            &&& !(turn is Rotate) ==> turn == Turn::Tick { full: session.full } && next.orientation
                == session.orientation
            &&& (next.pending_orient, next.pending_count as int) == debounced(readings.push(raw))
        }),
{
    let all = readings.push(raw);
    assert(all.drop_last() =~= readings);
    lemma_debounced(all);
    let count = debounced(all).1;
    if steady_for(all, raw, ORIENT_DEBOUNCE_TICKS as int) && count < ORIENT_DEBOUNCE_TICKS {
        assert(all[all.len() - 1 - count] == raw);
    }
}

/// A fresh session has taken no reading.
pub proof fn law_a_fresh_session_forgets_readings(orientation: ScreenOrientation, now: u64)
    ensures
        ({
            let session = SessionLoop::fresh(orientation, now);
            (session.pending_orient, session.pending_count as int) == debounced(Seq::empty())
        }),
{
}

/// The count is the length of the run of equal readings at the end.
proof fn lemma_debounced(readings: Seq<i32>)
    requires
        readings.len() > 0,
    ensures
        debounced(readings).0 == Some(readings.last()),
        1 <= debounced(readings).1 <= readings.len(),
        steady_for(readings, readings.last(), debounced(readings).1),
        debounced(readings).1 < readings.len() ==> readings[readings.len() - 1 - debounced(
            readings,
        ).1] != readings.last(),
    decreases readings.len(),
{
    let front = readings.drop_last();
    let count = debounced(readings).1;
    if front.len() > 0 {
        lemma_debounced(front);
        if debounced(front).0 == Some(readings.last()) {
            assert forall|i: int|
                readings.len() - count <= i < readings.len() implies #[trigger] readings[i]
                == readings.last() by {
                if i < front.len() {
                    assert(front[i] == readings[i]);
                }
            }
            if count < readings.len() {
                assert(front[front.len() - 1 - debounced(front).1] == readings[readings.len() - 1
                    - count]);
            }
        } else {
            assert(front.last() == readings[readings.len() - 2]);
        }
    }
}

/// No outcome behind position `i` shows the app.
pub open spec fn not_shown_after(outcomes: Seq<Outcome>, i: int) -> bool {
    forall|j: int| 0 <= j < outcomes.len() && i < j ==> !(#[trigger] outcomes[j] is Show)
}

/// What the outcomes of a window add up to: the app quits if one asked for it,
/// a full redraw is due if one showed the app, and the last one to show or hide
/// the app decides whether it is hidden.
pub proof fn law_outcomes_add_up(session: SessionLoop, outcomes: Seq<Outcome>)
    ensures
        ({
            let after = session.after_outcomes(outcomes);
            &&& after.quit <==> session.quit || outcomes.contains(Outcome::Quit)
            &&& after.full <==> session.full || outcomes.contains(Outcome::Show)
            &&& after.hidden <==> {
                ||| exists|i: int|
                    0 <= i < outcomes.len() && outcomes[i] is Hide && #[trigger] not_shown_after(
                        outcomes,
                        i,
                    )
                ||| session.hidden && not_shown_after(outcomes, -1)
            }
            &&& after == (SessionLoop {
                quit: after.quit,
                full: after.full,
                hidden: after.hidden,
                ..session
            })
        }),
    decreases outcomes.len(),
{
    if outcomes.len() > 0 {
        let front = outcomes.drop_last();
        let last = outcomes.len() - 1;
        law_outcomes_add_up(session, front);
        assert forall|o: Outcome| #[trigger] outcomes.contains(o) <==> front.contains(o) || o
            == outcomes.last() by {
            if front.contains(o) {
                let i = choose|i: int| 0 <= i < front.len() && front[i] == o;
                assert(outcomes[i] == o);
            }
            if outcomes.contains(o) && o != outcomes.last() {
                let i = choose|i: int| 0 <= i < outcomes.len() && outcomes[i] == o;
                assert(front[i] == o);
            }
            assert(outcomes[last] == outcomes.last());
        }
        assert forall|i: int| i < last implies #[trigger] not_shown_after(outcomes, i) == (
        not_shown_after(front, i) && !(outcomes[last] is Show)) by {
            if not_shown_after(outcomes, i) {
                assert forall|j: int| 0 <= j < front.len() && i < j implies !(
                #[trigger] front[j] is Show) by {
                    assert(!(outcomes[j] is Show));
                }
            } else {
                let j = choose|j: int|
                    0 <= j < outcomes.len() && i < j && #[trigger] outcomes[j] is Show;
                assert(j < last ==> front[j] is Show);
            }
        }
        assert(not_shown_after(outcomes, last));
        if exists|i: int|
            0 <= i < front.len() && front[i] is Hide && #[trigger] not_shown_after(front, i) {
            let i = choose|i: int|
                0 <= i < front.len() && front[i] is Hide && #[trigger] not_shown_after(front, i);
            assert(outcomes[i] is Hide);
            assert(not_shown_after(outcomes, i) == !(outcomes[last] is Show));
        }
    }
}

/// Quitting comes before everything else.
pub proof fn law_quit_wins(session: SessionLoop, outcomes: Seq<Outcome>, now: u64)
    requires
        outcomes.contains(Outcome::Quit),
    ensures
        session.opened().after_outcomes(outcomes).after_window(now).1 is Quit,
{
    law_outcomes_add_up(session.opened(), outcomes);
}

/// A hidden app drives neither guest nor panel. A window that opens hidden ends
/// idle, or in a reboot once the app is shown, or in quitting; it never reads
/// the sensor and never ticks. And a window in which the app goes hidden ends
/// idle or in quitting.
pub proof fn law_hidden_apps_stay_off_the_panel(
    session: SessionLoop,
    outcomes: Seq<Outcome>,
    now: u64,
)
    ensures
        ({
            let ended = session.opened().after_outcomes(outcomes);
            let turn = ended.after_window(now).1;
            &&& session.hidden ==> turn is Quit || turn is Reboot || turn is Idle
            &&& ended.hidden ==> turn is Quit || turn is Idle
            &&& session.hidden && !ended.hidden && !ended.quit ==> turn is Reboot
            &&& turn is Reboot ==> session.hidden && !ended.hidden
        }),
{
    law_outcomes_add_up(session.opened(), outcomes);
}

/// While the app is visible, a show or repaint event makes the next tick a full
/// redraw (unless the session rotates, which repaints everything), and without
/// one the tick is incremental.
pub proof fn law_repaint_forces_a_full_redraw(
    session: SessionLoop,
    outcomes: Seq<Outcome>,
    now: u64,
    raw: i32,
    later: u64,
)
    requires
        !session.hidden,
        !session.opened().after_outcomes(outcomes).hidden,
        !outcomes.contains(Outcome::Quit),
    ensures
        ({
            let (polling, turn) = session.opened().after_outcomes(outcomes).after_window(now);
            let next = polling.after_poll(raw, later).1;
            &&& turn is Poll
            &&& next is Rotate || next == Turn::Tick { full: outcomes.contains(Outcome::Show) }
        }),
{
    law_outcomes_add_up(session.opened(), outcomes);
}

/// How a window ends. It ends the app exactly if the app was asked to end: by a
/// quit outcome, or because no event can come any more. Otherwise an app that is
/// hidden at the end idles, an app that came back from the background reboots,
/// and an app that was visible at both ends reads the sensor. Only idling counts
/// as a tick, and nothing else of the loop changes.
pub proof fn law_a_window_ends_as_the_app_was_asked(
    session: SessionLoop,
    outcomes: Seq<Outcome>,
    disconnected: bool,
    now: u64,
)
    ensures
        ({
            let heard = session.opened().after_outcomes(outcomes);
            let ended = SessionLoop { quit: heard.quit || disconnected, ..heard };
            let (next, turn) = ended.after_window(now);
            let asked = outcomes.contains(Outcome::Quit) || disconnected;
            &&& turn is Quit <==> asked
            &&& turn is Idle <==> !asked && ended.hidden
            &&& turn is Reboot <==> !asked && session.hidden && !ended.hidden
            &&& turn is Poll <==> !asked && !session.hidden && !ended.hidden
            &&& next.last_tick == (if turn is Idle { now } else { session.last_tick })
            &&& next == (SessionLoop { last_tick: next.last_tick, ..ended })
        }),
{
    law_outcomes_add_up(session.opened(), outcomes);
}

/// The turn of any loop state: asked to end, it ends; hidden, it idles; just
/// back from the background, it reboots; else it reads the sensor.
pub proof fn law_the_turn_follows_the_flags(session: SessionLoop, now: u64)
    ensures
        ({
            let (next, turn) = session.after_window(now);
            &&& turn is Quit <==> session.quit
            &&& turn is Idle <==> !session.quit && session.hidden
            &&& turn is Reboot <==> !session.quit && !session.hidden && session.was_hidden
            &&& turn is Poll <==> !session.quit && !session.hidden && !session.was_hidden
            &&& turn is Idle ==> next.last_tick == now
            &&& !(turn is Idle) ==> next == session
            &&& next == (SessionLoop { last_tick: next.last_tick, ..session })
        }),
{
}

/// Going to the background pauses the app: a window in which it goes there, or
/// which opens there, ends idle and leaves it there, unless something shows the
/// app or asks it to end.
pub proof fn law_the_background_pauses_the_app(
    session: SessionLoop,
    outcomes: Seq<Outcome>,
    now: u64,
)
    requires
        session.hidden || outcomes.contains(Outcome::Hide),
        !outcomes.contains(Outcome::Show),
        !outcomes.contains(Outcome::Quit),
    ensures
        session.opened().after_outcomes(outcomes).after_window(now).1 is Idle,
        session.opened().after_outcomes(outcomes).after_window(now).0.hidden,
{
    law_outcomes_add_up(session.opened(), outcomes);
    assert forall|j: int| 0 <= j < outcomes.len() implies !(#[trigger] outcomes[j] is Show) by {
        if outcomes[j] is Show {
            assert(outcomes[j] == Outcome::Show);
        }
    }
    assert(not_shown_after(outcomes, -1));
    if outcomes.contains(Outcome::Hide) {
        let i = choose|i: int| 0 <= i < outcomes.len() && outcomes[i] == Outcome::Hide;
        assert(not_shown_after(outcomes, i));
    }
}

/// Each outcome changes its own flags: quit asks to end and nothing else, show
/// brings the app to the foreground and asks for a full redraw, hide sends it to
/// the background, and nothing takes back a request to end or to redraw.
pub proof fn law_outcomes_change_their_flags(session: SessionLoop, outcome: Outcome)
    ensures
        ({
            let after = session.after_outcome(outcome);
            &&& after.quit == (session.quit || outcome is Quit)
            &&& after.full == (session.full || outcome is Show)
            &&& outcome is Show ==> !after.hidden
            &&& outcome is Hide ==> after.hidden
            &&& outcome is Quit || outcome is Continue ==> after.hidden == session.hidden
            &&& after == (SessionLoop {
                quit: after.quit,
                full: after.full,
                hidden: after.hidden,
                ..session
            })
        }),
{
}

/// Opening a window remembers whether the app is hidden, withdraws the requests
/// of the window before it, and keeps everything else.
pub proof fn law_a_window_opens_without_requests(session: SessionLoop)
    ensures
        ({
            let open = session.opened();
            &&& open.was_hidden == session.hidden && open.hidden == session.hidden
            &&& !open.full && !open.quit
            &&& open.orientation == session.orientation && open.last_tick == session.last_tick
            &&& open.pending_orient == session.pending_orient
            &&& open.pending_count == session.pending_count
        }),
{
}

/// A fresh session is in the foreground, in the given orientation, with nothing
/// asked for and no reading taken; its ticks count from the given time.
pub proof fn law_a_fresh_session_is_visible(orientation: ScreenOrientation, now: u64)
    ensures
        ({
            let session = SessionLoop::fresh(orientation, now);
            &&& !session.hidden && !session.was_hidden && !session.full && !session.quit
            &&& session.orientation == orientation && session.last_tick == now
            &&& session.pending_orient is None && session.pending_count == 0
        }),
{
}

/// A reading changes the readings' run, and else only what its turn says: a tick
/// counts as one and is a full redraw if one was asked for; a rotation takes the
/// orientation of the reading, which was not the session's, and is no tick.
pub proof fn law_a_reading_ticks_or_rotates(session: SessionLoop, raw: i32, now: u64)
    requires
        session.steady(raw) <= u32::MAX,
    ensures
        ({
            let (next, turn) = session.after_poll(raw, now);
            let run = if session.pending_orient == Some(raw) {
                session.pending_count + 1
            } else {
                1
            };
            let held = orientation::orientation_of(raw as int);
            &&& next.pending_orient == Some(raw) && next.pending_count == run
            &&& turn is Rotate || turn is Tick
            &&& turn is Rotate <==> run >= 6 && held != session.orientation
            &&& turn is Rotate ==> turn->Rotate_raw == raw && next.orientation == held
                && next.last_tick == session.last_tick
            &&& turn is Tick ==> turn->Tick_full == session.full && next.orientation
                == session.orientation && next.last_tick == now
            &&& next.hidden == session.hidden && next.was_hidden == session.was_hidden
            &&& next.full == session.full && next.quit == session.quit
        }),
{
}

/// Which readings can be counted: all, until one and the same reading has come
/// as often as the counter can count.
pub proof fn law_what_can_be_counted(session: SessionLoop, raw: i32)
    ensures
        session.steady(raw) > u32::MAX <==> session.pending_orient == Some(raw)
            && session.pending_count == u32::MAX,
{
}

/// A tick comes every 33 ms, and a turn of the device is taken after six equal
/// readings.
pub proof fn law_the_cadence_of_the_loop()
    ensures
        TICK_INTERVAL == 33 * 1_000_000,
        ORIENT_DEBOUNCE_TICKS == 6,
        150 * 1_000_000 < ORIENT_DEBOUNCE_TICKS * TICK_INTERVAL < 200 * 1_000_000,
{
}

/// The session's geometry is that of the viewport and the panel as the device is
/// held: sideways both lie with their long edge across, upright with their short
/// one, whichever way round they are given. The density is the configured one.
pub proof fn law_the_session_is_laid_out_as_held(
    geo: Geometry,
    cfg: HostConfig,
    a: int,
    b: int,
    orientation: ScreenOrientation,
    presentation: Seq<char>,
)
    requires
        a <= b,
    ensures
        ({
            let across = orientation is Landscape90Deg || orientation is Landscape270Deg;
            let (panel_w, panel_h) = if across {
                (b, a)
            } else {
                (a, b)
            };
            let (w, h) = (cfg.logical_w as int, cfg.logical_h as int);
            let (short, long) = if w <= h {
                (w, h)
            } else {
                (h, w)
            };
            let (logical_w, logical_h) = if across {
                (long, short)
            } else {
                (short, long)
            };
            let density = cfg.density as int;
            &&& session_presented(geo, cfg, a, b, orientation, presentation) <==> geo.presents(
                panel_w,
                panel_h,
                logical_w,
                logical_h,
                density,
                presentation,
            )
            &&& session_presented(geo, cfg, b, a, orientation, presentation) <==> geo.presents(
                panel_w,
                panel_h,
                logical_w,
                logical_h,
                density,
                presentation,
            )
            &&& session_presentable(cfg, a, b, orientation, presentation)
                <==> geometry::presentable(
                panel_w,
                panel_h,
                logical_w,
                logical_h,
                density,
                presentation,
            )
            &&& session_presentable(cfg, b, a, orientation, presentation)
                <==> geometry::presentable(
                panel_w,
                panel_h,
                logical_w,
                logical_h,
                density,
                presentation,
            )
        }),
{
}

} // verus!
