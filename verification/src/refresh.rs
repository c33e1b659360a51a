//! E-ink panel update policy.
//!
//! While the panel is idle, a frame's damage gets one high-quality partial
//! update. While an update is still in flight, damage accumulates and gets fast
//! dynamic updates, throttled to one per `DYNAMIC_MIN_INTERVAL`. Once the panel
//! has been quiet for `CLEANUP_QUIET`, one partial update over everything that
//! was updated dynamically clears the ghosting.
//!
//! The policy never touches the panel. Each call answers with the
//! [`PanelAction`] that is to be performed next; its completion is reported with
//! [`Refresh::drawn`] or [`Refresh::panel_status`] until the answer is
//! [`PanelAction::Done`]. Times are nanoseconds on one monotonic clock.

use vstd::prelude::*;

use crate::rect;
use crate::rect::{DirtyRect, Rect};

verus! {

/// Dynamic updates come further apart than this (20 ms).
pub const DYNAMIC_MIN_INTERVAL: u64 = 20_000_000;

/// The quiet period after which dynamic updates are cleaned up (200 ms).
pub const CLEANUP_QUIET: u64 = 200_000_000;

/// What is to be done to the panel next.
#[derive(Clone, Copy, Debug, PartialEq, Eq, Structural)]
pub enum PanelAction {
    /// A high-quality, non-flashing update of the box; report with `drawn`.
    Partial(Rect),
    /// A fast, low-quality update of the box; report with `drawn`.
    Dynamic(Rect),
    /// A flashing update of the whole panel; report with `drawn`.
    Full,
    /// Ask whether an update is in flight; report with `panel_status`.
    AskUpdating,
    /// Nothing: the panel is taken care of for this frame.
    Done,
}

/// How far the panel work of the current frame has come.
#[derive(Clone, Copy, Debug, PartialEq, Eq, Structural)]
pub enum Stage {
    /// No panel work is open.
    Rest,
    /// The cleanup update is being drawn; the frame's own damage comes next.
    CleaningUp(Option<Rect>),
    /// The panel is being asked whether it is updating; the damage waits.
    Asking(Rect),
    /// The last update of the frame is being drawn.
    Drawing,
    /// A dynamic update is being drawn; a cleanup is scheduled after it.
    DrawingDynamic,
}

/// The state of the policy.
#[derive(Clone, Copy, Debug, PartialEq, Eq, Structural)]
pub struct RefreshState {
    /// When the panel was last drawn to.
    pub last_draw: u64,
    /// Damage accumulated while an update was in flight; it needs a cleanup
    /// partial update once things go quiet.
    pub pending_cleanup: Option<Rect>,
    /// When that cleanup is due.
    pub cleanup_after: Option<u64>,
    /// The next incremental update must be a partial one: after a
    /// background/foreground cycle the panel drops dynamic updates until a
    /// partial one has primed it.
    pub force_partial: bool,
    pub stage: Stage,
}

impl RefreshState {
    /// Boxes are within the panel's coordinates, and damage waits for a cleanup
    /// exactly while one is scheduled.
    pub open spec fn sound(self) -> bool {
        &&& self.pending_cleanup matches Some(r) ==> r.sound()
        &&& match self.stage {
            Stage::CleaningUp(damage) => {
                &&& damage matches Some(d) ==> d.sound()
                &&& self.pending_cleanup is None
                &&& self.cleanup_after is None
            },
            Stage::DrawingDynamic => self.pending_cleanup is Some,
            Stage::Asking(d) => d.sound() && (self.pending_cleanup is Some
                <==> self.cleanup_after is Some),
            _ => self.pending_cleanup is Some <==> self.cleanup_after is Some,
        }
    }

    /// An update of the panel is being drawn.
    pub open spec fn drawing(self) -> bool {
        self.stage is CleaningUp || self.stage is Drawing || self.stage is DrawingDynamic
    }

    /// A cleanup is scheduled and due.
    pub open spec fn cleanup_due(self, now: u64) -> bool {
        self.cleanup_after matches Some(at) && now >= at
    }

    /// What a frame's damage asks of the panel, and the state after asking.
    pub open spec fn after_damage(self, damage: Option<Rect>) -> (RefreshState, PanelAction) {
        match damage {
            None => (RefreshState { stage: Stage::Rest, ..self }, PanelAction::Done),
            Some(d) => if self.force_partial {
                (
                    RefreshState { force_partial: false, stage: Stage::Drawing, ..self },
                    PanelAction::Partial(d),
                )
            } else {
                (RefreshState { stage: Stage::Asking(d), ..self }, PanelAction::AskUpdating)
            },
        }
    }

    /// A frame with the given damage is presented.
    pub open spec fn after_frame(self, damage: Option<Rect>, now: u64) -> (
        RefreshState,
        PanelAction,
    ) {
        if self.cleanup_due(now) {
            match self.pending_cleanup {
                Some(r) => (
                    RefreshState {
                        pending_cleanup: None,
                        cleanup_after: None,
                        stage: Stage::CleaningUp(damage),
                        ..self
                    },
                    PanelAction::Partial(r),
                ),
                None => RefreshState { cleanup_after: None, ..self }.after_damage(damage),
            }
        } else {
            self.after_damage(damage)
        }
    }

    /// An update of the panel was drawn.
    pub open spec fn after_drawn(self, now: u64) -> (RefreshState, PanelAction) {
        let drawn = RefreshState { last_draw: now, ..self };
        match self.stage {
            Stage::CleaningUp(damage) => drawn.after_damage(damage),
            Stage::DrawingDynamic => (
                RefreshState {
                    cleanup_after: Some((now + CLEANUP_QUIET) as u64),
                    stage: Stage::Rest,
                    ..drawn
                },
                PanelAction::Done,
            ),
            _ => (RefreshState { stage: Stage::Rest, ..drawn }, PanelAction::Done),
        }
    }

    /// More than the throttling interval has passed since the last drawing.
    pub open spec fn dynamic_allowed(self, now: u64) -> bool {
        now - self.last_draw > DYNAMIC_MIN_INTERVAL
    }

    /// The panel said whether an update is in flight while `d` waits.
    pub open spec fn after_status(self, d: Rect, updating: bool, now: u64) -> (
        RefreshState,
        PanelAction,
    ) {
        let all = rect::united(self.pending_cleanup, d);
        if !updating {
            (RefreshState { stage: Stage::Drawing, ..self }, PanelAction::Partial(d))
        } else if self.dynamic_allowed(now) {
            (
                RefreshState {
                    pending_cleanup: Some(all),
                    stage: Stage::DrawingDynamic,
                    ..self
                },
                PanelAction::Dynamic(all),
            )
        } else {
            (
                RefreshState {
                    pending_cleanup: Some(all),
                    cleanup_after: Some((now + CLEANUP_QUIET) as u64),
                    stage: Stage::Rest,
                    ..self
                },
                PanelAction::Done,
            )
        }
    }
}

impl RefreshState {
    /// A full redraw was ordered: nothing waits for a cleanup any more.
    pub open spec fn after_full(self) -> RefreshState {
        RefreshState {
            pending_cleanup: None,
            cleanup_after: None,
            stage: Stage::Drawing,
            ..self
        }
    }

    /// The repaint on resume was ordered: as after a full redraw, and the next
    /// incremental update is to be a partial one.
    pub open spec fn after_resume(self) -> RefreshState {
        RefreshState { force_partial: true, ..self.after_full() }
    }
}

/// The box of a frame's damage, if the frame has any.
pub open spec fn damage_of(dirty: Seq<DirtyRect>) -> Option<Rect> {
    if dirty.len() == 0 {
        None
    } else {
        Some(rect::merged(dirty))
    }
}

pub struct Refresh {
    state: RefreshState,
}

impl View for Refresh {
    type V = RefreshState;

    closed spec fn view(&self) -> RefreshState {
        self.state
    }
}

impl Refresh {
    pub fn new(now: u64) -> (refresh: Refresh)
        ensures
            refresh@ == (RefreshState {
                last_draw: now,
                pending_cleanup: None,
                cleanup_after: None,
                force_partial: false,
                stage: Stage::Rest,
            }),
            refresh@.sound(),
    {
        Refresh {
            state: RefreshState {
                last_draw: now,
                pending_cleanup: None,
                cleanup_after: None,
                force_partial: false,
                stage: Stage::Rest,
            },
        }
    }

    fn take_damage(&mut self, damage: Option<Rect>) -> (action: PanelAction)
        ensures
            (final(self)@, action) == old(self)@.after_damage(damage),
    {
        match damage {
            None => {
                self.state.stage = Stage::Rest;
                PanelAction::Done
            },
            Some(d) => {
                if self.state.force_partial {
                    self.state.force_partial = false;
                    self.state.stage = Stage::Drawing;
                    PanelAction::Partial(d)
                } else {
                    self.state.stage = Stage::Asking(d);
                    PanelAction::AskUpdating
                }
            },
        }
    }

    /// Drives the panel for one frame. `dirty` is in panel coordinates and may
    /// be empty: a due cleanup runs all the same.
    pub fn present(&mut self, dirty: &[DirtyRect], now: u64) -> (action: PanelAction)
        requires
            old(self)@.sound(),
            old(self)@.stage is Rest,
            rect::all_on_panel(dirty@),
        ensures
            (final(self)@, action) == old(self)@.after_frame(damage_of(dirty@), now),
            final(self)@.sound(),
    {
        let damage: Option<Rect> = if dirty.len() == 0 {
            None
        } else {
            proof {
                rect::law_merge_is_the_least_cover(dirty@, rect::merged(dirty@));
            }
            Some(rect::merge(dirty))
        };
        if let Some(at) = self.state.cleanup_after {
            if now >= at {
                self.state.cleanup_after = None;
                if let Some(r) = self.state.pending_cleanup {
                    self.state.pending_cleanup = None;
                    self.state.stage = Stage::CleaningUp(damage);
                    return PanelAction::Partial(r);
                }
            }
        }
        self.take_damage(damage)
    }

    /// The update that was asked for has been drawn.
    pub fn drawn(&mut self, now: u64) -> (action: PanelAction)
        requires
            old(self)@.sound(),
            old(self)@.drawing(),
            old(self)@.stage is DrawingDynamic ==> now + CLEANUP_QUIET <= u64::MAX,
        ensures
            (final(self)@, action) == old(self)@.after_drawn(now),
            final(self)@.sound(),
    {
        self.state.last_draw = now;
        match self.state.stage {
            Stage::CleaningUp(damage) => self.take_damage(damage),
            Stage::DrawingDynamic => {
                self.state.cleanup_after = Some(now + CLEANUP_QUIET);
                self.state.stage = Stage::Rest;
                PanelAction::Done
            },
            _ => {
                self.state.stage = Stage::Rest;
                PanelAction::Done
            },
        }
    }

    /// The panel was asked whether an update is in flight.
    pub fn panel_status(&mut self, updating: bool, now: u64) -> (action: PanelAction)
        requires
            old(self)@.sound(),
            old(self)@.stage is Asking,
            updating && !old(self)@.dynamic_allowed(now) ==> now + CLEANUP_QUIET <= u64::MAX,
        ensures
            (final(self)@, action) == old(self)@.after_status(
                old(self)@.stage->Asking_0,
                updating,
                now,
            ),
            final(self)@.sound(),
    {
        if let Stage::Asking(d) = self.state.stage {
            if updating {
                proof {
                    if let Some(p) = self.state.pending_cleanup {
                        rect::law_union_is_the_least_cover(p, d, d);
                    }
                }
                let all = rect::union(self.state.pending_cleanup, d);
                self.state.pending_cleanup = Some(all);
                if now.saturating_sub(self.state.last_draw) > DYNAMIC_MIN_INTERVAL {
                    self.state.stage = Stage::DrawingDynamic;
                    PanelAction::Dynamic(all)
                } else {
                    self.state.cleanup_after = Some(now + CLEANUP_QUIET);
                    self.state.stage = Stage::Rest;
                    PanelAction::Done
                }
            } else {
                self.state.stage = Stage::Drawing;
                PanelAction::Partial(d)
            }
        } else {
            PanelAction::Done
        }
    }

    /// A full, flashing redraw: first paint and orientation changes. It also
    /// clears whatever waited for a cleanup.
    pub fn full(&mut self) -> (action: PanelAction)
        ensures
            action is Full,
            final(self)@ == old(self)@.after_full(),
            final(self)@.sound(),
    {
        self.state.pending_cleanup = None;
        self.state.cleanup_after = None;
        self.state.stage = Stage::Drawing;
        PanelAction::Full
    }

    /// The repaint on coming back from the background: a partial update of the
    /// displayed region, not a flashing one. The next incremental update is
    /// forced to be partial too.
    pub fn resume(&mut self, x: i32, y: i32, w: u32, h: u32) -> (action: PanelAction)
        ensures
            action == PanelAction::Partial(Rect { x, y, w, h }),
            final(self)@ == old(self)@.after_resume(),
            final(self)@.sound(),
    {
        self.state.pending_cleanup = None;
        self.state.cleanup_after = None;
        self.state.force_partial = true;
        self.state.stage = Stage::Drawing;
        PanelAction::Partial(Rect { x, y, w, h })
    }
}

/// A frame without damage, while no cleanup is due, leaves panel and policy
/// alone.
pub proof fn law_quiet_frames_change_nothing(s: RefreshState, now: u64)
    requires
        s.stage is Rest,
        !s.cleanup_due(now),
    ensures
        s.after_frame(None, now) == (s, PanelAction::Done),
{
}

/// On an idle panel, damage gets exactly one update: a partial one of just the
/// damage box. The panel is asked first, and nothing that waits for a cleanup
/// is touched.
pub proof fn law_idle_panel_gets_one_partial_update(
    s: RefreshState,
    d: Rect,
    asked: u64,
    answered: u64,
    drawn: u64,
)
    requires
        s.stage is Rest,
        !s.force_partial,
        !s.cleanup_due(asked),
    ensures
        ({
            let (waiting, first) = s.after_frame(Some(d), asked);
            let (busy, second) = waiting.after_status(d, false, answered);
            let (done, third) = busy.after_drawn(drawn);
            &&& waiting.stage == Stage::Asking(d)
            &&& first is AskUpdating
            &&& second == PanelAction::Partial(d)
            &&& third is Done
            &&& done == RefreshState { last_draw: drawn, ..s }
        }),
{
}

/// No step loses damage. A frame's damage is drawn at once by a partial update
/// of its box, or waits for the panel's answer, or waits behind a cleanup. Behind
/// the cleanup it is drawn or waits for the answer. And whatever the panel
/// answers, the waiting damage is drawn at once by a box that covers it, or it is
/// covered by what waits for a cleanup; if it is drawn dynamically, it waits for
/// a cleanup as well.
pub proof fn law_damage_reaches_the_panel(s: RefreshState, d: Rect, updating: bool, now: u64)
    requires
        s.sound(),
    ensures
        s.stage is Rest ==> ({
            let (t, action) = s.after_frame(Some(d), now);
            ||| action == PanelAction::Partial(d) && t.stage is Drawing
            ||| action is AskUpdating && t.stage == Stage::Asking(d)
            ||| t.stage == Stage::CleaningUp(Some(d))
        }),
        s.stage == Stage::CleaningUp(Some(d)) ==> ({
            let (t, action) = s.after_drawn(now);
            ||| action == PanelAction::Partial(d) && t.stage is Drawing
            ||| action is AskUpdating && t.stage == Stage::Asking(d)
        }),
        s.stage == Stage::Asking(d) ==> ({
            let (t, action) = s.after_status(d, updating, now);
            match action {
                PanelAction::Partial(r) => r == d,
                PanelAction::Dynamic(r) => r.covers(d) && t.pending_cleanup == Some(r),
                _ => t.pending_cleanup matches Some(r) && r.covers(d),
            }
        }),
{
    if s.stage == Stage::Asking(d) {
        if let Some(p) = s.pending_cleanup {
            rect::law_union_is_the_least_cover(p, d, d);
        }
    }
}

/// The last state and answer of a frame with damage `d`, before that answer is
/// drawn: `cleaned` is when a cleanup in front of it was drawn, `updating` what
/// the panel answered at `answered`.
pub open spec fn frame_end(
    s: RefreshState,
    d: Rect,
    presented: u64,
    cleaned: u64,
    updating: bool,
    answered: u64,
) -> (RefreshState, PanelAction) {
    let first = s.after_frame(Some(d), presented);
    let second = if first.0.stage is CleaningUp {
        first.0.after_drawn(cleaned)
    } else {
        first
    };
    if second.1 is AskUpdating {
        second.0.after_status(d, updating, answered)
    } else {
        second
    }
}

/// No damage is lost over a whole frame. On every path its last answer is a
/// partial update of the damage box, or a dynamic update of a box that covers it
/// and then waits for a cleanup, or nothing; and in that last case what waits for
/// a cleanup covers the damage.
pub proof fn law_no_frame_loses_damage(
    s: RefreshState,
    d: Rect,
    presented: u64,
    cleaned: u64,
    updating: bool,
    answered: u64,
)
    requires
        s.sound(),
        s.stage is Rest,
        d.sound(),
    ensures
        ({
            let (t, action) = frame_end(s, d, presented, cleaned, updating, answered);
            match action {
                PanelAction::Partial(r) => r == d && t.stage is Drawing,
                PanelAction::Dynamic(r) => r.covers(d) && t.pending_cleanup == Some(r)
                    && t.stage is DrawingDynamic,
                PanelAction::Done => (t.pending_cleanup matches Some(r) && r.covers(d))
                    && t.cleanup_after is Some && t.stage is Rest,
                _ => false,
            }
        }),
{
    let first = s.after_frame(Some(d), presented).0;
    law_damage_reaches_the_panel(s, d, updating, presented);
    let second = if first.stage is CleaningUp {
        law_damage_reaches_the_panel(first, d, updating, cleaned);
        first.after_drawn(cleaned).0
    } else {
        first
    };
    law_damage_reaches_the_panel(second, d, updating, answered);
}

/// What waits for a cleanup keeps waiting, in a box that only grows, until a
/// partial update of that very box is drawn. (A full redraw and a resume
/// repaint everything, and clear it too.)
pub proof fn law_pending_cleanup_is_never_forgotten(
    s: RefreshState,
    p: Rect,
    damage: Option<Rect>,
    updating: bool,
    now: u64,
)
    requires
        s.sound(),
        s.pending_cleanup == Some(p),
    ensures
        s.stage is Rest ==> ({
            let (t, action) = s.after_frame(damage, now);
            action == PanelAction::Partial(p) || t.pending_cleanup == Some(p)
        }),
        s.drawing() ==> s.after_drawn(now).0.pending_cleanup == Some(p),
        s.stage matches Stage::Asking(d) ==> (s.after_status(
            d,
            updating,
            now,
        ).0.pending_cleanup matches Some(q) && q.covers(p)),
{
    if let Stage::Asking(d) = s.stage {
        rect::law_union_is_the_least_cover(p, d, d);
    }
}

/// Dynamic updates are followed by a cleanup once the panel has been quiet:
/// the first frame presented `CLEANUP_QUIET` after the last in-flight update
/// starts with a partial update of everything that was updated dynamically, and
/// no frame before that does.
pub proof fn law_cleanup_follows_the_quiet_period(
    s: RefreshState,
    d: Rect,
    asked: u64,
    drawn: u64,
    damage: Option<Rect>,
    later: u64,
)
    requires
        s.stage == Stage::Asking(d),
        asked + CLEANUP_QUIET <= u64::MAX,
        drawn + CLEANUP_QUIET <= u64::MAX,
    ensures
        ({
            let (t, action) = s.after_status(d, true, asked);
            let (u, last) = if action is Dynamic {
                (t.after_drawn(drawn).0, drawn)
            } else {
                (t, asked)
            };
            &&& u.stage is Rest
            &&& u.pending_cleanup == Some(rect::united(s.pending_cleanup, d))
            &&& later >= last + CLEANUP_QUIET ==> u.after_frame(damage, later).1
                == PanelAction::Partial(rect::united(s.pending_cleanup, d))
            &&& later < last + CLEANUP_QUIET ==> u.after_frame(damage, later) == u.after_damage(
                damage,
            )
        }),
{
}

/// Dynamic updates are throttled: one is issued only while an update is in
/// flight and more than `DYNAMIC_MIN_INTERVAL` after the panel was last drawn
/// to, and only drawing moves that time.
pub proof fn law_dynamic_updates_are_throttled(
    s: RefreshState,
    d: Rect,
    damage: Option<Rect>,
    updating: bool,
    now: u64,
)
    ensures
        s.after_status(d, updating, now).1 is Dynamic ==> updating && now > s.last_draw
            + DYNAMIC_MIN_INTERVAL,
        !(s.after_frame(damage, now).1 is Dynamic),
        !(s.after_drawn(now).1 is Dynamic),
        s.after_status(d, updating, now).0.last_draw == s.last_draw,
        s.after_frame(damage, now).0.last_draw == s.last_draw,
        s.after_drawn(now).0.last_draw == now,
{
}

/// After a resume, the first damage is drawn by a partial update of its box
/// without asking the panel; later damage is treated as usual again.
pub proof fn law_resume_primes_the_panel(s: RefreshState, d: Rect, drawn: u64, now: u64)
    ensures
        ({
            let resumed = s.after_resume().after_drawn(drawn).0;
            let (t, action) = resumed.after_frame(Some(d), now);
            &&& action == PanelAction::Partial(d)
            &&& !t.force_partial
            &&& resumed.after_frame(None, now) == (resumed, PanelAction::Done)
        }),
{
}

impl Stage {
    /// How many reports are at most still to come for the frame.
    pub open spec fn reports_left(self) -> nat {
        match self {
            Stage::Rest => 0,
            Stage::Drawing => 1,
            Stage::DrawingDynamic => 1,
            Stage::Asking(_) => 2,
            Stage::CleaningUp(_) => 3,
        }
    }
}

/// Every report brings a frame closer to its end, and the answer is `Done`
/// exactly at the end.
pub proof fn law_every_frame_ends(
    s: RefreshState,
    damage: Option<Rect>,
    updating: bool,
    now: u64,
)
    ensures
        s.stage is Rest ==> (s.after_frame(damage, now).1 is Done <==> s.after_frame(
            damage,
            now,
        ).0.stage is Rest),
        s.drawing() ==> ({
            let (t, action) = s.after_drawn(now);
            &&& t.stage.reports_left() < s.stage.reports_left()
            &&& action is Done <==> t.stage is Rest
        }),
        s.stage matches Stage::Asking(d) ==> ({
            let (t, action) = s.after_status(d, updating, now);
            &&& t.stage.reports_left() < s.stage.reports_left()
            &&& action is Done <==> t.stage is Rest
        }),
{
}

/// The panel's answer decides how waiting damage is drawn. An idle panel gets a
/// partial update of the damage box. While an update is in flight, a dynamic
/// update is issued if and only if more than 20 ms have passed since the panel
/// was last drawn to; it shows the box around the damage and all that waits for
/// a cleanup. Either way that box then waits for a cleanup: 200 ms from now if
/// nothing is drawn, and from the end of the drawing otherwise.
pub proof fn law_the_answer_decides_the_update(s: RefreshState, d: Rect, updating: bool, now: u64)
    requires
        s.sound(),
        s.stage == Stage::Asking(d),
    ensures
        ({
            let (t, action) = s.after_status(d, updating, now);
            &&& action is Partial <==> !updating
            &&& action is Dynamic <==> updating && now > s.last_draw + 20_000_000
            &&& action is Done <==> updating && now <= s.last_draw + 20_000_000
            &&& action is Partial ==> action->Partial_0 == d && t.pending_cleanup
                == s.pending_cleanup && t.stage is Drawing
            &&& action is Dynamic ==> t.pending_cleanup == Some(action->Dynamic_0)
                && t.stage is DrawingDynamic
            &&& action is Done ==> t.stage is Rest
            &&& action is Done && now + 200_000_000 <= u64::MAX ==> (
            t.cleanup_after matches Some(at) && at == now + 200_000_000)
            &&& !(action is Done) ==> t.cleanup_after == s.cleanup_after
            &&& t.last_draw == s.last_draw && t.force_partial == s.force_partial
        }),
        updating ==> ({
            let around = s.after_status(d, updating, now).0.pending_cleanup->0;
            let right = d.x + d.w;
            let bottom = d.y + d.h;
            match s.pending_cleanup {
                None => around == d,
                Some(p) => {
                    &&& around.x == (if p.x <= d.x { p.x } else { d.x })
                    &&& around.y == (if p.y <= d.y { p.y } else { d.y })
                    &&& around.x + around.w == (if p.x + p.w >= right { p.x + p.w } else { right })
                    &&& around.y + around.h == (if p.y + p.h >= bottom {
                        p.y + p.h
                    } else {
                        bottom
                    })
                },
            }
        }),
        updating ==> s.after_status(d, updating, now).0.pending_cleanup is Some,
{
}

/// How a frame begins. If a cleanup is due, it is drawn first: a partial update
/// of all that waits for it, after which nothing waits and no cleanup is
/// scheduled, while the frame's own damage comes next. If none is due, nothing
/// that waits is touched: a frame without damage is done, damage right after a
/// resume is drawn by a partial update of its box, and other damage asks the
/// panel first.
pub proof fn law_a_frame_begins_with_what_is_due(s: RefreshState, damage: Option<Rect>, now: u64)
    requires
        s.sound(),
        s.stage is Rest,
    ensures
        ({
            let (t, action) = s.after_frame(damage, now);
            let due = s.cleanup_after matches Some(at) && now >= at;
            &&& t.last_draw == s.last_draw
            &&& due ==> {
                &&& s.pending_cleanup matches Some(p) && action == PanelAction::Partial(p)
                &&& t.pending_cleanup is None && t.cleanup_after is None
                &&& t.stage == Stage::CleaningUp(damage)
                &&& t.force_partial == s.force_partial
            }
            &&& !due ==> {
                &&& t.pending_cleanup == s.pending_cleanup && t.cleanup_after == s.cleanup_after
                &&& action is Done <==> damage is None
                &&& action is Done ==> t == s
                &&& action is Partial <==> damage is Some && s.force_partial
                &&& action is Partial ==> action->Partial_0 == damage->0 && t.stage is Drawing
                &&& action is AskUpdating <==> damage is Some && !s.force_partial
                &&& action is AskUpdating ==> t.stage == Stage::Asking(damage->0)
                &&& damage is Some ==> !t.force_partial
            }
        }),
{
}

/// What follows a drawing. It is when the panel was last drawn to, and nothing
/// that waits for a cleanup is touched by it. After a cleanup the frame's own
/// damage has its turn as if it had just been presented; after a dynamic update
/// a cleanup is scheduled 200 ms on; after any other update the schedule stays.
pub proof fn law_a_drawing_is_followed_up(s: RefreshState, now: u64)
    requires
        s.sound(),
        s.stage is CleaningUp || s.stage is Drawing || s.stage is DrawingDynamic,
    ensures
        s.drawing(),
        ({
            let (t, action) = s.after_drawn(now);
            &&& t.last_draw == now
            &&& t.pending_cleanup == s.pending_cleanup
            &&& s.stage is DrawingDynamic && now + 200_000_000 <= u64::MAX ==> (
            t.cleanup_after matches Some(at) && at == now + 200_000_000)
            &&& !(s.stage is DrawingDynamic) ==> t.cleanup_after == s.cleanup_after
            &&& !(s.stage is CleaningUp) ==> action is Done && t.stage is Rest && t.force_partial
                == s.force_partial
            &&& s.stage matches Stage::CleaningUp(damage) ==> {
                let rested = RefreshState { last_draw: now, stage: Stage::Rest, ..s };
                (t, action) == rested.after_frame(damage, now)
            }
        }),
{
}

/// A full redraw and a resume leave nothing to clean up, and change nothing else
/// but what the next update has to be: a resume makes it a partial one, a full
/// redraw leaves that as it was.
pub proof fn law_repaints_leave_nothing_to_clean_up(s: RefreshState, drawn: u64, later: u64)
    ensures
        ({
            let full = s.after_full();
            let resumed = s.after_resume();
            &&& full.pending_cleanup is None && full.cleanup_after is None
            &&& full.stage is Drawing && full.last_draw == s.last_draw
            &&& full.force_partial == s.force_partial
            &&& resumed.pending_cleanup is None && resumed.cleanup_after is None
            &&& resumed.stage is Drawing && resumed.last_draw == s.last_draw
            &&& resumed.force_partial
            &&& full.after_drawn(drawn).0.after_frame(None, later).1 is Done
            &&& resumed.after_drawn(drawn).0.after_frame(None, later).1 is Done
        }),
{
}

/// A frame has damage exactly if it has rects, and its damage is the least box
/// around all of them.
pub proof fn law_the_damage_is_the_box_of_all_rects(dirty: Seq<DirtyRect>, other: Rect)
    requires
        rect::all_on_panel(dirty),
    ensures
        damage_of(dirty) is Some <==> dirty.len() > 0,
        damage_of(dirty) matches Some(d) ==> {
            &&& d.sound()
            &&& forall|i: int|
                0 <= i < dirty.len() ==> d.x <= (#[trigger] dirty[i]).x && d.y <= dirty[i].y
                    && dirty[i].x + dirty[i].w <= d.x + d.w && dirty[i].y + dirty[i].h <= d.y + d.h
            &&& (forall|i: int| 0 <= i < dirty.len() ==> other.covers_dirty(#[trigger] dirty[i]))
                ==> other.covers(d)
        },
{
    if dirty.len() > 0 {
        rect::law_merge_is_the_least_cover(dirty, other);
        let d = rect::merged(dirty);
        assert forall|i: int| 0 <= i < dirty.len() implies d.x <= (#[trigger] dirty[i]).x && d.y
            <= dirty[i].y && dirty[i].x + dirty[i].w <= d.x + d.w && dirty[i].y + dirty[i].h <= d.y
            + d.h by {
            assert(d.covers_dirty(dirty[i]));
        }
    }
}

/// An animation keeps up: a frame presented while an update is in flight is
/// drawn dynamically, by a box that covers its damage, as soon as more than
/// 20 ms have passed since the panel was last drawn to, however long ago that
/// was.
pub proof fn law_animations_keep_up(s: RefreshState, d: Rect, presented: u64, answered: u64)
    requires
        s.sound(),
        s.stage is Rest,
        d.sound(),
        !s.force_partial,
        s.cleanup_after matches Some(at) ==> presented < at,
    ensures
        ({
            let action = frame_end(s, d, presented, presented, true, answered).1;
            &&& action is Dynamic <==> answered > s.last_draw + 20_000_000
            &&& action matches PanelAction::Dynamic(r) ==> r.x <= d.x && r.y <= d.y && d.x + d.w
                <= r.x + r.w && d.y + d.h <= r.y + r.h
        }),
{
    law_no_frame_loses_damage(s, d, presented, presented, true, answered);
}

/// The two intervals of the policy, 20 ms and 200 ms.
pub proof fn law_the_intervals_of_the_policy()
    ensures
        DYNAMIC_MIN_INTERVAL == 20 * 1_000_000,
        CLEANUP_QUIET == 200 * 1_000_000,
        CLEANUP_QUIET == 10 * DYNAMIC_MIN_INTERVAL,
{
}

/// Between drawings, damage of a sound state waits for a cleanup just while one
/// is scheduled. A state in which nothing waits is sound, and so is one in which
/// a box within the panel's coordinates waits for a scheduled cleanup.
pub proof fn law_what_is_sound(s: RefreshState)
    ensures
        s.sound() ==> (s.stage is Rest || s.stage is Drawing || s.stage is Asking) ==> (
        s.pending_cleanup is Some <==> s.cleanup_after is Some),
        s.pending_cleanup is None && s.cleanup_after is None && (s.stage is Rest
            || s.stage is Drawing) ==> s.sound(),
        s.pending_cleanup matches Some(r) && 0 <= r.x && 0 <= r.y && r.x + r.w <= i32::MAX && r.y
            + r.h <= i32::MAX && s.cleanup_after is Some && (s.stage is Rest
            || s.stage is Drawing || s.stage is DrawingDynamic) ==> s.sound(),
{
}

} // verus!
