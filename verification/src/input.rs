//! Device events to pad and touch state.
//!
//! Hardware keys set bits of the pad's button mask. The touchscreen is reported
//! as packed touches, `(id << 18) | (y << 9) | x`, in logical viewport pixels.

use vstd::prelude::*;

use crate::geometry::Geometry;

verus! {

/// A hardware key of the device.
#[derive(Clone, Copy, Debug, PartialEq, Eq, Structural)]
pub enum Key {
    Power,
    Delete,
    Okay,
    Up,
    Down,
    Left,
    Right,
    Minus,
    Plus,
    Menu,
    Prev,
    Next,
    Home,
    Back,
    Prev2,
    Next2,
    Music,
    CoverOpen,
    CoverClose,
    ZoomOut,
    ZoomIn,
    MenuPower,
    Shift,
    LanguageChange,
    KeyboardClose,
    Key0,
    Key1,
    Key2,
    Key3,
    Key4,
    Key5,
    Key6,
    Key7,
    Key8,
    Key9,
}

/// An event that the device reports.
#[derive(Clone, Copy, Debug, PartialEq, Eq, Structural)]
pub enum Event {
    Init,
    Show,
    Repaint,
    Hide,
    Exit,
    Foreground { pid: i32 },
    Background { pid: i32 },
    KeyDown { key: Key },
    KeyRepeat { key: Key },
    KeyUp { key: Key },
    PointerDown { x: i32, y: i32 },
    PointerMove { x: i32, y: i32 },
    PointerUp { x: i32, y: i32 },
}

/// What the render loop should do after handling an event.
#[derive(Clone, Copy, Debug, PartialEq, Eq, Structural)]
pub enum Outcome {
    Continue,
    Quit,
    /// The app became visible, or the system asked for a repaint: re-assert the
    /// foreground and do one clean full redraw. Coming back from the background
    /// is reported as `Foreground`, not reliably as `Show`, so `Show`,
    /// `Foreground` and `Repaint` all lead here.
    Show,
    /// The app left the screen: stop driving the panel, which the launcher owns
    /// now.
    Hide,
}

/// The guest's pad: the button bits and the resting value of the analog stick,
/// as the guest runtime defines them.
#[derive(Clone, Copy, Debug, PartialEq, Eq, Structural)]
pub struct PadSpec {
    pub up: u32,
    pub down: u32,
    pub left: u32,
    pub right: u32,
    pub cross: u32,
    pub circle: u32,
    pub start: u32,
    pub select: u32,
    pub ltrigger: u32,
    pub rtrigger: u32,
    pub analog_center: u32,
}

/// The button bits that a key stands for; none for a key without a button. The
/// page-turn keys count as left and right.
pub open spec fn bits_of(key: Key, pad: PadSpec) -> u32 {
    match key {
        Key::Up => pad.up,
        Key::Down => pad.down,
        Key::Left | Key::Prev | Key::Prev2 => pad.left,
        Key::Right | Key::Next | Key::Next2 => pad.right,
        Key::Okay => pad.cross,
        Key::Back => pad.circle,
        Key::Menu => pad.start,
        Key::Home => pad.select,
        Key::Plus => pad.rtrigger,
        Key::Minus => pad.ltrigger,
        _ => 0,
    }
}

pub fn key_bit(key: Key, pad: &PadSpec) -> (bits: u32)
    ensures
        bits == bits_of(key, *pad),
{
    match key {
        Key::Up => pad.up,
        Key::Down => pad.down,
        Key::Left | Key::Prev | Key::Prev2 => pad.left,
        Key::Right | Key::Next | Key::Next2 => pad.right,
        Key::Okay => pad.cross,
        Key::Back => pad.circle,
        Key::Menu => pad.start,
        Key::Home => pad.select,
        Key::Plus => pad.rtrigger,
        Key::Minus => pad.ltrigger,
        _ => 0,
    }
}

/// A touch on the wire: nine bits of x, nine of y, eight of the contact's id.
pub open spec fn packed(id: int, x: int, y: int) -> int {
    (id % 256) * 262144 + (y % 512) * 512 + x % 512
}

pub fn pack_touch(id: u32, x: u32, y: u32) -> (touch: u32)
    ensures
        touch == packed(id as int, x as int, y as int),
{
    assert(((id & 0xff) << 18) | ((y & 0x1ff) << 9) | (x & 0x1ff) == (id % 256) * 262144 + (y % 512)
        * 512 + x % 512) by (bit_vector);
    ((id & 0xff) << 18) | ((y & 0x1ff) << 9) | (x & 0x1ff)
}

/// A packed touch can be taken apart again: coordinates below 512 and ids below
/// 256 survive the wire.
pub proof fn law_packed_touches_unpack(id: int, x: int, y: int)
    requires
        0 <= id < 256,
        0 <= x < 512,
        0 <= y < 512,
    ensures
        packed(id, x, y) % 512 == x,
        packed(id, x, y) / 512 % 512 == y,
        packed(id, x, y) / 262144 == id,
        0 <= packed(id, x, y) <= u32::MAX,
{
}

/// A panel coordinate scaled into the viewport and kept inside it.
pub open spec fn logical_coord(p: int, origin: int, logical: int, disp: int) -> int {
    let scaled = (if p > origin {
        p - origin
    } else {
        0
    }) * logical / disp;
    if scaled < logical {
        scaled
    } else {
        logical - 1
    }
}

/// The panel coordinate can be scaled without leaving the machine integers, and
/// there is a viewport to scale it into.
pub open spec fn scalable(p: int, origin: int, logical: int, disp: int) -> bool {
    &&& i32::MIN <= p - origin <= i32::MAX
    &&& 0 < logical
    &&& 0 < disp
    &&& p > origin ==> (p - origin) * logical <= u32::MAX
}

/// Pad and touch state, with the placement that touches are mapped by.
#[derive(Clone, Copy, Debug)]
pub struct InputState {
    pub buttons: u32,
    /// The current contact in logical pixels; none while nothing touches. The
    /// device is single-touch.
    pub touch: Option<(u32, u32)>,
    pub ox: i32,
    pub oy: i32,
    pub logical_w: u32,
    pub logical_h: u32,
    /// Displayed width on the panel.
    pub disp_w: u32,
    /// Displayed height on the panel.
    pub disp_h: u32,
    pub pad: PadSpec,
}

impl InputState {
    /// A contact lies inside the viewport.
    pub open spec fn touch_in_viewport(self) -> bool {
        self.touch matches Some((x, y)) ==> x < self.logical_w && y < self.logical_h
    }

    /// The logical pixel that a panel pixel belongs to.
    pub open spec fn logical(self, x: int, y: int) -> (int, int) {
        (
            logical_coord(x, self.ox as int, self.logical_w as int, self.disp_w as int),
            logical_coord(y, self.oy as int, self.logical_h as int, self.disp_h as int),
        )
    }

    /// The panel pixel can be mapped to a logical pixel.
    pub open spec fn mappable(self, x: int, y: int) -> bool {
        &&& scalable(x, self.ox as int, self.logical_w as int, self.disp_w as int)
        &&& scalable(y, self.oy as int, self.logical_h as int, self.disp_h as int)
    }

    /// The event can be handled: a contact, if it is one, can be mapped.
    pub open spec fn accepts(self, ev: Event) -> bool {
        match ev {
            Event::PointerDown { x, y } => self.mappable(x as int, y as int),
            Event::PointerMove { x, y } => self.mappable(x as int, y as int),
            _ => true,
        }
    }

    /// The state after a contact at a panel pixel.
    pub open spec fn touched(self, x: int, y: int) -> InputState {
        let (lx, ly) = self.logical(x, y);
        InputState { touch: Some((lx as u32, ly as u32)), ..self }
    }

    /// The state after an event.
    pub open spec fn after(self, ev: Event) -> InputState {
        match ev {
            Event::KeyDown { key } => InputState {
                buttons: self.buttons | bits_of(key, self.pad),
                ..self
            },
            Event::KeyRepeat { key } => InputState {
                buttons: self.buttons | bits_of(key, self.pad),
                ..self
            },
            Event::KeyUp { key } => InputState {
                buttons: self.buttons & !bits_of(key, self.pad),
                ..self
            },
            Event::PointerDown { x, y } => self.touched(x as int, y as int),
            Event::PointerMove { x, y } => self.touched(x as int, y as int),
            Event::PointerUp { .. } => InputState { touch: None, ..self },
            _ => self,
        }
    }

    /// The packed touches that the guest is given.
    pub open spec fn touches(self) -> Seq<u32> {
        match self.touch {
            Some((x, y)) => seq![packed(0, x as int, y as int) as u32],
            None => seq![],
        }
    }
}

/// What an event asks of the render loop.
pub open spec fn outcome_of(ev: Event) -> Outcome {
    match ev {
        Event::Exit => Outcome::Quit,
        Event::Show => Outcome::Show,
        Event::Foreground { .. } => Outcome::Show,
        Event::Repaint => Outcome::Show,
        Event::Hide => Outcome::Hide,
        Event::Background { .. } => Outcome::Hide,
        _ => Outcome::Continue,
    }
}

pub struct Input {
    state: InputState,
}

impl View for Input {
    type V = InputState;

    closed spec fn view(&self) -> InputState {
        self.state
    }
}

impl Input {
    pub fn new(
        ox: i32,
        oy: i32,
        logical_w: u32,
        logical_h: u32,
        disp_w: u32,
        disp_h: u32,
        pad: PadSpec,
    ) -> (input: Input)
        ensures
            input@ == (InputState {
                buttons: 0,
                touch: None,
                ox,
                oy,
                logical_w,
                logical_h,
                disp_w,
                disp_h,
                pad,
            }),
    {
        Input {
            state: InputState {
                buttons: 0,
                touch: None,
                ox,
                oy,
                logical_w,
                logical_h,
                disp_w,
                disp_h,
                pad,
            },
        }
    }

    /// The input of a session that is laid out by `geo`.
    pub fn for_geometry(geo: &Geometry, pad: PadSpec) -> (input: Input)
        ensures
            input@ == (InputState {
                buttons: 0,
                touch: None,
                ox: geo.ox as i32,
                oy: geo.oy as i32,
                logical_w: geo.logical_w as u32,
                logical_h: geo.logical_h as u32,
                disp_w: geo.disp_w as u32,
                disp_h: geo.disp_h as u32,
                pad,
            }),
    {
        Input::new(
            geo.ox as i32,
            geo.oy as i32,
            geo.logical_w as u32,
            geo.logical_h as u32,
            geo.disp_w as u32,
            geo.disp_h as u32,
            pad,
        )
    }

    pub fn on_event(&mut self, ev: Event) -> (outcome: Outcome)
        requires
            old(self)@.accepts(ev),
        ensures
            final(self)@ == old(self)@.after(ev),
            outcome == outcome_of(ev),
    {
        match ev {
            Event::Exit => Outcome::Quit,
            Event::Show | Event::Foreground { .. } | Event::Repaint => Outcome::Show,
            Event::Hide | Event::Background { .. } => Outcome::Hide,
            Event::KeyDown { key } | Event::KeyRepeat { key } => {
                self.state.buttons = self.state.buttons | key_bit(key, &self.state.pad);
                Outcome::Continue
            },
            Event::KeyUp { key } => {
                self.state.buttons = self.state.buttons & !key_bit(key, &self.state.pad);
                Outcome::Continue
            },
            Event::PointerDown { x, y } | Event::PointerMove { x, y } => {
                self.state.touch = Some(self.to_logical(x, y));
                Outcome::Continue
            },
            Event::PointerUp { .. } => {
                self.state.touch = None;
                Outcome::Continue
            },
            Event::Init => Outcome::Continue,
        }
    }

    /// Whether the event can be handled.
    pub fn can_handle(&self, ev: &Event) -> (can: bool)
        ensures
            can == self@.accepts(*ev),
    {
        match *ev {
            Event::PointerDown { x, y } | Event::PointerMove { x, y } => can_scale(
                x,
                self.state.ox,
                self.state.logical_w,
                self.state.disp_w,
            ) && can_scale(y, self.state.oy, self.state.logical_h, self.state.disp_h),
            _ => true,
        }
    }

    /// Panel pixel to logical viewport pixel, through the displayed area.
    pub fn to_logical(&self, x: i32, y: i32) -> (logical: (u32, u32))
        requires
            self@.mappable(x as int, y as int),
        ensures
            (logical.0 as int, logical.1 as int) == self@.logical(x as int, y as int),
    {
        (
            scale_coord(x, self.state.ox, self.state.logical_w, self.state.disp_w),
            scale_coord(y, self.state.oy, self.state.logical_h, self.state.disp_h),
        )
    }

    /// Buttons, analog stick and packed touches for the guest's next frame.
    pub fn snapshot(&self) -> (snapshot: (u32, u32, Vec<u32>))
        ensures
            snapshot.0 == self@.buttons,
            snapshot.1 == self@.pad.analog_center,
            snapshot.2@ == self@.touches(),
    {
        let mut touches: Vec<u32> = Vec::new();
        if let Some((x, y)) = self.state.touch {
            touches.push(pack_touch(0, x, y));
        }
        (self.state.buttons, self.state.pad.analog_center, touches)
    }
}

fn can_scale(p: i32, origin: i32, logical: u32, disp: u32) -> (can: bool)
    ensures
        can == scalable(p as int, origin as int, logical as int, disp as int),
{
    if logical == 0 || disp == 0 {
        return false;
    }
    match p.checked_sub(origin) {
        Some(inside) => inside <= 0 || (inside as u32).checked_mul(logical).is_some(),
        None => false,
    }
}

fn scale_coord(p: i32, origin: i32, logical: u32, disp: u32) -> (coord: u32)
    requires
        scalable(p as int, origin as int, logical as int, disp as int),
    ensures
        coord == logical_coord(p as int, origin as int, logical as int, disp as int),
{
    let inside: i32 = if p - origin > 0 { p - origin } else { 0 };
    proof {
        assert(0 <= inside * logical) by (nonlinear_arith)
            requires
                0 <= inside,
                0 <= logical,
        ;
        assert(0 <= inside * logical / (disp as int) <= inside * logical) by (nonlinear_arith)
            requires
                0 <= inside * logical,
                0 < disp,
        ;
    }
    let scaled: u32 = inside as u32 * logical / disp;
    if scaled > logical - 1 {
        logical - 1
    } else {
        scaled
    }
}

/// A key's bits are set while it is down and cleared when it goes up, and no
/// other bit of the mask changes.
pub proof fn law_keys_set_and_clear_their_bits(s: InputState, key: Key, others: u32)
    requires
        others & bits_of(key, s.pad) == 0,
    ensures
        ({
            let bits = bits_of(key, s.pad);
            let down = s.after(Event::KeyDown { key });
            let up = s.after(Event::KeyUp { key });
            &&& down.buttons & bits == bits
            &&& up.buttons & bits == 0
            &&& down.buttons & others == s.buttons & others
            &&& up.buttons & others == s.buttons & others
            &&& s.after(Event::KeyRepeat { key }) == down
        }),
{
    let bits = bits_of(key, s.pad);
    let buttons = s.buttons;
    assert((buttons | bits) & bits == bits) by (bit_vector);
    assert((buttons & !bits) & bits == 0) by (bit_vector);
    assert((buttons | bits) & others == buttons & others) by (bit_vector)
        requires
            others & bits == 0,
    ;
    assert((buttons & !bits) & others == buttons & others) by (bit_vector)
        requires
            others & bits == 0,
    ;
}

/// Pressing and releasing a key whose bits were not set leaves no trace, however
/// often it repeats in between.
pub proof fn law_press_and_release_is_neutral(s: InputState, key: Key)
    requires
        s.buttons & bits_of(key, s.pad) == 0,
    ensures
        s.after(Event::KeyDown { key }).after(Event::KeyUp { key }) == s,
        s.after(Event::KeyDown { key }).after(Event::KeyRepeat { key }) == s.after(
            Event::KeyDown { key },
        ),
{
    let bits = bits_of(key, s.pad);
    let buttons = s.buttons;
    assert((buttons | bits) & !bits == buttons) by (bit_vector)
        requires
            buttons & bits == 0,
    ;
    assert((buttons | bits) | bits == buttons | bits) by (bit_vector);
}

/// An event that shows, hides or ends the app leaves pad and touch alone, and
/// no event changes how touches are mapped.
pub proof fn law_events_keep_the_rest(s: InputState, ev: Event)
    ensures
        !(outcome_of(ev) is Continue) ==> s.after(ev) == s,
        s.after(ev) == (InputState {
            buttons: s.after(ev).buttons,
            touch: s.after(ev).touch,
            ..s
        }),
{
}

/// Coming to the foreground is what `Show`, `Foreground` and `Repaint` report,
/// leaving it what `Hide` and `Background` report, and only `Exit` ends the app.
pub proof fn law_lifecycle_events_have_their_outcomes(ev: Event)
    ensures
        outcome_of(ev) is Show <==> ev is Show || ev is Foreground || ev is Repaint,
        outcome_of(ev) is Hide <==> ev is Hide || ev is Background,
        outcome_of(ev) is Quit <==> ev is Exit,
{
}

/// Every touch on the panel can be mapped, as long as the panel's pixels times
/// the viewport's fit the machine integers.
pub proof fn law_panel_touches_can_be_mapped(
    s: InputState,
    panel_w: int,
    panel_h: int,
    x: int,
    y: int,
)
    requires
        s.logical_w > 0,
        s.logical_h > 0,
        s.disp_w > 0,
        s.disp_h > 0,
        0 <= s.ox,
        0 <= s.oy,
        0 <= x < panel_w,
        0 <= y < panel_h,
        panel_w <= i32::MAX,
        panel_h <= i32::MAX,
        panel_w * s.logical_w <= u32::MAX,
        panel_h * s.logical_h <= u32::MAX,
    ensures
        s.mappable(x, y),
{
    let (w, h) = (s.logical_w as int, s.logical_h as int);
    let (inside_x, inside_y) = (x - s.ox, y - s.oy);
    assert(inside_x * w <= panel_w * w) by (nonlinear_arith)
        requires
            inside_x <= panel_w,
            0 < w,
    ;
    assert(inside_y * h <= panel_h * h) by (nonlinear_arith)
        requires
            inside_y <= panel_h,
            0 < h,
    ;
}

/// Contacts stay inside the viewport.
pub proof fn law_touch_stays_in_viewport(s: InputState, ev: Event)
    requires
        s.touch_in_viewport(),
        s.accepts(ev),
    ensures
        s.after(ev).touch_in_viewport(),
{
    match ev {
        Event::PointerDown { x, y } => lemma_mapped(s, x as int, y as int),
        Event::PointerMove { x, y } => lemma_mapped(s, x as int, y as int),
        _ => {},
    }
}

/// For a viewport of at most 512 pixels per axis, the guest reads the contact
/// back from the packed touch.
pub proof fn law_touch_survives_the_wire(s: InputState, x: u32, y: u32)
    requires
        s.logical_w <= 512,
        s.logical_h <= 512,
        s.touch_in_viewport(),
        s.touch == Some((x, y)),
    ensures
        s.touches().len() == 1,
        s.touches()[0] % 512 == x,
        s.touches()[0] / 512 % 512 == y,
{
    law_packed_touches_unpack(0, x as int, y as int);
}

/// A touch in front of the displayed image counts as its first logical pixel, a
/// touch behind it as its last.
pub proof fn law_touch_outside_is_clamped(p: int, origin: int, logical: int, disp: int)
    requires
        scalable(p, origin, logical, disp),
    ensures
        p <= origin ==> logical_coord(p, origin, logical, disp) == 0,
        p >= origin + disp ==> logical_coord(p, origin, logical, disp) == logical - 1,
{
    assert(0 * logical / disp == 0) by (nonlinear_arith)
        requires
            0 < disp,
    ;
    if p >= origin + disp {
        let inside = p - origin;
        assert(inside * logical / disp >= logical) by (nonlinear_arith)
            requires
                inside >= disp,
                0 < disp,
                0 < logical,
        ;
    }
}

/// A touch names what is displayed under it: on the displayed image, the
/// logical pixel of a touch is the one whose block of render pixels the panel
/// shows there.
pub proof fn law_touch_hits_what_is_displayed(s: InputState, geo: Geometry, x: int, y: int)
    requires
        s.ox == geo.ox,
        s.oy == geo.oy,
        s.logical_w == geo.logical_w,
        s.logical_h == geo.logical_h,
        s.disp_w == geo.disp_w,
        s.disp_h == geo.disp_h,
        geo.render_w == geo.logical_w * geo.density,
        geo.render_h == geo.logical_h * geo.density,
        geo.density > 0,
        geo.logical_w > 0,
        geo.logical_h > 0,
        geo.ox <= x < geo.ox + geo.disp_w,
        geo.oy <= y < geo.oy + geo.disp_h,
    ensures
        s.logical(x, y) == (
            geo.sampled_x(x) / geo.density as int,
            geo.sampled_y(y) / geo.density as int,
        ),
{
    lemma_hit(x - geo.ox, geo.logical_w as int, geo.density as int, geo.disp_w as int);
    lemma_hit(y - geo.oy, geo.logical_h as int, geo.density as int, geo.disp_h as int);
}

proof fn lemma_hit(u: int, logical: int, density: int, disp: int)
    requires
        0 <= u < disp,
        0 < logical,
        0 < density,
    ensures
        u * (logical * density) / disp / density == u * logical / disp,
        0 <= u * logical / disp < logical,
{
    vstd::arithmetic::div_mod::lemma_div_denominator(u * (logical * density), disp, density);
    vstd::arithmetic::div_mod::lemma_div_denominator(u * (logical * density), density, disp);
    assert(disp * density == density * disp) by (nonlinear_arith);
    assert(u * (logical * density) == (u * logical) * density) by (nonlinear_arith);
    vstd::arithmetic::div_mod::lemma_div_multiples_vanish(u * logical, density);
    assert(0 <= u * logical / disp < logical) by (nonlinear_arith)
        requires
            0 <= u < disp,
            0 < logical,
    ;
}

proof fn lemma_mapped(s: InputState, x: int, y: int)
    requires
        s.mappable(x, y),
    ensures
        0 <= s.logical(x, y).0 < s.logical_w,
        0 <= s.logical(x, y).1 < s.logical_h,
{
    lemma_coord(x, s.ox as int, s.logical_w as int, s.disp_w as int);
    lemma_coord(y, s.oy as int, s.logical_h as int, s.disp_h as int);
}

proof fn lemma_coord(p: int, origin: int, logical: int, disp: int)
    requires
        scalable(p, origin, logical, disp),
    ensures
        0 <= logical_coord(p, origin, logical, disp) < logical,
{
    let inside = if p > origin {
        p - origin
    } else {
        0
    };
    assert(0 <= inside * logical / disp) by (nonlinear_arith)
        requires
            0 <= inside,
            0 < logical,
            0 < disp,
    ;
}

/// Only key events change the button mask, and only pointer events change the
/// contact.
pub proof fn law_keys_press_and_pointers_touch(s: InputState, ev: Event)
    ensures
        !(ev is KeyDown || ev is KeyRepeat || ev is KeyUp) ==> s.after(ev).buttons == s.buttons,
        !(ev is PointerDown || ev is PointerMove || ev is PointerUp) ==> s.after(ev).touch
            == s.touch,
        s.after(ev).ox == s.ox,
        s.after(ev).oy == s.oy,
        s.after(ev).logical_w == s.logical_w,
        s.after(ev).logical_h == s.logical_h,
        s.after(ev).disp_w == s.disp_w,
        s.after(ev).disp_h == s.disp_h,
        s.after(ev).pad == s.pad,
{
}

/// Lifting the contact leaves none, wherever it is lifted; a contact that goes
/// down or moves is one, at the logical pixel of its place, whatever was touched
/// before.
pub proof fn law_the_latest_contact_counts(s: InputState, ev: Event, x: i32, y: i32)
    requires
        s.accepts(ev),
        ev == (Event::PointerDown { x, y }) || ev == (Event::PointerMove { x, y }) || ev == (
        Event::PointerUp { x, y }),
    ensures
        ev is PointerUp ==> s.after(ev).touch is None,
        !(ev is PointerUp) ==> (s.after(ev).touch matches Some((lx, ly)) && (
            lx as int,
            ly as int,
        ) == s.logical(x as int, y as int)),
{
    if !(ev is PointerUp) {
        lemma_mapped(s, x as int, y as int);
    }
}

/// A touch on the displayed image lands on the logical pixel at the same
/// fraction of the viewport, along either axis.
pub proof fn law_touches_keep_their_place(s: InputState, x: int, y: int)
    requires
        s.logical_w > 0,
        s.logical_h > 0,
    ensures
        s.ox <= x < s.ox + s.disp_w ==> s.logical(x, y).0 * s.disp_w <= (x - s.ox) * s.logical_w
            < (s.logical(x, y).0 + 1) * s.disp_w,
        s.oy <= y < s.oy + s.disp_h ==> s.logical(x, y).1 * s.disp_h <= (y - s.oy) * s.logical_h
            < (s.logical(x, y).1 + 1) * s.disp_h,
        s.disp_w > 0 && x <= s.ox ==> s.logical(x, y).0 == 0,
        s.disp_h > 0 && y <= s.oy ==> s.logical(x, y).1 == 0,
        s.disp_w > 0 && x >= s.ox + s.disp_w ==> s.logical(x, y).0 == s.logical_w - 1,
        s.disp_h > 0 && y >= s.oy + s.disp_h ==> s.logical(x, y).1 == s.logical_h - 1,
{
    lemma_place(x, s.ox as int, s.logical_w as int, s.disp_w as int);
    lemma_place(y, s.oy as int, s.logical_h as int, s.disp_h as int);
}

proof fn lemma_place(p: int, origin: int, logical: int, disp: int)
    requires
        logical > 0,
        disp >= 0,
    ensures
        origin <= p < origin + disp ==> logical_coord(p, origin, logical, disp) * disp <= (p
            - origin) * logical < (logical_coord(p, origin, logical, disp) + 1) * disp,
        disp > 0 && p <= origin ==> logical_coord(p, origin, logical, disp) == 0,
        disp > 0 && p >= origin + disp ==> logical_coord(p, origin, logical, disp) == logical - 1,
{
    let u = p - origin;
    if disp > 0 {
        assert(0 * logical / disp == 0) by (nonlinear_arith)
            requires
                0 < disp,
        ;
        if 0 <= u < disp {
            assert({
                let q = u * logical / disp;
                q < logical && q * disp <= u * logical < (q + 1) * disp
            }) by (nonlinear_arith)
                requires
                    0 <= u < disp,
                    0 < logical,
            ;
            assert(u == 0 ==> u * logical == 0) by (nonlinear_arith);
        } else if u >= disp {
            assert(u * logical / disp >= logical) by (nonlinear_arith)
                requires
                    u >= disp,
                    0 < disp,
                    0 < logical,
            ;
        }
    }
}

/// An event can be handled unless it puts a contact where the viewport or the
/// image is empty, or where the distance to the image, or that distance times
/// the viewport, leaves the machine integers.
pub proof fn law_what_can_be_handled(s: InputState, ev: Event, x: i32, y: i32)
    ensures
        !(ev is PointerDown || ev is PointerMove) ==> s.accepts(ev),
        ev == (Event::PointerDown { x, y }) || ev == (Event::PointerMove { x, y }) ==> (s.accepts(
            ev,
        ) <==> {
            &&& s.logical_w > 0 && s.disp_w > 0 && s.logical_h > 0 && s.disp_h > 0
            &&& i32::MIN <= x - s.ox <= i32::MAX
            &&& i32::MIN <= y - s.oy <= i32::MAX
            &&& x > s.ox ==> (x - s.ox) * s.logical_w <= u32::MAX
            &&& y > s.oy ==> (y - s.oy) * s.logical_h <= u32::MAX
        }),
{
}

/// The guest is given a touch exactly while there is a contact, under id zero,
/// with the low nine bits of each coordinate.
pub proof fn law_the_guest_gets_the_contact(s: InputState)
    ensures
        match s.touch {
            None => s.touches().len() == 0,
            Some((x, y)) => {
                &&& s.touches().len() == 1
                &&& s.touches()[0] % 512 == x % 512
                &&& s.touches()[0] / 512 % 512 == y % 512
                &&& s.touches()[0] / 262144 == 0
            },
        },
{
    if let Some((x, y)) = s.touch {
        law_packed_touches_unpack(0, (x % 512) as int, (y % 512) as int);
        law_the_wire_drops_high_bits(0, x as int, y as int);
    }
}

/// The wire holds nine bits of each coordinate and eight of the id; what is
/// above them is dropped.
pub proof fn law_the_wire_drops_high_bits(id: int, x: int, y: int)
    requires
        0 <= id,
        0 <= x,
        0 <= y,
    ensures
        packed(id, x, y) == packed(id % 256, x % 512, y % 512),
        0 <= packed(id, x, y) < 256 * 512 * 512,
{
}

/// The arrow keys, OK, back, menu, home and the volume keys each have their
/// button; the page-turn keys act as the sideways arrows; no other key has one.
pub proof fn law_keys_have_their_buttons(pad: PadSpec, key: Key)
    ensures
        bits_of(Key::Up, pad) == pad.up,
        bits_of(Key::Down, pad) == pad.down,
        bits_of(Key::Left, pad) == pad.left,
        bits_of(Key::Right, pad) == pad.right,
        bits_of(Key::Okay, pad) == pad.cross,
        bits_of(Key::Back, pad) == pad.circle,
        bits_of(Key::Menu, pad) == pad.start,
        bits_of(Key::Home, pad) == pad.select,
        bits_of(Key::Plus, pad) == pad.rtrigger,
        bits_of(Key::Minus, pad) == pad.ltrigger,
        key is Prev || key is Prev2 ==> bits_of(key, pad) == bits_of(Key::Left, pad),
        key is Next || key is Next2 ==> bits_of(key, pad) == bits_of(Key::Right, pad),
        bits_of(key, pad) != 0 ==> key is Up || key is Down || key is Left || key is Right
            || key is Okay || key is Back || key is Menu || key is Home || key is Plus
            || key is Minus || key is Prev || key is Prev2 || key is Next || key is Next2,
{
}

/// Keys are a set: the order of two presses does not matter, and pressing a key
/// again changes nothing.
pub proof fn law_presses_commute(s: InputState, a: Key, b: Key)
    ensures
        s.after(Event::KeyDown { key: a }).after(Event::KeyDown { key: b }) == s.after(
            Event::KeyDown { key: b },
        ).after(Event::KeyDown { key: a }),
        s.after(Event::KeyDown { key: a }).after(Event::KeyDown { key: a }) == s.after(
            Event::KeyDown { key: a },
        ),
{
    let (buttons, p, q) = (s.buttons, bits_of(a, s.pad), bits_of(b, s.pad));
    assert((buttons | p) | q == (buttons | q) | p) by (bit_vector);
    assert((buttons | p) | p == buttons | p) by (bit_vector);
}

} // verus!
