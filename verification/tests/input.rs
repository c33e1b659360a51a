use pocketbook_host::geometry::Geometry;
use pocketbook_host::input::{key_bit, pack_touch, Event, Input, Key, Outcome, PadSpec};

const PAD: PadSpec = PadSpec {
    up: 1,
    down: 2,
    left: 4,
    right: 8,
    cross: 16,
    circle: 32,
    start: 64,
    select: 128,
    ltrigger: 256,
    rtrigger: 512,
    analog_center: 0x8080,
};

#[test]
fn touch_packs_id_y_x() {
    assert_eq!(pack_touch(0, 10, 20), (20 << 9) | 10);
    assert_eq!(pack_touch(3, 1, 2), (3 << 18) | (2 << 9) | 1);
    // 9-bit clamp at the wire level:
    assert_eq!(pack_touch(0, 511, 511), (511 << 9) | 511);
}

#[test]
fn touch_packing_drops_what_the_wire_cannot_hold() {
    assert_eq!(pack_touch(0, 512, 513), 1 << 9);
    assert_eq!(pack_touch(256, 0, 0), 0);
    assert_eq!(pack_touch(u32::MAX, u32::MAX, u32::MAX), (1 << 26) - 1);
}

#[test]
fn keys_set_and_clear_button_bits() {
    let mut input = Input::new(0, 0, 480, 320, 960, 640, PAD);
    assert_eq!(key_bit(Key::Okay, &PAD), PAD.cross);
    input.on_event(Event::KeyDown { key: Key::Okay });
    assert_eq!(input.snapshot().0 & PAD.cross, PAD.cross);
    input.on_event(Event::KeyUp { key: Key::Okay });
    assert_eq!(input.snapshot().0 & PAD.cross, 0);
}

#[test]
fn every_mapped_key_has_its_bit() {
    assert_eq!(key_bit(Key::Up, &PAD), PAD.up);
    assert_eq!(key_bit(Key::Down, &PAD), PAD.down);
    for key in [Key::Left, Key::Prev, Key::Prev2] {
        assert_eq!(key_bit(key, &PAD), PAD.left);
    }
    for key in [Key::Right, Key::Next, Key::Next2] {
        assert_eq!(key_bit(key, &PAD), PAD.right);
    }
    assert_eq!(key_bit(Key::Back, &PAD), PAD.circle);
    assert_eq!(key_bit(Key::Menu, &PAD), PAD.start);
    assert_eq!(key_bit(Key::Home, &PAD), PAD.select);
    assert_eq!(key_bit(Key::Plus, &PAD), PAD.rtrigger);
    assert_eq!(key_bit(Key::Minus, &PAD), PAD.ltrigger);
    assert_eq!(key_bit(Key::Power, &PAD), 0);
    assert_eq!(key_bit(Key::Key7, &PAD), 0);
}

#[test]
fn keys_leave_each_other_alone() {
    let mut input = Input::new(0, 0, 480, 320, 960, 640, PAD);
    input.on_event(Event::KeyDown { key: Key::Up });
    input.on_event(Event::KeyRepeat { key: Key::Next });
    assert_eq!(input.snapshot().0, PAD.up | PAD.right);
    // Any key of a shared bit clears it.
    input.on_event(Event::KeyUp { key: Key::Right });
    assert_eq!(input.snapshot().0, PAD.up);
    assert!(matches!(input.on_event(Event::Init), Outcome::Continue));
    assert_eq!(input.snapshot().1, 0x8080);
}

#[test]
fn lifecycle_events_map_to_visibility_outcomes() {
    let mut input = Input::new(0, 0, 480, 320, 960, 640, PAD);
    // Resume / repaint: a clean full redraw in the foreground.
    assert!(matches!(input.on_event(Event::Show), Outcome::Show));
    assert!(matches!(
        input.on_event(Event::Foreground { pid: 1 }),
        Outcome::Show
    ));
    assert!(matches!(input.on_event(Event::Repaint), Outcome::Show));
    // Leaving the screen: stop driving the panel.
    assert!(matches!(input.on_event(Event::Hide), Outcome::Hide));
    assert!(matches!(
        input.on_event(Event::Background { pid: 1 }),
        Outcome::Hide
    ));
    assert!(matches!(input.on_event(Event::Exit), Outcome::Quit));
}

#[test]
fn pointer_maps_physical_to_logical() {
    // No scaling: disp = logical * density = 511*2 x 379*2 = 1022x758,
    // offset (1, 0), logical 511x379.
    let mut input = Input::new(1, 0, 511, 379, 1022, 758, PAD);
    input.on_event(Event::PointerDown { x: 103, y: 41 });
    let (_, _, touches) = input.snapshot();
    assert_eq!(touches.len(), 1);
    // logical = (physical - offset) * logical / disp
    assert_eq!(touches[0], pack_touch(0, 51, 20));
    input.on_event(Event::PointerUp { x: 103, y: 41 });
    assert!(input.snapshot().2.is_empty());
}

#[test]
fn pointer_maps_with_scaling() {
    // Scaled: render 960x544 on panel 758x1024, shown at 758x429, ox=0, oy=297.
    let mut input = Input::new(0, 297, 480, 272, 758, 429, PAD);
    input.on_event(Event::PointerDown { x: 379, y: 512 });
    let (_, _, touches) = input.snapshot();
    assert_eq!(touches.len(), 1);
    assert_eq!(touches[0], pack_touch(0, 240, 136));
}

#[test]
fn touches_outside_the_image_are_clamped() {
    let mut input = Input::new(0, 297, 480, 272, 758, 429, PAD);
    input.on_event(Event::PointerMove { x: -5, y: 3 });
    assert_eq!(input.snapshot().2, vec![pack_touch(0, 0, 0)]);
    input.on_event(Event::PointerMove { x: 757, y: 1023 });
    assert_eq!(input.snapshot().2, vec![pack_touch(0, 479, 271)]);
}

#[test]
fn touches_that_cannot_be_scaled_are_told_apart() {
    let input = Input::new(-10, 0, 480, 272, 758, 429, PAD);
    assert!(input.can_handle(&Event::PointerDown { x: 700, y: 400 }));
    assert!(!input.can_handle(&Event::PointerDown { x: i32::MAX, y: 0 }));
    assert!(!input.can_handle(&Event::PointerMove { x: 0, y: 20_000_000 }));
    assert!(input.can_handle(&Event::PointerUp { x: i32::MAX, y: 0 }));
    let empty = Input::new(0, 0, 0, 0, 0, 0, PAD);
    assert!(!empty.can_handle(&Event::PointerDown { x: 0, y: 0 }));
    assert!(empty.can_handle(&Event::Exit));
}

#[test]
fn a_touch_hits_the_logical_pixel_displayed_there() {
    let geo = Geometry::for_panel(758, 1024, 375, 500, 4, "fit");
    let input = Input::for_geometry(&geo, PAD);
    for (x, y) in [(0, 6), (1, 7), (379, 512), (757, 1015)] {
        let shown = (
            geo.screen_to_render_x(x) as u32 / geo.density,
            geo.screen_to_render_y(y) as u32 / geo.density,
        );
        assert_eq!(input.to_logical(x as i32, y as i32), shown);
    }
}
