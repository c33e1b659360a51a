use pocketbook_host::geometry::Geometry;
use pocketbook_host::rect::{can_offset_rects, offset_rects, DirtyRect};

#[test]
fn fit_fills_the_plurality_panel_exactly() {
    // Default tier: 375x500 @4x is a 1500x2000 render. On the plurality
    // 1404x1872 panel the aspect matches exactly (both 3:4), so fit scales to
    // fill the whole panel with no letterbox.
    let geo = Geometry::for_panel(1404, 1872, 375, 500, 4, "fit");
    assert_eq!((geo.render_w, geo.render_h), (1500, 2000));
    assert_eq!((geo.disp_w, geo.disp_h), (1404, 1872));
    assert_eq!((geo.ox, geo.oy), (0, 0));
}

#[test]
fn fit_scales_up_a_small_panel() {
    let geo = Geometry::for_panel(600, 800, 375, 500, 4, "fit");
    assert_eq!((geo.disp_w, geo.disp_h), (600, 800));
    assert_eq!((geo.ox, geo.oy), (0, 0));
}

#[test]
fn fit_letterboxes_a_non_matching_aspect() {
    // 758x1024 is not exactly 3:4, so fit fills the width and leaves a thin
    // vertical letterbox, centered.
    let geo = Geometry::for_panel(758, 1024, 375, 500, 4, "fit");
    assert_eq!(geo.disp_w, 758);
    assert!(geo.disp_h <= 1024);
    assert_eq!(geo.ox, 0);
    assert_eq!(geo.oy, (1024 - geo.disp_h) / 2);
    assert_eq!((geo.disp_h, geo.oy), (1010, 7));
}

#[test]
fn fit_enlarges_a_small_render() {
    let geo = Geometry::for_panel(1404, 1872, 480, 272, 2, "fit");
    assert_eq!((geo.disp_w, geo.disp_h), (1404, 795));
    assert_eq!((geo.ox, geo.oy), (0, 538));
}

#[test]
fn fit_letterboxes_sideways() {
    let geo = Geometry::for_panel(1872, 1404, 375, 500, 4, "fit");
    assert_eq!((geo.disp_w, geo.disp_h), (1053, 1404));
    assert_eq!((geo.ox, geo.oy), (409, 0));
}

#[test]
fn compat_blits_when_the_render_fits() {
    // 480x272 @2x is a 960x544 render, integer-fit. On a panel that fits it,
    // the render is blit 1:1 and centered.
    let geo = Geometry::for_panel(1404, 1872, 480, 272, 2, "integer-fit");
    assert_eq!((geo.disp_w, geo.disp_h), (960, 544));
    assert_eq!((geo.ox, geo.oy), ((1404 - 960) / 2, (1872 - 544) / 2));
}

#[test]
fn compat_scales_down_an_oversized_render() {
    let geo = Geometry::for_panel(758, 1024, 480, 272, 2, "integer-fit");
    assert_eq!((geo.disp_w, geo.disp_h), (758, 429));
    assert_eq!(geo.oy, 297);
}

#[test]
fn a_scaled_side_keeps_at_least_one_pixel() {
    let geo = Geometry::for_panel(10, 10, 1000, 1, 1, "fit");
    assert_eq!((geo.disp_w, geo.disp_h), (10, 1));
    assert_eq!((geo.ox, geo.oy), (0, 4));
}

#[test]
fn sizes_that_cannot_be_presented_are_told_apart() {
    assert!(Geometry::can_present(1404, 1872, 375, 500, 4, "fit"));
    assert!(!Geometry::can_present(1404, 1872, usize::MAX, 500, 4, "fit"));
    assert!(!Geometry::can_present(usize::MAX, 1, 375, 500, 4, "fit"));
    assert!(!Geometry::can_present(10, 10, 0, 0, 4, "fit"));
    assert!(Geometry::can_present(10, 10, 0, 0, 4, "integer-fit"));
}

#[test]
fn panel_pixels_map_back_to_render_pixels() {
    let geo = Geometry::for_panel(758, 1024, 480, 272, 2, "integer-fit");
    assert_eq!(geo.screen_to_render_x(379), 480);
    assert_eq!(geo.screen_to_render_y(512), 272);
    // In front of the image.
    assert_eq!(geo.screen_to_render_y(10), 0);
    assert_eq!(geo.screen_to_render_x(757), 958);
}

#[test]
fn screen_rects_hold_exactly_the_pixels_that_sample_them() {
    for geo in [
        Geometry::for_panel(758, 1024, 480, 272, 2, "integer-fit"),
        Geometry::for_panel(1404, 1872, 375, 500, 4, "fit"),
        Geometry::for_panel(100, 100, 7, 9, 3, "fit"),
    ] {
        for (rx, rw) in [(0, 16), (16, 1), (5, 11), (20, 1)] {
            let (x, _, w, _) = geo.render_rect_to_screen(rx, 0, rw, 1);
            for sx in geo.ox..geo.ox + geo.disp_w {
                let sampled = geo.screen_to_render_x(sx);
                assert_eq!(x <= sx && sx < x + w, rx <= sampled && sampled < rx + rw);
            }
        }
    }
}

#[test]
fn screen_rects_have_exact_edges() {
    let geo = Geometry::for_panel(758, 1024, 480, 272, 2, "integer-fit");
    assert_eq!(geo.render_rect_to_screen(16, 32, 16, 16), (13, 323, 13, 12));
    assert_eq!(geo.render_rect_to_screen(0, 0, 960, 544), (0, 297, 758, 429));
    // One render column in four is shown; the others have no pixel.
    let reduced = Geometry::for_panel(10, 10, 40, 40, 1, "fit");
    assert_eq!(reduced.render_rect_to_screen(4, 1, 1, 1), (1, 1, 1, 0));
}

#[test]
fn damage_is_offset_to_the_panel() {
    let geo = Geometry::for_panel(1404, 1872, 480, 272, 2, "integer-fit");
    let dirty = vec![
        DirtyRect { x: 0, y: 0, w: 16, h: 16 },
        DirtyRect { x: 944, y: 528, w: 16, h: 16 },
    ];
    assert!(can_offset_rects(&dirty, &geo));
    assert_eq!(
        offset_rects(&dirty, &geo),
        vec![
            DirtyRect { x: 222, y: 664, w: 16, h: 16 },
            DirtyRect { x: 1166, y: 1192, w: 16, h: 16 },
        ]
    );
    assert_eq!(offset_rects(&[], &geo), vec![]);
    assert!(!can_offset_rects(&[DirtyRect { x: 1, y: 0, w: usize::MAX, h: 1 }], &geo));
}
