//! Where the fixed logical viewport of a bundle lands on the panel.
//!
//! A bundle is laid out for one logical viewport and rendered at an integer
//! density. The render is shown on a panel of another size, scaled without
//! floats and centered. The mappings between panel pixels and render pixels
//! are nearest-neighbor: panel column `s` shows render column
//! `(s - ox) * render_w / disp_w`.

use vstd::prelude::*;

verus! {

/// `a / b` rounded up.
pub open spec fn ceiling(a: int, b: int) -> int {
    (a + b - 1) / b
}

/// Width, not height, limits how far a render of `render_w` by `render_h` can
/// be scaled on the panel.
pub open spec fn width_binds(panel_w: int, panel_h: int, render_w: int, render_h: int) -> bool {
    panel_w * render_h < panel_h * render_w
}

/// `n`, but never less than one pixel.
pub open spec fn some_pixels(n: int) -> int {
    if n < 1 {
        1
    } else {
        n
    }
}

/// The size of the render scaled to the panel with its aspect kept: the
/// binding axis takes the whole panel, the other one follows, rounded down.
pub open spec fn fitted(panel_w: int, panel_h: int, render_w: int, render_h: int) -> (int, int) {
    if width_binds(panel_w, panel_h, render_w, render_h) {
        (panel_w, some_pixels(render_h * panel_w / render_w))
    } else {
        (some_pixels(render_w * panel_h / render_h), panel_h)
    }
}

/// The presentation scales the render; otherwise it is shown pixel for pixel.
pub open spec fn scales(
    panel_w: int,
    panel_h: int,
    render_w: int,
    render_h: int,
    presentation: Seq<char>,
) -> bool {
    presentation == "fit"@ || render_w > panel_w || render_h > panel_h
}

/// The size at which the render is displayed.
pub open spec fn displayed(
    panel_w: int,
    panel_h: int,
    render_w: int,
    render_h: int,
    presentation: Seq<char>,
) -> (int, int) {
    if scales(panel_w, panel_h, render_w, render_h, presentation) {
        fitted(panel_w, panel_h, render_w, render_h)
    } else {
        (render_w, render_h)
    }
}

/// The offset that centers `shown` pixels in `available` ones.
pub open spec fn centering(available: int, shown: int) -> int {
    if shown < available {
        (available - shown) / 2
    } else {
        0
    }
}

/// The sizes can be presented at all: every product fits the machine word, and
/// the size is never divided by an empty render.
pub open spec fn presentable(
    panel_w: int,
    panel_h: int,
    logical_w: int,
    logical_h: int,
    density: int,
    presentation: Seq<char>,
) -> bool {
    let render_w = logical_w * density;
    let render_h = logical_h * density;
    &&& render_w <= usize::MAX
    &&& render_h <= usize::MAX
    &&& scales(panel_w, panel_h, render_w, render_h, presentation) ==> {
        &&& panel_w * render_h <= usize::MAX
        &&& panel_h * render_w <= usize::MAX
        &&& width_binds(panel_w, panel_h, render_w, render_h) || render_h > 0
    }
}

/// Logical viewport, raster density and placement for one panel.
#[derive(Clone, Copy, Debug, PartialEq, Eq, Structural)]
pub struct Geometry {
    pub logical_w: usize,
    pub logical_h: usize,
    pub density: u32,
    pub render_w: usize,
    pub render_h: usize,
    /// Displayed width on the panel after presentation scaling.
    pub disp_w: usize,
    /// Displayed height on the panel after presentation scaling.
    pub disp_h: usize,
    /// Horizontal centering offset on the panel.
    pub ox: usize,
    /// Vertical centering offset on the panel.
    pub oy: usize,
}

impl Geometry {
    /// This is the geometry of the given viewport on the given panel.
    pub open spec fn presents(
        self,
        panel_w: int,
        panel_h: int,
        logical_w: int,
        logical_h: int,
        density: int,
        presentation: Seq<char>,
    ) -> bool {
        &&& self.logical_w == logical_w
        &&& self.logical_h == logical_h
        &&& self.density == density
        &&& self.render_w == logical_w * density
        &&& self.render_h == logical_h * density
        &&& (self.disp_w as int, self.disp_h as int) == displayed(
            panel_w,
            panel_h,
            logical_w * density,
            logical_h * density,
            presentation,
        )
        &&& self.ox == centering(panel_w, self.disp_w as int)
        &&& self.oy == centering(panel_h, self.disp_h as int)
    }

    /// Presents the fixed logical surface of a bundle (logical times density is
    /// the render) on a panel whose dimensions already reflect the device
    /// orientation.
    ///
    /// - `fit` scales the render up or down to fill as much of the panel as
    ///   possible while preserving its aspect;
    /// - anything else (`integer-fit`) shows the render pixel for pixel where it
    ///   fits, and scales it down where it does not.
    pub fn for_panel(
        panel_w: usize,
        panel_h: usize,
        logical_w: usize,
        logical_h: usize,
        density: u32,
        presentation: &str,
    ) -> (geo: Geometry)
        requires
            presentable(
                panel_w as int,
                panel_h as int,
                logical_w as int,
                logical_h as int,
                density as int,
                presentation@,
            ),
        ensures
            geo.presents(
                panel_w as int,
                panel_h as int,
                logical_w as int,
                logical_h as int,
                density as int,
                presentation@,
            ),
    {
        assert(0 <= logical_w * density && 0 <= logical_h * density) by (nonlinear_arith)
            requires
                0 <= logical_w,
                0 <= logical_h,
                0 <= density,
        ;
        let render_w: usize = logical_w * density as usize;
        let render_h: usize = logical_h * density as usize;
        let fit = presentation.to_owned() == "fit".to_owned();
        let (disp_w, disp_h): (usize, usize) = if fit || render_w > panel_w || render_h > panel_h {
            Self::fit(panel_w, panel_h, render_w, render_h)
        } else {
            (render_w, render_h)
        };
        let ox: usize = panel_w.saturating_sub(disp_w) / 2;
        let oy: usize = panel_h.saturating_sub(disp_h) / 2;
        Geometry { logical_w, logical_h, density, render_w, render_h, disp_w, disp_h, ox, oy }
    }

    /// Whether the sizes can be presented.
    pub fn can_present(
        panel_w: usize,
        panel_h: usize,
        logical_w: usize,
        logical_h: usize,
        density: u32,
        presentation: &str,
    ) -> (can: bool)
        ensures
            can == presentable(
                panel_w as int,
                panel_h as int,
                logical_w as int,
                logical_h as int,
                density as int,
                presentation@,
            ),
    {
        let render_w: usize = match logical_w.checked_mul(density as usize) {
            Some(render_w) => render_w,
            None => {
                return false;
            },
        };
        let render_h: usize = match logical_h.checked_mul(density as usize) {
            Some(render_h) => render_h,
            None => {
                return false;
            },
        };
        let fit = presentation.to_owned() == "fit".to_owned();
        if !(fit || render_w > panel_w || render_h > panel_h) {
            return true;
        }
        match (panel_w.checked_mul(render_h), panel_h.checked_mul(render_w)) {
            (Some(across), Some(down)) => across < down || render_h > 0,
            _ => false,
        }
    }

    /// Scales to fit, picking the binding axis without floats.
    fn fit(panel_w: usize, panel_h: usize, render_w: usize, render_h: usize) -> (size: (
        usize,
        usize,
    ))
        requires
            panel_w * render_h <= usize::MAX,
            panel_h * render_w <= usize::MAX,
            width_binds(panel_w as int, panel_h as int, render_w as int, render_h as int)
                || render_h > 0,
        ensures
            (size.0 as int, size.1 as int) == fitted(
                panel_w as int,
                panel_h as int,
                render_w as int,
                render_h as int,
            ),
    {
        proof {
            lemma_product_bounds(panel_w as int, render_h as int);
            lemma_product_bounds(panel_h as int, render_w as int);
        }
        if panel_w * render_h < panel_h * render_w {
            proof {
                lemma_binding_width(
                    panel_w as int,
                    panel_h as int,
                    render_w as int,
                    render_h as int,
                );
                lemma_quotient_bounds(render_h * panel_w, render_w as int);
            }
            let h: usize = render_h * panel_w / render_w;
            (panel_w, if h < 1 { 1 } else { h })
        } else {
            proof {
                lemma_quotient_bounds(render_w * panel_h, render_h as int);
            }
            let w: usize = render_w * panel_h / render_h;
            (if w < 1 { 1 } else { w }, panel_h)
        }
    }

    /// The render column that panel column `sx` shows.
    pub open spec fn sampled_x(self, sx: int) -> int {
        inward(sx, self.ox as int) * self.render_w / self.disp_w as int
    }

    /// The render row that panel row `sy` shows.
    pub open spec fn sampled_y(self, sy: int) -> int {
        inward(sy, self.oy as int) * self.render_h / self.disp_h as int
    }

    /// Maps a panel x coordinate back to a render-buffer x coordinate.
    pub fn screen_to_render_x(&self, sx: usize) -> (rx: usize)
        requires
            self.disp_w > 0,
            inward(sx as int, self.ox as int) * self.render_w <= usize::MAX,
        ensures
            rx == self.sampled_x(sx as int),
    {
        proof {
            lemma_product_bounds(inward(sx as int, self.ox as int), self.render_w as int);
            lemma_quotient_bounds(
                inward(sx as int, self.ox as int) * self.render_w,
                self.disp_w as int,
            );
        }
        sx.saturating_sub(self.ox) * self.render_w / self.disp_w
    }

    /// Maps a panel y coordinate back to a render-buffer y coordinate.
    pub fn screen_to_render_y(&self, sy: usize) -> (ry: usize)
        requires
            self.disp_h > 0,
            inward(sy as int, self.oy as int) * self.render_h <= usize::MAX,
        ensures
            ry == self.sampled_y(sy as int),
    {
        proof {
            lemma_product_bounds(inward(sy as int, self.oy as int), self.render_h as int);
            lemma_quotient_bounds(
                inward(sy as int, self.oy as int) * self.render_h,
                self.disp_h as int,
            );
        }
        sy.saturating_sub(self.oy) * self.render_h / self.disp_h
    }

    /// The panel columns `lo..hi` that show render columns `rx..rx + rw`.
    pub open spec fn columns(self, rx: int, rw: int) -> (int, int) {
        (
            self.ox + ceiling(rx * self.disp_w, self.render_w as int),
            self.ox + ceiling((rx + rw) * self.disp_w, self.render_w as int),
        )
    }

    /// The panel rows `lo..hi` that show render rows `ry..ry + rh`.
    pub open spec fn rows(self, ry: int, rh: int) -> (int, int) {
        (
            self.oy + ceiling(ry * self.disp_h, self.render_h as int),
            self.oy + ceiling((ry + rh) * self.disp_h, self.render_h as int),
        )
    }

    /// A render-buffer rect can be mapped to the panel without leaving the
    /// machine word.
    pub open spec fn maps(self, rx: int, ry: int, rw: int, rh: int) -> bool {
        &&& self.render_w > 0
        &&& self.render_h > 0
        &&& rx + rw <= usize::MAX
        &&& ry + rh <= usize::MAX
        &&& (rx + rw) * self.disp_w <= usize::MAX
        &&& (ry + rh) * self.disp_h <= usize::MAX
        &&& self.columns(rx, rw).0 <= usize::MAX
        &&& self.rows(ry, rh).0 <= usize::MAX
    }

    /// Whether a render-buffer rect can be mapped to the panel.
    pub fn can_map(&self, rx: usize, ry: usize, rw: usize, rh: usize) -> (can: bool)
        ensures
            can == self.maps(rx as int, ry as int, rw as int, rh as int),
    {
        can_map_span(rx, rw, self.disp_w, self.render_w, self.ox) && can_map_span(
            ry,
            rh,
            self.disp_h,
            self.render_h,
            self.oy,
        )
    }

    /// Maps a render-buffer rect to the screen rect of exactly the panel pixels
    /// that sample from within it. The screen rect is empty where a strongly
    /// reduced image skips the rect altogether.
    pub fn render_rect_to_screen(&self, rx: usize, ry: usize, rw: usize, rh: usize) -> (rect: (
        usize,
        usize,
        usize,
        usize,
    ))
        requires
            self.maps(rx as int, ry as int, rw as int, rh as int),
        ensures
            rect.0 == self.columns(rx as int, rw as int).0,
            rect.1 == self.rows(ry as int, rh as int).0,
            rect.0 + rect.2 == self.columns(rx as int, rw as int).1,
            rect.1 + rect.3 == self.rows(ry as int, rh as int).1,
    {
        proof {
            lemma_edges(rx as int, rw as int, self.disp_w as int, self.render_w as int);
            lemma_edges(ry as int, rh as int, self.disp_h as int, self.render_h as int);
        }
        let left: usize = ceil_div(rx * self.disp_w, self.render_w);
        let top: usize = ceil_div(ry * self.disp_h, self.render_h);
        let right: usize = ceil_div((rx + rw) * self.disp_w, self.render_w);
        let bottom: usize = ceil_div((ry + rh) * self.disp_h, self.render_h);
        (left + self.ox, top + self.oy, right - left, bottom - top)
    }
}

/// How far inside the displayed image a panel coordinate lies; a coordinate in
/// front of the image counts as its first pixel.
pub open spec fn inward(s: int, origin: int) -> int {
    if s > origin {
        s - origin
    } else {
        0
    }
}

fn can_map_span(start: usize, len: usize, disp: usize, render: usize, origin: usize) -> (can: bool)
    ensures
        can == {
            &&& render > 0
            &&& start + len <= usize::MAX
            &&& (start + len) * disp <= usize::MAX
            &&& origin + ceiling(start * disp, render as int) <= usize::MAX
        },
{
    if render == 0 {
        return false;
    }
    proof {
        lemma_edges(start as int, len as int, disp as int, render as int);
    }
    match start.checked_add(len) {
        Some(end) => match end.checked_mul(disp) {
            Some(_) => origin.checked_add(ceil_div(start * disp, render)).is_some(),
            None => false,
        },
        None => false,
    }
}

fn ceil_div(a: usize, b: usize) -> (q: usize)
    requires
        b > 0,
    ensures
        q == ceiling(a as int, b as int),
{
    proof {
        lemma_ceiling(a as int, b as int);
    }
    if a == 0 {
        0
    } else {
        (a - 1) / b + 1
    }
}

/// Every panel pixel of the displayed image that samples from a render-buffer
/// rect lies in the screen rect that `render_rect_to_screen` gives for it, and
/// no other pixel does.
pub proof fn law_screen_rect_is_what_samples_the_rect(
    geo: Geometry,
    rx: int,
    ry: int,
    rw: int,
    rh: int,
    sx: int,
    sy: int,
)
    requires
        geo.render_w > 0,
        geo.render_h > 0,
        geo.disp_w > 0,
        geo.disp_h > 0,
        0 <= rx,
        0 <= ry,
        0 <= rw,
        0 <= rh,
        geo.ox <= sx,
        geo.oy <= sy,
    ensures
        geo.columns(rx, rw).0 <= sx < geo.columns(rx, rw).1 <==> rx <= geo.sampled_x(sx) < rx + rw,
        geo.rows(ry, rh).0 <= sy < geo.rows(ry, rh).1 <==> ry <= geo.sampled_y(sy) < ry + rh,
{
    lemma_sampling(sx - geo.ox, rx, geo.render_w as int, geo.disp_w as int);
    lemma_sampling(sx - geo.ox, rx + rw, geo.render_w as int, geo.disp_w as int);
    lemma_sampling(sy - geo.oy, ry, geo.render_h as int, geo.disp_h as int);
    lemma_sampling(sy - geo.oy, ry + rh, geo.render_h as int, geo.disp_h as int);
}

/// A rect inside the render buffer lands inside the displayed image.
pub proof fn law_screen_rect_stays_in_the_image(geo: Geometry, rx: int, ry: int, rw: int, rh: int)
    requires
        geo.render_w > 0,
        geo.render_h > 0,
        0 <= rx,
        0 <= ry,
        0 <= rw,
        0 <= rh,
        rx + rw <= geo.render_w,
        ry + rh <= geo.render_h,
    ensures
        geo.ox <= geo.columns(rx, rw).0 <= geo.columns(rx, rw).1 <= geo.ox + geo.disp_w,
        geo.oy <= geo.rows(ry, rh).0 <= geo.rows(ry, rh).1 <= geo.oy + geo.disp_h,
{
    lemma_edges(rx, rw, geo.disp_w as int, geo.render_w as int);
    lemma_edges(ry, rh, geo.disp_h as int, geo.render_h as int);
    lemma_whole(rx + rw, geo.disp_w as int, geo.render_w as int);
    lemma_whole(ry + rh, geo.disp_h as int, geo.render_h as int);
}

/// The displayed image lies on the panel, and the margins on its two sides
/// differ by at most one pixel.
pub proof fn law_image_is_centered_on_the_panel(
    geo: Geometry,
    panel_w: int,
    panel_h: int,
    logical_w: int,
    logical_h: int,
    density: int,
    presentation: Seq<char>,
)
    requires
        0 <= panel_w,
        0 <= panel_h,
        0 <= logical_w,
        0 <= logical_h,
        0 <= density,
        geo.presents(panel_w, panel_h, logical_w, logical_h, density, presentation),
        presentable(panel_w, panel_h, logical_w, logical_h, density, presentation),
        scales(panel_w, panel_h, logical_w * density, logical_h * density, presentation) ==> (
        width_binds(panel_w, panel_h, logical_w * density, logical_h * density) || panel_w > 0),
    ensures
        geo.ox + geo.disp_w <= panel_w,
        geo.oy + geo.disp_h <= panel_h,
        0 <= (panel_w - geo.disp_w - geo.ox) - geo.ox <= 1,
        0 <= (panel_h - geo.disp_h - geo.oy) - geo.oy <= 1,
{
    let (render_w, render_h) = (logical_w * density, logical_h * density);
    if scales(panel_w, panel_h, render_w, render_h, presentation) {
        lemma_fitted(panel_w, panel_h, render_w, render_h);
    }
}

/// `fit` fills the panel along one axis, and no size with the exact aspect of
/// the render that the panel can hold is larger than the displayed one.
pub proof fn law_fit_fills_the_panel(
    geo: Geometry,
    panel_w: int,
    panel_h: int,
    logical_w: int,
    logical_h: int,
    density: int,
    presentation: Seq<char>,
    w: int,
    h: int,
)
    requires
        0 <= panel_w,
        0 <= panel_h,
        0 <= logical_w,
        0 <= logical_h,
        0 <= density,
        geo.presents(panel_w, panel_h, logical_w, logical_h, density, presentation),
        presentable(panel_w, panel_h, logical_w, logical_h, density, presentation),
        presentation == "fit"@,
        0 <= w <= panel_w,
        0 <= h <= panel_h,
        w * (logical_h * density) == h * (logical_w * density),
    ensures
        geo.disp_w == panel_w || geo.disp_h == panel_h,
        w <= geo.disp_w,
        h <= geo.disp_h,
{
    let (render_w, render_h) = (logical_w * density, logical_h * density);
    lemma_product_bounds(logical_w, density);
    lemma_product_bounds(logical_h, density);
    lemma_product_bounds(panel_w, render_h);
    lemma_product_bounds(panel_h, render_w);
    if width_binds(panel_w, panel_h, render_w, render_h) {
        lemma_binding_width(panel_w, panel_h, render_w, render_h);
        lemma_floor(render_h * panel_w, render_w, h);
        assert(w * render_h <= render_h * panel_w) by (nonlinear_arith)
            requires
                0 <= w <= panel_w,
                0 <= render_h,
        ;
    } else {
        lemma_floor(render_w * panel_h, render_h, w);
        assert(h * render_w <= render_w * panel_h) by (nonlinear_arith)
            requires
                0 <= h <= panel_h,
                0 <= render_w,
        ;
    }
}

/// A displayed image keeps the aspect of the render to within one pixel along
/// the axis that does not bind; only a one-pixel side can be thicker than the
/// aspect asks for.
pub proof fn law_scaling_keeps_the_aspect(
    geo: Geometry,
    panel_w: int,
    panel_h: int,
    logical_w: int,
    logical_h: int,
    density: int,
    presentation: Seq<char>,
)
    requires
        0 <= panel_w,
        0 <= panel_h,
        0 <= logical_w,
        0 <= logical_h,
        0 <= density,
        geo.presents(panel_w, panel_h, logical_w, logical_h, density, presentation),
        presentable(panel_w, panel_h, logical_w, logical_h, density, presentation),
        width_binds(panel_w, panel_h, logical_w * density, logical_h * density) || logical_h
            * density > 0,
    ensures
        ({
            let render_w = geo.render_w as int;
            let render_h = geo.render_h as int;
            if width_binds(panel_w, panel_h, render_w, render_h) {
                &&& geo.disp_w * render_h < (geo.disp_h + 1) * render_w
                &&& geo.disp_h * render_w <= geo.disp_w * render_h || geo.disp_h == 1
            } else {
                &&& geo.disp_h * render_w < (geo.disp_w + 1) * render_h
                &&& geo.disp_w * render_h <= geo.disp_h * render_w || geo.disp_w == 1
            }
        }),
{
    let (render_w, render_h) = (logical_w * density, logical_h * density);
    lemma_product_bounds(logical_w, density);
    lemma_product_bounds(logical_h, density);
    lemma_product_bounds(panel_w, render_h);
    lemma_product_bounds(panel_h, render_w);
    if scales(panel_w, panel_h, render_w, render_h, presentation) {
        if width_binds(panel_w, panel_h, render_w, render_h) {
            lemma_binding_width(panel_w, panel_h, render_w, render_h);
            lemma_rounding(render_h * panel_w, render_w);
        } else {
            lemma_rounding(render_w * panel_h, render_h);
        }
    } else {
        if width_binds(panel_w, panel_h, render_w, render_h) {
            lemma_binding_width(panel_w, panel_h, render_w, render_h);
        }
        lemma_product_bounds(render_w, render_h);
        assert((render_h + 1) * render_w == render_h * render_w + render_w) by (nonlinear_arith);
        assert((render_w + 1) * render_h == render_w * render_h + render_h) by (nonlinear_arith);
    }
}

/// Any presentation but `fit` never enlarges the render, and shows it pixel for
/// pixel on a panel that can hold it.
pub proof fn law_integer_fit_never_enlarges(
    geo: Geometry,
    panel_w: int,
    panel_h: int,
    logical_w: int,
    logical_h: int,
    density: int,
    presentation: Seq<char>,
)
    requires
        0 <= panel_w,
        0 <= panel_h,
        0 <= logical_w,
        0 <= logical_h,
        0 <= density,
        geo.presents(panel_w, panel_h, logical_w, logical_h, density, presentation),
        presentable(panel_w, panel_h, logical_w, logical_h, density, presentation),
        presentation != "fit"@,
        scales(panel_w, panel_h, logical_w * density, logical_h * density, presentation) ==> (
        logical_w * density > 0 && logical_h * density > 0),
    ensures
        geo.disp_w <= geo.render_w,
        geo.disp_h <= geo.render_h,
        geo.render_w <= panel_w && geo.render_h <= panel_h ==> geo.disp_w == geo.render_w
            && geo.disp_h == geo.render_h,
{
    let (render_w, render_h) = (logical_w * density, logical_h * density);
    if scales(panel_w, panel_h, render_w, render_h, presentation) {
        if width_binds(panel_w, panel_h, render_w, render_h) {
            assert(panel_w <= render_w) by (nonlinear_arith)
                requires
                    panel_w * render_h < panel_h * render_w,
                    render_w > panel_w || render_h > panel_h,
                    0 <= panel_w,
                    0 <= panel_h,
                    0 < render_w,
                    0 < render_h,
            ;
            lemma_shrunk(render_h, panel_w, render_w);
        } else {
            assert(panel_h <= render_h) by (nonlinear_arith)
                requires
                    panel_w * render_h >= panel_h * render_w,
                    render_w > panel_w || render_h > panel_h,
                    0 <= panel_w,
                    0 <= panel_h,
                    0 < render_w,
                    0 < render_h,
            ;
            lemma_shrunk(render_w, panel_h, render_h);
        }
    }
}

/// On a panel with the aspect of the render, `fit` leaves no margin.
pub proof fn law_fit_covers_a_panel_of_the_same_aspect(
    geo: Geometry,
    panel_w: int,
    panel_h: int,
    logical_w: int,
    logical_h: int,
    density: int,
    presentation: Seq<char>,
)
    requires
        0 <= panel_w,
        0 <= panel_h,
        0 <= logical_w,
        0 <= logical_h,
        0 <= density,
        geo.presents(panel_w, panel_h, logical_w, logical_h, density, presentation),
        presentable(panel_w, panel_h, logical_w, logical_h, density, presentation),
        presentation == "fit"@,
        panel_w > 0,
        panel_w * (logical_h * density) == panel_h * (logical_w * density),
    ensures
        geo.disp_w == panel_w,
        geo.disp_h == panel_h,
        geo.ox == 0,
        geo.oy == 0,
{
    let (render_w, render_h) = (logical_w * density, logical_h * density);
    assert(render_w * panel_h / render_h == panel_w) by (nonlinear_arith)
        requires
            panel_w * render_h == panel_h * render_w,
            render_h > 0,
    ;
}

/// Where the width binds, the render is not empty sideways nor the panel upright.
proof fn lemma_binding_width(panel_w: int, panel_h: int, render_w: int, render_h: int)
    by (nonlinear_arith)
    requires
        0 <= panel_w,
        0 <= panel_h,
        0 <= render_w,
        0 <= render_h,
        width_binds(panel_w, panel_h, render_w, render_h),
    ensures
        render_w > 0,
        panel_h > 0,
{
}

/// A fitted size is no larger than the panel.
proof fn lemma_fitted(panel_w: int, panel_h: int, render_w: int, render_h: int)
    requires
        0 <= panel_w,
        0 <= panel_h,
        0 <= render_w,
        0 <= render_h,
        width_binds(panel_w, panel_h, render_w, render_h) || (render_h > 0 && panel_w > 0),
    ensures
        fitted(panel_w, panel_h, render_w, render_h).0 <= panel_w,
        fitted(panel_w, panel_h, render_w, render_h).1 <= panel_h,
{
    if width_binds(panel_w, panel_h, render_w, render_h) {
        lemma_binding_width(panel_w, panel_h, render_w, render_h);
        assert(render_h * panel_w / render_w <= panel_h) by (nonlinear_arith)
            requires
                panel_w * render_h < panel_h * render_w,
                render_w > 0,
        ;
    } else {
        assert(render_w * panel_h / render_h <= panel_w) by (nonlinear_arith)
            requires
                panel_w * render_h >= panel_h * render_w,
                render_h > 0,
        ;
    }
}

/// `a / b` raised to one pixel is off `a` by less than `b`, unless it was raised.
proof fn lemma_rounding(a: int, b: int)
    requires
        0 <= a,
        0 < b,
    ensures
        a < (some_pixels(a / b) + 1) * b,
        some_pixels(a / b) * b <= a || some_pixels(a / b) == 1,
{
    let n = some_pixels(a / b);
    lemma_floor(a, b, n + 1);
    lemma_floor(a, b, n);
}

/// Scaling by `panel / render` with `panel <= render` does not enlarge.
proof fn lemma_shrunk(side: int, panel: int, render: int)
    requires
        0 < side,
        0 <= panel <= render,
        0 < render,
    ensures
        some_pixels(side * panel / render) <= side,
{
    lemma_floor(side * panel, render, side + 1);
    assert(side * panel < (side + 1) * render) by (nonlinear_arith)
        requires
            0 < side,
            0 <= panel <= render,
            0 < render,
    ;
}

/// `k` is at most the sampled pixel exactly where the panel pixel is at or past
/// the scaled edge of `k`.
proof fn lemma_sampling(u: int, k: int, render: int, disp: int)
    requires
        0 <= u,
        0 <= k,
        0 < render,
        0 < disp,
    ensures
        k <= u * render / disp <==> ceiling(k * disp, render) <= u,
{
    lemma_floor(u * render, disp, k);
    lemma_ceiling_order(k * disp, render, u);
}

proof fn lemma_floor(a: int, b: int, k: int)
    by (nonlinear_arith)
    requires
        0 < b,
    ensures
        k <= a / b <==> k * b <= a,
{
}

proof fn lemma_ceiling_order(a: int, b: int, u: int)
    requires
        0 < b,
    ensures
        ceiling(a, b) <= u <==> a <= u * b,
{
    lemma_floor(a + b - 1, b, u + 1);
    assert((u + 1) * b == u * b + b) by (nonlinear_arith);
}

proof fn lemma_ceiling(a: int, b: int)
    requires
        0 <= a,
        0 < b,
    ensures
        0 <= ceiling(a, b) <= a,
        a == 0 ==> ceiling(a, b) == 0,
        a > 0 ==> ceiling(a, b) == (a - 1) / b + 1,
{
    lemma_ceiling_order(a, b, a);
    lemma_ceiling_order(a, b, 0);
    lemma_ceiling_order(a, b, -1);
    assert(a <= a * b) by (nonlinear_arith)
        requires
            0 <= a,
            0 < b,
    ;
    assert(a > 0 ==> (a + b - 1) / b == (a - 1) / b + 1) by (nonlinear_arith)
        requires
            0 < b,
    ;
}

/// The screen edges of a mappable rect keep their order and fit the machine
/// word apart.
pub(crate) proof fn lemma_span(geo: Geometry, rx: int, ry: int, rw: int, rh: int)
    requires
        geo.maps(rx, ry, rw, rh),
        0 <= rx,
        0 <= ry,
        0 <= rw,
        0 <= rh,
    ensures
        0 <= geo.columns(rx, rw).1 - geo.columns(rx, rw).0 <= usize::MAX,
        0 <= geo.rows(ry, rh).1 - geo.rows(ry, rh).0 <= usize::MAX,
        0 <= geo.columns(rx, rw).0 <= usize::MAX,
        0 <= geo.rows(ry, rh).0 <= usize::MAX,
{
    lemma_edges(rx, rw, geo.disp_w as int, geo.render_w as int);
    lemma_edges(ry, rh, geo.disp_h as int, geo.render_h as int);
}

/// Scaled edges keep their order, and their products are no larger than the
/// last one.
proof fn lemma_edges(a: int, len: int, disp: int, render: int)
    requires
        0 <= a,
        0 <= len,
        0 <= disp,
        0 < render,
    ensures
        0 <= a * disp <= (a + len) * disp,
        0 <= ceiling(a * disp, render) <= ceiling((a + len) * disp, render) <= (a + len) * disp,
{
    assert(0 <= a * disp <= (a + len) * disp) by (nonlinear_arith)
        requires
            0 <= a,
            0 <= len,
            0 <= disp,
    ;
    lemma_ceiling((a + len) * disp, render);
    lemma_ceiling(a * disp, render);
    let last = ceiling((a + len) * disp, render);
    lemma_ceiling_order((a + len) * disp, render, last);
    lemma_ceiling_order(a * disp, render, last);
}

/// An edge inside the render scales to an edge inside the image.
proof fn lemma_whole(edge: int, disp: int, render: int)
    requires
        0 <= edge <= render,
        0 <= disp,
        0 < render,
    ensures
        ceiling(edge * disp, render) <= disp,
{
    lemma_ceiling_order(edge * disp, render, disp);
    assert(edge * disp <= disp * render) by (nonlinear_arith)
        requires
            0 <= edge <= render,
            0 <= disp,
    ;
}

proof fn lemma_product_bounds(a: int, b: int)
    by (nonlinear_arith)
    requires
        0 <= a,
        0 <= b,
    ensures
        a * b == b * a,
        0 <= a * b,
{
}

proof fn lemma_quotient_bounds(a: int, b: int)
    by (nonlinear_arith)
    requires
        0 <= a,
        0 < b,
    ensures
        0 <= a / b <= a,
{
}

/// Where a viewport lands, told from the sizes alone. The render is the viewport
/// times the density. Shown without `fit` on a panel that can hold it, it keeps
/// its size. Otherwise the axis on which the panel is relatively shorter takes
/// the whole panel, and the other one is the largest that keeps the aspect, but
/// at least one pixel. What is left over is split evenly, and an image that is
/// not smaller than the panel starts at its edge.
pub proof fn law_placement_follows_from_the_sizes(
    geo: Geometry,
    panel_w: int,
    panel_h: int,
    logical_w: int,
    logical_h: int,
    density: int,
    presentation: Seq<char>,
)
    requires
        0 <= panel_w,
        0 <= panel_h,
        0 <= logical_w,
        0 <= logical_h,
        0 <= density,
        geo.presents(panel_w, panel_h, logical_w, logical_h, density, presentation),
        presentable(panel_w, panel_h, logical_w, logical_h, density, presentation),
    ensures
        geo.logical_w == logical_w && geo.logical_h == logical_h && geo.density == density,
        geo.render_w == logical_w * density && geo.render_h == logical_h * density,
        ({
            let (render_w, render_h) = (logical_w * density, logical_h * density);
            let holds = render_w <= panel_w && render_h <= panel_h;
            &&& presentation != "fit"@ && holds ==> geo.disp_w == render_w && geo.disp_h
                == render_h
            &&& (presentation == "fit"@ || !holds) && panel_w * render_h < panel_h * render_w ==> {
                &&& geo.disp_w == panel_w
                &&& geo.disp_h >= 1
                &&& geo.disp_h * render_w <= panel_w * render_h || geo.disp_h == 1
                &&& panel_w * render_h < (geo.disp_h + 1) * render_w
            }
            &&& (presentation == "fit"@ || !holds) && panel_w * render_h >= panel_h * render_w ==> {
                &&& geo.disp_h == panel_h
                &&& geo.disp_w >= 1
                &&& geo.disp_w * render_h <= panel_h * render_w || geo.disp_w == 1
                &&& panel_h * render_w < (geo.disp_w + 1) * render_h
            }
        }),
        geo.disp_w <= panel_w ==> 0 <= panel_w - geo.disp_w - 2 * geo.ox <= 1,
        geo.disp_h <= panel_h ==> 0 <= panel_h - geo.disp_h - 2 * geo.oy <= 1,
        geo.disp_w >= panel_w ==> geo.ox == 0,
        geo.disp_h >= panel_h ==> geo.oy == 0,
{
    let (render_w, render_h) = (logical_w * density, logical_h * density);
    lemma_product_bounds(logical_w, density);
    lemma_product_bounds(logical_h, density);
    lemma_product_bounds(panel_w, render_h);
    lemma_product_bounds(panel_h, render_w);
    if scales(panel_w, panel_h, render_w, render_h, presentation) {
        if width_binds(panel_w, panel_h, render_w, render_h) {
            lemma_binding_width(panel_w, panel_h, render_w, render_h);
            lemma_rounding(render_h * panel_w, render_w);
        } else {
            lemma_rounding(render_w * panel_h, render_h);
        }
    }
}

/// What can be presented: everything whose render fits the machine word, and
/// which, if it has to be scaled, gives products that fit it too and an image
/// that is not empty along the axis by which it is scaled.
pub proof fn law_what_can_be_presented(
    panel_w: int,
    panel_h: int,
    logical_w: int,
    logical_h: int,
    density: int,
    presentation: Seq<char>,
)
    ensures
        ({
            let (render_w, render_h) = (logical_w * density, logical_h * density);
            let unscaled = presentation != "fit"@ && render_w <= panel_w && render_h <= panel_h;
            presentable(panel_w, panel_h, logical_w, logical_h, density, presentation) <==> {
                &&& render_w <= usize::MAX && render_h <= usize::MAX
                &&& unscaled || {
                    &&& panel_w * render_h <= usize::MAX
                    &&& panel_h * render_w <= usize::MAX
                    &&& render_h > 0 || panel_w * render_h < panel_h * render_w
                }
            }
        }),
{
}

/// A panel pixel of the image shows the render pixel at the same fraction of the
/// render, rounded down; a panel pixel in front of the image counts as its first.
pub proof fn law_sampling_keeps_the_place(geo: Geometry, sx: int, sy: int)
    ensures
        geo.disp_w > 0 && sx >= geo.ox ==> geo.sampled_x(sx) * geo.disp_w <= (sx - geo.ox)
            * geo.render_w < (geo.sampled_x(sx) + 1) * geo.disp_w,
        geo.disp_h > 0 && sy >= geo.oy ==> geo.sampled_y(sy) * geo.disp_h <= (sy - geo.oy)
            * geo.render_h < (geo.sampled_y(sy) + 1) * geo.disp_h,
        geo.disp_w > 0 && sx <= geo.ox ==> geo.sampled_x(sx) == 0,
        geo.disp_h > 0 && sy <= geo.oy ==> geo.sampled_y(sy) == 0,
{
    lemma_sampled(sx, geo.ox as int, geo.render_w as int, geo.disp_w as int);
    lemma_sampled(sy, geo.oy as int, geo.render_h as int, geo.disp_h as int);
}

proof fn lemma_sampled(s: int, origin: int, render: int, disp: int)
    requires
        0 <= render,
        0 <= disp,
    ensures
        disp > 0 && s >= origin ==> inward(s, origin) * render / disp * disp <= (s - origin)
            * render < (inward(s, origin) * render / disp + 1) * disp,
        disp > 0 && s <= origin ==> inward(s, origin) * render / disp == 0,
{
    if disp > 0 {
        let a = inward(s, origin) * render;
        lemma_floor(a, disp, a / disp);
        lemma_floor(a, disp, a / disp + 1);
        if s <= origin {
            assert(0 * render == 0) by (nonlinear_arith);
            assert(0int / disp == 0) by (nonlinear_arith)
                requires
                    disp > 0,
            ;
        }
    }
}

/// The edges of a screen rect lie where the sampling crosses the edges of the
/// render rect: panel columns in front of it sample columns in front of the
/// render rect, and panel columns before its end sample columns before that
/// one's end. The same holds of rows. An empty image has only empty screen
/// rects.
pub proof fn law_screen_edges_are_sampling_edges(
    geo: Geometry,
    rx: int,
    ry: int,
    rw: int,
    rh: int,
    sx: int,
    sy: int,
)
    requires
        geo.render_w > 0,
        geo.render_h > 0,
        0 <= rx,
        0 <= ry,
        0 <= rw,
        0 <= rh,
        geo.ox <= sx,
        geo.oy <= sy,
    ensures
        geo.columns(rx, rw).0 >= geo.ox,
        geo.rows(ry, rh).0 >= geo.oy,
        geo.disp_w > 0 ==> (sx < geo.columns(rx, rw).0 <==> geo.sampled_x(sx) < rx),
        geo.disp_w > 0 ==> (sx < geo.columns(rx, rw).1 <==> geo.sampled_x(sx) < rx + rw),
        geo.disp_h > 0 ==> (sy < geo.rows(ry, rh).0 <==> geo.sampled_y(sy) < ry),
        geo.disp_h > 0 ==> (sy < geo.rows(ry, rh).1 <==> geo.sampled_y(sy) < ry + rh),
        geo.disp_w == 0 ==> geo.columns(rx, rw) == (geo.ox as int, geo.ox as int),
        geo.disp_h == 0 ==> geo.rows(ry, rh) == (geo.oy as int, geo.oy as int),
{
    lemma_edges(rx, rw, geo.disp_w as int, geo.render_w as int);
    lemma_edges(ry, rh, geo.disp_h as int, geo.render_h as int);
    if geo.disp_w > 0 {
        lemma_sampling(sx - geo.ox, rx, geo.render_w as int, geo.disp_w as int);
        lemma_sampling(sx - geo.ox, rx + rw, geo.render_w as int, geo.disp_w as int);
    } else {
        assert((rx + rw) * 0 == 0);
    }
    if geo.disp_h > 0 {
        lemma_sampling(sy - geo.oy, ry, geo.render_h as int, geo.disp_h as int);
        lemma_sampling(sy - geo.oy, ry + rh, geo.render_h as int, geo.disp_h as int);
    } else {
        assert((ry + rh) * 0 == 0);
    }
}

/// What can be mapped to the panel: every rect of a render that is not empty,
/// unless its far edge, that edge scaled to the image, or its near edge on the
/// panel leaves the machine word.
pub proof fn law_what_can_be_mapped(geo: Geometry, rx: int, ry: int, rw: int, rh: int)
    ensures
        geo.maps(rx, ry, rw, rh) <==> {
            &&& geo.render_w > 0 && geo.render_h > 0
            &&& rx + rw <= usize::MAX && (rx + rw) * geo.disp_w <= usize::MAX
            &&& ry + rh <= usize::MAX && (ry + rh) * geo.disp_h <= usize::MAX
            &&& geo.columns(rx, rw).0 <= usize::MAX && geo.rows(ry, rh).0 <= usize::MAX
        },
{
}

} // verus!
