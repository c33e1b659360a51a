//! Rects of changed pixels: damage in render or panel pixels, and the boxes
//! that are handed to the panel controller.

use vstd::prelude::*;

use crate::geometry::Geometry;

verus! {

/// A rect of changed pixels, in render-buffer or panel coordinates.
#[derive(Clone, Copy, Debug, PartialEq, Eq, Structural)]
pub struct DirtyRect {
    pub x: usize,
    pub y: usize,
    pub w: usize,
    pub h: usize,
}

/// A box in the coordinates of the panel controller.
#[derive(Clone, Copy, Debug, PartialEq, Eq, Structural)]
pub struct Rect {
    pub x: i32,
    pub y: i32,
    pub w: u32,
    pub h: u32,
}

impl DirtyRect {
    /// The rect lies within the coordinates of the panel controller.
    pub open spec fn on_panel(self) -> bool {
        &&& self.x + self.w <= i32::MAX
        &&& self.y + self.h <= i32::MAX
    }
}

/// Every rect lies within the coordinates of the panel controller.
pub open spec fn all_on_panel(rects: Seq<DirtyRect>) -> bool {
    forall|i: int| 0 <= i < rects.len() ==> (#[trigger] rects[i]).on_panel()
}

/// Whether every rect lies within the coordinates of the panel controller.
pub fn can_present_rects(rects: &[DirtyRect]) -> (can: bool)
    ensures
        can == all_on_panel(rects@),
{
    let limit: usize = 0x7fff_ffff;
    let mut i: usize = 0;
    while i < rects.len()
        invariant
            i <= rects@.len(),
            limit == i32::MAX,
            forall|j: int| 0 <= j < i ==> (#[trigger] rects@[j]).on_panel(),
        decreases rects@.len() - i,
    {
        let r = rects[i];
        assert(r == rects@[i as int]);
        if r.w > limit || r.x > limit - r.w || r.h > limit || r.y > limit - r.h {
            return false;
        }
        i = i + 1;
    }
    true
}

impl Rect {
    /// The box starts at non-negative coordinates and ends within the
    /// coordinates of the panel controller.
    pub open spec fn sound(self) -> bool {
        &&& 0 <= self.x
        &&& 0 <= self.y
        &&& self.x + self.w <= i32::MAX
        &&& self.y + self.h <= i32::MAX
    }

    /// Every pixel of `inner` lies in this box.
    pub open spec fn covers(self, inner: Rect) -> bool {
        &&& self.x <= inner.x
        &&& self.y <= inner.y
        &&& inner.x + inner.w <= self.x + self.w
        &&& inner.y + inner.h <= self.y + self.h
    }

    /// Every pixel of `inner` lies in this box.
    pub open spec fn covers_dirty(self, inner: DirtyRect) -> bool {
        &&& self.x <= inner.x
        &&& self.y <= inner.y
        &&& inner.x + inner.w <= self.x + self.w
        &&& inner.y + inner.h <= self.y + self.h
    }

    /// The right edge, computed in the controller's signed coordinates.
    pub open spec fn right(self) -> int {
        self.x + (self.w as i32)
    }

    /// The bottom edge, computed in the controller's signed coordinates.
    pub open spec fn bottom(self) -> int {
        self.y + (self.h as i32)
    }
}

pub open spec fn least(a: int, b: int) -> int {
    if a <= b {
        a
    } else {
        b
    }
}

pub open spec fn greatest(a: int, b: int) -> int {
    if a >= b {
        a
    } else {
        b
    }
}

/// The leftmost coordinate of the rects, in controller coordinates.
pub open spec fn leftmost(rects: Seq<DirtyRect>) -> int
    decreases rects.len(),
{
    if rects.len() == 0 {
        i32::MAX as int
    } else {
        least(leftmost(rects.drop_last()), (rects.last().x as i32) as int)
    }
}

/// The topmost coordinate of the rects, in controller coordinates.
pub open spec fn topmost(rects: Seq<DirtyRect>) -> int
    decreases rects.len(),
{
    if rects.len() == 0 {
        i32::MAX as int
    } else {
        least(topmost(rects.drop_last()), (rects.last().y as i32) as int)
    }
}

/// The rightmost edge of the rects, in controller coordinates.
pub open spec fn rightmost(rects: Seq<DirtyRect>) -> int
    decreases rects.len(),
{
    if rects.len() == 0 {
        0
    } else {
        greatest(
            rightmost(rects.drop_last()),
            ((rects.last().x + rects.last().w) as i32) as int,
        )
    }
}

/// The lowest edge of the rects, in controller coordinates.
pub open spec fn bottommost(rects: Seq<DirtyRect>) -> int
    decreases rects.len(),
{
    if rects.len() == 0 {
        0
    } else {
        greatest(
            bottommost(rects.drop_last()),
            ((rects.last().y + rects.last().h) as i32) as int,
        )
    }
}

/// The edges of the rects and of their box fit the machine integers.
pub open spec fn mergeable(rects: Seq<DirtyRect>) -> bool {
    &&& forall|i: int|
        0 <= i < rects.len() ==> (#[trigger] rects[i]).x + rects[i].w <= usize::MAX && rects[i].y
            + rects[i].h <= usize::MAX
    &&& rightmost(rects) - leftmost(rects) <= i32::MAX
    &&& bottommost(rects) - topmost(rects) <= i32::MAX
}

/// The box from the leftmost, topmost coordinate of the rects to their
/// rightmost, lowest edge.
pub open spec fn merged(rects: Seq<DirtyRect>) -> Rect {
    Rect {
        x: leftmost(rects) as i32,
        y: topmost(rects) as i32,
        w: (rightmost(rects) - leftmost(rects)) as u32,
        h: (bottommost(rects) - topmost(rects)) as u32,
    }
}

/// The one box that is updated for a frame's damage.
pub fn merge(rects: &[DirtyRect]) -> (merge: Rect)
    requires
        mergeable(rects@),
    ensures
        merge == merged(rects@),
{
    let mut x0: i32 = i32::MAX;
    let mut y0: i32 = i32::MAX;
    let mut x1: i32 = 0;
    let mut y1: i32 = 0;
    let mut i: usize = 0;
    while i < rects.len()
        invariant
            i <= rects@.len(),
            mergeable(rects@),
            x0 == leftmost(rects@.take(i as int)),
            y0 == topmost(rects@.take(i as int)),
            x1 == rightmost(rects@.take(i as int)),
            y1 == bottommost(rects@.take(i as int)),
            0 <= x1,
            0 <= y1,
        decreases rects@.len() - i,
    {
        proof {
            assert(rects@.take(i + 1).drop_last() =~= rects@.take(i as int));
            assert(rects@.take(i + 1).last() == rects@[i as int]);
        }
        let r = rects[i];
        let (left, top): (i32, i32) = (r.x as i32, r.y as i32);
        let (right, bottom): (i32, i32) = ((r.x + r.w) as i32, (r.y + r.h) as i32);
        if left < x0 {
            x0 = left;
        }
        if top < y0 {
            y0 = top;
        }
        if right > x1 {
            x1 = right;
        }
        if bottom > y1 {
            y1 = bottom;
        }
        i = i + 1;
    }
    proof {
        assert(rects@.take(i as int) =~= rects@);
    }
    Rect { x: x0, y: y0, w: (x1 - x0) as u32, h: (y1 - y0) as u32 }
}

/// The edges of both boxes and of the box around them fit the controller's
/// coordinates.
pub open spec fn unitable(a: Rect, b: Rect) -> bool {
    &&& i32::MIN <= a.right() <= i32::MAX
    &&& i32::MIN <= b.right() <= i32::MAX
    &&& i32::MIN <= a.bottom() <= i32::MAX
    &&& i32::MIN <= b.bottom() <= i32::MAX
    &&& i32::MIN <= greatest(a.right(), b.right()) - least(a.x as int, b.x as int) <= i32::MAX
    &&& i32::MIN <= greatest(a.bottom(), b.bottom()) - least(a.y as int, b.y as int) <= i32::MAX
}

/// The box around both boxes; a missing first box adds nothing.
pub open spec fn united(a: Option<Rect>, b: Rect) -> Rect {
    match a {
        None => b,
        Some(a) => {
            let x = least(a.x as int, b.x as int);
            let y = least(a.y as int, b.y as int);
            Rect {
                x: x as i32,
                y: y as i32,
                w: (greatest(a.right(), b.right()) - x) as u32,
                h: (greatest(a.bottom(), b.bottom()) - y) as u32,
            }
        },
    }
}

pub fn union(a: Option<Rect>, b: Rect) -> (union: Rect)
    requires
        a matches Some(a) ==> unitable(a, b),
    ensures
        union == united(a, b),
{
    match a {
        None => b,
        Some(a) => {
            let x0: i32 = if a.x <= b.x { a.x } else { b.x };
            let y0: i32 = if a.y <= b.y { a.y } else { b.y };
            let (ax1, bx1): (i32, i32) = (a.x + a.w as i32, b.x + b.w as i32);
            let (ay1, by1): (i32, i32) = (a.y + a.h as i32, b.y + b.h as i32);
            let x1: i32 = if ax1 >= bx1 { ax1 } else { bx1 };
            let y1: i32 = if ay1 >= by1 { ay1 } else { by1 };
            Rect { x: x0, y: y0, w: (x1 - x0) as u32, h: (y1 - y0) as u32 }
        },
    }
}

/// The panel rect that shows a render-buffer rect.
pub open spec fn shown_rect(geo: Geometry, r: DirtyRect) -> DirtyRect {
    let (left, right) = geo.columns(r.x as int, r.w as int);
    let (top, bottom) = geo.rows(r.y as int, r.h as int);
    DirtyRect {
        x: left as usize,
        y: top as usize,
        w: (right - left) as usize,
        h: (bottom - top) as usize,
    }
}

/// The panel rect starts and ends exactly where the sampling crosses the edges
/// of the render-buffer rect: a panel pixel of the image lies in it if and only
/// if the render pixel that it shows lies in the render-buffer rect.
pub open spec fn shows_exactly(geo: Geometry, r: DirtyRect, shown: DirtyRect) -> bool {
    &&& geo.disp_w > 0 ==> forall|sx: int|
        geo.ox <= sx ==> {
            &&& (shown.x <= sx < shown.x + shown.w <==> r.x <= #[trigger] geo.sampled_x(sx) < r.x
                + r.w)
            &&& (sx < shown.x <==> geo.sampled_x(sx) < r.x)
        }
    &&& geo.disp_h > 0 ==> forall|sy: int|
        geo.oy <= sy ==> {
            &&& (shown.y <= sy < shown.y + shown.h <==> r.y <= #[trigger] geo.sampled_y(sy) < r.y
                + r.h)
            &&& (sy < shown.y <==> geo.sampled_y(sy) < r.y)
        }
}

/// The geometry maps every one of the render-buffer rects.
pub open spec fn maps_all(geo: Geometry, rects: Seq<DirtyRect>) -> bool {
    forall|i: int|
        0 <= i < rects.len() ==> geo.maps(
            (#[trigger] rects[i]).x as int,
            rects[i].y as int,
            rects[i].w as int,
            rects[i].h as int,
        )
}

/// Whether the geometry maps every one of the render-buffer rects.
pub fn can_offset_rects(rects: &[DirtyRect], geo: &Geometry) -> (can: bool)
    ensures
        can == maps_all(*geo, rects@),
{
    let mut i: usize = 0;
    while i < rects.len()
        invariant
            i <= rects@.len(),
            maps_all(*geo, rects@.take(i as int)),
        decreases rects@.len() - i,
    {
        let r = rects[i];
        assert(r == rects@[i as int]);
        if !geo.can_map(r.x, r.y, r.w, r.h) {
            return false;
        }
        i = i + 1;
    }
    assert(rects@.take(i as int) =~= rects@);
    true
}

/// Render-buffer rects to panel rects.
pub fn offset_rects(rects: &[DirtyRect], geo: &Geometry) -> (shown: Vec<DirtyRect>)
    requires
        maps_all(*geo, rects@),
    ensures
        shown@ == rects@.map_values(|r: DirtyRect| shown_rect(*geo, r)),
        shown@.len() == rects@.len(),
        forall|i: int|
            0 <= i < rects@.len() ==> shows_exactly(*geo, rects@[i], #[trigger] shown@[i]),
{
    let mut shown: Vec<DirtyRect> = Vec::new();
    let mut i: usize = 0;
    while i < rects.len()
        invariant
            i <= rects@.len(),
            maps_all(*geo, rects@),
            shown@.len() == i,
            forall|j: int| 0 <= j < i ==> (#[trigger] shown@[j]) == shown_rect(*geo, rects@[j]),
            forall|j: int| 0 <= j < i ==> shows_exactly(*geo, rects@[j], #[trigger] shown@[j]),
        decreases rects@.len() - i,
    {
        let r = rects[i];
        proof {
            lemma_shown(*geo, rects@[i as int]);
        }
        let (x, y, w, h) = geo.render_rect_to_screen(r.x, r.y, r.w, r.h);
        shown.push(DirtyRect { x, y, w, h });
        i = i + 1;
    }
    shown
}

/// The union of two boxes is the least box that covers both.
pub proof fn law_union_is_the_least_cover(a: Rect, b: Rect, other: Rect)
    requires
        a.sound(),
        b.sound(),
    ensures
        unitable(a, b),
        united(Some(a), b).sound(),
        united(Some(a), b).covers(a),
        united(Some(a), b).covers(b),
        other.covers(a) && other.covers(b) ==> other.covers(united(Some(a), b)),
{
}

/// The merged box of a frame's damage is the least box that covers every rect
/// of it.
pub proof fn law_merge_is_the_least_cover(rects: Seq<DirtyRect>, other: Rect)
    requires
        rects.len() > 0,
        all_on_panel(rects),
    ensures
        mergeable(rects),
        merged(rects).sound(),
        forall|i: int| 0 <= i < rects.len() ==> merged(rects).covers_dirty(#[trigger] rects[i]),
        (forall|i: int| 0 <= i < rects.len() ==> other.covers_dirty(#[trigger] rects[i]))
            ==> other.covers(merged(rects)),
{
    lemma_merge_edges(rects);
    let (l, t, r, b) = choose|l: int, t: int, r: int, b: int|
        {
            &&& 0 <= l < rects.len()
            &&& 0 <= t < rects.len()
            &&& 0 <= r < rects.len()
            &&& 0 <= b < rects.len()
            &&& (#[trigger] rects[l]).x == leftmost(rects)
            &&& (#[trigger] rects[t]).y == topmost(rects)
            &&& (#[trigger] rects[r]).x + rects[r].w == rightmost(rects)
            &&& (#[trigger] rects[b]).y + rects[b].h == bottommost(rects)
        };
    assert(rects[l].on_panel() && rects[t].on_panel());
    assert(rects[r].on_panel() && rects[b].on_panel());
}

/// Damage inside the render buffer can be mapped and presented, as long as the
/// products fit the machine word and the image lies within the controller's
/// coordinates.
pub proof fn law_buffer_damage_can_be_presented(geo: Geometry, r: DirtyRect)
    requires
        geo.render_w > 0,
        geo.render_h > 0,
        r.x + r.w <= geo.render_w,
        r.y + r.h <= geo.render_h,
        geo.render_w * geo.disp_w <= usize::MAX,
        geo.render_h * geo.disp_h <= usize::MAX,
        geo.ox + geo.disp_w <= i32::MAX,
        geo.oy + geo.disp_h <= i32::MAX,
    ensures
        geo.maps(r.x as int, r.y as int, r.w as int, r.h as int),
        shown_rect(geo, r).on_panel(),
{
    crate::geometry::law_screen_rect_stays_in_the_image(
        geo,
        r.x as int,
        r.y as int,
        r.w as int,
        r.h as int,
    );
    let (w, h) = (r.x + r.w, r.y + r.h);
    let (render_w, render_h) = (geo.render_w as int, geo.render_h as int);
    let (disp_w, disp_h) = (geo.disp_w as int, geo.disp_h as int);
    assert(w * disp_w <= render_w * disp_w) by (nonlinear_arith)
        requires
            w <= render_w,
            0 <= disp_w,
    ;
    assert(h * disp_h <= render_h * disp_h) by (nonlinear_arith)
        requires
            h <= render_h,
            0 <= disp_h,
    ;
}

/// The folded edges bound every rect, and some rect attains each of them.
proof fn lemma_merge_edges(rects: Seq<DirtyRect>)
    requires
        rects.len() > 0,
        all_on_panel(rects),
    ensures
        forall|i: int|
            0 <= i < rects.len() ==> {
                &&& leftmost(rects) <= (#[trigger] rects[i]).x
                &&& topmost(rects) <= rects[i].y
                &&& rects[i].x + rects[i].w <= rightmost(rects)
                &&& rects[i].y + rects[i].h <= bottommost(rects)
            },
        exists|l: int, t: int, r: int, b: int|
            {
                &&& 0 <= l < rects.len()
                &&& 0 <= t < rects.len()
                &&& 0 <= r < rects.len()
                &&& 0 <= b < rects.len()
                &&& (#[trigger] rects[l]).x == leftmost(rects)
                &&& (#[trigger] rects[t]).y == topmost(rects)
                &&& (#[trigger] rects[r]).x + rects[r].w == rightmost(rects)
                &&& (#[trigger] rects[b]).y + rects[b].h == bottommost(rects)
            },
    decreases rects.len(),
{
    let front = rects.drop_last();
    let last = rects.len() - 1;
    assert(rects[last].on_panel());
    assert(forall|i: int| 0 <= i < front.len() ==> (#[trigger] front[i]) == rects[i]);
    if front.len() == 0 {
        assert(leftmost(front) == i32::MAX && topmost(front) == i32::MAX);
        assert(rightmost(front) == 0 && bottommost(front) == 0);
        assert(rects[last].x == leftmost(rects) && rects[last].y == topmost(rects));
    } else {
        lemma_merge_edges(front);
        let (l, t, r, b) = choose|l: int, t: int, r: int, b: int|
            {
                &&& 0 <= l < front.len()
                &&& 0 <= t < front.len()
                &&& 0 <= r < front.len()
                &&& 0 <= b < front.len()
                &&& (#[trigger] front[l]).x == leftmost(front)
                &&& (#[trigger] front[t]).y == topmost(front)
                &&& (#[trigger] front[r]).x + front[r].w == rightmost(front)
                &&& (#[trigger] front[b]).y + front[b].h == bottommost(front)
            };
        let l2 = if rects[last].x < leftmost(front) { last } else { l };
        let t2 = if rects[last].y < topmost(front) { last } else { t };
        let r2 = if rects[last].x + rects[last].w > rightmost(front) { last } else { r };
        let b2 = if rects[last].y + rects[last].h > bottommost(front) { last } else { b };
        assert(rects[l2].x == leftmost(rects));
        assert(rects[t2].y == topmost(rects));
        assert(rects[r2].x + rects[r2].w == rightmost(rects));
        assert(rects[b2].y + rects[b2].h == bottommost(rects));
    }
    assert forall|i: int| 0 <= i < rects.len() implies {
        &&& leftmost(rects) <= (#[trigger] rects[i]).x
        &&& topmost(rects) <= rects[i].y
        &&& rects[i].x + rects[i].w <= rightmost(rects)
        &&& rects[i].y + rects[i].h <= bottommost(rects)
    } by {
        if i < last {
            assert(front[i] == rects[i]);
        }
    }
}

/// A panel pixel lies in the panel rect of some damage exactly when the render
/// pixel that it shows lies in that damage; and it lies in front of the panel
/// rect exactly when that render pixel lies in front of the damage, so that empty
/// damage keeps its place too.
pub proof fn law_panel_rects_hold_what_shows_the_damage(
    geo: Geometry,
    r: DirtyRect,
    sx: int,
    sy: int,
)
    requires
        geo.maps(r.x as int, r.y as int, r.w as int, r.h as int),
        geo.disp_w > 0,
        geo.disp_h > 0,
        geo.ox <= sx,
        geo.oy <= sy,
    ensures
        ({
            let q = shown_rect(geo, r);
            (q.x <= sx < q.x + q.w && q.y <= sy < q.y + q.h) <==> (r.x <= geo.sampled_x(sx) < r.x
                + r.w && r.y <= geo.sampled_y(sy) < r.y + r.h)
        }),
        ({
            let q = shown_rect(geo, r);
            &&& q.x <= sx < q.x + q.w <==> r.x <= geo.sampled_x(sx) < r.x + r.w
            &&& q.y <= sy < q.y + q.h <==> r.y <= geo.sampled_y(sy) < r.y + r.h
            &&& sx < q.x <==> geo.sampled_x(sx) < r.x
            &&& sy < q.y <==> geo.sampled_y(sy) < r.y
        }),
{
    lemma_shown(geo, r);
}

/// An image without width or height shows no damage: its panel rects are empty
/// along that axis and lie where the image would start.
pub proof fn law_empty_images_show_no_damage(geo: Geometry, r: DirtyRect)
    requires
        geo.maps(r.x as int, r.y as int, r.w as int, r.h as int),
    ensures
        geo.disp_w == 0 ==> shown_rect(geo, r).x == geo.ox && shown_rect(geo, r).w == 0,
        geo.disp_h == 0 ==> shown_rect(geo, r).y == geo.oy && shown_rect(geo, r).h == 0,
{
    let (x, y, w, h) = (r.x as int, r.y as int, r.w as int, r.h as int);
    lemma_shown(geo, r);
    crate::geometry::law_screen_edges_are_sampling_edges(
        geo,
        x,
        y,
        w,
        h,
        geo.ox as int,
        geo.oy as int,
    );
}

/// The panel rect of mappable damage meets its edges on both axes.
proof fn lemma_shown(geo: Geometry, r: DirtyRect)
    requires
        geo.maps(r.x as int, r.y as int, r.w as int, r.h as int),
    ensures
        shown_rect(geo, r).x == geo.columns(r.x as int, r.w as int).0,
        shown_rect(geo, r).y == geo.rows(r.y as int, r.h as int).0,
        shown_rect(geo, r).x + shown_rect(geo, r).w == geo.columns(r.x as int, r.w as int).1,
        shown_rect(geo, r).y + shown_rect(geo, r).h == geo.rows(r.y as int, r.h as int).1,
        shows_exactly(geo, r, shown_rect(geo, r)),
{
    let (x, y, w, h) = (r.x as int, r.y as int, r.w as int, r.h as int);
    let shown = shown_rect(geo, r);
    crate::geometry::lemma_span(geo, x, y, w, h);
    assert forall|sx: int| geo.disp_w > 0 && geo.ox <= sx implies {
        &&& (shown.x <= sx < shown.x + shown.w <==> r.x <= #[trigger] geo.sampled_x(sx) < r.x + r.w)
        &&& (sx < shown.x <==> geo.sampled_x(sx) < r.x)
    } by {
        crate::geometry::law_screen_edges_are_sampling_edges(geo, x, y, w, h, sx, geo.oy as int);
    }
    assert forall|sy: int| geo.disp_h > 0 && geo.oy <= sy implies {
        &&& (shown.y <= sy < shown.y + shown.h <==> r.y <= #[trigger] geo.sampled_y(sy) < r.y + r.h)
        &&& (sy < shown.y <==> geo.sampled_y(sy) < r.y)
    } by {
        crate::geometry::law_screen_edges_are_sampling_edges(geo, x, y, w, h, geo.ox as int, sy);
    }
}

/// The edges of merged damage, taken in the controller's signed coordinates: no
/// rect starts before the box or ends behind it, some rect starts where the box
/// starts, and some rect ends where it ends, or the box ends at zero because
/// none reaches further.
pub proof fn law_merged_edges_are_edges_of_the_damage(rects: Seq<DirtyRect>)
    requires
        rects.len() > 0,
        mergeable(rects),
    ensures
        ({
            let m = merged(rects);
            let (right, bottom) = (rightmost(rects), bottommost(rects));
            &&& forall|i: int|
                0 <= i < rects.len() ==> m.x <= (#[trigger] rects[i]).x as i32 && m.y
                    <= rects[i].y as i32
            &&& exists|i: int| 0 <= i < rects.len() && (#[trigger] rects[i]).x as i32 == m.x
            &&& exists|i: int| 0 <= i < rects.len() && (#[trigger] rects[i]).y as i32 == m.y
            &&& forall|i: int|
                0 <= i < rects.len() ==> ((#[trigger] rects[i]).x + rects[i].w) as i32 <= right && (
                rects[i].y + rects[i].h) as i32 <= bottom
            &&& right >= 0 && bottom >= 0
            &&& right == 0 || exists|i: int|
                0 <= i < rects.len() && ((#[trigger] rects[i]).x + rects[i].w) as i32 == right
            &&& bottom == 0 || exists|i: int|
                0 <= i < rects.len() && ((#[trigger] rects[i]).y + rects[i].h) as i32 == bottom
            &&& m.w == (right - m.x) as u32 && m.h == (bottom - m.y) as u32
        }),
{
    lemma_starts(rects);
    lemma_ends(rects);
}

proof fn lemma_starts(rects: Seq<DirtyRect>)
    requires
        rects.len() > 0,
    ensures
        forall|i: int|
            0 <= i < rects.len() ==> leftmost(rects) <= (#[trigger] rects[i]).x as i32 && topmost(
                rects,
            ) <= rects[i].y as i32,
        exists|i: int| 0 <= i < rects.len() && (#[trigger] rects[i]).x as i32 == leftmost(rects),
        exists|i: int| 0 <= i < rects.len() && (#[trigger] rects[i]).y as i32 == topmost(rects),
    decreases rects.len(),
{
    let front = rects.drop_last();
    let last = rects.len() - 1;
    assert(rects[last] == rects.last());
    if front.len() == 0 {
        assert(leftmost(front) == i32::MAX && topmost(front) == i32::MAX);
    } else {
        lemma_starts(front);
        let l = choose|i: int|
            0 <= i < front.len() && (#[trigger] front[i]).x as i32 == leftmost(front);
        let t = choose|i: int|
            0 <= i < front.len() && (#[trigger] front[i]).y as i32 == topmost(front);
        assert(rects[l] == front[l] && rects[t] == front[t]);
        assert forall|i: int| 0 <= i < rects.len() implies leftmost(rects) <= (
        #[trigger] rects[i]).x as i32 && topmost(rects) <= rects[i].y as i32 by {
            if i < last {
                assert(front[i] == rects[i]);
            }
        }
    }
}

proof fn lemma_ends(rects: Seq<DirtyRect>)
    ensures
        rightmost(rects) >= 0,
        bottommost(rects) >= 0,
        forall|i: int|
            0 <= i < rects.len() ==> ((#[trigger] rects[i]).x + rects[i].w) as i32 <= rightmost(
                rects,
            ) && (rects[i].y + rects[i].h) as i32 <= bottommost(rects),
        rightmost(rects) == 0 || exists|i: int|
            0 <= i < rects.len() && ((#[trigger] rects[i]).x + rects[i].w) as i32 == rightmost(
                rects,
            ),
        bottommost(rects) == 0 || exists|i: int|
            0 <= i < rects.len() && ((#[trigger] rects[i]).y + rects[i].h) as i32 == bottommost(
                rects,
            ),
    decreases rects.len(),
{
    if rects.len() > 0 {
        let front = rects.drop_last();
        let last = rects.len() - 1;
        assert(rects[last] == rects.last());
        lemma_ends(front);
        if rightmost(front) != 0 {
            let r = choose|i: int|
                0 <= i < front.len() && ((#[trigger] front[i]).x + front[i].w) as i32 == rightmost(
                    front,
                );
            assert(rects[r] == front[r]);
        }
        if bottommost(front) != 0 {
            let b = choose|i: int|
                0 <= i < front.len() && ((#[trigger] front[i]).y + front[i].h) as i32 == bottommost(
                    front,
                );
            assert(rects[b] == front[b]);
        }
        assert forall|i: int| 0 <= i < rects.len() implies ((#[trigger] rects[i]).x
            + rects[i].w) as i32 <= rightmost(rects) && (rects[i].y + rects[i].h) as i32
            <= bottommost(rects) by {
            if i < last {
                assert(front[i] == rects[i]);
            }
        }
    }
}

/// Damage of no rects has no box: it starts at the far end of the coordinates
/// and ends at zero.
pub proof fn law_no_rects_have_no_box(rects: Seq<DirtyRect>)
    requires
        rects.len() == 0,
    ensures
        mergeable(rects),
        merged(rects).x == i32::MAX && merged(rects).y == i32::MAX,
        rightmost(rects) == 0 && bottommost(rects) == 0,
        merged(rects).w == (0 - i32::MAX) as u32 && merged(rects).h == (0 - i32::MAX) as u32,
{
}

/// The order of the rects does not matter for their box.
pub proof fn law_merging_has_no_order(a: Seq<DirtyRect>, b: Seq<DirtyRect>)
    requires
        a.len() > 0,
        b.len() > 0,
        all_on_panel(a),
        all_on_panel(b),
        forall|i: int| 0 <= i < a.len() ==> b.contains(#[trigger] a[i]),
        forall|i: int| 0 <= i < b.len() ==> a.contains(#[trigger] b[i]),
    ensures
        merged(a) == merged(b),
{
    law_merge_is_the_least_cover(a, merged(b));
    law_merge_is_the_least_cover(b, merged(a));
    assert forall|i: int| 0 <= i < a.len() implies merged(b).covers_dirty(#[trigger] a[i]) by {
        let j = choose|j: int| 0 <= j < b.len() && b[j] == a[i];
        assert(merged(b).covers_dirty(b[j]));
    }
    assert forall|i: int| 0 <= i < b.len() implies merged(a).covers_dirty(#[trigger] b[i]) by {
        let j = choose|j: int| 0 <= j < a.len() && a[j] == b[i];
        assert(merged(a).covers_dirty(a[j]));
    }
}

/// A rect alone is its own box.
pub proof fn law_one_rect_is_its_own_box(r: DirtyRect)
    requires
        r.x + r.w <= i32::MAX,
        r.y + r.h <= i32::MAX,
    ensures
        ({
            let m = merged(seq![r]);
            m.x == r.x && m.y == r.y && m.w == r.w && m.h == r.h
        }),
{
    let rects = seq![r];
    assert(rects[0].on_panel());
    law_merge_is_the_least_cover(
        rects,
        Rect { x: r.x as i32, y: r.y as i32, w: r.w as u32, h: r.h as u32 },
    );
    assert(merged(rects).covers_dirty(rects[0]));
}

/// Uniting with nothing gives the box itself. Uniting two boxes takes the
/// smaller of the starts and the larger of the ends on each axis, and it does
/// not matter which box comes first.
pub proof fn law_union_takes_the_outer_edges(a: Rect, b: Rect)
    ensures
        united(None, b) == b,
        unitable(a, b) ==> ({
            let u = united(Some(a), b);
            let (ar, br) = (a.x + (a.w as i32), b.x + (b.w as i32));
            let (ab, bb) = (a.y + (a.h as i32), b.y + (b.h as i32));
            &&& u.x <= a.x && u.x <= b.x && (u.x == a.x || u.x == b.x)
            &&& u.y <= a.y && u.y <= b.y && (u.y == a.y || u.y == b.y)
            &&& u.w == ((if ar >= br { ar } else { br }) - u.x) as u32
            &&& u.h == ((if ab >= bb { ab } else { bb }) - u.y) as u32
            &&& u == united(Some(b), a)
        }),
        a.sound() ==> united(Some(a), a) == a,
{
}

/// What can be merged and united: everything whose ends and whose box stay
/// within the machine integers.
pub proof fn law_what_can_be_merged(rects: Seq<DirtyRect>, a: Rect, b: Rect)
    ensures
        mergeable(rects) <==> {
            &&& forall|i: int|
                0 <= i < rects.len() ==> (#[trigger] rects[i]).x + rects[i].w <= usize::MAX
                    && rects[i].y + rects[i].h <= usize::MAX
            &&& rightmost(rects) - leftmost(rects) <= i32::MAX
            &&& bottommost(rects) - topmost(rects) <= i32::MAX
        },
        all_on_panel(rects) <==> (forall|i: int|
            0 <= i < rects.len() ==> (#[trigger] rects[i]).x + rects[i].w <= i32::MAX && rects[i].y
                + rects[i].h <= i32::MAX),
        0 <= a.x && 0 <= a.y && a.x + a.w <= i32::MAX && a.y + a.h <= i32::MAX && 0 <= b.x && 0
            <= b.y && b.x + b.w <= i32::MAX && b.y + b.h <= i32::MAX ==> unitable(a, b),
        ({
            let (ar, br) = (a.x + (a.w as i32), b.x + (b.w as i32));
            let (ab, bb) = (a.y + (a.h as i32), b.y + (b.h as i32));
            let (left, top) = (
                if a.x < b.x { a.x } else { b.x },
                if a.y < b.y { a.y } else { b.y },
            );
            let (right, bottom) = (if ar > br { ar } else { br }, if ab > bb { ab } else { bb });
            unitable(a, b) <==> {
                &&& i32::MIN <= ar <= i32::MAX && i32::MIN <= br <= i32::MAX
                &&& i32::MIN <= ab <= i32::MAX && i32::MIN <= bb <= i32::MAX
                &&& i32::MIN <= right - left <= i32::MAX
                &&& i32::MIN <= bottom - top <= i32::MAX
            }
        }),
{
    if forall|i: int|
        0 <= i < rects.len() ==> (#[trigger] rects[i]).x + rects[i].w <= i32::MAX && rects[i].y
            + rects[i].h <= i32::MAX {
        assert(all_on_panel(rects));
    }
    if all_on_panel(rects) {
        assert forall|i: int| 0 <= i < rects.len() implies (#[trigger] rects[i]).x + rects[i].w
            <= i32::MAX && rects[i].y + rects[i].h <= i32::MAX by {
            assert(rects[i].on_panel());
        }
    }
}

} // verus!
