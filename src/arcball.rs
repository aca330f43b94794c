use vstd::prelude::*;

verus! {

/// A pointer event in pixel coordinates.
#[derive(Clone, Copy, Debug, PartialEq, Eq, Structural)]
pub enum PointerEvent {
    Down { x: i32, y: i32 },
    Move { x: i32, y: i32 },
    Up,
}

/// A pointer motion to turn into an incremental rotation: from the
/// previous position to the new one.
#[derive(Clone, Copy, Debug, PartialEq, Eq, Structural)]
pub struct Drag {
    pub from_x: i32,
    pub from_y: i32,
    pub to_x: i32,
    pub to_y: i32,
}

/// The arcball controller's viewport and drag state: `anchor` is the last
/// pointer position while a drag is under way, and `None` while idle.
pub struct Arcball {
    pub width: u32,
    pub height: u32,
    pub anchor: Option<(i32, i32)>,
}

/// Next drag state and motion for an event. A button press starts a drag
/// at the pointer when idle; while dragging, a press or a move to a new
/// position yields the motion from the anchor and moves the anchor there,
/// and one to the same position yields nothing; a release ends the drag.
/// Nothing moves while idle.
pub open spec fn step(anchor: Option<(i32, i32)>, ev: PointerEvent) -> (Option<(i32, i32)>, Option<
    Drag,
>) {
    match ev {
        PointerEvent::Up => (None, None),
        PointerEvent::Down { x, y } | PointerEvent::Move { x, y } => match anchor {
            None => if ev is Down {
                (Some((x, y)), None)
            } else {
                (None, None)
            },
            Some((ax, ay)) => if ax == x && ay == y {
                (anchor, None)
            } else {
                (Some((x, y)), Some(Drag { from_x: ax, from_y: ay, to_x: x, to_y: y }))
            },
        },
    }
}

/// Whether screen point `(x, y)` of a `w` by `h` viewport maps onto the
/// front hemisphere: its normalized device coordinates
/// `(2x/w - 1, 1 - 2y/h)` have squared length at most 1. Both sides are
/// scaled by `w²·h²` so that the test is exact.
pub open spec fn on_front(w: int, h: int, x: int, y: int) -> bool {
    (2 * x - w) * (2 * x - w) * (h * h) + (h - 2 * y) * (h - 2 * y) * (w * w) <= (w * w) * (h * h)
}

impl Arcball {
    /// An idle controller over a `width` by `height` viewport.
    pub fn new(width: u32, height: u32) -> (a: Arcball)
        ensures
            a.width == width,
            a.height == height,
            a.anchor is None,
    {
        Arcball { width, height, anchor: None }
    }

    /// Whether a drag is under way.
    pub fn is_dragging(&self) -> (r: bool)
        ensures
            r == self.anchor is Some,
    {
        self.anchor.is_some()
    }

    /// Feeds one pointer event; returns the motion to rotate by, if any.
    pub fn handle(&mut self, ev: PointerEvent) -> (motion: Option<Drag>)
        ensures
            (final(self).anchor, motion) == step(old(self).anchor, ev),
            final(self).width == old(self).width,
            final(self).height == old(self).height,
    {
        match ev {
            PointerEvent::Up => {
                self.anchor = None;
                None
            },
            PointerEvent::Down { x, y } | PointerEvent::Move { x, y } => match self.anchor {
                None => {
                    if let PointerEvent::Down { .. } = ev {
                        self.anchor = Some((x, y));
                    }
                    None
                },
                Some((ax, ay)) => {
                    if ax == x && ay == y {
                        None
                    } else {
                        self.anchor = Some((x, y));
                        Some(Drag { from_x: ax, from_y: ay, to_x: x, to_y: y })
                    }
                },
            },
        }
    }

    /// Whether screen point `(x, y)` lies over the front hemisphere of the
    /// virtual sphere (there the arcball vector's `z` is
    /// `sqrt(1 - x² - y²)`), rather than beyond its rim (there the planar
    /// point is normalized and `z` is 0).
    pub fn on_front_hemisphere(&self, x: i32, y: i32) -> (r: bool)
        requires
            1 <= self.width <= 65536,
            1 <= self.height <= 65536,
        ensures
            r == on_front(self.width as int, self.height as int, x as int, y as int),
    {
        let w = self.width as i128;
        let h = self.height as i128;
        let dx: i128 = 2 * x as i128 - w;
        let dy: i128 = h - 2 * y as i128;
        proof {
            assert(dx * dx <= 0x4_0000_0000_0000_0000int) by (nonlinear_arith)
                requires
                    -0x2_0000_0000 <= dx <= 0x2_0000_0000,
            ;
            assert(dy * dy <= 0x4_0000_0000_0000_0000int) by (nonlinear_arith)
                requires
                    -0x2_0000_0000 <= dy <= 0x2_0000_0000,
            ;
            assert(0 <= dx * dx && 0 <= dy * dy) by (nonlinear_arith);
            assert(w * w <= 0x1_0000_0000 && h * h <= 0x1_0000_0000) by (nonlinear_arith)
                requires
                    1 <= w <= 65536,
                    1 <= h <= 65536,
            ;
            assert(0 <= w * w && 0 <= h * h) by (nonlinear_arith);
            assert(dx * dx * (h * h) <= 0x4_0000_0000_0000_0000int * 0x1_0000_0000int)
                by (nonlinear_arith)
                requires
                    0 <= dx * dx <= 0x4_0000_0000_0000_0000int,
                    0 <= h * h <= 0x1_0000_0000,
            ;
            assert(dy * dy * (w * w) <= 0x4_0000_0000_0000_0000int * 0x1_0000_0000int)
                by (nonlinear_arith)
                requires
                    0 <= dy * dy <= 0x4_0000_0000_0000_0000int,
                    0 <= w * w <= 0x1_0000_0000,
            ;
            assert(0 <= dx * dx * (h * h) && 0 <= dy * dy * (w * w)) by (nonlinear_arith)
                requires
                    0 <= dx * dx,
                    0 <= dy * dy,
                    0 <= w * w,
                    0 <= h * h,
            ;
            assert((w * w) * (h * h) <= 0x1_0000_0000int * 0x1_0000_0000int) by (nonlinear_arith)
                requires
                    0 <= w * w <= 0x1_0000_0000,
                    0 <= h * h <= 0x1_0000_0000,
            ;
        }
        dx * dx * (h * h) + dy * dy * (w * w) <= (w * w) * (h * h)
    }
}

/// The exact centre of the viewport is on the front hemisphere with planar
/// length 0, so its arcball vector is `(0, 0, 1)`; a corner lies beyond the
/// rim (squared planar length 2), so its vector is the normalized planar
/// point, of length 1 with `z` equal to 0.
pub proof fn lemma_center_and_corner(w: int, h: int)
    requires
        w >= 1,
        h >= 1,
    ensures
        w % 2 == 0 && h % 2 == 0 ==> on_front(w, h, w / 2, h / 2),
        w % 2 == 0 && h % 2 == 0 ==> (2 * (w / 2) - w) == 0 && (h - 2 * (h / 2)) == 0,
        !on_front(w, h, 0, 0),
        !on_front(w, h, w, h),
        !on_front(w, h, 0, h),
        !on_front(w, h, w, 0),
{
    if w % 2 == 0 && h % 2 == 0 {
        vstd::arithmetic::div_mod::lemma_fundamental_div_mod(w, 2);
        vstd::arithmetic::div_mod::lemma_fundamental_div_mod(h, 2);
        let dx = 2 * (w / 2) - w;
        let dy = h - 2 * (h / 2);
        assert(dx == 0 && dy == 0);
        assert(dx * dx * (h * h) + dy * dy * (w * w) == 0) by (nonlinear_arith)
            requires
                dx == 0,
                dy == 0,
        ;
    }
    assert(0 <= (w * w) * (h * h)) by (nonlinear_arith);
    assert((w * w) * (h * h) > 0) by (nonlinear_arith)
        requires
            w >= 1,
            h >= 1,
    ;
    assert((0 - w) * (0 - w) * (h * h) + h * h * (w * w) == 2 * ((w * w) * (h * h)))
        by (nonlinear_arith);
    assert(w * w * (h * h) + (h - 2 * h) * (h - 2 * h) * (w * w) == 2 * ((w * w) * (h * h)))
        by (nonlinear_arith);
    assert((0 - w) * (0 - w) * (h * h) + (h - 2 * h) * (h - 2 * h) * (w * w) == 2 * ((w * w) * (h
        * h))) by (nonlinear_arith);
    assert((2 * w - w) * (2 * w - w) * (h * h) + h * h * (w * w) == 2 * ((w * w) * (h * h)))
        by (nonlinear_arith);
}

} // verus!
