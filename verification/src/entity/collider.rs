//! Axis-aligned bounding boxes and their intersection test.

use vstd::prelude::*;
use crate::fixed::{clamp_i32, saturate};
use crate::vector::{abs, Vec2};

verus! {

/// How far each side of a box is moved inward before two boxes are
/// compared, in units. Boxes that merely touch therefore never intersect.
pub const EPSILON: i32 = 5;

/// How much further than needed a box is pushed out of another, in units:
/// half a pixel.
pub const PUSH_EPSILON: i32 = 500;

/// How much further a box is pushed when it is pushed upward, in units: the
/// feet of a sprite stand eight pixels below the top of its box.
pub const FOOT_OFFSET: i32 = 8000;

#[derive(Debug, Eq, PartialEq, Copy, Clone, Structural)]
pub enum CollisionKind {
    /// The box of the party that asks what it ran into.
    Friendly,
    /// The box of anything that can be run into.
    Hostile,
}

/// A box given by its top-left corner and its width and height.
#[derive(Debug, Eq, PartialEq, Copy, Clone, Structural)]
pub struct Collider {
    pub origin: Vec2,
    pub dimensions: Vec2,
    pub kind: CollisionKind,
}

/// The smaller of two integers.
pub open spec fn min(a: int, b: int) -> int {
    if a <= b {
        a
    } else {
        b
    }
}

/// The larger of two integers.
pub open spec fn max(a: int, b: int) -> int {
    if a >= b {
        a
    } else {
        b
    }
}

/// A length in units, rounded up to whole pixels.
pub open spec fn ceil_to_pixel(length: int) -> int {
    if length >= 0 {
        (length + 999) / 1000 * 1000
    } else {
        -((-length) / 1000 * 1000)
    }
}

/// Rounds a length in units up to whole pixels.
pub fn round_up_to_pixel(length: i64) -> (rounded: i64)
    requires
        -0x1_0000_0000_0000 <= length <= 0x1_0000_0000_0000,
    ensures
        rounded == ceil_to_pixel(length as int),
        rounded % 1000 == 0,
        length <= rounded < length + 1000,
{
    if length >= 0 {
        (length + 999) / 1000 * 1000
    } else {
        -((-length) / 1000 * 1000)
    }
}

/// How far along one axis a box is pushed that lies `delta` from the box it
/// ran into: by the size of whichever box is first along the axis, less the
/// distance, a little more for good measure and, where `lift` is set and
/// the push goes toward the origin, the offset of the feet on top; all of
/// it rounded up to whole pixels, and away from the other box. A box that
/// is out already is not pushed.
pub open spec fn push_along(delta: int, own_size: int, other_size: int, lift: bool) -> int {
    let size = if delta >= 0 {
        other_size
    } else {
        own_size
    };
    let extra = if lift && delta < 0 {
        FOOT_OFFSET as int
    } else {
        0
    };
    let distance = ceil_to_pixel(size - abs(delta) + PUSH_EPSILON + extra);
    clamp_i32(
        if distance <= 0 {
            0
        } else if delta >= 0 {
            distance
        } else {
            -distance
        },
    )
}

impl Collider {
    /// How far a box has to move to get out of `hit`: along x where the
    /// corners of the two boxes are at least as far apart along x as along
    /// y, and else along y.
    pub open spec fn spec_push_out(self, hit: Collider) -> Vec2 {
        let dx = self.origin.x - hit.origin.x;
        let dy = self.origin.y - hit.origin.y;
        if abs(dx) >= abs(dy) {
            Vec2 {
                x: push_along(dx, self.dimensions.x as int, hit.dimensions.x as int, false) as i32,
                y: 0,
            }
        } else {
            Vec2 {
                x: 0,
                y: push_along(dy, self.dimensions.y as int, hit.dimensions.y as int, true) as i32,
            }
        }
    }

    /// Computes how far the box has to move to get out of `hit`. The way
    /// leads away from `hit`: up or left for a box whose corner lies above
    /// or left of the corner of `hit`, and else down or right.
    pub fn push_out(&self, hit: &Collider) -> (offset: Vec2)
        ensures
            offset == self.spec_push_out(*hit),
            self.origin.x < hit.origin.x ==> offset.x <= 0,
            self.origin.x >= hit.origin.x ==> offset.x >= 0,
            self.origin.y < hit.origin.y ==> offset.y <= 0,
            self.origin.y >= hit.origin.y ==> offset.y >= 0,
    {
        let x: i64 = self.origin.x as i64 - hit.origin.x as i64;
        let y: i64 = self.origin.y as i64 - hit.origin.y as i64;
        let x_abs: i64 = if x >= 0 { x } else { -x };
        let y_abs: i64 = if y >= 0 { y } else { -y };
        if x_abs >= y_abs {
            // the box that lies first along the axis gives the size
            let collider_size: i64 = if x >= 0 {
                hit.dimensions.x as i64
            } else {
                self.dimensions.x as i64
            };
            let dist = round_up_to_pixel(collider_size - x_abs + PUSH_EPSILON as i64);
            let dist: i64 = if dist <= 0 { 0 } else { dist };
            Vec2 { x: saturate(if x >= 0 { dist } else { -dist }), y: 0 }
        } else {
            let collider_size: i64 = if y >= 0 {
                hit.dimensions.y as i64
            } else {
                self.dimensions.y as i64
            };
            let extra: i64 = if y < 0 { FOOT_OFFSET as i64 } else { 0 };
            let dist = round_up_to_pixel(collider_size - y_abs + PUSH_EPSILON as i64 + extra);
            let dist: i64 = if dist <= 0 { 0 } else { dist };
            Vec2 { x: 0, y: saturate(if y >= 0 { dist } else { -dist }) }
        }
    }

    /// A push never leads toward the box that was run into.
    pub proof fn lemma_push_out_leads_away(self, hit: Collider)
        ensures
            self.origin.x < hit.origin.x ==> self.spec_push_out(hit).x <= 0,
            self.origin.x >= hit.origin.x ==> self.spec_push_out(hit).x >= 0,
            self.origin.y < hit.origin.y ==> self.spec_push_out(hit).y <= 0,
            self.origin.y >= hit.origin.y ==> self.spec_push_out(hit).y >= 0,
    {
    }

    /// Out of a box that it intersects a box is pushed by at least a pixel,
    /// along one axis: by the size of the box that comes first, less the
    /// distance of the corners, half a pixel more and, upward, the offset
    /// of the feet on top, rounded up to whole pixels.
    pub proof fn lemma_push_out_of_hit(self, hit: Collider)
        requires
            self.spec_intersects(hit),
        ensures
            ({
                let dx = self.origin.x - hit.origin.x;
                let dy = self.origin.y - hit.origin.y;
                let push = self.spec_push_out(hit);
                if abs(dx) >= abs(dy) {
                    &&& push.y == 0
                    &&& dx >= 0 ==> push.x == clamp_i32(
                        ceil_to_pixel(hit.dimensions.x - dx + PUSH_EPSILON),
                    ) && push.x >= 1000
                    &&& dx < 0 ==> push.x == clamp_i32(
                        -ceil_to_pixel(self.dimensions.x + dx + PUSH_EPSILON),
                    ) && push.x <= -1000
                } else {
                    &&& push.x == 0
                    &&& dy >= 0 ==> push.y == clamp_i32(
                        ceil_to_pixel(hit.dimensions.y - dy + PUSH_EPSILON),
                    ) && push.y >= 1000
                    &&& dy < 0 ==> push.y == clamp_i32(
                        -ceil_to_pixel(self.dimensions.y + dy + PUSH_EPSILON + FOOT_OFFSET),
                    ) && push.y <= -9000
                }
            }),
    {
    }

    pub open spec fn left(self) -> int {
        self.origin.x as int
    }

    pub open spec fn right(self) -> int {
        self.origin.x + self.dimensions.x
    }

    pub open spec fn top(self) -> int {
        self.origin.y as int
    }

    pub open spec fn bottom(self) -> int {
        self.origin.y + self.dimensions.y
    }

    /// How far the two boxes reach into each other along x; negative when
    /// they are apart.
    pub open spec fn overlap_x(self, other: Collider) -> int {
        min(self.right(), other.right()) - max(self.left(), other.left())
    }

    /// How far the two boxes reach into each other along y.
    pub open spec fn overlap_y(self, other: Collider) -> int {
        min(self.bottom(), other.bottom()) - max(self.top(), other.top())
    }

    /// Both boxes are shrunk by `EPSILON` on every side; they intersect when
    /// on neither axis one shrunk box ends before the other begins.
    pub open spec fn spec_intersects(self, other: Collider) -> bool {
        &&& self.left() + EPSILON < other.right() - EPSILON
        &&& other.left() + EPSILON < self.right() - EPSILON
        &&& self.top() + EPSILON < other.bottom() - EPSILON
        &&& other.top() + EPSILON < self.bottom() - EPSILON
    }

    /// The box is wider and taller than what the shrinking takes away.
    pub open spec fn survives_shrinking(self) -> bool {
        &&& self.dimensions.x > 2 * EPSILON
        &&& self.dimensions.y > 2 * EPSILON
    }

    pub open spec fn spec_relative_pos(self, offset: Vec2) -> Vec2 {
        self.origin.spec_on_screen(offset)
    }

    pub fn new(origin: Vec2, dimensions: Vec2, kind: CollisionKind) -> (collider: Collider)
        ensures
            collider == (Collider { origin, dimensions, kind }),
    {
        Collider { origin, dimensions, kind }
    }

    pub fn intersects(&self, other: &Collider) -> (hit: bool)
        ensures
            hit == self.spec_intersects(*other),
    {
        let eps = EPSILON as i64;
        let l1x = self.origin.x as i64 + eps;
        let l1y = self.origin.y as i64 + eps;
        let r1x = self.origin.x as i64 + self.dimensions.x as i64 - eps;
        let r1y = self.origin.y as i64 + self.dimensions.y as i64 - eps;
        let l2x = other.origin.x as i64 + eps;
        let l2y = other.origin.y as i64 + eps;
        let r2x = other.origin.x as i64 + other.dimensions.x as i64 - eps;
        let r2y = other.origin.y as i64 + other.dimensions.y as i64 - eps;

        // one box lies to the side of the other
        if l1x >= r2x || l2x >= r1x {
            return false;
        }
        // one box lies above the other
        if l1y >= r2y || l2y >= r1y {
            return false;
        }
        true
    }

    pub fn origin(&self) -> (origin: Vec2)
        ensures
            origin == self.origin,
    {
        self.origin
    }

    pub fn hostile(&self) -> (hostile: bool)
        ensures
            hostile == (self.kind == CollisionKind::Hostile),
    {
        match self.kind {
            CollisionKind::Hostile => true,
            CollisionKind::Friendly => false,
        }
    }

    /// Where the box starts on a screen scrolled by `offset` pixels, in
    /// whole pixels.
    pub fn relative_pos(&self, offset: Vec2) -> (pos: Vec2)
        ensures
            pos == self.spec_relative_pos(offset),
    {
        self.origin.on_screen(offset)
    }

    /// Which box asks and which is asked makes no difference.
    pub proof fn lemma_intersects_symmetric(self, other: Collider)
        ensures
            self.spec_intersects(other) == other.spec_intersects(self),
    {
    }

    /// Two boxes that both survive the shrinking intersect exactly when they
    /// reach into each other by more than twice `EPSILON` on both axes.
    pub proof fn lemma_intersects_iff_overlap(self, other: Collider)
        requires
            self.survives_shrinking(),
            other.survives_shrinking(),
        ensures
            self.spec_intersects(other) <==> (self.overlap_x(other) > 2 * EPSILON
                && self.overlap_y(other) > 2 * EPSILON),
    {
    }

    /// An overlap of at most twice `EPSILON` on either axis is no
    /// intersection.
    pub proof fn lemma_shallow_overlap_misses(self, other: Collider)
        requires
            self.survives_shrinking(),
            other.survives_shrinking(),
            self.overlap_x(other) <= 2 * EPSILON || self.overlap_y(other) <= 2 * EPSILON,
        ensures
            !self.spec_intersects(other),
    {
    }

    /// An overlap of more than twice `EPSILON` on both axes is an
    /// intersection, whatever the size of the boxes.
    pub proof fn lemma_deep_overlap_hits(self, other: Collider)
        requires
            self.overlap_x(other) > 2 * EPSILON,
            self.overlap_y(other) > 2 * EPSILON,
        ensures
            self.spec_intersects(other),
    {
    }
}

} // verus!
