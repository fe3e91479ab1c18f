//! The simulated circular body: kinematic state, wall reflection, pairwise
//! collision response and self-rasterization.

use vstd::prelude::*;

use crate::common_structs::RGBCanvas;
use crate::common_structs::RGBColor;
use crate::math::isqrt;
use crate::math::lemma_pixel_index_decompose;
use crate::math::lemma_flat_index_decompose;
use crate::math::lemma_sqrt_floor_in_band;
use crate::math::sqrt_floor;
use crate::COORD_LIMIT;
use crate::SCALE;
use vstd::arithmetic::div_mod::lemma_fundamental_div_mod;
use vstd::arithmetic::div_mod::lemma_mod_bound;

verus! {

/// A simulated circle.  Positions, velocities, the radius, the border width
/// and the mass are fixed-point numbers ([`crate::SCALE`] subunits per
/// pixel / mass unit).
pub struct Circle {
    pub name: String,
    pub x_pos: i32,
    pub y_pos: i32,
    pub x_vel: i32,
    pub y_vel: i32,
    pub radius: i32,
    pub border_width: i32,
    pub body_color: RGBColor,
    pub border_color: RGBColor,
    pub mass: i32,
}

/// Position `pos` after one time step against the boundaries `lo..hi`,
/// with reflection when the step would touch a boundary.
pub open spec fn advance_pos(pos: int, vel: int, radius: int, lo: int, hi: int) -> int {
    if pos + vel <= lo + radius {
        2 * radius - pos - vel
    } else if pos + vel >= hi - radius {
        2 * hi - 2 * radius - pos - vel
    } else {
        pos + vel
    }
}

/// Velocity `vel` after one time step: negated exactly when the step
/// reflects.
pub open spec fn advance_vel(pos: int, vel: int, radius: int, lo: int, hi: int) -> int {
    if pos + vel <= lo + radius {
        -vel
    } else if pos + vel >= hi - radius {
        -vel
    } else {
        vel
    }
}

/// Two circles overlap exactly when the squared distance of their centers is
/// strictly below the square of the sum of their radii.
pub open spec fn circles_overlap(
    x1: int,
    y1: int,
    r1: int,
    x2: int,
    y2: int,
    r2: int,
) -> bool {
    (x2 - x1) * (x2 - x1) + (y2 - y1) * (y2 - y1) < (r1 + r2) * (r1 + r2)
}

/// Whether `circle` overlaps any member of `circles` other than the one at
/// `exclude`.
pub open spec fn overlaps_other(circle: Circle, circles: Seq<Circle>, exclude: int) -> bool {
    exists|t: int|
        0 <= t < circles.len() && t != exclude && circles_overlap(
            circle.x_pos as int,
            circle.y_pos as int,
            circle.radius as int,
            circles[t].x_pos as int,
            circles[t].y_pos as int,
            circles[t].radius as int,
        )
}

/// A circle never blocks itself: whatever stands at the excluded index,
/// even a copy of the circle, the overlap scan reports nothing when no
/// other circle overlaps.
pub proof fn lemma_overlap_scan_excludes_index(circle: Circle, circles: Seq<Circle>, exclude: int)
    requires
        forall|t: int|
            0 <= t < circles.len() && t != exclude ==> !circles_overlap(
                circle.x_pos as int,
                circle.y_pos as int,
                circle.radius as int,
                (#[trigger] circles[t]).x_pos as int,
                circles[t].y_pos as int,
                circles[t].radius as int,
            ),
    ensures
        !overlaps_other(circle, circles, exclude),
{
}

/// After one step against the boundaries `0..hi`, a circle that starts
/// inside the range and moves by at most the free span per tick is still
/// inside the range; and since reflection only flips the sign of the
/// velocity, the same holds again on every later tick: the circle never
/// escapes the range.  (The low-boundary formula assumes the lower
/// boundary 0 that the world always passes: with a positive lower
/// boundary it can land outside.)
pub proof fn lemma_advance_stays_in_bounds(pos: int, vel: int, radius: int, hi: int)
    requires
        0 < radius,
        2 * radius <= hi,
        0 <= pos <= hi,
        -(hi - 2 * radius) <= vel <= hi - 2 * radius,
    ensures
        0 <= advance_pos(pos, vel, radius, 0, hi) <= hi,
        advance_vel(pos, vel, radius, 0, hi) == vel || advance_vel(pos, vel, radius, 0, hi)
            == -vel,
{
}

/// Quotient of `a / b` truncated toward zero (the machine division), for
/// `b > 0`.
pub open spec fn div_trunc(a: int, b: int) -> int {
    if a >= 0 {
        a / b
    } else {
        -((-a) / b)
    }
}

/// Velocity gained from one colliding circle: the relative velocity scaled
/// by the mass ratio, truncated toward zero.
pub open spec fn velocity_transfer(rel_vel: int, other_mass: int, own_mass: int) -> int {
    div_trunc(rel_vel * other_mass, own_mass)
}

/// Horizontal velocity of `c` after reacting to the first `k` circles of
/// `others` (skipping `own_index`), accumulating one transfer per
/// overlapping circle, each computed from the running velocity.
pub open spec fn collided_x_vel(c: Circle, others: Seq<Circle>, own_index: int, k: int) -> int
    decreases k,
{
    if k <= 0 {
        c.x_vel as int
    } else {
        let prev = collided_x_vel(c, others, own_index, k - 1);
        let o = others[k - 1];
        if k - 1 != own_index && circles_overlap(
            c.x_pos as int,
            c.y_pos as int,
            c.radius as int,
            o.x_pos as int,
            o.y_pos as int,
            o.radius as int,
        ) {
            prev + velocity_transfer(o.x_vel - prev, o.mass as int, c.mass as int)
        } else {
            prev
        }
    }
}

/// Vertical counterpart of [`collided_x_vel`].
pub open spec fn collided_y_vel(c: Circle, others: Seq<Circle>, own_index: int, k: int) -> int
    decreases k,
{
    if k <= 0 {
        c.y_vel as int
    } else {
        let prev = collided_y_vel(c, others, own_index, k - 1);
        let o = others[k - 1];
        if k - 1 != own_index && circles_overlap(
            c.x_pos as int,
            c.y_pos as int,
            c.radius as int,
            o.x_pos as int,
            o.y_pos as int,
            o.radius as int,
        ) {
            prev + velocity_transfer(o.y_vel - prev, o.mass as int, c.mass as int)
        } else {
            prev
        }
    }
}

/// Every running velocity of the collision pass stays within
/// [`COORD_LIMIT`], so each intermediate value fits the machine integers.
pub open spec fn collide_bounded(c: Circle, others: Seq<Circle>, own_index: int) -> bool {
    forall|k: int|
        #![trigger collided_x_vel(c, others, own_index, k)]
        0 <= k <= others.len() ==> {
            &&& -COORD_LIMIT <= collided_x_vel(c, others, own_index, k) <= COORD_LIMIT
            &&& -COORD_LIMIT <= collided_y_vel(c, others, own_index, k) <= COORD_LIMIT
        }
}

/// Channel `ch` (0 = red, 1 = green, 2 = blue) of a color.
pub open spec fn channel_of(color: RGBColor, ch: int) -> u8 {
    if ch == 0 {
        color.r
    } else if ch == 1 {
        color.g
    } else {
        color.b
    }
}

/// Linear blend of two channel values with blend factor `t` in
/// `[0, SCALE]` fixed-point subunits, truncated to an integer.
pub open spec fn blend(c1: u8, c2: u8, t: int) -> u8 {
    ((c1 * (SCALE - t) + c2 * t) / (SCALE as int)) as u8
}

/// Value of channel `ch` of the pixel at `(px, py)` after the circle is
/// drawn over a pixel that held `old_val`: fill inside the inner radius,
/// fill-to-border blend across one pixel, border, then border-to-background
/// blend across one more pixel.
pub open spec fn shaded_channel(c: Circle, px: int, py: int, ch: int, old_val: u8) -> u8 {
    let dx = c.x_pos - SCALE * px;
    let dy = c.y_pos - SCALE * py;
    let d2 = dx * dx + dy * dy;
    let inner = c.radius - c.border_width;
    if d2 <= inner * inner {
        channel_of(c.body_color, ch)
    } else if d2 <= (inner + SCALE) * (inner + SCALE) {
        blend(
            channel_of(c.body_color, ch),
            channel_of(c.border_color, ch),
            sqrt_floor(d2 as nat) - inner,
        )
    } else if d2 <= c.radius * c.radius {
        channel_of(c.border_color, ch)
    } else if d2 <= (c.radius + SCALE) * (c.radius + SCALE) {
        blend(channel_of(c.border_color, ch), old_val, sqrt_floor(d2 as nat) - c.radius)
    } else {
        old_val
    }
}

/// Whether the circle's bounding box meets a `w` by `h` pixel canvas at
/// all.
pub open spec fn paint_active(c: Circle, w: int, h: int) -> bool {
    &&& c.x_pos >= -c.radius
    &&& c.x_pos < SCALE * w + c.radius
    &&& c.y_pos >= -c.radius
    &&& c.y_pos < SCALE * h + c.radius
}

/// First pixel of the painting box along one axis.
pub open spec fn box_lo(pos: int, radius: int) -> int {
    if pos > radius {
        (pos - radius) / (SCALE as int)
    } else {
        0
    }
}

/// One past the last pixel of the painting box along one axis (two slack
/// pixels accommodate the antialiased rim).
pub open spec fn box_hi(pos: int, radius: int) -> int {
    (pos + radius) / (SCALE as int) + 2
}

/// Whether drawing the circle touches the canvas pixel `(px, py)`.
pub open spec fn pixel_painted(c: Circle, w: int, h: int, px: int, py: int) -> bool {
    &&& paint_active(c, w, h)
    &&& box_lo(c.x_pos as int, c.radius as int) <= px < box_hi(c.x_pos as int, c.radius as int)
    &&& box_lo(c.y_pos as int, c.radius as int) <= py < box_hi(c.y_pos as int, c.radius as int)
    &&& 0 <= px < w
    &&& 0 <= py < h
}

/// The three channels of pixel `(px, py)` of `data` overwritten with the
/// circle's shading.
pub open spec fn shaded_pixel_data(c: Circle, w: int, data: Seq<u8>, px: int, py: int) -> Seq<u8> {
    let base = 3 * (w * py + px);
    data.update(base, shaded_channel(c, px, py, 0, data[base])).update(
        base + 1,
        shaded_channel(c, px, py, 1, data[base + 1]),
    ).update(base + 2, shaded_channel(c, px, py, 2, data[base + 2]))
}

/// Pixel column holding byte `k` of a buffer of width `w`.
pub open spec fn px_of(k: int, w: int) -> int {
    (k / 3) % w
}

/// Pixel row holding byte `k` of a buffer of width `w`.
pub open spec fn py_of(k: int, w: int) -> int {
    (k / 3) / w
}

/// Channel of byte `k`.
pub open spec fn ch_of(k: int) -> int {
    k % 3
}

/// The whole buffer after the circle is drawn: every pixel the circle
/// touches is shaded, every other byte keeps its value.
pub open spec fn painted_data(c: Circle, w: int, h: int, data: Seq<u8>) -> Seq<u8> {
    Seq::new(
        data.len(),
        |k: int|
            if pixel_painted(c, w, h, px_of(k, w), py_of(k, w)) {
                shaded_channel(c, px_of(k, w), py_of(k, w), ch_of(k), data[k])
            } else {
                data[k]
            },
    )
}

/// Linear blend of two channel values, truncated: the machine computation
/// of [`blend`].
fn blend_channel(c1: u8, c2: u8, t: i64) -> (r: u8)
    requires
        0 <= t <= SCALE,
    ensures
        r == blend(c1, c2, t as int),
{
    let t32: u32 = t as u32;
    proof {
        assert(c1 * (256 - t) + c2 * t <= 255 * 256) by (nonlinear_arith)
            requires
                0 <= t <= 256,
                0 <= c1 <= 255,
                0 <= c2 <= 255,
        ;
        assert(c1 * (256 - t) >= 0 && c2 * t >= 0) by (nonlinear_arith)
            requires
                0 <= t <= 256,
                0 <= c1,
                0 <= c2,
        ;
    }
    let v: u32 = (c1 as u32) * (256 - t32) + (c2 as u32) * t32;
    let r: u32 = v / 256;
    r as u8
}

/// Shades the three channels of canvas pixel `(px, py)` with the circle's
/// color bands: the machine computation of [`shaded_pixel_data`].
fn shade_pixel(circle: &Circle, canvas: &mut RGBCanvas, px: i32, py: i32)
    requires
        old(canvas).wf(),
        circle.wf(),
        -COORD_LIMIT <= circle.x_pos <= COORD_LIMIT,
        -COORD_LIMIT <= circle.y_pos <= COORD_LIMIT,
        0 <= px < old(canvas).width,
        0 <= py < old(canvas).height,
        SCALE * px <= 3 * COORD_LIMIT,
        SCALE * py <= 3 * COORD_LIMIT,
    ensures
        final(canvas).wf(),
        final(canvas).width == old(canvas).width,
        final(canvas).height == old(canvas).height,
        final(canvas).data@ == shaded_pixel_data(
            *circle,
            old(canvas).width as int,
            old(canvas).data@,
            px as int,
            py as int,
        ),
{
    let w = canvas.width;
    let n: usize = canvas.data.len();
    proof {
        assert(0 <= w * py + px && 3 * (w * py + px) + 2 < 3 * w * canvas.height)
            by (nonlinear_arith)
            requires
                0 <= px < w,
                0 <= py < canvas.height,
        ;
    }
    let base: usize = 3 * ((w as usize) * (py as usize) + (px as usize));

    let dx: i64 = circle.x_pos as i64 - 256 * (px as i64);
    let dy: i64 = circle.y_pos as i64 - 256 * (py as i64);
    proof {
        assert(dx * dx >= 0 && dy * dy >= 0 && dx * dx + dy * dy < 0x4000_0000_0000_0000)
            by (nonlinear_arith)
            requires
                -0x4000_0000 <= dx <= 0x4000_0000,
                -0x4000_0000 <= dy <= 0x4000_0000,
        ;
    }
    let d2: i64 = dx * dx + dy * dy;
    let d2u: u64 = d2 as u64;
    let inner: i64 = circle.radius as i64 - circle.border_width as i64;
    let d2w: i128 = d2 as i128;
    let inner_w: i128 = inner as i128;
    let radius_w: i128 = circle.radius as i128;
    proof {
        assert(0 <= inner_w * inner_w <= 0x1_0000_0000 * 0x1_0000_0000 && 0 <= (inner_w + 256)
            * (inner_w + 256) <= 0x2_0000_0000 * 0x2_0000_0000 && 0 <= radius_w * radius_w
            <= 0x1_0000_0000 * 0x1_0000_0000 && 0 <= (radius_w + 256) * (radius_w + 256)
            <= 0x2_0000_0000 * 0x2_0000_0000) by (nonlinear_arith)
            requires
                0 <= inner_w <= 0x1_0000_0000,
                0 <= radius_w <= 0x1_0000_0000,
        ;
    }
    if d2w <= inner_w * inner_w {
        canvas.data.set(base, circle.body_color.r);
        canvas.data.set(base + 1, circle.body_color.g);
        canvas.data.set(base + 2, circle.body_color.b);
        proof {
            assert(shaded_channel(*circle, px as int, py as int, 0, old(canvas).data@[base as int])
                == circle.body_color.r);
        }
    } else if d2w <= (inner_w + 256) * (inner_w + 256) {
        let d: u64 = isqrt(d2u);
        proof {
            lemma_sqrt_floor_in_band(d2u as nat, inner as nat, (inner + 256) as nat);
        }
        let t: i64 = d as i64 - inner;
        let vr = blend_channel(circle.body_color.r, circle.border_color.r, t);
        let vg = blend_channel(circle.body_color.g, circle.border_color.g, t);
        let vb = blend_channel(circle.body_color.b, circle.border_color.b, t);
        canvas.data.set(base, vr);
        canvas.data.set(base + 1, vg);
        canvas.data.set(base + 2, vb);
        proof {
            assert(shaded_channel(*circle, px as int, py as int, 0, old(canvas).data@[base as int])
                == blend(circle.body_color.r, circle.border_color.r, t as int));
        }
    } else if d2w <= radius_w * radius_w {
        canvas.data.set(base, circle.border_color.r);
        canvas.data.set(base + 1, circle.border_color.g);
        canvas.data.set(base + 2, circle.border_color.b);
        proof {
            assert(shaded_channel(*circle, px as int, py as int, 0, old(canvas).data@[base as int])
                == circle.border_color.r);
        }
    } else if d2w <= (radius_w + 256) * (radius_w + 256) {
        let d: u64 = isqrt(d2u);
        proof {
            lemma_sqrt_floor_in_band(d2u as nat, circle.radius as nat, (circle.radius + 256) as nat);
        }
        let t: i64 = d as i64 - circle.radius as i64;
        let under_r: u8 = canvas.data[base];
        let under_g: u8 = canvas.data[base + 1];
        let under_b: u8 = canvas.data[base + 2];
        let vr = blend_channel(circle.border_color.r, under_r, t);
        let vg = blend_channel(circle.border_color.g, under_g, t);
        let vb = blend_channel(circle.border_color.b, under_b, t);
        canvas.data.set(base, vr);
        canvas.data.set(base + 1, vg);
        canvas.data.set(base + 2, vb);
        proof {
            assert(shaded_channel(*circle, px as int, py as int, 0, old(canvas).data@[base as int])
                == blend(circle.border_color.r, under_r, t as int));
        }
    } else {
        proof {
            assert(canvas.data@ =~= shaded_pixel_data(
                *circle,
                canvas.width as int,
                canvas.data@,
                px as int,
                py as int,
            ));
        }
    }
}

/// Machine computation of [`velocity_transfer`], by dividing unsigned
/// magnitudes and applying the sign afterwards; the 128-bit result carries
/// any transfer the formula can produce.
pub(crate) fn transfer_amount_wide(rel: i64, other_mass: i32, own_mass: i32) -> (q: i128)
    requires
        -0x1_0000_0000 <= rel <= 0x1_0000_0000,
        0 < other_mass,
        0 < own_mass,
    ensures
        q == velocity_transfer(rel as int, other_mass as int, own_mass as int),
        -0x8000_0000_0000_0000 <= q <= 0x8000_0000_0000_0000,
{
    if rel >= 0 {
        proof {
            assert(0 <= rel * other_mass <= 0x1_0000_0000 * 0x8000_0000) by (nonlinear_arith)
                requires
                    0 <= rel <= 0x1_0000_0000,
                    0 < other_mass < 0x8000_0000,
            ;
        }
        let prod: u128 = (rel as u128) * (other_mass as u128);
        let quot: u128 = prod / (own_mass as u128);
        proof {
            vstd::arithmetic::div_mod::lemma_div_nonincreasing(prod as int, own_mass as int);
            assert(velocity_transfer(rel as int, other_mass as int, own_mass as int) == quot);
        }
        quot as i128
    } else {
        let neg: i64 = -rel;
        proof {
            assert(0 <= neg * other_mass <= 0x1_0000_0000 * 0x8000_0000 && neg * other_mass == -(rel
                * other_mass) && rel * other_mass < 0) by (nonlinear_arith)
                requires
                    0 <= neg <= 0x1_0000_0000,
                    neg == -rel,
                    rel < 0,
                    0 < other_mass < 0x8000_0000,
            ;
        }
        let prod: u128 = (neg as u128) * (other_mass as u128);
        let quot: u128 = prod / (own_mass as u128);
        proof {
            vstd::arithmetic::div_mod::lemma_div_nonincreasing(prod as int, own_mass as int);
            assert(velocity_transfer(rel as int, other_mass as int, own_mass as int) == -(quot
                as int));
        }
        -(quot as i128)
    }
}

impl Circle {
    /// Structural soundness of a circle: positive bounded radius, border not
    /// wider than the radius, positive mass.  Established at construction
    /// and preserved by every operation.
    pub open spec fn wf(&self) -> bool {
        &&& 0 < self.radius <= COORD_LIMIT
        &&& self.border_width <= self.radius
        &&& 0 < self.mass
    }

    /// The position lies within the range the rasterizer accepts without
    /// overflowing.
    pub open spec fn pos_in_limits(&self) -> bool {
        &&& -COORD_LIMIT <= self.x_pos <= COORD_LIMIT
        &&& -COORD_LIMIT <= self.y_pos <= COORD_LIMIT
    }

    /// Position and velocity lie within the range the kinematic formulas
    /// accept without overflowing.
    pub open spec fn in_coord_limits(&self) -> bool {
        &&& -COORD_LIMIT <= self.x_pos <= COORD_LIMIT
        &&& -COORD_LIMIT <= self.y_pos <= COORD_LIMIT
        &&& -COORD_LIMIT <= self.x_vel <= COORD_LIMIT
        &&& -COORD_LIMIT <= self.y_vel <= COORD_LIMIT
    }

    /// A new circle; a border wider than the radius is silently reduced to
    /// the radius.
    pub fn new(
        name: String,
        x_pos: i32,
        y_pos: i32,
        x_vel: i32,
        y_vel: i32,
        radius: i32,
        border_width: i32,
        mass: i32,
        body_color: RGBColor,
        border_color: RGBColor,
    ) -> (result: Circle)
        requires
            0 < radius <= COORD_LIMIT,
            0 < mass,
        ensures
            result.wf(),
            result.name == name,
            result.x_pos == x_pos,
            result.y_pos == y_pos,
            result.x_vel == x_vel,
            result.y_vel == y_vel,
            result.radius == radius,
            result.border_width == if border_width > radius {
                radius as int
            } else {
                border_width as int
            },
            result.body_color == body_color,
            result.border_color == border_color,
            result.mass == mass,
    {
        let clamped_border: i32 = if border_width > radius {
            radius
        } else {
            border_width
        };
        Circle {
            name,
            x_pos,
            y_pos,
            x_vel,
            y_vel,
            radius,
            border_width: clamped_border,
            body_color,
            border_color,
            mass,
        }
    }

    /// An identical, independently owned circle.
    pub fn clone(&self) -> (result: Circle)
        ensures
            result == *self,
    {
        Circle {
            name: self.name.clone(),
            x_pos: self.x_pos,
            y_pos: self.y_pos,
            x_vel: self.x_vel,
            y_vel: self.y_vel,
            radius: self.radius,
            border_width: self.border_width,
            body_color: self.body_color,
            border_color: self.border_color,
            mass: self.mass,
        }
    }

    /// One discrete time step with reflective boundary handling, each axis
    /// independent.
    pub fn move_circle(
        &mut self,
        x_range_start: i32,
        x_range_end: i32,
        y_range_start: i32,
        y_range_end: i32,
    )
        requires
            old(self).wf(),
            old(self).in_coord_limits(),
            -COORD_LIMIT <= x_range_start <= COORD_LIMIT,
            -COORD_LIMIT <= x_range_end <= COORD_LIMIT,
            -COORD_LIMIT <= y_range_start <= COORD_LIMIT,
            -COORD_LIMIT <= y_range_end <= COORD_LIMIT,
        ensures
            final(self).x_pos == advance_pos(
                old(self).x_pos as int,
                old(self).x_vel as int,
                old(self).radius as int,
                x_range_start as int,
                x_range_end as int,
            ),
            final(self).x_vel == advance_vel(
                old(self).x_pos as int,
                old(self).x_vel as int,
                old(self).radius as int,
                x_range_start as int,
                x_range_end as int,
            ),
            final(self).y_pos == advance_pos(
                old(self).y_pos as int,
                old(self).y_vel as int,
                old(self).radius as int,
                y_range_start as int,
                y_range_end as int,
            ),
            final(self).y_vel == advance_vel(
                old(self).y_pos as int,
                old(self).y_vel as int,
                old(self).radius as int,
                y_range_start as int,
                y_range_end as int,
            ),
            final(self).name == old(self).name,
            final(self).radius == old(self).radius,
            final(self).border_width == old(self).border_width,
            final(self).body_color == old(self).body_color,
            final(self).border_color == old(self).border_color,
            final(self).mass == old(self).mass,
    {
        let radius: i64 = self.radius as i64;

        let x_next: i64 = self.x_pos as i64 + self.x_vel as i64;
        if x_next <= x_range_start as i64 + radius {
            let reflected: i64 = 2 * radius - self.x_pos as i64 - self.x_vel as i64;
            self.x_pos = reflected as i32;
            self.x_vel = -self.x_vel;
        } else if x_next >= x_range_end as i64 - radius {
            let reflected: i64 = 2 * (x_range_end as i64) - 2 * radius - self.x_pos as i64
                - self.x_vel as i64;
            self.x_pos = reflected as i32;
            self.x_vel = -self.x_vel;
        } else {
            self.x_pos = x_next as i32;
        }

        let y_next: i64 = self.y_pos as i64 + self.y_vel as i64;
        if y_next <= y_range_start as i64 + radius {
            let reflected: i64 = 2 * radius - self.y_pos as i64 - self.y_vel as i64;
            self.y_pos = reflected as i32;
            self.y_vel = -self.y_vel;
        } else if y_next >= y_range_end as i64 - radius {
            let reflected: i64 = 2 * (y_range_end as i64) - 2 * radius - self.y_pos as i64
                - self.y_vel as i64;
            self.y_pos = reflected as i32;
            self.y_vel = -self.y_vel;
        } else {
            self.y_pos = y_next as i32;
        }
    }

    /// Reacts to every overlapping circle of the caller-supplied snapshot,
    /// accumulating one velocity transfer per overlap; the circle at
    /// `own_index` is skipped.
    pub fn collide_with_other_circles(&mut self, circles_array: &Vec<Circle>, own_index: usize)
        requires
            old(self).wf(),
            forall|t: int| 0 <= t < circles_array@.len() ==> (#[trigger] circles_array@[t]).wf(),
            collide_bounded(*old(self), circles_array@, own_index as int),
        ensures
            final(self).x_vel == collided_x_vel(
                *old(self),
                circles_array@,
                own_index as int,
                circles_array@.len() as int,
            ),
            final(self).y_vel == collided_y_vel(
                *old(self),
                circles_array@,
                own_index as int,
                circles_array@.len() as int,
            ),
            final(self).name == old(self).name,
            final(self).x_pos == old(self).x_pos,
            final(self).y_pos == old(self).y_pos,
            final(self).radius == old(self).radius,
            final(self).border_width == old(self).border_width,
            final(self).body_color == old(self).body_color,
            final(self).border_color == old(self).border_color,
            final(self).mass == old(self).mass,
    {
        let ghost c0: Circle = *old(self);
        let mut vx: i64 = self.x_vel as i64;
        let mut vy: i64 = self.y_vel as i64;
        let mut i: usize = 0;
        while i < circles_array.len()
            invariant
                i <= circles_array@.len(),
                *self == c0,
                c0.wf(),
                forall|t: int| 0 <= t < circles_array@.len() ==> (#[trigger] circles_array@[t]).wf(),
                collide_bounded(c0, circles_array@, own_index as int),
                vx == collided_x_vel(c0, circles_array@, own_index as int, i as int),
                vy == collided_y_vel(c0, circles_array@, own_index as int, i as int),
            decreases circles_array@.len() - i,
        {
            proof {
                assert(-COORD_LIMIT <= collided_x_vel(c0, circles_array@, own_index as int, i as int)
                    <= COORD_LIMIT);
                assert(-COORD_LIMIT <= collided_x_vel(
                    c0,
                    circles_array@,
                    own_index as int,
                    i + 1,
                ) <= COORD_LIMIT);
                assert(-COORD_LIMIT <= collided_y_vel(
                    c0,
                    circles_array@,
                    own_index as int,
                    i + 1,
                ) <= COORD_LIMIT);
            }
            if i != own_index {
                let other = &circles_array[i];
                let dx: i64 = other.x_pos as i64 - self.x_pos as i64;
                let dy: i64 = other.y_pos as i64 - self.y_pos as i64;
                let sum_radii: i64 = other.radius as i64 + self.radius as i64;
                proof {
                    assert(dx * dx + dy * dy <= 0x2_0000_0000_0000_0000 && dx * dx >= 0 && dy * dy
                        >= 0 && sum_radii * sum_radii <= 0x1_0000_0000_0000_0000 && sum_radii
                        * sum_radii >= 0) by (nonlinear_arith)
                        requires
                            -0x1_0000_0000 <= dx <= 0x1_0000_0000,
                            -0x1_0000_0000 <= dy <= 0x1_0000_0000,
                            -0x1_0000_0000 <= sum_radii <= 0x1_0000_0000,
                    ;
                }
                let distance_squared: i128 = (dx as i128) * (dx as i128) + (dy as i128) * (dy
                    as i128);
                let sum_radii_squared: i128 = (sum_radii as i128) * (sum_radii as i128);
                if distance_squared < sum_radii_squared {
                    let rel_x: i64 = other.x_vel as i64 - vx;
                    let rel_y: i64 = other.y_vel as i64 - vy;
                    proof {
                        assert(collided_x_vel(c0, circles_array@, own_index as int, i + 1) == vx
                            + velocity_transfer(
                            circles_array@[i as int].x_vel - vx,
                            circles_array@[i as int].mass as int,
                            c0.mass as int,
                        ));
                        assert(collided_y_vel(c0, circles_array@, own_index as int, i + 1) == vy
                            + velocity_transfer(
                            circles_array@[i as int].y_vel - vy,
                            circles_array@[i as int].mass as int,
                            c0.mass as int,
                        ));
                    }
                    let tx: i128 = transfer_amount_wide(rel_x, other.mass, self.mass);
                    let ty: i128 = transfer_amount_wide(rel_y, other.mass, self.mass);
                    vx = ((vx as i128) + tx) as i64;
                    vy = ((vy as i128) + ty) as i64;
                }
            }
            i = i + 1;
        }
        self.x_vel = vx as i32;
        self.y_vel = vy as i32;
    }

    /// Moves the circle to the pointer position and gives it the velocity
    /// that one-step displacement implies, so that releasing the pointer
    /// leaves it moving.
    pub fn accelerate_to_position(&mut self, new_x: i32, new_y: i32)
        requires
            old(self).pos_in_limits(),
            -COORD_LIMIT <= new_x <= COORD_LIMIT,
            -COORD_LIMIT <= new_y <= COORD_LIMIT,
        ensures
            final(self).x_vel == new_x - old(self).x_pos,
            final(self).y_vel == new_y - old(self).y_pos,
            final(self).x_pos == new_x,
            final(self).y_pos == new_y,
            final(self).name == old(self).name,
            final(self).radius == old(self).radius,
            final(self).border_width == old(self).border_width,
            final(self).body_color == old(self).body_color,
            final(self).border_color == old(self).border_color,
            final(self).mass == old(self).mass,
    {
        let vx: i64 = new_x as i64 - self.x_pos as i64;
        let vy: i64 = new_y as i64 - self.y_pos as i64;
        self.x_vel = vx as i32;
        self.y_vel = vy as i32;
        self.x_pos = new_x;
        self.y_pos = new_y;
    }

    /// Whether `circle` overlaps any circle of `circles_array` other than
    /// the one at `own_index`.
    pub fn check_on_top(circle: &Circle, circles_array: &Vec<Circle>, own_index: usize) -> (result:
        bool)
        ensures
            result == overlaps_other(*circle, circles_array@, own_index as int),
    {
        let mut is_on_top: bool = false;
        let mut i: usize = 0;
        while i < circles_array.len()
            invariant
                i <= circles_array@.len(),
                is_on_top == exists|t: int|
                    0 <= t < i && t != own_index && circles_overlap(
                        circle.x_pos as int,
                        circle.y_pos as int,
                        circle.radius as int,
                        circles_array@[t].x_pos as int,
                        circles_array@[t].y_pos as int,
                        circles_array@[t].radius as int,
                    ),
            decreases circles_array@.len() - i,
        {
            if i != own_index {
                let other = &circles_array[i];
                let dx: i64 = other.x_pos as i64 - circle.x_pos as i64;
                let dy: i64 = other.y_pos as i64 - circle.y_pos as i64;
                let sum_radii: i64 = other.radius as i64 + circle.radius as i64;
                proof {
                    assert(dx * dx + dy * dy <= 0x2_0000_0000_0000_0000 && dx * dx >= 0 && dy * dy
                        >= 0 && sum_radii * sum_radii <= 0x1_0000_0000_0000_0000 && sum_radii
                        * sum_radii >= 0) by (nonlinear_arith)
                        requires
                            -0x1_0000_0000 <= dx <= 0x1_0000_0000,
                            -0x1_0000_0000 <= dy <= 0x1_0000_0000,
                            -0x1_0000_0000 <= sum_radii <= 0x1_0000_0000,
                    ;
                }
                let distance_squared: i128 = (dx as i128) * (dx as i128) + (dy as i128) * (dy
                    as i128);
                let sum_radii_squared: i128 = (sum_radii as i128) * (sum_radii as i128);
                if distance_squared < sum_radii_squared {
                    is_on_top = true;
                }
            }
            i = i + 1;
        }
        is_on_top
    }

    /// Draws the circle onto the canvas: iterates the clipped integer
    /// bounding box of `position +/- radius` (plus two slack pixels for the
    /// antialiased rim) and shades each covered pixel by its distance band.
    #[verifier::loop_isolation(false)]
    pub fn put_on_canvas_smoothed(&self, canvas: &mut RGBCanvas)
        requires
            old(canvas).wf(),
            self.wf(),
            -COORD_LIMIT <= self.x_pos <= COORD_LIMIT,
            -COORD_LIMIT <= self.y_pos <= COORD_LIMIT,
        ensures
            final(canvas).wf(),
            final(canvas).width == old(canvas).width,
            final(canvas).height == old(canvas).height,
            final(canvas).data@ == painted_data(
                *self,
                old(canvas).width as int,
                old(canvas).height as int,
                old(canvas).data@,
            ),
    {
        let w0: i32 = canvas.width;
        let h0: i32 = canvas.height;
        let ghost wg: int = w0 as int;
        let ghost hg: int = h0 as int;
        let ghost d0: Seq<u8> = canvas.data@;

        let w64: i64 = w0 as i64;
        let h64: i64 = h0 as i64;
        let x64: i64 = self.x_pos as i64;
        let y64: i64 = self.y_pos as i64;
        let r64: i64 = self.radius as i64;

        if x64 >= -r64 && x64 < 256 * w64 + r64 && y64 >= -r64 && y64 < 256 * h64 + r64 {
            let ilo: i64 = if x64 > r64 {
                (((x64 - r64) as u64) / 256) as i64
            } else {
                0
            };
            let ihi: i64 = (((x64 + r64) as u64) / 256) as i64 + 2;
            let jlo: i64 = if y64 > r64 {
                (((y64 - r64) as u64) / 256) as i64
            } else {
                0
            };
            let jhi: i64 = (((y64 + r64) as u64) / 256) as i64 + 2;
            proof {
                assert(paint_active(*self, wg, hg));
                assert(ilo == box_lo(self.x_pos as int, self.radius as int));
                assert(ihi == box_hi(self.x_pos as int, self.radius as int));
                assert(jlo == box_lo(self.y_pos as int, self.radius as int));
                assert(jhi == box_hi(self.y_pos as int, self.radius as int));
                lemma_fundamental_div_mod(x64 + r64, 256);
                lemma_mod_bound(x64 + r64, 256);
                lemma_fundamental_div_mod(y64 + r64, 256);
                lemma_mod_bound(y64 + r64, 256);
                assert(256 * (ihi - 1) <= x64 + r64 + 256);
                assert(256 * (jhi - 1) <= y64 + r64 + 256);
                assert(0 <= ilo && 0 <= jlo);
            }
            let mut j: i64 = jlo;
            while j < jhi
                invariant
                    jlo <= j <= jhi,
                    canvas.wf(),
                    canvas.width == w0,
                    canvas.height == h0,
                    canvas.data@.len() == d0.len(),
                    forall|k: int|
                        0 <= k < d0.len() ==> canvas.data@[k] == (
                        if pixel_painted(*self, wg, hg, px_of(k, wg), py_of(k, wg)) && py_of(k, wg)
                            < j {
                            shaded_channel(*self, px_of(k, wg), py_of(k, wg), ch_of(k), d0[k])
                        } else {
                            d0[k]
                        }),
                decreases jhi - j,
            {
                let mut i: i64 = ilo;
                while i < ihi
                    invariant
                        ilo <= i <= ihi,
                        jlo <= j < jhi,
                        canvas.wf(),
                        canvas.width == w0,
                        canvas.height == h0,
                        canvas.data@.len() == d0.len(),
                        forall|k: int|
                            0 <= k < d0.len() ==> canvas.data@[k] == (
                            if pixel_painted(*self, wg, hg, px_of(k, wg), py_of(k, wg)) && (py_of(
                                k,
                                wg,
                            ) < j || (py_of(k, wg) == j && px_of(k, wg) < i)) {
                                shaded_channel(*self, px_of(k, wg), py_of(k, wg), ch_of(k), d0[k])
                            } else {
                                d0[k]
                            }),
                    decreases ihi - i,
                {
                    if i < w64 && j < h64 {
                        let ghost dprev: Seq<u8> = canvas.data@;
                        proof {
                            assert(SCALE * (i as int) <= 3 * COORD_LIMIT);
                            assert(SCALE * (j as int) <= 3 * COORD_LIMIT);
                        }
                        shade_pixel(self, canvas, i as i32, j as i32);
                        proof {
                            let base = 3 * (wg * (j as int) + (i as int));
                            assert(0 <= wg * (j as int) + (i as int) && 3 * (wg * (j as int) + (i
                                as int)) + 2 < 3 * wg * hg) by (nonlinear_arith)
                                requires
                                    0 <= i < wg,
                                    0 <= j < hg,
                            ;
                            lemma_pixel_index_decompose(wg, i as int, j as int, 0);
                            lemma_pixel_index_decompose(wg, i as int, j as int, 1);
                            lemma_pixel_index_decompose(wg, i as int, j as int, 2);
                            assert(pixel_painted(*self, wg, hg, i as int, j as int));
                            assert forall|k: int| 0 <= k < d0.len() implies canvas.data@[k] == (
                            if pixel_painted(*self, wg, hg, px_of(k, wg), py_of(k, wg)) && (py_of(
                                k,
                                wg,
                            ) < j || (py_of(k, wg) == j && px_of(k, wg) < i + 1)) {
                                shaded_channel(*self, px_of(k, wg), py_of(k, wg), ch_of(k), d0[k])
                            } else {
                                d0[k]
                            }) by {
                                lemma_flat_index_decompose(wg, hg, k);
                                if k == base || k == base + 1 || k == base + 2 {
                                    assert(px_of(k, wg) == i as int);
                                    assert(py_of(k, wg) == j as int);
                                    assert(dprev[k] == d0[k]);
                                } else {
                                    assert(canvas.data@[k] == dprev[k]);
                                    assert(!(px_of(k, wg) == i as int && py_of(k, wg) == j as int));
                                }
                            }
                        }
                    } else {
                        proof {
                            assert forall|k: int| 0 <= k < d0.len() implies canvas.data@[k] == (
                            if pixel_painted(*self, wg, hg, px_of(k, wg), py_of(k, wg)) && (py_of(
                                k,
                                wg,
                            ) < j || (py_of(k, wg) == j && px_of(k, wg) < i + 1)) {
                                shaded_channel(*self, px_of(k, wg), py_of(k, wg), ch_of(k), d0[k])
                            } else {
                                d0[k]
                            }) by {
                                if px_of(k, wg) == i as int && py_of(k, wg) == j as int {
                                    assert(!pixel_painted(*self, wg, hg, px_of(k, wg), py_of(
                                        k,
                                        wg,
                                    )));
                                }
                            }
                        }
                    }
                    i = i + 1;
                }
                j = j + 1;
            }
            proof {
                assert(canvas.data@ =~= painted_data(*self, wg, hg, d0));
            }
        } else {
            proof {
                assert(!paint_active(*self, wg, hg));
                assert(canvas.data@ =~= painted_data(*self, wg, hg, d0));
            }
        }
    }
}

} // verus!
