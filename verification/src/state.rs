//! The world: the ordered collection of circles, the persistent background,
//! the pointer selection, and the per-tick orchestration.

use vstd::prelude::*;

use crate::circle::advance_pos;
use crate::circle::advance_vel;
use crate::circle::collide_bounded;
use crate::circle::collided_x_vel;
use crate::circle::collided_y_vel;
use crate::circle::overlaps_other;
use crate::circle::painted_data;
use crate::circle::velocity_transfer;
use crate::circle::Circle;
use crate::common_structs::RGBCanvas;
use crate::common_structs::RGBColor;
use crate::rng::random_u8;
use crate::rng::rng_new;
use crate::rng::rng_range_i32;
use crate::COORD_LIMIT;
use crate::PIXEL_LIMIT;
use crate::SCALE;
use vstd::string::StringExecFns;

verus! {

/// Index passed to the overlap scan when no circle may be excluded: far
/// beyond any attainable collection size.
pub const NO_EXCLUDED_INDEX: usize = 999999;

/// A circle after one time step against the world boundaries `0..SCALE*w`
/// and `0..SCALE*h`, both axes independent.
pub open spec fn moved_circle(c: Circle, w: int, h: int) -> Circle {
    Circle {
        name: c.name,
        x_pos: advance_pos(c.x_pos as int, c.x_vel as int, c.radius as int, 0, SCALE * w) as i32,
        y_pos: advance_pos(c.y_pos as int, c.y_vel as int, c.radius as int, 0, SCALE * h) as i32,
        x_vel: advance_vel(c.x_pos as int, c.x_vel as int, c.radius as int, 0, SCALE * w) as i32,
        y_vel: advance_vel(c.y_pos as int, c.y_vel as int, c.radius as int, 0, SCALE * h) as i32,
        radius: c.radius,
        border_width: c.border_width,
        body_color: c.body_color,
        border_color: c.border_color,
        mass: c.mass,
    }
}

/// All circles after the movement pass.
pub open spec fn moved_circles(circles: Seq<Circle>, w: int, h: int) -> Seq<Circle> {
    circles.map_values(|c: Circle| moved_circle(c, w, h))
}

/// A circle after the collision pass against the shared snapshot `others`.
pub open spec fn collided_circle(c: Circle, others: Seq<Circle>, i: int) -> Circle {
    Circle {
        name: c.name,
        x_pos: c.x_pos,
        y_pos: c.y_pos,
        x_vel: collided_x_vel(c, others, i, others.len() as int) as i32,
        y_vel: collided_y_vel(c, others, i, others.len() as int) as i32,
        radius: c.radius,
        border_width: c.border_width,
        body_color: c.body_color,
        border_color: c.border_color,
        mass: c.mass,
    }
}

/// One whole tick: every circle moves, then every circle reacts to the
/// single post-movement snapshot, so no reaction reads a velocity already
/// updated this tick.
pub open spec fn stepped_circles(circles: Seq<Circle>, w: int, h: int) -> Seq<Circle> {
    let moved = moved_circles(circles, w, h);
    Seq::new(circles.len(), |i: int| collided_circle(moved[i], moved, i))
}

/// Every intermediate velocity of the tick's collision pass stays within
/// [`COORD_LIMIT`].
pub open spec fn step_collide_bounded(circles: Seq<Circle>, w: int, h: int) -> bool {
    forall|i: int|
        0 <= i < circles.len() ==> #[trigger] collide_bounded(
            moved_circles(circles, w, h)[i],
            moved_circles(circles, w, h),
            i,
        )
}

/// Whether `circle` overlaps any member of `circles` (no index excluded,
/// since [`NO_EXCLUDED_INDEX`] is beyond every attainable length).
pub open spec fn blocked_by_existing(circle: Circle, circles: Seq<Circle>) -> bool {
    overlaps_other(circle, circles, NO_EXCLUDED_INDEX as int)
}

/// The circles after a removal request: the selected circle leaves when a
/// selection is active, and nothing changes otherwise.
pub open spec fn removed_selection(circles: Seq<Circle>, selected: int, has: bool) -> Seq<Circle> {
    if has {
        circles.remove(selected)
    } else {
        circles
    }
}

/// Removing is idempotent: the first removal clears the selection, so a
/// second removal right after it, with whatever stale index, changes the
/// circles no further.
pub proof fn lemma_remove_selected_idempotent(
    circles: Seq<Circle>,
    selected: int,
    has: bool,
    stale: int,
)
    ensures
        removed_selection(removed_selection(circles, selected, has), stale, false)
            == removed_selection(circles, selected, has),
{
}

/// On an empty world the pointer hits nothing, wherever it points: a
/// selection request always ends with no selection.
pub proof fn lemma_select_on_empty_misses(circles: Seq<Circle>, px: int, py: int)
    requires
        circles.len() == 0,
    ensures
        topmost_hit(circles, px, py) == -1,
{
}

/// Rendering reads the world and nothing else: two renders of one
/// unchanged world yield byte-identical buffers.
pub proof fn lemma_rendered_view_deterministic(s: State, first: Seq<u8>, second: Seq<u8>)
    requires
        first == rendered_circles(s.circles@, s.width as int, s.height as int, s.background@),
        second == rendered_circles(s.circles@, s.width as int, s.height as int, s.background@),
    ensures
        first == second,
{
}

/// Whether the pointer at fixed-point position `(px, py)` falls strictly
/// inside circle `c`.
pub open spec fn selection_hit(c: Circle, px: int, py: int) -> bool {
    (px - c.x_pos) * (px - c.x_pos) + (py - c.y_pos) * (py - c.y_pos) < c.radius * c.radius
}

/// Index of the topmost (largest-index) circle hit by the pointer, or `-1`
/// when none is hit.
pub open spec fn topmost_hit(circles: Seq<Circle>, px: int, py: int) -> int
    decreases circles.len(),
{
    if circles.len() == 0 {
        -1
    } else if selection_hit(circles.last(), px, py) {
        circles.len() - 1
    } else {
        topmost_hit(circles.drop_last(), px, py)
    }
}

/// The frame: the background, then every circle painted in collection
/// order, so later circles draw over earlier ones.
pub open spec fn rendered_circles(circles: Seq<Circle>, w: int, h: int, base: Seq<u8>) -> Seq<u8>
    decreases circles.len(),
{
    if circles.len() == 0 {
        base
    } else {
        painted_data(circles.last(), w, h, rendered_circles(circles.drop_last(), w, h, base))
    }
}

/// The scene: world dimensions (in pixels), the background buffer, the
/// ordered circles, and the pointer selection.
pub struct State {
    pub width: i32,
    pub height: i32,
    pub background: Vec<u8>,
    pub circles: Vec<Circle>,
    pub selected_circle_index: usize,
    pub has_selected_circle: bool,
}

impl State {
    /// Structural soundness of the world: positive bounded dimensions, a
    /// background of exactly `3 * width * height` bytes, sound circles, and
    /// a selected index that is in range whenever a selection is active.
    pub open spec fn wf(&self) -> bool {
        &&& 0 < self.width <= PIXEL_LIMIT
        &&& 0 < self.height <= PIXEL_LIMIT
        &&& self.background@.len() == 3 * self.width * self.height
        &&& forall|t: int| 0 <= t < self.circles@.len() ==> (#[trigger] self.circles@[t]).wf()
        &&& self.has_selected_circle ==> self.selected_circle_index < self.circles@.len()
    }

    /// Every circle's position and velocity lie within the range the
    /// kinematic formulas accept.
    pub open spec fn circles_in_limits(&self) -> bool {
        forall|t: int|
            0 <= t < self.circles@.len() ==> (#[trigger] self.circles@[t]).in_coord_limits()
    }

    /// Whether one tick can be computed within the machine integers: see
    /// [`State::can_progress`] for the machine test.
    pub open spec fn can_step(&self) -> bool {
        &&& self.circles_in_limits()
        &&& step_collide_bounded(self.circles@, self.width as int, self.height as int)
    }

    /// A fresh world with a black background and no circles.
    pub fn new(width: i32, height: i32) -> (result: State)
        requires
            0 < width <= PIXEL_LIMIT,
            0 < height <= PIXEL_LIMIT,
        ensures
            result.wf(),
            result.width == width,
            result.height == height,
            result.background@ == Seq::new((3 * width * height) as nat, |i: int| 0u8),
            result.circles@ == Seq::<Circle>::empty(),
            result.selected_circle_index == 0,
            !result.has_selected_circle,
    {
        State {
            width,
            height,
            background: State::create_background(width, height),
            circles: Vec::<Circle>::new(),
            selected_circle_index: 0,
            has_selected_circle: false,
        }
    }

    /// Appends `circle`, unless it overlaps an existing circle, in which
    /// case the world is unchanged.
    pub fn add_circle(&mut self, circle: Circle)
        requires
            old(self).wf(),
            circle.wf(),
        ensures
            final(self).wf(),
            final(self).circles@ == if blocked_by_existing(circle, old(self).circles@) {
                old(self).circles@
            } else {
                old(self).circles@.push(circle)
            },
            final(self).width == old(self).width,
            final(self).height == old(self).height,
            final(self).background@ == old(self).background@,
            final(self).selected_circle_index == old(self).selected_circle_index,
            final(self).has_selected_circle == old(self).has_selected_circle,
    {
        let is_on_top = Circle::check_on_top(&circle, &self.circles, NO_EXCLUDED_INDEX);
        if !is_on_top {
            self.circles.push(circle);
        }
    }

    /// Removes the selected circle, if a selection is active, and always
    /// clears the selection.
    pub fn remove_circle(&mut self)
        requires
            old(self).wf(),
        ensures
            final(self).wf(),
            !final(self).has_selected_circle,
            final(self).circles@ == removed_selection(
                old(self).circles@,
                old(self).selected_circle_index as int,
                old(self).has_selected_circle,
            ),
            final(self).width == old(self).width,
            final(self).height == old(self).height,
            final(self).background@ == old(self).background@,
            final(self).selected_circle_index == old(self).selected_circle_index,
    {
        if self.has_selected_circle {
            let ghost orig: Seq<Circle> = self.circles@;
            let sel: usize = self.selected_circle_index;
            let mut new_circles_array: Vec<Circle> = Vec::new();
            let mut i: usize = 0;
            while i < self.circles.len()
                invariant
                    i <= orig.len(),
                    self.circles@ == orig,
                    sel < orig.len(),
                    new_circles_array@ == if i <= sel {
                        orig.subrange(0, i as int)
                    } else {
                        orig.subrange(0, sel as int) + orig.subrange(sel as int + 1, i as int)
                    },
                decreases orig.len() - i,
            {
                if i != sel {
                    new_circles_array.push(self.circles[i].clone());
                    proof {
                        if i < sel {
                            assert(new_circles_array@ =~= orig.subrange(0, i + 1));
                        } else {
                            assert(new_circles_array@ =~= orig.subrange(0, sel as int)
                                + orig.subrange(sel as int + 1, i + 1));
                        }
                    }
                } else {
                    proof {
                        assert(new_circles_array@ =~= orig.subrange(0, sel as int) + orig.subrange(
                            sel as int + 1,
                            i + 1,
                        ));
                    }
                }
                i = i + 1;
            }
            proof {
                assert(new_circles_array@ =~= orig.remove(sel as int));
            }
            self.circles = new_circles_array;
        }
        self.has_selected_circle = false;
    }

    /// Swaps in a replacement background of exactly the current size.
    pub fn replace_background(&mut self, new_background: Vec<u8>)
        requires
            old(self).wf(),
            new_background@.len() == old(self).background@.len(),
        ensures
            final(self).wf(),
            final(self).background@ == new_background@,
            final(self).width == old(self).width,
            final(self).height == old(self).height,
            final(self).circles@ == old(self).circles@,
            final(self).selected_circle_index == old(self).selected_circle_index,
            final(self).has_selected_circle == old(self).has_selected_circle,
    {
        self.background = new_background;
    }

    /// Selects the topmost circle strictly containing the pointer pixel
    /// `(x, y)`: that circle moves to the end of the collection (so it
    /// paints last, on top) and becomes the selection.  With no hit the
    /// selection is cleared and the stale index left alone.
    #[verifier::loop_isolation(false)]
    pub fn select_circle(&mut self, x: i32, y: i32)
        requires
            old(self).wf(),
            -PIXEL_LIMIT <= x <= PIXEL_LIMIT,
            -PIXEL_LIMIT <= y <= PIXEL_LIMIT,
        ensures
            final(self).wf(),
            final(self).width == old(self).width,
            final(self).height == old(self).height,
            final(self).background@ == old(self).background@,
            ({
                let sel = topmost_hit(old(self).circles@, SCALE * x, SCALE * y);
                if sel >= 0 {
                    &&& final(self).circles@ == old(self).circles@.remove(sel).push(
                        old(self).circles@[sel],
                    )
                    &&& final(self).selected_circle_index == old(self).circles@.len() - 1
                    &&& final(self).has_selected_circle
                } else {
                    &&& final(self).circles@ == old(self).circles@
                    &&& !final(self).has_selected_circle
                    &&& final(self).selected_circle_index == old(self).selected_circle_index
                }
            }),
    {
        let x_pos: i32 = 256 * x;
        let y_pos: i32 = 256 * y;
        let ghost orig: Seq<Circle> = self.circles@;

        let mut is_selected: bool = false;
        let mut selected_index: usize = 0;
        let mut t: usize = self.circles.len();
        proof {
            assert(orig.subrange(0, orig.len() as int) =~= orig);
        }
        while t > 0 && !is_selected
            invariant
                t <= orig.len(),
                self.circles@ == orig,
                is_selected ==> selected_index < orig.len() && topmost_hit(
                    orig,
                    x_pos as int,
                    y_pos as int,
                ) == selected_index,
                !is_selected ==> topmost_hit(orig, x_pos as int, y_pos as int) == topmost_hit(
                    orig.subrange(0, t as int),
                    x_pos as int,
                    y_pos as int,
                ),
            decreases t,
        {
            let idx: usize = t - 1;
            let c = &self.circles[idx];
            let dx: i64 = x_pos as i64 - c.x_pos as i64;
            let dy: i64 = y_pos as i64 - c.y_pos as i64;
            let r: i64 = c.radius as i64;
            proof {
                assert(dx * dx >= 0 && dy * dy >= 0 && dx * dx + dy * dy
                    <= 0x2_0000_0000_0000_0000 && 0 <= r * r <= 0x1_0000_0000_0000_0000)
                    by (nonlinear_arith)
                    requires
                        -0x1_0000_0000 <= dx <= 0x1_0000_0000,
                        -0x1_0000_0000 <= dy <= 0x1_0000_0000,
                        -0x1_0000_0000 <= r <= 0x1_0000_0000,
                ;
                assert(orig.subrange(0, t as int).last() == orig[idx as int]);
                assert(orig.subrange(0, t as int).drop_last() =~= orig.subrange(0, idx as int));
            }
            let d2: i128 = (dx as i128) * (dx as i128) + (dy as i128) * (dy as i128);
            let r2: i128 = (r as i128) * (r as i128);
            if d2 < r2 {
                selected_index = idx;
                is_selected = true;
            }
            t = idx;
        }
        if is_selected {
            let selected_circle = self.circles.remove(selected_index);
            self.circles.push(selected_circle);
            self.selected_circle_index = self.circles.len() - 1;
            proof {
                assert forall|k: int| 0 <= k < self.circles@.len() implies (
                #[trigger] self.circles@[k]).wf() by {
                    if k < selected_index {
                        assert(self.circles@[k] == orig[k]);
                    } else if k < orig.len() - 1 {
                        assert(self.circles@[k] == orig[k + 1]);
                    } else {
                        assert(self.circles@[k] == orig[selected_index as int]);
                    }
                }
            }
        }
        self.has_selected_circle = is_selected;
    }

    /// Routes a pointer drag to the selected circle: it snaps to pixel
    /// `(x, y)` with the velocity the one-step displacement implies.  A
    /// drag with no active selection is ignored.
    pub fn drag_selected_to(&mut self, x: i32, y: i32)
        requires
            old(self).wf(),
            -PIXEL_LIMIT <= x <= PIXEL_LIMIT,
            -PIXEL_LIMIT <= y <= PIXEL_LIMIT,
            old(self).has_selected_circle ==> old(self).circles@[old(
                self,
            ).selected_circle_index as int].pos_in_limits(),
        ensures
            final(self).wf(),
            final(self).width == old(self).width,
            final(self).height == old(self).height,
            final(self).background@ == old(self).background@,
            final(self).selected_circle_index == old(self).selected_circle_index,
            final(self).has_selected_circle == old(self).has_selected_circle,
            ({
                let sel = old(self).selected_circle_index as int;
                let c = old(self).circles@[sel];
                if old(self).has_selected_circle {
                    final(self).circles@ == old(self).circles@.update(
                        sel,
                        Circle {
                            x_pos: (SCALE * x) as i32,
                            y_pos: (SCALE * y) as i32,
                            x_vel: (SCALE * x - c.x_pos) as i32,
                            y_vel: (SCALE * y - c.y_pos) as i32,
                            ..c
                        },
                    )
                } else {
                    final(self).circles@ == old(self).circles@
                }
            }),
    {
        if self.has_selected_circle {
            let sel: usize = self.selected_circle_index;
            let mut dragged: Circle = self.circles[sel].clone();
            dragged.accelerate_to_position(256 * x, 256 * y);
            self.circles.set(sel, dragged);
            proof {
                assert forall|t: int| 0 <= t < self.circles@.len() implies (
                #[trigger] self.circles@[t]).wf() by {
                    if t != sel {
                        assert(self.circles@[t] == old(self).circles@[t]);
                    }
                }
            }
        }
    }

    /// Builds the frame: a fresh canvas holding the background, then every
    /// circle painted in collection order.  The result is an owned
    /// snapshot, independent of the world.
    #[verifier::loop_isolation(false)]
    pub fn get_rendered_view(&self) -> (result: RGBCanvas)
        requires
            self.wf(),
            forall|t: int| 0 <= t < self.circles@.len() ==> (#[trigger] self.circles@[t]).pos_in_limits(),
        ensures
            result.wf(),
            result.width == self.width,
            result.height == self.height,
            result.data@ == rendered_circles(
                self.circles@,
                self.width as int,
                self.height as int,
                self.background@,
            ),
    {
        let mut rendered_scene = RGBCanvas::new(self.width, self.height);

        let mut i: usize = 0;
        while i < self.background.len()
            invariant
                i <= self.background@.len(),
                rendered_scene.wf(),
                rendered_scene.width == self.width,
                rendered_scene.height == self.height,
                rendered_scene.data@.len() == self.background@.len(),
                forall|k: int| 0 <= k < i ==> rendered_scene.data@[k] == self.background@[k],
            decreases self.background@.len() - i,
        {
            let v: u8 = self.background[i];
            rendered_scene.data.set(i, v);
            i = i + 1;
        }
        proof {
            assert(rendered_scene.data@ =~= self.background@);
            assert(self.circles@.subrange(0, 0) =~= Seq::<Circle>::empty());
        }

        let mut idx: usize = 0;
        while idx < self.circles.len()
            invariant
                idx <= self.circles@.len(),
                rendered_scene.wf(),
                rendered_scene.width == self.width,
                rendered_scene.height == self.height,
                rendered_scene.data@ == rendered_circles(
                    self.circles@.subrange(0, idx as int),
                    self.width as int,
                    self.height as int,
                    self.background@,
                ),
            decreases self.circles@.len() - idx,
        {
            let c = &self.circles[idx];
            c.put_on_canvas_smoothed(&mut rendered_scene);
            proof {
                assert(self.circles@.subrange(0, idx + 1).drop_last() =~= self.circles@.subrange(
                    0,
                    idx as int,
                ));
                assert(self.circles@.subrange(0, idx + 1).last() == self.circles@[idx as int]);
            }
            idx = idx + 1;
        }
        proof {
            assert(self.circles@.subrange(0, self.circles@.len() as int) =~= self.circles@);
        }
        rendered_scene
    }

    /// Adds a circle at pixel `(x, y)` with random velocity, radius, border
    /// and colors, the mass derived as the square of the radius; the
    /// addition is still subject to the overlap rejection of
    /// [`State::add_circle`].
    pub fn add_random_circle_at_coords(&mut self, x: i32, y: i32)
        requires
            old(self).wf(),
            -PIXEL_LIMIT <= x <= PIXEL_LIMIT,
            -PIXEL_LIMIT <= y <= PIXEL_LIMIT,
        ensures
            final(self).wf(),
            final(self).width == old(self).width,
            final(self).height == old(self).height,
            final(self).background@ == old(self).background@,
            final(self).selected_circle_index == old(self).selected_circle_index,
            final(self).has_selected_circle == old(self).has_selected_circle,
            exists|c: Circle|
                {
                    &&& c.wf()
                    &&& c.x_pos == SCALE * x
                    &&& c.y_pos == SCALE * y
                    &&& -2 * SCALE <= c.x_vel < 2 * SCALE
                    &&& -2 * SCALE <= c.y_vel < 2 * SCALE
                    &&& 15 * SCALE <= c.radius < 25 * SCALE
                    &&& 3 * SCALE <= c.border_width < 12 * SCALE
                    &&& c.mass == (c.radius * c.radius) / (SCALE as int)
                    &&& final(self).circles@ == (if blocked_by_existing(c, old(self).circles@) {
                        old(self).circles@
                    } else {
                        old(self).circles@.push(c)
                    })
                },
    {
        let mut rng = rng_new();
        let x_vel: i32 = rng_range_i32(&mut rng, -512, 512);
        let y_vel: i32 = rng_range_i32(&mut rng, -512, 512);
        let radius: i32 = rng_range_i32(&mut rng, 3840, 6400);
        let border_width: i32 = rng_range_i32(&mut rng, 768, 3072);
        proof {
            assert(3840 * 3840 <= radius * radius && radius * radius <= 6400 * 6400)
                by (nonlinear_arith)
                requires
                    3840 <= radius < 6400,
            ;
            vstd::arithmetic::div_mod::lemma_div_is_ordered(
                3840int * 3840int,
                radius as int * radius as int,
                256int,
            );
        }
        let mass: i32 = (((radius as u64) * (radius as u64)) / 256) as i32;
        let body_color = RGBColor { r: random_u8(), g: random_u8(), b: random_u8() };
        let border_color = RGBColor { r: random_u8(), g: random_u8(), b: random_u8() };
        let new_circle: Circle = Circle::new(
            String::from_str("Click_Circle"),
            256 * x,
            256 * y,
            x_vel,
            y_vel,
            radius,
            border_width,
            mass,
            body_color,
            border_color,
        );
        self.add_circle(new_circle);
    }

    /// One tick: moves every circle against the world bounds, then lets
    /// every circle react to the single shared post-movement snapshot.
    #[verifier::loop_isolation(false)]
    pub fn progress_one_step(&mut self)
        requires
            old(self).wf(),
            old(self).can_step(),
        ensures
            final(self).wf(),
            final(self).circles@ == stepped_circles(
                old(self).circles@,
                old(self).width as int,
                old(self).height as int,
            ),
            final(self).width == old(self).width,
            final(self).height == old(self).height,
            final(self).background@ == old(self).background@,
            final(self).selected_circle_index == old(self).selected_circle_index,
            final(self).has_selected_circle == old(self).has_selected_circle,
    {
        let ghost orig: Seq<Circle> = self.circles@;
        let ghost wi: int = self.width as int;
        let ghost hi: int = self.height as int;
        let ghost m: Seq<Circle> = moved_circles(orig, wi, hi);
        let bound_x: i32 = 256 * self.width;
        let bound_y: i32 = 256 * self.height;

        let mut moved: Vec<Circle> = Vec::new();
        let mut i: usize = 0;
        while i < self.circles.len()
            invariant
                i <= orig.len(),
                self.circles@ == orig,
                moved@.len() == i,
                forall|k: int| 0 <= k < i ==> moved@[k] == m[k],
            decreases orig.len() - i,
        {
            let mut c: Circle = self.circles[i].clone();
            c.move_circle(0, bound_x, 0, bound_y);
            moved.push(c);
            i = i + 1;
        }
        proof {
            assert(moved@ =~= m);
        }
        self.circles = moved;

        let mut result: Vec<Circle> = Vec::new();
        let mut i2: usize = 0;
        while i2 < self.circles.len()
            invariant
                i2 <= m.len(),
                self.circles@ == m,
                result@.len() == i2,
                forall|k: int| 0 <= k < i2 ==> result@[k] == collided_circle(m[k], m, k),
            decreases m.len() - i2,
        {
            proof {
                assert(collide_bounded(moved_circles(orig, wi, hi)[i2 as int], moved_circles(
                    orig,
                    wi,
                    hi,
                ), i2 as int));
            }
            let mut c: Circle = self.circles[i2].clone();
            c.collide_with_other_circles(&self.circles, i2);
            result.push(c);
            i2 = i2 + 1;
        }
        proof {
            assert(result@ =~= stepped_circles(orig, wi, hi));
        }
        self.circles = result;
        proof {
            assert forall|t: int| 0 <= t < self.circles@.len() implies (
            #[trigger] self.circles@[t]).wf() by {
                assert(self.circles@[t] == collided_circle(m[t], m, t));
                assert(m[t] == moved_circle(orig[t], wi, hi));
                assert(orig[t].wf());
            }
        }
    }

    /// Whether one tick can be computed within the machine integers: every
    /// position and velocity within [`COORD_LIMIT`], and every running
    /// velocity of the collision pass too.  [`State::progress_one_step`]
    /// asks exactly for this.
    #[verifier::loop_isolation(false)]
    pub fn can_progress(&self) -> (result: bool)
        requires
            self.wf(),
        ensures
            result == self.can_step(),
    {
        let ghost orig: Seq<Circle> = self.circles@;
        let ghost wi: int = self.width as int;
        let ghost hi: int = self.height as int;
        let ghost m: Seq<Circle> = moved_circles(orig, wi, hi);

        let mut i: usize = 0;
        while i < self.circles.len()
            invariant
                i <= orig.len(),
                forall|k: int| 0 <= k < i ==> (#[trigger] orig[k]).in_coord_limits(),
            decreases orig.len() - i,
        {
            let c = &self.circles[i];
            if c.x_pos < -COORD_LIMIT || c.x_pos > COORD_LIMIT || c.y_pos < -COORD_LIMIT || c.y_pos
                > COORD_LIMIT || c.x_vel < -COORD_LIMIT || c.x_vel > COORD_LIMIT || c.y_vel
                < -COORD_LIMIT || c.y_vel > COORD_LIMIT {
                proof {
                    assert(!orig[i as int].in_coord_limits());
                    assert(!self.circles_in_limits());
                }
                return false;
            }
            i = i + 1;
        }

        let bound_x: i32 = 256 * self.width;
        let bound_y: i32 = 256 * self.height;
        let mut moved: Vec<Circle> = Vec::new();
        let mut j: usize = 0;
        while j < self.circles.len()
            invariant
                j <= orig.len(),
                moved@.len() == j,
                forall|k: int| 0 <= k < j ==> moved@[k] == m[k],
            decreases orig.len() - j,
        {
            let mut c: Circle = self.circles[j].clone();
            c.move_circle(0, bound_x, 0, bound_y);
            moved.push(c);
            j = j + 1;
        }
        proof {
            assert(moved@ =~= m);
        }

        let mut i2: usize = 0;
        while i2 < moved.len()
            invariant
                i2 <= m.len(),
                moved@ == m,
                forall|k: int| 0 <= k < i2 ==> #[trigger] collide_bounded(m[k], m, k),
            decreases m.len() - i2,
        {
            let me = &moved[i2];
            let mut vx: i64 = me.x_vel as i64;
            let mut vy: i64 = me.y_vel as i64;
            let mut k: usize = 0;
            while k < moved.len()
                invariant
                    k <= m.len(),
                    moved@ == m,
                    i2 < m.len(),
                    vx == collided_x_vel(m[i2 as int], m, i2 as int, k as int),
                    vy == collided_y_vel(m[i2 as int], m, i2 as int, k as int),
                    -COORD_LIMIT <= vx <= COORD_LIMIT,
                    -COORD_LIMIT <= vy <= COORD_LIMIT,
                    forall|p: int|
                        0 <= p <= k ==> {
                            &&& -COORD_LIMIT <= #[trigger] collided_x_vel(
                                m[i2 as int],
                                m,
                                i2 as int,
                                p,
                            ) <= COORD_LIMIT
                            &&& -COORD_LIMIT <= collided_y_vel(m[i2 as int], m, i2 as int, p)
                                <= COORD_LIMIT
                        },
                decreases m.len() - k,
            {
                if k != i2 {
                    let other = &moved[k];
                    let dx: i64 = other.x_pos as i64 - me.x_pos as i64;
                    let dy: i64 = other.y_pos as i64 - me.y_pos as i64;
                    let sum_radii: i64 = other.radius as i64 + me.radius as i64;
                    proof {
                        assert(dx * dx + dy * dy <= 0x2_0000_0000_0000_0000 && dx * dx >= 0 && dy
                            * dy >= 0 && sum_radii * sum_radii <= 0x1_0000_0000_0000_0000
                            && sum_radii * sum_radii >= 0) by (nonlinear_arith)
                            requires
                                -0x1_0000_0000 <= dx <= 0x1_0000_0000,
                                -0x1_0000_0000 <= dy <= 0x1_0000_0000,
                                -0x1_0000_0000 <= sum_radii <= 0x1_0000_0000,
                        ;
                    }
                    let distance_squared: i128 = (dx as i128) * (dx as i128) + (dy as i128) * (dy
                        as i128);
                    let sum_radii_squared: i128 = (sum_radii as i128) * (sum_radii as i128);
                    if distance_squared < sum_radii_squared {
                        let rel_x: i64 = other.x_vel as i64 - vx;
                        let rel_y: i64 = other.y_vel as i64 - vy;
                        let tx: i128 = crate::circle::transfer_amount_wide(
                            rel_x,
                            other.mass,
                            me.mass,
                        );
                        let ty: i128 = crate::circle::transfer_amount_wide(
                            rel_y,
                            other.mass,
                            me.mass,
                        );
                        let new_vx: i128 = (vx as i128) + tx;
                        let new_vy: i128 = (vy as i128) + ty;
                        proof {
                            assert(collided_x_vel(m[i2 as int], m, i2 as int, k + 1) == vx
                                + velocity_transfer(
                                m[k as int].x_vel - vx,
                                m[k as int].mass as int,
                                m[i2 as int].mass as int,
                            ));
                            assert(collided_y_vel(m[i2 as int], m, i2 as int, k + 1) == vy
                                + velocity_transfer(
                                m[k as int].y_vel - vy,
                                m[k as int].mass as int,
                                m[i2 as int].mass as int,
                            ));
                        }
                        if new_vx < -(COORD_LIMIT as i128) || new_vx > (COORD_LIMIT as i128)
                            || new_vy < -(COORD_LIMIT as i128) || new_vy > (COORD_LIMIT as i128) {
                            proof {
                                assert(!collide_bounded(m[i2 as int], m, i2 as int));
                                assert(!step_collide_bounded(orig, wi, hi));
                            }
                            return false;
                        }
                        vx = new_vx as i64;
                        vy = new_vy as i64;
                    }
                }
                k = k + 1;
            }
            proof {
                assert(collide_bounded(m[i2 as int], m, i2 as int));
            }
            i2 = i2 + 1;
        }
        proof {
            assert(step_collide_bounded(orig, wi, hi));
        }
        true
    }

    /// A black background buffer for a `width` by `height` world.
    fn create_background(width: i32, height: i32) -> (result: Vec<u8>)
        requires
            0 < width <= PIXEL_LIMIT,
            0 < height <= PIXEL_LIMIT,
        ensures
            result@ == Seq::new((3 * width * height) as nat, |i: int| 0u8),
    {
        proof {
            assert(0 < width * height <= PIXEL_LIMIT * PIXEL_LIMIT) by (nonlinear_arith)
                requires
                    0 < width <= PIXEL_LIMIT,
                    0 < height <= PIXEL_LIMIT,
            ;
            assert(3 * (width * height) == 3 * width * height) by (nonlinear_arith);
        }
        let num_pix: usize = (width as usize) * (height as usize);
        let len: usize = 3 * num_pix;
        let mut data_array: Vec<u8> = Vec::new();
        let mut i: usize = 0;
        while i < len
            invariant
                i <= len,
                data_array@ == Seq::new(i as nat, |k: int| 0u8),
            decreases len - i,
        {
            data_array.push(0);
            proof {
                assert(data_array@ =~= Seq::new((i + 1) as nat, |k: int| 0u8));
            }
            i = i + 1;
        }
        data_array
    }
}

} // verus!
