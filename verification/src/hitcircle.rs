//! Hit circles as they stand in the world: their size, their lifetime in
//! ticks, the blocks they fill and how a click on them is judged.

use vstd::prelude::*;
use crate::beatmap::{BeatmapData, CircleSize};
use crate::color::{Color, Concrete};
use crate::digit::{DigitWriter, TextPosition};
use crate::hit_score::{HitScore, HitScoreNumber, SCORE_NUMBER_TICKS};
use crate::minecraft::{to_ticks, to_ticks_spec, BlockPos};
use crate::osu::Hitwindow;

verus! {

/// The radii of a hit circle and of its approach circle, in blocks.
#[derive(Clone, Copy, Debug, PartialEq, Eq, Structural)]
pub struct HitcircleRadius {
    pub circle: i64,
    pub approach_circle: i64,
}

/// The least whole number that is not below `n / d`, for a positive `d`.
pub open spec fn ceil_div(n: int, d: int) -> int {
    -((-n) / d)
}

/// The radius of a hit circle: `(54.4 - 4.48 * cs) * scale`, rounded up to a
/// whole number. `cs` and `scale` are in thousandths.
pub open spec fn circle_radius(cs: int, scale: int) -> int {
    ceil_div((5_440_000 - 448 * cs) * scale, 100_000_000)
}

impl HitcircleRadius {
    /// The radii for a circle size, drawn at `scale` (in thousandths: 1000 is
    /// the beatmap's own size). The approach circle starts at three times the
    /// circle's radius.
    pub open spec fn of(cs: CircleSize, scale: i32) -> HitcircleRadius {
        HitcircleRadius {
            circle: circle_radius(cs.0 as int, scale as int) as i64,
            approach_circle: (3 * circle_radius(cs.0 as int, scale as int)) as i64,
        }
    }

    /// The radii for a circle size, drawn at `scale`, in thousandths.
    pub fn from(cs: CircleSize, scale: i32) -> (radius: HitcircleRadius)
        ensures
            radius == HitcircleRadius::of(cs, scale),
            radius.circle as int == circle_radius(cs.0 as int, scale as int),
            radius.approach_circle as int == 3 * circle_radius(cs.0 as int, scale as int),
    {
        let unscaled: i128 = 5_440_000 - 448 * (cs.0 as i128);
        let factor: i128 = scale as i128;
        assert(-0x200_0000_0000 * 0x8000_0000 <= unscaled * factor <= 0x200_0000_0000
            * 0x8000_0000) by (nonlinear_arith)
            requires
                -0x200_0000_0000 <= unscaled <= 0x200_0000_0000,
                -0x8000_0000 <= factor <= 0x8000_0000,
        ;
        let scaled: i128 = unscaled * factor;
        let circle: i128 = if scaled > 0 {
            (scaled + 99_999_999) / 100_000_000
        } else {
            -((-scaled) / 100_000_000)
        };
        HitcircleRadius { circle: circle as i64, approach_circle: (circle * 3) as i64 }
    }
}

/// How far the world reaches from its centre along each axis, in blocks.
pub const WORLD_LIMIT: i32 = 30_000_000;

/// The timing windows of the three grades, in ticks.
#[derive(Clone, Copy, Debug, PartialEq, Eq, Structural)]
pub struct HitwindowTicks {
    pub window_300: usize,
    pub window_100: usize,
    pub window_50: usize,
}

/// The blocks that a hit circle is drawn with.
#[derive(Clone, Copy, Debug, PartialEq, Eq, Structural)]
pub struct HitcircleBlocks {
    pub approach_circle: Concrete,
    pub circle_ring: Concrete,
    pub filling: Concrete,
}

/// Why a hit circle could not be put into the world.
#[derive(Clone, Copy, Debug, PartialEq, Eq, Structural)]
pub enum ConstructionError {
    /// The circle has no extent: its radius is zero or negative.
    NonPositiveRadius,
    /// The circle does not fit within the coordinates of the world.
    OutOfWorld,
    /// The circle would have to stay for more ticks than can be counted.
    LifetimeOverflow,
}

/// An aim: where a player looks from and in which direction. The origin is in
/// thousandths of a block; the direction is a vector of any length, its
/// components no larger than [`Ray::MAX_DIRECTION`].
#[derive(Clone, Copy, Debug)]
pub struct Ray {
    origin: (i64, i64, i64),
    direction: (i64, i64, i64),
}

/// A hit circle that stands in the world and waits to be judged.
#[derive(Clone, Copy, Debug)]
pub struct Hitcircle {
    handle: usize,
    center: BlockPos,
    radius: i32,
    ticks: usize,
    preempt_ticks: usize,
    hitwindow: HitwindowTicks,
    blocks: HitcircleBlocks,
    combo_number: u32,
}

impl HitwindowTicks {
    /// The windows of `hitwindow` in ticks at `tps` ticks per second.
    pub open spec fn of(hitwindow: Hitwindow, tps: int) -> HitwindowTicks {
        HitwindowTicks {
            window_300: to_ticks_spec(tps, hitwindow.window_300 as int) as usize,
            window_100: to_ticks_spec(tps, hitwindow.window_100 as int) as usize,
            window_50: to_ticks_spec(tps, hitwindow.window_50 as int) as usize,
        }
    }

    /// The windows of `hitwindow` in ticks at `tps` ticks per second.
    pub fn from(hitwindow: &Hitwindow, tps: usize) -> (ticks: HitwindowTicks)
        ensures
            ticks == HitwindowTicks::of(*hitwindow, tps as int),
    {
        HitwindowTicks {
            window_300: to_ticks(tps, hitwindow.window_300),
            window_100: to_ticks(tps, hitwindow.window_100),
            window_50: to_ticks(tps, hitwindow.window_50),
        }
    }

    /// How far a click with `ticks_left` ticks of the circle's life left is
    /// from the perfect moment, which is when the widest window is left.
    pub open spec fn timing_error(self, ticks_left: int) -> int {
        if self.window_50 >= ticks_left {
            self.window_50 - ticks_left
        } else {
            ticks_left - self.window_50
        }
    }

    /// The grade of a click with `ticks_left` ticks left: that of the first
    /// window, best first, that is at least as wide as the timing error, and a
    /// miss where none is.
    pub open spec fn judged(self, ticks_left: int) -> HitScore {
        let error = self.timing_error(ticks_left);
        if error <= self.window_300 {
            HitScore::Hit300
        } else if error <= self.window_100 {
            HitScore::Hit100
        } else if error <= self.window_50 {
            HitScore::Hit50
        } else {
            HitScore::Miss
        }
    }

    /// The grade of a click on a circle that has `ticks_left` ticks left.
    pub fn hit_score(&self, ticks_left: usize) -> (score: HitScore)
        ensures
            score == self.judged(ticks_left as int),
    {
        let hit_time: usize = self.window_50;
        let error: usize = if hit_time >= ticks_left {
            hit_time - ticks_left
        } else {
            ticks_left - hit_time
        };
        if error <= self.window_300 {
            HitScore::Hit300
        } else if error <= self.window_100 {
            HitScore::Hit100
        } else if error <= self.window_50 {
            HitScore::Hit50
        } else {
            HitScore::Miss
        }
    }
}

impl From<Color> for HitcircleBlocks {
    fn from(color: Color) -> (blocks: HitcircleBlocks) {
        let block_color = color.to_block_color();
        HitcircleBlocks {
            approach_circle: block_color.item(),
            circle_ring: Concrete::White,
            filling: block_color.block(),
        }
    }
}

impl vstd::std_specs::convert::FromSpecImpl<Color> for HitcircleBlocks {
    open spec fn obeys_from_spec() -> bool {
        true
    }

    open spec fn from_spec(color: Color) -> HitcircleBlocks {
        HitcircleBlocks::of(color)
    }
}

impl HitcircleBlocks {
    /// The blocks for a circle of colour `color`: filling and approach circle
    /// in the nearest concrete, the ring in white.
    pub open spec fn of(color: Color) -> HitcircleBlocks {
        let nearest = color.nearest();
        HitcircleBlocks {
            approach_circle: nearest,
            circle_ring: Concrete::White,
            filling: nearest,
        }
    }
}

impl Ray {
    /// The largest distance of an origin from the world's centre, along each
    /// axis, in thousandths of a block.
    pub const MAX_ORIGIN: i64 = 0x10_0000_0000;

    /// The largest component of a direction.
    pub const MAX_DIRECTION: i64 = 0x10_0000;

    /// Where the player looks from, in thousandths of a block.
    pub closed spec fn origin(self) -> (int, int, int) {
        (self.origin.0 as int, self.origin.1 as int, self.origin.2 as int)
    }

    /// The direction in which the player looks.
    pub closed spec fn direction(self) -> (int, int, int) {
        (self.direction.0 as int, self.direction.1 as int, self.direction.2 as int)
    }

    /// Whether three components all lie within `limit` of zero.
    pub open spec fn within(v: (int, int, int), limit: int) -> bool {
        &&& -limit <= v.0 <= limit
        &&& -limit <= v.1 <= limit
        &&& -limit <= v.2 <= limit
    }

    /// Origin and direction are within their limits.
    #[verifier::type_invariant]
    pub closed spec fn wf(self) -> bool {
        &&& Ray::within(self.origin(), Ray::MAX_ORIGIN as int)
        &&& Ray::within(self.direction(), Ray::MAX_DIRECTION as int)
    }

    /// A ray from `origin` along `direction`, or `None` where one of them is
    /// beyond its limit.
    pub fn new(origin: (i64, i64, i64), direction: (i64, i64, i64)) -> (ray: Option<Ray>)
        ensures
            ray is Some <==> Ray::within(
                (origin.0 as int, origin.1 as int, origin.2 as int),
                Ray::MAX_ORIGIN as int,
            ) && Ray::within(
                (direction.0 as int, direction.1 as int, direction.2 as int),
                Ray::MAX_DIRECTION as int,
            ),
            ray matches Some(r) ==> r.origin() == (
                origin.0 as int,
                origin.1 as int,
                origin.2 as int,
            ) && r.direction() == (direction.0 as int, direction.1 as int, direction.2 as int),
    {
        if -Ray::MAX_ORIGIN <= origin.0 && origin.0 <= Ray::MAX_ORIGIN && -Ray::MAX_ORIGIN
            <= origin.1 && origin.1 <= Ray::MAX_ORIGIN && -Ray::MAX_ORIGIN <= origin.2
            && origin.2 <= Ray::MAX_ORIGIN && -Ray::MAX_DIRECTION <= direction.0 && direction.0
            <= Ray::MAX_DIRECTION && -Ray::MAX_DIRECTION <= direction.1 && direction.1
            <= Ray::MAX_DIRECTION && -Ray::MAX_DIRECTION <= direction.2 && direction.2
            <= Ray::MAX_DIRECTION {
            Some(Ray { origin, direction })
        } else {
            None
        }
    }

    /// Whether the ray meets the plane of depth `center.z` in front of its
    /// origin and no further than `radius` blocks from `center`.
    ///
    /// The ray reaches the plane after `t = n / dz` of its direction, where
    /// `n` is the depth still to go and `dz` the direction's depth component;
    /// it points at the plane where `t` is not negative. Where it meets the
    /// plane it is off the centre by `e + t * d` along each screen axis, `e`
    /// being the origin's offset from the centre. With everything multiplied
    /// by `dz`, no division is left.
    pub open spec fn meets(self, center: BlockPos, radius: int) -> bool {
        let (ox, oy, oz) = self.origin();
        let (dx, dy, dz) = self.direction();
        let n = center.z * 1000 - oz;
        let off_x = (ox - center.x * 1000) * dz + dx * n;
        let off_y = (oy - center.y * 1000) * dz + dy * n;
        let reach = radius * 1000 * dz;
        &&& dz != 0
        &&& n * dz >= 0
        &&& off_x * off_x + off_y * off_y <= reach * reach
    }
}

impl Ray {
    /// Where the ray reaches the plane of the circle after a whole number `t`
    /// of its direction, the aim is on the circle just where that point of
    /// the plane is no further than the radius from the circle's centre.
    pub proof fn lemma_aim_reaches(self, center: BlockPos, radius: int, t: int)
        requires
            t >= 0,
            self.direction().2 != 0,
            self.origin().2 + t * self.direction().2 == center.z * 1000,
        ensures
            self.meets(center, radius) <==> (self.origin().0 + t * self.direction().0 - center.x
                * 1000) * (self.origin().0 + t * self.direction().0 - center.x * 1000) + (
            self.origin().1 + t * self.direction().1 - center.y * 1000) * (self.origin().1 + t
                * self.direction().1 - center.y * 1000) <= (radius * 1000) * (radius * 1000),
    {
        let (ox, oy, oz) = self.origin();
        let (dx, dy, dz) = self.direction();
        let n = center.z * 1000 - oz;
        let ex = ox - center.x * 1000;
        let ey = oy - center.y * 1000;
        let px = ox + t * dx - center.x * 1000;
        let py = oy + t * dy - center.y * 1000;
        let reach = radius * 1000;
        let near = px * px + py * py;
        let far = reach * reach;
        let unit = dz * dz;
        assert(n == t * dz);
        assert(n * dz == t * unit && unit > 0 && t * unit >= 0) by (nonlinear_arith)
            requires
                n == t * dz,
                unit == dz * dz,
                dz != 0,
                t >= 0,
        ;
        let off_x = ex * dz + dx * n;
        let off_y = ey * dz + dy * n;
        assert(off_x == px * dz) by (nonlinear_arith)
            requires
                off_x == ex * dz + dx * n,
                n == t * dz,
                px == ex + t * dx,
        ;
        assert(off_y == py * dz) by (nonlinear_arith)
            requires
                off_y == ey * dz + dy * n,
                n == t * dz,
                py == ey + t * dy,
        ;
        assert(off_x * off_x == (px * px) * unit) by (nonlinear_arith)
            requires
                off_x == px * dz,
                unit == dz * dz,
        ;
        assert(off_y * off_y == (py * py) * unit) by (nonlinear_arith)
            requires
                off_y == py * dz,
                unit == dz * dz,
        ;
        assert(off_x * off_x + off_y * off_y == near * unit) by (nonlinear_arith)
            requires
                off_x * off_x == (px * px) * unit,
                off_y * off_y == (py * py) * unit,
                near == px * px + py * py,
        ;
        assert((reach * dz) * (reach * dz) == far * unit) by (nonlinear_arith)
            requires
                far == reach * reach,
                unit == dz * dz,
        ;
        assert((near * unit <= far * unit) <==> near <= far) by (nonlinear_arith)
            requires
                unit > 0,
        ;
    }
}

/// The square of a number no larger than 2^63, as it is computed.
fn square(v: i128) -> (sq: u128)
    requires
        -0x8000_0000_0000_0000 <= v <= 0x8000_0000_0000_0000,
    ensures
        sq as int == v * v,
        sq <= 0x4000_0000_0000_0000_0000_0000_0000_0000,
{
    let magnitude: u128 = if v < 0 {
        (-v) as u128
    } else {
        v as u128
    };
    assert(magnitude * magnitude <= 0x8000_0000_0000_0000 * 0x8000_0000_0000_0000 && magnitude
        * magnitude == v * v) by (nonlinear_arith)
        requires
            0 <= magnitude <= 0x8000_0000_0000_0000,
            magnitude == v || magnitude == -v,
    ;
    magnitude * magnitude
}

impl Hitcircle {
    /// The circle has an extent and lies within the world.
    #[verifier::type_invariant]
    pub closed spec fn wf(&self) -> bool {
        self.radius > 0 && Hitcircle::fits(self.center, self.radius as int)
    }

    /// The index of the hit object that the circle stands for.
    pub closed spec fn spec_handle(&self) -> usize {
        self.handle
    }

    /// The block at the centre of the circle.
    pub closed spec fn spec_center(&self) -> BlockPos {
        self.center
    }

    /// The radius of the circle, in blocks.
    pub closed spec fn spec_radius(&self) -> i32 {
        self.radius
    }

    /// The ticks that the circle has left before it expires.
    pub closed spec fn spec_ticks(&self) -> usize {
        self.ticks
    }

    /// The ticks from the circle's appearance to its perfect moment.
    pub closed spec fn spec_preempt_ticks(&self) -> usize {
        self.preempt_ticks
    }

    /// The hit windows of the circle, in ticks.
    pub closed spec fn spec_hitwindow(&self) -> HitwindowTicks {
        self.hitwindow
    }

    /// The blocks that the circle is drawn with.
    pub closed spec fn spec_blocks(&self) -> HitcircleBlocks {
        self.blocks
    }

    /// The number drawn on the circle.
    pub closed spec fn spec_combo_number(&self) -> u32 {
        self.combo_number
    }

    /// Whether a circle at `center` with radius `radius` fits the world: no
    /// block of it, of the row below it or of the layer behind it is further
    /// than [`WORLD_LIMIT`] from the world's centre.
    pub open spec fn fits(center: BlockPos, radius: int) -> bool {
        &&& -WORLD_LIMIT <= center.x - radius
        &&& center.x + radius <= WORLD_LIMIT
        &&& -WORLD_LIMIT <= center.y - radius - 1
        &&& center.y + radius <= WORLD_LIMIT
        &&& -WORLD_LIMIT <= center.z - 1
        &&& center.z <= WORLD_LIMIT
    }

    /// Why a circle with these measures cannot be made, if it cannot.
    pub open spec fn refusal(
        center: BlockPos,
        radius: int,
        window_50: int,
        preempt_ticks: int,
    ) -> Option<ConstructionError> {
        if radius <= 0 {
            Some(ConstructionError::NonPositiveRadius)
        } else if !Hitcircle::fits(center, radius) {
            Some(ConstructionError::OutOfWorld)
        } else if preempt_ticks + window_50 > usize::MAX {
            Some(ConstructionError::LifetimeOverflow)
        } else {
            None
        }
    }

    /// The circle that is made of these parts.
    pub closed spec fn assembled(
        handle: usize,
        center: BlockPos,
        radius: i32,
        ticks: usize,
        preempt_ticks: usize,
        hitwindow: HitwindowTicks,
        blocks: HitcircleBlocks,
        combo_number: u32,
    ) -> Hitcircle {
        Hitcircle { handle, center, radius, ticks, preempt_ticks, hitwindow, blocks, combo_number }
    }

    /// A circle is made of its parts, and of nothing else.
    pub broadcast proof fn lemma_assembled(
        handle: usize,
        center: BlockPos,
        radius: i32,
        ticks: usize,
        preempt_ticks: usize,
        hitwindow: HitwindowTicks,
        blocks: HitcircleBlocks,
        combo_number: u32,
    )
        ensures
            ({
                let circle = #[trigger] Hitcircle::assembled(
                    handle,
                    center,
                    radius,
                    ticks,
                    preempt_ticks,
                    hitwindow,
                    blocks,
                    combo_number,
                );
                &&& circle.handle() == handle
                &&& circle.center() == center
                &&& circle.radius() == radius
                &&& circle.ticks() == ticks
                &&& circle.preempt_ticks() == preempt_ticks
                &&& circle.hitwindow() == hitwindow
                &&& circle.blocks() == blocks
                &&& circle.combo_number() == combo_number
                &&& circle.wf() == (radius > 0 && Hitcircle::fits(center, radius as int))
            }),
    {
    }

    /// What [`Hitcircle::new`] returns: the circle of these parts, to stay for
    /// `preempt_ticks` ticks and the widest hit window after them, or why
    /// there can be no such circle.
    pub open spec fn new_spec(
        handle: usize,
        center: BlockPos,
        radius: HitcircleRadius,
        blocks: HitcircleBlocks,
        hitwindow: HitwindowTicks,
        preempt_ticks: usize,
        combo_number: u32,
    ) -> Result<Hitcircle, ConstructionError> {
        match Hitcircle::refusal(
            center,
            radius.circle as int,
            hitwindow.window_50 as int,
            preempt_ticks as int,
        ) {
            Some(error) => Err(error),
            None => Ok(
                Hitcircle::assembled(
                    handle,
                    center,
                    radius.circle as i32,
                    (preempt_ticks + hitwindow.window_50) as usize,
                    preempt_ticks,
                    hitwindow,
                    blocks,
                    combo_number,
                ),
            ),
        }
    }

    /// A hit circle for the hit object with index `handle`. It stays in the
    /// world for `preempt_ticks` ticks until its perfect moment and for the
    /// widest hit window after it.
    pub fn new(
        handle: usize,
        center: BlockPos,
        radius: HitcircleRadius,
        blocks: HitcircleBlocks,
        hitwindow: HitwindowTicks,
        preempt_ticks: usize,
        combo_number: u32,
    ) -> (made: Result<Hitcircle, ConstructionError>)
        ensures
            made == Hitcircle::new_spec(
                handle,
                center,
                radius,
                blocks,
                hitwindow,
                preempt_ticks,
                combo_number,
            ),
            made matches Ok(circle) ==> circle.wf(),
    {
        if radius.circle <= 0 {
            return Err(ConstructionError::NonPositiveRadius);
        }
        let r: i64 = radius.circle;
        let limit: i64 = WORLD_LIMIT as i64;
        if r > limit || (center.x as i64) - r < -limit || (center.x as i64) + r > limit || (
        center.y as i64) - r - 1 < -limit || (center.y as i64) + r > limit || (center.z as i64) - 1
            < -limit || (center.z as i64) > limit {
            return Err(ConstructionError::OutOfWorld);
        }
        match preempt_ticks.checked_add(hitwindow.window_50) {
            Some(ticks) => Ok(
                Hitcircle {
                    handle,
                    center,
                    radius: r as i32,
                    ticks,
                    preempt_ticks,
                    hitwindow,
                    blocks,
                    combo_number,
                },
            ),
            None => Err(ConstructionError::LifetimeOverflow),
        }
    }

    /// What [`Hitcircle::from_beatmap`] returns: the circle with the radius
    /// that the beatmap's circle size gives at `scale`, the hit windows of its
    /// overall difficulty and the lead time of its approach rate, both in
    /// ticks at `tps` ticks per second, and the blocks nearest to `color`.
    pub open spec fn from_beatmap_spec(
        handle: usize,
        center: BlockPos,
        beatmap: &BeatmapData,
        color: Color,
        scale: i32,
        combo_number: u32,
        tps: usize,
    ) -> Result<Hitcircle, ConstructionError> {
        Hitcircle::new_spec(
            handle,
            center,
            HitcircleRadius::of(beatmap.cs, scale),
            HitcircleBlocks::of(color),
            HitwindowTicks::of(Hitwindow::of(beatmap.od), tps as int),
            to_ticks_spec(tps as int, beatmap.ar.lookahead_micros() / 1000) as usize,
            combo_number,
        )
    }

    /// A hit circle for hit object `handle` of `beatmap`, with the size,
    /// windows and lead time that the beatmap's difficulty gives.
    pub fn from_beatmap(
        handle: usize,
        center: BlockPos,
        beatmap: &BeatmapData,
        color: Color,
        scale: i32,
        combo_number: u32,
        tps: usize,
    ) -> (made: Result<Hitcircle, ConstructionError>)
        ensures
            made == Hitcircle::from_beatmap_spec(
                handle,
                center,
                beatmap,
                color,
                scale,
                combo_number,
                tps,
            ),
            made matches Ok(circle) ==> circle.wf(),
    {
        let radius = HitcircleRadius::from(beatmap.cs, scale);
        let windows: Hitwindow = beatmap.od.into();
        let hitwindow = HitwindowTicks::from(&windows, tps);
        let preempt_ticks: usize = beatmap.ar.to_mc_ticks(tps);
        let blocks: HitcircleBlocks = color.into();
        Hitcircle::new(handle, center, radius, blocks, hitwindow, preempt_ticks, combo_number)
    }

    /// The index of the hit object that the circle stands for.
    #[verifier::when_used_as_spec(spec_handle)]
    pub fn handle(&self) -> (handle: usize)
        ensures
            handle == self.spec_handle(),
    {
        self.handle
    }

    /// The block at the centre of the circle.
    #[verifier::when_used_as_spec(spec_center)]
    pub fn center(&self) -> (center: BlockPos)
        ensures
            center == self.spec_center(),
    {
        self.center
    }

    /// The radius of the circle, in blocks.
    #[verifier::when_used_as_spec(spec_radius)]
    pub fn radius(&self) -> (radius: i32)
        ensures
            radius == self.spec_radius(),
    {
        self.radius
    }

    /// The ticks that the circle has left before it expires.
    #[verifier::when_used_as_spec(spec_ticks)]
    pub fn ticks(&self) -> (ticks: usize)
        ensures
            ticks == self.spec_ticks(),
    {
        self.ticks
    }

    /// The ticks from the circle's appearance to its perfect moment.
    #[verifier::when_used_as_spec(spec_preempt_ticks)]
    pub fn preempt_ticks(&self) -> (ticks: usize)
        ensures
            ticks == self.spec_preempt_ticks(),
    {
        self.preempt_ticks
    }

    /// The hit windows of the circle, in ticks.
    #[verifier::when_used_as_spec(spec_hitwindow)]
    pub fn hitwindow(&self) -> (hitwindow: HitwindowTicks)
        ensures
            hitwindow == self.spec_hitwindow(),
    {
        self.hitwindow
    }

    /// The blocks that the circle is drawn with.
    #[verifier::when_used_as_spec(spec_blocks)]
    pub fn blocks(&self) -> (blocks: HitcircleBlocks)
        ensures
            blocks == self.spec_blocks(),
    {
        self.blocks
    }

    /// The number drawn on the circle.
    #[verifier::when_used_as_spec(spec_combo_number)]
    pub fn combo_number(&self) -> (combo_number: u32)
        ensures
            combo_number == self.spec_combo_number(),
    {
        self.combo_number
    }

    /// The circle one tick later: with one tick less to live, unless it has
    /// none left.
    pub open spec fn aged(&self) -> Hitcircle {
        self.with_ticks(if self.ticks() > 0 { (self.ticks() - 1) as usize } else { 0 })
    }

    /// The same circle with `ticks` ticks left.
    pub closed spec fn with_ticks(&self, ticks: usize) -> Hitcircle {
        Hitcircle { ticks, ..*self }
    }

    /// Ages the circle by one tick.
    pub fn tick(&mut self)
        ensures
            *final(self) == old(self).aged(),
    {
        proof {
            use_type_invariant(&*self);
        }
        if self.ticks > 0 {
            self.ticks = self.ticks - 1;
        }
    }

    /// A circle one tick older has one tick less, unless it had none, and is
    /// the same in all else.
    pub proof fn lemma_aged(&self)
        ensures
            self.aged().ticks() == if self.ticks() > 0 {
                self.ticks() - 1
            } else {
                0
            },
            self.aged().handle() == self.handle(),
            self.aged().center() == self.center(),
            self.aged().radius() == self.radius(),
            self.aged().preempt_ticks() == self.preempt_ticks(),
            self.aged().hitwindow() == self.hitwindow(),
            self.aged().blocks() == self.blocks(),
            self.aged().combo_number() == self.combo_number(),
    {
    }

    /// Whether an aim along `ray` is on the circle.
    pub fn raycast(&self, ray: &Ray) -> (on: bool)
        ensures
            on == ray.meets(self.center(), self.radius() as int),
    {
        proof {
            use_type_invariant(ray);
        }
        let (ox, oy, oz) = (ray.origin.0 as i128, ray.origin.1 as i128, ray.origin.2 as i128);
        let (dx, dy, dz) = (
            ray.direction.0 as i128,
            ray.direction.1 as i128,
            ray.direction.2 as i128,
        );
        if dz == 0 {
            return false;
        }
        let n: i128 = (self.center.z as i128) * 1000 - oz;
        if (n < 0 && dz > 0) || (n > 0 && dz < 0) {
            // The plane lies behind the player.
            assert(n * dz < 0) by (nonlinear_arith)
                requires
                    (n < 0 && dz > 0) || (n > 0 && dz < 0),
            ;
            return false;
        }
        assert(n * dz >= 0) by (nonlinear_arith)
            requires
                (n >= 0 && dz > 0) || (n <= 0 && dz < 0),
        ;
        let ex: i128 = ox - (self.center.x as i128) * 1000;
        let ey: i128 = oy - (self.center.y as i128) * 1000;
        let reach_unit: i128 = (self.radius as i128) * 1000;
        let limit: i128 = 0x400_0000_0000;
        let small: i128 = 0x10_0000;
        assert(-limit * small <= ex * dz <= limit * small && -limit * small <= dx * n <= limit
            * small && -limit * small <= ey * dz <= limit * small && -limit * small <= dy * n
            <= limit * small && -limit * small <= reach_unit * dz <= limit * small)
            by (nonlinear_arith)
            requires
                -limit <= ex <= limit,
                -limit <= ey <= limit,
                -limit <= n <= limit,
                -limit <= reach_unit <= limit,
                -small <= dx <= small,
                -small <= dy <= small,
                -small <= dz <= small,
                limit == 0x400_0000_0000,
                small == 0x10_0000,
        ;
        let off_x: i128 = ex * dz + dx * n;
        let off_y: i128 = ey * dz + dy * n;
        let reach: i128 = reach_unit * dz;
        square(off_x) + square(off_y) <= square(reach)
    }

    /// The judgement of a click aimed along `ray`, if the aim is on the
    /// circle: the grade that the circle's hit windows give to the ticks it
    /// has left. A click that is not on the circle is no judgement.
    pub fn hit_score(&self, ray: &Ray) -> (score: Option<HitScore>)
        ensures
            score == self.judgement(ray.meets(self.center(), self.radius() as int)),
    {
        let on: bool = self.raycast(ray);
        self.judge(on)
    }

    /// The judgement of a click: none where the aim is off, else the grade by
    /// the ticks left.
    pub open spec fn judgement(&self, aim_on: bool) -> Option<HitScore> {
        if aim_on {
            Some(self.hitwindow().judged(self.ticks() as int))
        } else {
            None
        }
    }

    /// The judgement of a click whose aim was found to be on the circle, or
    /// not.
    pub fn judge(&self, aim_on: bool) -> (score: Option<HitScore>)
        ensures
            score == self.judgement(aim_on),
    {
        if aim_on {
            Some(self.hitwindow.hit_score(self.ticks))
        } else {
            None
        }
    }
}

/// Whether a block `dx` and `dy` off the centre belongs to a disc of radius
/// `radius`.
pub open spec fn in_disc(dx: int, dy: int, radius: int) -> bool {
    dx * dx + dy * dy <= radius * radius
}

/// The blocks of the square around a disc that lie in column `x`, from the
/// bottom up. A circle is drawn one block below its centre.
pub open spec fn square_column(center: BlockPos, radius: int, x: int) -> Seq<BlockPos> {
    Seq::new(
        (2 * radius + 1) as nat,
        |k: int| BlockPos { x: x as i32, y: (center.y - radius + k - 1) as i32, z: center.z },
    )
}

/// The blocks of a disc that lie in column `x`, from the bottom up.
pub open spec fn disc_column(center: BlockPos, radius: int, x: int) -> Seq<BlockPos> {
    square_column(center, radius, x).filter(
        |block: BlockPos| in_disc(center.x - block.x, center.y - (block.y + 1), radius),
    )
}

/// The blocks of a disc from column `x` on, column by column.
pub open spec fn disc_from(center: BlockPos, radius: int, x: int) -> Seq<BlockPos>
    decreases center.x + radius - x + 1,
{
    if x > center.x + radius {
        Seq::empty()
    } else {
        disc_column(center, radius, x) + disc_from(center, radius, x + 1)
    }
}

/// The blocks of the disc of radius `radius` around `center`.
pub open spec fn disc_blocks(center: BlockPos, radius: int) -> Seq<BlockPos> {
    disc_from(center, radius, center.x - radius)
}

/// The scale at which a number is written on a circle of radius `radius`:
/// the radius divided by 5.5, rounded down, and at least 1.
pub open spec fn combo_number_scale(radius: int) -> int {
    if 2 * radius / 11 >= 1 {
        2 * radius / 11
    } else {
        1
    }
}

impl Hitcircle {
    /// The blocks that the circle fills: those of the disc around its
    /// centre, column by column and from the bottom up.
    pub fn circle_block_positions(&self) -> (blocks: Vec<BlockPos>)
        ensures
            blocks@ == disc_blocks(self.center(), self.radius() as int),
    {
        proof {
            use_type_invariant(self);
        }
        let center = self.center;
        let cx: i64 = center.x as i64;
        let cy: i64 = center.y as i64;
        let radius: i64 = self.radius as i64;
        let ghost inside = |block: BlockPos|
            in_disc(center.x - block.x, center.y - (block.y + 1), radius as int);
        let mut blocks: Vec<BlockPos> = Vec::new();
        let mut x: i64 = cx - radius;
        assert(blocks@ + disc_from(center, radius as int, x as int) =~= disc_blocks(
            center,
            radius as int,
        ));
        while x <= cx + radius
            invariant
                cx == center.x,
                cy == center.y,
                0 < radius <= WORLD_LIMIT,
                Hitcircle::fits(center, radius as int),
                cx - radius <= x <= cx + radius + 1,
                inside == (|block: BlockPos|
                    in_disc(center.x - block.x, center.y - (block.y + 1), radius as int)),
                blocks@ + disc_from(center, radius as int, x as int) == disc_blocks(
                    center,
                    radius as int,
                ),
            decreases cx + radius + 1 - x,
        {
            let ghost before = blocks@;
            let ghost column = square_column(center, radius as int, x as int);
            let mut k: i64 = 0;
            proof {
                reveal(Seq::filter);
                assert(column.take(0) =~= Seq::<BlockPos>::empty());
            }
            assert(blocks@ =~= before + column.take(0).filter(inside));
            while k <= 2 * radius
                invariant
                    cx == center.x,
                    cy == center.y,
                    0 < radius <= WORLD_LIMIT,
                    Hitcircle::fits(center, radius as int),
                    cx - radius <= x <= cx + radius,
                    0 <= k <= 2 * radius + 1,
                    column == square_column(center, radius as int, x as int),
                    inside == (|block: BlockPos|
                        in_disc(center.x - block.x, center.y - (block.y + 1), radius as int)),
                    blocks@ == before + column.take(k as int).filter(inside),
                decreases 2 * radius + 1 - k,
            {
                let y: i64 = cy - radius + k;
                let rel_x: i64 = cx - x;
                let rel_y: i64 = cy - y;
                assert(rel_x * rel_x <= WORLD_LIMIT * WORLD_LIMIT && rel_y * rel_y <= WORLD_LIMIT
                    * WORLD_LIMIT && radius * radius <= WORLD_LIMIT * WORLD_LIMIT && rel_x * rel_x
                    >= 0 && rel_y * rel_y >= 0) by (nonlinear_arith)
                    requires
                        -radius <= rel_x <= radius,
                        -radius <= rel_y <= radius,
                        0 < radius <= WORLD_LIMIT,
                ;
                let block = BlockPos { x: x as i32, y: (y - 1) as i32, z: center.z };
                proof {
                    reveal(Seq::filter);
                    assert(column.take(k + 1).drop_last() =~= column.take(k as int));
                    assert(column.take(k + 1).last() == block);
                }
                if rel_x * rel_x + rel_y * rel_y <= radius * radius {
                    blocks.push(block);
                }
                assert(blocks@ =~= before + column.take(k + 1).filter(inside));
                k += 1;
            }
            assert(column.take(k as int) =~= column);
            assert(blocks@ + disc_from(center, radius as int, x + 1) =~= before + disc_from(
                center,
                radius as int,
                x as int,
            ));
            x += 1;
        }
        assert(blocks@ =~= disc_blocks(center, radius as int));
        blocks
    }

    /// The writer of the number on the circle.
    pub open spec fn combo_number_writer(&self) -> DigitWriter {
        DigitWriter {
            scale: combo_number_scale(self.radius() as int) as usize,
            position: TextPosition::Center,
        }
    }

    /// The blocks that write the circle's number on it, digit by digit.
    pub fn combo_number_positions(&self) -> (blocks: Vec<Vec<BlockPos>>)
        ensures
            self.combo_number_writer().writes(
                self.combo_number() as nat,
                self.center(),
                blocks@,
            ),
    {
        proof {
            use_type_invariant(self);
        }
        let fitted: usize = (2 * (self.radius as i64) / 11) as usize;
        let scale: usize = if fitted >= 1 {
            fitted
        } else {
            1
        };
        let writer = DigitWriter { scale, position: TextPosition::Center };
        writer.iter_block_positions(self.combo_number as usize, self.center)
    }

    /// The number that shows a judgement of the circle: it stands one layer
    /// behind the circle's centre.
    pub fn score_number(&self, hit: HitScore) -> (number: HitScoreNumber)
        ensures
            number.score() == hit,
            number.origin() == (BlockPos {
                x: self.center().x,
                y: self.center().y,
                z: (self.center().z - 1) as i32,
            }),
            number.ticks() == SCORE_NUMBER_TICKS,
    {
        proof {
            use_type_invariant(self);
        }
        HitScoreNumber::new(
            hit,
            BlockPos { x: self.center.x, y: self.center.y, z: self.center.z - 1 },
            SCORE_NUMBER_TICKS,
        )
    }
}

} // verus!
