//! Difficulty settings of a beatmap and what follows from them: timing
//! windows, approach durations, health drain and the score of an attempt.
//!
//! Difficulty values are decimal numbers. They are held exactly, as a whole
//! number of thousandths: an approach rate of 9.3 is `ApproachRate(9300)`.
//! Health is a fraction of one, held as a whole number of hundred-thousandths,
//! so that every drain step is exact.

pub mod scheduler;

use vstd::prelude::*;
use vstd::string::StringExecFns;
use vstd::utf8::encode_utf8;
use std::collections::VecDeque;
use crate::hit_object::{
    given_colours, is_object_at, is_palette, unreadable, ComboColour, DecodedHitObject, HitObject,
};
use crate::number::{parse_thousandths, parsed_thousandths, parsed_u32};
use crate::color::Color;
use crate::hit_score::HitScore;
use crate::hitcircle::{circle_radius, Hitcircle, HitcircleRadius};
use crate::minecraft::{to_ticks, to_ticks_spec};

verus! {

/// Full health, in hundred-thousandths.
pub const FULL_HEALTH: u32 = 100_000;

/// The most hit objects that a beatmap can hold.
pub const MAX_OBJECTS: usize = 0x7FFF_FFFF;

/// The most that one judgement can add to the score: a 300 at the longest
/// combo and the largest difficulty multiplier there can be.
pub const MAX_SCORE_STEP: u128 = 300 + 12 * 0x4000_0000_0000_0000;

/// Overall difficulty (OD), in thousandths.
#[derive(Copy, Clone, Debug)]
pub struct OverallDifficulty(pub i32);

/// Approach rate (AR), in thousandths.
#[derive(Copy, Clone, Debug)]
pub struct ApproachRate(pub i32);

/// HP drain rate (HP), in thousandths.
#[derive(Copy, Clone, Debug)]
pub struct HpDrainRate(pub i32);

/// Circle size (CS), in thousandths.
#[derive(Copy, Clone, Debug)]
pub struct CircleSize(pub i32);

/// The grade of a finished attempt, best first.
#[derive(Copy, Clone, Debug, PartialEq, Eq, Structural)]
pub enum Grade {
    SS,
    S,
    A,
    B,
    C,
    D,
}

/// What a beatmap is made of: its difficulty settings, its hit objects in time
/// order, and what names it.
#[derive(Clone, Debug)]
pub struct BeatmapData {
    pub od: OverallDifficulty,
    pub ar: ApproachRate,
    pub cs: CircleSize,
    pub hp: HpDrainRate,
    pub hit_objects: Vec<HitObject>,
    pub audio_path: String,
    pub artist: String,
    pub title: String,
    pub difficulty_name: String,
}

/// A beatmap as its file gives it: the difficulty settings as they are
/// written, the names, the hit objects and the combo colours. What the file
/// does not give is `None`.
#[derive(Clone, Debug)]
pub struct DecodedBeatmap {
    /// Whether the file has a metadata section.
    pub has_metadata: bool,
    /// Whether the file has a difficulty section.
    pub has_difficulty: bool,
    pub overall_difficulty: Option<String>,
    pub circle_size: Option<String>,
    pub approach_rate: Option<String>,
    pub hp_drain_rate: Option<String>,
    pub title: Option<String>,
    pub version: Option<String>,
    pub artist: Option<String>,
    pub hit_objects: Vec<DecodedHitObject>,
    pub colours: Option<Vec<ComboColour>>,
}

/// A beatmap that is being played, or is about to be: what it is made of, the
/// depth of each of its hit objects, and the totals of the attempt.
#[derive(Clone, Debug)]
pub struct Beatmap {
    pub(crate) data: BeatmapData,
    pub(crate) state: BeatmapState,
    pub(crate) depths: Vec<i32>,
}

/// How an attempt went, for the players to read.
#[derive(Clone, Debug)]
pub struct ScoreText {
    pub title: String,
    pub artist: String,
    pub difficulty_name: String,
    pub score: u128,
    pub grade: Grade,
    pub hits300: usize,
    pub hits100: usize,
    pub hits50: usize,
    pub misses: usize,
    pub max_combo: usize,
    /// Accuracy in hundredths of a percent, rounded to the nearest.
    pub accuracy: u32,
}

/// Why a beatmap cannot be played.
#[derive(Clone, Copy, Debug, PartialEq, Eq, Structural)]
pub enum InvalidBeatmap {
    /// The beatmap names no audio file, or one that is not there.
    MissingAudio,
    /// The beatmap does not give its overall difficulty.
    MissingOverallDifficulty,
    /// The beatmap does not give its circle size.
    MissingCircleSize,
    /// The beatmap does not give its approach rate.
    MissingApproachRate,
    /// The beatmap does not give its HP drain rate.
    MissingHpDrainRate,
    /// A number of the beatmap is not written as one, or is too large.
    MalformedNumber,
    /// A hit object is to be hit before the one that it follows.
    NotTimeOrdered,
    /// The beatmap holds more than [`MAX_OBJECTS`] hit objects.
    TooManyObjects,
}

/// The running totals of one attempt at a beatmap.
#[derive(Clone, Debug)]
pub struct BeatmapState {
    /// Playback position at the last tick, in microseconds.
    pub play_time: u64,
    pub hits300: usize,
    pub hits100: usize,
    pub hits50: usize,
    pub misses: usize,
    /// The hit circles that are in the world and not yet judged, oldest first.
    pub active_hit_objects: VecDeque<Hitcircle>,
    /// The index of the next hit object to spawn.
    pub next_hit_object_idx: usize,
    pub score: u128,
    pub combo: usize,
    pub max_combo: usize,
    /// Health, in hundred-thousandths of full health.
    pub health: u32,
}

/// The running totals of an attempt as plain numbers, with the waiting hit
/// circles as a sequence, oldest first.
pub struct BeatmapStateView {
    pub play_time: nat,
    pub hits300: nat,
    pub hits100: nat,
    pub hits50: nat,
    pub misses: nat,
    pub active: Seq<Hitcircle>,
    pub next: nat,
    pub score: nat,
    pub combo: nat,
    pub max_combo: nat,
    pub health: nat,
}

/// What a combo multiplies the score by: one less than the combo before the
/// hit, and nothing for the first hit of a combo.
pub open spec fn combo_multiplier(combo: int) -> int {
    if combo >= 1 {
        combo - 1
    } else {
        0
    }
}

/// What a judgement adds to the score:
/// `value * (1 + combo_multiplier * difficulty_multiplier / 25)`. Every value
/// is a multiple of 25, so the product is a whole number. A negative
/// difficulty multiplier never takes score away.
pub open spec fn score_increment(hit: HitScore, combo: int, difficulty_multiplier: int) -> int {
    let exact = hit.value_spec() + hit.value_spec() / 25 * combo_multiplier(combo)
        * difficulty_multiplier;
    if exact < 0 {
        0
    } else {
        exact
    }
}

/// `n / d` rounded to the nearest whole number, halves away from zero, for a
/// positive `d`.
pub open spec fn round_half_away(n: int, d: int) -> int {
    if n >= 0 {
        (2 * n + d) / (2 * d)
    } else {
        -((-2 * n + d) / (2 * d))
    }
}

/// The difficulty multiplier of a beatmap:
/// `(hp + cs + od + min(objects / drain_seconds * 8, 16)) / 38 * 5`, rounded,
/// halves away from zero. The three settings are in thousandths and the drain
/// time is in milliseconds, of which a thousand make a second; with both
/// taken to the numerator, this is
/// `5 * (settings * millis + 1000 * min(8000 * objects, 16 * millis))` over
/// `38000 * millis`. A beatmap without objects has multiplier 0; one whose
/// objects are all to be hit at the same time has the density term at its cap
/// of 16.
pub open spec fn difficulty_multiplier_of(
    hp: int,
    cs: int,
    od: int,
    objects: int,
    drain_millis: int,
) -> int {
    if objects <= 0 {
        0
    } else if drain_millis <= 0 {
        round_half_away(5 * (hp + cs + od + 16_000), 38_000)
    } else {
        let density = if 8000 * objects <= 16 * drain_millis {
            8000 * objects
        } else {
            16 * drain_millis
        };
        round_half_away(
            5 * ((hp + cs + od) * drain_millis + 1000 * density),
            38_000 * drain_millis,
        )
    }
}

/// Settings that are not negative give a multiplier that is not negative.
pub proof fn lemma_difficulty_multiplier_not_negative(
    hp: int,
    cs: int,
    od: int,
    objects: int,
    drain_millis: int,
)
    requires
        hp >= 0,
        cs >= 0,
        od >= 0,
    ensures
        difficulty_multiplier_of(hp, cs, od, objects, drain_millis) >= 0,
{
    if objects > 0 && drain_millis > 0 {
        let settings = hp + cs + od;
        let density = if 8000 * objects <= 16 * drain_millis {
            8000 * objects
        } else {
            16 * drain_millis
        };
        let n = 5 * (settings * drain_millis + 1000 * density);
        let d = 38_000 * drain_millis;
        assert(settings * drain_millis >= 0) by (nonlinear_arith)
            requires
                settings >= 0,
                drain_millis > 0,
        ;
        assert((2 * n + d) / (2 * d) >= 0) by (nonlinear_arith)
            requires
                n >= 0,
                d > 0,
        ;
    }
}

/// `thousandths / 1000` rounded down to a whole number, and to zero where it is
/// negative: a duration in milliseconds is never negative.
pub open spec fn whole_millis(thousandths: int) -> int {
    if thousandths < 0 {
        0
    } else {
        thousandths / 1000
    }
}

/// Executable form of [`whole_millis`].
pub fn whole_millis_of(thousandths: i64) -> (ms: u64)
    ensures
        ms as int == whole_millis(thousandths as int),
{
    if thousandths < 0 {
        0
    } else {
        (thousandths / 1000) as u64
    }
}

/// Time before an object's hit time at which it starts to appear, in
/// thousandths of a millisecond: `1200 + 600 * (5 - ar) / 5` below an approach
/// rate of 5, `1200` at 5, `1200 - 750 * (ar - 5) / 5` above.
pub open spec fn preempt_thousandths(ar: int) -> int {
    if ar < 5000 {
        1_200_000 + 120 * (5000 - ar)
    } else if ar == 5000 {
        1_200_000
    } else {
        1_200_000 - 150 * (ar - 5000)
    }
}

/// Time an object takes to fade in, in thousandths of a millisecond:
/// `800 + 400 * (5 - ar) / 5` below an approach rate of 5, `800` at 5,
/// `800 - 500 * (ar - 5) / 5` above.
pub open spec fn fade_in_thousandths(ar: int) -> int {
    if ar < 5000 {
        800_000 + 80 * (5000 - ar)
    } else if ar == 5000 {
        800_000
    } else {
        800_000 - 100 * (ar - 5000)
    }
}

impl ApproachRate {
    /// The preempt duration in whole milliseconds.
    pub open spec fn preempt_millis(self) -> int {
        whole_millis(preempt_thousandths(self.0 as int))
    }

    /// The fade-in duration in whole milliseconds.
    pub open spec fn fade_in_millis(self) -> int {
        whole_millis(fade_in_thousandths(self.0 as int))
    }

    /// The spawn lead time in microseconds: the midpoint of the preempt and
    /// fade-in durations.
    pub open spec fn lookahead_micros(self) -> int {
        (self.preempt_millis() + self.fade_in_millis()) * 500
    }

    /// The preempt duration, in milliseconds.
    pub fn to_preempt_duration(self) -> (ms: u64)
        ensures
            ms as int == self.preempt_millis(),
    {
        let ar: i64 = self.0 as i64;
        let thousandths: i64 = if ar < 5000 {
            1_200_000 + 120 * (5000 - ar)
        } else if ar == 5000 {
            1_200_000
        } else {
            1_200_000 - 150 * (ar - 5000)
        };
        whole_millis_of(thousandths)
    }

    /// The fade-in duration, in milliseconds.
    pub fn to_fade_in_duration(self) -> (ms: u64)
        ensures
            ms as int == self.fade_in_millis(),
    {
        let ar: i64 = self.0 as i64;
        let thousandths: i64 = if ar < 5000 {
            800_000 + 80 * (5000 - ar)
        } else if ar == 5000 {
            800_000
        } else {
            800_000 - 100 * (ar - 5000)
        };
        whole_millis_of(thousandths)
    }

    /// How long before its hit time an object is spawned, in microseconds.
    /// Blocks cannot fade in, so the lead is taken halfway between the preempt
    /// and the fade-in duration.
    pub fn to_mc_duration(self) -> (micros: u64)
        ensures
            micros as int == self.lookahead_micros(),
    {
        (self.to_preempt_duration() + self.to_fade_in_duration()) * 500
    }

    /// The spawn lead time in ticks at `tps` ticks per second, counted from
    /// its whole milliseconds.
    pub fn to_mc_ticks(self, tps: usize) -> (ticks: usize)
        ensures
            ticks as int == to_ticks_spec(tps as int, self.lookahead_micros() / 1000),
    {
        to_ticks(tps, self.to_mc_duration() / 1000)
    }
}

impl HpDrainRate {
    /// The change of health that a judgement brings, in hundred-thousandths:
    /// `(10.2 - hp) / 100` for a 300, `(8 - hp) / 100` for a 100,
    /// `(4 - hp) / 100` for a 50 and `-2 * hp / 100` for a miss.
    pub open spec fn delta(self, hit: HitScore) -> int {
        match hit {
            HitScore::Hit300 => 10_200 - self.0,
            HitScore::Hit100 => 8_000 - self.0,
            HitScore::Hit50 => 4_000 - self.0,
            HitScore::Miss => -2 * self.0,
        }
    }

    /// Health after a judgement: the old health plus [`Self::delta`], held to
    /// the range from empty to full.
    pub open spec fn drained(self, health: int, hit: HitScore) -> int {
        let moved = health + self.delta(hit);
        if moved < 0 {
            0
        } else if moved > FULL_HEALTH as int {
            FULL_HEALTH as int
        } else {
            moved
        }
    }

    /// Applies the health change of one judgement to `health`, both in
    /// hundred-thousandths.
    pub fn drain(&self, health: u32, hit: HitScore) -> (after: u32)
        ensures
            after as int == self.drained(health as int, hit),
            after <= FULL_HEALTH,
    {
        let rate: i64 = self.0 as i64;
        let delta: i64 = match hit {
            HitScore::Hit300 => 10_200 - rate,
            HitScore::Hit100 => 8_000 - rate,
            HitScore::Hit50 => 4_000 - rate,
            HitScore::Miss => 0 - 2 * rate,
        };
        let moved: i64 = health as i64 + delta;
        if moved < 0 {
            0
        } else if moved > FULL_HEALTH as i64 {
            FULL_HEALTH
        } else {
            moved as u32
        }
    }
}

impl BeatmapData {
    /// The hit objects are in time order.
    pub open spec fn wf(&self) -> bool {
        forall|i: int, j: int|
            0 <= i <= j < self.hit_objects@.len() ==> self.hit_objects@[i].time()
                <= self.hit_objects@[j].time()
    }

    /// What keeps these hit objects from being played, if anything does.
    pub open spec fn defect(&self) -> Option<InvalidBeatmap> {
        if self.hit_objects@.len() > MAX_OBJECTS {
            Some(InvalidBeatmap::TooManyObjects)
        } else if !self.wf() {
            Some(InvalidBeatmap::NotTimeOrdered)
        } else {
            None
        }
    }

    /// The radius of the beatmap's circles at its own scale.
    pub open spec fn own_radius(&self) -> int {
        circle_radius(self.cs.0 as int, 1000)
    }

    /// The depth of hit object `i`: that of its circle among the circles that
    /// follow it.
    pub open spec fn depth_of(&self, i: int) -> int {
        self.hit_objects@[i].depth(self.hit_objects@.skip(i + 1), self.own_radius())
    }

    /// Whether the hit objects are in time order.
    pub fn is_time_ordered(&self) -> (ordered: bool)
        ensures
            ordered == self.wf(),
    {
        let n: usize = self.hit_objects.len();
        let mut i: usize = 1;
        while i < n
            invariant
                n == self.hit_objects@.len(),
                1 <= i,
                forall|a: int, b: int|
                    0 <= a <= b < i && b < n ==> self.hit_objects@[a].time()
                        <= self.hit_objects@[b].time(),
            decreases n - i,
        {
            if self.hit_objects[i - 1].time() > self.hit_objects[i].time() {
                return false;
            }
            assert forall|a: int, b: int| 0 <= a <= b < i + 1 && b < n implies self.hit_objects@[a].time()
                <= self.hit_objects@[b].time() by {
                if b == i && a < i {
                    assert(self.hit_objects@[a].time() <= self.hit_objects@[i - 1].time());
                }
            }
            i += 1;
        }
        true
    }

    /// The depth of every hit object, found from the last one backward.
    pub fn depths(&self) -> (depths: Vec<i32>)
        requires
            self.hit_objects@.len() <= MAX_OBJECTS,
        ensures
            depths@.len() == self.hit_objects@.len(),
            forall|i: int|
                0 <= i < depths@.len() ==> (#[trigger] depths@[i]) as int == self.depth_of(i),
            forall|i: int|
                0 <= i < depths@.len() ==> i - depths@.len() < (#[trigger] depths@[i]) <= 0,
    {
        let n: usize = self.hit_objects.len();
        let radius: i64 = HitcircleRadius::from(self.cs, 1000).circle;
        let mut depths: Vec<i32> = Vec::new();
        let mut filled: usize = 0;
        while filled < n
            invariant
                filled <= n,
                depths@.len() == filled,
            decreases n - filled,
        {
            depths.push(0);
            filled += 1;
        }
        let mut i: usize = n;
        while i > 0
            invariant
                i <= n,
                n == self.hit_objects@.len(),
                n <= MAX_OBJECTS,
                depths@.len() == n,
                radius as int == self.own_radius(),
                forall|j: int| i <= j < n ==> (#[trigger] depths@[j]) as int == self.depth_of(j),
                forall|j: int| i <= j < n ==> j - n < (#[trigger] depths@[j]) <= 0,
            decreases i,
        {
            i -= 1;
            let object = &self.hit_objects[i];
            let ghost rest = self.hit_objects@.skip(i + 1);
            proof {
                object.lemma_depth_bounds(rest, radius as int);
            }
            let depth: i32 = match object.first_overlapping(
                self.hit_objects.as_slice(),
                i + 1,
                radius,
            ) {
                Some(k) => {
                    let next: usize = i + 1 + k;
                    assert(rest[k as int] == self.hit_objects@[next as int]);
                    assert(rest.skip(k + 1) =~= self.hit_objects@.skip(next + 1));
                    depths[next] - 1
                },
                None => 0,
            };
            depths.set(i, depth);
        }
        depths
    }

    /// The time from the first hit object to the last, in milliseconds; breaks
    /// are not taken out.
    pub open spec fn drain_millis(&self) -> int {
        if self.hit_objects@.len() == 0 {
            0
        } else {
            self.hit_objects@.last().time() - self.hit_objects@.first().time()
        }
    }

    /// The difficulty multiplier of the beatmap; see
    /// [`difficulty_multiplier_of`].
    pub open spec fn difficulty_multiplier_spec(&self) -> int {
        difficulty_multiplier_of(
            self.hp.0 as int,
            self.cs.0 as int,
            self.od.0 as int,
            self.hit_objects@.len() as int,
            self.drain_millis(),
        )
    }

    /// Drain time without breaks, in milliseconds.
    pub fn drain_time(&self) -> (millis: u64)
        requires
            self.wf(),
        ensures
            millis as int == self.drain_millis(),
            millis <= u32::MAX,
    {
        let n: usize = self.hit_objects.len();
        if n == 0 {
            0
        } else {
            (self.hit_objects[n - 1].time() - self.hit_objects[0].time()) as u64
        }
    }

    /// The multiplier by which combos raise the score of this beatmap.
    pub fn difficulty_multiplier(&self) -> (multiplier: i32)
        requires
            self.wf(),
        ensures
            multiplier as int == self.difficulty_multiplier_spec(),
            self.hp.0 >= 0 && self.cs.0 >= 0 && self.od.0 >= 0 ==> multiplier >= 0,
    {
        proof {
            if self.hp.0 >= 0 && self.cs.0 >= 0 && self.od.0 >= 0 {
                lemma_difficulty_multiplier_not_negative(
                    self.hp.0 as int,
                    self.cs.0 as int,
                    self.od.0 as int,
                    self.hit_objects@.len() as int,
                    self.drain_millis(),
                );
            }
        }
        let objects: usize = self.hit_objects.len();
        if objects == 0 {
            return 0;
        }
        let settings: i128 = self.hp.0 as i128 + self.cs.0 as i128 + self.od.0 as i128;
        let millis: i128 = self.drain_time() as i128;
        if millis == 0 {
            return round_half_away_exec(5 * (settings + 16_000), 38_000, 900_000) as i32;
        }
        let density: i128 = if 500 * (objects as i128) <= millis {
            8000 * (objects as i128)
        } else {
            16 * millis
        };
        assert(-6_442_450_944 * millis <= settings * millis <= 6_442_450_944 * millis)
            by (nonlinear_arith)
            requires
                -6_442_450_944 <= settings <= 6_442_450_944,
                0 < millis,
        ;
        let n: i128 = 5 * (settings * millis + 1000 * density);
        let d: i128 = 38_000 * millis;
        assert(-900_000 * d <= n <= 900_000 * d);
        round_half_away_exec(n, d, 900_000) as i32
    }
}

/// Executable form of [`round_half_away`], for a quotient known to lie within
/// `bound` of zero.
fn round_half_away_exec(n: i128, d: i128, bound: i128) -> (rounded: i128)
    requires
        0 < d <= 0x1_0000_0000_0000,
        0 <= bound <= 0x1_0000_0000,
        -bound * d <= n <= bound * d,
    ensures
        rounded as int == round_half_away(n as int, d as int),
        -bound - 1 <= rounded <= bound + 1,
{
    assert(bound * d <= 0x1_0000_0000 * 0x1_0000_0000_0000 && -bound * d == -(bound * d))
        by (nonlinear_arith)
        requires
            0 < d <= 0x1_0000_0000_0000,
            0 <= bound <= 0x1_0000_0000,
    ;
    if n >= 0 {
        let rounded: i128 = (2 * n + d) / (2 * d);
        assert(rounded <= bound + 1) by (nonlinear_arith)
            requires
                rounded == (2 * n + d) / (2 * d),
                0 <= n <= bound * d,
                0 < d,
        ;
        assert(rounded >= 0) by (nonlinear_arith)
            requires
                rounded == (2 * n + d) / (2 * d),
                0 <= n,
                0 < d,
        ;
        rounded
    } else {
        let magnitude: i128 = (d - 2 * n) / (2 * d);
        assert(magnitude <= bound + 1) by (nonlinear_arith)
            requires
                magnitude == (d - 2 * n) / (2 * d),
                -bound * d <= n < 0,
                0 < d,
        ;
        assert(magnitude >= 0) by (nonlinear_arith)
            requires
                magnitude == (d - 2 * n) / (2 * d),
                n < 0,
                0 < d,
        ;
        -magnitude
    }
}

impl Default for BeatmapState {
    fn default() -> (state: BeatmapState)
        ensures
            state.is_fresh(),
    {
        BeatmapState {
            health: FULL_HEALTH,
            play_time: 0,
            hits300: 0,
            hits100: 0,
            hits50: 0,
            misses: 0,
            active_hit_objects: VecDeque::new(),
            next_hit_object_idx: 0,
            score: 0,
            combo: 0,
            max_combo: 0,
        }
    }
}

impl View for BeatmapState {
    type V = BeatmapStateView;

    open spec fn view(&self) -> BeatmapStateView {
        BeatmapStateView {
            play_time: self.play_time as nat,
            hits300: self.hits300 as nat,
            hits100: self.hits100 as nat,
            hits50: self.hits50 as nat,
            misses: self.misses as nat,
            active: self.active_hit_objects@,
            next: self.next_hit_object_idx as nat,
            score: self.score as nat,
            combo: self.combo as nat,
            max_combo: self.max_combo as nat,
            health: self.health as nat,
        }
    }
}

impl BeatmapStateView {
    /// The totals at the start of an attempt.
    pub open spec fn fresh() -> BeatmapStateView {
        BeatmapStateView {
            play_time: 0,
            hits300: 0,
            hits100: 0,
            hits50: 0,
            misses: 0,
            active: Seq::empty(),
            next: 0,
            score: 0,
            combo: 0,
            max_combo: 0,
            health: FULL_HEALTH as nat,
        }
    }

    /// The number of hit objects judged so far.
    pub open spec fn judged(self) -> nat {
        self.hits300 + self.hits100 + self.hits50 + self.misses
    }

    /// The base score of all judgements so far.
    pub open spec fn points(self) -> nat {
        300 * self.hits300 + 100 * self.hits100 + 50 * self.hits50
    }

    /// Accuracy in thousandths of a percent, rounded down: the base score
    /// earned out of the base score of as many 300s. Zero before the first
    /// judgement.
    pub open spec fn accuracy(self) -> nat {
        if self.judged() == 0 {
            0
        } else {
            self.points() * 100_000 / (300 * self.judged())
        }
    }

    /// The grade of the attempt. With `p300` and `p50` the shares of 300s and
    /// of 50s among all judgements, the first of these that holds decides:
    /// accuracy of at least 99.999 % is SS; no miss, `p300 > 0.9` and
    /// `p50 <= 0.01` is S; `p300 > 0.8` without a miss, or `p300 > 0.9`, is A;
    /// `p300 > 0.7` without a miss, or `p300 > 0.8`, is B; `p300 > 0.6` is C;
    /// anything else is D.
    pub open spec fn grade(self) -> Grade {
        let total = self.judged();
        let best = self.hits300;
        if self.accuracy() >= 99_999 {
            Grade::SS
        } else if self.misses == 0 && 10 * best > 9 * total && 100 * self.hits50 <= total {
            Grade::S
        } else if (10 * best > 8 * total && self.misses == 0) || 10 * best > 9 * total {
            Grade::A
        } else if (10 * best > 7 * total && self.misses == 0) || 10 * best > 8 * total {
            Grade::B
        } else if 10 * best > 6 * total {
            Grade::C
        } else {
            Grade::D
        }
    }

    /// Accuracy in hundredths of a percent, rounded to the nearest, halves up.
    pub open spec fn accuracy_hundredths(self) -> nat {
        if self.judged() == 0 {
            0
        } else {
            ((2 * self.points() * 10_000 + 300 * self.judged()) / (600 * self.judged())) as nat
        }
    }

    /// The totals are within their limits: health is at most full, the combo
    /// is no longer than the longest combo, which is no longer than the run
    /// of judgements, and the score is what that many judgements can earn.
    pub open spec fn wf(self) -> bool {
        &&& self.health <= FULL_HEALTH
        &&& self.combo <= self.max_combo <= self.judged() <= MAX_OBJECTS
        &&& self.score <= self.judged() * MAX_SCORE_STEP
    }

    /// The totals after one more judgement. The judgement is counted and
    /// scored; a hit lengthens the combo and a miss ends it; health moves by
    /// the judgement's drain.
    pub open spec fn scored(
        self,
        hp: HpDrainRate,
        hit: HitScore,
        difficulty_multiplier: int,
    ) -> BeatmapStateView {
        let combo: nat = if hit.is_hit() {
            self.combo + 1
        } else {
            0
        };
        BeatmapStateView {
            hits300: if hit == HitScore::Hit300 {
                self.hits300 + 1
            } else {
                self.hits300
            },
            hits100: if hit == HitScore::Hit100 {
                self.hits100 + 1
            } else {
                self.hits100
            },
            hits50: if hit == HitScore::Hit50 {
                self.hits50 + 1
            } else {
                self.hits50
            },
            misses: if hit == HitScore::Miss {
                self.misses + 1
            } else {
                self.misses
            },
            score: (self.score + score_increment(hit, self.combo as int, difficulty_multiplier))
                as nat,
            combo,
            max_combo: if combo > self.max_combo {
                combo
            } else {
                self.max_combo
            },
            health: hp.drained(self.health as int, hit) as nat,
            ..self
        }
    }

    /// The totals after a whole sequence of judgements, in order.
    pub open spec fn replayed(
        self,
        hp: HpDrainRate,
        hits: Seq<HitScore>,
        difficulty_multiplier: int,
    ) -> BeatmapStateView
        decreases hits.len(),
    {
        if hits.len() == 0 {
            self
        } else {
            self.replayed(hp, hits.drop_last(), difficulty_multiplier).scored(
                hp,
                hits.last(),
                difficulty_multiplier,
            )
        }
    }

    /// Replaying the same judgements from the start of an attempt gives the
    /// same totals every time: the score, the combo and the accuracy depend
    /// on nothing but the judgements, the drain rate and the multiplier.
    pub proof fn lemma_replay_is_deterministic(
        first: BeatmapState,
        second: BeatmapState,
        hp: HpDrainRate,
        hits: Seq<HitScore>,
        difficulty_multiplier: int,
    )
        requires
            first@ == BeatmapStateView::fresh().replayed(hp, hits, difficulty_multiplier),
            second@ == BeatmapStateView::fresh().replayed(hp, hits, difficulty_multiplier),
        ensures
            first.score == second.score,
            first.combo == second.combo,
            first.max_combo == second.max_combo,
            first.health == second.health,
            first.accuracy_spec() == second.accuracy_spec(),
            first.grade_spec() == second.grade_spec(),
    {
    }

    /// A judgement keeps the totals within their limits, as long as there is
    /// room to count it. Whatever the judgement, health stays between empty
    /// and full.
    pub proof fn lemma_scored_wf(self, hp: HpDrainRate, hit: HitScore, difficulty_multiplier: i32)
        requires
            self.wf(),
            self.judged() < MAX_OBJECTS,
        ensures
            self.scored(hp, hit, difficulty_multiplier as int).wf(),
            self.scored(hp, hit, difficulty_multiplier as int).judged() == self.judged() + 1,
            0 <= self.scored(hp, hit, difficulty_multiplier as int).health <= FULL_HEALTH,
            0 <= score_increment(hit, self.combo as int, difficulty_multiplier as int)
                <= MAX_SCORE_STEP,
    {
        lemma_score_increment_bound(hit, self.combo as int, difficulty_multiplier as int);
        lemma_score_room(self.judged() as int);
    }

    /// Health never leaves the range from empty to full, whatever sequence of
    /// judgements is replayed, however long, and at whatever drain rate.
    pub proof fn lemma_replayed_health_in_range(
        self,
        hp: HpDrainRate,
        hits: Seq<HitScore>,
        difficulty_multiplier: int,
    )
        requires
            self.health <= FULL_HEALTH,
        ensures
            0 <= self.replayed(hp, hits, difficulty_multiplier).health <= FULL_HEALTH,
        decreases hits.len(),
    {
        if hits.len() > 0 {
            self.lemma_replayed_health_in_range(hp, hits.drop_last(), difficulty_multiplier);
        }
    }

    /// The totals stay within their limits over any sequence of judgements
    /// that there is room to count.
    pub proof fn lemma_replayed_wf(
        self,
        hp: HpDrainRate,
        hits: Seq<HitScore>,
        difficulty_multiplier: i32,
    )
        requires
            self.wf(),
            self.judged() + hits.len() <= MAX_OBJECTS,
        ensures
            self.replayed(hp, hits, difficulty_multiplier as int).wf(),
            self.replayed(hp, hits, difficulty_multiplier as int).judged() == self.judged()
                + hits.len(),
            0 <= self.replayed(hp, hits, difficulty_multiplier as int).health <= FULL_HEALTH,
        decreases hits.len(),
    {
        if hits.len() > 0 {
            self.lemma_replayed_wf(hp, hits.drop_last(), difficulty_multiplier);
            self.replayed(hp, hits.drop_last(), difficulty_multiplier as int).lemma_scored_wf(
                hp,
                hits.last(),
                difficulty_multiplier,
            );
        }
    }
}

/// One more judgement raises the most that the score can be by one step, and
/// the score of a full beatmap can still be written down.
pub proof fn lemma_score_room(judged: int)
    requires
        0 <= judged < MAX_OBJECTS,
    ensures
        (judged + 1) * MAX_SCORE_STEP == judged * MAX_SCORE_STEP + MAX_SCORE_STEP,
        (judged + 1) * MAX_SCORE_STEP <= MAX_OBJECTS * MAX_SCORE_STEP,
        MAX_OBJECTS * MAX_SCORE_STEP <= u128::MAX,
{
    let step = MAX_SCORE_STEP as int;
    assert((judged + 1) * step == judged * step + step && (judged + 1) * step <= 0x7FFF_FFFF
        * step) by (nonlinear_arith)
        requires
            0 <= judged < 0x7FFF_FFFF,
            0 <= step,
    ;
}

/// A judgement adds between nothing and [`MAX_SCORE_STEP`] to the score.
pub proof fn lemma_score_increment_bound(hit: HitScore, combo: int, difficulty_multiplier: int)
    requires
        0 <= combo <= MAX_OBJECTS,
        i32::MIN <= difficulty_multiplier <= i32::MAX,
    ensures
        0 <= score_increment(hit, combo, difficulty_multiplier) <= MAX_SCORE_STEP,
{
    let cm = combo_multiplier(combo);
    let unit = hit.value_spec() / 25;
    assert(0 <= unit <= 12);
    assert(unit * cm * difficulty_multiplier <= 12 * 0x4000_0000_0000_0000) by (nonlinear_arith)
        requires
            0 <= unit <= 12,
            0 <= cm <= 0x7FFF_FFFF,
            -0x8000_0000 <= difficulty_multiplier <= 0x7FFF_FFFF,
    ;
}

impl BeatmapState {
    /// The state in which an attempt starts: nothing judged, nothing spawned,
    /// full health.
    pub open spec fn is_fresh(&self) -> bool {
        self@ == BeatmapStateView::fresh()
    }

    /// The totals are within their limits; see [`BeatmapStateView::wf`].
    pub open spec fn wf(&self) -> bool {
        self@.wf()
    }

    /// Counts and scores one judgement: the counter of its grade goes up, the
    /// score rises by [`score_increment`], a hit lengthens the combo and a
    /// miss ends it, and health moves by the drain of the judgement.
    pub fn apply(&mut self, hp: HpDrainRate, hit: HitScore, difficulty_multiplier: i32)
        requires
            old(self).wf(),
            old(self)@.judged() < MAX_OBJECTS,
        ensures
            final(self)@ == old(self)@.scored(hp, hit, difficulty_multiplier as int),
            final(self).wf(),
    {
        proof {
            self@.lemma_scored_wf(hp, hit, difficulty_multiplier);
        }
        let value: i128 = hit.value() as i128;
        let combo_multiplier: i128 = if self.combo >= 1 {
            (self.combo - 1) as i128
        } else {
            0
        };
        let unit: i128 = value / 25;
        let dm: i128 = difficulty_multiplier as i128;
        assert(-12 * 0x4000_0000_0000_0000 <= unit * combo_multiplier * dm <= 12
            * 0x4000_0000_0000_0000 && -12 * 0x8000_0000 <= unit * combo_multiplier <= 12
            * 0x8000_0000) by (nonlinear_arith)
            requires
                0 <= unit <= 12,
                0 <= combo_multiplier <= 0x7FFF_FFFF,
                -0x8000_0000 <= dm <= 0x7FFF_FFFF,
        ;
        let exact: i128 = value + unit * combo_multiplier * dm;
        let increment: u128 = if exact < 0 {
            0
        } else {
            exact as u128
        };
        proof {
            lemma_score_room(self@.judged() as int);
        }
        self.score = self.score + increment;
        match hit {
            HitScore::Hit300 => {
                self.hits300 = self.hits300 + 1;
            },
            HitScore::Hit100 => {
                self.hits100 = self.hits100 + 1;
            },
            HitScore::Hit50 => {
                self.hits50 = self.hits50 + 1;
            },
            HitScore::Miss => {
                self.misses = self.misses + 1;
            },
        }
        match hit {
            HitScore::Miss => {
                self.combo = 0;
            },
            _ => {
                self.combo = self.combo + 1;
                if self.combo > self.max_combo {
                    self.max_combo = self.combo;
                }
            },
        }
        self.health = hp.drain(self.health, hit);
    }

    /// Replays a sequence of judgements from the start of an attempt.
    pub fn replay(hp: HpDrainRate, hits: &Vec<HitScore>, difficulty_multiplier: i32) -> (state:
        BeatmapState)
        requires
            hits@.len() <= MAX_OBJECTS,
        ensures
            state@ == BeatmapStateView::fresh().replayed(
                hp,
                hits@,
                difficulty_multiplier as int,
            ),
            state.wf(),
    {
        let mut state = BeatmapState::default();
        let mut i: usize = 0;
        assert(hits@.take(0) =~= Seq::<HitScore>::empty());
        while i < hits.len()
            invariant
                i <= hits@.len() <= MAX_OBJECTS,
                state.wf(),
                state@.judged() == i,
                state@ == BeatmapStateView::fresh().replayed(
                    hp,
                    hits@.take(i as int),
                    difficulty_multiplier as int,
                ),
            decreases hits@.len() - i,
        {
            assert(hits@.take(i + 1).drop_last() =~= hits@.take(i as int));
            assert(hits@.take(i + 1).last() == hits@[i as int]);
            state.apply(hp, hits[i], difficulty_multiplier);
            i += 1;
        }
        assert(hits@.take(i as int) =~= hits@);
        state
    }

    /// The number of hit objects judged so far.
    pub open spec fn judged(&self) -> int {
        self@.judged() as int
    }

    /// Accuracy in thousandths of a percent; see
    /// [`BeatmapStateView::accuracy`].
    pub open spec fn accuracy_spec(&self) -> int {
        self@.accuracy() as int
    }

    /// The grade of the attempt; see [`BeatmapStateView::grade`].
    pub open spec fn grade_spec(&self) -> Grade {
        self@.grade()
    }

    /// Accuracy so far, in thousandths of a percent.
    pub fn accuracy(&self) -> (accuracy: u32)
        ensures
            accuracy as int == self.accuracy_spec(),
            accuracy <= 100_000,
    {
        let judged: u128 = self.hits300 as u128 + self.hits100 as u128 + self.hits50 as u128
            + self.misses as u128;
        if judged == 0 {
            return 0;
        }
        let points: u128 = 300 * (self.hits300 as u128) + 100 * (self.hits100 as u128) + 50 * (
        self.hits50 as u128);
        let n: u128 = points * 100_000;
        let d: u128 = 300 * judged;
        let accuracy: u128 = n / d;
        assert(accuracy <= 100_000) by (nonlinear_arith)
            requires
                accuracy == n / d,
                n <= 100_000 * d,
                0 < d,
        ;
        accuracy as u32
    }

    /// Accuracy so far in hundredths of a percent, as it is shown.
    pub fn accuracy_hundredths(&self) -> (accuracy: u32)
        ensures
            accuracy as nat == self@.accuracy_hundredths(),
            accuracy <= 10_000,
    {
        let judged: u128 = self.hits300 as u128 + self.hits100 as u128 + self.hits50 as u128
            + self.misses as u128;
        if judged == 0 {
            return 0;
        }
        let points: u128 = 300 * (self.hits300 as u128) + 100 * (self.hits100 as u128) + 50 * (
        self.hits50 as u128);
        let n: u128 = 2 * points * 10_000 + 300 * judged;
        let d: u128 = 600 * judged;
        let accuracy: u128 = n / d;
        assert(accuracy <= 10_000) by (nonlinear_arith)
            requires
                accuracy == n / d,
                n < 10_001 * d,
                0 < d,
        ;
        accuracy as u32
    }

    /// The grade that the judgements so far earn.
    pub fn grade(&self) -> (grade: Grade)
        ensures
            grade == self.grade_spec(),
    {
        let accuracy: u32 = self.accuracy();
        let total: u128 = self.hits300 as u128 + self.hits100 as u128 + self.hits50 as u128
            + self.misses as u128;
        let best: u128 = self.hits300 as u128;
        if accuracy >= 99_999 {
            Grade::SS
        } else if self.misses == 0 && 10 * best > 9 * total && 100 * (self.hits50 as u128)
            <= total {
            Grade::S
        } else if (10 * best > 8 * total && self.misses == 0) || 10 * best > 9 * total {
            Grade::A
        } else if (10 * best > 7 * total && self.misses == 0) || 10 * best > 8 * total {
            Grade::B
        } else if 10 * best > 6 * total {
            Grade::C
        } else {
            Grade::D
        }
    }
}

impl Beatmap {
    /// What the beatmap is made of.
    pub closed spec fn data_spec(&self) -> BeatmapData {
        self.data
    }

    /// The totals of the attempt.
    pub closed spec fn state_spec(&self) -> BeatmapState {
        self.state
    }

    /// The depth of each hit object.
    pub closed spec fn depths_spec(&self) -> Seq<i32> {
        self.depths@
    }

    /// The beatmap can be played: its hit objects are in time order and each
    /// has its depth; the totals are within their limits; every hit object up
    /// to the cursor was either judged, or waits in the world, or was left
    /// out; and the circles that wait stand for hit objects before the
    /// cursor, in the order of their hit objects.
    pub open spec fn wf(&self) -> bool {
        let data = self.data_spec();
        let state = self.state_spec()@;
        &&& data.defect() is None
        &&& self.depths_spec().len() == data.hit_objects@.len()
        &&& forall|i: int|
            0 <= i < data.hit_objects@.len() ==> (#[trigger] self.depths_spec()[i]) as int
                == data.depth_of(i)
        &&& state.wf()
        &&& state.judged() + state.active.len() <= state.next <= data.hit_objects@.len()
        &&& forall|k: int|
            0 <= k < state.active.len() ==> (#[trigger] state.active[k]).handle() < state.next
        &&& forall|j: int, k: int|
            0 <= j < k < state.active.len() ==> (#[trigger] state.active[j]).handle() < (
            #[trigger] state.active[k]).handle()
    }

    /// A beatmap of these parts, ready for an attempt: nothing judged, nothing
    /// spawned, full health. Hit objects out of time order are refused, and so
    /// are more hit objects than can be counted.
    pub fn new(data: BeatmapData) -> (made: Result<Beatmap, InvalidBeatmap>)
        ensures
            match made {
                Ok(beatmap) => {
                    &&& data.defect() is None
                    &&& beatmap.wf()
                    &&& beatmap.data_spec() == data
                    &&& beatmap.state_spec().is_fresh()
                },
                Err(error) => data.defect() == Some(error),
            },
    {
        if data.hit_objects.len() > MAX_OBJECTS {
            return Err(InvalidBeatmap::TooManyObjects);
        }
        if !data.is_time_ordered() {
            return Err(InvalidBeatmap::NotTimeOrdered);
        }
        let depths = data.depths();
        Ok(Beatmap { data, state: BeatmapState::default(), depths })
    }

    /// What the beatmap is made of.
    pub fn data(&self) -> (data: &BeatmapData)
        ensures
            *data == self.data_spec(),
    {
        &self.data
    }

    /// The totals of the attempt.
    pub fn state(&self) -> (state: &BeatmapState)
        ensures
            *state == self.state_spec(),
    {
        &self.state
    }

    /// The depth at which hit object `index` is drawn.
    pub fn depth(&self, index: usize) -> (depth: i32)
        requires
            self.wf(),
            index < self.data_spec().hit_objects@.len(),
        ensures
            depth as int == self.data_spec().depth_of(index as int),
            depth <= 0,
    {
        proof {
            self.data.hit_objects@[index as int].lemma_depth_bounds(
                self.data.hit_objects@.skip(index + 1),
                self.data.own_radius(),
            );
        }
        self.depths[index]
    }
}

/// The difficulty setting that `text` writes, in thousandths, or what is wrong
/// with it: `missing` where the beatmap does not give the setting.
pub open spec fn setting_of(text: Option<String>, missing: InvalidBeatmap) -> Result<
    i32,
    InvalidBeatmap,
> {
    match text {
        None => Err(missing),
        Some(written) => match parsed_thousandths(encode_utf8(written@)) {
            Some(value) => Ok(value),
            None => Err(InvalidBeatmap::MalformedNumber),
        },
    }
}

/// What is wrong with the difficulty setting that `text` writes, if anything.
pub open spec fn setting_error(text: Option<String>, missing: InvalidBeatmap) -> Option<
    InvalidBeatmap,
> {
    match setting_of(text, missing) {
        Ok(_) => None,
        Err(error) => Some(error),
    }
}

/// Reads a difficulty setting.
fn read_setting(text: &Option<String>, missing: InvalidBeatmap) -> (setting: Result<
    i32,
    InvalidBeatmap,
>)
    ensures
        setting == setting_of(*text, missing),
{
    match text {
        None => Err(missing),
        Some(written) => match parse_thousandths(written.as_str()) {
            Some(value) => Ok(value),
            None => Err(InvalidBeatmap::MalformedNumber),
        },
    }
}

/// The name that `text` gives, or "Not named".
pub open spec fn name_of(text: Option<String>) -> Seq<char> {
    match text {
        Some(name) => name@,
        None => "Not named"@,
    }
}

/// The name that `text` gives, or "Not named".
fn read_name(text: Option<String>) -> (name: String)
    ensures
        name@ == name_of(text),
{
    match text {
        Some(name) => name,
        None => String::from_str("Not named"),
    }
}

impl DecodedBeatmap {
    /// The combo colours that the beatmap gives, as a sequence.
    pub open spec fn given_colours(&self) -> Option<Seq<ComboColour>> {
        match self.colours {
            Some(list) => Some(list@),
            None => None,
        }
    }

    /// Whether the hit objects are written in time order.
    pub open spec fn time_ordered(&self) -> bool {
        forall|i: int, j: int|
            0 <= i <= j < self.hit_objects@.len() ==> parsed_u32(
                encode_utf8(self.hit_objects@[i].time@),
            ).unwrap() <= parsed_u32(encode_utf8(self.hit_objects@[j].time@)).unwrap()
    }

    /// Why the beatmap cannot be played, if it cannot. The first of these
    /// that holds decides: the audio file is not there; the overall
    /// difficulty, the circle size, the approach rate or the HP drain rate, in
    /// this order, is not given or is not written as a number; there are too
    /// many hit objects; a hit object's number is not written as one; the hit
    /// objects are not in time order.
    pub open spec fn rejection(&self, audio_path: Option<String>) -> Option<InvalidBeatmap> {
        let od = setting_error(self.overall_difficulty, InvalidBeatmap::MissingOverallDifficulty);
        let cs = setting_error(self.circle_size, InvalidBeatmap::MissingCircleSize);
        let ar = setting_error(self.approach_rate, InvalidBeatmap::MissingApproachRate);
        let hp = setting_error(self.hp_drain_rate, InvalidBeatmap::MissingHpDrainRate);
        if audio_path is None {
            Some(InvalidBeatmap::MissingAudio)
        } else if od is Some {
            od
        } else if cs is Some {
            cs
        } else if ar is Some {
            ar
        } else if hp is Some {
            hp
        } else if unreadable(self.hit_objects@) is Some {
            unreadable(self.hit_objects@)
        } else if !self.time_ordered() {
            Some(InvalidBeatmap::NotTimeOrdered)
        } else {
            None
        }
    }

    /// Whether `data` is what this beatmap and the audio file at `audio_path`
    /// make: the settings and hit objects as they are written, the hit
    /// objects coloured from the beatmap's combo colours, and every name that
    /// is not given replaced by "Not named".
    pub open spec fn makes(&self, audio_path: String, data: BeatmapData) -> bool {
        &&& Ok::<i32, InvalidBeatmap>(data.od.0) == setting_of(
            self.overall_difficulty,
            InvalidBeatmap::MissingOverallDifficulty,
        )
        &&& Ok::<i32, InvalidBeatmap>(data.cs.0) == setting_of(
            self.circle_size,
            InvalidBeatmap::MissingCircleSize,
        )
        &&& Ok::<i32, InvalidBeatmap>(data.ar.0) == setting_of(
            self.approach_rate,
            InvalidBeatmap::MissingApproachRate,
        )
        &&& Ok::<i32, InvalidBeatmap>(data.hp.0) == setting_of(
            self.hp_drain_rate,
            InvalidBeatmap::MissingHpDrainRate,
        )
        &&& data.audio_path == audio_path
        &&& data.title@ == name_of(self.title)
        &&& data.difficulty_name@ == name_of(self.version)
        &&& data.artist@ == name_of(self.artist)
        &&& data.hit_objects@.len() == self.hit_objects@.len()
        &&& exists|palette: Seq<Color>|
            {
                &&& #[trigger] is_palette(self.given_colours(), palette)
                &&& forall|k: int|
                    0 <= k < data.hit_objects@.len() ==> is_object_at(
                        self.hit_objects@,
                        palette,
                        k,
                        #[trigger] data.hit_objects@[k],
                    )
            }
    }
}

impl Beatmap {
    /// The beatmap that a decoded beatmap file and its audio file make, ready
    /// for an attempt, or why the file cannot be played.
    pub fn try_from(decoded: DecodedBeatmap, audio_path: Option<String>) -> (made: Result<
        Beatmap,
        InvalidBeatmap,
    >)
        ensures
            match made {
                Ok(beatmap) => {
                    &&& decoded.rejection(audio_path) is None
                    &&& beatmap.wf()
                    &&& beatmap.state_spec().is_fresh()
                    &&& audio_path matches Some(path) && decoded.makes(path, beatmap.data_spec())
                },
                Err(error) => decoded.rejection(audio_path) == Some(error),
            },
    {
        let audio_path = match audio_path {
            Some(path) => path,
            None => {
                return Err(InvalidBeatmap::MissingAudio);
            },
        };
        let od = match read_setting(
            &decoded.overall_difficulty,
            InvalidBeatmap::MissingOverallDifficulty,
        ) {
            Ok(value) => value,
            Err(error) => {
                return Err(error);
            },
        };
        let cs = match read_setting(&decoded.circle_size, InvalidBeatmap::MissingCircleSize) {
            Ok(value) => value,
            Err(error) => {
                return Err(error);
            },
        };
        let ar = match read_setting(&decoded.approach_rate, InvalidBeatmap::MissingApproachRate) {
            Ok(value) => value,
            Err(error) => {
                return Err(error);
            },
        };
        let hp = match read_setting(&decoded.hp_drain_rate, InvalidBeatmap::MissingHpDrainRate) {
            Ok(value) => value,
            Err(error) => {
                return Err(error);
            },
        };
        let colours = decoded.colours.as_ref();
        let hit_objects = match HitObject::from(&decoded.hit_objects, colours) {
            Ok(objects) => objects,
            Err(error) => {
                return Err(error);
            },
        };
        let ghost objects = hit_objects@;
        let ghost palette = choose|palette: Seq<Color>|
            {
                &&& #[trigger] is_palette(given_colours(colours), palette)
                &&& forall|k: int|
                    0 <= k < objects.len() ==> is_object_at(
                        decoded.hit_objects@,
                        palette,
                        k,
                        #[trigger] objects[k],
                    )
            };
        let data = BeatmapData {
            od: OverallDifficulty(od),
            cs: CircleSize(cs),
            ar: ApproachRate(ar),
            hp: HpDrainRate(hp),
            hit_objects,
            audio_path,
            artist: read_name(decoded.artist),
            difficulty_name: read_name(decoded.version),
            title: read_name(decoded.title),
        };
        proof {
            assert(is_palette(decoded.given_colours(), palette));
            assert forall|k: int| 0 <= k < objects.len() implies parsed_u32(
                encode_utf8(decoded.hit_objects@[k].time@),
            ) == Some((#[trigger] objects[k]).time()) by {
                assert(is_object_at(decoded.hit_objects@, palette, k, objects[k]));
            }
            if decoded.time_ordered() {
                assert forall|i: int, j: int| 0 <= i <= j < objects.len() implies objects[i].time()
                    <= objects[j].time() by {
                    assert(parsed_u32(encode_utf8(decoded.hit_objects@[i].time@)) == Some(
                        objects[i].time(),
                    ));
                    assert(parsed_u32(encode_utf8(decoded.hit_objects@[j].time@)) == Some(
                        objects[j].time(),
                    ));
                }
            }
            if data.wf() {
                assert forall|i: int, j: int|
                    0 <= i <= j < decoded.hit_objects@.len() implies parsed_u32(
                    encode_utf8(decoded.hit_objects@[i].time@),
                ).unwrap() <= parsed_u32(encode_utf8(decoded.hit_objects@[j].time@)).unwrap() by {
                    assert(parsed_u32(encode_utf8(decoded.hit_objects@[i].time@)) == Some(
                        objects[i].time(),
                    ));
                    assert(parsed_u32(encode_utf8(decoded.hit_objects@[j].time@)) == Some(
                        objects[j].time(),
                    ));
                    assert(data.hit_objects@[i].time() <= data.hit_objects@[j].time());
                }
            }
        }
        Beatmap::new(data)
    }
}

impl Beatmap {
    /// Whether `text` says how the attempt went: the names of the beatmap and
    /// the totals of the attempt, with its grade and its accuracy.
    pub open spec fn tells(&self, text: ScoreText) -> bool {
        let data = self.data_spec();
        let totals = self.state_spec()@;
        &&& text.title@ == data.title@
        &&& text.artist@ == data.artist@
        &&& text.difficulty_name@ == data.difficulty_name@
        &&& text.score == totals.score
        &&& text.grade == totals.grade()
        &&& text.hits300 == totals.hits300
        &&& text.hits100 == totals.hits100
        &&& text.hits50 == totals.hits50
        &&& text.misses == totals.misses
        &&& text.max_combo == totals.max_combo
        &&& text.accuracy == totals.accuracy_hundredths()
    }

    /// How the attempt went, for the players to read.
    pub fn score_text(&self) -> (text: ScoreText)
        ensures
            self.tells(text),
    {
        ScoreText {
            title: self.data.title.clone(),
            artist: self.data.artist.clone(),
            difficulty_name: self.data.difficulty_name.clone(),
            score: self.state.score,
            grade: self.state.grade(),
            hits300: self.state.hits300,
            hits100: self.state.hits100,
            hits50: self.state.hits50,
            misses: self.state.misses,
            max_combo: self.state.max_combo,
            accuracy: self.state.accuracy_hundredths(),
        }
    }
}

} // verus!
