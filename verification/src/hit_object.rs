//! The hit objects of a beatmap and the depth at which each one is drawn.
//!
//! Circles that overlap on the screen while both are visible are stacked: each
//! is drawn one layer behind the first later circle that it overlaps.

use vstd::prelude::*;
use vstd::string::StringSliceAdditionalSpecFns;
use vstd::utf8::encode_utf8;
use crate::beatmap::{CircleSize, InvalidBeatmap, MAX_OBJECTS};
use crate::color::{default_combo_color_list, default_combo_colors, Color};
use crate::hitcircle::{circle_radius, HitcircleRadius};
use crate::number::{parse_u32, parsed_u32};
use crate::order::{is_stable_order, stable_order};

verus! {

/// Two objects further apart in time than this, in milliseconds, are never on
/// the screen together and so never overlap.
pub const OVERLAP_THRESHOLD_MS: u32 = 1200;

/// The kind of a hit object. Only circles are judged.
#[derive(Clone, Copy, Debug, PartialEq, Eq, Structural)]
pub enum HitObjectParams {
    Hitcircle,
    Slider,
    Spinner,
    OsuManiaHold,
}

impl Default for HitObjectParams {
    fn default() -> (params: HitObjectParams)
        ensures
            params == HitObjectParams::Hitcircle,
    {
        HitObjectParams::Hitcircle
    }
}

/// A hit object as a beatmap file gives it: its numbers as they are written,
/// and whether it starts a new combo, skipping how many combo colours.
#[derive(Clone, Debug)]
pub struct DecodedHitObject {
    pub x: String,
    pub y: String,
    pub time: String,
    pub new_combo: bool,
    pub combo_skip_count: u8,
    pub params: HitObjectParams,
}

/// A combo colour as a beatmap file gives it, with its number in the file.
#[derive(Clone, Copy, Debug)]
pub struct ComboColour {
    pub combo: i32,
    pub color: Color,
}

/// One playable element of a beatmap.
#[derive(Clone, Copy, Debug)]
pub struct HitObject {
    /// In osu!pixels.
    x: u32,
    /// In osu!pixels.
    y: u32,
    /// In milliseconds since the start of the beatmap.
    time: u32,
    combo_number: u32,
    color: Color,
    params: HitObjectParams,
}

impl Default for HitObject {
    fn default() -> (object: HitObject)
        ensures
            object.x() == 0,
            object.y() == 0,
            object.time() == 0,
            object.combo_number() == 0,
            object.color() == (Color { r: 0, g: 0, b: 0 }),
            object.spec_params() == HitObjectParams::Hitcircle,
    {
        HitObject {
            x: 0,
            y: 0,
            time: 0,
            combo_number: 0,
            color: Color { r: 0, g: 0, b: 0 },
            params: HitObjectParams::Hitcircle,
        }
    }
}

impl HitObject {
    /// The horizontal position of the object, in osu!pixels.
    pub closed spec fn spec_x(&self) -> u32 {
        self.x
    }

    /// The vertical position of the object, in osu!pixels.
    pub closed spec fn spec_y(&self) -> u32 {
        self.y
    }

    /// When the object is to be hit, in milliseconds from the start.
    pub closed spec fn spec_time(&self) -> u32 {
        self.time
    }

    /// The place of the object in its combo.
    pub closed spec fn spec_combo_number(&self) -> u32 {
        self.combo_number
    }

    /// The colour of the combo that the object belongs to.
    pub closed spec fn spec_color(&self) -> Color {
        self.color
    }

    /// The kind of the object.
    pub closed spec fn spec_params(&self) -> HitObjectParams {
        self.params
    }

    /// A hit object at (`x`, `y`), to be hit `time` milliseconds into the
    /// beatmap.
    pub fn new(
        x: u32,
        y: u32,
        time: u32,
        combo_number: u32,
        color: Color,
        params: HitObjectParams,
    ) -> (object: HitObject)
        ensures
            object.x() == x,
            object.y() == y,
            object.time() == time,
            object.combo_number() == combo_number,
            object.color() == color,
            object.spec_params() == params,
    {
        HitObject { x, y, time, combo_number, color, params }
    }

    /// The horizontal position of the object, in osu!pixels.
    #[verifier::when_used_as_spec(spec_x)]
    pub fn x(&self) -> (x: u32)
        ensures
            x == self.spec_x(),
    {
        self.x
    }

    /// The vertical position of the object, in osu!pixels.
    #[verifier::when_used_as_spec(spec_y)]
    pub fn y(&self) -> (y: u32)
        ensures
            y == self.spec_y(),
    {
        self.y
    }

    /// When the object is to be hit, in milliseconds from the start.
    #[verifier::when_used_as_spec(spec_time)]
    pub fn time(&self) -> (time: u32)
        ensures
            time == self.spec_time(),
    {
        self.time
    }

    /// The place of the object in its combo.
    #[verifier::when_used_as_spec(spec_combo_number)]
    pub fn combo_number(&self) -> (combo_number: u32)
        ensures
            combo_number == self.spec_combo_number(),
    {
        self.combo_number
    }

    /// The colour of the combo that the object belongs to.
    #[verifier::when_used_as_spec(spec_color)]
    pub fn color(&self) -> (color: Color)
        ensures
            color == self.spec_color(),
    {
        self.color
    }

    /// The kind of the object.
    pub fn params(&self) -> (params: &HitObjectParams)
        ensures
            *params == self.spec_params(),
    {
        &self.params
    }

    /// Whether the circles of two objects, both of radius `radius`, overlap on
    /// the screen: their centres are less than two radii apart.
    pub open spec fn intersects(&self, other: &HitObject, radius: int) -> bool {
        let dx = self.x() - other.x();
        let dy = self.y() - other.y();
        radius > 0 && dx * dx + dy * dy < 4 * radius * radius
    }

    /// Whether `later` is to be hit within the overlap window after this
    /// object.
    pub open spec fn in_window(&self, later: &HitObject) -> bool {
        later.time() < self.time() + OVERLAP_THRESHOLD_MS
    }

    /// Whether `remaining[k]` is the first of the objects that follow this one
    /// to overlap it: everything up to it is within the overlap window, and
    /// nothing before it intersects this object.
    pub open spec fn is_first_overlap(
        &self,
        remaining: Seq<HitObject>,
        radius: int,
        k: int,
    ) -> bool {
        &&& 0 <= k < remaining.len()
        &&& self.intersects(&remaining[k], radius)
        &&& forall|j: int| 0 <= j <= k ==> self.in_window(&#[trigger] remaining[j])
        &&& forall|j: int| 0 <= j < k ==> !self.intersects(&#[trigger] remaining[j], radius)
    }

    /// The index in `remaining` of the first object that overlaps this one, if
    /// there is one.
    pub open spec fn first_overlap(&self, remaining: Seq<HitObject>, radius: int) -> Option<int> {
        if exists|k: int| self.is_first_overlap(remaining, radius, k) {
            Some(choose|k: int| self.is_first_overlap(remaining, radius, k))
        } else {
            None
        }
    }

    /// The depth of this object, given the objects that follow it in time
    /// order: 0 where none of them overlaps it, else one less than the depth
    /// of the first that does.
    pub open spec fn depth(&self, remaining: Seq<HitObject>, radius: int) -> int
        decreases remaining.len(),
    {
        match self.first_overlap(remaining, radius) {
            Some(k) => if 0 <= k < remaining.len() {
                remaining[k].depth(remaining.skip(k + 1), radius) - 1
            } else {
                0
            },
            None => 0,
        }
    }

    /// At most one index is the first overlap.
    pub proof fn lemma_first_overlap_unique(
        &self,
        remaining: Seq<HitObject>,
        radius: int,
        k: int,
    )
        requires
            self.is_first_overlap(remaining, radius, k),
        ensures
            self.first_overlap(remaining, radius) == Some(k),
    {
        let c = choose|c: int| self.is_first_overlap(remaining, radius, c);
        if c < k {
            assert(!self.intersects(&remaining[c], radius));
        } else if k < c {
            assert(!self.intersects(&remaining[k], radius));
        }
    }

    /// In a list in time order, the first overlap is the first object that both
    /// intersects this one and lies within the overlap window.
    pub proof fn lemma_first_overlap_in_time_order(
        &self,
        remaining: Seq<HitObject>,
        radius: int,
        k: int,
    )
        requires
            0 <= k < remaining.len(),
            forall|i: int, j: int|
                0 <= i <= j < remaining.len() ==> remaining[i].time() <= remaining[j].time(),
            self.intersects(&remaining[k], radius),
            self.in_window(&remaining[k]),
            forall|j: int|
                0 <= j < k ==> !(self.intersects(&remaining[j], radius) && self.in_window(
                    &remaining[j],
                )),
        ensures
            self.first_overlap(remaining, radius) == Some(k),
    {
        assert forall|j: int| 0 <= j <= k implies self.in_window(&#[trigger] remaining[j]) by {
            assert(remaining[j].time() <= remaining[k].time());
        }
        self.lemma_first_overlap_unique(remaining, radius, k);
    }

    /// A depth is never positive, and never further down than there are
    /// objects that follow.
    pub proof fn lemma_depth_bounds(&self, remaining: Seq<HitObject>, radius: int)
        ensures
            -remaining.len() <= self.depth(remaining, radius) <= 0,
        decreases remaining.len(),
    {
        match self.first_overlap(remaining, radius) {
            Some(k) => {
                if 0 <= k < remaining.len() {
                    remaining[k].lemma_depth_bounds(remaining.skip(k + 1), radius);
                }
            },
            None => {},
        }
    }

    /// An object lies strictly behind the first object that overlaps it.
    pub proof fn lemma_depth_below_first_overlap(
        &self,
        remaining: Seq<HitObject>,
        radius: int,
        k: int,
    )
        requires
            self.is_first_overlap(remaining, radius, k),
        ensures
            self.depth(remaining, radius) == remaining[k].depth(remaining.skip(k + 1), radius)
                - 1,
            self.depth(remaining, radius) < remaining[k].depth(remaining.skip(k + 1), radius),
    {
        self.lemma_first_overlap_unique(remaining, radius, k);
    }

    /// Whether this object's circle and `other`'s overlap on the screen at the
    /// beatmap's own scale.
    pub fn intersect(&self, other: &HitObject, cs: CircleSize) -> (overlap: bool)
        ensures
            overlap == self.intersects(other, circle_radius(cs.0 as int, 1000)),
    {
        let radius: i64 = HitcircleRadius::from(cs, 1000).circle;
        self.intersect_at(other, radius)
    }

    /// Whether this object's circle and `other`'s, both of radius `radius`,
    /// overlap on the screen.
    pub fn intersect_at(&self, other: &HitObject, radius: i64) -> (overlap: bool)
        ensures
            overlap == self.intersects(other, radius as int),
    {
        if radius <= 0 {
            return false;
        }
        let dx: i128 = self.x as i128 - other.x as i128;
        let dy: i128 = self.y as i128 - other.y as i128;
        let r: i128 = radius as i128;
        assert(0 <= dx * dx <= 0x1_0000_0000 * 0x1_0000_0000) by (nonlinear_arith)
            requires
                -0x1_0000_0000 <= dx <= 0x1_0000_0000,
        ;
        assert(0 <= dy * dy <= 0x1_0000_0000 * 0x1_0000_0000) by (nonlinear_arith)
            requires
                -0x1_0000_0000 <= dy <= 0x1_0000_0000,
        ;
        if r >= 0x1_0000_0000 {
            // No two points of the screen are two such radii apart.
            assert(4 * radius * radius >= 4 * (0x1_0000_0000 * 0x1_0000_0000))
                by (nonlinear_arith)
                requires
                    radius >= 0x1_0000_0000,
            ;
            return true;
        }
        assert(0 <= r * r <= 0x1_0000_0000 * 0x1_0000_0000) by (nonlinear_arith)
            requires
                0 <= r <= 0x1_0000_0000,
        ;
        assert(4 * radius * radius == 4 * (r * r)) by (nonlinear_arith)
            requires
                r == radius,
        ;
        dx * dx + dy * dy < 4 * (r * r)
    }

    /// The index, counted from `start`, of the first object of
    /// `remaining[start..]` that overlaps this one.
    pub(crate) fn first_overlapping(&self, remaining: &[HitObject], start: usize, radius: i64) -> (found:
        Option<usize>)
        requires
            start <= remaining@.len(),
        ensures
            match found {
                Some(k) => self.first_overlap(remaining@.skip(start as int), radius as int)
                    == Some(k as int) && start + k < remaining@.len(),
                None => self.first_overlap(remaining@.skip(start as int), radius as int)
                    is None,
            },
    {
        let ghost rest = remaining@.skip(start as int);
        let limit: u64 = self.time as u64 + OVERLAP_THRESHOLD_MS as u64;
        let mut j: usize = start;
        while j < remaining.len()
            invariant
                start <= j <= remaining@.len(),
                rest == remaining@.skip(start as int),
                limit == self.time() + OVERLAP_THRESHOLD_MS,
                forall|i: int| 0 <= i < j - start ==> self.in_window(&#[trigger] rest[i]),
                forall|i: int|
                    0 <= i < j - start ==> !self.intersects(&#[trigger] rest[i], radius as int),
            decreases remaining@.len() - j,
        {
            let other = &remaining[j];
            assert(rest[j - start] == *other);
            if other.time as u64 >= limit {
                assert forall|k: int| !self.is_first_overlap(rest, radius as int, k) by {
                    if self.is_first_overlap(rest, radius as int, k) {
                        if k < j - start {
                            assert(!self.intersects(&rest[k], radius as int));
                        } else {
                            assert(self.in_window(&rest[j - start]));
                        }
                    }
                }
                return None;
            }
            if self.intersect_at(other, radius) {
                assert(self.is_first_overlap(rest, radius as int, j - start));
                proof {
                    self.lemma_first_overlap_unique(rest, radius as int, j - start);
                }
                return Some(j - start);
            }
            j += 1;
        }
        assert forall|k: int| !self.is_first_overlap(rest, radius as int, k) by {
            if self.is_first_overlap(rest, radius as int, k) {
                assert(!self.intersects(&rest[k], radius as int));
            }
        }
        None
    }

    /// The depth at which to draw this object so that it does not overlap the
    /// circles that follow it. `remaining` holds the objects after this one,
    /// in time order.
    pub fn z(&self, remaining: &[HitObject], cs: CircleSize) -> (depth: i32)
        requires
            remaining@.len() <= i32::MAX,
        ensures
            depth as int == self.depth(remaining@, circle_radius(cs.0 as int, 1000)),
            -remaining@.len() <= depth <= 0,
    {
        let radius: i64 = HitcircleRadius::from(cs, 1000).circle;
        let mut current: HitObject = *self;
        let mut start: usize = 0;
        let mut steps: i32 = 0;
        assert(remaining@.skip(0) =~= remaining@);
        proof {
            self.lemma_depth_bounds(remaining@, radius as int);
        }
        loop
            invariant
                remaining@.len() <= i32::MAX,
                radius as int == circle_radius(cs.0 as int, 1000),
                0 <= steps <= start <= remaining@.len(),
                self.depth(remaining@, radius as int) == current.depth(
                    remaining@.skip(start as int),
                    radius as int,
                ) - steps,
            decreases remaining@.len() - start,
        {
            match current.first_overlapping(remaining, start, radius) {
                Some(k) => {
                    let next: usize = start + k;
                    assert(remaining@.skip(start as int)[k as int] == remaining@[next as int]);
                    assert(remaining@.skip(start as int).skip(k + 1) =~= remaining@.skip(
                        next + 1,
                    ));
                    current = remaining[next];
                    start = next + 1;
                    steps = steps + 1;
                },
                None => {
                    return -steps;
                },
            }
        }
    }
}

/// The numbers of the combo colours `list`, as keys to order them by.
pub open spec fn combo_keys(list: Seq<ComboColour>) -> Seq<i128> {
    Seq::new(list.len(), |i: int| list[i].combo as i128)
}

/// Whether `palette` holds the colours that combos cycle through: those that
/// the beatmap gives, by ascending number and as they stood where numbers are
/// equal, or the default colours where it gives none.
pub open spec fn is_palette(colours: Option<Seq<ComboColour>>, palette: Seq<Color>) -> bool {
    match colours {
        Some(list) => if list.len() > 0 {
            &&& palette.len() == list.len()
            &&& exists|order: Seq<usize>|
                is_stable_order(combo_keys(list), order) && forall|p: int|
                    0 <= p < palette.len() ==> #[trigger] palette[p] == list[order[p] as int].color
        } else {
            palette == default_combo_colors()
        },
        None => palette == default_combo_colors(),
    }
}

/// The combo colours that a beatmap gives, as a sequence.
pub open spec fn given_colours(colours: Option<&Vec<ComboColour>>) -> Option<Seq<ComboColour>> {
    match colours {
        Some(list) => Some(list@),
        None => None,
    }
}

/// The colours that the combos of a beatmap cycle through.
pub fn combo_palette(colours: Option<&Vec<ComboColour>>) -> (palette: Vec<Color>)
    ensures
        is_palette(given_colours(colours), palette@),
        palette@.len() > 0,
{
    match colours {
        Some(list) => {
            if list.len() == 0 {
                return default_combo_color_list();
            }
            let mut keys: Vec<i128> = Vec::new();
            let mut i: usize = 0;
            while i < list.len()
                invariant
                    i <= list@.len(),
                    keys@.len() == i,
                    forall|k: int| 0 <= k < i ==> keys@[k] == list@[k].combo as i128,
                decreases list@.len() - i,
            {
                keys.push(list[i].combo as i128);
                i += 1;
            }
            assert(keys@ =~= combo_keys(list@));
            let order = stable_order(&keys);
            let mut palette: Vec<Color> = Vec::new();
            let mut p: usize = 0;
            while p < order.len()
                invariant
                    p <= order@.len(),
                    order@.len() == list@.len(),
                    is_stable_order(combo_keys(list@), order@),
                    palette@.len() == p,
                    forall|k: int|
                        0 <= k < p ==> #[trigger] palette@[k] == list@[order@[k] as int].color,
                decreases order@.len() - p,
            {
                palette.push(list[order[p]].color);
                p += 1;
            }
            palette
        },
        None => default_combo_color_list(),
    }
}

/// The combo number of hit object `k`: 1 where it starts a new combo, else
/// one more than that of the object before it. The first object follows an
/// imagined object with number 1.
pub open spec fn combo_number_at(decoded: Seq<DecodedHitObject>, k: int) -> nat
    decreases k + 1,
{
    if k < 0 || k >= decoded.len() {
        1
    } else if decoded[k].new_combo {
        1
    } else {
        combo_number_at(decoded, k - 1) + 1
    }
}

/// The index of the colour of hit object `k` in a palette of `colors`
/// colours: that of the object before it, moved on by one and by the colours
/// to skip where the object starts a new combo. The first object follows the
/// last colour.
pub open spec fn color_index_at(decoded: Seq<DecodedHitObject>, colors: int, k: int) -> int
    decreases k + 1,
{
    if k < 0 || k >= decoded.len() {
        colors - 1
    } else if decoded[k].new_combo {
        (color_index_at(decoded, colors, k - 1) + 1 + decoded[k].combo_skip_count) % colors
    } else {
        color_index_at(decoded, colors, k - 1)
    }
}

/// The colour index of every hit object lies within the palette.
pub proof fn lemma_color_index_in_palette(decoded: Seq<DecodedHitObject>, colors: int, k: int)
    requires
        colors > 0,
    ensures
        0 <= color_index_at(decoded, colors, k) < colors,
    decreases k + 1,
{
    if 0 <= k < decoded.len() {
        lemma_color_index_in_palette(decoded, colors, k - 1);
    }
}

/// The combo number of hit object `k` is at most `k + 2`.
pub proof fn lemma_combo_number_bound(decoded: Seq<DecodedHitObject>, k: int)
    ensures
        1 <= combo_number_at(decoded, k),
        0 <= k ==> combo_number_at(decoded, k) <= k + 2,
    decreases k + 1,
{
    if 0 <= k < decoded.len() {
        lemma_combo_number_bound(decoded, k - 1);
    }
}

impl DecodedHitObject {
    /// Whether the three numbers of the object are written as whole numbers.
    pub open spec fn readable(&self) -> bool {
        &&& parsed_u32(encode_utf8(self.x@)) is Some
        &&& parsed_u32(encode_utf8(self.y@)) is Some
        &&& parsed_u32(encode_utf8(self.time@)) is Some
    }
}

/// Whether `object` is hit object `k` of `decoded`, coloured from `palette`:
/// it has the numbers that are written, the combo number and colour of its
/// place in the list, and the kind that is given.
pub open spec fn is_object_at(
    decoded: Seq<DecodedHitObject>,
    palette: Seq<Color>,
    k: int,
    object: HitObject,
) -> bool {
    &&& parsed_u32(encode_utf8(decoded[k].x@)) == Some(object.x())
    &&& parsed_u32(encode_utf8(decoded[k].y@)) == Some(object.y())
    &&& parsed_u32(encode_utf8(decoded[k].time@)) == Some(object.time())
    &&& object.combo_number() == combo_number_at(decoded, k)
    &&& object.color() == palette[color_index_at(decoded, palette.len() as int, k)]
    &&& object.spec_params() == decoded[k].params
}

/// What keeps `decoded` from being read, if anything does: that there are too
/// many hit objects, or that a number is not written as one.
pub open spec fn unreadable(decoded: Seq<DecodedHitObject>) -> Option<InvalidBeatmap> {
    if decoded.len() > MAX_OBJECTS {
        Some(InvalidBeatmap::TooManyObjects)
    } else if exists|k: int| 0 <= k < decoded.len() && !(#[trigger] decoded[k]).readable() {
        Some(InvalidBeatmap::MalformedNumber)
    } else {
        None
    }
}

impl HitObject {
    /// The hit objects of a beatmap, read from what its file gives, with
    /// their combo numbers counted and their colours taken in turn from
    /// `palette`.
    pub fn from_decoded(hitobjects: &Vec<DecodedHitObject>, palette: &Vec<Color>) -> (made:
        Result<Vec<HitObject>, InvalidBeatmap>)
        requires
            palette@.len() > 0,
        ensures
            match made {
                Ok(objects) => {
                    &&& unreadable(hitobjects@) is None
                    &&& objects@.len() == hitobjects@.len()
                    &&& forall|k: int|
                        0 <= k < objects@.len() ==> is_object_at(
                            hitobjects@,
                            palette@,
                            k,
                            #[trigger] objects@[k],
                        )
                },
                Err(error) => unreadable(hitobjects@) == Some(error),
            },
    {
        if hitobjects.len() > MAX_OBJECTS {
            return Err(InvalidBeatmap::TooManyObjects);
        }
        let colors: usize = palette.len();
        let mut combo_number: u32 = 1;
        let mut cur_color: usize = colors - 1;
        let mut result: Vec<HitObject> = Vec::new();
        let mut i: usize = 0;
        while i < hitobjects.len()
            invariant
                i <= hitobjects@.len() <= MAX_OBJECTS,
                colors == palette@.len(),
                colors > 0,
                result@.len() == i,
                combo_number as nat == combo_number_at(hitobjects@, i - 1),
                cur_color as int == color_index_at(hitobjects@, colors as int, i - 1),
                forall|k: int| 0 <= k < i ==> (#[trigger] hitobjects@[k]).readable(),
                forall|k: int|
                    0 <= k < i ==> is_object_at(hitobjects@, palette@, k, #[trigger] result@[k]),
            decreases hitobjects@.len() - i,
        {
            let decoded = &hitobjects[i];
            proof {
                lemma_combo_number_bound(hitobjects@, i as int - 1);
                lemma_combo_number_bound(hitobjects@, i as int);
                lemma_color_index_in_palette(hitobjects@, colors as int, i as int - 1);
                lemma_color_index_in_palette(hitobjects@, colors as int, i as int);
            }
            if decoded.new_combo {
                combo_number = 1;
                cur_color = ((cur_color as u128 + 1 + decoded.combo_skip_count as u128) % (
                colors as u128)) as usize;
            } else {
                combo_number = combo_number + 1;
            }
            let x = parse_u32(decoded.x.as_str());
            let y = parse_u32(decoded.y.as_str());
            let time = parse_u32(decoded.time.as_str());
            match (x, y, time) {
                (Some(x), Some(y), Some(time)) => {
                    result.push(
                        HitObject::new(
                            x,
                            y,
                            time,
                            combo_number,
                            palette[cur_color],
                            decoded.params,
                        ),
                    );
                },
                _ => {
                    assert(!hitobjects@[i as int].readable());
                    return Err(InvalidBeatmap::MalformedNumber);
                },
            }
            i += 1;
        }
        Ok(result)
    }

    /// The hit objects of a beatmap, read from what its file gives. Combos
    /// cycle through the combo colours of the file, in the order of their
    /// numbers, or through the default colours where the file gives none.
    pub fn from(hitobjects: &Vec<DecodedHitObject>, colours: Option<&Vec<ComboColour>>) -> (made:
        Result<Vec<HitObject>, InvalidBeatmap>)
        ensures
            match made {
                Ok(objects) => {
                    &&& unreadable(hitobjects@) is None
                    &&& objects@.len() == hitobjects@.len()
                    &&& exists|palette: Seq<Color>|
                        {
                            &&& #[trigger] is_palette(given_colours(colours), palette)
                            &&& forall|k: int|
                                0 <= k < objects@.len() ==> is_object_at(
                                    hitobjects@,
                                    palette,
                                    k,
                                    #[trigger] objects@[k],
                                )
                        }
                },
                Err(error) => unreadable(hitobjects@) == Some(error),
            },
    {
        let palette = combo_palette(colours);
        HitObject::from_decoded(hitobjects, &palette)
    }
}

} // verus!
