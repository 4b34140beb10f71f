//! Colours of hit objects and the concrete blocks that stand for them.

use vstd::prelude::*;

verus! {

/// An RGB colour.
#[derive(Clone, Copy, PartialEq, Eq, Structural, Debug)]
pub struct Color {
    pub r: u8,
    pub g: u8,
    pub b: u8,
}

/// The sixteen dyed concrete blocks, in palette order.
#[derive(Clone, Copy, PartialEq, Eq, Structural, Debug)]
pub enum Concrete {
    White,
    Orange,
    Magenta,
    LightBlue,
    Yellow,
    Lime,
    Pink,
    Gray,
    LightGray,
    Cyan,
    Purple,
    Blue,
    Brown,
    Green,
    Red,
    Black,
}

/// A palette entry: a concrete block, as placed and as carried, with the
/// colour it shows.
#[derive(Clone, Copy, PartialEq, Eq, Structural, Debug)]
pub struct BlockColor {
    concrete: Concrete,
    color: Color,
}

/// The number of palette entries.
pub const PALETTE_LEN: usize = 16;

/// The absolute difference of two colour channels.
pub open spec fn channel_gap(a: u8, b: u8) -> int {
    if a >= b {
        a - b
    } else {
        b - a
    }
}

/// The palette entry at `index`; entries past the end are the last one.
pub open spec fn palette_entry(index: int) -> Concrete {
    if index <= 0 {
        Concrete::White
    } else if index == 1 {
        Concrete::Orange
    } else if index == 2 {
        Concrete::Magenta
    } else if index == 3 {
        Concrete::LightBlue
    } else if index == 4 {
        Concrete::Yellow
    } else if index == 5 {
        Concrete::Lime
    } else if index == 6 {
        Concrete::Pink
    } else if index == 7 {
        Concrete::Gray
    } else if index == 8 {
        Concrete::LightGray
    } else if index == 9 {
        Concrete::Cyan
    } else if index == 10 {
        Concrete::Purple
    } else if index == 11 {
        Concrete::Blue
    } else if index == 12 {
        Concrete::Brown
    } else if index == 13 {
        Concrete::Green
    } else if index == 14 {
        Concrete::Red
    } else {
        Concrete::Black
    }
}

impl Concrete {
    /// The colour that the block shows.
    pub open spec fn color_spec(self) -> Color {
        match self {
            Concrete::White => Color { r: 209, g: 215, b: 216 },
            Concrete::Orange => Color { r: 226, g: 97, b: 0 },
            Concrete::Magenta => Color { r: 170, g: 45, b: 160 },
            Concrete::LightBlue => Color { r: 31, g: 139, b: 201 },
            Concrete::Yellow => Color { r: 241, g: 176, b: 13 },
            Concrete::Lime => Color { r: 95, g: 171, b: 19 },
            Concrete::Pink => Color { r: 215, g: 101, b: 144 },
            Concrete::Gray => Color { r: 52, g: 56, b: 60 },
            Concrete::LightGray => Color { r: 126, g: 126, b: 116 },
            Concrete::Cyan => Color { r: 13, g: 120, b: 137 },
            Concrete::Purple => Color { r: 101, g: 26, b: 158 },
            Concrete::Blue => Color { r: 41, g: 43, b: 145 },
            Concrete::Brown => Color { r: 96, g: 57, b: 25 },
            Concrete::Green => Color { r: 72, g: 91, b: 31 },
            Concrete::Red => Color { r: 142, g: 26, b: 26 },
            Concrete::Black => Color { r: 2, g: 3, b: 7 },
        }
    }

    /// The colour that the block shows.
    pub fn color(self) -> (c: Color)
        ensures
            c == self.color_spec(),
    {
        match self {
            Concrete::White => Color { r: 209, g: 215, b: 216 },
            Concrete::Orange => Color { r: 226, g: 97, b: 0 },
            Concrete::Magenta => Color { r: 170, g: 45, b: 160 },
            Concrete::LightBlue => Color { r: 31, g: 139, b: 201 },
            Concrete::Yellow => Color { r: 241, g: 176, b: 13 },
            Concrete::Lime => Color { r: 95, g: 171, b: 19 },
            Concrete::Pink => Color { r: 215, g: 101, b: 144 },
            Concrete::Gray => Color { r: 52, g: 56, b: 60 },
            Concrete::LightGray => Color { r: 126, g: 126, b: 116 },
            Concrete::Cyan => Color { r: 13, g: 120, b: 137 },
            Concrete::Purple => Color { r: 101, g: 26, b: 158 },
            Concrete::Blue => Color { r: 41, g: 43, b: 145 },
            Concrete::Brown => Color { r: 96, g: 57, b: 25 },
            Concrete::Green => Color { r: 72, g: 91, b: 31 },
            Concrete::Red => Color { r: 142, g: 26, b: 26 },
            Concrete::Black => Color { r: 2, g: 3, b: 7 },
        }
    }

    /// The palette entry at `index`.
    pub fn at(index: usize) -> (c: Concrete)
        requires
            index < PALETTE_LEN,
        ensures
            c == palette_entry(index as int),
    {
        if index == 0 {
            Concrete::White
        } else if index == 1 {
            Concrete::Orange
        } else if index == 2 {
            Concrete::Magenta
        } else if index == 3 {
            Concrete::LightBlue
        } else if index == 4 {
            Concrete::Yellow
        } else if index == 5 {
            Concrete::Lime
        } else if index == 6 {
            Concrete::Pink
        } else if index == 7 {
            Concrete::Gray
        } else if index == 8 {
            Concrete::LightGray
        } else if index == 9 {
            Concrete::Cyan
        } else if index == 10 {
            Concrete::Purple
        } else if index == 11 {
            Concrete::Blue
        } else if index == 12 {
            Concrete::Brown
        } else if index == 13 {
            Concrete::Green
        } else if index == 14 {
            Concrete::Red
        } else {
            Concrete::Black
        }
    }
}

impl Color {
    /// The distance between two colours: the sum of the gaps of their three
    /// channels.
    pub open spec fn dist_spec(self, other: Color) -> int {
        channel_gap(self.r, other.r) + channel_gap(self.g, other.g) + channel_gap(
            self.b,
            other.b,
        )
    }

    /// The distance between two colours.
    pub fn dist(&self, color: Color) -> (d: u32)
        ensures
            d as int == self.dist_spec(color),
    {
        let r: u32 = if self.r >= color.r {
            (self.r - color.r) as u32
        } else {
            (color.r - self.r) as u32
        };
        let g: u32 = if self.g >= color.g {
            (self.g - color.g) as u32
        } else {
            (color.g - self.g) as u32
        };
        let b: u32 = if self.b >= color.b {
            (self.b - color.b) as u32
        } else {
            (color.b - self.b) as u32
        };
        r + g + b
    }

    /// Whether palette entry `index` is the nearest to this colour: no entry
    /// is nearer, and every earlier entry is farther.
    pub open spec fn nearest_is(self, index: int) -> bool {
        &&& 0 <= index < PALETTE_LEN as int
        &&& forall|j: int|
            0 <= j < PALETTE_LEN as int ==> palette_entry(index).color_spec().dist_spec(self)
                <= #[trigger] palette_entry(j).color_spec().dist_spec(self)
        &&& forall|j: int|
            0 <= j < index ==> palette_entry(index).color_spec().dist_spec(self)
                < #[trigger] palette_entry(j).color_spec().dist_spec(self)
    }

    /// The index of the palette entry nearest to this colour.
    pub open spec fn nearest_index(self) -> int {
        choose|k: int| self.nearest_is(k)
    }

    /// The concrete nearest to this colour.
    pub open spec fn nearest(self) -> Concrete {
        palette_entry(self.nearest_index())
    }

    /// Only one palette entry is the nearest.
    pub proof fn lemma_nearest_unique(self, k: int)
        requires
            self.nearest_is(k),
        ensures
            self.nearest_index() == k,
    {
        let c = self.nearest_index();
        if c < k {
            assert(palette_entry(k).color_spec().dist_spec(self) < palette_entry(
                c,
            ).color_spec().dist_spec(self));
            assert(palette_entry(c).color_spec().dist_spec(self) <= palette_entry(
                k,
            ).color_spec().dist_spec(self));
        } else if k < c {
            assert(palette_entry(c).color_spec().dist_spec(self) < palette_entry(
                k,
            ).color_spec().dist_spec(self));
            assert(palette_entry(k).color_spec().dist_spec(self) <= palette_entry(
                c,
            ).color_spec().dist_spec(self));
        }
    }

    /// The palette entry nearest to this colour; among equally near entries
    /// the first in palette order.
    pub fn to_block_color(self) -> (nearest: BlockColor)
        ensures
            nearest.wf(),
            self.nearest_is(self.nearest_index()),
            nearest.block_spec() == self.nearest(),
    {
        let mut best: usize = 0;
        let mut best_dist: u32 = Concrete::at(0).color().dist(self);
        let mut i: usize = 1;
        while i < PALETTE_LEN
            invariant
                1 <= i <= PALETTE_LEN,
                best < i,
                best_dist as int == palette_entry(best as int).color_spec().dist_spec(self),
                forall|j: int|
                    0 <= j < i ==> best_dist as int <= #[trigger] palette_entry(
                        j,
                    ).color_spec().dist_spec(self),
                forall|j: int|
                    0 <= j < best ==> (best_dist as int) < #[trigger] palette_entry(
                        j,
                    ).color_spec().dist_spec(self),
            decreases PALETTE_LEN - i,
        {
            let d: u32 = Concrete::at(i).color().dist(self);
            if d < best_dist {
                best = i;
                best_dist = d;
            }
            i += 1;
        }
        proof {
            self.lemma_nearest_unique(best as int);
        }
        let concrete = Concrete::at(best);
        BlockColor { concrete, color: concrete.color() }
    }
}

impl BlockColor {
    /// An entry shows the colour of its block.
    pub open spec fn wf(self) -> bool {
        self.color_spec() == self.block_spec().color_spec()
    }

    /// The concrete block of the entry.
    pub closed spec fn block_spec(self) -> Concrete {
        self.concrete
    }

    /// The colour of the entry.
    pub closed spec fn color_spec(self) -> Color {
        self.color
    }

    /// The block to place for this entry.
    pub fn block(&self) -> (c: Concrete)
        ensures
            c == self.block_spec(),
    {
        self.concrete
    }

    /// The item to carry for this entry: the same concrete, held.
    pub fn item(&self) -> (c: Concrete)
        ensures
            c == self.block_spec(),
    {
        self.concrete
    }

    /// The colour that the entry shows.
    pub fn color(&self) -> (c: Color)
        ensures
            c == self.color_spec(),
    {
        self.color
    }
}

impl From<(u8, u8, u8)> for Color {
    fn from(rgb: (u8, u8, u8)) -> (c: Color) {
        Color { r: rgb.0, g: rgb.1, b: rgb.2 }
    }
}

impl vstd::std_specs::convert::FromSpecImpl<(u8, u8, u8)> for Color {
    open spec fn obeys_from_spec() -> bool {
        true
    }

    open spec fn from_spec(rgb: (u8, u8, u8)) -> Color {
        Color { r: rgb.0, g: rgb.1, b: rgb.2 }
    }
}

impl From<[u8; 3]> for Color {
    fn from(value: [u8; 3]) -> (c: Color) {
        Color { r: value[0], g: value[1], b: value[2] }
    }
}

impl vstd::std_specs::convert::FromSpecImpl<[u8; 3]> for Color {
    open spec fn obeys_from_spec() -> bool {
        true
    }

    open spec fn from_spec(value: [u8; 3]) -> Color {
        Color { r: value[0], g: value[1], b: value[2] }
    }
}

/// The number of combo colours used where a beatmap names none.
pub const DEFAULT_COMBO_COLOR_COUNT: usize = 4;

/// The combo colours used where a beatmap names none, in order.
pub open spec fn default_combo_colors() -> Seq<Color> {
    seq![
        Color { r: 255, g: 192, b: 0 },
        Color { r: 0, g: 202, b: 0 },
        Color { r: 18, g: 124, b: 255 },
        Color { r: 242, g: 24, b: 57 },
    ]
}

/// The combo colours used where a beatmap names none.
pub fn default_combo_color_list() -> (colors: Vec<Color>)
    ensures
        colors@ == default_combo_colors(),
{
    let mut colors: Vec<Color> = Vec::new();
    colors.push(Color { r: 255, g: 192, b: 0 });
    colors.push(Color { r: 0, g: 202, b: 0 });
    colors.push(Color { r: 18, g: 124, b: 255 });
    colors.push(Color { r: 242, g: 24, b: 57 });
    assert(colors@ =~= default_combo_colors());
    colors
}

} // verus!
