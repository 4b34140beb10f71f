//! The graded outcome of resolving one hit object.

use vstd::prelude::*;
use crate::color::Concrete;
use crate::digit::{DigitWriter, TextPosition, MAX_DIGIT_ORIGIN};
use crate::minecraft::BlockPos;

verus! {

/// How well a hit object was hit. `Miss` is also what an object that expires
/// unhit is given.
#[derive(Debug, Copy, Clone, PartialEq, Eq, Structural)]
pub enum HitScore {
    Hit300,
    Hit100,
    Hit50,
    Miss,
}

impl HitScore {
    /// The base score of the judgement: 300, 100, 50, or 0 for a miss.
    pub open spec fn value_spec(self) -> int {
        match self {
            HitScore::Hit300 => 300,
            HitScore::Hit100 => 100,
            HitScore::Hit50 => 50,
            HitScore::Miss => 0,
        }
    }

    /// The base score of the judgement.
    pub fn value(&self) -> (v: u32)
        ensures
            v as int == self.value_spec(),
    {
        match self {
            HitScore::Hit300 => 300,
            HitScore::Hit100 => 100,
            HitScore::Hit50 => 50,
            HitScore::Miss => 0,
        }
    }

    /// Whether the judgement keeps a combo going.
    pub open spec fn is_hit(self) -> bool {
        self != HitScore::Miss
    }
}

/// The ticks for which the number of a judgement stays in the world.
pub const SCORE_NUMBER_TICKS: usize = 5;

/// The number that shows a judgement in the world for a few ticks: 300, 100
/// or 50, or a cross for a miss.
#[derive(Clone, Copy, Debug)]
pub struct HitScoreNumber {
    ticks: usize,
    score: HitScore,
    origin: BlockPos,
}

/// The blocks of the cross that stands for a miss, around `origin`.
pub open spec fn cross_blocks(origin: BlockPos) -> Seq<BlockPos> {
    seq![
        BlockPos { x: (origin.x + 2) as i32, y: (origin.y + 2) as i32, z: origin.z },
        BlockPos { x: (origin.x + 1) as i32, y: (origin.y + 1) as i32, z: origin.z },
        origin,
        BlockPos { x: (origin.x - 1) as i32, y: (origin.y - 1) as i32, z: origin.z },
        BlockPos { x: (origin.x - 2) as i32, y: (origin.y - 2) as i32, z: origin.z },
        BlockPos { x: (origin.x - 2) as i32, y: (origin.y + 2) as i32, z: origin.z },
        BlockPos { x: (origin.x - 1) as i32, y: (origin.y + 1) as i32, z: origin.z },
        BlockPos { x: (origin.x + 1) as i32, y: (origin.y - 1) as i32, z: origin.z },
        BlockPos { x: (origin.x + 2) as i32, y: (origin.y - 2) as i32, z: origin.z },
    ]
}

/// The lists of `lists`, one after the other.
pub open spec fn joined(lists: Seq<Vec<BlockPos>>) -> Seq<BlockPos>
    decreases lists.len(),
{
    if lists.len() == 0 {
        Seq::empty()
    } else {
        joined(lists.drop_last()) + lists.last()@
    }
}

impl HitScoreNumber {
    /// The number stands where numbers can be written.
    #[verifier::type_invariant]
    pub closed spec fn wf(&self) -> bool {
        HitScoreNumber::can_stand_at(self.origin)
    }

    /// Whether a number can stand at `origin`.
    pub open spec fn can_stand_at(origin: BlockPos) -> bool {
        &&& -MAX_DIGIT_ORIGIN <= origin.x <= MAX_DIGIT_ORIGIN
        &&& -MAX_DIGIT_ORIGIN <= origin.y <= MAX_DIGIT_ORIGIN
    }

    /// The ticks that the number has left.
    pub closed spec fn spec_ticks(&self) -> usize {
        self.ticks
    }

    /// The judgement that the number shows.
    pub closed spec fn spec_score(&self) -> HitScore {
        self.score
    }

    /// Where the number stands.
    pub closed spec fn spec_origin(&self) -> BlockPos {
        self.origin
    }

    /// The number of a judgement, to stand at `origin` for `ticks` ticks.
    pub fn new(hit_score: HitScore, origin: BlockPos, ticks: usize) -> (number: HitScoreNumber)
        requires
            HitScoreNumber::can_stand_at(origin),
        ensures
            number.score() == hit_score,
            number.origin() == origin,
            number.ticks() == ticks,
    {
        HitScoreNumber { score: hit_score, ticks, origin }
    }

    /// The ticks that the number has left.
    #[verifier::when_used_as_spec(spec_ticks)]
    pub fn ticks(&self) -> (ticks: usize)
        ensures
            ticks == self.spec_ticks(),
    {
        self.ticks
    }

    /// The judgement that the number shows.
    #[verifier::when_used_as_spec(spec_score)]
    pub fn score(&self) -> (score: HitScore)
        ensures
            score == self.spec_score(),
    {
        self.score
    }

    /// Where the number stands.
    #[verifier::when_used_as_spec(spec_origin)]
    pub fn origin(&self) -> (origin: BlockPos)
        ensures
            origin == self.spec_origin(),
    {
        self.origin
    }

    /// The concrete of a judgement: light blue for a 300, green for a 100,
    /// yellow for a 50 and red for a miss.
    pub open spec fn concrete_of(score: HitScore) -> Concrete {
        match score {
            HitScore::Hit300 => Concrete::LightBlue,
            HitScore::Hit100 => Concrete::Green,
            HitScore::Hit50 => Concrete::Yellow,
            HitScore::Miss => Concrete::Red,
        }
    }

    /// The concrete that the number is made of.
    pub fn block(&self) -> (concrete: Concrete)
        ensures
            concrete == HitScoreNumber::concrete_of(self.score()),
    {
        match self.score {
            HitScore::Hit300 => Concrete::LightBlue,
            HitScore::Hit100 => Concrete::Green,
            HitScore::Hit50 => Concrete::Yellow,
            HitScore::Miss => Concrete::Red,
        }
    }

    /// Whether `blocks` are the blocks of the number: a cross for a miss, and
    /// else the value of the judgement, written at scale 1 and centred.
    pub open spec fn draws(&self, blocks: Seq<BlockPos>) -> bool {
        match self.score() {
            HitScore::Miss => blocks == cross_blocks(self.origin()),
            _ => exists|digits: Seq<Vec<BlockPos>>|
                (DigitWriter { scale: 1, position: TextPosition::Center }).writes(
                    self.score().value_spec() as nat,
                    self.origin(),
                    digits,
                ) && #[trigger] joined(digits) == blocks,
        }
    }

    /// The blocks of the number.
    pub fn draw(&self) -> (blocks: Vec<BlockPos>)
        ensures
            self.draws(blocks@),
    {
        proof {
            use_type_invariant(self);
        }
        let origin = self.origin;
        match self.score {
            HitScore::Miss => {
                let mut blocks: Vec<BlockPos> = Vec::new();
                blocks.push(BlockPos { x: origin.x + 2, y: origin.y + 2, z: origin.z });
                blocks.push(BlockPos { x: origin.x + 1, y: origin.y + 1, z: origin.z });
                blocks.push(origin);
                blocks.push(BlockPos { x: origin.x - 1, y: origin.y - 1, z: origin.z });
                blocks.push(BlockPos { x: origin.x - 2, y: origin.y - 2, z: origin.z });
                blocks.push(BlockPos { x: origin.x - 2, y: origin.y + 2, z: origin.z });
                blocks.push(BlockPos { x: origin.x - 1, y: origin.y + 1, z: origin.z });
                blocks.push(BlockPos { x: origin.x + 1, y: origin.y - 1, z: origin.z });
                blocks.push(BlockPos { x: origin.x + 2, y: origin.y - 2, z: origin.z });
                assert(blocks@ =~= cross_blocks(origin));
                blocks
            },
            _ => {
                let writer = DigitWriter { scale: 1, position: TextPosition::Center };
                let digits = writer.iter_block_positions(self.score.value() as usize, origin);
                let mut blocks: Vec<BlockPos> = Vec::new();
                let mut i: usize = 0;
                assert(digits@.take(0) =~= Seq::<Vec<BlockPos>>::empty());
                while i < digits.len()
                    invariant
                        i <= digits@.len(),
                        blocks@ == joined(digits@.take(i as int)),
                    decreases digits@.len() - i,
                {
                    let digit = &digits[i];
                    let ghost before = blocks@;
                    let mut k: usize = 0;
                    while k < digit.len()
                        invariant
                            k <= digit@.len(),
                            blocks@ == before + digit@.take(k as int),
                        decreases digit@.len() - k,
                    {
                        blocks.push(digit[k]);
                        assert(blocks@ =~= before + digit@.take(k + 1));
                        k += 1;
                    }
                    assert(digit@.take(k as int) =~= digit@);
                    assert(digits@.take(i + 1).drop_last() =~= digits@.take(i as int));
                    assert(digits@.take(i + 1).last() == digits@[i as int]);
                    i += 1;
                }
                assert(digits@.take(i as int) =~= digits@);
                blocks
            },
        }
    }

    /// Lets one tick pass. Returns whether the number's time was up: it is to
    /// leave the world, and stays as it is; else it has one tick less.
    pub fn tick(&mut self) -> (expired: bool)
        ensures
            expired == (old(self).ticks() == 0),
            final(self).score() == old(self).score(),
            final(self).origin() == old(self).origin(),
            final(self).ticks() == if old(self).ticks() == 0 {
                0
            } else {
                old(self).ticks() - 1
            },
    {
        proof {
            use_type_invariant(&*self);
        }
        if self.ticks == 0 {
            true
        } else {
            self.ticks = self.ticks - 1;
            false
        }
    }
}

} // verus!
