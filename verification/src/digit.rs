//! Numbers written in blocks: three blocks wide and five high per digit, at
//! any whole scale.

use vstd::prelude::*;
use crate::minecraft::BlockPos;

verus! {

/// The width of a digit at scale 1, in blocks.
pub const DIGIT_WIDTH: usize = 3;

/// The height of a digit at scale 1, in blocks.
pub const DIGIT_HEIGHT: usize = 5;

/// The largest scale at which digits are written.
pub const MAX_DIGIT_SCALE: usize = 0x80_0000;

/// How far from the world's centre a number may be written, along each axis.
pub const MAX_DIGIT_ORIGIN: i32 = 0x2000_0000;

/// Where a number stands with respect to its origin.
#[derive(Clone, Copy, Debug, PartialEq, Eq, Structural)]
pub enum TextPosition {
    Right,
    Center,
    Left,
}

/// Writes numbers in blocks.
#[derive(Clone, Copy, Debug)]
pub struct DigitWriter {
    pub scale: usize,
    pub position: TextPosition,
}

/// The digits of a number, most significant first.
#[derive(Clone, Copy, Debug)]
pub struct DigitsIter {
    number: usize,
}

/// The digits of `n` in base ten, most significant first.
pub open spec fn decimal_digits(n: nat) -> Seq<u8>
    decreases n,
{
    if n < 10 {
        seq![n as u8]
    } else {
        decimal_digits(n / 10).push((n % 10) as u8)
    }
}

/// A number below `2^64` has at most twenty digits, each below ten.
pub proof fn lemma_decimal_digits(n: nat)
    ensures
        1 <= decimal_digits(n).len(),
        n <= u64::MAX ==> decimal_digits(n).len() <= 20,
        forall|i: int| 0 <= i < decimal_digits(n).len() ==> #[trigger] decimal_digits(n)[i] < 10,
{
    lemma_decimal_digits_len(n, 20);
    lemma_decimal_digits_small(n);
}

/// Every digit is below ten.
proof fn lemma_decimal_digits_small(n: nat)
    ensures
        1 <= decimal_digits(n).len(),
        forall|i: int| 0 <= i < decimal_digits(n).len() ==> #[trigger] decimal_digits(n)[i] < 10,
    decreases n,
{
    if n >= 10 {
        lemma_decimal_digits_small(n / 10);
    }
}

/// Ten to the power of `e`.
pub open spec fn pow10(e: nat) -> nat
    decreases e,
{
    if e == 0 {
        1
    } else {
        10 * pow10((e - 1) as nat)
    }
}

/// A number below ten to the `k` has at most `k` digits.
proof fn lemma_decimal_digits_len(n: nat, k: nat)
    requires
        k >= 1,
    ensures
        n < pow10(k) ==> decimal_digits(n).len() <= k,
        n <= u64::MAX && k == 20 ==> decimal_digits(n).len() <= k,
    decreases k,
{
    if k == 20 {
        reveal_with_fuel(pow10, 21);
        assert(pow10(20) == 100_000_000_000_000_000_000);
    }
    if n >= 10 && k >= 2 {
        lemma_decimal_digits_len(n / 10, (k - 1) as nat);
        if n < pow10(k) {
            assert(n / 10 < pow10((k - 1) as nat));
        }
    } else if n >= 10 {
        assert(pow10(1) == 10) by {
            reveal_with_fuel(pow10, 2);
        }
    }
}

/// The digits of `number`, most significant first.
pub fn digits_of(number: usize) -> (digits: Vec<u8>)
    ensures
        digits@ == decimal_digits(number as nat),
        1 <= digits@.len() <= 20,
    decreases number,
{
    proof {
        lemma_decimal_digits(number as nat);
    }
    if number < 10 {
        let mut digits: Vec<u8> = Vec::new();
        digits.push(number as u8);
        assert(digits@ =~= decimal_digits(number as nat));
        digits
    } else {
        let mut digits = digits_of(number / 10);
        digits.push((number % 10) as u8);
        digits
    }
}

impl DigitsIter {
    /// The digits of `number`.
    pub fn new(number: usize) -> (iter: DigitsIter)
        ensures
            iter.remaining() == decimal_digits(number as nat),
    {
        DigitsIter { number }
    }

    /// The digits that are left.
    pub closed spec fn remaining(&self) -> Seq<u8> {
        decimal_digits(self.number as nat)
    }

    /// The number of digits.
    pub fn len(&self) -> (len: u8)
        ensures
            len == self.remaining().len(),
    {
        proof {
            lemma_decimal_digits(self.number as nat);
        }
        digits_of(self.number).len() as u8
    }

    /// All digits, most significant first.
    pub fn collect(self) -> (digits: Vec<u8>)
        ensures
            digits@ == self.remaining(),
    {
        digits_of(self.number)
    }
}

/// The three cells of row `row` of `digit`, from the left; rows count from
/// the top.
pub open spec fn mask_row(digit: u8, row: int) -> (bool, bool, bool) {
    if digit == 0 {
        if row == 0 || row == 4 {
            (true, true, true)
        } else {
            (true, false, true)
        }
    } else if digit == 1 {
        (false, true, false)
    } else if digit == 2 {
        if row == 1 {
            (false, false, true)
        } else if row == 3 {
            (true, false, false)
        } else {
            (true, true, true)
        }
    } else if digit == 3 {
        if row == 1 || row == 3 {
            (false, false, true)
        } else if row == 2 {
            (false, true, true)
        } else {
            (true, true, true)
        }
    } else if digit == 4 {
        if row == 0 || row == 1 {
            (true, false, true)
        } else if row == 2 {
            (true, true, true)
        } else {
            (false, false, true)
        }
    } else if digit == 5 {
        if row == 1 {
            (true, false, false)
        } else if row == 3 {
            (false, false, true)
        } else {
            (true, true, true)
        }
    } else if digit == 6 {
        if row == 1 {
            (true, false, false)
        } else if row == 3 {
            (true, false, true)
        } else {
            (true, true, true)
        }
    } else if digit == 7 {
        if row == 0 {
            (true, true, true)
        } else {
            (false, false, true)
        }
    } else if digit == 8 {
        if row == 1 || row == 3 {
            (true, false, true)
        } else {
            (true, true, true)
        }
    } else {
        if row == 1 {
            (true, false, true)
        } else if row == 3 {
            (false, false, true)
        } else {
            (true, true, true)
        }
    }
}

/// Whether `digit` fills the cell `x` cells from its right edge and `y` cells
/// above its bottom row. Digits are mirrored: they are read from behind the
/// wall.
pub open spec fn has_block_spec(digit: u8, x: int, y: int) -> bool {
    let row = mask_row(digit, DIGIT_HEIGHT - y - 1);
    let column = DIGIT_WIDTH - x - 1;
    if column == 0 {
        row.0
    } else if column == 1 {
        row.1
    } else {
        row.2
    }
}

/// Executable form of [`mask_row`].
fn mask_row_of(digit: u8, row: usize) -> (cells: (bool, bool, bool))
    ensures
        cells == mask_row(digit, row as int),
{
    if digit == 0 {
        if row == 0 || row == 4 {
            (true, true, true)
        } else {
            (true, false, true)
        }
    } else if digit == 1 {
        (false, true, false)
    } else if digit == 2 {
        if row == 1 {
            (false, false, true)
        } else if row == 3 {
            (true, false, false)
        } else {
            (true, true, true)
        }
    } else if digit == 3 {
        if row == 1 || row == 3 {
            (false, false, true)
        } else if row == 2 {
            (false, true, true)
        } else {
            (true, true, true)
        }
    } else if digit == 4 {
        if row == 0 || row == 1 {
            (true, false, true)
        } else if row == 2 {
            (true, true, true)
        } else {
            (false, false, true)
        }
    } else if digit == 5 {
        if row == 1 {
            (true, false, false)
        } else if row == 3 {
            (false, false, true)
        } else {
            (true, true, true)
        }
    } else if digit == 6 {
        if row == 1 {
            (true, false, false)
        } else if row == 3 {
            (true, false, true)
        } else {
            (true, true, true)
        }
    } else if digit == 7 {
        if row == 0 {
            (true, true, true)
        } else {
            (false, false, true)
        }
    } else if digit == 8 {
        if row == 1 || row == 3 {
            (true, false, true)
        } else {
            (true, true, true)
        }
    } else {
        if row == 1 {
            (true, false, true)
        } else if row == 3 {
            (false, false, true)
        } else {
            (true, true, true)
        }
    }
}

/// Whether `digit` fills the cell (`x`, `y`).
pub fn has_block(digit: usize, x: usize, y: usize) -> (filled: bool)
    requires
        digit < 10,
        x < DIGIT_WIDTH,
        y < DIGIT_HEIGHT,
    ensures
        filled == has_block_spec(digit as u8, x as int, y as int),
{
    let row = mask_row_of(digit as u8, DIGIT_HEIGHT - y - 1);
    let column: usize = DIGIT_WIDTH - x - 1;
    if column == 0 {
        row.0
    } else if column == 1 {
        row.1
    } else {
        row.2
    }
}

/// The blocks of the cell (`x`, `y`) of a digit with its bottom left block at
/// `origin`: a square of `scale` by `scale` blocks, column by column.
pub open spec fn cell_blocks(x: int, y: int, scale: int, origin: BlockPos) -> Seq<BlockPos> {
    Seq::new(
        (scale * scale) as nat,
        |k: int|
            BlockPos {
                x: (x * scale + k / scale + origin.x) as i32,
                y: (y * scale + k % scale + origin.y) as i32,
                z: origin.z,
            },
    )
}

/// The blocks of the cells of `digit` from cell `cell` on. Cells count row by
/// row from the bottom, and from the right within a row.
pub open spec fn digit_blocks_from(digit: u8, scale: int, origin: BlockPos, cell: int) -> Seq<
    BlockPos,
>
    decreases DIGIT_WIDTH * DIGIT_HEIGHT - cell,
{
    if cell < 0 || cell >= DIGIT_WIDTH * DIGIT_HEIGHT {
        Seq::empty()
    } else {
        let x = cell % DIGIT_WIDTH as int;
        let y = cell / DIGIT_WIDTH as int;
        let here = if has_block_spec(digit, x, y) {
            cell_blocks(x, y, scale, origin)
        } else {
            Seq::empty()
        };
        here + digit_blocks_from(digit, scale, origin, cell + 1)
    }
}

/// The blocks of `digit` with its bottom left block at `origin`.
pub open spec fn digit_blocks(digit: u8, scale: int, origin: BlockPos) -> Seq<BlockPos> {
    digit_blocks_from(digit, scale, origin, 0)
}

impl DigitWriter {
    /// The writer's scale and the origin are within the limits for writing.
    pub open spec fn can_write_at(&self, origin: BlockPos) -> bool {
        &&& self.scale <= MAX_DIGIT_SCALE
        &&& -MAX_DIGIT_ORIGIN <= origin.x <= MAX_DIGIT_ORIGIN
        &&& -MAX_DIGIT_ORIGIN <= origin.y <= MAX_DIGIT_ORIGIN
    }

    /// The gap between two digits, and the width and height of a digit.
    pub open spec fn measures(&self) -> (int, int, int) {
        (self.scale as int, DIGIT_WIDTH * self.scale, DIGIT_HEIGHT * self.scale)
    }

    /// How far the first digit of a number of `digits` digits is moved from
    /// the origin, along x and y.
    pub open spec fn position_offset(&self, digits: int) -> (int, int) {
        let (spacing, width, height) = self.measures();
        match self.position {
            TextPosition::Right => (0, 0),
            TextPosition::Center => (
                crate::osu::truncated((width + spacing) * (digits - 1), 2) - 1,
                crate::osu::truncated(-height, 2) - 1,
            ),
            TextPosition::Left => (width * digits + spacing * (digits - 1), 0),
        }
    }

    /// The bottom left block of digit `i` of a number of `digits` digits
    /// written at `origin`. Digits follow each other towards negative x.
    pub open spec fn digit_origin(&self, digits: int, i: int, origin: BlockPos) -> BlockPos {
        let (spacing, width, height) = self.measures();
        let offset = self.position_offset(digits);
        BlockPos {
            x: (i * -(width + spacing) + offset.0 + origin.x) as i32,
            y: (offset.1 + origin.y) as i32,
            z: origin.z,
        }
    }

    /// Whether `blocks` holds the blocks of `number` written at `origin`: for
    /// each digit, most significant first, the blocks of that digit.
    pub open spec fn writes(
        &self,
        number: nat,
        origin: BlockPos,
        blocks: Seq<Vec<BlockPos>>,
    ) -> bool {
        let digits = decimal_digits(number);
        &&& blocks.len() == digits.len()
        &&& forall|i: int|
            0 <= i < blocks.len() ==> (#[trigger] blocks[i])@ == digit_blocks(
                digits[i],
                self.scale as int,
                self.digit_origin(digits.len() as int, i, origin),
            )
    }

    /// The blocks of one digit with its bottom left block at `origin`.
    fn iter_digit_block_positions(&self, digit: u8, origin: BlockPos) -> (blocks: Vec<BlockPos>)
        requires
            digit < 10,
            self.scale <= MAX_DIGIT_SCALE,
            -0x6000_0000 <= origin.x <= 0x6000_0000,
            -0x6000_0000 <= origin.y <= 0x6000_0000,
        ensures
            blocks@ == digit_blocks(digit, self.scale as int, origin),
    {
        let scale: usize = self.scale;
        let mut blocks: Vec<BlockPos> = Vec::new();
        let mut cell: usize = 0;
        assert(blocks@ + digit_blocks_from(digit, scale as int, origin, 0) =~= digit_blocks(
            digit,
            scale as int,
            origin,
        ));
        while cell < DIGIT_WIDTH * DIGIT_HEIGHT
            invariant
                cell <= DIGIT_WIDTH * DIGIT_HEIGHT,
                digit < 10,
                scale == self.scale,
                scale <= MAX_DIGIT_SCALE,
                -0x6000_0000 <= origin.x <= 0x6000_0000,
                -0x6000_0000 <= origin.y <= 0x6000_0000,
                blocks@ + digit_blocks_from(digit, scale as int, origin, cell as int)
                    == digit_blocks(digit, scale as int, origin),
            decreases DIGIT_WIDTH * DIGIT_HEIGHT - cell,
        {
            let x: usize = cell % DIGIT_WIDTH;
            let y: usize = cell / DIGIT_WIDTH;
            let ghost before = blocks@;
            if has_block(digit as usize, x, y) {
                let mut x_offset: usize = 0;
                while x_offset < scale
                    invariant
                        x_offset <= scale <= MAX_DIGIT_SCALE,
                        x < DIGIT_WIDTH,
                        y < DIGIT_HEIGHT,
                        -0x6000_0000 <= origin.x <= 0x6000_0000,
                        -0x6000_0000 <= origin.y <= 0x6000_0000,
                        blocks@.len() == before.len() + x_offset * scale,
                        forall|k: int| 0 <= k < before.len() ==> #[trigger] blocks@[k] == before[k],
                        forall|k: int|
                            before.len() <= k < blocks@.len() ==> #[trigger] blocks@[k]
                                == cell_blocks(x as int, y as int, scale as int, origin)[k
                                - before.len()],
                    decreases scale - x_offset,
                {
                    let ghost column_start = blocks@;
                    let mut y_offset: usize = 0;
                    assert(x_offset * scale + scale == (x_offset + 1) * scale
                        && (x_offset + 1) * scale <= scale * scale && x_offset * scale >= 0)
                        by (nonlinear_arith)
                        requires
                            0 <= x_offset < scale,
                    ;
                    while y_offset < scale
                        invariant
                            y_offset <= scale <= MAX_DIGIT_SCALE,
                            x_offset < scale,
                            x < DIGIT_WIDTH,
                            y < DIGIT_HEIGHT,
                            -0x6000_0000 <= origin.x <= 0x6000_0000,
                            -0x6000_0000 <= origin.y <= 0x6000_0000,
                            column_start.len() == before.len() + x_offset * scale,
                            (x_offset + 1) * scale <= scale * scale,
                            blocks@.len() == column_start.len() + y_offset,
                            forall|k: int|
                                0 <= k < before.len() ==> #[trigger] blocks@[k] == before[k],
                            forall|k: int|
                                before.len() <= k < blocks@.len() ==> #[trigger] blocks@[k]
                                    == cell_blocks(x as int, y as int, scale as int, origin)[k
                                    - before.len()],
                        decreases scale - y_offset,
                    {
                        let ghost index: int = x_offset * scale + y_offset;
                        assert(index / (scale as int) == x_offset && index % (scale as int)
                            == y_offset && 0 <= index < scale * scale) by (nonlinear_arith)
                            requires
                                index == x_offset * scale + y_offset,
                                0 <= y_offset < scale,
                                0 <= x_offset < scale,
                        ;
                        let ghost start = blocks@.len();
                        assert(start - before.len() == index);
                        assert(x * scale <= 2 * MAX_DIGIT_SCALE && y * scale <= 4
                            * MAX_DIGIT_SCALE) by (nonlinear_arith)
                            requires
                                x <= 2,
                                y <= 4,
                                scale <= MAX_DIGIT_SCALE,
                        ;
                        blocks.push(
                            BlockPos {
                                x: ((x * scale + x_offset) as i64 + origin.x as i64) as i32,
                                y: ((y * scale + y_offset) as i64 + origin.y as i64) as i32,
                                z: origin.z,
                            },
                        );
                        assert(blocks@[start as int] == cell_blocks(
                            x as int,
                            y as int,
                            scale as int,
                            origin,
                        )[index]);
                        y_offset += 1;
                    }
                    x_offset += 1;
                }
                assert(blocks@ =~= before + cell_blocks(
                    x as int,
                    y as int,
                    scale as int,
                    origin,
                ));
            }
            assert(blocks@ + digit_blocks_from(digit, scale as int, origin, cell + 1) =~= before
                + digit_blocks_from(digit, scale as int, origin, cell as int));
            cell += 1;
        }
        assert(blocks@ =~= digit_blocks(digit, scale as int, origin));
        blocks
    }

    /// The blocks that write `number` at `origin`: one list of blocks per
    /// digit, most significant digit first.
    pub fn iter_block_positions(&self, number: usize, origin: BlockPos) -> (blocks: Vec<
        Vec<BlockPos>,
    >)
        requires
            self.can_write_at(origin),
        ensures
            self.writes(number as nat, origin, blocks@),
    {
        let digits = digits_of(number);
        let count: i64 = digits.len() as i64;
        let scale: i64 = self.scale as i64;
        let spacing: i64 = scale;
        let width: i64 = DIGIT_WIDTH as i64 * scale;
        let height: i64 = DIGIT_HEIGHT as i64 * scale;
        assert((width + spacing) * (count - 1) <= 4 * MAX_DIGIT_SCALE * 19 && (width + spacing) * (
        count - 1) >= 0 && width * count <= 3 * MAX_DIGIT_SCALE * 20 && width * count >= 0
            && spacing * (count - 1) <= MAX_DIGIT_SCALE * 19 && spacing * (count - 1) >= 0)
            by (nonlinear_arith)
            requires
                1 <= count <= 20,
                0 <= scale <= MAX_DIGIT_SCALE,
                spacing == scale,
                width == 3 * scale,
        ;
        let offset: (i64, i64) = match self.position {
            TextPosition::Right => (0, 0),
            TextPosition::Center => (
                ((width + spacing) * (count - 1)) / 2 - 1,
                -(height / 2) - 1,
            ),
            TextPosition::Left => (width * count + spacing * (count - 1), 0),
        };
        assert(offset.0 == self.position_offset(count as int).0);
        assert(offset.1 == self.position_offset(count as int).1);
        let mut blocks: Vec<Vec<BlockPos>> = Vec::new();
        let mut i: usize = 0;
        while i < digits.len()
            invariant
                i <= digits@.len(),
                digits@ == decimal_digits(number as nat),
                count == digits@.len(),
                1 <= count <= 20,
                scale == self.scale,
                spacing == scale,
                width == 3 * scale,
                self.can_write_at(origin),
                offset.0 == self.position_offset(count as int).0,
                offset.1 == self.position_offset(count as int).1,
                -0x3000_0000 <= offset.0 <= 0x3000_0000,
                -0x3000_0000 <= offset.1 <= 0x3000_0000,
                blocks@.len() == i,
                forall|k: int|
                    0 <= k < i ==> (#[trigger] blocks@[k])@ == digit_blocks(
                        digits@[k],
                        self.scale as int,
                        self.digit_origin(count as int, k, origin),
                    ),
            decreases digits@.len() - i,
        {
            proof {
                lemma_decimal_digits(number as nat);
            }
            let step: i64 = i as i64;
            assert(step * -(width + spacing) >= -(4 * MAX_DIGIT_SCALE * 19) && step * -(width
                + spacing) <= 0) by (nonlinear_arith)
                requires
                    0 <= step <= 19,
                    0 <= width + spacing <= 4 * MAX_DIGIT_SCALE,
            ;
            let digit_origin = BlockPos {
                x: (step * -(width + spacing) + offset.0 + origin.x as i64) as i32,
                y: (offset.1 + origin.y as i64) as i32,
                z: origin.z,
            };
            let digit_blocks = self.iter_digit_block_positions(digits[i], digit_origin);
            blocks.push(digit_blocks);
            i += 1;
        }
        blocks
    }
}

} // verus!
