use osucraft::digit::{digits_of, has_block, DigitWriter, DigitsIter, TextPosition};
use osucraft::minecraft::BlockPos;

#[test]
fn digits_iter() {
    assert_eq!(DigitsIter::new(0).collect(), vec![0]);
    assert_eq!(DigitsIter::new(9).collect(), vec![9]);
    assert_eq!(DigitsIter::new(10).collect(), vec![1, 0]);
    assert_eq!(DigitsIter::new(666).collect(), vec![6, 6, 6]);
    assert_eq!(DigitsIter::new(1000).collect(), vec![1, 0, 0, 0]);
}

#[test]
fn digits_count() {
    assert_eq!(DigitsIter::new(0).len(), 1);
    assert_eq!(DigitsIter::new(99).len(), 2);
    assert_eq!(DigitsIter::new(100).len(), 3);
    assert_eq!(digits_of(4_294_967_295), vec![4, 2, 9, 4, 9, 6, 7, 2, 9, 5]);
}

#[test]
fn digit_masks_are_mirrored() {
    // the four has its lone stroke on the right, which is x = 0 from behind
    assert!(has_block(4, 0, 0));
    assert!(!has_block(4, 1, 0));
    assert!(!has_block(4, 2, 0));
    assert!(has_block(4, 2, 4));
    assert!(has_block(4, 1, 2));
    // the one is a column in the middle
    for y in 0..5 {
        assert!(!has_block(1, 0, y));
        assert!(has_block(1, 1, y));
        assert!(!has_block(1, 2, y));
    }
    // the seven has a full top row only
    assert!(has_block(7, 2, 4));
    assert!(!has_block(7, 2, 3));
    let filled = |digit| {
        (0..5)
            .flat_map(|y| (0..3).map(move |x| (x, y)))
            .filter(|&(x, y)| has_block(digit, x, y))
            .count()
    };
    assert_eq!(filled(8), 13);
    assert_eq!(filled(0), 12);
    assert_eq!(filled(1), 5);
}

#[test]
fn one_digit_at_scale_one() {
    let writer = DigitWriter {
        scale: 1,
        position: TextPosition::Right,
    };
    let origin = BlockPos { x: 10, y: 20, z: 3 };
    let blocks = writer.iter_block_positions(1, origin);
    assert_eq!(blocks.len(), 1);
    let expected: Vec<BlockPos> = (0..5)
        .map(|y| BlockPos {
            x: 11,
            y: 20 + y,
            z: 3,
        })
        .collect();
    assert_eq!(blocks[0], expected);
}

#[test]
fn digits_follow_each_other_towards_negative_x() {
    let writer = DigitWriter {
        scale: 2,
        position: TextPosition::Right,
    };
    let origin = BlockPos { x: 0, y: 0, z: 0 };
    let blocks = writer.iter_block_positions(71, origin);
    assert_eq!(blocks.len(), 2);
    // the seven: 7 cells of 4 blocks each, from x = 0
    assert_eq!(blocks[0].len(), 28);
    assert!(blocks[0].iter().all(|block| (0..6).contains(&block.x)));
    // the one: 5 cells of 4 blocks, one digit and one gap (8 blocks) further
    assert_eq!(blocks[1].len(), 20);
    assert!(blocks[1].iter().all(|block| block.x == -6 || block.x == -5));
    assert_eq!(blocks[1][0], BlockPos { x: -6, y: 0, z: 0 });
    assert_eq!(blocks[1][1], BlockPos { x: -6, y: 1, z: 0 });
    assert_eq!(blocks[1][2], BlockPos { x: -5, y: 0, z: 0 });
}

#[test]
fn centred_and_left_numbers() {
    let origin = BlockPos { x: 100, y: 50, z: 7 };
    let centre = DigitWriter {
        scale: 1,
        position: TextPosition::Center,
    };
    let blocks = centre.iter_block_positions(300, origin);
    assert_eq!(blocks.len(), 3);
    // offset x: (4 * 2) / 2 - 1 = 3, offset y: -5 / 2 - 1 = -3
    let xs: Vec<i32> = blocks
        .iter()
        .map(|digit| digit.iter().map(|block| block.x).min().unwrap())
        .collect();
    assert_eq!(xs, vec![103, 99, 95]);
    assert!(blocks
        .iter()
        .flatten()
        .all(|block| (47..52).contains(&block.y) && block.z == 7));
    let left = DigitWriter {
        scale: 1,
        position: TextPosition::Left,
    };
    let blocks = left.iter_block_positions(10, origin);
    // offset x: 3 * 2 + 1 = 7
    assert_eq!(blocks[0][0], BlockPos { x: 108, y: 50, z: 7 });
    assert_eq!(blocks[1][0], BlockPos { x: 103, y: 50, z: 7 });
}
