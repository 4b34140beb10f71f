use osucraft::color::{default_combo_color_list, Color, Concrete};

#[test]
fn color_to_block_conversion() {
    let pink = Color {
        r: 233,
        g: 102,
        b: 161,
    };
    let block_color = pink.to_block_color();
    assert_eq!(block_color.block(), Concrete::Pink);
    assert_eq!(block_color.item(), Concrete::Pink);

    let blue = Color {
        r: 63,
        g: 140,
        b: 240,
    };
    let block_color = blue.to_block_color();
    assert_eq!(block_color.block(), Concrete::LightBlue);
    assert_eq!(block_color.item(), Concrete::LightBlue);

    let yellow = Color {
        r: 191,
        g: 152,
        b: 38,
    };
    let block_color = yellow.to_block_color();
    assert_eq!(block_color.block(), Concrete::Yellow);
    assert_eq!(block_color.item(), Concrete::Yellow);
}

#[test]
fn color_distance_sums_the_channel_gaps() {
    let a = Color { r: 10, g: 200, b: 0 };
    let b = Color { r: 30, g: 100, b: 255 };
    assert_eq!(a.dist(b), 20 + 100 + 255);
    assert_eq!(b.dist(a), 375);
    assert_eq!(a.dist(a), 0);
}

#[test]
fn palette_colours_map_to_themselves() {
    for index in 0..16 {
        let concrete = Concrete::at(index);
        let block_color = concrete.color().to_block_color();
        assert_eq!(block_color.block(), concrete);
        assert_eq!(block_color.color(), concrete.color());
    }
    assert_eq!(Concrete::at(0), Concrete::White);
    assert_eq!(Concrete::at(15), Concrete::Black);
}

#[test]
fn the_nearest_entry_is_the_first_of_the_nearest() {
    for r in (0..=255).step_by(15) {
        for g in (0..=255).step_by(17) {
            for b in (0..=255).step_by(51) {
                let color = Color {
                    r: r as u8,
                    g: g as u8,
                    b: b as u8,
                };
                let best = (0..16)
                    .map(|index| Concrete::at(index).color().dist(color))
                    .min()
                    .unwrap();
                let first = (0..16)
                    .find(|&index| Concrete::at(index).color().dist(color) == best)
                    .unwrap();
                assert_eq!(color.to_block_color().block(), Concrete::at(first));
            }
        }
    }
}

#[test]
fn equally_near_entries() {
    // 66 from gray (52, 56, 60) and 66 from black (2, 3, 7) ... the first wins
    let gray = Concrete::Gray.color();
    let black = Concrete::Black.color();
    let between = Color {
        r: 27,
        g: 29,
        b: 34,
    };
    assert_eq!(between.dist(gray), 25 + 27 + 26);
    assert_eq!(between.dist(black), 25 + 26 + 27);
    assert_eq!(between.to_block_color().block(), Concrete::Gray);
}

#[test]
fn colors_from_tuples_and_arrays() {
    assert_eq!(Color::from((1, 2, 3)), Color { r: 1, g: 2, b: 3 });
    assert_eq!(Color::from([4, 5, 6]), Color { r: 4, g: 5, b: 6 });
}

#[test]
fn default_combo_colours() {
    let colors = default_combo_color_list();
    assert_eq!(colors.len(), 4);
    assert_eq!(colors[0], Color { r: 255, g: 192, b: 0 });
    assert_eq!(colors[3], Color { r: 242, g: 24, b: 57 });
}
