use osucraft::beatmap::{
    ApproachRate, Beatmap, BeatmapData, BeatmapState, CircleSize, DecodedBeatmap, Grade,
    HpDrainRate, InvalidBeatmap, OverallDifficulty, FULL_HEALTH, MAX_SCORE_STEP,
};
use osucraft::color::Color;
use osucraft::hit_object::{ComboColour, DecodedHitObject, HitObject, HitObjectParams};
use osucraft::hit_score::HitScore;
use osucraft::minecraft::to_ticks;
use osucraft::osu::Hitwindow;

fn decoded_object(x: &str, y: &str, time: &str, new_combo: bool) -> DecodedHitObject {
    DecodedHitObject {
        x: x.to_string(),
        y: y.to_string(),
        time: time.to_string(),
        new_combo,
        combo_skip_count: 0,
        params: HitObjectParams::Hitcircle,
    }
}

fn decoded_beatmap(objects: Vec<DecodedHitObject>) -> DecodedBeatmap {
    DecodedBeatmap {
        has_metadata: true,
        has_difficulty: true,
        overall_difficulty: Some("8".to_string()),
        circle_size: Some("4.5".to_string()),
        approach_rate: Some("9".to_string()),
        hp_drain_rate: Some("5".to_string()),
        title: Some("Title".to_string()),
        version: None,
        artist: Some("Artist".to_string()),
        hit_objects: objects,
        colours: None,
    }
}

fn data_with(times: &[u32], hp: i32, cs: i32, od: i32) -> BeatmapData {
    BeatmapData {
        od: OverallDifficulty(od),
        ar: ApproachRate(9_000),
        cs: CircleSize(cs),
        hp: HpDrainRate(hp),
        hit_objects: times
            .iter()
            .map(|&time| {
                HitObject::new(
                    0,
                    0,
                    time,
                    1,
                    Color { r: 0, g: 0, b: 0 },
                    HitObjectParams::Hitcircle,
                )
            })
            .collect(),
        audio_path: "audio.mp3".to_string(),
        artist: "Artist".to_string(),
        title: "Title".to_string(),
        difficulty_name: "Hard".to_string(),
    }
}

#[test]
fn od_hitwindow() {
    let hitwindow: Hitwindow = OverallDifficulty(10_000).into();
    assert_eq!(
        hitwindow,
        Hitwindow {
            window_300: 20,
            window_100: 60,
            window_50: 100
        }
    );

    let hitwindow: Hitwindow = OverallDifficulty(5_000).into();
    assert_eq!(
        hitwindow,
        Hitwindow {
            window_300: 50,
            window_100: 100,
            window_50: 150
        }
    );

    let hitwindow: Hitwindow = OverallDifficulty(1_000).into();
    assert_eq!(
        hitwindow,
        Hitwindow {
            window_300: 74,
            window_100: 132,
            window_50: 190
        }
    );
}

#[test]
fn ar_duration() {
    let ar = ApproachRate(10_000);
    let preempt = ar.to_preempt_duration();
    let fade_in = ar.to_fade_in_duration();
    assert_eq!(preempt, 450);
    assert_eq!(fade_in, 300);

    let ar = ApproachRate(5_000);
    let preempt = ar.to_preempt_duration();
    let fade_in = ar.to_fade_in_duration();
    assert_eq!(preempt, 1200);
    assert_eq!(fade_in, 800);

    let ar = ApproachRate(1_000);
    let preempt = ar.to_preempt_duration();
    let fade_in = ar.to_fade_in_duration();
    assert_eq!(preempt, 1680);
    assert_eq!(fade_in, 1120);
}

#[test]
fn beatmap_state_accuracy() {
    let state = BeatmapState {
        hits300: 438,
        hits100: 9,
        hits50: 1,
        misses: 0,
        score: 7_062_746,
        combo: 649,
        ..Default::default()
    };

    let expected_acc = 98.47;
    assert!((state.accuracy() as f64 / 1000.0 - expected_acc).abs() < 0.01);
}

#[test]
fn hit_windows_are_ordered_for_every_difficulty() {
    for od in [-50_000, -1, 0, 1, 2_500, 9_999, 10_000, 29_999, 30_000, 30_001, 2_000_000] {
        let hitwindow: Hitwindow = OverallDifficulty(od).into();
        assert!(hitwindow.window_300 <= hitwindow.window_100);
        assert!(hitwindow.window_100 <= hitwindow.window_50);
    }
}

#[test]
fn hit_windows_never_go_below_zero() {
    let hitwindow: Hitwindow = OverallDifficulty(25_000).into();
    assert_eq!(
        hitwindow,
        Hitwindow {
            window_300: 0,
            window_100: 0,
            window_50: 0
        }
    );
    let hitwindow: Hitwindow = OverallDifficulty(15_000).into();
    assert_eq!(
        hitwindow,
        Hitwindow {
            window_300: 0,
            window_100: 20,
            window_50: 50
        }
    );
}

#[test]
fn hit_windows_round_down() {
    let hitwindow: Hitwindow = OverallDifficulty(8_250).into();
    assert_eq!(
        hitwindow,
        Hitwindow {
            window_300: 30,
            window_100: 74,
            window_50: 117
        }
    );
}

#[test]
fn approach_durations_beyond_the_scale() {
    assert_eq!(ApproachRate(0).to_preempt_duration(), 1800);
    assert_eq!(ApproachRate(0).to_fade_in_duration(), 1200);
    assert_eq!(ApproachRate(13_000).to_preempt_duration(), 0);
    assert_eq!(ApproachRate(13_000).to_fade_in_duration(), 0);
    assert_eq!(ApproachRate(-1_000).to_preempt_duration(), 1920);
    assert_eq!(ApproachRate(9_300).to_preempt_duration(), 555);
    assert_eq!(ApproachRate(9_300).to_fade_in_duration(), 370);
}

#[test]
fn lookahead_is_the_midpoint() {
    assert_eq!(ApproachRate(9_000).to_mc_duration(), 500_000);
    assert_eq!(ApproachRate(9_300).to_mc_duration(), 462_500);
    assert_eq!(ApproachRate(9_000).to_mc_ticks(20), 10);
    assert_eq!(ApproachRate(9_300).to_mc_ticks(20), 10);
    assert_eq!(ApproachRate(5_000).to_mc_ticks(20), 20);
}

#[test]
fn ticks_round_up() {
    assert_eq!(to_ticks(20, 0), 0);
    assert_eq!(to_ticks(20, 1), 1);
    assert_eq!(to_ticks(20, 50), 1);
    assert_eq!(to_ticks(20, 51), 2);
    assert_eq!(to_ticks(20, 120), 3);
    assert_eq!(to_ticks(0, 1000), 0);
    assert_eq!(to_ticks(3, 1000), 3);
    assert_eq!(to_ticks(usize::MAX, u64::MAX), usize::MAX);
}

#[test]
fn health_drain_by_judgement() {
    let hp = HpDrainRate(5_000);
    assert_eq!(hp.drain(50_000, HitScore::Hit300), 55_200);
    assert_eq!(hp.drain(50_000, HitScore::Hit100), 53_000);
    assert_eq!(hp.drain(50_000, HitScore::Hit50), 49_000);
    assert_eq!(hp.drain(50_000, HitScore::Miss), 40_000);
}

#[test]
fn health_stays_between_empty_and_full() {
    let hp = HpDrainRate(5_000);
    assert_eq!(hp.drain(FULL_HEALTH, HitScore::Hit300), FULL_HEALTH);
    assert_eq!(hp.drain(3_000, HitScore::Miss), 0);
    assert_eq!(hp.drain(0, HitScore::Miss), 0);
    let easy = HpDrainRate(-20_000);
    assert_eq!(easy.drain(90_000, HitScore::Miss), FULL_HEALTH);
    let mut health = FULL_HEALTH;
    for hit in [
        HitScore::Miss,
        HitScore::Miss,
        HitScore::Hit50,
        HitScore::Hit300,
        HitScore::Miss,
    ] {
        health = HpDrainRate(10_000).drain(health, hit);
        assert!(health <= FULL_HEALTH);
    }
    // 1 - 0.2 - 0.2 - 0.06 + 0.002 - 0.2
    assert_eq!(health, 34_200);
}

#[test]
fn difficulty_multiplier_values() {
    // (5 + 4 + 8 + min(3 / 2.999 * 8, 16)) / 38 * 5 = 25.003 / 38 * 5 = 3.29
    let data = data_with(&[0, 1_000, 2_999], 5_000, 4_000, 8_000);
    assert_eq!(data.drain_time(), 2_999);
    assert_eq!(data.difficulty_multiplier(), 3);
    // The density term is capped at 16: (5 + 4 + 8 + 16) / 38 * 5 = 4.3
    let dense = data_with(&[0, 100, 200, 300, 1_000], 5_000, 4_000, 8_000);
    assert_eq!(dense.difficulty_multiplier(), 4);
    // Halves round away from zero: (1 + 0 + 16 + 2) / 38 * 5 = 2.5
    let half = data_with(&[0, 8_000], 1_000, 0, 16_000);
    assert_eq!(half.difficulty_multiplier(), 3);
    // just below the half: (16.999 + 2) / 38 * 5 = 2.4999
    let below = data_with(&[0, 8_000], 999, 0, 16_000);
    assert_eq!(below.difficulty_multiplier(), 2);
}

#[test]
fn difficulty_multiplier_counts_fractions_of_a_second() {
    // (11 + min(3 / 1.999 * 8, 16)) / 38 * 5 = (11 + 12.006) / 38 * 5 = 3.03
    let data = data_with(&[0, 1_000, 1_999], 5_000, 2_000, 4_000);
    assert_eq!(data.drain_time(), 1_999);
    assert_eq!(data.difficulty_multiplier(), 3);
    // half a second: 2 / 0.5 * 8 = 32, capped: (11 + 16) / 38 * 5 = 3.55
    let short = data_with(&[0, 500], 5_000, 2_000, 4_000);
    assert_eq!(short.difficulty_multiplier(), 4);
    // just above the half: (11 + 2 / 1.998 * 8) / 38 * 5 = 19.008 / 38 * 5 = 2.501
    let sparse = data_with(&[0, 1_998], 5_000, 2_000, 4_000);
    assert_eq!(sparse.difficulty_multiplier(), 3);
    // the half itself: (11 + 8) / 38 * 5 = 2.5
    let even = data_with(&[0, 2_000], 5_000, 2_000, 4_000);
    assert_eq!(even.difficulty_multiplier(), 3);
    // just below it: (11 + 2 / 2.002 * 8) / 38 * 5 = 18.992 / 38 * 5 = 2.499
    let sparser = data_with(&[0, 2_002], 5_000, 2_000, 4_000);
    assert_eq!(sparser.difficulty_multiplier(), 2);
}

#[test]
fn difficulty_multiplier_without_drain_time() {
    let empty = data_with(&[], 5_000, 4_000, 8_000);
    assert_eq!(empty.drain_time(), 0);
    assert_eq!(empty.difficulty_multiplier(), 0);
    // One object: no time passes, the density term is at its cap.
    let single = data_with(&[500], 5_000, 4_000, 8_000);
    assert_eq!(single.drain_time(), 0);
    assert_eq!(single.difficulty_multiplier(), 4);
    let negative = data_with(&[500], -50_000, 0, 0);
    assert_eq!(negative.difficulty_multiplier(), -4);
    // A millisecond apart: the density is far above its cap.
    let close = data_with(&[500, 501], 5_000, 4_000, 8_000);
    assert_eq!(close.drain_time(), 1);
    assert_eq!(close.difficulty_multiplier(), 4);
}

#[test]
fn score_rises_with_the_combo() {
    let hp = HpDrainRate(5_000);
    let mut state = BeatmapState::default();
    state.apply(hp, HitScore::Hit300, 4);
    assert_eq!(state.score, 300);
    assert_eq!(state.combo, 1);
    state.apply(hp, HitScore::Hit100, 4);
    // combo before the hit is 1: the multiplier is 0
    assert_eq!(state.score, 400);
    state.apply(hp, HitScore::Hit300, 4);
    // combo before the hit is 2: 300 * (1 + 1 * 4 / 25) = 348
    assert_eq!(state.score, 748);
    state.apply(hp, HitScore::Hit50, 4);
    // combo before the hit is 3: 50 * (1 + 2 * 4 / 25) = 66
    assert_eq!(state.score, 814);
    assert_eq!(state.combo, 4);
    assert_eq!(state.max_combo, 4);
    state.apply(hp, HitScore::Miss, 4);
    assert_eq!(state.score, 814);
    assert_eq!(state.combo, 0);
    assert_eq!(state.max_combo, 4);
    assert_eq!(state.misses, 1);
    assert_eq!((state.hits300, state.hits100, state.hits50), (2, 1, 1));
}

#[test]
fn negative_multiplier_takes_no_score_away() {
    let hp = HpDrainRate(0);
    let mut state = BeatmapState::default();
    for _ in 0..5 {
        state.apply(hp, HitScore::Hit300, -100);
    }
    // the first two hits have no combo multiplier yet
    assert_eq!(state.score, 600);
    assert!(MAX_SCORE_STEP > 300);
}

#[test]
fn replay_is_deterministic() {
    let hits = vec![
        HitScore::Hit300,
        HitScore::Hit300,
        HitScore::Hit100,
        HitScore::Miss,
        HitScore::Hit50,
        HitScore::Hit300,
        HitScore::Hit300,
    ];
    let first = BeatmapState::replay(HpDrainRate(6_500), &hits, 5);
    let second = BeatmapState::replay(HpDrainRate(6_500), &hits, 5);
    assert_eq!(first.score, second.score);
    assert_eq!(first.combo, second.combo);
    assert_eq!(first.max_combo, second.max_combo);
    assert_eq!(first.accuracy(), second.accuracy());
    assert_eq!(first.health, second.health);
    assert_eq!(first.score, 300 + 300 + 100 * 30 / 25 + 0 + 50 + 300 + 300 * 30 / 25);
    assert_eq!(first.combo, 3);
    assert_eq!(first.max_combo, 3);
}

#[test]
fn accuracy_exact_values() {
    let state = BeatmapState::default();
    assert_eq!(state.accuracy(), 0);
    assert_eq!(state.accuracy_hundredths(), 0);
    let state = BeatmapState {
        hits300: 438,
        hits100: 9,
        hits50: 1,
        ..Default::default()
    };
    assert_eq!(state.accuracy(), 98_474);
    assert_eq!(state.accuracy_hundredths(), 9_847);
    let state = BeatmapState {
        hits300: 1,
        misses: 1,
        ..Default::default()
    };
    assert_eq!(state.accuracy(), 50_000);
    let state = BeatmapState {
        hits100: 2,
        hits50: 1,
        ..Default::default()
    };
    // 250 / 900 = 27.777...%
    assert_eq!(state.accuracy(), 27_777);
    assert_eq!(state.accuracy_hundredths(), 2_778);
}

#[test]
fn grades_by_threshold() {
    let grade = |hits300, hits100, hits50, misses| {
        BeatmapState {
            hits300,
            hits100,
            hits50,
            misses,
            ..Default::default()
        }
        .grade()
    };
    assert_eq!(grade(0, 0, 0, 0), Grade::D);
    assert_eq!(grade(100, 0, 0, 0), Grade::SS);
    assert_eq!(grade(99, 1, 0, 0), Grade::S);
    assert_eq!(grade(91, 7, 2, 0), Grade::A);
    assert_eq!(grade(91, 8, 1, 0), Grade::S);
    assert_eq!(grade(90, 10, 0, 0), Grade::A);
    assert_eq!(grade(91, 8, 0, 1), Grade::A);
    assert_eq!(grade(81, 19, 0, 0), Grade::A);
    assert_eq!(grade(81, 18, 0, 1), Grade::B);
    assert_eq!(grade(80, 20, 0, 0), Grade::B);
    assert_eq!(grade(71, 28, 0, 1), Grade::C);
    assert_eq!(grade(61, 0, 0, 39), Grade::C);
    assert_eq!(grade(60, 40, 0, 0), Grade::D);
    assert_eq!(grade(99_999, 1, 0, 0), Grade::SS);
    assert_eq!(grade(9_999, 1, 0, 0), Grade::S);
}

#[test]
fn beatmap_is_made_from_what_is_decoded() {
    let decoded = decoded_beatmap(vec![
        decoded_object("0", "0", "0", true),
        decoded_object("100", "50", "400", false),
        decoded_object("+7", "9", "400", true),
    ]);
    let beatmap = Beatmap::try_from(decoded, Some("song/audio.mp3".to_string())).unwrap();
    let data = beatmap.data();
    assert_eq!(data.od.0, 8_000);
    assert_eq!(data.cs.0, 4_500);
    assert_eq!(data.ar.0, 9_000);
    assert_eq!(data.hp.0, 5_000);
    assert_eq!(data.title, "Title");
    assert_eq!(data.difficulty_name, "Not named");
    assert_eq!(data.artist, "Artist");
    assert_eq!(data.audio_path, "song/audio.mp3");
    assert_eq!(data.hit_objects.len(), 3);
    let second = &data.hit_objects[1];
    assert_eq!((second.x(), second.y(), second.time()), (100, 50, 400));
    assert_eq!(second.combo_number(), 2);
    let third = &data.hit_objects[2];
    assert_eq!((third.x(), third.y(), third.time()), (7, 9, 400));
    assert_eq!(third.combo_number(), 1);
    let state = beatmap.state();
    assert_eq!(state.health, FULL_HEALTH);
    assert_eq!(state.score, 0);
    assert_eq!(state.next_hit_object_idx, 0);
    assert!(state.active_hit_objects.is_empty());
}

#[test]
fn combo_colours_cycle_in_the_order_of_their_numbers() {
    let red = Color { r: 255, g: 0, b: 0 };
    let green = Color { r: 0, g: 255, b: 0 };
    let blue = Color { r: 0, g: 0, b: 255 };
    let colours = vec![
        ComboColour { combo: 3, color: blue },
        ComboColour { combo: 1, color: red },
        ComboColour { combo: 2, color: green },
    ];
    let mut skipping = decoded_object("0", "0", "30", true);
    skipping.combo_skip_count = 1;
    let objects = vec![
        decoded_object("0", "0", "0", true),
        decoded_object("0", "0", "10", false),
        decoded_object("0", "0", "20", true),
        skipping,
        decoded_object("0", "0", "40", true),
    ];
    let made = HitObject::from(&objects, Some(&colours)).unwrap();
    let colors: Vec<Color> = made.iter().map(|object| object.color()).collect();
    assert_eq!(colors, vec![red, red, green, red, green]);
    let numbers: Vec<u32> = made.iter().map(|object| object.combo_number()).collect();
    assert_eq!(numbers, vec![1, 2, 1, 1, 1]);
}

#[test]
fn default_colours_where_the_beatmap_gives_none() {
    let objects = vec![
        decoded_object("0", "0", "0", false),
        decoded_object("0", "0", "10", true),
    ];
    let made = HitObject::from(&objects, None).unwrap();
    // the first object follows the last colour of the palette
    assert_eq!(made[0].color(), Color { r: 242, g: 24, b: 57 });
    assert_eq!(made[0].combo_number(), 2);
    assert_eq!(made[1].color(), Color { r: 255, g: 192, b: 0 });
    let empty: Vec<ComboColour> = Vec::new();
    let made = HitObject::from(&objects, Some(&empty)).unwrap();
    assert_eq!(made[1].color(), Color { r: 255, g: 192, b: 0 });
}

#[test]
fn beatmap_without_audio_is_refused() {
    let decoded = decoded_beatmap(vec![]);
    assert_eq!(
        Beatmap::try_from(decoded, None).err(),
        Some(InvalidBeatmap::MissingAudio)
    );
}

#[test]
fn beatmap_without_a_difficulty_setting_is_refused() {
    let audio = || Some("audio.mp3".to_string());
    let mut decoded = decoded_beatmap(vec![]);
    decoded.overall_difficulty = None;
    assert_eq!(
        Beatmap::try_from(decoded, audio()).err(),
        Some(InvalidBeatmap::MissingOverallDifficulty)
    );
    let mut decoded = decoded_beatmap(vec![]);
    decoded.circle_size = None;
    assert_eq!(
        Beatmap::try_from(decoded, audio()).err(),
        Some(InvalidBeatmap::MissingCircleSize)
    );
    let mut decoded = decoded_beatmap(vec![]);
    decoded.approach_rate = None;
    assert_eq!(
        Beatmap::try_from(decoded, audio()).err(),
        Some(InvalidBeatmap::MissingApproachRate)
    );
    let mut decoded = decoded_beatmap(vec![]);
    decoded.hp_drain_rate = None;
    assert_eq!(
        Beatmap::try_from(decoded, audio()).err(),
        Some(InvalidBeatmap::MissingHpDrainRate)
    );
    let mut decoded = decoded_beatmap(vec![]);
    decoded.overall_difficulty = None;
    decoded.hp_drain_rate = None;
    assert_eq!(
        Beatmap::try_from(decoded, None).err(),
        Some(InvalidBeatmap::MissingAudio)
    );
}

#[test]
fn beatmap_with_a_malformed_number_is_refused() {
    let audio = || Some("audio.mp3".to_string());
    let mut decoded = decoded_beatmap(vec![]);
    decoded.circle_size = Some("four".to_string());
    assert_eq!(
        Beatmap::try_from(decoded, audio()).err(),
        Some(InvalidBeatmap::MalformedNumber)
    );
    let decoded = decoded_beatmap(vec![decoded_object("1.5", "0", "0", true)]);
    assert_eq!(
        Beatmap::try_from(decoded, audio()).err(),
        Some(InvalidBeatmap::MalformedNumber)
    );
    let decoded = decoded_beatmap(vec![decoded_object("1", "0", "-3", true)]);
    assert_eq!(
        Beatmap::try_from(decoded, audio()).err(),
        Some(InvalidBeatmap::MalformedNumber)
    );
}

#[test]
fn beatmap_out_of_time_order_is_refused() {
    let decoded = decoded_beatmap(vec![
        decoded_object("0", "0", "100", true),
        decoded_object("0", "0", "99", false),
    ]);
    assert_eq!(
        Beatmap::try_from(decoded, Some("audio.mp3".to_string())).err(),
        Some(InvalidBeatmap::NotTimeOrdered)
    );
    let unordered = data_with(&[5, 4], 0, 0, 0);
    assert!(!unordered.is_time_ordered());
    assert_eq!(
        Beatmap::new(unordered).err(),
        Some(InvalidBeatmap::NotTimeOrdered)
    );
    assert!(data_with(&[4, 4, 5], 0, 0, 0).is_time_ordered());
}

#[test]
fn score_text_tells_the_totals() {
    let decoded = decoded_beatmap(vec![decoded_object("0", "0", "0", true)]);
    let beatmap = Beatmap::try_from(decoded, Some("audio.mp3".to_string())).unwrap();
    let text = beatmap.score_text();
    assert_eq!(text.title, "Title");
    assert_eq!(text.artist, "Artist");
    assert_eq!(text.difficulty_name, "Not named");
    assert_eq!(text.score, 0);
    assert_eq!(text.grade, Grade::D);
    assert_eq!(text.accuracy, 0);
    assert_eq!(text.max_combo, 0);
}
