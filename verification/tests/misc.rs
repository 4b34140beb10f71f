use osucraft::audio::{DecoderExecution, SampleCounter};
use osucraft::beatmap::DecodedBeatmap;
use osucraft::beatmap_selection::{
    BeatmapClick, BeatmapFile, BeatmapSelectionInventory, NoBeatmapFound,
};
use osucraft::commands::{parse_command, Command};
use osucraft::configs::Configs;
use osucraft::inventory::{InventoriesToOpen, InventoryToOpen};
use osucraft::number::{parse_thousandths, parse_u32};
use osucraft::order::stable_order;
use osucraft::text::{find, matches_at, remove, split_once};

fn beatmap_file(path: &str, title: Option<&str>, od: Option<&str>) -> BeatmapFile {
    BeatmapFile::new(
        DecodedBeatmap {
            has_metadata: true,
            has_difficulty: true,
            overall_difficulty: od.map(|od| od.to_string()),
            circle_size: Some("4".to_string()),
            approach_rate: Some("9.3".to_string()),
            hp_drain_rate: None,
            title: title.map(|title| title.to_string()),
            version: Some("Insane".to_string()),
            artist: None,
            hit_objects: Vec::new(),
            colours: None,
        },
        path.to_string(),
    )
}

#[test]
fn whole_numbers() {
    assert_eq!(parse_u32("0"), Some(0));
    assert_eq!(parse_u32("256"), Some(256));
    assert_eq!(parse_u32("+256"), Some(256));
    assert_eq!(parse_u32("007"), Some(7));
    assert_eq!(parse_u32("4294967295"), Some(u32::MAX));
    assert_eq!(parse_u32("4294967296"), None);
    assert_eq!(parse_u32("00000000000000000000000000000000000001"), Some(1));
    assert_eq!(parse_u32("99999999999999999999999999999999999999"), None);
    assert_eq!(parse_u32(""), None);
    assert_eq!(parse_u32("+"), None);
    assert_eq!(parse_u32("-1"), None);
    assert_eq!(parse_u32("1.0"), None);
    assert_eq!(parse_u32("12a"), None);
    assert_eq!(parse_u32(" 1"), None);
    assert_eq!(parse_u32("１"), None);
    for text in ["17", "+17", "-17", "", "+", "1_000", "4294967295", "4294967296"] {
        assert_eq!(parse_u32(text), text.parse::<u32>().ok());
    }
}

#[test]
fn decimal_numbers_in_thousandths() {
    assert_eq!(parse_thousandths("9"), Some(9_000));
    assert_eq!(parse_thousandths("9.3"), Some(9_300));
    assert_eq!(parse_thousandths("4.25"), Some(4_250));
    assert_eq!(parse_thousandths("4.255"), Some(4_255));
    assert_eq!(parse_thousandths("4.2559"), Some(4_255));
    assert_eq!(parse_thousandths("-1.5"), Some(-1_500));
    assert_eq!(parse_thousandths("+1.5"), Some(1_500));
    assert_eq!(parse_thousandths(".5"), Some(500));
    assert_eq!(parse_thousandths("5."), Some(5_000));
    assert_eq!(parse_thousandths("-0"), Some(0));
    assert_eq!(parse_thousandths("0010.010"), Some(10_010));
    assert_eq!(parse_thousandths("2147483.647"), Some(i32::MAX));
    assert_eq!(parse_thousandths("-2147483.647"), Some(-i32::MAX));
    assert_eq!(parse_thousandths("2147483.648"), None);
    assert_eq!(parse_thousandths("2147484"), None);
    assert_eq!(parse_thousandths(""), None);
    assert_eq!(parse_thousandths("."), None);
    assert_eq!(parse_thousandths("-"), None);
    assert_eq!(parse_thousandths("1.2.3"), None);
    assert_eq!(parse_thousandths("1e3"), None);
    assert_eq!(parse_thousandths("1,5"), None);
    assert_eq!(parse_thousandths("--1"), None);
    assert_eq!(parse_thousandths("1.5x"), None);
    assert_eq!(parse_thousandths("1.5555x"), None);
}

#[test]
fn stable_ascending_order() {
    assert_eq!(stable_order(&vec![]), Vec::<usize>::new());
    assert_eq!(stable_order(&vec![5]), vec![0]);
    assert_eq!(stable_order(&vec![3, 1, 2]), vec![1, 2, 0]);
    assert_eq!(stable_order(&vec![2, 1, 2, 1, 2]), vec![1, 3, 0, 2, 4]);
    assert_eq!(stable_order(&vec![i128::MAX, i128::MIN, 0]), vec![1, 2, 0]);
}

#[test]
fn texts_taken_apart() {
    assert!(matches_at("hello", "ll", 2));
    assert!(!matches_at("hello", "ll", 3));
    assert!(matches_at("hello", "", 5));
    assert!(!matches_at("hello", "", 6));
    assert!(!matches_at("hello", "lo!", 3));
    assert_eq!(find("hello", "l"), Some(2));
    assert_eq!(find("hello", "x"), None);
    assert_eq!(find("hello", ""), Some(0));
    assert_eq!(find("", ""), Some(0));
    assert_eq!(find("héllo", "l"), Some(2));
    assert_eq!(
        split_once("a - b - c", " - "),
        Some(("a".to_string(), "b - c".to_string()))
    );
    assert_eq!(split_once("abc", " "), None);
    assert_eq!(
        split_once("abc ", " "),
        Some(("abc".to_string(), String::new()))
    );
    assert_eq!(remove("a\"b\"\"c", "\""), "abc");
    assert_eq!(remove("aXYbXY", "XY"), "ab");
    assert_eq!(remove("XXY", "XY"), "X");
    assert_eq!(remove("aaa", "aa"), "a");
    assert_eq!(remove("abc", ""), "abc");
    assert_eq!(remove("ab", "abc"), "ab");
    for (text, pattern) in [("aaa", "aa"), ("a[no video]b", "[no video]"), ("xyz", "y")] {
        assert_eq!(remove(text, pattern), text.replace(pattern, ""));
    }
}

#[test]
fn chat_commands() {
    match parse_command("filter-songs \"some\" song") {
        Command::FilterSongs { keywords } => assert_eq!(keywords, "some song"),
        _ => panic!("not a filter"),
    }
    match parse_command("filter-songs") {
        Command::FilterSongs { keywords } => assert_eq!(keywords, ""),
        _ => panic!("not a filter"),
    }
    assert!(matches!(parse_command("reset-filter"), Command::ResetFilter));
    assert!(matches!(
        parse_command("reset-filter now"),
        Command::ResetFilter
    ));
    match parse_command("dance all night") {
        Command::Unknown { name } => assert_eq!(name, "dance"),
        _ => panic!("a known command"),
    }
    match parse_command("") {
        Command::Unknown { name } => assert_eq!(name, ""),
        _ => panic!("a known command"),
    }
    assert!(matches!(
        parse_command("filter-songsx"),
        Command::Unknown { .. }
    ));
}

#[test]
fn stored_settings_are_kept() {
    let (configs, save) = Configs::open(
        Some(Configs::new("stored".to_string())),
        Configs::new("default".to_string()),
    );
    assert_eq!(configs.songs_directory(), "stored");
    assert!(!save);
    let (configs, save) = Configs::open(None, Configs::new("default".to_string()));
    assert_eq!(configs.songs_directory(), "default");
    assert!(save);
    assert_eq!(Configs::path(), "configs.json");
}

#[test]
fn inventories_wait_in_order() {
    let mut queue = InventoriesToOpen::new();
    assert!(queue.open_queued_inventories().is_empty());
    let first = InventoryToOpen {
        client: 1,
        open_inventory: 10,
    };
    let second = InventoryToOpen {
        client: 2,
        open_inventory: 20,
    };
    queue.add(first);
    queue.add(second);
    assert_eq!(queue.open_queued_inventories(), vec![first, second]);
    assert!(queue.open_queued_inventories().is_empty());
}

#[test]
fn playback_position_by_samples() {
    let stereo = DecoderExecution::new(44_100, 2).unwrap();
    assert_eq!(stereo.play_time(0), 0);
    assert_eq!(stereo.play_time(88_200), 1_000_000);
    assert_eq!(stereo.play_time(44_100), 500_000);
    assert_eq!(stereo.play_time(1), 11);
    assert_eq!(stereo.play_time(u32::MAX), 48_695_774_319);
    assert!(DecoderExecution::new(0, 2).is_none());
    assert!(DecoderExecution::new(44_100, 0).is_none());
    let mut counter = SampleCounter::new(44_100);
    let published: Vec<u32> = (0..100).filter_map(|_| counter.advance()).collect();
    assert_eq!(published, vec![44, 88]);
    let mut slow = SampleCounter::new(999);
    assert_eq!(slow.advance(), Some(1));
    assert_eq!(slow.advance(), Some(2));
}

#[test]
fn clicks_in_the_beatmap_selection() {
    let mut selection = BeatmapSelectionInventory::new();
    assert!(matches!(selection.click(0), BeatmapClick::Ignored));
    assert_eq!(selection.load_beatmap_dir(Vec::new()), Err(NoBeatmapFound));
    assert_eq!(
        selection.load_beatmap_dir(vec![
            beatmap_file("songs/1/easy.osu", Some("Song"), Some("5")),
            beatmap_file("songs/1/hard.osu", None, None),
        ]),
        Ok(())
    );
    assert_eq!(selection.load_beatmap_dir(Vec::new()), Err(NoBeatmapFound));
    assert_eq!(selection.beatmaps().len(), 2);
    match selection.click(1) {
        BeatmapClick::Play { beatmap_path } => assert_eq!(beatmap_path, "songs/1/hard.osu"),
        _ => panic!("no beatmap was chosen"),
    }
    match selection.click(-1) {
        BeatmapClick::Play { beatmap_path } => assert_eq!(beatmap_path, "songs/1/hard.osu"),
        _ => panic!("no beatmap was chosen"),
    }
    assert!(matches!(selection.click(2), BeatmapClick::Ignored));
    assert!(matches!(selection.click(45), BeatmapClick::BackToSongs));
    assert!(matches!(selection.click(-45), BeatmapClick::BackToSongs));
}

#[test]
fn items_of_the_beatmap_selection() {
    let file = beatmap_file("songs/1/easy.osu", Some("Song"), Some("5"));
    assert_eq!(file.path(), "songs/1/easy.osu");
    assert_eq!(file.osu_file().approach_rate.as_deref(), Some("9.3"));
    let item = file.item().unwrap();
    assert_eq!(item.title, "Song");
    assert_eq!(item.difficulty_name, "Insane");
    assert_eq!(item.artist, "Not named");
    assert_eq!(item.od, "5");
    assert_eq!(item.ar, "9.3");
    assert_eq!(item.cs, "4");
    assert_eq!(item.hp, "Not defined");
    let mut decoded = file.osu_file().clone();
    decoded.has_metadata = false;
    assert!(BeatmapFile::new(decoded, String::new()).item().is_none());
    let mut decoded = file.osu_file().clone();
    decoded.has_difficulty = false;
    assert!(BeatmapFile::new(decoded, String::new()).item().is_none());
}
