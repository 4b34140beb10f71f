use osucraft::song_selection::{
    fuzzy_match, read_song, SongClick, SongDir, SongSelectionInventory,
};
use std::path::PathBuf;

fn song_dir(path: &PathBuf) -> SongDir {
    SongDir {
        path: path.to_str().unwrap().to_string(),
        file_name: path
            .file_name()
            .and_then(|name| name.to_str())
            .map(|name| name.to_string()),
    }
}

fn paths(songs: &[SongDir]) -> Vec<PathBuf> {
    songs.iter().map(|song| PathBuf::from(&song.path)).collect()
}

#[test]
fn filter_beatmaps() {
    let first_beatmap = PathBuf::from("C:/test/123 - abc test");
    let second_beatmap = PathBuf::from("C:/test/543 - chamblers pipoquinha batatinha");

    let beatmaps = vec![first_beatmap, second_beatmap.clone()];
    let songs: Vec<SongDir> = beatmaps.iter().map(song_dir).collect();

    let filtered_beatmaps = SongSelectionInventory::filter_songs(songs.clone(), None);
    assert_eq!(paths(&filtered_beatmaps), beatmaps);

    let filtered_beatmaps = SongSelectionInventory::filter_songs(songs, Some("BaTaT"));
    assert_eq!(paths(&filtered_beatmaps), vec![second_beatmap]);
}

fn named(name: &str) -> SongDir {
    SongDir {
        path: format!("songs/{name}"),
        file_name: Some(name.to_string()),
    }
}

fn many_songs(count: usize) -> Vec<SongDir> {
    (0..count)
        .map(|i| named(&format!("{i} Artist {i} - Song {i}")))
        .collect()
}

#[test]
fn songs_are_ranked_by_their_score() {
    let songs = vec![
        named("1 xx a-b-c-d"),
        named("2 nothing alike"),
        named("3 abcd"),
        SongDir {
            path: "songs/unnamed".to_string(),
            file_name: None,
        },
        named("4 ABCD again"),
    ];
    let scores: Vec<Option<i64>> = songs
        .iter()
        .map(|song| {
            song.file_name
                .as_ref()
                .and_then(|name| fuzzy_match(name, "abcd"))
        })
        .collect();
    assert!(scores[0].is_some() && scores[2].is_some() && scores[4].is_some());
    assert!(scores[1].is_none() && scores[3].is_none());
    let filtered = SongSelectionInventory::filter_songs(songs.clone(), Some("abcd"));
    assert_eq!(filtered.len(), 3);
    let mut expected: Vec<(i64, usize)> = vec![
        (scores[0].unwrap(), 0),
        (scores[2].unwrap(), 2),
        (scores[4].unwrap(), 4),
    ];
    expected.sort_by_key(|&(score, _)| std::cmp::Reverse(score));
    let expected: Vec<String> = expected
        .iter()
        .map(|&(_, index)| songs[index].path.clone())
        .collect();
    let got: Vec<String> = filtered.iter().map(|song| song.path.clone()).collect();
    assert_eq!(got, expected);
    // a gap costs score
    assert!(scores[2].unwrap() > scores[0].unwrap());
}

#[test]
fn equal_scores_keep_their_order() {
    let songs = vec![named("b same"), named("a same"), named("c same")];
    let filtered = SongSelectionInventory::filter_songs(songs, Some("same"));
    let names: Vec<&str> = filtered
        .iter()
        .map(|song| song.file_name.as_deref().unwrap())
        .collect();
    assert_eq!(names, vec!["b same", "a same", "c same"]);
}

#[test]
fn the_score_is_not_the_name_itself() {
    // the matcher's score of an exact match is well above its length
    let score = fuzzy_match("abc", "abc").unwrap();
    assert!(score > 3);
    assert_eq!(fuzzy_match("abc", "abx"), None);
    assert_eq!(fuzzy_match("abc", ""), Some(0));
    assert!(fuzzy_match("ABC", "abc").is_some());
}

#[test]
fn pages_of_thirty_six() {
    let mut selection = SongSelectionInventory::new(many_songs(80));
    assert_eq!(selection.max_page(), 2);
    assert_eq!(selection.cur_page(), 0);
    assert!(selection.has_next_page());
    assert!(!selection.has_previous_page());
    assert_eq!(selection.page_song_paths().len(), 36);
    assert_eq!(selection.page_song_paths()[35].path, "songs/35 Artist 35 - Song 35");
    selection.go_to_next_page();
    selection.go_to_next_page();
    assert_eq!(selection.cur_page(), 2);
    assert!(!selection.has_next_page());
    assert!(selection.has_previous_page());
    let page = selection.page_song_paths();
    assert_eq!(page.len(), 8);
    assert_eq!(page[0].path, "songs/72 Artist 72 - Song 72");
    selection.go_to_previous_page();
    assert_eq!(selection.cur_page(), 1);
    selection.go_to_next_page();
    selection.go_to_next_page();
    assert!(selection.page_song_paths().is_empty());
    assert_eq!(SongSelectionInventory::new(many_songs(36)).max_page(), 0);
    assert_eq!(SongSelectionInventory::new(many_songs(37)).max_page(), 1);
    assert_eq!(SongSelectionInventory::new(Vec::new()).max_page(), 0);
    assert!(SongSelectionInventory::new(Vec::new()).page_song_paths().is_empty());
}

#[test]
fn a_filter_goes_back_to_the_first_page() {
    let mut selection = SongSelectionInventory::new(many_songs(80));
    selection.go_to_next_page();
    selection.set_filter(many_songs(80), Some("Song 7"));
    assert_eq!(selection.cur_page(), 0);
    assert_eq!(selection.keywords().as_deref(), Some("Song 7"));
    assert!(selection.page_song_paths().len() >= 11);
    selection.set_filter(many_songs(5), None);
    assert_eq!(selection.keywords(), &None);
    assert_eq!(selection.page_song_paths().len(), 5);
}

#[test]
fn song_names_are_read_from_their_directories() {
    let song = read_song("123 Some Artist - Some Song").unwrap();
    assert_eq!(song.artist, "Some Artist");
    assert_eq!(song.name, "Some Song");
    let song = read_song("7 A - B - C [no video]").unwrap();
    assert_eq!(song.artist, "A");
    assert_eq!(song.name, "B - C ");
    let song = read_song("7 A[no video] - [no video]B").unwrap();
    assert_eq!((song.artist.as_str(), song.name.as_str()), ("A", "B"));
    assert!(read_song("nospace").is_none());
    assert!(read_song("123 no separator").is_none());
    assert!(read_song("").is_none());
    assert!(read_song(" - ").is_none());
    let song = read_song("1  - ").unwrap();
    assert_eq!((song.artist.as_str(), song.name.as_str()), ("", ""));
}

#[test]
fn the_window_of_the_song_selection() {
    let mut songs = many_songs(40);
    songs[1] = named("unreadable");
    songs[2].file_name = None;
    let mut selection = SongSelectionInventory::new(songs);
    let layout = selection.layout();
    assert_eq!(layout.filter, None);
    assert_eq!(layout.songs.len(), 34);
    assert_eq!(layout.songs[0].name, "Song 0");
    assert_eq!(layout.songs[1].artist, "Artist 3");
    assert_eq!(layout.next_page, Some((2, 2)));
    assert_eq!(layout.previous_page, None);
    selection.go_to_next_page();
    let layout = selection.layout();
    assert_eq!(layout.songs.len(), 4);
    assert_eq!(layout.next_page, None);
    assert_eq!(layout.previous_page, Some((1, 2)));
}

#[test]
fn clicks_in_the_song_selection() {
    let mut selection = SongSelectionInventory::new(many_songs(40));
    assert!(matches!(selection.click(45), SongClick::Ignored));
    assert!(matches!(selection.click(53), SongClick::PageChanged));
    assert_eq!(selection.cur_page(), 1);
    assert!(matches!(selection.click(53), SongClick::Ignored));
    assert!(matches!(selection.click(4), SongClick::Ignored));
    match selection.click(3) {
        SongClick::Selected(song) => assert_eq!(song.path, "songs/39 Artist 39 - Song 39"),
        _ => panic!("no song was chosen"),
    }
    match selection.click(-3) {
        SongClick::Selected(song) => assert_eq!(song.path, "songs/39 Artist 39 - Song 39"),
        _ => panic!("no song was chosen"),
    }
    assert!(matches!(selection.click(45), SongClick::PageChanged));
    assert_eq!(selection.cur_page(), 0);
    assert!(matches!(selection.click(35), SongClick::Selected(_)));
    assert!(matches!(selection.click(36), SongClick::Ignored));
    assert!(matches!(selection.click(-999), SongClick::Ignored));
}
