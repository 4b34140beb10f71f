use osucraft::beatmap::scheduler::{Click, Outcome, PlayEvent, PlayInput};
use osucraft::beatmap::{Beatmap, DecodedBeatmap, FULL_HEALTH};
use osucraft::hit_object::{DecodedHitObject, HitObjectParams};
use osucraft::hit_score::HitScore;
use osucraft::hitcircle::{ConstructionError, Ray};
use osucraft::minecraft::BlockPos;
use osucraft::osu::{
    ActionBar, BeatmapSelectionData, Effect, Osu, OsuState, OsuStateChange, Screen, TickInput,
};

fn object(x: u32, y: u32, time: u32) -> DecodedHitObject {
    DecodedHitObject {
        x: x.to_string(),
        y: y.to_string(),
        time: time.to_string(),
        new_combo: false,
        combo_skip_count: 0,
        params: HitObjectParams::Hitcircle,
    }
}

fn beatmap_with(objects: Vec<DecodedHitObject>, hp: &str, cs: &str) -> Beatmap {
    let decoded = DecodedBeatmap {
        has_metadata: true,
        has_difficulty: true,
        overall_difficulty: Some("8".to_string()),
        circle_size: Some(cs.to_string()),
        approach_rate: Some("9".to_string()),
        hp_drain_rate: Some(hp.to_string()),
        title: None,
        version: None,
        artist: None,
        hit_objects: objects,
        colours: None,
    };
    Beatmap::try_from(decoded, Some("song/audio.mp3".to_string())).unwrap()
}

fn screen() -> Screen {
    Screen {
        scale: 500,
        screen_z: 0,
    }
}

fn play_input(play_time: u64, clicks: Vec<Click>) -> PlayInput {
    PlayInput {
        tps: 20,
        play_time,
        lost_heads: 0,
        clicks,
    }
}

fn tick_input(play_time: Option<u64>, music_finished: bool) -> TickInput {
    TickInput {
        tps: 20,
        play_time,
        music_finished,
        lost_heads: 0,
        clicks: Vec::new(),
        sneaks: Vec::new(),
    }
}

fn click_at(x: i64, y: i64) -> Click {
    Click {
        source: 42,
        ray: Ray::new((x * 1000, y * 1000, -100_000), (0, 0, 1)).unwrap(),
    }
}

fn is_playing(osu: &Osu) -> bool {
    matches!(osu.state(), Some(OsuState::Playing(_)))
}

#[test]
fn screen_measures() {
    let screen = screen();
    assert_eq!(screen.screen_size(), (320, 240));
    assert_eq!(screen.screen_margin(), (160, 120));
    let small = Screen {
        scale: 300,
        screen_z: 0,
    };
    assert_eq!(small.screen_size(), (192, 144));
    assert_eq!(small.screen_margin(), (96, 72));
    assert_eq!(small.wall(), ((-96, 288), (0, 288), 1));
    // 640 / 1.75 * 0.3 = 109.71, 480 * 2 / 2.25 * 0.3 = 128, -500 * 0.3 = -150
    assert_eq!(small.player_spawn_pos(), (109_714, 128_000, -150_000));
    assert_eq!(small.spawn_block(), BlockPos { x: 109, y: 127, z: -151 });
    assert_eq!(small.chunks(), ((-7, 19), (-10, 1)));
    let odd = Screen {
        scale: 3,
        screen_z: 0,
    };
    assert_eq!(odd.screen_size(), (1, 1));
    assert_eq!(odd.screen_margin(), (0, 0));
}

#[test]
fn circle_centres_on_the_screen() {
    let beatmap = beatmap_with(vec![object(256, 192, 0), object(1, 1, 10)], "5", "4.5");
    let objects = &beatmap.data().hit_objects;
    assert_eq!(
        screen().center_of(&objects[0], -2),
        Some(BlockPos {
            x: 192,
            y: 216,
            z: -2
        })
    );
    // 0.5 of a block to the left is a whole block to the left, 0.5 up is none
    assert_eq!(
        screen().center_of(&objects[1], 0),
        Some(BlockPos {
            x: 319,
            y: 120,
            z: 0
        })
    );
    let far = beatmap_with(vec![object(4_000_000_000, 0, 0)], "5", "4.5");
    let huge = Screen {
        scale: 2_000_000,
        screen_z: 0,
    };
    assert_eq!(huge.center_of(&far.data().hit_objects[0], 0), None);
}

#[test]
fn an_object_is_spawned_its_lookahead_before_its_time() {
    // AR 9: lookahead 500 ms; the object is due from 1500 ms on
    let mut beatmap = beatmap_with(vec![object(256, 192, 2_000)], "5", "4.5");
    let events = beatmap.tick(&screen(), &play_input(1_499_999, Vec::new()));
    assert!(events.is_empty());
    assert_eq!(beatmap.state().next_hit_object_idx, 0);
    let events = beatmap.tick(&screen(), &play_input(1_500_000, Vec::new()));
    assert_eq!(events.len(), 1);
    match events[0] {
        PlayEvent::Spawned(circle) => {
            assert_eq!(circle.handle(), 0);
            assert_eq!(circle.center(), BlockPos { x: 192, y: 216, z: 0 });
            assert_eq!(circle.radius(), 18);
            // 500 ms at 20 ticks per second, and 120 ms more
            assert_eq!(circle.preempt_ticks(), 10);
            assert_eq!(circle.ticks(), 13);
        }
        _ => panic!("the object was not spawned"),
    }
    assert_eq!(beatmap.state().next_hit_object_idx, 1);
    assert_eq!(beatmap.state().play_time, 1_500_000);
    // the circle has aged by the end of its first tick
    assert_eq!(beatmap.state().active_hit_objects[0].ticks(), 12);
    // it is not spawned again
    let events = beatmap.tick(&screen(), &play_input(1_550_000, Vec::new()));
    assert!(events.is_empty());
    assert_eq!(beatmap.state().active_hit_objects.len(), 1);
}

#[test]
fn an_unclicked_object_is_a_miss_once_its_window_is_over() {
    let mut beatmap = beatmap_with(vec![object(256, 192, 0)], "5", "4.5");
    let events = beatmap.tick(&screen(), &play_input(0, Vec::new()));
    assert!(matches!(events[0], PlayEvent::Spawned(_)));
    for tick in 1..=12 {
        let events = beatmap.tick(&screen(), &play_input(tick * 50_000, Vec::new()));
        assert!(events.is_empty());
        assert_eq!(beatmap.state().misses, 0);
    }
    assert_eq!(beatmap.state().active_hit_objects[0].ticks(), 0);
    assert_eq!(beatmap.outcome(true), None);
    let events = beatmap.tick(&screen(), &play_input(650_000, Vec::new()));
    assert_eq!(events.len(), 1);
    assert!(matches!(events[0], PlayEvent::Expired(circle) if circle.handle() == 0));
    let state = beatmap.state();
    assert_eq!(state.misses, 1);
    assert_eq!(state.combo, 0);
    assert_eq!(state.score, 0);
    assert_eq!(state.health, 90_000);
    assert!(state.active_hit_objects.is_empty());
    assert_eq!(beatmap.outcome(false), None);
    assert_eq!(beatmap.outcome(true), Some(Outcome::Finished));
}

#[test]
fn a_click_at_the_perfect_moment_is_a_300() {
    let mut beatmap = beatmap_with(vec![object(256, 192, 0)], "5", "4.5");
    beatmap.tick(&screen(), &play_input(0, Vec::new()));
    for tick in 1..=9 {
        // clicks beside the circle are no judgement
        let events = beatmap.tick(&screen(), &play_input(tick * 50_000, vec![click_at(100, 100)]));
        assert!(events.is_empty());
    }
    assert_eq!(beatmap.state().active_hit_objects[0].ticks(), 3);
    let events = beatmap.tick(&screen(), &play_input(500_000, vec![click_at(192, 216)]));
    assert_eq!(events.len(), 1);
    match events[0] {
        PlayEvent::Judged {
            circle,
            score,
            source,
        } => {
            assert_eq!(circle.handle(), 0);
            assert_eq!(score, HitScore::Hit300);
            assert_eq!(source, 42);
        }
        _ => panic!("the click was not judged"),
    }
    let state = beatmap.state();
    assert_eq!(state.hits300, 1);
    assert_eq!(state.score, 300);
    assert_eq!(state.combo, 1);
    assert_eq!(state.health, FULL_HEALTH);
    assert!(state.active_hit_objects.is_empty());
}

#[test]
fn a_click_far_too_early_is_a_miss() {
    let mut beatmap = beatmap_with(vec![object(256, 192, 0)], "5", "4.5");
    let events = beatmap.tick(&screen(), &play_input(0, vec![click_at(192, 216)]));
    // spawned and clicked in the same tick, 13 ticks before its end
    assert_eq!(events.len(), 2);
    assert!(matches!(events[0], PlayEvent::Spawned(_)));
    assert!(matches!(
        events[1],
        PlayEvent::Judged {
            score: HitScore::Miss,
            ..
        }
    ));
    assert_eq!(beatmap.state().misses, 1);
    assert_eq!(beatmap.state().health, 90_000);
}

#[test]
fn clicks_are_held_against_the_oldest_circle_in_turn() {
    let mut beatmap = beatmap_with(
        vec![object(256, 192, 0), object(56, 192, 0), object(456, 192, 0)],
        "5",
        "4.5",
    );
    let events = beatmap.tick(&screen(), &play_input(0, Vec::new()));
    assert_eq!(events.len(), 3);
    for tick in 1..=9 {
        beatmap.tick(&screen(), &play_input(tick * 50_000, Vec::new()));
    }
    // the second circle is clicked first: no judgement, as it is not the
    // oldest; then the first, the second and the second once more
    let clicks = vec![
        click_at(292, 216),
        click_at(192, 216),
        click_at(292, 216),
        click_at(292, 216),
    ];
    let events = beatmap.tick(&screen(), &play_input(500_000, clicks));
    assert_eq!(events.len(), 2);
    assert!(matches!(events[0], PlayEvent::Judged { circle, .. } if circle.handle() == 0));
    assert!(matches!(events[1], PlayEvent::Judged { circle, .. } if circle.handle() == 1));
    let state = beatmap.state();
    assert_eq!(state.hits300, 2);
    assert_eq!(state.combo, 2);
    assert_eq!(state.active_hit_objects.len(), 1);
    assert_eq!(state.active_hit_objects[0].handle(), 2);
    assert_eq!(state.active_hit_objects[0].ticks(), 2);
}

#[test]
fn objects_that_cannot_be_made_are_left_out() {
    // circle size 13 leaves no radius
    let mut beatmap = beatmap_with(vec![object(256, 192, 0), object(0, 0, 100)], "5", "13");
    let events = beatmap.tick(&screen(), &play_input(0, Vec::new()));
    assert_eq!(events.len(), 2);
    assert!(matches!(
        events[0],
        PlayEvent::Skipped {
            handle: 0,
            error: ConstructionError::NonPositiveRadius
        }
    ));
    assert!(matches!(events[1], PlayEvent::Skipped { handle: 1, .. }));
    let state = beatmap.state();
    assert_eq!(state.next_hit_object_idx, 2);
    assert!(state.active_hit_objects.is_empty());
    assert_eq!(state.misses, 0);
    assert_eq!(beatmap.outcome(true), Some(Outcome::Finished));
}

#[test]
fn circles_that_went_from_the_world_are_misses() {
    let mut beatmap = beatmap_with(
        vec![object(256, 192, 0), object(56, 192, 0), object(456, 192, 0)],
        "5",
        "4.5",
    );
    beatmap.tick(&screen(), &play_input(0, Vec::new()));
    let mut events = Vec::new();
    beatmap.expire(2, &mut events);
    assert_eq!(events.len(), 2);
    assert!(matches!(events[0], PlayEvent::Expired(circle) if circle.handle() == 0));
    assert!(matches!(events[1], PlayEvent::Expired(circle) if circle.handle() == 1));
    assert_eq!(beatmap.state().misses, 2);
    assert_eq!(beatmap.state().health, 80_000);
    assert_eq!(beatmap.state().active_hit_objects.len(), 1);
    let mut events = Vec::new();
    beatmap.expire(5, &mut events);
    assert_eq!(events.len(), 1);
    assert_eq!(beatmap.state().misses, 3);
}

#[test]
fn the_session_starts_at_the_song_selection() {
    let mut osu = Osu::new(500);
    assert!(osu.state().is_none());
    assert_eq!(osu.scale(), 500);
    assert_eq!(osu.screen(), screen());
    let out = osu.update(tick_input(None, false));
    assert!(matches!(osu.state(), Some(OsuState::SongSelection)));
    assert!(out.circles.is_empty());
    assert_eq!(out.effects.len(), 2);
    assert!(matches!(out.effects[0], Effect::ActionBar(ActionBar::Empty)));
    assert!(matches!(out.effects[1], Effect::StopMusic));
    assert_eq!(osu.get_action_bar(20), ActionBar::OpenSongSelection);
}

#[test]
fn sneaking_opens_the_selection() {
    let mut osu = Osu::new(500);
    osu.change_state(OsuStateChange::SongSelection);
    let mut input = tick_input(None, false);
    input.sneaks = vec![7, 9];
    let out = osu.update(input);
    assert_eq!(out.effects.len(), 3);
    assert!(matches!(out.effects[0], Effect::OpenSongSelection { client: 7 }));
    assert!(matches!(out.effects[1], Effect::OpenSongSelection { client: 9 }));
    assert!(matches!(
        out.effects[2],
        Effect::ActionBar(ActionBar::OpenSongSelection)
    ));
    let effects = osu.change_state(OsuStateChange::BeatmapSelection(BeatmapSelectionData {
        beatmap_dir: "songs/1".to_string(),
        preview_audio: Some("songs/1/audio.mp3".to_string()),
    }));
    assert_eq!(effects.len(), 3);
    assert!(matches!(effects[0], Effect::StopMusic));
    assert!(matches!(&effects[1], Effect::SetMusic(path) if path == "songs/1/audio.mp3"));
    assert!(matches!(effects[2], Effect::PlayMusic));
    let mut input = tick_input(None, false);
    input.sneaks = vec![7];
    let out = osu.update(input);
    assert!(matches!(out.effects[0], Effect::OpenBeatmapSelection { client: 7 }));
    assert!(matches!(
        out.effects[1],
        Effect::ActionBar(ActionBar::OpenBeatmapSelection)
    ));
    assert!(matches!(osu.state(), Some(OsuState::BeatmapSelection)));
}

#[test]
fn the_countdown_before_a_beatmap() {
    let mut osu = Osu::new(500);
    let beatmap = beatmap_with(vec![object(256, 192, 5_000)], "5", "4.5");
    let effects = osu.change_state(OsuStateChange::PrePlaying { beatmap });
    assert_eq!(effects.len(), 1);
    // (5000 - 3000) / 50 = 40 ticks
    assert!(matches!(
        osu.state(),
        Some(OsuState::PrePlaying { ticks_left: 40, .. })
    ));
    assert_eq!(osu.get_action_bar(20), ActionBar::StartsIn { seconds: 3 });
    let out = osu.update(tick_input(None, false));
    assert!(matches!(
        osu.state(),
        Some(OsuState::PrePlaying { ticks_left: 39, .. })
    ));
    assert!(matches!(
        out.effects[0],
        Effect::ActionBar(ActionBar::StartsIn { seconds: 2 })
    ));
    for _ in 0..39 {
        osu.update(tick_input(None, false));
    }
    assert!(matches!(
        osu.state(),
        Some(OsuState::PrePlaying { ticks_left: 0, .. })
    ));
    let out = osu.update(tick_input(None, false));
    assert!(is_playing(&osu));
    assert_eq!(out.effects.len(), 4);
    assert!(matches!(
        out.effects[0],
        Effect::ActionBar(ActionBar::StartsIn { seconds: 1 })
    ));
    assert!(matches!(out.effects[1], Effect::StopMusic));
    assert!(matches!(&out.effects[2], Effect::SetMusic(path) if path == "song/audio.mp3"));
    assert!(matches!(out.effects[3], Effect::PlayMusic));
    assert_eq!(osu.get_action_bar(20), ActionBar::Empty);
}

#[test]
fn countdowns_by_the_first_object() {
    let ticks_for = |objects| {
        let mut osu = Osu::new(500);
        osu.change_state(OsuStateChange::PrePlaying {
            beatmap: beatmap_with(objects, "5", "4.5"),
        });
        match osu.state() {
            Some(OsuState::PrePlaying { ticks_left, .. }) => *ticks_left,
            _ => panic!("no countdown"),
        }
    };
    assert_eq!(ticks_for(vec![]), 60);
    assert_eq!(ticks_for(vec![object(0, 0, 0)]), 0);
    assert_eq!(ticks_for(vec![object(0, 0, 2_950)]), 0);
    assert_eq!(ticks_for(vec![object(0, 0, 3_000)]), 0);
    assert_eq!(ticks_for(vec![object(0, 0, 3_049)]), 0);
    assert_eq!(ticks_for(vec![object(0, 0, 3_050)]), 1);
    assert_eq!(ticks_for(vec![object(0, 0, 10_000)]), 140);
    assert_eq!(ticks_for(vec![object(0, 0, 10_000), object(0, 0, 90_000)]), 140);
    assert_eq!(ticks_for(vec![object(0, 0, 4_294_967_295)]), 85_899_285);
}

#[test]
fn a_beatmap_that_starts_at_once_has_no_countdown() {
    let mut osu = Osu::new(500);
    let beatmap = beatmap_with(vec![object(256, 192, 0)], "5", "4.5");
    osu.change_state(OsuStateChange::PrePlaying { beatmap });
    assert!(matches!(
        osu.state(),
        Some(OsuState::PrePlaying { ticks_left: 0, .. })
    ));
    assert_eq!(osu.get_action_bar(20), ActionBar::StartsIn { seconds: 1 });
    osu.update(tick_input(None, false));
    assert!(is_playing(&osu));
}

#[test]
fn selections_tick_at_any_tick_rate() {
    let mut osu = Osu::new(500);
    let mut input = tick_input(None, false);
    input.tps = 0;
    osu.update(input);
    assert!(matches!(osu.state(), Some(OsuState::SongSelection)));
    assert_eq!(osu.get_action_bar(0), ActionBar::OpenSongSelection);
    let mut input = tick_input(None, false);
    input.tps = 0;
    let out = osu.update(input);
    assert!(matches!(
        out.effects[0],
        Effect::ActionBar(ActionBar::OpenSongSelection)
    ));
}

#[test]
fn a_tick_without_the_clock_does_nothing() {
    let mut osu = Osu::new(500);
    let beatmap = beatmap_with(vec![object(256, 192, 0)], "5", "4.5");
    osu.change_state(OsuStateChange::Playing(beatmap));
    let out = osu.update(tick_input(None, true));
    assert!(out.circles.is_empty());
    assert!(out.effects.is_empty());
    match osu.state() {
        Some(OsuState::Playing(beatmap)) => {
            assert_eq!(beatmap.state().next_hit_object_idx, 0);
            assert!(beatmap.state().active_hit_objects.is_empty());
        }
        _ => panic!("the beatmap is no longer played"),
    }
}

#[test]
fn a_beatmap_is_played_to_its_result() {
    let mut osu = Osu::new(500);
    osu.change_state(OsuStateChange::BeatmapSelection(BeatmapSelectionData {
        beatmap_dir: "songs/1".to_string(),
        preview_audio: None,
    }));
    let beatmap = beatmap_with(vec![object(256, 192, 0)], "5", "4.5");
    osu.change_state(OsuStateChange::Playing(beatmap));
    let out = osu.update(tick_input(Some(0), false));
    assert_eq!(out.circles.len(), 1);
    assert!(matches!(out.circles[0], PlayEvent::Spawned(_)));
    assert_eq!(out.effects.len(), 2);
    assert!(matches!(
        out.effects[0],
        Effect::HealthBar {
            score: 0,
            combo: 0,
            accuracy: 0,
            health: 100_000
        }
    ));
    assert!(matches!(out.effects[1], Effect::ActionBar(ActionBar::Empty)));
    for tick in 1..=9 {
        osu.update(tick_input(Some(tick * 50_000), false));
    }
    let mut input = tick_input(Some(500_000), false);
    input.clicks = vec![click_at(192, 216)];
    let out = osu.update(input);
    assert!(matches!(
        out.circles[0],
        PlayEvent::Judged {
            score: HitScore::Hit300,
            ..
        }
    ));
    assert!(matches!(
        out.effects[0],
        Effect::HealthBar {
            score: 300,
            combo: 1,
            accuracy: 100_000,
            health: 100_000
        }
    ));
    // the music still plays
    assert!(is_playing(&osu));
    let out = osu.update(tick_input(Some(550_000), true));
    assert!(matches!(osu.state(), Some(OsuState::BeatmapSelection)));
    assert_eq!(out.effects.len(), 6);
    assert!(matches!(out.effects[2], Effect::StopMusic));
    match &out.effects[3] {
        Effect::ShowScore(beatmap) => {
            assert_eq!(beatmap.state().score, 300);
            assert_eq!(beatmap.score_text().accuracy, 10_000);
        }
        _ => panic!("the score is not shown"),
    }
    assert!(matches!(out.effects[4], Effect::RemoveHealthBar));
    assert!(matches!(out.effects[5], Effect::StopMusic));
}

#[test]
fn health_that_runs_out_ends_the_attempt_in_the_same_tick() {
    let mut osu = Osu::new(500);
    // HP 50: a single miss takes all health
    let beatmap = beatmap_with(
        vec![object(256, 192, 0), object(256, 192, 60_000)],
        "50",
        "4.5",
    );
    osu.change_state(OsuStateChange::Playing(beatmap));
    for tick in 0..=12 {
        let out = osu.update(tick_input(Some(tick * 50_000), false));
        assert!(is_playing(&osu));
        assert!(matches!(
            out.effects[0],
            Effect::HealthBar {
                health: 100_000,
                ..
            }
        ));
    }
    let out = osu.update(tick_input(Some(650_000), false));
    assert!(matches!(out.circles[0], PlayEvent::Expired(_)));
    assert!(!is_playing(&osu));
    assert!(matches!(osu.state(), Some(OsuState::SongSelection)));
    assert_eq!(out.effects.len(), 6);
    assert!(matches!(out.effects[0], Effect::HealthBar { health: 0, .. }));
    assert!(matches!(out.effects[2], Effect::StopMusic));
    assert!(matches!(out.effects[3], Effect::BeatmapFailed));
    assert!(matches!(out.effects[4], Effect::RemoveHealthBar));
    assert!(matches!(out.effects[5], Effect::StopMusic));
}

#[test]
fn leaving_a_beatmap_stops_the_music() {
    let mut osu = Osu::new(500);
    let beatmap = beatmap_with(vec![object(256, 192, 0)], "5", "4.5");
    osu.change_state(OsuStateChange::Playing(beatmap));
    osu.update(tick_input(Some(0), false));
    let effects = osu.change_state(OsuStateChange::SongSelection);
    assert_eq!(effects.len(), 1);
    assert!(matches!(effects[0], Effect::StopMusic));
    assert!(matches!(osu.state(), Some(OsuState::SongSelection)));
}
