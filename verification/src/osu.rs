//! The game session: its states, the per-tick schedule of spawning, expiring
//! and judging hit circles, and the screen that the circles are drawn on.

use vstd::prelude::*;
use crate::beatmap::scheduler::{tick_events, Click, Outcome, PlayEvent, PlayInput};
use crate::beatmap::{whole_millis, whole_millis_of, Beatmap, BeatmapStateView, OverallDifficulty};
use crate::hit_object::HitObject;
use crate::minecraft::BlockPos;

verus! {

/// The timing windows of the three grades, in milliseconds: a click that is
/// off by no more than a window earns its grade.
#[derive(PartialEq, Eq, Structural, Debug, Clone, Copy)]
pub struct Hitwindow {
    pub window_300: u64,
    pub window_100: u64,
    pub window_50: u64,
}

impl Hitwindow {
    /// The windows for an overall difficulty `od` (in thousandths):
    /// `80 - 6 * od`, `140 - 8 * od` and `200 - 10 * od` milliseconds, each
    /// rounded down and never negative.
    pub open spec fn of(od: OverallDifficulty) -> Hitwindow {
        Hitwindow {
            window_300: whole_millis(80_000 - 6 * od.0) as u64,
            window_100: whole_millis(140_000 - 8 * od.0) as u64,
            window_50: whole_millis(200_000 - 10 * od.0) as u64,
        }
    }

    /// The better the grade, the narrower its window.
    pub open spec fn ordered(self) -> bool {
        self.window_300 <= self.window_100 <= self.window_50
    }

    /// The windows of every overall difficulty are ordered: best, then good,
    /// then acceptable.
    pub proof fn lemma_of_ordered(od: OverallDifficulty)
        ensures
            Hitwindow::of(od).ordered(),
            Hitwindow::of(od).window_300 as int == whole_millis(80_000 - 6 * od.0),
            Hitwindow::of(od).window_100 as int == whole_millis(140_000 - 8 * od.0),
            Hitwindow::of(od).window_50 as int == whole_millis(200_000 - 10 * od.0),
    {
    }
}

impl From<OverallDifficulty> for Hitwindow {
    fn from(od: OverallDifficulty) -> (hitwindow: Hitwindow) {
        let od_thousandths: i64 = od.0 as i64;
        Hitwindow {
            window_300: whole_millis_of(80_000 - 6 * od_thousandths),
            window_100: whole_millis_of(140_000 - 8 * od_thousandths),
            window_50: whole_millis_of(200_000 - 10 * od_thousandths),
        }
    }
}

impl vstd::std_specs::convert::FromSpecImpl<OverallDifficulty> for Hitwindow {
    open spec fn obeys_from_spec() -> bool {
        true
    }

    open spec fn from_spec(od: OverallDifficulty) -> Hitwindow {
        Hitwindow::of(od)
    }
}

/// The width of the playfield at its own scale, in osu!pixels.
pub const DEFAULT_SCREEN_WIDTH: i64 = 640;

/// The height of the playfield at its own scale, in osu!pixels.
pub const DEFAULT_SCREEN_HEIGHT: i64 = 480;

/// The wall of blocks that the beatmap is played on: the playfield, scaled,
/// with a margin of half its size on every side.
#[derive(Clone, Copy, Debug, PartialEq, Eq, Structural)]
pub struct Screen {
    /// Blocks per osu!pixel, in thousandths.
    pub scale: i32,
    /// The depth of the wall.
    pub screen_z: i32,
}

/// `n / d` with the fraction dropped, for a positive `d`.
pub open spec fn truncated(n: int, d: int) -> int {
    if n >= 0 {
        n / d
    } else {
        -((-n) / d)
    }
}

/// `n / 1000` rounded down, as it is computed.
fn floor_thousandths(n: i128) -> (q: i128)
    requires
        -0x1000_0000_0000_0000_0000 <= n <= 0x1000_0000_0000_0000_0000,
    ensures
        q as int == n as int / 1000,
{
    if n >= 0 {
        n / 1000
    } else if (-n) % 1000 == 0 {
        -((-n) / 1000)
    } else {
        -((-n) / 1000) - 1
    }
}

/// `n / d` with the fraction dropped, as it is computed.
fn truncated_div(n: i64, d: i64) -> (q: i64)
    requires
        0 < d,
        n > i64::MIN,
    ensures
        q as int == truncated(n as int, d as int),
{
    if n >= 0 {
        n / d
    } else {
        let magnitude: i64 = (-n) / d;
        assert(0 <= magnitude <= -n) by (nonlinear_arith)
            requires
                magnitude as int == (-n) / (d as int),
                n < 0,
                0 < d,
        ;
        -magnitude
    }
}

impl Screen {
    /// The width of the playfield in blocks: 640 osu!pixels at the screen's
    /// scale, the fraction dropped.
    pub open spec fn width(self) -> int {
        truncated(DEFAULT_SCREEN_WIDTH * self.scale, 1000)
    }

    /// The height of the playfield in blocks: 480 osu!pixels at the screen's
    /// scale, the fraction dropped.
    pub open spec fn height(self) -> int {
        truncated(DEFAULT_SCREEN_HEIGHT * self.scale, 1000)
    }

    /// The margin to the left and right of the playfield: half its width.
    pub open spec fn margin_x(self) -> int {
        truncated(self.width(), 2)
    }

    /// The margin above and below the playfield: half its height.
    pub open spec fn margin_y(self) -> int {
        truncated(self.height(), 2)
    }

    /// Where the centre of `object`'s circle lies, `depth` layers behind the
    /// wall. The playfield is mirrored from left to right, as the player
    /// stands behind it, and lifted by the lower margin; a centre between two
    /// blocks falls to the lower one.
    pub open spec fn center_coords(self, object: &HitObject, depth: int) -> (int, int, int) {
        (
            self.width() + (0 - object.x() * self.scale) / 1000,
            (object.y() * self.scale) / 1000 + self.margin_y(),
            self.screen_z + depth,
        )
    }

    /// The centre block of `object`'s circle, if the world has such a block.
    pub open spec fn center_spec(self, object: &HitObject, depth: int) -> Option<BlockPos> {
        let (x, y, z) = self.center_coords(object, depth);
        if i32::MIN <= x <= i32::MAX && i32::MIN <= y <= i32::MAX && i32::MIN <= z <= i32::MAX {
            Some(BlockPos { x: x as i32, y: y as i32, z: z as i32 })
        } else {
            None
        }
    }

    /// Where players stand, in thousandths of a block: before the wall, at
    /// `640 / 1.75`, `480 * 2 / 2.25` and `-500` osu!pixels, at the screen's
    /// scale; fractions of a thousandth are dropped downwards.
    pub open spec fn spawn_thousandths(self) -> (int, int, int) {
        (2560 * self.scale / 7, 1280 * self.scale / 3, -500 * self.scale)
    }

    /// The block on which players stand: one below and one behind the block
    /// that holds their position.
    pub open spec fn spawn_block_spec(self) -> BlockPos {
        let spawn = self.spawn_thousandths();
        BlockPos {
            x: truncated(spawn.0, 1000) as i32,
            y: (truncated(spawn.1, 1000) - 1) as i32,
            z: (truncated(spawn.2, 1000) - 1) as i32,
        }
    }

    /// The wall of the screen: the columns from `x.0` to `x.1` and the rows
    /// from `y.0` to `y.1`, at depth `z`. The wall covers the playfield and
    /// its margins.
    pub open spec fn wall_spec(self) -> ((int, int), (int, int), int) {
        (
            (-self.margin_x(), self.width() + self.margin_x()),
            (0, self.height() + 2 * self.margin_y()),
            1,
        )
    }

    /// The chunks to load: the chunk columns from `x.0` to `x.1` and from
    /// `z.0` to `z.1`. They hold the wall and the place where players stand,
    /// and a chunk more on every side.
    pub open spec fn chunks_spec(self) -> ((int, int), (int, int)) {
        (
            (
                -1 - truncated(self.margin_x(), 16),
                truncated(self.width() + self.margin_x(), 16) + 1,
            ),
            (truncated(truncated(self.spawn_thousandths().2, 1000), 16) - 1, 1),
        )
    }

    /// Where players stand, in thousandths of a block.
    pub fn player_spawn_pos(&self) -> (position: (i64, i64, i64))
        ensures
            (position.0 as int, position.1 as int, position.2 as int)
                == self.spawn_thousandths(),
    {
        let scale: i64 = self.scale as i64;
        let x: i64 = if scale >= 0 {
            2560 * scale / 7
        } else if (2560 * -scale) % 7 == 0 {
            -((2560 * -scale) / 7)
        } else {
            -((2560 * -scale) / 7) - 1
        };
        let y: i64 = if scale >= 0 {
            1280 * scale / 3
        } else if (1280 * -scale) % 3 == 0 {
            -((1280 * -scale) / 3)
        } else {
            -((1280 * -scale) / 3) - 1
        };
        (x, y, 0 - 500 * scale)
    }

    /// The block on which players stand.
    pub fn spawn_block(&self) -> (block: BlockPos)
        ensures
            block == self.spawn_block_spec(),
    {
        let spawn = self.player_spawn_pos();
        BlockPos {
            x: truncated_div(spawn.0, 1000) as i32,
            y: (truncated_div(spawn.1, 1000) - 1) as i32,
            z: (truncated_div(spawn.2, 1000) - 1) as i32,
        }
    }

    /// The columns, the rows and the depth of the wall of the screen.
    pub fn wall(&self) -> (wall: ((i64, i64), (i64, i64), i64))
        ensures
            ((wall.0.0 as int, wall.0.1 as int), (wall.1.0 as int, wall.1.1 as int), wall.2 as int)
                == self.wall_spec(),
    {
        let size = self.screen_size();
        let margin = self.screen_margin();
        (
            (-(margin.0 as i64), size.0 as i64 + margin.0 as i64),
            (0, size.1 as i64 + 2 * (margin.1 as i64)),
            1,
        )
    }

    /// The chunk columns to load.
    pub fn chunks(&self) -> (chunks: ((i64, i64), (i64, i64)))
        ensures
            ((chunks.0.0 as int, chunks.0.1 as int), (chunks.1.0 as int, chunks.1.1 as int))
                == self.chunks_spec(),
    {
        let size = self.screen_size();
        let margin = self.screen_margin();
        let spawn = self.player_spawn_pos();
        let max_x: i64 = size.0 as i64 + margin.0 as i64;
        let max_z: i64 = truncated_div(spawn.2, 1000);
        (
            (-1 - truncated_div(margin.0 as i64, 16), truncated_div(max_x, 16) + 1),
            (truncated_div(max_z, 16) - 1, 1),
        )
    }

    /// The size of the playfield, in blocks.
    pub fn screen_size(&self) -> (size: (i32, i32))
        ensures
            size.0 as int == self.width(),
            size.1 as int == self.height(),
    {
        let x: i64 = truncated_div(DEFAULT_SCREEN_WIDTH * (self.scale as i64), 1000);
        let y: i64 = truncated_div(DEFAULT_SCREEN_HEIGHT * (self.scale as i64), 1000);
        (x as i32, y as i32)
    }

    /// The margin around the playfield, in blocks.
    pub fn screen_margin(&self) -> (margin: (i32, i32))
        ensures
            margin.0 as int == self.margin_x(),
            margin.1 as int == self.margin_y(),
    {
        let size = self.screen_size();
        let x: i64 = truncated_div(size.0 as i64, 2);
        let y: i64 = truncated_div(size.1 as i64, 2);
        (x as i32, y as i32)
    }

    /// The centre block of `object`'s circle, `depth` layers behind the wall,
    /// or `None` where that is no block of the world.
    pub fn center_of(&self, object: &HitObject, depth: i32) -> (center: Option<BlockPos>)
        ensures
            center == self.center_spec(object, depth as int),
    {
        let size = self.screen_size();
        let margin = self.screen_margin();
        let scale: i128 = self.scale as i128;
        let px: i128 = object.x() as i128;
        let py: i128 = object.y() as i128;
        assert(-0x1_0000_0000 * 0x8000_0000 <= px * scale <= 0x1_0000_0000 * 0x8000_0000
            && -0x1_0000_0000 * 0x8000_0000 <= py * scale <= 0x1_0000_0000 * 0x8000_0000)
            by (nonlinear_arith)
            requires
                0 <= px <= 0x1_0000_0000,
                0 <= py <= 0x1_0000_0000,
                -0x8000_0000 <= scale <= 0x8000_0000,
        ;
        let x: i128 = size.0 as i128 + floor_thousandths(0 - px * scale);
        let y: i128 = floor_thousandths(py * scale) + margin.1 as i128;
        let z: i128 = self.screen_z as i128 + depth as i128;
        if i32::MIN as i128 <= x && x <= i32::MAX as i128 && i32::MIN as i128 <= y && y
            <= i32::MAX as i128 && i32::MIN as i128 <= z && z <= i32::MAX as i128 {
            Some(BlockPos { x: x as i32, y: y as i32, z: z as i32 })
        } else {
            None
        }
    }
}

/// The lead that is taken off the time of the first hit object to give the
/// length of the countdown, in milliseconds.
pub const PRE_ROLL_LEAD_MS: u32 = 3000;

/// The length of a tick of the countdown, in milliseconds.
pub const PRE_ROLL_TICK_MS: u32 = 50;

/// The countdown of a beatmap without hit objects, in ticks.
pub const PRE_ROLL_DEFAULT_TICKS: usize = 60;

/// The longest countdown there can be, in ticks: that of a first hit object
/// at the latest time that can be written.
pub const PRE_ROLL_MAX_TICKS: usize = 85_899_285;

/// The beatmaps of one song, among which the player chooses.
#[derive(Clone, Debug)]
pub struct BeatmapSelectionData {
    pub beatmap_dir: String,
    /// The audio file to play while the player chooses, if the first beatmap
    /// names one that is there.
    pub preview_audio: Option<String>,
}

/// What the session is doing.
#[derive(Clone, Debug)]
pub enum OsuState {
    SongSelection,
    BeatmapSelection,
    PrePlaying { ticks_left: usize, beatmap: Beatmap },
    Playing(Beatmap),
    ScoreDisplay,
}

/// A request to move the session to another state.
#[derive(Debug)]
pub enum OsuStateChange {
    SongSelection,
    BeatmapSelection(BeatmapSelectionData),
    PrePlaying { beatmap: Beatmap },
    Playing(Beatmap),
    ScoreDisplay(Beatmap),
    Failed,
}

/// The line shown above the players' hotbars.
#[derive(Clone, Copy, Debug, PartialEq, Eq, Structural)]
pub enum ActionBar {
    /// How to open the song selection.
    OpenSongSelection,
    /// How to open the beatmap selection.
    OpenBeatmapSelection,
    /// The beatmap starts in this many seconds.
    StartsIn { seconds: usize },
    /// Nothing.
    Empty,
}

/// Something for the world around the session to do.
#[derive(Debug)]
pub enum Effect {
    StopMusic,
    SetMusic(String),
    PlayMusic,
    /// Open the song selection for this player.
    OpenSongSelection { client: u64 },
    /// Open the beatmap selection for this player.
    OpenBeatmapSelection { client: u64 },
    /// Show this line above every player's hotbar.
    ActionBar(ActionBar),
    /// Show the totals of the attempt in the health bar; accuracy in
    /// thousandths of a percent, health in hundred-thousandths.
    HealthBar { score: u128, combo: usize, accuracy: u32, health: u32 },
    /// Tell the players how the attempt went.
    ShowScore(Beatmap),
    /// Tell the players that the attempt failed.
    BeatmapFailed,
    RemoveHealthBar,
}

/// What a tick of the session is given.
#[derive(Debug)]
pub struct TickInput {
    /// Ticks per second; at least one during a countdown.
    pub tps: usize,
    /// The playback position of the music in microseconds, or `None` where
    /// the player could not tell.
    pub play_time: Option<u64>,
    pub music_finished: bool,
    /// How many of the oldest hit circles have gone from the world unjudged.
    pub lost_heads: usize,
    /// The clicks since the last tick, in order.
    pub clicks: Vec<Click>,
    /// The players who started to sneak since the last tick, in order.
    pub sneaks: Vec<u64>,
}

/// What a tick of the session brings about.
#[derive(Debug)]
pub struct TickOutput {
    /// What happened to hit circles, in order.
    pub circles: Vec<PlayEvent>,
    /// What there is to do after that, in order.
    pub effects: Vec<Effect>,
}

/// The session: the screen and the state of play.
#[derive(Debug)]
pub struct Osu {
    screen: Screen,
    state: Option<OsuState>,
    beatmap_selection_data: Option<BeatmapSelectionData>,
}

/// The ticks to count down before a beatmap with these hit objects starts:
/// the time of the first hit object less the lead, in whole ticks, and none
/// where the first hit object comes within the lead; the default where there
/// is no hit object.
pub open spec fn pre_roll_ticks(objects: Seq<HitObject>) -> nat {
    if objects.len() == 0 {
        PRE_ROLL_DEFAULT_TICKS as nat
    } else if objects[0].time() <= PRE_ROLL_LEAD_MS {
        0
    } else {
        ((objects[0].time() - PRE_ROLL_LEAD_MS) / PRE_ROLL_TICK_MS as int) as nat
    }
}

/// What starts the preview of a song's beatmaps.
pub open spec fn preview_effects(data: BeatmapSelectionData) -> Seq<Effect> {
    match data.preview_audio {
        Some(path) => seq![Effect::SetMusic(path), Effect::PlayMusic],
        None => Seq::empty(),
    }
}

/// What there is to do when play returns to a selection: the music stops,
/// and the preview of the song's beatmaps starts where a song is chosen.
pub open spec fn return_effects(selection: Option<BeatmapSelectionData>) -> Seq<Effect> {
    match selection {
        Some(data) => seq![Effect::StopMusic] + preview_effects(data),
        None => seq![Effect::StopMusic],
    }
}

/// The state to which play returns when an attempt is over: the beatmaps of
/// the chosen song, or the songs where none is chosen.
pub open spec fn returned_state(selection: Option<BeatmapSelectionData>) -> OsuState {
    match selection {
        Some(_) => OsuState::BeatmapSelection,
        None => OsuState::SongSelection,
    }
}

/// The state after a change.
pub open spec fn changed_state(
    change: OsuStateChange,
    selection: Option<BeatmapSelectionData>,
) -> OsuState {
    match change {
        OsuStateChange::SongSelection => OsuState::SongSelection,
        OsuStateChange::BeatmapSelection(_) => OsuState::BeatmapSelection,
        OsuStateChange::PrePlaying { beatmap } => OsuState::PrePlaying {
            ticks_left: pre_roll_ticks(beatmap.data_spec().hit_objects@) as usize,
            beatmap,
        },
        OsuStateChange::Playing(beatmap) => OsuState::Playing(beatmap),
        OsuStateChange::ScoreDisplay(_) => returned_state(selection),
        OsuStateChange::Failed => returned_state(selection),
    }
}

/// The chosen song after a change.
pub open spec fn changed_selection(
    change: OsuStateChange,
    selection: Option<BeatmapSelectionData>,
) -> Option<BeatmapSelectionData> {
    match change {
        OsuStateChange::BeatmapSelection(data) => Some(data),
        _ => selection,
    }
}

/// What there is to do for a change. Every change stops the music first.
pub open spec fn change_effects(
    change: OsuStateChange,
    selection: Option<BeatmapSelectionData>,
) -> Seq<Effect> {
    match change {
        OsuStateChange::SongSelection => seq![Effect::StopMusic],
        OsuStateChange::BeatmapSelection(data) => seq![Effect::StopMusic] + preview_effects(
            data,
        ),
        OsuStateChange::PrePlaying { beatmap } => seq![Effect::StopMusic],
        OsuStateChange::Playing(beatmap) => seq![
            Effect::StopMusic,
            Effect::SetMusic(beatmap.data_spec().audio_path),
            Effect::PlayMusic,
        ],
        OsuStateChange::ScoreDisplay(beatmap) => seq![
            Effect::StopMusic,
            Effect::ShowScore(beatmap),
            Effect::RemoveHealthBar,
        ] + return_effects(selection),
        OsuStateChange::Failed => seq![
            Effect::StopMusic,
            Effect::BeatmapFailed,
            Effect::RemoveHealthBar,
        ] + return_effects(selection),
    }
}

/// The line above the hotbar in a state, at `tps` ticks per second.
pub open spec fn action_bar_of(state: Option<OsuState>, tps: usize) -> ActionBar {
    match state {
        Some(OsuState::SongSelection) => ActionBar::OpenSongSelection,
        Some(OsuState::BeatmapSelection) => ActionBar::OpenBeatmapSelection,
        Some(OsuState::PrePlaying { ticks_left, .. }) => ActionBar::StartsIn {
            seconds: (ticks_left as int / tps as int + 1) as usize,
        },
        _ => ActionBar::Empty,
    }
}

/// The request of each player who sneaks to open a selection: that of the
/// songs, or that of the beatmaps.
pub open spec fn sneak_effects(sneaks: Seq<u64>, songs: bool) -> Seq<Effect> {
    Seq::new(
        sneaks.len(),
        |i: int|
            if songs {
                Effect::OpenSongSelection { client: sneaks[i] }
            } else {
                Effect::OpenBeatmapSelection { client: sneaks[i] }
            },
    )
}

/// The health bar that shows these totals.
pub open spec fn health_bar_of(totals: BeatmapStateView) -> Effect {
    Effect::HealthBar {
        score: totals.score as u128,
        combo: totals.combo as usize,
        accuracy: totals.accuracy() as u32,
        health: totals.health as u32,
    }
}

impl OsuState {
    /// A beatmap that is played can be played, and is not failed. A beatmap
    /// that is about to be played has the totals of a fresh attempt, and its
    /// countdown is no longer than the longest there can be.
    pub open spec fn wf(self) -> bool {
        match self {
            OsuState::PrePlaying { ticks_left, beatmap } => {
                &&& beatmap.wf()
                &&& beatmap.state_spec().is_fresh()
                &&& ticks_left <= PRE_ROLL_MAX_TICKS
            },
            OsuState::Playing(beatmap) => beatmap.wf() && beatmap.state_spec()@.health > 0,
            _ => true,
        }
    }
}

impl OsuStateChange {
    /// A beatmap to be played can be played, and is not failed; one whose
    /// countdown is to start has the totals of a fresh attempt.
    pub open spec fn wf(self) -> bool {
        match self {
            OsuStateChange::PrePlaying { beatmap } => beatmap.wf()
                && beatmap.state_spec().is_fresh(),
            OsuStateChange::Playing(beatmap) => beatmap.wf() && beatmap.state_spec()@.health > 0,
            _ => true,
        }
    }
}

impl TickInput {
    /// What of the input a tick of play is given, at playback position
    /// `play_time`.
    pub open spec fn for_play(self, play_time: u64) -> PlayInput {
        PlayInput {
            tps: self.tps,
            play_time,
            lost_heads: self.lost_heads,
            clicks: self.clicks,
        }
    }
}

impl Osu {
    /// The screen of the session.
    pub closed spec fn screen_spec(&self) -> Screen {
        self.screen
    }

    /// The state of the session; none before its first tick.
    pub closed spec fn state_spec(&self) -> Option<OsuState> {
        self.state
    }

    /// The song whose beatmaps the player last chose among, if any.
    pub closed spec fn selection_spec(&self) -> Option<BeatmapSelectionData> {
        self.beatmap_selection_data
    }

    /// The state of the session is sound.
    pub open spec fn wf(&self) -> bool {
        match self.state_spec() {
            Some(state) => state.wf(),
            None => true,
        }
    }

    /// A session on a screen of scale `scale` (in thousandths), not started.
    pub fn new(scale: i32) -> (osu: Osu)
        ensures
            osu.wf(),
            osu.state_spec() is None,
            osu.selection_spec() is None,
            osu.screen_spec() == (Screen { scale, screen_z: 0 }),
    {
        Osu { screen: Screen { scale, screen_z: 0 }, state: None, beatmap_selection_data: None }
    }

    /// The screen of the session.
    pub fn screen(&self) -> (screen: Screen)
        ensures
            screen == self.screen_spec(),
    {
        self.screen
    }

    /// Where players stand, in thousandths of a block.
    pub fn player_spawn_pos(&self) -> (position: (i64, i64, i64))
        ensures
            (position.0 as int, position.1 as int, position.2 as int)
                == self.screen_spec().spawn_thousandths(),
    {
        self.screen.player_spawn_pos()
    }

    /// Blocks per osu!pixel, in thousandths.
    pub fn scale(&self) -> (scale: i32)
        ensures
            scale == self.screen_spec().scale,
    {
        self.screen.scale
    }

    /// The state of the session.
    pub fn state(&self) -> (state: &Option<OsuState>)
        ensures
            *state == self.state_spec(),
    {
        &self.state
    }

    /// Whether the session counts down to a beatmap.
    pub open spec fn counts_down(&self) -> bool {
        self.state_spec() matches Some(OsuState::PrePlaying { .. })
    }

    /// The line to show above the hotbar. A countdown is told in seconds,
    /// which takes a tick rate above zero.
    pub fn get_action_bar(&self, tps: usize) -> (bar: ActionBar)
        requires
            self.wf(),
            self.counts_down() ==> tps > 0,
        ensures
            bar == action_bar_of(self.state_spec(), tps),
    {
        match &self.state {
            Some(OsuState::SongSelection) => ActionBar::OpenSongSelection,
            Some(OsuState::BeatmapSelection) => ActionBar::OpenBeatmapSelection,
            Some(OsuState::PrePlaying { ticks_left, .. }) => ActionBar::StartsIn {
                seconds: *ticks_left / tps + 1,
            },
            _ => ActionBar::Empty,
        }
    }

    /// Returns to the beatmaps of the chosen song, or to the songs.
    fn return_to_selection(&mut self, effects: &mut Vec<Effect>)
        requires
            old(self).state_spec() is None,
        ensures
            final(self).wf(),
            final(self).screen_spec() == old(self).screen_spec(),
            final(self).state_spec() == Some(returned_state(old(self).selection_spec())),
            final(self).selection_spec() == old(self).selection_spec(),
            final(effects)@ == old(effects)@ + return_effects(old(self).selection_spec()),
    {
        effects.push(Effect::StopMusic);
        match self.beatmap_selection_data.take() {
            Some(data) => {
                match &data.preview_audio {
                    Some(path) => {
                        effects.push(Effect::SetMusic(path.clone()));
                        effects.push(Effect::PlayMusic);
                    },
                    None => {},
                }
                self.beatmap_selection_data = Some(data);
                self.state = Some(OsuState::BeatmapSelection);
            },
            None => {
                self.state = Some(OsuState::SongSelection);
            },
        }
        assert(effects@ =~= old(effects)@ + return_effects(old(self).selection_spec()));
    }

    /// Moves the session to another state, and says what there is to do for
    /// it. The music stops at every change; a preview plays while a beatmap
    /// is chosen, and the beatmap's music once it is played. When an attempt
    /// is over, play returns to the beatmaps of the song, or to the songs
    /// where no song is chosen.
    pub fn change_state(&mut self, change: OsuStateChange) -> (effects: Vec<Effect>)
        requires
            old(self).wf(),
            change.wf(),
        ensures
            final(self).wf(),
            final(self).screen_spec() == old(self).screen_spec(),
            final(self).state_spec() == Some(changed_state(change, old(self).selection_spec())),
            final(self).selection_spec() == changed_selection(
                change,
                old(self).selection_spec(),
            ),
            effects@ == change_effects(change, old(self).selection_spec()),
    {
        let mut effects: Vec<Effect> = Vec::new();
        effects.push(Effect::StopMusic);
        match change {
            OsuStateChange::SongSelection => {
                self.state = Some(OsuState::SongSelection);
            },
            OsuStateChange::BeatmapSelection(data) => {
                match &data.preview_audio {
                    Some(path) => {
                        effects.push(Effect::SetMusic(path.clone()));
                        effects.push(Effect::PlayMusic);
                    },
                    None => {},
                }
                self.beatmap_selection_data = Some(data);
                self.state = Some(OsuState::BeatmapSelection);
            },
            OsuStateChange::PrePlaying { beatmap } => {
                let objects = &beatmap.data().hit_objects;
                let ticks_left: usize = if objects.len() == 0 {
                    PRE_ROLL_DEFAULT_TICKS
                } else if objects[0].time() <= PRE_ROLL_LEAD_MS {
                    0
                } else {
                    ((objects[0].time() - PRE_ROLL_LEAD_MS) / PRE_ROLL_TICK_MS) as usize
                };
                self.state = Some(OsuState::PrePlaying { ticks_left, beatmap });
            },
            OsuStateChange::Playing(beatmap) => {
                effects.push(Effect::SetMusic(beatmap.data().audio_path.clone()));
                effects.push(Effect::PlayMusic);
                self.state = Some(OsuState::Playing(beatmap));
            },
            OsuStateChange::ScoreDisplay(beatmap) => {
                effects.push(Effect::ShowScore(beatmap));
                effects.push(Effect::RemoveHealthBar);
                self.state = None;
                self.return_to_selection(&mut effects);
            },
            OsuStateChange::Failed => {
                effects.push(Effect::BeatmapFailed);
                effects.push(Effect::RemoveHealthBar);
                self.state = None;
                self.return_to_selection(&mut effects);
            },
        }
        assert(effects@ =~= change_effects(change, old(self).selection_spec()));
        effects
    }

    /// What a tick does to a session that waits at a selection: the state
    /// stays, every player who sneaks is shown the selection, and the hotbar
    /// line says how to open it.
    pub open spec fn selection_tick(
        before: Osu,
        input: TickInput,
        after: Osu,
        out: TickOutput,
        songs: bool,
    ) -> bool {
        &&& after.state_spec() == before.state_spec()
        &&& after.selection_spec() == before.selection_spec()
        &&& out.circles@.len() == 0
        &&& out.effects@ == sneak_effects(input.sneaks@, songs) + seq![
            Effect::ActionBar(action_bar_of(before.state_spec(), input.tps)),
        ]
    }

    /// What a tick does to a countdown: it goes down by one, and at zero the
    /// beatmap starts to play.
    pub open spec fn countdown_tick(
        before: Osu,
        input: TickInput,
        after: Osu,
        out: TickOutput,
        ticks_left: usize,
        beatmap: Beatmap,
    ) -> bool {
        &&& after.selection_spec() == before.selection_spec()
        &&& out.circles@.len() == 0
        &&& if ticks_left == 0 {
            &&& after.state_spec() == Some(OsuState::Playing(beatmap))
            &&& out.effects@ == seq![
                Effect::ActionBar(action_bar_of(before.state_spec(), input.tps)),
            ] + change_effects(OsuStateChange::Playing(beatmap), before.selection_spec())
        } else {
            &&& after.state_spec() == Some(
                OsuState::PrePlaying { ticks_left: (ticks_left - 1) as usize, beatmap },
            )
            &&& out.effects@ == seq![
                Effect::ActionBar(action_bar_of(after.state_spec(), input.tps)),
            ]
        }
    }

    /// What a tick does to a beatmap that is played, at playback position
    /// `play_time`. The beatmap goes through a tick of play, and the health
    /// bar shows the new totals. Then, where health has run out, the attempt
    /// has failed: the players are told and play returns to a selection.
    /// Else, where nothing is left of the beatmap and the music is over, the
    /// players are shown how the attempt went, and play returns to a
    /// selection. Else the beatmap plays on.
    pub open spec fn play_tick(
        before: Osu,
        input: TickInput,
        after: Osu,
        out: TickOutput,
        beatmap: Beatmap,
        play_time: u64,
    ) -> bool {
        let totals = beatmap.state_spec()@.ticked(
            beatmap.data_spec(),
            beatmap.depths_spec(),
            before.screen_spec(),
            input.for_play(play_time),
        );
        let shown = seq![health_bar_of(totals), Effect::ActionBar(ActionBar::Empty)];
        &&& after.selection_spec() == before.selection_spec()
        &&& out.circles@ == tick_events(
            beatmap.state_spec()@,
            beatmap.data_spec(),
            beatmap.depths_spec(),
            before.screen_spec(),
            input.for_play(play_time),
        )
        &&& match totals.outcome(beatmap.data_spec().hit_objects@.len(), input.music_finished) {
            None => {
                &&& after.state_spec() matches Some(OsuState::Playing(played))
                &&& played.continues(&beatmap)
                &&& played.state_spec()@ == totals
                &&& out.effects@ == shown
            },
            Some(Outcome::Failed) => {
                &&& after.state_spec() == Some(returned_state(before.selection_spec()))
                &&& out.effects@ == shown + change_effects(
                    OsuStateChange::Failed,
                    before.selection_spec(),
                )
            },
            Some(Outcome::Finished) => {
                &&& after.state_spec() == Some(returned_state(before.selection_spec()))
                &&& out.effects@.len() == 5 + return_effects(before.selection_spec()).len()
                &&& out.effects@[3] matches Effect::ShowScore(played)
                &&& played.continues(&beatmap)
                &&& played.state_spec()@ == totals
                &&& out.effects@ == shown + change_effects(
                    OsuStateChange::ScoreDisplay(played),
                    before.selection_spec(),
                )
            },
        }
    }

    /// What a tick does to the session, state by state.
    pub open spec fn update_result(
        before: Osu,
        input: TickInput,
        after: Osu,
        out: TickOutput,
    ) -> bool {
        &&& after.screen_spec() == before.screen_spec()
        &&& match before.state_spec() {
            None => {
                &&& after.state_spec() == Some(OsuState::SongSelection)
                &&& after.selection_spec() == before.selection_spec()
                &&& out.circles@.len() == 0
                &&& out.effects@ == seq![Effect::ActionBar(ActionBar::Empty)] + change_effects(
                    OsuStateChange::SongSelection,
                    before.selection_spec(),
                )
            },
            Some(OsuState::SongSelection) => Osu::selection_tick(before, input, after, out, true),
            Some(OsuState::BeatmapSelection) => Osu::selection_tick(
                before,
                input,
                after,
                out,
                false,
            ),
            Some(OsuState::ScoreDisplay) => {
                &&& after.state_spec() == before.state_spec()
                &&& after.selection_spec() == before.selection_spec()
                &&& out.circles@.len() == 0
                &&& out.effects@ == seq![Effect::ActionBar(ActionBar::Empty)]
            },
            Some(OsuState::PrePlaying { ticks_left, beatmap }) => Osu::countdown_tick(
                before,
                input,
                after,
                out,
                ticks_left,
                beatmap,
            ),
            Some(OsuState::Playing(beatmap)) => match input.play_time {
                Some(play_time) => Osu::play_tick(before, input, after, out, beatmap, play_time),
                None => {
                    &&& after.state_spec() == before.state_spec()
                    &&& after.selection_spec() == before.selection_spec()
                    &&& out.circles@.len() == 0
                    &&& out.effects@.len() == 0
                },
            },
        }
    }

    /// The totals of the beatmap that a session plays, after a tick with
    /// `input`; `None` where the session does not play, or the playback
    /// position is not known.
    pub open spec fn played_totals(before: Osu, input: TickInput) -> Option<BeatmapStateView> {
        match (before.state_spec(), input.play_time) {
            (Some(OsuState::Playing(beatmap)), Some(play_time)) => Some(
                beatmap.state_spec()@.ticked(
                    beatmap.data_spec(),
                    beatmap.depths_spec(),
                    before.screen_spec(),
                    input.for_play(play_time),
                ),
            ),
            _ => None,
        }
    }

    /// Health that runs out during a tick ends the attempt in that very tick:
    /// the session no longer plays after it, the players are told that the
    /// attempt failed, and play is back at a selection.
    pub proof fn lemma_failure_in_the_same_tick(
        before: Osu,
        input: TickInput,
        after: Osu,
        out: TickOutput,
    )
        requires
            Osu::update_result(before, input, after, out),
            Osu::played_totals(before, input) matches Some(totals) && totals.health == 0,
        ensures
            after.state_spec() == Some(returned_state(before.selection_spec())),
            !(after.state_spec() matches Some(OsuState::Playing(_))),
            out.effects@.len() >= 5,
            out.effects@[3] == Effect::BeatmapFailed,
    {
    }

    /// A beatmap starts to play with the totals of a fresh attempt: nothing
    /// judged, no score, no combo, full health.
    pub proof fn lemma_play_starts_fresh(
        before: Osu,
        input: TickInput,
        after: Osu,
        out: TickOutput,
    )
        requires
            before.wf(),
            Osu::update_result(before, input, after, out),
            before.state_spec() matches Some(OsuState::PrePlaying { ticks_left, .. })
                && ticks_left == 0,
        ensures
            after.state_spec() matches Some(OsuState::Playing(beatmap))
                && beatmap.state_spec().is_fresh(),
    {
    }

    /// A beatmap that is still played after a tick has health left.
    pub proof fn lemma_playing_has_health(
        before: Osu,
        input: TickInput,
        after: Osu,
        out: TickOutput,
    )
        requires
            Osu::update_result(before, input, after, out),
            Osu::played_totals(before, input) is Some,
            after.state_spec() matches Some(OsuState::Playing(_)),
        ensures
            after.state_spec() matches Some(OsuState::Playing(played))
                && played.state_spec()@.health > 0,
    {
    }

    /// The requests of the players who sneak, added to `effects`.
    fn push_sneak_effects(sneaks: &Vec<u64>, songs: bool, effects: &mut Vec<Effect>)
        ensures
            final(effects)@ == old(effects)@ + sneak_effects(sneaks@, songs),
    {
        let mut i: usize = 0;
        while i < sneaks.len()
            invariant
                i <= sneaks@.len(),
                effects@.len() == old(effects)@.len() + i,
                forall|k: int| 0 <= k < old(effects)@.len() ==> effects@[k] == old(effects)@[k],
                forall|k: int|
                    0 <= k < i ==> effects@[old(effects)@.len() + k] == sneak_effects(
                        sneaks@,
                        songs,
                    )[k],
            decreases sneaks@.len() - i,
        {
            if songs {
                effects.push(Effect::OpenSongSelection { client: sneaks[i] });
            } else {
                effects.push(Effect::OpenBeatmapSelection { client: sneaks[i] });
            }
            i += 1;
        }
        assert(effects@ =~= old(effects)@ + sneak_effects(sneaks@, songs));
    }

    /// Runs one tick of the session. Before its first tick the session goes
    /// to the song selection. At a selection, the players who sneak are shown
    /// it. A countdown goes down and, at zero, starts the beatmap. A beatmap
    /// that is played goes through a tick of play at the given playback
    /// position, and ends in failure in the very tick in which health runs
    /// out; where the music player could not tell the position, nothing
    /// happens in this tick. A countdown is told in seconds, which takes a
    /// tick rate above zero.
    pub fn update(&mut self, input: TickInput) -> (out: TickOutput)
        requires
            old(self).wf(),
            old(self).counts_down() ==> input.tps > 0,
        ensures
            final(self).wf(),
            Osu::update_result(*old(self), input, *final(self), out),
    {
        let mut effects: Vec<Effect> = Vec::new();
        let mut circles: Vec<PlayEvent> = Vec::new();
        let ghost selection = self.beatmap_selection_data;
        match self.state.take() {
            None => {
                effects.push(Effect::ActionBar(ActionBar::Empty));
                let mut more = self.change_state(OsuStateChange::SongSelection);
                effects.append(&mut more);
                assert(effects@ =~= seq![Effect::ActionBar(ActionBar::Empty)] + change_effects(
                    OsuStateChange::SongSelection,
                    selection,
                ));
            },
            Some(OsuState::SongSelection) => {
                Osu::push_sneak_effects(&input.sneaks, true, &mut effects);
                effects.push(Effect::ActionBar(ActionBar::OpenSongSelection));
                self.state = Some(OsuState::SongSelection);
                assert(effects@ =~= sneak_effects(input.sneaks@, true) + seq![
                    Effect::ActionBar(ActionBar::OpenSongSelection),
                ]);
            },
            Some(OsuState::BeatmapSelection) => {
                Osu::push_sneak_effects(&input.sneaks, false, &mut effects);
                effects.push(Effect::ActionBar(ActionBar::OpenBeatmapSelection));
                self.state = Some(OsuState::BeatmapSelection);
                assert(effects@ =~= sneak_effects(input.sneaks@, false) + seq![
                    Effect::ActionBar(ActionBar::OpenBeatmapSelection),
                ]);
            },
            Some(OsuState::ScoreDisplay) => {
                effects.push(Effect::ActionBar(ActionBar::Empty));
                self.state = Some(OsuState::ScoreDisplay);
                assert(effects@ =~= seq![Effect::ActionBar(ActionBar::Empty)]);
            },
            Some(OsuState::PrePlaying { ticks_left, beatmap }) => {
                if ticks_left == 0 {
                    effects.push(Effect::ActionBar(ActionBar::StartsIn { seconds: 1 }));
                    let mut more = self.change_state(OsuStateChange::Playing(beatmap));
                    effects.append(&mut more);
                    assert(effects@ =~= seq![
                        Effect::ActionBar(ActionBar::StartsIn { seconds: 1 }),
                    ] + change_effects(OsuStateChange::Playing(beatmap), selection));
                } else {
                    let left: usize = ticks_left - 1;
                    effects.push(
                        Effect::ActionBar(ActionBar::StartsIn { seconds: left / input.tps + 1 }),
                    );
                    self.state = Some(OsuState::PrePlaying { ticks_left: left, beatmap });
                    assert(effects@ =~= seq![
                        Effect::ActionBar(
                            ActionBar::StartsIn { seconds: (left / input.tps + 1) as usize },
                        ),
                    ]);
                }
            },
            Some(OsuState::Playing(beatmap)) => {
                match input.play_time {
                    None => {
                        self.state = Some(OsuState::Playing(beatmap));
                    },
                    Some(play_time) => {
                        let mut played = beatmap;
                        let play_input = PlayInput {
                            tps: input.tps,
                            play_time,
                            lost_heads: input.lost_heads,
                            clicks: input.clicks,
                        };
                        circles = played.tick(&self.screen, &play_input);
                        let totals = played.state();
                        effects.push(
                            Effect::HealthBar {
                                score: totals.score,
                                combo: totals.combo,
                                accuracy: totals.accuracy(),
                                health: totals.health,
                            },
                        );
                        effects.push(Effect::ActionBar(ActionBar::Empty));
                        let ghost shown = seq![
                            health_bar_of(played.state_spec()@),
                            Effect::ActionBar(ActionBar::Empty),
                        ];
                        assert(effects@ =~= shown);
                        match played.outcome(input.music_finished) {
                            None => {
                                self.state = Some(OsuState::Playing(played));
                            },
                            Some(Outcome::Failed) => {
                                let mut more = self.change_state(OsuStateChange::Failed);
                                effects.append(&mut more);
                                assert(effects@ =~= shown + change_effects(
                                    OsuStateChange::Failed,
                                    selection,
                                ));
                            },
                            Some(Outcome::Finished) => {
                                let mut more = self.change_state(
                                    OsuStateChange::ScoreDisplay(played),
                                );
                                effects.append(&mut more);
                                assert(effects@ =~= shown + change_effects(
                                    OsuStateChange::ScoreDisplay(played),
                                    selection,
                                ));
                                assert(effects@[3] == Effect::ShowScore(played));
                            },
                        }
                    },
                }
            },
        }
        let out = TickOutput { circles, effects };
        out
    }
}

} // verus!
