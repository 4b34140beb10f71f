//! The beatmap selection: the beatmaps of the chosen song, one per slot.

use vstd::prelude::*;
use vstd::string::StringExecFns;
use crate::beatmap::{name_of, DecodedBeatmap};

verus! {

/// The slot of the button that leads back to the song selection.
pub const SONG_SELECTION_SLOT: u16 = 45;

/// The last slot of the window.
pub const LAST_SLOT: u16 = 53;

/// A beatmap file: what it holds, and where it lies.
#[derive(Clone, Debug)]
pub struct BeatmapFile {
    osu_file: DecodedBeatmap,
    path: String,
}

/// The beatmaps of the chosen song.
#[derive(Debug)]
pub struct BeatmapSelectionInventory {
    beatmaps: Vec<BeatmapFile>,
}

/// A directory without beatmaps was to be shown.
#[derive(Clone, Copy, Debug, PartialEq, Eq, Structural)]
pub struct NoBeatmapFound;

/// What a click in the beatmap selection brought about.
#[derive(Debug)]
pub enum BeatmapClick {
    /// Back to the song selection.
    BackToSongs,
    /// The beatmap in this file is to be played.
    Play { beatmap_path: String },
    /// Nothing.
    Ignored,
}

/// What the item of a beatmap says.
#[derive(Clone, Debug)]
pub struct BeatmapItem {
    pub title: String,
    pub difficulty_name: String,
    pub artist: String,
    pub od: String,
    pub ar: String,
    pub cs: String,
    pub hp: String,
}

/// The difficulty setting that `text` gives, as it is written, or "Not
/// defined".
pub open spec fn setting_text(text: Option<String>) -> Seq<char> {
    match text {
        Some(written) => written@,
        None => "Not defined"@,
    }
}

/// The text of a name: what is given, or "Not named".
fn name_text(text: &Option<String>) -> (name: String)
    ensures
        name@ == name_of(*text),
{
    match text {
        Some(name) => name.clone(),
        None => String::from_str("Not named"),
    }
}

/// The text of a difficulty setting: what is given, or "Not defined".
fn setting_text_of(text: &Option<String>) -> (setting: String)
    ensures
        setting@ == setting_text(*text),
{
    match text {
        Some(written) => written.clone(),
        None => String::from_str("Not defined"),
    }
}

impl BeatmapFile {
    /// What the file holds.
    pub closed spec fn osu_file_spec(&self) -> DecodedBeatmap {
        self.osu_file
    }

    /// Where the file lies.
    pub closed spec fn path_spec(&self) -> String {
        self.path
    }

    /// The beatmap file at `path`, which holds `osu_file`.
    pub fn new(osu_file: DecodedBeatmap, path: String) -> (file: BeatmapFile)
        ensures
            file.osu_file_spec() == osu_file,
            file.path_spec() == path,
    {
        BeatmapFile { osu_file, path }
    }

    /// What the file holds.
    pub fn osu_file(&self) -> (osu_file: &DecodedBeatmap)
        ensures
            *osu_file == self.osu_file_spec(),
    {
        &self.osu_file
    }

    /// Where the file lies.
    pub fn path(&self) -> (path: &String)
        ensures
            *path == self.path_spec(),
    {
        &self.path
    }

    /// What the item of the beatmap says: its names, and its difficulty
    /// settings as they are written. A beatmap whose file lacks the metadata
    /// or the difficulty section has no item.
    pub fn item(&self) -> (item: Option<BeatmapItem>)
        ensures
            item is Some <==> self.osu_file_spec().has_metadata
                && self.osu_file_spec().has_difficulty,
            item matches Some(item) ==> {
                &&& item.title@ == name_of(self.osu_file_spec().title)
                &&& item.difficulty_name@ == name_of(self.osu_file_spec().version)
                &&& item.artist@ == name_of(self.osu_file_spec().artist)
                &&& item.od@ == setting_text(self.osu_file_spec().overall_difficulty)
                &&& item.ar@ == setting_text(self.osu_file_spec().approach_rate)
                &&& item.cs@ == setting_text(self.osu_file_spec().circle_size)
                &&& item.hp@ == setting_text(self.osu_file_spec().hp_drain_rate)
            },
    {
        if !self.osu_file.has_metadata || !self.osu_file.has_difficulty {
            return None;
        }
        Some(
            BeatmapItem {
                title: name_text(&self.osu_file.title),
                difficulty_name: name_text(&self.osu_file.version),
                artist: name_text(&self.osu_file.artist),
                od: setting_text_of(&self.osu_file.overall_difficulty),
                ar: setting_text_of(&self.osu_file.approach_rate),
                cs: setting_text_of(&self.osu_file.circle_size),
                hp: setting_text_of(&self.osu_file.hp_drain_rate),
            },
        )
    }
}

impl BeatmapSelectionInventory {
    /// The beatmaps that are shown.
    pub closed spec fn beatmaps_spec(&self) -> Seq<BeatmapFile> {
        self.beatmaps@
    }

    /// A selection that shows nothing.
    pub fn new() -> (selection: BeatmapSelectionInventory)
        ensures
            selection.beatmaps_spec().len() == 0,
    {
        BeatmapSelectionInventory { beatmaps: Vec::new() }
    }

    /// Shows the beatmaps found in a song's directory. Where none was found,
    /// the selection stays as it is.
    pub fn load_beatmap_dir(&mut self, beatmaps: Vec<BeatmapFile>) -> (loaded: Result<
        (),
        NoBeatmapFound,
    >)
        ensures
            loaded is Ok <==> beatmaps@.len() > 0,
            loaded is Ok ==> final(self).beatmaps_spec() == beatmaps@,
            loaded is Err ==> final(self).beatmaps_spec() == old(self).beatmaps_spec(),
    {
        if beatmaps.len() == 0 {
            Err(NoBeatmapFound)
        } else {
            self.beatmaps = beatmaps;
            Ok(())
        }
    }

    /// The beatmaps that are shown.
    pub fn beatmaps(&self) -> (beatmaps: &Vec<BeatmapFile>)
        ensures
            beatmaps@ == self.beatmaps_spec(),
    {
        &self.beatmaps
    }

    /// The slot that a click is on; clicks outside the window count for the
    /// slot of the same number.
    pub open spec fn slot_of(slot_id: i16) -> nat {
        if slot_id < 0 {
            (-slot_id) as nat
        } else {
            slot_id as nat
        }
    }

    /// Handles a click on slot `slot_id`: the button leads back to the songs,
    /// a beatmap is to be played, and any other click does nothing.
    pub fn click(&self, slot_id: i16) -> (clicked: BeatmapClick)
        ensures
            ({
                let slot = BeatmapSelectionInventory::slot_of(slot_id);
                if slot == SONG_SELECTION_SLOT {
                    clicked is BackToSongs
                } else if slot < self.beatmaps_spec().len() {
                    clicked == (BeatmapClick::Play {
                        beatmap_path: self.beatmaps_spec()[slot as int].path_spec(),
                    })
                } else {
                    clicked is Ignored
                }
            }),
    {
        let slot: usize = if slot_id < 0 {
            (-(slot_id as i32)) as usize
        } else {
            slot_id as usize
        };
        if slot == SONG_SELECTION_SLOT as usize {
            BeatmapClick::BackToSongs
        } else if slot < self.beatmaps.len() {
            BeatmapClick::Play { beatmap_path: self.beatmaps[slot].path.clone() }
        } else {
            BeatmapClick::Ignored
        }
    }
}

} // verus!
