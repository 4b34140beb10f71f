//! The song selection: the songs that are there, filtered by keywords and
//! laid out in pages.

use vstd::prelude::*;
use vstd::string::StrSliceExecFns;
use fuzzy_matcher::skim::SkimMatcherV2;
use fuzzy_matcher::FuzzyMatcher;
use crate::order::{is_stable_order, stable_order};
use crate::text::{remove, split_once, split_once_spec, without};

verus! {

/// The slot of the button that leads to the previous page.
pub const PREVIOUS_PAGE_SLOT: u16 = 45;

/// The slot of the button that leads to the next page.
pub const NEXT_PAGE_SLOT: u16 = 53;

/// The number of songs on a page.
pub const PAGE_SIZE: usize = 36;

/// The longest name and the longest keywords, in characters, that are held
/// against each other.
pub const MAX_MATCH_LEN: usize = 0x10_0000;

/// The directory of a song: its path, and its own name where that can be
/// written as text.
#[derive(Clone, Debug)]
pub struct SongDir {
    pub path: String,
    pub file_name: Option<String>,
}

/// The song selection: all songs that pass the filter, best match first, and
/// the page that is shown.
#[derive(Debug)]
pub struct SongSelectionInventory {
    cur_page: usize,
    songs: Vec<SongDir>,
    keywords: Option<String>,
}

/// A song as the selection shows it.
#[derive(Clone, Debug)]
pub struct Song {
    pub name: String,
    pub artist: String,
}

/// What the window of the song selection shows.
#[derive(Clone, Debug)]
pub struct SongSelectionLayout {
    /// The keywords of the filter, to go into the title.
    pub filter: Option<String>,
    /// The songs of the page, one per slot, from the first slot on.
    pub songs: Vec<Song>,
    /// The number of the next page and the number of pages, where a page
    /// follows; page numbers count from 1.
    pub next_page: Option<(usize, usize)>,
    /// The number of the previous page and the number of pages, where a page
    /// comes before.
    pub previous_page: Option<(usize, usize)>,
}

/// What a click in the song selection brought about.
#[derive(Debug)]
pub enum SongClick {
    /// Another page is shown.
    PageChanged,
    /// This song was chosen.
    Selected(SongDir),
    /// Nothing.
    Ignored,
}

/// The score that the skim matcher, made to ignore case, gives to `choice`
/// for `pattern`, or `None` where `choice` does not match.
pub uninterp spec fn skim_score(choice: Seq<char>, pattern: Seq<char>) -> Option<i64>;

/// Calls `SkimMatcherV2::fuzzy_match` of the crate fuzzy-matcher on a matcher
/// with default settings that ignores case. The contract only names the
/// result: the score depends on nothing but the two texts. Texts of more than
/// [`MAX_MATCH_LEN`] characters are kept out; the matcher counts in 32 bits.
#[verifier::external_body]
fn skim_fuzzy_match(choice: &str, pattern: &str) -> (score: Option<i64>)
    requires
        choice@.len() <= MAX_MATCH_LEN,
        pattern@.len() <= MAX_MATCH_LEN,
    ensures
        score == skim_score(choice@, pattern@),
{
    SkimMatcherV2::default().ignore_case().fuzzy_match(choice, pattern)
}

/// How well `name` matches `pattern`, or `None` where it does not match or
/// one of the two is longer than [`MAX_MATCH_LEN`].
pub open spec fn match_score(name: Seq<char>, pattern: Seq<char>) -> Option<i64> {
    if name.len() <= MAX_MATCH_LEN && pattern.len() <= MAX_MATCH_LEN {
        skim_score(name, pattern)
    } else {
        None
    }
}

/// How well `name` matches `pattern`, if it does.
pub fn fuzzy_match(name: &str, pattern: &str) -> (score: Option<i64>)
    ensures
        score == match_score(name@, pattern@),
{
    if name.unicode_len() <= MAX_MATCH_LEN && pattern.unicode_len() <= MAX_MATCH_LEN {
        skim_fuzzy_match(name, pattern)
    } else {
        None
    }
}

impl SongDir {
    /// How well the song matches `pattern`: the score of its name, if it has
    /// one that matches.
    pub open spec fn score(&self, pattern: Seq<char>) -> Option<i64> {
        match self.file_name {
            Some(name) => match_score(name@, pattern),
            None => None,
        }
    }

    /// A copy of the song directory.
    pub fn duplicate(&self) -> (copy: SongDir)
        ensures
            copy == *self,
    {
        SongDir {
            path: self.path.clone(),
            file_name: match &self.file_name {
                Some(name) => Some(name.clone()),
                None => None,
            },
        }
    }
}

/// The songs of `songs` that match `pattern`, as they stood.
pub open spec fn matching(songs: Seq<SongDir>, pattern: Seq<char>) -> Seq<SongDir> {
    songs.filter(|song: SongDir| song.score(pattern) is Some)
}

/// The keys that put `songs` in order of descending score.
pub open spec fn ranking_keys(songs: Seq<SongDir>, pattern: Seq<char>) -> Seq<i128> {
    Seq::new(
        songs.len(),
        |i: int|
            match songs[i].score(pattern) {
                Some(score) => (-(score as int)) as i128,
                None => 0i128,
            },
    )
}

/// Whether `ranked` holds the songs of `songs` by descending score for
/// `pattern`, songs of equal score as they stood.
pub open spec fn is_ranking(songs: Seq<SongDir>, pattern: Seq<char>, ranked: Seq<SongDir>) -> bool {
    &&& ranked.len() == songs.len()
    &&& exists|order: Seq<usize>|
        is_stable_order(ranking_keys(songs, pattern), order) && forall|p: int|
            0 <= p < ranked.len() ==> #[trigger] ranked[p] == songs[order[p] as int]
}

/// Whether `filtered` is what a filter makes of `songs`: without a filter,
/// the songs as they are; with one, the songs that match it, best first.
pub open spec fn is_filtered(
    songs: Seq<SongDir>,
    filter: Option<Seq<char>>,
    filtered: Seq<SongDir>,
) -> bool {
    match filter {
        Some(pattern) => is_ranking(matching(songs, pattern), pattern, filtered),
        None => filtered == songs,
    }
}

/// The keywords of a filter, as a sequence.
pub open spec fn filter_view(filter: Option<&str>) -> Option<Seq<char>> {
    match filter {
        Some(pattern) => Some(pattern@),
        None => None,
    }
}

/// The index of the last page of `songs` songs; pages count from 0.
pub open spec fn last_page(songs: nat) -> nat {
    if songs == 0 {
        0
    } else {
        ((songs - 1) / PAGE_SIZE as int) as nat
    }
}

/// The songs on page `page`.
pub open spec fn page_of(songs: Seq<SongDir>, page: nat) -> Seq<SongDir> {
    let start = page * PAGE_SIZE;
    if start >= songs.len() {
        Seq::empty()
    } else if start + PAGE_SIZE <= songs.len() {
        songs.subrange(start as int, start + PAGE_SIZE)
    } else {
        songs.subrange(start as int, songs.len() as int)
    }
}

impl SongSelectionInventory {
    /// The songs that pass the filter, best match first.
    pub closed spec fn songs_spec(&self) -> Seq<SongDir> {
        self.songs@
    }

    /// The index of the page that is shown.
    pub closed spec fn page_spec(&self) -> usize {
        self.cur_page
    }

    /// The keywords of the filter, if one is set.
    pub closed spec fn keywords_spec(&self) -> Option<String> {
        self.keywords
    }

    /// A selection of all of `songs`, unfiltered, on its first page.
    pub fn new(songs: Vec<SongDir>) -> (selection: SongSelectionInventory)
        ensures
            selection.songs_spec() == songs@,
            selection.page_spec() == 0,
            selection.keywords_spec() is None,
    {
        SongSelectionInventory { cur_page: 0, songs, keywords: None }
    }

    /// What a filter makes of `songs`: without keywords, all of them as they
    /// stand; with keywords, those whose name matches them, by descending
    /// score, songs of equal score as they stood.
    pub fn filter_songs(songs: Vec<SongDir>, filter: Option<&str>) -> (filtered: Vec<SongDir>)
        ensures
            is_filtered(songs@, filter_view(filter), filtered@),
    {
        let pattern = match filter {
            Some(pattern) => pattern,
            None => {
                return songs;
            },
        };
        let ghost matched = |song: SongDir| song.score(pattern@) is Some;
        let mut kept: Vec<SongDir> = Vec::new();
        let mut keys: Vec<i128> = Vec::new();
        let mut i: usize = 0;
        proof {
            reveal(Seq::filter);
            assert(songs@.take(0) =~= Seq::<SongDir>::empty());
        }
        while i < songs.len()
            invariant
                i <= songs@.len(),
                matched == (|song: SongDir| song.score(pattern@) is Some),
                kept@ == songs@.take(i as int).filter(matched),
                keys@.len() == kept@.len(),
                forall|k: int|
                    0 <= k < keys@.len() ==> #[trigger] keys@[k] == ranking_keys(
                        kept@,
                        pattern@,
                    )[k],
            decreases songs@.len() - i,
        {
            let song = &songs[i];
            let score = match &song.file_name {
                Some(name) => fuzzy_match(name.as_str(), pattern),
                None => None,
            };
            proof {
                reveal(Seq::filter);
                assert(songs@.take(i + 1).drop_last() =~= songs@.take(i as int));
                assert(songs@.take(i + 1).last() == songs@[i as int]);
            }
            match score {
                Some(score) => {
                    kept.push(song.duplicate());
                    keys.push(-(score as i128));
                },
                None => {},
            }
            i += 1;
        }
        assert(songs@.take(i as int) =~= songs@);
        assert(keys@ =~= ranking_keys(kept@, pattern@));
        let order = stable_order(&keys);
        let mut ranked: Vec<SongDir> = Vec::new();
        let mut p: usize = 0;
        while p < order.len()
            invariant
                p <= order@.len(),
                order@.len() == kept@.len(),
                is_stable_order(ranking_keys(kept@, pattern@), order@),
                ranked@.len() == p,
                forall|k: int| 0 <= k < p ==> #[trigger] ranked@[k] == kept@[order@[k] as int],
            decreases order@.len() - p,
        {
            ranked.push(kept[order[p]].duplicate());
            p += 1;
        }
        ranked
    }

    /// Shows the next page.
    pub fn go_to_next_page(&mut self)
        requires
            old(self).page_spec() < usize::MAX,
        ensures
            final(self).page_spec() == old(self).page_spec() + 1,
            final(self).songs_spec() == old(self).songs_spec(),
            final(self).keywords_spec() == old(self).keywords_spec(),
    {
        self.cur_page += 1;
    }

    /// Shows the previous page.
    pub fn go_to_previous_page(&mut self)
        requires
            old(self).page_spec() > 0,
        ensures
            final(self).page_spec() == old(self).page_spec() - 1,
            final(self).songs_spec() == old(self).songs_spec(),
            final(self).keywords_spec() == old(self).keywords_spec(),
    {
        self.cur_page -= 1;
    }

    /// Filters `all_songs` by `keywords`, or shows them all where there are
    /// none, and goes back to the first page.
    pub fn set_filter(&mut self, all_songs: Vec<SongDir>, keywords: Option<&str>)
        ensures
            is_filtered(all_songs@, filter_view(keywords), final(self).songs_spec()),
            final(self).page_spec() == 0,
            match keywords {
                Some(text) => final(self).keywords_spec() matches Some(kept) && kept@ == text@,
                None => final(self).keywords_spec() is None,
            },
    {
        self.songs = SongSelectionInventory::filter_songs(all_songs, keywords);
        self.keywords = match keywords {
            Some(text) => Some(text.to_owned()),
            None => None,
        };
        self.cur_page = 0;
    }

    /// The keywords of the filter, if one is set.
    pub fn keywords(&self) -> (keywords: &Option<String>)
        ensures
            *keywords == self.keywords_spec(),
    {
        &self.keywords
    }

    /// The index of the page that is shown.
    pub fn cur_page(&self) -> (page: usize)
        ensures
            page == self.page_spec(),
    {
        self.cur_page
    }

    /// The songs on the page that is shown.
    pub fn page_song_paths(&self) -> (page: Vec<SongDir>)
        ensures
            page@ == page_of(self.songs_spec(), self.page_spec() as nat),
            page@.len() <= PAGE_SIZE,
    {
        let n: usize = self.songs.len();
        let mut page: Vec<SongDir> = Vec::new();
        let start: usize = match self.cur_page.checked_mul(PAGE_SIZE) {
            Some(start) => start,
            None => {
                assert(page@ =~= page_of(self.songs@, self.cur_page as nat));
                return page;
            },
        };
        if start >= n {
            assert(page@ =~= page_of(self.songs@, self.cur_page as nat));
            return page;
        }
        let end: usize = if n - start >= PAGE_SIZE {
            start + PAGE_SIZE
        } else {
            n
        };
        let mut i: usize = start;
        while i < end
            invariant
                start <= i <= end <= n,
                n == self.songs@.len(),
                page@.len() == i - start,
                forall|k: int| 0 <= k < i - start ==> page@[k] == self.songs@[start + k],
            decreases end - i,
        {
            page.push(self.songs[i].duplicate());
            i += 1;
        }
        assert(page@ =~= page_of(self.songs@, self.cur_page as nat));
        page
    }

    /// The index of the last page.
    pub fn max_page(&self) -> (page: usize)
        ensures
            page as nat == last_page(self.songs_spec().len()),
            page < usize::MAX,
    {
        if self.songs.len() == 0 {
            0
        } else {
            (self.songs.len() - 1) / PAGE_SIZE
        }
    }

    /// Whether a page follows the one that is shown.
    pub fn has_next_page(&self) -> (has: bool)
        ensures
            has == (self.page_spec() < last_page(self.songs_spec().len())),
            has ==> self.page_spec() < usize::MAX,
    {
        self.cur_page < self.max_page()
    }

    /// Whether a page comes before the one that is shown.
    pub fn has_previous_page(&self) -> (has: bool)
        ensures
            has == (self.page_spec() != 0),
    {
        self.cur_page != 0
    }

    /// The slot that a click is on; clicks outside the window count for the
    /// slot of the same number.
    pub open spec fn slot_of(slot_id: i16) -> nat {
        if slot_id < 0 {
            (-slot_id) as nat
        } else {
            slot_id as nat
        }
    }

    /// Handles a click on slot `slot_id`. A click on the button for the next
    /// page, where there is a next page, shows it, and likewise for the
    /// previous page; a click on a song chooses it; any other click does
    /// nothing.
    pub fn click(&mut self, slot_id: i16) -> (clicked: SongClick)
        ensures
            final(self).songs_spec() == old(self).songs_spec(),
            final(self).keywords_spec() == old(self).keywords_spec(),
            ({
                let slot = SongSelectionInventory::slot_of(slot_id);
                let songs = old(self).songs_spec();
                let page = old(self).page_spec();
                if slot_id == NEXT_PAGE_SLOT && page < last_page(songs.len()) {
                    clicked is PageChanged && final(self).page_spec() == page + 1
                } else if slot_id == PREVIOUS_PAGE_SLOT && page != 0 {
                    clicked is PageChanged && final(self).page_spec() == page - 1
                } else if slot < page_of(songs, page as nat).len() {
                    clicked == SongClick::Selected(page_of(songs, page as nat)[slot as int])
                        && final(self).page_spec() == page
                } else {
                    clicked is Ignored && final(self).page_spec() == page
                }
            }),
    {
        if slot_id == NEXT_PAGE_SLOT as i16 && self.has_next_page() {
            self.go_to_next_page();
            return SongClick::PageChanged;
        }
        if slot_id == PREVIOUS_PAGE_SLOT as i16 && self.has_previous_page() {
            self.go_to_previous_page();
            return SongClick::PageChanged;
        }
        let slot: usize = if slot_id < 0 {
            (-(slot_id as i32)) as usize
        } else {
            slot_id as usize
        };
        let page = self.page_song_paths();
        if slot < page.len() {
            SongClick::Selected(page[slot].duplicate())
        } else {
            SongClick::Ignored
        }
    }
}

/// The artist and the name of the song in a directory called `file_name`.
/// Song directories are called by a number, a space, the artist, the name
/// after " - ", and possibly the mark "[no video]", which is left out.
/// Directories that are called otherwise show no song.
pub open spec fn song_of(file_name: Seq<char>) -> Option<(Seq<char>, Seq<char>)> {
    match split_once_spec(file_name, " "@) {
        Some((_, rest)) => split_once_spec(without(rest, "[no video]"@), " - "@),
        None => None,
    }
}

/// The artist and the name of the song in `dir`, if its name shows them.
pub open spec fn shown_song(dir: SongDir) -> Option<(Seq<char>, Seq<char>)> {
    match dir.file_name {
        Some(name) => song_of(name@),
        None => None,
    }
}

/// The artist and the name of each song of `dirs` that shows them, in order.
pub open spec fn shown_songs(dirs: Seq<SongDir>) -> Seq<(Seq<char>, Seq<char>)>
    decreases dirs.len(),
{
    if dirs.len() == 0 {
        Seq::empty()
    } else {
        let before = shown_songs(dirs.drop_last());
        match shown_song(dirs.last()) {
            Some(song) => before.push(song),
            None => before,
        }
    }
}

/// The artist and the name of the song in a directory called `file_name`.
pub fn read_song(file_name: &str) -> (song: Option<Song>)
    ensures
        match song {
            Some(song) => song_of(file_name@) == Some((song.artist@, song.name@)),
            None => song_of(file_name@) is None,
        },
{
    let rest = match split_once(file_name, " ") {
        Some((_, rest)) => rest,
        None => {
            return None;
        },
    };
    let cleaned = remove(rest.as_str(), "[no video]");
    match split_once(cleaned.as_str(), " - ") {
        Some((artist, name)) => Some(Song { artist, name }),
        None => None,
    }
}

impl SongSelectionInventory {
    /// The songs on the page that is shown, as far as their directories show
    /// an artist and a name.
    pub fn page_songs(&self) -> (songs: Vec<Song>)
        ensures
            songs@.len() == shown_songs(
                page_of(self.songs_spec(), self.page_spec() as nat),
            ).len(),
            forall|k: int|
                0 <= k < songs@.len() ==> (#[trigger] songs@[k].artist@, songs@[k].name@)
                    == shown_songs(page_of(self.songs_spec(), self.page_spec() as nat))[k],
    {
        let page = self.page_song_paths();
        let mut songs: Vec<Song> = Vec::new();
        let mut i: usize = 0;
        assert(page@.take(0) =~= Seq::<SongDir>::empty());
        while i < page.len()
            invariant
                i <= page@.len(),
                songs@.len() == shown_songs(page@.take(i as int)).len(),
                forall|k: int|
                    0 <= k < songs@.len() ==> (#[trigger] songs@[k].artist@, songs@[k].name@)
                        == shown_songs(page@.take(i as int))[k],
            decreases page@.len() - i,
        {
            assert(page@.take(i + 1).drop_last() =~= page@.take(i as int));
            assert(page@.take(i + 1).last() == page@[i as int]);
            let song = match &page[i].file_name {
                Some(name) => read_song(name.as_str()),
                None => None,
            };
            match song {
                Some(song) => {
                    songs.push(song);
                },
                None => {},
            }
            i += 1;
        }
        assert(page@.take(i as int) =~= page@);
        songs
    }
}

impl SongSelectionInventory {
    /// What the window shows: the filter, the songs of the page, and the
    /// buttons to the next page and to the previous one, where there is such
    /// a page.
    pub fn layout(&self) -> (layout: SongSelectionLayout)
        ensures
            layout.filter == self.keywords_spec(),
            layout.songs@.len() == shown_songs(
                page_of(self.songs_spec(), self.page_spec() as nat),
            ).len(),
            forall|k: int|
                0 <= k < layout.songs@.len() ==> (
                    #[trigger] layout.songs@[k].artist@,
                    layout.songs@[k].name@,
                ) == shown_songs(page_of(self.songs_spec(), self.page_spec() as nat))[k],
            layout.next_page == if self.page_spec() < last_page(self.songs_spec().len()) {
                Some(
                    (
                        (self.page_spec() + 2) as usize,
                        (last_page(self.songs_spec().len()) + 1) as usize,
                    ),
                )
            } else {
                None
            },
            layout.previous_page == if self.page_spec() != 0 {
                Some((self.page_spec(), (last_page(self.songs_spec().len()) + 1) as usize))
            } else {
                None
            },
    {
        let pages: usize = self.max_page() + 1;
        let filter = match &self.keywords {
            Some(keywords) => Some(keywords.clone()),
            None => None,
        };
        SongSelectionLayout {
            filter,
            songs: self.page_songs(),
            next_page: if self.has_next_page() {
                Some((self.cur_page + 2, pages))
            } else {
                None
            },
            previous_page: if self.has_previous_page() {
                Some((self.cur_page, pages))
            } else {
                None
            },
        }
    }
}

} // verus!
