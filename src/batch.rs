use vstd::prelude::*;
use crate::dictionary::DictionaryColumn;
use crate::record::{Playlist, PlaylistView, Track, TrackView, tracks_view};

verus! {

/// The frozen columns of the tracks of all playlists, flattened into one struct array.
#[derive(Debug)]
pub struct TrackArrays {
    pub pos: Vec<u16>,
    pub duration_ms: Vec<i64>,
    pub artist_name: DictionaryColumn,
    pub artist_uri: DictionaryColumn,
    pub track_uri: DictionaryColumn,
    pub track_name: DictionaryColumn,
    pub album_uri: DictionaryColumn,
    pub album_name: DictionaryColumn,
}

impl TrackArrays {
    /// Number of tracks.
    pub open spec fn len(&self) -> nat {
        self.pos@.len()
    }

    /// All child columns have one entry per track, and every code is in range.
    pub open spec fn wf(&self) -> bool {
        &&& self.duration_ms@.len() == self.len()
        &&& self.artist_name.wf() && self.artist_name.view().len() == self.len()
        &&& self.artist_uri.wf() && self.artist_uri.view().len() == self.len()
        &&& self.track_uri.wf() && self.track_uri.view().len() == self.len()
        &&& self.track_name.wf() && self.track_name.view().len() == self.len()
        &&& self.album_uri.wf() && self.album_uri.view().len() == self.len()
        &&& self.album_name.wf() && self.album_name.view().len() == self.len()
    }

    /// Each of the six dictionaries holds the distinct strings of its column in
    /// first-seen order.
    pub open spec fn first_seen_dictionaries(&self) -> bool {
        &&& self.artist_name.is_first_seen()
        &&& self.artist_uri.is_first_seen()
        &&& self.track_uri.is_first_seen()
        &&& self.track_name.is_first_seen()
        &&& self.album_uri.is_first_seen()
        &&& self.album_name.is_first_seen()
    }

    /// Track `i`, read back from the columns.
    pub open spec fn row(&self, i: int) -> TrackView {
        TrackView {
            pos: self.pos@[i],
            duration_ms: self.duration_ms@[i],
            artist_name: self.artist_name.view()[i],
            artist_uri: self.artist_uri.view()[i],
            track_uri: self.track_uri.view()[i],
            track_name: self.track_name.view()[i],
            album_uri: self.album_uri.view()[i],
            album_name: self.album_name.view()[i],
        }
    }

    /// All tracks, read back from the columns.
    pub open spec fn view(&self) -> Seq<TrackView> {
        Seq::new(self.len(), |i: int| self.row(i))
    }

    /// Reads track `i` back from the columns.
    pub fn track_at(&self, i: usize) -> (r: Track)
        requires
            self.wf(),
            i < self.len(),
        ensures
            r@ == self.row(i as int),
    {
        Track {
            pos: self.pos[i],
            duration_ms: self.duration_ms[i],
            artist_name: self.artist_name.get(i),
            artist_uri: self.artist_uri.get(i),
            track_uri: self.track_uri.get(i),
            track_name: self.track_name.get(i),
            album_uri: self.album_uri.get(i),
            album_name: self.album_name.get(i),
        }
    }
}

/// The frozen columns of all playlists: one array per top-level field, all with
/// one entry per playlist, and the tracks as a list column of offsets into `tracks`.
#[derive(Debug)]
pub struct RecordBatch {
    pub name: DictionaryColumn,
    pub collaborative: DictionaryColumn,
    pub pid: Vec<i64>,
    pub modified_at: Vec<i64>,
    pub num_tracks: Vec<u16>,
    pub num_albums: Vec<u16>,
    pub num_followers: Vec<i64>,
    pub track_offsets: Vec<i64>,
    pub tracks: TrackArrays,
}

impl RecordBatch {
    /// Number of rows.
    pub open spec fn num_rows(&self) -> nat {
        self.pid@.len()
    }

    /// The offsets of the list column start at zero, never decrease, and end at the
    /// number of tracks.
    pub open spec fn offsets_wf(&self) -> bool {
        let off = self.track_offsets@;
        &&& off.len() == self.num_rows() + 1
        &&& off[0] == 0
        &&& forall|i: int| 0 <= i < self.num_rows() ==> #[trigger] off[i] <= off[i + 1]
        &&& off[self.num_rows() as int] == self.tracks.len()
    }

    /// Every top-level array has one entry per row, and the list column is well formed.
    pub open spec fn wf(&self) -> bool {
        &&& self.name.wf() && self.name.view().len() == self.num_rows()
        &&& self.collaborative.wf() && self.collaborative.view().len() == self.num_rows()
        &&& self.modified_at@.len() == self.num_rows()
        &&& self.num_tracks@.len() == self.num_rows()
        &&& self.num_albums@.len() == self.num_rows()
        &&& self.num_followers@.len() == self.num_rows()
        &&& self.tracks.wf()
        &&& self.offsets_wf()
    }

    /// Every dictionary of the batch, the track columns' included, holds the distinct
    /// strings of its column in first-seen order, so each code is the position of the
    /// row's string among them.
    pub open spec fn first_seen_dictionaries(&self) -> bool {
        &&& self.name.is_first_seen()
        &&& self.collaborative.is_first_seen()
        &&& self.tracks.first_seen_dictionaries()
    }

    /// Row `i`, read back from the columns: codes resolved and its tracks cut out of
    /// the flattened track arrays.
    pub open spec fn row(&self, i: int) -> PlaylistView {
        PlaylistView {
            name: self.name.view()[i],
            collaborative: self.collaborative.view()[i],
            pid: self.pid@[i],
            modified_at: self.modified_at@[i],
            num_tracks: self.num_tracks@[i],
            num_albums: self.num_albums@[i],
            num_followers: self.num_followers@[i],
            tracks: self.tracks.view().subrange(
                self.track_offsets@[i] as int,
                self.track_offsets@[i + 1] as int,
            ),
        }
    }

    /// All rows, read back from the columns.
    pub open spec fn view(&self) -> Seq<PlaylistView> {
        Seq::new(self.num_rows(), |i: int| self.row(i))
    }

    /// Number of rows.
    pub fn len(&self) -> (r: usize)
        ensures
            r == self.num_rows(),
    {
        self.pid.len()
    }

    /// Reads row `i` back from the columns as a record.
    pub fn record_at(&self, i: usize) -> (r: Playlist)
        requires
            self.wf(),
            i < self.num_rows(),
        ensures
            r@ == self.row(i as int),
    {
        proof {
            lemma_offsets_monotone(self, i as int, i as int + 1);
            lemma_offsets_monotone(self, i as int + 1, self.num_rows() as int);
            lemma_offsets_monotone(self, 0, i as int);
        }
        let n_off = self.track_offsets.len();
        let n_tracks = self.tracks.pos.len();
        let start = self.track_offsets[i] as usize;
        let end = self.track_offsets[i + 1] as usize;
        let mut tracks: Vec<Track> = Vec::new();
        let mut j: usize = start;
        while j < end
            invariant
                self.wf(),
                start <= j <= end,
                end <= self.tracks.len(),
                tracks_view(tracks@) =~= self.tracks.view().subrange(start as int, j as int),
            decreases end - j,
        {
            let t = self.tracks.track_at(j);
            let ghost prev = tracks@;
            tracks.push(t);
            assert(tracks@ == prev.push(t));
            assert(tracks_view(tracks@) =~= tracks_view(prev).push(t@));
            assert(self.tracks.view()[j as int] == t@);
            j = j + 1;
        }
        Playlist {
            name: self.name.get(i),
            collaborative: self.collaborative.get(i),
            pid: self.pid[i],
            modified_at: self.modified_at[i],
            num_tracks: self.num_tracks[i],
            num_albums: self.num_albums[i],
            num_followers: self.num_followers[i],
            tracks,
        }
    }
}

proof fn lemma_offsets_step(b: &RecordBatch, i: int, j: int)
    requires
        b.wf(),
        0 <= i <= j <= b.num_rows(),
    ensures
        b.track_offsets@[i] <= b.track_offsets@[j],
    decreases j - i,
{
    if i < j {
        lemma_offsets_step(b, i, j - 1);
        assert(b.track_offsets@[j - 1] <= b.track_offsets@[j]);
    }
}

/// The offsets of every list column never decrease, and the last one is the
/// length of the flattened child array.
pub proof fn lemma_offsets_monotone(b: &RecordBatch, i: int, j: int)
    requires
        b.wf(),
        0 <= i <= j <= b.num_rows(),
    ensures
        0 <= b.track_offsets@[i] <= b.track_offsets@[j] <= b.tracks.len(),
        b.track_offsets@[b.num_rows() as int] == b.tracks.len(),
{
    lemma_offsets_step(b, 0, i);
    lemma_offsets_step(b, i, j);
    lemma_offsets_step(b, j, b.num_rows() as int);
}

} // verus!
