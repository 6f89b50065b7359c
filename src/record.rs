use vstd::prelude::*;

verus! {

/// One track of a playlist, as decoded from a shard.
#[derive(Debug)]
pub struct Track {
    pub pos: u16,
    pub duration_ms: i64,
    pub artist_name: String,
    pub artist_uri: String,
    pub track_uri: String,
    pub track_name: String,
    pub album_uri: String,
    pub album_name: String,
}

/// A track with its text fields as character sequences.
pub struct TrackView {
    pub pos: u16,
    pub duration_ms: i64,
    pub artist_name: Seq<char>,
    pub artist_uri: Seq<char>,
    pub track_uri: Seq<char>,
    pub track_name: Seq<char>,
    pub album_uri: Seq<char>,
    pub album_name: Seq<char>,
}

impl View for Track {
    type V = TrackView;

    open spec fn view(&self) -> TrackView {
        TrackView {
            pos: self.pos,
            duration_ms: self.duration_ms,
            artist_name: self.artist_name@,
            artist_uri: self.artist_uri@,
            track_uri: self.track_uri@,
            track_name: self.track_name@,
            album_uri: self.album_uri@,
            album_name: self.album_name@,
        }
    }
}

/// One playlist record, as decoded from a shard.
#[derive(Debug)]
pub struct Playlist {
    pub name: String,
    pub collaborative: String,
    pub pid: i64,
    pub modified_at: i64,
    pub num_tracks: u16,
    pub num_albums: u16,
    pub num_followers: i64,
    pub tracks: Vec<Track>,
}

/// A playlist with its text fields as character sequences and its tracks as views.
pub struct PlaylistView {
    pub name: Seq<char>,
    pub collaborative: Seq<char>,
    pub pid: i64,
    pub modified_at: i64,
    pub num_tracks: u16,
    pub num_albums: u16,
    pub num_followers: i64,
    pub tracks: Seq<TrackView>,
}

/// The views of a sequence of tracks.
pub open spec fn tracks_view(tracks: Seq<Track>) -> Seq<TrackView> {
    tracks.map_values(|t: Track| t@)
}

/// The views of a sequence of playlists.
pub open spec fn playlists_view(records: Seq<Playlist>) -> Seq<PlaylistView> {
    records.map_values(|p: Playlist| p@)
}

impl View for Playlist {
    type V = PlaylistView;

    open spec fn view(&self) -> PlaylistView {
        PlaylistView {
            name: self.name@,
            collaborative: self.collaborative@,
            pid: self.pid,
            modified_at: self.modified_at,
            num_tracks: self.num_tracks,
            num_albums: self.num_albums,
            num_followers: self.num_followers,
            tracks: tracks_view(self.tracks@),
        }
    }
}

/// The number of tracks in a sequence of playlists.
pub open spec fn track_total(rows: Seq<PlaylistView>) -> nat
    decreases rows.len(),
{
    if rows.len() == 0 {
        0
    } else {
        track_total(rows.drop_last()) + rows.last().tracks.len()
    }
}

/// The tracks of a sequence of playlists, one playlist after the other.
pub open spec fn all_tracks(rows: Seq<PlaylistView>) -> Seq<TrackView>
    decreases rows.len(),
{
    if rows.len() == 0 {
        Seq::empty()
    } else {
        all_tracks(rows.drop_last()) + rows.last().tracks
    }
}

/// Counting one more playlist adds its tracks.
pub proof fn lemma_track_total_take(rows: Seq<PlaylistView>, j: int)
    requires
        0 <= j < rows.len(),
    ensures
        track_total(rows.take(j + 1)) == track_total(rows.take(j)) + rows[j].tracks.len(),
{
    assert(rows.take(j + 1).drop_last() =~= rows.take(j));
}

/// The number of tracks in all `records`, where it fits a `usize`.
pub fn count_tracks(records: &Vec<Playlist>) -> (r: Option<usize>)
    ensures
        r is Some <==> track_total(playlists_view(records@)) <= usize::MAX,
        r matches Some(n) ==> n == track_total(playlists_view(records@)),
{
    let ghost rows = playlists_view(records@);
    let n = records.len();
    let mut total: usize = 0;
    let mut j: usize = 0;
    while j < n
        invariant
            n == records@.len(),
            rows == playlists_view(records@),
            j <= n,
            total == track_total(rows.take(j as int)),
        decreases n - j,
    {
        proof {
            lemma_track_total_take(rows, j as int);
        }
        let count = records[j].tracks.len();
        if count > usize::MAX - total {
            proof {
                lemma_track_total_monotone(rows, j as int + 1, n as int);
                assert(rows.take(n as int) =~= rows);
            }
            return None;
        }
        total = total + count;
        j = j + 1;
    }
    assert(rows.take(n as int) =~= rows);
    Some(total)
}

/// A longer prefix holds at least as many tracks.
pub proof fn lemma_track_total_monotone(rows: Seq<PlaylistView>, j: int, k: int)
    requires
        0 <= j <= k <= rows.len(),
    ensures
        track_total(rows.take(j)) <= track_total(rows.take(k)),
    decreases k - j,
{
    if j < k {
        lemma_track_total_monotone(rows, j, k - 1);
        lemma_track_total_take(rows, k - 1);
    }
}

} // verus!
