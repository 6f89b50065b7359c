use vstd::prelude::*;
use crate::batch::{RecordBatch, TrackArrays, lemma_offsets_monotone};
use crate::dictionary::{DictionaryColumn, DictionaryIndex};
use crate::error::ConvertError;
use crate::record::{
    Playlist, PlaylistView, Track, lemma_track_total_monotone, lemma_track_total_take, playlists_view,
    track_total, tracks_view,
};
use crate::transform::{first_unrescalable, rescale_modified_at, rescaled};

verus! {

/// The largest number of entries that a dictionary can hold: its codes are 32-bit.
pub const MAX_DICTIONARY: usize = 0xffff_ffff;

/// The largest number of tracks that the 64-bit list offsets can address.
pub const MAX_TRACKS: u64 = 0x7fff_ffff_ffff_ffff;

/// Room for `k` more entries in a dictionary column.
pub open spec fn dictionary_room(c: DictionaryColumn, k: nat) -> bool {
    c.dictionary().len() + k <= MAX_DICTIONARY
}

/// Room for `k` more tracks: `k` more entries in each track dictionary, and `k` more
/// tracks behind the list offsets.
pub open spec fn tracks_room(t: TrackArrays, k: nat) -> bool {
    &&& dictionary_room(t.artist_name, k)
    &&& dictionary_room(t.artist_uri, k)
    &&& dictionary_room(t.track_uri, k)
    &&& dictionary_room(t.track_name, k)
    &&& dictionary_room(t.album_uri, k)
    &&& dictionary_room(t.album_name, k)
    &&& t.len() + k <= MAX_TRACKS
}

/// Room for `rows` more rows holding `tracks` more tracks in all, however many of
/// their strings are new: each row may add one entry to each playlist dictionary, and
/// each track one entry to each track dictionary.
pub open spec fn has_room(b: RecordBatch, rows: nat, tracks: nat) -> bool {
    &&& dictionary_room(b.name, rows)
    &&& dictionary_room(b.collaborative, rows)
    &&& tracks_room(b.tracks, tracks)
}


/// The indexes of the six dictionaries of the track columns.
pub struct TrackIndexes {
    artist_name: DictionaryIndex,
    artist_uri: DictionaryIndex,
    track_uri: DictionaryIndex,
    track_name: DictionaryIndex,
    album_uri: DictionaryIndex,
    album_name: DictionaryIndex,
}

impl TrackIndexes {
    /// Each index lists every entry of its dictionary.
    pub closed spec fn indexes(&self, t: &TrackArrays) -> bool {
        &&& self.artist_name.indexes(&t.artist_name)
        &&& self.artist_uri.indexes(&t.artist_uri)
        &&& self.track_uri.indexes(&t.track_uri)
        &&& self.track_name.indexes(&t.track_name)
        &&& self.album_uri.indexes(&t.album_uri)
        &&& self.album_name.indexes(&t.album_name)
    }
}

fn push_track(t: &mut TrackArrays, ix: &mut TrackIndexes, tr: &Track)
    requires
        old(t).wf(),
        old(t).first_seen_dictionaries(),
        old(ix).indexes(old(t)),
        tracks_room(*old(t), 1),
    ensures
        final(t).wf(),
        final(t).first_seen_dictionaries(),
        final(ix).indexes(final(t)),
        final(t).view() == old(t).view().push(tr@),
        final(t).len() == old(t).len() + 1,
        forall|k: nat| tracks_room(*old(t), k + 1) ==> #[trigger] tracks_room(*final(t), k),
{
    t.pos.push(tr.pos);
    t.duration_ms.push(tr.duration_ms);
    t.artist_name.push_first_seen(&mut ix.artist_name, &tr.artist_name);
    t.artist_uri.push_first_seen(&mut ix.artist_uri, &tr.artist_uri);
    t.track_uri.push_first_seen(&mut ix.track_uri, &tr.track_uri);
    t.track_name.push_first_seen(&mut ix.track_name, &tr.track_name);
    t.album_uri.push_first_seen(&mut ix.album_uri, &tr.album_uri);
    t.album_name.push_first_seen(&mut ix.album_name, &tr.album_name);
    assert(t.view() =~= old(t).view().push(tr@));
}

fn push_tracks(t: &mut TrackArrays, ix: &mut TrackIndexes, tracks: &Vec<Track>)
    requires
        old(t).wf(),
        old(t).first_seen_dictionaries(),
        old(ix).indexes(old(t)),
        tracks_room(*old(t), tracks@.len()),
    ensures
        forall|k: nat| tracks_room(*old(t), k + tracks@.len()) ==> #[trigger] tracks_room(*final(t), k),
        final(t).wf(),
        final(t).first_seen_dictionaries(),
        final(ix).indexes(final(t)),
        final(t).view() == old(t).view() + tracks_view(tracks@),
        final(t).len() == old(t).len() + tracks@.len(),
{
    let count = tracks.len();
    let ghost old_t = *t;
    let mut j: usize = 0;
    while j < count
        invariant
            j <= count,
            count == tracks@.len(),
            tracks_room(*t, (count - j) as nat),
            forall|k: nat| tracks_room(old_t, (k + count) as nat) ==> #[trigger] tracks_room(*t, (k + count - j) as nat),
            t.len() == old_t.len() + j,
            t.wf(),
            t.first_seen_dictionaries(),
            ix.indexes(t),
            t.view() == old_t.view() + tracks_view(tracks@.take(j as int)),
        decreases count - j,
    {
        let ghost prev = *t;
        push_track(t, ix, &tracks[j]);
        assert forall|k: nat| tracks_room(old_t, (k + count) as nat) implies #[trigger] tracks_room(
            *t,
            (k + count - (j + 1)) as nat,
        ) by {
            assert(tracks_room(prev, (k + count - j) as nat));
            assert(tracks_room(prev, ((k + count - j - 1) as nat + 1) as nat));
        }
        assert(tracks@.take(j as int + 1) =~= tracks@.take(j as int).push(tracks@[j as int]));
        assert(tracks_view(tracks@.take(j as int + 1)) =~= tracks_view(tracks@.take(j as int)).push(tracks@[j as int]@));
        assert(t.view() =~= old_t.view() + tracks_view(tracks@.take(j as int + 1)));
        j = j + 1;
    }
    assert(tracks@.take(count as int) =~= tracks@);
    assert forall|k: nat| tracks_room(old_t, k + tracks@.len()) implies #[trigger] tracks_room(*t, k) by {
        assert(tracks_room(old_t, (k + count) as nat));
        assert(tracks_room(*t, (k + count - count) as nat));
    }
}

fn empty_dictionary() -> (r: DictionaryColumn)
    ensures
        r.is_first_seen(),
        r.view() == Seq::<Seq<char>>::empty(),
{
    let r = DictionaryColumn { values: Vec::new(), codes: Vec::new() };
    assert(r.dictionary() =~= Seq::<Seq<char>>::empty());
    assert(r.view() =~= Seq::<Seq<char>>::empty());
    r
}

/// Rescaling `modified_at` leaves the tracks alone.
proof fn lemma_rescaled_track_total(rows: Seq<PlaylistView>)
    ensures
        track_total(rows.map_values(|p: PlaylistView| rescaled(p))) == track_total(rows),
    decreases rows.len(),
{
    if rows.len() > 0 {
        assert(rows.map_values(|p: PlaylistView| rescaled(p)).drop_last() =~= rows.drop_last().map_values(
            |p: PlaylistView| rescaled(p),
        ));
        lemma_rescaled_track_total(rows.drop_last());
    }
}

fn min(a: u64, b: u64) -> (r: u64)
    ensures
        r == if a <= b { a } else { b },
{
    if a <= b { a } else { b }
}

/// One growing column per field of a playlist, all advanced together one record at
/// a time; the tracks of all playlists are flattened into one set of track columns,
/// delimited by a list of offsets.
pub struct ColumnBuilderSet {
    batch: RecordBatch,
    name_index: DictionaryIndex,
    collaborative_index: DictionaryIndex,
    track_indexes: TrackIndexes,
}

impl View for ColumnBuilderSet {
    type V = Seq<PlaylistView>;

    open spec fn view(&self) -> Seq<PlaylistView> {
        self.batch().view()
    }
}


impl ColumnBuilderSet {
    /// The columns built so far.
    pub closed spec fn batch(&self) -> RecordBatch {
        self.batch
    }

    /// Every dictionary's index lists all of its entries.
    pub closed spec fn indexed(&self) -> bool {
        &&& self.name_index.indexes(&self.batch.name)
        &&& self.collaborative_index.indexes(&self.batch.collaborative)
        &&& self.track_indexes.indexes(&self.batch.tracks)
    }

    /// The columns are well formed, every dictionary is in first-seen order, indexed
    /// and within its 32-bit codes, and the tracks within the 64-bit offsets.
    pub open spec fn wf(&self) -> bool {
        &&& self.batch().wf()
        &&& self.indexed()
        &&& self.batch().name.is_first_seen()
        &&& self.batch().collaborative.is_first_seen()
        &&& self.batch().tracks.first_seen_dictionaries()
        &&& has_room(self.batch(), 0, 0)
    }

    /// Room for `rows` more rows holding `tracks` more tracks in all.
    pub open spec fn has_room(&self, rows: nat, tracks: nat) -> bool {
        has_room(self.batch(), rows, tracks)
    }

    /// How many more rows, and how many more tracks, the columns have room for.
    fn room(&self) -> (r: (usize, usize))
        requires
            self.wf(),
        ensures
            forall|rows: nat, tracks: nat|
                #[trigger] self.has_room(rows, tracks) <==> rows <= r.0 && tracks <= r.1,
    {
        let b = &self.batch;
        let rows = min(
            (MAX_DICTIONARY - b.name.values.len()) as u64,
            (MAX_DICTIONARY - b.collaborative.values.len()) as u64,
        );
        let t = &b.tracks;
        let mut tracks: u64 = MAX_TRACKS - t.pos.len() as u64;
        tracks = min(tracks, (MAX_DICTIONARY - t.artist_name.values.len()) as u64);
        tracks = min(tracks, (MAX_DICTIONARY - t.artist_uri.values.len()) as u64);
        tracks = min(tracks, (MAX_DICTIONARY - t.track_uri.values.len()) as u64);
        tracks = min(tracks, (MAX_DICTIONARY - t.track_name.values.len()) as u64);
        tracks = min(tracks, (MAX_DICTIONARY - t.album_uri.values.len()) as u64);
        tracks = min(tracks, (MAX_DICTIONARY - t.album_name.values.len()) as u64);
        (rows as usize, tracks as usize)
    }

    /// Number of tracks appended so far.
    pub open spec fn track_count(&self) -> nat {
        self.batch().tracks.len()
    }

    /// An empty set of columns.
    pub fn new() -> (r: ColumnBuilderSet)
        ensures
            r.wf(),
            r@ == Seq::<PlaylistView>::empty(),
            r.track_count() == 0,
    {
        let mut track_offsets: Vec<i64> = Vec::new();
        track_offsets.push(0);
        let r = ColumnBuilderSet {
            batch: RecordBatch {
                name: empty_dictionary(),
                collaborative: empty_dictionary(),
                pid: Vec::new(),
                modified_at: Vec::new(),
                num_tracks: Vec::new(),
                num_albums: Vec::new(),
                num_followers: Vec::new(),
                track_offsets,
                tracks: TrackArrays {
                    pos: Vec::new(),
                    duration_ms: Vec::new(),
                    artist_name: empty_dictionary(),
                    artist_uri: empty_dictionary(),
                    track_uri: empty_dictionary(),
                    track_name: empty_dictionary(),
                    album_uri: empty_dictionary(),
                    album_name: empty_dictionary(),
                },
            },
            name_index: DictionaryIndex::new(),
            collaborative_index: DictionaryIndex::new(),
            track_indexes: TrackIndexes {
                artist_name: DictionaryIndex::new(),
                artist_uri: DictionaryIndex::new(),
                track_uri: DictionaryIndex::new(),
                track_name: DictionaryIndex::new(),
                album_uri: DictionaryIndex::new(),
                album_name: DictionaryIndex::new(),
            },
        };
        assert(r@ =~= Seq::<PlaylistView>::empty());
        r
    }

    /// Number of rows appended so far.
    pub fn len(&self) -> (r: usize)
        ensures
            r == self@.len(),
    {
        self.batch.pid.len()
    }

    /// Number of tracks appended so far.
    pub fn num_tracks(&self) -> (r: usize)
        ensures
            r == self.track_count(),
    {
        self.batch.tracks.pos.len()
    }

    /// Appends one record to every column. Fails, changing nothing, where a dictionary
    /// might outgrow its 32-bit codes or the tracks their 64-bit offsets.
    pub fn append(&mut self, rec: &Playlist) -> (r: Result<(), ConvertError>)
        requires
            old(self).wf(),
        ensures
            final(self).wf(),
            r is Ok <==> old(self).has_room(1, rec.tracks@.len()),
            r is Ok ==> final(self)@ == old(self)@.push(rec@),
            r is Ok ==> forall|rows: nat, tracks: nat|
                old(self).has_room(rows + 1, tracks + rec.tracks@.len())
                    ==> #[trigger] final(self).has_room(rows, tracks),
            r is Ok ==> final(self).track_count() == old(self).track_count() + rec.tracks@.len(),
            r is Err ==> *final(self) == *old(self),
            r matches Err(e) ==> e is CapacityExceeded,
    {
        let n = self.batch.pid.len();
        let n_tracks = self.batch.tracks.pos.len();
        let count = rec.tracks.len();
        let (room_rows, room_tracks) = self.room();
        if room_rows < 1 || count > room_tracks {
            assert(!self.has_room(1, count as nat));
            return Err(ConvertError::CapacityExceeded);
        }
        assert(self.has_room(1, count as nat));
        let ghost old_batch = self.batch;
        proof {
            lemma_offsets_monotone(&old_batch, 0, n as int);
        }
        let b = &mut self.batch;
        b.name.push_first_seen(&mut self.name_index, &rec.name);
        b.collaborative.push_first_seen(&mut self.collaborative_index, &rec.collaborative);
        b.pid.push(rec.pid);
        b.modified_at.push(rec.modified_at);
        b.num_tracks.push(rec.num_tracks);
        b.num_albums.push(rec.num_albums);
        b.num_followers.push(rec.num_followers);
        push_tracks(&mut b.tracks, &mut self.track_indexes, &rec.tracks);
        assert(forall|k: nat| tracks_room(old_batch.tracks, (k + count) as nat) ==> #[trigger] tracks_room(b.tracks, k));
        let last = b.track_offsets[n];
        b.track_offsets.push(last + count as i64);
        let ghost new_batch = self.batch;
        assert(new_batch.tracks.len() == new_batch.tracks.view().len());
        assert(old_batch.tracks.len() == old_batch.tracks.view().len());
        assert forall|i: int| 0 <= i < n implies #[trigger] new_batch.row(i) == old_batch.row(i) by {
            lemma_offsets_monotone(&old_batch, i, i + 1);
            lemma_offsets_monotone(&old_batch, i + 1, n as int);
            assert(new_batch.track_offsets@[i] == old_batch.track_offsets@[i]);
            assert(new_batch.track_offsets@[i + 1] == old_batch.track_offsets@[i + 1]);
            assert(new_batch.tracks.view().subrange(
                old_batch.track_offsets@[i] as int,
                old_batch.track_offsets@[i + 1] as int,
            ) =~= old_batch.tracks.view().subrange(
                old_batch.track_offsets@[i] as int,
                old_batch.track_offsets@[i + 1] as int,
            ));
        }
        assert(new_batch.tracks.view().subrange(
            new_batch.track_offsets@[n as int] as int,
            new_batch.track_offsets@[n as int + 1] as int,
        ) =~= tracks_view(rec.tracks@));
        assert(new_batch.row(n as int) == rec@);
        assert(new_batch.view() =~= old_batch.view().push(rec@));
        Ok(())
    }

    /// Appends the records of one batch, in order. Fails, changing nothing, where a
    /// dictionary might outgrow its 32-bit codes or the tracks their 64-bit offsets.
    pub fn append_batch(&mut self, records: &Vec<Playlist>) -> (r: Result<(), ConvertError>)
        requires
            old(self).wf(),
        ensures
            final(self).wf(),
            r is Ok <==> old(self).has_room(
                records@.len(),
                track_total(playlists_view(records@)),
            ),
            r is Ok ==> final(self)@ == old(self)@ + playlists_view(records@),
            r is Ok ==> final(self).track_count() == old(self).track_count() + track_total(
                playlists_view(records@),
            ),
            r is Err ==> *final(self) == *old(self),
            r matches Err(e) ==> e is CapacityExceeded,
            records@.len() == 0 ==> *final(self) == *old(self),
    {
        let ghost rows = playlists_view(records@);
        let n = records.len();
        if n == 0 {
            assert(rows.take(0) =~= rows);
            assert(old(self)@ + rows =~= old(self)@);
            assert(self.has_room(0, 0));
            return Ok(());
        }
        let (room_rows, room_tracks) = self.room();
        if n > room_rows {
            assert(!self.has_room(n as nat, track_total(rows)));
            return Err(ConvertError::CapacityExceeded);
        }
        let mut total: usize = 0;
        let mut j: usize = 0;
        while j < n
            invariant
                n == records@.len(),
                rows == playlists_view(records@),
                j <= n,
                self.wf(),
                *self == *old(self),
                forall|a: nat, b: nat| #[trigger] self.has_room(a, b) <==> a <= room_rows && b <= room_tracks,
                n <= room_rows,
                total == track_total(rows.take(j as int)),
                total <= room_tracks,
            decreases n - j,
        {
            proof {
                lemma_track_total_take(rows, j as int);
            }
            let count = records[j].tracks.len();
            if count > room_tracks - total {
                proof {
                    lemma_track_total_monotone(rows, j as int + 1, n as int);
                    assert(rows.take(n as int) =~= rows);
                }
                assert(!self.has_room(n as nat, track_total(rows)));
                return Err(ConvertError::CapacityExceeded);
            }
            total = total + count;
            j = j + 1;
        }
        assert(rows.take(n as int) =~= rows);
        assert(self.has_room(n as nat, track_total(rows)));
        let ghost start = *self;
        let mut i: usize = 0;
        while i < n
            invariant
                n == records@.len(),
                rows == playlists_view(records@),
                i <= n,
                self.wf(),
                self.has_room((n - i) as nat, (track_total(rows) - track_total(rows.take(i as int))) as nat),
                track_total(rows.take(i as int)) <= track_total(rows),
                self@ == start@ + rows.take(i as int),
                self.track_count() == start.track_count() + track_total(rows.take(i as int)),
            decreases n - i,
        {
            proof {
                lemma_track_total_take(rows, i as int);
                lemma_track_total_monotone(rows, i as int + 1, n as int);
                assert(rows.take(n as int) =~= rows);
            }
            let ghost before = *self;
            let ghost rest = (track_total(rows) - track_total(rows.take(i as int + 1))) as nat;
            assert(rows[i as int].tracks.len() == records@[i as int].tracks@.len());
            assert(self.has_room(1, records@[i as int].tracks@.len()));
            let r = self.append(&records[i]);
            if r.is_err() {
                return r;
            }
            assert(before.has_room(((n - i - 1) as nat + 1) as nat, rest + records@[i as int].tracks@.len()));
            assert(self.has_room((n - i - 1) as nat, rest));
            assert(rows.take(i as int + 1) =~= rows.take(i as int).push(rows[i as int]));
            assert(self@ =~= start@ + rows.take(i as int + 1));
            i = i + 1;
        }
        Ok(())
    }

    /// Takes in one decoded shard: turns `modified_at` of every record from seconds
    /// into milliseconds, then appends the records in order. Fails, changing nothing,
    /// on the first record whose value would not fit, or where the columns could not
    /// address all the records.
    pub fn ingest_shard(&mut self, shard: Vec<Playlist>) -> (r: Result<(), ConvertError>)
        requires
            old(self).wf(),
        ensures
            final(self).wf(),
            ({
                let rows = playlists_view(shard@);
                let ok = first_unrescalable(rows) == rows.len();
                &&& !ok ==> r == Err::<(), ConvertError>(
                    ConvertError::TypeMismatch { record: first_unrescalable(rows) as usize },
                )
                &&& ok ==> (r is Ok <==> old(self).has_room(rows.len(), track_total(rows)))
                &&& r is Ok ==> final(self)@ == old(self)@ + rows.map_values(
                    |p: PlaylistView| rescaled(p),
                )
                &&& r is Err ==> *final(self) == *old(self)
                &&& rows.len() == 0 ==> *final(self) == *old(self)
            }),
    {
        let ghost rows = playlists_view(shard@);
        let records = match rescale_modified_at(shard) {
            Ok(v) => v,
            Err(e) => {
                return Err(e);
            },
        };
        proof {
            lemma_rescaled_track_total(rows);
            assert(playlists_view(records@).len() == rows.len());
        }
        self.append_batch(&records)
    }

    /// Freezes the columns built so far; the builder is consumed.
    pub fn finish(self) -> (r: RecordBatch)
        requires
            self.wf(),
        ensures
            r == self.batch(),
            r.wf(),
            r.first_seen_dictionaries(),
            r@ == self@,
            r.num_rows() == self@.len(),
            r.tracks.len() == self.track_count(),
    {
        self.batch
    }
}

} // verus!
