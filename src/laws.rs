use vstd::prelude::*;
use crate::batch::{RecordBatch, TrackArrays};
use crate::dictionary::lemma_dictionary_column_determinism;
use crate::record::{PlaylistView, TrackView, all_tracks};
use crate::transform::{rescalable, rescaled};

verus! {

/// The records of all shards, one shard after the other.
pub open spec fn concat_shards(shards: Seq<Seq<PlaylistView>>) -> Seq<PlaylistView>
    decreases shards.len(),
{
    if shards.len() == 0 {
        Seq::empty()
    } else {
        concat_shards(shards.drop_last()) + shards.last()
    }
}

/// The number of records in all shards.
pub open spec fn record_total(shards: Seq<Seq<PlaylistView>>) -> nat
    decreases shards.len(),
{
    if shards.len() == 0 {
        0
    } else {
        record_total(shards.drop_last()) + shards.last().len()
    }
}

proof fn lemma_concat_len(shards: Seq<Seq<PlaylistView>>)
    ensures
        concat_shards(shards).len() == record_total(shards),
    decreases shards.len(),
{
    if shards.len() > 0 {
        lemma_concat_len(shards.drop_last());
    }
}

/// Every top-level array of a batch built from a set of shards has one entry per
/// record of all the shards together.
pub proof fn lemma_row_count(b: RecordBatch, shards: Seq<Seq<PlaylistView>>)
    requires
        b.wf(),
        b@ == concat_shards(shards),
    ensures
        b.num_rows() == record_total(shards),
        b.name.view().len() == record_total(shards),
        b.collaborative.view().len() == record_total(shards),
        b.pid@.len() == record_total(shards),
        b.modified_at@.len() == record_total(shards),
        b.num_tracks@.len() == record_total(shards),
        b.num_albums@.len() == record_total(shards),
        b.num_followers@.len() == record_total(shards),
        b.track_offsets@.len() == record_total(shards) + 1,
{
    lemma_concat_len(shards);
}

proof fn lemma_flattened_prefix(b: RecordBatch, k: int)
    requires
        b.wf(),
        0 <= k <= b.num_rows(),
    ensures
        all_tracks(b@.take(k)) == b.tracks.view().take(b.track_offsets@[k] as int),
    decreases k,
{
    crate::batch::lemma_offsets_monotone(&b, 0, k);
    if k == 0 {
        assert(b@.take(0) =~= Seq::<PlaylistView>::empty());
        assert(b.tracks.view().take(0) =~= Seq::<TrackView>::empty());
    } else {
        lemma_flattened_prefix(b, k - 1);
        crate::batch::lemma_offsets_monotone(&b, k - 1, k);
        assert(b@.take(k).drop_last() =~= b@.take(k - 1));
        assert(b@.take(k).last() == b.row(k - 1));
        assert(b.tracks.view().take(b.track_offsets@[k] as int) =~= b.tracks.view().take(
            b.track_offsets@[k - 1] as int,
        ) + b.row(k - 1).tracks);
    }
}

/// The flattened track arrays hold the tracks of all rows, one row after the other:
/// the list offsets cut them back into the rows' own lists.
pub proof fn lemma_flattened(b: RecordBatch)
    requires
        b.wf(),
    ensures
        b.tracks.view() == all_tracks(b@),
        b.tracks.len() == all_tracks(b@).len(),
{
    lemma_flattened_prefix(b, b.num_rows() as int);
    crate::batch::lemma_offsets_monotone(&b, 0, b.num_rows() as int);
    assert(b@.take(b.num_rows() as int) =~= b@);
    assert(b.tracks.view().take(b.tracks.len() as int) =~= b.tracks.view());
}

/// Reading a batch back, row by row, gives the records that it was built from,
/// field by field, with every code resolved and every track list restored.
pub proof fn lemma_round_trip(b: RecordBatch, records: Seq<PlaylistView>)
    requires
        b.wf(),
        b@ == records,
    ensures
        b.num_rows() == records.len(),
        forall|i: int| 0 <= i < records.len() ==> #[trigger] b.row(i) == records[i],
        b.tracks.view() == all_tracks(records),
{
    assert forall|i: int| 0 <= i < records.len() implies #[trigger] b.row(i) == records[i] by {
        assert(b@[i] == b.row(i));
    }
    lemma_flattened(b);
}

proof fn lemma_track_columns_agree(s: TrackArrays, t: TrackArrays)
    requires
        s.wf(),
        t.wf(),
        s.view() == t.view(),
    ensures
        s.artist_name.view() == t.artist_name.view(),
        s.artist_uri.view() == t.artist_uri.view(),
        s.track_uri.view() == t.track_uri.view(),
        s.track_name.view() == t.track_name.view(),
        s.album_uri.view() == t.album_uri.view(),
        s.album_name.view() == t.album_name.view(),
{
    assert(s.view().len() == s.len());
    assert(t.view().len() == t.len());
    assert forall|i: int| 0 <= i < s.len() implies {
        &&& s.artist_name.view()[i] == t.artist_name.view()[i]
        &&& s.artist_uri.view()[i] == t.artist_uri.view()[i]
        &&& s.track_uri.view()[i] == t.track_uri.view()[i]
        &&& s.track_name.view()[i] == t.track_name.view()[i]
        &&& s.album_uri.view()[i] == t.album_uri.view()[i]
        &&& s.album_name.view()[i] == t.album_name.view()[i]
    } by {
        assert(s.view()[i] == s.row(i));
        assert(t.view()[i] == t.row(i));
    }
    assert(s.artist_name.view() =~= t.artist_name.view());
    assert(s.artist_uri.view() =~= t.artist_uri.view());
    assert(s.track_uri.view() =~= t.track_uri.view());
    assert(s.track_name.view() =~= t.track_name.view());
    assert(s.album_uri.view() =~= t.album_uri.view());
    assert(s.album_name.view() =~= t.album_name.view());
}

/// Two well-formed batches with first-seen dictionaries that hold the same records in
/// the same order have the same dictionaries and the same codes, in every dictionary
/// column. A finished builder gives such a batch, so converting the same records in
/// the same order twice gives the same dictionaries and codes.
pub proof fn lemma_batch_determinism(x: RecordBatch, y: RecordBatch)
    requires
        x.wf(),
        y.wf(),
        x.first_seen_dictionaries(),
        y.first_seen_dictionaries(),
        x@ == y@,
    ensures
        x.name.dictionary() == y.name.dictionary(),
        x.name.codes@ == y.name.codes@,
        x.collaborative.dictionary() == y.collaborative.dictionary(),
        x.collaborative.codes@ == y.collaborative.codes@,
        x.tracks.artist_name.dictionary() == y.tracks.artist_name.dictionary(),
        x.tracks.artist_name.codes@ == y.tracks.artist_name.codes@,
        x.tracks.artist_uri.dictionary() == y.tracks.artist_uri.dictionary(),
        x.tracks.artist_uri.codes@ == y.tracks.artist_uri.codes@,
        x.tracks.track_uri.dictionary() == y.tracks.track_uri.dictionary(),
        x.tracks.track_uri.codes@ == y.tracks.track_uri.codes@,
        x.tracks.track_name.dictionary() == y.tracks.track_name.dictionary(),
        x.tracks.track_name.codes@ == y.tracks.track_name.codes@,
        x.tracks.album_uri.dictionary() == y.tracks.album_uri.dictionary(),
        x.tracks.album_uri.codes@ == y.tracks.album_uri.codes@,
        x.tracks.album_name.dictionary() == y.tracks.album_name.dictionary(),
        x.tracks.album_name.codes@ == y.tracks.album_name.codes@,
{
    assert(x@.len() == x.num_rows());
    assert(y@.len() == y.num_rows());
    assert forall|i: int| 0 <= i < x.num_rows() implies {
        &&& x.name.view()[i] == y.name.view()[i]
        &&& x.collaborative.view()[i] == y.collaborative.view()[i]
    } by {
        assert(x@[i] == x.row(i));
        assert(y@[i] == y.row(i));
    }
    assert(x.name.view() =~= y.name.view());
    assert(x.collaborative.view() =~= y.collaborative.view());
    lemma_flattened(x);
    lemma_flattened(y);
    lemma_track_columns_agree(x.tracks, y.tracks);
    lemma_dictionary_column_determinism(x.name, y.name);
    lemma_dictionary_column_determinism(x.collaborative, y.collaborative);
    lemma_dictionary_column_determinism(x.tracks.artist_name, y.tracks.artist_name);
    lemma_dictionary_column_determinism(x.tracks.artist_uri, y.tracks.artist_uri);
    lemma_dictionary_column_determinism(x.tracks.track_uri, y.tracks.track_uri);
    lemma_dictionary_column_determinism(x.tracks.track_name, y.tracks.track_name);
    lemma_dictionary_column_determinism(x.tracks.album_uri, y.tracks.album_uri);
    lemma_dictionary_column_determinism(x.tracks.album_name, y.tracks.album_name);
}

/// After a shard has been taken in with `modified_at` rescaled, the column holds
/// exactly the shard's value times one thousand for each of its records, zero and
/// negative values included.
pub proof fn lemma_override(b: RecordBatch, before: Seq<PlaylistView>, shard: Seq<PlaylistView>)
    requires
        b.wf(),
        b@ == before + shard.map_values(|p: PlaylistView| rescaled(p)),
        forall|i: int| 0 <= i < shard.len() ==> rescalable(#[trigger] shard[i].modified_at),
    ensures
        forall|i: int|
            0 <= i < shard.len() ==> #[trigger] b.modified_at@[before.len() + i]
                == shard[i].modified_at * 1000,
{
    assert forall|i: int| 0 <= i < shard.len() implies #[trigger] b.modified_at@[before.len() + i]
        == shard[i].modified_at * 1000 by {
        assert(b@.len() == before.len() + shard.len());
        assert(b@[before.len() + i] == b.row(before.len() + i));
        assert(b@[before.len() + i] == rescaled(shard[i]));
        assert(rescalable(shard[i].modified_at));
    }
}

} // verus!
