use json_to_arrow::batch::RecordBatch;
use json_to_arrow::builder::ColumnBuilderSet;
use json_to_arrow::dictionary::DictionaryBuilder;
use json_to_arrow::error::ConvertError;
use json_to_arrow::record::{Playlist, Track};
use json_to_arrow::transform::rescale_modified_at;

fn track(pos: u16, artist: &str, uri: &str) -> Track {
    Track {
        pos,
        duration_ms: 1000 + pos as i64,
        artist_name: artist.to_string(),
        artist_uri: format!("spotify:artist:{artist}"),
        track_uri: uri.to_string(),
        track_name: format!("song {pos}"),
        album_uri: "spotify:album:a".to_string(),
        album_name: "album".to_string(),
    }
}

fn playlist(name: &str, modified_at: i64, tracks: Vec<Track>) -> Playlist {
    Playlist {
        name: name.to_string(),
        collaborative: "false".to_string(),
        pid: 7,
        modified_at,
        num_tracks: tracks.len() as u16,
        num_albums: 1,
        num_followers: 3,
        tracks,
    }
}

fn convert(shards: Vec<Vec<Playlist>>) -> RecordBatch {
    let mut columns = ColumnBuilderSet::new();
    for shard in shards {
        columns.ingest_shard(shard).unwrap();
    }
    columns.finish()
}

#[test]
fn two_shards_scenario() {
    let a = vec![playlist("x", 1, vec![track(0, "ann", "spotify:track:1")])];
    let b = vec![playlist("x", 2, vec![])];
    let batch = convert(vec![a, b]);
    assert_eq!(batch.name.values, vec!["x".to_string()]);
    assert_eq!(batch.name.codes, vec![0, 0]);
    assert_eq!(batch.track_offsets, vec![0, 1, 1]);
    assert_eq!(batch.tracks.pos.len(), 1);
    assert_eq!(batch.len(), 2);
}

#[test]
fn row_count_matches_all_shards() {
    let a = vec![
        playlist("p", 0, vec![track(0, "a", "u1"), track(1, "b", "u2")]),
        playlist("q", 0, vec![]),
    ];
    let b = vec![playlist("r", 0, vec![track(0, "a", "u1")])];
    let batch = convert(vec![a, vec![], b]);
    assert_eq!(batch.len(), 3);
    assert_eq!(batch.name.codes.len(), 3);
    assert_eq!(batch.collaborative.codes.len(), 3);
    assert_eq!(batch.pid.len(), 3);
    assert_eq!(batch.modified_at.len(), 3);
    assert_eq!(batch.num_tracks.len(), 3);
    assert_eq!(batch.num_albums.len(), 3);
    assert_eq!(batch.num_followers.len(), 3);
    assert_eq!(batch.track_offsets.len(), 4);
}

#[test]
fn dictionaries_follow_first_seen_order() {
    let shards = || {
        vec![
            vec![playlist("b", 0, vec![track(0, "z", "u1"), track(1, "y", "u2")])],
            vec![playlist("a", 0, vec![track(0, "y", "u3")]), playlist("b", 0, vec![])],
        ]
    };
    let first = convert(shards());
    let second = convert(shards());
    assert_eq!(first.name.values, vec!["b".to_string(), "a".to_string()]);
    assert_eq!(first.name.codes, vec![0, 1, 0]);
    assert_eq!(first.tracks.artist_name.values, vec!["z".to_string(), "y".to_string()]);
    assert_eq!(first.tracks.artist_name.codes, vec![0, 1, 1]);
    assert_eq!(first.name.values, second.name.values);
    assert_eq!(first.name.codes, second.name.codes);
    assert_eq!(first.tracks.artist_name.values, second.tracks.artist_name.values);
    assert_eq!(first.tracks.artist_name.codes, second.tracks.artist_name.codes);
    assert_eq!(first.tracks.track_uri.codes, second.tracks.track_uri.codes);
}

#[test]
fn offsets_never_decrease_and_end_at_track_count() {
    let shard = vec![
        playlist("a", 0, vec![track(0, "a", "u1")]),
        playlist("b", 0, vec![]),
        playlist("c", 0, vec![track(0, "a", "u1"), track(1, "a", "u2"), track(2, "c", "u3")]),
    ];
    let batch = convert(vec![shard]);
    assert_eq!(batch.track_offsets, vec![0, 1, 1, 4]);
    for w in batch.track_offsets.windows(2) {
        assert!(w[0] <= w[1]);
    }
    assert_eq!(*batch.track_offsets.last().unwrap() as usize, batch.tracks.pos.len());
}

#[test]
fn rows_read_back_as_written() {
    let shard = vec![
        playlist("a", 2, vec![track(3, "a", "u1")]),
        playlist("b", -1, vec![]),
        playlist("a", 0, vec![track(4, "c", "u3"), track(5, "a", "u1")]),
    ];
    let batch = convert(vec![shard]);
    let row = batch.record_at(2);
    assert_eq!(row.name, "a");
    assert_eq!(row.collaborative, "false");
    assert_eq!(row.pid, 7);
    assert_eq!(row.modified_at, 0);
    assert_eq!(row.num_tracks, 2);
    assert_eq!(row.num_albums, 1);
    assert_eq!(row.num_followers, 3);
    assert_eq!(row.tracks.len(), 2);
    assert_eq!(row.tracks[0].pos, 4);
    assert_eq!(row.tracks[0].duration_ms, 1004);
    assert_eq!(row.tracks[0].artist_name, "c");
    assert_eq!(row.tracks[0].artist_uri, "spotify:artist:c");
    assert_eq!(row.tracks[0].track_uri, "u3");
    assert_eq!(row.tracks[0].track_name, "song 4");
    assert_eq!(row.tracks[1].track_uri, "u1");
    assert_eq!(row.tracks[1].album_uri, "spotify:album:a");
    assert_eq!(row.tracks[1].album_name, "album");
    let first = batch.record_at(0);
    assert_eq!(first.modified_at, 2000);
    assert_eq!(first.tracks[0].pos, 3);
    assert_eq!(batch.record_at(1).modified_at, -1000);
    assert!(batch.record_at(1).tracks.is_empty());
}

#[test]
fn rescale_multiplies_by_one_thousand() {
    let records = vec![
        playlist("a", 0, vec![]),
        playlist("b", -42, vec![]),
        playlist("c", 1_500_000_000, vec![]),
    ];
    let out = rescale_modified_at(records).unwrap();
    assert_eq!(out[0].modified_at, 0);
    assert_eq!(out[1].modified_at, -42_000);
    assert_eq!(out[2].modified_at, 1_500_000_000_000);
    assert_eq!(out[2].name, "c");
}

#[test]
fn rescale_overflow_names_first_record() {
    let records = vec![
        playlist("a", 1, vec![]),
        playlist("b", i64::MAX / 1000 + 1, vec![]),
        playlist("c", i64::MIN, vec![]),
    ];
    match rescale_modified_at(records) {
        Err(ConvertError::TypeMismatch { record }) => assert_eq!(record, 1),
        other => panic!("unexpected result: {other:?}"),
    }
}

#[test]
fn rescale_boundary_values_fit() {
    let records = vec![playlist("a", i64::MAX / 1000, vec![]), playlist("b", i64::MIN / 1000, vec![])];
    let out = rescale_modified_at(records).unwrap();
    assert_eq!(out[0].modified_at, (i64::MAX / 1000) * 1000);
    assert_eq!(out[1].modified_at, (i64::MIN / 1000) * 1000);
}

#[test]
fn failed_shard_changes_nothing() {
    let mut columns = ColumnBuilderSet::new();
    columns.ingest_shard(vec![playlist("a", 1, vec![track(0, "a", "u")])]).unwrap();
    let bad = vec![playlist("b", 1, vec![]), playlist("c", i64::MIN, vec![])];
    match columns.ingest_shard(bad) {
        Err(ConvertError::TypeMismatch { record }) => assert_eq!(record, 1),
        other => panic!("unexpected result: {other:?}"),
    }
    assert_eq!(columns.len(), 1);
    assert_eq!(columns.num_tracks(), 1);
}

#[test]
fn empty_shard_is_a_no_op() {
    let mut columns = ColumnBuilderSet::new();
    columns.ingest_shard(vec![playlist("a", 1, vec![track(0, "a", "u")])]).unwrap();
    columns.ingest_shard(vec![]).unwrap();
    assert_eq!(columns.len(), 1);
    assert_eq!(columns.num_tracks(), 1);
    let batch = columns.finish();
    assert_eq!(batch.track_offsets, vec![0, 1]);
}

#[test]
fn append_batch_keeps_order() {
    let mut columns = ColumnBuilderSet::new();
    columns.append(&playlist("z", 5, vec![])).unwrap();
    columns.append_batch(&vec![playlist("y", 6, vec![]), playlist("z", 7, vec![])]).unwrap();
    let batch = columns.finish();
    assert_eq!(batch.modified_at, vec![5, 6, 7]);
    assert_eq!(batch.name.values, vec!["z".to_string(), "y".to_string()]);
    assert_eq!(batch.name.codes, vec![0, 1, 0]);
}

#[test]
fn dictionary_builder_reuses_codes() {
    let mut d = DictionaryBuilder::new();
    for s in ["red", "green", "red", "blue", "green"] {
        d.push(&s.to_string());
    }
    assert_eq!(d.len(), 5);
    let col = d.finish();
    assert_eq!(col.values, vec!["red".to_string(), "green".to_string(), "blue".to_string()]);
    assert_eq!(col.codes, vec![0, 1, 0, 2, 1]);
    assert_eq!(col.get(3), "blue");
    assert_eq!(col.len(), 5);
}

#[test]
fn count_tracks_sums_all_playlists() {
    let records = vec![
        playlist("a", 0, vec![track(0, "a", "u1"), track(1, "a", "u2")]),
        playlist("b", 0, vec![]),
        playlist("c", 0, vec![track(0, "c", "u3")]),
    ];
    assert_eq!(json_to_arrow::record::count_tracks(&records), Some(3));
    assert_eq!(json_to_arrow::record::count_tracks(&vec![]), Some(0));
}
