use vstd::prelude::*;
use crate::error::ConvertError;
use crate::record::{Playlist, PlaylistView, playlists_view};

verus! {

/// The factor that turns the seconds of `modified_at` into milliseconds.
pub const MILLIS_PER_SECOND: i64 = 1000;

/// Whether `v` seconds can be written in milliseconds as an `i64`.
pub open spec fn rescalable(v: i64) -> bool {
    i64::MIN <= v * MILLIS_PER_SECOND <= i64::MAX
}

/// A playlist with `modified_at` turned from seconds into milliseconds.
pub open spec fn rescaled(p: PlaylistView) -> PlaylistView {
    PlaylistView { modified_at: (p.modified_at * MILLIS_PER_SECOND) as i64, ..p }
}

/// The position of the first record whose `modified_at` cannot be rescaled, or the
/// number of records where every one can.
pub open spec fn first_unrescalable(rows: Seq<PlaylistView>) -> nat
    decreases rows.len(),
{
    if rows.len() == 0 {
        0
    } else if !rescalable(rows[0].modified_at) {
        0
    } else {
        1 + first_unrescalable(rows.drop_first())
    }
}

proof fn lemma_first_unrescalable(rows: Seq<PlaylistView>, j: int)
    requires
        0 <= j <= rows.len(),
        forall|k: int| 0 <= k < j ==> rescalable(#[trigger] rows[k].modified_at),
        j == rows.len() || !rescalable(rows[j].modified_at),
    ensures
        first_unrescalable(rows) == j,
    decreases j,
{
    if j > 0 {
        assert(rescalable(rows[0].modified_at));
        assert forall|k: int| 0 <= k < j - 1 implies rescalable(#[trigger] rows.drop_first()[k].modified_at) by {
            assert(rows.drop_first()[k] == rows[k + 1]);
        }
        lemma_first_unrescalable(rows.drop_first(), j - 1);
    }
}

/// Turns `modified_at` of every record from seconds into milliseconds, keeping every
/// other field. Fails, naming the first such record, where a value would not fit.
pub fn rescale_modified_at(records: Vec<Playlist>) -> (r: Result<Vec<Playlist>, ConvertError>)
    ensures
        r is Ok <==> first_unrescalable(playlists_view(records@)) == records@.len(),
        r matches Ok(v) ==> playlists_view(v@) == playlists_view(records@).map_values(
            |p: PlaylistView| rescaled(p),
        ),
        r matches Err(e) ==> e == (ConvertError::TypeMismatch {
            record: first_unrescalable(playlists_view(records@)) as usize,
        }),
{
    let ghost rows = playlists_view(records@);
    let n = records.len();
    let mut j: usize = 0;
    while j < n
        invariant
            n == records@.len(),
            rows == playlists_view(records@),
            j <= n,
            forall|k: int| 0 <= k < j ==> rescalable(#[trigger] rows[k].modified_at),
        decreases n - j,
    {
        let v = records[j].modified_at;
        if v.checked_mul(MILLIS_PER_SECOND).is_none() {
            proof {
                lemma_first_unrescalable(rows, j as int);
            }
            return Err(ConvertError::TypeMismatch { record: j });
        }
        j = j + 1;
    }
    proof {
        lemma_first_unrescalable(rows, n as int);
    }
    let mut records = records;
    let mut i: usize = 0;
    while i < n
        invariant
            n == records@.len(),
            rows.len() == n,
            i <= n,
            forall|k: int| 0 <= k < n ==> rescalable(#[trigger] rows[k].modified_at),
            forall|k: int| 0 <= k < i ==> #[trigger] records@[k]@ == rescaled(rows[k]),
            forall|k: int| i <= k < n ==> #[trigger] records@[k]@ == rows[k],
        decreases n - i,
    {
        let ghost before = records@;
        assert(before[i as int]@ == rows[i as int]);
        let v = records[i].modified_at;
        assert(rescalable(rows[i as int].modified_at));
        records[i].modified_at = v * MILLIS_PER_SECOND;
        assert(records@[i as int]@ == rescaled(rows[i as int]));
        assert forall|k: int| 0 <= k < n && k != i implies #[trigger] records@[k] == before[k] by {}
        i = i + 1;
    }
    assert(playlists_view(records@) =~= rows.map_values(|p: PlaylistView| rescaled(p)));
    Ok(records)
}

} // verus!
