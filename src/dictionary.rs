use vstd::prelude::*;
use std::collections::HashMap;
use crate::text_hash::{hash_text, text_hash};

verus! {

/// The distinct strings of `rows`, each in the position where it was first seen.
pub open spec fn first_seen(rows: Seq<Seq<char>>) -> Seq<Seq<char>>
    decreases rows.len(),
{
    if rows.len() == 0 {
        Seq::empty()
    } else {
        let prev = first_seen(rows.drop_last());
        if prev.contains(rows.last()) {
            prev
        } else {
            prev.push(rows.last())
        }
    }
}

/// No string stands twice in `d`.
pub open spec fn distinct(d: Seq<Seq<char>>) -> bool {
    forall|i: int, j: int| 0 <= i < d.len() && 0 <= j < d.len() && i != j ==> d[i] != d[j]
}

/// The dictionary of a sequence holds no duplicate and is never longer than the sequence.
pub proof fn lemma_first_seen_distinct(rows: Seq<Seq<char>>)
    ensures
        distinct(first_seen(rows)),
        first_seen(rows).len() <= rows.len(),
    decreases rows.len(),
{
    if rows.len() > 0 {
        lemma_first_seen_distinct(rows.drop_last());
    }
}

/// A frozen dictionary-encoded text column: the dictionary and one code per row.
#[derive(Debug)]
pub struct DictionaryColumn {
    pub values: Vec<String>,
    pub codes: Vec<u32>,
}

impl DictionaryColumn {
    /// The dictionary as text.
    pub open spec fn dictionary(&self) -> Seq<Seq<char>> {
        self.values@.map_values(|v: String| v@)
    }

    /// Every code refers to an entry of the dictionary.
    pub open spec fn wf(&self) -> bool {
        forall|i: int| 0 <= i < self.codes@.len() ==> (#[trigger] self.codes@[i]) < self.values@.len()
    }

    /// The text of every row, with its code resolved.
    pub open spec fn view(&self) -> Seq<Seq<char>> {
        Seq::new(self.codes@.len(), |i: int| self.values@[self.codes@[i] as int]@)
    }

    /// The dictionary holds exactly the distinct strings of the rows, in first-seen order.
    pub open spec fn is_first_seen(&self) -> bool {
        self.wf() && self.dictionary() == first_seen(self.view())
    }

    /// Number of rows.
    pub fn len(&self) -> (r: usize)
        ensures
            r == self.view().len(),
    {
        self.codes.len()
    }

    /// Appends one row holding `s`, looking it up in the dictionary through `index`
    /// and adding it there if it is new.
    pub fn push_first_seen(&mut self, index: &mut DictionaryIndex, s: &String)
        requires
            old(self).is_first_seen(),
            old(index).indexes(old(self)),
            old(self).dictionary().len() < u32::MAX,
        ensures
            final(self).is_first_seen(),
            final(index).indexes(final(self)),
            final(self).view() == old(self).view().push(s@),
            final(self).dictionary().len() <= old(self).dictionary().len() + 1,
    {
        broadcast use vstd::std_specs::hash::group_hash_axioms;

        let ghost rows = self.view();
        let ghost dict = self.dictionary();
        let ghost old_map = index.buckets@;
        proof {
            lemma_first_seen_distinct(rows);
        }
        let n = self.values.len();
        let h = hash_text(s);
        let mut bucket = match index.buckets.remove(&h) {
            Some(b) => b,
            None => Vec::new(),
        };
        assert(old_map.contains_key(h) ==> bucket@ == old_map[h]@);
        assert(dict.len() == n);
        let m = bucket.len();
        let mut k: usize = 0;
        let mut found: usize = n;
        while k < m
            invariant
                m == bucket@.len(),
                n == self.values@.len(),
                *self == *old(self),
                dict == self.dictionary(),
                old(index).indexes(old(self)),
                old_map == old(index).buckets@,
                old_map.contains_key(h) ==> bucket@ == old_map[h]@,
                !old_map.contains_key(h) ==> m == 0,
                h == text_hash(s@),
                n < u32::MAX,
                k <= m,
                found == n || (found < n && dict[found as int] == s@),
                found == n ==> forall|q: int| 0 <= q < k ==> dict[bucket@[q] as int] != s@,
            ensures
                found == n ==> k == m,
            decreases m - k,
        {
            let j = bucket[k];
            proof {
                old(index).lemma_bucket_in_range(old(self), h, k as int);
            }
            if self.values[j as usize] == *s {
                found = j as usize;
                break;
            }
            k = k + 1;
        }
        if found < n {
            assert(dict.contains(s@));
        } else {
            assert(!dict.contains(s@)) by {
                if dict.contains(s@) {
                    let j = choose|j: int| 0 <= j < dict.len() && dict[j] == s@;
                    assert(old(self).values@[j]@ == dict[j]);
                    old(index).lemma_entry_indexed(old(self), j);
                    let q = choose|q: int| 0 <= q < bucket@.len() && bucket@[q] == j as u32;
                    assert(dict[bucket@[q] as int] == s@);
                }
            }
            self.values.push(s.clone());
            assert(self.values@.drop_last() =~= old(self).values@);
            bucket.push(n as u32);
        }
        index.buckets.insert(h, bucket);
        self.codes.push(found as u32);
        assert(index.buckets@.dom() =~= old_map.dom().insert(h));
        proof {
            index.lemma_update(old(index), old(self), self, h, s@, found < n);
        }
        assert forall|i: int| 0 <= i < rows.len() implies #[trigger] self.view()[i] == rows[i] by {
            assert(old(self).codes@[i] < n);
        }
        assert(self.view() =~= rows.push(s@));
        assert(rows.push(s@).drop_last() =~= rows);
        assert(rows.push(s@).last() == s@);
        assert(self.dictionary() =~= first_seen(rows.push(s@)));
    }

    /// The text of row `i`.
    pub fn get(&self, i: usize) -> (r: String)
        requires
            self.wf(),
            i < self.view().len(),
        ensures
            r@ == self.view()[i as int],
    {
        let code = self.codes[i];
        self.values[code as usize].clone()
    }
}

/// Finds the entries of a dictionary by the hash of their text: each hash maps to
/// the codes of the entries that have it.
pub struct DictionaryIndex {
    buckets: HashMap<u64, Vec<u32>>,
}

impl DictionaryIndex {
    /// Every entry of `col`'s dictionary is listed under its hash, and every code
    /// listed refers to an entry.
    pub closed spec fn indexes(&self, col: &DictionaryColumn) -> bool {
        &&& forall|j: int|
            0 <= j < col.values@.len() ==> {
                let h = text_hash(#[trigger] col.values@[j]@);
                &&& self.buckets@.contains_key(h)
                &&& self.buckets@[h]@.contains(j as u32)
            }
        &&& forall|h: u64, q: int|
            self.buckets@.contains_key(h) && 0 <= q < self.buckets@[h]@.len() ==> (
            #[trigger] self.buckets@[h]@[q]) < col.values@.len()
    }

    /// An index of an empty dictionary.
    pub fn new() -> (r: DictionaryIndex)
        ensures
            forall|col: DictionaryColumn| col.values@.len() == 0 ==> r.indexes(&col),
    {
        DictionaryIndex { buckets: HashMap::new() }
    }

    proof fn lemma_bucket_in_range(&self, col: &DictionaryColumn, h: u64, q: int)
        requires
            self.indexes(col),
            self.buckets@.contains_key(h),
            0 <= q < self.buckets@[h]@.len(),
        ensures
            self.buckets@[h]@[q] < col.values@.len(),
    {
    }

    proof fn lemma_entry_indexed(&self, col: &DictionaryColumn, j: int)
        requires
            self.indexes(col),
            0 <= j < col.values@.len(),
        ensures
            self.buckets@.contains_key(text_hash(col.values@[j]@)),
            self.buckets@[text_hash(col.values@[j]@)]@.contains(j as u32),
    {
    }

    proof fn lemma_update(
        &self,
        old_index: &DictionaryIndex,
        old_col: &DictionaryColumn,
        col: &DictionaryColumn,
        h: u64,
        s: Seq<char>,
        present: bool,
    )
        requires
            old_index.indexes(old_col),
            h == text_hash(s),
            present ==> col.values@ == old_col.values@,
            !present ==> col.values@.len() == old_col.values@.len() + 1,
            !present ==> col.values@.drop_last() == old_col.values@,
            !present ==> col.values@.last()@ == s,
            col.values@.len() <= u32::MAX,
            self.buckets@.dom() == old_index.buckets@.dom().insert(h),
            forall|g: u64| g != h && old_index.buckets@.contains_key(g) ==> self.buckets@[g]
                == old_index.buckets@[g],
            old_index.buckets@.contains_key(h) && present ==> self.buckets@[h]@
                == old_index.buckets@[h]@,
            old_index.buckets@.contains_key(h) && !present ==> self.buckets@[h]@
                == old_index.buckets@[h]@.push(old_col.values@.len() as u32),
            !old_index.buckets@.contains_key(h) && present ==> self.buckets@[h]@.len() == 0,
            !old_index.buckets@.contains_key(h) && !present ==> self.buckets@[h]@ == seq![
                old_col.values@.len() as u32,
            ],
        ensures
            self.indexes(col),
    {
        let n = old_col.values@.len();
        assert forall|j: int| 0 <= j < col.values@.len() implies {
            let g = text_hash(#[trigger] col.values@[j]@);
            &&& self.buckets@.contains_key(g)
            &&& self.buckets@[g]@.contains(j as u32)
        } by {
            if j < n {
                assert(col.values@[j] == old_col.values@[j]);
                let g = text_hash(col.values@[j]@);
                assert(old_index.buckets@[g]@.contains(j as u32));
                if g == h && !present {
                    let q = choose|q: int| 0 <= q < old_index.buckets@[g]@.len() && old_index.buckets@[g]@[q] == j as u32;
                    assert(self.buckets@[g]@[q] == j as u32);
                }
            } else {
                assert(j == n && !present);
                if old_index.buckets@.contains_key(h) {
                    assert(self.buckets@[h]@[old_index.buckets@[h]@.len() as int] == j as u32);
                } else {
                    assert(self.buckets@[h]@[0] == j as u32);
                }
            }
        }
        assert forall|g: u64, q: int|
            self.buckets@.contains_key(g) && 0 <= q < self.buckets@[g]@.len() implies (
            #[trigger] self.buckets@[g]@[q]) < col.values@.len() by {
            if g != h {
                assert(old_index.buckets@.contains_key(g));
            } else if old_index.buckets@.contains_key(h) {
                if q < old_index.buckets@[h]@.len() {
                    assert(self.buckets@[h]@[q] == old_index.buckets@[h]@[q]);
                }
            }
        }
    }
}

/// Builds a dictionary-encoded text column one row at a time. The first occurrence
/// of a string gets the next code, counting from zero; later occurrences reuse it.
pub struct DictionaryBuilder {
    column: DictionaryColumn,
    index: DictionaryIndex,
}

impl View for DictionaryBuilder {
    type V = Seq<Seq<char>>;

    open spec fn view(&self) -> Seq<Seq<char>> {
        self.column().view()
    }
}

impl DictionaryBuilder {
    /// The column built so far.
    pub closed spec fn column(&self) -> DictionaryColumn {
        self.column
    }

    /// The index lists every entry of the dictionary.
    pub closed spec fn indexed(&self) -> bool {
        self.index.indexes(&self.column)
    }

    pub open spec fn wf(&self) -> bool {
        self.column().is_first_seen() && self.indexed()
    }

    /// An empty builder.
    pub fn new() -> (r: DictionaryBuilder)
        ensures
            r.wf(),
            r@ == Seq::<Seq<char>>::empty(),
    {
        let r = DictionaryBuilder {
            column: DictionaryColumn { values: Vec::new(), codes: Vec::new() },
            index: DictionaryIndex::new(),
        };
        assert(r.column.dictionary() =~= Seq::<Seq<char>>::empty());
        assert(r.column.view() =~= Seq::<Seq<char>>::empty());
        r
    }

    /// Number of rows.
    pub fn len(&self) -> (r: usize)
        ensures
            r == self@.len(),
    {
        self.column.len()
    }

    /// Appends one row holding `s`.
    pub fn push(&mut self, s: &String)
        requires
            old(self).wf(),
            old(self).column().dictionary().len() < u32::MAX,
        ensures
            final(self).wf(),
            final(self)@ == old(self)@.push(s@),
    {
        self.column.push_first_seen(&mut self.index, s);
    }

    /// Hands over the column built, which no longer grows.
    pub fn finish(self) -> (r: DictionaryColumn)
        requires
            self.wf(),
        ensures
            r == self.column(),
            r.is_first_seen(),
            r.view() == self@,
    {
        self.column
    }
}

/// Two first-seen columns that hold the same rows hold the same dictionary and the
/// same codes.
pub proof fn lemma_dictionary_column_determinism(a: DictionaryColumn, b: DictionaryColumn)
    requires
        a.is_first_seen(),
        b.is_first_seen(),
        a.view() == b.view(),
    ensures
        a.dictionary() == b.dictionary(),
        a.codes@ == b.codes@,
{
    lemma_first_seen_distinct(a.view());
    assert forall|i: int| 0 <= i < a.codes@.len() implies a.codes@[i] == b.codes@[i] by {
        assert(a.view()[i] == b.view()[i]);
        assert(a.dictionary()[a.codes@[i] as int] == b.dictionary()[b.codes@[i] as int]);
    }
    assert(a.codes@ =~= b.codes@);
}

/// Two builders that were given the same rows hold the same dictionary and the same codes.
pub proof fn lemma_dictionary_determinism(a: DictionaryBuilder, b: DictionaryBuilder)
    requires
        a.wf(),
        b.wf(),
        a@ == b@,
    ensures
        a.column().dictionary() == b.column().dictionary(),
        a.column().codes@ == b.column().codes@,
{
    lemma_dictionary_column_determinism(a.column(), b.column());
}

} // verus!
