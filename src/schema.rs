use vstd::prelude::*;
use vstd::string::StringExecFns;
use crate::error::ConvertError;

verus! {

/// The type of a column.
#[derive(Debug)]
pub enum DataType {
    Int64,
    UInt16,
    /// Milliseconds since the epoch.
    Date64,
    /// Text, dictionary-encoded with 32-bit codes.
    DictionaryUtf8,
    /// A list of values of the one child field, with 64-bit offsets.
    LargeList(Box<Field>),
    /// One child array per field.
    Struct(Vec<Field>),
}

/// A named, typed column of the schema.
#[derive(Debug)]
pub struct Field {
    pub name: String,
    pub data_type: DataType,
    pub nullable: bool,
}

/// The names of a sequence of fields.
pub open spec fn field_names(fields: Seq<Field>) -> Seq<Seq<char>> {
    fields.map_values(|f: Field| f.name@)
}

fn field(name: &str, data_type: DataType) -> (r: Field)
    ensures
        r.name@ == name@,
        r.data_type == data_type,
        !r.nullable,
{
    Field { name: String::from_str(name), data_type, nullable: false }
}

/// The fields of a track, in the order of the record.
pub open spec fn track_fields_spec(fields: Seq<Field>) -> bool {
    &&& field_names(fields) == seq![
        "pos"@,
        "duration_ms"@,
        "artist_name"@,
        "artist_uri"@,
        "track_uri"@,
        "track_name"@,
        "album_uri"@,
        "album_name"@,
    ]
    &&& fields[0].data_type == DataType::UInt16
    &&& fields[1].data_type == DataType::Int64
    &&& forall|i: int| 2 <= i < 8 ==> #[trigger] fields[i].data_type == DataType::DictionaryUtf8
    &&& forall|i: int| 0 <= i < 8 ==> !(#[trigger] fields[i].nullable)
}

/// The schema of a playlist record: its scalar fields in the order of the record,
/// text as dictionary-encoded columns, and its tracks as a list of structs.
pub open spec fn playlist_schema_spec(fields: Seq<Field>) -> bool {
    &&& field_names(fields) == seq![
        "name"@,
        "collaborative"@,
        "pid"@,
        "modified_at"@,
        "num_tracks"@,
        "num_albums"@,
        "num_followers"@,
        "tracks"@,
    ]
    &&& fields[0].data_type == DataType::DictionaryUtf8
    &&& fields[1].data_type == DataType::DictionaryUtf8
    &&& fields[2].data_type == DataType::Int64
    &&& fields[3].data_type == DataType::Int64
    &&& fields[4].data_type == DataType::UInt16
    &&& fields[5].data_type == DataType::UInt16
    &&& fields[6].data_type == DataType::Int64
    &&& forall|i: int| 0 <= i < 8 ==> !(#[trigger] fields[i].nullable)
    &&& match fields[7].data_type {
        DataType::LargeList(item) => {
            &&& item.name@ == "item"@
            &&& !item.nullable
            &&& match item.data_type {
                DataType::Struct(children) => track_fields_spec(children@),
                _ => false,
            }
        },
        _ => false,
    }
}

/// Derives the schema of a playlist record.
pub fn derive_schema() -> (r: Vec<Field>)
    ensures
        playlist_schema_spec(r@),
{
    let mut track: Vec<Field> = Vec::new();
    track.push(field("pos", DataType::UInt16));
    track.push(field("duration_ms", DataType::Int64));
    track.push(field("artist_name", DataType::DictionaryUtf8));
    track.push(field("artist_uri", DataType::DictionaryUtf8));
    track.push(field("track_uri", DataType::DictionaryUtf8));
    track.push(field("track_name", DataType::DictionaryUtf8));
    track.push(field("album_uri", DataType::DictionaryUtf8));
    track.push(field("album_name", DataType::DictionaryUtf8));
    assert(field_names(track@) =~= seq![
        "pos"@,
        "duration_ms"@,
        "artist_name"@,
        "artist_uri"@,
        "track_uri"@,
        "track_name"@,
        "album_uri"@,
        "album_name"@,
    ]);
    let item = field("item", DataType::Struct(track));
    let mut fields: Vec<Field> = Vec::new();
    fields.push(field("name", DataType::DictionaryUtf8));
    fields.push(field("collaborative", DataType::DictionaryUtf8));
    fields.push(field("pid", DataType::Int64));
    fields.push(field("modified_at", DataType::Int64));
    fields.push(field("num_tracks", DataType::UInt16));
    fields.push(field("num_albums", DataType::UInt16));
    fields.push(field("num_followers", DataType::Int64));
    fields.push(field("tracks", DataType::LargeList(Box::new(item))));
    assert(field_names(fields@) =~= seq![
        "name"@,
        "collaborative"@,
        "pid"@,
        "modified_at"@,
        "num_tracks"@,
        "num_albums"@,
        "num_followers"@,
        "tracks"@,
    ]);
    fields
}

/// The position of the first field named `name`, or the number of fields where none is.
pub open spec fn position_of(fields: Seq<Field>, name: Seq<char>) -> nat
    decreases fields.len(),
{
    if fields.len() == 0 {
        0
    } else if fields[0].name@ == name {
        0
    } else {
        1 + position_of(fields.drop_first(), name)
    }
}

proof fn lemma_position_of(fields: Seq<Field>, name: Seq<char>, j: int)
    requires
        0 <= j <= fields.len(),
        forall|k: int| 0 <= k < j ==> (#[trigger] fields[k]).name@ != name,
        j == fields.len() || fields[j].name@ == name,
    ensures
        position_of(fields, name) == j,
    decreases j,
{
    if j > 0 {
        assert(fields[0].name@ != name);
        assert forall|k: int| 0 <= k < j - 1 implies (#[trigger] fields.drop_first()[k]).name@ != name by {
            assert(fields.drop_first()[k] == fields[k + 1]);
        }
        lemma_position_of(fields.drop_first(), name, j - 1);
    }
}

/// The names of a path, as text.
pub open spec fn path_names(path: Seq<String>) -> Seq<Seq<char>> {
    path.map_values(|p: String| p@)
}

/// The names of a path joined by dots.
pub open spec fn dotted(path: Seq<Seq<char>>) -> Seq<char>
    decreases path.len(),
{
    if path.len() == 0 {
        Seq::empty()
    } else if path.len() == 1 {
        path[0]
    } else {
        dotted(path.drop_last()) + "."@ + path.last()
    }
}

/// The children that a path goes on into below a field: the fields of a struct, or
/// the one item field of a list.
pub open spec fn children(t: DataType) -> Option<Seq<Field>> {
    match t {
        DataType::Struct(fields) => Some(fields@),
        DataType::LargeList(item) => Some(seq![*item]),
        _ => None,
    }
}

/// Whether `path` leads to a field: its first name is that of a field of `fields`,
/// and the rest of it leads on through that field's children.
pub open spec fn path_exists(fields: Seq<Field>, path: Seq<Seq<char>>) -> bool
    decreases path.len(),
{
    if path.len() == 0 {
        false
    } else {
        let k = position_of(fields, path[0]) as int;
        &&& k < fields.len()
        &&& (path.len() == 1 || match children(fields[k].data_type) {
            Some(c) => path_exists(c, path.drop_first()),
            None => false,
        })
    }
}

/// `new` is `old` with the type of the field that `path` leads to replaced by `t`;
/// every other field, and every name and nullability on the way, is kept. Where two
/// fields share a name, the path takes the first.
pub open spec fn overridden(old: Seq<Field>, new: Seq<Field>, path: Seq<Seq<char>>, t: DataType) -> bool
    decreases path.len(),
{
    if path.len() == 0 {
        false
    } else {
        let k = position_of(old, path[0]) as int;
        &&& k < old.len()
        &&& new.len() == old.len()
        &&& forall|i: int| 0 <= i < old.len() && i != k ==> new[i] == old[i]
        &&& new[k].name == old[k].name
        &&& new[k].nullable == old[k].nullable
        &&& if path.len() == 1 {
            new[k].data_type == t
        } else {
            match (old[k].data_type, new[k].data_type) {
                (DataType::Struct(a), DataType::Struct(b)) => overridden(a@, b@, path.drop_first(), t),
                (DataType::LargeList(a), DataType::LargeList(b)) => overridden(
                    seq![*a],
                    seq![*b],
                    path.drop_first(),
                    t,
                ),
                _ => false,
            }
        }
    }
}

fn find_field(fields: &Vec<Field>, name: &String) -> (k: usize)
    ensures
        k == position_of(fields@, name@),
        k <= fields@.len(),
{
    let n = fields.len();
    let mut j: usize = 0;
    while j < n && !(fields[j].name == *name)
        invariant
            n == fields@.len(),
            j <= n,
            forall|q: int| 0 <= q < j ==> (#[trigger] fields@[q]).name@ != name@,
        decreases n - j,
    {
        j = j + 1;
    }
    proof {
        lemma_position_of(fields@, name@, j as int);
    }
    j
}

fn override_at(fields: Vec<Field>, path: &Vec<String>, depth: usize, t: DataType) -> (r: Option<
    Vec<Field>,
>)
    requires
        depth < path@.len(),
    ensures
        r is Some <==> path_exists(fields@, path_names(path@).skip(depth as int)),
        r matches Some(v) ==> overridden(fields@, v@, path_names(path@).skip(depth as int), t),
    decreases path@.len() - depth,
{
    let ghost p = path_names(path@).skip(depth as int);
    assert(p[0] == path@[depth as int]@);
    assert(p.drop_first() =~= path_names(path@).skip(depth as int + 1));
    let k = find_field(&fields, &path[depth]);
    if k == fields.len() {
        return None;
    }
    let mut fields = fields;
    if depth == path.len() - 1 {
        let ghost before = fields@;
        fields[k].data_type = t;
        assert forall|i: int| 0 <= i < before.len() && i != k implies fields@[i] == before[i] by {}
        assert(p.len() == 1);
        assert(fields@[k as int].data_type == t);
        assert(overridden(before, fields@, p, t));
        return Some(fields);
    }
    let ghost before = fields@;
    let f = fields.remove(k);
    let Field { name, data_type, nullable } = f;
    let data_type = match data_type {
        DataType::Struct(c) => match override_at(c, path, depth + 1, t) {
            Some(c2) => {
                assert(overridden(c@, c2@, p.drop_first(), t));
                DataType::Struct(c2)
            },
            None => {
                return None;
            },
        },
        DataType::LargeList(item) => {
            let mut c: Vec<Field> = Vec::new();
            c.push(*item);
            assert(c@ == seq![*item]);
            match override_at(c, path, depth + 1, t) {
                Some(c2) => {
                    assert(c2@.len() == 1);
                    let mut c2 = c2;
                    let it = c2.pop().unwrap();
                    assert(c2@.push(it) =~= seq![it]);
                    DataType::LargeList(Box::new(it))
                },
                None => {
                    return None;
                },
            }
        },
        _ => {
            return None;
        },
    };
    let ghost nf = Field { name, data_type, nullable };
    fields.insert(k, Field { name, data_type, nullable });
    assert(fields@[k as int] == nf);
    assert(nf.name == before[k as int].name);
    assert(match (before[k as int].data_type, nf.data_type) {
        (DataType::Struct(a), DataType::Struct(b)) => overridden(a@, b@, p.drop_first(), t),
        (DataType::LargeList(a), DataType::LargeList(b)) => overridden(
            seq![*a],
            seq![*b],
            p.drop_first(),
            t,
        ),
        _ => false,
    });
    assert forall|i: int| 0 <= i < before.len() && i != k implies fields@[i] == before[i] by {
        if i < k {
            assert(fields@[i] == before.remove(k as int)[i]);
        } else {
            assert(fields@[i] == before.remove(k as int)[i - 1]);
        }
    }
    Some(fields)
}

fn dotted_path(path: &Vec<String>) -> (r: String)
    ensures
        r@ == dotted(path_names(path@)),
{
    let ghost names = path_names(path@);
    let mut r = String::new();
    let n = path.len();
    let mut i: usize = 0;
    while i < n
        invariant
            n == path@.len(),
            names == path_names(path@),
            i <= n,
            r@ == dotted(names.take(i as int)),
        decreases n - i,
    {
        assert(names.take(i as int + 1).drop_last() =~= names.take(i as int));
        if i > 0 {
            r.append(".");
        } else {
            assert(names.take(0) =~= Seq::<Seq<char>>::empty());
        }
        r.append(path[i].as_str());
        if i > 0 {
            assert(r@ =~= dotted(names.take(i as int)) + "."@ + names[i as int]);
        } else {
            assert(r@ =~= names[0]);
        }
        i = i + 1;
    }
    assert(names.take(n as int) =~= names);
    r
}

/// Replaces the type of the field that `path` leads to, from the top-level fields
/// down through struct fields and list items (a list's item is named `item`), leaving
/// every other field as it was. Fails, naming the dotted path, where no field lies
/// there.
pub fn override_type(fields: Vec<Field>, path: &Vec<String>, new_type: DataType) -> (r: Result<
    Vec<Field>,
    ConvertError,
>)
    ensures
        r is Ok <==> path_exists(fields@, path_names(path@)),
        r matches Ok(v) ==> overridden(fields@, v@, path_names(path@), new_type),
        r matches Err(e) ==> e is SchemaError && (e->field)@ == dotted(path_names(path@)),
{
    if path.len() == 0 {
        return Err(ConvertError::SchemaError { field: dotted_path(path) });
    }
    assert(path_names(path@).skip(0) =~= path_names(path@));
    match override_at(fields, path, 0, new_type) {
        Some(v) => Ok(v),
        None => Err(ConvertError::SchemaError { field: dotted_path(path) }),
    }
}

} // verus!
