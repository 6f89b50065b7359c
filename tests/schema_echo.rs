use json_to_arrow::text_hash::{hash_text, HASH_PRIME, HASH_SEED};
use json_to_arrow::io_patterns::{double_value, process};
use json_to_arrow::error::ConvertError;
use json_to_arrow::schema::{derive_schema, override_type, DataType};

#[test]
fn derived_schema_follows_record() {
    let fields = derive_schema();
    let names: Vec<&str> = fields.iter().map(|f| f.name.as_str()).collect();
    assert_eq!(
        names,
        vec!["name", "collaborative", "pid", "modified_at", "num_tracks", "num_albums", "num_followers", "tracks"]
    );
    assert!(matches!(fields[0].data_type, DataType::DictionaryUtf8));
    assert!(matches!(fields[3].data_type, DataType::Int64));
    assert!(matches!(fields[4].data_type, DataType::UInt16));
    match &fields[7].data_type {
        DataType::LargeList(item) => match &item.data_type {
            DataType::Struct(children) => {
                assert_eq!(children.len(), 8);
                assert_eq!(children[0].name, "pos");
                assert!(matches!(children[0].data_type, DataType::UInt16));
                assert_eq!(children[7].name, "album_name");
                assert!(matches!(children[7].data_type, DataType::DictionaryUtf8));
            }
            _ => panic!("list item is not a struct"),
        },
        _ => panic!("tracks is not a list"),
    }
    assert!(fields.iter().all(|f| !f.nullable));
}

#[test]
fn override_replaces_one_type() {
    let fields = override_type(derive_schema(), &vec!["modified_at".to_string()], DataType::Date64).unwrap();
    assert_eq!(fields.len(), 8);
    assert_eq!(fields[3].name, "modified_at");
    assert!(matches!(fields[3].data_type, DataType::Date64));
    assert!(matches!(fields[2].data_type, DataType::Int64));
    assert!(matches!(fields[6].data_type, DataType::Int64));
}

#[test]
fn override_of_unknown_field_fails() {
    match override_type(derive_schema(), &vec!["modified".to_string()], DataType::Date64) {
        Err(ConvertError::SchemaError { field }) => assert_eq!(field, "modified"),
        _ => panic!("expected a schema error"),
    }
}

#[test]
fn echo_prefixes_message() {
    assert_eq!(process("hello".to_string()), "Echo: hello");
    assert_eq!(process(String::new()), "Echo: ");
}

#[test]
fn double_value_doubles_and_detects_overflow() {
    assert_eq!(double_value(21), Some(42));
    assert_eq!(double_value(-4), Some(-8));
    assert_eq!(double_value(0), Some(0));
    assert_eq!(double_value(i64::MAX / 2 + 1), None);
    assert_eq!(double_value(i64::MIN / 2), Some(i64::MIN));
}

#[test]
fn text_hash_folds_characters() {
    assert_eq!(hash_text(&String::new()), HASH_SEED);
    let one = (HASH_SEED ^ ('a' as u64)).wrapping_mul(HASH_PRIME);
    assert_eq!(hash_text(&"a".to_string()), one);
    let two = (one ^ ('é' as u64)).wrapping_mul(HASH_PRIME);
    assert_eq!(hash_text(&"aé".to_string()), two);
    assert_ne!(hash_text(&"ab".to_string()), hash_text(&"ba".to_string()));
}

fn path(names: &[&str]) -> Vec<String> {
    names.iter().map(|n| n.to_string()).collect()
}

#[test]
fn override_reaches_nested_field() {
    let fields = override_type(derive_schema(), &path(&["tracks", "item", "duration_ms"]), DataType::Date64).unwrap();
    assert!(matches!(fields[3].data_type, DataType::Int64));
    match &fields[7].data_type {
        DataType::LargeList(item) => {
            assert_eq!(item.name, "item");
            match &item.data_type {
                DataType::Struct(children) => {
                    assert_eq!(children.len(), 8);
                    assert_eq!(children[1].name, "duration_ms");
                    assert!(matches!(children[1].data_type, DataType::Date64));
                    assert!(matches!(children[0].data_type, DataType::UInt16));
                    assert!(matches!(children[2].data_type, DataType::DictionaryUtf8));
                }
                _ => panic!("list item is not a struct"),
            }
        }
        _ => panic!("tracks is not a list"),
    }
}

#[test]
fn override_path_errors_name_the_path() {
    match override_type(derive_schema(), &path(&["pid", "x"]), DataType::Date64) {
        Err(ConvertError::SchemaError { field }) => assert_eq!(field, "pid.x"),
        _ => panic!("expected a schema error"),
    }
    match override_type(derive_schema(), &path(&["tracks", "item", "missing"]), DataType::Date64) {
        Err(ConvertError::SchemaError { field }) => assert_eq!(field, "tracks.item.missing"),
        _ => panic!("expected a schema error"),
    }
    match override_type(derive_schema(), &path(&[]), DataType::Date64) {
        Err(ConvertError::SchemaError { field }) => assert_eq!(field, ""),
        _ => panic!("expected a schema error"),
    }
}
