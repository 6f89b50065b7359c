//! Converts nested playlist records, fed shard by shard, into dictionary-encoded
//! and list columns ready for a columnar container, with every builder step proved.
//!
//! - `record`: the records and their views.
//! - `schema`: the column schema of a record and type overrides.
//! - `dictionary`: first-seen dictionary encoding of text, with a hash index.
//! - `builder`: the set of column builders that takes records and shards.
//! - `batch`: the frozen columns and reading rows back from them.
//! - `transform`: the seconds-to-milliseconds rescale applied to every shard.
//! - `laws`: properties that hold across the builder, the batch and the transform.

pub mod batch;
pub mod builder;
pub mod dictionary;
pub mod error;
pub mod io_patterns;
pub mod laws;
pub mod record;
pub mod schema;
pub mod text_hash;
pub mod transform;
