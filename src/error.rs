use vstd::prelude::*;

verus! {

/// What can go wrong while converting shards of records into columns.
#[derive(Debug)]
pub enum ConvertError {
    /// The path of a schema override, dotted, leads to no field of the schema.
    SchemaError { field: String },
    /// The value of a record could not be brought to its column's type;
    /// `record` is its position in the shard.
    TypeMismatch { record: usize },
    /// The columns would exceed what their codes and offsets can address.
    CapacityExceeded,
    /// A shard could not be decoded.
    ShardDecodeError { shard: String },
    /// The builders' lengths disagree.
    InternalError,
    /// The container could not be written.
    WriteError { message: String },
}

} // verus!
