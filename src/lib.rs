//! Typed binary layouts: the exact byte size of values, their big-endian
//! codecs over byte cursors, and records built as chains of fields.

pub mod builder;
pub mod collections;
pub mod indirect;
pub mod laws;
pub mod option;
pub mod primitives;
pub mod traits;
pub mod variant;
pub mod wire;

pub use builder::{Deserialize, DeserializeWith, Nil, RwInterface, Serialize, ToRwInterface, Val};
pub use traits::{
    ContextualReadable, CursorError, DataSize, ReadError, Readable, RoundTrip, StaticDataSize,
    WriteError, Writable,
};
pub use variant::{read_discriminant, Discriminant, Either};
