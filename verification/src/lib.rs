//! Decoder for the inibin property-bag format: a flat table of values keyed
//! by 32-bit name hashes, and a schema-driven reader over that table.
//!
//! - [`hash`]: the case-insensitive rolling hash that names every field.
//! - [`wire`]: little-endian integers and strings in a buffer, and a cursor.
//! - [`layout`]: what a buffer means, in either layout of the format.
//! - [`entries`]: the model of a flat map, its entries in insertion order.
//! - [`inibin`]: the flat map and the decoder that builds it from bytes.
//! - [`de`]: the schema-driven decoder over a flat map.
//! - [`value`] and [`error`]: stored values and errors.

pub mod de;
pub mod entries;
pub mod error;
pub mod hash;
pub mod inibin;
pub mod layout;
pub mod value;
pub mod wire;

pub use crate::de::{Deserializer, Request, VecCursor};
pub use crate::error::{Error, FormatError};
pub use crate::hash::{inibin_hash, inibin_incremental_hash};
pub use crate::inibin::IniBin;
pub use crate::value::{Float, FloatVec, Value, ValueView};
