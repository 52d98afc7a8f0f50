//! Serialize values into a human-readable encoding that preserves
//! lexicographic sort order.
//!
//! The encoded format is useful for key-value stores/databases that keep
//! keys in sorted order.  A value is encoded as printable components joined
//! by a deliminator (`:` by default): booleans as literals, numerics as
//! fixed-width lowercase hexadecimal after order-preserving bit transforms,
//! text as itself, byte blobs as hexadecimal.  The format is not
//! self-describing: decoding is driven by an explicit [`Shape`] supplied by
//! the caller.
//!
//! Example:
//!
//! ```rust
//! use strkey::{from_slice, to_vec, Shape, Value};
//!
//! let serialized = to_vec(&Value::Tuple(vec![
//!     Value::Str(String::from("account")),
//!     Value::U32(1234),
//! ])).unwrap();
//!
//! assert_eq!(&serialized, b"account:000004d2");
//!
//! let shape = Shape::Tuple(vec![Shape::Str, Shape::U32]);
//! let deserialized = from_slice(&serialized, &shape).unwrap();
//!
//! assert_eq!(
//!     deserialized,
//!     Value::Tuple(vec![Value::Str(String::from("account")), Value::U32(1234)]),
//! );
//! ```
//!
//! For details, see the [`ser`] module.

pub mod component;
pub mod de;
pub mod error;
pub mod hex;
pub mod laws;
pub mod ser;
pub mod split;
pub mod transform;
pub mod value;

pub use crate::component::Component;
pub use crate::component::ComponentRead;
pub use crate::component::IoReader;
pub use crate::component::SliceReader;
pub use crate::de::from_reader;
pub use crate::de::from_slice;
pub use crate::de::Deserializer;
pub use crate::error::Error;
pub use crate::ser::to_vec;
pub use crate::ser::Serializer;
pub use crate::value::Shape;
pub use crate::value::Value;
