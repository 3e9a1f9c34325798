//! A verified decoder for the JVM class-file format.
//!
//! The format is a tag-discriminated binary container: a big-endian byte
//! stream holding a constant pool of fourteen record kinds, field and
//! method lists, and named attributes that nest recursively inside the
//! Code attribute. Every reader here carries a contract that ties its
//! result and its cursor movement, byte for byte, to a specification-level
//! decode function over the buffer's mathematical view, including which
//! error each malformed input produces.
//!
//! - [`pos_slice`]: the bounds-checked big-endian cursor.
//! - [`constant_pool`]: the pool records, the tag dispatch, and the
//!   double-slot rule for 8-byte constants.
//! - [`attribute_info`]: attribute dispatch by name, the raw fallback for
//!   unknown names, and the recursive Code attribute.
//! - [`class_file`]: the top-level aggregate with its name-resolution and
//!   entry-point queries.
//! - [`error`]: the error taxonomy shared by every reader.
//! - [`text`]: verified string comparison for the name dispatch.
#![verifier::loop_isolation(false)]

pub mod attribute_info;
pub mod class_file;
pub mod constant_pool;
pub mod error;
pub mod pos_slice;
pub mod text;

pub use error::Error;
