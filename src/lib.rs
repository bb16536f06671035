//! A declarative engine for parsing structured binary data out of a seekable
//! byte stream, driven by a per-field schema of layout directives.
use vstd::prelude::*;

pub mod endian;
pub mod error;
pub mod field;
pub mod ident;
pub mod laws;
pub mod magic;
pub mod schema;
pub mod stream;
pub mod structure;
pub mod variant;

verus! {

} // verus!
