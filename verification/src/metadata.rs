//! Metadata attached to registry entities: a tagged value that is nothing,
//! a string, or a nested key-value table.

use vstd::prelude::*;

verus! {

/// A metadata value. Key-value tables are association lists; a key is
/// meaningful once per table.
#[derive(Debug)]
pub enum Metadata {
    /// A bare marker with no payload.
    Absent,
    String { value: String },
    KeyValues { kvs: Vec<(String, Metadata)> },
}

} // verus!
