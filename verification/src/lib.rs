//! Decisions of a write-serialising coordinator for an embedded, ordered
//! key-value store, with the block codec that every stored value goes through.
use vstd::prelude::*;

pub mod codec;
pub mod handle;
pub mod model;
pub mod writer;

verus! {

/// A key with bytes that belong to it: a value, or a value's stored form.
pub type Record = (Seq<char>, Seq<u8>);

/// One key of the table with the caller's bytes for it.
#[derive(Debug, Clone, PartialEq, Eq)]
pub struct NativeEntry {
    pub key: String,
    pub value: Vec<u8>,
}

impl View for NativeEntry {
    type V = Record;

    open spec fn view(&self) -> Record {
        (self.key@, self.value@)
    }
}

} // verus!
