use vstd::prelude::*;

pub mod note;

verus! {

/// An in-memory collection of parsed notes, keyed by their identifiers.
#[derive(Debug, Default)]
pub struct Notebook {
    pub store: std::collections::HashMap<note::NoteId, note::Note>,
}

} // verus!
