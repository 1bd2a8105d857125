//! One open document of the host editor, as the panel knows it.

use vstd::prelude::*;

verus! {

/// An open document ("buffer") reported by the host.
///
/// Identity is the `id` alone. The `path` is a display attribute: it may
/// be empty (an unnamed buffer), it may be shared by several buffers, and
/// it may change while the `id` stays.
#[derive(Debug, PartialEq, Eq)]
pub struct BufferEntry {
    /// Absolute path; empty for an unnamed buffer.
    pub path: String,
    /// Identifier assigned by the host.
    pub id: u64,
    /// Whether the buffer has unsaved changes.
    pub modified: bool,
}

/// The mathematical value of a [`BufferEntry`].
pub struct EntryView {
    pub path: Seq<char>,
    pub id: u64,
    pub modified: bool,
}

impl View for BufferEntry {
    type V = EntryView;

    open spec fn view(&self) -> EntryView {
        EntryView { path: self.path@, id: self.id, modified: self.modified }
    }
}

impl DeepView for BufferEntry {
    type V = EntryView;

    open spec fn deep_view(&self) -> EntryView {
        self@
    }
}

impl Clone for BufferEntry {
    fn clone(&self) -> (copy: Self)
        ensures
            copy == *self,
    {
        BufferEntry { path: self.path.clone(), id: self.id, modified: self.modified }
    }
}

/// The identifiers of a sequence of entries, in order.
pub open spec fn ids(entries: Seq<EntryView>) -> Seq<u64> {
    entries.map_values(|e: EntryView| e.id)
}

impl BufferEntry {
    /// An unmodified entry for the buffer `id` at `path`.
    pub fn new(path: &str, id: u64) -> (entry: Self)
        ensures
            entry@ == (EntryView { path: path@, id, modified: false }),
    {
        BufferEntry { path: path.to_owned(), id, modified: false }
    }
}

} // verus!
