//! Bulk updates of a Zotero group library from tabular rows.
//!
//! The crate holds the rules of a synchronisation run: how rows become
//! records, how records are cut into batches, and how each batch is driven
//! through the version-fetch / patch-submit protocol of the service. It does
//! no I/O itself: a driver sends the requests that a run asks for and hands
//! the answers back.

use vstd::prelude::*;

pub mod batch;
pub mod csv;
pub mod decimal;
pub mod guarantees;
pub mod sync;
pub mod zotero;

verus! {

/// One update: the item to change and the two fields to overwrite.
#[derive(Debug)]
pub struct PatchData {
    key: String,
    title: String,
    extra: String,
}

/// What a [`PatchData`] holds, as plain text.
pub struct PatchDataView {
    pub key: Seq<char>,
    pub title: Seq<char>,
    pub extra: Seq<char>,
}

impl View for PatchData {
    type V = PatchDataView;

    closed spec fn view(&self) -> PatchDataView {
        PatchDataView { key: self.key@, title: self.title@, extra: self.extra@ }
    }
}

impl PatchData {
    /// A record that sets `title` and `extra` on the item named by `key`.
    pub fn new(key: String, title: String, extra: String) -> (record: PatchData)
        ensures
            record@ == (PatchDataView { key: key@, title: title@, extra: extra@ }),
    {
        PatchData { key, title, extra }
    }

    /// The key of the item that this record updates.
    pub fn key(&self) -> (text: &String)
        ensures
            text@ == self@.key,
    {
        &self.key
    }

    /// The title to write.
    pub fn title(&self) -> (text: &String)
        ensures
            text@ == self@.title,
    {
        &self.title
    }

    /// The text to write into the `extra` field.
    pub fn extra(&self) -> (text: &String)
        ensures
            text@ == self@.extra,
    {
        &self.extra
    }
}

} // verus!
