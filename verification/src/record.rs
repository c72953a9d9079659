//! History records: an ordered, immutable-after-load collection of
//! title/target pairs, indexed by position (load order encodes recency).

use vstd::prelude::*;

verus! {

/// One browsing-history record: a display title and the target that an
/// activation opens (typically a URL).
#[derive(Debug, PartialEq, Eq)]
pub struct HistoryEntry {
    pub title: String,
    pub url: String,
}

impl HistoryEntry {
    /// Builds a record from its title and its target.
    pub fn new(title: String, url: String) -> (r: HistoryEntry)
        ensures
            r.title@ == title@,
            r.url@ == url@,
    {
        HistoryEntry { title, url }
    }

    /// The record's display title.
    pub fn title(&self) -> (r: &str)
        ensures
            r@ == self.title@,
    {
        self.title.as_str()
    }

    /// The record's action target.
    pub fn url(&self) -> (r: &str)
        ensures
            r@ == self.url@,
    {
        self.url.as_str()
    }
}

/// The titles of a sequence of records, in store order.
pub open spec fn titles_of(records: Seq<HistoryEntry>) -> Seq<Seq<char>> {
    records.map_values(|e: HistoryEntry| e.title@)
}

} // verus!
