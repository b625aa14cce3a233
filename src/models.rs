//! The shapes of the aggregator's entry listing: one page of unread entries,
//! each entry, and the feed an entry belongs to.
use vstd::prelude::*;

verus! {

/// The unread entries returned by one listing, newest first.
#[derive(Debug)]
pub struct Entries {
    pub total: u32,
    pub entries: Vec<Entry>,
}

/// One unread feed item. `hash` is the only field that identifies an entry
/// from one listing to the next.
#[derive(Debug)]
pub struct Entry {
    pub id: u32,
    pub title: String,
    pub author: String,
    pub hash: String,
    pub feed: Feed,
    pub url: String,
}

/// The feed an entry was published in.
#[derive(Debug)]
pub struct Feed {
    pub title: String,
}

impl Clone for Feed {
    fn clone(&self) -> (r: Feed)
        ensures
            r == *self,
    {
        Feed { title: self.title.clone() }
    }
}

impl Clone for Entry {
    fn clone(&self) -> (r: Entry)
        ensures
            r == *self,
    {
        Entry {
            id: self.id,
            title: self.title.clone(),
            author: self.author.clone(),
            hash: self.hash.clone(),
            feed: self.feed.clone(),
            url: self.url.clone(),
        }
    }
}

/// The hashes of a sequence of entries, position by position.
pub open spec fn hashes(entries: Seq<Entry>) -> Seq<Seq<char>> {
    entries.map_values(|e: Entry| e.hash@)
}

} // verus!
