//! The text of the desktop notification that announces an entry.
use vstd::prelude::*;
use crate::models::Entry;

verus! {

/// What a notification for one entry shows, and where its action leads.
#[derive(Debug)]
pub struct Notice {
    pub summary: String,
    pub body: String,
    pub url: String,
}

/// Who an entry is announced as coming from: its author, or the feed's title
/// when the author is empty.
pub open spec fn source_of(e: Entry) -> Seq<char> {
    if e.author@.len() == 0 {
        e.feed.title@
    } else {
        e.author@
    }
}

/// The summary line of an entry's notification.
pub open spec fn summary_of(e: Entry) -> Seq<char> {
    "New RSS Entry from "@ + source_of(e)
}

/// The name an entry is announced under.
pub fn notification_source(entry: &Entry) -> (r: &String)
    ensures
        r@ == source_of(*entry),
{
    if entry.author.as_str().is_empty() {
        &entry.feed.title
    } else {
        &entry.author
    }
}

/// The notification for one entry: the summary names its source, the body is
/// its title, and its action opens its URL.
pub fn notice_for(entry: &Entry) -> (r: Notice)
    ensures
        r.summary@ == summary_of(*entry),
        r.body@ == entry.title@,
        r.url@ == entry.url@,
{
    let mut summary = "New RSS Entry from ".to_owned();
    summary.append(notification_source(entry).as_str());
    Notice { summary, body: entry.title.clone(), url: entry.url.clone() }
}

/// The notifications for a batch of entries, in the batch's order.
pub fn notices_for(entries: &[Entry]) -> (r: Vec<Notice>)
    ensures
        r@.len() == entries@.len(),
        forall|i: int|
            0 <= i < r@.len() ==> {
                &&& (#[trigger] r@[i]).summary@ == summary_of(entries@[i])
                &&& r@[i].body@ == entries@[i].title@
                &&& r@[i].url@ == entries@[i].url@
            },
{
    let mut r: Vec<Notice> = Vec::new();
    let mut i: usize = 0;
    while i < entries.len()
        invariant
            i <= entries@.len(),
            r@.len() == i,
            forall|k: int|
                0 <= k < i ==> {
                    &&& (#[trigger] r@[k]).summary@ == summary_of(entries@[k])
                    &&& r@[k].body@ == entries@[k].title@
                    &&& r@[k].url@ == entries@[k].url@
                },
        decreases entries@.len() - i,
    {
        r.push(notice_for(&entries[i]));
        i += 1;
    }
    r
}

} // verus!
