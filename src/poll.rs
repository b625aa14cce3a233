//! One poll cycle as a transition: the state holds the last listing, a fetch
//! outcome comes in, and the cycle says which entries to announce.
use vstd::prelude::*;
use crate::diff::{boundary, find_new_entries, lemma_boundary_in_range, DiffError};
use crate::models::{hashes, Entries, Entry};

verus! {

/// Why a listing could not be fetched.
#[derive(Debug, PartialEq, Eq, Structural)]
pub enum FetchError {
    /// The connection or the transport failed.
    Network,
    /// The server answered with a status outside 2xx.
    HttpStatus,
    /// The body does not have the shape of a listing.
    Decode,
}

/// The poller's memory: nothing before the first successful fetch, then the
/// listing of the last one.
#[derive(Debug)]
pub enum PollState {
    Uninitialized,
    Primed(Entries),
}

/// What a cycle decided.
#[derive(Debug)]
pub enum Cycle {
    /// The fetch failed; the state was left as it was.
    FetchFailed(FetchError),
    /// The first listing was stored; there was nothing to compare it with.
    Bootstrapped,
    /// The comparison was refused; the new listing was stored all the same.
    DiffFailed(DiffError),
    /// The comparison found no new entry.
    NothingNew,
    /// These entries are new, newest first.
    Notify(Vec<Entry>),
}

/// The entries that a cycle hands on to be announced.
pub open spec fn announced(c: Cycle) -> Seq<Entry> {
    match c {
        Cycle::Notify(v) => v@,
        _ => Seq::empty(),
    }
}

/// The new entries of `cur` against the previous listing `prev`.
pub open spec fn new_entries(prev: Seq<Entry>, cur: Seq<Entry>) -> Seq<Entry> {
    cur.subrange(0, boundary(hashes(prev), hashes(cur)))
}

/// What a cycle with a previous listing `prev` decides on the listing `cur`.
pub open spec fn compared(prev: Seq<Entry>, cur: Seq<Entry>, c: Cycle) -> bool {
    if cur.len() == 0 {
        c == Cycle::DiffFailed(DiffError::InvalidInput)
    } else if boundary(hashes(prev), hashes(cur)) == 0 {
        c == Cycle::NothingNew
    } else {
        c matches Cycle::Notify(v) && v@ == new_entries(prev, cur)
    }
}

/// Copies of the first `n` entries.
pub fn leading_entries(entries: &Vec<Entry>, n: usize) -> (r: Vec<Entry>)
    requires
        n <= entries@.len(),
    ensures
        r@ == entries@.subrange(0, n as int),
{
    let mut r: Vec<Entry> = Vec::new();
    let mut i: usize = 0;
    while i < n
        invariant
            i <= n <= entries@.len(),
            r@ == entries@.subrange(0, i as int),
        decreases n - i,
    {
        r.push(entries[i].clone());
        i += 1;
        assert(r@ =~= entries@.subrange(0, i as int));
    }
    r
}

/// Compares a listing with the previous one and picks the entries to announce.
pub fn compare(previous: &Vec<Entry>, current: &Vec<Entry>) -> (r: Cycle)
    ensures
        compared(previous@, current@, r),
{
    match find_new_entries(previous, current) {
        Err(e) => Cycle::DiffFailed(e),
        Ok(b) => {
            proof {
                lemma_boundary_in_range(hashes(previous@), hashes(current@));
            }
            if b == 0 {
                Cycle::NothingNew
            } else {
                Cycle::Notify(leading_entries(current, b))
            }
        },
    }
}

impl PollState {
    /// The state before any listing was fetched.
    pub fn new() -> (r: PollState)
        ensures
            r == PollState::Uninitialized,
    {
        PollState::Uninitialized
    }

    /// Whether the poller waits before its next fetch: it does once a listing
    /// is held, so the first fetch comes at once.
    pub fn waits_before_fetch(&self) -> (r: bool)
        ensures
            r == (self is Primed),
    {
        match self {
            PollState::Uninitialized => false,
            PollState::Primed(_) => true,
        }
    }

    /// Runs the decisions of one cycle on what the fetch gave. A failed fetch
    /// leaves the state as it was; a successful one always becomes the new
    /// previous listing. The first listing announces nothing.
    pub fn on_fetch(&mut self, fetched: Result<Entries, FetchError>) -> (r: Cycle)
        ensures
            fetched is Err ==> *final(self) == *old(self),
            fetched matches Ok(cur) ==> *final(self) == PollState::Primed(cur),
            *old(self) is Uninitialized ==> announced(r).len() == 0,
            match fetched {
                Err(e) => *final(self) == *old(self) && r == Cycle::FetchFailed(e),
                Ok(cur) => *final(self) == PollState::Primed(cur) && match *old(self) {
                    PollState::Uninitialized => r == Cycle::Bootstrapped,
                    PollState::Primed(prev) => compared(prev.entries@, cur.entries@, r),
                },
            },
    {
        match fetched {
            Err(e) => Cycle::FetchFailed(e),
            Ok(current) => {
                let cycle = match self {
                    PollState::Uninitialized => Cycle::Bootstrapped,
                    PollState::Primed(previous) => compare(&previous.entries, &current.entries),
                };
                *self = PollState::Primed(current);
                cycle
            },
        }
    }
}

} // verus!
