//! The boundary between the new entries of a listing and those already seen.
use vstd::prelude::*;
use crate::models::{hashes, Entry};

verus! {

/// Why no boundary could be computed.
#[derive(Debug, PartialEq, Eq, Structural)]
pub enum DiffError {
    /// The current listing holds no entry.
    InvalidInput,
}

/// Position of the first element of `cur` equal to `h`; `cur.len()` when there is none.
pub open spec fn first_position(h: Seq<char>, cur: Seq<Seq<char>>) -> int
    decreases cur.len(),
{
    if cur.len() == 0 {
        0
    } else if cur[0] == h {
        0
    } else {
        1 + first_position(h, cur.drop_first())
    }
}

/// The boundary of `cur` against `prev`: the first hash of `prev`, in its order,
/// that occurs in `cur` decides, at its first position in `cur`; with no such
/// hash the boundary is zero.
pub open spec fn boundary(prev: Seq<Seq<char>>, cur: Seq<Seq<char>>) -> int
    decreases prev.len(),
{
    if prev.len() == 0 {
        0
    } else if cur.contains(prev[0]) {
        first_position(prev[0], cur)
    } else {
        boundary(prev.drop_first(), cur)
    }
}

/// `first_position` of a suffix, shifted by where the suffix starts, when no
/// element before it equals `h`.
proof fn lemma_first_position_suffix(h: Seq<char>, cur: Seq<Seq<char>>, i: int)
    requires
        0 <= i <= cur.len(),
        forall|k: int| 0 <= k < i ==> cur[k] != h,
    ensures
        first_position(h, cur) == i + first_position(h, cur.subrange(i, cur.len() as int)),
    decreases i,
{
    if i > 0 {
        let rest = cur.drop_first();
        assert(rest.subrange(i - 1, rest.len() as int) =~= cur.subrange(i, cur.len() as int));
        lemma_first_position_suffix(h, rest, i - 1);
    } else {
        assert(cur.subrange(0, cur.len() as int) =~= cur);
    }
}

/// The position found by `first_position` holds `h`, and no earlier one does.
pub proof fn lemma_first_position(h: Seq<char>, cur: Seq<Seq<char>>)
    requires
        cur.contains(h),
    ensures
        0 <= first_position(h, cur) < cur.len(),
        cur[first_position(h, cur)] == h,
        forall|k: int| 0 <= k < first_position(h, cur) ==> cur[k] != h,
    decreases cur.len(),
{
    if cur[0] != h {
        let j = choose|j: int| 0 <= j < cur.len() && cur[j] == h;
        assert(cur.drop_first()[j - 1] == h);
        lemma_first_position(h, cur.drop_first());
        assert forall|k: int| 0 <= k < first_position(h, cur) implies cur[k] != h by {
            if k > 0 {
                assert(cur[k] == cur.drop_first()[k - 1]);
            }
        }
    }
}

/// The boundary is a position of `cur` whenever `cur` is not empty.
pub proof fn lemma_boundary_in_range(prev: Seq<Seq<char>>, cur: Seq<Seq<char>>)
    requires
        cur.len() > 0,
    ensures
        0 <= boundary(prev, cur) < cur.len(),
    decreases prev.len(),
{
    if prev.len() > 0 {
        if cur.contains(prev[0]) {
            lemma_first_position(prev[0], cur);
        } else {
            lemma_boundary_in_range(prev.drop_first(), cur);
        }
    }
}

/// Where no hash of `prev` occurs in `cur`, the boundary is zero: nothing is
/// reported as new, however much the listing changed.
pub proof fn lemma_no_overlap_boundary_zero(prev: Seq<Seq<char>>, cur: Seq<Seq<char>>)
    requires
        forall|j: int| 0 <= j < prev.len() ==> !cur.contains(#[trigger] prev[j]),
    ensures
        boundary(prev, cur) == 0,
    decreases prev.len(),
{
    if prev.len() > 0 {
        assert(!cur.contains(prev[0]));
        assert forall|j: int| 0 <= j < prev.drop_first().len() implies !cur.contains(
            #[trigger] prev.drop_first()[j],
        ) by {
            assert(prev.drop_first()[j] == prev[j + 1]);
        }
        lemma_no_overlap_boundary_zero(prev.drop_first(), cur);
    }
}

/// Where some hash of `prev` occurs in `cur`, the boundary is the first
/// position in `cur` of the first such hash of `prev`.
pub proof fn lemma_boundary_first_match(prev: Seq<Seq<char>>, cur: Seq<Seq<char>>)
    requires
        exists|j: int| 0 <= j < prev.len() && cur.contains(#[trigger] prev[j]),
    ensures
        exists|j: int|
            0 <= j < prev.len() && cur.contains(#[trigger] prev[j]) && boundary(prev, cur)
                == first_position(prev[j], cur) && forall|k: int|
                0 <= k < j ==> !cur.contains(#[trigger] prev[k]),
    decreases prev.len(),
{
    if cur.contains(prev[0]) {
        assert(0 <= 0 < prev.len() && cur.contains(prev[0]) && boundary(prev, cur)
            == first_position(prev[0], cur));
    } else {
        let rest = prev.drop_first();
        let j0 = choose|j: int| 0 <= j < prev.len() && cur.contains(#[trigger] prev[j]);
        assert(rest[j0 - 1] == prev[j0]);
        lemma_boundary_first_match(rest, cur);
        let j1 = choose|j: int|
            0 <= j < rest.len() && cur.contains(#[trigger] rest[j]) && boundary(rest, cur)
                == first_position(rest[j], cur) && forall|k: int|
                0 <= k < j ==> !cur.contains(#[trigger] rest[k]);
        assert forall|k: int| 0 <= k < j1 + 1 implies !cur.contains(#[trigger] prev[k]) by {
            if k > 0 {
                assert(prev[k] == rest[k - 1]);
            }
        }
        assert(prev[j1 + 1] == rest[j1]);
    }
}

/// Reordering the previous hashes leaves the boundary as it is, so long as the
/// same hashes are kept and no two of them that occur in `cur` first occur at
/// different positions. Where two do, the order of `prev` decides.
pub proof fn lemma_previous_order_irrelevant(
    prev: Seq<Seq<char>>,
    reordered: Seq<Seq<char>>,
    cur: Seq<Seq<char>>,
)
    requires
        prev.to_set() == reordered.to_set(),
        forall|a: Seq<char>, b: Seq<char>|
            prev.contains(a) && prev.contains(b) && cur.contains(a) && cur.contains(b)
                ==> first_position(a, cur) == first_position(b, cur),
    ensures
        boundary(prev, cur) == boundary(reordered, cur),
{
    assert forall|h: Seq<char>| prev.contains(h) <==> reordered.contains(h) by {
        assert(prev.to_set().contains(h) == prev.contains(h));
        assert(reordered.to_set().contains(h) == reordered.contains(h));
    }
    if exists|j: int| 0 <= j < prev.len() && cur.contains(#[trigger] prev[j]) {
        let j0 = choose|j: int| 0 <= j < prev.len() && cur.contains(#[trigger] prev[j]);
        assert(prev.contains(prev[j0]));
        let r0 = choose|j: int| 0 <= j < reordered.len() && reordered[j] == prev[j0];
        assert(cur.contains(reordered[r0]));
        lemma_boundary_first_match(prev, cur);
        lemma_boundary_first_match(reordered, cur);
        let a = choose|j: int|
            0 <= j < prev.len() && cur.contains(#[trigger] prev[j]) && boundary(prev, cur)
                == first_position(prev[j], cur) && forall|k: int|
                0 <= k < j ==> !cur.contains(#[trigger] prev[k]);
        let b = choose|j: int|
            0 <= j < reordered.len() && cur.contains(#[trigger] reordered[j]) && boundary(
                reordered,
                cur,
            ) == first_position(reordered[j], cur) && forall|k: int|
                0 <= k < j ==> !cur.contains(#[trigger] reordered[k]);
        assert(prev.contains(prev[a]));
        assert(reordered.contains(reordered[b]));
        assert(prev.contains(reordered[b]));
    } else {
        assert forall|j: int| 0 <= j < reordered.len() implies !cur.contains(
            #[trigger] reordered[j],
        ) by {
            assert(reordered.contains(reordered[j]));
            if cur.contains(reordered[j]) {
                let k = choose|k: int| 0 <= k < prev.len() && prev[k] == reordered[j];
                assert(cur.contains(prev[k]));
            }
        }
        lemma_no_overlap_boundary_zero(prev, cur);
        lemma_no_overlap_boundary_zero(reordered, cur);
    }
}

/// Finds the boundary between the new entries of `new` and those already in
/// `cache`: `new[0..b)` are new. The first entry of `cache` whose hash occurs in
/// `new` decides, at its first occurrence there; where none occurs, the
/// boundary is zero. An empty `new` is refused.
pub fn find_new_entries(cache: &Vec<Entry>, new: &Vec<Entry>) -> (r: Result<usize, DiffError>)
    ensures
        match r {
            Ok(b) => new@.len() > 0 && b == boundary(hashes(cache@), hashes(new@)),
            Err(e) => new@.len() == 0 && e == DiffError::InvalidInput,
        },
{
    if new.len() == 0 {
        return Err(DiffError::InvalidInput);
    }
    let ghost prev = hashes(cache@);
    let ghost cur = hashes(new@);
    assert(prev.subrange(0, prev.len() as int) =~= prev);
    let mut j: usize = 0;
    while j < cache.len()
        invariant
            0 <= j <= cache@.len(),
            prev == hashes(cache@),
            cur == hashes(new@),
            new@.len() > 0,
            boundary(prev, cur) == boundary(prev.subrange(j as int, prev.len() as int), cur),
        decreases cache@.len() - j,
    {
        let h = &cache[j].hash;
        let ghost tail = prev.subrange(j as int, prev.len() as int);
        assert(tail[0] == h@);
        assert(tail.drop_first() =~= prev.subrange(j + 1, prev.len() as int));
        let mut i: usize = 0;
        while i < new.len()
            invariant
                0 <= i <= new@.len(),
                prev == hashes(cache@),
                cur == hashes(new@),
                j < prev.len(),
                h@ == prev[j as int],
                forall|k: int| 0 <= k < i ==> cur[k] != h@,
                tail.len() > 0,
                tail[0] == h@,
                boundary(prev, cur) == boundary(tail, cur),
            decreases new@.len() - i,
        {
            if new[i].hash == *h {
                proof {
                    assert(cur[i as int] == h@);
                    assert(cur.contains(h@));
                    lemma_first_position_suffix(h@, cur, i as int);
                    assert(cur.subrange(i as int, cur.len() as int)[0] == h@);
                    assert(first_position(h@, cur) == i);
                    assert(boundary(tail, cur) == first_position(h@, cur));
                }
                return Ok(i);
            }
            i += 1;
        }
        assert(!cur.contains(h@));
        j += 1;
    }
    assert(prev.subrange(j as int, prev.len() as int).len() == 0);
    Ok(0)
}

} // verus!
