use miniflux_notify::diff::{find_new_entries, DiffError};
use miniflux_notify::models::{Entry, Feed};

fn entry(hash: &str) -> Entry {
    Entry {
        id: 1,
        title: format!("title {}", hash),
        author: String::from("someone"),
        hash: hash.to_string(),
        feed: Feed { title: String::from("a feed") },
        url: format!("https://example.org/{}", hash),
    }
}

fn entries(hashes: &[&str]) -> Vec<Entry> {
    hashes.iter().map(|h| entry(h)).collect()
}

#[test]
fn empty_current_is_invalid_input() {
    assert_eq!(find_new_entries(&entries(&["a"]), &vec![]), Err(DiffError::InvalidInput));
    assert_eq!(find_new_entries(&vec![], &vec![]), Err(DiffError::InvalidInput));
}

#[test]
fn empty_previous_gives_zero() {
    assert_eq!(find_new_entries(&vec![], &entries(&["x", "y"])), Ok(0));
}

#[test]
fn no_overlap_gives_zero() {
    let prev = entries(&["a", "b", "c"]);
    let cur = entries(&["x", "y", "z"]);
    assert_eq!(find_new_entries(&prev, &cur), Ok(0));
}

#[test]
fn first_match_boundary() {
    let prev = entries(&["a", "b"]);
    let cur = entries(&["x", "y", "b", "z"]);
    assert_eq!(find_new_entries(&prev, &cur), Ok(2));
}

#[test]
fn immediate_match_gives_zero() {
    let prev = entries(&["a"]);
    let cur = entries(&["a", "y"]);
    assert_eq!(find_new_entries(&prev, &cur), Ok(0));
}

#[test]
fn earlier_previous_entry_decides() {
    let prev = entries(&["b", "a"]);
    let cur = entries(&["a", "b"]);
    assert_eq!(find_new_entries(&prev, &cur), Ok(1));
    let swapped = entries(&["a", "b"]);
    assert_eq!(find_new_entries(&swapped, &cur), Ok(0));
}

#[test]
fn reordering_previous_keeps_single_match() {
    let cur = entries(&["x", "y", "b", "z"]);
    assert_eq!(find_new_entries(&entries(&["a", "b", "c"]), &cur), Ok(2));
    assert_eq!(find_new_entries(&entries(&["c", "a", "b"]), &cur), Ok(2));
    assert_eq!(find_new_entries(&entries(&["b", "c", "a"]), &cur), Ok(2));
}

#[test]
fn first_position_of_repeated_hash() {
    let prev = entries(&["q", "b"]);
    let cur = entries(&["x", "b", "y", "b"]);
    assert_eq!(find_new_entries(&prev, &cur), Ok(1));
}

#[test]
fn later_previous_entry_used_when_earlier_are_gone() {
    let prev = entries(&["gone1", "gone2", "h3"]);
    let cur = entries(&["n1", "n2", "n3", "h3"]);
    assert_eq!(find_new_entries(&prev, &cur), Ok(3));
}

#[test]
fn clone_keeps_every_field() {
    let e = entry("k");
    let c = e.clone();
    assert_eq!(c.id, e.id);
    assert_eq!(c.title, e.title);
    assert_eq!(c.author, e.author);
    assert_eq!(c.hash, e.hash);
    assert_eq!(c.feed.title, e.feed.title);
    assert_eq!(c.url, e.url);
}
