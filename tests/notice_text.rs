use miniflux_notify::models::{Entry, Feed};
use miniflux_notify::notice::{notice_for, notices_for, notification_source};

fn entry(author: &str, feed: &str, title: &str) -> Entry {
    Entry {
        id: 3,
        title: title.to_string(),
        author: author.to_string(),
        hash: String::from("h"),
        feed: Feed { title: feed.to_string() },
        url: String::from("https://example.org/post"),
    }
}

#[test]
fn source_is_author_when_present() {
    let e = entry("Ada", "Weekly", "Hello");
    assert_eq!(notification_source(&e), "Ada");
}

#[test]
fn source_falls_back_to_feed_title() {
    let e = entry("", "Weekly", "Hello");
    assert_eq!(notification_source(&e), "Weekly");
}

#[test]
fn notice_text() {
    let n = notice_for(&entry("", "Weekly", "Hello"));
    assert_eq!(n.summary, "New RSS Entry from Weekly");
    assert_eq!(n.body, "Hello");
    assert_eq!(n.url, "https://example.org/post");
}

#[test]
fn notices_keep_batch_order() {
    let batch = vec![entry("A", "F", "one"), entry("", "G", "two")];
    let ns = notices_for(&batch);
    assert_eq!(ns.len(), 2);
    assert_eq!(ns[0].summary, "New RSS Entry from A");
    assert_eq!(ns[1].summary, "New RSS Entry from G");
    assert_eq!(ns[1].body, "two");
}
