use freopen_chat_bot::db::SubscribeInfo;
use freopen_chat_bot::feed::{new_entries, FeedEntry};
use freopen_chat_bot::subscribe::{finish_delivery, plan_delivery, SubscribeError};

fn entry(id: &str) -> FeedEntry {
    FeedEntry { id: id.to_string(), links: vec![format!("https://example.org/{}", id)] }
}

fn feed(ids: &[&str]) -> Vec<FeedEntry> {
    ids.iter().map(|id| entry(id)).collect()
}

fn ids(entries: &[FeedEntry]) -> Vec<String> {
    entries.iter().map(|e| e.id.clone()).collect()
}

#[test]
fn delta_stops_before_the_cursor() {
    let fresh = new_entries(feed(&["e5", "e4", "e3", "e2", "e1"]), "e3");
    assert_eq!(ids(&fresh), vec!["e5", "e4"]);
}

#[test]
fn delivery_is_oldest_first_and_cursor_is_newest() {
    let plan = plan_delivery(feed(&["e5", "e4", "e3", "e2", "e1"]), "e3").unwrap();
    assert_eq!(plan.messages, vec!["https://example.org/e4", "https://example.org/e5"]);
    assert!(plan.complete);
    assert_eq!(plan.next_last_entry, "e5");

    let mut store = SubscribeInfo::new();
    store.add(7, "https://example.org/feed");
    store.set(7, "https://example.org/feed", "e3".to_string());
    let r = finish_delivery(&mut store, 7, "https://example.org/feed", plan, 2);
    assert_eq!(r, Ok(()));
    assert_eq!(store.get(7, "https://example.org/feed"), Some("e5".to_string()));
}

#[test]
fn missing_cursor_makes_everything_new() {
    let plan = plan_delivery(feed(&["c", "b", "a"]), "gone").unwrap();
    assert_eq!(
        plan.messages,
        vec!["https://example.org/a", "https://example.org/b", "https://example.org/c"]
    );
    assert!(plan.complete);
    assert_eq!(plan.next_last_entry, "c");
}

#[test]
fn nothing_new_plans_nothing() {
    assert!(plan_delivery(feed(&["c", "b", "a"]), "c").is_none());
    assert!(plan_delivery(Vec::new(), "c").is_none());
}

#[test]
fn failed_delivery_keeps_the_cursor() {
    let plan = plan_delivery(feed(&["c", "b", "a"]), "a").unwrap();
    let mut store = SubscribeInfo::new();
    store.add(1, "u");
    store.set(1, "u", "a".to_string());
    let r = finish_delivery(&mut store, 1, "u", plan, 1);
    assert_eq!(r, Err(SubscribeError::Delivery));
    assert_eq!(store.get(1, "u"), Some("a".to_string()));
}

#[test]
fn entry_without_link_ends_the_messages() {
    let mut entries = feed(&["c", "b", "a"]);
    entries[1].links.clear();
    let plan = plan_delivery(entries, "").unwrap();
    assert_eq!(plan.messages, vec!["https://example.org/a"]);
    assert!(!plan.complete);
    let mut store = SubscribeInfo::new();
    store.add(1, "u");
    let r = finish_delivery(&mut store, 1, "u", plan, 1);
    assert_eq!(r, Err(SubscribeError::NoLinks));
    assert_eq!(store.get(1, "u"), Some(String::new()));
}
