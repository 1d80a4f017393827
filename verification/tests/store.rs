use freopen_chat_bot::db::{DBType, SubInfo, SubscribeInfo, Subscription};

fn sorted(mut v: Vec<String>) -> Vec<String> {
    v.sort();
    v
}

#[test]
fn new_store_is_empty() {
    let store = SubscribeInfo::new();
    assert!(store.list(1).is_empty());
    assert!(store.list_all().is_empty());
    assert_eq!(store.get(1, "https://a.example/feed"), None);
}

#[test]
fn default_database_has_no_subscriptions() {
    let db = DBType::default();
    assert!(db.subscribe.list_all().is_empty());
    assert!(SubscribeInfo::default().list_all().is_empty());
}

#[test]
fn add_starts_with_an_empty_cursor() {
    let mut store = SubscribeInfo::new();
    store.add(5, "https://a.example/feed");
    assert_eq!(store.get(5, "https://a.example/feed"), Some(String::new()));
    assert_eq!(store.list(5), vec!["https://a.example/feed"]);
}

#[test]
fn adding_the_same_url_twice_keeps_one_entry_and_resets_the_cursor() {
    let mut store = SubscribeInfo::new();
    store.add(5, "https://a.example/feed");
    store.set(5, "https://a.example/feed", "entry-9".to_string());
    assert_eq!(store.get(5, "https://a.example/feed"), Some("entry-9".to_string()));
    store.add(5, "https://a.example/feed");
    assert_eq!(store.list(5), vec!["https://a.example/feed"]);
    assert_eq!(store.list_all().len(), 1);
    assert_eq!(store.get(5, "https://a.example/feed"), Some(String::new()));
}

#[test]
fn the_same_url_in_two_chats_is_two_subscriptions() {
    let mut store = SubscribeInfo::new();
    store.add(1, "https://a.example/feed");
    store.add(2, "https://a.example/feed");
    store.set(1, "https://a.example/feed", "x".to_string());
    assert_eq!(store.get(1, "https://a.example/feed"), Some("x".to_string()));
    assert_eq!(store.get(2, "https://a.example/feed"), Some(String::new()));
    assert_eq!(store.list_all().len(), 2);
}

#[test]
fn list_names_only_the_feeds_of_the_chat() {
    let mut store = SubscribeInfo::new();
    store.add(1, "https://a.example/feed");
    store.add(2, "https://b.example/feed");
    store.add(1, "https://c.example/feed");
    assert_eq!(
        sorted(store.list(1)),
        vec!["https://a.example/feed".to_string(), "https://c.example/feed".to_string()]
    );
    assert_eq!(store.list(2), vec!["https://b.example/feed"]);
    assert!(store.list(3).is_empty());
}

#[test]
fn remove_ends_one_subscription() {
    let mut store = SubscribeInfo::new();
    store.add(1, "https://a.example/feed");
    store.add(1, "https://b.example/feed");
    store.remove(1, "https://a.example/feed");
    assert_eq!(store.list(1), vec!["https://b.example/feed"]);
    assert_eq!(store.get(1, "https://a.example/feed"), None);
    store.remove(1, "https://nowhere.example/feed");
    store.remove(9, "https://b.example/feed");
    assert_eq!(store.list(1), vec!["https://b.example/feed"]);
}

#[test]
fn set_on_a_missing_subscription_changes_nothing() {
    let mut store = SubscribeInfo::new();
    store.add(1, "https://a.example/feed");
    store.set(1, "https://b.example/feed", "x".to_string());
    store.set(2, "https://a.example/feed", "x".to_string());
    assert_eq!(store.list_all().len(), 1);
    assert_eq!(store.get(1, "https://a.example/feed"), Some(String::new()));
    assert_eq!(store.get(1, "https://b.example/feed"), None);
}

#[test]
fn list_all_is_a_copy() {
    let mut store = SubscribeInfo::new();
    store.add(1, "https://a.example/feed");
    store.set(1, "https://a.example/feed", "old".to_string());
    let snapshot = store.list_all();
    store.set(1, "https://a.example/feed", "new".to_string());
    store.add(1, "https://b.example/feed");
    assert_eq!(snapshot.len(), 1);
    assert_eq!(snapshot[0].chat_id, 1);
    assert_eq!(snapshot[0].url, "https://a.example/feed");
    assert_eq!(snapshot[0].info.last_entry(), "old");
}

#[test]
fn restore_puts_a_record_back_as_it_is() {
    let mut store = SubscribeInfo::new();
    store.restore(Subscription {
        chat_id: 4,
        url: "https://a.example/feed".to_string(),
        info: SubInfo::Rss { last_entry: "e7".to_string() },
    });
    assert_eq!(store.get(4, "https://a.example/feed"), Some("e7".to_string()));
    store.restore(Subscription {
        chat_id: 4,
        url: "https://a.example/feed".to_string(),
        info: SubInfo::Rss { last_entry: "e8".to_string() },
    });
    assert_eq!(store.list(4).len(), 1);
    assert_eq!(store.get(4, "https://a.example/feed"), Some("e8".to_string()));
}

#[test]
fn fresh_info_has_an_empty_cursor_and_clones_keep_it() {
    assert_eq!(SubInfo::fresh().last_entry(), "");
    let info = SubInfo::Rss { last_entry: "abc".to_string() };
    assert_eq!(info.clone().last_entry(), "abc");
    let sub = Subscription { chat_id: -3, url: "u".to_string(), info };
    let copy = sub.clone();
    assert_eq!(copy.chat_id, -3);
    assert_eq!(copy.url, "u");
    assert_eq!(copy.info.last_entry(), "abc");
}
