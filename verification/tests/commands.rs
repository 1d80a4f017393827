use freopen_chat_bot::db::SubscribeInfo;
use freopen_chat_bot::feed::FeedEntry;
use freopen_chat_bot::subscribe::{
    finish_delivery, parse_sub_command, parsed_feed, plan_delivery, subscribe_command, SubCommand,
    SubscribeError, POLL_INTERVAL_SECS,
};

#[allow(deprecated)]
fn get_feed(content: &[u8], url: &str) -> Result<Vec<FeedEntry>, SubscribeError> {
    parsed_feed(feed_rs::parser::parse_with_uri(content, Some(url)).map(|feed| {
        feed.entries
            .into_iter()
            .map(|entry| FeedEntry {
                id: entry.id,
                links: entry.links.into_iter().map(|link| link.href).collect(),
            })
            .collect()
    }))
}

const RSS: &str = "<?xml version=\"1.0\" encoding=\"UTF-8\"?>\
<rss version=\"2.0\"><channel><title>News</title><link>https://news.example/</link>\
<description>All of it</description>\
<item><title>Third</title><link>https://news.example/3</link><guid>id-3</guid></item>\
<item><title>Second</title><link>https://news.example/2</link><guid>id-2</guid></item>\
<item><title>First</title><link>https://news.example/1</link><guid>id-1</guid></item>\
</channel></rss>";

const RSS_NEWER: &str = "<?xml version=\"1.0\" encoding=\"UTF-8\"?>\
<rss version=\"2.0\"><channel><title>News</title><link>https://news.example/</link>\
<description>All of it</description>\
<item><title>Fifth</title><link>https://news.example/5</link><guid>id-5</guid></item>\
<item><title>Fourth</title><link>https://news.example/4</link><guid>id-4</guid></item>\
<item><title>Third</title><link>https://news.example/3</link><guid>id-3</guid></item>\
</channel></rss>";

#[test]
fn add_takes_one_address() {
    assert!(matches!(parse_sub_command("add https://a.example/feed"),
        SubCommand::Add(url) if url == "https://a.example/feed"));
    assert!(matches!(parse_sub_command("  add \t https://a.example/feed \n"),
        SubCommand::Add(url) if url == "https://a.example/feed"));
}

#[test]
fn remove_takes_one_address() {
    assert!(matches!(parse_sub_command("remove https://a.example/feed"),
        SubCommand::Remove(url) if url == "https://a.example/feed"));
}

#[test]
fn list_stands_alone() {
    assert!(matches!(parse_sub_command("list"), SubCommand::List));
    assert!(matches!(parse_sub_command("  list  "), SubCommand::List));
    assert!(matches!(parse_sub_command("list all"), SubCommand::Usage));
}

#[test]
fn anything_else_asks_for_the_usage() {
    assert!(matches!(parse_sub_command(""), SubCommand::Usage));
    assert!(matches!(parse_sub_command("   "), SubCommand::Usage));
    assert!(matches!(parse_sub_command("add"), SubCommand::Usage));
    assert!(matches!(parse_sub_command("remove"), SubCommand::Usage));
    assert!(matches!(parse_sub_command("add a b"), SubCommand::Usage));
    assert!(matches!(parse_sub_command("Add a"), SubCommand::Usage));
    assert!(matches!(parse_sub_command("drop a"), SubCommand::Usage));
    assert!(matches!(parse_sub_command("https://a.example/feed"), SubCommand::Usage));
}

#[test]
fn usage_reply_names_the_forms() {
    let mut store = SubscribeInfo::new();
    let reply = subscribe_command(&SubCommand::Usage, 1, true, &mut store).unwrap();
    assert_eq!(reply.text, "Usage: add <url> | list | remove <url>");
    assert!(!reply.changed);
    assert!(store.list_all().is_empty());
}

#[test]
fn add_of_a_readable_feed_is_stored() {
    let mut store = SubscribeInfo::new();
    let command = SubCommand::Add("https://a.example/feed".to_string());
    let reply = subscribe_command(&command, 1, true, &mut store).unwrap();
    assert_eq!(reply.text, "OK");
    assert!(reply.changed);
    assert_eq!(store.get(1, "https://a.example/feed"), Some(String::new()));
}

#[test]
fn add_of_an_unreadable_feed_is_refused() {
    let mut store = SubscribeInfo::new();
    let command = SubCommand::Add("https://a.example/feed".to_string());
    let r = subscribe_command(&command, 1, false, &mut store);
    assert_eq!(r.unwrap_err(), SubscribeError::FeedUnavailable);
    assert!(store.list_all().is_empty());
}

#[test]
fn list_reply_names_each_feed_on_a_line() {
    let mut store = SubscribeInfo::new();
    let reply = subscribe_command(&SubCommand::List, 1, true, &mut store).unwrap();
    assert_eq!(reply.text, "List of your subs: \n");
    store.add(1, "https://a.example/feed");
    let reply = subscribe_command(&SubCommand::List, 1, true, &mut store).unwrap();
    assert_eq!(reply.text, "List of your subs: \nhttps://a.example/feed");
    assert!(!reply.changed);
    store.add(1, "https://b.example/feed");
    store.add(2, "https://c.example/feed");
    let reply = subscribe_command(&SubCommand::List, 1, true, &mut store).unwrap();
    let mut lines: Vec<&str> = reply.text.split('\n').collect();
    assert_eq!(lines.remove(0), "List of your subs: ");
    lines.sort();
    assert_eq!(lines, vec!["https://a.example/feed", "https://b.example/feed"]);
}

#[test]
fn remove_reply_is_ok_even_where_nothing_was_followed() {
    let mut store = SubscribeInfo::new();
    store.add(1, "https://a.example/feed");
    let command = SubCommand::Remove("https://a.example/feed".to_string());
    let reply = subscribe_command(&command, 1, true, &mut store).unwrap();
    assert_eq!(reply.text, "OK");
    assert!(reply.changed);
    assert!(store.list(1).is_empty());
    let reply = subscribe_command(&command, 1, false, &mut store).unwrap();
    assert_eq!(reply.text, "OK");
}

#[test]
fn a_feed_that_was_read_is_added() {
    let mut store = SubscribeInfo::new();
    let command = parse_sub_command("add https://news.example/rss");
    let feed_ok = get_feed(RSS.as_bytes(), "https://news.example/rss").is_ok();
    let reply = subscribe_command(&command, 3, feed_ok, &mut store).unwrap();
    assert_eq!(reply.text, "OK");
    assert_eq!(store.list(3), vec!["https://news.example/rss"]);
}

#[test]
fn what_is_no_feed_is_not_added() {
    let mut store = SubscribeInfo::new();
    let command = parse_sub_command("add https://news.example/rss");
    let feed_ok = get_feed(b"this is no feed", "https://news.example/rss").is_ok();
    let r = subscribe_command(&command, 3, feed_ok, &mut store);
    assert_eq!(r.unwrap_err(), SubscribeError::FeedUnavailable);
    assert!(store.list_all().is_empty());
}

#[test]
fn list_and_remove_do_not_look_at_the_feed() {
    for feed_ok in [true, false] {
        let mut store = SubscribeInfo::new();
        store.add(3, "https://news.example/rss");
        let reply = subscribe_command(&SubCommand::List, 3, feed_ok, &mut store).unwrap();
        assert_eq!(reply.text, "List of your subs: \nhttps://news.example/rss");
        let command = parse_sub_command("remove https://news.example/rss");
        let reply = subscribe_command(&command, 3, feed_ok, &mut store).unwrap();
        assert_eq!(reply.text, "OK");
        assert!(store.list(3).is_empty());
        let reply = subscribe_command(&SubCommand::Usage, 3, feed_ok, &mut store).unwrap();
        assert_eq!(reply.text, "Usage: add <url> | list | remove <url>");
    }
}

#[test]
fn a_read_feed_gives_ids_and_links_in_the_order_of_the_feed() {
    let entries = get_feed(RSS.as_bytes(), "https://news.example/rss").unwrap();
    let ids: Vec<&str> = entries.iter().map(|e| e.id.as_str()).collect();
    assert_eq!(ids, vec!["id-3", "id-2", "id-1"]);
    assert_eq!(entries[0].links, vec!["https://news.example/3"]);
    assert_eq!(entries[2].links, vec!["https://news.example/1"]);
}

#[test]
fn a_read_feed_gives_every_entry_an_id() {
    let feed = "<rss version=\"2.0\"><channel><title>t</title>\
        <item><title>No id</title><link>https://news.example/x</link></item>\
        <item><title>Nothing at all</title></item>\
        </channel></rss>";
    let entries = get_feed(feed.as_bytes(), "https://news.example/rss").unwrap();
    assert_eq!(entries.len(), 2);
    assert!(entries.iter().all(|e| !e.id.is_empty()));
    assert!(entries[1].links.is_empty());
}

#[test]
fn what_is_no_feed_is_unavailable() {
    assert_eq!(get_feed(b"", "https://a.example/").unwrap_err(), SubscribeError::FeedUnavailable);
    assert_eq!(
        get_feed(b"<html></html>", "https://a.example/").unwrap_err(),
        SubscribeError::FeedUnavailable
    );
}

#[test]
fn a_round_delivers_what_is_new_and_moves_the_cursor() {
    let url = "https://news.example/rss";
    let mut store = SubscribeInfo::new();
    store.add(8, url);

    let cursor = store.get(8, url).unwrap();
    let entries = get_feed(RSS.as_bytes(), url).unwrap();
    let plan = plan_delivery(entries, &cursor).unwrap();
    assert_eq!(
        plan.messages,
        vec!["https://news.example/1", "https://news.example/2", "https://news.example/3"]
    );
    let sent = plan.messages.len();
    assert_eq!(finish_delivery(&mut store, 8, url, plan, sent), Ok(()));
    assert_eq!(store.get(8, url), Some("id-3".to_string()));

    let cursor = store.get(8, url).unwrap();
    let entries = get_feed(RSS.as_bytes(), url).unwrap();
    assert!(plan_delivery(entries, &cursor).is_none());
    assert_eq!(store.get(8, url), Some("id-3".to_string()));

    let entries = get_feed(RSS_NEWER.as_bytes(), url).unwrap();
    let plan = plan_delivery(entries, &cursor).unwrap();
    assert_eq!(plan.messages, vec!["https://news.example/4", "https://news.example/5"]);
    assert_eq!(plan.next_last_entry, "id-5");
    assert_eq!(finish_delivery(&mut store, 8, url, plan, 2), Ok(()));
    assert_eq!(store.get(8, url), Some("id-5".to_string()));
}

#[test]
fn a_feed_that_fails_holds_back_no_other() {
    let a = "https://a.example/rss";
    let b = "https://b.example/rss";
    let mut store = SubscribeInfo::new();
    store.add(1, a);
    store.add(1, b);
    store.add(2, a);

    for sub in store.list_all() {
        let fetched: Option<&[u8]> =
            if sub.chat_id == 1 && sub.url == a { None } else { Some(RSS.as_bytes()) };
        let body = match fetched {
            Some(body) => body,
            None => continue,
        };
        let entries = get_feed(body, &sub.url).unwrap();
        let plan = plan_delivery(entries, sub.info.last_entry()).unwrap();
        let sent = plan.messages.len();
        assert_eq!(finish_delivery(&mut store, sub.chat_id, &sub.url, plan, sent), Ok(()));
    }
    assert_eq!(store.get(1, a), Some(String::new()));
    assert_eq!(store.get(1, b), Some("id-3".to_string()));
    assert_eq!(store.get(2, a), Some("id-3".to_string()));
}

#[test]
fn a_subscription_removed_meanwhile_is_not_brought_back() {
    let url = "https://news.example/rss";
    let mut store = SubscribeInfo::new();
    store.add(8, url);
    let plan = plan_delivery(get_feed(RSS.as_bytes(), url).unwrap(), "").unwrap();
    store.remove(8, url);
    assert_eq!(finish_delivery(&mut store, 8, url, plan, 3), Ok(()));
    assert_eq!(store.get(8, url), None);
    assert!(store.list_all().is_empty());
}

#[test]
fn errors_in_words() {
    assert_eq!(SubscribeError::FeedUnavailable.describe(), Some("Unable to access this feed"));
    assert_eq!(SubscribeError::NoLinks.describe(), Some("No links found"));
    assert_eq!(SubscribeError::Delivery.describe(), None);
}

#[test]
fn feeds_are_looked_at_every_ten_minutes() {
    assert_eq!(POLL_INTERVAL_SECS, 600);
}

#[test]
fn parsed_entries_are_handed_on_as_they_are() {
    let entries = vec![
        FeedEntry { id: "b".to_string(), links: vec!["https://a.example/b".to_string()] },
        FeedEntry { id: "a".to_string(), links: Vec::new() },
    ];
    let read = parsed_feed::<String>(Ok(entries)).unwrap();
    assert_eq!(read.len(), 2);
    assert_eq!(read[0].id, "b");
    assert_eq!(read[0].links, vec!["https://a.example/b"]);
    assert_eq!(read[1].id, "a");
    assert!(read[1].links.is_empty());
    assert!(parsed_feed::<String>(Ok(Vec::new())).unwrap().is_empty());
}

#[test]
fn a_refusal_of_the_parser_makes_the_feed_unavailable() {
    let refused = feed_rs::parser::ParseFeedError::JsonUnsupportedVersion("9".to_string());
    assert_eq!(parsed_feed(Err(refused)).unwrap_err(), SubscribeError::FeedUnavailable);
    assert_eq!(
        parsed_feed(Err("the address did not answer")).unwrap_err(),
        SubscribeError::FeedUnavailable
    );
}
