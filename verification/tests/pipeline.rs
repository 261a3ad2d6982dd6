use feedcore::address::Link;
use feedcore::clock::Timestamp;
use feedcore::content::{derive_id, get_content, normalize, process_content};
use feedcore::driver::Fetched;
use feedcore::error::AppError;
use feedcore::feed::{Channel, Item};
use feedcore::icon::{get_icon, get_icon_url, HttpReply};
use feedcore::refresh::{Action, Event, Phase, Refresher};
use feedcore::store::{Article, ArticleNew, Feed, FeedKind, FeedLog, Store};

fn at(seconds: i64) -> Timestamp {
    Timestamp { unix_seconds: seconds, offset_seconds: 0 }
}

fn empty_item() -> Item {
    Item { title: None, link: None, description: None, content: None, guid: None, pub_date: None }
}

fn item(n: usize) -> Item {
    Item {
        title: Some(format!("Title {}", n)),
        link: Some(format!("https://example.com/posts/{}", n)),
        description: Some(format!("<p>Summary {}</p>", n)),
        content: None,
        guid: None,
        pub_date: Some("01 Jan 2024 12:30 +0000".to_string()),
    }
}

fn channel(items: Vec<Item>) -> Channel {
    Channel {
        title: "Example".to_string(),
        link: "https://example.com/feed".to_string(),
        image_url: None,
        items,
    }
}

fn icon_reply() -> Result<HttpReply, String> {
    Ok(HttpReply { status: 200, content_type: Some("image/png".to_string()), body: vec![1, 2, 3] })
}

fn feed(store: &mut Store, url: &str) -> Feed {
    Feed::create(store, &Link::parse(url).unwrap(), "A feed".to_string(), FeedKind::Rss)
}

#[test]
fn derive_id_prefers_explicit_identifier() {
    let link = Link::parse("https://example.com/a").unwrap();
    assert_eq!(derive_id(Some("guid-1"), Some(&link), "t", "s", "c"), "guid-1");
    assert_eq!(derive_id(Some("guid-1"), None, "other", "", ""), "guid-1");
    assert_eq!(derive_id(Some(""), Some(&link), "t", "s", "c"), "");
}

#[test]
fn derive_id_falls_back_to_link() {
    let link = Link::parse("HTTP://Example.COM/a b").unwrap();
    assert_eq!(derive_id(None, Some(&link), "t", "s", "c"), "http://example.com/a%20b");
}

#[test]
fn derive_id_hashes_title_summary_content() {
    assert_eq!(
        derive_id(None, None, "a", "b", "c"),
        "sha256:ba7816bf8f01cfea414140de5dae2223b00361a396177a9cb410ff61f20015ad"
    );
    assert_eq!(
        derive_id(None, None, "", "", ""),
        "sha256:e3b0c44298fc1c149afbf4c8996fb92427ae41e4649b934ca495991b7852b855"
    );
}

#[test]
fn derive_id_is_deterministic_and_sensitive() {
    let id = derive_id(None, None, "title", "summary", "content");
    assert_eq!(id, derive_id(None, None, "title", "summary", "content"));
    assert_ne!(id, derive_id(None, None, "title!", "summary", "content"));
    assert_ne!(id, derive_id(None, None, "title", "summary!", "content"));
    assert_ne!(id, derive_id(None, None, "title", "summary", "content!"));
}

#[test]
fn process_content_closes_what_is_open() {
    let cleaned = process_content("<p>Hello <b>world");
    assert_eq!(cleaned.html, "<p>Hello <b>world</b></p>");
    let plain = process_content("just text");
    assert_eq!(plain.html, "just text");
    assert!(plain.errors.is_empty());
}

#[test]
fn process_content_reports_parse_errors() {
    let cleaned = process_content("<p>one</b>");
    assert_eq!(cleaned.html, "<p>one</p>");
    assert!(!cleaned.errors.is_empty());
}

#[test]
fn normalize_fills_in_title_and_time() {
    let mut raw = empty_item();
    raw.description = Some("<p>body</p>".to_string());
    let c = normalize(&raw, at(1000)).unwrap();
    assert_eq!(c.title, "Untitled");
    assert!(c.link.is_none());
    assert_eq!(c.content.as_deref(), Some("<p>body</p>"));
    assert_eq!(c.published, at(1000));
    assert_eq!(c.article_id, derive_id(None, None, "Untitled", "<p>body</p>", "<p>body</p>"));
    assert!(c.warnings.is_empty());
}

#[test]
fn normalize_prefers_full_content() {
    let mut raw = item(1);
    raw.content = Some("<div>full</div>".to_string());
    let c = normalize(&raw, at(0)).unwrap();
    assert_eq!(c.content.as_deref(), Some("<div>full</div>"));
    assert_eq!(c.title, "Title 1");
    assert_eq!(c.link.unwrap().text, "https://example.com/posts/1");
    assert_eq!(c.article_id, "https://example.com/posts/1");
    assert_eq!(c.published, at(1704112200));
}

#[test]
fn normalize_without_body_has_no_content() {
    let mut raw = empty_item();
    raw.guid = Some("g".to_string());
    let c = normalize(&raw, at(5)).unwrap();
    assert!(c.content.is_none());
    assert_eq!(c.article_id, "g");
}

#[test]
fn normalize_rejects_malformed_link() {
    let mut raw = item(1);
    raw.link = Some("not a url".to_string());
    match normalize(&raw, at(0)) {
        Err(AppError::ParseFailure(why)) => assert_eq!(why, "relative URL without a base"),
        other => panic!("unexpected: {:?}", other),
    }
}

#[test]
fn normalize_reads_rfc2822_date() {
    let mut raw = item(1);
    raw.pub_date = Some("Tue, 02 Jan 2024 00:00:00 +0100".to_string());
    let c = normalize(&raw, at(0)).unwrap();
    assert_eq!(c.published, Timestamp { unix_seconds: 1704150000, offset_seconds: 3600 });
    assert!(c.warnings.is_empty());
}

#[test]
fn normalize_substitutes_now_for_unreadable_date() {
    let mut raw = item(1);
    raw.pub_date = Some("the day before yesterday".to_string());
    let c = normalize(&raw, at(77)).unwrap();
    assert_eq!(c.published, at(77));
    assert_eq!(c.warnings.len(), 1);
    assert!(c.warnings[0]
        .starts_with("invalid pub date for https://example.com/posts/1 (the day before yesterday): "));
}

#[test]
fn get_content_reads_the_clock() {
    let mut raw = item(1);
    raw.pub_date = None;
    let c = get_content(&raw).unwrap();
    assert!(c.published.unix_seconds > 1_600_000_000);
    assert_eq!(c.published.offset_seconds, 0);
    let dated = get_content(&item(2)).unwrap();
    assert_eq!(dated.published, at(1704112200));
}

#[test]
fn icon_url_from_channel_image() {
    let mut c = channel(vec![]);
    c.image_url = Some("https://cdn.example.com/logo.png".to_string());
    let url = get_icon_url(&c).unwrap().unwrap();
    assert_eq!(url.text, "https://cdn.example.com/logo.png");
}

#[test]
fn icon_url_falls_back_to_favicon() {
    let url = get_icon_url(&channel(vec![])).unwrap().unwrap();
    assert_eq!(url.text, "https://example.com/favicon.ico");
    let mut c = channel(vec![]);
    c.link = "http://example.com:8080/blog/feed.xml".to_string();
    assert_eq!(get_icon_url(&c).unwrap().unwrap().text, "http://example.com:8080/favicon.ico");
}

#[test]
fn icon_url_of_opaque_origin_is_none() {
    let mut c = channel(vec![]);
    c.link = "data:text/plain,hello".to_string();
    assert!(get_icon_url(&c).unwrap().is_none());
}

#[test]
fn icon_url_of_link_with_too_many_colons_fails() {
    let mut c = channel(vec![]);
    c.link = format!("{}https://example.com/", "blob:".repeat(100_000));
    match get_icon_url(&c) {
        Err(AppError::ParseFailure(why)) => assert_eq!(why, "too many colons in link"),
        other => panic!("unexpected: {:?}", other),
    }
    c.link = "blob:https://example.com/feed".to_string();
    assert_eq!(get_icon_url(&c).unwrap().unwrap().text, "https://example.com/favicon.ico");
}

#[test]
fn item_link_of_any_depth_is_read() {
    let mut raw = item(1);
    raw.link = Some(format!("{}https://example.com/", "blob:".repeat(100_000)));
    let c = normalize(&raw, at(0)).unwrap();
    assert_eq!(c.link.unwrap().text.len(), 5 * 100_000 + "https://example.com/".len());
}

#[test]
fn fallback_ids_are_64_hex_digits() {
    for (t, s, c) in [("", "", ""), ("a", "b", "c"), ("title", "", "<p>x</p>")] {
        let id = derive_id(None, None, t, s, c);
        assert_eq!(id.len(), 7 + 64);
        assert!(id.starts_with("sha256:"));
        assert!(id[7..].chars().all(|c| c.is_ascii_digit() || ('a'..='f').contains(&c)));
    }
    let mut raw = empty_item();
    raw.title = Some("only a title".to_string());
    raw.description = Some("text".to_string());
    let a = get_content(&raw).unwrap();
    let b = get_content(&raw).unwrap();
    assert_eq!(a.article_id, b.article_id);
    assert_eq!(a.article_id.len(), 71);
    raw.title = Some("another title".to_string());
    assert_ne!(get_content(&raw).unwrap().article_id, a.article_id);
}

#[test]
fn refresh_twice_at_two_instants_changes_no_article() {
    let mut store = Store::new();
    let f = feed(&mut store, "https://example.com/feed");
    let items = vec![item(1), item(2)];
    let once = Fetched { channel: Ok(channel(items.clone())), icon: icon_reply() };
    f.refresh(&mut store, once, at(50)).unwrap();
    let before: Vec<String> = store.articles().iter().map(|a| format!("{:?}", a)).collect();
    let twice = Fetched { channel: Ok(channel(items)), icon: icon_reply() };
    f.refresh(&mut store, twice, at(5000)).unwrap();
    let after: Vec<String> = store.articles().iter().map(|a| format!("{:?}", a)).collect();
    assert_eq!(before, after);
    assert_eq!(store.logs()[1].time, at(5000));
}

#[test]
fn icon_url_of_malformed_link_fails() {
    let mut c = channel(vec![]);
    c.link = "nowhere".to_string();
    assert!(matches!(get_icon_url(&c), Err(AppError::ParseFailure(_))));
    let mut c = channel(vec![]);
    c.image_url = Some("::".to_string());
    assert!(matches!(get_icon_url(&c), Err(AppError::ParseFailure(_))));
}

#[test]
fn icon_from_reply_is_data_uri() {
    let reply = HttpReply {
        status: 200,
        content_type: Some("image/png".to_string()),
        body: b"hello".to_vec(),
    };
    let icon = get_icon(&reply).unwrap().unwrap();
    assert_eq!(icon.text, "data:image/png;base64,aGVsbG8=");
}

#[test]
fn icon_from_reply_without_content_type_is_none() {
    let reply = HttpReply { status: 200, content_type: None, body: b"hello".to_vec() };
    assert!(get_icon(&reply).unwrap().is_none());
}

#[test]
fn icon_from_reply_with_bad_status_fails() {
    let reply = HttpReply { status: 404, content_type: Some("image/png".to_string()), body: vec![] };
    match get_icon(&reply) {
        Err(AppError::IconResolutionFailure(why)) => {
            assert_eq!(why, "error downloading icon (404)")
        },
        other => panic!("unexpected: {:?}", other),
    }
}

fn new_article(feed_id: u128, key: &str, title: &str) -> ArticleNew {
    ArticleNew {
        content: format!("content of {}", title),
        feed_id,
        article_id: key.to_string(),
        title: title.to_string(),
        link: Some(Link::parse("https://example.com/x").unwrap()),
        published: at(10),
    }
}

#[test]
fn upsert_inserts_then_overwrites() {
    let mut store = Store::new();
    let first = store.upsert_article(7, new_article(1, "k", "old"));
    assert_eq!(first.id, 7);
    assert_eq!(store.articles().len(), 1);
    let mut changed = new_article(1, "k", "new");
    changed.link = None;
    changed.published = at(20);
    let second = store.upsert_article(8, changed);
    assert_eq!(second.id, 7);
    assert_eq!(store.articles().len(), 1);
    let stored = &store.articles()[0];
    assert_eq!(stored.id, 7);
    assert_eq!(stored.title, "new");
    assert_eq!(stored.content, "content of new");
    assert_eq!(stored.link, None);
    assert_eq!(stored.published, at(20));
    assert_eq!(stored.article_id, "k");
    assert_eq!(stored.feed_id, 1);
}

#[test]
fn upsert_keys_are_per_feed() {
    let mut store = Store::new();
    store.upsert_article(1, new_article(1, "k", "a"));
    store.upsert_article(2, new_article(2, "k", "b"));
    store.upsert_article(3, new_article(1, "other", "c"));
    assert_eq!(store.articles().len(), 3);
    store.upsert_article(4, new_article(2, "k", "d"));
    assert_eq!(store.articles().len(), 3);
    assert_eq!(store.articles()[0].title, "a");
    assert_eq!(store.articles()[1].title, "d");
    assert_eq!(store.articles()[1].id, 2);
}

#[test]
fn article_create_draws_an_identity_once() {
    let mut store = Store::new();
    let a = Article::create(&mut store, new_article(1, "k", "a"));
    let b = Article::create(&mut store, new_article(1, "k", "b"));
    assert_eq!(a.id, b.id);
    assert_eq!(b.title, "b");
    assert_eq!(store.articles().len(), 1);
    let c = Article::create(&mut store, new_article(1, "k2", "c"));
    assert_ne!(c.id, a.id);
}

#[test]
fn update_feed_icon_touches_only_that_feed() {
    let mut store = Store::new();
    let a = feed(&mut store, "https://a.example/feed");
    let b = feed(&mut store, "https://b.example/feed");
    assert!(!a.disabled);
    store.update_feed_icon(b.id, "data:image/png;base64,AA==");
    assert_eq!(store.feeds()[0].icon, None);
    assert_eq!(store.feeds()[1].icon.as_deref(), Some("data:image/png;base64,AA=="));
    assert_eq!(store.feeds()[1].url, "https://b.example/feed");
    store.update_feed_icon(a.id ^ b.id ^ 1, "x");
    assert_eq!(store.feeds()[0].icon, None);
}

#[test]
fn feed_log_create_appends() {
    let mut store = Store::new();
    let entry = FeedLog::create(&mut store, at(3), 9, false, Some("down".to_string()));
    assert_eq!(store.logs().len(), 1);
    assert_eq!(store.logs()[0].id, entry.id);
    assert_eq!(store.logs()[0].time, at(3));
    assert_eq!(store.logs()[0].feed_id, 9);
    assert!(!store.logs()[0].success);
    assert_eq!(store.logs()[0].message.as_deref(), Some("down"));
}

#[test]
fn refresh_stores_articles_icon_and_log() {
    let mut store = Store::new();
    let f = feed(&mut store, "https://example.com/feed");
    let fetched = Fetched { channel: Ok(channel(vec![item(1), item(2)])), icon: icon_reply() };
    assert!(f.refresh(&mut store, fetched, at(50)).is_ok());
    assert_eq!(store.articles().len(), 2);
    assert_eq!(store.articles()[0].article_id, "https://example.com/posts/1");
    assert_eq!(store.articles()[0].title, "Title 1");
    assert_eq!(store.articles()[0].content, "<p>Summary 1</p>");
    assert_eq!(store.articles()[0].link.as_deref(), Some("https://example.com/posts/1"));
    assert_eq!(store.articles()[0].published, at(1704112200));
    assert_eq!(store.articles()[0].feed_id, f.id);
    assert_eq!(store.articles()[1].article_id, "https://example.com/posts/2");
    assert_eq!(store.feeds()[0].icon.as_deref(), Some("data:image/png;base64,AQID"));
    assert_eq!(store.logs().len(), 1);
    assert!(store.logs()[0].success);
    assert_eq!(store.logs()[0].message.as_deref(), Some(""));
    assert_eq!(store.logs()[0].time, at(50));
    assert_eq!(store.logs()[0].feed_id, f.id);
}

#[test]
fn refresh_twice_changes_no_article() {
    let mut store = Store::new();
    let f = feed(&mut store, "https://example.com/feed");
    let mut items = vec![item(1), item(2), item(1)];
    items[2].title = Some("Title 1, again".to_string());
    let once = Fetched { channel: Ok(channel(items.clone())), icon: icon_reply() };
    f.refresh(&mut store, once, at(50)).unwrap();
    let before: Vec<String> = store.articles().iter().map(|a| format!("{:?}", a)).collect();
    assert_eq!(before.len(), 2);
    let twice = Fetched { channel: Ok(channel(items)), icon: icon_reply() };
    f.refresh(&mut store, twice, at(50)).unwrap();
    let after: Vec<String> = store.articles().iter().map(|a| format!("{:?}", a)).collect();
    assert_eq!(before, after);
    assert_eq!(store.articles()[0].title, "Title 1, again");
    assert_eq!(store.logs().len(), 2);
}

#[test]
fn refresh_overwrites_changed_article() {
    let mut store = Store::new();
    let f = feed(&mut store, "https://example.com/feed");
    let mut it = item(1);
    it.guid = Some("stable".to_string());
    let first = Fetched { channel: Ok(channel(vec![it.clone()])), icon: icon_reply() };
    f.refresh(&mut store, first, at(50)).unwrap();
    let id = store.articles()[0].id;
    it.title = Some("Changed".to_string());
    it.description = Some("<p>changed body</p>".to_string());
    it.link = Some("https://example.com/moved".to_string());
    it.pub_date = Some("02 Jan 2024 12:30 +0000".to_string());
    let second = Fetched { channel: Ok(channel(vec![it])), icon: icon_reply() };
    f.refresh(&mut store, second, at(60)).unwrap();
    assert_eq!(store.articles().len(), 1);
    let stored = &store.articles()[0];
    assert_eq!(stored.id, id);
    assert_eq!(stored.article_id, "stable");
    assert_eq!(stored.title, "Changed");
    assert_eq!(stored.content, "<p>changed body</p>");
    assert_eq!(stored.link.as_deref(), Some("https://example.com/moved"));
    assert_eq!(stored.published, at(1704198600));
}

#[test]
fn refresh_survives_one_bad_item_in_ten() {
    let mut store = Store::new();
    let f = feed(&mut store, "https://example.com/feed");
    let mut items: Vec<Item> = (0..10).map(item).collect();
    items[3].link = Some("no scheme here".to_string());
    let fetched = Fetched { channel: Ok(channel(items)), icon: icon_reply() };
    assert!(f.refresh(&mut store, fetched, at(50)).is_ok());
    assert_eq!(store.articles().len(), 9);
    assert!(store.articles().iter().all(|a| a.article_id != "https://example.com/posts/3"));
    assert_eq!(store.logs().len(), 1);
    assert!(store.logs()[0].success);
    assert_eq!(
        store.logs()[0].message.as_deref(),
        Some("error reading item: relative URL without a base")
    );
}

#[test]
fn refresh_skips_items_without_body() {
    let mut store = Store::new();
    let f = feed(&mut store, "https://example.com/feed");
    let mut bare = item(1);
    bare.description = None;
    let fetched = Fetched { channel: Ok(channel(vec![bare, item(2)])), icon: icon_reply() };
    f.refresh(&mut store, fetched, at(50)).unwrap();
    assert_eq!(store.articles().len(), 1);
    assert_eq!(store.articles()[0].title, "Title 2");
    assert_eq!(store.logs()[0].message.as_deref(), Some(""));
}

#[test]
fn refresh_logs_failed_download() {
    let mut store = Store::new();
    let f = feed(&mut store, "https://example.com/feed");
    let fetched = Fetched { channel: Err("connection refused".to_string()), icon: icon_reply() };
    match f.refresh(&mut store, fetched, at(50)) {
        Err(AppError::FetchFailure(why)) => assert_eq!(why, "connection refused"),
        other => panic!("unexpected: {:?}", other),
    }
    assert_eq!(store.articles().len(), 0);
    assert_eq!(store.feeds()[0].icon, None);
    assert_eq!(store.logs().len(), 1);
    assert!(!store.logs()[0].success);
    assert_eq!(store.logs()[0].message.as_deref(), Some("connection refused"));
}

#[test]
fn refresh_records_icon_failures() {
    let mut store = Store::new();
    let f = feed(&mut store, "https://example.com/feed");
    let fetched = Fetched { channel: Ok(channel(vec![item(1)])), icon: Err("timed out".to_string()) };
    f.refresh(&mut store, fetched, at(50)).unwrap();
    assert_eq!(store.logs()[0].message.as_deref(), Some("error getting icon: timed out"));
    assert_eq!(store.feeds()[0].icon, None);
    assert_eq!(store.articles().len(), 1);

    let missing = Ok(HttpReply { status: 500, content_type: None, body: vec![] });
    let mut bad = item(2);
    bad.link = Some("::".to_string());
    let fetched = Fetched { channel: Ok(channel(vec![bad])), icon: missing };
    f.refresh(&mut store, fetched, at(51)).unwrap();
    assert_eq!(
        store.logs()[1].message.as_deref(),
        Some("error getting icon: error downloading icon (500)\nerror reading item: relative URL without a base")
    );

    let mut c = channel(vec![]);
    c.link = "nowhere".to_string();
    let fetched = Fetched { channel: Ok(c), icon: icon_reply() };
    f.refresh(&mut store, fetched, at(52)).unwrap();
    assert_eq!(
        store.logs()[2].message.as_deref(),
        Some("error getting icon: relative URL without a base")
    );
}

#[test]
fn refresh_all_goes_on_after_a_failed_feed() {
    let mut store = Store::new();
    let a = feed(&mut store, "https://a.example/feed");
    let b = feed(&mut store, "https://b.example/feed");
    let c = feed(&mut store, "https://c.example/feed");
    let fetched = vec![
        Fetched { channel: Ok(channel(vec![item(1)])), icon: icon_reply() },
        Fetched { channel: Err("no route to host".to_string()), icon: icon_reply() },
        Fetched { channel: Ok(channel(vec![item(1), item(2)])), icon: Err("nope".to_string()) },
    ];
    Feed::refresh_all(&mut store, fetched, at(99));
    assert_eq!(store.logs().len(), 3);
    assert_eq!(store.logs()[0].feed_id, a.id);
    assert!(store.logs()[0].success);
    assert_eq!(store.logs()[1].feed_id, b.id);
    assert!(!store.logs()[1].success);
    assert_eq!(store.logs()[1].message.as_deref(), Some("no route to host"));
    assert_eq!(store.logs()[2].feed_id, c.id);
    assert!(store.logs()[2].success);
    assert_eq!(store.articles().len(), 3);
    assert_eq!(store.articles().iter().filter(|x| x.feed_id == a.id).count(), 1);
    assert_eq!(store.articles().iter().filter(|x| x.feed_id == b.id).count(), 0);
    assert_eq!(store.articles().iter().filter(|x| x.feed_id == c.id).count(), 2);
    assert!(store.feeds()[0].icon.is_some());
    assert!(store.feeds()[1].icon.is_none());
    assert!(store.feeds()[2].icon.is_none());
}

#[test]
fn refresh_all_leaves_feeds_without_answer_alone() {
    let mut store = Store::new();
    feed(&mut store, "https://a.example/feed");
    feed(&mut store, "https://b.example/feed");
    let fetched = vec![Fetched { channel: Ok(channel(vec![item(1)])), icon: icon_reply() }];
    Feed::refresh_all(&mut store, fetched, at(99));
    assert_eq!(store.logs().len(), 1);
    Feed::refresh_all(&mut store, vec![], at(99));
    assert_eq!(store.logs().len(), 1);
}

#[test]
fn refresher_asks_step_by_step() {
    let mut store = Store::new();
    let f = feed(&mut store, "https://example.com/feed");
    let (m, action) = Refresher::start(&f, at(5));
    assert_eq!(m.phase(), Phase::Downloading);
    assert!(matches!(&action, Action::Download { url } if url == "https://example.com/feed"));

    let mut bad = item(9);
    bad.link = Some("::".to_string());
    let (m, action) = m.step(Event::Downloaded(Ok(channel(vec![bad, item(1), item(2)]))));
    assert_eq!(m.phase(), Phase::FetchingIcon);
    assert!(matches!(&action, Action::FetchIcon { url } if url == "https://example.com/favicon.ico"));

    let (m, action) = m.step(Event::IconFetched(icon_reply()));
    assert_eq!(m.phase(), Phase::StoringIcon);
    match &action {
        Action::UpdateIcon { feed_id, icon } => {
            assert_eq!(*feed_id, f.id);
            assert_eq!(icon, "data:image/png;base64,AQID");
        },
        other => panic!("unexpected: {:?}", other),
    }

    let (m, action) = m.step(Event::Written(Err("disk full".to_string())));
    assert_eq!(m.phase(), Phase::Upserting);
    match &action {
        Action::Upsert { article } => {
            assert_eq!(article.title, "Title 1");
            assert_eq!(article.feed_id, f.id);
        },
        other => panic!("unexpected: {:?}", other),
    }
    assert_eq!(m.errors().len(), 2);

    let (m, action) = m.step(Event::Written(Err("locked".to_string())));
    assert!(matches!(&action, Action::Upsert { article } if article.title == "Title 2"));

    let (m, action) = m.step(Event::Written(Ok(())));
    assert_eq!(m.phase(), Phase::LoggingSuccess);
    match &action {
        Action::AppendLog { feed_id, success, message } => {
            assert_eq!(*feed_id, f.id);
            assert!(*success);
            assert_eq!(
                message,
                "error updating icon: disk full\nerror reading item: relative URL without a base\nerror creating article: locked"
            );
        },
        other => panic!("unexpected: {:?}", other),
    }
    assert!(matches!(m.errors()[0], AppError::PersistenceFailure(_)));
    assert!(matches!(m.errors()[1], AppError::ParseFailure(_)));
    assert!(matches!(m.errors()[2], AppError::PersistenceFailure(_)));
    assert!(m.warnings().is_empty());

    let (m, action) = m.step(Event::Written(Err("log lost".to_string())));
    assert_eq!(m.phase(), Phase::Done);
    assert!(matches!(action, Action::Finish { result: Ok(()) }));

    let (m, action) = m.step(Event::Written(Ok(())));
    assert_eq!(m.phase(), Phase::Done);
    assert!(matches!(action, Action::Rejected));
}

#[test]
fn refresher_rejects_what_it_did_not_ask_for() {
    let mut store = Store::new();
    let f = feed(&mut store, "https://example.com/feed");
    let (m, _) = Refresher::start(&f, at(5));
    let (m, action) = m.step(Event::Written(Ok(())));
    assert!(matches!(action, Action::Rejected));
    assert_eq!(m.phase(), Phase::Downloading);
    let (m, action) = m.step(Event::IconFetched(icon_reply()));
    assert!(matches!(action, Action::Rejected));
    let (m, action) = m.step(Event::Downloaded(Err("gone".to_string())));
    assert_eq!(m.phase(), Phase::LoggingFailure);
    assert!(matches!(&action, Action::AppendLog { success: false, message, .. } if message == "gone"));
    let (m, action) = m.step(Event::Downloaded(Err("gone".to_string())));
    assert!(matches!(action, Action::Rejected));
    let (_, action) = m.step(Event::Written(Ok(())));
    assert!(matches!(action, Action::Finish { result: Err(AppError::FetchFailure(ref why)) } if why == "gone"));
}

#[test]
fn refresher_collects_warnings() {
    let mut store = Store::new();
    let f = feed(&mut store, "https://example.com/feed");
    let (m, _) = Refresher::start(&f, at(5));
    let mut undated = item(1);
    undated.pub_date = Some("soon".to_string());
    let mut c = channel(vec![undated]);
    c.link = "data:,".to_string();
    let (m, action) = m.step(Event::Downloaded(Ok(c)));
    match &action {
        Action::Upsert { article } => assert_eq!(article.published, at(5)),
        other => panic!("unexpected: {:?}", other),
    }
    assert_eq!(m.warnings().len(), 1);
    assert!(m.warnings()[0].starts_with("invalid pub date for "));
    assert!(m.errors().is_empty());
}

#[test]
fn tagged_of_writes_lower_case_hex() {
    assert_eq!(feedcore::content::tagged_of(&[0x00, 0xff, 0x1a, 0xb2]), "sha256:00ff1ab2");
    assert_eq!(feedcore::content::tagged_of(&[]), "sha256:");
}

#[test]
fn inlined_of_frames_the_payload() {
    assert_eq!(feedcore::icon::inlined_of("image/png", "AQID"), "data:image/png;base64,AQID");
    assert_eq!(feedcore::icon::inlined_of("", ""), "data:;base64,");
}

#[test]
fn warnings_are_worded() {
    assert_eq!(
        feedcore::content::date_warning_of("id-1", "soon", "no good"),
        "invalid pub date for id-1 (soon): no good"
    );
    assert_eq!(
        feedcore::content::fragment_warnings_of(&vec!["first".to_string(), "second".to_string()]),
        vec![
            "error parsing fragment: first".to_string(),
            "error parsing fragment: second".to_string()
        ]
    );
}

#[test]
fn assemble_puts_the_parts_together() {
    let mut raw = empty_item();
    raw.guid = Some("g-1".to_string());
    raw.description = Some("summary".to_string());
    raw.pub_date = Some("soon".to_string());
    let cleaned = feedcore::content::Cleaned {
        html: "<p>clean</p>".to_string(),
        errors: vec!["stray tag".to_string()],
    };
    let link = Link::parse("https://example.com/a").unwrap();
    let c = feedcore::content::assemble(
        &raw,
        Some(link),
        Some(cleaned),
        Some(Err("no good".to_string())),
        at(9),
    );
    assert_eq!(c.title, "Untitled");
    assert_eq!(c.article_id, "g-1");
    assert_eq!(c.content.as_deref(), Some("<p>clean</p>"));
    assert_eq!(c.link.unwrap().text, "https://example.com/a");
    assert_eq!(c.published, at(9));
    assert_eq!(
        c.warnings,
        vec![
            "error parsing fragment: stray tag".to_string(),
            "invalid pub date for g-1 (soon): no good".to_string()
        ]
    );

    raw.guid = None;
    let dated = feedcore::content::assemble(&raw, None, None, Some(Ok(at(3))), at(9));
    assert_eq!(dated.published, at(3));
    assert!(dated.content.is_none());
    assert!(dated.warnings.is_empty());
    assert_eq!(dated.article_id, derive_id(None, None, "Untitled", "summary", ""));
}
