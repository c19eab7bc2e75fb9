use yanami::engine::Tasker;
use yanami::infohash::{derive_back, magnet_info_hash};
use yanami::model::{AnimeInfo, AnimeRssRecord, AnimeStatus, FeedItem, QbitConfig, Rule, RssItem};

fn foo_info(id: i64, eps: i64) -> AnimeInfo {
    AnimeInfo {
        id,
        name: "Foo".to_string(),
        weekday: 2,
        eps,
        air_date: "2024-07-01".to_string(),
        name_tw: String::new(),
        name_cn: String::new(),
        season: 1,
        search_name: "Foo".to_string(),
        alternative_titles: None,
    }
}

fn foo_status(id: i64, eps: i64) -> AnimeStatus {
    AnimeStatus {
        status: true,
        rule_name: String::new(),
        anime_info: foo_info(id, eps),
        is_search: false,
        is_lock: false,
        progress: 0,
    }
}

fn tracker_with_foo(id: i64, eps: i64) -> Tasker {
    let mut t = Tasker::new();
    t.set_path("/downloads".to_string());
    t.set_qbit(QbitConfig {
        url: "http://localhost:8080".to_string(),
        username: "admin".to_string(),
        password: "secret".to_string(),
    });
    t.set_calender(foo_status(id, eps));
    let st = t.get_calender(id).unwrap();
    t.start_listener(st);
    t
}

fn item(title: &str, magnet: &str, rule: &str) -> RssItem {
    RssItem {
        title: title.to_string(),
        magnet: magnet.to_string(),
        pub_date: Some("Wed, 10 Jul 2024 00:00:00 +0000".to_string()),
        rule_name: rule.to_string(),
    }
}

#[test]
fn test_get_season_eps() {
    let list = vec![
        AnimeRssRecord {
            title: "[ANi] Make Heroine ga Oosugiru / 敗北女角太多了！ - 04 [1080P][Baha][WEB-DL][AAC AVC][CHT][MP4]".to_string(),
            magnet: "".to_string(),
            rule_name: "".to_string(),
            info_hash: "".to_string(),
        },
        AnimeRssRecord {
            title: "[ANi] Make Heroine ga Oosugiru / 敗北女角太多了！ - 03 [1080P][Baha][WEB-DL][AAC AVC][CHT][MP4]".to_string(),
            magnet: "".to_string(),
            rule_name: "".to_string(),
            info_hash: "".to_string(),
        },
        AnimeRssRecord {
            title: "[ANi] Make Heroine ga Oosugiru / 敗北女角太多了！ - 04 [1080P][Baha][WEB-DL][AAC AVC][CHT][MP4]v2".to_string(),
            magnet: "".to_string(),
            rule_name: "".to_string(),
            info_hash: "".to_string(),
        },
        AnimeRssRecord {
            title: "[ANi] Make Heroine ga Oosugiru / 敗北女角太多了！ - 02 [1080P][Baha][WEB-DL][AAC AVC][CHT][MP4]".to_string(),
            magnet: "".to_string(),
            rule_name: "".to_string(),
            info_hash: "".to_string(),
        },
    ];
    let eps = Tasker::get_season_eps(list);
    assert_eq!(eps, vec![2, 3, 4]);
}

#[test]
fn single_item_admission() {
    let mut t = tracker_with_foo(1, 12);
    t.check_update_rules(&vec![Rule {
        name: "group-a".to_string(),
        cost: 0,
        re: "\\[Group\\].*?\\b\\d{2}\\b".to_string(),
    }]);
    let items = vec![FeedItem {
        title: Some("[Group] Foo - 03 [1080p]".to_string()),
        enclosure_url: Some(
            "magnet:?xt=urn:btih:QD7JCARCSCDDPOXKNLPLITPET4GFCJDU".to_string(),
        ),
        link: None,
        pub_date: Some("Wed, 10 Jul 2024 00:00:00 +0000".to_string()),
    }];
    let tagged = t.tag_channel(&items);
    assert_eq!(tagged.len(), 1);
    assert_eq!(tagged[0].rule_name, "group-a");

    let hash = magnet_info_hash(&tagged[0].magnet).unwrap();
    assert_eq!(hash, "80fe910222908637baea6adeb44de49f0c512474");

    let task = t.listener_step(1, &tagged[0], Some(&hash), true);
    assert!(task.is_none());

    let rec = t.get_anime_record(1, &hash).unwrap();
    assert_eq!(rec.rule_name, "group-a");
    assert_eq!(rec.info_hash, "80fe910222908637baea6adeb44de49f0c512474");

    let st = t.get_calender(1).unwrap();
    assert_eq!(st.rule_name, "group-a");
    assert_eq!(st.progress, 0);
    assert!(st.status);
}

fn hex_hash(n: u8) -> String {
    let mut h = String::new();
    for _ in 0..20 {
        h.push_str(&format!("{:02x}", n));
    }
    h
}

#[test]
fn progress_over_three_admissions() {
    let mut t = tracker_with_foo(1, 12);
    for n in 1..=3u8 {
        let title = format!("Foo - 0{} [1080p]", n);
        let msg = item(&title, &derive_back(&hex_hash(n)), "group-a");
        let hash = magnet_info_hash(&msg.magnet).unwrap();
        let task = t.listener_step(1, &msg, Some(&hash), true);
        assert!(task.is_none());
    }
    let st = t.get_calender(1).unwrap();
    assert_eq!(st.progress, 3);
    assert!(st.status);
    assert_eq!(t.get_anime_rss_recodes(1).unwrap().len(), 3);
}

#[test]
fn repeated_item_writes_once() {
    let mut t = tracker_with_foo(1, 12);
    let msg = item("Foo - 01 [1080p]", &derive_back(&hex_hash(9)), "group-a");
    let hash = magnet_info_hash(&msg.magnet).unwrap();
    t.listener_step(1, &msg, Some(&hash), true);
    t.listener_step(1, &msg, Some(&hash), true);
    t.listener_step(1, &msg, Some(&hash), true);
    assert_eq!(t.get_anime_rss_recodes(1).unwrap().len(), 1);
}

#[test]
fn sticky_rule_rejects_other_tag() {
    let mut t = tracker_with_foo(1, 12);
    let first = item("Foo - 01 [1080p]", &derive_back(&hex_hash(1)), "group-a");
    let hash = magnet_info_hash(&first.magnet).unwrap();
    t.listener_step(1, &first, Some(&hash), true);
    assert_eq!(t.get_calender(1).unwrap().rule_name, "group-a");

    let other = item("Foo - 02 [1080p]", &derive_back(&hex_hash(2)), "group-b");
    let admitted = t.check_anime_rules(1, &other);
    assert!(!admitted);
    assert_eq!(t.get_anime_rss_recodes(1).unwrap().len(), 1);
}

#[test]
fn name_gate_drops_foreign_title() {
    let mut t = tracker_with_foo(1, 12);
    let msg = item("[Group] Bar - 01 [1080p]", &derive_back(&hex_hash(1)), "group-a");
    let admitted = t.check_anime_rules(1, &msg);
    assert!(!admitted);
}

#[test]
fn date_gate_drops_early_item() {
    let mut t = tracker_with_foo(1, 12);
    // 2024-01-01 plus the eight-day slack still lies before 2024-02-01
    let mut msg = item("Foo - 01 [1080p]", &derive_back(&hex_hash(1)), "group-a");
    msg.pub_date = Some("Mon, 01 Jan 2024 00:00:00 +0000".to_string());
    let mut st = t.get_calender(1).unwrap();
    st.anime_info.air_date = "2024-02-01".to_string();
    t.set_calender(st);
    assert!(!t.check_anime_rules(1, &msg));

    // 2024-01-25 plus eight days reaches 2024-02-02, past the start
    msg.pub_date = Some("Thu, 25 Jan 2024 00:00:00 +0000".to_string());
    assert!(t.check_anime_rules(1, &msg));
}

#[test]
fn retirement_fires_and_latches() {
    let mut t = tracker_with_foo(1, 3);
    for n in 1..=2u8 {
        let title = format!("Foo - 0{} [1080p]", n);
        let msg = item(&title, &derive_back(&hex_hash(n)), "group-a");
        let hash = magnet_info_hash(&msg.magnet).unwrap();
        assert!(t.listener_step(1, &msg, Some(&hash), true).is_none());
    }
    let third = item("Foo - 03 [1080p]", &derive_back(&hex_hash(3)), "group-a");
    let hash = magnet_info_hash(&third.magnet).unwrap();
    let task = t.listener_step(1, &third, Some(&hash), true).unwrap();
    assert!(task.cancel);
    assert_eq!(task.info.id, 1);

    assert!(!t.is_listening(1));
    let st = t.get_calender(1).unwrap();
    assert!(!st.status);
    assert_eq!(st.progress, 3);

    // the latch: a further item does nothing at all
    let fourth = item("Foo - 04 [1080p]", &derive_back(&hex_hash(4)), "group-a");
    let h4 = magnet_info_hash(&fourth.magnet).unwrap();
    assert!(t.listener_step(1, &fourth, Some(&h4), true).is_none());
    assert_eq!(t.get_anime_rss_recodes(1).unwrap().len(), 3);
}

#[test]
fn zero_eps_never_retires() {
    let mut t = tracker_with_foo(1, 0);
    for n in 1..=5u8 {
        let title = format!("Foo - 0{} [1080p]", n);
        let msg = item(&title, &derive_back(&hex_hash(n)), "group-a");
        let hash = magnet_info_hash(&msg.magnet).unwrap();
        assert!(t.listener_step(1, &msg, Some(&hash), true).is_none());
    }
    let st = t.get_calender(1).unwrap();
    assert!(st.status);
    assert_eq!(st.progress, 5);
    assert!(t.is_listening(1));
}

#[test]
fn failed_dispatch_writes_nothing() {
    let mut t = tracker_with_foo(1, 12);
    let msg = item("Foo - 01 [1080p]", &derive_back(&hex_hash(1)), "group-a");
    let hash = magnet_info_hash(&msg.magnet).unwrap();
    assert!(t.listener_step(1, &msg, Some(&hash), false).is_none());
    assert!(t.get_anime_record(1, &hash).is_none());
}

#[test]
fn missing_config_blocks_admission() {
    let mut t = Tasker::new();
    t.set_calender(foo_status(1, 12));
    let st = t.get_calender(1).unwrap();
    t.start_listener(st);
    assert!(t.qbit_request(&foo_info(1, 12)).is_none());
    let msg = item("Foo - 01 [1080p]", &derive_back(&hex_hash(1)), "group-a");
    let hash = magnet_info_hash(&msg.magnet).unwrap();
    assert!(t.listener_step(1, &msg, Some(&hash), true).is_none());
    assert!(t.get_anime_record(1, &hash).is_none());
}

#[test]
fn calendar_sync_honours_lock_and_latch() {
    let mut t = Tasker::new();
    let mut locked = foo_status(7, 12);
    locked.is_lock = true;
    locked.anime_info.name = "Old".to_string();
    t.set_calender(locked);

    let mut retired = foo_status(9, 12);
    retired.status = false;
    t.set_calender(retired);

    let mut new_seven = foo_info(7, 12);
    new_seven.name = "New".to_string();
    let mut new_nine = foo_info(9, 12);
    new_nine.name = "Nine".to_string();
    let fresh = foo_info(8, 12);

    t.sync_calender(vec![new_seven, new_nine, fresh.clone()]);

    // the locked status keeps its snapshot
    assert_eq!(t.get_calender(7).unwrap().anime_info.name, "Old");
    // the unlocked retired status gets the new snapshot but stays retired
    let nine = t.get_calender(9).unwrap();
    assert_eq!(nine.anime_info.name, "Nine");
    assert!(!nine.status);
    assert!(!t.is_listening(9));
    // the unknown series is inserted watching and listened to
    let eight = t.get_calender(8).unwrap();
    assert!(eight.status);
    assert_eq!(eight.progress, 0);
    assert!(t.is_listening(8));
    assert!(t.is_listening(7));
}

#[test]
fn boundary_items_are_dropped() {
    let mut t = tracker_with_foo(1, 12);
    t.check_update_rules(&vec![Rule {
        name: "any".to_string(),
        cost: 0,
        re: ".*".to_string(),
    }]);
    let items = vec![
        FeedItem {
            title: Some(String::new()),
            enclosure_url: Some("magnet:?xt=urn:btih:aa".to_string()),
            link: None,
            pub_date: Some("Wed, 10 Jul 2024 00:00:00 +0000".to_string()),
        },
        FeedItem {
            title: Some("Foo - 01".to_string()),
            enclosure_url: None,
            link: None,
            pub_date: Some("Wed, 10 Jul 2024 00:00:00 +0000".to_string()),
        },
        FeedItem {
            title: Some("Foo - 01".to_string()),
            enclosure_url: Some("magnet:?xt=urn:btih:aa".to_string()),
            link: None,
            pub_date: None,
        },
        FeedItem {
            title: None,
            enclosure_url: Some("magnet:?xt=urn:btih:aa".to_string()),
            link: None,
            pub_date: Some("Wed, 10 Jul 2024 00:00:00 +0000".to_string()),
        },
    ];
    assert_eq!(t.tag_channel(&items).len(), 0);
}

#[test]
fn link_is_fallback_url() {
    let mut t = tracker_with_foo(1, 12);
    t.check_update_rules(&vec![Rule {
        name: "any".to_string(),
        cost: 0,
        re: "Foo".to_string(),
    }]);
    let items = vec![FeedItem {
        title: Some("Foo - 01".to_string()),
        enclosure_url: None,
        link: Some("https://example.org/1.torrent".to_string()),
        pub_date: Some("Wed, 10 Jul 2024 00:00:00 +0000".to_string()),
    }];
    let tagged = t.tag_channel(&items);
    assert_eq!(tagged.len(), 1);
    assert_eq!(tagged[0].magnet, "https://example.org/1.torrent");
}

#[test]
fn invalid_rule_is_skipped() {
    let mut t = Tasker::new();
    t.check_update_rules(&vec![
        Rule { name: "bad".to_string(), cost: 0, re: "([".to_string() },
        Rule { name: "good".to_string(), cost: 1, re: "Foo".to_string() },
    ]);
    let items = vec![FeedItem {
        title: Some("Foo - 01".to_string()),
        enclosure_url: Some("magnet:?xt=urn:btih:aa".to_string()),
        link: None,
        pub_date: Some("Wed, 10 Jul 2024 00:00:00 +0000".to_string()),
    }];
    let tagged = t.tag_channel(&items);
    assert_eq!(tagged.len(), 1);
    assert_eq!(tagged[0].rule_name, "good");
}

#[test]
fn rule_cache_reconciliation() {
    let mut t = Tasker::new();
    t.check_update_rules(&vec![
        Rule { name: "a".to_string(), cost: 0, re: "AAA".to_string() },
        Rule { name: "b".to_string(), cost: 1, re: "BBB".to_string() },
    ]);
    // rule a is rewritten, rule b disappears, rule c is new
    t.check_update_rules(&vec![
        Rule { name: "a".to_string(), cost: 0, re: "Foo".to_string() },
        Rule { name: "c".to_string(), cost: 1, re: "CCC".to_string() },
    ]);
    let items = vec![FeedItem {
        title: Some("Foo BBB".to_string()),
        enclosure_url: Some("x".to_string()),
        link: None,
        pub_date: Some("d".to_string()),
    }];
    let tagged = t.tag_channel(&items);
    assert_eq!(tagged.len(), 1);
    assert_eq!(tagged[0].rule_name, "a");
}

#[test]
fn search_targets_format_aliases() {
    let mut t = Tasker::new();
    let mut st = foo_status(1, 12);
    st.is_search = true;
    t.set_calender(st);
    let st = t.get_calender(1).unwrap();
    t.start_listener(st);
    let targets = t.search_targets("https://example.org/search?q={}");
    assert_eq!(targets.len(), 1);
    assert_eq!(targets[0].0, 1);
    assert_eq!(targets[0].1, "https://example.org/search?q=Foo");
}

#[test]
fn qbit_request_composes_path() {
    let t = tracker_with_foo(1, 12);
    let (config, path) = t.qbit_request(&foo_info(1, 12)).unwrap();
    assert_eq!(config.username, "admin");
    assert_eq!(path, "/downloads/Foo/S01");

    let mut t2 = Tasker::new();
    t2.set_path("/dl/".to_string());
    t2.set_qbit(QbitConfig {
        url: String::new(),
        username: String::new(),
        password: String::new(),
    });
    let mut info = foo_info(1, 12);
    info.season = 12;
    let (_, path2) = t2.qbit_request(&info).unwrap();
    assert_eq!(path2, "/dl/Foo/S12");
}

#[test]
fn names_prefers_alternative_titles() {
    let mut info = foo_info(1, 12);
    info.name_cn = "福".to_string();
    assert_eq!(info.names(), vec!["Foo".to_string(), "福".to_string()]);
    info.alternative_titles = Some(vec!["Alias".to_string()]);
    assert_eq!(info.names(), vec!["Alias".to_string()]);
}

#[test]
fn startup_recovers_watching_listeners_only() {
    let mut t = Tasker::new();
    t.set_calender(foo_status(1, 12));
    let mut done = foo_status(2, 12);
    done.status = false;
    t.set_calender(done);
    t.init_anime_listener();
    assert!(t.is_listening(1));
    assert!(!t.is_listening(2));
}

#[test]
fn failed_hash_derivation_drops_the_item() {
    let mut t = tracker_with_foo(1, 12);
    let msg = item("Foo - 01 [1080p]", "magnet:?dn=nohash", "group-a");
    assert!(magnet_info_hash(&msg.magnet).is_none());
    assert!(t.listener_step(1, &msg, None, true).is_none());
    assert!(t.get_anime_rss_recodes(1).is_none());
    // the evaluation still bound the sticky rule before the derivation failed
    assert_eq!(t.get_calender(1).unwrap().rule_name, "group-a");
}

#[test]
fn listener_start_is_idempotent() {
    let mut t = Tasker::new();
    t.set_calender(foo_status(1, 12));
    let st = t.get_calender(1).unwrap();
    t.start_listener(st);
    let again = t.get_calender(1).unwrap();
    t.start_listener(again);
    assert!(t.is_listening(1));
}
