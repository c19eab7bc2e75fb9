use yanami::dates::date_gate_passes;
use yanami::enrich::{
    calendar_entry, enrich_entry, final_eps, pick_search_result, pick_season, sanitize_search_name,
    search_retry_name, CalenderAnime, Item, SearchEntry, Season, SeriesResult,
};

fn entry(lang: &str, date: &str) -> SearchEntry {
    SearchEntry {
        adult: false,
        id: 100,
        name: Some("Foo TW".to_string()),
        original_language: Some(lang.to_string()),
        first_air_date: Some(date.to_string()),
    }
}

#[test]
fn sanitation_strips_season_suffixes() {
    assert_eq!(sanitize_search_name("ぼっち 第2期"), "ぼっち");
    assert_eq!(sanitize_search_name("Foo 2nd Season"), "Foo");
    assert_eq!(sanitize_search_name("Foo Season 2"), "Foo");
    assert_eq!(sanitize_search_name("  Foo  "), "Foo");
    assert_eq!(sanitize_search_name("Foo"), "Foo");
    assert_eq!(search_retry_name("Foo 3"), "Foo");
    assert_eq!(search_retry_name("Foo"), "Foo");
}

#[test]
fn result_picking_prefers_matching_month() {
    // the first result of the matching year and month wins, even when a
    // later one is Japanese
    let results = vec![entry("en", "2024-07-03"), entry("ja", "2024-07-20")];
    assert!(pick_search_result(&results, "2024-07-01").is_none());

    let results = vec![entry("ja", "2024-07-03"), entry("en", "2024-07-20")];
    let picked = pick_search_result(&results, "2024-07-01").unwrap();
    assert_eq!(picked.first_air_date.unwrap(), "2024-07-03");

    // no month matches: the first result is the fallback
    let results = vec![entry("ja", "2023-01-01"), entry("ja", "2022-01-01")];
    let picked = pick_search_result(&results, "2024-07-01").unwrap();
    assert_eq!(picked.first_air_date.unwrap(), "2023-01-01");

    assert!(pick_search_result(&Vec::new(), "2024-07-01").is_none());
}

#[test]
fn season_and_eps_fallbacks() {
    let seasons = vec![
        Season { air_date: None, episode_count: 12, id: 1, name: None, season_number: 1 },
        Season { air_date: None, episode_count: 13, id: 2, name: None, season_number: 2 },
    ];
    let picked = pick_season(&seasons).unwrap();
    assert_eq!(picked.season_number, 2);
    assert!(pick_season(&Vec::new()).is_none());

    assert_eq!(final_eps(12, 13), Some(12));
    assert_eq!(final_eps(0, 13), Some(13));
    assert_eq!(final_eps(0, 0), None);
}

#[test]
fn calendar_entry_needs_eps_and_date() {
    let mut subject = Item {
        id: 5,
        type_field: 2,
        name: "Foo".to_string(),
        name_cn: "福".to_string(),
        summary: String::new(),
        eps: Some(12),
        air_date: None,
    };
    let fallback = Some("2024-07-01".to_string());
    let c = calendar_entry(&subject, &fallback, 3).unwrap();
    assert_eq!(c.air_date, "2024-07-01");
    assert_eq!(c.eps, 12);
    assert_eq!(c.weekday, 3);

    subject.eps = Some(0);
    assert!(calendar_entry(&subject, &fallback, 3).is_none());
    subject.eps = None;
    assert!(calendar_entry(&subject, &fallback, 3).is_none());
    subject.eps = Some(12);
    assert!(calendar_entry(&subject, &None, 3).is_none());
}

#[test]
fn enrichment_builds_the_snapshot() {
    let bgm = CalenderAnime {
        id: 5,
        name: "Foo 第2期".to_string(),
        weekday: 3,
        eps: 0,
        air_date: "2024-07-01".to_string(),
    };
    let picked = entry("ja", "2024-07-03");
    let series = SeriesResult {
        adult: false,
        name: Some("Foo CN".to_string()),
        seasons: vec![Season {
            air_date: None,
            episode_count: 13,
            id: 2,
            name: None,
            season_number: 2,
        }],
    };
    let alt = vec!["Foo Alias".to_string(), "Foo TW".to_string()];
    let info = enrich_entry(&bgm, &picked, &series, &alt, "Foo").unwrap();
    assert_eq!(info.id, 5);
    assert_eq!(info.eps, 13);
    assert_eq!(info.season, 2);
    assert_eq!(info.search_name, "Foo");
    assert_eq!(info.name_cn, "Foo CN");
    assert_eq!(info.name_tw, "Foo TW");
    // union of the titles, first occurrence first, duplicates dropped
    assert_eq!(
        info.alternative_titles.unwrap(),
        vec![
            "Foo Alias".to_string(),
            "Foo TW".to_string(),
            "Foo 第2期".to_string(),
            "Foo CN".to_string(),
        ]
    );

    let nameless = SeriesResult { adult: false, name: None, seasons: Vec::new() };
    assert!(enrich_entry(&bgm, &picked, &nameless, &alt, "Foo").is_none());
}

#[test]
fn unparseable_dates_skip_the_gate() {
    assert!(date_gate_passes(&Some("not a date".to_string()), "2024-02-01"));
    assert!(date_gate_passes(&None, "2024-02-01"));
    assert!(date_gate_passes(
        &Some("Mon, 01 Jan 2024 00:00:00 +0000".to_string()),
        "not a date"
    ));
    assert!(!date_gate_passes(
        &Some("Mon, 01 Jan 2024 00:00:00 +0000".to_string()),
        "2024-02-01"
    ));
}

#[test]
fn sanitation_edge_cases() {
    assert_eq!(sanitize_search_name("   "), "");
    assert_eq!(sanitize_search_name("嬢 第12期 異聞"), "嬢  異聞");
    assert_eq!(sanitize_search_name("seasonal"), "");
    assert_eq!(search_retry_name("404"), "");
}
