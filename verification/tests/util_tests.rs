use yanami::config::{clamp_mode, Config};
use yanami::keys::{CalenderTable, RSSTable, RuleTable, UserRegisterTable, UserTable};
use yanami::result::JsonResult;
use yanami::rules::sort_rules_by_cost;
use yanami::model::Rule;
use yanami::strutil::{ascii_lower, contains_sub, hex_lower, i64_to_dec, i64_to_pad2, u64_to_dec};
use yanami::users::{AuthBody, UserCharacter, UserEntity};

#[test]
fn decimal_rendering() {
    assert_eq!(u64_to_dec(0), "0");
    assert_eq!(u64_to_dec(42), "42");
    assert_eq!(u64_to_dec(9_007_199_254_740_993), "9007199254740993");
    assert_eq!(i64_to_dec(-5), "-5");
    assert_eq!(i64_to_dec(i64::MIN), "-9223372036854775808");
    assert_eq!(i64_to_pad2(0), "00");
    assert_eq!(i64_to_pad2(5), "05");
    assert_eq!(i64_to_pad2(12), "12");
}

#[test]
fn hex_and_case() {
    assert_eq!(hex_lower(&[0xde, 0xad, 0x01]), "dead01");
    assert_eq!(hex_lower(&[]), "");
    assert_eq!(ascii_lower("AbC0xYZ"), "abc0xyz");
    assert_eq!(ascii_lower("第2期"), "第2期");
}

#[test]
fn containment_is_literal() {
    assert!(contains_sub("[ANi] 敗北女角太多了！ - 04", "敗北女角太多了"));
    assert!(contains_sub("abc", ""));
    assert!(!contains_sub("abc", "abd"));
    assert!(!contains_sub("ab", "abc"));
}

#[test]
fn store_keys() {
    let user = UserTable {};
    assert_eq!(user.to_id_key(42), "/user/id/42");
    assert_eq!(user.to_username_key("ami"), "/user/username/ami");
    assert_eq!(user.to_uid_key(), "/user_id");
    let reg = UserRegisterTable {};
    assert_eq!(reg.to_key("c0de"), "/user/register/c0de");
    let rss = RSSTable {};
    assert_eq!(rss.to_key("feed1"), "/rss/id/feed1");
    let cal = CalenderTable {};
    assert_eq!(cal.to_key(-7), "-7");
    let rule = RuleTable {};
    assert_eq!(rule.to_key("group-a"), "group-a");
}

fn cfg(addr: Option<&str>, mode: Option<&str>) -> Config {
    Config {
        addr: addr.map(|s| s.to_string()),
        mode: mode.map(|s| s.to_string()),
        key: Some("k".to_string()),
        db_path: Some("db".to_string()),
        tmdb_token: Some("t".to_string()),
        config: None,
    }
}

#[test]
fn config_merge_and_clamp() {
    assert_eq!(clamp_mode(None), "info");
    assert_eq!(clamp_mode(Some("debug".to_string())), "debug");
    assert_eq!(clamp_mode(Some("warn".to_string())), "warn");
    assert_eq!(clamp_mode(Some("trace".to_string())), "info");

    let merged = Config::merge(cfg(Some("a1"), None), cfg(Some("a2"), Some("debug"))).unwrap();
    assert_eq!(merged.addr.unwrap(), "a1");
    assert_eq!(merged.mode.unwrap(), "debug");

    let missing = Config::merge(cfg(None, None), cfg(None, None));
    assert!(missing.is_none());
}

#[test]
fn auth_and_roles() {
    let body = AuthBody::new("tok".to_string(), 3600);
    assert_eq!(body.token_type, "Bearer");
    assert_eq!(body.access_token, "tok");
    assert_eq!(body.expired, 3600);

    assert!(matches!(UserCharacter::from_value("admin"), UserCharacter::Admin));
    assert!(matches!(UserCharacter::from_value("user"), UserCharacter::User));
    assert!(matches!(UserCharacter::from_value("guest"), UserCharacter::Unknown));
    assert_eq!(UserCharacter::Admin.as_value(), "admin");
}

#[test]
fn salted_password_digest() {
    assert_eq!(
        UserEntity::into_sha256_pwd("pass".to_string()),
        "6e5a825179927e6d6a75ad77542d17fe2d335ca64c5f94adfd9916b42a8852d4"
    );
}

#[test]
fn json_result_envelopes() {
    let ok: JsonResult<i32> = JsonResult::ok(Some(5));
    assert_eq!(ok.code, 200);
    assert_eq!(ok.data, Some(5));
    assert_eq!(ok.msg, "");
    let err: JsonResult<i32> = JsonResult::err("boom".to_string());
    assert_eq!(err.code, 500);
    assert!(err.data.is_none());
    assert_eq!(err.msg, "boom");
}

#[test]
fn rules_sort_is_stable() {
    let rules = vec![
        Rule { name: "b".to_string(), cost: 2, re: "B".to_string() },
        Rule { name: "a".to_string(), cost: 1, re: "A".to_string() },
        Rule { name: "c".to_string(), cost: 1, re: "C".to_string() },
    ];
    let sorted = sort_rules_by_cost(rules);
    let names: Vec<&str> = sorted.iter().map(|r| r.name.as_str()).collect();
    assert_eq!(names, vec!["a", "c", "b"]);
}
