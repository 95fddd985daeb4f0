use notify_api::access::{get_vec_appdata, ip_permitted, validate_ip};
use notify_api::appdata::{
    appdatas, cron_start, env_app, get_appdata, group_rows, refresh_store, AppData, AppdataStore, AppdataValue, Numeric,
    StringMap,
};

fn text(s: &str) -> AppdataValue {
    AppdataValue::new(None, None, Some(s.to_string()), None)
}

fn row(env: &str, app: &str, key: &str, int_value: Option<i32>, string_value: Option<&str>) -> AppData {
    AppData {
        env_name: env.to_string(),
        app_name: app.to_string(),
        key: key.to_string(),
        int_value,
        numeric_value: None,
        string_value: string_value.map(|s| s.to_string()),
        bool_value: None,
    }
}

#[test]
fn store_starts_empty() {
    let store = appdatas();
    assert!(store.is_empty());
    assert_eq!(get_appdata::<String>(&store, "prod:app", "k"), None);
}

#[test]
fn set_then_get() {
    let mut store = AppdataStore::new();
    store.set("prod:app", "greeting", text("hello"));
    store.set("prod:app", "count", AppdataValue::new(Some(7), None, None, Some(true)));
    assert!(!store.is_empty());
    assert_eq!(get_appdata::<String>(&store, "prod:app", "greeting"), Some("hello".to_string()));
    assert_eq!(get_appdata::<i32>(&store, "prod:app", "count"), Some(7));
    assert_eq!(get_appdata::<bool>(&store, "prod:app", "count"), Some(true));
    assert_eq!(get_appdata::<String>(&store, "prod:app", "count"), None);
    assert_eq!(get_appdata::<String>(&store, "dev:app", "greeting"), None);
    store.set("prod:app", "greeting", text("bye"));
    assert_eq!(get_appdata::<String>(&store, "prod:app", "greeting"), Some("bye".to_string()));
    assert_eq!(get_appdata::<i32>(&store, "prod:app", "count"), Some(7));
}

#[test]
fn typed_reads() {
    let mut store = AppdataStore::new();
    store.set("e:a", "neg", AppdataValue::new(Some(-3), None, None, None));
    store.set("e:a", "pos", AppdataValue::new(Some(3), None, None, None));
    store.set("e:a", "num", AppdataValue::new(None, Some(Numeric { text: "12.50".to_string() }), None, None));
    assert_eq!(get_appdata::<u32>(&store, "e:a", "neg"), None);
    assert_eq!(get_appdata::<u32>(&store, "e:a", "pos"), Some(3));
    assert_eq!(get_appdata::<i64>(&store, "e:a", "neg"), Some(-3));
    let n = get_appdata::<Numeric>(&store, "e:a", "num").unwrap();
    assert_eq!(n.text, "12.50");
    assert_eq!(get_appdata::<Vec<String>>(&store, "e:a", "pos"), None);
    assert!(get_appdata::<StringMap>(&store, "e:a", "pos").is_none());
}

#[test]
fn list_values_are_read() {
    let mut store = AppdataStore::new();
    let mut v = AppdataValue::empty();
    v.int_values = Some(vec![1, -2, 3]);
    v.strings_values = Some(vec!["a".to_string(), "b".to_string()]);
    store.set("e:a", "lists", v);
    assert_eq!(get_appdata::<Vec<i32>>(&store, "e:a", "lists"), Some(vec![1, -2, 3]));
    assert_eq!(get_appdata::<Vec<u32>>(&store, "e:a", "lists"), None);
    assert_eq!(get_appdata::<Vec<String>>(&store, "e:a", "lists"), Some(vec!["a".to_string(), "b".to_string()]));
    assert_eq!(get_appdata::<Vec<bool>>(&store, "e:a", "lists"), None);
}

#[test]
fn env_app_joins_with_colon() {
    assert_eq!(env_app("prod", "billing"), "prod:billing");
    assert_eq!(env_app("", ""), ":");
}

#[test]
fn rows_group_by_pair_and_last_row_wins() {
    let rows = vec![
        row("prod", "a", "k", Some(1), None),
        row("prod", "b", "k", Some(2), None),
        row("prod", "a", "k", Some(3), Some("x")),
    ];
    let store = group_rows(&rows);
    assert_eq!(get_appdata::<i32>(&store, "prod:a", "k"), Some(3));
    assert_eq!(get_appdata::<String>(&store, "prod:a", "k"), Some("x".to_string()));
    assert_eq!(get_appdata::<i32>(&store, "prod:b", "k"), Some(2));
    assert_eq!(get_appdata::<i32>(&store, "prod:c", "k"), None);
}

#[test]
fn refresh_replaces_only_on_change() {
    let mut store = appdatas();
    let rows = vec![row("prod", "a", "k", Some(1), None)];
    assert!(refresh_store(&mut store, &rows));
    assert_eq!(get_appdata::<i32>(&store, "prod:a", "k"), Some(1));
    assert!(!refresh_store(&mut store, &rows));
    assert!(!refresh_store(&mut store, &vec![]));
    assert_eq!(get_appdata::<i32>(&store, "prod:a", "k"), Some(1));
    let changed = vec![row("prod", "a", "k", Some(2), None)];
    assert!(refresh_store(&mut store, &changed));
    assert_eq!(get_appdata::<i32>(&store, "prod:a", "k"), Some(2));
}

#[test]
fn refresh_drops_pairs_no_longer_listed() {
    let mut store = group_rows(&vec![row("prod", "a", "k", Some(1), None), row("dev", "a", "k", Some(5), None)]);
    assert!(refresh_store(&mut store, &vec![row("prod", "a", "k", Some(1), None)]));
    assert_eq!(get_appdata::<i32>(&store, "dev:a", "k"), None);
}

#[test]
fn same_contents_compare_equal() {
    let a = group_rows(&vec![row("p", "a", "x", Some(1), None), row("p", "a", "y", Some(2), None)]);
    let b = group_rows(&vec![row("p", "a", "y", Some(2), None), row("p", "a", "x", Some(1), None)]);
    assert!(a.same_as(&b));
    let c = group_rows(&vec![row("p", "a", "y", Some(2), None)]);
    assert!(!a.same_as(&c));
}

#[test]
fn cron_start_announces_once_per_scheduled_run() {
    let mut processed = false;
    assert!(cron_start(&mut processed, false));
    assert!(processed);
    assert!(!cron_start(&mut processed, false));
    let mut initial = false;
    assert!(!cron_start(&mut initial, true));
    assert!(!initial);
}

#[test]
fn ip_patterns() {
    let list = vec!["10.0.*".to_string(), "192.168.1.7".to_string()];
    assert!(ip_permitted("10.0.3.4", &list));
    assert!(ip_permitted("192.168.1.7", &list));
    assert!(!ip_permitted("192.168.1.70", &list));
    assert!(!ip_permitted("10.1.0.1", &list));
    assert!(ip_permitted("8.8.8.8", &vec!["*".to_string()]));
    assert!(ip_permitted("10.9.9.9", &vec!["10.***".to_string()]));
    assert!(!ip_permitted("1.1.1.1", &vec![]));
}

#[test]
fn more_entries_never_revoke() {
    let mut list = vec!["10.0.*".to_string()];
    assert!(ip_permitted("10.0.0.1", &list));
    list.push("172.16.0.1".to_string());
    list.insert(0, "1.1.1.1".to_string());
    assert!(ip_permitted("10.0.0.1", &list));
}

#[test]
fn partner_allow_list_from_settings() {
    let mut store = AppdataStore::new();
    let mut v = AppdataValue::empty();
    v.strings_values = Some(vec!["203.0.113.*".to_string()]);
    store.set("partner-1", "allowed-ips", v);
    assert!(validate_ip(&store, "203.0.113.9", "partner-1"));
    assert!(!validate_ip(&store, "198.51.100.1", "partner-1"));
    assert!(!validate_ip(&store, "203.0.113.9", "partner-2"));
}

#[test]
fn list_settings_split_and_trim() {
    let mut store = AppdataStore::new();
    store.set("prod:a", "email-allowed-ips", text(" 10.0.0.1 , ,10.0.0.2,"));
    assert_eq!(
        get_vec_appdata(&store, "prod:a", "email-allowed-ips", ','),
        Some(vec!["10.0.0.1".to_string(), "10.0.0.2".to_string()])
    );
    assert_eq!(get_vec_appdata(&store, "prod:a", "missing", ','), None);
    store.set("prod:a", "blank", text(""));
    assert_eq!(get_vec_appdata(&store, "prod:a", "blank", ','), Some(vec![]));
}
