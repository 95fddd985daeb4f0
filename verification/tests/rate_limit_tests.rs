use chrono::NaiveDate;
use chrono_tz::Tz;
use notify_api::appdata::{AppdataStore, AppdataValue};
use notify_api::clock::Instant;
use notify_api::rate_limit::{
    active_rate_limit_for_app, app_reserve_plan, app_window_key, count_verdict, get_active_rate_limit, get_window_key,
    parse_datetime, parse_lowered_rate_limit, parse_rate_limit, proxy_reserve_plan, purge_due, slot_to_refund, RateLimit, RateLimitUnit,
    ReservePlan,
};

fn limit(n: i64, unit: Option<RateLimitUnit>) -> RateLimit {
    RateLimit { limit: n, unit }
}

fn at(y: i32, mo: u32, d: u32, h: u32, mi: u32, s: u32) -> Instant {
    let dt = NaiveDate::from_ymd_opt(y, mo, d).unwrap().and_hms_opt(h, mi, s).unwrap().and_utc();
    Instant { secs: dt.timestamp(), nanos: 0 }
}

#[test]
fn parse_unlimited_and_blocked() {
    assert_eq!(parse_rate_limit("-1"), Ok(limit(-1, None)));
    assert_eq!(parse_rate_limit("0"), Ok(limit(0, None)));
}

#[test]
fn parse_slash_forms() {
    assert_eq!(parse_rate_limit("10/m"), Ok(limit(10, Some(RateLimitUnit::Minute))));
    assert_eq!(parse_rate_limit("20/h"), Ok(limit(20, Some(RateLimitUnit::Hour))));
    assert_eq!(parse_rate_limit("50/d"), Ok(limit(50, Some(RateLimitUnit::Day))));
}

#[test]
fn parse_suffix_forms() {
    assert_eq!(parse_rate_limit("10m"), Ok(limit(10, Some(RateLimitUnit::Minute))));
    assert_eq!(parse_rate_limit("20h"), Ok(limit(20, Some(RateLimitUnit::Hour))));
    assert_eq!(parse_rate_limit("50d"), Ok(limit(50, Some(RateLimitUnit::Day))));
}

#[test]
fn parse_unit_words() {
    assert_eq!(parse_rate_limit("5/minute"), Ok(limit(5, Some(RateLimitUnit::Minute))));
    assert_eq!(parse_rate_limit("5 minutes"), Ok(limit(5, Some(RateLimitUnit::Minute))));
    assert_eq!(parse_rate_limit("2/hours"), Ok(limit(2, Some(RateLimitUnit::Hour))));
    assert_eq!(parse_rate_limit("3day"), Ok(limit(3, Some(RateLimitUnit::Day))));
    assert_eq!(parse_rate_limit("7/ days "), Ok(limit(7, Some(RateLimitUnit::Day))));
}

#[test]
fn parse_ignores_case_and_surrounding_space() {
    assert_eq!(parse_rate_limit("  10/M \n"), Ok(limit(10, Some(RateLimitUnit::Minute))));
    assert_eq!(parse_rate_limit("\t-1 "), Ok(limit(-1, None)));
    assert_eq!(parse_rate_limit(" 20H"), parse_rate_limit("20h"));
}

#[test]
fn slash_and_suffix_forms_agree() {
    for (a, b) in [("15/h", "15h"), ("7/day", "7day"), ("99/ minutes", "99 minutes"), ("1/x", "1x")] {
        assert_eq!(parse_lowered_rate_limit(a), parse_lowered_rate_limit(b));
    }
}

#[test]
fn parse_signed_count_with_slash() {
    assert_eq!(parse_rate_limit("-5/m"), Err("invalid rate limit value: -5".to_string()));
    assert_eq!(parse_rate_limit("-2/x"), Err("invalid rate limit value: -2".to_string()));
    assert_eq!(parse_rate_limit("-1/m"), Ok(limit(-1, Some(RateLimitUnit::Minute))));
    assert_eq!(parse_rate_limit("0/h"), Ok(limit(0, Some(RateLimitUnit::Hour))));
    assert_eq!(parse_rate_limit("+4/h"), Ok(limit(4, Some(RateLimitUnit::Hour))));
}

#[test]
fn parse_rejects_missing_number() {
    assert_eq!(parse_rate_limit("abc"), Err("invalid rate limit format: abc".to_string()));
    assert_eq!(parse_rate_limit(""), Err("invalid rate limit format: ".to_string()));
    assert_eq!(parse_rate_limit(" Many "), Err("invalid rate limit format: many".to_string()));
}

#[test]
fn parse_rejects_unknown_unit() {
    assert_eq!(parse_rate_limit("10/x"), Err("unknown rate limit unit: x".to_string()));
    assert_eq!(parse_rate_limit("10 weeks"), Err("unknown rate limit unit:  weeks".to_string()));
    assert_eq!(parse_rate_limit("10"), Err("unknown rate limit unit: ".to_string()));
}

#[test]
fn parse_rejects_bad_number() {
    assert_eq!(parse_rate_limit("x/m"), Err("invalid digit found in string".to_string()));
    assert_eq!(parse_rate_limit("/m"), Err("cannot parse integer from empty string".to_string()));
    assert_eq!(parse_rate_limit("99999999999999999999/m"), Err("number too large to fit in target type".to_string()));
}

#[test]
fn parse_datetime_forms() {
    let utc: Tz = Tz::UTC;
    let expected = at(2026, 1, 2, 3, 4, 5);
    assert_eq!(parse_datetime("2026-01-02T03:04:05Z", utc), Some(expected));
    assert_eq!(parse_datetime(" 2026-01-02T03:04:05 ", utc), Some(expected));
    assert_eq!(parse_datetime("2026-01-02 03:04:05", utc), Some(expected));
    assert_eq!(parse_datetime("2026-01-02T10:04:05+07:00", utc), Some(expected));
    assert_eq!(parse_datetime("yesterday", utc), None);
}

#[test]
fn parse_datetime_in_zone() {
    let jakarta: Tz = "Asia/Jakarta".parse().unwrap();
    assert_eq!(parse_datetime("2026-01-02 10:04:05", jakarta), Some(at(2026, 1, 2, 3, 4, 5)));
}

#[test]
fn override_applies_inside_window() {
    let utc: Tz = Tz::UTC;
    let now = at(2026, 1, 1, 12, 0, 0);
    let r = get_active_rate_limit(Some("0"), Some("2026-01-01 00:00:00,2026-01-02 00:00:00"), "10/m", now, utc);
    assert_eq!(r, Some(limit(0, None)));
}

#[test]
fn override_bounds_are_inclusive() {
    let utc: Tz = Tz::UTC;
    let range = "2026-01-01T00:00:00Z,2026-01-02T00:00:00Z";
    assert_eq!(get_active_rate_limit(Some("5/h"), Some(range), "10/m", at(2026, 1, 1, 0, 0, 0), utc), Some(limit(5, Some(RateLimitUnit::Hour))));
    assert_eq!(get_active_rate_limit(Some("5/h"), Some(range), "10/m", at(2026, 1, 2, 0, 0, 0), utc), Some(limit(5, Some(RateLimitUnit::Hour))));
}

#[test]
fn default_applies_outside_window() {
    let utc: Tz = Tz::UTC;
    let now = at(2026, 1, 3, 0, 0, 0);
    let r = get_active_rate_limit(Some("0"), Some("2026-01-01 00:00:00,2026-01-02 00:00:00"), "10/m", now, utc);
    assert_eq!(r, Some(limit(10, Some(RateLimitUnit::Minute))));
}

#[test]
fn default_applies_when_override_unusable() {
    let utc: Tz = Tz::UTC;
    let now = at(2026, 1, 1, 12, 0, 0);
    assert_eq!(get_active_rate_limit(Some("zero"), Some("2026-01-01 00:00:00,2026-01-02 00:00:00"), "20/h", now, utc), Some(limit(20, Some(RateLimitUnit::Hour))));
    assert_eq!(get_active_rate_limit(Some("0"), Some("2026-01-01 00:00:00"), "20/h", now, utc), Some(limit(20, Some(RateLimitUnit::Hour))));
    assert_eq!(get_active_rate_limit(Some("0"), None, "20/h", now, utc), Some(limit(20, Some(RateLimitUnit::Hour))));
    assert_eq!(get_active_rate_limit(None, Some("2026-01-01 00:00:00,2026-01-02 00:00:00"), "20/h", now, utc), Some(limit(20, Some(RateLimitUnit::Hour))));
}

#[test]
fn unreadable_default_gives_none() {
    let utc: Tz = Tz::UTC;
    assert_eq!(get_active_rate_limit(None, None, "lots", at(2026, 1, 1, 0, 0, 0), utc), None);
    assert_eq!(get_active_rate_limit(None, None, "", at(2026, 1, 1, 0, 0, 0), utc), None);
}

#[test]
fn app_settings_choose_rate_limit() {
    let utc: Tz = Tz::UTC;
    let mut store = AppdataStore::new();
    store.set("prod:billing", "email-rate-limit", AppdataValue::new(None, None, Some("30/d".to_string()), None));
    store.set("prod:billing", "email-rate-limit-override", AppdataValue::new(None, None, Some("-1".to_string()), None));
    store.set(
        "prod:billing",
        "email-rate-limit-time-range",
        AppdataValue::new(None, None, Some("2026-05-01 00:00:00,2026-05-31 23:59:59".to_string()), None),
    );
    assert_eq!(active_rate_limit_for_app(&store, "prod", "billing", at(2026, 5, 10, 0, 0, 0), utc), Some(limit(-1, None)));
    assert_eq!(
        active_rate_limit_for_app(&store, "prod", "billing", at(2026, 6, 10, 0, 0, 0), utc),
        Some(limit(30, Some(RateLimitUnit::Day)))
    );
    assert_eq!(active_rate_limit_for_app(&store, "prod", "other", at(2026, 6, 10, 0, 0, 0), utc), None);
}

#[test]
fn proxy_plan_per_setting() {
    assert_eq!(proxy_reserve_plan(None), ReservePlan::Unlimited);
    assert_eq!(proxy_reserve_plan(Some(limit(-1, None))), ReservePlan::Unlimited);
    assert_eq!(
        proxy_reserve_plan(Some(limit(0, None))),
        ReservePlan::Refuse("Sending email is blocked by rate limit configuration (limit = 0)".to_string())
    );
    assert_eq!(proxy_reserve_plan(Some(limit(5, None))), ReservePlan::Unlimited);
    assert_eq!(
        proxy_reserve_plan(Some(limit(5, Some(RateLimitUnit::Hour)))),
        ReservePlan::Reserve { unit: RateLimitUnit::Hour, limit: 5 }
    );
}

#[test]
fn app_plan_per_setting() {
    assert_eq!(app_reserve_plan(None), ReservePlan::Refuse("sending email is blocked by rate limit".to_string()));
    assert_eq!(
        app_reserve_plan(Some(limit(0, Some(RateLimitUnit::Day)))),
        ReservePlan::Refuse("sending email is blocked by rate limit configuration".to_string())
    );
    assert_eq!(app_reserve_plan(Some(limit(-1, None))), ReservePlan::Unlimited);
    assert_eq!(app_reserve_plan(Some(limit(8, None))), ReservePlan::Unlimited);
    assert_eq!(
        app_reserve_plan(Some(limit(8, Some(RateLimitUnit::Minute)))),
        ReservePlan::Reserve { unit: RateLimitUnit::Minute, limit: 8 }
    );
}

#[test]
fn count_verdict_accepts_up_to_limit() {
    assert_eq!(count_verdict(1, 3), Ok(()));
    assert_eq!(count_verdict(3, 3), Ok(()));
    assert_eq!(count_verdict(4, 3), Err("Rate limit exceeded. Please try again later.".to_string()));
    assert_eq!(count_verdict(1, -5), Err("Rate limit exceeded. Please try again later.".to_string()));
}

#[test]
fn purge_every_hundredth_nanosecond() {
    assert!(purge_due(0));
    assert!(purge_due(1_700_000_000_000_000_200));
    assert!(!purge_due(1_700_000_000_000_000_201));
}

#[test]
fn window_keys_per_unit() {
    let now = NaiveDate::from_ymd_opt(2026, 3, 5).unwrap().and_hms_opt(14, 7, 9).unwrap();
    assert_eq!(get_window_key(&RateLimitUnit::Minute, &now), "rate:minute:2026-03-05 14:07");
    assert_eq!(get_window_key(&RateLimitUnit::Hour, &now), "rate:hour:2026-03-05 14");
    assert_eq!(get_window_key(&RateLimitUnit::Day, &now), "rate:day:2026-03-05");
}

#[test]
fn app_window_keys_name_the_pair() {
    let now = NaiveDate::from_ymd_opt(2026, 12, 31).unwrap().and_hms_opt(23, 59, 59).unwrap();
    assert_eq!(app_window_key("prod", "billing", &RateLimitUnit::Day, &now), "rate:prod:billing:day:2026-12-31");
    assert_eq!(app_window_key("dev", "crm", &RateLimitUnit::Minute, &now), "rate:dev:crm:minute:2026-12-31 23:59");
}

#[test]
fn parse_ignores_case_and_surrounding_space_for_ascii() {
    for s in ["10/m", "20 Hours", "-1", "0", "abc", "10/x", "x/m", "7days", ""] {
        let padded = format!(" \t{}\n ", s.to_uppercase());
        assert_eq!(parse_rate_limit(s), parse_rate_limit(&padded));
    }
}

#[test]
fn refund_unless_relayed() {
    assert_eq!(slot_to_refund(Some("rate:minute:k".to_string()), false), Some("rate:minute:k".to_string()));
    assert_eq!(slot_to_refund(Some("rate:minute:k".to_string()), true), None);
    assert_eq!(slot_to_refund(None, false), None);
}
