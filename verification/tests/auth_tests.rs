use notify_api::appdata::{AppdataStore, AppdataValue};
use notify_api::auth::{authenticate, email_authentication, normalize_auth_request, PreconditionEmailAuthenticationRequest};
use notify_api::reply::Reply;

fn text(s: &str) -> AppdataValue {
    AppdataValue::new(None, None, Some(s.to_string()), None)
}

fn store() -> AppdataStore {
    let mut s = AppdataStore::new();
    s.set("prod:billing", "email-api-key-current", text("key-new"));
    s.set("prod:billing", "email-api-key-expired", text("key-old"));
    s.set("prod:billing", "email-allowed-ips", text("10.0.*, 192.168.1.7"));
    s
}

fn request(key: Option<&str>, env: Option<&str>, app: Option<&str>) -> PreconditionEmailAuthenticationRequest {
    PreconditionEmailAuthenticationRequest {
        api_key: key.map(|s| s.to_string()),
        env_name: env.map(|s| s.to_string()),
        app_name: app.map(|s| s.to_string()),
    }
}

fn check(r: Result<(), Reply>, status: u16, sub: &str, message: &str) {
    let e = r.unwrap_err();
    assert_eq!(e.status, status);
    assert_eq!(e.sub_code, sub);
    assert_eq!(e.message, message);
}

#[test]
fn current_key_from_allowed_address_passes() {
    let r = email_authentication(&store(), &request(Some("key-new"), Some("prod"), Some("billing")), "10.0.4.4");
    assert!(r.is_ok());
}

#[test]
fn expired_key_still_passes() {
    let r = email_authentication(&store(), &request(Some("key-old"), Some("prod"), Some("billing")), "192.168.1.7");
    assert!(r.is_ok());
}

#[test]
fn names_are_normalized() {
    let r = email_authentication(&store(), &request(Some("  key-new "), Some(" PROD "), Some("Billing")), "10.0.0.1");
    assert!(r.is_ok());
    let n = normalize_auth_request(&request(Some(" K "), Some(" PROD "), None));
    assert_eq!(n.api_key, Some("K".to_string()));
    assert_eq!(n.env_name, Some("prod".to_string()));
    assert_eq!(n.app_name, None);
}

#[test]
fn missing_fields_are_listed() {
    let r = email_authentication(&store(), &request(Some("  "), None, Some("billing")), "10.0.0.1");
    let e = r.unwrap_err();
    assert_eq!(e.status, 400);
    assert_eq!(e.sub_code, "missing_request_body_fields");
    assert_eq!(e.message, "missing required fields");
    assert_eq!(e.fields, vec!["api_key".to_string(), "env_name".to_string()]);
    let all = email_authentication(&store(), &request(None, None, None), "10.0.0.1").unwrap_err();
    assert_eq!(all.fields, vec!["api_key".to_string(), "env_name".to_string(), "app_name".to_string()]);
}

#[test]
fn wrong_key_is_unauthorized() {
    check(
        email_authentication(&store(), &request(Some("nope"), Some("prod"), Some("billing")), "10.0.0.1"),
        401,
        "invalid_api_key",
        "invalid api key",
    );
    check(
        email_authentication(&store(), &request(Some("key-new"), Some("dev"), Some("billing")), "10.0.0.1"),
        401,
        "invalid_api_key",
        "invalid api key",
    );
}

#[test]
fn wrong_key_is_reported_before_address() {
    check(
        email_authentication(&store(), &request(Some("nope"), Some("prod"), Some("billing")), "8.8.8.8"),
        401,
        "invalid_api_key",
        "invalid api key",
    );
}

#[test]
fn address_not_listed_is_forbidden() {
    check(
        email_authentication(&store(), &request(Some("key-new"), Some("prod"), Some("billing")), "8.8.8.8"),
        403,
        "access_denied",
        "your current ip address is not permitted to access this resource",
    );
}

#[test]
fn no_address_list_forbids_everyone() {
    let mut s = AppdataStore::new();
    s.set("prod:crm", "email-api-key-current", text("k"));
    check(
        authenticate(&s, &request(Some("k"), Some("prod"), Some("crm")), "10.0.0.1"),
        403,
        "access_denied",
        "your current ip address is not permitted to access this resource",
    );
}
