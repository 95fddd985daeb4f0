//! The authentication precondition: a caller names its environment and
//! application and presents an API key, from an allowed address.

use vstd::prelude::*;
use vstd::string::*;
use crate::access::{appdata_list, get_vec_appdata, ip_permitted, permitted_by};
use crate::appdata::{AppdataStore, StoreModel, appdata_as, env_app, env_app_name, get_appdata};
use crate::reply::{Reply, ReplyModel, plain_reply, reply_model};
use crate::text::{
    absent_or_empty, is_absent_or_empty, map_trim, map_trim_lower, opt_trim, opt_trim_lower, str_eq, views,
};

verus! {

/// The body of an authentication request.
#[derive(Debug)]
pub struct PreconditionEmailAuthenticationRequest {
    pub api_key: Option<String>,
    pub env_name: Option<String>,
    pub app_name: Option<String>,
}

pub struct AuthRequestModel {
    pub api_key: Option<Seq<char>>,
    pub env_name: Option<Seq<char>>,
    pub app_name: Option<Seq<char>>,
}

impl View for PreconditionEmailAuthenticationRequest {
    type V = AuthRequestModel;

    open spec fn view(&self) -> AuthRequestModel {
        AuthRequestModel {
            api_key: self.api_key.deep_view(),
            env_name: self.env_name.deep_view(),
            app_name: self.app_name.deep_view(),
        }
    }
}

/// The request as it is checked: the key trimmed, the names trimmed and
/// lower-cased.
pub open spec fn normalized_auth(m: AuthRequestModel) -> AuthRequestModel {
    AuthRequestModel {
        api_key: opt_trim(m.api_key),
        env_name: opt_trim_lower(m.env_name),
        app_name: opt_trim_lower(m.app_name),
    }
}

pub fn normalize_auth_request(req: &PreconditionEmailAuthenticationRequest) -> (r: PreconditionEmailAuthenticationRequest)
    ensures
        r@ == normalized_auth(req@),
{
    PreconditionEmailAuthenticationRequest {
        api_key: map_trim(&req.api_key),
        env_name: map_trim_lower(&req.env_name),
        app_name: map_trim_lower(&req.app_name),
    }
}

/// The names of the required fields that are absent or empty, in the
/// order api_key, env_name, app_name.
pub open spec fn missing_auth_fields(m: AuthRequestModel) -> Seq<Seq<char>> {
    (if absent_or_empty(m.api_key) { seq!["api_key"@] } else { Seq::empty() })
        + (if absent_or_empty(m.env_name) { seq!["env_name"@] } else { Seq::empty() })
        + (if absent_or_empty(m.app_name) { seq!["app_name"@] } else { Seq::empty() })
}

/// Whether `key` is the current or the expired API key of the pair.
pub open spec fn key_accepted(store: StoreModel, env_app: Seq<char>, key: Seq<char>) -> bool {
    appdata_as::<String>(store, env_app, "email-api-key-current"@) == Some(key)
        || appdata_as::<String>(store, env_app, "email-api-key-expired"@) == Some(key)
}

/// The addresses allowed for the pair (none when unset).
pub open spec fn allowed_addresses(store: StoreModel, env_app: Seq<char>) -> Seq<Seq<char>> {
    match appdata_list(store, env_app, "email-allowed-ips"@, ',') {
        Some(l) => l,
        None => Seq::empty(),
    }
}

/// The outcome of checking an already normalized request from `ip`.
pub open spec fn auth_outcome(store: StoreModel, m: AuthRequestModel, ip: Seq<char>) -> Result<(), ReplyModel> {
    let missing = missing_auth_fields(m);
    if missing.len() > 0 {
        Err(ReplyModel { status: 400, sub_code: "missing_request_body_fields"@, message: "missing required fields"@, fields: missing })
    } else {
        let pair = env_app_name(m.env_name.unwrap(), m.app_name.unwrap());
        if !key_accepted(store, pair, m.api_key.unwrap()) {
            Err(reply_model(401, "invalid_api_key"@, "invalid api key"@))
        } else if !permitted_by(ip, allowed_addresses(store, pair)) {
            Err(reply_model(403, "access_denied"@, "your current ip address is not permitted to access this resource"@))
        } else {
            Ok(())
        }
    }
}

pub open spec fn same_outcome(r: Result<(), Reply>, s: Result<(), ReplyModel>) -> bool {
    match r {
        Ok(()) => s is Ok,
        Err(e) => s == Err::<(), ReplyModel>(e@),
    }
}

/// Checks a normalized request: all three fields present, the key equal to
/// the pair's current or expired key, and `client_ip` admitted by the
/// pair's "email-allowed-ips" list.
pub fn authenticate(store: &AppdataStore, req: &PreconditionEmailAuthenticationRequest, client_ip: &str) -> (r: Result<(), Reply>)
    ensures
        same_outcome(r, auth_outcome(store@, req@, client_ip@)),
{
    let mut missing: Vec<String> = Vec::new();
    if is_absent_or_empty(&req.api_key) {
        missing.push(String::from_str("api_key"));
    }
    if is_absent_or_empty(&req.env_name) {
        missing.push(String::from_str("env_name"));
    }
    if is_absent_or_empty(&req.app_name) {
        missing.push(String::from_str("app_name"));
    }
    assert(views(missing@) =~= missing_auth_fields(req@));
    if missing.len() > 0 {
        return Err(Reply {
            status: 400,
            sub_code: String::from_str("missing_request_body_fields"),
            message: String::from_str("missing required fields"),
            fields: missing,
        });
    }
    let (key, env, app) = match (&req.api_key, &req.env_name, &req.app_name) {
        (Some(k), Some(e), Some(a)) => (k, e, a),
        _ => {
            return Err(plain_reply(400, "missing_request_body_fields", "missing required fields"));
        },
    };
    let pair = env_app(env.as_str(), app.as_str());
    let mut valid = false;
    if let Some(current) = get_appdata::<String>(store, pair.as_str(), "email-api-key-current") {
        valid = str_eq(current.as_str(), key.as_str());
    }
    if !valid {
        if let Some(expired) = get_appdata::<String>(store, pair.as_str(), "email-api-key-expired") {
            valid = str_eq(expired.as_str(), key.as_str());
        }
    }
    if !valid {
        return Err(plain_reply(401, "invalid_api_key", "invalid api key"));
    }
    let allowed: Vec<String> = match get_vec_appdata(store, pair.as_str(), "email-allowed-ips", ',') {
        Some(l) => l,
        None => Vec::new(),
    };
    assert(views(allowed@) =~= allowed_addresses(store@, pair@));
    if !ip_permitted(client_ip, &allowed) {
        return Err(plain_reply(403, "access_denied", "your current ip address is not permitted to access this resource"));
    }
    Ok(())
}

/// The whole precondition: normalizes the request, then checks it.
pub fn email_authentication(store: &AppdataStore, req: &PreconditionEmailAuthenticationRequest, client_ip: &str) -> (r: Result<(), Reply>)
    ensures
        same_outcome(r, auth_outcome(store@, normalized_auth(req@), client_ip@)),
{
    let n = normalize_auth_request(req);
    authenticate(store, &n, client_ip)
}


/// A request with all three fields is accepted exactly when its key is the
/// pair's current or expired key and the caller's address is on the pair's
/// list; so a client keeps working with the expired key while keys rotate.
pub proof fn lemma_auth_accepts_exactly(store: StoreModel, m: AuthRequestModel, ip: Seq<char>)
    requires
        missing_auth_fields(m).len() == 0,
    ensures
        auth_outcome(store, m, ip) is Ok <==> (key_accepted(
            store,
            env_app_name(m.env_name.unwrap(), m.app_name.unwrap()),
            m.api_key.unwrap(),
        ) && permitted_by(ip, allowed_addresses(store, env_app_name(m.env_name.unwrap(), m.app_name.unwrap())))),
{
}

/// A request that lacks a field is refused with 400 whatever the store
/// holds and wherever it comes from, naming exactly the missing fields.
pub proof fn lemma_missing_fields_first(store: StoreModel, m: AuthRequestModel, ip: Seq<char>)
    requires
        missing_auth_fields(m).len() > 0,
    ensures
        auth_outcome(store, m, ip) is Err,
        auth_outcome(store, m, ip)->Err_0.status == 400,
        auth_outcome(store, m, ip)->Err_0.fields == missing_auth_fields(m),
{
}

} // verus!
