//! The send endpoint: the request, its normalization and required fields,
//! the choice of delivery route, and the final reply.

use vstd::prelude::*;
use vstd::string::*;
use crate::appdata::StringMap;
use crate::registry::EmailConf;
use crate::reply::{Reply, ReplyModel, plain_reply, reply_model};
use crate::text::{
    absent_or_empty, is_absent_or_empty, map_all_trim_lower, map_trim, map_trim_lower, opt_all_trim_lower, opt_trim,
    opt_trim_lower, str_eq, views,
};

verus! {

/// An attachment: its file name, its base64 content and its MIME type.
#[derive(Debug)]
pub struct SendEmailRequestAttachment {
    pub filename: String,
    pub content: String,
    pub type_: Option<String>,
}

/// The body of a send request.
#[derive(Debug)]
pub struct SendEmailRequest {
    pub api_key: Option<String>,
    pub env_name: Option<String>,
    pub app_name: Option<String>,
    pub purpose_tag: Option<String>,
    pub send_to: Option<Vec<String>>,
    pub cc_to: Option<Vec<String>>,
    pub bcc_to: Option<Vec<String>>,
    pub reply_to: Option<String>,
    pub subject: Option<String>,
    pub body: Option<String>,
    pub body_type: Option<String>,
    pub headers: Option<StringMap>,
    pub tags: Option<Vec<String>>,
    pub metadata: Option<StringMap>,
    pub attachment: Option<Vec<SendEmailRequestAttachment>>,
}

/// Normalizes a request: the API key, subject and body are trimmed; the
/// names, purpose tag, addresses and body type are trimmed and
/// lower-cased; the rest is kept.
pub fn normalize_send_request(req: SendEmailRequest) -> (r: SendEmailRequest)
    ensures
        r.api_key.deep_view() == opt_trim(req.api_key.deep_view()),
        r.env_name.deep_view() == opt_trim_lower(req.env_name.deep_view()),
        r.app_name.deep_view() == opt_trim_lower(req.app_name.deep_view()),
        r.purpose_tag.deep_view() == opt_trim_lower(req.purpose_tag.deep_view()),
        r.send_to.deep_view() == opt_all_trim_lower(req.send_to.deep_view()),
        r.cc_to.deep_view() == opt_all_trim_lower(req.cc_to.deep_view()),
        r.bcc_to.deep_view() == opt_all_trim_lower(req.bcc_to.deep_view()),
        r.reply_to.deep_view() == opt_trim_lower(req.reply_to.deep_view()),
        r.subject.deep_view() == opt_trim(req.subject.deep_view()),
        r.body.deep_view() == opt_trim(req.body.deep_view()),
        r.body_type.deep_view() == opt_trim_lower(req.body_type.deep_view()),
        r.headers == req.headers,
        r.tags == req.tags,
        r.metadata == req.metadata,
        r.attachment == req.attachment,
{
    let api_key = map_trim(&req.api_key);
    let env_name = map_trim_lower(&req.env_name);
    let app_name = map_trim_lower(&req.app_name);
    let purpose_tag = map_trim_lower(&req.purpose_tag);
    let send_to = map_all_trim_lower(&req.send_to);
    let cc_to = map_all_trim_lower(&req.cc_to);
    let bcc_to = map_all_trim_lower(&req.bcc_to);
    let reply_to = map_trim_lower(&req.reply_to);
    let subject = map_trim(&req.subject);
    let body = map_trim(&req.body);
    let body_type = map_trim_lower(&req.body_type);
    SendEmailRequest {
        api_key,
        env_name,
        app_name,
        purpose_tag,
        send_to,
        cc_to,
        bcc_to,
        reply_to,
        subject,
        body,
        body_type,
        headers: req.headers,
        tags: req.tags,
        metadata: req.metadata,
        attachment: req.attachment,
    }
}

pub open spec fn absent_or_no_items(o: Option<Seq<Seq<char>>>) -> bool {
    match o {
        Some(v) => v.len() == 0,
        None => true,
    }
}

pub open spec fn flag(missing: bool, name: Seq<char>) -> Seq<Seq<char>> {
    if missing { seq![name] } else { Seq::empty() }
}

/// The names of the required fields that are absent or empty, in the
/// order api_key, env_name, app_name, purpose_tag, send_to, subject, body,
/// body_type.
pub open spec fn missing_send_fields(r: SendEmailRequest) -> Seq<Seq<char>> {
    flag(absent_or_empty(r.api_key.deep_view()), "api_key"@)
        + flag(absent_or_empty(r.env_name.deep_view()), "env_name"@)
        + flag(absent_or_empty(r.app_name.deep_view()), "app_name"@)
        + flag(absent_or_empty(r.purpose_tag.deep_view()), "purpose_tag"@)
        + flag(absent_or_no_items(r.send_to.deep_view()), "send_to"@)
        + flag(absent_or_empty(r.subject.deep_view()), "subject"@)
        + flag(absent_or_empty(r.body.deep_view()), "body"@)
        + flag(absent_or_empty(r.body_type.deep_view()), "body_type"@)
}

fn push_flag(out: &mut Vec<String>, missing: bool, name: &str)
    ensures
        views(final(out)@) == views(old(out)@) + flag(missing, name@),
{
    let ghost before = views(out@);
    if missing {
        out.push(String::from_str(name));
        assert(views(out@) =~= before + seq![name@]);
    } else {
        assert(views(out@) =~= before + Seq::<Seq<char>>::empty());
    }
}

/// Rejects a request with absent or empty required fields (400, listing
/// them).
pub fn check_send_fields(req: &SendEmailRequest) -> (r: Result<(), Reply>)
    ensures
        match r {
            Ok(()) => missing_send_fields(*req).len() == 0,
            Err(e) => missing_send_fields(*req).len() > 0 && e@ == (ReplyModel {
                status: 400,
                sub_code: "missing_request_body_fields"@,
                message: "missing required fields"@,
                fields: missing_send_fields(*req),
            }),
        },
{
    let mut missing: Vec<String> = Vec::new();
    assert(views(missing@) =~= Seq::<Seq<char>>::empty());
    push_flag(&mut missing, is_absent_or_empty(&req.api_key), "api_key");
    push_flag(&mut missing, is_absent_or_empty(&req.env_name), "env_name");
    push_flag(&mut missing, is_absent_or_empty(&req.app_name), "app_name");
    push_flag(&mut missing, is_absent_or_empty(&req.purpose_tag), "purpose_tag");
    let no_recipients = match &req.send_to {
        Some(v) => v.len() == 0,
        None => true,
    };
    push_flag(&mut missing, no_recipients, "send_to");
    push_flag(&mut missing, is_absent_or_empty(&req.subject), "subject");
    push_flag(&mut missing, is_absent_or_empty(&req.body), "body");
    push_flag(&mut missing, is_absent_or_empty(&req.body_type), "body_type");
    assert(views(missing@) =~= missing_send_fields(*req));
    if missing.len() > 0 {
        return Err(Reply {
            status: 400,
            sub_code: String::from_str("missing_request_body_fields"),
            message: String::from_str("missing required fields"),
            fields: missing,
        });
    }
    Ok(())
}

/// How a message is delivered.
#[derive(Debug)]
pub enum SendRoute {
    /// Through Gmail's SMTP server, logging in as the sender.
    Gmail { host: String, port: u16, username: String, password: String },
    /// Through SendGrid's web API.
    Sendgrid { api_key: String, from_email: String },
}

pub enum RouteModel {
    Gmail { host: Seq<char>, port: u16, username: Seq<char>, password: Seq<char> },
    Sendgrid { api_key: Seq<char>, from_email: Seq<char> },
}

impl View for SendRoute {
    type V = RouteModel;

    open spec fn view(&self) -> RouteModel {
        match self {
            SendRoute::Gmail { host, port, username, password } => RouteModel::Gmail {
                host: host@,
                port: *port,
                username: username@,
                password: password@,
            },
            SendRoute::Sendgrid { api_key, from_email } => RouteModel::Sendgrid { api_key: api_key@, from_email: from_email@ },
        }
    }
}

/// The delivery route for a registry's sender and configuration: "gmail"
/// over "smtp" needs host, port and password; "sendgrid" over "api" needs
/// the API key; any other provider is not implemented.
pub open spec fn route_outcome(sender: Seq<char>, c: EmailConf) -> Result<RouteModel, ReplyModel> {
    match c.provider {
        None => Err(reply_model(500, "provider not found"@, "provider not found"@)),
        Some(provider) => match c.channel {
            None => Err(reply_model(500, "channel not found"@, "channel not found"@)),
            Some(channel) => if provider@ == "gmail"@ && channel@ == "smtp"@ {
                match (c.host, c.port, c.pass) {
                    (None, _, _) => Err(reply_model(500, "host not found"@, "host not found"@)),
                    (Some(_), None, _) => Err(reply_model(500, "port not found"@, "port not found"@)),
                    (Some(_), Some(_), None) => Err(reply_model(500, "password not found"@, "password not found"@)),
                    (Some(h), Some(p), Some(pw)) => Ok(RouteModel::Gmail { host: h@, port: p as u16, username: sender, password: pw@ }),
                }
            } else if provider@ == "sendgrid"@ && channel@ == "api"@ {
                match c.api_key {
                    None => Err(reply_model(500, "api_key_not_found"@, "api_key not found"@)),
                    Some(k) => Ok(RouteModel::Sendgrid { api_key: k@, from_email: sender }),
                }
            } else {
                Err(
                    reply_model(
                        400,
                        "email_provider_not_implemented"@,
                        "email provider '"@ + provider@ + "' is not implemented yet"@,
                    ),
                )
            },
        },
    }
}

/// Chooses the delivery route.
pub fn select_route(sender_email: &str, conf: &EmailConf) -> (r: Result<SendRoute, Reply>)
    ensures
        match r {
            Ok(route) => route_outcome(sender_email@, *conf) == Ok::<RouteModel, ReplyModel>(route@),
            Err(e) => route_outcome(sender_email@, *conf) == Err::<RouteModel, ReplyModel>(e@),
        },
{
    let provider = match &conf.provider {
        Some(p) => p,
        None => {
            return Err(plain_reply(500, "provider not found", "provider not found"));
        },
    };
    let channel = match &conf.channel {
        Some(c) => c,
        None => {
            return Err(plain_reply(500, "channel not found", "channel not found"));
        },
    };
    if str_eq(provider.as_str(), "gmail") && str_eq(channel.as_str(), "smtp") {
        let host = match &conf.host {
            Some(h) => h,
            None => {
                return Err(plain_reply(500, "host not found", "host not found"));
            },
        };
        let port = match conf.port {
            Some(p) => p,
            None => {
                return Err(plain_reply(500, "port not found", "port not found"));
            },
        };
        let password = match &conf.pass {
            Some(p) => p,
            None => {
                return Err(plain_reply(500, "password not found", "password not found"));
            },
        };
        Ok(
            SendRoute::Gmail {
                host: host.clone(),
                port: port as u16,
                username: String::from_str(sender_email),
                password: password.clone(),
            },
        )
    } else if str_eq(provider.as_str(), "sendgrid") && str_eq(channel.as_str(), "api") {
        match &conf.api_key {
            Some(k) => Ok(SendRoute::Sendgrid { api_key: k.clone(), from_email: String::from_str(sender_email) }),
            None => Err(plain_reply(500, "api_key_not_found", "api_key not found")),
        }
    } else {
        let mut m = String::from_str("email provider '");
        m.append(provider.as_str());
        m.append("' is not implemented yet");
        Err(plain_reply(400, "email_provider_not_implemented", m.as_str()))
    }
}

/// The reply after delivery: 200 "success" when it went through, 400
/// "send_email_failed" with the delivery error otherwise.
pub fn delivery_reply(result: &Result<(), String>) -> (r: Reply)
    ensures
        match result {
            Ok(()) => r@ == reply_model(200, "success"@, "email sent successfully"@),
            Err(e) => r@ == reply_model(400, "send_email_failed"@, e@),
        },
{
    match result {
        Ok(()) => plain_reply(200, "success", "email sent successfully"),
        Err(e) => plain_reply(400, "send_email_failed", e.as_str()),
    }
}

} // verus!
