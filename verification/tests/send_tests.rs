use notify_api::appdata::StringMap;
use notify_api::mime::{build_mime_message, recipients};
use notify_api::registry::{
    first_registry, proxy_email_config, proxy_registry_uids, registry_uids_for_purpose, rules_query_args,
    send_registry_uids, wildcard_registry_uids, EmailConf, EmailConfig, EmailRegistry, EmailRules,
};
use notify_api::reply::{envelope, finalize_response, plain_reply, FinalResponse, ResponseBody};
use notify_api::send::{
    check_send_fields, delivery_reply, normalize_send_request, select_route, SendEmailRequest, SendEmailRequestAttachment,
    SendRoute,
};
use notify_api::sendgrid::{build_sendgrid_payload, sendgrid_outcome};

fn s(v: &str) -> String {
    v.to_string()
}

fn empty_request() -> SendEmailRequest {
    SendEmailRequest {
        api_key: None,
        env_name: None,
        app_name: None,
        purpose_tag: None,
        send_to: None,
        cc_to: None,
        bcc_to: None,
        reply_to: None,
        subject: None,
        body: None,
        body_type: None,
        headers: None,
        tags: None,
        metadata: None,
        attachment: None,
    }
}

fn full_request() -> SendEmailRequest {
    SendEmailRequest {
        api_key: Some(s("k")),
        env_name: Some(s("prod")),
        app_name: Some(s("billing")),
        purpose_tag: Some(s("invoice")),
        send_to: Some(vec![s("a@x.io"), s("b@x.io")]),
        cc_to: Some(vec![s("c@x.io")]),
        bcc_to: Some(vec![s("d@x.io")]),
        reply_to: Some(s("r@x.io")),
        subject: Some(s("Hi")),
        body: Some(s("<b>x</b>")),
        body_type: Some(s("html")),
        headers: Some(StringMap { entries: vec![(s("X-A"), s("1"))] }),
        tags: Some(vec![s("t1")]),
        metadata: Some(StringMap { entries: vec![(s("order"), s("42"))] }),
        attachment: None,
    }
}

fn conf() -> EmailConf {
    EmailConf { provider: None, channel: None, host: None, port: None, user: None, pass: None, api_key: None }
}

fn rule(uid: &str, tags: &str) -> EmailRules {
    EmailRules { email_registry_uid: s(uid), tags: s(tags) }
}

#[test]
fn normalization_trims_and_lowercases() {
    let mut req = empty_request();
    req.api_key = Some(s(" Key "));
    req.env_name = Some(s(" PROD"));
    req.send_to = Some(vec![s(" A@X.io "), s("b@x.IO")]);
    req.subject = Some(s("  Hello World "));
    req.body_type = Some(s(" HTML "));
    req.tags = Some(vec![s(" Keep ")]);
    let n = normalize_send_request(req);
    assert_eq!(n.api_key, Some(s("Key")));
    assert_eq!(n.env_name, Some(s("prod")));
    assert_eq!(n.send_to, Some(vec![s("a@x.io"), s("b@x.io")]));
    assert_eq!(n.subject, Some(s("Hello World")));
    assert_eq!(n.body_type, Some(s("html")));
    assert_eq!(n.tags, Some(vec![s(" Keep ")]));
}

#[test]
fn missing_send_fields_in_order() {
    let e = check_send_fields(&empty_request()).unwrap_err();
    assert_eq!(e.status, 400);
    assert_eq!(e.sub_code, "missing_request_body_fields");
    assert_eq!(
        e.fields,
        vec![s("api_key"), s("env_name"), s("app_name"), s("purpose_tag"), s("send_to"), s("subject"), s("body"), s("body_type")]
    );
    let mut req = full_request();
    req.send_to = Some(vec![]);
    req.body = Some(s(""));
    assert_eq!(check_send_fields(&req).unwrap_err().fields, vec![s("send_to"), s("body")]);
    assert!(check_send_fields(&full_request()).is_ok());
}

#[test]
fn gmail_route() {
    let mut c = conf();
    c.provider = Some(s("gmail"));
    c.channel = Some(s("smtp"));
    c.host = Some(s("smtp.gmail.com"));
    c.port = Some(587);
    c.pass = Some(s("app-pass"));
    match select_route("sender@x.io", &c).unwrap() {
        SendRoute::Gmail { host, port, username, password } => {
            assert_eq!(host, "smtp.gmail.com");
            assert_eq!(port, 587);
            assert_eq!(username, "sender@x.io");
            assert_eq!(password, "app-pass");
        },
        other => panic!("unexpected route {:?}", other),
    }
}

#[test]
fn sendgrid_route() {
    let mut c = conf();
    c.provider = Some(s("sendgrid"));
    c.channel = Some(s("api"));
    c.api_key = Some(s("SG.key"));
    assert!(matches!(select_route("s@x.io", &c), Ok(SendRoute::Sendgrid { api_key, from_email }) if api_key == "SG.key" && from_email == "s@x.io"));
    c.api_key = None;
    let e = select_route("s@x.io", &c).unwrap_err();
    assert_eq!((e.status, e.sub_code.as_str(), e.message.as_str()), (500, "api_key_not_found", "api_key not found"));
}

#[test]
fn route_errors() {
    let e = select_route("s", &conf()).unwrap_err();
    assert_eq!((e.status, e.sub_code.as_str()), (500, "provider not found"));
    let mut c = conf();
    c.provider = Some(s("gmail"));
    assert_eq!(select_route("s", &c).unwrap_err().sub_code, "channel not found");
    c.channel = Some(s("smtp"));
    assert_eq!(select_route("s", &c).unwrap_err().sub_code, "host not found");
    c.host = Some(s("h"));
    assert_eq!(select_route("s", &c).unwrap_err().sub_code, "port not found");
    c.port = Some(70000);
    assert_eq!(select_route("s", &c).unwrap_err().sub_code, "password not found");
    c.pass = Some(s("p"));
    assert!(matches!(select_route("s", &c), Ok(SendRoute::Gmail { port: 4464, .. })));
    c.provider = Some(s("mailgun"));
    let e = select_route("s", &c).unwrap_err();
    assert_eq!(e.status, 400);
    assert_eq!(e.sub_code, "email_provider_not_implemented");
    assert_eq!(e.message, "email provider 'mailgun' is not implemented yet");
}

#[test]
fn delivery_replies() {
    let ok = delivery_reply(&Ok(()));
    assert_eq!((ok.status, ok.sub_code.as_str(), ok.message.as_str()), (200, "success", "email sent successfully"));
    let bad = delivery_reply(&Err(s("TLS handshake failed")));
    assert_eq!((bad.status, bad.sub_code.as_str(), bad.message.as_str()), (400, "send_email_failed", "TLS handshake failed"));
}

#[test]
fn mime_single_part() {
    let mut req = full_request();
    req.body_type = Some(s("text/plain"));
    req.body = Some(s("plain body"));
    let m = build_mime_message(&req, "me@x.io");
    assert_eq!(
        m,
        "From: me@x.io\r\nTo: a@x.io, b@x.io\r\nCc: c@x.io\r\nReply-To: r@x.io\r\nX-A: 1\r\nSubject: Hi\r\nMIME-Version: 1.0\r\nContent-Type: text/plain; charset=utf-8\r\n\r\nplain body"
    );
}

#[test]
fn mime_with_attachment() {
    let mut req = empty_request();
    req.body = Some(s("see file"));
    req.body_type = Some(s("HTML"));
    req.attachment = Some(vec![
        SendEmailRequestAttachment { filename: s("a.txt"), content: s("aGk="), type_: Some(s("text/plain")) },
        SendEmailRequestAttachment { filename: s("b.bin"), content: s("AA=="), type_: None },
    ]);
    let m = build_mime_message(&req, "me@x.io");
    let expected = "From: me@x.io\r\nSubject: \r\nMIME-Version: 1.0\r\n\
Content-Type: multipart/mixed; boundary=\"----=_Part_notify_api_123456789\"\r\n\r\n\
------=_Part_notify_api_123456789\r\nContent-Type: text/html; charset=utf-8\r\n\r\nsee file\r\n\
------=_Part_notify_api_123456789\r\nContent-Type: text/plain\r\nContent-Transfer-Encoding: base64\r\nContent-Disposition: attachment; filename=\"a.txt\"\r\n\r\naGk=\r\n\
------=_Part_notify_api_123456789\r\nContent-Type: application/octet-stream\r\nContent-Transfer-Encoding: base64\r\nContent-Disposition: attachment; filename=\"b.bin\"\r\n\r\nAA==\r\n\
------=_Part_notify_api_123456789--\r\n";
    assert_eq!(m, expected);
}

#[test]
fn empty_attachment_list_is_single_part() {
    let mut req = empty_request();
    req.attachment = Some(vec![]);
    req.body = Some(s("x"));
    assert!(build_mime_message(&req, "u").ends_with("Content-Type: text/plain; charset=utf-8\r\n\r\nx"));
}

#[test]
fn smtp_recipients_in_order() {
    assert_eq!(recipients(&full_request()), vec![s("a@x.io"), s("b@x.io"), s("c@x.io"), s("d@x.io")]);
    assert!(recipients(&empty_request()).is_empty());
}

#[test]
fn sendgrid_payload_fields() {
    let mut req = full_request();
    req.attachment = Some(vec![SendEmailRequestAttachment { filename: s("a.pdf"), content: s("JVBE"), type_: None }]);
    let p = build_sendgrid_payload(req, "from@x.io");
    assert_eq!(p.personalizations.len(), 1);
    let to: Vec<String> = p.personalizations[0].to.iter().map(|e| e.email.clone()).collect();
    assert_eq!(to, vec![s("a@x.io"), s("b@x.io")]);
    assert_eq!(p.personalizations[0].cc.as_ref().unwrap()[0].email, "c@x.io");
    assert_eq!(p.personalizations[0].bcc.as_ref().unwrap()[0].email, "d@x.io");
    assert_eq!(p.from.email, "from@x.io");
    assert_eq!(p.reply_to.as_ref().unwrap().email, "r@x.io");
    assert_eq!(p.subject, "Hi");
    assert_eq!(p.content.len(), 1);
    assert_eq!(p.content[0].type_, "text/html");
    assert_eq!(p.content[0].value, "<b>x</b>");
    let att = &p.attachments.as_ref().unwrap()[0];
    assert_eq!((att.filename.as_str(), att.content.as_str()), ("a.pdf", "JVBE"));
    assert_eq!(att.type_, None);
    assert_eq!(att.disposition, Some(s("attachment")));
    assert_eq!(p.headers.as_ref().unwrap().entries, vec![(s("X-A"), s("1"))]);
    assert_eq!(
        p.custom_args.as_ref().unwrap().entries,
        vec![(s("env_name"), s("prod")), (s("app_name"), s("billing")), (s("order"), s("42"))]
    );
    assert_eq!(p.categories.unwrap(), vec![s("prod"), s("billing"), s("invoice"), s("t1")]);
}

#[test]
fn sendgrid_payload_defaults() {
    let p = build_sendgrid_payload(empty_request(), "f@x.io");
    assert!(p.personalizations[0].to.is_empty());
    assert!(p.personalizations[0].cc.is_none());
    assert!(p.reply_to.is_none());
    assert_eq!(p.subject, "");
    assert_eq!(p.content[0].type_, "text/plain");
    assert!(p.attachments.is_none());
    assert_eq!(p.custom_args.unwrap().entries, vec![(s("env_name"), s("")), (s("app_name"), s(""))]);
    assert_eq!(p.categories.unwrap(), vec![s(""), s(""), s("")]);
}

#[test]
fn proxy_picks_first_usable_registry() {
    let mut broken = conf();
    broken.provider = Some(s("gmail"));
    broken.channel = Some(s("smtp"));
    broken.host = Some(s("h1"));
    let mut good = conf();
    good.provider = Some(s("gmail"));
    good.channel = Some(s("smtp"));
    good.host = Some(s("smtp.gmail.com"));
    good.port = Some(587);
    good.user = Some(s("u"));
    good.pass = Some(s("p"));
    let mut api = conf();
    api.provider = Some(s("sendgrid"));
    api.channel = Some(s("api"));
    api.host = Some(s("api.sendgrid.com"));
    api.api_key = Some(s("k"));
    match proxy_email_config(&vec![broken, good, api]).unwrap() {
        EmailConfig::Smtp(c) => assert_eq!((c.host.as_str(), c.port, c.user.as_str()), ("smtp.gmail.com", 587, "u")),
        other => panic!("unexpected {:?}", other),
    }
    let mut api2 = conf();
    api2.provider = Some(s("sendgrid"));
    api2.channel = Some(s("api"));
    api2.host = Some(s("api.sendgrid.com"));
    api2.api_key = Some(s("k"));
    assert!(matches!(proxy_email_config(&vec![api2]), Ok(EmailConfig::Api(a)) if a.api_key == "k"));
}

#[test]
fn proxy_registry_errors() {
    assert_eq!(proxy_email_config(&vec![]).unwrap_err(), "no active email registry found");
    assert_eq!(proxy_email_config(&vec![conf()]).unwrap_err(), "no available registry can be used");
    assert_eq!(proxy_registry_uids(&vec![]).unwrap_err(), "no email rules allowed for this credential");
    assert_eq!(proxy_registry_uids(&vec![rule("r1", "invoice")]).unwrap_err(), "no email registry found for this credential");
    assert_eq!(proxy_registry_uids(&vec![rule("r1", "invoice"), rule("r2", "#*,x")]).unwrap(), vec![s("r2")]);
}

#[test]
fn wildcard_rules_by_substring() {
    let rules = vec![rule("r1", "#*"), rule("r2", "a, b"), rule("r3", "x,#*y")];
    assert_eq!(wildcard_registry_uids(&rules), vec![s("r1"), s("r3")]);
}

#[test]
fn rule_query_arguments() {
    assert_eq!(rules_query_args("prod", "billing"), vec![s("*:*"), s("*:billing"), s("prod:billing")]);
}

#[test]
fn purpose_grants() {
    let rules = vec![rule("r1", "#*"), rule("r2", " invoice , receipt,invoice"), rule("r3", "receipt")];
    assert_eq!(registry_uids_for_purpose(&rules, "invoice"), vec![s("r1"), s("r2"), s("r2")]);
    assert_eq!(registry_uids_for_purpose(&rules, "receipt"), vec![s("r1"), s("r2"), s("r3")]);
    assert_eq!(registry_uids_for_purpose(&rules, "other"), vec![s("r1")]);
}

#[test]
fn wildcard_registries_serve_every_purpose() {
    let rules = vec![rule("r1", "a"), rule("r2", "#*")];
    for purpose in ["a", "b", ""] {
        assert!(registry_uids_for_purpose(&rules, purpose).contains(&s("r2")));
    }
}

#[test]
fn send_rule_check() {
    let e = send_registry_uids(&vec![], "invoice").unwrap_err();
    assert_eq!((e.status, e.sub_code.as_str(), e.message.as_str()), (403, "access_denied", "your application is not allowed to send email"));
    let e = send_registry_uids(&vec![rule("r1", "a")], "invoice").unwrap_err();
    assert_eq!(e.message, "purpose tag 'invoice' is not allowed");
    assert_eq!(send_registry_uids(&vec![rule("r1", "invoice")], "invoice").unwrap(), vec![s("r1")]);
}

#[test]
fn first_active_registry() {
    let e = first_registry(&vec![]).unwrap_err();
    assert_eq!((e.status, e.message.as_str()), (403, "no active email configuration registry found"));
    let regs = vec![
        EmailRegistry { sender_email: s("one@x.io"), email_conf: conf() },
        EmailRegistry { sender_email: s("two@x.io"), email_conf: conf() },
    ];
    assert_eq!(first_registry(&regs).unwrap().sender_email, "one@x.io");
}

#[test]
fn envelopes() {
    let e = envelope(500, None, Some("boom"), true, false);
    assert_eq!(e.code, 500);
    assert_eq!(e.sub_code, Some(s("internal-server-error")));
    assert_eq!(e.message, Some(s("boom")));
    assert!(!e.include_data);
    assert!(!e.success);
    let e = envelope(200, Some("success"), None, false, true);
    assert_eq!(e.sub_code, Some(s("success")));
    assert_eq!(e.message, None);
    assert!(e.include_data && e.include_extra && e.success);
    assert_eq!(envelope(404, None, None, true, false).sub_code, None);
    assert!(envelope(299, None, None, true, false).success);
    assert!(!envelope(300, None, None, true, false).success);
}

#[test]
fn final_responses() {
    assert!(matches!(finalize_response(None), FinalResponse::Text { status: 422, text } if text.is_empty()));
    assert!(matches!(finalize_response(Some((500, ResponseBody::Text(s("x"))))), FinalResponse::ServerError));
    assert!(matches!(finalize_response(Some((201, ResponseBody::Json(s("{}"))))), FinalResponse::Json { status: 201, json } if json == "{}"));
    assert!(matches!(finalize_response(Some((400, ResponseBody::Text(s("bad"))))), FinalResponse::Text { status: 400, text } if text == "bad"));
    assert!(matches!(finalize_response(Some((200, ResponseBody::Other))), FinalResponse::Text { status: 200, text } if text.is_empty()));
}

#[test]
fn plain_replies_have_no_fields() {
    let r = plain_reply(401, "invalid_api_key", "invalid api key");
    assert_eq!((r.status, r.sub_code.as_str(), r.message.as_str()), (401, "invalid_api_key", "invalid api key"));
    assert!(r.fields.is_empty());
}

#[test]
fn sendgrid_metadata_wins_over_names() {
    let mut req = full_request();
    req.metadata = Some(StringMap { entries: vec![(s("env_name"), s("override")), (s("k"), s("v"))] });
    let p = build_sendgrid_payload(req, "f@x.io");
    let args: std::collections::HashMap<String, String> = p.custom_args.unwrap().entries.into_iter().collect();
    assert_eq!(args.get("env_name"), Some(&s("override")));
    assert_eq!(args.get("app_name"), Some(&s("billing")));
    assert_eq!(args.get("k"), Some(&s("v")));
    assert_eq!(args.len(), 3);
}

#[test]
fn sendgrid_answers() {
    assert_eq!(sendgrid_outcome(202, "202 Accepted", ""), Ok(()));
    assert_eq!(
        sendgrid_outcome(400, "400 Bad Request", "{\"errors\":[]}"),
        Err("SendGrid API failed with status 400 Bad Request: {\"errors\":[]}".to_string())
    );
    assert!(sendgrid_outcome(300, "300 Multiple Choices", "").is_err());
}
