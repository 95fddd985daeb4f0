use notify_api::registry::{EmailApi, EmailConfig, EmailSmtp};
use notify_api::smtp::{
    auth_login_line, ip_gate, mail_from_command, rate_limit_refusal, rcpt_to_command, relay_auth_reply, relay_config,
    reply_accepts_auth, reply_line, ReplyProgress, SmtpAction, SmtpInput, SmtpPhase, SmtpReply, SmtpSession,
};

fn line(s: &str) -> SmtpInput {
    SmtpInput::Line(s.to_string())
}

fn replies(actions: &[SmtpAction]) -> Vec<String> {
    actions
        .iter()
        .filter_map(|a| match a {
            SmtpAction::Reply(r) => Some(r.clone()),
            _ => None,
        })
        .collect()
}

fn started() -> SmtpSession {
    let (session, _) = SmtpSession::start();
    session
}

#[test]
fn greeting_is_sent_and_flushed() {
    let (session, actions) = SmtpSession::start();
    assert!(matches!(session.phase, SmtpPhase::Command));
    assert_eq!(actions.len(), 2);
    assert!(matches!(&actions[0], SmtpAction::Reply(r) if r == "220 notify smtp proxy ready\r\n"));
    assert!(matches!(actions[1], SmtpAction::Flush));
}

#[test]
fn ehlo_and_helo_list_capabilities() {
    for cmd in ["EHLO client.example\r\n", "helo x\r\n", "  Ehlo\r\n"] {
        let mut s = started();
        let actions = s.step(line(cmd));
        assert_eq!(replies(&actions), vec!["250-notify\r\n250-AUTH LOGIN PLAIN\r\n250 8BITMIME\r\n".to_string()]);
        assert!(matches!(actions[1], SmtpAction::Flush));
        assert!(matches!(s.phase, SmtpPhase::Command));
    }
}

#[test]
fn empty_line_is_ignored() {
    let mut s = started();
    let actions = s.step(line("   \r\n"));
    assert!(actions.is_empty());
    assert!(matches!(s.phase, SmtpPhase::Command));
}

#[test]
fn unknown_command_needs_authentication() {
    let mut s = started();
    let actions = s.step(line("MAIL FROM:<a@b.c>\r\n"));
    assert_eq!(replies(&actions), vec!["530 5.7.0 Must authenticate first\r\n".to_string()]);
    assert!(matches!(actions[1], SmtpAction::Flush));
    assert!(matches!(s.phase, SmtpPhase::Command));
}

#[test]
fn auth_login_dialogue_asks_for_lookup() {
    let mut s = started();
    let a = s.step(line("AUTH LOGIN\r\n"));
    assert_eq!(replies(&a), vec!["334 VXNlcm5hbWU6\r\n".to_string()]);
    assert!(matches!(s.phase, SmtpPhase::LoginUser));
    let a = s.step(line("YWxpY2U=\r\n"));
    assert_eq!(replies(&a), vec!["334 UGFzc3dvcmQ6\r\n".to_string()]);
    let a = s.step(line(" c2VjcmV0 \r\n"));
    assert_eq!(a.len(), 1);
    assert!(matches!(&a[0], SmtpAction::LookupUser { user, pass } if user == "alice" && pass == "secret"));
    assert!(matches!(s.phase, SmtpPhase::AwaitLookup));
}

#[test]
fn found_lookup_authenticates() {
    let mut s = started();
    s.step(line("auth login\r\n"));
    s.step(line("YWxpY2U=\r\n"));
    s.step(line("c2VjcmV0\r\n"));
    let a = s.step(SmtpInput::LookupFound);
    assert!(a.is_empty());
    assert!(matches!(s.phase, SmtpPhase::Authenticated));
    let a = s.step(line("QUIT\r\n"));
    assert!(a.is_empty());
    assert!(matches!(s.phase, SmtpPhase::Authenticated));
}

#[test]
fn failed_lookup_rejects_and_waits_for_commands() {
    let mut s = started();
    s.step(line("AUTH LOGIN\r\n"));
    s.step(line("YWxpY2U=\r\n"));
    s.step(line("d3Jvbmc=\r\n"));
    let a = s.step(SmtpInput::LookupFailed);
    assert_eq!(replies(&a), vec!["535 Authentication failed\r\n".to_string()]);
    assert!(matches!(a[1], SmtpAction::Flush));
    assert!(matches!(s.phase, SmtpPhase::Command));
}

#[test]
fn undecodable_login_is_rejected_without_flush() {
    let mut s = started();
    s.step(line("AUTH LOGIN\r\n"));
    s.step(line("not base64!\r\n"));
    let a = s.step(line("c2VjcmV0\r\n"));
    assert_eq!(a.len(), 1);
    assert_eq!(replies(&a), vec!["535 Authentication credentials invalid\r\n".to_string()]);
    assert!(matches!(s.phase, SmtpPhase::Command));
}

#[test]
fn auth_plain_inline_payload() {
    let mut s = started();
    let a = s.step(line("AUTH PLAIN AGFsaWNlAHNlY3JldA==\r\n"));
    assert!(matches!(&a[0], SmtpAction::LookupUser { user, pass } if user == "alice" && pass == "secret"));
    assert!(matches!(s.phase, SmtpPhase::AwaitLookup));
}

#[test]
fn auth_plain_prompted_payload() {
    let mut s = started();
    let a = s.step(line("auth plain\r\n"));
    assert_eq!(replies(&a), vec!["334 \r\n".to_string()]);
    assert!(matches!(s.phase, SmtpPhase::PlainPayload));
    let a = s.step(line("  YXV0aHoAYm9iAHB3ZA==  \r\n"));
    assert!(matches!(&a[0], SmtpAction::LookupUser { user, pass } if user == "bob" && pass == "pwd"));
}

#[test]
fn auth_plain_with_too_few_parts_fails() {
    let mut s = started();
    let a = s.step(line("AUTH PLAIN YWxpY2UAc2VjcmV0\r\n"));
    assert_eq!(replies(&a), vec!["535 Authentication failed\r\n".to_string()]);
    assert!(matches!(a[1], SmtpAction::Flush));
    assert!(matches!(s.phase, SmtpPhase::Command));
}

#[test]
fn auth_plain_undecodable_is_invalid() {
    let mut s = started();
    let a = s.step(line("AUTH PLAIN %%%\r\n"));
    assert_eq!(replies(&a), vec!["535 Authentication credentials invalid\r\n".to_string()]);
    assert_eq!(a.len(), 1);
}

#[test]
fn auth_plain_payload_is_cut_by_bytes() {
    let mut s = started();
    let a = s.step(line("auth pla\u{131}n AGFsaWNlAHNlY3JldA==\r\n"));
    assert_eq!(replies(&a), vec!["535 Authentication credentials invalid\r\n".to_string()]);
}

#[test]
fn quit_says_bye_and_closes() {
    let mut s = started();
    let a = s.step(line("quit\r\n"));
    assert_eq!(a.len(), 3);
    assert_eq!(replies(&a), vec!["221 Bye\r\n".to_string()]);
    assert!(matches!(a[1], SmtpAction::Flush));
    assert!(matches!(a[2], SmtpAction::Close));
    assert!(matches!(s.phase, SmtpPhase::Closed));
    assert!(s.step(line("EHLO x\r\n")).is_empty());
}

#[test]
fn disconnect_before_authentication_closes() {
    let mut s = started();
    s.step(line("AUTH LOGIN\r\n"));
    let a = s.step(SmtpInput::Disconnected);
    assert_eq!(a.len(), 1);
    assert!(matches!(a[0], SmtpAction::Close));
    assert!(matches!(s.phase, SmtpPhase::Closed));
}

#[test]
fn lookup_outcome_without_pending_lookup_is_ignored() {
    let mut s = started();
    assert!(s.step(SmtpInput::LookupFound).is_empty());
    assert!(matches!(s.phase, SmtpPhase::Command));
}

#[test]
fn reply_lines_end_at_space_separator() {
    assert_eq!(reply_line("250-notify\r\n"), ("250-notify".to_string(), false));
    assert_eq!(reply_line("250 8BITMIME\r\n"), ("250 8BITMIME".to_string(), true));
    assert_eq!(reply_line("ok\r\n"), ("ok".to_string(), true));
    assert_eq!(reply_line("2500\r\n\r\n"), ("2500".to_string(), false));
    assert_eq!(reply_line("250"), ("250".to_string(), true));
}

#[test]
fn reply_collects_lines_until_complete() {
    let mut reply = SmtpReply::new();
    assert_eq!(reply.feed(Some("250-first\r\n")), ReplyProgress::More);
    assert_eq!(reply.feed(Some("250 last\r\n")), ReplyProgress::Complete);
    assert_eq!(reply.lines, vec!["250-first".to_string(), "250 last".to_string()]);
    assert_eq!(reply.feed(None), ReplyProgress::Eof);
    assert_eq!(reply.lines.len(), 2);
}

#[test]
fn relay_authentication_outcome() {
    assert!(reply_accepts_auth(&vec!["235 2.7.0 Accepted".to_string()]));
    assert!(!reply_accepts_auth(&vec![]));
    assert_eq!(relay_auth_reply(&vec!["235 ok".to_string()]), (true, "235 Authentication successful\r\n".to_string()));
    assert_eq!(
        relay_auth_reply(&vec!["535 5.7.8 bad".to_string(), "235".to_string()]),
        (false, "535 Relay authentication failed\r\n".to_string())
    );
}

#[test]
fn relay_commands() {
    assert_eq!(auth_login_line("user"), "dXNlcg==\r\n");
    assert_eq!(auth_login_line(""), "\r\n");
    assert_eq!(mail_from_command("a@b.c"), "MAIL FROM:<a@b.c>\r\n");
    assert_eq!(rcpt_to_command("x@y.z"), "RCPT TO:<x@y.z>\r\n");
}

#[test]
fn ip_gate_only_with_list() {
    assert_eq!(ip_gate(&None, "1.2.3.4"), None);
    let list = Some(vec!["10.0.0.1".to_string(), "1.2.3.4".to_string()]);
    assert_eq!(ip_gate(&list, "1.2.3.4"), None);
    assert_eq!(ip_gate(&list, "1.2.3.5"), Some("554 5.7.1 Access denied: IP address blocked\r\n".to_string()));
    assert_eq!(ip_gate(&Some(vec![]), "1.2.3.4"), Some("554 5.7.1 Access denied: IP address blocked\r\n".to_string()));
}

#[test]
fn rate_limit_refusals() {
    assert_eq!(
        rate_limit_refusal("Sending email is blocked by rate limit configuration (limit = 0)"),
        "554 5.7.1 Sending not allowed by rate limit config\r\n"
    );
    assert_eq!(rate_limit_refusal("Rate limit exceeded. Please try again later."), "451 4.7.1 Rate limit exceeded. Try again later\r\n");
    assert_eq!(rate_limit_refusal("Rate limit check database error"), "451 4.7.1 Rate limit exceeded. Try again later\r\n");
}

#[test]
fn relay_config_outcomes() {
    let smtp = EmailSmtp {
        provider: "gmail".to_string(),
        host: "smtp.gmail.com".to_string(),
        port: 587,
        user: "u".to_string(),
        pass: "p".to_string(),
    };
    let r = relay_config(Ok(EmailConfig::Smtp(smtp)));
    assert!(matches!(r, Ok(c) if c.host == "smtp.gmail.com" && c.port == 587));
    let api = EmailApi { provider: "sendgrid".to_string(), host: "api.sendgrid.com".to_string(), api_key: "k".to_string() };
    assert_eq!(
        relay_config(Ok(EmailConfig::Api(api))).err(),
        Some("554 5.7.1 API channel is not supported by smtp proxy\r\n".to_string())
    );
    assert_eq!(
        relay_config(Err("database error".to_string())).err(),
        Some("554 5.7.1 Transaction failed: email registry lookup failed\r\n".to_string())
    );
}

#[test]
fn auth_plain_invalid_utf8_is_replaced() {
    let mut s = started();
    let a = s.step(line("AUTH PLAIN AP9ib2IAcHc=\r\n"));
    assert!(matches!(&a[0], SmtpAction::LookupUser { user, pass } if user == "\u{FFFD}bob" && pass == "pw"));
}

#[test]
fn authentication_needs_a_found_lookup() {
    let mut s = started();
    for input in [line("EHLO x\r\n"), line("AUTH LOGIN\r\n"), line("YQ==\r\n"), line("Yg==\r\n"), SmtpInput::LookupFailed] {
        s.step(input);
        assert!(!matches!(s.phase, SmtpPhase::Authenticated));
    }
    s.step(line("AUTH PLAIN AGEAYg==\r\n"));
    assert!(matches!(s.phase, SmtpPhase::AwaitLookup));
    s.step(SmtpInput::LookupFound);
    assert!(matches!(s.phase, SmtpPhase::Authenticated));
}

#[test]
fn ordinary_lines_are_taken() {
    let s = started();
    for input in [line("AUTH PLAIN AGFsaWNlAHNlY3JldA==\r\n"), line("auth pla\u{131}n x\r\n"), line("AUTH PLAIN\r\n"), line("\r\n")] {
        assert!(!s.cannot_take(&input));
    }
    assert!(!s.cannot_take(&SmtpInput::Disconnected));
}
