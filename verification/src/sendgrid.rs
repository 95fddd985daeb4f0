//! The JSON payload of SendGrid's mail-send API, built from a request.

use vstd::prelude::*;
use vstd::string::*;
use crate::appdata::StringMap;
use crate::assoc::{assoc_map, lemma_pairs_map_concat, pairs_map};
use crate::reply::is_success;
use crate::mime::{content_type_for, opt_items, or_empty};
use crate::send::{SendEmailRequest, SendEmailRequestAttachment};
use crate::text::{str_eq, to_lowercase, views};

verus! {

#[derive(Debug)]
pub struct SendGridEmail {
    pub email: String,
}

#[derive(Debug)]
pub struct SendGridPersonalization {
    pub to: Vec<SendGridEmail>,
    pub cc: Option<Vec<SendGridEmail>>,
    pub bcc: Option<Vec<SendGridEmail>>,
}

#[derive(Debug)]
pub struct SendGridContent {
    pub type_: String,
    pub value: String,
}

#[derive(Debug)]
pub struct SendGridAttachment {
    pub content: String,
    pub filename: String,
    pub type_: Option<String>,
    pub disposition: Option<String>,
}

#[derive(Debug)]
pub struct SendGridPayload {
    pub personalizations: Vec<SendGridPersonalization>,
    pub from: SendGridEmail,
    pub reply_to: Option<SendGridEmail>,
    pub subject: String,
    pub content: Vec<SendGridContent>,
    pub attachments: Option<Vec<SendGridAttachment>>,
    pub headers: Option<StringMap>,
    pub custom_args: Option<StringMap>,
    pub categories: Option<Vec<String>>,
}

pub open spec fn emails(v: Seq<SendGridEmail>) -> Seq<Seq<char>> {
    v.map_values(|e: SendGridEmail| e.email@)
}

pub open spec fn opt_emails(o: Option<Vec<SendGridEmail>>) -> Option<Seq<Seq<char>>> {
    match o {
        Some(v) => Some(emails(v@)),
        None => None,
    }
}

/// The API's attachment for a request attachment.
pub open spec fn attachment_matches(g: SendGridAttachment, a: SendEmailRequestAttachment) -> bool {
    &&& g.content@ == a.content@
    &&& g.filename@ == a.filename@
    &&& g.type_.deep_view() == a.type_.deep_view()
    &&& g.disposition.deep_view() == Some("attachment"@)
}

pub open spec fn pairs(v: Seq<(String, String)>) -> Seq<(Seq<char>, Seq<char>)> {
    v.map_values(|e: (String, String)| (e.0@, e.1@))
}

proof fn lemma_assoc_map_of_pairs(s: Seq<(String, String)>)
    ensures
        assoc_map(s) == pairs_map(pairs(s)),
    decreases s.len(),
{
    if s.len() > 0 {
        assert(pairs(s).drop_last() =~= pairs(s.drop_last()));
        lemma_assoc_map_of_pairs(s.drop_last());
    }
}

fn to_emails(v: &Vec<String>) -> (r: Vec<SendGridEmail>)
    ensures
        emails(r@) == views(v@),
{
    let mut out: Vec<SendGridEmail> = Vec::new();
    let mut i: usize = 0;
    while i < v.len()
        invariant
            i <= v@.len(),
            out@.len() == i,
            forall|j: int| 0 <= j < i ==> (#[trigger] out@[j]).email@ == v@[j]@,
        decreases v@.len() - i,
    {
        out.push(SendGridEmail { email: v[i].clone() });
        i = i + 1;
    }
    assert(emails(out@) =~= views(v@));
    out
}

fn opt_to_emails(o: &Option<Vec<String>>) -> (r: Option<Vec<SendGridEmail>>)
    ensures
        opt_emails(r) == o.deep_view(),
{
    match o {
        Some(v) => {
            let e = to_emails(v);
            assert(views(v@) =~= v.deep_view());
            Some(e)
        },
        None => None,
    }
}

fn or_empty_text(o: &Option<String>) -> (r: String)
    ensures
        r@ == or_empty(o.deep_view()),
{
    match o {
        Some(s) => s.clone(),
        None => String::new(),
    }
}

/// Builds the payload for a (normalized) request sent from `from_email`:
/// one personalization with the "to", "cc" and "bcc" addresses; the
/// subject and a single content of the request's body, typed "text/html"
/// or "text/plain" as for SMTP; the attachments marked as attachments; the
/// request's headers; custom arguments "env_name" and "app_name" followed
/// by the request's metadata (which wins on equal keys); and categories
/// environment, application, purpose tag, then the request's tags.
pub fn build_sendgrid_payload(req: SendEmailRequest, from_email: &str) -> (r: SendGridPayload)
    ensures
        r.personalizations@.len() == 1,
        emails(r.personalizations@[0].to@) == opt_items(req.send_to.deep_view()),
        opt_emails(r.personalizations@[0].cc) == req.cc_to.deep_view(),
        opt_emails(r.personalizations@[0].bcc) == req.bcc_to.deep_view(),
        r.from.email@ == from_email@,
        match r.reply_to {
            Some(e) => req.reply_to.deep_view() == Some(e.email@),
            None => req.reply_to is None,
        },
        r.subject@ == or_empty(req.subject.deep_view()),
        r.content@.len() == 1,
        r.content@[0].type_@ == content_type_for(req.body_type.deep_view()),
        r.content@[0].value@ == or_empty(req.body.deep_view()),
        match r.attachments {
            Some(g) => req.attachment is Some && g@.len() == req.attachment.unwrap()@.len()
                && forall|i: int| 0 <= i < g@.len() ==> attachment_matches(#[trigger] g@[i], req.attachment.unwrap()@[i]),
            None => req.attachment is None,
        },
        r.headers == req.headers,
        r.custom_args is Some,
        pairs(r.custom_args.unwrap().entries@) == seq![
            ("env_name"@, or_empty(req.env_name.deep_view())),
            ("app_name"@, or_empty(req.app_name.deep_view())),
        ] + (match req.metadata {
            Some(m) => pairs(m.entries@),
            None => Seq::empty(),
        }),
        r.custom_args.unwrap().deep_view() == Map::<Seq<char>, Seq<char>>::empty().insert(
            "env_name"@,
            or_empty(req.env_name.deep_view()),
        ).insert("app_name"@, or_empty(req.app_name.deep_view())).union_prefer_right(
            match req.metadata {
                Some(m) => m.deep_view(),
                None => Map::empty(),
            },
        ),
        r.categories is Some,
        views(r.categories.unwrap()@) == seq![
            or_empty(req.env_name.deep_view()),
            or_empty(req.app_name.deep_view()),
            or_empty(req.purpose_tag.deep_view()),
        ] + opt_items(req.tags.deep_view()),
{
    let env_name = or_empty_text(&req.env_name);
    let app_name = or_empty_text(&req.app_name);
    let purpose_tag = or_empty_text(&req.purpose_tag);
    let to = match &req.send_to {
        Some(v) => {
            let e = to_emails(v);
            assert(views(v@) =~= v.deep_view());
            e
        },
        None => {
            let e: Vec<SendGridEmail> = Vec::new();
            assert(emails(e@) =~= Seq::<Seq<char>>::empty());
            e
        },
    };
    let personalization = SendGridPersonalization {
        to,
        cc: opt_to_emails(&req.cc_to),
        bcc: opt_to_emails(&req.bcc_to),
    };
    let body_type = match &req.body_type {
        Some(b) => to_lowercase(b.as_str()),
        None => to_lowercase(""),
    };
    proof {
        reveal_strlit("");
        assert(""@ =~= Seq::<char>::empty());
    }
    let content_type = if str_eq(body_type.as_str(), "html") || str_eq(body_type.as_str(), "text/html") {
        String::from_str("text/html")
    } else {
        String::from_str("text/plain")
    };
    let content = vec![SendGridContent { type_: content_type, value: or_empty_text(&req.body) }];
    let attachments = match req.attachment {
        Some(list) => {
            let mut out: Vec<SendGridAttachment> = Vec::new();
            let mut i: usize = 0;
            while i < list.len()
                invariant
                    i <= list@.len(),
                    out@.len() == i,
                    forall|j: int| 0 <= j < i ==> attachment_matches(#[trigger] out@[j], list@[j]),
                decreases list@.len() - i,
            {
                let a = &list[i];
                let t = match &a.type_ {
                    Some(t) => Some(t.clone()),
                    None => None,
                };
                out.push(
                    SendGridAttachment {
                        content: a.content.clone(),
                        filename: a.filename.clone(),
                        type_: t,
                        disposition: Some(String::from_str("attachment")),
                    },
                );
                i = i + 1;
            }
            Some(out)
        },
        None => None,
    };
    let mut args: Vec<(String, String)> = Vec::new();
    args.push((String::from_str("env_name"), env_name.clone()));
    args.push((String::from_str("app_name"), app_name.clone()));
    let ghost base = pairs(args@);
    assert(base =~= seq![("env_name"@, env_name@), ("app_name"@, app_name@)]);
    match &req.metadata {
        Some(m) => {
            let mut i: usize = 0;
            while i < m.entries.len()
                invariant
                    i <= m.entries@.len(),
                    pairs(args@) == base + pairs(m.entries@).subrange(0, i as int),
                decreases m.entries@.len() - i,
            {
                let ghost before = pairs(args@);
                args.push((m.entries[i].0.clone(), m.entries[i].1.clone()));
                assert(pairs(args@) =~= before.push((m.entries@[i as int].0@, m.entries@[i as int].1@)));
                assert(pairs(m.entries@).subrange(0, i + 1) =~= pairs(m.entries@).subrange(0, i as int).push(
                    (m.entries@[i as int].0@, m.entries@[i as int].1@),
                ));
                i = i + 1;
            }
            assert(pairs(m.entries@).subrange(0, m.entries@.len() as int) =~= pairs(m.entries@));
        },
        None => {
            assert(pairs(args@) =~= base + Seq::<(Seq<char>, Seq<char>)>::empty());
        },
    }
    proof {
        let meta = match &req.metadata {
            Some(m) => pairs(m.entries@),
            None => Seq::<(Seq<char>, Seq<char>)>::empty(),
        };
        lemma_assoc_map_of_pairs(args@);
        lemma_pairs_map_concat(base, meta);
        match &req.metadata {
            Some(m) => lemma_assoc_map_of_pairs(m.entries@),
            None => {},
        }
        let one = base.drop_last();
        assert(one.drop_last() =~= Seq::<(Seq<char>, Seq<char>)>::empty());
        assert(pairs_map(one.drop_last()) == Map::<Seq<char>, Seq<char>>::empty());
        assert(one.last() == base[0]);
        assert(base.last() == base[1]);
        assert(pairs_map(one) =~= Map::<Seq<char>, Seq<char>>::empty().insert("env_name"@, env_name@));
        assert(pairs_map(base) =~= Map::<Seq<char>, Seq<char>>::empty().insert("env_name"@, env_name@).insert(
            "app_name"@,
            app_name@,
        ));
    }
    let mut categories: Vec<String> = vec![env_name.clone(), app_name.clone(), purpose_tag];
    let ghost cbase = views(categories@);
    match &req.tags {
        Some(tags) => {
            let mut i: usize = 0;
            while i < tags.len()
                invariant
                    i <= tags@.len(),
                    views(categories@) == cbase + views(tags@).subrange(0, i as int),
                decreases tags@.len() - i,
            {
                let ghost before = views(categories@);
                categories.push(tags[i].clone());
                assert(views(categories@) =~= before.push(tags@[i as int]@));
                assert(views(tags@).subrange(0, i + 1) =~= views(tags@).subrange(0, i as int).push(tags@[i as int]@));
                i = i + 1;
            }
            assert(views(tags@).subrange(0, tags@.len() as int) =~= tags.deep_view());
        },
        None => {
            assert(views(categories@) =~= cbase + Seq::<Seq<char>>::empty());
        },
    }
    let reply_to = match req.reply_to {
        Some(email) => Some(SendGridEmail { email }),
        None => None,
    };
    SendGridPayload {
        personalizations: vec![personalization],
        from: SendGridEmail { email: String::from_str(from_email) },
        reply_to,
        subject: or_empty_text(&req.subject),
        content,
        attachments,
        headers: req.headers,
        custom_args: Some(StringMap { entries: args }),
        categories: Some(categories),
    }
}

/// What SendGrid's answer means for the delivery: success for a 2xx
/// status, otherwise an error naming the status (as "400 Bad Request") and
/// the body of the answer.
pub fn sendgrid_outcome(status: u16, status_text: &str, body: &str) -> (r: Result<(), String>)
    ensures
        r is Ok <==> is_success(status),
        r matches Err(e) ==> e@ == "SendGrid API failed with status "@ + status_text@ + ": "@ + body@,
{
    if 200 <= status && status <= 299 {
        Ok(())
    } else {
        let mut m = String::from_str("SendGrid API failed with status ");
        m.append(status_text);
        m.append(": ");
        m.append(body);
        Err(m)
    }
}

} // verus!
