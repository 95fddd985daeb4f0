//! The raw MIME message sent over SMTP, and the SMTP recipient list.

use vstd::prelude::*;
use vstd::string::*;
use crate::send::{SendEmailRequest, SendEmailRequestAttachment};
use crate::text::{join, join_texts, lowercase_of, str_eq, to_lowercase, views};

verus! {

/// The text, or the empty text when absent.
pub open spec fn or_empty(o: Option<Seq<char>>) -> Seq<char> {
    match o {
        Some(s) => s,
        None => Seq::empty(),
    }
}

/// The boundary between the parts of a multi-part message.
pub open spec fn boundary() -> Seq<char> {
    "----=_Part_notify_api_123456789"@
}

/// "Name: value\r\n" for each header entry, in order.
pub open spec fn header_lines(entries: Seq<(String, String)>) -> Seq<char>
    decreases entries.len(),
{
    if entries.len() == 0 {
        Seq::empty()
    } else {
        header_lines(entries.drop_last()) + entries.last().0@ + ": "@ + entries.last().1@ + "\r\n"@
    }
}

/// "Name: a, b\r\n" for a present address list, nothing otherwise.
pub open spec fn address_line(name: Seq<char>, o: Option<Seq<Seq<char>>>) -> Seq<char> {
    match o {
        Some(v) => name + join(v, ", "@) + "\r\n"@,
        None => Seq::empty(),
    }
}

/// The header block up to and including "MIME-Version".
pub open spec fn mime_head(r: SendEmailRequest, username: Seq<char>) -> Seq<char> {
    "From: "@ + username + "\r\n"@
        + address_line("To: "@, r.send_to.deep_view())
        + address_line("Cc: "@, r.cc_to.deep_view())
        + (match r.reply_to.deep_view() {
            Some(x) => "Reply-To: "@ + x + "\r\n"@,
            None => Seq::empty(),
        })
        + (match r.headers {
            Some(h) => header_lines(h.entries@),
            None => Seq::empty(),
        })
        + "Subject: "@ + or_empty(r.subject.deep_view()) + "\r\n"@
        + "MIME-Version: 1.0\r\n"@
}

/// "text/html" when the lower-cased body type is "html" or "text/html",
/// "text/plain" otherwise.
pub open spec fn content_type_for(body_type: Option<Seq<char>>) -> Seq<char> {
    let t = lowercase_of(or_empty(body_type));
    if t == "html"@ || t == "text/html"@ {
        "text/html"@
    } else {
        "text/plain"@
    }
}

/// The part of one attachment.
pub open spec fn attachment_part(a: SendEmailRequestAttachment) -> Seq<char> {
    "--"@ + boundary() + "\r\n"@
        + "Content-Type: "@ + (match a.type_.deep_view() {
            Some(t) => t,
            None => "application/octet-stream"@,
        }) + "\r\n"@
        + "Content-Transfer-Encoding: base64\r\n"@
        + "Content-Disposition: attachment; filename=\""@ + a.filename@ + "\"\r\n\r\n"@
        + a.content@ + "\r\n"@
}

pub open spec fn attachment_parts(atts: Seq<SendEmailRequestAttachment>) -> Seq<char>
    decreases atts.len(),
{
    if atts.len() == 0 {
        Seq::empty()
    } else {
        attachment_parts(atts.drop_last()) + attachment_part(atts.last())
    }
}

pub open spec fn has_attachments(r: SendEmailRequest) -> bool {
    match r.attachment {
        Some(v) => v@.len() > 0,
        None => false,
    }
}

/// The body of a message without attachments: one text part.
pub open spec fn single_part_body(r: SendEmailRequest) -> Seq<char> {
    "Content-Type: "@ + content_type_for(r.body_type.deep_view()) + "; charset=utf-8\r\n\r\n"@
        + or_empty(r.body.deep_view())
}

/// The body of a message with attachments: the text part, then one part
/// per attachment, then the closing boundary.
pub open spec fn multipart_body(r: SendEmailRequest) -> Seq<char> {
    "Content-Type: multipart/mixed; boundary=\""@ + boundary() + "\"\r\n\r\n"@
        + "--"@ + boundary() + "\r\n"@
        + "Content-Type: "@ + content_type_for(r.body_type.deep_view()) + "; charset=utf-8\r\n\r\n"@
        + or_empty(r.body.deep_view()) + "\r\n"@
        + attachment_parts(r.attachment.unwrap()@)
        + "--"@ + boundary() + "--\r\n"@
}

/// The whole message: the header block, then either a single text part or
/// a multi-part body with the text part and one part per attachment.
pub open spec fn mime_message(r: SendEmailRequest, username: Seq<char>) -> Seq<char> {
    mime_head(r, username) + if !has_attachments(r) {
        single_part_body(r)
    } else {
        multipart_body(r)
    }
}

/// An HTML body is sent as HTML: a body type that lower-cases to "html" or
/// "text/html" gives "text/html"; any other body type, or none, gives
/// "text/plain".
pub proof fn lemma_html_body_types(body_type: Option<Seq<char>>)
    ensures
        lowercase_of(or_empty(body_type)) == "text/html"@ ==> content_type_for(body_type) == "text/html"@,
        lowercase_of(or_empty(body_type)) == "html"@ ==> content_type_for(body_type) == "text/html"@,
        (lowercase_of(or_empty(body_type)) != "html"@ && lowercase_of(or_empty(body_type)) != "text/html"@)
            ==> content_type_for(body_type) == "text/plain"@,
{
}

/// A message without attachments is its header block followed by one part
/// headed with the body's content type and then the body itself.
pub proof fn lemma_single_part_message(r: SendEmailRequest, username: Seq<char>)
    requires
        !has_attachments(r),
        lowercase_of(or_empty(r.body_type.deep_view())) == "text/html"@,
    ensures
        mime_message(r, username) == mime_head(r, username) + "Content-Type: "@ + "text/html"@
            + "; charset=utf-8\r\n\r\n"@ + or_empty(r.body.deep_view()),
{
    lemma_html_body_types(r.body_type.deep_view());
    assert(mime_message(r, username) =~= mime_head(r, username) + "Content-Type: "@ + "text/html"@
        + "; charset=utf-8\r\n\r\n"@ + or_empty(r.body.deep_view()));
}

fn append_opt(out: &mut String, o: &Option<String>)
    ensures
        final(out)@ == old(out)@ + or_empty(o.deep_view()),
{
    match o {
        Some(s) => out.append(s.as_str()),
        None => {
            assert(out@ =~= out@ + Seq::<char>::empty());
        },
    }
}

fn append_address_line(out: &mut String, name: &str, o: &Option<Vec<String>>)
    ensures
        final(out)@ == old(out)@ + address_line(name@, o.deep_view()),
{
    match o {
        Some(v) => {
            let joined = join_texts(v, ", ");
            assert(views(v@) =~= v.deep_view());
            out.append(name);
            out.append(joined.as_str());
            out.append("\r\n");
        },
        None => {
            assert(out@ =~= out@ + Seq::<char>::empty());
        },
    }
}

fn append_header_lines(out: &mut String, entries: &Vec<(String, String)>)
    ensures
        final(out)@ == old(out)@ + header_lines(entries@),
{
    let ghost start = out@;
    let mut i: usize = 0;
    assert(start =~= start + header_lines(entries@.subrange(0, 0)));
    while i < entries.len()
        invariant
            i <= entries@.len(),
            out@ == start + header_lines(entries@.subrange(0, i as int)),
        decreases entries@.len() - i,
    {
        out.append(entries[i].0.as_str());
        out.append(": ");
        out.append(entries[i].1.as_str());
        out.append("\r\n");
        proof {
            let pre = entries@.subrange(0, i + 1);
            assert(pre.drop_last() =~= entries@.subrange(0, i as int));
            assert(pre.last() == entries@[i as int]);
        }
        i = i + 1;
    }
    assert(entries@.subrange(0, entries@.len() as int) =~= entries@);
}

fn append_attachment_part(out: &mut String, a: &SendEmailRequestAttachment)
    ensures
        final(out)@ == old(out)@ + attachment_part(*a),
{
    let ghost start = out@;
    out.append("--");
    out.append("----=_Part_notify_api_123456789");
    out.append("\r\n");
    out.append("Content-Type: ");
    match &a.type_ {
        Some(t) => out.append(t.as_str()),
        None => out.append("application/octet-stream"),
    }
    out.append("\r\n");
    out.append("Content-Transfer-Encoding: base64\r\n");
    out.append("Content-Disposition: attachment; filename=\"");
    out.append(a.filename.as_str());
    out.append("\"\r\n\r\n");
    out.append(a.content.as_str());
    out.append("\r\n");
    assert(out@ =~= start + attachment_part(*a));
}

fn append_attachment_parts(out: &mut String, atts: &Vec<SendEmailRequestAttachment>)
    ensures
        final(out)@ == old(out)@ + attachment_parts(atts@),
{
    let ghost start = out@;
    let mut i: usize = 0;
    assert(start =~= start + attachment_parts(atts@.subrange(0, 0)));
    while i < atts.len()
        invariant
            i <= atts@.len(),
            out@ == start + attachment_parts(atts@.subrange(0, i as int)),
        decreases atts@.len() - i,
    {
        append_attachment_part(out, &atts[i]);
        proof {
            let pre = atts@.subrange(0, i + 1);
            assert(pre.drop_last() =~= atts@.subrange(0, i as int));
            assert(pre.last() == atts@[i as int]);
            assert(out@ =~= start + attachment_parts(pre));
        }
        i = i + 1;
    }
    assert(atts@.subrange(0, atts@.len() as int) =~= atts@);
}

fn build_head(req: &SendEmailRequest, username: &str) -> (r: String)
    ensures
        r@ == mime_head(*req, username@),
{
    let mut out = String::from_str("From: ");
    out.append(username);
    out.append("\r\n");
    append_address_line(&mut out, "To: ", &req.send_to);
    append_address_line(&mut out, "Cc: ", &req.cc_to);
    let ghost after_cc = out@;
    match &req.reply_to {
        Some(x) => {
            out.append("Reply-To: ");
            out.append(x.as_str());
            out.append("\r\n");
        },
        None => {},
    }
    let ghost after_reply = out@;
    match &req.headers {
        Some(h) => append_header_lines(&mut out, &h.entries),
        None => {},
    }
    let ghost after_headers = out@;
    out.append("Subject: ");
    append_opt(&mut out, &req.subject);
    out.append("\r\n");
    out.append("MIME-Version: 1.0\r\n");
    assert(out@ =~= mime_head(*req, username@));
    out
}

fn content_type(body_type: &Option<String>) -> (r: &'static str)
    ensures
        r@ == content_type_for(body_type.deep_view()),
{
    let t = match body_type {
        Some(b) => to_lowercase(b.as_str()),
        None => to_lowercase(""),
    };
    proof {
        reveal_strlit("");
        assert(""@ =~= Seq::<char>::empty());
    }
    if str_eq(t.as_str(), "html") || str_eq(t.as_str(), "text/html") {
        "text/html"
    } else {
        "text/plain"
    }
}

fn append_single_part(out: &mut String, req: &SendEmailRequest)
    ensures
        final(out)@ == old(out)@ + single_part_body(*req),
{
    let ghost start = out@;
    let ct = content_type(&req.body_type);
    out.append("Content-Type: ");
    out.append(ct);
    out.append("; charset=utf-8\r\n\r\n");
    append_opt(out, &req.body);
    assert(out@ =~= start + single_part_body(*req));
}

fn append_multipart(out: &mut String, req: &SendEmailRequest)
    requires
        has_attachments(*req),
    ensures
        final(out)@ == old(out)@ + multipart_body(*req),
{
    let ghost start = out@;
    let ct = content_type(&req.body_type);
    out.append("Content-Type: multipart/mixed; boundary=\"");
    out.append("----=_Part_notify_api_123456789");
    out.append("\"\r\n\r\n");
    out.append("--");
    out.append("----=_Part_notify_api_123456789");
    out.append("\r\n");
    out.append("Content-Type: ");
    out.append(ct);
    out.append("; charset=utf-8\r\n\r\n");
    append_opt(out, &req.body);
    out.append("\r\n");
    match &req.attachment {
        Some(atts) => append_attachment_parts(out, atts),
        None => {},
    }
    out.append("--");
    out.append("----=_Part_notify_api_123456789");
    out.append("--\r\n");
    assert(out@ =~= start + multipart_body(*req));
}

/// Builds the raw message that is sent as the DATA of an SMTP session,
/// "From" the given user.
pub fn build_mime_message(req: &SendEmailRequest, username: &str) -> (r: String)
    ensures
        r@ == mime_message(*req, username@),
{
    let mut out = build_head(req, username);
    let multipart = match &req.attachment {
        Some(v) => v.len() > 0,
        None => false,
    };
    if !multipart {
        append_single_part(&mut out, req);
    } else {
        append_multipart(&mut out, req);
    }
    assert(out@ =~= mime_message(*req, username@));
    out
}

pub open spec fn opt_items(o: Option<Seq<Seq<char>>>) -> Seq<Seq<char>> {
    match o {
        Some(v) => v,
        None => Seq::empty(),
    }
}

/// Everyone the message goes to over SMTP: the "to", then "cc", then "bcc"
/// addresses.
pub open spec fn smtp_recipients(r: SendEmailRequest) -> Seq<Seq<char>> {
    opt_items(r.send_to.deep_view()) + opt_items(r.cc_to.deep_view()) + opt_items(r.bcc_to.deep_view())
}

fn extend_with(out: &mut Vec<String>, o: &Option<Vec<String>>)
    ensures
        views(final(out)@) == views(old(out)@) + opt_items(o.deep_view()),
{
    let ghost start = views(out@);
    match o {
        Some(v) => {
            let mut i: usize = 0;
            while i < v.len()
                invariant
                    i <= v@.len(),
                    views(out@) == start + views(v@).subrange(0, i as int),
                decreases v@.len() - i,
            {
                let ghost before = views(out@);
                out.push(v[i].clone());
                assert(views(out@) =~= before.push(v@[i as int]@));
                assert(views(v@).subrange(0, i + 1) =~= views(v@).subrange(0, i as int).push(v@[i as int]@));
                i = i + 1;
            }
            assert(views(v@).subrange(0, v@.len() as int) =~= v.deep_view());
        },
        None => {
            assert(views(out@) =~= start + Seq::<Seq<char>>::empty());
        },
    }
}

/// The SMTP recipients of a request.
pub fn recipients(req: &SendEmailRequest) -> (r: Vec<String>)
    ensures
        views(r@) == smtp_recipients(*req),
{
    let mut out: Vec<String> = Vec::new();
    assert(views(out@) =~= Seq::<Seq<char>>::empty());
    extend_with(&mut out, &req.send_to);
    extend_with(&mut out, &req.cc_to);
    extend_with(&mut out, &req.bcc_to);
    assert(views(out@) =~= smtp_recipients(*req));
    out
}

} // verus!
