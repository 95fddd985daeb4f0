//! Replies of the HTTP handlers and the JSON envelope they are sent in.

use vstd::prelude::*;
use vstd::string::*;
use crate::text::views;

verus! {

/// A handler's reply: HTTP status, sub-code, message, and (for missing
/// request fields) the names of the fields.
#[derive(Debug)]
pub struct Reply {
    pub status: u16,
    pub sub_code: String,
    pub message: String,
    pub fields: Vec<String>,
}

pub struct ReplyModel {
    pub status: u16,
    pub sub_code: Seq<char>,
    pub message: Seq<char>,
    pub fields: Seq<Seq<char>>,
}

impl View for Reply {
    type V = ReplyModel;

    open spec fn view(&self) -> ReplyModel {
        ReplyModel { status: self.status, sub_code: self.sub_code@, message: self.message@, fields: views(self.fields@) }
    }
}

pub open spec fn reply_model(status: u16, sub_code: Seq<char>, message: Seq<char>) -> ReplyModel {
    ReplyModel { status, sub_code, message, fields: Seq::empty() }
}

/// A reply without field names.
pub fn plain_reply(status: u16, sub_code: &str, message: &str) -> (r: Reply)
    ensures
        r@ == reply_model(status, sub_code@, message@),
{
    let r = Reply { status, sub_code: String::from_str(sub_code), message: String::from_str(message), fields: Vec::new() };
    assert(views(r.fields@) =~= Seq::<Seq<char>>::empty());
    r
}

/// Whether an HTTP status is a success (2xx).
pub open spec fn is_success(status: u16) -> bool {
    200 <= status <= 299
}

/// The JSON envelope of a response: `code`, then `sub_code`, `message`,
/// `data` and the extra fields where present.
#[derive(Debug)]
pub struct Envelope {
    pub code: u16,
    pub sub_code: Option<String>,
    pub message: Option<String>,
    pub include_data: bool,
    pub include_extra: bool,
    pub success: bool,
}

/// Builds the envelope: a 500 without a sub-code gets
/// "internal-server-error"; data is left out when it is JSON null; the
/// extra fields are kept only when they form a non-empty JSON object; the
/// response counts as success for a 2xx status.
pub fn envelope(
    status: u16,
    sub_code: Option<&str>,
    message: Option<&str>,
    data_is_null: bool,
    extra_is_nonempty_object: bool,
) -> (r: Envelope)
    ensures
        r.code == status,
        r.sub_code.deep_view() == (match sub_code {
            Some(s) => Some(s@),
            None => if status == 500 { Some("internal-server-error"@) } else { None },
        }),
        r.message.deep_view() == (match message {
            Some(m) => Some(m@),
            None => None,
        }),
        r.include_data == !data_is_null,
        r.include_extra == extra_is_nonempty_object,
        r.success == is_success(status),
{
    let sub = match sub_code {
        Some(s) => Some(String::from_str(s)),
        None => if status == 500 {
            Some(String::from_str("internal-server-error"))
        } else {
            None
        },
    };
    let msg = match message {
        Some(m) => Some(String::from_str(m)),
        None => None,
    };
    Envelope {
        code: status,
        sub_code: sub,
        message: msg,
        include_data: !data_is_null,
        include_extra: extra_is_nonempty_object,
        success: 200 <= status && status <= 299,
    }
}

/// What a finished request carried before the final response is written.
#[derive(Debug)]
pub enum ResponseBody {
    /// Plain text.
    Text(String),
    /// A JSON document, kept as its serialized text.
    Json(String),
    /// Something else.
    Other,
}

/// How the final response is written.
#[derive(Debug)]
pub enum FinalResponse {
    /// A 500: the stack trace and the raw request body are reported.
    ServerError,
    /// A JSON body with the status.
    Json { status: u16, json: String },
    /// A text body with the status.
    Text { status: u16, text: String },
}

/// The last step of every request: with no status and body recorded the
/// answer is 422 with an empty text; a 500 is reported with diagnostics;
/// otherwise the recorded body is written with the recorded status (a
/// body that is neither text nor JSON as empty text).
pub fn finalize_response(recorded: Option<(u16, ResponseBody)>) -> (r: FinalResponse)
    ensures
        match recorded {
            None => r is Text && r->Text_status == 422 && r->Text_text@ == Seq::<char>::empty(),
            Some((s, b)) => if s == 500 {
                r is ServerError
            } else {
                match b {
                    ResponseBody::Json(j) => r is Json && r->Json_status == s && r->Json_json@ == j@,
                    ResponseBody::Text(t) => r is Text && r->Text_status == s && r->Text_text@ == t@,
                    ResponseBody::Other => r is Text && r->Text_status == s && r->Text_text@ == Seq::<char>::empty(),
                }
            },
        },
{
    match recorded {
        None => FinalResponse::Text { status: 422, text: String::new() },
        Some((s, b)) => {
            if s == 500 {
                FinalResponse::ServerError
            } else {
                match b {
                    ResponseBody::Json(j) => FinalResponse::Json { status: s, json: j },
                    ResponseBody::Text(t) => FinalResponse::Text { status: s, text: t },
                    ResponseBody::Other => FinalResponse::Text { status: s, text: String::new() },
                }
            }
        },
    }
}

} // verus!
