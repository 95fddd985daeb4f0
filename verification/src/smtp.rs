//! The SMTP proxy's dialogue with a client before the relay starts: the
//! greeting, EHLO/HELO, AUTH LOGIN, AUTH PLAIN and QUIT. The caller reads
//! lines, looks users up and performs the actions; this module decides.

use vstd::prelude::*;
use vstd::string::*;
use vstd::utf8::{decode_utf8, is_char_boundary};
use crate::encoding::{base64_decode, base64_decoded_of, base64_encode, base64_encoded_of, utf8_lossy, utf8_lossy_of};
use crate::registry::{ConfigModel, EmailConfig, EmailSmtp};
use crate::text::{contains_text, str_eq, str_starts_with, text_contains, to_uppercase, trim, trim_str, uppercase_of, views};

verus! {

broadcast use vstd::utf8::encode_utf8_decode_utf8;

/// Where the dialogue stands.
#[derive(Debug)]
pub enum SmtpPhase {
    /// Waiting for a command.
    Command,
    /// AUTH LOGIN: waiting for the base64 user name.
    LoginUser,
    /// AUTH LOGIN: waiting for the base64 password; the user line is kept.
    LoginPass { user_line: String },
    /// AUTH PLAIN: waiting for the base64 payload.
    PlainPayload,
    /// A user lookup has been requested; waiting for its outcome.
    AwaitLookup,
    /// A user was found: the dialogue is over and the relay may start.
    Authenticated,
    /// The dialogue has ended without authentication.
    Closed,
}

/// What the caller observed.
#[derive(Debug)]
pub enum SmtpInput {
    /// A line read from the client (with its line ending).
    Line(String),
    /// The client closed the connection (a read of zero bytes).
    Disconnected,
    /// The requested user lookup found a credential.
    LookupFound,
    /// The requested user lookup found nothing or failed.
    LookupFailed,
}

/// What the caller is to do, in order.
#[derive(Debug)]
pub enum SmtpAction {
    /// Write these bytes to the client.
    Reply(String),
    /// Flush the client stream.
    Flush,
    /// Look up the credential with this user name and password.
    LookupUser { user: String, pass: String },
    /// End the conversation normally.
    Close,
}

pub enum PhaseModel {
    Command,
    LoginUser,
    LoginPass { user_line: Seq<char> },
    PlainPayload,
    AwaitLookup,
    Authenticated,
    Closed,
}

pub enum InputModel {
    Line(Seq<char>),
    Disconnected,
    LookupFound,
    LookupFailed,
}

pub enum ActionModel {
    Reply(Seq<char>),
    Flush,
    LookupUser { user: Seq<char>, pass: Seq<char> },
    Close,
}

impl View for SmtpPhase {
    type V = PhaseModel;

    open spec fn view(&self) -> PhaseModel {
        match self {
            SmtpPhase::Command => PhaseModel::Command,
            SmtpPhase::LoginUser => PhaseModel::LoginUser,
            SmtpPhase::LoginPass { user_line } => PhaseModel::LoginPass { user_line: user_line@ },
            SmtpPhase::PlainPayload => PhaseModel::PlainPayload,
            SmtpPhase::AwaitLookup => PhaseModel::AwaitLookup,
            SmtpPhase::Authenticated => PhaseModel::Authenticated,
            SmtpPhase::Closed => PhaseModel::Closed,
        }
    }
}

impl View for SmtpInput {
    type V = InputModel;

    open spec fn view(&self) -> InputModel {
        match self {
            SmtpInput::Line(l) => InputModel::Line(l@),
            SmtpInput::Disconnected => InputModel::Disconnected,
            SmtpInput::LookupFound => InputModel::LookupFound,
            SmtpInput::LookupFailed => InputModel::LookupFailed,
        }
    }
}

impl View for SmtpAction {
    type V = ActionModel;

    open spec fn view(&self) -> ActionModel {
        match self {
            SmtpAction::Reply(s) => ActionModel::Reply(s@),
            SmtpAction::Flush => ActionModel::Flush,
            SmtpAction::LookupUser { user, pass } => ActionModel::LookupUser { user: user@, pass: pass@ },
            SmtpAction::Close => ActionModel::Close,
        }
    }
}

pub open spec fn actions_model(v: Seq<SmtpAction>) -> Seq<ActionModel> {
    v.map_values(|a: SmtpAction| a@)
}

/// The UTF-8 bytes of a text.
pub open spec fn bytes_of(s: Seq<char>) -> Seq<u8> {
    vstd::utf8::encode_utf8(s)
}

/// Length of the longest prefix of `b` without a zero byte.
pub open spec fn zero_free_prefix(b: Seq<u8>) -> nat
    decreases b.len(),
{
    if b.len() > 0 && b[0] != 0 {
        1 + zero_free_prefix(b.drop_first())
    } else {
        0
    }
}

/// The user name and password of an AUTH PLAIN payload
/// (`authzid NUL user NUL password`): the second and third of the
/// NUL-separated parts, when there are at least three.
pub open spec fn plain_credentials(b: Seq<u8>) -> Option<(Seq<u8>, Seq<u8>)> {
    let a = zero_free_prefix(b);
    if a >= b.len() {
        None
    } else {
        let r1 = b.subrange(a + 1int, b.len() as int);
        let c = zero_free_prefix(r1);
        if c >= r1.len() {
            None
        } else {
            let r2 = r1.subrange(c + 1int, r1.len() as int);
            Some((r1.subrange(0, c as int), r2.subrange(0, zero_free_prefix(r2) as int)))
        }
    }
}

pub open spec fn rejected_invalid() -> (PhaseModel, Seq<ActionModel>) {
    (PhaseModel::Command, seq![ActionModel::Reply("535 Authentication credentials invalid\r\n"@)])
}

pub open spec fn rejected_failed() -> (PhaseModel, Seq<ActionModel>) {
    (PhaseModel::Command, seq![ActionModel::Reply("535 Authentication failed\r\n"@), ActionModel::Flush])
}

pub open spec fn closed() -> (PhaseModel, Seq<ActionModel>) {
    (PhaseModel::Closed, seq![ActionModel::Close])
}

pub open spec fn lookup(user: Seq<u8>, pass: Seq<u8>) -> (PhaseModel, Seq<ActionModel>) {
    (PhaseModel::AwaitLookup, seq![ActionModel::LookupUser { user: utf8_lossy_of(user), pass: utf8_lossy_of(pass) }])
}

/// An AUTH PLAIN payload (already trimmed).
pub open spec fn plain_step(payload: Seq<char>) -> (PhaseModel, Seq<ActionModel>) {
    match base64_decoded_of(bytes_of(payload)) {
        None => rejected_invalid(),
        Some(b) => match plain_credentials(b) {
            None => rejected_failed(),
            Some((u, p)) => lookup(u, p),
        },
    }
}

/// The password line of AUTH LOGIN, with the user line that preceded it.
pub open spec fn login_step(user_line: Seq<char>, pass_line: Seq<char>) -> (PhaseModel, Seq<ActionModel>) {
    match base64_decoded_of(bytes_of(trim(user_line))) {
        None => rejected_invalid(),
        Some(u) => match base64_decoded_of(bytes_of(trim(pass_line))) {
            None => rejected_invalid(),
            Some(p) => lookup(u, p),
        },
    }
}

/// Whether a command line (already trimmed) is an inline AUTH PLAIN whose
/// payload, taken from its tenth byte on, would start inside a character
/// (or past its end): the payload cannot be cut out of such a line.
pub open spec fn plain_cut_inside_char(cmd: Seq<char>) -> bool {
    let u = uppercase_of(cmd);
    &&& cmd.len() > 0
    &&& !"EHLO"@.is_prefix_of(u)
    &&& !"HELO"@.is_prefix_of(u)
    &&& u != "AUTH LOGIN"@
    &&& "AUTH PLAIN"@.is_prefix_of(u)
    &&& u != "AUTH PLAIN"@
    &&& !is_char_boundary(bytes_of(cmd), 10)
}

/// The inputs the dialogue does not take: such an AUTH PLAIN line while
/// commands are awaited.
pub open spec fn step_refused(p: PhaseModel, i: InputModel) -> bool {
    &&& p is Command
    &&& i matches InputModel::Line(l) && plain_cut_inside_char(trim(l))
}

/// A command line (already trimmed) while waiting for a command. (An AUTH
/// PLAIN line whose payload cannot be cut out is not taken by `step`; its
/// branch here is a placeholder.)
pub open spec fn command_step(cmd: Seq<char>) -> (PhaseModel, Seq<ActionModel>) {
    let u = uppercase_of(cmd);
    if cmd.len() == 0 {
        (PhaseModel::Command, seq![])
    } else if "EHLO"@.is_prefix_of(u) || "HELO"@.is_prefix_of(u) {
        (
            PhaseModel::Command,
            seq![ActionModel::Reply("250-notify\r\n250-AUTH LOGIN PLAIN\r\n250 8BITMIME\r\n"@), ActionModel::Flush],
        )
    } else if u == "AUTH LOGIN"@ {
        (PhaseModel::LoginUser, seq![ActionModel::Reply("334 VXNlcm5hbWU6\r\n"@), ActionModel::Flush])
    } else if "AUTH PLAIN"@.is_prefix_of(u) {
        if u == "AUTH PLAIN"@ {
            (PhaseModel::PlainPayload, seq![ActionModel::Reply("334 \r\n"@), ActionModel::Flush])
        } else if is_char_boundary(bytes_of(cmd), 10) {
            plain_step(trim(decode_utf8(bytes_of(cmd).subrange(10, bytes_of(cmd).len() as int))))
        } else {
            (PhaseModel::Closed, seq![])
        }
    } else if u == "QUIT"@ {
        (PhaseModel::Closed, seq![ActionModel::Reply("221 Bye\r\n"@), ActionModel::Flush, ActionModel::Close])
    } else {
        (PhaseModel::Command, seq![ActionModel::Reply("530 5.7.0 Must authenticate first\r\n"@), ActionModel::Flush])
    }
}

/// One step of the dialogue. Inputs that do not fit the phase (a lookup
/// outcome while no lookup is pending, anything after the end) change
/// nothing.
pub open spec fn step_spec(p: PhaseModel, i: InputModel) -> (PhaseModel, Seq<ActionModel>) {
    match p {
        PhaseModel::Command => match i {
            InputModel::Line(line) => command_step(trim(line)),
            InputModel::Disconnected => closed(),
            _ => (p, seq![]),
        },
        PhaseModel::LoginUser => match i {
            InputModel::Line(line) => (
                PhaseModel::LoginPass { user_line: line },
                seq![ActionModel::Reply("334 UGFzc3dvcmQ6\r\n"@), ActionModel::Flush],
            ),
            InputModel::Disconnected => closed(),
            _ => (p, seq![]),
        },
        PhaseModel::LoginPass { user_line } => match i {
            InputModel::Line(line) => login_step(user_line, line),
            InputModel::Disconnected => closed(),
            _ => (p, seq![]),
        },
        PhaseModel::PlainPayload => match i {
            InputModel::Line(line) => plain_step(trim(line)),
            InputModel::Disconnected => closed(),
            _ => (p, seq![]),
        },
        PhaseModel::AwaitLookup => match i {
            InputModel::LookupFound => (PhaseModel::Authenticated, seq![]),
            InputModel::LookupFailed => rejected_failed(),
            _ => (p, seq![]),
        },
        PhaseModel::Authenticated => (p, seq![]),
        PhaseModel::Closed => (p, seq![]),
    }
}

/// The dialogue with one client.
pub struct SmtpSession {
    pub phase: SmtpPhase,
}

fn reply(s: &str) -> (a: SmtpAction)
    ensures
        a@ == ActionModel::Reply(s@),
{
    SmtpAction::Reply(String::from_str(s))
}

fn bytes_prefix_zero_free(b: &[u8]) -> (r: usize)
    ensures
        r == zero_free_prefix(b@),
        r <= b@.len(),
{
    let n = b.len();
    let mut i: usize = 0;
    assert(b@.subrange(0, n as int) =~= b@);
    while i < n && b[i] != 0
        invariant
            n == b@.len(),
            i <= n,
            zero_free_prefix(b@) == i + zero_free_prefix(b@.subrange(i as int, n as int)),
        decreases n - i,
    {
        proof {
            let rest = b@.subrange(i as int, n as int);
            assert(rest.drop_first() =~= b@.subrange(i + 1, n as int));
        }
        i = i + 1;
    }
    proof {
        let rest = b@.subrange(i as int, n as int);
        if i < n {
            assert(rest[0] == 0);
        }
    }
    i
}

fn plain_credentials_exec(b: &[u8]) -> (r: Option<(&[u8], &[u8])>)
    ensures
        match r {
            Some((u, p)) => plain_credentials(b@) == Some((u@, p@)),
            None => plain_credentials(b@) is None,
        },
{
    proof {
        assert(b@.subrange(0, b@.len() as int) =~= b@);
    }
    let n = b.len();
    let a = bytes_prefix_zero_free(b);
    if a >= n {
        return None;
    }
    let r1 = vstd::slice::slice_subrange(b, a + 1, n);
    let c = bytes_prefix_zero_free(r1);
    if c >= r1.len() {
        return None;
    }
    let m = r1.len();
    let r2 = vstd::slice::slice_subrange(r1, c + 1, m);
    let d = bytes_prefix_zero_free(r2);
    let user = vstd::slice::slice_subrange(r1, 0, c);
    let pass = vstd::slice::slice_subrange(r2, 0, d);
    Some((user, pass))
}

fn plain_exec(payload: &str) -> (r: (SmtpPhase, Vec<SmtpAction>))
    ensures
        (r.0@, actions_model(r.1@)) == plain_step(payload@),
{
    match base64_decode(payload) {
        None => {
            let v = vec![reply("535 Authentication credentials invalid\r\n")];
            assert(actions_model(v@) =~= rejected_invalid().1);
            (SmtpPhase::Command, v)
        },
        Some(decoded) => match plain_credentials_exec(decoded.as_slice()) {
            None => {
                let v = vec![reply("535 Authentication failed\r\n"), SmtpAction::Flush];
                assert(actions_model(v@) =~= rejected_failed().1);
                (SmtpPhase::Command, v)
            },
            Some((u, p)) => {
                let user = utf8_lossy(u);
                let pass = utf8_lossy(p);
                let v = vec![SmtpAction::LookupUser { user, pass }];
                assert(actions_model(v@) =~= lookup(u@, p@).1);
                (SmtpPhase::AwaitLookup, v)
            },
        },
    }
}

fn login_exec(user_line: &str, pass_line: &str) -> (r: (SmtpPhase, Vec<SmtpAction>))
    ensures
        (r.0@, actions_model(r.1@)) == login_step(user_line@, pass_line@),
{
    let u = match base64_decode(trim_str(user_line)) {
        None => {
            let v = vec![reply("535 Authentication credentials invalid\r\n")];
            assert(actions_model(v@) =~= rejected_invalid().1);
            return (SmtpPhase::Command, v);
        },
        Some(u) => u,
    };
    let p = match base64_decode(trim_str(pass_line)) {
        None => {
            let v = vec![reply("535 Authentication credentials invalid\r\n")];
            assert(actions_model(v@) =~= rejected_invalid().1);
            return (SmtpPhase::Command, v);
        },
        Some(p) => p,
    };
    let user = utf8_lossy(u.as_slice());
    let pass = utf8_lossy(p.as_slice());
    let v = vec![SmtpAction::LookupUser { user, pass }];
    assert(actions_model(v@) =~= lookup(u@, p@).1);
    (SmtpPhase::AwaitLookup, v)
}

fn command_exec(cmd: &str) -> (r: (SmtpPhase, Vec<SmtpAction>))
    ensures
        (r.0@, actions_model(r.1@)) == command_step(cmd@),
{
    if cmd.unicode_len() == 0 {
        let v: Vec<SmtpAction> = Vec::new();
        assert(actions_model(v@) =~= seq![]);
        return (SmtpPhase::Command, v);
    }
    let upper = to_uppercase(cmd);
    let u = upper.as_str();
    if str_starts_with(u, "EHLO") || str_starts_with(u, "HELO") {
        let v = vec![reply("250-notify\r\n250-AUTH LOGIN PLAIN\r\n250 8BITMIME\r\n"), SmtpAction::Flush];
        assert(actions_model(v@) =~= command_step(cmd@).1);
        (SmtpPhase::Command, v)
    } else if str_eq(u, "AUTH LOGIN") {
        let v = vec![reply("334 VXNlcm5hbWU6\r\n"), SmtpAction::Flush];
        assert(actions_model(v@) =~= command_step(cmd@).1);
        (SmtpPhase::LoginUser, v)
    } else if str_starts_with(u, "AUTH PLAIN") {
        if str_eq(u, "AUTH PLAIN") {
            let v = vec![reply("334 \r\n"), SmtpAction::Flush];
            assert(actions_model(v@) =~= command_step(cmd@).1);
            (SmtpPhase::PlainPayload, v)
        } else if cmd.is_char_boundary(10) {
            let (_, rest) = cmd.split_at(10);
            proof {
                assert(rest@ == decode_utf8(rest.spec_bytes()));
                assert(rest.spec_bytes() =~= bytes_of(cmd@).subrange(10, bytes_of(cmd@).len() as int));
            }
            plain_exec(trim_str(rest))
        } else {
            let v: Vec<SmtpAction> = Vec::new();
            assert(actions_model(v@) =~= command_step(cmd@).1);
            (SmtpPhase::Closed, v)
        }
    } else if str_eq(u, "QUIT") {
        let v = vec![reply("221 Bye\r\n"), SmtpAction::Flush, SmtpAction::Close];
        assert(actions_model(v@) =~= command_step(cmd@).1);
        (SmtpPhase::Closed, v)
    } else {
        let v = vec![reply("530 5.7.0 Must authenticate first\r\n"), SmtpAction::Flush];
        assert(actions_model(v@) =~= command_step(cmd@).1);
        (SmtpPhase::Command, v)
    }
}

impl SmtpSession {
    /// A new dialogue: the greeting is written and flushed, then commands
    /// are awaited.
    pub fn start() -> (r: (SmtpSession, Vec<SmtpAction>))
        ensures
            r.0.phase@ == PhaseModel::Command,
            actions_model(r.1@) == seq![ActionModel::Reply("220 notify smtp proxy ready\r\n"@), ActionModel::Flush],
    {
        let v = vec![reply("220 notify smtp proxy ready\r\n"), SmtpAction::Flush];
        assert(actions_model(v@) =~= seq![ActionModel::Reply("220 notify smtp proxy ready\r\n"@), ActionModel::Flush]);
        (SmtpSession { phase: SmtpPhase::Command }, v)
    }

    /// Whether `step` cannot take this input: an inline AUTH PLAIN line
    /// whose payload would start inside a character.
    pub fn cannot_take(&self, input: &SmtpInput) -> (r: bool)
        ensures
            r == step_refused(self.phase@, input@),
    {
        match (&self.phase, input) {
            (SmtpPhase::Command, SmtpInput::Line(line)) => {
                let cmd = trim_str(line.as_str());
                if cmd.unicode_len() == 0 {
                    return false;
                }
                let upper = to_uppercase(cmd);
                let u = upper.as_str();
                !str_starts_with(u, "EHLO") && !str_starts_with(u, "HELO") && !str_eq(u, "AUTH LOGIN")
                    && str_starts_with(u, "AUTH PLAIN") && !str_eq(u, "AUTH PLAIN") && !cmd.is_char_boundary(10)
            },
            _ => false,
        }
    }

    /// Advances the dialogue by one observed input and returns what to do.
    pub fn step(&mut self, input: SmtpInput) -> (actions: Vec<SmtpAction>)
        requires
            !step_refused(old(self).phase@, input@),
        ensures
            (final(self).phase@, actions_model(actions@)) == step_spec(old(self).phase@, input@),
    {
        let (next, actions) = match (&self.phase, input) {
            (SmtpPhase::Command, SmtpInput::Line(line)) => command_exec(trim_str(line.as_str())),
            (SmtpPhase::LoginUser, SmtpInput::Line(line)) => {
                let v = vec![reply("334 UGFzc3dvcmQ6\r\n"), SmtpAction::Flush];
                assert(actions_model(v@) =~= seq![ActionModel::Reply("334 UGFzc3dvcmQ6\r\n"@), ActionModel::Flush]);
                (SmtpPhase::LoginPass { user_line: line }, v)
            },
            (SmtpPhase::LoginPass { user_line }, SmtpInput::Line(line)) => login_exec(user_line.as_str(), line.as_str()),
            (SmtpPhase::PlainPayload, SmtpInput::Line(line)) => plain_exec(trim_str(line.as_str())),
            (SmtpPhase::Command, SmtpInput::Disconnected)
            | (SmtpPhase::LoginUser, SmtpInput::Disconnected)
            | (SmtpPhase::LoginPass { .. }, SmtpInput::Disconnected)
            | (SmtpPhase::PlainPayload, SmtpInput::Disconnected) => {
                let v = vec![SmtpAction::Close];
                assert(actions_model(v@) =~= closed().1);
                (SmtpPhase::Closed, v)
            },
            (SmtpPhase::AwaitLookup, SmtpInput::LookupFound) => {
                let v: Vec<SmtpAction> = Vec::new();
                assert(actions_model(v@) =~= seq![]);
                (SmtpPhase::Authenticated, v)
            },
            (SmtpPhase::AwaitLookup, SmtpInput::LookupFailed) => {
                let v = vec![reply("535 Authentication failed\r\n"), SmtpAction::Flush];
                assert(actions_model(v@) =~= rejected_failed().1);
                (SmtpPhase::Command, v)
            },
            _ => {
                let v: Vec<SmtpAction> = Vec::new();
                assert(actions_model(v@) =~= seq![]);
                return v;
            },
        };
        self.phase = next;
        actions
    }
}


/// A line of a server reply without its trailing "\r\n" pairs.
pub open spec fn strip_crlf(s: Seq<char>) -> Seq<char>
    decreases s.len(),
{
    if s.len() >= 2 && s[s.len() - 2] == '\r' && s[s.len() - 1] == '\n' {
        strip_crlf(s.subrange(0, s.len() - 2))
    } else {
        s
    }
}

/// Whether a (stripped) reply line is the last of its reply: it is shorter
/// than four bytes, or its fourth character is a space (or missing).
pub open spec fn ends_reply(t: Seq<char>) -> bool {
    if bytes_of(t).len() >= 4 {
        (if t.len() > 3 { t[3] } else { ' ' }) == ' '
    } else {
        true
    }
}

proof fn lemma_strip_crlf_prefix(s: Seq<char>, k: int)
    requires
        0 <= k <= s.len(),
        (s.len() - k) % 2 == 0,
        forall|j: int| k <= j < s.len() ==> (#[trigger] s[j]) == (if (j - k) % 2 == 0 { '\r' } else { '\n' }),
    ensures
        strip_crlf(s) == strip_crlf(s.subrange(0, k)),
    decreases s.len() - k,
{
    if k < s.len() {
        let t = s.subrange(0, s.len() - 2);
        assert(s[s.len() - 2] == '\r');
        assert(s[s.len() - 1] == '\n');
        assert forall|j: int| k <= j < t.len() implies (#[trigger] t[j]) == (if (j - k) % 2 == 0 { '\r' } else { '\n' }) by {
            assert(t[j] == s[j]);
        }
        lemma_strip_crlf_prefix(t, k);
        assert(t.subrange(0, k) =~= s.subrange(0, k));
    } else {
        assert(s.subrange(0, k) =~= s);
    }
}

proof fn lemma_encoded_len(t: Seq<char>)
    ensures
        bytes_of(t).len() >= t.len(),
    decreases t.len(),
{
    if t.len() > 0 {
        lemma_encoded_len(t.drop_first());
    }
}

/// Reads one line of a server reply: the line without its trailing
/// "\r\n" pairs, and whether it ends the reply.
pub fn reply_line(line: &str) -> (r: (String, bool))
    ensures
        r.0@ == strip_crlf(line@),
        r.1 == ends_reply(strip_crlf(line@)),
{
    let n = line.unicode_len();
    let mut k: usize = n;
    while k >= 2 && line.get_char(k - 2) == '\r' && line.get_char(k - 1) == '\n'
        invariant
            n == line@.len(),
            k <= n,
            (n - k) % 2 == 0,
            forall|j: int| k <= j < n ==> (#[trigger] line@[j]) == (if (j - k) % 2 == 0 { '\r' } else { '\n' }),
        decreases k,
    {
        assert forall|j: int| k - 2 <= j < n implies (#[trigger] line@[j]) == (if (j - (k - 2)) % 2 == 0 { '\r' } else { '\n' }) by {
            if j >= k {
                assert((j - (k - 2)) % 2 == (j - k) % 2);
            }
        }
        k = k - 2;
    }
    proof {
        lemma_strip_crlf_prefix(line@, k as int);
        let t = line@.subrange(0, k as int);
        if k >= 2 {
            assert(t[t.len() - 2] == line@[k - 2]);
            assert(t[t.len() - 1] == line@[k - 1]);
        }
    }
    let t = line.substring_char(0, k);
    proof {
        lemma_encoded_len(t@);
    }
    let last = k <= 3 || t.get_char(3) == ' ';
    (String::from_str(t), last)
}

/// Progress of reading a server reply.
#[derive(Debug, PartialEq, Eq)]
pub enum ReplyProgress {
    /// More lines belong to the reply.
    More,
    /// The reply is complete.
    Complete,
    /// The server closed the connection before the reply was complete.
    Eof,
}

/// The lines of a server reply read so far.
#[derive(Debug)]
pub struct SmtpReply {
    pub lines: Vec<String>,
}

impl SmtpReply {
    pub fn new() -> (r: SmtpReply)
        ensures
            r.lines@.len() == 0,
    {
        SmtpReply { lines: Vec::new() }
    }

    /// Takes the next line read (`None` when the read returned no bytes).
    pub fn feed(&mut self, line: Option<&str>) -> (r: ReplyProgress)
        ensures
            match line {
                None => r == ReplyProgress::Eof && final(self).lines@ == old(self).lines@,
                Some(l) => views(final(self).lines@) == views(old(self).lines@).push(strip_crlf(l@))
                    && r == (if ends_reply(strip_crlf(l@)) { ReplyProgress::Complete } else { ReplyProgress::More }),
            },
    {
        match line {
            None => ReplyProgress::Eof,
            Some(l) => {
                let ghost before = views(self.lines@);
                let (t, last) = reply_line(l);
                self.lines.push(t);
                assert(views(self.lines@) =~= before.push(strip_crlf(l@)));
                if last {
                    ReplyProgress::Complete
                } else {
                    ReplyProgress::More
                }
            },
        }
    }
}

/// Whether a server accepted authentication: its reply's first line starts
/// with "235".
pub open spec fn auth_accepted(lines: Seq<Seq<char>>) -> bool {
    lines.len() > 0 && "235"@.is_prefix_of(lines[0])
}

pub fn reply_accepts_auth(lines: &Vec<String>) -> (r: bool)
    ensures
        r == auth_accepted(views(lines@)),
{
    lines.len() > 0 && str_starts_with(lines[0].as_str(), "235")
}

/// What the proxy tells its client once the relay has answered the
/// relay's authentication: success, or failure.
pub fn relay_auth_reply(lines: &Vec<String>) -> (r: (bool, String))
    ensures
        r.0 == auth_accepted(views(lines@)),
        r.1@ == (if r.0 { "235 Authentication successful\r\n"@ } else { "535 Relay authentication failed\r\n"@ }),
{
    if reply_accepts_auth(lines) {
        (true, String::from_str("235 Authentication successful\r\n"))
    } else {
        (false, String::from_str("535 Relay authentication failed\r\n"))
    }
}

/// A base64 line for AUTH LOGIN: the encoded text and "\r\n".
pub fn auth_login_line(secret: &str) -> (r: String)
    requires
        secret.spec_bytes().len() <= usize::MAX / 2,
    ensures
        r@ == base64_encoded_of(secret.spec_bytes()) + "\r\n"@,
{
    let mut line = base64_encode(secret);
    line.append("\r\n");
    line
}

/// "MAIL FROM:<address>\r\n".
pub fn mail_from_command(address: &str) -> (r: String)
    ensures
        r@ == "MAIL FROM:<"@ + address@ + ">\r\n"@,
{
    let mut c = String::from_str("MAIL FROM:<");
    c.append(address);
    c.append(">\r\n");
    c
}

/// "RCPT TO:<address>\r\n".
pub fn rcpt_to_command(address: &str) -> (r: String)
    ensures
        r@ == "RCPT TO:<"@ + address@ + ">\r\n"@,
{
    let mut c = String::from_str("RCPT TO:<");
    c.append(address);
    c.append(">\r\n");
    c
}

/// Whether the proxy serves an authenticated client from `client_ip`: when
/// an allow-list is configured, the address must be on it.
pub open spec fn ip_gate_open(allowed: Option<Seq<Seq<char>>>, ip: Seq<char>) -> bool {
    match allowed {
        Some(v) => v.contains(ip),
        None => true,
    }
}

/// The refusal for a client whose address is not allowed, if any.
pub fn ip_gate(allowed: &Option<Vec<String>>, client_ip: &str) -> (r: Option<String>)
    ensures
        match r {
            None => ip_gate_open(allowed.deep_view(), client_ip@),
            Some(m) => !ip_gate_open(allowed.deep_view(), client_ip@)
                && m@ == "554 5.7.1 Access denied: IP address blocked\r\n"@,
        },
{
    match allowed {
        None => None,
        Some(v) => {
            let mut i: usize = 0;
            assert(allowed.deep_view() == Some(v.deep_view()));
            while i < v.len()
                invariant
                    i <= v@.len(),
                    allowed.deep_view() == Some(v.deep_view()),
                    forall|j: int| 0 <= j < i ==> (#[trigger] v@[j])@ != client_ip@,
                decreases v@.len() - i,
            {
                if str_eq(v[i].as_str(), client_ip) {
                    assert(v.deep_view()[i as int] == client_ip@);
                    assert(v.deep_view().contains(client_ip@));
                    assert(allowed.deep_view() == Some(v.deep_view()));
                    return None;
                }
                i = i + 1;
            }
            assert(!v.deep_view().contains(client_ip@)) by {
                if v.deep_view().contains(client_ip@) {
                    let j = choose|j: int| 0 <= j < v.deep_view().len() && v.deep_view()[j] == client_ip@;
                    assert(v@[j]@ == v.deep_view()[j]);
                }
            }
            Some(String::from_str("554 5.7.1 Access denied: IP address blocked\r\n"))
        },
    }
}

/// The reply to a client whose rate-limit reservation was refused: a
/// permanent refusal when the message mentions "blocked", a temporary one
/// otherwise.
pub fn rate_limit_refusal(message: &str) -> (r: String)
    ensures
        r@ == (if contains_text(message@, "blocked"@) {
            "554 5.7.1 Sending not allowed by rate limit config\r\n"@
        } else {
            "451 4.7.1 Rate limit exceeded. Try again later\r\n"@
        }),
{
    if text_contains(message, "blocked") {
        String::from_str("554 5.7.1 Sending not allowed by rate limit config\r\n")
    } else {
        String::from_str("451 4.7.1 Rate limit exceeded. Try again later\r\n")
    }
}

/// What to do with the configuration found for the client: relay through
/// an SMTP configuration, or refuse (lookup failure, or an API-only
/// configuration).
pub fn relay_config(found: Result<EmailConfig, String>) -> (r: Result<EmailSmtp, String>)
    ensures
        match found {
            Err(_) => r is Err && r->Err_0@ == "554 5.7.1 Transaction failed: email registry lookup failed\r\n"@,
            Ok(EmailConfig::Api(_)) => r is Err && r->Err_0@ == "554 5.7.1 API channel is not supported by smtp proxy\r\n"@,
            Ok(EmailConfig::Smtp(c)) => r == Ok::<EmailSmtp, String>(c),
        },
{
    match found {
        Err(_) => Err(String::from_str("554 5.7.1 Transaction failed: email registry lookup failed\r\n")),
        Ok(EmailConfig::Api(_)) => Err(String::from_str("554 5.7.1 API channel is not supported by smtp proxy\r\n")),
        Ok(EmailConfig::Smtp(c)) => Ok(c),
    }
}


/// The dialogue after a sequence of inputs from phase `p`: the last phase
/// and every action asked for, in order.
pub open spec fn run(p: PhaseModel, inputs: Seq<InputModel>) -> (PhaseModel, Seq<ActionModel>)
    decreases inputs.len(),
{
    if inputs.len() == 0 {
        (p, seq![])
    } else {
        let first = step_spec(p, inputs[0]);
        let rest = run(first.0, inputs.drop_first());
        (rest.0, first.1 + rest.1)
    }
}

/// A client is authenticated only by a lookup that found its credential:
/// from any phase other than a pending lookup, no input leads into
/// `Authenticated`.
pub proof fn lemma_authenticated_only_by_found_lookup(p: PhaseModel, i: InputModel)
    ensures
        step_spec(p, i).0 is Authenticated ==> (p is Authenticated || (p is AwaitLookup && i is LookupFound)),
{
}

/// Once authenticated or closed, the dialogue is over: every input leaves
/// the phase as it is and asks for nothing.
pub proof fn lemma_end_phases_are_final(p: PhaseModel, i: InputModel)
    requires
        p is Authenticated || p is Closed,
    ensures
        step_spec(p, i) == (p, Seq::<ActionModel>::empty()),
{
}

/// A step that enters the wait for a lookup asks for exactly that lookup,
/// and a step that asks for a lookup then waits for its outcome.
pub proof fn lemma_lookup_then_wait(p: PhaseModel, i: InputModel)
    ensures
        (step_spec(p, i).0 is AwaitLookup && !(p is AwaitLookup)) ==> (step_spec(p, i).1.len() == 1
            && step_spec(p, i).1[0] is LookupUser),
        (exists|k: int| 0 <= k < step_spec(p, i).1.len() && #[trigger] step_spec(p, i).1[k] is LookupUser)
            ==> step_spec(p, i).0 is AwaitLookup,
{
}

/// A client that goes away before it is authenticated ends the dialogue:
/// the connection is closed, with no reply.
pub proof fn lemma_disconnect_closes(p: PhaseModel)
    requires
        !(p is Authenticated || p is Closed || p is AwaitLookup),
    ensures
        step_spec(p, InputModel::Disconnected) == closed(),
{
}

/// A lookup that finds nothing is answered "535 Authentication failed" and
/// commands are awaited again.
pub proof fn lemma_failed_lookup_rejects()
    ensures
        step_spec(PhaseModel::AwaitLookup, InputModel::LookupFailed) == rejected_failed(),
{
}

/// Before authentication, a command other than EHLO, HELO, AUTH LOGIN,
/// AUTH PLAIN and QUIT is refused with "530 5.7.0 Must authenticate first"
/// and commands are still awaited.
pub proof fn lemma_unknown_command_refused(line: Seq<char>)
    requires
        trim(line).len() > 0,
        !"EHLO"@.is_prefix_of(uppercase_of(trim(line))),
        !"HELO"@.is_prefix_of(uppercase_of(trim(line))),
        !"AUTH PLAIN"@.is_prefix_of(uppercase_of(trim(line))),
        uppercase_of(trim(line)) != "AUTH LOGIN"@,
        uppercase_of(trim(line)) != "QUIT"@,
    ensures
        step_spec(PhaseModel::Command, InputModel::Line(line)) == (
            PhaseModel::Command,
            seq![ActionModel::Reply("530 5.7.0 Must authenticate first\r\n"@), ActionModel::Flush],
        ),
{
}

/// Over any sequence of inputs, a dialogue that starts outside a pending
/// lookup ends authenticated only if it asked for a lookup on the way.
pub proof fn lemma_run_authenticates_after_lookup(p: PhaseModel, inputs: Seq<InputModel>)
    requires
        !(p is Authenticated || p is AwaitLookup),
        run(p, inputs).0 is Authenticated,
    ensures
        exists|k: int| 0 <= k < run(p, inputs).1.len() && #[trigger] run(p, inputs).1[k] is LookupUser,
    decreases inputs.len(),
{
    if inputs.len() == 0 {
        assert(run(p, inputs).0 == p);
    } else {
        let first = step_spec(p, inputs[0]);
        let rest = run(first.0, inputs.drop_first());
        lemma_authenticated_only_by_found_lookup(p, inputs[0]);
        assert(run(p, inputs).1 == first.1 + rest.1);
        if first.0 is AwaitLookup {
            lemma_lookup_then_wait(p, inputs[0]);
            assert(run(p, inputs).1[0] is LookupUser);
        } else if first.0 is Authenticated {
            assert(false);
        } else {
            lemma_run_authenticates_after_lookup(first.0, inputs.drop_first());
            let k = choose|k: int| 0 <= k < rest.1.len() && #[trigger] rest.1[k] is LookupUser;
            assert(run(p, inputs).1[first.1.len() + k] is LookupUser);
        }
    }
}

} // verus!
