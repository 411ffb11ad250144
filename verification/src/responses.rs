//! HTTP replies of the server: a status code, a content type and a body.
use vstd::prelude::*;
use crate::json::{Json, JsonValue};
use crate::endpoints::content::{hex_char, hex_digit};
use crate::text::{chars_of, push_char, push_str};

verus! {

pub const STATUS_OK: u16 = 200;
pub const STATUS_BAD_REQUEST: u16 = 400;
pub const STATUS_UNAUTHORIZED: u16 = 401;
pub const STATUS_NOT_FOUND: u16 = 404;
pub const STATUS_CONFLICT: u16 = 409;
pub const STATUS_INTERNAL_SERVER_ERROR: u16 = 500;
pub const STATUS_BAD_GATEWAY: u16 = 502;

/// The content type of a reply.
#[derive(PartialEq, Eq, Structural, Clone, Copy, Debug)]
pub enum ContentKind {
    Json,
    Html,
}

/// The body of a reply: text, or a JSON document that is serialized when
/// the reply is sent.
pub enum ResponseBody {
    Text(String),
    Document(JsonValue),
}

/// The model of a reply body.
pub enum Body {
    Text(Seq<char>),
    Document(Json),
}

impl ResponseBody {
    pub open spec fn view(&self) -> Body {
        match self {
            ResponseBody::Text(s) => Body::Text(s@),
            ResponseBody::Document(j) => Body::Document(j@),
        }
    }
}

/// A reply: status code, content type and body.
pub struct ApiResponse {
    pub status: u16,
    pub content_kind: ContentKind,
    pub body: ResponseBody,
}

/// A reply that is either content or a redirection to a location.
pub enum ContentOrRedirect {
    Content(ApiResponse),
    Redirect(String),
}

/// How a character is written inside a JSON string literal: `"` and `\`
/// behind a backslash; backspace, tab, newline, form feed and carriage
/// return as `\b \t \n \f \r`; the other characters below 0x20 as
/// `\u00` and two lower-case hexadecimal digits; every other character as
/// it is.
pub open spec fn escape_char(c: char) -> Seq<char> {
    if c == '"' {
        seq!['\\', '"']
    } else if c == '\\' {
        seq!['\\', '\\']
    } else if c == '\u{8}' {
        seq!['\\', 'b']
    } else if c == '\t' {
        seq!['\\', 't']
    } else if c == '\n' {
        seq!['\\', 'n']
    } else if c == '\u{c}' {
        seq!['\\', 'f']
    } else if c == '\r' {
        seq!['\\', 'r']
    } else if (c as u32) < 32 {
        seq!['\\', 'u', '0', '0', hex_digit(((c as u32) / 16) as int), hex_digit(((c as u32) % 16) as int)]
    } else {
        seq![c]
    }
}

/// The characters of `s`, each written as in a JSON string literal.
pub open spec fn escaped(s: Seq<char>) -> Seq<char>
    decreases s.len(),
{
    if s.len() == 0 {
        Seq::empty()
    } else {
        escaped(s.drop_last()) + escape_char(s.last())
    }
}

/// The text of `s` as a JSON string literal, quotes and escapes included,
/// as `serde_json::to_string` writes it. Opaque: the reply texts built on
/// it are stated through it, and `json_quote` reveals it.
#[verifier::opaque]
pub open spec fn json_string_text(s: Seq<char>) -> Seq<char> {
    seq!['"'] + escaped(s) + seq!['"']
}

/// The JSON string literal for `s`.
pub(crate) fn json_quote(s: &str) -> (r: String)
    ensures
        r@ == json_string_text(s@),
{
    let v = chars_of(s);
    let mut r = String::new();
    push_char(&mut r, '"');
    let mut i: usize = 0;
    while i < v.len()
        invariant
            i <= v@.len(),
            v@ == s@,
            r@ == seq!['"'] + escaped(s@.take(i as int)),
        decreases v@.len() - i,
    {
        let c = v[i];
        let ghost before = r@;
        if c == '"' {
            push_char(&mut r, '\\');
            push_char(&mut r, '"');
        } else if c == '\\' {
            push_char(&mut r, '\\');
            push_char(&mut r, '\\');
        } else if c == '\u{8}' {
            push_char(&mut r, '\\');
            push_char(&mut r, 'b');
        } else if c == '\t' {
            push_char(&mut r, '\\');
            push_char(&mut r, 't');
        } else if c == '\n' {
            push_char(&mut r, '\\');
            push_char(&mut r, 'n');
        } else if c == '\u{c}' {
            push_char(&mut r, '\\');
            push_char(&mut r, 'f');
        } else if c == '\r' {
            push_char(&mut r, '\\');
            push_char(&mut r, 'r');
        } else if (c as u32) < 32 {
            let b = c as u32;
            push_char(&mut r, '\\');
            push_char(&mut r, 'u');
            push_char(&mut r, '0');
            push_char(&mut r, '0');
            push_char(&mut r, hex_char((b / 16) as u8));
            push_char(&mut r, hex_char((b % 16) as u8));
        } else {
            push_char(&mut r, c);
        }
        proof {
            assert(s@.take(i + 1).drop_last() =~= s@.take(i as int));
            assert(s@.take(i + 1).last() == c);
            assert(r@ =~= before + escape_char(c));
        }
        i += 1;
    }
    proof {
        assert(s@.take(v@.len() as int) =~= s@);
        reveal(json_string_text);
    }
    push_char(&mut r, '"');
    r
}

/// The body `{"is_good":<good>,"reason":<reason>}`.
pub open spec fn data_body(good: bool, reason: Seq<char>) -> Seq<char> {
    (if good {
        "{\"is_good\":true,\"reason\":"@
    } else {
        "{\"is_good\":false,\"reason\":"@
    }) + json_string_text(reason) + "}"@
}

fn data_response_text(good: bool, reason: &str) -> (r: String)
    ensures
        r@ == data_body(good, reason@),
{
    let mut r = if good {
        "{\"is_good\":true,\"reason\":".to_owned()
    } else {
        "{\"is_good\":false,\"reason\":".to_owned()
    };
    let q = json_quote(reason);
    push_str(&mut r, q.as_str());
    push_str(&mut r, "}");
    r
}

/// The JSON body of a successful data reply.
pub fn make_good_json_data_response(reason: String) -> (r: String)
    ensures
        r@ == data_body(true, reason@),
{
    data_response_text(true, reason.as_str())
}

/// The JSON body of a failed data reply.
pub fn make_bad_json_data_response(reason: String) -> (r: String)
    ensures
        r@ == data_body(false, reason@),
{
    data_response_text(false, reason.as_str())
}

/// The body `{"is_enabled":<enabled>}`.
pub open spec fn net_status_body(enabled: bool) -> Seq<char> {
    if enabled {
        "{\"is_enabled\":true}"@
    } else {
        "{\"is_enabled\":false}"@
    }
}

/// The JSON body that reports whether networking is enabled.
pub fn make_net_status_response(enabled: bool) -> (r: String)
    ensures
        r@ == net_status_body(enabled),
{
    if enabled {
        "{\"is_enabled\":true}".to_owned()
    } else {
        "{\"is_enabled\":false}".to_owned()
    }
}

/// Whether `r` is a JSON reply with this status and text body.
pub open spec fn is_json_text(r: ApiResponse, status: u16, body: Seq<char>) -> bool {
    &&& r.status == status
    &&& r.content_kind == ContentKind::Json
    &&& r.body@ == Body::Text(body)
}

/// Whether `r` is a failed data reply with this status and reason.
pub open spec fn is_bad(r: ApiResponse, status: u16, reason: Seq<char>) -> bool {
    is_json_text(r, status, data_body(false, reason))
}

/// Whether `r` is the plain success reply `{"is_good":true,"reason":"ok"}`.
pub open spec fn is_ok_ok(r: ApiResponse) -> bool {
    is_json_text(r, STATUS_OK, data_body(true, "ok"@))
}

/// Whether `r` is content that is a failed data reply with this status and
/// reason.
pub open spec fn is_bad_content(r: ContentOrRedirect, status: u16, reason: Seq<char>) -> bool {
    match r {
        ContentOrRedirect::Content(e) => is_bad(e, status, reason),
        _ => false,
    }
}

/// Whether `r` redirects to `to`.
pub open spec fn is_redirect_to(r: ContentOrRedirect, to: Seq<char>) -> bool {
    match r {
        ContentOrRedirect::Redirect(t) => t@ == to,
        _ => false,
    }
}

/// A JSON reply with status 200 and the given body.
pub fn ok_json_response(body: String) -> (r: ApiResponse)
    ensures
        is_json_text(r, STATUS_OK, body@),
{
    ApiResponse { status: STATUS_OK, content_kind: ContentKind::Json, body: ResponseBody::Text(body) }
}

/// A JSON reply with the given status and body.
pub fn not_ok_json_response(status: u16, body: String) -> (r: ApiResponse)
    ensures
        is_json_text(r, status, body@),
{
    ApiResponse { status, content_kind: ContentKind::Json, body: ResponseBody::Text(body) }
}

/// A failed data reply with the given status and reason.
pub fn bad_response(status: u16, reason: String) -> (r: ApiResponse)
    ensures
        is_bad(r, status, reason@),
{
    not_ok_json_response(status, make_bad_json_data_response(reason))
}

/// The success reply `{"is_good":true,"reason":"ok"}` with status 200.
pub fn ok_ok_json_response() -> (r: ApiResponse)
    ensures
        is_ok_ok(r),
{
    let ok = "ok".to_owned();
    ok_json_response(make_good_json_data_response(ok))
}

/// A reply whose body is a JSON document.
pub fn json_payload_response(status: u16, payload: JsonValue) -> (r: ApiResponse)
    ensures
        r.status == status,
        r.content_kind == ContentKind::Json,
        r.body@ == Body::Document(payload@),
{
    ApiResponse { status, content_kind: ContentKind::Json, body: ResponseBody::Document(payload) }
}

/// The reason given when networking is disabled.
pub open spec fn offline_reason() -> Seq<char> {
    "offline mode"@
}

/// The reply to a request that needs the network while it is disabled.
pub fn not_ok_offline_json_response() -> (r: ApiResponse)
    ensures
        is_bad(r, STATUS_UNAUTHORIZED, offline_reason()),
{
    bad_response(STATUS_UNAUTHORIZED, "offline mode".to_owned())
}

/// The reason given when a repository path is refused.
pub open spec fn bad_repo_reason() -> Seq<char> {
    "bad repo path"@
}

/// The reply to a request whose repository path is refused.
pub fn not_ok_bad_repo_json_response() -> (r: ApiResponse)
    ensures
        is_bad(r, STATUS_BAD_REQUEST, bad_repo_reason()),
{
    bad_response(STATUS_BAD_REQUEST, "bad repo path".to_owned())
}

} // verus!
