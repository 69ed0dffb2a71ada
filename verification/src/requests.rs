//! What the client sends to the remote service and how it reads the answer:
//! the head of each request, and the outcome of each call.

use chrono::Offset;
use vstd::prelude::*;
use vstd::string::StringExecFns;
use crate::cookies::{csrf_token_of, extract_csrf_token};
use crate::text::{decimal, from_chars, push_decimal};

verus! {

/// Outcome of one remote call.
///
/// `status` is the HTTP status, or 0 where no answer arrived. `success` is
/// `true` exactly for the statuses 200, 201 and 204.
#[derive(Debug)]
pub struct ApiResponse {
    pub status: u16,
    pub data: String,
    pub success: bool,
}

/// Mathematical value of an [`ApiResponse`].
pub struct ApiResponseView {
    pub status: u16,
    pub data: Seq<char>,
    pub success: bool,
}

impl View for ApiResponse {
    type V = ApiResponseView;

    open spec fn view(&self) -> ApiResponseView {
        ApiResponseView { status: self.status, data: self.data@, success: self.success }
    }
}

impl Clone for ApiResponse {
    fn clone(&self) -> (copy: Self)
        ensures
            copy@ == self@,
    {
        ApiResponse { status: self.status, data: self.data.clone(), success: self.success }
    }
}

/// The statuses that count as success.
pub open spec fn is_success_status(status: u16) -> bool {
    status == 200 || status == 201 || status == 204
}

/// What the transport hands back when the service answered.
#[derive(Debug)]
pub struct HttpReply {
    pub status: u16,
    pub body: String,
}

/// The outcome of a call that was answered with `status` and `body`.
pub open spec fn answered(status: u16, body: Seq<char>) -> ApiResponseView {
    ApiResponseView { status, data: body, success: is_success_status(status) }
}

/// The outcome of a call that the transport could not carry out: status 0,
/// no success, and the transport's message behind a fixed prefix.
pub open spec fn unanswered(message: Seq<char>) -> ApiResponseView {
    ApiResponseView { status: 0, data: "请求失败: "@ + message, success: false }
}

/// Turns what the transport returned into the outcome of the call. A
/// failure of the transport is an outcome like any other, never an error.
pub fn to_api_response(result: Result<HttpReply, String>) -> (response: ApiResponse)
    ensures
        response@ == match result {
            Ok(reply) => answered(reply.status, reply.body@),
            Err(message) => unanswered(message@),
        },
        response.success ==> is_success_status(response.status),
{
    match result {
        Ok(reply) => {
            let status = reply.status;
            ApiResponse {
                status,
                data: reply.body,
                success: status == 200 || status == 201 || status == 204,
            }
        },
        Err(message) => {
            let mut data = String::new();
            data.append("请求失败: ");
            data.append(message.as_str());
            assert(data@ =~= "请求失败: "@ + message@);
            ApiResponse { status: 0, data, success: false }
        },
    }
}

/// `n` in decimal, with a zero before a single digit.
pub open spec fn two_digits(n: nat) -> Seq<char> {
    if n < 10 {
        seq!['0'] + decimal(n)
    } else {
        decimal(n)
    }
}

/// The text of a time-zone offset of `secs` seconds east of UTC: the signed
/// hours in at least two digits, a colon, and the minutes in at least two
/// characters. Hours and minutes are both rounded toward zero and carry the
/// sign of the offset where they are not zero; the hours always show a sign.
pub open spec fn tz_offset_text(secs: int) -> Seq<char> {
    let size = if secs < 0 {
        -secs
    } else {
        secs
    };
    let hours = (size / 3600) as nat;
    let minutes = ((size % 3600) / 60) as nat;
    (if secs < 0 && hours > 0 {
        seq!['-']
    } else {
        seq!['+']
    }) + two_digits(hours) + seq![':'] + (if secs < 0 && minutes > 0 {
        seq!['-'] + decimal(minutes)
    } else {
        two_digits(minutes)
    })
}

fn push_two_digits(out: &mut Vec<char>, n: u64)
    ensures
        final(out)@ == old(out)@ + two_digits(n as nat),
{
    if n < 10 {
        out.push('0');
    }
    push_decimal(out, n);
    assert(out@ =~= old(out)@ + two_digits(n as nat));
}

/// Writes a time-zone offset given in seconds east of UTC.
pub fn format_tz_offset(secs: i32) -> (text: String)
    ensures
        text@ == tz_offset_text(secs as int),
{
    let negative = secs < 0;
    let size: u64 = if negative {
        (-(secs as i64)) as u64
    } else {
        secs as u64
    };
    let hours: u64 = size / 3600;
    let minutes: u64 = (size % 3600) / 60;
    let mut out: Vec<char> = Vec::new();
    if negative && hours > 0 {
        out.push('-');
    } else {
        out.push('+');
    }
    push_two_digits(&mut out, hours);
    out.push(':');
    if negative && minutes > 0 {
        out.push('-');
        push_decimal(&mut out, minutes);
    } else {
        push_two_digits(&mut out, minutes);
    }
    assert(out@ =~= tz_offset_text(secs as int));
    from_chars(&out)
}

/// The offset of the local time zone from UTC at this moment, in seconds,
/// as `chrono::Local::now` and `FixedOffset::local_minus_utc` report it. The
/// value depends on the clock and the zone of the machine; a `FixedOffset`
/// is always less than a day either way, and the contract says no more.
#[verifier::external_body]
fn local_offset_seconds() -> (secs: i32)
    ensures
        -86_400 < secs < 86_400,
{
    chrono::Local::now().offset().fix().local_minus_utc()
}

/// The local time-zone offset, as it goes into the `X-TZ` header.
pub fn tz_offset_string() -> (text: String)
    ensures
        exists|secs: int| -86_400 < secs < 86_400 && text@ == tz_offset_text(secs),
{
    let secs = local_offset_seconds();
    let text = format_tz_offset(secs);
    assert(-86_400 < (secs as int) && (secs as int) < 86_400 && text@ == tz_offset_text(
        secs as int,
    ));
    text
}

/// The HTTP methods that the client uses.
#[derive(Clone, Copy, Debug, PartialEq, Eq, Structural)]
pub enum HttpMethod {
    Get,
    Post,
    Delete,
}

/// The head of a request to the remote service: the method, the address,
/// and the three headers that every request carries.
#[derive(Debug)]
pub struct RequestHead {
    pub method: HttpMethod,
    pub url: String,
    /// Value of the `Cookie` header.
    pub cookie: String,
    /// Value of the `X-TZ` header.
    pub tz: String,
    /// Value of the `X-Csrftoken` header.
    pub csrf_token: String,
}

/// Mathematical value of a [`RequestHead`].
pub struct RequestHeadView {
    pub method: HttpMethod,
    pub url: Seq<char>,
    pub cookie: Seq<char>,
    pub tz: Seq<char>,
    pub csrf_token: Seq<char>,
}

impl View for RequestHead {
    type V = RequestHeadView;

    open spec fn view(&self) -> RequestHeadView {
        RequestHeadView {
            method: self.method,
            url: self.url@,
            cookie: self.cookie@,
            tz: self.tz@,
            csrf_token: self.csrf_token@,
        }
    }
}

/// The head of a request sent with the cookies `header_cookie` from a zone
/// `offset_secs` seconds east of UTC: the CSRF token is read out of the
/// cookies.
pub open spec fn request_head_of(
    method: HttpMethod,
    url: Seq<char>,
    header_cookie: Seq<char>,
    offset_secs: int,
) -> RequestHeadView {
    RequestHeadView {
        method,
        url,
        cookie: header_cookie,
        tz: tz_offset_text(offset_secs),
        csrf_token: csrf_token_of(header_cookie),
    }
}

/// Builds the head of a request for a given time-zone offset.
pub fn request_head(method: HttpMethod, url: &str, header_cookie: &str, offset_secs: i32) -> (head:
    RequestHead)
    ensures
        head@ == request_head_of(method, url@, header_cookie@, offset_secs as int),
{
    RequestHead {
        method,
        url: String::from_str(url),
        cookie: String::from_str(header_cookie),
        tz: format_tz_offset(offset_secs),
        csrf_token: extract_csrf_token(header_cookie),
    }
}

fn local_request_head(method: HttpMethod, url: &str, header_cookie: &str) -> (head: RequestHead)
    ensures
        exists|secs: int|
            -86_400 < secs < 86_400 && head@ == request_head_of(method, url@, header_cookie@, secs),
{
    let secs = local_offset_seconds();
    let head = request_head(method, url, header_cookie, secs);
    assert(-86_400 < (secs as int) && (secs as int) < 86_400 && head@ == request_head_of(
        method,
        url@,
        header_cookie@,
        secs as int,
    ));
    head
}

/// The head of a `GET` request with the common headers, for the local zone.
pub fn base_get_request(url: &str, header_cookie: &str) -> (head: RequestHead)
    ensures
        exists|secs: int|
            -86_400 < secs < 86_400 && head@ == request_head_of(
                HttpMethod::Get,
                url@,
                header_cookie@,
                secs,
            ),
{
    local_request_head(HttpMethod::Get, url, header_cookie)
}

/// The head of a `POST` request with the common headers, for the local zone.
pub fn base_post_request(url: &str, header_cookie: &str) -> (head: RequestHead)
    ensures
        exists|secs: int|
            -86_400 < secs < 86_400 && head@ == request_head_of(
                HttpMethod::Post,
                url@,
                header_cookie@,
                secs,
            ),
{
    local_request_head(HttpMethod::Post, url, header_cookie)
}

/// The head of a `DELETE` request with the common headers, for the local
/// zone.
pub fn base_delete_request(url: &str, header_cookie: &str) -> (head: RequestHead)
    ensures
        exists|secs: int|
            -86_400 < secs < 86_400 && head@ == request_head_of(
                HttpMethod::Delete,
                url@,
                header_cookie@,
                secs,
            ),
{
    local_request_head(HttpMethod::Delete, url, header_cookie)
}

} // verus!
