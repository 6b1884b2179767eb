//! The dashboard's requests to the gateway: addresses, bodies, and what a
//! refused request is reported as.

use vstd::prelude::*;

use crate::text;
use crate::text::decimal;

verus! {

/// The gateway's answer to a request for its token.
#[derive(Debug, Clone)]
pub struct TokenResponse {
    pub token: String,
}

/// Which parts of the voice pipeline are up.
#[derive(Debug, Clone, Copy)]
pub struct VoiceStatusResponse {
    pub stt_ready: bool,
    pub tts_ready: bool,
}

/// Where the streaming recogniser listens. The digest is empty while it is
/// still starting.
#[derive(Debug, Clone)]
pub struct StreamingConfigResponse {
    pub url: String,
    pub cert_sha256: String,
}

/// A chat message, with screenshots in base64 if there are any.
#[derive(Debug)]
pub struct SendBody<'a> {
    pub content: &'a str,
    pub images: Option<Vec<String>>,
}

/// Where the gateway listens.
pub open spec fn gateway_url() -> Seq<char> {
    "http://127.0.0.1:3030"@
}

/// The address of a path on the gateway.
pub fn url(path: &str) -> (u: String)
    ensures
        u@ == gateway_url() + path@,
{
    let mut u = "http://127.0.0.1:3030".to_owned();
    u.push_str(path);
    u
}

/// The address of the chat event stream. The token goes into the query: event
/// sources cannot set headers.
pub fn events_url(token: &str) -> (u: String)
    ensures
        u@ == gateway_url() + "/api/chat/events?token="@ + token@,
{
    let mut u = url("/api/chat/events?token=");
    u.push_str(token);
    u
}

/// The value of the authorization header.
pub fn bearer(token: &str) -> (h: String)
    ensures
        h@ == "Bearer "@ + token@,
{
    let mut h = "Bearer ".to_owned();
    h.push_str(token);
    h
}

/// Whether a status means success.
pub open spec fn is_ok(status: u16) -> bool {
    200 <= status < 300
}

/// What a reply with this status is reported as: nothing when it succeeded,
/// else the label and the number.
pub fn status_error(label: &str, status: u16) -> (r: Result<(), String>)
    ensures
        r is Ok <==> is_ok(status),
        r matches Err(e) ==> e@ == label@ + " "@ + text::decimal_spec(status as nat),
{
    if 200 <= status && status < 300 {
        Ok(())
    } else {
        let mut e = label.to_owned();
        e.push_str(" ");
        e.push_str(decimal(status as u64).as_str());
        Err(e)
    }
}

/// The same with the body of the reply.
pub fn status_error_with_body(label: &str, status: u16, body: &str) -> (r: Result<(), String>)
    ensures
        r is Ok <==> is_ok(status),
        r matches Err(e) ==> e@ == label@ + " "@ + text::decimal_spec(status as nat) + ": "@
            + body@,
{
    match status_error(label, status) {
        Ok(()) => Ok(()),
        Err(mut e) => {
            e.push_str(": ");
            e.push_str(body);
            Err(e)
        },
    }
}

/// The images to send with a message: a frame of the shared screen first, then
/// a screenshot that was taken for this message. None when there are none.
pub fn outgoing_images(frame: Option<String>, screenshot: Option<String>) -> (r: Option<
    Vec<String>,
>)
    ensures
        r is None <==> frame is None && screenshot is None,
        r matches Some(v) ==> v@ == match (frame, screenshot) {
            (Some(f), Some(s)) => seq![f, s],
            (Some(f), None) => seq![f],
            (None, Some(s)) => seq![s],
            (None, None) => Seq::empty(),
        },
{
    let mut v: Vec<String> = Vec::new();
    if let Some(f) = frame {
        v.push(f);
    }
    if let Some(s) = screenshot {
        v.push(s);
    }
    if v.len() == 0 {
        None
    } else {
        Some(v)
    }
}

/// A status from 200 to 299 means success and no other does; the gateway listens
/// on this machine alone.
pub proof fn law_what_success_is(status: u16)
    ensures
        is_ok(status) <==> status / 100 == 2,
        gateway_url() == "http://127.0.0.1:3030"@,
{
}

/// Addresses are those of the gateway on this machine, and a token is sent as a
/// bearer's.
pub proof fn law_addresses(path: &str, token: &str, u: String, e: String, h: String)
    requires
        call_ensures(url, (path,), u),
        call_ensures(events_url, (token,), e),
        call_ensures(bearer, (token,), h),
    ensures
        u@ == "http://127.0.0.1:3030"@ + path@,
        e@ == "http://127.0.0.1:3030"@ + "/api/chat/events?token="@ + token@,
        h@ == "Bearer "@ + token@,
{
}

/// A reply that failed is reported by its label and status, and its body where
/// that is wanted.
pub proof fn law_failures_are_reported(
    label: &str,
    status: u16,
    body: &str,
    r: Result<(), String>,
    b: Result<(), String>,
)
    requires
        call_ensures(status_error, (label, status), r),
        call_ensures(status_error_with_body, (label, status, body), b),
    ensures
        r is Ok <==> 200 <= status <= 299,
        b is Ok <==> 200 <= status <= 299,
        r is Err ==> r->Err_0@ == label@ + " "@ + text::decimal_spec(status as nat),
        b is Err ==> b->Err_0@ == label@ + " "@ + text::decimal_spec(status as nat) + ": "@ + body@,
{
}

/// A frame of the shared screen goes before a screenshot.
pub proof fn law_pictures_in_order(f: String, s: String, r: Option<Vec<String>>)
    requires
        call_ensures(outgoing_images, (Some(f), Some(s)), r),
    ensures
        r is Some && r->0@ == seq![f, s],
{
}

} // verus!
