//! The decisions of the WeChat channel plugin: how a login starts and what a QR code
//! answer gives, how a QR login is checked, when typing needs a ticket first, and
//! how a reply is sent. The plugin awaits the host between these steps.

use crate::providers::{make_http_effect, weixin_headers};
use crate::sdk::{CheckLoginOutput, HttpEffect, LoginOutput};
use crate::text::{concat2, to_string};
use vstd::prelude::*;

verus! {

/// Where the QR code of a login is fetched.
pub const QR_CODE_URL: &'static str = "https://ilinkai.weixin.qq.com/ilink/bot/get_bot_qrcode?bot_type=3";

/// Where the state of a QR login is asked, followed by the QR code's id.
pub const QR_STATUS_URL: &'static str = "https://ilinkai.weixin.qq.com/ilink/bot/get_qrcode_status?qrcode=";

/// Where the typing indicator is set.
pub const SEND_TYPING_URL: &'static str = "https://ilinkai.weixin.qq.com/ilink/bot/sendtyping";

/// Where the typing ticket of a chat is fetched.
pub const GET_CONFIG_URL: &'static str = "https://ilinkai.weixin.qq.com/ilink/bot/getconfig";

/// Where messages are sent.
pub const SEND_MESSAGE_URL: &'static str = "https://ilinkai.weixin.qq.com/ilink/bot/sendmessage";

/// The body sent when a reply has no context token to go with.
pub const NO_CONTEXT_BODY: &'static str = "{\"error\":\"no pending context_token for user\"}";

/// The first step of a login.
pub enum LoginStart {
    /// A token is configured already: the answer is this.
    Done(LoginOutput),
    /// Fetch a QR code with this request, under the step `fetch_qr`.
    FetchQr(HttpEffect),
}

/// How a login starts, from the configured token, base URL and route tag: logged in
/// at once when a token is configured, else by fetching a QR code (a GET without a
/// token, allowed 10 s), `uin` identifying the client.
pub fn login_start(token: &str, base_url: &str, route_tag: &str, uin: u32) -> (r: LoginStart)
    ensures
        token@.len() > 0 ==> (r matches LoginStart::Done(o) && o.status@ == "logged_in"@ && o.qr_url is None
            && o.temp_token is None && (o.token matches Some(t) && t@ == token@) && (o.base_url matches Some(b)
            && b@ == base_url@) && o.error is None),
        token@.len() == 0 ==> (r matches LoginStart::FetchQr(e) && e.method@ == "GET"@ && e.url@ == QR_CODE_URL@
            && e.headers.wf() && weixin_headers(Seq::empty(), route_tag@, uin, e.headers.view()) && e.body is None
            && e.timeout_ms == 10000),
{
    if !token.is_empty() {
        LoginStart::Done(
            LoginOutput {
                status: to_string("logged_in"),
                qr_url: None,
                temp_token: None,
                token: Some(to_string(token)),
                base_url: Some(to_string(base_url)),
                error: None,
            },
        )
    } else {
        proof {
            reveal_strlit("");
        }
        LoginStart::FetchQr(make_http_effect("GET", QR_CODE_URL, "", route_tag, None, 10000, uin))
    }
}

/// What `serde_json` reads from a QR code answer `raw`: its `qrcode` and
/// `qrcode_img_content` (each `None` where missing or not a string), or the parse
/// error's message.
pub uninterp spec fn spec_qr_reply(raw: Seq<char>) -> Result<(Option<Seq<char>>, Option<Seq<char>>), Seq<char>>;

/// Parses `raw` with `serde_json::from_str` into a `serde_json::Value` and picks
/// `qrcode` and `qrcode_img_content` (`Value::get`, `Value::as_str`); the error's
/// message (`Display`) when it does not parse. The result is named: it depends on the
/// text alone.
#[verifier::external_body]
fn read_qr_reply(raw: &str) -> (r: Result<(Option<String>, Option<String>), String>)
    ensures
        match r {
            Ok(x) => spec_qr_reply(raw@) == Ok::<(Option<Seq<char>>, Option<Seq<char>>), Seq<char>>(
                (crate::session::opt_str(x.0), crate::session::opt_str(x.1)),
            ),
            Err(e) => spec_qr_reply(raw@) == Err::<(Option<Seq<char>>, Option<Seq<char>>), Seq<char>>(e@),
        },
{
    match serde_json::from_str::<serde_json::Value>(raw) {
        Ok(v) => Ok((
            v.get("qrcode").and_then(|x| x.as_str()).map(|s| s.to_string()),
            v.get("qrcode_img_content").and_then(|x| x.as_str()).map(|s| s.to_string()),
        )),
        Err(e) => Err(e.to_string()),
    }
}

/// An answer of the login without token or QR code: status `error` and this error.
pub open spec fn login_error(o: LoginOutput, e: Option<Seq<char>>) -> bool {
    &&& o.status@ == "error"@
    &&& o.qr_url is None
    &&& o.temp_token is None
    &&& o.token is None
    &&& o.base_url is None
    &&& crate::session::opt_str(o.error) == e
}

/// The login's answer once the QR code request came back (`success`, its `error`
/// and `response`, an absent body read as `{}`): the transport's error, the parse
/// error, or `need_qr` with the QR code to show (its image content, else its id) and
/// its id as the temporary token (empty when missing).
pub fn login_from_qr(success: bool, error: Option<String>, response: Option<String>) -> (r: LoginOutput)
    ensures
        !success ==> login_error(r, crate::session::opt_str(error)),
        success ==> {
            let raw = match response {
                Some(s) => s@,
                None => "{}"@,
            };
            match spec_qr_reply(raw) {
                Err(e) => login_error(r, Some("failed to parse QR response: "@ + e)),
                Ok(x) => {
                    let id = match x.0 {
                        Some(i) => i,
                        None => Seq::<char>::empty(),
                    };
                    &&& r.status@ == "need_qr"@
                    &&& (r.qr_url matches Some(q) && q@ == match x.1 {
                        Some(c) => c,
                        None => id,
                    })
                    &&& (r.temp_token matches Some(t) && t@ == id)
                    &&& r.token is None
                    &&& r.base_url is None
                    &&& r.error is None
                },
            }
        },
{
    if !success {
        return LoginOutput {
            status: to_string("error"),
            qr_url: None,
            temp_token: None,
            token: None,
            base_url: None,
            error,
        };
    }
    let raw = match response {
        Some(s) => s,
        None => to_string("{}"),
    };
    match read_qr_reply(raw.as_str()) {
        Err(e) => LoginOutput {
            status: to_string("error"),
            qr_url: None,
            temp_token: None,
            token: None,
            base_url: None,
            error: Some(concat2("failed to parse QR response: ", e.as_str())),
        },
        Ok((qr_id, img)) => {
            let id = match qr_id {
                Some(i) => i,
                None => String::new(),
            };
            let shown = match img {
                Some(c) => c,
                None => id.clone(),
            };
            LoginOutput {
                status: to_string("need_qr"),
                qr_url: Some(shown),
                temp_token: Some(id),
                token: None,
                base_url: None,
                error: None,
            }
        },
    }
}

/// The request that asks how a QR login stands: a GET of `QR_STATUS_URL` followed by
/// the temporary token, without a token, allowed 35 s.
pub fn check_login_request(temp_token: &str, route_tag: &str, uin: u32) -> (r: HttpEffect)
    ensures
        r.method@ == "GET"@,
        r.url@ == QR_STATUS_URL@ + temp_token@,
        r.headers.wf(),
        weixin_headers(Seq::empty(), route_tag@, uin, r.headers.view()),
        r.body is None,
        r.timeout_ms == 35000,
{
    proof {
        reveal_strlit("");
    }
    let url = concat2(QR_STATUS_URL, temp_token);
    make_http_effect("GET", url.as_str(), "", route_tag, None, 35000, uin)
}

/// The answer of a check whose request failed: status `error` with the transport's
/// error.
pub fn check_login_failed(error: Option<String>) -> (r: CheckLoginOutput)
    ensures
        r.status@ == "error"@,
        r.token is None,
        r.base_url is None,
        crate::session::opt_str(r.error) == crate::session::opt_str(error),
{
    CheckLoginOutput { status: to_string("error"), token: None, base_url: None, error }
}

/// The typing status sent: 1 to start typing, 2 to stop.
pub fn typing_status(typing: bool) -> (r: u32)
    ensures
        r == if typing {
            1u32
        } else {
            2u32
        },
{
    if typing {
        1
    } else {
        2
    }
}

/// How typing is set in a chat.
pub enum TypingStep {
    /// A ticket is cached: send the typing state with it (step `send_typing`).
    Send(String),
    /// No ticket yet: fetch the chat's config for one first (step `get_config`).
    FetchTicket,
}

/// How typing is set, from the chat's cached ticket.
pub fn typing_step(cached_ticket: Option<String>) -> (r: TypingStep)
    ensures
        match cached_ticket {
            Some(t) => r matches TypingStep::Send(x) && x@ == t@,
            None => r is FetchTicket,
        },
{
    match cached_ticket {
        Some(t) => TypingStep::Send(t),
        None => TypingStep::FetchTicket,
    }
}

/// How a reply is sent.
pub enum SendPlan {
    /// No context token is pending for the user: send `NO_CONTEXT_BODY` to
    /// `SEND_MESSAGE_URL` and answer that sending failed.
    NoContext,
    /// Stop typing with this ticket first if there is one, then send the message with
    /// this context token.
    Send { stop_typing: Option<String>, context_token: String },
}

/// How a reply is sent, from the user's pending context token (used once) and typing
/// ticket.
pub fn send_plan(context_token: Option<String>, typing_ticket: Option<String>) -> (r: SendPlan)
    ensures
        match context_token {
            None => r is NoContext,
            Some(c) => r matches SendPlan::Send { stop_typing, context_token } && context_token@ == c@
                && crate::session::opt_str(stop_typing) == crate::session::opt_str(typing_ticket),
        },
{
    match context_token {
        None => SendPlan::NoContext,
        Some(c) => SendPlan::Send { stop_typing: typing_ticket, context_token: c },
    }
}

/// Whether a reply went out: only when a context token was pending and the send
/// request succeeded.
pub fn send_succeeded(plan: &SendPlan, send_ok: bool) -> (r: bool)
    ensures
        r == (plan is Send && send_ok),
{
    match plan {
        SendPlan::NoContext => false,
        SendPlan::Send { .. } => send_ok,
    }
}

} // verus!
