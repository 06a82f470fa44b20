//! The request details of the bundled plugins: the OpenAI-compatible provider's
//! endpoint and headers, and the WeChat channel's headers.

use crate::agent::MessageRole;
use crate::sdk::{Action, ChatResponse, ChatToolCall, HttpEffect};
use crate::strmap::StrMap;
use crate::text::{concat2, decimal, decimal_string, join_seq, to_string, views};
use vstd::prelude::*;

verus! {

/// The role as the OpenAI API writes it.
pub fn role_to_string(role: &MessageRole) -> (r: &'static str)
    ensures
        r@ == match role {
            MessageRole::System => "system"@,
            MessageRole::User => "user"@,
            MessageRole::Assistant => "assistant"@,
        },
{
    match role {
        MessageRole::System => "system",
        MessageRole::User => "user",
        MessageRole::Assistant => "assistant",
    }
}

/// `s` with `suffix` removed from its end as many times as it is there
/// (`str::trim_end_matches`).
pub open spec fn trim_suffix_all(s: Seq<char>, suffix: Seq<char>) -> Seq<char>
    decreases s.len(),
{
    if suffix.len() > 0 && suffix.len() <= s.len() && s.skip(s.len() - suffix.len()) == suffix {
        trim_suffix_all(s.take(s.len() - suffix.len()), suffix)
    } else {
        s
    }
}

fn ends_with_at(v: &Vec<char>, n: usize, suffix: &Vec<char>) -> (r: bool)
    requires
        n <= v@.len(),
    ensures
        r == (suffix@.len() > 0 && suffix@.len() <= n && v@.take(n as int).skip(n - suffix@.len()) == suffix@),
{
    if suffix.len() == 0 || suffix.len() > n {
        return false;
    }
    let start = n - suffix.len();
    let mut j: usize = 0;
    while j < suffix.len()
        invariant
            start + suffix@.len() == n,
            n <= v@.len(),
            j <= suffix@.len(),
            forall|k: int| 0 <= k < j ==> v@[start + k] == suffix@[k],
        decreases suffix@.len() - j,
    {
        if v[start + j] != suffix[j] {
            assert(v@.take(n as int).skip(start as int)[j as int] != suffix@[j as int]);
            return false;
        }
        j = j + 1;
    }
    assert(v@.take(n as int).skip(start as int) =~= suffix@);
    true
}

/// `s.trim_end_matches(suffix)`.
pub fn trim_end_matches(s: &str, suffix: &str) -> (r: String)
    ensures
        r@ == trim_suffix_all(s@, suffix@),
{
    let v = crate::text::chars_of(s);
    let p = crate::text::chars_of(suffix);
    let mut n = v.len();
    assert(v@.take(n as int) =~= v@);
    while ends_with_at(&v, n, &p)
        invariant
            v@ == s@,
            p@ == suffix@,
            n <= v@.len(),
            trim_suffix_all(s@, suffix@) == trim_suffix_all(v@.take(n as int), suffix@),
        decreases n,
    {
        proof {
            assert(v@.take(n as int).take(n - p@.len()) =~= v@.take(n - p@.len()));
        }
        n = n - p.len();
    }
    crate::text::string_of_range(&v, 0, n)
}

/// The chat completions endpoint below an API base (`https://api.openai.com` when
/// none is set): trailing slashes and then trailing `/v1` are dropped before
/// `/v1/chat/completions` is added.
pub open spec fn chat_url(api_base: Option<Seq<char>>) -> Seq<char> {
    let base = match api_base {
        Some(b) => b,
        None => "https://api.openai.com"@,
    };
    trim_suffix_all(trim_suffix_all(base, "/"@), "/v1"@) + "/v1/chat/completions"@
}

/// The chat completions endpoint (see `chat_url`).
pub fn chat_completions_url(api_base: &Option<String>) -> (r: String)
    ensures
        r@ == chat_url(crate::session::opt_str(*api_base)),
{
    let base = match api_base {
        Some(b) => b.clone(),
        None => to_string("https://api.openai.com"),
    };
    let t1 = trim_end_matches(base.as_str(), "/");
    let t2 = trim_end_matches(t1.as_str(), "/v1");
    concat2(t2.as_str(), "/v1/chat/completions")
}

/// The headers of a chat request: JSON content, and the API key (empty when none is
/// set) as a bearer token.
pub fn chat_headers(api_key: &Option<String>) -> (r: StrMap<String>)
    ensures
        r.wf(),
        r.view().dom() == set!["Content-Type"@, "Authorization"@],
        r.view()["Content-Type"@]@ == "application/json"@,
        r.view()["Authorization"@]@ == "Bearer "@ + match api_key {
            Some(k) => k@,
            None => Seq::<char>::empty(),
        },
{
    proof {
        reveal_strlit("Content-Type");
        reveal_strlit("Authorization");
        assert("Content-Type"@.len() != "Authorization"@.len());
    }
    let mut h: StrMap<String> = StrMap::new();
    h.insert(to_string("Content-Type"), to_string("application/json"));
    let key = match api_key {
        Some(k) => k.clone(),
        None => String::new(),
    };
    h.insert(to_string("Authorization"), concat2("Bearer ", key.as_str()));
    assert(h.view().dom() =~= set!["Content-Type"@, "Authorization"@]);
    h
}

/// Whether a tool call the model made is kept: only one that names a tool.
pub fn keeps_tool_call(name: &str) -> (r: bool)
    ensures
        r == (name@.len() > 0),
{
    !name.is_empty()
}

/// A tool call as the chat API's JSON answer gives it: its `id`, `function.name` and
/// `function.arguments`, each `None` where it is missing or not a string.
pub struct ApiToolCall {
    pub id: Option<String>,
    pub name: Option<String>,
    pub arguments: Option<String>,
}

/// What the chat API's JSON answer holds in its first choice's message: the
/// `content` (`None` where missing or not a string) and the `tool_calls` (`None`
/// where missing or not an array).
pub struct ApiReply {
    pub content: Option<String>,
    pub tool_calls: Option<Vec<ApiToolCall>>,
}

pub open spec fn api_call_view(c: ApiToolCall) -> (Option<Seq<char>>, Option<Seq<char>>, Option<Seq<char>>) {
    (crate::session::opt_str(c.id), crate::session::opt_str(c.name), crate::session::opt_str(c.arguments))
}

pub open spec fn api_reply_view(r: ApiReply) -> (
    Option<Seq<char>>,
    Option<Seq<(Option<Seq<char>>, Option<Seq<char>>, Option<Seq<char>>)>>,
) {
    (
        crate::session::opt_str(r.content),
        match r.tool_calls {
            Some(v) => Some(v@.map_values(|c: ApiToolCall| api_call_view(c))),
            None => None,
        },
    )
}

/// What `serde_json` reads from a chat API answer `raw` (see `read_chat_api_reply`);
/// `None` when `raw` is not JSON.
pub uninterp spec fn spec_chat_api_reply(raw: Seq<char>) -> Option<
    (Option<Seq<char>>, Option<Seq<(Option<Seq<char>>, Option<Seq<char>>, Option<Seq<char>>)>>),
>;

/// Parses `raw` with `serde_json::from_str` into a `serde_json::Value` and reads,
/// by indexing, `choices[0].message.content` and `choices[0].message.tool_calls`
/// with each call's `id`, `function.name` and `function.arguments` (`Value::as_str`,
/// `Value::as_array`). The result is named: it depends on the text alone.
#[verifier::external_body]
fn read_chat_api_reply(raw: &str) -> (r: Option<ApiReply>)
    ensures
        match r {
            Some(a) => spec_chat_api_reply(raw@) == Some(api_reply_view(a)),
            None => spec_chat_api_reply(raw@) is None,
        },
{
    let v: serde_json::Value = match serde_json::from_str(raw) {
        Ok(v) => v,
        Err(_) => return None,
    };
    let msg = &v["choices"][0]["message"];
    Some(ApiReply {
        content: msg["content"].as_str().map(|s| s.to_string()),
        tool_calls: msg["tool_calls"].as_array().map(|calls| calls.iter().map(|c| ApiToolCall {
            id: c["id"].as_str().map(|s| s.to_string()),
            name: c["function"]["name"].as_str().map(|s| s.to_string()),
            arguments: c["function"]["arguments"].as_str().map(|s| s.to_string()),
        }).collect()),
    })
}

/// The text, or `d` when there is none.
pub open spec fn text_or(o: Option<Seq<char>>, d: Seq<char>) -> Seq<char> {
    match o {
        Some(s) => s,
        None => d,
    }
}

/// Whether `serde_json` reads `s` as a map from strings to JSON values (a JSON
/// object).
pub uninterp spec fn spec_json_object(s: Seq<char>) -> bool;

/// Whether `serde_json::from_str::<HashMap<String, serde_json::Value>>(s)` succeeds.
/// The result is named: it depends on the text alone.
#[verifier::external_body]
fn is_json_object(s: &str) -> (r: bool)
    ensures
        r == spec_json_object(s@),
{
    serde_json::from_str::<std::collections::HashMap<String, serde_json::Value>>(s).is_ok()
}

/// The arguments a tool call goes on with: its text when that is a JSON object,
/// else the empty object `{}` (also when it has none).
pub open spec fn call_arguments(a: Option<Seq<char>>) -> Seq<char> {
    match a {
        Some(t) => if spec_json_object(t) {
            t
        } else {
            "{}"@
        },
        None => "{}"@,
    }
}

fn call_arguments_exec(a: &Option<String>) -> (r: String)
    ensures
        r@ == call_arguments(crate::session::opt_str(*a)),
{
    match a {
        Some(t) => if is_json_object(t.as_str()) {
            t.clone()
        } else {
            to_string("{}")
        },
        None => to_string("{}"),
    }
}

/// The tool calls kept from the API's answer, as (id, name, arguments): those with a
/// name, in order, a missing id read as empty and the arguments as
/// `call_arguments` gives them.
pub open spec fn kept_calls(calls: Seq<(Option<Seq<char>>, Option<Seq<char>>, Option<Seq<char>>)>) -> Seq<
    (Seq<char>, Seq<char>, Seq<char>),
>
    decreases calls.len(),
{
    if calls.len() == 0 {
        Seq::empty()
    } else {
        let r = kept_calls(calls.drop_last());
        let c = calls.last();
        let name = text_or(c.1, Seq::empty());
        if name.len() > 0 {
            r.push((text_or(c.0, Seq::empty()), name, call_arguments(c.2)))
        } else {
            r
        }
    }
}

/// The provider's answer (content, tool calls, error) made of what was read from the
/// API: its content (empty when none) and kept calls, or the parse error.
pub open spec fn reply_of(
    p: Option<(Option<Seq<char>>, Option<Seq<(Option<Seq<char>>, Option<Seq<char>>, Option<Seq<char>>)>>)>,
) -> (Seq<char>, Seq<(Seq<char>, Seq<char>, Seq<char>)>, Option<Seq<char>>) {
    match p {
        None => (Seq::empty(), Seq::empty(), Some("failed to parse OpenAI response"@)),
        Some(x) => (
            text_or(x.0, Seq::empty()),
            kept_calls(
                match x.1 {
                    Some(c) => c,
                    None => Seq::empty(),
                },
            ),
            None,
        ),
    }
}

pub open spec fn chat_call_view(c: ChatToolCall) -> (Seq<char>, Seq<char>, Seq<char>) {
    (c.id@, c.name@, c.arguments@)
}

pub open spec fn chat_view(r: ChatResponse) -> (Seq<char>, Seq<(Seq<char>, Seq<char>, Seq<char>)>, Option<Seq<char>>) {
    (r.content@, r.tool_calls@.map_values(|c: ChatToolCall| chat_call_view(c)), crate::session::opt_str(r.error))
}

fn text_or_exec(o: &Option<String>, d: &str) -> (r: String)
    ensures
        r@ == text_or(crate::session::opt_str(*o), d@),
{
    match o {
        Some(s) => s.clone(),
        None => to_string(d),
    }
}

/// The provider's answer made of what was read from the API's JSON answer (see
/// `reply_of`).
pub fn reply_from_api(parsed: Option<ApiReply>) -> (r: ChatResponse)
    ensures
        chat_view(r) == reply_of(
            match parsed {
                Some(a) => Some(api_reply_view(a)),
                None => None,
            },
        ),
{
    match parsed {
        None => {
            let r = ChatResponse {
                content: String::new(),
                tool_calls: Vec::new(),
                error: Some(to_string("failed to parse OpenAI response")),
            };
            assert(r.tool_calls@.map_values(|c: ChatToolCall| chat_call_view(c)) =~= Seq::empty());
            r
        },
        Some(a) => {
            proof {
                reveal_strlit("");
            }
            let none: Vec<ApiToolCall> = Vec::new();
            let v: &Vec<ApiToolCall> = match &a.tool_calls {
                Some(v) => v,
                None => &none,
            };
            let ghost calls = v@.map_values(|c: ApiToolCall| api_call_view(c));
            assert(calls == match api_reply_view(a).1 {
                Some(c) => c,
                None => Seq::<(Option<Seq<char>>, Option<Seq<char>>, Option<Seq<char>>)>::empty(),
            });
            let mut kept: Vec<ChatToolCall> = Vec::new();
            let mut i: usize = 0;
            assert(kept@.map_values(|c: ChatToolCall| chat_call_view(c)) =~= kept_calls(calls.take(0)));
            while i < v.len()
                invariant
                    i <= v@.len(),
                    calls == v@.map_values(|c: ApiToolCall| api_call_view(c)),
                    kept@.map_values(|c: ChatToolCall| chat_call_view(c)) == kept_calls(calls.take(i as int)),
                decreases v@.len() - i,
            {
                let c = &v[i];
                proof {
                    reveal_strlit("");
                    assert(calls.take(i + 1).drop_last() =~= calls.take(i as int));
                    assert(calls.take(i + 1).last() == api_call_view(*c));
                }
                let name = text_or_exec(&c.name, "");
                if !name.as_str().is_empty() {
                    let ghost before = kept@;
                    let call = ChatToolCall {
                        id: text_or_exec(&c.id, ""),
                        name,
                        arguments: call_arguments_exec(&c.arguments),
                    };
                    let ghost cv = chat_call_view(call);
                    kept.push(call);
                    assert(kept@.map_values(|c: ChatToolCall| chat_call_view(c)) =~= before.map_values(
                        |c: ChatToolCall| chat_call_view(c),
                    ).push(cv));
                    assert(cv == (text_or(calls[i as int].0, Seq::empty()), text_or(calls[i as int].1, Seq::empty()), call_arguments(calls[i as int].2)));
                    assert(kept_calls(calls.take(i + 1)) == kept_calls(calls.take(i as int)).push(cv));
                } else {
                    assert(text_or(calls[i as int].1, Seq::empty()).len() == 0);
                    assert(kept_calls(calls.take(i + 1)) == kept_calls(calls.take(i as int)));
                }
                i = i + 1;
            }
            assert(calls.take(v@.len() as int) =~= calls);
            ChatResponse { content: text_or_exec(&a.content, ""), tool_calls: kept, error: None }
        },
    }
}

/// What the provider answers once the chat request came back: the transport's
/// error when it failed, else what the API's JSON answer says (an absent body read
/// as `{}`; see `reply_from_api`).
pub fn chat_reply(success: bool, error: Option<String>, response: Option<String>) -> (r: ChatResponse)
    ensures
        !success ==> chat_view(r) == (Seq::<char>::empty(), Seq::<(Seq<char>, Seq<char>, Seq<char>)>::empty(), crate::session::opt_str(error)),
        success ==> chat_view(r) == reply_of(spec_chat_api_reply(text_or(crate::session::opt_str(response), "{}"@))),
{
    if !success {
        return ChatResponse { content: String::new(), tool_calls: Vec::new(), error };
    }
    let raw = text_or_exec(&response, "{}");
    let parsed = read_chat_api_reply(raw.as_str());
    reply_from_api(parsed)
}

/// What the provider plugin does for an action.
pub enum ProviderRoute {
    /// Answer a chat request (see `chat_reply`).
    Chat,
    /// Refuse, with this answer.
    Unsupported(ChatResponse),
}

/// The provider plugin's entry point: it serves chat requests and answers any other
/// action with an error.
pub fn main_handler(action: Action) -> (r: ProviderRoute)
    ensures
        action is Chat ==> r is Chat,
        !(action is Chat) ==> (r matches ProviderRoute::Unsupported(x) && chat_view(x) == (
            Seq::<char>::empty(),
            Seq::<(Seq<char>, Seq<char>, Seq<char>)>::empty(),
            Some("provider lambda does not support this action"@),
        )),
{
    match action {
        Action::Chat => ProviderRoute::Chat,
        _ => {
            let x = ChatResponse {
                content: String::new(),
                tool_calls: Vec::new(),
                error: Some(to_string("provider lambda does not support this action")),
            };
            assert(x.tool_calls@.map_values(|c: ChatToolCall| chat_call_view(c)) =~= Seq::empty());
            ProviderRoute::Unsupported(x)
        },
    }
}

/// The header value that identifies a WeChat client: the decimal form of `uin` in
/// base64.
pub open spec fn uin_header(uin: u32) -> Seq<char> {
    crate::context::spec_base64_standard(decimal(uin as nat).map_values(|c: char| c as u8))
}

/// The headers of a request to the WeChat bot API, for a client identified by `uin`;
/// the token and the route tag are sent only when set.
pub open spec fn weixin_headers(token: Seq<char>, route_tag: Seq<char>, uin: u32, h: Map<Seq<char>, String>) -> bool {
    &&& h.contains_key("X-WECHAT-UIN"@) && h["X-WECHAT-UIN"@]@ == uin_header(uin)
    &&& h.contains_key("Content-Type"@) && h["Content-Type"@]@ == "application/json"@
    &&& h.contains_key("AuthorizationType"@) && h["AuthorizationType"@]@ == "ilink_bot_token"@
    &&& (token.len() > 0 <==> h.contains_key("Authorization"@))
    &&& token.len() > 0 ==> h["Authorization"@]@ == "Bearer "@ + token
    &&& (route_tag.len() > 0 <==> h.contains_key("SKRouteTag"@))
    &&& route_tag.len() > 0 ==> h["SKRouteTag"@]@ == route_tag
    &&& forall|k: Seq<char>|
        #[trigger] h.contains_key(k) ==> k == "X-WECHAT-UIN"@ || k == "Content-Type"@ || k == "AuthorizationType"@
            || k == "Authorization"@ || k == "SKRouteTag"@
}

fn ascii_bytes(s: &String) -> (r: Vec<u8>)
    requires
        forall|i: int| 0 <= i < s@.len() ==> (s@[i] as u32) < 128,
    ensures
        r@ == s@.map_values(|c: char| c as u8),
{
    let v = crate::text::chars_of(s.as_str());
    let mut r: Vec<u8> = Vec::new();
    let mut i: usize = 0;
    while i < v.len()
        invariant
            v@ == s@,
            i <= v@.len(),
            forall|k: int| 0 <= k < s@.len() ==> (s@[k] as u32) < 128,
            r@ == v@.take(i as int).map_values(|c: char| c as u8),
        decreases v@.len() - i,
    {
        let c = v[i];
        let b = c as u8;
        r.push(b);
        assert(v@.take(i + 1).map_values(|c: char| c as u8) =~= v@.take(i as int).map_values(|c: char| c as u8).push(c as u8));
        i = i + 1;
    }
    assert(v@.take(v@.len() as int) =~= v@);
    r
}

proof fn lemma_decimal_ascii(n: nat)
    ensures
        forall|i: int| 0 <= i < decimal(n).len() ==> (#[trigger] decimal(n)[i] as u32) < 128,
    decreases n,
{
    if n >= 10 {
        lemma_decimal_ascii(n / 10);
        let d = decimal(n);
        assert forall|i: int| 0 <= i < d.len() implies (#[trigger] d[i] as u32) < 128 by {
            if i < d.len() - 1 {
                assert(d[i] == decimal(n / 10)[i]);
            }
        }
    }
}

/// The headers of a request to the WeChat bot API (see `weixin_headers`), for a
/// client identified by the random `uin`.
pub fn make_headers(token: &str, route_tag: &str, uin: u32) -> (r: StrMap<String>)
    ensures
        r.wf(),
        weixin_headers(token@, route_tag@, uin, r.view()),
{
    proof {
        reveal_strlit("X-WECHAT-UIN");
        reveal_strlit("Content-Type");
        reveal_strlit("AuthorizationType");
        reveal_strlit("Authorization");
        reveal_strlit("SKRouteTag");
        assert("X-WECHAT-UIN"@[0] != "Content-Type"@[0]);
        assert("X-WECHAT-UIN"@.len() != "AuthorizationType"@.len());
        assert("X-WECHAT-UIN"@.len() != "Authorization"@.len());
        assert("X-WECHAT-UIN"@.len() != "SKRouteTag"@.len());
        assert("Content-Type"@.len() != "AuthorizationType"@.len());
        assert("Content-Type"@.len() != "Authorization"@.len());
        assert("Content-Type"@.len() != "SKRouteTag"@.len());
        assert("AuthorizationType"@.len() != "Authorization"@.len());
        assert("AuthorizationType"@.len() != "SKRouteTag"@.len());
        assert("Authorization"@.len() != "SKRouteTag"@.len());
    }
    let digits = decimal_string(uin as u64);
    proof {
        lemma_decimal_ascii(uin as nat);
    }
    let bytes = ascii_bytes(&digits);
    proof {
        assert(4 * ((bytes@.len() + 2) / 3) <= usize::MAX) by {
            assert(bytes@.len() == decimal(uin as nat).len());
            crate::text::lemma_decimal_len_u32(uin);
        }
    }
    let uin_b64 = crate::context::base64_standard(bytes.as_slice());
    let mut headers: StrMap<String> = StrMap::new();
    headers.insert(to_string("X-WECHAT-UIN"), uin_b64);
    headers.insert(to_string("Content-Type"), to_string("application/json"));
    headers.insert(to_string("AuthorizationType"), to_string("ilink_bot_token"));
    let ghost base = headers.view();
    assert(base.dom() =~= set!["X-WECHAT-UIN"@, "Content-Type"@, "AuthorizationType"@]);
    if !token.is_empty() {
        headers.insert(to_string("Authorization"), concat2("Bearer ", token));
    }
    let ghost with_token = headers.view();
    if !route_tag.is_empty() {
        headers.insert(to_string("SKRouteTag"), to_string(route_tag));
    }
    proof {
        assert forall|k: Seq<char>| #[trigger] headers.view().contains_key(k) implies k == "X-WECHAT-UIN"@ || k
            == "Content-Type"@ || k == "AuthorizationType"@ || k == "Authorization"@ || k == "SKRouteTag"@ by {
            if k != "SKRouteTag"@ {
                assert(with_token.contains_key(k));
                if k != "Authorization"@ {
                    assert(base.contains_key(k));
                }
            }
        }
    }
    headers
}

/// A request to the WeChat bot API with its headers (see `make_headers`).
pub fn make_http_effect(
    method: &str,
    url: &str,
    token: &str,
    route_tag: &str,
    body: Option<String>,
    timeout_ms: u32,
    uin: u32,
) -> (r: HttpEffect)
    ensures
        r.method@ == method@,
        r.url@ == url@,
        r.headers.wf(),
        weixin_headers(token@, route_tag@, uin, r.headers.view()),
        r.body == body,
        r.timeout_ms == timeout_ms,
{
    let headers = make_headers(token, route_tag, uin);
    HttpEffect { method: to_string(method), url: to_string(url), headers, body, timeout_ms }
}

} // verus!

verus! {

/// The lowercase hexadecimal digit of `d < 16`.
pub open spec fn hex_digit(d: int) -> char {
    if d < 10 {
        (48 + d) as char
    } else {
        (87 + d) as char
    }
}

/// How `serde_json` writes one character inside a string literal: `"` and `\` and
/// the control characters with a short escape (`\b`, `\t`, `\n`, `\f`, `\r`) get
/// it, the other control characters below 0x20 become `\u00XX` (lowercase hex), and
/// every other character stands as it is.
pub open spec fn json_char(c: char) -> Seq<char> {
    let v = c as int;
    if c == '"' {
        seq!['\\', '"']
    } else if c == '\\' {
        seq!['\\', '\\']
    } else if v == 8 {
        seq!['\\', 'b']
    } else if v == 9 {
        seq!['\\', 't']
    } else if v == 10 {
        seq!['\\', 'n']
    } else if v == 12 {
        seq!['\\', 'f']
    } else if v == 13 {
        seq!['\\', 'r']
    } else if v < 32 {
        seq!['\\', 'u', '0', '0', hex_digit(v / 16), hex_digit(v % 16)]
    } else {
        seq![c]
    }
}

/// The characters of `s`, each written as `json_char` writes it.
pub open spec fn json_escaped(s: Seq<char>) -> Seq<char>
    decreases s.len(),
{
    if s.len() == 0 {
        Seq::empty()
    } else {
        json_escaped(s.drop_last()) + json_char(s.last())
    }
}

/// `s` as a JSON string literal, as `serde_json::to_string` writes it: quoted, with
/// its characters escaped (see `json_char`).
pub open spec fn spec_json_string(s: Seq<char>) -> Seq<char> {
    seq!['"'] + json_escaped(s) + seq!['"']
}

/// `serde_json::to_string(s)`: the string literal its serializer writes for `s` (see
/// `spec_json_string`, after its escape table `ESCAPE` and `format_escaped_str`).
/// The crate documents failure only for maps with non-string keys and failing
/// `Serialize` impls, so a string never fails; an empty result stands for it.
#[verifier::external_body]
fn json_string(s: &str) -> (r: String)
    ensures
        r@ == spec_json_string(s@),
{
    serde_json::to_string(s).unwrap_or_default()
}

/// The step under which the chat request waits for its answer.
pub const CHAT_STEP: &'static str = "chat";

/// How long the chat request may take, in milliseconds.
pub const CHAT_TIMEOUT_MS: u32 = 60000;

/// A message sent to the model.
pub struct ChatMessage {
    pub role: MessageRole,
    pub content: String,
}

pub open spec fn role_text(role: MessageRole) -> Seq<char> {
    match role {
        MessageRole::System => "system"@,
        MessageRole::User => "user"@,
        MessageRole::Assistant => "assistant"@,
    }
}

/// A message in the API's form (keys in the order `serde_json` writes them).
pub open spec fn message_json(m: ChatMessage) -> Seq<char> {
    "{\"content\":"@ + spec_json_string(m.content@) + ",\"role\":"@ + spec_json_string(role_text(m.role)) + "}"@
}

/// The JSON text `s` written again by `serde_json` (parsed into a
/// `serde_json::Value`, then written compactly, object keys in sorted order); `None`
/// when it does not parse.
pub uninterp spec fn spec_json_rewritten(s: Seq<char>) -> Option<Seq<char>>;

/// `serde_json::from_str::<serde_json::Value>(s)`, then `Value::to_string`; `None`
/// when it does not parse. The result is named: it depends on the text alone.
#[verifier::external_body]
fn rewrite_json(s: &str) -> (r: Option<String>)
    ensures
        crate::session::opt_str(r) == spec_json_rewritten(s@),
{
    serde_json::from_str::<serde_json::Value>(s).ok().map(|v| v.to_string())
}

/// A tool's parameter schema as the request carries it: written again as
/// `serde_json` writes a value, or as given should it not parse.
pub open spec fn schema_json(p: Seq<char>) -> Seq<char> {
    match spec_json_rewritten(p) {
        Some(x) => x,
        None => p,
    }
}

/// A tool in the API's form: a function with its name, description and parameter
/// schema.
pub open spec fn tool_json(t: crate::agent::ToolDef) -> Seq<char> {
    "{\"function\":{\"description\":"@ + spec_json_string(t.description@) + ",\"name\":"@ + spec_json_string(t.name@)
        + ",\"parameters\":"@ + schema_json(t.parameters_json@) + "},\"type\":\"function\"}"@
}

/// The body of a chat request: the token limit, the messages, the model, the
/// temperature (as JSON text) and, when there are any, the tools.
pub open spec fn chat_body(
    model: Seq<char>,
    messages: Seq<ChatMessage>,
    tools: Seq<crate::agent::ToolDef>,
    max_tokens: u32,
    temperature: Seq<char>,
) -> Seq<char> {
    "{\"max_tokens\":"@ + decimal(max_tokens as nat) + ",\"messages\":["@ + join_seq(
        messages.map_values(|m: ChatMessage| message_json(m)),
        ","@,
    ) + "],\"model\":"@ + spec_json_string(model) + ",\"temperature\":"@ + temperature + (if tools.len() > 0 {
        ",\"tools\":["@ + join_seq(tools.map_values(|t: crate::agent::ToolDef| tool_json(t)), ","@) + "]"@
    } else {
        Seq::<char>::empty()
    }) + "}"@
}

fn message_jsons(messages: &Vec<ChatMessage>) -> (r: Vec<String>)
    ensures
        views(r@) == messages@.map_values(|m: ChatMessage| message_json(m)),
{
    let mut r: Vec<String> = Vec::new();
    let mut i: usize = 0;
    while i < messages.len()
        invariant
            i <= messages@.len(),
            views(r@) == messages@.take(i as int).map_values(|m: ChatMessage| message_json(m)),
        decreases messages@.len() - i,
    {
        let m = &messages[i];
        let mut j = to_string("{\"content\":");
        j.append(json_string(m.content.as_str()).as_str());
        j.append(",\"role\":");
        j.append(json_string(role_to_string(&m.role)).as_str());
        j.append("}");
        let ghost before = r@;
        r.push(j);
        assert(views(r@) =~= views(before).push(message_json(messages@[i as int])));
        assert(messages@.take(i + 1).map_values(|m: ChatMessage| message_json(m)) =~= messages@.take(
            i as int,
        ).map_values(|m: ChatMessage| message_json(m)).push(message_json(messages@[i as int])));
        i = i + 1;
    }
    assert(messages@.take(messages@.len() as int) =~= messages@);
    r
}

fn tool_jsons(tools: &Vec<crate::agent::ToolDef>) -> (r: Vec<String>)
    ensures
        views(r@) == tools@.map_values(|t: crate::agent::ToolDef| tool_json(t)),
{
    let mut r: Vec<String> = Vec::new();
    let mut i: usize = 0;
    while i < tools.len()
        invariant
            i <= tools@.len(),
            views(r@) == tools@.take(i as int).map_values(|t: crate::agent::ToolDef| tool_json(t)),
        decreases tools@.len() - i,
    {
        let t = &tools[i];
        let mut j = to_string("{\"function\":{\"description\":");
        j.append(json_string(t.description.as_str()).as_str());
        j.append(",\"name\":");
        j.append(json_string(t.name.as_str()).as_str());
        j.append(",\"parameters\":");
        match rewrite_json(t.parameters_json.as_str()) {
            Some(x) => j.append(x.as_str()),
            None => j.append(t.parameters_json.as_str()),
        }
        j.append("},\"type\":\"function\"}");
        let ghost before = r@;
        r.push(j);
        assert(views(r@) =~= views(before).push(tool_json(tools@[i as int])));
        assert(tools@.take(i + 1).map_values(|t: crate::agent::ToolDef| tool_json(t)) =~= tools@.take(
            i as int,
        ).map_values(|t: crate::agent::ToolDef| tool_json(t)).push(tool_json(tools@[i as int])));
        i = i + 1;
    }
    assert(tools@.take(tools@.len() as int) =~= tools@);
    r
}

/// The body of a chat request (see `chat_body`); `temperature` is the temperature
/// already written as JSON.
pub fn chat_request_body(
    model: &str,
    messages: &Vec<ChatMessage>,
    tools: &Vec<crate::agent::ToolDef>,
    max_tokens: u32,
    temperature: &str,
) -> (r: String)
    ensures
        r@ == chat_body(model@, messages@, tools@, max_tokens, temperature@),
        tools@.len() > 0 ==> r@ == chat_body(model@, messages@, Seq::empty(), max_tokens, temperature@).drop_last()
            + ",\"tools\":["@ + join_seq(tools@.map_values(|t: crate::agent::ToolDef| tool_json(t)), ","@) + "]}"@,
{
    proof {
        if tools@.len() > 0 {
            crate::laws::law_chat_body_offers_every_tool(model@, messages@, tools@, max_tokens, temperature@);
        }
    }
    let mut r = to_string("{\"max_tokens\":");
    r.append(decimal_string(max_tokens as u64).as_str());
    r.append(",\"messages\":[");
    r.append(crate::text::join(&message_jsons(messages), ",").as_str());
    r.append("],\"model\":");
    r.append(json_string(model).as_str());
    r.append(",\"temperature\":");
    r.append(temperature);
    if tools.len() > 0 {
        r.append(",\"tools\":[");
        r.append(crate::text::join(&tool_jsons(tools), ",").as_str());
        r.append("]");
    }
    r.append("}");
    r
}

/// The request the provider asks the host to make for a chat: a POST of `body` to the
/// chat completions endpoint (see `chat_url`) with the chat headers (see
/// `chat_headers`), allowed `CHAT_TIMEOUT_MS`.
pub fn chat_http_effect(api_base: &Option<String>, api_key: &Option<String>, body: String) -> (r: HttpEffect)
    ensures
        r.method@ == "POST"@,
        r.url@ == chat_url(crate::session::opt_str(*api_base)),
        r.headers.wf(),
        r.headers.view().dom() == set!["Content-Type"@, "Authorization"@],
        r.headers.view()["Content-Type"@]@ == "application/json"@,
        r.headers.view()["Authorization"@]@ == "Bearer "@ + match api_key {
            Some(k) => k@,
            None => Seq::<char>::empty(),
        },
        r.body == Some(body),
        r.timeout_ms == CHAT_TIMEOUT_MS,
{
    HttpEffect {
        method: to_string("POST"),
        url: chat_completions_url(api_base),
        headers: chat_headers(api_key),
        body: Some(body),
        timeout_ms: CHAT_TIMEOUT_MS,
    }
}

} // verus!
