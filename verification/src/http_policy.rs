//! Which hosts a plugin may reach over HTTP, and the state the host keeps about the
//! last request a plugin made.

use crate::strmap::StrMap;
use crate::text::{str_eq, to_string};
use vstd::prelude::*;

verus! {

/// Whether `url::Url::parse` accepts `s`.
pub uninterp spec fn spec_url_parses(s: Seq<char>) -> bool;

/// The host (`Url::host_str`) of the URL that `url::Url::parse` makes of `s`.
pub uninterp spec fn spec_url_host(s: Seq<char>) -> Option<Seq<char>>;

/// Whether `glob::Pattern::new` accepts `pattern`.
pub uninterp spec fn spec_glob_valid(pattern: Seq<char>) -> bool;

/// Whether the glob `pattern` matches `text` (`glob::Pattern::matches`).
pub uninterp spec fn spec_glob_matches(pattern: Seq<char>, text: Seq<char>) -> bool;

/// Parses `s` with `url::Url::parse` and returns its host (`Url::host_str`);
/// `None` when `s` does not parse. Both are named: they depend on the text alone.
#[verifier::external_body]
fn url_host(s: &str) -> (r: Option<Option<String>>)
    ensures
        r is Some <==> spec_url_parses(s@),
        r matches Some(h) ==> crate::session::opt_str(h) == spec_url_host(s@),
{
    match url::Url::parse(s) {
        Ok(u) => Some(u.host_str().map(|h| h.to_string())),
        Err(_) => None,
    }
}

/// Compiles `pattern` with `glob::Pattern::new` and tells whether it matches `text`;
/// `None` when the pattern does not compile. Both are named: they depend on the two
/// texts alone.
#[verifier::external_body]
fn glob_match(pattern: &str, text: &str) -> (r: Option<bool>)
    ensures
        r is Some <==> spec_glob_valid(pattern@),
        r matches Some(b) ==> b == spec_glob_matches(pattern@, text@),
{
    match glob::Pattern::new(pattern) {
        Ok(p) => Some(p.matches(text)),
        Err(_) => None,
    }
}

/// Whether a host pattern covers a host: as a glob when it is one, else by equality.
pub open spec fn pattern_covers(pattern: Seq<char>, host: Seq<char>) -> bool {
    if spec_glob_valid(pattern) {
        spec_glob_matches(pattern, host)
    } else {
        pattern == host
    }
}

/// Whether some pattern of the list covers the host.
pub open spec fn any_covers(patterns: Seq<Seq<char>>, host: Seq<char>) -> bool {
    exists|i: int| 0 <= i < patterns.len() && pattern_covers(#[trigger] patterns[i], host)
}

/// The host a request URL names, or the empty text when it names none.
pub open spec fn request_host(url: Seq<char>) -> Seq<char> {
    match spec_url_host(url) {
        Some(h) => h,
        None => Seq::empty(),
    }
}

/// Whether a request to `url` may go out: some host must be allowed, the URL must
/// parse, no denied pattern may cover its host, and an allowed one must.
pub open spec fn host_allowed(allowed: Seq<Seq<char>>, denied: Seq<Seq<char>>, url: Seq<char>) -> bool {
    &&& allowed.len() > 0
    &&& spec_url_parses(url)
    &&& !any_covers(denied, request_host(url))
    &&& any_covers(allowed, request_host(url))
}

/// Whether a host pattern covers a host (see `pattern_covers`).
pub fn covers(pattern: &str, host: &str) -> (r: bool)
    ensures
        r == pattern_covers(pattern@, host@),
{
    match glob_match(pattern, host) {
        Some(b) => b,
        None => str_eq(pattern, host),
    }
}

fn any_pattern_covers(patterns: &Vec<String>, host: &str) -> (r: bool)
    ensures
        r == any_covers(crate::text::views(patterns@), host@),
{
    let ghost pv = crate::text::views(patterns@);
    let mut i: usize = 0;
    while i < patterns.len()
        invariant
            pv == crate::text::views(patterns@),
            i <= patterns@.len(),
            forall|j: int| 0 <= j < i ==> !pattern_covers(#[trigger] pv[j], host@),
        decreases patterns@.len() - i,
    {
        if covers(patterns[i].as_str(), host) {
            assert(pattern_covers(pv[i as int], host@));
            return true;
        }
        i = i + 1;
    }
    false
}

/// A request a plugin asks the host to make.
pub struct HttpRequest {
    pub url: String,
    pub headers: StrMap<String>,
    /// The method; `GET` when none is given.
    pub method: Option<String>,
}

/// The HTTP state the host keeps for a plugin: its host lists, its proxy, and the
/// status and headers of its last request.
pub struct HttpContext {
    pub proxy_url: Option<String>,
    pub allowed_hosts: Vec<String>,
    pub denied_hosts: Vec<String>,
    pub last_status: u16,
    pub last_headers: StrMap<String>,
}

impl HttpContext {
    /// A context with the given proxy and host lists, before any request.
    pub fn new(proxy_url: Option<String>, allowed_hosts: Vec<String>, denied_hosts: Vec<String>) -> (r: Self)
        ensures
            r.proxy_url == proxy_url,
            r.allowed_hosts == allowed_hosts,
            r.denied_hosts == denied_hosts,
            r.last_status == 0,
            r.last_headers.wf(),
            r.last_headers.view() == Map::<Seq<char>, String>::empty(),
    {
        HttpContext { proxy_url, allowed_hosts, denied_hosts, last_status: 0, last_headers: StrMap::new() }
    }

    /// Whether a request to `url_str` may go out (see `host_allowed`); denied patterns
    /// take precedence over allowed ones.
    pub fn is_host_allowed(&self, url_str: &str) -> (r: bool)
        ensures
            r == host_allowed(
                crate::text::views(self.allowed_hosts@),
                crate::text::views(self.denied_hosts@),
                url_str@,
            ),
    {
        if self.allowed_hosts.len() == 0 {
            return false;
        }
        let host = match url_host(url_str) {
            Some(Some(h)) => h,
            Some(None) => String::new(),
            None => return false,
        };
        proof {
            assert(host@ == request_host(url_str@));
        }
        if any_pattern_covers(&self.denied_hosts, host.as_str()) {
            return false;
        }
        any_pattern_covers(&self.allowed_hosts, host.as_str())
    }

    /// The method of a request that may go out, `None` for one to a host that is not
    /// allowed; a refused request forgets the last status and headers.
    pub fn let_through(&mut self, req: &HttpRequest) -> (r: Option<String>)
        ensures
            final(self).allowed_hosts == old(self).allowed_hosts,
            final(self).denied_hosts == old(self).denied_hosts,
            final(self).proxy_url == old(self).proxy_url,
            host_allowed(
                crate::text::views(old(self).allowed_hosts@),
                crate::text::views(old(self).denied_hosts@),
                req.url@,
            ) ==> {
                &&& *final(self) == *old(self)
                &&& r matches Some(m) && m@ == match req.method {
                    Some(x) => x@,
                    None => "GET"@,
                }
            },
            !host_allowed(
                crate::text::views(old(self).allowed_hosts@),
                crate::text::views(old(self).denied_hosts@),
                req.url@,
            ) ==> {
                &&& r is None
                &&& final(self).last_status == 0
                &&& final(self).last_headers.wf()
                &&& final(self).last_headers.view() == Map::<Seq<char>, String>::empty()
            },
    {
        if !self.is_host_allowed(req.url.as_str()) {
            self.forget_last();
            return None;
        }
        match &req.method {
            Some(m) => Some(m.clone()),
            None => Some(to_string("GET")),
        }
    }

    /// Forgets the status and headers of the last request, as after one that failed.
    pub fn forget_last(&mut self)
        ensures
            final(self).allowed_hosts == old(self).allowed_hosts,
            final(self).denied_hosts == old(self).denied_hosts,
            final(self).proxy_url == old(self).proxy_url,
            final(self).last_status == 0,
            final(self).last_headers.wf(),
            final(self).last_headers.view() == Map::<Seq<char>, String>::empty(),
    {
        self.last_status = 0;
        self.last_headers = StrMap::new();
    }

    /// Records the status and headers of a request that was answered.
    pub fn record(&mut self, status: u16, headers: StrMap<String>)
        ensures
            final(self).allowed_hosts == old(self).allowed_hosts,
            final(self).denied_hosts == old(self).denied_hosts,
            final(self).proxy_url == old(self).proxy_url,
            final(self).last_status == status,
            final(self).last_headers == headers,
    {
        self.last_status = status;
        self.last_headers = headers;
    }

    /// The status of the last request, as the status host function returns it.
    pub fn status_code(&self) -> (r: i32)
        ensures
            r == self.last_status,
    {
        self.last_status as i32
    }
}

} // verus!
