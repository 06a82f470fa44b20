//! The decisions of the command line: which configuration file is used, where logs
//! go and which of them are dated, and how a channel login proceeds.

use crate::fs_lambda::ArgValue;
use crate::path::{is_abs, join_parts, parent_parts, FsPath, Part};
use crate::sdk::{CheckLoginOutput, LoginOutput};
use crate::session::opt_str;
use crate::settings::ChannelConfig;
use crate::strmap::StrMap;
use crate::text::{chars_of, split_char, split_on, str_eq, string_of_range, to_string};
use vstd::prelude::*;

verus! {

/// The configuration file used when none is named.
pub const DEFAULT_CONFIG_PATH: &'static str = "config.toml";

/// The configuration file: the one named on the command line, else the one the
/// `MOCHICLAW_CONFIG` variable names, else `config.toml`.
pub fn resolve_config_path(config: Option<FsPath>, env_config: Option<String>) -> (r: FsPath)
    ensures
        r.view() == match config {
            Some(c) => c.view(),
            None => match env_config {
                Some(e) => crate::path::parse_parts(e@),
                None => crate::path::parse_parts(DEFAULT_CONFIG_PATH@),
            },
        },
{
    match config {
        Some(c) => c,
        None => match env_config {
            Some(e) => FsPath::parse(e.as_str()),
            None => FsPath::parse(DEFAULT_CONFIG_PATH),
        },
    }
}

/// A path configured relative to the configuration file: kept when absolute, else
/// taken below the file's directory (the current directory when it has none).
pub open spec fn beside_config(p: Seq<Part>, config_path: Seq<Part>) -> Seq<Part> {
    if is_abs(p) {
        p
    } else {
        match parent_parts(config_path) {
            Some(dir) => join_parts(dir, p),
            None => join_parts(seq![Part::Cur], p),
        }
    }
}

/// The log directory, when one is configured (see `beside_config`).
pub fn resolve_log_dir(log_dir: Option<&str>, config_path: &FsPath) -> (r: Option<FsPath>)
    ensures
        match log_dir {
            Some(d) => r matches Some(p) && p.view() == beside_config(crate::path::parse_parts(d@), config_path.view()),
            None => r is None,
        },
{
    match log_dir {
        None => None,
        Some(dir) => {
            let path = FsPath::parse(dir);
            if path.is_absolute() {
                return Some(path);
            }
            match config_path.parent() {
                Some(parent) => Some(parent.join(&path)),
                None => {
                    let cur = FsPath::parse(".");
                    proof {
                        reveal_strlit(".");
                        let d = "."@;
                        assert(d =~= seq!['.']);
                        assert(d.drop_last() =~= Seq::<char>::empty());
                        assert(crate::path::split_slash(d.drop_last()) =~= seq![Seq::<char>::empty()]);
                        assert(crate::path::split_slash(d) =~= seq![seq!['.']]);
                        assert(crate::path::split_slash(d).drop_first() =~= Seq::<Seq<char>>::empty());
                        assert(crate::path::parse_parts(d) =~= seq![Part::Cur]);
                    }
                    Some(cur.join(&path))
                },
            }
        },
    }
}

/// `s` without its leading dots.
pub open spec fn without_leading_dots(s: Seq<char>) -> Seq<char>
    decreases s.len(),
{
    if s.len() > 0 && s[0] == '.' {
        without_leading_dots(s.drop_first())
    } else {
        s
    }
}

/// The date written in the name of a log file (`mochiclaw.YYYY-MM-DD.log`): what
/// follows the `mochiclaw` prefix and its dots, up to the next dot; `None` for a
/// file without the prefix.
pub open spec fn log_date_text(name: Seq<char>) -> Option<Seq<char>> {
    if crate::text::is_prefix("mochiclaw"@, name) {
        Some(split_char(without_leading_dots(name.skip("mochiclaw"@.len() as int)), '.')[0])
    } else {
        None
    }
}

proof fn lemma_dots_skip(s: Seq<char>, i: int)
    requires
        0 <= i <= s.len(),
        forall|k: int| 0 <= k < i ==> s[k] == '.',
    ensures
        without_leading_dots(s) == without_leading_dots(s.skip(i)),
    decreases i,
{
    if i > 0 {
        assert(s.skip(1).skip(i - 1) =~= s.skip(i));
        lemma_dots_skip(s.drop_first(), i - 1);
    } else {
        assert(s.skip(0) =~= s);
    }
}

/// The date written in the name of a log file (see `log_date_text`).
pub fn log_date_part(file_name: &str) -> (r: Option<String>)
    ensures
        opt_str(r) == log_date_text(file_name@),
{
    if !crate::text::starts_with(file_name, "mochiclaw") {
        return None;
    }
    let v = chars_of(file_name);
    let p = chars_of("mochiclaw");
    let start = p.len();
    let mut i = start;
    while i < v.len() && v[i] == '.'
        invariant
            v@ == file_name@,
            start <= i <= v@.len(),
            forall|k: int| start <= k < i ==> v@[k] == '.',
        decreases v@.len() - i,
    {
        i = i + 1;
    }
    let rest = string_of_range(&v, i, v.len());
    proof {
        let tail = file_name@.skip(start as int);
        assert forall|k: int| 0 <= k < i - start implies tail[k] == '.' by {
            assert(tail[k] == v@[k + start]);
        }
        lemma_dots_skip(tail, i - start);
        assert(tail.skip(i - start) =~= v@.subrange(i as int, v@.len() as int));
        if i < v@.len() {
            assert(tail.skip(i - start)[0] == v@[i as int]);
        }
    }
    let pieces = split_on(rest.as_str(), '.');
    Some(pieces[0].clone())
}

/// How a login goes on after the plugin's first answer.
pub enum LoginStep {
    /// Already logged in: keep the token.
    SaveToken(String),
    /// Logged in, but no token came back: nothing to keep.
    Done,
    /// Show the QR code at this URL, and poll with the temporary token if there is one.
    ShowQr(String, Option<String>),
    /// The answer asks for a QR code but gives none: nothing more happens.
    NoQr,
    /// The plugin reported an error.
    Failed,
    /// The plugin answered with a status the command does not know.
    UnknownStatus(String),
}

/// The next step of a login, from the plugin's answer.
pub fn login_step(out: &LoginOutput) -> (r: LoginStep)
    ensures
        out.status@ == "logged_in"@ ==> match out.token {
            Some(t) => r matches LoginStep::SaveToken(x) && x@ == t@,
            None => r is Done,
        },
        out.status@ == "need_qr"@ ==> match out.qr_url {
            Some(u) => r matches LoginStep::ShowQr(x, tt) && x@ == u@ && opt_str(tt) == opt_str(out.temp_token),
            None => r is NoQr,
        },
        out.status@ == "error"@ ==> r is Failed,
        out.status@ != "logged_in"@ && out.status@ != "need_qr"@ && out.status@ != "error"@ ==> (r matches LoginStep::UnknownStatus(s) && s@ == out.status@),
{
    proof {
        reveal_strlit("logged_in");
        reveal_strlit("need_qr");
        reveal_strlit("error");
        assert("logged_in"@.len() == 9 && "need_qr"@.len() == 7 && "error"@.len() == 5);
    }
    if str_eq(out.status.as_str(), "logged_in") {
        match &out.token {
            Some(t) => LoginStep::SaveToken(t.clone()),
            None => LoginStep::Done,
        }
    } else if str_eq(out.status.as_str(), "need_qr") {
        match &out.qr_url {
            Some(u) => LoginStep::ShowQr(
                u.clone(),
                match &out.temp_token {
                    Some(t) => Some(t.clone()),
                    None => None,
                },
            ),
            None => LoginStep::NoQr,
        }
    } else if str_eq(out.status.as_str(), "error") {
        LoginStep::Failed
    } else {
        LoginStep::UnknownStatus(out.status.clone())
    }
}

/// What one poll of a QR login says.
pub enum CheckStep {
    /// The login went through: keep the token and stop.
    Confirmed,
    /// The code was scanned: keep waiting for the confirmation.
    Scanned,
    /// The code expired: stop.
    Expired,
    /// The plugin reported an error: stop.
    Failed,
    /// Nothing yet: keep waiting.
    Waiting,
}

/// What one poll of a QR login says, from its status.
pub fn check_step(status: &str) -> (r: CheckStep)
    ensures
        status@ == "confirmed"@ ==> r is Confirmed,
        status@ == "scaned"@ ==> r is Scanned,
        status@ == "expired"@ ==> r is Expired,
        status@ == "error"@ ==> r is Failed,
        status@ != "confirmed"@ && status@ != "scaned"@ && status@ != "expired"@ && status@ != "error"@
            ==> r is Waiting,
{
    proof {
        reveal_strlit("confirmed");
        reveal_strlit("scaned");
        reveal_strlit("expired");
        reveal_strlit("error");
        assert("confirmed"@.len() == 9 && "scaned"@.len() == 6 && "expired"@.len() == 7 && "error"@.len() == 5);
    }
    if str_eq(status, "confirmed") {
        CheckStep::Confirmed
    } else if str_eq(status, "scaned") {
        CheckStep::Scanned
    } else if str_eq(status, "expired") {
        CheckStep::Expired
    } else if str_eq(status, "error") {
        CheckStep::Failed
    } else {
        CheckStep::Waiting
    }
}

fn copy_opt(o: &Option<String>) -> (r: Option<String>)
    ensures
        opt_str(r) == opt_str(*o),
{
    match o {
        Some(s) => Some(s.clone()),
        None => None,
    }
}

/// The login kept after a QR login went through: logged in, with the first
/// answer's QR code and the confirmation's token and base URL.
pub fn confirmed_login(first: &LoginOutput, check: &CheckLoginOutput) -> (r: LoginOutput)
    ensures
        r.status@ == "logged_in"@,
        opt_str(r.qr_url) == opt_str(first.qr_url),
        opt_str(r.temp_token) == opt_str(first.temp_token),
        opt_str(r.token) == opt_str(check.token),
        opt_str(r.base_url) == opt_str(check.base_url),
        r.error is None,
{
    LoginOutput {
        status: to_string("logged_in"),
        qr_url: copy_opt(&first.qr_url),
        temp_token: copy_opt(&first.temp_token),
        token: copy_opt(&check.token),
        base_url: copy_opt(&check.base_url),
        error: None,
    }
}

/// The channel settings kept for a login: enabled, with its token, and its base URL
/// among the extra settings when there is one; `None` when the login gave no token.
pub fn login_channel_config(login: &LoginOutput) -> (r: Option<ChannelConfig>)
    ensures
        match login.token {
            None => r is None,
            Some(t) => r matches Some(c) && {
                &&& c.enabled
                &&& opt_str(c.token) == Some(t@)
                &&& c.extra.wf()
                &&& match login.base_url {
                    Some(b) => c.extra.view().dom() == set!["base_url"@] && (c.extra.view()["base_url"@] matches ArgValue::Text(x) && x@ == b@),
                    None => c.extra.view().dom() == Set::<Seq<char>>::empty(),
                }
            },
        },
{
    let token = match &login.token {
        Some(t) => t.clone(),
        None => return None,
    };
    let mut extra: StrMap<ArgValue> = StrMap::new();
    match &login.base_url {
        Some(b) => {
            extra.insert(to_string("base_url"), ArgValue::Text(b.clone()));
            assert(extra.view().dom() =~= set!["base_url"@]);
        },
        None => {
            assert(extra.view().dom() =~= Set::<Seq<char>>::empty());
        },
    }
    Some(ChannelConfig { enabled: true, token: Some(token), extra })
}

} // verus!
