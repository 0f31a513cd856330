//! Where a DiskStation is, how to log in to it, and what a login hands back.
//!
//! The socket itself is the transport's business; what is decided here is
//! which call a login makes and how its reply becomes a session.

use vstd::prelude::*;

use super::envelope::{pair_view, Call};
use super::error::{Error, ErrorView};
use crate::json::Json;
use crate::text::{decimal, u64_text};

verus! {

/// Where a DiskStation is and how to reach it.
#[derive(Debug, Clone, PartialEq, Eq)]
pub struct Host {
    pub address: String,
    pub port: u16,
    pub https: bool,
    /// Whether to insist on a certificate that chains to a real root. A
    /// DiskStation out of the box serves a self-signed one.
    pub verify_tls: bool,
}

/// The base URL of a host, with no trailing slash.
pub open spec fn base_url_of(https: bool, address: Seq<char>, port: u16) -> Seq<char> {
    (if https { "https"@ } else { "http"@ }) + "://"@ + address + ":"@ + decimal(port as nat)
}

impl Host {
    /// The conventional DSM endpoint: HTTPS on 5001, certificate checked.
    pub fn new(address: &str) -> (r: Host)
        ensures
            r.address@ == address@,
            r.port == 5001,
            r.https,
            r.verify_tls,
    {
        Host { address: String::from_str(address), port: 5001, https: true, verify_tls: true }
    }

    /// The base URL, with no trailing slash.
    pub fn base_url(&self) -> (r: String)
        ensures
            r@ == base_url_of(self.https, self.address@, self.port),
    {
        let mut s = if self.https {
            String::from_str("https")
        } else {
            String::from_str("http")
        };
        s.append("://");
        s.append(self.address.as_str());
        s.append(":");
        let p = u64_text(self.port as u64);
        s.append(p.as_str());
        s
    }

    /// Where every API call goes on DSM 7.
    pub fn entry_url(&self) -> (r: String)
        ensures
            r@ == base_url_of(self.https, self.address@, self.port) + "/webapi/entry.cgi"@,
    {
        let mut s = self.base_url();
        s.append("/webapi/entry.cgi");
        s
    }
}

/// Proof that we are logged in.
///
/// `device_id` is the thing worth persisting: with it a later login skips
/// the two-factor prompt.
#[derive(Debug, Clone, PartialEq, Eq)]
pub struct Session {
    pub sid: String,
    /// DSM's CSRF token, required on every call once CSRF protection is on.
    pub synotoken: Option<String>,
    /// Returned only by a login that asked for a device token.
    pub device_id: Option<String>,
}

impl Default for Session {
    fn default() -> (r: Session)
        ensures
            r.sid@.len() == 0,
            r.synotoken is None,
            r.device_id is None,
    {
        Session { sid: String::new(), synotoken: None, device_id: None }
    }
}

/// What to log in with.
#[derive(Debug, Clone)]
pub struct Credentials {
    pub account: String,
    pub password: String,
    /// A code from the authenticator, when DSM has asked for one.
    pub otp_code: Option<String>,
    /// A device token from a previous login, which replaces the code.
    pub device_id: Option<String>,
    /// How this machine names itself when asking for a device token.
    pub device_name: String,
}

impl Credentials {
    pub fn new(account: &str, password: &str) -> (r: Credentials)
        ensures
            r.account@ == account@,
            r.password@ == password@,
            r.otp_code is None,
            r.device_id is None,
            r.device_name@ == "lookout"@,
    {
        Credentials {
            account: String::from_str(account),
            password: String::from_str(password),
            otp_code: None,
            device_id: None,
            device_name: String::from_str("lookout"),
        }
    }
}

/// The parameters a login sends: always the account, password, `sid` format
/// and a CSRF token request; then, when a code is supplied, the code and a
/// request for a device token (so this is the last time a code is needed),
/// or else, when a device token is held, that token.
pub open spec fn login_params(c: Credentials) -> Seq<(Seq<char>, Seq<char>)> {
    let base = seq![
        ("account"@, c.account@),
        ("passwd"@, c.password@),
        ("format"@, "sid"@),
        ("enable_syno_token"@, "yes"@),
    ];
    match (c.otp_code, c.device_id) {
        (Some(code), _) => base + seq![
            ("otp_code"@, code@),
            ("enable_device_token"@, "yes"@),
            ("device_name"@, c.device_name@),
        ],
        (None, Some(did)) => base + seq![("device_id"@, did@), ("device_name"@, c.device_name@)],
        (None, None) => base,
    }
}

/// The call a login makes: `SYNO.API.Auth` version 7, which is what DSM 7
/// speaks and the first with device-token support.
pub fn login_call(creds: &Credentials) -> (r: Call)
    ensures
        r.api@ == "SYNO.API.Auth"@,
        r.version == 7,
        r.method@ == "login"@,
        r.params_view() =~= login_params(*creds),
{
    let mut call = Call::new("SYNO.API.Auth", 7, "login")
        .param("account", creds.account.as_str())
        .param("passwd", creds.password.as_str())
        .param("format", "sid")
        .param("enable_syno_token", "yes");
    match (&creds.otp_code, &creds.device_id) {
        (Some(code), _) => {
            call = call.param("otp_code", code.as_str())
                .param("enable_device_token", "yes")
                .param("device_name", creds.device_name.as_str());
        },
        (None, Some(did)) => {
            call = call.param("device_id", did.as_str())
                .param("device_name", creds.device_name.as_str());
        },
        (None, None) => {},
    }
    call
}

pub open spec fn text_field(v: Json, key: Seq<char>) -> Option<Seq<char>> {
    match v.field(key) {
        Some(j) => j.text_of(),
        None => None,
    }
}

/// The device token a login reply carries: `device_id`, or — only when that
/// is absent altogether — `did`, which older DSM versions call it; failing
/// both, the token the login was made with.
pub open spec fn login_device_id(data: Json, given: Option<Seq<char>>) -> Option<Seq<char>> {
    let named = match data.field("device_id"@) {
        Some(j) => j.text_of(),
        None => text_field(data, "did"@),
    };
    match named {
        Some(d) => Some(d),
        None => given,
    }
}

pub open spec fn opt_view(o: Option<String>) -> Option<Seq<char>> {
    match o {
        Some(s) => Some(s@),
        None => None,
    }
}

fn text_at(v: &Json, key: &str) -> (r: Option<String>)
    ensures
        opt_view(r) == text_field(*v, key@),
{
    match v.get(key) {
        Some(j) => match j.as_str() {
            Some(t) => Some(String::from_str(t)),
            None => None,
        },
        None => None,
    }
}

/// The session a successful login's reply describes. A reply with no `sid`
/// is malformed, whatever else it says.
pub fn session_from_login(data: &Json, creds: &Credentials) -> (r: Result<Session, Error>)
    ensures
        match text_field(*data, "sid"@) {
            Some(sid) => r matches Ok(s) && s.sid@ == sid
                && opt_view(s.synotoken) == text_field(*data, "synotoken"@)
                && opt_view(s.device_id) == login_device_id(*data, opt_view(creds.device_id)),
            None => r matches Err(e) && e@ == ErrorView::Malformed("login succeeded but returned no sid"@),
        },
{
    let sid = match text_at(data, "sid") {
        Some(s) => s,
        None => return Err(Error::Malformed(String::from_str("login succeeded but returned no sid"))),
    };
    let synotoken = text_at(data, "synotoken");
    let named = match data.get("device_id") {
        Some(j) => match j.as_str() {
            Some(t) => Some(String::from_str(t)),
            None => None,
        },
        None => text_at(data, "did"),
    };
    let device_id = match named {
        Some(d) => Some(d),
        None => creds.device_id.clone(),
    };
    Ok(Session { sid, synotoken, device_id })
}

/// The form fields one call posts: its API, version and method, then its own
/// parameters in order, then the session id when there is a session. The
/// session travels in the body: it has to be attached to every call anyway,
/// and a cookie store would be a second place for it.
pub open spec fn form_of(call: Call, session: Option<Session>) -> Seq<(Seq<char>, Seq<char>)> {
    seq![("api"@, call.api@), ("version"@, decimal(call.version as nat)), ("method"@, call.method@)]
        + call.params_view() + match session {
        Some(s) => seq![("_sid"@, s.sid@)],
        None => Seq::empty(),
    }
}

/// `form_of`, computed.
pub fn form_fields(call: &Call, session: &Option<Session>) -> (r: Vec<(String, String)>)
    ensures
        r@.map_values(|p: (String, String)| pair_view(p)) == form_of(*call, *session),
{
    let mut form: Vec<(String, String)> = Vec::new();
    form.push((String::from_str("api"), call.api.clone()));
    form.push((String::from_str("version"), u64_text(call.version as u64)));
    form.push((String::from_str("method"), call.method.clone()));
    proof {
        reveal_strlit("api");
        reveal_strlit("version");
        reveal_strlit("method");
        reveal_strlit("_sid");
    }
    let ghost head = seq![("api"@, call.api@), ("version"@, decimal(call.version as nat)), ("method"@, call.method@)];
    let mut i: usize = 0;
    while i < call.params.len()
        invariant
            i <= call.params@.len(),
            head == seq![("api"@, call.api@), ("version"@, decimal(call.version as nat)), ("method"@, call.method@)],
            form@.map_values(|p: (String, String)| pair_view(p)) == head + call.params_view().take(i as int),
        decreases call.params@.len() - i,
    {
        let (k, v) = &call.params[i];
        let ghost before = form@;
        form.push((k.clone(), v.clone()));
        assert(form@ == before.push(form@.last()));
        assert(form@.map_values(|p: (String, String)| pair_view(p)) =~= before.map_values(
            |p: (String, String)| pair_view(p),
        ).push(pair_view(form@.last())));
        assert(call.params_view().take(i + 1) =~= call.params_view().take(i as int).push(
            pair_view(call.params@[i as int]),
        ));
        i = i + 1;
    }
    assert(call.params_view().take(call.params@.len() as int) =~= call.params_view());
    match session {
        Some(s) => {
            let ghost before = form@;
            form.push((String::from_str("_sid"), s.sid.clone()));
            assert(form@ == before.push(form@.last()));
            assert(form@.map_values(|p: (String, String)| pair_view(p)) =~= before.map_values(
                |p: (String, String)| pair_view(p),
            ).push(pair_view(form@.last())));
        },
        None => {},
    }
    assert(form@.map_values(|p: (String, String)| pair_view(p)) =~= form_of(*call, *session));
    form
}

/// The CSRF token header a call carries: the session's token, when there is
/// a session and it has one.
pub fn token_header(session: &Option<Session>) -> (r: Option<&str>)
    ensures
        match r {
            Some(t) => session matches Some(s) && s.synotoken matches Some(k) && t@ == k@,
            None => !(session matches Some(s) && s.synotoken is Some),
        },
{
    match session {
        Some(s) => match &s.synotoken {
            Some(t) => Some(t.as_str()),
            None => None,
        },
        None => None,
    }
}

} // verus!
