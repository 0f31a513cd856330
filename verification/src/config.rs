//! What the app remembers between runs.
//!
//! Deliberately holds no secret: the password is typed at connect time and
//! the session id lives only in memory. What is kept is the address, the
//! account name, and the two-factor device token — which only skips the code
//! for someone who already knows the password.

use vstd::prelude::*;

use crate::dsm::client::Host;
use crate::model::opt_view;
use crate::model::system::{trim, trim_bounds};
use crate::text::{chars_of, parse_u64, parse_unsigned, string_from_chars};
use crate::trend::Range;

verus! {

#[derive(Debug, Clone, PartialEq, Eq)]
pub struct Config {
    pub address: String,
    pub port: u16,
    pub https: bool,
    pub verify_tls: bool,
    pub account: String,
    /// From a previous two-factor login. Lets a later login skip the code.
    pub device_id: Option<String>,
    /// Seconds between polls, 1–60.
    pub poll_interval: u64,
    pub range: Range,
}

impl Default for Config {
    /// Nothing to connect to yet: HTTPS on DSM's port, certificate checked,
    /// a five-second poll over the last hour.
    fn default() -> (r: Config)
        ensures
            r.address@.len() == 0,
            r.port == 5001,
            r.https,
            r.verify_tls,
            r.account@.len() == 0,
            r.device_id is None,
            r.poll_interval == 5,
            r.range == Range::Hour,
    {
        Config {
            address: String::new(),
            port: 5001,
            https: true,
            verify_tls: true,
            account: String::new(),
            device_id: None,
            poll_interval: 5,
            range: Range::Hour,
        }
    }
}

/// A poll interval clamped into 1–60 seconds.
pub open spec fn clamped_interval(n: u64) -> u64 {
    if n < 1 {
        1
    } else if n > 60 {
        60
    } else {
        n
    }
}

/// A port, with zero read as the conventional one for the scheme.
pub open spec fn port_for(port: u16, https: bool) -> u16 {
    if port != 0 {
        port
    } else if https {
        5001
    } else {
        5000
    }
}

/// Sanitising lands in range and changes nothing a second time: the interval
/// is within 1–60 seconds, the port is not zero, and clamping a clamped
/// value leaves it as it is.
pub proof fn lemma_sanitising_settles(n: u64, port: u16, https: bool)
    ensures
        1 <= clamped_interval(n) <= 60,
        clamped_interval(clamped_interval(n)) == clamped_interval(n),
        port_for(port, https) != 0,
        port_for(port_for(port, https), https) == port_for(port, https),
        1 <= n <= 60 ==> clamped_interval(n) == n,
{
}

impl Config {
    /// Whether there is enough here to try connecting without asking.
    pub fn is_configured(&self) -> (r: bool)
        ensures
            r == (self.address@.len() > 0 && self.account@.len() > 0),
    {
        !self.address.as_str().is_empty() && !self.account.as_str().is_empty()
    }

    /// Where to connect.
    pub fn host(&self) -> (r: Host)
        ensures
            r.address@ == self.address@,
            r.port == self.port,
            r.https == self.https,
            r.verify_tls == self.verify_tls,
    {
        Host {
            address: self.address.clone(),
            port: self.port,
            https: self.https,
            verify_tls: self.verify_tls,
        }
    }

    /// Clamp anything a hand-edited file could get wrong: the interval into
    /// 1–60 seconds (a 0 would spin the poll loop), and a zero port back to
    /// the conventional one for the scheme.
    pub fn sanitised(self) -> (r: Config)
        ensures
            r.poll_interval == clamped_interval(self.poll_interval),
            r.port == port_for(self.port, self.https),
            r.address == self.address,
            r.https == self.https,
            r.verify_tls == self.verify_tls,
            r.account == self.account,
            r.device_id == self.device_id,
            r.range == self.range,
    {
        let mut c = self;
        if c.poll_interval < 1 {
            c.poll_interval = 1;
        } else if c.poll_interval > 60 {
            c.poll_interval = 60;
        }
        if c.port == 0 {
            c.port = if c.https { 5001 } else { 5000 };
        }
        c
    }
}

/// What the connect dialog hands back: where and as whom to connect, the
/// password to log in with, and a two-factor code when one was typed.
#[derive(Debug, Clone)]
pub struct Answer {
    pub config: Config,
    pub password: String,
    pub otp_code: Option<String>,
}

/// `s` with white space taken off both ends, as `str::trim` does.
fn trimmed(s: &str) -> (r: String)
    ensures
        r@ == trim(s@),
{
    let cs = chars_of(s);
    let (a, b) = trim_bounds(&cs, 0, cs.len());
    let mut kept: Vec<char> = Vec::new();
    let mut i: usize = a;
    while i < b
        invariant
            a <= i <= b <= cs@.len(),
            kept@ == cs@.subrange(a as int, i as int),
        decreases b - i,
    {
        kept.push(cs[i]);
        assert(cs@.subrange(a as int, i + 1) =~= cs@.subrange(a as int, i as int).push(cs@[i as int]));
        i = i + 1;
    }
    assert(cs@.subrange(0, cs@.len() as int) =~= s@);
    string_from_chars(kept.as_slice())
}

/// The port a typed text reads as: `u16`'s own parse — digits with an
/// optional leading `+`, nothing around them, at most 65535 — or `fallback`
/// when the text is not such a number.
pub open spec fn typed_port(text: Seq<char>, fallback: u16) -> u16 {
    match parse_unsigned(text, u16::MAX as nat) {
        Some(v) => v as u16,
        None => fallback,
    }
}

/// The code a typed text stands for: none when it is blank.
pub open spec fn typed_code(text: Seq<char>) -> Option<Seq<char>> {
    if trim(text).len() == 0 {
        None
    } else {
        Some(trim(text))
    }
}

/// Turn what was typed into the connect dialog into an answer. The address
/// and account lose surrounding white space; a port that does not read as a
/// number keeps the one `base` had; a blank code means none was given; and
/// the result is sanitised, so a zero port becomes the scheme's own. The
/// password is taken exactly as typed.
pub fn connect_answer(
    base: &Config,
    address: &str,
    port: &str,
    https: bool,
    verify_tls: bool,
    account: &str,
    password: &str,
    otp: &str,
) -> (r: Answer)
    ensures
        r.config.address@ == trim(address@),
        r.config.account@ == trim(account@),
        r.config.port == port_for(typed_port(port@, base.port), https),
        r.config.https == https,
        r.config.verify_tls == verify_tls,
        opt_view(r.config.device_id) == opt_view(base.device_id),
        r.config.poll_interval == clamped_interval(base.poll_interval),
        r.config.range == base.range,
        r.password@ == password@,
        opt_view(r.otp_code) == typed_code(otp@),
{
    let typed: u16 = match parse_u64(port) {
        Some(v) => if v <= 65535 {
            v as u16
        } else {
            base.port
        },
        None => base.port,
    };
    let device_id = match &base.device_id {
        Some(d) => Some(d.clone()),
        None => None,
    };
    let config = Config {
        address: trimmed(address),
        port: typed,
        https,
        verify_tls,
        account: trimmed(account),
        device_id,
        poll_interval: base.poll_interval,
        range: base.range,
    }.sanitised();
    let code = trimmed(otp);
    let otp_code = if code.as_str().is_empty() {
        None
    } else {
        Some(code)
    };
    Answer { config, password: String::from_str(password), otp_code }
}

} // verus!
