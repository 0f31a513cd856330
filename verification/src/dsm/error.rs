//! What can go wrong talking to a DiskStation, as values.
//!
//! DSM does not use HTTP status codes to report failure: every call that
//! reaches the CGI answers `200 OK` with `{"success": false, "error": {...}}`
//! in the body. The envelope reader turns that back into a `Result` in one
//! place, and nothing above it inspects a status code.

use vstd::prelude::*;

use crate::text::{i64_text, signed_decimal};

verus! {

/// A refusal from DSM, with the numeric code it came with.
///
/// The code is kept rather than collapsed into an enum because the set is
/// open: each API adds its own codes above 400.
#[derive(Debug, Clone, PartialEq, Eq)]
pub struct DsmError {
    pub code: i64,
    /// The API that produced it, so a compound request can say which of its
    /// parts failed.
    pub api: String,
    /// Which parameter DSM objected to, when it says (error 120 does).
    pub parameter: Option<String>,
}

/// Why a call did not produce an answer.
#[derive(Debug, Clone, PartialEq, Eq)]
pub enum Error {
    /// The request never completed: DNS, connection refused, TLS, timeout.
    Transport(String),
    /// The body was not the JSON envelope every DSM endpoint answers with.
    Malformed(String),
    /// DSM answered, and said no.
    Dsm(DsmError),
}

/// A `DsmError` as values.
pub struct DsmErrorView {
    pub code: i64,
    pub api: Seq<char>,
    pub parameter: Option<Seq<char>>,
}

/// An `Error` as values.
pub enum ErrorView {
    Transport(Seq<char>),
    Malformed(Seq<char>),
    Dsm(DsmErrorView),
}

pub open spec fn opt_string_view(o: Option<String>) -> Option<Seq<char>> {
    match o {
        Some(s) => Some(s@),
        None => None,
    }
}

impl View for DsmError {
    type V = DsmErrorView;

    open spec fn view(&self) -> DsmErrorView {
        DsmErrorView { code: self.code, api: self.api@, parameter: opt_string_view(self.parameter) }
    }
}

impl View for Error {
    type V = ErrorView;

    open spec fn view(&self) -> ErrorView {
        match self {
            Error::Transport(m) => ErrorView::Transport(m@),
            Error::Malformed(m) => ErrorView::Malformed(m@),
            Error::Dsm(e) => ErrorView::Dsm(e@),
        }
    }
}

/// DSM's "the system is busy": a DiskStation waking its disks answers these
/// for a few seconds and then works fine.
pub open spec fn busy_code(code: i64) -> bool {
    code == 117 || code == 118
}

/// The codes that mean the session is gone.
pub open spec fn session_code(code: i64) -> bool {
    code == 105 || code == 106 || code == 107 || code == 119
}

/// What a person is shown for a refusal.
pub open spec fn refusal_message(e: DsmErrorView) -> Seq<char> {
    let c = e.code;
    if c == 100 { "Unknown error."@ }
    else if c == 101 { "The request was missing an API, method or version."@ }
    else if c == 102 { "This DiskStation does not have that API."@ }
    else if c == 103 { "That API does not support this method."@ }
    else if c == 104 { "That API version does not support this call."@ }
    else if c == 105 { "This account does not have permission for that."@ }
    else if c == 106 { "The session timed out."@ }
    else if c == 107 { "The session was ended by a login from somewhere else."@ }
    else if c == 114 { "The request was missing a required parameter."@ }
    else if c == 117 || c == 118 { "The DiskStation is busy."@ }
    else if c == 119 { "The session is no longer valid."@ }
    else if c == 120 {
        match e.parameter {
            Some(p) => e.api + " rejected the parameter `"@ + p + "`."@,
            None => e.api + " rejected one of the parameters."@,
        }
    }
    else if c == 400 { "Wrong account name or password."@ }
    else if c == 401 { "That account is disabled."@ }
    else if c == 402 { "Permission denied."@ }
    else if c == 403 || c == 406 { "This account needs a two-factor code."@ }
    else if c == 404 { "That two-factor code was not accepted."@ }
    else if c == 407 { "This address is blocked by the DiskStation."@ }
    else if 408 <= c <= 410 { "The account password has expired and must be changed in DSM."@ }
    else { e.api + " refused the request (error "@ + signed_decimal(c as int) + ")."@ }
}

/// What a person is shown for any failure.
pub open spec fn error_message(e: ErrorView) -> Seq<char> {
    match e {
        ErrorView::Transport(m) => "could not reach the DiskStation: "@ + m,
        ErrorView::Malformed(m) => "unexpected reply from the DiskStation: "@ + m,
        ErrorView::Dsm(d) => refusal_message(d),
    }
}

fn literal(s: &str) -> (r: String)
    ensures
        r@ == s@,
{
    String::from_str(s)
}

impl Error {
    /// Whether re-running the same call unchanged could plausibly succeed.
    pub fn is_transient(&self) -> (r: bool)
        ensures
            r == match self@ {
                ErrorView::Transport(_) => true,
                ErrorView::Malformed(_) => false,
                ErrorView::Dsm(d) => busy_code(d.code),
            },
    {
        match self {
            Error::Transport(_) => true,
            Error::Malformed(_) => false,
            Error::Dsm(e) => e.is_transient(),
        }
    }

    /// Whether the session is gone and a fresh login is the remedy.
    pub fn needs_login(&self) -> (r: bool)
        ensures
            r == (self@ matches ErrorView::Dsm(d) && session_code(d.code)),
    {
        match self {
            Error::Dsm(e) => e.code == 105 || e.code == 106 || e.code == 107 || e.code == 119,
            _ => false,
        }
    }

    /// The sentence to show a person, as a `Display` would write it.
    pub fn describe(&self) -> (r: String)
        ensures
            r@ == error_message(self@),
    {
        match self {
            Error::Transport(m) => {
                let mut s = literal("could not reach the DiskStation: ");
                s.append(m.as_str());
                s
            },
            Error::Malformed(m) => {
                let mut s = literal("unexpected reply from the DiskStation: ");
                s.append(m.as_str());
                s
            },
            Error::Dsm(e) => e.message(),
        }
    }
}

impl DsmError {
    pub fn new(code: i64, api: &str) -> (r: DsmError)
        ensures
            r@ == (DsmErrorView { code, api: api@, parameter: None }),
    {
        DsmError { code, api: String::from_str(api), parameter: None }
    }

    /// Whether retrying unchanged could work.
    pub fn is_transient(&self) -> (r: bool)
        ensures
            r == busy_code(self.code),
    {
        self.code == 117 || self.code == 118
    }

    /// Whether the account needs a second factor to get in: 403 before a code
    /// was supplied, 406 when one is required; 404 (a code that was rejected)
    /// is not this.
    pub fn needs_otp(&self) -> (r: bool)
        ensures
            r == (self.code == 403 || self.code == 406),
    {
        self.code == 403 || self.code == 406
    }

    /// A sentence to show a person. Codes not worth explaining render as the
    /// bare number, with the API that produced it.
    pub fn message(&self) -> (r: String)
        ensures
            r@ == refusal_message(self@),
    {
        let c = self.code;
        if c == 100 { literal("Unknown error.") }
        else if c == 101 { literal("The request was missing an API, method or version.") }
        else if c == 102 { literal("This DiskStation does not have that API.") }
        else if c == 103 { literal("That API does not support this method.") }
        else if c == 104 { literal("That API version does not support this call.") }
        else if c == 105 { literal("This account does not have permission for that.") }
        else if c == 106 { literal("The session timed out.") }
        else if c == 107 { literal("The session was ended by a login from somewhere else.") }
        else if c == 114 { literal("The request was missing a required parameter.") }
        else if c == 117 || c == 118 { literal("The DiskStation is busy.") }
        else if c == 119 { literal("The session is no longer valid.") }
        else if c == 120 { self.invalid_parameter_message() }
        else if c == 400 { literal("Wrong account name or password.") }
        else if c == 401 { literal("That account is disabled.") }
        else if c == 402 { literal("Permission denied.") }
        else if c == 403 || c == 406 { literal("This account needs a two-factor code.") }
        else if c == 404 { literal("That two-factor code was not accepted.") }
        else if c == 407 { literal("This address is blocked by the DiskStation.") }
        else if 408 <= c && c <= 410 { literal("The account password has expired and must be changed in DSM.") }
        else {
            let mut s = self.api.clone();
            s.append(" refused the request (error ");
            let n = i64_text(c);
            s.append(n.as_str());
            s.append(").");
            s
        }
    }

    fn invalid_parameter_message(&self) -> (r: String)
        requires
            self.code == 120,
        ensures
            r@ == refusal_message(self@),
    {
        let mut s = self.api.clone();
        match &self.parameter {
            Some(p) => {
                s.append(" rejected the parameter `");
                s.append(p.as_str());
                s.append("`.");
            },
            None => {
                s.append(" rejected one of the parameters.");
            },
        }
        s
    }
}


/// No failure both asks for a fresh login and is worth retrying as it is:
/// the session codes and the busy codes are disjoint, and a transport
/// failure never asks for a login.
pub proof fn lemma_login_and_retry_exclusive(e: ErrorView)
    ensures
        !((e matches ErrorView::Dsm(d) && session_code(d.code)) && match e {
            ErrorView::Transport(_) => true,
            ErrorView::Malformed(_) => false,
            ErrorView::Dsm(d) => busy_code(d.code),
        }),
{
}

} // verus!
