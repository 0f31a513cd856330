//! Turning DSM's reply envelope into a `Result`.
//!
//! Every endpoint answers with one of two shapes:
//!
//! ```json
//! {"success": true,  "data": { ... }}
//! {"success": false, "error": {"code": 119}}
//! ```
//!
//! This module is the only place that knows that.

use serde_json::Value;
use vstd::prelude::*;

use super::error::{DsmError, DsmErrorView, Error, ErrorView};
use crate::json::{holds_float, json_holds_float, json_view, Json, JsonView, Number};
use crate::text::{decimal, u64_text, digit_char};

verus! {

/// The refusal an `error` object describes. `success: false` with no error
/// object at all is still a refusal, code `-1`.
pub open spec fn refusal_of(api: Seq<char>, error: Option<Json>) -> DsmErrorView {
    match error {
        Some(e) => if e is Object {
            DsmErrorView {
                code: match e.field("code"@) {
                    Some(c) => match c.i64_of() {
                        Some(v) => v,
                        None => -1i64,
                    },
                    None => -1i64,
                },
                api,
                parameter: match e.field("errors"@) {
                    Some(x) => match x.field("name"@) {
                        Some(n) => n.text_of(),
                        None => None,
                    },
                    None => None,
                },
            }
        } else {
            DsmErrorView { code: -1i64, api, parameter: None }
        },
        None => DsmErrorView { code: -1i64, api, parameter: None },
    }
}

/// What one reply envelope amounts to. `api` only names the call in a
/// failure; the envelope itself does not.
pub open spec fn reply_outcome(api: Seq<char>, root: Json) -> Result<Json, ErrorView> {
    if !(root is Object) {
        Err(ErrorView::Malformed(api + ": reply was not a JSON object"@))
    } else {
        match root.field("success"@) {
            Some(s) => match s.bool_of() {
                Some(true) => Ok(
                    match root.field("data"@) {
                        Some(d) => d,
                        None => Json::Null,
                    },
                ),
                Some(false) => Err(ErrorView::Dsm(refusal_of(api, root.field("error"@)))),
                None => Err(ErrorView::Malformed(api + ": reply had no `success` field"@)),
            },
            None => Err(ErrorView::Malformed(api + ": reply had no `success` field"@)),
        }
    }
}

/// A `Result` as values.
pub open spec fn outcome_view(r: Result<Json, Error>) -> Result<Json, ErrorView> {
    match r {
        Ok(v) => Ok(v),
        Err(e) => Err(e@),
    }
}

fn malformed(api: &str, what: &str) -> (r: Error)
    ensures
        r@ == ErrorView::Malformed(api@ + what@),
{
    let mut s = String::from_str(api);
    s.append(what);
    Error::Malformed(s)
}

/// Read the `error` object, which is missing more often than it should be.
fn error_from(api: &str, error: Option<&Json>) -> (r: DsmError)
    ensures
        r@ == refusal_of(api@, crate::json::deref_opt(error)),
{
    let e = match error {
        Some(e) => e,
        None => return DsmError::new(-1, api),
    };
    if !e.is_object() {
        return DsmError::new(-1, api);
    }
    let code: i64 = match e.get("code") {
        Some(c) => match c.as_i64() {
            Some(v) => v,
            None => -1i64,
        },
        None => -1i64,
    };
    let parameter: Option<String> = match e.get("errors") {
        Some(x) => match x.get("name") {
            Some(n) => match n.as_str() {
                Some(t) => Some(String::from_str(t)),
                None => None,
            },
            None => None,
        },
        None => None,
    };
    let mut out = DsmError::new(code, api);
    out.parameter = parameter;
    out
}

/// Read one already-parsed envelope.
pub fn from_value(api: &str, root: Json) -> (r: Result<Json, Error>)
    ensures
        outcome_view(r) == reply_outcome(api@, root),
{
    if !root.is_object() {
        return Err(malformed(api, ": reply was not a JSON object"));
    }
    let success: Option<bool> = match root.get("success") {
        Some(s) => s.as_bool(),
        None => None,
    };
    match success {
        Some(true) => {
            let ghost before = root;
            match root.into_field("data") {
                Some(d) => Ok(d),
                None => Ok(Json::Null),
            }
        },
        Some(false) => {
            let e = error_from(api, root.get("error"));
            Err(Error::Dsm(e))
        },
        None => Err(malformed(api, ": reply had no `success` field")),
    }
}

/// serde_json's JSON value, carried only between the parser and the
/// conversions below.
#[verifier::external_type_specification]
#[verifier::external_body]
pub struct ExValue(serde_json::Value);

/// What `serde_json::from_str::<Value>` makes of a text: the value, as this
/// library holds it, or the parser's message for why it is not JSON.
pub uninterp spec fn json_text(body: Seq<char>) -> Result<Json, Seq<char>>;

/// What `serde_json::Value`'s `Display` writes for a value: compact JSON
/// text, object keys as serde_json's map orders them.
pub uninterp spec fn json_written(value: JsonView) -> Seq<char>;

/// A read, as values.
pub open spec fn read_view(r: Result<Json, String>) -> Result<Json, Seq<char>> {
    match r {
        Ok(j) => Ok(j),
        Err(m) => Err(m@),
    }
}

/// serde_json's value as this library's, variant for variant; a number keeps
/// whichever of serde's three kinds it is, a float by its bits.
#[verifier::external_body]
fn json_of(v: &Value) -> Json {
    match v {
        Value::Null => Json::Null,
        Value::Bool(b) => Json::Bool(*b),
        Value::Number(n) => Json::Number(match (n.as_u64(), n.as_i64()) {
            (Some(u), _) => Number::PosInt(u),
            (None, Some(i)) => Number::NegInt(i),
            _ => Number::Float(n.as_f64().unwrap_or_default().to_bits()),
        }),
        Value::String(t) => Json::Str(t.clone()),
        Value::Array(items) => Json::Array(items.iter().map(json_of).collect()),
        Value::Object(m) => Json::Object(m.iter().map(|(k, x)| (k.clone(), json_of(x))).collect()),
    }
}

/// This library's value as serde_json's, variant for variant. Floats are not
/// written from here: this library holds them only as bit patterns.
#[verifier::external_body]
fn value_of(j: &Json) -> Value {
    match j {
        // A float is unreachable: `write_json` is never handed one.
        Json::Null | Json::Number(Number::Float(_)) => Value::Null,
        Json::Bool(b) => Value::Bool(*b),
        Json::Number(Number::PosInt(u)) => Value::from(*u),
        Json::Number(Number::NegInt(i)) => Value::from(*i),
        Json::Str(t) => Value::String(t.clone()),
        Json::Array(items) => Value::Array(items.iter().map(value_of).collect()),
        Json::Object(es) => Value::Object(es.iter().map(|(k, x)| (k.clone(), value_of(x))).collect()),
    }
}

/// Trusted: `serde_json::from_str::<serde_json::Value>` on `body`, the
/// value converted one for one. What it returns is named, not stated: the
/// JSON grammar and serde_json's messages are its own.
#[verifier::external_body]
pub(crate) fn read_json(body: &str) -> (r: Result<Json, String>)
    ensures
        read_view(r) == json_text(body@),
{
    match serde_json::from_str::<Value>(body) {
        Ok(v) => Ok(json_of(&v)),
        Err(e) => Err(e.to_string()),
    }
}

/// Trusted: `value`, converted one for one to `serde_json::Value`, written
/// with its `Display`. What it writes is named, not stated. A value holding
/// a float is not accepted.
#[verifier::external_body]
pub(crate) fn write_json(value: &Json) -> (r: String)
    requires
        !holds_float(json_view(*value)),
    ensures
        r@ == json_written(json_view(*value)),
{
    value_of(value).to_string()
}

/// What one reply body amounts to: text that is not JSON is malformed, with
/// the parser's reason; JSON is read as an envelope.
pub open spec fn body_outcome(api: Seq<char>, body: Seq<char>) -> Result<Json, ErrorView> {
    match json_text(body) {
        Ok(root) => reply_outcome(api, root),
        Err(why) => Err(ErrorView::Malformed(api + ": "@ + why)),
    }
}

/// Read one reply body: JSON text, then the envelope every endpoint answers
/// with. `api` only names the call in a failure.
pub fn parse(api: &str, body: &str) -> (r: Result<Json, Error>)
    ensures
        outcome_view(r) == body_outcome(api@, body@),
{
    match read_json(body) {
        Ok(root) => from_value(api, root),
        Err(why) => {
            let mut what = String::from_str(": ");
            what.append(why.as_str());
            proof {
                reveal_strlit(": ");
                assert(api@ + what@ =~= api@ + ": "@ + why@);
            }
            Err(malformed(api, what.as_str()))
        },
    }
}

/// One call inside a compound request.
#[derive(Debug, Clone, PartialEq, Eq)]
pub struct Call {
    pub api: String,
    pub version: u32,
    pub method: String,
    /// Extra parameters, already stringified the way DSM wants them.
    pub params: Vec<(String, String)>,
}

pub open spec fn pair_view(p: (String, String)) -> (Seq<char>, Seq<char>) {
    (p.0@, p.1@)
}

impl Call {
    /// The parameters as text.
    pub open spec fn params_view(self) -> Seq<(Seq<char>, Seq<char>)> {
        self.params@.map_values(|p: (String, String)| pair_view(p))
    }

    pub fn new(api: &str, version: u32, method: &str) -> (r: Call)
        ensures
            r.api@ == api@,
            r.version == version,
            r.method@ == method@,
            r.params@.len() == 0,
    {
        Call {
            api: String::from_str(api),
            version,
            method: String::from_str(method),
            params: Vec::new(),
        }
    }

    /// Add a parameter. DSM wants JSON values here: a string parameter has
    /// to arrive quoted, which is what [`quoted`] is for.
    pub fn param(self, key: &str, value: &str) -> (r: Call)
        ensures
            r.api == self.api,
            r.version == self.version,
            r.method == self.method,
            r.params_view() == self.params_view().push((key@, value@)),
    {
        let mut c = self;
        let ghost before = c.params@;
        c.params.push((String::from_str(key), String::from_str(value)));
        assert(c.params@ == before.push(c.params@.last()));
        assert(c.params@.map_values(|p: (String, String)| pair_view(p))
            =~= before.map_values(|p: (String, String)| pair_view(p)).push((key@, value@)));
        c
    }
}

/// A parameter inside a compound call is a JSON value, not the string form
/// the flat CGI takes: its text read as JSON, or, when it does not parse, the
/// string it was.
pub open spec fn param_view(v: Seq<char>) -> JsonView {
    match json_text(v) {
        Ok(j) => json_view(j),
        Err(_) => JsonView::Str(v),
    }
}

/// One call as an element of a compound request: its API, method and
/// version, then each parameter as JSON.
pub open spec fn call_view(c: Call) -> JsonView {
    JsonView::Object(
        seq![
            ("api"@, JsonView::Str(c.api@)),
            ("method"@, JsonView::Str(c.method@)),
            ("version"@, JsonView::Number(Number::PosInt(c.version as u64))),
        ] + c.params_view().map_values(|p: (Seq<char>, Seq<char>)| (p.0, param_view(p.1))),
    )
}

/// The list a compound request carries.
pub open spec fn compound_view(calls: Seq<Call>) -> JsonView {
    JsonView::Array(calls.map_values(|c: Call| call_view(c)))
}

/// One parameter read as JSON, or kept as the string it was.
fn param_json(v: &String) -> (r: Json)
    ensures
        json_view(r) == param_view(v@),
{
    match read_json(v.as_str()) {
        Ok(j) => j,
        Err(_) => Json::Str(v.clone()),
    }
}

/// One call as an element of a compound request.
fn call_json(c: &Call) -> (r: Json)
    ensures
        json_view(r) == call_view(*c),
{
    let mut es: Vec<(String, Json)> = Vec::new();
    es.push((String::from_str("api"), Json::Str(c.api.clone())));
    es.push((String::from_str("method"), Json::Str(c.method.clone())));
    es.push((String::from_str("version"), Json::Number(Number::PosInt(c.version as u64))));
    proof {
        reveal_strlit("api");
        reveal_strlit("method");
        reveal_strlit("version");
    }
    let ghost want = call_view(*c)->Object_0;
    let mut i: usize = 0;
    while i < c.params.len()
        invariant
            i <= c.params@.len(),
            want == call_view(*c)->Object_0,
            want.len() == 3 + c.params@.len(),
            es@.len() == 3 + i,
            forall|k: int| 0 <= k < es@.len() ==> (#[trigger] es@[k]).0@ == want[k].0 && json_view(es@[k].1) == want[k].1,
        decreases c.params@.len() - i,
    {
        let (key, value) = &c.params[i];
        let j = param_json(value);
        assert(want[3 + i] == (c.params@[i as int].0@, param_view(c.params@[i as int].1@)));
        es.push((key.clone(), j));
        i = i + 1;
    }
    let r = Json::Object(es);
    assert(json_view(r)->Object_0 =~= want);
    r
}

/// The call that makes several calls in one round trip, through
/// `SYNO.Entry.Request`: every call runs, in parallel, and the list of them
/// travels as JSON text. `None` when a parameter reads as JSON holding a
/// float, which this library does not write.
pub fn compound_call(calls: &Vec<Call>) -> (r: Option<Call>)
    ensures
        match r {
            Some(c) => {
                &&& !holds_float(compound_view(calls@))
                &&& c.api@ == "SYNO.Entry.Request"@
                &&& c.version == 1
                &&& c.method@ == "request"@
                &&& c.params_view() == seq![
                    ("stop_when_error"@, "false"@),
                    ("mode"@, "\"parallel\""@),
                    ("compound"@, json_written(compound_view(calls@))),
                ]
            },
            None => holds_float(compound_view(calls@)),
        },
{
    let mut items: Vec<Json> = Vec::new();
    let mut i: usize = 0;
    while i < calls.len()
        invariant
            i <= calls@.len(),
            items@.len() == i,
            forall|k: int| 0 <= k < i ==> json_view(#[trigger] items@[k]) == call_view(calls@[k]),
        decreases calls@.len() - i,
    {
        items.push(call_json(&calls[i]));
        i = i + 1;
    }
    let root = Json::Array(items);
    assert(json_view(root) =~= compound_view(calls@)) by {
        assert(json_view(root)->Array_0 =~= compound_view(calls@)->Array_0);
    }
    if json_holds_float(&root) {
        return None;
    }
    let text = write_json(&root);
    Some(Call::new("SYNO.Entry.Request", 1, "request")
        .param("stop_when_error", "false")
        .param("mode", "\"parallel\"")
        .param("compound", text.as_str()))
}

/// Lower-case hexadecimal digit.
pub open spec fn hex_digit(d: nat) -> char {
    if d < 10 { digit_char(d) } else { ((d - 10 + 97) as u8) as char }
}

/// How a JSON string literal spells one character: quote and backslash are
/// escaped, the five named controls get their letter, the other controls
/// below 0x20 become `\u00XX`, and everything else stands as it is.
pub open spec fn json_escape_char(c: char) -> Seq<char> {
    if c == '"' {
        seq!['\\', '"']
    } else if c == '\\' {
        seq!['\\', '\\']
    } else if c == '\x08' {
        seq!['\\', 'b']
    } else if c == '\t' {
        seq!['\\', 't']
    } else if c == '\n' {
        seq!['\\', 'n']
    } else if c == '\x0c' {
        seq!['\\', 'f']
    } else if c == '\r' {
        seq!['\\', 'r']
    } else if (c as u32) < 0x20 {
        seq!['\\', 'u', '0', '0', hex_digit((c as u32 / 16) as nat), hex_digit((c as u32 % 16) as nat)]
    } else {
        seq![c]
    }
}

pub open spec fn json_escape(s: Seq<char>) -> Seq<char>
    decreases s.len(),
{
    if s.len() == 0 {
        Seq::empty()
    } else {
        json_escape(s.drop_last()) + json_escape_char(s.last())
    }
}

/// A JSON string literal holding `s`.
pub open spec fn json_quoted(s: Seq<char>) -> Seq<char> {
    seq!['"'] + json_escape(s) + seq!['"']
}

/// Wrap a string parameter in the quotes DSM's parameter parser requires,
/// escaping what JSON requires escaped.
///
/// Trusted: serialises `serde_json::Value::String` with serde_json's
/// `Display`, whose compact formatter writes exactly `json_quoted` (its
/// `ESCAPE` table and `write_char_escape`).
#[verifier::external_body]
pub fn quoted(value: &str) -> (r: String)
    ensures
        r@ == json_quoted(value@),
{
    Value::String(value.to_owned()).to_string()
}

/// Split a compound reply into one result per call.
///
/// The outer envelope succeeds even when calls inside it failed, so each
/// element becomes its own `Result`: one dead endpoint greys out one card.
/// A reply whose list does not line up with the calls is refused rather than
/// attributing one API's data to another API's name.
pub fn split_compound(calls: &Vec<Call>, data: Json) -> (r: Result<Vec<Result<Json, Error>>, Error>)
    ensures
        match data.field("result"@) {
            Some(list) => match list.items_of() {
                Some(results) => if results.len() == calls@.len() {
                    r matches Ok(out) && out@.len() == calls@.len() && forall|i: int|
                        0 <= i < out@.len() ==> outcome_view(#[trigger] out@[i]) == reply_outcome(
                            calls@[i].api@,
                            results[i],
                        )
                } else {
                    r matches Err(e) && e@ == ErrorView::Malformed(
                        "compound reply had "@ + decimal(results.len()) + " results for "@
                            + decimal(calls@.len()) + " calls"@,
                    )
                },
                None => r matches Err(e) && e@ == ErrorView::Malformed(
                    "compound reply had no `result` array"@,
                ),
            },
            None => r matches Err(e) && e@ == ErrorView::Malformed(
                "compound reply had no `result` array"@,
            ),
        },
{
    let ghost field = data.field("result"@);
    let results = match data.into_field("result") {
        Some(Json::Array(v)) => v,
        _ => return Err(Error::Malformed(String::from_str("compound reply had no `result` array"))),
    };
    if results.len() != calls.len() {
        let mut s = String::from_str("compound reply had ");
        let a = u64_text(results.len() as u64);
        s.append(a.as_str());
        s.append(" results for ");
        let b = u64_text(calls.len() as u64);
        s.append(b.as_str());
        s.append(" calls");
        return Err(Error::Malformed(s));
    }
    let ghost all = results@;
    let mut rest = results;
    let mut out: Vec<Result<Json, Error>> = Vec::new();
    let mut i: usize = 0;
    while i < calls.len()
        invariant
            i <= calls.len(),
            all.len() == calls@.len(),
            rest@ == all.skip(i as int),
            out@.len() == i,
            forall|j: int|
                0 <= j < i ==> outcome_view(#[trigger] out@[j]) == reply_outcome(calls@[j].api@, all[j]),
        decreases calls.len() - i,
    {
        let item = rest.remove(0);
        assert(item == all[i as int]);
        assert(rest@ =~= all.skip(i + 1));
        let one = from_value(calls[i].api.as_str(), item);
        out.push(one);
        i = i + 1;
    }
    Ok(out)
}


// ---------------------------------------------------------------------------
// Quoting loses nothing.

/// The value of a lower-case hexadecimal digit.
pub open spec fn hex_value(c: char) -> int {
    if c <= '9' {
        (c as int) - 48
    } else {
        (c as int) - 87
    }
}

/// Read the inside of a JSON string literal back: each escape for the
/// character it stands for, everything else as it is.
pub open spec fn json_unescape(t: Seq<char>) -> Seq<char>
    decreases t.len(),
{
    if t.len() == 0 {
        Seq::empty()
    } else if t[0] == '\\' && t.len() >= 6 && t[1] == 'u' {
        seq![(hex_value(t[2]) * 4096 + hex_value(t[3]) * 256 + hex_value(t[4]) * 16 + hex_value(t[5])) as char]
            + json_unescape(t.skip(6))
    } else if t[0] == '\\' && t.len() >= 2 {
        let e = t[1];
        seq![
            if e == 'b' {
                '\x08'
            } else if e == 't' {
                '\t'
            } else if e == 'n' {
                '\n'
            } else if e == 'f' {
                '\x0c'
            } else if e == 'r' {
                '\r'
            } else {
                e
            },
        ] + json_unescape(t.skip(2))
    } else {
        seq![t[0]] + json_unescape(t.drop_first())
    }
}

proof fn lemma_escape_concat(a: Seq<char>, b: Seq<char>)
    ensures
        json_escape(a + b) == json_escape(a) + json_escape(b),
    decreases b.len(),
{
    if b.len() == 0 {
        assert(a + b =~= a);
        assert(json_escape(a) + json_escape(b) =~= json_escape(a));
    } else {
        lemma_escape_concat(a, b.drop_last());
        assert((a + b).drop_last() =~= a + b.drop_last());
        assert((a + b).last() == b.last());
        assert(json_escape(a) + json_escape(b.drop_last()) + json_escape_char(b.last()) =~= json_escape(a) + (
        json_escape(b.drop_last()) + json_escape_char(b.last())));
    }
}

proof fn lemma_hex_round_trip(d: nat)
    requires
        d < 16,
    ensures
        hex_value(hex_digit(d)) == d,
{
    if d < 10 {
        assert(((d + 48) as u8) as char as int == d + 48);
    } else {
        assert(((d - 10 + 97) as u8) as char as int == d + 87);
    }
}

proof fn lemma_unescape_one(c: char, rest: Seq<char>)
    ensures
        json_unescape(json_escape_char(c) + rest) == seq![c] + json_unescape(rest),
{
    let e = json_escape_char(c);
    let t = e + rest;
    assert(t.skip(e.len() as int) =~= rest);
    if c == '"' || c == '\\' || c == '\x08' || c == '\t' || c == '\n' || c == '\x0c' || c == '\r' {
        assert(t[0] == '\\' && t[1] == e[1]);
        assert(t.len() >= 6 ==> t[1] != 'u');
    } else if (c as u32) < 0x20 {
        let v = c as u32;
        lemma_hex_round_trip((v / 16) as nat);
        lemma_hex_round_trip((v % 16) as nat);
        lemma_hex_round_trip(0);
        assert(t[2] == '0' && t[3] == '0');
        assert(hex_value('0') == 0);
        assert((v / 16) * 16 + v % 16 == v);
        vstd::utf8::char_u32_cast(c, v);
        assert((v as int) as char == c);
    } else {
        assert(t[0] == c);
        assert(t.drop_first() =~= rest);
    }
}

/// Quoting loses nothing: reading the escaped text back gives the text
/// back exactly, so a name with a quote or a control character in it reaches DSM
/// as that name rather than breaking the JSON around it.
pub proof fn lemma_quoting_round_trips(s: Seq<char>)
    ensures
        json_unescape(json_escape(s)) == s,
    decreases s.len(),
{
    if s.len() > 0 {
        let first = seq![s[0]];
        assert(s =~= first + s.drop_first());
        lemma_escape_concat(first, s.drop_first());
        assert(first.drop_last() =~= Seq::<char>::empty());
        assert(json_escape(first) == json_escape(Seq::<char>::empty()) + json_escape_char(s[0]));
        assert(json_escape(first) =~= json_escape_char(s[0]));
        lemma_unescape_one(s[0], json_escape(s.drop_first()));
        lemma_quoting_round_trips(s.drop_first());
    }
}

/// The escaped text holds no raw control character: JSON requires every
/// character below 0x20 escaped.
pub proof fn lemma_escaped_text_has_no_controls(s: Seq<char>)
    ensures
        forall|i: int| 0 <= i < json_escape(s).len() ==> (#[trigger] json_escape(s)[i] as u32) >= 0x20,
    decreases s.len(),
{
    if s.len() > 0 {
        lemma_escaped_text_has_no_controls(s.drop_last());
        let a = json_escape(s.drop_last());
        let b = json_escape_char(s.last());
        assert forall|i: int| 0 <= i < (a + b).len() implies ((a + b)[i] as u32) >= 0x20 by {
            if i < a.len() {
                assert((a + b)[i] == a[i]);
            } else {
                let c = s.last();
                let v = c as u32;
                if (v as u32) < 0x20 && !(c == '\x08' || c == '\t' || c == '\n' || c == '\x0c' || c == '\r') {
                    lemma_hex_digit_printable((v / 16) as nat);
                    lemma_hex_digit_printable((v % 16) as nat);
                }
                assert((a + b)[i] == b[i - a.len()]);
            }
        }
    }
}

proof fn lemma_hex_digit_printable(d: nat)
    requires
        d < 16,
    ensures
        (hex_digit(d) as u32) >= 0x30,
{
    if d < 10 {
        assert(((d + 48) as u8) as char as u32 == d + 48);
    } else {
        assert(((d - 10 + 97) as u8) as char as u32 == d + 87);
    }
}

} // verus!
