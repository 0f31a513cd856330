//! A JSON value as the readers see it.
//!
//! DSM replies are parsed into this shape at the transport's edge; everything
//! that reads them works on it. Numbers keep the three kinds a JSON parser
//! distinguishes — a non-negative integer, a negative integer, and a float,
//! the last held as its IEEE-754 bit pattern — so a reader can tell `27`
//! from `"27"` from `27.5` exactly as DSM sent them.

use vstd::prelude::*;

use crate::text::same_text;

verus! {

/// A JSON number.
#[derive(Debug, Clone, Copy, PartialEq, Eq)]
pub enum Number {
    /// A non-negative integer that fits in 64 bits.
    PosInt(u64),
    /// A negative integer that fits in 64 bits.
    NegInt(i64),
    /// Anything else, as the bit pattern of the nearest `f64`.
    Float(u64),
}

/// A JSON value. Object entries keep the order the parser produced and hold
/// each key once.
#[derive(Debug)]
pub enum Json {
    Null,
    Bool(bool),
    Number(Number),
    Str(String),
    Array(Vec<Json>),
    Object(Vec<(String, Json)>),
}

/// The value stored under `key` in a list of object entries: the first entry
/// with that key.
pub open spec fn lookup(entries: Seq<(String, Json)>, key: Seq<char>) -> Option<Json>
    decreases entries.len(),
{
    if entries.len() == 0 {
        None
    } else if entries[0].0@ == key {
        Some(entries[0].1)
    } else {
        lookup(entries.drop_first(), key)
    }
}

pub open spec fn deref_opt(o: Option<&Json>) -> Option<Json> {
    match o {
        Some(j) => Some(*j),
        None => None,
    }
}

pub open spec fn str_opt(o: Option<&str>) -> Option<Seq<char>> {
    match o {
        Some(s) => Some(s@),
        None => None,
    }
}

/// `Number::as_u64`: only a non-negative integer reads as unsigned.
pub open spec fn number_u64(n: Number) -> Option<u64> {
    match n {
        Number::PosInt(u) => Some(u),
        _ => None,
    }
}

/// `Number::as_i64`: any integer that fits.
pub open spec fn number_i64(n: Number) -> Option<i64> {
    match n {
        Number::PosInt(u) => if u <= i64::MAX as u64 { Some(u as i64) } else { None },
        Number::NegInt(i) => Some(i),
        Number::Float(_) => None,
    }
}

impl Json {
    /// `get(key)`: the value under `key` when this is an object.
    pub open spec fn field(self, key: Seq<char>) -> Option<Json> {
        match self {
            Json::Object(entries) => lookup(entries@, key),
            _ => None,
        }
    }

    pub open spec fn text_of(self) -> Option<Seq<char>> {
        match self {
            Json::Str(s) => Some(s@),
            _ => None,
        }
    }

    pub open spec fn items_of(self) -> Option<Seq<Json>> {
        match self {
            Json::Array(v) => Some(v@),
            _ => None,
        }
    }

    pub open spec fn bool_of(self) -> Option<bool> {
        match self {
            Json::Bool(b) => Some(b),
            _ => None,
        }
    }

    pub open spec fn u64_of(self) -> Option<u64> {
        match self {
            Json::Number(n) => number_u64(n),
            _ => None,
        }
    }

    pub open spec fn i64_of(self) -> Option<i64> {
        match self {
            Json::Number(n) => number_i64(n),
            _ => None,
        }
    }

    /// The value under `key`, when this is an object that has one.
    pub fn get(&self, key: &str) -> (r: Option<&Json>)
        ensures
            deref_opt(r) == self.field(key@),
    {
        match self {
            Json::Object(entries) => {
                let mut i: usize = 0;
                assert(entries@.skip(0) =~= entries@);
                while i < entries.len()
                    invariant
                        i <= entries.len(),
                        self.field(key@) == lookup(entries@, key@),
                        lookup(entries@, key@) == lookup(entries@.skip(i as int), key@),
                    decreases entries.len() - i,
                {
                    assert(entries@.skip(i as int)[0] == entries@[i as int]);
                    assert(entries@.skip(i as int).drop_first() =~= entries@.skip(i + 1));
                    if same_text(entries[i].0.as_str(), key) {
                        assert(lookup(entries@.skip(i as int), key@) == Some(entries@[i as int].1));
                        assert(deref_opt(Some(&entries[i as int].1)) == Some(entries@[i as int].1));
                        return Some(&entries[i].1);
                    }
                    i = i + 1;
                }
                None
            },
            _ => None,
        }
    }

    /// The value under `key`, taken out of an object that is given up.
    pub fn into_field(self, key: &str) -> (r: Option<Json>)
        ensures
            r == self.field(key@),
    {
        let ghost whole = self;
        if !self.is_object() {
            return None;
        }
        match self {
            Json::Object(entries) => {
                assert(whole == Json::Object(entries));
                let mut entries = entries;
                let ghost all = entries@;
                let mut i: usize = 0;
                assert(all.skip(0) =~= all);
                while i < entries.len()
                    invariant
                        i <= entries.len(),
                        entries@ == all,
                        whole.field(key@) == lookup(all, key@),
                        whole == self,
                        lookup(all, key@) == lookup(all.skip(i as int), key@),
                    decreases entries.len() - i,
                {
                    assert(all.skip(i as int)[0] == all[i as int]);
                    assert(all.skip(i as int).drop_first() =~= all.skip(i + 1));
                    if same_text(entries[i].0.as_str(), key) {
                        assert(lookup(all.skip(i as int), key@) == Some(all[i as int].1));
                        let pair = entries.remove(i);
                        assert(pair == all[i as int]);
                        assert(whole.field(key@) == Some(pair.1));
                        return Some(pair.1);
                    }
                    i = i + 1;
                }
                None
            },
            _ => None,
        }
    }

    /// `as_str`.
    pub fn as_str(&self) -> (r: Option<&str>)
        ensures
            str_opt(r) == self.text_of(),
    {
        match self {
            Json::Str(s) => Some(s.as_str()),
            _ => None,
        }
    }

    /// `as_array`.
    pub fn as_array(&self) -> (r: Option<&Vec<Json>>)
        ensures
            match r {
                Some(v) => self.items_of() == Some(v@),
                None => self.items_of() is None,
            },
    {
        match self {
            Json::Array(v) => Some(v),
            _ => None,
        }
    }

    /// `as_object`: the entries, when this is an object.
    pub fn as_object(&self) -> (r: Option<&Vec<(String, Json)>>)
        ensures
            match r {
                Some(v) => self == Json::Object(*v),
                None => !(self is Object),
            },
    {
        match self {
            Json::Object(v) => Some(v),
            _ => None,
        }
    }

    /// `is_object`.
    pub fn is_object(&self) -> (r: bool)
        ensures
            r == self is Object,
    {
        match self {
            Json::Object(_) => true,
            _ => false,
        }
    }

    /// `as_bool`: only a JSON boolean.
    pub fn as_bool(&self) -> (r: Option<bool>)
        ensures
            r == self.bool_of(),
    {
        match self {
            Json::Bool(b) => Some(*b),
            _ => None,
        }
    }

    /// `as_u64`: only a non-negative integer.
    pub fn as_u64(&self) -> (r: Option<u64>)
        ensures
            r == self.u64_of(),
    {
        match self {
            Json::Number(Number::PosInt(u)) => Some(*u),
            _ => None,
        }
    }

    /// `as_i64`: any integer that fits.
    pub fn as_i64(&self) -> (r: Option<i64>)
        ensures
            r == self.i64_of(),
    {
        match self {
            Json::Number(Number::PosInt(u)) => {
                if *u <= 9223372036854775807u64 {
                    Some(*u as i64)
                } else {
                    None
                }
            },
            Json::Number(Number::NegInt(i)) => Some(*i),
            _ => None,
        }
    }
}

/// A JSON value as mathematics sees it: text as character sequences, so two
/// values that read the same are the same.
pub enum JsonView {
    Null,
    Bool(bool),
    Number(Number),
    Str(Seq<char>),
    Array(Seq<JsonView>),
    Object(Seq<(Seq<char>, JsonView)>),
}

/// What a `Json` value reads as.
pub open spec fn json_view(j: Json) -> JsonView
    decreases j,
{
    match j {
        Json::Null => JsonView::Null,
        Json::Bool(b) => JsonView::Bool(b),
        Json::Number(n) => JsonView::Number(n),
        Json::Str(s) => JsonView::Str(s@),
        Json::Array(items) => JsonView::Array(
            Seq::new(items@.len(), |i: int| if 0 <= i < items@.len() { json_view(items@[i]) } else { JsonView::Null }),
        ),
        Json::Object(entries) => JsonView::Object(
            Seq::new(
                entries@.len(),
                |i: int| if 0 <= i < entries@.len() { (entries@[i].0@, json_view(entries@[i].1)) } else { (Seq::empty(), JsonView::Null) },
            ),
        ),
    }
}

/// How many entries `v` holds directly; a measure for the definitions below.
pub open spec fn width(v: JsonView) -> nat {
    match v {
        JsonView::Array(items) => items.len(),
        JsonView::Object(es) => es.len(),
        _ => 0,
    }
}

/// Whether a value holds a floating-point number anywhere inside it.
pub open spec fn holds_float(v: JsonView) -> bool
    decreases v, width(v) + 1,
{
    match v {
        JsonView::Number(n) => n is Float,
        JsonView::Array(_) => float_among(v, width(v)),
        JsonView::Object(_) => float_among(v, width(v)),
        _ => false,
    }
}

/// Whether one of the first `n` entries of `v` holds a float.
pub open spec fn float_among(v: JsonView, n: nat) -> bool
    decreases v, n,
{
    if n == 0 || n > width(v) {
        false
    } else {
        float_among(v, (n - 1) as nat) || match v {
            JsonView::Array(items) => holds_float(items[n - 1]),
            JsonView::Object(es) => holds_float(es[n - 1].1),
            _ => false,
        }
    }
}

/// `holds_float`, computed.
pub fn json_holds_float(j: &Json) -> (r: bool)
    ensures
        r == holds_float(json_view(*j)),
    decreases j,
{
    match j {
        Json::Number(n) => match n {
            Number::Float(_) => true,
            _ => false,
        },
        Json::Array(items) => {
            let ghost v = json_view(*j);
            let mut found = false;
            let mut i: usize = 0;
            while i < items.len()
                invariant
                    i <= items@.len(),
                    v == json_view(*j),
                    *j == Json::Array(*items),
                    width(v) == items@.len(),
                    found == float_among(v, i as nat),
                decreases items@.len() - i,
            {
                let here = json_holds_float(&items[i]);
                assert(v->Array_0[i as int] == json_view(items@[i as int]));
                found = found || here;
                i = i + 1;
            }
            found
        },
        Json::Object(es) => {
            let ghost v = json_view(*j);
            let mut found = false;
            let mut i: usize = 0;
            while i < es.len()
                invariant
                    i <= es@.len(),
                    v == json_view(*j),
                    *j == Json::Object(*es),
                    width(v) == es@.len(),
                    found == float_among(v, i as nat),
                decreases es@.len() - i,
            {
                let here = json_holds_float(&es[i].1);
                assert(v->Object_0[i as int].1 == json_view(es@[i as int].1));
                found = found || here;
                i = i + 1;
            }
            found
        },
        _ => false,
    }
}

} // verus!
