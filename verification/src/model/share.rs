//! Shared folders: `SYNO.Core.Share`.
//!
//! DSM reports share sizes as a float in **mebibytes** under
//! `share_quota_used`. That unit is not documented and is worth the note: on a
//! DS-series the five shares sum to 9,994 GiB against a volume reporting
//! 10,001 GiB used, which is only consistent with MiB. Reading it as bytes
//! understates a 12 TB share by a factor of a million.
//!
//! The conversion to bytes is `(mib * 2^20) as u64`, carried out here on the
//! number exactly as the parser held it: an integer, or the bit pattern of an
//! `f64`. Multiplying a binary float by 2^20 is exact, and `as u64` takes the
//! floor and saturates, so the whole conversion is integer arithmetic on the
//! float's mantissa and exponent.

use vstd::prelude::*;

use super::{items, items_at, text, text_or_empty};
use crate::dsm::{field_bool, opt_read_bool};
use crate::json::{deref_opt, Json, Number};

verus! {

#[derive(Debug, Clone, PartialEq, Eq)]
pub struct Share {
    pub name: String,
    pub description: String,
    /// The volume it sits on, `/volume1`.
    pub volume_path: String,
    pub hidden: bool,
    pub is_usb: bool,
    /// Space used, in bytes.
    pub used_bytes: u64,
    /// The quota in bytes, or `None` when unlimited — DSM writes 0 for that,
    /// and a 0-byte quota would otherwise render as a full bar.
    pub quota_bytes: Option<u64>,
}

impl Default for Share {
    fn default() -> (r: Share)
        ensures
            r.name@.len() == 0 && r.description@.len() == 0 && r.volume_path@.len() == 0,
            !r.hidden && !r.is_usb && r.used_bytes == 0 && r.quota_bytes is None,
    {
        Share {
            name: String::new(),
            description: String::new(),
            volume_path: String::new(),
            hidden: false,
            is_usb: false,
            used_bytes: 0,
            quota_bytes: None,
        }
    }
}

/// 2 to the power `k`.
pub open spec fn two_to(k: nat) -> nat
    decreases k,
{
    if k == 0 {
        1
    } else {
        2 * two_to((k - 1) as nat)
    }
}

/// The biased exponent field of an `f64` bit pattern.
pub open spec fn exponent_field(bits: u64) -> nat {
    ((bits / 0x10_0000_0000_0000) % 2048) as nat
}

/// The fraction field of an `f64` bit pattern.
pub open spec fn fraction_field(bits: u64) -> nat {
    (bits % 0x10_0000_0000_0000) as nat
}

/// Whether the sign bit is set.
pub open spec fn sign_set(bits: u64) -> bool {
    bits >= 0x8000_0000_0000_0000
}

/// A natural number, or `u64::MAX` when it does not fit: what `as u64` does
/// to a value too large for it.
pub open spec fn capped(n: nat) -> u64 {
    if n > u64::MAX {
        u64::MAX
    } else {
        n as u64
    }
}

/// floor(mant × 2^s).
pub open spec fn scaled(mant: nat, s: int) -> nat {
    if s >= 0 {
        mant * two_to(s as nat)
    } else {
        mant / two_to((-s) as nat)
    }
}

/// floor(x × 2^20), capped, for the finite `f64` with these bits and its sign
/// bit clear: mantissa × 2^(exponent + 20).
pub open spec fn float_mib_bytes(bits: u64) -> u64 {
    let e = exponent_field(bits);
    let f = fraction_field(bits);
    if e == 0 {
        capped(scaled(f, -1074 + 20))
    } else {
        capped(scaled(f + 0x10_0000_0000_0000, e - 1075 + 20))
    }
}

/// An integer count of mebibytes in bytes, capped. Below 2^44 the product
/// fits; from there on it is at least 2^64.
pub open spec fn int_mib_bytes(n: nat) -> u64 {
    if n < 0x1000_0000_0000 {
        (n * 0x10_0000) as u64
    } else {
        u64::MAX
    }
}

/// A size in mebibytes, in bytes: zero unless it is a finite number that is
/// not below zero.
pub open spec fn used_bytes_of(v: Option<Json>) -> u64 {
    match v {
        Some(Json::Number(n)) => match n {
            Number::PosInt(u) => int_mib_bytes(u as nat),
            Number::NegInt(i) => if i < 0 { 0 } else { int_mib_bytes(i as nat) },
            Number::Float(b) => if sign_set(b) || exponent_field(b) == 2047 {
                0
            } else {
                float_mib_bytes(b)
            },
        },
        _ => 0,
    }
}

/// A quota in mebibytes, in bytes: only a number above zero is a quota (an
/// infinite one saturates).
pub open spec fn quota_bytes_of(v: Option<Json>) -> Option<u64> {
    match v {
        Some(Json::Number(n)) => match n {
            Number::PosInt(u) => if u > 0 { Some(int_mib_bytes(u as nat)) } else { None },
            Number::NegInt(i) => if i > 0 { Some(int_mib_bytes(i as nat)) } else { None },
            Number::Float(b) => if sign_set(b) || b == 0 {
                None
            } else if exponent_field(b) == 2047 {
                if fraction_field(b) == 0 { Some(u64::MAX) } else { None }
            } else {
                Some(float_mib_bytes(b))
            },
        },
        _ => None,
    }
}

pub open spec fn flag(v: Json, key: Seq<char>) -> bool {
    match opt_read_bool(v.field(key)) {
        Some(b) => b,
        None => false,
    }
}

/// How one element of `shares` reads.
pub open spec fn share_reads(r: Share, v: Json) -> bool {
    &&& r.name@ == text_or_empty(v, "name"@)
    &&& r.description@ == text_or_empty(v, "desc"@)
    &&& r.volume_path@ == text_or_empty(v, "vol_path"@)
    &&& r.hidden == flag(v, "hidden"@)
    &&& r.is_usb == flag(v, "is_usb_share"@)
    &&& r.used_bytes == used_bytes_of(v.field("share_quota_used"@))
    &&& r.quota_bytes == quota_bytes_of(v.field("quota_value"@))
}

proof fn lemma_two_to_positive(k: nat)
    ensures
        two_to(k) >= 1,
    decreases k,
{
    if k > 0 {
        lemma_two_to_positive((k - 1) as nat);
    }
}

proof fn lemma_scaled_step(mant: nat, k: nat)
    ensures
        mant * two_to(k + 1) == 2 * (mant * two_to(k)),
{
    assert(two_to(k + 1) == 2 * two_to(k));
    assert(mant * (2 * two_to(k)) == 2 * (mant * two_to(k))) by (nonlinear_arith);
}

proof fn lemma_scaled_grows(mant: nat, k: nat, s: nat)
    requires
        k <= s,
    ensures
        mant * two_to(k) <= mant * two_to(s),
    decreases s - k,
{
    if k < s {
        lemma_scaled_grows(mant, k, (s - 1) as nat);
        lemma_scaled_step(mant, (s - 1) as nat);
    }
}

proof fn lemma_halve_step(mant: nat, k: nat)
    ensures
        (mant / two_to(k)) / 2 == mant / two_to(k + 1),
{
    lemma_two_to_positive(k);
    vstd::arithmetic::div_mod::lemma_div_denominator(mant as int, two_to(k) as int, 2);
    assert(two_to(k) * 2 == two_to(k + 1));
}

/// floor(mant × 2^s), capped at `u64::MAX`.
fn scale_capped(mant: u64, s: i64) -> (r: u64)
    requires
        -2000 <= s <= 2000,
    ensures
        r == capped(scaled(mant as nat, s as int)),
{
    if s >= 0 {
        let mut x: u128 = mant as u128;
        let mut k: i64 = 0;
        assert(two_to(0) == 1);
        assert(mant * 1 == mant);
        while k < s && x <= u64::MAX as u128
            invariant
                0 <= k <= s,
                x == mant * two_to(k as nat),
            decreases s - k,
        {
            proof {
                lemma_scaled_step(mant as nat, k as nat);
            }
            x = x * 2;
            k = k + 1;
        }
        proof {
            lemma_scaled_grows(mant as nat, k as nat, s as nat);
        }
        if x > u64::MAX as u128 {
            u64::MAX
        } else {
            x as u64
        }
    } else {
        let mut x: u64 = mant;
        let mut k: i64 = 0;
        assert(two_to(0) == 1);
        assert(mant as nat / 1 == mant);
        while k < -s
            invariant
                -2000 <= s < 0,
                0 <= k <= -s,
                x == mant as nat / two_to(k as nat),
            decreases -s - k,
        {
            proof {
                lemma_halve_step(mant as nat, k as nat);
            }
            x = x / 2;
            k = k + 1;
        }
        x
    }
}

/// The fields of an `f64` bit pattern.
fn float_fields(bits: u64) -> (r: (bool, u64, u64))
    ensures
        r.0 == sign_set(bits),
        r.1 == exponent_field(bits),
        r.2 == fraction_field(bits),
        r.1 < 2048,
        r.2 < 0x10_0000_0000_0000,
{
    (bits >= 0x8000_0000_0000_0000, (bits / 0x10_0000_0000_0000) % 2048, bits % 0x10_0000_0000_0000)
}

fn float_mib(bits: u64) -> (r: u64)
    ensures
        r == float_mib_bytes(bits),
{
    let (_, e, f) = float_fields(bits);
    if e == 0 {
        scale_capped(f, -1054)
    } else {
        scale_capped(f + 0x10_0000_0000_0000, e as i64 - 1055)
    }
}

fn int_mib(n: u64) -> (r: u64)
    ensures
        r == int_mib_bytes(n as nat),
{
    if n < 0x1000_0000_0000 {
        n * 0x10_0000
    } else {
        u64::MAX
    }
}

/// Space used, from `share_quota_used`.
fn used_bytes_from(v: Option<&Json>) -> (r: u64)
    ensures
        r == used_bytes_of(deref_opt(v)),
{
    match v {
        Some(Json::Number(n)) => match *n {
            Number::PosInt(u) => int_mib(u),
            Number::NegInt(i) => if i < 0 {
                0
            } else {
                int_mib(i as u64)
            },
            Number::Float(b) => {
                let (negative, e, _) = float_fields(b);
                if negative || e == 2047 {
                    0
                } else {
                    float_mib(b)
                }
            },
        },
        _ => 0,
    }
}

/// The quota, from `quota_value`.
fn quota_bytes_from(v: Option<&Json>) -> (r: Option<u64>)
    ensures
        r == quota_bytes_of(deref_opt(v)),
{
    match v {
        Some(Json::Number(n)) => match *n {
            Number::PosInt(u) => if u > 0 {
                Some(int_mib(u))
            } else {
                None
            },
            Number::NegInt(i) => if i > 0 {
                Some(int_mib(i as u64))
            } else {
                None
            },
            Number::Float(b) => {
                let (negative, e, f) = float_fields(b);
                if negative || b == 0 {
                    None
                } else if e == 2047 {
                    if f == 0 {
                        Some(u64::MAX)
                    } else {
                        None
                    }
                } else {
                    Some(float_mib(b))
                }
            },
        },
        _ => None,
    }
}

fn flag_at(v: &Json, key: &str) -> (r: bool)
    ensures
        r == flag(*v, key@),
{
    match field_bool(v, key) {
        Some(b) => b,
        None => false,
    }
}

fn share_from(v: &Json) -> (r: Share)
    ensures
        share_reads(r, *v),
{
    Share {
        name: text(v, "name"),
        description: text(v, "desc"),
        volume_path: text(v, "vol_path"),
        hidden: flag_at(v, "hidden"),
        is_usb: flag_at(v, "is_usb_share"),
        used_bytes: used_bytes_from(v.get("share_quota_used")),
        quota_bytes: quota_bytes_from(v.get("quota_value")),
    }
}

impl Share {
    /// Read `SYNO.Core.Share`/`list`.
    pub fn list_from_json(data: &Json) -> (r: Vec<Share>)
        ensures
            r@.len() == items_at(*data, "shares"@).len(),
            forall|i: int| 0 <= i < r@.len() ==> share_reads(#[trigger] r@[i], items_at(*data, "shares"@)[i]),
    {
        let list = items(data, "shares");
        let mut out: Vec<Share> = Vec::new();
        let mut i: usize = 0;
        while i < list.len()
            invariant
                i <= list@.len(),
                out@.len() == i,
                forall|j: int| 0 <= j < i ==> share_reads(#[trigger] out@[j], list@[j]),
            decreases list.len() - i,
        {
            out.push(share_from(&list[i]));
            i = i + 1;
        }
        out
    }
}

} // verus!
