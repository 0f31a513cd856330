//! Character-level helpers that the readers and formatters share.

use vstd::prelude::*;

verus! {

/// The ASCII digit for a value below ten.
pub open spec fn digit_char(d: nat) -> char {
    ((d + 48) as u8) as char
}

/// A natural number in decimal, most significant digit first, no padding.
pub open spec fn decimal(n: nat) -> Seq<char>
    decreases n,
{
    if n < 10 {
        seq![digit_char(n)]
    } else {
        decimal(n / 10).push(digit_char(n % 10))
    }
}

/// A signed integer in decimal, with a leading `-` when negative.
pub open spec fn signed_decimal(n: int) -> Seq<char> {
    if n < 0 {
        seq!['-'] + decimal((-n) as nat)
    } else {
        decimal(n as nat)
    }
}

pub open spec fn is_ascii_upper(c: char) -> bool {
    'A' <= c && c <= 'Z'
}

/// ASCII lower-casing of one character; everything else is left alone.
pub open spec fn ascii_lower_char(c: char) -> char {
    if is_ascii_upper(c) {
        ((c as u8) + 32) as u8 as char
    } else {
        c
    }
}

pub open spec fn ascii_lower(s: Seq<char>) -> Seq<char> {
    s.map_values(|c: char| ascii_lower_char(c))
}

/// The characters of a string, in order.
pub fn chars_of(s: &str) -> (out: Vec<char>)
    ensures
        out@ == s@,
{
    let n = s.unicode_len();
    let mut out: Vec<char> = Vec::new();
    let mut i: usize = 0;
    while i < n
        invariant
            i <= n,
            n == s@.len(),
            out@ == s@.subrange(0, i as int),
        decreases n - i,
    {
        out.push(s.get_char(i));
        i = i + 1;
    }
    assert(out@ =~= s@);
    out
}

/// Collect characters into a string (std's `FromIterator<char>` for `String`).
#[verifier::external_body]
pub(crate) fn string_from_chars(v: &[char]) -> (s: String)
    ensures
        s@ == v@,
{
    String::from_iter(v.iter())
}

/// Whether two strings hold the same characters.
pub fn same_text(a: &str, b: &str) -> (r: bool)
    ensures
        r == (a@ == b@),
{
    let x = String::from_str(a);
    let y = String::from_str(b);
    x == y
}

fn digits_of(n: u64) -> (out: Vec<char>)
    ensures
        out@ == decimal(n as nat),
    decreases n,
{
    let d: u8 = (n % 10) as u8;
    let c: char = (d + 48u8) as char;
    if n < 10 {
        let mut v: Vec<char> = Vec::new();
        v.push(c);
        v
    } else {
        let mut v = digits_of(n / 10);
        v.push(c);
        v
    }
}

/// `n` in decimal.
pub fn u64_text(n: u64) -> (s: String)
    ensures
        s@ == decimal(n as nat),
{
    let v = digits_of(n);
    string_from_chars(v.as_slice())
}

/// `n` in decimal, signed.
pub fn i64_text(n: i64) -> (s: String)
    ensures
        s@ == signed_decimal(n as int),
{
    if n < 0 {
        let magnitude: u64 = (0i128 - n as i128) as u64;
        let mut s = String::from_str("-");
        proof {
            reveal_strlit("-");
        }
        let digits = u64_text(magnitude);
        s.append(digits.as_str());
        s
    } else {
        u64_text(n as u64)
    }
}

/// ASCII lower-casing, as `str::to_ascii_lowercase` does it.
pub fn ascii_lowercase(s: &str) -> (out: Vec<char>)
    ensures
        out@ == ascii_lower(s@),
{
    let cs = chars_of(s);
    let mut out: Vec<char> = Vec::new();
    let mut i: usize = 0;
    while i < cs.len()
        invariant
            i <= cs.len(),
            cs@ == s@,
            out@ == ascii_lower(s@).subrange(0, i as int),
        decreases cs.len() - i,
    {
        let c = cs[i];
        let l: char = if 'A' <= c && c <= 'Z' {
            ((c as u8) + 32u8) as char
        } else {
            c
        };
        out.push(l);
        i = i + 1;
    }
    assert(out@ =~= ascii_lower(s@));
    out
}


// ---------------------------------------------------------------------------
// Integer parsing, as `FromStr` for the integer types does it: an optional
// sign (`+` always, `-` only for signed types), then one or more ASCII
// digits, and a value that fits.

pub open spec fn is_digit(c: char) -> bool {
    '0' <= c && c <= '9'
}

pub open spec fn all_digits(s: Seq<char>) -> bool {
    forall|i: int| 0 <= i < s.len() ==> is_digit(#[trigger] s[i])
}

pub open spec fn digit_value(c: char) -> nat {
    ((c as int) - 48) as nat
}

/// The value of a run of decimal digits.
pub open spec fn digits_value(s: Seq<char>) -> nat
    decreases s.len(),
{
    if s.len() == 0 {
        0
    } else {
        digits_value(s.drop_last()) * 10 + digit_value(s.last())
    }
}

/// One or more digits whose value is at most `limit`.
pub open spec fn digits_upto(d: Seq<char>, limit: nat) -> Option<nat> {
    if d.len() > 0 && all_digits(d) && digits_value(d) <= limit {
        Some(digits_value(d))
    } else {
        None
    }
}

/// An unsigned integer at most `limit`, with an optional leading `+`.
pub open spec fn parse_unsigned(s: Seq<char>, limit: nat) -> Option<nat> {
    if s.len() > 0 && s[0] == '+' {
        digits_upto(s.drop_first(), limit)
    } else {
        digits_upto(s, limit)
    }
}

/// A signed integer in `-(max + 1) ..= max`, with an optional sign.
pub open spec fn parse_signed(s: Seq<char>, max: nat) -> Option<int> {
    if s.len() > 0 && s[0] == '-' {
        match digits_upto(s.drop_first(), max + 1) {
            Some(v) => Some(-(v as int)),
            None => None,
        }
    } else {
        match parse_unsigned(s, max) {
            Some(v) => Some(v as int),
            None => None,
        }
    }
}

pub proof fn lemma_digits_prefix(s: Seq<char>, k: int)
    requires
        all_digits(s),
        0 <= k <= s.len(),
    ensures
        digits_value(s.subrange(0, k)) <= digits_value(s),
    decreases s.len() - k,
{
    if k < s.len() {
        lemma_digits_prefix(s.drop_last(), k);
        assert(s.drop_last().subrange(0, k) =~= s.subrange(0, k));
        assert(all_digits(s.drop_last()));
    } else {
        assert(s.subrange(0, k) =~= s);
    }
}

/// The digits of `cs[a..b]`, when they are one or more digits worth at most
/// `limit`.
fn digits_in(cs: &Vec<char>, a: usize, b: usize, limit: u128) -> (r: Option<u128>)
    requires
        a <= b <= cs.len(),
        limit <= u64::MAX as u128 + 1,
    ensures
        match digits_upto(cs@.subrange(a as int, b as int), limit as nat) {
            Some(v) => r == Some(v as u128),
            None => r is None,
        },
{
    let ghost d = cs@.subrange(a as int, b as int);
    if a == b {
        return None;
    }
    let mut acc: u128 = 0;
    let mut i: usize = a;
    while i < b
        invariant
            a <= i <= b <= cs.len(),
            d == cs@.subrange(a as int, b as int),
            limit <= u64::MAX as u128 + 1,
            acc as nat == digits_value(d.subrange(0, i - a)),
            acc <= limit,
            all_digits(d.subrange(0, i - a)),
        decreases b - i,
    {
        let c = cs[i];
        assert(d[i - a] == c);
        if !('0' <= c && c <= '9') {
            assert(!all_digits(d));
            return None;
        }
        let dv: u128 = ((c as u8) - 48u8) as u128;
        assert(d.subrange(0, i + 1 - a).drop_last() =~= d.subrange(0, i - a));
        assert(all_digits(d.subrange(0, i + 1 - a)));
        let next: u128 = acc * 10 + dv;
        if next > limit {
            proof {
                if all_digits(d) {
                    lemma_digits_prefix(d, i + 1 - a);
                }
            }
            return None;
        }
        acc = next;
        i = i + 1;
    }
    assert(d.subrange(0, b - a) =~= d);
    Some(acc)
}

/// `u64::from_str` on `cs[a..b]`.
pub fn parse_u64_in(cs: &Vec<char>, a: usize, b: usize) -> (r: Option<u64>)
    requires
        a <= b <= cs.len(),
    ensures
        match parse_unsigned(cs@.subrange(a as int, b as int), u64::MAX as nat) {
            Some(v) => r == Some(v as u64) && v <= u64::MAX,
            None => r is None,
        },
{
    let ghost s = cs@.subrange(a as int, b as int);
    let start: usize = if a < b && cs[a] == '+' {
        assert(s.drop_first() =~= cs@.subrange(a + 1, b as int));
        a + 1
    } else {
        a
    };
    match digits_in(cs, start, b, 18446744073709551615u128) {
        Some(v) => Some(v as u64),
        None => None,
    }
}

/// `i64::from_str` on `cs[a..b]`.
pub fn parse_i64_in(cs: &Vec<char>, a: usize, b: usize) -> (r: Option<i64>)
    requires
        a <= b <= cs.len(),
    ensures
        match parse_signed(cs@.subrange(a as int, b as int), i64::MAX as nat) {
            Some(v) => r == Some(v as i64) && i64::MIN <= v <= i64::MAX,
            None => r is None,
        },
{
    let ghost s = cs@.subrange(a as int, b as int);
    if a < b && cs[a] == '-' {
        assert(s.drop_first() =~= cs@.subrange(a + 1, b as int));
        match digits_in(cs, a + 1, b, 9223372036854775808u128) {
            Some(v) => Some((0i128 - v as i128) as i64),
            None => None,
        }
    } else {
        let start: usize = if a < b && cs[a] == '+' {
            assert(s.drop_first() =~= cs@.subrange(a + 1, b as int));
            a + 1
        } else {
            a
        };
        match digits_in(cs, start, b, 9223372036854775807u128) {
            Some(v) => Some(v as i64),
            None => None,
        }
    }
}

/// `u32::from_str` on `cs[a..b]`.
pub fn parse_u32_in(cs: &Vec<char>, a: usize, b: usize) -> (r: Option<u32>)
    requires
        a <= b <= cs.len(),
    ensures
        match parse_unsigned(cs@.subrange(a as int, b as int), u32::MAX as nat) {
            Some(v) => r == Some(v as u32) && v <= u32::MAX,
            None => r is None,
        },
{
    let ghost s = cs@.subrange(a as int, b as int);
    let start: usize = if a < b && cs[a] == '+' {
        assert(s.drop_first() =~= cs@.subrange(a + 1, b as int));
        a + 1
    } else {
        a
    };
    match digits_in(cs, start, b, 4294967295u128) {
        Some(v) => Some(v as u32),
        None => None,
    }
}

/// `u64::from_str`.
pub fn parse_u64(s: &str) -> (r: Option<u64>)
    ensures
        match parse_unsigned(s@, u64::MAX as nat) {
            Some(v) => r == Some(v as u64),
            None => r is None,
        },
{
    let cs = chars_of(s);
    assert(cs@.subrange(0, cs@.len() as int) =~= s@);
    parse_u64_in(&cs, 0, cs.len())
}

/// `i64::from_str`.
pub fn parse_i64(s: &str) -> (r: Option<i64>)
    ensures
        match parse_signed(s@, i64::MAX as nat) {
            Some(v) => r == Some(v as i64),
            None => r is None,
        },
{
    let cs = chars_of(s);
    assert(cs@.subrange(0, cs@.len() as int) =~= s@);
    parse_i64_in(&cs, 0, cs.len())
}

// ---------------------------------------------------------------------------
// Searching.

/// The position of the first `c` in `s`.
pub open spec fn first_index(s: Seq<char>, c: char) -> Option<int>
    decreases s.len(),
{
    if s.len() == 0 {
        None
    } else if s[0] == c {
        Some(0)
    } else {
        match first_index(s.drop_first(), c) {
            Some(i) => Some(i + 1),
            None => None,
        }
    }
}

pub proof fn lemma_first_index(s: Seq<char>, c: char, i: int)
    requires
        0 <= i <= s.len(),
        forall|j: int| 0 <= j < i ==> s[j] != c,
    ensures
        i < s.len() && s[i] == c ==> first_index(s, c) == Some(i),
        i == s.len() ==> first_index(s, c) is None,
    decreases i,
{
    if i > 0 {
        lemma_first_index(s.drop_first(), c, i - 1);
    }
}

/// Where the first `c` is in `cs[a..b]`, counted from `a`.
pub fn find_in(cs: &Vec<char>, a: usize, b: usize, c: char) -> (r: Option<usize>)
    requires
        a <= b <= cs.len(),
    ensures
        match first_index(cs@.subrange(a as int, b as int), c) {
            Some(i) => r == Some(i as usize) && 0 <= i < b - a && cs@[a + i] == c,
            None => r is None,
        },
{
    let ghost s = cs@.subrange(a as int, b as int);
    let mut i: usize = a;
    while i < b
        invariant
            a <= i <= b <= cs.len(),
            s == cs@.subrange(a as int, b as int),
            forall|j: int| 0 <= j < i - a ==> s[j] != c,
        decreases b - i,
    {
        if cs[i] == c {
            proof {
                lemma_first_index(s, c, i - a);
            }
            return Some(i - a);
        }
        i = i + 1;
    }
    proof {
        lemma_first_index(s, c, s.len() as int);
    }
    None
}


/// The position of the last character of `s` that is `c1` or `c2`.
pub open spec fn last_index2(s: Seq<char>, c1: char, c2: char) -> Option<int>
    decreases s.len(),
{
    if s.len() == 0 {
        None
    } else if s.last() == c1 || s.last() == c2 {
        Some(s.len() - 1)
    } else {
        last_index2(s.drop_last(), c1, c2)
    }
}

/// `s` cut at its first `c`, without the `c`.
pub open spec fn split_first(s: Seq<char>, c: char) -> Option<(Seq<char>, Seq<char>)> {
    match first_index(s, c) {
        Some(i) => Some((s.subrange(0, i), s.subrange(i + 1, s.len() as int))),
        None => None,
    }
}

/// The part of `s` before its first `c`, or all of `s` when there is none:
/// the first item `split(c)` yields.
pub open spec fn before_first(s: Seq<char>, c: char) -> Seq<char> {
    match first_index(s, c) {
        Some(i) => s.subrange(0, i),
        None => s,
    }
}

pub proof fn lemma_last_index2(s: Seq<char>, c1: char, c2: char, k: int)
    requires
        0 <= k <= s.len(),
        forall|j: int| k <= j < s.len() ==> s[j] != c1 && s[j] != c2,
    ensures
        last_index2(s, c1, c2) == last_index2(s.subrange(0, k), c1, c2),
    decreases s.len() - k,
{
    if k < s.len() {
        assert(s.drop_last().subrange(0, k) =~= s.subrange(0, k));
        lemma_last_index2(s.drop_last(), c1, c2, k);
    } else {
        assert(s.subrange(0, k) =~= s);
    }
}

/// Where the last `c1` or `c2` is in `cs[a..b]`, counted from `a`.
pub fn rfind_in(cs: &Vec<char>, a: usize, b: usize, c1: char, c2: char) -> (r: Option<usize>)
    requires
        a <= b <= cs.len(),
    ensures
        match last_index2(cs@.subrange(a as int, b as int), c1, c2) {
            Some(i) => r == Some(i as usize) && 0 <= i < b - a,
            None => r is None,
        },
{
    let ghost s = cs@.subrange(a as int, b as int);
    let mut i: usize = b;
    while i > a
        invariant
            a <= i <= b <= cs.len(),
            s == cs@.subrange(a as int, b as int),
            forall|j: int| i - a <= j < s.len() ==> s[j] != c1 && s[j] != c2,
        decreases i - a,
    {
        let c = cs[i - 1];
        if c == c1 || c == c2 {
            proof {
                lemma_last_index2(s, c1, c2, i - a);
                assert(s.subrange(0, i - a).last() == c);
            }
            return Some(i - 1 - a);
        }
        i = i - 1;
    }
    proof {
        lemma_last_index2(s, c1, c2, 0);
    }
    None
}


/// Whether `w` occurs in `s` at `i`.
pub open spec fn occurs_at(s: Seq<char>, w: Seq<char>, i: int) -> bool {
    0 <= i && i + w.len() <= s.len() && s.subrange(i, i + w.len()) == w
}

/// Whether `w` occurs anywhere in `s` (`str::contains`).
pub open spec fn contains(s: Seq<char>, w: Seq<char>) -> bool {
    exists|i: int| occurs_at(s, w, i)
}

/// Whether `v` holds exactly the characters of `s`.
pub fn chars_are(v: &Vec<char>, s: &str) -> (r: bool)
    ensures
        r == (v@ == s@),
{
    let w = chars_of(s);
    if v.len() != w.len() {
        return false;
    }
    let mut i: usize = 0;
    while i < v.len()
        invariant
            i <= v.len(),
            v.len() == w.len(),
            w@ == s@,
            forall|k: int| 0 <= k < i ==> v@[k] == w@[k],
        decreases v.len() - i,
    {
        if v[i] != w[i] {
            return false;
        }
        i = i + 1;
    }
    assert(v@ =~= w@);
    true
}

fn occurs_at_exec(v: &Vec<char>, w: &Vec<char>, i: usize) -> (r: bool)
    requires
        i + w.len() <= v.len(),
    ensures
        r == occurs_at(v@, w@, i as int),
{
    let mut k: usize = 0;
    while k < w.len()
        invariant
            k <= w.len(),
            i + w.len() <= v.len(),
            forall|j: int| 0 <= j < k ==> v@[i + j] == w@[j],
        decreases w.len() - k,
    {
        if v[i + k] != w[k] {
            assert(v@.subrange(i as int, i + w.len())[k as int] != w@[k as int]);
            return false;
        }
        k = k + 1;
    }
    assert(v@.subrange(i as int, i + w.len()) =~= w@);
    true
}

/// Whether `s` occurs in `v`.
pub fn chars_contain(v: &Vec<char>, s: &str) -> (r: bool)
    ensures
        r == contains(v@, s@),
{
    let w = chars_of(s);
    if w.len() > v.len() {
        assert forall|i: int| !occurs_at(v@, w@, i) by {}
        return false;
    }
    if w.len() == 0 {
        assert(v@.subrange(0, 0) =~= w@);
        assert(occurs_at(v@, w@, 0));
        return true;
    }
    let last = v.len() - w.len();
    let mut i: usize = 0;
    while i <= last
        invariant
            w@ == s@,
            w.len() > 0,
            last < v.len(),
            last == v.len() - w.len(),
            i <= last + 1,
            forall|j: int| 0 <= j < i ==> !occurs_at(v@, w@, j),
        decreases last + 1 - i,
    {
        if occurs_at_exec(v, &w, i) {
            return true;
        }
        i = i + 1;
    }
    assert forall|j: int| !occurs_at(v@, w@, j) by {
        if 0 <= j && j + w@.len() <= v@.len() {
            assert(j < i);
        }
    }
    false
}

// ---------------------------------------------------------------------------
// Unicode case mapping. The tables behind it are std's and are not restated
// here: each mapping is a name for what std returns, a function of its
// argument alone.

/// What `str::to_lowercase` makes of `s`.
pub uninterp spec fn unicode_lowercase(s: Seq<char>) -> Seq<char>;

/// What `char::to_uppercase` yields for `c`, collected.
pub uninterp spec fn char_uppercase(c: char) -> Seq<char>;

/// What `char::to_lowercase` yields for `c`, collected.
pub uninterp spec fn char_lowercase(c: char) -> Seq<char>;

/// std's `str::to_lowercase`. Claimed: the result is `unicode_lowercase` of
/// the argument, whatever that mapping is.
#[verifier::external_body]
pub(crate) fn to_lowercase(s: &str) -> (r: String)
    ensures
        r@ == unicode_lowercase(s@),
{
    s.to_lowercase()
}

/// std's `char::to_uppercase`, collected into a string. Claimed: the result
/// is `char_uppercase(c)`.
#[verifier::external_body]
pub(crate) fn char_to_uppercase(c: char) -> (r: String)
    ensures
        r@ == char_uppercase(c),
{
    c.to_uppercase().collect::<String>()
}

/// std's `char::to_lowercase`, collected into a string. Claimed: the result
/// is `char_lowercase(c)`.
#[verifier::external_body]
pub(crate) fn char_to_lowercase(c: char) -> (r: String)
    ensures
        r@ == char_lowercase(c),
{
    c.to_lowercase().collect::<String>()
}

} // verus!
