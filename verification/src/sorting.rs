//! Stable ordering by text, the way `sort_by` on a string key orders.

use vstd::prelude::*;

use crate::text::chars_of;

verus! {

/// Whether `a` sorts strictly before `b`: character by character, by code
/// point, a proper prefix first (the order of `String`'s `Ord`).
pub open spec fn text_less(a: Seq<char>, b: Seq<char>) -> bool
    decreases a.len(),
{
    if b.len() == 0 {
        false
    } else if a.len() == 0 {
        true
    } else if a[0] != b[0] {
        (a[0] as u32) < (b[0] as u32)
    } else {
        text_less(a.drop_first(), b.drop_first())
    }
}

/// `x` placed after every element whose key is not greater than its own.
pub open spec fn insert_by<T>(s: Seq<T>, x: T, key: spec_fn(T) -> Seq<char>) -> Seq<T>
    decreases s.len(),
{
    if s.len() == 0 {
        seq![x]
    } else if text_less(key(x), key(s.last())) {
        insert_by(s.drop_last(), x, key).push(s.last())
    } else {
        s.push(x)
    }
}

/// The stable sort of `s` by `key`: ordered by key, elements with equal keys
/// in the order they came.
pub open spec fn sort_by<T>(s: Seq<T>, key: spec_fn(T) -> Seq<char>) -> Seq<T>
    decreases s.len(),
{
    if s.len() == 0 {
        s
    } else {
        insert_by(sort_by(s.drop_last(), key), s.last(), key)
    }
}

pub open spec fn keys_sorted<T>(s: Seq<T>, key: spec_fn(T) -> Seq<char>) -> bool {
    forall|i: int, j: int| 0 <= i < j < s.len() ==> !text_less(key(s[j]), key(s[i]))
}

proof fn lemma_text_less_step(a: Seq<char>, b: Seq<char>, i: int)
    requires
        0 <= i <= a.len(),
        i <= b.len(),
        a.subrange(0, i) == b.subrange(0, i),
    ensures
        text_less(a, b) == text_less(a.skip(i), b.skip(i)),
    decreases i,
{
    if i > 0 {
        assert(a[0] == a.subrange(0, i)[0]);
        assert(b[0] == b.subrange(0, i)[0]);
        assert(a.drop_first().subrange(0, i - 1) =~= a.subrange(0, i).drop_first());
        assert(b.drop_first().subrange(0, i - 1) =~= b.subrange(0, i).drop_first());
        lemma_text_less_step(a.drop_first(), b.drop_first(), i - 1);
        assert(a.drop_first().skip(i - 1) =~= a.skip(i));
        assert(b.drop_first().skip(i - 1) =~= b.skip(i));
    } else {
        assert(a.skip(0) =~= a);
        assert(b.skip(0) =~= b);
    }
}

/// `text_less`, computed.
pub fn text_lt(a: &str, b: &str) -> (r: bool)
    ensures
        r == text_less(a@, b@),
{
    let x = chars_of(a);
    let y = chars_of(b);
    let mut i: usize = 0;
    while i < x.len() && i < y.len()
        invariant
            i <= x.len(),
            i <= y.len(),
            x@ == a@,
            y@ == b@,
            x@.subrange(0, i as int) == y@.subrange(0, i as int),
        decreases x.len() - i,
    {
        if x[i] != y[i] {
            proof {
                lemma_text_less_step(x@, y@, i as int);
                assert(x@.skip(i as int)[0] == x@[i as int]);
                assert(y@.skip(i as int)[0] == y@[i as int]);
            }
            return (x[i] as u32) < (y[i] as u32);
        }
        assert(x@.subrange(0, i + 1) =~= x@.subrange(0, i as int).push(x@[i as int]));
        assert(y@.subrange(0, i + 1) =~= y@.subrange(0, i as int).push(y@[i as int]));
        i = i + 1;
    }
    proof {
        lemma_text_less_step(x@, y@, i as int);
    }
    i < y.len()
}

proof fn lemma_insert_suffix<T>(s: Seq<T>, x: T, key: spec_fn(T) -> Seq<char>, j: int)
    requires
        0 <= j <= s.len(),
        forall|k: int| j <= k < s.len() ==> text_less(key(x), key(#[trigger] s[k])),
    ensures
        insert_by(s, x, key) == insert_by(s.subrange(0, j), x, key) + s.subrange(j, s.len() as int),
    decreases s.len() - j,
{
    if j < s.len() {
        lemma_insert_suffix(s.drop_last(), x, key, j);
        assert(s.drop_last().subrange(0, j) =~= s.subrange(0, j));
        assert(s.drop_last().subrange(j, s.drop_last().len() as int).push(s.last())
            =~= s.subrange(j, s.len() as int));
        assert(insert_by(s, x, key) == insert_by(s.drop_last(), x, key).push(s.last()));
        assert((insert_by(s.subrange(0, j), x, key) + s.drop_last().subrange(j, s.drop_last().len() as int)).push(s.last())
            =~= insert_by(s.subrange(0, j), x, key) + s.subrange(j, s.len() as int));
    } else {
        assert(s.subrange(0, j) =~= s);
        assert(s.subrange(j, s.len() as int) =~= Seq::<T>::empty());
        assert(insert_by(s, x, key) + Seq::<T>::empty() =~= insert_by(s, x, key));
    }
}

/// Order `items` by the text `keys` gives each of them, stably.
pub fn sort_by_text<T>(items: Vec<T>, keys: Vec<String>, Ghost(key): Ghost<spec_fn(T) -> Seq<char>>) -> (r: Vec<T>)
    requires
        items@.len() == keys@.len(),
        forall|i: int| 0 <= i < items@.len() ==> #[trigger] keys@[i]@ == key(items@[i]),
    ensures
        r@ == sort_by(items@, key),
{
    let ghost all = items@;
    let ghost all_keys = keys@;
    let mut items = items;
    let mut keys = keys;
    let mut out: Vec<T> = Vec::new();
    let mut out_keys: Vec<String> = Vec::new();
    let n = items.len();
    let mut i: usize = 0;
    while items.len() > 0
        invariant
            n == all.len(),
            i + items@.len() == all.len(),
            items@ == all.skip(i as int),
            keys@ == all_keys.skip(i as int),
            all.len() == all_keys.len(),
            forall|k: int| 0 <= k < all.len() ==> #[trigger] all_keys[k]@ == key(all[k]),
            out@ == sort_by(all.subrange(0, i as int), key),
            out@.len() == out_keys@.len(),
            forall|k: int| 0 <= k < out@.len() ==> #[trigger] out_keys@[k]@ == key(out@[k]),
        decreases items@.len(),
    {
        let x = items.remove(0);
        let xk = keys.remove(0);
        assert(x == all[i as int]);
        assert(xk == all_keys[i as int]);
        assert(items@ =~= all.skip(i + 1));
        assert(keys@ =~= all_keys.skip(i + 1));
        let mut j: usize = out.len();
        while j > 0 && text_lt(xk.as_str(), out_keys[j - 1].as_str())
            invariant
                j <= out@.len(),
                out@.len() == out_keys@.len(),
                xk@ == key(x),
                forall|k: int| 0 <= k < out@.len() ==> #[trigger] out_keys@[k]@ == key(out@[k]),
                forall|k: int| j <= k < out@.len() ==> text_less(key(x), key(#[trigger] out@[k])),
            decreases j,
        {
            j = j - 1;
        }
        let ghost before = out@;
        let ghost before_keys = out_keys@;
        proof {
            lemma_insert_suffix(before, x, key, j as int);
            if j > 0 {
                assert(!text_less(key(x), key(before[j - 1])));
                assert(before.subrange(0, j as int).drop_last() =~= before.subrange(0, j - 1));
            }
            assert(all.subrange(0, i + 1).drop_last() =~= all.subrange(0, i as int));
        }
        out.insert(j, x);
        out_keys.insert(j, xk);
        assert(out@ =~= before.subrange(0, j as int).push(x) + before.subrange(j as int, before.len() as int));
        assert forall|k: int| 0 <= k < out@.len() implies #[trigger] out_keys@[k]@ == key(out@[k]) by {
            if k < j {
                assert(out@[k] == before[k]);
                assert(out_keys@[k] == before_keys[k]);
            } else if k > j {
                assert(out@[k] == before[k - 1]);
                assert(out_keys@[k] == before_keys[k - 1]);
            }
        }
        i = i + 1;
    }
    assert(all.subrange(0, all.len() as int) =~= all);
    out
}

// ---------------------------------------------------------------------------
// The same, by a number: the order `sort_by_key` gives with an integer key.

/// `x` placed after every element whose key is not greater than its own.
pub open spec fn insert_by_number<T>(s: Seq<T>, x: T, key: spec_fn(T) -> u64) -> Seq<T>
    decreases s.len(),
{
    if s.len() == 0 {
        seq![x]
    } else if key(x) < key(s.last()) {
        insert_by_number(s.drop_last(), x, key).push(s.last())
    } else {
        s.push(x)
    }
}

/// The stable sort of `s` by a numeric `key`.
pub open spec fn sort_by_number<T>(s: Seq<T>, key: spec_fn(T) -> u64) -> Seq<T>
    decreases s.len(),
{
    if s.len() == 0 {
        s
    } else {
        insert_by_number(sort_by_number(s.drop_last(), key), s.last(), key)
    }
}

pub open spec fn numbers_sorted<T>(s: Seq<T>, key: spec_fn(T) -> u64) -> bool {
    forall|i: int, j: int| 0 <= i < j < s.len() ==> key(s[i]) <= key(s[j])
}

proof fn lemma_insert_number_suffix<T>(s: Seq<T>, x: T, key: spec_fn(T) -> u64, j: int)
    requires
        0 <= j <= s.len(),
        forall|k: int| j <= k < s.len() ==> key(x) < key(#[trigger] s[k]),
    ensures
        insert_by_number(s, x, key) == insert_by_number(s.subrange(0, j), x, key) + s.subrange(j, s.len() as int),
    decreases s.len() - j,
{
    if j < s.len() {
        lemma_insert_number_suffix(s.drop_last(), x, key, j);
        assert(s.drop_last().subrange(0, j) =~= s.subrange(0, j));
        assert(s.drop_last().subrange(j, s.drop_last().len() as int).push(s.last())
            =~= s.subrange(j, s.len() as int));
        assert(insert_by_number(s, x, key) == insert_by_number(s.drop_last(), x, key).push(s.last()));
        assert((insert_by_number(s.subrange(0, j), x, key) + s.drop_last().subrange(j, s.drop_last().len() as int)).push(s.last())
            =~= insert_by_number(s.subrange(0, j), x, key) + s.subrange(j, s.len() as int));
    } else {
        assert(s.subrange(0, j) =~= s);
        assert(s.subrange(j, s.len() as int) =~= Seq::<T>::empty());
        assert(insert_by_number(s, x, key) + Seq::<T>::empty() =~= insert_by_number(s, x, key));
    }
}

/// Order `items` by the numbers `keys` gives each of them, stably.
pub fn sort_by_number_key<T>(items: Vec<T>, keys: Vec<u64>, Ghost(key): Ghost<spec_fn(T) -> u64>) -> (r: Vec<T>)
    requires
        items@.len() == keys@.len(),
        forall|i: int| 0 <= i < items@.len() ==> #[trigger] keys@[i] == key(items@[i]),
    ensures
        r@ == sort_by_number(items@, key),
{
    let ghost all = items@;
    let ghost all_keys = keys@;
    let mut items = items;
    let mut keys = keys;
    let mut out: Vec<T> = Vec::new();
    let mut out_keys: Vec<u64> = Vec::new();
    let n = items.len();
    let mut i: usize = 0;
    while items.len() > 0
        invariant
            n == all.len(),
            i + items@.len() == all.len(),
            items@ == all.skip(i as int),
            keys@ == all_keys.skip(i as int),
            all.len() == all_keys.len(),
            forall|k: int| 0 <= k < all.len() ==> #[trigger] all_keys[k] == key(all[k]),
            out@ == sort_by_number(all.subrange(0, i as int), key),
            out@.len() == out_keys@.len(),
            forall|k: int| 0 <= k < out@.len() ==> #[trigger] out_keys@[k] == key(out@[k]),
        decreases items@.len(),
    {
        let x = items.remove(0);
        let xk = keys.remove(0);
        assert(x == all[i as int]);
        assert(xk == all_keys[i as int]);
        assert(items@ =~= all.skip(i + 1));
        assert(keys@ =~= all_keys.skip(i + 1));
        let mut j: usize = out.len();
        while j > 0 && xk < out_keys[j - 1]
            invariant
                j <= out@.len(),
                out@.len() == out_keys@.len(),
                xk == key(x),
                forall|k: int| 0 <= k < out@.len() ==> #[trigger] out_keys@[k] == key(out@[k]),
                forall|k: int| j <= k < out@.len() ==> key(x) < key(#[trigger] out@[k]),
            decreases j,
        {
            j = j - 1;
        }
        let ghost before = out@;
        let ghost before_keys = out_keys@;
        proof {
            lemma_insert_number_suffix(before, x, key, j as int);
            if j > 0 {
                assert(!(key(x) < key(before[j - 1])));
                assert(before.subrange(0, j as int).drop_last() =~= before.subrange(0, j - 1));
            }
            assert(all.subrange(0, i + 1).drop_last() =~= all.subrange(0, i as int));
        }
        out.insert(j, x);
        out_keys.insert(j, xk);
        assert(out@ =~= before.subrange(0, j as int).push(x) + before.subrange(j as int, before.len() as int));
        assert forall|k: int| 0 <= k < out@.len() implies #[trigger] out_keys@[k] == key(out@[k]) by {
            if k < j {
                assert(out@[k] == before[k]);
                assert(out_keys@[k] == before_keys[k]);
            } else if k > j {
                assert(out@[k] == before[k - 1]);
                assert(out_keys@[k] == before_keys[k - 1]);
            }
        }
        i = i + 1;
    }
    assert(all.subrange(0, all.len() as int) =~= all);
    out
}

/// Placing an element keeps everything that was there and adds it.
proof fn lemma_insert_by_number_permutes<T>(s: Seq<T>, x: T, key: spec_fn(T) -> u64)
    ensures
        insert_by_number(s, x, key).to_multiset() == s.to_multiset().insert(x),
    decreases s.len(),
{
    broadcast use vstd::seq_lib::group_to_multiset_ensures;

    if s.len() > 0 && key(x) < key(s.last()) {
        lemma_insert_by_number_permutes(s.drop_last(), x, key);
        assert(s =~= s.drop_last().push(s.last()));
        assert(s.drop_last().to_multiset().insert(x).insert(s.last()) =~= s.drop_last().to_multiset().insert(
            s.last(),
        ).insert(x));
    }
}

/// Sorting by a number reorders and neither drops nor adds: the result holds
/// each element exactly as often as the input did.
pub proof fn lemma_sort_by_number_permutes<T>(s: Seq<T>, key: spec_fn(T) -> u64)
    ensures
        sort_by_number(s, key).to_multiset() == s.to_multiset(),
    decreases s.len(),
{
    broadcast use vstd::seq_lib::group_to_multiset_ensures;

    if s.len() > 0 {
        lemma_sort_by_number_permutes(s.drop_last(), key);
        lemma_insert_by_number_permutes(sort_by_number(s.drop_last(), key), s.last(), key);
        assert(s =~= s.drop_last().push(s.last()));
    }
}

/// Every element of the sorted sequence is one of the input's.
pub proof fn lemma_sort_by_number_elements<T>(s: Seq<T>, key: spec_fn(T) -> u64, i: int)
    requires
        0 <= i < sort_by_number(s, key).len(),
    ensures
        s.contains(sort_by_number(s, key)[i]),
{
    broadcast use vstd::seq_lib::group_to_multiset_ensures;

    lemma_sort_by_number_permutes(s, key);
    let t = sort_by_number(s, key);
    assert(t.contains(t[i]));
    assert(t.to_multiset().count(t[i]) > 0);
}

// ---------------------------------------------------------------------------
// What a sort by text guarantees.

/// No text sorts before itself.
pub proof fn lemma_text_less_irreflexive(a: Seq<char>)
    ensures
        !text_less(a, a),
    decreases a.len(),
{
    if a.len() > 0 {
        lemma_text_less_irreflexive(a.drop_first());
    }
}

/// Of two texts, at most one sorts before the other.
pub proof fn lemma_text_less_asymmetric(a: Seq<char>, b: Seq<char>)
    ensures
        !(text_less(a, b) && text_less(b, a)),
    decreases a.len(),
{
    if a.len() > 0 && b.len() > 0 && a[0] == b[0] {
        lemma_text_less_asymmetric(a.drop_first(), b.drop_first());
    }
}

/// Sorting before is transitive.
pub proof fn lemma_text_less_transitive(a: Seq<char>, b: Seq<char>, c: Seq<char>)
    requires
        text_less(a, b),
        text_less(b, c),
    ensures
        text_less(a, c),
    decreases a.len(),
{
    if a.len() > 0 && a[0] == b[0] && b[0] == c[0] {
        lemma_text_less_transitive(a.drop_first(), b.drop_first(), c.drop_first());
    }
}

/// Two different texts are ordered one way or the other.
pub proof fn lemma_text_less_total(a: Seq<char>, b: Seq<char>)
    ensures
        a == b || text_less(a, b) || text_less(b, a),
    decreases a.len(),
{
    if a.len() == 0 && b.len() == 0 {
        assert(a =~= b);
    } else if a.len() > 0 && b.len() > 0 && a[0] == b[0] {
        lemma_text_less_total(a.drop_first(), b.drop_first());
        if a.drop_first() == b.drop_first() {
            assert(a.drop_first().len() == b.drop_first().len());
            assert(b.len() == a.len());
            assert forall|i: int| 0 <= i < a.len() implies a[i] == b[i] by {
                if i > 0 {
                    assert(a[i] == a.drop_first()[i - 1]);
                    assert(b[i] == b.drop_first()[i - 1]);
                }
            }
            assert(a =~= b);
        }
    } else if a.len() > 0 && b.len() > 0 {
        vstd::utf8::char_u32_cast(a[0], a[0] as u32);
        vstd::utf8::char_u32_cast(b[0], b[0] as u32);
        assert((a[0] as u32) != (b[0] as u32));
    }
}

/// Placing an element keeps everything that was there and adds it.
proof fn lemma_insert_by_permutes<T>(s: Seq<T>, x: T, key: spec_fn(T) -> Seq<char>)
    ensures
        insert_by(s, x, key).to_multiset() == s.to_multiset().insert(x),
    decreases s.len(),
{
    broadcast use vstd::seq_lib::group_to_multiset_ensures;

    if s.len() > 0 && text_less(key(x), key(s.last())) {
        lemma_insert_by_permutes(s.drop_last(), x, key);
        assert(s =~= s.drop_last().push(s.last()));
        assert(s.drop_last().to_multiset().insert(x).insert(s.last()) =~= s.drop_last().to_multiset().insert(
            s.last(),
        ).insert(x));
    }
}

/// Sorting by text reorders and neither drops nor adds: the result holds
/// each element exactly as often as the input did.
pub proof fn lemma_sort_by_permutes<T>(s: Seq<T>, key: spec_fn(T) -> Seq<char>)
    ensures
        sort_by(s, key).to_multiset() == s.to_multiset(),
    decreases s.len(),
{
    broadcast use vstd::seq_lib::group_to_multiset_ensures;

    if s.len() > 0 {
        lemma_sort_by_permutes(s.drop_last(), key);
        lemma_insert_by_permutes(sort_by(s.drop_last(), key), s.last(), key);
        assert(s =~= s.drop_last().push(s.last()));
    }
}

proof fn lemma_insert_by_sorted<T>(s: Seq<T>, x: T, key: spec_fn(T) -> Seq<char>)
    requires
        keys_sorted(s, key),
    ensures
        keys_sorted(insert_by(s, x, key), key),
    decreases s.len(),
{
    broadcast use vstd::seq_lib::group_to_multiset_ensures;

    if s.len() == 0 {
    } else if text_less(key(x), key(s.last())) {
        let d = s.drop_last();
        assert(keys_sorted(d, key)) by {
            assert forall|i: int, j: int| 0 <= i < j < d.len() implies !text_less(key(d[j]), key(d[i])) by {
                assert(d[i] == s[i] && d[j] == s[j]);
            }
        }
        lemma_insert_by_sorted(d, x, key);
        let r = insert_by(d, x, key);
        lemma_insert_by_permutes(d, x, key);
        assert forall|i: int| 0 <= i < r.len() implies !text_less(key(s.last()), key(#[trigger] r[i])) by {
            assert(r.contains(r[i]));
            assert(r.to_multiset().count(r[i]) > 0);
            if r[i] == x {
                lemma_text_less_asymmetric(key(x), key(s.last()));
            } else {
                assert(d.to_multiset().count(r[i]) > 0);
                assert(d.contains(r[i]));
                let k = choose|k: int| 0 <= k < d.len() && d[k] == r[i];
                assert(s[k] == d[k]);
            }
        }
        let p = r.push(s.last());
        assert forall|i: int, j: int| 0 <= i < j < p.len() implies !text_less(key(p[j]), key(p[i])) by {
            if j == r.len() {
                assert(p[i] == r[i]);
            } else {
                assert(p[i] == r[i] && p[j] == r[j]);
            }
        }
    } else {
        let p = s.push(x);
        assert forall|i: int, j: int| 0 <= i < j < p.len() implies !text_less(key(p[j]), key(p[i])) by {
            if j == s.len() {
                if i < s.len() - 1 && text_less(key(x), key(s[i])) {
                    lemma_text_less_total(key(x), key(s.last()));
                    if key(x) != key(s.last()) {
                        lemma_text_less_transitive(key(s.last()), key(x), key(s[i]));
                    }
                }
            } else {
                assert(p[i] == s[i] && p[j] == s[j]);
            }
        }
    }
}

/// A sort by text is in order: no element's key sorts before an earlier
/// one's.
pub proof fn lemma_sort_by_sorted<T>(s: Seq<T>, key: spec_fn(T) -> Seq<char>)
    ensures
        keys_sorted(sort_by(s, key), key),
    decreases s.len(),
{
    if s.len() > 0 {
        lemma_sort_by_sorted(s.drop_last(), key);
        lemma_insert_by_sorted(sort_by(s.drop_last(), key), s.last(), key);
    }
}

proof fn lemma_insert_by_number_sorted<T>(s: Seq<T>, x: T, key: spec_fn(T) -> u64)
    requires
        numbers_sorted(s, key),
    ensures
        numbers_sorted(insert_by_number(s, x, key), key),
    decreases s.len(),
{
    broadcast use vstd::seq_lib::group_to_multiset_ensures;

    if s.len() == 0 {
    } else if key(x) < key(s.last()) {
        let d = s.drop_last();
        assert(numbers_sorted(d, key)) by {
            assert forall|i: int, j: int| 0 <= i < j < d.len() implies key(d[i]) <= key(d[j]) by {
                assert(d[i] == s[i] && d[j] == s[j]);
            }
        }
        lemma_insert_by_number_sorted(d, x, key);
        let r = insert_by_number(d, x, key);
        lemma_insert_by_number_permutes(d, x, key);
        assert forall|i: int| 0 <= i < r.len() implies key(#[trigger] r[i]) <= key(s.last()) by {
            assert(r.contains(r[i]));
            assert(r.to_multiset().count(r[i]) > 0);
            if r[i] != x {
                assert(d.to_multiset().count(r[i]) > 0);
                assert(d.contains(r[i]));
                let k = choose|k: int| 0 <= k < d.len() && d[k] == r[i];
                assert(s[k] == d[k]);
            }
        }
        let p = r.push(s.last());
        assert forall|i: int, j: int| 0 <= i < j < p.len() implies key(p[i]) <= key(p[j]) by {
            if j == r.len() {
                assert(p[i] == r[i]);
            } else {
                assert(p[i] == r[i] && p[j] == r[j]);
            }
        }
    } else {
        let p = s.push(x);
        assert forall|i: int, j: int| 0 <= i < j < p.len() implies key(p[i]) <= key(p[j]) by {
            if j == s.len() {
                if i < s.len() - 1 {
                    assert(key(s[i]) <= key(s[s.len() - 1]));
                }
            } else {
                assert(p[i] == s[i] && p[j] == s[j]);
            }
        }
    }
}

/// A sort by number is in order.
pub proof fn lemma_sort_by_number_sorted<T>(s: Seq<T>, key: spec_fn(T) -> u64)
    ensures
        numbers_sorted(sort_by_number(s, key), key),
    decreases s.len(),
{
    if s.len() > 0 {
        lemma_sort_by_number_sorted(s.drop_last(), key);
        lemma_insert_by_number_sorted(sort_by_number(s.drop_last(), key), s.last(), key);
    }
}

} // verus!
