//! Text helpers shared by the config and script vocabularies.

use vstd::prelude::*;
use vstd::string::*;

verus! {

/// Whether two strings hold the same characters.
pub fn same_text(a: &str, b: &str) -> (r: bool)
    ensures
        r == (a@ == b@),
{
    let n = a.unicode_len();
    if n != b.unicode_len() {
        return false;
    }
    let mut i: usize = 0;
    while i < n
        invariant
            n == a@.len(),
            n == b@.len(),
            i <= n,
            forall|j: int| 0 <= j < i ==> a@[j] == b@[j],
        decreases n - i,
    {
        if a.get_char(i) != b.get_char(i) {
            return false;
        }
        i = i + 1;
    }
    assert(a@ =~= b@);
    true
}

/// Whether `s` begins with `p`.
pub open spec fn starts_with(s: Seq<char>, p: Seq<char>) -> bool {
    p.len() <= s.len() && s.take(p.len() as int) == p
}

/// Whether `name` begins with `prefix`.
pub fn has_prefix(name: &str, prefix: &str) -> (r: bool)
    ensures
        r == starts_with(name@, prefix@),
{
    let n = name.unicode_len();
    let p = prefix.unicode_len();
    if p > n {
        return false;
    }
    let mut i: usize = 0;
    while i < p
        invariant
            n == name@.len(),
            p == prefix@.len(),
            p <= n,
            i <= p,
            forall|j: int| 0 <= j < i ==> name@[j] == prefix@[j],
        decreases p - i,
    {
        if name.get_char(i) != prefix.get_char(i) {
            assert(name@.take(p as int)[i as int] != prefix@[i as int]);
            return false;
        }
        i = i + 1;
    }
    assert(name@.take(p as int) =~= prefix@);
    true
}

/// Whether a character is an ASCII decimal digit.
pub open spec fn is_digit(c: char) -> bool {
    '0' <= c && c <= '9'
}

/// The value of an ASCII decimal digit.
pub open spec fn digit_value(c: char) -> nat {
    (c as int - '0' as int) as nat
}

/// Whether every character is an ASCII decimal digit.
pub open spec fn all_digits(s: Seq<char>) -> bool {
    forall|i: int| 0 <= i < s.len() ==> is_digit(#[trigger] s[i])
}

/// The number a run of decimal digits spells.
pub open spec fn digits_value(s: Seq<char>) -> nat
    decreases s.len(),
{
    if s.len() == 0 {
        0
    } else {
        digits_value(s.drop_last()) * 10 + digit_value(s.last())
    }
}

/// How an unsigned machine integer is read from text: an optional `+`,
/// then at least one decimal digit, the value fitting in a `usize`.
pub open spec fn parse_usize(s: Seq<char>) -> Option<nat> {
    let d = if s.len() > 0 && s[0] == '+' {
        s.skip(1)
    } else {
        s
    };
    if d.len() > 0 && all_digits(d) && digits_value(d) <= usize::MAX {
        Some(digits_value(d))
    } else {
        None
    }
}

/// A longer run of digits never spells a smaller number.
proof fn lemma_digits_value_grows(s: Seq<char>, k: int)
    requires
        all_digits(s),
        0 <= k <= s.len(),
    ensures
        digits_value(s.take(k)) <= digits_value(s),
    decreases s.len(),
{
    if k < s.len() {
        let t = s.drop_last();
        assert(all_digits(t)) by {
            assert forall|i: int| 0 <= i < t.len() implies is_digit(#[trigger] t[i]) by {
                assert(t[i] == s[i]);
            }
        }
        lemma_digits_value_grows(t, k);
        assert(t.take(k) =~= s.take(k));
    } else {
        assert(s.take(k) =~= s);
    }
}

/// Reads the unsigned number spelled by `s` from position `start` on.
pub fn parse_usize_from(s: &str, start: usize) -> (r: Option<usize>)
    requires
        start <= s@.len(),
    ensures
        match r {
            Some(n) => parse_usize(s@.skip(start as int)) == Some(n as nat),
            None => parse_usize(s@.skip(start as int)) is None,
        },
{
    let n = s.unicode_len();
    let ghost t = s@.skip(start as int);
    let mut first = start;
    if start < n && s.get_char(start) == '+' {
        first = start + 1;
    }
    let ghost d = if t.len() > 0 && t[0] == '+' { t.skip(1) } else { t };
    assert(d =~= s@.skip(first as int));
    if first >= n {
        return None;
    }
    let mut i = first;
    while i < n
        invariant
            n == s@.len(),
            first <= i <= n,
            d == s@.skip(first as int),
            t == s@.skip(start as int),
            d == (if t.len() > 0 && t[0] == '+' { t.skip(1) } else { t }),
            forall|j: int| first <= j < i ==> is_digit(#[trigger] s@[j]),
        decreases n - i,
    {
        let c = s.get_char(i);
        if !('0' <= c && c <= '9') {
            assert(d[i - first] == c);
            assert(!is_digit(d[i - first]));
            return None;
        }
        i = i + 1;
    }
    assert(all_digits(d)) by {
        assert forall|j: int| 0 <= j < d.len() implies is_digit(#[trigger] d[j]) by {
            assert(d[j] == s@[first + j]);
        }
    }
    let mut acc: usize = 0;
    let mut i = first;
    while i < n
        invariant
            n == s@.len(),
            first <= i <= n,
            d == s@.skip(first as int),
            t == s@.skip(start as int),
            d == (if t.len() > 0 && t[0] == '+' { t.skip(1) } else { t }),
            all_digits(d),
            acc as nat == digits_value(d.take(i - first)),
        decreases n - i,
    {
        let c = s.get_char(i);
        assert(d[i - first] == c);
        let v = (c as u32 - '0' as u32) as usize;
        assert(d.take(i - first + 1).drop_last() =~= d.take(i - first));
        assert(d.take(i - first + 1).last() == c);
        assert(digit_value(c) == v as nat);
        assert(digits_value(d.take(i - first + 1)) == acc as nat * 10 + v as nat);
        if (acc as u128) * 10 + (v as u128) > usize::MAX as u128 {
            proof {
                lemma_digits_value_grows(d, i - first + 1);
            }
            return None;
        }
        acc = acc * 10 + v;
        i = i + 1;
    }
    assert(d.take(n - first) =~= d);
    Some(acc)
}

/// Whether `s` ends with `p`.
pub open spec fn ends_with(s: Seq<char>, p: Seq<char>) -> bool {
    p.len() <= s.len() && s.skip(s.len() - p.len()) == p
}

/// Lexicographic order on text by character code, which is also the
/// order of the texts' UTF-8 bytes.
pub open spec fn text_less(a: Seq<char>, b: Seq<char>) -> bool
    decreases a.len(),
{
    if a.len() == 0 {
        b.len() > 0
    } else if b.len() == 0 {
        false
    } else if a[0] != b[0] {
        (a[0] as int) < (b[0] as int)
    } else {
        text_less(a.skip(1), b.skip(1))
    }
}

/// `a` sorts no later than `b`.
pub open spec fn text_le(a: Seq<char>, b: Seq<char>) -> bool {
    !text_less(b, a)
}

/// Texts in non-decreasing order.
pub open spec fn texts_sorted(s: Seq<Seq<char>>) -> bool {
    forall|i: int, j: int| 0 <= i < j < s.len() ==> text_le(#[trigger] s[i], #[trigger] s[j])
}

/// The order is strict and total: no text precedes itself, it is
/// transitive, and of two different texts one precedes the other.
pub proof fn lemma_text_order(a: Seq<char>, b: Seq<char>, c: Seq<char>)
    ensures
        !text_less(a, a),
        text_less(a, b) && text_less(b, c) ==> text_less(a, c),
        a != b ==> text_less(a, b) || text_less(b, a),
        text_less(a, b) ==> !text_less(b, a),
    decreases a.len(),
{
    if a.len() > 0 && b.len() > 0 && c.len() > 0 {
        lemma_text_order(a.skip(1), b.skip(1), c.skip(1));
    }
    if a.len() == 0 && b.len() == 0 {
        assert(a =~= b);
    }
    if a.len() > 0 && b.len() > 0 && a != b && a[0] == b[0] {
        assert(a =~= seq![a[0]] + a.skip(1));
        assert(b =~= seq![b[0]] + b.skip(1));
        assert(a.skip(1) != b.skip(1));
    }
    if a.len() > 0 {
        lemma_text_order(a.skip(1), a.skip(1), a.skip(1));
    }
    if a.len() > 0 && b.len() > 0 {
        lemma_text_order(a.skip(1), b.skip(1), b.skip(1));
    }
}

/// Whether `a` sorts strictly before `b`.
pub fn text_before(a: &str, b: &str) -> (r: bool)
    ensures
        r == text_less(a@, b@),
{
    let n = a.unicode_len();
    let m = b.unicode_len();
    let mut i: usize = 0;
    assert(a@.skip(0) =~= a@);
    assert(b@.skip(0) =~= b@);
    while i < n && i < m && a.get_char(i) == b.get_char(i)
        invariant
            n == a@.len(),
            m == b@.len(),
            i <= n,
            i <= m,
            text_less(a@, b@) == text_less(a@.skip(i as int), b@.skip(i as int)),
        decreases n - i,
    {
        assert(a@.skip(i as int).skip(1) =~= a@.skip(i + 1));
        assert(b@.skip(i as int).skip(1) =~= b@.skip(i + 1));
        i = i + 1;
    }
    if i == n {
        i < m
    } else if i == m {
        false
    } else {
        (a.get_char(i) as u32) < (b.get_char(i) as u32)
    }
}

/// Sorts texts into non-decreasing order (equal texts keep their order).
pub fn sort_texts(v: Vec<String>) -> (r: Vec<String>)
    ensures
        texts_sorted(r@.map_values(|s: String| s@)),
        r@.map_values(|s: String| s@).to_multiset() == v@.map_values(|s: String| s@).to_multiset(),
{
    let ghost vt = v@.map_values(|s: String| s@);
    let mut out: Vec<String> = Vec::new();
    let mut i: usize = 0;
    assert(vt.take(0) =~= Seq::<Seq<char>>::empty());
    assert(out@.map_values(|s: String| s@) =~= Seq::<Seq<char>>::empty());
    while i < v.len()
        invariant
            i <= v@.len(),
            vt == v@.map_values(|s: String| s@),
            texts_sorted(out@.map_values(|s: String| s@)),
            out@.map_values(|s: String| s@).to_multiset() == vt.take(i as int).to_multiset(),
        decreases v@.len() - i,
    {
        let x = &v[i];
        let ghost ot = out@.map_values(|s: String| s@);
        let mut p: usize = 0;
        while p < out.len() && !text_before(x.as_str(), out[p].as_str())
            invariant
                p <= out@.len(),
                ot == out@.map_values(|s: String| s@),
                forall|k: int| 0 <= k < p ==> !text_less(x@, #[trigger] ot[k]),
            decreases out@.len() - p,
        {
            p = p + 1;
        }
        let ghost nt = ot.insert(p as int, x@);
        proof {
            assert forall|a: int, b: int| 0 <= a < b < nt.len() implies text_le(#[trigger] nt[a], #[trigger] nt[b]) by {
                if b < p {
                    assert(nt[a] == ot[a] && nt[b] == ot[b]);
                } else if b == p {
                    assert(nt[b] == x@);
                    assert(nt[a] == ot[a]);
                    lemma_text_order(x@, ot[a], ot[a]);
                    if x@ != ot[a] {
                        lemma_text_order(ot[a], x@, x@);
                    }
                } else if a == p {
                    assert(nt[a] == x@);
                    assert(nt[b] == ot[b - 1]);
                    assert(text_less(x@, ot[p as int]));
                    if b - 1 > p {
                        assert(text_le(ot[p as int], ot[b - 1]));
                    }
                    lemma_text_order(ot[b - 1], x@, ot[p as int]);
                    lemma_text_order(ot[p as int], ot[p as int], ot[p as int]);
                } else if a < p {
                    assert(nt[a] == ot[a] && nt[b] == ot[b - 1]);
                } else {
                    assert(nt[a] == ot[a - 1] && nt[b] == ot[b - 1]);
                }
            }
        }
        out.insert(p, x.clone());
        proof {
            assert(out@.map_values(|s: String| s@) =~= nt);
            vstd::seq_lib::to_multiset_insert(ot, p as int, x@);
            assert(vt.take(i + 1) =~= vt.take(i as int).push(x@));
            vstd::seq_lib::to_multiset_build(vt.take(i as int), x@);
        }
        i = i + 1;
    }
    assert(vt.take(v@.len() as int) =~= vt);
    out
}

/// Whether `s` ends with `suffix`.
pub fn has_suffix(s: &str, suffix: &str) -> (r: bool)
    ensures
        r == ends_with(s@, suffix@),
{
    let n = s.unicode_len();
    let m = suffix.unicode_len();
    if m > n {
        return false;
    }
    let start = n - m;
    let mut i: usize = 0;
    while i < m
        invariant
            n == s@.len(),
            m == suffix@.len(),
            m <= n,
            start == n - m,
            i <= m,
            forall|j: int| 0 <= j < i ==> s@[start + j] == suffix@[j],
        decreases m - i,
    {
        if s.get_char(start + i) != suffix.get_char(i) {
            assert(s@.skip(start as int)[i as int] != suffix@[i as int]);
            return false;
        }
        i = i + 1;
    }
    assert(s@.skip(start as int) =~= suffix@);
    true
}

/// The characters of `s` from position `from` up to `to`, as a new string.
pub fn slice_text(s: &str, from: usize, to: usize) -> (r: String)
    requires
        from <= to <= s@.len(),
    ensures
        r@ == s@.subrange(from as int, to as int),
{
    s.substring_char(from, to).to_owned()
}

} // verus!
