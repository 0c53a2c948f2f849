//! Operations on text that the share-link grammar needs, each stated over the
//! sequence of characters that a string stands for.

use vstd::prelude::*;
use vstd::string::*;

verus! {

/// Index of the first `c` in `s`, or the length of `s` when `c` does not occur.
pub open spec fn first_at(s: Seq<char>, c: char) -> int
    decreases s.len(),
{
    if s.len() == 0 || s[0] == c {
        0
    } else {
        1 + first_at(s.skip(1), c)
    }
}

/// `first_at` stops at an occurrence of `c` and passes none on its way.
pub proof fn lemma_first_at(s: Seq<char>, c: char)
    ensures
        0 <= first_at(s, c) <= s.len(),
        forall|j: int| 0 <= j < first_at(s, c) ==> s[j] != c,
        first_at(s, c) < s.len() ==> s[first_at(s, c)] == c,
    decreases s.len(),
{
    if s.len() == 0 || s[0] == c {
    } else {
        let t = s.skip(1);
        lemma_first_at(t, c);
        assert forall|j: int| 0 <= j < first_at(s, c) implies s[j] != c by {
            if j > 0 {
                assert(s[j] == t[j - 1]);
            }
        }
    }
}

/// The only index with the two properties of `lemma_first_at` is `first_at`.
pub proof fn lemma_first_at_unique(s: Seq<char>, c: char, i: int)
    requires
        0 <= i <= s.len(),
        forall|j: int| 0 <= j < i ==> s[j] != c,
        i < s.len() ==> s[i] == c,
    ensures
        first_at(s, c) == i,
{
    lemma_first_at(s, c);
}

/// The pieces of `s` between occurrences of `sep`; a text without `sep` is one piece.
pub open spec fn pieces(s: Seq<char>, sep: char) -> Seq<Seq<char>>
    decreases s.len(),
{
    let i = first_at(s, sep);
    if 0 <= i < s.len() {
        seq![s.take(i)] + pieces(s.skip(i + 1), sep)
    } else {
        seq![s]
    }
}

/// A `key=value` pair, cut at its first `=`; `None` for a text without `=`.
pub open spec fn key_value(s: Seq<char>) -> Option<(Seq<char>, Seq<char>)> {
    let i = first_at(s, '=');
    if 0 <= i < s.len() {
        Some((s.take(i), s.skip(i + 1)))
    } else {
        None
    }
}

/// Whether `c` is one of the ten decimal digits.
pub open spec fn is_digit(c: char) -> bool {
    '0' <= c && c <= '9'
}

/// The number that a sequence of decimal digits writes.
pub open spec fn decimal(s: Seq<char>) -> int
    decreases s.len(),
{
    if s.len() == 0 {
        0
    } else {
        decimal(s.drop_last()) * 10 + (s.last() as int - '0' as int)
    }
}

/// The digits of a number text: the text itself, without one leading `+`.
pub open spec fn digits_of(s: Seq<char>) -> Seq<char> {
    if s.len() > 0 && s[0] == '+' {
        s.skip(1)
    } else {
        s
    }
}

/// The value of a decimal number text that fits in 16 bits: at least one
/// digit, nothing but digits after an optional leading `+`.
pub open spec fn number_u16(s: Seq<char>) -> Option<u16> {
    let d = digits_of(s);
    if d.len() > 0 && (forall|i: int| 0 <= i < d.len() ==> is_digit(#[trigger] d[i])) && decimal(d)
        <= 0xffff {
        Some(decimal(d) as u16)
    } else {
        None
    }
}

/// A number written with digits only does not shrink when more digits follow.
pub proof fn lemma_decimal_grows(s: Seq<char>, k: int)
    requires
        0 <= k <= s.len(),
        forall|i: int| 0 <= i < s.len() ==> is_digit(#[trigger] s[i]),
    ensures
        0 <= decimal(s.take(k)) <= decimal(s),
    decreases s.len() - k,
{
    if k == s.len() {
        assert(s.take(k) =~= s);
        lemma_decimal_nonnegative(s);
    } else {
        lemma_decimal_grows(s, k + 1);
        let t = s.take(k + 1);
        assert(t.drop_last() =~= s.take(k));
        assert(is_digit(s[k]));
        assert(t.last() == s[k]);
        lemma_decimal_nonnegative(s.take(k));
    }
}

/// A number written with digits only is not negative.
pub proof fn lemma_decimal_nonnegative(s: Seq<char>)
    requires
        forall|i: int| 0 <= i < s.len() ==> is_digit(#[trigger] s[i]),
    ensures
        0 <= decimal(s),
    decreases s.len(),
{
    if s.len() > 0 {
        lemma_decimal_nonnegative(s.drop_last());
        assert(is_digit(s[s.len() - 1]));
    }
}

/// The characters of a string, in order.
pub fn chars_of(s: &str) -> (r: Vec<char>)
    ensures
        r@ == s@,
{
    let mut out: Vec<char> = Vec::new();
    for c in it: s.chars()
        invariant
            out@ == it.seq().take(it.index()),
            it.seq() == s@,
    {
        out.push(c);
    }
    out
}

/// Whether two strings hold the same characters.
pub fn same_text(a: &str, b: &str) -> (r: bool)
    ensures
        r == (a@ == b@),
{
    let x = a.to_owned();
    let y = b.to_owned();
    x == y
}

/// Index of the first `c` at or after `from`, or the length when there is none.
pub fn find_char(v: &Vec<char>, c: char, from: usize) -> (r: usize)
    requires
        from <= v.len(),
    ensures
        r == from + first_at(v@.skip(from as int), c),
        from <= r <= v.len(),
{
    let mut i: usize = from;
    while i < v.len() && v[i] != c
        invariant
            from <= i <= v.len(),
            forall|j: int| from <= j < i ==> v@[j] != c,
        decreases v.len() - i,
    {
        i += 1;
    }
    proof {
        lemma_first_at_unique(v@.skip(from as int), c, i - from);
    }
    i
}

/// The pieces of `s` between occurrences of `sep`, as `pieces` gives them.
pub fn split_on(s: &str, sep: char) -> (r: Vec<String>)
    ensures
        r.deep_view() == pieces(s@, sep),
{
    let v = chars_of(s);
    let n = v.len();
    let mut out: Vec<String> = Vec::new();
    let mut start: usize = 0;
    proof {
        assert(s@.skip(0) =~= s@);
        assert(out.deep_view() =~= Seq::<Seq<char>>::empty());
        assert(Seq::<Seq<char>>::empty() + pieces(s@, sep) =~= pieces(s@, sep));
    }
    loop
        invariant
            v@ == s@,
            n == v.len(),
            start <= n,
            out.deep_view() + pieces(s@.skip(start as int), sep) == pieces(s@, sep),
        decreases n - start,
    {
        let i = find_char(&v, sep, start);
        let ghost rest = s@.skip(start as int);
        let piece = s.substring_char(start, i).to_owned();
        proof {
            assert(piece@ == rest.take(i - start));
            assert(out.deep_view().push(piece@) =~= out.deep_view() + seq![piece@]);
        }
        let ghost before = out.deep_view();
        out.push(piece);
        assert(out.deep_view() =~= before.push(piece@));
        if i >= n {
            proof {
                assert(rest.take(i - start) =~= rest);
            }
            return out;
        }
        proof {
            assert(rest.skip(i - start + 1) =~= s@.skip(i + 1));
        }
        start = i + 1;
    }
}

/// Cuts `s` at its first `=`, as `key_value` does.
pub fn split_pair(s: &str) -> (r: Option<(String, String)>)
    ensures
        r.deep_view() == key_value(s@),
{
    let v = chars_of(s);
    let i = find_char(&v, '=', 0);
    proof {
        assert(s@.skip(0) =~= s@);
    }
    if i < v.len() {
        let key = s.substring_char(0, i).to_owned();
        let value = s.substring_char(i + 1, v.len()).to_owned();
        Some((key, value))
    } else {
        None
    }
}

/// Reads a decimal number that fits in 16 bits, as `number_u16` does.
pub fn parse_u16(s: &str) -> (r: Option<u16>)
    ensures
        r == number_u16(s@),
{
    let v = chars_of(s);
    let n = v.len();
    let first: usize = if n > 0 && v[0] == '+' {
        1
    } else {
        0
    };
    let ghost d = digits_of(s@);
    assert(d == s@.skip(first as int));
    if first >= n {
        return None;
    }
    let mut acc: u32 = 0;
    let mut i: usize = first;
    while i < n
        invariant
            v@ == s@,
            n == v.len(),
            first <= i <= n,
            d == s@.skip(first as int),
            d == digits_of(s@),
            forall|j: int| 0 <= j < i - first ==> is_digit(#[trigger] d[j]),
            acc == decimal(d.take(i - first)),
            acc <= 0xffff,
        decreases n - i,
    {
        let c = v[i];
        assert(c == d[i - first]);
        if !(c >= '0' && c <= '9') {
            assert(!is_digit(d[i - first]));
            return None;
        }
        let digit: u32 = c as u32 - '0' as u32;
        let next: u32 = acc * 10 + digit;
        proof {
            let t = d.take(i - first + 1);
            assert(t.drop_last() =~= d.take(i - first));
            assert(t.last() == c);
            assert(next == decimal(t));
        }
        if next > 0xffff {
            proof {
                if forall|j: int| 0 <= j < d.len() ==> is_digit(#[trigger] d[j]) {
                    lemma_decimal_grows(d, i - first + 1);
                    assert(decimal(d) > 0xffff);
                }
            }
            return None;
        }
        acc = next;
        i += 1;
    }
    proof {
        assert(d.take(i - first) =~= d);
    }
    Some(acc as u16)
}

} // verus!
