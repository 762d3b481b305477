//! Reading the kernel's text files: lines, words, trimming, numbers.

use vstd::prelude::*;

use crate::text::{chars_of, dec_value, string_of};

verus! {

/// The characters with the Unicode property White_Space.
pub open spec fn is_white(c: char) -> bool {
    ||| '\u{9}' <= c <= '\u{d}'
    ||| c == ' '
    ||| c == '\u{85}'
    ||| c == '\u{a0}'
    ||| c == '\u{1680}'
    ||| '\u{2000}' <= c <= '\u{200a}'
    ||| c == '\u{2028}'
    ||| c == '\u{2029}'
    ||| c == '\u{202f}'
    ||| c == '\u{205f}'
    ||| c == '\u{3000}'
}

fn white(c: char) -> (b: bool)
    ensures
        b == is_white(c),
{
    ('\u{9}' <= c && c <= '\u{d}') || c == ' ' || c == '\u{85}' || c == '\u{a0}' || c == '\u{1680}'
        || ('\u{2000}' <= c && c <= '\u{200a}') || c == '\u{2028}' || c == '\u{2029}' || c
        == '\u{202f}' || c == '\u{205f}' || c == '\u{3000}'
}

/// A text without leading white space.
pub open spec fn trimmed_start(s: Seq<char>) -> Seq<char>
    decreases s.len(),
{
    if s.len() > 0 && is_white(s[0]) {
        trimmed_start(s.skip(1))
    } else {
        s
    }
}

/// A text without trailing white space.
pub open spec fn trimmed_end(s: Seq<char>) -> Seq<char>
    decreases s.len(),
{
    if s.len() > 0 && is_white(s.last()) {
        trimmed_end(s.drop_last())
    } else {
        s
    }
}

/// A text without leading and trailing white space.
pub open spec fn trimmed(s: Seq<char>) -> Seq<char> {
    trimmed_end(trimmed_start(s))
}

fn skip_white(v: &Vec<char>, from: usize) -> (k: usize)
    requires
        from <= v@.len(),
    ensures
        from <= k <= v@.len(),
        v@.skip(k as int) == trimmed_start(v@.skip(from as int)),
{
    let mut k: usize = from;
    while k < v.len() && white(v[k])
        invariant
            from <= k <= v@.len(),
            trimmed_start(v@.skip(k as int)) == trimmed_start(v@.skip(from as int)),
        decreases v@.len() - k,
    {
        assert(v@.skip(k as int).skip(1) =~= v@.skip(k + 1));
        k += 1;
    }
    k
}

/// A text without leading white space.
pub fn trim_start(s: &str) -> (r: String)
    ensures
        r@ == trimmed_start(s@),
{
    let v = chars_of(s);
    assert(v@.skip(0) =~= s@);
    let k: usize = skip_white(&v, 0);
    let r = string_of(&v, k, v.len());
    assert(r@ =~= v@.skip(k as int));
    r
}

/// A text without leading and trailing white space.
pub fn trim(s: &str) -> (r: String)
    ensures
        r@ == trimmed(s@),
{
    let v = chars_of(s);
    assert(v@.skip(0) =~= s@);
    let k: usize = skip_white(&v, 0);
    let mut end: usize = v.len();
    assert(v@.subrange(k as int, end as int) =~= v@.skip(k as int));
    while end > k && white(v[end - 1])
        invariant
            k <= end <= v@.len(),
            trimmed_end(v@.subrange(k as int, end as int)) == trimmed(s@),
        decreases end - k,
    {
        assert(v@.subrange(k as int, end as int).drop_last() =~= v@.subrange(k as int, end - 1));
        assert(v@.subrange(k as int, end as int).last() == v@[end - 1]);
        end -= 1;
    }
    let r = string_of(&v, k, end);
    proof {
        if end > k {
            assert(r@.last() == v@[end - 1]);
        }
    }
    r
}

/// How many characters come before the first white space.
pub open spec fn word_len(s: Seq<char>) -> nat
    decreases s.len(),
{
    if s.len() == 0 || is_white(s[0]) {
        0
    } else {
        1 + word_len(s.skip(1))
    }
}

/// The first word of a line, if there is one.
pub open spec fn first_word_of(s: Seq<char>) -> Option<Seq<char>> {
    let t = trimmed_start(s);
    if t.len() == 0 {
        None
    } else {
        Some(t.take(word_len(t) as int))
    }
}

/// The first word of a line, if there is one.
pub fn first_word(s: &str) -> (r: Option<String>)
    ensures
        crate::engine::text_model(r) == first_word_of(s@),
{
    let v = chars_of(s);
    assert(v@.skip(0) =~= s@);
    let k: usize = skip_white(&v, 0);
    if k == v.len() {
        return None;
    }
    let mut end: usize = k;
    let ghost t = v@.skip(k as int);
    assert(t.skip(0) =~= t);
    while end < v.len() && !white(v[end])
        invariant
            k <= end <= v@.len(),
            t == v@.skip(k as int),
            word_len(t) == (end - k) + word_len(t.skip(end - k)),
        decreases v@.len() - end,
    {
        assert(t.skip(end - k)[0] == v@[end as int]);
        assert(t.skip(end - k).skip(1) =~= t.skip(end - k + 1));
        end += 1;
    }
    proof {
        if end < v@.len() {
            assert(t.skip(end - k)[0] == v@[end as int]);
        }
    }
    let r = string_of(&v, k, end);
    assert(r@ =~= t.take(end - k));
    Some(r)
}

/// Where a character occurs first in a text; its length where it does not.
pub open spec fn index_of(s: Seq<char>, c: char) -> nat
    decreases s.len(),
{
    if s.len() == 0 || s[0] == c {
        0
    } else {
        1 + index_of(s.skip(1), c)
    }
}

fn find_char(v: &Vec<char>, from: usize, c: char) -> (k: usize)
    requires
        from <= v@.len(),
    ensures
        from <= k <= v@.len(),
        k - from == index_of(v@.skip(from as int), c),
        k < v@.len() ==> v@[k as int] == c,
{
    let mut k: usize = from;
    let ghost t = v@.skip(from as int);
    assert(t.skip(0) =~= t);
    while k < v.len() && v[k] != c
        invariant
            from <= k <= v@.len(),
            t == v@.skip(from as int),
            index_of(t, c) == (k - from) + index_of(t.skip(k - from), c),
        decreases v@.len() - k,
    {
        assert(t.skip(k - from)[0] == v@[k as int]);
        assert(t.skip(k - from).skip(1) =~= t.skip(k - from + 1));
        k += 1;
    }
    proof {
        if k < v@.len() {
            assert(t.skip(k - from)[0] == v@[k as int]);
        }
    }
    k
}

/// A line without the carriage return that its line feed may follow.
pub open spec fn without_cr(s: Seq<char>) -> Seq<char> {
    if s.len() > 0 && s.last() == '\r' {
        s.drop_last()
    } else {
        s
    }
}

proof fn lemma_index_bound(s: Seq<char>, c: char)
    ensures
        index_of(s, c) <= s.len(),
    decreases s.len(),
{
    if s.len() > 0 && s[0] != c {
        lemma_index_bound(s.skip(1), c);
    }
}

/// The lines of a text, without their line ends. A text that ends in a line
/// feed has no empty line behind it.
pub open spec fn lines_of(s: Seq<char>) -> Seq<Seq<char>>
    decreases s.len(),
    via lines_of_decreases
{
    if s.len() == 0 {
        Seq::empty()
    } else {
        let k = index_of(s, '\n');
        if k >= s.len() {
            seq![s]
        } else {
            seq![without_cr(s.take(k as int))] + lines_of(s.skip((k + 1) as int))
        }
    }
}

#[via_fn]
proof fn lines_of_decreases(s: Seq<char>) {
    lemma_index_bound(s, '\n');
}

/// The texts of a list.
pub open spec fn texts(v: Seq<String>) -> Seq<Seq<char>> {
    v.map_values(|s: String| s@)
}

/// The lines of a text, without their line ends.
pub fn lines(s: &str) -> (r: Vec<String>)
    ensures
        texts(r@) == lines_of(s@),
{
    let v = chars_of(s);
    let mut r: Vec<String> = Vec::new();
    let mut at: usize = 0;
    assert(v@.skip(0) =~= s@);
    assert(texts(r@) + lines_of(s@) =~= lines_of(s@));
    while at < v.len()
        invariant
            at <= v@.len(),
            texts(r@) + lines_of(v@.skip(at as int)) == lines_of(s@),
        decreases v@.len() - at,
    {
        let ghost before = r@;
        let ghost rest = v@.skip(at as int);
        let k: usize = find_char(&v, at, '\n');
        if k == v.len() {
            let last = string_of(&v, at, k);
            assert(last@ =~= rest);
            r.push(last);
            at = k;
            proof {
                assert(texts(r@) =~= texts(before) + seq![rest]);
                assert(v@.skip(at as int) =~= Seq::<char>::empty());
                assert(texts(r@) + lines_of(v@.skip(at as int)) =~= texts(r@));
            }
            continue;
        }
        let end: usize = if k > at && v[k - 1] == '\r' { k - 1 } else { k };
        let line = string_of(&v, at, end);
        proof {
            let n = k - at;
            assert(rest.take(n) =~= v@.subrange(at as int, k as int));
            assert(line@ =~= without_cr(rest.take(n)));
            assert(rest.skip(n + 1) =~= v@.skip(k + 1));
            assert(lines_of(rest) == seq![line@] + lines_of(v@.skip(k + 1)));
        }
        r.push(line);
        at = k + 1;
        proof {
            assert(texts(r@) =~= texts(before) + seq![line@]);
            assert(texts(r@) + lines_of(v@.skip(at as int)) =~= texts(before) + lines_of(rest));
        }
    }
    assert(v@.skip(at as int) =~= Seq::<char>::empty());
    assert(texts(r@) + lines_of(v@.skip(at as int)) =~= texts(r@));
    r
}

/// Whether a text begins with another.
pub fn starts_with(s: &str, p: &str) -> (b: bool)
    ensures
        b == p@.is_prefix_of(s@),
{
    let v = chars_of(s);
    let w = chars_of(p);
    prefix_at(&v, 0, &w)
}

fn prefix_at(v: &Vec<char>, at: usize, w: &Vec<char>) -> (b: bool)
    requires
        at <= v@.len(),
    ensures
        b == w@.is_prefix_of(v@.skip(at as int)),
{
    let n: usize = v.len();
    if n - at < w.len() {
        return false;
    }
    let ghost rest = v@.skip(at as int);
    let mut i: usize = 0;
    while i < w.len()
        invariant
            i <= w@.len(),
            at + w@.len() <= n == v@.len(),
            rest == v@.skip(at as int),
            w@.take(i as int) == rest.take(i as int),
        decreases w@.len() - i,
    {
        if v[at + i] != w[i] {
            assert(rest.take(w@.len() as int)[i as int] == v@[at + i]);
            assert(rest.subrange(0, w@.len() as int)[i as int] != w@[i as int]);
            return false;
        }
        assert(w@.take(i + 1) =~= w@.take(i as int).push(w@[i as int]));
        assert(rest.take(i + 1) =~= rest.take(i as int).push(rest[i as int]));
        i += 1;
    }
    assert(w@.take(i as int) =~= w@);
    assert(rest.subrange(0, w@.len() as int) =~= w@);
    true
}

/// Whether a text holds another somewhere.
pub open spec fn holds(s: Seq<char>, p: Seq<char>) -> bool {
    exists|i: int| 0 <= i <= s.len() && p.is_prefix_of(#[trigger] s.skip(i))
}

/// Whether a text holds another somewhere.
pub fn contains(s: &str, p: &str) -> (b: bool)
    ensures
        b == holds(s@, p@),
{
    let v = chars_of(s);
    let w = chars_of(p);
    let mut i: usize = 0;
    loop
        invariant
            v@ == s@,
            w@ == p@,
            i <= v@.len(),
            forall|j: int| 0 <= j < i ==> !p@.is_prefix_of(#[trigger] s@.skip(j)),
        decreases v@.len() - i,
    {
        if prefix_at(&v, i, &w) {
            assert(p@.is_prefix_of(s@.skip(i as int)));
            return true;
        }
        if i == v.len() {
            return false;
        }
        i += 1;
    }
}

/// What follows a prefix of a text, if it has that prefix.
pub open spec fn after_prefix(s: Seq<char>, p: Seq<char>) -> Option<Seq<char>> {
    if p.is_prefix_of(s) {
        Some(s.skip(p.len() as int))
    } else {
        None
    }
}

/// What follows a prefix of a text, if it has that prefix.
pub fn strip_prefix(s: &str, p: &str) -> (r: Option<String>)
    ensures
        crate::engine::text_model(r) == after_prefix(s@, p@),
{
    let v = chars_of(s);
    let w = chars_of(p);
    assert(v@.skip(0) =~= s@);
    if !prefix_at(&v, 0, &w) {
        return None;
    }
    let r = string_of(&v, w.len(), v.len());
    assert(r@ =~= s@.skip(p@.len() as int));
    Some(r)
}

/// Whether a text is one or more decimal digits.
pub open spec fn all_digits(s: Seq<char>) -> bool {
    s.len() > 0 && forall|i: int| 0 <= i < s.len() ==> '0' <= #[trigger] s[i] <= '9'
}

/// Whether a text is one or more decimal digits.
pub fn is_digits(s: &str) -> (b: bool)
    ensures
        b == all_digits(s@),
{
    let v = chars_of(s);
    let mut i: usize = 0;
    while i < v.len()
        invariant
            v@ == s@,
            i <= v@.len(),
            forall|j: int| 0 <= j < i ==> '0' <= #[trigger] s@[j] <= '9',
        decreases v@.len() - i,
    {
        if v[i] < '0' || v[i] > '9' {
            assert(!('0' <= s@[i as int] <= '9'));
            return false;
        }
        i += 1;
    }
    v.len() > 0
}

/// The number that a text spells: decimal digits, with a plus sign or none,
/// that fit a `u64`.
pub open spec fn number_of(s: Seq<char>) -> Option<u64> {
    let d = if s.len() > 0 && s[0] == '+' {
        s.skip(1)
    } else {
        s
    };
    if all_digits(d) && dec_value(d) <= u64::MAX {
        Some(dec_value(d) as u64)
    } else {
        None
    }
}

proof fn lemma_value_grows(d: Seq<char>, k: int)
    requires
        all_digits(d),
        0 <= k <= d.len(),
    ensures
        0 <= dec_value(d.take(k)) <= dec_value(d),
    decreases d.len() - k,
{
    lemma_value_nonnegative(d, k);
    if k < d.len() {
        lemma_value_grows(d, k + 1);
        assert(d.take(k + 1).drop_last() =~= d.take(k));
        assert(d.take(k + 1).last() == d[k]);
    } else {
        assert(d.take(k) =~= d);
    }
}

pub(crate) proof fn lemma_value_nonnegative(d: Seq<char>, k: int)
    requires
        all_digits(d),
        0 <= k <= d.len(),
    ensures
        dec_value(d.take(k)) >= 0,
    decreases k,
{
    if k > 0 {
        lemma_value_nonnegative(d, k - 1);
        assert(d.take(k).drop_last() =~= d.take(k - 1));
        assert(d.take(k).last() == d[k - 1]);
    }
}

/// The number that a text spells, if it does and the number fits a `u64`.
pub fn parse_u64(s: &str) -> (r: Option<u64>)
    ensures
        r == number_of(s@),
{
    let v = chars_of(s);
    let from: usize = if v.len() > 0 && v[0] == '+' { 1 } else { 0 };
    let ghost d = v@.skip(from as int);
    assert(from == 0 ==> d =~= s@);
    if from == v.len() {
        return None;
    }
    let mut n: u64 = 0;
    let mut i: usize = from;
    assert(d.take(0) =~= Seq::<char>::empty());
    while i < v.len()
        invariant
            v@ == s@,
            from <= i <= v@.len(),
            from < v@.len(),
            d == v@.skip(from as int),
            n == dec_value(d.take(i - from)),
            forall|j: int| 0 <= j < i - from ==> '0' <= #[trigger] d[j] <= '9',
            number_of(s@) == (if all_digits(d) && dec_value(d) <= u64::MAX {
                Some(dec_value(d) as u64)
            } else {
                None
            }),
        decreases v@.len() - i,
    {
        let c = v[i];
        assert(d[i - from] == c);
        if c < '0' || c > '9' {
            assert(!all_digits(d));
            return None;
        }
        let digit: u64 = (c as u8 - 48) as u64;
        proof {
            assert(d.take(i - from + 1).drop_last() =~= d.take(i - from));
            assert(d.take(i - from + 1).last() == c);
        }
        if n > (u64::MAX - digit) / 10 {
            proof {
                if all_digits(d) {
                    lemma_value_grows(d, i - from + 1);
                }
            }
            return None;
        }
        n = n * 10 + digit;
        i += 1;
    }
    assert(d.take(i - from) =~= d);
    Some(n)
}

/// A text with every repetition of `p` taken off its end.
pub open spec fn trimmed_suffix(s: Seq<char>, p: Seq<char>) -> Seq<char>
    decreases s.len(),
{
    if p.len() > 0 && p.len() <= s.len() && s.skip(s.len() - p.len()) == p {
        trimmed_suffix(s.take(s.len() - p.len()), p)
    } else {
        s
    }
}

/// A text with every repetition of the non-empty `p` taken off its end.
pub fn trim_end_matches(s: &str, p: &str) -> (r: String)
    requires
        p@.len() > 0,
    ensures
        r@ == trimmed_suffix(s@, p@),
{
    let v = chars_of(s);
    let w = chars_of(p);
    let mut end: usize = v.len();
    assert(v@.take(end as int) =~= s@);
    loop
        invariant
            v@ == s@,
            w@ == p@,
            w@.len() > 0,
            end <= v@.len(),
            trimmed_suffix(v@.take(end as int), p@) == trimmed_suffix(s@, p@),
        decreases end,
    {
        let ghost cur = v@.take(end as int);
        if w.len() > end {
            return string_of_prefix(&v, end);
        }
        let from: usize = end - w.len();
        let mut i: usize = 0;
        while i < w.len()
            invariant
                i <= w@.len(),
                w@ == p@,
                from + w@.len() == end,
                end <= v@.len(),
                cur == v@.take(end as int),
                trimmed_suffix(cur, p@) == trimmed_suffix(s@, p@),
                forall|j: int| 0 <= j < i ==> cur.skip(from as int)[j] == w@[j],
            decreases w@.len() - i,
        {
            if v[from + i] != w[i] {
                assert(cur.skip(from as int)[i as int] != p@[i as int]);
                assert(cur.skip(cur.len() - p@.len()) != p@);
                return string_of_prefix(&v, end);
            }
            i += 1;
        }
        assert(cur.skip(from as int) =~= p@);
        assert(cur.take(from as int) =~= v@.take(from as int));
        end = from;
    }
}

fn string_of_prefix(v: &Vec<char>, end: usize) -> (r: String)
    requires
        end <= v@.len(),
    ensures
        r@ == v@.take(end as int),
{
    let r = string_of(v, 0, end);
    assert(r@ =~= v@.take(end as int));
    r
}

/// What stands between the first and the second colon of a line, or behind the
/// only one; nothing where there is no colon.
pub open spec fn second_field(s: Seq<char>) -> Option<Seq<char>> {
    let k = index_of(s, ':');
    if k >= s.len() {
        None
    } else {
        let rest = s.skip((k + 1) as int);
        Some(rest.take(index_of(rest, ':') as int))
    }
}

/// What stands between the first and the second colon of a line, or behind the
/// only one.
pub fn field_after_colon(s: &str) -> (r: Option<String>)
    ensures
        crate::engine::text_model(r) == second_field(s@),
{
    let v = chars_of(s);
    assert(v@.skip(0) =~= s@);
    let k: usize = find_char(&v, 0, ':');
    if k == v.len() {
        return None;
    }
    let end: usize = find_char(&v, k + 1, ':');
    let r = string_of(&v, k + 1, end);
    proof {
        let rest = s@.skip(k + 1);
        assert(r@ =~= rest.take(end - (k + 1)));
    }
    Some(r)
}

} // verus!
