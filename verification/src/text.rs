//! Text building and scanning shared by the other modules.
//!
//! Contracts speak of a string as its sequence of characters.

use vstd::prelude::*;
use vstd::string::StringExecFns;

verus! {

/// `String::push` of std: the character goes to the end of the string.
pub assume_specification[ String::push ](s: &mut String, c: char)
    ensures
        final(s)@ == old(s)@.push(c),
;

/// `String::pop` of std: the last character is taken off and handed out, if
/// there is one.
pub assume_specification[ String::pop ](s: &mut String) -> (c: Option<char>)
    ensures
        old(s)@.len() == 0 ==> c is None && final(s)@ == old(s)@,
        old(s)@.len() > 0 ==> c == Some(old(s)@.last()) && final(s)@ == old(s)@.drop_last(),
;

/// The decimal digit `d` (0 to 9) as a character.
pub open spec fn digit_char(d: nat) -> char {
    (48 + d) as u8 as char
}

/// `n` written in decimal, without leading zeros.
pub open spec fn dec(n: nat) -> Seq<char>
    decreases n,
{
    if n < 10 {
        seq![digit_char(n)]
    } else {
        dec(n / 10).push(digit_char(n % 10))
    }
}

/// `n` in decimal, padded with zeros on the left to at least two digits.
pub open spec fn dec2(n: nat) -> Seq<char> {
    if n < 10 {
        seq!['0', digit_char(n)]
    } else {
        dec(n)
    }
}

/// The upper-case hexadecimal digit `d` (0 to 15) as a character.
pub open spec fn hex_digit_upper(d: nat) -> char {
    if d < 10 {
        (48 + d) as u8 as char
    } else {
        (55 + d) as u8 as char
    }
}

/// The lower-case hexadecimal digit `d` (0 to 15) as a character.
pub open spec fn hex_digit_lower(d: nat) -> char {
    if d < 10 {
        (48 + d) as u8 as char
    } else {
        (87 + d) as u8 as char
    }
}

/// A byte as two upper-case hexadecimal digits.
pub open spec fn hex2_upper(b: u8) -> Seq<char> {
    seq![hex_digit_upper((b / 16) as nat), hex_digit_upper((b % 16) as nat)]
}

/// A byte as two lower-case hexadecimal digits.
pub open spec fn hex2_lower(b: u8) -> Seq<char> {
    seq![hex_digit_lower((b / 16) as nat), hex_digit_lower((b % 16) as nat)]
}

/// Appends `n` in decimal to `s`.
pub fn push_dec(s: &mut String, n: u64)
    ensures
        final(s)@ == old(s)@ + dec(n as nat),
    decreases n,
{
    let ghost before = s@;
    if n >= 10 {
        push_dec(s, n / 10);
    }
    let d: u8 = (n % 10) as u8;
    s.push((48 + d) as char);
    assert(s@ =~= before + dec(n as nat));
}

/// Appends `n` in decimal to `s`, zero-padded to two digits.
pub fn push_dec2(s: &mut String, n: u64)
    ensures
        final(s)@ == old(s)@ + dec2(n as nat),
{
    let ghost before = s@;
    if n < 10 {
        s.push('0');
    }
    push_dec(s, n);
    proof {
        if n < 10 {
            assert(s@ =~= before + dec2(n as nat));
        }
    }
}

/// Appends the string `t` to `s`.
pub fn push_text(s: &mut String, t: &str)
    ensures
        final(s)@ == old(s)@ + t@,
{
    s.append(t);
}

/// Appends a byte to `s` as two upper-case hexadecimal digits.
pub fn push_hex2_upper(s: &mut String, b: u8)
    ensures
        final(s)@ == old(s)@ + hex2_upper(b),
{
    let ghost before = s@;
    let hi: u8 = b / 16;
    let lo: u8 = b % 16;
    s.push(if hi < 10 { (48 + hi) as char } else { (55 + hi) as char });
    s.push(if lo < 10 { (48 + lo) as char } else { (55 + lo) as char });
    assert(s@ =~= before + hex2_upper(b));
}

/// Appends a byte to `s` as two lower-case hexadecimal digits.
pub fn push_hex2_lower(s: &mut String, b: u8)
    ensures
        final(s)@ == old(s)@ + hex2_lower(b),
{
    let ghost before = s@;
    let hi: u8 = b / 16;
    let lo: u8 = b % 16;
    s.push(if hi < 10 { (48 + hi) as char } else { (87 + hi) as char });
    s.push(if lo < 10 { (48 + lo) as char } else { (87 + lo) as char });
    assert(s@ =~= before + hex2_lower(b));
}

/// Whether two strings hold the same characters.
pub fn same(a: &str, b: &str) -> (r: bool)
    ensures
        r == (a@ == b@),
{
    a.to_owned() == b.to_owned()
}

/// The characters of `s` in order.
pub fn chars_of(s: &str) -> (v: Vec<char>)
    ensures
        v@ == s@,
{
    let mut v: Vec<char> = Vec::new();
    for c in it: s.chars()
        invariant
            v@ == it.seq().take(it.index()),
            it.seq() == s@,
    {
        v.push(c);
    }
    assert(v@ =~= s@);
    v
}

/// A string of the characters `v[from..to]`.
pub fn string_of(v: &Vec<char>, from: usize, to: usize) -> (s: String)
    requires
        from <= to <= v@.len(),
    ensures
        s@ == v@.subrange(from as int, to as int),
{
    let mut s = String::new();
    let mut i: usize = from;
    while i < to
        invariant
            from <= i <= to <= v@.len(),
            s@ == v@.subrange(from as int, i as int),
        decreases to - i,
    {
        s.push(v[i]);
        i += 1;
        assert(s@ =~= v@.subrange(from as int, i as int));
    }
    s
}

/// The number that a sequence of decimal digits stands for.
pub open spec fn dec_value(s: Seq<char>) -> int
    decreases s.len(),
{
    if s.len() == 0 {
        0
    } else {
        dec_value(s.drop_last()) * 10 + (s.last() as u32 - 48)
    }
}

/// Reading back a written number gives the number.
pub proof fn lemma_dec_value(n: nat)
    ensures
        dec_value(dec(n)) == n,
        dec(n).len() >= 1,
    decreases n,
{
    if n >= 10 {
        lemma_dec_value(n / 10);
        assert(dec(n).drop_last() =~= dec(n / 10));
    } else {
        assert(dec(n).drop_last() =~= Seq::<char>::empty());
        assert(dec_value(Seq::<char>::empty()) == 0);
    }
}

} // verus!
