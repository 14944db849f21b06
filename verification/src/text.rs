//! Text helpers: digit rendering, key building and whitespace-separated words.

use vstd::prelude::*;
use vstd::string::*;
use vstd::utf8::encode_utf8;
use vstd::arithmetic::power::{pow, lemma_pow_positive};
use vstd::arithmetic::div_mod::lemma_mod_breakdown;

verus! {

/// The character of a digit value below 16 (lower-case letters past 9).
pub open spec fn digit_char_spec(d: int) -> char {
    if d == 0 { '0' }
    else if d == 1 { '1' }
    else if d == 2 { '2' }
    else if d == 3 { '3' }
    else if d == 4 { '4' }
    else if d == 5 { '5' }
    else if d == 6 { '6' }
    else if d == 7 { '7' }
    else if d == 8 { '8' }
    else if d == 9 { '9' }
    else if d == 10 { 'a' }
    else if d == 11 { 'b' }
    else if d == 12 { 'c' }
    else if d == 13 { 'd' }
    else if d == 14 { 'e' }
    else { 'f' }
}

/// `n` written in decimal with no leading zeros (`"0"` for zero).
pub open spec fn decimal(n: nat) -> Seq<char>
    decreases n,
{
    if n < 10 {
        seq![digit_char_spec(n as int)]
    } else {
        decimal(n / 10).push(digit_char_spec((n % 10) as int))
    }
}

/// The lowest `width` digits of `n` in base `base`, most significant first,
/// with leading zeros: for `n < base^width` this is `n` zero-padded to `width`.
pub open spec fn fixed_digits(n: nat, base: nat, width: nat) -> Seq<char>
    decreases width,
{
    if width == 0 {
        Seq::empty()
    } else {
        fixed_digits(n / base, base, (width - 1) as nat).push(digit_char_spec((n % base) as int))
    }
}

/// Rendering with a fixed width gives exactly that many digits.
pub proof fn lemma_fixed_digits_len(n: nat, base: nat, width: nat)
    requires
        base >= 2,
    ensures
        fixed_digits(n, base, width).len() == width,
    decreases width,
{
    if width > 0 {
        lemma_fixed_digits_len(n / base, base, (width - 1) as nat);
        let w1 = (width - 1) as nat;
        let prev = fixed_digits(n / base, base, w1);
        let d = digit_char_spec((n % base) as int);
        assert(fixed_digits(n, base, width) == prev.push(d));
        assert(prev.push(d).len() == prev.len() + 1);
    }
}

/// The value of a digit character (the inverse of `digit_char_spec` on 0..16).
pub open spec fn digit_value(c: char) -> int {
    if '0' <= c <= '9' {
        c as int - '0' as int
    } else if 'a' <= c <= 'f' {
        c as int - 'a' as int + 10
    } else {
        -1
    }
}

/// The number that a digit string stands for in base `base`, most
/// significant digit first.
pub open spec fn digits_value(s: Seq<char>, base: int) -> int
    decreases s.len(),
{
    if s.len() == 0 {
        0
    } else {
        digits_value(s.drop_last(), base) * base + digit_value(s.last())
    }
}

proof fn lemma_digit_roundtrip(d: int)
    requires
        0 <= d < 16,
    ensures
        digit_value(digit_char_spec(d)) == d,
{
}

/// Read back in its base, a fixed-width rendering of `n` is `n` modulo
/// `base^width`: for `n < base^width` the digits spell `n` exactly.
pub proof fn lemma_fixed_digits_value(n: nat, base: nat, width: nat)
    requires
        2 <= base <= 16,
    ensures
        digits_value(fixed_digits(n, base, width), base as int) == (n as int) % pow(base as int, width),
    decreases width,
{
    reveal(pow);
    if width == 0 {
        assert((n as int) % 1 == 0);
    } else {
        let w1 = (width - 1) as nat;
        lemma_fixed_digits_value(n / base, base, w1);
        let prev = fixed_digits(n / base, base, w1);
        let d = digit_char_spec((n % base) as int);
        assert(fixed_digits(n, base, width) == prev.push(d));
        assert(prev.push(d).drop_last() =~= prev);
        lemma_digit_roundtrip((n % base) as int);
        lemma_pow_positive(base as int, w1);
        lemma_mod_breakdown(n as int, base as int, pow(base as int, w1));
        assert(pow(base as int, width) == base * pow(base as int, w1));
        let m = pow(base as int, w1);
        let q = (n as int) / (base as int);
        assert((q % m) * base == base * (q % m)) by (nonlinear_arith);
        assert(digits_value(prev.push(d), base as int) == digits_value(prev, base as int) * base
            + digit_value(d));
    }
}

/// Read back in base 10, the decimal rendering of `n` is `n`, and it starts
/// with a zero only when `n` is zero.
pub proof fn lemma_decimal_value(n: nat)
    ensures
        digits_value(decimal(n), 10) == n,
        decimal(n).len() >= 1,
        decimal(n)[0] == '0' <==> n == 0,
    decreases n,
{
    if n < 10 {
        lemma_digit_roundtrip(n as int);
        let one = seq![digit_char_spec(n as int)];
        assert(one.drop_last() =~= Seq::<char>::empty());
        assert(digits_value(one, 10) == digits_value(Seq::<char>::empty(), 10) * 10 + digit_value(
            one.last(),
        ));
    } else {
        lemma_decimal_value(n / 10);
        let prev = decimal(n / 10);
        let d = digit_char_spec((n % 10) as int);
        assert(prev.push(d).drop_last() =~= prev);
        lemma_digit_roundtrip((n % 10) as int);
        assert(prev.push(d)[0] == prev[0]);
        assert(decimal(n) == prev.push(d));
        assert((n / 10) * 10 + n % 10 == n) by (nonlinear_arith);
        assert(digits_value(prev.push(d), 10) == digits_value(prev, 10) * 10 + digit_value(d));
    }
}

/// The 16 lower-case hexadecimal digits of a 64-bit value, zero-padded.
pub open spec fn hex16(x: u64) -> Seq<char> {
    fixed_digits(x as nat, 16, 16)
}

fn digit_char(d: u64) -> (c: char)
    requires
        d < 16,
    ensures
        c == digit_char_spec(d as int),
{
    match d {
        0 => '0',
        1 => '1',
        2 => '2',
        3 => '3',
        4 => '4',
        5 => '5',
        6 => '6',
        7 => '7',
        8 => '8',
        9 => '9',
        10 => 'a',
        11 => 'b',
        12 => 'c',
        13 => 'd',
        14 => 'e',
        _ => 'f',
    }
}

/// Appends one character to a string (`String::push`).
#[verifier::external_body]
pub(crate) fn push_char(s: &mut String, c: char)
    ensures
        final(s)@ == old(s)@.push(c),
{
    s.push(c);
}

/// Appends `n` in decimal to `s`.
pub fn push_decimal(s: &mut String, n: u64)
    ensures
        final(s)@ == old(s)@ + decimal(n as nat),
    decreases n,
{
    if n >= 10 {
        push_decimal(s, n / 10);
    }
    push_char(s, digit_char(n % 10));
    proof {
        if n < 10 {
            assert(decimal(n as nat) =~= seq![digit_char_spec(n as int)]);
        }
    }
}

/// Appends the lowest `width` digits of `n` in `base` to `s`, zero-padded.
pub fn push_fixed_digits(s: &mut String, n: u64, base: u64, width: u32)
    requires
        2 <= base <= 16,
    ensures
        final(s)@ == old(s)@ + fixed_digits(n as nat, base as nat, width as nat),
    decreases width,
{
    if width > 0 {
        push_fixed_digits(s, n / base, base, width - 1);
        push_char(s, digit_char(n % base));
    }
}

/// Appends the bytes of `bytes` to `v`.
pub fn extend_bytes(v: &mut Vec<u8>, bytes: &[u8])
    ensures
        final(v)@ == old(v)@ + bytes@,
{
    let mut i: usize = 0;
    while i < bytes.len()
        invariant
            i <= bytes@.len(),
            v@ == old(v)@ + bytes@.take(i as int),
        decreases bytes@.len() - i,
    {
        v.push(bytes[i]);
        proof {
            assert(bytes@.take(i + 1) =~= bytes@.take(i as int).push(bytes@[i as int]));
        }
        i += 1;
    }
    proof {
        assert(bytes@.take(bytes@.len() as int) =~= bytes@);
    }
}

/// The UTF-8 bytes of `parts` joined with `:` between them.
pub open spec fn colon_joined(parts: Seq<Seq<char>>) -> Seq<u8>
    decreases parts.len(),
{
    if parts.len() == 0 {
        Seq::empty()
    } else if parts.len() == 1 {
        encode_utf8(parts[0])
    } else {
        colon_joined(parts.drop_last()) + seq![0x3Au8] + encode_utf8(parts.last())
    }
}

/// `first:second` as UTF-8 bytes.
pub fn colon_join2(first: &str, second: &str) -> (key: Vec<u8>)
    ensures
        key@ == colon_joined(seq![first@, second@]),
{
    let mut key: Vec<u8> = Vec::new();
    extend_bytes(&mut key, first.as_bytes());
    key.push(0x3Au8);
    extend_bytes(&mut key, second.as_bytes());
    proof {
        let parts = seq![first@, second@];
        assert(parts.drop_last() =~= seq![first@]);
        assert(colon_joined(seq![first@]) == encode_utf8(first@));
    }
    key
}

/// `first:second:third` as UTF-8 bytes.
pub fn colon_join3(first: &str, second: &str, third: &str) -> (key: Vec<u8>)
    ensures
        key@ == colon_joined(seq![first@, second@, third@]),
{
    let mut key = colon_join2(first, second);
    key.push(0x3Au8);
    extend_bytes(&mut key, third.as_bytes());
    proof {
        let parts = seq![first@, second@, third@];
        assert(parts.drop_last() =~= seq![first@, second@]);
        assert(parts.last() == third@);
    }
    key
}


/// The Unicode `White_Space` characters (what `char::is_whitespace` accepts).
pub open spec fn is_whitespace_spec(c: char) -> bool {
    let v = c as u32;
    ||| 0x09 <= v <= 0x0D
    ||| v == 0x20
    ||| v == 0x85
    ||| v == 0xA0
    ||| v == 0x1680
    ||| 0x2000 <= v <= 0x200A
    ||| v == 0x2028
    ||| v == 0x2029
    ||| v == 0x202F
    ||| v == 0x205F
    ||| v == 0x3000
}

/// Whether `c` is a Unicode white-space character.
pub fn is_whitespace(c: char) -> (b: bool)
    ensures
        b == is_whitespace_spec(c),
{
    let v = c as u32;
    (0x09 <= v && v <= 0x0D) || v == 0x20 || v == 0x85 || v == 0xA0 || v == 0x1680 || (0x2000
        <= v && v <= 0x200A) || v == 0x2028 || v == 0x2029 || v == 0x202F || v == 0x205F || v
        == 0x3000
}

/// The first position at or after `i` that is not white space (or the length).
pub open spec fn skip_whitespace(s: Seq<char>, i: int) -> int
    decreases s.len() - i,
{
    if 0 <= i < s.len() && is_whitespace_spec(s[i]) {
        skip_whitespace(s, i + 1)
    } else {
        i
    }
}

/// The first position at or after `i` that is white space (or the length).
pub open spec fn skip_word(s: Seq<char>, i: int) -> int
    decreases s.len() - i,
{
    if 0 <= i < s.len() && !is_whitespace_spec(s[i]) {
        skip_word(s, i + 1)
    } else {
        i
    }
}

/// The first maximal run of non-white-space characters of `s`, if any.
pub open spec fn first_word_spec(s: Seq<char>) -> Option<Seq<char>> {
    let start = skip_whitespace(s, 0);
    if start < s.len() {
        Some(s.subrange(start, skip_word(s, start)))
    } else {
        None
    }
}

proof fn lemma_skip_whitespace_bounds(s: Seq<char>, i: int)
    requires
        0 <= i <= s.len(),
    ensures
        i <= skip_whitespace(s, i) <= s.len(),
    decreases s.len() - i,
{
    if i < s.len() && is_whitespace_spec(s[i]) {
        lemma_skip_whitespace_bounds(s, i + 1);
    }
}

/// The first white-space separated word of `s` (what `split_whitespace`
/// yields first), or `None` when `s` holds only white space.
pub fn first_word(s: &str) -> (w: Option<&str>)
    ensures
        match w {
            Some(word) => first_word_spec(s@) == Some(word@),
            None => first_word_spec(s@) is None,
        },
{
    let n = s.unicode_len();
    let mut i: usize = 0;
    while i < n && is_whitespace(s.get_char(i))
        invariant
            n == s@.len(),
            i <= n,
            skip_whitespace(s@, i as int) == skip_whitespace(s@, 0),
        decreases n - i,
    {
        i += 1;
    }
    proof {
        lemma_skip_whitespace_bounds(s@, 0);
    }
    if i >= n {
        return None;
    }
    let start = i;
    while i < n && !is_whitespace(s.get_char(i))
        invariant
            n == s@.len(),
            start <= i <= n,
            skip_word(s@, i as int) == skip_word(s@, start as int),
        decreases n - i,
    {
        i += 1;
    }
    Some(s.substring_char(start, i))
}

} // verus!
