use vstd::prelude::*;
use vstd::string::StrSliceExecFns;

verus! {

/// Lower-case hexadecimal digit of a value below 16.
pub open spec fn lower_hex_digit(d: nat) -> char {
    seq!['0', '1', '2', '3', '4', '5', '6', '7', '8', '9', 'a', 'b', 'c', 'd', 'e', 'f'][d as int]
}

/// Upper-case hexadecimal digit of a value below 16.
pub open spec fn upper_hex_digit(d: nat) -> char {
    seq!['0', '1', '2', '3', '4', '5', '6', '7', '8', '9', 'A', 'B', 'C', 'D', 'E', 'F'][d as int]
}

/// Decimal digit of a value below 10.
pub open spec fn dec_digit(d: nat) -> char {
    seq!['0', '1', '2', '3', '4', '5', '6', '7', '8', '9'][d as int]
}

/// Lower-case hexadecimal form of `n`, without leading zeros (as `{:x}` prints it).
pub open spec fn hex_digits(n: nat) -> Seq<char>
    decreases n,
{
    if n < 16 {
        seq![lower_hex_digit(n)]
    } else {
        hex_digits(n / 16).push(lower_hex_digit(n % 16))
    }
}

/// Upper-case hexadecimal form of `n`, without leading zeros (as `{:X}` prints it).
pub open spec fn upper_hex_digits(n: nat) -> Seq<char>
    decreases n,
{
    if n < 16 {
        seq![upper_hex_digit(n)]
    } else {
        upper_hex_digits(n / 16).push(upper_hex_digit(n % 16))
    }
}

/// Decimal form of `n`, without leading zeros (as `{}` prints it).
pub open spec fn dec_digits(n: nat) -> Seq<char>
    decreases n,
{
    if n < 10 {
        seq![dec_digit(n)]
    } else {
        dec_digits(n / 10).push(dec_digit(n % 10))
    }
}

/// Decimal form of a signed value, with a leading '-' when negative.
pub open spec fn signed_dec_digits(v: int) -> Seq<char> {
    if v < 0 {
        seq!['-'] + dec_digits((-v) as nat)
    } else {
        dec_digits(v as nat)
    }
}

/// `s` padded on the left with '0' to at least `w` characters (as `{:0w}` pads).
pub open spec fn zero_pad(s: Seq<char>, w: nat) -> Seq<char> {
    if s.len() >= w {
        s
    } else {
        Seq::new((w - s.len()) as nat, |i: int| '0') + s
    }
}

/// Lower-case hexadecimal, zero padded to four digits (as `{:04x}` prints it).
pub open spec fn hex4(n: nat) -> Seq<char> {
    zero_pad(hex_digits(n), 4)
}

/// Appends one character to a string by calling `String::push`; the contract claims
/// that the string's characters are the old ones followed by `c`.
#[verifier::external_body]
pub(crate) fn push_char(s: &mut String, c: char)
    ensures
        final(s)@ == old(s)@.push(c),
{
    s.push(c);
}

fn digit_char(d: u64, upper: bool) -> (c: char)
    requires
        d < 16,
    ensures
        upper ==> c == upper_hex_digit(d as nat),
        !upper ==> c == lower_hex_digit(d as nat),
        d < 10 ==> c == dec_digit(d as nat),
{
    match d {
        0 => '0',
        1 => '1',
        2 => '2',
        3 => '3',
        4 => '4',
        5 => '5',
        6 => '6',
        7 => '7',
        8 => '8',
        9 => '9',
        10 => if upper { 'A' } else { 'a' },
        11 => if upper { 'B' } else { 'b' },
        12 => if upper { 'C' } else { 'c' },
        13 => if upper { 'D' } else { 'd' },
        14 => if upper { 'E' } else { 'e' },
        _ => if upper { 'F' } else { 'f' },
    }
}

/// Appends the lower-case hexadecimal form of `n`.
pub fn push_hex(s: &mut String, n: u64)
    ensures
        final(s)@ == old(s)@ + hex_digits(n as nat),
    decreases n,
{
    if n >= 16 {
        push_hex(s, n / 16);
    }
    push_char(s, digit_char(n % 16, false));
}

/// Appends the upper-case hexadecimal form of `n`.
pub fn push_upper_hex(s: &mut String, n: u64)
    ensures
        final(s)@ == old(s)@ + upper_hex_digits(n as nat),
    decreases n,
{
    if n >= 16 {
        push_upper_hex(s, n / 16);
    }
    push_char(s, digit_char(n % 16, true));
}

/// Appends the decimal form of `n`.
pub fn push_dec(s: &mut String, n: u64)
    ensures
        final(s)@ == old(s)@ + dec_digits(n as nat),
    decreases n,
{
    if n >= 10 {
        push_dec(s, n / 10);
    }
    push_char(s, digit_char(n % 10, false));
}

/// Appends the decimal form of a signed value.
pub fn push_signed_dec(s: &mut String, v: i64)
    ensures
        final(s)@ == old(s)@ + signed_dec_digits(v as int),
{
    if v < 0 {
        push_char(s, '-');
        let m: u64 = if v == i64::MIN { 9223372036854775808u64 } else { (-v) as u64 };
        push_dec(s, m);
        assert(final(s)@ =~= old(s)@ + signed_dec_digits(v as int)) by {
            assert(s@ =~= old(s)@ + seq!['-'] + dec_digits(m as nat));
        }
    } else {
        push_dec(s, v as u64);
    }
}

/// Appends `n` in lower-case hexadecimal, zero padded to `w` digits.
pub fn push_hex_padded(s: &mut String, n: u64, w: usize)
    ensures
        final(s)@ == old(s)@ + zero_pad(hex_digits(n as nat), w as nat),
{
    let mut t = String::new();
    push_hex(&mut t, n);
    let len = t.as_str().unicode_len();
    let ghost start = s@;
    let mut i = len;
    while i < w
        invariant
            len == hex_digits(n as nat).len(),
            len <= i <= w || (len > w && i == len),
            s@ == start + Seq::new((i - len) as nat, |k: int| '0'),
        decreases w - i,
    {
        push_char(s, '0');
        i = i + 1;
        assert(s@ =~= start + Seq::new((i - len) as nat, |k: int| '0'));
    }
    s.append(t.as_str());
    if len >= w {
        assert(s@ =~= start + hex_digits(n as nat));
    } else {
        assert(s@ =~= start + zero_pad(hex_digits(n as nat), w as nat));
    }
}

} // verus!
