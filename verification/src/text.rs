//! Verified text rendering: decimal numerals, zero padding, and hexadecimal.
//!
//! These are the string-producing primitives the decode cascade is built on.

use vstd::prelude::*;

verus! {

/// The decimal digit character for a value in `0..10`.
pub open spec fn digit_char(d: int) -> char {
    if d == 0 {
        '0'
    } else if d == 1 {
        '1'
    } else if d == 2 {
        '2'
    } else if d == 3 {
        '3'
    } else if d == 4 {
        '4'
    } else if d == 5 {
        '5'
    } else if d == 6 {
        '6'
    } else if d == 7 {
        '7'
    } else if d == 8 {
        '8'
    } else {
        '9'
    }
}

/// Decimal numeral of a non-negative integer, most significant digit first,
/// with no leading zeros (`0` itself renders as `"0"`).
pub open spec fn dec_rep(n: nat) -> Seq<char>
    decreases n,
{
    if n < 10 {
        seq![digit_char(n as int)]
    } else {
        dec_rep(n / 10) + seq![digit_char((n % 10) as int)]
    }
}

/// Decimal numeral of a signed integer: a leading `-` for negative values.
pub open spec fn int_rep(n: int) -> Seq<char> {
    if n < 0 {
        seq!['-'] + dec_rep((-n) as nat)
    } else {
        dec_rep(n as nat)
    }
}

/// A one-character string slice for a decimal digit.
fn digit_str(d: u8) -> (r: &'static str)
    requires
        d < 10,
    ensures
        r@ =~= seq![digit_char(d as int)],
{
    proof {
        reveal_strlit("0");
        reveal_strlit("1");
        reveal_strlit("2");
        reveal_strlit("3");
        reveal_strlit("4");
        reveal_strlit("5");
        reveal_strlit("6");
        reveal_strlit("7");
        reveal_strlit("8");
        reveal_strlit("9");
    }
    match d {
        0 => "0",
        1 => "1",
        2 => "2",
        3 => "3",
        4 => "4",
        5 => "5",
        6 => "6",
        7 => "7",
        8 => "8",
        _ => "9",
    }
}

/// Renders an unsigned integer as its decimal numeral.
pub fn u64_to_dec(n: u64) -> (r: String)
    ensures
        r@ == dec_rep(n as nat),
    decreases n,
{
    if n < 10 {
        let r = String::from_str(digit_str(n as u8));
        proof {
            assert(r@ =~= dec_rep(n as nat));
        }
        r
    } else {
        let mut r = u64_to_dec(n / 10);
        r.append(digit_str((n % 10) as u8));
        proof {
            assert(r@ =~= dec_rep(n as nat));
        }
        r
    }
}

/// `s` left-padded with `'0'` up to width `w`; unchanged when already wide enough.
pub open spec fn zero_pad(s: Seq<char>, w: int) -> Seq<char> {
    if s.len() >= w {
        s
    } else {
        Seq::new((w - s.len()) as nat, |i: int| '0') + s
    }
}

/// Renders an unsigned integer as a decimal numeral left-padded with zeros
/// to at least `width` characters.
pub fn u64_to_dec_pad(n: u64, width: usize) -> (r: String)
    ensures
        r@ == zero_pad(dec_rep(n as nat), width as int),
{
    let digits = u64_to_dec(n);
    let mut r = String::new();
    let len = digits.as_str().unicode_len();
    if len < width {
        let mut k: usize = 0;
        let pad: usize = width - len;
        while k < pad
            invariant
                k <= pad,
                r@ =~= Seq::new(k as nat, |i: int| '0'),
            decreases pad - k,
        {
            r.append("0");
            proof {
                reveal_strlit("0");
                assert(r@ =~= Seq::new((k + 1) as nat, |i: int| '0'));
            }
            k = k + 1;
        }
    }
    r.append(digits.as_str());
    proof {
        assert(r@ =~= zero_pad(dec_rep(n as nat), width as int));
    }
    r
}

/// The lower-case hexadecimal digit character for a value in `0..16`.
pub open spec fn hex_digit(d: int) -> char {
    if d < 10 {
        digit_char(d)
    } else if d == 10 {
        'a'
    } else if d == 11 {
        'b'
    } else if d == 12 {
        'c'
    } else if d == 13 {
        'd'
    } else if d == 14 {
        'e'
    } else {
        'f'
    }
}

/// Two lower-case hexadecimal digits for one byte.
pub open spec fn byte_hex(b: u8) -> Seq<char> {
    seq![hex_digit(b as int / 16), hex_digit(b as int % 16)]
}

/// Hexadecimal rendering of the byte suffix starting at index `i`.
pub open spec fn hex_rep_from(bs: Seq<u8>, i: int) -> Seq<char>
    decreases bs.len() - i,
{
    if i < 0 || i >= bs.len() {
        Seq::empty()
    } else {
        byte_hex(bs[i]) + hex_rep_from(bs, i + 1)
    }
}

/// Lower-case hexadecimal rendering of a byte sequence, two digits per byte.
pub open spec fn hex_rep(bs: Seq<u8>) -> Seq<char> {
    hex_rep_from(bs, 0)
}

/// A one-character string slice for a lower-case hexadecimal digit.
pub(crate) fn hex_digit_str(d: u8) -> (r: &'static str)
    requires
        d < 16,
    ensures
        r@ =~= seq![hex_digit(d as int)],
{
    if d < 10 {
        digit_str(d)
    } else {
        proof {
            reveal_strlit("a");
            reveal_strlit("b");
            reveal_strlit("c");
            reveal_strlit("d");
            reveal_strlit("e");
            reveal_strlit("f");
        }
        match d {
            10 => "a",
            11 => "b",
            12 => "c",
            13 => "d",
            14 => "e",
            _ => "f",
        }
    }
}

/// Renders bytes as lower-case hexadecimal, two digits per byte.
pub fn bytes_to_hex(bs: &Vec<u8>) -> (r: String)
    ensures
        r@ == hex_rep(bs@),
{
    let mut r = String::new();
    let mut i: usize = 0;
    while i < bs.len()
        invariant
            i <= bs@.len(),
            hex_rep(bs@) =~= r@ + hex_rep_from(bs@, i as int),
        decreases bs@.len() - i,
    {
        let b = bs[i];
        r.append(hex_digit_str(b / 16));
        r.append(hex_digit_str(b % 16));
        proof {
            assert(byte_hex(b) =~= seq![hex_digit(b as int / 16)] + seq![
                hex_digit(b as int % 16),
            ]);
        }
        i = i + 1;
    }
    proof {
        assert(hex_rep(bs@) =~= r@);
    }
    r
}

/// Renders a signed integer as its decimal numeral.
pub fn i64_to_dec(n: i64) -> (r: String)
    ensures
        r@ == int_rep(n as int),
{
    if n >= 0 {
        u64_to_dec(n as u64)
    } else {
        let m: i128 = -(n as i128);
        let mut r = String::from_str("-");
        r.append(u64_to_dec(m as u64).as_str());
        proof {
            reveal_strlit("-");
            assert(r@ =~= int_rep(n as int));
        }
        r
    }
}

} // verus!
