//! Building display text: hexadecimal and decimal renderings of integers.

use vstd::prelude::*;
use vstd::string::StringExecFns;

verus! {

/// Appends one character to a `String`.
///
/// Calls `String::push`, which appends the character to the end of the string (trusted).
#[verifier::external_body]
pub fn push_char(s: &mut String, c: char)
    ensures
        final(s)@ == old(s)@.push(c),
{
    s.push(c);
}

/// Appends a string slice to a `String`.
pub fn push_str(s: &mut String, t: &str)
    ensures
        final(s)@ == old(s)@ + t@,
{
    s.append(t);
}

/// The lowercase hexadecimal digit for `d` (which is less than 16).
pub open spec fn hex_digit(d: int) -> char {
    if d < 10 {
        (('0' as int) + d) as char
    } else {
        (('a' as int) + d - 10) as char
    }
}

/// The decimal digit for `d` (which is less than 10).
pub open spec fn dec_digit(d: int) -> char {
    (('0' as int) + d) as char
}

/// The lowest `width` hexadecimal digits of `v`, most significant first (zero-padded).
pub open spec fn hex_chars(v: nat, width: nat) -> Seq<char>
    decreases width,
{
    if width == 0 {
        Seq::empty()
    } else {
        hex_chars(v / 16, (width - 1) as nat).push(hex_digit((v % 16) as int))
    }
}

/// The number of hexadecimal digits needed to write `v` (at least one).
pub open spec fn hex_width(v: nat) -> nat
    decreases v,
{
    if v < 16 {
        1
    } else {
        1 + hex_width(v / 16)
    }
}

/// `v` written in hexadecimal, with at least `min_width` digits (padded with zeros).
pub open spec fn hex_padded(v: nat, min_width: nat) -> Seq<char> {
    if hex_width(v) < min_width {
        hex_chars(v, min_width)
    } else {
        hex_chars(v, hex_width(v))
    }
}

/// `v` written in decimal, without leading zeros.
pub open spec fn dec_chars(v: nat) -> Seq<char>
    decreases v,
{
    if v < 10 {
        seq![dec_digit(v as int)]
    } else {
        dec_chars(v / 10).push(dec_digit((v % 10) as int))
    }
}

/// A signed integer written in decimal, with a leading `-` when negative.
pub open spec fn signed_dec_chars(v: int) -> Seq<char> {
    if v < 0 {
        seq!['-'] + dec_chars((-v) as nat)
    } else {
        dec_chars(v as nat)
    }
}

fn hex_digit_char(d: u64) -> (c: char)
    requires
        d < 16,
    ensures
        c == hex_digit(d as int),
{
    let table: [char; 16] = ['0', '1', '2', '3', '4', '5', '6', '7', '8', '9', 'a', 'b', 'c', 'd', 'e', 'f'];
    let c = table[d as usize];
    assert(c == hex_digit(d as int)) by {
        assert(table@ =~= seq!['0', '1', '2', '3', '4', '5', '6', '7', '8', '9', 'a', 'b', 'c', 'd', 'e', 'f']);
    }
    c
}

fn dec_digit_char(d: u64) -> (c: char)
    requires
        d < 10,
    ensures
        c == dec_digit(d as int),
{
    let table: [char; 10] = ['0', '1', '2', '3', '4', '5', '6', '7', '8', '9'];
    let c = table[d as usize];
    assert(c == dec_digit(d as int)) by {
        assert(table@ =~= seq!['0', '1', '2', '3', '4', '5', '6', '7', '8', '9']);
    }
    c
}

/// Appends exactly `width` hexadecimal digits of `v` (the lowest ones, zero-padded).
pub fn push_hex_digits(s: &mut String, v: u64, width: usize)
    ensures
        final(s)@ == old(s)@ + hex_chars(v as nat, width as nat),
    decreases width,
{
    if width == 0 {
        assert(old(s)@ + hex_chars(v as nat, 0) =~= old(s)@);
        return;
    }
    push_hex_digits(s, v / 16, width - 1);
    push_char(s, hex_digit_char(v % 16));
    assert(old(s)@ + hex_chars(v as nat, width as nat) =~= old(s)@ + hex_chars(
        (v / 16) as nat,
        (width - 1) as nat,
    ) + seq![hex_digit((v % 16) as int)]);
}

fn hex_width_exec(v: u64) -> (w: usize)
    ensures
        w == hex_width(v as nat),
        w <= 16,
    decreases v,
{
    if v < 16 {
        1
    } else {
        let w = hex_width_exec(v / 16);
        proof {
            lemma_hex_width_bound(v as nat);
        }
        1 + w
    }
}

proof fn lemma_hex_width_bound(v: nat)
    requires
        v <= u64::MAX,
    ensures
        hex_width(v) <= 16,
{
    vstd::arithmetic::power2::lemma2_to64();
    vstd::arithmetic::power2::lemma2_to64_rest();
    lemma_hex_width_le(v, 16);
}

proof fn lemma_hex_width_le(v: nat, k: nat)
    requires
        v < vstd::arithmetic::power2::pow2(4 * k),
        k >= 1,
    ensures
        hex_width(v) <= k,
    decreases k,
{
    vstd::arithmetic::power2::lemma2_to64();
    vstd::arithmetic::power2::lemma2_to64_rest();
    if v >= 16 && k > 1 {
        assert(vstd::arithmetic::power2::pow2(4 * k) == vstd::arithmetic::power2::pow2(
            (4 * (k - 1)) as nat,
        ) * 16) by {
            vstd::arithmetic::power2::lemma_pow2_adds((4 * (k - 1)) as nat, 4);
        }
        assert(v / 16 < vstd::arithmetic::power2::pow2((4 * (k - 1)) as nat)) by (nonlinear_arith)
            requires
                v < vstd::arithmetic::power2::pow2((4 * (k - 1)) as nat) * 16,
        ;
        lemma_hex_width_le(v / 16, (k - 1) as nat);
    } else if v >= 16 {
        assert(k == 1);
        assert(false);
    }
}

/// Appends `v` in hexadecimal, padded with zeros to at least `min_width` digits.
pub fn push_hex(s: &mut String, v: u64, min_width: usize)
    ensures
        final(s)@ == old(s)@ + hex_padded(v as nat, min_width as nat),
{
    let w = hex_width_exec(v);
    if w < min_width {
        push_hex_digits(s, v, min_width);
    } else {
        push_hex_digits(s, v, w);
    }
}

/// Appends `v` in decimal.
pub fn push_dec(s: &mut String, v: u64)
    ensures
        final(s)@ == old(s)@ + dec_chars(v as nat),
    decreases v,
{
    if v < 10 {
        push_char(s, dec_digit_char(v));
        assert(old(s)@ + dec_chars(v as nat) =~= old(s)@.push(dec_digit(v as int)));
    } else {
        push_dec(s, v / 10);
        push_char(s, dec_digit_char(v % 10));
        assert(old(s)@ + dec_chars(v as nat) =~= old(s)@ + dec_chars((v / 10) as nat) + seq![
            dec_digit((v % 10) as int),
        ]);
    }
}

/// Appends a signed value in decimal.
pub fn push_signed_dec(s: &mut String, v: i64)
    ensures
        final(s)@ == old(s)@ + signed_dec_chars(v as int),
{
    if v < 0 {
        push_char(s, '-');
        let magnitude: u64 = if v == i64::MIN {
            0x8000_0000_0000_0000
        } else {
            (-v) as u64
        };
        push_dec(s, magnitude);
        assert(old(s)@ + signed_dec_chars(v as int) =~= old(s)@.push('-') + dec_chars(
            magnitude as nat,
        ));
    } else {
        push_dec(s, v as u64);
    }
}

} // verus!
