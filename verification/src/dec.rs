//! Decimal numerals: printing and parsing of the numbers that appear in
//! the metadata document, with round-trip lemmas.

use vstd::prelude::*;

use crate::id::hex_digit_char;
use crate::text::push_char;

verus! {

/// A decimal digit character `0-9`.
pub open spec fn is_digit_char(c: char) -> bool {
    '0' as u32 <= c as u32 && c as u32 <= '9' as u32
}

/// The numeric value of a decimal digit character.
pub open spec fn digit_val(c: char) -> nat {
    (c as u32 - '0' as u32) as nat
}

/// The canonical decimal numeral of a natural number: no sign, no
/// leading zeros.
pub open spec fn dec_nat(n: nat) -> Seq<char>
    decreases n,
{
    if n < 10 {
        seq![hex_digit_char(n as u8)]
    } else {
        dec_nat(n / 10) + seq![hex_digit_char((n % 10) as u8)]
    }
}

/// The decimal numeral of a signed 32-bit number: a `-` sign before the
/// magnitude when negative.
pub open spec fn dec_i32(n: i32) -> Seq<char> {
    if n >= 0 {
        dec_nat(n as nat)
    } else {
        seq!['-'] + dec_nat((-(n as int)) as nat)
    }
}

/// The value of a sequence of decimal digit characters.
pub open spec fn val_of_digits(d: Seq<char>) -> nat
    decreases d.len(),
{
    if d.len() == 0 {
        0
    } else {
        val_of_digits(d.drop_last()) * 10 + digit_val(d.last())
    }
}

/// The length of the digit run at the front of a sequence.
pub open spec fn num_digits(s: Seq<char>) -> nat
    decreases s.len(),
{
    if s.len() == 0 || !is_digit_char(s[0]) {
        0
    } else {
        1 + num_digits(s.drop_first())
    }
}

/// Parse an unsigned decimal numeral at the front of a sequence: the
/// whole leading digit run, or nothing when there is no digit, the run
/// has a leading zero, or the value exceeds `u64::MAX`. Returns the
/// value and the rest.
pub open spec fn sp_u64(s: Seq<char>) -> Option<(u64, Seq<char>)> {
    let k = num_digits(s);
    if k == 0 {
        None
    } else if k > 1 && s[0] == '0' {
        None
    } else if val_of_digits(s.take(k as int)) > u64::MAX {
        None
    } else {
        Some((val_of_digits(s.take(k as int)) as u64, s.skip(k as int)))
    }
}

/// Parse a signed 32-bit decimal numeral at the front of a sequence.
pub open spec fn sp_i32(s: Seq<char>) -> Option<(i32, Seq<char>)> {
    if s.len() >= 1 && s[0] == '-' {
        match sp_u64(s.skip(1)) {
            Some((v, rest)) => if 1 <= v && v <= 0x8000_0000u64 {
                Some(((-(v as int)) as i32, rest))
            } else {
                None
            },
            None => None,
        }
    } else {
        match sp_u64(s) {
            Some((v, rest)) => if v <= 0x7fff_ffffu64 {
                Some((v as i32, rest))
            } else {
                None
            },
            None => None,
        }
    }
}

proof fn lemma_digit_char_val(v: u8)
    requires
        v < 10,
    ensures
        is_digit_char(hex_digit_char(v)),
        digit_val(hex_digit_char(v)) == v as nat,
{
}

/// Every character of a canonical numeral is a digit, and the numeral is
/// non-empty.
pub proof fn lemma_dec_nat_digits(n: nat)
    ensures
        dec_nat(n).len() >= 1,
        forall|i: int| 0 <= i < dec_nat(n).len() ==> is_digit_char(#[trigger] dec_nat(n)[i]),
    decreases n,
{
    if n < 10 {
        lemma_digit_char_val(n as u8);
    } else {
        lemma_dec_nat_digits(n / 10);
        lemma_digit_char_val((n % 10) as u8);
    }
}

/// The value of a canonical numeral is the number it was printed from.
pub proof fn lemma_val_of_dec_nat(n: nat)
    ensures
        val_of_digits(dec_nat(n)) == n,
    decreases n,
{
    if n < 10 {
        lemma_digit_char_val(n as u8);
        assert(dec_nat(n).len() == 1);
        assert(dec_nat(n).drop_last() =~= Seq::<char>::empty());
        assert(val_of_digits(Seq::<char>::empty()) == 0);
        assert(dec_nat(n).last() == hex_digit_char(n as u8));
        assert(val_of_digits(dec_nat(n)) == 0 * 10 + digit_val(hex_digit_char(n as u8)));
    } else {
        lemma_val_of_dec_nat(n / 10);
        lemma_digit_char_val((n % 10) as u8);
        assert(dec_nat(n).drop_last() =~= dec_nat(n / 10));
        assert(val_of_digits(dec_nat(n)) == val_of_digits(dec_nat(n).drop_last()) * 10 + digit_val(
            dec_nat(n).last(),
        ));
        assert((n / 10) * 10 + n % 10 == n) by {
            vstd::arithmetic::div_mod::lemma_fundamental_div_mod(n as int, 10);
        }
    }
}

/// The digit run of `digits + rest` is exactly `digits` when `rest` does
/// not begin with a digit.
pub proof fn lemma_num_digits_of_run(d: Seq<char>, rest: Seq<char>)
    requires
        forall|i: int| 0 <= i < d.len() ==> is_digit_char(#[trigger] d[i]),
        rest.len() == 0 || !is_digit_char(rest[0]),
    ensures
        num_digits(d + rest) == d.len(),
    decreases d.len(),
{
    if d.len() == 0 {
        assert(d + rest =~= rest);
    } else {
        lemma_num_digits_of_run(d.drop_first(), rest);
        assert((d + rest).drop_first() =~= d.drop_first() + rest);
        assert((d + rest)[0] == d[0]);
    }
}

/// A canonical numeral has no leading zero unless it is `0` itself.
pub proof fn lemma_dec_nat_leading(n: nat)
    requires
        n >= 1,
    ensures
        dec_nat(n)[0] != '0',
    decreases n,
{
    if n < 10 {
        assert(hex_digit_char(n as u8) as u32 != '0' as u32);
        if dec_nat(n)[0] == '0' {
            assert(dec_nat(n)[0] as u32 == '0' as u32);
        }
    } else {
        lemma_dec_nat_leading(n / 10);
        lemma_dec_nat_digits(n / 10);
        assert(dec_nat(n)[0] == dec_nat(n / 10)[0]);
    }
}

/// A digit character other than `0` has a positive value, and a digit
/// run led by it has a positive value.
proof fn lemma_val_lower_bound(d: Seq<char>)
    requires
        d.len() >= 1,
        forall|i: int| 0 <= i < d.len() ==> is_digit_char(#[trigger] d[i]),
        d[0] != '0',
    ensures
        val_of_digits(d) >= 1,
    decreases d.len(),
{
    if d.len() == 1 {
        let c = d[0];
        vstd::utf8::char_u32_cast(c, c as u32);
        vstd::utf8::char_u32_cast('0', '0' as u32);
        assert(c as u32 != '0' as u32);
        assert(d.drop_last() =~= Seq::<char>::empty());
        assert(val_of_digits(Seq::<char>::empty()) == 0);
        assert(val_of_digits(d.drop_last()) == 0);
        assert(d.last() == c);
        assert(val_of_digits(d) == val_of_digits(d.drop_last()) * 10 + digit_val(d.last()));
        assert(digit_val(c) >= 1);
    } else {
        lemma_val_lower_bound(d.drop_last());
        assert(val_of_digits(d) == val_of_digits(d.drop_last()) * 10 + digit_val(d.last()));
    }
}

/// Printing the value of a canonical digit run gives the run back.
pub proof fn lemma_dec_nat_inverse(d: Seq<char>)
    requires
        d.len() >= 1,
        forall|i: int| 0 <= i < d.len() ==> is_digit_char(#[trigger] d[i]),
        d.len() > 1 ==> d[0] != '0',
    ensures
        dec_nat(val_of_digits(d)) == d,
    decreases d.len(),
{
    if d.len() == 1 {
        let c = d[0];
        assert(d.drop_last() =~= Seq::<char>::empty());
        assert(val_of_digits(Seq::<char>::empty()) == 0);
        assert(d.last() == c);
        assert(val_of_digits(d) == val_of_digits(d.drop_last()) * 10 + digit_val(d.last()));
        crate::id::lemma_hex_char_inverse(c);
        assert(hex_digit_char(digit_val(c) as u8) == c);
        assert(dec_nat(val_of_digits(d)) =~= d);
    } else {
        let dl = d.drop_last();
        let c = d.last();
        let v = val_of_digits(d);
        assert(v == val_of_digits(dl) * 10 + digit_val(c));
        assert(dl[0] == d[0]);
        lemma_val_lower_bound(dl);
        lemma_dec_nat_inverse(dl);
        assert(v >= 10);
        assert(v / 10 == val_of_digits(dl) && v % 10 == digit_val(c)) by {
            vstd::arithmetic::div_mod::lemma_fundamental_div_mod_converse(
                v as int,
                10,
                val_of_digits(dl) as int,
                digit_val(c) as int,
            );
        }
        crate::id::lemma_hex_char_inverse(c);
        assert(hex_digit_char((v % 10) as u8) == c);
        assert(dec_nat(v) =~= d);
    }
}

/// The first `num_digits` characters are digits.
proof fn lemma_num_digits_prefix(s: Seq<char>)
    ensures
        num_digits(s) <= s.len(),
        forall|i: int| 0 <= i < num_digits(s) ==> is_digit_char(#[trigger] s[i]),
    decreases s.len(),
{
    if s.len() > 0 && is_digit_char(s[0]) {
        lemma_num_digits_prefix(s.drop_first());
        assert forall|i: int| 0 <= i < num_digits(s) implies is_digit_char(#[trigger] s[i]) by {
            if i > 0 {
                assert(s[i] == s.drop_first()[i - 1]);
            }
        }
    }
}

/// A parsed unsigned numeral came from exactly the canonical numeral of
/// its value: parsing is the inverse of printing.
pub proof fn lemma_sp_u64_sound(s: Seq<char>)
    ensures
        sp_u64(s) matches Some((v, r)) ==> s == dec_nat(v as nat) + r,
{
    if sp_u64(s) is Some {
        let k = num_digits(s) as int;
        lemma_num_digits_prefix(s);
        assert(forall|i: int| 0 <= i < k ==> is_digit_char(#[trigger] s.take(k)[i]));
        lemma_dec_nat_inverse(s.take(k));
        assert(s =~= s.take(k) + s.skip(k));
    }
}

/// A parsed signed numeral came from exactly the canonical numeral of
/// its value.
pub proof fn lemma_sp_i32_sound(s: Seq<char>)
    ensures
        sp_i32(s) matches Some((v, r)) ==> s == dec_i32(v) + r,
{
    if sp_i32(s) is Some {
        if s.len() >= 1 && s[0] == '-' {
            lemma_sp_u64_sound(s.skip(1));
            let vr = sp_u64(s.skip(1))->Some_0;
            let v = vr.0;
            let r = vr.1;
            let w = (-(v as int)) as i32;
            assert(-(w as int) == v as int);
            assert(dec_i32(w) == seq!['-'] + dec_nat(v as nat));
            assert(s =~= seq!['-'] + s.skip(1));
            assert(s =~= dec_i32(w) + r);
        } else {
            lemma_sp_u64_sound(s);
            let vr = sp_u64(s)->Some_0;
            let v = vr.0;
            assert(dec_i32(v as i32) == dec_nat(v as nat));
        }
    }
}

/// Round trip for unsigned numerals: parsing a canonical numeral
/// followed by a non-digit recovers the number and the rest.
pub proof fn lemma_sp_u64_round_trip(n: u64, rest: Seq<char>)
    requires
        rest.len() == 0 || !is_digit_char(rest[0]),
    ensures
        sp_u64(dec_nat(n as nat) + rest) == Some((n, rest)),
{
    let d = dec_nat(n as nat);
    lemma_dec_nat_digits(n as nat);
    lemma_val_of_dec_nat(n as nat);
    lemma_num_digits_of_run(d, rest);
    if d.len() > 1 {
        lemma_dec_nat_leading(n as nat);
        assert((d + rest)[0] == d[0]);
    }
    assert((d + rest).take(d.len() as int) =~= d);
    assert((d + rest).skip(d.len() as int) =~= rest);
}

/// Round trip for signed numerals.
pub proof fn lemma_sp_i32_round_trip(n: i32, rest: Seq<char>)
    requires
        rest.len() == 0 || !is_digit_char(rest[0]),
    ensures
        sp_i32(dec_i32(n) + rest) == Some((n, rest)),
{
    if n >= 0 {
        lemma_sp_u64_round_trip(n as u64, rest);
        lemma_dec_nat_digits(n as nat);
        assert(dec_i32(n) + rest =~= dec_nat(n as nat) + rest);
        assert((dec_nat(n as nat) + rest)[0] == dec_nat(n as nat)[0]);
        assert(!((dec_nat(n as nat) + rest)[0] == '-')) by {
            assert(is_digit_char(dec_nat(n as nat)[0]));
        }
    } else {
        let m = (-(n as int)) as u64;
        lemma_sp_u64_round_trip(m, rest);
        let s = dec_i32(n) + rest;
        assert(s[0] == '-');
        assert(s.skip(1) =~= dec_nat(m as nat) + rest);
    }
}

/// Append the canonical decimal numeral of `n` to a string.
pub fn push_u64_dec(out: &mut String, n: u64)
    ensures
        final(out)@ == old(out)@ + dec_nat(n as nat),
    decreases n,
{
    if n >= 10 {
        push_u64_dec(out, n / 10);
        push_char(out, digit_char_exec((n % 10) as u8));
        assert(final(out)@ =~= old(out)@ + dec_nat(n as nat));
    } else {
        push_char(out, digit_char_exec(n as u8));
        assert(final(out)@ =~= old(out)@ + dec_nat(n as nat));
    }
}

/// Append the canonical decimal numeral of a signed number.
pub fn push_i32_dec(out: &mut String, n: i32)
    ensures
        final(out)@ == old(out)@ + dec_i32(n),
{
    if n < 0 {
        push_char(out, '-');
        let m = (-(n as i64)) as u64;
        push_u64_dec(out, m);
        assert(final(out)@ =~= old(out)@ + dec_i32(n));
    } else {
        push_u64_dec(out, n as u64);
    }
}

/// The canonical decimal numeral of `n` as a string.
pub fn u64_string(n: u64) -> (r: String)
    ensures
        r@ == dec_nat(n as nat),
{
    let mut s = String::new();
    push_u64_dec(&mut s, n);
    proof {
        assert(s@ =~= dec_nat(n as nat));
    }
    s
}

/// The decimal digit character for a value below 10.
fn digit_char_exec(v: u8) -> (c: char)
    requires
        v < 10,
    ensures
        c == hex_digit_char(v),
{
    match v {
        0 => '0',
        1 => '1',
        2 => '2',
        3 => '3',
        4 => '4',
        5 => '5',
        6 => '6',
        7 => '7',
        8 => '8',
        _ => '9',
    }
}

} // verus!
