//! JSON string escaping: printing a character sequence as a quoted JSON
//! string and reading it back, with a round-trip lemma.
//!
//! The escaping is the minimal one: `"` and `\` get a backslash escape,
//! control characters (below U+0020) become `\u00XX` with lowercase hex,
//! and every other character stands for itself.

use vstd::prelude::*;

use crate::id::hex_digit_char;
use crate::id::is_lower_hex_char;
use crate::text::push_char;

verus! {

/// The escape of one character inside a JSON string.
pub open spec fn esc_char(c: char) -> Seq<char> {
    if c == '"' {
        seq!['\\', '"']
    } else if c == '\\' {
        seq!['\\', '\\']
    } else if (c as u32) < 32 {
        seq![
            '\\',
            'u',
            '0',
            '0',
            hex_digit_char((c as u32 / 16) as u8),
            hex_digit_char((c as u32 % 16) as u8),
        ]
    } else {
        seq![c]
    }
}

/// The escaped body of a JSON string.
pub open spec fn esc(s: Seq<char>) -> Seq<char>
    decreases s.len(),
{
    if s.len() == 0 {
        Seq::<char>::empty()
    } else {
        esc_char(s[0]) + esc(s.drop_first())
    }
}

/// A complete JSON string: quote, escaped body, quote.
pub open spec fn ser_string(s: Seq<char>) -> Seq<char> {
    seq!['"'] + esc(s) + seq!['"']
}

/// The numeric value of a lowercase hex digit character.
pub open spec fn hex_val(c: char) -> u32 {
    if '0' as u32 <= c as u32 && c as u32 <= '9' as u32 {
        (c as u32 - '0' as u32) as u32
    } else {
        (c as u32 - 'a' as u32 + 10) as u32
    }
}

/// Parse the body of a JSON string (the opening quote already consumed)
/// up to and including the closing quote. Returns the unescaped content
/// and the rest of the input.
pub open spec fn sp_string_body(s: Seq<char>) -> Option<(Seq<char>, Seq<char>)>
    decreases s.len(),
{
    if s.len() == 0 {
        None
    } else if s[0] == '"' {
        Some((Seq::<char>::empty(), s.skip(1)))
    } else if s[0] == '\\' {
        if s.len() >= 2 && s[1] == '"' {
            match sp_string_body(s.skip(2)) {
                Some((t, r)) => Some((seq!['"'] + t, r)),
                None => None,
            }
        } else if s.len() >= 2 && s[1] == '\\' {
            match sp_string_body(s.skip(2)) {
                Some((t, r)) => Some((seq!['\\'] + t, r)),
                None => None,
            }
        } else if s.len() >= 6 && s[1] == 'u' && s[2] == '0' && s[3] == '0' && is_lower_hex_char(
            s[4],
        ) && is_lower_hex_char(s[5]) {
            let v: u32 = (16 * hex_val(s[4]) + hex_val(s[5])) as u32;
            if v < 32 {
                match sp_string_body(s.skip(6)) {
                    Some((t, r)) => Some((seq![v as char] + t, r)),
                    None => None,
                }
            } else {
                None
            }
        } else {
            None
        }
    } else if (s[0] as u32) < 32 {
        None
    } else {
        match sp_string_body(s.skip(1)) {
            Some((t, r)) => Some((seq![s[0]] + t, r)),
            None => None,
        }
    }
}

/// Parse a complete quoted JSON string at the front of the input.
pub open spec fn sp_quoted(s: Seq<char>) -> Option<(Seq<char>, Seq<char>)> {
    if s.len() >= 1 && s[0] == '"' {
        sp_string_body(s.skip(1))
    } else {
        None
    }
}

proof fn lemma_hex_val_of_digit(v: u8)
    requires
        v < 16,
    ensures
        is_lower_hex_char(hex_digit_char(v)),
        hex_val(hex_digit_char(v)) == v as u32,
{
}

/// Appending one character appends its escape.
pub proof fn lemma_esc_snoc(s: Seq<char>)
    requires
        s.len() > 0,
    ensures
        esc(s) == esc(s.drop_last()) + esc_char(s.last()),
    decreases s.len(),
{
    if s.len() == 1 {
        assert(s.drop_first() =~= Seq::<char>::empty());
        assert(s.drop_last() =~= Seq::<char>::empty());
        assert(esc(s) =~= esc(s.drop_last()) + esc_char(s.last()));
    } else {
        lemma_esc_snoc(s.drop_first());
        assert(s.drop_first().drop_last() =~= s.drop_last().drop_first());
        assert(s.drop_first().last() == s.last());
        assert(s.drop_last()[0] == s[0]);
        assert(esc(s) =~= esc(s.drop_last()) + esc_char(s.last()));
    }
}

/// Round trip for string bodies: parsing the escape of `v` followed by a
/// closing quote recovers `v` and leaves the rest untouched.
pub proof fn lemma_sp_string_body(v: Seq<char>, rest: Seq<char>)
    ensures
        sp_string_body(esc(v) + seq!['"'] + rest) == Some((v, rest)),
    decreases v.len(),
{
    let s = esc(v) + seq!['"'] + rest;
    if v.len() == 0 {
        assert(s[0] == '"');
        assert(s.skip(1) =~= rest);
    } else {
        let c = v[0];
        let cu = c as u32;
        let t = esc(v.drop_first()) + seq!['"'] + rest;
        assert(s =~= esc_char(c) + t);
        lemma_sp_string_body(v.drop_first(), rest);
        if c == '"' {
            assert(s[0] == '\\' && s[1] == '"');
            assert(s.skip(2) =~= t);
            assert(seq!['"'] + v.drop_first() =~= v);
        } else if c == '\\' {
            assert(s[0] == '\\' && s[1] == '\\');
            assert(!(s[1] == '"'));
            assert(s.skip(2) =~= t);
            assert(seq!['\\'] + v.drop_first() =~= v);
        } else if cu < 32 {
            let hi = (cu / 16) as u8;
            let lo = (cu % 16) as u8;
            lemma_hex_val_of_digit(hi);
            lemma_hex_val_of_digit(lo);
            assert(s[0] == '\\' && s[1] == 'u' && s[2] == '0' && s[3] == '0');
            assert(s[4] == hex_digit_char(hi) && s[5] == hex_digit_char(lo));
            assert(s.len() >= 6);
            assert(16 * hex_val(s[4]) + hex_val(s[5]) == cu) by {
                vstd::arithmetic::div_mod::lemma_fundamental_div_mod(cu as int, 16);
            }
            assert((cu as char) == c) by {
                vstd::utf8::char_u32_cast(c, cu);
            }
            assert(s.skip(6) =~= t);
            assert(seq![c] + v.drop_first() =~= v);
        } else {
            assert(s[0] == c);
            assert(!(s[0] == '"') && !(s[0] == '\\') && !((s[0] as u32) < 32));
            assert(s.skip(1) =~= t);
            assert(seq![c] + v.drop_first() =~= v);
        }
    }
}

/// Peeling the first character prepends its escape.
proof fn lemma_esc_cons(c: char, t: Seq<char>)
    ensures
        esc(seq![c] + t) == esc_char(c) + esc(t),
{
    assert((seq![c] + t)[0] == c);
    assert((seq![c] + t).drop_first() =~= t);
}

/// A lowercase hex digit character is the digit of its own value.
proof fn lemma_hex_roundtrip(c: char)
    requires
        is_lower_hex_char(c),
    ensures
        hex_digit_char(hex_val(c) as u8) == c,
        hex_val(c) < 16,
{
    crate::id::lemma_hex_char_inverse(c);
}

/// A parsed string body came from exactly the escape of its content
/// followed by the closing quote: string parsing inverts printing.
pub proof fn lemma_sp_string_body_sound(s: Seq<char>)
    ensures
        sp_string_body(s) matches Some((t, r)) ==> s == esc(t) + seq!['"'] + r,
    decreases s.len(),
{
    if sp_string_body(s) is Some {
        let tr = sp_string_body(s)->Some_0;
        let t = tr.0;
        let r = tr.1;
        if s[0] == '"' {
            assert(esc(Seq::<char>::empty()) =~= Seq::<char>::empty());
            assert(esc(t) + seq!['"'] + r =~= s);
        } else if s[0] == '\\' {
            if s.len() >= 2 && s[1] == '"' {
                lemma_sp_string_body_sound(s.skip(2));
                let tr2 = sp_string_body(s.skip(2))->Some_0;
                assert(t == seq!['"'] + tr2.0 && r == tr2.1);
                lemma_esc_cons('"', tr2.0);
                assert(esc_char('"') =~= seq![s[0], s[1]]);
                assert(seq![s[0], s[1]] + s.skip(2) =~= s);
                assert(esc(t) + seq!['"'] + r =~= seq![s[0], s[1]] + (esc(tr2.0) + seq!['"']
                    + tr2.1));
            } else if s.len() >= 2 && s[1] == '\\' {
                lemma_sp_string_body_sound(s.skip(2));
                let tr2 = sp_string_body(s.skip(2))->Some_0;
                assert(t == seq!['\\'] + tr2.0 && r == tr2.1);
                lemma_esc_cons('\\', tr2.0);
                assert(esc_char('\\') =~= seq![s[0], s[1]]);
                assert(seq![s[0], s[1]] + s.skip(2) =~= s);
                assert(esc(t) + seq!['"'] + r =~= seq![s[0], s[1]] + (esc(tr2.0) + seq!['"']
                    + tr2.1));
            } else {
                let v: u32 = (16 * hex_val(s[4]) + hex_val(s[5])) as u32;
                let c2 = v as char;
                lemma_sp_string_body_sound(s.skip(6));
                let tr2 = sp_string_body(s.skip(6))->Some_0;
                lemma_esc_cons(c2, tr2.0);
                lemma_hex_roundtrip(s[4]);
                lemma_hex_roundtrip(s[5]);
                assert(c2 as u32 == v) by {
                    vstd::utf8::char_u32_cast(c2, c2 as u32);
                }
                assert(v / 16 == hex_val(s[4]) && v % 16 == hex_val(s[5])) by {
                    vstd::arithmetic::div_mod::lemma_fundamental_div_mod_converse(
                        v as int,
                        16,
                        hex_val(s[4]) as int,
                        hex_val(s[5]) as int,
                    );
                }
                assert(t == seq![c2] + tr2.0 && r == tr2.1);
                assert(esc_char(c2) =~= seq![s[0], s[1], s[2], s[3], s[4], s[5]]);
                assert(seq![s[0], s[1], s[2], s[3], s[4], s[5]] + s.skip(6) =~= s);
                assert(esc(t) + seq!['"'] + r =~= seq![s[0], s[1], s[2], s[3], s[4], s[5]] + (esc(
                    tr2.0,
                ) + seq!['"'] + tr2.1));
            }
        } else {
            lemma_sp_string_body_sound(s.skip(1));
            let tr2 = sp_string_body(s.skip(1))->Some_0;
            assert(t == seq![s[0]] + tr2.0 && r == tr2.1);
            lemma_esc_cons(s[0], tr2.0);
            assert(esc_char(s[0]) =~= seq![s[0]]);
            assert(seq![s[0]] + s.skip(1) =~= s);
            assert(esc(t) + seq!['"'] + r =~= seq![s[0]] + (esc(tr2.0) + seq!['"'] + tr2.1));
        }
    }
}

/// A parsed quoted string came from exactly its serialized form.
pub proof fn lemma_sp_quoted_sound(s: Seq<char>)
    ensures
        sp_quoted(s) matches Some((t, r)) ==> s == ser_string(t) + r,
{
    if sp_quoted(s) is Some {
        lemma_sp_string_body_sound(s.skip(1));
        let tr = sp_quoted(s)->Some_0;
        assert(ser_string(tr.0) + tr.1 =~= seq![s[0]] + (esc(tr.0) + seq!['"'] + tr.1));
        assert(ser_string(tr.0) + tr.1 =~= s);
    }
}

/// Round trip for quoted strings.
pub proof fn lemma_sp_quoted(v: Seq<char>, rest: Seq<char>)
    ensures
        sp_quoted(ser_string(v) + rest) == Some((v, rest)),
{
    let s = ser_string(v) + rest;
    assert(s[0] == '"');
    assert(s.skip(1) =~= esc(v) + seq!['"'] + rest);
    lemma_sp_string_body(v, rest);
}

/// Append the quoted, escaped form of `v` to a string.
pub fn push_json_string(out: &mut String, v: &str)
    ensures
        final(out)@ == old(out)@ + ser_string(v@),
{
    push_char(out, '"');
    let n = v.unicode_len();
    let mut i: usize = 0;
    while i < n
        invariant
            n == v@.len(),
            0 <= i <= n,
            out@ == old(out)@ + seq!['"'] + esc(v@.subrange(0, i as int)),
        decreases n - i,
    {
        let c = v.get_char(i);
        let cu = c as u32;
        if c == '"' {
            push_char(out, '\\');
            push_char(out, '"');
        } else if c == '\\' {
            push_char(out, '\\');
            push_char(out, '\\');
        } else if cu < 32 {
            push_char(out, '\\');
            push_char(out, 'u');
            push_char(out, '0');
            push_char(out, '0');
            push_char(out, hex_char_exec((cu / 16) as u8));
            push_char(out, hex_char_exec((cu % 16) as u8));
        } else {
            push_char(out, c);
        }
        i += 1;
        proof {
            lemma_esc_snoc(v@.subrange(0, i as int));
            assert(v@.subrange(0, i as int).drop_last() =~= v@.subrange(0, i - 1));
            assert(v@.subrange(0, i as int).last() == v@[i - 1]);
            assert(out@ =~= old(out)@ + seq!['"'] + esc(v@.subrange(0, i as int)));
        }
    }
    push_char(out, '"');
    proof {
        assert(v@.subrange(0, n as int) =~= v@);
        assert(out@ =~= old(out)@ + ser_string(v@));
    }
}

/// The lowercase hex digit character for a nibble.
fn hex_char_exec(v: u8) -> (c: char)
    requires
        v < 16,
    ensures
        c == hex_digit_char(v),
{
    match v {
        0 => '0',
        1 => '1',
        2 => '2',
        3 => '3',
        4 => '4',
        5 => '5',
        6 => '6',
        7 => '7',
        8 => '8',
        9 => '9',
        10 => 'a',
        11 => 'b',
        12 => 'c',
        13 => 'd',
        14 => 'e',
        _ => 'f',
    }
}

} // verus!
