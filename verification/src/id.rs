//! Container identity: ID generation and prefix validation.
//!
//! A container ID is a 16-character lowercase hexadecimal string
//! (the hex encoding of 8 random bytes).

use vstd::prelude::*;

use crate::text::push_char;

verus! {

/// Length of a container ID in hex characters.
pub const ID_LEN: usize = 16;

/// The lowercase hex digit character for a value below 16.
pub open spec fn hex_digit_char(v: u8) -> char {
    if v == 0 {
        '0'
    } else if v == 1 {
        '1'
    } else if v == 2 {
        '2'
    } else if v == 3 {
        '3'
    } else if v == 4 {
        '4'
    } else if v == 5 {
        '5'
    } else if v == 6 {
        '6'
    } else if v == 7 {
        '7'
    } else if v == 8 {
        '8'
    } else if v == 9 {
        '9'
    } else if v == 10 {
        'a'
    } else if v == 11 {
        'b'
    } else if v == 12 {
        'c'
    } else if v == 13 {
        'd'
    } else if v == 14 {
        'e'
    } else {
        'f'
    }
}

/// The lowercase hex encoding of a byte sequence: two digits per byte,
/// high nibble first.
pub open spec fn hex_of_bytes(bs: Seq<u8>) -> Seq<char>
    decreases bs.len(),
{
    if bs.len() == 0 {
        Seq::<char>::empty()
    } else {
        seq![hex_digit_char(bs[0] / 16), hex_digit_char(bs[0] % 16)] + hex_of_bytes(
            bs.drop_first(),
        )
    }
}

/// A full container ID: exactly 16 lowercase hex characters.
pub open spec fn is_valid_id(s: Seq<char>) -> bool {
    &&& s.len() == ID_LEN
    &&& forall|i: int| 0 <= i < s.len() ==> is_lower_hex_char(s[i])
}

/// `hex_digit_char` hits every lowercase hex digit character exactly
/// once: a character in that set is the digit of its own value.
pub proof fn lemma_hex_char_inverse(c: char)
    requires
        is_lower_hex_char(c),
    ensures
        c as u32 <= '9' as u32 ==> hex_digit_char((c as u32 - '0' as u32) as u8) == c,
        c as u32 >= 'a' as u32 ==> hex_digit_char((c as u32 - 'a' as u32 + 10) as u8) == c,
{
    let cu = c as u32;
    vstd::utf8::char_u32_cast(c, cu);
    assert('0' as u32 == 48 && '1' as u32 == 49 && '2' as u32 == 50 && '3' as u32 == 51
        && '4' as u32 == 52 && '5' as u32 == 53 && '6' as u32 == 54 && '7' as u32 == 55
        && '8' as u32 == 56 && '9' as u32 == 57);
    assert('a' as u32 == 97 && 'b' as u32 == 98 && 'c' as u32 == 99 && 'd' as u32 == 100
        && 'e' as u32 == 101 && 'f' as u32 == 102);
    if cu == 48 {
        vstd::utf8::char_u32_cast('0', 48);
    } else if cu == 49 {
        vstd::utf8::char_u32_cast('1', 49);
    } else if cu == 50 {
        vstd::utf8::char_u32_cast('2', 50);
    } else if cu == 51 {
        vstd::utf8::char_u32_cast('3', 51);
    } else if cu == 52 {
        vstd::utf8::char_u32_cast('4', 52);
    } else if cu == 53 {
        vstd::utf8::char_u32_cast('5', 53);
    } else if cu == 54 {
        vstd::utf8::char_u32_cast('6', 54);
    } else if cu == 55 {
        vstd::utf8::char_u32_cast('7', 55);
    } else if cu == 56 {
        vstd::utf8::char_u32_cast('8', 56);
    } else if cu == 57 {
        vstd::utf8::char_u32_cast('9', 57);
    } else if cu == 97 {
        vstd::utf8::char_u32_cast('a', 97);
    } else if cu == 98 {
        vstd::utf8::char_u32_cast('b', 98);
    } else if cu == 99 {
        vstd::utf8::char_u32_cast('c', 99);
    } else if cu == 100 {
        vstd::utf8::char_u32_cast('d', 100);
    } else if cu == 101 {
        vstd::utf8::char_u32_cast('e', 101);
    } else {
        vstd::utf8::char_u32_cast('f', 102);
    }
}

proof fn lemma_hex_digit_char_is_hex(v: u8)
    requires
        v < 16,
    ensures
        is_lower_hex_char(hex_digit_char(v)),
{
}

proof fn lemma_hex_of_bytes_shape(bs: Seq<u8>)
    ensures
        hex_of_bytes(bs).len() == 2 * bs.len(),
        forall|i: int| 0 <= i < hex_of_bytes(bs).len() ==> is_lower_hex_char(hex_of_bytes(bs)[i]),
    decreases bs.len(),
{
    if bs.len() > 0 {
        lemma_hex_of_bytes_shape(bs.drop_first());
        lemma_hex_digit_char_is_hex(bs[0] / 16);
        lemma_hex_digit_char_is_hex(bs[0] % 16);
    }
}

/// The lowercase hex digit character for a nibble.
fn hex_char(v: u8) -> (c: char)
    requires
        v < 16,
    ensures
        c == hex_digit_char(v),
{
    match v {
        0 => '0',
        1 => '1',
        2 => '2',
        3 => '3',
        4 => '4',
        5 => '5',
        6 => '6',
        7 => '7',
        8 => '8',
        9 => '9',
        10 => 'a',
        11 => 'b',
        12 => 'c',
        13 => 'd',
        14 => 'e',
        _ => 'f',
    }
}

/// Encode bytes as a lowercase hex string.
pub fn hex_encode(bytes: &[u8]) -> (r: String)
    ensures
        r@ == hex_of_bytes(bytes@),
{
    let mut s = String::new();
    let mut i: usize = 0;
    while i < bytes.len()
        invariant
            0 <= i <= bytes@.len(),
            s@ == hex_of_bytes(bytes@.subrange(0, i as int)),
        decreases bytes@.len() - i,
    {
        let b = bytes[i];
        push_char(&mut s, hex_char(b / 16));
        push_char(&mut s, hex_char(b % 16));
        i += 1;
        proof {
            lemma_hex_of_bytes_snoc(bytes@.subrange(0, i as int));
            assert(bytes@.subrange(0, i as int).drop_last() =~= bytes@.subrange(0, i - 1));
        }
    }
    proof {
        assert(bytes@.subrange(0, bytes@.len() as int) =~= bytes@);
    }
    s
}

/// Peeling the last byte off a hex encoding appends its two digits.
proof fn lemma_hex_of_bytes_snoc(bs: Seq<u8>)
    requires
        bs.len() > 0,
    ensures
        hex_of_bytes(bs) == hex_of_bytes(bs.drop_last()) + seq![
            hex_digit_char(bs.last() / 16),
            hex_digit_char(bs.last() % 16),
        ],
    decreases bs.len(),
{
    if bs.len() == 1 {
        assert(bs.drop_first() =~= Seq::<u8>::empty());
        assert(bs.drop_last() =~= Seq::<u8>::empty());
        assert(hex_of_bytes(bs) =~= hex_of_bytes(bs.drop_last()) + seq![
            hex_digit_char(bs.last() / 16),
            hex_digit_char(bs.last() % 16),
        ]);
    } else {
        lemma_hex_of_bytes_snoc(bs.drop_first());
        assert(bs.drop_first().drop_last() =~= bs.drop_last().drop_first());
        assert(bs.drop_first().last() == bs.last());
        assert(bs.drop_last()[0] == bs[0]);
        assert(bs.drop_last().len() > 0);
        assert(hex_of_bytes(bs) =~= hex_of_bytes(bs.drop_last()) + seq![
            hex_digit_char(bs.last() / 16),
            hex_digit_char(bs.last() % 16),
        ]);
    }
}

/// Relies on rand::random: returns 8 bytes drawn from the thread-local
/// cryptographically secure generator, one array element per byte.
#[verifier::external_body]
fn random_bytes() -> (r: Vec<u8>)
    ensures
        r@.len() == 8,
{
    rand::random::<[u8; 8]>().to_vec()
}

/// Generate a random hex container ID (16 hex chars = 8 random bytes).
pub fn generate_id() -> (r: String)
    ensures
        is_valid_id(r@),
{
    let bytes = random_bytes();
    let s = hex_encode(bytes.as_slice());
    proof {
        lemma_hex_of_bytes_shape(bytes@);
    }
    s
}

/// A lowercase hexadecimal digit: `0-9` or `a-f`.
pub open spec fn is_lower_hex_char(c: char) -> bool {
    ('0' as u32 <= c as u32 && c as u32 <= '9' as u32) || ('a' as u32 <= c as u32 && c as u32
        <= 'f' as u32)
}

/// A valid container-ID prefix: non-empty, at most 16 characters,
/// all lowercase hex digits.
pub open spec fn is_valid_prefix(s: Seq<char>) -> bool {
    &&& s.len() >= 1
    &&& s.len() <= ID_LEN
    &&& forall|i: int| 0 <= i < s.len() ==> is_lower_hex_char(s[i])
}

/// Validate that a string looks like a valid container-ID prefix.
/// Must be non-empty, lowercase hex, and at most `ID_LEN` characters.
pub fn validate_id_prefix(prefix: &str) -> (r: bool)
    ensures
        r == is_valid_prefix(prefix@),
{
    let n = prefix.unicode_len();
    if n < 1 || n > ID_LEN {
        return false;
    }
    let mut i: usize = 0;
    while i < n
        invariant
            n == prefix@.len(),
            1 <= n <= ID_LEN,
            0 <= i <= n,
            forall|j: int| 0 <= j < i ==> is_lower_hex_char(prefix@[j]),
        decreases n - i,
    {
        let c = prefix.get_char(i);
        let v = c as u32;
        if !((48 <= v && v <= 57) || (97 <= v && v <= 102)) {
            return false;
        }
        i += 1;
    }
    true
}

} // verus!
