//! Executable parsing primitives over a character vector, each proved
//! to implement the corresponding specification parser.

use vstd::prelude::*;

use crate::dec::digit_val;
use crate::dec::is_digit_char;
use crate::dec::lemma_num_digits_of_run;
use crate::dec::num_digits;
use crate::dec::sp_i32;
use crate::dec::sp_u64;
use crate::dec::val_of_digits;
use crate::esc::hex_val;
use crate::esc::sp_quoted;
use crate::esc::sp_string_body;
use crate::id::is_lower_hex_char;
use crate::text::push_char;

verus! {

/// Parse an exact literal at the front of the input: the rest on
/// success, nothing on a mismatch.
pub open spec fn sp_lit(s: Seq<char>, l: Seq<char>) -> Option<Seq<char>> {
    if l.len() <= s.len() && s.subrange(0, l.len() as int) == l {
        Some(s.skip(l.len() as int))
    } else {
        None
    }
}

/// A literal at the front of the input parses to the rest.
pub proof fn lemma_sp_lit(l: Seq<char>, rest: Seq<char>)
    ensures
        sp_lit(l + rest, l) == Some(rest),
{
    assert((l + rest).subrange(0, l.len() as int) =~= l);
    assert((l + rest).skip(l.len() as int) =~= rest);
}

/// A parsed literal came from exactly itself.
pub proof fn lemma_sp_lit_sound(s: Seq<char>, l: Seq<char>)
    ensures
        sp_lit(s, l) matches Some(r) ==> s == l + r,
{
    if sp_lit(s, l) is Some {
        assert(s =~= s.subrange(0, l.len() as int) + s.skip(l.len() as int));
    }
}

/// Match the literal `l` at position `i`.
pub fn p_lit(s: &Vec<char>, i: usize, l: &str) -> (r: Option<usize>)
    requires
        i <= s@.len(),
    ensures
        match r {
            Some(j) => i <= j <= s@.len() && sp_lit(s@.skip(i as int), l@) == Some(
                s@.skip(j as int),
            ),
            None => sp_lit(s@.skip(i as int), l@) is None,
        },
{
    let m = l.unicode_len();
    let n = s.len();
    if m > n - i {
        return None;
    }
    let mut k: usize = 0;
    while k < m
        invariant
            i + m <= n,
            n == s@.len(),
            0 <= k <= m,
            m == l@.len(),
            forall|t: int| 0 <= t < k ==> s@[i + t] == l@[t],
        decreases m - k,
    {
        if s[i + k] != l.get_char(k) {
            proof {
                if s@.skip(i as int).subrange(0, m as int) == l@ {
                    assert(l@[k as int] == s@.skip(i as int).subrange(0, m as int)[k as int]);
                    assert(s@.skip(i as int).subrange(0, m as int)[k as int] == s@[i + k]);
                }
            }
            return None;
        }
        k += 1;
    }
    proof {
        assert(s@.skip(i as int).subrange(0, m as int) =~= l@);
        assert(s@.skip(i as int).skip(m as int) =~= s@.skip((i + m) as int));
    }
    Some(i + m)
}

/// Parse an unsigned decimal numeral at position `i`.
pub fn p_u64(s: &Vec<char>, i: usize) -> (r: Option<(u64, usize)>)
    requires
        i <= s@.len(),
    ensures
        match r {
            Some((v, j)) => i <= j <= s@.len() && sp_u64(s@.skip(i as int)) == Some(
                (v, s@.skip(j as int)),
            ),
            None => sp_u64(s@.skip(i as int)) is None,
        },
{
    let n = s.len();
    let mut j: usize = i;
    let mut acc: u64 = 0;
    let mut over: bool = false;
    while j < n && 48 <= (s[j] as u32) && (s[j] as u32) <= 57
        invariant
            i <= j <= n,
            n == s@.len(),
            forall|t: int| i <= t < j ==> is_digit_char(#[trigger] s@[t]),
            !over ==> acc == val_of_digits(s@.subrange(i as int, j as int)),
            over ==> val_of_digits(s@.subrange(i as int, j as int)) > u64::MAX,
        decreases n - j,
    {
        let c = s[j];
        let d: u64 = (c as u32 - 48) as u64;
        proof {
            assert(s@.subrange(i as int, j + 1).drop_last() =~= s@.subrange(i as int, j as int));
            assert(s@.subrange(i as int, j + 1).last() == s@[j as int]);
            assert(digit_val(c) == d as nat);
        }
        if over {
            proof {
                assert(val_of_digits(s@.subrange(i as int, j + 1)) == val_of_digits(
                    s@.subrange(i as int, j as int),
                ) * 10 + d);
            }
        } else if acc > (u64::MAX - d) / 10 {
            proof {
                let m = u64::MAX as int;
                let q = (m - d) / 10;
                vstd::arithmetic::div_mod::lemma_fundamental_div_mod(m - d, 10);
                assert(acc * 10 >= (q + 1) * 10) by (nonlinear_arith)
                    requires
                        acc >= q + 1,
                ;
                assert(val_of_digits(s@.subrange(i as int, j + 1)) == acc * 10 + d);
            }
            over = true;
        } else {
            proof {
                assert(acc * 10 + d <= u64::MAX) by (nonlinear_arith)
                    requires
                        acc <= (u64::MAX - d) / 10,
                        d <= 9,
                        acc >= 0,
                ;
            }
            acc = acc * 10 + d;
        }
        j += 1;
    }
    proof {
        assert(s@.skip(i as int) =~= s@.subrange(i as int, j as int) + s@.skip(j as int));
        if j < n {
            assert(!is_digit_char(s@[j as int]));
            assert(s@.skip(j as int)[0] == s@[j as int]);
        }
        lemma_num_digits_of_run(s@.subrange(i as int, j as int), s@.skip(j as int));
        assert(num_digits(s@.skip(i as int)) == j - i);
        assert(s@.skip(i as int).take((j - i) as int) =~= s@.subrange(i as int, j as int));
        assert(s@.skip(i as int).skip((j - i) as int) =~= s@.skip(j as int));
    }
    if j == i {
        return None;
    }
    proof {
        assert(s@.skip(i as int)[0] == s@[i as int]);
    }
    if j - i > 1 && s[i] == '0' {
        return None;
    }
    if over {
        return None;
    }
    Some((acc, j))
}

/// Parse a signed 32-bit decimal numeral at position `i`.
pub fn p_i32(s: &Vec<char>, i: usize) -> (r: Option<(i32, usize)>)
    requires
        i <= s@.len(),
    ensures
        match r {
            Some((v, j)) => i <= j <= s@.len() && sp_i32(s@.skip(i as int)) == Some(
                (v, s@.skip(j as int)),
            ),
            None => sp_i32(s@.skip(i as int)) is None,
        },
{
    proof {
        if i < s@.len() {
            assert(s@.skip(i as int)[0] == s@[i as int]);
        }
    }
    if i < s.len() && s[i] == '-' {
        proof {
            assert(s@.skip(i as int).skip(1) =~= s@.skip(i + 1));
        }
        match p_u64(s, i + 1) {
            Some((v, j)) => {
                if 1 <= v && v <= 0x8000_0000u64 {
                    let w: i32 = if v == 0x8000_0000u64 {
                        i32::MIN
                    } else {
                        -(v as i32)
                    };
                    Some((w, j))
                } else {
                    None
                }
            },
            None => None,
        }
    } else {
        match p_u64(s, i) {
            Some((v, j)) => {
                if v <= 0x7fff_ffffu64 {
                    Some((v as i32, j))
                } else {
                    None
                }
            },
            None => None,
        }
    }
}

/// Parse a quoted JSON string at position `i`, returning its unescaped
/// content.
pub fn p_quoted(s: &Vec<char>, i: usize) -> (r: Option<(String, usize)>)
    requires
        i <= s@.len(),
    ensures
        match r {
            Some((v, j)) => i < j <= s@.len() && sp_quoted(s@.skip(i as int)) == Some(
                (v@, s@.skip(j as int)),
            ),
            None => sp_quoted(s@.skip(i as int)) is None,
        },
{
    proof {
        if i < s@.len() {
            assert(s@.skip(i as int)[0] == s@[i as int]);
        }
    }
    if i < s.len() && s[i] == '"' {
        proof {
            assert(s@.skip(i as int).skip(1) =~= s@.skip(i + 1));
        }
        p_string_body(s, i + 1)
    } else {
        None
    }
}

/// Parse the body of a JSON string at position `i` (the opening quote
/// already consumed), up to and including the closing quote.
fn p_string_body(s: &Vec<char>, start: usize) -> (r: Option<(String, usize)>)
    requires
        start <= s@.len(),
    ensures
        match r {
            Some((v, j)) => start <= j <= s@.len() && sp_string_body(s@.skip(start as int))
                == Some((v@, s@.skip(j as int))),
            None => sp_string_body(s@.skip(start as int)) is None,
        },
{
    let n = s.len();
    let mut i: usize = start;
    let mut acc = String::new();
    loop
        invariant
            start <= i <= n,
            n == s@.len(),
            match sp_string_body(s@.skip(i as int)) {
                Some((t, r)) => sp_string_body(s@.skip(start as int)) == Some((acc@ + t, r)),
                None => sp_string_body(s@.skip(start as int)) is None,
            },
        decreases n - i,
    {
        proof {
            if i < n {
                assert(s@.skip(i as int)[0] == s@[i as int]);
            }
        }
        if i == n {
            return None;
        }
        let c = s[i];
        if c == '"' {
            proof {
                assert(s@.skip(i as int).skip(1) =~= s@.skip(i + 1));
                assert(acc@ + Seq::<char>::empty() =~= acc@);
            }
            return Some((acc, i + 1));
        } else if c == '\\' {
            proof {
                if i + 1 < n {
                    assert(s@.skip(i as int)[1] == s@[i + 1]);
                }
            }
            if n - i > 1 && s[i + 1] == '"' {
                proof {
                    assert(s@.skip(i as int).skip(2) =~= s@.skip(i + 2));
                    lemma_acc_step(acc@, '"', sp_string_body(s@.skip(i + 2)));
                }
                push_char(&mut acc, '"');
                i = i + 2;
            } else if n - i > 1 && s[i + 1] == '\\' {
                proof {
                    assert(s@.skip(i as int).skip(2) =~= s@.skip(i + 2));
                    lemma_acc_step(acc@, '\\', sp_string_body(s@.skip(i + 2)));
                }
                push_char(&mut acc, '\\');
                i = i + 2;
            } else if n - i > 5 && s[i + 1] == 'u' && s[i + 2] == '0' && s[i + 3] == '0'
                && is_lower_hex(s[i + 4]) && is_lower_hex(s[i + 5]) {
                proof {
                    assert(s@.skip(i as int).len() >= 6);
                    assert(s@.skip(i as int)[2] == s@[i + 2]);
                    assert(s@.skip(i as int)[3] == s@[i + 3]);
                    assert(s@.skip(i as int)[4] == s@[i + 4]);
                    assert(s@.skip(i as int)[5] == s@[i + 5]);
                }
                let hi = hex_val_exec(s[i + 4]);
                let lo = hex_val_exec(s[i + 5]);
                let v: u32 = 16 * hi + lo;
                if v < 32 {
                    let c2: char = (v as u8) as char;
                    proof {
                        assert(c2 == v as char);
                        assert(s@.skip(i as int).skip(6) =~= s@.skip(i + 6));
                        lemma_acc_step(acc@, c2, sp_string_body(s@.skip(i + 6)));
                    }
                    push_char(&mut acc, c2);
                    i = i + 6;
                } else {
                    return None;
                }
            } else {
                proof {
                    if i + 1 < n {
                        assert(s@.skip(i as int)[1] == s@[i + 1]);
                    }
                }
                return None;
            }
        } else if (c as u32) < 32 {
            return None;
        } else {
            proof {
                assert(s@.skip(i as int).skip(1) =~= s@.skip(i + 1));
                lemma_acc_step(acc@, c, sp_string_body(s@.skip(i + 1)));
            }
            push_char(&mut acc, c);
            i = i + 1;
        }
    }
}

/// Extending the accumulator by one decoded character commutes with
/// prepending that character to the remaining parse.
proof fn lemma_acc_step(acc: Seq<char>, c: char, tail: Option<(Seq<char>, Seq<char>)>)
    ensures
        match tail {
            Some((t, r)) => acc + (seq![c] + t) == acc.push(c) + t,
            None => true,
        },
{
    match tail {
        Some((t, r)) => {
            assert(acc + (seq![c] + t) =~= acc.push(c) + t);
        },
        None => {},
    }
}

/// Whether a character is a lowercase hex digit.
fn is_lower_hex(c: char) -> (r: bool)
    ensures
        r == is_lower_hex_char(c),
{
    let v = c as u32;
    (48 <= v && v <= 57) || (97 <= v && v <= 102)
}

/// The value of a lowercase hex digit character.
fn hex_val_exec(c: char) -> (r: u32)
    requires
        is_lower_hex_char(c),
    ensures
        r == hex_val(c),
        r < 16,
{
    let v = c as u32;
    if v <= 57 {
        v - 48
    } else {
        v - 97 + 10
    }
}

} // verus!
