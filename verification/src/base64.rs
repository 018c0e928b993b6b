//! Standard padded Base64 encoding, used to hand cached images to the page as data URLs.

use vstd::prelude::*;
use crate::text::push_char;

verus! {

/// The Base64 digit for a 6-bit value `i` (`A-Z`, `a-z`, `0-9`, `+`, `/`).
pub open spec fn b64_digit(i: int) -> char {
    if i < 26 {
        (65 + i) as char
    } else if i < 52 {
        (97 + (i - 26)) as char
    } else if i < 62 {
        (48 + (i - 52)) as char
    } else if i == 62 {
        '+'
    } else {
        '/'
    }
}

/// The four output characters for one input group of one to three bytes;
/// missing bytes count as zero and their output positions become `=`.
pub open spec fn b64_group(b0: int, b1: int, b2: int, n: int) -> Seq<char> {
    seq![
        b64_digit(b0 / 4),
        b64_digit((b0 % 4) * 16 + b1 / 16),
        if n > 1 { b64_digit((b1 % 16) * 4 + b2 / 64) } else { '=' },
        if n > 2 { b64_digit(b2 % 64) } else { '=' },
    ]
}

/// Base64 (RFC 4648 alphabet, with `=` padding) of `data`, three bytes at a time.
pub open spec fn base64_spec(data: Seq<u8>) -> Seq<char>
    decreases data.len(),
{
    if data.len() == 0 {
        seq![]
    } else if data.len() == 1 {
        b64_group(data[0] as int, 0, 0, 1)
    } else if data.len() == 2 {
        b64_group(data[0] as int, data[1] as int, 0, 2)
    } else {
        b64_group(data[0] as int, data[1] as int, data[2] as int, 3) + base64_spec(data.skip(3))
    }
}

proof fn lemma_base64_len(data: Seq<u8>)
    ensures
        base64_spec(data).len() == 4 * ((data.len() + 2) / 3),
    decreases data.len(),
{
    if data.len() > 2 {
        lemma_base64_len(data.skip(3));
    }
}

/// The value of a Base64 digit in the RFC 4648 alphabet: `A`-`Z` are 0 to 25, `a`-`z`
/// 26 to 51, `0`-`9` 52 to 61, `+` 62 and `/` 63; any other character is -1.
pub open spec fn b64_value(c: char) -> int {
    if 'A' <= c && c <= 'Z' {
        c as int - 'A' as int
    } else if 'a' <= c && c <= 'z' {
        c as int - 'a' as int + 26
    } else if '0' <= c && c <= '9' {
        c as int - '0' as int + 52
    } else if c == '+' {
        62
    } else if c == '/' {
        63
    } else {
        -1
    }
}

/// Decodes padded Base64, four characters at a time: a group with `=` in its third
/// position stands for one byte, with `=` only in its fourth for two, else for three.
pub open spec fn base64_decode_spec(s: Seq<char>) -> Seq<u8>
    decreases s.len(),
{
    if s.len() < 4 {
        seq![]
    } else {
        let a = b64_value(s[0]);
        let b = b64_value(s[1]);
        let c = b64_value(s[2]);
        let d = b64_value(s[3]);
        let x0 = (a * 4 + b / 16) as u8;
        let x1 = ((b % 16) * 16 + c / 4) as u8;
        let x2 = ((c % 4) * 64 + d) as u8;
        if s[2] == '=' {
            seq![x0]
        } else if s[3] == '=' {
            seq![x0, x1]
        } else {
            seq![x0, x1, x2] + base64_decode_spec(s.skip(4))
        }
    }
}

/// Each 6-bit value has its own digit, which the alphabet maps back to it; no digit is
/// the padding character.
pub proof fn law_digit_is_invertible(i: int)
    requires
        0 <= i < 64,
    ensures
        b64_value(b64_digit(i)) == i,
        b64_digit(i) != '=',
        forall|j: int| 0 <= j < 64 && j != i ==> b64_digit(j) != b64_digit(i),
{
    assert forall|j: int| 0 <= j < 64 implies b64_value(b64_digit(j)) == j by {
        lemma_digit_value(j);
    }
    lemma_digit_value(i);
}

proof fn lemma_digit_value(i: int)
    requires
        0 <= i < 64,
    ensures
        b64_value(b64_digit(i)) == i,
{
    if i < 26 {
        assert(((65 + i) as char) as int == 65 + i);
    } else if i < 52 {
        assert(((97 + (i - 26)) as char) as int == 97 + (i - 26));
    } else if i < 62 {
        assert(((48 + (i - 52)) as char) as int == 48 + (i - 52));
    }
}

/// One group of up to three bytes decodes back to those bytes.
proof fn lemma_group_decodes(b0: u8, b1: u8, b2: u8, n: int, rest: Seq<char>)
    requires
        1 <= n <= 3,
        n < 2 ==> b1 == 0,
        n < 3 ==> b2 == 0,
        n < 3 ==> rest.len() == 0,
    ensures
        base64_decode_spec(b64_group(b0 as int, b1 as int, b2 as int, n) + rest) == (if n == 1 {
            seq![b0]
        } else if n == 2 {
            seq![b0, b1]
        } else {
            seq![b0, b1, b2] + base64_decode_spec(rest)
        }),
{
    let g = b64_group(b0 as int, b1 as int, b2 as int, n);
    let s = g + rest;
    let i0 = b0 as int / 4;
    let i1 = (b0 as int % 4) * 16 + b1 as int / 16;
    let i2 = (b1 as int % 16) * 4 + b2 as int / 64;
    let i3 = b2 as int % 64;
    lemma_digit_value(i0);
    lemma_digit_value(i1);
    lemma_digit_value(i2);
    lemma_digit_value(i3);
    law_digit_is_invertible(i2);
    law_digit_is_invertible(i3);
    assert(s[0] == b64_digit(i0) && s[1] == b64_digit(i1));
    assert(s[2] == g[2] && s[3] == g[3]);
    assert(s.skip(4) =~= rest);
    assert(i0 * 4 + i1 / 16 == b0 as int);
    assert((i1 % 16) * 16 + i2 / 4 == b1 as int);
    assert((i2 % 4) * 64 + i3 == b2 as int);
}

/// Base64 is invertible: decoding the Base64 of any bytes gives those bytes back.
pub proof fn law_base64_round_trip(data: Seq<u8>)
    ensures
        base64_decode_spec(base64_spec(data)) == data,
    decreases data.len(),
{
    if data.len() == 0 {
    } else if data.len() == 1 {
        lemma_group_decodes(data[0], 0, 0, 1, seq![]);
        assert(b64_group(data[0] as int, 0, 0, 1) + Seq::<char>::empty() =~= b64_group(data[0] as int, 0, 0, 1));
        assert(data =~= seq![data[0]]);
    } else if data.len() == 2 {
        lemma_group_decodes(data[0], data[1], 0, 2, seq![]);
        assert(b64_group(data[0] as int, data[1] as int, 0, 2) + Seq::<char>::empty() =~= b64_group(
            data[0] as int,
            data[1] as int,
            0,
            2,
        ));
        assert(data =~= seq![data[0], data[1]]);
    } else {
        law_base64_round_trip(data.skip(3));
        lemma_group_decodes(data[0], data[1], data[2], 3, base64_spec(data.skip(3)));
        assert(data =~= seq![data[0], data[1], data[2]] + data.skip(3));
    }
}

fn digit(i: u8) -> (c: char)
    requires
        i < 64,
    ensures
        c == b64_digit(i as int),
{
    if i < 26 {
        (65 + i) as char
    } else if i < 52 {
        (97 + (i - 26)) as char
    } else if i < 62 {
        (48 + (i - 52)) as char
    } else if i == 62 {
        '+'
    } else {
        '/'
    }
}

/// Encodes `data` as padded Base64. The output has `4 * ceil(n / 3)` characters.
pub fn base64_encode(data: &[u8]) -> (res: String)
    ensures
        res@ == base64_spec(data@),
        res@.len() == 4 * ((data@.len() + 2) / 3),
{
    let mut result = String::new();
    let n = data.len();
    let mut i: usize = 0;
    proof {
        assert(data@.skip(0) == data@);
    }
    while i < n
        invariant
            n == data@.len(),
            i <= n,
            base64_spec(data@) == result@ + base64_spec(data@.skip(i as int)),
        decreases n - i,
    {
        let rest = n - i;
        let b0 = data[i];
        let b1: u8 = if rest > 1 { data[i + 1] } else { 0 };
        let b2: u8 = if rest > 2 { data[i + 2] } else { 0 };
        let ghost before = result@;
        let ghost tail = data@.skip(i as int);
        push_char(&mut result, digit(b0 / 4));
        push_char(&mut result, digit((b0 % 4) * 16 + b1 / 16));
        if rest > 1 {
            push_char(&mut result, digit((b1 % 16) * 4 + b2 / 64));
        } else {
            push_char(&mut result, '=');
        }
        if rest > 2 {
            push_char(&mut result, digit(b2 % 64));
        } else {
            push_char(&mut result, '=');
        }
        let k: usize = if rest > 3 { 3 } else { rest };
        proof {
            let g = b64_group(b0 as int, b1 as int, b2 as int, rest as int);
            assert(result@ == before + g);
            if rest > 2 {
                assert(tail[0] == b0 && tail[1] == b1 && tail[2] == b2);
                assert(tail.skip(3) == data@.skip(i + 3));
                assert(base64_spec(tail) == g + base64_spec(tail.skip(3)));
            } else {
                assert(data@.skip(i + k) == Seq::<u8>::empty());
                assert(base64_spec(data@.skip(i + k)) == Seq::<char>::empty());
            }
        }
        i = i + k;
    }
    proof {
        lemma_base64_len(data@);
    }
    result
}

} // verus!
