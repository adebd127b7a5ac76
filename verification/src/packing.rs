use vstd::arithmetic::div_mod::lemma_fundamental_div_mod;
use vstd::prelude::*;

use crate::numerals::{hex_digit, hex_digit_str};

verus! {

/// The rendering of one byte as a C hexadecimal literal: `0x` followed by
/// exactly two lower-case hex digits.
pub open spec fn byte_literal(b: u8) -> Seq<char> {
    "0x"@ + seq![hex_digit((b / 16) as nat)] + seq![hex_digit((b % 16) as nat)]
}

/// The comma-joined byte literals of a byte sequence: a straight
/// byte-by-byte hexadecimal rendering, with `, ` between literals and
/// nothing else.
pub open spec fn hex_join(bs: Seq<u8>) -> Seq<char>
    decreases bs.len(),
{
    if bs.len() == 0 {
        Seq::empty()
    } else if bs.len() == 1 {
        byte_literal(bs[0])
    } else {
        byte_literal(bs[0]) + ", "@ + hex_join(bs.drop_first())
    }
}

/// Appends the rendering of one byte as a `0x..` literal to `res`.
pub fn push_byte_literal(res: &mut String, b: u8)
    ensures
        final(res)@ == old(res)@ + byte_literal(b),
{
    res.append("0x");
    res.append(hex_digit_str((b / 16) as u64));
    res.append(hex_digit_str((b % 16) as u64));
    proof {
        assert(res@ =~= old(res)@ + byte_literal(b));
    }
}

/// The numeric value of a lower-case hexadecimal digit character
/// (meaningful for the sixteen digit characters).
pub open spec fn hex_val(c: char) -> nat {
    if c == '0' {
        0
    } else if c == '1' {
        1
    } else if c == '2' {
        2
    } else if c == '3' {
        3
    } else if c == '4' {
        4
    } else if c == '5' {
        5
    } else if c == '6' {
        6
    } else if c == '7' {
        7
    } else if c == '8' {
        8
    } else if c == '9' {
        9
    } else if c == 'a' {
        10
    } else if c == 'b' {
        11
    } else if c == 'c' {
        12
    } else if c == 'd' {
        13
    } else if c == 'e' {
        14
    } else if c == 'f' {
        15
    } else {
        0
    }
}

/// The byte denoted by one rendered literal (meaningful for a four-character
/// `0x..` literal).
pub open spec fn lit_val(s: Seq<char>) -> u8
    recommends
        s.len() == 4,
{
    (hex_val(s[2]) * 16 + hex_val(s[3])) as u8
}

/// Reads `count` bytes back out of a comma-joined rendering: each literal
/// is four characters wide and literals start every six characters.
pub open spec fn decode_hex_join(s: Seq<char>, count: nat) -> Seq<u8> {
    Seq::new(count, |i: int| lit_val(s.subrange(6 * i, 6 * i + 4)))
}

proof fn lemma_hex_digit_val(d: nat)
    requires
        d < 16,
    ensures
        hex_val(hex_digit(d)) == d,
{
}

/// A rendered byte literal is four characters wide and denotes the byte it
/// was rendered from.
pub proof fn lemma_byte_literal_val(b: u8)
    ensures
        byte_literal(b).len() == 4,
        lit_val(byte_literal(b)) == b,
{
    reveal_strlit("0x");
    lemma_hex_digit_val((b / 16) as nat);
    lemma_hex_digit_val((b % 16) as nat);
    assert(byte_literal(b)[2] == hex_digit((b / 16) as nat));
    assert(byte_literal(b)[3] == hex_digit((b % 16) as nat));
    lemma_fundamental_div_mod(b as int, 16);
}

/// The width of the joined rendering: four characters per byte plus two
/// per separator.
pub proof fn lemma_hex_join_len(bs: Seq<u8>)
    ensures
        bs.len() == 0 ==> hex_join(bs).len() == 0,
        bs.len() > 0 ==> hex_join(bs).len() == 6 * bs.len() - 2,
    decreases bs.len(),
{
    reveal_strlit(", ");
    if bs.len() == 0 {
    } else if bs.len() == 1 {
        lemma_byte_literal_val(bs[0]);
    } else {
        lemma_byte_literal_val(bs[0]);
        lemma_hex_join_len(bs.drop_first());
    }
}

pub proof fn lemma_hex_join_push(bs: Seq<u8>, x: u8)
    ensures
        hex_join(bs.push(x)) == if bs.len() == 0 {
            byte_literal(x)
        } else {
            hex_join(bs) + ", "@ + byte_literal(x)
        },
    decreases bs.len(),
{
    if bs.len() == 0 {
        assert(bs.push(x)[0] == x);
        assert(hex_join(bs.push(x)) == byte_literal(x));
    } else if bs.len() == 1 {
        assert(bs.push(x)[0] == bs[0]);
        assert(bs.push(x).drop_first() =~= seq![x]);
        assert(hex_join(seq![x]) == byte_literal(x));
        assert(hex_join(bs) == byte_literal(bs[0]));
        assert(hex_join(bs.push(x)) =~= hex_join(bs) + ", "@ + byte_literal(x));
    } else {
        assert(bs.push(x)[0] == bs[0]);
        assert(bs.push(x).drop_first() =~= bs.drop_first().push(x));
        lemma_hex_join_push(bs.drop_first(), x);
        assert(hex_join(bs.push(x)) =~= hex_join(bs) + ", "@ + byte_literal(x));
    }
}

/// Packed round trip: reading the comma-joined hexadecimal rendering of a
/// byte sequence back, literal by literal, yields exactly the original
/// bytes.
pub proof fn lemma_hex_join_round_trip(bs: Seq<u8>)
    ensures
        decode_hex_join(hex_join(bs), bs.len()) == bs,
    decreases bs.len(),
{
    reveal_strlit(", ");
    let s = hex_join(bs);
    let n = bs.len();
    if n == 0 {
        assert(decode_hex_join(s, 0) =~= bs);
    } else if n == 1 {
        lemma_byte_literal_val(bs[0]);
        assert(s.subrange(0, 4) =~= byte_literal(bs[0]));
        assert(decode_hex_join(s, 1) =~= bs);
    } else {
        let rest = bs.drop_first();
        let tail = hex_join(rest);
        lemma_byte_literal_val(bs[0]);
        lemma_hex_join_len(bs);
        lemma_hex_join_len(rest);
        lemma_hex_join_round_trip(rest);
        assert forall|i: int| 0 <= i < n implies decode_hex_join(s, n)[i] == bs[i] by {
            if i == 0 {
                assert(s.subrange(0, 4) =~= byte_literal(bs[0]));
            } else {
                assert(s.subrange(6 * i, 6 * i + 4) =~= tail.subrange(
                    6 * (i - 1),
                    6 * (i - 1) + 4,
                ));
                assert(decode_hex_join(tail, rest.len())[i - 1] == rest[i - 1]);
            }
        }
        assert(decode_hex_join(s, n) =~= bs);
    }
}

} // verus!
