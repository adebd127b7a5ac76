use vstd::prelude::*;

verus! {

/// The decimal digit character for `d` (meaningful for `d < 10`).
pub open spec fn dec_digit(d: nat) -> char
    recommends
        d < 10,
{
    if d == 0 {
        '0'
    } else if d == 1 {
        '1'
    } else if d == 2 {
        '2'
    } else if d == 3 {
        '3'
    } else if d == 4 {
        '4'
    } else if d == 5 {
        '5'
    } else if d == 6 {
        '6'
    } else if d == 7 {
        '7'
    } else if d == 8 {
        '8'
    } else {
        '9'
    }
}

/// The usual decimal rendering of `n`, without sign or padding.
pub open spec fn dec_text(n: nat) -> Seq<char>
    decreases n,
{
    if n < 10 {
        seq![dec_digit(n)]
    } else {
        dec_text(n / 10) + seq![dec_digit(n % 10)]
    }
}

/// The lower-case hexadecimal digit character for `d` (meaningful for `d < 16`).
pub open spec fn hex_digit(d: nat) -> char
    recommends
        d < 16,
{
    if d < 10 {
        dec_digit(d)
    } else if d == 10 {
        'a'
    } else if d == 11 {
        'b'
    } else if d == 12 {
        'c'
    } else if d == 13 {
        'd'
    } else if d == 14 {
        'e'
    } else {
        'f'
    }
}

/// The upper-case hexadecimal digit character for `d` (meaningful for `d < 16`).
pub open spec fn hex_digit_upper(d: nat) -> char
    recommends
        d < 16,
{
    if d < 10 {
        dec_digit(d)
    } else if d == 10 {
        'A'
    } else if d == 11 {
        'B'
    } else if d == 12 {
        'C'
    } else if d == 13 {
        'D'
    } else if d == 14 {
        'E'
    } else {
        'F'
    }
}

/// The upper-case hexadecimal rendering of `n`, zero-padded to exactly
/// `width` digits (the low `width` digits of `n`).
pub open spec fn hex_text_padded(n: nat, width: nat) -> Seq<char>
    decreases width,
{
    if width == 0 {
        Seq::empty()
    } else {
        hex_text_padded(n / 16, (width - 1) as nat) + seq![hex_digit_upper(n % 16)]
    }
}

fn dec_digit_str(d: u64) -> (r: &'static str)
    requires
        d < 10,
    ensures
        r@ == seq![dec_digit(d as nat)],
{
    proof {
        reveal_strlit("0");
        reveal_strlit("1");
        reveal_strlit("2");
        reveal_strlit("3");
        reveal_strlit("4");
        reveal_strlit("5");
        reveal_strlit("6");
        reveal_strlit("7");
        reveal_strlit("8");
        reveal_strlit("9");
        assert("0"@ =~= seq!['0']);
        assert("1"@ =~= seq!['1']);
        assert("2"@ =~= seq!['2']);
        assert("3"@ =~= seq!['3']);
        assert("4"@ =~= seq!['4']);
        assert("5"@ =~= seq!['5']);
        assert("6"@ =~= seq!['6']);
        assert("7"@ =~= seq!['7']);
        assert("8"@ =~= seq!['8']);
        assert("9"@ =~= seq!['9']);
    }
    if d == 0 {
        "0"
    } else if d == 1 {
        "1"
    } else if d == 2 {
        "2"
    } else if d == 3 {
        "3"
    } else if d == 4 {
        "4"
    } else if d == 5 {
        "5"
    } else if d == 6 {
        "6"
    } else if d == 7 {
        "7"
    } else if d == 8 {
        "8"
    } else {
        "9"
    }
}

pub(crate) fn hex_digit_str(d: u64) -> (r: &'static str)
    requires
        d < 16,
    ensures
        r@ == seq![hex_digit(d as nat)],
{
    if d < 10 {
        dec_digit_str(d)
    } else {
        proof {
            reveal_strlit("a");
            reveal_strlit("b");
            reveal_strlit("c");
            reveal_strlit("d");
            reveal_strlit("e");
            reveal_strlit("f");
            assert("a"@ =~= seq!['a']);
            assert("b"@ =~= seq!['b']);
            assert("c"@ =~= seq!['c']);
            assert("d"@ =~= seq!['d']);
            assert("e"@ =~= seq!['e']);
            assert("f"@ =~= seq!['f']);
        }
        if d == 10 {
            "a"
        } else if d == 11 {
            "b"
        } else if d == 12 {
            "c"
        } else if d == 13 {
            "d"
        } else if d == 14 {
            "e"
        } else {
            "f"
        }
    }
}

fn hex_digit_upper_str(d: u64) -> (r: &'static str)
    requires
        d < 16,
    ensures
        r@ == seq![hex_digit_upper(d as nat)],
{
    if d < 10 {
        dec_digit_str(d)
    } else {
        proof {
            reveal_strlit("A");
            reveal_strlit("B");
            reveal_strlit("C");
            reveal_strlit("D");
            reveal_strlit("E");
            reveal_strlit("F");
            assert("A"@ =~= seq!['A']);
            assert("B"@ =~= seq!['B']);
            assert("C"@ =~= seq!['C']);
            assert("D"@ =~= seq!['D']);
            assert("E"@ =~= seq!['E']);
            assert("F"@ =~= seq!['F']);
        }
        if d == 10 {
            "A"
        } else if d == 11 {
            "B"
        } else if d == 12 {
            "C"
        } else if d == 13 {
            "D"
        } else if d == 14 {
            "E"
        } else {
            "F"
        }
    }
}

proof fn lemma_dec_digit_injective(a: nat, b: nat)
    requires
        a < 10,
        b < 10,
        dec_digit(a) == dec_digit(b),
    ensures
        a == b,
{
}

/// A decimal rendering is never empty, and is a single character exactly
/// for the values below ten.
pub proof fn lemma_dec_text_len(n: nat)
    ensures
        dec_text(n).len() >= 1,
        (dec_text(n).len() == 1) == (n < 10),
    decreases n,
{
    if n >= 10 {
        lemma_dec_text_len(n / 10);
    }
}

/// Decimal rendering is injective: distinct values never render to the
/// same text.
pub proof fn lemma_dec_text_injective(m: nat, n: nat)
    requires
        dec_text(m) == dec_text(n),
    ensures
        m == n,
    decreases m,
{
    lemma_dec_text_len(m);
    lemma_dec_text_len(n);
    if m < 10 && n < 10 {
        assert(dec_text(m)[0] == dec_digit(m));
        assert(dec_text(n)[0] == dec_digit(n));
        assert(dec_digit(m) == dec_digit(n));
        lemma_dec_digit_injective(m, n);
    } else if m < 10 || n < 10 {
        assert(dec_text(m).len() == dec_text(n).len());
        assert(false);
    } else {
        lemma_dec_text_len(m / 10);
        lemma_dec_text_len(n / 10);
        let lm = dec_text(m).len();
        assert(dec_text(m)[lm - 1] == dec_digit(m % 10));
        assert(dec_text(n)[lm - 1] == dec_digit(n % 10));
        lemma_dec_digit_injective(m % 10, n % 10);
        assert(dec_text(m).subrange(0, lm - 1) =~= dec_text(m / 10));
        assert(dec_text(n).subrange(0, lm - 1) =~= dec_text(n / 10));
        lemma_dec_text_injective(m / 10, n / 10);
        vstd::arithmetic::div_mod::lemma_fundamental_div_mod(m as int, 10);
        vstd::arithmetic::div_mod::lemma_fundamental_div_mod(n as int, 10);
    }
}

/// Appends the decimal rendering of `n` to `res`.
pub fn push_dec(res: &mut String, n: u64)
    ensures
        final(res)@ == old(res)@ + dec_text(n as nat),
    decreases n,
{
    if n < 10 {
        res.append(dec_digit_str(n));
    } else {
        push_dec(res, n / 10);
        res.append(dec_digit_str(n % 10));
        proof {
            assert(old(res)@ + dec_text((n / 10) as nat) + seq![dec_digit((n % 10) as nat)] =~= old(
                res,
            )@ + dec_text(n as nat));
        }
    }
}

/// Appends the upper-case hexadecimal rendering of `n`, zero-padded to
/// `width` digits, to `res`.
pub fn push_hex_padded(res: &mut String, n: u64, width: u64)
    ensures
        final(res)@ == old(res)@ + hex_text_padded(n as nat, width as nat),
    decreases width,
{
    if width == 0 {
        proof {
            assert(old(res)@ + hex_text_padded(n as nat, 0) =~= old(res)@);
        }
    } else {
        push_hex_padded(res, n / 16, width - 1);
        res.append(hex_digit_upper_str(n % 16));
        proof {
            assert(old(res)@ + hex_text_padded((n / 16) as nat, (width - 1) as nat) + seq![
                hex_digit_upper((n % 16) as nat),
            ] =~= old(res)@ + hex_text_padded(n as nat, width as nat));
        }
    }
}

} // verus!
