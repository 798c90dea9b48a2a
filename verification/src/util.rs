//! Decimal formatting of integers, exact down to the digit sequence.
use vstd::prelude::*;

verus! {

/// The character of one decimal digit.
pub open spec fn dec_digit(d: nat) -> char {
    if d == 0 {
        '0'
    } else if d == 1 {
        '1'
    } else if d == 2 {
        '2'
    } else if d == 3 {
        '3'
    } else if d == 4 {
        '4'
    } else if d == 5 {
        '5'
    } else if d == 6 {
        '6'
    } else if d == 7 {
        '7'
    } else if d == 8 {
        '8'
    } else {
        '9'
    }
}

/// The decimal digits of a natural number, most significant first.
pub open spec fn dec_str(n: nat) -> Seq<char>
    decreases n,
{
    if n < 10 {
        seq![dec_digit(n)]
    } else {
        dec_str(n / 10) + seq![dec_digit(n % 10)]
    }
}

/// The decimal form of an integer, with a sign for negative values.
pub open spec fn int_str(n: int) -> Seq<char> {
    if n < 0 {
        seq!['-'] + dec_str((-n) as nat)
    } else {
        dec_str(n as nat)
    }
}

/// The decimal digits padded with zeros on the left up to `w` characters.
pub open spec fn dec_str_pad(n: nat, w: nat) -> Seq<char>
    decreases w,
{
    if dec_str(n).len() >= w {
        dec_str(n)
    } else {
        seq!['0'] + dec_str_pad(n, (w - 1) as nat)
    }
}

/// One digit as text.
fn digit_str(d: u64) -> (r: &'static str)
    requires
        d < 10,
    ensures
        r@ == seq![dec_digit(d as nat)],
{
    proof {
        reveal_strlit("0");
        reveal_strlit("1");
        reveal_strlit("2");
        reveal_strlit("3");
        reveal_strlit("4");
        reveal_strlit("5");
        reveal_strlit("6");
        reveal_strlit("7");
        reveal_strlit("8");
        reveal_strlit("9");
    }
    if d == 0 {
        "0"
    } else if d == 1 {
        "1"
    } else if d == 2 {
        "2"
    } else if d == 3 {
        "3"
    } else if d == 4 {
        "4"
    } else if d == 5 {
        "5"
    } else if d == 6 {
        "6"
    } else if d == 7 {
        "7"
    } else if d == 8 {
        "8"
    } else {
        "9"
    }
}

/// Append the decimal form of `n` to the output.
pub fn push_u64_dec(out: &mut String, n: u64)
    ensures
        final(out)@ == old(out)@ + dec_str(n as nat),
    decreases n,
{
    if n >= 10 {
        push_u64_dec(out, n / 10);
    }
    out.append(digit_str(n % 10));
    proof {
        if n >= 10 {
            assert(old(out)@ + dec_str((n / 10) as nat) + seq![dec_digit((n % 10) as nat)]
                =~= old(out)@ + (dec_str((n / 10) as nat) + seq![dec_digit((n % 10) as nat)]));
        }
    }
}

/// The decimal form of a number.
pub fn u64_dec(n: u64) -> (r: String)
    ensures
        r@ == dec_str(n as nat),
{
    let mut out = String::new();
    push_u64_dec(&mut out, n);
    out
}

/// The digit counts of small numbers.
pub proof fn lemma_dec_len_small(n: nat)
    ensures
        n < 10 ==> dec_str(n).len() == 1,
        10 <= n < 100 ==> dec_str(n).len() == 2,
        100 <= n < 1000 ==> dec_str(n).len() == 3,
        1000 <= n < 10000 ==> dec_str(n).len() == 4,
        10000 <= n ==> dec_str(n).len() >= 5,
    decreases n,
{
    if n >= 10 {
        lemma_dec_len_small(n / 10);
    }
}

/// Append the decimal form padded with zeros on the left to two digits.
pub fn push_u64_pad2(out: &mut String, n: u64)
    requires
        n < 100,
    ensures
        final(out)@ == old(out)@ + dec_str_pad(n as nat, 2),
{
    proof {
        lemma_dec_len_small(n as nat);
        reveal_strlit("0");
        assert("0"@ =~= seq!['0']);
    }
    if n < 10 {
        out.append("0");
    }
    push_u64_dec(out, n);
    proof {
        if n < 10 {
            assert(dec_str_pad(n as nat, 1) == dec_str(n as nat));
            assert(dec_str_pad(n as nat, 2) =~= seq!['0'] + dec_str(n as nat));
            assert(old(out)@ + seq!['0'] + dec_str(n as nat) =~= old(out)@ + (seq!['0'] + dec_str(
                n as nat,
            )));
        }
    }
}

/// Append the decimal form padded with zeros on the left to four digits.
pub fn push_u64_pad4(out: &mut String, n: u64)
    ensures
        final(out)@ == old(out)@ + dec_str_pad(n as nat, 4),
{
    proof {
        lemma_dec_len_small(n as nat);
        reveal_strlit("0");
        assert("0"@ =~= seq!['0']);
    }
    if n < 10 {
        out.append("0");
        out.append("0");
        out.append("0");
    } else if n < 100 {
        out.append("0");
        out.append("0");
    } else if n < 1000 {
        out.append("0");
    }
    push_u64_dec(out, n);
    proof {
        let d = dec_str(n as nat);
        let z = seq!['0'];
        if n < 10 {
            assert(dec_str_pad(n as nat, 1) == d);
            assert(dec_str_pad(n as nat, 2) == z + dec_str_pad(n as nat, 1));
            assert(dec_str_pad(n as nat, 3) == z + dec_str_pad(n as nat, 2));
            assert(dec_str_pad(n as nat, 4) == z + dec_str_pad(n as nat, 3));
            assert(old(out)@ + z + z + z + d =~= old(out)@ + (z + (z + (z + d))));
            assert(dec_str_pad(n as nat, 4) =~= z + (z + (z + d)));
        } else if n < 100 {
            assert(dec_str_pad(n as nat, 2) == d);
            assert(dec_str_pad(n as nat, 3) == z + dec_str_pad(n as nat, 2));
            assert(dec_str_pad(n as nat, 4) == z + dec_str_pad(n as nat, 3));
            assert(dec_str_pad(n as nat, 4) =~= z + (z + d));
            assert(old(out)@ + z + z + d =~= old(out)@ + (z + (z + d)));
        } else if n < 1000 {
            assert(dec_str_pad(n as nat, 3) == d);
            assert(dec_str_pad(n as nat, 4) =~= z + d);
            assert(old(out)@ + z + d =~= old(out)@ + (z + d));
        }
    }
}

} // verus!
