//! Integers in decimal.

use vstd::prelude::*;
use crate::pad::push_char;

verus! {

/// The character of the decimal digit `d`.
pub open spec fn digit(d: nat) -> char {
    if d == 0 {
        '0'
    } else if d == 1 {
        '1'
    } else if d == 2 {
        '2'
    } else if d == 3 {
        '3'
    } else if d == 4 {
        '4'
    } else if d == 5 {
        '5'
    } else if d == 6 {
        '6'
    } else if d == 7 {
        '7'
    } else if d == 8 {
        '8'
    } else {
        '9'
    }
}

/// The decimal digits of `n`, the most significant first, without leading
/// zeros.
pub open spec fn digits(n: nat) -> Seq<char>
    decreases n,
{
    if n < 10 {
        seq![digit(n)]
    } else {
        digits(n / 10).push(digit(n % 10))
    }
}

/// `v` in decimal, with a minus sign before a negative number.
pub open spec fn decimal(v: int) -> Seq<char> {
    if v < 0 {
        seq!['-'] + digits((-v) as nat)
    } else {
        digits(v as nat)
    }
}

/// A number in decimal stays on one line.
pub proof fn lemma_decimal_one_line(v: int)
    ensures
        !decimal(v).contains('\n'),
{
    let n = if v < 0 {
        (-v) as nat
    } else {
        v as nat
    };
    lemma_digits_one_line(n);
    if decimal(v).contains('\n') {
        let i = choose|i: int| 0 <= i < decimal(v).len() && decimal(v)[i] == '\n';
        if v < 0 {
            assert(i > 0);
            assert(digits(n).contains(digits(n)[i - 1]));
        } else {
            assert(digits(n).contains(digits(n)[i]));
        }
    }
}

proof fn lemma_digits_one_line(n: nat)
    ensures
        !digits(n).contains('\n'),
    decreases n,
{
    if n >= 10 {
        lemma_digits_one_line(n / 10);
    }
    if digits(n).contains('\n') {
        let i = choose|i: int| 0 <= i < digits(n).len() && digits(n)[i] == '\n';
        if n >= 10 && i < digits(n / 10).len() {
            assert(digits(n / 10).contains(digits(n / 10)[i]));
        }
    }
}

fn digit_char(d: u8) -> (c: char)
    requires
        d < 10,
    ensures
        c == digit(d as nat),
{
    if d == 0 {
        '0'
    } else if d == 1 {
        '1'
    } else if d == 2 {
        '2'
    } else if d == 3 {
        '3'
    } else if d == 4 {
        '4'
    } else if d == 5 {
        '5'
    } else if d == 6 {
        '6'
    } else if d == 7 {
        '7'
    } else if d == 8 {
        '8'
    } else {
        '9'
    }
}

fn push_digits(out: &mut String, n: u128)
    ensures
        final(out)@ == old(out)@ + digits(n as nat),
    decreases n,
{
    if n >= 10 {
        push_digits(out, n / 10);
    }
    push_char(out, digit_char((n % 10) as u8));
    proof {
        if n >= 10 {
            assert(old(out)@ + digits(n as nat / 10).push(digit(n as nat % 10)) =~= (old(out)@
                + digits(n as nat / 10)).push(digit(n as nat % 10)));
        } else {
            assert(old(out)@ + seq![digit(n as nat)] =~= old(out)@.push(digit(n as nat)));
        }
    }
}

/// `v` in decimal.
pub fn to_decimal(v: i128) -> (text: String)
    ensures
        text@ == decimal(v as int),
{
    let mut text = String::new();
    if v < 0 {
        push_char(&mut text, '-');
        // the magnitude of the least `i128` is one more than the greatest
        let magnitude: u128 = (-(v + 1)) as u128 + 1;
        push_digits(&mut text, magnitude);
        proof {
            assert(Seq::<char>::empty().push('-') =~= seq!['-']);
        }
    } else {
        push_digits(&mut text, v as u128);
        proof {
            assert(Seq::<char>::empty() + digits(v as nat) =~= digits(v as nat));
        }
    }
    text
}

} // verus!
