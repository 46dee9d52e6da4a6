//! Numbers written as text.

use vstd::prelude::*;
use vstd::string::StringExecFns;

verus! {

/// The character of the last decimal digit of `n`.
pub open spec fn digit_char(n: nat) -> char {
    let d = n % 10;
    if d == 0 {
        '0'
    } else if d == 1 {
        '1'
    } else if d == 2 {
        '2'
    } else if d == 3 {
        '3'
    } else if d == 4 {
        '4'
    } else if d == 5 {
        '5'
    } else if d == 6 {
        '6'
    } else if d == 7 {
        '7'
    } else if d == 8 {
        '8'
    } else {
        '9'
    }
}

/// The last `width` decimal digits of `n`, the most significant first, with
/// zeros in front where `n` has fewer.
pub open spec fn decimal(n: nat, width: nat) -> Seq<char>
    decreases width,
{
    if width == 0 {
        Seq::empty()
    } else {
        decimal(n / 10, (width - 1) as nat).push(digit_char(n))
    }
}

/// The number of decimal digits of `n`; one for zero.
pub open spec fn digits(n: nat) -> nat
    decreases n,
{
    if n < 10 {
        1
    } else {
        1 + digits(n / 10)
    }
}

/// `n` in decimal digits, without zeros in front.
pub open spec fn numeral(n: nat) -> Seq<char> {
    decimal(n, digits(n))
}

/// The last decimal digit of `n` as text.
fn digit_text(n: u64) -> (s: &'static str)
    ensures
        s@ == seq![digit_char(n as nat)],
{
    proof {
        reveal_strlit("0");
        reveal_strlit("1");
        reveal_strlit("2");
        reveal_strlit("3");
        reveal_strlit("4");
        reveal_strlit("5");
        reveal_strlit("6");
        reveal_strlit("7");
        reveal_strlit("8");
        reveal_strlit("9");
    }
    let d: u64 = n % 10;
    let s = if d == 0 {
        "0"
    } else if d == 1 {
        "1"
    } else if d == 2 {
        "2"
    } else if d == 3 {
        "3"
    } else if d == 4 {
        "4"
    } else if d == 5 {
        "5"
    } else if d == 6 {
        "6"
    } else if d == 7 {
        "7"
    } else if d == 8 {
        "8"
    } else {
        "9"
    };
    assert(s@ =~= seq![digit_char(n as nat)]);
    s
}

/// Appends the last `width` decimal digits of `n` to `out`.
pub fn append_decimal(out: &mut String, n: u64, width: u8)
    ensures
        final(out)@ == old(out)@ + decimal(n as nat, width as nat),
    decreases width,
{
    if width == 0 {
        assert(out@ =~= old(out)@ + decimal(n as nat, 0));
    } else {
        append_decimal(out, n / 10, width - 1);
        out.append(digit_text(n));
        assert(out@ =~= old(out)@ + decimal(n as nat, width as nat));
    }
}

/// The number of decimal digits of `n`.
pub fn count_digits(n: u64) -> (width: u8)
    ensures
        width == digits(n as nat),
        1 <= width <= 20,
{
    let mut width: u8 = 1;
    let mut rest: u64 = n;
    assert(rest * pow10((width - 1) as nat) == n) by (nonlinear_arith)
        requires
            pow10((width - 1) as nat) == 1,
            rest == n,
    ;
    while rest >= 10
        invariant
            1 <= width <= 20,
            digits(n as nat) == width - 1 + digits(rest as nat),
            rest * pow10((width - 1) as nat) <= n,
        decreases rest,
    {
        proof {
            lemma_pow10_step(rest as nat, (width - 1) as nat, n as nat);
        }
        rest = rest / 10;
        width = width + 1;
    }
    width
}

/// Ten to the power of `k`.
pub open spec fn pow10(k: nat) -> nat
    decreases k,
{
    if k == 0 {
        1
    } else {
        10 * pow10((k - 1) as nat)
    }
}

/// A number of 64 bits that still has a digit to spare after `k` were cut
/// off has had fewer than 19 cut off.
proof fn lemma_pow10_step(rest: nat, k: nat, n: nat)
    requires
        rest >= 10,
        rest * pow10(k) <= n,
        n <= u64::MAX,
        k <= 19,
    ensures
        k < 19,
        (rest / 10) * pow10(k + 1) <= n,
{
    assert(pow10(19) == 10_000_000_000_000_000_000) by {
        reveal_with_fuel(pow10, 20);
    }
    assert((rest / 10) * pow10(k + 1) <= rest * pow10(k)) by (nonlinear_arith)
        requires
            pow10(k + 1) == 10 * pow10(k),
            rest >= 0,
            pow10(k) >= 0,
    ;
    if k == 19 {
        assert(10 * pow10(19) <= rest * pow10(19)) by (nonlinear_arith)
            requires
                rest >= 10,
                pow10(19) >= 0,
        ;
    }
}

/// Appends `n` in decimal digits, without zeros in front, to `out`.
pub fn append_numeral(out: &mut String, n: u64)
    ensures
        final(out)@ == old(out)@ + numeral(n as nat),
{
    append_decimal(out, n, count_digits(n));
}

} // verus!
