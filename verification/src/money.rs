//! Cent arithmetic: fixed two-decimal formatting of balances and the
//! cent-rounded conversion payout.

use vstd::prelude::*;
use vstd::string::StringExecFns;

verus! {

/// Largest magnitude, in cents, that any ledger balance can reach
/// (see `ledger::lemma_balance_bound`); payout arithmetic is proved
/// overflow-free below this cap.
pub const BALANCE_ABS_CAP: i64 = 100000000000000;

/// The decimal digit character for `d` (clamped to `'9'` off range).
pub open spec fn digit_char(d: int) -> char {
    if d == 0 {
        '0'
    } else if d == 1 {
        '1'
    } else if d == 2 {
        '2'
    } else if d == 3 {
        '3'
    } else if d == 4 {
        '4'
    } else if d == 5 {
        '5'
    } else if d == 6 {
        '6'
    } else if d == 7 {
        '7'
    } else if d == 8 {
        '8'
    } else {
        '9'
    }
}

/// Decimal digits of `n`, most significant first, without a sign.
pub open spec fn spec_digits(n: int) -> Seq<char>
    recommends
        n >= 0,
    decreases n,
{
    if n < 10 {
        seq![digit_char(n)]
    } else {
        spec_digits(n / 10).push(digit_char(n % 10))
    }
}

/// `m` cents written as a dollar figure with exactly two decimals, unsigned.
pub open spec fn spec_format_magnitude(m: int) -> Seq<char>
    recommends
        m >= 0,
{
    spec_digits(m / 100) + seq!['.', digit_char((m % 100) / 10), digit_char(m % 10)]
}

/// `c` cents written as a signed dollar figure with exactly two decimals.
pub open spec fn spec_format_cents(c: int) -> Seq<char> {
    if c < 0 {
        seq!['-'] + spec_format_magnitude(-c)
    } else {
        spec_format_magnitude(c)
    }
}

/// `x / den`, rounded half away from zero (`den` even and positive).
pub open spec fn round_half_away(x: int, den: int) -> int
    recommends
        den > 0,
{
    if x >= 0 {
        (x + den / 2) / den
    } else {
        -((-x + den / 2) / den)
    }
}

/// The conversion payout in cents: a pot of `pot` cents cashed in at
/// `permille` tenths of a percent, rounded to the nearest cent half away
/// from zero.
pub open spec fn spec_award(pot: int, permille: int) -> int {
    round_half_away(pot * permille, 1000)
}

/// A payout never exceeds a non-negative pot, and never goes below zero.
pub proof fn lemma_award_range(pot: int, permille: int)
    requires
        0 <= pot,
        0 <= permille <= 1000,
    ensures
        0 <= spec_award(pot, permille) <= pot,
{
    assert(0 <= pot * permille <= 1000 * pot) by (nonlinear_arith)
        requires
            0 <= pot && 0 <= permille <= 1000,
    ;
    let x = pot * permille;
    assert(0 <= (x + 500) / 1000 <= pot) by (nonlinear_arith)
        requires
            0 <= x <= 1000 * pot,
    ;
}

fn append_digit(s: &mut String, d: u64)
    requires
        d < 10,
    ensures
        final(s)@ == old(s)@.push(digit_char(d as int)),
{
    if d == 0 {
        s.append("0");
        proof {
            reveal_strlit("0");
            assert(final(s)@ =~= old(s)@.push('0'));
        }
    } else if d == 1 {
        s.append("1");
        proof {
            reveal_strlit("1");
            assert(final(s)@ =~= old(s)@.push('1'));
        }
    } else if d == 2 {
        s.append("2");
        proof {
            reveal_strlit("2");
            assert(final(s)@ =~= old(s)@.push('2'));
        }
    } else if d == 3 {
        s.append("3");
        proof {
            reveal_strlit("3");
            assert(final(s)@ =~= old(s)@.push('3'));
        }
    } else if d == 4 {
        s.append("4");
        proof {
            reveal_strlit("4");
            assert(final(s)@ =~= old(s)@.push('4'));
        }
    } else if d == 5 {
        s.append("5");
        proof {
            reveal_strlit("5");
            assert(final(s)@ =~= old(s)@.push('5'));
        }
    } else if d == 6 {
        s.append("6");
        proof {
            reveal_strlit("6");
            assert(final(s)@ =~= old(s)@.push('6'));
        }
    } else if d == 7 {
        s.append("7");
        proof {
            reveal_strlit("7");
            assert(final(s)@ =~= old(s)@.push('7'));
        }
    } else if d == 8 {
        s.append("8");
        proof {
            reveal_strlit("8");
            assert(final(s)@ =~= old(s)@.push('8'));
        }
    } else {
        s.append("9");
        proof {
            reveal_strlit("9");
            assert(final(s)@ =~= old(s)@.push('9'));
        }
    }
}

fn push_digits(s: &mut String, n: u64)
    ensures
        final(s)@ == old(s)@ + spec_digits(n as int),
    decreases n,
{
    if n < 10 {
        append_digit(s, n);
        assert(final(s)@ =~= old(s)@ + spec_digits(n as int));
    } else {
        push_digits(s, n / 10);
        append_digit(s, n % 10);
        assert(final(s)@ =~= old(s)@ + spec_digits(n as int));
    }
}

/// `c` cents as a `String` in fixed two-decimal dollar form.
pub fn format_cents(c: i64) -> (r: String)
    requires
        c > i64::MIN,
    ensures
        r@ == spec_format_cents(c as int),
{
    let neg = c < 0;
    let m: u64 = if neg {
        (-c) as u64
    } else {
        c as u64
    };
    let mut s = String::new();
    if neg {
        s.append("-");
    }
    push_digits(&mut s, m / 100);
    s.append(".");
    append_digit(&mut s, (m % 100) / 10);
    append_digit(&mut s, m % 10);
    proof {
        reveal_strlit("-");
        reveal_strlit(".");
        if neg {
            assert(s@ =~= seq!['-'] + spec_format_magnitude(m as int));
        } else {
            assert(s@ =~= spec_format_magnitude(m as int));
        }
    }
    s
}

/// Exec counterpart of [`spec_award`].
pub fn award_cents(pot: i64, permille: u32) -> (r: i64)
    requires
        permille <= 1000,
        -BALANCE_ABS_CAP <= pot <= BALANCE_ABS_CAP,
    ensures
        r == spec_award(pot as int, permille as int),
{
    let neg = pot < 0;
    let mag: u64 = if neg {
        (-pot) as u64
    } else {
        pot as u64
    };
    proof {
        assert(mag as int * permille as int <= 100000000000000 * 1000) by (nonlinear_arith)
            requires
                0 <= mag as int <= 100000000000000 && 0 <= permille as int <= 1000,
        ;
    }
    let x: u64 = mag * (permille as u64);
    let q: u64 = (x + 500) / 1000;
    proof {
        let p = pot as int;
        let pm = permille as int;
        if neg {
            assert(mag as int * pm == -(p * pm)) by (nonlinear_arith)
                requires
                    mag as int == -p,
            ;
            assert(p * pm <= 0) by (nonlinear_arith)
                requires
                    p <= 0 && pm >= 0,
            ;
        } else {
            assert(mag as int * pm == p * pm);
        }
        assert(q as int <= mag as int) by (nonlinear_arith)
            requires
                x as int == mag as int * pm && pm <= 1000 && q as int == (x as int + 500) / 1000
                    && 0 <= mag as int,
        ;
    }
    if neg {
        -(q as i64)
    } else {
        q as i64
    }
}

} // verus!
