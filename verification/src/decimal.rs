//! The decimal text of a fixed-point number.
//!
//! The text holds a minus sign for a negative number, the whole part without
//! leading zeros and, where the number is not whole, a point and the
//! fractional digits up to the last one that is not zero: `10`, `-5.25`,
//! `0.000001`.

use crate::fixed::{magnitude, Fixed, SCALE};
use vstd::prelude::*;
use vstd::string::StringExecFns;

verus! {

/// The character of the decimal digit `d`.
pub open spec fn digit(d: int) -> char
    recommends
        0 <= d < 10,
{
    (d + 48) as char
}

/// The decimal digits of `n`, without leading zeros.
pub open spec fn whole_digits(n: nat) -> Seq<char>
    decreases n,
{
    if n < 10 {
        seq![digit(n as int)]
    } else {
        whole_digits(n / 10).push(digit((n % 10) as int))
    }
}

/// The digits of `rest` from the place worth `unit` down, for
/// `rest < 10 * unit`, up to the last digit that is not zero.
pub open spec fn fraction_digits(rest: nat, unit: nat) -> Seq<char>
    decreases unit,
{
    if rest == 0 || unit == 0 {
        Seq::<char>::empty()
    } else {
        seq![digit((rest / unit) as int)] + fraction_digits(rest % unit, unit / 10)
    }
}

/// The decimal text of the number of `raw` units.
pub open spec fn decimal_text(raw: int) -> Seq<char> {
    let whole = (magnitude(raw) / (SCALE as int)) as nat;
    let fraction = (magnitude(raw) % (SCALE as int)) as nat;
    (if raw < 0 {
        seq!['-']
    } else {
        Seq::<char>::empty()
    }) + whole_digits(whole) + (if fraction == 0 {
        Seq::<char>::empty()
    } else {
        seq!['.'] + fraction_digits(fraction, (SCALE / 10) as nat)
    })
}

/// The text of one decimal digit.
fn digit_text(d: u64) -> (text: &'static str)
    requires
        d < 10,
    ensures
        text@ == seq![digit(d as int)],
{
    proof {
        reveal_strlit("0");
        reveal_strlit("1");
        reveal_strlit("2");
        reveal_strlit("3");
        reveal_strlit("4");
        reveal_strlit("5");
        reveal_strlit("6");
        reveal_strlit("7");
        reveal_strlit("8");
        reveal_strlit("9");
    }
    let text = if d == 0 {
        "0"
    } else if d == 1 {
        "1"
    } else if d == 2 {
        "2"
    } else if d == 3 {
        "3"
    } else if d == 4 {
        "4"
    } else if d == 5 {
        "5"
    } else if d == 6 {
        "6"
    } else if d == 7 {
        "7"
    } else if d == 8 {
        "8"
    } else {
        "9"
    };
    assert(text@ =~= seq![digit(d as int)]);
    text
}

/// Appends the decimal digits of `n` to `text`.
fn append_whole(text: &mut String, n: u64)
    ensures
        final(text)@ == old(text)@ + whole_digits(n as nat),
    decreases n,
{
    if n >= 10 {
        append_whole(text, n / 10);
    }
    text.append(digit_text(n % 10));
    assert(text@ =~= old(text)@ + whole_digits(n as nat));
}

/// Appends the fractional digits of `fraction` millionths to `text`.
fn append_fraction(text: &mut String, fraction: u64)
    requires
        fraction < SCALE,
    ensures
        final(text)@ == old(text)@ + fraction_digits(fraction as nat, (SCALE / 10) as nat),
{
    let mut rest: u64 = fraction;
    let mut unit: u64 = 100_000;
    while rest != 0
        invariant
            rest == 0 || rest < 10 * unit,
            unit == 100_000 || unit == 10_000 || unit == 1_000 || unit == 100 || unit == 10
                || unit == 1 || unit == 0,
            old(text)@ + fraction_digits(fraction as nat, (SCALE / 10) as nat) == text@
                + fraction_digits(rest as nat, unit as nat),
        decreases unit,
    {
        assert(unit != 0);
        assert(rest / unit < 10) by (nonlinear_arith)
            requires
                rest < 10 * unit,
                unit > 0,
        ;
        assert(rest % unit == 0 || rest % unit < 10 * (unit / 10));
        let ghost before = text@;
        text.append(digit_text(rest / unit));
        assert(before + fraction_digits(rest as nat, unit as nat) =~= text@ + fraction_digits(
            (rest % unit) as nat,
            (unit / 10) as nat,
        ));
        rest = rest % unit;
        unit = unit / 10;
    }
    assert(text@ + fraction_digits(rest as nat, unit as nat) =~= text@);
}

impl Fixed {
    /// The decimal text of this number.
    pub fn to_text(&self) -> (text: String)
        ensures
            text@ == decimal_text(self@),
    {
        let raw: i64 = self.raw();
        let size: u64 = if raw < 0 {
            (-raw) as u64
        } else {
            raw as u64
        };
        let mut text = String::new();
        if raw < 0 {
            proof {
                reveal_strlit("-");
            }
            text.append("-");
        }
        append_whole(&mut text, size / (SCALE as u64));
        let fraction: u64 = size % (SCALE as u64);
        if fraction != 0 {
            proof {
                reveal_strlit(".");
            }
            text.append(".");
            append_fraction(&mut text, fraction);
        }
        assert(text@ =~= decimal_text(self@));
        text
    }
}

} // verus!
