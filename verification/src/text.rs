//! Numbers as text.

use vstd::prelude::*;
use vstd::string::StringExecFns;

verus! {

/// The decimal digit worth `value`.
pub open spec fn digit(value: int) -> char {
    if value == 0 {
        '0'
    } else if value == 1 {
        '1'
    } else if value == 2 {
        '2'
    } else if value == 3 {
        '3'
    } else if value == 4 {
        '4'
    } else if value == 5 {
        '5'
    } else if value == 6 {
        '6'
    } else if value == 7 {
        '7'
    } else if value == 8 {
        '8'
    } else {
        '9'
    }
}

/// `value` in decimal, without leading zeros.
pub open spec fn decimal(value: nat) -> Seq<char>
    decreases value,
{
    if value < 10 {
        seq![digit(value as int)]
    } else {
        decimal(value / 10).push(digit((value % 10) as int))
    }
}

/// What a decimal digit is worth.
pub open spec fn digit_worth(symbol: char) -> int {
    choose|value: int| 0 <= value <= 9 && #[trigger] digit(value) == symbol
}

/// The number that a row of decimal digits is worth.
pub open spec fn worth(digits: Seq<char>) -> nat
    decreases digits.len(),
{
    if digits.len() == 0 {
        0
    } else {
        worth(digits.drop_last()) * 10 + digit_worth(digits.last()) as nat
    }
}

/// The decimal digit worth `value`.
fn digit_text(value: u64) -> (text: &'static str)
    requires
        value < 10,
    ensures
        text@ == seq![digit(value as int)],
{
    proof {
        reveal_strlit("0");
        reveal_strlit("1");
        reveal_strlit("2");
        reveal_strlit("3");
        reveal_strlit("4");
        reveal_strlit("5");
        reveal_strlit("6");
        reveal_strlit("7");
        reveal_strlit("8");
        reveal_strlit("9");
    }
    let text = match value {
        0 => "0",
        1 => "1",
        2 => "2",
        3 => "3",
        4 => "4",
        5 => "5",
        6 => "6",
        7 => "7",
        8 => "8",
        _ => "9",
    };
    assert(text@ == seq![digit(value as int)]);
    text
}

/// `value` in decimal.
pub fn decimal_text(value: u64) -> (text: String)
    ensures
        text@ == decimal(value as nat),
    decreases value,
{
    let mut text = if value < 10 {
        String::new()
    } else {
        decimal_text(value / 10)
    };
    let ghost before = text@;
    text.append(digit_text(value % 10));
    assert(text@ == before.push(digit((value % 10) as int)));
    if value < 10 {
        assert(text@ == seq![digit(value as int)]);
    }
    text
}

/// A number's decimal digits are worth that number.
pub proof fn law_decimal_reads_back(value: nat)
    ensures
        worth(decimal(value)) == value,
    decreases value,
{
    let digits = decimal(value);
    let low = (value % 10) as int;
    assert(digits.last() == digit(low));
    assert(digit_worth(digit(low)) == low);
    if value < 10 {
        assert(worth(digits.drop_last()) == 0);
    } else {
        assert(digits.drop_last() == decimal(value / 10));
        law_decimal_reads_back(value / 10);
    }
}

/// Decimal numbers are written as usual: the last digit is the ASCII one for
/// the number of ones, those before it are the number of tens, and a single
/// digit has nothing before it.
pub proof fn law_decimal_is_positional(value: nat)
    ensures
        decimal(value).last() as u32 == 48 + value % 10,
        decimal(value).len() > 0,
        value < 10 <==> decimal(value).len() == 1,
        value >= 10 ==> decimal(value).drop_last() == decimal(value / 10),
{
    if value >= 10 {
        assert(decimal(value).drop_last() == decimal(value / 10));
        assert(decimal(value / 10).len() > 0);
    }
}

/// What a row of ASCII digits is worth.
pub open spec fn ascii_worth(digits: Seq<char>) -> int
    decreases digits.len(),
{
    if digits.len() == 0 {
        0
    } else {
        10 * ascii_worth(digits.drop_last()) + (digits.last() as int - 48)
    }
}

/// A decimal number reads back as ASCII digits, without a leading zero.
pub proof fn law_decimal_is_ascii(value: nat)
    ensures
        ascii_worth(decimal(value)) == value,
        value > 0 ==> decimal(value)[0] as u32 != 48,
        forall|at: int|
            0 <= at < decimal(value).len() ==> 48 <= #[trigger] decimal(value)[at] as u32 <= 57,
    decreases value,
{
    law_decimal_is_positional(value);
    let digits = decimal(value);
    if value >= 10 {
        law_decimal_is_ascii(value / 10);
        assert(digits[0] == digits.drop_last()[0]);
        assert forall|at: int| 0 <= at < digits.len() implies 48 <= #[trigger] digits[at] as u32
            <= 57 by {
            if at < digits.len() - 1 {
                assert(digits[at] == digits.drop_last()[at]);
            }
        }
    } else {
        assert(digits.drop_last() == Seq::<char>::empty());
        assert(ascii_worth(digits.drop_last()) == 0);
    }
}

} // verus!
