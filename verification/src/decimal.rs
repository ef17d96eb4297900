//! Decimal numbers as text.
use vstd::prelude::*;

verus! {

/// The decimal digit of a value below ten.
pub open spec fn digit(n: nat) -> char {
    (48 + n % 10) as char
}

/// A number in decimal, without leading zeros.
pub open spec fn decimal(n: nat) -> Seq<char>
    decreases n,
{
    if n < 10 {
        seq![digit(n)]
    } else {
        decimal(n / 10).push(digit(n))
    }
}

/// Two numbers with the same decimal text are the same number.
pub proof fn decimal_injective(a: nat, b: nat)
    requires
        decimal(a) == decimal(b),
    ensures
        a == b,
    decreases a,
{
    let (da, db) = (decimal(a), decimal(b));
    assert(da.last() == digit(a) && db.last() == digit(b));
    assert(a % 10 == b % 10);
    decimal_nonempty(a / 10);
    decimal_nonempty(b / 10);
    if a >= 10 && b >= 10 {
        assert(da.drop_last() == decimal(a / 10));
        assert(db.drop_last() == decimal(b / 10));
        decimal_injective(a / 10, b / 10);
    }
}

/// A decimal text has at least one digit.
pub proof fn decimal_nonempty(n: nat)
    ensures
        decimal(n).len() >= 1,
{
}

/// A power of ten.
pub open spec fn ten_to(k: nat) -> nat
    decreases k,
{
    if k == 0 {
        1
    } else {
        10 * ten_to((k - 1) as nat)
    }
}

/// A number below a power of ten has no more digits than the power.
pub proof fn decimal_length(n: nat, k: nat)
    requires
        k >= 1,
        n < ten_to(k),
    ensures
        decimal(n).len() <= k,
    decreases k,
{
    if n >= 10 {
        assert(ten_to(1) == 10) by {
            reveal_with_fuel(ten_to, 2);
        }
        decimal_length(n / 10, (k - 1) as nat);
    }
}

/// A machine number has at most twenty digits.
pub proof fn decimal_length_u64(n: u64)
    ensures
        decimal(n as nat).len() <= 20,
{
    reveal_with_fuel(ten_to, 21);
    decimal_length(n as nat, 20);
}

/// A decimal text is made of digits.
pub proof fn decimal_digits(n: nat, i: int)
    requires
        0 <= i < decimal(n).len(),
    ensures
        '0' <= decimal(n)[i] <= '9',
    decreases n,
{
    if n >= 10 && i < decimal(n).len() - 1 {
        decimal_digits(n / 10, i);
    }
}

/// The text of a digit.
fn digit_text(n: u64) -> (s: &'static str)
    requires
        n < 10,
    ensures
        s@ == seq![digit(n as nat)],
{
    proof {
        reveal_strlit("0");
        reveal_strlit("1");
        reveal_strlit("2");
        reveal_strlit("3");
        reveal_strlit("4");
        reveal_strlit("5");
        reveal_strlit("6");
        reveal_strlit("7");
        reveal_strlit("8");
        reveal_strlit("9");
    }
    match n {
        0 => "0",
        1 => "1",
        2 => "2",
        3 => "3",
        4 => "4",
        5 => "5",
        6 => "6",
        7 => "7",
        8 => "8",
        _ => "9",
    }
}

/// Writes a number in decimal.
pub fn to_decimal(n: u64) -> (s: String)
    ensures
        s@ == decimal(n as nat),
    decreases n,
{
    let mut s: String = if n < 10 {
        String::new()
    } else {
        to_decimal(n / 10)
    };
    s.append(digit_text(n % 10));
    s
}

} // verus!
