//! Numbers written in decimal, as the responses carry them.

use vstd::prelude::*;
use vstd::string::*;

verus! {

/// The character that stands for the digit `d`.
pub open spec fn digit_char(d: int) -> char {
    seq!['0', '1', '2', '3', '4', '5', '6', '7', '8', '9'][d]
}

/// `c` is one of the ten decimal digits.
pub open spec fn is_digit(c: char) -> bool {
    exists|d: int| 0 <= d < 10 && c == #[trigger] digit_char(d)
}

/// The digit that `c` stands for.
pub open spec fn digit_value(c: char) -> int {
    choose|d: int| 0 <= d < 10 && c == #[trigger] digit_char(d)
}

/// `n` in decimal: most significant digit first, no sign, no leading zero
/// but for zero itself.
pub open spec fn decimal(n: nat) -> Seq<char>
    decreases n,
{
    if n < 10 {
        seq![digit_char(n as int)]
    } else {
        decimal(n / 10).push(digit_char((n % 10) as int))
    }
}

/// The number that a text of decimal digits denotes.
pub open spec fn decimal_value(s: Seq<char>) -> nat
    decreases s.len(),
{
    if s.len() == 0 {
        0
    } else {
        (decimal_value(s.drop_last()) * 10 + digit_value(s.last())) as nat
    }
}

/// The decimals of an amount counted in thousandths: the tenths, the
/// hundredths and the thousandths, as far as they are not zero. 500 gives
/// `5`, 130 gives `13`, 7 gives `007`, and a whole amount gives none.
pub open spec fn decimals(m: nat) -> Seq<char> {
    let tenths = digit_char(((m / 100) % 10) as int);
    let hundredths = digit_char(((m / 10) % 10) as int);
    let thousandths = digit_char((m % 10) as int);
    if m % 10 != 0 {
        seq![tenths, hundredths, thousandths]
    } else if m % 100 != 0 {
        seq![tenths, hundredths]
    } else if m % 1000 != 0 {
        seq![tenths]
    } else {
        Seq::empty()
    }
}

/// An amount counted in thousandths, written as a decimal number: the whole
/// part, and then a point and the decimals only where some decimal is not
/// zero. 0 is `0`, 1 500 is `1.5`, 130 is `0.13`, 12 345 is `12.345`.
pub open spec fn thousandths(m: nat) -> Seq<char> {
    if m % 1000 == 0 {
        decimal(m / 1000)
    } else {
        decimal(m / 1000) + seq!['.'] + decimals(m)
    }
}

/// Each digit is written as a character of its own, and read back as itself.
pub proof fn lemma_digit_round_trip(d: int)
    requires
        0 <= d < 10,
    ensures
        is_digit(digit_char(d)),
        digit_value(digit_char(d)) == d,
{
    let c = digit_char(d);
    let e = digit_value(c);
    assert(0 <= e < 10 && c == digit_char(e));
}

/// A number in decimal is one digit or more, and digits only.
pub proof fn lemma_decimal_is_digits(n: nat)
    ensures
        decimal(n).len() >= 1,
        forall|i: int| 0 <= i < decimal(n).len() ==> is_digit(#[trigger] decimal(n)[i]),
    decreases n,
{
    if n < 10 {
        lemma_digit_round_trip(n as int);
    } else {
        lemma_decimal_is_digits(n / 10);
        lemma_digit_round_trip((n % 10) as int);
    }
}

/// Reading a number written in decimal gives the number back.
pub proof fn lemma_decimal_round_trip(n: nat)
    ensures
        decimal_value(decimal(n)) == n,
    decreases n,
{
    let s = decimal(n);
    if n < 10 {
        lemma_digit_round_trip(n as int);
        assert(s.drop_last() =~= Seq::<char>::empty());
        assert(decimal_value(s.drop_last()) == 0);
    } else {
        lemma_decimal_round_trip(n / 10);
        lemma_digit_round_trip((n % 10) as int);
        assert(s.drop_last() =~= decimal(n / 10));
    }
}

/// Two digits that differ are written differently.
pub proof fn lemma_digits_differ(a: int, b: int)
    requires
        0 <= a < 10,
        0 <= b < 10,
        a != b,
    ensures
        digit_char(a) != digit_char(b),
{
    lemma_digit_round_trip(a);
    lemma_digit_round_trip(b);
}

/// The decimals stop at the last one that is not zero: there are three at
/// most, none for a whole amount and for no other, and the last of them is
/// never a zero.
pub proof fn lemma_decimals_are_trimmed(m: nat)
    ensures
        decimals(m).len() <= 3,
        decimals(m).len() == 0 <==> m % 1000 == 0,
        decimals(m).len() > 0 ==> decimals(m).last() != digit_char(0),
{
    let tenths = ((m / 100) % 10) as int;
    let hundredths = ((m / 10) % 10) as int;
    let last = (m % 10) as int;
    if m % 10 != 0 {
        lemma_digits_differ(last, 0);
    } else if m % 100 != 0 {
        assert(hundredths != 0);
        lemma_digits_differ(hundredths, 0);
    } else if m % 1000 != 0 {
        assert(tenths != 0);
        lemma_digits_differ(tenths, 0);
    }
}

/// Two numbers with the same decimal text are the same number.
pub proof fn lemma_decimal_injective(a: nat, b: nat)
    requires
        decimal(a) == decimal(b),
    ensures
        a == b,
{
    lemma_decimal_round_trip(a);
    lemma_decimal_round_trip(b);
}

/// The text of one digit.
fn digit_str(d: u8) -> (text: &'static str)
    requires
        d < 10,
    ensures
        text@ == seq![digit_char(d as int)],
{
    proof {
        reveal_strlit("0");
        reveal_strlit("1");
        reveal_strlit("2");
        reveal_strlit("3");
        reveal_strlit("4");
        reveal_strlit("5");
        reveal_strlit("6");
        reveal_strlit("7");
        reveal_strlit("8");
        reveal_strlit("9");
    }
    let text = match d {
        0 => "0",
        1 => "1",
        2 => "2",
        3 => "3",
        4 => "4",
        5 => "5",
        6 => "6",
        7 => "7",
        8 => "8",
        _ => "9",
    };
    text
}

/// Writes `n` in decimal.
pub fn decimal_string(n: u128) -> (text: String)
    ensures
        text@ == decimal(n as nat),
    decreases n,
{
    if n < 10 {
        digit_str(n as u8).to_owned()
    } else {
        let mut text = decimal_string(n / 10);
        text.append(digit_str((n % 10) as u8));
        text
    }
}

/// Writes an amount counted in thousandths as a decimal number, with no
/// more decimals than it needs.
pub fn thousandths_string(m: u64) -> (text: String)
    ensures
        text@ == thousandths(m as nat),
{
    proof {
        reveal_strlit(".");
    }
    let mut text = decimal_string((m / 1000) as u128);
    if m % 1000 != 0 {
        text.append(".");
        text.append(digit_str(((m / 100) % 10) as u8));
        if m % 100 != 0 {
            text.append(digit_str(((m / 10) % 10) as u8));
            if m % 10 != 0 {
                text.append(digit_str((m % 10) as u8));
            }
        }
        assert(text@ =~= thousandths(m as nat));
    }
    text
}

} // verus!
