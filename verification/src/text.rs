//! Texts as sequences of characters: comparing them, and writing numbers in decimal.

use vstd::arithmetic::div_mod::lemma_div_denominator;
use vstd::arithmetic::power::{lemma_pow0, lemma_pow1, lemma_pow_positive, pow};
use vstd::prelude::*;
use vstd::string::*;

verus! {

/// The decimal digit `d`, for `d` from 0 to 9.
pub open spec fn digit(d: int) -> char {
    (48 + d) as char
}

/// The number `n` in decimal, without leading zeros (`0` itself is one digit).
pub open spec fn decimal(n: nat) -> Seq<char>
    decreases n,
{
    if n < 10 {
        seq![digit(n as int)]
    } else {
        decimal(n / 10).push(digit((n % 10) as int))
    }
}

/// `count` zeros.
pub open spec fn zeros(count: nat) -> Seq<char> {
    Seq::new(count, |i: int| '0')
}

/// The number `n` in decimal, with zeros put in front until it has at least `width` digits.
pub open spec fn zero_padded(n: nat, width: nat) -> Seq<char> {
    let digits = decimal(n);
    if digits.len() >= width {
        digits
    } else {
        zeros((width - digits.len()) as nat) + digits
    }
}

/// Writes one digit.
fn digit_text(d: u32) -> (text: &'static str)
    requires
        d < 10,
    ensures
        text@ == seq![digit(d as int)],
{
    proof {
        reveal_strlit("0");
        reveal_strlit("1");
        reveal_strlit("2");
        reveal_strlit("3");
        reveal_strlit("4");
        reveal_strlit("5");
        reveal_strlit("6");
        reveal_strlit("7");
        reveal_strlit("8");
        reveal_strlit("9");
    }
    match d {
        0 => "0",
        1 => "1",
        2 => "2",
        3 => "3",
        4 => "4",
        5 => "5",
        6 => "6",
        7 => "7",
        8 => "8",
        _ => "9",
    }
}

/// Writes a number in decimal.
pub fn decimal_text(n: u32) -> (text: String)
    ensures
        text@ == decimal(n as nat),
    decreases n,
{
    if n < 10 {
        digit_text(n).to_owned()
    } else {
        let mut text = decimal_text(n / 10);
        text.append(digit_text(n % 10));
        text
    }
}

/// Whether two texts hold the same characters.
pub fn same_text(left: &str, right: &str) -> (same: bool)
    ensures
        same == (left@ == right@),
{
    left.to_owned() == right.to_owned()
}

/// Whether `c` is a decimal digit.
pub open spec fn is_digit(c: char) -> bool {
    '0' <= c <= '9'
}

/// The number that a row of decimal digits stands for.
pub open spec fn numeral(digits: Seq<char>) -> int
    decreases digits.len(),
{
    if digits.len() == 0 {
        0
    } else {
        10 * numeral(digits.drop_last()) + (digits.last() as int - 48)
    }
}

/// A number written in decimal is a row of digits that stands for it.
pub proof fn lemma_decimal(n: nat)
    ensures
        decimal(n).len() > 0,
        forall|i: int| 0 <= i < decimal(n).len() ==> is_digit(#[trigger] decimal(n)[i]),
        numeral(decimal(n)) == n,
    decreases n,
{
    reveal_with_fuel(numeral, 2);
    if n < 10 {
        assert(decimal(n).drop_last() =~= Seq::<char>::empty());
    } else {
        lemma_decimal(n / 10);
        assert(decimal(n).drop_last() =~= decimal(n / 10));
    }
}

/// Zeros in front of a numeral do not change what it stands for.
proof fn lemma_leading_zeros(count: nat, digits: Seq<char>)
    ensures
        numeral(zeros(count) + digits) == numeral(digits),
    decreases count + digits.len(),
{
    let whole = zeros(count) + digits;
    if digits.len() > 0 {
        assert(whole.drop_last() =~= zeros(count) + digits.drop_last());
        lemma_leading_zeros(count, digits.drop_last());
    } else if count > 0 {
        let fewer = (count - 1) as nat;
        assert(whole.drop_last() =~= zeros(fewer) + Seq::<char>::empty());
        lemma_leading_zeros(fewer, Seq::empty());
    }
}

/// A padded number is a row of digits, at least `width` long, that stands for the number.
pub proof fn lemma_zero_padded(n: nat, width: nat)
    ensures
        zero_padded(n, width).len() > 0,
        zero_padded(n, width).len() >= width,
        forall|i: int|
            0 <= i < zero_padded(n, width).len() ==> is_digit(#[trigger] zero_padded(n, width)[i]),
        numeral(zero_padded(n, width)) == n,
{
    lemma_decimal(n);
    if decimal(n).len() < width {
        lemma_leading_zeros((width - decimal(n).len()) as nat, decimal(n));
    }
}

/// A number below 100 takes exactly two places when padded to two.
pub proof fn lemma_two_places(n: nat)
    requires
        n < 100,
    ensures
        zero_padded(n, 2).len() == 2,
{
    reveal_with_fuel(decimal, 3);
}

/// The digits of a number stand for its places: the last but `k` is how often the power `k` of ten
/// goes into the number, taken modulo ten. There are as many digits as the number needs.
pub proof fn law_decimal_places(n: nat, k: nat)
    ensures
        decimal(n).len() > 0,
        n < pow(10, decimal(n).len()),
        decimal(n).len() > 1 ==> pow(10, (decimal(n).len() - 1) as nat) <= n,
        k < decimal(n).len() ==> decimal(n)[decimal(n).len() - 1 - k] as int == 48 + (n as int
            / pow(10, k)) % 10,
    decreases n,
{
    reveal(pow);
    lemma_pow0(10);
    lemma_pow1(10);
    assert(n as int / 1int == n);
    if n >= 10 {
        let high: nat = n / 10;
        let fewer: nat = decimal(high).len();
        assert(decimal(n).len() == fewer + 1);
        let place: nat = if k == 0 {
            0
        } else {
            (k - 1) as nat
        };
        law_decimal_places(high, place);
        assert(pow(10, fewer + 1) == 10 * pow(10, fewer));
        if fewer > 1 {
            assert(pow(10, fewer) == 10 * pow(10, (fewer - 1) as nat));
        }
        if 0 < k < decimal(n).len() {
            lemma_pow_positive(10, place);
            lemma_div_denominator(n as int, 10, pow(10, place));
            assert(pow(10, k) == 10 * pow(10, place));
            assert(decimal(n)[decimal(n).len() - 1 - k] == decimal(high)[fewer - 1 - place]);
        }
    }
}

/// The places of a number that is padded to two or to four digits.
pub proof fn lemma_padded_places(n: nat)
    ensures
        n < 100 ==> {
            let digits = zero_padded(n, 2);
            &&& digits.len() == 2
            &&& digits[0] as int == 48 + n / 10
            &&& digits[1] as int == 48 + n % 10
        },
        n < 10_000 ==> {
            let digits = zero_padded(n, 4);
            &&& digits.len() == 4
            &&& digits[0] as int == 48 + n / 1000
            &&& digits[1] as int == 48 + n / 100 % 10
            &&& digits[2] as int == 48 + n / 10 % 10
            &&& digits[3] as int == 48 + n % 10
        },
{
    reveal_with_fuel(decimal, 5);
    if n < 10 {
        assert(decimal(n).len() == 1);
    } else if n < 100 {
        assert(decimal(n).len() == 2);
    } else if n < 1000 {
        assert(decimal(n).len() == 3);
    } else if n < 10_000 {
        assert(decimal(n).len() == 4);
    }
}

} // verus!
