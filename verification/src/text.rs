//! Decimal text for the numbers that appear in reports and file names.

use vstd::prelude::*;
use vstd::string::*;

verus! {

/// The character that writes the digit `d` (meaningful for `0 <= d < 10`).
pub open spec fn digit_char(d: int) -> char {
    if d == 0 {
        '0'
    } else if d == 1 {
        '1'
    } else if d == 2 {
        '2'
    } else if d == 3 {
        '3'
    } else if d == 4 {
        '4'
    } else if d == 5 {
        '5'
    } else if d == 6 {
        '6'
    } else if d == 7 {
        '7'
    } else if d == 8 {
        '8'
    } else {
        '9'
    }
}

/// The decimal numeral of `n`: no sign, no leading zeros, no separators.
pub open spec fn decimal(n: nat) -> Seq<char>
    decreases n,
{
    if n < 10 {
        seq![digit_char(n as int)]
    } else {
        decimal(n / 10).push(digit_char((n % 10) as int))
    }
}

/// The last `width` digits of `f`, zeros in front included.
pub open spec fn padded(f: nat, width: nat) -> Seq<char>
    decreases width,
{
    if width == 0 {
        Seq::empty()
    } else {
        padded(f / 10, (width - 1) as nat).push(digit_char((f % 10) as int))
    }
}

/// The last `width` digits of `f` without the zeros at the end; nothing if
/// they are all zero.
pub open spec fn trimmed(f: nat, width: nat) -> Seq<char>
    decreases width,
{
    if width == 0 {
        Seq::empty()
    } else if f % 10 == 0 {
        trimmed(f / 10, (width - 1) as nat)
    } else {
        padded(f, width)
    }
}

/// `n` millionths in the shortest form that says the same: `12500000` is
/// `12.5`, `12000000` is `12`, `7812500` is `7.8125`, `5` is `0.000005`.
pub open spec fn millionths(n: nat) -> Seq<char> {
    if n % 1_000_000 == 0 {
        decimal(n / 1_000_000)
    } else {
        decimal(n / 1_000_000) + seq!['.'] + trimmed(n % 1_000_000, 6)
    }
}

/// `n` millionths as hundredths, rounded to the nearest; a value halfway
/// between two goes to the even one.
pub open spec fn rounded_hundredths(n: nat) -> nat {
    if n % 10_000 > 5_000 || (n % 10_000 == 5_000 && n / 10_000 % 2 == 1) {
        n / 10_000 + 1
    } else {
        n / 10_000
    }
}

/// `n` millionths with exactly two decimal places, rounded: `29999000` is
/// `30.00`, `12344999` is `12.34`, `125000` is `0.12`.
pub open spec fn two_places(n: nat) -> Seq<char> {
    decimal(rounded_hundredths(n) / 100) + seq!['.'] + padded(rounded_hundredths(n) % 100, 2)
}

/// The digit that a character writes; 0 for a character that is no digit.
pub open spec fn digit_value(c: char) -> nat {
    if c == '1' {
        1
    } else if c == '2' {
        2
    } else if c == '3' {
        3
    } else if c == '4' {
        4
    } else if c == '5' {
        5
    } else if c == '6' {
        6
    } else if c == '7' {
        7
    } else if c == '8' {
        8
    } else if c == '9' {
        9
    } else {
        0
    }
}

/// Whether a character is one of the ten digits.
pub open spec fn is_digit(c: char) -> bool {
    c == '0' || digit_value(c) > 0
}

/// The number that a string of digits writes.
pub open spec fn numeral_value(numeral: Seq<char>) -> nat
    decreases numeral.len(),
{
    if numeral.len() == 0 {
        0
    } else {
        numeral_value(numeral.drop_last()) * 10 + digit_value(numeral.last())
    }
}

/// A numeral reads back as the number it was written for: it is made of
/// digits only, does not start with a zero unless the number is 0, and
/// its value is the number.
pub proof fn lemma_decimal_reads_back(n: nat)
    ensures
        decimal(n).len() >= 1,
        forall|i: int| 0 <= i < decimal(n).len() ==> is_digit(#[trigger] decimal(n)[i]),
        n > 0 ==> decimal(n)[0] != '0',
        numeral_value(decimal(n)) == n,
    decreases n,
{
    if n >= 10 {
        lemma_decimal_reads_back(n / 10);
        let front = decimal(n / 10);
        assert(decimal(n).drop_last() =~= front);
        assert forall|i: int| 0 <= i < decimal(n).len() implies is_digit(
            #[trigger] decimal(n)[i],
        ) by {
            if i < front.len() {
                assert(decimal(n)[i] == front[i]);
            }
        }
        assert(decimal(n)[0] == front[0]);
        assert(decimal(n).last() == digit_char((n % 10) as int));
        assert(digit_value(digit_char((n % 10) as int)) == n % 10);
        assert(numeral_value(decimal(n)) == numeral_value(front) * 10 + n % 10);
    } else {
        assert(decimal(n).drop_last() =~= Seq::<char>::empty());
        assert(decimal(n).last() == digit_char(n as int));
        assert(digit_value(digit_char(n as int)) == n);
        assert(numeral_value(decimal(n)) == numeral_value(decimal(n).drop_last()) * 10 + n);
    }
}

fn digit_str(d: u8) -> (s: &'static str)
    requires
        d < 10,
    ensures
        s@ == seq![digit_char(d as int)],
{
    proof {
        reveal_strlit("0");
        reveal_strlit("1");
        reveal_strlit("2");
        reveal_strlit("3");
        reveal_strlit("4");
        reveal_strlit("5");
        reveal_strlit("6");
        reveal_strlit("7");
        reveal_strlit("8");
        reveal_strlit("9");
    }
    let s = if d == 0 {
        "0"
    } else if d == 1 {
        "1"
    } else if d == 2 {
        "2"
    } else if d == 3 {
        "3"
    } else if d == 4 {
        "4"
    } else if d == 5 {
        "5"
    } else if d == 6 {
        "6"
    } else if d == 7 {
        "7"
    } else if d == 8 {
        "8"
    } else {
        "9"
    };
    assert(s@ =~= seq![digit_char(d as int)]);
    s
}

/// Appends the numeral of `n` to `out`.
pub fn push_decimal(out: &mut String, n: u128)
    ensures
        final(out)@ == old(out)@ + decimal(n as nat),
    decreases n,
{
    if n < 10 {
        out.append(digit_str(n as u8));
    } else {
        push_decimal(out, n / 10);
        out.append(digit_str((n % 10) as u8));
        assert(out@ =~= old(out)@ + decimal(n as nat));
    }
}

fn push_padded(out: &mut String, f: u64, width: u8)
    ensures
        final(out)@ == old(out)@ + padded(f as nat, width as nat),
    decreases width,
{
    if width == 0 {
        assert(out@ =~= old(out)@ + padded(f as nat, width as nat));
    } else {
        push_padded(out, f / 10, width - 1);
        out.append(digit_str((f % 10) as u8));
        assert(out@ =~= old(out)@ + padded(f as nat, width as nat));
    }
}

fn push_trimmed(out: &mut String, f: u64, width: u8)
    ensures
        final(out)@ == old(out)@ + trimmed(f as nat, width as nat),
    decreases width,
{
    if width == 0 {
        assert(out@ =~= old(out)@ + trimmed(f as nat, width as nat));
    } else if f % 10 == 0 {
        push_trimmed(out, f / 10, width - 1);
    } else {
        push_padded(out, f, width);
    }
}

/// Appends `n` millionths, in the shortest form, to `out`.
pub fn push_millionths(out: &mut String, n: u64)
    ensures
        final(out)@ == old(out)@ + millionths(n as nat),
{
    proof {
        reveal_strlit(".");
    }
    push_decimal(out, (n / 1_000_000) as u128);
    let f: u64 = n % 1_000_000;
    if f != 0 {
        out.append(".");
        push_trimmed(out, f, 6);
        assert(out@ =~= old(out)@ + millionths(n as nat));
    }
}

/// Appends `n` millionths, rounded to two decimal places, to `out`.
pub fn push_two_places(out: &mut String, n: u64)
    ensures
        final(out)@ == old(out)@ + two_places(n as nat),
{
    proof {
        reveal_strlit(".");
    }
    let floor: u64 = n / 10_000;
    let rest: u64 = n % 10_000;
    let rounded: u64 = if rest > 5_000 || (rest == 5_000 && floor % 2 == 1) {
        floor + 1
    } else {
        floor
    };
    push_decimal(out, (rounded / 100) as u128);
    out.append(".");
    push_padded(out, rounded % 100, 2);
    assert(out@ =~= old(out)@ + two_places(n as nat));
}

} // verus!
