//! Positional numerals: the decimal numbers of the TXT records and the base-36 payload of a
//! setup code.
use vstd::arithmetic::div_mod::{lemma_basic_div, lemma_div_denominator, lemma_small_mod};
use vstd::arithmetic::power::{lemma_pow_increases, lemma_pow_positive, pow};
use vstd::prelude::*;

verus! {

/// The character that stands for a digit: `0` to `9`, then `A` to `Z`.
pub open spec fn digit_char(digit: nat) -> char {
    if digit < 10 {
        ('0' as nat + digit) as char
    } else {
        ('A' as nat + digit - 10) as char
    }
}

/// The number that a digit character stands for.
pub open spec fn digit_value(ch: char) -> nat {
    if '0' <= ch <= '9' {
        (ch as nat - '0' as nat) as nat
    } else {
        (ch as nat - 'A' as nat + 10) as nat
    }
}

/// The numeral of `value` in the given radix, most significant digit first, without leading
/// zeros; zero is `0`.
pub open spec fn numeral(value: nat, radix: nat) -> Seq<char>
    recommends
        2 <= radix <= 36,
    decreases value,
{
    if value < radix || radix < 2 {
        seq![digit_char(value)]
    } else {
        proof {
            assert(value / radix < value) by (nonlinear_arith)
                requires
                    2 <= radix <= value,
            ;
        }
        numeral(value / radix, radix).push(digit_char(value % radix))
    }
}

/// The number that a string of digits stands for, read in the given radix.
pub open spec fn numeral_value(text: Seq<char>, radix: nat) -> nat
    decreases text.len(),
{
    if text.len() == 0 {
        0
    } else {
        numeral_value(text.drop_last(), radix) * radix + digit_value(text.last())
    }
}

/// `text` made at least `width` characters long by zeros in front.
pub open spec fn zero_padded(text: Seq<char>, width: nat) -> Seq<char> {
    if text.len() < width {
        Seq::new((width - text.len()) as nat, |i: int| '0') + text
    } else {
        text
    }
}

proof fn lemma_quotient_shrinks(value: nat, radix: nat)
    requires
        2 <= radix <= value,
    ensures
        0 < value / radix < value,
{
    assert(0 < value / radix < value) by (nonlinear_arith)
        requires
            2 <= radix <= value,
    ;
}

/// A numeral is the numeral of the quotient, where there is one, and the last digit.
proof fn lemma_last_digit(value: nat, radix: nat)
    requires
        2 <= radix <= 36,
    ensures
        value > 0 ==> value / radix < value,
        numeral(value, radix) == (if value / radix > 0 {
            numeral(value / radix, radix).push(digit_char(value % radix))
        } else {
            seq![digit_char(value % radix)]
        }),
{
    if value < radix {
        assert(value / radix == 0 && value % radix == value) by (nonlinear_arith)
            requires
                0 <= value < radix,
        ;
    } else {
        lemma_quotient_shrinks(value, radix);
    }
}

/// A digit can be read back from its character.
pub(crate) proof fn lemma_digit(digit: nat)
    requires
        digit < 36,
    ensures
        digit_value(digit_char(digit)) == digit,
        digit_char(digit) == '0' <==> digit == 0,
{
}

/// Reading a numeral gives back the number it was made from, so different numbers have different
/// numerals.
pub proof fn law_numeral_reads_back(value: nat, radix: nat)
    requires
        2 <= radix <= 36,
    ensures
        numeral_value(numeral(value, radix), radix) == value,
    decreases value,
{
    reveal_with_fuel(numeral_value, 2);
    if value < radix {
        lemma_digit(value);
        assert(seq![digit_char(value)].drop_last() =~= Seq::empty());
    } else {
        lemma_quotient_shrinks(value, radix);
        law_numeral_reads_back(value / radix, radix);
        lemma_digit(value % radix);
        let text = numeral(value, radix);
        assert(text.drop_last() =~= numeral(value / radix, radix));
        assert(value == (value / radix) * radix + value % radix) by (nonlinear_arith)
            requires
                radix > 0,
        ;
    }
}

/// A numeral is made of digits below the radix and starts with `0` only where it is `0`.
pub proof fn law_numeral_is_canonical(value: nat, radix: nat)
    requires
        2 <= radix <= 36,
    ensures
        numeral(value, radix).len() > 0,
        numeral(value, radix)[0] == '0' <==> value == 0,
        forall|i: int|
            0 <= i < numeral(value, radix).len() ==> exists|digit: nat|
                digit < radix && #[trigger] digit_char(digit) == #[trigger] numeral(
                    value,
                    radix,
                )[i],
    decreases value,
{
    if value < radix {
        lemma_digit(value);
        assert(numeral(value, radix)[0] == digit_char(value));
    } else {
        lemma_quotient_shrinks(value, radix);
        law_numeral_is_canonical(value / radix, radix);
        let front = numeral(value / radix, radix);
        assert(value % radix < radix) by (nonlinear_arith)
            requires
                radix > 0,
        ;
        assert forall|i: int| 0 <= i < numeral(value, radix).len() implies exists|digit: nat|
            digit < radix && #[trigger] digit_char(digit) == #[trigger] numeral(value, radix)[i] by {
            if i < front.len() {
                assert(numeral(value, radix)[i] == front[i]);
            } else {
                assert(numeral(value, radix)[i] == digit_char(value % radix));
            }
        }
    }
}

/// Place by place, a numeral holds the digits of its number: the character `k` places from the end
/// stands for how often the `k`-th power of the radix goes into the number, beyond the higher
/// places, as `0` to `9` and then `A` to `Z`. It has no more places than the number needs.
pub proof fn law_numeral_holds_the_digits(value: nat, radix: nat)
    requires
        2 <= radix <= 36,
    ensures
        numeral(value, radix).len() > 0,
        value < pow(radix as int, numeral(value, radix).len()),
        numeral(value, radix).len() > 1 ==> value >= pow(
            radix as int,
            (numeral(value, radix).len() - 1) as nat,
        ),
        forall|i: int|
            0 <= i < numeral(value, radix).len() ==> {
                let digit = value as int / pow(
                    radix as int,
                    (numeral(value, radix).len() - 1 - i) as nat,
                ) % (radix as int);
                (#[trigger] numeral(value, radix)[i]) as int == (if digit < 10 {
                    48 + digit
                } else {
                    55 + digit
                })
            },
    decreases value,
{
    let text = numeral(value, radix);
    let base = radix as int;
    reveal_with_fuel(pow, 2);
    if value < radix {
        assert(pow(base, 1) == base);
        assert(value as int / 1 % base == value) by (nonlinear_arith)
            requires
                0 <= value < base,
        ;
    } else {
        lemma_quotient_shrinks(value, radix);
        let rest = value / radix;
        law_numeral_holds_the_digits(rest, radix);
        let front = numeral(rest, radix);
        let top = pow(base, front.len());
        assert(pow(base, text.len()) == base * top);
        assert(value == rest * radix + value % radix && value % radix < radix) by (nonlinear_arith)
            requires
                radix > 0,
                rest == value / radix,
        ;
        assert(rest * radix + radix <= base * top) by (nonlinear_arith)
            requires
                rest + 1 <= top,
                base == radix,
        ;
        let below = pow(base, (front.len() - 1) as nat);
        assert(top == base * below);
        if front.len() > 1 {
            assert(rest * radix >= base * below) by (nonlinear_arith)
                requires
                    rest >= below,
                    base == radix,
            ;
        } else {
            assert(below == 1);
            assert(base * below == base) by (nonlinear_arith)
                requires
                    below == 1,
            ;
        }
        assert((text.len() - 1) as nat == front.len());
        assert forall|i: int| 0 <= i < text.len() implies {
            let digit = value as int / pow(base, (text.len() - 1 - i) as nat) % base;
            (#[trigger] text[i]) as int == (if digit < 10 {
                48 + digit
            } else {
                55 + digit
            })
        } by {
            if i == text.len() - 1 {
                assert(pow(base, 0) == 1);
                assert(value as int / 1 == value);
                assert((value as int) % base == (value % radix) as int);
            } else {
                let place = (front.len() - 1 - i) as nat;
                assert(text[i] == front[i]);
                assert(pow(base, (place + 1) as nat) == base * pow(base, place));
                lemma_pow_positive(base, place);
                lemma_div_denominator(value as int, base, pow(base, place));
            }
        }
    }
}

/// In decimal a number is written with the digits `0` to `9`, each in its place, and without
/// leading zeros.
pub proof fn law_decimal_is_the_number(value: u64, text: String)
    requires
        call_ensures(to_decimal, (value,), text),
    ensures
        text@.len() > 0,
        value < pow(10, text@.len()),
        text@.len() > 1 ==> value >= pow(10, (text@.len() - 1) as nat),
        forall|i: int|
            0 <= i < text@.len() ==> (#[trigger] text@[i]) as int == 48 + value as int / pow(
                10,
                (text@.len() - 1 - i) as nat,
            ) % 10,
{
    law_numeral_holds_the_digits(value as nat, 10);
}

/// In base 36 a number is written with the digits `0` to `9` and `A` to `Z`, each in its place,
/// and without leading zeros.
pub proof fn law_base36_is_the_number(value: u64, text: String)
    requires
        call_ensures(to_base36, (value,), text),
    ensures
        text@.len() > 0,
        value < pow(36, text@.len()),
        text@.len() > 1 ==> value >= pow(36, (text@.len() - 1) as nat),
        forall|i: int|
            0 <= i < text@.len() ==> {
                let digit = value as int / pow(36, (text@.len() - 1 - i) as nat) % 36;
                (#[trigger] text@[i]) as int == (if digit < 10 {
                    48 + digit
                } else {
                    55 + digit
                })
            },
{
    law_numeral_holds_the_digits(value as nat, 36);
}

/// A padded numeral holds the same digits, with zeros in the places that the number does not reach.
pub(crate) proof fn lemma_padded_digits(value: nat, radix: nat, width: nat)
    requires
        2 <= radix <= 36,
        numeral(value, radix).len() <= width,
    ensures
        zero_padded(numeral(value, radix), width).len() == width,
        forall|i: int|
            0 <= i < width ==> {
                let digit = value as int / pow(radix as int, (width - 1 - i) as nat) % (
                radix as int);
                (#[trigger] zero_padded(numeral(value, radix), width)[i]) as int == (if digit < 10 {
                    48 + digit
                } else {
                    55 + digit
                })
            },
{
    law_numeral_holds_the_digits(value, radix);
    let text = numeral(value, radix);
    let padded = zero_padded(text, width);
    let base = radix as int;
    let zeros = width - text.len();
    assert forall|i: int| 0 <= i < width implies {
        let digit = value as int / pow(base, (width - 1 - i) as nat) % base;
        (#[trigger] padded[i]) as int == (if digit < 10 {
            48 + digit
        } else {
            55 + digit
        })
    } by {
        let place = (width - 1 - i) as nat;
        if i >= zeros {
            assert(padded[i] == text[i - zeros]);
            assert(text.len() - 1 - (i - zeros) == place);
        } else {
            assert(padded[i] == '0');
            lemma_pow_increases(radix, text.len(), place);
            lemma_basic_div(value as int, pow(base, place));
            lemma_small_mod(0, radix);
        }
    }
}

/// A number below `radix` to the `width` has a numeral of at most `width` digits.
pub(crate) proof fn lemma_numeral_width(value: nat, radix: nat, width: nat)
    requires
        2 <= radix <= 36,
        0 < width,
        value < pow(radix as int, width),
    ensures
        0 < numeral(value, radix).len() <= width,
    decreases width,
{
    if value >= radix {
        lemma_quotient_shrinks(value, radix);
        reveal(pow);
        if width == 1 {
            assert(pow(radix as int, 0) == 1);
        } else {
            let smaller = pow(radix as int, (width - 1) as nat);
            assert(value / radix < smaller) by (nonlinear_arith)
                requires
                    value < radix * smaller,
                    radix > 0,
            ;
            lemma_numeral_width(value / radix, radix, (width - 1) as nat);
        }
    }
}

/// Zeros in front change nothing of the number that a numeral stands for.
pub(crate) proof fn lemma_zero_padded_reads_back(text: Seq<char>, width: nat, radix: nat)
    ensures
        numeral_value(zero_padded(text, width), radix) == numeral_value(text, radix),
    decreases text.len(), width,
{
    if text.len() < width {
        let padded = zero_padded(text, width);
        if text.len() > 0 {
            lemma_zero_padded_reads_back(text.drop_last(), (width - 1) as nat, radix);
            assert(padded.drop_last() =~= zero_padded(text.drop_last(), (width - 1) as nat));
        } else {
            lemma_zero_padded_reads_back(text, (width - 1) as nat, radix);
            assert(padded.drop_last() =~= zero_padded(text, (width - 1) as nat));
            assert(0 * radix == 0);
        }
    }
}

pub(crate) fn digit_to_char(digit: u64) -> (ch: char)
    requires
        digit < 36,
    ensures
        ch == digit_char(digit as nat),
{
    if digit < 10 {
        (48u8 + digit as u8) as char
    } else {
        (65u8 + (digit - 10) as u8) as char
    }
}

fn render(value: u64, radix: u64) -> (text: String)
    requires
        2 <= radix <= 36,
    ensures
        text@ == numeral(value as nat, radix as nat),
{
    let mut reversed: Vec<char> = Vec::new();
    reversed.push(digit_to_char(value % radix));
    let mut rest: u64 = value / radix;
    proof {
        lemma_last_digit(value as nat, radix as nat);
    }
    while rest > 0
        invariant
            2 <= radix <= 36,
            numeral(value as nat, radix as nat) =~= if rest > 0 {
                numeral(rest as nat, radix as nat) + reversed@.reverse()
            } else {
                reversed@.reverse()
            },
        decreases rest,
    {
        let ghost before = reversed@;
        proof {
            lemma_last_digit(rest as nat, radix as nat);
        }
        reversed.push(digit_to_char(rest % radix));
        rest = rest / radix;
        assert(reversed@.reverse() =~= seq![reversed@.last()] + before.reverse());
    }
    let mut text: String = String::new();
    let mut left: usize = reversed.len();
    while left > 0
        invariant
            left <= reversed@.len(),
            text@ + reversed@.take(left as int).reverse() =~= reversed@.reverse(),
        decreases left,
    {
        left = left - 1;
        text.push(reversed[left]);
    }
    text
}

/// Uppercase base 36, most significant digit first.
pub fn to_base36(value: u64) -> (text: String)
    ensures
        text@ == numeral(value as nat, 36),
{
    render(value, 36)
}

/// Decimal, most significant digit first.
pub fn to_decimal(value: u64) -> (text: String)
    ensures
        text@ == numeral(value as nat, 10),
{
    render(value, 10)
}

} // verus!
