//! Decimal text of natural numbers: what it is, how it is written, and why
//! it can be read back.

use vstd::prelude::*;

verus! {

/// The character that stands for the digit `d`.
pub open spec fn digit_char(d: nat) -> char
    recommends
        d < 10,
{
    if d == 0 {
        '0'
    } else if d == 1 {
        '1'
    } else if d == 2 {
        '2'
    } else if d == 3 {
        '3'
    } else if d == 4 {
        '4'
    } else if d == 5 {
        '5'
    } else if d == 6 {
        '6'
    } else if d == 7 {
        '7'
    } else if d == 8 {
        '8'
    } else {
        '9'
    }
}

/// The decimal text of `n`, most significant digit first, without padding:
/// one digit for every number below ten, otherwise the text of `n / 10`
/// followed by the last digit.
pub open spec fn decimal(n: nat) -> Seq<char>
    decreases n,
{
    if n < 10 {
        seq![digit_char(n)]
    } else {
        decimal(n / 10).push(digit_char(n % 10))
    }
}

/// `count` zeros.
pub open spec fn zeros(count: nat) -> Seq<char> {
    Seq::new(count, |i: int| '0')
}

/// The decimal text of `n`, filled up with zeros on the left to at least
/// `width` characters. The width is a minimum: a number with more digits
/// keeps them all.
pub open spec fn zero_padded(n: nat, width: nat) -> Seq<char> {
    let digits = decimal(n);
    if digits.len() >= width {
        digits
    } else {
        zeros((width - digits.len()) as nat) + digits
    }
}

/// Ten to the power `exponent`.
pub open spec fn pow10(exponent: nat) -> nat
    decreases exponent,
{
    if exponent == 0 {
        1
    } else {
        10 * pow10((exponent - 1) as nat)
    }
}

/// Whether `c` is one of the ten decimal digits.
pub open spec fn is_digit(c: char) -> bool {
    '0' <= c <= '9'
}

/// The number that the digit `c` stands for.
pub open spec fn digit_value(c: char) -> nat
    recommends
        is_digit(c),
{
    (c as int - '0' as int) as nat
}

/// Whether `text` is made of decimal digits only.
pub open spec fn all_digits(text: Seq<char>) -> bool {
    forall|i: int| 0 <= i < text.len() ==> is_digit(#[trigger] text[i])
}

/// The number that a text of decimal digits stands for, leading zeros
/// allowed; the empty text stands for zero.
pub open spec fn digits_value(text: Seq<char>) -> nat
    decreases text.len(),
{
    if text.len() == 0 {
        0
    } else {
        10 * digits_value(text.drop_last()) + digit_value(text.last())
    }
}

/// The one-character text of a single digit.
fn digit_text(d: u8) -> (text: &'static str)
    requires
        d < 10,
    ensures
        text@ == seq![digit_char(d as nat)],
{
    proof {
        reveal_strlit("0");
        reveal_strlit("1");
        reveal_strlit("2");
        reveal_strlit("3");
        reveal_strlit("4");
        reveal_strlit("5");
        reveal_strlit("6");
        reveal_strlit("7");
        reveal_strlit("8");
        reveal_strlit("9");
    }
    let text = if d == 0 {
        "0"
    } else if d == 1 {
        "1"
    } else if d == 2 {
        "2"
    } else if d == 3 {
        "3"
    } else if d == 4 {
        "4"
    } else if d == 5 {
        "5"
    } else if d == 6 {
        "6"
    } else if d == 7 {
        "7"
    } else if d == 8 {
        "8"
    } else {
        "9"
    };
    assert(text@ =~= seq![digit_char(d as nat)]);
    text
}

/// Appends the decimal text of `n` to `out`.
pub fn push_decimal(out: &mut String, n: u128)
    ensures
        final(out)@ == old(out)@ + decimal(n as nat),
    decreases n,
{
    if n >= 10 {
        push_decimal(out, n / 10);
    }
    let last: u8 = (n % 10) as u8;
    out.append(digit_text(last));
    assert(out@ =~= old(out)@ + decimal(n as nat));
}

/// The number of digits in the decimal text of `n`.
pub fn decimal_len(n: u128) -> (len: usize)
    ensures
        len == decimal(n as nat).len(),
        1 <= len <= 39,
{
    let mut rest: u128 = n;
    let mut len: usize = 1;
    assert(rest < pow10(39)) by {
        reveal_with_fuel(pow10, 40);
    }
    while rest >= 10
        invariant
            1 <= len <= 39,
            decimal(n as nat).len() == decimal(rest as nat).len() + len - 1,
            rest < pow10((40 - len) as nat),
        decreases rest,
    {
        assert(len <= 38 && rest / 10 < pow10((39 - len) as nat)) by {
            reveal_with_fuel(pow10, 2);
        }
        rest = rest / 10;
        len = len + 1;
    }
    len
}

/// Appends the decimal text of `n` to `out`, zero-padded to at least `width`
/// characters.
pub fn push_zero_padded(out: &mut String, n: u128, width: usize)
    ensures
        final(out)@ == old(out)@ + zero_padded(n as nat, width as nat),
{
    let len = decimal_len(n);
    let mut written: usize = len;
    while written < width
        invariant
            len <= written,
            written <= width || written == len,
            out@ == old(out)@ + zeros((written - len) as nat),
        decreases width - written,
    {
        proof {
            reveal_strlit("0");
        }
        out.append("0");
        written = written + 1;
        assert(out@ =~= old(out)@ + zeros((written - len) as nat));
    }
    push_decimal(out, n);
    assert(out@ =~= old(out)@ + zero_padded(n as nat, width as nat));
}

/// A digit's character is a digit, and stands for that digit.
pub proof fn lemma_digit_char(d: nat)
    requires
        d < 10,
    ensures
        is_digit(digit_char(d)),
        digit_value(digit_char(d)) == d,
{
}

/// One more digit at the end: ten times the number so far, plus the digit.
pub proof fn lemma_digits_value_push(text: Seq<char>, c: char)
    ensures
        digits_value(text.push(c)) == 10 * digits_value(text) + digit_value(c),
{
    assert(text.push(c).drop_last() =~= text);
}

/// Decimal text is never empty, holds digits only, and stands for the number
/// it was made from.
pub proof fn lemma_decimal_reads_back(n: nat)
    ensures
        decimal(n).len() >= 1,
        all_digits(decimal(n)),
        digits_value(decimal(n)) == n,
    decreases n,
{
    lemma_digit_char(n % 10);
    if n < 10 {
        lemma_digits_value_push(Seq::empty(), digit_char(n));
        assert(decimal(n) =~= Seq::empty().push(digit_char(n)));
    } else {
        lemma_decimal_reads_back(n / 10);
        lemma_digits_value_push(decimal(n / 10), digit_char(n % 10));
    }
}

/// Two numbers with the same decimal text are the same number.
pub proof fn lemma_decimal_injective(a: nat, b: nat)
    requires
        decimal(a) == decimal(b),
    ensures
        a == b,
{
    lemma_decimal_reads_back(a);
    lemma_decimal_reads_back(b);
}

/// The decimal text of `n` has at most `digits` characters exactly when `n`
/// is below ten to the power `digits`.
pub proof fn lemma_decimal_len(n: nat, digits: nat)
    requires
        digits >= 1,
    ensures
        decimal(n).len() <= digits <==> n < pow10(digits),
    decreases digits,
{
    lemma_decimal_reads_back(n / 10);
    if digits == 1 {
        assert(pow10(1) == 10) by {
            reveal_with_fuel(pow10, 2);
        }
    } else {
        lemma_decimal_len(n / 10, (digits - 1) as nat);
        if n < 10 {
            lemma_decimal_len(n, (digits - 1) as nat);
        }
    }
}

/// Zeros stand for zero, however many there are.
pub proof fn lemma_zeros(count: nat)
    ensures
        all_digits(zeros(count)),
        digits_value(zeros(count)) == 0,
    decreases count,
{
    if count > 0 {
        lemma_zeros((count - 1) as nat);
        assert(zeros(count).drop_last() =~= zeros((count - 1) as nat));
    }
}

/// Zeros in front of a text of digits do not change the number it stands
/// for.
pub proof fn lemma_leading_zeros(count: nat, text: Seq<char>)
    ensures
        digits_value(zeros(count) + text) == digits_value(text),
    decreases text.len(),
{
    if text.len() == 0 {
        lemma_zeros(count);
        assert(zeros(count) + text =~= zeros(count));
    } else {
        lemma_leading_zeros(count, text.drop_last());
        assert((zeros(count) + text).drop_last() =~= zeros(count) + text.drop_last());
    }
}

/// Zero-padded text holds digits only, is as long as the wider of the width
/// and the plain decimal text, and stands for the number it was made from.
pub proof fn lemma_zero_padded_reads_back(n: nat, width: nat)
    ensures
        all_digits(zero_padded(n, width)),
        zero_padded(n, width).len() >= width,
        zero_padded(n, width).len() >= decimal(n).len(),
        zero_padded(n, width).len() == width || zero_padded(n, width) == decimal(n),
        digits_value(zero_padded(n, width)) == n,
{
    lemma_decimal_reads_back(n);
    if decimal(n).len() < width {
        let padding = (width - decimal(n).len()) as nat;
        lemma_zeros(padding);
        lemma_leading_zeros(padding, decimal(n));
    }
}

/// Two numbers with the same zero-padded text, whatever the two widths, are
/// the same number.
pub proof fn lemma_zero_padded_injective(a: nat, a_width: nat, b: nat, b_width: nat)
    requires
        zero_padded(a, a_width) == zero_padded(b, b_width),
    ensures
        a == b,
{
    lemma_zero_padded_reads_back(a, a_width);
    lemma_zero_padded_reads_back(b, b_width);
}

} // verus!
