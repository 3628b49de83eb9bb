//! Amounts as text: how an amount is written for the venue and how one is
//! read from what the venue sends.

use vstd::prelude::*;
use vstd::string::*;
use crate::amount::{Quantity, FRACTION_DIGITS, MAX_AMOUNT, SCALE};
use crate::text::trim_end;

verus! {

/// The character of a decimal digit.
pub open spec fn digit_char(d: int) -> char {
    if d == 0 {
        '0'
    } else if d == 1 {
        '1'
    } else if d == 2 {
        '2'
    } else if d == 3 {
        '3'
    } else if d == 4 {
        '4'
    } else if d == 5 {
        '5'
    } else if d == 6 {
        '6'
    } else if d == 7 {
        '7'
    } else if d == 8 {
        '8'
    } else {
        '9'
    }
}

/// Whether `c` is one of `0` to `9`.
pub open spec fn is_digit(c: char) -> bool {
    '0' <= c <= '9'
}

/// The number a decimal digit stands for.
pub open spec fn digit_value(c: char) -> nat {
    (c as int - '0' as int) as nat
}

/// The decimal digits of `n`, without leading zeros; `0` for zero.
pub open spec fn digits_of(n: nat) -> Seq<char>
    decreases n,
{
    if n < 10 {
        seq![digit_char(n as int)]
    } else {
        digits_of(n / 10).push(digit_char((n % 10) as int))
    }
}

/// The last `width` decimal digits of `n`, zeros in front where `n` is
/// short.
pub open spec fn padded_digits(n: nat, width: nat) -> Seq<char>
    decreases width,
{
    if width == 0 {
        Seq::empty()
    } else {
        padded_digits(n / 10, (width - 1) as nat).push(digit_char((n % 10) as int))
    }
}

/// The number that a run of decimal digits stands for.
pub open spec fn digits_value(digits: Seq<char>) -> nat
    decreases digits.len(),
{
    if digits.len() == 0 {
        0
    } else {
        digits_value(digits.drop_last()) * 10 + digit_value(digits.last())
    }
}

/// Every character is a decimal digit.
pub open spec fn all_digits(s: Seq<char>) -> bool {
    forall|i: int| 0 <= i < s.len() ==> is_digit(#[trigger] s[i])
}

/// Ten to the power of `n`.
pub open spec fn pow10(n: nat) -> nat
    decreases n,
{
    if n == 0 {
        1
    } else {
        10 * pow10((n - 1) as nat)
    }
}

/// An amount as the venue wants it written: the whole part, then, where the
/// fraction is not zero, a point and the fraction's eight digits without the
/// zeros at their end.
pub open spec fn amount_text(amount: u64) -> Seq<char> {
    let fraction = trim_end(padded_digits((amount % SCALE) as nat, FRACTION_DIGITS as nat), '0');
    if fraction.len() == 0 {
        digits_of((amount / SCALE) as nat)
    } else {
        digits_of((amount / SCALE) as nat) + seq!['.'] + fraction
    }
}

/// The character of the decimal digit `d`.
pub(crate) fn digit_to_char(d: u64) -> (c: char)
    requires
        d < 10,
    ensures
        c == digit_char(d as int),
{
    if d == 0 {
        '0'
    } else if d == 1 {
        '1'
    } else if d == 2 {
        '2'
    } else if d == 3 {
        '3'
    } else if d == 4 {
        '4'
    } else if d == 5 {
        '5'
    } else if d == 6 {
        '6'
    } else if d == 7 {
        '7'
    } else if d == 8 {
        '8'
    } else {
        '9'
    }
}

/// Appends the decimal digits of `n` to `out`.
pub fn push_digits(out: &mut String, n: u64)
    ensures
        final(out)@ == old(out)@ + digits_of(n as nat),
    decreases n,
{
    if n >= 10 {
        push_digits(out, n / 10);
    }
    out.push(digit_to_char(n % 10));
    proof {
        if n >= 10 {
            assert(out@ =~= old(out)@ + digits_of(n as nat));
        } else {
            assert(out@ =~= old(out)@ + digits_of(n as nat));
        }
    }
}

/// Appends the last `width` decimal digits of `n` to `out`.
pub fn push_padded_digits(out: &mut String, n: u64, width: usize)
    ensures
        final(out)@ == old(out)@ + padded_digits(n as nat, width as nat),
    decreases width,
{
    if width > 0 {
        push_padded_digits(out, n / 10, width - 1);
        out.push(digit_to_char(n % 10));
        assert(out@ =~= old(out)@ + padded_digits(n as nat, width as nat));
    } else {
        assert(out@ =~= old(out)@ + padded_digits(n as nat, width as nat));
    }
}

/// Writes a quantity as the venue wants it: up to eight fractional digits,
/// without zeros at the end and without a point at the end.
pub fn format_qty(value: Quantity) -> (text: String)
    ensures
        text@ == amount_text(value),
{
    let mut text = String::new();
    push_digits(&mut text, value / SCALE);
    let mut fraction = value % SCALE;
    let mut width: usize = FRACTION_DIGITS;
    while width > 0 && fraction % 10 == 0
        invariant
            width <= FRACTION_DIGITS,
            trim_end(padded_digits((value % SCALE) as nat, FRACTION_DIGITS as nat), '0')
                == trim_end(padded_digits(fraction as nat, width as nat), '0'),
        decreases width,
    {
        proof {
            let digits = padded_digits(fraction as nat, width as nat);
            assert(digits.last() == '0');
            assert(digits.drop_last() =~= padded_digits((fraction / 10) as nat, (width - 1) as nat));
        }
        fraction = fraction / 10;
        width -= 1;
    }
    proof {
        let digits = padded_digits(fraction as nat, width as nat);
        if width > 0 {
            assert(digits.last() != '0');
            assert(trim_end(digits, '0') == digits);
            assert(digits.len() > 0);
        } else {
            assert(trim_end(digits, '0') =~= digits);
        }
    }
    if width > 0 {
        text.push('.');
        push_padded_digits(&mut text, fraction, width);
        proof {
            let digits = padded_digits(fraction as nat, width as nat);
            lemma_padded_digits_len(fraction as nat, width as nat);
            assert(text@ =~= digits_of((value / SCALE) as nat) + seq!['.'] + digits);
        }
    } else {
        assert(text@ =~= digits_of((value / SCALE) as nat));
    }
    text
}

/// [`padded_digits`] has exactly `width` digits.
pub proof fn lemma_padded_digits_len(n: nat, width: nat)
    ensures
        padded_digits(n, width).len() == width,
    decreases width,
{
    if width > 0 {
        lemma_padded_digits_len(n / 10, (width - 1) as nat);
    }
}

/// Most digits the whole part of a written amount may have.
pub const MAX_WHOLE_DIGITS: usize = 11;

/// Index of the first point in `s`; the length of `s` where it has none.
pub open spec fn point_index(s: Seq<char>) -> int
    decreases s.len(),
{
    if s.len() == 0 || s.first() == '.' {
        0
    } else {
        1 + point_index(s.drop_first())
    }
}

/// The amount that `s` writes, in units of 10^-8.
///
/// A written amount is a whole part of one to eleven digits, alone or
/// followed by a point and one to eight digits. It must not exceed
/// [`MAX_AMOUNT`]. Nothing else is an amount: no sign, no exponent, no
/// blanks.
pub open spec fn decimal_value(s: Seq<char>) -> Option<u64> {
    let point = point_index(s);
    let whole = s.take(point);
    let fraction = if point < s.len() {
        s.skip(point + 1)
    } else {
        Seq::empty()
    };
    if 1 <= whole.len() <= MAX_WHOLE_DIGITS && all_digits(whole) && all_digits(fraction) && (point
        < s.len() ==> 1 <= fraction.len() <= FRACTION_DIGITS) {
        let value = digits_value(whole) * SCALE + digits_value(fraction) * pow10(
            (FRACTION_DIGITS - fraction.len()) as nat,
        );
        if value <= MAX_AMOUNT {
            Some(value as u64)
        } else {
            None
        }
    } else {
        None
    }
}

/// The first point of `s` is where no point comes before and either a
/// point stands or `s` ends.
pub proof fn lemma_point_index(s: Seq<char>, at: int)
    requires
        0 <= at <= s.len(),
        forall|k: int| 0 <= k < at ==> s[k] != '.',
        at < s.len() ==> s[at] == '.',
    ensures
        point_index(s) == at,
    decreases s.len(),
{
    if at > 0 {
        let rest = s.drop_first();
        assert forall|k: int| 0 <= k < at - 1 implies rest[k] != '.' by {
            assert(rest[k] == s[k + 1]);
        }
        lemma_point_index(rest, at - 1);
    }
}

/// The number a decimal digit stands for.
pub fn char_to_digit(c: char) -> (d: Option<u64>)
    ensures
        d is Some == is_digit(c),
        d matches Some(v) ==> v == digit_value(c) && v < 10,
{
    if c >= '0' && c <= '9' {
        Some((c as u32 - '0' as u32) as u64)
    } else {
        None
    }
}

/// Reads the run of digits `s[from..to]`. `None` where a character of it
/// is no digit.
pub(crate) fn parse_digits(s: &str, from: usize, to: usize) -> (value: Option<u64>)
    requires
        from <= to <= s@.len(),
        to - from <= MAX_WHOLE_DIGITS,
    ensures
        value is Some == all_digits(s@.subrange(from as int, to as int)),
        value matches Some(v) ==> v == digits_value(s@.subrange(from as int, to as int)) && v
            < pow10((to - from) as nat),
{
    let mut value: u64 = 0;
    let mut i: usize = from;
    assert(s@.subrange(from as int, from as int).len() == 0);
    while i < to
        invariant
            from <= i <= to <= s@.len(),
            to - from <= MAX_WHOLE_DIGITS,
            all_digits(s@.subrange(from as int, i as int)),
            value == digits_value(s@.subrange(from as int, i as int)),
            value < pow10((i - from) as nat),
        decreases to - i,
    {
        let c = s.get_char(i);
        let ghost seen = s@.subrange(from as int, i as int);
        let ghost next = s@.subrange(from as int, i as int + 1);
        proof {
            assert(next.drop_last() =~= seen);
            assert(next.last() == c);
            lemma_pow10_grows((i + 1 - from) as nat, MAX_WHOLE_DIGITS as nat);
            lemma_pow10_values();
            assert(pow10((i + 1 - from) as nat) == 10 * pow10((i - from) as nat));
        }
        match char_to_digit(c) {
            None => {
                proof {
                    let whole = s@.subrange(from as int, to as int);
                    assert(whole[i - from] == c);
                }
                return None;
            },
            Some(d) => {
                value = value * 10 + d;
                proof {
                    assert forall|k: int| 0 <= k < next.len() implies is_digit(
                        #[trigger] next[k],
                    ) by {
                        if k < seen.len() {
                            assert(next[k] == seen[k]);
                        }
                    }
                }
            },
        }
        i += 1;
    }
    Some(value)
}

/// Ten to the `a` is no more than ten to the `b` where `a` is no more than
/// `b`.
pub proof fn lemma_pow10_grows(a: nat, b: nat)
    requires
        a <= b,
    ensures
        pow10(a) <= pow10(b),
        pow10(a) >= 1,
    decreases b,
{
    if a < b {
        lemma_pow10_grows(a, (b - 1) as nat);
    } else if a > 0 {
        lemma_pow10_grows((a - 1) as nat, (a - 1) as nat);
    }
}

/// Ten to the eighth and ten to the eleventh, written out.
pub proof fn lemma_pow10_values()
    ensures
        pow10(0) == 1,
        pow10(8) == 100_000_000,
        pow10(11) == 100_000_000_000,
{
    reveal_with_fuel(pow10, 12);
}

/// Index of the first point in `s`; the length of `s` where it has none.
pub fn find_point(s: &str) -> (point: usize)
    ensures
        point == point_index(s@),
        point <= s@.len(),
{
    let n = s.unicode_len();
    let mut point: usize = 0;
    while point < n && s.get_char(point) != '.'
        invariant
            point <= n,
            n == s@.len(),
            forall|k: int| 0 <= k < point ==> s@[k] != '.',
        decreases n - point,
    {
        point += 1;
    }
    proof {
        lemma_point_index(s@, point as int);
    }
    point
}

/// Brings a fraction written with `digits` digits to eight digits.
pub(crate) fn scale_fraction(fraction: u64, digits: usize) -> (scaled: u64)
    requires
        digits <= FRACTION_DIGITS,
        fraction < pow10(digits as nat),
    ensures
        scaled == fraction * pow10((FRACTION_DIGITS - digits) as nat),
        scaled < SCALE,
{
    let mut scaled = fraction;
    let mut width = digits;
    proof {
        lemma_pow10_values();
        assert(fraction * pow10(0) == fraction) by (nonlinear_arith)
            requires
                pow10(0) == 1,
        ;
    }
    while width < FRACTION_DIGITS
        invariant
            digits <= width <= FRACTION_DIGITS,
            scaled == fraction * pow10((width - digits) as nat),
            scaled < pow10(width as nat),
        decreases FRACTION_DIGITS - width,
    {
        proof {
            let p = pow10((width - digits) as nat);
            assert(pow10((width + 1 - digits) as nat) == 10 * p);
            assert(fraction * (10 * p) == 10 * (fraction * p)) by (nonlinear_arith);
            assert(pow10((width + 1) as nat) == 10 * pow10(width as nat));
            lemma_pow10_grows((width + 1) as nat, 8);
            lemma_pow10_values();
        }
        scaled = scaled * 10;
        width += 1;
    }
    proof {
        lemma_pow10_values();
    }
    scaled
}

/// Reads an amount as the venue writes it. `None` where `s` is no amount
/// (see [`decimal_value`]).
pub fn parse_decimal(s: &str) -> (amount: Option<u64>)
    ensures
        amount == decimal_value(s@),
{
    let n = s.unicode_len();
    let point = find_point(s);
    proof {
        assert(s@.take(point as int) =~= s@.subrange(0, point as int));
        if point < n {
            assert(s@.skip(point as int + 1) =~= s@.subrange(point as int + 1, n as int));
        }
        lemma_pow10_values();
    }
    if point == 0 || point > MAX_WHOLE_DIGITS {
        return None;
    }
    let whole = match parse_digits(s, 0, point) {
        Some(v) => v,
        None => {
            return None;
        },
    };
    proof {
        lemma_pow10_grows(point as nat, 11);
    }
    let mut scaled: u64 = 0;
    if point < n {
        let digits = n - point - 1;
        if digits == 0 || digits > FRACTION_DIGITS {
            return None;
        }
        let fraction = match parse_digits(s, point + 1, n) {
            Some(v) => v,
            None => {
                return None;
            },
        };
        scaled = scale_fraction(fraction, digits);
    } else {
        assert(digits_value(Seq::<char>::empty()) == 0);
        assert(0 * pow10(8) == 0);
    }
    let value = whole * SCALE + scaled;
    if value > MAX_AMOUNT {
        None
    } else {
        Some(value)
    }
}

/// A digit's character is a digit and stands for that digit.
pub proof fn lemma_digit_char(d: int)
    requires
        0 <= d < 10,
    ensures
        is_digit(digit_char(d)),
        digit_value(digit_char(d)) == d,
        digit_char(d) != '.',
        digit_char(d) == '0' <==> d == 0,
{
}

/// The digits of `n` are digits, at least one, and stand for `n`; a number
/// below ten to the `k` has at most `k` of them.
pub proof fn lemma_digits_of(n: nat, k: nat)
    requires
        k >= 1,
        n < pow10(k),
    ensures
        all_digits(digits_of(n)),
        1 <= digits_of(n).len() <= k,
        digits_value(digits_of(n)) == n,
    decreases n,
{
    let digits = digits_of(n);
    lemma_digit_char((n % 10) as int);
    if n < 10 {
        assert(digits.drop_last() =~= Seq::<char>::empty());
        assert(digits_value(digits.drop_last()) == 0);
    } else {
        assert(k >= 2) by {
            if k == 1 {
                assert(pow10(1) == 10) by {
                    reveal_with_fuel(pow10, 2);
                }
            }
        }
        assert(pow10(k) == 10 * pow10((k - 1) as nat));
        lemma_digits_of(n / 10, (k - 1) as nat);
        let front = digits_of(n / 10);
        assert(digits.drop_last() =~= front);
        assert forall|i: int| 0 <= i < digits.len() implies is_digit(#[trigger] digits[i]) by {
            if i < front.len() {
                assert(digits[i] == front[i]);
            }
        }
    }
}

/// The padded digits of `n` are digits and stand for `n`, given that `n`
/// is below ten to the width.
pub proof fn lemma_padded_digits(n: nat, width: nat)
    requires
        n < pow10(width),
    ensures
        all_digits(padded_digits(n, width)),
        padded_digits(n, width).len() == width,
        digits_value(padded_digits(n, width)) == n,
    decreases width,
{
    let digits = padded_digits(n, width);
    if width > 0 {
        lemma_digit_char((n % 10) as int);
        lemma_padded_digits(n / 10, (width - 1) as nat);
        let front = padded_digits(n / 10, (width - 1) as nat);
        assert(digits.drop_last() =~= front);
        assert forall|i: int| 0 <= i < digits.len() implies is_digit(#[trigger] digits[i]) by {
            if i < front.len() {
                assert(digits[i] == front[i]);
            }
        }
    }
}

/// Digits without the zeros at their end stand for the same number, less
/// the powers of ten that the zeros stood for.
pub proof fn lemma_trimmed_zeros(digits: Seq<char>)
    requires
        all_digits(digits),
    ensures
        all_digits(trim_end(digits, '0')),
        trim_end(digits, '0').len() <= digits.len(),
        digits_value(digits) == digits_value(trim_end(digits, '0')) * pow10(
            (digits.len() - trim_end(digits, '0').len()) as nat,
        ),
    decreases digits.len(),
{
    let trimmed = trim_end(digits, '0');
    if digits.len() > 0 && digits.last() == '0' {
        let front = digits.drop_last();
        assert forall|i: int| 0 <= i < front.len() implies is_digit(#[trigger] front[i]) by {
            assert(front[i] == digits[i]);
        }
        lemma_trimmed_zeros(front);
        let gap = (front.len() - trimmed.len()) as nat;
        let value = digits_value(trimmed);
        assert(pow10(gap + 1) == 10 * pow10(gap));
        assert((value * pow10(gap)) * 10 == value * (10 * pow10(gap))) by (nonlinear_arith);
    } else {
        assert(pow10(0) == 1);
        assert(digits_value(digits) * 1 == digits_value(digits));
    }
}

/// What [`format_qty`] writes, [`parse_decimal`] reads back: the text of
/// an amount up to [`MAX_AMOUNT`] is an amount, and it is that amount.
pub proof fn lemma_amount_text_reads_back(amount: u64)
    requires
        amount <= MAX_AMOUNT,
    ensures
        decimal_value(amount_text(amount)) == Some(amount),
{
    let whole = (amount / SCALE) as nat;
    let part = (amount % SCALE) as nat;
    lemma_pow10_values();
    lemma_digits_of(whole, 11);
    lemma_padded_digits(part, 8);
    let whole_digits = digits_of(whole);
    let padded = padded_digits(part, 8);
    lemma_trimmed_zeros(padded);
    let fraction = trim_end(padded, '0');
    let text = amount_text(amount);
    assert forall|k: int| 0 <= k < whole_digits.len() implies whole_digits[k] != '.' by {
        assert(is_digit(whole_digits[k]));
    }
    if fraction.len() == 0 {
        assert(text == whole_digits);
        lemma_point_index(text, text.len() as int);
        assert(text.take(text.len() as int) =~= whole_digits);
        assert(digits_value(Seq::<char>::empty()) == 0);
        assert(digits_value(fraction) == 0);
        assert(part == 0) by (nonlinear_arith)
            requires
                part == 0 * pow10((padded.len() - fraction.len()) as nat),
        ;
        assert(0 * pow10(8) == 0) by (nonlinear_arith);
    } else {
        assert(text == whole_digits + seq!['.'] + fraction);
        let point = whole_digits.len() as int;
        assert(text[point] == '.');
        assert forall|k: int| 0 <= k < point implies text[k] != '.' by {
            assert(text[k] == whole_digits[k]);
        }
        lemma_point_index(text, point);
        assert(text.take(point) =~= whole_digits);
        assert(text.skip(point + 1) =~= fraction);
    }
    assert(whole * SCALE + part == amount);
}

} // verus!
