//! Human-readable magnitudes for byte counts, base 1000.

use vstd::prelude::*;
use vstd::arithmetic::div_mod::lemma_fundamental_div_mod_converse;

verus! {

/// Number of decimals used when the caller names none.
pub const DEFAULT_PRECISION: u8 = 2;

/// Ten to the power `e`.
pub open spec fn pow10(e: nat) -> nat
    decreases e,
{
    if e == 0 {
        1
    } else {
        10 * pow10((e - 1) as nat)
    }
}

/// The character of a single decimal digit.
pub open spec fn digit_char(d: nat) -> char {
    if d == 0 {
        '0'
    } else if d == 1 {
        '1'
    } else if d == 2 {
        '2'
    } else if d == 3 {
        '3'
    } else if d == 4 {
        '4'
    } else if d == 5 {
        '5'
    } else if d == 6 {
        '6'
    } else if d == 7 {
        '7'
    } else if d == 8 {
        '8'
    } else {
        '9'
    }
}

/// Decimal numeral of `n`, most significant digit first, no leading zeros.
pub open spec fn decimal(n: nat) -> Seq<char>
    decreases n,
{
    if n < 10 {
        seq![digit_char(n)]
    } else {
        decimal(n / 10).push(digit_char(n % 10))
    }
}

/// The lowest `width` decimal digits of `n`, most significant first, zero padded.
pub open spec fn fixed_digits(n: nat, width: nat) -> Seq<char>
    decreases width,
{
    if width == 0 {
        Seq::empty()
    } else {
        fixed_digits(n / 10, (width - 1) as nat).push(digit_char(n % 10))
    }
}

/// `count` zero digits.
pub open spec fn zeros(count: nat) -> Seq<char> {
    Seq::new(count, |i: int| '0')
}

/// The integer nearest to `num / den`; a tie goes to the even neighbour.
pub open spec fn round_half_even(num: nat, den: nat) -> nat
    recommends
        den > 0,
{
    let q = num / den;
    let r = num % den;
    if 2 * r < den {
        q
    } else if 2 * r > den {
        q + 1
    } else if q % 2 == 0 {
        q
    } else {
        q + 1
    }
}

/// Decimal exponent of the unit that `value` is shown in: 0 below one
/// thousand, then 3 (KB), 6 (MB) and 9 (GB).
pub open spec fn unit_exponent(value: nat) -> nat {
    if value < 1_000 {
        0
    } else if value < 1_000_000 {
        3
    } else if value < 1_000_000_000 {
        6
    } else {
        9
    }
}

/// The text that follows the number.
pub open spec fn unit_suffix(value: nat) -> Seq<char> {
    if value < 1_000 {
        Seq::empty()
    } else if value < 1_000_000 {
        seq![' ', 'K', 'B']
    } else if value < 1_000_000_000 {
        seq![' ', 'M', 'B']
    } else {
        seq![' ', 'G', 'B']
    }
}

/// `value` divided by its unit, counted in steps of ten to the minus
/// `precision` and rounded to the nearest step.
pub open spec fn scaled(value: nat, precision: nat) -> nat {
    round_half_even(value * pow10(precision), pow10(unit_exponent(value)))
}

/// Numeral of `steps` steps of ten to the minus `precision`: the whole part,
/// and for a positive precision a point and exactly `precision` decimals.
pub open spec fn fixed_point(steps: nat, precision: nat) -> Seq<char> {
    let whole = decimal(steps / pow10(precision));
    if precision == 0 {
        whole
    } else {
        whole.push('.') + fixed_digits(steps % pow10(precision), precision)
    }
}

/// The precision in force: the caller's, or the default.
pub open spec fn effective_precision(precision: Option<u8>) -> nat {
    match precision {
        Some(p) => p as nat,
        None => DEFAULT_PRECISION as nat,
    }
}

/// The magnitude string of `value`.
pub open spec fn human_text(value: nat, precision: nat) -> Seq<char> {
    if value < 1_000 {
        decimal(value)
    } else {
        fixed_point(scaled(value, precision), precision) + unit_suffix(value)
    }
}

proof fn lemma_pow10_positive(e: nat)
    ensures
        pow10(e) > 0,
    decreases e,
{
    if e > 0 {
        lemma_pow10_positive((e - 1) as nat);
    }
}

proof fn lemma_pow10_sum(a: nat, b: nat)
    ensures
        pow10(a + b) == pow10(a) * pow10(b),
    decreases a,
{
    if a > 0 {
        lemma_pow10_sum((a - 1) as nat, b);
        assert(pow10(a + b) == 10 * pow10((a - 1 + b) as nat));
        assert(10 * (pow10((a - 1) as nat) * pow10(b)) == (10 * pow10((a - 1) as nat)) * pow10(b))
            by (nonlinear_arith);
    } else {
        assert(pow10(a) * pow10(b) == pow10(b)) by (nonlinear_arith)
            requires
                pow10(a) == 1,
        ;
    }
}

/// Scaling numerator and denominator by `c` keeps the quotient and scales the
/// remainder.
proof fn lemma_scale_div_mod(x: nat, m: nat, c: nat)
    requires
        m > 0,
        c > 0,
    ensures
        c * m > 0,
        (c * x) / (c * m) == x / m,
        (c * x) % (c * m) == c * (x % m),
{
    let q = x / m;
    let r = x % m;
    assert(x == q * m + r) by {
        vstd::arithmetic::div_mod::lemma_fundamental_div_mod(x as int, m as int);
    }
    assert(c * m > 0 && c * r < c * m && c * x == q * (c * m) + c * r && c * r >= 0)
        by (nonlinear_arith)
        requires
            x == q * m + r,
            0 <= r < m,
            c > 0,
            m > 0,
    ;
    lemma_fundamental_div_mod_converse((c * x) as int, (c * m) as int, q as int, (c * r) as int);
}

/// Rounding commutes with scaling numerator and denominator by `c`.
proof fn lemma_round_scaled(x: nat, m: nat, c: nat)
    requires
        m > 0,
        c > 0,
    ensures
        round_half_even(c * x, c * m) == round_half_even(x, m),
{
    lemma_scale_div_mod(x, m, c);
    let r = x % m;
    assert((2 * (c * r) < c * m <==> 2 * r < m) && (2 * (c * r) > c * m <==> 2 * r > m))
        by (nonlinear_arith)
        requires
            c > 0,
    ;
}

/// Appending zeros to a number appends them to its fixed-width digits.
proof fn lemma_fixed_digits_shift(x: nat, width: nat, k: nat)
    ensures
        fixed_digits(x * pow10(k), width + k) == fixed_digits(x, width) + zeros(k),
    decreases k,
{
    if k == 0 {
        assert(x * pow10(0) == x) by (nonlinear_arith)
            requires
                pow10(0) == 1,
        ;
        assert(fixed_digits(x, width) + zeros(0) =~= fixed_digits(x, width));
    } else {
        let k1 = (k - 1) as nat;
        let y = x * pow10(k1);
        lemma_fixed_digits_shift(x, width, k1);
        assert(x * pow10(k) == 10 * y) by (nonlinear_arith)
            requires
                pow10(k) == 10 * pow10(k1),
                y == x * pow10(k1),
        ;
        assert((10 * y) / 10 == y && (10 * y) % 10 == 0);
        assert(fixed_digits(x * pow10(k), width + k) == fixed_digits(y, width + k1).push('0'));
        assert((fixed_digits(x, width) + zeros(k1)).push('0') =~= fixed_digits(x, width) + zeros(
            k,
        ));
    }
}

/// With at least as many decimals as the unit has digits nothing is rounded:
/// the decimals are the remainder's digits followed by zeros.
proof fn lemma_fixed_point_exact(value: nat, precision: nat)
    requires
        precision >= unit_exponent(value),
        precision > 0,
    ensures
        fixed_point(scaled(value, precision), precision) == decimal(
            value / pow10(unit_exponent(value)),
        ).push('.') + fixed_digits(value % pow10(unit_exponent(value)), unit_exponent(value))
            + zeros((precision - unit_exponent(value)) as nat),
{
    let d = unit_exponent(value);
    let k = (precision - d) as nat;
    let c = pow10(k);
    let m = pow10(d);
    lemma_pow10_positive(k);
    lemma_pow10_positive(d);
    lemma_pow10_sum(k, d);
    assert(pow10(precision) == c * m);
    // The quotient by the unit is exact.
    assert(value * (c * m) == (c * value) * m + 0) by (nonlinear_arith);
    lemma_fundamental_div_mod_converse(
        (value * pow10(precision)) as int,
        m as int,
        (c * value) as int,
        0,
    );
    assert(scaled(value, precision) == c * value);
    lemma_scale_div_mod(value, m, c);
    assert(c * (value % m) == (value % m) * c) by (nonlinear_arith);
    lemma_fixed_digits_shift(value % m, d, k);
    assert(d + k == precision);
}

/// With fewer decimals than the unit has digits, the steps are the value
/// rounded at the digit where the decimals end.
proof fn lemma_scaled_rounds(value: nat, precision: nat)
    requires
        precision < unit_exponent(value),
    ensures
        scaled(value, precision) == round_half_even(
            value,
            pow10((unit_exponent(value) - precision) as nat),
        ),
{
    let d = unit_exponent(value);
    let k = (d - precision) as nat;
    lemma_pow10_positive(k);
    lemma_pow10_positive(precision);
    lemma_pow10_sum(precision, k);
    assert(value * pow10(precision) == pow10(precision) * value) by (nonlinear_arith);
    lemma_round_scaled(value, pow10(k), pow10(precision));
}

proof fn lemma_decimal_nonempty(n: nat)
    ensures
        decimal(n).len() >= 1,
    decreases n,
{
    if n >= 10 {
        lemma_decimal_nonempty(n / 10);
    }
}

proof fn lemma_fixed_digits_len(n: nat, width: nat)
    ensures
        fixed_digits(n, width).len() == width,
    decreases width,
{
    if width > 0 {
        lemma_fixed_digits_len(n / 10, (width - 1) as nat);
    }
}

/// Two numbers with the same numeral are the same number.
pub proof fn lemma_decimal_injective(a: nat, b: nat)
    requires
        decimal(a) == decimal(b),
    ensures
        a == b,
    decreases a,
{
    if a < 10 {
        if b >= 10 {
            lemma_decimal_nonempty(b / 10);
            assert(decimal(b).len() >= 2);
            assert(false);
        }
        assert(decimal(a)[0] == digit_char(a));
        assert(decimal(b)[0] == digit_char(b));
    } else {
        if b < 10 {
            lemma_decimal_nonempty(a / 10);
            assert(decimal(a).len() >= 2);
            assert(false);
        }
        let high_a = decimal(a / 10);
        let high_b = decimal(b / 10);
        assert(decimal(a) == high_a.push(digit_char(a % 10)));
        assert(decimal(b) == high_b.push(digit_char(b % 10)));
        assert(high_a.push(digit_char(a % 10)).last() == high_b.push(digit_char(b % 10)).last());
        assert(high_a.push(digit_char(a % 10)).drop_last() =~= high_a);
        assert(high_b.push(digit_char(b % 10)).drop_last() =~= high_b);
        lemma_decimal_injective(a / 10, b / 10);
        assert(digit_char(a % 10) == digit_char(b % 10));
        assert(a % 10 == b % 10);
    }
}

/// Two numbers below ten to the `width` with the same `width` digits are the
/// same number.
proof fn lemma_fixed_digits_injective(a: nat, b: nat, width: nat)
    requires
        a < pow10(width),
        b < pow10(width),
        fixed_digits(a, width) == fixed_digits(b, width),
    ensures
        a == b,
    decreases width,
{
    if width > 0 {
        let w1 = (width - 1) as nat;
        let high_a = fixed_digits(a / 10, w1);
        let high_b = fixed_digits(b / 10, w1);
        assert(high_a.push(digit_char(a % 10)).last() == high_b.push(digit_char(b % 10)).last());
        assert(high_a.push(digit_char(a % 10)).drop_last() =~= high_a);
        assert(high_b.push(digit_char(b % 10)).drop_last() =~= high_b);
        lemma_fixed_digits_injective(a / 10, b / 10, w1);
    }
}

/// Two step counts with the same fixed-point numeral are the same count.
pub proof fn lemma_fixed_point_injective(a: nat, b: nat, precision: nat)
    requires
        fixed_point(a, precision) == fixed_point(b, precision),
    ensures
        a == b,
{
    let unit = pow10(precision);
    lemma_pow10_positive(precision);
    let whole_a = decimal(a / unit);
    let whole_b = decimal(b / unit);
    let frac_a = fixed_digits(a % unit, precision);
    let frac_b = fixed_digits(b % unit, precision);
    if precision > 0 {
        lemma_fixed_digits_len(a % unit, precision);
        lemma_fixed_digits_len(b % unit, precision);
        let text_a = whole_a.push('.') + frac_a;
        let text_b = whole_b.push('.') + frac_b;
        assert(text_a.len() == whole_a.len() + 1 + precision);
        assert(text_b.len() == whole_b.len() + 1 + precision);
        assert(whole_a =~= text_a.subrange(0, whole_a.len() as int));
        assert(whole_b =~= text_b.subrange(0, whole_b.len() as int));
        assert(frac_a =~= text_a.subrange(whole_a.len() as int + 1, text_a.len() as int));
        assert(frac_b =~= text_b.subrange(whole_b.len() as int + 1, text_b.len() as int));
        vstd::arithmetic::div_mod::lemma_mod_bound(a as int, unit as int);
        vstd::arithmetic::div_mod::lemma_mod_bound(b as int, unit as int);
        lemma_fixed_digits_injective(a % unit, b % unit, precision);
    } else {
        assert(unit == 1);
    }
    lemma_decimal_injective(a / unit, b / unit);
    vstd::arithmetic::div_mod::lemma_fundamental_div_mod(a as int, unit as int);
    vstd::arithmetic::div_mod::lemma_fundamental_div_mod(b as int, unit as int);
}

/// Two values shown in the same unit get different texts unless rounding at
/// the precision takes them to the same number of steps.
pub proof fn lemma_distinct_steps_distinct_text(first: nat, second: nat, precision: nat)
    requires
        unit_exponent(first) == unit_exponent(second),
        scaled(first, precision) != scaled(second, precision),
    ensures
        human_text(first, precision) != human_text(second, precision),
{
    if first < 1_000 {
        if decimal(first) == decimal(second) {
            lemma_decimal_injective(first, second);
        }
    } else {
        let number_a = fixed_point(scaled(first, precision), precision);
        let number_b = fixed_point(scaled(second, precision), precision);
        let suffix = unit_suffix(first);
        assert(suffix == unit_suffix(second));
        assert(suffix.len() == 3);
        if number_a + suffix == number_b + suffix {
            assert(number_a =~= (number_a + suffix).subrange(0, number_a.len() as int));
            assert(number_b =~= (number_b + suffix).subrange(0, number_b.len() as int));
            assert((number_a + suffix).len() == number_a.len() + 3);
            assert((number_b + suffix).len() == number_b.len() + 3);
            lemma_fixed_point_injective(scaled(first, precision), scaled(second, precision), precision);
        }
    }
}

/// With at least as many decimals as the unit has digits nothing is rounded,
/// so two different values shown in the same unit get different texts.
pub proof fn lemma_exact_precision_distinguishes(first: nat, second: nat, precision: nat)
    requires
        first < second,
        unit_exponent(first) == unit_exponent(second),
        precision >= unit_exponent(first),
    ensures
        human_text(first, precision) != human_text(second, precision),
{
    let d = unit_exponent(first);
    let k = (precision - d) as nat;
    let c = pow10(k);
    let m = pow10(d);
    lemma_pow10_positive(k);
    lemma_pow10_positive(d);
    lemma_pow10_sum(k, d);
    assert(first * (c * m) == (c * first) * m + 0) by (nonlinear_arith);
    assert(second * (c * m) == (c * second) * m + 0) by (nonlinear_arith);
    lemma_fundamental_div_mod_converse((first * pow10(precision)) as int, m as int, (c * first) as int, 0);
    lemma_fundamental_div_mod_converse(
        (second * pow10(precision)) as int,
        m as int,
        (c * second) as int,
        0,
    );
    assert(c * first < c * second) by (nonlinear_arith)
        requires
            first < second,
            c > 0,
    ;
    lemma_distinct_steps_distinct_text(first, second, precision);
}

/// Texts in different units differ: below one thousand the text ends in a
/// digit, above it in the unit's own letters.
pub proof fn lemma_distinct_units_distinct_text(first: nat, second: nat, precision: nat)
    requires
        unit_exponent(first) != unit_exponent(second),
    ensures
        human_text(first, precision) != human_text(second, precision),
{
    lemma_text_ending(first, precision);
    lemma_text_ending(second, precision);
}

/// How a text ends: in the last digit of the value below one thousand, else
/// in the letters of its unit.
proof fn lemma_text_ending(value: nat, precision: nat)
    ensures
        human_text(value, precision).len() >= 1,
        value < 1_000 ==> human_text(value, precision).last() == digit_char(value % 10),
        value >= 1_000 ==> human_text(value, precision).len() >= 3 && human_text(
            value,
            precision,
        ).last() == 'B' && human_text(value, precision)[human_text(value, precision).len() - 2]
            == unit_suffix(value)[1],
{
    if value < 1_000 {
        lemma_decimal_nonempty(value);
        if value >= 10 {
            assert(decimal(value) == decimal(value / 10).push(digit_char(value % 10)));
        }
    } else {
        let number = fixed_point(scaled(value, precision), precision);
        let suffix = unit_suffix(value);
        assert(suffix.len() == 3);
        assert(suffix[2] == 'B');
        let text = number + suffix;
        assert(text.len() == number.len() + 3);
        assert(text[text.len() - 1] == suffix[2]);
        assert(text[text.len() - 2] == suffix[1]);
    }
}

/// Two values get the same text exactly when they are shown in the same unit
/// and rounding at the precision takes them to the same number of steps.
pub proof fn lemma_same_text_iff(first: nat, second: nat, precision: nat)
    ensures
        human_text(first, precision) == human_text(second, precision) <==> (unit_exponent(first)
            == unit_exponent(second) && scaled(first, precision) == scaled(second, precision)),
{
    if unit_exponent(first) != unit_exponent(second) {
        lemma_distinct_units_distinct_text(first, second, precision);
    } else if scaled(first, precision) != scaled(second, precision) {
        lemma_distinct_steps_distinct_text(first, second, precision);
    } else if first < 1_000 {
        let unit = pow10(precision);
        lemma_pow10_positive(precision);
        assert(pow10(0) == 1);
        assert(scaled(first, precision) == first * unit);
        assert(scaled(second, precision) == second * unit);
        assert(first == second) by (nonlinear_arith)
            requires
                first * unit == second * unit,
                unit > 0,
        ;
    }
}

/// The rounded quotient is within half a unit of the exact one.
pub proof fn lemma_rounding_is_nearest(num: nat, den: nat)
    requires
        den > 0,
    ensures
        2 * (round_half_even(num, den) * den - num) <= den,
        2 * (num - round_half_even(num, den) * den) <= den,
{
    let q = num / den;
    let r = num % den;
    vstd::arithmetic::div_mod::lemma_fundamental_div_mod(num as int, den as int);
    assert(num == den * q + r);
    assert(den * q == q * den && (q + 1) * den == q * den + den) by (nonlinear_arith);
}

/// `String::push`: the character is appended and nothing else changes.
#[verifier::external_body]
fn push_char(out: &mut String, c: char)
    ensures
        final(out)@ == old(out)@.push(c),
{
    out.push(c)
}

fn digit(d: u64) -> (c: char)
    requires
        d < 10,
    ensures
        c == digit_char(d as nat),
{
    if d == 0 {
        '0'
    } else if d == 1 {
        '1'
    } else if d == 2 {
        '2'
    } else if d == 3 {
        '3'
    } else if d == 4 {
        '4'
    } else if d == 5 {
        '5'
    } else if d == 6 {
        '6'
    } else if d == 7 {
        '7'
    } else if d == 8 {
        '8'
    } else {
        '9'
    }
}

fn push_decimal(out: &mut String, n: u64)
    ensures
        final(out)@ == old(out)@ + decimal(n as nat),
    decreases n,
{
    if n >= 10 {
        push_decimal(out, n / 10);
    }
    push_char(out, digit(n % 10));
    proof {
        assert(final(out)@ =~= old(out)@ + decimal(n as nat));
    }
}

fn push_fixed_digits(out: &mut String, n: u64, width: u8)
    ensures
        final(out)@ == old(out)@ + fixed_digits(n as nat, width as nat),
    decreases width,
{
    if width > 0 {
        push_fixed_digits(out, n / 10, width - 1);
        push_char(out, digit(n % 10));
    }
    proof {
        assert(final(out)@ =~= old(out)@ + fixed_digits(n as nat, width as nat));
    }
}

fn push_zeros(out: &mut String, count: u8)
    ensures
        final(out)@ == old(out)@ + zeros(count as nat),
{
    let mut i: u8 = 0;
    while i < count
        invariant
            i <= count,
            out@ == old(out)@ + zeros(i as nat),
        decreases count - i,
    {
        push_char(out, '0');
        i = i + 1;
        proof {
            assert(out@ =~= old(out)@ + zeros(i as nat));
        }
    }
}

fn power_of_ten(e: u8) -> (p: u64)
    requires
        e <= 9,
    ensures
        p == pow10(e as nat),
        1 <= p <= 1_000_000_000,
{
    proof {
        reveal_with_fuel(pow10, 11);
    }
    if e == 0 {
        1
    } else if e == 1 {
        10
    } else if e == 2 {
        100
    } else if e == 3 {
        1_000
    } else if e == 4 {
        10_000
    } else if e == 5 {
        100_000
    } else if e == 6 {
        1_000_000
    } else if e == 7 {
        10_000_000
    } else if e == 8 {
        100_000_000
    } else {
        1_000_000_000
    }
}

fn rounded_quotient(value: u64, den: u64) -> (q: u64)
    requires
        den >= 10,
    ensures
        q == round_half_even(value as nat, den as nat),
{
    let q: u64 = value / den;
    let r: u64 = value % den;
    let rest: u64 = den - r;
    proof {
        vstd::arithmetic::div_mod::lemma_fundamental_div_mod(value as int, den as int);
        assert(q < u64::MAX) by (nonlinear_arith)
            requires
                value == den * q + r,
                0 <= r,
                den >= 10,
                0 <= q,
                value <= u64::MAX,
        ;
    }
    if r < rest {
        q
    } else if r > rest {
        q + 1
    } else if q % 2 == 0 {
        q
    } else {
        q + 1
    }
}

/// A byte count that can be shown as a magnitude string.
pub trait HumanReadable: Sized {
    /// The count that is shown.
    spec fn byte_count(self) -> nat;

    /// Formats the count as a magnitude string, base 1000: the plain integer
    /// below one thousand, else the value in KB, MB or GB with `precision`
    /// decimals (two when `None`), rounded to nearest with ties to even.
    fn to_human(self, precision: Option<u8>) -> (text: String)
        ensures
            text@ == human_text(self.byte_count(), effective_precision(precision)),
    ;
}

impl HumanReadable for u64 {
    open spec fn byte_count(self) -> nat {
        self as nat
    }

    fn to_human(self, precision: Option<u8>) -> (text: String) {
        format_bytes(self, precision)
    }
}

fn format_bytes(value: u64, precision: Option<u8>) -> (text: String)
    ensures
        text@ == human_text(value as nat, effective_precision(precision)),
{
    let p: u8 = match precision {
        Some(p) => p,
        None => DEFAULT_PRECISION,
    };
    let mut out = String::new();
    if value < 1_000 {
        push_decimal(&mut out, value);
        assert(out@ =~= decimal(value as nat));
        return out;
    }
    let d: u8 = if value < 1_000_000 {
        3
    } else if value < 1_000_000_000 {
        6
    } else {
        9
    };
    if p >= d {
        let unit: u64 = power_of_ten(d);
        push_decimal(&mut out, value / unit);
        push_char(&mut out, '.');
        push_fixed_digits(&mut out, value % unit, d);
        push_zeros(&mut out, p - d);
        proof {
            lemma_fixed_point_exact(value as nat, p as nat);
            assert(out@ =~= fixed_point(scaled(value as nat, p as nat), p as nat));
        }
    } else {
        let steps: u64 = rounded_quotient(value, power_of_ten(d - p));
        let step_unit: u64 = power_of_ten(p);
        push_decimal(&mut out, steps / step_unit);
        if p > 0 {
            push_char(&mut out, '.');
            push_fixed_digits(&mut out, steps % step_unit, p);
        }
        proof {
            lemma_scaled_rounds(value as nat, p as nat);
            assert(out@ =~= fixed_point(scaled(value as nat, p as nat), p as nat));
        }
    }
    let ghost number = out@;
    push_char(&mut out, ' ');
    if value < 1_000_000 {
        push_char(&mut out, 'K');
    } else if value < 1_000_000_000 {
        push_char(&mut out, 'M');
    } else {
        push_char(&mut out, 'G');
    }
    push_char(&mut out, 'B');
    assert(out@ =~= number + unit_suffix(value as nat));
    out
}

} // verus!
