//! Decimal digits with zero padding: how the invariant locale writes a number.

use vstd::prelude::*;

verus! {

/// The ASCII digit of a number below 10.
pub open spec fn digit_char(d: int) -> char {
    if d == 0 {
        '0'
    } else if d == 1 {
        '1'
    } else if d == 2 {
        '2'
    } else if d == 3 {
        '3'
    } else if d == 4 {
        '4'
    } else if d == 5 {
        '5'
    } else if d == 6 {
        '6'
    } else if d == 7 {
        '7'
    } else if d == 8 {
        '8'
    } else {
        '9'
    }
}

/// The decimal digits of a number, most significant first, without leading
/// zeros: "0" for 0.
pub open spec fn decimal(n: nat) -> Seq<char>
    decreases n,
{
    if n < 10 {
        seq![digit_char(n as int)]
    } else {
        decimal(n / 10).push(digit_char((n % 10) as int))
    }
}

/// `count` zeros.
pub open spec fn zeros(count: nat) -> Seq<char> {
    Seq::new(count, |i: int| '0')
}

/// The decimal digits of a number, with zeros in front to make at least
/// `width` digits.
pub open spec fn zero_padded(n: nat, width: nat) -> Seq<char> {
    if decimal(n).len() >= width {
        decimal(n)
    } else {
        zeros((width - decimal(n).len()) as nat) + decimal(n)
    }
}

/// A number written in at least `width` characters: a minus sign if it is
/// negative, then zeros, then its digits.
pub open spec fn padded_number(n: int, width: nat) -> Seq<char> {
    if n >= 0 {
        zero_padded(n as nat, width)
    } else {
        seq!['-'] + zero_padded((-n) as nat, if width >= 1 { (width - 1) as nat } else { 0 })
    }
}

/// Ten to the power of `e`.
pub open spec fn pow10(e: nat) -> nat
    decreases e,
{
    if e == 0 {
        1
    } else {
        10 * pow10((e - 1) as nat)
    }
}

fn digit(d: u64) -> (c: char)
    requires
        d < 10,
    ensures
        c == digit_char(d as int),
{
    if d == 0 {
        '0'
    } else if d == 1 {
        '1'
    } else if d == 2 {
        '2'
    } else if d == 3 {
        '3'
    } else if d == 4 {
        '4'
    } else if d == 5 {
        '5'
    } else if d == 6 {
        '6'
    } else if d == 7 {
        '7'
    } else if d == 8 {
        '8'
    } else {
        '9'
    }
}

/// The number of decimal digits of `n`.
pub fn decimal_len(n: u64) -> (len: usize)
    ensures
        len == decimal(n as nat).len(),
        1 <= len <= 20,
    decreases n,
{
    if n < 10 {
        1
    } else {
        let shorter = decimal_len(n / 10);
        assert(shorter <= 19) by {
            reveal_with_fuel(pow10, 20);
            lemma_decimal_len_bound((n / 10) as nat, 19);
        }
        shorter + 1
    }
}

/// A number has at most `e` digits exactly if it lies below ten to the `e`.
pub proof fn lemma_decimal_len_bound(n: nat, e: nat)
    requires
        e >= 1,
    ensures
        decimal(n).len() <= e <==> n < pow10(e),
    decreases n,
{
    reveal_with_fuel(pow10, 2);
    lemma_pow10_positive((e - 1) as nat);
    if n >= 10 {
        if e >= 2 {
            lemma_decimal_len_bound(n / 10, (e - 1) as nat);
        } else {
            lemma_decimal_nonempty(n / 10);
        }
    }
}

/// A power of ten is at least 1.
pub proof fn lemma_pow10_positive(e: nat)
    ensures
        pow10(e) >= 1,
    decreases e,
{
    if e > 0 {
        lemma_pow10_positive((e - 1) as nat);
    }
}

/// A power of ten is the product of the powers of ten of two parts of its
/// exponent.
pub proof fn lemma_pow10_split(e: nat, low: nat)
    requires
        low <= e,
    ensures
        pow10(e) == pow10(low) * pow10((e - low) as nat),
    decreases low,
{
    if low == 0 {
        assert(pow10(0) == 1);
        assert(pow10(e) == 1 * pow10(e));
    } else {
        lemma_pow10_split(e, (low - 1) as nat);
        let a = pow10((low - 1) as nat);
        let b = pow10((e - low) as nat);
        assert(pow10(low) == 10 * a);
        assert(pow10((e - (low - 1)) as nat) == 10 * b);
        assert(a * (10 * b) == (10 * a) * b) by (nonlinear_arith);
    }
}

/// Every number has at least one digit.
pub proof fn lemma_decimal_nonempty(n: nat)
    ensures
        decimal(n).len() >= 1,
    decreases n,
{
    if n >= 10 {
        lemma_decimal_nonempty(n / 10);
    }
}

/// Appends the decimal digits of `n`.
pub fn push_decimal(n: u64, out: &mut String)
    ensures
        final(out)@ == old(out)@ + decimal(n as nat),
    decreases n,
{
    if n >= 10 {
        push_decimal(n / 10, out);
    }
    out.push(digit(n % 10));
    assert(out@ =~= old(out)@ + decimal(n as nat));
}

/// Appends `n` in at least `width` digits, with zeros in front.
pub fn push_zero_padded(n: u64, width: usize, out: &mut String)
    ensures
        final(out)@ == old(out)@ + zero_padded(n as nat, width as nat),
{
    let len = decimal_len(n);
    let mut written: usize = len;
    while written < width
        invariant
            len <= written,
            len == decimal(n as nat).len(),
            written <= width || written == len,
            out@ == old(out)@ + zeros((written - len) as nat),
        decreases width - written,
    {
        out.push('0');
        written = written + 1;
        assert(out@ =~= old(out)@ + zeros((written - len) as nat));
    }
    push_decimal(n, out);
    assert(out@ =~= old(out)@ + zero_padded(n as nat, width as nat));
}

/// Appends `n` in at least `width` characters: a minus sign if it is negative,
/// then zeros, then its digits.
pub fn push_number(n: i64, width: usize, out: &mut String)
    ensures
        final(out)@ == old(out)@ + padded_number(n as int, width as nat),
{
    if n >= 0 {
        push_zero_padded(n as u64, width, out);
    } else {
        out.push('-');
        let magnitude: u64 = (-(n + 1)) as u64 + 1;
        push_zero_padded(magnitude, if width >= 1 { width - 1 } else { 0 }, out);
        assert(out@ =~= old(out)@ + padded_number(n as int, width as nat));
    }
}

/// Whether every character is an ASCII digit.
pub open spec fn all_digits(s: Seq<char>) -> bool {
    forall|i: int| 0 <= i < s.len() ==> '0' <= #[trigger] s[i] <= '9'
}

/// The number that a sequence of ASCII digits denotes.
pub open spec fn digits_value(s: Seq<char>) -> int
    decreases s.len(),
{
    if s.len() == 0 {
        0
    } else {
        digits_value(s.drop_last()) * 10 + (s.last() as int - '0' as int)
    }
}

/// The digits of a number are digits, and denote the number.
pub proof fn lemma_decimal_denotes(n: nat)
    ensures
        all_digits(decimal(n)),
        digits_value(decimal(n)) == n,
    decreases n,
{
    let last = (n % 10) as int;
    assert(digit_char(last) as int - '0' as int == last);
    if n >= 10 {
        lemma_decimal_denotes(n / 10);
        let longer = decimal(n / 10).push(digit_char(last));
        assert(longer.drop_last() =~= decimal(n / 10));
    } else {
        assert(decimal(n).drop_last() =~= Seq::<char>::empty());
        assert(digits_value(Seq::<char>::empty()) == 0);
    }
}

/// Zeros in front of digits do not change the number that they denote.
proof fn lemma_zeros_in_front(count: nat, s: Seq<char>)
    ensures
        digits_value(zeros(count) + s) == digits_value(s),
    decreases s.len(), count,
{
    let whole = zeros(count) + s;
    if s.len() == 0 {
        assert(whole =~= zeros(count));
        if count > 0 {
            assert(whole.drop_last() =~= zeros((count - 1) as nat) + s);
            lemma_zeros_in_front((count - 1) as nat, s);
        }
    } else {
        assert(whole.drop_last() =~= zeros(count) + s.drop_last());
        lemma_zeros_in_front(count, s.drop_last());
    }
}

/// Zero padding. A number padded to `width` digits is written in digits
/// alone, which denote the number; in exactly `width` of them where the
/// number has no more digits than that, and in the digits of the number
/// where it has more.
pub proof fn lemma_zero_padded(n: nat, width: nat)
    ensures
        all_digits(zero_padded(n, width)),
        digits_value(zero_padded(n, width)) == n,
        zero_padded(n, width).len() >= width,
        width >= 1 && n < pow10(width) ==> zero_padded(n, width).len() == width,
        width == 0 || n >= pow10(width) ==> zero_padded(n, width) == decimal(n),
{
    lemma_decimal_denotes(n);
    lemma_decimal_nonempty(n);
    if width >= 1 {
        lemma_decimal_len_bound(n, width);
    }
    if decimal(n).len() < width {
        lemma_zeros_in_front((width - decimal(n).len()) as nat, decimal(n));
    }
}

} // verus!
