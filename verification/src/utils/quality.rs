//! Quality values of `Accept-Encoding` entries: whether the number that a text
//! writes, read as a 32-bit binary float, is at or below zero.

use crate::text;
use vstd::arithmetic::power::*;
use vstd::arithmetic::power2::*;
use vstd::prelude::*;

verus! {

/// A number as it is written: its digits, and the power of ten that they are
/// scaled by.
pub struct WrittenNumber {
    pub digits: Seq<char>,
    pub exponent: int,
}

/// A text without the sign it starts with.
pub open spec fn unsigned_part(s: Seq<char>) -> Seq<char> {
    if s.len() > 0 && (s[0] == '+' || s[0] == '-') {
        s.skip(1)
    } else {
        s
    }
}

pub open spec fn is_negative(s: Seq<char>) -> bool {
    s.len() > 0 && s[0] == '-'
}

/// The exponent that a text writes: digits behind an optional sign.
pub open spec fn written_exponent(s: Seq<char>) -> Option<int> {
    let d = unsigned_part(s);
    if d.len() > 0 && text::all_digits(d) {
        Some(
            if is_negative(s) {
                -text::digits_value(d)
            } else {
                text::digits_value(d)
            },
        )
    } else {
        None
    }
}

/// The part of a number before its exponent, and the text of the exponent.
pub open spec fn mantissa_and_exponent(s: Seq<char>) -> (Seq<char>, Option<Seq<char>>) {
    match text::split_once_spec(text::lowered(s), 'e') {
        Some((m, e)) => (m, Some(e)),
        None => (text::lowered(s), None),
    }
}

/// The digits before and behind the decimal point.
pub open spec fn whole_and_fraction(m: Seq<char>) -> (Seq<char>, Seq<char>) {
    match text::split_once_spec(m, '.') {
        Some((a, b)) => (a, b),
        None => (m, Seq::empty()),
    }
}

/// The number that an unsigned text writes: digits with at most one decimal
/// point and at least one digit, then an exponent where there is an `e`.
pub open spec fn written_number(s: Seq<char>) -> Option<WrittenNumber> {
    let (m, e) = mantissa_and_exponent(s);
    let (a, b) = whole_and_fraction(m);
    let scale = match e {
        Some(t) => written_exponent(t),
        None => Some(0),
    };
    if a.len() + b.len() > 0 && text::all_digits(a) && text::all_digits(b) && scale is Some {
        Some(WrittenNumber { digits: a + b, exponent: scale->0 - b.len() })
    } else {
        None
    }
}

/// Whether `d` times ten to the `e`th power is rounded to zero: it is at or
/// below half the least positive 32-bit float, which is two to the power -150.
pub open spec fn rounds_to_zero(d: int, e: int) -> bool {
    if e >= 0 {
        d == 0
    } else {
        d * pow2(150) <= pow(10, (-e) as nat)
    }
}

/// Whether a text is read as a number and that number is at or below zero.
pub open spec fn at_or_below_zero(s: Seq<char>) -> bool {
    let u = text::lowered(unsigned_part(s));
    if u == "inf"@ || u == "infinity"@ {
        is_negative(s)
    } else {
        match written_number(unsigned_part(s)) {
            Some(n) => is_negative(s) || rounds_to_zero(text::digits_value(n.digits), n.exponent),
            None => false,
        }
    }
}

/// The number whose decimal digits are `v`, the least one first.
spec fn value(v: Seq<u8>) -> int
    decreases v.len(),
{
    if v.len() == 0 {
        0
    } else {
        value(v.drop_last()) + v.last() * pow(10, (v.len() - 1) as nat)
    }
}

spec fn digits_only(v: Seq<u8>) -> bool {
    forall|i: int| 0 <= i < v.len() ==> #[trigger] v[i] < 10
}

/// A number lies below the power of ten that its digits count, and reaches the
/// one before where its last digit is not zero.
proof fn lemma_value_bounds(v: Seq<u8>)
    requires
        digits_only(v),
    ensures
        0 <= value(v) < pow(10, v.len()),
        v.len() > 0 && v.last() > 0 ==> value(v) >= pow(10, (v.len() - 1) as nat),
    decreases v.len(),
{
    if v.len() == 0 {
        lemma_pow0(10);
    } else {
        lemma_value_bounds(v.drop_last());
        let n = (v.len() - 1) as nat;
        let p = pow(10, n);
        let d = v.last() as int;
        lemma_pow1(10);
        lemma_pow_adds(10, 1, n);
        lemma_pow_positive(10, n);
        assert(pow(10, v.len()) == 10 * p);
        assert(v.last() < 10);
        assert(d * p <= 9 * p) by (nonlinear_arith)
            requires
                0 <= d <= 9,
                p > 0,
        ;
        assert(d * p >= 0) by (nonlinear_arith)
            requires
                0 <= d,
                p > 0,
        ;
        assert(d > 0 ==> d * p >= p) by (nonlinear_arith)
            requires
                p > 0,
        ;
    }
}

/// Taking the digits from the front: the first one, and ten times the rest.
proof fn lemma_value_front(v: Seq<u8>)
    requires
        v.len() > 0,
    ensures
        value(v) == v[0] + 10 * value(v.drop_first()),
    decreases v.len(),
{
    if v.len() == 1 {
        reveal_with_fuel(value, 2);
        lemma_pow0(10);
        assert(v.drop_last() == Seq::<u8>::empty());
        assert(v.drop_first() == Seq::<u8>::empty());
        assert(v.last() * pow(10, 0) == v[0]);
    } else {
        let w = v.drop_last();
        let t = v.drop_first();
        lemma_value_front(w);
        assert(w.drop_first() == t.drop_last());
        assert(t.last() == v.last());
        let n = (v.len() - 2) as nat;
        lemma_pow1(10);
        lemma_pow_adds(10, 1, n);
        let d = v.last() as int;
        let p = pow(10, n);
        assert(d * (10 * p) == 10 * (d * p)) by (nonlinear_arith);
    }
}

/// The digits of a text, read from its end.
proof fn lemma_value_of_digits(s: Seq<char>, v: Seq<u8>)
    requires
        text::all_digits(s),
        v.len() == s.len(),
        forall|i: int| 0 <= i < v.len() ==> #[trigger] v[i] == s[s.len() - 1 - i] as int - '0' as int,
    ensures
        value(v) == text::digits_value(s),
    decreases s.len(),
{
    if s.len() > 0 {
        lemma_value_front(v);
        let t = s.drop_last();
        let w = v.drop_first();
        assert forall|i: int| 0 <= i < w.len() implies #[trigger] w[i] == t[t.len() - 1 - i] as int
            - '0' as int by {
            assert(w[i] == v[i + 1]);
        }
        assert forall|i: int| 0 <= i < t.len() implies text::is_digit(#[trigger] t[i]) by {
            assert(t[i] == s[i]);
        }
        lemma_value_of_digits(t, w);
    }
}

/// Doubles the number.
fn double(v: &mut Vec<u8>)
    requires
        digits_only(old(v)@),
        old(v)@.len() > 0,
        old(v)@.last() > 0,
    ensures
        digits_only(final(v)@),
        final(v)@.len() > 0,
        final(v)@.last() > 0,
        value(final(v)@) == 2 * value(old(v)@),
{
    let ghost before = v@;
    let mut carry: u8 = 0;
    let mut i: usize = 0;
    proof {
        lemma_pow0(10);
    }
    while i < v.len()
        invariant
            i <= v@.len(),
            v@.len() == before.len(),
            carry <= 1,
            digits_only(before),
            digits_only(v@),
            before.len() > 0,
            before.last() > 0,
            forall|j: int| i <= j < v@.len() ==> v@[j] == before[j],
            value(v@.take(i as int)) + carry * pow(10, i as nat) == 2 * value(before.take(i as int)),
            i == v@.len() ==> v@.last() > 0 || carry == 1,
        decreases v@.len() - i,
    {
        let ghost now = v@;
        let t: u8 = 2 * v[i] + carry;
        let d: u8 = t % 10;
        let c: u8 = t / 10;
        v[i] = d;
        proof {
            let p = pow(10, i as nat);
            lemma_pow1(10);
            lemma_pow_adds(10, 1, i as nat);
            assert(v@.take(i + 1).drop_last() == now.take(i as int));
            assert(before.take(i + 1).drop_last() == before.take(i as int));
            let o = before[i as int] as int;
            assert(d * p + c * (10 * p) == 2 * (o * p) + carry * p) by (nonlinear_arith)
                requires
                    d + 10 * c == 2 * o + carry,
            ;
        }
        carry = c;
        i += 1;
    }
    let ghost done = v@;
    assert(done.take(i as int) == done);
    assert(before.take(i as int) == before);
    if carry > 0 {
        v.push(1);
        assert(v@.drop_last() == done);
    }
}

/// Whether the number is at most ten to the `k`th power.
fn at_most_power_of_ten(v: &Vec<u8>, k: u128) -> (r: bool)
    requires
        digits_only(v@),
        v@.len() > 0,
        v@.last() > 0,
    ensures
        r == (value(v@) <= pow(10, k as nat)),
{
    let n: u128 = v.len() as u128;
    proof {
        lemma_value_bounds(v@);
        lemma_pow_positive(10, k as nat);
    }
    if n <= k {
        proof {
            lemma_pow_increases(10, n as nat, k as nat);
        }
        return true;
    }
    if n - 1 > k {
        proof {
            lemma_pow_strictly_increases(10, k as nat, (n - 1) as nat);
        }
        return false;
    }
    let last: usize = v.len() - 1;
    let mut i: usize = 0;
    let ghost front = v@.drop_last();
    proof {
        assert forall|j: int| 0 <= j < front.len() implies #[trigger] front[j] < 10 by {
            assert(front[j] == v@[j]);
        }
        lemma_value_bounds(front);
        let d = v@.last() as int;
        let p = pow(10, k as nat);
        assert(d > 1 ==> d * p >= 2 * p) by (nonlinear_arith)
            requires
                p > 0,
        ;
        assert(d == 1 ==> d * p == p) by (nonlinear_arith);
        assert(d >= 1);
    }
    if v[last] != 1 {
        return false;
    }
    while i < last
        invariant
            i <= last,
            last == v@.len() - 1,
            front == v@.drop_last(),
            forall|j: int| 0 <= j < i ==> front[j] == 0,
            value(v@) == value(front) + pow(10, k as nat),
            digits_only(front),
        decreases last - i,
    {
        if v[i] != 0 {
            proof {
                assert(front[i as int] > 0);
                lemma_value_zero(front);
                lemma_value_bounds(front);
            }
            return false;
        }
        i += 1;
    }
    proof {
        lemma_value_zero(front);
    }
    true
}

/// A number is zero exactly where all its digits are.
proof fn lemma_value_zero(v: Seq<u8>)
    requires
        digits_only(v),
    ensures
        value(v) == 0 <==> (forall|i: int| 0 <= i < v.len() ==> v[i] == 0),
    decreases v.len(),
{
    if v.len() > 0 {
        let w = v.drop_last();
        assert forall|j: int| 0 <= j < w.len() implies #[trigger] w[j] < 10 by {
            assert(w[j] == v[j]);
        }
        lemma_value_zero(w);
        lemma_value_bounds(w);
        let p = pow(10, (v.len() - 1) as nat);
        lemma_pow_positive(10, (v.len() - 1) as nat);
        let d = v.last() as int;
        assert(d > 0 ==> d * p > 0) by (nonlinear_arith)
            requires
                p > 0,
        ;
        assert(d == 0 ==> d * p == 0) by (nonlinear_arith);
        if forall|i: int| 0 <= i < v.len() ==> v[i] == 0 {
            assert forall|j: int| 0 <= j < w.len() implies w[j] == 0 by {
                assert(w[j] == v[j]);
            }
            assert(v.last() == 0);
        }
        if value(v) == 0 {
            assert(d == 0);
            assert forall|j: int| 0 <= j < v.len() implies v[j] == 0 by {
                if j < w.len() {
                    assert(w[j] == v[j]);
                }
            }
        }
    }
}

/// Whether the number `digits` times ten to the power `-k` is rounded to zero.
fn small_enough(digits: &Vec<char>, k: u128) -> (r: bool)
    requires
        text::all_digits(digits@),
        k > 0,
    ensures
        r == rounds_to_zero(text::digits_value(digits@), -(k as int)),
{
    let mut v: Vec<u8> = Vec::new();
    let mut i: usize = digits.len();
    while i > 0
        invariant
            i + v@.len() == digits@.len(),
            text::all_digits(digits@),
            digits_only(v@),
            forall|j: int|
                0 <= j < v@.len() ==> #[trigger] v@[j] == digits@[digits@.len() - 1 - j] as int
                    - '0' as int,
        decreases i,
    {
        i -= 1;
        assert(text::is_digit(digits@[i as int]));
        let c = digits[i];
        v.push(c as u8 - 48);
    }
    proof {
        lemma_value_of_digits(digits@, v@);
    }
    while v.len() > 0 && v[v.len() - 1] == 0
        invariant
            digits_only(v@),
            value(v@) == text::digits_value(digits@),
        decreases v@.len(),
    {
        let ghost was = v@;
        let _ = v.pop();
        assert(v@ == was.drop_last());
    }
    if v.len() == 0 {
        proof {
            lemma_pow_positive(10, k as nat);
        }
        return true;
    }
    let ghost d = text::digits_value(digits@);
    proof {
        lemma2_to64();
    }
    let mut n: u32 = 0;
    while n < 150
        invariant
            n <= 150,
            digits_only(v@),
            v@.len() > 0,
            v@.last() > 0,
            value(v@) == d * pow2(n as nat),
        decreases 150 - n,
    {
        double(&mut v);
        proof {
            lemma_pow2_unfold((n + 1) as nat);
            let p = pow2(n as nat) as int;
            assert(2 * (d * p) == d * (2 * p)) by (nonlinear_arith);
        }
        n += 1;
    }
    at_most_power_of_ten(&v, k)
}

/// Whether the text is made of digits alone.
fn only_digits(chars: &Vec<char>, from: usize, to: usize) -> (r: bool)
    requires
        from <= to <= chars@.len(),
    ensures
        r == text::all_digits(chars@.subrange(from as int, to as int)),
{
    let ghost part = chars@.subrange(from as int, to as int);
    let mut i: usize = from;
    while i < to
        invariant
            from <= i <= to <= chars@.len(),
            part == chars@.subrange(from as int, to as int),
            forall|j: int| 0 <= j < i - from ==> text::is_digit(#[trigger] part[j]),
        decreases to - i,
    {
        let c = chars[i];
        assert(part[i - from] == c);
        if !('0' <= c && c <= '9') {
            return false;
        }
        i += 1;
    }
    true
}

/// The exponent that a text writes, in two parts: whether it is negative, and
/// its size where that is at most ten to the 30th power.
fn read_exponent(s: &str) -> (r: Option<(bool, Option<u128>)>)
    ensures
        match r {
            None => written_exponent(s@) is None,
            Some((negative, size)) => {
                let d = text::digits_value(unsigned_part(s@));
                &&& negative == is_negative(s@)
                &&& written_exponent(s@) == Some(
                    if negative {
                        -d
                    } else {
                        d
                    },
                )
                &&& d >= 0
                &&& match size {
                    Some(n) => n == d && n <= 1_000_000_000_000_000_000_000_000_000_000,
                    None => d > 1_000_000_000_000_000_000_000_000_000_000,
                }
            },
        },
{
    let chars = text::to_chars(s);
    let n: usize = chars.len();
    let from: usize = if n > 0 && (chars[0] == '+' || chars[0] == '-') {
        1
    } else {
        0
    };
    assert(s@.skip(0) == s@);
    assert(chars@.subrange(from as int, n as int) == unsigned_part(s@));
    if from == n || !only_digits(&chars, from, n) {
        return None;
    }
    let d = text::from_chars(&chars, from, n);
    proof {
        text::lemma_digits_nonnegative(d@);
        assert(text::is_digit(d@[0]));
    }
    let size = text::parse_wide(d.as_str(), 1_000_000_000_000_000_000_000_000_000_000);
    Some((n > 0 && chars[0] == '-', size))
}

/// Whether the unsigned text writes a number, and whether that number is
/// rounded to zero.
fn read_number(s: &str) -> (r: Option<bool>)
    ensures
        match r {
            None => written_number(s@) is None,
            Some(zero) => {
                &&& written_number(s@) matches Some(n)
                &&& zero == rounds_to_zero(text::digits_value(n.digits), n.exponent)
            },
        },
{
    let lowered = text::to_lowered(s);
    let (mantissa, exponent) = match text::split_once(lowered.as_str(), 'e') {
        Some((m, e)) => {
            match read_exponent(e) {
                Some(x) => (m, x),
                None => {
                    return None;
                },
            }
        },
        None => (lowered.as_str(), (false, Some(0))),
    };
    let (whole, fraction) = match text::split_once(mantissa, '.') {
        Some((a, b)) => (a, b),
        None => (mantissa, ""),
    };
    proof {
        reveal_strlit("");
        assert(""@ == Seq::<char>::empty());
    }
    let a = text::to_chars(whole);
    let b = text::to_chars(fraction);
    let na: usize = a.len();
    let nb: usize = b.len();
    assert(a@.subrange(0, na as int) == a@);
    assert(b@.subrange(0, nb as int) == b@);
    if na == 0 && nb == 0 {
        return None;
    }
    if !only_digits(&a, 0, na) || !only_digits(&b, 0, nb) {
        return None;
    }
    let mut digits = a.clone();
    let mut j: usize = 0;
    assert(digits@ == a@ + b@.take(0));
    while j < nb
        invariant
            j <= nb == b@.len(),
            digits@ == a@ + b@.take(j as int),
        decreases nb - j,
    {
        digits.push(b[j]);
        j += 1;
        assert(digits@ == a@ + b@.take(j as int));
    }
    assert(b@.take(nb as int) == b@);
    let ghost n = WrittenNumber { digits: a@ + b@, exponent: written_number(s@)->0.exponent };
    proof {
        assert(written_number(s@) == Some(n));
        assert forall|i: int| 0 <= i < digits@.len() implies text::is_digit(#[trigger] digits@[i]) by {
            if i < na {
                assert(text::is_digit(a@[i]));
            } else {
                assert(text::is_digit(b@[i - na]));
            }
        }
    }
    let (negative, size) = exponent;
    let k: u128 = match size {
        Some(e) => {
            if negative {
                e + nb as u128
            } else if e < nb as u128 {
                nb as u128 - e
            } else {
                0
            }
        },
        None => {
            if negative {
                // Beyond the count of any digits there can be.
                proof {
                    lemma_far_below(digits@, -n.exponent);
                }
                return Some(true);
            } else {
                0
            }
        },
    };
    if k > 0 {
        assert(n.exponent == -(k as int));
        return Some(small_enough(&digits, k));
    }
    assert(n.exponent >= 0);
    let mut i: usize = 0;
    while i < digits.len()
        invariant
            i <= digits@.len(),
            text::all_digits(digits@),
            written_number(s@) == Some(n),
            n.digits == digits@,
            n.exponent >= 0,
            forall|l: int| 0 <= l < i ==> digits@[l] == '0',
        decreases digits@.len() - i,
    {
        if digits[i] != '0' {
            proof {
                lemma_nonzero_digits(digits@, i as int);
            }
            return Some(false);
        }
        i += 1;
    }
    proof {
        lemma_zero_digits(digits@);
    }
    Some(true)
}

/// Digits with one that is not zero write a number that is not zero.
proof fn lemma_nonzero_digits(s: Seq<char>, i: int)
    requires
        text::all_digits(s),
        0 <= i < s.len(),
        s[i] != '0',
    ensures
        text::digits_value(s) > 0,
{
    let t = s.take(i + 1);
    assert(t.drop_last() == s.take(i));
    assert forall|j: int| 0 <= j < t.drop_last().len() implies text::is_digit(
        #[trigger] t.drop_last()[j],
    ) by {
        assert(t.drop_last()[j] == s[j]);
    }
    text::lemma_digits_nonnegative(t.drop_last());
    assert(text::is_digit(s[i]));
    text::lemma_digits_grow(s, i + 1);
}

proof fn lemma_zero_digits(s: Seq<char>)
    requires
        forall|i: int| 0 <= i < s.len() ==> s[i] == '0',
    ensures
        text::digits_value(s) == 0,
    decreases s.len(),
{
    if s.len() > 0 {
        lemma_zero_digits(s.drop_last());
    }
}

/// A number is below ten to the power of its count of digits.
proof fn lemma_digits_below(s: Seq<char>)
    requires
        text::all_digits(s),
    ensures
        text::digits_value(s) < pow(10, s.len()),
    decreases s.len(),
{
    if s.len() == 0 {
        lemma_pow0(10);
    } else {
        let t = s.drop_last();
        assert forall|j: int| 0 <= j < t.len() implies text::is_digit(#[trigger] t[j]) by {
            assert(t[j] == s[j]);
        }
        lemma_digits_below(t);
        lemma_pow1(10);
        lemma_pow_adds(10, 1, t.len());
        assert(text::is_digit(s.last()));
    }
}

/// An exponent far below the count of the digits brings them down to zero.
proof fn lemma_far_below(s: Seq<char>, k: int)
    requires
        text::all_digits(s),
        k >= s.len() + 50,
    ensures
        rounds_to_zero(text::digits_value(s), -k),
{
    lemma_digits_below(s);
    text::lemma_digits_nonnegative(s);
    let d = text::digits_value(s);
    let p = pow(10, s.len());
    lemma_pow2(150);
    lemma_pow_positive(10, s.len());
    lemma_pow_positive(2, 150);
    assert(pow(2, 150) <= pow(10, 50)) by {
        lemma_pow_multiplies(2, 3, 50);
        assert(pow(2, 3) == 8) by {
            reveal_with_fuel(pow, 4);
        }
        lemma_pow_increases_base(8, 10, 50);
    }
    lemma_pow_adds(10, s.len(), 50);
    lemma_pow_increases(10, s.len() + 50, k as nat);
    let q = pow(10, 50);
    let t = pow(2, 150);
    assert(d * t <= p * q) by (nonlinear_arith)
        requires
            0 <= d < p,
            0 < t <= q,
    ;
}

/// A power grows with its base.
proof fn lemma_pow_increases_base(a: int, b: int, n: nat)
    requires
        0 < a <= b,
    ensures
        pow(a, n) <= pow(b, n),
    decreases n,
{
    reveal(pow);
    if n > 0 {
        let m = (n - 1) as nat;
        lemma_pow_increases_base(a, b, m);
        lemma_pow_positive(a, m);
        let x = pow(a, m);
        let y = pow(b, m);
        assert(a * x <= b * y) by (nonlinear_arith)
            requires
                0 < a <= b,
                0 < x <= y,
        ;
    }
}

/// Decides whether a text is read as a number at or below zero.
pub fn is_at_or_below_zero(s: &str) -> (r: bool)
    ensures
        r == at_or_below_zero(s@),
{
    let chars = text::to_chars(s);
    let n: usize = chars.len();
    let negative = n > 0 && chars[0] == '-';
    let from: usize = if n > 0 && (chars[0] == '+' || chars[0] == '-') {
        1
    } else {
        0
    };
    assert(s@.skip(0) == s@);
    assert(chars@.subrange(from as int, n as int) == unsigned_part(s@));
    let unsigned = text::from_chars(&chars, from, n);
    let lowered = text::to_lowered(unsigned.as_str());
    if text::same_text(lowered.as_str(), "inf") || text::same_text(lowered.as_str(), "infinity") {
        return negative;
    }
    match read_number(unsigned.as_str()) {
        Some(zero) => negative || zero,
        None => false,
    }
}

proof fn lemma_tens(k: nat)
    ensures
        pow(10, 3 * k) <= pow2(10 * k),
    decreases k,
{
    if k == 0 {
        lemma_pow0(10);
        lemma2_to64();
    } else {
        let j = (k - 1) as nat;
        lemma_tens(j);
        lemma_pow_adds(10, 3 * j, 3);
        assert(3 * j + 3 == 3 * k);
        lemma_pow2_adds(10 * j, 10);
        assert(10 * j + 10 == 10 * k);
        lemma2_to64();
        reveal_with_fuel(pow, 4);
        assert(pow(10, 3) == 1000);
        let a = pow(10, 3 * j);
        let b = pow2(10 * j) as int;
        lemma_pow_positive(10, 3 * j);
        assert(a * 1000 <= b * 1024) by (nonlinear_arith)
            requires
                0 < a <= b,
        ;
    }
}

/// A number is at or below zero by its digits: a fraction of up to forty-four places is so
/// exactly where all of them are worth nothing, and any number is with a minus before it.
pub proof fn law_qualities_are_read_as_numbers(whole: Seq<char>, fraction: Seq<char>)
    requires
        whole.len() > 0,
        text::all_digits(whole),
        text::all_digits(fraction),
        fraction.len() <= 44,
    ensures
        at_or_below_zero(whole + seq!['.'] + fraction) <==> text::digits_value(whole + fraction)
            == 0,
        at_or_below_zero(whole) <==> text::digits_value(whole) == 0,
        at_or_below_zero(seq!['-'] + whole),
        at_or_below_zero(seq!['+'] + whole) <==> at_or_below_zero(whole),
{
    assert(text::is_digit(whole[0]));
    let s = whole + seq!['.'] + fraction;
    lemma_plain_number(whole, Seq::empty(), false);
    lemma_plain_number(whole, fraction, true);
    assert((seq!['-'] + whole).skip(1) =~= whole);
    assert((seq!['+'] + whole).skip(1) =~= whole);
    assert((seq!['-'] + whole)[0] == '-');
    assert((seq!['+'] + whole)[0] == '+');
    assert(whole + Seq::<char>::empty() =~= whole);
    let d = text::digits_value(whole + fraction);
    text::lemma_digits_nonnegative(whole + fraction);
    let n = fraction.len();
    if n > 0 {
        lemma_tens(15);
        assert(pow(10, 45) <= pow2(150));
        lemma_pow_strictly_increases(10, n, 45);
        if d > 0 {
            let p = pow2(150) as int;
            lemma_pow2_pos(150);
            assert(d * p >= p) by (nonlinear_arith)
                requires
                    d >= 1,
                    p > 0,
            ;
        } else {
            lemma_pow_positive(10, n);
            assert(0 * pow2(150) == 0);
        }
    }
}

/// What is written with digits alone, and maybe a point, is read as such.
proof fn lemma_plain_number(whole: Seq<char>, fraction: Seq<char>, point: bool)
    requires
        whole.len() > 0,
        text::all_digits(whole),
        text::all_digits(fraction),
        !point ==> fraction.len() == 0,
    ensures
        ({
            let s = if point {
                whole + seq!['.'] + fraction
            } else {
                whole
            };
            &&& unsigned_part(s) == s
            &&& !is_negative(s)
            &&& text::lowered(s) != "inf"@
            &&& text::lowered(s) != "infinity"@
            &&& written_number(s) == Some(
                WrittenNumber { digits: whole + fraction, exponent: -(fraction.len() as int) },
            )
        }),
{
    let s = if point {
        whole + seq!['.'] + fraction
    } else {
        whole
    };
    reveal_strlit("inf");
    reveal_strlit("infinity");
    assert(text::is_digit(whole[0]));
    assert(s[0] == whole[0]);
    assert forall|i: int| 0 <= i < s.len() implies text::is_digit(s[i]) || s[i] == '.' by {
        if i < whole.len() {
            assert(text::is_digit(whole[i]));
        } else if i > whole.len() {
            assert(s[i] == fraction[i - whole.len() - 1]);
            assert(text::is_digit(fraction[i - whole.len() - 1]));
        }
    }
    assert(text::lowered(s) =~= s);
    assert("inf"@[0] == 'i' && "infinity"@[0] == 'i');
    assert forall|i: int| 0 <= i < s.len() implies s[i] != 'e' by {
        assert(text::is_digit(s[i]) || s[i] == '.');
    }
    assert(!s.contains('e'));
    assert forall|i: int| 0 <= i < whole.len() implies whole[i] != '.' by {
        assert(text::is_digit(whole[i]));
    }
    assert(!whole.contains('.'));
    text::law_texts_are_cut_at_the_first(whole, fraction, '.');
    if !point {
        assert(fraction =~= Seq::<char>::empty());
    }
}

} // verus!
