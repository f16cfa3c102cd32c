use vstd::prelude::*;

verus! {

/// Rates and parsed amounts are fixed-point numbers counted in millionths.
pub const MICROS_PER_UNIT: u128 = 1_000_000;

/// A decimal text carries at most this many digits after its dot.
pub const MAX_FRACTION_DIGITS: usize = 6;

/// The largest whole part whose value in millionths still fits in a `u128`.
pub const MAX_WHOLE: u128 = 340282366920938463463374607431768;

pub open spec fn is_digit(c: char) -> bool {
    '0' <= c && c <= '9'
}

pub open spec fn digit_value(c: char) -> nat {
    (c as int - '0' as int) as nat
}

pub open spec fn all_digits(s: Seq<char>) -> bool {
    forall|i: int| 0 <= i < s.len() ==> is_digit(#[trigger] s[i])
}

/// The number that a string of decimal digits denotes.
pub open spec fn digits_value(s: Seq<char>) -> nat
    decreases s.len(),
{
    if s.len() == 0 {
        0
    } else {
        digits_value(s.drop_last()) * 10 + digit_value(s.last())
    }
}

pub open spec fn pow10(n: nat) -> nat
    decreases n,
{
    if n == 0 {
        1
    } else {
        10 * pow10((n - 1) as nat)
    }
}

/// `s` reads as a decimal whose whole part is `s[..k]`: one digit or more,
/// then nothing, or a dot and one to six fraction digits.
pub open spec fn decimal_split(s: Seq<char>, k: int) -> bool {
    &&& 0 < k <= s.len()
    &&& all_digits(s.take(k))
    &&& k == s.len() || {
        &&& s[k] == '.'
        &&& k + 1 < s.len()
        &&& s.len() - (k + 1) <= MAX_FRACTION_DIGITS
        &&& all_digits(s.skip(k + 1))
    }
}

/// The value in millionths of the decimal `s` whose whole part is `s[..k]`.
pub open spec fn split_value(s: Seq<char>, k: int) -> nat {
    if k < s.len() {
        digits_value(s.take(k)) * 1_000_000 + digits_value(s.skip(k + 1)) * pow10(
            (MAX_FRACTION_DIGITS - (s.len() - (k + 1))) as nat,
        )
    } else {
        digits_value(s) * 1_000_000
    }
}

/// The value in millionths of a decimal text, `None` where `s` is no decimal.
pub open spec fn decimal_of(s: Seq<char>) -> Option<nat> {
    if exists|k: int| decimal_split(s, k) {
        Some(split_value(s, choose|k: int| decimal_split(s, k)))
    } else {
        None
    }
}

/// The value in millionths of a decimal text with an optional leading minus sign.
pub open spec fn signed_decimal_of(s: Seq<char>) -> Option<int> {
    if s.len() > 0 && s[0] == '-' {
        match decimal_of(s.skip(1)) {
            Some(v) => Some(-v),
            None => None,
        }
    } else {
        match decimal_of(s) {
            Some(v) => Some(v as int),
            None => None,
        }
    }
}

/// A decimal has one split only: the whole part ends where the digits do.
proof fn lemma_split_after_digits(s: Seq<char>, i: int, k: int)
    requires
        0 <= i <= s.len(),
        all_digits(s.take(i)),
        decimal_split(s, k),
    ensures
        k >= i,
        i == s.len() || !is_digit(s[i]) ==> k == i,
{
    if k < i {
        assert(s.take(i)[k] == s[k]);
    }
    if k > i && i < s.len() {
        assert(s.take(k)[i] == s[i]);
    }
}

proof fn lemma_digits_value_monotone(s: Seq<char>, a: int, b: int)
    requires
        0 <= a <= b <= s.len(),
    ensures
        digits_value(s.take(a)) <= digits_value(s.take(b)),
    decreases b - a,
{
    if a < b {
        lemma_digits_value_monotone(s, a, b - 1);
        assert(s.take(b).drop_last() =~= s.take(b - 1));
    }
}

proof fn lemma_pow10_small(n: nat)
    requires
        n <= 6,
    ensures
        1 <= pow10(n) <= 1_000_000,
{
    reveal_with_fuel(pow10, 7);
}

/// A decimal has a value exactly where it splits.
pub(crate) proof fn lemma_decimal_of_split(s: Seq<char>, k: int)
    requires
        decimal_split(s, k),
    ensures
        decimal_of(s) == Some(split_value(s, k)),
{
    let c = choose|c: int| decimal_split(s, c);
    lemma_split_after_digits(s, k, c);
    lemma_split_after_digits(s, c, k);
}

/// Ten to the power `e`, for the few exponents that a fraction needs.
fn pow10_exec(e: usize) -> (r: u128)
    requires
        e <= MAX_FRACTION_DIGITS,
    ensures
        r == pow10(e as nat),
        1 <= r <= 1_000_000,
{
    let mut r: u128 = 1;
    let mut i: usize = 0;
    while i < e
        invariant
            i <= e <= MAX_FRACTION_DIGITS,
            r == pow10(i as nat),
        decreases e - i,
    {
        proof {
            lemma_pow10_small(i as nat);
        }
        r = r * 10;
        i = i + 1;
    }
    proof {
        lemma_pow10_small(e as nat);
    }
    r
}

/// Reads an unsigned decimal (`"5.60"`, `"28000"`, `"0.000001"`) as a count of
/// millionths; `None` where the text is no decimal or its value overflows.
pub fn parse_decimal(s: &str) -> (r: Option<u128>)
    ensures
        r.is_some() <==> (decimal_of(s@).is_some() && decimal_of(s@).unwrap() <= u128::MAX),
        r.is_some() ==> r.unwrap() == decimal_of(s@).unwrap(),
{
    let n = s.unicode_len();
    let mut i: usize = 0;
    let mut whole: u128 = 0;
    loop
        invariant
            n == s@.len(),
            i <= n,
            all_digits(s@.take(i as int)),
            whole == digits_value(s@.take(i as int)),
            whole <= MAX_WHOLE,
        ensures
            i == n || !is_digit(s@[i as int]),
        decreases n - i,
    {
        if i == n {
            break;
        }
        let c = s.get_char(i);
        if !('0' <= c && c <= '9') {
            break;
        }
        let next = whole * 10 + (c as u32 - '0' as u32) as u128;
        proof {
            assert(s@.take(i + 1).drop_last() =~= s@.take(i as int));
            assert(s@.take(i + 1).last() == c);
            assert forall|j: int| 0 <= j < i + 1 implies is_digit(#[trigger] s@.take(i + 1)[j]) by {
                if j < i {
                    assert(s@.take(i as int)[j] == s@.take(i + 1)[j]);
                }
            }
        }
        if next > MAX_WHOLE {
            proof {
                if exists|k: int| decimal_split(s@, k) {
                    let k = choose|k: int| decimal_split(s@, k);
                    lemma_decimal_of_split(s@, k);
                    lemma_split_after_digits(s@, i + 1, k);
                    lemma_digits_value_monotone(s@, i + 1, k);
                    if k == s@.len() {
                        assert(s@.take(k) =~= s@);
                    }
                }
            }
            return None;
        }
        whole = next;
        i = i + 1;
    }
    proof {
        if exists|k: int| decimal_split(s@, k) {
            let k = choose|k: int| decimal_split(s@, k);
            lemma_split_after_digits(s@, i as int, k);
            lemma_decimal_of_split(s@, i as int);
        }
    }
    if i == 0 {
        return None;
    }
    if i == n {
        proof {
            assert(s@.take(n as int) =~= s@);
            assert(decimal_split(s@, n as int));
            lemma_decimal_of_split(s@, n as int);
        }
        return Some(whole * MICROS_PER_UNIT);
    }
    if s.get_char(i) != '.' || n - i - 1 == 0 || n - i - 1 > MAX_FRACTION_DIGITS {
        return None;
    }
    let digits: usize = n - i - 1;
    proof {
        assert forall|k: int| decimal_split(s@, k) implies k == i by {
            lemma_split_after_digits(s@, i as int, k);
        }
    }
    let mut j: usize = i + 1;
    let mut fraction: u128 = 0;
    while j < n
        invariant
            n == s@.len(),
            i < j <= n,
            n - i - 1 == digits <= MAX_FRACTION_DIGITS,
            all_digits(s@.subrange(i + 1, j as int)),
            fraction == digits_value(s@.subrange(i + 1, j as int)),
            fraction < pow10((j - i - 1) as nat),
            forall|k: int| decimal_split(s@, k) ==> k == i,
        decreases n - j,
    {
        let c = s.get_char(j);
        if !('0' <= c && c <= '9') {
            proof {
                if exists|k: int| decimal_split(s@, k) {
                    let k = choose|k: int| decimal_split(s@, k);
                    assert(s@.skip(i + 1)[j - i - 1] == s@[j as int]);
                }
            }
            return None;
        }
        proof {
            lemma_pow10_small((j - i - 1) as nat);
            assert(s@.subrange(i + 1, j + 1).drop_last() =~= s@.subrange(i + 1, j as int));
            assert(s@.subrange(i + 1, j + 1).last() == c);
            assert forall|m: int| 0 <= m < j + 1 - (i + 1) implies is_digit(
                #[trigger] s@.subrange(i + 1, j + 1)[m],
            ) by {
                if m < j - (i + 1) {
                    assert(s@.subrange(i + 1, j as int)[m] == s@.subrange(i + 1, j + 1)[m]);
                }
            }
        }
        fraction = fraction * 10 + (c as u32 - '0' as u32) as u128;
        j = j + 1;
    }
    let scale = pow10_exec(MAX_FRACTION_DIGITS - digits);
    proof {
        lemma_pow10_small(digits as nat);
        assert(s@.subrange(i + 1, n as int) =~= s@.skip(i + 1));
        assert(decimal_split(s@, i as int));
        lemma_decimal_of_split(s@, i as int);
        assert(fraction * scale <= 1_000_000 * 1_000_000) by (nonlinear_arith)
            requires
                fraction < 1_000_000,
                scale <= 1_000_000,
        ;
    }
    let part = fraction * scale;
    let whole_micros = whole * MICROS_PER_UNIT;
    if whole_micros > u128::MAX - part {
        return None;
    }
    Some(whole_micros + part)
}

/// Reads an exchange rate (`"5.4321"`) as a count of millionths; `None` where
/// the text is no decimal or the rate does not fit in a `u64`.
pub fn parse_rate(s: &str) -> (r: Option<u64>)
    ensures
        r.is_some() <==> (decimal_of(s@).is_some() && decimal_of(s@).unwrap() <= u64::MAX),
        r.is_some() ==> r.unwrap() == decimal_of(s@).unwrap(),
{
    match parse_decimal(s) {
        Some(v) => {
            if v <= u64::MAX as u128 {
                Some(v as u64)
            } else {
                None
            }
        },
        None => None,
    }
}

/// Reads a decimal with an optional leading minus sign (`"-140.00"`) as a
/// count of millionths; `None` where the text is no such decimal or its value
/// does not fit in an `i128`.
pub fn parse_amount(s: &str) -> (r: Option<i128>)
    ensures
        r.is_some() <==> (signed_decimal_of(s@).is_some() && -i128::MAX <= signed_decimal_of(
            s@,
        ).unwrap() <= i128::MAX),
        r.is_some() ==> r.unwrap() == signed_decimal_of(s@).unwrap(),
{
    let n = s.unicode_len();
    if n > 0 && s.get_char(0) == '-' {
        let rest = s.substring_char(1, n);
        assert(rest@ =~= s@.skip(1));
        match parse_decimal(rest) {
            Some(v) => {
                if v <= i128::MAX as u128 {
                    Some(-(v as i128))
                } else {
                    None
                }
            },
            None => None,
        }
    } else {
        match parse_decimal(s) {
            Some(v) => {
                if v <= i128::MAX as u128 {
                    Some(v as i128)
                } else {
                    None
                }
            },
            None => None,
        }
    }
}

} // verus!
