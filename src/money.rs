use vstd::prelude::*;
use crate::decimal::{
    all_digits,
    decimal_of,
    decimal_split,
    digit_value,
    MAX_FRACTION_DIGITS,
    digits_value,
    is_digit,
    pow10,
    signed_decimal_of,
    split_value,
};

verus! {

/// Billionths of a unit in one cent.
pub const NANOS_PER_CENT: u128 = 10_000_000;

pub open spec fn digit_char(d: int) -> char {
    if d == 0 {
        '0'
    } else if d == 1 {
        '1'
    } else if d == 2 {
        '2'
    } else if d == 3 {
        '3'
    } else if d == 4 {
        '4'
    } else if d == 5 {
        '5'
    } else if d == 6 {
        '6'
    } else if d == 7 {
        '7'
    } else if d == 8 {
        '8'
    } else {
        '9'
    }
}

/// The decimal digits of `n`, without leading zeros.
pub open spec fn nat_text(n: nat) -> Seq<char>
    decreases n,
{
    if n < 10 {
        seq![digit_char(n as int)]
    } else {
        nat_text(n / 10).push(digit_char((n % 10) as int))
    }
}

/// A non-negative count of billionths rounded to the nearest cent, a tie
/// going to the even cent.
pub open spec fn round_magnitude(m: nat) -> nat {
    let q = m / 10_000_000;
    let r = m % 10_000_000;
    if r > 5_000_000 || (r == 5_000_000 && q % 2 == 1) {
        q + 1
    } else {
        q
    }
}

/// An amount in billionths rounded to the nearest cent, ties to even; the
/// rounding is symmetric around zero.
pub open spec fn round_cents(x: int) -> int {
    if x < 0 {
        -round_magnitude((-x) as nat)
    } else {
        round_magnitude(x as nat) as int
    }
}

/// A count of cents written with two decimals, a minus sign in front of a
/// negative one: `-14000` reads `"-140.00"`.
pub open spec fn cents_text(c: int) -> Seq<char> {
    let m = if c < 0 {
        -c
    } else {
        c
    };
    let sign = if c < 0 {
        seq!['-']
    } else {
        Seq::<char>::empty()
    };
    sign + unsigned_cents_text(m as nat)
}

/// A non-negative count of cents written with two decimals.
pub open spec fn unsigned_cents_text(m: nat) -> Seq<char> {
    nat_text(m / 100) + seq!['.', digit_char(((m % 100) / 10) as int), digit_char((m % 10) as int)]
}

/// An amount in billionths as it is shown: rounded to cents, two decimals.
pub open spec fn amount_text(x: int) -> Seq<char> {
    cents_text(round_cents(x))
}

/// The one-character text of a decimal digit.
fn digit_str(d: u128) -> (r: &'static str)
    requires
        d < 10,
    ensures
        r@ == seq![digit_char(d as int)],
{
    proof {
        reveal_strlit("0");
        reveal_strlit("1");
        reveal_strlit("2");
        reveal_strlit("3");
        reveal_strlit("4");
        reveal_strlit("5");
        reveal_strlit("6");
        reveal_strlit("7");
        reveal_strlit("8");
        reveal_strlit("9");
    }
    let r = if d == 0 {
        "0"
    } else if d == 1 {
        "1"
    } else if d == 2 {
        "2"
    } else if d == 3 {
        "3"
    } else if d == 4 {
        "4"
    } else if d == 5 {
        "5"
    } else if d == 6 {
        "6"
    } else if d == 7 {
        "7"
    } else if d == 8 {
        "8"
    } else {
        "9"
    };
    assert(r@ =~= seq![digit_char(d as int)]);
    r
}

/// Appends the decimal digits of `n` to `out`.
fn push_digits(out: &mut String, n: u128)
    ensures
        final(out)@ == old(out)@ + nat_text(n as nat),
    decreases n,
{
    if n >= 10 {
        push_digits(out, n / 10);
    }
    out.append(digit_str(n % 10));
    proof {
        if n >= 10 {
            assert(old(out)@ + nat_text((n / 10) as nat) + seq![digit_char((n % 10) as int)]
                =~= old(out)@ + nat_text(n as nat));
        } else {
            assert(n % 10 == n);
        }
    }
}

/// Rounds an amount in billionths to cents, ties to even, and writes it with
/// two decimals: `27_525_000_000_000` reads `"27525.00"`.
pub fn format_amount(x: i128) -> (r: String)
    ensures
        r@ == amount_text(x as int),
{
    let negative = x < 0;
    let magnitude: u128 = if negative {
        (-(x + 1)) as u128 + 1
    } else {
        x as u128
    };
    let q = magnitude / NANOS_PER_CENT;
    let rem = magnitude % NANOS_PER_CENT;
    let cents: u128 = if rem > 5_000_000 || (rem == 5_000_000 && q % 2 == 1) {
        q + 1
    } else {
        q
    };
    assert(cents == round_magnitude(magnitude as nat));
    let mut out = String::new();
    if negative && cents > 0 {
        out.append("-");
    }
    push_digits(&mut out, cents / 100);
    out.append(".");
    out.append(digit_str((cents % 100) / 10));
    out.append(digit_str(cents % 10));
    proof {
        reveal_strlit("-");
        reveal_strlit(".");
        let c = round_cents(x as int);
        if negative {
            assert(c == -(cents as int));
        } else {
            assert(c == cents as int);
        }
        assert(out@ =~= cents_text(c));
    }
    out
}

/// An amount in billionths as a table shows it: `"R$ "`, then the amount
/// rounded to cents with two decimals.
pub fn currency_text(x: i128) -> (r: String)
    ensures
        r@ == seq!['R', '$', ' '] + amount_text(x as int),
{
    let mut out = String::from_str("R$ ");
    let amount = format_amount(x);
    out.append(amount.as_str());
    proof {
        reveal_strlit("R$ ");
        assert(out@ =~= seq!['R', '$', ' '] + amount_text(x as int));
    }
    out
}

/// A rate in millionths as a table shows it, rounded to cents: `5_505_000`
/// reads `"R$ 5.50"`.
pub fn rate_text(rate: u64) -> (r: String)
    ensures
        r@ == seq!['R', '$', ' '] + amount_text(rate * 1000),
{
    currency_text(rate as i128 * 1000)
}

proof fn lemma_digit_char(d: int)
    requires
        0 <= d < 10,
    ensures
        is_digit(digit_char(d)),
        digit_value(digit_char(d)) == d,
{
}

proof fn lemma_nat_text(n: nat)
    ensures
        nat_text(n).len() >= 1,
        all_digits(nat_text(n)),
        digits_value(nat_text(n)) == n,
    decreases n,
{
    if n < 10 {
        lemma_digit_char(n as int);
        assert(nat_text(n).drop_last() =~= Seq::<char>::empty());
        assert(digits_value(Seq::<char>::empty()) == 0);
    } else {
        lemma_nat_text(n / 10);
        lemma_digit_char((n % 10) as int);
        assert(nat_text(n).drop_last() =~= nat_text(n / 10));
        assert(nat_text(n).last() == digit_char((n % 10) as int));
        assert(n == (n / 10) * 10 + n % 10);
        let t = nat_text(n);
        assert forall|i: int| 0 <= i < t.len() implies is_digit(#[trigger] t[i]) by {
            if i < t.len() - 1 {
                assert(t[i] == nat_text(n / 10)[i]);
            }
        }
    }
}

proof fn lemma_unsigned_cents_text(m: nat)
    ensures
        unsigned_cents_text(m).len() >= 1,
        is_digit(unsigned_cents_text(m)[0]),
        decimal_of(unsigned_cents_text(m)) == Some(m * 10_000),
{
    let w = m / 100;
    let t = unsigned_cents_text(m);
    let k = nat_text(w).len() as int;
    let d1 = digit_char(((m % 100) / 10) as int);
    let d2 = digit_char((m % 10) as int);
    lemma_nat_text(w);
    lemma_digit_char(((m % 100) / 10) as int);
    lemma_digit_char((m % 10) as int);
    assert(t[0] == nat_text(w)[0]);
    assert(t.take(k) =~= nat_text(w));
    assert(t.skip(k + 1) =~= seq![d1, d2]);
    assert(seq![d1, d2].drop_last() =~= seq![d1]);
    assert(seq![d1].drop_last() =~= Seq::<char>::empty());
    assert(digits_value(Seq::<char>::empty()) == 0);
    assert(digits_value(seq![d1]) == (m % 100) / 10);
    assert(digits_value(seq![d1, d2]) == (m % 100) / 10 * 10 + m % 10);
    assert(m % 100 == ((m % 100) / 10) * 10 + m % 10);
    assert(m == (m / 100) * 100 + m % 100);
    assert(pow10(4) == 10_000) by {
        reveal_with_fuel(pow10, 5);
    }
    assert(digits_value(t.take(k)) == w);
    assert(digits_value(t.skip(k + 1)) == m % 100);
    assert(decimal_split(t, k));
    crate::decimal::lemma_decimal_of_split(t, k);
    assert(t.len() == k + 3);
    assert((MAX_FRACTION_DIGITS - (t.len() - (k + 1))) as nat == 4);
    assert(split_value(t, k) == w * 1_000_000 + (m % 100) * 10_000);
    assert(split_value(t, k) == m * 10_000);
}

/// Writing an amount with two decimals and reading the text back gives the
/// amount rounded to the cent, which lies at most half a cent from it.
pub proof fn lemma_amount_round_trip(x: i128)
    ensures
        signed_decimal_of(amount_text(x as int)) == Some(round_cents(x as int) * 10_000),
        -5_000_000 <= round_cents(x as int) * 10_000_000 - x <= 5_000_000,
{
    let c = round_cents(x as int);
    let m: nat = if c < 0 {
        (-c) as nat
    } else {
        c as nat
    };
    lemma_unsigned_cents_text(m);
    let t = amount_text(x as int);
    if c < 0 {
        assert(t.skip(1) =~= unsigned_cents_text(m));
    } else {
        assert(t =~= unsigned_cents_text(m));
    }
}

} // verus!
