//! Currency amounts as fixed-point integers, and their text forms.
use vstd::prelude::*;

verus! {

/// Amounts are held in units of one ten-billionth of a dollar: the precision
/// at which the provider publishes its prices.
pub const UNITS_PER_DOLLAR: i128 = 10_000_000_000;

/// The number of decimal places that one unit stands for.
pub const AMOUNT_DECIMALS: u32 = 10;

/// The largest magnitude, in units, that the decimal type used for display
/// can represent (2^96 - 1).
pub const MAX_AMOUNT: i128 = 79_228_162_514_264_337_593_543_950_335;

/// The most digits accepted before the decimal point of an amount.
pub const MAX_WHOLE_DIGITS: usize = 18;

pub open spec fn is_digit(c: char) -> bool {
    '0' <= c && c <= '9'
}

pub open spec fn all_digits(s: Seq<char>) -> bool {
    forall|i: int| 0 <= i < s.len() ==> is_digit(#[trigger] s[i])
}

pub open spec fn digit_value(c: char) -> nat {
    (c as int - '0' as int) as nat
}

/// The number that a string of decimal digits denotes.
pub open spec fn digits_value(s: Seq<char>) -> nat
    decreases s.len(),
{
    if s.len() == 0 {
        0
    } else {
        digits_value(s.drop_last()) * 10 + digit_value(s.last())
    }
}

pub open spec fn pow10(n: nat) -> nat
    decreases n,
{
    if n == 0 {
        1
    } else {
        10 * pow10((n - 1) as nat)
    }
}

/// The part of an amount before the decimal point: one to eighteen digits.
pub open spec fn valid_whole(s: Seq<char>) -> bool {
    1 <= s.len() <= MAX_WHOLE_DIGITS && all_digits(s)
}

/// The part of an amount after the decimal point: one to ten digits.
pub open spec fn valid_fraction(s: Seq<char>) -> bool {
    1 <= s.len() <= AMOUNT_DECIMALS && all_digits(s)
}

/// `s` is a whole part, a point at `p`, and a fraction.
pub open spec fn point_at(s: Seq<char>, p: int) -> bool {
    0 <= p < s.len() && s[p] == '.' && valid_whole(s.take(p)) && valid_fraction(s.skip(p + 1))
}

/// The amount, in units, that a plain decimal text denotes: digits,
/// optionally followed by a point and up to ten more digits.
pub open spec fn amount_of_text(s: Seq<char>) -> Option<int> {
    if valid_whole(s) {
        Some(digits_value(s) * UNITS_PER_DOLLAR)
    } else if exists|p: int| point_at(s, p) {
        let p = choose|p: int| point_at(s, p);
        let frac = s.skip(p + 1);
        Some(
            digits_value(s.take(p)) * UNITS_PER_DOLLAR + digits_value(frac) * pow10(
                (AMOUNT_DECIMALS - frac.len()) as nat,
            ),
        )
    } else {
        None
    }
}

proof fn lemma_digits_bound(s: Seq<char>)
    requires
        all_digits(s),
    ensures
        digits_value(s) < pow10(s.len()),
    decreases s.len(),
{
    if s.len() > 0 {
        let init = s.drop_last();
        assert(all_digits(init)) by {
            assert forall|i: int| 0 <= i < init.len() implies is_digit(#[trigger] init[i]) by {
                assert(init[i] == s[i]);
            }
        }
        lemma_digits_bound(init);
        assert(is_digit(s[s.len() - 1]));
    }
}

/// The value of the digits of `s` between `from` and `to`, if they are all digits.
fn digits_in(s: &str, from: usize, to: usize) -> (r: Option<u64>)
    requires
        from <= to <= s@.len(),
        to - from <= MAX_WHOLE_DIGITS,
    ensures
        all_digits(s@.subrange(from as int, to as int)) <==> r is Some,
        r matches Some(v) ==> v as nat == digits_value(s@.subrange(from as int, to as int)) && v
            < pow10((to - from) as nat),
{
    let mut acc: u64 = 0;
    let mut i = from;
    while i < to
        invariant
            from <= i <= to <= s@.len(),
            to - from <= MAX_WHOLE_DIGITS,
            all_digits(s@.subrange(from as int, i as int)),
            acc == digits_value(s@.subrange(from as int, i as int)),
            acc < pow10((i - from) as nat),
        decreases to - i,
    {
        let c = s.get_char(i);
        if c < '0' || c > '9' {
            assert(!is_digit(s@.subrange(from as int, to as int)[i - from]));
            return None;
        }
        let ghost prev = s@.subrange(from as int, i as int);
        let ghost next = s@.subrange(from as int, i + 1);
        assert(next.drop_last() =~= prev);
        assert(next.last() == c);
        assert(pow10((i - from) as nat) <= 100_000_000_000_000_000) by {
            lemma_pow10_mono((i - from) as nat, 17);
            reveal_with_fuel(pow10, 18);
        }
        let d: u64 = (c as u32 - '0' as u32) as u64;
        acc = acc * 10 + d;
        i = i + 1;
        assert(all_digits(next)) by {
            assert forall|j: int| 0 <= j < next.len() implies is_digit(#[trigger] next[j]) by {
                if j < prev.len() {
                    assert(next[j] == prev[j]);
                }
            }
        }
    }
    Some(acc)
}

proof fn lemma_pow10_mono(a: nat, b: nat)
    requires
        a <= b,
    ensures
        pow10(a) <= pow10(b),
    decreases b,
{
    if a < b {
        lemma_pow10_mono(a, (b - 1) as nat);
    }
}

/// Parses a plain decimal amount of dollars (such as `0.0960000000` or
/// `12`) into units. Signs, exponents, more than eighteen digits before the
/// point and more than ten after it are refused.
pub fn parse_amount(s: &str) -> (r: Option<i128>)
    ensures
        r matches Some(v) ==> amount_of_text(s@) == Some(v as int),
        r is None ==> amount_of_text(s@) is None,
{
    let n = s.unicode_len();
    let mut p: usize = 0;
    while p < n && s.get_char(p) != '.'
        invariant
            p <= n == s@.len(),
            forall|j: int| 0 <= j < p ==> s@[j] != '.',
        decreases n - p,
    {
        p = p + 1;
    }
    if p == n {
        // No point: the whole text is the part before it.
        proof {
            assert(s@.subrange(0, n as int) =~= s@);
            assert forall|q: int| !point_at(s@, q) by {}
        }
        if n < 1 || n > MAX_WHOLE_DIGITS {
            return None;
        }
        match digits_in(s, 0, n) {
            Some(v) => {
                proof {
                    lemma_pow10_mono(n as nat, 18);
                    reveal_with_fuel(pow10, 19);
                }
                Some(v as i128 * UNITS_PER_DOLLAR)
            },
            None => None,
        }
    } else {
        let ghost whole_text = s@.take(p as int);
        let ghost frac_text = s@.skip(p + 1);
        proof {
            assert(!all_digits(s@)) by {
                assert(!is_digit(s@[p as int]));
            }
            assert(s@.subrange(0, p as int) =~= whole_text);
            assert(s@.subrange(p + 1, n as int) =~= frac_text);
            assert forall|q: int| point_at(s@, q) implies q == p by {
                if q < p {
                } else if q > p {
                    assert(!is_digit(s@.take(q)[p as int]));
                }
            }
        }
        if p < 1 || p > MAX_WHOLE_DIGITS || n - p - 1 < 1 || n - p - 1 > AMOUNT_DECIMALS as usize {
            proof {
                assert(!point_at(s@, p as int));
            }
            return None;
        }
        let whole = match digits_in(s, 0, p) {
            Some(v) => v,
            None => {
                return None;
            },
        };
        let frac = match digits_in(s, p + 1, n) {
            Some(v) => v,
            None => {
                return None;
            },
        };
        proof {
            assert(point_at(s@, p as int));
            lemma_pow10_mono(p as nat, 18);
            lemma_pow10_mono((n - p - 1) as nat, 10);
            reveal_with_fuel(pow10, 19);
        }
        // Scale the fraction up to ten decimal places.
        let mut scaled: u64 = frac;
        let mut k: usize = n - p - 1;
        while k < AMOUNT_DECIMALS as usize
            invariant
                n - p - 1 <= k <= AMOUNT_DECIMALS,
                frac == digits_value(frac_text),
                frac_text.len() == n - p - 1,
                scaled == digits_value(frac_text) * pow10((k - (n - p - 1)) as nat),
                scaled < pow10(k as nat),
            decreases AMOUNT_DECIMALS - k,
        {
            proof {
                lemma_pow10_mono(k as nat, 9);
                reveal_with_fuel(pow10, 11);
                assert(pow10((k + 1 - (n - p - 1)) as nat) == 10 * pow10((k - (n - p - 1)) as nat));
                assert(digits_value(frac_text) * (10 * pow10((k - (n - p - 1)) as nat))
                    == 10 * (digits_value(frac_text) * pow10((k - (n - p - 1)) as nat))) by (nonlinear_arith);
            }
            scaled = scaled * 10;
            k = k + 1;
        }
        proof {
            reveal_with_fuel(pow10, 11);
        }
        Some(whole as i128 * UNITS_PER_DOLLAR + scaled as i128)
    }
}

/// Every amount that a text denotes is one the report can show.
pub proof fn lemma_amount_range(s: Seq<char>)
    ensures
        amount_of_text(s) matches Some(v) ==> 0 <= v <= MAX_AMOUNT,
{
    if valid_whole(s) {
        lemma_digits_bound(s);
        lemma_pow10_mono(s.len(), 18);
        reveal_with_fuel(pow10, 19);
    } else if exists|p: int| point_at(s, p) {
        let p = choose|p: int| point_at(s, p);
        let frac = s.skip(p + 1);
        lemma_digits_bound(s.take(p));
        lemma_digits_bound(frac);
        lemma_pow10_mono(p as nat, 18);
        lemma_pow10_mono((AMOUNT_DECIMALS - frac.len()) as nat, 10);
        lemma_pow10_mono(frac.len(), 10);
        reveal_with_fuel(pow10, 19);
        assert(digits_value(frac) * pow10((AMOUNT_DECIMALS - frac.len()) as nat) <= 10_000_000_000 * 10_000_000_000) by (nonlinear_arith)
            requires digits_value(frac) < 10_000_000_000, pow10((AMOUNT_DECIMALS - frac.len()) as nat) <= 10_000_000_000;
    }
}

/// The text of an amount as US dollars, rounded to cents with midpoints
/// away from zero, with a dollar sign and thousands separators.
pub uninterp spec fn usd_text(units: int) -> Seq<char>;

/// Relies on rust_decimal's `Decimal::from_i128_with_scale` to build the
/// decimal (it panics beyond 2^96 - 1 in magnitude), on rusty_money's
/// `Money::round` with `Round::HalfUp`, and on its `Display` for USD.
#[verifier::external_body]
pub(crate) fn format_money(units: i128) -> (r: String)
    requires
        -MAX_AMOUNT <= units <= MAX_AMOUNT,
    ensures
        r@ == usd_text(units as int),
{
    let amount = rust_decimal::Decimal::from_i128_with_scale(units, AMOUNT_DECIMALS);
    let money = rusty_money::Money::from_decimal(amount, rusty_money::iso::USD);
    money.round(2, rusty_money::Round::HalfUp).to_string()
}

} // verus!
