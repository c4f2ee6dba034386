use vstd::prelude::*;
use vstd::string::*;

verus! {

/// Most digits a [`Decimal`] carries.
pub const MAX_DIGITS: usize = 18;

pub open spec fn pow10(n: nat) -> nat
    decreases n,
{
    if n == 0 {
        1
    } else {
        10 * pow10((n - 1) as nat)
    }
}

pub open spec fn is_digit(c: char) -> bool {
    '0' <= c && c <= '9'
}

pub open spec fn digit_value(c: char) -> int {
    c as int - '0' as int
}

/// The digits of `s`, read as one decimal number; other characters are passed over.
pub open spec fn digits_value(s: Seq<char>) -> int
    decreases s.len(),
{
    if s.len() == 0 {
        0
    } else if is_digit(s.last()) {
        digits_value(s.drop_last()) * 10 + digit_value(s.last())
    } else {
        digits_value(s.drop_last())
    }
}

pub open spec fn digit_count(s: Seq<char>) -> nat
    decreases s.len(),
{
    if s.len() == 0 {
        0
    } else {
        digit_count(s.drop_last()) + if is_digit(s.last()) { 1nat } else { 0nat }
    }
}

pub open spec fn point_count(s: Seq<char>) -> nat
    decreases s.len(),
{
    if s.len() == 0 {
        0
    } else {
        point_count(s.drop_last()) + if s.last() == '.' { 1nat } else { 0nat }
    }
}

/// Digits that stand after a decimal point.
pub open spec fn fraction_count(s: Seq<char>) -> nat
    decreases s.len(),
{
    if s.len() == 0 {
        0
    } else {
        fraction_count(s.drop_last()) + if is_digit(s.last()) && point_count(s.drop_last()) > 0 {
            1nat
        } else {
            0nat
        }
    }
}

/// Every character is a digit or a point.
pub open spec fn all_numeric(s: Seq<char>) -> bool
    decreases s.len(),
{
    s.len() == 0 || (all_numeric(s.drop_last()) && (is_digit(s.last()) || s.last() == '.'))
}

pub open spec fn has_sign(s: Seq<char>) -> bool {
    s.len() > 0 && (s[0] == '-' || s[0] == '+')
}

/// The text after an optional leading sign.
pub open spec fn unsigned_part(s: Seq<char>) -> Seq<char> {
    if has_sign(s) {
        s.drop_first()
    } else {
        s
    }
}

/// A signed decimal number: `mantissa / 10^frac_digits`.
#[derive(Copy, Clone, Debug, PartialEq, Eq, Structural)]
pub struct Decimal {
    pub mantissa: i64,
    pub frac_digits: u32,
}

/// What a decimal literal denotes: an optional sign, then digits with at most one
/// point among them, at least one digit and at most `MAX_DIGITS`. Anything else
/// is not a number: this is narrower than what a float parser reads, so an
/// exponent (`1e2`), `inf`, `NaN` or a literal of more than `MAX_DIGITS` digits
/// is no number here.
pub open spec fn decimal_of(s: Seq<char>) -> Option<Decimal> {
    let body = unsigned_part(s);
    if all_numeric(body) && point_count(body) <= 1 && 1 <= digit_count(body) <= MAX_DIGITS {
        let v = digits_value(body);
        Some(
            Decimal {
                mantissa: (if s.len() > 0 && s[0] == '-' { -v } else { v }) as i64,
                frac_digits: fraction_count(body) as u32,
            },
        )
    } else {
        None
    }
}

impl Decimal {
    pub open spec fn wf(&self) -> bool {
        self.frac_digits <= MAX_DIGITS
    }

    pub fn new(mantissa: i64, frac_digits: u32) -> (r: Decimal)
        requires
            frac_digits <= MAX_DIGITS,
        ensures
            r == (Decimal { mantissa, frac_digits }),
            r.wf(),
    {
        Decimal { mantissa, frac_digits }
    }

    /// The number one.
    pub fn one() -> (r: Decimal)
        ensures
            r == (Decimal { mantissa: 1, frac_digits: 0 }),
            r.wf(),
    {
        Decimal { mantissa: 1, frac_digits: 0 }
    }
}

pub proof fn lemma_pow10_monotone(a: nat, b: nat)
    requires
        a <= b,
    ensures
        pow10(a) <= pow10(b),
    decreases b - a,
{
    if a < b {
        lemma_pow10_monotone(a, (b - 1) as nat);
    }
}

proof fn lemma_fraction_at_most_digits(s: Seq<char>)
    ensures
        fraction_count(s) <= digit_count(s),
    decreases s.len(),
{
    if s.len() > 0 {
        lemma_fraction_at_most_digits(s.drop_last());
    }
}

/// Reads a decimal literal (see [`decimal_of`]).
pub fn parse_decimal(s: &str) -> (r: Option<Decimal>)
    ensures
        r == decimal_of(s@),
        r matches Some(d) ==> d.wf(),
{
    let len = s.unicode_len();
    let mut start: usize = 0;
    let mut negative = false;
    if len > 0 {
        let c = s.get_char(0);
        if c == '-' || c == '+' {
            start = 1;
            negative = c == '-';
        }
    }
    let ghost body = unsigned_part(s@);
    assert(body =~= s@.subrange(start as int, len as int));
    let mut acc: u64 = 0;
    let mut digits: usize = 0;
    let mut points: usize = 0;
    let mut fraction: usize = 0;
    let mut numeric = true;
    let mut i: usize = start;
    while i < len
        invariant
            start <= i <= len,
            len == s@.len(),
            body =~= s@.subrange(start as int, len as int),
            digits == digit_count(s@.subrange(start as int, i as int)),
            points == point_count(s@.subrange(start as int, i as int)),
            fraction == fraction_count(s@.subrange(start as int, i as int)),
            numeric == all_numeric(s@.subrange(start as int, i as int)),
            digits <= i,
            points <= i,
            fraction <= i,
            digits <= MAX_DIGITS ==> acc == digits_value(s@.subrange(start as int, i as int))
                && acc < pow10(digits as nat),
        decreases len - i,
    {
        let ghost pre = s@.subrange(start as int, i as int);
        let c = s.get_char(i);
        let ghost next = s@.subrange(start as int, i + 1);
        assert(next.drop_last() =~= pre);
        assert(next.last() == c);
        if '0' <= c && c <= '9' {
            if digits < MAX_DIGITS {
                proof {
                    lemma_pow10_monotone(digits as nat + 1, MAX_DIGITS as nat);
                    reveal_with_fuel(pow10, 19);
                }
                acc = acc * 10 + (c as u64 - '0' as u64);
            }
            if points > 0 {
                fraction = fraction + 1;
            }
            digits = digits + 1;
        } else if c == '.' {
            points = points + 1;
        } else {
            numeric = false;
        }
        i = i + 1;
    }
    assert(s@.subrange(start as int, len as int) =~= body);
    if numeric && points <= 1 && 1 <= digits && digits <= MAX_DIGITS {
        proof {
            lemma_pow10_monotone(digits as nat, MAX_DIGITS as nat);
            reveal_with_fuel(pow10, 19);
            lemma_fraction_at_most_digits(body);
        }
        let v = acc as i64;
        Some(Decimal { mantissa: if negative { -v } else { v }, frac_digits: fraction as u32 })
    } else {
        None
    }
}

} // verus!
