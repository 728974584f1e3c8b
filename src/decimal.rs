//! Exact decimal numbers: the value of a rate as written by a provider,
//! `digits / 10^scale` with a sign, and its two-place rendering.
use vstd::prelude::*;

verus! {

/// Most fractional digits that a parsed number may carry.
pub const MAX_SCALE: u32 = 18;

/// Satoshis in one bitcoin.
pub const SATS_PER_BTC: u64 = 100_000_000;

/// Fractional digits kept by a computed satoshi rate.
pub const SATS_SCALE: u32 = 8;

pub open spec fn pow10(n: nat) -> nat
    decreases n,
{
    if n == 0 {
        1
    } else {
        10 * pow10((n - 1) as nat)
    }
}

/// A decimal number `(-1)^negative * digits / 10^scale`.
#[derive(Clone, Copy, Debug, PartialEq, Eq, Structural)]
pub struct Decimal {
    pub negative: bool,
    pub digits: u64,
    pub scale: u32,
}

pub open spec fn is_digit(c: char) -> bool {
    '0' <= c && c <= '9'
}

pub open spec fn digit_value(c: char) -> nat {
    (c as u32 - '0' as u32) as nat
}

pub open spec fn all_digits(s: Seq<char>) -> bool {
    forall|i: int| 0 <= i < s.len() ==> is_digit(#[trigger] s[i])
}

/// The number that a run of decimal digits denotes.
pub open spec fn digits_value(s: Seq<char>) -> nat
    decreases s.len(),
{
    if s.len() == 0 {
        0
    } else {
        digits_value(s.drop_last()) * 10 + digit_value(s.last())
    }
}

/// Length of the leading sign, if any.
pub open spec fn sign_len(s: Seq<char>) -> int {
    if s.len() > 0 && (s[0] == '-' || s[0] == '+') {
        1
    } else {
        0
    }
}

pub open spec fn unsigned_part(s: Seq<char>) -> Seq<char> {
    s.subrange(sign_len(s), s.len() as int)
}

/// Index of the first `.` in `b`, or its length when there is none.
pub open spec fn dot_index(b: Seq<char>) -> int
    decreases b.len(),
{
    if b.len() == 0 {
        0
    } else if b[0] == '.' {
        0
    } else {
        1 + dot_index(b.drop_first())
    }
}

pub open spec fn int_digits(s: Seq<char>) -> Seq<char> {
    unsigned_part(s).subrange(0, dot_index(unsigned_part(s)))
}

pub open spec fn frac_digits(s: Seq<char>) -> Seq<char> {
    let u = unsigned_part(s);
    if dot_index(u) < u.len() {
        u.subrange(dot_index(u) + 1, u.len() as int)
    } else {
        Seq::empty()
    }
}

/// `s` is an optional sign, digits, and at most one `.` among them, with at
/// least one digit.
pub open spec fn is_number(s: Seq<char>) -> bool {
    &&& all_digits(int_digits(s))
    &&& all_digits(frac_digits(s))
    &&& int_digits(s).len() + frac_digits(s).len() > 0
}

/// The decimal that the text `s` denotes, when it is a number whose digits fit
/// in 64 bits and which has at most `MAX_SCALE` fractional digits.
pub open spec fn parsed(s: Seq<char>) -> Option<Decimal> {
    let all = int_digits(s) + frac_digits(s);
    if is_number(s) && digits_value(all) <= u64::MAX && frac_digits(s).len() <= MAX_SCALE {
        Some(
            Decimal {
                negative: sign_len(s) == 1 && s[0] == '-',
                digits: digits_value(all) as u64,
                scale: frac_digits(s).len() as u32,
            },
        )
    } else {
        None
    }
}

/// `q` rounded up when the remainder `r` is over half of the divisor, or is
/// exactly half and `q` is odd: rounding to nearest, ties to even.
pub open spec fn round_half_even(q: nat, r: nat, half: nat) -> nat {
    if r > half || (r == half && q % 2 == 1) {
        q + 1
    } else {
        q
    }
}

/// The magnitude of `d` rounded to hundredths, to nearest with ties to
/// even, as `%.2f` rounds.
pub open spec fn hundredths(d: Decimal) -> nat {
    if d.scale <= 2 {
        d.digits as nat * pow10((2 - d.scale) as nat)
    } else {
        let p = pow10((d.scale - 2) as nat);
        round_half_even(d.digits as nat / p, d.digits as nat % p, 5 * pow10((d.scale - 3) as nat))
    }
}

pub open spec fn digit_char(n: nat) -> char {
    if n == 0 {
        '0'
    } else if n == 1 {
        '1'
    } else if n == 2 {
        '2'
    } else if n == 3 {
        '3'
    } else if n == 4 {
        '4'
    } else if n == 5 {
        '5'
    } else if n == 6 {
        '6'
    } else if n == 7 {
        '7'
    } else if n == 8 {
        '8'
    } else {
        '9'
    }
}

/// Decimal digits of `n`, most significant first, without leading zeros.
pub open spec fn decimal_digits(n: nat) -> Seq<char>
    decreases n,
{
    if n < 10 {
        seq![digit_char(n)]
    } else {
        decimal_digits(n / 10).push(digit_char(n % 10))
    }
}

/// `d` written with exactly two fractional digits, like `103.50` or `-0.25`.
pub open spec fn two_places(d: Decimal) -> Seq<char> {
    let h = hundredths(d);
    let sign = if d.negative {
        seq!['-']
    } else {
        Seq::<char>::empty()
    };
    sign + decimal_digits(h / 100) + seq!['.', digit_char((h % 100) / 10), digit_char(h % 10)]
}

/// Satoshis per unit of a currency, given a bitcoin's price in it, rounded
/// half up to `SATS_SCALE` places; none for a zero price or a result beyond 64
/// bits of digits.
pub open spec fn sats_per_unit(price: Decimal) -> Option<Decimal> {
    if price.digits == 0 {
        None
    } else {
        let n = SATS_PER_BTC as nat * pow10((SATS_SCALE + price.scale) as nat);
        let q = (2 * n + price.digits as nat) / (2 * price.digits as nat);
        if q <= u64::MAX {
            Some(Decimal { negative: price.negative, digits: q as u64, scale: SATS_SCALE })
        } else {
            None
        }
    }
}

impl Decimal {
    /// Within the scale that parsing produces.
    pub open spec fn wf(self) -> bool {
        self.scale <= MAX_SCALE
    }

    /// Zero, the value shown for a symbol that has no quote.
    pub fn zero() -> (r: Decimal)
        ensures
            r == (Decimal { negative: false, digits: 0, scale: 0 }),
            r.wf(),
    {
        Decimal { negative: false, digits: 0, scale: 0 }
    }
}

proof fn lemma_pow10_monotone(a: nat, b: nat)
    requires
        a <= b,
    ensures
        1 <= pow10(a) <= pow10(b),
    decreases b,
{
    if a < b {
        lemma_pow10_monotone(a, (b - 1) as nat);
    } else if a > 0 {
        lemma_pow10_monotone((a - 1) as nat, (a - 1) as nat);
    }
}

/// `10^n` for the exponents that the arithmetic here needs.
fn pow10_exec(n: u32) -> (r: u128)
    requires
        n <= 30,
    ensures
        r == pow10(n as nat),
{
    proof {
        reveal_with_fuel(pow10, 31);
    }
    let mut r: u128 = 1;
    let mut i: u32 = 0;
    while i < n
        invariant
            i <= n <= 30,
            r == pow10(i as nat),
        decreases n - i,
    {
        proof {
            reveal_with_fuel(pow10, 31);
            assert(pow10(29) == 100000000000000000000000000000nat);
            lemma_pow10_monotone(i as nat, 29);
        }
        r = r * 10;
        i = i + 1;
    }
    r
}

proof fn lemma_dot_index(b: Seq<char>)
    ensures
        0 <= dot_index(b) <= b.len(),
        dot_index(b) < b.len() ==> b[dot_index(b)] == '.',
        forall|i: int| 0 <= i < dot_index(b) ==> b[i] != '.',
    decreases b.len(),
{
    if b.len() > 0 && b[0] != '.' {
        lemma_dot_index(b.drop_first());
        assert forall|i: int| 0 <= i < dot_index(b) implies b[i] != '.' by {
            if i > 0 {
                assert(b[i] == b.drop_first()[i - 1]);
            }
        }
    }
}

proof fn lemma_digits_value_push(s: Seq<char>, c: char)
    ensures
        digits_value(s.push(c)) == digits_value(s) * 10 + digit_value(c),
{
    assert(s.push(c).drop_last() =~= s);
}

proof fn lemma_digits_value_append(a: Seq<char>, b: Seq<char>)
    requires
        all_digits(b),
    ensures
        digits_value(a + b) >= digits_value(a),
    decreases b.len(),
{
    if b.len() == 0 {
        assert(a + b =~= a);
    } else {
        assert((a + b).drop_last() =~= a + b.drop_last());
        assert((a + b).last() == b.last());
        lemma_digits_value_append(a, b.drop_last());
    }
}

/// Reads a number such as `-103456.78`, `5.` or `.25`: an optional sign, then
/// digits with at most one `.` among them and at least one digit.
pub fn parse_decimal_chars(s: &Vec<char>) -> (r: Option<Decimal>)
    ensures
        r == parsed(s@),
        r matches Some(d) ==> d.wf(),
{
    let n = s.len();
    let start: usize = if n > 0 && (s[0] == '-' || s[0] == '+') {
        1
    } else {
        0
    };
    let ghost u = s@.subrange(start as int, n as int);
    assert(u == unsigned_part(s@));
    proof {
        lemma_dot_index(u);
    }
    let mut i: usize = start;
    let mut seen_dot = false;
    let mut dot_at: usize = 0;
    let mut acc: u64 = 0;
    let mut frac: usize = 0;
    let mut count: usize = 0;
    while i < n
        invariant
            start <= i <= n == s@.len(),
            u == s@.subrange(start as int, n as int),
            u == unsigned_part(s@),
            0 <= dot_index(u) <= u.len(),
            dot_index(u) < u.len() ==> u[dot_index(u)] == '.',
            forall|k: int| 0 <= k < dot_index(u) ==> u[k] != '.',
            !seen_dot ==> {
                &&& forall|k: int| 0 <= k < i - start ==> u[k] != '.'
                &&& all_digits(u.subrange(0, i - start))
                &&& acc == digits_value(u.subrange(0, i - start))
                &&& frac == 0
                &&& count == i - start
            },
            seen_dot ==> {
                &&& dot_at - start == dot_index(u)
                &&& dot_at < i
                &&& all_digits(u.subrange(0, dot_at - start))
                &&& all_digits(u.subrange(dot_at - start + 1, i - start))
                &&& acc == digits_value(
                    u.subrange(0, dot_at - start) + u.subrange(dot_at - start + 1, i - start),
                )
                &&& frac == i - dot_at - 1
                &&& count == i - start - 1
            },
        decreases n - i,
    {
        let c = s[i];
        let ghost j = i - start;
        assert(u[j] == c);
        if c == '.' {
            if seen_dot {
                assert(frac_digits(s@)[j - (dot_at - start) - 1] == c);
                return None;
            }
            seen_dot = true;
            dot_at = i;
            assert(u.subrange(0, j) + u.subrange(j + 1, j + 1) =~= u.subrange(0, j));
        } else if '0' <= c && c <= '9' {
            let d = (c as u32 - '0' as u32) as u64;
            let next: u128 = acc as u128 * 10 + d as u128;
            let ghost prefix = if seen_dot {
                u.subrange(0, dot_at - start) + u.subrange(dot_at - start + 1, j)
            } else {
                u.subrange(0, j)
            };
            let ghost prefix2 = if seen_dot {
                u.subrange(0, dot_at - start) + u.subrange(dot_at - start + 1, j + 1)
            } else {
                u.subrange(0, j + 1)
            };
            assert(prefix2 =~= prefix.push(c));
            proof {
                lemma_digits_value_push(prefix, c);
            }
            if next > u64::MAX as u128 {
                proof {
                    if is_number(s@) {
                        let all = int_digits(s@) + frac_digits(s@);
                        let rest = if seen_dot {
                            u.subrange(j + 1, u.len() as int)
                        } else {
                            u.subrange(j + 1, dot_index(u)) + frac_digits(s@)
                        };
                        assert(all =~= prefix2 + rest);
                        assert forall|k: int| 0 <= k < rest.len() implies is_digit(
                            #[trigger] rest[k],
                        ) by {
                            if seen_dot {
                                assert(rest[k] == frac_digits(s@)[j + 1 + k - (dot_at - start)
                                    - 1]);
                            } else if k < dot_index(u) - j - 1 {
                                assert(rest[k] == int_digits(s@)[j + 1 + k]);
                            } else {
                                assert(rest[k] == frac_digits(s@)[k - (dot_index(u) - j - 1)]);
                            }
                        }
                        lemma_digits_value_append(prefix2, rest);
                    }
                }
                return None;
            }
            acc = next as u64;
            if seen_dot {
                frac = frac + 1;
            }
            count = count + 1;
        } else {
            proof {
                if seen_dot {
                    assert(frac_digits(s@)[j - (dot_at - start) - 1] == c);
                } else {
                    assert(int_digits(s@)[j] == c);
                }
            }
            return None;
        }
        i = i + 1;
    }
    proof {
        if seen_dot {
            assert(int_digits(s@) =~= u.subrange(0, dot_at - start));
            assert(frac_digits(s@) =~= u.subrange(dot_at - start + 1, n - start));
        } else {
            assert(u.subrange(0, n - start) =~= u);
            assert(int_digits(s@) =~= u);
            assert(frac_digits(s@) =~= Seq::<char>::empty());
            assert(int_digits(s@) + frac_digits(s@) =~= u);
        }
    }
    if count == 0 || frac > MAX_SCALE as usize {
        return None;
    }
    Some(Decimal { negative: start == 1 && s[0] == '-', digits: acc, scale: frac as u32 })
}

fn digit_to_char(n: u128) -> (c: char)
    requires
        n < 10,
    ensures
        c == digit_char(n as nat),
{
    if n == 0 {
        '0'
    } else if n == 1 {
        '1'
    } else if n == 2 {
        '2'
    } else if n == 3 {
        '3'
    } else if n == 4 {
        '4'
    } else if n == 5 {
        '5'
    } else if n == 6 {
        '6'
    } else if n == 7 {
        '7'
    } else if n == 8 {
        '8'
    } else {
        '9'
    }
}

/// Appends the decimal digits of `n`.
fn push_digits(n: u128, out: &mut Vec<char>)
    ensures
        final(out)@ == old(out)@ + decimal_digits(n as nat),
    decreases n,
{
    if n >= 10 {
        push_digits(n / 10, out);
    }
    out.push(digit_to_char(n % 10));
    proof {
        if n < 10 {
            assert(n % 10 == n);
        }
        assert(final(out)@ =~= old(out)@ + decimal_digits(n as nat));
    }
}

/// The characters of `d` with exactly two fractional digits, rounded to
/// nearest with ties to even (`103.5` gives `103.50`, `0.125` gives `0.12`,
/// `0.135` gives `0.14`).
pub fn two_places_chars(d: Decimal) -> (r: Vec<char>)
    ensures
        r@ == two_places(d),
{
    let h: u128 = if d.scale <= 2 {
        let p = pow10_exec(2 - d.scale);
        proof {
            lemma_pow10_monotone((2 - d.scale) as nat, 2);
            reveal_with_fuel(pow10, 3);
            assert(d.digits as nat * p <= u64::MAX as nat * 100) by (nonlinear_arith)
                requires
                    p <= 100,
            ;
        }
        d.digits as u128 * p
    } else if d.scale <= 22 {
        let p3 = pow10_exec(d.scale - 3);
        let p = pow10_exec(d.scale - 2);
        proof {
            lemma_pow10_monotone((d.scale - 3) as nat, 19);
            reveal_with_fuel(pow10, 20);
        }
        let half = 5 * p3;
        let q = d.digits as u128 / p;
        let r = d.digits as u128 % p;
        if r > half || (r == half && q % 2 == 1) {
            q + 1
        } else {
            q
        }
    } else {
        proof {
            let p3 = pow10((d.scale - 3) as nat);
            let x = d.digits as nat;
            lemma_pow10_monotone(20, (d.scale - 3) as nat);
            reveal_with_fuel(pow10, 21);
            assert(pow10((d.scale - 2) as nat) == 10 * p3);
            assert(x / (10 * p3) == 0 && x % (10 * p3) == x) by (nonlinear_arith)
                requires
                    x < p3,
            ;
        }
        0
    };
    let mut out: Vec<char> = Vec::new();
    if d.negative {
        out.push('-');
    }
    push_digits(h / 100, &mut out);
    out.push('.');
    out.push(digit_to_char((h % 100) / 10));
    out.push(digit_to_char(h % 10));
    assert(out@ =~= two_places(d));
    out
}

/// Satoshis per unit of a currency in which one bitcoin costs `price`.
pub fn satoshis_per_unit(price: Decimal) -> (r: Option<Decimal>)
    requires
        price.wf(),
    ensures
        r == sats_per_unit(price),
        r matches Some(q) ==> q.wf(),
{
    if price.digits == 0 {
        return None;
    }
    let p = pow10_exec(SATS_SCALE + price.scale);
    proof {
        lemma_pow10_monotone((SATS_SCALE + price.scale) as nat, 26);
        reveal_with_fuel(pow10, 27);
    }
    let n: u128 = SATS_PER_BTC as u128 * p;
    let q: u128 = (2 * n + price.digits as u128) / (2 * price.digits as u128);
    if q > u64::MAX as u128 {
        None
    } else {
        Some(Decimal { negative: price.negative, digits: q as u64, scale: SATS_SCALE })
    }
}

} // verus!
