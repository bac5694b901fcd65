//! Exact decimals: a numerator over a power of ten.
//!
//! Folding game data to floating point lets stats differ by tens after rounding, which can flip
//! the outcome of a tactic. Keeping the numerator and the number of decimal places apart lets
//! multiplication go first and division last.
use core::cmp::Ordering;
use vstd::arithmetic::power::{lemma_pow_adds, lemma_pow_positive, lemma_pow_strictly_increases, pow};
use vstd::arithmetic::mul::{lemma_mul_is_commutative, lemma_mul_is_associative, lemma_mul_strictly_positive};
use vstd::prelude::*;
use vstd::std_specs::cmp::{PartialOrdSpec, PartialOrdSpecImpl};

verus! {

/// `10^e` as a mathematical integer.
pub open spec fn pow10(e: nat) -> int {
    pow(10, e)
}

/// Division that rounds toward zero, as Rust's integer `/` does.
pub open spec fn div_toward_zero(a: int, b: int) -> int
    recommends
        b > 0,
{
    if a >= 0 {
        a / b
    } else {
        -((-a) / b)
    }
}

/// A decimal `num / 10^exp` with no trailing zeros in `num`, so that equal values share one
/// representation (`2.50` and `2.5` are the same `Ratio`).
#[derive(Debug, Clone, Copy, PartialEq, Eq, Hash, Structural)]
pub struct Ratio {
    num: i64,
    exp: u8,
}

/// Why a decimal text could not become a [`Ratio`].
#[derive(Debug, Clone, Copy, PartialEq, Eq, Structural)]
pub enum RatioTextError {
    /// More than [`Ratio::MAX_EXP`] digits after the point.
    TooManyDecimals,
    /// The digits are not an `i64`.
    OutOfRange,
}

impl Ratio {
    /// The largest `exp` with `10^exp` inside `i64`.
    pub const MAX_EXP: u8 = 18;

    pub closed spec fn spec_num(self) -> int {
        self.num as int
    }

    pub closed spec fn spec_exp(self) -> nat {
        self.exp as nat
    }

    /// The value as numerator and denominator.
    pub open spec fn den_spec(self) -> int {
        pow10(self.spec_exp())
    }

    /// Canonical form: at most 18 places, and no trailing zero unless there are no places.
    pub open spec fn is_canonical(self) -> bool {
        &&& self.spec_exp() <= 18
        &&& self.spec_num() == self.spec_num() as i64
        &&& (self.spec_exp() == 0 || self.spec_num() % 10 != 0)
    }

    #[verifier::type_invariant]
    spec fn inv(self) -> bool {
        self.is_canonical()
    }

    /// `self` and `other` are the same number.
    pub open spec fn same_value(self, other: Ratio) -> bool {
        self.spec_num() * other.den_spec() == other.spec_num() * self.den_spec()
    }

    /// `self` is below `other` as numbers.
    pub open spec fn below(self, other: Ratio) -> bool {
        self.spec_num() * other.den_spec() < other.spec_num() * self.den_spec()
    }

    /// `self` is not above `other` as numbers.
    pub open spec fn at_most(self, other: Ratio) -> bool {
        self.below(other) || self.same_value(other)
    }

    /// Trailing zeros are stripped off `num`. An `exp` above [`Ratio::MAX_EXP`] is first
    /// lowered to it.
    pub fn new(num: i64, exp: u8) -> (r: Self)
        ensures
            r.is_canonical(),
            r.spec_exp() <= min_exp(exp),
            r.spec_num() * pow10((min_exp(exp) - r.spec_exp()) as nat) == num,
    {
        let mut num = num;
        let mut exp = if exp < Self::MAX_EXP {
            exp
        } else {
            Self::MAX_EXP
        };
        let ghost num0 = num as int;
        let ghost exp0 = exp as nat;
        proof {
            reveal(pow);
            assert(pow10(0) == 1);
        }
        while exp > 0 && num % 10 == 0
            invariant
                exp <= exp0,
                exp0 <= 18,
                num * pow10((exp0 - exp) as nat) == num0,
            decreases exp,
        {
            let ghost k = (exp0 - exp) as nat;
            proof {
                lemma_pow10_succ(k);
                assert(num == (num / 10) * 10);
                assert(num * pow10(k) == (num / 10) * (10 * pow10(k))) by (nonlinear_arith)
                    requires
                        num == (num / 10) * 10,
                ;
            }
            num = num / 10;
            exp = exp - 1;
        }
        Ratio { num, exp }
    }

    pub fn num(self) -> (r: i64)
        ensures
            r == self.spec_num(),
    {
        self.num
    }

    /// `10^exp`.
    pub fn den(self) -> (r: i64)
        ensures
            r == self.den_spec(),
            0 < r <= 1_000_000_000_000_000_000,
    {
        proof {
            use_type_invariant(&self);
        }
        let mut d: i64 = 1;
        let mut i: u8 = 0;
        proof {
            reveal(pow);
            assert(pow10(0) == 1);
        }
        while i < self.exp
            invariant
                i <= self.exp,
                self.exp <= 18,
                d == pow10(i as nat),
            decreases self.exp - i,
        {
            proof {
                lemma_pow10_succ(i as nat);
                lemma_pow10_bound((i + 1) as nat);
            }
            d = d * 10;
            i = i + 1;
        }
        proof {
            lemma_pow10_bound(self.exp as nat);
        }
        d
    }

    /// `value * self` as an integer. Multiplies first so nothing is rounded in between, then
    /// divides toward zero. The product goes through `i128`, and the quotient is cut to `i64`
    /// as `as` does.
    pub fn apply(self, value: i64) -> (r: i64)
        ensures
            r == div_toward_zero(value * self.spec_num(), self.den_spec()) as i64,
    {
        let d = self.den();
        let v = value as i128;
        let n = self.num as i128;
        assert(-0x4000_0000_0000_0000_0000_0000_0000_0000 <= v * n <= 0x4000_0000_0000_0000_0000_0000_0000_0000)
            by (nonlinear_arith)
            requires
                -0x8000_0000_0000_0000 <= v < 0x8000_0000_0000_0000,
                -0x8000_0000_0000_0000 <= n < 0x8000_0000_0000_0000,
        ;
        let p: i128 = v * n;
        let dd = d as i128;
        let q: i128 = p / dd;
        q as i64
    }

    /// The two cross products that compare `self` with `other`.
    fn cross_products(self, other: Ratio) -> (r: (i128, i128))
        ensures
            r.0 == self.spec_num() * other.den_spec(),
            r.1 == other.spec_num() * self.den_spec(),
    {
        let d1 = other.den() as i128;
        let d2 = self.den() as i128;
        let n1 = self.num as i128;
        let n2 = other.num as i128;
        assert(-0x4000_0000_0000_0000_0000_0000_0000_0000 <= n1 * d1 <= 0x4000_0000_0000_0000_0000_0000_0000_0000)
            by (nonlinear_arith)
            requires
                -0x8000_0000_0000_0000 <= n1 < 0x8000_0000_0000_0000,
                0 < d1 <= 1_000_000_000_000_000_000,
        ;
        assert(-0x4000_0000_0000_0000_0000_0000_0000_0000 <= n2 * d2 <= 0x4000_0000_0000_0000_0000_0000_0000_0000)
            by (nonlinear_arith)
            requires
                -0x8000_0000_0000_0000 <= n2 < 0x8000_0000_0000_0000,
                0 < d2 <= 1_000_000_000_000_000_000,
        ;
        let a: i128 = n1 * d1;
        let b: i128 = n2 * d2;
        (a, b)
    }

    /// Reads the decimal text of a number, as `Display` writes an `f64`: an optional sign,
    /// digits, and optionally a point and more digits.
    ///
    /// The places are the bytes after the first point; the numerator is every byte but the
    /// points, read as an `i64`.
    pub fn from_decimal_text(text: &[u8]) -> (r: Result<Ratio, RatioTextError>)
        ensures
            frac_len(text@) > 18 ==> r == Err::<Ratio, RatioTextError>(
                RatioTextError::TooManyDecimals,
            ),
            frac_len(text@) <= 18 && spec_parse_i64(without_points(text@)) is None ==> r == Err::<
                Ratio,
                RatioTextError,
            >(RatioTextError::OutOfRange),
            frac_len(text@) <= 18 && spec_parse_i64(without_points(text@)) is Some ==> (r matches Ok(
                v,
            ) && v.is_canonical() && v.spec_exp() <= frac_len(text@) && v.spec_num() * pow10(
                (frac_len(text@) - v.spec_exp()) as nat,
            ) == spec_parse_i64(without_points(text@))->0),
    {
        let exp = fraction_length(text);
        if exp > 18 {
            return Err(RatioTextError::TooManyDecimals);
        }
        let digits = strip_points(text);
        match parse_i64(digits.as_slice()) {
            Some(num) => {
                let r = Ratio::new(num, exp as u8);
                Ok(r)
            },
            None => Err(RatioTextError::OutOfRange),
        }
    }
}

impl Default for Ratio {
    fn default() -> (r: Self)
        ensures
            r.spec_num() == 0 && r.spec_exp() == 0,
    {
        Ratio { num: 0, exp: 0 }
    }
}

pub open spec fn min_exp(exp: u8) -> nat {
    if exp < 18 {
        exp as nat
    } else {
        18
    }
}

impl PartialOrd for Ratio {
    fn partial_cmp(&self, other: &Self) -> (r: Option<Ordering>) {
        let (a, b) = self.cross_products(*other);
        if a < b {
            Some(Ordering::Less)
        } else if a == b {
            Some(Ordering::Equal)
        } else {
            Some(Ordering::Greater)
        }
    }
}

impl PartialOrdSpecImpl for Ratio {
    open spec fn obeys_partial_cmp_spec() -> bool {
        true
    }

    open spec fn partial_cmp_spec(&self, other: &Self) -> Option<Ordering> {
        if self.below(*other) {
            Some(Ordering::Less)
        } else if self.same_value(*other) {
            Some(Ordering::Equal)
        } else {
            Some(Ordering::Greater)
        }
    }
}

/// Each power of ten is ten times the one before.
proof fn lemma_pow10_succ(k: nat)
    ensures
        pow10(k + 1) == 10 * pow10(k),
{
    reveal(pow);
}

/// The powers of ten up to the eighteenth are positive and fit the largest denominator.
proof fn lemma_pow10_bound(k: nat)
    requires
        k <= 18,
    ensures
        0 < pow10(k) <= 1_000_000_000_000_000_000,
{
    lemma_pow_positive(10, k);
    if k < 18 {
        lemma_pow_strictly_increases(10, k, 18);
    }
    reveal_with_fuel(pow, 19);
    assert(pow(10, 18) == 1_000_000_000_000_000_000);
}

/// Two canonical ratios with the same value are the same ratio, so `==` and `Hash` compare
/// values.
pub proof fn lemma_canonical_unique(a: Ratio, b: Ratio)
    requires
        a.is_canonical(),
        b.is_canonical(),
        a.same_value(b),
    ensures
        a == b,
{
    if a.spec_exp() < b.spec_exp() {
        lemma_canonical_unique_ordered(a, b);
    } else if b.spec_exp() < a.spec_exp() {
        lemma_canonical_unique_ordered(b, a);
        assert(b.same_value(a)) by (nonlinear_arith)
            requires
                a.same_value(b),
        ;
    } else {
        lemma_pow_positive(10, a.spec_exp());
        assert(a.spec_num() == b.spec_num()) by (nonlinear_arith)
            requires
                a.spec_num() * pow10(b.spec_exp()) == b.spec_num() * pow10(a.spec_exp()),
                a.spec_exp() == b.spec_exp(),
                pow10(a.spec_exp()) > 0,
        ;
        lemma_same_fields(a, b);
    }
}

proof fn lemma_same_fields(a: Ratio, b: Ratio)
    requires
        a.spec_num() == b.spec_num(),
        a.spec_exp() == b.spec_exp(),
    ensures
        a == b,
{
}

proof fn lemma_canonical_unique_ordered(a: Ratio, b: Ratio)
    requires
        a.is_canonical(),
        b.is_canonical(),
        a.spec_exp() < b.spec_exp(),
    ensures
        !a.same_value(b),
{
    if !a.same_value(b) {
        return;
    }
    let ea = a.spec_exp();
    let eb = b.spec_exp();
    let k = (eb - ea) as nat;
    lemma_pow_adds(10, ea, k);
    lemma_pow_positive(10, ea);
    lemma_pow_positive(10, k);
    lemma_pow10_succ((k - 1) as nat);
    let pa = pow10(ea);
    let pk = pow10(k);
    let pk1 = pow10((k - 1) as nat);
    assert(pow10(eb) == pa * pk);
    assert(a.spec_num() * (pa * pk) == b.spec_num() * pa);
    assert(b.spec_num() == a.spec_num() * pk) by (nonlinear_arith)
        requires
            a.spec_num() * (pa * pk) == b.spec_num() * pa,
            pa > 0,
    ;
    assert(b.spec_num() == (a.spec_num() * pk1) * 10) by (nonlinear_arith)
        requires
            b.spec_num() == a.spec_num() * pk,
            pk == 10 * pk1,
    ;
    assert(b.spec_num() % 10 == 0) by (nonlinear_arith)
        requires
            b.spec_num() == (a.spec_num() * pk1) * 10,
    ;
    assert(false);
}

/// The order of [`Ratio`] is the order of the numbers, and it says "equal" exactly for equal
/// ratios.
pub proof fn lemma_order_matches_equality(a: Ratio, b: Ratio)
    requires
        a.is_canonical(),
        b.is_canonical(),
    ensures
        PartialOrdSpec::partial_cmp_spec(&a, &b) == Some(Ordering::Equal) <==> a == b,
        PartialOrdSpec::partial_cmp_spec(&a, &b) == Some(Ordering::Less) <==> PartialOrdSpec::partial_cmp_spec(&b, &a) == Some(
            Ordering::Greater,
        ),
{
    if a.same_value(b) {
        lemma_canonical_unique(a, b);
    }
}

/// Number of bytes after the first `.`, or 0 when there is none.
pub open spec fn frac_len(s: Seq<u8>) -> nat
    decreases s.len(),
{
    if s.len() == 0 {
        0
    } else if s[0] == 46u8 {
        (s.len() - 1) as nat
    } else {
        frac_len(s.drop_first())
    }
}

/// The bytes of `s` that are not `.`, in order.
pub open spec fn without_points(s: Seq<u8>) -> Seq<u8> {
    s.filter(|c: u8| c != 46u8)
}

pub open spec fn is_digit(c: u8) -> bool {
    48u8 <= c <= 57u8
}

pub open spec fn all_digits(s: Seq<u8>) -> bool {
    forall|i: int| 0 <= i < s.len() ==> is_digit(#[trigger] s[i])
}

/// The number that a run of decimal digits spells.
pub open spec fn digits_value(s: Seq<u8>) -> nat
    decreases s.len(),
{
    if s.len() == 0 {
        0
    } else {
        digits_value(s.drop_last()) * 10 + (s.last() - 48u8) as nat
    }
}

/// What `str::parse::<i64>` gives on these bytes: an optional `+` or `-`, then one or more
/// digits whose value fits.
pub open spec fn spec_parse_i64(s: Seq<u8>) -> Option<i64> {
    let neg = s.len() > 0 && s[0] == 45u8;
    let body = if s.len() > 0 && (s[0] == 45u8 || s[0] == 43u8) {
        s.drop_first()
    } else {
        s
    };
    let v: int = if neg {
        -digits_value(body)
    } else {
        digits_value(body) as int
    };
    if body.len() == 0 || !all_digits(body) || v < i64::MIN || v > i64::MAX {
        None
    } else {
        Some(v as i64)
    }
}

/// Number of bytes after the first `.`.
pub fn fraction_length(text: &[u8]) -> (r: usize)
    ensures
        r == frac_len(text@),
{
    let mut i: usize = 0;
    assert(text@.skip(0) =~= text@);
    while i < text.len()
        invariant
            i <= text.len(),
            frac_len(text@) == frac_len(text@.skip(i as int)),
        decreases text.len() - i,
    {
        assert(text@.skip(i as int).drop_first() =~= text@.skip(i + 1));
        if text[i] == 46u8 {
            return text.len() - 1 - i;
        }
        i = i + 1;
    }
    assert(text@.skip(i as int).len() == 0);
    0
}

/// The bytes of `text` with every `.` removed.
pub fn strip_points(text: &[u8]) -> (r: Vec<u8>)
    ensures
        r@ == without_points(text@),
{
    let mut out: Vec<u8> = Vec::new();
    let mut i: usize = 0;
    while i < text.len()
        invariant
            i <= text.len(),
            out@ == without_points(text@.take(i as int)),
        decreases text.len() - i,
    {
        proof {
            let t = text@.take(i as int);
            assert(text@.take(i + 1) =~= t.push(text@[i as int]));
            reveal(Seq::filter);
            assert(t.push(text@[i as int]).drop_last() =~= t);
        }
        if text[i] != 46u8 {
            out.push(text[i]);
        }
        i = i + 1;
    }
    assert(text@.take(text.len() as int) =~= text@);
    out
}

/// A prefix of digits never spells more than the whole run.
proof fn lemma_digits_value_prefix(s: Seq<u8>, i: int)
    requires
        0 <= i <= s.len(),
        all_digits(s),
    ensures
        digits_value(s.take(i)) <= digits_value(s),
    decreases s.len() - i,
{
    if i < s.len() {
        let t = s.take(i + 1);
        assert(t.drop_last() =~= s.take(i));
        assert(is_digit(s[i]));
        lemma_digits_value_prefix(s, i + 1);
    } else {
        assert(s.take(i) =~= s);
    }
}

/// `str::parse::<i64>` on bytes.
pub fn parse_i64(s: &[u8]) -> (r: Option<i64>)
    ensures
        r == spec_parse_i64(s@),
{
    let n = s.len();
    let mut start: usize = 0;
    let mut neg = false;
    if n > 0 && (s[0] == 45u8 || s[0] == 43u8) {
        neg = s[0] == 45u8;
        start = 1;
    }
    let ghost body = s@.skip(start as int);
    proof {
        if start == 1 {
            assert(body =~= s@.drop_first());
        } else {
            assert(body =~= s@);
        }
    }
    if start == n {
        return None;
    }
    // The magnitude may reach 2^63 for the most negative value.
    let limit: u64 = if neg {
        9_223_372_036_854_775_808
    } else {
        9_223_372_036_854_775_807
    };
    let mut acc: u64 = 0;
    let mut i: usize = start;
    while i < n
        invariant
            n == s.len(),
            start <= i <= n,
            start < n,
            limit >= 9_223_372_036_854_775_807,
            neg == (s@.len() > 0 && s@[0] == 45u8),
            limit == (if neg {
                9_223_372_036_854_775_808u64
            } else {
                9_223_372_036_854_775_807u64
            }),
            body == s@.skip(start as int),
            body == (if s@.len() > 0 && (s@[0] == 45u8 || s@[0] == 43u8) {
                s@.drop_first()
            } else {
                s@
            }),
            all_digits(body.take(i - start)),
            acc == digits_value(body.take(i - start)),
            acc <= limit,
            limit <= 9_223_372_036_854_775_808,
        decreases n - i,
    {
        let c = s[i];
        let ghost j = i - start;
        assert(body.take(j + 1).drop_last() =~= body.take(j));
        assert(body[j] == c);
        if c < 48u8 || c > 57u8 {
            assert(!is_digit(body[j as int]));
            assert(!all_digits(body));
            return None;
        }
        let d = (c - 48u8) as u64;
        if acc > (limit - d) / 10 {
            proof {
                assert(acc * 10 + d > limit) by (nonlinear_arith)
                    requires
                        acc > (limit - d) / 10,
                        d <= 9,
                        limit >= 9,
                ;
                if all_digits(body) {
                    lemma_digits_value_prefix(body, j + 1);
                    assert(digits_value(body.take(j + 1)) == acc * 10 + d);
                    assert(digits_value(body) > limit);
                }
            }
            return None;
        }
        assert(acc * 10 + d <= limit) by (nonlinear_arith)
            requires
                acc <= (limit - d) / 10,
                d <= 9,
                limit >= 9,
        ;
        acc = acc * 10 + d;
        i = i + 1;
    }
    assert(body.take(n - start) =~= body);
    if neg {
        if acc == 9_223_372_036_854_775_808 {
            Some(-9_223_372_036_854_775_807i64 - 1)
        } else {
            Some(-(acc as i64))
        }
    } else {
        Some(acc as i64)
    }
}

} // verus!
