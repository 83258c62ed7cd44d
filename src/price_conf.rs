//! `PriceConf`: a fixed-point price with a confidence interval, and the
//! arithmetic on it.
use vstd::prelude::*;

verus! {

/// Largest magnitude of a normalized price or confidence: `2^28 - 1`.
pub const MAX_PD_V_U64: u64 = 268435455;
/// `MAX_PD_V_U64` as a signed value.
pub const MAX_PD_V_I64: i64 = 268435455;
/// Smallest normalized price.
pub const MIN_PD_V_I64: i64 = -268435455;
/// Extra decimal digits of precision that a division adds to its result.
pub const PD_EXPO: i32 = -9;
/// `10^(-PD_EXPO)`.
pub const PD_SCALE: u64 = 1000000000;

/// `10^k`.
pub open spec fn pow10(k: nat) -> int
    decreases k,
{
    if k == 0 {
        1
    } else {
        10 * pow10((k - 1) as nat)
    }
}

/// Absolute value.
pub open spec fn abs(x: int) -> int {
    if x < 0 {
        -x
    } else {
        x
    }
}

/// Division truncating toward zero, as Rust's `/` does on signed integers.
pub open spec fn trunc_div(x: int, d: int) -> int {
    if x < 0 {
        -((-x) / d)
    } else {
        x / d
    }
}

/// `m` with a minus sign where `negative` holds.
pub open spec fn with_sign(m: int, negative: bool) -> int {
    if negative {
        -m
    } else {
        m
    }
}

/// A quotient of non-negative integers is non-negative and at most the
/// dividend.
proof fn lemma_quotient_bounds(x: int, y: int)
    requires
        x >= 0,
        y >= 1,
    ensures
        0 <= x / y <= x,
{
    vstd::arithmetic::div_mod::lemma_div_pos_is_pos(x, y);
    vstd::arithmetic::div_mod::lemma_div_is_ordered_by_denominator(x, 1, y);
}

/// Both magnitudes are within the normalized range.
pub open spec fn fits_normalized(price: int, conf: int) -> bool {
    -MAX_PD_V_U64 <= price <= MAX_PD_V_U64 && conf <= MAX_PD_V_U64
}

/// How many trailing decimal digits normalization drops from a price of
/// magnitude `a` and a confidence `c`: the least `k` for which both
/// `a / 10^k` and `c / 10^k` are at most `MAX_PD_V_U64`.
pub open spec fn normalize_shift(a: nat, c: nat) -> nat
    decreases a + c,
{
    if a <= MAX_PD_V_U64 && c <= MAX_PD_V_U64 {
        0
    } else {
        1 + normalize_shift(a / 10, c / 10)
    }
}

/// A price with a degree of uncertainty: it stands for
/// `price * 10^expo` plus or minus `conf * 10^expo`.
#[derive(PartialEq, Eq, Structural, Debug, Clone, Copy)]
pub struct PriceConf {
    pub price: i64,
    pub conf: u64,
    pub expo: i32,
}

impl PriceConf {
    /// Number of digits that `normalize` drops from this value.
    pub open spec fn shift(self) -> nat {
        normalize_shift(abs(self.price as int) as nat, self.conf as nat)
    }

    /// This value with `k` trailing digits dropped from price and
    /// confidence and the exponent raised by `k`; `None` where the
    /// exponent leaves the range of `i32`.
    pub open spec fn spec_drop_digits(self, k: nat) -> Option<PriceConf> {
        if self.expo + k > i32::MAX {
            None
        } else {
            Some(
                PriceConf {
                    price: trunc_div(self.price as int, pow10(k)) as i64,
                    conf: (self.conf as int / pow10(k)) as u64,
                    expo: (self.expo + k) as i32,
                },
            )
        }
    }

    /// The result of `normalize`.
    pub open spec fn spec_normalize(self) -> Option<PriceConf> {
        self.spec_drop_digits(self.shift())
    }

    /// The result of `scale_to_exponent(target_expo)`: digits are dropped
    /// (truncating toward zero) when the exponent grows, and digits of zero
    /// are appended when it shrinks, which fails if a magnitude overflows.
    pub open spec fn spec_scale_to_exponent(self, target_expo: i32) -> Option<PriceConf> {
        if target_expo >= self.expo {
            let k = (target_expo - self.expo) as nat;
            Some(
                PriceConf {
                    price: trunc_div(self.price as int, pow10(k)) as i64,
                    conf: (self.conf as int / pow10(k)) as u64,
                    expo: target_expo,
                },
            )
        } else {
            let k = (self.expo - target_expo) as nat;
            let p = self.price * pow10(k);
            let c = self.conf * pow10(k);
            if i64::MIN <= p <= i64::MAX && c <= u64::MAX {
                Some(PriceConf { price: p as i64, conf: c as u64, expo: target_expo })
            } else {
                None
            }
        }
    }

    /// The result of `div(other)`.
    pub open spec fn spec_div(self, other: PriceConf) -> Option<PriceConf> {
        match (self.spec_normalize(), other.spec_normalize()) {
            (Some(a), Some(b)) => {
                if b.price == 0 {
                    None
                } else {
                    let ap = abs(a.price as int);
                    let bp = abs(b.price as int);
                    let mid = ap * PD_SCALE / bp;
                    let d = a.expo - b.expo;
                    let e = d + PD_EXPO;
                    let conf = a.conf * PD_SCALE / bp + (b.conf * PD_SCALE / bp) * mid / (PD_SCALE as int);
                    if d < i32::MIN || d > i32::MAX || e < i32::MIN || e > i32::MAX || conf
                        > u64::MAX {
                        None
                    } else {
                        Some(
                            PriceConf {
                                price: with_sign(mid, (a.price < 0) != (b.price < 0)) as i64,
                                conf: conf as u64,
                                expo: e as i32,
                            },
                        )
                    }
                }
            },
            _ => None,
        }
    }

    /// The result of `mul(other)`.
    pub open spec fn spec_mul(self, other: PriceConf) -> Option<PriceConf> {
        match (self.spec_normalize(), other.spec_normalize()) {
            (Some(a), Some(b)) => {
                let ap = abs(a.price as int);
                let bp = abs(b.price as int);
                let e = a.expo + b.expo;
                if e < i32::MIN || e > i32::MAX {
                    None
                } else {
                    Some(
                        PriceConf {
                            price: with_sign(ap * bp, (a.price < 0) != (b.price < 0)) as i64,
                            conf: (a.conf * bp + b.conf * ap) as u64,
                            expo: e as i32,
                        },
                    )
                }
            },
            _ => None,
        }
    }

    /// The result of `add(other)`: the sums of prices and of confidences,
    /// when both exponents agree and both sums fit their types.
    pub open spec fn spec_add(self, other: PriceConf) -> Option<PriceConf> {
        let p = self.price + other.price;
        let c = self.conf + other.conf;
        if self.expo != other.expo || p < i64::MIN || p > i64::MAX || c > u64::MAX {
            None
        } else {
            Some(PriceConf { price: p as i64, conf: c as u64, expo: self.expo })
        }
    }

    /// Get a copy of this value where price and confidence have been
    /// brought into `[MIN_PD_V_I64, MAX_PD_V_I64]` and `[0, MAX_PD_V_U64]`
    /// by dropping trailing decimal digits from both and raising the
    /// exponent by one per digit. Returns `None` if the exponent would
    /// overflow.
    pub fn normalize(&self) -> (r: Option<PriceConf>)
        ensures
            r == self.spec_normalize(),
            r matches Some(n) ==> fits_normalized(n.price as int, n.conf as int),
    {
        let mut p = self.price;
        let mut c = self.conf;
        let mut e = self.expo;
        let ghost mut j: nat = 0;
        while p > MAX_PD_V_I64 || p < MIN_PD_V_I64 || c > MAX_PD_V_U64
            invariant
                p == trunc_div(self.price as int, pow10(j)),
                c == self.conf as int / pow10(j),
                e == self.expo + j,
                j + normalize_shift(abs(p as int) as nat, c as nat) == self.shift(),
            decreases abs(p as int) + c,
        {
            proof {
                lemma_drop_one_digit(self.price as int, self.conf as int, j);
            }
            p = p / 10;
            c = c / 10;
            match e.checked_add(1) {
                Some(e1) => e = e1,
                None => return None,
            }
            proof {
                j = j + 1;
            }
        }
        Some(PriceConf { price: p, conf: c, expo: e })
    }
    /// Divide this price by `other`, propagating the uncertainty of both into
    /// the result.
    ///
    /// Both operands are normalized first. The result carries `-PD_EXPO`
    /// extra digits: its exponent is `self.expo - other.expo + PD_EXPO` after
    /// normalization. The confidence uses the sum of the two relative
    /// confidences (a 1-norm) in place of the root of their squares, which
    /// overestimates it by at most a factor of `sqrt(2)`. The first term,
    /// `self`'s relative confidence times the midprice, is computed directly
    /// as `self.conf * PD_SCALE / |other.price|`, which also covers a price
    /// of zero in `self`.
    ///
    /// Returns `None` when either normalization fails, when `other`'s
    /// normalized price is zero, when the exponent overflows, or when the
    /// confidence does not fit in a `u64`.
    pub fn div(&self, other: &PriceConf) -> (r: Option<PriceConf>)
        ensures
            r == self.spec_div(*other),
    {
        let base = match self.normalize() {
            Some(n) => n,
            None => return None,
        };
        let other = match other.normalize() {
            Some(n) => n,
            None => return None,
        };
        if other.price == 0 {
            return None;
        }
        let (base_price, base_sign) = PriceConf::to_unsigned(base.price);
        let (other_price, other_sign) = PriceConf::to_unsigned(other.price);

        // at most 58 bits
        proof {
            lemma_quotient_bounds(base_price as int * PD_SCALE, other_price as int);
            lemma_quotient_bounds(base.conf as int * PD_SCALE, other_price as int);
            lemma_quotient_bounds(other.conf as int * PD_SCALE, other_price as int);
        }
        let midprice: u64 = base_price * PD_SCALE / other_price;
        let midprice_expo = match base.expo.checked_sub(other.expo) {
            Some(d) => match d.checked_add(PD_EXPO) {
                Some(e) => e,
                None => return None,
            },
            None => return None,
        };

        let base_conf_part: u64 = base.conf * PD_SCALE / other_price;
        let other_confidence_pct: u64 = other.conf * PD_SCALE / other_price;
        proof {
            assert(other_confidence_pct as int * midprice as int <= 268435455000000000 * 268435455000000000) by (nonlinear_arith)
                requires
                    0 <= other_confidence_pct <= 268435455000000000,
                    0 <= midprice <= 268435455000000000,
            ;
        }
        let conf: u128 = base_conf_part as u128 + (other_confidence_pct as u128 * midprice as u128) / (PD_SCALE as u128);
        if conf <= u64::MAX as u128 {
            Some(PriceConf {
                price: (midprice as i64) * base_sign * other_sign,
                conf: conf as u64,
                expo: midprice_expo,
            })
        } else {
            None
        }
    }

    /// Add `other` to this value, which must have the same exponent. Returns
    /// `None` when the exponents differ or when the sum of prices or of
    /// confidences overflows.
    pub fn add(&self, other: &PriceConf) -> (r: Option<PriceConf>)
        ensures
            r == self.spec_add(*other),
            r is None <==> self.expo != other.expo || self.price + other.price < i64::MIN
                || self.price + other.price > i64::MAX || self.conf + other.conf > u64::MAX,
    {
        if self.expo != other.expo {
            return None;
        }
        match (self.price.checked_add(other.price), self.conf.checked_add(other.conf)) {
            (Some(price), Some(conf)) => Some(PriceConf { price, conf, expo: self.expo }),
            _ => None,
        }
    }

    /// Multiply this value by the constant `c * 10^e`.
    pub fn cmul(&self, c: i64, e: i32) -> (r: Option<PriceConf>)
        ensures
            r == self.spec_mul(PriceConf { price: c, conf: 0, expo: e }),
    {
        self.mul(&PriceConf { price: c, conf: 0, expo: e })
    }

    /// Multiply this value by `other`, propagating the uncertainty of both.
    ///
    /// Both operands are normalized first; the exponent of the result is the
    /// sum of their exponents. The confidence is the first-order
    /// propagation `|q| * c1 + |p| * c2`, which is `pq * (c1 / p + c2 / q)`.
    /// Returns `None` when either normalization fails or the exponent
    /// overflows.
    pub fn mul(&self, other: &PriceConf) -> (r: Option<PriceConf>)
        ensures
            r == self.spec_mul(*other),
    {
        let base = match self.normalize() {
            Some(n) => n,
            None => return None,
        };
        let other = match other.normalize() {
            Some(n) => n,
            None => return None,
        };
        let (base_price, base_sign) = PriceConf::to_unsigned(base.price);
        let (other_price, other_sign) = PriceConf::to_unsigned(other.price);

        proof {
            assert(base_price as int * other_price as int <= 268435455 * 268435455) by (nonlinear_arith)
                requires
                    0 <= base_price <= 268435455,
                    0 <= other_price <= 268435455,
            ;
            assert(base.conf as int * other_price as int <= 268435455 * 268435455) by (nonlinear_arith)
                requires
                    0 <= base.conf <= 268435455,
                    0 <= other_price <= 268435455,
            ;
            assert(other.conf as int * base_price as int <= 268435455 * 268435455) by (nonlinear_arith)
                requires
                    0 <= other.conf <= 268435455,
                    0 <= base_price <= 268435455,
            ;
        }
        // at most 56 bits
        let midprice: u64 = base_price * other_price;
        let midprice_expo = match base.expo.checked_add(other.expo) {
            Some(e) => e,
            None => return None,
        };
        // at most 57 bits
        let conf: u64 = base.conf * other_price + other.conf * base_price;
        Some(PriceConf {
            price: (midprice as i64) * base_sign * other_sign,
            conf,
            expo: midprice_expo,
        })
    }

    /// Split a normalized price into its magnitude and its sign (`1` for
    /// zero).
    fn to_unsigned(x: i64) -> (r: (u64, i64))
        requires
            MIN_PD_V_I64 <= x <= MAX_PD_V_I64,
        ensures
            r.0 == abs(x as int),
            r.1 == if x < 0 { -1int } else { 1int },
    {
        if x < 0 {
            (-x as u64, -1)
        } else {
            (x as u64, 1)
        }
    }

    /// Scale this value so that its exponent is `target_expo`. Raising the
    /// exponent drops trailing digits and always succeeds; lowering it
    /// multiplies by ten per step and returns `None` on overflow.
    pub fn scale_to_exponent(&self, target_expo: i32) -> (r: Option<PriceConf>)
        ensures
            r == self.spec_scale_to_exponent(target_expo),
    {
        let mut p = self.price;
        let mut c = self.conf;
        if target_expo >= self.expo {
            let delta: u64 = (target_expo as i64 - self.expo as i64) as u64;
            let mut d: u64 = 0;
            // once both are zero, further divisions change nothing
            while d < delta && (p != 0 || c != 0)
                invariant
                    d <= delta,
                    delta == target_expo - self.expo,
                    p == trunc_div(self.price as int, pow10(d as nat)),
                    c == self.conf as int / pow10(d as nat),
                decreases delta - d,
            {
                proof {
                    lemma_drop_one_digit(self.price as int, self.conf as int, d as nat);
                }
                p = p / 10;
                c = c / 10;
                d = d + 1;
            }
            proof {
                if d < delta {
                    lemma_zero_stays_zero(self.price as int, self.conf as int, d as nat, delta as nat);
                }
            }
            Some(PriceConf { price: p, conf: c, expo: target_expo })
        } else {
            let delta: u64 = (self.expo as i64 - target_expo as i64) as u64;
            let mut d: u64 = 0;
            // zeros never overflow
            while d < delta && (p != 0 || c != 0)
                invariant
                    d <= delta,
                    delta == self.expo - target_expo,
                    p == self.price * pow10(d as nat),
                    c == self.conf * pow10(d as nat),
                decreases delta - d,
            {
                proof {
                    lemma_times_ten(self.price as int, d as nat);
                    lemma_times_ten(self.conf as int, d as nat);
                }
                match (p.checked_mul(10), c.checked_mul(10)) {
                    (Some(p1), Some(c1)) => {
                        p = p1;
                        c = c1;
                    },
                    _ => {
                        proof {
                            lemma_overflow_persists(
                                self.price as int,
                                self.conf as int,
                                (d + 1) as nat,
                                delta as nat,
                            );
                        }
                        return None;
                    },
                }
                d = d + 1;
            }
            proof {
                if d < delta {
                    lemma_pow10_pos(d as nat);
                    assert(self.price == 0 && self.conf == 0) by (nonlinear_arith)
                        requires
                            self.price * pow10(d as nat) == 0,
                            self.conf * pow10(d as nat) == 0,
                            pow10(d as nat) >= 1,
                    ;
                }
            }
            Some(PriceConf { price: p, conf: c, expo: target_expo })
        }
    }
}

proof fn lemma_pow10_pos(k: nat)
    ensures
        pow10(k) >= 1,
    decreases k,
{
    if k > 0 {
        lemma_pow10_pos((k - 1) as nat);
    }
}

/// Dropping one more digit after `j` digits is dropping `j + 1` digits.
proof fn lemma_drop_one_digit(p: int, c: int, j: nat)
    requires
        c >= 0,
    ensures
        trunc_div(trunc_div(p, pow10(j)), 10) == trunc_div(p, pow10(j + 1)),
        (c / pow10(j)) / 10 == c / pow10(j + 1),
{
    lemma_pow10_pos(j);
    assert(pow10(j + 1) == pow10(j) * 10);
    vstd::arithmetic::div_mod::lemma_div_denominator(c, pow10(j), 10);
    vstd::arithmetic::div_mod::lemma_div_denominator(abs(p), pow10(j), 10);
    vstd::arithmetic::div_mod::lemma_div_pos_is_pos(abs(p), pow10(j));
}

/// `10^(a + b) == 10^a * 10^b`.
proof fn lemma_pow10_add(a: nat, b: nat)
    ensures
        pow10(a + b) == pow10(a) * pow10(b),
    decreases b,
{
    if b > 0 {
        lemma_pow10_add(a, (b - 1) as nat);
        assert(pow10(a + b) == 10 * pow10((a + b - 1) as nat));
        assert(pow10(a) * pow10(b) == pow10(a) * (10 * pow10((b - 1) as nat)));
        vstd::arithmetic::mul::lemma_mul_is_associative(pow10(a), 10, pow10((b - 1) as nat));
        vstd::arithmetic::mul::lemma_mul_is_commutative(pow10(a), 10);
        vstd::arithmetic::mul::lemma_mul_is_associative(10, pow10(a), pow10((b - 1) as nat));
    }
}

/// `x * 10^(j + 1) == (x * 10^j) * 10`.
proof fn lemma_times_ten(x: int, j: nat)
    ensures
        x * pow10(j + 1) == (x * pow10(j)) * 10,
{
    assert(pow10(j + 1) == 10 * pow10(j));
    assert(x * (10 * pow10(j)) == (x * pow10(j)) * 10) by (nonlinear_arith);
}

/// Once truncation has reached zero, dropping more digits keeps it there.
proof fn lemma_zero_stays_zero(p: int, c: int, j: nat, k: nat)
    requires
        c >= 0,
        j <= k,
        trunc_div(p, pow10(j)) == 0,
        c / pow10(j) == 0,
    ensures
        trunc_div(p, pow10(k)) == 0,
        c / pow10(k) == 0,
{
    lemma_pow10_pos(j);
    lemma_pow10_pos((k - j) as nat);
    lemma_pow10_add(j, (k - j) as nat);
    vstd::arithmetic::div_mod::lemma_div_denominator(c, pow10(j), pow10((k - j) as nat));
    vstd::arithmetic::div_mod::lemma_div_denominator(abs(p), pow10(j), pow10((k - j) as nat));
    assert(0int / pow10((k - j) as nat) == 0);
}

/// Where `x * 10^j` overflows a 64-bit integer, so does `x * 10^k` for `k >= j`.
proof fn lemma_overflow_persists(p: int, c: int, j: nat, k: nat)
    requires
        c >= 0,
        j <= k,
        !(i64::MIN <= p * pow10(j) <= i64::MAX && c * pow10(j) <= u64::MAX),
    ensures
        !(i64::MIN <= p * pow10(k) <= i64::MAX && c * pow10(k) <= u64::MAX),
{
    let m = pow10((k - j) as nat);
    lemma_pow10_pos((k - j) as nat);
    lemma_pow10_pos(j);
    lemma_pow10_add(j, (k - j) as nat);
    let a = pow10(j);
    assert(pow10(k) == a * m);
    assert(p * (a * m) == (p * a) * m) by (nonlinear_arith);
    assert(c * (a * m) == (c * a) * m) by (nonlinear_arith);
    if p * a > i64::MAX {
        assert((p * a) * m >= p * a) by (nonlinear_arith)
            requires
                p * a > 0,
                m >= 1,
        ;
    } else if p * a < i64::MIN {
        assert((p * a) * m <= p * a) by (nonlinear_arith)
            requires
                p * a < 0,
                m >= 1,
        ;
    } else {
        assert((c * a) * m >= c * a) by (nonlinear_arith)
            requires
                c * a > 0,
                m >= 1,
        ;
    }
}

/// A quotient truncated toward zero, scaled back by its divisor, has no
/// larger magnitude than the dividend, the same sign where it is not zero,
/// and falls short by less than the divisor.
proof fn lemma_trunc_div_bounds(x: int, d: int)
    requires
        d >= 1,
    ensures
        abs(trunc_div(x, d)) == abs(x) / d,
        abs(trunc_div(x, d)) * d <= abs(x) < (abs(trunc_div(x, d)) + 1) * d,
        abs(x) < abs(trunc_div(x, d)) * d + d,
        trunc_div(x, d) > 0 ==> x > 0,
        trunc_div(x, d) < 0 ==> x < 0,
        trunc_div(x, d) * d == with_sign(abs(trunc_div(x, d)) * d, x < 0),
{
    vstd::arithmetic::div_mod::lemma_fundamental_div_mod(abs(x), d);
    vstd::arithmetic::div_mod::lemma_mod_bound(abs(x), d);
    vstd::arithmetic::div_mod::lemma_div_pos_is_pos(abs(x), d);
    assert((abs(x) / d + 1) * d == (abs(x) / d) * d + d) by (nonlinear_arith);
    assert(d * (abs(x) / d) == (abs(x) / d) * d) by (nonlinear_arith);
    if x < 0 {
        assert((-(abs(x) / d)) * d == -((abs(x) / d) * d)) by (nonlinear_arith);
    }
}

/// After the digits that normalization drops, both magnitudes fit.
proof fn lemma_shift_fits(a: nat, c: nat)
    ensures
        a as int / pow10(normalize_shift(a, c)) <= MAX_PD_V_U64,
        c as int / pow10(normalize_shift(a, c)) <= MAX_PD_V_U64,
    decreases a + c,
{
    if a <= MAX_PD_V_U64 && c <= MAX_PD_V_U64 {
    } else {
        let k = normalize_shift(a / 10, c / 10);
        lemma_shift_fits(a / 10, c / 10);
        lemma_drop_one_digit(a as int, c as int, k);
        lemma_pow10_pos(k);
        vstd::arithmetic::div_mod::lemma_div_denominator(a as int, 10, pow10(k));
        vstd::arithmetic::div_mod::lemma_div_denominator(c as int, 10, pow10(k));
        assert(pow10(k + 1) == 10 * pow10(k));
    }
}

/// Normalizing a value that normalization produced changes nothing.
pub proof fn lemma_normalize_idempotent(q: PriceConf)
    requires
        q.spec_normalize() is Some,
    ensures
        q.spec_normalize()->Some_0.spec_normalize() == q.spec_normalize(),
{
    let n = q.spec_normalize()->Some_0;
    let k = q.shift();
    lemma_pow10_pos(k);
    lemma_trunc_div_bounds(q.price as int, pow10(k));
    lemma_shift_fits(abs(q.price as int) as nat, q.conf as nat);
    assert(n.shift() == 0);
    assert(pow10(0) == 1);
    assert(n.spec_drop_digits(0) == Some(n));
}

/// Normalization never increases the represented magnitude: it drops the
/// `k` trailing digits of price and confidence (truncating toward zero) and
/// raises the exponent by `k`. Scaled back by `10^k`, each result falls
/// short of the input by less than `10^k` and never exceeds it, and the
/// price keeps its sign.
pub proof fn lemma_normalize_truncates(q: PriceConf)
    requires
        q.spec_normalize() is Some,
    ensures
        ({
            let n = q.spec_normalize()->Some_0;
            let k = (n.expo - q.expo) as nat;
            &&& n.expo >= q.expo
            &&& n.price == trunc_div(q.price as int, pow10(k))
            &&& n.conf == q.conf as int / pow10(k)
            &&& abs(n.price as int) * pow10(k) <= abs(q.price as int) < (abs(n.price as int) + 1)
                * pow10(k)
            &&& n.conf * pow10(k) <= q.conf < (n.conf + 1) * pow10(k)
            &&& n.price > 0 ==> q.price > 0
            &&& n.price < 0 ==> q.price < 0
        }),
{
    let k = q.shift();
    lemma_pow10_pos(k);
    lemma_trunc_div_bounds(q.price as int, pow10(k));
    lemma_trunc_div_bounds(q.conf as int, pow10(k));
    lemma_quotient_bounds(abs(q.price as int), pow10(k));
    lemma_quotient_bounds(q.conf as int, pow10(k));
}

/// Widening to a larger exponent and narrowing back to the starting one
/// always succeeds, and gives the input value with the dropped low digits
/// replaced by zeros: never more in magnitude, short by less than `10^k`
/// where `k` digits were dropped, and with the price's sign kept.
pub proof fn lemma_scale_round_trip(q: PriceConf, target_expo: i32)
    requires
        target_expo >= q.expo,
    ensures
        q.spec_scale_to_exponent(target_expo) is Some,
        q.spec_scale_to_exponent(target_expo)->Some_0.spec_scale_to_exponent(q.expo) is Some,
        ({
            let back = q.spec_scale_to_exponent(target_expo)->Some_0.spec_scale_to_exponent(
                q.expo,
            )->Some_0;
            let k = (target_expo - q.expo) as nat;
            &&& back.expo == q.expo
            &&& back.price == trunc_div(q.price as int, pow10(k)) * pow10(k)
            &&& back.conf == (q.conf as int / pow10(k)) * pow10(k)
            &&& abs(back.price as int) <= abs(q.price as int) < abs(back.price as int) + pow10(k)
            &&& back.conf <= q.conf < back.conf + pow10(k)
            &&& back.price > 0 ==> q.price > 0
            &&& back.price < 0 ==> q.price < 0
        }),
{
    let k = (target_expo - q.expo) as nat;
    let d = pow10(k);
    lemma_pow10_pos(k);
    lemma_trunc_div_bounds(q.price as int, d);
    lemma_trunc_div_bounds(q.conf as int, d);
    lemma_quotient_bounds(abs(q.price as int), d);
    lemma_quotient_bounds(q.conf as int, d);
    let w = q.spec_scale_to_exponent(target_expo)->Some_0;
    assert(w.price == trunc_div(q.price as int, d));
    assert(w.conf == q.conf as int / d);
    if target_expo > q.expo {
        assert(w.spec_scale_to_exponent(q.expo) is Some);
    } else {
        assert(k == 0);
        assert(pow10(0) == 1);
    }
}

/// Multiplication is commutative.
pub proof fn lemma_mul_commutative(a: PriceConf, b: PriceConf)
    ensures
        a.spec_mul(b) == b.spec_mul(a),
{
    match (a.spec_normalize(), b.spec_normalize()) {
        (Some(x), Some(y)) => {
            vstd::arithmetic::mul::lemma_mul_is_commutative(abs(x.price as int), abs(y.price as int));
        },
        _ => {},
    }
}

} // verus!
