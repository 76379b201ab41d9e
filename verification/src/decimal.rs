//! An exact base-10 decimal value: a signed integer mantissa together with a
//! scale, denoting `mantissa / 10^scale`.  Two values are equal when they
//! denote the same number, regardless of scale, so `6.0` equals `6.00`.

use vstd::prelude::*;

verus! {

/// `10^n` as a mathematical integer.
pub open spec fn pow10(n: nat) -> int
    decreases n,
{
    if n == 0 {
        1
    } else {
        10 * pow10((n - 1) as nat)
    }
}

pub proof fn lemma_pow10_pos(n: nat)
    ensures
        pow10(n) >= 1,
    decreases n,
{
    if n > 0 {
        lemma_pow10_pos((n - 1) as nat);
    }
}

pub proof fn lemma_pow10_add(m: nat, n: nat)
    ensures
        pow10(m + n) == pow10(m) * pow10(n),
    decreases m,
{
    if m == 0 {
    } else {
        lemma_pow10_add((m - 1) as nat, n);
        assert(pow10(m + n) == 10 * pow10((m + n - 1) as nat));
        assert(10 * (pow10((m - 1) as nat) * pow10(n)) == (10 * pow10((m - 1) as nat)) * pow10(n))
            by (nonlinear_arith);
    }
}

pub proof fn lemma_pow10_38()
    ensures
        pow10(38) == 100000000000000000000000000000000000000int,
{
    reveal_with_fuel(pow10, 39);
}

pub proof fn lemma_pow10_mono(m: nat, n: nat)
    requires
        m <= n,
    ensures
        pow10(m) <= pow10(n),
    decreases n,
{
    if m < n {
        lemma_pow10_mono(m, (n - 1) as nat);
        lemma_pow10_pos((n - 1) as nat);
    }
}

/// The mantissa bound of the decimal type: `2^96`.
pub open spec fn mantissa_limit() -> int {
    0x1000000000000000000000000
}

/// An exact decimal number `mantissa / 10^scale`.
///
/// Well-formed values keep the scale at most 28 and the mantissa strictly
/// within `2^96` in magnitude; the parser only produces such values.
#[derive(Debug, Clone, Copy)]
pub struct Decimal {
    pub mantissa: i128,
    pub scale: u32,
}

impl Decimal {
    /// The mantissa is within `2^96` and the scale at most 28.
    pub open spec fn wf(self) -> bool {
        &&& self.scale <= 28
        &&& -mantissa_limit() < self.mantissa < mantissa_limit()
    }

    /// The number denoted, scaled up to a common denominator with `other`:
    /// `self == other` as numbers iff
    /// `self.mantissa * 10^other.scale == other.mantissa * 10^self.scale`.
    pub open spec fn same_number(self, other: Decimal) -> bool {
        self.mantissa * pow10(other.scale as nat) == other.mantissa * pow10(self.scale as nat)
    }

    /// Construct `mantissa / 10^scale`.
    pub fn new(mantissa: i64, scale: u32) -> (d: Decimal)
        requires
            scale <= 28,
        ensures
            d.mantissa == mantissa as i128,
            d.scale == scale,
            d.wf(),
    {
        proof {
            lemma_pow10_mono(0, 28);
        }
        Decimal { mantissa: mantissa as i128, scale }
    }

    /// The same number with the mantissa negated.
    pub fn neg(self) -> (d: Decimal)
        requires
            self.mantissa > i128::MIN,
        ensures
            d.mantissa == -self.mantissa,
            d.scale == self.scale,
            self.wf() ==> d.wf(),
    {
        Decimal { mantissa: -self.mantissa, scale: self.scale }
    }
}

/// `10^d` as an `i128`, for exponents small enough to fit.
pub fn pow10_i128(d: u32) -> (p: i128)
    requires
        d <= 38,
    ensures
        p == pow10(d as nat),
{
    let mut p: i128 = 1;
    let mut i: u32 = 0;
    while i < d
        invariant
            i <= d,
            d <= 38,
            p == pow10(i as nat),
        decreases d - i,
    {
        proof {
            lemma_pow10_mono((i + 1) as nat, 38);
            lemma_pow10_38();
            lemma_pow10_pos(i as nat);
        }
        p = p * 10;
        i = i + 1;
    }
    p
}

/// Decides `a * 10^d == b` without overflow for any inputs.
fn scaled_eq(a: i128, b: i128, d: u32) -> (r: bool)
    ensures
        r == (a * pow10(d as nat) == b),
{
    if d > 38 {
        proof {
            if a != 0 {
                lemma_pow10_mono(39, d as nat);
                lemma_pow10_38();
                assert(pow10(39) == 10 * pow10(38));
                lemma_pow10_pos(d as nat);
                let p = pow10(d as nat);
                assert(a >= 1 ==> a * p >= p) by (nonlinear_arith)
                    requires
                        p >= 1,
                ;
                assert(a <= -1 ==> a * p <= -p) by (nonlinear_arith)
                    requires
                        p >= 1,
                ;
            }
        }
        a == 0 && b == 0
    } else {
        let p = pow10_i128(d);
        match a.checked_mul(p) {
            Some(c) => c == b,
            None => {
                proof {
                    // The product overflows `i128`, so it cannot equal `b`.
                }
                false
            },
        }
    }
}

impl PartialEq for Decimal {
    /// Numeric equality: `1.20 == 1.2`.
    fn eq(&self, other: &Decimal) -> (r: bool) {
        if self.scale == other.scale {
            proof {
                let p = pow10(self.scale as nat);
                lemma_pow10_pos(self.scale as nat);
                assert(self.mantissa * p == other.mantissa * p <==> self.mantissa
                    == other.mantissa) by (nonlinear_arith)
                    requires
                        p >= 1,
                ;
            }
            self.mantissa == other.mantissa
        } else if self.scale < other.scale {
            let r = scaled_eq(self.mantissa, other.mantissa, other.scale - self.scale);
            proof {
                lemma_scaled_eq_same_number(*self, *other);
            }
            r
        } else {
            let r = scaled_eq(other.mantissa, self.mantissa, self.scale - other.scale);
            proof {
                lemma_scaled_eq_same_number(*other, *self);
                lemma_pow10_pos(self.scale as nat);
                lemma_pow10_pos(other.scale as nat);
            }
            r
        }
    }
}

impl vstd::std_specs::cmp::PartialEqSpecImpl for Decimal {
    open spec fn obeys_eq_spec() -> bool {
        true
    }

    open spec fn eq_spec(&self, other: &Decimal) -> bool {
        self.same_number(*other)
    }
}

/// For scales `s1 <= s2`, `a/10^s1 == b/10^s2` iff `a * 10^(s2-s1) == b`.
proof fn lemma_scaled_eq_same_number(a: Decimal, b: Decimal)
    requires
        a.scale <= b.scale,
    ensures
        a.same_number(b) == (a.mantissa * pow10((b.scale - a.scale) as nat) == b.mantissa),
{
    let d = (b.scale - a.scale) as nat;
    let s1 = a.scale as nat;
    lemma_pow10_add(d, s1);
    lemma_pow10_pos(s1);
    let p1 = pow10(s1);
    let pd = pow10(d);
    assert(a.mantissa * (pd * p1) == (a.mantissa * pd) * p1) by (nonlinear_arith);
    assert((a.mantissa * pd) * p1 == b.mantissa * p1 <==> a.mantissa * pd == b.mantissa)
        by (nonlinear_arith)
        requires
            p1 >= 1,
    ;
}

} // verus!
