//! Fixed-point quantities: cash, stock of goods, prices, rates and utility.

use vstd::prelude::*;

verus! {

/// How many millionths make one whole unit.
pub const MICROS_PER_UNIT: i64 = 1_000_000;

/// The nearest `i64` to `v`.
pub open spec fn saturate(v: int) -> i64 {
    if v < i64::MIN as int {
        i64::MIN
    } else if v > i64::MAX as int {
        i64::MAX
    } else {
        v as i64
    }
}

/// The quotient of `n` by a positive `d`, rounded toward zero.
pub open spec fn div_toward_zero(n: int, d: int) -> int
    recommends
        d > 0,
{
    if n >= 0 {
        n / d
    } else {
        -((-n) / d)
    }
}

/// A signed decimal quantity with six fractional digits, held as a count of
/// millionths. Arithmetic saturates at the ends of the `i64` range, and
/// products and quotients round toward zero.
#[derive(Clone, Copy, Debug, PartialEq, Eq, PartialOrd, Ord, Hash, Structural)]
pub struct Amount {
    pub micros: i64,
}

impl View for Amount {
    type V = int;

    open spec fn view(&self) -> int {
        self.micros as int
    }
}

pub(crate) fn narrow(v: i128) -> (r: i64)
    ensures
        r == saturate(v as int),
{
    if v < i64::MIN as i128 {
        i64::MIN
    } else if v > i64::MAX as i128 {
        i64::MAX
    } else {
        v as i64
    }
}

pub(crate) fn wide_div_toward_zero(n: i128, d: i128) -> (q: i128)
    requires
        d > 0,
        n > i128::MIN,
    ensures
        q == div_toward_zero(n as int, d as int),
{
    if n >= 0 {
        n / d
    } else {
        let m: i128 = -n;
        let p: i128 = m / d;
        -p
    }
}

proof fn lemma_product_bound(a: int, b: int)
    requires
        i64::MIN <= a <= i64::MAX,
        i64::MIN <= b <= i64::MAX,
    ensures
        -0x4000_0000_0000_0000_0000_0000_0000_0000 <= a * b
            <= 0x4000_0000_0000_0000_0000_0000_0000_0000,
{
    assert(-0x4000_0000_0000_0000_0000_0000_0000_0000 <= a * b
        <= 0x4000_0000_0000_0000_0000_0000_0000_0000) by (nonlinear_arith)
        requires
            -0x8000_0000_0000_0000 <= a <= 0x8000_0000_0000_0000,
            -0x8000_0000_0000_0000 <= b <= 0x8000_0000_0000_0000,
    ;
}

impl Amount {
    /// The quantity nothing.
    pub open spec fn spec_zero() -> Amount {
        Amount { micros: 0 }
    }

    /// The quantity of `units` whole units.
    pub open spec fn spec_from_units(units: i64) -> Amount {
        Amount { micros: saturate(units * MICROS_PER_UNIT) }
    }

    /// The sum of two quantities.
    pub open spec fn spec_saturating_add(self, rhs: Amount) -> Amount {
        Amount { micros: saturate(self.micros + rhs.micros) }
    }

    /// The difference of two quantities.
    pub open spec fn spec_saturating_sub(self, rhs: Amount) -> Amount {
        Amount { micros: saturate(self.micros - rhs.micros) }
    }

    /// The quantity with its sign turned.
    pub open spec fn spec_saturating_neg(self) -> Amount {
        Amount { micros: saturate(-self.micros) }
    }

    /// The product of two quantities, rounded toward zero.
    pub open spec fn spec_saturating_mul(self, rhs: Amount) -> Amount {
        Amount {
            micros: saturate(
                div_toward_zero(self.micros * rhs.micros, MICROS_PER_UNIT as int),
            ),
        }
    }

    /// The quantity shared out over `count` parts, rounded toward zero.
    pub open spec fn spec_shared_among(self, count: usize) -> Amount
        recommends
            count > 0,
    {
        Amount { micros: div_toward_zero(self.micros as int, count as int) as i64 }
    }

    /// The larger of the quantity and `floor`.
    pub open spec fn spec_at_least(self, floor: Amount) -> Amount {
        if self.micros < floor.micros {
            floor
        } else {
            self
        }
    }

    /// The quantity brought into the range from `low` to `high`.
    pub open spec fn spec_clamped(self, low: Amount, high: Amount) -> Amount
        recommends
            low.micros <= high.micros,
    {
        if self.micros < low.micros {
            low
        } else if self.micros > high.micros {
            high
        } else {
            self
        }
    }

    /// The quantity nothing.
    #[verifier::when_used_as_spec(spec_zero)]
    pub fn zero() -> (r: Amount)
        ensures
            r == Amount::spec_zero(),
    {
        Amount { micros: 0 }
    }

    /// The quantity of `micros` millionths.
    pub fn from_micros(micros: i64) -> (r: Amount)
        ensures
            r.micros == micros,
    {
        Amount { micros }
    }

    /// The quantity of `units` whole units, or the nearest there is.
    #[verifier::when_used_as_spec(spec_from_units)]
    pub fn from_units(units: i64) -> (r: Amount)
        ensures
            r == Amount::spec_from_units(units),
    {
        proof {
            lemma_product_bound(units as int, MICROS_PER_UNIT as int);
        }
        let wide: i128 = units as i128 * MICROS_PER_UNIT as i128;
        Amount { micros: narrow(wide) }
    }

    /// The sum, or the nearest quantity there is.
    #[verifier::when_used_as_spec(spec_saturating_add)]
    pub fn saturating_add(self, rhs: Amount) -> (r: Amount)
        ensures
            r == self.spec_saturating_add(rhs),
    {
        let wide: i128 = self.micros as i128 + rhs.micros as i128;
        Amount { micros: narrow(wide) }
    }

    /// The difference, or the nearest quantity there is.
    #[verifier::when_used_as_spec(spec_saturating_sub)]
    pub fn saturating_sub(self, rhs: Amount) -> (r: Amount)
        ensures
            r == self.spec_saturating_sub(rhs),
    {
        let wide: i128 = self.micros as i128 - rhs.micros as i128;
        Amount { micros: narrow(wide) }
    }

    /// The quantity with its sign turned, or the nearest quantity there is.
    #[verifier::when_used_as_spec(spec_saturating_neg)]
    pub fn saturating_neg(self) -> (r: Amount)
        ensures
            r == self.spec_saturating_neg(),
    {
        let wide: i128 = -(self.micros as i128);
        Amount { micros: narrow(wide) }
    }

    /// The product rounded toward zero, or the nearest quantity there is.
    #[verifier::when_used_as_spec(spec_saturating_mul)]
    pub fn saturating_mul(self, rhs: Amount) -> (r: Amount)
        ensures
            r == self.spec_saturating_mul(rhs),
    {
        proof {
            lemma_product_bound(self.micros as int, rhs.micros as int);
        }
        let wide: i128 = self.micros as i128 * rhs.micros as i128;
        Amount { micros: narrow(wide_div_toward_zero(wide, MICROS_PER_UNIT as i128)) }
    }

    /// One of `count` equal parts of the quantity, rounded toward zero.
    #[verifier::when_used_as_spec(spec_shared_among)]
    pub fn shared_among(self, count: usize) -> (r: Amount)
        requires
            count > 0,
        ensures
            r == self.spec_shared_among(count),
    {
        let q: i128 = wide_div_toward_zero(self.micros as i128, count as i128);
        proof {
            lemma_share_bound(self.micros as int, count as int);
        }
        Amount { micros: q as i64 }
    }

    /// The larger of the quantity and `floor`.
    #[verifier::when_used_as_spec(spec_at_least)]
    pub fn at_least(self, floor: Amount) -> (r: Amount)
        ensures
            r == self.spec_at_least(floor),
    {
        if self.micros < floor.micros {
            floor
        } else {
            self
        }
    }

    /// `low` for a quantity below it, else `high` for a quantity above it,
    /// else the quantity itself.
    #[verifier::when_used_as_spec(spec_clamped)]
    pub fn clamped(self, low: Amount, high: Amount) -> (r: Amount)
        ensures
            r == self.spec_clamped(low, high),
    {
        if self.micros < low.micros {
            low
        } else if self.micros > high.micros {
            high
        } else {
            self
        }
    }
}

/// `n` quantities of nothing.
pub open spec fn zeros(n: nat) -> Seq<Amount> {
    Seq::new(n, |i: int| Amount::zero())
}

/// No quantity in `qty` is negative.
pub open spec fn none_negative(qty: Seq<Amount>) -> bool {
    forall|i: int| 0 <= i < qty.len() ==> (#[trigger] qty[i]).micros >= 0
}

/// The exact sum of the quantities in `qty`, in millionths.
pub open spec fn total(qty: Seq<Amount>) -> int
    decreases qty.len(),
{
    if qty.len() == 0 {
        0
    } else {
        total(qty.drop_last()) + qty.last().micros
    }
}

/// Quantities of which none is negative do not sum to less than nothing.
pub proof fn lemma_total_not_negative(qty: Seq<Amount>)
    requires
        none_negative(qty),
    ensures
        total(qty) >= 0,
    decreases qty.len(),
{
    if qty.len() > 0 {
        assert forall|i: int| 0 <= i < qty.drop_last().len() implies (#[trigger] qty.drop_last()[i]).micros
            >= 0 by {
            assert(qty.drop_last()[i] == qty[i]);
        }
        lemma_total_not_negative(qty.drop_last());
        assert(qty.last() == qty[qty.len() - 1]);
    }
}

/// A vector of `n` quantities of nothing.
pub fn zero_vec(n: usize) -> (qty: Vec<Amount>)
    ensures
        qty@ == zeros(n as nat),
{
    let mut qty: Vec<Amount> = Vec::new();
    let mut i: usize = 0;
    while i < n
        invariant
            i <= n,
            qty@ == zeros(i as nat),
        decreases n - i,
    {
        qty.push(Amount::zero());
        assert(qty@ =~= zeros((i + 1) as nat));
        i = i + 1;
    }
    qty
}

/// A vector that holds the same quantities as `qty`.
pub fn copy_vec(qty: &Vec<Amount>) -> (copy: Vec<Amount>)
    ensures
        copy@ == qty@,
{
    let mut copy: Vec<Amount> = Vec::new();
    let mut i: usize = 0;
    while i < qty.len()
        invariant
            i <= qty@.len(),
            copy@ == qty@.subrange(0, i as int),
        decreases qty@.len() - i,
    {
        copy.push(qty[i]);
        assert(copy@ =~= qty@.subrange(0, i + 1));
        i = i + 1;
    }
    assert(qty@.subrange(0, i as int) =~= qty@);
    copy
}

proof fn lemma_share_bound(n: int, d: int)
    requires
        d > 0,
    ensures
        n >= 0 ==> 0 <= div_toward_zero(n, d) <= n,
        n < 0 ==> n <= div_toward_zero(n, d) <= 0,
{
    if n >= 0 {
        assert(0 <= n / d <= n) by (nonlinear_arith)
            requires
                n >= 0,
                d > 0,
        ;
    } else {
        assert(0 <= (-n) / d <= -n) by (nonlinear_arith)
            requires
                -n >= 0,
                d > 0,
        ;
    }
}

} // verus!
