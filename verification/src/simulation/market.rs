//! The goods market: a price per good that follows the pressure of demand
//! against supply, one step per tick.

use crate::amount::{
    div_toward_zero, narrow, none_negative, saturate, wide_div_toward_zero, zero_vec, zeros,
    Amount, MICROS_PER_UNIT,
};
use crate::data::compiled::{GoodDef, Structure};
use crate::data::ids::GoodId;
use vstd::prelude::*;

verus! {

/// No price falls below one hundredth, in millionths.
pub const PRICE_FLOOR_MICROS: i64 = 10_000;

/// The share of a price by which full pressure moves it in one tick, in
/// millionths: two hundredths.
pub const ADJUSTMENT_RATE_MICROS: i64 = 20_000;

/// The goods market follows pressure up to one half either way, in millionths.
pub const PRESSURE_LIMIT_MICROS: i64 = 500_000;

/// How far demand outweighs supply, as a share of their sum: between minus one
/// and one for quantities that are not negative, and nothing where nothing was
/// noted.
pub open spec fn balance(demand: Amount, supply: Amount) -> Amount {
    if demand.micros + supply.micros <= 0 {
        Amount::zero()
    } else {
        Amount {
            micros: saturate(
                div_toward_zero(
                    (demand.micros - supply.micros) * MICROS_PER_UNIT,
                    demand.micros + supply.micros,
                ),
            ),
        }
    }
}

/// The balance of demand and supply, held within `limit` either way.
pub open spec fn pressure(demand: Amount, supply: Amount, limit: Amount) -> Amount {
    balance(demand, supply).clamped(limit.saturating_neg(), limit)
}

/// The price one step on: moved by the share `rate` times `pressure`, and not
/// below the floor.
pub open spec fn repriced(price: Amount, rate: Amount, pressure: Amount) -> Amount {
    price.saturating_mul(
        Amount { micros: MICROS_PER_UNIT }.saturating_add(rate.saturating_mul(pressure)),
    ).at_least(Amount { micros: PRICE_FLOOR_MICROS })
}

/// The quantity that is recorded when `amount` is noted on top of `noted`: a
/// negative `amount` counts as nothing.
pub open spec fn accumulated(noted: Amount, amount: Amount) -> Amount {
    noted.saturating_add(amount.at_least(Amount::zero()))
}

/// No price in `price` is below the floor.
pub open spec fn none_below_floor(price: Seq<Amount>) -> bool {
    forall|i: int| 0 <= i < price.len() ==> (#[trigger] price[i]).micros >= PRICE_FLOOR_MICROS
}

/// The opening price of each good: its base price, or the floor where that is
/// higher.
pub open spec fn opening_prices(goods: Seq<GoodDef>) -> Seq<Amount> {
    Seq::new(
        goods.len(),
        |i: int| goods[i].base_price.at_least(Amount { micros: PRICE_FLOOR_MICROS }),
    )
}

/// The goods prices one step on, each by its own pressure.
pub open spec fn adjusted_prices(
    price: Seq<Amount>,
    demand: Seq<Amount>,
    supply: Seq<Amount>,
    rate: Amount,
) -> Seq<Amount> {
    Seq::new(
        price.len(),
        |i: int|
            repriced(
                price[i],
                rate,
                pressure(demand[i], supply[i], Amount { micros: PRESSURE_LIMIT_MICROS }),
            ),
    )
}

/// Whatever the price, the rate and the pressure are, the price one step on is
/// not below the floor.
pub proof fn lemma_repriced_not_below_floor(price: Amount, rate: Amount, pressure: Amount)
    ensures
        repriced(price, rate, pressure).micros >= PRICE_FLOOR_MICROS,
{
}

/// Whatever was noted, no goods price is below the floor after a step.
pub proof fn lemma_adjusted_prices_not_below_floor(
    price: Seq<Amount>,
    demand: Seq<Amount>,
    supply: Seq<Amount>,
    rate: Amount,
)
    ensures
        adjusted_prices(price, demand, supply, rate).len() == price.len(),
        none_below_floor(adjusted_prices(price, demand, supply, rate)),
{
}

/// Pressure never exceeds its limit either way, for a limit that is not
/// negative.
pub proof fn lemma_pressure_within_limit(demand: Amount, supply: Amount, limit: Amount)
    requires
        limit.micros >= 0,
    ensures
        -limit.micros <= pressure(demand, supply, limit).micros <= limit.micros,
{
}

/// Computes the pressure of `demand` against `supply` within `limit`.
pub fn pressure_of(demand: Amount, supply: Amount, limit: Amount) -> (p: Amount)
    ensures
        p == pressure(demand, supply, limit),
{
    let total: i128 = demand.micros as i128 + supply.micros as i128;
    let raw = if total <= 0 {
        Amount::zero()
    } else {
        let excess: i128 = demand.micros as i128 - supply.micros as i128;
        assert(-0x10_0000_0000_0000_0000_0000 <= excess * (MICROS_PER_UNIT as i128)
            <= 0x10_0000_0000_0000_0000_0000) by (nonlinear_arith)
            requires
                -0x1_0000_0000_0000_0000 <= excess <= 0x1_0000_0000_0000_0000,
                0 <= MICROS_PER_UNIT as i128 <= 0x10_0000,
        ;
        let scaled: i128 = excess * MICROS_PER_UNIT as i128;
        Amount { micros: narrow(wide_div_toward_zero(scaled, total)) }
    };
    raw.clamped(limit.saturating_neg(), limit)
}

/// Computes the price one step on.
pub fn reprice(price: Amount, rate: Amount, pressure: Amount) -> (next: Amount)
    ensures
        next == repriced(price, rate, pressure),
        next.micros >= PRICE_FLOOR_MICROS,
{
    let factor = Amount::from_micros(MICROS_PER_UNIT).saturating_add(rate.saturating_mul(pressure));
    price.saturating_mul(factor).at_least(Amount::from_micros(PRICE_FLOOR_MICROS))
}

/// Price, demand and supply per good, by good id.
#[derive(Debug, Clone)]
pub struct Market {
    pub price: Vec<Amount>,
    /// What was asked for during the current tick.
    pub demand: Vec<Amount>,
    /// What was offered during the current tick.
    pub supply: Vec<Amount>,
    pub adjustment_rate: Amount,
}

impl Market {
    /// The three vectors have a slot for the same goods, no price is below
    /// the floor, and neither demand nor supply is negative anywhere.
    pub open spec fn wf(&self) -> bool {
        &&& self.demand@.len() == self.price@.len()
        &&& self.supply@.len() == self.price@.len()
        &&& none_below_floor(self.price@)
        &&& none_negative(self.demand@)
        &&& none_negative(self.supply@)
    }

    /// A market that opens at the goods' base prices, with nothing noted.
    pub fn new(s: &Structure) -> (market: Market)
        requires
            s.wf(),
        ensures
            market.wf(),
            market.price@ == opening_prices(s.goods@),
            market.demand@ == zeros(s.goods@.len()),
            market.supply@ == zeros(s.goods@.len()),
            market.adjustment_rate.micros == ADJUSTMENT_RATE_MICROS,
    {
        let n = s.goods.len();
        let mut price = zero_vec(n);
        let mut i: usize = 0;
        while i < n
            invariant
                s.wf(),
                n == s.goods@.len(),
                i <= n,
                price@.len() == n,
                forall|k: int| 0 <= k < i ==> price@[k] == opening_prices(s.goods@)[k],
            decreases n - i,
        {
            let g = &s.goods[i];
            assert(s.good_wf(i as int));
            price.set(
                g.id.0 as usize,
                g.base_price.at_least(Amount::from_micros(PRICE_FLOOR_MICROS)),
            );
            i = i + 1;
        }
        assert(price@ =~= opening_prices(s.goods@));
        Market {
            price,
            demand: zero_vec(n),
            supply: zero_vec(n),
            adjustment_rate: Amount::from_micros(ADJUSTMENT_RATE_MICROS),
        }
    }

    /// Forgets what was noted: demand and supply start the tick at nothing.
    pub fn reset_pressures(&mut self)
        requires
            old(self).wf(),
        ensures
            final(self).wf(),
            final(self).price@ == old(self).price@,
            final(self).demand@ == zeros(old(self).price@.len()),
            final(self).supply@ == zeros(old(self).price@.len()),
            final(self).adjustment_rate == old(self).adjustment_rate,
    {
        let n = self.price.len();
        self.demand = zero_vec(n);
        self.supply = zero_vec(n);
    }

    /// Notes that `amount` of `g` was asked for; a negative amount counts as
    /// nothing.
    pub fn note_demand(&mut self, g: GoodId, amount: Amount)
        requires
            old(self).wf(),
            (g.0 as int) < old(self).price@.len(),
        ensures
            final(self).wf(),
            final(self).price@ == old(self).price@,
            final(self).demand@ == old(self).demand@.update(
                g.0 as int,
                accumulated(old(self).demand@[g.0 as int], amount),
            ),
            final(self).supply@ == old(self).supply@,
            final(self).adjustment_rate == old(self).adjustment_rate,
    {
        let noted = self.demand[g.0 as usize];
        self.demand.set(g.0 as usize, noted.saturating_add(amount.at_least(Amount::zero())));
    }

    /// Notes that `amount` of `g` was offered; a negative amount counts as
    /// nothing.
    pub fn note_supply(&mut self, g: GoodId, amount: Amount)
        requires
            old(self).wf(),
            (g.0 as int) < old(self).price@.len(),
        ensures
            final(self).wf(),
            final(self).price@ == old(self).price@,
            final(self).demand@ == old(self).demand@,
            final(self).supply@ == old(self).supply@.update(
                g.0 as int,
                accumulated(old(self).supply@[g.0 as int], amount),
            ),
            final(self).adjustment_rate == old(self).adjustment_rate,
    {
        let noted = self.supply[g.0 as usize];
        self.supply.set(g.0 as usize, noted.saturating_add(amount.at_least(Amount::zero())));
    }

    /// Moves every price one step by the pressure noted for its good. What was
    /// noted stays until the next reset.
    pub fn adjust_prices(&mut self)
        requires
            old(self).wf(),
        ensures
            final(self).wf(),
            final(self).price@ == adjusted_prices(
                old(self).price@,
                old(self).demand@,
                old(self).supply@,
                old(self).adjustment_rate,
            ),
            final(self).demand@ == old(self).demand@,
            final(self).supply@ == old(self).supply@,
            final(self).adjustment_rate == old(self).adjustment_rate,
    {
        let n = self.price.len();
        let mut i: usize = 0;
        while i < n
            invariant
                i <= n,
                n == old(self).price@.len(),
                self.price@.len() == n,
                self.demand@ == old(self).demand@,
                self.supply@ == old(self).supply@,
                self.adjustment_rate == old(self).adjustment_rate,
                old(self).wf(),
                forall|k: int|
                    0 <= k < i ==> self.price@[k] == adjusted_prices(
                        old(self).price@,
                        old(self).demand@,
                        old(self).supply@,
                        old(self).adjustment_rate,
                    )[k],
                forall|k: int| i <= k < n ==> self.price@[k] == old(self).price@[k],
                forall|k: int| 0 <= k < i ==> (#[trigger] self.price@[k]).micros >= PRICE_FLOOR_MICROS,
            decreases n - i,
        {
            let p = pressure_of(
                self.demand[i],
                self.supply[i],
                Amount::from_micros(PRESSURE_LIMIT_MICROS),
            );
            let next = reprice(self.price[i], self.adjustment_rate, p);
            self.price.set(i, next);
            i = i + 1;
        }
        assert(self.price@ =~= adjusted_prices(
            old(self).price@,
            old(self).demand@,
            old(self).supply@,
            old(self).adjustment_rate,
        ));
    }
}

} // verus!
