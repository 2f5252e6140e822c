//! The stock market: a price per stock that follows the pressure of buying
//! against selling, each stock by its own volatility.

use crate::amount::{none_negative, zero_vec, zeros, Amount, MICROS_PER_UNIT};
use crate::data::compiled::{StockDef, Structure};
use crate::data::ids::StockId;
use crate::simulation::market::{
    accumulated, none_below_floor, pressure, pressure_of, repriced, reprice, PRICE_FLOOR_MICROS,
};
use vstd::prelude::*;

verus! {

/// The stock market follows pressure up to four fifths either way, in
/// millionths.
pub const STOCK_PRESSURE_LIMIT_MICROS: i64 = 800_000;

/// The volatility that counts for a stock: what its record says, held between
/// nothing and one.
pub open spec fn effective_volatility(stock: StockDef) -> Amount {
    stock.volatility.clamped(Amount::zero(), Amount { micros: MICROS_PER_UNIT })
}

/// The opening price of each stock: its base price, or the floor where that is
/// higher.
pub open spec fn opening_stock_prices(stocks: Seq<StockDef>) -> Seq<Amount> {
    Seq::new(
        stocks.len(),
        |i: int| stocks[i].base_price.at_least(Amount { micros: PRICE_FLOOR_MICROS }),
    )
}

/// The stock prices one step on, each by its own pressure and volatility.
pub open spec fn adjusted_stock_prices(
    price: Seq<Amount>,
    demand: Seq<Amount>,
    supply: Seq<Amount>,
    stocks: Seq<StockDef>,
) -> Seq<Amount> {
    Seq::new(
        price.len(),
        |i: int|
            repriced(
                price[i],
                effective_volatility(stocks[i]),
                pressure(demand[i], supply[i], Amount { micros: STOCK_PRESSURE_LIMIT_MICROS }),
            ),
    )
}

/// Whatever was noted and whatever the volatilities are, no stock price is
/// below the floor after a step.
pub proof fn lemma_adjusted_stock_prices_not_below_floor(
    price: Seq<Amount>,
    demand: Seq<Amount>,
    supply: Seq<Amount>,
    stocks: Seq<StockDef>,
)
    ensures
        adjusted_stock_prices(price, demand, supply, stocks).len() == price.len(),
        none_below_floor(adjusted_stock_prices(price, demand, supply, stocks)),
{
}

/// Price, buying and selling per stock, by stock id.
#[derive(Debug, Clone)]
pub struct StockMarket {
    pub price: Vec<Amount>,
    /// What was bought during the current tick.
    pub demand: Vec<Amount>,
    /// What was sold during the current tick.
    pub supply: Vec<Amount>,
}

impl StockMarket {
    /// The three vectors have a slot for the same stocks, no price is below
    /// the floor, and neither buying nor selling is negative anywhere.
    pub open spec fn wf(&self) -> bool {
        &&& self.demand@.len() == self.price@.len()
        &&& self.supply@.len() == self.price@.len()
        &&& none_below_floor(self.price@)
        &&& none_negative(self.demand@)
        &&& none_negative(self.supply@)
    }

    /// A market that opens at the stocks' base prices, with nothing noted.
    pub fn new(s: &Structure) -> (market: StockMarket)
        requires
            s.wf(),
        ensures
            market.wf(),
            market.price@ == opening_stock_prices(s.stocks@),
            market.demand@ == zeros(s.stocks@.len()),
            market.supply@ == zeros(s.stocks@.len()),
    {
        let n = s.stocks.len();
        let mut price = zero_vec(n);
        let mut i: usize = 0;
        while i < n
            invariant
                s.wf(),
                n == s.stocks@.len(),
                i <= n,
                price@.len() == n,
                forall|k: int| 0 <= k < i ==> price@[k] == opening_stock_prices(s.stocks@)[k],
            decreases n - i,
        {
            let st = &s.stocks[i];
            assert(s.stock_wf(i as int));
            price.set(
                st.id.0 as usize,
                st.base_price.at_least(Amount::from_micros(PRICE_FLOOR_MICROS)),
            );
            i = i + 1;
        }
        assert(price@ =~= opening_stock_prices(s.stocks@));
        StockMarket { price, demand: zero_vec(n), supply: zero_vec(n) }
    }

    /// Forgets what was noted: buying and selling start at nothing.
    pub fn reset(&mut self)
        requires
            old(self).wf(),
        ensures
            final(self).wf(),
            final(self).price@ == old(self).price@,
            final(self).demand@ == zeros(old(self).price@.len()),
            final(self).supply@ == zeros(old(self).price@.len()),
    {
        let n = self.price.len();
        self.demand = zero_vec(n);
        self.supply = zero_vec(n);
    }

    /// Notes that `qty` of stock `id` was bought; a negative quantity counts
    /// as nothing.
    pub fn note_buy(&mut self, id: StockId, qty: Amount)
        requires
            old(self).wf(),
            (id.0 as int) < old(self).price@.len(),
        ensures
            final(self).wf(),
            final(self).price@ == old(self).price@,
            final(self).demand@ == old(self).demand@.update(
                id.0 as int,
                accumulated(old(self).demand@[id.0 as int], qty),
            ),
            final(self).supply@ == old(self).supply@,
    {
        let noted = self.demand[id.0 as usize];
        self.demand.set(id.0 as usize, noted.saturating_add(qty.at_least(Amount::zero())));
    }

    /// Notes that `qty` of stock `id` was sold; a negative quantity counts as
    /// nothing.
    pub fn note_sell(&mut self, id: StockId, qty: Amount)
        requires
            old(self).wf(),
            (id.0 as int) < old(self).price@.len(),
        ensures
            final(self).wf(),
            final(self).price@ == old(self).price@,
            final(self).demand@ == old(self).demand@,
            final(self).supply@ == old(self).supply@.update(
                id.0 as int,
                accumulated(old(self).supply@[id.0 as int], qty),
            ),
    {
        let noted = self.supply[id.0 as usize];
        self.supply.set(id.0 as usize, noted.saturating_add(qty.at_least(Amount::zero())));
    }

    /// Moves every price one step by the pressure noted for its stock, scaled
    /// by that stock's volatility. What was noted stays until the next reset.
    pub fn adjust(&mut self, s: &Structure)
        requires
            s.wf(),
            old(self).wf(),
            old(self).price@.len() == s.stocks@.len(),
        ensures
            final(self).wf(),
            final(self).price@ == adjusted_stock_prices(
                old(self).price@,
                old(self).demand@,
                old(self).supply@,
                s.stocks@,
            ),
            final(self).demand@ == old(self).demand@,
            final(self).supply@ == old(self).supply@,
    {
        let n = s.stocks.len();
        let mut k: usize = 0;
        while k < n
            invariant
                s.wf(),
                k <= n,
                n == s.stocks@.len(),
                n == old(self).price@.len(),
                self.price@.len() == n,
                self.demand@ == old(self).demand@,
                self.supply@ == old(self).supply@,
                old(self).wf(),
                forall|j: int|
                    0 <= j < k ==> self.price@[j] == adjusted_stock_prices(
                        old(self).price@,
                        old(self).demand@,
                        old(self).supply@,
                        s.stocks@,
                    )[j],
                forall|j: int| k <= j < n ==> self.price@[j] == old(self).price@[j],
                forall|j: int| 0 <= j < k ==> (#[trigger] self.price@[j]).micros >= PRICE_FLOOR_MICROS,
            decreases n - k,
        {
            let st = &s.stocks[k];
            assert(s.stock_wf(k as int));
            let i = st.id.0 as usize;
            let p = pressure_of(
                self.demand[i],
                self.supply[i],
                Amount::from_micros(STOCK_PRESSURE_LIMIT_MICROS),
            );
            let vol = st.volatility.clamped(Amount::zero(), Amount::from_micros(MICROS_PER_UNIT));
            let next = reprice(self.price[i], vol, p);
            self.price.set(i, next);
            k = k + 1;
        }
        assert(self.price@ =~= adjusted_stock_prices(
            old(self).price@,
            old(self).demand@,
            old(self).supply@,
            s.stocks@,
        ));
    }
}

} // verus!
