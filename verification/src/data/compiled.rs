//! The catalogue: goods, needs, household archetypes, production rules and
//! stocks, each record standing at the index that is its id.

use crate::amount::Amount;
use crate::data::ids::{GoodId, HouseholdTypeId, Interner, NeedId, RuleId, StockId};
use vstd::prelude::*;

verus! {

/// A good that households hold and the goods market prices.
#[derive(Debug, Clone)]
pub struct GoodDef {
    pub id: GoodId,
    pub display_name: String,
    pub base_price: Amount,
    /// The fraction of a holding that is lost each tick.
    pub decay_rate: Amount,
    pub stackable: bool,
}

/// A recurring requirement for a quantity of one good.
#[derive(Debug, Clone)]
pub struct NeedDef {
    pub id: NeedId,
    pub good: GoodId,
    pub amount: Amount,
    /// Ticks between two due dates.
    pub interval_ticks: u64,
    /// Lower values are served first.
    pub priority: i32,
}

/// An archetype from which households are made.
#[derive(Debug, Clone)]
pub struct HouseholdTypeDef {
    pub id: HouseholdTypeId,
    pub display_name: String,
    pub starting_cash: Amount,
    pub starting_inventory: Vec<(GoodId, Amount)>,
    pub starting_portfolio: Vec<(StockId, Amount)>,
    pub needs: Vec<NeedId>,
    pub income_per_tick: Amount,
}

/// A rule that turns goods into other goods over a number of ticks.
#[derive(Debug, Clone)]
pub struct ProductionRuleDef {
    pub id: RuleId,
    pub display_name: String,
    pub ticks: u64,
    pub inputs: Vec<(GoodId, Amount)>,
    pub outputs: Vec<(GoodId, Amount)>,
}

/// A stock that households hold and the stock market prices.
#[derive(Debug, Clone)]
pub struct StockDef {
    pub id: StockId,
    pub display_name: String,
    pub base_price: Amount,
    /// How strongly the price follows pressure, between nothing and one.
    pub volatility: Amount,
    pub shares_outstanding: u64,
}

/// The whole catalogue, with the interners that gave its records their ids.
#[derive(Clone)]
pub struct Structure {
    pub goods: Vec<GoodDef>,
    pub needs: Vec<NeedDef>,
    pub household_types: Vec<HouseholdTypeDef>,
    pub production_rules: Vec<ProductionRuleDef>,
    pub stocks: Vec<StockDef>,
    pub good_ids: Interner,
    pub need_ids: Interner,
    pub household_type_ids: Interner,
    pub rule_ids: Interner,
    pub stock_ids: Interner,
}

/// Every good named in `items` is one of the first `goods` goods.
pub open spec fn goods_in_range(items: Seq<(GoodId, Amount)>, goods: int) -> bool {
    forall|k: int| 0 <= k < items.len() ==> (#[trigger] items[k]).0.0 < goods
}

/// Every stock named in `items` is one of the first `stocks` stocks.
pub open spec fn stocks_in_range(items: Seq<(StockId, Amount)>, stocks: int) -> bool {
    forall|k: int| 0 <= k < items.len() ==> (#[trigger] items[k]).0.0 < stocks
}

/// Every need named in `refs` is one of the first `needs` needs.
pub open spec fn needs_in_range(refs: Seq<NeedId>, needs: int) -> bool {
    forall|k: int| 0 <= k < refs.len() ==> (#[trigger] refs[k]).0 < needs
}

impl Structure {
    /// The good at index `i` carries the id `i`.
    pub open spec fn good_wf(&self, i: int) -> bool {
        self.goods@[i].id.0 == i
    }

    /// The need at index `i` carries the id `i` and names a good that exists.
    pub open spec fn need_wf(&self, i: int) -> bool {
        &&& self.needs@[i].id.0 == i
        &&& self.needs@[i].good.0 < self.goods@.len()
    }

    /// The archetype at index `i` carries the id `i`, and what it starts with
    /// and what it needs exist.
    pub open spec fn household_type_wf(&self, i: int) -> bool {
        &&& self.household_types@[i].id.0 == i
        &&& goods_in_range(self.household_types@[i].starting_inventory@, self.goods@.len() as int)
        &&& stocks_in_range(
            self.household_types@[i].starting_portfolio@,
            self.stocks@.len() as int,
        )
        &&& needs_in_range(self.household_types@[i].needs@, self.needs@.len() as int)
    }

    /// The rule at index `i` carries the id `i`, and what it takes and gives
    /// exists.
    pub open spec fn rule_wf(&self, i: int) -> bool {
        &&& self.production_rules@[i].id.0 == i
        &&& goods_in_range(self.production_rules@[i].inputs@, self.goods@.len() as int)
        &&& goods_in_range(self.production_rules@[i].outputs@, self.goods@.len() as int)
    }

    /// The stock at index `i` carries the id `i`.
    pub open spec fn stock_wf(&self, i: int) -> bool {
        self.stocks@[i].id.0 == i
    }

    /// Ids are dense and every reference from one record to another is in
    /// bounds.
    pub open spec fn wf(&self) -> bool {
        &&& forall|i: int| 0 <= i < self.goods@.len() ==> #[trigger] self.good_wf(i)
        &&& forall|i: int| 0 <= i < self.needs@.len() ==> #[trigger] self.need_wf(i)
        &&& forall|i: int|
            0 <= i < self.household_types@.len() ==> #[trigger] self.household_type_wf(i)
        &&& forall|i: int| 0 <= i < self.production_rules@.len() ==> #[trigger] self.rule_wf(i)
        &&& forall|i: int| 0 <= i < self.stocks@.len() ==> #[trigger] self.stock_wf(i)
    }

    /// The display name of a good.
    pub fn good_name(&self, id: GoodId) -> (name: &str)
        requires
            (id.0 as int) < self.goods@.len(),
        ensures
            name@ == self.goods@[id.0 as int].display_name@,
    {
        self.goods[id.0 as usize].display_name.as_str()
    }
}

fn all_goods_in_range(items: &Vec<(GoodId, Amount)>, goods: usize) -> (ok: bool)
    ensures
        ok == goods_in_range(items@, goods as int),
{
    let mut k: usize = 0;
    while k < items.len()
        invariant
            k <= items@.len(),
            forall|j: int| 0 <= j < k ==> (#[trigger] items@[j]).0.0 < goods,
        decreases items@.len() - k,
    {
        if items[k].0.0 as usize >= goods {
            return false;
        }
        k = k + 1;
    }
    true
}

fn all_stocks_in_range(items: &Vec<(StockId, Amount)>, stocks: usize) -> (ok: bool)
    ensures
        ok == stocks_in_range(items@, stocks as int),
{
    let mut k: usize = 0;
    while k < items.len()
        invariant
            k <= items@.len(),
            forall|j: int| 0 <= j < k ==> (#[trigger] items@[j]).0.0 < stocks,
        decreases items@.len() - k,
    {
        if items[k].0.0 as usize >= stocks {
            return false;
        }
        k = k + 1;
    }
    true
}

fn all_needs_in_range(refs: &Vec<NeedId>, needs: usize) -> (ok: bool)
    ensures
        ok == needs_in_range(refs@, needs as int),
{
    let mut k: usize = 0;
    while k < refs.len()
        invariant
            k <= refs@.len(),
            forall|j: int| 0 <= j < k ==> (#[trigger] refs@[j]).0 < needs,
        decreases refs@.len() - k,
    {
        if refs[k].0 as usize >= needs {
            return false;
        }
        k = k + 1;
    }
    true
}

impl Structure {
    fn goods_well_formed(&self) -> (ok: bool)
        ensures
            ok == (forall|i: int| 0 <= i < self.goods@.len() ==> #[trigger] self.good_wf(i)),
    {
        let mut i: usize = 0;
        while i < self.goods.len()
            invariant
                i <= self.goods@.len(),
                forall|j: int| 0 <= j < i ==> #[trigger] self.good_wf(j),
            decreases self.goods@.len() - i,
        {
            if self.goods[i].id.0 as usize != i {
                assert(!self.good_wf(i as int));
                return false;
            }
            i = i + 1;
        }
        true
    }

    fn needs_well_formed(&self) -> (ok: bool)
        ensures
            ok == (forall|i: int| 0 <= i < self.needs@.len() ==> #[trigger] self.need_wf(i)),
    {
        let mut i: usize = 0;
        while i < self.needs.len()
            invariant
                i <= self.needs@.len(),
                forall|j: int| 0 <= j < i ==> #[trigger] self.need_wf(j),
            decreases self.needs@.len() - i,
        {
            let nd = &self.needs[i];
            if nd.id.0 as usize != i || nd.good.0 as usize >= self.goods.len() {
                assert(!self.need_wf(i as int));
                return false;
            }
            i = i + 1;
        }
        true
    }

    fn household_types_well_formed(&self) -> (ok: bool)
        ensures
            ok == (forall|i: int|
                0 <= i < self.household_types@.len() ==> #[trigger] self.household_type_wf(i)),
    {
        let mut i: usize = 0;
        while i < self.household_types.len()
            invariant
                i <= self.household_types@.len(),
                forall|j: int| 0 <= j < i ==> #[trigger] self.household_type_wf(j),
            decreases self.household_types@.len() - i,
        {
            let td = &self.household_types[i];
            if td.id.0 as usize != i || !all_goods_in_range(
                &td.starting_inventory,
                self.goods.len(),
            ) || !all_stocks_in_range(&td.starting_portfolio, self.stocks.len())
                || !all_needs_in_range(&td.needs, self.needs.len()) {
                assert(!self.household_type_wf(i as int));
                return false;
            }
            i = i + 1;
        }
        true
    }

    fn rules_well_formed(&self) -> (ok: bool)
        ensures
            ok == (forall|i: int|
                0 <= i < self.production_rules@.len() ==> #[trigger] self.rule_wf(i)),
    {
        let mut i: usize = 0;
        while i < self.production_rules.len()
            invariant
                i <= self.production_rules@.len(),
                forall|j: int| 0 <= j < i ==> #[trigger] self.rule_wf(j),
            decreases self.production_rules@.len() - i,
        {
            let rd = &self.production_rules[i];
            if rd.id.0 as usize != i || !all_goods_in_range(&rd.inputs, self.goods.len())
                || !all_goods_in_range(&rd.outputs, self.goods.len()) {
                assert(!self.rule_wf(i as int));
                return false;
            }
            i = i + 1;
        }
        true
    }

    fn stocks_well_formed(&self) -> (ok: bool)
        ensures
            ok == (forall|i: int| 0 <= i < self.stocks@.len() ==> #[trigger] self.stock_wf(i)),
    {
        let mut i: usize = 0;
        while i < self.stocks.len()
            invariant
                i <= self.stocks@.len(),
                forall|j: int| 0 <= j < i ==> #[trigger] self.stock_wf(j),
            decreases self.stocks@.len() - i,
        {
            if self.stocks[i].id.0 as usize != i {
                assert(!self.stock_wf(i as int));
                return false;
            }
            i = i + 1;
        }
        true
    }

    /// Whether ids are dense and every reference is in bounds.
    pub fn is_well_formed(&self) -> (ok: bool)
        ensures
            ok == self.wf(),
    {
        self.goods_well_formed() && self.needs_well_formed() && self.household_types_well_formed()
            && self.rules_well_formed() && self.stocks_well_formed()
    }
}

} // verus!
