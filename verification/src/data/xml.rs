//! The catalogue as it is written down: records that name each other by
//! string keys.

use crate::amount::Amount;
use vstd::prelude::*;

verus! {

/// The table of goods.
#[derive(Debug, Clone)]
pub struct GoodsXml {
    pub goods: Vec<GoodXml>,
}

/// A good as written, under its key.
#[derive(Debug, Clone)]
pub struct GoodXml {
    pub id: String,
    pub display_name: String,
    pub base_price: Amount,
    pub decay_rate: Amount,
    pub stackable: bool,
}

/// The table of needs.
#[derive(Debug, Clone)]
pub struct NeedsXml {
    pub needs: Vec<NeedXml>,
}

/// A need as written: it names its good by key.
#[derive(Debug, Clone)]
pub struct NeedXml {
    pub id: String,
    pub good_ref: String,
    pub amount: Amount,
    pub interval_ticks: u64,
    pub priority: i32,
}

/// The table of household types.
#[derive(Debug, Clone)]
pub struct HouseholdTypesXml {
    pub types: Vec<HouseholdTypeXml>,
}

/// A household type as written: it names goods, stocks and needs by key.
#[derive(Debug, Clone)]
pub struct HouseholdTypeXml {
    pub id: String,
    pub display_name: String,
    pub starting_cash: Amount,
    pub starting_inventory: StartingInventoryXml,
    pub starting_portfolio: StartingPortfolioXml,
    pub needs: HouseholdNeedsXml,
    pub income_per_tick: Amount,
}

/// What a household type starts with in goods.
#[derive(Debug, Clone, Default)]
pub struct StartingInventoryXml {
    pub items: Vec<InventoryItemXml>,
}

/// What a household type starts with in stocks.
#[derive(Debug, Clone, Default)]
pub struct StartingPortfolioXml {
    pub items: Vec<PortfolioItemXml>,
}

/// A quantity of a good that is named by key.
#[derive(Debug, Clone)]
pub struct InventoryItemXml {
    pub good_ref: String,
    pub qty: Amount,
}

/// A quantity of a stock that is named by key.
#[derive(Debug, Clone)]
pub struct PortfolioItemXml {
    pub stock_ref: String,
    pub qty: Amount,
}

/// The needs of a household type, by key.
#[derive(Debug, Clone, Default)]
pub struct HouseholdNeedsXml {
    pub need_refs: Vec<String>,
}

/// The table of production rules.
#[derive(Debug, Clone)]
pub struct ProductionRulesXml {
    pub rules: Vec<ProductionRuleXml>,
}

/// A production rule as written: it names goods by key.
#[derive(Debug, Clone)]
pub struct ProductionRuleXml {
    pub id: String,
    pub display_name: String,
    pub ticks: u64,
    pub inputs: RuleIOXml,
    pub outputs: RuleIOXml,
}

/// What a production rule takes or gives.
#[derive(Debug, Clone, Default)]
pub struct RuleIOXml {
    pub items: Vec<InventoryItemXml>,
}

/// The table of stocks.
#[derive(Debug, Clone)]
pub struct StocksXml {
    pub stocks: Vec<StockXml>,
}

/// A stock as written, under its key.
#[derive(Debug, Clone)]
pub struct StockXml {
    pub id: String,
    pub display_name: String,
    pub base_price: Amount,
    pub volatility: Amount,
    pub shares_outstanding: u64,
}

/// Everything that was read, table by table.
#[derive(Debug, Clone)]
pub struct RawXml {
    pub goods: GoodsXml,
    pub needs: NeedsXml,
    pub household_types: HouseholdTypesXml,
    pub production: ProductionRulesXml,
    pub stocks: StocksXml,
}

/// The key of each good, by position.
pub open spec fn good_keys(recs: Seq<GoodXml>) -> Seq<Seq<char>> {
    Seq::new(recs.len(), |i: int| recs[i].id@)
}

/// The key of each need, by position.
pub open spec fn need_keys(recs: Seq<NeedXml>) -> Seq<Seq<char>> {
    Seq::new(recs.len(), |i: int| recs[i].id@)
}

/// The key of each household type, by position.
pub open spec fn household_type_keys(recs: Seq<HouseholdTypeXml>) -> Seq<Seq<char>> {
    Seq::new(recs.len(), |i: int| recs[i].id@)
}

/// The key of each production rule, by position.
pub open spec fn rule_keys(recs: Seq<ProductionRuleXml>) -> Seq<Seq<char>> {
    Seq::new(recs.len(), |i: int| recs[i].id@)
}

/// The key of each stock, by position.
pub open spec fn stock_keys(recs: Seq<StockXml>) -> Seq<Seq<char>> {
    Seq::new(recs.len(), |i: int| recs[i].id@)
}

/// The good that each item names, by position.
pub open spec fn good_refs(items: Seq<InventoryItemXml>) -> Seq<Seq<char>> {
    Seq::new(items.len(), |i: int| items[i].good_ref@)
}

/// The stock that each item names, by position.
pub open spec fn stock_refs(items: Seq<PortfolioItemXml>) -> Seq<Seq<char>> {
    Seq::new(items.len(), |i: int| items[i].stock_ref@)
}

/// Each reference as a sequence of characters, by position.
pub open spec fn need_refs(refs: Seq<String>) -> Seq<Seq<char>> {
    Seq::new(refs.len(), |i: int| refs[i]@)
}

} // verus!
