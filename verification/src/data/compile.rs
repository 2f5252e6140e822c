//! Compiling the written catalogue: every key gets a dense id, and every
//! reference by key becomes a reference by id.

use crate::amount::{Amount, MICROS_PER_UNIT};
use crate::data::compiled::{
    GoodDef, HouseholdTypeDef, NeedDef, ProductionRuleDef, StockDef, Structure,
};
use crate::data::ids::{
    first_unknown, interned, last_named, lemma_first_unknown_stays, lemma_interned,
    lemma_interned_names_are_distinct, refers, GoodId, HouseholdTypeId, Interner, NeedId, RuleId,
    StockId,
};
use crate::data::xml::{
    good_keys, good_refs, household_type_keys, need_keys, need_refs, rule_keys, stock_keys,
    stock_refs, GoodXml, HouseholdTypeXml, InventoryItemXml, NeedXml, PortfolioItemXml,
    ProductionRuleXml, RawXml, StockXml,
};
use vstd::prelude::*;
use vstd::string::StringExecFns;

verus! {

/// The references from one record to another that can point at nothing.
#[derive(Debug, Clone, Copy, PartialEq, Eq, Structural)]
pub enum ReferenceKind {
    /// The good of a need.
    NeedGood,
    /// A good in the starting inventory of a household type.
    HouseholdTypeGood,
    /// A stock in the starting portfolio of a household type.
    HouseholdTypeStock,
    /// A need of a household type.
    HouseholdTypeNeed,
    /// A good among the inputs of a production rule.
    RuleInputGood,
    /// A good among the outputs of a production rule.
    RuleOutputGood,
}

/// A reference to a key that no record carries.
#[derive(Debug, Clone)]
pub struct CompileError {
    pub kind: ReferenceKind,
    /// The key of the record that holds the reference.
    pub owner: String,
    /// The key that was referred to.
    pub target: String,
}

/// A `CompileError` as a value.
pub struct Fault {
    pub kind: ReferenceKind,
    pub owner: Seq<char>,
    pub target: Seq<char>,
}

impl View for CompileError {
    type V = Fault;

    open spec fn view(&self) -> Fault {
        Fault { kind: self.kind, owner: self.owner@, target: self.target@ }
    }
}

/// The words that stand before the owner in the message for a fault.
pub open spec fn message_head(kind: ReferenceKind) -> Seq<char> {
    match kind {
        ReferenceKind::NeedGood => "need "@,
        ReferenceKind::HouseholdTypeGood => "household_type "@,
        ReferenceKind::HouseholdTypeStock => "household_type "@,
        ReferenceKind::HouseholdTypeNeed => "household_type "@,
        ReferenceKind::RuleInputGood => "rule "@,
        ReferenceKind::RuleOutputGood => "rule "@,
    }
}

/// The words that stand between the owner and the target in the message for
/// a fault.
pub open spec fn message_link(kind: ReferenceKind) -> Seq<char> {
    match kind {
        ReferenceKind::NeedGood => " references unknown good "@,
        ReferenceKind::HouseholdTypeGood => " references unknown good "@,
        ReferenceKind::HouseholdTypeStock => " references unknown stock "@,
        ReferenceKind::HouseholdTypeNeed => " references unknown need "@,
        ReferenceKind::RuleInputGood => " input references unknown good "@,
        ReferenceKind::RuleOutputGood => " output references unknown good "@,
    }
}

impl CompileError {
    /// The fault in words.
    pub fn message(&self) -> (text: String)
        ensures
            text@ == message_head(self.kind) + self.owner@ + message_link(self.kind)
                + self.target@,
    {
        let head = match self.kind {
            ReferenceKind::NeedGood => "need ",
            ReferenceKind::HouseholdTypeGood => "household_type ",
            ReferenceKind::HouseholdTypeStock => "household_type ",
            ReferenceKind::HouseholdTypeNeed => "household_type ",
            ReferenceKind::RuleInputGood => "rule ",
            ReferenceKind::RuleOutputGood => "rule ",
        };
        let link = match self.kind {
            ReferenceKind::NeedGood => " references unknown good ",
            ReferenceKind::HouseholdTypeGood => " references unknown good ",
            ReferenceKind::HouseholdTypeStock => " references unknown stock ",
            ReferenceKind::HouseholdTypeNeed => " references unknown need ",
            ReferenceKind::RuleInputGood => " input references unknown good ",
            ReferenceKind::RuleOutputGood => " output references unknown good ",
        };
        let mut text = head.to_owned();
        text.append(self.owner.as_str());
        text.append(link);
        text.append(self.target.as_str());
        text
    }
}

/// `def` is what the good `rec` compiles to under the id `k`.
pub open spec fn good_compiled(def: GoodDef, rec: GoodXml, k: int) -> bool {
    &&& def.id.0 == k
    &&& def.display_name@ == rec.display_name@
    &&& def.base_price == rec.base_price
    &&& def.decay_rate == rec.decay_rate
    &&& def.stackable == rec.stackable
}

/// `def` is what the stock `rec` compiles to under the id `k`: its volatility
/// is held between nothing and one.
pub open spec fn stock_compiled(def: StockDef, rec: StockXml, k: int) -> bool {
    &&& def.id.0 == k
    &&& def.display_name@ == rec.display_name@
    &&& def.base_price == rec.base_price
    &&& def.volatility == rec.volatility.clamped(
        Amount::zero(),
        Amount { micros: MICROS_PER_UNIT },
    )
    &&& def.shares_outstanding == rec.shares_outstanding
}

/// `def` is what the need `rec` compiles to under the id `k`: its good is
/// resolved, and its interval is at least one tick.
pub open spec fn need_compiled(def: NeedDef, rec: NeedXml, k: int, goods: Seq<Seq<char>>) -> bool {
    &&& def.id.0 == k
    &&& refers(goods, def.good.0, rec.good_ref@)
    &&& def.amount == rec.amount
    &&& def.interval_ticks == (if rec.interval_ticks < 1 {
        1
    } else {
        rec.interval_ticks
    })
    &&& def.priority == rec.priority
}

/// `items` are the `recs` with each good resolved, in the same order.
pub open spec fn goods_resolved(
    items: Seq<(GoodId, Amount)>,
    recs: Seq<InventoryItemXml>,
    goods: Seq<Seq<char>>,
) -> bool {
    &&& items.len() == recs.len()
    &&& forall|j: int|
        0 <= j < items.len() ==> refers(goods, (#[trigger] items[j]).0.0, recs[j].good_ref@)
            && items[j].1 == recs[j].qty
}

/// `items` are the `recs` with each stock resolved, in the same order.
pub open spec fn stocks_resolved(
    items: Seq<(StockId, Amount)>,
    recs: Seq<PortfolioItemXml>,
    stocks: Seq<Seq<char>>,
) -> bool {
    &&& items.len() == recs.len()
    &&& forall|j: int|
        0 <= j < items.len() ==> refers(stocks, (#[trigger] items[j]).0.0, recs[j].stock_ref@)
            && items[j].1 == recs[j].qty
}

/// `items` are the `refs` resolved, in the same order.
pub open spec fn needs_resolved(items: Seq<NeedId>, refs: Seq<String>, needs: Seq<Seq<char>>) -> bool {
    &&& items.len() == refs.len()
    &&& forall|j: int| 0 <= j < items.len() ==> refers(needs, (#[trigger] items[j]).0, refs[j]@)
}

/// `def` is what the household type `rec` compiles to under the id `k`.
pub open spec fn household_type_compiled(
    def: HouseholdTypeDef,
    rec: HouseholdTypeXml,
    k: int,
    goods: Seq<Seq<char>>,
    stocks: Seq<Seq<char>>,
    needs: Seq<Seq<char>>,
) -> bool {
    &&& def.id.0 == k
    &&& def.display_name@ == rec.display_name@
    &&& def.starting_cash == rec.starting_cash
    &&& goods_resolved(def.starting_inventory@, rec.starting_inventory.items@, goods)
    &&& stocks_resolved(def.starting_portfolio@, rec.starting_portfolio.items@, stocks)
    &&& needs_resolved(def.needs@, rec.needs.need_refs@, needs)
    &&& def.income_per_tick == rec.income_per_tick
}

/// `def` is what the production rule `rec` compiles to under the id `k`: it
/// takes at least one tick.
pub open spec fn rule_compiled(
    def: ProductionRuleDef,
    rec: ProductionRuleXml,
    k: int,
    goods: Seq<Seq<char>>,
) -> bool {
    &&& def.id.0 == k
    &&& def.display_name@ == rec.display_name@
    &&& def.ticks == (if rec.ticks < 1 {
        1
    } else {
        rec.ticks
    })
    &&& goods_resolved(def.inputs@, rec.inputs.items@, goods)
    &&& goods_resolved(def.outputs@, rec.outputs.items@, goods)
}

/// The entry for the key `key` is what the last of the first `n` goods that
/// carries the key compiles to under the id `k`.
pub open spec fn good_entry(def: GoodDef, key: Seq<char>, recs: Seq<GoodXml>, n: nat, k: int) -> bool {
    let j = last_named(good_keys(recs), key, n);
    0 <= j && j < n && good_compiled(def, recs[j], k)
}

/// The table of goods after the first `n` records: one entry per key, at the
/// key's id, compiled from the last record that carries the key.
pub open spec fn goods_compiled(
    table: Seq<GoodDef>,
    ids: Seq<Seq<char>>,
    recs: Seq<GoodXml>,
    n: nat,
) -> bool {
    &&& table.len() == ids.len()
    &&& forall|k: int| 0 <= k < table.len() ==> #[trigger] good_entry(table[k], ids[k], recs, n, k)
}

/// As `good_entry`, for stocks.
pub open spec fn stock_entry(def: StockDef, key: Seq<char>, recs: Seq<StockXml>, n: nat, k: int) -> bool {
    let j = last_named(stock_keys(recs), key, n);
    0 <= j && j < n && stock_compiled(def, recs[j], k)
}

/// The table of stocks after the first `n` records, as for goods.
pub open spec fn stocks_compiled(
    table: Seq<StockDef>,
    ids: Seq<Seq<char>>,
    recs: Seq<StockXml>,
    n: nat,
) -> bool {
    &&& table.len() == ids.len()
    &&& forall|k: int|
        0 <= k < table.len() ==> #[trigger] stock_entry(table[k], ids[k], recs, n, k)
}

/// As `good_entry`, for needs.
pub open spec fn need_entry(
    def: NeedDef,
    key: Seq<char>,
    recs: Seq<NeedXml>,
    n: nat,
    k: int,
    goods: Seq<Seq<char>>,
) -> bool {
    let j = last_named(need_keys(recs), key, n);
    0 <= j && j < n && need_compiled(def, recs[j], k, goods)
}

/// The table of needs after the first `n` records, as for goods.
pub open spec fn needs_compiled(
    table: Seq<NeedDef>,
    ids: Seq<Seq<char>>,
    recs: Seq<NeedXml>,
    n: nat,
    goods: Seq<Seq<char>>,
) -> bool {
    &&& table.len() == ids.len()
    &&& forall|k: int|
        0 <= k < table.len() ==> #[trigger] need_entry(table[k], ids[k], recs, n, k, goods)
}

/// As `good_entry`, for household types.
pub open spec fn household_type_entry(
    def: HouseholdTypeDef,
    key: Seq<char>,
    recs: Seq<HouseholdTypeXml>,
    n: nat,
    k: int,
    goods: Seq<Seq<char>>,
    stocks: Seq<Seq<char>>,
    needs: Seq<Seq<char>>,
) -> bool {
    let j = last_named(household_type_keys(recs), key, n);
    0 <= j && j < n && household_type_compiled(def, recs[j], k, goods, stocks, needs)
}

/// The table of household types after the first `n` records, as for goods.
pub open spec fn household_types_compiled(
    table: Seq<HouseholdTypeDef>,
    ids: Seq<Seq<char>>,
    recs: Seq<HouseholdTypeXml>,
    n: nat,
    goods: Seq<Seq<char>>,
    stocks: Seq<Seq<char>>,
    needs: Seq<Seq<char>>,
) -> bool {
    &&& table.len() == ids.len()
    &&& forall|k: int|
        0 <= k < table.len() ==> #[trigger] household_type_entry(
            table[k],
            ids[k],
            recs,
            n,
            k,
            goods,
            stocks,
            needs,
        )
}

/// As `good_entry`, for production rules.
pub open spec fn rule_entry(
    def: ProductionRuleDef,
    key: Seq<char>,
    recs: Seq<ProductionRuleXml>,
    n: nat,
    k: int,
    goods: Seq<Seq<char>>,
) -> bool {
    let j = last_named(rule_keys(recs), key, n);
    0 <= j && j < n && rule_compiled(def, recs[j], k, goods)
}

/// The table of production rules after the first `n` records, as for goods.
pub open spec fn rules_compiled(
    table: Seq<ProductionRuleDef>,
    ids: Seq<Seq<char>>,
    recs: Seq<ProductionRuleXml>,
    n: nat,
    goods: Seq<Seq<char>>,
) -> bool {
    &&& table.len() == ids.len()
    &&& forall|k: int|
        0 <= k < table.len() ==> #[trigger] rule_entry(table[k], ids[k], recs, n, k, goods)
}

/// Compiles the goods.
fn compile_goods(recs: &Vec<GoodXml>) -> (out: (Vec<GoodDef>, Interner))
    requires
        recs@.len() <= u32::MAX,
    ensures
        out.1.wf(),
        out.1@ == interned(good_keys(recs@), recs@.len()),
        goods_compiled(out.0@, out.1@, recs@, recs@.len()),
{
    let mut ids = Interner::new();
    let mut table: Vec<GoodDef> = Vec::new();
    let ghost keys = good_keys(recs@);
    let mut i: usize = 0;
    while i < recs.len()
        invariant
            i <= recs@.len(),
            recs@.len() <= u32::MAX,
            keys == good_keys(recs@),
            ids.wf(),
            ids@ == interned(keys, i as nat),
            goods_compiled(table@, ids@, recs@, i as nat),
        decreases recs@.len() - i,
    {
        let rec = &recs[i];
        let ghost ids_before = ids;
        let ghost table_before = table@;
        proof {
            lemma_interned(keys, i as nat);
            assert(keys[i as int] == rec.id@);
        }
        let id = ids.intern(rec.id.as_str());
        let def = GoodDef {
            id: GoodId(id),
            display_name: rec.display_name.clone(),
            base_price: rec.base_price,
            decay_rate: rec.decay_rate,
            stackable: rec.stackable,
        };
        if id as usize == table.len() {
            table.push(def);
        } else {
            table.set(id as usize, def);
        }
        proof {
            assert forall|k: int| 0 <= k < table@.len() implies #[trigger] good_entry(
                table@[k],
                ids@[k],
                recs@,
                (i + 1) as nat,
                k,
            ) by {
                if k != id {
                    if ids@[k] == ids@[id as int] {
                        lemma_interned_names_are_distinct(ids, k, id as int);
                    }
                    assert(ids@[k] == ids_before@[k]);
                    assert(table@[k] == table_before[k]);
                    assert(good_entry(table_before[k], ids_before@[k], recs@, i as nat, k));
                }
            }
            assert(table@.len() == ids@.len());
            assert(goods_compiled(table@, ids@, recs@, (i + 1) as nat));
        }
        i = i + 1;
    }
    (table, ids)
}

/// Compiles the stocks.
fn compile_stocks(recs: &Vec<StockXml>) -> (out: (Vec<StockDef>, Interner))
    requires
        recs@.len() <= u32::MAX,
    ensures
        out.1.wf(),
        out.1@ == interned(stock_keys(recs@), recs@.len()),
        stocks_compiled(out.0@, out.1@, recs@, recs@.len()),
{
    let mut ids = Interner::new();
    let mut table: Vec<StockDef> = Vec::new();
    let ghost keys = stock_keys(recs@);
    let mut i: usize = 0;
    while i < recs.len()
        invariant
            i <= recs@.len(),
            recs@.len() <= u32::MAX,
            keys == stock_keys(recs@),
            ids.wf(),
            ids@ == interned(keys, i as nat),
            stocks_compiled(table@, ids@, recs@, i as nat),
        decreases recs@.len() - i,
    {
        let rec = &recs[i];
        let ghost ids_before = ids;
        let ghost table_before = table@;
        proof {
            lemma_interned(keys, i as nat);
            assert(keys[i as int] == rec.id@);
        }
        let id = ids.intern(rec.id.as_str());
        let def = StockDef {
            id: StockId(id),
            display_name: rec.display_name.clone(),
            base_price: rec.base_price,
            volatility: rec.volatility.clamped(
                Amount::zero(),
                Amount::from_micros(MICROS_PER_UNIT),
            ),
            shares_outstanding: rec.shares_outstanding,
        };
        if id as usize == table.len() {
            table.push(def);
        } else {
            table.set(id as usize, def);
        }
        proof {
            assert forall|k: int| 0 <= k < table@.len() implies #[trigger] stock_entry(
                table@[k],
                ids@[k],
                recs@,
                (i + 1) as nat,
                k,
            ) by {
                if k != id {
                    if ids@[k] == ids@[id as int] {
                        lemma_interned_names_are_distinct(ids, k, id as int);
                    }
                    assert(ids@[k] == ids_before@[k]);
                    assert(table@[k] == table_before[k]);
                    assert(stock_entry(table_before[k], ids_before@[k], recs@, i as nat, k));
                }
            }
            assert(table@.len() == ids@.len());
            assert(stocks_compiled(table@, ids@, recs@, (i + 1) as nat));
        }
        i = i + 1;
    }
    (table, ids)
}

/// Resolves the goods that `items` name, or finds the first that is unknown.
fn resolve_goods(items: &Vec<InventoryItemXml>, goods: &Interner) -> (r: Result<
    Vec<(GoodId, Amount)>,
    usize,
>)
    requires
        goods.wf(),
    ensures
        match r {
            Ok(list) => first_unknown(good_refs(items@), goods@, items@.len()) == -1
                && goods_resolved(list@, items@, goods@),
            Err(j) => j < items@.len() && first_unknown(good_refs(items@), goods@, items@.len())
                == j,
        },
{
    let mut list: Vec<(GoodId, Amount)> = Vec::new();
    let ghost refs = good_refs(items@);
    let mut j: usize = 0;
    while j < items.len()
        invariant
            goods.wf(),
            j <= items@.len(),
            refs == good_refs(items@),
            first_unknown(refs, goods@, j as nat) == -1,
            goods_resolved(list@, items@.subrange(0, j as int), goods@),
        decreases items@.len() - j,
    {
        let item = &items[j];
        assert(refs[j as int] == item.good_ref@);
        match goods.lookup(item.good_ref.as_str()) {
            Some(id) => {
                list.push((GoodId(id), item.qty));
            },
            None => {
                proof {
                    lemma_first_unknown_stays(refs, goods@, (j + 1) as nat, items@.len());
                }
                return Err(j);
            },
        }
        j = j + 1;
    }
    assert(items@.subrange(0, j as int) =~= items@);
    Ok(list)
}

/// Resolves the stocks that `items` name, or finds the first that is unknown.
fn resolve_stocks(items: &Vec<PortfolioItemXml>, stocks: &Interner) -> (r: Result<
    Vec<(StockId, Amount)>,
    usize,
>)
    requires
        stocks.wf(),
    ensures
        match r {
            Ok(list) => first_unknown(stock_refs(items@), stocks@, items@.len()) == -1
                && stocks_resolved(list@, items@, stocks@),
            Err(j) => j < items@.len() && first_unknown(
                stock_refs(items@),
                stocks@,
                items@.len(),
            ) == j,
        },
{
    let mut list: Vec<(StockId, Amount)> = Vec::new();
    let ghost refs = stock_refs(items@);
    let mut j: usize = 0;
    while j < items.len()
        invariant
            stocks.wf(),
            j <= items@.len(),
            refs == stock_refs(items@),
            first_unknown(refs, stocks@, j as nat) == -1,
            stocks_resolved(list@, items@.subrange(0, j as int), stocks@),
        decreases items@.len() - j,
    {
        let item = &items[j];
        assert(refs[j as int] == item.stock_ref@);
        match stocks.lookup(item.stock_ref.as_str()) {
            Some(id) => {
                list.push((StockId(id), item.qty));
            },
            None => {
                proof {
                    lemma_first_unknown_stays(refs, stocks@, (j + 1) as nat, items@.len());
                }
                return Err(j);
            },
        }
        j = j + 1;
    }
    assert(items@.subrange(0, j as int) =~= items@);
    Ok(list)
}

/// Resolves the needs that `refs` name, or finds the first that is unknown.
fn resolve_needs(refs: &Vec<String>, needs: &Interner) -> (r: Result<Vec<NeedId>, usize>)
    requires
        needs.wf(),
    ensures
        match r {
            Ok(list) => first_unknown(need_refs(refs@), needs@, refs@.len()) == -1
                && needs_resolved(list@, refs@, needs@),
            Err(j) => j < refs@.len() && first_unknown(need_refs(refs@), needs@, refs@.len())
                == j,
        },
{
    let mut list: Vec<NeedId> = Vec::new();
    let ghost names = need_refs(refs@);
    let mut j: usize = 0;
    while j < refs.len()
        invariant
            needs.wf(),
            j <= refs@.len(),
            names == need_refs(refs@),
            first_unknown(names, needs@, j as nat) == -1,
            needs_resolved(list@, refs@.subrange(0, j as int), needs@),
        decreases refs@.len() - j,
    {
        let name = &refs[j];
        assert(names[j as int] == name@);
        match needs.lookup(name.as_str()) {
            Some(id) => {
                list.push(NeedId(id));
            },
            None => {
                proof {
                    lemma_first_unknown_stays(names, needs@, (j + 1) as nat, refs@.len());
                }
                return Err(j);
            },
        }
        j = j + 1;
    }
    assert(refs@.subrange(0, j as int) =~= refs@);
    Ok(list)
}

/// What is wrong with the need `rec`, if anything: its good is unknown.
pub open spec fn need_fault(rec: NeedXml, goods: Seq<Seq<char>>) -> Option<Fault> {
    if goods.contains(rec.good_ref@) {
        None
    } else {
        Some(Fault { kind: ReferenceKind::NeedGood, owner: rec.id@, target: rec.good_ref@ })
    }
}

/// What is wrong with the household type `rec`, if anything: the first
/// unknown good of its starting inventory, else the first unknown stock of
/// its starting portfolio, else the first unknown need.
pub open spec fn household_type_fault(
    rec: HouseholdTypeXml,
    goods: Seq<Seq<char>>,
    stocks: Seq<Seq<char>>,
    needs: Seq<Seq<char>>,
) -> Option<Fault> {
    let inventory = good_refs(rec.starting_inventory.items@);
    let portfolio = stock_refs(rec.starting_portfolio.items@);
    let wanted = need_refs(rec.needs.need_refs@);
    let g = first_unknown(inventory, goods, inventory.len());
    let s = first_unknown(portfolio, stocks, portfolio.len());
    let n = first_unknown(wanted, needs, wanted.len());
    if g >= 0 {
        Some(Fault { kind: ReferenceKind::HouseholdTypeGood, owner: rec.id@, target: inventory[g] })
    } else if s >= 0 {
        Some(
            Fault { kind: ReferenceKind::HouseholdTypeStock, owner: rec.id@, target: portfolio[s] },
        )
    } else if n >= 0 {
        Some(Fault { kind: ReferenceKind::HouseholdTypeNeed, owner: rec.id@, target: wanted[n] })
    } else {
        None
    }
}

/// What is wrong with the production rule `rec`, if anything: the first
/// unknown good among its inputs, else the first among its outputs.
pub open spec fn rule_fault(rec: ProductionRuleXml, goods: Seq<Seq<char>>) -> Option<Fault> {
    let inputs = good_refs(rec.inputs.items@);
    let outputs = good_refs(rec.outputs.items@);
    let i = first_unknown(inputs, goods, inputs.len());
    let o = first_unknown(outputs, goods, outputs.len());
    if i >= 0 {
        Some(Fault { kind: ReferenceKind::RuleInputGood, owner: rec.id@, target: inputs[i] })
    } else if o >= 0 {
        Some(Fault { kind: ReferenceKind::RuleOutputGood, owner: rec.id@, target: outputs[o] })
    } else {
        None
    }
}

/// The fault of the first of the first `n` needs that has one.
pub open spec fn first_need_fault(recs: Seq<NeedXml>, goods: Seq<Seq<char>>, n: nat) -> Option<
    Fault,
>
    decreases n,
{
    if n == 0 {
        None
    } else {
        match first_need_fault(recs, goods, (n - 1) as nat) {
            Some(fault) => Some(fault),
            None => need_fault(recs[n - 1], goods),
        }
    }
}

/// The fault of the first of the first `n` household types that has one.
pub open spec fn first_household_type_fault(
    recs: Seq<HouseholdTypeXml>,
    goods: Seq<Seq<char>>,
    stocks: Seq<Seq<char>>,
    needs: Seq<Seq<char>>,
    n: nat,
) -> Option<Fault>
    decreases n,
{
    if n == 0 {
        None
    } else {
        match first_household_type_fault(recs, goods, stocks, needs, (n - 1) as nat) {
            Some(fault) => Some(fault),
            None => household_type_fault(recs[n - 1], goods, stocks, needs),
        }
    }
}

/// The fault of the first of the first `n` production rules that has one.
pub open spec fn first_rule_fault(
    recs: Seq<ProductionRuleXml>,
    goods: Seq<Seq<char>>,
    n: nat,
) -> Option<Fault>
    decreases n,
{
    if n == 0 {
        None
    } else {
        match first_rule_fault(recs, goods, (n - 1) as nat) {
            Some(fault) => Some(fault),
            None => rule_fault(recs[n - 1], goods),
        }
    }
}

/// The keys of the goods of `raw`, by id.
pub open spec fn good_ids_of(raw: RawXml) -> Seq<Seq<char>> {
    interned(good_keys(raw.goods.goods@), raw.goods.goods@.len())
}

/// The keys of the stocks of `raw`, by id.
pub open spec fn stock_ids_of(raw: RawXml) -> Seq<Seq<char>> {
    interned(stock_keys(raw.stocks.stocks@), raw.stocks.stocks@.len())
}

/// The keys of the needs of `raw`, by id.
pub open spec fn need_ids_of(raw: RawXml) -> Seq<Seq<char>> {
    interned(need_keys(raw.needs.needs@), raw.needs.needs@.len())
}

/// The keys of the household types of `raw`, by id.
pub open spec fn household_type_ids_of(raw: RawXml) -> Seq<Seq<char>> {
    interned(
        household_type_keys(raw.household_types.types@),
        raw.household_types.types@.len(),
    )
}

/// The keys of the production rules of `raw`, by id.
pub open spec fn rule_ids_of(raw: RawXml) -> Seq<Seq<char>> {
    interned(rule_keys(raw.production.rules@), raw.production.rules@.len())
}

/// The fault on which compiling `raw` fails, if there is one: the first among
/// the needs, else the first among the household types, else the first among
/// the production rules.
pub open spec fn compile_fault(raw: RawXml) -> Option<Fault> {
    match first_need_fault(raw.needs.needs@, good_ids_of(raw), raw.needs.needs@.len()) {
        Some(fault) => Some(fault),
        None => match first_household_type_fault(
            raw.household_types.types@,
            good_ids_of(raw),
            stock_ids_of(raw),
            need_ids_of(raw),
            raw.household_types.types@.len(),
        ) {
            Some(fault) => Some(fault),
            None => first_rule_fault(
                raw.production.rules@,
                good_ids_of(raw),
                raw.production.rules@.len(),
            ),
        },
    }
}

/// `s` is what `raw` compiles to: each interner holds the keys of its table
/// in the order of first occurrence, and each table holds, at each key's id,
/// what the last record with that key compiles to.
pub open spec fn compiled_from(s: Structure, raw: RawXml) -> bool {
    &&& s.good_ids.wf()
    &&& s.need_ids.wf()
    &&& s.household_type_ids.wf()
    &&& s.rule_ids.wf()
    &&& s.stock_ids.wf()
    &&& s.good_ids@ == good_ids_of(raw)
    &&& s.need_ids@ == need_ids_of(raw)
    &&& s.household_type_ids@ == household_type_ids_of(raw)
    &&& s.rule_ids@ == rule_ids_of(raw)
    &&& s.stock_ids@ == stock_ids_of(raw)
    &&& goods_compiled(s.goods@, s.good_ids@, raw.goods.goods@, raw.goods.goods@.len())
    &&& stocks_compiled(s.stocks@, s.stock_ids@, raw.stocks.stocks@, raw.stocks.stocks@.len())
    &&& needs_compiled(
        s.needs@,
        s.need_ids@,
        raw.needs.needs@,
        raw.needs.needs@.len(),
        s.good_ids@,
    )
    &&& household_types_compiled(
        s.household_types@,
        s.household_type_ids@,
        raw.household_types.types@,
        raw.household_types.types@.len(),
        s.good_ids@,
        s.stock_ids@,
        s.need_ids@,
    )
    &&& rules_compiled(
        s.production_rules@,
        s.rule_ids@,
        raw.production.rules@,
        raw.production.rules@.len(),
        s.good_ids@,
    )
}

/// No table of `raw` has more records than there are ids.
pub open spec fn fits_ids(raw: RawXml) -> bool {
    &&& raw.goods.goods@.len() <= u32::MAX
    &&& raw.needs.needs@.len() <= u32::MAX
    &&& raw.household_types.types@.len() <= u32::MAX
    &&& raw.production.rules@.len() <= u32::MAX
    &&& raw.stocks.stocks@.len() <= u32::MAX
}

proof fn lemma_first_need_fault_stays(recs: Seq<NeedXml>, goods: Seq<Seq<char>>, m: nat, n: nat)
    requires
        m <= n,
        first_need_fault(recs, goods, m) is Some,
    ensures
        first_need_fault(recs, goods, n) == first_need_fault(recs, goods, m),
    decreases n,
{
    if n > m {
        lemma_first_need_fault_stays(recs, goods, m, (n - 1) as nat);
    }
}

proof fn lemma_first_household_type_fault_stays(
    recs: Seq<HouseholdTypeXml>,
    goods: Seq<Seq<char>>,
    stocks: Seq<Seq<char>>,
    needs: Seq<Seq<char>>,
    m: nat,
    n: nat,
)
    requires
        m <= n,
        first_household_type_fault(recs, goods, stocks, needs, m) is Some,
    ensures
        first_household_type_fault(recs, goods, stocks, needs, n) == first_household_type_fault(
            recs,
            goods,
            stocks,
            needs,
            m,
        ),
    decreases n,
{
    if n > m {
        lemma_first_household_type_fault_stays(recs, goods, stocks, needs, m, (n - 1) as nat);
    }
}

proof fn lemma_first_rule_fault_stays(
    recs: Seq<ProductionRuleXml>,
    goods: Seq<Seq<char>>,
    m: nat,
    n: nat,
)
    requires
        m <= n,
        first_rule_fault(recs, goods, m) is Some,
    ensures
        first_rule_fault(recs, goods, n) == first_rule_fault(recs, goods, m),
    decreases n,
{
    if n > m {
        lemma_first_rule_fault_stays(recs, goods, m, (n - 1) as nat);
    }
}

/// Compiles the needs, or finds the first fault among them.
fn compile_needs(recs: &Vec<NeedXml>, goods: &Interner) -> (r: Result<
    (Vec<NeedDef>, Interner),
    CompileError,
>)
    requires
        recs@.len() <= u32::MAX,
        goods.wf(),
    ensures
        match r {
            Ok(out) => first_need_fault(recs@, goods@, recs@.len()) is None && out.1.wf()
                && out.1@ == interned(need_keys(recs@), recs@.len()) && needs_compiled(
                out.0@,
                out.1@,
                recs@,
                recs@.len(),
                goods@,
            ),
            Err(e) => first_need_fault(recs@, goods@, recs@.len()) == Some(e@),
        },
{
    let mut ids = Interner::new();
    let mut table: Vec<NeedDef> = Vec::new();
    let ghost keys = need_keys(recs@);
    let mut i: usize = 0;
    while i < recs.len()
        invariant
            i <= recs@.len(),
            recs@.len() <= u32::MAX,
            goods.wf(),
            keys == need_keys(recs@),
            ids.wf(),
            ids@ == interned(keys, i as nat),
            first_need_fault(recs@, goods@, i as nat) is None,
            needs_compiled(table@, ids@, recs@, i as nat, goods@),
        decreases recs@.len() - i,
    {
        let rec = &recs[i];
        let ghost ids_before = ids;
        let ghost table_before = table@;
        proof {
            lemma_interned(keys, i as nat);
            assert(keys[i as int] == rec.id@);
        }
        let good = match goods.lookup(rec.good_ref.as_str()) {
            Some(good) => good,
            None => {
                proof {
                    lemma_first_need_fault_stays(recs@, goods@, (i + 1) as nat, recs@.len());
                }
                return Err(
                    CompileError {
                        kind: ReferenceKind::NeedGood,
                        owner: rec.id.clone(),
                        target: rec.good_ref.clone(),
                    },
                );
            },
        };
        let id = ids.intern(rec.id.as_str());
        let def = NeedDef {
            id: NeedId(id),
            good: GoodId(good),
            amount: rec.amount,
            interval_ticks: if rec.interval_ticks < 1 {
                1
            } else {
                rec.interval_ticks
            },
            priority: rec.priority,
        };
        if id as usize == table.len() {
            table.push(def);
        } else {
            table.set(id as usize, def);
        }
        proof {
            assert forall|k: int| 0 <= k < table@.len() implies #[trigger] need_entry(
                table@[k],
                ids@[k],
                recs@,
                (i + 1) as nat,
                k,
                goods@,
            ) by {
                if k != id {
                    if ids@[k] == ids@[id as int] {
                        lemma_interned_names_are_distinct(ids, k, id as int);
                    }
                    assert(ids@[k] == ids_before@[k]);
                    assert(table@[k] == table_before[k]);
                    assert(need_entry(
                        table_before[k],
                        ids_before@[k],
                        recs@,
                        i as nat,
                        k,
                        goods@,
                    ));
                }
            }
            assert(table@.len() == ids@.len());
            assert(needs_compiled(table@, ids@, recs@, (i + 1) as nat, goods@));
        }
        i = i + 1;
    }
    Ok((table, ids))
}

/// Compiles the household types, or finds the first fault among them.
fn compile_household_types(
    recs: &Vec<HouseholdTypeXml>,
    goods: &Interner,
    stocks: &Interner,
    needs: &Interner,
) -> (r: Result<(Vec<HouseholdTypeDef>, Interner), CompileError>)
    requires
        recs@.len() <= u32::MAX,
        goods.wf(),
        stocks.wf(),
        needs.wf(),
    ensures
        match r {
            Ok(out) => first_household_type_fault(recs@, goods@, stocks@, needs@, recs@.len())
                is None && out.1.wf() && out.1@ == interned(
                household_type_keys(recs@),
                recs@.len(),
            ) && household_types_compiled(
                out.0@,
                out.1@,
                recs@,
                recs@.len(),
                goods@,
                stocks@,
                needs@,
            ),
            Err(e) => first_household_type_fault(recs@, goods@, stocks@, needs@, recs@.len())
                == Some(e@),
        },
{
    let mut ids = Interner::new();
    let mut table: Vec<HouseholdTypeDef> = Vec::new();
    let ghost keys = household_type_keys(recs@);
    let mut i: usize = 0;
    while i < recs.len()
        invariant
            i <= recs@.len(),
            recs@.len() <= u32::MAX,
            goods.wf(),
            stocks.wf(),
            needs.wf(),
            keys == household_type_keys(recs@),
            ids.wf(),
            ids@ == interned(keys, i as nat),
            first_household_type_fault(recs@, goods@, stocks@, needs@, i as nat) is None,
            household_types_compiled(table@, ids@, recs@, i as nat, goods@, stocks@, needs@),
        decreases recs@.len() - i,
    {
        let rec = &recs[i];
        let ghost ids_before = ids;
        let ghost table_before = table@;
        proof {
            lemma_interned(keys, i as nat);
            assert(keys[i as int] == rec.id@);
        }
        let inventory = match resolve_goods(&rec.starting_inventory.items, goods) {
            Ok(list) => list,
            Err(j) => {
                proof {
                    lemma_first_household_type_fault_stays(
                        recs@,
                        goods@,
                        stocks@,
                        needs@,
                        (i + 1) as nat,
                        recs@.len(),
                    );
                }
                return Err(
                    CompileError {
                        kind: ReferenceKind::HouseholdTypeGood,
                        owner: rec.id.clone(),
                        target: rec.starting_inventory.items[j].good_ref.clone(),
                    },
                );
            },
        };
        let portfolio = match resolve_stocks(&rec.starting_portfolio.items, stocks) {
            Ok(list) => list,
            Err(j) => {
                proof {
                    lemma_first_household_type_fault_stays(
                        recs@,
                        goods@,
                        stocks@,
                        needs@,
                        (i + 1) as nat,
                        recs@.len(),
                    );
                }
                return Err(
                    CompileError {
                        kind: ReferenceKind::HouseholdTypeStock,
                        owner: rec.id.clone(),
                        target: rec.starting_portfolio.items[j].stock_ref.clone(),
                    },
                );
            },
        };
        let wanted = match resolve_needs(&rec.needs.need_refs, needs) {
            Ok(list) => list,
            Err(j) => {
                proof {
                    lemma_first_household_type_fault_stays(
                        recs@,
                        goods@,
                        stocks@,
                        needs@,
                        (i + 1) as nat,
                        recs@.len(),
                    );
                }
                return Err(
                    CompileError {
                        kind: ReferenceKind::HouseholdTypeNeed,
                        owner: rec.id.clone(),
                        target: rec.needs.need_refs[j].clone(),
                    },
                );
            },
        };
        let id = ids.intern(rec.id.as_str());
        let def = HouseholdTypeDef {
            id: HouseholdTypeId(id),
            display_name: rec.display_name.clone(),
            starting_cash: rec.starting_cash,
            starting_inventory: inventory,
            starting_portfolio: portfolio,
            needs: wanted,
            income_per_tick: rec.income_per_tick,
        };
        if id as usize == table.len() {
            table.push(def);
        } else {
            table.set(id as usize, def);
        }
        proof {
            assert forall|k: int| 0 <= k < table@.len() implies #[trigger] household_type_entry(
                table@[k],
                ids@[k],
                recs@,
                (i + 1) as nat,
                k,
                goods@,
                stocks@,
                needs@,
            ) by {
                if k != id {
                    if ids@[k] == ids@[id as int] {
                        lemma_interned_names_are_distinct(ids, k, id as int);
                    }
                    assert(ids@[k] == ids_before@[k]);
                    assert(table@[k] == table_before[k]);
                    assert(household_type_entry(
                        table_before[k],
                        ids_before@[k],
                        recs@,
                        i as nat,
                        k,
                        goods@,
                        stocks@,
                        needs@,
                    ));
                }
            }
            assert(table@.len() == ids@.len());
            assert(household_types_compiled(
                table@,
                ids@,
                recs@,
                (i + 1) as nat,
                goods@,
                stocks@,
                needs@,
            ));
        }
        i = i + 1;
    }
    Ok((table, ids))
}

/// Compiles the production rules, or finds the first fault among them.
fn compile_rules(recs: &Vec<ProductionRuleXml>, goods: &Interner) -> (r: Result<
    (Vec<ProductionRuleDef>, Interner),
    CompileError,
>)
    requires
        recs@.len() <= u32::MAX,
        goods.wf(),
    ensures
        match r {
            Ok(out) => first_rule_fault(recs@, goods@, recs@.len()) is None && out.1.wf()
                && out.1@ == interned(rule_keys(recs@), recs@.len()) && rules_compiled(
                out.0@,
                out.1@,
                recs@,
                recs@.len(),
                goods@,
            ),
            Err(e) => first_rule_fault(recs@, goods@, recs@.len()) == Some(e@),
        },
{
    let mut ids = Interner::new();
    let mut table: Vec<ProductionRuleDef> = Vec::new();
    let ghost keys = rule_keys(recs@);
    let mut i: usize = 0;
    while i < recs.len()
        invariant
            i <= recs@.len(),
            recs@.len() <= u32::MAX,
            goods.wf(),
            keys == rule_keys(recs@),
            ids.wf(),
            ids@ == interned(keys, i as nat),
            first_rule_fault(recs@, goods@, i as nat) is None,
            rules_compiled(table@, ids@, recs@, i as nat, goods@),
        decreases recs@.len() - i,
    {
        let rec = &recs[i];
        let ghost ids_before = ids;
        let ghost table_before = table@;
        proof {
            lemma_interned(keys, i as nat);
            assert(keys[i as int] == rec.id@);
        }
        let inputs = match resolve_goods(&rec.inputs.items, goods) {
            Ok(list) => list,
            Err(j) => {
                proof {
                    lemma_first_rule_fault_stays(recs@, goods@, (i + 1) as nat, recs@.len());
                }
                return Err(
                    CompileError {
                        kind: ReferenceKind::RuleInputGood,
                        owner: rec.id.clone(),
                        target: rec.inputs.items[j].good_ref.clone(),
                    },
                );
            },
        };
        let outputs = match resolve_goods(&rec.outputs.items, goods) {
            Ok(list) => list,
            Err(j) => {
                proof {
                    lemma_first_rule_fault_stays(recs@, goods@, (i + 1) as nat, recs@.len());
                }
                return Err(
                    CompileError {
                        kind: ReferenceKind::RuleOutputGood,
                        owner: rec.id.clone(),
                        target: rec.outputs.items[j].good_ref.clone(),
                    },
                );
            },
        };
        let id = ids.intern(rec.id.as_str());
        let def = ProductionRuleDef {
            id: RuleId(id),
            display_name: rec.display_name.clone(),
            ticks: if rec.ticks < 1 {
                1
            } else {
                rec.ticks
            },
            inputs,
            outputs,
        };
        if id as usize == table.len() {
            table.push(def);
        } else {
            table.set(id as usize, def);
        }
        proof {
            assert forall|k: int| 0 <= k < table@.len() implies #[trigger] rule_entry(
                table@[k],
                ids@[k],
                recs@,
                (i + 1) as nat,
                k,
                goods@,
            ) by {
                if k != id {
                    if ids@[k] == ids@[id as int] {
                        lemma_interned_names_are_distinct(ids, k, id as int);
                    }
                    assert(ids@[k] == ids_before@[k]);
                    assert(table@[k] == table_before[k]);
                    assert(rule_entry(
                        table_before[k],
                        ids_before@[k],
                        recs@,
                        i as nat,
                        k,
                        goods@,
                    ));
                }
            }
            assert(table@.len() == ids@.len());
            assert(rules_compiled(table@, ids@, recs@, (i + 1) as nat, goods@));
        }
        i = i + 1;
    }
    Ok((table, ids))
}

/// What compiles from a written catalogue is well formed.
pub proof fn lemma_compiled_is_well_formed(s: Structure, raw: RawXml)
    requires
        compiled_from(s, raw),
    ensures
        s.wf(),
{
    assert forall|i: int| 0 <= i < s.goods@.len() implies #[trigger] s.good_wf(i) by {
        assert(good_entry(
            s.goods@[i],
            s.good_ids@[i],
            raw.goods.goods@,
            raw.goods.goods@.len(),
            i,
        ));
    }
    assert forall|i: int| 0 <= i < s.stocks@.len() implies #[trigger] s.stock_wf(i) by {
        assert(stock_entry(
            s.stocks@[i],
            s.stock_ids@[i],
            raw.stocks.stocks@,
            raw.stocks.stocks@.len(),
            i,
        ));
    }
    assert forall|i: int| 0 <= i < s.needs@.len() implies #[trigger] s.need_wf(i) by {
        assert(need_entry(
            s.needs@[i],
            s.need_ids@[i],
            raw.needs.needs@,
            raw.needs.needs@.len(),
            i,
            s.good_ids@,
        ));
    }
    assert forall|i: int| 0 <= i < s.household_types@.len() implies #[trigger] s.household_type_wf(
        i,
    ) by {
        assert(household_type_entry(
            s.household_types@[i],
            s.household_type_ids@[i],
            raw.household_types.types@,
            raw.household_types.types@.len(),
            i,
            s.good_ids@,
            s.stock_ids@,
            s.need_ids@,
        ));
    }
    assert forall|i: int| 0 <= i < s.production_rules@.len() implies #[trigger] s.rule_wf(i) by {
        assert(rule_entry(
            s.production_rules@[i],
            s.rule_ids@[i],
            raw.production.rules@,
            raw.production.rules@.len(),
            i,
            s.good_ids@,
        ));
    }
}

impl Structure {
    /// Compiles the written catalogue `raw`.
    ///
    /// Every key gets the next free id when it is first seen in its table;
    /// where a key occurs again, the later record replaces the earlier one.
    /// Every reference by key is resolved to an id. Compiling fails on the
    /// first reference to a key that no record carries, looking through the
    /// needs, then the household types, then the production rules.
    pub fn compile(raw: RawXml) -> (r: Result<Structure, CompileError>)
        requires
            fits_ids(raw),
        ensures
            match r {
                Ok(s) => compile_fault(raw) is None && compiled_from(s, raw) && s.wf(),
                Err(e) => compile_fault(raw) == Some(e@),
            },
    {
        let (goods, good_ids) = compile_goods(&raw.goods.goods);
        let (stocks, stock_ids) = compile_stocks(&raw.stocks.stocks);
        let (needs, need_ids) = match compile_needs(&raw.needs.needs, &good_ids) {
            Ok(out) => out,
            Err(e) => {
                return Err(e);
            },
        };
        let (household_types, household_type_ids) = match compile_household_types(
            &raw.household_types.types,
            &good_ids,
            &stock_ids,
            &need_ids,
        ) {
            Ok(out) => out,
            Err(e) => {
                return Err(e);
            },
        };
        let (production_rules, rule_ids) = match compile_rules(&raw.production.rules, &good_ids) {
            Ok(out) => out,
            Err(e) => {
                return Err(e);
            },
        };
        let s = Structure {
            goods,
            needs,
            household_types,
            production_rules,
            stocks,
            good_ids,
            need_ids,
            household_type_ids,
            rule_ids,
            stock_ids,
        };
        proof {
            lemma_compiled_is_well_formed(s, raw);
        }
        Ok(s)
    }
}

} // verus!
