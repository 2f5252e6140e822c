use economysim::amount::Amount;
use economysim::data::compiled::{GoodDef, NeedDef, Structure};
use economysim::data::ids::{GoodId, HouseholdTypeId, Interner, NeedId, StockId};
use economysim::simulation::household::{Household, HouseholdId, Inventory, NeedState, Portfolio};

fn catalogue(goods: Vec<(i64, i64)>, needs: Vec<(u32, i64, u64, i32)>) -> Structure {
    Structure {
        goods: goods
            .into_iter()
            .enumerate()
            .map(|(i, (price, decay))| GoodDef {
                id: GoodId(i as u32),
                display_name: format!("good {}", i),
                base_price: Amount::from_micros(price),
                decay_rate: Amount::from_micros(decay),
                stackable: false,
            })
            .collect(),
        needs: needs
            .into_iter()
            .enumerate()
            .map(|(i, (good, amount, interval_ticks, priority))| NeedDef {
                id: NeedId(i as u32),
                good: GoodId(good),
                amount: Amount::from_micros(amount),
                interval_ticks,
                priority,
            })
            .collect(),
        household_types: Vec::new(),
        production_rules: Vec::new(),
        stocks: Vec::new(),
        good_ids: Interner::new(),
        need_ids: Interner::new(),
        household_type_ids: Interner::new(),
        rule_ids: Interner::new(),
        stock_ids: Interner::new(),
    }
}

fn household(inventory: Vec<i64>, needs: Vec<(u32, u64)>) -> Household {
    let mut inv = Inventory::new(inventory.len());
    for (i, q) in inventory.into_iter().enumerate() {
        inv.add(GoodId(i as u32), Amount::from_micros(q));
    }
    Household::new(
        HouseholdId(0),
        HouseholdTypeId(0),
        Amount::from_units(10),
        inv,
        Portfolio::new(0),
        needs
            .into_iter()
            .map(|(need, next_due_in)| NeedState { need: NeedId(need), next_due_in, fulfilled_last: true })
            .collect(),
    )
}

#[test]
fn inventory_starts_empty_and_never_goes_negative() {
    let mut inv = Inventory::new(3);
    assert_eq!(inv.qty.len(), 3);
    assert!(inv.qty.iter().all(|q| q.micros == 0));
    inv.add(GoodId(1), Amount::from_units(5));
    assert_eq!(inv.get(GoodId(1)), Amount::from_units(5));
    inv.add(GoodId(1), Amount::from_units(-2));
    assert_eq!(inv.get(GoodId(1)), Amount::from_units(3));
    inv.add(GoodId(1), Amount::from_units(-7));
    assert_eq!(inv.get(GoodId(1)).micros, 0);
    assert_eq!(inv.get(GoodId(0)).micros, 0);
    assert_eq!(inv.get(GoodId(2)).micros, 0);
    inv.add(GoodId(2), Amount::from_micros(i64::MAX));
    inv.add(GoodId(2), Amount::from_micros(1));
    assert_eq!(inv.get(GoodId(2)).micros, i64::MAX);
}

#[test]
fn portfolio_adds_floors_and_clears() {
    let mut p = Portfolio::new(2);
    assert_eq!(p.qty.len(), 2);
    p.add(StockId(0), Amount::from_units(4));
    p.add(StockId(1), Amount::from_micros(1));
    p.add(StockId(1), Amount::from_micros(-2));
    assert_eq!(p.get(StockId(0)), Amount::from_units(4));
    assert_eq!(p.get(StockId(1)).micros, 0);
    p.add(StockId(1), Amount::from_units(9));
    p.clear_all();
    assert_eq!(p.qty.len(), 2);
    assert_eq!(p.get(StockId(0)).micros, 0);
    assert_eq!(p.get(StockId(1)).micros, 0);
    let mut none = Portfolio::new(0);
    none.clear_all();
    assert!(none.qty.is_empty());
}

#[test]
fn income_is_added_to_cash() {
    let mut h = household(vec![], vec![]);
    h.apply_income(Amount::from_micros(2_500_000));
    assert_eq!(h.cash.micros, 12_500_000);
    h.apply_income(Amount::from_units(-20));
    assert_eq!(h.cash.micros, -7_500_000);
    h.apply_income(Amount::from_micros(i64::MAX));
    h.apply_income(Amount::from_micros(i64::MAX));
    assert_eq!(h.cash.micros, i64::MAX);
}

#[test]
fn decay_takes_the_rate_off_each_holding() {
    let s = catalogue(vec![(1, 100_000), (1, 0), (1, -500_000), (1, 2_000_000), (1, 333_333)], vec![]);
    let mut h = household(vec![10_000_000, 10_000_000, 10_000_000, 10_000_000, 10], vec![]);
    h.apply_decay(&s);
    let left: Vec<i64> = h.inventory.qty.iter().map(|q| q.micros).collect();
    // 10 - 10 * 0.1; no decay; a negative rate is no decay; a rate above one
    // empties the slot; ten millionths lose three.
    assert_eq!(left, vec![9_000_000, 10_000_000, 10_000_000, 0, 7]);
    h.apply_decay(&s);
    assert_eq!(h.inventory.qty[0].micros, 8_100_000);
    assert_eq!(h.cash, Amount::from_units(10));
}

#[test]
fn need_not_yet_due_only_counts_down() {
    let s = catalogue(vec![(1, 0)], vec![(0, 1_000_000, 4, 0)]);
    let mut h = household(vec![5_000_000], vec![(0, 2)]);
    h.step_needs(&s);
    assert_eq!(h.needs[0].next_due_in, 1);
    assert!(h.needs[0].fulfilled_last);
    assert_eq!(h.utility.micros, 0);
    assert_eq!(h.inventory.qty[0].micros, 5_000_000);
    assert!(h.consumed().is_empty());
    h.step_needs(&s);
    assert_eq!(h.needs[0].next_due_in, 0);
    assert_eq!(h.utility.micros, 0);
}

#[test]
fn due_need_is_met_from_the_inventory_and_armed_again() {
    let s = catalogue(vec![(1, 0)], vec![(0, 1_500_000, 4, 0)]);
    let mut h = household(vec![4_000_000], vec![(0, 0)]);
    h.step_needs(&s);
    assert_eq!(h.needs[0].next_due_in, 4);
    assert!(h.needs[0].fulfilled_last);
    assert_eq!(h.utility.micros, 1_000_000);
    assert_eq!(h.inventory.qty[0].micros, 2_500_000);
    assert_eq!(h.consumed(), vec![(GoodId(0), Amount::from_micros(1_500_000))]);
}

#[test]
fn due_need_that_is_missed_costs_utility_and_is_armed_again() {
    let s = catalogue(vec![(1, 0)], vec![(0, 1_500_000, 4, 0)]);
    let mut h = household(vec![1_499_999], vec![(0, 0)]);
    h.step_needs(&s);
    assert_eq!(h.needs[0].next_due_in, 4);
    assert!(!h.needs[0].fulfilled_last);
    assert_eq!(h.utility.micros, -500_000);
    assert_eq!(h.inventory.qty[0].micros, 1_499_999);
    assert!(h.consumed().is_empty());
}

#[test]
fn holding_exactly_the_amount_is_enough() {
    let s = catalogue(vec![(1, 0)], vec![(0, 1_500_000, 1, 0)]);
    let mut h = household(vec![1_500_000], vec![(0, 0)]);
    h.step_needs(&s);
    assert!(h.needs[0].fulfilled_last);
    assert_eq!(h.inventory.qty[0].micros, 0);
}

#[test]
fn needs_are_served_by_priority_first() {
    // Both needs want the only unit of good 0. The need of priority 1 is
    // listed last but is served first.
    let s = catalogue(vec![(1, 0)], vec![(0, 1_000_000, 1, 5), (0, 1_000_000, 1, 1)]);
    let mut h = household(vec![1_000_000], vec![(0, 0), (1, 0)]);
    h.step_needs(&s);
    assert!(!h.needs[0].fulfilled_last);
    assert!(h.needs[1].fulfilled_last);
    assert_eq!(h.utility.micros, 500_000);
}

#[test]
fn needs_of_equal_priority_are_served_by_need_id() {
    let s = catalogue(vec![(1, 0)], vec![(0, 1_000_000, 1, 3), (0, 1_000_000, 1, 3)]);
    let mut h = household(vec![1_000_000], vec![(1, 0), (0, 0)]);
    h.step_needs(&s);
    // Need 0 stands second in the list and is served first.
    assert!(h.needs[1].fulfilled_last);
    assert!(!h.needs[0].fulfilled_last);
}

#[test]
fn negative_priorities_come_before_positive_ones() {
    let s = catalogue(
        vec![(1, 0)],
        vec![(0, 1_000_000, 1, i32::MAX), (0, 1_000_000, 1, i32::MIN), (0, 1_000_000, 1, 0)],
    );
    let mut h = household(vec![2_000_000], vec![(0, 0), (2, 0), (1, 0)]);
    h.step_needs(&s);
    assert!(!h.needs[0].fulfilled_last);
    assert!(h.needs[1].fulfilled_last);
    assert!(h.needs[2].fulfilled_last);
    assert_eq!(
        h.consumed(),
        vec![(GoodId(0), Amount::from_units(1)), (GoodId(0), Amount::from_units(1))]
    );
}

#[test]
fn the_log_holds_one_tick_only_and_grows_past_eight_entries() {
    let needs: Vec<(u32, i64, u64, i32)> = (0..12).map(|_| (0, 1_000_000, 1, 0)).collect();
    let s = catalogue(vec![(1, 0)], needs);
    let mut h = household(vec![20_000_000], (0..12).map(|i| (i, 0)).collect());
    h.step_needs(&s);
    assert_eq!(h.consumed().len(), 12);
    assert_eq!(h.utility.micros, 12_000_000);
    let copy = h.clone();
    assert_eq!(copy.consumed(), h.consumed());
    h.step_needs(&s);
    assert!(h.consumed().is_empty());
    assert_eq!(copy.consumed().len(), 12);
}

#[test]
fn clones_hold_the_same_and_are_their_own() {
    let s = catalogue(vec![(1, 0)], vec![(0, 1_000_000, 3, 0)]);
    let mut h = household(vec![2_000_000], vec![(0, 0)]);
    h.step_needs(&s);
    let copy = h.clone();
    assert_eq!(copy.id, h.id);
    assert_eq!(copy.kind, h.kind);
    assert_eq!(copy.cash, h.cash);
    assert_eq!(copy.utility, h.utility);
    assert_eq!(copy.inventory.qty, h.inventory.qty);
    assert_eq!(copy.portfolio.qty, h.portfolio.qty);
    assert_eq!(copy.needs, h.needs);
    assert_eq!(copy.consumed(), vec![(GoodId(0), Amount::from_units(1))]);
    h.inventory.add(GoodId(0), Amount::from_units(5));
    assert_eq!(copy.inventory.qty[0], Amount::from_units(1));

    let mut p = Portfolio::new(2);
    p.add(StockId(1), Amount::from_units(3));
    let q = p.clone();
    p.clear_all();
    assert_eq!(q.get(StockId(1)), Amount::from_units(3));
    assert_eq!(q.qty.len(), 2);
}
