use economysim::amount::Amount;
use economysim::data::compiled::{GoodDef, HouseholdTypeDef, NeedDef, StockDef, Structure};
use economysim::data::ids::{GoodId, HouseholdTypeId, Interner, NeedId, StockId};
use economysim::simulation::engine::Simulation;
use economysim::simulation::household::{Household, HouseholdId, Inventory, NeedState, Portfolio};

fn good(id: u32, name: &str, base_price: Amount, decay_rate: Amount) -> GoodDef {
    GoodDef { id: GoodId(id), display_name: name.to_string(), base_price, decay_rate, stackable: true }
}

fn need(id: u32, good: u32, amount: Amount, interval_ticks: u64, priority: i32) -> NeedDef {
    NeedDef { id: NeedId(id), good: GoodId(good), amount, interval_ticks, priority }
}

fn stock(id: u32, name: &str, base_price: Amount, volatility: Amount) -> StockDef {
    StockDef { id: StockId(id), display_name: name.to_string(), base_price, volatility, shares_outstanding: 1000 }
}

fn structure(
    goods: Vec<GoodDef>,
    needs: Vec<NeedDef>,
    household_types: Vec<HouseholdTypeDef>,
    stocks: Vec<StockDef>,
) -> Structure {
    Structure {
        goods,
        needs,
        household_types,
        production_rules: Vec::new(),
        stocks,
        good_ids: Interner::new(),
        need_ids: Interner::new(),
        household_type_ids: Interner::new(),
        rule_ids: Interner::new(),
        stock_ids: Interner::new(),
    }
}

fn bread_economy(interval: u64) -> Structure {
    structure(
        vec![good(0, "Bread", Amount::from_units(10), Amount::zero())],
        vec![need(0, 0, Amount::from_units(1), interval, 0)],
        vec![HouseholdTypeDef {
            id: HouseholdTypeId(0),
            display_name: "Worker".to_string(),
            starting_cash: Amount::from_units(100),
            starting_inventory: Vec::new(),
            starting_portfolio: Vec::new(),
            needs: vec![NeedId(0)],
            income_per_tick: Amount::zero(),
        }],
        Vec::new(),
    )
}

fn mixed_economy() -> Structure {
    structure(
        vec![
            good(0, "Bread", Amount::from_units(10), Amount::from_micros(100_000)),
            good(1, "Water", Amount::from_units(2), Amount::zero()),
            good(2, "Wood", Amount::from_micros(5), Amount::from_micros(500_000)),
        ],
        vec![
            need(0, 0, Amount::from_units(1), 2, 5),
            need(1, 1, Amount::from_units(3), 1, 1),
            need(2, 2, Amount::from_micros(500_000), 3, 1),
        ],
        vec![
            HouseholdTypeDef {
                id: HouseholdTypeId(0),
                display_name: "Worker".to_string(),
                starting_cash: Amount::from_units(50),
                starting_inventory: vec![(GoodId(0), Amount::from_units(2)), (GoodId(0), Amount::from_units(1))],
                starting_portfolio: vec![(StockId(0), Amount::from_units(4))],
                needs: vec![NeedId(0), NeedId(1)],
                income_per_tick: Amount::from_units(3),
            },
            HouseholdTypeDef {
                id: HouseholdTypeId(1),
                display_name: "Farmer".to_string(),
                starting_cash: Amount::from_units(5),
                starting_inventory: vec![(GoodId(1), Amount::from_units(10)), (GoodId(2), Amount::from_units(-4))],
                starting_portfolio: vec![(StockId(1), Amount::from_micros(1_500_000)), (StockId(0), Amount::from_units(1))],
                needs: vec![NeedId(2), NeedId(1), NeedId(0)],
                income_per_tick: Amount::from_micros(250_000),
            },
        ],
        vec![
            stock(0, "Mill", Amount::from_units(20), Amount::from_micros(300_000)),
            stock(1, "Well", Amount::from_micros(1), Amount::from_units(5)),
        ],
    )
}

fn snapshot(sim: &Simulation) -> Vec<(u32, u32, i64, i64, Vec<i64>, Vec<i64>, Vec<(u32, u64, bool)>)> {
    sim.households
        .iter()
        .map(|h| {
            (
                h.id.0,
                h.kind.0,
                h.cash.micros,
                h.utility.micros,
                h.inventory.qty.iter().map(|a| a.micros).collect(),
                h.portfolio.qty.iter().map(|a| a.micros).collect(),
                h.needs.iter().map(|n| (n.need.0, n.next_due_in, n.fulfilled_last)).collect(),
            )
        })
        .collect()
}

fn micros(v: &[Amount]) -> Vec<i64> {
    v.iter().map(|a| a.micros).collect()
}

#[test]
fn new_simulation_starts_at_tick_zero_with_opening_prices() {
    let sim = Simulation::new(mixed_economy(), 7, 5);
    assert_eq!(sim.tick, 0);
    assert_eq!(sim.seed, 7);
    assert_eq!(sim.start_households, 5);
    assert_eq!(sim.households.len(), 5);
    assert_eq!(micros(&sim.market.price), vec![10_000_000, 2_000_000, 10_000]);
    assert_eq!(micros(&sim.market.demand), vec![0, 0, 0]);
    assert_eq!(micros(&sim.market.supply), vec![0, 0, 0]);
    assert_eq!(sim.market.adjustment_rate.micros, 20_000);
    assert_eq!(micros(&sim.stock_market.price), vec![20_000_000, 10_000]);
    assert_eq!(sim.metrics.tick, 0);
}

#[test]
fn spawned_households_start_from_their_archetype() {
    let sim = Simulation::new(mixed_economy(), 99, 40);
    let mut kinds_seen = [false, false];
    for (i, h) in sim.households.iter().enumerate() {
        assert_eq!(h.id, HouseholdId(i as u32));
        assert_eq!(h.utility.micros, 0);
        assert!(h.consumed().is_empty());
        assert!(h.needs.iter().all(|n| n.fulfilled_last));
        match h.kind.0 {
            0 => {
                kinds_seen[0] = true;
                assert_eq!(h.cash, Amount::from_units(50));
                assert_eq!(micros(&h.inventory.qty), vec![3_000_000, 0, 0]);
                assert_eq!(micros(&h.portfolio.qty), vec![4_000_000, 0]);
                let needs: Vec<(u32, u64)> = h.needs.iter().map(|n| (n.need.0, n.next_due_in)).collect();
                assert_eq!(needs, vec![(0, 2), (1, 1)]);
            }
            1 => {
                kinds_seen[1] = true;
                assert_eq!(h.cash, Amount::from_units(5));
                assert_eq!(micros(&h.inventory.qty), vec![0, 10_000_000, 0]);
                assert_eq!(micros(&h.portfolio.qty), vec![1_000_000, 1_500_000]);
                let needs: Vec<(u32, u64)> = h.needs.iter().map(|n| (n.need.0, n.next_due_in)).collect();
                assert_eq!(needs, vec![(2, 3), (1, 1), (0, 2)]);
            }
            other => panic!("unknown archetype {}", other),
        }
    }
    assert!(kinds_seen[0] && kinds_seen[1]);
}

#[test]
fn population_follows_the_seed() {
    let a = Simulation::new(mixed_economy(), 1, 64);
    let b = Simulation::new(mixed_economy(), 2, 64);
    let kinds_a: Vec<u32> = a.households.iter().map(|h| h.kind.0).collect();
    let kinds_b: Vec<u32> = b.households.iter().map(|h| h.kind.0).collect();
    assert_ne!(kinds_a, kinds_b);
}

#[test]
fn a_simulation_can_start_on_a_well_formed_catalogue_with_someone_to_draw() {
    assert!(Simulation::can_start(&mixed_economy(), 0));
    assert!(Simulation::can_start(&mixed_economy(), 200));
    let nothing = structure(Vec::new(), Vec::new(), Vec::new(), Vec::new());
    assert!(Simulation::can_start(&nothing, 0));
    // Nobody can be drawn where there is no archetype.
    assert!(!Simulation::can_start(&nothing, 1));
    // A need that names a good out of range.
    let mut broken = mixed_economy();
    broken.needs[0].good = GoodId(3);
    assert!(!Simulation::can_start(&broken, 1));
    // Ids are 32 bits wide.
    if usize::BITS > 32 {
        assert!(Simulation::can_start(&mixed_economy(), u32::MAX as usize));
        assert!(!Simulation::can_start(&mixed_economy(), u32::MAX as usize + 1));
    }
}

#[test]
fn income_and_decay_come_before_the_needs() {
    // Bread decays by a tenth each tick; the need for one bread is due at the
    // second tick, when 1.2 * 0.9 * 0.9 = 0.972 is left: not enough.
    let mut s = bread_economy(1);
    s.goods[0].decay_rate = Amount::from_micros(100_000);
    s.household_types[0].starting_inventory = vec![(GoodId(0), Amount::from_micros(1_200_000))];
    s.household_types[0].income_per_tick = Amount::from_micros(250_000);
    let mut sim = Simulation::new(s, 0, 1);
    sim.tick();
    assert_eq!(sim.households[0].inventory.qty[0].micros, 1_080_000);
    assert_eq!(sim.households[0].cash.micros, 100_250_000);
    sim.tick();
    let h = &sim.households[0];
    assert!(!h.needs[0].fulfilled_last);
    // Paid twice, then one bread bought at 10 on top of what was left.
    assert_eq!(h.cash.micros, 90_500_000);
    assert_eq!(h.inventory.qty[0].micros, 1_972_000);
}

#[test]
fn empty_population_needs_no_archetype() {
    let mut sim = Simulation::new(structure(Vec::new(), Vec::new(), Vec::new(), Vec::new()), 0, 0);
    assert!(sim.households.is_empty());
    sim.tick();
    assert_eq!(sim.tick, 1);
    assert_eq!(sim.metrics.tick, 1);
    assert!(sim.market.price.is_empty());
}

#[test]
fn unmet_need_is_bought_at_the_posted_price_and_moves_the_price_up() {
    let mut sim = Simulation::new(bread_economy(1), 1337, 1);
    assert_eq!(sim.households[0].needs[0].next_due_in, 1);
    assert!(sim.households[0].needs[0].fulfilled_last);

    // The timer runs down first: nothing is due, nothing is asked for.
    sim.tick();
    assert_eq!(sim.households[0].cash, Amount::from_units(100));
    assert_eq!(sim.households[0].needs[0].next_due_in, 0);
    assert_eq!(sim.market.demand[0].micros, 0);
    assert_eq!(sim.market.price[0], Amount::from_units(10));

    // The need is due and the shelf is empty: the household asks for one unit
    // and buys it at 10.
    sim.tick();
    let h = &sim.households[0];
    assert!(!h.needs[0].fulfilled_last);
    assert_eq!(h.needs[0].next_due_in, 1);
    assert_eq!(h.utility.micros, -500_000);
    assert_eq!(h.cash, Amount::from_units(90));
    assert_eq!(h.inventory.get(GoodId(0)), Amount::from_units(1));
    assert_eq!(sim.market.demand[0], Amount::from_units(1));
    assert_eq!(sim.market.supply[0].micros, 0);
    assert_eq!(sim.market.price[0].micros, 10_100_000);
    assert_eq!(sim.tick, 2);
    assert_eq!(sim.metrics.tick, 2);

    // The need stays marked as missed until it is next looked at, so the
    // household buys once more, now at 10.1.
    sim.tick();
    let h = &sim.households[0];
    assert_eq!(h.cash.micros, 79_900_000);
    assert_eq!(h.inventory.get(GoodId(0)), Amount::from_units(2));
    assert_eq!(sim.market.price[0].micros, 10_201_000);

    // Now the need is due again and is met from the shelf.
    sim.tick();
    let h = &sim.households[0];
    assert!(h.needs[0].fulfilled_last);
    assert_eq!(h.utility.micros, 500_000);
    assert_eq!(h.inventory.get(GoodId(0)), Amount::from_units(1));
    assert_eq!(h.consumed(), vec![(GoodId(0), Amount::from_units(1))]);
    assert_eq!(sim.market.demand[0].micros, 0);
    assert_eq!(sim.market.price[0].micros, 10_201_000);
}

#[test]
fn demand_is_noted_even_when_the_household_cannot_pay() {
    let mut s = bread_economy(1);
    s.household_types[0].starting_cash = Amount::from_units(9);
    let mut sim = Simulation::new(s, 5, 3);
    sim.tick();
    sim.tick();
    for h in &sim.households {
        assert_eq!(h.cash, Amount::from_units(9));
        assert_eq!(h.inventory.get(GoodId(0)).micros, 0);
    }
    assert_eq!(sim.market.demand[0], Amount::from_units(3));
    assert_eq!(sim.market.price[0].micros, 10_100_000);
}

#[test]
fn same_seed_same_run() {
    let mut a = Simulation::new(mixed_economy(), 4242, 25);
    let mut b = Simulation::new(mixed_economy(), 4242, 25);
    assert_eq!(snapshot(&a), snapshot(&b));
    for _ in 0..30 {
        a.tick();
        b.tick();
        assert_eq!(snapshot(&a), snapshot(&b));
        assert_eq!(micros(&a.market.price), micros(&b.market.price));
        assert_eq!(micros(&a.market.demand), micros(&b.market.demand));
    }
}

#[test]
fn reset_returns_to_the_state_of_a_new_simulation() {
    let fresh = Simulation::new(mixed_economy(), 77, 12);
    let mut sim = Simulation::new(mixed_economy(), 77, 12);
    for _ in 0..9 {
        sim.tick();
    }
    sim.force_sell_all_stocks();
    assert_ne!(snapshot(&sim), snapshot(&fresh));
    sim.reset();
    assert_eq!(sim.tick, 0);
    assert_eq!(sim.metrics, fresh.metrics);
    assert_eq!(snapshot(&sim), snapshot(&fresh));
    assert_eq!(micros(&sim.market.price), micros(&fresh.market.price));
    assert_eq!(micros(&sim.market.demand), micros(&fresh.market.demand));
    assert_eq!(micros(&sim.stock_market.price), micros(&fresh.stock_market.price));
    sim.reset();
    assert_eq!(snapshot(&sim), snapshot(&fresh));

    // After a reset the run is the same run again.
    let mut again = Simulation::new(mixed_economy(), 77, 12);
    for _ in 0..5 {
        sim.tick();
        again.tick();
    }
    assert_eq!(snapshot(&sim), snapshot(&again));
}

#[test]
fn forced_sale_empties_every_portfolio_and_nothing_else() {
    let mut sim = Simulation::new(mixed_economy(), 3, 20);
    sim.tick();
    let before = snapshot(&sim);
    let stock_prices = micros(&sim.stock_market.price);
    sim.force_sell_all_stocks();
    let after = snapshot(&sim);
    assert_eq!(after.len(), before.len());
    for (b, a) in before.iter().zip(after.iter()) {
        assert_eq!(a.0, b.0);
        assert_eq!(a.1, b.1);
        assert_eq!(a.2, b.2);
        assert_eq!(a.3, b.3);
        assert_eq!(a.4, b.4);
        assert_eq!(a.5, vec![0, 0]);
        assert_eq!(a.6, b.6);
    }
    assert_eq!(micros(&sim.stock_market.price), stock_prices);
    assert_eq!(micros(&sim.stock_market.supply), vec![0, 0]);
    assert_eq!(micros(&sim.stock_market.demand), vec![0, 0]);
}

#[test]
fn pressure_and_prices_stay_in_bounds_over_a_long_run() {
    let mut sim = Simulation::new(mixed_economy(), 11, 30);
    for _ in 0..200 {
        sim.tick();
        assert!(sim.market.demand.iter().all(|d| d.micros >= 0));
        assert!(sim.market.supply.iter().all(|d| d.micros >= 0));
        assert!(sim.market.price.iter().all(|p| p.micros >= 10_000));
        assert!(sim.stock_market.price.iter().all(|p| p.micros >= 10_000));
        for h in &sim.households {
            assert!(h.inventory.qty.iter().all(|q| q.micros >= 0));
        }
    }
    assert_eq!(sim.tick, 200);
}

#[test]
fn tick_never_moves_the_population() {
    let mut sim = Simulation::new(mixed_economy(), 8, 10);
    let kinds: Vec<u32> = sim.households.iter().map(|h| h.kind.0).collect();
    for _ in 0..10 {
        sim.tick();
    }
    let after: Vec<u32> = sim.households.iter().map(|h| h.kind.0).collect();
    assert_eq!(kinds, after);
    assert_eq!(sim.households.len(), 10);
}

#[test]
fn shopping_goes_by_ascending_good_id() {
    // One household lacks water (need 1, listed first) and bread (need 0,
    // listed second) and can pay for one of them only: bread has the lower
    // good id and is tried first.
    let s = structure(
        vec![
            good(0, "Bread", Amount::from_units(10), Amount::zero()),
            good(1, "Water", Amount::from_units(10), Amount::zero()),
        ],
        vec![
            need(0, 0, Amount::from_units(1), 1, 0),
            need(1, 1, Amount::from_units(1), 1, 0),
        ],
        vec![HouseholdTypeDef {
            id: HouseholdTypeId(0),
            display_name: "Worker".to_string(),
            starting_cash: Amount::from_units(15),
            starting_inventory: Vec::new(),
            starting_portfolio: Vec::new(),
            needs: vec![NeedId(1), NeedId(0)],
            income_per_tick: Amount::zero(),
        }],
        Vec::new(),
    );
    let mut sim = Simulation::new(s, 0, 1);
    sim.tick();
    sim.tick();
    let h = &sim.households[0];
    assert_eq!(h.cash, Amount::from_units(5));
    assert_eq!(micros(&h.inventory.qty), vec![1_000_000, 0]);
    assert_eq!(micros(&sim.market.demand), vec![1_000_000, 1_000_000]);
}

#[test]
fn derived_metrics_sum_cash_and_average_utility() {
    let mut sim = Simulation::new(bread_economy(1), 1, 3);
    let m = sim.derived_metrics();
    assert_eq!(m.tick, 0);
    assert_eq!(m.households, 3);
    assert_eq!(m.total_cash, Amount::from_units(300));
    assert_eq!(m.avg_utility.micros, 0);
    sim.tick();
    sim.tick();
    let m = sim.derived_metrics();
    assert_eq!(m.tick, 2);
    assert_eq!(m.total_cash, Amount::from_units(270));
    assert_eq!(m.avg_utility.micros, -500_000);

    let empty = Simulation::new(structure(Vec::new(), Vec::new(), Vec::new(), Vec::new()), 0, 0);
    let m = empty.derived_metrics();
    assert_eq!(m.households, 0);
    assert_eq!(m.total_cash.micros, 0);
    assert_eq!(m.avg_utility.micros, 0);
}

#[test]
fn household_new_has_no_utility_and_an_empty_log() {
    let h = Household::new(
        HouseholdId(4),
        HouseholdTypeId(2),
        Amount::from_units(12),
        Inventory::new(3),
        Portfolio::new(2),
        vec![NeedState { need: NeedId(1), next_due_in: 3, fulfilled_last: true }],
    );
    assert_eq!(h.id, HouseholdId(4));
    assert_eq!(h.kind, HouseholdTypeId(2));
    assert_eq!(h.cash, Amount::from_units(12));
    assert_eq!(h.utility.micros, 0);
    assert_eq!(h.inventory.qty.len(), 3);
    assert_eq!(h.portfolio.qty.len(), 2);
    assert_eq!(h.needs.len(), 1);
    assert!(h.consumed().is_empty());
}
