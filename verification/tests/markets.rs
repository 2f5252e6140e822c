use economysim::amount::Amount;
use economysim::data::compiled::{GoodDef, StockDef, Structure};
use economysim::data::ids::{GoodId, Interner, StockId};
use economysim::simulation::market::{pressure_of, reprice, Market};
use economysim::simulation::stock_market::StockMarket;

fn catalogue(goods: Vec<i64>, stocks: Vec<(i64, i64)>) -> Structure {
    Structure {
        goods: goods
            .into_iter()
            .enumerate()
            .map(|(i, price)| GoodDef {
                id: GoodId(i as u32),
                display_name: format!("good {}", i),
                base_price: Amount::from_micros(price),
                decay_rate: Amount::zero(),
                stackable: false,
            })
            .collect(),
        needs: Vec::new(),
        household_types: Vec::new(),
        production_rules: Vec::new(),
        stocks: stocks
            .into_iter()
            .enumerate()
            .map(|(i, (price, volatility))| StockDef {
                id: StockId(i as u32),
                display_name: format!("stock {}", i),
                base_price: Amount::from_micros(price),
                volatility: Amount::from_micros(volatility),
                shares_outstanding: 100,
            })
            .collect(),
        good_ids: Interner::new(),
        need_ids: Interner::new(),
        household_type_ids: Interner::new(),
        rule_ids: Interner::new(),
        stock_ids: Interner::new(),
    }
}

fn micros(v: &[Amount]) -> Vec<i64> {
    v.iter().map(|a| a.micros).collect()
}

#[test]
fn pressure_is_the_balance_within_the_limit() {
    let half = Amount::from_micros(500_000);
    let p = |d: i64, s: i64| pressure_of(Amount::from_micros(d), Amount::from_micros(s), half).micros;
    assert_eq!(p(0, 0), 0);
    assert_eq!(p(1_000_000, 0), 500_000);
    assert_eq!(p(0, 1_000_000), -500_000);
    assert_eq!(p(3_000_000, 1_000_000), 500_000);
    assert_eq!(p(5_000_000, 3_000_000), 250_000);
    assert_eq!(p(3_000_000, 5_000_000), -250_000);
    assert_eq!(p(2, 1), 333_333);
    assert_eq!(p(1, 2), -333_333);
    assert_eq!(p(i64::MAX, i64::MAX), 0);
    assert_eq!(p(i64::MAX, 0), 500_000);
    let wide = Amount::from_micros(800_000);
    assert_eq!(pressure_of(Amount::from_units(1), Amount::zero(), wide).micros, 800_000);
    assert_eq!(pressure_of(Amount::from_units(7), Amount::from_units(1), wide).micros, 750_000);
}

#[test]
fn reprice_moves_by_rate_times_pressure() {
    let r = |price: i64, rate: i64, pressure: i64| {
        reprice(Amount::from_micros(price), Amount::from_micros(rate), Amount::from_micros(pressure)).micros
    };
    assert_eq!(r(10_000_000, 20_000, 500_000), 10_100_000);
    assert_eq!(r(10_000_000, 20_000, -500_000), 9_900_000);
    assert_eq!(r(10_000_000, 20_000, 0), 10_000_000);
    assert_eq!(r(10_000_000, 1_000_000, 800_000), 18_000_000);
    assert_eq!(r(10_000_000, 1_000_000, -800_000), 2_000_000);
}

#[test]
fn reprice_never_goes_below_the_floor() {
    let r = |price: i64, rate: i64, pressure: i64| {
        reprice(Amount::from_micros(price), Amount::from_micros(rate), Amount::from_micros(pressure)).micros
    };
    assert_eq!(r(10_000, 1_000_000, -800_000), 10_000);
    assert_eq!(r(10_000_000, 5_000_000, -1_000_000), 10_000);
    assert_eq!(r(10_000_000, i64::MAX, i64::MIN), 10_000);
    assert_eq!(r(0, 20_000, 500_000), 10_000);
    assert_eq!(r(-5_000_000, 20_000, 500_000), 10_000);
    assert_eq!(r(i64::MAX, i64::MAX, i64::MAX), i64::MAX);
}

#[test]
fn market_opens_at_base_prices_or_the_floor() {
    let m = Market::new(&catalogue(vec![10_000_000, 5, 0, -3_000_000, 10_000], vec![]));
    assert_eq!(micros(&m.price), vec![10_000_000, 10_000, 10_000, 10_000, 10_000]);
    assert_eq!(micros(&m.demand), vec![0; 5]);
    assert_eq!(micros(&m.supply), vec![0; 5]);
    assert_eq!(m.adjustment_rate.micros, 20_000);
    let empty = Market::new(&catalogue(vec![], vec![]));
    assert!(empty.price.is_empty() && empty.demand.is_empty() && empty.supply.is_empty());
}

#[test]
fn noted_pressure_accumulates_and_ignores_negative_amounts() {
    let mut m = Market::new(&catalogue(vec![10_000_000, 10_000_000], vec![]));
    m.note_demand(GoodId(0), Amount::from_units(2));
    m.note_demand(GoodId(0), Amount::from_micros(500_000));
    m.note_demand(GoodId(0), Amount::from_units(-9));
    m.note_supply(GoodId(1), Amount::from_units(3));
    m.note_supply(GoodId(1), Amount::from_units(-1));
    m.note_supply(GoodId(0), Amount::from_micros(1));
    assert_eq!(micros(&m.demand), vec![2_500_000, 0]);
    assert_eq!(micros(&m.supply), vec![1, 3_000_000]);
    assert_eq!(micros(&m.price), vec![10_000_000, 10_000_000]);
    m.note_demand(GoodId(1), Amount::from_micros(i64::MAX));
    m.note_demand(GoodId(1), Amount::from_micros(i64::MAX));
    assert_eq!(m.demand[1].micros, i64::MAX);
}

#[test]
fn adjust_prices_steps_each_good_by_its_own_pressure() {
    let mut m = Market::new(&catalogue(vec![10_000_000, 10_000_000, 10_000_000, 10_000], vec![]));
    m.note_demand(GoodId(0), Amount::from_units(1));
    m.note_supply(GoodId(1), Amount::from_units(1));
    m.note_demand(GoodId(2), Amount::from_units(5));
    m.note_supply(GoodId(2), Amount::from_units(3));
    m.note_supply(GoodId(3), Amount::from_units(100));
    m.adjust_prices();
    // 10 * (1 + 0.02 * 0.5), 10 * (1 - 0.02 * 0.5), 10 * (1 + 0.02 * 0.25),
    // and the floor.
    assert_eq!(micros(&m.price), vec![10_100_000, 9_900_000, 10_050_000, 10_000]);
    // What was noted stays until the reset.
    assert_eq!(micros(&m.demand), vec![1_000_000, 0, 5_000_000, 0]);
    m.adjust_prices();
    assert_eq!(m.price[0].micros, 10_201_000);
    m.reset_pressures();
    assert_eq!(micros(&m.demand), vec![0; 4]);
    assert_eq!(micros(&m.supply), vec![0; 4]);
    assert_eq!(m.price[0].micros, 10_201_000);
    m.adjust_prices();
    assert_eq!(micros(&m.price), vec![10_201_000, 9_801_000, 10_100_250, 10_000]);
}

#[test]
fn adjustment_rate_is_the_markets_own() {
    let mut m = Market::new(&catalogue(vec![10_000_000], vec![]));
    m.adjustment_rate = Amount::from_micros(500_000);
    m.note_demand(GoodId(0), Amount::from_units(1));
    m.adjust_prices();
    assert_eq!(m.price[0].micros, 12_500_000);
    assert_eq!(m.adjustment_rate.micros, 500_000);
}

#[test]
fn stock_market_opens_at_base_prices_or_the_floor() {
    let m = StockMarket::new(&catalogue(vec![], vec![(20_000_000, 300_000), (1, 0)]));
    assert_eq!(micros(&m.price), vec![20_000_000, 10_000]);
    assert_eq!(micros(&m.demand), vec![0, 0]);
    assert_eq!(micros(&m.supply), vec![0, 0]);
}

#[test]
fn stock_prices_follow_pressure_by_volatility() {
    let s = catalogue(
        vec![],
        vec![(20_000_000, 300_000), (20_000_000, 5_000_000), (20_000_000, -1_000_000), (20_000_000, 1_000_000)],
    );
    let mut m = StockMarket::new(&s);
    m.note_buy(StockId(0), Amount::from_units(1));
    m.note_buy(StockId(1), Amount::from_units(7));
    m.note_sell(StockId(1), Amount::from_units(1));
    m.note_buy(StockId(2), Amount::from_units(1));
    m.note_sell(StockId(3), Amount::from_units(1));
    m.note_sell(StockId(3), Amount::from_units(-5));
    m.adjust(&s);
    // 20 * (1 + 0.3 * 0.8); volatility above one counts as one, pressure
    // 0.75; volatility below nothing counts as nothing; 20 * (1 - 0.8).
    assert_eq!(micros(&m.price), vec![24_800_000, 35_000_000, 20_000_000, 4_000_000]);
    assert_eq!(micros(&m.demand), vec![1_000_000, 7_000_000, 1_000_000, 0]);
    assert_eq!(micros(&m.supply), vec![0, 1_000_000, 0, 1_000_000]);
    m.reset();
    assert_eq!(micros(&m.demand), vec![0; 4]);
    assert_eq!(micros(&m.supply), vec![0; 4]);
    m.adjust(&s);
    assert_eq!(micros(&m.price), vec![24_800_000, 35_000_000, 20_000_000, 4_000_000]);
}

#[test]
fn stock_price_stops_at_the_floor() {
    let s = catalogue(vec![], vec![(20_000, 1_000_000)]);
    let mut m = StockMarket::new(&s);
    m.note_sell(StockId(0), Amount::from_units(1));
    for _ in 0..10 {
        m.adjust(&s);
        assert!(m.price[0].micros >= 10_000);
    }
    assert_eq!(m.price[0].micros, 10_000);
}
