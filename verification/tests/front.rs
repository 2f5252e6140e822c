use economysim::amount::Amount;
use economysim::app::{App, Key, View};
use economysim::config::Config;
use economysim::data::compiled::{GoodDef, HouseholdTypeDef, NeedDef, StockDef, Structure};
use economysim::data::ids::{GoodId, HouseholdTypeId, Interner, NeedId, StockId};
use economysim::simulation::economy::EconomyMetrics;
use economysim::util::{Ticker, NANOS_PER_SECOND};

fn town() -> Structure {
    Structure {
        goods: vec![GoodDef {
            id: GoodId(0),
            display_name: "Bread".to_string(),
            base_price: Amount::from_units(10),
            decay_rate: Amount::zero(),
            stackable: true,
        }],
        needs: vec![NeedDef {
            id: NeedId(0),
            good: GoodId(0),
            amount: Amount::from_units(1),
            interval_ticks: 1,
            priority: 0,
        }],
        household_types: vec![HouseholdTypeDef {
            id: HouseholdTypeId(0),
            display_name: "Worker".to_string(),
            starting_cash: Amount::from_units(100),
            starting_inventory: Vec::new(),
            starting_portfolio: vec![(StockId(0), Amount::from_units(2))],
            needs: vec![NeedId(0)],
            income_per_tick: Amount::from_units(1),
        }],
        production_rules: Vec::new(),
        stocks: vec![StockDef {
            id: StockId(0),
            display_name: "Mill".to_string(),
            base_price: Amount::from_units(20),
            volatility: Amount::from_micros(500_000),
            shares_outstanding: 10,
        }],
        good_ids: Interner::new(),
        need_ids: Interner::new(),
        household_type_ids: Interner::new(),
        rule_ids: Interner::new(),
        stock_ids: Interner::new(),
    }
}

fn app(households: usize) -> App {
    let mut cfg = Config::default();
    cfg.start_households = households;
    cfg.seed = 9;
    App::new(cfg, town())
}

#[test]
fn default_config() {
    let cfg = Config::default();
    assert_eq!(cfg.tick_hz, 20);
    assert_eq!(cfg.ui_hz, 30);
    assert_eq!(cfg.seed, 1337);
    assert_eq!(cfg.start_households, 200);
    assert!(!cfg.debug);
    assert_eq!(cfg.data_paths.goods, "data/goods.xml");
    assert_eq!(cfg.data_paths.needs, "data/needs.xml");
    assert_eq!(cfg.data_paths.households, "data/households.xml");
    assert_eq!(cfg.data_paths.production, "data/production.xml");
    assert_eq!(cfg.data_paths.stocks, "data/stocks.xml");
}

#[test]
fn rates_are_floored_at_one() {
    let mut cfg = Config::default();
    cfg.tick_hz = 0;
    cfg.ui_hz = 0;
    cfg.floor_rates();
    assert_eq!((cfg.tick_hz, cfg.ui_hz), (1, 1));
    cfg.tick_hz = 60;
    cfg.floor_rates();
    assert_eq!((cfg.tick_hz, cfg.ui_hz), (60, 1));
    assert_eq!(cfg.seed, 1337);
}

#[test]
fn default_metrics_are_all_zero() {
    let m = EconomyMetrics::default();
    assert_eq!(m.tick, 0);
    assert_eq!(m.households, 0);
    assert_eq!(m.total_cash.micros, 0);
    assert_eq!(m.avg_utility.micros, 0);
}

#[test]
fn tabs_go_round() {
    assert_eq!(View::Overview.next(), View::Households);
    assert_eq!(View::Households.next(), View::Goods);
    assert_eq!(View::Goods.next(), View::Stocks);
    assert_eq!(View::Stocks.next(), View::Overview);
    assert_eq!(View::Overview.prev(), View::Stocks);
    assert_eq!(View::Households.prev(), View::Overview);
    assert_eq!(View::Goods.prev(), View::Households);
    assert_eq!(View::Stocks.prev(), View::Goods);
    for v in [View::Overview, View::Households, View::Goods, View::Stocks] {
        assert_eq!(v.next().prev(), v);
        assert_eq!(v.prev().next(), v);
    }
}

#[test]
fn tabs_have_a_place_and_a_title() {
    let pages = [View::Overview, View::Households, View::Goods, View::Stocks];
    assert_eq!(pages.map(View::index), [0, 1, 2, 3]);
    assert_eq!(pages.map(View::title), ["Overview", "Households", "Goods", "Stocks"]);
}

#[test]
fn the_shown_household_is_the_selected_one_or_the_last() {
    let mut a = app(3);
    assert_eq!(a.shown_household(), Some(0));
    a.selected_household = 2;
    assert_eq!(a.shown_household(), Some(2));
    a.selected_household = 7;
    assert_eq!(a.shown_household(), Some(2));
    assert_eq!(app(0).shown_household(), None);
}

#[test]
fn new_app_runs_on_the_overview() {
    let a = app(3);
    assert!(!a.paused);
    assert_eq!(a.view, View::Overview);
    assert_eq!(a.selected_household, 0);
    assert_eq!(a.last_action, "");
    assert_eq!(a.sim.households.len(), 3);
    assert_eq!(a.sim.seed, 9);
    assert_eq!(a.derived.tick, 0);
    assert_eq!(a.derived.households, 3);
    assert_eq!(a.derived.total_cash, Amount::from_units(300));
    assert_eq!(a.derived.avg_utility.micros, 0);
}

#[test]
fn q_quits_and_other_keys_do_not() {
    let mut a = app(2);
    assert!(a.on_key(Key::Char('q')));
    for key in [Key::Char('p'), Key::Char('.'), Key::Char('r'), Key::Char('x'), Key::Char('Q'), Key::Left, Key::Right, Key::Up, Key::Down, Key::Other] {
        assert!(!a.on_key(key));
    }
}

#[test]
fn p_pauses_and_resumes() {
    let mut a = app(2);
    a.on_key(Key::Char('p'));
    assert!(a.paused);
    a.on_key(Key::Char('p'));
    assert!(!a.paused);
}

#[test]
fn dot_steps_only_while_paused() {
    let mut a = app(2);
    a.on_key(Key::Char('.'));
    assert_eq!(a.sim.tick, 0);
    assert_eq!(a.derived.tick, 0);
    a.on_key(Key::Char('p'));
    a.on_key(Key::Char('.'));
    assert_eq!(a.sim.tick, 1);
    assert_eq!(a.derived.tick, 1);
    assert_eq!(a.derived.total_cash, Amount::from_units(202));
    a.on_key(Key::Char('.'));
    assert_eq!(a.sim.tick, 2);
    // Each household was paid twice and bought one bread at 10.
    assert_eq!(a.derived.total_cash, Amount::from_units(184));
    assert_eq!(a.derived.avg_utility.micros, -500_000);
}

#[test]
fn arrows_change_page_and_selection() {
    let mut a = app(3);
    a.on_key(Key::Right);
    assert_eq!(a.view, View::Households);
    a.on_key(Key::Left);
    a.on_key(Key::Left);
    assert_eq!(a.view, View::Stocks);
    a.on_key(Key::Up);
    assert_eq!(a.selected_household, 0);
    a.on_key(Key::Down);
    a.on_key(Key::Down);
    assert_eq!(a.selected_household, 2);
    a.on_key(Key::Down);
    assert_eq!(a.selected_household, 2);
    a.on_key(Key::Up);
    assert_eq!(a.selected_household, 1);

    let mut nobody = app(0);
    nobody.on_key(Key::Down);
    assert_eq!(nobody.selected_household, 0);
}

#[test]
fn x_forces_the_sale_and_leaves_a_note() {
    let mut a = app(3);
    assert!(a.sim.households.iter().all(|h| h.portfolio.qty[0] == Amount::from_units(2)));
    a.on_key(Key::Char('x'));
    assert_eq!(a.last_action, "FORCE SELL ALL STOCKS");
    for h in &a.sim.households {
        assert_eq!(h.portfolio.qty[0].micros, 0);
        assert_eq!(h.cash, Amount::from_units(100));
        assert_eq!(h.inventory.qty[0].micros, 0);
    }
    assert_eq!(a.sim.stock_market.supply[0].micros, 0);
    assert_eq!(a.sim.stock_market.price[0], Amount::from_units(20));
}

#[test]
fn r_starts_over() {
    let mut a = app(3);
    a.on_key(Key::Char('p'));
    a.on_key(Key::Right);
    a.on_key(Key::Down);
    for _ in 0..5 {
        a.on_key(Key::Char('.'));
    }
    a.on_key(Key::Char('x'));
    assert_eq!(a.sim.tick, 5);
    a.on_key(Key::Char('r'));
    assert_eq!(a.sim.tick, 0);
    assert_eq!(a.selected_household, 0);
    assert_eq!(a.last_action, "");
    assert!(a.paused);
    assert_eq!(a.view, View::Households);
    assert_eq!(a.derived.tick, 0);
    assert_eq!(a.derived.total_cash, Amount::from_units(300));
    let fresh = app(3);
    for (h, f) in a.sim.households.iter().zip(fresh.sim.households.iter()) {
        assert_eq!(h.kind, f.kind);
        assert_eq!(h.cash, f.cash);
        assert_eq!(h.portfolio.qty, f.portfolio.qty);
    }
    assert_eq!(a.sim.market.price, fresh.sim.market.price);
}

#[test]
fn recompute_metrics_follows_the_simulation() {
    let mut a = app(2);
    a.sim.tick();
    assert_eq!(a.derived.tick, 0);
    a.recompute_metrics();
    assert_eq!(a.derived.tick, 1);
    assert_eq!(a.derived, a.sim.derived_metrics());
    a.reset();
    assert_eq!(a.derived.tick, 0);
}

#[test]
fn ticker_period_is_rounded_to_the_nearest_nanosecond() {
    assert_eq!(NANOS_PER_SECOND, 1_000_000_000);
    assert_eq!(Ticker::new(1, 0).period_nanos(), 1_000_000_000);
    assert_eq!(Ticker::new(20, 0).period_nanos(), 50_000_000);
    assert_eq!(Ticker::new(30, 0).period_nanos(), 33_333_333);
    assert_eq!(Ticker::new(7, 0).period_nanos(), 142_857_143);
    assert_eq!(Ticker::new(3_000_000_000, 0).period_nanos(), 0);
    assert_eq!(Ticker::new(u64::MAX, 0).period_nanos(), 0);
}

#[test]
fn ticker_beats_one_period_after_the_last_due_moment() {
    let mut t = Ticker::new(20, 1_000);
    assert_eq!(t.next_due(), 50_001_000);
    assert!(!t.should_tick(1_000));
    assert!(!t.should_tick(50_000_999));
    assert_eq!(t.next_due(), 50_001_000);
    assert!(t.should_tick(50_001_000));
    assert_eq!(t.next_due(), 100_001_000);
    // A late beat does not move the grid.
    assert!(t.should_tick(170_000_000));
    assert_eq!(t.next_due(), 150_001_000);
    assert!(t.should_tick(170_000_000));
    assert_eq!(t.next_due(), 200_001_000);
    assert!(!t.should_tick(170_000_000));
    assert_eq!(t.period_nanos(), 50_000_000);
}

#[test]
fn ticker_stops_at_the_end_of_time() {
    let mut t = Ticker::new(1, u64::MAX - 5);
    assert_eq!(t.next_due(), u64::MAX);
    assert!(!t.should_tick(u64::MAX - 1));
    assert!(t.should_tick(u64::MAX));
    assert_eq!(t.next_due(), u64::MAX);
}
