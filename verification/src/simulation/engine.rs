//! The simulation: a population, its markets, and the tick that advances them.

use crate::amount::{lemma_total_not_negative, none_negative, total, zeros, Amount};
use crate::data::compiled::{
    goods_in_range, needs_in_range, stocks_in_range, NeedDef, Structure,
};
use crate::data::ids::{GoodId, HouseholdTypeId, NeedId, StockId};
use crate::simulation::economy::EconomyMetrics;
use crate::simulation::household::{
    lemma_needs_stepped_keeps_identity, stocked, Household, HouseholdId, HouseholdView,
    Inventory, NeedState, Portfolio,
};
use crate::simulation::market::{
    accumulated, adjusted_prices, none_below_floor, opening_prices, Market,
    ADJUSTMENT_RATE_MICROS,
};
use crate::simulation::order::{below, lemma_stable_order, stable_order, stable_order_of};
use crate::simulation::rng::{next_word, seeded, stream_from, stream_word, upcoming};
use crate::simulation::stock_market::{opening_stock_prices, StockMarket};
use rand_chacha::ChaCha8Rng;
use vstd::prelude::*;

verus! {

/// A running economy.
pub struct Simulation {
    pub structure: Structure,
    pub households: Vec<Household>,
    pub market: Market,
    pub stock_market: StockMarket,
    pub tick: u64,
    /// The seed from which the population is drawn.
    pub seed: u64,
    /// How many households the population starts with.
    pub start_households: usize,
    /// The random stream, advanced only while the population is drawn.
    pub rng: ChaCha8Rng,
    pub metrics: EconomyMetrics,
}

/// A simulation as a value: everything that changes while it runs.
pub struct SimulationView {
    pub households: Seq<HouseholdView>,
    pub price: Seq<Amount>,
    pub demand: Seq<Amount>,
    pub supply: Seq<Amount>,
    pub adjustment_rate: Amount,
    pub stock_price: Seq<Amount>,
    pub stock_demand: Seq<Amount>,
    pub stock_supply: Seq<Amount>,
    pub tick: u64,
    pub metrics: EconomyMetrics,
    pub seed: u64,
    pub start_households: usize,
    /// The random words that are yet to come, by the number of draws until
    /// each.
    pub upcoming: spec_fn(nat) -> u32,
}

/// The households of a population, each as a value.
pub open spec fn population(households: Seq<Household>) -> Seq<HouseholdView> {
    Seq::new(households.len(), |i: int| households[i]@)
}

/// A holding of goods after the first `k` of `items` have been added to it.
pub open spec fn stocked_with(qty: Seq<Amount>, items: Seq<(GoodId, Amount)>, k: nat) -> Seq<
    Amount,
>
    decreases k,
{
    if k == 0 {
        qty
    } else {
        let before = stocked_with(qty, items, (k - 1) as nat);
        let item = items[k - 1];
        before.update(item.0.0 as int, stocked(before[item.0.0 as int], item.1))
    }
}

/// A holding of stocks after the first `k` of `items` have been added to it.
pub open spec fn invested_with(qty: Seq<Amount>, items: Seq<(StockId, Amount)>, k: nat) -> Seq<
    Amount,
>
    decreases k,
{
    if k == 0 {
        qty
    } else {
        let before = invested_with(qty, items, (k - 1) as nat);
        let item = items[k - 1];
        before.update(item.0.0 as int, stocked(before[item.0.0 as int], item.1))
    }
}

/// The timers that a new household of an archetype starts with: one per need
/// of the archetype, a full interval away and counted as met.
pub open spec fn fresh_needs(refs: Seq<NeedId>, defs: Seq<NeedDef>) -> Seq<NeedState> {
    Seq::new(
        refs.len(),
        |k: int|
            NeedState {
                need: refs[k],
                next_due_in: defs[refs[k].0 as int].interval_ticks,
                fulfilled_last: true,
            },
    )
}

/// The archetype that the random word `word` picks among `count` archetypes.
pub open spec fn picked(word: u32, count: nat) -> int {
    (word as int) % (if count == 0 {
        1int
    } else {
        count as int
    })
}

/// The household with id `i` whose archetype the random word `word` picks: it
/// starts with what the archetype says.
pub open spec fn spawned_by(s: Structure, i: nat, word: u32) -> HouseholdView {
    let t = picked(word, s.household_types@.len());
    let archetype = s.household_types@[t];
    HouseholdView {
        id: HouseholdId(i as u32),
        kind: HouseholdTypeId(t as u32),
        cash: archetype.starting_cash,
        inventory: stocked_with(
            zeros(s.goods@.len()),
            archetype.starting_inventory@,
            archetype.starting_inventory@.len(),
        ),
        portfolio: invested_with(
            zeros(s.stocks@.len()),
            archetype.starting_portfolio@,
            archetype.starting_portfolio@.len(),
        ),
        needs: fresh_needs(archetype.needs@, s.needs@),
        utility: Amount::zero(),
        last_consumed: Seq::empty(),
    }
}

/// The household with id `i` of a population drawn from `seed`: its archetype
/// is picked by the word at position `i` of the seed's stream.
pub open spec fn spawned(s: Structure, seed: u64, i: nat) -> HouseholdView {
    spawned_by(s, i, stream_word(seed, i))
}

/// The state in which a simulation of `count` households drawn from `seed`
/// starts.
pub open spec fn initial(s: Structure, seed: u64, count: usize) -> SimulationView {
    SimulationView {
        households: Seq::new(count as nat, |i: int| spawned(s, seed, i as nat)),
        price: opening_prices(s.goods@),
        demand: zeros(s.goods@.len()),
        supply: zeros(s.goods@.len()),
        adjustment_rate: Amount { micros: ADJUSTMENT_RATE_MICROS },
        stock_price: opening_stock_prices(s.stocks@),
        stock_demand: zeros(s.stocks@.len()),
        stock_supply: zeros(s.stocks@.len()),
        tick: 0,
        metrics: EconomyMetrics {
            tick: 0,
            households: 0,
            total_cash: Amount::zero(),
            avg_utility: Amount::zero(),
        },
        seed,
        start_households: count,
        upcoming: stream_from(seed, count as nat),
    }
}

/// A population of `count` households can be drawn for `s`: their ids fit in
/// 32 bits, and there is an archetype to pick unless nobody is drawn.
pub open spec fn can_populate(s: Structure, count: usize) -> bool {
    &&& count <= u32::MAX
    &&& count == 0 || s.household_types@.len() > 0
}

proof fn lemma_stocked_with(qty: Seq<Amount>, items: Seq<(GoodId, Amount)>, k: nat)
    requires
        none_negative(qty),
        goods_in_range(items, qty.len() as int),
        k <= items.len(),
    ensures
        stocked_with(qty, items, k).len() == qty.len(),
        none_negative(stocked_with(qty, items, k)),
    decreases k,
{
    if k > 0 {
        lemma_stocked_with(qty, items, (k - 1) as nat);
    }
}

proof fn lemma_invested_with(qty: Seq<Amount>, items: Seq<(StockId, Amount)>, k: nat)
    requires
        none_negative(qty),
        stocks_in_range(items, qty.len() as int),
        k <= items.len(),
    ensures
        invested_with(qty, items, k).len() == qty.len(),
        none_negative(invested_with(qty, items, k)),
    decreases k,
{
    if k > 0 {
        lemma_invested_with(qty, items, (k - 1) as nat);
    }
}

/// Makes the household with id `i` from the archetype that `word` picks.
fn spawn_one(s: &Structure, i: usize, word: u32) -> (household: Household)
    requires
        s.wf(),
        s.household_types@.len() > 0,
        i <= u32::MAX,
    ensures
        household@ == spawned_by(*s, i as nat, word),
        household@.fits(*s),
{
    let tlen = s.household_types.len();
    let t = (word as usize) % tlen;
    assert(t as int == picked(word, s.household_types@.len()));
    let td = &s.household_types[t];
    assert(s.household_type_wf(t as int));
    let kind = HouseholdTypeId(t as u32);

    let mut inv = Inventory::new(s.goods.len());
    let mut a: usize = 0;
    while a < td.starting_inventory.len()
        invariant
            a <= td.starting_inventory@.len(),
            goods_in_range(td.starting_inventory@, s.goods@.len() as int),
            inv.qty@.len() == s.goods@.len(),
            inv.qty@ == stocked_with(zeros(s.goods@.len()), td.starting_inventory@, a as nat),
        decreases td.starting_inventory@.len() - a,
    {
        let item = td.starting_inventory[a];
        inv.add(item.0, item.1);
        a = a + 1;
    }

    let mut portfolio = Portfolio::new(s.stocks.len());
    let mut b: usize = 0;
    while b < td.starting_portfolio.len()
        invariant
            b <= td.starting_portfolio@.len(),
            stocks_in_range(td.starting_portfolio@, s.stocks@.len() as int),
            portfolio.qty@.len() == s.stocks@.len(),
            portfolio.qty@ == invested_with(
                zeros(s.stocks@.len()),
                td.starting_portfolio@,
                b as nat,
            ),
        decreases td.starting_portfolio@.len() - b,
    {
        let item = td.starting_portfolio[b];
        portfolio.add(item.0, item.1);
        b = b + 1;
    }

    let mut needs: Vec<NeedState> = Vec::new();
    let mut c: usize = 0;
    while c < td.needs.len()
        invariant
            c <= td.needs@.len(),
            needs_in_range(td.needs@, s.needs@.len() as int),
            needs@.len() == c,
            forall|k: int| 0 <= k < c ==> needs@[k] == fresh_needs(td.needs@, s.needs@)[k],
        decreases td.needs@.len() - c,
    {
        let nid = td.needs[c];
        let nd = &s.needs[nid.0 as usize];
        needs.push(NeedState { need: nid, next_due_in: nd.interval_ticks, fulfilled_last: true });
        c = c + 1;
    }
    proof {
        assert(needs@ =~= fresh_needs(td.needs@, s.needs@));
        lemma_stocked_with(
            zeros(s.goods@.len()),
            td.starting_inventory@,
            td.starting_inventory@.len(),
        );
        lemma_invested_with(
            zeros(s.stocks@.len()),
            td.starting_portfolio@,
            td.starting_portfolio@.len(),
        );
    }
    Household::new(HouseholdId(i as u32), kind, td.starting_cash, inv, portfolio, needs)
}

impl View for Simulation {
    type V = SimulationView;

    open spec fn view(&self) -> SimulationView {
        SimulationView {
            households: population(self.households@),
            price: self.market.price@,
            demand: self.market.demand@,
            supply: self.market.supply@,
            adjustment_rate: self.market.adjustment_rate,
            stock_price: self.stock_market.price@,
            stock_demand: self.stock_market.demand@,
            stock_supply: self.stock_market.supply@,
            tick: self.tick,
            metrics: self.metrics,
            seed: self.seed,
            start_households: self.start_households,
            upcoming: |k: nat| upcoming(self.rng, k),
        }
    }
}

impl Simulation {
    /// The catalogue is well formed, both markets are and have a slot for each
    /// good and stock, and every household fits the catalogue.
    pub open spec fn wf(&self) -> bool {
        &&& self.structure.wf()
        &&& can_populate(self.structure, self.start_households)
        &&& self.market.wf()
        &&& self.market.price@.len() == self.structure.goods@.len()
        &&& self.stock_market.wf()
        &&& self.stock_market.price@.len() == self.structure.stocks@.len()
        &&& forall|i: int|
            0 <= i < self.households@.len() ==> (#[trigger] self.households@[i])@.fits(
                self.structure,
            )
    }

    /// Whether a simulation of `start_households` households can be made for
    /// `structure`.
    pub fn can_start(structure: &Structure, start_households: usize) -> (ok: bool)
        ensures
            ok == (structure.wf() && can_populate(*structure, start_households)),
    {
        structure.is_well_formed() && start_households <= u32::MAX as usize && (start_households
            == 0 || structure.household_types.len() > 0)
    }

    /// A simulation at tick zero: markets at their opening prices and a
    /// population of `start_households` drawn from `seed`.
    pub fn new(structure: Structure, seed: u64, start_households: usize) -> (sim: Simulation)
        requires
            structure.wf(),
            can_populate(structure, start_households),
        ensures
            sim.wf(),
            sim.structure == structure,
            sim@ == initial(structure, seed, start_households),
    {
        let rng = seeded(seed);
        let market = Market::new(&structure);
        let stock_market = StockMarket::new(&structure);
        let mut sim = Simulation {
            structure,
            households: Vec::new(),
            market,
            stock_market,
            tick: 0,
            seed,
            start_households,
            rng,
            metrics: EconomyMetrics::default(),
        };
        sim.spawn_households(start_households);
        assert(sim@.households =~= initial(structure, seed, start_households).households);
        assert(sim@.upcoming =~= initial(structure, seed, start_households).upcoming);
        sim
    }

    /// Draws `n` households, one random word each, and appends them.
    fn spawn_households(&mut self, n: usize)
        requires
            old(self).wf(),
            old(self).households@.len() == 0,
            forall|k: nat|
                #[trigger] upcoming(old(self).rng, k) == stream_word(old(self).seed, k),
            can_populate(old(self).structure, n),
        ensures
            final(self).wf(),
            final(self).structure == old(self).structure,
            final(self).market == old(self).market,
            final(self).stock_market == old(self).stock_market,
            final(self).tick == old(self).tick,
            final(self).seed == old(self).seed,
            final(self).start_households == old(self).start_households,
            final(self).metrics == old(self).metrics,
            forall|k: nat|
                #[trigger] upcoming(final(self).rng, k) == stream_word(
                    old(self).seed,
                    n as nat + k,
                ),
            final(self).households@.len() == n,
            forall|i: int|
                0 <= i < n ==> (#[trigger] final(self).households@[i])@ == spawned(
                    old(self).structure,
                    old(self).seed,
                    i as nat,
                ),
    {
        let mut i: usize = 0;
        while i < n
            invariant
                i <= n,
                self.wf(),
                can_populate(self.structure, n),
                self.structure == old(self).structure,
                self.market == old(self).market,
                self.stock_market == old(self).stock_market,
                self.tick == old(self).tick,
                self.seed == old(self).seed,
                self.start_households == old(self).start_households,
                self.metrics == old(self).metrics,
                forall|k: nat|
                    #[trigger] upcoming(self.rng, k) == stream_word(self.seed, i as nat + k),
                self.households@.len() == i,
                forall|k: int|
                    0 <= k < i ==> (#[trigger] self.households@[k])@ == spawned(
                        self.structure,
                        self.seed,
                        k as nat,
                    ),
            decreases n - i,
        {
            let word = next_word(&mut self.rng);
            let household = spawn_one(&self.structure, i, word);
            self.households.push(household);
            i = i + 1;
        }
    }
}

/// The household after the part of a tick that it spends on its own: it is
/// paid its archetype's income, its holdings decay, and it looks at its needs.
pub open spec fn lived(h: HouseholdView, s: Structure) -> HouseholdView {
    h.paid(s.household_types@[h.kind.0 as int].income_per_tick).spoiled(s).needs_stepped(
        s.needs@,
    )
}

/// What a household lacks, read off the first `n` of its timers: for each need
/// that was missed when it was last due, the good and the quantity it asks
/// for, in the order of the timers.
pub open spec fn wants(needs: Seq<NeedState>, defs: Seq<NeedDef>, n: nat) -> Seq<(GoodId, Amount)>
    decreases n,
{
    if n == 0 {
        Seq::empty()
    } else {
        let before = wants(needs, defs, (n - 1) as nat);
        let state = needs[n - 1];
        if state.fulfilled_last {
            before
        } else {
            before.push((defs[state.need.0 as int].good, defs[state.need.0 as int].amount))
        }
    }
}

/// The good id of each want, by position.
pub open spec fn want_keys(list: Seq<(GoodId, Amount)>) -> Seq<u64> {
    Seq::new(list.len(), |i: int| list[i].0.0 as u64)
}

/// What shopping changes: the shopper's cash and holdings, and the demand that
/// the market has noted.
pub struct Shopping {
    pub cash: Amount,
    pub inventory: Seq<Amount>,
    pub demand: Seq<Amount>,
}

impl Shopping {
    /// One attempt to buy `amount` of `good` at the posted prices: the demand
    /// is noted whether or not the purchase goes through, and it goes through
    /// if the cash covers the cost.
    pub open spec fn attempted(self, price: Seq<Amount>, good: GoodId, amount: Amount) -> Shopping {
        let cost = price[good.0 as int].saturating_mul(amount);
        let demand = self.demand.update(
            good.0 as int,
            accumulated(self.demand[good.0 as int], amount),
        );
        if self.cash.micros >= cost.micros {
            Shopping {
                cash: self.cash.saturating_sub(cost),
                inventory: self.inventory.update(
                    good.0 as int,
                    stocked(self.inventory[good.0 as int], amount),
                ),
                demand,
            }
        } else {
            Shopping { demand, ..self }
        }
    }

    /// The attempts at the wants that stand at the first `k` positions of
    /// `order`, one after the other.
    pub open spec fn attempted_through(
        self,
        price: Seq<Amount>,
        list: Seq<(GoodId, Amount)>,
        order: Seq<usize>,
        k: nat,
    ) -> Shopping
        decreases k,
    {
        if k == 0 {
            self
        } else {
            let want = list[order[k - 1] as int];
            self.attempted_through(price, list, order, (k - 1) as nat).attempted(
                price,
                want.0,
                want.1,
            )
        }
    }
}

/// A household's round on the market: it tries to buy everything it lacks, by
/// ascending good id, at prices that do not move during the round.
pub open spec fn shopped(
    h: HouseholdView,
    demand: Seq<Amount>,
    price: Seq<Amount>,
    defs: Seq<NeedDef>,
) -> Shopping {
    let list = wants(h.needs, defs, h.needs.len());
    Shopping { cash: h.cash, inventory: h.inventory, demand }.attempted_through(
        price,
        list,
        stable_order(want_keys(list)),
        list.len(),
    )
}

/// The demand that the market has noted after the first `n` households have
/// been on the market, one after the other.
pub open spec fn demand_after(
    households: Seq<HouseholdView>,
    price: Seq<Amount>,
    defs: Seq<NeedDef>,
    n: nat,
) -> Seq<Amount>
    decreases n,
{
    if n == 0 {
        zeros(price.len())
    } else {
        shopped(
            households[n - 1],
            demand_after(households, price, defs, (n - 1) as nat),
            price,
            defs,
        ).demand
    }
}

/// The household at position `i` after its round on the market, which comes
/// behind the rounds of all households before it.
pub open spec fn supplied(
    households: Seq<HouseholdView>,
    price: Seq<Amount>,
    defs: Seq<NeedDef>,
    i: int,
) -> HouseholdView {
    let round = shopped(households[i], demand_after(households, price, defs, i as nat), price, defs);
    HouseholdView { cash: round.cash, inventory: round.inventory, ..households[i] }
}

/// The state one tick on.
pub open spec fn ticked(v: SimulationView, s: Structure) -> SimulationView {
    let at_home = Seq::new(v.households.len(), |i: int| lived(v.households[i], s));
    let demand = demand_after(at_home, v.price, s.needs@, at_home.len());
    SimulationView {
        households: Seq::new(
            at_home.len(),
            |i: int| supplied(at_home, v.price, s.needs@, i),
        ),
        price: adjusted_prices(v.price, demand, zeros(v.price.len()), v.adjustment_rate),
        demand,
        supply: zeros(v.price.len()),
        stock_demand: zeros(v.stock_price.len()),
        stock_supply: zeros(v.stock_price.len()),
        tick: (v.tick + 1) as u64,
        metrics: EconomyMetrics { tick: (v.tick + 1) as u64, ..v.metrics },
        ..v
    }
}

/// The state `n` ticks on.
pub open spec fn ticked_times(v: SimulationView, s: Structure, n: nat) -> SimulationView
    decreases n,
{
    if n == 0 {
        v
    } else {
        ticked(ticked_times(v, s, (n - 1) as nat), s)
    }
}

/// What a round on the market leaves noted depends on what the household
/// lacks alone, not on what it can pay for: two shoppers with the same wants
/// leave the same demand, whatever their cash and their holdings.
pub proof fn lemma_demand_ignores_purse(
    a: Shopping,
    b: Shopping,
    price: Seq<Amount>,
    list: Seq<(GoodId, Amount)>,
    order: Seq<usize>,
    k: nat,
)
    requires
        a.demand == b.demand,
    ensures
        a.attempted_through(price, list, order, k).demand == b.attempted_through(
            price,
            list,
            order,
            k,
        ).demand,
    decreases k,
{
    if k > 0 {
        lemma_demand_ignores_purse(a, b, price, list, order, (k - 1) as nat);
    }
}

proof fn lemma_wants_in_range(needs: Seq<NeedState>, s: Structure, n: nat)
    requires
        s.wf(),
        n <= needs.len(),
        forall|i: int| 0 <= i < needs.len() ==> (#[trigger] needs[i]).need.0 < s.needs@.len(),
    ensures
        wants(needs, s.needs@, n).len() <= n,
        goods_in_range(wants(needs, s.needs@, n), s.goods@.len() as int),
    decreases n,
{
    if n > 0 {
        lemma_wants_in_range(needs, s, (n - 1) as nat);
        assert(s.need_wf(needs[n - 1].need.0 as int));
    }
}

/// Lists what the household lacks, in the order of its timers.
fn wants_of(h: &Household, s: &Structure) -> (list: Vec<(GoodId, Amount)>)
    requires
        s.wf(),
        h@.fits(*s),
    ensures
        list@ == wants(h@.needs, s.needs@, h@.needs.len()),
        goods_in_range(list@, s.goods@.len() as int),
{
    let mut list: Vec<(GoodId, Amount)> = Vec::new();
    let mut i: usize = 0;
    while i < h.needs.len()
        invariant
            s.wf(),
            h@.fits(*s),
            i <= h.needs@.len(),
            list@ == wants(h@.needs, s.needs@, i as nat),
        decreases h.needs@.len() - i,
    {
        let state = h.needs[i];
        assert(h@.needs[i as int] == state);
        if !state.fulfilled_last {
            let nd = &s.needs[state.need.0 as usize];
            list.push((nd.good, nd.amount));
        }
        i = i + 1;
    }
    proof {
        lemma_wants_in_range(h@.needs, *s, h@.needs.len());
    }
    list
}

/// Sends one household on its round on the market.
fn shop(h: &mut Household, market: &mut Market, s: &Structure)
    requires
        s.wf(),
        old(h)@.fits(*s),
        old(market).wf(),
        old(market).price@.len() == s.goods@.len(),
    ensures
        final(h)@.fits(*s),
        final(market).wf(),
        final(market).price@ == old(market).price@,
        final(market).supply@ == old(market).supply@,
        final(market).adjustment_rate == old(market).adjustment_rate,
        final(market).demand@ == shopped(
            old(h)@,
            old(market).demand@,
            old(market).price@,
            s.needs@,
        ).demand,
        final(h)@ == (HouseholdView {
            cash: shopped(old(h)@, old(market).demand@, old(market).price@, s.needs@).cash,
            inventory: shopped(
                old(h)@,
                old(market).demand@,
                old(market).price@,
                s.needs@,
            ).inventory,
            ..old(h)@
        }),
{
    let list = wants_of(h, s);
    let mut keys: Vec<u64> = Vec::new();
    let mut j: usize = 0;
    while j < list.len()
        invariant
            j <= list@.len(),
            keys@.len() == j,
            forall|k: int| 0 <= k < j ==> keys@[k] == want_keys(list@)[k],
        decreases list@.len() - j,
    {
        keys.push(list[j].0.0 as u64);
        j = j + 1;
    }
    assert(keys@ =~= want_keys(list@));
    let order = stable_order_of(&keys);
    proof {
        lemma_stable_order(keys@);
    }
    let ghost start = Shopping {
        cash: h.cash,
        inventory: h.inventory.qty@,
        demand: market.demand@,
    };
    let n = order.len();
    let mut k: usize = 0;
    while k < n
        invariant
            s.wf(),
            k <= n,
            n == list@.len(),
            order@.len() == n,
            below(order@, n as int),
            goods_in_range(list@, s.goods@.len() as int),
            market.wf(),
            market.price@ == old(market).price@,
            market.price@.len() == s.goods@.len(),
            market.supply@ == old(market).supply@,
            market.adjustment_rate == old(market).adjustment_rate,
            h@.fits(*s),
            h@ == (HouseholdView { cash: h.cash, inventory: h.inventory.qty@, ..old(h)@ }),
            (Shopping { cash: h.cash, inventory: h.inventory.qty@, demand: market.demand@ })
                == start.attempted_through(market.price@, list@, order@, k as nat),
        decreases n - k,
    {
        let want = list[order[k]];
        let g = want.0;
        let amount = want.1;
        let price = market.price[g.0 as usize];
        let cost = price.saturating_mul(amount);
        market.note_demand(g, amount);
        let ghost prior = h@;
        if h.cash.micros >= cost.micros {
            h.cash = h.cash.saturating_sub(cost);
            h.inventory.add(g, amount);
        }
        assert(h@.needs == prior.needs);
        k = k + 1;
    }
}

/// Lets every household live through the tick on its own, in id order.
fn live_all(households: &mut Vec<Household>, s: &Structure)
    requires
        s.wf(),
        forall|k: int| 0 <= k < old(households)@.len() ==> (#[trigger] old(households)@[k])@.fits(*s),
    ensures
        final(households)@.len() == old(households)@.len(),
        forall|k: int|
            0 <= k < final(households)@.len() ==> (#[trigger] final(households)@[k])@.fits(*s),
        forall|k: int|
            0 <= k < final(households)@.len() ==> (#[trigger] final(households)@[k])@ == lived(
                old(households)@[k]@,
                *s,
            ),
{
    let n = households.len();
    let mut i: usize = 0;
    while i < n
        invariant
            s.wf(),
            i <= n,
            n == households@.len(),
            n == old(households)@.len(),
            forall|k: int| 0 <= k < n ==> (#[trigger] households@[k])@.fits(*s),
            forall|k: int|
                0 <= k < i ==> (#[trigger] households@[k])@ == lived(old(households)@[k]@, *s),
            forall|k: int| i <= k < n ==> (#[trigger] households@[k]) == old(households)@[k],
        decreases n - i,
    {
        let kind = households[i].kind;
        assert(households@[i as int]@.fits(*s));
        let income = s.household_types[kind.0 as usize].income_per_tick;
        let h = &mut households[i];
        h.apply_income(income);
        h.apply_decay(s);
        h.step_needs(s);
        i = i + 1;
    }
}

/// Sends every household on its round on the market, in id order.
fn shop_all(households: &mut Vec<Household>, market: &mut Market, s: &Structure)
    requires
        s.wf(),
        forall|k: int| 0 <= k < old(households)@.len() ==> (#[trigger] old(households)@[k])@.fits(*s),
        old(market).wf(),
        old(market).price@.len() == s.goods@.len(),
        old(market).demand@ == zeros(old(market).price@.len()),
    ensures
        final(households)@.len() == old(households)@.len(),
        forall|k: int|
            0 <= k < final(households)@.len() ==> (#[trigger] final(households)@[k])@.fits(*s),
        forall|k: int|
            0 <= k < final(households)@.len() ==> (#[trigger] final(households)@[k])@ == supplied(
                population(old(households)@),
                old(market).price@,
                s.needs@,
                k,
            ),
        final(market).wf(),
        final(market).price@ == old(market).price@,
        final(market).supply@ == old(market).supply@,
        final(market).adjustment_rate == old(market).adjustment_rate,
        final(market).demand@ == demand_after(
            population(old(households)@),
            old(market).price@,
            s.needs@,
            old(households)@.len(),
        ),
{
    let n = households.len();
    let ghost before = population(households@);
    let mut i: usize = 0;
    while i < n
        invariant
            s.wf(),
            i <= n,
            n == households@.len(),
            n == before.len(),
            before == population(old(households)@),
            forall|k: int| 0 <= k < n ==> (#[trigger] households@[k])@.fits(*s),
            forall|k: int|
                0 <= k < i ==> (#[trigger] households@[k])@ == supplied(
                    before,
                    market.price@,
                    s.needs@,
                    k,
                ),
            forall|k: int| i <= k < n ==> (#[trigger] households@[k])@ == before[k],
            market.wf(),
            market.price@ == old(market).price@,
            market.price@.len() == s.goods@.len(),
            market.supply@ == old(market).supply@,
            market.adjustment_rate == old(market).adjustment_rate,
            market.demand@ == demand_after(before, market.price@, s.needs@, i as nat),
        decreases n - i,
    {
        assert(households@[i as int]@ == before[i as int]);
        let h = &mut households[i];
        shop(h, market, s);
        i = i + 1;
    }
}

impl Simulation {
    /// Advances the simulation by one tick: the pressure noted on both markets
    /// is forgotten, every household lives through the tick on its own, then
    /// every household goes to the goods market for what it lacks, and last
    /// the goods prices move once by the demand that was noted.
    pub fn tick(&mut self)
        requires
            old(self).wf(),
            old(self).tick < u64::MAX,
        ensures
            final(self).wf(),
            final(self).structure == old(self).structure,
            final(self)@ == ticked(old(self)@, old(self).structure),
    {
        self.tick = self.tick + 1;
        self.market.reset_pressures();
        self.stock_market.reset();
        live_all(&mut self.households, &self.structure);
        let ghost at_home = population(self.households@);
        shop_all(&mut self.households, &mut self.market, &self.structure);
        self.market.adjust_prices();
        self.metrics.tick = self.tick;
        proof {
            let v = old(self)@;
            let s = self.structure;
            assert(at_home =~= Seq::new(v.households.len(), |i: int| lived(v.households[i], s)));
            assert(self@.households =~= ticked(v, s).households);
            assert(self@ == ticked(v, s));
        }
    }
}

/// The state after every household has been made to give up its stocks:
/// every portfolio slot holds nothing, and nothing else has changed. No market
/// is told of it.
pub open spec fn liquidated(v: SimulationView) -> SimulationView {
    SimulationView {
        households: Seq::new(
            v.households.len(),
            |i: int|
                HouseholdView {
                    portfolio: zeros(v.households[i].portfolio.len()),
                    ..v.households[i]
                },
        ),
        ..v
    }
}

/// The cash of the first `n` households, summed up one by one.
pub open spec fn cash_of(households: Seq<HouseholdView>, n: nat) -> Amount
    decreases n,
{
    if n == 0 {
        Amount::zero()
    } else {
        cash_of(households, (n - 1) as nat).saturating_add(households[n - 1].cash)
    }
}

/// The utility of the first `n` households, summed up one by one.
pub open spec fn utility_of(households: Seq<HouseholdView>, n: nat) -> Amount
    decreases n,
{
    if n == 0 {
        Amount::zero()
    } else {
        utility_of(households, (n - 1) as nat).saturating_add(households[n - 1].utility)
    }
}

/// The summary of a state: the tick, the number of households, their cash in
/// total and their utility on average, which is nothing where there is no
/// household.
pub open spec fn summary(v: SimulationView) -> EconomyMetrics {
    EconomyMetrics {
        tick: v.tick,
        households: v.households.len() as usize,
        total_cash: cash_of(v.households, v.households.len()),
        avg_utility: if v.households.len() == 0 {
            Amount::zero()
        } else {
            utility_of(v.households, v.households.len()).shared_among(
                v.households.len() as usize,
            )
        },
    }
}

impl Simulation {
    /// Returns the simulation to the state in which it started: the state that
    /// a new simulation has for the same catalogue, seed and number of
    /// households.
    pub fn reset(&mut self)
        requires
            old(self).wf(),
        ensures
            final(self).wf(),
            final(self).structure == old(self).structure,
            final(self)@ == initial(
                old(self).structure,
                old(self).seed,
                old(self).start_households,
            ),
    {
        self.rng = seeded(self.seed);
        self.market = Market::new(&self.structure);
        self.stock_market = StockMarket::new(&self.structure);
        self.households = Vec::new();
        self.tick = 0;
        self.metrics = EconomyMetrics::default();
        let n = self.start_households;
        self.spawn_households(n);
        assert(self@.households =~= initial(
            old(self).structure,
            old(self).seed,
            old(self).start_households,
        ).households);
        assert(self@.upcoming =~= initial(
            old(self).structure,
            old(self).seed,
            old(self).start_households,
        ).upcoming);
    }

    /// Makes every household give up all its stocks. Cash and goods stay as
    /// they are, and the stock market is not told: whoever wants the sale to
    /// press on prices notes it there.
    pub fn force_sell_all_stocks(&mut self)
        requires
            old(self).wf(),
        ensures
            final(self).wf(),
            final(self).structure == old(self).structure,
            final(self)@ == liquidated(old(self)@),
    {
        let n = self.households.len();
        let mut i: usize = 0;
        while i < n
            invariant
                i <= n,
                n == self.households@.len(),
                n == old(self).households@.len(),
                self.wf(),
                self.structure == old(self).structure,
                self.market == old(self).market,
                self.stock_market == old(self).stock_market,
                self.tick == old(self).tick,
                self.seed == old(self).seed,
                self.start_households == old(self).start_households,
                self.rng == old(self).rng,
                self.metrics == old(self).metrics,
                forall|k: int|
                    0 <= k < i ==> (#[trigger] self.households@[k])@ == liquidated(
                        old(self)@,
                    ).households[k],
                forall|k: int|
                    i <= k < n ==> (#[trigger] self.households@[k]) == old(self).households@[k],
            decreases n - i,
        {
            let ghost prior = self.households@;
            assert(prior[i as int]@.fits(self.structure));
            let h = &mut self.households[i];
            h.portfolio.clear_all();
            proof {
                assert forall|k: int| 0 <= k < self.households@.len() implies (
                #[trigger] self.households@[k])@.fits(self.structure) by {
                    if k != i {
                        assert(self.households@[k] == prior[k]);
                        assert(prior[k]@.fits(self.structure));
                    } else {
                        let now = self.households@[k]@;
                        assert(now.needs == prior[k]@.needs);
                        assert(now.inventory == prior[k]@.inventory);
                        assert(now.portfolio == zeros(prior[k]@.portfolio.len()));
                    }
                }
            }
            i = i + 1;
        }
        assert(self@.households =~= liquidated(old(self)@).households);
    }

    /// Sums the simulation up.
    pub fn derived_metrics(&self) -> (metrics: EconomyMetrics)
        ensures
            metrics == summary(self@),
    {
        let n = self.households.len();
        let mut total_cash = Amount::zero();
        let mut total_utility = Amount::zero();
        let mut i: usize = 0;
        while i < n
            invariant
                i <= n,
                n == self.households@.len(),
                total_cash == cash_of(self@.households, i as nat),
                total_utility == utility_of(self@.households, i as nat),
            decreases n - i,
        {
            let h = &self.households[i];
            total_cash = total_cash.saturating_add(h.cash);
            total_utility = total_utility.saturating_add(h.utility);
            i = i + 1;
        }
        EconomyMetrics {
            tick: self.tick,
            households: n,
            total_cash,
            avg_utility: if n == 0 {
                Amount::zero()
            } else {
                total_utility.shared_among(n)
            },
        }
    }
}

/// At every moment of a run, neither the demand nor the supply noted on
/// either market sums to less than nothing.
pub proof fn lemma_noted_pressure_never_negative(sim: Simulation)
    requires
        sim.wf(),
    ensures
        total(sim@.demand) >= 0,
        total(sim@.supply) >= 0,
        total(sim@.stock_demand) >= 0,
        total(sim@.stock_supply) >= 0,
{
    lemma_total_not_negative(sim@.demand);
    lemma_total_not_negative(sim@.supply);
    lemma_total_not_negative(sim@.stock_demand);
    lemma_total_not_negative(sim@.stock_supply);
}

/// At every moment of a run, no price of a good or of a stock is below the
/// floor of one hundredth.
pub proof fn lemma_prices_never_below_floor(sim: Simulation)
    requires
        sim.wf(),
    ensures
        none_below_floor(sim@.price),
        none_below_floor(sim@.stock_price),
{
}

/// Two simulations that start from the same catalogue, seed and number of
/// households are in the same state after any number of ticks: the same
/// households with the same cash, utility and holdings, and the same prices.
pub proof fn lemma_same_start_same_run(
    a: Simulation,
    b: Simulation,
    s: Structure,
    seed: u64,
    count: usize,
    n: nat,
)
    requires
        a@ == initial(s, seed, count),
        b@ == initial(s, seed, count),
    ensures
        ticked_times(a@, s, n) == ticked_times(b@, s, n),
        ticked_times(a@, s, n) == ticked_times(initial(s, seed, count), s, n),
{
}

/// A tick changes neither who a household is nor what stocks it holds: stocks
/// leave a portfolio only when their sale is forced from outside.
pub proof fn lemma_tick_keeps_portfolios(v: SimulationView, s: Structure, i: int)
    requires
        0 <= i < v.households.len(),
    ensures
        ticked(v, s).households[i].id == v.households[i].id,
        ticked(v, s).households[i].kind == v.households[i].kind,
        ticked(v, s).households[i].portfolio == v.households[i].portfolio,
{
    let h = v.households[i];
    let income = s.household_types@[h.kind.0 as int].income_per_tick;
    lemma_needs_stepped_keeps_identity(h.paid(income).spoiled(s), s.needs@);
}

/// A tick never draws from the random stream, and changes neither the seed
/// nor the number of households: the population stays the one that was drawn
/// at the start.
pub proof fn lemma_tick_keeps_stream(v: SimulationView, s: Structure)
    ensures
        ticked(v, s).upcoming == v.upcoming,
        ticked(v, s).seed == v.seed,
        ticked(v, s).start_households == v.start_households,
        ticked(v, s).households.len() == v.households.len(),
{
}

} // verus!
